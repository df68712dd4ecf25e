//! Requests to the worker, the service that nodes register with and ask for
//! connections.

use vstd::prelude::*;
use vstd::string::*;

use crate::config::Config;
use crate::json;
use crate::text;
use crate::types::Candidate;

verus! {

/// The URL of an endpoint below the worker's.
pub open spec fn endpoint_of(worker_url: Seq<char>, path: Seq<char>) -> Seq<char> {
    text::trim_end_of(worker_url, '/') + path
}

/// The URL of an endpoint below the worker's.
pub fn endpoint(worker_url: &str, path: &str) -> (r: String)
    ensures
        r@ == endpoint_of(worker_url@, path@),
{
    text::concat(text::trim_end(worker_url, '/'), path)
}

/// The value of the header `Authorization` for a token.
pub open spec fn bearer_of(token: Seq<char>) -> Seq<char> {
    "Bearer "@ + token
}

/// The value of the header `Authorization` for a token.
pub fn bearer(token: &str) -> (r: String)
    ensures
        r@ == bearer_of(token@),
{
    text::concat("Bearer ", token)
}

/// The status of a request that was served.
pub open spec fn success(status: u16) -> bool {
    200 <= status < 300
}

/// Whether a request was served.
pub fn is_success(status: u16) -> (r: bool)
    ensures
        r == success(status),
{
    200 <= status && status < 300
}

/// A status with its reason phrase.
pub uninterp spec fn status_line_of(status: u16) -> Seq<char>;

/// Writes a status with its reason phrase.
///
/// Calls `http::StatusCode::from_u16`, which takes 100 to 999, and the
/// status's `Display`. Trusted: the text depends on the number alone.
#[verifier::external_body]
pub(crate) fn status_line(status: u16) -> (r: String)
    requires
        100 <= status < 1000,
    ensures
        r@ == status_line_of(status),
{
    axum::http::StatusCode::from_u16(status).map(|s| s.to_string()).unwrap_or_default()
}

/// How long a registration may take when the node starts, in seconds.
pub const REGISTER_TIMEOUT_SECS: u64 = 10;

/// What a node tells the worker when it registers.
#[derive(Debug, Clone)]
pub struct RegisterRequest {
    pub edge_id: String,
    pub quic_conn_id: String,
    pub candidates: Vec<Candidate>,
    pub tunnel_url: String,
    pub group_name: String,
    pub group_password: String,
    pub virtual_ip: String,
}

impl RegisterRequest {
    /// This is what a node with this configuration tells.
    pub open spec fn is_of(
        self,
        config: Config,
        candidates: Vec<Candidate>,
        tunnel_url: String,
    ) -> bool {
        &&& self.edge_id == config.edge_id
        &&& self.quic_conn_id == config.quic_conn_id
        &&& self.candidates == candidates
        &&& self.tunnel_url == tunnel_url
        &&& self.group_name == config.group_name
        &&& self.group_password == config.group_password
        &&& self.virtual_ip == config.virtual_ip
    }
}

/// What a node tells the worker when it registers.
pub fn register_request(config: &Config, candidates: Vec<Candidate>, tunnel_url: String) -> (r:
    RegisterRequest)
    ensures
        r.is_of(*config, candidates, tunnel_url),
{
    RegisterRequest {
        edge_id: config.edge_id.clone(),
        quic_conn_id: config.quic_conn_id.clone(),
        candidates,
        tunnel_url,
        group_name: config.group_name.clone(),
        group_password: config.group_password.clone(),
        virtual_ip: config.virtual_ip.clone(),
    }
}

/// What a node tells the worker when it asks for a connection.
#[derive(Debug, Clone)]
pub struct ConnectRequest {
    pub from: String,
    pub target: String,
    pub candidates: Vec<Candidate>,
}

impl ConnectRequest {
    /// This is what a node with this configuration tells.
    pub open spec fn is_of(
        self,
        config: Config,
        target: Seq<char>,
        candidates: Vec<Candidate>,
    ) -> bool {
        &&& self.from == config.edge_id
        &&& self.target@ == target
        &&& self.candidates == candidates
    }
}

/// What a node tells the worker when it asks for a connection.
pub fn connect_request(config: &Config, target: &str, candidates: Vec<Candidate>) -> (r:
    ConnectRequest)
    ensures
        r.is_of(*config, target@, candidates),
{
    ConnectRequest { from: config.edge_id.clone(), target: target.to_owned(), candidates }
}

/// Why a registration failed.
#[derive(Debug, Clone)]
pub enum RegisterError {
    /// The worker refused; the text says with what.
    Refused(String),
    /// The worker's answer is no JSON.
    BadBody,
}

/// `r` is what the worker's answer to a registration says.
pub open spec fn is_register_reply(
    r: Result<Option<String>, RegisterError>,
    status: u16,
    body: Seq<u8>,
    body_text: Seq<char>,
) -> bool {
    if !success(status) {
        r matches Err(RegisterError::Refused(why)) && why@ == "注册失败: "@ + status_line_of(status)
            + " "@ + body_text
    } else if !json::is_json(body) {
        r matches Err(e) && e is BadBody
    } else {
        r matches Ok(id) && assigned_id(id) == json::text_member(body, "edge_id"@)
    }
}

/// The id that the worker's answer to a registration assigns, if any. `body`
/// are the bytes of the answer, `body_text` is its text.
pub fn register_reply(status: u16, body: &Vec<u8>, body_text: &str) -> (r: Result<
    Option<String>,
    RegisterError,
>)
    requires
        100 <= status < 1000,
    ensures
        is_register_reply(r, status, body@, body_text@),
{
    if !is_success(status) {
        let mut why = text::concat3("注册失败: ", status_line(status).as_str(), " ");
        why.append(body_text);
        return Err(RegisterError::Refused(why));
    }
    if !json::check_json(body) {
        return Err(RegisterError::BadBody);
    }
    Ok(json::read_text_member(body, "edge_id"))
}

/// The characters of an optional id.
pub open spec fn assigned_id(id: Option<String>) -> Option<Seq<char>> {
    match id {
        Some(s) => Some(s@),
        None => None,
    }
}

/// Slashes at the end of the worker's URL make no difference.
pub proof fn trailing_slash_is_ignored(worker_url: Seq<char>, path: Seq<char>)
    ensures
        endpoint_of(worker_url + "/"@, path) == endpoint_of(worker_url, path),
{
    reveal_strlit("/");
    let longer = worker_url + "/"@;
    assert(text::end_without(longer, '/', longer.len() as int) == text::end_without(
        longer,
        '/',
        worker_url.len() as int,
    ));
    end_without_extends(worker_url, "/"@, '/', worker_url.len() as int);
    assert(text::trim_end_of(longer, '/') =~= text::trim_end_of(worker_url, '/'));
}

/// What follows a text does not matter to where the text itself ends.
proof fn end_without_extends(s: Seq<char>, more: Seq<char>, c: char, n: int)
    requires
        0 <= n <= s.len(),
    ensures
        text::end_without(s + more, c, n) == text::end_without(s, c, n),
        0 <= text::end_without(s, c, n) <= n,
    decreases n,
{
    if n > 0 {
        assert((s + more)[n - 1] == s[n - 1]);
        end_without_extends(s, more, c, n - 1);
    }
}

/// An endpoint lies below the worker's URL, whatever slashes follow that.
pub proof fn endpoints_lie_below_the_worker(
    worker_url: Seq<char>,
    slashes: Seq<char>,
    path: Seq<char>,
)
    requires
        worker_url.len() == 0 || worker_url.last() != '/',
        forall|i: int| 0 <= i < slashes.len() ==> slashes[i] == '/',
    ensures
        endpoint_of(worker_url + slashes, path) == worker_url + path,
{
    text::trailing_runs_are_dropped(worker_url, slashes, '/');
}

/// The statuses from 200 to 299 tell of success, and no others.
pub proof fn two_hundreds_are_success(status: u16)
    ensures
        success(status) <==> status / 100 == 2,
{
}

/// A node authorises itself with its token, as it stands, behind a word and a
/// space.
pub proof fn tokens_are_borne_unchanged(token: Seq<char>)
    ensures
        text::after_prefix(bearer_of(token), "Bearer "@) == Some(token),
{
    text::placed_texts_occur(Seq::empty(), "Bearer "@, token);
}

/// A node registers under its own id and connection id, in its own group, with
/// its own address in the virtual network, and where it can be reached.
pub proof fn nodes_register_themselves(
    r: RegisterRequest,
    config: Config,
    candidates: Vec<Candidate>,
    tunnel_url: String,
)
    requires
        r.is_of(config, candidates, tunnel_url),
    ensures
        r.edge_id@ == config.edge_id@,
        r.quic_conn_id@ == config.quic_conn_id@,
        r.candidates@ == candidates@,
        r.tunnel_url@ == tunnel_url@,
        r.group_name@ == config.group_name@,
        r.group_password@ == config.group_password@,
        r.virtual_ip@ == config.virtual_ip@,
{
}

/// A node asks for a connection from itself to its peer.
pub proof fn connections_are_asked_for_by_the_node(
    r: ConnectRequest,
    config: Config,
    target: Seq<char>,
    candidates: Vec<Candidate>,
)
    requires
        r.is_of(config, target, candidates),
    ensures
        r.from@ == config.edge_id@,
        r.target@ == target,
        r.candidates@ == candidates@,
{
}

/// A registration assigns the id that the worker's answer tells, where the
/// status tells of success and the answer is JSON; else it has failed.
pub proof fn the_worker_assigns_the_id(
    r: Result<Option<String>, RegisterError>,
    status: u16,
    body: Seq<u8>,
    body_text: Seq<char>,
    id: Seq<char>,
)
    requires
        is_register_reply(r, status, body, body_text),
    ensures
        r is Ok <==> 200 <= status <= 299 && json::is_json(body),
        r is Ok && json::text_member(body, "edge_id"@) == Some(id) ==> (r->Ok_0 matches Some(s)
            && s@ == id),
        r is Ok && json::text_member(body, "edge_id"@) is None ==> r->Ok_0 is None,
        r matches Err(RegisterError::Refused(why)) ==> !(200 <= status <= 299)
            && text::finishes_with(why@, body_text) && text::has_text(why@, status_line_of(status)),
{
    let lead = "注册失败: "@;
    let line = status_line_of(status);
    text::placed_texts_occur(lead, line, " "@ + body_text);
    assert(lead + line + (" "@ + body_text) =~= lead + line + " "@ + body_text);
    text::placed_texts_occur(lead + line + " "@, body_text, Seq::empty());
}

/// A registration has ten seconds when the node starts.
pub proof fn registrations_have_their_time()
    ensures
        REGISTER_TIMEOUT_SECS == 10,
{
}

} // verus!
