//! `GET /health` and `POST /reload`.

use base64::Engine;
use vstd::prelude::*;
use vstd::string::*;

use crate::json;
use crate::text;

verus! {

/// The state of the node.
#[derive(Debug, Clone)]
pub struct HealthResponse {
    pub ok: bool,
    pub status: String,
    pub tunnel_ready: bool,
    pub peer_count: usize,
    /// When the token ends, in seconds since the epoch; zero where that is
    /// unknown or past.
    pub token_exp: u64,
    pub version: &'static str,
}

/// The bytes that a text spells in base64 with the alphabet for URLs and
/// without padding, if it does.
pub uninterp spec fn base64url_of(text: Seq<char>) -> Option<Seq<u8>>;

/// Decodes base64.
///
/// Calls `base64::Engine::decode` of the engine `URL_SAFE_NO_PAD`. Trusted: the
/// result depends on the text alone.
#[verifier::external_body]
fn decode_base64url(text: &str) -> (r: Option<Vec<u8>>)
    ensures
        match r {
            Some(bytes) => base64url_of(text@) == Some(bytes@),
            None => base64url_of(text@) is None,
        },
{
    base64::engine::general_purpose::URL_SAFE_NO_PAD.decode(text).ok()
}

/// The payload of a token: what stands between its first two dots, or behind
/// the first where there is no second.
pub open spec fn payload_of(token: Seq<char>) -> Option<Seq<char>> {
    let first = text::position_of(token, '.', 0);
    if first >= token.len() {
        None
    } else {
        Some(token.subrange(first + 1, text::position_of(token, '.', first + 1)))
    }
}

/// The payload of a token, still encoded.
pub fn token_payload<'a>(token: &'a str) -> (r: Option<&'a str>)
    ensures
        match r {
            Some(payload) => payload_of(token@) == Some(payload@),
            None => payload_of(token@) is None,
        },
{
    let chars = text::chars_of(token);
    let first = text::position_in(&chars, '.', 0);
    if first >= chars.len() {
        return None;
    }
    let second = text::position_in(&chars, '.', first + 1);
    Some(token.substring_char(first + 1, second))
}

/// When a token ends, from the claim `exp` of its payload: zero where that is
/// unknown.
pub fn exp_or_unknown(claim: Option<u64>) -> (r: u64)
    ensures
        r == match claim {
            Some(exp) => exp,
            None => 0,
        },
{
    match claim {
        Some(exp) => exp,
        None => 0,
    }
}

/// The claim `exp` of a token.
pub open spec fn exp_claim(token: Seq<char>) -> Option<u64> {
    match payload_of(token) {
        None => None,
        Some(payload) => match base64url_of(payload) {
            None => None,
            Some(bytes) => json::number_member(bytes, "exp"@),
        },
    }
}

/// When a token ends, as far as that is known: zero where it is not.
pub open spec fn known_exp(token: Option<Seq<char>>) -> u64 {
    match token {
        None => 0,
        Some(s) => match exp_claim(s) {
            Some(exp) => exp,
            None => 0,
        },
    }
}

/// When a token ends, in seconds since the epoch; its signature is not
/// checked. Zero where that is unknown. `token` is `None` while it is being
/// replaced.
pub fn extract_token_exp(token: &Option<String>) -> (r: u64)
    ensures
        r == match *token {
            None => known_exp(None),
            Some(s) => known_exp(Some(s@)),
        },
{
    match token {
        None => 0,
        Some(s) => match token_payload(s.as_str()) {
            None => 0,
            Some(payload) => match decode_base64url(payload) {
                None => 0,
                Some(bytes) => exp_or_unknown(json::read_number_member(&bytes, "exp")),
            },
        },
    }
}

/// The end of a token as it is shown at a time: zero once it is past.
pub open spec fn shown_exp(token_exp: u64, now: u64) -> u64 {
    if token_exp <= now {
        0
    } else {
        token_exp
    }
}

impl HealthResponse {
    /// This is the answer about a node in such a state.
    pub open spec fn tells(
        self,
        tunnel_ready: bool,
        peer_count: usize,
        token_exp: u64,
        now: u64,
        version: &'static str,
    ) -> bool {
        &&& self.ok
        &&& self.status@ == "running"@
        &&& self.tunnel_ready == tunnel_ready
        &&& self.peer_count == peer_count
        &&& self.token_exp == shown_exp(token_exp, now)
        &&& self.version == version
    }
}

/// The answer about the state of the node at a time, in seconds since the
/// epoch. `token_exp` is when the token ends.
pub fn health_response(
    tunnel_ready: bool,
    peer_count: usize,
    token_exp: u64,
    now: u64,
    version: &'static str,
) -> (r: HealthResponse)
    ensures
        r.tells(tunnel_ready, peer_count, token_exp, now, version),
{
    let token_exp: u64 = if token_exp <= now {
        0
    } else {
        token_exp
    };
    HealthResponse {
        ok: true,
        status: "running".to_owned(),
        tunnel_ready,
        peer_count,
        token_exp,
        version,
    }
}

/// `r` is the answer to a request for a reload.
pub open spec fn is_reload_reply(r: Result<&'static str, u16>, delivered: bool) -> bool {
    match r {
        Ok(s) => delivered && s@ == "reload triggered"@,
        Err(status) => !delivered && status == 503,
    }
}

/// The answer to a request for a reload: a text once the CDN module has the
/// command, else status 503.
pub fn reload_reply(delivered: bool) -> (r: Result<&'static str, u16>)
    ensures
        is_reload_reply(r, delivered),
{
    if delivered {
        Ok("reload triggered")
    } else {
        Err(503)
    }
}

/// The payload of a token of three parts is its second part.
pub proof fn payload_is_the_second_part(a: Seq<char>, b: Seq<char>, c: Seq<char>)
    requires
        !a.contains('.'),
        !b.contains('.'),
    ensures
        payload_of(a + seq!['.'] + b + seq!['.'] + c) == Some(b),
{
    let token = a + seq!['.'] + b + seq!['.'] + c;
    assert forall|i: int| 0 <= i < a.len() implies token[i] != '.' by {
        assert(token[i] == a[i]);
        assert(a.contains(a[i]));
    }
    let first = a.len() as int;
    let second = first + 1 + b.len();
    assert(token[first] == '.');
    dot_is_found(token, 0, first);
    assert forall|i: int| first + 1 <= i < second implies token[i] != '.' by {
        assert(token[i] == b[i - first - 1]);
        assert(b.contains(b[i - first - 1]));
    }
    assert(token[second] == '.');
    dot_is_found(token, first + 1, second);
    assert(token.subrange(first + 1, second) =~= b);
}

/// The next dot is where no earlier one stands.
proof fn dot_is_found(s: Seq<char>, from: int, at: int)
    requires
        0 <= from <= at < s.len(),
        s[at] == '.',
        forall|i: int| from <= i < at ==> s[i] != '.',
    ensures
        text::position_of(s, '.', from) == at,
    decreases at - from,
{
    if from < at {
        dot_is_found(s, from + 1, at);
    }
}

/// A token without a dot, the empty one among them, has no known end.
pub proof fn undotted_tokens_are_unknown(token: Seq<char>)
    requires
        !token.contains('.'),
    ensures
        exp_claim(token) is None,
{
    no_dot_is_found(token, 0);
}

/// Without a dot the search runs to the end.
proof fn no_dot_is_found(s: Seq<char>, from: int)
    requires
        0 <= from <= s.len(),
        !s.contains('.'),
    ensures
        text::position_of(s, '.', from) == s.len(),
    decreases s.len() - from,
{
    if from < s.len() {
        assert(s.contains(s[from]));
        no_dot_is_found(s, from + 1);
    }
}

/// An end that is shown lies ahead; an end that lies ahead is shown.
pub proof fn only_future_ends_are_shown(token_exp: u64, now: u64)
    ensures
        token_exp > now ==> shown_exp(token_exp, now) == token_exp,
        token_exp <= now ==> shown_exp(token_exp, now) == 0,
{
}

/// The end of a token is the number that its second part tells under `exp`.
pub proof fn the_payload_tells_the_end(
    a: Seq<char>,
    b: Seq<char>,
    c: Seq<char>,
    bytes: Seq<u8>,
)
    requires
        !a.contains('.'),
        !b.contains('.'),
    ensures
        base64url_of(b) == Some(bytes) ==> exp_claim(a + seq!['.'] + b + seq!['.'] + c)
            == json::number_member(bytes, "exp"@),
        base64url_of(b) is None ==> exp_claim(a + seq!['.'] + b + seq!['.'] + c) is None,
{
    payload_is_the_second_part(a, b, c);
}

/// Where a token has no second dot, all that follows the first is its payload.
pub proof fn a_second_dot_may_be_missing(a: Seq<char>, b: Seq<char>)
    requires
        !a.contains('.'),
        !b.contains('.'),
    ensures
        payload_of(a + seq!['.'] + b) == Some(b),
{
    let token = a + seq!['.'] + b;
    let first = a.len() as int;
    assert forall|i: int| 0 <= i < a.len() implies token[i] != '.' by {
        assert(token[i] == a[i]);
        assert(a.contains(a[i]));
    }
    assert(token[first] == '.');
    dot_is_found(token, 0, first);
    assert forall|i: int| first + 1 <= i < token.len() implies token[i] != '.' by {
        assert(token[i] == b[i - first - 1]);
        assert(b.contains(b[i - first - 1]));
    }
    dots_are_missed(token, first + 1);
    assert(token.subrange(first + 1, token.len() as int) =~= b);
}

/// Where no dot follows, the search runs to the end.
proof fn dots_are_missed(s: Seq<char>, from: int)
    requires
        0 <= from <= s.len(),
        forall|i: int| from <= i < s.len() ==> s[i] != '.',
    ensures
        text::position_of(s, '.', from) == s.len(),
    decreases s.len() - from,
{
    if from < s.len() {
        dots_are_missed(s, from + 1);
    }
}

/// The answer about a node tells what holds: whether its tunnel is ready, how
/// many peers it knows, when its token ends if that lies ahead, and its
/// version.
pub proof fn health_tells_what_holds(
    r: HealthResponse,
    tunnel_ready: bool,
    peer_count: usize,
    token_exp: u64,
    now: u64,
    version: &'static str,
)
    requires
        r.tells(tunnel_ready, peer_count, token_exp, now, version),
    ensures
        r.ok,
        r.status@ == "running"@,
        r.tunnel_ready <==> tunnel_ready,
        r.peer_count == peer_count,
        token_exp > now ==> r.token_exp == token_exp,
        token_exp <= now ==> r.token_exp == 0,
        r.version@ == version@,
{
}

/// A reload is answered with 503 exactly where it was not handed on.
pub proof fn lost_reloads_are_told(r: Result<&'static str, u16>, delivered: bool)
    requires
        is_reload_reply(r, delivered),
    ensures
        r is Ok <==> delivered,
        r matches Err(status) ==> status == 503,
        r matches Ok(s) ==> s@ == "reload triggered"@,
{
}

/// The end of a token is what its claim says; a token without a readable
/// claim, and none at all, end at zero.
pub proof fn unknown_ends_are_zero(token: Seq<char>, exp: u64)
    ensures
        known_exp(None) == 0,
        exp_claim(token) == Some(exp) ==> known_exp(Some(token)) == exp,
        exp_claim(token) is None ==> known_exp(Some(token)) == 0,
        !token.contains('.') ==> known_exp(Some(token)) == 0,
{
    if !token.contains('.') {
        undotted_tokens_are_unknown(token);
    }
}

} // verus!
