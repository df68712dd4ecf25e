//! The token with which the worker is asked: how it is obtained, and when it
//! is renewed.

use vstd::prelude::*;
use vstd::string::*;

use crate::config::Config;
use crate::text;
use crate::worker;

verus! {

/// How often the first token is asked for.
pub const INIT_RETRIES: u32 = 3;

/// The pause between two requests for the first token, in seconds.
pub const INIT_PAUSE_SECS: u64 = 2;

/// After so many failures in a row renewing is given up.
pub const MAX_CONSECUTIVE_FAILURES: u32 = 5;

/// The pause after the first failure, in seconds.
pub const BACKOFF_INITIAL: u64 = 30;

/// The longest pause after a failure, in seconds.
pub const BACKOFF_MAX: u64 = 120;

/// How long before its end a token is renewed, in seconds.
pub const REFRESH_MARGIN_SECS: u64 = 3600;

/// The shortest time between two renewals, in seconds.
pub const REFRESH_MIN_SECS: u64 = 60;

/// How long one request may take, in seconds.
pub const REQUEST_TIMEOUT_SECS: u64 = 10;

/// The worker's answer to a request for a token.
#[derive(Debug, Clone)]
pub struct TokenResponse {
    pub token: String,
    /// For how many seconds the token is good.
    pub expires_in: u64,
}

/// What a request for a token is made from.
#[derive(Debug, Clone)]
pub struct TokenClient {
    pub worker_url: String,
    pub edge_id: String,
    pub auth_secret: String,
    pub tunnel_url: String,
}

impl TokenClient {
    /// The requests of a node whose tunnel has a URL, which may be empty.
    pub open spec fn is_of(self, config: Config, tunnel_url: Seq<char>) -> bool {
        &&& self.worker_url@ == text::trim_end_of(config.worker_url@, '/')
        &&& self.edge_id == config.edge_id
        &&& self.auth_secret == config.auth_secret
        &&& self.tunnel_url@ == tunnel_url
    }

    /// Where a token is asked for.
    pub open spec fn token_url(self) -> Seq<char> {
        self.worker_url@ + "/token"@
    }

    /// The requests of a node, without a tunnel so far.
    pub fn from_config(config: &Config) -> (r: TokenClient)
        ensures
            r.is_of(*config, ""@),
    {
        TokenClient {
            worker_url: text::trim_end(config.worker_url.as_str(), '/').to_owned(),
            edge_id: config.edge_id.clone(),
            auth_secret: config.auth_secret.clone(),
            tunnel_url: "".to_owned(),
        }
    }

    /// The requests of a node whose tunnel has a URL.
    pub fn with_tunnel(config: &Config, tunnel_url: &str) -> (r: TokenClient)
        ensures
            r.is_of(*config, tunnel_url@),
    {
        let mut r = TokenClient::from_config(config);
        r.tunnel_url = tunnel_url.to_owned();
        r
    }

    /// Where a token is asked for.
    pub fn url(&self) -> (r: String)
        ensures
            r@ == self.token_url(),
    {
        text::concat(self.worker_url.as_str(), "/token")
    }
}

/// What a node tells the worker when it asks for a token.
#[derive(Debug, Clone)]
pub struct TokenRequest {
    pub edge_id: String,
    pub secret: String,
    pub tunnel_url: String,
}

impl TokenRequest {
    /// This is what a client tells.
    pub open spec fn is_of(self, client: TokenClient) -> bool {
        &&& self.edge_id == client.edge_id
        &&& self.secret == client.auth_secret
        &&& self.tunnel_url == client.tunnel_url
    }
}

impl TokenClient {
    /// What a node tells the worker when it asks for a token.
    pub fn request(&self) -> (r: TokenRequest)
        ensures
            r.is_of(*self),
    {
        TokenRequest {
            edge_id: self.edge_id.clone(),
            secret: self.auth_secret.clone(),
            tunnel_url: self.tunnel_url.clone(),
        }
    }
}

/// The text for a request that was refused.
pub open spec fn refused_text(url: Seq<char>, status: u16, body: Seq<char>) -> Seq<char> {
    "POST "@ + url + " 返回 "@ + worker::status_line_of(status) + ": "@ + body
}

/// `r` tells whether a request for a token was served, and if not, why.
pub open spec fn is_token_status(
    r: Result<(), String>,
    url: Seq<char>,
    status: u16,
    body: Seq<char>,
) -> bool {
    if worker::success(status) {
        r is Ok
    } else {
        r matches Err(e) && e@ == refused_text(url, status, body)
    }
}

/// Whether a request for a token was served; if not, a text that says why.
pub fn check_token_status(url: &str, status: u16, body: &str) -> (r: Result<(), String>)
    requires
        100 <= status < 1000,
    ensures
        is_token_status(r, url@, status, body@),
{
    if worker::is_success(status) {
        return Ok(());
    }
    let mut e = text::concat3("POST ", url, " 返回 ");
    e.append(worker::status_line(status).as_str());
    e.append(": ");
    e.append(body);
    Err(e)
}

/// The text for a request that could not be sent.
pub fn send_failed(url: &str) -> (r: String)
    ensures
        r@ == "POST "@ + url@ + " 请求失败"@,
{
    text::concat3("POST ", url, " 请求失败")
}

/// When a token is renewed: an hour before its end, but not within a minute.
pub open spec fn interval_of(expires_in: u64) -> u64 {
    if expires_in < REFRESH_MARGIN_SECS + REFRESH_MIN_SECS {
        REFRESH_MIN_SECS
    } else {
        (expires_in - REFRESH_MARGIN_SECS) as u64
    }
}

/// After how many seconds a token is renewed that is good for `expires_in`.
pub fn refresh_interval(expires_in: u64) -> (r: u64)
    ensures
        r == interval_of(expires_in),
{
    let early = expires_in.saturating_sub(REFRESH_MARGIN_SECS);
    if early < REFRESH_MIN_SECS {
        REFRESH_MIN_SECS
    } else {
        early
    }
}

/// What to do after a request for the first token.
#[derive(Debug, Clone, Copy, PartialEq, Eq, Structural)]
pub enum InitAction {
    /// The token is there.
    Done,
    /// Wait for so many seconds, then ask again.
    RetryAfter(u64),
    /// Give up with the last error.
    Fail,
}

/// What to do after the request with this number.
pub open spec fn init_of(attempt: u32, served: bool) -> InitAction {
    if served {
        InitAction::Done
    } else if attempt < INIT_RETRIES {
        InitAction::RetryAfter(INIT_PAUSE_SECS)
    } else {
        InitAction::Fail
    }
}

/// What to do after the request with this number, counted from one.
pub fn init_next(attempt: u32, served: bool) -> (r: InitAction)
    ensures
        r == init_of(attempt, served),
{
    if served {
        InitAction::Done
    } else if attempt < INIT_RETRIES {
        InitAction::RetryAfter(INIT_PAUSE_SECS)
    } else {
        InitAction::Fail
    }
}

/// What a renewal led to.
#[derive(Debug, Clone, Copy, PartialEq, Eq, Structural)]
pub enum RefreshOutcome {
    /// A new token, good for so many seconds.
    Renewed(u64),
    /// The worker gave none.
    Failed,
}

/// What to do next.
#[derive(Debug, Clone, Copy, PartialEq, Eq, Structural)]
pub enum RefreshAction {
    /// Ask for a new token after so many seconds.
    AskAfter(u64),
    /// Give up: the node shuts down.
    GiveUp,
}

/// The pause after so many failures in a row: 30, 60, then 120 seconds.
pub open spec fn backoff_after(failures: u32) -> u64 {
    if failures <= 1 {
        30
    } else if failures == 2 {
        60
    } else {
        120
    }
}

/// The failures in a row after an outcome, and what to do.
pub open spec fn refresh_next(failures: u32, outcome: RefreshOutcome) -> (u32, RefreshAction) {
    match outcome {
        RefreshOutcome::Renewed(expires_in) => (
            0,
            RefreshAction::AskAfter(interval_of(expires_in)),
        ),
        RefreshOutcome::Failed => if failures + 1 >= MAX_CONSECUTIVE_FAILURES {
            (MAX_CONSECUTIVE_FAILURES, RefreshAction::GiveUp)
        } else {
            (
                (failures + 1) as u32,
                RefreshAction::AskAfter(backoff_after((failures + 1) as u32)),
            )
        },
    }
}

/// The failures in a row, and what to do, with a first token that is good for
/// `expires_in` seconds.
pub open spec fn refresh_begun(expires_in: u64) -> (u32, RefreshAction) {
    (0, RefreshAction::AskAfter(interval_of(expires_in)))
}

/// The pause after so many failures in a row, in seconds.
pub fn backoff_delay(failures: u32) -> (r: u64)
    ensures
        r == backoff_after(failures),
{
    if failures <= 1 {
        BACKOFF_INITIAL
    } else if failures == 2 {
        2 * BACKOFF_INITIAL
    } else {
        BACKOFF_MAX
    }
}

/// Renews the token: how many renewals in a row have failed.
#[derive(Debug, Clone, Copy, PartialEq, Eq, Structural)]
pub struct Refresher {
    pub failures: u32,
}

impl Refresher {
    /// The count is within its bound.
    pub open spec fn wf(self) -> bool {
        self.failures <= MAX_CONSECUTIVE_FAILURES
    }

    /// Begins with a token that is good for `expires_in` seconds: says when to
    /// renew it.
    pub fn begin(expires_in: u64) -> (r: (Refresher, RefreshAction))
        ensures
            r.0.wf(),
            (r.0.failures, r.1) == refresh_begun(expires_in),
    {
        (
            Refresher { failures: 0 },
            RefreshAction::AskAfter(refresh_interval(expires_in)),
        )
    }

    /// Takes the outcome of a renewal, and says what to do.
    pub fn step(&mut self, outcome: RefreshOutcome) -> (r: RefreshAction)
        requires
            old(self).wf(),
        ensures
            final(self).wf(),
            (final(self).failures, r) == refresh_next(old(self).failures, outcome),
    {
        match outcome {
            RefreshOutcome::Renewed(expires_in) => {
                self.failures = 0;
                RefreshAction::AskAfter(refresh_interval(expires_in))
            },
            RefreshOutcome::Failed => {
                if self.failures + 1 >= MAX_CONSECUTIVE_FAILURES {
                    self.failures = MAX_CONSECUTIVE_FAILURES;
                    return RefreshAction::GiveUp;
                }
                self.failures = self.failures + 1;
                RefreshAction::AskAfter(backoff_delay(self.failures))
            },
        }
    }
}

/// The message for giving up.
pub fn give_up_text() -> (r: String)
    ensures
        r@ == "Token 续签连续失败 "@ + text::decimal(MAX_CONSECUTIVE_FAILURES as nat)
            + " 次，触发 shutdown"@,
{
    text::concat3(
        "Token 续签连续失败 ",
        text::decimal_text(MAX_CONSECUTIVE_FAILURES as u64).as_str(),
        " 次，触发 shutdown",
    )
}

/// How many of the last of the first `n` outcomes were failures, one after
/// the other.
pub open spec fn failures_in_a_row(outcomes: Seq<RefreshOutcome>, n: int) -> nat
    decreases n,
{
    if n <= 0 || outcomes[n - 1] != RefreshOutcome::Failed {
        0
    } else {
        failures_in_a_row(outcomes, n - 1) + 1
    }
}

/// The failures that a refresher counts after the first `n` outcomes.
pub open spec fn counted(outcomes: Seq<RefreshOutcome>, n: int) -> u32
    decreases n,
{
    if n <= 0 {
        refresh_begun(0).0
    } else {
        refresh_next(counted(outcomes, n - 1), outcomes[n - 1]).0
    }
}

/// Renewing goes on as long as there were no five failures in a row, and is
/// given up at the fifth: a renewal starts the count anew.
pub proof fn gives_up_at_the_fifth_failure(outcomes: Seq<RefreshOutcome>, n: int)
    requires
        0 < n <= outcomes.len(),
        forall|k: int| 0 <= k < n ==> #[trigger] failures_in_a_row(outcomes, k) < 5,
    ensures
        refresh_next(counted(outcomes, n - 1), outcomes[n - 1]).1 == RefreshAction::GiveUp
            <==> failures_in_a_row(outcomes, n) == 5,
{
    counts_failures(outcomes, n - 1);
    assert(failures_in_a_row(outcomes, n - 1) < 5);
}

/// As long as there were no five failures in a row the count is exact.
proof fn counts_failures(outcomes: Seq<RefreshOutcome>, n: int)
    requires
        0 <= n <= outcomes.len(),
        forall|k: int| 0 <= k <= n ==> #[trigger] failures_in_a_row(outcomes, k) < 5,
    ensures
        counted(outcomes, n) == failures_in_a_row(outcomes, n),
    decreases n,
{
    if n > 0 {
        counts_failures(outcomes, n - 1);
        assert(failures_in_a_row(outcomes, n) < 5);
    }
}

/// A token is never renewed within a minute, and one that is good for more
/// than an hour and a minute is renewed an hour before its end.
pub proof fn tokens_are_renewed_early(expires_in: u64)
    ensures
        interval_of(expires_in) >= 60,
        expires_in >= 3660 ==> interval_of(expires_in) + 3600 == expires_in,
        expires_in < 3660 ==> interval_of(expires_in) == 60,
{
}

/// The first token is asked for three times, two seconds apart, and not again
/// once it is there.
pub proof fn first_token_is_asked_for_three_times(attempt: u32)
    ensures
        init_of(attempt, true) == InitAction::Done,
        attempt < 3 ==> init_of(attempt, false) == InitAction::RetryAfter(2),
        attempt >= 3 ==> init_of(attempt, false) == InitAction::Fail,
{
}

/// After a failure a new token is asked for 30, 60, 120 and 120 seconds later;
/// the fifth failure in a row is the last. A renewal starts the count anew and
/// waits as long as the new token's life allows.
pub proof fn failures_are_answered_with_pauses(failures: u32, expires_in: u64)
    ensures
        failures == 0 ==> refresh_next(failures, RefreshOutcome::Failed) == (
            1u32,
            RefreshAction::AskAfter(30),
        ),
        failures == 1 ==> refresh_next(failures, RefreshOutcome::Failed) == (
            2u32,
            RefreshAction::AskAfter(60),
        ),
        failures == 2 ==> refresh_next(failures, RefreshOutcome::Failed) == (
            3u32,
            RefreshAction::AskAfter(120),
        ),
        failures == 3 ==> refresh_next(failures, RefreshOutcome::Failed) == (
            4u32,
            RefreshAction::AskAfter(120),
        ),
        failures >= 4 ==> refresh_next(failures, RefreshOutcome::Failed).1
            == RefreshAction::GiveUp,
        refresh_next(failures, RefreshOutcome::Renewed(expires_in)).0 == 0,
        expires_in >= 3660 ==> refresh_next(failures, RefreshOutcome::Renewed(expires_in)).1
            == RefreshAction::AskAfter((expires_in - 3600) as u64),
        expires_in < 3660 ==> refresh_next(failures, RefreshOutcome::Renewed(expires_in)).1
            == RefreshAction::AskAfter(60),
{
}

/// Renewing begins without a failure, and waits as long as the first token's
/// life allows, as after a renewal.
pub proof fn renewing_begins_as_after_a_renewal(failures: u32, expires_in: u64)
    ensures
        refresh_begun(expires_in) == refresh_next(failures, RefreshOutcome::Renewed(expires_in)),
        refresh_begun(expires_in).0 == 0,
{
}

/// A token is asked for below the worker's URL, whatever slashes follow that,
/// and the node tells its own id, its secret and its tunnel's URL.
pub proof fn tokens_are_asked_for_with_the_secret(
    client: TokenClient,
    request: TokenRequest,
    config: Config,
    base: Seq<char>,
    slashes: Seq<char>,
    tunnel_url: Seq<char>,
)
    requires
        client.is_of(config, tunnel_url),
        request.is_of(client),
        config.worker_url@ == base + slashes,
        base.len() == 0 || base.last() != '/',
        forall|i: int| 0 <= i < slashes.len() ==> slashes[i] == '/',
    ensures
        client.token_url() == base + "/token"@,
        request.edge_id@ == config.edge_id@,
        request.secret@ == config.auth_secret@,
        request.tunnel_url@ == tunnel_url,
{
    text::trailing_runs_are_dropped(base, slashes, '/');
}

/// A request for a token was served exactly where the status tells of success;
/// the text for a refusal names the URL, the status and what the worker said.
pub proof fn refusals_name_the_url(
    r: Result<(), String>,
    url: Seq<char>,
    status: u16,
    body: Seq<char>,
)
    requires
        is_token_status(r, url, status, body),
    ensures
        r is Ok <==> 200 <= status <= 299,
        r matches Err(e) ==> text::has_text(e@, url) && text::has_text(
            e@,
            worker::status_line_of(status),
        ) && text::finishes_with(e@, body),
{
    let line = worker::status_line_of(status);
    let whole = refused_text(url, status, body);
    assert(whole =~= "POST "@ + url + (" 返回 "@ + line + ": "@ + body));
    assert(whole =~= ("POST "@ + url + " 返回 "@) + line + (": "@ + body));
    text::placed_texts_occur("POST "@, url, " 返回 "@ + line + ": "@ + body);
    text::placed_texts_occur("POST "@ + url + " 返回 "@, line, ": "@ + body);
    text::placed_texts_occur("POST "@ + url + " 返回 "@ + line + ": "@, body, Seq::empty());
}

/// The worker has ten seconds to answer, less than the pause after a failure.
pub proof fn requests_end_before_the_next()
    ensures
        REQUEST_TIMEOUT_SECS == 10,
        REQUEST_TIMEOUT_SECS < BACKOFF_INITIAL <= BACKOFF_MAX,
{
}

} // verus!
