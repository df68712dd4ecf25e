//! The child process that keeps the tunnel open: where it is found, when it
//! counts as ready, when it is started again, and under which URL the tunnel
//! can be reached.

use vstd::arithmetic::power2::pow2;
use vstd::prelude::*;
use vstd::string::*;

use crate::text;
use crate::types::Platform;
use crate::worker;

verus! {

/// How often the process is started again.
pub const MAX_RESTARTS: u32 = 3;

/// The pause before the first restart, in seconds.
pub const FIRST_DELAY_SECS: u64 = 5;

/// The port at which the process tells about its health.
pub const METRICS_PORT: u16 = 20241;

/// How long the process may take until it is ready, in seconds.
pub const READY_TIMEOUT_SECS: u64 = 60;

/// How long one question about its health may take, in seconds.
pub const READY_REQUEST_SECS: u64 = 3;

/// The pause between two rounds of questions, in seconds.
pub const READY_POLL_SECS: u64 = 1;

/// How long the process may take to stop before it is killed, in seconds.
pub const STOP_TIMEOUT_SECS: u64 = 5;

/// The pause before a restart: 5 s before the first one, then twice the last.
pub open spec fn delay_before(restart: int) -> nat {
    if restart <= 1 {
        FIRST_DELAY_SECS as nat
    } else {
        FIRST_DELAY_SECS as nat * pow2((restart - 1) as nat)
    }
}

/// The pause before a restart, in seconds; restarts are counted from one.
pub fn restart_delay(attempt: u32) -> (r: u64)
    requires
        attempt <= 62,
    ensures
        r == delay_before(attempt as int),
{
    let mut delay: u64 = FIRST_DELAY_SECS;
    let mut n: u32 = 1;
    proof {
        vstd::arithmetic::power2::lemma2_to64();
    }
    while n < attempt
        invariant
            attempt <= 62,
            1 <= n,
            n <= attempt || n == 1,
            delay == 5 * pow2((n - 1) as nat),
        decreases attempt - n,
    {
        proof {
            let k = (n - 1) as nat;
            vstd::arithmetic::power2::lemma_pow2_unfold(k + 1);
            if k + 1 < 61 {
                vstd::arithmetic::power2::lemma_pow2_strictly_increases(k + 1, 61);
            }
            vstd::arithmetic::power2::lemma2_to64_rest();
        }
        delay = 2 * delay;
        n = n + 1;
    }
    delay
}

/// What happened to the process.
#[derive(Debug, Clone, Copy, PartialEq, Eq, Structural)]
pub enum TunnelEvent {
    /// A start is due, the first one or one after a pause. `cancelled`: the
    /// node shuts down.
    StartDue { cancelled: bool },
    /// The process was stopped because the node shuts down.
    Ended,
    /// The process ended by itself, whatever its status, or did not get ready.
    /// `cancelled`: the node shuts down.
    Failed { cancelled: bool },
}

/// What to do about the process.
#[derive(Debug, Clone, Copy, PartialEq, Eq, Structural)]
pub enum TunnelAction {
    /// Run it.
    Run,
    /// Wait for so many seconds; then a start is due.
    Pause(u64),
    /// Stop, as asked.
    Stop,
    /// Stop, because it fails again and again.
    GiveUp,
}

/// The number of restarts so far, and what to do.
pub open spec fn supervised(restarts: u32, event: TunnelEvent) -> (u32, TunnelAction) {
    match event {
        TunnelEvent::StartDue { cancelled } => if cancelled {
            (restarts, TunnelAction::Stop)
        } else {
            (restarts, TunnelAction::Run)
        },
        TunnelEvent::Ended => (restarts, TunnelAction::Stop),
        TunnelEvent::Failed { cancelled } => if cancelled {
            (restarts, TunnelAction::Stop)
        } else if restarts < MAX_RESTARTS {
            (
                (restarts + 1) as u32,
                TunnelAction::Pause(delay_before(restarts + 1) as u64),
            )
        } else {
            (restarts, TunnelAction::GiveUp)
        },
    }
}

/// The restarts before the first run.
pub open spec fn begun() -> u32 {
    0
}

/// Watches over the process.
#[derive(Debug, Clone, Copy, PartialEq, Eq, Structural)]
pub struct Supervisor {
    pub restarts: u32,
}

impl Supervisor {
    /// No restart so far.
    pub fn new() -> (r: Supervisor)
        ensures
            r.restarts == begun(),
    {
        Supervisor { restarts: 0 }
    }

    /// Takes an event, and says what to do.
    pub fn step(&mut self, event: TunnelEvent) -> (r: TunnelAction)
        ensures
            (final(self).restarts, r) == supervised(old(self).restarts, event),
    {
        match event {
            TunnelEvent::StartDue { cancelled } => if cancelled {
                TunnelAction::Stop
            } else {
                TunnelAction::Run
            },
            TunnelEvent::Ended => TunnelAction::Stop,
            TunnelEvent::Failed { cancelled } => {
                if cancelled {
                    return TunnelAction::Stop;
                }
                if self.restarts < MAX_RESTARTS {
                    self.restarts = self.restarts + 1;
                    TunnelAction::Pause(restart_delay(self.restarts))
                } else {
                    TunnelAction::GiveUp
                }
            },
        }
    }
}

/// The message for giving up: how often the process has ended, the first run
/// and every restart.
pub fn give_up_text() -> (r: String)
    ensures
        r@ == "cloudflared 连续退出 "@ + text::decimal((MAX_RESTARTS + 1) as nat)
            + " 次，触发 shutdown"@,
{
    text::concat3(
        "cloudflared 连续退出 ",
        text::decimal_text(MAX_RESTARTS as u64 + 1).as_str(),
        " 次，触发 shutdown",
    )
}

/// What happened to one run of the process.
#[derive(Debug, Clone, Copy, PartialEq, Eq, Structural)]
pub enum RunEvent {
    /// It is ready.
    Ready,
    /// It did not get ready. `cancelled`: the node shuts down.
    NotReady { cancelled: bool },
    /// The node shuts down while it runs.
    Cancelled,
    /// It ended by itself.
    Exited,
}

/// What to do about one run of the process.
#[derive(Debug, Clone, Copy, PartialEq, Eq, Structural)]
pub enum RunAction {
    /// Note that the tunnel is ready, and wait for the end.
    AwaitExit,
    /// The run is over because the node shuts down.
    Finish,
    /// Kill the process: the run has failed.
    KillAndFail,
    /// Ask the process to stop: the run is over because the node shuts down.
    ShutDown,
    /// The run has failed.
    Fail,
}

/// What to do about one run of the process.
pub open spec fn run_action_of(event: RunEvent) -> RunAction {
    match event {
        RunEvent::Ready => RunAction::AwaitExit,
        RunEvent::NotReady { cancelled } => if cancelled {
            RunAction::Finish
        } else {
            RunAction::KillAndFail
        },
        RunEvent::Cancelled => RunAction::ShutDown,
        RunEvent::Exited => RunAction::Fail,
    }
}

/// What to do about one run of the process.
pub fn run_action(event: RunEvent) -> (r: RunAction)
    ensures
        r == run_action_of(event),
{
    match event {
        RunEvent::Ready => RunAction::AwaitExit,
        RunEvent::NotReady { cancelled } => if cancelled {
            RunAction::Finish
        } else {
            RunAction::KillAndFail
        },
        RunEvent::Cancelled => RunAction::ShutDown,
        RunEvent::Exited => RunAction::Fail,
    }
}

/// How many URLs tell whether the process is ready.
pub const READY_ENDPOINTS: usize = 2;

/// The path of one of the URLs that tell whether the process is ready.
pub open spec fn ready_path(i: int) -> Seq<char> {
    if i == 0 {
        "/health"@
    } else {
        "/ready"@
    }
}

/// One of the URLs that tell whether the process is ready.
pub open spec fn ready_url(i: int) -> Seq<char> {
    "http://127.0.0.1:"@ + text::decimal(METRICS_PORT as nat) + ready_path(i)
}

/// The URLs that tell whether the process is ready; versions differ in which
/// they offer.
pub fn ready_endpoints() -> (r: Vec<String>)
    ensures
        r@.len() == READY_ENDPOINTS,
        forall|i: int|
            0 <= i < r@.len() ==> (#[trigger] r@[i])@ == ready_url(i),
{
    let port = text::decimal_text(METRICS_PORT as u64);
    let mut r: Vec<String> = Vec::new();
    r.push(text::concat3("http://127.0.0.1:", port.as_str(), "/health"));
    r.push(text::concat3("http://127.0.0.1:", port.as_str(), "/ready"));
    r
}

/// What to do after a question about the health of the process.
#[derive(Debug, Clone, Copy, PartialEq, Eq, Structural)]
pub enum PollAction {
    /// The process is ready.
    Ready,
    /// Ask the URL with this index.
    Ask(usize),
    /// Wait for so many seconds, then begin with the first URL.
    Sleep(u64),
}

/// What to do once the URL with an index has answered with a status, or not.
pub open spec fn poll_of(asked: usize, status: Option<u16>) -> PollAction {
    if status is Some && worker::success(status->0) {
        PollAction::Ready
    } else if asked + 1 < READY_ENDPOINTS {
        PollAction::Ask((asked + 1) as usize)
    } else {
        PollAction::Sleep(READY_POLL_SECS)
    }
}

/// What to do once the URL with an index has answered with a status, or not.
pub fn poll_next(asked: usize, status: Option<u16>) -> (r: PollAction)
    requires
        asked < READY_ENDPOINTS,
    ensures
        r == poll_of(asked, status),
{
    let served = match status {
        Some(code) => worker::is_success(code),
        None => false,
    };
    if served {
        PollAction::Ready
    } else if asked + 1 < READY_ENDPOINTS {
        PollAction::Ask(asked + 1)
    } else {
        PollAction::Sleep(READY_POLL_SECS)
    }
}

/// How long the node waits for its tunnel when it starts, in nanoseconds.
pub const TUNNEL_WAIT_NANOS: u128 = 30_000_000_000;

/// The pause between two looks at the tunnel, in milliseconds.
pub const TUNNEL_POLL_MS: u64 = 500;

/// What to do while the node waits for its tunnel.
#[derive(Debug, Clone, Copy, PartialEq, Eq, Structural)]
pub enum WaitAction {
    /// The tunnel is ready.
    Ready,
    /// It will not be waited for any longer.
    GiveUp,
    /// Look again after so many milliseconds.
    Sleep(u64),
}

/// What to do while the node waits for its tunnel, after so many nanoseconds.
pub open spec fn wait_of(ready: bool, cancelled: bool, elapsed: u128) -> WaitAction {
    if ready {
        WaitAction::Ready
    } else if cancelled || elapsed > TUNNEL_WAIT_NANOS {
        WaitAction::GiveUp
    } else {
        WaitAction::Sleep(TUNNEL_POLL_MS)
    }
}

/// What to do while the node waits for its tunnel, after so many nanoseconds.
pub fn wait_next(ready: bool, cancelled: bool, elapsed: u128) -> (r: WaitAction)
    ensures
        r == wait_of(ready, cancelled, elapsed),
{
    if ready {
        WaitAction::Ready
    } else if cancelled || elapsed > TUNNEL_WAIT_NANOS {
        WaitAction::GiveUp
    } else {
        WaitAction::Sleep(TUNNEL_POLL_MS)
    }
}

/// A character at which a URL in a line of the log ends.
pub open spec fn ends_url(c: char) -> bool {
    text::is_white(c) || c == ',' || c == '}'
}

/// The first position at or after `from` where a URL ends.
pub open spec fn url_end(line: Seq<char>, from: int) -> int
    decreases line.len() - from,
{
    if from >= line.len() || ends_url(line[from]) {
        from
    } else {
        url_end(line, from + 1)
    }
}

/// The first position at or after `from` that holds white space.
pub open spec fn word_end(line: Seq<char>, from: int) -> int
    decreases line.len() - from,
{
    if from >= line.len() || text::is_white(line[from]) {
        from
    } else {
        word_end(line, from + 1)
    }
}

/// The URL that a line about a quick tunnel tells.
pub open spec fn quick_url(line: Seq<char>) -> Option<Seq<char>> {
    if text::has_text(line, "Visit it at https://"@) || text::has_text(
        line,
        "Your quick Tunnel has been created"@,
    ) {
        match text::find_from(line, "https://"@, 0) {
            Some(start) => Some(line.subrange(start, url_end(line, start))),
            None => None,
        }
    } else {
        None
    }
}

/// The shape of a tunnel's id: 36 bytes with four hyphens.
pub open spec fn is_tunnel_id(id: Seq<char>) -> bool {
    vstd::utf8::encode_utf8(id).len() == 36 && text::count_of(id, '-', id.len() as int) == 4
}

/// The URL of the tunnel whose id a line tells.
pub open spec fn named_url(line: Seq<char>) -> Option<Seq<char>> {
    match text::find_from(line, "tunnelID="@, 0) {
        Some(at) => {
            let id = line.subrange(at + 9, word_end(line, at + 9));
            if is_tunnel_id(id) {
                Some("https://"@ + id + ".cfargotunnel.com"@)
            } else {
                None
            }
        },
        None => None,
    }
}

/// The URL that a line of the log tells.
pub open spec fn url_in(line: Seq<char>) -> Option<Seq<char>> {
    match quick_url(line) {
        Some(url) => Some(url),
        None => named_url(line),
    }
}

/// Where the URL that begins at `start` ends.
fn find_url_end(line: &Vec<char>, start: usize) -> (r: usize)
    requires
        start <= line@.len(),
    ensures
        r == url_end(line@, start as int),
        start <= r <= line@.len(),
{
    let mut i: usize = start;
    while i < line.len() && !(text::is_whitespace(line[i]) || line[i] == ',' || line[i] == '}')
        invariant
            start <= i <= line@.len(),
            url_end(line@, start as int) == url_end(line@, i as int),
        decreases line.len() - i,
    {
        i = i + 1;
    }
    i
}

/// Where the word that begins at `start` ends.
fn find_word_end(line: &Vec<char>, start: usize) -> (r: usize)
    requires
        start <= line@.len(),
    ensures
        r == word_end(line@, start as int),
        start <= r <= line@.len(),
{
    let mut i: usize = start;
    while i < line.len() && !text::is_whitespace(line[i])
        invariant
            start <= i <= line@.len(),
            word_end(line@, start as int) == word_end(line@, i as int),
        decreases line.len() - i,
    {
        i = i + 1;
    }
    i
}

/// The URL that a line of the log tells: as it stands in a line about a quick
/// tunnel, else made from the id of a named one.
pub fn extract_tunnel_url_from_line(line: &str) -> (r: Option<String>)
    ensures
        match r {
            Some(url) => url_in(line@) == Some(url@),
            None => url_in(line@) is None,
        },
{
    let chars = text::chars_of(line);
    if text::contains_text(line, "Visit it at https://") || text::contains_text(
        line,
        "Your quick Tunnel has been created",
    ) {
        proof {
            text::find_from_finds(line@, "https://"@, 0);
        }
        match text::find_chars(&chars, &text::chars_of("https://"), 0) {
            Some(start) => {
                let end = find_url_end(&chars, start);
                return Some(line.substring_char(start, end).to_owned());
            },
            None => {},
        }
    }
    proof {
        text::find_from_finds(line@, "tunnelID="@, 0);
        reveal_strlit("tunnelID=");
    }
    match text::find_chars(&chars, &text::chars_of("tunnelID="), 0) {
        Some(at) => {
            assert(at + 9 <= chars.len());
            let end = find_word_end(&chars, at + 9);
            let id = line.substring_char(at + 9, end);
            if text::byte_length(id) == 36 && text::count_char(&text::chars_of(id), '-') == 4 {
                Some(text::concat3("https://", id, ".cfargotunnel.com"))
            } else {
                None
            }
        },
        None => None,
    }
}

/// The arguments with which the program is run.
pub open spec fn args_of(tunnel_token: Seq<char>) -> Seq<Seq<char>> {
    seq!["tunnel"@, "run"@, "--token"@, tunnel_token]
}

/// The arguments with which the program is run.
pub fn cloudflared_args(tunnel_token: &str) -> (r: Vec<String>)
    ensures
        r@.map_values(|s: String| s@) == args_of(tunnel_token@),
{
    let mut r: Vec<String> = Vec::new();
    r.push("tunnel".to_owned());
    r.push("run".to_owned());
    r.push("--token".to_owned());
    r.push(tunnel_token.to_owned());
    proof {
        assert(r@.map_values(|s: String| s@) =~= seq![
            "tunnel"@,
            "run"@,
            "--token"@,
            tunnel_token@,
        ]);
    }
    r
}

/// The message where the configured program is missing.
pub open spec fn missing_text(path: Seq<char>) -> Seq<char> {
    "cloudflared_path 指定的路径不存在: "@ + path
}

/// `r` is the program to run, or says why there is none.
pub open spec fn is_program(
    r: Result<String, String>,
    configured: Option<String>,
    exists: bool,
    platform: Platform,
    data_dir: Seq<char>,
    beside: Option<String>,
    found: Option<String>,
) -> bool {
    match configured {
        Some(path) => if exists {
            r matches Ok(p) && p@ == path@
        } else {
            r matches Err(e) && e@ == missing_text(path@)
        },
        None => if platform != Platform::Other && beside is Some {
            r == Ok::<String, String>(beside->0)
        } else if platform == Platform::Android {
            r matches Err(e) && e@ == "Android 下 cloudflared 必须在 "@ + data_dir + " 目录中"@
        } else if found is Some {
            r == Ok::<String, String>(found->0)
        } else {
            r matches Err(e) && e@
                == "cloudflared 未在 PATH 中找到。请安装 cloudflared 或通过 config.toml 的 cloudflared_path 指定路径"@
        },
    }
}

/// Picks the program to run. `configured` is the path in the configuration,
/// `exists` tells whether a file lies there; `beside` is the file in the data
/// directory or beside this program, if there is one, and `found` the one on
/// the search path.
pub fn resolve_cloudflared_path(
    configured: &Option<String>,
    exists: bool,
    platform: Platform,
    data_dir: &str,
    beside: Option<String>,
    found: Option<String>,
) -> (r: Result<String, String>)
    ensures
        is_program(r, *configured, exists, platform, data_dir@, beside, found),
{
    match configured {
        Some(path) => {
            if exists {
                return Ok(path.clone());
            }
            Err(text::concat("cloudflared_path 指定的路径不存在: ", path.as_str()))
        },
        None => {
            if platform != Platform::Other {
                match beside {
                    Some(path) => {
                        return Ok(path);
                    },
                    None => {},
                }
            }
            if platform == Platform::Android {
                return Err(
                    text::concat3("Android 下 cloudflared 必须在 ", data_dir, " 目录中"),
                );
            }
            match found {
                Some(path) => Ok(path),
                None => Err(
                    "cloudflared 未在 PATH 中找到。请安装 cloudflared 或通过 config.toml 的 cloudflared_path 指定路径".to_owned(),
                ),
            }
        },
    }
}

/// The supervisor's state after so many failures.
pub open spec fn after_failures(failures: nat) -> (u32, TunnelAction)
    decreases failures,
{
    if failures == 0 {
        (begun(), TunnelAction::Run)
    } else {
        supervised(
            after_failures((failures - 1) as nat).0,
            TunnelEvent::Failed { cancelled: false },
        )
    }
}

/// The process is started again three times, after 5, 10 and 20 seconds; when
/// it fails once more, and ever after, the supervisor gives up.
pub proof fn gives_up_after_three_restarts(failures: nat)
    ensures
        failures == 1 ==> after_failures(failures) == (1u32, TunnelAction::Pause(5)),
        failures == 2 ==> after_failures(failures) == (2u32, TunnelAction::Pause(10)),
        failures == 3 ==> after_failures(failures) == (3u32, TunnelAction::Pause(20)),
        failures > 3 ==> after_failures(failures) == (3u32, TunnelAction::GiveUp),
    decreases failures,
{
    vstd::arithmetic::power2::lemma2_to64();
    assert(after_failures(0).0 == 0);
    if failures > 0 {
        gives_up_after_three_restarts((failures - 1) as nat);
    }
}

/// The supervision ends only where the node shuts down or the restarts are
/// used up.
pub proof fn supervision_ends_only_when_asked_or_exhausted(restarts: u32, event: TunnelEvent)
    ensures
        supervised(restarts, event).1 == TunnelAction::Stop ==> event == TunnelEvent::Ended
            || event == (TunnelEvent::StartDue { cancelled: true }) || event == (
        TunnelEvent::Failed { cancelled: true }),
        supervised(restarts, event).1 == TunnelAction::GiveUp ==> restarts >= MAX_RESTARTS,
{
}

/// A run is over without a failure only where the node shuts down: a process
/// that ends by itself is started again, even if it ended well.
pub proof fn runs_finish_only_on_shutdown(event: RunEvent)
    ensures
        run_action_of(event) == RunAction::Finish || run_action_of(event) == RunAction::ShutDown
            <==> event == RunEvent::Cancelled || event == (RunEvent::NotReady { cancelled: true }),
{
}

/// A shutdown is never answered with another run.
pub proof fn shutdown_stops(restarts: u32)
    ensures
        supervised(restarts, TunnelEvent::StartDue { cancelled: true }).1 == TunnelAction::Stop,
        supervised(restarts, TunnelEvent::Failed { cancelled: true }).1 == TunnelAction::Stop,
{
}

/// A URL that a line tells holds none of the characters at which it ends, for
/// a quick tunnel.
pub proof fn quick_urls_are_clean(line: Seq<char>, i: int)
    requires
        quick_url(line) is Some,
        0 <= i < quick_url(line)->0.len(),
    ensures
        !ends_url(quick_url(line)->0[i]),
{
    text::find_from_finds(line, "https://"@, 0);
    let start = text::find_from(line, "https://"@, 0)->0;
    url_end_is_first(line, start, start + i);
}

/// No URL ends before its end.
proof fn url_end_is_first(line: Seq<char>, from: int, i: int)
    requires
        0 <= from <= line.len(),
    ensures
        from <= url_end(line, from) <= line.len(),
        from <= i < url_end(line, from) ==> !ends_url(line[i]),
    decreases line.len() - from,
{
    if from < line.len() && !ends_url(line[from]) {
        url_end_is_first(line, from + 1, i);
    }
}

/// The pause is five seconds before the first restart, and each further one is
/// twice the last.
pub proof fn pauses_double(restart: int)
    ensures
        delay_before(1) == 5,
        restart >= 1 ==> delay_before(restart + 1) == 2 * delay_before(restart),
{
    vstd::arithmetic::power2::lemma2_to64();
    if restart >= 1 {
        vstd::arithmetic::power2::lemma_pow2_unfold(restart as nat);
    }
}

/// What each event of a run leads to: a ready tunnel is waited for, one that
/// does not get ready is killed, a shutdown stops the process, and an exit is
/// a failure.
pub proof fn runs_end_by_their_events()
    ensures
        run_action_of(RunEvent::Ready) == RunAction::AwaitExit,
        run_action_of(RunEvent::NotReady { cancelled: false }) == RunAction::KillAndFail,
        run_action_of(RunEvent::NotReady { cancelled: true }) == RunAction::Finish,
        run_action_of(RunEvent::Cancelled) == RunAction::ShutDown,
        run_action_of(RunEvent::Exited) == RunAction::Fail,
{
}

/// A start that is due is made, unless the node shuts down, and does not count
/// as a restart by itself.
pub proof fn due_starts_are_made(restarts: u32)
    ensures
        supervised(restarts, TunnelEvent::StartDue { cancelled: false }) == (
            restarts,
            TunnelAction::Run,
        ),
        supervised(restarts, TunnelEvent::Ended) == (restarts, TunnelAction::Stop),
        supervised(restarts, TunnelEvent::Failed { cancelled: true }) == (
            restarts,
            TunnelAction::Stop,
        ),
        restarts >= 3 ==> supervised(restarts, TunnelEvent::Failed { cancelled: false }).1
            == TunnelAction::GiveUp,
        restarts < 3 ==> supervised(restarts, TunnelEvent::Failed { cancelled: false }).0
            == restarts + 1 && supervised(restarts, TunnelEvent::Failed { cancelled: false }).1 is Pause,
{
}

/// The process is ready once either URL answers with a status from 200 to 299;
/// the first URL is asked first, then the second, then there is a pause of one
/// second.
pub proof fn readiness_is_asked_for_in_turn(asked: usize, status: u16)
    requires
        asked < 2,
    ensures
        ready_path(0) == "/health"@,
        ready_path(1) == "/ready"@,
        poll_of(asked, Some(status)) == PollAction::Ready <==> 200 <= status <= 299,
        poll_of(0, None) == PollAction::Ask(1),
        poll_of(1, None) == PollAction::Sleep(1),
        !(200 <= status <= 299) ==> poll_of(asked, Some(status)) == poll_of(asked, None),
{
}

/// A node waits for its tunnel for thirty seconds, looking twice a second, and
/// no longer once it shuts down.
pub proof fn the_tunnel_is_waited_for(cancelled: bool, elapsed: u128)
    ensures
        wait_of(true, cancelled, elapsed) == WaitAction::Ready,
        wait_of(false, true, elapsed) == WaitAction::GiveUp,
        wait_of(false, false, elapsed) == if elapsed > 30_000_000_000 {
            WaitAction::GiveUp
        } else {
            WaitAction::Sleep(500)
        },
{
}

/// A program that the configuration names is taken where it is there, and
/// missed where it is not, whatever else is found; without one, the program
/// beside this one is preferred on Android and Windows, and the one on the
/// search path is taken on all platforms but Android.
pub proof fn the_configured_program_is_preferred(
    r: Result<String, String>,
    path: String,
    exists: bool,
    platform: Platform,
    data_dir: Seq<char>,
    beside: Option<String>,
    found: Option<String>,
)
    ensures
        is_program(r, Some(path), exists, platform, data_dir, beside, found) ==> (r is Ok
            <==> exists),
        is_program(r, Some(path), true, platform, data_dir, beside, found) ==> (r->Ok_0)@ == path@,
        is_program(r, None, exists, platform, data_dir, Some(path), found) && platform
            != Platform::Other ==> r == Ok::<String, String>(path),
        is_program(r, None, exists, Platform::Other, data_dir, beside, Some(path)) ==> r == Ok::<
            String,
            String,
        >(path),
        is_program(r, None, exists, Platform::Windows, data_dir, None, Some(path)) ==> r == Ok::<
            String,
            String,
        >(path),
        is_program(r, None, exists, Platform::Android, data_dir, None, found) ==> r is Err,
        is_program(r, None, exists, platform, data_dir, None, None) ==> r is Err,
        is_program(r, None, exists, Platform::Other, data_dir, beside, None) ==> r is Err,
{
}

/// The URL in a line about a quick tunnel is read to the first white space,
/// comma or brace behind it.
pub proof fn quick_urls_are_read(
    line: Seq<char>,
    a: Seq<char>,
    host: Seq<char>,
    rest: Seq<char>,
)
    requires
        line == a + "https://"@ + host + rest,
        text::has_text(line, "Visit it at https://"@) || text::has_text(
            line,
            "Your quick Tunnel has been created"@,
        ),
        forall|j: int| 0 <= j < a.len() ==> !text::occurs_at(line, "https://"@, j),
        forall|i: int|
            0 <= i < host.len() ==> 0x20 < (#[trigger] host[i]) as int && (host[i] as int) < 0x7f
                && host[i] != ',' && host[i] != '}',
        rest.len() == 0 || rest[0] == ' ' || rest[0] == ',' || rest[0] == '}' || rest[0] == '\n'
            || rest[0] == '\t',
    ensures
        url_in(line) == Some("https://"@ + host),
{
    let pat = "https://"@;
    assert(text::find_from(line, pat, 0) == Some(a.len() as int)) by {
        assert(a + pat + (host + rest) =~= line);
        text::first_occurrence_is_found(a, pat, host + rest);
    }
    assert(forall|i: int| 0 <= i < pat.len() ==> !ends_url(#[trigger] pat[i])) by {
        reveal_strlit("https://");
    }
    placed_url_is_read(a, pat + host, rest);
    assert(a + pat + host + rest =~= a + (pat + host) + rest);
}

/// A URL that was put between two texts is read between them.
proof fn placed_url_is_read(a: Seq<char>, url: Seq<char>, rest: Seq<char>)
    requires
        forall|i: int| 0 <= i < url.len() ==> !ends_url(#[trigger] url[i]),
        rest.len() == 0 || ends_url(rest[0]),
    ensures
        (a + url + rest).subrange(
            a.len() as int,
            url_end(a + url + rest, a.len() as int),
        ) == url,
{
    let line = a + url + rest;
    let start = a.len() as int;
    let end = (a.len() + url.len()) as int;
    assert forall|i: int| start <= i < end implies !ends_url(#[trigger] line[i]) by {
        assert(line[i] == url[i - start]);
    }
    url_runs_to(line, start, end);
    assert(line.subrange(start, end) =~= url);
}

/// A URL runs to where it ends.
proof fn url_runs_to(line: Seq<char>, from: int, end: int)
    requires
        0 <= from <= end <= line.len(),
        forall|i: int| from <= i < end ==> !ends_url(#[trigger] line[i]),
        end == line.len() || ends_url(line[end]),
    ensures
        url_end(line, from) == end,
    decreases end - from,
{
    if from < end {
        assert(!ends_url(line[from]));
        url_runs_to(line, from + 1, end);
    }
}

/// A tunnel's id in a line, up to the next white space, gives the tunnel's
/// URL: 36 visible ASCII characters, four of them hyphens.
pub proof fn named_tunnels_are_read(line: Seq<char>, a: Seq<char>, id: Seq<char>, rest: Seq<char>)
    requires
        line == a + "tunnelID="@ + id + rest,
        !text::has_text(line, "https://"@) || (!text::has_text(line, "Visit it at https://"@)
            && !text::has_text(line, "Your quick Tunnel has been created"@)),
        forall|j: int| 0 <= j < a.len() ==> !text::occurs_at(line, "tunnelID="@, j),
        forall|i: int| 0 <= i < id.len() ==> 0x20 < (#[trigger] id[i]) as int && (id[i] as int)
            < 0x7f,
        rest.len() == 0 || rest[0] == ' ' || rest[0] == '\n' || rest[0] == '\t',
    ensures
        id.len() == 36 && text::count_of(id, '-', 36) == 4 ==> url_in(line) == Some(
            "https://"@ + id + ".cfargotunnel.com"@,
        ),
        id.len() != 36 || text::count_of(id, '-', id.len() as int) != 4 ==> url_in(line) is None,
{
    let pat = "tunnelID="@;
    text::find_from_finds(line, "https://"@, 0);
    assert(text::find_from(line, pat, 0) == Some(a.len() as int)) by {
        assert(a + pat + (id + rest) =~= line);
        text::first_occurrence_is_found(a, pat, id + rest);
    }
    assert(pat.len() == 9) by {
        reveal_strlit("tunnelID=");
    }
    placed_word_is_read(a + pat, id, rest);
    assert(vstd::utf8::encode_utf8(id).len() == id.len()) by {
        assert(vstd::utf8::is_ascii_chars(id));
        vstd::utf8::is_ascii_chars_encode_utf8(id);
    }
}

/// A word that was put between two texts is read between them.
proof fn placed_word_is_read(a: Seq<char>, word: Seq<char>, rest: Seq<char>)
    requires
        forall|i: int| 0 <= i < word.len() ==> !text::is_white(#[trigger] word[i]),
        rest.len() == 0 || text::is_white(rest[0]),
    ensures
        (a + word + rest).subrange(
            a.len() as int,
            word_end(a + word + rest, a.len() as int),
        ) == word,
{
    let line = a + word + rest;
    let start = a.len() as int;
    let end = (a.len() + word.len()) as int;
    assert forall|i: int| start <= i < end implies !text::is_white(#[trigger] line[i]) by {
        assert(line[i] == word[i - start]);
    }
    word_runs_to(line, start, end);
    assert(line.subrange(start, end) =~= word);
}

/// A word runs to where it ends.
proof fn word_runs_to(line: Seq<char>, from: int, end: int)
    requires
        0 <= from <= end <= line.len(),
        forall|i: int| from <= i < end ==> !text::is_white(#[trigger] line[i]),
        end == line.len() || text::is_white(line[end]),
    ensures
        word_end(line, from) == end,
    decreases end - from,
{
    if from < end {
        assert(!text::is_white(line[from]));
        word_runs_to(line, from + 1, end);
    }
}

/// A line that tells neither of a quick tunnel nor of a tunnel's id has no
/// URL.
pub proof fn other_lines_have_no_url(line: Seq<char>)
    requires
        !text::has_text(line, "Visit it at https://"@),
        !text::has_text(line, "Your quick Tunnel has been created"@),
        !text::has_text(line, "tunnelID="@),
    ensures
        url_in(line) is None,
{
    text::find_from_finds(line, "tunnelID="@, 0);
}

/// The program runs the tunnel of the token, which is handed on unchanged.
pub proof fn the_token_is_handed_on(tunnel_token: Seq<char>)
    ensures
        args_of(tunnel_token).len() == 4,
        args_of(tunnel_token)[0] == "tunnel"@,
        args_of(tunnel_token)[1] == "run"@,
        args_of(tunnel_token)[2] == "--token"@,
        args_of(tunnel_token)[3] == tunnel_token,
{
}

/// The process is asked on the machine itself, at the port 20241.
pub proof fn readiness_is_asked_for_locally(i: int)
    ensures
        text::begins_with(ready_url(i), "http://127.0.0.1:"@),
        text::finishes_with(ready_url(i), ready_path(i)),
        text::decimal_value(text::decimal(METRICS_PORT as nat)) == 20241,
        text::has_text(ready_url(i), text::decimal(METRICS_PORT as nat)),
{
    let lead = "http://127.0.0.1:"@;
    let port = text::decimal(METRICS_PORT as nat);
    text::decimals_read_back(METRICS_PORT as nat);
    text::placed_texts_occur(Seq::empty(), lead, port + ready_path(i));
    assert(lead + (port + ready_path(i)) =~= lead + port + ready_path(i));
    text::placed_texts_occur(lead, port, ready_path(i));
    text::placed_texts_occur(lead + port, ready_path(i), Seq::empty());
}

/// The process has a minute to get ready, three seconds for each answer and
/// five to stop; its health is asked for more often than that.
pub proof fn the_process_has_its_time()
    ensures
        READY_TIMEOUT_SECS == 60,
        READY_REQUEST_SECS == 3,
        STOP_TIMEOUT_SECS == 5,
        READY_POLL_SECS < READY_REQUEST_SECS < READY_TIMEOUT_SECS,
{
}

} // verus!
