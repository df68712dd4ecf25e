//! The heartbeat: every six hours the node looks for its addresses and
//! registers them anew with the worker.

use vstd::prelude::*;
use vstd::string::*;

use crate::text;
use crate::worker;

verus! {

/// The time between two heartbeats, in seconds.
pub const HEARTBEAT_INTERVAL_SECS: u64 = 21600;

/// After so many failures in a row the node shuts down.
pub const HEARTBEAT_MAX_FAILURES: u32 = 3;

/// How long one request may take, in seconds.
pub const REQUEST_TIMEOUT_SECS: u64 = 15;

/// What a heartbeat led to.
#[derive(Debug, Clone, Copy, PartialEq, Eq, Structural)]
pub enum Beat {
    /// The node's addresses could not be found.
    ProbeFailed,
    /// The worker could not be asked, or refused.
    RegisterFailed,
    /// The worker has the addresses.
    Registered,
}

/// What a registration led to, from the status of the worker's answer.
pub open spec fn beat_of(status: Option<u16>) -> Beat {
    if status is Some && worker::success(status->0) {
        Beat::Registered
    } else {
        Beat::RegisterFailed
    }
}

/// What a registration led to, from the status of the worker's answer; `None`
/// where there was none.
pub fn register_beat(status: Option<u16>) -> (r: Beat)
    ensures
        r == beat_of(status),
{
    match status {
        Some(code) => if worker::is_success(code) {
            Beat::Registered
        } else {
            Beat::RegisterFailed
        },
        None => Beat::RegisterFailed,
    }
}

/// What to do next.
#[derive(Debug, Clone, Copy, PartialEq, Eq, Structural)]
pub enum BeatAction {
    /// Wait for the next heartbeat.
    Continue,
    /// Shut down: finding addresses failed last.
    ProbesExhausted,
    /// Shut down: registering failed last.
    RegistersExhausted,
}

/// The failures in a row after a heartbeat, and what to do.
pub open spec fn beat_next(failures: u32, beat: Beat) -> (u32, BeatAction) {
    if beat == Beat::Registered {
        (0, BeatAction::Continue)
    } else if failures + 1 < HEARTBEAT_MAX_FAILURES {
        ((failures + 1) as u32, BeatAction::Continue)
    } else if beat == Beat::ProbeFailed {
        (HEARTBEAT_MAX_FAILURES, BeatAction::ProbesExhausted)
    } else {
        (HEARTBEAT_MAX_FAILURES, BeatAction::RegistersExhausted)
    }
}

/// The failures in a row before the first heartbeat.
pub open spec fn begun() -> u32 {
    0
}

/// Counts the failures in a row.
#[derive(Debug, Clone, Copy, PartialEq, Eq, Structural)]
pub struct Heartbeat {
    pub failures: u32,
}

impl Heartbeat {
    /// The count is within its bound.
    pub open spec fn wf(self) -> bool {
        self.failures <= HEARTBEAT_MAX_FAILURES
    }

    /// No failure so far.
    pub fn new() -> (r: Heartbeat)
        ensures
            r.wf(),
            r.failures == begun(),
    {
        Heartbeat { failures: 0 }
    }

    /// Takes what a heartbeat led to, and says what to do.
    pub fn step(&mut self, beat: Beat) -> (r: BeatAction)
        requires
            old(self).wf(),
        ensures
            final(self).wf(),
            (final(self).failures, r) == beat_next(old(self).failures, beat),
    {
        if beat == Beat::Registered {
            self.failures = 0;
            return BeatAction::Continue;
        }
        if self.failures + 1 < HEARTBEAT_MAX_FAILURES {
            self.failures = self.failures + 1;
            return BeatAction::Continue;
        }
        self.failures = HEARTBEAT_MAX_FAILURES;
        if beat == Beat::ProbeFailed {
            BeatAction::ProbesExhausted
        } else {
            BeatAction::RegistersExhausted
        }
    }
}

/// The message for a shutdown.
pub open spec fn exhausted_of(action: BeatAction) -> Option<Seq<char>> {
    match action {
        BeatAction::Continue => None,
        BeatAction::ProbesExhausted => Some(
            "STUN 探测连续失败 "@ + text::decimal(HEARTBEAT_MAX_FAILURES as nat) + " 次"@,
        ),
        BeatAction::RegistersExhausted => Some(
            "Worker 注册连续失败 "@ + text::decimal(HEARTBEAT_MAX_FAILURES as nat) + " 次"@,
        ),
    }
}

/// The message for a shutdown, `None` where the heartbeat goes on.
pub fn exhausted_text(action: BeatAction) -> (r: Option<String>)
    ensures
        match r {
            Some(s) => exhausted_of(action) == Some(s@),
            None => exhausted_of(action) is None,
        },
{
    let count = text::decimal_text(HEARTBEAT_MAX_FAILURES as u64);
    match action {
        BeatAction::Continue => None,
        BeatAction::ProbesExhausted => Some(
            text::concat3("STUN 探测连续失败 ", count.as_str(), " 次"),
        ),
        BeatAction::RegistersExhausted => Some(
            text::concat3("Worker 注册连续失败 ", count.as_str(), " 次"),
        ),
    }
}

/// How many of the last of the first `n` heartbeats failed, one after the other.
pub open spec fn failures_in_a_row(beats: Seq<Beat>, n: int) -> nat
    decreases n,
{
    if n <= 0 || beats[n - 1] == Beat::Registered {
        0
    } else {
        failures_in_a_row(beats, n - 1) + 1
    }
}

/// The failures that are counted after the first `n` heartbeats.
pub open spec fn counted(beats: Seq<Beat>, n: int) -> u32
    decreases n,
{
    if n <= 0 {
        begun()
    } else {
        beat_next(counted(beats, n - 1), beats[n - 1]).0
    }
}

/// The node shuts down at the third failure in a row and not before: a
/// heartbeat that reaches the worker starts the count anew.
pub proof fn stops_at_the_third_failure(beats: Seq<Beat>, n: int)
    requires
        0 < n <= beats.len(),
        forall|k: int| 0 <= k < n ==> #[trigger] failures_in_a_row(beats, k) < 3,
    ensures
        beat_next(counted(beats, n - 1), beats[n - 1]).1 != BeatAction::Continue
            <==> failures_in_a_row(beats, n) == 3,
{
    counts_failures(beats, n - 1);
    assert(failures_in_a_row(beats, n - 1) < 3);
}

/// As long as there were no three failures in a row the count is exact.
proof fn counts_failures(beats: Seq<Beat>, n: int)
    requires
        0 <= n <= beats.len(),
        forall|k: int| 0 <= k <= n ==> #[trigger] failures_in_a_row(beats, k) < 3,
    ensures
        counted(beats, n) == failures_in_a_row(beats, n),
    decreases n,
{
    if n > 0 {
        counts_failures(beats, n - 1);
        assert(failures_in_a_row(beats, n) < 3);
    }
}

/// The third failure in a row ends the heartbeat, and it is told which one it
/// was; a registration starts the count anew.
pub proof fn the_last_failure_is_told(failures: u32)
    ensures
        beat_next(failures, Beat::Registered) == (0u32, BeatAction::Continue),
        failures < 2 ==> beat_next(failures, Beat::ProbeFailed) == (
            (failures + 1) as u32,
            BeatAction::Continue,
        ),
        failures < 2 ==> beat_next(failures, Beat::RegisterFailed) == (
            (failures + 1) as u32,
            BeatAction::Continue,
        ),
        failures >= 2 ==> beat_next(failures, Beat::ProbeFailed).1 == BeatAction::ProbesExhausted,
        failures >= 2 ==> beat_next(failures, Beat::RegisterFailed).1
            == BeatAction::RegistersExhausted,
{
}

/// A heartbeat has reached the worker exactly where the worker answered with a
/// status from 200 to 299.
pub proof fn only_success_registers(status: u16)
    ensures
        beat_of(None) == Beat::RegisterFailed,
        beat_of(Some(status)) == Beat::Registered <==> 200 <= status <= 299,
        beat_of(Some(status)) == Beat::Registered || beat_of(Some(status)) == Beat::RegisterFailed,
{
}

/// The heart beats every six hours, and a request has fifteen seconds of them.
pub proof fn the_heart_beats_every_six_hours()
    ensures
        HEARTBEAT_INTERVAL_SECS == 6 * 60 * 60,
        REQUEST_TIMEOUT_SECS == 15,
{
}

} // verus!
