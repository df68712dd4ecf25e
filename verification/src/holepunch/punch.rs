//! One attempt to reach a peer directly: when to start, and what becomes of
//! the peer's connection.

use vstd::prelude::*;

use crate::clock;
use crate::net::IpAddr;
use crate::registry;
use crate::registry::{ConnTable, VipTable};
use crate::types::{ConnState, HolePunchTask, TimestampMs, PUNCH_WINDOW_MS};

verus! {

/// The longest wait for the time of a punch, in milliseconds.
pub const MAX_WAIT_MS: u64 = 2000;

/// How long one candidate may take to answer, in seconds.
pub const CONNECT_TIMEOUT_SECS: u64 = 5;

/// What to do about a task when it arrives.
#[derive(Debug, Clone, Copy, PartialEq, Eq, Structural)]
pub enum PunchPlan {
    /// The time is too far off, or the window has passed: use the tunnel.
    FallBack,
    /// Wait for so many milliseconds, then punch.
    Wait(u64),
    /// Punch at once.
    Now,
}

/// The plan for a punch at `punch_at` that arrives at `now`.
pub open spec fn plan_of(punch_at: TimestampMs, now: TimestampMs) -> PunchPlan {
    let left = clock::ahead(punch_at, now);
    if left > PUNCH_WINDOW_MS * 4 {
        PunchPlan::FallBack
    } else if left > MAX_WAIT_MS {
        PunchPlan::Wait(MAX_WAIT_MS)
    } else if left > 0 {
        PunchPlan::Wait(left as u64)
    } else if left >= -PUNCH_WINDOW_MS {
        PunchPlan::Now
    } else {
        PunchPlan::FallBack
    }
}

/// The plan for a punch at `punch_at` that arrives at `now`.
pub fn plan_punch(punch_at: TimestampMs, now: TimestampMs) -> (r: PunchPlan)
    ensures
        r == plan_of(punch_at, now),
{
    let left = clock::millis_ahead(punch_at, now);
    if left > PUNCH_WINDOW_MS as i128 * 4 {
        PunchPlan::FallBack
    } else if left > MAX_WAIT_MS as i128 {
        PunchPlan::Wait(MAX_WAIT_MS)
    } else if left > 0 {
        PunchPlan::Wait(left as u64)
    } else if left >= -(PUNCH_WINDOW_MS as i128) {
        PunchPlan::Now
    } else {
        PunchPlan::FallBack
    }
}

/// How far an attempt has come.
#[derive(Debug, Clone, Copy, PartialEq, Eq, Structural)]
pub enum PunchPhase {
    /// The task has just arrived.
    Fresh,
    /// Waiting for the time of the punch.
    Waiting,
    /// The candidates are being tried.
    Connecting,
    /// The attempt is over.
    Finished,
}

/// What happened.
#[derive(Debug, Clone, Copy, PartialEq, Eq, Structural)]
pub enum PunchEvent {
    /// The attempt begins at this time.
    Begin(TimestampMs),
    /// The wait is over.
    WaitOver,
    /// The node shuts down during the wait.
    Cancelled,
    /// A candidate answered; the number is the transport's id for the connection.
    Connected(u64),
    /// A candidate failed or did not answer in time.
    CandidateFailed,
    /// No candidate is left.
    Exhausted,
}

/// What to do next.
#[derive(Debug, Clone, Copy, PartialEq, Eq, Structural)]
pub enum PunchAction {
    /// Wait for so many milliseconds.
    Sleep(u64),
    /// Try all candidates at once.
    Connect,
    /// Wait for the next candidate's outcome.
    AwaitNext,
    /// Stop; give up what is still being tried.
    Done,
}

/// An event that can happen in a phase.
pub open spec fn fits(phase: PunchPhase, event: PunchEvent) -> bool {
    match event {
        PunchEvent::Begin(_) => phase == PunchPhase::Fresh,
        PunchEvent::WaitOver => phase == PunchPhase::Waiting,
        PunchEvent::Cancelled => phase == PunchPhase::Waiting,
        PunchEvent::Connected(_) => phase == PunchPhase::Connecting,
        PunchEvent::CandidateFailed => phase == PunchPhase::Connecting,
        PunchEvent::Exhausted => phase == PunchPhase::Connecting,
    }
}

/// The next phase, and what to do.
pub open spec fn next_of(punch_at: TimestampMs, event: PunchEvent) -> (PunchPhase, PunchAction) {
    match event {
        PunchEvent::Begin(now) => match plan_of(punch_at, now) {
            PunchPlan::FallBack => (PunchPhase::Finished, PunchAction::Done),
            PunchPlan::Wait(ms) => (PunchPhase::Waiting, PunchAction::Sleep(ms)),
            PunchPlan::Now => (PunchPhase::Connecting, PunchAction::Connect),
        },
        PunchEvent::WaitOver => (PunchPhase::Connecting, PunchAction::Connect),
        PunchEvent::CandidateFailed => (PunchPhase::Connecting, PunchAction::AwaitNext),
        _ => (PunchPhase::Finished, PunchAction::Done),
    }
}

/// The connection states after an event.
pub open spec fn conns_after(
    conns: Map<Seq<char>, ConnState>,
    peer: Seq<char>,
    punch_at: TimestampMs,
    event: PunchEvent,
) -> Map<Seq<char>, ConnState> {
    match event {
        PunchEvent::Begin(now) => match plan_of(punch_at, now) {
            PunchPlan::FallBack => conns.insert(peer, ConnState::Relay),
            PunchPlan::Wait(_) => conns,
            PunchPlan::Now => conns.insert(peer, ConnState::Punching),
        },
        PunchEvent::WaitOver => conns.insert(peer, ConnState::Punching),
        PunchEvent::Connected(id) => if registry::may_go_direct(conns, peer) {
            conns.insert(peer, ConnState::Direct(id))
        } else {
            conns
        },
        PunchEvent::Exhausted => conns.insert(peer, ConnState::Relay),
        _ => conns,
    }
}

/// The addresses of the virtual network after an event.
pub open spec fn vips_after(
    vips: Map<IpAddr, Seq<char>>,
    conns: Map<Seq<char>, ConnState>,
    peer: Seq<char>,
    vip: Option<IpAddr>,
    event: PunchEvent,
) -> Map<IpAddr, Seq<char>> {
    match (event, vip) {
        (PunchEvent::Connected(_), Some(ip)) => if registry::may_go_direct(conns, peer) {
            vips.insert(ip, peer)
        } else {
            vips
        },
        _ => vips,
    }
}

/// One attempt.
#[derive(Debug, Clone)]
pub struct Punch {
    pub task: HolePunchTask,
    pub phase: PunchPhase,
}

impl Punch {
    /// An attempt that is about to begin.
    pub fn new(task: HolePunchTask) -> (r: Punch)
        ensures
            r.task == task,
            r.phase == PunchPhase::Fresh,
    {
        Punch { task, phase: PunchPhase::Fresh }
    }

    /// Takes an event: notes what it means for the peer, and says what to do.
    pub fn step(&mut self, event: PunchEvent, conns: &mut ConnTable, vips: &mut VipTable) -> (r:
        PunchAction)
        requires
            fits(old(self).phase, event),
        ensures
            final(self).task == old(self).task,
            (final(self).phase, r) == next_of(old(self).task.punch_at, event),
            final(conns)@ == conns_after(
                old(conns)@,
                old(self).task.peer_id@,
                old(self).task.punch_at,
                event,
            ),
            final(vips)@ == vips_after(
                old(vips)@,
                old(conns)@,
                old(self).task.peer_id@,
                old(self).task.peer_virtual_ip,
                event,
            ),
    {
        match event {
            PunchEvent::Begin(now) => match plan_punch(self.task.punch_at, now) {
                PunchPlan::FallBack => {
                    conns.insert(self.task.peer_id.as_str(), ConnState::Relay);
                    self.phase = PunchPhase::Finished;
                    PunchAction::Done
                },
                PunchPlan::Wait(ms) => {
                    self.phase = PunchPhase::Waiting;
                    PunchAction::Sleep(ms)
                },
                PunchPlan::Now => {
                    conns.insert(self.task.peer_id.as_str(), ConnState::Punching);
                    self.phase = PunchPhase::Connecting;
                    PunchAction::Connect
                },
            },
            PunchEvent::WaitOver => {
                conns.insert(self.task.peer_id.as_str(), ConnState::Punching);
                self.phase = PunchPhase::Connecting;
                PunchAction::Connect
            },
            PunchEvent::Cancelled => {
                self.phase = PunchPhase::Finished;
                PunchAction::Done
            },
            PunchEvent::Connected(id) => {
                if conns.settle_direct(self.task.peer_id.as_str(), id) {
                    match self.task.peer_virtual_ip {
                        Some(ip) => {
                            vips.insert(ip, self.task.peer_id.as_str());
                        },
                        None => {},
                    }
                }
                self.phase = PunchPhase::Finished;
                PunchAction::Done
            },
            PunchEvent::CandidateFailed => {
                self.phase = PunchPhase::Connecting;
                PunchAction::AwaitNext
            },
            PunchEvent::Exhausted => {
                conns.insert(self.task.peer_id.as_str(), ConnState::Relay);
                self.phase = PunchPhase::Finished;
                PunchAction::Done
            },
        }
    }
}

/// A punch starts at most the window late and never waits longer than it
/// may; four windows ahead of its time, or one window behind, it falls back.
/// A punch that waits starts at its time, or, where that lies more than two
/// seconds ahead, after two seconds, which is at most 400 ms early.
pub proof fn punches_start_in_time(punch_at: TimestampMs, now: TimestampMs)
    ensures
        plan_of(punch_at, now) == PunchPlan::Now <==> -600 <= clock::ahead(punch_at, now) <= 0,
        plan_of(punch_at, now) is Wait <==> 0 < clock::ahead(punch_at, now) <= 2400,
        plan_of(punch_at, now) matches PunchPlan::Wait(ms) ==> 0 < ms <= 2000
            && ms <= clock::ahead(punch_at, now),
        plan_of(punch_at, now) == PunchPlan::Now <==> punch_at <= now <= punch_at + 600,
        plan_of(punch_at, now) is Wait <==> now < punch_at <= now + 2400,
        plan_of(punch_at, now) == PunchPlan::FallBack <==> punch_at > now + 2400 || now > punch_at
            + 600,
        plan_of(punch_at, now) matches PunchPlan::Wait(ms) ==> {
            &&& punch_at <= now + 2000 ==> now + ms == punch_at
            &&& punch_at > now + 2000 ==> ms == 2000
            &&& now + ms <= punch_at <= now + ms + 400
        },
{
}

/// Both sides of a punch start it at the same moment, whenever each of them
/// learns of it, as long as neither learns of it late nor more than two
/// seconds ahead.
pub proof fn both_sides_punch_together(
    punch_at: TimestampMs,
    here: TimestampMs,
    there: TimestampMs,
    wait_here: u64,
    wait_there: u64,
)
    requires
        here < punch_at <= here + 2000,
        there < punch_at <= there + 2000,
        plan_of(punch_at, here) == PunchPlan::Wait(wait_here),
        plan_of(punch_at, there) == PunchPlan::Wait(wait_there),
    ensures
        here + wait_here == there + wait_there,
{
}

/// An attempt begins by its time: it sleeps until then, connects at once, or
/// is over with the peer's traffic over the tunnel.
pub proof fn attempts_begin_by_their_time(
    conns: Map<Seq<char>, ConnState>,
    peer: Seq<char>,
    punch_at: TimestampMs,
    now: TimestampMs,
)
    ensures
        fits(PunchPhase::Fresh, PunchEvent::Begin(now)),
        now < punch_at <= now + 2400 ==> {
            &&& next_of(punch_at, PunchEvent::Begin(now)).0 == PunchPhase::Waiting
            &&& next_of(punch_at, PunchEvent::Begin(now)).1 == PunchAction::Sleep(
                if punch_at - now <= 2000 {
                    (punch_at - now) as u64
                } else {
                    2000
                },
            )
            &&& conns_after(conns, peer, punch_at, PunchEvent::Begin(now)) == conns
        },
        punch_at <= now <= punch_at + 600 ==> {
            &&& next_of(punch_at, PunchEvent::Begin(now)) == (
                PunchPhase::Connecting,
                PunchAction::Connect,
            )
            &&& conns_after(conns, peer, punch_at, PunchEvent::Begin(now)).get(peer) == Some(
                ConnState::Punching,
            )
        },
        punch_at > now + 2400 || now > punch_at + 600 ==> {
            &&& next_of(punch_at, PunchEvent::Begin(now)) == (
                PunchPhase::Finished,
                PunchAction::Done,
            )
            &&& conns_after(conns, peer, punch_at, PunchEvent::Begin(now)).get(peer) == Some(
                ConnState::Relay,
            )
        },
{
}

/// After the wait the candidates are tried; a candidate that fails leaves the
/// attempt waiting for the others and the peer as it is; a shutdown during the
/// wait leaves the peer as it is too.
pub proof fn candidates_are_tried_after_the_wait(
    conns: Map<Seq<char>, ConnState>,
    peer: Seq<char>,
    punch_at: TimestampMs,
)
    ensures
        next_of(punch_at, PunchEvent::WaitOver) == (PunchPhase::Connecting, PunchAction::Connect),
        conns_after(conns, peer, punch_at, PunchEvent::WaitOver).get(peer) == Some(
            ConnState::Punching,
        ),
        next_of(punch_at, PunchEvent::CandidateFailed) == (
            PunchPhase::Connecting,
            PunchAction::AwaitNext,
        ),
        conns_after(conns, peer, punch_at, PunchEvent::CandidateFailed) == conns,
        next_of(punch_at, PunchEvent::Cancelled) == (PunchPhase::Finished, PunchAction::Done),
        conns_after(conns, peer, punch_at, PunchEvent::Cancelled) == conns,
{
}

/// The first candidate that answers settles a peer that is being punched: the
/// connection is direct, under the id of that candidate's, and the peer is
/// found at its address. Where no candidate answers, traffic goes over the
/// tunnel, and no address is noted.
pub proof fn answers_settle_the_peer(
    conns: Map<Seq<char>, ConnState>,
    vips: Map<IpAddr, Seq<char>>,
    peer: Seq<char>,
    ip: IpAddr,
    punch_at: TimestampMs,
    id: u64,
)
    ensures
        next_of(punch_at, PunchEvent::Connected(id)) == (PunchPhase::Finished, PunchAction::Done),
        next_of(punch_at, PunchEvent::Exhausted) == (PunchPhase::Finished, PunchAction::Done),
        !conns.contains_key(peer) || conns[peer] == ConnState::Punching || conns[peer]
            == ConnState::Relay ==> {
            &&& conns_after(conns, peer, punch_at, PunchEvent::Connected(id)).get(peer) == Some(
                ConnState::Direct(id),
            )
            &&& vips_after(vips, conns, peer, Some(ip), PunchEvent::Connected(id)).get(ip) == Some(
                peer,
            )
        },
        conns.contains_key(peer) && conns[peer] == ConnState::Unavailable ==> {
            &&& conns_after(conns, peer, punch_at, PunchEvent::Connected(id)) == conns
            &&& vips_after(vips, conns, peer, Some(ip), PunchEvent::Connected(id)) == vips
        },
        conns_after(conns, peer, punch_at, PunchEvent::Exhausted).get(peer) == Some(
            ConnState::Relay,
        ),
        vips_after(vips, conns, peer, Some(ip), PunchEvent::Exhausted) == vips,
{
}

/// An attempt notes no address but its own peer's, and that only when a
/// candidate has answered.
pub proof fn punch_keeps_other_addresses(
    conns: Map<Seq<char>, ConnState>,
    vips: Map<IpAddr, Seq<char>>,
    peer: Seq<char>,
    vip: Option<IpAddr>,
    event: PunchEvent,
    other: IpAddr,
)
    requires
        vip != Some(other) || event !is Connected,
    ensures
        vips_after(vips, conns, peer, vip, event).get(other) == vips.get(other),
{
}

/// Which events an attempt takes when: it begins once, waits or connects, and
/// ends.
pub proof fn events_come_in_order(now: TimestampMs, id: u64, phase: PunchPhase)
    ensures
        fits(phase, PunchEvent::Begin(now)) <==> phase == PunchPhase::Fresh,
        fits(phase, PunchEvent::WaitOver) <==> phase == PunchPhase::Waiting,
        fits(phase, PunchEvent::Cancelled) <==> phase == PunchPhase::Waiting,
        fits(phase, PunchEvent::Connected(id)) <==> phase == PunchPhase::Connecting,
        fits(phase, PunchEvent::CandidateFailed) <==> phase == PunchPhase::Connecting,
        fits(phase, PunchEvent::Exhausted) <==> phase == PunchPhase::Connecting,
{
}

/// An attempt changes the state of its own peer only.
pub proof fn punch_keeps_other_peers(
    conns: Map<Seq<char>, ConnState>,
    peer: Seq<char>,
    punch_at: TimestampMs,
    event: PunchEvent,
    other: Seq<char>,
)
    requires
        other != peer,
    ensures
        conns_after(conns, peer, punch_at, event).get(other) == conns.get(other),
{
}

/// The end of an attempt leaves its peer with a settled state, unless the node
/// shuts down: no punch is under way any more.
pub proof fn punch_settles(
    conns: Map<Seq<char>, ConnState>,
    peer: Seq<char>,
    punch_at: TimestampMs,
    event: PunchEvent,
)
    requires
        next_of(punch_at, event).0 == PunchPhase::Finished,
        event != PunchEvent::Cancelled,
    ensures
        conns_after(conns, peer, punch_at, event).contains_key(peer),
        conns_after(conns, peer, punch_at, event)[peer] != ConnState::Punching,
{
}

/// Where a connection stands when a candidate answers, it is not replaced by
/// the new one, and the peer's address stays as it was noted.
pub proof fn first_connection_stays(
    conns: Map<Seq<char>, ConnState>,
    vips: Map<IpAddr, Seq<char>>,
    peer: Seq<char>,
    vip: Option<IpAddr>,
    punch_at: TimestampMs,
    id: u64,
)
    requires
        conns.get(peer) matches Some(ConnState::Direct(_)),
    ensures
        conns_after(conns, peer, punch_at, PunchEvent::Connected(id)) == conns,
        vips_after(vips, conns, peer, vip, PunchEvent::Connected(id)) == vips,
{
}

/// A finished attempt takes no further event.
pub proof fn finished_is_final(event: PunchEvent)
    ensures
        !fits(PunchPhase::Finished, event),
{
}

/// A candidate has five seconds to answer, so that an attempt is over seven
/// seconds after it began.
pub proof fn attempts_are_over_in_time(punch_at: TimestampMs, now: TimestampMs)
    ensures
        CONNECT_TIMEOUT_SECS == 5,
        plan_of(punch_at, now) matches PunchPlan::Wait(ms) ==> ms + 1000 * CONNECT_TIMEOUT_SECS
            <= 7000,
{
}

} // verus!
