//! Further attempts to reach peers whose connection has fallen back to the
//! tunnel. The pause before an attempt doubles from 30 s to 120 s while the
//! worker cannot be asked, and varies by up to 10 s at random.

use rand::Rng;
use vstd::prelude::*;
use vstd::string::*;

use crate::holepunch::punch;
use crate::holepunch::punch::{PunchAction, PunchEvent};
use crate::json;
use crate::net::IpAddr;
use crate::registry;
use crate::registry::{ConnTable, PeerNumbers};
use crate::text;
use crate::types::{Candidate, ConnState, HolePunchTask, TimestampMs};
use crate::worker;

verus! {

/// The first pause, in seconds.
pub const BACKOFF_INITIAL: u64 = 30;

/// The longest pause, in seconds.
pub const BACKOFF_MAX: u64 = 120;

/// How far a pause may vary either way, in seconds.
pub const JITTER_RANGE: i64 = 10;

/// The shortest delay before an attempt, in seconds.
pub const DELAY_MIN: u64 = 5;

/// How long to wait between two scans, in seconds.
pub const SCAN_INTERVAL: u64 = 15;

/// A number between two bounds, at random.
///
/// Calls `rand::Rng::gen_range` on the thread's generator, which panics on an
/// empty range. Trusted: the number lies within the bounds; which one it is,
/// is left to chance.
#[verifier::external_body]
fn random_between(low: i64, high: i64) -> (r: i64)
    requires
        low <= high,
    ensures
        low <= r <= high,
{
    rand::thread_rng().gen_range(low..=high)
}

/// The delay before an attempt.
pub open spec fn delay_of(backoff: u64, jitter: int) -> int {
    if backoff + jitter < DELAY_MIN {
        DELAY_MIN as int
    } else {
        backoff + jitter
    }
}

/// The delay before an attempt, for a pause and its variation in seconds.
pub fn retry_delay(backoff: u64, jitter: i64) -> (r: u64)
    requires
        backoff <= i64::MAX,
        backoff + jitter <= i64::MAX,
    ensures
        r == delay_of(backoff, jitter as int),
{
    let delay: i64 = backoff as i64 + jitter;
    if delay < DELAY_MIN as i64 {
        DELAY_MIN
    } else {
        delay as u64
    }
}

/// The pause after one more failure.
pub open spec fn doubled(backoff: u64) -> u64 {
    if 2 * backoff < BACKOFF_MAX {
        (2 * backoff) as u64
    } else {
        BACKOFF_MAX
    }
}

/// An attempt that is due: which peer, and after how many seconds.
#[derive(Debug, Clone)]
pub struct Retry {
    pub peer: String,
    pub delay: u64,
}

/// How an attempt ended.
#[derive(Debug, Clone)]
pub enum RetryOutcome {
    /// The worker gave a task, and the punch has been made.
    Punched,
    /// The worker does not know the peer: it may be offline.
    Offline,
    /// The worker could not be asked, or refused; the text says why.
    Failed(String),
}

/// The peer belongs to another group: it will never be reached.
pub open spec fn is_mismatch(outcome: RetryOutcome) -> bool {
    outcome matches RetryOutcome::Failed(why) && text::has_text(why@, "group_mismatch"@)
}

/// The worker takes this node for offline: the heartbeat will register it anew.
pub open spec fn is_from_offline(outcome: RetryOutcome) -> bool {
    outcome matches RetryOutcome::Failed(why) && text::has_text(why@, "from_offline"@)
}

/// The peer's pause once an attempt has ended.
pub open spec fn backoffs_settled(
    backoffs: Map<Seq<char>, u64>,
    peer: Seq<char>,
    outcome: RetryOutcome,
) -> Map<Seq<char>, u64> {
    if is_mismatch(outcome) {
        backoffs.remove(peer)
    } else if outcome is Failed && !is_from_offline(outcome) {
        backoffs.insert(peer, doubled(pause_of(backoffs, peer)))
    } else {
        backoffs
    }
}

/// The pause that holds for a peer.
pub open spec fn pause_of(backoffs: Map<Seq<char>, u64>, peer: Seq<char>) -> u64 {
    if backoffs.contains_key(peer) {
        backoffs[peer]
    } else {
        BACKOFF_INITIAL
    }
}

/// The connection states once an attempt has ended, the punch itself aside.
pub open spec fn conns_settled(
    conns: Map<Seq<char>, ConnState>,
    peer: Seq<char>,
    outcome: RetryOutcome,
) -> Map<Seq<char>, ConnState> {
    if is_mismatch(outcome) {
        conns.remove(peer)
    } else {
        conns
    }
}

/// The attempts under way once the one for a peer has ended.
pub open spec fn in_flight_settled(
    in_flight: Map<Seq<char>, u64>,
    peer: Seq<char>,
) -> Map<Seq<char>, u64> {
    in_flight.remove(peer)
}

/// Some connection has fallen back to the tunnel.
pub open spec fn any_relay(conns: Map<Seq<char>, ConnState>) -> bool {
    exists|peer: Seq<char>| #[trigger] registry::relayed(conns, peer)
}

/// The pauses that a scan leaves: one for each connection over the tunnel.
pub open spec fn backoffs_scanned(
    conns: Map<Seq<char>, ConnState>,
    backoffs: Map<Seq<char>, u64>,
) -> Map<Seq<char>, u64> {
    Map::new(
        |peer: Seq<char>| registry::relayed(conns, peer),
        |peer: Seq<char>| pause_of(backoffs, peer),
    )
}

/// A delay that may come out for a pause.
pub open spec fn is_delay(delay: u64, backoff: u64) -> bool {
    exists|jitter: int|
        -JITTER_RANGE <= jitter <= JITTER_RANGE && delay == #[trigger] delay_of(backoff, jitter)
}

/// An attempt is due for a peer: its connection is over the tunnel, and no
/// attempt is under way.
pub open spec fn is_due(
    conns: Map<Seq<char>, ConnState>,
    in_flight: Map<Seq<char>, u64>,
    peer: Seq<char>,
) -> bool {
    registry::relayed(conns, peer) && !in_flight.contains_key(peer)
}

/// What a scan does. Without a connection over the tunnel it does nothing;
/// else it drops the pauses that no longer matter, and hands out one attempt
/// for each peer that has none under way.
pub open spec fn is_scan(
    conns: Map<Seq<char>, ConnState>,
    backoffs: Map<Seq<char>, u64>,
    in_flight: Map<Seq<char>, u64>,
    backoffs_then: Map<Seq<char>, u64>,
    in_flight_then: Map<Seq<char>, u64>,
    due: Seq<Retry>,
) -> bool {
    &&& backoffs_then == if any_relay(conns) {
        backoffs_scanned(conns, backoffs)
    } else {
        backoffs
    }
    &&& forall|i: int|
        0 <= i < due.len() ==> {
            &&& is_due(conns, in_flight, (#[trigger] due[i]).peer@)
            &&& is_delay(due[i].delay, pause_of(backoffs, due[i].peer@))
            &&& in_flight_then.contains_pair(due[i].peer@, due[i].delay)
        }
    &&& forall|i: int, j: int|
        0 <= i < j < due.len() ==> (#[trigger] due[i]).peer@ != (#[trigger] due[j]).peer@
    &&& forall|peer: Seq<char>| #[trigger]
        is_due(conns, in_flight, peer) ==> exists|i: int|
            0 <= i < due.len() && (#[trigger] due[i]).peer@ == peer
    &&& forall|peer: Seq<char>| #[trigger]
        in_flight_then.contains_key(peer) <==> in_flight.contains_key(peer) || is_due(
            conns,
            in_flight,
            peer,
        )
    &&& forall|peer: Seq<char>| #[trigger]
        in_flight.contains_key(peer) ==> in_flight_then[peer] == in_flight[peer]
}

/// One of the first `n` peers.
pub open spec fn among(peers: Seq<String>, n: int, peer: Seq<char>) -> bool {
    exists|i: int| 0 <= i < n && (#[trigger] peers[i])@ == peer
}

/// The pauses and the attempts under way.
#[derive(Debug)]
pub struct RetryTable {
    backoff: PeerNumbers,
    in_flight: PeerNumbers,
}

impl RetryTable {
    /// The pause for each peer, in seconds.
    pub closed spec fn backoffs(self) -> Map<Seq<char>, u64> {
        self.backoff@
    }

    /// The peers with an attempt under way, with its delay in seconds.
    pub closed spec fn in_flight(self) -> Map<Seq<char>, u64> {
        self.in_flight@
    }

    /// Every pause lies between the first and the longest one.
    pub open spec fn wf(self) -> bool {
        forall|peer: Seq<char>| #[trigger]
            self.backoffs().contains_key(peer) ==> BACKOFF_INITIAL <= self.backoffs()[peer]
                <= BACKOFF_MAX
    }

    /// No pauses, and no attempt under way.
    pub fn new() -> (r: RetryTable)
        ensures
            r.wf(),
            r.backoffs() == Map::<Seq<char>, u64>::empty(),
            r.in_flight() == Map::<Seq<char>, u64>::empty(),
    {
        RetryTable { backoff: PeerNumbers::new(), in_flight: PeerNumbers::new() }
    }

    /// The pause that holds for a peer, in seconds.
    pub fn pause(&self, peer: &str) -> (r: u64)
        ensures
            r == pause_of(self.backoffs(), peer@),
    {
        match self.backoff.get(peer) {
            Some(value) => value,
            None => BACKOFF_INITIAL,
        }
    }

    /// Whether an attempt is under way for a peer.
    pub fn is_in_flight(&self, peer: &str) -> (r: bool)
        ensures
            r == self.in_flight().contains_key(peer@),
    {
        self.in_flight.get(peer).is_some()
    }

    /// Hands out an attempt for a peer, unless one is under way: its delay for
    /// this variation of the pause. The peer's pause is kept either way.
    pub fn schedule(&mut self, peer: &str, jitter: i64) -> (r: Option<u64>)
        requires
            old(self).wf(),
            -JITTER_RANGE <= jitter <= JITTER_RANGE,
        ensures
            final(self).wf(),
            final(self).backoffs() == old(self).backoffs().insert(
                peer@,
                pause_of(old(self).backoffs(), peer@),
            ),
            if old(self).in_flight().contains_key(peer@) {
                r is None && final(self).in_flight() == old(self).in_flight()
            } else {
                r matches Some(delay) && delay == delay_of(
                    pause_of(old(self).backoffs(), peer@),
                    jitter as int,
                ) && final(self).in_flight() == old(self).in_flight().insert(peer@, delay)
            },
    {
        let pause = self.pause(peer);
        self.backoff.insert(peer, pause);
        if self.is_in_flight(peer) {
            return None;
        }
        let delay = retry_delay(pause, jitter);
        self.in_flight.insert(peer, delay);
        Some(delay)
    }

    /// Looks for connections over the tunnel, and hands out the attempts that
    /// are due.
    pub fn scan(&mut self, conns: &ConnTable) -> (r: Vec<Retry>)
        requires
            old(self).wf(),
        ensures
            final(self).wf(),
            is_scan(
                conns@,
                old(self).backoffs(),
                old(self).in_flight(),
                final(self).backoffs(),
                final(self).in_flight(),
                r@,
            ),
    {
        let peers = conns.relay_peers();
        let mut due: Vec<Retry> = Vec::new();
        if peers.len() == 0 {
            return due;
        }
        let ghost b0 = self.backoffs();
        let ghost f0 = self.in_flight();
        self.backoff.retain_relays(conns);
        let ghost mut at: Seq<int> = Seq::empty();
        let mut k: usize = 0;
        while k < peers.len()
            invariant
                k <= peers.len(),
                self.wf(),
                forall|i: int| 0 <= i < peers@.len() ==> registry::relayed(conns@, (#[trigger] peers@[i])@),
                forall|i: int, j: int|
                    0 <= i < j < peers@.len() ==> (#[trigger] peers@[i])@ != (#[trigger] peers@[j])@,
                forall|peer: Seq<char>| #[trigger]
                    self.backoffs().contains_key(peer) <==> registry::relayed(conns@, peer) && (
                    b0.contains_key(peer) || among(peers@, k as int, peer)),
                forall|peer: Seq<char>| #[trigger]
                    self.backoffs().contains_key(peer) ==> self.backoffs()[peer] == pause_of(
                        b0,
                        peer,
                    ),
                forall|peer: Seq<char>| #[trigger]
                    self.in_flight().contains_key(peer) <==> f0.contains_key(peer) || among(
                        peers@,
                        k as int,
                        peer,
                    ),
                forall|peer: Seq<char>| #[trigger]
                    f0.contains_key(peer) ==> self.in_flight()[peer] == f0[peer],
                at.len() == due@.len(),
                forall|i: int|
                    0 <= i < due@.len() ==> 0 <= #[trigger] at[i] < k && due@[i].peer@
                        == peers@[at[i]]@ && !f0.contains_key(due@[i].peer@) && is_delay(
                        due@[i].delay,
                        pause_of(b0, due@[i].peer@),
                    ) && self.in_flight()[due@[i].peer@] == due@[i].delay,
                forall|i: int, j: int| 0 <= i < j < at.len() ==> #[trigger] at[i] < #[trigger] at[j],
                forall|m: int|
                    0 <= m < k && !f0.contains_key((#[trigger] peers@[m])@) ==> exists|i: int|
                        0 <= i < due@.len() && (#[trigger] due@[i]).peer@ == peers@[m]@,
            decreases peers.len() - k,
        {
            let ghost before = due@;
            let ghost b1 = self.backoffs();
            let ghost f1 = self.in_flight();
            let ghost this = peers@[k as int]@;
            proof {
                assert(!among(peers@, k as int, this));
                assert forall|peer: Seq<char>| among(peers@, k as int, peer) implies among(
                    peers@,
                    k + 1,
                    peer,
                ) by {
                    let i = choose|i: int| 0 <= i < k && (#[trigger] peers@[i])@ == peer;
                    assert(peers@[i]@ == peer);
                }
                assert(among(peers@, k + 1, this));
                assert(pause_of(b1, this) == pause_of(b0, this));
            }
            let jitter = random_between(-JITTER_RANGE, JITTER_RANGE);
            match self.schedule(peers[k].as_str(), jitter) {
                Some(delay) => {
                    due.push(Retry { peer: peers[k].clone(), delay });
                    proof {
                        at = at.push(k as int);
                        assert(delay == delay_of(pause_of(b0, this), jitter as int));
                        assert(is_delay(delay, pause_of(b0, this)));
                        assert(due@[before.len() as int].peer@ == this);
                        assert forall|m: int|
                            0 <= m < k + 1 && !f0.contains_key(
                                (#[trigger] peers@[m])@,
                            ) implies exists|i: int|
                            0 <= i < due@.len() && (#[trigger] due@[i]).peer@ == peers@[m]@ by {
                            if m < k {
                                let i = choose|i: int|
                                    0 <= i < before.len() && (#[trigger] before[i]).peer@
                                        == peers@[m]@;
                                assert(due@[i] == before[i]);
                            }
                        }
                        assert forall|i: int| 0 <= i < due@.len() implies 0 <= #[trigger] at[i] < k
                            + 1 && due@[i].peer@ == peers@[at[i]]@ && !f0.contains_key(
                            due@[i].peer@,
                        ) && is_delay(due@[i].delay, pause_of(b0, due@[i].peer@))
                            && self.in_flight()[due@[i].peer@] == due@[i].delay by {
                            if i < before.len() {
                                assert(due@[i] == before[i]);
                                assert(peers@[at[i]]@ != this);
                            }
                        }
                    }
                },
                None => {},
            }
            proof {
                assert forall|peer: Seq<char>| among(peers@, k + 1, peer) implies peer == this
                    || among(peers@, k as int, peer) by {
                    let i = choose|i: int| 0 <= i < k + 1 && (#[trigger] peers@[i])@ == peer;
                    if i < k {
                        assert(peers@[i]@ == peer);
                    }
                }
            }
            k = k + 1;
        }
        proof {
            assert(registry::relayed(conns@, peers@[0]@));
            assert forall|peer: Seq<char>| #[trigger] registry::relayed(
                conns@,
                peer,
            ) implies among(peers@, k as int, peer) by {
                let i = choose|i: int| 0 <= i < peers@.len() && (#[trigger] peers@[i])@ == peer;
                assert(peers@[i]@ == peer);
            }
            assert(self.backoffs() =~= backoffs_scanned(conns@, b0));
            assert forall|i: int| 0 <= i < due@.len() implies {
                &&& is_due(conns@, f0, (#[trigger] due@[i]).peer@)
                &&& is_delay(due@[i].delay, pause_of(b0, due@[i].peer@))
                &&& self.in_flight().contains_pair(due@[i].peer@, due@[i].delay)
            } by {
                assert(0 <= at[i] < k);
                assert(among(peers@, k as int, peers@[at[i]]@));
            }
            assert forall|i: int, j: int| 0 <= i < j < due@.len() implies (
            #[trigger] due@[i]).peer@ != (#[trigger] due@[j]).peer@ by {
                assert(at[i] < at[j]);
                assert(peers@[at[i]]@ != peers@[at[j]]@);
            }
            assert forall|peer: Seq<char>| #[trigger] is_due(
                conns@,
                f0,
                peer,
            ) implies exists|i: int|
                0 <= i < due@.len() && (#[trigger] due@[i]).peer@ == peer by {
                assert(registry::relayed(conns@, peer));
                let m = choose|m: int| 0 <= m < peers@.len() && (#[trigger] peers@[m])@ == peer;
                assert(!f0.contains_key(peers@[m]@));
            }
            assert forall|peer: Seq<char>| #[trigger]
                self.in_flight().contains_key(peer) <==> f0.contains_key(peer) || is_due(
                    conns@,
                    f0,
                    peer,
                ) by {
                if among(peers@, k as int, peer) {
                    let i = choose|i: int| 0 <= i < k && (#[trigger] peers@[i])@ == peer;
                    assert(registry::relayed(conns@, peers@[i]@));
                }
            }
        }
        due
    }

    /// Notes how an attempt for a peer ended.
    pub fn settle(&mut self, peer: &str, outcome: &RetryOutcome, conns: &mut ConnTable)
        requires
            old(self).wf(),
        ensures
            final(self).wf(),
            final(self).backoffs() == backoffs_settled(old(self).backoffs(), peer@, *outcome),
            final(self).in_flight() == in_flight_settled(old(self).in_flight(), peer@),
            final(conns)@ == conns_settled(old(conns)@, peer@, *outcome),
    {
        match outcome {
            RetryOutcome::Failed(why) => {
                if text::contains_text(why.as_str(), "group_mismatch") {
                    conns.remove(peer);
                    self.backoff.remove(peer);
                } else if !text::contains_text(why.as_str(), "from_offline") {
                    let pause = self.pause(peer);
                    let next = if pause < BACKOFF_MAX / 2 {
                        2 * pause
                    } else {
                        BACKOFF_MAX
                    };
                    self.backoff.insert(peer, next);
                }
            },
            _ => {},
        }
        self.in_flight.remove(peer);
        proof {
            let b0 = old(self).backoffs();
            assert forall|p: Seq<char>| #[trigger] self.backoffs().contains_key(
                p,
            ) implies BACKOFF_INITIAL <= self.backoffs()[p] <= BACKOFF_MAX by {
                assert(b0.contains_key(p) ==> BACKOFF_INITIAL <= b0[p] <= BACKOFF_MAX);
            }
        }
    }
}

/// The worker's answer to a request for a connection.
#[derive(Debug, Clone)]
pub struct ConnectResponse {
    pub ok: bool,
    /// When both sides punch.
    pub t: TimestampMs,
    pub target_candidates: Vec<Candidate>,
    pub target_conn_id: Option<String>,
    pub target_virtual_ip: Option<IpAddr>,
}

/// What to make of the worker's answer before its body is read as a task.
#[derive(Debug, Clone)]
pub enum ConnectStep {
    /// The worker does not know the peer.
    Offline,
    /// The attempt has failed; the text says why.
    Failed(String),
    /// The body holds a [`ConnectResponse`].
    ReadTask,
}

/// The text for a refusal, from the member `error` of its body.
pub open spec fn refusal_of(error: Option<Seq<char>>) -> Seq<char> {
    "fetch_connect 403: "@ + match error {
        Some(s) => s,
        None => "unknown"@,
    }
}

/// The text for a refusal, from the member `error` of its body.
pub fn refusal_text(error: &Option<String>) -> (r: String)
    ensures
        r@ == refusal_of(
            match *error {
                Some(s) => Some(s@),
                None => None,
            },
        ),
{
    match error {
        Some(s) => text::concat("fetch_connect 403: ", s.as_str()),
        None => text::concat("fetch_connect 403: ", "unknown"),
    }
}

/// `step` is what to make of the worker's answer to a request for a connection.
pub open spec fn is_connect_step(step: ConnectStep, status: u16, body: Seq<u8>) -> bool {
    if status == 404 {
        step is Offline
    } else if status == 403 {
        step matches ConnectStep::Failed(why) && why@ == refusal_of(
            json::text_member(body, "error"@),
        )
    } else if !worker::success(status) {
        step matches ConnectStep::Failed(why) && why@ == "Worker 返回 "@ + worker::status_line_of(
            status,
        )
    } else {
        step is ReadTask
    }
}

/// What to make of the worker's answer to a request for a connection.
pub fn read_connect(status: u16, body: &Vec<u8>) -> (r: ConnectStep)
    requires
        100 <= status < 1000,
    ensures
        is_connect_step(r, status, body@),
{
    if status == 404 {
        return ConnectStep::Offline;
    }
    if status == 403 {
        let error = json::read_text_member(body, "error");
        return ConnectStep::Failed(refusal_text(&error));
    }
    if !worker::is_success(status) {
        return ConnectStep::Failed(
            text::concat("Worker 返回 ", worker::status_line(status).as_str()),
        );
    }
    ConnectStep::ReadTask
}

/// `task` is what the worker's answer for a peer asks for.
pub open spec fn is_task_of(
    task: HolePunchTask,
    target: Seq<char>,
    answer: ConnectResponse,
) -> bool {
    &&& task.peer_id@ == target
    &&& task.candidates == answer.target_candidates
    &&& task.conn_id == answer.target_conn_id
    &&& task.peer_virtual_ip == answer.target_virtual_ip
    &&& task.punch_at == answer.t
}

/// The task in the worker's answer, `None` where its body could not be read.
pub fn accept_connect(target: &str, response: Option<ConnectResponse>) -> (r: Result<
    HolePunchTask,
    String,
>)
    ensures
        match response {
            None => r matches Err(why) && why@ == "解析 /connect 响应失败"@,
            Some(answer) => if answer.ok {
                r matches Ok(task) && is_task_of(task, target@, answer)
            } else {
                r matches Err(why) && why@ == "Worker 返回 ok=false"@
            },
        },
{
    match response {
        None => Err("解析 /connect 响应失败".to_owned()),
        Some(answer) => {
            if !answer.ok {
                return Err("Worker 返回 ok=false".to_owned());
            }
            Ok(
                HolePunchTask {
                    peer_id: target.to_owned(),
                    candidates: answer.target_candidates,
                    conn_id: answer.target_conn_id,
                    peer_virtual_ip: answer.target_virtual_ip,
                    punch_at: answer.t,
                },
            )
        },
    }
}

/// The text for a request that could not be sent.
pub fn send_failed(url: &str) -> (r: String)
    ensures
        r@ == "POST "@ + url@ + " 失败"@,
{
    text::concat3("POST ", url, " 失败")
}

/// The pause after so many failures in a row.
pub open spec fn pause_after(failures: nat) -> u64
    decreases failures,
{
    if failures == 0 {
        BACKOFF_INITIAL
    } else {
        doubled(pause_after((failures - 1) as nat))
    }
}

/// The pause is 30 s at first, 60 s after a failure, and 120 s from the second
/// failure on.
pub proof fn pauses_double(failures: nat)
    ensures
        pause_after(failures) == if failures == 0 {
            30u64
        } else if failures == 1 {
            60u64
        } else {
            120u64
        },
    decreases failures,
{
    if failures > 0 {
        pauses_double((failures - 1) as nat);
    }
}

/// A delay lies within 10 s of its pause.
pub proof fn delays_stay_near_pauses(delay: u64, backoff: u64)
    requires
        BACKOFF_INITIAL <= backoff <= BACKOFF_MAX,
        is_delay(delay, backoff),
    ensures
        backoff - 10 <= delay <= backoff + 10,
{
}

/// While attempts are under way a second scan hands out nothing and changes
/// nothing.
pub proof fn rescan_hands_out_nothing(
    conns: Map<Seq<char>, ConnState>,
    b0: Map<Seq<char>, u64>,
    f0: Map<Seq<char>, u64>,
    b1: Map<Seq<char>, u64>,
    f1: Map<Seq<char>, u64>,
    due1: Seq<Retry>,
    b2: Map<Seq<char>, u64>,
    f2: Map<Seq<char>, u64>,
    due2: Seq<Retry>,
)
    requires
        is_scan(conns, b0, f0, b1, f1, due1),
        is_scan(conns, b1, f1, b2, f2, due2),
    ensures
        due2.len() == 0,
        b2 == b1,
        f2 == f1,
{
    assert forall|peer: Seq<char>| !is_due(conns, f1, peer) by {
        if registry::relayed(conns, peer) && !f0.contains_key(peer) {
            assert(is_due(conns, f0, peer));
            assert(f1.contains_key(peer));
        } else if f0.contains_key(peer) {
            assert(f1.contains_key(peer));
        }
    }
    if due2.len() > 0 {
        assert(is_due(conns, f1, due2[0].peer@));
    }
    assert(b2 =~= b1);
    assert forall|peer: Seq<char>| f1.contains_key(peer) implies f2[peer] == f1[peer] by {}
    assert forall|peer: Seq<char>| f2.contains_key(peer) == f1.contains_key(peer) by {}
    assert(f2 =~= f1);
}

/// Once an attempt has ended without the peer being reached or given up, the
/// next scan hands out another one.
pub proof fn settled_peers_are_retried(
    conns: Map<Seq<char>, ConnState>,
    b0: Map<Seq<char>, u64>,
    f0: Map<Seq<char>, u64>,
    peer: Seq<char>,
    outcome: RetryOutcome,
    b1: Map<Seq<char>, u64>,
    f1: Map<Seq<char>, u64>,
    due: Seq<Retry>,
)
    requires
        registry::relayed(conns, peer),
        !is_mismatch(outcome),
        is_scan(
            conns_settled(conns, peer, outcome),
            backoffs_settled(b0, peer, outcome),
            f0.remove(peer),
            b1,
            f1,
            due,
        ),
    ensures
        exists|i: int| 0 <= i < due.len() && (#[trigger] due[i]).peer@ == peer,
{
    assert(is_due(conns, f0.remove(peer), peer));
}

/// A peer of another group is forgotten: no scan hands out an attempt for it
/// until its connection falls back to the tunnel again.
pub proof fn mismatched_peers_are_forgotten(
    conns: Map<Seq<char>, ConnState>,
    b0: Map<Seq<char>, u64>,
    f0: Map<Seq<char>, u64>,
    peer: Seq<char>,
    outcome: RetryOutcome,
    b1: Map<Seq<char>, u64>,
    f1: Map<Seq<char>, u64>,
    due: Seq<Retry>,
    i: int,
)
    requires
        is_mismatch(outcome),
        is_scan(
            conns_settled(conns, peer, outcome),
            backoffs_settled(b0, peer, outcome),
            f0.remove(peer),
            b1,
            f1,
            due,
        ),
        0 <= i < due.len(),
    ensures
        due[i].peer@ != peer,
        !b1.contains_key(peer),
{
    let after = conns_settled(conns, peer, outcome);
    assert(is_due(after, f0.remove(peer), due[i].peer@));
    assert(!registry::relayed(after, peer));
    assert(registry::relayed(after, due[i].peer@));
}

/// A peer that a punch could not reach is tried again by the next scan, unless
/// an attempt is under way.
pub proof fn failed_punches_are_retried(
    conns: Map<Seq<char>, ConnState>,
    peer: Seq<char>,
    punch_at: TimestampMs,
    b0: Map<Seq<char>, u64>,
    f0: Map<Seq<char>, u64>,
    b1: Map<Seq<char>, u64>,
    f1: Map<Seq<char>, u64>,
    due: Seq<Retry>,
)
    requires
        !f0.contains_key(peer),
        is_scan(
            punch::conns_after(conns, peer, punch_at, PunchEvent::Exhausted),
            b0,
            f0,
            b1,
            f1,
            due,
        ),
    ensures
        exists|i: int| 0 <= i < due.len() && (#[trigger] due[i]).peer@ == peer,
{
    assert(is_due(punch::conns_after(conns, peer, punch_at, PunchEvent::Exhausted), f0, peer));
}

/// A peer that a punch has reached is left alone by scans; the next scan that
/// finds another peer to try forgets its pause.
pub proof fn reached_peers_are_left_alone(
    conns: Map<Seq<char>, ConnState>,
    peer: Seq<char>,
    punch_at: TimestampMs,
    id: u64,
    b0: Map<Seq<char>, u64>,
    f0: Map<Seq<char>, u64>,
    b1: Map<Seq<char>, u64>,
    f1: Map<Seq<char>, u64>,
    due: Seq<Retry>,
    i: int,
)
    requires
        is_scan(
            punch::conns_after(conns, peer, punch_at, PunchEvent::Connected(id)),
            b0,
            f0,
            b1,
            f1,
            due,
        ),
        0 <= i < due.len(),
    ensures
        due[i].peer@ != peer,
        !b1.contains_key(peer),
{
    let after = punch::conns_after(conns, peer, punch_at, PunchEvent::Connected(id));
    assert(is_due(after, f0, due[i].peer@));
    assert(!registry::relayed(after, peer));
    assert(registry::relayed(after, due[i].peer@));
}

/// A delay is the pause varied by the given seconds, but no shorter than five.
pub proof fn delays_vary_the_pause(backoff: u64, jitter: int)
    ensures
        backoff + jitter >= 5 ==> delay_of(backoff, jitter) == backoff + jitter,
        backoff + jitter < 5 ==> delay_of(backoff, jitter) == 5,
{
}

/// After a failure the peer's pause doubles, up to two minutes, from half a
/// minute where it had none; every other peer keeps its own.
pub proof fn failures_double_the_pause(
    backoffs: Map<Seq<char>, u64>,
    peer: Seq<char>,
    why: String,
    other: Seq<char>,
)
    requires
        !text::has_text(why@, "group_mismatch"@),
        !text::has_text(why@, "from_offline"@),
        other != peer,
    ensures
        backoffs_settled(backoffs, peer, RetryOutcome::Failed(why)).contains_key(peer),
        !backoffs.contains_key(peer) ==> backoffs_settled(
            backoffs,
            peer,
            RetryOutcome::Failed(why),
        )[peer] == 60,
        backoffs.contains_key(peer) && backoffs[peer] <= 60 ==> backoffs_settled(
            backoffs,
            peer,
            RetryOutcome::Failed(why),
        )[peer] == 2 * backoffs[peer],
        backoffs.contains_key(peer) && backoffs[peer] > 60 ==> backoffs_settled(
            backoffs,
            peer,
            RetryOutcome::Failed(why),
        )[peer] == 120,
        backoffs_settled(backoffs, peer, RetryOutcome::Failed(why)).get(other) == backoffs.get(
            other,
        ),
{
}

/// An attempt that ended otherwise leaves the pauses as they were: the peer
/// was punched, is offline, or this node counts as offline.
pub proof fn other_outcomes_keep_the_pause(
    backoffs: Map<Seq<char>, u64>,
    conns: Map<Seq<char>, ConnState>,
    peer: Seq<char>,
    why: String,
)
    requires
        !text::has_text(why@, "group_mismatch"@),
    ensures
        backoffs_settled(backoffs, peer, RetryOutcome::Punched) == backoffs,
        backoffs_settled(backoffs, peer, RetryOutcome::Offline) == backoffs,
        text::has_text(why@, "from_offline"@) ==> backoffs_settled(
            backoffs,
            peer,
            RetryOutcome::Failed(why),
        ) == backoffs,
        conns_settled(conns, peer, RetryOutcome::Punched) == conns,
        conns_settled(conns, peer, RetryOutcome::Offline) == conns,
        conns_settled(conns, peer, RetryOutcome::Failed(why)) == conns,
{
}

/// A refusal for another group is recognised in the worker's answer: the peer
/// is forgotten, and no other.
pub proof fn other_groups_are_recognised(
    step: ConnectStep,
    body: Seq<u8>,
    a: Seq<char>,
    b: Seq<char>,
    backoffs: Map<Seq<char>, u64>,
    conns: Map<Seq<char>, ConnState>,
    peer: Seq<char>,
    other: Seq<char>,
)
    requires
        is_connect_step(step, 403, body),
        json::text_member(body, "error"@) == Some(a + "group_mismatch"@ + b),
        other != peer,
    ensures
        step matches ConnectStep::Failed(why) && {
            &&& !backoffs_settled(backoffs, peer, RetryOutcome::Failed(why)).contains_key(peer)
            &&& !conns_settled(conns, peer, RetryOutcome::Failed(why)).contains_key(peer)
            &&& backoffs_settled(backoffs, peer, RetryOutcome::Failed(why)).get(other)
                == backoffs.get(other)
            &&& conns_settled(conns, peer, RetryOutcome::Failed(why)).get(other) == conns.get(other)
        },
{
    let lead = "fetch_connect 403: "@;
    let pat = "group_mismatch"@;
    let whole = lead + (a + pat + b);
    assert(whole =~= (lead + a) + pat + b);
    text::placed_texts_occur(lead + a, pat, b);
    assert(text::has_text(whole, pat));
}

/// A refusal because this node counts as offline is recognised in the worker's
/// answer: nothing is forgotten, and no pause grows.
pub proof fn offline_refusals_are_recognised(
    step: ConnectStep,
    body: Seq<u8>,
    a: Seq<char>,
    b: Seq<char>,
)
    requires
        is_connect_step(step, 403, body),
        json::text_member(body, "error"@) == Some(a + "from_offline"@ + b),
    ensures
        step matches ConnectStep::Failed(why) && is_from_offline(RetryOutcome::Failed(why)),
{
    let lead = "fetch_connect 403: "@;
    let pat = "from_offline"@;
    let whole = lead + (a + pat + b);
    assert(whole =~= (lead + a) + pat + b);
    text::placed_texts_occur(lead + a, pat, b);
    assert(text::has_text(whole, pat));
}

/// The worker's answer is read as a task exactly where it tells of success; a
/// peer that the worker does not know is offline, and all else is a failure.
pub proof fn statuses_decide_the_step(step: ConnectStep, status: u16, body: Seq<u8>)
    requires
        is_connect_step(step, status, body),
    ensures
        step is ReadTask <==> 200 <= status <= 299,
        step is Offline <==> status == 404,
        step is Failed <==> !(200 <= status <= 299) && status != 404,
{
}

/// The task in the worker's answer reaches the peer that was asked for, at the
/// addresses and at the time that the worker names.
pub proof fn tasks_keep_the_time(
    task: HolePunchTask,
    target: Seq<char>,
    answer: ConnectResponse,
    now: TimestampMs,
)
    requires
        is_task_of(task, target, answer),
    ensures
        task.peer_id@ == target,
        task.candidates@ == answer.target_candidates@,
        task.conn_id == answer.target_conn_id,
        task.peer_virtual_ip == answer.target_virtual_ip,
        now < answer.t <= now + 2000 ==> punch::next_of(task.punch_at, PunchEvent::Begin(now)).1
            == PunchAction::Sleep((answer.t - now) as u64),
        answer.t <= now <= answer.t + 600 ==> punch::next_of(
            task.punch_at,
            PunchEvent::Begin(now),
        ).1 == PunchAction::Connect,
{
}

/// A scan hands out an attempt for each connection over the tunnel that has
/// none under way, once, within ten seconds of its pause, and for no other.
pub proof fn scans_hand_out_what_is_due(
    conns: Map<Seq<char>, ConnState>,
    backoffs: Map<Seq<char>, u64>,
    in_flight: Map<Seq<char>, u64>,
    backoffs_then: Map<Seq<char>, u64>,
    in_flight_then: Map<Seq<char>, u64>,
    due: Seq<Retry>,
    peer: Seq<char>,
    i: int,
    j: int,
)
    requires
        is_scan(conns, backoffs, in_flight, backoffs_then, in_flight_then, due),
    ensures
        conns.get(peer) == Some(ConnState::Relay) && !in_flight.contains_key(peer) ==> exists|k: int|
            0 <= k < due.len() && (#[trigger] due[k]).peer@ == peer,
        0 <= i < due.len() ==> {
            &&& conns.get(due[i].peer@) == Some(ConnState::Relay)
            &&& !in_flight.contains_key(due[i].peer@)
            &&& in_flight_then.get(due[i].peer@) == Some(due[i].delay)
            &&& !backoffs.contains_key(due[i].peer@) ==> 20 <= due[i].delay <= 40
            &&& backoffs.contains_key(due[i].peer@) && backoffs[due[i].peer@] >= 30
                ==> backoffs[due[i].peer@] - 10 <= due[i].delay <= backoffs[due[i].peer@] + 10
        },
        0 <= i < j < due.len() ==> due[i].peer@ != due[j].peer@,
        in_flight.contains_key(peer) ==> in_flight_then.get(peer) == in_flight.get(peer),
        conns.get(peer) == Some(ConnState::Relay) ==> backoffs_then.get(peer) == Some(
            if backoffs.contains_key(peer) {
                backoffs[peer]
            } else {
                30
            },
        ),
        (exists|p: Seq<char>| #[trigger] conns.get(p) == Some(ConnState::Relay)) && conns.get(peer)
            != Some(ConnState::Relay) ==> !backoffs_then.contains_key(peer),
{
    if conns.get(peer) == Some(ConnState::Relay) {
        assert(registry::relayed(conns, peer));
        if !in_flight.contains_key(peer) {
            assert(is_due(conns, in_flight, peer));
        }
    }
    if exists|p: Seq<char>| #[trigger] conns.get(p) == Some(ConnState::Relay) {
        let p = choose|p: Seq<char>| #[trigger] conns.get(p) == Some(ConnState::Relay);
        assert(registry::relayed(conns, p));
    }
    if 0 <= i < due.len() {
        assert(is_due(conns, in_flight, due[i].peer@));
        assert(in_flight_then.contains_pair(due[i].peer@, due[i].delay));
    }
    if in_flight.contains_key(peer) {
        assert(in_flight_then.contains_key(peer));
    }
}

/// Once an attempt has ended, none is under way for its peer; those for other
/// peers go on.
pub proof fn ended_attempts_are_not_under_way(
    in_flight: Map<Seq<char>, u64>,
    peer: Seq<char>,
    other: Seq<char>,
)
    requires
        other != peer,
    ensures
        !in_flight_settled(in_flight, peer).contains_key(peer),
        in_flight_settled(in_flight, peer).get(other) == in_flight.get(other),
{
}

/// Without a connection over the tunnel a scan hands out nothing and keeps
/// every pause.
pub proof fn idle_scans_change_nothing(
    conns: Map<Seq<char>, ConnState>,
    backoffs: Map<Seq<char>, u64>,
    in_flight: Map<Seq<char>, u64>,
    backoffs_then: Map<Seq<char>, u64>,
    in_flight_then: Map<Seq<char>, u64>,
    due: Seq<Retry>,
)
    requires
        is_scan(conns, backoffs, in_flight, backoffs_then, in_flight_then, due),
        forall|peer: Seq<char>| #[trigger] conns.get(peer) != Some(ConnState::Relay),
    ensures
        due.len() == 0,
        backoffs_then == backoffs,
        in_flight_then == in_flight,
{
    if due.len() > 0 {
        assert(is_due(conns, in_flight, due[0].peer@));
        assert(conns.get(due[0].peer@) == Some(ConnState::Relay));
    }
    if any_relay(conns) {
        let peer = choose|peer: Seq<char>| #[trigger] registry::relayed(conns, peer);
        assert(conns.get(peer) == Some(ConnState::Relay));
    }
    assert forall|peer: Seq<char>| in_flight_then.contains_key(peer) == in_flight.contains_key(
        peer,
    ) by {
        if is_due(conns, in_flight, peer) {
            assert(conns.get(peer) == Some(ConnState::Relay));
        }
    }
    assert(in_flight_then =~= in_flight);
}

/// A scan comes every fifteen seconds, at least twice within the first pause.
pub proof fn scans_come_within_the_pause()
    ensures
        SCAN_INTERVAL == 15,
        2 * SCAN_INTERVAL <= BACKOFF_INITIAL,
{
}

} // verus!
