//! `POST /notify`: the worker tells of a peer that wants to be reached.

use vstd::prelude::*;
use vstd::string::*;

use crate::clock;
use crate::holepunch::punch;
use crate::holepunch::punch::{PunchAction, PunchEvent};
use crate::net::IpAddr;
use crate::text;
use crate::types::{Candidate, HolePunchTask, TimestampMs};

verus! {

/// How far the time of a punch may lie from now, in milliseconds.
pub const NOTIFY_WINDOW_MS: i128 = 30_000;

/// What the worker tells.
#[derive(Debug, Clone)]
pub struct NotifyPayload {
    /// The field `type`.
    pub msg_type: Option<String>,
    pub from: String,
    pub from_candidates: Vec<Candidate>,
    /// Not used on this side.
    pub from_conn_id: Option<String>,
    pub from_virtual_ip: Option<IpAddr>,
    /// When to punch.
    pub t: TimestampMs,
}

/// Why a notification is refused, with status 400.
#[derive(Debug, Clone, Copy, PartialEq, Eq, Structural)]
pub enum NotifyError {
    /// It is none of hole punching.
    UnknownType,
    /// It names no peer.
    NoPeer,
    /// It names no address of the peer.
    NoCandidates,
    /// Its time lies too far off.
    OutOfTime,
}

/// Why a notification is refused at a time, if it is.
pub open spec fn refusal_of(payload: NotifyPayload, now: TimestampMs) -> Option<NotifyError> {
    if payload.msg_type is None || (payload.msg_type->0)@ != "hole_punch"@ {
        Some(NotifyError::UnknownType)
    } else if payload.from@.len() == 0 {
        Some(NotifyError::NoPeer)
    } else if payload.from_candidates@.len() == 0 {
        Some(NotifyError::NoCandidates)
    } else if clock::ahead(payload.t, now) > NOTIFY_WINDOW_MS || clock::ahead(payload.t, now)
        < -NOTIFY_WINDOW_MS {
        Some(NotifyError::OutOfTime)
    } else {
        None
    }
}

/// `task` is what a notification asks for.
pub open spec fn is_task_of(task: HolePunchTask, payload: NotifyPayload) -> bool {
    &&& task.peer_id == payload.from
    &&& task.candidates == payload.from_candidates
    &&& task.conn_id is None
    &&& task.peer_virtual_ip == payload.from_virtual_ip
    &&& task.punch_at == payload.t
}

/// Makes a task of a notification that arrives at `now`. The peer's connection
/// id is not passed on: this side does not need it.
pub fn accept_notify(payload: NotifyPayload, now: TimestampMs) -> (r: Result<
    HolePunchTask,
    NotifyError,
>)
    ensures
        match refusal_of(payload, now) {
            Some(e) => r == Err::<HolePunchTask, NotifyError>(e),
            None => r matches Ok(task) && is_task_of(task, payload),
        },
{
    let known = match &payload.msg_type {
        Some(name) => text::same_text(name.as_str(), "hole_punch"),
        None => false,
    };
    if !known {
        return Err(NotifyError::UnknownType);
    }
    if payload.from.as_str().is_empty() {
        return Err(NotifyError::NoPeer);
    }
    if payload.from_candidates.len() == 0 {
        return Err(NotifyError::NoCandidates);
    }
    let diff = clock::millis_ahead(payload.t, now);
    if diff > NOTIFY_WINDOW_MS || diff < -NOTIFY_WINDOW_MS {
        return Err(NotifyError::OutOfTime);
    }
    Ok(
        HolePunchTask {
            peer_id: payload.from,
            candidates: payload.from_candidates,
            conn_id: None,
            peer_virtual_ip: payload.from_virtual_ip,
            punch_at: payload.t,
        },
    )
}

/// The status of the answer to a notification.
pub open spec fn status_of(accepted: bool, delivered: bool) -> u16 {
    if !accepted {
        400
    } else if delivered {
        200
    } else {
        503
    }
}

/// The status of the answer: 400 for a notification that was refused, 200 for
/// one that the engine has taken, 503 for one that it has not.
pub fn notify_status(accepted: bool, delivered: bool) -> (r: u16)
    ensures
        r == status_of(accepted, delivered),
{
    if !accepted {
        400
    } else if delivered {
        200
    } else {
        503
    }
}

/// A notification is accepted only for a punch within half a minute of now.
pub proof fn stale_notifications_are_refused(payload: NotifyPayload, now: TimestampMs)
    requires
        refusal_of(payload, now) is None,
    ensures
        payload.t <= now + 30_000,
        now <= payload.t + 30_000,
{
}

/// A notification is accepted exactly where it is about hole punching, names a
/// peer and at least one address of it, and its time lies no more than half a
/// minute from now, either way.
pub proof fn sound_notifications_are_accepted(payload: NotifyPayload, now: TimestampMs)
    ensures
        refusal_of(payload, now) is None <==> {
            &&& payload.msg_type matches Some(name) && name@ == "hole_punch"@
            &&& payload.from@.len() > 0
            &&& payload.from_candidates@.len() > 0
            &&& payload.t <= now + 30_000
            &&& now <= payload.t + 30_000
        },
{
}

/// The first thing that is wrong with a notification is the one that counts.
pub proof fn refusals_come_in_order(payload: NotifyPayload, now: TimestampMs)
    ensures
        payload.msg_type is None ==> refusal_of(payload, now) == Some(NotifyError::UnknownType),
        refusal_of(payload, now) == Some(NotifyError::NoPeer) ==> payload.from@.len() == 0,
        refusal_of(payload, now) == Some(NotifyError::NoCandidates) ==> payload.from@.len() > 0
            && payload.from_candidates@.len() == 0,
        refusal_of(payload, now) == Some(NotifyError::OutOfTime) ==> payload.from@.len() > 0
            && payload.from_candidates@.len() > 0 && (payload.t > now + 30_000 || now > payload.t
            + 30_000),
{
}

/// The task of a notification reaches the peer that it names, at the addresses
/// that it names; it sleeps until the time that it names, where that lies
/// ahead by no more than two seconds.
pub proof fn tasks_keep_the_time(task: HolePunchTask, payload: NotifyPayload, now: TimestampMs)
    requires
        is_task_of(task, payload),
    ensures
        task.peer_id@ == payload.from@,
        task.candidates@ == payload.from_candidates@,
        task.peer_virtual_ip == payload.from_virtual_ip,
        task.conn_id is None,
        now < payload.t <= now + 2000 ==> punch::next_of(
            task.punch_at,
            PunchEvent::Begin(now),
        ).1 == PunchAction::Sleep((payload.t - now) as u64),
        payload.t <= now <= payload.t + 600 ==> punch::next_of(
            task.punch_at,
            PunchEvent::Begin(now),
        ).1 == PunchAction::Connect,
{
}

/// Each status tells what became of a notification.
pub proof fn statuses_tell_the_outcome(accepted: bool, delivered: bool)
    ensures
        status_of(accepted, delivered) == 200 <==> accepted && delivered,
        status_of(accepted, delivered) == 503 <==> accepted && !delivered,
        status_of(accepted, delivered) == 400 <==> !accepted,
{
}

} // verus!
