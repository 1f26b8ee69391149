//! Writing a prepared continuation, and keeping a lease alive.
use vstd::prelude::*;

use crate::condition::{accepted, read_condition, ConditionStatus};
use crate::lease::{
    accepted_delivery, accepted_lease, read_delivery, read_hook_lease, DeliveryView, HookLeaseView,
};
use crate::session::{SessionState, SessionView};
use crate::stored::{Stored, StoredView};
use crate::text::{joined, outcome, outcome_view, same_text};

verus! {

/// What became of a continuation.
#[derive(Debug, PartialEq, Eq)]
pub enum DeliveryStatus {
    /// It was written, and is no longer pending.
    Delivered,
    /// Another hook or another condition took its place; it must not be written.
    Superseded,
    /// It was written, but stays pending for this reason.
    DeliveredButUnacknowledged(String),
}

/// The view of a [`DeliveryStatus`].
pub enum DeliveryStatusView {
    Delivered,
    Superseded,
    DeliveredButUnacknowledged(Seq<char>),
}

impl View for DeliveryStatus {
    type V = DeliveryStatusView;

    open spec fn view(&self) -> DeliveryStatusView {
        match *self {
            DeliveryStatus::Delivered => DeliveryStatusView::Delivered,
            DeliveryStatus::Superseded => DeliveryStatusView::Superseded,
            DeliveryStatus::DeliveredButUnacknowledged(error) => {
                DeliveryStatusView::DeliveredButUnacknowledged(error@)
            },
        }
    }
}

/// What happened.
#[derive(Debug)]
pub enum DeliveryEvent {
    /// A continuation is ready to be written.
    Ready,
    /// It was written and flushed, or not.
    Written(Result<(), String>),
    /// The record of the pending delivery was removed, or not.
    Cleared(Result<(), String>),
}

/// The view of a [`DeliveryEvent`].
pub enum DeliveryEventView {
    Ready,
    Written(Result<(), Seq<char>>),
    Cleared(Result<(), Seq<char>>),
}

impl View for DeliveryEvent {
    type V = DeliveryEventView;

    open spec fn view(&self) -> DeliveryEventView {
        match *self {
            DeliveryEvent::Ready => DeliveryEventView::Ready,
            DeliveryEvent::Written(result) => DeliveryEventView::Written(outcome(result)),
            DeliveryEvent::Cleared(result) => DeliveryEventView::Cleared(outcome(result)),
        }
    }
}

/// What is to be done.
#[derive(Debug)]
pub enum DeliveryAction {
    /// Write and flush the continuation.
    Write,
    /// Remove the record of the pending delivery.
    Clear,
    /// Stop.
    Finish(DeliveryStatus),
}

/// The view of a [`DeliveryAction`].
pub enum DeliveryActionView {
    Write,
    Clear,
    Finish(DeliveryStatusView),
}

impl View for DeliveryAction {
    type V = DeliveryActionView;

    open spec fn view(&self) -> DeliveryActionView {
        match *self {
            DeliveryAction::Write => DeliveryActionView::Write,
            DeliveryAction::Clear => DeliveryActionView::Clear,
            DeliveryAction::Finish(status) => DeliveryActionView::Finish(status@),
        }
    }
}

/// Whether the pending delivery of a session is the one that a hook prepared.
pub open spec fn deliverable(
    stored: StoredView<DeliveryView>,
    condition_id: Seq<char>,
    owner_id: Seq<char>,
) -> Result<bool, Seq<char>> {
    match accepted_delivery(stored) {
        StoredView::Found(delivery) => Ok(delivery.prepared_by(condition_id, owner_id)),
        StoredView::Missing => Ok(false),
        StoredView::Failed(error) => Err("read pending delivery: "@ + error),
    }
}

/// One step of a delivery: the session afterwards, and the next action or an error. A continuation
/// stays pending until it has been written.
pub open spec fn delivering(
    session: SessionView,
    condition_id: Seq<char>,
    owner_id: Seq<char>,
    event: DeliveryEventView,
) -> (SessionView, Result<DeliveryActionView, Seq<char>>) {
    match event {
        DeliveryEventView::Ready => match deliverable(session.delivery, condition_id, owner_id) {
            Ok(true) => (session, Ok(DeliveryActionView::Write)),
            Ok(false) => (
                session,
                Ok(DeliveryActionView::Finish(DeliveryStatusView::Superseded)),
            ),
            Err(error) => (session, Err(error)),
        },
        DeliveryEventView::Written(Ok(())) => (
            SessionView { delivery: StoredView::Missing, ..session },
            Ok(DeliveryActionView::Clear),
        ),
        DeliveryEventView::Written(Err(error)) => (session, Err(error)),
        DeliveryEventView::Cleared(Ok(())) => (
            session,
            Ok(DeliveryActionView::Finish(DeliveryStatusView::Delivered)),
        ),
        DeliveryEventView::Cleared(Err(error)) => (
            session,
            Ok(
                DeliveryActionView::Finish(
                    DeliveryStatusView::DeliveredButUnacknowledged(error),
                ),
            ),
        ),
    }
}

/// Takes one step of a delivery. The caller holds the lock of the session from the first step to
/// the last.
pub fn deliver_hook_notification(
    state: &mut SessionState,
    condition_id: &str,
    owner_id: &str,
    event: DeliveryEvent,
) -> (result: Result<DeliveryAction, String>)
    ensures
        (final(state)@, outcome_view(result)) == delivering(
            old(state)@,
            condition_id@,
            owner_id@,
            event@,
        ),
{
    match event {
        DeliveryEvent::Ready => match read_delivery(&state.delivery) {
            Stored::Found(delivery) => {
                if same_text(delivery.condition_id.as_str(), condition_id) && same_text(
                    delivery.owner.owner_id.as_str(),
                    owner_id,
                ) {
                    Ok(DeliveryAction::Write)
                } else {
                    Ok(DeliveryAction::Finish(DeliveryStatus::Superseded))
                }
            },
            Stored::Missing => Ok(DeliveryAction::Finish(DeliveryStatus::Superseded)),
            Stored::Failed(error) => Err(joined("read pending delivery: ", error.as_str())),
        },
        DeliveryEvent::Written(Ok(())) => {
            state.delivery = Stored::Missing;
            Ok(DeliveryAction::Clear)
        },
        DeliveryEvent::Written(Err(error)) => Err(error),
        DeliveryEvent::Cleared(Ok(())) => Ok(DeliveryAction::Finish(DeliveryStatus::Delivered)),
        DeliveryEvent::Cleared(Err(error)) => Ok(
            DeliveryAction::Finish(DeliveryStatus::DeliveredButUnacknowledged(error)),
        ),
    }
}

/// The lease of a hook that still drives its waiting condition.
pub open spec fn live_lease(
    session: SessionView,
    condition_id: Seq<char>,
    owner_id: Seq<char>,
) -> Option<HookLeaseView> {
    match (accepted(session.condition), accepted_lease(session.lease)) {
        (StoredView::Found(condition), StoredView::Found(lease)) => if condition.id == condition_id
            && condition.status == ConditionStatus::Waiting && lease.owned_by(
            condition_id,
            owner_id,
        ) {
            Some(lease)
        } else {
            None
        },
        _ => None,
    }
}

/// The session after a hook refreshed its heartbeat, and whether it still drives its condition.
pub open spec fn refreshing(
    session: SessionView,
    condition_id: Seq<char>,
    owner_id: Seq<char>,
    now_ms: u64,
) -> (SessionView, bool) {
    match live_lease(session, condition_id, owner_id) {
        Some(lease) => (
            SessionView { lease: StoredView::Found(lease.refreshed(now_ms)), ..session },
            true,
        ),
        None => (session, false),
    }
}

/// Refreshes the heartbeat of a hook, and tells whether the hook still drives its condition.
pub fn refresh_hook_heartbeat(
    state: &mut SessionState,
    condition_id: &str,
    owner_id: &str,
    now_ms: u64,
) -> (refreshed: bool)
    ensures
        (final(state)@, refreshed) == refreshing(old(state)@, condition_id@, owner_id@, now_ms),
        match live_lease(old(state)@, condition_id@, owner_id@) {
            Some(lease) => refreshed && final(state)@ == (SessionView {
                lease: StoredView::Found(lease.refreshed(now_ms)),
                ..old(state)@
            }),
            None => !refreshed && final(state)@ == old(state)@,
        },
{
    match read_condition(&state.condition) {
        Stored::Found(condition) => {
            if !same_text(condition.id.as_str(), condition_id) || condition.status
                != ConditionStatus::Waiting {
                return false;
            }
        },
        _ => return false,
    }
    match read_hook_lease(&state.lease) {
        Stored::Found(lease) => {
            if !same_text(lease.condition_id.as_str(), condition_id) || !same_text(
                lease.owner.owner_id.as_str(),
                owner_id,
            ) {
                return false;
            }
            let mut lease = lease;
            lease.heartbeat_at_ms = now_ms;
            state.lease = Stored::Found(lease);
            true
        },
        _ => false,
    }
}

} // verus!
