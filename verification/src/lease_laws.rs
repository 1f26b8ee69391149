//! What holds of every lease and every continuation that waits to be written.
use vstd::prelude::*;

use crate::condition::{ConditionStatus, ConditionView};
use crate::condition_laws::in_order;
use crate::delivery::{
    delivering, refreshing, DeliveryActionView, DeliveryEventView, DeliveryStatusView,
};
use crate::hook::{stepping, HookActionView, HookEventView, HookResultView, HookRunView};
use crate::lease::{
    accepted_delivery, accepted_lease, watcher, DeliveryView, HookLeaseView, HookPhase,
    Observation, WatcherState,
};
use crate::session::{inspection, ConditionSnapshotView, SessionView};
use crate::stored::StoredView;
use crate::waiting_laws::{can_own, kept_out};

verus! {

/// A lease is accepted if and only if it has the present format, a condition and an owner with a
/// process; what is accepted is taken as it is.
pub proof fn leases_are_accepted_as_they_are_or_not_at_all(lease: HookLeaseView)
    ensures
        ({
            let good = lease.version == 1 && lease.condition_id.len() > 0 && can_own(lease.owner);
            &&& good ==> accepted_lease(StoredView::Found(lease)) == StoredView::Found(lease)
            &&& !good ==> accepted_lease(StoredView::Found(lease)) is Failed
        }),
        accepted_lease(StoredView::Missing) is Missing,
{
}

/// A continuation that waits is accepted under the same conditions as a lease.
pub proof fn deliveries_are_accepted_as_they_are_or_not_at_all(delivery: DeliveryView)
    ensures
        ({
            let good = delivery.version == 1 && delivery.condition_id.len() > 0 && can_own(
                delivery.owner,
            );
            &&& good ==> accepted_delivery(StoredView::Found(delivery)) == StoredView::Found(
                delivery,
            )
            &&& !good ==> accepted_delivery(StoredView::Found(delivery)) is Failed
        }),
        accepted_delivery(StoredView::Missing) is Missing,
{
}

/// A waiting condition is driven as long as its lease keeps others out, and what is shown of its hook
/// is what the lease says.
pub proof fn a_waiting_condition_shows_its_hook(
    condition: ConditionView,
    lease: HookLeaseView,
    delivery: StoredView<DeliveryView>,
    seen: Observation,
    now_ms: u64,
)
    requires
        condition.status == ConditionStatus::Waiting,
        lease.version == 1,
        lease.condition_id.len() > 0,
        can_own(lease.owner),
        now_ms < u64::MAX - 1_000,
    ensures
        ({
            let status = watcher(condition, StoredView::Found(lease), delivery, seen, now_ms);
            &&& status.state == (if kept_out(condition, lease, seen, now_ms) {
                WatcherState::Alive
            } else {
                WatcherState::Stale
            })
            &&& status.condition_id == condition.id
            &&& status.owner_id == Some(lease.owner.owner_id)
            &&& status.pid == Some(lease.owner.pid)
            &&& status.turn_id == lease.owner.turn_id
            &&& status.parent_pid == lease.owner.parent_pid
            &&& status.process_group_id == lease.owner.process_group_id
            &&& status.heartbeat_at_ms == Some(lease.heartbeat_at_ms)
            &&& status.heartbeat_age_ms == Some(
                if lease.heartbeat_at_ms <= now_ms {
                    (now_ms - lease.heartbeat_at_ms) as u64
                } else {
                    0
                },
            )
            &&& status.started_at_ms == lease.started_at_ms
            &&& status.phase == lease.phase
            &&& status.phase_at_ms == lease.phase_at_ms
            &&& status.last_check_started_at_ms == lease.last_check_started_at_ms
            &&& status.lease_error == if lease.heartbeat_at_ms > now_ms + 1_000 {
                Some("hook lease heartbeat is in the future"@)
            } else if !seen.lease_process_exists {
                Some("hook process no longer exists"@)
            } else {
                None
            }
        }),
{
}

/// A waiting condition without a lease is nobody's, but for one of the former format that was written
/// a short while ago: the hooks of that format left no lease, so it may still be driven for as long
/// as one round of it can take and five seconds, thirty seconds at least.
pub proof fn a_former_hook_is_given_some_time(
    condition: ConditionView,
    delivery: StoredView<DeliveryView>,
    seen: Observation,
    now_ms: u64,
)
    requires
        condition.status == ConditionStatus::Waiting,
        condition.poll_every_ms + condition.check_timeout_ms + 5_000 <= u64::MAX,
    ensures
        ({
            let status = watcher(condition, StoredView::Missing, delivery, seen, now_ms);
            let round = condition.poll_every_ms + condition.check_timeout_ms + 5_000;
            let grace = if round < 30_000 {
                30_000
            } else {
                round
            };
            &&& status.state == (if condition.version == 1 && (
            seen.modified_at_ms matches Some(modified) && now_ms < modified + grace) {
                WatcherState::LegacyUnknown
            } else {
                WatcherState::Stale
            })
            &&& status.owner_id is None
            &&& status.pid is None
        }),
{
}

/// A lease that cannot be read keeps nobody out, and the error is shown.
pub proof fn an_unreadable_lease_keeps_nobody_out(
    condition: ConditionView,
    error: Seq<char>,
    delivery: StoredView<DeliveryView>,
    seen: Observation,
    now_ms: u64,
)
    requires
        condition.status == ConditionStatus::Waiting,
    ensures
        watcher(condition, StoredView::Failed(error), delivery, seen, now_ms).state
            == WatcherState::Stale,
        watcher(condition, StoredView::Failed(error), delivery, seen, now_ms).lease_error == Some(
            error,
        ),
{
}

/// A condition that does not wait shows the hook that is about to deliver its continuation, if there
/// is one that belongs to it, and otherwise that it is armed or at rest.
pub proof fn a_resting_condition_shows_its_delivery(
    condition: ConditionView,
    lease: StoredView<HookLeaseView>,
    delivery: DeliveryView,
    seen: Observation,
    now_ms: u64,
)
    requires
        condition.status != ConditionStatus::Waiting,
        delivery.version == 1,
        delivery.condition_id.len() > 0,
        can_own(delivery.owner),
        now_ms < u64::MAX - 1_000,
    ensures
        ({
            let status = watcher(condition, lease, StoredView::Found(delivery), seen, now_ms);
            let none = watcher(condition, lease, StoredView::Missing, seen, now_ms);
            let given_up = condition.status == ConditionStatus::Cancelled || condition.status
                == ConditionStatus::CancelRequested;
            let resting = if condition.status == ConditionStatus::Armed {
                WatcherState::Armed
            } else {
                WatcherState::Inactive
            };
            &&& none.state == resting
            &&& if delivery.condition_id == condition.id && !given_up {
                &&& status.state == (if seen.delivery_process_exists && now_ms
                    <= delivery.prepared_at_ms + 5_000 && delivery.prepared_at_ms <= now_ms
                    + 1_000 {
                    WatcherState::Alive
                } else {
                    WatcherState::Stale
                })
                &&& status.owner_id == Some(delivery.owner.owner_id)
                &&& status.pid == Some(delivery.owner.pid)
                &&& status.heartbeat_at_ms == Some(delivery.prepared_at_ms)
                &&& status.phase == Some(HookPhase::Delivering)
            } else {
                status.state == resting && status.owner_id is None
            }
        }),
{
}

/// A heartbeat is refreshed by the hook that holds the waiting condition and by nobody else; it
/// changes the time of the heartbeat and nothing else.
pub proof fn a_heartbeat_changes_its_time_only(
    session: SessionView,
    condition: ConditionView,
    lease: HookLeaseView,
    condition_id: Seq<char>,
    owner_id: Seq<char>,
    now_ms: u64,
)
    requires
        session.condition == StoredView::Found(condition),
        in_order(condition),
        session.lease == StoredView::Found(lease),
        lease.version == 1,
        lease.condition_id.len() > 0,
        can_own(lease.owner),
    ensures
        ({
            let (after, alive) = refreshing(session, condition_id, owner_id, now_ms);
            &&& alive <==> condition.status == ConditionStatus::Waiting && condition.id
                == condition_id && lease.condition_id == condition_id && lease.owner.owner_id
                == owner_id
            &&& alive ==> after == (SessionView {
                lease: StoredView::Found(HookLeaseView { heartbeat_at_ms: now_ms, ..lease }),
                ..session
            })
            &&& !alive ==> after == session
        }),
{
}

/// A hook that refreshes its heartbeat at least every five seconds cannot be replaced: another one
/// that starts before that time is over answers with nothing and leaves everything as it is.
pub proof fn a_refreshed_lease_keeps_others_out(
    session: SessionView,
    condition: ConditionView,
    lease: HookLeaseView,
    owner_id: Seq<char>,
    other: HookRunView,
    seen: Observation,
    refreshed_at_ms: u64,
    now_ms: u64,
)
    requires
        session.condition == StoredView::Found(condition),
        in_order(condition),
        condition.status == ConditionStatus::Waiting,
        session.lease == StoredView::Found(lease),
        lease.version == 1,
        lease.condition_id == condition.id,
        condition.id.len() > 0,
        can_own(lease.owner),
        lease.owner.owner_id == owner_id,
        seen.lease_process_exists,
        refreshed_at_ms <= now_ms <= refreshed_at_ms + 5_000,
    ensures
        ({
            let (after, alive) = refreshing(session, condition.id, owner_id, refreshed_at_ms);
            let step = stepping(after, other, HookEventView::Stop(seen), now_ms);
            &&& alive
            &&& step.session == after
            &&& step.action == Ok::<HookActionView, Seq<char>>(
                HookActionView::Finish(HookResultView::Noop),
            )
        }),
{
}

/// A continuation is written if and only if it is the one that this hook prepared for this condition.
/// Once it was written it is cleared and nothing else changes; if writing it failed it stays.
pub proof fn a_continuation_is_written_once(
    session: SessionView,
    delivery: DeliveryView,
    condition_id: Seq<char>,
    owner_id: Seq<char>,
    error: Seq<char>,
)
    requires
        session.delivery == StoredView::Found(delivery),
        delivery.version == 1,
        delivery.condition_id.len() > 0,
        can_own(delivery.owner),
    ensures
        ({
            let own = delivery.condition_id == condition_id && delivery.owner.owner_id == owner_id;
            let ready = delivering(session, condition_id, owner_id, DeliveryEventView::Ready);
            let written = delivering(
                session,
                condition_id,
                owner_id,
                DeliveryEventView::Written(Ok(())),
            );
            let failed = delivering(
                session,
                condition_id,
                owner_id,
                DeliveryEventView::Written(Err(error)),
            );
            let cleared = delivering(
                session,
                condition_id,
                owner_id,
                DeliveryEventView::Cleared(Ok(())),
            );
            let kept = delivering(
                session,
                condition_id,
                owner_id,
                DeliveryEventView::Cleared(Err(error)),
            );
            &&& ready.0 == session
            &&& ready.1 == Ok::<DeliveryActionView, Seq<char>>(
                if own {
                    DeliveryActionView::Write
                } else {
                    DeliveryActionView::Finish(DeliveryStatusView::Superseded)
                },
            )
            &&& written.0.delivery is Missing
            &&& written.0.condition == session.condition
            &&& written.0.lease == session.lease
            &&& written.1 == Ok::<DeliveryActionView, Seq<char>>(DeliveryActionView::Clear)
            &&& failed == (session, Err::<DeliveryActionView, Seq<char>>(error))
            &&& cleared.1 == Ok::<DeliveryActionView, Seq<char>>(
                DeliveryActionView::Finish(DeliveryStatusView::Delivered),
            )
            &&& kept.1 == Ok::<DeliveryActionView, Seq<char>>(
                DeliveryActionView::Finish(DeliveryStatusView::DeliveredButUnacknowledged(error)),
            )
        }),
{
}

/// An inspection changes nothing and shows the condition as it is recorded, with its watcher.
pub proof fn an_inspection_shows_the_record(
    session: SessionView,
    condition: ConditionView,
    seen: Observation,
    now_ms: u64,
)
    requires
        session.condition == StoredView::Found(condition),
        in_order(condition),
    ensures
        inspection(session, seen, now_ms) == Ok::<Option<ConditionSnapshotView>, Seq<char>>(
            Some(
                ConditionSnapshotView {
                    condition,
                    watcher: watcher(
                        condition,
                        session.lease,
                        session.delivery,
                        seen,
                        now_ms,
                    ),
                },
            ),
        ),
{
}

/// Everything is called by its own name.
pub proof fn states_have_names(status: ConditionStatus, phase: HookPhase, state: WatcherState)
    ensures
        status.label() == match status {
            ConditionStatus::Armed => "Armed"@,
            ConditionStatus::Waiting => "Waiting"@,
            ConditionStatus::CancelRequested => "CancelRequested"@,
            ConditionStatus::Succeeded => "Succeeded"@,
            ConditionStatus::TimedOut => "TimedOut"@,
            ConditionStatus::Failed => "Failed"@,
            ConditionStatus::Cancelled => "Cancelled"@,
        },
        phase.label() == match phase {
            HookPhase::Starting => "Starting"@,
            HookPhase::Checking => "Checking"@,
            HookPhase::Waiting => "Waiting"@,
            HookPhase::Delivering => "Delivering"@,
        },
        state.label() == match state {
            WatcherState::Alive => "Alive"@,
            WatcherState::Stale => "Stale"@,
            WatcherState::LegacyUnknown => "LegacyUnknown"@,
            WatcherState::Armed => "Armed"@,
            WatcherState::Inactive => "Inactive"@,
        },
{
}

/// A continuation that is gone is not written, and one that cannot be read is an error.
pub proof fn a_missing_continuation_is_not_written(
    session: SessionView,
    condition_id: Seq<char>,
    owner_id: Seq<char>,
)
    ensures
        session.delivery is Missing ==> delivering(
            session,
            condition_id,
            owner_id,
            DeliveryEventView::Ready,
        ) == (
            session,
            Ok::<DeliveryActionView, Seq<char>>(
                DeliveryActionView::Finish(DeliveryStatusView::Superseded),
            ),
        ),
        session.delivery matches StoredView::Failed(error) ==> delivering(
            session,
            condition_id,
            owner_id,
            DeliveryEventView::Ready,
        ) == (
            session,
            Err::<DeliveryActionView, Seq<char>>("read pending delivery: "@ + error),
        ),
{
}

} // verus!
