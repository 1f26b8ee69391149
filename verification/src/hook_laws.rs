//! What holds of every Stop hook.
use vstd::prelude::*;

use crate::condition::{accepted, ConditionStatus, ConditionView};
use crate::delivery::{delivering, DeliveryActionView, DeliveryEventView, DeliveryStatusView};
use crate::hook::{
    counters_fit, event_fits, held, stepping, HookActionView, HookEventView, HookResultView,
    HookRunView,
};
use crate::job::JobSnapshotView;
use crate::lease::{
    accepted_delivery, accepted_lease, watcher, DeliveryView, HookLeaseView, Observation,
    WatcherState,
};
use crate::session::{arming, cancellation, SessionView};
use crate::stored::StoredView;

verus! {

/// A hook writes valid records only: the condition, the lease and the delivery of a session are
/// either left as they are or replaced by records that every reader accepts.
pub proof fn hooks_write_valid_records(
    session: SessionView,
    run: HookRunView,
    event: HookEventView,
    now_ms: u64,
)
    requires
        event_fits(run, event),
        counters_fit(session, event),
    ensures
        ({
            let after = stepping(session, run, event, now_ms).session;
            &&& after.condition == session.condition || (after.condition matches StoredView::Found(
                condition,
            ) && condition.valid())
            &&& after.lease == session.lease || after.lease is Missing || (
            after.lease matches StoredView::Found(lease) && lease.valid())
            &&& after.delivery == session.delivery || after.delivery is Missing || (
            after.delivery matches StoredView::Found(delivery) && delivery.valid())
        }),
{
}

/// Only one hook drives a waiting condition: while its lease is fresh, another invocation answers
/// nothing and changes nothing.
pub proof fn a_fresh_lease_keeps_others_out(
    session: SessionView,
    run: HookRunView,
    condition: ConditionView,
    seen: Observation,
    now_ms: u64,
)
    requires
        accepted(session.condition) == StoredView::Found(condition),
        condition.status == ConditionStatus::Waiting,
        watcher(condition, session.lease, session.delivery, seen, now_ms).state
            != WatcherState::Stale,
    ensures
        stepping(session, run, HookEventView::Stop(seen), now_ms).session == session,
        stepping(session, run, HookEventView::Stop(seen), now_ms).action == Ok::<
            HookActionView,
            Seq<char>,
        >(HookActionView::Finish(HookResultView::Noop)),
{
}

/// A hook that was interrupted is replaced without starting over: the condition keeps its ID,
/// command, attempts, deadline, checkpoints and job.
pub proof fn recovery_keeps_the_condition(
    session: SessionView,
    run: HookRunView,
    condition: ConditionView,
    seen: Observation,
    now_ms: u64,
)
    requires
        accepted(session.condition) == StoredView::Found(condition),
        stepping(session, run, HookEventView::Stop(seen), now_ms).action == Ok::<
            HookActionView,
            Seq<char>,
        >(HookActionView::Watch),
    ensures
        ({
            let step = stepping(session, run, HookEventView::Stop(seen), now_ms);
            &&& step.run.watched == Some(condition.id)
            &&& step.session.condition matches StoredView::Found(waiting) && waiting.status
                == ConditionStatus::Waiting && waiting.version == 2 && waiting == (ConditionView {
                version: 2,
                status: ConditionStatus::Waiting,
                checkpoint_every_ms: waiting.checkpoint_every_ms,
                next_checkpoint_at_ms: waiting.next_checkpoint_at_ms,
                ..condition
            })
            &&& step.session.lease == StoredView::Found(run.owner.lease(condition.id, now_ms))
        }),
{
}

/// A stale lease can be taken over by any hook that can be recorded. A record that plans a
/// checkpoint after its deadline, as a legacy one may, is left alone.
pub proof fn a_stale_lease_is_recoverable(
    session: SessionView,
    run: HookRunView,
    condition: ConditionView,
    seen: Observation,
    now_ms: u64,
)
    requires
        run.hook_event_name == "Stop"@,
        run.owner.valid(),
        accepted(session.condition) == StoredView::Found(condition),
        condition.status == ConditionStatus::Waiting,
        condition.id.len() > 0,
        condition.next_checkpoint_at_ms matches Some(next) ==> next <= condition.deadline(),
        watcher(condition, session.lease, session.delivery, seen, now_ms).state
            == WatcherState::Stale,
    ensures
        stepping(session, run, HookEventView::Stop(seen), now_ms).action == Ok::<
            HookActionView,
            Seq<char>,
        >(HookActionView::Watch),
{
}

/// A hook that lost its condition changes nothing any more: not after the condition was cancelled,
/// ended or replaced, nor after another hook took the lease over.
pub proof fn a_stale_hook_changes_nothing(
    session: SessionView,
    run: HookRunView,
    event: HookEventView,
    now_ms: u64,
)
    requires
        event_fits(run, event),
        !(event is Stop),
        match (accepted(session.condition), accepted_lease(session.lease)) {
            (StoredView::Found(condition), StoredView::Found(lease)) => run.watched != Some(
                condition.id,
            ) || condition.status != ConditionStatus::Waiting || !lease.owned_by(
                condition.id,
                run.owner.owner_id,
            ),
            (StoredView::Found(condition), StoredView::Missing) => true,
            (StoredView::Missing, _) => true,
            _ => false,
        },
    ensures
        stepping(session, run, event, now_ms).session == session,
        stepping(session, run, event, now_ms).action == Ok::<HookActionView, Seq<char>>(
            HookActionView::Finish(HookResultView::Noop),
        ),
{
}

/// Cancelling takes the condition away from its hook: whatever the predicate in flight gives, the
/// cancelled record stays and nobody is woken.
pub proof fn a_late_check_cannot_undo_a_cancellation(
    session: SessionView,
    run: HookRunView,
    event: HookEventView,
    cancelled_ms: u64,
    now_ms: u64,
)
    requires
        cancellation(session, cancelled_ms).1 is Ok,
        event_fits(run, event),
    ensures
        ({
            let cancelled = cancellation(session, cancelled_ms).0;
            &&& stepping(cancelled, run, event, now_ms).session == cancelled
            &&& stepping(cancelled, run, event, now_ms).action == Ok::<HookActionView, Seq<char>>(
                HookActionView::Finish(HookResultView::Noop),
            )
        }),
{
}

/// A continuation is pending before it is answered: whenever a hook that drives a condition answers
/// with one, the same message stands in the session, as the work of that hook for that condition.
pub proof fn an_answer_is_pending_first(
    session: SessionView,
    run: HookRunView,
    event: HookEventView,
    now_ms: u64,
)
    requires
        event_fits(run, event),
        counters_fit(session, event),
    ensures
        ({
            let step = stepping(session, run, event, now_ms);
            step.action matches Ok(HookActionView::Finish(HookResultView::Continue(message)))
                ==> (step.session.delivery matches StoredView::Found(delivery) && delivery.valid()
                && delivery.message == message && delivery.prepared_by(
                step.run.watched->0,
                run.owner.owner_id,
            ) && (step.session.condition matches StoredView::Found(condition)
                && delivery.belongs_to(condition)))
        }),
{
}

/// A continuation whose hook disappeared is answered again, unchanged, without touching the
/// condition and without another check.
pub proof fn an_undelivered_continuation_is_retried(
    session: SessionView,
    run: HookRunView,
    condition: ConditionView,
    delivery: DeliveryView,
    seen: Observation,
    now_ms: u64,
)
    requires
        run.hook_event_name == "Stop"@,
        run.owner.valid(),
        accepted(session.condition) == StoredView::Found(condition),
        accepted_delivery(session.delivery) == StoredView::Found(delivery),
        delivery.belongs_to(condition),
        !delivery.in_progress(now_ms, seen.delivery_process_exists),
    ensures
        ({
            let step = stepping(session, run, HookEventView::Stop(seen), now_ms);
            &&& step.action == Ok::<HookActionView, Seq<char>>(
                HookActionView::Finish(HookResultView::Continue(delivery.message)),
            )
            &&& step.session.condition == session.condition
            &&& step.session.lease == session.lease
            &&& step.session.delivery matches StoredView::Found(kept) && kept.message
                == delivery.message && kept.condition_id == delivery.condition_id
        }),
{
}

/// No hook drops a continuation: whatever happens, one that is pending for the current condition
/// stays as it is, or is taken over with the same message by the hook that answers with it.
pub proof fn hooks_keep_a_pending_continuation(
    session: SessionView,
    run: HookRunView,
    condition: ConditionView,
    delivery: DeliveryView,
    event: HookEventView,
    now_ms: u64,
)
    requires
        event_fits(run, event),
        counters_fit(session, event),
        accepted(session.condition) == StoredView::Found(condition),
        accepted_delivery(session.delivery) == StoredView::Found(delivery),
        delivery.belongs_to(condition),
    ensures
        ({
            let step = stepping(session, run, event, now_ms);
            &&& step.session.condition == session.condition
            &&& step.session.delivery == session.delivery || (event is Stop && step.session.delivery
                == StoredView::Found(delivery.taken_over(run.owner, now_ms)) && step.action == Ok::<
                HookActionView,
                Seq<char>,
            >(HookActionView::Finish(HookResultView::Continue(delivery.message))))
        }),
{
}

/// A hook that is still about to write its continuation is left alone: until it is done or gone,
/// another invocation answers nothing and changes nothing.
pub proof fn a_delivery_in_progress_is_left_alone(
    session: SessionView,
    run: HookRunView,
    condition: ConditionView,
    delivery: DeliveryView,
    seen: Observation,
    now_ms: u64,
)
    requires
        accepted(session.condition) == StoredView::Found(condition),
        accepted_delivery(session.delivery) == StoredView::Found(delivery),
        delivery.belongs_to(condition),
        delivery.in_progress(now_ms, seen.delivery_process_exists),
    ensures
        stepping(session, run, HookEventView::Stop(seen), now_ms).session == session,
        stepping(session, run, HookEventView::Stop(seen), now_ms).action == Ok::<
            HookActionView,
            Seq<char>,
        >(HookActionView::Finish(HookResultView::Noop)),
{
}

/// Delivering a continuation keeps it pending until it was written: of the steps of a delivery only
/// a successful write takes it away, and it is written by the hook that prepared it or not at all.
pub proof fn a_continuation_is_kept_until_written(
    session: SessionView,
    condition_id: Seq<char>,
    owner_id: Seq<char>,
    event: DeliveryEventView,
)
    ensures
        ({
            let (after, result) = delivering(session, condition_id, owner_id, event);
            &&& after.condition == session.condition
            &&& after.lease == session.lease
            &&& !(event matches DeliveryEventView::Written(Ok(_))) ==> after.delivery
                == session.delivery
            &&& result matches Ok(DeliveryActionView::Write) ==> (accepted_delivery(
                session.delivery,
            ) matches StoredView::Found(delivery) && delivery.prepared_by(condition_id, owner_id))
        }),
{
}

/// A hook whose continuation was taken over, or whose condition was replaced, writes nothing.
pub proof fn a_superseded_continuation_is_not_written(
    session: SessionView,
    condition_id: Seq<char>,
    owner_id: Seq<char>,
)
    requires
        accepted_delivery(session.delivery) matches StoredView::Found(delivery)
            ==> !delivery.prepared_by(condition_id, owner_id),
        !(accepted_delivery(session.delivery) is Failed),
    ensures
        delivering(session, condition_id, owner_id, DeliveryEventView::Ready) == (
            session,
            Ok::<DeliveryActionView, Seq<char>>(
                DeliveryActionView::Finish(DeliveryStatusView::Superseded),
            ),
        ),
{
}

/// A condition that ended wakes once: when its continuation has been written, a later Stop event
/// answers nothing.
pub proof fn an_ended_condition_wakes_once(
    session: SessionView,
    run: HookRunView,
    condition: ConditionView,
    seen: Observation,
    now_ms: u64,
)
    requires
        accepted(session.condition) == StoredView::Found(condition),
        !condition.status.active(),
        session.delivery is Missing || condition.status.given_up(),
    ensures
        stepping(session, run, HookEventView::Stop(seen), now_ms).session == session,
        stepping(session, run, HookEventView::Stop(seen), now_ms).action == Ok::<
            HookActionView,
            Seq<char>,
        >(HookActionView::Finish(HookResultView::Noop)),
{
}

/// One outcome, one continuation: after the continuation of a condition that ended has been
/// written, no later Stop event answers with another.
pub proof fn a_written_continuation_is_not_repeated(
    session: SessionView,
    run: HookRunView,
    event: HookEventView,
    now_ms: u64,
    later_run: HookRunView,
    seen: Observation,
    later_ms: u64,
)
    requires
        event_fits(run, event),
        counters_fit(session, event),
        stepping(session, run, event, now_ms).action matches Ok(
            HookActionView::Finish(HookResultView::Continue(_)),
        ),
        stepping(session, run, event, now_ms).session.condition matches StoredView::Found(condition)
            && !condition.status.active(),
    ensures
        ({
            let step = stepping(session, run, event, now_ms);
            let written = delivering(
                step.session,
                step.run.watched->0,
                run.owner.owner_id,
                DeliveryEventView::Written(Ok(())),
            ).0;
            &&& delivering(
                step.session,
                step.run.watched->0,
                run.owner.owner_id,
                DeliveryEventView::Ready,
            ).1 == Ok::<DeliveryActionView, Seq<char>>(DeliveryActionView::Write)
            &&& stepping(written, later_run, HookEventView::Stop(seen), later_ms).session == written
            &&& stepping(written, later_run, HookEventView::Stop(seen), later_ms).action == Ok::<
                HookActionView,
                Seq<char>,
            >(HookActionView::Finish(HookResultView::Noop))
        }),
{
    hooks_write_valid_records(session, run, event, now_ms);
    an_answer_is_pending_first(session, run, event, now_ms);
}

/// A session without a condition is not affected.
pub proof fn a_missing_condition_is_no_reason(
    session: SessionView,
    run: HookRunView,
    seen: Observation,
    now_ms: u64,
)
    requires
        session.condition is Missing,
    ensures
        stepping(session, run, HookEventView::Stop(seen), now_ms).session == session,
        stepping(session, run, HookEventView::Stop(seen), now_ms).action == Ok::<
            HookActionView,
            Seq<char>,
        >(HookActionView::Finish(HookResultView::Noop)),
{
}

/// A job that has ended takes precedence over a deadline that is noticed late.
pub proof fn a_finished_job_beats_the_deadline(
    session: SessionView,
    run: HookRunView,
    job: JobSnapshotView,
    now_ms: u64,
)
    requires
        run.watched is Some,
        job.well_formed(),
        job.ready(),
        counters_fit(session, HookEventView::JobRead(Some(Ok(job)))),
        held(session, run, "resolve condition deadline"@) matches Ok(Some(_)),
    ensures
        stepping(
            session,
            run,
            HookEventView::JobRead(Some(Ok(job))),
            now_ms,
        ).session.condition matches StoredView::Found(condition) && condition.status
            == ConditionStatus::Succeeded && condition.last_exit_code == Some(0i32)
            && condition.last_output == job.line() + "\n"@,
{
}

/// A deadline without a finished job ends the condition with the last result of its predicate.
pub proof fn a_deadline_keeps_the_last_result(
    session: SessionView,
    run: HookRunView,
    job: Option<Result<JobSnapshotView, Seq<char>>>,
    condition: ConditionView,
    lease: HookLeaseView,
    now_ms: u64,
)
    requires
        run.watched is Some,
        held(session, run, "resolve condition deadline"@) == Ok::<
            Option<(ConditionView, HookLeaseView)>,
            Seq<char>,
        >(Some((condition, lease))),
        job matches Some(Ok(snapshot)) ==> !snapshot.ready(),
    ensures
        stepping(session, run, HookEventView::JobRead(job), now_ms).session.condition
            == StoredView::Found(condition.resolved(ConditionStatus::TimedOut, now_ms)),
{
}

/// A checkpoint is no end: the condition is armed again with the same ID, command, job, creation
/// time and timeout, and one more checkpoint and attempt.
pub proof fn a_checkpoint_is_no_end(
    session: SessionView,
    run: HookRunView,
    event: HookEventView,
    before: ConditionView,
    now_ms: u64,
)
    requires
        event_fits(run, event),
        counters_fit(session, event),
        !(event is Stop),
        session.condition == StoredView::Found(before),
        before.status == ConditionStatus::Waiting,
        stepping(session, run, event, now_ms).session.condition matches StoredView::Found(condition)
            && condition.status == ConditionStatus::Armed,
    ensures
        stepping(session, run, event, now_ms).session.condition matches StoredView::Found(condition)
            && condition == (ConditionView {
            status: ConditionStatus::Armed,
            attempts: (before.attempts + 1) as u64,
            checkpoints: (before.checkpoints + 1) as u64,
            checkpoint_every_ms: condition.checkpoint_every_ms,
            next_checkpoint_at_ms: condition.next_checkpoint_at_ms,
            last_exit_code: condition.last_exit_code,
            last_output: condition.last_output,
            ..before
        }) && condition.deadline() == before.deadline(),
{
}

/// A check that fails to meet the condition before its deadline ends nothing: the condition is
/// checked again after a delay that reaches neither past the deadline nor past the next checkpoint.
pub proof fn an_unmet_check_is_repeated(
    session: SessionView,
    run: HookRunView,
    event: HookEventView,
    now_ms: u64,
    millis: u64,
)
    requires
        event_fits(run, event),
        counters_fit(session, event),
        stepping(session, run, event, now_ms).action == Ok::<HookActionView, Seq<char>>(
            HookActionView::Sleep(millis),
        ),
    ensures
        stepping(session, run, event, now_ms).session.condition matches StoredView::Found(condition)
            && condition.status == ConditionStatus::Waiting && millis <= condition.poll_every_ms
            && millis <= condition.remaining(now_ms) && (
        condition.next_checkpoint_at_ms matches Some(next) ==> now_ms < next && millis <= next
            - now_ms),
{
}

/// After a condition was replaced, its former hook drives nothing: arming leaves no lease behind.
pub proof fn arming_leaves_no_lease(
    session: SessionView,
    request: crate::condition::ArmRequestView,
    cwd_exists: bool,
    id: Seq<char>,
    now_ms: u64,
)
    requires
        arming(session, request, cwd_exists, id, now_ms).1 is Ok,
    ensures
        arming(session, request, cwd_exists, id, now_ms).0.lease is Missing,
        arming(session, request, cwd_exists, id, now_ms).0.delivery is Missing,
{
}

} // verus!
