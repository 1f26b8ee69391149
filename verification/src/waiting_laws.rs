//! What happens to a condition that waits: how a check, a deadline, a checkpoint and an interruption
//! end, in numbers and words.
use vstd::prelude::*;

use crate::condition::{ArmRequestView, ConditionStatus, ConditionView};
use crate::condition_laws::{an_armed_condition_is_what_was_asked_for, in_order, whole_millis};
use crate::hook::{
    stepping, CheckResultView, HookActionView, HookEventView, HookResultView, HookRunView,
};
use crate::job::{JobSnapshotView, JobState};
use crate::lease::{DeliveryView, HookLeaseView, HookOwnerView, HookPhase, Observation};
use crate::message::{checkpoint_text, continuation, outcome_text};
use crate::session::{arming, SessionView};
use crate::stored::StoredView;

verus! {

/// Whether a hook can be recorded as the owner of something.
pub open spec fn can_own(owner: HookOwnerView) -> bool {
    0 < owner.pid <= 0x7fff_ffff && owner.owner_id.len() > 0
}

/// Whether a hook holds a condition that waits: the session has that condition and the lease of
/// that hook on it.
pub open spec fn holds(
    session: SessionView,
    run: HookRunView,
    condition: ConditionView,
    lease: HookLeaseView,
) -> bool {
    &&& session.condition == StoredView::Found(condition)
    &&& in_order(condition)
    &&& condition.created_at_ms + condition.timeout_ms < u64::MAX
    &&& condition.status == ConditionStatus::Waiting
    &&& condition.id.len() > 0
    &&& run.watched == Some(condition.id)
    &&& session.lease == StoredView::Found(lease)
    &&& lease.version == 1
    &&& lease.condition_id == condition.id
    &&& can_own(lease.owner)
    &&& lease.owner.owner_id == run.owner.owner_id
}

/// Whether a text begins with another.
pub open spec fn begins(text: Seq<char>, start: Seq<char>) -> bool {
    start.len() <= text.len() && text.subrange(0, start.len() as int) == start
}

/// Whether an answer says that the condition was met.
pub open spec fn tells_success(action: Result<HookActionView, Seq<char>>) -> bool {
    action matches Ok(HookActionView::Finish(HookResultView::Continue(message))) && begins(
        message,
        "open-wake: condition met for `"@,
    )
}

/// Whether an answer is a progress checkpoint.
pub open spec fn tells_progress(action: Result<HookActionView, Seq<char>>) -> bool {
    action matches Ok(HookActionView::Finish(HookResultView::Continue(message)))
        && is_checkpoint(message)
}

/// Whether a message is a progress checkpoint.
pub open spec fn is_checkpoint(message: Seq<char>) -> bool {
    begins(message, "open-wake: progress checkpoint "@)
}

proof fn lemma_openings()
    ensures
        "open-wake: "@.len() == 11,
        "open-wake: progress checkpoint "@.len() == 31,
        "open-wake: condition met for `"@ == "open-wake: "@ + "condition met"@ + " for `"@,
        "open-wake: condition check failed for `"@ == "open-wake: "@ + "condition check failed"@
            + " for `"@,
        "open-wake: deadline reached before the condition became true for `"@ == "open-wake: "@
            + "deadline reached before the condition became true"@ + " for `"@,
        "open-wake: progress checkpoint "@[11] == 'p',
        "condition met"@.len() > 10 && "condition met"@[0] == 'c' && "condition met"@[10] == 'm',
        "condition check failed"@.len() > 10 && "condition check failed"@[0] == 'c'
            && "condition check failed"@[10] == 'c',
        "condition resolved"@.len() > 10 && "condition resolved"@[0] == 'c'
            && "condition resolved"@[10] == 'r',
        "deadline reached before the condition became true"@.len() > 10
            && "deadline reached before the condition became true"@[0] == 'd',
{
    reveal_strlit("open-wake: ");
    reveal_strlit("open-wake: progress checkpoint ");
    reveal_strlit("open-wake: condition met for `");
    reveal_strlit("open-wake: condition check failed for `");
    reveal_strlit("open-wake: deadline reached before the condition became true for `");
    reveal_strlit("condition met");
    reveal_strlit("condition check failed");
    reveal_strlit("condition resolved");
    reveal_strlit("deadline reached before the condition became true");
    reveal_strlit(" for `");
    assert("open-wake: condition met for `"@ =~= "open-wake: "@ + "condition met"@ + " for `"@);
    assert("open-wake: condition check failed for `"@ =~= "open-wake: "@ + "condition check failed"@
        + " for `"@);
    assert("open-wake: deadline reached before the condition became true for `"@ =~= "open-wake: "@
        + "deadline reached before the condition became true"@ + " for `"@);
}

/// How a message about an outcome begins, and that it is no checkpoint.
proof fn lemma_outcome_opening(condition: ConditionView, now_ms: u64)
    ensures
        !is_checkpoint(continuation(condition, now_ms)),
        condition.status == ConditionStatus::Succeeded <==> begins(
            continuation(condition, now_ms),
            "open-wake: condition met for `"@,
        ),
        condition.status == ConditionStatus::Failed ==> begins(
            continuation(condition, now_ms),
            "open-wake: condition check failed for `"@,
        ),
        condition.status == ConditionStatus::TimedOut ==> begins(
            continuation(condition, now_ms),
            "open-wake: deadline reached before the condition became true for `"@,
        ),
{
    lemma_openings();
    let message = continuation(condition, now_ms);
    let head = "open-wake: "@ + outcome_text(condition.status) + " for `"@;
    assert(message.subrange(0, head.len() as int) =~= head);
    assert(message[11] == outcome_text(condition.status)[0]);
    assert(message[21] == outcome_text(condition.status)[10]);
    if is_checkpoint(message) {
        let start = "open-wake: progress checkpoint "@;
        assert(message.subrange(0, start.len() as int)[11] == message[11]);
    }
    let success = "open-wake: condition met for `"@;
    if begins(message, success) {
        assert(message.subrange(0, success.len() as int)[11] == message[11]);
        assert(message.subrange(0, success.len() as int)[21] == message[21]);
    }
}

/// How a checkpoint begins.
proof fn lemma_checkpoint_opening(condition: ConditionView, now_ms: u64)
    ensures
        is_checkpoint(checkpoint_text(condition, now_ms)),
        !begins(checkpoint_text(condition, now_ms), "open-wake: condition met for `"@),
{
    lemma_openings();
    let message = checkpoint_text(condition, now_ms);
    let head = "open-wake: progress checkpoint "@;
    assert(message.subrange(0, head.len() as int) =~= head);
    assert(message[11] == head[11]);
    let success = "open-wake: condition met for `"@;
    if begins(message, success) {
        assert(message.subrange(0, success.len() as int)[11] == message[11]);
    }
}

/// The condition after a check, apart from what the outcome decides.
pub open spec fn counted(
    before: ConditionView,
    after: ConditionView,
    exit_code: Option<i32>,
    output: Seq<char>,
) -> bool {
    &&& after.attempts == before.attempts + 1
    &&& after.last_exit_code == exit_code
    &&& after.last_output == output
    &&& identity_kept(before, after)
}

/// What no step of a hook changes in a record of the current format.
pub open spec fn identity_kept(before: ConditionView, after: ConditionView) -> bool {
    &&& after.version == 2
    &&& after.id == before.id
    &&& after.session_id == before.session_id
    &&& after.label == before.label
    &&& after.cwd == before.cwd
    &&& after.command == before.command
    &&& after.created_at_ms == before.created_at_ms
    &&& after.timeout_ms == before.timeout_ms
    &&& after.poll_every_ms == before.poll_every_ms
    &&& after.check_timeout_ms == before.check_timeout_ms
    &&& after.job == before.job
}

/// A check decides by its exit code alone. The condition succeeds if and only if the predicate ended
/// by itself with code 0. With any other code, with no code and after a timeout of the check nobody
/// is told that it was met, and it goes on waiting; only where a checkpoint is due is it armed again,
/// and the answer is that checkpoint.
pub proof fn only_exit_code_zero_is_success(
    session: SessionView,
    run: HookRunView,
    condition: ConditionView,
    lease: HookLeaseView,
    check: CheckResultView,
    now_ms: u64,
)
    requires
        holds(session, run, condition, lease),
        condition.attempts < u64::MAX,
        condition.checkpoints < u64::MAX,
    ensures
        ({
            let step = stepping(session, run, HookEventView::Checked(check), now_ms);
            let success = check.exit_code == Some(0i32) && !check.timed_out;
            let due = condition.next_checkpoint_at_ms matches Some(next) && next <= now_ms;
            &&& step.session.condition matches StoredView::Found(after) && {
                &&& after.status == ConditionStatus::Succeeded <==> success
                &&& after.status == ConditionStatus::Armed <==> !success && due
                &&& after.status == ConditionStatus::Waiting <==> !success && !due
                &&& counted(condition, after, check.exit_code, check.output)
                &&& success ==> after.resolved_at_ms == Some(now_ms)
                &&& !success ==> after.resolved_at_ms == condition.resolved_at_ms
            }
            &&& tells_success(step.action) <==> success
            &&& tells_progress(step.action) <==> !success && due
            &&& (step.action matches Ok(HookActionView::Sleep(_))) <==> !success && !due
            &&& step.run == run
        }),
{
    let step = stepping(session, run, HookEventView::Checked(check), now_ms);
    if let StoredView::Found(after) = step.session.condition {
        lemma_outcome_opening(after, now_ms);
        lemma_checkpoint_opening(after, now_ms);
    }
}

/// After a check that decided nothing the hook keeps its lease, leaves everything else as it is and
/// waits until the next check, at most one interval, and never past the deadline or the next
/// checkpoint.
pub proof fn a_check_that_decides_nothing_is_repeated_in_time(
    session: SessionView,
    run: HookRunView,
    condition: ConditionView,
    lease: HookLeaseView,
    check: CheckResultView,
    now_ms: u64,
)
    requires
        holds(session, run, condition, lease),
        condition.attempts < u64::MAX,
        check.exit_code != Some(0i32) || check.timed_out,
        condition.next_checkpoint_at_ms matches Some(next) ==> now_ms < next,
        condition.created_at_ms <= now_ms,
    ensures
        ({
            let step = stepping(session, run, HookEventView::Checked(check), now_ms);
            let left = condition.created_at_ms + condition.timeout_ms - now_ms;
            let until = match condition.next_checkpoint_at_ms {
                Some(next) => next - now_ms,
                None => u64::MAX as int,
            };
            &&& step.action matches Ok(HookActionView::Sleep(delay)) && {
                &&& delay <= condition.poll_every_ms
                &&& left >= 0 ==> delay <= left
                &&& delay <= until
                &&& delay == condition.poll_every_ms || delay == left || delay == until || (delay
                    == 0 && left < 0)
            }
            &&& step.session.lease matches StoredView::Found(kept) && {
                &&& kept == (HookLeaseView {
                    heartbeat_at_ms: now_ms,
                    phase: Some(HookPhase::Waiting),
                    phase_at_ms: Some(now_ms),
                    ..lease
                })
            }
            &&& step.session.delivery == session.delivery
            &&& step.session.condition matches StoredView::Found(after)
                && after.checkpoint_every_ms == condition.checkpoint_every_ms
                && after.next_checkpoint_at_ms == condition.next_checkpoint_at_ms
                && after.checkpoints == condition.checkpoints
        }),
{
}

/// A checkpoint counts itself and plans the next one a whole interval later, if that is not after
/// the deadline; otherwise no further checkpoint comes. Its message waits to be written in the name
/// of the hook.
pub proof fn checkpoints_are_an_interval_apart(
    session: SessionView,
    run: HookRunView,
    condition: ConditionView,
    lease: HookLeaseView,
    check: CheckResultView,
    every: u64,
    now_ms: u64,
)
    requires
        holds(session, run, condition, lease),
        condition.attempts < u64::MAX,
        condition.checkpoints < u64::MAX,
        check.exit_code != Some(0i32) || check.timed_out,
        condition.checkpoint_every_ms == Some(every),
        condition.next_checkpoint_at_ms->0 <= now_ms,
    ensures
        ({
            let step = stepping(session, run, HookEventView::Checked(check), now_ms);
            let again = now_ms + every <= condition.created_at_ms + condition.timeout_ms;
            &&& step.session.condition matches StoredView::Found(after) && {
                &&& after.checkpoints == condition.checkpoints + 1
                &&& again ==> after.checkpoint_every_ms == Some(every)
                    && after.next_checkpoint_at_ms == Some((now_ms + every) as u64)
                &&& !again ==> after.checkpoint_every_ms is None
                    && after.next_checkpoint_at_ms is None
            }
            &&& step.action matches Ok(HookActionView::Finish(HookResultView::Continue(message)))
                && step.session.delivery == StoredView::Found(
                DeliveryView {
                    version: 1,
                    condition_id: condition.id,
                    owner: lease.owner,
                    prepared_at_ms: now_ms,
                    message,
                },
            )
            &&& step.session.lease == StoredView::Found(
                HookLeaseView {
                    heartbeat_at_ms: now_ms,
                    phase: Some(HookPhase::Delivering),
                    phase_at_ms: Some(now_ms),
                    ..lease
                },
            )
        }),
{
}

/// Before the deadline a hook that wakes runs the predicate, for as long as one check may take and
/// never past the deadline; from the deadline on it reads the job instead. Waking alone decides
/// nothing.
pub proof fn a_wake_checks_until_the_deadline(
    session: SessionView,
    run: HookRunView,
    condition: ConditionView,
    lease: HookLeaseView,
    now_ms: u64,
)
    requires
        holds(session, run, condition, lease),
        condition.created_at_ms <= now_ms,
    ensures
        ({
            let step = stepping(session, run, HookEventView::Wake, now_ms);
            let left = condition.created_at_ms + condition.timeout_ms - now_ms;
            &&& step.session.condition == session.condition
            &&& step.session.delivery == session.delivery
            &&& step.run == run
            &&& left <= 0 ==> step.action == Ok::<HookActionView, Seq<char>>(
                HookActionView::ReadJob(condition.job),
            ) && step.session == session
            &&& left > 0 ==> step.action == Ok::<HookActionView, Seq<char>>(
                HookActionView::Check(
                    if condition.check_timeout_ms <= left {
                        condition.check_timeout_ms
                    } else {
                        left as u64
                    },
                ),
            ) && step.session.lease == StoredView::Found(
                HookLeaseView {
                    heartbeat_at_ms: now_ms,
                    phase: Some(HookPhase::Checking),
                    phase_at_ms: Some(now_ms),
                    last_check_started_at_ms: Some(now_ms),
                    ..lease
                },
            )
        }),
{
}

/// Whether the records of a job tell that it came to an end, and how it is summed up then.
pub open spec fn tells_end(job: Option<Result<JobSnapshotView, Seq<char>>>) -> Option<Seq<char>> {
    match job {
        Some(Ok(snapshot)) => if snapshot.state == JobState::Completed || snapshot.state
            == JobState::SupervisorFailed || snapshot.state == JobState::Stale {
            Some(snapshot.line() + "\n"@)
        } else {
            None
        },
        _ => None,
    }
}

/// At the deadline the condition ends in any case. Only a job that came to an end makes it a
/// success, with code 0 and the summary of that job; otherwise it timed out, and the result of the
/// last check stays. The lease goes, and the report waits to be written in the name of the hook.
pub proof fn a_deadline_ends_the_wait(
    session: SessionView,
    run: HookRunView,
    condition: ConditionView,
    lease: HookLeaseView,
    job: Option<Result<JobSnapshotView, Seq<char>>>,
    now_ms: u64,
)
    requires
        holds(session, run, condition, lease),
        condition.attempts < u64::MAX,
    ensures
        ({
            let step = stepping(session, run, HookEventView::JobRead(job), now_ms);
            &&& step.session.condition matches StoredView::Found(after) && {
                &&& after.resolved_at_ms == Some(now_ms)
                &&& identity_kept(condition, after)
                &&& match tells_end(job) {
                    Some(summary) => after.status == ConditionStatus::Succeeded && counted(
                        condition,
                        after,
                        Some(0i32),
                        summary,
                    ) && tells_success(step.action),
                    None => after == (ConditionView {
                        status: ConditionStatus::TimedOut,
                        resolved_at_ms: Some(now_ms),
                        ..condition
                    }) && !tells_success(step.action),
                }
            }
            &&& ends_with_a_report(step.session, step.action, lease, now_ms)
            &&& step.run == run
            &&& !tells_progress(step.action)
        }),
{
    let step = stepping(session, run, HookEventView::JobRead(job), now_ms);
    if let StoredView::Found(after) = step.session.condition {
        lemma_outcome_opening(after, now_ms);
    }
}

/// Whether a wait ended: no lease is left, and the answer waits to be written in the name of the
/// hook that held it.
pub open spec fn ends_with_a_report(
    session: SessionView,
    action: Result<HookActionView, Seq<char>>,
    lease: HookLeaseView,
    now_ms: u64,
) -> bool {
    &&& session.lease is Missing
    &&& action matches Ok(HookActionView::Finish(HookResultView::Continue(message)))
        && session.delivery == StoredView::Found(
        DeliveryView {
            version: 1,
            condition_id: lease.condition_id,
            owner: lease.owner,
            prepared_at_ms: now_ms,
            message,
        },
    )
}

/// A predicate that cannot be run ends the wait as a failure: the error takes the place of the
/// output, the last exit code stays, and the report waits to be written.
pub proof fn a_predicate_that_cannot_run_is_a_failure(
    session: SessionView,
    run: HookRunView,
    condition: ConditionView,
    lease: HookLeaseView,
    error: Seq<char>,
    now_ms: u64,
)
    requires
        holds(session, run, condition, lease),
        condition.attempts < u64::MAX,
    ensures
        ({
            let step = stepping(session, run, HookEventView::CheckFailed(error), now_ms);
            &&& step.session.condition matches StoredView::Found(after) && {
                &&& after.status == ConditionStatus::Failed
                &&& after.resolved_at_ms == Some(now_ms)
                &&& counted(condition, after, condition.last_exit_code, error)
            }
            &&& ends_with_a_report(step.session, step.action, lease, now_ms)
            &&& !tells_success(step.action)
            &&& !tells_progress(step.action)
        }),
{
    let step = stepping(session, run, HookEventView::CheckFailed(error), now_ms);
    if let StoredView::Found(after) = step.session.condition {
        lemma_outcome_opening(after, now_ms);
    }
}

/// A condition that was met leaves no lease behind, and its report waits to be written.
pub proof fn a_success_ends_the_wait(
    session: SessionView,
    run: HookRunView,
    condition: ConditionView,
    lease: HookLeaseView,
    check: CheckResultView,
    now_ms: u64,
)
    requires
        holds(session, run, condition, lease),
        condition.attempts < u64::MAX,
        check.exit_code == Some(0i32),
        !check.timed_out,
    ensures
        ends_with_a_report(
            stepping(session, run, HookEventView::Checked(check), now_ms).session,
            stepping(session, run, HookEventView::Checked(check), now_ms).action,
            lease,
            now_ms,
        ),
{
}

/// One step of one hook of a session: the invocation, what happened and when.
pub struct HookTurn {
    pub run: HookRunView,
    pub event: HookEventView,
    pub now_ms: u64,
}

/// A session after some steps of its hooks.
pub open spec fn after_turns(session: SessionView, turns: Seq<HookTurn>) -> SessionView
    decreases turns.len(),
{
    if turns.len() == 0 {
        session
    } else {
        let last = turns.last();
        stepping(after_turns(session, turns.drop_last()), last.run, last.event, last.now_ms).session
    }
}

/// Whether no checkpoint of a session is planned before a time, and none waits to be written.
pub open spec fn quiet_until(session: SessionView, time_ms: int) -> bool {
    &&& session.condition matches StoredView::Found(condition) && in_order(condition) && (
    condition.next_checkpoint_at_ms matches Some(next) ==> next >= time_ms)
    &&& session.delivery matches StoredView::Found(delivery) ==> !is_checkpoint(delivery.message)
}

/// While no checkpoint is planned before a time, no step before that time answers with one or plans
/// one.
pub proof fn quiet_sessions_stay_quiet(session: SessionView, turn: HookTurn, time_ms: int)
    requires
        quiet_until(session, time_ms),
        turn.now_ms < time_ms,
        turn.event is Stop || turn.run.watched is Some,
    ensures
        quiet_until(
            stepping(session, turn.run, turn.event, turn.now_ms).session,
            time_ms,
        ),
        !tells_progress(stepping(session, turn.run, turn.event, turn.now_ms).action),
{
    let step = stepping(session, turn.run, turn.event, turn.now_ms);
    if let StoredView::Found(after) = step.session.condition {
        lemma_outcome_opening(after, turn.now_ms);
    }
}

proof fn lemma_quiet_turns(session: SessionView, turns: Seq<HookTurn>, time_ms: int)
    requires
        quiet_until(session, time_ms),
        forall|i: int|
            0 <= i < turns.len() ==> (#[trigger] turns[i]).now_ms < time_ms && (turns[i].event
                is Stop || turns[i].run.watched is Some),
    ensures
        quiet_until(after_turns(session, turns), time_ms),
    decreases turns.len(),
{
    if turns.len() > 0 {
        let earlier = turns.drop_last();
        assert forall|i: int| 0 <= i < earlier.len() implies (#[trigger] earlier[i]).now_ms
            < time_ms && (earlier[i].event is Stop || earlier[i].run.watched is Some) by {
            assert(earlier[i] == turns[i]);
        }
        lemma_quiet_turns(session, earlier, time_ms);
        assert(turns.last() == turns[turns.len() - 1]);
        quiet_sessions_stay_quiet(after_turns(session, earlier), turns.last(), time_ms);
    }
}

/// The first checkpoint comes no sooner than one interval after the condition was armed: whatever
/// hooks start, wake, check and are replaced before that, none of their answers is a checkpoint.
pub proof fn no_checkpoint_comes_early(
    session: SessionView,
    request: ArmRequestView,
    id: Seq<char>,
    armed_at_ms: u64,
    turns: Seq<HookTurn>,
    turn: HookTurn,
)
    requires
        armed_at_ms + 604_740_000 <= u64::MAX,
        request.timeout.nanos < 1_000_000_000,
        request.poll_every.nanos < 1_000_000_000,
        request.check_timeout.nanos < 1_000_000_000,
        request.checkpoint_every is Some,
        request.checkpoint_every->0.nanos < 1_000_000_000,
        arming(session, request, true, id, armed_at_ms).1 is Ok,
        forall|i: int|
            0 <= i < turns.len() ==> (#[trigger] turns[i]).now_ms < armed_at_ms + whole_millis(
                request.checkpoint_every->0,
            ) && (turns[i].event is Stop || turns[i].run.watched is Some),
        turn.now_ms < armed_at_ms + whole_millis(request.checkpoint_every->0),
        turn.event is Stop || turn.run.watched is Some,
    ensures
        !tells_progress(
            stepping(
                after_turns(arming(session, request, true, id, armed_at_ms).0, turns),
                turn.run,
                turn.event,
                turn.now_ms,
            ).action,
        ),
{
    let armed = arming(session, request, true, id, armed_at_ms).0;
    let first = armed_at_ms + whole_millis(request.checkpoint_every->0);
    an_armed_condition_is_what_was_asked_for(session, request, true, id, armed_at_ms);
    lemma_quiet_turns(armed, turns, first);
    quiet_sessions_stay_quiet(after_turns(armed, turns), turn, first);
}

/// Only the end of a turn is a reason to start: any other event is answered with nothing and changes
/// nothing.
pub proof fn only_a_stop_starts_a_hook(
    session: SessionView,
    run: HookRunView,
    seen: Observation,
    now_ms: u64,
)
    requires
        run.hook_event_name != "Stop"@,
    ensures
        stepping(session, run, HookEventView::Stop(seen), now_ms).session == session,
        stepping(session, run, HookEventView::Stop(seen), now_ms).run == run,
        stepping(session, run, HookEventView::Stop(seen), now_ms).action == Ok::<
            HookActionView,
            Seq<char>,
        >(HookActionView::Finish(HookResultView::Noop)),
{
}

/// Whether the lease on a waiting condition keeps other hooks out: it is for that condition, its
/// process exists, and its heartbeat is at most five seconds old and at most one second ahead.
pub open spec fn kept_out(
    condition: ConditionView,
    lease: HookLeaseView,
    seen: Observation,
    now_ms: u64,
) -> bool {
    &&& lease.condition_id == condition.id
    &&& seen.lease_process_exists
    &&& now_ms <= lease.heartbeat_at_ms + 5_000
    &&& lease.heartbeat_at_ms <= now_ms + 1_000
}

/// Whether no continuation waits in a session, or one that is not for this condition.
pub open spec fn is_foreign_delivery(
    delivery: StoredView<DeliveryView>,
    condition_id: Seq<char>,
) -> bool {
    match delivery {
        StoredView::Missing => true,
        StoredView::Found(delivery) => delivery.version == 1 && delivery.condition_id.len() > 0
            && can_own(delivery.owner) && delivery.condition_id != condition_id,
        StoredView::Failed(_) => false,
    }
}

/// A hook takes over an armed condition, and a waiting one whose lease keeps nobody out any more. It
/// then waits under a lease of its own that starts now, and names the owner whose output it leaves
/// behind; the plan of the checkpoints stays where there is time for another one.
pub proof fn a_hook_takes_over_what_nobody_drives(
    session: SessionView,
    run: HookRunView,
    condition: ConditionView,
    seen: Observation,
    now_ms: u64,
)
    requires
        run.hook_event_name == "Stop"@,
        can_own(run.owner),
        session.condition == StoredView::Found(condition),
        in_order(condition),
        condition.created_at_ms + condition.timeout_ms < u64::MAX,
        condition.created_at_ms <= now_ms,
        now_ms < u64::MAX - 1_000,
        condition.id.len() > 0,
        match session.lease {
            StoredView::Found(lease) => lease.version == 1 && lease.condition_id.len() > 0
                && can_own(lease.owner),
            _ => true,
        },
        condition.status == ConditionStatus::Waiting || (condition.status
            == ConditionStatus::Armed && is_foreign_delivery(session.delivery, condition.id)),
    ensures
        ({
            let step = stepping(session, run, HookEventView::Stop(seen), now_ms);
            let out = condition.status == ConditionStatus::Waiting && match session.lease {
                StoredView::Found(lease) => kept_out(condition, lease, seen, now_ms),
                _ => false,
            };
            let left = condition.created_at_ms + condition.timeout_ms - now_ms;
            &&& out ==> step.session == session && step.run == run && step.action == Ok::<
                HookActionView,
                Seq<char>,
            >(HookActionView::Finish(HookResultView::Noop))
            &&& !out ==> {
                &&& step.action == Ok::<HookActionView, Seq<char>>(HookActionView::Watch)
                &&& step.run.watched == Some(condition.id)
                &&& step.run.owner == run.owner
                &&& step.run.stale_output == match session.lease {
                    StoredView::Found(lease) => Some(lease.owner.owner_id),
                    _ => None,
                }
                &&& step.session.delivery is Missing
                &&& step.session.lease == StoredView::Found(
                    HookLeaseView {
                        version: 1,
                        condition_id: condition.id,
                        owner: run.owner,
                        heartbeat_at_ms: now_ms,
                        started_at_ms: Some(now_ms),
                        phase: Some(HookPhase::Starting),
                        phase_at_ms: Some(now_ms),
                        last_check_started_at_ms: None,
                    },
                )
                &&& step.session.condition matches StoredView::Found(waiting) && {
                    &&& identity_kept(condition, waiting)
                    &&& waiting.status == ConditionStatus::Waiting
                    &&& waiting.attempts == condition.attempts
                    &&& waiting.last_exit_code == condition.last_exit_code
                    &&& waiting.last_output == condition.last_output
                    &&& waiting.checkpoints == condition.checkpoints
                    &&& waiting.resolved_at_ms == condition.resolved_at_ms
                    &&& match condition.checkpoint_every_ms {
                        Some(every) => if every < left {
                            waiting.checkpoint_every_ms == Some(every)
                                && waiting.next_checkpoint_at_ms == condition.next_checkpoint_at_ms
                        } else {
                            waiting.checkpoint_every_ms is None
                                && waiting.next_checkpoint_at_ms is None
                        },
                        None => waiting.checkpoint_every_ms is None
                            && waiting.next_checkpoint_at_ms is None,
                    }
                }
            }
        }),
{
}

/// A record of the former format is taken over into the present one. Its checkpoints go on at least a
/// minute apart, if another one fits before the deadline: at the planned time where the interval
/// stays, and a whole interval from now where it had to be raised or no time was planned.
pub proof fn a_former_record_keeps_its_checkpoints(
    session: SessionView,
    run: HookRunView,
    condition: ConditionView,
    seen: Observation,
    now_ms: u64,
)
    requires
        run.hook_event_name == "Stop"@,
        can_own(run.owner),
        session.condition == StoredView::Found(condition),
        condition.version == 1,
        condition.timeout_ms >= 1,
        condition.poll_every_ms >= 50,
        condition.check_timeout_ms >= 1,
        condition.created_at_ms <= now_ms,
        condition.created_at_ms + condition.timeout_ms < u64::MAX,
        condition.next_checkpoint_at_ms matches Some(next) ==> next <= condition.created_at_ms
            + condition.timeout_ms,
        condition.id.len() > 0,
        condition.status == ConditionStatus::Armed,
        session.delivery is Missing,
    ensures
        ({
            let step = stepping(session, run, HookEventView::Stop(seen), now_ms);
            let left = condition.created_at_ms + condition.timeout_ms - now_ms;
            &&& step.action == Ok::<HookActionView, Seq<char>>(HookActionView::Watch)
            &&& step.session.condition matches StoredView::Found(waiting) && {
                &&& waiting.version == 2
                &&& waiting.status == ConditionStatus::Waiting
                &&& identity_kept(condition, waiting)
                &&& waiting.attempts == condition.attempts
                &&& match condition.checkpoint_every_ms {
                    Some(every) => {
                        let raised = if every < 60_000 {
                            60_000
                        } else {
                            every
                        };
                        if raised < left {
                            &&& waiting.checkpoint_every_ms == Some(raised)
                            &&& waiting.next_checkpoint_at_ms == if raised == every
                                && condition.next_checkpoint_at_ms is Some {
                                condition.next_checkpoint_at_ms
                            } else {
                                Some((now_ms + raised) as u64)
                            }
                        } else {
                            waiting.checkpoint_every_ms is None
                                && waiting.next_checkpoint_at_ms is None
                        }
                    },
                    None => waiting.checkpoint_every_ms is None
                        && waiting.next_checkpoint_at_ms is None,
                }
            }
        }),
{
}

/// A continuation that was not written is answered again, word for word, in the name of the new
/// hook, unless the process that prepared it still exists and is at most five seconds behind; then
/// it is left alone. The condition stays as it is.
pub proof fn an_unwritten_answer_is_given_again(
    session: SessionView,
    run: HookRunView,
    condition: ConditionView,
    delivery: DeliveryView,
    seen: Observation,
    now_ms: u64,
)
    requires
        run.hook_event_name == "Stop"@,
        can_own(run.owner),
        session.condition == StoredView::Found(condition),
        in_order(condition),
        now_ms < u64::MAX - 1_000,
        condition.status == ConditionStatus::Armed || condition.status
            == ConditionStatus::Succeeded || condition.status == ConditionStatus::TimedOut
            || condition.status == ConditionStatus::Failed,
        session.delivery == StoredView::Found(delivery),
        delivery.version == 1,
        delivery.condition_id == condition.id,
        condition.id.len() > 0,
        can_own(delivery.owner),
    ensures
        ({
            let step = stepping(session, run, HookEventView::Stop(seen), now_ms);
            let alone = seen.delivery_process_exists && now_ms <= delivery.prepared_at_ms + 5_000
                && delivery.prepared_at_ms <= now_ms + 1_000;
            &&& step.session.condition == session.condition
            &&& step.session.lease == session.lease
            &&& alone ==> step.session == session && step.action == Ok::<
                HookActionView,
                Seq<char>,
            >(HookActionView::Finish(HookResultView::Noop))
            &&& !alone ==> step.action == Ok::<HookActionView, Seq<char>>(
                HookActionView::Finish(HookResultView::Continue(delivery.message)),
            ) && step.run.watched == Some(condition.id) && step.session.delivery
                == StoredView::Found(
                DeliveryView { owner: run.owner, prepared_at_ms: now_ms, ..delivery },
            )
        }),
{
}

/// A condition that ended or was given up is answered with nothing where no continuation waits.
pub proof fn an_ended_condition_is_not_driven(
    session: SessionView,
    run: HookRunView,
    condition: ConditionView,
    seen: Observation,
    now_ms: u64,
)
    requires
        session.condition == StoredView::Found(condition),
        in_order(condition),
        condition.status != ConditionStatus::Armed && condition.status != ConditionStatus::Waiting,
        is_foreign_delivery(session.delivery, condition.id) || condition.status
            == ConditionStatus::Cancelled || condition.status == ConditionStatus::CancelRequested,
    ensures
        stepping(session, run, HookEventView::Stop(seen), now_ms).session == session,
        stepping(session, run, HookEventView::Stop(seen), now_ms).action == Ok::<
            HookActionView,
            Seq<char>,
        >(HookActionView::Finish(HookResultView::Noop)),
{
}

/// A hook that does not hold the condition any more decides nothing, whatever it reports: not where
/// the record is gone or has another ID, not where the condition does not wait, and not where
/// another hook has the lease.
pub proof fn who_does_not_hold_a_condition_decides_nothing(
    session: SessionView,
    run: HookRunView,
    condition: ConditionView,
    lease: HookLeaseView,
    event: HookEventView,
    now_ms: u64,
)
    requires
        !(event is Stop),
        run.watched is Some,
        session.condition == StoredView::Found(condition),
        in_order(condition),
        session.lease == StoredView::Found(lease),
        lease.version == 1,
        lease.condition_id.len() > 0,
        can_own(lease.owner),
        condition.status != ConditionStatus::Waiting || run.watched != Some(condition.id)
            || lease.condition_id != condition.id || lease.owner.owner_id != run.owner.owner_id,
    ensures
        stepping(session, run, event, now_ms).session == session,
        stepping(session, run, event, now_ms).action == Ok::<HookActionView, Seq<char>>(
            HookActionView::Finish(HookResultView::Noop),
        ),
{
}

/// What cannot be read is an error, and nothing is changed: the condition for every event, and the
/// continuation where the condition does not wait.
pub proof fn what_cannot_be_read_is_an_error(
    session: SessionView,
    run: HookRunView,
    event: HookEventView,
    seen: Observation,
    error: Seq<char>,
    now_ms: u64,
)
    requires
        event is Stop || run.watched is Some,
    ensures
        session.condition == StoredView::<ConditionView>::Failed(error) && (event is Stop
            ==> run.hook_event_name == "Stop"@) ==> stepping(session, run, event, now_ms).session
            == session && stepping(session, run, event, now_ms).action is Err,
        session.delivery == StoredView::<DeliveryView>::Failed(error) && run.hook_event_name
            == "Stop"@ && (session.condition matches StoredView::Found(condition) && in_order(
            condition,
        ) && (condition.status == ConditionStatus::Armed || condition.status
            == ConditionStatus::Succeeded || condition.status == ConditionStatus::TimedOut
            || condition.status == ConditionStatus::Failed)) ==> {
            let step = stepping(session, run, HookEventView::Stop(seen), now_ms);
            &&& step.session == session
            &&& step.action == Err::<HookActionView, Seq<char>>("read pending delivery: "@ + error)
        },
        session.condition == StoredView::<ConditionView>::Failed(error) && run.hook_event_name
            == "Stop"@ ==> stepping(session, run, HookEventView::Stop(seen), now_ms).action == Err::<
            HookActionView,
            Seq<char>,
        >("read condition: "@ + error),
{
}

/// A session without a condition is no business of any hook.
pub proof fn a_session_without_a_condition_is_left_alone(
    session: SessionView,
    run: HookRunView,
    event: HookEventView,
    now_ms: u64,
)
    requires
        session.condition is Missing,
        event is Stop || run.watched is Some,
    ensures
        stepping(session, run, event, now_ms).session == session,
        stepping(session, run, event, now_ms).action == Ok::<HookActionView, Seq<char>>(
            HookActionView::Finish(HookResultView::Noop),
        ),
{
}

/// A hook that cannot be recorded as an owner takes nothing over: it leaves the lease and the
/// continuation as they are, and says so.
pub proof fn a_nameless_hook_takes_nothing_over(
    session: SessionView,
    run: HookRunView,
    condition: ConditionView,
    seen: Observation,
    now_ms: u64,
)
    requires
        run.hook_event_name == "Stop"@,
        !can_own(run.owner),
        session.condition == StoredView::Found(condition),
        in_order(condition),
        condition.status == ConditionStatus::Armed,
        session.delivery is Missing,
        condition.created_at_ms + condition.timeout_ms < u64::MAX,
        condition.created_at_ms <= now_ms,
    ensures
        ({
            let step = stepping(session, run, HookEventView::Stop(seen), now_ms);
            &&& step.action is Err
            &&& step.run.watched == run.watched
            &&& step.session.lease == session.lease
            &&& step.session.delivery is Missing
        }),
{
}

} // verus!
