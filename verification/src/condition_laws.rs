//! What holds of every record of a condition, and of every condition that is armed or cancelled.
use vstd::prelude::*;

use crate::condition::{
    accepted, after, since, ArmRequestView, ConditionStatus, ConditionView,
};
use crate::session::{arming, cancellation, generation_cancellation, reading, SessionView};
use crate::span::Span;
use crate::stored::StoredView;
use crate::text::decimal;

verus! {

/// Whether a record of the current format holds together, in numbers: it waits for some time, is
/// checked at most twenty times a second, and its checkpoints come at most once a minute, more often
/// than the deadline and not after it.
pub open spec fn in_order(condition: ConditionView) -> bool {
    &&& condition.version == 2
    &&& condition.timeout_ms >= 1
    &&& condition.poll_every_ms >= 50
    &&& condition.check_timeout_ms >= 1
    &&& match (condition.checkpoint_every_ms, condition.next_checkpoint_at_ms) {
        (None, None) => true,
        (Some(every), Some(next)) => 60_000 <= every < condition.timeout_ms && next
            <= condition.created_at_ms + condition.timeout_ms,
        _ => false,
    }
}

/// A record is accepted if and only if it holds together: in the current format as
/// [`in_order`] says, in the former format without regard to its checkpoints. No other format is
/// accepted, and what is accepted is taken as it is.
pub proof fn records_are_accepted_as_they_are_or_not_at_all(condition: ConditionView)
    ensures
        ({
            let good = in_order(condition) || (condition.version == 1 && condition.timeout_ms >= 1
                && condition.poll_every_ms >= 50 && condition.check_timeout_ms >= 1);
            &&& condition.valid() == good
            &&& good ==> accepted(StoredView::Found(condition)) == StoredView::Found(condition)
            &&& !good ==> accepted(StoredView::Found(condition)) is Failed
        }),
        accepted(StoredView::Missing) is Missing,
{
}

/// The whole milliseconds of a span.
pub open spec fn whole_millis(span: Span) -> int {
    span.secs * 1_000 + span.nanos as int / 1_000_000
}

/// Whether a session can take a new condition: it has none, or one that has come to an end.
pub open spec fn is_free(session: SessionView) -> bool {
    match session.condition {
        StoredView::Missing => true,
        StoredView::Found(condition) => condition.status != ConditionStatus::Armed
            && condition.status != ConditionStatus::Waiting && (in_order(condition) || (
        condition.version == 1 && condition.timeout_ms >= 1 && condition.poll_every_ms >= 50
            && condition.check_timeout_ms >= 1)),
        StoredView::Failed(_) => false,
    }
}

/// Whether a request can be granted, in numbers: a command, a timeout of at least a millisecond and
/// at most a minute less than a week, at least fifty milliseconds between two checks, at least a
/// millisecond for a check, and checkpoints at least a minute apart and shorter than the timeout.
pub open spec fn can_be_granted(request: ArmRequestView) -> bool {
    &&& request.command.len() > 0
    &&& whole_millis(request.timeout) >= 1
    &&& request.timeout.secs * 1_000_000_000 + request.timeout.nanos <= 604_740_000_000_000
    &&& request.poll_every.secs * 1_000_000_000 + request.poll_every.nanos >= 50_000_000
    &&& whole_millis(request.check_timeout) >= 1
    &&& request.checkpoint_every matches Some(every) ==> every.secs * 1_000_000_000 + every.nanos
        >= 60_000_000_000 && whole_millis(every) < whole_millis(request.timeout)
}

/// A condition is armed if and only if its request can be granted, its working directory exists and
/// the session is free; otherwise nothing changes.
pub proof fn what_can_be_granted_is_armed(
    session: SessionView,
    request: ArmRequestView,
    cwd_exists: bool,
    id: Seq<char>,
    now_ms: u64,
)
    requires
        now_ms + 604_740_000 <= u64::MAX,
        request.timeout.nanos < 1_000_000_000,
        request.poll_every.nanos < 1_000_000_000,
        request.check_timeout.nanos < 1_000_000_000,
        request.checkpoint_every matches Some(every) ==> every.nanos < 1_000_000_000,
    ensures
        arming(session, request, cwd_exists, id, now_ms).1 is Ok <==> can_be_granted(request)
            && cwd_exists && is_free(session),
        arming(session, request, cwd_exists, id, now_ms).1 is Err ==> arming(
            session,
            request,
            cwd_exists,
            id,
            now_ms,
        ).0 == session,
{
    if let StoredView::Found(condition) = session.condition {
        records_are_accepted_as_they_are_or_not_at_all(condition);
    }
    records_are_accepted_as_they_are_or_not_at_all(request.condition(id, now_ms));
}

/// The condition that is armed is the one that was asked for: it starts now, runs as long, is
/// checked as often and for as long as was asked for, has not been checked, and its first checkpoint
/// comes one interval after it was armed. The session holds it and nothing else.
pub proof fn an_armed_condition_is_what_was_asked_for(
    session: SessionView,
    request: ArmRequestView,
    cwd_exists: bool,
    id: Seq<char>,
    now_ms: u64,
)
    requires
        now_ms + 604_740_000 <= u64::MAX,
        request.timeout.nanos < 1_000_000_000,
        request.poll_every.nanos < 1_000_000_000,
        request.check_timeout.nanos < 1_000_000_000,
        request.checkpoint_every matches Some(every) ==> every.nanos < 1_000_000_000,
        arming(session, request, cwd_exists, id, now_ms).1 is Ok,
    ensures
        ({
            let after = arming(session, request, cwd_exists, id, now_ms).0;
            let armed = arming(session, request, cwd_exists, id, now_ms).1->Ok_0;
            &&& in_order(armed)
            &&& armed.id == id
            &&& armed.session_id == request.session_id
            &&& armed.label == request.label
            &&& armed.cwd == request.cwd
            &&& armed.command == request.command
            &&& armed.job == request.job
            &&& armed.status == ConditionStatus::Armed
            &&& armed.created_at_ms == now_ms
            &&& armed.timeout_ms == whole_millis(request.timeout)
            &&& whole_millis(request.poll_every) <= u64::MAX ==> armed.poll_every_ms
                == whole_millis(request.poll_every)
            &&& whole_millis(request.check_timeout) <= u64::MAX ==> armed.check_timeout_ms
                == whole_millis(request.check_timeout)
            &&& armed.checkpoint_every_ms is Some <==> request.checkpoint_every is Some
            &&& request.checkpoint_every matches Some(every) ==> armed.checkpoint_every_ms == Some(
                whole_millis(every) as u64,
            ) && armed.next_checkpoint_at_ms == Some(
                (armed.created_at_ms + whole_millis(every)) as u64,
            ) && armed.created_at_ms + whole_millis(every) <= u64::MAX
            &&& request.checkpoint_every is None ==> armed.next_checkpoint_at_ms is None
            &&& armed.checkpoints == 0
            &&& armed.attempts == 0
            &&& armed.last_exit_code is None
            &&& armed.last_output.len() == 0
            &&& armed.resolved_at_ms is None
            &&& after.condition == StoredView::Found(armed)
            &&& after.lease is Missing
            &&& after.delivery is Missing
        }),
{
    what_can_be_granted_is_armed(session, request, cwd_exists, id, now_ms);
    records_are_accepted_as_they_are_or_not_at_all(request.condition(id, now_ms));
}

/// Longer waits and rarer checks take nothing away: of two requests that differ in their timeouts
/// alone, the one with the longer timeout is granted wherever the other is, as long as it is not
/// longer than the limit; and one that was granted is not refused for a longer check or rarer
/// checks.
pub proof fn a_more_patient_request_is_granted_too(
    session: SessionView,
    request: ArmRequestView,
    patient: ArmRequestView,
    id: Seq<char>,
    now_ms: u64,
)
    requires
        now_ms + 604_740_000 <= u64::MAX,
        request.timeout.nanos < 1_000_000_000,
        request.poll_every.nanos < 1_000_000_000,
        request.check_timeout.nanos < 1_000_000_000,
        request.checkpoint_every matches Some(every) ==> every.nanos < 1_000_000_000,
        patient.timeout.nanos == 0,
        request.timeout.secs < patient.timeout.secs <= 604_740,
        patient.poll_every.nanos < 1_000_000_000,
        patient.poll_every.secs > request.poll_every.secs,
        patient.check_timeout.nanos < 1_000_000_000,
        patient.check_timeout.secs > request.check_timeout.secs,
        patient == (ArmRequestView {
            timeout: patient.timeout,
            poll_every: patient.poll_every,
            check_timeout: patient.check_timeout,
            ..request
        }),
        arming(session, request, true, id, now_ms).1 is Ok,
    ensures
        arming(session, patient, true, id, now_ms).1 is Ok,
{
    what_can_be_granted_is_armed(session, request, true, id, now_ms);
    what_can_be_granted_is_armed(session, patient, true, id, now_ms);
}

/// What cancelling does: a condition that is armed or waiting ends at once, as cancelled, now, with
/// everything else as it was, and neither a lease nor a continuation is left; a record that was
/// given up before is completed, or left alone if it is complete; every other outcome stays, and
/// the call is an error.
pub proof fn cancelling_ends_what_is_open_and_nothing_else(
    session: SessionView,
    condition: ConditionView,
    now_ms: u64,
)
    requires
        session.condition == StoredView::Found(condition),
        in_order(condition),
    ensures
        ({
            let (after, result) = cancellation(session, now_ms);
            let cancelled = ConditionView {
                status: ConditionStatus::Cancelled,
                resolved_at_ms: Some(now_ms),
                ..condition
            };
            match condition.status {
                ConditionStatus::Armed | ConditionStatus::Waiting => result == Ok::<
                    ConditionView,
                    Seq<char>,
                >(cancelled) && after.condition == StoredView::Found(cancelled) && after.lease
                    is Missing && after.delivery is Missing,
                ConditionStatus::CancelRequested => result == Ok::<ConditionView, Seq<char>>(
                    cancelled,
                ) && after.condition == StoredView::Found(cancelled),
                ConditionStatus::Cancelled => if condition.resolved_at_ms is Some {
                    result == Ok::<ConditionView, Seq<char>>(condition) && after == session
                } else {
                    result == Ok::<ConditionView, Seq<char>>(cancelled) && after.condition
                        == StoredView::Found(cancelled)
                },
                ConditionStatus::Succeeded
                | ConditionStatus::TimedOut
                | ConditionStatus::Failed => result is Err && after == session,
            }
        }),
        reading(session.condition) == Ok::<Option<ConditionView>, Seq<char>>(Some(condition)),
        forall|id: Seq<char>|
            #![trigger generation_cancellation(session, id, now_ms)]
            id != condition.id ==> generation_cancellation(session, id, now_ms) == (
                session,
                Ok::<Option<ConditionView>, Seq<char>>(None),
            ),
        generation_cancellation(session, condition.id, now_ms).0 == cancellation(
            session,
            now_ms,
        ).0,
        generation_cancellation(session, condition.id, now_ms).1 == match cancellation(
            session,
            now_ms,
        ).1 {
            Ok(cancelled) => Ok::<Option<ConditionView>, Seq<char>>(Some(cancelled)),
            Err(error) => Err(error),
        },
{
    records_are_accepted_as_they_are_or_not_at_all(condition);
}

/// A session without a condition has nothing to cancel and nothing to report.
pub proof fn nothing_is_cancelled_where_nothing_is(session: SessionView, id: Seq<char>, now_ms: u64)
    requires
        session.condition is Missing,
    ensures
        cancellation(session, now_ms).0 == session,
        cancellation(session, now_ms).1 is Err,
        generation_cancellation(session, id, now_ms).0 == session,
        generation_cancellation(session, id, now_ms).1 is Err,
        reading(session.condition) == Ok::<Option<ConditionView>, Seq<char>>(None),
{
}

/// A record that cannot be read is an error for everyone and stays as it is.
pub proof fn an_unreadable_record_is_an_error(session: SessionView, id: Seq<char>, now_ms: u64)
    requires
        session.condition is Failed,
    ensures
        cancellation(session, now_ms).0 == session,
        cancellation(session, now_ms).1 is Err,
        generation_cancellation(session, id, now_ms).0 == session,
        generation_cancellation(session, id, now_ms).1 is Err,
        reading(session.condition) is Err,
{
}

/// Time that has passed is counted from the earlier to the later moment and is never negative, and a
/// delay that would lead beyond the end of time ends there.
pub proof fn times_are_counted_in_one_direction(earlier_ms: u64, later_ms: u64, delay_ms: u64)
    requires
        earlier_ms <= later_ms,
    ensures
        since(later_ms, earlier_ms) == later_ms - earlier_ms,
        since(earlier_ms, later_ms) == 0,
        after(earlier_ms, delay_ms) == if earlier_ms + delay_ms <= u64::MAX {
            earlier_ms + delay_ms
        } else {
            u64::MAX as int
        },
{
}

/// A condition can be waited for while it is armed or waiting, and it was given up when its
/// cancellation was asked for or is done.
pub proof fn statuses_are_open_given_up_or_final(status: ConditionStatus)
    ensures
        status.active() <==> status == ConditionStatus::Armed || status == ConditionStatus::Waiting,
        status.given_up() <==> status == ConditionStatus::CancelRequested || status
            == ConditionStatus::Cancelled,
{
}

/// The deadline of a condition is its start and its timeout, what is left is the time until then, and
/// from then on it is expired.
pub proof fn a_deadline_is_the_start_and_the_timeout(condition: ConditionView, now_ms: u64)
    requires
        condition.created_at_ms <= now_ms,
        condition.created_at_ms + condition.timeout_ms <= u64::MAX,
    ensures
        condition.deadline() == condition.created_at_ms + condition.timeout_ms,
        condition.expired(now_ms) <==> now_ms >= condition.created_at_ms + condition.timeout_ms,
        condition.expired(now_ms) ==> condition.remaining(now_ms) == 0,
        !condition.expired(now_ms) ==> now_ms + condition.remaining(now_ms)
            == condition.created_at_ms + condition.timeout_ms,
{
}

/// A request that is refused for what it asks is told why: of several reasons the first one counts.
pub proof fn a_refused_request_is_told_why(
    session: SessionView,
    request: ArmRequestView,
    cwd_exists: bool,
    id: Seq<char>,
    now_ms: u64,
)
    ensures
        ({
            let refused = |reason: Seq<char>|
                arming(session, request, cwd_exists, id, now_ms).1 == Err::<
                    ConditionView,
                    Seq<char>,
                >(reason);
            let nanos = |span: Span| span.secs * 1_000_000_000 + span.nanos;
            let command = request.command.len() > 0;
            let some = command && nanos(request.timeout) > 0;
            let short = some && nanos(request.timeout) <= 604_740_000_000_000;
            let polled = short && nanos(request.poll_every) >= 50_000_000;
            let checked = polled && nanos(request.check_timeout) > 0;
            let rare = checked && !(request.checkpoint_every is Some && nanos(
                request.checkpoint_every->0,
            ) < 60_000_000_000);
            let inside = rare && !(request.checkpoint_every is Some && nanos(
                request.checkpoint_every->0,
            ) >= nanos(request.timeout));
            &&& !command ==> refused("predicate command is required after --"@)
            &&& command && !some ==> refused("--timeout must be greater than zero"@)
            &&& some && !short ==> refused(
                "--timeout must be shorter than the configured seven-day Stop hook timeout (max "@
                    + decimal(604_740) + "s)"@,
            )
            &&& short && !polled ==> refused("--poll-every must be at least 50ms"@)
            &&& polled && !checked ==> refused("--check-timeout must be greater than zero"@)
            &&& checked && !rare ==> refused("--checkpoint-every must be at least 1m"@)
            &&& rare && !inside ==> refused("--checkpoint-every must be shorter than --timeout"@)
            &&& inside && !cwd_exists ==> refused(
                "condition working directory does not exist: "@ + request.cwd,
            )
        }),
{
}

/// A session that is taken tells which condition has it and in which state.
pub proof fn a_taken_session_names_its_condition(
    session: SessionView,
    condition: ConditionView,
    request: ArmRequestView,
    id: Seq<char>,
    now_ms: u64,
)
    requires
        session.condition == StoredView::Found(condition),
        in_order(condition),
        condition.status == ConditionStatus::Armed || condition.status == ConditionStatus::Waiting,
        can_be_granted(request),
    ensures
        arming(session, request, true, id, now_ms).1 == Err::<ConditionView, Seq<char>>(
            "condition "@ + condition.id + " is already active for this Codex session (status: "@
                + (if condition.status == ConditionStatus::Armed {
                "Armed"@
            } else {
                "Waiting"@
            }) + ")"@,
        ),
{
    records_are_accepted_as_they_are_or_not_at_all(condition);
}

/// A record that does not hold together is told why: of several reasons the first one counts.
pub proof fn a_bad_record_is_told_why(condition: ConditionView)
    ensures
        ({
            let known = condition.version == 1 || condition.version == 2;
            let some = known && condition.timeout_ms > 0;
            let polled = some && condition.poll_every_ms >= 50;
            let checked = polled && condition.check_timeout_ms > 0;
            let current = checked && condition.version == 2;
            let every = condition.checkpoint_every_ms;
            let next = condition.next_checkpoint_at_ms;
            let rare = current && !(every is Some && (every->0 < 60_000 || every->0
                >= condition.timeout_ms));
            let paired = rare && (every is Some <==> next is Some);
            &&& !known ==> condition.problem() == Some(
                "unsupported condition version "@ + decimal(condition.version as nat),
            )
            &&& known && !some ==> condition.problem() == Some(
                "condition timeout must be greater than zero"@,
            )
            &&& some && !polled ==> condition.problem() == Some(
                "condition poll interval is too short"@,
            )
            &&& polled && !checked ==> condition.problem() == Some(
                "condition check timeout must be greater than zero"@,
            )
            &&& current && !rare ==> condition.problem() == Some(
                "invalid condition checkpoint interval"@,
            )
            &&& rare && !paired ==> condition.problem() == Some(
                "inconsistent condition checkpoint state"@,
            )
            &&& paired && next is Some && next->0 > condition.created_at_ms + condition.timeout_ms
                ==> condition.problem() == Some("condition checkpoint is after its deadline"@)
        }),
{
}

/// A condition that came to an end cannot be cancelled any more, and its outcome is named.
pub proof fn a_final_outcome_is_named(
    session: SessionView,
    condition: ConditionView,
    now_ms: u64,
)
    requires
        session.condition == StoredView::Found(condition),
        in_order(condition),
        condition.status == ConditionStatus::Succeeded || condition.status
            == ConditionStatus::TimedOut || condition.status == ConditionStatus::Failed,
    ensures
        cancellation(session, now_ms).1 == Err::<ConditionView, Seq<char>>(
            "condition "@ + condition.id + " is already terminal (status: "@ + (
            match condition.status {
                ConditionStatus::Succeeded => "Succeeded"@,
                ConditionStatus::TimedOut => "TimedOut"@,
                _ => "Failed"@,
            })
                + "); inspect its recorded outcome before arming another condition and do not use cancel as a launch prefix"@,
        ),
{
    records_are_accepted_as_they_are_or_not_at_all(condition);
}

} // verus!
