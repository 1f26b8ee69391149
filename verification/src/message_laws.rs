//! What is told of a condition, word for word, and how much of its output.
use vstd::prelude::*;

use crate::check::{check_outcome, check_progress, CheckPoll, CheckStep};
use crate::condition::{ConditionStatus, ConditionView};
use crate::message::{
    checkpoint_text, command_line, continuation, lossy_text, tail_text, OUTPUT_LIMIT_BYTES,
};
use crate::names::shell_quoted;
use crate::span::{
    duration_text_fits, human_duration, human_millis, is_unit_char, sum_fits, unit_length,
    unit_nanos, Span,
};
use crate::text::{decimal, signed_decimal, trim, trim_end};
use crate::text_laws::{
    all_digits, numbers_are_written_in_decimal, value_of, values_grow_with_more_digits,
};

verus! {

/// What is told of the job of a condition.
pub open spec fn told_of_job(condition: ConditionView) -> Seq<char> {
    match condition.job {
        Some(job) => " Job ID: `"@ + job.id + "`. Full combined stdout/stderr log: `"@ + job.log_path
            + "`. Use native tools such as `tail` or `rg` to inspect it; open-wake will not print the full log."@
            + (if condition.status == ConditionStatus::TimedOut {
            " The open-wake deadline does not terminate the supervised command; inspect the job before deciding what to stop."@
        } else {
            seq![]
        }),
        None => seq![],
    }
}

/// What is told of the last output of a predicate: nothing where it is blank, and otherwise all of it
/// up to the white space at its end.
pub open spec fn told_of_output(output: Seq<char>) -> Seq<char> {
    if trim(output).len() == 0 {
        seq![]
    } else {
        "\n\nLast predicate output (bounded):\n```text\n"@ + trim_end(output) + "\n```"@
    }
}

/// What a condition is called: by its label, by its job, or by its ID.
pub open spec fn told_as(condition: ConditionView) -> Seq<char> {
    if condition.label is Some {
        condition.label->0
    } else if condition.job is Some {
        condition.job->0.id
    } else {
        condition.id
    }
}

/// A continuation tells the outcome, the name, how long the condition waited, how often it was
/// checked, the predicate, its last exit code, the job and the output.
pub proof fn a_continuation_tells_everything(condition: ConditionView, ended_ms: u64, now_ms: u64)
    requires
        condition.resolved_at_ms == Some(ended_ms),
        condition.created_at_ms <= ended_ms,
    ensures
        continuation(condition, now_ms) == "open-wake: "@ + (match condition.status {
            ConditionStatus::Succeeded => "condition met"@,
            ConditionStatus::TimedOut => "deadline reached before the condition became true"@,
            ConditionStatus::Failed => "condition check failed"@,
            _ => "condition resolved"@,
        }) + " for `"@ + told_as(condition) + "` after "@ + human_millis(
            (ended_ms - condition.created_at_ms) as u64,
        ) + " ("@ + decimal(condition.attempts as nat)
            + " checks). Continue the task now. Predicate: `"@ + command_line(condition.command)
            + "`. Last exit code: "@ + (match condition.last_exit_code {
            Some(code) => signed_decimal(code as int),
            None => "unavailable"@,
        }) + "."@ + told_of_job(condition) + told_of_output(condition.last_output),
{
    if condition.job is Some && condition.status != ConditionStatus::TimedOut {
        let job = condition.job->0;
        let text = " Job ID: `"@ + job.id + "`. Full combined stdout/stderr log: `"@ + job.log_path
            + "`. Use native tools such as `tail` or `rg` to inspect it; open-wake will not print the full log."@;
        assert(text + seq![] =~= text);
    }
}

/// A checkpoint tells its number, the name, how long the condition has waited, how often it was
/// checked, that it stays armed, the job and the output.
pub proof fn a_checkpoint_tells_everything(condition: ConditionView, now_ms: u64)
    requires
        condition.created_at_ms <= now_ms,
    ensures
        checkpoint_text(condition, now_ms) == "open-wake: progress checkpoint "@ + decimal(
            condition.checkpoints as nat,
        ) + " for `"@ + told_as(condition) + "` after "@ + human_millis(
            (now_ms - condition.created_at_ms) as u64,
        ) + " ("@ + decimal(condition.attempts as nat)
            + " checks). The same condition remains armed; inspect progress now, then finish the turn to keep waiting or run `open-wake cancel` to stop future wake-ups."@
            + told_of_job(condition) + told_of_output(condition.last_output),
{
    if condition.job is Some && condition.status != ConditionStatus::TimedOut {
        let job = condition.job->0;
        let text = " Job ID: `"@ + job.id + "`. Full combined stdout/stderr log: `"@ + job.log_path
            + "`. Use native tools such as `tail` or `rg` to inspect it; open-wake will not print the full log."@;
        assert(text + seq![] =~= text);
    }
}

/// A command is told with each of its words in quotation marks and a space between two of them.
pub proof fn a_command_is_told_word_by_word(command: Seq<Seq<char>>, word: Seq<char>)
    ensures
        command_line(seq![]) == Seq::<char>::empty(),
        command_line(seq![word]) == shell_quoted(word),
        command.len() > 0 ==> command_line(command.push(word)) == command_line(command) + seq![
            ' ',
        ] + shell_quoted(word),
{
    reveal_strlit(" ");
    assert(" "@ =~= seq![' ']);
    assert(command.push(word).drop_last() =~= command);
}

/// Of a long output only the last four kibibytes are told, and it is said that some is missing; a
/// shorter one is told as it is.
pub proof fn only_the_end_of_a_long_output_is_told(before: Seq<u8>, end: Seq<u8>)
    requires
        end.len() == 4096,
    ensures
        OUTPUT_LIMIT_BYTES == 4096,
        before.len() > 0 ==> tail_text(before + end, 4096) == "... output truncated ...\n"@
            + lossy_text(end),
        before.len() <= 4096 ==> tail_text(before, 4096) == lossy_text(before),
{
    let all = before + end;
    assert(all.subrange(all.len() - 4096, all.len() as int) =~= end);
}

/// A predicate that ended is not timed out and keeps its exit code. One that runs is looked at every
/// fifty milliseconds and stopped once its time is over, and one that had to be stopped is timed out
/// whatever its exit code is.
pub proof fn a_predicate_runs_until_its_time_is_over(
    exit_code: Option<i32>,
    elapsed_ms: u64,
    timeout_ms: u64,
)
    ensures
        check_progress(CheckPoll::Ended(exit_code), elapsed_ms, timeout_ms) == Ok::<
            CheckStep,
            Seq<char>,
        >(CheckStep::Finish { exit_code, timed_out: false }),
        check_progress(CheckPoll::Running, elapsed_ms, timeout_ms) == Ok::<CheckStep, Seq<char>>(
            if elapsed_ms >= timeout_ms {
                CheckStep::Stop
            } else {
                CheckStep::Sleep(50)
            },
        ),
        check_progress(CheckPoll::Stopped(Ok(exit_code)), elapsed_ms, timeout_ms) == Ok::<
            CheckStep,
            Seq<char>,
        >(CheckStep::Finish { exit_code, timed_out: true }),
{
}

/// What cannot be looked at or stopped is an error.
pub proof fn an_unobservable_predicate_is_an_error(
    error: String,
    elapsed_ms: u64,
    timeout_ms: u64,
)
    ensures
        check_progress(CheckPoll::Failed(error), elapsed_ms, timeout_ms) == Err::<
            CheckStep,
            Seq<char>,
        >("wait for predicate: "@ + error@),
        check_progress(CheckPoll::Stopped(Err(error)), elapsed_ms, timeout_ms) == Err::<
            CheckStep,
            Seq<char>,
        >("reap timed-out predicate: "@ + error@),
{
}

/// A span in milliseconds is its seconds and its nanoseconds, rounded down; what does not fit is as
/// long as possible. A time in milliseconds is told as the span of as many milliseconds.
pub proof fn spans_are_counted_in_whole_milliseconds(span: Span, millis: u64)
    ensures
        ({
            let whole = span.secs * 1_000 + span.nanos as int / 1_000_000;
            span.millis() == if whole <= u64::MAX {
                whole
            } else {
                u64::MAX as int
            }
        }),
        human_millis(millis) == human_duration(
            (millis / 1_000) as u64,
            ((millis % 1_000) * 1_000_000) as u32,
        ),
        millis == (millis / 1_000) * 1_000 + millis % 1_000,
{
}

/// A check gives what the predicate gave: its exit code, whether it had to be stopped, and the last
/// four kibibytes of its output.
pub proof fn a_check_gives_what_the_predicate_gave(
    exit_code: Option<i32>,
    timed_out: bool,
    output: Seq<u8>,
)
    ensures
        ({
            let check = check_outcome(exit_code, timed_out, output);
            &&& check.exit_code == exit_code
            &&& check.timed_out == timed_out
            &&& output.len() <= 4096 ==> check.output == lossy_text(output)
            &&& output.len() > 4096 ==> check.output == "... output truncated ...\n"@ + lossy_text(
                output.subrange(output.len() - 4096, output.len() as int),
            )
        }),
{
}

proof fn lemma_unit(unit: Seq<char>)
    requires
        forall|i: int| 0 <= i < unit.len() ==> is_unit_char(#[trigger] unit[i]),
    ensures
        unit_length(unit) == unit.len(),
    decreases unit.len(),
{
    if unit.len() > 0 {
        let rest = unit.skip(1);
        assert forall|i: int| 0 <= i < rest.len() implies is_unit_char(#[trigger] rest[i]) by {
            assert(rest[i] == unit[i + 1]);
        }
        assert(is_unit_char(unit[0]));
        lemma_unit(rest);
    }
}

proof fn lemma_counted_digits(read: Seq<char>, digits: Seq<char>, rest: Seq<char>)
    requires
        all_digits(read),
        all_digits(digits),
        read.len() + digits.len() > 0,
        value_of(read + digits) <= u64::MAX,
    ensures
        sum_fits(
            digits + rest,
            if read.len() == 0 {
                None
            } else {
                Some(value_of(read) as u64)
            },
            false,
            0,
            0,
        ) == sum_fits(rest, Some(value_of(read + digits) as u64), false, 0, 0),
    decreases digits.len(),
{
    if digits.len() == 0 {
        assert(read + digits =~= read);
        assert(digits + rest =~= rest);
    } else {
        let more = read.push(digits[0]);
        let left = digits.skip(1);
        let text = digits + rest;
        assert('0' <= digits[0] <= '9');
        assert(text[0] == digits[0]);
        assert(text.skip(1) =~= left + rest);
        assert(more.drop_last() =~= read);
        assert(read + digits =~= more + left);
        assert forall|i: int| 0 <= i < left.len() implies '0' <= #[trigger] left[i] <= '9' by {
            assert(left[i] == digits[i + 1]);
        }
        values_grow_with_more_digits(more, left);
        values_grow_with_more_digits(read, digits);
        if read.len() == 0 {
            assert(value_of(read) == 0);
        }
        lemma_counted_digits(more, left, rest);
    }
}

/// A duration that is one number and one unit can be read, as long as it is shorter than the longest
/// time there is.
pub proof fn a_number_and_a_unit_are_a_duration(value: u64, unit: Seq<char>, nanos: u64)
    requires
        unit.len() > 0,
        forall|i: int| 0 <= i < unit.len() ==> is_unit_char(#[trigger] unit[i]),
        unit_nanos(unit) == Some(nanos),
        value * nanos < u64::MAX * 1_000_000_000,
    ensures
        duration_text_fits(decimal(value as nat) + unit),
{
    let none = Seq::<char>::empty();
    let digits = decimal(value as nat);
    numbers_are_written_in_decimal(value as nat);
    assert(none + digits =~= digits);
    lemma_counted_digits(none, digits, unit);
    lemma_unit(unit);
    assert(unit.take(unit.len() as int) =~= unit);
    assert(unit.skip(unit.len() as int) =~= none);
    assert(is_unit_char(unit[0]));
    reveal_with_fuel(sum_fits, 2);
}

} // verus!
