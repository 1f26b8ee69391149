//! The messages with which a session continues, and the output that they quote.
use vstd::prelude::*;
use vstd::utf8::{decode_utf8, valid_utf8};

use crate::condition::{elapsed, since, Condition, ConditionStatus, ConditionView};
use crate::names::{shell_quote, shell_quoted};
use crate::span::{format_millis, human_millis};
use crate::text::{
    blank, decimal, push_decimal, push_signed, signed_decimal, texts, trim, trim_end, trimmed_end,
};

verus! {

/// How much of the output of a predicate a message may quote.
pub const OUTPUT_LIMIT_BYTES: usize = 4 * 1024;

/// What some bytes read as, with replacement characters where they are not UTF-8.
pub uninterp spec fn lossy_text(bytes: Seq<u8>) -> Seq<char>;

/// `String::from_utf8_lossy` reads bytes as UTF-8. The result is a function of the bytes; valid
/// UTF-8 is read as it is. How the replacement characters are placed is not stated.
#[verifier::external_body]
pub(crate) fn read_lossy(bytes: &[u8]) -> (text: String)
    ensures
        text@ == lossy_text(bytes@),
        valid_utf8(bytes@) ==> text@ == decode_utf8(bytes@),
{
    String::from_utf8_lossy(bytes).into_owned()
}

/// The last bytes of an output, at most `limit` of them.
pub open spec fn last_bytes(bytes: Seq<u8>, limit: nat) -> Seq<u8> {
    if bytes.len() > limit {
        bytes.subrange(bytes.len() - limit, bytes.len() as int)
    } else {
        bytes
    }
}

/// The end of an output as text, with a mark where something was left out.
pub open spec fn tail_text(bytes: Seq<u8>, limit: nat) -> Seq<char> {
    if bytes.len() > limit {
        "... output truncated ...\n"@ + lossy_text(last_bytes(bytes, limit))
    } else {
        lossy_text(bytes)
    }
}

fn copy_tail(bytes: &Vec<u8>, limit: usize) -> (tail: Vec<u8>)
    ensures
        tail@ == last_bytes(bytes@, limit as nat),
{
    let start: usize = if bytes.len() > limit {
        bytes.len() - limit
    } else {
        0
    };
    let mut tail: Vec<u8> = Vec::new();
    let mut index: usize = start;
    while index < bytes.len()
        invariant
            start <= index <= bytes@.len(),
            tail@ == bytes@.subrange(start as int, index as int),
        decreases bytes@.len() - index,
    {
        tail.push(bytes[index]);
        index = index + 1;
        assert(tail@ =~= bytes@.subrange(start as int, index as int));
    }
    assert(tail@ =~= last_bytes(bytes@, limit as nat));
    tail
}

/// Reads the last bytes of an output as text.
pub fn lossy_tail(bytes: &Vec<u8>, limit: usize) -> (text: String)
    ensures
        text@ == lossy_text(last_bytes(bytes@, limit as nat)),
{
    let tail = copy_tail(bytes, limit);
    read_lossy(tail.as_slice())
}

/// Reads the end of an output as text, with a mark where something was left out.
pub fn read_tail(bytes: &Vec<u8>, max_bytes: usize) -> (output: String)
    ensures
        output@ == tail_text(bytes@, max_bytes as nat),
{
    let text = lossy_tail(bytes, max_bytes);
    if bytes.len() > max_bytes {
        let mut output = "... output truncated ...\n".to_owned();
        output.append(text.as_str());
        output
    } else {
        text
    }
}

/// What a message quotes of an output depends on its last bytes alone.
pub proof fn quoted_output_is_bounded(first: Seq<u8>, second: Seq<u8>, limit: nat)
    requires
        first.len() > limit,
        second.len() > limit,
        last_bytes(first, limit) == last_bytes(second, limit),
    ensures
        last_bytes(first, limit).len() == limit,
        tail_text(first, limit) == tail_text(second, limit),
{
}

/// The words of a command, each quoted for a shell.
pub open spec fn command_line(command: Seq<Seq<char>>) -> Seq<char>
    decreases command.len(),
{
    if command.len() == 0 {
        seq![]
    } else if command.len() == 1 {
        shell_quoted(command[0])
    } else {
        command_line(command.drop_last()) + " "@ + shell_quoted(command.last())
    }
}

fn quoted_command(command: &Vec<String>) -> (line: String)
    ensures
        line@ == command_line(texts(command@)),
{
    let mut line = String::new();
    let mut index: usize = 0;
    assert(texts(command@).take(0) =~= Seq::<Seq<char>>::empty());
    while index < command.len()
        invariant
            index <= command@.len(),
            line@ == command_line(texts(command@).take(index as int)),
        decreases command@.len() - index,
    {
        let ghost before = texts(command@).take(index as int);
        let ghost now = texts(command@).take(index + 1);
        if index > 0 {
            line.append(" ");
        }
        line.append(shell_quote(command[index].as_str()).as_str());
        proof {
            assert(now.drop_last() =~= before);
            assert(now.last() == command@[index as int]@);
            assert(line@ =~= command_line(now));
        }
        index = index + 1;
    }
    assert(texts(command@).take(index as int) =~= texts(command@));
    line
}

impl ConditionView {
    /// What a condition is called in messages: its label, its job or its own ID.
    pub open spec fn name(self) -> Seq<char> {
        match self.label {
            Some(label) => label,
            None => match self.job {
                Some(job) => job.id,
                None => self.id,
            },
        }
    }
}

/// What a condition is called in messages: its label, its job or its own ID.
pub fn condition_label(condition: &Condition) -> (label: &str)
    ensures
        label@ == condition@.name(),
{
    match &condition.label {
        Some(label) => label.as_str(),
        None => match &condition.job {
            Some(job) => job.id.as_str(),
            None => condition.id.as_str(),
        },
    }
}

/// What a message says of an attached job.
pub open spec fn job_context(condition: ConditionView) -> Seq<char> {
    match condition.job {
        Some(job) => {
            let context = " Job ID: `"@ + job.id + "`. Full combined stdout/stderr log: `"@
                + job.log_path
                + "`. Use native tools such as `tail` or `rg` to inspect it; open-wake will not print the full log."@;
            if condition.status == ConditionStatus::TimedOut {
                context
                    + " The open-wake deadline does not terminate the supervised command; inspect the job before deciding what to stop."@
            } else {
                context
            }
        },
        None => seq![],
    }
}

fn append_job_context(message: &mut String, condition: &Condition)
    ensures
        final(message)@ == old(message)@ + job_context(condition@),
{
    let mut context = String::new();
    if let Some(job) = &condition.job {
        context = " Job ID: `".to_owned();
        context.append(job.id.as_str());
        context.append("`. Full combined stdout/stderr log: `");
        context.append(job.log_path.as_str());
        context.append(
            "`. Use native tools such as `tail` or `rg` to inspect it; open-wake will not print the full log.",
        );
        if condition.status == ConditionStatus::TimedOut {
            context.append(
                " The open-wake deadline does not terminate the supervised command; inspect the job before deciding what to stop.",
            );
        }
    }
    message.append(context.as_str());
}

/// What a message quotes of the last output, if it holds anything but white space.
pub open spec fn output_quote(output: Seq<char>) -> Seq<char> {
    if trim(output).len() == 0 {
        seq![]
    } else {
        "\n\nLast predicate output (bounded):\n```text\n"@ + trim_end(output) + "\n```"@
    }
}

fn append_output(message: &mut String, output: &str)
    ensures
        final(message)@ == old(message)@ + output_quote(output@),
{
    let mut quote = String::new();
    if !blank(output) {
        quote = "\n\nLast predicate output (bounded):\n```text\n".to_owned();
        quote.append(trimmed_end(output).as_str());
        quote.append("\n```");
    }
    message.append(quote.as_str());
}

/// What a message says of an outcome.
pub open spec fn outcome_text(status: ConditionStatus) -> Seq<char> {
    match status {
        ConditionStatus::Succeeded => "condition met"@,
        ConditionStatus::TimedOut => "deadline reached before the condition became true"@,
        ConditionStatus::Failed => "condition check failed"@,
        _ => "condition resolved"@,
    }
}

/// What a message says of an exit code.
pub open spec fn exit_text(code: Option<i32>) -> Seq<char> {
    match code {
        Some(code) => signed_decimal(code as int),
        None => "unavailable"@,
    }
}

/// The message for a condition that ended. One without a time of its end has lasted until now.
pub open spec fn continuation(condition: ConditionView, now_ms: u64) -> Seq<char> {
    let ended = match condition.resolved_at_ms {
        Some(resolved) => resolved,
        None => now_ms,
    };
    "open-wake: "@ + outcome_text(condition.status) + " for `"@ + condition.name() + "` after "@
        + human_millis(since(ended, condition.created_at_ms)) + " ("@ + decimal(
        condition.attempts as nat,
    ) + " checks). Continue the task now. Predicate: `"@ + command_line(condition.command)
        + "`. Last exit code: "@ + exit_text(condition.last_exit_code) + "."@ + job_context(
        condition,
    ) + output_quote(condition.last_output)
}

/// Writes the message for a condition that ended.
pub fn format_continuation(condition: &Condition, now_ms: u64) -> (message: String)
    ensures
        message@ == continuation(condition@, now_ms),
{
    let ended = match condition.resolved_at_ms {
        Some(resolved) => resolved,
        None => now_ms,
    };
    let mut exit = "unavailable".to_owned();
    if let Some(code) = condition.last_exit_code {
        exit = String::new();
        push_signed(&mut exit, code);
        assert(exit@ =~= signed_decimal(code as int));
    }
    let outcome = match condition.status {
        ConditionStatus::Succeeded => "condition met",
        ConditionStatus::TimedOut => "deadline reached before the condition became true",
        ConditionStatus::Failed => "condition check failed",
        _ => "condition resolved",
    };
    let mut message = "open-wake: ".to_owned();
    message.append(outcome);
    message.append(" for `");
    message.append(condition_label(condition));
    message.append("` after ");
    message.append(format_millis(elapsed(ended, condition.created_at_ms)).as_str());
    message.append(" (");
    push_decimal(&mut message, condition.attempts);
    message.append(" checks). Continue the task now. Predicate: `");
    message.append(quoted_command(&condition.command).as_str());
    message.append("`. Last exit code: ");
    message.append(exit.as_str());
    message.append(".");
    append_job_context(&mut message, condition);
    append_output(&mut message, condition.last_output.as_str());
    message
}

/// The message for a progress checkpoint.
pub open spec fn checkpoint_text(condition: ConditionView, now_ms: u64) -> Seq<char> {
    "open-wake: progress checkpoint "@ + decimal(condition.checkpoints as nat) + " for `"@
        + condition.name() + "` after "@ + human_millis(since(now_ms, condition.created_at_ms))
        + " ("@ + decimal(condition.attempts as nat)
        + " checks). The same condition remains armed; inspect progress now, then finish the turn to keep waiting or run `open-wake cancel` to stop future wake-ups."@
        + job_context(condition) + output_quote(condition.last_output)
}

/// Writes the message for a progress checkpoint.
pub fn format_checkpoint(condition: &Condition, now_ms: u64) -> (message: String)
    ensures
        message@ == checkpoint_text(condition@, now_ms),
{
    let mut message = "open-wake: progress checkpoint ".to_owned();
    push_decimal(&mut message, condition.checkpoints);
    message.append(" for `");
    message.append(condition_label(condition));
    message.append("` after ");
    message.append(format_millis(elapsed(now_ms, condition.created_at_ms)).as_str());
    message.append(" (");
    push_decimal(&mut message, condition.attempts);
    message.append(
        " checks). The same condition remains armed; inspect progress now, then finish the turn to keep waiting or run `open-wake cancel` to stop future wake-ups.",
    );
    append_job_context(&mut message, condition);
    append_output(&mut message, condition.last_output.as_str());
    message
}

} // verus!
