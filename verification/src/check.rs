//! One check of a predicate: how long it runs, and what it gives.
use vstd::prelude::*;

use crate::condition::MIN_POLL_INTERVAL_MS;
use crate::hook::{CheckResult, CheckResultView};
use crate::message::{read_tail, tail_text, OUTPUT_LIMIT_BYTES};
use crate::text::{debug_list, debug_text, joined, outcome, texts};

verus! {

/// What was seen of a running predicate.
#[derive(Debug)]
pub enum CheckPoll {
    /// It ended, with this exit code if it has one.
    Ended(Option<i32>),
    /// It is still running.
    Running,
    /// It could not be looked at.
    Failed(String),
    /// It was stopped, and ended with this exit code if it has one.
    Stopped(Result<Option<i32>, String>),
}

/// What is to be done with a predicate.
#[derive(Debug, Clone, Copy, PartialEq, Eq, Structural)]
pub enum CheckStep {
    /// Look again after this many milliseconds.
    Sleep(u64),
    /// Stop the predicate and everything that it started.
    Stop,
    /// The check is over.
    Finish { exit_code: Option<i32>, timed_out: bool },
}

/// What is to be done with a predicate that has been running for some time.
pub open spec fn check_progress(poll: CheckPoll, elapsed_ms: u64, timeout_ms: u64) -> Result<
    CheckStep,
    Seq<char>,
> {
    match poll {
        CheckPoll::Ended(exit_code) => Ok(CheckStep::Finish { exit_code, timed_out: false }),
        CheckPoll::Running => Ok(
            if elapsed_ms < timeout_ms {
                CheckStep::Sleep(MIN_POLL_INTERVAL_MS)
            } else {
                CheckStep::Stop
            },
        ),
        CheckPoll::Failed(error) => Err("wait for predicate: "@ + error@),
        CheckPoll::Stopped(Ok(exit_code)) => Ok(CheckStep::Finish { exit_code, timed_out: true }),
        CheckPoll::Stopped(Err(error)) => Err("reap timed-out predicate: "@ + error@),
    }
}

/// Decides what is to be done with a predicate that has been running for some time.
pub fn observe_check(poll: &CheckPoll, elapsed_ms: u64, timeout_ms: u64) -> (result: Result<
    CheckStep,
    String,
>)
    ensures
        outcome(result) == check_progress(*poll, elapsed_ms, timeout_ms),
{
    match poll {
        CheckPoll::Ended(exit_code) => Ok(
            CheckStep::Finish { exit_code: *exit_code, timed_out: false },
        ),
        CheckPoll::Running => {
            if elapsed_ms < timeout_ms {
                Ok(CheckStep::Sleep(MIN_POLL_INTERVAL_MS))
            } else {
                Ok(CheckStep::Stop)
            }
        },
        CheckPoll::Failed(error) => Err(joined("wait for predicate: ", error.as_str())),
        CheckPoll::Stopped(Ok(exit_code)) => Ok(
            CheckStep::Finish { exit_code: *exit_code, timed_out: true },
        ),
        CheckPoll::Stopped(Err(error)) => Err(
            joined("reap timed-out predicate: ", error.as_str()),
        ),
    }
}

/// What a check gave, with the end of its output.
pub open spec fn check_outcome(
    exit_code: Option<i32>,
    timed_out: bool,
    output: Seq<u8>,
) -> CheckResultView {
    CheckResultView { exit_code, output: tail_text(output, OUTPUT_LIMIT_BYTES as nat), timed_out }
}

/// What a check gave, with the end of its output.
pub fn run_check(exit_code: Option<i32>, timed_out: bool, output: &Vec<u8>) -> (check: CheckResult)
    ensures
        check@ == check_outcome(exit_code, timed_out, output@),
        check@ == (CheckResultView {
            exit_code,
            output: tail_text(output@, OUTPUT_LIMIT_BYTES as nat),
            timed_out,
        }),
{
    CheckResult { exit_code, output: read_tail(output, OUTPUT_LIMIT_BYTES), timed_out }
}

/// What is said of a predicate that could not be started.
pub fn start_failure(command: &Vec<String>, error: &str) -> (text: String)
    ensures
        text@ == "start predicate "@ + debug_list(texts(command@)) + ": "@ + error@,
{
    let mut text = joined("start predicate ", debug_text(command).as_str());
    text.append(": ");
    text.append(error);
    text
}

} // verus!
