//! What the commands decide and say.
use serde_json::Value;
use vstd::prelude::*;

use crate::condition::{
    ArmRequest, ArmRequestView, Condition, ConditionView, JobReference, JobReferenceView,
};
use crate::doctor::{CheckStatus, DoctorCheck, DoctorCheckView, DoctorReport};
use crate::hook::{HookResult, HookResultView};
use crate::hooks_file::{managed_file, managed_hook_config};
use crate::json::{
    bytes_outcome, compact_json, empty_object, json_of, parsed_json, plain, put_member, text_value,
    write_compact, JsonView, MAX_NESTING,
};
use crate::lease::{WatcherStatus, WatcherStatusView};
use crate::message::{lossy_text, read_lossy};
use crate::names::{join_path, path_join, shell_quote, shell_quoted};
use crate::setup::{
    change_views, ChangeKind, FileChange, FileChangeView, SetupReport, SetupReportView,
};
use crate::span::{duration_ms, format_duration, human_duration, Span};
use crate::text::{
    debug_quote, debug_quoted, decimal, joined, lemma_texts_push, optional, outcome, outcome_view,
    push_decimal, push_signed, same_text, signed_decimal, texts, trim, trimmed,
};
use crate::update::{UpdateReport, UpdateReportView};

verus! {

/// The shortest checkpoint interval that is not warned of, in seconds.
pub const FREQUENT_CHECKPOINT_SECONDS: u64 = 5 * 60;

/// How long a launcher waits for the first sign of a supervisor.
pub const STARTUP_TIMEOUT_MS: u64 = 5_000;

/// The delay between two looks for that sign.
pub const STARTUP_POLL_MS: u64 = 20;

/// What a hook answers, as JSON.
pub open spec fn hook_answer(result: HookResultView) -> JsonView {
    match result {
        HookResultView::Noop => JsonView::Members(Map::<Seq<char>, JsonView>::empty()),
        HookResultView::Continue(reason) => JsonView::Members(
            Map::<Seq<char>, JsonView>::empty().insert(
                "decision"@,
                JsonView::Text("block"@),
            ).insert("reason"@, JsonView::Text(reason)),
        ),
    }
}

/// What a hook answers, as JSON: a continuation blocks the stop, and nothing else does.
pub fn hook_output(result: HookResult) -> (answer: Value)
    ensures
        json_of(answer) == hook_answer(result@),
{
    match result {
        HookResult::Noop => empty_object(),
        HookResult::Continue(reason) => {
            let mut answer = empty_object();
            put_member(&mut answer, "decision", text_value("block"));
            put_member(&mut answer, "reason", text_value(reason.as_str()));
            answer
        },
    }
}

/// The line that a hook writes.
pub open spec fn hook_line(result: HookResultView) -> Result<Seq<u8>, Seq<char>> {
    match compact_json(hook_answer(result)) {
        Ok(bytes) => Ok(bytes.push(10)),
        Err(error) => Err("serialize hook output: "@ + error),
    }
}

proof fn lemma_answer_is_plain(result: HookResultView)
    ensures
        plain(hook_answer(result), MAX_NESTING as nat),
{
    reveal_with_fuel(plain, 2);
}

/// The line that a hook writes. It reads as the answer.
pub fn hook_response(result: HookResult) -> (line: Result<Vec<u8>, String>)
    ensures
        bytes_outcome(line) == hook_line(result@),
        line matches Ok(bytes) && parsed_json(bytes@) == Ok::<JsonView, Seq<char>>(
            hook_answer(result@),
        ),
{
    proof {
        lemma_answer_is_plain(result@);
    }
    let answer = hook_output(result);
    match write_compact(&answer) {
        Ok(bytes) => {
            let mut bytes = bytes;
            bytes.push(10);
            Ok(bytes)
        },
        Err(error) => Err(joined("serialize hook output: ", error.as_str())),
    }
}

/// The hook file for an executable.
pub fn hook_config(binary: &str) -> (file: Value)
    ensures
        json_of(file) == managed_file(shell_quoted(binary@) + " hook"@),
{
    let mut command = shell_quote(binary);
    command.append(" hook");
    managed_hook_config(command.as_str())
}

/// The predicate that tells whether a supervised job has ended.
pub open spec fn job_predicate(binary: Seq<char>, job: JobReferenceView) -> Seq<Seq<char>> {
    seq![binary, "job-ready"@, "--job-dir"@, job.root, "--job"@, job.id]
}

/// The request to wait for a supervised job.
pub open spec fn job_request(
    session_id: Seq<char>,
    label: Option<Seq<char>>,
    cwd: Seq<char>,
    binary: Seq<char>,
    timeout: Span,
    checkpoint_every: Option<Span>,
    job: JobReferenceView,
) -> ArmRequestView {
    ArmRequestView {
        session_id,
        label,
        cwd,
        command: job_predicate(binary, job),
        timeout,
        poll_every: Span { secs: 1, nanos: 0 },
        check_timeout: Span { secs: 5, nanos: 0 },
        checkpoint_every,
        job: Some(job),
    }
}

/// The request to wait for a supervised job.
pub fn run_request(
    session_id: String,
    label: Option<String>,
    cwd: String,
    binary: &str,
    timeout: Span,
    checkpoint_every: Option<Span>,
    job: &JobReference,
) -> (request: ArmRequest)
    ensures
        request@ == job_request(
            session_id@,
            optional(label),
            cwd@,
            binary@,
            timeout,
            checkpoint_every,
            job@,
        ),
{
    let mut command: Vec<String> = Vec::new();
    command.push(binary.to_owned());
    command.push("job-ready".to_owned());
    command.push("--job-dir".to_owned());
    command.push(job.root.clone());
    command.push("--job".to_owned());
    command.push(job.id.clone());
    assert(texts(command@) =~= job_predicate(binary@, job@));
    ArmRequest {
        session_id,
        label,
        cwd,
        command,
        timeout,
        poll_every: Span { secs: 1, nanos: 0 },
        check_timeout: Span { secs: 5, nanos: 0 },
        checkpoint_every,
        job: Some(job.clone()),
    }
}

/// What a launcher does next.
#[derive(Debug)]
pub enum StartupStep {
    /// The supervisor has given its first sign.
    Acknowledged,
    /// Look again after this many milliseconds.
    Sleep(u64),
    /// The supervisor will not give a sign.
    Failed(String),
}

/// The view of a [`StartupStep`].
pub enum StartupStepView {
    Acknowledged,
    Sleep(u64),
    Failed(Seq<char>),
}

impl View for StartupStep {
    type V = StartupStepView;

    open spec fn view(&self) -> StartupStepView {
        match *self {
            StartupStep::Acknowledged => StartupStepView::Acknowledged,
            StartupStep::Sleep(millis) => StartupStepView::Sleep(millis),
            StartupStep::Failed(error) => StartupStepView::Failed(error@),
        }
    }
}

/// What a launcher does next. A heartbeat or a result is the first sign; a supervisor that ended
/// without one, or gives none in time, has failed.
pub open spec fn startup(
    heartbeat_exists: bool,
    result_exists: bool,
    ended: Option<Seq<char>>,
    waited_ms: u64,
) -> StartupStepView {
    if heartbeat_exists || result_exists {
        StartupStepView::Acknowledged
    } else {
        match ended {
            Some(status) => StartupStepView::Failed(
                "detached job supervisor ended before it acknowledged its start: "@ + status,
            ),
            None => if waited_ms < STARTUP_TIMEOUT_MS {
                StartupStepView::Sleep(STARTUP_POLL_MS)
            } else {
                StartupStepView::Failed("detached job supervisor did not acknowledge its start"@)
            },
        }
    }
}

/// Decides what a launcher does next.
pub fn startup_step(
    heartbeat_exists: bool,
    result_exists: bool,
    ended: &Option<String>,
    waited_ms: u64,
) -> (step: StartupStep)
    ensures
        step@ == startup(heartbeat_exists, result_exists, optional(*ended), waited_ms),
{
    if heartbeat_exists || result_exists {
        return StartupStep::Acknowledged;
    }
    match ended {
        Some(status) => StartupStep::Failed(
            joined(
                "detached job supervisor ended before it acknowledged its start: ",
                status.as_str(),
            ),
        ),
        None => {
            if waited_ms < STARTUP_TIMEOUT_MS {
                StartupStep::Sleep(STARTUP_POLL_MS)
            } else {
                StartupStep::Failed(
                    "detached job supervisor did not acknowledge its start".to_owned(),
                )
            }
        },
    }
}

/// What is said of a condition after its launch failed.
pub open spec fn condition_recovery(
    cancelled: Result<Option<ConditionView>, Seq<char>>,
    condition_id: Seq<char>,
) -> Seq<char> {
    match cancelled {
        Ok(Some(_)) => "cancelled condition "@ + condition_id,
        Ok(None) => "left replacement condition unchanged after condition "@ + condition_id,
        Err(error) => "failed to cancel condition "@ + condition_id + ": "@ + error,
    }
}

/// What is said of a job after its launch failed.
pub open spec fn job_recovery(recorded: Result<(), Seq<char>>, job_id: Seq<char>) -> Seq<char> {
    match recorded {
        Ok(()) => "retained failed job record "@ + job_id,
        Err(error) => "failed to retain job record "@ + job_id + ": "@ + error,
    }
}

/// What is said of a launch that failed: the error, and what became of the condition and the job.
pub fn launch_failure(
    error: &str,
    cancelled: &Result<Option<Condition>, String>,
    condition_id: &str,
    recorded: &Result<(), String>,
    job_id: &str,
) -> (text: String)
    ensures
        text@ == error@ + "; "@ + condition_recovery(
            crate::session::optional_outcome(*cancelled),
            condition_id@,
        ) + "; "@ + job_recovery(outcome(*recorded), job_id@),
{
    let condition = match cancelled {
        Ok(Some(_)) => joined("cancelled condition ", condition_id),
        Ok(None) => joined(
            "left replacement condition unchanged after condition ",
            condition_id,
        ),
        Err(cause) => {
            let mut text = joined("failed to cancel condition ", condition_id);
            text.append(": ");
            text.append(cause.as_str());
            text
        },
    };
    let job = match recorded {
        Ok(()) => joined("retained failed job record ", job_id),
        Err(cause) => {
            let mut text = joined("failed to retain job record ", job_id);
            text.append(": ");
            text.append(cause.as_str());
            text
        },
    };
    let mut text = joined(error, "; ");
    text.append(condition.as_str());
    text.append("; ");
    text.append(job.as_str());
    text
}

/// What a launch reports.
#[derive(Debug)]
pub struct RunReport {
    pub condition_id: String,
    pub job_id: String,
    pub supervisor_pid: u32,
    pub log_path: String,
    pub timeout_ms: u64,
    pub checkpoint_every_ms: Option<u64>,
}

/// The view of a [`RunReport`].
pub struct RunReportView {
    pub condition_id: Seq<char>,
    pub job_id: Seq<char>,
    pub supervisor_pid: u32,
    pub log_path: Seq<char>,
    pub timeout_ms: u64,
    pub checkpoint_every_ms: Option<u64>,
}

impl View for RunReport {
    type V = RunReportView;

    open spec fn view(&self) -> RunReportView {
        RunReportView {
            condition_id: self.condition_id@,
            job_id: self.job_id@,
            supervisor_pid: self.supervisor_pid,
            log_path: self.log_path@,
            timeout_ms: self.timeout_ms,
            checkpoint_every_ms: self.checkpoint_every_ms,
        }
    }
}

/// What is reported of a launch.
pub open spec fn launch_report(
    condition_id: Seq<char>,
    job_id: Seq<char>,
    supervisor_pid: u32,
    log_path: Seq<char>,
    timeout: Span,
    checkpoint_every: Option<Span>,
) -> RunReportView {
    RunReportView {
        condition_id,
        job_id,
        supervisor_pid,
        log_path,
        timeout_ms: timeout.millis(),
        checkpoint_every_ms: match checkpoint_every {
            Some(every) => Some(every.millis()),
            None => None,
        },
    }
}

/// What a launch reports.
pub fn run_report(
    condition_id: String,
    job_id: String,
    supervisor_pid: u32,
    log_path: String,
    timeout: Span,
    checkpoint_every: Option<Span>,
) -> (report: RunReport)
    ensures
        report@ == launch_report(
            condition_id@,
            job_id@,
            supervisor_pid,
            log_path@,
            timeout,
            checkpoint_every,
        ),
        report@ == (RunReportView {
            condition_id: condition_id@,
            job_id: job_id@,
            supervisor_pid,
            log_path: log_path@,
            timeout_ms: timeout.millis(),
            checkpoint_every_ms: match checkpoint_every {
                Some(every) => Some(every.millis()),
                None => None,
            },
        }),
{
    RunReport {
        condition_id,
        job_id,
        supervisor_pid,
        log_path,
        timeout_ms: duration_ms(timeout),
        checkpoint_every_ms: match checkpoint_every {
            Some(every) => Some(duration_ms(every)),
            None => None,
        },
    }
}

/// Whether checkpoints come so often that it is worth a warning.
pub open spec fn is_frequent(checkpoint_every: Option<Span>) -> bool {
    checkpoint_every matches Some(every) && every.total() < FREQUENT_CHECKPOINT_SECONDS
        * 1_000_000_000
}

/// Whether a checkpoint interval creates model turns so often that it is warned of.
pub fn warn_frequent_checkpoint(checkpoint_every: &Option<Span>) -> (result: bool)
    ensures
        result == is_frequent(*checkpoint_every),
        result == (checkpoint_every matches Some(every) && every.total()
            < FREQUENT_CHECKPOINT_SECONDS * 1_000_000_000),
{
    match checkpoint_every {
        Some(every) => every.nanoseconds() < FREQUENT_CHECKPOINT_SECONDS as u128 * 1_000_000_000,
        None => false,
    }
}

/// What is said of the checkpoints of a condition.
pub open spec fn checkpoint_remark(checkpoint_every: Option<Span>) -> Seq<char> {
    match checkpoint_every {
        None => "terminal-only wakeups"@,
        Some(every) => "checkpoint every "@ + human_duration(every.secs, every.nanos)
            + " creates model turns"@,
    }
}

/// What is said of the checkpoints of a condition.
pub fn checkpoint_note(checkpoint_every: &Option<Span>) -> (note: String)
    requires
        checkpoint_every matches Some(every) ==> every.normal(),
    ensures
        note@ == checkpoint_remark(*checkpoint_every),
{
    match checkpoint_every {
        None => "terminal-only wakeups".to_owned(),
        Some(every) => {
            let mut note = joined(
                "checkpoint every ",
                format_duration(every.secs, every.nanos).as_str(),
            );
            note.append(" creates model turns");
            note
        },
    }
}

/// What is said of a launch.
pub fn run_line(report: &RunReport, checkpoint_every: &Option<Span>) -> (line: String)
    requires
        checkpoint_every matches Some(every) ==> every.normal(),
    ensures
        line@ == "started job "@ + report@.job_id + " (supervisor "@ + decimal(
            report@.supervisor_pid as nat,
        ) + "); log: "@ + report@.log_path + "; "@ + checkpoint_remark(*checkpoint_every)
            + "; finish the Codex turn to wait"@,
{
    let mut line = joined("started job ", report.job_id.as_str());
    line.append(" (supervisor ");
    push_decimal(&mut line, report.supervisor_pid as u64);
    line.append("); log: ");
    line.append(report.log_path.as_str());
    line.append("; ");
    line.append(checkpoint_note(checkpoint_every).as_str());
    line.append("; finish the Codex turn to wait");
    line
}

/// What is said of a condition that was armed.
pub fn arm_line(condition: &Condition, timeout: &Span, checkpoint_every: &Option<Span>) -> (line:
    String)
    requires
        timeout.normal(),
        checkpoint_every matches Some(every) ==> every.normal(),
    ensures
        line@ == "armed condition "@ + condition@.id + " ("@ + (match condition@.label {
            Some(label) => label,
            None => "unnamed"@,
        }) + ") for "@ + human_duration(timeout.secs, timeout.nanos) + "; "@ + checkpoint_remark(
            *checkpoint_every,
        ) + "; finish the Codex turn to wait"@,
{
    let label = match &condition.label {
        Some(label) => label.as_str(),
        None => "unnamed",
    };
    let mut line = joined("armed condition ", condition.id.as_str());
    line.append(" (");
    line.append(label);
    line.append(") for ");
    line.append(format_duration(timeout.secs, timeout.nanos).as_str());
    line.append("; ");
    line.append(checkpoint_note(checkpoint_every).as_str());
    line.append("; finish the Codex turn to wait");
    line
}

/// What is said of a condition that was cancelled.
pub fn cancel_line(condition: &Condition) -> (line: String)
    ensures
        line@ == "cancelled condition "@ + condition@.id
            + "; any supervised job remains unchanged"@,
{
    let mut line = joined("cancelled condition ", condition.id.as_str());
    line.append("; any supervised job remains unchanged");
    line
}

/// An optional value in brackets.
pub open spec fn in_some(value: Option<Seq<char>>) -> Seq<char> {
    match value {
        Some(value) => "Some("@ + value + ")"@,
        None => "None"@,
    }
}

fn wrap_some(value: Option<String>) -> (text: String)
    ensures
        text@ == in_some(optional(value)),
{
    match value {
        Some(value) => {
            let mut text = joined("Some(", value.as_str());
            text.append(")");
            text
        },
        None => "None".to_owned(),
    }
}

/// The line on a condition and its hook.
pub open spec fn condition_line(condition: ConditionView, watcher: WatcherStatusView) -> Seq<char> {
    let phase = match watcher.phase {
        Some(phase) => Some(phase.label()),
        None => None,
    };
    let turn = match watcher.turn_id {
        Some(turn) => Some(debug_quoted(turn)),
        None => None,
    };
    let exit = match condition.last_exit_code {
        Some(code) => Some(signed_decimal(code as int)),
        None => None,
    };
    (match condition.label {
        Some(label) => label,
        None => condition.id,
    }) + ": "@ + condition.status.label() + ", watcher: "@ + watcher.state.label() + ", phase: "@
        + in_some(phase) + ", turn: "@ + in_some(turn) + ", attempts: "@ + decimal(
        condition.attempts as nat,
    ) + ", last exit: "@ + in_some(exit)
}

/// The line on a condition and its hook.
pub fn status_line(condition: &Condition, watcher: &WatcherStatus) -> (line: String)
    ensures
        line@ == condition_line(condition@, watcher@),
{
    let phase = match watcher.phase {
        Some(phase) => Some(phase.name().to_owned()),
        None => None,
    };
    let turn = match &watcher.turn_id {
        Some(turn) => Some(debug_quote(turn.as_str())),
        None => None,
    };
    let exit = match condition.last_exit_code {
        Some(code) => {
            let mut text = String::new();
            push_signed(&mut text, code);
            assert(text@ =~= signed_decimal(code as int));
            Some(text)
        },
        None => None,
    };
    let mut line = match &condition.label {
        Some(label) => label.clone(),
        None => condition.id.clone(),
    };
    line.append(": ");
    line.append(condition.status.name());
    line.append(", watcher: ");
    line.append(watcher.state.name());
    line.append(", phase: ");
    line.append(wrap_some(phase).as_str());
    line.append(", turn: ");
    line.append(wrap_some(turn).as_str());
    line.append(", attempts: ");
    push_decimal(&mut line, condition.attempts);
    line.append(", last exit: ");
    line.append(wrap_some(exit).as_str());
    line
}

/// The job that the condition of a session is attached to.
pub open spec fn attached(
    status: Result<Option<ConditionView>, Seq<char>>,
    session_id: Seq<char>,
) -> Result<JobReferenceView, Seq<char>> {
    match status {
        Err(error) => Err(error),
        Ok(None) => Err("no condition for Codex session "@ + session_id),
        Ok(Some(condition)) => match condition.job {
            Some(job) => Ok(job),
            None => Err(
                "condition "@ + condition.id + " is not attached to a supervised job"@,
            ),
        },
    }
}

/// The job that the condition of a session is attached to.
pub fn attached_job(status: Result<Option<Condition>, String>, session_id: &str) -> (result: Result<
    JobReference,
    String,
>)
    ensures
        outcome_view(result) == attached(
            crate::session::optional_outcome(status),
            session_id@,
        ),
{
    match status {
        Err(error) => Err(error),
        Ok(None) => Err(joined("no condition for Codex session ", session_id)),
        Ok(Some(condition)) => match condition.job {
            Some(job) => Ok(job),
            None => {
                let mut error = joined("condition ", condition.id.as_str());
                error.append(" is not attached to a supervised job");
                Err(error)
            },
        },
    }
}

/// A text, filled up with spaces to a width.
pub open spec fn padded(text: Seq<char>, width: nat) -> Seq<char>
    decreases width,
{
    if text.len() >= width {
        text
    } else {
        padded(text, (width - 1) as nat).push(' ')
    }
}

fn pad(text: &str, width: usize) -> (line: String)
    ensures
        line@ == padded(text@, width as nat),
{
    let mut line = text.to_owned();
    let mut length: usize = text.unicode_len();
    if length >= width {
        return line;
    }
    while length < width
        invariant
            text@.len() <= length <= width,
            line@ == padded(text@, length as nat),
        decreases width - length,
    {
        line.push(' ');
        length = length + 1;
    }
    line
}

/// What became of a file, in one word or two.
pub open spec fn action_word(action: ChangeKind) -> Seq<char> {
    match action {
        ChangeKind::Created => "CREATE"@,
        ChangeKind::Updated => "UPDATE"@,
        ChangeKind::Unchanged => "OK"@,
        ChangeKind::Removed => "REMOVE"@,
        ChangeKind::Missing => "MISSING"@,
        ChangeKind::RetainedModified => "KEEP MODIFIED"@,
    }
}

/// The line on one file.
pub open spec fn change_line(change: FileChangeView) -> Seq<char> {
    "  "@ + padded(action_word(change.action), 13) + " "@ + change.path
}

/// The lines on an installation.
pub open spec fn setup_text(report: SetupReportView) -> Seq<Seq<char>> {
    seq![
        report.scope.label() + " scope"@ + (if report.dry_run {
            " (dry run)"@
        } else {
            ""@
        }) + ":"@,
    ] + report.changes.map_values(|change: FileChangeView| change_line(change))
}

fn line_of_change(change: &FileChange) -> (line: String)
    ensures
        line@ == change_line(change@),
{
    let word = match change.action {
        ChangeKind::Created => "CREATE",
        ChangeKind::Updated => "UPDATE",
        ChangeKind::Unchanged => "OK",
        ChangeKind::Removed => "REMOVE",
        ChangeKind::Missing => "MISSING",
        ChangeKind::RetainedModified => "KEEP MODIFIED",
    };
    let mut line = joined("  ", pad(word, 13).as_str());
    line.append(" ");
    line.append(change.path.as_str());
    line
}

/// The lines on an installation.
pub fn setup_lines(report: &SetupReport) -> (lines: Vec<String>)
    ensures
        texts(lines@) == setup_text(report@),
{
    let mut head = joined(report.scope.as_str(), " scope");
    head.append(
        if report.dry_run {
            " (dry run)"
        } else {
            ""
        },
    );
    head.append(":");
    let ghost first = head@;
    let ghost views = change_views(report.changes@);
    let ghost rest = views.map_values(|change: FileChangeView| change_line(change));
    let mut lines: Vec<String> = Vec::new();
    lines.push(head);
    assert(texts(lines@) =~= seq![first] + rest.take(0));
    let mut index: usize = 0;
    while index < report.changes.len()
        invariant
            index <= report.changes@.len(),
            views == change_views(report.changes@),
            rest == views.map_values(|change: FileChangeView| change_line(change)),
            texts(lines@) == seq![first] + rest.take(index as int),
        decreases report.changes@.len() - index,
    {
        let line = line_of_change(&report.changes[index]);
        let ghost before = texts(lines@);
        assert(line@ == rest[index as int]);
        lines.push(line);
        assert(texts(lines@) =~= before.push(line@));
        assert(texts(lines@) =~= seq![first] + rest.take(index + 1));
        index = index + 1;
    }
    assert(rest.take(index as int) =~= rest);
    assert(setup_text(report@) =~= seq![first] + rest);
    lines
}

/// Whether an uninstall kept nothing back.
pub open spec fn removed_everything(report: SetupReportView) -> bool {
    forall|i: int|
        0 <= i < report.changes.len() ==> (#[trigger] report.changes[i]).action
            != ChangeKind::RetainedModified
}

/// Whether an uninstall left nothing behind: a modified file that was kept spoils it.
pub fn uninstall_is_complete(report: &SetupReport) -> (result: bool)
    ensures
        result == removed_everything(report@),
        result == (forall|i: int|
            0 <= i < report@.changes.len() ==> (#[trigger] report@.changes[i]).action
                != ChangeKind::RetainedModified),
{
    let mut index: usize = 0;
    while index < report.changes.len()
        invariant
            index <= report.changes@.len(),
            forall|i: int|
                0 <= i < index ==> (#[trigger] report@.changes[i]).action
                    != ChangeKind::RetainedModified,
        decreases report.changes@.len() - index,
    {
        assert(report@.changes[index as int] == report.changes@[index as int]@);
        if report.changes[index].action == ChangeKind::RetainedModified {
            return false;
        }
        index = index + 1;
    }
    true
}

/// A status in one word.
pub open spec fn status_word(status: CheckStatus) -> Seq<char> {
    match status {
        CheckStatus::Pass => "PASS"@,
        CheckStatus::Warn => "WARN"@,
        CheckStatus::Fail => "FAIL"@,
    }
}

/// The lines on one check.
pub open spec fn check_text(check: DoctorCheckView) -> Seq<Seq<char>> {
    let line = padded(status_word(check.status), 4) + " "@ + padded(check.name, 24) + " "@
        + check.detail;
    match check.fix {
        Some(fix) => seq![line, "     fix: "@ + fix],
        None => seq![line],
    }
}

/// The lines on some checks.
pub open spec fn checks_text(checks: Seq<DoctorCheckView>) -> Seq<Seq<char>>
    decreases checks.len(),
{
    if checks.len() == 0 {
        seq![]
    } else {
        checks_text(checks.drop_last()) + check_text(checks.last())
    }
}

/// The lines of the doctor.
pub open spec fn doctor_text(checks: Seq<DoctorCheckView>, ok: bool) -> Seq<Seq<char>> {
    checks_text(checks).push(
        "doctor: "@ + (if ok {
            "healthy (warnings may require interactive review)"@
        } else {
            "problems found"@
        }),
    )
}

fn push_check(lines: &mut Vec<String>, check: &DoctorCheck)
    ensures
        texts(final(lines)@) == texts(old(lines)@) + check_text(check@),
{
    broadcast use lemma_texts_push;

    let word = match check.status {
        CheckStatus::Pass => "PASS",
        CheckStatus::Warn => "WARN",
        CheckStatus::Fail => "FAIL",
    };
    let mut line = pad(word, 4);
    line.append(" ");
    line.append(pad(check.name.as_str(), 24).as_str());
    line.append(" ");
    line.append(check.detail.as_str());
    lines.push(line);
    if let Some(fix) = &check.fix {
        lines.push(joined("     fix: ", fix.as_str()));
    }
    assert(texts(lines@) =~= texts(old(lines)@) + check_text(check@));
}

/// The lines of the doctor.
pub fn doctor_lines(report: &DoctorReport) -> (lines: Vec<String>)
    ensures
        texts(lines@) == doctor_text(report@, report.ok),
{
    broadcast use lemma_texts_push;

    let mut lines: Vec<String> = Vec::new();
    let ghost views = report@;
    let mut index: usize = 0;
    assert(views.take(0) =~= seq![]);
    assert(texts(lines@) =~= checks_text(views.take(0)));
    while index < report.checks.len()
        invariant
            index <= report.checks@.len(),
            views == report@,
            texts(lines@) == checks_text(views.take(index as int)),
        decreases report.checks@.len() - index,
    {
        proof {
            let now = views.take(index + 1);
            assert(now.drop_last() =~= views.take(index as int));
            assert(now.last() == report.checks@[index as int]@);
        }
        push_check(&mut lines, &report.checks[index]);
        index = index + 1;
    }
    assert(views.take(index as int) =~= views);
    let verdict = if report.ok {
        "healthy (warnings may require interactive review)"
    } else {
        "problems found"
    };
    lines.push(joined("doctor: ", verdict));
    lines
}

/// The line on a release.
pub open spec fn release_line(report: UpdateReportView) -> Seq<char> {
    if report.update_available {
        "update available: "@ + report.current + " -> "@ + report.latest + " ("@
            + report.release_url + ")"@
    } else {
        "open-wake "@ + report.current + " is current (latest release: "@ + report.latest + ")"@
    }
}

/// The line on a release.
pub fn update_line(report: &UpdateReport) -> (line: String)
    ensures
        line@ == release_line(report@),
{
    if report.update_available {
        let mut line = joined("update available: ", report.current.as_str());
        line.append(" -> ");
        line.append(report.latest.as_str());
        line.append(" (");
        line.append(report.release_url.as_str());
        line.append(")");
        line
    } else {
        let mut line = joined("open-wake ", report.current.as_str());
        line.append(" is current (latest release: ");
        line.append(report.latest.as_str());
        line.append(")");
        line
    }
}

/// What an update does next.
#[derive(Debug, Clone, Copy, PartialEq, Eq, Structural)]
pub enum UpdateStep {
    /// Nothing more.
    Done,
    /// Refuse, as nobody can be asked.
    Refuse,
    /// Ask whether to install.
    Ask,
    /// Install.
    Install,
}

/// What follows from a look at the releases.
pub open spec fn update_decision(
    check_only: bool,
    available: bool,
    agreed: bool,
    terminal: bool,
) -> UpdateStep {
    if check_only || !available {
        UpdateStep::Done
    } else if agreed {
        UpdateStep::Install
    } else if terminal {
        UpdateStep::Ask
    } else {
        UpdateStep::Refuse
    }
}

/// Decides what an update does after the look for a release. Nothing is installed unless a newer
/// release was found, more than a look was asked for, and the user agreed or will be asked.
pub fn update_step(check_only: bool, available: bool, agreed: bool, terminal: bool) -> (step:
    UpdateStep)
    ensures
        step == update_decision(check_only, available, agreed, terminal),
        step == (if check_only || !available {
            UpdateStep::Done
        } else if agreed {
            UpdateStep::Install
        } else if terminal {
            UpdateStep::Ask
        } else {
            UpdateStep::Refuse
        }),
{
    if check_only || !available {
        UpdateStep::Done
    } else if agreed {
        UpdateStep::Install
    } else if terminal {
        UpdateStep::Ask
    } else {
        UpdateStep::Refuse
    }
}

/// Whether an answer agrees.
pub open spec fn confirms(answer: Seq<char>) -> bool {
    trim(answer) == "y"@ || trim(answer) == "Y"@ || trim(answer) == "yes"@ || trim(answer)
        == "YES"@
}

/// Whether an answer agrees.
pub fn is_confirmation(answer: &str) -> (result: bool)
    ensures
        result == confirms(answer@),
        result == (trim(answer@) == "y"@ || trim(answer@) == "Y"@ || trim(answer@) == "yes"@
            || trim(answer@) == "YES"@),
{
    let word = trimmed(answer);
    same_text(word.as_str(), "y") || same_text(word.as_str(), "Y") || same_text(
        word.as_str(),
        "yes",
    ) || same_text(word.as_str(), "YES")
}

/// The Codex home of the environment: `CODEX_HOME`, or else `.codex` below the home directory.
pub open spec fn codex_home(
    explicit: Option<Seq<char>>,
    home: Option<Seq<char>>,
) -> Option<Seq<char>> {
    match (explicit, home) {
        (Some(path), _) => Some(path),
        (None, Some(home)) => Some(path_join(home, ".codex"@)),
        (None, None) => None,
    }
}

/// The Codex home of the environment.
pub fn resolve_codex_home(explicit: Option<String>, home: Option<String>) -> (path: Option<String>)
    ensures
        optional(path) == codex_home(optional(explicit), optional(home)),
{
    match (explicit, home) {
        (Some(path), _) => Some(path),
        (None, Some(home)) => Some(join_path(home.as_str(), ".codex")),
        (None, None) => None,
    }
}

/// The configuration of Codex.
pub open spec fn codex_config(
    explicit: Option<Seq<char>>,
    home: Option<Seq<char>>,
) -> Option<Seq<char>> {
    match codex_home(explicit, home) {
        Some(directory) => Some(path_join(directory, "config.toml"@)),
        None => None,
    }
}

/// The Codex configuration of the environment.
pub fn resolve_codex_config_path(explicit: Option<String>, home: Option<String>) -> (path: Option<
    String,
>)
    ensures
        optional(path) == codex_config(optional(explicit), optional(home)),
        optional(path) == match codex_home(optional(explicit), optional(home)) {
            Some(directory) => Some(path_join(directory, "config.toml"@)),
            None => None,
        },
{
    match resolve_codex_home(explicit, home) {
        Some(directory) => Some(join_path(directory.as_str(), "config.toml")),
        None => None,
    }
}

/// The root of a project: what version control says, if it says anything.
pub open spec fn project_root(directory: Seq<char>, toplevel: Option<Seq<u8>>) -> Seq<char> {
    match toplevel {
        Some(bytes) => if trim(lossy_text(bytes)).len() > 0 {
            trim(lossy_text(bytes))
        } else {
            directory
        },
        None => directory,
    }
}

/// The root of a repository: what git names, if it names anything, or else the directory itself.
/// `toplevel` is what git printed, if it succeeded.
pub fn resolve_project_root(directory: String, toplevel: &Option<Vec<u8>>) -> (root: String)
    ensures
        root@ == project_root(
            directory@,
            match *toplevel {
                Some(bytes) => Some(bytes@),
                None => None,
            },
        ),
        root@ == match *toplevel {
            Some(bytes) => if trim(lossy_text(bytes@)).len() > 0 {
                trim(lossy_text(bytes@))
            } else {
                directory@
            },
            None => directory@,
        },
{
    if let Some(bytes) = toplevel {
        let root = trimmed(read_lossy(bytes.as_slice()).as_str());
        if !root.as_str().is_empty() {
            return root;
        }
    }
    directory
}

/// Only a continuation asks Codex to go on.
pub proof fn only_a_continuation_blocks(result: HookResultView)
    ensures
        crate::json::member(hook_answer(result), "decision"@) is Some <==> result is Continue,
        result matches HookResultView::Continue(reason) ==> crate::json::member(
            hook_answer(result),
            "decision"@,
        ) == Some(JsonView::Text("block"@)) && crate::json::member(hook_answer(result), "reason"@)
            == Some(JsonView::Text(reason)),
{
    reveal_strlit("decision");
    reveal_strlit("reason");
    assert("decision"@.len() != "reason"@.len());
}

} // verus!
