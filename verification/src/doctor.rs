//! The doctor: what was observed of an installation, and what that says about its health.
use vstd::prelude::*;

use crate::condition::{
    elapsed, ArmRequest, ArmRequestView, Condition, ConditionStatus, ConditionView,
};
use crate::download::{CommandOutcome, CommandOutcomeView};
use crate::hook::{HookResult, HookResultView};
use crate::job::{JobSnapshot, JobSnapshotView, JobState};
use crate::job_list::job_views;
use crate::lease::WatcherState;
use crate::message::{lossy_text, read_lossy};
use crate::session::{ConditionSnapshot, ConditionSnapshotView};
use crate::span::Span;
use crate::setup::{InstallScope, SetupFiles, SetupTarget, SkillFiles, SkillFilesView};
use crate::text::{
    contains_text, holds_text, joined, lines, lines_of, optional, outcome, outcome_view, same_text,
    texts, trim, trimmed, words, words_of,
};
use crate::uninstall::{
    hook_problem, inspect_hook, inspect_hook_enabled, inspect_skill, skill_problem, target_enabled,
};
use crate::update::UpdateReport;

verus! {

/// How a check went.
#[derive(Debug, Clone, Copy, PartialEq, Eq, Structural)]
pub enum CheckStatus {
    Pass,
    Warn,
    Fail,
}

/// One check.
#[derive(Debug)]
pub struct DoctorCheck {
    pub name: String,
    pub status: CheckStatus,
    pub detail: String,
    pub fix: Option<String>,
}

/// The view of a [`DoctorCheck`].
pub struct DoctorCheckView {
    pub name: Seq<char>,
    pub status: CheckStatus,
    pub detail: Seq<char>,
    pub fix: Option<Seq<char>>,
}

impl View for DoctorCheck {
    type V = DoctorCheckView;

    open spec fn view(&self) -> DoctorCheckView {
        DoctorCheckView {
            name: self.name@,
            status: self.status,
            detail: self.detail@,
            fix: optional(self.fix),
        }
    }
}

/// All checks, and whether none of them failed.
#[derive(Debug)]
pub struct DoctorReport {
    pub ok: bool,
    pub checks: Vec<DoctorCheck>,
}

impl View for DoctorReport {
    type V = Seq<DoctorCheckView>;

    open spec fn view(&self) -> Seq<DoctorCheckView> {
        self.checks@.map_values(|check: DoctorCheck| check@)
    }
}

/// Whether none of some checks failed.
pub open spec fn none_failed(checks: Seq<DoctorCheckView>) -> bool {
    forall|i: int| 0 <= i < checks.len() ==> (#[trigger] checks[i]).status != CheckStatus::Fail
}

impl DoctorReport {
    /// Whether the verdict agrees with the checks.
    pub open spec fn well_formed(&self) -> bool {
        self.ok == none_failed(self@)
    }

    /// A report without checks.
    pub fn new() -> (report: DoctorReport)
        ensures
            report@ == Seq::<DoctorCheckView>::empty(),
            report.ok,
            report.well_formed(),
    {
        let report = DoctorReport { ok: true, checks: Vec::new() };
        assert(report@ =~= Seq::<DoctorCheckView>::empty());
        report
    }

    /// Adds a check. One that failed spoils the report.
    pub fn push(&mut self, check: DoctorCheck)
        ensures
            final(self)@ == old(self)@.push(check@),
            final(self).ok == (old(self).ok && check.status != CheckStatus::Fail),
            old(self).well_formed() ==> final(self).well_formed(),
    {
        if check.status == CheckStatus::Fail {
            self.ok = false;
        }
        self.checks.push(check);
        proof {
            assert(self@ =~= old(self)@.push(check@));
            if old(self).well_formed() {
                if self.ok {
                    assert(none_failed(self@));
                } else if check.status == CheckStatus::Fail {
                    assert(self@[self@.len() - 1].status == CheckStatus::Fail);
                } else {
                    let i = choose|i: int|
                        0 <= i < old(self)@.len() && (#[trigger] old(self)@[i]).status
                            == CheckStatus::Fail;
                    assert(self@[i] == old(self)@[i]);
                }
            }
        }
    }
}

impl Default for DoctorReport {
    fn default() -> (report: DoctorReport)
        ensures
            report@ == Seq::<DoctorCheckView>::empty(),
            report.ok,
    {
        DoctorReport::new()
    }
}

/// A check that passed.
pub open spec fn pass(name: Seq<char>, detail: Seq<char>) -> DoctorCheckView {
    DoctorCheckView { name, status: CheckStatus::Pass, detail, fix: None }
}

/// A check that calls for attention.
pub open spec fn warn(name: Seq<char>, detail: Seq<char>, fix: Seq<char>) -> DoctorCheckView {
    DoctorCheckView { name, status: CheckStatus::Warn, detail, fix: Some(fix) }
}

/// A check that failed.
pub open spec fn fail(name: Seq<char>, detail: Seq<char>, fix: Seq<char>) -> DoctorCheckView {
    DoctorCheckView { name, status: CheckStatus::Fail, detail, fix: Some(fix) }
}

fn passed(name: &str, detail: String) -> (check: DoctorCheck)
    ensures
        check@ == pass(name@, detail@),
{
    DoctorCheck { name: name.to_owned(), status: CheckStatus::Pass, detail, fix: None }
}

fn warned(name: &str, detail: String, fix: &str) -> (check: DoctorCheck)
    ensures
        check@ == warn(name@, detail@, fix@),
{
    DoctorCheck {
        name: name.to_owned(),
        status: CheckStatus::Warn,
        detail,
        fix: Some(fix.to_owned()),
    }
}

fn failed(name: &str, detail: String, fix: &str) -> (check: DoctorCheck)
    ensures
        check@ == fail(name@, detail@, fix@),
{
    DoctorCheck {
        name: name.to_owned(),
        status: CheckStatus::Fail,
        detail,
        fix: Some(fix.to_owned()),
    }
}

/// What the running program is.
#[derive(Debug)]
pub enum BinaryState {
    Executable,
    NotExecutable,
    Failed(String),
}

/// The check of the running program.
pub open spec fn binary_check(path: Seq<char>, binary: BinaryState) -> DoctorCheckView {
    let fix = "reinstall open-wake with `cargo install --path . --locked`"@;
    match binary {
        BinaryState::Executable => pass("executable"@, path),
        BinaryState::NotExecutable => fail(
            "executable"@,
            path + " is not an executable file"@,
            fix,
        ),
        BinaryState::Failed(error) => fail(
            "executable"@,
            "inspect "@ + path + ": "@ + error@,
            fix,
        ),
    }
}

fn inspect_binary(path: &str, binary: &BinaryState) -> (check: DoctorCheck)
    ensures
        check@ == binary_check(path@, *binary),
{
    let fix = "reinstall open-wake with `cargo install --path . --locked`";
    match binary {
        BinaryState::Executable => passed("executable", path.to_owned()),
        BinaryState::NotExecutable => failed(
            "executable",
            joined(path, " is not an executable file"),
            fix,
        ),
        BinaryState::Failed(error) => {
            let mut detail = joined("inspect ", path);
            detail.append(": ");
            detail.append(error.as_str());
            failed("executable", detail, fix)
        },
    }
}

/// The check of the Codex program.
pub open spec fn codex_check(version: CommandOutcomeView) -> DoctorCheckView {
    match version {
        CommandOutcomeView::Ended { success, status, stdout, stderr } => if success {
            pass("codex_cli"@, trim(lossy_text(stdout)))
        } else {
            fail(
                "codex_cli"@,
                "`codex --version` exited with "@ + status,
                "install or repair Codex CLI, then rerun `open-wake doctor`"@,
            )
        },
        CommandOutcomeView::NotFound(error) | CommandOutcomeView::Failed(error) => fail(
            "codex_cli"@,
            "could not run `codex --version`: "@ + error,
            "install Codex CLI and ensure `codex` is on PATH"@,
        ),
    }
}

/// Whether a line of the feature list says that hooks are on.
pub open spec fn enables_hooks(line: Seq<char>) -> bool {
    let columns = words(line);
    columns.len() > 0 && columns.first() == "hooks"@ && columns.last() == "true"@
}

/// Whether a feature list says that hooks are on.
pub open spec fn lists_hooks(listing: Seq<char>) -> bool {
    exists|i: int| 0 <= i < lines(listing).len() && enables_hooks(#[trigger] lines(listing)[i])
}

/// The check of the hooks feature.
pub open spec fn hooks_check(features: CommandOutcomeView) -> DoctorCheckView {
    match features {
        CommandOutcomeView::Ended { success, status, stdout, stderr } => if !success {
            fail(
                "codex_hooks"@,
                "`codex features list` exited with "@ + status,
                "upgrade or repair Codex CLI"@,
            )
        } else if lists_hooks(lossy_text(stdout)) {
            pass("codex_hooks"@, "Codex reports the hooks feature enabled"@)
        } else {
            fail(
                "codex_hooks"@,
                "Codex does not report the hooks feature enabled"@,
                "upgrade Codex CLI to a release with hooks enabled"@,
            )
        },
        CommandOutcomeView::NotFound(error) | CommandOutcomeView::Failed(error) => fail(
            "codex_hooks"@,
            "could not inspect Codex features: "@ + error,
            "install Codex CLI and ensure `codex` is on PATH"@,
        ),
    }
}

fn inspect_codex_version(version: &CommandOutcome) -> (check: DoctorCheck)
    ensures
        check@ == codex_check(version@),
{
    match version {
        CommandOutcome::Ended { success, status, stdout, stderr: _ } => {
            if *success {
                passed("codex_cli", trimmed(read_lossy(stdout.as_slice()).as_str()))
            } else {
                failed(
                    "codex_cli",
                    joined("`codex --version` exited with ", status.as_str()),
                    "install or repair Codex CLI, then rerun `open-wake doctor`",
                )
            }
        },
        CommandOutcome::NotFound(error) | CommandOutcome::Failed(error) => failed(
            "codex_cli",
            joined("could not run `codex --version`: ", error.as_str()),
            "install Codex CLI and ensure `codex` is on PATH",
        ),
    }
}

fn hooks_are_listed(listing: &str) -> (result: bool)
    ensures
        result == lists_hooks(listing@),
{
    let rows = lines_of(listing);
    let ghost views = lines(listing@);
    let mut index: usize = 0;
    while index < rows.len()
        invariant
            views == texts(rows@),
            views == lines(listing@),
            index <= rows@.len(),
            forall|i: int| 0 <= i < index ==> !enables_hooks(#[trigger] views[i]),
        decreases rows@.len() - index,
    {
        let columns = words_of(rows[index].as_str());
        assert(views[index as int] == rows@[index as int]@);
        assert(texts(columns@).len() == columns@.len());
        if columns.len() > 0 {
            let last: usize = columns.len() - 1;
            if same_text(columns[0].as_str(), "hooks") && same_text(
                columns[last].as_str(),
                "true",
            ) {
                assert(enables_hooks(views[index as int]));
                return true;
            }
        }
        index = index + 1;
    }
    false
}

fn inspect_codex_features(features: &CommandOutcome) -> (check: DoctorCheck)
    ensures
        check@ == hooks_check(features@),
{
    match features {
        CommandOutcome::Ended { success, status, stdout, stderr: _ } => {
            if !*success {
                failed(
                    "codex_hooks",
                    joined("`codex features list` exited with ", status.as_str()),
                    "upgrade or repair Codex CLI",
                )
            } else if hooks_are_listed(read_lossy(stdout.as_slice()).as_str()) {
                passed("codex_hooks", "Codex reports the hooks feature enabled".to_owned())
            } else {
                failed(
                    "codex_hooks",
                    "Codex does not report the hooks feature enabled".to_owned(),
                    "upgrade Codex CLI to a release with hooks enabled",
                )
            }
        },
        CommandOutcome::NotFound(error) | CommandOutcome::Failed(error) => failed(
            "codex_hooks",
            joined("could not inspect Codex features: ", error.as_str()),
            "install Codex CLI and ensure `codex` is on PATH",
        ),
    }
}

/// The request of a trial of the wake protocol.
pub open spec fn trial(directory: Seq<char>, session_id: Seq<char>) -> ArmRequestView {
    ArmRequestView {
        session_id,
        label: Some("doctor smoke test"@),
        cwd: directory,
        command: seq!["sh"@, "-c"@, "printf doctor-ok"@],
        timeout: Span { secs: 2, nanos: 0 },
        poll_every: Span { secs: 0, nanos: 50_000_000 },
        check_timeout: Span { secs: 1, nanos: 0 },
        checkpoint_every: None,
        job: None,
    }
}

/// The request of a trial of the wake protocol. It is never refused where its directory exists.
pub fn trial_request(directory: &str, session_id: &str) -> (request: ArmRequest)
    ensures
        request@ == trial(directory@, session_id@),
        request@.problem(true) is None,
{
    let mut command: Vec<String> = Vec::new();
    command.push("sh".to_owned());
    command.push("-c".to_owned());
    command.push("printf doctor-ok".to_owned());
    assert(texts(command@) =~= seq!["sh"@, "-c"@, "printf doctor-ok"@]);
    ArmRequest {
        session_id: session_id.to_owned(),
        label: Some("doctor smoke test".to_owned()),
        cwd: directory.to_owned(),
        command,
        timeout: Span { secs: 2, nanos: 0 },
        poll_every: Span { secs: 0, nanos: 50_000_000 },
        check_timeout: Span { secs: 1, nanos: 0 },
        checkpoint_every: None,
        job: None,
    }
}

/// What a trial of the wake protocol showed: the answer of the hook, and the condition afterwards.
pub open spec fn trial_verdict(answer: HookResultView, condition: Option<ConditionView>) -> Result<
    (),
    Seq<char>,
> {
    if !(answer matches HookResultView::Continue(reason) && holds_text(reason, "doctor-ok"@)) {
        Err("Stop hook did not produce the expected continuation"@)
    } else {
        match condition {
            None => Err("doctor condition disappeared"@),
            Some(condition) => if condition.status == ConditionStatus::Succeeded {
                Ok(())
            } else {
                Err("doctor condition resolved as "@ + condition.status.label())
            },
        }
    }
}

/// Judges a trial of the wake protocol.
pub fn judge_trial(answer: &HookResult, condition: &Option<Condition>) -> (result: Result<
    (),
    String,
>)
    ensures
        outcome(result) == trial_verdict(answer@, optional(*condition)),
{
    let expected = match answer {
        HookResult::Continue(reason) => contains_text(reason.as_str(), "doctor-ok"),
        HookResult::Noop => false,
    };
    if !expected {
        return Err("Stop hook did not produce the expected continuation".to_owned());
    }
    match condition {
        None => Err("doctor condition disappeared".to_owned()),
        Some(condition) => if condition.status == ConditionStatus::Succeeded {
            Ok(())
        } else {
            Err(joined("doctor condition resolved as ", condition.status.name()))
        },
    }
}

/// The check of the wake protocol.
pub open spec fn protocol_check(trial: Result<(), Seq<char>>) -> DoctorCheckView {
    match trial {
        Ok(()) => pass("wake_protocol"@, "arm, Stop hook, and continuation smoke test passed"@),
        Err(error) => fail(
            "wake_protocol"@,
            error,
            "rerun with `RUST_BACKTRACE=1 open-wake doctor` and report the output"@,
        ),
    }
}

fn inspect_protocol(trial: &Result<(), String>) -> (check: DoctorCheck)
    ensures
        check@ == protocol_check(outcome(*trial)),
{
    match trial {
        Ok(()) => passed(
            "wake_protocol",
            "arm, Stop hook, and continuation smoke test passed".to_owned(),
        ),
        Err(error) => failed(
            "wake_protocol",
            error.clone(),
            "rerun with `RUST_BACKTRACE=1 open-wake doctor` and report the output",
        ),
    }
}

/// The check of a directory that records go into.
pub open spec fn directory_check(name: Seq<char>, path: Seq<char>, writable: bool) -> DoctorCheckView {
    if writable {
        pass(name, path)
    } else {
        fail(
            name,
            path + " cannot be created or written"@,
            "choose a writable directory with OPEN_WAKE_STATE_DIR or OPEN_WAKE_JOB_DIR"@,
        )
    }
}

fn inspect_directory(name: &str, path: &str, writable: bool) -> (check: DoctorCheck)
    ensures
        check@ == directory_check(name@, path@, writable),
{
    if writable {
        passed(name, path.to_owned())
    } else {
        failed(
            name,
            joined(path, " cannot be created or written"),
            "choose a writable directory with OPEN_WAKE_STATE_DIR or OPEN_WAKE_JOB_DIR",
        )
    }
}

/// Whether the outcome of a condition is still open: it is active, or a legacy cancellation has
/// not been normalized.
pub open spec fn unsettled(condition: ConditionView) -> bool {
    condition.status.active() || condition.status == ConditionStatus::CancelRequested
}

/// Whether a condition shows that Codex did not invoke the hook: it was never checked, although its
/// deadline has passed or its job has ended.
pub open spec fn hook_was_missed(
    condition: ConditionView,
    job: Option<Result<JobSnapshotView, Seq<char>>>,
    now_ms: u64,
) -> bool {
    condition.attempts == 0 && ((unsettled(condition) && condition.expired(now_ms)) || (
    condition.status == ConditionStatus::Armed && (job matches Some(Ok(job)) && job.ready())))
}

/// What is said of a condition whose hook was missed.
pub open spec fn missed_check(condition: ConditionView) -> DoctorCheckView {
    fail(
        "session_condition"@,
        "condition "@ + condition.id
            + " was never checked: Codex did not invoke the configured Stop hook"@,
        "review and trust the hook in `/hooks`, restart Codex, then run `open-wake cancel` and arm again"@,
    )
}

/// What is said of an attached job whose records cannot be read.
pub open spec fn lost_job_check(error: Seq<char>) -> DoctorCheckView {
    fail(
        "session_job"@,
        "the attached job is unavailable and its outcome is unknown: "@ + error,
        "inspect the recorded job directory and log before launching the command again"@,
    )
}

/// What is said of a waiting condition whose hook is gone.
pub open spec fn stale_hook_check(condition: ConditionView) -> DoctorCheckView {
    fail(
        "session_hook"@,
        "condition "@ + condition.id + " is waiting, but its hook lease is stale"@,
        "finish the current turn so the next Stop hook can recover it; run `open-wake cancel` only to abandon its notifications"@,
    )
}

/// Some checks, if there is reason for them.
pub open spec fn checks_if(reason: bool, check: DoctorCheckView) -> Seq<DoctorCheckView> {
    if reason {
        seq![check]
    } else {
        seq![]
    }
}

/// The problems of a condition.
pub open spec fn condition_problems(
    snapshot: ConditionSnapshotView,
    job: Option<Result<JobSnapshotView, Seq<char>>>,
    now_ms: u64,
) -> Seq<DoctorCheckView> {
    let condition = snapshot.condition;
    checks_if(hook_was_missed(condition, job, now_ms), missed_check(condition)) + checks_if(
        job matches Some(Err(_)),
        lost_job_check(job->0->Err_0),
    ) + checks_if(
        condition.status == ConditionStatus::Waiting && snapshot.watcher.state
            == WatcherState::Stale,
        stale_hook_check(condition),
    )
}

/// What was observed of the current session.
#[derive(Debug)]
pub struct SessionInput {
    pub snapshot: Result<Option<ConditionSnapshot>, String>,
    /// The records of the attached job, if there is one.
    pub job: Option<Result<JobSnapshot, String>>,
}

/// The view of an attached job.
pub open spec fn job_view(job: Option<Result<JobSnapshot, String>>) -> Option<
    Result<JobSnapshotView, Seq<char>>,
> {
    match job {
        Some(job) => Some(outcome_view(job)),
        None => None,
    }
}

/// The checks of the current session.
pub open spec fn session_checks(session: Option<SessionInput>, now_ms: u64) -> Seq<
    DoctorCheckView,
> {
    match session {
        None => seq![],
        Some(session) => match session.snapshot {
            Err(error) => seq![
                fail(
                    "session_condition"@,
                    error@,
                    "inspect the condition record; it is never replaced while it is unreadable"@,
                ),
            ],
            Ok(None) => seq![
                pass("session_condition"@, "no condition for the current Codex session"@),
            ],
            Ok(Some(snapshot)) => {
                let problems = condition_problems(snapshot@, job_view(session.job), now_ms);
                if problems.len() == 0 {
                    seq![
                        pass(
                            "session_condition"@,
                            "condition "@ + snapshot@.condition.id + " is "@
                                + snapshot@.condition.status.label(),
                        ),
                    ]
                } else {
                    problems
                }
            },
        },
    }
}

fn inspect_condition_problems(
    snapshot: &ConditionSnapshot,
    job: &Option<Result<JobSnapshot, String>>,
    now_ms: u64,
    report: &mut DoctorReport,
)
    requires
        old(report).well_formed(),
    ensures
        final(report)@ == old(report)@ + condition_problems(snapshot@, job_view(*job), now_ms),
        final(report).well_formed(),
{
    let condition = &snapshot.condition;
    let open = condition.status.is_active() || condition.status == ConditionStatus::CancelRequested;
    let expired = elapsed(now_ms, condition.created_at_ms) >= condition.timeout_ms;
    let ended = match job {
        Some(Ok(job)) => job.is_ready(),
        _ => false,
    };
    let armed = condition.status == ConditionStatus::Armed;
    let ghost first = old(report)@ + checks_if(
        hook_was_missed(condition@, job_view(*job), now_ms),
        missed_check(condition@),
    );
    if condition.attempts == 0 && ((open && expired) || (armed && ended)) {
        let mut detail = joined("condition ", condition.id.as_str());
        detail.append(" was never checked: Codex did not invoke the configured Stop hook");
        report.push(
            failed(
                "session_condition",
                detail,
                "review and trust the hook in `/hooks`, restart Codex, then run `open-wake cancel` and arm again",
            ),
        );
    }
    assert(report@ =~= first);
    let ghost second = first + checks_if(
        job_view(*job) matches Some(Err(_)),
        lost_job_check(job_view(*job)->0->Err_0),
    );
    if let Some(Err(error)) = job {
        report.push(
            failed(
                "session_job",
                joined(
                    "the attached job is unavailable and its outcome is unknown: ",
                    error.as_str(),
                ),
                "inspect the recorded job directory and log before launching the command again",
            ),
        );
    }
    assert(report@ =~= second);
    if condition.status == ConditionStatus::Waiting && snapshot.watcher.state
        == WatcherState::Stale {
        let mut detail = joined("condition ", condition.id.as_str());
        detail.append(" is waiting, but its hook lease is stale");
        report.push(
            failed(
                "session_hook",
                detail,
                "finish the current turn so the next Stop hook can recover it; run `open-wake cancel` only to abandon its notifications",
            ),
        );
    }
    assert(report@ =~= old(report)@ + condition_problems(snapshot@, job_view(*job), now_ms));
}

fn inspect_session(session: &Option<SessionInput>, now_ms: u64, report: &mut DoctorReport)
    requires
        old(report).well_formed(),
    ensures
        final(report)@ == old(report)@ + session_checks(*session, now_ms),
        final(report).well_formed(),
{
    let session = match session {
        Some(session) => session,
        None => {
            assert(report@ =~= old(report)@ + Seq::<DoctorCheckView>::empty());
            return;
        },
    };
    match &session.snapshot {
        Err(error) => report.push(
            failed(
                "session_condition",
                error.clone(),
                "inspect the condition record; it is never replaced while it is unreadable",
            ),
        ),
        Ok(None) => report.push(
            passed("session_condition", "no condition for the current Codex session".to_owned()),
        ),
        Ok(Some(snapshot)) => {
            let before: usize = report.checks.len();
            inspect_condition_problems(snapshot, &session.job, now_ms, report);
            if report.checks.len() == before {
                let mut detail = joined("condition ", snapshot.condition.id.as_str());
                detail.append(" is ");
                detail.append(snapshot.condition.status.name());
                report.push(passed("session_condition", detail));
            }
        },
    }
    assert(report@ =~= old(report)@ + session_checks(Some(*session), now_ms));
}

/// What is said of a job whose supervisor gives no sign.
pub open spec fn stale_job_check(job: JobSnapshotView) -> DoctorCheckView {
    warn(
        "supervised_job"@,
        "job "@ + job.id + " has a stale supervisor heartbeat; its command may still be running; log: "@
            + job.log_path,
        "inspect the log and the process before stopping or repeating anything"@,
    )
}

/// The checks of the jobs whose supervisors give no sign.
pub open spec fn stale_job_checks(jobs: Seq<JobSnapshotView>) -> Seq<DoctorCheckView>
    decreases jobs.len(),
{
    if jobs.len() == 0 {
        seq![]
    } else if jobs.last().state == JobState::Stale {
        stale_job_checks(jobs.drop_last()).push(stale_job_check(jobs.last()))
    } else {
        stale_job_checks(jobs.drop_last())
    }
}

/// The checks of the supervised jobs.
pub open spec fn job_checks(jobs: Result<Vec<JobSnapshot>, String>) -> Seq<DoctorCheckView> {
    match jobs {
        Err(error) => seq![
            warn(
                "supervised_jobs"@,
                "could not inspect supervised jobs: "@ + error@,
                "inspect the job directory"@,
            ),
        ],
        Ok(jobs) => {
            let stale = stale_job_checks(job_views(jobs@));
            if stale.len() == 0 {
                seq![pass("supervised_jobs"@, "no stale supervised job was found"@)]
            } else {
                stale
            }
        },
    }
}

fn inspect_jobs(jobs: &Result<Vec<JobSnapshot>, String>, report: &mut DoctorReport)
    requires
        old(report).well_formed(),
    ensures
        final(report)@ == old(report)@ + job_checks(*jobs),
        final(report).well_formed(),
{
    let list = match jobs {
        Ok(list) => list,
        Err(error) => {
            report.push(
                warned(
                    "supervised_jobs",
                    joined("could not inspect supervised jobs: ", error.as_str()),
                    "inspect the job directory",
                ),
            );
            assert(report@ =~= old(report)@ + job_checks(*jobs));
            return;
        },
    };
    let before: usize = report.checks.len();
    let ghost views = job_views(list@);
    let ghost given = report@;
    let mut index: usize = 0;
    assert(views.take(0) =~= seq![]);
    assert(report@ =~= given + stale_job_checks(views.take(0)));
    while index < list.len()
        invariant
            index <= list@.len(),
            views == job_views(list@),
            report@ == given + stale_job_checks(views.take(index as int)),
            report.well_formed(),
        decreases list@.len() - index,
    {
        let job = &list[index];
        proof {
            let now = views.take(index + 1);
            assert(now.drop_last() =~= views.take(index as int));
            assert(now.last() == job@);
        }
        if job.state == JobState::Stale {
            let mut detail = joined("job ", job.id.as_str());
            detail.append(
                " has a stale supervisor heartbeat; its command may still be running; log: ",
            );
            detail.append(job.log_path.as_str());
            report.push(
                warned(
                    "supervised_job",
                    detail,
                    "inspect the log and the process before stopping or repeating anything",
                ),
            );
        }
        assert(report@ =~= given + stale_job_checks(views.take(index + 1)));
        index = index + 1;
    }
    assert(views.take(index as int) =~= views);
    if report.checks.len() == before {
        report.push(
            passed("supervised_jobs", "no stale supervised job was found".to_owned()),
        );
    }
    assert(report@ =~= given + job_checks(*jobs));
}

/// The checks of the published release. Without a lookup there are none.
pub open spec fn release_checks(release: Option<Result<UpdateReport, String>>) -> Seq<
    DoctorCheckView,
> {
    match release {
        None => seq![],
        Some(Ok(update)) => if update.update_available {
            seq![
                warn(
                    "release_update"@,
                    "open-wake "@ + update.latest@ + " is available; current version is "@
                        + update.current@,
                    "run `open-wake update`"@,
                ),
            ]
        } else {
            seq![
                pass(
                    "release_update"@,
                    "open-wake "@ + update.current@ + " is the latest release"@,
                ),
            ]
        },
        Some(Err(error)) => seq![
            warn(
                "release_update"@,
                "could not check GitHub Releases: "@ + error@,
                "check the network or set `OPEN_WAKE_NO_UPDATE_CHECK=1` for offline doctor runs"@,
            ),
        ],
    }
}

fn inspect_release(release: &Option<Result<UpdateReport, String>>, report: &mut DoctorReport)
    requires
        old(report).well_formed(),
    ensures
        final(report)@ == old(report)@ + release_checks(*release),
        final(report).well_formed(),
{
    match release {
        None => {},
        Some(Ok(update)) => {
            if update.update_available {
                let mut detail = joined("open-wake ", update.latest.as_str());
                detail.append(" is available; current version is ");
                detail.append(update.current.as_str());
                report.push(warned("release_update", detail, "run `open-wake update`"));
            } else {
                let mut detail = joined("open-wake ", update.current.as_str());
                detail.append(" is the latest release");
                report.push(passed("release_update", detail));
            }
        },
        Some(Err(error)) => report.push(
            warned(
                "release_update",
                joined("could not check GitHub Releases: ", error.as_str()),
                "check the network or set `OPEN_WAKE_NO_UPDATE_CHECK=1` for offline doctor runs",
            ),
        ),
    }
    assert(report@ =~= old(report)@ + release_checks(*release));
}

/// What was observed of one installation.
#[derive(Debug)]
pub struct TargetInput {
    pub target: SetupTarget,
    pub files: SetupFiles,
    /// Whether `open-wake` is an executable on the search path.
    pub command_on_path: bool,
}

/// The checks of one installation.
pub open spec fn target_checks(input: TargetInput, skill: SkillFilesView) -> Seq<DoctorCheckView> {
    let target = input.target@;
    let prefix = target.scope.label();
    let setup = "open-wake setup --scope "@ + prefix;
    let hook = match hook_problem(target, input.files@.hook) {
        None => pass(prefix + "_hook"@, target.hook_path),
        Some(problem) => fail(prefix + "_hook"@, problem, setup),
    };
    let enabled = match target_enabled(target, input.files@.hook, input.files@.config) {
        Ok(true) => pass(prefix + "_hook_enabled"@, "the managed hook is enabled in Codex state"@),
        Ok(false) => fail(
            prefix + "_hook_enabled"@,
            "the managed hook is disabled in Codex state"@,
            setup,
        ),
        Err(error) => fail(prefix + "_hook_enabled"@, error, setup),
    };
    let installed = match skill_problem(target, skill, input.files@) {
        None => pass(prefix + "_skill"@, target.skill_dir),
        Some(problem) => fail(prefix + "_skill"@, problem, setup),
    };
    let command = checks_if(
        target.scope == InstallScope::Project && !input.command_on_path,
        fail(
            "project_hook_command"@,
            "project hooks use `open-wake hook`, but `open-wake` is not on PATH"@,
            "install it with `cargo install --path . --locked`"@,
        ),
    );
    let trust = warn(
        prefix + "_hook_trust"@,
        "hook trust is interactive Codex state and cannot be verified non-interactively"@,
        "open `/hooks`, review the command, and trust this hook definition"@,
    );
    seq![hook, enabled, installed] + command + seq![trust]
}

fn inspect_target(input: &TargetInput, skill: &SkillFiles, report: &mut DoctorReport)
    requires
        old(report).well_formed(),
    ensures
        final(report)@ == old(report)@ + target_checks(*input, skill@),
        final(report).well_formed(),
{
    let target = &input.target;
    let prefix = target.scope.as_str();
    let setup = target.setup_command();
    let hook_name = joined(prefix, "_hook");
    match inspect_hook(target, &input.files.hook) {
        Ok(()) => report.push(passed(hook_name.as_str(), target.hook_path.clone())),
        Err(error) => report.push(failed(hook_name.as_str(), error, setup.as_str())),
    }
    let enabled_name = joined(prefix, "_hook_enabled");
    match inspect_hook_enabled(target, &input.files.hook, &input.files.config) {
        Ok(true) => report.push(
            passed(
                enabled_name.as_str(),
                "the managed hook is enabled in Codex state".to_owned(),
            ),
        ),
        Ok(false) => report.push(
            failed(
                enabled_name.as_str(),
                "the managed hook is disabled in Codex state".to_owned(),
                setup.as_str(),
            ),
        ),
        Err(error) => report.push(failed(enabled_name.as_str(), error, setup.as_str())),
    }
    let skill_name = joined(prefix, "_skill");
    match inspect_skill(target, skill, &input.files) {
        Ok(()) => report.push(passed(skill_name.as_str(), target.skill_dir.clone())),
        Err(error) => report.push(failed(skill_name.as_str(), error, setup.as_str())),
    }
    if target.scope == InstallScope::Project && !input.command_on_path {
        report.push(
            failed(
                "project_hook_command",
                "project hooks use `open-wake hook`, but `open-wake` is not on PATH".to_owned(),
                "install it with `cargo install --path . --locked`",
            ),
        );
    }
    let trust_name = joined(prefix, "_hook_trust");
    report.push(
        warned(
            trust_name.as_str(),
            "hook trust is interactive Codex state and cannot be verified non-interactively".to_owned(),
            "open `/hooks`, review the command, and trust this hook definition",
        ),
    );
    assert(report@ =~= old(report)@ + target_checks(*input, skill@));
}

/// The checks of some installations.
pub open spec fn all_target_checks(inputs: Seq<TargetInput>, skill: SkillFilesView) -> Seq<
    DoctorCheckView,
>
    decreases inputs.len(),
{
    if inputs.len() == 0 {
        seq![]
    } else {
        all_target_checks(inputs.drop_last(), skill) + target_checks(inputs.last(), skill)
    }
}

/// Everything that was observed for the doctor.
#[derive(Debug)]
pub struct DoctorInput {
    pub binary_path: String,
    pub binary: BinaryState,
    pub codex_version: CommandOutcome,
    pub codex_features: CommandOutcome,
    pub trial: Result<(), String>,
    pub state_dir: String,
    pub state_dir_writable: bool,
    pub job_root: String,
    pub job_root_writable: bool,
    /// The current session, if there is one.
    pub session: Option<SessionInput>,
    pub jobs: Result<Vec<JobSnapshot>, String>,
    /// The published release, if it was looked up.
    pub release: Option<Result<UpdateReport, String>>,
    pub targets: Vec<TargetInput>,
}

/// All checks of the doctor, in their order.
pub open spec fn diagnosis(input: DoctorInput, skill: SkillFilesView, now_ms: u64) -> Seq<
    DoctorCheckView,
> {
    seq![
        binary_check(input.binary_path@, input.binary),
        codex_check(input.codex_version@),
        hooks_check(input.codex_features@),
        directory_check("state_directory"@, input.state_dir@, input.state_dir_writable),
        directory_check("job_directory"@, input.job_root@, input.job_root_writable),
        protocol_check(outcome(input.trial)),
    ] + session_checks(input.session, now_ms) + job_checks(input.jobs) + release_checks(
        input.release,
    ) + checks_if(
        input.targets@.len() == 0,
        fail(
            "installation"@,
            "no project or user installation was found"@,
            "run `open-wake setup --scope project` or `open-wake setup --scope user`"@,
        ),
    ) + all_target_checks(input.targets@, skill)
}

/// Judges what was observed. The report is good if and only if no check failed.
pub fn doctor(input: &DoctorInput, skill: &SkillFiles, now_ms: u64) -> (report: DoctorReport)
    ensures
        report@ == diagnosis(*input, skill@, now_ms),
        report.ok == none_failed(report@),
{
    let mut report = DoctorReport::new();
    report.push(inspect_binary(input.binary_path.as_str(), &input.binary));
    report.push(inspect_codex_version(&input.codex_version));
    report.push(inspect_codex_features(&input.codex_features));
    report.push(
        inspect_directory("state_directory", input.state_dir.as_str(), input.state_dir_writable),
    );
    report.push(
        inspect_directory("job_directory", input.job_root.as_str(), input.job_root_writable),
    );
    report.push(inspect_protocol(&input.trial));
    let ghost first = seq![
        binary_check(input.binary_path@, input.binary),
        codex_check(input.codex_version@),
        hooks_check(input.codex_features@),
        directory_check("state_directory"@, input.state_dir@, input.state_dir_writable),
        directory_check("job_directory"@, input.job_root@, input.job_root_writable),
        protocol_check(outcome(input.trial)),
    ];
    assert(report@ =~= first);
    inspect_session(&input.session, now_ms, &mut report);
    inspect_jobs(&input.jobs, &mut report);
    inspect_release(&input.release, &mut report);
    let ghost general = report@;
    let ghost missing = checks_if(
        input.targets@.len() == 0,
        fail(
            "installation"@,
            "no project or user installation was found"@,
            "run `open-wake setup --scope project` or `open-wake setup --scope user`"@,
        ),
    );
    if input.targets.len() == 0 {
        report.push(
            failed(
                "installation",
                "no project or user installation was found".to_owned(),
                "run `open-wake setup --scope project` or `open-wake setup --scope user`",
            ),
        );
    }
    assert(report@ =~= general + missing);
    let ghost before = report@;
    let mut index: usize = 0;
    assert(input.targets@.take(0) =~= seq![]);
    assert(report@ =~= before + all_target_checks(input.targets@.take(0), skill@));
    while index < input.targets.len()
        invariant
            index <= input.targets@.len(),
            report@ == before + all_target_checks(input.targets@.take(index as int), skill@),
            report.well_formed(),
        decreases input.targets@.len() - index,
    {
        proof {
            let now = input.targets@.take(index + 1);
            assert(now.drop_last() =~= input.targets@.take(index as int));
            assert(now.last() == input.targets@[index as int]);
        }
        inspect_target(&input.targets[index], skill, &mut report);
        assert(report@ =~= before + all_target_checks(input.targets@.take(index + 1), skill@));
        index = index + 1;
    }
    assert(input.targets@.take(index as int) =~= input.targets@);
    report
}

/// A hook that was never invoked is a failure: a condition that expired unchecked, or whose job
/// ended unchecked, spoils the report, and so does a legacy cancellation that expired unchecked.
pub proof fn a_missed_hook_is_a_failure(
    session: SessionInput,
    snapshot: ConditionSnapshot,
    now_ms: u64,
)
    requires
        session.snapshot == Ok::<Option<ConditionSnapshot>, String>(Some(snapshot)),
        hook_was_missed(snapshot@.condition, job_view(session.job), now_ms),
    ensures
        session_checks(Some(session), now_ms).len() > 0,
        session_checks(Some(session), now_ms)[0] == missed_check(snapshot@.condition),
        !none_failed(session_checks(Some(session), now_ms)),
{
    assert(session_checks(Some(session), now_ms)[0].status == CheckStatus::Fail);
}

/// A waiting condition whose hook is gone is a failure, and so is an attached job that cannot be
/// read.
pub proof fn an_interrupted_session_is_a_failure(
    session: SessionInput,
    snapshot: ConditionSnapshot,
    now_ms: u64,
)
    requires
        session.snapshot == Ok::<Option<ConditionSnapshot>, String>(Some(snapshot)),
        (snapshot@.condition.status == ConditionStatus::Waiting && snapshot@.watcher.state
            == WatcherState::Stale) || session.job matches Some(Err(_)),
    ensures
        !none_failed(session_checks(Some(session), now_ms)),
{
    let checks = session_checks(Some(session), now_ms);
    let problems = condition_problems(snapshot@, job_view(session.job), now_ms);
    assert(problems.len() > 0);
    assert(forall|i: int|
        0 <= i < problems.len() ==> (#[trigger] problems[i]).status == CheckStatus::Fail);
    assert(checks[0].status == CheckStatus::Fail);
}

proof fn lemma_stale_jobs_only_warn(jobs: Seq<JobSnapshotView>)
    ensures
        forall|i: int|
            0 <= i < stale_job_checks(jobs).len() ==> (#[trigger] stale_job_checks(jobs)[i]).status
                == CheckStatus::Warn,
    decreases jobs.len(),
{
    if jobs.len() > 0 {
        lemma_stale_jobs_only_warn(jobs.drop_last());
    }
}

/// Supervised jobs never spoil the report: losing a heartbeat is no proof that a command stopped.
pub proof fn stale_jobs_only_warn(jobs: Result<Vec<JobSnapshot>, String>)
    ensures
        none_failed(job_checks(jobs)),
{
    if let Ok(list) = jobs {
        lemma_stale_jobs_only_warn(job_views(list@));
    }
}

} // verus!
