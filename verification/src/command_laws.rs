//! What the commands ask for and what they print.
use vstd::prelude::*;

use crate::commands::{
    attached, checkpoint_remark, checks_text, codex_config, codex_home, condition_line, confirms,
    doctor_text, hook_answer, hook_line, is_frequent, job_request, launch_report, padded,
    project_root, release_line, removed_everything, setup_text, startup, update_decision, StartupStepView,
    UpdateStep,
};
use crate::condition::{ConditionView, JobReferenceView};
use crate::condition_laws::{can_be_granted, whole_millis};
use crate::doctor::{CheckStatus, DoctorCheckView};
use crate::hook::HookResultView;
use crate::json::{compact_json, member, JsonView};
use crate::launch::{
    failure_text, launching, LaunchActionView, LaunchEventView, LaunchStageView, LaunchView,
};
use crate::lease::WatcherStatusView;
use crate::message::lossy_text;
use crate::setup::{ChangeKind, InstallScope, SetupReportView};
use crate::span::{human_duration, Span};
use crate::text::{debug_quoted, decimal, is_white, signed_decimal, trim};
use crate::text_laws::{is_blank, is_word, trimming_takes_the_white_ends};
use crate::update::UpdateReportView;

verus! {

/// A hook that has nothing to say answers with an empty object; a continuation blocks the end of the
/// turn and gives its message as the reason, and nothing else is said. The answer is one line.
pub proof fn an_answer_blocks_or_is_empty(message: Seq<char>)
    ensures
        hook_answer(HookResultView::Noop) == JsonView::Members(Map::<Seq<char>, JsonView>::empty()),
        forall|key: Seq<char>|
            #![trigger member(hook_answer(HookResultView::Continue(message)), key)]
            member(hook_answer(HookResultView::Continue(message)), key) == if key == "decision"@ {
                Some(JsonView::Text("block"@))
            } else if key == "reason"@ {
                Some(JsonView::Text(message))
            } else {
                None
            },
        compact_json(hook_answer(HookResultView::Continue(message))) matches Ok(bytes)
            ==> hook_line(HookResultView::Continue(message)) == Ok::<Seq<u8>, Seq<char>>(
            bytes + seq![10u8],
        ),
{
    reveal_strlit("decision");
    reveal_strlit("reason");
    assert("decision"@.len() != "reason"@.len());
    if let Ok(bytes) = compact_json(hook_answer(HookResultView::Continue(message))) {
        assert(bytes.push(10) =~= bytes + seq![10u8]);
    }
}

/// The condition that waits for a job is checked every second, for up to five, by asking this program
/// whether that job is ready. It is granted for every timeout and checkpoint that any request is
/// granted for.
pub proof fn a_job_is_waited_for_every_second(
    session_id: Seq<char>,
    label: Option<Seq<char>>,
    cwd: Seq<char>,
    binary: Seq<char>,
    timeout: Span,
    checkpoint_every: Option<Span>,
    job: JobReferenceView,
)
    ensures
        ({
            let request = job_request(
                session_id,
                label,
                cwd,
                binary,
                timeout,
                checkpoint_every,
                job,
            );
            &&& request.session_id == session_id
            &&& request.label == label
            &&& request.cwd == cwd
            &&& request.command == seq![
                binary,
                "job-ready"@,
                "--job-dir"@,
                job.root,
                "--job"@,
                job.id,
            ]
            &&& request.timeout == timeout
            &&& request.poll_every == (Span { secs: 1, nanos: 0 })
            &&& request.check_timeout == (Span { secs: 5, nanos: 0 })
            &&& request.checkpoint_every == checkpoint_every
            &&& request.job == Some(job)
            &&& timeout.secs >= 1 && timeout.nanos == 0 && timeout.secs <= 604_740
                && checkpoint_every is None ==> can_be_granted(request)
        }),
{
}

/// A start is acknowledged by the first heartbeat or by a result. Until then it is looked for every
/// twenty milliseconds, for five seconds, unless the supervisor ends before.
pub proof fn a_start_is_awaited_for_five_seconds(
    heartbeat_exists: bool,
    result_exists: bool,
    ended: Option<Seq<char>>,
    waited_ms: u64,
)
    ensures
        ({
            let step = startup(heartbeat_exists, result_exists, ended, waited_ms);
            &&& step is Acknowledged <==> heartbeat_exists || result_exists
            &&& step is Sleep <==> !heartbeat_exists && !result_exists && ended is None && waited_ms
                < 5_000
            &&& step matches StartupStepView::Sleep(millis) ==> millis == 20
            &&& step is Failed <==> !heartbeat_exists && !result_exists && (ended is Some
                || waited_ms >= 5_000)
        }),
{
}

/// A launch that failed tells the error, what became of the condition and what became of the job.
pub proof fn a_failed_launch_tells_what_was_taken_back(
    error: Seq<char>,
    cancelled: Result<Option<ConditionView>, Seq<char>>,
    condition_id: Seq<char>,
    recorded: Result<(), Seq<char>>,
    job_id: Seq<char>,
)
    ensures
        failure_text(error, cancelled, condition_id, recorded, job_id) == error + "; "@ + (
        match cancelled {
            Ok(Some(_)) => "cancelled condition "@ + condition_id,
            Ok(None) => "left replacement condition unchanged after condition "@ + condition_id,
            Err(problem) => "failed to cancel condition "@ + condition_id + ": "@ + problem,
        }) + "; "@ + (match recorded {
            Ok(()) => "retained failed job record "@ + job_id,
            Err(problem) => "failed to retain job record "@ + job_id + ": "@ + problem,
        }),
{
}

/// The job of a session is the one of its condition, and there is none without a condition or for a
/// condition of its own.
pub proof fn the_job_of_a_session_is_that_of_its_condition(
    status: Result<Option<ConditionView>, Seq<char>>,
    session_id: Seq<char>,
)
    ensures
        attached(status, session_id) is Ok <==> (status matches Ok(Some(condition))
            && condition.job is Some),
        attached(status, session_id) matches Ok(job) ==> status->Ok_0->0.job == Some(job),
        status matches Err(error) ==> attached(status, session_id) == Err::<
            JobReferenceView,
            Seq<char>,
        >(error),
{
}

/// Checkpoints are said to cost turns, and that there are none is said too.
pub proof fn checkpoints_are_announced(every: Span)
    ensures
        checkpoint_remark(None) == "terminal-only wakeups"@,
        checkpoint_remark(Some(every)) == "checkpoint every "@ + human_duration(
            every.secs,
            every.nanos,
        ) + " creates model turns"@,
{
}

/// One line tells the name of a condition, its status, who watches it and in which phase and turn, how
/// often it was checked and what came last.
pub proof fn a_status_line_tells_everything(condition: ConditionView, watcher: WatcherStatusView)
    ensures
        condition_line(condition, watcher) == (if condition.label is Some {
            condition.label->0
        } else {
            condition.id
        }) + ": "@ + condition.status.label() + ", watcher: "@ + watcher.state.label()
            + ", phase: "@ + (match watcher.phase {
            Some(phase) => "Some("@ + phase.label() + ")"@,
            None => "None"@,
        }) + ", turn: "@ + (match watcher.turn_id {
            Some(turn) => "Some("@ + debug_quoted(turn) + ")"@,
            None => "None"@,
        }) + ", attempts: "@ + decimal(condition.attempts as nat) + ", last exit: "@ + (
        match condition.last_exit_code {
            Some(code) => "Some("@ + signed_decimal(code as int) + ")"@,
            None => "None"@,
        }),
{
}

/// A padded text is the text and then spaces, at least as wide as was asked for and no wider than it
/// must be.
pub proof fn padding_adds_spaces_behind(text: Seq<char>, width: nat)
    ensures
        padded(text, width).len() == (if text.len() >= width {
            text.len()
        } else {
            width
        }),
        padded(text, width).subrange(0, text.len() as int) == text,
        forall|i: int|
            text.len() <= i < padded(text, width).len() ==> #[trigger] padded(text, width)[i] == ' ',
    decreases width,
{
    if text.len() < width {
        let less = (width - 1) as nat;
        padding_adds_spaces_behind(text, less);
        assert(padded(text, width).subrange(0, text.len() as int) =~= padded(text, less).subrange(
            0,
            text.len() as int,
        ));
    } else {
        assert(text.subrange(0, text.len() as int) =~= text);
    }
}

/// A setup is printed as its scope and one line for each file, with what became of it.
pub proof fn every_change_is_printed(report: SetupReportView)
    ensures
        setup_text(report).len() == report.changes.len() + 1,
        setup_text(report)[0] == (if report.scope == InstallScope::Project {
            "project"@
        } else {
            "user"@
        }) + " scope"@ + (if report.dry_run {
            " (dry run)"@
        } else {
            ""@
        }) + ":"@,
        forall|i: int|
            0 <= i < report.changes.len() ==> #[trigger] setup_text(report)[i + 1] == "  "@
                + padded(
                match report.changes[i].action {
                    ChangeKind::Created => "CREATE"@,
                    ChangeKind::Updated => "UPDATE"@,
                    ChangeKind::Unchanged => "OK"@,
                    ChangeKind::Removed => "REMOVE"@,
                    ChangeKind::Missing => "MISSING"@,
                    ChangeKind::RetainedModified => "KEEP MODIFIED"@,
                },
                13,
            ) + " "@ + report.changes[i].path,
{
}

/// How a check is printed: its status, its name and its detail on one line, and advice on the next.
pub open spec fn printed_check(check: DoctorCheckView) -> Seq<Seq<char>> {
    let line = padded(
        match check.status {
            CheckStatus::Pass => "PASS"@,
            CheckStatus::Warn => "WARN"@,
            CheckStatus::Fail => "FAIL"@,
        },
        4,
    ) + " "@ + padded(check.name, 24) + " "@ + check.detail;
    match check.fix {
        Some(fix) => seq![line, "     fix: "@ + fix],
        None => seq![line],
    }
}

/// A diagnosis is printed check by check, in order, and its last line tells whether anything failed.
pub proof fn every_check_is_printed(
    checks: Seq<DoctorCheckView>,
    check: DoctorCheckView,
    ok: bool,
)
    ensures
        checks_text(seq![]) == Seq::<Seq<char>>::empty(),
        checks_text(checks.push(check)) == checks_text(checks) + printed_check(check),
        doctor_text(checks, ok) == checks_text(checks).push(
            "doctor: "@ + (if ok {
                "healthy (warnings may require interactive review)"@
            } else {
                "problems found"@
            }),
        ),
{
    assert(checks.push(check).drop_last() =~= checks);
}

/// A release is printed with both versions, and with its address where it is an update.
pub proof fn a_release_is_printed_with_both_versions(report: UpdateReportView)
    ensures
        release_line(report) == if report.update_available {
            "update available: "@ + report.current + " -> "@ + report.latest + " ("@
                + report.release_url + ")"@
        } else {
            "open-wake "@ + report.current + " is current (latest release: "@ + report.latest
                + ")"@
        },
{
}

/// The directory of Codex is the one that was given, or the one in the home directory.
pub proof fn codex_lives_at_home(explicit: Seq<char>, home: Seq<char>)
    requires
        home.len() > 0,
        home.last() != '/',
    ensures
        codex_home(Some(explicit), Some(home)) == Some(explicit),
        codex_home(Some(explicit), None) == Some(explicit),
        codex_home(None, Some(home)) == Some(home + "/.codex"@),
        codex_home(None, None) is None,
{
    reveal_strlit("/");
    reveal_strlit(".codex");
    reveal_strlit("/.codex");
    assert(home + "/"@ + ".codex"@ =~= home + "/.codex"@);
}

/// An update is installed only if there is one, more than a look was asked for and somebody agreed;
/// where nobody agreed yet, somebody is asked if there is a terminal to ask at.
pub proof fn an_update_needs_agreement(
    check_only: bool,
    available: bool,
    agreed: bool,
    terminal: bool,
)
    ensures
        ({
            let step = update_decision(check_only, available, agreed, terminal);
            &&& step == UpdateStep::Install <==> available && !check_only && agreed
            &&& step == UpdateStep::Ask <==> available && !check_only && !agreed && terminal
            &&& step == UpdateStep::Refuse <==> available && !check_only && !agreed && !terminal
            &&& step == UpdateStep::Done <==> !available || check_only
        }),
{
}

/// An answer agrees if and only if it is yes or its first letter, in one case throughout, whatever
/// white space is around it.
pub proof fn only_yes_agrees(before: Seq<char>, word: Seq<char>, after: Seq<char>)
    requires
        is_blank(before),
        is_blank(after),
        is_word(word),
    ensures
        confirms(before + word + after) <==> word == seq!['y'] || word == seq!['Y'] || word == seq![
            'y',
            'e',
            's',
        ] || word == seq!['Y', 'E', 'S'],
        !confirms(before),
{
    reveal_strlit("y");
    reveal_strlit("Y");
    reveal_strlit("yes");
    reveal_strlit("YES");
    assert("y"@ =~= seq!['y']);
    assert("Y"@ =~= seq!['Y']);
    assert("yes"@ =~= seq!['y', 'e', 's']);
    assert("YES"@ =~= seq!['Y', 'E', 'S']);
    let none = Seq::<char>::empty();
    assert(!is_white(word[0]) && !is_white(word[word.len() - 1]));
    trimming_takes_the_white_ends(before, word, after);
    trimming_takes_the_white_ends(before, none, none);
    assert(before + none + none =~= before);
}

/// Checkpoints less than five minutes apart are worth a warning, and none are not.
pub proof fn frequent_checkpoints_are_warned_of(every: Span)
    ensures
        is_frequent(Some(every)) <==> every.secs * 1_000_000_000 + every.nanos < 300_000_000_000,
        !is_frequent(None),
{
}

/// An uninstall is complete if and only if no file was kept because somebody had changed it.
pub proof fn a_kept_file_is_left_over(report: SetupReportView)
    ensures
        !removed_everything(report) <==> exists|i: int|
            0 <= i < report.changes.len() && (#[trigger] report.changes[i]).action
                == ChangeKind::RetainedModified,
{
}

/// The root of a project is what version control prints, without the white space around it, and the
/// directory itself where it prints nothing.
pub proof fn version_control_names_the_root(directory: Seq<char>, printed: Seq<u8>)
    ensures
        project_root(directory, None) == directory,
        trim(lossy_text(printed)).len() == 0 ==> project_root(directory, Some(printed)) == directory,
        trim(lossy_text(printed)).len() > 0 ==> project_root(directory, Some(printed)) == trim(
            lossy_text(printed),
        ),
{
}

/// The configuration of Codex lies in its directory.
pub proof fn the_configuration_lies_in_the_codex_directory(
    explicit: Option<Seq<char>>,
    home: Option<Seq<char>>,
)
    ensures
        codex_config(explicit, home) is Some <==> explicit is Some || home is Some,
        explicit matches Some(directory) ==> (directory.len() > 0 && directory.last() != '/'
            ==> codex_config(explicit, home) == Some(directory + "/config.toml"@)),
{
    reveal_strlit("/");
    reveal_strlit("config.toml");
    reveal_strlit("/config.toml");
    if let Some(directory) = explicit {
        assert(directory + "/"@ + "config.toml"@ =~= directory + "/config.toml"@);
    }
}

/// A launch goes well if the condition was armed and the supervisor acknowledged its start: the
/// supervisor is started for the job only after the condition was armed, and both are reported.
pub proof fn a_launch_reports_its_condition_and_its_supervisor(
    session_id: Seq<char>,
    job: JobReferenceView,
    condition_id: Seq<char>,
    pid: u32,
)
    ensures
        ({
            let (armed, start) = launching(
                LaunchView { session_id, job, stage: LaunchStageView::Arming },
                LaunchEventView::Armed(Ok(condition_id)),
            );
            &&& LaunchView::new(session_id, job) == (LaunchView {
                session_id,
                job,
                stage: LaunchStageView::Arming,
            })
            &&& start == LaunchActionView::Start(job)
            &&& launching(armed, LaunchEventView::Started(Ok(pid))).1 == LaunchActionView::Finish(
                Ok((condition_id, pid)),
            )
        }),
{
}

/// A launch is reported with its condition, its job, its supervisor and its log, and with its times in
/// whole milliseconds.
pub proof fn a_launch_is_reported_in_milliseconds(
    condition_id: Seq<char>,
    job_id: Seq<char>,
    pid: u32,
    log_path: Seq<char>,
    timeout: Span,
    checkpoint_every: Option<Span>,
)
    requires
        whole_millis(timeout) <= u64::MAX,
        checkpoint_every matches Some(every) ==> whole_millis(every) <= u64::MAX,
    ensures
        ({
            let report = launch_report(
                condition_id,
                job_id,
                pid,
                log_path,
                timeout,
                checkpoint_every,
            );
            &&& report.condition_id == condition_id
            &&& report.job_id == job_id
            &&& report.supervisor_pid == pid
            &&& report.log_path == log_path
            &&& report.timeout_ms == whole_millis(timeout)
            &&& report.checkpoint_every_ms is Some <==> checkpoint_every is Some
            &&& checkpoint_every matches Some(every) ==> report.checkpoint_every_ms->0
                == whole_millis(every)
        }),
{
}

} // verus!
