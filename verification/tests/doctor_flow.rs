use open_wake::commands::{doctor_lines, run_request};
use open_wake::doctor::{
    doctor, judge_trial, trial_request, BinaryState, CheckStatus, DoctorCheck, DoctorInput,
    DoctorReport, SessionInput, TargetInput,
};
use open_wake::download::CommandOutcome;
use open_wake::job::{prepare, reference, snapshot, JobSnapshot, JobSpec};
use open_wake::setup::{
    setup, uninstall, FileOperation, Observed, SetupFiles, SetupTarget, SkillFiles,
};
use open_wake::update::UpdateReport;
use open_wake::{
    arm, handle_stop_hook, inspect_condition, status, CheckResult, Condition, ConditionStatus,
    HookAction, HookEvent, HookOwner, HookResult, HookRun, Observation, SessionState, Span,
    StopHookInput, Stored,
};

const NOW: u64 = 1_700_000_000_000;

const UNSEEN: Observation = Observation {
    lease_process_exists: false,
    delivery_process_exists: false,
    modified_at_ms: None,
};

fn skill() -> SkillFiles {
    SkillFiles {
        skill: b"# open-wake\n".to_vec(),
        agent: b"interface:\n".to_vec(),
    }
}

fn said(stdout: &str) -> CommandOutcome {
    CommandOutcome::Ended {
        success: true,
        status: "exit status: 0".to_owned(),
        stdout: stdout.as_bytes().to_vec(),
        stderr: Vec::new(),
    }
}

fn refused() -> CommandOutcome {
    CommandOutcome::Ended {
        success: false,
        status: "exit status: 2".to_owned(),
        stdout: Vec::new(),
        stderr: Vec::new(),
    }
}

fn nothing() -> SetupFiles {
    SetupFiles {
        hook: Observed::Missing,
        config: Observed::Missing,
        skill: Stored::Missing,
        agent: Stored::Missing,
    }
}

fn project() -> SetupTarget {
    SetupTarget::project("/project").with_codex_config_path("/home/.codex/config.toml".to_owned())
}

fn installed(target: &SetupTarget) -> SetupFiles {
    let plan = setup(target, false, &skill(), &nothing());
    plan.result.unwrap();
    let mut files = nothing();
    for operation in plan.operations {
        let FileOperation::Write { path, contents, mode: _ } = operation else {
            panic!("setup removes something");
        };
        if path == target.hook_path {
            files.hook = Observed::Found(contents);
        } else if Some(&path) == target.codex_config_path.as_ref() {
            files.config = Observed::Found(String::from_utf8(contents).unwrap());
        } else if path.ends_with("SKILL.md") {
            files.skill = Stored::Found(contents);
        } else {
            files.agent = Stored::Found(contents);
        }
    }
    files
}

fn healthy() -> DoctorInput {
    let target = project();
    let files = installed(&target);
    DoctorInput {
        binary_path: "/bin/open-wake".to_owned(),
        binary: BinaryState::Executable,
        codex_version: said("codex-cli test\n"),
        codex_features: said("hooks stable true\n"),
        trial: Ok(()),
        state_dir: "/run/open-wake".to_owned(),
        state_dir_writable: true,
        job_root: "/jobs".to_owned(),
        job_root_writable: true,
        session: None,
        jobs: Ok(Vec::new()),
        release: None,
        targets: vec![TargetInput { target, files, command_on_path: true }],
    }
}

fn judged(change: impl FnOnce(&mut DoctorInput)) -> DoctorReport {
    let mut input = healthy();
    change(&mut input);
    doctor(&input, &skill(), NOW)
}

fn named<'a>(report: &'a DoctorReport, name: &str) -> &'a DoctorCheck {
    report
        .checks
        .iter()
        .find(|check| check.name == name)
        .unwrap_or_else(|| panic!("no check {name}"))
}

fn failure(change: impl FnOnce(&mut DoctorInput), name: &str) -> String {
    let report = judged(change);
    assert!(!report.ok);
    let check = named(&report, name);
    assert_eq!(check.status, CheckStatus::Fail);
    assert!(check.fix.is_some());
    check.detail.clone()
}

fn job_spec() -> JobSpec {
    prepare(
        "/jobs",
        "job-1".to_owned(),
        "thread".to_owned(),
        None,
        "/work".to_owned(),
        true,
        vec!["true".to_owned()],
        NOW,
    )
    .unwrap()
}

fn job_at(now: u64) -> JobSnapshot {
    let spec = job_spec();
    snapshot(
        "/jobs",
        "job-1",
        &Stored::Found(spec),
        &Stored::Missing,
        &Stored::Missing,
        now,
    )
    .unwrap()
}

fn armed_with_job() -> SessionState {
    let mut state = SessionState {
        condition: Stored::Missing,
        lease: Stored::Missing,
        delivery: Stored::Missing,
    };
    let request = run_request(
        "thread".to_owned(),
        None,
        "/work".to_owned(),
        "/bin/open-wake",
        Span::from_secs(60),
        None,
        &reference("/jobs", &job_spec()).unwrap(),
    );
    arm(&mut state, request, true, "one".to_owned(), NOW).unwrap();
    state
}

fn session(
    change: impl FnOnce(&mut Condition),
    job: Option<Result<JobSnapshot, String>>,
    now: u64,
) -> Option<SessionInput> {
    let mut state = armed_with_job();
    if let Stored::Found(condition) = &mut state.condition {
        change(condition);
    }
    Some(SessionInput {
        snapshot: inspect_condition(&state, UNSEEN, now),
        job,
    })
}

#[test]
fn cli_setup_doctor_and_uninstall_complete_a_project_lifecycle() {
    let report = judged(|_| {});
    assert_eq!(report.ok, true);
    assert!(
        report
            .checks
            .iter()
            .any(|check| { check.name == "project_hook_trust" && check.status == CheckStatus::Warn })
    );

    let target = project();
    let plan = uninstall(&target, false, &skill(), &installed(&target));
    plan.result.unwrap();
    let removed: Vec<&str> = plan
        .operations
        .iter()
        .filter_map(|operation| match operation {
            FileOperation::Remove(path) => Some(path.as_str()),
            _ => None,
        })
        .collect();
    assert_eq!(
        removed,
        vec![
            "/project/.codex/hooks.json",
            "/project/.agents/skills/open-wake/SKILL.md",
            "/project/.agents/skills/open-wake/agents/openai.yaml"
        ]
    );

    let unrelated =
        r#"{"hooks":{"Stop":[{"hooks":[{"type":"command","command":"printf unrelated"}]}]}}"#;
    assert!(!target.has_any_installation(false, &Some(unrelated.as_bytes().to_vec())));
    let user = SetupTarget::user("/home", "/home/.codex", "/bin/open-wake");
    let report = judged(|input| {
        let files = installed(&user);
        input.targets = vec![TargetInput { target: user, files, command_on_path: true }];
    });
    assert_eq!(report.ok, true);
    assert!(!report.checks.iter().any(|check| { check.name == "project_hook" }));
}

#[test]
fn a_healthy_installation_is_listed_in_order() {
    let report = judged(|_| {});
    let names: Vec<&str> = report.checks.iter().map(|check| check.name.as_str()).collect();
    assert_eq!(
        names,
        vec![
            "executable",
            "codex_cli",
            "codex_hooks",
            "state_directory",
            "job_directory",
            "wake_protocol",
            "supervised_jobs",
            "project_hook",
            "project_hook_enabled",
            "project_skill",
            "project_hook_trust"
        ]
    );
    assert_eq!(named(&report, "codex_cli").detail, "codex-cli test");
    let lines = doctor_lines(&report);
    assert_eq!(lines[0], "PASS executable               /bin/open-wake");
    assert_eq!(
        lines[lines.len() - 1],
        "doctor: healthy (warnings may require interactive review)"
    );
    assert_eq!(
        lines[lines.len() - 2],
        "     fix: open `/hooks`, review the command, and trust this hook definition"
    );
}

#[test]
fn the_executable_and_codex_are_checked() {
    assert_eq!(
        failure(|input| input.binary = BinaryState::NotExecutable, "executable"),
        "/bin/open-wake is not an executable file"
    );
    assert_eq!(
        failure(|input| input.binary = BinaryState::Failed("gone".to_owned()), "executable"),
        "inspect /bin/open-wake: gone"
    );
    assert_eq!(
        failure(|input| input.codex_version = refused(), "codex_cli"),
        "`codex --version` exited with exit status: 2"
    );
    assert_eq!(
        failure(
            |input| input.codex_version = CommandOutcome::NotFound("not found".to_owned()),
            "codex_cli"
        ),
        "could not run `codex --version`: not found"
    );
    assert_eq!(
        failure(|input| input.codex_features = refused(), "codex_hooks"),
        "`codex features list` exited with exit status: 2"
    );
    assert_eq!(
        failure(|input| input.codex_features = said("hooks stable false\nx true\n"), "codex_hooks"),
        "Codex does not report the hooks feature enabled"
    );
    assert_eq!(
        failure(
            |input| input.codex_features = CommandOutcome::Failed("denied".to_owned()),
            "codex_hooks"
        ),
        "could not inspect Codex features: denied"
    );
    let lines = doctor_lines(&judged(|input| input.codex_version = refused()));
    assert_eq!(lines[lines.len() - 1], "doctor: problems found");
}

#[test]
fn unwritable_directories_and_a_failed_trial_are_failures() {
    assert_eq!(
        failure(|input| input.state_dir_writable = false, "state_directory"),
        "/run/open-wake cannot be created or written"
    );
    assert_eq!(
        failure(|input| input.job_root_writable = false, "job_directory"),
        "/jobs cannot be created or written"
    );
    assert_eq!(
        failure(|input| input.trial = Err("lock condition: denied".to_owned()), "wake_protocol"),
        "lock condition: denied"
    );
}

#[test]
fn installations_are_checked() {
    assert_eq!(
        failure(|input| input.targets.clear(), "installation"),
        "no project or user installation was found"
    );
    assert_eq!(
        failure(|input| input.targets[0].command_on_path = false, "project_hook_command"),
        "project hooks use `open-wake hook`, but `open-wake` is not on PATH"
    );
    assert_eq!(
        failure(|input| input.targets[0].files.hook = Observed::Missing, "project_hook"),
        "managed Stop hook is missing from /project/.codex/hooks.json"
    );
    assert_eq!(
        failure(
            |input| {
                input.targets[0].files.config = Observed::Found(
                    "[hooks.state.\"/project/.codex/hooks.json:stop:0:0\"]\nenabled = false\n"
                        .to_owned(),
                )
            },
            "project_hook_enabled"
        ),
        "the managed hook is disabled in Codex state"
    );
    assert_eq!(
        failure(
            |input| input.targets[0].files.skill = Stored::Found(b"mine".to_vec()),
            "project_skill"
        ),
        "/project/.agents/skills/open-wake/SKILL.md is stale or locally modified"
    );
}

#[test]
fn a_hook_that_was_never_invoked_is_a_failure() {
    let missed =
        "condition one was never checked: Codex did not invoke the configured Stop hook";
    let expired = |input: &mut DoctorInput| {
        input.session = session(|condition| condition.created_at_ms = NOW - 60_000, None, NOW);
    };
    assert_eq!(failure(expired, "session_condition"), missed);
    let legacy = |input: &mut DoctorInput| {
        input.session = session(
            |condition| {
                condition.created_at_ms = NOW - 60_000;
                condition.status = ConditionStatus::CancelRequested;
            },
            None,
            NOW,
        );
    };
    assert_eq!(failure(legacy, "session_condition"), missed);
    let ended = |input: &mut DoctorInput| {
        input.session = session(|_| {}, Some(Ok(job_at(NOW + 30_001))), NOW);
    };
    assert_eq!(failure(ended, "session_condition"), missed);
    let fresh = judged(|input| {
        input.session = session(|_| {}, Some(Ok(job_at(NOW))), NOW);
    });
    assert!(fresh.ok);
    assert_eq!(named(&fresh, "session_condition").detail, "condition one is Armed");
}

#[test]
fn interrupted_sessions_are_failures() {
    assert_eq!(
        failure(
            |input| {
                input.session = session(
                    |condition| {
                        condition.status = ConditionStatus::Waiting;
                        condition.attempts = 1;
                    },
                    None,
                    NOW,
                );
            },
            "session_hook"
        ),
        "condition one is waiting, but its hook lease is stale"
    );
    assert_eq!(
        failure(
            |input| {
                input.session = session(|_| {}, Some(Err("read job result: gone".to_owned())), NOW);
            },
            "session_job"
        ),
        "the attached job is unavailable and its outcome is unknown: read job result: gone"
    );
    assert_eq!(
        failure(
            |input| {
                input.session = session(
                    |condition| {
                        condition.status = ConditionStatus::Succeeded;
                        condition.attempts = 3;
                    },
                    Some(Err("read job specification: gone".to_owned())),
                    NOW,
                );
            },
            "session_job"
        ),
        "the attached job is unavailable and its outcome is unknown: read job specification: gone"
    );
    assert_eq!(
        failure(
            |input| {
                input.session = Some(SessionInput {
                    snapshot: Err("read condition: expected value".to_owned()),
                    job: None,
                });
            },
            "session_condition"
        ),
        "read condition: expected value"
    );
    let idle = judged(|input| {
        input.session = Some(SessionInput { snapshot: Ok(None), job: None });
    });
    assert!(idle.ok);
    assert_eq!(
        named(&idle, "session_condition").detail,
        "no condition for the current Codex session"
    );
}

#[test]
fn stale_jobs_are_warnings() {
    let report = judged(|input| input.jobs = Ok(vec![job_at(NOW), job_at(NOW + 30_001)]));
    assert!(report.ok);
    let check = named(&report, "supervised_job");
    assert_eq!(check.status, CheckStatus::Warn);
    assert!(check.detail.contains("job-1"));
    assert!(check.detail.contains("/jobs/job-1/output.log"));
    let unread = judged(|input| input.jobs = Err("read job root /jobs: denied".to_owned()));
    assert!(unread.ok);
    assert_eq!(named(&unread, "supervised_jobs").status, CheckStatus::Warn);
}

#[test]
fn releases_are_warnings() {
    let update = |available: bool| UpdateReport {
        current: "0.3.0".to_owned(),
        latest: "9.0.0".to_owned(),
        update_available: available,
        release_url: "https://example.test/v9.0.0".to_owned(),
    };
    let report = judged(|input| input.release = Some(Ok(update(true))));
    assert!(report.ok);
    let check = named(&report, "release_update");
    assert_eq!(check.status, CheckStatus::Warn);
    assert_eq!(check.detail, "open-wake 9.0.0 is available; current version is 0.3.0");
    let report = judged(|input| input.release = Some(Ok(update(false))));
    assert_eq!(named(&report, "release_update").detail, "open-wake 0.3.0 is the latest release");
    assert_eq!(named(&report, "release_update").status, CheckStatus::Pass);
    let report = judged(|input| input.release = Some(Err("run curl: gone".to_owned())));
    assert!(report.ok);
    assert_eq!(
        named(&report, "release_update").detail,
        "could not check GitHub Releases: run curl: gone"
    );
}

#[test]
fn the_trial_runs_the_protocol() {
    let mut state = SessionState {
        condition: Stored::Missing,
        lease: Stored::Missing,
        delivery: Stored::Missing,
    };
    let request = trial_request("/tmp/doctor", "doctor-7");
    assert_eq!(request.command, vec!["sh", "-c", "printf doctor-ok"]);
    arm(&mut state, request, true, "one".to_owned(), NOW).unwrap();
    let mut run = HookRun::new(
        StopHookInput {
            session_id: "doctor-7".to_owned(),
            hook_event_name: "Stop".to_owned(),
        },
        HookOwner {
            owner_id: "hook".to_owned(),
            pid: 7,
            turn_id: None,
            parent_pid: None,
            process_group_id: None,
        },
    );
    handle_stop_hook(&mut state, &mut run, HookEvent::Stop(UNSEEN), NOW).unwrap();
    handle_stop_hook(&mut state, &mut run, HookEvent::Wake, NOW).unwrap();
    let checked = HookEvent::Checked(CheckResult {
        exit_code: Some(0),
        output: "doctor-ok".to_owned(),
        timed_out: false,
    });
    let HookAction::Finish(answer) = handle_stop_hook(&mut state, &mut run, checked, NOW).unwrap()
    else {
        panic!("the trial goes on");
    };
    let mut condition = status(&state).unwrap();
    assert_eq!(judge_trial(&answer, &condition), Ok(()));
    assert_eq!(
        judge_trial(&HookResult::Noop, &condition).unwrap_err(),
        "Stop hook did not produce the expected continuation"
    );
    assert_eq!(judge_trial(&answer, &None).unwrap_err(), "doctor condition disappeared");
    if let Some(condition) = &mut condition {
        condition.status = ConditionStatus::TimedOut;
    }
    assert_eq!(
        judge_trial(&answer, &condition).unwrap_err(),
        "doctor condition resolved as TimedOut"
    );
}

#[test]
fn a_report_fails_with_its_first_failure() {
    let check = |status: CheckStatus| DoctorCheck {
        name: "x".to_owned(),
        status,
        detail: String::new(),
        fix: None,
    };
    let mut report = DoctorReport::default();
    assert!(report.ok);
    report.push(check(CheckStatus::Warn));
    report.push(check(CheckStatus::Pass));
    assert!(report.ok);
    report.push(check(CheckStatus::Fail));
    report.push(check(CheckStatus::Pass));
    assert!(!report.ok);
    assert_eq!(report.checks.len(), 4);
}
