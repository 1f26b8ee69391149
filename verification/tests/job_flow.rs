use open_wake::commands::{
    attached_job, cancel_line, launch_failure, run_report, run_request, startup_step,
    warn_frequent_checkpoint, StartupStep,
};
use open_wake::job::{
    checked_job_dir, default_job_root, discard_prepared, list, log_path, new_job_id, prepare,
    record_spawn_failure, reference, snapshot, supervise, try_record_spawn_failure, JobEntry,
    JobResult, JobSnapshot, JobSpec, JobState, ProcessExit, SuperviseAction, SuperviseEvent,
    Supervisor, STALE_AFTER,
};
use open_wake::launch::{launch_step, Launch, LaunchAction, LaunchEvent};
use open_wake::{
    arm, cancel, cancel_if_current, handle_stop_hook, inspect_condition, status, Condition,
    ConditionStatus, HookAction, HookEvent, HookOwner, HookResult, HookRun, Observation,
    SessionState, Span, StopHookInput, Stored,
};

const NOW: u64 = 1_700_000_000_000;

const UNSEEN: Observation = Observation {
    lease_process_exists: false,
    delivery_process_exists: false,
    modified_at_ms: None,
};

fn spec_for(label: &str, script: &str) -> JobSpec {
    prepare(
        "/jobs",
        new_job_id(7, 1_234, 0),
        "thread".to_owned(),
        Some(label.to_owned()),
        "/work".to_owned(),
        true,
        vec!["sh".to_owned(), "-c".to_owned(), script.to_owned()],
        NOW,
    )
    .unwrap()
}

fn result(exit_code: Option<i32>, signal: Option<i32>, error: Option<&str>) -> JobResult {
    JobResult {
        version: 1,
        completed_at_ms: NOW + 2_000,
        duration_ms: 1_500,
        exit_code,
        signal,
        error: error.map(str::to_owned),
    }
}

fn seen(
    spec: &JobSpec,
    result: Stored<JobResult>,
    heartbeat: Stored<String>,
    now: u64,
) -> Result<JobSnapshot, String> {
    snapshot("/jobs", &spec.id, &Stored::Found(spec.clone()), &result, &heartbeat, now)
}

fn beat(at: u64) -> Stored<String> {
    Stored::Found(format!("{at}\n"))
}

fn empty() -> SessionState {
    SessionState {
        condition: Stored::Missing,
        lease: Stored::Missing,
        delivery: Stored::Missing,
    }
}

fn launch(state: &mut SessionState, session: &str, spec: &JobSpec, timeout: Span) -> Condition {
    let job = reference("/jobs", spec).unwrap();
    let request = run_request(
        session.to_owned(),
        None,
        "/work".to_owned(),
        "/bin/open-wake",
        timeout,
        None,
        &job,
    );
    arm(state, request, true, format!("condition-of-{}", spec.id), NOW).unwrap()
}

fn start(state: &mut SessionState, session: &str, now: u64) -> HookRun {
    let mut run = HookRun::new(
        StopHookInput {
            session_id: session.to_owned(),
            hook_event_name: "Stop".to_owned(),
        },
        HookOwner {
            owner_id: "hook".to_owned(),
            pid: 4_242,
            turn_id: None,
            parent_pid: None,
            process_group_id: None,
        },
    );
    let action = handle_stop_hook(state, &mut run, HookEvent::Stop(UNSEEN), now).unwrap();
    assert!(matches!(action, HookAction::Watch));
    run
}

fn reason_of(action: HookAction) -> String {
    match action {
        HookAction::Finish(HookResult::Continue(reason)) => reason,
        other => panic!("no continuation: {other:?}"),
    }
}

#[test]
fn missing_heartbeat_becomes_stale_without_claiming_completion() {
    let spec = prepare(
        "/jobs",
        "job-1".to_owned(),
        "thread".to_owned(),
        Some("build".to_owned()),
        "/jobs".to_owned(),
        true,
        vec!["true".to_owned()],
        NOW,
    )
    .unwrap();
    let snapshot = seen(
        &spec,
        Stored::Missing,
        Stored::Missing,
        spec.created_at_ms + STALE_AFTER + 1,
    )
    .unwrap();
    assert_eq!(snapshot.state, JobState::Stale);
    assert!(snapshot.result.is_none());
    assert!(snapshot.summary().contains("may still be running"));
}

#[test]
fn job_ids_cannot_escape_the_job_root() {
    assert!(checked_job_dir("/jobs", "../job").is_err());
    assert!(checked_job_dir("/jobs", "job-123").is_ok());
    assert_eq!(checked_job_dir("/jobs", "job-123").unwrap(), "/jobs/job-123");
    assert_eq!(checked_job_dir("/jobs", "").unwrap_err(), "invalid job id ``");
    assert_eq!(
        checked_job_dir("/jobs", "job_1").unwrap_err(),
        "invalid job id `job_1`"
    );
    assert!(checked_job_dir("/jobs", "j\u{f6}b").is_err());
}

#[test]
fn a_job_is_classified_by_its_result_and_its_heartbeat() {
    let spec = spec_for("build", "exit 0");
    let at = |heartbeat: Stored<String>, now: u64| {
        seen(&spec, Stored::Missing, heartbeat, now).unwrap().state
    };
    assert_eq!(at(Stored::Missing, NOW), JobState::Starting);
    assert_eq!(at(Stored::Missing, NOW + 30_000), JobState::Starting);
    assert_eq!(at(Stored::Missing, NOW + 30_001), JobState::Stale);
    assert_eq!(at(beat(NOW + 5_000), NOW + 35_000), JobState::Running);
    assert_eq!(at(beat(NOW + 5_000), NOW + 35_001), JobState::Stale);
    let ended = |result: JobResult| {
        seen(&spec, Stored::Found(result), beat(NOW), NOW + 90_000).unwrap().state
    };
    assert_eq!(ended(result(Some(1), None, None)), JobState::Completed);
    assert_eq!(ended(result(None, None, Some("lost"))), JobState::SupervisorFailed);
}

#[test]
fn job_summaries_are_written_out() {
    let spec = spec_for("build", "exit 7");
    let of = |recorded: Stored<JobResult>, heartbeat: Stored<String>, now: u64| {
        seen(&spec, recorded, heartbeat, now).unwrap().summary()
    };
    let log = "log: /jobs/job-7-1234-0/output.log";
    assert_eq!(
        of(Stored::Missing, Stored::Missing, NOW),
        format!("job `build` is starting; {log}")
    );
    assert_eq!(
        of(Stored::Missing, beat(NOW), NOW),
        format!("job `build` is still running; {log}")
    );
    assert_eq!(
        of(Stored::Found(result(Some(7), None, None)), beat(NOW), NOW),
        format!("job `build` completed with exit code 7 after 1s 500ms; {log}")
    );
    assert_eq!(
        of(Stored::Found(result(None, Some(9), None)), beat(NOW), NOW),
        format!("job `build` completed with signal 9 after 1s 500ms; {log}")
    );
    assert_eq!(
        of(Stored::Found(result(None, None, None)), beat(NOW), NOW),
        format!("job `build` completed with unknown process status after 1s 500ms; {log}")
    );
    assert_eq!(
        of(Stored::Found(result(None, None, Some("lost"))), beat(NOW), NOW),
        format!("job `build` supervisor failed: lost; {log}")
    );
    assert_eq!(
        of(Stored::Missing, beat(NOW), NOW + 30_001),
        format!(
            "job `build` has a stale supervisor heartbeat; the command may still be running; {log}"
        )
    );
}

#[test]
fn unreadable_job_files_are_named() {
    let spec = spec_for("build", "exit 0");
    let broken = || Stored::Failed("expected value".to_owned());
    assert_eq!(
        snapshot("/jobs", "job-1", &broken(), &Stored::Missing, &Stored::Missing, NOW).unwrap_err(),
        "read job specification: expected value"
    );
    assert_eq!(
        seen(&spec, Stored::Failed("expected value".to_owned()), beat(NOW), NOW).unwrap_err(),
        "read job result: expected value"
    );
    assert_eq!(
        seen(&spec, Stored::Missing, Stored::Failed("denied".to_owned()), NOW).unwrap_err(),
        "read job heartbeat: denied"
    );
    assert_eq!(
        seen(&spec, Stored::Missing, Stored::Found("soon\n".to_owned()), NOW).unwrap_err(),
        "parse job heartbeat: invalid digit found in string"
    );
    assert_eq!(
        log_path("/jobs", "job-1", &broken()).unwrap_err(),
        "read job specification: expected value"
    );
    assert_eq!(
        log_path("/jobs", &spec.id, &Stored::Found(spec.clone())).unwrap(),
        "/jobs/job-7-1234-0/output.log"
    );
}

#[test]
fn jobs_are_prepared_below_their_root() {
    let spec = spec_for("build", "exit 0");
    assert_eq!(spec.id, "job-7-1234-0");
    assert_eq!(spec.log_path, "/jobs/job-7-1234-0/output.log");
    assert_eq!(spec.version, 1);
    assert_eq!(spec.created_at_ms, NOW);
    assert_eq!(spec.supervisor_pid, None);
    let job = reference("/jobs", &spec).unwrap();
    assert_eq!(job.root, "/jobs");
    assert_eq!(job.id, spec.id);
    assert_eq!(
        reference("/elsewhere", &spec).unwrap_err(),
        "job log /jobs/job-7-1234-0/output.log is outside job root /elsewhere"
    );
    assert!(reference("/job", &spec).is_err());
    let refused = |command: Vec<String>, cwd_exists: bool| {
        prepare(
            "/jobs",
            "job-1".to_owned(),
            "thread".to_owned(),
            None,
            "/work".to_owned(),
            cwd_exists,
            command,
            NOW,
        )
        .unwrap_err()
    };
    assert_eq!(refused(Vec::new(), true), "job command is required after --");
    assert_eq!(
        refused(vec!["true".to_owned()], false),
        "job working directory does not exist: /work"
    );
}

#[test]
fn rejected_second_run_discards_its_prepared_job() {
    let mut state = empty();
    let first = spec_for("first", "exit 1");
    launch(&mut state, "active-session", &first, Span::from_secs(5));

    let second = prepare(
        "/jobs",
        "job-2".to_owned(),
        "active-session".to_owned(),
        None,
        "/work".to_owned(),
        true,
        vec!["sh".to_owned(), "-c".to_owned(), "exit 0".to_owned()],
        NOW,
    )
    .unwrap();
    let job = reference("/jobs", &second).unwrap();
    let request = run_request(
        "active-session".to_owned(),
        None,
        "/work".to_owned(),
        "/bin/open-wake",
        Span::from_secs(5),
        None,
        &job,
    );
    let error = arm(&mut state, request, true, "two".to_owned(), NOW).unwrap_err();
    assert!(error.contains("already active"));
    assert_eq!(
        discard_prepared("/jobs", &second.id, &Stored::Found(second.clone()), false, false),
        Some("/jobs/job-2".to_owned())
    );
}

#[test]
fn only_untouched_jobs_are_discarded() {
    let spec = spec_for("build", "exit 0");
    let kept = |spec: &JobSpec, heartbeat: bool, result: bool| {
        discard_prepared("/jobs", &spec.id, &Stored::Found(spec.clone()), heartbeat, result).is_none()
    };
    assert!(!kept(&spec, false, false));
    assert!(kept(&spec, true, false));
    assert!(kept(&spec, false, true));
    let mut started = spec.clone();
    started.supervisor_pid = Some(1);
    assert!(kept(&started, false, false));
    let mut running = spec.clone();
    running.child_pid = Some(1);
    assert!(kept(&running, false, false));
    assert!(discard_prepared("/jobs", &spec.id, &Stored::Missing, false, false).is_none());
    assert!(discard_prepared("/jobs", "../x", &Stored::Found(spec), false, false).is_none());
}

#[test]
fn the_launched_condition_asks_for_its_job() {
    let mut state = empty();
    let spec = spec_for("build", "exit 0");
    let condition = launch(&mut state, "job-flow", &spec, Span::from_secs(120));
    assert_eq!(
        condition.command,
        vec![
            "/bin/open-wake",
            "job-ready",
            "--job-dir",
            "/jobs",
            "--job",
            "job-7-1234-0"
        ]
    );
    assert_eq!(condition.poll_every_ms, 1_000);
    assert_eq!(condition.check_timeout_ms, 5_000);
    assert_eq!(condition.timeout_ms, 120_000);
    assert_eq!(condition.job.unwrap().log_path, spec.log_path);
}

#[test]
fn recorded_job_completion_takes_precedence_over_a_late_deadline_check() {
    let mut state = empty();
    let spec = spec_for("build", "exit 7");
    launch(&mut state, "late-result", &spec, Span::from_millis(100));
    let mut run = start(&mut state, "late-result", NOW + 100);
    let HookAction::ReadJob(Some(job)) =
        handle_stop_hook(&mut state, &mut run, HookEvent::Wake, NOW + 100).unwrap()
    else {
        panic!("the deadline does not ask for the job");
    };
    assert_eq!(job.id, spec.id);
    let done = seen(&spec, Stored::Found(result(Some(7), None, None)), beat(NOW), NOW + 100);
    let reason = reason_of(
        handle_stop_hook(&mut state, &mut run, HookEvent::JobRead(Some(done)), NOW + 100).unwrap(),
    );
    assert!(reason.contains("condition met"));
    assert!(reason.contains("exit code 7"));
    assert!(!reason.contains("deadline reached"));
}

#[test]
fn a_running_job_does_not_hold_up_the_deadline() {
    let mut state = empty();
    let spec = spec_for("build", "sleep 9");
    launch(&mut state, "late-job", &spec, Span::from_millis(100));
    let mut run = start(&mut state, "late-job", NOW + 100);
    handle_stop_hook(&mut state, &mut run, HookEvent::Wake, NOW + 100).unwrap();
    let running = seen(&spec, Stored::Missing, beat(NOW), NOW + 100);
    let reason = reason_of(
        handle_stop_hook(&mut state, &mut run, HookEvent::JobRead(Some(running)), NOW + 100)
            .unwrap(),
    );
    assert!(reason.contains("deadline reached"));
    assert!(reason.contains("does not terminate the supervised command"));
    assert!(reason.contains("Job ID: `job-7-1234-0`."));
}

#[test]
fn cancel_releases_a_session_when_the_stop_hook_was_never_invoked() {
    let mut state = empty();
    let first = spec_for("first", "exit 0");
    let first_condition = launch(&mut state, "missed-hook", &first, Span::from_secs(5));
    let cancelled = cancel(&mut state, NOW + 10).unwrap();
    let line = cancel_line(&cancelled);
    assert!(line.contains("cancelled condition"));
    assert!(line.contains("supervised job remains unchanged"));

    let current = status(&state).unwrap().unwrap();
    assert_eq!(current.status, ConditionStatus::Cancelled);
    assert_eq!(current.attempts, 0);
    let job = seen(&first, Stored::Found(result(Some(0), None, None)), beat(NOW), NOW + 10);
    assert_eq!(job.unwrap().state, JobState::Completed);

    let mut second = spec_for("second", "exit 0");
    second.id = new_job_id(7, 1_235, 1);
    let second_condition = launch(&mut state, "missed-hook", &second, Span::from_secs(5));
    assert_ne!(second_condition.id, first_condition.id);
    assert_ne!(second.id, first.id);
}

#[test]
fn status_preserves_condition_evidence_when_job_state_is_missing() {
    let mut state = empty();
    let spec = spec_for("build", "exit 0");
    launch(&mut state, "missing-job", &spec, Span::from_secs(5));
    let shown = inspect_condition(&state, UNSEEN, NOW).unwrap().unwrap().condition;
    assert_eq!(shown.status, ConditionStatus::Armed);
    assert_eq!(shown.attempts, 0);
    let job = shown.job.unwrap();
    let error = snapshot(
        &job.root,
        &job.id,
        &Stored::Missing,
        &Stored::Missing,
        &Stored::Missing,
        NOW,
    )
    .unwrap_err();
    assert!(error.contains("job specification"));
}

#[test]
fn supervisor_launch_failure_cancels_the_armed_condition() {
    let mut state = empty();
    let spec = spec_for("build", "exit 0");
    let condition = launch(&mut state, "launch-failure", &spec, Span::from_secs(5));
    let error = "start detached job supervisor: No such file or directory (os error 2)";
    let cancelled = cancel_if_current(&mut state, &condition.id, NOW + 5);
    let record =
        try_record_spawn_failure("/jobs", &spec.id, error, &Stored::Found(spec.clone()), NOW + 5)
            .unwrap();
    assert_eq!(record.directory, "/jobs/job-7-1234-0");
    assert_eq!(record.result.duration_ms, 5);
    assert_eq!(record.result.error.as_deref(), Some(error));
    let stderr = launch_failure(error, &cancelled, &condition.id, &Ok(()), &spec.id);
    assert!(stderr.contains("cancelled condition"), "{stderr}");
    assert!(stderr.contains("retained failed job record"), "{stderr}");

    let current = status(&state).unwrap().unwrap();
    assert_eq!(current.status, ConditionStatus::Cancelled);
    let job = seen(&spec, Stored::Found(record.result), Stored::Missing, NOW + 5).unwrap();
    assert_eq!(job.state, JobState::SupervisorFailed);
}

#[test]
fn launch_failures_say_what_was_recovered() {
    assert_eq!(
        launch_failure("no supervisor", &Ok(None), "one", &Err("disk full".to_owned()), "job-1"),
        "no supervisor; left replacement condition unchanged after condition one; failed to retain job record job-1: disk full"
    );
    assert_eq!(
        launch_failure("no supervisor", &Err("locked".to_owned()), "one", &Ok(()), "job-1"),
        "no supervisor; failed to cancel condition one: locked; retained failed job record job-1"
    );
    assert_eq!(
        try_record_spawn_failure("/jobs", "..", "x", &Stored::Missing, NOW).unwrap_err(),
        "invalid job id `..`"
    );
    assert!(record_spawn_failure("/jobs", "..", "x", &Stored::Missing, NOW).is_none());
    assert!(record_spawn_failure("/jobs", "job-1", "x", &Stored::Missing, NOW).is_none());
    let spec = spec_for("build", "exit 0");
    let record =
        record_spawn_failure("/jobs", &spec.id, "x", &Stored::Found(spec.clone()), NOW + 1).unwrap();
    assert_eq!(record.result.completed_at_ms, NOW + 1);
}

#[test]
fn a_failed_launch_is_taken_back() {
    let mut state = empty();
    let spec = spec_for("build", "exit 0");
    let job = reference("/jobs", &spec).unwrap();
    let condition = launch(&mut state, "taken-back", &spec, Span::from_secs(5));
    let begun = Launch::new("taken-back".to_owned(), job.clone());
    let (armed, action) = launch_step(begun, LaunchEvent::Armed(Ok(condition.id.clone())));
    assert!(matches!(action, LaunchAction::Start(started) if started.id == spec.id));
    let (failed, action) =
        launch_step(armed, LaunchEvent::Started(Err("no supervisor".to_owned())));
    let LaunchAction::Cancel { session_id, condition_id } = action else {
        panic!("{action:?}");
    };
    assert_eq!(session_id, "taken-back");
    assert_eq!(condition_id, condition.id);
    let cancelled = cancel_if_current(&mut state, &condition_id, NOW + 5);
    let (freed, action) = launch_step(failed, LaunchEvent::Cancelled(cancelled));
    let LaunchAction::Record { job: recorded, error } = action else {
        panic!("{action:?}");
    };
    assert_eq!(recorded.id, spec.id);
    assert_eq!(recorded.root, "/jobs");
    assert_eq!(error, "no supervisor");
    let (ended, action) = launch_step(freed, LaunchEvent::Recorded(Ok(())));
    let LaunchAction::Finish(Err(text)) = action else {
        panic!("{action:?}");
    };
    assert_eq!(
        text,
        format!(
            "no supervisor; cancelled condition {}; retained failed job record {}",
            condition.id, spec.id
        )
    );
    assert_eq!(status(&state).unwrap().unwrap().status, ConditionStatus::Cancelled);
    let (_, action) = launch_step(ended, LaunchEvent::Discarded);
    assert!(matches!(
        action,
        LaunchAction::Finish(Err(text)) if text == "the steps of the launch are out of order"
    ));
}

#[test]
fn a_launch_ends_with_its_supervisor_or_without_its_job() {
    let spec = spec_for("build", "exit 0");
    let job = reference("/jobs", &spec).unwrap();
    let begun = || Launch::new("thread".to_owned(), job.clone());
    let (armed, _) = launch_step(begun(), LaunchEvent::Armed(Ok("one".to_owned())));
    let (_, action) = launch_step(armed, LaunchEvent::Started(Ok(77)));
    assert!(matches!(
        action,
        LaunchAction::Finish(Ok((condition_id, 77))) if condition_id == "one"
    ));
    let (refused, action) = launch_step(begun(), LaunchEvent::Armed(Err("busy".to_owned())));
    assert!(matches!(action, LaunchAction::Discard(discarded) if discarded.id == spec.id));
    let (_, action) = launch_step(refused, LaunchEvent::Discarded);
    assert!(matches!(action, LaunchAction::Finish(Err(error)) if error == "busy"));
}

#[test]
fn a_launcher_waits_for_the_first_heartbeat() {
    assert!(matches!(
        startup_step(true, false, &None, 0),
        StartupStep::Acknowledged
    ));
    assert!(matches!(
        startup_step(false, true, &Some("exit status: 1".to_owned()), 9_000),
        StartupStep::Acknowledged
    ));
    assert!(matches!(startup_step(false, false, &None, 4_999), StartupStep::Sleep(_)));
    assert!(matches!(startup_step(false, false, &None, 5_000), StartupStep::Failed(_)));
    assert!(matches!(
        startup_step(false, false, &Some("exit status: 1".to_owned()), 0),
        StartupStep::Failed(_)
    ));
}

#[test]
fn polling_and_checkpoint_flags_have_separate_replaced_contracts() {
    let spec = spec_for("build", "true");
    let job = reference("/jobs", &spec).unwrap();
    let asked = |every: Span| {
        let mut request = run_request(
            "cli-contract".to_owned(),
            None,
            "/work".to_owned(),
            "/bin/open-wake",
            Span::from_secs(120),
            Some(every),
            &job,
        );
        request.poll_every = Span::from_millis(50);
        arm(&mut empty(), request, true, "one".to_owned(), NOW)
    };
    assert!(warn_frequent_checkpoint(&Some(Span::from_secs(60))));
    let accepted = asked(Span::from_secs(60)).unwrap();
    assert_eq!(accepted.poll_every_ms, 50);
    assert_eq!(accepted.checkpoint_every_ms, Some(60_000));
    assert!(asked(Span::from_secs(30)).unwrap_err().contains("at least 1m"));
}

#[test]
fn the_launch_is_reported() {
    let report = run_report(
        "one".to_owned(),
        "job-1".to_owned(),
        99,
        "/jobs/job-1/output.log".to_owned(),
        Span::from_secs(120),
        Some(Span::from_secs(60)),
    );
    assert_eq!(report.timeout_ms, 120_000);
    assert_eq!(report.checkpoint_every_ms, Some(60_000));
    assert_eq!(
        open_wake::commands::run_line(&report, &Some(Span::from_secs(60))),
        "started job job-1 (supervisor 99); log: /jobs/job-1/output.log; checkpoint every 1m creates model turns; finish the Codex turn to wait"
    );
}

#[test]
fn logs_need_an_attached_job() {
    assert_eq!(
        attached_job(Ok(None), "thread").unwrap_err(),
        "no condition for Codex session thread"
    );
    assert_eq!(attached_job(Err("broken".to_owned()), "thread").unwrap_err(), "broken");
    let mut state = empty();
    let spec = spec_for("build", "true");
    let mut condition = launch(&mut state, "thread", &spec, Span::from_secs(5));
    assert_eq!(attached_job(status(&state), "thread").unwrap().id, spec.id);
    condition.job = None;
    condition.id = "one".to_owned();
    assert_eq!(
        attached_job(Ok(Some(condition)), "thread").unwrap_err(),
        "condition one is not attached to a supervised job"
    );
}

#[test]
fn jobs_are_listed_in_order_of_creation() {
    let at = |id: &str, created: u64| {
        let mut spec = spec_for(id, "true");
        spec.id = id.to_owned();
        spec.created_at_ms = created;
        JobEntry::Job(seen(&spec, Stored::Missing, Stored::Missing, created))
    };
    let jobs = list(
        "/jobs",
        Stored::Found(vec![at("c", 30), at("a", 10), JobEntry::Other, at("b", 10), at("d", 20)]),
    )
    .unwrap();
    let ids: Vec<&str> = jobs.iter().map(|job| job.id.as_str()).collect();
    assert_eq!(ids, vec!["a", "b", "d", "c"]);
    assert!(list("/jobs", Stored::Missing).unwrap().is_empty());
    assert_eq!(
        list("/jobs", Stored::Failed("denied".to_owned())).unwrap_err(),
        "read job root /jobs: denied"
    );
    assert_eq!(
        list("/jobs", Stored::Found(vec![JobEntry::Unreadable("gone".to_owned())])).unwrap_err(),
        "read job root entry: gone"
    );
    assert_eq!(
        list(
            "/jobs",
            Stored::Found(vec![JobEntry::Uninspected("/jobs/x".to_owned(), "gone".to_owned())])
        )
        .unwrap_err(),
        "inspect /jobs/x: gone"
    );
    assert_eq!(
        list(
            "/jobs",
            Stored::Found(vec![at("a", 1), JobEntry::Job(Err("read job result: gone".to_owned()))])
        )
        .unwrap_err(),
        "read job result: gone"
    );
}

#[test]
fn a_supervisor_runs_a_job_to_its_result() {
    let spec = spec_for("build", "exit 7");
    let mut run = Supervisor::new(77);
    let heartbeat = supervise(&mut run, SuperviseEvent::SpecRead(Stored::Found(spec)), NOW, 0);
    assert!(matches!(heartbeat, SuperviseAction::WriteHeartbeat(text) if text == format!("{NOW}\n")));
    let open = supervise(&mut run, SuperviseEvent::Done(Ok(())), NOW, 0);
    assert!(matches!(open, SuperviseAction::OpenLog(path) if path == "/jobs/job-7-1234-0/output.log"));
    let clone = supervise(&mut run, SuperviseEvent::Done(Ok(())), NOW, 0);
    assert!(matches!(clone, SuperviseAction::CloneLog));
    let spawn = supervise(&mut run, SuperviseEvent::Done(Ok(())), NOW + 3, 0);
    assert!(matches!(spawn, SuperviseAction::Spawn));
    let SuperviseAction::WriteSpec(written) =
        supervise(&mut run, SuperviseEvent::Spawned(Ok(78)), NOW + 4, 0)
    else {
        panic!("the start is not recorded");
    };
    assert_eq!(written.supervisor_pid, Some(77));
    assert_eq!(written.child_pid, Some(78));
    assert_eq!(written.started_at_ms, Some(NOW + 3));
    let poll = supervise(&mut run, SuperviseEvent::Done(Ok(())), NOW + 5, 100);
    assert!(matches!(poll, SuperviseAction::Poll));
    let sleep = supervise(&mut run, SuperviseEvent::Polled(Ok(None)), NOW + 5, 100);
    assert!(matches!(sleep, SuperviseAction::Sleep(250)));
    let early = supervise(&mut run, SuperviseEvent::Woke, NOW + 255, 1_099);
    assert!(matches!(early, SuperviseAction::Poll));
    supervise(&mut run, SuperviseEvent::Polled(Ok(None)), NOW + 255, 1_099);
    let due = supervise(&mut run, SuperviseEvent::Woke, NOW + 1_005, 1_100);
    assert!(matches!(due, SuperviseAction::WriteHeartbeat(text) if text == format!("{}\n", NOW + 1_005)));
    supervise(&mut run, SuperviseEvent::Done(Ok(())), NOW + 1_005, 1_100);
    let exit = ProcessExit { code: Some(7), signal: None };
    let SuperviseAction::WriteResult(result) =
        supervise(&mut run, SuperviseEvent::Polled(Ok(Some(exit))), NOW + 1_303, 1_400)
    else {
        panic!("the exit is not recorded");
    };
    assert_eq!(result.exit_code, Some(7));
    assert_eq!(result.signal, None);
    assert_eq!(result.duration_ms, 1_300);
    assert_eq!(result.completed_at_ms, NOW + 1_303);
    assert_eq!(result.error, None);
    let end = supervise(&mut run, SuperviseEvent::Done(Ok(())), NOW + 1_304, 1_401);
    assert!(matches!(end, SuperviseAction::Finish(Ok(()))));
}

#[test]
fn a_supervisor_records_the_first_error() {
    let spec = spec_for("build", "exit 7");
    let mut run = Supervisor::new(77);
    supervise(&mut run, SuperviseEvent::SpecRead(Stored::Found(spec.clone())), NOW, 0);
    let reread = supervise(
        &mut run,
        SuperviseEvent::Done(Err("disk full".to_owned())),
        NOW + 2,
        0,
    );
    assert!(matches!(reread, SuperviseAction::ReadSpec));
    let SuperviseAction::WriteResult(result) =
        supervise(&mut run, SuperviseEvent::SpecRead(Stored::Found(spec.clone())), NOW + 2, 0)
    else {
        panic!("the failure is not recorded");
    };
    assert_eq!(result.error.as_deref(), Some("write supervisor heartbeat: disk full"));
    assert_eq!(result.duration_ms, 2);
    let end = supervise(
        &mut run,
        SuperviseEvent::Done(Err("still full".to_owned())),
        NOW + 2,
        0,
    );
    assert!(matches!(
        end,
        SuperviseAction::Finish(Err(error)) if error == "write supervisor heartbeat: disk full"
    ));

    let mut run = Supervisor::new(77);
    supervise(&mut run, SuperviseEvent::SpecRead(Stored::Missing), NOW, 0);
    let end = supervise(&mut run, SuperviseEvent::SpecRead(Stored::Missing), NOW, 0);
    assert!(matches!(
        end,
        SuperviseAction::Finish(Err(error))
            if error == "read job specification: No such file or directory (os error 2)"
    ));

    let mut run = Supervisor::new(77);
    supervise(&mut run, SuperviseEvent::SpecRead(Stored::Found(spec.clone())), NOW, 0);
    for _ in 0..3 {
        supervise(&mut run, SuperviseEvent::Done(Ok(())), NOW, 0);
    }
    supervise(&mut run, SuperviseEvent::Spawned(Err("not found".to_owned())), NOW, 0);
    let end = supervise(&mut run, SuperviseEvent::SpecRead(Stored::Missing), NOW, 0);
    assert!(matches!(
        end,
        SuperviseAction::Finish(Err(error))
            if error == "start job command [\"sh\", \"-c\", \"exit 7\"]: not found"
    ));
}

#[test]
fn the_job_root_has_a_strict_override_and_a_fallback() {
    let of = |given: Option<&str>, state: Option<&str>, home: Option<&str>, creatable: bool| {
        default_job_root(
            given.map(str::to_owned),
            state.map(str::to_owned),
            home.map(str::to_owned),
            creatable,
            "ada",
        )
    };
    assert_eq!(of(Some("/given"), Some("/state"), Some("/home/ada"), false), "/given");
    assert_eq!(of(None, Some("/state"), Some("/home/ada"), true), "/state/open-wake/jobs");
    assert_eq!(
        of(None, None, Some("/home/ada"), true),
        "/home/ada/.local/state/open-wake/jobs"
    );
    assert_eq!(of(None, Some("/state"), None, false), "/var/tmp/open-wake-ada/jobs");
    assert_eq!(of(None, None, None, true), "/var/tmp/open-wake-ada/jobs");
}
