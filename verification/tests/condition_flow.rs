use open_wake::condition::MIN_CHECKPOINT_INTERVAL_MS;
use open_wake::{
    arm, cancel, cancel_if_current, deliver_hook_notification, handle_stop_hook,
    inspect_condition, refresh_hook_heartbeat, status, ArmRequest, CheckResult, Condition,
    ConditionStatus, DeliveryAction, DeliveryEvent, DeliveryStatus, HookAction, HookEvent,
    HookLease, HookOwner, HookPhase, HookResult, HookRun, Observation, PendingDelivery,
    SessionState, Span, StopHookInput, Stored, WatcherState,
};

const NOW: u64 = 1_700_000_000_000;

const NOTHING_SEEN: Observation = Observation {
    lease_process_exists: false,
    delivery_process_exists: false,
    modified_at_ms: None,
};

const ALL_ALIVE: Observation = Observation {
    lease_process_exists: true,
    delivery_process_exists: true,
    modified_at_ms: None,
};

fn empty() -> SessionState {
    SessionState {
        condition: Stored::Missing,
        lease: Stored::Missing,
        delivery: Stored::Missing,
    }
}

fn input(session_id: &str) -> StopHookInput {
    StopHookInput {
        session_id: session_id.to_owned(),
        hook_event_name: "Stop".to_owned(),
    }
}

fn owner(id: &str) -> HookOwner {
    HookOwner {
        owner_id: id.to_owned(),
        pid: 4_242,
        turn_id: Some("test-turn".to_owned()),
        parent_pid: Some(1),
        process_group_id: Some(4_242),
    }
}

fn words(list: &[&str]) -> Vec<String> {
    list.iter().map(|word| (*word).to_owned()).collect()
}

fn request(session_id: &str, command: Vec<String>) -> ArmRequest {
    ArmRequest {
        session_id: session_id.to_owned(),
        label: Some("integration check".to_owned()),
        cwd: "/work".to_owned(),
        command,
        timeout: Span::from_secs(2),
        poll_every: Span::from_millis(50),
        check_timeout: Span::from_secs(1),
        checkpoint_every: None,
        job: None,
    }
}

fn armed(session_id: &str, command: &[&str], id: &str) -> SessionState {
    let mut state = empty();
    arm(&mut state, request(session_id, words(command)), true, id.to_owned(), NOW).unwrap();
    state
}

fn condition(state: &SessionState) -> Condition {
    status(state).unwrap().unwrap()
}

fn edit(state: &mut SessionState, change: impl FnOnce(&mut Condition)) {
    let Stored::Found(condition) = &mut state.condition else {
        panic!("the session has no condition");
    };
    change(condition);
}

fn check(exit_code: i32, output: &str) -> HookEvent {
    HookEvent::Checked(CheckResult {
        exit_code: Some(exit_code),
        output: output.to_owned(),
        timed_out: false,
    })
}

fn step(state: &mut SessionState, run: &mut HookRun, event: HookEvent, now: u64) -> HookAction {
    handle_stop_hook(state, run, event, now).unwrap()
}

fn finished(action: HookAction) -> HookResult {
    match action {
        HookAction::Finish(result) => result,
        other => panic!("the hook goes on: {other:?}"),
    }
}

fn continued(action: HookAction) -> String {
    match finished(action) {
        HookResult::Continue(reason) => reason,
        HookResult::Noop => panic!("expected continuation"),
    }
}

fn start(state: &mut SessionState, session: &str, owner_id: &str, now: u64) -> HookRun {
    let mut run = HookRun::new(input(session), owner(owner_id));
    let action = step(state, &mut run, HookEvent::Stop(NOTHING_SEEN), now);
    assert!(matches!(action, HookAction::Watch), "{action:?}");
    run
}

fn stop(state: &mut SessionState, session: &str, seen: Observation, now: u64) -> HookAction {
    let mut run = HookRun::new(input(session), owner("later-hook"));
    step(state, &mut run, HookEvent::Stop(seen), now)
}

fn deliver(state: &mut SessionState, run: &HookRun) -> DeliveryStatus {
    let id = run.watched.clone().unwrap();
    let owner_id = run.owner.owner_id.clone();
    match deliver_hook_notification(state, &id, &owner_id, DeliveryEvent::Ready).unwrap() {
        DeliveryAction::Finish(status) => return status,
        DeliveryAction::Write => {}
        DeliveryAction::Clear => panic!("nothing was written"),
    }
    let cleared =
        deliver_hook_notification(state, &id, &owner_id, DeliveryEvent::Written(Ok(()))).unwrap();
    assert!(matches!(cleared, DeliveryAction::Clear));
    match deliver_hook_notification(state, &id, &owner_id, DeliveryEvent::Cleared(Ok(()))).unwrap()
    {
        DeliveryAction::Finish(status) => status,
        other => panic!("{other:?}"),
    }
}

fn stale_lease(condition_id: &str, now: u64) -> HookLease {
    HookLease {
        version: 1,
        condition_id: condition_id.to_owned(),
        owner: HookOwner {
            owner_id: "interrupted-hook".to_owned(),
            pid: 999_999,
            turn_id: None,
            parent_pid: None,
            process_group_id: None,
        },
        heartbeat_at_ms: now - 30_000,
        started_at_ms: None,
        phase: None,
        phase_at_ms: None,
        last_check_started_at_ms: None,
    }
}

#[test]
fn checkpoint_wakes_without_resolving_or_restarting_the_condition() {
    let mut state = empty();
    let mut asked = request("thread-checkpoint", words(&["sh", "-c", "test -e ready"]));
    asked.timeout = Span::from_secs(120);
    asked.checkpoint_every = Some(Span::from_secs(60));
    arm(&mut state, asked, true, "one".to_owned(), NOW).unwrap();
    edit(&mut state, |condition| {
        condition.next_checkpoint_at_ms = Some(condition.created_at_ms + 1);
    });

    let mut run = start(&mut state, "thread-checkpoint", "first", NOW + 10);
    assert!(matches!(
        step(&mut state, &mut run, HookEvent::Wake, NOW + 10),
        HookAction::Check(1_000)
    ));
    let reason = continued(step(&mut state, &mut run, check(1, ""), NOW + 20));
    assert!(reason.contains("progress checkpoint 1"));
    let current = condition(&state);
    assert_eq!(current.status, ConditionStatus::Armed);
    assert_eq!(current.checkpoints, 1);
    assert_eq!(current.id, "one");
    assert_eq!(current.next_checkpoint_at_ms, Some(NOW + 20 + 60_000));
    assert_eq!(deliver(&mut state, &run), DeliveryStatus::Delivered);

    let mut run = HookRun::new(input("thread-checkpoint"), owner("second"));
    assert!(matches!(
        step(&mut state, &mut run, HookEvent::Stop(ALL_ALIVE), NOW + 30),
        HookAction::Watch
    ));
    step(&mut state, &mut run, HookEvent::Wake, NOW + 30);
    let reason = continued(step(&mut state, &mut run, check(0, ""), NOW + 40));
    assert!(reason.contains("condition met"));
    let current = condition(&state);
    assert_eq!(current.status, ConditionStatus::Succeeded);
    assert!(current.attempts >= 2);
}

#[test]
fn successful_predicate_becomes_one_continuation() {
    let mut state = armed("thread-success", &["sh", "-c", "printf ready"], "one");
    let mut run = start(&mut state, "thread-success", "hook", NOW);
    step(&mut state, &mut run, HookEvent::Wake, NOW);
    let reason = continued(step(&mut state, &mut run, check(0, "ready"), NOW + 10));
    assert!(reason.contains("condition met"));
    assert!(reason.contains("ready"));
    assert!(reason.contains("Last exit code: 0."));
    assert!(!reason.contains("Some(0)"));

    let current = condition(&state);
    assert_eq!(current.status, ConditionStatus::Succeeded);
    assert_eq!(current.attempts, 1);
    assert_eq!(
        finished(stop(&mut state, "thread-success", ALL_ALIVE, NOW + 20)),
        HookResult::Noop
    );
    assert_eq!(deliver(&mut state, &run), DeliveryStatus::Delivered);
    assert_eq!(
        finished(stop(&mut state, "thread-success", NOTHING_SEEN, NOW + 60_000)),
        HookResult::Noop
    );
}

#[test]
fn the_continuation_is_written_out_in_full() {
    let mut state = armed("thread-text", &["sh", "-c", "printf 'it''s'"], "one");
    let mut run = start(&mut state, "thread-text", "hook", NOW);
    step(&mut state, &mut run, HookEvent::Wake, NOW);
    let reason = continued(step(&mut state, &mut run, check(0, "ready  \n"), NOW + 1_500));
    assert_eq!(
        reason,
        "open-wake: condition met for `integration check` after 1s 500ms (1 checks). Continue the task now. Predicate: `'sh' '-c' 'printf '\\''it'\\'''\\''s'\\'''`. Last exit code: 0.\n\nLast predicate output (bounded):\n```text\nready\n```"
    );
}

#[test]
fn false_predicate_continues_at_deadline_with_last_result() {
    let mut state = armed("thread-timeout", &["sh", "-c", "printf not-yet; exit 1"], "one");
    let mut run = start(&mut state, "thread-timeout", "hook", NOW);
    step(&mut state, &mut run, HookEvent::Wake, NOW);
    let sleep = step(&mut state, &mut run, check(1, "not-yet"), NOW + 10);
    assert!(matches!(sleep, HookAction::Sleep(50)));
    let read = step(&mut state, &mut run, HookEvent::Wake, NOW + 2_000);
    assert!(matches!(read, HookAction::ReadJob(None)));
    let reason = continued(step(&mut state, &mut run, HookEvent::JobRead(None), NOW + 2_000));
    assert!(reason.contains("deadline reached"));
    assert!(reason.contains("not-yet"));

    let current = condition(&state);
    assert_eq!(current.status, ConditionStatus::TimedOut);
    assert!(current.attempts >= 1);
}

#[test]
fn a_check_and_a_nap_never_reach_past_the_deadline() {
    let mut state = armed("thread-budget", &["true"], "one");
    let mut run = start(&mut state, "thread-budget", "hook", NOW);
    assert!(matches!(
        step(&mut state, &mut run, HookEvent::Wake, NOW + 1_990),
        HookAction::Check(10)
    ));
    assert!(matches!(
        step(&mut state, &mut run, check(1, ""), NOW + 1_995),
        HookAction::Sleep(5)
    ));
}

#[test]
fn cancellation_is_terminal_without_a_stop_hook_and_allows_rearming() {
    let mut state = armed("thread-cancel", &["sh", "-c", "exit 1"], "one");
    let cancelled_id = condition(&state).id;
    let cancelled = cancel(&mut state, NOW + 5).unwrap();

    assert_eq!(cancelled.status, ConditionStatus::Cancelled);
    assert!(cancelled.resolved_at_ms.is_some());
    let repeated = cancel(&mut state, NOW + 9).unwrap();
    assert_eq!(repeated.id, cancelled.id);
    assert_eq!(repeated.resolved_at_ms, cancelled.resolved_at_ms);
    assert_eq!(
        finished(stop(&mut state, "thread-cancel", NOTHING_SEEN, NOW + 10)),
        HookResult::Noop
    );

    let replacement = arm(
        &mut state,
        request("thread-cancel", words(&["sh", "-c", "exit 1"])),
        true,
        "two".to_owned(),
        NOW + 20,
    )
    .unwrap();
    assert_ne!(replacement.id, cancelled_id);
    assert_eq!(replacement.status, ConditionStatus::Armed);
}

#[test]
fn rearming_removes_a_stale_owner_from_the_previous_condition() {
    let mut state = armed("thread-rearm-owner", &["true"], "one");
    cancel(&mut state, NOW).unwrap();
    let mut lease = stale_lease("one", NOW);
    lease.owner.owner_id = "old-owner".to_owned();
    lease.heartbeat_at_ms = 0;
    state.lease = Stored::Found(lease);

    arm(
        &mut state,
        request("thread-rearm-owner", words(&["true"])),
        true,
        "two".to_owned(),
        NOW,
    )
    .unwrap();
    assert!(matches!(state.lease, Stored::Missing));
}

#[test]
fn stale_hook_cannot_overwrite_a_rearmed_condition() {
    let mut state = armed("thread-rearm", &["sh", "-c", "sleep 0.3"], "one");
    let mut run = start(&mut state, "thread-rearm", "hook", NOW);
    step(&mut state, &mut run, HookEvent::Wake, NOW);

    cancel(&mut state, NOW + 100).unwrap();
    let replacement = arm(
        &mut state,
        request("thread-rearm", words(&["sh", "-c", "exit 1"])),
        true,
        "two".to_owned(),
        NOW + 110,
    )
    .expect("cancellation should release the session immediately");
    assert_eq!(
        finished(step(&mut state, &mut run, check(0, ""), NOW + 300)),
        HookResult::Noop
    );
    let current = condition(&state);
    assert_eq!(current.id, replacement.id);
    assert_eq!(current.status, ConditionStatus::Armed);
    assert_eq!(current.attempts, 0);
}

#[test]
fn stale_launcher_cannot_cancel_a_rearmed_condition() {
    let mut state = armed("thread-launcher-race", &["sh", "-c", "exit 1"], "one");
    let original = condition(&state);
    cancel(&mut state, NOW).unwrap();
    let replacement = arm(
        &mut state,
        request("thread-launcher-race", words(&["sh", "-c", "exit 1"])),
        true,
        "two".to_owned(),
        NOW,
    )
    .unwrap();

    assert!(cancel_if_current(&mut state, &original.id, NOW).unwrap().is_none());
    let current = condition(&state);
    assert_eq!(current.id, replacement.id);
    assert_eq!(current.status, ConditionStatus::Armed);
    let cancelled = cancel_if_current(&mut state, &replacement.id, NOW).unwrap().unwrap();
    assert_eq!(cancelled.status, ConditionStatus::Cancelled);
}

#[test]
fn a_second_hook_cannot_observe_the_same_condition_concurrently() {
    let mut state = armed("thread-single-waiter", &["sh", "-c", "sleep 0.3; exit 1"], "one");
    let mut run = start(&mut state, "thread-single-waiter", "hook", NOW);
    step(&mut state, &mut run, HookEvent::Wake, NOW);

    let duplicate = stop(&mut state, "thread-single-waiter", ALL_ALIVE, NOW + 100);
    assert_eq!(finished(duplicate), HookResult::Noop);

    cancel(&mut state, NOW + 200).unwrap();
    assert_eq!(
        finished(step(&mut state, &mut run, check(1, ""), NOW + 300)),
        HookResult::Noop
    );
}

#[test]
fn an_interrupted_hook_is_recovered_by_the_next_stop_hook() {
    let mut state = armed("thread-hook-recovery", &["sh", "-c", "test -e ready"], "one");
    edit(&mut state, |condition| {
        condition.status = ConditionStatus::Waiting;
        condition.attempts = 7;
    });
    state.lease = Stored::Found(stale_lease("one", NOW));

    let snapshot = inspect_condition(&state, NOTHING_SEEN, NOW).unwrap().unwrap();
    assert_eq!(snapshot.watcher.state, WatcherState::Stale);
    assert_eq!(snapshot.watcher.owner_id.as_deref(), Some("interrupted-hook"));
    assert_eq!(snapshot.watcher.heartbeat_age_ms, Some(30_000));

    let mut run = start(&mut state, "thread-hook-recovery", "recovery", NOW);
    assert_eq!(run.stale_output.as_deref(), Some("interrupted-hook"));
    step(&mut state, &mut run, HookEvent::Wake, NOW);
    let reason = continued(step(&mut state, &mut run, check(0, ""), NOW + 1));
    assert!(reason.contains("condition met"));

    let recovered = condition(&state);
    assert_eq!(recovered.id, "one");
    assert_eq!(recovered.status, ConditionStatus::Succeeded);
    assert_eq!(recovered.attempts, 8);
    assert!(matches!(state.lease, Stored::Missing));
}

#[test]
fn a_recent_version_one_waiting_record_is_not_stolen_from_a_legacy_hook() {
    let mut state = armed("thread-legacy-recent", &["true"], "one");
    edit(&mut state, |condition| {
        condition.version = 1;
        condition.status = ConditionStatus::Waiting;
    });
    let seen = Observation { modified_at_ms: Some(NOW), ..NOTHING_SEEN };

    let snapshot = inspect_condition(&state, seen, NOW + 100).unwrap().unwrap();
    assert_eq!(snapshot.watcher.state, WatcherState::LegacyUnknown);
    assert_eq!(
        finished(stop(&mut state, "thread-legacy-recent", seen, NOW + 100)),
        HookResult::Noop
    );
}

#[test]
fn a_stale_version_one_waiting_record_is_recovered_after_legacy_grace() {
    let mut state = armed("thread-legacy-stale", &["sh", "-c", "test -e ready"], "one");
    edit(&mut state, |condition| {
        condition.version = 1;
        condition.status = ConditionStatus::Waiting;
    });
    let seen = Observation { modified_at_ms: Some(NOW - 31_000), ..NOTHING_SEEN };
    let snapshot = inspect_condition(&state, seen, NOW).unwrap().unwrap();
    assert_eq!(snapshot.watcher.state, WatcherState::Stale);

    let mut run = HookRun::new(input("thread-legacy-stale"), owner("hook"));
    assert!(matches!(
        step(&mut state, &mut run, HookEvent::Stop(seen), NOW),
        HookAction::Watch
    ));
    step(&mut state, &mut run, HookEvent::Wake, NOW);
    let reason = continued(step(&mut state, &mut run, check(0, ""), NOW));
    assert!(reason.contains("condition met"));
}

#[test]
fn a_legacy_record_is_given_its_own_intervals() {
    let mut state = armed("thread-legacy-slow", &["true"], "one");
    edit(&mut state, |condition| {
        condition.version = 1;
        condition.status = ConditionStatus::Waiting;
        condition.poll_every_ms = 40_000;
        condition.check_timeout_ms = 10_000;
    });
    let at = |age: u64| Observation { modified_at_ms: Some(NOW - age), ..NOTHING_SEEN };
    let state_at = |age: u64| {
        inspect_condition(&state, at(age), NOW).unwrap().unwrap().watcher.state
    };
    assert_eq!(state_at(54_999), WatcherState::LegacyUnknown);
    assert_eq!(state_at(55_000), WatcherState::Stale);
}

#[test]
fn a_rapid_legacy_checkpoint_is_migrated_to_the_v2_minimum() {
    let mut state = armed("thread-legacy-checkpoint", &["true"], "one");
    edit(&mut state, |condition| {
        condition.version = 1;
        condition.timeout_ms = 120_000;
        condition.checkpoint_every_ms = Some(150);
        condition.next_checkpoint_at_ms = Some(condition.created_at_ms + 150);
        condition.status = ConditionStatus::Waiting;
    });
    let seen = Observation { modified_at_ms: Some(NOW - 31_000), ..NOTHING_SEEN };
    let mut run = HookRun::new(input("thread-legacy-checkpoint"), owner("hook"));
    step(&mut state, &mut run, HookEvent::Stop(seen), NOW + 1_000);
    step(&mut state, &mut run, HookEvent::Wake, NOW + 1_000);
    let reason = continued(step(&mut state, &mut run, check(0, ""), NOW + 1_000));
    assert!(reason.contains("condition met"));

    let migrated = condition(&state);
    assert_eq!(migrated.version, 2);
    assert_eq!(migrated.checkpoint_every_ms, Some(60_000));
    assert_eq!(migrated.checkpoint_every_ms, Some(MIN_CHECKPOINT_INTERVAL_MS));
    assert!(migrated.next_checkpoint_at_ms.unwrap() > migrated.created_at_ms + 150);
}

#[test]
fn a_legacy_checkpoint_that_no_longer_fits_is_dropped() {
    let mut state = armed("thread-legacy-late", &["true"], "one");
    edit(&mut state, |condition| {
        condition.version = 1;
        condition.timeout_ms = 61_000;
        condition.checkpoint_every_ms = Some(150);
        condition.next_checkpoint_at_ms = Some(condition.created_at_ms + 150);
    });
    start(&mut state, "thread-legacy-late", "hook", NOW + 1_000);
    let migrated = condition(&state);
    assert_eq!(migrated.checkpoint_every_ms, None);
    assert_eq!(migrated.next_checkpoint_at_ms, None);
}

#[test]
fn a_checkpoint_that_would_pass_the_deadline_is_the_last() {
    let mut state = empty();
    let mut asked = request("thread-last-checkpoint", words(&["false"]));
    asked.timeout = Span::from_secs(150);
    asked.checkpoint_every = Some(Span::from_secs(60));
    arm(&mut state, asked, true, "one".to_owned(), NOW).unwrap();
    let mut run = start(&mut state, "thread-last-checkpoint", "hook", NOW);
    step(&mut state, &mut run, HookEvent::Wake, NOW + 100_000);
    let reason = continued(step(&mut state, &mut run, check(1, ""), NOW + 100_000));
    assert!(reason.contains("progress checkpoint 1"));
    let current = condition(&state);
    assert_eq!(current.status, ConditionStatus::Armed);
    assert_eq!(current.checkpoint_every_ms, None);
    assert_eq!(current.next_checkpoint_at_ms, None);
}

#[test]
fn unsupported_condition_versions_fail_closed() {
    let mut state = armed("thread-future-state", &["true"], "one");
    edit(&mut state, |condition| condition.version = 3);

    let error = status(&state).unwrap_err();
    assert!(
        error.contains("unsupported condition version"),
        "unexpected error: {error}"
    );
    assert_eq!(error, "read condition: unsupported condition version 3");
}

#[test]
fn inspecting_a_missing_condition_does_not_create_state_files() {
    let state = empty();
    let snapshot = inspect_condition(&state, NOTHING_SEEN, NOW).unwrap();
    assert!(snapshot.is_none());
    assert!(matches!(state.condition, Stored::Missing));
    assert!(matches!(state.lease, Stored::Missing));
    assert!(matches!(state.delivery, Stored::Missing));
}

#[test]
fn concurrent_arms_create_exactly_one_active_condition() {
    let mut state = empty();
    let results: Vec<_> = (0..8)
        .map(|contender| {
            arm(
                &mut state,
                request("thread-concurrent-arm", words(&["sh", "-c", "exit 1"])),
                true,
                format!("contender-{contender}"),
                NOW,
            )
        })
        .collect();

    assert_eq!(results.iter().filter(|result| result.is_ok()).count(), 1);
    assert!(
        results
            .iter()
            .filter_map(|result| result.as_ref().err())
            .all(|error| error.contains("already active"))
    );
    assert_eq!(condition(&state).status, ConditionStatus::Armed);
}

#[test]
fn legacy_cancel_requested_record_is_terminal_and_can_be_normalized() {
    let mut state = armed("thread-legacy-cancel", &["sh", "-c", "exit 1"], "one");
    edit(&mut state, |condition| condition.status = ConditionStatus::CancelRequested);

    assert_eq!(condition(&state).status, ConditionStatus::CancelRequested);
    assert!(!condition(&state).status.is_active());
    let normalized = cancel(&mut state, NOW + 1).unwrap();
    assert_eq!(normalized.status, ConditionStatus::Cancelled);
    assert!(normalized.resolved_at_ms.is_some());
    assert!(
        arm(
            &mut state,
            request("thread-legacy-cancel", words(&["sh", "-c", "exit 1"])),
            true,
            "two".to_owned(),
            NOW + 2,
        )
        .is_ok()
    );
}

#[test]
fn only_armed_and_waiting_records_block_rearming() {
    for status in [
        ConditionStatus::CancelRequested,
        ConditionStatus::Succeeded,
        ConditionStatus::TimedOut,
        ConditionStatus::Failed,
        ConditionStatus::Cancelled,
    ] {
        let mut state = armed("terminal", &["sh", "-c", "exit 1"], "one");
        edit(&mut state, |condition| condition.status = status);
        assert!(
            arm(
                &mut state,
                request("terminal", words(&["sh", "-c", "exit 1"])),
                true,
                "two".to_owned(),
                NOW,
            )
            .is_ok(),
            "{status:?} should be terminal"
        );
    }

    for status in [ConditionStatus::Armed, ConditionStatus::Waiting] {
        let mut state = armed("active", &["sh", "-c", "exit 1"], "one");
        edit(&mut state, |condition| condition.status = status);
        assert!(
            arm(
                &mut state,
                request("active", words(&["sh", "-c", "exit 1"])),
                true,
                "two".to_owned(),
                NOW,
            )
            .is_err(),
            "{status:?} should remain active"
        );
    }
}

#[test]
fn cancellation_does_not_replace_non_cancel_terminal_outcomes() {
    for status in [
        ConditionStatus::Succeeded,
        ConditionStatus::TimedOut,
        ConditionStatus::Failed,
    ] {
        let mut state = armed("resolved", &["sh", "-c", "exit 1"], "one");
        edit(&mut state, |condition| condition.status = status);
        let error = cancel(&mut state, NOW).unwrap_err();
        assert!(error.contains("is already terminal"));
        assert_eq!(condition(&state).status, status);
    }
}

#[test]
fn cancelling_without_a_condition_says_so() {
    let mut state = empty();
    assert_eq!(
        cancel(&mut state, NOW).unwrap_err(),
        "read condition: No such file or directory (os error 2)"
    );
}

#[test]
fn corrupt_condition_is_not_silently_replaced() {
    let mut state = empty();
    state.condition = Stored::Failed("expected value at line 1 column 1".to_owned());

    let error = arm(
        &mut state,
        request("thread-corrupt", words(&["sh", "-c", "exit 1"])),
        true,
        "one".to_owned(),
        NOW,
    )
    .unwrap_err();

    assert!(error.contains("read existing condition"));
    assert!(matches!(state.condition, Stored::Failed(_)));
}

#[test]
fn invalid_predicate_wakes_codex_with_the_error() {
    let command = words(&["definitely-not-a-real-open-wake-command"]);
    let failure = open_wake::start_failure(&command, "No such file or directory (os error 2)");
    assert_eq!(
        failure,
        "start predicate [\"definitely-not-a-real-open-wake-command\"]: No such file or directory (os error 2)"
    );
    let mut state = armed("thread-error", &["definitely-not-a-real-open-wake-command"], "one");
    let mut run = start(&mut state, "thread-error", "hook", NOW);
    step(&mut state, &mut run, HookEvent::Wake, NOW);
    let reason = continued(step(&mut state, &mut run, HookEvent::CheckFailed(failure), NOW));
    assert!(reason.contains("condition check failed"));
    assert!(reason.contains("No such file or directory"));
    assert_eq!(condition(&state).status, ConditionStatus::Failed);
}

#[test]
fn a_continuation_is_retried_until_it_was_written() {
    let mut state = armed("thread-retry", &["true"], "one");
    let mut run = start(&mut state, "thread-retry", "hook", NOW);
    step(&mut state, &mut run, HookEvent::Wake, NOW);
    let reason = continued(step(&mut state, &mut run, check(0, "done"), NOW));
    let before = condition(&state);

    let mut second = HookRun::new(input("thread-retry"), owner("second"));
    let retried = continued(step(
        &mut state,
        &mut second,
        HookEvent::Stop(NOTHING_SEEN),
        NOW + 100,
    ));
    assert_eq!(retried, reason);
    let after = condition(&state);
    assert_eq!(after.attempts, before.attempts);
    assert_eq!(after.resolved_at_ms, before.resolved_at_ms);

    assert_eq!(deliver(&mut state, &run), DeliveryStatus::Superseded);
    assert_eq!(deliver(&mut state, &second), DeliveryStatus::Delivered);
    assert_eq!(
        finished(stop(&mut state, "thread-retry", NOTHING_SEEN, NOW + 200)),
        HookResult::Noop
    );
}

#[test]
fn a_checkpoint_that_is_being_written_is_left_alone() {
    let mut state = empty();
    let mut asked = request("thread-writing", words(&["false"]));
    asked.timeout = Span::from_secs(120);
    asked.checkpoint_every = Some(Span::from_secs(60));
    arm(&mut state, asked, true, "one".to_owned(), NOW).unwrap();
    let mut run = start(&mut state, "thread-writing", "first", NOW + 10);
    step(&mut state, &mut run, HookEvent::Wake, NOW + 60_000);
    let reason = continued(step(&mut state, &mut run, check(1, "half"), NOW + 60_000));
    assert!(reason.contains("progress checkpoint 1"));

    assert_eq!(
        finished(stop(&mut state, "thread-writing", ALL_ALIVE, NOW + 60_010)),
        HookResult::Noop
    );
    assert_eq!(condition(&state).status, ConditionStatus::Armed);
    assert!(matches!(&state.delivery, Stored::Found(pending) if pending.message == reason));

    let mut second = HookRun::new(input("thread-writing"), owner("second"));
    let retried =
        continued(step(&mut state, &mut second, HookEvent::Stop(NOTHING_SEEN), NOW + 60_020));
    assert_eq!(retried, reason);
    assert_eq!(condition(&state).attempts, 1);
    assert_eq!(deliver(&mut state, &run), DeliveryStatus::Superseded);
    assert_eq!(deliver(&mut state, &second), DeliveryStatus::Delivered);
    start(&mut state, "thread-writing", "third", NOW + 60_030);
}

#[test]
fn an_old_delivery_is_retried_though_its_process_lives() {
    let mut state = armed("thread-old-delivery", &["true"], "one");
    let mut run = start(&mut state, "thread-old-delivery", "hook", NOW);
    step(&mut state, &mut run, HookEvent::Wake, NOW);
    let reason = continued(step(&mut state, &mut run, check(0, ""), NOW));
    assert_eq!(
        finished(stop(&mut state, "thread-old-delivery", ALL_ALIVE, NOW + 5_000)),
        HookResult::Noop
    );
    assert_eq!(
        continued(stop(&mut state, "thread-old-delivery", ALL_ALIVE, NOW + 5_001)),
        reason
    );
}

#[test]
fn a_failed_write_keeps_the_continuation() {
    let mut state = armed("thread-write", &["true"], "one");
    let mut run = start(&mut state, "thread-write", "hook", NOW);
    step(&mut state, &mut run, HookEvent::Wake, NOW);
    continued(step(&mut state, &mut run, check(0, ""), NOW));
    let error = deliver_hook_notification(
        &mut state,
        "one",
        "hook",
        DeliveryEvent::Written(Err("write hook output: broken pipe".to_owned())),
    )
    .unwrap_err();
    assert_eq!(error, "write hook output: broken pipe");
    assert!(matches!(state.delivery, Stored::Found(_)));
    let unacknowledged = deliver_hook_notification(
        &mut state,
        "one",
        "hook",
        DeliveryEvent::Cleared(Err("read-only file system".to_owned())),
    )
    .unwrap();
    assert!(matches!(
        unacknowledged,
        DeliveryAction::Finish(DeliveryStatus::DeliveredButUnacknowledged(_))
    ));
}

#[test]
fn an_unreadable_delivery_is_an_error() {
    let mut state = armed("thread-bad-delivery", &["true"], "one");
    state.delivery = Stored::Found(PendingDelivery {
        version: 2,
        condition_id: "one".to_owned(),
        owner: owner("hook"),
        prepared_at_ms: NOW,
        message: String::new(),
    });
    let mut run = HookRun::new(input("thread-bad-delivery"), owner("hook"));
    let error =
        handle_stop_hook(&mut state, &mut run, HookEvent::Stop(NOTHING_SEEN), NOW).unwrap_err();
    assert_eq!(error, "read pending delivery: invalid pending delivery");
    assert_eq!(
        deliver_hook_notification(&mut state, "one", "hook", DeliveryEvent::Ready).unwrap_err(),
        "read pending delivery: invalid pending delivery"
    );
}

#[test]
fn an_owner_that_cannot_be_recorded_is_refused() {
    let mut state = armed("thread-bad-owner", &["true"], "one");
    let mut bad = owner("hook");
    bad.pid = 0;
    let mut run = HookRun::new(input("thread-bad-owner"), bad);
    let error =
        handle_stop_hook(&mut state, &mut run, HookEvent::Stop(NOTHING_SEEN), NOW).unwrap_err();
    assert_eq!(error, "acquire hook lease: invalid hook owner lease");
    assert_eq!(condition(&state).status, ConditionStatus::Waiting);
    assert!(matches!(state.lease, Stored::Missing));
}

#[test]
fn an_unreadable_lease_stops_a_running_hook() {
    let mut state = armed("thread-bad-lease", &["true"], "one");
    let mut run = start(&mut state, "thread-bad-lease", "hook", NOW);
    state.lease = Stored::Failed("expected value".to_owned());
    let error = handle_stop_hook(&mut state, &mut run, HookEvent::Wake, NOW).unwrap_err();
    assert_eq!(error, "read hook lease: expected value");
    state.condition = Stored::Failed("expected value".to_owned());
    let error = handle_stop_hook(&mut state, &mut run, check(0, ""), NOW).unwrap_err();
    assert_eq!(error, "record condition check: expected value");
}

#[test]
fn other_events_and_missing_conditions_are_no_reason_to_continue() {
    let mut state = armed("thread-other", &["true"], "one");
    let mut run = HookRun::new(
        StopHookInput {
            session_id: "thread-other".to_owned(),
            hook_event_name: "Notification".to_owned(),
        },
        owner("hook"),
    );
    assert_eq!(
        finished(step(&mut state, &mut run, HookEvent::Stop(NOTHING_SEEN), NOW)),
        HookResult::Noop
    );
    assert_eq!(condition(&state).status, ConditionStatus::Armed);
    let mut nothing = empty();
    assert_eq!(
        finished(stop(&mut nothing, "thread-other", NOTHING_SEEN, NOW)),
        HookResult::Noop
    );
}

#[test]
fn hook_heartbeats_keep_a_live_lease_authoritative() {
    let mut state = armed("live-lease", &["sh", "-c", "sleep 1.25; exit 1"], "one");
    let mut run = start(&mut state, "live-lease", "hook", NOW);
    step(&mut state, &mut run, HookEvent::Wake, NOW);
    let initial = inspect_condition(&state, ALL_ALIVE, NOW).unwrap().unwrap().watcher;
    assert!(refresh_hook_heartbeat(&mut state, "one", "hook", NOW + 1_000));
    let watcher = inspect_condition(&state, ALL_ALIVE, NOW + 1_000).unwrap().unwrap().watcher;
    assert_eq!(watcher.state, WatcherState::Alive);
    assert!(watcher.heartbeat_at_ms > initial.heartbeat_at_ms);
    assert!(!refresh_hook_heartbeat(&mut state, "one", "other", NOW + 2_000));
    assert!(!refresh_hook_heartbeat(&mut state, "two", "hook", NOW + 2_000));

    assert_eq!(
        finished(stop(&mut state, "live-lease", ALL_ALIVE, NOW + 6_000)),
        HookResult::Noop
    );
    cancel(&mut state, NOW + 6_500).unwrap();
    assert!(!refresh_hook_heartbeat(&mut state, "one", "hook", NOW + 7_000));
    assert_eq!(
        finished(step(&mut state, &mut run, check(1, ""), NOW + 7_000)),
        HookResult::Noop
    );
}

#[test]
fn a_hook_that_loses_a_stale_lease_cannot_overwrite_the_recovery_hook() {
    let mut state = armed("lease-takeover", &["sh", "-c", "exit 0"], "one");
    let mut first = start(&mut state, "lease-takeover", "first", NOW);
    step(&mut state, &mut first, HookEvent::Wake, NOW);
    let mut lease = stale_lease("one", NOW);
    lease.owner.owner_id = "old-owner".to_owned();
    state.lease = Stored::Found(lease);

    let mut second = start(&mut state, "lease-takeover", "second", NOW + 100);
    let watcher = inspect_condition(&state, ALL_ALIVE, NOW + 100).unwrap().unwrap().watcher;
    assert_eq!(watcher.state, WatcherState::Alive);
    assert_ne!(watcher.owner_id.as_deref(), Some("old-owner"));
    step(&mut state, &mut second, HookEvent::Wake, NOW + 100);

    assert_eq!(
        finished(step(&mut state, &mut first, check(0, ""), NOW + 200)),
        HookResult::Noop
    );
    let reason = continued(step(&mut state, &mut second, check(0, ""), NOW + 200));
    assert!(reason.contains("condition met"));
    let last = condition(&state);
    assert_eq!(last.status, ConditionStatus::Succeeded);
    assert_eq!(last.attempts, 1);
}

#[test]
fn an_abrupt_hook_exit_records_its_phase_and_terminates_the_predicate() {
    let mut state = armed("abrupt-hook", &["sh", "-c", "sleep 60"], "one");
    let mut run = start(&mut state, "abrupt-hook", "hook", NOW);
    let live = inspect_condition(&state, ALL_ALIVE, NOW).unwrap().unwrap().watcher;
    assert_eq!(live.phase, Some(HookPhase::Starting));
    step(&mut state, &mut run, HookEvent::Wake, NOW + 10);
    let live = inspect_condition(&state, ALL_ALIVE, NOW + 10).unwrap().unwrap().watcher;
    assert_eq!(live.state, WatcherState::Alive);
    assert_eq!(live.phase, Some(HookPhase::Checking));
    assert_eq!(live.turn_id.as_deref(), Some("test-turn"));
    assert_eq!(live.started_at_ms, Some(NOW));
    assert_eq!(live.phase_at_ms, Some(NOW + 10));
    assert_eq!(live.last_check_started_at_ms, Some(NOW + 10));
    assert_eq!(live.parent_pid, Some(1));
    assert_eq!(live.process_group_id, Some(4_242));

    let stale = inspect_condition(&state, NOTHING_SEEN, NOW + 20).unwrap().unwrap().watcher;
    assert_eq!(stale.state, WatcherState::Stale);
    assert_eq!(stale.phase, Some(HookPhase::Checking));
    assert_eq!(stale.turn_id.as_deref(), Some("test-turn"));
    assert!(stale.lease_error.unwrap().contains("no longer exists"));
    cancel(&mut state, NOW + 30).unwrap();
}

#[test]
fn a_prepared_continuation_is_reported_as_delivering() {
    let mut state = armed("delivering", &["true"], "one");
    let mut run = start(&mut state, "delivering", "hook", NOW);
    step(&mut state, &mut run, HookEvent::Wake, NOW);
    step(&mut state, &mut run, check(0, ""), NOW);
    let watcher = inspect_condition(&state, ALL_ALIVE, NOW + 1).unwrap().unwrap().watcher;
    assert_eq!(watcher.state, WatcherState::Alive);
    assert_eq!(watcher.phase, Some(HookPhase::Delivering));
    let watcher = inspect_condition(&state, NOTHING_SEEN, NOW + 1).unwrap().unwrap().watcher;
    assert_eq!(watcher.state, WatcherState::Stale);
    deliver(&mut state, &run);
    let watcher = inspect_condition(&state, ALL_ALIVE, NOW + 1).unwrap().unwrap().watcher;
    assert_eq!(watcher.state, WatcherState::Inactive);
    assert_eq!(watcher.phase, None);
}

#[test]
fn a_heartbeat_from_the_future_is_stale() {
    let mut state = armed("future", &["true"], "one");
    start(&mut state, "future", "hook", NOW + 1_001);
    let watcher = inspect_condition(&state, ALL_ALIVE, NOW).unwrap().unwrap().watcher;
    assert_eq!(watcher.state, WatcherState::Stale);
    assert_eq!(
        watcher.lease_error.as_deref(),
        Some("hook lease heartbeat is in the future")
    );
    let watcher = inspect_condition(&state, ALL_ALIVE, NOW + 1).unwrap().unwrap().watcher;
    assert_eq!(watcher.state, WatcherState::Alive);
}

#[test]
fn requests_are_refused_for_each_reason() {
    let refused = |change: fn(&mut ArmRequest), cwd_exists: bool| {
        let mut asked = request("refused", words(&["true"]));
        change(&mut asked);
        arm(&mut empty(), asked, cwd_exists, "one".to_owned(), NOW).unwrap_err()
    };
    assert_eq!(
        refused(|asked| asked.command = Vec::new(), true),
        "predicate command is required after --"
    );
    assert_eq!(
        refused(|asked| asked.timeout = Span::from_secs(0), true),
        "--timeout must be greater than zero"
    );
    assert_eq!(
        refused(|asked| asked.timeout = Span::from_secs(604_741), true),
        "--timeout must be shorter than the configured seven-day Stop hook timeout (max 604740s)"
    );
    assert_eq!(
        refused(|asked| asked.poll_every = Span::from_millis(49), true),
        "--poll-every must be at least 50ms"
    );
    assert_eq!(
        refused(|asked| asked.check_timeout = Span::from_secs(0), true),
        "--check-timeout must be greater than zero"
    );
    assert_eq!(
        refused(|asked| asked.checkpoint_every = Some(Span::from_secs(30)), true),
        "--checkpoint-every must be at least 1m"
    );
    assert_eq!(
        refused(|asked| asked.checkpoint_every = Some(Span::from_secs(60)), true),
        "--checkpoint-every must be shorter than --timeout"
    );
    assert_eq!(
        refused(|_| {}, false),
        "condition working directory does not exist: /work"
    );
    assert_eq!(
        refused(|asked| asked.timeout = Span { secs: 0, nanos: 500_000 }, true),
        "write condition: condition timeout must be greater than zero"
    );
    assert_eq!(
        refused(|asked| asked.check_timeout = Span { secs: 0, nanos: 1 }, true),
        "write condition: condition check timeout must be greater than zero"
    );
}

#[test]
fn records_are_refused_for_each_reason() {
    let refused = |change: fn(&mut Condition)| {
        let mut state = empty();
        let mut asked = request("record", words(&["true"]));
        asked.timeout = Span::from_secs(120);
        asked.checkpoint_every = Some(Span::from_secs(60));
        arm(&mut state, asked, true, "one".to_owned(), NOW).unwrap();
        edit(&mut state, change);
        status(&state).unwrap_err()
    };
    assert_eq!(
        refused(|condition| condition.timeout_ms = 0),
        "read condition: condition timeout must be greater than zero"
    );
    assert_eq!(
        refused(|condition| condition.poll_every_ms = 49),
        "read condition: condition poll interval is too short"
    );
    assert_eq!(
        refused(|condition| condition.check_timeout_ms = 0),
        "read condition: condition check timeout must be greater than zero"
    );
    assert_eq!(
        refused(|condition| condition.checkpoint_every_ms = Some(120_000)),
        "read condition: invalid condition checkpoint interval"
    );
    assert_eq!(
        refused(|condition| condition.next_checkpoint_at_ms = None),
        "read condition: inconsistent condition checkpoint state"
    );
    assert_eq!(
        refused(|condition| condition.next_checkpoint_at_ms = Some(NOW + 120_001)),
        "read condition: condition checkpoint is after its deadline"
    );
}
