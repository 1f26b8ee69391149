use open_wake::commands::{arm_line, checkpoint_note, status_line, warn_frequent_checkpoint};
use open_wake::job::new_job_id;
use open_wake::message::{condition_label, format_checkpoint, format_continuation, read_tail};
use open_wake::names::{
    components_of, file_name, join_path, parent_path, path_starts_with, shell_quote,
};
use open_wake::number::parse_number;
use open_wake::places::{
    choose_writable_directory, current_user_name, directory_can_be_created, Ancestor,
};
use open_wake::session::{
    condition_check_output_path, condition_lock_path, condition_path, hook_lease_path,
};
use open_wake::span::{duration_ms, fits_duration, parse_duration};
use open_wake::{
    arm, current_session_id, default_state_dir, hook_output, hook_response, inspect_condition,
    observe_check, run_check, safe_name, start_failure, ArmRequest, CheckPoll, CheckStep,
    Condition, ConditionStatus, HookResult, JobReference, Observation, SessionState, Span, Stored,
    MAX_CONDITION_TIMEOUT,
};
use serde_json::Value;

fn parsed(text: &str) -> Value {
    serde_json::from_str(text).unwrap()
}

fn session_with(label: Option<&str>, job: Option<JobReference>) -> (SessionState, Condition) {
    let mut state = SessionState {
        condition: Stored::Missing,
        lease: Stored::Missing,
        delivery: Stored::Missing,
    };
    let condition = arm(
        &mut state,
        ArmRequest {
            session_id: "thread".to_owned(),
            label: label.map(str::to_owned),
            cwd: "/work".to_owned(),
            command: vec!["true".to_owned()],
            timeout: Span::from_secs(3_600),
            poll_every: Span::from_secs(5),
            check_timeout: Span::from_secs(30),
            checkpoint_every: None,
            job,
        },
        true,
        "one".to_owned(),
        1_000,
    )
    .unwrap();
    (state, condition)
}

fn job() -> JobReference {
    JobReference {
        id: "job-1".to_owned(),
        root: "/jobs".to_owned(),
        log_path: "/jobs/job-1/output.log".to_owned(),
    }
}

#[test]
fn hook_output_requests_a_continuation_only_for_a_result() {
    assert_eq!(hook_output(HookResult::Noop), parsed("{}"));
    assert_eq!(
        hook_output(HookResult::Continue("ready".to_owned())),
        parsed(r#"{"decision": "block", "reason": "ready"}"#)
    );
}

#[test]
fn the_hook_answers_in_one_line() {
    assert_eq!(hook_response(HookResult::Noop).unwrap(), b"{}\n".to_vec());
    let line = hook_response(HookResult::Continue("a \"b\"\nc".to_owned())).unwrap();
    assert_eq!(
        String::from_utf8(line).unwrap(),
        "{\"decision\":\"block\",\"reason\":\"a \\\"b\\\"\\nc\"}\n"
    );
}

#[test]
fn unavailable_runtime_directory_uses_the_writable_fallback() {
    let not_a_directory = Ancestor { exists: true, is_directory: false, is_writable: true };
    let missing = Ancestor { exists: false, is_directory: false, is_writable: false };
    let creatable = directory_can_be_created(&vec![missing, not_a_directory]);
    assert_eq!(
        choose_writable_directory(
            Some("/root/not-a-directory/open-wake".to_owned()),
            creatable,
            "/root/fallback".to_owned()
        ),
        "/root/fallback"
    );
}

#[test]
fn a_directory_can_be_created_below_a_writable_one() {
    let missing = Ancestor { exists: false, is_directory: false, is_writable: false };
    let open = Ancestor { exists: true, is_directory: true, is_writable: true };
    let closed = Ancestor { exists: true, is_directory: true, is_writable: false };
    assert!(directory_can_be_created(&vec![open]));
    assert!(directory_can_be_created(&vec![missing, open, closed]));
    assert!(!directory_can_be_created(&vec![missing, closed, open]));
    assert!(!directory_can_be_created(&vec![missing]));
    assert!(!directory_can_be_created(&Vec::new()));
}

#[test]
fn the_state_directory_has_a_strict_override_and_a_fallback() {
    let of = |given: Option<&str>, runtime: Option<&str>, creatable: bool| {
        default_state_dir(given.map(str::to_owned), runtime.map(str::to_owned), creatable, "ada")
    };
    assert_eq!(of(Some("/given"), Some("/run"), false), "/given");
    assert_eq!(of(None, Some("/run"), true), "/run/open-wake");
    assert_eq!(of(None, Some("/run"), false), "/tmp/open-wake-ada");
    assert_eq!(of(None, None, true), "/tmp/open-wake-ada");
    let user = |user: Option<&str>, logname: Option<&str>| {
        current_user_name(user.map(str::to_owned), logname.map(str::to_owned))
    };
    assert_eq!(user(Some("a/d.a_-1"), Some("x")), "ada_-1");
    assert_eq!(user(None, Some("bob")), "bob");
    assert_eq!(user(None, None), "unknown");
}

#[test]
fn sessions_are_named_explicitly_or_by_the_thread() {
    let of = |explicit: Option<&str>, thread: Option<&str>| {
        current_session_id(explicit.map(str::to_owned), thread.map(str::to_owned))
    };
    assert_eq!(of(Some("a"), Some("b")), Ok("a".to_owned()));
    assert_eq!(of(None, Some("b")), Ok("b".to_owned()));
    let missing = "CODEX_THREAD_ID is not set; run this command from a Codex turn or pass --thread";
    assert_eq!(of(Some(" \u{a0}\n"), Some("b")), Err(missing.to_owned()));
    assert_eq!(of(None, None), Err(missing.to_owned()));
}

#[test]
fn session_files_are_named_after_the_session() {
    assert_eq!(condition_path("/s", "a/b"), "/s/a_2Fb.json");
    assert_eq!(condition_lock_path("/s", "a/b"), "/s/.a_2Fb.lock");
    assert_eq!(hook_lease_path("/s", "a/b"), "/s/.a_2Fb.owner.json");
    assert_eq!(
        condition_check_output_path("/s", "a/b", "c", "d/e"),
        "/s/a_2Fb.c.d_2Fe.last-check.log"
    );
    assert_eq!(safe_name("\u{e9}"), "_C3_A9");
    assert_eq!(safe_name("_"), "_5F");
    assert_eq!(safe_name("aZ09-."), "aZ09-.");
}

#[test]
fn paths_are_read_as_the_system_reads_them() {
    for (base, leaf) in [("/a", "b/c"), ("/a/", "b"), ("", "b"), ("a", "/b"), ("/", "b")] {
        let joined = std::path::Path::new(base).join(leaf);
        assert_eq!(join_path(base, leaf), joined.to_str().unwrap());
    }
    for path in [
        "/a/b/c", "/a/b/", "/a", "a/b", "a", "/a/./b", "/a//b", "//a", "./a", ".", "..", "a/..",
        "a/.", "a/./", "/.", "/", "//", "", "./.", "./", ".a", "a/.b", "a./",
    ] {
        let expected = std::path::Path::new(path);
        assert_eq!(
            parent_path(path).as_deref(),
            expected.parent().map(|parent| parent.to_str().unwrap()),
            "{path}"
        );
        let normal = match file_name(path).as_str() {
            "" | "." | ".." => None,
            name => Some(name.to_owned()),
        };
        assert_eq!(
            normal.as_deref(),
            expected.file_name().map(|name| name.to_str().unwrap()),
            "{path}"
        );
    }
    for (path, root) in [
        ("/jobs/a", "/jobs"),
        ("/jobs/a", "/job"),
        ("/jobs//a/", "/jobs/a"),
        ("jobs/a", "/jobs"),
        ("/jobs/../a", "/jobs"),
        ("/a", "/"),
    ] {
        assert_eq!(
            path_starts_with(path, root),
            std::path::Path::new(path).starts_with(root),
            "{path} {root}"
        );
    }
    for path in ["/a//./b/", "./a/../b", "", "/", ".", "a/."] {
        let expected: Vec<&str> = std::path::Path::new(path)
            .components()
            .map(|component| component.as_os_str().to_str().unwrap())
            .collect();
        assert_eq!(components_of(path), expected, "{path}");
    }
}

#[test]
fn words_are_quoted_for_the_shell() {
    assert_eq!(shell_quote("a b"), "'a b'");
    assert_eq!(shell_quote("it's"), "'it'\\''s'");
    assert_eq!(shell_quote(""), "''");
}

#[test]
fn spans_are_read_and_written() {
    assert_eq!(parse_duration("1h"), Ok(Span::from_secs(3_600)));
    assert_eq!(parse_duration("1m 50ms"), Ok(Span { secs: 60, nanos: 50_000_000 }));
    for text in [
        "",
        "5",
        "5 parsecs",
        "-1s",
        "1h1h",
        "99999999999999999999s",
        "1.5h 30min",
        "600000000000000 ns 700000000000us900000000000ms 99999999999y",
        "5 m s",
        "1month 2min",
        "3 \u{b5}s",
        "18446744073709551615s",
        "18446744073709551614s 1s",
        "18446744073709551615s 1s",
        "18446744073709551615.5 min",
        "100000000000 min 1month",
        "1.0000000000000h",
        "5 ms s",
        "1ms 2lightyears 18446744073709551615s 1000ms",
        "100000000000min 1ms",
        "100000000000min 1.5s",
        "1millis 18446744073709551615s",
        "18446744073709551615s 1001ms",
        "18446744073709551615s 999ms",
        "1.5s 18446744073709551613s 499ms",
        "1ms 99999999999999999999s",
        "ms 18446744073709551615s 1000ms",
        "1.0000000000000000000h 5ms",
        "1.5ns 18446744073709551615s",
    ] {
        assert!(fits_duration(text));
        let expected = humantime::parse_duration(text)
            .map(|span| Span { secs: span.as_secs(), nanos: span.subsec_nanos() })
            .map_err(|error| error.to_string());
        assert_eq!(parse_duration(text), expected, "{text}");
    }
    assert!(!fits_duration("18446744073709551615s 1000ms"));
    assert!(!fits_duration("1s 999ms 18446744073709551614s 1ms"));
    assert!(!fits_duration("18446744073709551615.5s 600ms"));
    assert_eq!(duration_ms(Span { secs: 1, nanos: 999_999 }), 1_000);
    assert_eq!(duration_ms(Span::from_secs(u64::MAX)), u64::MAX);
    assert_eq!(Span::from_millis(1_500), Span { secs: 1, nanos: 500_000_000 });
    assert_eq!(MAX_CONDITION_TIMEOUT, 604_740);
}

#[test]
fn numbers_are_read_as_the_system_reads_them() {
    for text in [
        "0",
        "007",
        "+5",
        "18446744073709551615",
        "18446744073709551616",
        "99999999999999999999999",
        "",
        "+",
        "-",
        "-1",
        "1 2",
        "1x",
        "\u{661}",
    ] {
        let expected = text.parse::<u64>().map_err(|error| error.to_string());
        assert_eq!(parse_number(text), expected, "{text}");
    }
}

#[test]
fn output_is_cut_to_its_tail() {
    assert_eq!(read_tail(&b"short".to_vec(), 10), "short");
    assert_eq!(read_tail(&b"0123456789".to_vec(), 10), "0123456789");
    assert_eq!(
        read_tail(&b"0123456789".to_vec(), 4),
        "... output truncated ...\n6789"
    );
    assert_eq!(read_tail(&vec![b'a', 0xff], 10), "a\u{fffd}");
    let check = run_check(Some(1), false, &vec![b'x'; 5_000]);
    assert_eq!(check.output.len(), 25 + 4_096);
    assert_eq!(check.exit_code, Some(1));
}

#[test]
fn a_check_is_stopped_at_its_limit() {
    assert_eq!(
        observe_check(&CheckPoll::Ended(Some(3)), 9, 10),
        Ok(CheckStep::Finish { exit_code: Some(3), timed_out: false })
    );
    assert_eq!(observe_check(&CheckPoll::Running, 9, 10), Ok(CheckStep::Sleep(50)));
    assert_eq!(observe_check(&CheckPoll::Running, 10, 10), Ok(CheckStep::Stop));
    assert_eq!(
        observe_check(&CheckPoll::Stopped(Ok(None)), 11, 10),
        Ok(CheckStep::Finish { exit_code: None, timed_out: true })
    );
    assert_eq!(
        observe_check(&CheckPoll::Stopped(Err("gone".to_owned())), 11, 10),
        Err("reap timed-out predicate: gone".to_owned())
    );
    assert_eq!(
        observe_check(&CheckPoll::Failed("gone".to_owned()), 1, 10),
        Err("wait for predicate: gone".to_owned())
    );
}

#[test]
fn commands_are_shown_with_their_escapes() {
    let command = vec!["a\"b".to_owned(), "c\nd".to_owned(), "\u{e9}".to_owned()];
    assert_eq!(
        start_failure(&command, "gone"),
        format!("start predicate {command:?}: gone")
    );
    assert_eq!(start_failure(&Vec::new(), "gone"), "start predicate []: gone");
}

#[test]
fn messages_name_the_condition_and_its_job() {
    let (_, condition) = session_with(Some("build"), Some(job()));
    assert_eq!(condition_label(&condition), "build");
    let (_, condition) = session_with(None, Some(job()));
    assert_eq!(condition_label(&condition), "job-1");
    let (_, mut condition) = session_with(None, None);
    assert_eq!(condition_label(&condition), "one");
    condition.checkpoints = 2;
    condition.attempts = 9;
    assert_eq!(
        format_checkpoint(&condition, 61_000),
        "open-wake: progress checkpoint 2 for `one` after 1m (9 checks). The same condition remains armed; inspect progress now, then finish the turn to keep waiting or run `open-wake cancel` to stop future wake-ups."
    );
    condition.job = Some(job());
    condition.status = ConditionStatus::TimedOut;
    condition.last_output = " \n".to_owned();
    assert_eq!(
        format_continuation(&condition, 3_601_000),
        "open-wake: deadline reached before the condition became true for `job-1` after 1h (9 checks). Continue the task now. Predicate: `'true'`. Last exit code: unavailable. Job ID: `job-1`. Full combined stdout/stderr log: `/jobs/job-1/output.log`. Use native tools such as `tail` or `rg` to inspect it; open-wake will not print the full log. The open-wake deadline does not terminate the supervised command; inspect the job before deciding what to stop."
    );
    condition.job = None;
    condition.status = ConditionStatus::Failed;
    condition.last_exit_code = Some(-1);
    condition.resolved_at_ms = Some(3_000);
    assert_eq!(
        format_continuation(&condition, 9_000),
        "open-wake: condition check failed for `one` after 2s (9 checks). Continue the task now. Predicate: `'true'`. Last exit code: -1."
    );
}

#[test]
fn commands_report_in_one_line() {
    let (state, condition) = session_with(None, None);
    assert_eq!(
        arm_line(&condition, &Span::from_secs(3_600), &None),
        "armed condition one (unnamed) for 1h; terminal-only wakeups; finish the Codex turn to wait"
    );
    assert_eq!(
        checkpoint_note(&Some(Span::from_secs(900))),
        "checkpoint every 15m creates model turns"
    );
    assert!(!warn_frequent_checkpoint(&None));
    assert!(warn_frequent_checkpoint(&Some(Span { secs: 299, nanos: 999_999_999 })));
    assert!(!warn_frequent_checkpoint(&Some(Span::from_secs(300))));
    let seen = Observation {
        lease_process_exists: false,
        delivery_process_exists: false,
        modified_at_ms: None,
    };
    let snapshot = inspect_condition(&state, seen, 1_000).unwrap().unwrap();
    assert_eq!(
        status_line(&snapshot.condition, &snapshot.watcher),
        "one: Armed, watcher: Armed, phase: None, turn: None, attempts: 0, last exit: None"
    );
    let mut condition = snapshot.condition;
    condition.last_exit_code = Some(7);
    let mut watcher = snapshot.watcher;
    watcher.phase = Some(open_wake::HookPhase::Checking);
    watcher.turn_id = Some("t\"1".to_owned());
    assert_eq!(
        status_line(&condition, &watcher),
        "one: Armed, watcher: Armed, phase: Some(Checking), turn: Some(\"t\\\"1\"), attempts: 0, last exit: Some(7)"
    );
}

#[test]
fn identifiers_are_built_from_their_parts() {
    assert_eq!(open_wake::ids::new_condition_id(12, 34, 56), "12-34-56");
    assert_eq!(
        new_job_id(1, 340_282_366_920_938_463_463_374_607_431_768_211_455, 2),
        "job-1-340282366920938463463374607431768211455-2"
    );
}

#[test]
fn ids_of_different_calls_differ() {
    let conditions = [
        open_wake::ids::new_condition_id(1, 23, 4),
        open_wake::ids::new_condition_id(12, 3, 4),
        open_wake::ids::new_condition_id(1, 2, 34),
        open_wake::ids::new_condition_id(1, 2, 35),
    ];
    let jobs = [new_job_id(1, 23, 4), new_job_id(12, 3, 4), new_job_id(1, 2, 34)];
    for ids in [&conditions[..], &jobs[..]] {
        for (index, id) in ids.iter().enumerate() {
            assert!(id.bytes().all(|byte| byte.is_ascii_alphanumeric() || byte == b'-'));
            assert!(!ids[..index].contains(id));
        }
    }
}

#[test]
fn two_hooks_write_to_different_output_files() {
    let paths = [
        condition_check_output_path("/s", "thread", "1-2-3", "hook-a"),
        condition_check_output_path("/s", "thread", "1-2-3", "hook-b"),
        condition_check_output_path("/s", "thread", "1-2-4", "hook-a"),
        condition_check_output_path("/s", "thread", "1-2", "3.hook-a"),
    ];
    for (index, path) in paths.iter().enumerate() {
        assert!(!paths[..index].contains(path));
    }
}
