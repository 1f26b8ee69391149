//! What holds of every supervised job: where its records put it, what they show and where they lie.
use vstd::prelude::*;

use crate::condition::JobReferenceView;
use crate::job::{
    discarded, heartbeat_of, job_dir, job_problem, prepared, referring, shown, spawn_failure,
    FailureRecordView, JobResultView, JobSnapshotView, JobSpecView, JobState,
};
use crate::job_list::{inserted, jobs_among, listed, listing, oldest_first, JobEntryView};
use crate::names::{path_components, path_join};
use crate::span::human_millis;
use crate::stored::StoredView;
use crate::supervisor::{
    supervision, SuperviseActionView, SuperviseEventView, SupervisePhase, SupervisorView,
};
use crate::text::{decimal, signed_decimal, trim};
use crate::text_laws::{a_written_number_is_read_back, is_blank};

verus! {

/// Whether an ID names a directory below the job root: ASCII letters, digits and hyphens, at least
/// one.
pub open spec fn names_a_job(id: Seq<char>) -> bool {
    id.len() > 0 && forall|i: int|
        0 <= i < id.len() ==> ('a' <= #[trigger] id[i] <= 'z') || ('A' <= id[i] <= 'Z') || ('0'
            <= id[i] <= '9') || id[i] == '-'
}

/// The records of a job are looked for below the job root, and only under an ID that can be a
/// directory there.
pub proof fn a_job_lies_below_the_root(root: Seq<char>, id: Seq<char>)
    requires
        root.len() > 0,
        root.last() != '/',
    ensures
        names_a_job(id) ==> job_dir(root, id) == Ok::<Seq<char>, Seq<char>>(root + seq!['/'] + id),
        !names_a_job(id) ==> job_dir(root, id) is Err,
{
    reveal_strlit("/");
    assert("/"@ =~= seq!['/']);
    if names_a_job(id) {
        assert(id[0] != '/');
    }
}

/// What the records of a job show is what was recorded. Its state is decided by the result where
/// there is one, by its error alone; without a result it is lost thirty seconds after the last
/// heartbeat, or after it was made if there was none, and starting until the first heartbeat.
pub proof fn records_decide_the_state(
    root: Seq<char>,
    id: Seq<char>,
    spec: JobSpecView,
    result: Option<JobResultView>,
    heartbeat_at_ms: Option<u64>,
    heartbeat: StoredView<Seq<char>>,
    now_ms: u64,
)
    requires
        names_a_job(id),
        heartbeat_of(heartbeat) == Ok::<Option<u64>, Seq<char>>(heartbeat_at_ms),
    ensures
        ({
            let recorded = match result {
                Some(result) => StoredView::Found(result),
                None => StoredView::Missing,
            };
            &&& shown(root, id, StoredView::Found(spec), recorded, heartbeat, now_ms) matches Ok(
                job,
            ) && {
                &&& job.id == spec.id
                &&& job.label == spec.label
                &&& job.supervisor_pid == spec.supervisor_pid
                &&& job.child_pid == spec.child_pid
                &&& job.created_at_ms == spec.created_at_ms
                &&& job.started_at_ms == spec.started_at_ms
                &&& job.log_path == spec.log_path
                &&& job.heartbeat_at_ms == heartbeat_at_ms
                &&& job.result == result
                &&& result matches Some(result) ==> job.state == (if result.error is Some {
                    JobState::SupervisorFailed
                } else {
                    JobState::Completed
                })
                &&& result is None ==> match heartbeat_at_ms {
                    Some(heartbeat) => job.state == (if now_ms > heartbeat + 30_000 {
                        JobState::Stale
                    } else {
                        JobState::Running
                    }),
                    None => job.state == (if now_ms > spec.created_at_ms + 30_000 {
                        JobState::Stale
                    } else {
                        JobState::Starting
                    }),
                }
                &&& job.ready() <==> job.state == JobState::Completed || job.state
                    == JobState::SupervisorFailed || job.state == JobState::Stale
            }
        }),
{
}

/// Records that are missing or cannot be read are told apart from a job that has no result yet.
pub proof fn unreadable_records_show_nothing(
    root: Seq<char>,
    id: Seq<char>,
    spec: StoredView<JobSpecView>,
    result: StoredView<JobResultView>,
    heartbeat: StoredView<Seq<char>>,
    now_ms: u64,
)
    ensures
        shown(root, id, spec, result, heartbeat, now_ms) is Err <==> !names_a_job(id) || !(
        spec is Found) || result is Failed || heartbeat_of(heartbeat) is Err,
        heartbeat is Missing ==> heartbeat_of(heartbeat) == Ok::<Option<u64>, Seq<char>>(None),
        heartbeat is Failed ==> heartbeat_of(heartbeat) is Err,
{
}

/// The heartbeat that a supervisor writes is the one that is read back: a job whose supervisor woke
/// for a heartbeat is running, and stays so for thirty seconds.
pub proof fn a_written_heartbeat_keeps_a_job_running(
    root: Seq<char>,
    id: Seq<char>,
    spec: JobSpecView,
    run: SupervisorView,
    text: Seq<char>,
    written_at_ms: u64,
    clock_ms: u64,
    now_ms: u64,
)
    requires
        names_a_job(id),
        run.phase == SupervisePhase::Sleeping,
        supervision(run, SuperviseEventView::Woke, written_at_ms, clock_ms).1
            == SuperviseActionView::WriteHeartbeat(text),
        written_at_ms <= now_ms <= written_at_ms + 30_000,
    ensures
        heartbeat_of(StoredView::Found(text)) == Ok::<Option<u64>, Seq<char>>(Some(written_at_ms)),
        shown(
            root,
            id,
            StoredView::Found(spec),
            StoredView::Missing,
            StoredView::Found(text),
            now_ms,
        ) matches Ok(job) && job.state == JobState::Running && job.heartbeat_at_ms == Some(
            written_at_ms,
        ),
{
    a_heartbeat_is_read_back(written_at_ms);
    reveal_strlit("\n");
    assert("\n"@ =~= seq!['\n']);
    records_decide_the_state(
        root,
        id,
        spec,
        None,
        Some(written_at_ms),
        StoredView::Found(text),
        now_ms,
    );
}

/// A time in decimal digits, with or without the end of a line, is read as that time.
pub proof fn a_heartbeat_is_read_back(time_ms: u64)
    ensures
        heartbeat_of(StoredView::Found(decimal(time_ms as nat) + seq!['\n'])) == Ok::<
            Option<u64>,
            Seq<char>,
        >(Some(time_ms)),
        heartbeat_of(StoredView::Found(decimal(time_ms as nat))) == Ok::<Option<u64>, Seq<char>>(
            Some(time_ms),
        ),
{
    let none = Seq::<char>::empty();
    let digits = decimal(time_ms as nat);
    assert(is_blank(seq!['\n']));
    a_written_number_is_read_back(none, time_ms, seq!['\n']);
    assert(none + digits + seq!['\n'] =~= digits + seq!['\n']);
    a_written_number_is_read_back(none, time_ms, none);
    assert(none + digits + none =~= digits);
}

/// A job is refused if and only if it has no command or no working directory.
pub proof fn a_job_needs_a_command_and_a_directory(
    command: Seq<Seq<char>>,
    cwd: Seq<char>,
    cwd_exists: bool,
)
    ensures
        job_problem(command, cwd, cwd_exists) is None <==> command.len() > 0 && cwd_exists,
{
}

/// A prepared job holds what was asked for, has no process and no start, and logs into a file of its
/// own directory. Nothing shows yet that it was started, so it is starting, and it can be discarded.
pub proof fn a_prepared_job_has_not_started(
    root: Seq<char>,
    id: Seq<char>,
    session_id: Seq<char>,
    label: Option<Seq<char>>,
    cwd: Seq<char>,
    command: Seq<Seq<char>>,
    now_ms: u64,
)
    requires
        names_a_job(id),
        root.len() > 0,
        root.last() != '/',
    ensures
        ({
            let spec = prepared(root, id, session_id, label, cwd, command, now_ms);
            &&& spec.version == 1
            &&& spec.id == id
            &&& spec.session_id == session_id
            &&& spec.label == label
            &&& spec.cwd == cwd
            &&& spec.command == command
            &&& spec.created_at_ms == now_ms
            &&& spec.supervisor_pid is None
            &&& spec.child_pid is None
            &&& spec.started_at_ms is None
            &&& spec.log_path == root + seq!['/'] + id + seq!['/'] + "output.log"@
            &&& shown(
                root,
                id,
                StoredView::Found(spec),
                StoredView::Missing,
                StoredView::Missing,
                now_ms,
            ) matches Ok(job) && job.state == JobState::Starting
            &&& discarded(root, id, StoredView::Found(spec), false, false) == Some(
                root + seq!['/'] + id,
            )
        }),
{
    reveal_strlit("/");
    reveal_strlit("output.log");
    assert("/"@ =~= seq!['/']);
    assert(id[0] != '/');
    assert(id[id.len() - 1] != '/');
    let directory = root + seq!['/'] + id;
    assert(path_join(root, id) =~= directory);
    assert(directory.last() == id[id.len() - 1]);
    a_job_lies_below_the_root(root, id);
}

/// Nothing that was started is discarded: not with a heartbeat, not with a result, and not with a
/// recorded process.
pub proof fn a_started_job_is_not_discarded(
    root: Seq<char>,
    id: Seq<char>,
    spec: StoredView<JobSpecView>,
    heartbeat_exists: bool,
    result_exists: bool,
)
    ensures
        discarded(root, id, spec, heartbeat_exists, result_exists) is Some <==> names_a_job(id)
            && !heartbeat_exists && !result_exists && (spec matches StoredView::Found(spec)
            && spec.supervisor_pid is None && spec.child_pid is None),
{
}

/// A condition refers to a job by its ID, the job root and its log, and only to a job whose log lies
/// below that root.
pub proof fn a_reference_stays_below_the_root(root: Seq<char>, spec: JobSpecView)
    ensures
        referring(root, spec) is Ok <==> path_components(root).len() <= path_components(
            spec.log_path,
        ).len() && path_components(spec.log_path).subrange(
            0,
            path_components(root).len() as int,
        ) == path_components(root),
        referring(root, spec) matches Ok(reference) ==> reference == (JobReferenceView {
            id: spec.id,
            root,
            log_path: spec.log_path,
        }),
{
}

/// One line tells what became of a job: its label, or its ID without one, what is known of its end,
/// and where its log is.
pub proof fn a_line_tells_what_became_of_a_job(job: JobSnapshotView)
    requires
        job.state == JobState::Completed ==> job.result is Some,
    ensures
        ({
            let name = match job.label {
                Some(label) => label,
                None => job.id,
            };
            job.line() == match job.state {
                JobState::Starting => "job `"@ + name + "` is starting; log: "@ + job.log_path,
                JobState::Running => "job `"@ + name + "` is still running; log: "@ + job.log_path,
                JobState::Completed => "job `"@ + name + "` completed with "@ + (match (
                    job.result->0.exit_code,
                    job.result->0.signal,
                ) {
                    (Some(code), _) => "exit code "@ + signed_decimal(code as int),
                    (None, Some(signal)) => "signal "@ + signed_decimal(signal as int),
                    (None, None) => "unknown process status"@,
                }) + " after "@ + human_millis(job.result->0.duration_ms) + "; log: "@
                    + job.log_path,
                JobState::SupervisorFailed => "job `"@ + name + "` supervisor failed: "@ + (
                match job.result {
                    Some(result) => match result.error {
                        Some(error) => error,
                        None => "unknown supervisor error"@,
                    },
                    None => "unknown supervisor error"@,
                }) + "; log: "@ + job.log_path,
                JobState::Stale => "job `"@ + name
                    + "` has a stale supervisor heartbeat; the command may still be running; log: "@
                    + job.log_path,
            }
        }),
{
}

/// A supervisor that could not be started is recorded in the directory of the job, with the error and
/// the time since the job was made, and the job then counts as failed.
pub proof fn a_spawn_failure_fails_the_job(
    root: Seq<char>,
    id: Seq<char>,
    error: Seq<char>,
    spec: JobSpecView,
    now_ms: u64,
    later_ms: u64,
)
    requires
        names_a_job(id),
        root.len() > 0,
        root.last() != '/',
        spec.created_at_ms <= now_ms,
    ensures
        spawn_failure(root, id, error, StoredView::Found(spec), now_ms) == Ok::<
            FailureRecordView,
            Seq<char>,
        >(
            FailureRecordView {
                directory: root + seq!['/'] + id,
                result: JobResultView {
                    version: 1,
                    completed_at_ms: now_ms,
                    duration_ms: (now_ms - spec.created_at_ms) as u64,
                    exit_code: None,
                    signal: None,
                    error: Some(error),
                },
            },
        ),
        shown(
            root,
            id,
            StoredView::Found(spec),
            StoredView::Found(
                spawn_failure(root, id, error, StoredView::Found(spec), now_ms)->Ok_0.result,
            ),
            StoredView::Missing,
            later_ms,
        ) matches Ok(job) && job.state == JobState::SupervisorFailed,
        spawn_failure(root, id, error, StoredView::Missing, now_ms) is Err,
{
    a_job_lies_below_the_root(root, id);
}

/// A list of jobs succeeds if and only if every entry of the job root is a job that can be read or no
/// directory at all, and then holds each of those jobs. A job root that is not there holds none.
pub proof fn a_list_skips_only_what_is_no_directory(root: Seq<char>, entries: Seq<JobEntryView>)
    ensures
        listed(entries) is Ok <==> forall|i: int|
            0 <= i < entries.len() ==> (#[trigger] entries[i]) is Other || (
            entries[i] matches JobEntryView::Job(Ok(_))),
        listing(root, StoredView::Missing) == Ok::<Seq<JobSnapshotView>, Seq<char>>(seq![]),
        listing(root, StoredView::Found(entries)) == listed(entries),
        forall|i: int|
            0 <= i < entries.len() ==> (#[trigger] entries[i] matches JobEntryView::Job(Ok(job))
                ==> jobs_among(entries).contains(job)),
        jobs_among(entries).len() <= entries.len(),
    decreases entries.len(),
{
    if entries.len() > 0 {
        let earlier = entries.drop_last();
        a_list_skips_only_what_is_no_directory(root, earlier);
        assert forall|i: int| 0 <= i < entries.len() implies (
        #[trigger] entries[i] matches JobEntryView::Job(Ok(job)) ==> jobs_among(entries).contains(
            job,
        )) by {
            if let JobEntryView::Job(Ok(job)) = entries[i] {
                if i < earlier.len() {
                    assert(earlier[i] == entries[i]);
                    let k = choose|k: int|
                        0 <= k < jobs_among(earlier).len() && jobs_among(earlier)[k] == job;
                    assert(jobs_among(entries)[k] == job);
                } else {
                    assert(jobs_among(entries)[jobs_among(entries).len() - 1] == job);
                }
            }
        }
        if listed(earlier) is Err {
            let i = choose|i: int|
                0 <= i < earlier.len() && !((#[trigger] earlier[i]) is Other || (
                earlier[i] matches JobEntryView::Job(Ok(_))));
            assert(entries[i] == earlier[i]);
        } else {
            assert forall|i: int| 0 <= i < earlier.len() implies (#[trigger] entries[i]) is Other
                || (entries[i] matches JobEntryView::Job(Ok(_))) by {
                assert(earlier[i] == entries[i]);
            }
        }
    }
}

/// One more job takes its place by its time: behind every job that was made before it or at the same
/// time, and before every later one.
pub proof fn a_job_is_listed_behind_the_older_ones(
    jobs: Seq<JobSnapshotView>,
    job: JobSnapshotView,
) -> (place: int)
    requires
        oldest_first(jobs),
    ensures
        0 <= place <= jobs.len(),
        inserted(jobs, job) == jobs.insert(place, job),
        forall|i: int|
            0 <= i < place ==> (#[trigger] jobs[i]).created_at_ms <= job.created_at_ms,
        forall|i: int|
            place <= i < jobs.len() ==> (#[trigger] jobs[i]).created_at_ms > job.created_at_ms,
    decreases jobs.len(),
{
    if jobs.len() > 0 && jobs.last().created_at_ms > job.created_at_ms {
        let rest = jobs.drop_last();
        let place = a_job_is_listed_behind_the_older_ones(rest, job);
        assert(jobs.insert(place, job) =~= rest.insert(place, job).push(jobs.last()));
        assert forall|i: int| 0 <= i < place implies (#[trigger] jobs[i]).created_at_ms
            <= job.created_at_ms by {
            assert(rest[i] == jobs[i]);
        }
        assert forall|i: int| place <= i < jobs.len() implies (#[trigger] jobs[i]).created_at_ms
            > job.created_at_ms by {
            if i < rest.len() {
                assert(rest[i] == jobs[i]);
            }
        }
        place
    } else {
        assert(jobs.insert(jobs.len() as int, job) =~= jobs.push(job));
        assert forall|i: int| 0 <= i < jobs.len() implies (#[trigger] jobs[i]).created_at_ms
            <= job.created_at_ms by {
            assert(jobs[i].created_at_ms <= jobs[jobs.len() - 1].created_at_ms);
        }
        jobs.len() as int
    }
}

/// A heartbeat is read if and only if its text, without the white space around it, is a number; the
/// heartbeat is that number.
pub proof fn a_heartbeat_must_be_a_number(text: Seq<char>)
    ensures
        heartbeat_of(StoredView::Found(text)) is Ok <==> crate::number::number(trim(text)) is Ok,
        crate::number::number(trim(text)) matches Ok(time) ==> heartbeat_of(StoredView::Found(text))
            == Ok::<Option<u64>, Seq<char>>(Some(time)),
{
}

} // verus!
