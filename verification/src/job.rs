//! Supervised jobs: their records, what those show, and the steps of a supervisor.
use vstd::prelude::*;

pub use crate::ids::new_job_id;
pub use crate::job_list::{list, JobEntry};
pub use crate::places::default_job_root;
pub use crate::supervisor::{
    supervise, ProcessExit, SuperviseAction, SuperviseEvent, Supervisor,
};

use crate::condition::{elapsed, since, JobReference, JobReferenceView};
use crate::names::{
    is_component_prefix, is_plain_char, is_plain_id, join_path, path_components, path_join,
    path_starts_with,
};
use crate::number::{number_or_text, parse_number};
use crate::span::{format_millis, human_millis};
use crate::stored::{Stored, StoredView};
use crate::text::{
    clone_optional, clone_texts, joined, optional, outcome, outcome_view, push_signed,
    signed_decimal, texts, trim, trimmed,
};

verus! {

/// The delay between two heartbeats of a supervisor.
pub const HEARTBEAT_INTERVAL_MS: u64 = 1_000;

/// The delay between two looks at a supervised command.
pub const CHILD_CHECK_INTERVAL_MS: u64 = 250;

/// The age, in milliseconds, beyond which a supervisor counts as lost.
pub const STALE_AFTER: u64 = 30_000;

/// What a job was asked to do, and how far it got.
#[derive(Debug)]
pub struct JobSpec {
    pub version: u8,
    pub id: String,
    pub session_id: String,
    pub label: Option<String>,
    pub cwd: String,
    pub command: Vec<String>,
    pub created_at_ms: u64,
    pub supervisor_pid: Option<u32>,
    pub child_pid: Option<u32>,
    pub started_at_ms: Option<u64>,
    pub log_path: String,
}

/// The view of a [`JobSpec`].
pub struct JobSpecView {
    pub version: u8,
    pub id: Seq<char>,
    pub session_id: Seq<char>,
    pub label: Option<Seq<char>>,
    pub cwd: Seq<char>,
    pub command: Seq<Seq<char>>,
    pub created_at_ms: u64,
    pub supervisor_pid: Option<u32>,
    pub child_pid: Option<u32>,
    pub started_at_ms: Option<u64>,
    pub log_path: Seq<char>,
}

impl View for JobSpec {
    type V = JobSpecView;

    open spec fn view(&self) -> JobSpecView {
        JobSpecView {
            version: self.version,
            id: self.id@,
            session_id: self.session_id@,
            label: optional(self.label),
            cwd: self.cwd@,
            command: texts(self.command@),
            created_at_ms: self.created_at_ms,
            supervisor_pid: self.supervisor_pid,
            child_pid: self.child_pid,
            started_at_ms: self.started_at_ms,
            log_path: self.log_path@,
        }
    }
}

impl Clone for JobSpec {
    fn clone(&self) -> (copy: Self)
        ensures
            copy@ == self@,
    {
        JobSpec {
            version: self.version,
            id: self.id.clone(),
            session_id: self.session_id.clone(),
            label: clone_optional(&self.label),
            cwd: self.cwd.clone(),
            command: clone_texts(&self.command),
            created_at_ms: self.created_at_ms,
            supervisor_pid: self.supervisor_pid,
            child_pid: self.child_pid,
            started_at_ms: self.started_at_ms,
            log_path: self.log_path.clone(),
        }
    }
}

/// How a job ended.
#[derive(Debug)]
pub struct JobResult {
    pub version: u8,
    pub completed_at_ms: u64,
    pub duration_ms: u64,
    pub exit_code: Option<i32>,
    pub signal: Option<i32>,
    pub error: Option<String>,
}

/// The view of a [`JobResult`].
pub struct JobResultView {
    pub version: u8,
    pub completed_at_ms: u64,
    pub duration_ms: u64,
    pub exit_code: Option<i32>,
    pub signal: Option<i32>,
    pub error: Option<Seq<char>>,
}

impl View for JobResult {
    type V = JobResultView;

    open spec fn view(&self) -> JobResultView {
        JobResultView {
            version: self.version,
            completed_at_ms: self.completed_at_ms,
            duration_ms: self.duration_ms,
            exit_code: self.exit_code,
            signal: self.signal,
            error: optional(self.error),
        }
    }
}

impl Clone for JobResult {
    fn clone(&self) -> (copy: Self)
        ensures
            copy@ == self@,
    {
        JobResult {
            version: self.version,
            completed_at_ms: self.completed_at_ms,
            duration_ms: self.duration_ms,
            exit_code: self.exit_code,
            signal: self.signal,
            error: clone_optional(&self.error),
        }
    }
}

/// Where a job stands.
#[derive(Debug, Clone, Copy, PartialEq, Eq, Structural)]
pub enum JobState {
    Starting,
    Running,
    Completed,
    SupervisorFailed,
    Stale,
}

/// What the records of a job show.
#[derive(Debug)]
pub struct JobSnapshot {
    pub id: String,
    pub label: Option<String>,
    pub state: JobState,
    pub supervisor_pid: Option<u32>,
    pub child_pid: Option<u32>,
    pub created_at_ms: u64,
    pub started_at_ms: Option<u64>,
    pub heartbeat_at_ms: Option<u64>,
    pub result: Option<JobResult>,
    pub log_path: String,
}

/// The view of a [`JobSnapshot`].
pub struct JobSnapshotView {
    pub id: Seq<char>,
    pub label: Option<Seq<char>>,
    pub state: JobState,
    pub supervisor_pid: Option<u32>,
    pub child_pid: Option<u32>,
    pub created_at_ms: u64,
    pub started_at_ms: Option<u64>,
    pub heartbeat_at_ms: Option<u64>,
    pub result: Option<JobResultView>,
    pub log_path: Seq<char>,
}

impl View for JobSnapshot {
    type V = JobSnapshotView;

    open spec fn view(&self) -> JobSnapshotView {
        JobSnapshotView {
            id: self.id@,
            label: optional(self.label),
            state: self.state,
            supervisor_pid: self.supervisor_pid,
            child_pid: self.child_pid,
            created_at_ms: self.created_at_ms,
            started_at_ms: self.started_at_ms,
            heartbeat_at_ms: self.heartbeat_at_ms,
            result: optional(self.result),
            log_path: self.log_path@,
        }
    }
}

impl JobSnapshotView {
    /// A completed job has a result.
    pub open spec fn well_formed(self) -> bool {
        self.state == JobState::Completed ==> self.result is Some
    }

    /// Whether nothing more is to be expected of the job.
    pub open spec fn ready(self) -> bool {
        self.state == JobState::Completed || self.state == JobState::SupervisorFailed || self.state
            == JobState::Stale
    }

    /// What a job is called in messages.
    pub open spec fn name(self) -> Seq<char> {
        match self.label {
            Some(label) => label,
            None => self.id,
        }
    }

    /// How a completed job ended.
    pub open spec fn outcome(self) -> Seq<char> {
        match self.result {
            Some(result) => match (result.exit_code, result.signal) {
                (Some(code), _) => "exit code "@ + signed_decimal(code as int),
                (None, Some(signal)) => "signal "@ + signed_decimal(signal as int),
                (None, None) => "unknown process status"@,
            },
            None => "unknown process status"@,
        }
    }

    /// Why a supervisor failed.
    pub open spec fn failure(self) -> Seq<char> {
        match self.result {
            Some(result) => match result.error {
                Some(error) => error,
                None => "unknown supervisor error"@,
            },
            None => "unknown supervisor error"@,
        }
    }

    /// One line on the job.
    pub open spec fn line(self) -> Seq<char> {
        match self.state {
            JobState::Starting => "job `"@ + self.name() + "` is starting; log: "@ + self.log_path,
            JobState::Running => "job `"@ + self.name() + "` is still running; log: "@
                + self.log_path,
            JobState::Completed => "job `"@ + self.name() + "` completed with "@ + self.outcome()
                + " after "@ + human_millis(self.result->0.duration_ms) + "; log: "@
                + self.log_path,
            JobState::SupervisorFailed => "job `"@ + self.name() + "` supervisor failed: "@
                + self.failure() + "; log: "@ + self.log_path,
            JobState::Stale => "job `"@ + self.name()
                + "` has a stale supervisor heartbeat; the command may still be running; log: "@
                + self.log_path,
        }
    }
}

impl JobSnapshot {
    /// Whether nothing more is to be expected of the job.
    pub fn is_ready(&self) -> (result: bool)
        ensures
            result == self@.ready(),
    {
        match self.state {
            JobState::Completed | JobState::SupervisorFailed | JobState::Stale => true,
            _ => false,
        }
    }

    /// One line on the job.
    pub fn summary(&self) -> (line: String)
        requires
            self@.well_formed(),
        ensures
            line@ == self@.line(),
    {
        let label = match &self.label {
            Some(label) => label.as_str(),
            None => self.id.as_str(),
        };
        let mut line = "job `".to_owned();
        line.append(label);
        match self.state {
            JobState::Starting => line.append("` is starting; log: "),
            JobState::Running => line.append("` is still running; log: "),
            JobState::Completed => {
                line.append("` completed with ");
                if let Some(result) = &self.result {
                    line.append(outcome_of(result).as_str());
                    line.append(" after ");
                    line.append(format_millis(result.duration_ms).as_str());
                }
                line.append("; log: ");
            },
            JobState::SupervisorFailed => {
                line.append("` supervisor failed: ");
                let error = match &self.result {
                    Some(result) => match &result.error {
                        Some(error) => error.as_str(),
                        None => "unknown supervisor error",
                    },
                    None => "unknown supervisor error",
                };
                line.append(error);
                line.append("; log: ");
            },
            JobState::Stale => line.append(
                "` has a stale supervisor heartbeat; the command may still be running; log: ",
            ),
        }
        line.append(self.log_path.as_str());
        line
    }
}

fn outcome_of(result: &JobResult) -> (text: String)
    ensures
        forall|job: JobSnapshotView| job.result == Some(result@) ==> text@ == #[trigger] job.outcome(),
{
    if let Some(code) = result.exit_code {
        let mut text = "exit code ".to_owned();
        push_signed(&mut text, code);
        text
    } else if let Some(signal) = result.signal {
        let mut text = "signal ".to_owned();
        push_signed(&mut text, signal);
        text
    } else {
        "unknown process status".to_owned()
    }
}

/// What is said where a file is missing.
pub open spec fn no_such_file() -> Seq<char> {
    "No such file or directory (os error 2)"@
}

/// A record that must be there, or an error with its context.
pub open spec fn required<V>(stored: StoredView<V>, context: Seq<char>) -> Result<V, Seq<char>> {
    match stored {
        StoredView::Found(record) => Ok(record),
        StoredView::Missing => Err(context + ": "@ + no_such_file()),
        StoredView::Failed(error) => Err(context + ": "@ + error),
    }
}

fn required_spec<'a>(stored: &'a Stored<JobSpec>, context: &str) -> (result: Result<&'a JobSpec, String>)
    ensures
        match result {
            Ok(spec) => required(stored@, context@) == Ok::<JobSpecView, Seq<char>>(spec@) && *stored
                == Stored::Found(*spec),
            Err(error) => required(stored@, context@) == Err::<JobSpecView, Seq<char>>(error@),
        },
{
    match stored {
        Stored::Found(spec) => Ok(spec),
        Stored::Missing => {
            let mut error = joined(context, ": ");
            error.append("No such file or directory (os error 2)");
            Err(error)
        },
        Stored::Failed(cause) => {
            let mut error = joined(context, ": ");
            error.append(cause.as_str());
            Err(error)
        },
    }
}

/// The directory of a job.
pub open spec fn job_dir(root: Seq<char>, id: Seq<char>) -> Result<Seq<char>, Seq<char>> {
    if is_plain_id(id) {
        Ok(path_join(root, id))
    } else {
        Err("invalid job id `"@ + id + "`"@)
    }
}

/// The directory of a job. An ID that could lead elsewhere is refused.
pub fn checked_job_dir(root: &str, id: &str) -> (result: Result<String, String>)
    ensures
        outcome_view(result) == job_dir(root@, id@),
{
    let mut valid = !id.is_empty();
    for character in it: id.chars()
        invariant
            it.seq() == id@,
            valid == (id@.len() > 0 && forall|i: int|
                0 <= i < it.index() ==> is_plain_char(#[trigger] id@[i])),
    {
        let letter = ('a' <= character && character <= 'z') || ('A' <= character && character
            <= 'Z');
        let digit = '0' <= character && character <= '9';
        if !(letter || digit || character == '-') {
            valid = false;
        }
    }
    if valid {
        Ok(join_path(root, id))
    } else {
        let mut error = joined("invalid job id `", id);
        error.append("`");
        Err(error)
    }
}

/// A job ID cannot leave the job root: its directory is the root, a separator and the ID, and the
/// ID holds neither a separator nor a dot.
pub proof fn job_ids_stay_below_the_root(root: Seq<char>, id: Seq<char>)
    requires
        job_dir(root, id) is Ok,
    ensures
        job_dir(root, id) == Ok::<Seq<char>, Seq<char>>(path_join(root, id)),
        id.len() > 0,
        !id.contains('/'),
        !id.contains('.'),
{
    assert forall|i: int| 0 <= i < id.len() implies id[i] != '/' && id[i] != '.' by {}
}

/// Why a job is refused, if it is.
pub open spec fn job_problem(command: Seq<Seq<char>>, cwd: Seq<char>, cwd_exists: bool) -> Option<
    Seq<char>,
> {
    if command.len() == 0 {
        Some("job command is required after --"@)
    } else if !cwd_exists {
        Some("job working directory does not exist: "@ + cwd)
    } else {
        None
    }
}

/// Checks a job before anything is written for it.
pub fn validate_job(command: &Vec<String>, cwd: &str, cwd_exists: bool) -> (result: Result<
    (),
    String,
>)
    ensures
        outcome(result) == match job_problem(texts(command@), cwd@, cwd_exists) {
            Some(problem) => Err::<(), Seq<char>>(problem),
            None => Ok(()),
        },
{
    if command.len() == 0 {
        return Err("job command is required after --".to_owned());
    }
    if !cwd_exists {
        return Err(joined("job working directory does not exist: ", cwd));
    }
    Ok(())
}

/// A job that has not been started.
pub open spec fn prepared(
    root: Seq<char>,
    id: Seq<char>,
    session_id: Seq<char>,
    label: Option<Seq<char>>,
    cwd: Seq<char>,
    command: Seq<Seq<char>>,
    now_ms: u64,
) -> JobSpecView {
    JobSpecView {
        version: 1,
        id,
        session_id,
        label,
        cwd,
        command,
        created_at_ms: now_ms,
        supervisor_pid: None,
        child_pid: None,
        started_at_ms: None,
        log_path: path_join(path_join(root, id), "output.log"@),
    }
}

/// Prepares the record of a job. `root` is the resolved job root and `id` a new ID below it.
pub fn prepare(
    root: &str,
    id: String,
    session_id: String,
    label: Option<String>,
    cwd: String,
    cwd_exists: bool,
    command: Vec<String>,
    now_ms: u64,
) -> (result: Result<JobSpec, String>)
    ensures
        outcome_view(result) == match job_problem(texts(command@), cwd@, cwd_exists) {
            Some(problem) => Err::<JobSpecView, Seq<char>>(problem),
            None => Ok(
                prepared(root@, id@, session_id@, optional(label), cwd@, texts(command@), now_ms),
            ),
        },
{
    match validate_job(&command, cwd.as_str(), cwd_exists) {
        Ok(()) => {},
        Err(error) => return Err(error),
    }
    let directory = join_path(root, id.as_str());
    let log_path = join_path(directory.as_str(), "output.log");
    Ok(
        JobSpec {
            version: 1,
            id,
            session_id,
            label,
            cwd,
            command,
            created_at_ms: now_ms,
            supervisor_pid: None,
            child_pid: None,
            started_at_ms: None,
            log_path,
        },
    )
}

/// What a condition keeps of a job.
pub open spec fn referring(root: Seq<char>, spec: JobSpecView) -> Result<
    JobReferenceView,
    Seq<char>,
> {
    if is_component_prefix(path_components(root), path_components(spec.log_path)) {
        Ok(JobReferenceView { id: spec.id, root, log_path: spec.log_path })
    } else {
        Err("job log "@ + spec.log_path + " is outside job root "@ + root)
    }
}

/// What a condition keeps of a job. `root` is the resolved job root, and the log must lie below it.
pub fn reference(root: &str, spec: &JobSpec) -> (result: Result<JobReference, String>)
    ensures
        outcome_view(result) == referring(root@, spec@),
{
    if !path_starts_with(spec.log_path.as_str(), root) {
        let mut error = joined("job log ", spec.log_path.as_str());
        error.append(" is outside job root ");
        error.append(root);
        return Err(error);
    }
    Ok(
        JobReference {
            id: spec.id.clone(),
            root: root.to_owned(),
            log_path: spec.log_path.clone(),
        },
    )
}

/// The directory that goes when a prepared job is discarded: none if anything shows that the job
/// was started.
pub open spec fn discarded(
    root: Seq<char>,
    id: Seq<char>,
    spec: StoredView<JobSpecView>,
    heartbeat_exists: bool,
    result_exists: bool,
) -> Option<Seq<char>> {
    match (job_dir(root, id), spec) {
        (Ok(directory), StoredView::Found(spec)) => if !heartbeat_exists && !result_exists
            && spec.supervisor_pid is None && spec.child_pid is None {
            Some(directory)
        } else {
            None
        },
        _ => None,
    }
}

/// The directory to remove when a prepared job is discarded, if it was never started.
pub fn discard_prepared(
    root: &str,
    id: &str,
    spec: &Stored<JobSpec>,
    heartbeat_exists: bool,
    result_exists: bool,
) -> (directory: Option<String>)
    ensures
        optional(directory) == discarded(root@, id@, spec@, heartbeat_exists, result_exists),
{
    let directory = match checked_job_dir(root, id) {
        Ok(directory) => directory,
        Err(_) => return None,
    };
    if heartbeat_exists || result_exists {
        return None;
    }
    match spec {
        Stored::Found(spec) => if spec.supervisor_pid.is_none() && spec.child_pid.is_none() {
            Some(directory)
        } else {
            None
        },
        _ => None,
    }
}

/// Where the records of a job put it. A result decides; without one the age of the last sign of
/// the supervisor does.
pub open spec fn state_of(
    spec: JobSpecView,
    result: Option<JobResultView>,
    heartbeat_at_ms: Option<u64>,
    now_ms: u64,
) -> JobState {
    match result {
        Some(result) => if result.error is Some {
            JobState::SupervisorFailed
        } else {
            JobState::Completed
        },
        None => {
            let last = match heartbeat_at_ms {
                Some(heartbeat) => heartbeat,
                None => spec.created_at_ms,
            };
            if since(now_ms, last) > STALE_AFTER {
                JobState::Stale
            } else if heartbeat_at_ms is Some {
                JobState::Running
            } else {
                JobState::Starting
            }
        },
    }
}

/// What the heartbeat file of a job says.
pub open spec fn heartbeat_of(stored: StoredView<Seq<char>>) -> Result<Option<u64>, Seq<char>> {
    match stored {
        StoredView::Found(text) => match number_or_text(trim(text)) {
            Ok(heartbeat) => Ok(Some(heartbeat)),
            Err(error) => Err("parse job heartbeat: "@ + error),
        },
        StoredView::Missing => Ok(None),
        StoredView::Failed(error) => Err("read job heartbeat: "@ + error),
    }
}

fn read_heartbeat(stored: &Stored<String>) -> (result: Result<Option<u64>, String>)
    ensures
        outcome(result) == heartbeat_of(stored@),
{
    match stored {
        Stored::Found(text) => match parse_number(trimmed(text.as_str()).as_str()) {
            Ok(heartbeat) => Ok(Some(heartbeat)),
            Err(error) => Err(joined("parse job heartbeat: ", error.as_str())),
        },
        Stored::Missing => Ok(None),
        Stored::Failed(error) => Err(joined("read job heartbeat: ", error.as_str())),
    }
}

/// What the records of a job show.
pub open spec fn shown(
    root: Seq<char>,
    id: Seq<char>,
    spec: StoredView<JobSpecView>,
    result: StoredView<JobResultView>,
    heartbeat: StoredView<Seq<char>>,
    now_ms: u64,
) -> Result<JobSnapshotView, Seq<char>> {
    match (
        job_dir(root, id),
        required(spec, "read job specification"@),
        result,
        heartbeat_of(heartbeat),
    ) {
        (Err(error), _, _, _) => Err(error),
        (_, Err(error), _, _) => Err(error),
        (_, _, StoredView::Failed(error), _) => Err("read job result: "@ + error),
        (_, _, _, Err(error)) => Err(error),
        (Ok(_), Ok(spec), result, Ok(heartbeat_at_ms)) => {
            let result = match result {
                StoredView::Found(result) => Some(result),
                _ => None,
            };
            Ok(
                JobSnapshotView {
                    id: spec.id,
                    label: spec.label,
                    state: state_of(spec, result, heartbeat_at_ms, now_ms),
                    supervisor_pid: spec.supervisor_pid,
                    child_pid: spec.child_pid,
                    created_at_ms: spec.created_at_ms,
                    started_at_ms: spec.started_at_ms,
                    heartbeat_at_ms,
                    result,
                    log_path: spec.log_path,
                },
            )
        },
    }
}

/// What the records of a job show.
pub fn snapshot(
    root: &str,
    id: &str,
    spec: &Stored<JobSpec>,
    result: &Stored<JobResult>,
    heartbeat: &Stored<String>,
    observed_at_ms: u64,
) -> (snapshot: Result<JobSnapshot, String>)
    ensures
        outcome_view(snapshot) == shown(root@, id@, spec@, result@, heartbeat@, observed_at_ms),
        snapshot matches Ok(job) ==> job@.well_formed(),
{
    match checked_job_dir(root, id) {
        Ok(_) => {},
        Err(error) => return Err(error),
    }
    let spec = match required_spec(spec, "read job specification") {
        Ok(spec) => spec,
        Err(error) => return Err(error),
    };
    let result = match result {
        Stored::Found(result) => Some(result.clone()),
        Stored::Missing => None,
        Stored::Failed(error) => return Err(joined("read job result: ", error.as_str())),
    };
    let heartbeat_at_ms = match read_heartbeat(heartbeat) {
        Ok(heartbeat) => heartbeat,
        Err(error) => return Err(error),
    };
    let state = match &result {
        Some(result) => if result.error.is_some() {
            JobState::SupervisorFailed
        } else {
            JobState::Completed
        },
        None => {
            let last = match heartbeat_at_ms {
                Some(heartbeat) => heartbeat,
                None => spec.created_at_ms,
            };
            if elapsed(observed_at_ms, last) > STALE_AFTER {
                JobState::Stale
            } else if heartbeat_at_ms.is_some() {
                JobState::Running
            } else {
                JobState::Starting
            }
        },
    };
    Ok(
        JobSnapshot {
            id: spec.id.clone(),
            label: clone_optional(&spec.label),
            state,
            supervisor_pid: spec.supervisor_pid,
            child_pid: spec.child_pid,
            created_at_ms: spec.created_at_ms,
            started_at_ms: spec.started_at_ms,
            heartbeat_at_ms,
            result,
            log_path: spec.log_path.clone(),
        },
    )
}

/// A recorded result is final: whatever the heartbeat says and however late it is, the job shows
/// that result and is ready.
pub proof fn a_recorded_result_is_final(
    root: Seq<char>,
    id: Seq<char>,
    spec: StoredView<JobSpecView>,
    result: JobResultView,
    heartbeat: StoredView<Seq<char>>,
    now_ms: u64,
)
    requires
        shown(root, id, spec, StoredView::Found(result), heartbeat, now_ms) is Ok,
    ensures
        shown(root, id, spec, StoredView::Found(result), heartbeat, now_ms) matches Ok(job)
            && job.ready() && job.result == Some(result) && job.state != JobState::Stale,
{
}

/// Losing the heartbeat claims no completion: a stale job shows no result.
pub proof fn a_stale_job_claims_no_result(
    root: Seq<char>,
    id: Seq<char>,
    spec: StoredView<JobSpecView>,
    result: StoredView<JobResultView>,
    heartbeat: StoredView<Seq<char>>,
    now_ms: u64,
)
    ensures
        shown(root, id, spec, result, heartbeat, now_ms) matches Ok(job) ==> (job.state
            == JobState::Stale ==> job.result is None),
{
}

/// The log of a job.
pub fn log_path(root: &str, id: &str, spec: &Stored<JobSpec>) -> (result: Result<String, String>)
    ensures
        outcome_view(result) == match (
            job_dir(root@, id@),
            required(spec@, "read job specification"@),
        ) {
            (Err(error), _) => Err::<Seq<char>, Seq<char>>(error),
            (_, Err(error)) => Err(error),
            (Ok(_), Ok(spec)) => Ok(spec.log_path),
        },
{
    match checked_job_dir(root, id) {
        Ok(_) => {},
        Err(error) => return Err(error),
    }
    match required_spec(spec, "read job specification") {
        Ok(spec) => Ok(spec.log_path.clone()),
        Err(error) => Err(error),
    }
}

/// The result of a job that failed before its command could be observed.
pub open spec fn failed_result(spec: JobSpecView, error: Seq<char>, now_ms: u64) -> JobResultView {
    JobResultView {
        version: 1,
        completed_at_ms: now_ms,
        duration_ms: since(now_ms, spec.created_at_ms),
        exit_code: None,
        signal: None,
        error: Some(error),
    }
}

pub(crate) fn failure_of(spec: &JobSpec, error: &str, now_ms: u64) -> (result: JobResult)
    ensures
        result@ == failed_result(spec@, error@, now_ms),
{
    JobResult {
        version: 1,
        completed_at_ms: now_ms,
        duration_ms: elapsed(now_ms, spec.created_at_ms),
        exit_code: None,
        signal: None,
        error: Some(error.to_owned()),
    }
}

/// A result to be written into the directory of a job.
#[derive(Debug)]
pub struct FailureRecord {
    pub directory: String,
    pub result: JobResult,
}

/// The view of a [`FailureRecord`].
pub struct FailureRecordView {
    pub directory: Seq<char>,
    pub result: JobResultView,
}

impl View for FailureRecord {
    type V = FailureRecordView;

    open spec fn view(&self) -> FailureRecordView {
        FailureRecordView { directory: self.directory@, result: self.result@ }
    }
}

/// The record of a job whose supervisor could not be started.
pub open spec fn spawn_failure(
    root: Seq<char>,
    id: Seq<char>,
    error: Seq<char>,
    spec: StoredView<JobSpecView>,
    now_ms: u64,
) -> Result<FailureRecordView, Seq<char>> {
    match (job_dir(root, id), required(spec, "read job specification"@)) {
        (Err(problem), _) => Err(problem),
        (_, Err(problem)) => Err(problem),
        (Ok(directory), Ok(spec)) => Ok(
            FailureRecordView { directory, result: failed_result(spec, error, now_ms) },
        ),
    }
}

/// The record of a job whose supervisor could not be started, or why there is none.
pub fn try_record_spawn_failure(
    root: &str,
    id: &str,
    error: &str,
    spec: &Stored<JobSpec>,
    now_ms: u64,
) -> (record: Result<FailureRecord, String>)
    ensures
        outcome_view(record) == spawn_failure(root@, id@, error@, spec@, now_ms),
{
    let directory = match checked_job_dir(root, id) {
        Ok(directory) => directory,
        Err(problem) => return Err(problem),
    };
    match required_spec(spec, "read job specification") {
        Ok(spec) => Ok(FailureRecord { directory, result: failure_of(spec, error, now_ms) }),
        Err(problem) => Err(problem),
    }
}

/// The record of a job whose supervisor could not be started, if the job has a readable
/// specification.
pub fn record_spawn_failure(
    root: &str,
    id: &str,
    error: &str,
    spec: &Stored<JobSpec>,
    now_ms: u64,
) -> (record: Option<FailureRecord>)
    ensures
        optional(record) == match spawn_failure(root@, id@, error@, spec@, now_ms) {
            Ok(record) => Some(record),
            Err(_) => None::<FailureRecordView>,
        },
{
    match try_record_spawn_failure(root, id, error, spec, now_ms) {
        Ok(record) => Some(record),
        Err(_) => None,
    }
}

} // verus!
