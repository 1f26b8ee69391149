//! The steps of a supervisor: from what happened last to what is to be done next.
use vstd::prelude::*;

use crate::condition::{elapsed, since};
use crate::job::{
    failed_result, failure_of, no_such_file, JobResult, JobResultView, JobSpec, JobSpecView,
    CHILD_CHECK_INTERVAL_MS, HEARTBEAT_INTERVAL_MS,
};
use crate::stored::{Stored, StoredView};
use crate::text::{debug_list, debug_text, decimal, decimal_text, joined, optional, outcome};

verus! {

/// How a process ended.
#[derive(Debug, Clone, Copy, PartialEq, Eq, Structural)]
pub struct ProcessExit {
    pub code: Option<i32>,
    pub signal: Option<i32>,
}

/// What a supervisor is waiting for.
#[derive(Debug, Clone, Copy, PartialEq, Eq, Structural)]
pub enum SupervisePhase {
    /// The specification is being read.
    Reading,
    /// The first heartbeat is being written.
    Acknowledging,
    /// The log is being created.
    Opening,
    /// The log handle is being duplicated.
    Cloning,
    /// The command is being started.
    Spawning,
    /// The process numbers are being recorded.
    Recording,
    /// The command is being looked at.
    Watching,
    /// The command is still running.
    Sleeping,
    /// A heartbeat is being written.
    Refreshing,
    /// The result is being written.
    Finishing,
    /// The specification is being read once more, after an error.
    Failing,
    /// The error is being written.
    FailureRecorded,
    /// Nothing is left to do.
    Ended,
}

/// A supervisor of one job.
#[derive(Debug)]
pub struct Supervisor {
    pub pid: u32,
    pub phase: SupervisePhase,
    pub spec: Option<JobSpec>,
    pub started_at_ms: u64,
    pub last_heartbeat_ms: u64,
    pub error: Option<String>,
}

/// The view of a [`Supervisor`].
pub struct SupervisorView {
    pub pid: u32,
    pub phase: SupervisePhase,
    pub spec: Option<JobSpecView>,
    pub started_at_ms: u64,
    pub last_heartbeat_ms: u64,
    pub error: Option<Seq<char>>,
}

impl View for Supervisor {
    type V = SupervisorView;

    open spec fn view(&self) -> SupervisorView {
        SupervisorView {
            pid: self.pid,
            phase: self.phase,
            spec: optional(self.spec),
            started_at_ms: self.started_at_ms,
            last_heartbeat_ms: self.last_heartbeat_ms,
            error: optional(self.error),
        }
    }
}

/// What happened.
#[derive(Debug)]
pub enum SuperviseEvent {
    /// The specification was read.
    SpecRead(Stored<JobSpec>),
    /// What was asked for was done, or failed.
    Done(Result<(), String>),
    /// The command was started, or not.
    Spawned(Result<u32, String>),
    /// The command was looked at; it has ended or not.
    Polled(Result<Option<ProcessExit>, String>),
    /// The time asked for has passed.
    Woke,
}

/// The view of a [`SuperviseEvent`].
pub enum SuperviseEventView {
    SpecRead(StoredView<JobSpecView>),
    Done(Result<(), Seq<char>>),
    Spawned(Result<u32, Seq<char>>),
    Polled(Result<Option<ProcessExit>, Seq<char>>),
    Woke,
}

impl View for SuperviseEvent {
    type V = SuperviseEventView;

    open spec fn view(&self) -> SuperviseEventView {
        match *self {
            SuperviseEvent::SpecRead(stored) => SuperviseEventView::SpecRead(stored@),
            SuperviseEvent::Done(result) => SuperviseEventView::Done(outcome(result)),
            SuperviseEvent::Spawned(result) => SuperviseEventView::Spawned(outcome(result)),
            SuperviseEvent::Polled(result) => SuperviseEventView::Polled(outcome(result)),
            SuperviseEvent::Woke => SuperviseEventView::Woke,
        }
    }
}

/// What is to be done.
#[derive(Debug)]
pub enum SuperviseAction {
    /// Read the specification of the job.
    ReadSpec,
    /// Write this heartbeat.
    WriteHeartbeat(String),
    /// Create this log, which must not exist.
    OpenLog(String),
    /// Duplicate the log handle.
    CloneLog,
    /// Start the command.
    Spawn,
    /// Write this specification.
    WriteSpec(JobSpec),
    /// Look whether the command has ended.
    Poll,
    /// Wait this many milliseconds.
    Sleep(u64),
    /// Write this result.
    WriteResult(JobResult),
    /// Stop, with this outcome.
    Finish(Result<(), String>),
}

/// The view of a [`SuperviseAction`].
pub enum SuperviseActionView {
    ReadSpec,
    WriteHeartbeat(Seq<char>),
    OpenLog(Seq<char>),
    CloneLog,
    Spawn,
    WriteSpec(JobSpecView),
    Poll,
    Sleep(u64),
    WriteResult(JobResultView),
    Finish(Result<(), Seq<char>>),
}

impl View for SuperviseAction {
    type V = SuperviseActionView;

    open spec fn view(&self) -> SuperviseActionView {
        match *self {
            SuperviseAction::ReadSpec => SuperviseActionView::ReadSpec,
            SuperviseAction::WriteHeartbeat(text) => SuperviseActionView::WriteHeartbeat(text@),
            SuperviseAction::OpenLog(path) => SuperviseActionView::OpenLog(path@),
            SuperviseAction::CloneLog => SuperviseActionView::CloneLog,
            SuperviseAction::Spawn => SuperviseActionView::Spawn,
            SuperviseAction::WriteSpec(spec) => SuperviseActionView::WriteSpec(spec@),
            SuperviseAction::Poll => SuperviseActionView::Poll,
            SuperviseAction::Sleep(millis) => SuperviseActionView::Sleep(millis),
            SuperviseAction::WriteResult(result) => SuperviseActionView::WriteResult(result@),
            SuperviseAction::Finish(result) => SuperviseActionView::Finish(outcome(result)),
        }
    }
}

impl SupervisorView {
    /// Whether the phase is one between reading the specification and writing the result.
    pub open spec fn at_work(self) -> bool {
        self.phase != SupervisePhase::Reading && self.phase != SupervisePhase::Failing && self.phase
            != SupervisePhase::FailureRecorded && self.phase != SupervisePhase::Ended
    }

    /// A supervisor at work knows its job and has no error; one that failed knows why.
    pub open spec fn well_formed(self) -> bool {
        &&& self.at_work() ==> self.spec is Some && self.error is None
        &&& self.phase == SupervisePhase::Reading ==> self.error is None
        &&& self.phase == SupervisePhase::Failing || self.phase == SupervisePhase::FailureRecorded
            ==> self.error is Some
    }

    /// Whether an event answers what the supervisor is waiting for. A job without a command cannot
    /// be started.
    pub open spec fn expects(self, event: SuperviseEventView) -> bool {
        match event {
            SuperviseEventView::SpecRead(stored) => self.phase == SupervisePhase::Failing || (
            self.phase == SupervisePhase::Reading && (stored matches StoredView::Found(spec)
                ==> spec.command.len() > 0)),
            SuperviseEventView::Done(_) => self.phase == SupervisePhase::Acknowledging || self.phase
                == SupervisePhase::Opening || self.phase == SupervisePhase::Cloning || self.phase
                == SupervisePhase::Recording || self.phase == SupervisePhase::Refreshing
                || self.phase == SupervisePhase::Finishing || self.phase
                == SupervisePhase::FailureRecorded,
            SuperviseEventView::Spawned(_) => self.phase == SupervisePhase::Spawning,
            SuperviseEventView::Polled(_) => self.phase == SupervisePhase::Watching,
            SuperviseEventView::Woke => self.phase == SupervisePhase::Sleeping,
        }
    }

    /// Gives up: the error is to be recorded with the job.
    pub open spec fn failing(self, error: Seq<char>) -> (SupervisorView, SuperviseActionView) {
        (
            SupervisorView { phase: SupervisePhase::Failing, error: Some(error), ..self },
            SuperviseActionView::ReadSpec,
        )
    }

    /// Goes on to another phase.
    pub open spec fn next(self, phase: SupervisePhase, action: SuperviseActionView) -> (
        SupervisorView,
        SuperviseActionView,
    ) {
        (SupervisorView { phase, ..self }, action)
    }

    /// What a failed step is called.
    pub open spec fn context(self) -> Seq<char> {
        match self.phase {
            SupervisePhase::Acknowledging => "write supervisor heartbeat: "@,
            SupervisePhase::Opening => "create job log "@ + self.spec->0.log_path + ": "@,
            SupervisePhase::Cloning => "clone job log handle: "@,
            SupervisePhase::Recording => "update job specification: "@,
            SupervisePhase::Refreshing => "refresh supervisor heartbeat: "@,
            _ => "write job result: "@,
        }
    }
}

/// The text of a heartbeat.
pub open spec fn heartbeat_text(now_ms: u64) -> Seq<char> {
    decimal(now_ms as nat) + "\n"@
}

/// The result of a command that ended.
pub open spec fn exit_result(exit: ProcessExit, started_at_ms: u64, now_ms: u64) -> JobResultView {
    JobResultView {
        version: 1,
        completed_at_ms: now_ms,
        duration_ms: since(now_ms, started_at_ms),
        exit_code: exit.code,
        signal: exit.signal,
        error: None,
    }
}

/// The step after something was done.
pub open spec fn after_success(run: SupervisorView, now_ms: u64, clock_ms: u64) -> (
    SupervisorView,
    SuperviseActionView,
) {
    match run.phase {
        SupervisePhase::Acknowledging => run.next(
            SupervisePhase::Opening,
            SuperviseActionView::OpenLog(run.spec->0.log_path),
        ),
        SupervisePhase::Opening => run.next(SupervisePhase::Cloning, SuperviseActionView::CloneLog),
        SupervisePhase::Cloning => SupervisorView { started_at_ms: now_ms, ..run }.next(
            SupervisePhase::Spawning,
            SuperviseActionView::Spawn,
        ),
        SupervisePhase::Recording | SupervisePhase::Refreshing => SupervisorView {
            last_heartbeat_ms: clock_ms,
            ..run
        }.next(SupervisePhase::Watching, SuperviseActionView::Poll),
        SupervisePhase::FailureRecorded => run.next(
            SupervisePhase::Ended,
            SuperviseActionView::Finish(Err(run.error->0)),
        ),
        _ => run.next(SupervisePhase::Ended, SuperviseActionView::Finish(Ok(()))),
    }
}

/// The step after something was asked for.
pub open spec fn after_request(
    run: SupervisorView,
    result: Result<(), Seq<char>>,
    now_ms: u64,
    clock_ms: u64,
) -> (SupervisorView, SuperviseActionView) {
    match result {
        Ok(()) => after_success(run, now_ms, clock_ms),
        Err(error) => if run.phase == SupervisePhase::FailureRecorded {
            run.next(SupervisePhase::Ended, SuperviseActionView::Finish(Err(run.error->0)))
        } else {
            run.failing(run.context() + error)
        },
    }
}

/// The step after the specification was read.
pub open spec fn after_reading(
    run: SupervisorView,
    stored: StoredView<JobSpecView>,
    now_ms: u64,
) -> (SupervisorView, SuperviseActionView) {
    if run.phase == SupervisePhase::Failing {
        match stored {
            StoredView::Found(spec) => run.next(
                SupervisePhase::FailureRecorded,
                SuperviseActionView::WriteResult(failed_result(spec, run.error->0, now_ms)),
            ),
            _ => run.next(SupervisePhase::Ended, SuperviseActionView::Finish(Err(run.error->0))),
        }
    } else {
        match stored {
            StoredView::Found(spec) => SupervisorView { spec: Some(spec), ..run }.next(
                SupervisePhase::Acknowledging,
                SuperviseActionView::WriteHeartbeat(heartbeat_text(now_ms)),
            ),
            StoredView::Missing => run.failing("read job specification: "@ + no_such_file()),
            StoredView::Failed(error) => run.failing("read job specification: "@ + error),
        }
    }
}

/// One step of a supervisor: what it becomes and what it does next. `now_ms` is the time of day,
/// `clock_ms` that of a clock which never goes back.
pub open spec fn supervision(
    run: SupervisorView,
    event: SuperviseEventView,
    now_ms: u64,
    clock_ms: u64,
) -> (SupervisorView, SuperviseActionView) {
    match event {
        SuperviseEventView::SpecRead(stored) => after_reading(run, stored, now_ms),
        SuperviseEventView::Done(result) => after_request(run, result, now_ms, clock_ms),
        SuperviseEventView::Spawned(Ok(child_pid)) => {
            let spec = JobSpecView {
                supervisor_pid: Some(run.pid),
                child_pid: Some(child_pid),
                started_at_ms: Some(run.started_at_ms),
                ..run.spec->0
            };
            SupervisorView { spec: Some(spec), ..run }.next(
                SupervisePhase::Recording,
                SuperviseActionView::WriteSpec(spec),
            )
        },
        SuperviseEventView::Spawned(Err(error)) => run.failing(
            "start job command "@ + debug_list(run.spec->0.command) + ": "@ + error,
        ),
        SuperviseEventView::Polled(Ok(Some(exit))) => run.next(
            SupervisePhase::Finishing,
            SuperviseActionView::WriteResult(exit_result(exit, run.started_at_ms, now_ms)),
        ),
        SuperviseEventView::Polled(Ok(None)) => run.next(
            SupervisePhase::Sleeping,
            SuperviseActionView::Sleep(CHILD_CHECK_INTERVAL_MS),
        ),
        SuperviseEventView::Polled(Err(error)) => run.failing("observe job command: "@ + error),
        SuperviseEventView::Woke => if since(clock_ms, run.last_heartbeat_ms)
            >= HEARTBEAT_INTERVAL_MS {
            run.next(
                SupervisePhase::Refreshing,
                SuperviseActionView::WriteHeartbeat(heartbeat_text(now_ms)),
            )
        } else {
            run.next(SupervisePhase::Watching, SuperviseActionView::Poll)
        },
    }
}

impl Supervisor {
    /// A supervisor that is about to read its specification.
    pub fn new(pid: u32) -> (run: Supervisor)
        ensures
            run@ == (SupervisorView {
                pid,
                phase: SupervisePhase::Reading,
                spec: None,
                started_at_ms: 0,
                last_heartbeat_ms: 0,
                error: None,
            }),
            run@.well_formed(),
    {
        Supervisor {
            pid,
            phase: SupervisePhase::Reading,
            spec: None,
            started_at_ms: 0,
            last_heartbeat_ms: 0,
            error: None,
        }
    }

    fn fail(&mut self, error: String) -> (action: SuperviseAction)
        ensures
            (final(self)@, action@) == old(self)@.failing(error@),
    {
        self.phase = SupervisePhase::Failing;
        self.error = Some(error);
        SuperviseAction::ReadSpec
    }

    fn give_up(&mut self) -> (action: SuperviseAction)
        requires
            old(self)@.error is Some,
        ensures
            (final(self)@, action@) == old(self)@.next(
                SupervisePhase::Ended,
                SuperviseActionView::Finish(Err(old(self)@.error->0)),
            ),
    {
        self.phase = SupervisePhase::Ended;
        let error = match &self.error {
            Some(error) => error.clone(),
            None => String::new(),
        };
        SuperviseAction::Finish(Err(error))
    }

    fn read(&mut self, stored: Stored<JobSpec>, now_ms: u64) -> (action: SuperviseAction)
        requires
            old(self)@.well_formed(),
            old(self)@.expects(SuperviseEventView::SpecRead(stored@)),
        ensures
            (final(self)@, action@) == after_reading(old(self)@, stored@, now_ms),
    {
        if self.phase == SupervisePhase::Failing {
            return match (stored, &self.error) {
                (Stored::Found(spec), Some(error)) => {
                    let result = failure_of(&spec, error.as_str(), now_ms);
                    self.phase = SupervisePhase::FailureRecorded;
                    SuperviseAction::WriteResult(result)
                },
                _ => self.give_up(),
            };
        }
        match stored {
            Stored::Found(spec) => {
                self.spec = Some(spec);
                self.phase = SupervisePhase::Acknowledging;
                let mut text = decimal_text(now_ms);
                text.append("\n");
                SuperviseAction::WriteHeartbeat(text)
            },
            Stored::Missing => {
                let error = joined(
                    "read job specification: ",
                    "No such file or directory (os error 2)",
                );
                self.fail(error)
            },
            Stored::Failed(error) => {
                let error = joined("read job specification: ", error.as_str());
                self.fail(error)
            },
        }
    }

    fn context_text(&self) -> (context: String)
        requires
            self@.phase == SupervisePhase::Opening ==> self@.spec is Some,
        ensures
            context@ == self@.context(),
    {
        match self.phase {
            SupervisePhase::Acknowledging => "write supervisor heartbeat: ".to_owned(),
            SupervisePhase::Opening => {
                let mut context = "create job log ".to_owned();
                if let Some(spec) = &self.spec {
                    context.append(spec.log_path.as_str());
                }
                context.append(": ");
                context
            },
            SupervisePhase::Cloning => "clone job log handle: ".to_owned(),
            SupervisePhase::Recording => "update job specification: ".to_owned(),
            SupervisePhase::Refreshing => "refresh supervisor heartbeat: ".to_owned(),
            _ => "write job result: ".to_owned(),
        }
    }

    fn done(&mut self, result: Result<(), String>, now_ms: u64, clock_ms: u64) -> (action:
        SuperviseAction)
        requires
            old(self)@.well_formed(),
            old(self)@.expects(SuperviseEventView::Done(outcome(result))),
        ensures
            (final(self)@, action@) == after_request(
                old(self)@,
                outcome(result),
                now_ms,
                clock_ms,
            ),
    {
        if self.phase == SupervisePhase::FailureRecorded {
            return self.give_up();
        }
        match result {
            Ok(()) => {},
            Err(error) => {
                let mut text = self.context_text();
                text.append(error.as_str());
                return self.fail(text);
            },
        }
        match self.phase {
            SupervisePhase::Acknowledging => {
                let log_path = match &self.spec {
                    Some(spec) => spec.log_path.clone(),
                    None => String::new(),
                };
                self.phase = SupervisePhase::Opening;
                SuperviseAction::OpenLog(log_path)
            },
            SupervisePhase::Opening => {
                self.phase = SupervisePhase::Cloning;
                SuperviseAction::CloneLog
            },
            SupervisePhase::Cloning => {
                self.started_at_ms = now_ms;
                self.phase = SupervisePhase::Spawning;
                SuperviseAction::Spawn
            },
            SupervisePhase::Recording | SupervisePhase::Refreshing => {
                self.last_heartbeat_ms = clock_ms;
                self.phase = SupervisePhase::Watching;
                SuperviseAction::Poll
            },
            _ => {
                self.phase = SupervisePhase::Ended;
                SuperviseAction::Finish(Ok(()))
            },
        }
    }

    fn spawned(&mut self, result: Result<u32, String>) -> (action: SuperviseAction)
        requires
            old(self)@.spec is Some,
        ensures
            (final(self)@, action@) == supervision(
                old(self)@,
                SuperviseEventView::Spawned(outcome(result)),
                0,
                0,
            ),
    {
        let mut spec = match &self.spec {
            Some(spec) => spec.clone(),
            None => return SuperviseAction::ReadSpec,
        };
        match result {
            Ok(child_pid) => {
                spec.supervisor_pid = Some(self.pid);
                spec.child_pid = Some(child_pid);
                spec.started_at_ms = Some(self.started_at_ms);
                self.spec = Some(spec.clone());
                self.phase = SupervisePhase::Recording;
                SuperviseAction::WriteSpec(spec)
            },
            Err(error) => {
                let mut text = "start job command ".to_owned();
                text.append(debug_text(&spec.command).as_str());
                text.append(": ");
                text.append(error.as_str());
                self.fail(text)
            },
        }
    }
}

/// Takes one step of a supervisor: hands in what happened, gives out what is to be done. `now_ms`
/// is the time of day, `clock_ms` that of a clock which never goes back.
pub fn supervise(run: &mut Supervisor, event: SuperviseEvent, now_ms: u64, clock_ms: u64) -> (action:
    SuperviseAction)
    requires
        old(run)@.well_formed(),
        old(run)@.expects(event@),
    ensures
        (final(run)@, action@) == supervision(old(run)@, event@, now_ms, clock_ms),
        final(run)@.well_formed(),
{
    match event {
        SuperviseEvent::SpecRead(stored) => run.read(stored, now_ms),
        SuperviseEvent::Done(result) => run.done(result, now_ms, clock_ms),
        SuperviseEvent::Spawned(result) => run.spawned(result),
        SuperviseEvent::Polled(Ok(Some(exit))) => {
            run.phase = SupervisePhase::Finishing;
            SuperviseAction::WriteResult(
                JobResult {
                    version: 1,
                    completed_at_ms: now_ms,
                    duration_ms: elapsed(now_ms, run.started_at_ms),
                    exit_code: exit.code,
                    signal: exit.signal,
                    error: None,
                },
            )
        },
        SuperviseEvent::Polled(Ok(None)) => {
            run.phase = SupervisePhase::Sleeping;
            SuperviseAction::Sleep(CHILD_CHECK_INTERVAL_MS)
        },
        SuperviseEvent::Polled(Err(error)) => {
            let text = joined("observe job command: ", error.as_str());
            run.fail(text)
        },
        SuperviseEvent::Woke => {
            if elapsed(clock_ms, run.last_heartbeat_ms) >= HEARTBEAT_INTERVAL_MS {
                run.phase = SupervisePhase::Refreshing;
                let mut text = decimal_text(now_ms);
                text.append("\n");
                SuperviseAction::WriteHeartbeat(text)
            } else {
                run.phase = SupervisePhase::Watching;
                SuperviseAction::Poll
            }
        },
    }
}

/// A supervisor that fails reports the first error, and records it with the job wherever the
/// specification can be read: the error is never replaced by that of the recording.
pub proof fn the_first_error_is_reported(
    run: SupervisorView,
    error: Seq<char>,
    stored: StoredView<JobSpecView>,
    recorded: Result<(), Seq<char>>,
    now_ms: u64,
    clock_ms: u64,
)
    requires
        run.phase == SupervisePhase::Failing,
        run.error == Some(error),
    ensures
        ({
            let (next, action) = supervision(
                run,
                SuperviseEventView::SpecRead(stored),
                now_ms,
                clock_ms,
            );
            match stored {
                StoredView::Found(spec) => action == SuperviseActionView::WriteResult(
                    failed_result(spec, error, now_ms),
                ) && supervision(next, SuperviseEventView::Done(recorded), now_ms, clock_ms).1
                    == SuperviseActionView::Finish(Err(error)),
                _ => action == SuperviseActionView::Finish(Err(error)),
            }
        }),
{
}

/// A command is started only after the supervisor acknowledged its job with a heartbeat: a start
/// that is asked for follows the creation of the log, and that follows the first heartbeat.
pub proof fn a_command_starts_after_the_first_heartbeat(
    run: SupervisorView,
    event: SuperviseEventView,
    now_ms: u64,
    clock_ms: u64,
)
    requires
        run.well_formed(),
        run.expects(event),
    ensures
        supervision(run, event, now_ms, clock_ms).1 is Spawn ==> run.phase
            == SupervisePhase::Cloning && (event matches SuperviseEventView::Done(Ok(_))),
        supervision(run, event, now_ms, clock_ms).0.phase == SupervisePhase::Cloning ==> run.phase
            == SupervisePhase::Opening && (event matches SuperviseEventView::Done(Ok(_))),
        supervision(run, event, now_ms, clock_ms).0.phase == SupervisePhase::Opening ==> run.phase
            == SupervisePhase::Acknowledging && (event matches SuperviseEventView::Done(Ok(_))),
{
}

/// The result that is written for a command is what the system reported of it.
pub proof fn an_exit_is_recorded_exactly(
    run: SupervisorView,
    exit: ProcessExit,
    now_ms: u64,
    clock_ms: u64,
)
    requires
        run.phase == SupervisePhase::Watching,
    ensures
        supervision(run, SuperviseEventView::Polled(Ok(Some(exit))), now_ms, clock_ms).1 matches
            SuperviseActionView::WriteResult(result) && result.exit_code == exit.code
            && result.signal == exit.signal && result.error is None && result.completed_at_ms
            == now_ms,
{
}

} // verus!
