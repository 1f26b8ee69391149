//! Launching a supervised job: the order in which its condition is armed and its supervisor is
//! started, and what is taken back where one of the two fails.
use vstd::prelude::*;

use crate::commands::{condition_recovery, job_recovery, launch_failure};
use crate::condition::{Condition, ConditionView, JobReference, JobReferenceView};
use crate::session::optional_outcome;
use crate::text::{outcome, outcome_view};

verus! {

/// What a launch waits for.
#[derive(Debug)]
pub enum LaunchStage {
    /// The condition that waits for the job is being armed.
    Arming,
    /// The prepared job is being discarded, for this reason.
    Discarding { error: String },
    /// The supervisor is being started.
    Starting { condition_id: String },
    /// The condition is being cancelled, for this reason.
    Cancelling { condition_id: String, error: String },
    /// The failure of the job is being recorded.
    Recording {
        condition_id: String,
        error: String,
        cancelled: Result<Option<Condition>, String>,
    },
    /// Nothing more.
    Ended,
}

/// The view of a [`LaunchStage`].
pub enum LaunchStageView {
    Arming,
    Discarding { error: Seq<char> },
    Starting { condition_id: Seq<char> },
    Cancelling { condition_id: Seq<char>, error: Seq<char> },
    Recording {
        condition_id: Seq<char>,
        error: Seq<char>,
        cancelled: Result<Option<ConditionView>, Seq<char>>,
    },
    Ended,
}

impl View for LaunchStage {
    type V = LaunchStageView;

    open spec fn view(&self) -> LaunchStageView {
        match *self {
            LaunchStage::Arming => LaunchStageView::Arming,
            LaunchStage::Discarding { error } => LaunchStageView::Discarding { error: error@ },
            LaunchStage::Starting { condition_id } => LaunchStageView::Starting {
                condition_id: condition_id@,
            },
            LaunchStage::Cancelling { condition_id, error } => LaunchStageView::Cancelling {
                condition_id: condition_id@,
                error: error@,
            },
            LaunchStage::Recording { condition_id, error, cancelled } => {
                LaunchStageView::Recording {
                    condition_id: condition_id@,
                    error: error@,
                    cancelled: optional_outcome(cancelled),
                }
            },
            LaunchStage::Ended => LaunchStageView::Ended,
        }
    }
}

/// The launch of a job that was prepared for a session.
#[derive(Debug)]
pub struct Launch {
    pub session_id: String,
    pub job: JobReference,
    pub stage: LaunchStage,
}

/// The view of a [`Launch`].
pub struct LaunchView {
    pub session_id: Seq<char>,
    pub job: JobReferenceView,
    pub stage: LaunchStageView,
}

impl View for Launch {
    type V = LaunchView;

    open spec fn view(&self) -> LaunchView {
        LaunchView { session_id: self.session_id@, job: self.job@, stage: self.stage@ }
    }
}

impl Launch {
    /// A launch whose condition is to be armed.
    pub fn new(session_id: String, job: JobReference) -> (launch: Launch)
        ensures
            launch@ == LaunchView::new(session_id@, job@),
    {
        Launch { session_id, job, stage: LaunchStage::Arming }
    }
}

impl LaunchView {
    /// A launch whose condition is to be armed.
    pub open spec fn new(session_id: Seq<char>, job: JobReferenceView) -> LaunchView {
        LaunchView { session_id, job, stage: LaunchStageView::Arming }
    }

    /// The launch in another stage.
    pub open spec fn at(self, stage: LaunchStageView) -> LaunchView {
        LaunchView { stage, ..self }
    }
}

/// What happened.
#[derive(Debug)]
pub enum LaunchEvent {
    /// The condition was armed under this ID, or not.
    Armed(Result<String, String>),
    /// The prepared job was discarded.
    Discarded,
    /// The supervisor acknowledged its start, with this process ID, or not.
    Started(Result<u32, String>),
    /// The condition was cancelled, if it was still the expected one.
    Cancelled(Result<Option<Condition>, String>),
    /// The failure of the job was recorded, or not.
    Recorded(Result<(), String>),
}

/// The view of a [`LaunchEvent`].
pub enum LaunchEventView {
    Armed(Result<Seq<char>, Seq<char>>),
    Discarded,
    Started(Result<u32, Seq<char>>),
    Cancelled(Result<Option<ConditionView>, Seq<char>>),
    Recorded(Result<(), Seq<char>>),
}

impl View for LaunchEvent {
    type V = LaunchEventView;

    open spec fn view(&self) -> LaunchEventView {
        match *self {
            LaunchEvent::Armed(armed) => LaunchEventView::Armed(outcome_view(armed)),
            LaunchEvent::Discarded => LaunchEventView::Discarded,
            LaunchEvent::Started(started) => LaunchEventView::Started(outcome(started)),
            LaunchEvent::Cancelled(cancelled) => LaunchEventView::Cancelled(
                optional_outcome(cancelled),
            ),
            LaunchEvent::Recorded(recorded) => LaunchEventView::Recorded(outcome(recorded)),
        }
    }
}

/// What is to be done.
#[derive(Debug)]
pub enum LaunchAction {
    /// Discard this prepared job.
    Discard(JobReference),
    /// Start the supervisor of this job.
    Start(JobReference),
    /// Cancel the condition of this session, if it still has this ID.
    Cancel { session_id: String, condition_id: String },
    /// Record that this job failed, for this reason.
    Record { job: JobReference, error: String },
    /// Report the ID of the condition and the process ID of the supervisor, or the error.
    Finish(Result<(String, u32), String>),
}

/// The view of a [`LaunchAction`].
pub enum LaunchActionView {
    Discard(JobReferenceView),
    Start(JobReferenceView),
    Cancel { session_id: Seq<char>, condition_id: Seq<char> },
    Record { job: JobReferenceView, error: Seq<char> },
    Finish(Result<(Seq<char>, u32), Seq<char>>),
}

impl View for LaunchAction {
    type V = LaunchActionView;

    open spec fn view(&self) -> LaunchActionView {
        match *self {
            LaunchAction::Discard(job) => LaunchActionView::Discard(job@),
            LaunchAction::Start(job) => LaunchActionView::Start(job@),
            LaunchAction::Cancel { session_id, condition_id } => LaunchActionView::Cancel {
                session_id: session_id@,
                condition_id: condition_id@,
            },
            LaunchAction::Record { job, error } => LaunchActionView::Record {
                job: job@,
                error: error@,
            },
            LaunchAction::Finish(Ok((condition_id, pid))) => LaunchActionView::Finish(
                Ok((condition_id@, pid)),
            ),
            LaunchAction::Finish(Err(error)) => LaunchActionView::Finish(Err(error@)),
        }
    }
}

/// What is said of a step that is not the next one.
pub open spec fn out_of_order() -> Seq<char> {
    "the steps of the launch are out of order"@
}

/// One step of a launch: the launch afterwards, and the next action.
pub open spec fn launching(launch: LaunchView, event: LaunchEventView) -> (
    LaunchView,
    LaunchActionView,
) {
    match (launch.stage, event) {
        (LaunchStageView::Arming, LaunchEventView::Armed(Ok(condition_id))) => (
            launch.at(LaunchStageView::Starting { condition_id }),
            LaunchActionView::Start(launch.job),
        ),
        (LaunchStageView::Arming, LaunchEventView::Armed(Err(error))) => (
            launch.at(LaunchStageView::Discarding { error }),
            LaunchActionView::Discard(launch.job),
        ),
        (LaunchStageView::Discarding { error }, LaunchEventView::Discarded) => (
            launch.at(LaunchStageView::Ended),
            LaunchActionView::Finish(Err(error)),
        ),
        (LaunchStageView::Starting { condition_id }, LaunchEventView::Started(Ok(pid))) => (
            launch.at(LaunchStageView::Ended),
            LaunchActionView::Finish(Ok((condition_id, pid))),
        ),
        (LaunchStageView::Starting { condition_id }, LaunchEventView::Started(Err(error))) => (
            launch.at(LaunchStageView::Cancelling { condition_id, error }),
            LaunchActionView::Cancel { session_id: launch.session_id, condition_id },
        ),
        (
            LaunchStageView::Cancelling { condition_id, error },
            LaunchEventView::Cancelled(cancelled),
        ) => (
            launch.at(LaunchStageView::Recording { condition_id, error, cancelled }),
            LaunchActionView::Record { job: launch.job, error },
        ),
        (
            LaunchStageView::Recording { condition_id, error, cancelled },
            LaunchEventView::Recorded(recorded),
        ) => (
            launch.at(LaunchStageView::Ended),
            LaunchActionView::Finish(
                Err(failure_text(error, cancelled, condition_id, recorded, launch.job.id)),
            ),
        ),
        _ => (
            launch.at(LaunchStageView::Ended),
            LaunchActionView::Finish(Err(out_of_order())),
        ),
    }
}

/// What is said of a launch whose supervisor failed.
pub open spec fn failure_text(
    error: Seq<char>,
    cancelled: Result<Option<ConditionView>, Seq<char>>,
    condition_id: Seq<char>,
    recorded: Result<(), Seq<char>>,
    job_id: Seq<char>,
) -> Seq<char> {
    error + "; "@ + condition_recovery(cancelled, condition_id) + "; "@ + job_recovery(
        recorded,
        job_id,
    )
}

/// Takes one step of a launch: hands in what happened, gives out the launch and what is to be done.
pub fn launch_step(launch: Launch, event: LaunchEvent) -> (result: (Launch, LaunchAction))
    ensures
        (result.0@, result.1@) == launching(launch@, event@),
{
    let session_id = launch.session_id;
    let job = launch.job;
    match (launch.stage, event) {
        (LaunchStage::Arming, LaunchEvent::Armed(Ok(condition_id))) => {
            let action = LaunchAction::Start(job.clone());
            (Launch { session_id, job, stage: LaunchStage::Starting { condition_id } }, action)
        },
        (LaunchStage::Arming, LaunchEvent::Armed(Err(error))) => {
            let action = LaunchAction::Discard(job.clone());
            (Launch { session_id, job, stage: LaunchStage::Discarding { error } }, action)
        },
        (LaunchStage::Discarding { error }, LaunchEvent::Discarded) => (
            Launch { session_id, job, stage: LaunchStage::Ended },
            LaunchAction::Finish(Err(error)),
        ),
        (LaunchStage::Starting { condition_id }, LaunchEvent::Started(Ok(pid))) => (
            Launch { session_id, job, stage: LaunchStage::Ended },
            LaunchAction::Finish(Ok((condition_id, pid))),
        ),
        (LaunchStage::Starting { condition_id }, LaunchEvent::Started(Err(error))) => {
            let action = LaunchAction::Cancel {
                session_id: session_id.clone(),
                condition_id: condition_id.clone(),
            };
            (
                Launch { session_id, job, stage: LaunchStage::Cancelling { condition_id, error } },
                action,
            )
        },
        (LaunchStage::Cancelling { condition_id, error }, LaunchEvent::Cancelled(cancelled)) => {
            let action = LaunchAction::Record { job: job.clone(), error: error.clone() };
            (
                Launch {
                    session_id,
                    job,
                    stage: LaunchStage::Recording { condition_id, error, cancelled },
                },
                action,
            )
        },
        (
            LaunchStage::Recording { condition_id, error, cancelled },
            LaunchEvent::Recorded(recorded),
        ) => {
            let text = launch_failure(
                error.as_str(),
                &cancelled,
                condition_id.as_str(),
                &recorded,
                job.id.as_str(),
            );
            (
                Launch { session_id, job, stage: LaunchStage::Ended },
                LaunchAction::Finish(Err(text)),
            )
        },
        _ => (
            Launch { session_id, job, stage: LaunchStage::Ended },
            LaunchAction::Finish(Err("the steps of the launch are out of order".to_owned())),
        ),
    }
}

/// A supervisor that fails after the condition was armed does not leave the session occupied: that
/// very condition is to be cancelled, then the failure of that very job is to be recorded, and the
/// launch ends with the error and what became of the two, however they went.
pub proof fn a_failed_start_is_taken_back(
    session_id: Seq<char>,
    job: JobReferenceView,
    condition_id: Seq<char>,
    error: Seq<char>,
    cancelled: Result<Option<ConditionView>, Seq<char>>,
    recorded: Result<(), Seq<char>>,
)
    ensures
        ({
            let armed = launching(
                LaunchView::new(session_id, job),
                LaunchEventView::Armed(Ok(condition_id)),
            );
            let failed = launching(armed.0, LaunchEventView::Started(Err(error)));
            let freed = launching(failed.0, LaunchEventView::Cancelled(cancelled));
            let ended = launching(freed.0, LaunchEventView::Recorded(recorded));
            &&& armed.1 == LaunchActionView::Start(job)
            &&& failed.1 == LaunchActionView::Cancel { session_id, condition_id }
            &&& freed.1 == LaunchActionView::Record { job, error }
            &&& ended.1 == LaunchActionView::Finish(
                Err(failure_text(error, cancelled, condition_id, recorded, job.id)),
            )
        }),
{
}

/// A condition that cannot be armed leaves no prepared job behind: the job is to be discarded, no
/// supervisor is started, and the launch ends with the error.
pub proof fn a_refused_condition_discards_the_job(
    session_id: Seq<char>,
    job: JobReferenceView,
    error: Seq<char>,
)
    ensures
        ({
            let refused = launching(
                LaunchView::new(session_id, job),
                LaunchEventView::Armed(Err(error)),
            );
            &&& refused.1 == LaunchActionView::Discard(job)
            &&& launching(refused.0, LaunchEventView::Discarded).1 == LaunchActionView::Finish(
                Err(error),
            )
        }),
{
}

/// A launch succeeds only after its supervisor acknowledged its start, and reports the condition
/// that was armed for it.
pub proof fn only_an_acknowledged_start_succeeds(
    launch: LaunchView,
    event: LaunchEventView,
    condition_id: Seq<char>,
    pid: u32,
)
    requires
        launching(launch, event).1 == LaunchActionView::Finish(Ok((condition_id, pid))),
    ensures
        launch.stage == (LaunchStageView::Starting { condition_id }),
        event == LaunchEventView::Started(Ok(pid)),
{
}

} // verus!
