//! The Stop hook: from the records of a session and what happened to the next action.
//!
//! A hook takes a condition over with a lease, checks it until something is to be reported, and
//! leaves the report as a pending delivery until it has been written.
use vstd::prelude::*;

use crate::condition::{
    accepted, after, clone_job, elapsed, later, mark_resolved, migrate_condition_to_v2,
    read_condition, since, validate_condition, Condition, ConditionStatus, ConditionView,
    JobReference, JobReferenceView,
};
use crate::job::{JobSnapshot, JobSnapshotView};
use crate::lease::{
    accepted_delivery, accepted_lease, delivery_belongs, enter_phase, is_recent, new_lease,
    ownership, read_delivery, read_hook_lease, validate_delivery, validate_hook_lease, watcher,
    watcher_status, DeliveryView, HookLease, HookLeaseView, HookOwner, HookOwnerView, HookPhase,
    Observation, PendingDelivery, WatcherState,
};
use crate::message::{checkpoint_text, continuation, format_checkpoint, format_continuation};
use crate::session::{SessionState, SessionView};
use crate::stored::{Stored, StoredView};
use crate::text::{joined, optional, outcome_view, same_text};

verus! {

/// The event that a hook was invoked for.
#[derive(Debug)]
pub struct StopHookInput {
    pub session_id: String,
    pub hook_event_name: String,
}

/// What a hook answers.
#[derive(Debug, PartialEq, Eq)]
pub enum HookResult {
    Noop,
    Continue(String),
}

/// The view of a [`HookResult`].
pub enum HookResultView {
    Noop,
    Continue(Seq<char>),
}

impl View for HookResult {
    type V = HookResultView;

    open spec fn view(&self) -> HookResultView {
        match *self {
            HookResult::Noop => HookResultView::Noop,
            HookResult::Continue(reason) => HookResultView::Continue(reason@),
        }
    }
}

/// What one check of a predicate gave.
#[derive(Debug)]
pub struct CheckResult {
    pub exit_code: Option<i32>,
    pub output: String,
    pub timed_out: bool,
}

/// The view of a [`CheckResult`].
pub struct CheckResultView {
    pub exit_code: Option<i32>,
    pub output: Seq<char>,
    pub timed_out: bool,
}

impl View for CheckResult {
    type V = CheckResultView;

    open spec fn view(&self) -> CheckResultView {
        CheckResultView {
            exit_code: self.exit_code,
            output: self.output@,
            timed_out: self.timed_out,
        }
    }
}

/// One invocation of the hook.
#[derive(Debug)]
pub struct HookRun {
    pub input: StopHookInput,
    pub owner: HookOwner,
    /// The condition that this invocation drives.
    pub watched: Option<String>,
    /// The owner whose check output was left behind and can go.
    pub stale_output: Option<String>,
}

/// The view of a [`HookRun`].
pub struct HookRunView {
    pub session_id: Seq<char>,
    pub hook_event_name: Seq<char>,
    pub owner: HookOwnerView,
    pub watched: Option<Seq<char>>,
    pub stale_output: Option<Seq<char>>,
}

impl View for HookRun {
    type V = HookRunView;

    open spec fn view(&self) -> HookRunView {
        HookRunView {
            session_id: self.input.session_id@,
            hook_event_name: self.input.hook_event_name@,
            owner: self.owner@,
            watched: optional(self.watched),
            stale_output: optional(self.stale_output),
        }
    }
}

impl HookRun {
    /// An invocation that drives nothing yet.
    pub fn new(input: StopHookInput, owner: HookOwner) -> (run: HookRun)
        ensures
            run@ == (HookRunView {
                session_id: input.session_id@,
                hook_event_name: input.hook_event_name@,
                owner: owner@,
                watched: None,
                stale_output: None,
            }),
    {
        HookRun { input, owner, watched: None, stale_output: None }
    }
}

/// What happened.
#[derive(Debug)]
pub enum HookEvent {
    /// The hook was invoked.
    Stop(Observation),
    /// The lease was acquired, or the time asked for has passed.
    Wake,
    /// The records of the attached job were read at the deadline, if there is such a job.
    JobRead(Option<Result<JobSnapshot, String>>),
    /// The predicate could not be started or observed.
    CheckFailed(String),
    /// The predicate ended or was stopped.
    Checked(CheckResult),
}

/// The view of a [`HookEvent`].
pub enum HookEventView {
    Stop(Observation),
    Wake,
    JobRead(Option<Result<JobSnapshotView, Seq<char>>>),
    CheckFailed(Seq<char>),
    Checked(CheckResultView),
}

impl View for HookEvent {
    type V = HookEventView;

    open spec fn view(&self) -> HookEventView {
        match *self {
            HookEvent::Stop(seen) => HookEventView::Stop(seen),
            HookEvent::Wake => HookEventView::Wake,
            HookEvent::JobRead(job) => HookEventView::JobRead(
                match job {
                    Some(snapshot) => Some(outcome_view(snapshot)),
                    None => None,
                },
            ),
            HookEvent::CheckFailed(error) => HookEventView::CheckFailed(error@),
            HookEvent::Checked(check) => HookEventView::Checked(check@),
        }
    }
}

/// What is to be done.
#[derive(Debug)]
pub enum HookAction {
    /// Answer, and stop.
    Finish(HookResult),
    /// Keep the lease alive from now on, and go on.
    Watch,
    /// Run the predicate, for at most this many milliseconds.
    Check(u64),
    /// Read the records of this job, if there is one: the deadline has passed.
    ReadJob(Option<JobReference>),
    /// Wait this many milliseconds.
    Sleep(u64),
}

/// The view of a [`HookAction`].
pub enum HookActionView {
    Finish(HookResultView),
    Watch,
    Check(u64),
    ReadJob(Option<JobReferenceView>),
    Sleep(u64),
}

impl View for HookAction {
    type V = HookActionView;

    open spec fn view(&self) -> HookActionView {
        match *self {
            HookAction::Finish(result) => HookActionView::Finish(result@),
            HookAction::Watch => HookActionView::Watch,
            HookAction::Check(timeout_ms) => HookActionView::Check(timeout_ms),
            HookAction::ReadJob(job) => HookActionView::ReadJob(optional(job)),
            HookAction::Sleep(millis) => HookActionView::Sleep(millis),
        }
    }
}

/// The session and the invocation after a step, and the next action or an error.
pub struct HookStep {
    pub session: SessionView,
    pub run: HookRunView,
    pub action: Result<HookActionView, Seq<char>>,
}

/// A step that changes nothing.
pub open spec fn still(
    session: SessionView,
    run: HookRunView,
    action: Result<HookActionView, Seq<char>>,
) -> HookStep {
    HookStep { session, run, action }
}

/// The answer of a hook that has nothing to say.
pub open spec fn noop() -> Result<HookActionView, Seq<char>> {
    Ok(HookActionView::Finish(HookResultView::Noop))
}

/// The condition as a hook takes it over.
pub open spec fn taken(condition: ConditionView, now_ms: u64) -> ConditionView {
    ConditionView { status: ConditionStatus::Waiting, ..condition.migrated(now_ms) }
}

/// Takes a condition over.
pub open spec fn acquiring(
    session: SessionView,
    run: HookRunView,
    condition: ConditionView,
    now_ms: u64,
) -> HookStep {
    let waiting = taken(condition, now_ms);
    let lease = run.owner.lease(condition.id, now_ms);
    let cleared = HookRunView {
        stale_output: match accepted_lease(session.lease) {
            StoredView::Found(old) => Some(old.owner.owner_id),
            _ => None,
        },
        ..run
    };
    match waiting.problem() {
        Some(problem) => still(session, run, Err("mark condition waiting: "@ + problem)),
        None => if lease.valid() {
            HookStep {
                session: SessionView {
                    condition: StoredView::Found(waiting),
                    lease: StoredView::Found(lease),
                    delivery: StoredView::Missing,
                },
                run: HookRunView { watched: Some(condition.id), ..cleared },
                action: Ok(HookActionView::Watch),
            }
        } else {
            HookStep {
                session: session.with_condition(waiting),
                run: cleared,
                action: Err("acquire hook lease: invalid hook owner lease"@),
            }
        },
    }
}

/// Takes over a continuation that its hook did not live to write.
pub open spec fn retrying(
    session: SessionView,
    run: HookRunView,
    delivery: DeliveryView,
    now_ms: u64,
) -> HookStep {
    let taken_over = delivery.taken_over(run.owner, now_ms);
    if taken_over.valid() {
        HookStep {
            session: SessionView { delivery: StoredView::Found(taken_over), ..session },
            run: HookRunView { watched: Some(delivery.condition_id), ..run },
            action: Ok(HookActionView::Finish(HookResultView::Continue(delivery.message))),
        }
    } else {
        still(session, run, Err("retry pending delivery: invalid pending delivery"@))
    }
}

/// The step of a hook that was invoked.
pub open spec fn starting(
    session: SessionView,
    run: HookRunView,
    seen: Observation,
    now_ms: u64,
) -> HookStep {
    if run.hook_event_name != "Stop"@ {
        still(session, run, noop())
    } else {
        match accepted(session.condition) {
            StoredView::Missing => still(session, run, noop()),
            StoredView::Failed(error) => still(session, run, Err("read condition: "@ + error)),
            StoredView::Found(condition) => if condition.status == ConditionStatus::Waiting {
                if watcher(condition, session.lease, session.delivery, seen, now_ms).state
                    == WatcherState::Stale {
                    acquiring(session, run, condition, now_ms)
                } else {
                    still(session, run, noop())
                }
            } else if condition.status.given_up() {
                still(session, run, noop())
            } else {
                match accepted_delivery(session.delivery) {
                    StoredView::Failed(error) => still(
                        session,
                        run,
                        Err("read pending delivery: "@ + error),
                    ),
                    StoredView::Found(delivery) => if delivery.belongs_to(condition) {
                        if delivery.in_progress(now_ms, seen.delivery_process_exists) {
                            still(session, run, noop())
                        } else {
                            retrying(session, run, delivery, now_ms)
                        }
                    } else if condition.status == ConditionStatus::Armed {
                        acquiring(session, run, condition, now_ms)
                    } else {
                        still(session, run, noop())
                    },
                    StoredView::Missing => if condition.status == ConditionStatus::Armed {
                        acquiring(session, run, condition, now_ms)
                    } else {
                        still(session, run, noop())
                    },
                }
            },
        }
    }
}

/// The condition and the lease of an invocation that still drives them.
pub open spec fn held(session: SessionView, run: HookRunView, context: Seq<char>) -> Result<
    Option<(ConditionView, HookLeaseView)>,
    Seq<char>,
> {
    match accepted(session.condition) {
        StoredView::Found(condition) => if condition.id == run.watched->0 && condition.status
            == ConditionStatus::Waiting {
            match (
                ownership(session.lease, condition.id, run.owner.owner_id),
                accepted_lease(session.lease),
            ) {
                (Err(error), _) => Err(error),
                (Ok(true), StoredView::Found(lease)) => Ok(Some((condition, lease))),
                _ => Ok(None),
            }
        } else {
            Ok(None)
        },
        StoredView::Missing => Ok(None),
        StoredView::Failed(error) => Err(context + ": "@ + error),
    }
}

/// The time that one check may take.
pub open spec fn check_budget(condition: ConditionView, now_ms: u64) -> u64 {
    let remaining = condition.remaining(now_ms);
    if condition.check_timeout_ms < remaining {
        condition.check_timeout_ms
    } else {
        remaining
    }
}

/// The step of a hook whose condition is due.
pub open spec fn waking(session: SessionView, run: HookRunView, now_ms: u64) -> HookStep {
    match held(session, run, "refresh condition"@) {
        Err(error) => still(session, run, Err(error)),
        Ok(None) => still(session, run, noop()),
        Ok(Some((condition, lease))) => if condition.expired(now_ms) {
            still(session, run, Ok(HookActionView::ReadJob(condition.job)))
        } else {
            HookStep {
                session: SessionView {
                    lease: StoredView::Found(lease.in_phase(HookPhase::Checking, now_ms)),
                    ..session
                },
                run,
                action: Ok(HookActionView::Check(check_budget(condition, now_ms))),
            }
        },
    }
}

/// The continuation that a hook leaves to be written.
pub open spec fn pending(lease: HookLeaseView, message: Seq<char>, now_ms: u64) -> DeliveryView {
    DeliveryView {
        version: 1,
        condition_id: lease.condition_id,
        owner: lease.owner,
        prepared_at_ms: now_ms,
        message,
    }
}

/// A condition that ended: the lease goes, and the report waits to be written.
pub open spec fn settling(
    run: HookRunView,
    condition: ConditionView,
    lease: HookLeaseView,
    now_ms: u64,
) -> HookStep {
    let message = continuation(condition, now_ms);
    HookStep {
        session: SessionView {
            condition: StoredView::Found(condition),
            lease: StoredView::Missing,
            delivery: StoredView::Found(pending(lease, message, now_ms)),
        },
        run,
        action: Ok(HookActionView::Finish(HookResultView::Continue(message))),
    }
}

/// The condition after one more check.
pub open spec fn checked(
    condition: ConditionView,
    exit_code: Option<i32>,
    output: Seq<char>,
) -> ConditionView {
    ConditionView {
        attempts: (condition.attempts + 1) as u64,
        last_exit_code: exit_code,
        last_output: output,
        ..condition
    }
}

/// What a job that ended says of itself.
pub open spec fn completed_summary(job: Option<Result<JobSnapshotView, Seq<char>>>) -> Option<
    Seq<char>,
> {
    match job {
        Some(Ok(snapshot)) => if snapshot.ready() {
            Some(snapshot.line() + "\n"@)
        } else {
            None
        },
        _ => None,
    }
}

/// The condition at its deadline. A job that has ended is a success, however late it is noticed.
pub open spec fn overdue(
    condition: ConditionView,
    job: Option<Result<JobSnapshotView, Seq<char>>>,
    now_ms: u64,
) -> ConditionView {
    match completed_summary(job) {
        Some(summary) => checked(condition, Some(0), summary).resolved(
            ConditionStatus::Succeeded,
            now_ms,
        ),
        None => condition.resolved(ConditionStatus::TimedOut, now_ms),
    }
}

/// The step of a hook at the deadline.
pub open spec fn concluding(
    session: SessionView,
    run: HookRunView,
    job: Option<Result<JobSnapshotView, Seq<char>>>,
    now_ms: u64,
) -> HookStep {
    match held(session, run, "resolve condition deadline"@) {
        Err(error) => still(session, run, Err(error)),
        Ok(None) => still(session, run, noop()),
        Ok(Some((condition, lease))) => settling(
            run,
            overdue(condition, job, now_ms),
            lease,
            now_ms,
        ),
    }
}

/// The step of a hook whose predicate could not be run.
pub open spec fn failing(
    session: SessionView,
    run: HookRunView,
    error: Seq<char>,
    now_ms: u64,
) -> HookStep {
    match held(session, run, "record condition failure"@) {
        Err(error) => still(session, run, Err(error)),
        Ok(None) => still(session, run, noop()),
        Ok(Some((condition, lease))) => settling(
            run,
            checked(condition, condition.last_exit_code, error).resolved(
                ConditionStatus::Failed,
                now_ms,
            ),
            lease,
            now_ms,
        ),
    }
}

/// Whether a check met the condition.
pub open spec fn met(check: CheckResultView) -> bool {
    check.exit_code == Some(0i32) && !check.timed_out
}

/// Whether a checkpoint is due.
pub open spec fn checkpoint_due(condition: ConditionView, now_ms: u64) -> bool {
    condition.next_checkpoint_at_ms matches Some(next) && now_ms >= next
}

/// The condition after a checkpoint: armed again, with the next checkpoint planned unless it would
/// come after the deadline.
pub open spec fn rearmed(condition: ConditionView, now_ms: u64) -> ConditionView {
    let planned = match condition.checkpoint_every_ms {
        Some(every) => after(now_ms, every) <= condition.deadline(),
        None => false,
    };
    ConditionView {
        status: ConditionStatus::Armed,
        checkpoints: (condition.checkpoints + 1) as u64,
        checkpoint_every_ms: if planned {
            condition.checkpoint_every_ms
        } else {
            None
        },
        next_checkpoint_at_ms: match condition.checkpoint_every_ms {
            Some(every) => if planned {
                Some(after(now_ms, every))
            } else {
                None
            },
            None => None,
        },
        ..condition
    }
}

/// The delay until the next check: the polling interval, cut short by the deadline and by the next
/// checkpoint.
pub open spec fn nap(condition: ConditionView, now_ms: u64) -> u64 {
    let remaining = condition.remaining(now_ms);
    let until_checkpoint = match condition.next_checkpoint_at_ms {
        Some(next) => since(next, now_ms),
        None => u64::MAX,
    };
    let bounded = if condition.poll_every_ms < remaining {
        condition.poll_every_ms
    } else {
        remaining
    };
    if bounded < until_checkpoint {
        bounded
    } else {
        until_checkpoint
    }
}

/// The step of a hook whose predicate ended.
pub open spec fn recording(
    session: SessionView,
    run: HookRunView,
    check: CheckResultView,
    now_ms: u64,
) -> HookStep {
    match held(session, run, "record condition check"@) {
        Err(error) => still(session, run, Err(error)),
        Ok(None) => still(session, run, noop()),
        Ok(Some((condition, lease))) => {
            let observed = checked(condition, check.exit_code, check.output);
            if met(check) {
                settling(run, observed.resolved(ConditionStatus::Succeeded, now_ms), lease, now_ms)
            } else if checkpoint_due(observed, now_ms) {
                let armed = rearmed(observed, now_ms);
                let message = checkpoint_text(armed, now_ms);
                HookStep {
                    session: SessionView {
                        condition: StoredView::Found(armed),
                        lease: StoredView::Found(lease.in_phase(HookPhase::Delivering, now_ms)),
                        delivery: StoredView::Found(pending(lease, message, now_ms)),
                    },
                    run,
                    action: Ok(HookActionView::Finish(HookResultView::Continue(message))),
                }
            } else {
                HookStep {
                    session: SessionView {
                        condition: StoredView::Found(observed),
                        lease: StoredView::Found(lease.in_phase(HookPhase::Waiting, now_ms)),
                        ..session
                    },
                    run,
                    action: Ok(HookActionView::Sleep(nap(observed, now_ms))),
                }
            }
        },
    }
}

/// One step of a hook.
pub open spec fn stepping(
    session: SessionView,
    run: HookRunView,
    event: HookEventView,
    now_ms: u64,
) -> HookStep {
    match event {
        HookEventView::Stop(seen) => starting(session, run, seen, now_ms),
        HookEventView::Wake => waking(session, run, now_ms),
        HookEventView::JobRead(job) => concluding(session, run, job, now_ms),
        HookEventView::CheckFailed(error) => failing(session, run, error, now_ms),
        HookEventView::Checked(check) => recording(session, run, check, now_ms),
    }
}

/// Whether the counters that an event may raise can be raised.
pub open spec fn counters_fit(session: SessionView, event: HookEventView) -> bool {
    session.condition matches StoredView::Found(condition) ==> {
        &&& !(event is Stop) && !(event is Wake) ==> condition.attempts < u64::MAX
        &&& event is Checked ==> condition.checkpoints < u64::MAX
    }
}

/// Whether an event can follow. Only an invocation that drives a condition goes on after its
/// start, and a job is shown with its result where it has completed.
pub open spec fn event_fits(run: HookRunView, event: HookEventView) -> bool {
    &&& !(event is Stop) ==> run.watched is Some
    &&& event matches HookEventView::JobRead(Some(Ok(job))) ==> job.well_formed()
}

fn acquire(state: &mut SessionState, run: &mut HookRun, condition: Condition, now_ms: u64) -> (result:
    Result<HookAction, String>)
    requires
        accepted(old(state)@.condition) == StoredView::Found(condition@),
    ensures
        (HookStep {
            session: final(state)@,
            run: final(run)@,
            action: outcome_view(result),
        }) == acquiring(old(state)@, old(run)@, condition@, now_ms),
{
    let mut condition = condition;
    migrate_condition_to_v2(&mut condition, now_ms);
    condition.status = ConditionStatus::Waiting;
    match validate_condition(&condition) {
        Ok(()) => {},
        Err(error) => return Err(joined("mark condition waiting: ", error.as_str())),
    }
    run.stale_output = match read_hook_lease(&state.lease) {
        Stored::Found(old_lease) => Some(old_lease.owner.owner_id),
        _ => None,
    };
    let lease = new_lease(&run.owner, condition.id.as_str(), now_ms);
    let id = condition.id.clone();
    state.condition = Stored::Found(condition);
    if !validate_hook_lease(&lease) {
        return Err("acquire hook lease: invalid hook owner lease".to_owned());
    }
    state.lease = Stored::Found(lease);
    state.delivery = Stored::Missing;
    run.watched = Some(id);
    Ok(HookAction::Watch)
}

fn retry(state: &mut SessionState, run: &mut HookRun, delivery: PendingDelivery, now_ms: u64) -> (result:
    Result<HookAction, String>)
    ensures
        (HookStep {
            session: final(state)@,
            run: final(run)@,
            action: outcome_view(result),
        }) == retrying(old(state)@, old(run)@, delivery@, now_ms),
{
    let mut delivery = delivery;
    delivery.owner = run.owner.clone();
    delivery.prepared_at_ms = now_ms;
    if !validate_delivery(&delivery) {
        return Err("retry pending delivery: invalid pending delivery".to_owned());
    }
    let message = delivery.message.clone();
    run.watched = Some(delivery.condition_id.clone());
    state.delivery = Stored::Found(delivery);
    Ok(HookAction::Finish(HookResult::Continue(message)))
}

fn start(state: &mut SessionState, run: &mut HookRun, seen: Observation, now_ms: u64) -> (result:
    Result<HookAction, String>)
    ensures
        (HookStep {
            session: final(state)@,
            run: final(run)@,
            action: outcome_view(result),
        }) == starting(old(state)@, old(run)@, seen, now_ms),
{
    if !same_text(run.input.hook_event_name.as_str(), "Stop") {
        return Ok(HookAction::Finish(HookResult::Noop));
    }
    let condition = match read_condition(&state.condition) {
        Stored::Missing => return Ok(HookAction::Finish(HookResult::Noop)),
        Stored::Failed(error) => return Err(joined("read condition: ", error.as_str())),
        Stored::Found(condition) => condition,
    };
    match condition.status {
        ConditionStatus::Waiting => {
            let status = watcher_status(&condition, &state.lease, &state.delivery, seen, now_ms);
            if status.state != WatcherState::Stale {
                return Ok(HookAction::Finish(HookResult::Noop));
            }
            return acquire(state, run, condition, now_ms);
        },
        ConditionStatus::CancelRequested | ConditionStatus::Cancelled => {
            return Ok(HookAction::Finish(HookResult::Noop));
        },
        _ => {},
    }
    match read_delivery(&state.delivery) {
        Stored::Failed(error) => return Err(joined("read pending delivery: ", error.as_str())),
        Stored::Found(delivery) => {
            if delivery_belongs(&delivery, &condition) {
                if seen.delivery_process_exists && is_recent(delivery.prepared_at_ms, now_ms) {
                    return Ok(HookAction::Finish(HookResult::Noop));
                }
                return retry(state, run, delivery, now_ms);
            }
        },
        Stored::Missing => {},
    }
    if condition.status == ConditionStatus::Armed {
        acquire(state, run, condition, now_ms)
    } else {
        Ok(HookAction::Finish(HookResult::Noop))
    }
}

/// The views of a held condition and its lease.
pub open spec fn held_views(result: Result<Option<(Condition, HookLease)>, String>) -> Result<
    Option<(ConditionView, HookLeaseView)>,
    Seq<char>,
> {
    match result {
        Ok(Some((condition, lease))) => Ok(Some((condition@, lease@))),
        Ok(None) => Ok(None),
        Err(error) => Err(error@),
    }
}

fn hold(state: &SessionState, run: &HookRun, context: &str) -> (result: Result<
    Option<(Condition, HookLease)>,
    String,
>)
    requires
        run.watched is Some,
    ensures
        held_views(result) == held(state@, run@, context@),
{
    let condition = match read_condition(&state.condition) {
        Stored::Missing => return Ok(None),
        Stored::Failed(error) => {
            let mut text = joined(context, ": ");
            text.append(error.as_str());
            return Err(text);
        },
        Stored::Found(condition) => condition,
    };
    let expected = match &run.watched {
        Some(id) => id.as_str(),
        None => "",
    };
    if !same_text(condition.id.as_str(), expected) || condition.status != ConditionStatus::Waiting {
        return Ok(None);
    }
    match read_hook_lease(&state.lease) {
        Stored::Missing => Ok(None),
        Stored::Failed(error) => Err(joined("read hook lease: ", error.as_str())),
        Stored::Found(lease) => {
            if same_text(lease.condition_id.as_str(), condition.id.as_str()) && same_text(
                lease.owner.owner_id.as_str(),
                run.owner.owner_id.as_str(),
            ) {
                Ok(Some((condition, lease)))
            } else {
                Ok(None)
            }
        },
    }
}

fn prepare_delivery(lease: &HookLease, message: &str, now_ms: u64) -> (delivery: PendingDelivery)
    ensures
        delivery@ == pending(lease@, message@, now_ms),
{
    PendingDelivery {
        version: 1,
        condition_id: lease.condition_id.clone(),
        owner: lease.owner.clone(),
        prepared_at_ms: now_ms,
        message: message.to_owned(),
    }
}

fn settle(state: &mut SessionState, condition: Condition, lease: HookLease, now_ms: u64) -> (action:
    HookAction)
    ensures
        forall|run: HookRunView|
            #![trigger settling(run, condition@, lease@, now_ms)]
            settling(run, condition@, lease@, now_ms) == (HookStep {
                session: final(state)@,
                run,
                action: Ok(action@),
            }),
{
    let message = format_continuation(&condition, now_ms);
    state.delivery = Stored::Found(prepare_delivery(&lease, message.as_str(), now_ms));
    state.condition = Stored::Found(condition);
    state.lease = Stored::Missing;
    HookAction::Finish(HookResult::Continue(message))
}

fn wake(state: &mut SessionState, run: &HookRun, now_ms: u64) -> (result: Result<
    HookAction,
    String,
>)
    requires
        run.watched is Some,
    ensures
        (HookStep { session: final(state)@, run: run@, action: outcome_view(result) }) == waking(
            old(state)@,
            run@,
            now_ms,
        ),
{
    let (condition, mut lease) = match hold(state, run, "refresh condition") {
        Err(error) => return Err(error),
        Ok(None) => return Ok(HookAction::Finish(HookResult::Noop)),
        Ok(Some(pair)) => pair,
    };
    if elapsed(now_ms, condition.created_at_ms) >= condition.timeout_ms {
        return Ok(HookAction::ReadJob(clone_job(&condition.job)));
    }
    let remaining = elapsed(condition.timeout_ms, elapsed(now_ms, condition.created_at_ms));
    let budget = if condition.check_timeout_ms < remaining {
        condition.check_timeout_ms
    } else {
        remaining
    };
    enter_phase(&mut lease, HookPhase::Checking, now_ms);
    state.lease = Stored::Found(lease);
    Ok(HookAction::Check(budget))
}

fn conclude(
    state: &mut SessionState,
    run: &HookRun,
    job: Option<Result<JobSnapshot, String>>,
    now_ms: u64,
) -> (result: Result<HookAction, String>)
    requires
        run.watched is Some,
        old(state)@.condition matches StoredView::Found(condition) ==> condition.attempts
            < u64::MAX,
        job matches Some(Ok(snapshot)) ==> snapshot@.well_formed(),
    ensures
        (HookStep { session: final(state)@, run: run@, action: outcome_view(result) })
            == concluding(
            old(state)@,
            run@,
            match job {
                Some(snapshot) => Some(outcome_view(snapshot)),
                None => None,
            },
            now_ms,
        ),
{
    let (mut condition, lease) = match hold(state, run, "resolve condition deadline") {
        Err(error) => return Err(error),
        Ok(None) => return Ok(HookAction::Finish(HookResult::Noop)),
        Ok(Some(pair)) => pair,
    };
    let mut summary: Option<String> = None;
    if let Some(Ok(snapshot)) = &job {
        if snapshot.is_ready() {
            let mut line = snapshot.summary();
            line.append("\n");
            summary = Some(line);
        }
    }
    match summary {
        Some(summary) => {
            condition.attempts = condition.attempts + 1;
            condition.last_exit_code = Some(0);
            condition.last_output = summary;
            mark_resolved(&mut condition, ConditionStatus::Succeeded, now_ms);
        },
        None => mark_resolved(&mut condition, ConditionStatus::TimedOut, now_ms),
    }
    Ok(settle(state, condition, lease, now_ms))
}

fn fail(state: &mut SessionState, run: &HookRun, error: String, now_ms: u64) -> (result: Result<
    HookAction,
    String,
>)
    requires
        run.watched is Some,
        old(state)@.condition matches StoredView::Found(condition) ==> condition.attempts
            < u64::MAX,
    ensures
        (HookStep { session: final(state)@, run: run@, action: outcome_view(result) }) == failing(
            old(state)@,
            run@,
            error@,
            now_ms,
        ),
{
    let (mut condition, lease) = match hold(state, run, "record condition failure") {
        Err(error) => return Err(error),
        Ok(None) => return Ok(HookAction::Finish(HookResult::Noop)),
        Ok(Some(pair)) => pair,
    };
    condition.attempts = condition.attempts + 1;
    condition.last_output = error;
    mark_resolved(&mut condition, ConditionStatus::Failed, now_ms);
    Ok(settle(state, condition, lease, now_ms))
}

fn rearm(condition: &mut Condition, now_ms: u64)
    requires
        old(condition)@.checkpoints < u64::MAX,
    ensures
        final(condition)@ == rearmed(old(condition)@, now_ms),
{
    condition.status = ConditionStatus::Armed;
    condition.checkpoints = condition.checkpoints + 1;
    let deadline = later(condition.created_at_ms, condition.timeout_ms);
    let next = match condition.checkpoint_every_ms {
        Some(every) => {
            let next = later(now_ms, every);
            if next <= deadline {
                Some(next)
            } else {
                None
            }
        },
        None => None,
    };
    if next.is_none() {
        condition.checkpoint_every_ms = None;
    }
    condition.next_checkpoint_at_ms = next;
}

fn nap_of(condition: &Condition, now_ms: u64) -> (millis: u64)
    ensures
        millis == nap(condition@, now_ms),
{
    let remaining = elapsed(condition.timeout_ms, elapsed(now_ms, condition.created_at_ms));
    let until_checkpoint = match condition.next_checkpoint_at_ms {
        Some(next) => elapsed(next, now_ms),
        None => u64::MAX,
    };
    let bounded = if condition.poll_every_ms < remaining {
        condition.poll_every_ms
    } else {
        remaining
    };
    if bounded < until_checkpoint {
        bounded
    } else {
        until_checkpoint
    }
}

fn record(state: &mut SessionState, run: &HookRun, check: CheckResult, now_ms: u64) -> (result:
    Result<HookAction, String>)
    requires
        run.watched is Some,
        counters_fit(old(state)@, HookEventView::Checked(check@)),
    ensures
        (HookStep { session: final(state)@, run: run@, action: outcome_view(result) })
            == recording(old(state)@, run@, check@, now_ms),
{
    let (mut condition, mut lease) = match hold(state, run, "record condition check") {
        Err(error) => return Err(error),
        Ok(None) => return Ok(HookAction::Finish(HookResult::Noop)),
        Ok(Some(pair)) => pair,
    };
    let success = match check.exit_code {
        Some(code) => code == 0 && !check.timed_out,
        None => false,
    };
    condition.attempts = condition.attempts + 1;
    condition.last_exit_code = check.exit_code;
    condition.last_output = check.output;
    if success {
        mark_resolved(&mut condition, ConditionStatus::Succeeded, now_ms);
        return Ok(settle(state, condition, lease, now_ms));
    }
    let due = match condition.next_checkpoint_at_ms {
        Some(next) => now_ms >= next,
        None => false,
    };
    if due {
        rearm(&mut condition, now_ms);
        let message = format_checkpoint(&condition, now_ms);
        state.delivery = Stored::Found(prepare_delivery(&lease, message.as_str(), now_ms));
        state.condition = Stored::Found(condition);
        enter_phase(&mut lease, HookPhase::Delivering, now_ms);
        state.lease = Stored::Found(lease);
        return Ok(HookAction::Finish(HookResult::Continue(message)));
    }
    let millis = nap_of(&condition, now_ms);
    state.condition = Stored::Found(condition);
    enter_phase(&mut lease, HookPhase::Waiting, now_ms);
    state.lease = Stored::Found(lease);
    Ok(HookAction::Sleep(millis))
}

/// Takes one step of a hook: hands in what happened, changes the records, gives out what is to be
/// done. The caller holds the lock of the session from before it reads the records until it has
/// written them.
pub fn handle_stop_hook(
    state: &mut SessionState,
    run: &mut HookRun,
    event: HookEvent,
    now_ms: u64,
) -> (result: Result<HookAction, String>)
    requires
        event_fits(old(run)@, event@),
        counters_fit(old(state)@, event@),
    ensures
        (HookStep {
            session: final(state)@,
            run: final(run)@,
            action: outcome_view(result),
        }) == stepping(old(state)@, old(run)@, event@, now_ms),
{
    match event {
        HookEvent::Stop(seen) => start(state, run, seen, now_ms),
        HookEvent::Wake => wake(state, run, now_ms),
        HookEvent::JobRead(job) => conclude(state, run, job, now_ms),
        HookEvent::CheckFailed(error) => fail(state, run, error, now_ms),
        HookEvent::Checked(check) => record(state, run, check, now_ms),
    }
}

} // verus!
