//! The records of one session, and the operations on them.
//!
//! A caller holds the lock of the session, reads the three records, calls an operation and writes
//! what changed.
use vstd::prelude::*;

use crate::condition::{
    accepted, condition_of, mark_resolved, read_condition, validate_condition, validate_request,
    ArmRequest, ArmRequestView, Condition, ConditionStatus, ConditionView,
};
use crate::ids::{condition_id, condition_ids_are_unique};
use crate::lease::{
    watcher, watcher_status, DeliveryView, HookLease, HookLeaseView, Observation, PendingDelivery,
    WatcherStatus, WatcherStatusView,
};
use crate::names::{
    is_plain_id, join_path, lemma_plain_name, path_join, safe, safe_name, safe_name_is_injective,
};
use crate::stored::{Stored, StoredView};
use crate::text::{joined, lemma_first_separator, optional, outcome_view, same_text};

verus! {

/// The records of one session.
#[derive(Debug)]
pub struct SessionState {
    pub condition: Stored<Condition>,
    pub lease: Stored<HookLease>,
    pub delivery: Stored<PendingDelivery>,
}

/// The view of a [`SessionState`].
pub struct SessionView {
    pub condition: StoredView<ConditionView>,
    pub lease: StoredView<HookLeaseView>,
    pub delivery: StoredView<DeliveryView>,
}

impl View for SessionState {
    type V = SessionView;

    open spec fn view(&self) -> SessionView {
        SessionView {
            condition: self.condition@,
            lease: self.lease@,
            delivery: self.delivery@,
        }
    }
}

impl SessionView {
    /// A session with one condition, no hook and nothing to deliver.
    pub open spec fn only(condition: ConditionView) -> SessionView {
        SessionView {
            condition: StoredView::Found(condition),
            lease: StoredView::Missing,
            delivery: StoredView::Missing,
        }
    }

    /// The session with another condition record.
    pub open spec fn with_condition(self, condition: ConditionView) -> SessionView {
        SessionView { condition: StoredView::Found(condition), ..self }
    }

    /// The active condition, if there is one.
    pub open spec fn active(self) -> Option<ConditionView> {
        match accepted(self.condition) {
            StoredView::Found(condition) => if condition.status.active() {
                Some(condition)
            } else {
                None
            },
            _ => None,
        }
    }
}

/// What arming does: the session afterwards, and the new condition or an error.
pub open spec fn arming(
    session: SessionView,
    request: ArmRequestView,
    cwd_exists: bool,
    id: Seq<char>,
    now_ms: u64,
) -> (SessionView, Result<ConditionView, Seq<char>>) {
    let condition = request.condition(id, now_ms);
    let refusal = match request.problem(cwd_exists) {
        Some(problem) => Some(problem),
        None => match accepted(session.condition) {
            StoredView::Found(existing) => if existing.status.active() {
                Some(
                    "condition "@ + existing.id
                        + " is already active for this Codex session (status: "@
                        + existing.status.label() + ")"@,
                )
            } else {
                match condition.problem() {
                    Some(problem) => Some("write condition: "@ + problem),
                    None => None,
                }
            },
            StoredView::Missing => match condition.problem() {
                Some(problem) => Some("write condition: "@ + problem),
                None => None,
            },
            StoredView::Failed(error) => Some("read existing condition: "@ + error),
        },
    };
    match refusal {
        Some(error) => (session, Err(error)),
        None => (SessionView::only(condition), Ok(condition)),
    }
}

/// Arms a condition. `cwd_exists` tells whether the requested working directory is a directory,
/// `id` is the generation of the new condition.
pub fn arm(
    state: &mut SessionState,
    request: ArmRequest,
    cwd_exists: bool,
    id: String,
    now_ms: u64,
) -> (result: Result<Condition, String>)
    requires
        request@.problem(cwd_exists) is None ==> (request@.checkpoint_every matches Some(every)
            ==> now_ms + every.millis() <= u64::MAX),
    ensures
        (final(state)@, outcome_view(result)) == arming(
            old(state)@,
            request@,
            cwd_exists,
            id@,
            now_ms,
        ),
{
    match validate_request(&request, cwd_exists) {
        Ok(()) => {},
        Err(error) => return Err(error),
    }
    match read_condition(&state.condition) {
        Stored::Found(existing) => {
            if existing.status.is_active() {
                let mut error = "condition ".to_owned();
                error.append(existing.id.as_str());
                error.append(" is already active for this Codex session (status: ");
                error.append(existing.status.name());
                error.append(")");
                return Err(error);
            }
        },
        Stored::Missing => {},
        Stored::Failed(error) => {
            return Err(joined("read existing condition: ", error.as_str()));
        },
    }
    let condition = condition_of(request, id, now_ms);
    match validate_condition(&condition) {
        Ok(()) => {},
        Err(error) => return Err(joined("write condition: ", error.as_str())),
    }
    state.condition = Stored::Found(condition.clone());
    state.lease = Stored::Missing;
    state.delivery = Stored::Missing;
    Ok(condition)
}

/// What reading the condition of a session gives.
pub open spec fn reading(stored: StoredView<ConditionView>) -> Result<
    Option<ConditionView>,
    Seq<char>,
> {
    match accepted(stored) {
        StoredView::Found(condition) => Ok(Some(condition)),
        StoredView::Missing => Ok(None),
        StoredView::Failed(error) => Err("read condition: "@ + error),
    }
}

/// The views of an optional result.
pub open spec fn optional_outcome<T: View>(result: Result<Option<T>, String>) -> Result<
    Option<T::V>,
    Seq<char>,
> {
    match result {
        Ok(value) => Ok(optional(value)),
        Err(error) => Err(error@),
    }
}

/// The condition of a session, if it has one.
pub fn status(state: &SessionState) -> (result: Result<Option<Condition>, String>)
    ensures
        optional_outcome(result) == reading(state@.condition),
{
    match read_condition(&state.condition) {
        Stored::Found(condition) => Ok(Some(condition)),
        Stored::Missing => Ok(None),
        Stored::Failed(error) => Err(joined("read condition: ", error.as_str())),
    }
}

/// A condition with the report on its hook.
#[derive(Debug)]
pub struct ConditionSnapshot {
    pub condition: Condition,
    pub watcher: WatcherStatus,
}

/// The view of a [`ConditionSnapshot`].
pub struct ConditionSnapshotView {
    pub condition: ConditionView,
    pub watcher: WatcherStatusView,
}

impl View for ConditionSnapshot {
    type V = ConditionSnapshotView;

    open spec fn view(&self) -> ConditionSnapshotView {
        ConditionSnapshotView { condition: self.condition@, watcher: self.watcher@ }
    }
}

/// What inspecting a session gives.
pub open spec fn inspection(session: SessionView, seen: Observation, now_ms: u64) -> Result<
    Option<ConditionSnapshotView>,
    Seq<char>,
> {
    match reading(session.condition) {
        Ok(Some(condition)) => Ok(
            Some(
                ConditionSnapshotView {
                    condition,
                    watcher: watcher(condition, session.lease, session.delivery, seen, now_ms),
                },
            ),
        ),
        Ok(None) => Ok(None),
        Err(error) => Err(error),
    }
}

/// The condition of a session with the report on its hook. Nothing is written.
pub fn inspect_condition(state: &SessionState, seen: Observation, now_ms: u64) -> (result: Result<
    Option<ConditionSnapshot>,
    String,
>)
    ensures
        optional_outcome(result) == inspection(state@, seen, now_ms),
{
    match status(state) {
        Ok(Some(condition)) => {
            let watcher = watcher_status(&condition, &state.lease, &state.delivery, seen, now_ms);
            Ok(Some(ConditionSnapshot { condition, watcher }))
        },
        Ok(None) => Ok(None),
        Err(error) => Err(error),
    }
}

/// What cancelling a condition does. A condition that was given up stays so, and its record is
/// completed; another outcome is not replaced.
pub open spec fn cancelling(session: SessionView, condition: ConditionView, now_ms: u64) -> (
    SessionView,
    Result<ConditionView, Seq<char>>,
) {
    let cancelled = condition.resolved(ConditionStatus::Cancelled, now_ms);
    if condition.status.given_up() {
        if condition.status == ConditionStatus::Cancelled && condition.resolved_at_ms is Some {
            (session, Ok(condition))
        } else {
            (session.with_condition(cancelled), Ok(cancelled))
        }
    } else if condition.status.active() {
        (SessionView::only(cancelled), Ok(cancelled))
    } else {
        (
            session,
            Err(
                "condition "@ + condition.id + " is already terminal (status: "@
                    + condition.status.label()
                    + "); inspect its recorded outcome before arming another condition and do not use cancel as a launch prefix"@,
            ),
        )
    }
}

fn cancel_condition(state: &mut SessionState, condition: Condition, now_ms: u64) -> (result: Result<
    Condition,
    String,
>)
    ensures
        (final(state)@, outcome_view(result)) == cancelling(old(state)@, condition@, now_ms),
{
    let mut condition = condition;
    match condition.status {
        ConditionStatus::CancelRequested | ConditionStatus::Cancelled => {
            if condition.status != ConditionStatus::Cancelled || condition.resolved_at_ms.is_none() {
                mark_resolved(&mut condition, ConditionStatus::Cancelled, now_ms);
                state.condition = Stored::Found(condition.clone());
            }
            return Ok(condition);
        },
        _ => {},
    }
    if !condition.status.is_active() {
        let mut error = "condition ".to_owned();
        error.append(condition.id.as_str());
        error.append(" is already terminal (status: ");
        error.append(condition.status.name());
        error.append(
            "); inspect its recorded outcome before arming another condition and do not use cancel as a launch prefix",
        );
        return Err(error);
    }
    mark_resolved(&mut condition, ConditionStatus::Cancelled, now_ms);
    state.condition = Stored::Found(condition.clone());
    state.lease = Stored::Missing;
    state.delivery = Stored::Missing;
    Ok(condition)
}

/// What is said where a session has no condition to cancel.
pub open spec fn no_condition() -> Seq<char> {
    "read condition: No such file or directory (os error 2)"@
}

/// What cancelling a session does.
pub open spec fn cancellation(session: SessionView, now_ms: u64) -> (
    SessionView,
    Result<ConditionView, Seq<char>>,
) {
    match reading(session.condition) {
        Ok(Some(condition)) => cancelling(session, condition, now_ms),
        Ok(None) => (session, Err(no_condition())),
        Err(error) => (session, Err(error)),
    }
}

/// Cancels the condition of a session. An attached job is left alone.
pub fn cancel(state: &mut SessionState, now_ms: u64) -> (result: Result<Condition, String>)
    ensures
        (final(state)@, outcome_view(result)) == cancellation(old(state)@, now_ms),
{
    match status(state) {
        Ok(Some(condition)) => cancel_condition(state, condition, now_ms),
        Ok(None) => Err("read condition: No such file or directory (os error 2)".to_owned()),
        Err(error) => Err(error),
    }
}

/// What cancelling one generation does: another generation is left alone.
pub open spec fn generation_cancellation(
    session: SessionView,
    expected_id: Seq<char>,
    now_ms: u64,
) -> (SessionView, Result<Option<ConditionView>, Seq<char>>) {
    match reading(session.condition) {
        Ok(Some(condition)) => if condition.id != expected_id {
            (session, Ok(None))
        } else {
            let (after, result) = cancelling(session, condition, now_ms);
            (
                after,
                match result {
                    Ok(cancelled) => Ok(Some(cancelled)),
                    Err(error) => Err(error),
                },
            )
        },
        Ok(None) => (session, Err(no_condition())),
        Err(error) => (session, Err(error)),
    }
}

/// Cancels the condition of a session if it is still the expected generation.
pub fn cancel_if_current(state: &mut SessionState, expected_id: &str, now_ms: u64) -> (result:
    Result<Option<Condition>, String>)
    ensures
        (final(state)@, optional_outcome(result)) == generation_cancellation(
            old(state)@,
            expected_id@,
            now_ms,
        ),
{
    match status(state) {
        Ok(Some(condition)) => {
            if !same_text(condition.id.as_str(), expected_id) {
                return Ok(None);
            }
            match cancel_condition(state, condition, now_ms) {
                Ok(cancelled) => Ok(Some(cancelled)),
                Err(error) => Err(error),
            }
        },
        Ok(None) => Err("read condition: No such file or directory (os error 2)".to_owned()),
        Err(error) => Err(error),
    }
}

/// The record of the condition of a session.
pub open spec fn condition_file(state_dir: Seq<char>, session_id: Seq<char>) -> Seq<char> {
    path_join(state_dir, safe(session_id) + ".json"@)
}

/// The file of the condition record of a session.
pub fn condition_path(state_dir: &str, session_id: &str) -> (path: String)
    ensures
        path@ == condition_file(state_dir@, session_id@),
        path@ == path_join(state_dir@, safe(session_id@) + ".json"@),
{
    let mut name = safe_name(session_id);
    name.append(".json");
    join_path(state_dir, name.as_str())
}

/// The lock of a session.
pub open spec fn lock_file(state_dir: Seq<char>, session_id: Seq<char>) -> Seq<char> {
    path_join(state_dir, "."@ + safe(session_id) + ".lock"@)
}

/// The lock file of a session.
pub fn condition_lock_path(state_dir: &str, session_id: &str) -> (path: String)
    ensures
        path@ == lock_file(state_dir@, session_id@),
        path@ == path_join(state_dir@, "."@ + safe(session_id@) + ".lock"@),
{
    let mut name = joined(".", safe_name(session_id).as_str());
    name.append(".lock");
    join_path(state_dir, name.as_str())
}

/// The lease of the hook of a session.
pub open spec fn lease_file(state_dir: Seq<char>, session_id: Seq<char>) -> Seq<char> {
    path_join(state_dir, "."@ + safe(session_id) + ".owner.json"@)
}

/// The file of the hook lease of a session.
pub fn hook_lease_path(state_dir: &str, session_id: &str) -> (path: String)
    ensures
        path@ == lease_file(state_dir@, session_id@),
        path@ == path_join(state_dir@, "."@ + safe(session_id@) + ".owner.json"@),
{
    let mut name = joined(".", safe_name(session_id).as_str());
    name.append(".owner.json");
    join_path(state_dir, name.as_str())
}

/// The continuation that waits in a session.
pub open spec fn delivery_file(state_dir: Seq<char>, session_id: Seq<char>) -> Seq<char> {
    path_join(state_dir, "."@ + safe(session_id) + ".delivery.json"@)
}

/// The file of the pending delivery of a session.
pub fn delivery_path(state_dir: &str, session_id: &str) -> (path: String)
    ensures
        path@ == delivery_file(state_dir@, session_id@),
        path@ == path_join(state_dir@, "."@ + safe(session_id@) + ".delivery.json"@),
{
    let mut name = joined(".", safe_name(session_id).as_str());
    name.append(".delivery.json");
    join_path(state_dir, name.as_str())
}

/// The name of the output file of one hook's checks of one condition.
pub open spec fn check_output_name(
    session_id: Seq<char>,
    condition_id: Seq<char>,
    owner_id: Seq<char>,
) -> Seq<char> {
    safe(session_id) + "."@ + safe(condition_id) + "."@ + safe(owner_id) + ".last-check.log"@
}

/// The output file of one hook's checks of one condition.
pub fn condition_check_output_path(
    state_dir: &str,
    session_id: &str,
    condition_id: &str,
    owner_id: &str,
) -> (path: String)
    ensures
        path@ == path_join(
            state_dir@,
            check_output_name(session_id@, condition_id@, owner_id@),
        ),
{
    let mut name = safe_name(session_id);
    name.append(".");
    name.append(safe_name(condition_id).as_str());
    name.append(".");
    name.append(safe_name(owner_id).as_str());
    name.append(".last-check.log");
    join_path(state_dir, name.as_str())
}

/// Two hooks of a session never share the output file of their checks, be it that they drive the
/// same condition, be it that one drives the replacement of the other's. The conditions have IDs of
/// letters, digits and hyphens, as all do that this library names.
pub proof fn hooks_do_not_share_their_output(
    session_id: Seq<char>,
    condition_id: Seq<char>,
    owner_id: Seq<char>,
    other_condition_id: Seq<char>,
    other_owner_id: Seq<char>,
)
    requires
        is_plain_id(condition_id),
        is_plain_id(other_condition_id),
        check_output_name(session_id, condition_id, owner_id) == check_output_name(
            session_id,
            other_condition_id,
            other_owner_id,
        ),
    ensures
        condition_id == other_condition_id,
        owner_id == other_owner_id,
{
    reveal_strlit(".");
    assert("."@ =~= seq!['.']);
    let suffix = ".last-check.log"@;
    let whole = check_output_name(session_id, condition_id, owner_id);
    let front = safe(session_id).len() + 1;
    let rest = safe(condition_id) + seq!['.'] + (safe(owner_id) + suffix);
    let other_rest = safe(other_condition_id) + seq!['.'] + (safe(other_owner_id) + suffix);
    assert(rest =~= whole.skip(front as int));
    assert(other_rest =~= whole.skip(front as int));
    lemma_plain_name(condition_id);
    lemma_plain_name(other_condition_id);
    lemma_first_separator(
        safe(condition_id),
        safe(owner_id) + suffix,
        safe(other_condition_id),
        safe(other_owner_id) + suffix,
        '.',
    );
    let end = safe(owner_id) + suffix;
    assert(safe(owner_id) =~= end.take(end.len() - suffix.len()));
    assert(safe(other_owner_id) =~= end.take(end.len() - suffix.len()));
    safe_name_is_injective(condition_id, other_condition_id);
    safe_name_is_injective(owner_id, other_owner_id);
}

/// At most one condition of a session is active: arming over an active condition fails and changes
/// nothing.
pub proof fn an_active_condition_blocks_arming(
    session: SessionView,
    request: ArmRequestView,
    cwd_exists: bool,
    id: Seq<char>,
    now_ms: u64,
)
    requires
        session.active() is Some,
    ensures
        arming(session, request, cwd_exists, id, now_ms).0 == session,
        arming(session, request, cwd_exists, id, now_ms).1 is Err,
{
}

/// A record that is missing or terminal does not block arming.
pub proof fn only_active_conditions_block_arming(
    session: SessionView,
    request: ArmRequestView,
    id: Seq<char>,
    now_ms: u64,
)
    requires
        !(accepted(session.condition) is Failed),
        session.active() is None,
        request.problem(true) is None,
        request.condition(id, now_ms).valid(),
    ensures
        arming(session, request, true, id, now_ms) == (
            SessionView::only(request.condition(id, now_ms)),
            Ok::<ConditionView, Seq<char>>(request.condition(id, now_ms)),
        ),
{
}

/// An unreadable record is never replaced by arming.
pub proof fn an_unreadable_condition_is_not_replaced(
    session: SessionView,
    request: ArmRequestView,
    cwd_exists: bool,
    id: Seq<char>,
    now_ms: u64,
)
    requires
        accepted(session.condition) is Failed,
    ensures
        arming(session, request, cwd_exists, id, now_ms).0 == session,
        arming(session, request, cwd_exists, id, now_ms).1 is Err,
{
}

/// Arming and cancelling write valid records only.
pub proof fn written_conditions_are_valid(
    session: SessionView,
    request: ArmRequestView,
    cwd_exists: bool,
    id: Seq<char>,
    now_ms: u64,
)
    ensures
        arming(session, request, cwd_exists, id, now_ms).1 matches Ok(condition)
            ==> condition.valid() && arming(session, request, cwd_exists, id, now_ms).0
            == SessionView::only(condition),
        cancellation(session, now_ms).1 matches Ok(condition) ==> condition.valid() && cancellation(
            session,
            now_ms,
        ).0.condition == StoredView::Found(condition),
{
}

/// Cancelling an active or given-up condition ends it at once, and the session can be armed again.
pub proof fn cancelling_releases_the_session(session: SessionView, now_ms: u64)
    requires
        accepted(session.condition) matches StoredView::Found(condition)
            && (condition.status.active() || condition.status.given_up()),
    ensures
        cancellation(session, now_ms).1 matches Ok(condition) && condition.status
            == ConditionStatus::Cancelled && condition.resolved_at_ms is Some,
        cancellation(session, now_ms).0.active() is None,
        !(accepted(cancellation(session, now_ms).0.condition) is Failed),
{
}

/// Cancelling twice is cancelling once.
pub proof fn cancelling_is_idempotent(session: SessionView, first_ms: u64, second_ms: u64)
    requires
        cancellation(session, first_ms).1 is Ok,
    ensures
        cancellation(cancellation(session, first_ms).0, second_ms) == cancellation(
            session,
            first_ms,
        ),
{
}

/// Cancelling does not replace an outcome.
pub proof fn cancelling_keeps_other_outcomes(session: SessionView, now_ms: u64)
    requires
        accepted(session.condition) matches StoredView::Found(condition)
            && !condition.status.active() && !condition.status.given_up(),
    ensures
        cancellation(session, now_ms).0 == session,
        cancellation(session, now_ms).1 is Err,
{
}

/// A launcher whose condition was replaced cannot cancel the replacement.
pub proof fn a_replaced_generation_cannot_cancel(
    session: SessionView,
    expected_id: Seq<char>,
    now_ms: u64,
)
    requires
        accepted(session.condition) matches StoredView::Found(condition) && condition.id
            != expected_id,
    ensures
        generation_cancellation(session, expected_id, now_ms) == (
            session,
            Ok::<Option<ConditionView>, Seq<char>>(None),
        ),
{
}

/// A launcher that comes late cancels nothing but its own condition: where a condition was armed,
/// cancelled and replaced by another, both under IDs that the library names, the launcher of the
/// first changes nothing and is told so, and the launcher of the second cancels the second.
pub proof fn a_late_launcher_leaves_the_replacement(
    session: SessionView,
    first: ArmRequestView,
    first_cwd: bool,
    first_name: (u64, u32, u64),
    first_ms: u64,
    cancelled_ms: u64,
    second: ArmRequestView,
    second_cwd: bool,
    second_name: (u64, u32, u64),
    second_ms: u64,
    now_ms: u64,
)
    requires
        first_name != second_name,
        arming(
            session,
            first,
            first_cwd,
            condition_id(first_name.0, first_name.1, first_name.2),
            first_ms,
        ).1 is Ok,
        arming(
            cancellation(
                arming(
                    session,
                    first,
                    first_cwd,
                    condition_id(first_name.0, first_name.1, first_name.2),
                    first_ms,
                ).0,
                cancelled_ms,
            ).0,
            second,
            second_cwd,
            condition_id(second_name.0, second_name.1, second_name.2),
            second_ms,
        ).1 is Ok,
    ensures
        ({
            let first_id = condition_id(first_name.0, first_name.1, first_name.2);
            let second_id = condition_id(second_name.0, second_name.1, second_name.2);
            let armed = arming(session, first, first_cwd, first_id, first_ms);
            let cancelled = cancellation(armed.0, cancelled_ms);
            let replaced = arming(cancelled.0, second, second_cwd, second_id, second_ms);
            &&& armed.1 matches Ok(condition) && condition.id == first_id
            &&& cancelled.1 is Ok
            &&& replaced.1 matches Ok(condition) && condition.id == second_id && condition.status
                == ConditionStatus::Armed
            &&& generation_cancellation(replaced.0, first_id, now_ms) == (
                replaced.0,
                Ok::<Option<ConditionView>, Seq<char>>(None),
            )
            &&& reading(replaced.0.condition) == Ok::<Option<ConditionView>, Seq<char>>(
                Some(replaced.1->Ok_0),
            )
            &&& generation_cancellation(replaced.0, second_id, now_ms).1 matches Ok(Some(condition))
                && condition.id == second_id && condition.status == ConditionStatus::Cancelled
        }),
{
    let first_id = condition_id(first_name.0, first_name.1, first_name.2);
    let second_id = condition_id(second_name.0, second_name.1, second_name.2);
    if first_id == second_id {
        condition_ids_are_unique(
            first_name.0,
            first_name.1,
            first_name.2,
            second_name.0,
            second_name.1,
            second_name.2,
        );
    }
}

} // verus!
