//! Hook-owner leases and pending deliveries, and what they tell of a hook.
use vstd::prelude::*;

use crate::condition::{after, elapsed, later, since, Condition, ConditionStatus, ConditionView};
use crate::stored::{Stored, StoredView};
use crate::text::{clone_optional, optional, same_text};

verus! {

/// The delay between two heartbeats of a hook.
pub const HOOK_LEASE_REFRESH_INTERVAL_MS: u64 = 1_000;

/// The age from which on a heartbeat is stale.
pub const HOOK_LEASE_STALE_AFTER_MS: u64 = 5_000;

/// How far ahead of the clock a heartbeat may be.
pub const HOOK_LEASE_CLOCK_SLACK_MS: u64 = 1_000;

/// What is granted to a legacy hook beyond its own intervals.
pub const LEGACY_HOOK_GRACE_MARGIN_MS: u64 = 5_000;

/// The least time that is granted to a legacy hook.
pub const LEGACY_HOOK_MIN_GRACE_MS: u64 = 30_000;

/// The largest process number.
pub const MAX_PID: u32 = 0x7fff_ffff;

/// What a hook is doing.
#[derive(Debug, Clone, Copy, PartialEq, Eq, Structural)]
pub enum HookPhase {
    /// The lease was acquired.
    Starting,
    /// A predicate is in flight.
    Checking,
    /// The next check is due later.
    Waiting,
    /// A continuation has been prepared.
    Delivering,
}

impl HookPhase {
    /// The name of a phase in messages.
    pub open spec fn label(self) -> Seq<char> {
        match self {
            HookPhase::Starting => "Starting"@,
            HookPhase::Checking => "Checking"@,
            HookPhase::Waiting => "Waiting"@,
            HookPhase::Delivering => "Delivering"@,
        }
    }

    /// The name of this phase in messages.
    pub fn name(&self) -> (name: &'static str)
        ensures
            name@ == self.label(),
    {
        match self {
            HookPhase::Starting => "Starting",
            HookPhase::Checking => "Checking",
            HookPhase::Waiting => "Waiting",
            HookPhase::Delivering => "Delivering",
        }
    }
}

/// The process that runs a hook.
#[derive(Debug)]
pub struct HookOwner {
    pub owner_id: String,
    pub pid: u32,
    pub turn_id: Option<String>,
    pub parent_pid: Option<u32>,
    pub process_group_id: Option<i32>,
}

/// The view of a [`HookOwner`].
pub struct HookOwnerView {
    pub owner_id: Seq<char>,
    pub pid: u32,
    pub turn_id: Option<Seq<char>>,
    pub parent_pid: Option<u32>,
    pub process_group_id: Option<i32>,
}

impl View for HookOwner {
    type V = HookOwnerView;

    open spec fn view(&self) -> HookOwnerView {
        HookOwnerView {
            owner_id: self.owner_id@,
            pid: self.pid,
            turn_id: optional(self.turn_id),
            parent_pid: self.parent_pid,
            process_group_id: self.process_group_id,
        }
    }
}

impl Clone for HookOwner {
    fn clone(&self) -> (copy: Self)
        ensures
            copy@ == self@,
    {
        HookOwner {
            owner_id: self.owner_id.clone(),
            pid: self.pid,
            turn_id: clone_optional(&self.turn_id),
            parent_pid: self.parent_pid,
            process_group_id: self.process_group_id,
        }
    }
}

impl HookOwnerView {
    /// An owner that can be recorded.
    pub open spec fn valid(self) -> bool {
        0 < self.pid <= MAX_PID && self.owner_id.len() > 0
    }

    /// The lease with which an owner takes a condition over.
    pub open spec fn lease(self, condition_id: Seq<char>, now_ms: u64) -> HookLeaseView {
        HookLeaseView {
            version: 1,
            condition_id,
            owner: self,
            heartbeat_at_ms: now_ms,
            started_at_ms: Some(now_ms),
            phase: Some(HookPhase::Starting),
            phase_at_ms: Some(now_ms),
            last_check_started_at_ms: None,
        }
    }
}

fn owner_is_valid(owner: &HookOwner) -> (result: bool)
    ensures
        result == owner@.valid(),
{
    owner.pid > 0 && owner.pid <= MAX_PID && !owner.owner_id.as_str().is_empty()
}

/// The claim of one hook to drive a condition.
#[derive(Debug)]
pub struct HookLease {
    pub version: u8,
    pub condition_id: String,
    pub owner: HookOwner,
    pub heartbeat_at_ms: u64,
    pub started_at_ms: Option<u64>,
    pub phase: Option<HookPhase>,
    pub phase_at_ms: Option<u64>,
    pub last_check_started_at_ms: Option<u64>,
}

/// The view of a [`HookLease`].
pub struct HookLeaseView {
    pub version: u8,
    pub condition_id: Seq<char>,
    pub owner: HookOwnerView,
    pub heartbeat_at_ms: u64,
    pub started_at_ms: Option<u64>,
    pub phase: Option<HookPhase>,
    pub phase_at_ms: Option<u64>,
    pub last_check_started_at_ms: Option<u64>,
}

impl View for HookLease {
    type V = HookLeaseView;

    open spec fn view(&self) -> HookLeaseView {
        HookLeaseView {
            version: self.version,
            condition_id: self.condition_id@,
            owner: self.owner@,
            heartbeat_at_ms: self.heartbeat_at_ms,
            started_at_ms: self.started_at_ms,
            phase: self.phase,
            phase_at_ms: self.phase_at_ms,
            last_check_started_at_ms: self.last_check_started_at_ms,
        }
    }
}

impl Clone for HookLease {
    fn clone(&self) -> (copy: Self)
        ensures
            copy@ == self@,
    {
        HookLease {
            version: self.version,
            condition_id: self.condition_id.clone(),
            owner: self.owner.clone(),
            heartbeat_at_ms: self.heartbeat_at_ms,
            started_at_ms: self.started_at_ms,
            phase: self.phase,
            phase_at_ms: self.phase_at_ms,
            last_check_started_at_ms: self.last_check_started_at_ms,
        }
    }
}

/// Whether a heartbeat is recent: neither stale nor ahead of the clock.
pub open spec fn recent(heartbeat_at_ms: u64, now_ms: u64) -> bool {
    since(now_ms, heartbeat_at_ms) <= HOOK_LEASE_STALE_AFTER_MS && heartbeat_at_ms <= after(
        now_ms,
        HOOK_LEASE_CLOCK_SLACK_MS,
    )
}

impl HookLeaseView {
    /// A lease that readers accept.
    pub open spec fn valid(self) -> bool {
        self.version == 1 && self.condition_id.len() > 0 && self.owner.valid()
    }

    /// Whether the lease is the claim of one hook to one condition.
    pub open spec fn owned_by(self, condition_id: Seq<char>, owner_id: Seq<char>) -> bool {
        self.condition_id == condition_id && self.owner.owner_id == owner_id
    }

    /// The lease after a heartbeat.
    pub open spec fn refreshed(self, now_ms: u64) -> HookLeaseView {
        HookLeaseView { heartbeat_at_ms: now_ms, ..self }
    }

    /// The lease in another phase.
    pub open spec fn in_phase(self, phase: HookPhase, now_ms: u64) -> HookLeaseView {
        HookLeaseView {
            heartbeat_at_ms: now_ms,
            phase: Some(phase),
            phase_at_ms: Some(now_ms),
            last_check_started_at_ms: if phase == HookPhase::Checking {
                Some(now_ms)
            } else {
                self.last_check_started_at_ms
            },
            ..self
        }
    }
}

/// Whether a lease may be written and is accepted when read.
pub fn validate_hook_lease(lease: &HookLease) -> (result: bool)
    ensures
        result == lease@.valid(),
{
    lease.version == 1 && !lease.condition_id.as_str().is_empty() && owner_is_valid(&lease.owner)
}

/// A stored lease as readers take it: an invalid one counts as an error.
pub open spec fn accepted_lease(stored: StoredView<HookLeaseView>) -> StoredView<HookLeaseView> {
    match stored {
        StoredView::Found(lease) => if lease.valid() {
            stored
        } else {
            StoredView::Failed("invalid hook owner lease"@)
        },
        _ => stored,
    }
}

/// Reads a stored lease.
pub fn read_hook_lease(stored: &Stored<HookLease>) -> (result: Stored<HookLease>)
    ensures
        result@ == accepted_lease(stored@),
{
    match stored {
        Stored::Missing => Stored::Missing,
        Stored::Failed(error) => Stored::Failed(error.clone()),
        Stored::Found(lease) => if validate_hook_lease(lease) {
            Stored::Found(lease.clone())
        } else {
            Stored::Failed("invalid hook owner lease".to_owned())
        },
    }
}

/// The lease with which an owner takes a condition over.
pub(crate) fn new_lease(owner: &HookOwner, condition_id: &str, now_ms: u64) -> (lease: HookLease)
    ensures
        lease@ == owner@.lease(condition_id@, now_ms),
{
    HookLease {
        version: 1,
        condition_id: condition_id.to_owned(),
        owner: owner.clone(),
        heartbeat_at_ms: now_ms,
        started_at_ms: Some(now_ms),
        phase: Some(HookPhase::Starting),
        phase_at_ms: Some(now_ms),
        last_check_started_at_ms: None,
    }
}

/// Moves a lease to another phase.
pub(crate) fn enter_phase(lease: &mut HookLease, phase: HookPhase, now_ms: u64)
    ensures
        final(lease)@ == old(lease)@.in_phase(phase, now_ms),
{
    lease.heartbeat_at_ms = now_ms;
    lease.phase = Some(phase);
    lease.phase_at_ms = Some(now_ms);
    if phase == HookPhase::Checking {
        lease.last_check_started_at_ms = Some(now_ms);
    }
}

/// A continuation that has been prepared and not yet acknowledged.
#[derive(Debug)]
pub struct PendingDelivery {
    pub version: u8,
    pub condition_id: String,
    pub owner: HookOwner,
    pub prepared_at_ms: u64,
    pub message: String,
}

/// The view of a [`PendingDelivery`].
pub struct DeliveryView {
    pub version: u8,
    pub condition_id: Seq<char>,
    pub owner: HookOwnerView,
    pub prepared_at_ms: u64,
    pub message: Seq<char>,
}

impl View for PendingDelivery {
    type V = DeliveryView;

    open spec fn view(&self) -> DeliveryView {
        DeliveryView {
            version: self.version,
            condition_id: self.condition_id@,
            owner: self.owner@,
            prepared_at_ms: self.prepared_at_ms,
            message: self.message@,
        }
    }
}

impl Clone for PendingDelivery {
    fn clone(&self) -> (copy: Self)
        ensures
            copy@ == self@,
    {
        PendingDelivery {
            version: self.version,
            condition_id: self.condition_id.clone(),
            owner: self.owner.clone(),
            prepared_at_ms: self.prepared_at_ms,
            message: self.message.clone(),
        }
    }
}

impl DeliveryView {
    /// A delivery that readers accept.
    pub open spec fn valid(self) -> bool {
        self.version == 1 && self.condition_id.len() > 0 && self.owner.valid()
    }

    /// Whether the delivery is what one hook prepared for one condition.
    pub open spec fn prepared_by(self, condition_id: Seq<char>, owner_id: Seq<char>) -> bool {
        self.condition_id == condition_id && self.owner.owner_id == owner_id
    }

    /// Whether the delivery is the evidence of a condition in its present state. While the
    /// condition is waiting nothing has been decided, and a condition that was given up wakes
    /// nobody.
    pub open spec fn belongs_to(self, condition: ConditionView) -> bool {
        self.condition_id == condition.id && condition.status != ConditionStatus::Waiting
            && !condition.status.given_up()
    }

    /// Whether the hook that prepared the delivery may still be about to write it.
    pub open spec fn in_progress(self, now_ms: u64, process_exists: bool) -> bool {
        process_exists && recent(self.prepared_at_ms, now_ms)
    }

    /// The same continuation, taken over by another hook.
    pub open spec fn taken_over(self, owner: HookOwnerView, now_ms: u64) -> DeliveryView {
        DeliveryView { owner, prepared_at_ms: now_ms, ..self }
    }
}

/// Whether a delivery may be written and is accepted when read.
pub fn validate_delivery(delivery: &PendingDelivery) -> (result: bool)
    ensures
        result == delivery@.valid(),
{
    delivery.version == 1 && !delivery.condition_id.as_str().is_empty() && owner_is_valid(
        &delivery.owner,
    )
}

/// A stored delivery as readers take it: an invalid one counts as an error.
pub open spec fn accepted_delivery(stored: StoredView<DeliveryView>) -> StoredView<DeliveryView> {
    match stored {
        StoredView::Found(delivery) => if delivery.valid() {
            stored
        } else {
            StoredView::Failed("invalid pending delivery"@)
        },
        _ => stored,
    }
}

/// Reads a stored delivery.
pub fn read_delivery(stored: &Stored<PendingDelivery>) -> (result: Stored<PendingDelivery>)
    ensures
        result@ == accepted_delivery(stored@),
{
    match stored {
        Stored::Missing => Stored::Missing,
        Stored::Failed(error) => Stored::Failed(error.clone()),
        Stored::Found(delivery) => if validate_delivery(delivery) {
            Stored::Found(delivery.clone())
        } else {
            Stored::Failed("invalid pending delivery".to_owned())
        },
    }
}

/// Whether a delivery is the evidence of a condition in its present state.
pub(crate) fn delivery_belongs(delivery: &PendingDelivery, condition: &Condition) -> (result: bool)
    ensures
        result == delivery@.belongs_to(condition@),
{
    let given_up = match condition.status {
        ConditionStatus::CancelRequested | ConditionStatus::Cancelled => true,
        _ => false,
    };
    same_text(delivery.condition_id.as_str(), condition.id.as_str()) && condition.status
        != ConditionStatus::Waiting && !given_up
}

/// Whether a heartbeat is recent: neither stale nor ahead of the clock.
pub(crate) fn is_recent(heartbeat_at_ms: u64, now_ms: u64) -> (result: bool)
    ensures
        result == recent(heartbeat_at_ms, now_ms),
{
    elapsed(now_ms, heartbeat_at_ms) <= HOOK_LEASE_STALE_AFTER_MS && heartbeat_at_ms <= later(
        now_ms,
        HOOK_LEASE_CLOCK_SLACK_MS,
    )
}

/// What is known of the hook of a condition.
#[derive(Debug, Clone, Copy, PartialEq, Eq, Structural)]
pub enum WatcherState {
    Alive,
    Stale,
    LegacyUnknown,
    Armed,
    Inactive,
}

impl WatcherState {
    /// The name of a state in messages.
    pub open spec fn label(self) -> Seq<char> {
        match self {
            WatcherState::Alive => "Alive"@,
            WatcherState::Stale => "Stale"@,
            WatcherState::LegacyUnknown => "LegacyUnknown"@,
            WatcherState::Armed => "Armed"@,
            WatcherState::Inactive => "Inactive"@,
        }
    }

    /// The name of this state in messages.
    pub fn name(&self) -> (name: &'static str)
        ensures
            name@ == self.label(),
    {
        match self {
            WatcherState::Alive => "Alive",
            WatcherState::Stale => "Stale",
            WatcherState::LegacyUnknown => "LegacyUnknown",
            WatcherState::Armed => "Armed",
            WatcherState::Inactive => "Inactive",
        }
    }
}

/// The report on the hook of a condition.
#[derive(Debug)]
pub struct WatcherStatus {
    pub state: WatcherState,
    pub condition_id: String,
    pub owner_id: Option<String>,
    pub pid: Option<u32>,
    pub heartbeat_at_ms: Option<u64>,
    pub heartbeat_age_ms: Option<u64>,
    pub turn_id: Option<String>,
    pub started_at_ms: Option<u64>,
    pub phase: Option<HookPhase>,
    pub phase_at_ms: Option<u64>,
    pub last_check_started_at_ms: Option<u64>,
    pub parent_pid: Option<u32>,
    pub process_group_id: Option<i32>,
    pub lease_error: Option<String>,
}

/// The view of a [`WatcherStatus`].
pub struct WatcherStatusView {
    pub state: WatcherState,
    pub condition_id: Seq<char>,
    pub owner_id: Option<Seq<char>>,
    pub pid: Option<u32>,
    pub heartbeat_at_ms: Option<u64>,
    pub heartbeat_age_ms: Option<u64>,
    pub turn_id: Option<Seq<char>>,
    pub started_at_ms: Option<u64>,
    pub phase: Option<HookPhase>,
    pub phase_at_ms: Option<u64>,
    pub last_check_started_at_ms: Option<u64>,
    pub parent_pid: Option<u32>,
    pub process_group_id: Option<i32>,
    pub lease_error: Option<Seq<char>>,
}

impl View for WatcherStatus {
    type V = WatcherStatusView;

    open spec fn view(&self) -> WatcherStatusView {
        WatcherStatusView {
            state: self.state,
            condition_id: self.condition_id@,
            owner_id: optional(self.owner_id),
            pid: self.pid,
            heartbeat_at_ms: self.heartbeat_at_ms,
            heartbeat_age_ms: self.heartbeat_age_ms,
            turn_id: optional(self.turn_id),
            started_at_ms: self.started_at_ms,
            phase: self.phase,
            phase_at_ms: self.phase_at_ms,
            last_check_started_at_ms: self.last_check_started_at_ms,
            parent_pid: self.parent_pid,
            process_group_id: self.process_group_id,
            lease_error: optional(self.lease_error),
        }
    }
}

/// What was seen beside the records of a session: whether the processes that the lease and the
/// delivery name exist, and when the condition record was last written, if that can be told.
#[derive(Debug, Clone, Copy, PartialEq, Eq, Structural)]
pub struct Observation {
    pub lease_process_exists: bool,
    pub delivery_process_exists: bool,
    pub modified_at_ms: Option<u64>,
}

/// The time that is granted to the hook of a legacy record.
pub open spec fn legacy_grace(condition: ConditionView) -> u64 {
    let gap = after(
        after(condition.poll_every_ms, condition.check_timeout_ms),
        LEGACY_HOOK_GRACE_MARGIN_MS,
    );
    if gap < LEGACY_HOOK_MIN_GRACE_MS {
        LEGACY_HOOK_MIN_GRACE_MS
    } else {
        gap
    }
}

/// Whether the hook of a legacy record must be gone. A record whose age cannot be told counts as
/// stale.
pub open spec fn legacy_stale(
    condition: ConditionView,
    modified_at_ms: Option<u64>,
    now_ms: u64,
) -> bool {
    match modified_at_ms {
        Some(modified) => since(now_ms, modified) >= legacy_grace(condition),
        None => true,
    }
}

/// A report that names no hook.
pub open spec fn unowned(
    state: WatcherState,
    condition_id: Seq<char>,
    lease_error: Option<Seq<char>>,
) -> WatcherStatusView {
    WatcherStatusView {
        state,
        condition_id,
        owner_id: None,
        pid: None,
        heartbeat_at_ms: None,
        heartbeat_age_ms: None,
        turn_id: None,
        started_at_ms: None,
        phase: None,
        phase_at_ms: None,
        last_check_started_at_ms: None,
        parent_pid: None,
        process_group_id: None,
        lease_error,
    }
}

/// Whether a lease shows a hook at work on a condition.
pub open spec fn lease_alive(
    lease: HookLeaseView,
    condition_id: Seq<char>,
    process_exists: bool,
    now_ms: u64,
) -> bool {
    lease.condition_id == condition_id && process_exists && recent(lease.heartbeat_at_ms, now_ms)
}

/// What is wrong with the owner of a lease, beyond its age.
pub open spec fn owner_error(heartbeat_at_ms: u64, process_exists: bool, now_ms: u64) -> Option<
    Seq<char>,
> {
    if heartbeat_at_ms > after(now_ms, HOOK_LEASE_CLOCK_SLACK_MS) {
        Some("hook lease heartbeat is in the future"@)
    } else if !process_exists {
        Some("hook process no longer exists"@)
    } else {
        None
    }
}

/// The report on a waiting condition.
pub open spec fn waiting_watcher(
    condition: ConditionView,
    lease: StoredView<HookLeaseView>,
    seen: Observation,
    now_ms: u64,
) -> WatcherStatusView {
    match accepted_lease(lease) {
        StoredView::Found(lease) => WatcherStatusView {
            state: if lease_alive(lease, condition.id, seen.lease_process_exists, now_ms) {
                WatcherState::Alive
            } else {
                WatcherState::Stale
            },
            condition_id: condition.id,
            owner_id: Some(lease.owner.owner_id),
            pid: Some(lease.owner.pid),
            heartbeat_at_ms: Some(lease.heartbeat_at_ms),
            heartbeat_age_ms: Some(since(now_ms, lease.heartbeat_at_ms)),
            turn_id: lease.owner.turn_id,
            started_at_ms: lease.started_at_ms,
            phase: lease.phase,
            phase_at_ms: lease.phase_at_ms,
            last_check_started_at_ms: lease.last_check_started_at_ms,
            parent_pid: lease.owner.parent_pid,
            process_group_id: lease.owner.process_group_id,
            lease_error: owner_error(lease.heartbeat_at_ms, seen.lease_process_exists, now_ms),
        },
        StoredView::Missing => unowned(
            if condition.version == 1 && !legacy_stale(condition, seen.modified_at_ms, now_ms) {
                WatcherState::LegacyUnknown
            } else {
                WatcherState::Stale
            },
            condition.id,
            None,
        ),
        StoredView::Failed(error) => unowned(WatcherState::Stale, condition.id, Some(error)),
    }
}

/// The report on a continuation that has not been acknowledged.
pub open spec fn delivering_watcher(
    delivery: DeliveryView,
    process_exists: bool,
    now_ms: u64,
) -> WatcherStatusView {
    WatcherStatusView {
        state: if delivery.in_progress(now_ms, process_exists) {
            WatcherState::Alive
        } else {
            WatcherState::Stale
        },
        condition_id: delivery.condition_id,
        owner_id: Some(delivery.owner.owner_id),
        pid: Some(delivery.owner.pid),
        heartbeat_at_ms: Some(delivery.prepared_at_ms),
        heartbeat_age_ms: Some(since(now_ms, delivery.prepared_at_ms)),
        turn_id: delivery.owner.turn_id,
        started_at_ms: None,
        phase: Some(HookPhase::Delivering),
        phase_at_ms: Some(delivery.prepared_at_ms),
        last_check_started_at_ms: None,
        parent_pid: delivery.owner.parent_pid,
        process_group_id: delivery.owner.process_group_id,
        lease_error: owner_error(delivery.prepared_at_ms, process_exists, now_ms),
    }
}

/// The report on the hook of a condition.
pub open spec fn watcher(
    condition: ConditionView,
    lease: StoredView<HookLeaseView>,
    delivery: StoredView<DeliveryView>,
    seen: Observation,
    now_ms: u64,
) -> WatcherStatusView {
    if condition.status == ConditionStatus::Waiting {
        waiting_watcher(condition, lease, seen, now_ms)
    } else {
        let idle = if condition.status == ConditionStatus::Armed {
            WatcherState::Armed
        } else {
            WatcherState::Inactive
        };
        match accepted_delivery(delivery) {
            StoredView::Found(delivery) => if delivery.belongs_to(condition) {
                delivering_watcher(delivery, seen.delivery_process_exists, now_ms)
            } else {
                unowned(idle, condition.id, None)
            },
            StoredView::Missing => unowned(idle, condition.id, None),
            StoredView::Failed(error) => unowned(
                idle,
                condition.id,
                if condition.status.given_up() {
                    None
                } else {
                    Some(error)
                },
            ),
        }
    }
}

fn unowned_status(state: WatcherState, condition_id: &str, lease_error: Option<String>) -> (status:
    WatcherStatus)
    ensures
        status@ == unowned(state, condition_id@, optional(lease_error)),
{
    WatcherStatus {
        state,
        condition_id: condition_id.to_owned(),
        owner_id: None,
        pid: None,
        heartbeat_at_ms: None,
        heartbeat_age_ms: None,
        turn_id: None,
        started_at_ms: None,
        phase: None,
        phase_at_ms: None,
        last_check_started_at_ms: None,
        parent_pid: None,
        process_group_id: None,
        lease_error,
    }
}

fn owner_problem(heartbeat_at_ms: u64, process_exists: bool, now_ms: u64) -> (error: Option<String>)
    ensures
        optional(error) == owner_error(heartbeat_at_ms, process_exists, now_ms),
{
    if heartbeat_at_ms > later(now_ms, HOOK_LEASE_CLOCK_SLACK_MS) {
        Some("hook lease heartbeat is in the future".to_owned())
    } else if !process_exists {
        Some("hook process no longer exists".to_owned())
    } else {
        None
    }
}

/// Whether the hook of a legacy record must be gone.
pub fn legacy_condition_is_stale(
    condition: &Condition,
    modified_at_ms: Option<u64>,
    now_ms: u64,
) -> (result: bool)
    ensures
        result == legacy_stale(condition@, modified_at_ms, now_ms),
{
    let gap = later(
        later(condition.poll_every_ms, condition.check_timeout_ms),
        LEGACY_HOOK_GRACE_MARGIN_MS,
    );
    let grace = if gap < LEGACY_HOOK_MIN_GRACE_MS {
        LEGACY_HOOK_MIN_GRACE_MS
    } else {
        gap
    };
    match modified_at_ms {
        Some(modified) => elapsed(now_ms, modified) >= grace,
        None => true,
    }
}

/// Reports on the hook of a condition.
pub fn watcher_status(
    condition: &Condition,
    lease: &Stored<HookLease>,
    delivery: &Stored<PendingDelivery>,
    seen: Observation,
    now_ms: u64,
) -> (status: WatcherStatus)
    ensures
        status@ == watcher(condition@, lease@, delivery@, seen, now_ms),
{
    if condition.status != ConditionStatus::Waiting {
        let idle = if condition.status == ConditionStatus::Armed {
            WatcherState::Armed
        } else {
            WatcherState::Inactive
        };
        return match read_delivery(delivery) {
            Stored::Found(delivery) => {
                if !delivery_belongs(&delivery, condition) {
                    return unowned_status(idle, condition.id.as_str(), None);
                }
                let exists = seen.delivery_process_exists;
                let state = if exists && is_recent(delivery.prepared_at_ms, now_ms) {
                    WatcherState::Alive
                } else {
                    WatcherState::Stale
                };
                WatcherStatus {
                    state,
                    condition_id: delivery.condition_id,
                    owner_id: Some(delivery.owner.owner_id),
                    pid: Some(delivery.owner.pid),
                    heartbeat_at_ms: Some(delivery.prepared_at_ms),
                    heartbeat_age_ms: Some(elapsed(now_ms, delivery.prepared_at_ms)),
                    turn_id: delivery.owner.turn_id,
                    started_at_ms: None,
                    phase: Some(HookPhase::Delivering),
                    phase_at_ms: Some(delivery.prepared_at_ms),
                    last_check_started_at_ms: None,
                    parent_pid: delivery.owner.parent_pid,
                    process_group_id: delivery.owner.process_group_id,
                    lease_error: owner_problem(delivery.prepared_at_ms, exists, now_ms),
                }
            },
            Stored::Missing => unowned_status(idle, condition.id.as_str(), None),
            Stored::Failed(error) => match condition.status {
                ConditionStatus::CancelRequested | ConditionStatus::Cancelled => unowned_status(
                    idle,
                    condition.id.as_str(),
                    None,
                ),
                _ => unowned_status(idle, condition.id.as_str(), Some(error)),
            },
        };
    }
    match read_hook_lease(lease) {
        Stored::Found(lease) => {
            let exists = seen.lease_process_exists;
            let matching = same_text(lease.condition_id.as_str(), condition.id.as_str());
            let state = if matching && exists && is_recent(lease.heartbeat_at_ms, now_ms) {
                WatcherState::Alive
            } else {
                WatcherState::Stale
            };
            WatcherStatus {
                state,
                condition_id: condition.id.clone(),
                owner_id: Some(lease.owner.owner_id),
                pid: Some(lease.owner.pid),
                heartbeat_at_ms: Some(lease.heartbeat_at_ms),
                heartbeat_age_ms: Some(elapsed(now_ms, lease.heartbeat_at_ms)),
                turn_id: lease.owner.turn_id,
                started_at_ms: lease.started_at_ms,
                phase: lease.phase,
                phase_at_ms: lease.phase_at_ms,
                last_check_started_at_ms: lease.last_check_started_at_ms,
                parent_pid: lease.owner.parent_pid,
                process_group_id: lease.owner.process_group_id,
                lease_error: owner_problem(lease.heartbeat_at_ms, exists, now_ms),
            }
        },
        Stored::Missing => {
            let recent_legacy = condition.version == 1 && !legacy_condition_is_stale(
                condition,
                seen.modified_at_ms,
                now_ms,
            );
            let state = if recent_legacy {
                WatcherState::LegacyUnknown
            } else {
                WatcherState::Stale
            };
            unowned_status(state, condition.id.as_str(), None)
        },
        Stored::Failed(error) => unowned_status(
            WatcherState::Stale,
            condition.id.as_str(),
            Some(error),
        ),
    }
}

/// Whether the stored lease is the claim of one hook to one condition; an unreadable lease is an
/// error.
pub open spec fn ownership(
    lease: StoredView<HookLeaseView>,
    condition_id: Seq<char>,
    owner_id: Seq<char>,
) -> Result<bool, Seq<char>> {
    match accepted_lease(lease) {
        StoredView::Found(lease) => Ok(lease.owned_by(condition_id, owner_id)),
        StoredView::Missing => Ok(false),
        StoredView::Failed(error) => Err("read hook lease: "@ + error),
    }
}

} // verus!
