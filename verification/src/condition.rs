//! Conditions: what a session waits for, and the rules that every record obeys.
use vstd::prelude::*;

use crate::span::{duration_ms, Span};
use crate::stored::{Stored, StoredView};
use crate::text::{clone_optional, clone_texts, decimal, optional, outcome, push_decimal, texts};

verus! {

/// The timeout of the installed Stop hook.
pub const HOOK_TIMEOUT_SECONDS: u64 = 7 * 24 * 60 * 60;

/// The longest timeout of a condition, in seconds: one minute less than that of the hook.
pub const MAX_CONDITION_TIMEOUT: u64 = HOOK_TIMEOUT_SECONDS - 60;

/// The shortest delay between two checks.
pub const MIN_POLL_INTERVAL_MS: u64 = 50;

/// The shortest delay between two checkpoints.
pub const MIN_CHECKPOINT_INTERVAL_MS: u64 = 60_000;

/// A supervised job that a condition is attached to.
#[derive(Debug)]
pub struct JobReference {
    pub id: String,
    pub root: String,
    pub log_path: String,
}

/// The view of a [`JobReference`].
pub struct JobReferenceView {
    pub id: Seq<char>,
    pub root: Seq<char>,
    pub log_path: Seq<char>,
}

impl View for JobReference {
    type V = JobReferenceView;

    open spec fn view(&self) -> JobReferenceView {
        JobReferenceView { id: self.id@, root: self.root@, log_path: self.log_path@ }
    }
}

impl Clone for JobReference {
    fn clone(&self) -> (copy: Self)
        ensures
            copy@ == self@,
    {
        JobReference {
            id: self.id.clone(),
            root: self.root.clone(),
            log_path: self.log_path.clone(),
        }
    }
}

/// Copies a job reference that may be absent.
pub(crate) fn clone_job(job: &Option<JobReference>) -> (copy: Option<JobReference>)
    ensures
        optional(copy) == optional(*job),
{
    match job {
        Some(job) => Some(job.clone()),
        None => None,
    }
}

/// Where a condition stands.
#[derive(Debug, Clone, Copy, PartialEq, Eq, Structural)]
pub enum ConditionStatus {
    Armed,
    Waiting,
    /// Found in older records only. It is terminal, and cancelling normalizes it.
    CancelRequested,
    Succeeded,
    TimedOut,
    Failed,
    Cancelled,
}

impl ConditionStatus {
    /// The conditions that a Stop hook still acts on.
    pub open spec fn active(self) -> bool {
        self == ConditionStatus::Armed || self == ConditionStatus::Waiting
    }

    /// The conditions that were given up by their user.
    pub open spec fn given_up(self) -> bool {
        self == ConditionStatus::CancelRequested || self == ConditionStatus::Cancelled
    }

    /// The name of a status in messages.
    pub open spec fn label(self) -> Seq<char> {
        match self {
            ConditionStatus::Armed => "Armed"@,
            ConditionStatus::Waiting => "Waiting"@,
            ConditionStatus::CancelRequested => "CancelRequested"@,
            ConditionStatus::Succeeded => "Succeeded"@,
            ConditionStatus::TimedOut => "TimedOut"@,
            ConditionStatus::Failed => "Failed"@,
            ConditionStatus::Cancelled => "Cancelled"@,
        }
    }

    /// Whether a Stop hook still acts on the condition.
    pub fn is_active(&self) -> (result: bool)
        ensures
            result == self.active(),
    {
        match self {
            ConditionStatus::Armed | ConditionStatus::Waiting => true,
            _ => false,
        }
    }

    /// The name of this status in messages.
    pub fn name(&self) -> (name: &'static str)
        ensures
            name@ == self.label(),
    {
        match self {
            ConditionStatus::Armed => "Armed",
            ConditionStatus::Waiting => "Waiting",
            ConditionStatus::CancelRequested => "CancelRequested",
            ConditionStatus::Succeeded => "Succeeded",
            ConditionStatus::TimedOut => "TimedOut",
            ConditionStatus::Failed => "Failed",
            ConditionStatus::Cancelled => "Cancelled",
        }
    }
}

/// One condition of a session. Times are milliseconds since the Unix epoch.
#[derive(Debug)]
pub struct Condition {
    pub version: u8,
    pub id: String,
    pub session_id: String,
    pub label: Option<String>,
    pub cwd: String,
    pub command: Vec<String>,
    pub created_at_ms: u64,
    pub timeout_ms: u64,
    pub poll_every_ms: u64,
    pub check_timeout_ms: u64,
    pub checkpoint_every_ms: Option<u64>,
    pub next_checkpoint_at_ms: Option<u64>,
    pub checkpoints: u64,
    pub job: Option<JobReference>,
    pub status: ConditionStatus,
    pub attempts: u64,
    pub last_exit_code: Option<i32>,
    pub last_output: String,
    pub resolved_at_ms: Option<u64>,
}

/// The view of a [`Condition`].
pub struct ConditionView {
    pub version: u8,
    pub id: Seq<char>,
    pub session_id: Seq<char>,
    pub label: Option<Seq<char>>,
    pub cwd: Seq<char>,
    pub command: Seq<Seq<char>>,
    pub created_at_ms: u64,
    pub timeout_ms: u64,
    pub poll_every_ms: u64,
    pub check_timeout_ms: u64,
    pub checkpoint_every_ms: Option<u64>,
    pub next_checkpoint_at_ms: Option<u64>,
    pub checkpoints: u64,
    pub job: Option<JobReferenceView>,
    pub status: ConditionStatus,
    pub attempts: u64,
    pub last_exit_code: Option<i32>,
    pub last_output: Seq<char>,
    pub resolved_at_ms: Option<u64>,
}

impl View for Condition {
    type V = ConditionView;

    open spec fn view(&self) -> ConditionView {
        ConditionView {
            version: self.version,
            id: self.id@,
            session_id: self.session_id@,
            label: optional(self.label),
            cwd: self.cwd@,
            command: texts(self.command@),
            created_at_ms: self.created_at_ms,
            timeout_ms: self.timeout_ms,
            poll_every_ms: self.poll_every_ms,
            check_timeout_ms: self.check_timeout_ms,
            checkpoint_every_ms: self.checkpoint_every_ms,
            next_checkpoint_at_ms: self.next_checkpoint_at_ms,
            checkpoints: self.checkpoints,
            job: optional(self.job),
            status: self.status,
            attempts: self.attempts,
            last_exit_code: self.last_exit_code,
            last_output: self.last_output@,
            resolved_at_ms: self.resolved_at_ms,
        }
    }
}

impl Clone for Condition {
    fn clone(&self) -> (copy: Self)
        ensures
            copy@ == self@,
    {
        Condition {
            version: self.version,
            id: self.id.clone(),
            session_id: self.session_id.clone(),
            label: clone_optional(&self.label),
            cwd: self.cwd.clone(),
            command: clone_texts(&self.command),
            created_at_ms: self.created_at_ms,
            timeout_ms: self.timeout_ms,
            poll_every_ms: self.poll_every_ms,
            check_timeout_ms: self.check_timeout_ms,
            checkpoint_every_ms: self.checkpoint_every_ms,
            next_checkpoint_at_ms: self.next_checkpoint_at_ms,
            checkpoints: self.checkpoints,
            job: clone_job(&self.job),
            status: self.status,
            attempts: self.attempts,
            last_exit_code: self.last_exit_code,
            last_output: self.last_output.clone(),
            resolved_at_ms: self.resolved_at_ms,
        }
    }
}

/// The difference of two times, zero if the second is later.
pub open spec fn since(now_ms: u64, then_ms: u64) -> u64 {
    if now_ms >= then_ms {
        (now_ms - then_ms) as u64
    } else {
        0
    }
}

/// The sum of a time and a delay, at most what 64 bits hold.
pub open spec fn after(time_ms: u64, delay_ms: u64) -> u64 {
    if time_ms + delay_ms > u64::MAX {
        u64::MAX
    } else {
        (time_ms + delay_ms) as u64
    }
}

/// The difference of two times, zero if the second is later.
pub fn elapsed(now_ms: u64, then_ms: u64) -> (result: u64)
    ensures
        result == since(now_ms, then_ms),
{
    if now_ms >= then_ms {
        now_ms - then_ms
    } else {
        0
    }
}

/// The sum of a time and a delay, at most what 64 bits hold.
pub fn later(time_ms: u64, delay_ms: u64) -> (result: u64)
    ensures
        result == after(time_ms, delay_ms),
{
    if delay_ms > u64::MAX - time_ms {
        u64::MAX
    } else {
        time_ms + delay_ms
    }
}

impl ConditionView {
    /// When the condition times out.
    pub open spec fn deadline(self) -> u64 {
        after(self.created_at_ms, self.timeout_ms)
    }

    /// The time that is left until the deadline.
    pub open spec fn remaining(self, now_ms: u64) -> u64 {
        since(self.timeout_ms, since(now_ms, self.created_at_ms))
    }

    /// Whether the deadline has passed.
    pub open spec fn expired(self, now_ms: u64) -> bool {
        since(now_ms, self.created_at_ms) >= self.timeout_ms
    }

    /// What is wrong with a record, if anything.
    pub open spec fn problem(self) -> Option<Seq<char>> {
        if self.version != 1 && self.version != 2 {
            Some("unsupported condition version "@ + decimal(self.version as nat))
        } else if self.timeout_ms == 0 {
            Some("condition timeout must be greater than zero"@)
        } else if self.poll_every_ms < MIN_POLL_INTERVAL_MS {
            Some("condition poll interval is too short"@)
        } else if self.check_timeout_ms == 0 {
            Some("condition check timeout must be greater than zero"@)
        } else if self.version == 2 && (self.checkpoint_every_ms matches Some(every) && (every
            < MIN_CHECKPOINT_INTERVAL_MS || every >= self.timeout_ms)) {
            Some("invalid condition checkpoint interval"@)
        } else if self.version == 2 && (self.checkpoint_every_ms is Some)
            != (self.next_checkpoint_at_ms is Some) {
            Some("inconsistent condition checkpoint state"@)
        } else if self.version == 2 && (self.next_checkpoint_at_ms matches Some(next) && next
            > self.deadline()) {
            Some("condition checkpoint is after its deadline"@)
        } else {
            None
        }
    }

    /// A record that readers accept.
    pub open spec fn valid(self) -> bool {
        self.problem() is None
    }

    /// The condition, resolved.
    pub open spec fn resolved(self, status: ConditionStatus, now_ms: u64) -> ConditionView {
        ConditionView { status, resolved_at_ms: Some(now_ms), ..self }
    }

    /// The checkpoint interval that a hook takes over: raised to the minimum, or dropped if the time
    /// left cannot hold it.
    pub open spec fn carried_checkpoint(self, now_ms: u64) -> Option<u64> {
        match self.checkpoint_every_ms {
            Some(every) => {
                let raised = if every < MIN_CHECKPOINT_INTERVAL_MS {
                    MIN_CHECKPOINT_INTERVAL_MS
                } else {
                    every
                };
                if raised < self.remaining(now_ms) {
                    Some(raised)
                } else {
                    None
                }
            },
            None => None,
        }
    }

    /// The condition in the current format. An interval that did not change keeps its next
    /// checkpoint; a changed one starts anew.
    pub open spec fn migrated(self, now_ms: u64) -> ConditionView {
        let carried = self.carried_checkpoint(now_ms);
        ConditionView {
            version: 2,
            checkpoint_every_ms: carried,
            next_checkpoint_at_ms: if self.checkpoint_every_ms is Some && self.checkpoint_every_ms
                == carried && self.next_checkpoint_at_ms is Some {
                self.next_checkpoint_at_ms
            } else {
                match carried {
                    Some(every) => Some(after(now_ms, every)),
                    None => None,
                }
            },
            ..self
        }
    }
}

/// Checks a record against the rules that readers and writers share.
pub fn validate_condition(condition: &Condition) -> (result: Result<(), String>)
    ensures
        outcome(result) == match condition@.problem() {
            Some(problem) => Err::<(), Seq<char>>(problem),
            None => Ok(()),
        },
{
    if condition.version != 1 && condition.version != 2 {
        let mut error = "unsupported condition version ".to_owned();
        push_decimal(&mut error, condition.version as u64);
        return Err(error);
    }
    if condition.timeout_ms == 0 {
        return Err("condition timeout must be greater than zero".to_owned());
    }
    if condition.poll_every_ms < MIN_POLL_INTERVAL_MS {
        return Err("condition poll interval is too short".to_owned());
    }
    if condition.check_timeout_ms == 0 {
        return Err("condition check timeout must be greater than zero".to_owned());
    }
    if condition.version == 2 {
        if let Some(every) = condition.checkpoint_every_ms {
            if every < MIN_CHECKPOINT_INTERVAL_MS || every >= condition.timeout_ms {
                return Err("invalid condition checkpoint interval".to_owned());
            }
        }
        if condition.checkpoint_every_ms.is_some() != condition.next_checkpoint_at_ms.is_some() {
            return Err("inconsistent condition checkpoint state".to_owned());
        }
        if let Some(next) = condition.next_checkpoint_at_ms {
            if next > later(condition.created_at_ms, condition.timeout_ms) {
                return Err("condition checkpoint is after its deadline".to_owned());
            }
        }
    }
    Ok(())
}

/// A stored condition as readers take it: an invalid one counts as an error.
pub open spec fn accepted(stored: StoredView<ConditionView>) -> StoredView<ConditionView> {
    match stored {
        StoredView::Found(condition) => match condition.problem() {
            Some(problem) => StoredView::Failed(problem),
            None => stored,
        },
        _ => stored,
    }
}

/// Reads a stored condition.
pub fn read_condition(stored: &Stored<Condition>) -> (result: Stored<Condition>)
    ensures
        result@ == accepted(stored@),
{
    match stored {
        Stored::Missing => Stored::Missing,
        Stored::Failed(error) => Stored::Failed(error.clone()),
        Stored::Found(condition) => match validate_condition(condition) {
            Ok(()) => Stored::Found(condition.clone()),
            Err(error) => Stored::Failed(error),
        },
    }
}

/// Gives a condition its outcome.
pub fn mark_resolved(condition: &mut Condition, status: ConditionStatus, now_ms: u64)
    ensures
        final(condition)@ == old(condition)@.resolved(status, now_ms),
{
    condition.status = status;
    condition.resolved_at_ms = Some(now_ms);
}

/// Brings a condition into the current format, as a hook takes it over.
pub fn migrate_condition_to_v2(condition: &mut Condition, now_ms: u64)
    ensures
        final(condition)@ == old(condition)@.migrated(now_ms),
{
    let remaining = elapsed(condition.timeout_ms, elapsed(now_ms, condition.created_at_ms));
    let legacy = condition.checkpoint_every_ms;
    let carried = match legacy {
        Some(every) => {
            let raised = if every < MIN_CHECKPOINT_INTERVAL_MS {
                MIN_CHECKPOINT_INTERVAL_MS
            } else {
                every
            };
            if raised < remaining {
                Some(raised)
            } else {
                None
            }
        },
        None => None,
    };
    let unchanged = match (legacy, carried) {
        (Some(before), Some(now)) => before == now,
        _ => false,
    };
    condition.version = 2;
    condition.checkpoint_every_ms = carried;
    if !(unchanged && condition.next_checkpoint_at_ms.is_some()) {
        condition.next_checkpoint_at_ms = match carried {
            Some(every) => Some(later(now_ms, every)),
            None => None,
        };
    }
}

/// A request to wait for a condition.
#[derive(Debug)]
pub struct ArmRequest {
    pub session_id: String,
    pub label: Option<String>,
    pub cwd: String,
    pub command: Vec<String>,
    pub timeout: Span,
    pub poll_every: Span,
    pub check_timeout: Span,
    pub checkpoint_every: Option<Span>,
    pub job: Option<JobReference>,
}

/// The view of an [`ArmRequest`].
pub struct ArmRequestView {
    pub session_id: Seq<char>,
    pub label: Option<Seq<char>>,
    pub cwd: Seq<char>,
    pub command: Seq<Seq<char>>,
    pub timeout: Span,
    pub poll_every: Span,
    pub check_timeout: Span,
    pub checkpoint_every: Option<Span>,
    pub job: Option<JobReferenceView>,
}

impl View for ArmRequest {
    type V = ArmRequestView;

    open spec fn view(&self) -> ArmRequestView {
        ArmRequestView {
            session_id: self.session_id@,
            label: optional(self.label),
            cwd: self.cwd@,
            command: texts(self.command@),
            timeout: self.timeout,
            poll_every: self.poll_every,
            check_timeout: self.check_timeout,
            checkpoint_every: self.checkpoint_every,
            job: optional(self.job),
        }
    }
}

impl ArmRequestView {
    /// Why a request is refused, if it is. `cwd_exists` tells whether its working directory is a
    /// directory.
    pub open spec fn problem(self, cwd_exists: bool) -> Option<Seq<char>> {
        if self.command.len() == 0 {
            Some("predicate command is required after --"@)
        } else if self.timeout.total() == 0 {
            Some("--timeout must be greater than zero"@)
        } else if self.timeout.total() > MAX_CONDITION_TIMEOUT * 1_000_000_000 {
            Some(
                "--timeout must be shorter than the configured seven-day Stop hook timeout (max "@
                    + decimal(MAX_CONDITION_TIMEOUT as nat) + "s)"@,
            )
        } else if self.poll_every.total() < MIN_POLL_INTERVAL_MS * 1_000_000 {
            Some("--poll-every must be at least 50ms"@)
        } else if self.check_timeout.total() == 0 {
            Some("--check-timeout must be greater than zero"@)
        } else if self.checkpoint_every matches Some(every) && every.total()
            < MIN_CHECKPOINT_INTERVAL_MS * 1_000_000 {
            Some("--checkpoint-every must be at least 1m"@)
        } else if self.checkpoint_every matches Some(every) && every.total()
            >= self.timeout.total() {
            Some("--checkpoint-every must be shorter than --timeout"@)
        } else if !cwd_exists {
            Some("condition working directory does not exist: "@ + self.cwd)
        } else {
            None
        }
    }

    /// The condition that a request asks for.
    pub open spec fn condition(self, id: Seq<char>, now_ms: u64) -> ConditionView {
        ConditionView {
            version: 2,
            id,
            session_id: self.session_id,
            label: self.label,
            cwd: self.cwd,
            command: self.command,
            created_at_ms: now_ms,
            timeout_ms: self.timeout.millis(),
            poll_every_ms: self.poll_every.millis(),
            check_timeout_ms: self.check_timeout.millis(),
            checkpoint_every_ms: match self.checkpoint_every {
                Some(every) => Some(every.millis()),
                None => None,
            },
            next_checkpoint_at_ms: match self.checkpoint_every {
                Some(every) => Some((now_ms + every.millis()) as u64),
                None => None,
            },
            checkpoints: 0,
            job: self.job,
            status: ConditionStatus::Armed,
            attempts: 0,
            last_exit_code: None,
            last_output: seq![],
            resolved_at_ms: None,
        }
    }
}

/// Checks a request. `cwd_exists` tells whether its working directory is a directory.
pub fn validate_request(request: &ArmRequest, cwd_exists: bool) -> (result: Result<(), String>)
    ensures
        outcome(result) == match request@.problem(cwd_exists) {
            Some(problem) => Err::<(), Seq<char>>(problem),
            None => Ok(()),
        },
{
    if request.command.len() == 0 {
        return Err("predicate command is required after --".to_owned());
    }
    let timeout: u128 = request.timeout.nanoseconds();
    if timeout == 0 {
        return Err("--timeout must be greater than zero".to_owned());
    }
    if timeout > MAX_CONDITION_TIMEOUT as u128 * 1_000_000_000 {
        let mut error =
            "--timeout must be shorter than the configured seven-day Stop hook timeout (max ".to_owned();
        push_decimal(&mut error, MAX_CONDITION_TIMEOUT);
        error.append("s)");
        return Err(error);
    }
    if request.poll_every.nanoseconds() < MIN_POLL_INTERVAL_MS as u128 * 1_000_000 {
        return Err("--poll-every must be at least 50ms".to_owned());
    }
    if request.check_timeout.nanoseconds() == 0 {
        return Err("--check-timeout must be greater than zero".to_owned());
    }
    if let Some(every) = &request.checkpoint_every {
        if every.nanoseconds() < MIN_CHECKPOINT_INTERVAL_MS as u128 * 1_000_000 {
            return Err("--checkpoint-every must be at least 1m".to_owned());
        }
        if every.nanoseconds() >= timeout {
            return Err("--checkpoint-every must be shorter than --timeout".to_owned());
        }
    }
    if !cwd_exists {
        let mut error = "condition working directory does not exist: ".to_owned();
        error.append(request.cwd.as_str());
        return Err(error);
    }
    Ok(())
}

/// The condition that an accepted request asks for.
pub(crate) fn condition_of(request: ArmRequest, id: String, now_ms: u64) -> (condition: Condition)
    requires
        request@.checkpoint_every matches Some(every) ==> now_ms + every.millis() <= u64::MAX,
    ensures
        condition@ == request@.condition(id@, now_ms),
{
    let (checkpoint_every_ms, next_checkpoint_at_ms) = match request.checkpoint_every {
        Some(every) => {
            let every_ms = duration_ms(every);
            (Some(every_ms), Some(now_ms + every_ms))
        },
        None => (None, None),
    };
    let condition = Condition {
        version: 2,
        id,
        session_id: request.session_id,
        label: request.label,
        cwd: request.cwd,
        command: request.command,
        created_at_ms: now_ms,
        timeout_ms: duration_ms(request.timeout),
        poll_every_ms: duration_ms(request.poll_every),
        check_timeout_ms: duration_ms(request.check_timeout),
        checkpoint_every_ms,
        next_checkpoint_at_ms,
        checkpoints: 0,
        job: request.job,
        status: ConditionStatus::Armed,
        attempts: 0,
        last_exit_code: None,
        last_output: String::new(),
        resolved_at_ms: None,
    };
    condition
}

} // verus!
