//! Waiting for local conditions on behalf of a Codex session.
//!
//! A session arms a condition and stops; the Stop hook checks the condition until there is
//! something to report, and asks Codex to continue. This library holds the rules: the records of a
//! session and their transitions, the supervision of jobs, the installation of the hook, and the
//! judgement of updates and of the health of an installation. Files, processes and clocks are the
//! business of its callers, who hand in what they observed and carry out what is decided.
pub mod check;
pub mod command_laws;
pub mod commands;
pub mod condition;
pub mod condition_laws;
pub mod config;
pub mod delivery;
pub mod doctor;
pub mod doctor_laws;
pub mod download;
pub mod file_laws;
pub mod hook;
pub mod hook_laws;
pub mod hooks_file;
pub mod hooks_laws;
pub mod ids;
pub mod install;
pub mod job;
pub mod job_laws;
pub mod job_list;
pub mod json;
pub mod launch;
pub mod lease;
pub mod lease_laws;
pub mod message;
pub mod message_laws;
pub mod names;
pub mod names_laws;
pub mod number;
pub mod places;
pub mod release_laws;
pub mod session;
pub mod setup;
pub mod setup_laws;
pub mod span;
pub mod stored;
pub mod supervisor;
pub mod supervisor_laws;
pub mod text;
pub mod text_laws;
pub mod toml;
pub mod uninstall;
pub mod update;
pub mod waiting_laws;

pub use crate::check::{observe_check, run_check, start_failure, CheckPoll, CheckStep};
pub use crate::commands::{hook_config, hook_output, hook_response};
pub use crate::condition::{
    ArmRequest, Condition, ConditionStatus, JobReference, HOOK_TIMEOUT_SECONDS,
    MAX_CONDITION_TIMEOUT,
};
pub use crate::delivery::{
    deliver_hook_notification, refresh_hook_heartbeat, DeliveryAction, DeliveryEvent,
    DeliveryStatus,
};
pub use crate::hook::{
    handle_stop_hook, CheckResult, HookAction, HookEvent, HookResult, HookRun, StopHookInput,
};
pub use crate::lease::{
    HookLease, HookOwner, HookPhase, Observation, PendingDelivery, WatcherState, WatcherStatus,
};
pub use crate::names::safe_name;
pub use crate::places::{choose_writable_directory, current_session_id, default_state_dir};
pub use crate::session::{
    arm, cancel, cancel_if_current, inspect_condition, status, ConditionSnapshot, SessionState,
};
pub use crate::span::Span;
pub use crate::stored::Stored;
