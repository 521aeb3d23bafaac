//! The failures that the orchestrator reports.

use vstd::prelude::*;
use vstd::string::*;
use crate::text::{decimal, push_decimal};

verus! {

/// Why an operation of the orchestrator did not take place.
#[derive(Debug)]
pub enum OrchestratorError {
    /// The worker executable is missing, or the process did not start.
    SpawnFailed { reason: String },
    /// The agent id already has a live registry entry.
    DuplicateAgent { agent_id: String },
    /// The agent id has no live registry entry.
    AgentNotFound { agent_id: String },
    /// A worker was taken out of the registry but would not die.
    KillFailed { agent_id: String, reason: String },
    /// The step id has no worker configuration; `nearest` is the closest
    /// id that has one.
    StepNotConfigured { step_id: u32, nearest: u32 },
    /// The persisted store failed, or holds no value where one is needed.
    PersistenceError { reason: String },
    /// A name would leave the directory it has to stay in.
    PathTraversalRejected { label: String },
    /// The caller named an action that the operation does not know.
    InvalidAction { reason: String },
    /// A setting that the operation needs has no value.
    MissingSetting { reason: String },
    /// What the operation works on is not in the state that it needs.
    OperationRefused { reason: String },
    /// Some item of a reconciliation sweep did not resolve.
    ReconciliationPartialFailure { failed: usize },
}

/// The message of a spawn that failed: its reason.
pub open spec fn spawn_failed_text(reason: Seq<char>) -> Seq<char> {
    reason
}

/// The message for a spawn under a live agent id.
pub open spec fn duplicate_agent_text(agent_id: Seq<char>) -> Seq<char> {
    "Agent '"@ + agent_id + "' is already running"@
}

/// The message for a cancel of an agent id that is not live.
pub open spec fn agent_not_found_text(agent_id: Seq<char>) -> Seq<char> {
    "Agent '"@ + agent_id + "' not found"@
}

/// The message for a worker that would not die.
pub open spec fn kill_failed_text(reason: Seq<char>) -> Seq<char> {
    "Failed to kill sidecar: "@ + reason
}

/// The message for a step without a catalog entry: it names the nearest
/// configured step and all of them.
pub open spec fn step_not_configured_text(step_id: u32, nearest: u32) -> Seq<char> {
    "Unknown step_id "@ + decimal(step_id as nat) + ". The nearest configured step is "@ + decimal(
        nearest as nat,
    ) + "; the configured steps are 0, 3, 5, 6, 7, 8. Use run_parallel_agents for step 2."@
}

/// The message for a path that left the directory named by `label`.
pub open spec fn path_traversal_text(label: Seq<char>) -> Seq<char> {
    "Invalid skill path: path traversal not allowed on "@ + label
}

/// The message for a sweep in which `failed` items did not resolve.
pub open spec fn partial_failure_text(failed: usize) -> Seq<char> {
    decimal(failed as nat) + " item(s) could not be reconciled"@
}

impl OrchestratorError {
    /// The text of the message for the user.
    pub open spec fn message_text(&self) -> Seq<char> {
        match self {
            OrchestratorError::SpawnFailed { reason } => spawn_failed_text(reason@),
            OrchestratorError::DuplicateAgent { agent_id } => duplicate_agent_text(agent_id@),
            OrchestratorError::AgentNotFound { agent_id } => agent_not_found_text(agent_id@),
            OrchestratorError::KillFailed { agent_id, reason } => kill_failed_text(reason@),
            OrchestratorError::StepNotConfigured { step_id, nearest } => step_not_configured_text(
                *step_id,
                *nearest,
            ),
            OrchestratorError::PersistenceError { reason } => reason@,
            OrchestratorError::PathTraversalRejected { label } => path_traversal_text(label@),
            OrchestratorError::InvalidAction { reason } => reason@,
            OrchestratorError::MissingSetting { reason } => reason@,
            OrchestratorError::OperationRefused { reason } => reason@,
            OrchestratorError::ReconciliationPartialFailure { failed } => partial_failure_text(
                *failed,
            ),
        }
    }

    /// The message for the user.
    pub fn message(&self) -> (r: String)
        ensures
            r@ == self.message_text(),
    {
        match self {
            OrchestratorError::SpawnFailed { reason } => reason.clone(),
            OrchestratorError::DuplicateAgent { agent_id } => {
                let mut s = String::from_str("Agent '");
                s.append(agent_id.as_str());
                s.append("' is already running");
                s
            },
            OrchestratorError::AgentNotFound { agent_id } => {
                let mut s = String::from_str("Agent '");
                s.append(agent_id.as_str());
                s.append("' not found");
                s
            },
            OrchestratorError::KillFailed { agent_id, reason } => {
                let mut s = String::from_str("Failed to kill sidecar: ");
                s.append(reason.as_str());
                s
            },
            OrchestratorError::StepNotConfigured { step_id, nearest } => {
                let mut s = String::from_str("Unknown step_id ");
                push_decimal(&mut s, *step_id as u128);
                s.append(". The nearest configured step is ");
                push_decimal(&mut s, *nearest as u128);
                s.append(
                    "; the configured steps are 0, 3, 5, 6, 7, 8. Use run_parallel_agents for step 2.",
                );
                s
            },
            OrchestratorError::PersistenceError { reason } => reason.clone(),
            OrchestratorError::PathTraversalRejected { label } => {
                let mut s = String::from_str("Invalid skill path: path traversal not allowed on ");
                s.append(label.as_str());
                s
            },
            OrchestratorError::InvalidAction { reason } => reason.clone(),
            OrchestratorError::MissingSetting { reason } => reason.clone(),
            OrchestratorError::OperationRefused { reason } => reason.clone(),
            OrchestratorError::ReconciliationPartialFailure { failed } => {
                let mut s = String::new();
                push_decimal(&mut s, *failed as u128);
                s.append(" item(s) could not be reconciled");
                s
            },
        }
    }
}

} // verus!
