//! Orchestration rules for long-running worker processes: a process registry,
//! a catalog of workflow steps, the workflow engine's decisions and the
//! startup reconciliation of persisted state.

pub mod artifacts;
pub mod auth;
pub mod catalog;
pub mod diff;
pub mod error;
pub mod git;
pub mod node;
pub mod package;
pub mod prompts;
pub mod reconcile;
pub mod settings;
pub mod sidecar;
pub mod state;
pub mod text;
pub mod workflow;
pub mod workflow_state;
pub mod workspace;
