//! The application's settings, and the failures for those that an
//! operation needs and does not find.

use vstd::prelude::*;
use vstd::string::*;
use crate::error::OrchestratorError;
use crate::text::{option_text, str_equal};

verus! {

/// What the user has set.
#[derive(Debug)]
pub struct AppSettings {
    pub anthropic_api_key: Option<String>,
    pub workspace_path: Option<String>,
    pub skills_path: Option<String>,
}

impl AppSettings {
    /// Settings with nothing set, as a store without a record gives them.
    pub fn empty() -> (r: AppSettings)
        ensures
            r.anthropic_api_key is None,
            r.workspace_path is None,
            r.skills_path is None,
    {
        AppSettings { anthropic_api_key: None, workspace_path: None, skills_path: None }
    }
}

fn missing(reason: &str) -> (r: OrchestratorError)
    ensures
        r matches OrchestratorError::MissingSetting { reason: x } && x@ == reason@,
{
    OrchestratorError::MissingSetting { reason: String::from_str(reason) }
}

/// The workspace directory that the settings name.
pub fn get_workspace_path(settings: &AppSettings) -> (r: Result<String, OrchestratorError>)
    ensures
        match r {
            Ok(path) => settings.workspace_path matches Some(p) && p@ == path@,
            Err(e) => settings.workspace_path is None && (e
                matches OrchestratorError::MissingSetting { reason } && reason@
                == "Workspace path not initialized"@),
        },
{
    match &settings.workspace_path {
        Some(path) => Ok(path.clone()),
        None => Err(missing("Workspace path not initialized")),
    }
}

/// The skills directory that the settings name.
pub fn get_skills_path(settings: &AppSettings) -> (r: Result<String, OrchestratorError>)
    ensures
        match r {
            Ok(path) => settings.skills_path matches Some(p) && p@ == path@,
            Err(e) => settings.skills_path is None && (e
                matches OrchestratorError::MissingSetting { reason } && reason@
                == "Skills path not configured. Please set it in Settings."@),
        },
{
    match &settings.skills_path {
        Some(path) => Ok(path.clone()),
        None => Err(missing("Skills path not configured. Please set it in Settings.")),
    }
}

/// Makes `workspace_path` the workspace of the settings. The result tells
/// whether the settings changed, and so have to be stored again.
pub fn init_workspace(settings: &mut AppSettings, workspace_path: &str) -> (changed: bool)
    ensures
        changed == (option_text(old(settings).workspace_path) != Some(workspace_path@)),
        option_text(final(settings).workspace_path) == Some(workspace_path@),
        final(settings).anthropic_api_key == old(settings).anthropic_api_key,
        final(settings).skills_path == old(settings).skills_path,
        !changed ==> final(settings).workspace_path == old(settings).workspace_path,
{
    let same = match &settings.workspace_path {
        Some(path) => str_equal(path.as_str(), workspace_path),
        None => false,
    };
    if !same {
        settings.workspace_path = Some(String::from_str(workspace_path));
    }
    !same
}

/// Whether the skills directory is to be put under version control now: it
/// is there and has no repository yet.
pub fn needs_git_upgrade(skills_path_exists: bool, has_repository: bool) -> (r: bool)
    ensures
        r == (skills_path_exists && !has_repository),
{
    skills_path_exists && !has_repository
}

/// Whether the reply to a probe of an API key shows that the key is taken:
/// any status but 401.
pub fn test_api_key(status: u16) -> (r: bool)
    ensures
        r == (status != 401),
{
    status != 401
}

} // verus!
