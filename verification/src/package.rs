//! What goes into the package of a skill, and under which names.

use vstd::prelude::*;
use vstd::string::*;
use crate::error::OrchestratorError;
use crate::artifacts::{
    artifact_models, package_file_name, package_name_text, Artifact, ArtifactModel,
};
use crate::workspace::{dir_if, file_if};

verus! {

/// The package that was written.
#[derive(Debug)]
pub struct PackageResult {
    pub file_path: String,
    pub size_bytes: u64,
}

/// The message for a skill directory that is not there.
pub open spec fn not_found_text(skill_dir: Seq<char>) -> Seq<char> {
    "Skill directory not found: "@ + skill_dir
}

/// The file name of the package of `skill_name` in its skill directory,
/// unless that directory is missing.
pub fn package_skill(skill_name: &str, skill_dir: &str, skill_dir_exists: bool) -> (r: Result<
    String,
    OrchestratorError,
>)
    ensures
        match r {
            Ok(name) => skill_dir_exists && name@ == package_name_text(skill_name@),
            Err(e) => !skill_dir_exists && (e matches OrchestratorError::OperationRefused {
                reason,
            } && reason@ == not_found_text(skill_dir@)),
        },
{
    if skill_dir_exists {
        Ok(package_file_name(skill_name))
    } else {
        let mut reason = String::from_str("Skill directory not found: ");
        reason.append(skill_dir);
        Err(OrchestratorError::OperationRefused { reason })
    }
}

/// What a package takes from the skill directory: the skill file and the
/// directory of references, each where it is there. Nothing else goes in.
pub open spec fn package_roots(skill_md_exists: bool, references_is_dir: bool) -> Seq<
    ArtifactModel,
> {
    file_if(skill_md_exists, "SKILL.md"@) + dir_if(references_is_dir, "references"@)
}

/// What a package takes from the skill directory, in the order in which
/// it goes in.
pub fn create_skill_zip(skill_md_exists: bool, references_is_dir: bool) -> (r: Vec<Artifact>)
    ensures
        artifact_models(r@) == package_roots(skill_md_exists, references_is_dir),
{
    let mut out: Vec<Artifact> = Vec::new();
    if skill_md_exists {
        out.push(Artifact { path: String::from_str("SKILL.md"), is_dir: false });
    }
    if references_is_dir {
        out.push(Artifact { path: String::from_str("references"), is_dir: true });
    }
    assert(artifact_models(out@) =~= package_roots(skill_md_exists, references_is_dir));
    out
}

/// The name in the archive of an entry `file_name` of the directory that
/// goes by `prefix`.
pub open spec fn entry_name_text(prefix: Seq<char>, file_name: Seq<char>) -> Seq<char> {
    prefix + "/"@ + file_name
}

/// The entry of a directory in the package: its name in the archive is the
/// name of the directory it lies in, a slash and its own name. A directory
/// is walked under that name, a file is stored under it.
pub fn add_dir_to_zip(prefix: &str, file_name: &str, is_dir: bool) -> (r: Artifact)
    ensures
        r@ == (ArtifactModel { path: entry_name_text(prefix@, file_name@), is_dir }),
{
    let mut path = String::from_str(prefix);
    path.append("/");
    path.append(file_name);
    Artifact { path, is_dir }
}

} // verus!
