//! The decisions around the repository of skills: what a fresh clone is
//! seeded with, when there is something to commit, and what is pushed.

use vstd::prelude::*;
use vstd::string::*;
use crate::error::OrchestratorError;
use crate::text::{slice_texts, str_equal};

verus! {

/// The message of the commit that takes in the seeded files.
pub const SEED_COMMIT_MESSAGE: &'static str = "Initialize skill repo with README and .gitignore";

/// The branch that is pushed where the repository names none.
pub const DEFAULT_BRANCH: &'static str = "main";

/// What a clone made.
#[derive(Debug)]
pub struct CloneResult {
    pub path: String,
    pub created_readme: bool,
    pub created_gitignore: bool,
}

impl Clone for CloneResult {
    fn clone(&self) -> (r: CloneResult)
        ensures
            r == *self,
    {
        CloneResult {
            path: self.path.clone(),
            created_readme: self.created_readme,
            created_gitignore: self.created_gitignore,
        }
    }
}

/// Refuses to clone into a directory that holds a repository.
pub fn check_clone_target(has_repository: bool) -> (r: Result<(), OrchestratorError>)
    ensures
        r is Ok <==> !has_repository,
        r matches Err(e) ==> (e matches OrchestratorError::OperationRefused { reason } && reason@
            == "Directory already contains a git repository. Choose a different folder."@),
{
    if has_repository {
        Err(
            OrchestratorError::OperationRefused {
                reason: String::from_str(
                    "Directory already contains a git repository. Choose a different folder.",
                ),
            },
        )
    } else {
        Ok(())
    }
}

/// What is to be done with a fresh clone: which files to write and to
/// stage, and whether to commit and push them.
#[derive(Debug)]
pub struct SeedPlan {
    pub result: CloneResult,
    pub stage: Vec<&'static str>,
    pub commit: bool,
}

/// `name` alone where it is wanted, nothing else.
pub open spec fn name_if(wanted: bool, name: Seq<char>) -> Seq<Seq<char>> {
    if wanted {
        seq![name]
    } else {
        Seq::empty()
    }
}

/// Plans the seeding of a clone at `dest_path`: the README and the ignore
/// list are written where they are missing, and what was written is
/// committed and pushed.
pub fn clone_repo(dest_path: String, readme_exists: bool, gitignore_exists: bool) -> (r: SeedPlan)
    ensures
        r.result.path == dest_path,
        r.result.created_readme == !readme_exists,
        r.result.created_gitignore == !gitignore_exists,
        slice_texts(r.stage@) == name_if(!readme_exists, "README.md"@) + name_if(
            !gitignore_exists,
            ".gitignore"@,
        ),
        r.commit == (!readme_exists || !gitignore_exists),
{
    let mut stage: Vec<&'static str> = Vec::new();
    if !readme_exists {
        stage.push("README.md");
    }
    if !gitignore_exists {
        stage.push(".gitignore");
    }
    assert(slice_texts(stage@) =~= name_if(!readme_exists, "README.md"@) + name_if(
        !gitignore_exists,
        ".gitignore"@,
    ));
    SeedPlan {
        result: CloneResult {
            path: dest_path,
            created_readme: !readme_exists,
            created_gitignore: !gitignore_exists,
        },
        stage,
        commit: !readme_exists || !gitignore_exists,
    }
}

/// The refspec that pushes `branch` to the branch of the same name.
pub open spec fn refspec_text(branch: Seq<char>) -> Seq<char> {
    "refs/heads/"@ + branch + ":refs/heads/"@ + branch
}

/// The refspec that pushes the current branch to the branch of the same
/// name, for the default branch where the head has no short name.
pub fn push_refspec(branch: Option<&str>) -> (r: String)
    ensures
        r@ == refspec_text(
            match branch {
                Some(b) => b@,
                None => DEFAULT_BRANCH@,
            },
        ),
{
    let name = match branch {
        Some(b) => b,
        None => DEFAULT_BRANCH,
    };
    let mut s = String::from_str("refs/heads/");
    s.append(name);
    s.append(":refs/heads/");
    s.append(name);
    s
}

/// Whether staging gave a tree that differs from that of the last commit:
/// without a last commit there is always something to commit.
pub open spec fn has_changes(parent_tree: Option<Seq<char>>, tree: Seq<char>) -> bool {
    match parent_tree {
        Some(parent) => parent != tree,
        None => true,
    }
}

/// Decides whether to commit and push, by the ids of the tree of the last
/// commit and of the tree that was staged. The result is what the user is
/// told; a commit is due exactly where it is `Committed and pushed`.
pub fn commit_and_push(parent_tree: Option<&str>, tree: &str) -> (r: (bool, &'static str))
    ensures
        r.0 == has_changes(
            match parent_tree {
                Some(p) => Some(p@),
                None => None,
            },
            tree@,
        ),
        r.1@ == (if r.0 {
            "Committed and pushed"@
        } else {
            "No changes to commit"@
        }),
{
    let changed = match parent_tree {
        Some(parent) => !str_equal(parent, tree),
        None => true,
    };
    if changed {
        (true, "Committed and pushed")
    } else {
        (false, "No changes to commit")
    }
}

} // verus!
