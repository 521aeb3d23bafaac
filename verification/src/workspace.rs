//! The workspace directory: where it lies, how an older layout moves into
//! the present one, and what an older layout leaves to clean up.

use vstd::prelude::*;
use vstd::string::*;
use crate::artifacts::{artifact_models, Artifact, ArtifactModel};

verus! {

/// The directory in the user's home that holds the workspace.
pub const WORKSPACE_PARENT: &'static str = ".vibedata";

/// The directory of the workspace in its parent.
pub const WORKSPACE_SUBDIR: &'static str = "skill-builder";

/// The name under which the old workspace waits while it moves.
pub open spec fn migrating_name_text() -> Seq<char> {
    WORKSPACE_PARENT@ + "-migrating"@
}

/// The name under which the old workspace waits while it moves.
pub fn migrating_name() -> (r: String)
    ensures
        r@ == migrating_name_text(),
{
    let mut s = String::from_str(WORKSPACE_PARENT);
    s.append("-migrating");
    s
}

/// The segments under the home directory that lead to the workspace.
pub fn resolve_workspace_path() -> (r: Vec<&'static str>)
    ensures
        r@.len() == 2,
        r@[0]@ == WORKSPACE_PARENT@,
        r@[1]@ == WORKSPACE_SUBDIR@,
{
    let mut v: Vec<&'static str> = Vec::new();
    v.push(WORKSPACE_PARENT);
    v.push(WORKSPACE_SUBDIR);
    v
}

/// What is on disk before the workspace moves into its subdirectory.
#[derive(Clone, Copy, Debug, PartialEq, Eq, Structural)]
pub struct MigrationProbe {
    /// The old workspace root is a directory.
    pub old_root_is_dir: bool,
    /// Something exists where the workspace is to lie.
    pub new_root_exists: bool,
    /// The old workspace root holds an entry.
    pub old_root_has_content: bool,
    /// Something exists under the name that a moving workspace takes.
    pub tmp_exists: bool,
}

/// How a migration ended.
#[derive(Clone, Copy, Debug, PartialEq, Eq, Structural)]
pub enum MigrationOutcome {
    /// The workspace lies in its subdirectory now.
    Migrated,
    /// There is no old workspace, or the new layout is there already.
    NothingToMigrate,
    /// The old workspace is empty.
    SourceEmpty,
    /// An earlier migration that failed has left its temporary directory.
    LeftoverTemporary,
    /// The old workspace could not be moved aside; nothing has changed.
    MoveAsideFailed,
    /// The parent could not be made again; the old workspace was moved
    /// back.
    RecreateFailed,
    /// The workspace could not be moved into place; the parent was
    /// dropped and the old workspace moved back.
    MoveInFailed,
}

/// Where a migration stands. Each state but the last waits for the result
/// of one action on disk.
#[derive(Clone, Copy, Debug, PartialEq, Eq, Structural)]
pub enum MigrationState {
    /// The old workspace is being moved aside.
    MovingAside,
    /// First checkpoint: the old workspace lies aside, and the parent is
    /// being made again.
    Recreating,
    /// Second checkpoint: the parent is there, and the workspace is being
    /// moved into it.
    MovingIn,
    /// A step failed, and what was done is being undone.
    RollingBack { outcome: MigrationOutcome },
    /// Third checkpoint, or an early end.
    Finished { outcome: MigrationOutcome },
}

/// One action on disk.
#[derive(Clone, Copy, Debug, PartialEq, Eq, Structural)]
pub enum MigrationAction {
    /// Rename the old workspace root to the temporary name.
    MoveOldAside,
    /// Make the parent directory again.
    RecreateParent,
    /// Rename the temporary directory to the workspace in the parent.
    MoveIntoPlace,
    /// Rename the temporary directory back to the old workspace root.
    RestoreOld,
    /// Remove the empty parent, then rename the temporary directory back.
    DropParentAndRestoreOld,
}

/// The state in which a migration begins: it ends at once where the new
/// layout is there or no old workspace is, where the old workspace is
/// empty, and where a temporary directory was left behind.
pub open spec fn migration_start(probe: MigrationProbe) -> MigrationState {
    if !probe.old_root_is_dir || probe.new_root_exists {
        MigrationState::Finished { outcome: MigrationOutcome::NothingToMigrate }
    } else if !probe.old_root_has_content {
        MigrationState::Finished { outcome: MigrationOutcome::SourceEmpty }
    } else if probe.tmp_exists {
        MigrationState::Finished { outcome: MigrationOutcome::LeftoverTemporary }
    } else {
        MigrationState::MovingAside
    }
}

/// The action whose result a state waits for.
pub open spec fn migration_action(state: MigrationState) -> Option<MigrationAction> {
    match state {
        MigrationState::MovingAside => Some(MigrationAction::MoveOldAside),
        MigrationState::Recreating => Some(MigrationAction::RecreateParent),
        MigrationState::MovingIn => Some(MigrationAction::MoveIntoPlace),
        MigrationState::RollingBack { outcome } => if outcome == MigrationOutcome::MoveInFailed {
            Some(MigrationAction::DropParentAndRestoreOld)
        } else {
            Some(MigrationAction::RestoreOld)
        },
        MigrationState::Finished { outcome } => None,
    }
}

/// The state after the action of `state` succeeded (`ok`) or failed. What
/// becomes of an undoing is not looked at.
pub open spec fn migration_next(state: MigrationState, ok: bool) -> MigrationState {
    match state {
        MigrationState::MovingAside => if ok {
            MigrationState::Recreating
        } else {
            MigrationState::Finished { outcome: MigrationOutcome::MoveAsideFailed }
        },
        MigrationState::Recreating => if ok {
            MigrationState::MovingIn
        } else {
            MigrationState::RollingBack { outcome: MigrationOutcome::RecreateFailed }
        },
        MigrationState::MovingIn => if ok {
            MigrationState::Finished { outcome: MigrationOutcome::Migrated }
        } else {
            MigrationState::RollingBack { outcome: MigrationOutcome::MoveInFailed }
        },
        MigrationState::RollingBack { outcome } => MigrationState::Finished { outcome },
        MigrationState::Finished { outcome } => state,
    }
}

/// How many actions a migration may still take from `state`.
pub open spec fn migration_rank(state: MigrationState) -> nat {
    match state {
        MigrationState::MovingAside => 4,
        MigrationState::Recreating => 3,
        MigrationState::MovingIn => 2,
        MigrationState::RollingBack { outcome } => 1,
        MigrationState::Finished { outcome } => 0,
    }
}

/// Begins the move of the workspace into its subdirectory.
pub fn migrate_to_skill_builder_subdir(probe: MigrationProbe) -> (r: MigrationState)
    ensures
        r == migration_start(probe),
{
    if !probe.old_root_is_dir || probe.new_root_exists {
        MigrationState::Finished { outcome: MigrationOutcome::NothingToMigrate }
    } else if !probe.old_root_has_content {
        MigrationState::Finished { outcome: MigrationOutcome::SourceEmpty }
    } else if probe.tmp_exists {
        MigrationState::Finished { outcome: MigrationOutcome::LeftoverTemporary }
    } else {
        MigrationState::MovingAside
    }
}

/// The action to take in `state`, `None` once the migration has ended.
pub fn pending_migration_action(state: MigrationState) -> (r: Option<MigrationAction>)
    ensures
        r == migration_action(state),
        r is None <==> state is Finished,
{
    match state {
        MigrationState::MovingAside => Some(MigrationAction::MoveOldAside),
        MigrationState::Recreating => Some(MigrationAction::RecreateParent),
        MigrationState::MovingIn => Some(MigrationAction::MoveIntoPlace),
        MigrationState::RollingBack { outcome } => match outcome {
            MigrationOutcome::MoveInFailed => Some(MigrationAction::DropParentAndRestoreOld),
            _ => Some(MigrationAction::RestoreOld),
        },
        MigrationState::Finished { outcome } => None,
    }
}

/// The state after the action of `state` was taken.
pub fn migration_step(state: MigrationState, ok: bool) -> (r: MigrationState)
    ensures
        r == migration_next(state, ok),
        !(state is Finished) ==> migration_rank(r) < migration_rank(state),
{
    match state {
        MigrationState::MovingAside => if ok {
            MigrationState::Recreating
        } else {
            MigrationState::Finished { outcome: MigrationOutcome::MoveAsideFailed }
        },
        MigrationState::Recreating => if ok {
            MigrationState::MovingIn
        } else {
            MigrationState::RollingBack { outcome: MigrationOutcome::RecreateFailed }
        },
        MigrationState::MovingIn => if ok {
            MigrationState::Finished { outcome: MigrationOutcome::Migrated }
        } else {
            MigrationState::RollingBack { outcome: MigrationOutcome::MoveInFailed }
        },
        MigrationState::RollingBack { outcome } => MigrationState::Finished { outcome },
        MigrationState::Finished { outcome } => state,
    }
}

/// A migration is through after four actions at most, and it ends as
/// migrated exactly where it began to move and each of its three steps
/// succeeded.
pub proof fn lemma_migration_ends(probe: MigrationProbe, ok1: bool, ok2: bool, ok3: bool, ok4: bool)
    ensures
        ({
            let s0 = migration_start(probe);
            let s1 = migration_next(s0, ok1);
            let s2 = migration_next(s1, ok2);
            let s3 = migration_next(s2, ok3);
            let s4 = migration_next(s3, ok4);
            &&& s4 is Finished
            &&& (s4 == MigrationState::Finished { outcome: MigrationOutcome::Migrated }) <==> (s0
                == MigrationState::MovingAside && ok1 && ok2 && ok3)
        }),
{
}

/// A migration that ended as migrated leaves a layout on which the next one
/// has nothing to do.
pub proof fn lemma_migration_guard(probe: MigrationProbe)
    requires
        probe.new_root_exists,
    ensures
        migration_start(probe) == (MigrationState::Finished {
            outcome: MigrationOutcome::NothingToMigrate,
        }),
{
}

/// What an older layout may have left in the workspace.
#[derive(Clone, Copy, Debug, PartialEq, Eq, Structural)]
pub struct LayoutProbe {
    pub agents_is_dir: bool,
    pub references_is_dir: bool,
    pub database_is_file: bool,
    pub root_instructions_is_file: bool,
    pub nested_instructions_is_file: bool,
}

/// The directory `name` where it was found, nothing else.
pub open spec fn dir_if(found: bool, name: Seq<char>) -> Seq<ArtifactModel> {
    if found {
        seq![ArtifactModel { path: name, is_dir: true }]
    } else {
        Seq::empty()
    }
}

/// The file `name` where it was found, nothing else.
pub open spec fn file_if(found: bool, name: Seq<char>) -> Seq<ArtifactModel> {
    if found {
        seq![ArtifactModel { path: name, is_dir: false }]
    } else {
        Seq::empty()
    }
}

/// What is to be removed from a workspace of an older layout: the two
/// directories and the database file that it had at its root, and the file
/// of instructions at the root once its new copy is in place.
pub open spec fn layout_cleanup(probe: LayoutProbe, instructions_file: Seq<char>) -> Seq<
    ArtifactModel,
> {
    dir_if(probe.agents_is_dir, "agents"@) + dir_if(probe.references_is_dir, "references"@)
        + file_if(probe.database_is_file, "vibedata.db"@) + file_if(
        probe.root_instructions_is_file && probe.nested_instructions_is_file,
        instructions_file,
    )
}

/// What is to be removed from the workspace, relative to it.
/// `instructions_file` is the name of the file of instructions that the
/// probe looked for.
pub fn migrate_workspace_layout(probe: LayoutProbe, instructions_file: &str) -> (r: Vec<Artifact>)
    ensures
        artifact_models(r@) == layout_cleanup(probe, instructions_file@),
{
    let mut out: Vec<Artifact> = Vec::new();
    if probe.agents_is_dir {
        out.push(Artifact { path: String::from_str("agents"), is_dir: true });
    }
    if probe.references_is_dir {
        out.push(Artifact { path: String::from_str("references"), is_dir: true });
    }
    if probe.database_is_file {
        out.push(Artifact { path: String::from_str("vibedata.db"), is_dir: false });
    }
    if probe.root_instructions_is_file && probe.nested_instructions_is_file {
        out.push(Artifact { path: String::from_str(instructions_file), is_dir: false });
    }
    assert(artifact_models(out@) =~= layout_cleanup(probe, instructions_file@));
    out
}

} // verus!
