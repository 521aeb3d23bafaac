use skill_builder::workspace::{
    migrate_to_skill_builder_subdir, migrate_workspace_layout, migrating_name, migration_step,
    pending_migration_action, resolve_workspace_path, LayoutProbe, MigrationAction,
    MigrationOutcome, MigrationProbe, MigrationState, WORKSPACE_PARENT, WORKSPACE_SUBDIR,
};

fn probe(old_dir: bool, new_exists: bool, content: bool, tmp: bool) -> MigrationProbe {
    MigrationProbe {
        old_root_is_dir: old_dir,
        new_root_exists: new_exists,
        old_root_has_content: content,
        tmp_exists: tmp,
    }
}

fn run(probe: MigrationProbe, results: &[bool]) -> (MigrationState, Vec<MigrationAction>) {
    let mut state = migrate_to_skill_builder_subdir(probe);
    let mut actions = Vec::new();
    let mut next = 0;
    while let Some(action) = pending_migration_action(state) {
        actions.push(action);
        let ok = results.get(next).copied().unwrap_or(true);
        next += 1;
        state = migration_step(state, ok);
    }
    (state, actions)
}

#[test]
fn test_resolve_workspace_path() {
    let path = resolve_workspace_path().join("/");
    assert!(
        path.ends_with(".vibedata/skill-builder"),
        "expected path ending in .vibedata/skill-builder, got {}",
        path
    );
}

#[test]
fn test_migrate_happy_path() {
    let (state, actions) = run(probe(true, false, true, false), &[true, true, true]);
    assert_eq!(state, MigrationState::Finished { outcome: MigrationOutcome::Migrated });
    assert_eq!(
        actions,
        vec![
            MigrationAction::MoveOldAside,
            MigrationAction::RecreateParent,
            MigrationAction::MoveIntoPlace
        ]
    );
}

#[test]
fn test_migrate_skips_if_already_migrated() {
    let (state, actions) = run(probe(true, true, true, false), &[]);
    assert_eq!(state, MigrationState::Finished { outcome: MigrationOutcome::NothingToMigrate });
    assert!(actions.is_empty());
}

#[test]
fn test_migrate_skips_if_old_dir_absent() {
    let (state, actions) = run(probe(false, false, false, false), &[]);
    assert_eq!(state, MigrationState::Finished { outcome: MigrationOutcome::NothingToMigrate });
    assert!(actions.is_empty());
}

#[test]
fn test_migrate_skips_if_old_dir_empty() {
    let (state, actions) = run(probe(true, false, false, false), &[]);
    assert_eq!(state, MigrationState::Finished { outcome: MigrationOutcome::SourceEmpty });
    assert!(actions.is_empty());
}

#[test]
fn test_migrate_skips_if_tmp_exists() {
    let (state, actions) = run(probe(true, false, true, true), &[]);
    assert_eq!(state, MigrationState::Finished { outcome: MigrationOutcome::LeftoverTemporary });
    assert!(actions.is_empty());
}

#[test]
fn migration_rolls_back_by_checkpoint() {
    let start = probe(true, false, true, false);
    let (state, actions) = run(start, &[false]);
    assert_eq!(state, MigrationState::Finished { outcome: MigrationOutcome::MoveAsideFailed });
    assert_eq!(actions, vec![MigrationAction::MoveOldAside]);

    let (state, actions) = run(start, &[true, false, false]);
    assert_eq!(state, MigrationState::Finished { outcome: MigrationOutcome::RecreateFailed });
    assert_eq!(
        actions,
        vec![
            MigrationAction::MoveOldAside,
            MigrationAction::RecreateParent,
            MigrationAction::RestoreOld
        ]
    );

    let (state, actions) = run(start, &[true, true, false, true]);
    assert_eq!(state, MigrationState::Finished { outcome: MigrationOutcome::MoveInFailed });
    assert_eq!(
        actions,
        vec![
            MigrationAction::MoveOldAside,
            MigrationAction::RecreateParent,
            MigrationAction::MoveIntoPlace,
            MigrationAction::DropParentAndRestoreOld
        ]
    );
}

#[test]
fn migration_states_step_by_step() {
    assert_eq!(migration_step(MigrationState::MovingAside, true), MigrationState::Recreating);
    assert_eq!(migration_step(MigrationState::Recreating, true), MigrationState::MovingIn);
    let done = MigrationState::Finished { outcome: MigrationOutcome::Migrated };
    assert_eq!(migration_step(MigrationState::MovingIn, true), done);
    assert_eq!(migration_step(done, true), done);
    assert_eq!(migration_step(done, false), done);
    assert_eq!(pending_migration_action(done), None);
    // A new layout that is there wins over everything else.
    for old_dir in [false, true] {
        for content in [false, true] {
            for tmp in [false, true] {
                assert_eq!(
                    migrate_to_skill_builder_subdir(probe(old_dir, true, content, tmp)),
                    MigrationState::Finished { outcome: MigrationOutcome::NothingToMigrate }
                );
            }
        }
    }
}

#[test]
fn workspace_names() {
    assert_eq!(WORKSPACE_PARENT, ".vibedata");
    assert_eq!(WORKSPACE_SUBDIR, "skill-builder");
    assert_eq!(migrating_name(), ".vibedata-migrating");
    assert_eq!(resolve_workspace_path(), vec![".vibedata", "skill-builder"]);
}

#[test]
fn layout_cleanup_by_probe() {
    let none = LayoutProbe {
        agents_is_dir: false,
        references_is_dir: false,
        database_is_file: false,
        root_instructions_is_file: true,
        nested_instructions_is_file: false,
    };
    assert!(migrate_workspace_layout(none, "GUIDE.md").is_empty());
    let all = LayoutProbe {
        agents_is_dir: true,
        references_is_dir: true,
        database_is_file: true,
        root_instructions_is_file: true,
        nested_instructions_is_file: true,
    };
    let plan: Vec<(String, bool)> =
        migrate_workspace_layout(all, "GUIDE.md").into_iter().map(|a| (a.path, a.is_dir)).collect();
    assert_eq!(
        plan,
        vec![
            ("agents".to_string(), true),
            ("references".to_string(), true),
            ("vibedata.db".to_string(), false),
            ("GUIDE.md".to_string(), false)
        ]
    );
    let nested_only = LayoutProbe { root_instructions_is_file: false, ..all };
    assert_eq!(migrate_workspace_layout(nested_only, "GUIDE.md").len(), 3);
}
