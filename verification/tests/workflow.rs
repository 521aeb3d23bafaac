use skill_builder::catalog::{
    configured_step_ids, default_tools, get_step_config, get_step_output_files,
    nearest_configured, step_kind, StepKind, LAST_STEP,
};
use skill_builder::error::OrchestratorError;
use skill_builder::artifacts::delete_step_output_files;
use skill_builder::state::{
    get_step_status, record_step_progress, reset_workflow_step, save_workflow_state,
    save_workflow_step, RunEvent, StepStatusUpdate, WorkflowRun, WorkflowStateResponse,
    WorkflowStatus,
};
use skill_builder::workflow::{
    agent_id_at, build_prompt, join_parallel_agents, make_agent_id, millis_of_reading,
    plan_parallel_agents,
    plan_workflow_step, run_parallel_agents, run_workflow_step, settle_parallel_pair, start_agent,
    step_label, worker_result,
};

#[test]
fn test_get_step_config_valid_steps() {
    let valid_steps = [0, 3, 5, 6, 7, 8];
    for step_id in valid_steps {
        let config = get_step_config(step_id);
        assert!(config.is_ok(), "Step {} should be valid", step_id);
        let config = config.unwrap();
        assert_eq!(config.step_id, step_id);
        assert!(!config.prompt_template.is_empty());
        assert!(!config.model.is_empty());
    }
}

#[test]
fn test_get_step_config_invalid_step() {
    assert!(get_step_config(1).is_err());
    assert!(get_step_config(2).is_err());
    assert!(get_step_config(4).is_err());
    assert!(get_step_config(99).is_err());
}

#[test]
fn test_get_step_config_models() {
    assert_eq!(get_step_config(0).unwrap().model, "sonnet");
    assert_eq!(get_step_config(3).unwrap().model, "haiku");
    assert_eq!(get_step_config(5).unwrap().model, "opus");
    assert_eq!(get_step_config(6).unwrap().model, "sonnet");
}

#[test]
fn test_build_prompt() {
    let prompt = build_prompt(
        "01-research-domain-concepts.md",
        "context/clarifications-concepts.md",
        "my-skill",
        "e-commerce",
    );
    assert!(prompt.contains("prompts/shared-context.md"));
    assert!(prompt.contains("prompts/01-research-domain-concepts.md"));
    assert!(prompt.contains("e-commerce"));
    assert!(prompt.contains("my-skill"));
    assert!(prompt.contains("my-skill/context/clarifications-concepts.md"));
}

#[test]
fn test_make_agent_id() {
    let id = make_agent_id("test-skill", "step0");
    assert!(id.starts_with("test-skill-step0-"));
    let parts: Vec<&str> = id.rsplitn(2, '-').collect();
    assert!(parts[0].parse::<u128>().is_ok());
}

#[test]
fn test_delete_step_output_files_from_step_onwards() {
    // A rewind to step 3 takes the outputs of the steps 3 and later, and
    // leaves those of the steps 0 and 2.
    let plan = delete_step_output_files(true, "my-skill", 3);
    let paths: Vec<(&str, bool)> = plan.iter().map(|a| (a.path.as_str(), a.is_dir)).collect();
    assert!(!paths.contains(&("context/clarifications-concepts.md", false)));
    assert!(!paths.contains(&("context/clarifications-patterns.md", false)));
    assert!(paths.contains(&("context/clarifications.md", false)));
    assert!(paths.contains(&("context/decisions.md", false)));
    assert!(paths.contains(&("SKILL.md", false)));
    assert!(paths.contains(&("references", true)));
}

#[test]
fn test_delete_step_output_files_nonexistent_dir_is_ok() {
    let plan = delete_step_output_files(false, "no-skill", 0);
    assert!(plan.is_empty());
}

#[test]
fn build_prompt_exact_text() {
    let prompt = build_prompt("p.md", "out/o.md", "skill", "dom");
    assert_eq!(
        prompt,
        "Read prompts/shared-context.md and prompts/p.md and follow the instructions. \
         The domain is: dom. The skill name is: skill. Write output to skill/out/o.md."
    );
}

#[test]
fn agent_id_exact_text() {
    assert_eq!(agent_id_at("test-skill", "step0", 0), "test-skill-step0-0");
    assert_eq!(agent_id_at("s", "step2a", 1700000000123), "s-step2a-1700000000123");
    assert_eq!(
        agent_id_at("", "", u128::MAX),
        "--340282366920938463463374607431768211455"
    );
    assert_eq!(step_label(0), "step0");
    assert_eq!(step_label(4294967295), "step4294967295");
}

#[test]
fn catalog_entries_exact() {
    let tools = vec!["Read", "Write", "Edit", "Glob", "Grep", "Bash", "Task"];
    assert_eq!(default_tools(), tools);
    let expected = [
        (0u32, "Research Domain Concepts", "sonnet", "01-research-domain-concepts.md",
            "context/clarifications-concepts.md", 50u32),
        (3, "Merge Clarifications", "haiku", "04-merge-clarifications.md",
            "context/clarifications.md", 30),
        (5, "Reasoning", "opus", "06-reasoning-agent.md", "context/decisions.md", 100),
        (6, "Build", "sonnet", "07-build-agent.md", "SKILL.md", 80),
        (7, "Validate", "sonnet", "08-validate-agent.md", "context/agent-validation-log.md", 50),
        (8, "Test", "sonnet", "09-test-agent.md", "context/test-skill.md", 50),
    ];
    for (id, name, model, template, output, turns) in expected {
        let c = get_step_config(id).unwrap();
        assert_eq!(c.step_id, id);
        assert_eq!(c.name, name);
        assert_eq!(c.model, model);
        assert_eq!(c.prompt_template, template);
        assert_eq!(c.output_file, output);
        assert_eq!(c.allowed_tools, tools);
        assert_eq!(c.max_turns, turns);
    }
    assert_eq!(configured_step_ids(), vec![0, 3, 5, 6, 7, 8]);
    assert_eq!(LAST_STEP, 9);
}

#[test]
fn unknown_step_names_the_nearest() {
    let cases = [(1u32, 0u32), (2, 3), (4, 3), (9, 8), (99, 8), (u32::MAX, 8)];
    for (step_id, nearest) in cases {
        assert_eq!(nearest_configured(step_id), nearest);
        match get_step_config(step_id) {
            Err(OrchestratorError::StepNotConfigured { step_id: s, nearest: n }) => {
                assert_eq!(s, step_id);
                assert_eq!(n, nearest);
            }
            other => panic!("step {}: {:?}", step_id, other),
        }
    }
    for id in [0u32, 3, 5, 6, 7, 8] {
        assert_eq!(nearest_configured(id), id);
    }
    // The message names every configured step.
    let listed: Vec<String> = configured_step_ids().iter().map(|id| id.to_string()).collect();
    let told = get_step_config(2).unwrap_err().message();
    assert!(told.contains(&format!("the configured steps are {}.", listed.join(", "))));
    let e = get_step_config(4).unwrap_err();
    assert_eq!(
        e.message(),
        "Unknown step_id 4. The nearest configured step is 3; the configured steps are 0, 3, 5, 6, 7, 8. Use run_parallel_agents for step 2."
    );
}

#[test]
fn step_output_files_exact() {
    assert_eq!(get_step_output_files(0), vec!["context/clarifications-concepts.md"]);
    assert!(get_step_output_files(1).is_empty());
    assert_eq!(
        get_step_output_files(2),
        vec!["context/clarifications-patterns.md", "context/clarifications-data.md"]
    );
    assert_eq!(get_step_output_files(3), vec!["context/clarifications.md"]);
    assert!(get_step_output_files(4).is_empty());
    assert_eq!(get_step_output_files(5), vec!["context/decisions.md"]);
    assert_eq!(get_step_output_files(6), vec!["SKILL.md"]);
    assert_eq!(get_step_output_files(7), vec!["context/agent-validation-log.md"]);
    assert_eq!(get_step_output_files(8), vec!["context/test-skill.md"]);
    assert!(get_step_output_files(9).is_empty());
    assert!(get_step_output_files(10).is_empty());
}

#[test]
fn plan_step_copies_the_catalog() {
    let launch = plan_workflow_step(
        "my-skill",
        5,
        "retail",
        "/work".to_string(),
        None,
        Some("sk-key".to_string()),
        42,
    )
    .unwrap();
    assert_eq!(launch.agent_id, "my-skill-step5-42");
    let c = launch.config;
    assert_eq!(
        c.prompt,
        build_prompt("06-reasoning-agent.md", "context/decisions.md", "my-skill", "retail")
    );
    assert_eq!(c.model, "opus");
    assert_eq!(c.api_key, "sk-key");
    assert_eq!(c.cwd, "/work");
    assert_eq!(c.allowed_tools, Some(default_tools()));
    assert_eq!(c.max_turns, Some(100));
    assert_eq!(c.permission_mode.as_deref(), Some("bypassPermissions"));
    assert!(c.session_id.is_none());
}

#[test]
fn plan_step_fails_fast() {
    // The workspace that could not be prepared is told before the unknown
    // step, and the unknown step before the missing key.
    let broken = Some("Failed to create prompts directory: denied".to_string());
    let e = plan_workflow_step("s", 2, "d", "/w".to_string(), broken.clone(), None, 1).unwrap_err();
    assert!(matches!(e, OrchestratorError::OperationRefused { .. }));
    assert_eq!(e.message(), "Failed to create prompts directory: denied");
    let e = plan_workflow_step("s", 3, "d", "/w".to_string(), broken, Some("k".to_string()), 1)
        .unwrap_err();
    assert_eq!(e.message(), "Failed to create prompts directory: denied");
    let e = plan_workflow_step("s", 2, "d", "/w".to_string(), None, None, 1).unwrap_err();
    assert!(matches!(e, OrchestratorError::StepNotConfigured { step_id: 2, nearest: 3 }));
    let e = plan_workflow_step("s", 3, "d", "/w".to_string(), None, None, 1).unwrap_err();
    assert_eq!(e.message(), "Anthropic API key not configured");
    assert!(matches!(e, OrchestratorError::MissingSetting { .. }));
    let e = run_workflow_step("s", 4, "d", "/w".to_string(), None, Some("k".to_string()))
        .unwrap_err();
    assert!(matches!(e, OrchestratorError::StepNotConfigured { step_id: 4, nearest: 3 }));
    let launch =
        run_workflow_step("s", 0, "d", "/w".to_string(), None, Some("k".to_string())).unwrap();
    assert!(launch.agent_id.starts_with("s-step0-"));
}

#[test]
fn repeated_runs_get_fresh_ids() {
    let first = agent_id_at("my-skill", "step3", 1700000000000);
    let second = agent_id_at("my-skill", "step3", 1700000000001);
    assert_ne!(first, second);
    let mut seen = std::collections::HashSet::new();
    for millis in 0..2000u128 {
        assert!(seen.insert(agent_id_at("s", "step0", millis)));
    }
}

#[test]
fn start_agent_by_hand() {
    let config = start_agent(
        "do it".to_string(),
        "haiku".to_string(),
        "/w".to_string(),
        Some(vec!["Read".to_string()]),
        Some(3),
        Some("key".to_string()),
    )
    .unwrap();
    assert_eq!(config.prompt, "do it");
    assert_eq!(config.model, "haiku");
    assert_eq!(config.cwd, "/w");
    assert_eq!(config.api_key, "key");
    assert_eq!(config.allowed_tools, Some(vec!["Read".to_string()]));
    assert_eq!(config.max_turns, Some(3));
    assert!(config.permission_mode.is_none() && config.session_id.is_none());
    let e = start_agent("p".to_string(), "m".to_string(), "/w".to_string(), None, None, None)
        .unwrap_err();
    assert_eq!(e.message(), "Anthropic API key not configured");
}

#[test]
fn step_kinds() {
    let kinds = [
        StepKind::Worker,
        StepKind::ReviewGate,
        StepKind::ParallelResearch,
        StepKind::Worker,
        StepKind::ReviewGate,
        StepKind::Worker,
        StepKind::Worker,
        StepKind::Worker,
        StepKind::Worker,
        StepKind::Package,
        StepKind::Unknown,
    ];
    for (step_id, kind) in kinds.iter().enumerate() {
        let step_id = step_id as u32;
        assert_eq!(step_kind(step_id), *kind);
        assert_eq!(get_step_config(step_id).is_ok(), *kind == StepKind::Worker);
        if *kind == StepKind::ReviewGate || *kind == StepKind::Unknown {
            assert!(get_step_output_files(step_id).is_empty());
        }
    }
    assert_eq!(step_kind(u32::MAX), StepKind::Unknown);
}

#[test]
fn parallel_pair_invocations() {
    let pair =
        plan_parallel_agents("sk", "dom", "/w", None, Some("key".to_string()), 7, 7).unwrap();
    assert_eq!(pair.a.agent_id, "sk-step2a-7");
    assert_eq!(pair.b.agent_id, "sk-step2b-7");
    assert_ne!(pair.a.agent_id, pair.b.agent_id);
    assert_eq!(
        pair.a.config.prompt,
        build_prompt(
            "03a-research-business-patterns.md",
            "context/clarifications-patterns.md",
            "sk",
            "dom"
        )
    );
    assert_eq!(
        pair.b.config.prompt,
        build_prompt("03b-research-data-modeling.md", "context/clarifications-data.md", "sk", "dom")
    );
    for c in [&pair.a.config, &pair.b.config] {
        assert_eq!(c.model, "sonnet");
        assert_eq!(c.api_key, "key");
        assert_eq!(c.cwd, "/w");
        assert_eq!(c.allowed_tools, Some(default_tools()));
        assert_eq!(c.max_turns, Some(50));
        assert_eq!(c.permission_mode.as_deref(), Some("bypassPermissions"));
        assert!(c.session_id.is_none());
    }
    let e = plan_parallel_agents("sk", "dom", "/w", None, None, 7, 8).unwrap_err();
    assert_eq!(e.message(), "Anthropic API key not configured");
    let e = plan_parallel_agents("sk", "dom", "/w", Some("no prompts".to_string()), None, 7, 8)
        .unwrap_err();
    assert_eq!(e.message(), "no prompts");
    let now = run_parallel_agents("sk", "dom", "/w", None, Some("key".to_string())).unwrap();
    assert!(now.a.agent_id.starts_with("sk-step2a-"));
    assert!(now.b.agent_id.starts_with("sk-step2b-"));
}

#[test]
fn parallel_pair_first_fails_second_succeeds() {
    // The first worker exits with a failure and the second with success:
    // the pair reports failure, and the second keeps its own success.
    let settled = settle_parallel_pair(false, true);
    assert!(!settled.succeeded);
    assert_eq!(settled.status_a, WorkflowStatus::Failed);
    assert_eq!(settled.status_b, WorkflowStatus::Completed);

    // Each worker has its own row; both were started, then each ended.
    let mut state = WorkflowStateResponse { run: None, steps: Vec::new() };
    assert!(record_step_progress(&mut state, 20, None));
    assert!(record_step_progress(&mut state, 21, None));
    assert!(record_step_progress(&mut state, 20, Some(false)));
    assert!(record_step_progress(&mut state, 21, Some(true)));
    assert_eq!(get_step_status(&state.steps, 20), settled.status_a);
    assert_eq!(get_step_status(&state.steps, 21), settled.status_b);
    assert_eq!(get_step_status(&state.steps, 21), WorkflowStatus::Completed);

    let first = Err(OrchestratorError::SpawnFailed { reason: "worker a failed".to_string() });
    let joined = join_parallel_agents("a".to_string(), "b".to_string(), first, Ok(()));
    match joined {
        Err(OrchestratorError::SpawnFailed { reason }) => assert_eq!(reason, "worker a failed"),
        other => panic!("{:?}", other),
    }
}

#[test]
fn parallel_pair_outcomes() {
    let all = settle_parallel_pair(true, true);
    assert!(all.succeeded);
    assert_eq!(all.status_a, WorkflowStatus::Completed);
    assert_eq!(all.status_b, WorkflowStatus::Completed);
    let none = settle_parallel_pair(false, false);
    assert!(!none.succeeded);
    assert_eq!(none.status_a, WorkflowStatus::Failed);
    assert_eq!(none.status_b, WorkflowStatus::Failed);
    let second = settle_parallel_pair(true, false);
    assert!(!second.succeeded);
    assert_eq!(second.status_a, WorkflowStatus::Completed);
    assert_eq!(second.status_b, WorkflowStatus::Failed);

    let ok = join_parallel_agents("a".to_string(), "b".to_string(), Ok(()), Ok(())).unwrap();
    assert_eq!(ok.agent_id_a, "a");
    assert_eq!(ok.agent_id_b, "b");
    let both = join_parallel_agents(
        "a".to_string(),
        "b".to_string(),
        Err(OrchestratorError::SpawnFailed { reason: "first".to_string() }),
        Err(OrchestratorError::SpawnFailed { reason: "second".to_string() }),
    );
    assert_eq!(both.unwrap_err().message(), "first");
    let late = join_parallel_agents(
        "a".to_string(),
        "b".to_string(),
        Ok(()),
        Err(OrchestratorError::SpawnFailed { reason: "second".to_string() }),
    );
    assert_eq!(late.unwrap_err().message(), "second");
}

#[test]
fn status_words_and_transitions() {
    let all = [
        (WorkflowStatus::Pending, "pending"),
        (WorkflowStatus::InProgress, "in_progress"),
        (WorkflowStatus::Completed, "completed"),
        (WorkflowStatus::Failed, "failed"),
    ];
    for (status, word) in all {
        assert_eq!(status.as_str(), word);
        assert_eq!(WorkflowStatus::parse(word), Some(status));
        assert_eq!(status.advance(RunEvent::Reset), Some(WorkflowStatus::Pending));
    }
    assert_eq!(WorkflowStatus::parse("Pending"), None);
    assert_eq!(WorkflowStatus::from_stored("failed").unwrap(), WorkflowStatus::Failed);
    let e = WorkflowStatus::from_stored("done").unwrap_err();
    assert!(matches!(e, OrchestratorError::PersistenceError { .. }));
    assert_eq!(e.message(), "Unknown workflow status 'done'");
    assert_eq!(WorkflowStatus::parse(""), None);
    assert_eq!(
        WorkflowStatus::Pending.advance(RunEvent::Started),
        Some(WorkflowStatus::InProgress)
    );
    assert_eq!(
        WorkflowStatus::InProgress.advance(RunEvent::Finished { success: true }),
        Some(WorkflowStatus::Completed)
    );
    assert_eq!(
        WorkflowStatus::InProgress.advance(RunEvent::Finished { success: false }),
        Some(WorkflowStatus::Failed)
    );
    assert_eq!(WorkflowStatus::Completed.advance(RunEvent::Started), None);
    assert_eq!(WorkflowStatus::Pending.advance(RunEvent::Finished { success: true }), None);
    assert_eq!(WorkflowStatus::InProgress.advance(RunEvent::Started), None);
}

fn sample_state() -> WorkflowStateResponse {
    let mut state = WorkflowStateResponse { run: None, steps: Vec::new() };
    let rows = vec![
        StepStatusUpdate { step_id: 0, status: WorkflowStatus::Completed },
        StepStatusUpdate { step_id: 2, status: WorkflowStatus::Completed },
        StepStatusUpdate { step_id: 3, status: WorkflowStatus::Failed },
        StepStatusUpdate { step_id: 5, status: WorkflowStatus::InProgress },
    ];
    save_workflow_state(
        &mut state,
        "my-skill".to_string(),
        "retail".to_string(),
        5,
        WorkflowStatus::InProgress,
        &rows,
    );
    state
}

#[test]
fn save_state_upserts_rows() {
    let mut state = sample_state();
    let run = state.run.as_ref().unwrap();
    assert_eq!(run.skill_name, "my-skill");
    assert_eq!(run.domain, "retail");
    assert_eq!(run.current_step, 5);
    assert_eq!(run.status, WorkflowStatus::InProgress);
    assert_eq!(state.steps.len(), 4);
    save_workflow_step(&mut state.steps, 3, WorkflowStatus::Completed);
    save_workflow_step(&mut state.steps, 6, WorkflowStatus::Pending);
    assert_eq!(
        state.steps,
        vec![
            StepStatusUpdate { step_id: 0, status: WorkflowStatus::Completed },
            StepStatusUpdate { step_id: 2, status: WorkflowStatus::Completed },
            StepStatusUpdate { step_id: 3, status: WorkflowStatus::Completed },
            StepStatusUpdate { step_id: 5, status: WorkflowStatus::InProgress },
            StepStatusUpdate { step_id: 6, status: WorkflowStatus::Pending },
        ]
    );
}

#[test]
fn reset_rewinds_run_and_steps() {
    let mut state = sample_state();
    reset_workflow_step(&mut state, 3);
    let run = state.run.as_ref().unwrap();
    assert_eq!(run.current_step, 3);
    assert_eq!(run.status, WorkflowStatus::Pending);
    assert_eq!(run.skill_name, "my-skill");
    assert_eq!(run.domain, "retail");
    assert_eq!(
        state.steps,
        vec![
            StepStatusUpdate { step_id: 0, status: WorkflowStatus::Completed },
            StepStatusUpdate { step_id: 2, status: WorkflowStatus::Completed },
            StepStatusUpdate { step_id: 3, status: WorkflowStatus::Pending },
            StepStatusUpdate { step_id: 5, status: WorkflowStatus::Pending },
        ]
    );
    // Without a run none is made.
    let mut bare = WorkflowStateResponse {
        run: None,
        steps: vec![StepStatusUpdate { step_id: 9, status: WorkflowStatus::Failed }],
    };
    reset_workflow_step(&mut bare, u32::MAX);
    assert!(bare.run.is_none());
    assert_eq!(bare.steps[0].status, WorkflowStatus::Failed);
    let mut far = WorkflowStateResponse {
        run: Some(WorkflowRun {
            skill_name: "s".to_string(),
            domain: "d".to_string(),
            current_step: 1,
            status: WorkflowStatus::Completed,
        }),
        steps: Vec::new(),
    };
    reset_workflow_step(&mut far, u32::MAX);
    assert_eq!(far.run.unwrap().current_step, 4294967295);
}

#[test]
fn reset_plan_by_step() {
    let all = delete_step_output_files(true, "my-skill", 0);
    let paths: Vec<(&str, bool)> = all.iter().map(|a| (a.path.as_str(), a.is_dir)).collect();
    assert_eq!(
        paths,
        vec![
            ("context/clarifications-concepts.md", false),
            ("context/clarifications-patterns.md", false),
            ("context/clarifications-data.md", false),
            ("context/clarifications.md", false),
            ("context/decisions.md", false),
            ("SKILL.md", false),
            ("references", true),
            ("context/agent-validation-log.md", false),
            ("context/test-skill.md", false),
            ("my-skill.skill", false),
        ]
    );
    let last = delete_step_output_files(true, "my-skill", 9);
    assert_eq!(last.len(), 1);
    assert_eq!(last[0].path, "my-skill.skill");
    assert!(delete_step_output_files(true, "my-skill", 10).is_empty());
    assert!(delete_step_output_files(true, "my-skill", u32::MAX).is_empty());
    // For every step k: the outputs of earlier steps are kept, those of k and later go.
    for k in 0..=10u32 {
        let plan = delete_step_output_files(true, "s", k);
        for step in 0..=9u32 {
            for file in get_step_output_files(step) {
                let hit = plan.iter().any(|a| a.path == file);
                assert_eq!(hit, step >= k, "rewind to {}, step {}, {}", k, step, file);
            }
        }
    }
}

#[test]
fn step_progress_follows_the_state_machine() {
    let mut state = sample_state();
    // Step 6 has no row yet: it is pending, and a worker can be started.
    assert_eq!(get_step_status(&state.steps, 6), WorkflowStatus::Pending);
    assert!(!record_step_progress(&mut state, 6, Some(true)));
    assert_eq!(state.steps.len(), 4);
    assert_eq!(state.run.as_ref().unwrap().current_step, 5);
    assert!(record_step_progress(&mut state, 6, None));
    assert_eq!(get_step_status(&state.steps, 6), WorkflowStatus::InProgress);
    let run = state.run.as_ref().unwrap();
    assert_eq!((run.current_step, run.status), (6, WorkflowStatus::InProgress));
    assert_eq!(run.skill_name, "my-skill");
    assert_eq!(run.domain, "retail");
    // A second start is refused, and so is an end after the end.
    assert!(!record_step_progress(&mut state, 6, None));
    assert!(record_step_progress(&mut state, 6, Some(false)));
    assert_eq!(get_step_status(&state.steps, 6), WorkflowStatus::Failed);
    assert_eq!(state.run.as_ref().unwrap().status, WorkflowStatus::Failed);
    assert!(!record_step_progress(&mut state, 6, Some(true)));
    assert!(!record_step_progress(&mut state, 0, None));
    assert_eq!(get_step_status(&state.steps, 0), WorkflowStatus::Completed);
    // After a rewind the step can run again.
    reset_workflow_step(&mut state, 6);
    assert!(record_step_progress(&mut state, 6, None));
    assert!(record_step_progress(&mut state, 6, Some(true)));
    assert_eq!(get_step_status(&state.steps, 6), WorkflowStatus::Completed);
    assert_eq!(get_step_status(&state.steps, 5), WorkflowStatus::InProgress);
}

#[test]
fn clock_reading_before_the_epoch_counts_as_zero() {
    assert_eq!(millis_of_reading(None), 0);
    assert_eq!(millis_of_reading(Some(0)), 0);
    assert_eq!(millis_of_reading(Some(1700000000123)), 1700000000123);
    assert_eq!(millis_of_reading(Some(u128::MAX)), u128::MAX);
}

#[test]
fn worker_results() {
    assert!(worker_result("a", Ok(()), true).is_ok());
    let e = worker_result("sk-step2a-7", Ok(()), false).unwrap_err();
    assert!(matches!(e, OrchestratorError::OperationRefused { .. }));
    assert_eq!(e.message(), "Agent 'sk-step2a-7' exited with failure");
    for success in [true, false] {
        let launch = Err(OrchestratorError::SpawnFailed { reason: "no node".to_string() });
        let e = worker_result("a", launch, success).unwrap_err();
        assert!(matches!(e, OrchestratorError::SpawnFailed { .. }));
        assert_eq!(e.message(), "no node");
    }
    // The first worker fails, the second does well: the pair fails with the
    // failure of the first.
    let pair = join_parallel_agents(
        "a".to_string(),
        "b".to_string(),
        worker_result("a", Ok(()), false),
        worker_result("b", Ok(()), true),
    );
    assert_eq!(pair.unwrap_err().message(), "Agent 'a' exited with failure");
}
