use skill_builder::workflow_state::{
    apply_capture, parse_workflow_state, set_field, workflow_state_from_captures, WorkflowState,
    STATE_PATTERN,
};

#[test]
fn test_parse_valid_state() {
    let content = r#"## Workflow State
- **Skill name**: sales-pipeline
- **Domain**: sales pipeline analysis
- **Current step**: Step 3: Research Patterns & Data Modeling
- **Status**: in_progress
- **Completed steps**: Initialization, Step 1, Step 2
- **Timestamp**: 2025-05-01 14:30:00
- **Notes**: Waiting for parallel agents to complete
"#;
    let state = parse_workflow_state(content);
    assert_eq!(state.skill_name.as_deref(), Some("sales-pipeline"));
    assert_eq!(state.domain.as_deref(), Some("sales pipeline analysis"));
    assert_eq!(
        state.current_step.as_deref(),
        Some("Step 3: Research Patterns & Data Modeling")
    );
    assert_eq!(state.status.as_deref(), Some("in_progress"));
    assert_eq!(
        state.completed_steps.as_deref(),
        Some("Initialization, Step 1, Step 2")
    );
    assert_eq!(state.timestamp.as_deref(), Some("2025-05-01 14:30:00"));
    assert_eq!(
        state.notes.as_deref(),
        Some("Waiting for parallel agents to complete")
    );
}

#[test]
fn test_parse_empty_content() {
    let state = parse_workflow_state("");
    assert!(state.skill_name.is_none());
    assert!(state.domain.is_none());
    assert!(state.current_step.is_none());
    assert!(state.status.is_none());
    assert!(state.completed_steps.is_none());
    assert!(state.timestamp.is_none());
    assert!(state.notes.is_none());
}

#[test]
fn test_parse_missing_keys() {
    let content = r#"## Workflow State
- **Skill name**: hr-analytics
- **Domain**: HR analytics
"#;
    let state = parse_workflow_state(content);
    assert_eq!(state.skill_name.as_deref(), Some("hr-analytics"));
    assert_eq!(state.domain.as_deref(), Some("HR analytics"));
    assert!(state.current_step.is_none());
    assert!(state.status.is_none());
    assert!(state.completed_steps.is_none());
    assert!(state.timestamp.is_none());
    assert!(state.notes.is_none());
}

#[test]
fn test_parse_extra_whitespace() {
    let content = r#"## Workflow State
- **Skill name**:   extra-spaces-skill
- **Domain**:   financial planning
- **Status**:   completed
"#;
    let state = parse_workflow_state(content);
    assert_eq!(state.skill_name.as_deref(), Some("extra-spaces-skill"));
    assert_eq!(state.domain.as_deref(), Some("financial planning"));
    assert_eq!(state.status.as_deref(), Some("completed"));
}

#[test]
fn keys_are_read_without_case_and_space() {
    let state = parse_workflow_state("** STATUS **: done  \n**NoTeS**:\tx y\t\n**Other**: z\n");
    assert_eq!(state.status.as_deref(), Some("done"));
    assert_eq!(state.notes.as_deref(), Some("x y"));
    assert!(state.skill_name.is_none());
    assert!(state.domain.is_none());
}

#[test]
fn later_line_wins() {
    let state = parse_workflow_state("**Status**: first\n**Status**: second\n");
    assert_eq!(state.status.as_deref(), Some("second"));
}

#[test]
fn state_pattern_text() {
    assert_eq!(STATE_PATTERN, r"\*\*([^*]+)\*\*:\s*(.+)");
}

#[test]
fn fields_by_key() {
    let mut state = WorkflowState::default();
    set_field(&mut state, "skill name", "a".to_string());
    set_field(&mut state, "domain", "b".to_string());
    set_field(&mut state, "current step", "c".to_string());
    set_field(&mut state, "status", "d".to_string());
    set_field(&mut state, "completed steps", "e".to_string());
    set_field(&mut state, "timestamp", "f".to_string());
    set_field(&mut state, "notes", "g".to_string());
    set_field(&mut state, "Skill name", "ignored".to_string());
    set_field(&mut state, "", "ignored".to_string());
    assert_eq!(state.skill_name.as_deref(), Some("a"));
    assert_eq!(state.domain.as_deref(), Some("b"));
    assert_eq!(state.current_step.as_deref(), Some("c"));
    assert_eq!(state.status.as_deref(), Some("d"));
    assert_eq!(state.completed_steps.as_deref(), Some("e"));
    assert_eq!(state.timestamp.as_deref(), Some("f"));
    assert_eq!(state.notes.as_deref(), Some("g"));
}

#[test]
fn captures_without_both_groups_are_passed_over() {
    let text = |s: &str| Some(s.to_string());
    let mut state = WorkflowState::default();
    apply_capture(&mut state, &vec![text("**Status**: x")]);
    apply_capture(&mut state, &vec![text("whole"), None, text("x")]);
    apply_capture(&mut state, &vec![text("whole"), text("status"), None]);
    assert!(state.status.is_none());
    apply_capture(&mut state, &vec![text("whole"), text(" Status "), text(" x ")]);
    assert_eq!(state.status.as_deref(), Some("x"));

    let state = workflow_state_from_captures(&vec![
        vec![text("w"), text("Domain"), text("one")],
        vec![text("w")],
        vec![text("w"), text("DOMAIN"), text("two"), text("extra")],
        vec![text("w"), text("Notes"), text("n")],
    ]);
    assert_eq!(state.domain.as_deref(), Some("two"));
    assert_eq!(state.notes.as_deref(), Some("n"));
    assert!(state.status.is_none());
}
