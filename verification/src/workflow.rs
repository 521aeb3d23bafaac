//! The launches of the workflow engine: what the worker of a step is told,
//! under which agent id it runs, and how the two workers of the parallel
//! step are started and settled.

use vstd::prelude::*;
use vstd::string::*;
use crate::catalog::{
    default_tool_names, default_tools, get_step_config, is_nearest_configured, step_table,
    StepConfig, StepConfigModel,
};
use crate::error::OrchestratorError;
use crate::sidecar::{SidecarConfig, SidecarConfigModel};
use crate::state::{finished_status, WorkflowStatus};
use crate::text::{decimal, push_decimal};

verus! {

/// What a worker is asked to do for one step.
pub open spec fn prompt_text(
    prompt_file: Seq<char>,
    output_file: Seq<char>,
    skill_name: Seq<char>,
    domain: Seq<char>,
) -> Seq<char> {
    "Read prompts/shared-context.md and prompts/"@ + prompt_file
        + " and follow the instructions. The domain is: "@ + domain + ". The skill name is: "@
        + skill_name + ". Write output to "@ + skill_name + "/"@ + output_file + "."@
}

/// The prompt of a step: where its instructions lie, the domain, the skill
/// and where the output goes.
pub fn build_prompt(prompt_file: &str, output_file: &str, skill_name: &str, domain: &str) -> (r:
    String)
    ensures
        r@ == prompt_text(prompt_file@, output_file@, skill_name@, domain@),
{
    let mut s = String::from_str("Read prompts/shared-context.md and prompts/");
    s.append(prompt_file);
    s.append(" and follow the instructions. The domain is: ");
    s.append(domain);
    s.append(". The skill name is: ");
    s.append(skill_name);
    s.append(". Write output to ");
    s.append(skill_name);
    s.append("/");
    s.append(output_file);
    s.append(".");
    s
}

/// The agent id of a run of `label` for `skill_name` that began `millis`
/// milliseconds after the Unix epoch.
pub open spec fn agent_id_text(skill_name: Seq<char>, label: Seq<char>, millis: nat) -> Seq<char> {
    skill_name + "-"@ + label + "-"@ + decimal(millis)
}

/// The agent id of a run of `label` for `skill_name` that began at
/// `millis`.
pub fn agent_id_at(skill_name: &str, label: &str, millis: u128) -> (r: String)
    ensures
        r@ == agent_id_text(skill_name@, label@, millis as nat),
{
    let mut s = String::from_str(skill_name);
    s.append("-");
    s.append(label);
    s.append("-");
    push_decimal(&mut s, millis);
    s
}

/// `std::time::SystemTime::now`, as the milliseconds since the Unix epoch,
/// `None` where the clock stands before the epoch. Nothing is claimed of
/// the reading.
#[verifier::external_body]
fn unix_millis_now() -> Option<u128> {
    std::time::SystemTime::now().duration_since(std::time::UNIX_EPOCH).ok().map(|d| d.as_millis())
}

/// The milliseconds since the Unix epoch by the system clock, zero where
/// the clock stands before the epoch.
fn current_millis() -> u128 {
    millis_of_reading(unix_millis_now())
}

/// The milliseconds that a reading of the clock stands for: the reading
/// itself, zero where the clock stood before the epoch.
pub open spec fn reading_millis(reading: Option<u128>) -> u128 {
    match reading {
        Some(millis) => millis,
        None => 0,
    }
}

/// The milliseconds since the Unix epoch that a reading of the clock gives.
pub fn millis_of_reading(reading: Option<u128>) -> (r: u128)
    ensures
        r == reading_millis(reading),
{
    match reading {
        Some(millis) => millis,
        None => 0,
    }
}

/// A fresh agent id for a run of `label` for `skill_name`: the two names and
/// the time of the call, so that a run that begins at another time gets
/// another id.
pub fn make_agent_id(skill_name: &str, label: &str) -> (r: String)
    ensures
        exists|millis: u128| r@ == agent_id_text(skill_name@, label@, millis as nat),
{
    let millis = current_millis();
    agent_id_at(skill_name, label, millis)
}

/// The label of a step in its agent id.
pub open spec fn step_label_text(step_id: u32) -> Seq<char> {
    "step"@ + decimal(step_id as nat)
}

/// The label of the step `step_id` in its agent id.
pub fn step_label(step_id: u32) -> (r: String)
    ensures
        r@ == step_label_text(step_id),
{
    let mut s = String::from_str("step");
    push_decimal(&mut s, step_id as u128);
    s
}

/// The configuration of a worker that runs without asking for permissions,
/// with the catalog's tools and turn budget.
pub open spec fn invocation_model(
    prompt: Seq<char>,
    model: Seq<char>,
    api_key: Seq<char>,
    cwd: Seq<char>,
    allowed_tools: Seq<Seq<char>>,
    max_turns: u32,
) -> SidecarConfigModel {
    SidecarConfigModel {
        prompt,
        model,
        api_key,
        cwd,
        allowed_tools: Some(allowed_tools),
        max_turns: Some(max_turns),
        permission_mode: Some("bypassPermissions"@),
        session_id: None,
    }
}

/// What the worker of a catalog step is told.
pub open spec fn step_invocation_model(
    step: StepConfigModel,
    api_key: Seq<char>,
    skill_name: Seq<char>,
    domain: Seq<char>,
    workspace_path: Seq<char>,
) -> SidecarConfigModel {
    invocation_model(
        prompt_text(step.prompt_template, step.output_file, skill_name, domain),
        step.model,
        api_key,
        workspace_path,
        step.allowed_tools,
        step.max_turns,
    )
}

/// The worker invocation of a catalog step: the prompt from the step's
/// template, the tools and the turn budget as the catalog has them.
pub fn step_invocation(
    step: StepConfig,
    api_key: String,
    skill_name: &str,
    domain: &str,
    workspace_path: String,
) -> (r: SidecarConfig)
    ensures
        r@ == step_invocation_model(step@, api_key@, skill_name@, domain@, workspace_path@),
{
    let prompt = build_prompt(
        step.prompt_template.as_str(),
        step.output_file.as_str(),
        skill_name,
        domain,
    );
    SidecarConfig {
        prompt,
        model: step.model,
        api_key,
        cwd: workspace_path,
        allowed_tools: Some(step.allowed_tools),
        max_turns: Some(step.max_turns),
        permission_mode: Some(String::from_str("bypassPermissions")),
        session_id: None,
    }
}

/// The stored API key, or the failure that tells the user to set one.
pub fn read_api_key(anthropic_api_key: Option<String>) -> (r: Result<String, OrchestratorError>)
    ensures
        match r {
            Ok(key) => anthropic_api_key == Some(key),
            Err(e) => anthropic_api_key is None && (e matches OrchestratorError::MissingSetting {
                reason,
            } && reason@ == "Anthropic API key not configured"@),
        },
{
    match anthropic_api_key {
        Some(key) => Ok(key),
        None => Err(
            OrchestratorError::MissingSetting {
                reason: String::from_str("Anthropic API key not configured"),
            },
        ),
    }
}

/// What a worker that the user starts by hand is told: the prompt, the
/// model and the limits as given, with the stored API key.
pub fn start_agent(
    prompt: String,
    model: String,
    cwd: String,
    allowed_tools: Option<Vec<String>>,
    max_turns: Option<u32>,
    anthropic_api_key: Option<String>,
) -> (r: Result<SidecarConfig, OrchestratorError>)
    ensures
        match r {
            Ok(config) => anthropic_api_key == Some(config.api_key) && config.prompt == prompt
                && config.model == model && config.cwd == cwd && config.allowed_tools
                == allowed_tools && config.max_turns == max_turns && config.permission_mode is None
                && config.session_id is None,
            Err(e) => anthropic_api_key is None && (e matches OrchestratorError::MissingSetting {
                reason,
            } && reason@ == "Anthropic API key not configured"@),
        },
{
    let api_key = match read_api_key(anthropic_api_key) {
        Ok(key) => key,
        Err(e) => {
            return Err(e);
        },
    };
    Ok(
        SidecarConfig {
            prompt,
            model,
            api_key,
            cwd,
            allowed_tools,
            max_turns,
            permission_mode: None,
            session_id: None,
        },
    )
}

/// A worker that is ready to be started: its agent id and what it is told.
#[derive(Debug)]
pub struct StepLaunch {
    pub agent_id: String,
    pub config: SidecarConfig,
}

/// What `plan_workflow_step` gives for a call at `millis`.
pub open spec fn step_launch_ok(
    launch: StepLaunch,
    skill_name: Seq<char>,
    step_id: u32,
    domain: Seq<char>,
    workspace_path: Seq<char>,
    api_key: Seq<char>,
    millis: nat,
) -> bool {
    &&& step_table(step_id) is Some
    &&& launch.agent_id@ == agent_id_text(skill_name, step_label_text(step_id), millis)
    &&& launch.config@ == step_invocation_model(
        step_table(step_id)->0,
        api_key,
        skill_name,
        domain,
        workspace_path,
    )
}

/// The failure for a launch that cannot be made, by the first of its
/// causes: the workspace could not be prepared, the step has no catalog
/// entry, or no API key is stored.
pub open spec fn launch_refused(
    e: OrchestratorError,
    workspace_failure: Option<String>,
    step_id: Option<u32>,
) -> bool {
    if workspace_failure is Some {
        e matches OrchestratorError::OperationRefused { reason } && reason@
            == workspace_failure->0@
    } else if step_id is Some && step_table(step_id->0) is None {
        e matches OrchestratorError::StepNotConfigured { step_id: s, nearest: n } && s
            == step_id->0 && is_nearest_configured(s, n)
    } else {
        e matches OrchestratorError::MissingSetting { reason } && reason@
            == "Anthropic API key not configured"@
    }
}

/// The failure of a workspace that could not be prepared for a worker.
pub fn check_workspace(workspace_failure: Option<String>) -> (r: Result<(), OrchestratorError>)
    ensures
        r is Ok <==> workspace_failure is None,
        r matches Err(e) ==> (e matches OrchestratorError::OperationRefused { reason } && reason@
            == workspace_failure->0@),
{
    match workspace_failure {
        None => Ok(()),
        Some(reason) => Err(OrchestratorError::OperationRefused { reason }),
    }
}

/// The launch of the step `step_id` at the time `millis`.
/// `workspace_failure` tells why the workspace could not be prepared, where
/// it could not. The launch fails fast: on the workspace first, on a step
/// without a catalog entry second, on a missing API key third.
pub fn plan_workflow_step(
    skill_name: &str,
    step_id: u32,
    domain: &str,
    workspace_path: String,
    workspace_failure: Option<String>,
    anthropic_api_key: Option<String>,
    millis: u128,
) -> (r: Result<StepLaunch, OrchestratorError>)
    ensures
        r is Ok <==> (workspace_failure is None && step_table(step_id) is Some
            && anthropic_api_key is Some),
        match r {
            Ok(launch) => step_launch_ok(
                launch,
                skill_name@,
                step_id,
                domain@,
                workspace_path@,
                anthropic_api_key->0@,
                millis as nat,
            ),
            Err(e) => launch_refused(e, workspace_failure, Some(step_id)),
        },
{
    match check_workspace(workspace_failure) {
        Ok(()) => {},
        Err(e) => {
            return Err(e);
        },
    }
    let step = match get_step_config(step_id) {
        Ok(step) => step,
        Err(e) => {
            return Err(e);
        },
    };
    let api_key = match read_api_key(anthropic_api_key) {
        Ok(key) => key,
        Err(e) => {
            return Err(e);
        },
    };
    let label = step_label(step_id);
    let agent_id = agent_id_at(skill_name, label.as_str(), millis);
    let config = step_invocation(step, api_key, skill_name, domain, workspace_path);
    Ok(StepLaunch { agent_id, config })
}

/// The launch of the step `step_id` now: as `plan_workflow_step` at the
/// reading of the system clock.
pub fn run_workflow_step(
    skill_name: &str,
    step_id: u32,
    domain: &str,
    workspace_path: String,
    workspace_failure: Option<String>,
    anthropic_api_key: Option<String>,
) -> (r: Result<StepLaunch, OrchestratorError>)
    ensures
        r is Ok <==> (workspace_failure is None && step_table(step_id) is Some
            && anthropic_api_key is Some),
        match r {
            Ok(launch) => exists|millis: u128|
                step_launch_ok(
                    launch,
                    skill_name@,
                    step_id,
                    domain@,
                    workspace_path@,
                    anthropic_api_key->0@,
                    millis as nat,
                ),
            Err(e) => launch_refused(e, workspace_failure, Some(step_id)),
        },
{
    let millis = current_millis();
    plan_workflow_step(
        skill_name,
        step_id,
        domain,
        workspace_path,
        workspace_failure,
        anthropic_api_key,
        millis,
    )
}

/// Two runs of one step of one skill that begin at different times have
/// different agent ids.
pub proof fn lemma_agent_ids_differ(
    skill_name: Seq<char>,
    label: Seq<char>,
    millis_a: nat,
    millis_b: nat,
)
    requires
        millis_a != millis_b,
    ensures
        agent_id_text(skill_name, label, millis_a) != agent_id_text(skill_name, label, millis_b),
{
    let head = skill_name + "-"@ + label + "-"@;
    let a = agent_id_text(skill_name, label, millis_a);
    let b = agent_id_text(skill_name, label, millis_b);
    if a == b {
        assert(a.subrange(head.len() as int, a.len() as int) =~= decimal(millis_a));
        assert(b.subrange(head.len() as int, b.len() as int) =~= decimal(millis_b));
        crate::text::lemma_decimal_injective(millis_a, millis_b);
    }
}

/// The two workers of step 2, each ready to be started.
#[derive(Debug)]
pub struct ParallelLaunch {
    pub a: StepLaunch,
    pub b: StepLaunch,
}

/// The agent ids under which the two workers of step 2 run.
#[derive(Debug)]
pub struct ParallelAgentResult {
    pub agent_id_a: String,
    pub agent_id_b: String,
}

/// What the first worker of step 2 is told: research on business patterns.
pub open spec fn pattern_invocation_model(
    api_key: Seq<char>,
    skill_name: Seq<char>,
    domain: Seq<char>,
    workspace_path: Seq<char>,
) -> SidecarConfigModel {
    invocation_model(
        prompt_text(
            "03a-research-business-patterns.md"@,
            "context/clarifications-patterns.md"@,
            skill_name,
            domain,
        ),
        "sonnet"@,
        api_key,
        workspace_path,
        default_tool_names(),
        50,
    )
}

/// What the second worker of step 2 is told: research on data modeling.
pub open spec fn data_invocation_model(
    api_key: Seq<char>,
    skill_name: Seq<char>,
    domain: Seq<char>,
    workspace_path: Seq<char>,
) -> SidecarConfigModel {
    invocation_model(
        prompt_text(
            "03b-research-data-modeling.md"@,
            "context/clarifications-data.md"@,
            skill_name,
            domain,
        ),
        "sonnet"@,
        api_key,
        workspace_path,
        default_tool_names(),
        50,
    )
}

/// What `plan_parallel_agents` gives where the two agent ids are made at
/// `millis_a` and `millis_b`.
pub open spec fn parallel_launch_ok(
    launch: ParallelLaunch,
    skill_name: Seq<char>,
    domain: Seq<char>,
    workspace_path: Seq<char>,
    api_key: Seq<char>,
    millis_a: nat,
    millis_b: nat,
) -> bool {
    &&& launch.a.agent_id@ == agent_id_text(skill_name, "step2a"@, millis_a)
    &&& launch.b.agent_id@ == agent_id_text(skill_name, "step2b"@, millis_b)
    &&& launch.a.config@ == pattern_invocation_model(api_key, skill_name, domain, workspace_path)
    &&& launch.b.config@ == data_invocation_model(api_key, skill_name, domain, workspace_path)
}

/// The launches of the two workers of step 2, which run side by side.
pub fn plan_parallel_agents(
    skill_name: &str,
    domain: &str,
    workspace_path: &str,
    workspace_failure: Option<String>,
    anthropic_api_key: Option<String>,
    millis_a: u128,
    millis_b: u128,
) -> (r: Result<ParallelLaunch, OrchestratorError>)
    ensures
        r is Ok <==> (workspace_failure is None && anthropic_api_key is Some),
        match r {
            Ok(launch) => parallel_launch_ok(
                launch,
                skill_name@,
                domain@,
                workspace_path@,
                anthropic_api_key->0@,
                millis_a as nat,
                millis_b as nat,
            ),
            Err(e) => launch_refused(e, workspace_failure, None),
        },
{
    match check_workspace(workspace_failure) {
        Ok(()) => {},
        Err(e) => {
            return Err(e);
        },
    }
    let api_key = match read_api_key(anthropic_api_key) {
        Ok(key) => key,
        Err(e) => {
            return Err(e);
        },
    };
    let agent_id_a = agent_id_at(skill_name, "step2a", millis_a);
    let agent_id_b = agent_id_at(skill_name, "step2b", millis_b);
    let config_a = SidecarConfig {
        prompt: build_prompt(
            "03a-research-business-patterns.md",
            "context/clarifications-patterns.md",
            skill_name,
            domain,
        ),
        model: String::from_str("sonnet"),
        api_key: api_key.clone(),
        cwd: String::from_str(workspace_path),
        allowed_tools: Some(default_tools()),
        max_turns: Some(50),
        permission_mode: Some(String::from_str("bypassPermissions")),
        session_id: None,
    };
    let config_b = SidecarConfig {
        prompt: build_prompt(
            "03b-research-data-modeling.md",
            "context/clarifications-data.md",
            skill_name,
            domain,
        ),
        model: String::from_str("sonnet"),
        api_key,
        cwd: String::from_str(workspace_path),
        allowed_tools: Some(default_tools()),
        max_turns: Some(50),
        permission_mode: Some(String::from_str("bypassPermissions")),
        session_id: None,
    };
    Ok(
        ParallelLaunch {
            a: StepLaunch { agent_id: agent_id_a, config: config_a },
            b: StepLaunch { agent_id: agent_id_b, config: config_b },
        },
    )
}

/// The launches of the two workers of step 2 now: as
/// `plan_parallel_agents` at two readings of the system clock.
pub fn run_parallel_agents(
    skill_name: &str,
    domain: &str,
    workspace_path: &str,
    workspace_failure: Option<String>,
    anthropic_api_key: Option<String>,
) -> (r: Result<ParallelLaunch, OrchestratorError>)
    ensures
        r is Ok <==> (workspace_failure is None && anthropic_api_key is Some),
        match r {
            Ok(launch) => exists|millis_a: u128, millis_b: u128|
                parallel_launch_ok(
                    launch,
                    skill_name@,
                    domain@,
                    workspace_path@,
                    anthropic_api_key->0@,
                    millis_a as nat,
                    millis_b as nat,
                ),
            Err(e) => launch_refused(e, workspace_failure, None),
        },
{
    let millis_a = current_millis();
    let millis_b = current_millis();
    plan_parallel_agents(
        skill_name,
        domain,
        workspace_path,
        workspace_failure,
        anthropic_api_key,
        millis_a,
        millis_b,
    )
}

/// The two workers of step 2 never share an agent id, whenever each id was
/// made.
pub proof fn lemma_parallel_ids_differ(skill_name: Seq<char>, millis_a: nat, millis_b: nat)
    ensures
        agent_id_text(skill_name, "step2a"@, millis_a) != agent_id_text(
            skill_name,
            "step2b"@,
            millis_b,
        ),
{
    reveal_strlit("step2a");
    reveal_strlit("step2b");
    reveal_strlit("-");
    let a = agent_id_text(skill_name, "step2a"@, millis_a);
    let b = agent_id_text(skill_name, "step2b"@, millis_b);
    let at: int = skill_name.len() as int + 6;
    assert(a[at] == 'a');
    assert(b[at] == 'b');
}

/// The message for a worker that ran and ended with a failure.
pub open spec fn worker_failed_text(agent_id: Seq<char>) -> Seq<char> {
    "Agent '"@ + agent_id + "' exited with failure"@
}

/// The outcome of one worker once it is through: the failure of its launch
/// where it was not launched, a failure of its own where it ran and did not
/// end well.
pub fn worker_result(
    agent_id: &str,
    launched: Result<(), OrchestratorError>,
    success: bool,
) -> (r: Result<(), OrchestratorError>)
    ensures
        r is Ok <==> (launched is Ok && success),
        r matches Err(e) ==> (if launched is Err {
            launched == Err::<(), OrchestratorError>(e)
        } else {
            e matches OrchestratorError::OperationRefused { reason } && reason@
                == worker_failed_text(agent_id@)
        }),
{
    match launched {
        Err(e) => Err(e),
        Ok(()) => {
            if success {
                Ok(())
            } else {
                let mut reason = String::from_str("Agent '");
                reason.append(agent_id);
                reason.append("' exited with failure");
                Err(OrchestratorError::OperationRefused { reason })
            }
        },
    }
}

/// The outcome of the pair as a whole: both agent ids where both workers
/// did well, else the failure of the first worker that failed. Neither
/// outcome is looked at before both workers are through.
pub fn join_parallel_agents(
    agent_id_a: String,
    agent_id_b: String,
    outcome_a: Result<(), OrchestratorError>,
    outcome_b: Result<(), OrchestratorError>,
) -> (r: Result<ParallelAgentResult, OrchestratorError>)
    ensures
        r is Ok <==> (outcome_a is Ok && outcome_b is Ok),
        match r {
            Ok(ids) => ids.agent_id_a == agent_id_a && ids.agent_id_b == agent_id_b,
            Err(e) => if outcome_a is Err {
                outcome_a == Err::<(), OrchestratorError>(e)
            } else {
                outcome_b == Err::<(), OrchestratorError>(e)
            },
        },
{
    match outcome_a {
        Err(e) => Err(e),
        Ok(()) => match outcome_b {
            Err(e) => Err(e),
            Ok(()) => Ok(ParallelAgentResult { agent_id_a, agent_id_b }),
        },
    }
}

/// How the two workers of step 2 ended, each for itself and as a pair.
#[derive(Clone, Copy, Debug, PartialEq, Eq, Structural)]
pub struct PairSettlement {
    pub status_a: WorkflowStatus,
    pub status_b: WorkflowStatus,
    pub succeeded: bool,
}

/// Settles the pair once both workers have ended: each keeps the status
/// that its own end gives it, and the pair succeeded where both did.
pub fn settle_parallel_pair(success_a: bool, success_b: bool) -> (r: PairSettlement)
    ensures
        r.status_a == finished_status(success_a),
        r.status_b == finished_status(success_b),
        r.succeeded == (success_a && success_b),
{
    PairSettlement {
        status_a: if success_a {
            WorkflowStatus::Completed
        } else {
            WorkflowStatus::Failed
        },
        status_b: if success_b {
            WorkflowStatus::Completed
        } else {
            WorkflowStatus::Failed
        },
        succeeded: success_a && success_b,
    }
}

} // verus!
