//! The step catalog: which steps start a worker, with which parameters, and
//! which files each step leaves behind.

use vstd::prelude::*;
use vstd::string::*;
use crate::error::OrchestratorError;
use crate::text::{slice_texts, texts};

verus! {

/// The number of the last step of a workflow.
pub const LAST_STEP: u32 = 9;

/// The number of the step that runs two workers side by side.
pub const PARALLEL_STEP: u32 = 2;

/// How one step runs its worker.
#[derive(Debug)]
pub struct StepConfig {
    pub step_id: u32,
    pub name: String,
    pub model: String,
    pub prompt_template: String,
    pub output_file: String,
    pub allowed_tools: Vec<String>,
    pub max_turns: u32,
}

/// A step configuration as plain text and numbers.
pub ghost struct StepConfigModel {
    pub step_id: u32,
    pub name: Seq<char>,
    pub model: Seq<char>,
    pub prompt_template: Seq<char>,
    pub output_file: Seq<char>,
    pub allowed_tools: Seq<Seq<char>>,
    pub max_turns: u32,
}

impl View for StepConfig {
    type V = StepConfigModel;

    open spec fn view(&self) -> StepConfigModel {
        StepConfigModel {
            step_id: self.step_id,
            name: self.name@,
            model: self.model@,
            prompt_template: self.prompt_template@,
            output_file: self.output_file@,
            allowed_tools: texts(self.allowed_tools@),
            max_turns: self.max_turns,
        }
    }
}

/// The capabilities that every worker is allowed.
pub open spec fn default_tool_names() -> Seq<Seq<char>> {
    seq!["Read"@, "Write"@, "Edit"@, "Glob"@, "Grep"@, "Bash"@, "Task"@]
}

/// The capabilities that every worker is allowed, as the catalog hands
/// them to a step.
pub fn default_tools() -> (r: Vec<String>)
    ensures
        texts(r@) == default_tool_names(),
{
    let mut v: Vec<String> = Vec::new();
    v.push(String::from_str("Read"));
    v.push(String::from_str("Write"));
    v.push(String::from_str("Edit"));
    v.push(String::from_str("Glob"));
    v.push(String::from_str("Grep"));
    v.push(String::from_str("Bash"));
    v.push(String::from_str("Task"));
    assert(texts(v@) =~= default_tool_names());
    v
}

/// A catalog entry with the default tools.
pub open spec fn step_model(
    step_id: u32,
    name: Seq<char>,
    model: Seq<char>,
    prompt_template: Seq<char>,
    output_file: Seq<char>,
    max_turns: u32,
) -> StepConfigModel {
    StepConfigModel {
        step_id,
        name,
        model,
        prompt_template,
        output_file,
        allowed_tools: default_tool_names(),
        max_turns,
    }
}

/// The catalog. Steps 1 and 4 are gates for a human review, step 2 runs
/// two workers side by side and step 9 packages: none of them has an entry.
pub open spec fn step_table(step_id: u32) -> Option<StepConfigModel> {
    if step_id == 0 {
        Some(
            step_model(
                0,
                "Research Domain Concepts"@,
                "sonnet"@,
                "01-research-domain-concepts.md"@,
                "context/clarifications-concepts.md"@,
                50,
            ),
        )
    } else if step_id == 3 {
        Some(
            step_model(
                3,
                "Merge Clarifications"@,
                "haiku"@,
                "04-merge-clarifications.md"@,
                "context/clarifications.md"@,
                30,
            ),
        )
    } else if step_id == 5 {
        Some(
            step_model(
                5,
                "Reasoning"@,
                "opus"@,
                "06-reasoning-agent.md"@,
                "context/decisions.md"@,
                100,
            ),
        )
    } else if step_id == 6 {
        Some(step_model(6, "Build"@, "sonnet"@, "07-build-agent.md"@, "SKILL.md"@, 80))
    } else if step_id == 7 {
        Some(
            step_model(
                7,
                "Validate"@,
                "sonnet"@,
                "08-validate-agent.md"@,
                "context/agent-validation-log.md"@,
                50,
            ),
        )
    } else if step_id == 8 {
        Some(
            step_model(8, "Test"@, "sonnet"@, "09-test-agent.md"@, "context/test-skill.md"@, 50),
        )
    } else {
        None
    }
}

/// What a step of the workflow is.
#[derive(Clone, Copy, Debug, PartialEq, Eq, Structural)]
pub enum StepKind {
    /// One worker runs it, as the catalog says.
    Worker,
    /// A human reviews what the workers wrote: no worker, no output.
    ReviewGate,
    /// Two workers run it side by side.
    ParallelResearch,
    /// The skill is packaged.
    Package,
    /// The workflow has no such step.
    Unknown,
}

/// The kind of each step: the workflow runs from step 0 to step 9.
pub open spec fn step_kind_of(step_id: u32) -> StepKind {
    if step_id == 1 || step_id == 4 {
        StepKind::ReviewGate
    } else if step_id == 2 {
        StepKind::ParallelResearch
    } else if step_id == 9 {
        StepKind::Package
    } else if step_id < 9 {
        StepKind::Worker
    } else {
        StepKind::Unknown
    }
}

/// The kind of the step `step_id`.
pub fn step_kind(step_id: u32) -> (r: StepKind)
    ensures
        r == step_kind_of(step_id),
{
    if step_id == 1 || step_id == 4 {
        StepKind::ReviewGate
    } else if step_id == 2 {
        StepKind::ParallelResearch
    } else if step_id == 9 {
        StepKind::Package
    } else if step_id < 9 {
        StepKind::Worker
    } else {
        StepKind::Unknown
    }
}

/// The catalog configures the worker steps and no others, each under its
/// own id, and a review gate leaves no output behind.
pub proof fn lemma_catalog_by_kind(step_id: u32)
    ensures
        step_table(step_id) is Some <==> step_kind_of(step_id) == StepKind::Worker,
        is_configured(step_id) <==> step_table(step_id) is Some,
        step_table(step_id) matches Some(config) ==> config.step_id == step_id,
        step_kind_of(step_id) == StepKind::ReviewGate ==> step_outputs(step_id).len() == 0,
        step_kind_of(step_id) == StepKind::Unknown ==> step_outputs(step_id).len() == 0,
        step_table(step_id) matches Some(config) ==> step_outputs(step_id) == seq![
            config.output_file,
        ],
{
    if step_table(step_id) is Some {
        assert(step_outputs(step_id) =~= seq![step_table(step_id)->0.output_file]);
    }
}

/// Whether the catalog has an entry for `step_id`.
pub open spec fn is_configured(step_id: u32) -> bool {
    step_id == 0 || step_id == 3 || step_id == 5 || step_id == 6 || step_id == 7 || step_id == 8
}

/// How far two step ids lie apart.
pub open spec fn distance(a: u32, b: u32) -> int {
    if a >= b {
        a - b
    } else {
        b - a
    }
}

/// `nearest` is the configured step closest to `step_id`, the lower one
/// where two are equally close.
pub open spec fn is_nearest_configured(step_id: u32, nearest: u32) -> bool {
    &&& is_configured(nearest)
    &&& forall|v: u32| #[trigger]
        is_configured(v) ==> distance(nearest, step_id) < distance(v, step_id) || (distance(
            nearest,
            step_id,
        ) == distance(v, step_id) && nearest <= v)
}

/// The ids of the steps that the catalog configures, in rising order.
pub fn configured_step_ids() -> (r: Vec<u32>)
    ensures
        r@ == seq![0u32, 3u32, 5u32, 6u32, 7u32, 8u32],
        forall|v: u32| is_configured(v) <==> r@.contains(v),
{
    let mut v: Vec<u32> = Vec::new();
    v.push(0);
    v.push(3);
    v.push(5);
    v.push(6);
    v.push(7);
    v.push(8);
    proof {
        assert(v@ =~= seq![0u32, 3u32, 5u32, 6u32, 7u32, 8u32]);
        assert(v@[0] == 0 && v@[1] == 3 && v@[2] == 5 && v@[3] == 6 && v@[4] == 7 && v@[5] == 8);
    }
    v
}

/// The configured step that lies closest to `step_id`.
pub fn nearest_configured(step_id: u32) -> (r: u32)
    ensures
        is_nearest_configured(step_id, r),
        is_configured(step_id) ==> r == step_id,
{
    let ids = configured_step_ids();
    let mut best: u32 = ids[0];
    let mut i: usize = 1;
    while i < ids.len()
        invariant
            1 <= i <= ids.len(),
            ids@ == seq![0u32, 3u32, 5u32, 6u32, 7u32, 8u32],
            exists|k: int| 0 <= k < i && ids@[k] == best,
            forall|k: int|
                0 <= k < i ==> distance(best, step_id) < distance(#[trigger] ids@[k], step_id) || (
                distance(best, step_id) == distance(ids@[k], step_id) && best <= ids@[k]),
        decreases ids.len() - i,
    {
        let cand = ids[i];
        let d_best = if best >= step_id {
            best - step_id
        } else {
            step_id - best
        };
        let d_cand = if cand >= step_id {
            cand - step_id
        } else {
            step_id - cand
        };
        if d_cand < d_best || (d_cand == d_best && cand < best) {
            best = cand;
        }
        i = i + 1;
    }
    proof {
        assert forall|v: u32| #[trigger] is_configured(v) implies distance(best, step_id)
            < distance(v, step_id) || (distance(best, step_id) == distance(v, step_id) && best
            <= v) by {
            let k = choose|k: int| 0 <= k < ids@.len() && ids@[k] == v;
            assert(ids@[k] == v);
        }
    }
    best
}

/// The configuration of the step `step_id`.
pub fn get_step_config(step_id: u32) -> (r: Result<StepConfig, OrchestratorError>)
    ensures
        match r {
            Ok(config) => step_table(step_id) == Some(config@),
            Err(e) => step_table(step_id) is None && (e
                matches OrchestratorError::StepNotConfigured { step_id: s, nearest: n } && s
                == step_id && is_nearest_configured(step_id, n)),
        },
{
    if step_id == 0 {
        Ok(
            StepConfig {
                step_id: 0,
                name: String::from_str("Research Domain Concepts"),
                model: String::from_str("sonnet"),
                prompt_template: String::from_str("01-research-domain-concepts.md"),
                output_file: String::from_str("context/clarifications-concepts.md"),
                allowed_tools: default_tools(),
                max_turns: 50,
            },
        )
    } else if step_id == 3 {
        Ok(
            StepConfig {
                step_id: 3,
                name: String::from_str("Merge Clarifications"),
                model: String::from_str("haiku"),
                prompt_template: String::from_str("04-merge-clarifications.md"),
                output_file: String::from_str("context/clarifications.md"),
                allowed_tools: default_tools(),
                max_turns: 30,
            },
        )
    } else if step_id == 5 {
        Ok(
            StepConfig {
                step_id: 5,
                name: String::from_str("Reasoning"),
                model: String::from_str("opus"),
                prompt_template: String::from_str("06-reasoning-agent.md"),
                output_file: String::from_str("context/decisions.md"),
                allowed_tools: default_tools(),
                max_turns: 100,
            },
        )
    } else if step_id == 6 {
        Ok(
            StepConfig {
                step_id: 6,
                name: String::from_str("Build"),
                model: String::from_str("sonnet"),
                prompt_template: String::from_str("07-build-agent.md"),
                output_file: String::from_str("SKILL.md"),
                allowed_tools: default_tools(),
                max_turns: 80,
            },
        )
    } else if step_id == 7 {
        Ok(
            StepConfig {
                step_id: 7,
                name: String::from_str("Validate"),
                model: String::from_str("sonnet"),
                prompt_template: String::from_str("08-validate-agent.md"),
                output_file: String::from_str("context/agent-validation-log.md"),
                allowed_tools: default_tools(),
                max_turns: 50,
            },
        )
    } else if step_id == 8 {
        Ok(
            StepConfig {
                step_id: 8,
                name: String::from_str("Test"),
                model: String::from_str("sonnet"),
                prompt_template: String::from_str("09-test-agent.md"),
                output_file: String::from_str("context/test-skill.md"),
                allowed_tools: default_tools(),
                max_turns: 50,
            },
        )
    } else {
        Err(OrchestratorError::StepNotConfigured { step_id, nearest: nearest_configured(step_id) })
    }
}

/// The files that a step writes, relative to the skill directory.
pub open spec fn step_outputs(step_id: u32) -> Seq<Seq<char>> {
    if step_id == 0 {
        seq!["context/clarifications-concepts.md"@]
    } else if step_id == 2 {
        seq!["context/clarifications-patterns.md"@, "context/clarifications-data.md"@]
    } else if step_id == 3 {
        seq!["context/clarifications.md"@]
    } else if step_id == 5 {
        seq!["context/decisions.md"@]
    } else if step_id == 6 {
        seq!["SKILL.md"@]
    } else if step_id == 7 {
        seq!["context/agent-validation-log.md"@]
    } else if step_id == 8 {
        seq!["context/test-skill.md"@]
    } else {
        Seq::empty()
    }
}

/// The files that the step `step_id` writes, relative to the skill
/// directory: none for a review gate, for packaging or past the last step.
pub fn get_step_output_files(step_id: u32) -> (r: Vec<&'static str>)
    ensures
        slice_texts(r@) == step_outputs(step_id),
{
    let mut v: Vec<&'static str> = Vec::new();
    if step_id == 0 {
        v.push("context/clarifications-concepts.md");
    } else if step_id == 2 {
        v.push("context/clarifications-patterns.md");
        v.push("context/clarifications-data.md");
    } else if step_id == 3 {
        v.push("context/clarifications.md");
    } else if step_id == 5 {
        v.push("context/decisions.md");
    } else if step_id == 6 {
        v.push("SKILL.md");
    } else if step_id == 7 {
        v.push("context/agent-validation-log.md");
    } else if step_id == 8 {
        v.push("context/test-skill.md");
    }
    assert(slice_texts(v@) =~= step_outputs(step_id));
    v
}

} // verus!
