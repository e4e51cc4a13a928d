//! The parts of a workflow.

use indexmap::IndexMap;
use vstd::prelude::*;

use crate::text::same;

verus! {

/// A workflow, as its file defines it.
#[derive(Debug, Clone)]
pub struct Workflow {
    /// The version of the format.
    pub version: String,
    /// The name of the workflow.
    pub name: String,
    /// What the workflow is for.
    pub description: Option<String>,
    /// What holds for every step that does not say otherwise.
    pub defaults: WorkflowDefaults,
    /// The file that carries context from one agent to the next.
    pub handoff: HandoffConfig,
    /// Reusable pieces of prompt text, by name.
    pub snippets: IndexMap<String, Snippet>,
    /// The agents, by the name that steps refer to.
    pub agents: IndexMap<String, AgentConfig>,
    /// The steps. A run starts with the first.
    pub steps: Vec<Step>,
    /// The gates that steps refer to.
    pub review_gates: Vec<ReviewGate>,
}

/// What holds for every step that does not say otherwise.
#[derive(Debug, Clone)]
pub struct WorkflowDefaults {
    /// Each step writes a handoff entry after it has run. True unless the
    /// workflow sets it to false.
    pub auto_handoff: bool,
    /// Every step needs a review unless it opts out.
    pub review_required: bool,
    /// Where agents work, relative to the directory of the workflow file.
    pub working_directory: Option<String>,
}

impl Default for WorkflowDefaults {
    fn default() -> (r: Self)
        ensures
            r.auto_handoff == default_true_value(),
            r.auto_handoff,
            !r.review_required,
            r.working_directory is None,
    {
        WorkflowDefaults {
            auto_handoff: default_true(),
            review_required: false,
            working_directory: None,
        }
    }
}

/// The value of a flag that is on unless it is switched off.
pub open spec fn default_true_value() -> bool {
    true
}

/// The value of a flag that is on unless it is switched off.
pub fn default_true() -> (r: bool)
    ensures
        r == default_true_value(),
        r,
{
    true
}

/// The file that carries context from one agent to the next.
#[derive(Debug, Clone)]
pub struct HandoffConfig {
    /// Its path, relative to the directory of the workflow file.
    pub path: String,
    /// What becomes of earlier entries.
    pub mode: HandoffMode,
    /// The headings that every entry has.
    pub required_sections: Vec<String>,
}

impl Default for HandoffConfig {
    fn default() -> (r: Self)
        ensures
            r.path@ == "handover.md"@,
            r.mode == HandoffMode::Append,
            r.required_sections@.len() == 0,
    {
        HandoffConfig {
            path: default_handoff_path(),
            mode: HandoffMode::default(),
            required_sections: Vec::new(),
        }
    }
}

/// Where handoff entries go unless the workflow says otherwise.
pub fn default_handoff_path() -> (r: String)
    ensures
        r@ == "handover.md"@,
{
    "handover.md".to_owned()
}

/// What becomes of earlier handoff entries when a new one is written.
#[derive(Debug, Clone, Copy)]
pub enum HandoffMode {
    /// They stay, before the new one.
    Append,
    /// Only the new one stays.
    Replace,
}

impl Default for HandoffMode {
    fn default() -> (r: Self)
        ensures
            r == HandoffMode::Append,
    {
        HandoffMode::Append
    }
}

/// A reusable piece of prompt text.
#[derive(Debug, Clone)]
pub struct Snippet {
    /// The text that stands for the snippet inside a prompt.
    pub trigger: String,
    /// The text of the snippet.
    pub content: String,
    /// What the snippet is for.
    pub description: Option<String>,
}

/// How an agent is run.
#[derive(Debug, Clone)]
pub struct AgentConfig {
    /// The command-line tool behind the agent.
    pub provider: ConductorAgent,
    /// The model that the tool is asked to use.
    pub model: Option<String>,
    /// The profile that the tool is asked to use.
    pub profile: Option<String>,
    /// Where the agent works, relative to the directory of the workflow file.
    pub workspace: Option<String>,
    /// Environment variables for the tool.
    pub env: IndexMap<String, String>,
}

/// The command-line tools that agents run on.
#[derive(Debug, Clone, Copy)]
pub enum ConductorAgent {
    /// The tool of the key `claude_code`.
    ClaudeCode,
    /// The tool of the key `open_ai_codex`.
    OpenAiCodex,
}

/// One unit of work, done by one agent.
#[derive(Debug, Clone)]
pub struct Step {
    /// The name that transitions refer to.
    pub id: String,
    /// What the step is about.
    pub title: String,
    /// The name of the agent that takes the step.
    pub agent: String,
    /// What the agent is asked to do. May contain triggers of snippets.
    pub prompt: Option<String>,
    /// Shell commands that must succeed after the agent has.
    pub run: Vec<String>,
    /// Names of snippets that the agent gets to see.
    pub snippets: Vec<String>,
    /// Whether and how the step is reviewed.
    pub review: ReviewRequirement,
    /// Where the workflow goes after success.
    pub on_success: Option<StepTransition>,
    /// Where the workflow goes after failure.
    pub on_failure: Option<StepTransition>,
}

/// Whether and how a step is reviewed.
#[derive(Debug, Clone)]
pub struct ReviewRequirement {
    /// The review gate that the step must pass.
    pub gate: Option<String>,
    /// Whether it must, where the workflow's default does not decide.
    pub required: Option<bool>,
}

impl Default for ReviewRequirement {
    fn default() -> (r: Self)
        ensures
            r.gate is None,
            r.required is None,
    {
        ReviewRequirement { gate: None, required: None }
    }
}

/// Where the workflow goes after a step.
#[derive(Debug, Clone)]
pub struct StepTransition {
    /// The agent that takes over.
    pub handoff_to: Option<String>,
    /// The step that follows.
    pub next_step: Option<String>,
    /// How the workflow moves on.
    pub route: StepRoute,
}

/// How a workflow moves on after a step.
#[derive(Debug, Clone, Copy)]
pub enum StepRoute {
    /// To the next step, or to the end where none is named.
    Continue,
    /// To the next step, or back to the same step where none is named.
    Retry,
    /// Not at all.
    Halt,
}

impl Default for StepRoute {
    fn default() -> (r: Self)
        ensures
            r == StepRoute::Continue,
    {
        StepRoute::Continue
    }
}

/// A check that the result of a step must pass.
#[derive(Debug, Clone)]
pub struct ReviewGate {
    /// The name that steps refer to.
    pub id: String,
    /// The name that reviewing agents see.
    pub name: String,
    /// How many approvals are asked for. For information only: one agent
    /// decides.
    pub required_approvers: u8,
    /// What the reviewing agent is told.
    pub instructions: Option<String>,
}

/// The position of the first step with the given id.
pub open spec fn step_position(steps: Seq<Step>, id: Seq<char>) -> Option<int>
    decreases steps.len(),
{
    if steps.len() == 0 {
        None
    } else if steps[0].id@ == id {
        Some(0)
    } else {
        match step_position(steps.drop_first(), id) {
            Some(i) => Some(i + 1),
            None => None,
        }
    }
}

/// The position of the first gate with the given id.
pub open spec fn gate_position(gates: Seq<ReviewGate>, id: Seq<char>) -> Option<int>
    decreases gates.len(),
{
    if gates.len() == 0 {
        None
    } else if gates[0].id@ == id {
        Some(0)
    } else {
        match gate_position(gates.drop_first(), id) {
            Some(i) => Some(i + 1),
            None => None,
        }
    }
}

/// The position of a step is the least one with its id.
pub proof fn lemma_step_position(steps: Seq<Step>, id: Seq<char>)
    ensures
        match step_position(steps, id) {
            Some(i) => 0 <= i < steps.len() && steps[i].id@ == id && forall|j: int|
                0 <= j < i ==> (#[trigger] steps[j]).id@ != id,
            None => forall|j: int| 0 <= j < steps.len() ==> (#[trigger] steps[j]).id@ != id,
        },
    decreases steps.len(),
{
    if steps.len() > 0 && steps[0].id@ != id {
        let rest = steps.drop_first();
        lemma_step_position(rest, id);
        assert forall|j: int|
            0 < j < steps.len() implies #[trigger] steps[j] == rest[j - 1] by {}
    }
}

/// The position of a gate is the least one with its id.
pub proof fn lemma_gate_position(gates: Seq<ReviewGate>, id: Seq<char>)
    ensures
        match gate_position(gates, id) {
            Some(i) => 0 <= i < gates.len() && gates[i].id@ == id && forall|j: int|
                0 <= j < i ==> (#[trigger] gates[j]).id@ != id,
            None => forall|j: int| 0 <= j < gates.len() ==> (#[trigger] gates[j]).id@ != id,
        },
    decreases gates.len(),
{
    if gates.len() > 0 && gates[0].id@ != id {
        let rest = gates.drop_first();
        lemma_gate_position(rest, id);
        assert forall|j: int|
            0 < j < gates.len() implies #[trigger] gates[j] == rest[j - 1] by {}
    }
}

impl Workflow {
    /// Whether the result of a step must pass a gate. What the step says
    /// counts before what the workflow says.
    pub open spec fn review_required(&self, step: &Step) -> bool {
        match step.review.required {
            Some(required) => required,
            None => self.defaults.review_required,
        }
    }

    /// The position of the first step with the given id.
    pub fn step_index(&self, step_id: &str) -> (r: Option<usize>)
        ensures
            match r {
                Some(i) => step_position(self.steps@, step_id@) == Some(i as int),
                None => step_position(self.steps@, step_id@) is None,
            },
    {
        let mut at: usize = 0;
        proof {
            lemma_step_position(self.steps@, step_id@);
        }
        while at < self.steps.len()
            invariant
                at <= self.steps@.len(),
                forall|j: int| 0 <= j < at ==> (#[trigger] self.steps@[j]).id@ != step_id@,
            decreases self.steps@.len() - at,
        {
            if same(self.steps[at].id.as_str(), step_id) {
                proof {
                    lemma_step_position(self.steps@, step_id@);
                }
                return Some(at);
            }
            at = at + 1;
        }
        None
    }

    /// The position of the first gate with the given id.
    pub fn gate_index(&self, gate_id: &str) -> (r: Option<usize>)
        ensures
            match r {
                Some(i) => gate_position(self.review_gates@, gate_id@) == Some(i as int),
                None => gate_position(self.review_gates@, gate_id@) is None,
            },
    {
        let mut at: usize = 0;
        proof {
            lemma_gate_position(self.review_gates@, gate_id@);
        }
        while at < self.review_gates.len()
            invariant
                at <= self.review_gates@.len(),
                forall|j: int| 0 <= j < at ==> (#[trigger] self.review_gates@[j]).id@ != gate_id@,
            decreases self.review_gates@.len() - at,
        {
            if same(self.review_gates[at].id.as_str(), gate_id) {
                proof {
                    lemma_gate_position(self.review_gates@, gate_id@);
                }
                return Some(at);
            }
            at = at + 1;
        }
        None
    }

    /// The first step with the given id.
    pub fn step_by_id(&self, step_id: &str) -> (r: Option<&Step>)
        ensures
            match step_position(self.steps@, step_id@) {
                Some(i) => r == Some(&self.steps@[i]),
                None => r is None,
            },
    {
        proof {
            lemma_step_position(self.steps@, step_id@);
        }
        match self.step_index(step_id) {
            Some(i) => Some(&self.steps[i]),
            None => None,
        }
    }

    /// The first gate with the given id.
    pub fn review_gate_by_id(&self, gate_id: &str) -> (r: Option<&ReviewGate>)
        ensures
            match gate_position(self.review_gates@, gate_id@) {
                Some(i) => r == Some(&self.review_gates@[i]),
                None => r is None,
            },
    {
        proof {
            lemma_gate_position(self.review_gates@, gate_id@);
        }
        match self.gate_index(gate_id) {
            Some(i) => Some(&self.review_gates[i]),
            None => None,
        }
    }

    /// Whether the result of a step must pass a gate.
    pub fn is_review_required(&self, step: &Step) -> (r: bool)
        ensures
            r == self.review_required(step),
    {
        match step.review.required {
            Some(required) => required,
            None => self.defaults.review_required,
        }
    }
}

} // verus!
