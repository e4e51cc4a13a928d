//! The rules that a run follows.

use vstd::prelude::*;
use vstd::string::*;

use super::types::{
    AgentRunStatus, DecisionView, ProcessOutcome, ProcessView, ReviewDecision, RunnerOptions,
    StepAgentResult, AgentResultView,
};
use crate::error::{WorkflowError, WorkflowErrorView};
use crate::names::{review_role, review_role_name};
use crate::paths::{
    join_path, law_directory_of_a_file, law_files_without_directory, parent_directory, parent_of,
    path_from, plain_name, significant_end,
};
use crate::text::{
    contains, join, joined, lemma_contains_part, lemma_contains_within, same, texts, trim, trimmed,
    Trimmed,
};
use crate::workflow::maps::{agent_entries, agent_named, agent_names, lookup, names};
use crate::workflow::model::{
    gate_position, lemma_gate_position, ConductorAgent, ReviewGate, Step, StepRoute,
    StepTransition, Workflow,
};
use crate::workflow::validate::lemma_joined_contains;

verus! {

/// A workflow that can be run.
pub struct Runner {
    pub workflow: Workflow,
    /// The directory that the paths of the workflow are relative to.
    pub workspace_root: String,
    pub options: RunnerOptions,
}

/// Where a workflow goes after a step.
#[derive(Debug)]
pub enum TransitionResolution {
    /// To the step with this id.
    Next(String),
    /// It is stopped.
    Halt,
    /// It is over.
    End,
}

/// A [`TransitionResolution`] with its text as a sequence of characters.
pub ghost enum ResolutionView {
    Next(Seq<char>),
    Halt,
    End,
}

impl View for TransitionResolution {
    type V = ResolutionView;

    open spec fn view(&self) -> ResolutionView {
        match self {
            TransitionResolution::Next(id) => ResolutionView::Next(id@),
            TransitionResolution::Halt => ResolutionView::Halt,
            TransitionResolution::End => ResolutionView::End,
        }
    }
}

/// A review that is to take place.
#[derive(Debug)]
pub struct ReviewPlan {
    /// The position of the review gate among those of the workflow.
    pub gate: usize,
    /// The name of the agent that reviews.
    pub reviewer: String,
}

// ---------------------------------------------------------------------------
// Meaning
// ---------------------------------------------------------------------------

/// The directory that the paths of a workflow are relative to: the one that
/// holds its file, or the current one where the path names none.
pub open spec fn root_of(workflow_path: Seq<char>) -> Seq<char> {
    match parent_of(workflow_path) {
        Some(parent) => if parent.len() > 0 {
            parent
        } else {
            "."@
        },
        None => "."@,
    }
}

/// Where the workflow goes after a step with the given transition.
pub open spec fn resolution(step: &Step, transition: Option<StepTransition>) -> ResolutionView {
    match transition {
        None => ResolutionView::End,
        Some(t) => match t.route {
            StepRoute::Halt => ResolutionView::Halt,
            StepRoute::Retry => match t.next_step {
                Some(next) => ResolutionView::Next(next@),
                None => ResolutionView::Next(step.id@),
            },
            StepRoute::Continue => match t.next_step {
                Some(next) => ResolutionView::Next(next@),
                None => ResolutionView::End,
            },
        },
    }
}

/// The first of the names that is not `name`.
pub open spec fn first_other(names: Seq<Seq<char>>, name: Seq<char>) -> Option<Seq<char>>
    decreases names.len(),
{
    if names.len() == 0 {
        None
    } else if names[0] != name {
        Some(names[0])
    } else {
        first_other(names.drop_first(), name)
    }
}

/// The agent that a step hands over to after success, if it is another one.
pub open spec fn successor(step: &Step) -> Option<Seq<char>> {
    match step.on_success {
        Some(t) => match t.handoff_to {
            Some(agent) => if agent@ != step.agent@ {
                Some(agent@)
            } else {
                None
            },
            None => None,
        },
        None => None,
    }
}

/// The agent that reviews a step: the one that the step hands over to, or
/// else the first that is not the step's own.
pub open spec fn reviewer_of(w: &Workflow, step: &Step) -> Option<Seq<char>> {
    match successor(step) {
        Some(agent) => Some(agent),
        None => first_other(names(agent_entries(w.agents)), step.agent@),
    }
}

/// The failure to find an agent that reviews.
pub open spec fn no_reviewer(step: &Step) -> WorkflowErrorView {
    WorkflowErrorView::Execution(
        "step `"@ + step.id@ + "` requires a "@ + review_role()
            + " but no alternate agent exists"@,
    )
}

/// The review gate and the reviewing agent of a step that must be reviewed.
pub open spec fn planned_review(w: &Workflow, step: &Step) -> Result<
    (int, Seq<char>),
    WorkflowErrorView,
> {
    match step.review.gate {
        None => Err(
            WorkflowErrorView::Execution(
                "step `"@ + step.id@ + "` requires review but no gate was configured"@,
            ),
        ),
        Some(gate_id) => match gate_position(w.review_gates@, gate_id@) {
            None => Err(
                WorkflowErrorView::Execution("unknown review gate `"@ + gate_id@ + "`"@),
            ),
            Some(gate) => match reviewer_of(w, step) {
                None => Err(no_reviewer(step)),
                Some(reviewer) => Ok((gate, reviewer)),
            },
        },
    }
}

/// Why a gate rejects a step.
pub open spec fn rejection(gate: &ReviewGate, issues: Seq<Seq<char>>) -> Seq<char> {
    if issues.len() == 0 {
        "review gate `"@ + gate.id@ + "` rejected the step"@
    } else {
        "review gate `"@ + gate.id@ + "` rejected the step: "@ + joined(issues, "; "@)
    }
}

/// What a decision means for the step.
pub open spec fn verdict(gate: &ReviewGate, step: &Step, decision: DecisionView) -> Result<
    bool,
    WorkflowErrorView,
> {
    if decision.approved {
        Ok(true)
    } else {
        Err(
            WorkflowErrorView::StepFailed {
                step_id: step.id@,
                message: rejection(gate, decision.blocking_issues),
            },
        )
    }
}

/// What the end of a command means for the step.
pub open spec fn command_verdict(step: &Step, command: Seq<char>, process: ProcessView) -> Result<
    (),
    WorkflowErrorView,
> {
    match process {
        ProcessView::NotStarted(reason) => Err(
            WorkflowErrorView::StepFailed {
                step_id: step.id@,
                message: "failed to start `"@ + command + "`: "@ + reason,
            },
        ),
        ProcessView::Exited { success, status, stdout, stderr } => if success {
            Ok(())
        } else {
            Err(
                WorkflowErrorView::StepFailed {
                    step_id: step.id@,
                    message: "shell command `"@ + command + "` failed with status "@ + status
                        + ".\nstdout:\n"@ + trimmed(stdout, Trimmed::WhiteSpace) + "\nstderr:\n"@
                        + trimmed(stderr, Trimmed::WhiteSpace),
                },
            )
        },
    }
}

/// What a step that is not really taken reports.
pub open spec fn dry_result(step: &Step) -> AgentResultView {
    AgentResultView {
        status: AgentRunStatus::Success,
        summary: "dry run for step `"@ + step.id@ + "`"@,
        current_state: Some("No work executed"@),
        open_questions: Seq::empty(),
        next_actions: seq!["Invoke the real agent executor"@],
    }
}

impl Runner {
    /// Where an agent works that does not say so itself.
    pub open spec fn default_workspace(&self) -> Seq<char> {
        match self.workflow.defaults.working_directory {
            Some(directory) => path_from(self.workspace_root@, directory@),
            None => self.workspace_root@,
        }
    }

    /// Where the agent of the given name works.
    pub open spec fn workspace_of(&self, agent: Seq<char>) -> Seq<char> {
        match lookup(agent_entries(self.workflow.agents), agent) {
            Some(config) => match config.workspace {
                Some(workspace) => path_from(self.workspace_root@, workspace@),
                None => self.default_workspace(),
            },
            None => self.default_workspace(),
        }
    }

    /// Where the handoff file is.
    pub open spec fn handoff_path(&self) -> Seq<char> {
        path_from(self.workspace_root@, self.workflow.handoff.path@)
    }
}

// ---------------------------------------------------------------------------
// Laws
// ---------------------------------------------------------------------------

proof fn lemma_first_other(names: Seq<Seq<char>>, name: Seq<char>)
    ensures
        match first_other(names, name) {
            Some(other) => other != name && names.contains(other),
            None => forall|i: int| 0 <= i < names.len() ==> #[trigger] names[i] == name,
        },
    decreases names.len(),
{
    if names.len() > 0 {
        if names[0] == name {
            let rest = names.drop_first();
            lemma_first_other(rest, name);
            if let Some(other) = first_other(rest, name) {
                let i = choose|i: int| 0 <= i < rest.len() && rest[i] == other;
                assert(names[i + 1] == other);
            } else {
                assert forall|i: int| 0 <= i < names.len() implies #[trigger] names[i] == name by {
                    if i > 0 {
                        assert(names[i] == rest[i - 1]);
                    }
                }
            }
        } else {
            assert(names.contains(names[0]));
        }
    }
}

/// A step is never reviewed by the agent that took it.
pub proof fn law_reviewer_is_another_agent(w: &Workflow, step: &Step)
    ensures
        reviewer_of(w, step) != Some(step.agent@),
{
    lemma_first_other(names(agent_entries(w.agents)), step.agent@);
}

/// A reviewing agent is missing only where the step hands over to no other agent and
/// the workflow defines no other agent.
pub proof fn law_reviewer_exists(w: &Workflow, step: &Step, i: int)
    requires
        0 <= i < agent_entries(w.agents).len(),
        agent_entries(w.agents)[i].0 != step.agent@,
    ensures
        reviewer_of(w, step) is Some,
{
    lemma_first_other(names(agent_entries(w.agents)), step.agent@);
    assert(names(agent_entries(w.agents))[i] == agent_entries(w.agents)[i].0);
}

/// `continue` goes to the next step, or ends the workflow where none is named;
/// `retry` goes to the next step, or takes the same step again where none is
/// named; `halt` stops the workflow.
pub proof fn law_routes(step: &Step, t: StepTransition)
    ensures
        t.route == StepRoute::Halt ==> resolution(step, Some(t)) == ResolutionView::Halt,
        t.route == StepRoute::Continue && t.next_step is None ==> resolution(step, Some(t))
            == ResolutionView::End,
        t.route == StepRoute::Retry && t.next_step is None ==> resolution(step, Some(t))
            == ResolutionView::Next(step.id@),
        t.route != StepRoute::Halt && t.next_step is Some ==> resolution(step, Some(t))
            == ResolutionView::Next(t.next_step->0@),
{
}

/// A step's own word on its review counts before that of the workflow.
pub proof fn law_step_overrides_review_default(w: &Workflow, step: &Step)
    ensures
        step.review.required is Some ==> w.review_required(step) == step.review.required->0,
        step.review.required is None ==> w.review_required(step) == w.defaults.review_required,
{
}

/// An agent works in its own workspace, or else in the working directory of the
/// workflow, or else in the directory that holds the workflow file. Both are
/// relative to that directory.
pub proof fn law_where_agents_work(runner: &Runner, name: Seq<char>)
    ensures
        ({
            let root = runner.workspace_root@;
            let known = lookup(agent_entries(runner.workflow.agents), name);
            let own = match known {
                Some(agent) => agent.workspace,
                None => None,
            };
            let usual = runner.workflow.defaults.working_directory;
            let place = runner.workspace_of(name);
            &&& own matches Some(path) ==> place == path_from(root, path@)
            &&& own is None && usual is Some ==> place == path_from(root, usual->0@)
            &&& own is None && usual is None ==> place == root
        }),
{
}

/// The paths of a workflow are relative to the directory that holds its file. A
/// file named without a directory is in the current one.
pub proof fn law_root_is_the_directory_of_the_file(directory: Seq<char>, name: Seq<char>)
    requires
        plain_name(name),
    ensures
        root_of(name) == seq!['.'],
        root_of(seq!['/'] + name) == seq!['/'],
        root_of(Seq::empty()) == seq!['.'],
        root_of(seq!['/']) == seq!['.'],
        directory.len() > 0 && directory.last() != '/' && significant_end(
            directory,
            directory.len() as int,
        ) == directory.len() ==> root_of(directory + seq!['/'] + name) == directory,
{
    reveal_strlit(".");
    assert("."@ =~= seq!['.']);
    law_files_without_directory(name);
    if directory.len() > 0 && directory.last() != '/' && significant_end(
        directory,
        directory.len() as int,
    ) == directory.len() {
        law_directory_of_a_file(directory, name);
    }
}

/// The handoff file is relative to the directory that holds the workflow file,
/// whatever the workspaces are.
pub proof fn law_where_the_handoff_file_is(runner: &Runner)
    ensures
        runner.handoff_path() == path_from(
            runner.workspace_root@,
            runner.workflow.handoff.path@,
        ),
{
}

/// A decision approves a step, or the step fails with the name of its review gate
/// and every issue that blocks it.
pub proof fn law_rejections_name_every_issue(
    gate: &ReviewGate,
    step: &Step,
    decision: DecisionView,
    i: int,
)
    ensures
        decision.approved ==> verdict(gate, step, decision) == Ok::<bool, WorkflowErrorView>(true),
        !decision.approved ==> (verdict(gate, step, decision) matches Err(
            WorkflowErrorView::StepFailed { step_id, message },
        ) && {
            let start = "review gate `"@ + gate.id@ + "` rejected the step"@;
            &&& step_id == step.id@
            &&& message.take(start.len() as int) == start
            &&& decision.blocking_issues.len() == 0 ==> message == start
            &&& decision.blocking_issues.len() > 0 ==> message == start + ": "@ + joined(
                decision.blocking_issues,
                "; "@,
            )
            &&& 0 <= i < decision.blocking_issues.len() ==> contains(
                message,
                decision.blocking_issues[i],
            )
        }),
{
    if !decision.approved {
        let issues = decision.blocking_issues;
        let start = "review gate `"@ + gate.id@ + "` rejected the step"@;
        let message = rejection(gate, issues);
        reveal_strlit("` rejected the step");
        reveal_strlit("` rejected the step: ");
        reveal_strlit(": ");
        assert("` rejected the step: "@ =~= "` rejected the step"@ + ": "@);
        assert(message =~= start || message =~= start + ": "@ + joined(issues, "; "@));
        assert(message.take(start.len() as int) =~= start);
        if 0 <= i < issues.len() {
            let list = joined(issues, "; "@);
            lemma_joined_contains(issues, "; "@, i);
            lemma_contains_part(start + ": "@, list, Seq::empty());
            assert(start + ": "@ + list + Seq::<char>::empty() =~= message);
            lemma_contains_within(message, list, issues[i]);
        }
    }
}

// ---------------------------------------------------------------------------
// Operations
// ---------------------------------------------------------------------------

/// The tool behind the agent of a step.
pub fn provider_for_step<'a>(workflow: &'a Workflow, step: &Step) -> (r: Result<
    &'a ConductorAgent,
    WorkflowError,
>)
    ensures
        match lookup(agent_entries(workflow.agents), step.agent@) {
            Some(config) => r matches Ok(provider) && *provider == config.provider,
            None => r matches Err(error) && error@ == WorkflowErrorView::Execution(
                "unknown agent `"@ + step.agent@ + "`"@,
            ),
        },
{
    match agent_named(&workflow.agents, step.agent.as_str()) {
        Some(agent) => Ok(&agent.provider),
        None => Err(
            WorkflowError::Execution(
                "unknown agent `".to_owned().concat(step.agent.as_str()).concat("`"),
            ),
        ),
    }
}

/// Where the workflow goes after a step with the given transition.
pub fn resolve_transition(step: &Step, transition: &Option<StepTransition>) -> (r:
    TransitionResolution)
    ensures
        r@ == resolution(step, *transition),
{
    match transition {
        None => TransitionResolution::End,
        Some(t) => match t.route {
            StepRoute::Halt => TransitionResolution::Halt,
            StepRoute::Retry => match &t.next_step {
                Some(next) => TransitionResolution::Next(next.clone()),
                None => TransitionResolution::Next(step.id.clone()),
            },
            StepRoute::Continue => match &t.next_step {
                Some(next) => TransitionResolution::Next(next.clone()),
                None => TransitionResolution::End,
            },
        },
    }
}

/// What a decision means for the step: approval, or the failure of the step
/// with the issues that block it.
pub fn review_verdict(gate: &ReviewGate, step: &Step, decision: &ReviewDecision) -> (r: Result<
    bool,
    WorkflowError,
>)
    ensures
        match r {
            Ok(approved) => verdict(gate, step, decision@) == Ok::<bool, WorkflowErrorView>(
                approved,
            ),
            Err(error) => verdict(gate, step, decision@) == Err::<bool, WorkflowErrorView>(error@),
        },
{
    if decision.approved {
        return Ok(true);
    }
    let message = if decision.blocking_issues.len() == 0 {
        "review gate `".to_owned().concat(gate.id.as_str()).concat("` rejected the step")
    } else {
        "review gate `".to_owned().concat(gate.id.as_str()).concat("` rejected the step: ").concat(
            join(&decision.blocking_issues, "; ").as_str(),
        )
    };
    Err(WorkflowError::StepFailed { step_id: step.id.clone(), message })
}

/// What the end of a command means for the step.
pub fn check_command(step: &Step, command: &str, process: &ProcessOutcome) -> (r: Result<
    (),
    WorkflowError,
>)
    ensures
        match r {
            Ok(()) => command_verdict(step, command@, process@) is Ok,
            Err(error) => command_verdict(step, command@, process@) == Err::<
                (),
                WorkflowErrorView,
            >(error@),
        },
{
    match process {
        ProcessOutcome::NotStarted(reason) => Err(
            WorkflowError::StepFailed {
                step_id: step.id.clone(),
                message: "failed to start `".to_owned().concat(command).concat("`: ").concat(
                    reason.as_str(),
                ),
            },
        ),
        ProcessOutcome::Exited { success, status, stdout, stderr } => {
            if *success {
                Ok(())
            } else {
                Err(
                    WorkflowError::StepFailed {
                        step_id: step.id.clone(),
                        message: "shell command `".to_owned().concat(command).concat(
                            "` failed with status ",
                        ).concat(status.as_str()).concat(".\nstdout:\n").concat(
                            trim(stdout.as_str()).as_str(),
                        ).concat("\nstderr:\n").concat(trim(stderr.as_str()).as_str()),
                    },
                )
            }
        },
    }
}

/// What a step that is not really taken reports.
pub fn dry_run_result(step: &Step) -> (r: StepAgentResult)
    ensures
        r@ == dry_result(step),
{
    let mut next_actions: Vec<String> = Vec::new();
    next_actions.push("Invoke the real agent executor".to_owned());
    let result = StepAgentResult {
        status: AgentRunStatus::Success,
        summary: "dry run for step `".to_owned().concat(step.id.as_str()).concat("`"),
        current_state: Some("No work executed".to_owned()),
        open_questions: Vec::new(),
        next_actions,
    };
    assert(result@.open_questions =~= dry_result(step).open_questions);
    assert(result@.next_actions =~= dry_result(step).next_actions);
    result
}

impl Runner {
    /// A run of `workflow`, whose file is at `workflow_path`.
    pub fn new(workflow: Workflow, workflow_path: &str, options: RunnerOptions) -> (r: Self)
        ensures
            r.workflow == workflow,
            r.workspace_root@ == root_of(workflow_path@),
            r.options == options,
    {
        let workspace_root = match parent_directory(workflow_path) {
            Some(parent) => {
                proof {
                    reveal_strlit("");
                    if parent@.len() == 0 {
                        assert(parent@ =~= ""@);
                    }
                }
                if same(parent.as_str(), "") {
                    ".".to_owned()
                } else {
                    parent
                }
            },
            None => ".".to_owned(),
        };
        Runner { workflow, workspace_root, options }
    }

    /// The agent that reviews a step.
    pub fn select_reviewer(&self, step: &Step) -> (r: Result<String, WorkflowError>)
        ensures
            match reviewer_of(&self.workflow, step) {
                Some(reviewer) => r matches Ok(name) && name@ == reviewer,
                None => r matches Err(error) && error@ == no_reviewer(step),
            },
    {
        if let Some(transition) = &step.on_success {
            if let Some(agent) = &transition.handoff_to {
                if !same(agent.as_str(), step.agent.as_str()) {
                    return Ok(agent.clone());
                }
            }
        }
        let known = agent_names(&self.workflow.agents);
        let ghost all = names(agent_entries(self.workflow.agents));
        let mut at: usize = 0;
        assert(all.skip(0) =~= all);
        while at < known.len()
            invariant
                at <= known@.len(),
                successor(step) is None,
                all == names(agent_entries(self.workflow.agents)),
                texts(known@) == all,
                first_other(all, step.agent@) == first_other(all.skip(at as int), step.agent@),
            decreases known@.len() - at,
        {
            assert(all.skip(at as int)[0] == known@[at as int]@);
            if !same(known[at].as_str(), step.agent.as_str()) {
                return Ok(known[at].clone());
            }
            assert(all.skip(at as int).drop_first() =~= all.skip(at + 1));
            at = at + 1;
        }
        Err(
            WorkflowError::Execution(
                "step `".to_owned().concat(step.id.as_str()).concat("` requires a ").concat(
                    review_role_name().as_str(),
                ).concat(" but no alternate agent exists"),
            ),
        )
    }

    /// The review gate and the reviewing agent of a step that must be reviewed.
    pub fn plan_review(&self, step: &Step) -> (r: Result<ReviewPlan, WorkflowError>)
        ensures
            match r {
                Ok(plan) => planned_review(&self.workflow, step) == Ok::<
                    (int, Seq<char>),
                    WorkflowErrorView,
                >((plan.gate as int, plan.reviewer@)) && plan.gate
                    < self.workflow.review_gates@.len(),
                Err(error) => planned_review(&self.workflow, step) == Err::<
                    (int, Seq<char>),
                    WorkflowErrorView,
                >(error@),
            },
    {
        match &step.review.gate {
            None => Err(
                WorkflowError::Execution(
                    "step `".to_owned().concat(step.id.as_str()).concat(
                        "` requires review but no gate was configured",
                    ),
                ),
            ),
            Some(gate_id) => {
                proof {
                    lemma_gate_position(self.workflow.review_gates@, gate_id@);
                }
                match self.workflow.gate_index(gate_id.as_str()) {
                    None => Err(
                        WorkflowError::Execution(
                            "unknown review gate `".to_owned().concat(gate_id.as_str()).concat("`"),
                        ),
                    ),
                    Some(gate) => match self.select_reviewer(step) {
                        Ok(reviewer) => Ok(ReviewPlan { gate, reviewer }),
                        Err(error) => Err(error),
                    },
                }
            },
        }
    }

    /// Where the agent of the given name works: in its own workspace, or else
    /// in that of the workflow.
    pub fn resolve_workspace(&self, agent_name: &str) -> (r: String)
        ensures
            r@ == self.workspace_of(agent_name@),
    {
        if let Some(agent) = agent_named(&self.workflow.agents, agent_name) {
            if let Some(workspace) = &agent.workspace {
                return join_path(self.workspace_root.as_str(), workspace.as_str());
            }
        }
        match &self.workflow.defaults.working_directory {
            Some(directory) => join_path(self.workspace_root.as_str(), directory.as_str()),
            None => self.workspace_root.clone(),
        }
    }
}

} // verus!
