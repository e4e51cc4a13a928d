//! A run as a machine: it names what has to be done next, and goes on when it
//! is told what came of it.

use vstd::prelude::*;
use vstd::string::*;

use super::decisions::{
    check_command, command_verdict, dry_result, dry_run_result, planned_review, resolution, resolve_transition, review_verdict, ResolutionView, Runner, TransitionResolution,
};
use super::handoff::{
    directory_error, entry_of, read_result, with_entry, write_error, HandoffStore,
};
use super::types::{
    completed_views, AgentResultView, AgentRunStatus, CompletedStep, CompletedStepView,
    ContextView, DecisionView, ExecutionContext, ExecutionReport, FileRead, FileReadView,
    ProcessOutcome, ProcessView, ReportView, ReviewDecision, RunStatus, RunStatusView,
    StepAgentResult, StepExecutionStatus,
};
use crate::error::{outcome, WorkflowError, WorkflowErrorView};
use crate::paths::{join_path, parent_directory, parent_of};
use crate::text::{copy_texts, decimal, decimal_of, optional, texts};
use crate::workflow::model::{
    lemma_gate_position, lemma_step_position, step_position, HandoffMode, Step,
};

verus! {

/// Where a run stands.
#[derive(Debug)]
pub struct RunState {
    /// The steps that have been taken.
    pub completed: Vec<CompletedStep>,
    /// What the run waits for.
    pub phase: RunPhase,
}

/// What a run waits for. Steps and review gates are given by their positions in
/// the workflow.
#[derive(Debug)]
pub enum RunPhase {
    /// The handoff file is read before a step.
    ReadContext { step: usize },
    /// The agent of a step is at work.
    RunAgent { step: usize, context: ExecutionContext },
    /// A command of a step is run.
    RunCommand { step: usize, context: ExecutionContext, result: StepAgentResult, command: usize },
    /// The directory of the handoff file is made.
    CreateDirectory { step: usize, context: ExecutionContext, result: StepAgentResult },
    /// The handoff file is read before an entry is added.
    ReadHandoff { step: usize, context: ExecutionContext, result: StepAgentResult },
    /// The handoff file is written.
    WriteHandoff { step: usize, context: ExecutionContext, result: StepAgentResult },
    /// A step is reviewed.
    Review { step: usize, gate: usize },
    /// The run is over.
    Finished,
}

/// What has to be done for a run. Steps and review gates are given by their
/// positions in the workflow.
#[derive(Debug)]
pub enum RunAction {
    /// Read the handoff file.
    ReadHandoff { path: String },
    /// Let the agent of a step work.
    RunAgent { step: usize, context: ExecutionContext },
    /// Run a shell command in a directory.
    RunCommand { command: String, workspace: String },
    /// Make a directory and those above it, where they are missing.
    CreateDirectory { path: String },
    /// Write the handoff file.
    WriteHandoff { path: String, contents: String },
    /// Let an agent review a step.
    RunReview {
        step: usize,
        gate: usize,
        reviewer: String,
        context: ExecutionContext,
        result: StepAgentResult,
    },
    /// Nothing: the run is over.
    Finish(Result<ExecutionReport, WorkflowError>),
}

/// What came of an action.
#[derive(Debug)]
pub enum RunEvent {
    HandoffRead(FileRead),
    AgentFinished(Result<StepAgentResult, WorkflowError>),
    CommandFinished(ProcessOutcome),
    DirectoryCreated { failure: Option<String> },
    HandoffWritten { failure: Option<String> },
    ReviewFinished(Result<ReviewDecision, WorkflowError>),
}

/// A [`RunState`] with its texts as sequences of characters.
#[verifier::ext_equal]
pub ghost struct StateView {
    pub completed: Seq<CompletedStepView>,
    pub phase: PhaseView,
}

/// A [`RunPhase`] with its texts as sequences of characters.
#[verifier::ext_equal]
pub ghost enum PhaseView {
    ReadContext { step: int },
    RunAgent { step: int, context: ContextView },
    RunCommand { step: int, context: ContextView, result: AgentResultView, command: int },
    CreateDirectory { step: int, context: ContextView, result: AgentResultView },
    ReadHandoff { step: int, context: ContextView, result: AgentResultView },
    WriteHandoff { step: int, context: ContextView, result: AgentResultView },
    Review { step: int, gate: int },
    Finished,
}

/// A [`RunAction`] with its texts as sequences of characters.
#[verifier::ext_equal]
pub ghost enum ActionView {
    ReadHandoff { path: Seq<char> },
    RunAgent { step: int, context: ContextView },
    RunCommand { command: Seq<char>, workspace: Seq<char> },
    CreateDirectory { path: Seq<char> },
    WriteHandoff { path: Seq<char>, contents: Seq<char> },
    RunReview {
        step: int,
        gate: int,
        reviewer: Seq<char>,
        context: ContextView,
        result: AgentResultView,
    },
    Finish(Result<ReportView, WorkflowErrorView>),
}

/// A [`RunEvent`] with its texts as sequences of characters.
pub ghost enum EventView {
    HandoffRead(FileReadView),
    AgentFinished(Result<AgentResultView, WorkflowErrorView>),
    CommandFinished(ProcessView),
    DirectoryCreated { failure: Option<Seq<char>> },
    HandoffWritten { failure: Option<Seq<char>> },
    ReviewFinished(Result<DecisionView, WorkflowErrorView>),
}

impl View for RunPhase {
    type V = PhaseView;

    open spec fn view(&self) -> PhaseView {
        match self {
            RunPhase::ReadContext { step } => PhaseView::ReadContext { step: *step as int },
            RunPhase::RunAgent { step, context } => PhaseView::RunAgent {
                step: *step as int,
                context: context@,
            },
            RunPhase::RunCommand { step, context, result, command } => PhaseView::RunCommand {
                step: *step as int,
                context: context@,
                result: result@,
                command: *command as int,
            },
            RunPhase::CreateDirectory { step, context, result } => PhaseView::CreateDirectory {
                step: *step as int,
                context: context@,
                result: result@,
            },
            RunPhase::ReadHandoff { step, context, result } => PhaseView::ReadHandoff {
                step: *step as int,
                context: context@,
                result: result@,
            },
            RunPhase::WriteHandoff { step, context, result } => PhaseView::WriteHandoff {
                step: *step as int,
                context: context@,
                result: result@,
            },
            RunPhase::Review { step, gate } => PhaseView::Review {
                step: *step as int,
                gate: *gate as int,
            },
            RunPhase::Finished => PhaseView::Finished,
        }
    }
}

impl View for RunState {
    type V = StateView;

    open spec fn view(&self) -> StateView {
        StateView { completed: completed_views(self.completed@), phase: self.phase@ }
    }
}

impl View for RunAction {
    type V = ActionView;

    open spec fn view(&self) -> ActionView {
        match self {
            RunAction::ReadHandoff { path } => ActionView::ReadHandoff { path: path@ },
            RunAction::RunAgent { step, context } => ActionView::RunAgent {
                step: *step as int,
                context: context@,
            },
            RunAction::RunCommand { command, workspace } => ActionView::RunCommand {
                command: command@,
                workspace: workspace@,
            },
            RunAction::CreateDirectory { path } => ActionView::CreateDirectory { path: path@ },
            RunAction::WriteHandoff { path, contents } => ActionView::WriteHandoff {
                path: path@,
                contents: contents@,
            },
            RunAction::RunReview { step, gate, reviewer, context, result } => {
                ActionView::RunReview {
                    step: *step as int,
                    gate: *gate as int,
                    reviewer: reviewer@,
                    context: context@,
                    result: result@,
                }
            },
            RunAction::Finish(result) => ActionView::Finish(outcome(*result)),
        }
    }
}

impl View for RunEvent {
    type V = EventView;

    open spec fn view(&self) -> EventView {
        match self {
            RunEvent::HandoffRead(read) => EventView::HandoffRead(read@),
            RunEvent::AgentFinished(result) => EventView::AgentFinished(outcome(*result)),
            RunEvent::CommandFinished(process) => EventView::CommandFinished(process@),
            RunEvent::DirectoryCreated { failure } => EventView::DirectoryCreated {
                failure: optional(*failure),
            },
            RunEvent::HandoffWritten { failure } => EventView::HandoffWritten {
                failure: optional(*failure),
            },
            RunEvent::ReviewFinished(result) => EventView::ReviewFinished(outcome(*result)),
        }
    }
}

/// A state together with what has to be done in it.
pub open spec fn progress(r: (RunState, RunAction)) -> (StateView, ActionView) {
    (r.0@, r.1@)
}

// ---------------------------------------------------------------------------
// Meaning
// ---------------------------------------------------------------------------

/// The end of a run.
pub open spec fn finished(
    completed: Seq<CompletedStepView>,
    result: Result<ReportView, WorkflowErrorView>,
) -> (StateView, ActionView) {
    (StateView { completed, phase: PhaseView::Finished }, ActionView::Finish(result))
}

/// The failure to end within the steps that a run may take.
pub open spec fn budget_error(max_steps: nat) -> WorkflowErrorView {
    WorkflowErrorView::Execution(
        "workflow exceeded max_steps limit ("@ + decimal_of(max_steps) + ")"@,
    )
}

/// What is known when a step is taken.
pub open spec fn context_of(runner: &Runner, step: &Step, markdown: Seq<char>) -> ContextView {
    ContextView {
        current_step_id: step.id@,
        current_agent: step.agent@,
        workspace_root: runner.workspace_of(step.agent@),
        handoff_path: runner.handoff_path(),
        handoff_markdown: markdown,
    }
}

/// The beginning of the step with the given id.
pub open spec fn begun(runner: &Runner, id: Seq<char>, completed: Seq<CompletedStepView>) -> (
    StateView,
    ActionView,
) {
    if completed.len() >= runner.options.max_steps {
        finished(completed, Err(budget_error(runner.options.max_steps as nat)))
    } else {
        match step_position(runner.workflow.steps@, id) {
            Some(step) => (
                StateView { completed, phase: PhaseView::ReadContext { step } },
                ActionView::ReadHandoff { path: runner.handoff_path() },
            ),
            None => finished(
                completed,
                Err(WorkflowErrorView::Execution("unknown step `"@ + id + "`"@)),
            ),
        }
    }
}

/// The beginning of a run, at the first step.
pub open spec fn started(runner: &Runner) -> (StateView, ActionView) {
    let steps = runner.workflow.steps@;
    if steps.len() == 0 {
        finished(
            Seq::empty(),
            Err(WorkflowErrorView::Execution("workflow contains no steps"@)),
        )
    } else {
        begun(runner, steps[0].id@, Seq::empty())
    }
}

/// How a step is recorded.
pub open spec fn recorded(
    runner: &Runner,
    step: &Step,
    success: bool,
    reviewed: bool,
) -> CompletedStepView {
    CompletedStepView {
        step_id: step.id@,
        agent: step.agent@,
        reviewed,
        status: if runner.options.dry_run {
            StepExecutionStatus::DryRun
        } else if success {
            StepExecutionStatus::Succeeded
        } else {
            StepExecutionStatus::Failed
        },
    }
}

/// The report of a run that ended.
pub open spec fn report_of(
    runner: &Runner,
    completed: Seq<CompletedStepView>,
    status: RunStatusView,
) -> ReportView {
    ReportView {
        workflow_name: runner.workflow.name@,
        dry_run: runner.options.dry_run,
        completed_steps: completed,
        final_status: status,
    }
}

/// The end of a step, and the way to the next one. A step that failed, or that
/// a review rejected, follows its transition for failures.
pub open spec fn settled(
    runner: &Runner,
    completed: Seq<CompletedStepView>,
    step: int,
    success: bool,
    reviewed: bool,
) -> (StateView, ActionView) {
    let taken = &runner.workflow.steps@[step];
    let now = completed.push(recorded(runner, taken, success, reviewed));
    let transition = if success {
        taken.on_success
    } else {
        taken.on_failure
    };
    match resolution(taken, transition) {
        ResolutionView::Next(id) => begun(runner, id, now),
        ResolutionView::Halt => finished(
            now,
            Ok(report_of(runner, now, RunStatusView::Halted)),
        ),
        ResolutionView::End => finished(
            now,
            Ok(report_of(runner, now, RunStatusView::Completed)),
        ),
    }
}

/// The run after a step was recorded: a review, where one is due.
pub open spec fn after_entry(
    runner: &Runner,
    completed: Seq<CompletedStepView>,
    step: int,
    context: ContextView,
    result: AgentResultView,
) -> (StateView, ActionView) {
    let taken = &runner.workflow.steps@[step];
    let success = result.status == AgentRunStatus::Success;
    if success && runner.workflow.review_required(taken) {
        match planned_review(&runner.workflow, taken) {
            Err(error) => finished(completed, Err(error)),
            Ok((gate, reviewer)) => if runner.options.dry_run {
                settled(runner, completed, step, true, true)
            } else {
                (
                    StateView { completed, phase: PhaseView::Review { step, gate } },
                    ActionView::RunReview { step, gate, reviewer, context, result },
                )
            },
        }
    } else {
        settled(runner, completed, step, success, false)
    }
}

/// The writing of an entry into a file that holds `current`.
pub open spec fn writing(
    runner: &Runner,
    completed: Seq<CompletedStepView>,
    step: int,
    context: ContextView,
    result: AgentResultView,
    current: Seq<char>,
) -> (StateView, ActionView) {
    let handoff = &runner.workflow.handoff;
    (
        StateView { completed, phase: PhaseView::WriteHandoff { step, context, result } },
        ActionView::WriteHandoff {
            path: runner.handoff_path(),
            contents: with_entry(
                handoff.mode,
                current,
                entry_of(
                    texts(handoff.required_sections@),
                    &runner.workflow.steps@[step],
                    context,
                    result,
                ),
            ),
        },
    )
}

/// The way to an entry in a file whose directory exists.
pub open spec fn adding(
    runner: &Runner,
    completed: Seq<CompletedStepView>,
    step: int,
    context: ContextView,
    result: AgentResultView,
) -> (StateView, ActionView) {
    match runner.workflow.handoff.mode {
        HandoffMode::Append => (
            StateView { completed, phase: PhaseView::ReadHandoff { step, context, result } },
            ActionView::ReadHandoff { path: runner.handoff_path() },
        ),
        HandoffMode::Replace => writing(runner, completed, step, context, result, Seq::empty()),
    }
}

/// The recording of what an agent reported, unless the workflow does without
/// entries.
pub open spec fn recording(
    runner: &Runner,
    completed: Seq<CompletedStepView>,
    step: int,
    context: ContextView,
    result: AgentResultView,
) -> (StateView, ActionView) {
    if !runner.workflow.defaults.auto_handoff {
        after_entry(runner, completed, step, context, result)
    } else {
        match parent_of(runner.handoff_path()) {
            Some(path) => (
                StateView {
                    completed,
                    phase: PhaseView::CreateDirectory { step, context, result },
                },
                ActionView::CreateDirectory { path },
            ),
            None => adding(runner, completed, step, context, result),
        }
    }
}

/// The commands of a step from the given one on.
pub open spec fn commanding(
    runner: &Runner,
    completed: Seq<CompletedStepView>,
    step: int,
    context: ContextView,
    result: AgentResultView,
    command: int,
) -> (StateView, ActionView) {
    let commands = texts(runner.workflow.steps@[step].run@);
    if command < commands.len() {
        (
            StateView {
                completed,
                phase: PhaseView::RunCommand { step, context, result, command },
            },
            ActionView::RunCommand {
                command: commands[command],
                workspace: context.workspace_root,
            },
        )
    } else {
        recording(runner, completed, step, context, result)
    }
}

/// The run after the handoff file was read for a step.
pub open spec fn informed(
    runner: &Runner,
    completed: Seq<CompletedStepView>,
    step: int,
    markdown: Seq<char>,
) -> (StateView, ActionView) {
    let taken = &runner.workflow.steps@[step];
    let context = context_of(runner, taken, markdown);
    if runner.options.dry_run {
        recording(runner, completed, step, context, dry_result(taken))
    } else {
        (
            StateView { completed, phase: PhaseView::RunAgent { step, context } },
            ActionView::RunAgent { step, context },
        )
    }
}

/// The run after an agent reported.
pub open spec fn reported(
    runner: &Runner,
    completed: Seq<CompletedStepView>,
    step: int,
    context: ContextView,
    result: AgentResultView,
) -> (StateView, ActionView) {
    if result.status == AgentRunStatus::Success {
        commanding(runner, completed, step, context, result, 0)
    } else {
        recording(runner, completed, step, context, result)
    }
}

/// The event tells what came of what the phase waits for.
pub open spec fn fits(phase: PhaseView, event: EventView) -> bool {
    match phase {
        PhaseView::ReadContext { .. } => event is HandoffRead,
        PhaseView::RunAgent { .. } => event is AgentFinished,
        PhaseView::RunCommand { .. } => event is CommandFinished,
        PhaseView::CreateDirectory { .. } => event is DirectoryCreated,
        PhaseView::ReadHandoff { .. } => event is HandoffRead,
        PhaseView::WriteHandoff { .. } => event is HandoffWritten,
        PhaseView::Review { .. } => event is ReviewFinished,
        PhaseView::Finished => false,
    }
}

/// The run after an event.
pub open spec fn resumed(runner: &Runner, state: StateView, event: EventView) -> (
    StateView,
    ActionView,
) {
    let completed = state.completed;
    match (state.phase, event) {
        (PhaseView::ReadContext { step }, EventView::HandoffRead(read)) => match read_result(
            runner.handoff_path(),
            read,
        ) {
            Ok(markdown) => informed(runner, completed, step, markdown),
            Err(error) => finished(completed, Err(error)),
        },
        (PhaseView::RunAgent { step, context }, EventView::AgentFinished(report)) => match report {
            Ok(result) => reported(runner, completed, step, context, result),
            Err(error) => finished(completed, Err(error)),
        },
        (
            PhaseView::RunCommand { step, context, result, command },
            EventView::CommandFinished(process),
        ) => {
            let taken = &runner.workflow.steps@[step];
            match command_verdict(taken, taken.run@[command]@, process) {
                Ok(_) => commanding(runner, completed, step, context, result, command + 1),
                Err(error) => finished(completed, Err(error)),
            }
        },
        (
            PhaseView::CreateDirectory { step, context, result },
            EventView::DirectoryCreated { failure },
        ) => match failure {
            None => adding(runner, completed, step, context, result),
            Some(reason) => finished(
                completed,
                Err(directory_error(parent_of(runner.handoff_path())->0, reason)),
            ),
        },
        (PhaseView::ReadHandoff { step, context, result }, EventView::HandoffRead(read)) => {
            match read_result(runner.handoff_path(), read) {
                Ok(current) => writing(runner, completed, step, context, result, current),
                Err(error) => finished(completed, Err(error)),
            }
        },
        (
            PhaseView::WriteHandoff { step, context, result },
            EventView::HandoffWritten { failure },
        ) => match failure {
            None => after_entry(runner, completed, step, context, result),
            Some(reason) => finished(
                completed,
                Err(
                    write_error(runner.handoff_path(), runner.workflow.handoff.mode, reason),
                ),
            ),
        },
        (PhaseView::Review { step, gate }, EventView::ReviewFinished(decided)) => match decided {
            Ok(decision) => settled(runner, completed, step, decision.approved, true),
            Err(error) => finished(completed, Err(error)),
        },
        _ => arbitrary(),
    }
}

/// The record says that the step was taken. One that did not fail was reviewed
/// where it must be, and only such a step is reviewed.
pub open spec fn records(
    runner: &Runner,
    record: CompletedStepView,
    step: int,
    success: bool,
    reviewed: bool,
) -> bool {
    let steps = runner.workflow.steps@;
    &&& 0 <= step < steps.len()
    &&& record == recorded(runner, &steps[step], success, reviewed)
    &&& runner.options.dry_run ==> success
    &&& runner.workflow.review_required(&steps[step]) && success ==> reviewed
    &&& reviewed ==> runner.workflow.review_required(&steps[step])
}

/// A record that a run can hold.
pub open spec fn recordable(runner: &Runner, record: CompletedStepView) -> bool {
    exists|step: int, success: bool, reviewed: bool|
        records(runner, record, step, success, reviewed)
}

/// A step that is being taken, by its position: it exists, and what is known
/// and reported of it is about it.
pub open spec fn under_way(
    runner: &Runner,
    step: int,
    context: ContextView,
    result: AgentResultView,
) -> bool {
    let steps = runner.workflow.steps@;
    &&& 0 <= step < steps.len()
    &&& context == context_of(runner, &steps[step], context.handoff_markdown)
    &&& runner.options.dry_run ==> result == dry_result(&steps[step])
}

/// A state that a run can be in.
pub open spec fn valid(runner: &Runner, state: StateView) -> bool {
    let steps = runner.workflow.steps@;
    &&& state.completed.len() <= runner.options.max_steps
    &&& !(state.phase is Finished) ==> state.completed.len() < runner.options.max_steps
    &&& forall|i: int|
        0 <= i < state.completed.len() ==> recordable(runner, #[trigger] state.completed[i])
    &&& match state.phase {
        PhaseView::ReadContext { step } => 0 <= step < steps.len(),
        PhaseView::RunAgent { step, context } => {
            &&& 0 <= step < steps.len()
            &&& context == context_of(runner, &steps[step], context.handoff_markdown)
            &&& !runner.options.dry_run
        },
        PhaseView::RunCommand { step, context, result, command } => {
            &&& under_way(runner, step, context, result)
            &&& 0 <= command < steps[step].run@.len()
            &&& result.status == AgentRunStatus::Success
            &&& !runner.options.dry_run
        },
        PhaseView::CreateDirectory { step, context, result } => {
            &&& under_way(runner, step, context, result)
            &&& parent_of(runner.handoff_path()) is Some
        },
        PhaseView::ReadHandoff { step, context, result } => {
            &&& under_way(runner, step, context, result)
            &&& runner.workflow.handoff.mode == HandoffMode::Append
        },
        PhaseView::WriteHandoff { step, context, result } => under_way(
            runner,
            step,
            context,
            result,
        ),
        PhaseView::Review { step, gate } => {
            &&& 0 <= step < steps.len()
            &&& 0 <= gate < runner.workflow.review_gates@.len()
            &&& runner.workflow.review_required(&steps[step])
            &&& !runner.options.dry_run
        },
        PhaseView::Finished => true,
    }
}

// ---------------------------------------------------------------------------
// Proofs
// ---------------------------------------------------------------------------

proof fn lemma_begun_valid(runner: &Runner, id: Seq<char>, completed: Seq<CompletedStepView>)
    requires
        valid(runner, StateView { completed, phase: PhaseView::Finished }),
    ensures
        valid(runner, begun(runner, id, completed).0),
{
    lemma_step_position(runner.workflow.steps@, id);
}

proof fn lemma_settled_valid(
    runner: &Runner,
    completed: Seq<CompletedStepView>,
    step: int,
    success: bool,
    reviewed: bool,
)
    requires
        valid(runner, StateView { completed, phase: PhaseView::Finished }),
        completed.len() < runner.options.max_steps,
        0 <= step < runner.workflow.steps@.len(),
        runner.options.dry_run ==> success,
        runner.workflow.review_required(&runner.workflow.steps@[step]) && success ==> reviewed,
        reviewed ==> runner.workflow.review_required(&runner.workflow.steps@[step]),
    ensures
        valid(runner, settled(runner, completed, step, success, reviewed).0),
{
    let taken = &runner.workflow.steps@[step];
    let now = completed.push(recorded(runner, taken, success, reviewed));
    let over = StateView { completed: now, phase: PhaseView::Finished };
    let record = recorded(runner, taken, success, reviewed);
    assert(records(runner, record, step, success, reviewed));
    assert(recordable(runner, record));
    assert(forall|i: int| 0 <= i < completed.len() ==> now[i] == completed[i]);
    assert(valid(runner, over));
    let transition = if success {
        taken.on_success
    } else {
        taken.on_failure
    };
    if let ResolutionView::Next(id) = resolution(taken, transition) {
        lemma_begun_valid(runner, id, now);
    }
}

/// Every state that a run begins in is one that it can be in.
pub proof fn law_started_valid(runner: &Runner)
    ensures
        valid(runner, started(runner).0),
{
    let steps = runner.workflow.steps@;
    if steps.len() > 0 {
        lemma_begun_valid(runner, steps[0].id@, Seq::empty());
    }
}

/// Every event leads from a state that a run can be in to another such state.
pub proof fn law_resumed_valid(runner: &Runner, state: StateView, event: EventView)
    requires
        valid(runner, state),
        fits(state.phase, event),
    ensures
        valid(runner, resumed(runner, state, event).0),
{
    let completed = state.completed;
    let over = StateView { completed, phase: PhaseView::Finished };
    assert(valid(runner, over));
    match (state.phase, event) {
        (PhaseView::ReadContext { step }, EventView::HandoffRead(read)) => {
            if let Ok(markdown) = read_result(runner.handoff_path(), read) {
                let taken = &runner.workflow.steps@[step];
                let context = context_of(runner, taken, markdown);
                if runner.options.dry_run {
                    lemma_after_entry_valid(runner, completed, step, context, dry_result(taken));
                }
            }
        },
        (PhaseView::RunAgent { step, context }, EventView::AgentFinished(report)) => {
            if let Ok(result) = report {
                lemma_after_entry_valid(runner, completed, step, context, result);
            }
        },
        (PhaseView::RunCommand { step, context, result, .. }, _) => {
            lemma_after_entry_valid(runner, completed, step, context, result);
        },
        (PhaseView::WriteHandoff { step, context, result }, _) => {
            lemma_after_entry_valid(runner, completed, step, context, result);
        },
        (PhaseView::Review { step, gate }, EventView::ReviewFinished(decided)) => {
            if let Ok(decision) = decided {
                lemma_settled_valid(runner, completed, step, decision.approved, true);
            }
        },
        _ => {},
    }
}

proof fn lemma_after_entry_valid(
    runner: &Runner,
    completed: Seq<CompletedStepView>,
    step: int,
    context: ContextView,
    result: AgentResultView,
)
    requires
        valid(runner, StateView { completed, phase: PhaseView::Finished }),
        completed.len() < runner.options.max_steps,
        under_way(runner, step, context, result),
    ensures
        valid(runner, after_entry(runner, completed, step, context, result).0),
{
    let taken = &runner.workflow.steps@[step];
    let success = result.status == AgentRunStatus::Success;
    if let Some(gate_id) = taken.review.gate {
        lemma_gate_position(runner.workflow.review_gates@, gate_id@);
    }
    if success && runner.workflow.review_required(taken) {
        lemma_settled_valid(runner, completed, step, true, true);
    } else {
        lemma_settled_valid(runner, completed, step, success, false);
    }
}

// ---------------------------------------------------------------------------
// Operations
// ---------------------------------------------------------------------------

/// The end of a run.
fn finish(completed: Vec<CompletedStep>, result: Result<ExecutionReport, WorkflowError>) -> (r: (
    RunState,
    RunAction,
))
    ensures
        progress(r) == finished(completed_views(completed@), outcome(result)),
{
    (RunState { completed, phase: RunPhase::Finished }, RunAction::Finish(result))
}

/// A copy of the steps that have been taken.
fn copy_completed(completed: &Vec<CompletedStep>) -> (r: Vec<CompletedStep>)
    ensures
        completed_views(r@) == completed_views(completed@),
{
    let mut r: Vec<CompletedStep> = Vec::new();
    let mut at: usize = 0;
    while at < completed.len()
        invariant
            at <= completed@.len(),
            completed_views(r@) == completed_views(completed@).take(at as int),
        decreases completed@.len() - at,
    {
        let ghost before = r@;
        let step = &completed[at];
        r.push(
            CompletedStep {
                step_id: step.step_id.clone(),
                agent: step.agent.clone(),
                reviewed: step.reviewed,
                status: step.status,
            },
        );
        at = at + 1;
        assert(completed_views(r@) =~= completed_views(before).push(completed@[at - 1]@));
        assert(completed_views(completed@).take(at as int) =~= completed_views(completed@).take(
            at - 1,
        ).push(completed@[at - 1]@));
    }
    assert(completed_views(completed@).take(at as int) =~= completed_views(completed@));
    r
}

impl Runner {
    /// Begins the run, at the first step.
    pub fn run(&self) -> (r: (RunState, RunAction))
        ensures
            progress(r) == started(self),
            valid(self, r.0@),
    {
        proof {
            law_started_valid(self);
        }
        let completed: Vec<CompletedStep> = Vec::new();
        assert(completed_views(completed@) =~= Seq::empty());
        if self.workflow.steps.len() == 0 {
            finish(
                completed,
                Err(WorkflowError::Execution("workflow contains no steps".to_owned())),
            )
        } else {
            self.begin(self.workflow.steps[0].id.as_str(), completed)
        }
    }

    /// Goes on with the run, given what came of the last action.
    pub fn resume(&self, state: RunState, event: RunEvent) -> (r: (RunState, RunAction))
        requires
            valid(self, state@),
            fits(state@.phase, event@),
        ensures
            progress(r) == resumed(self, state@, event@),
            valid(self, r.0@),
    {
        proof {
            law_resumed_valid(self, state@, event@);
        }
        let completed = state.completed;
        match (state.phase, event) {
            (RunPhase::ReadContext { step }, RunEvent::HandoffRead(read)) => {
                match self.handoff_store().read(read) {
                    Ok(markdown) => self.inform(completed, step, markdown),
                    Err(error) => finish(completed, Err(error)),
                }
            },
            (RunPhase::RunAgent { step, context }, RunEvent::AgentFinished(report)) => {
                match report {
                    Ok(result) => {
                        if result.status == AgentRunStatus::Success {
                            self.command(completed, step, context, result, 0)
                        } else {
                            self.record(completed, step, context, result)
                        }
                    },
                    Err(error) => finish(completed, Err(error)),
                }
            },
            (
                RunPhase::RunCommand { step, context, result, command },
                RunEvent::CommandFinished(process),
            ) => {
                let taken = &self.workflow.steps[step];
                assert(command < taken.run.len());
                match check_command(taken, taken.run[command].as_str(), &process) {
                    Ok(()) => self.command(completed, step, context, result, command + 1),
                    Err(error) => finish(completed, Err(error)),
                }
            },
            (
                RunPhase::CreateDirectory { step, context, result },
                RunEvent::DirectoryCreated { failure },
            ) => {
                let store = self.handoff_store();
                match (failure, parent_directory(store.path())) {
                    (Some(reason), Some(directory)) => finish(
                        completed,
                        Err(store.directory_failure(directory.as_str(), reason.as_str())),
                    ),
                    _ => self.add_entry(completed, step, context, result),
                }
            },
            (RunPhase::ReadHandoff { step, context, result }, RunEvent::HandoffRead(read)) => {
                match self.handoff_store().read(read) {
                    Ok(current) => self.write_entry(
                        completed,
                        step,
                        context,
                        result,
                        current.as_str(),
                    ),
                    Err(error) => finish(completed, Err(error)),
                }
            },
            (
                RunPhase::WriteHandoff { step, context, result },
                RunEvent::HandoffWritten { failure },
            ) => match failure {
                None => self.go_on(completed, step, context, result),
                Some(reason) => finish(
                    completed,
                    Err(self.handoff_store().write_failure(reason.as_str())),
                ),
            },
            (RunPhase::Review { step, gate }, RunEvent::ReviewFinished(decided)) => match decided {
                Ok(decision) => {
                    match review_verdict(
                        &self.workflow.review_gates[gate],
                        &self.workflow.steps[step],
                        &decision,
                    ) {
                        Err(_) => self.settle(completed, step, false, true),
                        Ok(_) => self.settle(completed, step, true, true),
                    }
                },
                Err(error) => finish(completed, Err(error)),
            },
            _ => vstd::pervasive::unreached(),
        }
    }

    /// The handoff file of the workflow.
    pub fn handoff_store(&self) -> (r: HandoffStore)
        ensures
            r.path@ == self.handoff_path(),
            r.mode == self.workflow.handoff.mode,
            texts(r.required_sections@) == texts(self.workflow.handoff.required_sections@),
    {
        HandoffStore::new(
            join_path(self.workspace_root.as_str(), self.workflow.handoff.path.as_str()),
            self.workflow.handoff.mode,
            copy_texts(&self.workflow.handoff.required_sections),
        )
    }

    fn begin(&self, id: &str, completed: Vec<CompletedStep>) -> (r: (RunState, RunAction))
        ensures
            progress(r) == begun(self, id@, completed_views(completed@)),
    {
        proof {
            lemma_step_position(self.workflow.steps@, id@);
        }
        if completed.len() >= self.options.max_steps {
            return finish(
                completed,
                Err(
                    WorkflowError::Execution(
                        "workflow exceeded max_steps limit (".to_owned().concat(
                            decimal(self.options.max_steps as u128).as_str(),
                        ).concat(")"),
                    ),
                ),
            );
        }
        match self.workflow.step_index(id) {
            Some(step) => (
                RunState { completed, phase: RunPhase::ReadContext { step } },
                RunAction::ReadHandoff { path: self.handoff_store().path },
            ),
            None => finish(
                completed,
                Err(WorkflowError::Execution("unknown step `".to_owned().concat(id).concat("`"))),
            ),
        }
    }

    fn inform(&self, completed: Vec<CompletedStep>, step: usize, markdown: String) -> (r: (
        RunState,
        RunAction,
    ))
        requires
            step < self.workflow.steps@.len(),
        ensures
            progress(r) == informed(
                self,
                completed_views(completed@),
                step as int,
                markdown@,
            ),
    {
        let taken = &self.workflow.steps[step];
        let context = ExecutionContext {
            current_step_id: taken.id.clone(),
            current_agent: taken.agent.clone(),
            workspace_root: self.resolve_workspace(taken.agent.as_str()),
            handoff_path: self.handoff_store().path,
            handoff_markdown: markdown,
        };
        if self.options.dry_run {
            self.record(completed, step, context, dry_run_result(taken))
        } else {
            let known = context.clone();
            (
                RunState { completed, phase: RunPhase::RunAgent { step, context } },
                RunAction::RunAgent { step, context: known },
            )
        }
    }

    fn command(
        &self,
        completed: Vec<CompletedStep>,
        step: usize,
        context: ExecutionContext,
        result: StepAgentResult,
        command: usize,
    ) -> (r: (RunState, RunAction))
        requires
            step < self.workflow.steps@.len(),
        ensures
            progress(r) == commanding(
                self,
                completed_views(completed@),
                step as int,
                context@,
                result@,
                command as int,
            ),
    {
        let taken = &self.workflow.steps[step];
        if command < taken.run.len() {
            let workspace = context.workspace_root.clone();
            (
                RunState {
                    completed,
                    phase: RunPhase::RunCommand { step, context, result, command },
                },
                RunAction::RunCommand { command: taken.run[command].clone(), workspace },
            )
        } else {
            self.record(completed, step, context, result)
        }
    }

    fn record(
        &self,
        completed: Vec<CompletedStep>,
        step: usize,
        context: ExecutionContext,
        result: StepAgentResult,
    ) -> (r: (RunState, RunAction))
        requires
            step < self.workflow.steps@.len(),
        ensures
            progress(r) == recording(
                self,
                completed_views(completed@),
                step as int,
                context@,
                result@,
            ),
    {
        if !self.workflow.defaults.auto_handoff {
            return self.go_on(completed, step, context, result);
        }
        match parent_directory(self.handoff_store().path()) {
            Some(path) => (
                RunState { completed, phase: RunPhase::CreateDirectory { step, context, result } },
                RunAction::CreateDirectory { path },
            ),
            None => self.add_entry(completed, step, context, result),
        }
    }

    fn add_entry(
        &self,
        completed: Vec<CompletedStep>,
        step: usize,
        context: ExecutionContext,
        result: StepAgentResult,
    ) -> (r: (RunState, RunAction))
        requires
            step < self.workflow.steps@.len(),
        ensures
            progress(r) == adding(
                self,
                completed_views(completed@),
                step as int,
                context@,
                result@,
            ),
    {
        match self.workflow.handoff.mode {
            HandoffMode::Append => (
                RunState { completed, phase: RunPhase::ReadHandoff { step, context, result } },
                RunAction::ReadHandoff { path: self.handoff_store().path },
            ),
            HandoffMode::Replace => {
                proof {
                    reveal_strlit("");
                    assert(""@ =~= Seq::<char>::empty());
                }
                self.write_entry(completed, step, context, result, "")
            },
        }
    }

    fn write_entry(
        &self,
        completed: Vec<CompletedStep>,
        step: usize,
        context: ExecutionContext,
        result: StepAgentResult,
        current: &str,
    ) -> (r: (RunState, RunAction))
        requires
            step < self.workflow.steps@.len(),
        ensures
            progress(r) == writing(
                self,
                completed_views(completed@),
                step as int,
                context@,
                result@,
                current@,
            ),
    {
        let store = self.handoff_store();
        let contents = store.record_step(&self.workflow.steps[step], &context, &result, current);
        (
            RunState { completed, phase: RunPhase::WriteHandoff { step, context, result } },
            RunAction::WriteHandoff { path: store.path, contents },
        )
    }

    fn go_on(
        &self,
        completed: Vec<CompletedStep>,
        step: usize,
        context: ExecutionContext,
        result: StepAgentResult,
    ) -> (r: (RunState, RunAction))
        requires
            step < self.workflow.steps@.len(),
        ensures
            progress(r) == after_entry(
                self,
                completed_views(completed@),
                step as int,
                context@,
                result@,
            ),
    {
        let taken = &self.workflow.steps[step];
        let success = result.status == AgentRunStatus::Success;
        if success && self.workflow.is_review_required(taken) {
            match self.plan_review(taken) {
                Err(error) => finish(completed, Err(error)),
                Ok(plan) => {
                    if self.options.dry_run {
                        self.settle(completed, step, true, true)
                    } else {
                        (
                            RunState {
                                completed,
                                phase: RunPhase::Review { step, gate: plan.gate },
                            },
                            RunAction::RunReview {
                                step,
                                gate: plan.gate,
                                reviewer: plan.reviewer,
                                context,
                                result,
                            },
                        )
                    }
                },
            }
        } else {
            self.settle(completed, step, success, false)
        }
    }

    fn settle(
        &self,
        completed: Vec<CompletedStep>,
        step: usize,
        success: bool,
        reviewed: bool,
    ) -> (r: (RunState, RunAction))
        requires
            step < self.workflow.steps@.len(),
        ensures
            progress(r) == settled(
                self,
                completed_views(completed@),
                step as int,
                success,
                reviewed,
            ),
    {
        let taken = &self.workflow.steps[step];
        let mut completed = completed;
        let ghost before = completed@;
        completed.push(
            CompletedStep {
                step_id: taken.id.clone(),
                agent: taken.agent.clone(),
                reviewed,
                status: if self.options.dry_run {
                    StepExecutionStatus::DryRun
                } else if success {
                    StepExecutionStatus::Succeeded
                } else {
                    StepExecutionStatus::Failed
                },
            },
        );
        assert(completed_views(completed@) =~= completed_views(before).push(
            recorded(self, taken, success, reviewed),
        ));
        let transition = if success {
            &taken.on_success
        } else {
            &taken.on_failure
        };
        match resolve_transition(taken, transition) {
            TransitionResolution::Next(id) => self.begin(id.as_str(), completed),
            TransitionResolution::Halt => {
                let report = self.report(&completed, RunStatus::Halted);
                finish(completed, Ok(report))
            },
            TransitionResolution::End => {
                let report = self.report(&completed, RunStatus::Completed);
                finish(completed, Ok(report))
            },
        }
    }

    fn report(&self, completed: &Vec<CompletedStep>, final_status: RunStatus) -> (r:
        ExecutionReport)
        ensures
            r@ == report_of(self, completed_views(completed@), final_status@),
    {
        ExecutionReport {
            workflow_name: self.workflow.name.clone(),
            dry_run: self.options.dry_run,
            completed_steps: copy_completed(completed),
            final_status,
        }
    }
}

} // verus!
