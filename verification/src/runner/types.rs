//! What goes into a run and what comes out of it.

use vstd::prelude::*;

use crate::text::{optional, texts};

verus! {

/// How a run is carried out.
#[derive(Debug, Clone, Copy)]
pub struct RunnerOptions {
    /// No agent and no command is run; every step counts as a success.
    pub dry_run: bool,
    /// How many steps the run may take.
    pub max_steps: usize,
}

/// What happened during a run.
#[derive(Debug, Clone)]
pub struct ExecutionReport {
    pub workflow_name: String,
    pub dry_run: bool,
    pub completed_steps: Vec<CompletedStep>,
    pub final_status: RunStatus,
}

/// How a run ended.
#[derive(Debug, Clone)]
pub enum RunStatus {
    /// The last step named no other.
    Completed,
    /// A step stopped the workflow.
    Halted,
    /// The run failed. Says why.
    Failed(String),
}

/// A step that has been taken.
#[derive(Debug, Clone)]
pub struct CompletedStep {
    pub step_id: String,
    pub agent: String,
    /// A review of the step was decided.
    pub reviewed: bool,
    pub status: StepExecutionStatus,
}

/// How a step ended.
#[derive(Debug, Clone, Copy, PartialEq, Eq, Structural)]
pub enum StepExecutionStatus {
    Succeeded,
    Failed,
    /// The step was not really taken.
    DryRun,
}

/// What an agent reports after a step.
#[derive(Debug, Clone)]
pub struct StepAgentResult {
    pub status: AgentRunStatus,
    pub summary: String,
    pub current_state: Option<String>,
    pub open_questions: Vec<String>,
    pub next_actions: Vec<String>,
}

/// Whether an agent did what it was asked to.
#[derive(Debug, Clone, Copy, PartialEq, Eq, Structural)]
pub enum AgentRunStatus {
    Success,
    Failure,
}

/// What the reviewing agent decides.
#[derive(Debug, Clone)]
pub struct ReviewDecision {
    pub approved: bool,
    pub summary: String,
    pub blocking_issues: Vec<String>,
}

/// What is known when a step is taken.
#[derive(Debug)]
pub struct ExecutionContext {
    pub current_step_id: String,
    pub current_agent: String,
    /// Where the agent works.
    pub workspace_root: String,
    pub handoff_path: String,
    /// The contents of the handoff file before the step.
    pub handoff_markdown: String,
}

/// What came of reading a file.
#[derive(Debug)]
pub enum FileRead {
    /// The file holds this text.
    Contents(String),
    /// There is no such file.
    NotFound,
    /// The file could not be read.
    Failed(String),
}

/// What came of running a process.
#[derive(Debug)]
pub enum ProcessOutcome {
    /// It could not be started.
    NotStarted(String),
    /// It ended.
    Exited {
        /// Whether it reported success.
        success: bool,
        /// How it ended, in words.
        status: String,
        stdout: String,
        stderr: String,
    },
}

/// An [`ExecutionReport`] with its texts as sequences of characters.
#[verifier::ext_equal]
pub ghost struct ReportView {
    pub workflow_name: Seq<char>,
    pub dry_run: bool,
    pub completed_steps: Seq<CompletedStepView>,
    pub final_status: RunStatusView,
}

/// A [`RunStatus`] with its text as a sequence of characters.
pub ghost enum RunStatusView {
    Completed,
    Halted,
    Failed(Seq<char>),
}

/// A [`CompletedStep`] with its texts as sequences of characters.
#[verifier::ext_equal]
pub ghost struct CompletedStepView {
    pub step_id: Seq<char>,
    pub agent: Seq<char>,
    pub reviewed: bool,
    pub status: StepExecutionStatus,
}

/// A [`StepAgentResult`] with its texts as sequences of characters.
#[verifier::ext_equal]
pub ghost struct AgentResultView {
    pub status: AgentRunStatus,
    pub summary: Seq<char>,
    pub current_state: Option<Seq<char>>,
    pub open_questions: Seq<Seq<char>>,
    pub next_actions: Seq<Seq<char>>,
}

/// A [`ReviewDecision`] with its texts as sequences of characters.
#[verifier::ext_equal]
pub ghost struct DecisionView {
    pub approved: bool,
    pub summary: Seq<char>,
    pub blocking_issues: Seq<Seq<char>>,
}

/// An [`ExecutionContext`] with its texts as sequences of characters.
#[verifier::ext_equal]
pub ghost struct ContextView {
    pub current_step_id: Seq<char>,
    pub current_agent: Seq<char>,
    pub workspace_root: Seq<char>,
    pub handoff_path: Seq<char>,
    pub handoff_markdown: Seq<char>,
}

/// A [`FileRead`] with its texts as sequences of characters.
pub ghost enum FileReadView {
    Contents(Seq<char>),
    NotFound,
    Failed(Seq<char>),
}

/// A [`ProcessOutcome`] with its texts as sequences of characters.
pub ghost enum ProcessView {
    NotStarted(Seq<char>),
    Exited { success: bool, status: Seq<char>, stdout: Seq<char>, stderr: Seq<char> },
}

impl View for RunStatus {
    type V = RunStatusView;

    open spec fn view(&self) -> RunStatusView {
        match self {
            RunStatus::Completed => RunStatusView::Completed,
            RunStatus::Halted => RunStatusView::Halted,
            RunStatus::Failed(message) => RunStatusView::Failed(message@),
        }
    }
}

impl View for CompletedStep {
    type V = CompletedStepView;

    open spec fn view(&self) -> CompletedStepView {
        CompletedStepView {
            step_id: self.step_id@,
            agent: self.agent@,
            reviewed: self.reviewed,
            status: self.status,
        }
    }
}

/// The steps with their texts as sequences of characters.
pub open spec fn completed_views(steps: Seq<CompletedStep>) -> Seq<CompletedStepView> {
    steps.map_values(|step: CompletedStep| step@)
}

impl View for ExecutionReport {
    type V = ReportView;

    open spec fn view(&self) -> ReportView {
        ReportView {
            workflow_name: self.workflow_name@,
            dry_run: self.dry_run,
            completed_steps: completed_views(self.completed_steps@),
            final_status: self.final_status@,
        }
    }
}

impl View for StepAgentResult {
    type V = AgentResultView;

    open spec fn view(&self) -> AgentResultView {
        AgentResultView {
            status: self.status,
            summary: self.summary@,
            current_state: optional(self.current_state),
            open_questions: texts(self.open_questions@),
            next_actions: texts(self.next_actions@),
        }
    }
}

impl View for ReviewDecision {
    type V = DecisionView;

    open spec fn view(&self) -> DecisionView {
        DecisionView {
            approved: self.approved,
            summary: self.summary@,
            blocking_issues: texts(self.blocking_issues@),
        }
    }
}

impl View for ExecutionContext {
    type V = ContextView;

    open spec fn view(&self) -> ContextView {
        ContextView {
            current_step_id: self.current_step_id@,
            current_agent: self.current_agent@,
            workspace_root: self.workspace_root@,
            handoff_path: self.handoff_path@,
            handoff_markdown: self.handoff_markdown@,
        }
    }
}

impl View for FileRead {
    type V = FileReadView;

    open spec fn view(&self) -> FileReadView {
        match self {
            FileRead::Contents(text) => FileReadView::Contents(text@),
            FileRead::NotFound => FileReadView::NotFound,
            FileRead::Failed(reason) => FileReadView::Failed(reason@),
        }
    }
}

impl View for ProcessOutcome {
    type V = ProcessView;

    open spec fn view(&self) -> ProcessView {
        match self {
            ProcessOutcome::NotStarted(reason) => ProcessView::NotStarted(reason@),
            ProcessOutcome::Exited { success, status, stdout, stderr } => ProcessView::Exited {
                success: *success,
                status: status@,
                stdout: stdout@,
                stderr: stderr@,
            },
        }
    }
}

impl Clone for ExecutionContext {
    fn clone(&self) -> (r: Self)
        ensures
            r@ == self@,
    {
        ExecutionContext {
            current_step_id: self.current_step_id.clone(),
            current_agent: self.current_agent.clone(),
            workspace_root: self.workspace_root.clone(),
            handoff_path: self.handoff_path.clone(),
            handoff_markdown: self.handoff_markdown.clone(),
        }
    }
}

} // verus!
