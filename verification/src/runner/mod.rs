//! Running a workflow, one step at a time.

pub mod agent;
pub mod decisions;
pub mod handoff;
pub mod invocation;
pub mod laws;
pub mod machine;
pub mod output;
pub mod prompt;
pub mod types;

pub use agent::{AgentSettings, ClaudeAdapter, CodexAdapter, CommandPlan};
pub use decisions::{ReviewPlan, Runner, TransitionResolution};
pub use handoff::HandoffStore;
pub use invocation::{
    Invocation, InvokeAction, InvokeEvent, InvokePhase, Scratch, SubprocessAgentExecutor,
};
pub use machine::{RunAction, RunEvent, RunPhase, RunState};
pub use types::{
    AgentRunStatus, CompletedStep, ExecutionContext, ExecutionReport, FileRead, ProcessOutcome,
    ReviewDecision, RunStatus, RunnerOptions, StepAgentResult, StepExecutionStatus,
};
