//! What a workflow is, how it is loaded, and when it makes sense.

pub mod loader;
pub mod maps;
pub mod model;
pub mod validate;

pub use loader::{load_workflow, WorkflowSource};
pub use model::{
    AgentConfig, ConductorAgent, HandoffConfig, HandoffMode, ReviewGate, ReviewRequirement,
    Snippet, Step, StepRoute, StepTransition, Workflow, WorkflowDefaults,
};
pub use validate::validate_workflow;
