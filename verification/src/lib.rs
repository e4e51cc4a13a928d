//! Coordination of multi-agent workflows.
//!
//! A workflow names agents, the steps that they take, and the gates that a
//! step's result must pass. This crate decides everything that a run of a
//! workflow involves: what is wrong with a workflow, what an agent is told,
//! which command line reaches it, what its answer means, what is written to
//! the handoff file, and which step comes next. It performs no input or
//! output. Where a decision needs the outside world, it is asked for as an
//! action and handed back as an event.

pub mod cli;
pub mod codex;
pub mod error;
pub mod json;
pub mod names;
pub mod paths;
pub mod regen;
pub mod runner;
pub mod text;
pub mod workflow;
