//! Generating a workflow for a project.

pub mod analysis;
pub mod command;
pub mod layout;
pub mod reading;
pub mod render;
pub mod yaml;

pub use analysis::{Manifest, ProjectAnalysis, ProjectKind, ProjectProbe, RegenError};
pub use command::{
    Answer, RegenAction, RegenCommand, RegenEvent, RegenPhase, RegenReport, RegenRun,
};
