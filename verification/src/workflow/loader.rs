//! Accepting a workflow from its file.

use vstd::prelude::*;

use super::model::Workflow;
use super::validate::{validate_workflow, workflow_issues};
use crate::error::{WorkflowError, WorkflowErrorView};
use crate::text::joined;

verus! {

/// What came of reading and parsing a workflow file.
pub enum WorkflowSource {
    /// The file could not be read.
    Unreadable(String),
    /// The file does not hold a workflow.
    Unparsable(String),
    /// The file holds this workflow.
    Parsed(Workflow),
}

/// Accepts the workflow of the file at `path`, if the file could be read and
/// parsed and validation finds no issue with the workflow.
pub fn load_workflow(path: &str, source: WorkflowSource) -> (r: Result<Workflow, WorkflowError>)
    ensures
        match source {
            WorkflowSource::Unreadable(reason) => r matches Err(error) && error@
                == (WorkflowErrorView::ReadFile { path: path@, source: reason@ }),
            WorkflowSource::Unparsable(reason) => r matches Err(error) && error@
                == (WorkflowErrorView::ParseYaml { path: path@, source: reason@ }),
            WorkflowSource::Parsed(workflow) => if workflow_issues(&workflow).len() == 0 {
                r matches Ok(accepted) && accepted == workflow
            } else {
                r matches Err(error) && error@ == WorkflowErrorView::Validation(
                    joined(workflow_issues(&workflow), "\n"@),
                )
            },
        },
{
    match source {
        WorkflowSource::Unreadable(reason) => Err(
            WorkflowError::ReadFile { path: path.to_owned(), source: reason },
        ),
        WorkflowSource::Unparsable(reason) => Err(
            WorkflowError::ParseYaml { path: path.to_owned(), source: reason },
        ),
        WorkflowSource::Parsed(workflow) => {
            match validate_workflow(&workflow) {
                Ok(()) => Ok(workflow),
                Err(error) => Err(error),
            }
        },
    }
}

} // verus!
