//! The ways in which handling a workflow fails.

use vstd::prelude::*;
use vstd::string::*;

verus! {

/// A failure to load, validate or execute a workflow.
#[derive(Debug)]
pub enum WorkflowError {
    /// The workflow file could not be read; `source` says why.
    ReadFile { path: String, source: String },
    /// The workflow file does not hold a workflow; `source` says why.
    ParseYaml { path: String, source: String },
    /// The workflow contradicts itself. One line per issue.
    Validation(String),
    /// The run failed, at no step in particular.
    Execution(String),
    /// A step failed, or its review rejected it.
    StepFailed { step_id: String, message: String },
}

/// A [`WorkflowError`] with its texts as sequences of characters.
pub ghost enum WorkflowErrorView {
    ReadFile { path: Seq<char>, source: Seq<char> },
    ParseYaml { path: Seq<char>, source: Seq<char> },
    Validation(Seq<char>),
    Execution(Seq<char>),
    StepFailed { step_id: Seq<char>, message: Seq<char> },
}

impl View for WorkflowError {
    type V = WorkflowErrorView;

    open spec fn view(&self) -> WorkflowErrorView {
        match self {
            WorkflowError::ReadFile { path, source } => WorkflowErrorView::ReadFile {
                path: path@,
                source: source@,
            },
            WorkflowError::ParseYaml { path, source } => WorkflowErrorView::ParseYaml {
                path: path@,
                source: source@,
            },
            WorkflowError::Validation(issues) => WorkflowErrorView::Validation(issues@),
            WorkflowError::Execution(message) => WorkflowErrorView::Execution(message@),
            WorkflowError::StepFailed { step_id, message } => WorkflowErrorView::StepFailed {
                step_id: step_id@,
                message: message@,
            },
        }
    }
}

impl WorkflowErrorView {
    /// What is shown to the user.
    pub open spec fn text(self) -> Seq<char> {
        match self {
            WorkflowErrorView::ReadFile { path, source } => "failed to read workflow file `"@ + path
                + "`"@,
            WorkflowErrorView::ParseYaml { path, source } => "failed to parse workflow yaml `"@
                + path + "`"@,
            WorkflowErrorView::Validation(issues) => "workflow validation failed:\n"@ + issues,
            WorkflowErrorView::Execution(message) => "workflow execution failed: "@ + message,
            WorkflowErrorView::StepFailed { step_id, message } => "step `"@ + step_id
                + "` failed: "@ + message,
        }
    }

    /// What caused the failure, where something else did.
    pub open spec fn cause(self) -> Option<Seq<char>> {
        match self {
            WorkflowErrorView::ReadFile { path, source } => Some(source),
            WorkflowErrorView::ParseYaml { path, source } => Some(source),
            _ => None,
        }
    }
}

/// What is shown of a failure is what failed, and the words about it; what caused it
/// is kept apart where something else did.
pub proof fn law_failures_are_shown(a: Seq<char>, b: Seq<char>)
    ensures
        (WorkflowErrorView::ReadFile { path: a, source: b }).text()
            == "failed to read workflow file `"@ + a + "`"@,
        (WorkflowErrorView::ReadFile { path: a, source: b }).cause() == Some(b),
        (WorkflowErrorView::ParseYaml { path: a, source: b }).text()
            == "failed to parse workflow yaml `"@ + a + "`"@,
        (WorkflowErrorView::ParseYaml { path: a, source: b }).cause() == Some(b),
        WorkflowErrorView::Validation(a).text() == "workflow validation failed:\n"@ + a,
        WorkflowErrorView::Validation(a).cause() is None,
        WorkflowErrorView::Execution(a).text() == "workflow execution failed: "@ + a,
        WorkflowErrorView::Execution(a).cause() is None,
        (WorkflowErrorView::StepFailed { step_id: a, message: b }).text() == "step `"@ + a
            + "` failed: "@ + b,
        (WorkflowErrorView::StepFailed { step_id: a, message: b }).cause() is None,
{
}

impl WorkflowError {
    /// What is shown to the user.
    pub fn message(&self) -> (r: String)
        ensures
            r@ == self@.text(),
    {
        match self {
            WorkflowError::ReadFile { path, source } => {
                "failed to read workflow file `".to_owned().concat(path.as_str()).concat("`")
            },
            WorkflowError::ParseYaml { path, source } => {
                "failed to parse workflow yaml `".to_owned().concat(path.as_str()).concat("`")
            },
            WorkflowError::Validation(issues) => {
                "workflow validation failed:\n".to_owned().concat(issues.as_str())
            },
            WorkflowError::Execution(message) => {
                "workflow execution failed: ".to_owned().concat(message.as_str())
            },
            WorkflowError::StepFailed { step_id, message } => {
                "step `".to_owned().concat(step_id.as_str()).concat("` failed: ").concat(
                    message.as_str(),
                )
            },
        }
    }

    /// What caused the failure, where something else did.
    pub fn source(&self) -> (r: Option<&String>)
        ensures
            match r {
                Some(source) => self@.cause() == Some(source@),
                None => self@.cause() is None,
            },
    {
        match self {
            WorkflowError::ReadFile { path, source } => Some(source),
            WorkflowError::ParseYaml { path, source } => Some(source),
            _ => None,
        }
    }
}

/// A result with its texts as sequences of characters.
pub open spec fn outcome<T: View>(r: Result<T, WorkflowError>) -> Result<T::V, WorkflowErrorView> {
    match r {
        Ok(value) => Ok(value@),
        Err(error) => Err(error@),
    }
}

} // verus!
