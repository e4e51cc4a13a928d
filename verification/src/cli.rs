//! What the user asks for on the command line, and what the user is told.

use vstd::prelude::*;
use vstd::string::*;

use crate::regen::command::RegenCommand;
use crate::runner::types::{
    CompletedStep, CompletedStepView, ExecutionReport, ReportView, RunStatus, RunStatusView,
    RunnerOptions, StepExecutionStatus,
};
use crate::text::{decimal, decimal_of, texts};
use crate::workflow::maps::{agent_count, agent_entries};
use crate::workflow::model::{Step, Workflow};

verus! {

/// A command line.
#[derive(Debug, Clone)]
pub struct Cli {
    /// What is to be done.
    pub command: Option<ConductorCommand>,
    /// The workflow file.
    pub workflow: String,
    /// Whether details are shown after validation.
    pub summary: bool,
    /// How often more detail was asked for in the log.
    pub verbose: u8,
}

/// What can be done.
#[derive(Debug, Clone)]
pub enum ConductorCommand {
    /// Validate the workflow.
    Validate,
    /// Run the workflow.
    Run {
        /// With agents.
        live: bool,
        /// How many steps the run may take.
        max_steps: usize,
    },
    /// Generate a workflow for a project.
    Regen {
        /// The directory of the project, if it is not the current one.
        project_dir: Option<String>,
        /// The file is written even if it exists.
        force: bool,
    },
}

/// What a command line comes down to.
#[derive(Debug)]
pub enum Task {
    Validate { workflow: String, summary: bool },
    Run { workflow: String, options: RunnerOptions },
    Regen(RegenCommand),
}

// ---------------------------------------------------------------------------
// Meaning
// ---------------------------------------------------------------------------

/// What a command line comes down to. Without a command, the workflow is
/// validated; a run is live only where that is asked for.
pub open spec fn task_of(cli: Cli) -> Task {
    match cli.command {
        Some(ConductorCommand::Run { live, max_steps }) => Task::Run {
            workflow: cli.workflow,
            options: RunnerOptions { dry_run: !live, max_steps },
        },
        Some(ConductorCommand::Regen { project_dir, force }) => Task::Regen(
            RegenCommand { workflow_path: cli.workflow, project_dir, force },
        ),
        _ => Task::Validate { workflow: cli.workflow, summary: cli.summary },
    }
}

/// The least important messages that are logged.
pub open spec fn log_level(verbosity: u8) -> Seq<char> {
    if verbosity == 0 {
        "warn"@
    } else if verbosity == 1 {
        "info"@
    } else {
        "debug"@
    }
}

/// Which agent takes which step.
pub open spec fn step_assignments(steps: Seq<Step>) -> Seq<Seq<char>> {
    steps.map_values(
        |step: Step| "step `"@ + step.id@ + "` -> agent `"@ + step.agent@ + "`"@,
    )
}

/// What a workflow says of itself, if it does.
pub open spec fn described(description: Option<String>) -> Seq<Seq<char>> {
    match description {
        Some(text) => seq!["description: "@ + text@],
        None => Seq::empty(),
    }
}

/// What the user is told of a valid workflow.
pub open spec fn validation_text(w: &Workflow, summary: bool) -> Seq<Seq<char>> {
    let first = "validated workflow `"@ + w.name@ + "` with "@ + decimal_of(w.steps@.len())
        + " step(s), "@ + decimal_of(agent_entries(w.agents).len()) + " agent(s), "@
        + decimal_of(w.review_gates@.len()) + " review gate(s)"@;
    if summary {
        seq![first] + described(w.description) + seq!["handoff file: "@ + w.handoff.path@]
            + step_assignments(w.steps@)
    } else {
        seq![first]
    }
}

/// What the end of a step is called.
pub open spec fn status_name(status: StepExecutionStatus) -> Seq<char> {
    match status {
        StepExecutionStatus::Succeeded => "Succeeded"@,
        StepExecutionStatus::Failed => "Failed"@,
        StepExecutionStatus::DryRun => "DryRun"@,
    }
}

/// What the user is told of a step.
pub open spec fn step_text(step: CompletedStepView) -> Seq<char> {
    "step `"@ + step.step_id + "` via `"@ + step.agent + "` => "@ + status_name(step.status) + (
    if step.reviewed {
        " (reviewed)"@
    } else {
        Seq::empty()
    })
}

/// What the user is told of the end of a run.
pub open spec fn final_text(status: RunStatusView) -> Seq<char> {
    match status {
        RunStatusView::Completed => "workflow status: completed"@,
        RunStatusView::Halted => "workflow status: halted"@,
        RunStatusView::Failed(message) => "workflow status: failed: "@ + message,
    }
}

/// What the user is told of a run.
pub open spec fn execution_text(report: ReportView) -> Seq<Seq<char>> {
    seq![
        "executed workflow `"@ + report.workflow_name + "` in "@ + (if report.dry_run {
            "dry-run"@
        } else {
            "live"@
        }) + " mode"@,
    ] + report.completed_steps.map_values(|step: CompletedStepView| step_text(step)) + seq![
        final_text(report.final_status),
    ]
}

// ---------------------------------------------------------------------------
// Laws
// ---------------------------------------------------------------------------

/// No agent is called unless that is asked for.
pub proof fn law_runs_are_dry_by_default(cli: Cli)
    ensures
        task_of(cli) matches Task::Run { options, .. } && !options.dry_run ==> (cli.command
            matches Some(ConductorCommand::Run { live, .. }) && live),
{
}

/// A command line asks for what its command says, about its workflow: validation
/// where it has none, with details where they are asked for; a run that is live
/// only where that is asked for, of so many steps; or generation.
pub proof fn law_commands(cli: Cli)
    ensures
        cli.command is None || cli.command == Some(ConductorCommand::Validate) ==> task_of(cli)
            == (Task::Validate { workflow: cli.workflow, summary: cli.summary }),
        cli.command matches Some(ConductorCommand::Run { live, max_steps }) ==> (task_of(
            cli,
        ) matches Task::Run { workflow, options } && workflow == cli.workflow && options.dry_run
            != live && options.max_steps == max_steps),
        cli.command matches Some(ConductorCommand::Regen { project_dir, force }) ==> (task_of(
            cli,
        ) matches Task::Regen(command) && command.workflow_path == cli.workflow
            && command.project_dir == project_dir && command.force == force),
{
}

/// The more often detail is asked for, the more is logged: warnings always, and
/// nothing further after the second time.
pub proof fn law_log_levels(verbosity: u8)
    ensures
        verbosity == 0 ==> log_level(verbosity) == "warn"@,
        verbosity == 1 ==> log_level(verbosity) == "info"@,
        verbosity >= 2 ==> log_level(verbosity) == "debug"@,
{
}

/// What the user is told of a valid workflow is its name and how many steps, agents
/// and review gates it has. Details are what it says of itself, its handoff file and
/// the agent of every step, in order.
pub proof fn law_validation_is_told(w: &Workflow, i: int)
    ensures
        ({
            let short = validation_text(w, false);
            let long = validation_text(w, true);
            let own: int = if w.description is Some {
                1
            } else {
                0
            };
            &&& short.len() == 1
            &&& short[0] == "validated workflow `"@ + w.name@ + "` with "@ + decimal_of(
                w.steps@.len(),
            ) + " step(s), "@ + decimal_of(agent_entries(w.agents).len()) + " agent(s), "@
                + decimal_of(w.review_gates@.len()) + " review gate(s)"@
            &&& long.len() == 2 + own + w.steps@.len()
            &&& long[0] == short[0]
            &&& w.description matches Some(text) ==> long[1] == "description: "@ + text@
            &&& long[1 + own] == "handoff file: "@ + w.handoff.path@
            &&& 0 <= i < w.steps@.len() ==> long[2 + own + i] == "step `"@ + w.steps@[i].id@
                + "` -> agent `"@ + w.steps@[i].agent@ + "`"@
        }),
{
}

/// What the user is told of a run is whether it was dry, every step with its agent,
/// how it ended and whether it was reviewed, in order, and how the run ended.
pub proof fn law_execution_is_told(report: ReportView, i: int)
    ensures
        ({
            let lines = execution_text(report);
            let n = report.completed_steps.len() as int;
            &&& lines.len() == n + 2
            &&& report.dry_run ==> lines[0] == "executed workflow `"@ + report.workflow_name
                + "` in "@ + "dry-run"@ + " mode"@
            &&& !report.dry_run ==> lines[0] == "executed workflow `"@ + report.workflow_name
                + "` in "@ + "live"@ + " mode"@
            &&& 0 <= i < n ==> {
                let step = report.completed_steps[i];
                let line = "step `"@ + step.step_id + "` via `"@ + step.agent + "` => "@ + (
                match step.status {
                    StepExecutionStatus::Succeeded => "Succeeded"@,
                    StepExecutionStatus::Failed => "Failed"@,
                    StepExecutionStatus::DryRun => "DryRun"@,
                });
                &&& step.reviewed ==> lines[1 + i] == line + " (reviewed)"@
                &&& !step.reviewed ==> lines[1 + i] == line
            }
            &&& report.final_status is Completed ==> lines[n + 1] == "workflow status: completed"@
            &&& report.final_status is Halted ==> lines[n + 1] == "workflow status: halted"@
            &&& report.final_status matches RunStatusView::Failed(message) ==> lines[n + 1]
                == "workflow status: failed: "@ + message
        }),
{
    let n = report.completed_steps.len();
    if 0 <= i < n {
        let step = report.completed_steps[i];
        let line = "step `"@ + step.step_id + "` via `"@ + step.agent + "` => "@ + status_name(
            step.status,
        );
        assert(execution_text(report)[1 + i] == step_text(step));
        assert(line + Seq::<char>::empty() =~= line);
    }
}

// ---------------------------------------------------------------------------
// Operations
// ---------------------------------------------------------------------------

impl Cli {
    /// What the command line comes down to.
    pub fn task(self) -> (r: Task)
        ensures
            r == task_of(self),
    {
        match self.command {
            Some(ConductorCommand::Run { live, max_steps }) => Task::Run {
                workflow: self.workflow,
                options: RunnerOptions { dry_run: !live, max_steps },
            },
            Some(ConductorCommand::Regen { project_dir, force }) => Task::Regen(
                RegenCommand { workflow_path: self.workflow, project_dir, force },
            ),
            _ => Task::Validate { workflow: self.workflow, summary: self.summary },
        }
    }
}

/// The least important messages that are logged.
pub fn log_filter(verbosity: u8) -> (r: &'static str)
    ensures
        r@ == log_level(verbosity),
{
    match verbosity {
        0 => "warn",
        1 => "info",
        _ => "debug",
    }
}

/// What the user is told of a valid workflow.
pub fn validation_lines(workflow: &Workflow, summary: bool) -> (r: Vec<String>)
    ensures
        texts(r@) == validation_text(workflow, summary),
{
    let steps = decimal(workflow.steps.len() as u128);
    let agents = decimal(agent_count(&workflow.agents) as u128);
    let gates = decimal(workflow.review_gates.len() as u128);
    let first = "validated workflow `".to_owned().concat(workflow.name.as_str()).concat(
        "` with ",
    ).concat(steps.as_str()).concat(" step(s), ").concat(agents.as_str()).concat(
        " agent(s), ",
    ).concat(gates.as_str()).concat(" review gate(s)");
    let mut lines: Vec<String> = Vec::new();
    lines.push(first);
    if !summary {
        assert(texts(lines@) =~= validation_text(workflow, summary));
        return lines;
    }
    if let Some(description) = &workflow.description {
        lines.push("description: ".to_owned().concat(description.as_str()));
    }
    lines.push("handoff file: ".to_owned().concat(workflow.handoff.path.as_str()));
    let ghost head = seq![first@] + described(workflow.description) + seq![
        "handoff file: "@ + workflow.handoff.path@,
    ];
    let ghost all = step_assignments(workflow.steps@);
    assert(texts(lines@) =~= head + all.take(0));
    let mut at: usize = 0;
    while at < workflow.steps.len()
        invariant
            at <= workflow.steps@.len(),
            all == step_assignments(workflow.steps@),
            texts(lines@) == head + all.take(at as int),
        decreases workflow.steps@.len() - at,
    {
        let ghost before = lines@;
        let step = &workflow.steps[at];
        lines.push(
            "step `".to_owned().concat(step.id.as_str()).concat("` -> agent `").concat(
                step.agent.as_str(),
            ).concat("`"),
        );
        assert(texts(lines@) =~= texts(before).push(all[at as int]));
        at = at + 1;
        assert(texts(lines@) =~= head + all.take(at as int));
    }
    assert(all.take(at as int) =~= all);
    lines
}

/// What the user is told of a step.
fn step_line(step: &CompletedStep) -> (r: String)
    ensures
        r@ == step_text(step@),
{
    let status = match step.status {
        StepExecutionStatus::Succeeded => "Succeeded",
        StepExecutionStatus::Failed => "Failed",
        StepExecutionStatus::DryRun => "DryRun",
    };
    let line = "step `".to_owned().concat(step.step_id.as_str()).concat("` via `").concat(
        step.agent.as_str(),
    ).concat("` => ").concat(status);
    if step.reviewed {
        line.concat(" (reviewed)")
    } else {
        assert(line@ + Seq::<char>::empty() =~= line@);
        line
    }
}

/// What the user is told of a run.
pub fn execution_lines(report: &ExecutionReport) -> (r: Vec<String>)
    ensures
        texts(r@) == execution_text(report@),
{
    let mode = if report.dry_run {
        "dry-run"
    } else {
        "live"
    };
    let first = "executed workflow `".to_owned().concat(report.workflow_name.as_str()).concat(
        "` in ",
    ).concat(mode).concat(" mode");
    let mut lines: Vec<String> = Vec::new();
    lines.push(first);
    let ghost head = seq![first@];
    let ghost all = report@.completed_steps.map_values(
        |step: CompletedStepView| step_text(step),
    );
    assert(texts(lines@) =~= head + all.take(0));
    let mut at: usize = 0;
    while at < report.completed_steps.len()
        invariant
            at <= report.completed_steps@.len(),
            all == report@.completed_steps.map_values(|step: CompletedStepView| step_text(step)),
            texts(lines@) == head + all.take(at as int),
        decreases report.completed_steps@.len() - at,
    {
        let ghost before = lines@;
        lines.push(step_line(&report.completed_steps[at]));
        assert(texts(lines@) =~= texts(before).push(all[at as int]));
        at = at + 1;
        assert(texts(lines@) =~= head + all.take(at as int));
    }
    assert(all.take(at as int) =~= all);
    let last = match &report.final_status {
        RunStatus::Completed => "workflow status: completed".to_owned(),
        RunStatus::Halted => "workflow status: halted".to_owned(),
        RunStatus::Failed(message) => "workflow status: failed: ".to_owned().concat(
            message.as_str(),
        ),
    };
    let ghost before = lines@;
    lines.push(last);
    assert(texts(lines@) =~= texts(before).push(last@));
    assert(texts(lines@) =~= head + all + seq![last@]);
    lines
}

} // verus!
