use conductor::cli::execution_lines;
use conductor::error::WorkflowError;
use conductor::names::{command_name, review_role_name};
use conductor::runner::decisions::{provider_for_step, resolve_transition, review_verdict};
use conductor::runner::handoff::{handoff_mode_name, markdown_list};
use conductor::runner::prompt::{build_review_prompt, build_step_prompt, expand_step_prompt};
use conductor::runner::{
    AgentRunStatus, ExecutionContext, ExecutionReport, FileRead, HandoffStore, ProcessOutcome,
    ReviewDecision, RunAction, RunEvent, RunPhase, RunStatus, Runner, RunnerOptions,
    StepAgentResult, StepExecutionStatus, TransitionResolution,
};
use conductor::workflow::{load_workflow, WorkflowSource};
use conductor::workflow::{
    AgentConfig, ConductorAgent, HandoffConfig, HandoffMode, ReviewGate, ReviewRequirement,
    Snippet, Step, StepRoute, StepTransition, Workflow, WorkflowDefaults,
};
use indexmap::IndexMap;
use serde_yaml::Value;

fn text_of(value: &Value) -> String {
    value.as_str().expect("text").to_string()
}

fn optional_text(value: &Value, key: &str) -> Option<String> {
    value.get(key).map(text_of)
}

fn texts_of(value: &Value, key: &str) -> Vec<String> {
    match value.get(key) {
        Some(items) => items.as_sequence().expect("list").iter().map(text_of).collect(),
        None => Vec::new(),
    }
}

fn transition_of(value: &Value) -> StepTransition {
    StepTransition {
        handoff_to: optional_text(value, "handoff_to"),
        next_step: optional_text(value, "next_step"),
        route: match optional_text(value, "route").as_deref() {
            None | Some("continue") => StepRoute::Continue,
            Some("retry") => StepRoute::Retry,
            Some("halt") => StepRoute::Halt,
            Some(other) => panic!("route {other}"),
        },
    }
}

fn step_of(value: &Value) -> Step {
    Step {
        id: text_of(&value["id"]),
        title: text_of(&value["title"]),
        agent: text_of(&value["agent"]),
        prompt: optional_text(value, "prompt"),
        run: texts_of(value, "run"),
        snippets: texts_of(value, "snippets"),
        review: match value.get("review") {
            Some(review) => ReviewRequirement {
                gate: optional_text(review, "gate"),
                required: review.get("required").and_then(|required| required.as_bool()),
            },
            None => ReviewRequirement::default(),
        },
        on_success: value.get("on_success").map(transition_of),
        on_failure: value.get("on_failure").map(transition_of),
    }
}

fn workflow_of(yaml: &str) -> Workflow {
    let value: Value = serde_yaml::from_str(yaml).expect("yaml");
    let mut agents: IndexMap<String, AgentConfig> = IndexMap::new();
    for (name, agent) in value["agents"].as_mapping().expect("agents") {
        agents.insert(
            text_of(name),
            AgentConfig {
                provider: match agent["provider"].as_str() {
                    Some("claude_code") => ConductorAgent::ClaudeCode,
                    _ => ConductorAgent::OpenAiCodex,
                },
                model: optional_text(agent, "model"),
                profile: optional_text(agent, "profile"),
                workspace: optional_text(agent, "workspace"),
                env: IndexMap::new(),
            },
        );
    }
    let mut snippets: IndexMap<String, Snippet> = IndexMap::new();
    if let Some(all) = value.get("snippets") {
        for (name, snippet) in all.as_mapping().expect("snippets") {
            snippets.insert(
                text_of(name),
                Snippet {
                    trigger: text_of(&snippet["trigger"]),
                    content: text_of(&snippet["content"]),
                    description: optional_text(snippet, "description"),
                },
            );
        }
    }
    let mut gates: Vec<ReviewGate> = Vec::new();
    if let Some(all) = value.get("review_gates") {
        for gate in all.as_sequence().expect("gates") {
            gates.push(ReviewGate {
                id: text_of(&gate["id"]),
                name: text_of(&gate["name"]),
                required_approvers: 1,
                instructions: optional_text(gate, "instructions"),
            });
        }
    }
    let mut defaults = WorkflowDefaults::default();
    if let Some(given) = value.get("defaults") {
        defaults.review_required =
            given.get("review_required").and_then(|flag| flag.as_bool()).unwrap_or(false);
        defaults.working_directory = optional_text(given, "working_directory");
    }
    let mut handoff = HandoffConfig::default();
    if let Some(given) = value.get("handoff") {
        handoff.required_sections = texts_of(given, "required_sections");
        if let Some(path) = optional_text(given, "path") {
            handoff.path = path;
        }
        if optional_text(given, "mode").as_deref() == Some("replace") {
            handoff.mode = HandoffMode::Replace;
        }
    }
    Workflow {
        version: text_of(&value["version"]),
        name: text_of(&value["name"]),
        description: optional_text(&value, "description"),
        defaults,
        handoff,
        snippets,
        agents,
        steps: value["steps"].as_sequence().expect("steps").iter().map(step_of).collect(),
        review_gates: gates,
    }
}

/// The command of the tool that prints its answers.
fn lead() -> String {
    command_name(ConductorAgent::ClaudeCode)
}

/// What surrounds a run.
struct World {
    steps: Vec<Result<StepAgentResult, WorkflowError>>,
    reviews: Vec<Result<ReviewDecision, WorkflowError>>,
    commands: Vec<ProcessOutcome>,
    file: Option<String>,
    directory_failure: Option<String>,
    write_failure: Option<String>,
    log: Vec<String>,
}

fn world(
    steps: Vec<Result<StepAgentResult, WorkflowError>>,
    reviews: Vec<Result<ReviewDecision, WorkflowError>>,
) -> World {
    World {
        steps,
        reviews,
        commands: Vec::new(),
        file: None,
        directory_failure: None,
        write_failure: None,
        log: Vec::new(),
    }
}

fn drive(runner: &Runner, world: &mut World) -> Result<ExecutionReport, WorkflowError> {
    let (mut state, mut action) = runner.run();
    loop {
        let event = match action {
            RunAction::ReadHandoff { path } => {
                world.log.push(format!("read {path}"));
                RunEvent::HandoffRead(match &world.file {
                    Some(text) => FileRead::Contents(text.clone()),
                    None => FileRead::NotFound,
                })
            }
            RunAction::RunAgent { step, context } => {
                assert_eq!(context.current_step_id, runner.workflow.steps[step].id);
                world.log.push(format!(
                    "agent {} in {} sees {:?}",
                    context.current_agent, context.workspace_root, context.handoff_markdown
                ));
                RunEvent::AgentFinished(world.steps.remove(0))
            }
            RunAction::RunCommand { command, workspace } => {
                world.log.push(format!("run {command} in {workspace}"));
                RunEvent::CommandFinished(world.commands.remove(0))
            }
            RunAction::CreateDirectory { path } => {
                world.log.push(format!("mkdir {path}"));
                RunEvent::DirectoryCreated { failure: world.directory_failure.take() }
            }
            RunAction::WriteHandoff { path, contents } => {
                world.log.push(format!("write {path}"));
                world.file = Some(contents);
                RunEvent::HandoffWritten { failure: world.write_failure.take() }
            }
            RunAction::RunReview { step, gate, reviewer: agent, .. } => {
                world.log.push(format!(
                    "review {} at {} by {agent}",
                    runner.workflow.steps[step].id, runner.workflow.review_gates[gate].id
                ));
                RunEvent::ReviewFinished(world.reviews.remove(0))
            }
            RunAction::Finish(result) => {
                assert!(matches!(state.phase, RunPhase::Finished));
                return result;
            }
        };
        (state, action) = runner.resume(state, event);
    }
}

fn reply(status: AgentRunStatus, summary: &str) -> Result<StepAgentResult, WorkflowError> {
    Ok(StepAgentResult {
        status,
        summary: summary.to_string(),
        current_state: None,
        open_questions: Vec::new(),
        next_actions: Vec::new(),
    })
}

fn success() -> Result<StepAgentResult, WorkflowError> {
    reply(AgentRunStatus::Success, "done")
}

fn failure() -> Result<StepAgentResult, WorkflowError> {
    reply(AgentRunStatus::Failure, "stuck")
}

fn decision(approved: bool, issues: Vec<&str>) -> Result<ReviewDecision, WorkflowError> {
    Ok(ReviewDecision {
        approved,
        summary: "looked at it".to_string(),
        blocking_issues: issues.into_iter().map(str::to_string).collect(),
    })
}

fn live(yaml: &str, max_steps: usize) -> Runner {
    Runner::new(
        workflow_of(yaml),
        "/work/workflow.yaml",
        RunnerOptions { dry_run: false, max_steps },
    )
}

fn exited(success: bool) -> ProcessOutcome {
    ProcessOutcome::Exited {
        success,
        status: "exit status: 3".to_string(),
        stdout: " out \n".to_string(),
        stderr: "err\n".to_string(),
    }
}

fn ids(report: &ExecutionReport) -> Vec<&str> {
    report.completed_steps.iter().map(|step| step.step_id.as_str()).collect()
}

#[test]
fn executes_reviewed_workflow_path() {
    let yaml = format!(
        r#"
version: "1"
name: "runner-test"
handoff:
  path: "handover.md"
agents:
  {lead}:
    provider: "claude_code"
  codex:
    provider: "open_ai_codex"
steps:
  - id: "design"
    title: "Design"
    agent: "{lead}"
    on_success:
      handoff_to: "codex"
      next_step: "review"
      route: "continue"
  - id: "review"
    title: "Review"
    agent: "codex"
    review:
      required: true
      gate: "quality_gate"
    on_success:
      next_step: "ship"
      route: "continue"
  - id: "ship"
    title: "Ship"
    agent: "{lead}"
    on_success:
      route: "halt"
review_gates:
  - id: "quality_gate"
    name: "Quality Gate"
"#,
        lead = lead()
    );
    let workflow = load_workflow("workflow.yaml", WorkflowSource::Parsed(workflow_of(&yaml)))
        .expect("workflow");
    let runner = Runner::new(
        workflow,
        "/tmp/run/workflow.yaml",
        RunnerOptions { dry_run: false, max_steps: 8 },
    );
    let mut world = world(
        vec![
            Ok(StepAgentResult {
                status: AgentRunStatus::Success,
                summary: "design done".to_string(),
                current_state: Some("designed".to_string()),
                open_questions: Vec::new(),
                next_actions: vec!["review".to_string()],
            }),
            Ok(StepAgentResult {
                status: AgentRunStatus::Success,
                summary: "review step done".to_string(),
                current_state: Some("reviewed".to_string()),
                open_questions: Vec::new(),
                next_actions: vec!["ship".to_string()],
            }),
            Ok(StepAgentResult {
                status: AgentRunStatus::Success,
                summary: "shipped".to_string(),
                current_state: Some("released".to_string()),
                open_questions: Vec::new(),
                next_actions: Vec::new(),
            }),
        ],
        vec![Ok(ReviewDecision {
            approved: true,
            summary: "approved".to_string(),
            blocking_issues: Vec::new(),
        })],
    );

    let report = drive(&runner, &mut world).expect("runner should succeed");
    assert_eq!(report.completed_steps.len(), 3);
    assert!(matches!(report.final_status, RunStatus::Halted));

    assert_eq!(ids(&report), vec!["design", "review", "ship"]);
    let reviewed: Vec<bool> = report.completed_steps.iter().map(|step| step.reviewed).collect();
    assert_eq!(reviewed, vec![false, true, false]);
    assert!(world.log.contains(&format!("review review at quality_gate by {}", lead())));
    let file = world.file.expect("handoff");
    let first = file.find("## Step `design`: Design").expect("first entry");
    let last = file.find("## Step `ship`: Ship").expect("last entry");
    assert!(first < last);
}

#[test]
fn expands_trigger_and_named_snippets() {
    let workflow = workflow_of(
        r#"
version: "1"
name: "prompts"
agents:
  a:
    provider: "open_ai_codex"
snippets:
  review_brief:
    trigger: ";;review"
    content: "Review this change for correctness."
  style:
    trigger: ";;style"
    content: "Keep it short."
steps:
  - id: "review_design"
    title: "Review the design"
    agent: "a"
    prompt: "Review the proposed design. Use ;;review."
    snippets:
      - "review_brief"
      - "style"
      - "missing"
"#,
    );
    let step = workflow.step_by_id("review_design").expect("step");
    let prompt = expand_step_prompt(&workflow, step, "# Prior handoff");
    assert!(prompt.contains("Review the proposed design"));
    assert!(prompt.contains("Review this change for correctness"));
    assert!(prompt.contains("# Prior handoff"));
    assert_eq!(
        prompt,
        "Review the proposed design. Use Review this change for correctness..\n\nSnippet `style` (;;style)\nKeep it short.\n\nCurrent handoff context:\n# Prior handoff"
    );
    assert_eq!(
        expand_step_prompt(&workflow, step, " \n"),
        "Review the proposed design. Use Review this change for correctness..\n\nSnippet `style` (;;style)\nKeep it short."
    );
}

const LOOP: &str = r#"
version: "1"
name: "loop"
agents:
  a:
    provider: "open_ai_codex"
    workspace: "wa"
  b:
    provider: "claude_code"
defaults:
  working_directory: "wd"
handoff:
  path: "notes/handover.md"
steps:
  - id: "one"
    title: "One"
    agent: "a"
    run:
      - "first"
      - "second"
    review:
      required: true
      gate: "g"
    on_success:
      next_step: "two"
    on_failure:
      route: "retry"
  - id: "two"
    title: "Two"
    agent: "b"
    on_success:
      route: "halt"
    on_failure:
      route: "halt"
review_gates:
  - id: "g"
    name: "Gate"
"#;

#[test]
fn each_action_follows_from_the_last() {
    let runner = live(LOOP, 8);
    let mut world = world(vec![success(), success()], vec![decision(true, vec![])]);
    world.commands = vec![exited(true), exited(true)];
    let report = drive(&runner, &mut world).expect("report");
    assert_eq!(
        world.log,
        vec![
            "read /work/notes/handover.md",
            "agent a in /work/wa sees \"\"",
            "run first in /work/wa",
            "run second in /work/wa",
            "mkdir /work/notes",
            "read /work/notes/handover.md",
            "write /work/notes/handover.md",
            "review one at g by b",
            "read /work/notes/handover.md",
            "agent b in /work/wd sees \"## Step `one`: One\\n\\n- Agent: `a`\\n\\n- Workspace: `/work/wa`\\n\\n- Summary: done\\n\\n### Current State\\ndone\\n\\n### Open Questions\\n- None\\n\\n### Next Actions\\n- None\"",
            "mkdir /work/notes",
            "read /work/notes/handover.md",
            "write /work/notes/handover.md",
        ]
    );
    assert_eq!(
        execution_lines(&report),
        vec![
            "executed workflow `loop` in live mode",
            "step `one` via `a` => Succeeded (reviewed)",
            "step `two` via `b` => Succeeded",
            "workflow status: halted",
        ]
    );
}

#[test]
fn rejected_steps_follow_their_transition_for_failures() {
    let runner = live(LOOP, 8);
    let mut world = world(
        vec![success(), success(), success()],
        vec![decision(false, vec!["no tests", "typo"]), decision(true, vec![])],
    );
    world.commands = vec![exited(true), exited(true), exited(true), exited(true)];
    let report = drive(&runner, &mut world).expect("report");
    assert_eq!(ids(&report), vec!["one", "one", "two"]);
    assert_eq!(report.completed_steps[0].status, StepExecutionStatus::Failed);
    assert!(report.completed_steps[0].reviewed);
    assert_eq!(report.completed_steps[1].status, StepExecutionStatus::Succeeded);
}

#[test]
fn a_rejection_can_halt_the_run() {
    let yaml = LOOP.replace("      route: \"retry\"", "      route: \"halt\"");
    let runner = live(&yaml, 8);
    let mut world = world(vec![success()], vec![decision(false, vec!["no tests", "typo"])]);
    world.commands = vec![exited(true), exited(true)];
    let report = drive(&runner, &mut world).expect("report");
    assert_eq!(ids(&report), vec!["one"]);
    assert_eq!(report.completed_steps[0].status, StepExecutionStatus::Failed);
    assert!(report.completed_steps[0].reviewed);
    assert!(matches!(report.final_status, RunStatus::Halted));
}

#[test]
fn verdicts_name_the_blocking_issues() {
    let workflow = workflow_of(LOOP);
    let gate = &workflow.review_gates[0];
    let step = &workflow.steps[0];
    let approved = decision(true, vec!["ignored"]).expect("decision");
    assert!(review_verdict(gate, step, &approved).expect("approved"));
    let rejected = decision(false, vec![]).expect("decision");
    assert_eq!(
        review_verdict(gate, step, &rejected).expect_err("rejected").message(),
        "step `one` failed: review gate `g` rejected the step"
    );
    let rejected = decision(false, vec!["no tests", "typo"]).expect("decision");
    assert_eq!(
        review_verdict(gate, step, &rejected).expect_err("rejected").message(),
        "step `one` failed: review gate `g` rejected the step: no tests; typo"
    );
}

#[test]
fn failed_steps_can_halt_the_run() {
    let runner = live(LOOP, 8);
    let mut world = world(vec![success(), failure()], vec![decision(true, vec![])]);
    world.commands = vec![exited(true), exited(true)];
    let report = drive(&runner, &mut world).expect("report");
    assert_eq!(report.completed_steps[1].status, StepExecutionStatus::Failed);
    assert!(matches!(report.final_status, RunStatus::Halted));
    assert_eq!(
        execution_lines(&report).last().map(String::as_str),
        Some("workflow status: halted")
    );
    let failed = ExecutionReport {
        final_status: RunStatus::Failed("step `two` failed".to_string()),
        ..report
    };
    assert_eq!(
        execution_lines(&failed).last().map(String::as_str),
        Some("workflow status: failed: step `two` failed")
    );
}

#[test]
fn a_failed_step_without_transition_completes_the_run() {
    let yaml = LOOP.replace("    on_failure:\n      route: \"retry\"\n", "");
    let runner = live(&yaml, 8);
    let mut world = world(vec![failure()], vec![]);
    let report = drive(&runner, &mut world).expect("report");
    assert_eq!(ids(&report), vec!["one"]);
    assert!(matches!(report.final_status, RunStatus::Completed));
    assert_eq!(
        execution_lines(&report).last().map(String::as_str),
        Some("workflow status: completed")
    );
}

#[test]
fn runs_are_bounded() {
    let runner = live(LOOP, 3);
    let mut bounded = world(vec![failure(), failure(), failure()], vec![]);
    let error = drive(&runner, &mut bounded).expect_err("bounded");
    assert_eq!(
        error.message(),
        "workflow execution failed: workflow exceeded max_steps limit (3)"
    );
    assert!(bounded.steps.is_empty());

    let runner = live(LOOP, 0);
    let mut idle = world(vec![], vec![]);
    let error = drive(&runner, &mut idle).expect_err("no steps allowed");
    assert_eq!(
        error.message(),
        "workflow execution failed: workflow exceeded max_steps limit (0)"
    );
}

#[test]
fn dry_runs_touch_nothing_but_the_handoff_file() {
    let runner = Runner::new(
        workflow_of(LOOP),
        "workflow.yaml",
        RunnerOptions { dry_run: true, max_steps: 8 },
    );
    let mut world = world(vec![], vec![]);
    let report = drive(&runner, &mut world).expect("report");
    assert_eq!(
        execution_lines(&report),
        vec![
            "executed workflow `loop` in dry-run mode",
            "step `one` via `a` => DryRun (reviewed)",
            "step `two` via `b` => DryRun",
            "workflow status: halted",
        ]
    );
    assert!(world.log.iter().all(|line| !line.starts_with("agent")
        && !line.starts_with("run")
        && !line.starts_with("review")));
    let file = world.file.expect("handoff");
    assert!(file.contains("- Summary: dry run for step `one`"));
    assert!(file.contains("### Current State\nNo work executed"));
    assert!(file.contains("### Next Actions\n- Invoke the real agent executor"));
}

#[test]
fn entries_are_left_out_where_handoff_is_not_automatic() {
    let mut workflow = workflow_of(LOOP);
    workflow.defaults.auto_handoff = false;
    let runner = Runner::new(
        workflow,
        "/work/workflow.yaml",
        RunnerOptions { dry_run: false, max_steps: 8 },
    );
    let mut world = world(vec![success(), success()], vec![decision(true, vec![])]);
    world.commands = vec![exited(true), exited(true)];
    world.file = Some("kept".to_string());
    let report = drive(&runner, &mut world).expect("report");
    assert_eq!(ids(&report), vec!["one", "two"]);
    assert!(report.completed_steps[0].reviewed);
    assert_eq!(world.file.as_deref(), Some("kept"));
    assert_eq!(
        world.log,
        vec![
            "read /work/notes/handover.md",
            "agent a in /work/wa sees \"kept\"",
            "run first in /work/wa",
            "run second in /work/wa",
            "review one at g by b",
            "read /work/notes/handover.md",
            "agent b in /work/wd sees \"kept\"",
        ]
    );
}

#[test]
fn commands_that_fail_end_the_run() {
    let runner = live(LOOP, 8);
    let mut failing = world(vec![success()], vec![]);
    failing.commands = vec![exited(true), exited(false)];
    let error = drive(&runner, &mut failing).expect_err("failed");
    assert_eq!(
        error.message(),
        "step `one` failed: shell command `second` failed with status exit status: 3.\nstdout:\nout\nstderr:\nerr"
    );
    assert_eq!(failing.file, None);

    let mut absent = world(vec![success()], vec![]);
    absent.commands = vec![ProcessOutcome::NotStarted("no shell".to_string())];
    let error = drive(&runner, &mut absent).expect_err("absent");
    assert_eq!(error.message(), "step `one` failed: failed to start `first`: no shell");
}

#[test]
fn failures_around_a_run_end_it() {
    let runner = live(LOOP, 8);

    let (state, _) = runner.run();
    let (_, action) =
        runner.resume(state, RunEvent::HandoffRead(FileRead::Failed("denied".to_string())));
    match action {
        RunAction::Finish(Err(error)) => assert_eq!(
            error.message(),
            "workflow execution failed: failed to read handoff file `/work/notes/handover.md`: denied"
        ),
        other => panic!("{other:?}"),
    }

    let broken = Err(WorkflowError::Execution("broken agent".to_string()));
    let error = drive(&runner, &mut world(vec![broken], vec![])).expect_err("agent");
    assert_eq!(error.message(), "workflow execution failed: broken agent");

    let mut homeless = world(vec![failure()], vec![]);
    homeless.directory_failure = Some("denied".to_string());
    let error = drive(&runner, &mut homeless).expect_err("directory");
    assert_eq!(
        error.message(),
        "workflow execution failed: failed to create handoff directory `/work/notes`: denied"
    );

    let mut full = world(vec![failure()], vec![]);
    full.write_failure = Some("full".to_string());
    let error = drive(&runner, &mut full).expect_err("write");
    assert_eq!(
        error.message(),
        "workflow execution failed: failed to write handoff file `/work/notes/handover.md` in append mode: full"
    );

    let lost = Err(WorkflowError::Execution("lost".to_string()));
    let mut unreviewed = world(vec![success()], vec![lost]);
    unreviewed.commands = vec![exited(true), exited(true)];
    let error = drive(&runner, &mut unreviewed).expect_err("review");
    assert_eq!(error.message(), "workflow execution failed: lost");
}

#[test]
fn inconsistent_workflows_fail_when_it_shows() {
    let mut workflow = workflow_of(LOOP);
    workflow.steps.clear();
    let options = RunnerOptions { dry_run: true, max_steps: 8 };
    let runner = Runner::new(workflow, "w.yaml", options);
    assert_eq!(
        drive(&runner, &mut world(vec![], vec![])).expect_err("empty").message(),
        "workflow execution failed: workflow contains no steps"
    );

    let yaml = LOOP.replace("next_step: \"two\"", "next_step: \"three\"");
    let runner = Runner::new(workflow_of(&yaml), "w.yaml", options);
    assert_eq!(
        drive(&runner, &mut world(vec![], vec![])).expect_err("step").message(),
        "workflow execution failed: unknown step `three`"
    );

    let yaml = LOOP.replace("      gate: \"g\"\n", "");
    let runner = Runner::new(workflow_of(&yaml), "w.yaml", options);
    assert_eq!(
        drive(&runner, &mut world(vec![], vec![])).expect_err("gate").message(),
        "workflow execution failed: step `one` requires review but no gate was configured"
    );

    let yaml = LOOP.replace("      gate: \"g\"\n", "      gate: \"h\"\n");
    let runner = Runner::new(workflow_of(&yaml), "w.yaml", options);
    assert_eq!(
        drive(&runner, &mut world(vec![], vec![])).expect_err("gate").message(),
        "workflow execution failed: unknown review gate `h`"
    );

    let yaml = LOOP.replace("  b:\n    provider: \"claude_code\"\n", "");
    let runner = Runner::new(workflow_of(&yaml), "w.yaml", options);
    assert_eq!(
        drive(&runner, &mut world(vec![], vec![])).expect_err("nobody").message(),
        format!(
            "workflow execution failed: step `one` requires a {} but no alternate agent exists",
            review_role_name()
        )
    );
}

#[test]
fn reviews_go_to_the_agent_that_takes_over() {
    let mut workflow = workflow_of(LOOP);
    let codex = workflow.agents["a"].clone();
    workflow.agents.insert("c".to_string(), codex);
    let runner = Runner::new(
        workflow,
        "/work/workflow.yaml",
        RunnerOptions { dry_run: false, max_steps: 8 },
    );
    let mut step = runner.workflow.steps[0].clone();
    assert_eq!(runner.select_reviewer(&step).expect("first other"), "b");
    step.on_success = Some(StepTransition {
        handoff_to: Some("c".to_string()),
        next_step: None,
        route: StepRoute::Continue,
    });
    assert_eq!(runner.select_reviewer(&step).expect("successor"), "c");
    step.on_success = Some(StepTransition {
        handoff_to: Some("a".to_string()),
        next_step: None,
        route: StepRoute::Continue,
    });
    assert_eq!(runner.select_reviewer(&step).expect("not itself"), "b");
    step.agent = "b".to_string();
    step.on_success = None;
    assert_eq!(runner.select_reviewer(&step).expect("first other"), "a");
}

#[test]
fn transitions_are_resolved() {
    let workflow = workflow_of(LOOP);
    let step = &workflow.steps[0];
    let to = |next: Option<&str>, route: StepRoute| {
        Some(StepTransition { handoff_to: None, next_step: next.map(str::to_string), route })
    };
    let resolve = |transition| match resolve_transition(step, &transition) {
        TransitionResolution::Next(id) => format!("next {id}"),
        TransitionResolution::Halt => "halt".to_string(),
        TransitionResolution::End => "end".to_string(),
    };
    assert_eq!(resolve(None), "end");
    assert_eq!(resolve(to(None, StepRoute::Continue)), "end");
    assert_eq!(resolve(to(Some("x"), StepRoute::Continue)), "next x");
    assert_eq!(resolve(to(None, StepRoute::Retry)), "next one");
    assert_eq!(resolve(to(Some("x"), StepRoute::Retry)), "next x");
    assert_eq!(resolve(to(Some("x"), StepRoute::Halt)), "halt");
}

#[test]
fn workspaces_are_resolved() {
    let runner = live(LOOP, 1);
    assert_eq!(runner.workspace_root, "/work");
    assert_eq!(runner.resolve_workspace("a"), "/work/wa");
    assert_eq!(runner.resolve_workspace("b"), "/work/wd");
    assert_eq!(runner.resolve_workspace("unknown"), "/work/wd");
    let options = RunnerOptions { dry_run: true, max_steps: 1 };
    let bare = Runner::new(workflow_of(LOOP), "workflow.yaml", options);
    assert_eq!(bare.workspace_root, ".");
    assert_eq!(bare.resolve_workspace("a"), "./wa");
    let rooted = Runner::new(workflow_of(LOOP), "/", options);
    assert_eq!(rooted.workspace_root, ".");
    let provider = provider_for_step(&runner.workflow, &runner.workflow.steps[1]);
    assert!(matches!(provider, Ok(ConductorAgent::ClaudeCode)));
    let mut step = runner.workflow.steps[1].clone();
    step.agent = "z".to_string();
    assert_eq!(
        provider_for_step(&runner.workflow, &step).expect_err("unknown").message(),
        "workflow execution failed: unknown agent `z`"
    );
}

#[test]
fn entries_replace_one_another_where_asked() {
    let yaml = LOOP.replace("  path: \"notes/handover.md\"", "  path: \"h.md\"\n  mode: \"replace\"");
    let runner = Runner::new(
        workflow_of(&yaml),
        "workflow.yaml",
        RunnerOptions { dry_run: true, max_steps: 8 },
    );
    let mut world = world(vec![], vec![]);
    world.file = Some("old".to_string());
    drive(&runner, &mut world).expect("report");
    let file = world.file.expect("handoff");
    assert!(file.starts_with("## Step `two`: Two"));
    assert_eq!(
        world.log,
        vec![
            "read ./h.md", "mkdir .", "write ./h.md", "read ./h.md", "mkdir .", "write ./h.md",
        ]
    );
    assert_eq!(handoff_mode_name(&HandoffMode::Replace), "replace");
    assert_eq!(handoff_mode_name(&HandoffMode::Append), "append");
}

#[test]
fn entries_have_the_required_sections() {
    let workflow = workflow_of(LOOP);
    let store = HandoffStore::new(
        "h.md".to_string(),
        HandoffMode::Append,
        vec!["Next Actions".to_string(), "Risks".to_string(), "Current State".to_string()],
    );
    assert_eq!(store.path(), "h.md");
    let context = ExecutionContext {
        current_step_id: "one".to_string(),
        current_agent: "a".to_string(),
        workspace_root: "/w".to_string(),
        handoff_path: "h.md".to_string(),
        handoff_markdown: String::new(),
    };
    let result = StepAgentResult {
        status: AgentRunStatus::Success,
        summary: "did it".to_string(),
        current_state: Some("fine".to_string()),
        open_questions: vec!["why?".to_string()],
        next_actions: vec!["rest".to_string(), "sleep".to_string()],
    };
    let entry = "## Step `one`: One\n\n- Agent: `a`\n\n- Workspace: `/w`\n\n- Summary: did it\n\n### Next Actions\n- rest\n- sleep\n\n### Risks\nPending\n\n### Current State\nfine";
    let step = &workflow.steps[0];
    assert_eq!(store.record_step(step, &context, &result, " \n"), entry);
    assert_eq!(store.record_step(step, &context, &result, "old\n"), format!("old\n\n\n{entry}"));
    assert_eq!(store.read(FileRead::NotFound).expect("missing"), "");
    assert_eq!(store.read(FileRead::Contents("x".to_string())).expect("contents"), "x");
    assert!(store.read(FileRead::Failed("x".to_string())).is_err());
    assert_eq!(markdown_list(&Vec::new()), "- None");

    let plain = HandoffStore::new("h.md".to_string(), HandoffMode::Replace, Vec::new());
    let standard = plain.record_step(step, &context, &result, "old");
    assert!(standard.ends_with(
        "### Current State\nfine\n\n### Open Questions\n- why?\n\n### Next Actions\n- rest\n- sleep"
    ));
}

#[test]
fn prompts_tell_agents_what_they_need() {
    let workflow = workflow_of(LOOP);
    let context = ExecutionContext {
        current_step_id: "one".to_string(),
        current_agent: "a".to_string(),
        workspace_root: "/w".to_string(),
        handoff_path: "/h.md".to_string(),
        handoff_markdown: "notes".to_string(),
    };
    assert_eq!(
        build_step_prompt(&workflow, &workflow.steps[0], &context),
        "You are executing a Conductor workflow step.\nReturn only JSON that matches the provided schema.\n\nWorkflow: loop\nStep ID: one\nStep Title: One\nAgent Name: a\nWorkspace Root: /w\nHandoff File: /h.md\nShell commands Conductor will execute after a successful agent run:\n- first\n- second\n\nStep Instructions:\nCurrent handoff context:\nnotes\n\nPerform the requested work in the workspace, then report the outcome, current state for the next handoff, any open questions, and the next actions."
    );
    let result = StepAgentResult {
        status: AgentRunStatus::Success,
        summary: "did it".to_string(),
        current_state: None,
        open_questions: vec!["why?".to_string()],
        next_actions: Vec::new(),
    };
    let prompt = build_review_prompt(
        &workflow.review_gates[0],
        &workflow.steps[0],
        "b",
        &context,
        &result,
    );
    assert!(prompt.starts_with("You are executing a Conductor review gate.\nReturn only JSON that matches the provided schema.\n\nReview Gate: Gate (g)\n"));
    assert!(prompt.ends_with("Agent: b\nStep ID: one\nStep Title: One\nWorkspace Root: /w\nHandoff File: /h.md\n\nGate Instructions:\nNo extra instructions.\n\nStep Summary:\ndid it\n\nCurrent State:\nNo state provided.\n\nOpen Questions:\n- why?\n\nDecide whether the step is approved for the workflow to continue. If not approved, list concrete blocking issues."));
}
