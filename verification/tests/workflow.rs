use conductor::cli::validation_lines;
use conductor::error::WorkflowError;
use conductor::names::command_name;
use conductor::regen::render::render_workflow_yaml;
use conductor::regen::{ProjectAnalysis, ProjectKind};
use conductor::workflow::{load_workflow, validate_workflow, WorkflowSource};
use conductor::workflow::{
    AgentConfig, ConductorAgent, HandoffConfig, HandoffMode, ReviewGate, ReviewRequirement,
    Snippet, Step, StepRoute, StepTransition, Workflow, WorkflowDefaults,
};
use indexmap::IndexMap;
use serde_yaml::Value;

fn text_of(value: &Value) -> String {
    value.as_str().expect("text").to_string()
}

fn optional_text(value: &Value, key: &str) -> Option<String> {
    value.get(key).map(text_of)
}

fn texts_of(value: &Value, key: &str) -> Vec<String> {
    match value.get(key) {
        Some(items) => items.as_sequence().expect("list").iter().map(text_of).collect(),
        None => Vec::new(),
    }
}

fn transition_of(value: &Value) -> StepTransition {
    StepTransition {
        handoff_to: optional_text(value, "handoff_to"),
        next_step: optional_text(value, "next_step"),
        route: match optional_text(value, "route").as_deref() {
            None | Some("continue") => StepRoute::Continue,
            Some("retry") => StepRoute::Retry,
            Some("halt") => StepRoute::Halt,
            Some(other) => panic!("route {other}"),
        },
    }
}

fn step_of(value: &Value) -> Step {
    Step {
        id: text_of(&value["id"]),
        title: text_of(&value["title"]),
        agent: text_of(&value["agent"]),
        prompt: optional_text(value, "prompt"),
        run: texts_of(value, "run"),
        snippets: texts_of(value, "snippets"),
        review: match value.get("review") {
            Some(review) => ReviewRequirement {
                gate: optional_text(review, "gate"),
                required: review.get("required").and_then(|required| required.as_bool()),
            },
            None => ReviewRequirement::default(),
        },
        on_success: value.get("on_success").map(transition_of),
        on_failure: value.get("on_failure").map(transition_of),
    }
}

fn workflow_of(yaml: &str) -> Workflow {
    let value: Value = serde_yaml::from_str(yaml).expect("yaml");
    let mut agents: IndexMap<String, AgentConfig> = IndexMap::new();
    for (name, agent) in value["agents"].as_mapping().expect("agents") {
        agents.insert(
            text_of(name),
            AgentConfig {
                provider: match agent["provider"].as_str() {
                    Some("claude_code") => ConductorAgent::ClaudeCode,
                    _ => ConductorAgent::OpenAiCodex,
                },
                model: optional_text(agent, "model"),
                profile: optional_text(agent, "profile"),
                workspace: optional_text(agent, "workspace"),
                env: IndexMap::new(),
            },
        );
    }
    let mut snippets: IndexMap<String, Snippet> = IndexMap::new();
    if let Some(all) = value.get("snippets") {
        for (name, snippet) in all.as_mapping().expect("snippets") {
            snippets.insert(
                text_of(name),
                Snippet {
                    trigger: text_of(&snippet["trigger"]),
                    content: text_of(&snippet["content"]),
                    description: optional_text(snippet, "description"),
                },
            );
        }
    }
    let mut gates: Vec<ReviewGate> = Vec::new();
    if let Some(all) = value.get("review_gates") {
        for gate in all.as_sequence().expect("gates") {
            gates.push(ReviewGate {
                id: text_of(&gate["id"]),
                name: text_of(&gate["name"]),
                required_approvers: 1,
                instructions: optional_text(gate, "instructions"),
            });
        }
    }
    let mut defaults = WorkflowDefaults::default();
    if let Some(given) = value.get("defaults") {
        defaults.review_required =
            given.get("review_required").and_then(|flag| flag.as_bool()).unwrap_or(false);
        defaults.working_directory = optional_text(given, "working_directory");
    }
    let mut handoff = HandoffConfig::default();
    if let Some(given) = value.get("handoff") {
        handoff.required_sections = texts_of(given, "required_sections");
        if let Some(path) = optional_text(given, "path") {
            handoff.path = path;
        }
        if optional_text(given, "mode").as_deref() == Some("replace") {
            handoff.mode = HandoffMode::Replace;
        }
    }
    Workflow {
        version: text_of(&value["version"]),
        name: text_of(&value["name"]),
        description: optional_text(&value, "description"),
        defaults,
        handoff,
        snippets,
        agents,
        steps: value["steps"].as_sequence().expect("steps").iter().map(step_of).collect(),
        review_gates: gates,
    }
}

/// The command of the tool that prints its answers.
fn lead() -> String {
    command_name(ConductorAgent::ClaudeCode)
}

fn load(yaml: &str) -> Result<Workflow, WorkflowError> {
    load_workflow("workflow.yaml", WorkflowSource::Parsed(workflow_of(yaml)))
}

#[test]
fn loads_valid_workflow() {
    let yaml = format!(
        r#"
version: "1"
name: "test-workflow"
agents:
  {lead}:
    provider: "claude_code"
steps:
  - id: "step_1"
    title: "First step"
    agent: "{lead}"
"#,
        lead = lead()
    );
    let workflow = load(&yaml).expect("workflow should load");
    assert_eq!(workflow.name, "test-workflow");
    assert_eq!(workflow.steps.len(), 1);
}

#[test]
fn rejects_unknown_step_agent() {
    let yaml = format!(
        r#"
version: "1"
name: "bad-workflow"
agents:
  codex:
    provider: "open_ai_codex"
steps:
  - id: "step_1"
    title: "First step"
    agent: "{}"
"#,
        lead()
    );
    let err = load(&yaml).expect_err("workflow should fail");
    let message = err.message();
    assert!(message.contains(&format!("unknown agent `{}`", lead())));
}

#[test]
fn unreadable_and_unparsable_files_are_reported() {
    let error = load_workflow("w.yaml", WorkflowSource::Unreadable("no such file".to_string()))
        .expect_err("unreadable");
    assert_eq!(error.message(), "failed to read workflow file `w.yaml`");
    assert_eq!(error.source().map(String::as_str), Some("no such file"));
    let error = load_workflow("w.yaml", WorkflowSource::Unparsable("line 3".to_string()))
        .expect_err("unparsable");
    assert_eq!(error.message(), "failed to parse workflow yaml `w.yaml`");
    assert_eq!(error.source().map(String::as_str), Some("line 3"));
    let error = WorkflowError::Execution("x".to_string());
    assert_eq!(error.message(), "workflow execution failed: x");
    assert_eq!(error.source(), None);
    let error = WorkflowError::StepFailed { step_id: "s".to_string(), message: "m".to_string() };
    assert_eq!(error.message(), "step `s` failed: m");
}

const BROKEN: &str = r#"
version: " "
name: ""
agents:
  a:
    provider: "open_ai_codex"
defaults:
  review_required: true
steps:
  - id: "one"
    title: " "
    agent: "b"
    snippets:
      - "s"
    review:
      gate: "g"
    on_success:
      handoff_to: "c"
      next_step: "three"
  - id: "one"
    title: "Again"
    agent: "a"
    on_failure:
      handoff_to: "d"
      next_step: "four"
      route: "retry"
"#;

#[test]
fn every_issue_is_reported_at_once() {
    let error = load(BROKEN).expect_err("broken");
    let message = error.message();
    assert!(message.starts_with("workflow validation failed:\n"));
    for issue in [
        "`version` must not be empty",
        "`name` must not be empty",
        "unknown agent `b`",
        "unknown snippet `s`",
        "unknown review gate `g`",
        "`three`",
        "`c`",
        "`four`",
        "`d`",
    ] {
        assert!(message.contains(issue), "{issue}: {message}");
    }
}

#[test]
fn an_empty_workflow_is_rejected() {
    let mut workflow = workflow_of(BROKEN);
    workflow.agents.clear();
    workflow.steps.clear();
    workflow.version = "1".to_string();
    workflow.name = "n".to_string();
    let error = validate_workflow(&workflow).expect_err("empty");
    assert_eq!(
        error.message(),
        "workflow validation failed:\nat least one agent must be defined\nat least one step must be defined"
    );
}

const FITTING: &str = r#"
version: "1"
name: "fitting"
agents:
  a:
    provider: "open_ai_codex"
  b:
    provider: "open_ai_codex"
snippets:
  s:
    trigger: ";;s"
    content: "text"
steps:
  - id: "one"
    title: "One"
    agent: "a"
    snippets:
      - "s"
    review:
      gate: "g"
      required: true
    on_success:
      handoff_to: "b"
      next_step: "two"
  - id: "two"
    title: "Two"
    agent: "b"
    on_failure:
      next_step: "one"
      route: "retry"
review_gates:
  - id: "g"
    name: "Gate"
"#;

#[test]
fn each_inconsistency_is_found() {
    validate_workflow(&workflow_of(FITTING)).expect("fitting");

    let mut workflow = workflow_of(FITTING);
    workflow.steps[1].id = "one".to_string();
    assert!(validate_workflow(&workflow).expect_err("id").message().contains("one"));

    let mut workflow = workflow_of(FITTING);
    workflow.steps[0].review.gate = None;
    assert!(validate_workflow(&workflow).is_err());
    workflow.steps[0].review.required = Some(false);
    assert!(validate_workflow(&workflow).is_ok());
    workflow.steps[0].review.required = None;
    assert!(validate_workflow(&workflow).is_ok());
    workflow.defaults.review_required = true;
    assert!(validate_workflow(&workflow).is_err());

    let mut workflow = workflow_of(FITTING);
    workflow.snippets.clear();
    assert!(validate_workflow(&workflow).expect_err("snippet").message().contains("snippet `s`"));

    let mut workflow = workflow_of(FITTING);
    workflow.review_gates.clear();
    assert!(validate_workflow(&workflow).expect_err("gate").message().contains("gate `g`"));
}

#[test]
fn steps_and_gates_are_found_by_id() {
    let workflow = workflow_of(FITTING);
    assert_eq!(workflow.step_by_id("two").map(|step| step.title.as_str()), Some("Two"));
    assert!(workflow.step_by_id("three").is_none());
    assert_eq!(workflow.review_gate_by_id("g").map(|gate| gate.name.as_str()), Some("Gate"));
    assert!(workflow.review_gate_by_id("h").is_none());
    assert!(workflow.is_review_required(&workflow.steps[0]));
    assert!(!workflow.is_review_required(&workflow.steps[1]));
}

#[test]
fn defaults_are_those_of_an_empty_file() {
    let defaults = WorkflowDefaults::default();
    assert!(defaults.auto_handoff);
    assert!(!defaults.review_required);
    assert_eq!(defaults.working_directory, None);
    let handoff = HandoffConfig::default();
    assert_eq!(handoff.path, "handover.md");
    assert!(matches!(handoff.mode, HandoffMode::Append));
    assert!(handoff.required_sections.is_empty());
    assert!(matches!(StepRoute::default(), StepRoute::Continue));
    assert_eq!(ReviewRequirement::default().gate, None);
}

#[test]
fn generated_workflows_are_valid() {
    let analysis = ProjectAnalysis {
        root: "/tmp/demo".to_string(),
        name: "demo".to_string(),
        kind: ProjectKind::Generic,
        notes: Vec::new(),
        validation_commands: vec!["true".to_string(), "echo \"hi\"".to_string()],
    };
    for preferences in [None, Some("Prefer small commits\n  but few\n\nof them".to_string())] {
        let workflow = load(&render_workflow_yaml(&analysis, &preferences)).expect("valid");
        assert_eq!(workflow.name, "demo-generated");
        let ids: Vec<&str> = workflow.steps.iter().map(|step| step.id.as_str()).collect();
        assert_eq!(ids, vec!["plan", "review_plan", "implement", "final_review"]);
        for step in &workflow.steps {
            if step.id == "implement" {
                assert_eq!(step.run, analysis.validation_commands);
            } else {
                assert!(step.run.is_empty());
            }
            let preferred = step.snippets.iter().any(|name| name == "custom_preferences");
            assert_eq!(preferred, preferences.is_some());
        }
        assert_eq!(workflow.snippets.contains_key("custom_preferences"), preferences.is_some());
        assert_eq!(workflow.agents.len(), 2);
        assert!(workflow.defaults.auto_handoff);
    }
}

#[test]
fn valid_workflows_are_summed_up() {
    let workflow = workflow_of(FITTING);
    assert_eq!(
        validation_lines(&workflow, false),
        vec!["validated workflow `fitting` with 2 step(s), 2 agent(s), 1 review gate(s)"]
    );
    assert_eq!(
        validation_lines(&workflow, true),
        vec![
            "validated workflow `fitting` with 2 step(s), 2 agent(s), 1 review gate(s)",
            "handoff file: handover.md",
            "step `one` -> agent `a`",
            "step `two` -> agent `b`",
        ]
    );
    let described = Workflow { description: Some("what it is for".to_string()), ..workflow };
    let lines = validation_lines(&described, true);
    assert_eq!(lines[1], "description: what it is for");
    assert_eq!(lines[2], "handoff file: handover.md");
    assert_eq!(lines.len(), 5);
    assert_eq!(validation_lines(&described, false).len(), 1);
}
