use conductor::error::WorkflowError;
use conductor::names::{command_name, product_name, review_role_name};
use conductor::runner::invocation::{REVIEW_SCHEMA, STEP_SCHEMA};
use conductor::runner::output::{
    check_tool, choose_reply, extract_embedded_json, format_codex_failure, has_braces_in_order,
    next_text, normalize_claude_output, parse_agent_result, parse_review_decision, step_id,
};
use conductor::runner::{
    AgentRunStatus, AgentSettings, ClaudeAdapter, CodexAdapter, CommandPlan, ExecutionContext,
    Invocation, InvokeAction, InvokeEvent, InvokePhase, ProcessOutcome, ReviewDecision, Scratch,
    StepAgentResult, SubprocessAgentExecutor,
};
use conductor::workflow::{
    AgentConfig, ConductorAgent, HandoffConfig, ReviewGate, ReviewRequirement, Step, Workflow,
    WorkflowDefaults,
};
use indexmap::IndexMap;
use serde_json::Value;

fn product() -> String {
    product_name(ConductorAgent::ClaudeCode)
}

fn unset() -> AgentSettings {
    AgentSettings {
        claude_bin: None,
        claude_permission_mode: None,
        codex_bin: None,
        codex_sandbox: None,
        codex_full_auto: None,
        codex_profile: None,
        codex_home: None,
    }
}

fn agent(provider: ConductorAgent, model: Option<&str>) -> AgentConfig {
    let mut env: IndexMap<String, String> = IndexMap::new();
    env.insert("Z".to_string(), "1".to_string());
    env.insert("A".to_string(), "2".to_string());
    AgentConfig {
        provider,
        model: model.map(str::to_string),
        profile: None,
        workspace: None,
        env,
    }
}

fn step() -> Step {
    Step {
        id: "s".to_string(),
        title: "Step".to_string(),
        agent: "first".to_string(),
        prompt: Some("Do it.".to_string()),
        run: Vec::new(),
        snippets: Vec::new(),
        review: ReviewRequirement::default(),
        on_success: None,
        on_failure: None,
    }
}

fn workflow() -> Workflow {
    let mut agents: IndexMap<String, AgentConfig> = IndexMap::new();
    agents.insert("first".to_string(), agent(ConductorAgent::ClaudeCode, None));
    agents.insert("second".to_string(), agent(ConductorAgent::OpenAiCodex, Some("m")));
    Workflow {
        version: "1".to_string(),
        name: "w".to_string(),
        description: None,
        defaults: WorkflowDefaults::default(),
        handoff: HandoffConfig::default(),
        snippets: IndexMap::new(),
        agents,
        steps: vec![step()],
        review_gates: vec![ReviewGate {
            id: "g".to_string(),
            name: "Gate".to_string(),
            required_approvers: 1,
            instructions: None,
        }],
    }
}

fn context() -> ExecutionContext {
    ExecutionContext {
        current_step_id: "s".to_string(),
        current_agent: "first".to_string(),
        workspace_root: "/w".to_string(),
        handoff_path: "/h.md".to_string(),
        handoff_markdown: String::new(),
    }
}

fn scratch() -> Scratch {
    Scratch { directory: "/tmp".to_string(), schema_nonce: 17, output_nonce: 23 }
}

fn report() -> StepAgentResult {
    StepAgentResult {
        status: AgentRunStatus::Success,
        summary: "done".to_string(),
        current_state: None,
        open_questions: Vec::new(),
        next_actions: Vec::new(),
    }
}

fn exited(success: bool, stdout: &str, stderr: &str) -> ProcessOutcome {
    ProcessOutcome::Exited {
        success,
        status: "exit status: 1".to_string(),
        stdout: stdout.to_string(),
        stderr: stderr.to_string(),
    }
}

#[test]
fn tools_and_roles_have_their_names() {
    assert_eq!(format!("{}_CLI", product()), "Claude_CLI");
    assert_eq!(command_name(ConductorAgent::ClaudeCode), product().to_lowercase());
    assert_eq!(product_name(ConductorAgent::OpenAiCodex), "Codex");
    assert_eq!(command_name(ConductorAgent::OpenAiCodex), "codex");
    assert_eq!(format!("{}_agent", review_role_name()), "reviewer_agent");
}

#[test]
fn extracts_claude_structured_output() {
    let raw = r#"{"type":"result","structured_output":{"status":"success","summary":"done","current_state":"state","open_questions":[],"next_actions":["next"]}}"#;
    let normalized = normalize_claude_output(raw, "step_1").expect("normalize");
    let parsed: Value = serde_json::from_str(&normalized).expect("parse");
    assert_eq!(parsed["summary"], "done");
    assert_eq!(parsed["next_actions"], Value::from(vec!["next"]));
    assert_eq!(parsed["status"], "success");
    assert_eq!(parsed["current_state"], "state");
}

#[test]
fn envelopes_are_opened() {
    assert_eq!(
        normalize_claude_output("{\"structured_output\": {\"b\": 1, \"a\": null}}", "s").expect("json"),
        "{\"a\":null,\"b\":1}"
    );
    assert_eq!(
        normalize_claude_output("{\"structured_output\": \"x\", \"result\": \"y\"}", "s").expect("json"),
        "\"x\""
    );
    assert_eq!(
        normalize_claude_output("{\"result\": \"line\\n{\\\"a\\\": 1}\"}", "s").expect("text"),
        "line\n{\"a\": 1}"
    );
    assert_eq!(
        normalize_claude_output(" {\"result\": 7} \n", "s").expect("whole"),
        "{\"result\": 7}"
    );
    assert_eq!(normalize_claude_output(" [1] ", "s").expect("whole"), "[1]");
    let error = normalize_claude_output("not json", "s").expect_err("no envelope");
    assert_eq!(
        error.message(),
        format!(
            "step `s` failed: {} returned invalid JSON envelope: expected ident at line 1 column 2. raw output: not json",
            product()
        )
    );
}

#[test]
fn replies_are_chosen_from_the_envelope() {
    let some = |text: &str| Some(text.to_string());
    assert_eq!(choose_reply(" o ", "s", Ok(some("j")), some("r")).expect("json"), "j");
    assert_eq!(choose_reply(" o ", "s", Ok(None), some("r")).expect("result"), "r");
    assert_eq!(choose_reply(" o ", "s", Ok(None), None).expect("whole"), "o");
    assert_eq!(
        choose_reply("o", "s", Err("bad".to_string()), some("r")).expect_err("bad").message(),
        format!("step `s` failed: {} returned invalid JSON envelope: bad. raw output: o", product())
    );
}

#[test]
fn formats_codex_auth_failure() {
    let message = format_codex_failure("exit status: 1", "", "HTTP error: 401 Unauthorized");
    assert!(message.contains("codex login"));
    assert_eq!(
        message,
        "Codex CLI authentication failed (401 Unauthorized). Run `codex login`, provide `OPENAI_API_KEY`, or verify the active Codex profile before using `conductor run --live`."
    );
}

#[test]
fn codex_failures_are_explained() {
    assert_eq!(
        format_codex_failure("exit status: 2", "session", "Read-only file system"),
        "Codex CLI could not initialize its local session store. Set `CONDUCTOR_CODEX_HOME` to a writable directory or run with a writable Codex home."
    );
    assert_eq!(
        format_codex_failure("exit status: 2", " a \n", "Read-only file system\n"),
        "Codex CLI exited with status exit status: 2.\nstdout:\na\nstderr:\nRead-only file system"
    );
    assert!(format_codex_failure("x", "401 Unauthorized", "").contains("authentication failed"));
}

#[test]
fn objects_are_found_within_prose() {
    assert_eq!(extract_embedded_json("Here: {\"a\": {}} done").expect("object"), "{\"a\": {}}");
    assert_eq!(extract_embedded_json("{}").expect("object"), "{}");
    assert_eq!(extract_embedded_json("a } b").expect_err("no start"), "missing opening brace");
    assert_eq!(extract_embedded_json("a { b").expect_err("no end"), "missing closing brace");
    assert_eq!(extract_embedded_json("").expect_err("nothing"), "missing opening brace");
    assert_eq!(extract_embedded_json("ä}{ö").expect("nothing between"), "");
    assert!(has_braces_in_order("{}"));
    assert!(has_braces_in_order("}{"));
    assert!(has_braces_in_order("}}"));
    assert!(!has_braces_in_order("} {"));
}

#[test]
fn the_text_between_braces_is_read_second() {
    assert_eq!(next_text("so: {}", false).expect("whole"), "so: {}");
    assert_eq!(next_text("so: {} done", true).expect("object"), "{}");
    assert_eq!(next_text("so", true).expect_err("no start"), "missing opening brace");
    assert_eq!(next_text("", false).expect("nothing"), "");
}

#[test]
fn replies_are_read_twice() {
    let bad = |reason: &str| Err::<StepAgentResult, String>(reason.to_string());
    assert_eq!(parse_agent_result("o", "s", Ok(report()), bad("x")).expect("direct").summary, "done");
    assert_eq!(
        parse_agent_result("o {}", "s", bad("x"), Ok(report())).expect("within").summary,
        "done"
    );
    assert_eq!(
        parse_agent_result("o {}", "s", bad("x"), bad("y")).expect_err("neither").message(),
        "step `s` failed: agent returned invalid JSON: y. raw output: o {}"
    );
    assert_eq!(
        parse_agent_result("o", "s", bad("x"), Ok(report())).expect_err("no braces").message(),
        "step `s` failed: agent returned invalid JSON: missing opening brace. raw output: o"
    );
    let decided = || ReviewDecision {
        approved: true,
        summary: "ok".to_string(),
        blocking_issues: Vec::new(),
    };
    let bad = |reason: &str| Err::<ReviewDecision, String>(reason.to_string());
    assert!(parse_review_decision("o", "s", "g", Ok(decided()), bad("x")).expect("direct").approved);
    assert!(
        parse_review_decision("{o}", "s", "g", bad("x"), Ok(decided())).expect("within").approved
    );
    assert_eq!(
        parse_review_decision("{o}", "s", "g", bad("x"), bad("y")).expect_err("neither").message(),
        "step `s` failed: review gate `g` returned invalid JSON: y. raw output: {o}"
    );
    assert_eq!(
        parse_review_decision("{o", "s", "g", bad("x"), bad("y")).expect_err("open").message(),
        "step `s` failed: review gate `g` returned invalid JSON: missing closing brace. raw output: {o"
    );
    assert_eq!(step_id(None), "review");
    assert_eq!(step_id(Some(&step())), "s");
}

#[test]
fn tools_that_fail_are_reported() {
    let check = |tool, process| check_tool(tool, "bin", "s", process);
    assert_eq!(
        check(ConductorAgent::ClaudeCode, exited(true, " raw ", "")).expect("printed"),
        " raw "
    );
    assert_eq!(
        check(ConductorAgent::ClaudeCode, exited(false, "401 Unauthorized\n", "e"))
            .expect_err("failed")
            .message(),
        format!(
            "step `s` failed: {} CLI exited with status exit status: 1.\nstdout:\n401 Unauthorized\nstderr:\ne",
            product()
        )
    );
    assert_eq!(
        check(ConductorAgent::OpenAiCodex, exited(false, "o", "e")).expect_err("failed").message(),
        "step `s` failed: Codex CLI exited with status exit status: 1.\nstdout:\no\nstderr:\ne"
    );
    assert_eq!(
        check(ConductorAgent::OpenAiCodex, ProcessOutcome::NotStarted("gone".to_string()))
            .expect_err("absent")
            .message(),
        "step `s` failed: failed to start Codex CLI `bin`: gone"
    );
    assert_eq!(
        check(ConductorAgent::ClaudeCode, ProcessOutcome::NotStarted("gone".to_string()))
            .expect_err("absent")
            .message(),
        format!("step `s` failed: failed to start {} CLI `bin`: gone", product())
    );
}

fn pairs(plan: &CommandPlan) -> Vec<(&str, &str)> {
    plan.env.iter().map(|(name, value)| (name.as_str(), value.as_str())).collect()
}

#[test]
fn the_first_tool_is_started_in_the_workspace() {
    let config = agent(ConductorAgent::ClaudeCode, Some("sonnet"));
    let plan = ClaudeAdapter::plan(&unset(), &config, "/w", "prompt", "schema");
    assert_eq!(plan.program, product().to_lowercase());
    assert_eq!(
        plan.args,
        vec![
            "-p", "--output-format", "json", "--permission-mode", "acceptEdits", "--json-schema",
            "schema", "--add-dir=/w", "prompt", "--model", "sonnet",
        ]
    );
    assert_eq!(plan.current_dir.as_deref(), Some("/w"));
    assert_eq!(pairs(&plan), vec![("Z", "1"), ("A", "2")]);

    let settings = AgentSettings {
        claude_bin: Some("/bin/stub".to_string()),
        claude_permission_mode: Some("plan".to_string()),
        ..unset()
    };
    let config = agent(ConductorAgent::ClaudeCode, None);
    let plan = ClaudeAdapter::plan(&settings, &config, "/w", "prompt", "schema");
    assert_eq!(plan.program, "/bin/stub");
    assert_eq!(plan.args[4], "plan");
    assert_eq!(plan.args.last().map(String::as_str), Some("prompt"));
}

#[test]
fn the_second_tool_is_told_where_everything_is() {
    let config = agent(ConductorAgent::OpenAiCodex, None);
    let plan = CodexAdapter::plan(&unset(), &config, "/w", "prompt", "/s.json", "/o.json");
    assert_eq!(plan.program, "codex");
    assert_eq!(
        plan.args,
        vec![
            "exec", "--ephemeral", "--skip-git-repo-check", "--sandbox", "workspace-write",
            "--color", "never", "--cd", "/w", "--output-schema", "/s.json",
            "--output-last-message", "/o.json", "prompt", "--full-auto",
        ]
    );
    assert_eq!(plan.current_dir, None);
    assert_eq!(pairs(&plan), vec![("Z", "1"), ("A", "2")]);

    let settings = AgentSettings {
        codex_bin: Some("stub".to_string()),
        codex_sandbox: Some("read-only".to_string()),
        codex_full_auto: Some("FALSE".to_string()),
        codex_profile: Some("p".to_string()),
        codex_home: Some("/home".to_string()),
        ..unset()
    };
    let config = agent(ConductorAgent::OpenAiCodex, Some("m"));
    let plan = CodexAdapter::plan(&settings, &config, "/w", "prompt", "/s.json", "/o.json");
    assert_eq!(plan.program, "stub");
    assert_eq!(plan.args[4], "read-only");
    assert_eq!(plan.args[13..], ["prompt", "--model", "m", "--profile", "p"]);
    assert_eq!(pairs(&plan), vec![("Z", "1"), ("A", "2"), ("CODEX_HOME", "/home")]);
}

#[test]
fn the_profile_of_the_workflow_yields_to_the_environment() {
    let mut config = agent(ConductorAgent::OpenAiCodex, None);
    config.profile = Some("from_workflow".to_string());
    let profile = |settings: &AgentSettings| {
        let plan = CodexAdapter::plan(settings, &config, "/w", "prompt", "/s.json", "/o.json");
        let at = plan.args.iter().position(|arg| arg == "--profile").expect("profile");
        plan.args[at + 1].clone()
    };
    assert_eq!(profile(&unset()), "from_workflow");
    let settings = AgentSettings { codex_profile: Some("from_env".to_string()), ..unset() };
    assert_eq!(profile(&settings), "from_env");
}

#[test]
fn approvals_are_skipped_unless_switched_off() {
    let auto = |value: Option<&str>| {
        AgentSettings { codex_full_auto: value.map(str::to_string), ..unset() }
            .codex_full_auto_enabled()
    };
    assert!(auto(None));
    assert!(auto(Some("1")));
    assert!(auto(Some("")));
    assert!(auto(Some("no")));
    assert!(auto(Some("00")));
    assert!(!auto(Some("0")));
    assert!(!auto(Some("false")));
    assert!(!auto(Some("False")));
    assert_eq!(unset().claude_permission_mode(), "acceptEdits");
    assert_eq!(unset().codex_sandbox_mode(), "workspace-write");
}

#[test]
fn schemas_describe_the_answers() {
    let schema: Value = serde_json::from_str(STEP_SCHEMA).expect("schema");
    assert_eq!(schema["type"], "object");
    assert_eq!(schema["additionalProperties"], false);
    assert_eq!(
        schema["required"],
        Value::from(vec!["status", "summary", "current_state", "open_questions", "next_actions"])
    );
    assert_eq!(schema["properties"]["status"]["enum"], Value::from(vec!["success", "failure"]));
    assert_eq!(schema["properties"]["current_state"]["type"], Value::from(vec!["string", "null"]));
    assert_eq!(schema["properties"]["open_questions"]["items"]["type"], "string");
    assert_eq!(schema["properties"].as_object().map(|all| all.len()), Some(5));

    let schema: Value = serde_json::from_str(REVIEW_SCHEMA).expect("schema");
    assert_eq!(schema["properties"]["approved"]["type"], "boolean");
    assert_eq!(schema["properties"]["summary"]["type"], "string");
    assert_eq!(schema["properties"]["blocking_issues"]["type"], "array");
    assert_eq!(schema["required"], Value::from(vec!["approved", "summary", "blocking_issues"]));
    assert_eq!(schema["additionalProperties"], false);
}

/// What surrounds an invocation.
struct Surroundings {
    write_failure: Option<String>,
    reads: Vec<Result<String, String>>,
    processes: Vec<ProcessOutcome>,
    plans: Vec<CommandPlan>,
    log: Vec<String>,
    written: String,
}

fn surroundings(
    reads: Vec<Result<String, String>>,
    processes: Vec<ProcessOutcome>,
) -> Surroundings {
    Surroundings {
        write_failure: None,
        reads,
        processes,
        plans: Vec::new(),
        log: Vec::new(),
        written: String::new(),
    }
}

fn invoke(
    invocation: &Invocation<'_>,
    around: &mut Surroundings,
) -> Result<String, WorkflowError> {
    let (mut phase, mut action) = invocation.start();
    loop {
        let event = match action {
            InvokeAction::WriteFile { path, contents } => {
                around.log.push(format!("write {path}"));
                around.written = contents;
                InvokeEvent::Written { failure: around.write_failure.take() }
            }
            InvokeAction::ReadFile { path } => {
                around.log.push(format!("read {path}"));
                InvokeEvent::FileRead(around.reads.remove(0))
            }
            InvokeAction::RunTool(plan) => {
                around.log.push(format!("start {}", plan.args[0]));
                around.plans.push(plan);
                InvokeEvent::ToolFinished(around.processes.remove(0))
            }
            InvokeAction::RemoveFile { path } => {
                around.log.push(format!("remove {path}"));
                InvokeEvent::Removed
            }
            InvokeAction::Finish(result) => {
                assert!(matches!(phase, InvokePhase::Finished));
                return result;
            }
        };
        (phase, action) = invocation.resume(phase, event);
    }
}

const SCHEMA_FILE: &str = "/tmp/conductor-first-schema-17.json";

#[test]
fn steps_are_taken_by_the_first_tool() {
    let workflow = workflow();
    let settings = unset();
    let invocation = SubprocessAgentExecutor
        .run_step(&workflow, &workflow.steps[0], &context(), &settings, &scratch())
        .expect("invocation");
    assert!(invocation.prompt.contains("Step Instructions:\nDo it.\n"));
    let mut around = surroundings(
        vec![Ok("the schema".to_string())],
        vec![exited(true, "{\"result\": \"answer\"}", "")],
    );
    assert_eq!(invoke(&invocation, &mut around).expect("answer"), "answer");
    assert_eq!(
        around.log,
        vec![
            format!("write {SCHEMA_FILE}"),
            format!("read {SCHEMA_FILE}"),
            "start -p".to_string(),
            format!("remove {SCHEMA_FILE}"),
        ]
    );
    assert_eq!(around.plans[0].args[6], "the schema");
    assert_eq!(around.plans[0].args[8], invocation.prompt);
    assert!(around.written.starts_with("{\n  \"additionalProperties\": false,\n  \"properties\": {\n"));
    let schema: Value = serde_json::from_str(&around.written).expect("schema");
    let expected: Value = serde_json::from_str(STEP_SCHEMA).expect("schema");
    assert_eq!(schema, expected);
}

#[test]
fn reviews_are_made_by_the_second_tool() {
    let workflow = workflow();
    let settings = unset();
    let invocation = SubprocessAgentExecutor
        .run_review(
            &workflow,
            &workflow.review_gates[0],
            &workflow.steps[0],
            "second",
            &context(),
            &report(),
            &settings,
            &scratch(),
        )
        .expect("invocation");
    assert!(invocation.prompt.contains("Review Gate: Gate (g)"));
    let mut around =
        surroundings(vec![Ok(" {\"approved\": true}\n".to_string())], vec![exited(true, "x", "y")]);
    assert_eq!(invoke(&invocation, &mut around).expect("answer"), "{\"approved\": true}");
    assert_eq!(
        around.log,
        vec![
            "write /tmp/conductor-second-schema-17.json",
            "start exec",
            "read /tmp/codex-output-23.json",
            "remove /tmp/codex-output-23.json",
            "remove /tmp/conductor-second-schema-17.json",
        ]
    );
    assert!(around.plans[0].args.contains(&"/tmp/codex-output-23.json".to_string()));

    let mut failing = surroundings(vec![], vec![exited(false, "o", "e")]);
    assert_eq!(
        invoke(&invocation, &mut failing).expect_err("failed").message(),
        "step `review` failed: Codex CLI exited with status exit status: 1.\nstdout:\no\nstderr:\ne"
    );
    assert_eq!(failing.log.len(), 3);

    let mut mute = surroundings(vec![Err("gone".to_string())], vec![exited(true, "", "")]);
    assert_eq!(
        invoke(&invocation, &mut mute).expect_err("mute").message(),
        "workflow execution failed: failed to read Codex output file `/tmp/codex-output-23.json`: gone"
    );
    assert_eq!(
        mute.log.last().map(String::as_str),
        Some("remove /tmp/conductor-second-schema-17.json")
    );
}

#[test]
fn the_schema_file_does_not_stay_behind() {
    let workflow = workflow();
    let settings = unset();
    let invocation = SubprocessAgentExecutor
        .run_step(&workflow, &workflow.steps[0], &context(), &settings, &scratch())
        .expect("invocation");

    let mut unread = surroundings(vec![Err("denied".to_string())], vec![]);
    assert_eq!(
        invoke(&invocation, &mut unread).expect_err("unread").message(),
        format!("workflow execution failed: failed to read generated schema `{SCHEMA_FILE}`: denied")
    );
    assert_eq!(unread.log.last(), Some(&format!("remove {SCHEMA_FILE}")));

    let mut failing = surroundings(
        vec![Ok("s".to_string())],
        vec![ProcessOutcome::NotStarted("gone".to_string())],
    );
    assert!(invoke(&invocation, &mut failing).is_err());
    assert_eq!(failing.log.last(), Some(&format!("remove {SCHEMA_FILE}")));

    let mut unwritten = surroundings(vec![], vec![]);
    unwritten.write_failure = Some("full".to_string());
    assert_eq!(
        invoke(&invocation, &mut unwritten).expect_err("unwritten").message(),
        format!("workflow execution failed: failed to write schema file `{SCHEMA_FILE}`: full")
    );
    assert_eq!(unwritten.log, vec![format!("write {SCHEMA_FILE}")]);

    match invocation.write_schema(Ok("{}".to_string())) {
        (InvokePhase::WriteSchema, InvokeAction::WriteFile { path, contents }) => {
            assert_eq!(path, SCHEMA_FILE);
            assert_eq!(contents, "{}");
        }
        other => panic!("{other:?}"),
    }

    let broken = Invocation { schema: "no json", ..invocation };
    assert_eq!(
        invoke(&broken, &mut surroundings(vec![], vec![])).expect_err("schema").message(),
        "workflow execution failed: failed to serialize schema: expected ident at line 1 column 2"
    );
}

#[test]
fn unknown_agents_are_not_started() {
    let workflow = workflow();
    let settings = unset();
    let mut stray = step();
    stray.agent = "third".to_string();
    let error = SubprocessAgentExecutor
        .run_step(&workflow, &stray, &context(), &settings, &scratch())
        .err()
        .expect("unknown");
    assert_eq!(error.message(), "workflow execution failed: unknown agent `third`");
    let error = SubprocessAgentExecutor
        .run_review(
            &workflow,
            &workflow.review_gates[0],
            &workflow.steps[0],
            "third",
            &context(),
            &report(),
            &settings,
            &scratch(),
        )
        .err()
        .expect("unknown");
    assert_eq!(
        error.message(),
        format!("workflow execution failed: unknown {} agent `third`", review_role_name())
    );
}
