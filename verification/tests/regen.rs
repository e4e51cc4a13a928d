use conductor::names::{command_name, review_role_name};
use conductor::regen::analysis::{
    analyze_project, detect_node_commands, detect_python_commands, detect_rust_commands,
    parse_package_name,
};
use conductor::regen::command::{absolutize, analysis_lines, parse_yes_no, regen_report_lines};
use conductor::regen::render::{
    build_commands_for_analysis, render_preferences_block, render_step_snippets,
    render_workflow_yaml,
};
use conductor::regen::yaml::{sanitize_yaml_scalar, write_rows, Row};
use conductor::regen::{
    Answer, Manifest, ProjectAnalysis, ProjectKind, ProjectProbe, RegenAction, RegenCommand,
    RegenError, RegenEvent, RegenPhase, RegenReport, RegenRun,
};
use conductor::workflow::ConductorAgent;

fn empty_probe() -> ProjectProbe {
    ProjectProbe {
        is_directory: true,
        cargo_toml: Manifest::Missing,
        package_json: Manifest::Missing,
        pyproject_toml: false,
        main_rs: false,
        lib_rs: false,
        git: false,
        clippy_toml: false,
        ruff_toml: false,
        dot_ruff_toml: false,
    }
}

fn demo_analysis() -> ProjectAnalysis {
    ProjectAnalysis {
        root: "/tmp/demo".to_string(),
        name: "demo".to_string(),
        kind: ProjectKind::RustCli,
        notes: Vec::new(),
        validation_commands: vec!["cargo fmt".to_string(), "cargo test".to_string()],
    }
}

#[test]
fn detects_rust_cli_project() {
    let probe = ProjectProbe {
        cargo_toml: Manifest::Contents(
            "[package]\nname = \"demo\"\nversion = \"0.1.0\"\n".to_string(),
        ),
        main_rs: true,
        ..empty_probe()
    };
    let analysis = analyze_project("/tmp/somewhere", &probe).expect("analysis");
    assert_eq!(analysis.kind.as_str(), "rust-cli");
    assert_eq!(analysis.name, "demo");
}

#[test]
fn renders_preferences_snippet_when_present() {
    let analysis = ProjectAnalysis {
        root: "/tmp/demo".to_string(),
        name: "demo".to_string(),
        kind: ProjectKind::RustCli,
        notes: Vec::new(),
        validation_commands: vec!["cargo fmt".to_string(), "cargo test".to_string()],
    };

    let yaml = render_workflow_yaml(&analysis, &Some("Prefer small commits".to_string()));
    assert!(yaml.contains("custom_preferences"));
    assert!(yaml.contains("Prefer small commits"));
    assert!(yaml.contains("\"cargo test\""));
    assert!(yaml.contains("snippets:\n      - \"project_brief\"\n      - \"custom_preferences\""));
    assert!(yaml.contains("snippets:\n      - \"review_brief\"\n      - \"custom_preferences\""));
    assert!(yaml.contains(
        "prompt: |\n      Implement the approved plan in the repository. Keep the handoff concise and specific.\n    snippets:\n      - \"custom_preferences\"\n    run:"
    ));
}

#[test]
fn omits_preferences_snippet_when_not_present() {
    let analysis = ProjectAnalysis {
        root: "/tmp/demo".to_string(),
        name: "demo".to_string(),
        kind: ProjectKind::RustCli,
        notes: Vec::new(),
        validation_commands: vec!["cargo fmt".to_string(), "cargo test".to_string()],
    };

    let yaml = render_workflow_yaml(&analysis, &None);
    assert!(!yaml.contains("custom_preferences"));
    assert!(yaml.contains("snippets:\n      - \"project_brief\""));
    assert!(yaml.contains("snippets:\n      - \"review_brief\""));
    assert!(!yaml.contains(
        "prompt: |\n      Implement the approved plan in the repository. Keep the handoff concise and specific.\n    snippets:"
    ));
}

#[test]
fn renders_the_whole_workflow() {
    let lead = command_name(ConductorAgent::ClaudeCode);
    let second = command_name(ConductorAgent::OpenAiCodex);
    let role = review_role_name();
    assert_eq!(lead.len(), 6);
    assert_eq!(second, "codex");
    assert_eq!(role.len(), 8);
    let expected = format!(
        r#"version: "1"
name: "de\"mo-generated"
description: "Coordinate implementation, review, and validation for a Rust CLI project."

defaults:
  auto_handoff: true
  review_required: true
  working_directory: "."

handoff:
  path: "handover.md"
  mode: "append"
  required_sections:
    - "Current State"
    - "Open Questions"
    - "Next Actions"

snippets:
  project_brief:
    trigger: ";;project"
    description: "Project-specific delivery brief generated by Conductor regen."
    content: |
      You are working inside `de\"mo`.
      Project type: rust-cli.
      Keep changes cohesive, preserve handoff quality, and leave the next agent with a clear state summary.
  custom_preferences:
    trigger: ";;prefs"
    description: "User-provided generation preferences."
    content: |
      one
      two
  review_brief:
    trigger: ";;review"
    description: "Standard review request."
    content: |
      Review this change for correctness, regression risk, workflow integrity, and missing validation.

agents:
  {lead}:
    provider: "claude_code"
    model: "sonnet"
    profile: "implementer"
    workspace: "."
  {second}:
    provider: "open_ai_codex"
    model: "gpt-5.4"
    profile: "{role}"
    workspace: "."

steps:
  - id: "plan"
    title: "Analyze the task and prepare the execution plan"
    agent: "{lead}"
    prompt: |
      Inspect the repository, identify the files likely to change, and propose a clean implementation plan.
      Use ;;project.
    snippets:
      - "project_brief"
      - "custom_preferences"
    review:
      required: false
    on_success:
      handoff_to: "{second}"
      next_step: "review_plan"
      route: "continue"

  - id: "review_plan"
    title: "Review the plan before implementation"
    agent: "{second}"
    prompt: |
      Review the proposed plan, call out risks, and either approve it or force a retry.
      Use ;;review.
    snippets:
      - "review_brief"
      - "custom_preferences"
    review:
      gate: "quality_gate"
      required: true
    on_success:
      handoff_to: "{lead}"
      next_step: "implement"
      route: "continue"
    on_failure:
      handoff_to: "{lead}"
      next_step: "plan"
      route: "retry"

  - id: "implement"
    title: "Implement the approved changes"
    agent: "{lead}"
    prompt: |
      Implement the approved plan in the repository. Keep the handoff concise and specific.
    snippets:
      - "custom_preferences"
    run:
      - "cargo fmt"
      - "echo \"hi\""
    review:
      gate: "quality_gate"
      required: true
    on_success:
      handoff_to: "{second}"
      next_step: "final_review"
      route: "continue"

  - id: "final_review"
    title: "Approve the final result"
    agent: "{second}"
    prompt: |
      Perform final review, verify the change is shippable, and confirm the handoff is complete.
    snippets:
      - "review_brief"
      - "custom_preferences"
    review:
      gate: "release_gate"
      required: true
    on_success:
      route: "halt"

review_gates:
  - id: "quality_gate"
    name: "Quality Gate"
    required_approvers: 1
    instructions: "Validate design coherence, correctness, and project-specific checks."
  - id: "release_gate"
    name: "Release Gate"
    required_approvers: 1
    instructions: "Confirm the result is ready to merge or release."
"#
    );
    let analysis = ProjectAnalysis {
        name: "de\"mo".to_string(),
        validation_commands: vec!["cargo fmt".to_string(), "echo \"hi\"".to_string()],
        ..demo_analysis()
    };
    assert_eq!(render_workflow_yaml(&analysis, &Some("one\ntwo".to_string())), expected);
}

#[test]
fn generated_workflows_are_yaml() {
    for kind in [
        ProjectKind::RustCli,
        ProjectKind::RustLibrary,
        ProjectKind::NodeApp,
        ProjectKind::PythonApp,
        ProjectKind::Generic,
    ] {
        for preferences in [None, Some("Prefer \"small\" commits\n  indented".to_string())] {
            let analysis = ProjectAnalysis {
                name: "tricky \\ \"name\"\twith\nlines\r".to_string(),
                kind,
                validation_commands: vec!["echo 'a' \"b\" \\n".to_string()],
                ..demo_analysis()
            };
            let yaml = render_workflow_yaml(&analysis, &preferences);
            let value: serde_yaml::Value = serde_yaml::from_str(&yaml).expect("yaml");
            assert_eq!(
                value["name"].as_str(),
                Some("tricky \\ \"name\"\twith\nlines\r-generated")
            );
            assert_eq!(value["steps"][2]["run"][0].as_str(), Some("echo 'a' \"b\" \\n"));
            assert_eq!(value["steps"].as_sequence().map(|steps| steps.len()), Some(4));
            assert_eq!(
                value["snippets"]["custom_preferences"]["content"].as_str().map(str::to_string),
                preferences.map(|text| format!("{text}\n"))
            );
        }
    }
}

#[test]
fn blank_preferences_are_ignored() {
    let analysis = demo_analysis();
    let without = render_workflow_yaml(&analysis, &None);
    assert_eq!(render_workflow_yaml(&analysis, &Some(" \n\t".to_string())), without);
    assert_ne!(render_workflow_yaml(&analysis, &Some("x".to_string())), without);
}

#[test]
fn scalars_are_escaped() {
    assert_eq!(sanitize_yaml_scalar("plain text"), "plain text");
    assert_eq!(sanitize_yaml_scalar("a\\b"), "a\\\\b");
    assert_eq!(sanitize_yaml_scalar("a\"b"), "a\\\"b");
    assert_eq!(sanitize_yaml_scalar("a\nb\rc\td"), "a\\nb\\rc\\td");
    assert_eq!(sanitize_yaml_scalar("\\n"), "\\\\n");
    assert_eq!(sanitize_yaml_scalar(""), "");
    for text in ["\\\"", "\n\"\\\t", "tail\\", "\\\\\"\\n"] {
        let quoted = format!("\"{}\"", sanitize_yaml_scalar(text));
        let value: serde_yaml::Value = serde_yaml::from_str(&quoted).expect("scalar");
        assert_eq!(value.as_str(), Some(text));
    }
}

#[test]
fn blocks_are_rendered() {
    assert_eq!(
        build_commands_for_analysis(&demo_analysis()),
        "      - \"cargo fmt\"\n      - \"cargo test\"\n"
    );
    assert_eq!(
        render_preferences_block("a\n\nb"),
        "  custom_preferences:\n    trigger: \";;prefs\"\n    description: \"User-provided generation preferences.\"\n    content: |\n      a\n      \n      b\n"
    );
    assert_eq!(render_step_snippets(&Vec::new(), false), "");
    assert_eq!(
        render_step_snippets(&Vec::new(), true),
        "    snippets:\n      - \"custom_preferences\"\n"
    );
    assert_eq!(
        render_step_snippets(&vec!["a".to_string(), "b".to_string()], false),
        "    snippets:\n      - \"a\"\n      - \"b\"\n"
    );
    assert_eq!(
        render_step_snippets(&vec!["a\"b\\c".to_string()], true),
        "    snippets:\n      - \"a\"b\\c\"\n      - \"custom_preferences\"\n"
    );
}

#[test]
fn package_names_are_found() {
    assert_eq!(parse_package_name("[package]\nname = \"demo\"\n").as_deref(), Some("demo"));
    assert_eq!(parse_package_name("  [package]  \r\n  name=demo\r\n").as_deref(), Some("demo"));
    assert_eq!(
        parse_package_name("[lib]\nname = \"other\"\n[package]\nname = \"demo\"").as_deref(),
        Some("demo")
    );
    assert_eq!(parse_package_name("[package]\n[lib]\nname = \"other\"\n"), None);
    assert_eq!(parse_package_name("name = \"outside\"\n"), None);
    assert_eq!(parse_package_name("[package]\nname\n"), None);
    assert_eq!(
        parse_package_name("[package]\nname = \"demo\" # the crate\n").as_deref(),
        Some("demo")
    );
    assert_eq!(
        parse_package_name("[package]\nnamespace = \"x\"\nname = \"demo\"\n").as_deref(),
        Some("demo")
    );
    assert_eq!(
        parse_package_name("[package]\nname = \"\"\"demo\"\"\"\n").as_deref(),
        Some("demo")
    );
    assert_eq!(
        parse_package_name("[package]\nname = \"a\\\"b\" # \"c\"\n").as_deref(),
        Some("a\\\"b")
    );
    assert_eq!(parse_package_name("[package]\nname = \"\"\n").as_deref(), Some(""));
    assert_eq!(parse_package_name("[package]\nname2 = \"x\"\n"), None);
    assert_eq!(parse_package_name("[package]\nname = \"open\n").as_deref(), Some("open"));
    assert_eq!(parse_package_name(""), None);
}

#[test]
fn commands_follow_the_manifest() {
    assert_eq!(detect_rust_commands("", false), vec!["cargo fmt", "cargo test"]);
    assert_eq!(
        detect_rust_commands("[workspace]", false),
        vec!["cargo fmt", "cargo test --workspace"]
    );
    let clippy = "cargo clippy --all-targets --all-features -- -D warnings";
    assert_eq!(detect_rust_commands("", true), vec!["cargo fmt", clippy, "cargo test"]);
    assert_eq!(
        detect_rust_commands("[lints.clippy]", false),
        vec!["cargo fmt", clippy, "cargo test"]
    );
    assert_eq!(detect_node_commands("{}"), vec!["npm test"]);
    assert_eq!(
        detect_node_commands("{\"build\": 1, \"lint\": 2}"),
        vec!["npm run lint", "npm run build"]
    );
    assert_eq!(
        detect_node_commands("{\"build\": 1, \"test\": 0, \"lint\": 2}"),
        vec!["npm run lint", "npm test", "npm run build"]
    );
    assert_eq!(detect_python_commands(true), vec!["ruff check .", "pytest"]);
    assert_eq!(detect_python_commands(false), vec!["pytest"]);
}

#[test]
fn projects_are_told_apart() {
    let missing = analyze_project(
        "/nowhere",
        &ProjectProbe { is_directory: false, ..empty_probe() },
    )
    .expect_err("missing");
    assert_eq!(missing.message, "project directory `/nowhere` does not exist");
    assert_eq!(missing.cause, None);

    let generic = analyze_project("/work/thing/", &ProjectProbe { git: true, ..empty_probe() })
        .expect("generic");
    assert_eq!(generic.kind.as_str(), "generic");
    assert_eq!(generic.name, "thing");
    assert_eq!(
        generic.notes,
        vec![
            "no dominant project manifest found; generating a generic workflow",
            "git repository detected"
        ]
    );
    assert_eq!(
        generic.validation_commands,
        vec!["echo 'add project-specific validation commands'"]
    );

    let python = analyze_project(
        "/",
        &ProjectProbe { pyproject_toml: true, dot_ruff_toml: true, ..empty_probe() },
    )
    .expect("python");
    assert_eq!(python.kind.as_str(), "python-app");
    assert_eq!(python.name, "project");
    assert_eq!(python.notes, vec!["detected Python project from pyproject.toml"]);
    assert_eq!(python.validation_commands, vec!["ruff check .", "pytest"]);

    let node = analyze_project(
        "/work/web",
        &ProjectProbe {
            package_json: Manifest::Contents("{}".to_string()),
            pyproject_toml: true,
            ..empty_probe()
        },
    )
    .expect("node");
    assert_eq!(node.kind.as_str(), "node-app");
    assert_eq!(node.name, "web");
    assert_eq!(node.validation_commands, vec!["npm test"]);

    let library = analyze_project(
        "/work/lib",
        &ProjectProbe {
            cargo_toml: Manifest::Contents("[dependencies]".to_string()),
            package_json: Manifest::Unreadable("ignored".to_string()),
            lib_rs: true,
            ..empty_probe()
        },
    )
    .expect("library");
    assert_eq!(library.kind.as_str(), "rust-library");
    assert_eq!(library.name, "lib");
    assert_eq!(library.notes, vec!["detected Rust crate with library entrypoint"]);

    let bare = analyze_project(
        "/work/bare",
        &ProjectProbe { cargo_toml: Manifest::Contents(String::new()), ..empty_probe() },
    )
    .expect("bare");
    assert_eq!(bare.kind.as_str(), "rust-library");
    assert_eq!(bare.notes, vec!["detected Cargo manifest without standard src entrypoint"]);

    let unreadable = analyze_project(
        "/work/x",
        &ProjectProbe { cargo_toml: Manifest::Unreadable("denied".to_string()), ..empty_probe() },
    )
    .expect_err("unreadable");
    assert_eq!(unreadable.message, "failed to read `/work/x/Cargo.toml`");
    assert_eq!(unreadable.cause.as_deref(), Some("denied"));

    let unreadable = analyze_project(
        "/work/x",
        &ProjectProbe { package_json: Manifest::Unreadable("denied".to_string()), ..empty_probe() },
    )
    .expect_err("unreadable");
    assert_eq!(unreadable.message, "failed to read `/work/x/package.json`");
}

#[test]
fn rows_are_written_one_to_a_line() {
    let rows = vec![
        Row::Section { indent: 0, key: "a".to_string() },
        Row::Quoted {
            indent: 2,
            item: true,
            key: "id".to_string(),
            value: "x \"y\"".to_string(),
        },
        Row::Quoted { indent: 4, item: false, key: "t".to_string(), value: "z".to_string() },
        Row::Bare { indent: 4, key: "p".to_string(), value: "|".to_string() },
        Row::Text { indent: 6, text: "one".to_string() },
        Row::Blank,
        Row::Section { indent: 4, key: "run".to_string() },
        Row::Entry { indent: 6, value: "b\\c".to_string() },
    ];
    assert_eq!(
        write_rows(&rows),
        "a:\n  - id: \"x \\\"y\\\"\"\n    t: \"z\"\n    p: |\n      one\n\n    run:\n      - \"b\\\\c\"\n"
    );
}

#[test]
fn answers_are_understood() {
    for yes in ["y", "Y", " yes ", "YES"] {
        assert!(parse_yes_no(yes, false).expect("yes"));
    }
    for no in ["n", "No", "\tNO"] {
        assert!(!parse_yes_no(no, true).expect("no"));
    }
    assert!(parse_yes_no("  ", true).expect("usual"));
    assert!(!parse_yes_no("", false).expect("usual"));
    assert_eq!(parse_yes_no("maybe", true).expect_err("neither").message, "expected yes or no");
}

#[test]
fn paths_become_absolute() {
    let here: Result<String, String> = Ok("/work".to_string());
    let lost: Result<String, String> = Err("gone".to_string());
    assert_eq!(absolutize("a/b", &here).expect("relative"), "/work/a/b");
    assert_eq!(absolutize("/a/b", &lost).expect("absolute"), "/a/b");
    assert_eq!(absolutize("a", &lost).expect_err("lost").message, "gone");

    let run = RegenCommand {
        workflow_path: "workflow.yaml".to_string(),
        project_dir: None,
        force: true,
    }
    .run(&here)
    .expect("run");
    assert_eq!(run.workflow_path, "/work/workflow.yaml");
    assert_eq!(run.project_root, "/work");
    assert!(run.force);
    let run = RegenCommand {
        workflow_path: "/w.yaml".to_string(),
        project_dir: Some("sub".to_string()),
        force: false,
    }
    .run(&here)
    .expect("run");
    assert_eq!(run.workflow_path, "/w.yaml");
    assert_eq!(run.project_root, "/work/sub");
    let error = RegenCommand {
        workflow_path: "/w.yaml".to_string(),
        project_dir: None,
        force: false,
    }
    .run(&lost)
    .expect_err("lost");
    assert_eq!(error.message, "gone");
}

struct Scene {
    answers: Vec<Answer>,
    exists: bool,
    directory_failure: Option<String>,
    write_failure: Option<String>,
    shown: Vec<String>,
    written: Option<(String, String)>,
}

fn scene(answers: Vec<&str>, exists: bool) -> Scene {
    Scene {
        answers: answers.into_iter().map(|line| Answer::Line(line.to_string())).collect(),
        exists,
        directory_failure: None,
        write_failure: None,
        shown: Vec::new(),
        written: None,
    }
}

fn play(run: &RegenRun, scene: &mut Scene) -> Result<RegenReport, RegenError> {
    let (mut phase, mut action) = run.start();
    loop {
        let event = match action {
            RegenAction::Inspect { root } => {
                assert_eq!(root, run.project_root);
                RegenEvent::Inspected(empty_probe())
            }
            RegenAction::Ask { lines, prompt } => {
                scene.shown.extend(lines);
                scene.shown.push(prompt);
                RegenEvent::Answered(scene.answers.remove(0))
            }
            RegenAction::CheckTarget { path } => {
                assert_eq!(path, run.workflow_path);
                RegenEvent::TargetChecked { exists: scene.exists }
            }
            RegenAction::CreateDirectory { .. } => {
                RegenEvent::DirectoryCreated { failure: scene.directory_failure.take() }
            }
            RegenAction::WriteFile { path, contents } => {
                scene.written = Some((path, contents));
                RegenEvent::FileWritten { failure: scene.write_failure.take() }
            }
            RegenAction::Finish(result) => {
                assert!(matches!(phase, RegenPhase::Finished));
                return result;
            }
        };
        (phase, action) = run.resume(phase, event);
    }
}

fn demo_run(force: bool) -> RegenRun {
    RegenRun {
        workflow_path: "/work/workflow.yaml".to_string(),
        project_root: "/work/demo".to_string(),
        force,
    }
}

#[test]
fn a_workflow_is_generated() {
    let mut scene = scene(vec!["y\n", "first\r\n", "second\n", "\n"], false);
    let report = play(&demo_run(false), &mut scene).expect("report");
    assert_eq!(report.workflow_path, "/work/workflow.yaml");
    assert_eq!(report.project_root, "/work/demo");
    assert_eq!(report.project_kind, "generic");
    assert_eq!(
        scene.shown,
        vec![
            "analyzing project: /work/demo",
            "detected project type: generic",
            "workflow target: /work/workflow.yaml",
            "signal: no dominant project manifest found; generating a generic workflow",
            "Do you want to add custom preferences before writing workflow.yaml? [y/N] ",
            "Enter custom preferences. Submit an empty line to finish.",
            "> ",
            "> ",
            "> ",
        ]
    );
    let (path, contents) = scene.written.expect("written");
    assert_eq!(path, "/work/workflow.yaml");
    assert!(contents.contains("    content: |\n      first\n      second\n  review_brief:"));
    let analysis = analyze_project("/work/demo", &empty_probe()).expect("analysis");
    assert_eq!(contents, render_workflow_yaml(&analysis, &Some("first\nsecond".to_string())));
}

#[test]
fn no_preferences_are_entered_by_an_empty_line() {
    let mut with_none = scene(vec!["yes\n", "   \n"], false);
    play(&demo_run(false), &mut with_none).expect("report");
    let mut with_no = scene(vec!["n\n"], false);
    play(&demo_run(false), &mut with_no).expect("report");
    assert_eq!(with_none.written, with_no.written);
}

#[test]
fn existing_files_are_kept_unless_the_user_agrees() {
    let mut kept = scene(vec!["\n", "\n"], true);
    let error = play(&demo_run(false), &mut kept).expect_err("kept");
    assert_eq!(error.message, "aborted without writing workflow file");
    assert_eq!(kept.written, None);
    assert_eq!(
        kept.shown.last().map(String::as_str),
        Some("workflow file `/work/workflow.yaml` already exists. Overwrite it? [y/N] ")
    );

    let mut unclear = scene(vec!["", "perhaps\n"], true);
    assert_eq!(
        play(&demo_run(false), &mut unclear).expect_err("unclear").message,
        "expected yes or no"
    );
    assert_eq!(unclear.written, None);

    let mut agreed = scene(vec!["\n", "Y\n"], true);
    play(&demo_run(false), &mut agreed).expect("agreed");
    assert!(agreed.written.is_some());

    let mut forced = scene(vec!["\n"], true);
    play(&demo_run(true), &mut forced).expect("forced");
    assert!(forced.written.is_some());
}

#[test]
fn failures_to_generate_are_reported() {
    let mut hidden = scene(vec![], false);
    hidden.answers.push(Answer::NotShown("closed".to_string()));
    let error = play(&demo_run(false), &mut hidden).expect_err("hidden");
    assert_eq!(error.message, "failed to flush stdout");
    assert_eq!(error.cause.as_deref(), Some("closed"));

    let mut silent = scene(vec!["y\n"], false);
    silent.answers.push(Answer::NotRead("eof".to_string()));
    let error = play(&demo_run(false), &mut silent).expect_err("silent");
    assert_eq!(error.message, "failed to read user input");
    assert_eq!(error.cause.as_deref(), Some("eof"));

    let mut homeless = scene(vec!["n\n"], false);
    homeless.directory_failure = Some("denied".to_string());
    let error = play(&demo_run(false), &mut homeless).expect_err("homeless");
    assert_eq!(error.message, "failed to create workflow directory `/work`");
    assert_eq!(error.cause.as_deref(), Some("denied"));

    let mut full = scene(vec!["n\n"], false);
    full.write_failure = Some("full".to_string());
    let error = play(&demo_run(false), &mut full).expect_err("full");
    assert_eq!(error.message, "failed to write workflow file `/work/workflow.yaml`");
    assert_eq!(error.cause.as_deref(), Some("full"));
}

#[test]
fn reports_are_told() {
    let report = RegenReport {
        workflow_path: "/w.yaml".to_string(),
        project_root: "/work".to_string(),
        project_kind: "generic",
        notes: vec!["one".to_string(), "two".to_string()],
    };
    assert_eq!(
        regen_report_lines(&report),
        vec![
            "generated workflow `/w.yaml` for detected project type `generic`",
            "project root: /work",
            "note: one",
            "note: two",
        ]
    );
    assert_eq!(
        analysis_lines(&demo_analysis(), "/w.yaml"),
        vec![
            "analyzing project: /tmp/demo",
            "detected project type: rust-cli",
            "workflow target: /w.yaml",
        ]
    );
}
