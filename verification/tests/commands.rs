use conductor::cli::{log_filter, Cli, ConductorCommand, Task};
use conductor::codex::{
    candidate_paths, check_forwarded, codex_task, find_real_codex, Candidate, CodexTask, Forwarded,
};

fn cli(command: Option<ConductorCommand>) -> Cli {
    Cli { command, workflow: "w.yaml".to_string(), summary: true, verbose: 0 }
}

#[test]
fn validation_is_the_default_task() {
    for command in [None, Some(ConductorCommand::Validate)] {
        match cli(command).task() {
            Task::Validate { workflow, summary } => {
                assert_eq!(workflow, "w.yaml");
                assert!(summary);
            }
            other => panic!("{other:?}"),
        }
    }
}

#[test]
fn runs_are_dry_unless_they_are_live() {
    for live in [false, true] {
        match cli(Some(ConductorCommand::Run { live, max_steps: 5 })).task() {
            Task::Run { workflow, options } => {
                assert_eq!(workflow, "w.yaml");
                assert_eq!(options.dry_run, !live);
                assert_eq!(options.max_steps, 5);
            }
            other => panic!("{other:?}"),
        }
    }
}

#[test]
fn generation_gets_its_options() {
    let command = ConductorCommand::Regen { project_dir: Some("d".to_string()), force: true };
    match cli(Some(command)).task() {
        Task::Regen(request) => {
            assert_eq!(request.workflow_path, "w.yaml");
            assert_eq!(request.project_dir.as_deref(), Some("d"));
            assert!(request.force);
        }
        other => panic!("{other:?}"),
    }
}

#[test]
fn verbosity_sets_the_log_level() {
    assert_eq!(log_filter(0), "warn");
    assert_eq!(log_filter(1), "info");
    assert_eq!(log_filter(2), "debug");
    assert_eq!(log_filter(255), "debug");
}

fn texts(words: &[&str]) -> Vec<String> {
    words.iter().map(|word| word.to_string()).collect()
}

#[test]
fn the_companion_keeps_generation_to_itself() {
    for first in ["regen", ";;regen"] {
        match codex_task(&texts(&[first, "--force", "x"])) {
            CodexTask::Regen(rest) => assert_eq!(rest, vec!["--force", "x"]),
            CodexTask::Forward => panic!("forwarded"),
        }
    }
    for args in [texts(&[]), texts(&["exec", "regen"]), texts(&["Regen"])] {
        assert!(matches!(codex_task(&args), CodexTask::Forward));
    }
}

#[test]
fn the_companion_looks_past_itself() {
    assert_eq!(
        candidate_paths(&texts(&["/a", "/b/", ""])),
        vec!["/a/codex", "/b/codex", "codex"]
    );
    let candidate = |path: &str, is_file: bool| Candidate { path: path.to_string(), is_file };
    let candidates =
        vec![candidate("/a/codex", false), candidate("/b//codex", true), candidate("/c/codex", true)];
    assert_eq!(
        find_real_codex(&candidates, &Some("/b/./codex".to_string())).expect("other"),
        "/c/codex"
    );
    assert_eq!(find_real_codex(&candidates, &None).expect("first"), "/b//codex");
    let own = vec![candidate("/b/codex", true)];
    assert_eq!(
        find_real_codex(&own, &Some("/b/codex".to_string())).expect_err("none"),
        "no `codex` binary found in PATH\nInstall the Codex CLI (https://github.com/openai/codex) to forward non-regen commands."
    );
}

#[test]
fn forwarded_commands_are_judged_by_their_end() {
    let ended = |success| Forwarded::Exited { success, status: "exit status: 4".to_string() };
    assert!(check_forwarded("/c/codex", &ended(true)).is_ok());
    assert_eq!(
        check_forwarded("/c/codex", &ended(false)).expect_err("failed"),
        "codex exited with exit status: 4"
    );
    assert_eq!(
        check_forwarded("/c/codex", &Forwarded::NotStarted("denied".to_string())).expect_err("x"),
        "failed to run `/c/codex`: denied"
    );
}
