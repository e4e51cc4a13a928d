//! How the tools behind agents are started.

use vstd::prelude::*;
use vstd::string::*;

use crate::names::{command_name, command_of};
use crate::text::{ascii_lowered, optional, same, texts, to_ascii_lower};
use crate::workflow::maps::{env_entries, env_pairs};
use crate::workflow::model::{AgentConfig, ConductorAgent};

verus! {

/// What the environment says of the tools. Each value is that of the variable
/// named, where it is set.
#[derive(Debug)]
pub struct AgentSettings {
    /// `CONDUCTOR_CLAUDE_BIN`: the command.
    pub claude_bin: Option<String>,
    /// `CONDUCTOR_CLAUDE_PERMISSION_MODE`: what the tool may do unasked.
    pub claude_permission_mode: Option<String>,
    /// `CONDUCTOR_CODEX_BIN`: the command.
    pub codex_bin: Option<String>,
    /// `CONDUCTOR_CODEX_SANDBOX`: where the tool may write.
    pub codex_sandbox: Option<String>,
    /// `CONDUCTOR_CODEX_FULL_AUTO`: whether the tool works without approvals.
    pub codex_full_auto: Option<String>,
    /// `CONDUCTOR_CODEX_PROFILE`: the profile of the tool, whatever the workflow
    /// says.
    pub codex_profile: Option<String>,
    /// `CONDUCTOR_CODEX_HOME`: where the tool keeps its state.
    pub codex_home: Option<String>,
}

/// A process to be started.
#[derive(Debug)]
pub struct CommandPlan {
    pub program: String,
    pub args: Vec<String>,
    /// Where it is started, if not where the caller is.
    pub current_dir: Option<String>,
    /// Variables that are set for it, in order.
    pub env: Vec<(String, String)>,
}

/// A [`CommandPlan`] with its texts as sequences of characters.
#[verifier::ext_equal]
pub ghost struct PlanView {
    pub program: Seq<char>,
    pub args: Seq<Seq<char>>,
    pub current_dir: Option<Seq<char>>,
    pub env: Seq<(Seq<char>, Seq<char>)>,
}

/// Variables with their texts as sequences of characters.
pub open spec fn pairs(env: Seq<(String, String)>) -> Seq<(Seq<char>, Seq<char>)> {
    env.map_values(|pair: (String, String)| (pair.0@, pair.1@))
}

impl View for CommandPlan {
    type V = PlanView;

    open spec fn view(&self) -> PlanView {
        PlanView {
            program: self.program@,
            args: texts(self.args@),
            current_dir: optional(self.current_dir),
            env: pairs(self.env@),
        }
    }
}

// ---------------------------------------------------------------------------
// Settings
// ---------------------------------------------------------------------------

/// The text, or a standard one where it is missing.
pub open spec fn setting(value: Option<String>, standard: Seq<char>) -> Seq<char> {
    match value {
        Some(text) => text@,
        None => standard,
    }
}

/// Approvals are skipped unless the setting is `0` or `false`, in capitals or
/// not.
pub open spec fn full_auto(value: Option<String>) -> bool {
    match value {
        Some(text) => text@ != "0"@ && ascii_lowered(text@) != "false"@,
        None => true,
    }
}

/// The command that starts a tool.
pub open spec fn binary_of(settings: &AgentSettings, tool: ConductorAgent) -> Seq<char> {
    match tool {
        ConductorAgent::ClaudeCode => setting(settings.claude_bin, command_of(tool)),
        ConductorAgent::OpenAiCodex => setting(settings.codex_bin, command_of(tool)),
    }
}

/// The text, or a standard one where it is missing.
fn setting_or(value: &Option<String>, standard: &str) -> (r: String)
    ensures
        r@ == setting(*value, standard@),
{
    match value {
        Some(text) => text.clone(),
        None => standard.to_owned(),
    }
}

impl AgentSettings {
    /// The command that starts a tool.
    pub fn binary(&self, tool: ConductorAgent) -> (r: String)
        ensures
            r@ == binary_of(self, tool),
    {
        match tool {
            ConductorAgent::ClaudeCode => setting_or(
                &self.claude_bin,
                command_name(tool).as_str(),
            ),
            ConductorAgent::OpenAiCodex => setting_or(&self.codex_bin, command_name(tool).as_str()),
        }
    }

    /// What the first tool may do unasked.
    pub fn claude_permission_mode(&self) -> (r: String)
        ensures
            r@ == setting(self.claude_permission_mode, "acceptEdits"@),
    {
        setting_or(&self.claude_permission_mode, "acceptEdits")
    }

    /// Where the second tool may write.
    pub fn codex_sandbox_mode(&self) -> (r: String)
        ensures
            r@ == setting(self.codex_sandbox, "workspace-write"@),
    {
        setting_or(&self.codex_sandbox, "workspace-write")
    }

    /// Whether the second tool works without approvals.
    pub fn codex_full_auto_enabled(&self) -> (r: bool)
        ensures
            r == full_auto(self.codex_full_auto),
    {
        match &self.codex_full_auto {
            Some(text) => !same(text.as_str(), "0") && !same(
                to_ascii_lower(text.as_str()).as_str(),
                "false",
            ),
            None => true,
        }
    }
}

// ---------------------------------------------------------------------------
// Commands
// ---------------------------------------------------------------------------

/// A flag with its value, where there is one.
pub open spec fn flag(name: Seq<char>, value: Option<String>) -> Seq<Seq<char>> {
    match value {
        Some(text) => seq![name, text@],
        None => Seq::empty(),
    }
}

/// How the first tool is started. It gets the schema itself.
pub open spec fn claude_plan(
    settings: &AgentSettings,
    agent: &AgentConfig,
    workspace: Seq<char>,
    prompt: Seq<char>,
    schema: Seq<char>,
) -> PlanView {
    PlanView {
        program: binary_of(settings, ConductorAgent::ClaudeCode),
        args: seq![
            "-p"@,
            "--output-format"@,
            "json"@,
            "--permission-mode"@,
            setting(settings.claude_permission_mode, "acceptEdits"@),
            "--json-schema"@,
            schema,
            "--add-dir="@ + workspace,
            prompt,
        ] + flag("--model"@, agent.model),
        current_dir: Some(workspace),
        env: env_entries(agent.env),
    }
}

/// The profile that the second tool is asked to use: that of the environment, or
/// else that of the agent.
pub open spec fn profile_of(settings: &AgentSettings, agent: &AgentConfig) -> Option<String> {
    if settings.codex_profile is Some {
        settings.codex_profile
    } else {
        agent.profile
    }
}

/// How the second tool is started. It gets the path of the schema, and that of
/// the file for its answer.
pub open spec fn codex_plan(
    settings: &AgentSettings,
    agent: &AgentConfig,
    workspace: Seq<char>,
    prompt: Seq<char>,
    schema_path: Seq<char>,
    output_path: Seq<char>,
) -> PlanView {
    PlanView {
        program: binary_of(settings, ConductorAgent::OpenAiCodex),
        args: seq![
            "exec"@,
            "--ephemeral"@,
            "--skip-git-repo-check"@,
            "--sandbox"@,
            setting(settings.codex_sandbox, "workspace-write"@),
            "--color"@,
            "never"@,
            "--cd"@,
            workspace,
            "--output-schema"@,
            schema_path,
            "--output-last-message"@,
            output_path,
            prompt,
        ] + (if full_auto(settings.codex_full_auto) {
            seq!["--full-auto"@]
        } else {
            Seq::empty()
        }) + flag("--model"@, agent.model) + flag("--profile"@, profile_of(settings, agent)),
        current_dir: None,
        env: env_entries(agent.env) + match settings.codex_home {
            Some(path) => seq![("CODEX_HOME"@, path@)],
            None => Seq::empty(),
        },
    }
}

// ---------------------------------------------------------------------------
// Laws
// ---------------------------------------------------------------------------

/// A value with its flag before it, where there is a value.
pub open spec fn flagged(args: Seq<Seq<char>>, at: int, name: Seq<char>, value: Seq<char>) -> bool {
    0 <= at && at + 1 < args.len() && args[at] == name && args[at + 1] == value
}

/// What the environment sets counts, and otherwise the standard: the command of a
/// tool is its own name, the first tool accepts edits, the second writes to its
/// workspace.
pub proof fn law_settings(settings: &AgentSettings)
    ensures
        settings.claude_bin matches Some(path) ==> binary_of(settings, ConductorAgent::ClaudeCode)
            == path@,
        settings.claude_bin is None ==> binary_of(settings, ConductorAgent::ClaudeCode)
            == command_of(ConductorAgent::ClaudeCode),
        settings.codex_bin matches Some(path) ==> binary_of(settings, ConductorAgent::OpenAiCodex)
            == path@,
        settings.codex_bin is None ==> binary_of(settings, ConductorAgent::OpenAiCodex)
            == command_of(ConductorAgent::OpenAiCodex),
        settings.claude_permission_mode matches Some(mode) ==> setting(
            settings.claude_permission_mode,
            "acceptEdits"@,
        ) == mode@,
        settings.claude_permission_mode is None ==> setting(
            settings.claude_permission_mode,
            "acceptEdits"@,
        ) == "acceptEdits"@,
        settings.codex_sandbox matches Some(mode) ==> setting(
            settings.codex_sandbox,
            "workspace-write"@,
        ) == mode@,
        settings.codex_sandbox is None ==> setting(settings.codex_sandbox, "workspace-write"@)
            == "workspace-write"@,
{
}

/// The second tool works without approvals unless the environment says `0` or, in
/// whatever case, `false`.
pub proof fn law_when_approvals_are_skipped(settings: &AgentSettings)
    ensures
        settings.codex_full_auto is None ==> full_auto(settings.codex_full_auto),
        settings.codex_full_auto matches Some(text) ==> (!full_auto(settings.codex_full_auto)
            <==> text@ == "0"@ || ascii_lowered(text@) == "false"@),
{
}

/// The first tool is started in the workspace, which it may use, with the prompt,
/// the schema itself, the permission mode, the model of the agent, if it has one,
/// and the variables of the agent.
pub proof fn law_first_tool_gets_what_it_needs(
    settings: &AgentSettings,
    agent: &AgentConfig,
    workspace: Seq<char>,
    prompt: Seq<char>,
    schema: Seq<char>,
)
    ensures
        ({
            let plan = claude_plan(settings, agent, workspace, prompt, schema);
            &&& plan.program == binary_of(settings, ConductorAgent::ClaudeCode)
            &&& plan.current_dir == Some(workspace)
            &&& plan.env == env_entries(agent.env)
            &&& plan.args[0] == "-p"@
            &&& flagged(plan.args, 1, "--output-format"@, "json"@)
            &&& flagged(
                plan.args,
                3,
                "--permission-mode"@,
                match settings.claude_permission_mode {
                    Some(mode) => mode@,
                    None => "acceptEdits"@,
                },
            )
            &&& flagged(plan.args, 5, "--json-schema"@, schema)
            &&& plan.args[7] == "--add-dir="@ + workspace
            &&& plan.args[8] == prompt
            &&& match agent.model {
                Some(model) => plan.args.len() == 11 && flagged(
                    plan.args,
                    9,
                    "--model"@,
                    model@,
                ),
                None => plan.args.len() == 9,
            }
        }),
{
}

/// The second tool is told its workspace, where the schema is and where its answer
/// goes, gets the prompt and its sandbox, the model of the agent, if it has one,
/// and a profile: that of the environment, or else that of the agent, if there is
/// one. It works without approvals where they are skipped. It gets the variables
/// of the agent, and then its home, where the environment sets one.
pub proof fn law_second_tool_gets_what_it_needs(
    settings: &AgentSettings,
    agent: &AgentConfig,
    workspace: Seq<char>,
    prompt: Seq<char>,
    schema_path: Seq<char>,
    output_path: Seq<char>,
)
    ensures
        ({
            let plan = codex_plan(settings, agent, workspace, prompt, schema_path, output_path);
            let profile = match settings.codex_profile {
                Some(profile) => Some(profile@),
                None => optional(agent.profile),
            };
            let auto: int = if full_auto(settings.codex_full_auto) {
                1
            } else {
                0
            };
            let model: int = if agent.model is Some {
                2
            } else {
                0
            };
            let own = env_entries(agent.env);
            &&& plan.program == binary_of(settings, ConductorAgent::OpenAiCodex)
            &&& plan.current_dir is None
            &&& plan.args[0] == "exec"@
            &&& plan.args[1] == "--ephemeral"@
            &&& plan.args[2] == "--skip-git-repo-check"@
            &&& flagged(
                plan.args,
                3,
                "--sandbox"@,
                match settings.codex_sandbox {
                    Some(mode) => mode@,
                    None => "workspace-write"@,
                },
            )
            &&& flagged(plan.args, 5, "--color"@, "never"@)
            &&& flagged(plan.args, 7, "--cd"@, workspace)
            &&& flagged(plan.args, 9, "--output-schema"@, schema_path)
            &&& flagged(plan.args, 11, "--output-last-message"@, output_path)
            &&& plan.args[13] == prompt
            &&& auto == 1 ==> plan.args[14] == "--full-auto"@
            &&& agent.model matches Some(name) ==> flagged(
                plan.args,
                14 + auto,
                "--model"@,
                name@,
            )
            &&& profile matches Some(name) ==> flagged(
                plan.args,
                14 + auto + model,
                "--profile"@,
                name,
            ) && plan.args.len() == 14 + auto + model + 2
            &&& profile is None ==> plan.args.len() == 14 + auto + model
            &&& match settings.codex_home {
                Some(path) => plan.env == own.push(("CODEX_HOME"@, path@)),
                None => plan.env == own,
            }
        }),
{
    let plan = codex_plan(settings, agent, workspace, prompt, schema_path, output_path);
    let own = env_entries(agent.env);
    match settings.codex_home {
        Some(path) => assert(plan.env =~= own.push(("CODEX_HOME"@, path@))),
        None => assert(plan.env =~= own),
    }
}

/// Adds a text to a list of arguments.
fn push_arg(args: &mut Vec<String>, arg: &str)
    ensures
        texts(final(args)@) == texts(old(args)@).push(arg@),
{
    args.push(arg.to_owned());
    assert(texts(args@) =~= texts(old(args)@).push(arg@));
}

/// Adds a flag with its value to a list of arguments, where there is one.
fn push_flag(args: &mut Vec<String>, name: &str, value: &Option<String>)
    ensures
        texts(final(args)@) == texts(old(args)@) + flag(name@, *value),
{
    match value {
        Some(text) => {
            push_arg(args, name);
            push_arg(args, text.as_str());
            assert(texts(args@) =~= texts(old(args)@) + seq![name@, text@]);
        },
        None => {
            assert(texts(args@) =~= texts(old(args)@) + Seq::empty());
        },
    }
}

/// The tool that prints its answer.
pub struct ClaudeAdapter;

impl ClaudeAdapter {
    /// How the tool is started. It gets the schema itself.
    pub fn plan(
        settings: &AgentSettings,
        agent: &AgentConfig,
        workspace: &str,
        prompt: &str,
        schema: &str,
    ) -> (r: CommandPlan)
        ensures
            r@ == claude_plan(settings, agent, workspace@, prompt@, schema@),
    {
        let mut args: Vec<String> = Vec::new();
        assert(texts(args@) =~= Seq::empty());
        push_arg(&mut args, "-p");
        push_arg(&mut args, "--output-format");
        push_arg(&mut args, "json");
        push_arg(&mut args, "--permission-mode");
        push_arg(&mut args, settings.claude_permission_mode().as_str());
        push_arg(&mut args, "--json-schema");
        push_arg(&mut args, schema);
        push_arg(&mut args, "--add-dir=".to_owned().concat(workspace).as_str());
        push_arg(&mut args, prompt);
        push_flag(&mut args, "--model", &agent.model);
        let env = env_pairs(&agent.env);
        assert(pairs(env@) =~= env_entries(agent.env));
        CommandPlan {
            program: settings.binary(ConductorAgent::ClaudeCode),
            args,
            current_dir: Some(workspace.to_owned()),
            env,
        }
    }
}

/// The tool that writes its answer to a file.
pub struct CodexAdapter;

impl CodexAdapter {
    /// How the tool is started. It gets the path of the schema, and that of the
    /// file for its answer.
    pub fn plan(
        settings: &AgentSettings,
        agent: &AgentConfig,
        workspace: &str,
        prompt: &str,
        schema_path: &str,
        output_path: &str,
    ) -> (r: CommandPlan)
        ensures
            r@ == codex_plan(settings, agent, workspace@, prompt@, schema_path@, output_path@),
    {
        let mut args: Vec<String> = Vec::new();
        assert(texts(args@) =~= Seq::empty());
        push_arg(&mut args, "exec");
        push_arg(&mut args, "--ephemeral");
        push_arg(&mut args, "--skip-git-repo-check");
        push_arg(&mut args, "--sandbox");
        push_arg(&mut args, settings.codex_sandbox_mode().as_str());
        push_arg(&mut args, "--color");
        push_arg(&mut args, "never");
        push_arg(&mut args, "--cd");
        push_arg(&mut args, workspace);
        push_arg(&mut args, "--output-schema");
        push_arg(&mut args, schema_path);
        push_arg(&mut args, "--output-last-message");
        push_arg(&mut args, output_path);
        push_arg(&mut args, prompt);
        let ghost fixed = texts(args@);
        if settings.codex_full_auto_enabled() {
            push_arg(&mut args, "--full-auto");
            assert(texts(args@) =~= fixed + seq!["--full-auto"@]);
        } else {
            assert(texts(args@) =~= fixed + Seq::empty());
        }
        push_flag(&mut args, "--model", &agent.model);
        match &settings.codex_profile {
            Some(_) => push_flag(&mut args, "--profile", &settings.codex_profile),
            None => push_flag(&mut args, "--profile", &agent.profile),
        }
        let mut env = env_pairs(&agent.env);
        assert(pairs(env@) =~= env_entries(agent.env));
        let ghost own = env@;
        match &settings.codex_home {
            Some(path) => {
                env.push(("CODEX_HOME".to_owned(), path.clone()));
                assert(pairs(env@) =~= pairs(own) + seq![("CODEX_HOME"@, path@)]);
            },
            None => {
                assert(pairs(env@) =~= pairs(own) + Seq::empty());
            },
        }
        CommandPlan {
            program: settings.binary(ConductorAgent::OpenAiCodex),
            args,
            current_dir: None,
            env,
        }
    }
}

} // verus!
