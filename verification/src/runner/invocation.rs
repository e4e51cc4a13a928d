//! Putting a tool to work, from the prompt to the answer.
//!
//! A tool is handed a prompt and a JSON schema that its answer has to follow.
//! The schema goes through a file, which is removed in the end. An invocation is
//! a machine: it names what has to be done next, and goes on when it is told
//! what came of it.

use vstd::prelude::*;
use vstd::string::*;

use super::agent::{
    binary_of, claude_plan, codex_plan, AgentSettings, ClaudeAdapter, CodexAdapter, CommandPlan,
    PlanView,
};
use super::output::{
    check_tool, id_of, normalize_claude_output, result_member, step_id, tool_verdict, unwrapped,
};
use super::prompt::{build_review_prompt, build_step_prompt, review_prompt, step_prompt};
use super::types::{ExecutionContext, ProcessOutcome, ProcessView, StepAgentResult};
use crate::error::{outcome, WorkflowError, WorkflowErrorView};
use crate::json::{json_pretty, member_text, pretty_text};
use crate::names::{product_name, product_of, review_role, review_role_name};
use crate::paths::{join_path, path_from};
use crate::text::{decimal, decimal_of, optional, text_result, trim, trimmed, Trimmed};
use crate::workflow::maps::{agent_entries, agent_named, lookup};
use crate::workflow::model::{AgentConfig, ConductorAgent, ReviewGate, Step, Workflow};

verus! {

/// The schema of what an agent reports after a step.
pub const STEP_SCHEMA: &'static str =
    "{\"type\":\"object\",\"properties\":{\"status\":{\"type\":\"string\",\"enum\":[\"success\",\"failure\"]},\"summary\":{\"type\":\"string\"},\"current_state\":{\"type\":[\"string\",\"null\"]},\"open_questions\":{\"type\":\"array\",\"items\":{\"type\":\"string\"}},\"next_actions\":{\"type\":\"array\",\"items\":{\"type\":\"string\"}}},\"required\":[\"status\",\"summary\",\"current_state\",\"open_questions\",\"next_actions\"],\"additionalProperties\":false}";

/// The schema of what a reviewing agent decides.
pub const REVIEW_SCHEMA: &'static str =
    "{\"type\":\"object\",\"properties\":{\"approved\":{\"type\":\"boolean\"},\"summary\":{\"type\":\"string\"},\"blocking_issues\":{\"type\":\"array\",\"items\":{\"type\":\"string\"}}},\"required\":[\"approved\",\"summary\",\"blocking_issues\"],\"additionalProperties\":false}";

/// Where the files of an invocation go: a directory, and numbers that make their
/// names unique.
#[derive(Debug)]
pub struct Scratch {
    pub directory: String,
    pub schema_nonce: u128,
    pub output_nonce: u128,
}

/// A tool that is put to work.
pub struct Invocation<'a> {
    pub agent: &'a AgentConfig,
    pub settings: &'a AgentSettings,
    /// The id under which a failure is reported.
    pub step_id: String,
    pub workspace: String,
    pub prompt: String,
    /// The schema that the answer has to follow.
    pub schema: &'static str,
    pub schema_path: String,
    /// Where the answer is found, if it is written to a file.
    pub output_path: String,
}

/// What an invocation waits for.
#[derive(Debug)]
pub enum InvokePhase {
    WriteSchema,
    ReadSchema,
    RunTool,
    ReadOutput,
    RemoveOutput { result: Result<String, WorkflowError> },
    RemoveSchema { result: Result<String, WorkflowError> },
    Finished,
}

/// What has to be done for an invocation.
#[derive(Debug)]
pub enum InvokeAction {
    WriteFile { path: String, contents: String },
    ReadFile { path: String },
    RunTool(CommandPlan),
    /// Remove a file. Whether that succeeds does not matter.
    RemoveFile { path: String },
    /// Nothing: this is the answer of the tool.
    Finish(Result<String, WorkflowError>),
}

/// What came of an action.
#[derive(Debug)]
pub enum InvokeEvent {
    Written { failure: Option<String> },
    FileRead(Result<String, String>),
    ToolFinished(ProcessOutcome),
    Removed,
}

/// An [`InvokePhase`] with its texts as sequences of characters.
pub ghost enum InvokePhaseView {
    WriteSchema,
    ReadSchema,
    RunTool,
    ReadOutput,
    RemoveOutput { result: Result<Seq<char>, WorkflowErrorView> },
    RemoveSchema { result: Result<Seq<char>, WorkflowErrorView> },
    Finished,
}

/// An [`InvokeAction`] with its texts as sequences of characters.
#[verifier::ext_equal]
pub ghost enum InvokeActionView {
    WriteFile { path: Seq<char>, contents: Seq<char> },
    ReadFile { path: Seq<char> },
    RunTool(PlanView),
    RemoveFile { path: Seq<char> },
    Finish(Result<Seq<char>, WorkflowErrorView>),
}

/// An [`InvokeEvent`] with its texts as sequences of characters.
pub ghost enum InvokeEventView {
    Written { failure: Option<Seq<char>> },
    FileRead(Result<Seq<char>, Seq<char>>),
    ToolFinished(ProcessView),
    Removed,
}

impl View for InvokePhase {
    type V = InvokePhaseView;

    open spec fn view(&self) -> InvokePhaseView {
        match self {
            InvokePhase::WriteSchema => InvokePhaseView::WriteSchema,
            InvokePhase::ReadSchema => InvokePhaseView::ReadSchema,
            InvokePhase::RunTool => InvokePhaseView::RunTool,
            InvokePhase::ReadOutput => InvokePhaseView::ReadOutput,
            InvokePhase::RemoveOutput { result } => InvokePhaseView::RemoveOutput {
                result: outcome(*result),
            },
            InvokePhase::RemoveSchema { result } => InvokePhaseView::RemoveSchema {
                result: outcome(*result),
            },
            InvokePhase::Finished => InvokePhaseView::Finished,
        }
    }
}

impl View for InvokeAction {
    type V = InvokeActionView;

    open spec fn view(&self) -> InvokeActionView {
        match self {
            InvokeAction::WriteFile { path, contents } => InvokeActionView::WriteFile {
                path: path@,
                contents: contents@,
            },
            InvokeAction::ReadFile { path } => InvokeActionView::ReadFile { path: path@ },
            InvokeAction::RunTool(plan) => InvokeActionView::RunTool(plan@),
            InvokeAction::RemoveFile { path } => InvokeActionView::RemoveFile { path: path@ },
            InvokeAction::Finish(result) => InvokeActionView::Finish(outcome(*result)),
        }
    }
}

impl View for InvokeEvent {
    type V = InvokeEventView;

    open spec fn view(&self) -> InvokeEventView {
        match self {
            InvokeEvent::Written { failure } => InvokeEventView::Written {
                failure: optional(*failure),
            },
            InvokeEvent::FileRead(read) => InvokeEventView::FileRead(text_result(*read)),
            InvokeEvent::ToolFinished(process) => InvokeEventView::ToolFinished(process@),
            InvokeEvent::Removed => InvokeEventView::Removed,
        }
    }
}

/// A phase together with what has to be done in it.
pub open spec fn invocation_progress(r: (InvokePhase, InvokeAction)) -> (
    InvokePhaseView,
    InvokeActionView,
) {
    (r.0@, r.1@)
}

// ---------------------------------------------------------------------------
// Meaning
// ---------------------------------------------------------------------------

/// The name of a file that no other process uses.
pub open spec fn temp_name(prefix: Seq<char>, nonce: nat, extension: Seq<char>) -> Seq<char> {
    prefix + "-"@ + decimal_of(nonce) + "."@ + extension
}

/// Where the schema for an agent goes.
pub open spec fn schema_path_of(scratch: &Scratch, agent_name: Seq<char>) -> Seq<char> {
    path_from(
        scratch.directory@,
        temp_name(
            "conductor-"@ + agent_name + "-schema"@,
            scratch.schema_nonce as nat,
            "json"@,
        ),
    )
}

/// Where an answer goes that is written to a file.
pub open spec fn output_path_of(scratch: &Scratch) -> Seq<char> {
    path_from(
        scratch.directory@,
        temp_name("codex-output"@, scratch.output_nonce as nat, "json"@),
    )
}

/// What an invocation is made of.
pub open spec fn invokes(
    invocation: &Invocation,
    agent: AgentConfig,
    settings: AgentSettings,
    step_id: Seq<char>,
    workspace: Seq<char>,
    prompt: Seq<char>,
    schema: Seq<char>,
    schema_path: Seq<char>,
    output_path: Seq<char>,
) -> bool {
    &&& *invocation.agent == agent
    &&& *invocation.settings == settings
    &&& invocation.step_id@ == step_id
    &&& invocation.workspace@ == workspace
    &&& invocation.prompt@ == prompt
    &&& invocation.schema@ == schema
    &&& invocation.schema_path@ == schema_path
    &&& invocation.output_path@ == output_path
}

/// The beginning of an invocation, given the contents of the file for the
/// schema: they are written.
pub open spec fn invocation_started(
    invocation: &Invocation,
    contents: Result<Seq<char>, Seq<char>>,
) -> (InvokePhaseView, InvokeActionView) {
    match contents {
        Ok(contents) => (
            InvokePhaseView::WriteSchema,
            InvokeActionView::WriteFile { path: invocation.schema_path@, contents },
        ),
        Err(reason) => (
            InvokePhaseView::Finished,
            InvokeActionView::Finish(
                Err(WorkflowErrorView::Execution("failed to serialize schema: "@ + reason)),
            ),
        ),
    }
}

/// The end of an invocation, but for its schema.
pub open spec fn tidied(
    invocation: &Invocation,
    result: Result<Seq<char>, WorkflowErrorView>,
) -> (InvokePhaseView, InvokeActionView) {
    (
        InvokePhaseView::RemoveSchema { result },
        InvokeActionView::RemoveFile { path: invocation.schema_path@ },
    )
}

/// The answer in a file.
pub open spec fn answer_read(path: Seq<char>, read: Result<Seq<char>, Seq<char>>) -> Result<
    Seq<char>,
    WorkflowErrorView,
> {
    match read {
        Ok(body) => Ok(trimmed(body, Trimmed::WhiteSpace)),
        Err(reason) => Err(
            WorkflowErrorView::Execution(
                "failed to read "@ + product_of(ConductorAgent::OpenAiCodex) + " output file `"@
                    + path + "`: "@ + reason,
            ),
        ),
    }
}

/// The event tells what came of what the phase waits for.
pub open spec fn invocation_fits(phase: InvokePhaseView, event: InvokeEventView) -> bool {
    match phase {
        InvokePhaseView::WriteSchema => event is Written,
        InvokePhaseView::ReadSchema => event is FileRead,
        InvokePhaseView::RunTool => event is ToolFinished,
        InvokePhaseView::ReadOutput => event is FileRead,
        InvokePhaseView::RemoveOutput { .. } => event is Removed,
        InvokePhaseView::RemoveSchema { .. } => event is Removed,
        InvokePhaseView::Finished => false,
    }
}

/// The invocation after an event.
pub open spec fn invocation_resumed(
    invocation: &Invocation,
    phase: InvokePhaseView,
    event: InvokeEventView,
) -> (InvokePhaseView, InvokeActionView) {
    let tool = invocation.agent.provider;
    let schema_path = invocation.schema_path@;
    match (phase, event) {
        (InvokePhaseView::WriteSchema, InvokeEventView::Written { failure: Some(reason) }) => (
            InvokePhaseView::Finished,
            InvokeActionView::Finish(
                Err(
                    WorkflowErrorView::Execution(
                        "failed to write schema file `"@ + schema_path + "`: "@ + reason,
                    ),
                ),
            ),
        ),
        (InvokePhaseView::WriteSchema, InvokeEventView::Written { failure: None }) => match tool {
            ConductorAgent::ClaudeCode => (
                InvokePhaseView::ReadSchema,
                InvokeActionView::ReadFile { path: schema_path },
            ),
            ConductorAgent::OpenAiCodex => (
                InvokePhaseView::RunTool,
                InvokeActionView::RunTool(
                    codex_plan(
                        invocation.settings,
                        invocation.agent,
                        invocation.workspace@,
                        invocation.prompt@,
                        schema_path,
                        invocation.output_path@,
                    ),
                ),
            ),
        },
        (InvokePhaseView::ReadSchema, InvokeEventView::FileRead(Ok(schema))) => (
            InvokePhaseView::RunTool,
            InvokeActionView::RunTool(
                claude_plan(
                    invocation.settings,
                    invocation.agent,
                    invocation.workspace@,
                    invocation.prompt@,
                    schema,
                ),
            ),
        ),
        (InvokePhaseView::ReadSchema, InvokeEventView::FileRead(Err(reason))) => tidied(
            invocation,
            Err(
                WorkflowErrorView::Execution(
                    "failed to read generated schema `"@ + schema_path + "`: "@ + reason,
                ),
            ),
        ),
        (InvokePhaseView::RunTool, InvokeEventView::ToolFinished(process)) => match tool_verdict(
            tool,
            binary_of(invocation.settings, tool),
            invocation.step_id@,
            process,
        ) {
            Err(error) => tidied(invocation, Err(error)),
            Ok(stdout) => match tool {
                ConductorAgent::ClaudeCode => tidied(
                    invocation,
                    unwrapped(
                        stdout,
                        invocation.step_id@,
                        member_text(stdout, "structured_output"@),
                        result_member(stdout),
                    ),
                ),
                ConductorAgent::OpenAiCodex => (
                    InvokePhaseView::ReadOutput,
                    InvokeActionView::ReadFile { path: invocation.output_path@ },
                ),
            },
        },
        (InvokePhaseView::ReadOutput, InvokeEventView::FileRead(read)) => (
            InvokePhaseView::RemoveOutput { result: answer_read(invocation.output_path@, read) },
            InvokeActionView::RemoveFile { path: invocation.output_path@ },
        ),
        (InvokePhaseView::RemoveOutput { result }, InvokeEventView::Removed) => tidied(
            invocation,
            result,
        ),
        (InvokePhaseView::RemoveSchema { result }, InvokeEventView::Removed) => (
            InvokePhaseView::Finished,
            InvokeActionView::Finish(result),
        ),
        _ => arbitrary(),
    }
}

// ---------------------------------------------------------------------------
// Laws
// ---------------------------------------------------------------------------

/// The file with the schema does not stay behind: once it has been written, an
/// invocation ends only after its removal has been asked for.
pub proof fn law_schema_file_is_removed(
    invocation: &Invocation,
    phase: InvokePhaseView,
    event: InvokeEventView,
)
    requires
        invocation_fits(phase, event),
        phase is WriteSchema ==> event == (InvokeEventView::Written { failure: None }),
    ensures
        invocation_resumed(invocation, phase, event).1 is Finish ==> phase is RemoveSchema,
        invocation_resumed(invocation, phase, event).0 is RemoveSchema
            ==> invocation_resumed(invocation, phase, event).1 == (InvokeActionView::RemoveFile {
            path: invocation.schema_path@,
        }),
        invocation_resumed(invocation, phase, event).0 !is WriteSchema,
{
}

/// How far a phase is from the end.
pub open spec fn invocation_rank(phase: InvokePhaseView) -> nat {
    match phase {
        InvokePhaseView::WriteSchema => 6,
        InvokePhaseView::ReadSchema => 5,
        InvokePhaseView::RunTool => 4,
        InvokePhaseView::ReadOutput => 3,
        InvokePhaseView::RemoveOutput { .. } => 2,
        InvokePhaseView::RemoveSchema { .. } => 1,
        InvokePhaseView::Finished => 0,
    }
}

/// Each event brings an invocation nearer to its end.
pub proof fn law_invocation_ends(
    invocation: &Invocation,
    phase: InvokePhaseView,
    event: InvokeEventView,
)
    requires
        invocation_fits(phase, event),
    ensures
        invocation_rank(invocation_resumed(invocation, phase, event).0) < invocation_rank(phase),
        invocation_resumed(invocation, phase, event).0 is Finished <==> invocation_resumed(
            invocation,
            phase,
            event,
        ).1 is Finish,
{
}

/// A tool is started at most once per invocation.
pub proof fn law_tool_is_started_once(
    invocation: &Invocation,
    phase: InvokePhaseView,
    event: InvokeEventView,
)
    requires
        invocation_fits(phase, event),
    ensures
        invocation_resumed(invocation, phase, event).1 is RunTool <==> invocation_resumed(
            invocation,
            phase,
            event,
        ).0 is RunTool,
        invocation_rank(phase) <= invocation_rank(InvokePhaseView::RunTool)
            ==> invocation_resumed(invocation, phase, event).1 !is RunTool,
{
}

/// An invocation is made of its agent, the settings, the id under which it fails, the
/// workspace, the prompt, the schema, and the places of its files; two that are made
/// of the same go on in the same way.
pub proof fn law_invocations_are_made_of_their_parts(
    one: &Invocation,
    other: &Invocation,
    phase: InvokePhaseView,
    event: InvokeEventView,
)
    requires
        invokes(
            one,
            *other.agent,
            *other.settings,
            other.step_id@,
            other.workspace@,
            other.prompt@,
            other.schema@,
            other.schema_path@,
            other.output_path@,
        ),
        invocation_fits(phase, event),
    ensures
        *one.agent == *other.agent,
        *one.settings == *other.settings,
        one.step_id@ == other.step_id@,
        one.workspace@ == other.workspace@,
        one.prompt@ == other.prompt@,
        one.schema@ == other.schema@,
        one.schema_path@ == other.schema_path@,
        one.output_path@ == other.output_path@,
        invocation_resumed(one, phase, event) == invocation_resumed(other, phase, event),
{
}

/// The files of an invocation are in the scratch directory. The name of the file
/// for the schema tells the agent, and those of both end with their numbers.
pub proof fn law_scratch_files(scratch: &Scratch, agent_name: Seq<char>)
    ensures
        schema_path_of(scratch, agent_name) == path_from(
            scratch.directory@,
            "conductor-"@ + agent_name + "-schema"@ + "-"@ + decimal_of(
                scratch.schema_nonce as nat,
            ) + "."@ + "json"@,
        ),
        output_path_of(scratch) == path_from(
            scratch.directory@,
            "codex-output"@ + "-"@ + decimal_of(scratch.output_nonce as nat) + "."@ + "json"@,
        ),
{
}

/// An invocation begins by writing the schema where it belongs, or fails where
/// there is nothing to write.
pub proof fn law_schema_is_written_first(
    invocation: &Invocation,
    contents: Result<Seq<char>, Seq<char>>,
)
    ensures
        contents matches Ok(text) ==> invocation_started(invocation, contents) == (
            InvokePhaseView::WriteSchema,
            InvokeActionView::WriteFile { path: invocation.schema_path@, contents: text },
        ),
        contents matches Err(reason) ==> invocation_started(invocation, contents) == (
            InvokePhaseView::Finished,
            InvokeActionView::Finish(
                Err(WorkflowErrorView::Execution("failed to serialize schema: "@ + reason)),
            ),
        ),
{
}

/// The tool of the agent is started with the prompt, in the workspace: the first
/// tool once the schema has been read back, which it gets itself, the second as
/// soon as the schema is written, of which it gets the path. A schema that cannot
/// be written ends the invocation.
pub proof fn law_the_right_tool_is_started(
    invocation: &Invocation,
    failure: Option<Seq<char>>,
    read: Result<Seq<char>, Seq<char>>,
)
    ensures
        ({
            let path = invocation.schema_path@;
            let written = invocation_resumed(
                invocation,
                InvokePhaseView::WriteSchema,
                InvokeEventView::Written { failure },
            );
            let known = invocation_resumed(
                invocation,
                InvokePhaseView::ReadSchema,
                InvokeEventView::FileRead(read),
            );
            &&& failure matches Some(reason) ==> written == (
                InvokePhaseView::Finished,
                InvokeActionView::Finish(
                    Err(
                        WorkflowErrorView::Execution(
                            "failed to write schema file `"@ + path + "`: "@ + reason,
                        ),
                    ),
                ),
            )
            &&& failure is None && invocation.agent.provider == ConductorAgent::ClaudeCode
                ==> written == (
                InvokePhaseView::ReadSchema,
                InvokeActionView::ReadFile { path },
            )
            &&& failure is None && invocation.agent.provider == ConductorAgent::OpenAiCodex
                ==> written == (
                InvokePhaseView::RunTool,
                InvokeActionView::RunTool(
                    codex_plan(
                        invocation.settings,
                        invocation.agent,
                        invocation.workspace@,
                        invocation.prompt@,
                        path,
                        invocation.output_path@,
                    ),
                ),
            )
            &&& read matches Ok(schema) ==> known == (
                InvokePhaseView::RunTool,
                InvokeActionView::RunTool(
                    claude_plan(
                        invocation.settings,
                        invocation.agent,
                        invocation.workspace@,
                        invocation.prompt@,
                        schema,
                    ),
                ),
            )
            &&& read matches Err(reason) ==> known == (
                InvokePhaseView::RemoveSchema {
                    result: Err(
                        WorkflowErrorView::Execution(
                            "failed to read generated schema `"@ + path + "`: "@ + reason,
                        ),
                    ),
                },
                InvokeActionView::RemoveFile { path },
            )
        }),
{
}

/// The answer of a tool is what it printed, out of its envelope, for the first, and
/// what it left in its file, without the white space around it, for the second; a
/// tool that failed has no answer. Both files are removed, and the answer comes out
/// as it is.
pub proof fn law_the_answer_comes_out(
    invocation: &Invocation,
    process: ProcessView,
    read: Result<Seq<char>, Seq<char>>,
    result: Result<Seq<char>, WorkflowErrorView>,
)
    ensures
        ({
            let tool = invocation.agent.provider;
            let schema = InvokeActionView::RemoveFile { path: invocation.schema_path@ };
            let ended = invocation_resumed(
                invocation,
                InvokePhaseView::RunTool,
                InvokeEventView::ToolFinished(process),
            );
            let verdict = tool_verdict(
                tool,
                binary_of(invocation.settings, tool),
                invocation.step_id@,
                process,
            );
            &&& verdict matches Err(error) ==> ended == (
                InvokePhaseView::RemoveSchema { result: Err(error) },
                schema,
            )
            &&& verdict is Ok && tool == ConductorAgent::ClaudeCode ==> ended == (
                InvokePhaseView::RemoveSchema {
                    result: unwrapped(
                        verdict->Ok_0,
                        invocation.step_id@,
                        member_text(verdict->Ok_0, "structured_output"@),
                        result_member(verdict->Ok_0),
                    ),
                },
                schema,
            )
            &&& verdict is Ok && tool == ConductorAgent::OpenAiCodex ==> ended == (
                InvokePhaseView::ReadOutput,
                InvokeActionView::ReadFile { path: invocation.output_path@ },
            )
            &&& invocation_resumed(
                invocation,
                InvokePhaseView::ReadOutput,
                InvokeEventView::FileRead(read),
            ) == (
                InvokePhaseView::RemoveOutput {
                    result: match read {
                        Ok(body) => Ok(trimmed(body, Trimmed::WhiteSpace)),
                        Err(reason) => Err(
                            WorkflowErrorView::Execution(
                                "failed to read "@ + product_of(ConductorAgent::OpenAiCodex)
                                    + " output file `"@ + invocation.output_path@ + "`: "@
                                    + reason,
                            ),
                        ),
                    },
                },
                InvokeActionView::RemoveFile { path: invocation.output_path@ },
            )
            &&& invocation_resumed(
                invocation,
                InvokePhaseView::RemoveOutput { result },
                InvokeEventView::Removed,
            ) == (InvokePhaseView::RemoveSchema { result }, schema)
            &&& invocation_resumed(
                invocation,
                InvokePhaseView::RemoveSchema { result },
                InvokeEventView::Removed,
            ) == (InvokePhaseView::Finished, InvokeActionView::Finish(result))
        }),
{
}

// ---------------------------------------------------------------------------
// Operations
// ---------------------------------------------------------------------------

/// The name of a file that no other process uses.
fn temp_file_name(prefix: &str, nonce: u128, extension: &str) -> (r: String)
    ensures
        r@ == temp_name(prefix@, nonce as nat, extension@),
{
    prefix.to_owned().concat("-").concat(decimal(nonce).as_str()).concat(".").concat(extension)
}

impl Scratch {
    /// Where the schema for an agent goes.
    pub fn schema_path(&self, agent_name: &str) -> (r: String)
        ensures
            r@ == schema_path_of(self, agent_name@),
    {
        let prefix = "conductor-".to_owned().concat(agent_name).concat("-schema");
        join_path(
            self.directory.as_str(),
            temp_file_name(prefix.as_str(), self.schema_nonce, "json").as_str(),
        )
    }

    /// Where an answer goes that is written to a file.
    pub fn output_path(&self) -> (r: String)
        ensures
            r@ == output_path_of(self),
    {
        join_path(
            self.directory.as_str(),
            temp_file_name("codex-output", self.output_nonce, "json").as_str(),
        )
    }
}

/// Puts the tools to work for agents.
#[derive(Debug, Default, Clone, Copy)]
pub struct SubprocessAgentExecutor;

impl SubprocessAgentExecutor {
    /// The invocation by which the agent of a step takes it.
    pub fn run_step<'a>(
        &self,
        workflow: &'a Workflow,
        step: &Step,
        context: &ExecutionContext,
        settings: &'a AgentSettings,
        scratch: &Scratch,
    ) -> (r: Result<Invocation<'a>, WorkflowError>)
        ensures
            match lookup(agent_entries(workflow.agents), step.agent@) {
                None => r matches Err(error) && error@ == WorkflowErrorView::Execution(
                    "unknown agent `"@ + step.agent@ + "`"@,
                ),
                Some(agent) => r matches Ok(invocation) && invokes(
                    &invocation,
                    agent,
                    *settings,
                    id_of(Some(step)),
                    context.workspace_root@,
                    step_prompt(workflow, step, context@),
                    STEP_SCHEMA@,
                    schema_path_of(scratch, step.agent@),
                    output_path_of(scratch),
                ),
            },
    {
        match agent_named(&workflow.agents, step.agent.as_str()) {
            None => Err(
                WorkflowError::Execution(
                    "unknown agent `".to_owned().concat(step.agent.as_str()).concat("`"),
                ),
            ),
            Some(agent) => Ok(
                Invocation {
                    agent,
                    settings,
                    step_id: step_id(Some(step)).to_owned(),
                    workspace: context.workspace_root.clone(),
                    prompt: build_step_prompt(workflow, step, context),
                    schema: STEP_SCHEMA,
                    schema_path: scratch.schema_path(step.agent.as_str()),
                    output_path: scratch.output_path(),
                },
            ),
        }
    }

    /// The invocation by which an agent reviews a step.
    pub fn run_review<'a>(
        &self,
        workflow: &'a Workflow,
        gate: &ReviewGate,
        step: &Step,
        reviewer_agent: &str,
        context: &ExecutionContext,
        step_result: &StepAgentResult,
        settings: &'a AgentSettings,
        scratch: &Scratch,
    ) -> (r: Result<Invocation<'a>, WorkflowError>)
        ensures
            match lookup(agent_entries(workflow.agents), reviewer_agent@) {
                None => r matches Err(error) && error@ == WorkflowErrorView::Execution(
                    "unknown "@ + review_role() + " agent `"@ + reviewer_agent@ + "`"@,
                ),
                Some(agent) => r matches Ok(invocation) && invokes(
                    &invocation,
                    agent,
                    *settings,
                    id_of(None),
                    context.workspace_root@,
                    review_prompt(gate, step, reviewer_agent@, context@, step_result@),
                    REVIEW_SCHEMA@,
                    schema_path_of(scratch, reviewer_agent@),
                    output_path_of(scratch),
                ),
            },
    {
        match agent_named(&workflow.agents, reviewer_agent) {
            None => Err(
                WorkflowError::Execution(
                    "unknown ".to_owned().concat(review_role_name().as_str()).concat(
                        " agent `",
                    ).concat(reviewer_agent).concat("`"),
                ),
            ),
            Some(agent) => Ok(
                Invocation {
                    agent,
                    settings,
                    step_id: step_id(None).to_owned(),
                    workspace: context.workspace_root.clone(),
                    prompt: build_review_prompt(gate, step, reviewer_agent, context, step_result),
                    schema: REVIEW_SCHEMA,
                    schema_path: scratch.schema_path(reviewer_agent),
                    output_path: scratch.output_path(),
                },
            ),
        }
    }
}

impl<'a> Invocation<'a> {
    /// Begins the invocation. The file for the schema holds it in lines.
    pub fn start(&self) -> (r: (InvokePhase, InvokeAction))
        ensures
            invocation_progress(r) == invocation_started(self, pretty_text(self.schema@)),
    {
        self.write_schema(json_pretty(self.schema))
    }

    /// Begins the invocation, given the contents of the file for the schema.
    pub fn write_schema(&self, contents: Result<String, String>) -> (r: (
        InvokePhase,
        InvokeAction,
    ))
        ensures
            invocation_progress(r) == invocation_started(self, text_result(contents)),
    {
        match contents {
            Ok(contents) => (
                InvokePhase::WriteSchema,
                InvokeAction::WriteFile { path: self.schema_path.clone(), contents },
            ),
            Err(reason) => (
                InvokePhase::Finished,
                InvokeAction::Finish(
                    Err(
                        WorkflowError::Execution(
                            "failed to serialize schema: ".to_owned().concat(reason.as_str()),
                        ),
                    ),
                ),
            ),
        }
    }

    /// Goes on with the invocation, given what came of the last action.
    pub fn resume(&self, phase: InvokePhase, event: InvokeEvent) -> (r: (
        InvokePhase,
        InvokeAction,
    ))
        requires
            invocation_fits(phase@, event@),
        ensures
            invocation_progress(r) == invocation_resumed(self, phase@, event@),
    {
        match (phase, event) {
            (InvokePhase::WriteSchema, InvokeEvent::Written { failure: Some(reason) }) => (
                InvokePhase::Finished,
                InvokeAction::Finish(
                    Err(
                        WorkflowError::Execution(
                            "failed to write schema file `".to_owned().concat(
                                self.schema_path.as_str(),
                            ).concat("`: ").concat(reason.as_str()),
                        ),
                    ),
                ),
            ),
            (InvokePhase::WriteSchema, InvokeEvent::Written { failure: None }) => {
                match self.agent.provider {
                    ConductorAgent::ClaudeCode => (
                        InvokePhase::ReadSchema,
                        InvokeAction::ReadFile { path: self.schema_path.clone() },
                    ),
                    ConductorAgent::OpenAiCodex => (
                        InvokePhase::RunTool,
                        InvokeAction::RunTool(
                            CodexAdapter::plan(
                                self.settings,
                                self.agent,
                                self.workspace.as_str(),
                                self.prompt.as_str(),
                                self.schema_path.as_str(),
                                self.output_path.as_str(),
                            ),
                        ),
                    ),
                }
            },
            (InvokePhase::ReadSchema, InvokeEvent::FileRead(Ok(schema))) => (
                InvokePhase::RunTool,
                InvokeAction::RunTool(
                    ClaudeAdapter::plan(
                        self.settings,
                        self.agent,
                        self.workspace.as_str(),
                        self.prompt.as_str(),
                        schema.as_str(),
                    ),
                ),
            ),
            (InvokePhase::ReadSchema, InvokeEvent::FileRead(Err(reason))) => self.tidy(
                Err(
                    WorkflowError::Execution(
                        "failed to read generated schema `".to_owned().concat(
                            self.schema_path.as_str(),
                        ).concat("`: ").concat(reason.as_str()),
                    ),
                ),
            ),
            (InvokePhase::RunTool, InvokeEvent::ToolFinished(process)) => {
                let tool = self.agent.provider;
                match check_tool(
                    tool,
                    self.settings.binary(tool).as_str(),
                    self.step_id.as_str(),
                    process,
                ) {
                    Err(error) => self.tidy(Err(error)),
                    Ok(stdout) => match tool {
                        ConductorAgent::ClaudeCode => self.tidy(
                            normalize_claude_output(stdout.as_str(), self.step_id.as_str()),
                        ),
                        ConductorAgent::OpenAiCodex => (
                            InvokePhase::ReadOutput,
                            InvokeAction::ReadFile { path: self.output_path.clone() },
                        ),
                    },
                }
            },
            (InvokePhase::ReadOutput, InvokeEvent::FileRead(read)) => (
                InvokePhase::RemoveOutput { result: self.answer(read) },
                InvokeAction::RemoveFile { path: self.output_path.clone() },
            ),
            (InvokePhase::RemoveOutput { result }, InvokeEvent::Removed) => self.tidy(result),
            (InvokePhase::RemoveSchema { result }, InvokeEvent::Removed) => {
                let finished = InvokeAction::Finish(result);
                (InvokePhase::Finished, finished)
            },
            _ => vstd::pervasive::unreached(),
        }
    }

    fn tidy(&self, result: Result<String, WorkflowError>) -> (r: (InvokePhase, InvokeAction))
        ensures
            invocation_progress(r) == tidied(self, outcome(result)),
    {
        (
            InvokePhase::RemoveSchema { result },
            InvokeAction::RemoveFile { path: self.schema_path.clone() },
        )
    }

    fn answer(&self, read: Result<String, String>) -> (r: Result<String, WorkflowError>)
        ensures
            outcome(r) == answer_read(self.output_path@, text_result(read)),
    {
        match read {
            Ok(body) => Ok(trim(body.as_str())),
            Err(reason) => Err(
                WorkflowError::Execution(
                    "failed to read ".to_owned().concat(
                        product_name(ConductorAgent::OpenAiCodex).as_str(),
                    ).concat(" output file `").concat(self.output_path.as_str()).concat(
                        "`: ",
                    ).concat(reason.as_str()),
                ),
            ),
        }
    }
}

} // verus!
