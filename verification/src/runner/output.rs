//! Making sense of what the tools of agents leave behind.

use vstd::prelude::*;
use vstd::string::*;

use super::types::{
    AgentResultView, DecisionView, ProcessOutcome, ProcessView, ReviewDecision, StepAgentResult,
};
use crate::error::{outcome, WorkflowError, WorkflowErrorView};
use crate::json::{json_member, json_string, member_text, optional_result, string_value};
use crate::names::{product_name, product_of};
use crate::text::{
    characters, find, find_last_end, first_position, holds, last_position, lemma_first_position,
    lemma_first_position_unique, lemma_last_position, optional, text_between, text_result, trim,
    trimmed, Trimmed,
};
use crate::workflow::model::{ConductorAgent, Step};

verus! {

// ---------------------------------------------------------------------------
// Meaning
// ---------------------------------------------------------------------------

/// The id under which a failure is reported; reviews have no step of their own.
pub open spec fn id_of(step: Option<&Step>) -> Seq<char> {
    match step {
        Some(step) => step.id@,
        None => "review"@,
    }
}

/// The failure of a step.
pub open spec fn failed(step_id: Seq<char>, message: Seq<char>) -> WorkflowErrorView {
    WorkflowErrorView::StepFailed { step_id, message }
}

/// The first opening brace comes no later than just behind the last closing
/// one, where both occur.
pub open spec fn braces_in_order(output: Seq<char>) -> bool {
    let start = first_position(output, '{');
    let end = last_position(output, '}');
    start < output.len() && end >= 0 ==> start <= end + 1
}

/// The text from the first opening brace to the last closing one.
pub open spec fn embedded(output: Seq<char>) -> Result<Seq<char>, Seq<char>> {
    let start = first_position(output, '{');
    let end = last_position(output, '}');
    if start == output.len() {
        Err("missing opening brace"@)
    } else if end < 0 {
        Err("missing closing brace"@)
    } else {
        Ok(output.subrange(start, end + 1))
    }
}

/// What is wrong with a reply that holds no report.
pub open spec fn bad_report(reason: Seq<char>, output: Seq<char>) -> Seq<char> {
    "agent returned invalid JSON: "@ + reason + ". raw output: "@ + output
}

/// What is wrong with a reply that holds no decision.
pub open spec fn bad_decision(gate_id: Seq<char>, reason: Seq<char>, output: Seq<char>) -> Seq<
    char,
> {
    "review gate `"@ + gate_id + "` returned invalid JSON: "@ + reason + ". raw output: "@ + output
}

/// The text of a reply that is to be read: first the reply as it is, and where
/// that cannot be read the text between its braces.
pub open spec fn text_to_read(output: Seq<char>, unreadable: bool) -> Result<
    Seq<char>,
    Seq<char>,
> {
    if unreadable {
        embedded(output)
    } else {
        Ok(output)
    }
}

/// What a tool's reply holds, by two readings: that of the reply as it is, or
/// else that of the text between its braces, where there is such a text.
pub open spec fn either<T>(
    output: Seq<char>,
    direct: Result<T, Seq<char>>,
    within_braces: Result<T, Seq<char>>,
) -> Result<T, Seq<char>> {
    match direct {
        Ok(value) => Ok(value),
        Err(_) => match text_to_read(output, true) {
            Ok(_) => within_braces,
            Err(reason) => Err(reason),
        },
    }
}

/// A reading with its texts as sequences of characters.
pub open spec fn reading<T: View>(r: Result<T, String>) -> Result<T::V, Seq<char>> {
    match r {
        Ok(value) => Ok(value@),
        Err(reason) => Err(reason@),
    }
}

/// What is wrong with a reply that is not in an envelope.
pub open spec fn bad_envelope(reason: Seq<char>, output: Seq<char>) -> Seq<char> {
    product_of(ConductorAgent::ClaudeCode) + " returned invalid JSON envelope: "@ + reason
        + ". raw output: "@ + output
}

/// The reply in an envelope: its structured output as JSON, or else its result
/// where that is a string, or else the whole of it.
pub open spec fn unwrapped(
    output: Seq<char>,
    step_id: Seq<char>,
    structured: Result<Option<Seq<char>>, Seq<char>>,
    result: Option<Seq<char>>,
) -> Result<Seq<char>, WorkflowErrorView> {
    match structured {
        Err(reason) => Err(failed(step_id, bad_envelope(reason, output))),
        Ok(Some(json)) => Ok(json),
        Ok(None) => match result {
            Some(text) => Ok(text),
            None => Ok(trimmed(output, Trimmed::WhiteSpace)),
        },
    }
}

/// The string that a document has under the key `result`.
pub open spec fn result_member(document: Seq<char>) -> Option<Seq<char>> {
    match member_text(document, "result"@) {
        Ok(Some(member)) => string_value(member),
        _ => None,
    }
}

/// How a process ended that failed.
pub open spec fn exit_message(
    product: Seq<char>,
    status: Seq<char>,
    stdout: Seq<char>,
    stderr: Seq<char>,
) -> Seq<char> {
    product + " CLI exited with status "@ + status + ".\nstdout:\n"@ + trimmed(
        stdout,
        Trimmed::WhiteSpace,
    ) + "\nstderr:\n"@ + trimmed(stderr, Trimmed::WhiteSpace)
}

/// Why `codex` failed: two common reasons are recognised.
pub open spec fn codex_failure(status: Seq<char>, stdout: Seq<char>, stderr: Seq<char>) -> Seq<
    char,
> {
    let combined = stdout + "\n"@ + stderr;
    if crate::text::contains(combined, "401 Unauthorized"@) {
        "Codex CLI authentication failed (401 Unauthorized). Run `codex login`, provide `OPENAI_API_KEY`, or verify the active Codex profile before using `conductor run --live`."@
    } else if crate::text::contains(combined, "Read-only file system"@) && crate::text::contains(
        combined,
        "session"@,
    ) {
        "Codex CLI could not initialize its local session store. Set `CONDUCTOR_CODEX_HOME` to a writable directory or run with a writable Codex home."@
    } else {
        exit_message(product_of(ConductorAgent::OpenAiCodex), status, stdout, stderr)
    }
}

/// What the end of a tool means for the step. `binary` is the command that was
/// started.
pub open spec fn tool_verdict(
    tool: ConductorAgent,
    binary: Seq<char>,
    step_id: Seq<char>,
    process: ProcessView,
) -> Result<Seq<char>, WorkflowErrorView> {
    match process {
        ProcessView::NotStarted(reason) => Err(
            failed(
                step_id,
                "failed to start "@ + product_of(tool) + " CLI `"@ + binary + "`: "@ + reason,
            ),
        ),
        ProcessView::Exited { success, status, stdout, stderr } => if success {
            Ok(stdout)
        } else {
            match tool {
                ConductorAgent::ClaudeCode => Err(
                    failed(step_id, exit_message(product_of(tool), status, stdout, stderr)),
                ),
                ConductorAgent::OpenAiCodex => Err(
                    failed(step_id, codex_failure(status, stdout, stderr)),
                ),
            }
        },
    }
}

// ---------------------------------------------------------------------------
// Laws
// ---------------------------------------------------------------------------

/// An object is found within prose, if no brace before it opens and none after
/// it closes.
pub proof fn law_object_is_found_in_prose(before: Seq<char>, object: Seq<char>, after: Seq<char>)
    requires
        !before.contains('{'),
        !after.contains('}'),
        object.len() > 0,
        object[0] == '{',
        object.last() == '}',
    ensures
        braces_in_order(before + object + after),
        embedded(before + object + after) == Ok::<Seq<char>, Seq<char>>(object),
{
    let output = before + object + after;
    let start: int = before.len() as int;
    let end: int = before.len() + object.len() - 1;
    assert(output[start] == '{');
    assert(output[end] == '}');
    assert forall|i: int| 0 <= i < start implies output[i] != '{' by {
        assert(output[i] == before[i]);
    }
    lemma_first_position_unique(output, '{', start);
    lemma_last_position(output, '}');
    assert forall|i: int| end < i < output.len() implies output[i] != '}' by {
        assert(output[i] == after[i - end - 1]);
    }
    assert(output.subrange(start, end + 1) =~= object);
}

/// An object is missing where no brace opens one, and where none closes it.
pub proof fn law_missing_braces(output: Seq<char>)
    ensures
        !output.contains('{') ==> embedded(output) == Err::<Seq<char>, Seq<char>>(
            "missing opening brace"@,
        ),
        output.contains('{') && !output.contains('}') ==> embedded(output) == Err::<
            Seq<char>,
            Seq<char>,
        >("missing closing brace"@),
        output.contains('{') && output.contains('}') ==> embedded(output) is Ok,
        !output.contains('{') || !output.contains('}') ==> braces_in_order(output),
{
    lemma_first_position(output, '{');
    lemma_last_position(output, '}');
    let start = first_position(output, '{');
    if start < output.len() {
        assert(output.contains(output[start]));
    }
    let end = last_position(output, '}');
    if end >= 0 {
        assert(output.contains(output[end]));
    }
}

/// Between the braces of an output there is an object only where the first that
/// opens comes before the last that closes; where it comes right after, there is
/// nothing between them.
pub proof fn law_braces_the_wrong_way_round(before: Seq<char>, after: Seq<char>)
    requires
        !before.contains('{'),
        !after.contains('}'),
    ensures
        braces_in_order(before + seq!['}', '{'] + after),
        embedded(before + seq!['}', '{'] + after) == Ok::<Seq<char>, Seq<char>>(Seq::empty()),
{
    let output = before + seq!['}', '{'] + after;
    let n = before.len() as int;
    assert(output[n] == '}' && output[n + 1] == '{');
    assert forall|i: int| 0 <= i < n + 1 implies output[i] != '{' by {
        if i < n {
            assert(output[i] == before[i]);
        }
    }
    lemma_first_position_unique(output, '{', n + 1);
    lemma_last_position(output, '}');
    assert forall|i: int| n < i < output.len() implies output[i] != '}' by {
        if i > n + 1 {
            assert(output[i] == after[i - n - 2]);
        }
    }
    assert(output.subrange(n + 1, n + 1) =~= Seq::<char>::empty());
}

/// The braces of an output are in order unless the first that opens comes two or
/// more places behind the last that closes.
pub proof fn law_when_braces_are_in_order(output: Seq<char>, opens: int, closes: int)
    requires
        0 <= opens < output.len() && output[opens] == '{',
        forall|i: int| 0 <= i < opens ==> output[i] != '{',
        0 <= closes < output.len() && output[closes] == '}',
        forall|i: int| closes < i < output.len() ==> output[i] != '}',
    ensures
        braces_in_order(output) <==> opens <= closes + 1,
        opens <= closes ==> embedded(output) == Ok::<Seq<char>, Seq<char>>(
            output.subrange(opens, closes + 1),
        ),
{
    lemma_first_position_unique(output, '{', opens);
    lemma_last_position(output, '}');
    let end = last_position(output, '}');
    if end < closes {
        assert(output[closes] != '}');
    }
    if closes < end {
        assert(output[end] != '}');
    }
}

/// A reply counts as it is where it can be read, whatever stands between its
/// braces; otherwise what stands between its braces counts, and where there is no
/// such text its want is the reason.
pub proof fn law_replies_are_read_as_they_are_first<T>(
    output: Seq<char>,
    value: T,
    reason: Seq<char>,
    within_braces: Result<T, Seq<char>>,
)
    ensures
        either(output, Ok(value), within_braces) == Ok::<T, Seq<char>>(value),
        embedded(output) is Ok ==> either(output, Err(reason), within_braces) == within_braces,
        embedded(output) matches Err(why) ==> either(output, Err(reason), within_braces) == Err::<
            T,
            Seq<char>,
        >(why),
        text_to_read(output, false) == Ok::<Seq<char>, Seq<char>>(output),
        text_to_read(output, true) == embedded(output),
{
}

/// The failure of a reply that cannot be read says why, and repeats the reply.
pub proof fn law_unreadable_replies_are_shown(
    gate_id: Seq<char>,
    reason: Seq<char>,
    output: Seq<char>,
)
    ensures
        bad_report(reason, output) == "agent returned invalid JSON: "@ + reason
            + ". raw output: "@ + output,
        bad_decision(gate_id, reason, output) == "review gate `"@ + gate_id
            + "` returned invalid JSON: "@ + reason + ". raw output: "@ + output,
        bad_envelope(reason, output) == product_of(ConductorAgent::ClaudeCode)
            + " returned invalid JSON envelope: "@ + reason + ". raw output: "@ + output,
{
}

/// Of an envelope, the structured output counts first, then a result that is text,
/// then the envelope itself without the white space around it. What is no envelope
/// fails the step.
pub proof fn law_envelopes(
    output: Seq<char>,
    step_id: Seq<char>,
    structured: Result<Option<Seq<char>>, Seq<char>>,
    result: Option<Seq<char>>,
)
    ensures
        ({
            let reply = unwrapped(output, step_id, structured, result);
            &&& structured matches Ok(Some(json)) ==> reply == Ok::<Seq<char>, WorkflowErrorView>(
                json,
            )
            &&& structured == Ok::<Option<Seq<char>>, Seq<char>>(None) && result is Some ==> reply
                == Ok::<Seq<char>, WorkflowErrorView>(result->0)
            &&& structured == Ok::<Option<Seq<char>>, Seq<char>>(None) && result is None ==> reply
                == Ok::<Seq<char>, WorkflowErrorView>(trimmed(output, Trimmed::WhiteSpace))
            &&& structured matches Err(reason) ==> reply == Err::<Seq<char>, WorkflowErrorView>(
                WorkflowErrorView::StepFailed { step_id, message: bad_envelope(reason, output) },
            )
        }),
{
}

/// The result of an envelope is the member of that name, where it is a string.
pub proof fn law_result_of_an_envelope(document: Seq<char>)
    ensures
        member_text(document, "result"@) matches Ok(Some(member)) ==> result_member(document)
            == string_value(member),
        !(member_text(document, "result"@) matches Ok(Some(_))) ==> result_member(document) is None,
{
}

/// A tool that succeeds is taken by its word: what it printed. One that could not be
/// started, or failed, fails the step, and the failure tells the tool, the command
/// or the status, and what was printed.
pub proof fn law_tools_that_fail(
    tool: ConductorAgent,
    binary: Seq<char>,
    step_id: Seq<char>,
    reason: Seq<char>,
    status: Seq<char>,
    stdout: Seq<char>,
    stderr: Seq<char>,
)
    ensures
        ({
            let verdict = |process: ProcessView| tool_verdict(tool, binary, step_id, process);
            let printed = ".\nstdout:\n"@ + trimmed(stdout, Trimmed::WhiteSpace)
                + "\nstderr:\n"@ + trimmed(stderr, Trimmed::WhiteSpace);
            let both = stdout + "\n"@ + stderr;
            let unauthorized = crate::text::contains(both, "401 Unauthorized"@);
            let sealed = crate::text::contains(both, "Read-only file system"@)
                && crate::text::contains(both, "session"@);
            let second = tool == ConductorAgent::OpenAiCodex;
            let failed_with = |message: Seq<char>|
                Err::<Seq<char>, WorkflowErrorView>(
                    WorkflowErrorView::StepFailed { step_id, message },
                );
            let failure = verdict(ProcessView::Exited { success: false, status, stdout, stderr });
            &&& verdict(ProcessView::Exited { success: true, status, stdout, stderr }) == Ok::<
                Seq<char>,
                WorkflowErrorView,
            >(stdout)
            &&& verdict(ProcessView::NotStarted(reason)) == failed_with(
                "failed to start "@ + product_of(tool) + " CLI `"@ + binary + "`: "@ + reason,
            )
            &&& !second || !unauthorized && !sealed ==> failure == failed_with(
                product_of(tool) + " CLI exited with status "@ + status + printed,
            )
            &&& second && unauthorized ==> failure == failed_with(
                "Codex CLI authentication failed (401 Unauthorized). Run `codex login`, provide `OPENAI_API_KEY`, or verify the active Codex profile before using `conductor run --live`."@,
            )
            &&& second && !unauthorized && sealed ==> failure == failed_with(
                "Codex CLI could not initialize its local session store. Set `CONDUCTOR_CODEX_HOME` to a writable directory or run with a writable Codex home."@,
            )
        }),
{
    let printed = ".\nstdout:\n"@ + trimmed(stdout, Trimmed::WhiteSpace) + "\nstderr:\n"@
        + trimmed(stderr, Trimmed::WhiteSpace);
    assert(exit_message(product_of(tool), status, stdout, stderr) =~= product_of(tool)
        + " CLI exited with status "@ + status + printed);
}

/// A failure is reported under the id of its step, and under `review` where there is
/// none.
pub proof fn law_failures_are_reported_under_the_step(step: &Step)
    ensures
        id_of(Some(step)) == step.id@,
        id_of(None) == "review"@,
{
}

// ---------------------------------------------------------------------------
// Operations
// ---------------------------------------------------------------------------

/// The id under which a failure is reported; reviews have no step of their own.
pub fn step_id<'a>(step: Option<&'a Step>) -> (r: &'a str)
    ensures
        r@ == id_of(step),
{
    match step {
        Some(step) => step.id.as_str(),
        None => "review",
    }
}

/// Whether the first opening brace comes no later than just behind the last
/// closing one, where both occur.
pub fn has_braces_in_order(output: &str) -> (r: bool)
    ensures
        r == braces_in_order(output@),
{
    let chars = characters(output);
    let start = find(&chars, '{');
    let after = find_last_end(&chars, '}');
    start >= chars.len() || after == 0 || start <= after
}

/// The text from the first opening brace to the last closing one.
pub fn extract_embedded_json(output: &str) -> (r: Result<String, String>)
    requires
        braces_in_order(output@),
    ensures
        text_result(r) == embedded(output@),
{
    let chars = characters(output);
    let start = find(&chars, '{');
    let after = find_last_end(&chars, '}');
    proof {
        lemma_first_position(chars@, '{');
        lemma_last_position(chars@, '}');
    }
    if start == chars.len() {
        Err("missing opening brace".to_owned())
    } else if after == 0 {
        Err("missing closing brace".to_owned())
    } else {
        Ok(text_between(&chars, start, after))
    }
}

/// The text of a reply that is to be read: first the reply as it is, and where
/// that cannot be read the text between its braces.
pub fn next_text(output: &str, unreadable: bool) -> (r: Result<String, String>)
    requires
        unreadable ==> braces_in_order(output@),
    ensures
        text_result(r) == text_to_read(output@, unreadable),
{
    if unreadable {
        extract_embedded_json(output)
    } else {
        Ok(output.to_owned())
    }
}

/// The report of an agent, given two readings of its reply: that of the reply
/// as it is, which counts where it succeeds, and that of the text between its
/// braces, which counts where there is such a text.
pub fn parse_agent_result(
    output: &str,
    step_id: &str,
    direct: Result<StepAgentResult, String>,
    within_braces: Result<StepAgentResult, String>,
) -> (r: Result<StepAgentResult, WorkflowError>)
    requires
        direct is Err ==> braces_in_order(output@),
    ensures
        outcome(r) == match either(output@, reading(direct), reading(within_braces)) {
            Ok(result) => Ok::<AgentResultView, WorkflowErrorView>(result),
            Err(reason) => Err(failed(step_id@, bad_report(reason, output@))),
        },
{
    let found = match direct {
        Ok(result) => Ok(result),
        Err(_) => match next_text(output, true) {
            Ok(_) => within_braces,
            Err(reason) => Err(reason),
        },
    };
    match found {
        Ok(result) => Ok(result),
        Err(reason) => Err(
            WorkflowError::StepFailed {
                step_id: step_id.to_owned(),
                message: "agent returned invalid JSON: ".to_owned().concat(
                    reason.as_str(),
                ).concat(". raw output: ").concat(output),
            },
        ),
    }
}

/// The decision of a reviewing agent, given two readings of its reply: that of
/// the reply as it is, which counts where it succeeds, and that of the text
/// between its braces, which counts where there is such a text.
pub fn parse_review_decision(
    output: &str,
    step_id: &str,
    gate_id: &str,
    direct: Result<ReviewDecision, String>,
    within_braces: Result<ReviewDecision, String>,
) -> (r: Result<ReviewDecision, WorkflowError>)
    requires
        direct is Err ==> braces_in_order(output@),
    ensures
        outcome(r) == match either(output@, reading(direct), reading(within_braces)) {
            Ok(decision) => Ok::<DecisionView, WorkflowErrorView>(decision),
            Err(reason) => Err(failed(step_id@, bad_decision(gate_id@, reason, output@))),
        },
{
    let found = match direct {
        Ok(decision) => Ok(decision),
        Err(_) => match next_text(output, true) {
            Ok(_) => within_braces,
            Err(reason) => Err(reason),
        },
    };
    match found {
        Ok(decision) => Ok(decision),
        Err(reason) => Err(
            WorkflowError::StepFailed {
                step_id: step_id.to_owned(),
                message: "review gate `".to_owned().concat(gate_id).concat(
                    "` returned invalid JSON: ",
                ).concat(reason.as_str()).concat(". raw output: ").concat(output),
            },
        ),
    }
}

/// The reply in an envelope, given the two members of the envelope that matter.
pub fn choose_reply(
    output: &str,
    step_id: &str,
    structured: Result<Option<String>, String>,
    result: Option<String>,
) -> (r: Result<String, WorkflowError>)
    ensures
        outcome(r) == unwrapped(
            output@,
            step_id@,
            optional_result(structured),
            optional(result),
        ),
{
    match structured {
        Err(reason) => Err(
            WorkflowError::StepFailed {
                step_id: step_id.to_owned(),
                message: product_name(ConductorAgent::ClaudeCode).concat(
                    " returned invalid JSON envelope: ",
                ).concat(reason.as_str()).concat(". raw output: ").concat(output),
            },
        ),
        Ok(Some(json)) => Ok(json),
        Ok(None) => match result {
            Some(text) => Ok(text),
            None => Ok(trim(output)),
        },
    }
}

/// The reply in an envelope: its structured output as JSON, or else its result
/// where that is a string, or else the whole of it.
pub fn normalize_claude_output(output: &str, step_id: &str) -> (r: Result<String, WorkflowError>)
    ensures
        outcome(r) == unwrapped(
            output@,
            step_id@,
            member_text(output@, "structured_output"@),
            result_member(output@),
        ),
{
    let structured = json_member(output, "structured_output");
    let result = match json_member(output, "result") {
        Ok(Some(member)) => json_string(member.as_str()),
        _ => None,
    };
    choose_reply(output, step_id, structured, result)
}

/// Why `codex` failed.
pub fn format_codex_failure(status: &str, stdout: &str, stderr: &str) -> (r: String)
    ensures
        r@ == codex_failure(status@, stdout@, stderr@),
{
    let combined = stdout.to_owned().concat("\n").concat(stderr);
    if holds(combined.as_str(), "401 Unauthorized") {
        return "Codex CLI authentication failed (401 Unauthorized). Run `codex login`, provide `OPENAI_API_KEY`, or verify the active Codex profile before using `conductor run --live`.".to_owned();
    }
    if holds(combined.as_str(), "Read-only file system") && holds(combined.as_str(), "session") {
        return "Codex CLI could not initialize its local session store. Set `CONDUCTOR_CODEX_HOME` to a writable directory or run with a writable Codex home.".to_owned();
    }
    format_exit(ConductorAgent::OpenAiCodex, status, stdout, stderr)
}

/// How a tool ended that failed.
fn format_exit(tool: ConductorAgent, status: &str, stdout: &str, stderr: &str) -> (r: String)
    ensures
        r@ == exit_message(product_of(tool), status@, stdout@, stderr@),
{
    product_name(tool).concat(" CLI exited with status ").concat(status).concat(
        ".\nstdout:\n",
    ).concat(trim(stdout).as_str()).concat("\nstderr:\n").concat(trim(stderr).as_str())
}

/// What the end of a tool means for the step: what it printed, or its failure.
pub fn check_tool(
    tool: ConductorAgent,
    binary: &str,
    step_id: &str,
    process: ProcessOutcome,
) -> (r: Result<String, WorkflowError>)
    ensures
        outcome(r) == tool_verdict(tool, binary@, step_id@, process@),
{
    match process {
        ProcessOutcome::NotStarted(reason) => Err(
            WorkflowError::StepFailed {
                step_id: step_id.to_owned(),
                message: "failed to start ".to_owned().concat(
                    product_name(tool).as_str(),
                ).concat(" CLI `").concat(binary).concat("`: ").concat(reason.as_str()),
            },
        ),
        ProcessOutcome::Exited { success, status, stdout, stderr } => {
            if success {
                return Ok(stdout);
            }
            let message = match tool {
                ConductorAgent::ClaudeCode => format_exit(
                    tool,
                    status.as_str(),
                    stdout.as_str(),
                    stderr.as_str(),
                ),
                ConductorAgent::OpenAiCodex => format_codex_failure(
                    status.as_str(),
                    stdout.as_str(),
                    stderr.as_str(),
                ),
            };
            Err(WorkflowError::StepFailed { step_id: step_id.to_owned(), message })
        },
    }
}

} // verus!
