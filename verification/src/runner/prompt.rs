//! What agents are told.

use vstd::prelude::*;
use vstd::string::*;

use super::handoff::{law_lists_have_every_item, list_of, markdown_list};
use super::types::{AgentResultView, ContextView, ExecutionContext, StepAgentResult};
use crate::text::{
    blank, contains, holds, is_blank, joined, lemma_contains_appended, lemma_contains_part,
    occurs_at, replace, replaced, texts,
};
use crate::workflow::maps::{all_snippets, lookup, snippet_entries, snippet_named};
use crate::workflow::model::{ReviewGate, Snippet, Step, Workflow};

verus! {

// ---------------------------------------------------------------------------
// Meaning
// ---------------------------------------------------------------------------

/// A text, and a blank line where more follows on something.
pub open spec fn separated(prompt: Seq<char>) -> Seq<char> {
    if prompt.len() == 0 {
        prompt
    } else {
        prompt + "\n\n"@
    }
}

/// The prompt with the triggers of the first `n` snippets replaced by the
/// contents, one snippet after the other.
pub open spec fn triggers_expanded(
    prompt: Seq<char>,
    snippets: Seq<(Seq<char>, Snippet)>,
    n: int,
) -> Seq<char>
    decreases n,
{
    if n <= 0 {
        prompt
    } else {
        let snippet = snippets[n - 1].1;
        replaced(triggers_expanded(prompt, snippets, n - 1), snippet.trigger@, snippet.content@)
    }
}

/// The prompt with a snippet after it, unless the content is there already.
pub open spec fn with_snippet(prompt: Seq<char>, name: Seq<char>, snippet: Snippet) -> Seq<char> {
    if contains(prompt, snippet.content@) {
        prompt
    } else {
        separated(prompt) + "Snippet `"@ + name + "` ("@ + snippet.trigger@ + ")\n"@
            + snippet.content@
    }
}

/// The prompt with the first `n` of the named snippets after it. Unknown names
/// count for nothing.
pub open spec fn with_snippets(
    prompt: Seq<char>,
    snippets: Seq<(Seq<char>, Snippet)>,
    names: Seq<Seq<char>>,
    n: int,
) -> Seq<char>
    decreases n,
{
    if n <= 0 {
        prompt
    } else {
        let before = with_snippets(prompt, snippets, names, n - 1);
        match lookup(snippets, names[n - 1]) {
            Some(snippet) => with_snippet(before, names[n - 1], snippet),
            None => before,
        }
    }
}

/// The prompt with the handoff notes after it, unless they are blank.
pub open spec fn with_handoff(prompt: Seq<char>, handoff: Seq<char>) -> Seq<char> {
    if blank(handoff) {
        prompt
    } else {
        separated(prompt) + "Current handoff context:\n"@ + handoff
    }
}

/// The prompt of a step before snippets and notes are added.
pub open spec fn bare_prompt(step: &Step) -> Seq<char> {
    match step.prompt {
        Some(prompt) => prompt@,
        None => Seq::empty(),
    }
}

/// The prompt of a step with the snippets that it asks for.
pub open spec fn prompt_with_snippets(workflow: &Workflow, step: &Step) -> Seq<char> {
    let snippets = snippet_entries(workflow.snippets);
    with_snippets(
        triggers_expanded(bare_prompt(step), snippets, snippets.len() as int),
        snippets,
        texts(step.snippets@),
        step.snippets@.len() as int,
    )
}

/// The prompt of a step with the snippets that it asks for and the handoff
/// notes.
pub open spec fn expanded_prompt(workflow: &Workflow, step: &Step, handoff: Seq<char>) -> Seq<
    char,
> {
    with_handoff(prompt_with_snippets(workflow, step), handoff)
}

/// The first `n` commands, one per line.
pub open spec fn command_lines(commands: Seq<Seq<char>>, n: int) -> Seq<char>
    decreases n,
{
    if n <= 0 {
        Seq::empty()
    } else {
        command_lines(commands, n - 1) + "- "@ + commands[n - 1] + "\n"@
    }
}

/// What an agent is told about the commands that run after it.
pub open spec fn commands_block(commands: Seq<Seq<char>>) -> Seq<char> {
    if commands.len() == 0 {
        Seq::empty()
    } else {
        "Shell commands Conductor will execute after a successful agent run:\n"@ + command_lines(
            commands,
            commands.len() as int,
        ) + "\n"@
    }
}

/// What an agent is told to do.
pub open spec fn instructions_block(instructions: Seq<char>) -> Seq<char> {
    if blank(instructions) {
        Seq::empty()
    } else {
        "Step Instructions:\n"@ + instructions + "\n"@
    }
}

/// Everything that an agent is told about a step.
pub open spec fn step_prompt(workflow: &Workflow, step: &Step, context: ContextView) -> Seq<char> {
    "You are executing a Conductor workflow step.\nReturn only JSON that matches the provided schema.\n\nWorkflow: "@
        + workflow.name@ + "\nStep ID: "@ + step.id@ + "\nStep Title: "@ + step.title@
        + "\nAgent Name: "@ + step.agent@ + "\nWorkspace Root: "@ + context.workspace_root
        + "\nHandoff File: "@ + context.handoff_path + "\n"@ + commands_block(texts(step.run@))
        + instructions_block(expanded_prompt(workflow, step, context.handoff_markdown))
        + "\nPerform the requested work in the workspace, then report the outcome, current state for the next handoff, any open questions, and the next actions."@
}

/// The text, or another where it is missing.
pub open spec fn text_or(text: Option<Seq<char>>, otherwise: Seq<char>) -> Seq<char> {
    match text {
        Some(text) => text,
        None => otherwise,
    }
}

/// Everything that the reviewing agent is told about a step.
pub open spec fn review_prompt(
    gate: &ReviewGate,
    step: &Step,
    reviewer: Seq<char>,
    context: ContextView,
    result: AgentResultView,
) -> Seq<char> {
    "You are executing a Conductor review gate.\nReturn only JSON that matches the provided schema.\n\nReview Gate: "@
        + gate.name@ + " ("@ + gate.id@ + ")\nReviewer Agent: "@ + reviewer + "\nStep ID: "@
        + step.id@ + "\nStep Title: "@ + step.title@ + "\nWorkspace Root: "@
        + context.workspace_root + "\nHandoff File: "@ + context.handoff_path
        + "\n\nGate Instructions:\n"@ + text_or(
        crate::text::optional(gate.instructions),
        "No extra instructions."@,
    ) + "\n\nStep Summary:\n"@ + result.summary + "\n\nCurrent State:\n"@ + text_or(
        result.current_state,
        "No state provided."@,
    ) + "\n\nOpen Questions:\n"@ + list_of(result.open_questions)
        + "\n\nDecide whether the step is approved for the workflow to continue. If not approved, list concrete blocking issues."@
}

// ---------------------------------------------------------------------------
// Laws
// ---------------------------------------------------------------------------

/// Appending a snippet leaves in the prompt what stood there, and the content
/// of the snippet stands in it afterwards.
proof fn lemma_with_snippet(
    prompt: Seq<char>,
    name: Seq<char>,
    snippet: Snippet,
    pattern: Seq<char>,
)
    ensures
        contains(with_snippet(prompt, name, snippet), snippet.content@),
        contains(prompt, pattern) ==> contains(with_snippet(prompt, name, snippet), pattern),
{
    if !contains(prompt, snippet.content@) {
        let after = with_snippet(prompt, name, snippet);
        let before = separated(prompt) + "Snippet `"@ + name + "` ("@ + snippet.trigger@ + ")\n"@;
        let empty = Seq::<char>::empty();
        lemma_contains_part(before, snippet.content@, empty);
        assert(before + snippet.content@ + empty =~= after);
        if contains(prompt, pattern) {
            let more = after.skip(prompt.len() as int);
            assert(prompt + more =~= after);
            lemma_contains_appended(prompt, more, pattern);
        }
    }
}

proof fn lemma_with_snippets(
    prompt: Seq<char>,
    snippets: Seq<(Seq<char>, Snippet)>,
    names: Seq<Seq<char>>,
    n: int,
    k: int,
)
    requires
        0 <= k < n <= names.len(),
        lookup(snippets, names[k]) is Some,
    ensures
        contains(
            with_snippets(prompt, snippets, names, n),
            lookup(snippets, names[k])->0.content@,
        ),
    decreases n,
{
    let wanted = lookup(snippets, names[k])->0.content@;
    let before = with_snippets(prompt, snippets, names, n - 1);
    if k < n - 1 {
        lemma_with_snippets(prompt, snippets, names, n - 1, k);
    }
    if let Some(snippet) = lookup(snippets, names[n - 1]) {
        lemma_with_snippet(before, names[n - 1], snippet, wanted);
    }
}

/// The content of every known snippet that a step names stands in its prompt.
pub proof fn law_named_snippets_reach_the_agent(
    workflow: &Workflow,
    step: &Step,
    handoff: Seq<char>,
    k: int,
)
    requires
        0 <= k < step.snippets@.len(),
        lookup(snippet_entries(workflow.snippets), step.snippets@[k]@) is Some,
    ensures
        contains(
            expanded_prompt(workflow, step, handoff),
            lookup(snippet_entries(workflow.snippets), step.snippets@[k]@)->0.content@,
        ),
{
    let snippets = snippet_entries(workflow.snippets);
    let start = triggers_expanded(bare_prompt(step), snippets, snippets.len() as int);
    let names = texts(step.snippets@);
    lemma_with_snippets(start, snippets, names, names.len() as int, k);
    let prompt = prompt_with_snippets(workflow, step);
    let after = with_handoff(prompt, handoff);
    assert(after =~= prompt + after.skip(prompt.len() as int));
    lemma_contains_appended(
        prompt,
        after.skip(prompt.len() as int),
        lookup(snippets, names[k])->0.content@,
    );
}

/// The handoff notes come last in a prompt, whole and unchanged.
pub proof fn law_handoff_notes_come_last(workflow: &Workflow, step: &Step, handoff: Seq<char>)
    requires
        !blank(handoff),
    ensures
        ({
            let prompt = expanded_prompt(workflow, step, handoff);
            prompt.len() >= handoff.len() && prompt.skip(prompt.len() - handoff.len()) == handoff
        }),
{
    let prompt = expanded_prompt(workflow, step, handoff);
    assert(prompt.skip(prompt.len() - handoff.len()) =~= handoff);
}

/// A snippet that the prompt contains already is not added a second time.
pub proof fn law_snippets_are_not_repeated(prompt: Seq<char>, name: Seq<char>, snippet: Snippet)
    requires
        contains(prompt, snippet.content@),
    ensures
        with_snippet(prompt, name, snippet) == prompt,
{
}

/// Where a trigger does not occur, replacing it changes nothing.
pub proof fn law_absent_trigger_changes_nothing(
    text: Seq<char>,
    trigger: Seq<char>,
    content: Seq<char>,
)
    requires
        trigger.len() > 0,
        !contains(text, trigger),
    ensures
        replaced(text, trigger, content) == text,
    decreases text.len(),
{
    assert(!occurs_at(text, trigger, 0));
    if text.len() > 0 {
        let rest = text.drop_first();
        if contains(rest, trigger) {
            let at = choose|at: int| occurs_at(rest, trigger, at);
            lemma_occurrence_after_first(text, trigger, at);
        }
        law_absent_trigger_changes_nothing(rest, trigger, content);
        assert(seq![text[0]] + rest =~= text);
    }
}

/// What stands before the first occurrence of a trigger stays as it is, the
/// content takes the place of the trigger, and so on with what follows.
pub proof fn law_trigger_gives_way_to_content(
    text: Seq<char>,
    trigger: Seq<char>,
    content: Seq<char>,
    at: int,
)
    requires
        trigger.len() > 0,
        occurs_at(text, trigger, at),
        forall|i: int| 0 <= i < at ==> !occurs_at(text, trigger, i),
    ensures
        replaced(text, trigger, content) == text.take(at) + content + replaced(
            text.skip(at + trigger.len()),
            trigger,
            content,
        ),
    decreases text.len(),
{
    let after = text.skip(at + trigger.len());
    if at == 0 {
        assert(text.take(0) + content =~= content);
    } else {
        assert(!occurs_at(text, trigger, 0));
        let rest = text.drop_first();
        lemma_occurrence_after_first(text, trigger, at - 1);
        assert forall|i: int| 0 <= i < at - 1 implies !occurs_at(rest, trigger, i) by {
            lemma_occurrence_after_first(text, trigger, i);
            assert(!occurs_at(text, trigger, i + 1));
        }
        law_trigger_gives_way_to_content(rest, trigger, content, at - 1);
        assert(rest.skip(at - 1 + trigger.len()) =~= after);
        assert(seq![text[0]] + (rest.take(at - 1) + content + replaced(after, trigger, content))
            =~= text.take(at) + content + replaced(after, trigger, content));
    }
}

/// An occurrence after the first character is one in the rest of the text.
proof fn lemma_occurrence_after_first(text: Seq<char>, trigger: Seq<char>, at: int)
    requires
        text.len() > 0,
        at >= 0,
    ensures
        occurs_at(text.drop_first(), trigger, at) == occurs_at(text, trigger, at + 1),
{
    if at + 1 + trigger.len() <= text.len() {
        assert(text.subrange(at + 1, at + 1 + trigger.len()) =~= text.drop_first().subrange(
            at,
            at + trigger.len(),
        ));
    }
}

/// What an agent is told about a step has a part.
proof fn lemma_step_prompt_has(
    workflow: &Workflow,
    step: &Step,
    context: ContextView,
    before: Seq<char>,
    part: Seq<char>,
    after: Seq<char>,
)
    requires
        step_prompt(workflow, step, context) == before + part + after,
    ensures
        contains(step_prompt(workflow, step, context), part),
{
    lemma_contains_part(before, part, after);
}

/// What is known of a step stands in its prompt, each thing under its name.
pub proof fn law_step_prompt_says_what_the_step_is(
    workflow: &Workflow,
    step: &Step,
    context: ContextView,
)
    ensures
        ({
            let facts = "Workflow: "@ + workflow.name@ + "\nStep ID: "@ + step.id@
                + "\nStep Title: "@ + step.title@ + "\nAgent Name: "@ + step.agent@
                + "\nWorkspace Root: "@ + context.workspace_root + "\nHandoff File: "@
                + context.handoff_path + "\n"@;
            let start =
                "You are executing a Conductor workflow step.\nReturn only JSON that matches the provided schema.\n\n"@;
            let end =
                "\nPerform the requested work in the workspace, then report the outcome, current state for the next handoff, any open questions, and the next actions."@;
            let prompt = step_prompt(workflow, step, context);
            &&& prompt.len() >= start.len() + facts.len() + end.len()
            &&& prompt.take((start.len() + facts.len()) as int) == start + facts
            &&& prompt.skip(prompt.len() - end.len()) == end
        }),
{
    let facts = "Workflow: "@ + workflow.name@ + "\nStep ID: "@ + step.id@ + "\nStep Title: "@
        + step.title@ + "\nAgent Name: "@ + step.agent@ + "\nWorkspace Root: "@
        + context.workspace_root + "\nHandoff File: "@ + context.handoff_path + "\n"@;
    let start =
        "You are executing a Conductor workflow step.\nReturn only JSON that matches the provided schema.\n\n"@;
    let both =
        "You are executing a Conductor workflow step.\nReturn only JSON that matches the provided schema.\n\nWorkflow: "@;
    let end =
        "\nPerform the requested work in the workspace, then report the outcome, current state for the next handoff, any open questions, and the next actions."@;
    reveal_strlit("Workflow: ");
    reveal_strlit(
        "You are executing a Conductor workflow step.\nReturn only JSON that matches the provided schema.\n\n",
    );
    reveal_strlit(
        "You are executing a Conductor workflow step.\nReturn only JSON that matches the provided schema.\n\nWorkflow: ",
    );
    assert(both =~= start + "Workflow: "@);
    let middle = commands_block(texts(step.run@)) + instructions_block(
        expanded_prompt(workflow, step, context.handoff_markdown),
    );
    let prompt = step_prompt(workflow, step, context);
    assert(prompt =~= start + facts + middle + end);
    assert(prompt.take((start.len() + facts.len()) as int) =~= start + facts);
    assert(prompt.skip(prompt.len() - end.len()) =~= end);
}

/// Whatever the handoff notes say stands in the prompt that is sent, whole, after
/// the line that announces them, unless they are blank; so it does where the step
/// has instructions of its own.
pub proof fn law_handoff_notes_reach_the_agent(
    workflow: &Workflow,
    step: &Step,
    context: ContextView,
)
    requires
        !blank(context.handoff_markdown),
    ensures
        contains(
            step_prompt(workflow, step, context),
            "Current handoff context:\n"@ + context.handoff_markdown + "\n"@,
        ),
{
    let notes = context.handoff_markdown;
    let title = "Current handoff context:\n"@;
    let own = separated(prompt_with_snippets(workflow, step));
    let expanded = expanded_prompt(workflow, step, notes);
    reveal_strlit("Current handoff context:\n");
    assert(expanded[own.len() as int] == 'C');
    assert(!blank(expanded)) by {
        assert(!crate::text::is_white_space(expanded[own.len() as int]));
    }
    let prompt = step_prompt(workflow, step, context);
    let end =
        "\nPerform the requested work in the workspace, then report the outcome, current state for the next handoff, any open questions, and the next actions."@;
    let part = title + notes + "\n"@;
    let before = prompt.take(prompt.len() - end.len() - part.len());
    assert(prompt =~= before + part + end);
    lemma_step_prompt_has(workflow, step, context, before, part, end);
}

/// The instructions of a step stand in the prompt that is sent, under their title:
/// the step's own words with the snippets that it asks for, whatever the handoff
/// notes are.
pub proof fn law_instructions_reach_the_agent(
    workflow: &Workflow,
    step: &Step,
    context: ContextView,
)
    requires
        !blank(prompt_with_snippets(workflow, step)),
    ensures
        contains(
            step_prompt(workflow, step, context),
            "Step Instructions:\n"@ + prompt_with_snippets(workflow, step),
        ),
{
    let own = prompt_with_snippets(workflow, step);
    let notes = context.handoff_markdown;
    let expanded = expanded_prompt(workflow, step, notes);
    let i = choose|i: int| 0 <= i < own.len() && !crate::text::is_white_space(#[trigger] own[i]);
    assert(expanded[i] == own[i]);
    assert(expanded.take(own.len() as int) =~= own);
    assert(!blank(expanded)) by {
        assert(!crate::text::is_white_space(expanded[i]));
    }
    let prompt = step_prompt(workflow, step, context);
    let part = "Step Instructions:\n"@ + own;
    let end =
        "\nPerform the requested work in the workspace, then report the outcome, current state for the next handoff, any open questions, and the next actions."@;
    let after = expanded.skip(own.len() as int) + "\n"@ + end;
    let before = prompt.take(prompt.len() - after.len() - part.len());
    assert(prompt =~= before + part + after);
    lemma_step_prompt_has(workflow, step, context, before, part, after);
}

/// A step with nothing to say to its agent, neither of its own nor from handoff
/// notes, has no instructions in its prompt.
pub proof fn law_blank_instructions_are_left_out(
    workflow: &Workflow,
    step: &Step,
    context: ContextView,
)
    requires
        blank(prompt_with_snippets(workflow, step)),
        blank(context.handoff_markdown),
    ensures
        ({
            let silent = ContextView { handoff_markdown: Seq::empty(), ..context };
            &&& step_prompt(workflow, step, context) == step_prompt(workflow, step, silent)
            &&& instructions_block(
                expanded_prompt(workflow, step, context.handoff_markdown),
            ).len() == 0
        }),
{
}

/// The commands that follow an agent stand in its prompt, in order and one to a
/// line, under their title; without commands there is no title.
pub proof fn law_commands_reach_the_agent(
    workflow: &Workflow,
    step: &Step,
    context: ContextView,
)
    ensures
        step.run@.len() > 0 ==> contains(
            step_prompt(workflow, step, context),
            "Handoff File: "@ + context.handoff_path
                + "\nShell commands Conductor will execute after a successful agent run:\n- "@
                + joined(texts(step.run@), "\n- "@) + "\n\n"@,
        ),
        step.run@.len() == 0 ==> commands_block(texts(step.run@)).len() == 0,
{
    let commands = texts(step.run@);
    if commands.len() > 0 {
        let title = "Shell commands Conductor will execute after a successful agent run:\n"@;
        let both = "\nShell commands Conductor will execute after a successful agent run:\n- "@;
        reveal_strlit("Shell commands Conductor will execute after a successful agent run:\n");
        reveal_strlit(
            "\nShell commands Conductor will execute after a successful agent run:\n- ",
        );
        reveal_strlit("\n");
        reveal_strlit("- ");
        reveal_strlit("\n- ");
        reveal_strlit("\n\n");
        reveal_strlit("\nHandoff File: ");
        reveal_strlit("Handoff File: ");
        lemma_command_lines(commands, commands.len() as int);
        assert(commands.take(commands.len() as int) =~= commands);
        let list = joined(commands, "\n- "@);
        assert(both =~= "\n"@ + title + "- "@);
        let block = commands_block(commands);
        assert("\n"@ + block =~= both + list + "\n\n"@);
        let part = "Handoff File: "@ + context.handoff_path + both + list + "\n\n"@;
        let prompt = step_prompt(workflow, step, context);
        let end =
            "\nPerform the requested work in the workspace, then report the outcome, current state for the next handoff, any open questions, and the next actions."@;
        let after = instructions_block(
            expanded_prompt(workflow, step, context.handoff_markdown),
        ) + end;
        assert("\nHandoff File: "@ =~= "\n"@ + "Handoff File: "@);
        let before =
            "You are executing a Conductor workflow step.\nReturn only JSON that matches the provided schema.\n\nWorkflow: "@
            + workflow.name@ + "\nStep ID: "@ + step.id@ + "\nStep Title: "@ + step.title@
            + "\nAgent Name: "@ + step.agent@ + "\nWorkspace Root: "@ + context.workspace_root
            + "\n"@;
        assert(prompt =~= before + ("Handoff File: "@ + context.handoff_path + ("\n"@ + block))
            + after);
        assert(part =~= "Handoff File: "@ + context.handoff_path + ("\n"@ + block));
        lemma_step_prompt_has(workflow, step, context, before, part, after);
    }
}

proof fn lemma_command_lines(commands: Seq<Seq<char>>, n: int)
    requires
        0 < n <= commands.len(),
    ensures
        command_lines(commands, n) == "- "@ + joined(commands.take(n), "\n- "@) + "\n"@,
    decreases n,
{
    reveal_strlit("\n- ");
    reveal_strlit("\n");
    reveal_strlit("- ");
    assert("\n- "@ =~= "\n"@ + "- "@);
    if n == 1 {
        assert(command_lines(commands, 0) =~= Seq::empty());
        assert(commands.take(1)[0] == commands[0]);
        assert(command_lines(commands, 1) =~= "- "@ + commands[0] + "\n"@);
    } else {
        lemma_command_lines(commands, n - 1);
        assert(commands.take(n).drop_last() =~= commands.take(n - 1));
        assert(command_lines(commands, n) =~= "- "@ + (joined(commands.take(n - 1), "\n- "@)
            + "\n- "@ + commands[n - 1]) + "\n"@);
    }
}

/// A prompt is made up of what the step is, the commands that follow it, if there
/// are any, and its instructions, if they say anything: its words with the
/// triggers in them replaced, then the snippets that it names, then the handoff
/// notes.
pub proof fn law_step_prompt_in_full(workflow: &Workflow, step: &Step, context: ContextView)
    ensures
        ({
            let snippets = snippet_entries(workflow.snippets);
            let commands = texts(step.run@);
            let notes = context.handoff_markdown;
            let words = match step.prompt {
                Some(words) => words@,
                None => Seq::empty(),
            };
            let told = with_snippets(
                triggers_expanded(words, snippets, snippets.len() as int),
                snippets,
                texts(step.snippets@),
                step.snippets@.len() as int,
            );
            let gap = if told.len() == 0 {
                Seq::empty()
            } else {
                "\n\n"@
            };
            let instructions = if blank(notes) {
                told
            } else {
                told + gap + "Current handoff context:\n"@ + notes
            };
            let head = step_prompt_head(workflow, step, context);
            let listed = if commands.len() == 0 {
                Seq::empty()
            } else {
                "Shell commands Conductor will execute after a successful agent run:\n- "@
                    + joined(commands, "\n- "@) + "\n\n"@
            };
            let shown = if blank(instructions) {
                Seq::empty()
            } else {
                "Step Instructions:\n"@ + instructions + "\n"@
            };
            step_prompt(workflow, step, context) == head + listed + shown
                + "\nPerform the requested work in the workspace, then report the outcome, current state for the next handoff, any open questions, and the next actions."@
        }),
{
    let commands = texts(step.run@);
    let own = prompt_with_snippets(workflow, step);
    let notes = context.handoff_markdown;
    if commands.len() > 0 {
        reveal_strlit("Shell commands Conductor will execute after a successful agent run:\n");
        reveal_strlit("Shell commands Conductor will execute after a successful agent run:\n- ");
        reveal_strlit("- ");
        reveal_strlit("\n");
        reveal_strlit("\n\n");
        assert("Shell commands Conductor will execute after a successful agent run:\n- "@
            =~= "Shell commands Conductor will execute after a successful agent run:\n"@ + "- "@);
        assert("\n\n"@ =~= "\n"@ + "\n"@);
        lemma_command_lines(commands, commands.len() as int);
        assert(commands.take(commands.len() as int) =~= commands);
        assert(commands_block(commands)
            =~= "Shell commands Conductor will execute after a successful agent run:\n- "@ + joined(
            commands,
            "\n- "@,
        ) + "\n\n"@);
    }
    if own.len() == 0 {
        assert(own + Seq::<char>::empty() =~= own);
        assert(separated(own) =~= own + Seq::<char>::empty());
    }
}

/// The part of a prompt that says what the step is.
pub open spec fn step_prompt_head(
    workflow: &Workflow,
    step: &Step,
    context: ContextView,
) -> Seq<char> {
    "You are executing a Conductor workflow step.\nReturn only JSON that matches the provided schema.\n\nWorkflow: "@
        + workflow.name@ + "\nStep ID: "@ + step.id@ + "\nStep Title: "@ + step.title@
        + "\nAgent Name: "@ + step.agent@ + "\nWorkspace Root: "@ + context.workspace_root
        + "\nHandoff File: "@ + context.handoff_path + "\n"@
}

/// The prompt of a step says nothing else: it is what the step is, its commands,
/// and its instructions. Two contexts that agree on these give the same prompt.
pub proof fn law_step_prompt_is_made_of_its_parts(
    workflow: &Workflow,
    step: &Step,
    context: ContextView,
    other: ContextView,
)
    requires
        context.workspace_root == other.workspace_root,
        context.handoff_path == other.handoff_path,
        context.handoff_markdown == other.handoff_markdown || blank(context.handoff_markdown)
            && blank(other.handoff_markdown),
    ensures
        step_prompt(workflow, step, context) == step_prompt(workflow, step, other),
{
}

/// A step's own words come first in its instructions, as they are where they hold
/// no trigger, and before every snippet and the handoff notes.
pub proof fn law_own_words_come_first(workflow: &Workflow, step: &Step, handoff: Seq<char>)
    requires
        step.prompt is Some,
        forall|i: int|
            0 <= i < snippet_entries(workflow.snippets).len() ==> {
                let trigger = (#[trigger] snippet_entries(workflow.snippets)[i]).1.trigger@;
                trigger.len() > 0 && !contains(step.prompt->0@, trigger)
            },
    ensures
        ({
            let words = step.prompt->0@;
            let prompt = expanded_prompt(workflow, step, handoff);
            &&& prompt.len() >= words.len()
            &&& prompt.take(words.len() as int) == words
            &&& step.snippets@.len() == 0 && blank(handoff) ==> prompt == words
            &&& step.snippets@.len() == 0 && !blank(handoff) ==> prompt == (if words.len() == 0 {
                words
            } else {
                words + "\n\n"@
            }) + "Current handoff context:\n"@ + handoff
        }),
{
    let snippets = snippet_entries(workflow.snippets);
    let words = step.prompt->0@;
    lemma_no_triggers(words, snippets, snippets.len() as int);
    let names = texts(step.snippets@);
    lemma_snippets_follow(words, snippets, names, names.len() as int);
    let prompt = expanded_prompt(workflow, step, handoff);
    let with = prompt_with_snippets(workflow, step);
    assert(prompt.take(words.len() as int) =~= with.take(words.len() as int));
}

proof fn lemma_no_triggers(words: Seq<char>, snippets: Seq<(Seq<char>, Snippet)>, n: int)
    requires
        0 <= n <= snippets.len(),
        forall|i: int|
            0 <= i < snippets.len() ==> {
                let trigger = (#[trigger] snippets[i]).1.trigger@;
                trigger.len() > 0 && !contains(words, trigger)
            },
    ensures
        triggers_expanded(words, snippets, n) == words,
    decreases n,
{
    if n > 0 {
        lemma_no_triggers(words, snippets, n - 1);
        let snippet = snippets[n - 1].1;
        law_absent_trigger_changes_nothing(words, snippet.trigger@, snippet.content@);
    }
}

proof fn lemma_snippets_follow(
    words: Seq<char>,
    snippets: Seq<(Seq<char>, Snippet)>,
    names: Seq<Seq<char>>,
    n: int,
)
    requires
        0 <= n <= names.len(),
    ensures
        with_snippets(words, snippets, names, n).len() >= words.len(),
        with_snippets(words, snippets, names, n).take(words.len() as int) == words,
    decreases n,
{
    let after = with_snippets(words, snippets, names, n);
    if n > 0 {
        lemma_snippets_follow(words, snippets, names, n - 1);
        let before = with_snippets(words, snippets, names, n - 1);
        assert(after.take(words.len() as int) =~= before.take(words.len() as int));
    } else {
        assert(after.take(words.len() as int) =~= words);
    }
}

/// Triggers give way to contents one snippet after the other, in the order in
/// which the workflow defines them: with one more snippet, its trigger is replaced
/// in what the others left.
pub proof fn law_triggers_are_replaced_in_order(
    words: Seq<char>,
    snippets: Seq<(Seq<char>, Snippet)>,
    last: (Seq<char>, Snippet),
)
    ensures
        triggers_expanded(words, snippets.push(last), snippets.len() as int + 1) == replaced(
            triggers_expanded(words, snippets, snippets.len() as int),
            last.1.trigger@,
            last.1.content@,
        ),
        triggers_expanded(words, Seq::empty(), 0) == words,
{
    lemma_same_triggers(words, snippets.push(last), snippets, snippets.len() as int);
}

proof fn lemma_same_triggers(
    words: Seq<char>,
    more: Seq<(Seq<char>, Snippet)>,
    fewer: Seq<(Seq<char>, Snippet)>,
    n: int,
)
    requires
        0 <= n <= fewer.len() <= more.len(),
        forall|i: int| 0 <= i < fewer.len() ==> more[i] == fewer[i],
    ensures
        triggers_expanded(words, more, n) == triggers_expanded(words, fewer, n),
    decreases n,
{
    if n > 0 {
        lemma_same_triggers(words, more, fewer, n - 1);
    }
}

/// A step without words of its own is told the same as one whose words are none.
pub proof fn law_no_words_of_its_own(
    workflow: &Workflow,
    silent: &Step,
    empty: &Step,
    handoff: Seq<char>,
)
    requires
        silent.prompt is None,
        empty.prompt matches Some(words) && words@.len() == 0,
        silent.snippets == empty.snippets,
    ensures
        expanded_prompt(workflow, silent, handoff) == expanded_prompt(workflow, empty, handoff),
{
    assert(bare_prompt(silent) =~= bare_prompt(empty));
}

/// A snippet that a step names is added after what stands there, under its name
/// and its trigger, with a blank line before it, unless its content stands there
/// already. A name that no snippet has adds nothing.
pub proof fn law_named_snippets_are_added_in_order(
    prompt: Seq<char>,
    snippets: Seq<(Seq<char>, Snippet)>,
    names: Seq<Seq<char>>,
    name: Seq<char>,
)
    ensures
        ({
            let n = names.len() as int;
            let before = with_snippets(prompt, snippets, names, n);
            let after = with_snippets(prompt, snippets, names.push(name), n + 1);
            match lookup(snippets, name) {
                None => after == before,
                Some(snippet) => if contains(before, snippet.content@) {
                    after == before
                } else {
                    let part = "Snippet `"@ + name + "` ("@ + snippet.trigger@ + ")\n"@
                        + snippet.content@;
                    &&& before.len() == 0 ==> after == part
                    &&& before.len() > 0 ==> after == before + "\n\n"@ + part
                },
            }
        }),
        with_snippets(prompt, snippets, Seq::empty(), 0) == prompt,
{
    let n = names.len() as int;
    lemma_same_names(prompt, snippets, names.push(name), names, n);
    let before = with_snippets(prompt, snippets, names, n);
    let after = with_snippets(prompt, snippets, names.push(name), n + 1);
    if let Some(snippet) = lookup(snippets, name) {
        if !contains(before, snippet.content@) {
            let part = "Snippet `"@ + name + "` ("@ + snippet.trigger@ + ")\n"@
                + snippet.content@;
            if before.len() == 0 {
                assert(after =~= part);
            } else {
                assert(after =~= before + "\n\n"@ + part);
            }
        }
    }
}

proof fn lemma_same_names(
    prompt: Seq<char>,
    snippets: Seq<(Seq<char>, Snippet)>,
    more: Seq<Seq<char>>,
    fewer: Seq<Seq<char>>,
    n: int,
)
    requires
        0 <= n <= fewer.len() <= more.len(),
        forall|i: int| 0 <= i < fewer.len() ==> more[i] == fewer[i],
    ensures
        with_snippets(prompt, snippets, more, n) == with_snippets(prompt, snippets, fewer, n),
    decreases n,
{
    if n > 0 {
        lemma_same_names(prompt, snippets, more, fewer, n - 1);
    }
}

/// What a reviewing agent is told has, under their titles, the instructions of the
/// review gate, the summary of the step's result, the state that it names, and its
/// open questions; where there are no instructions, or no state, that is said.
pub proof fn law_review_prompt_tells_of_gate_and_result(
    gate: &ReviewGate,
    step: &Step,
    reviewer: Seq<char>,
    context: ContextView,
    result: AgentResultView,
)
    ensures
        ({
            let prompt = review_prompt(gate, step, reviewer, context, result);
            let part = "\n\nGate Instructions:\n"@ + (match gate.instructions {
                Some(instructions) => instructions@,
                None => "No extra instructions."@,
            }) + "\n\nStep Summary:\n"@ + result.summary + "\n\nCurrent State:\n"@ + (
            match result.current_state {
                Some(state) => state,
                None => "No state provided."@,
            }) + "\n\nOpen Questions:\n"@ + (if result.open_questions.len() == 0 {
                "- None"@
            } else {
                "- "@ + joined(result.open_questions, "\n- "@)
            })
                + "\n\nDecide whether the step is approved for the workflow to continue. If not approved, list concrete blocking issues."@;
            &&& prompt.len() >= part.len()
            &&& prompt.skip(prompt.len() - part.len()) == part
        }),
{
    law_lists_have_every_item(result.open_questions);
    let prompt = review_prompt(gate, step, reviewer, context, result);
    let part = "\n\nGate Instructions:\n"@ + (match gate.instructions {
        Some(instructions) => instructions@,
        None => "No extra instructions."@,
    }) + "\n\nStep Summary:\n"@ + result.summary + "\n\nCurrent State:\n"@ + (
    match result.current_state {
        Some(state) => state,
        None => "No state provided."@,
    }) + "\n\nOpen Questions:\n"@ + list_of(result.open_questions)
        + "\n\nDecide whether the step is approved for the workflow to continue. If not approved, list concrete blocking issues."@;
    assert(prompt.skip(prompt.len() - part.len()) =~= part);
}

/// What a reviewing agent is told begins with the review gate, the agent that
/// reviews, and the step.
pub proof fn law_review_prompt_says_what_is_reviewed(
    gate: &ReviewGate,
    step: &Step,
    reviewer: Seq<char>,
    context: ContextView,
    result: AgentResultView,
)
    ensures
        ({
            let prompt = review_prompt(gate, step, reviewer, context, result);
            let part =
                "You are executing a Conductor review gate.\nReturn only JSON that matches the provided schema.\n\nReview Gate: "@
                + gate.name@ + " ("@ + gate.id@ + ")\nReviewer Agent: "@ + reviewer
                + "\nStep ID: "@ + step.id@ + "\nStep Title: "@ + step.title@
                + "\nWorkspace Root: "@ + context.workspace_root + "\nHandoff File: "@
                + context.handoff_path + "\n\nGate Instructions:\n"@;
            &&& prompt.len() >= part.len()
            &&& prompt.take(part.len() as int) == part
        }),
{
    let prompt = review_prompt(gate, step, reviewer, context, result);
    let part =
        "You are executing a Conductor review gate.\nReturn only JSON that matches the provided schema.\n\nReview Gate: "@
        + gate.name@ + " ("@ + gate.id@ + ")\nReviewer Agent: "@ + reviewer + "\nStep ID: "@
        + step.id@ + "\nStep Title: "@ + step.title@ + "\nWorkspace Root: "@
        + context.workspace_root + "\nHandoff File: "@ + context.handoff_path
        + "\n\nGate Instructions:\n"@;
    assert(prompt.take(part.len() as int) =~= part);
}

// ---------------------------------------------------------------------------
// Operations
// ---------------------------------------------------------------------------

fn separate(prompt: &mut String)
    ensures
        final(prompt)@ == separated(old(prompt)@),
{
    if !prompt.as_str().is_empty() {
        prompt.append("\n\n");
    }
}

/// The prompt of a step with the snippets that it asks for and the handoff
/// notes.
pub fn expand_step_prompt(workflow: &Workflow, step: &Step, handoff_markdown: &str) -> (r: String)
    ensures
        r@ == expanded_prompt(workflow, step, handoff_markdown@),
{
    let mut prompt = match &step.prompt {
        Some(prompt) => prompt.clone(),
        None => String::new(),
    };
    let ghost snippets = snippet_entries(workflow.snippets);
    let values = all_snippets(&workflow.snippets);
    let mut at: usize = 0;
    while at < values.len()
        invariant
            at <= values@.len(),
            snippets == snippet_entries(workflow.snippets),
            values@.len() == snippets.len(),
            forall|i: int| 0 <= i < values@.len() ==> *#[trigger] values@[i] == snippets[i].1,
            prompt@ == triggers_expanded(bare_prompt(step), snippets, at as int),
        decreases values@.len() - at,
    {
        let snippet = values[at];
        prompt = replace(prompt.as_str(), snippet.trigger.as_str(), snippet.content.as_str());
        at = at + 1;
    }
    let ghost start = prompt@;
    let ghost names = texts(step.snippets@);
    let mut at: usize = 0;
    while at < step.snippets.len()
        invariant
            at <= step.snippets@.len(),
            snippets == snippet_entries(workflow.snippets),
            names == texts(step.snippets@),
            prompt@ == with_snippets(start, snippets, names, at as int),
        decreases step.snippets@.len() - at,
    {
        let name = &step.snippets[at];
        if let Some(snippet) = snippet_named(&workflow.snippets, name.as_str()) {
            if !holds(prompt.as_str(), snippet.content.as_str()) {
                separate(&mut prompt);
                prompt.append("Snippet `");
                prompt.append(name.as_str());
                prompt.append("` (");
                prompt.append(snippet.trigger.as_str());
                prompt.append(")\n");
                prompt.append(snippet.content.as_str());
            }
        }
        at = at + 1;
    }
    if !is_blank(handoff_markdown) {
        separate(&mut prompt);
        prompt.append("Current handoff context:\n");
        prompt.append(handoff_markdown);
    }
    prompt
}

/// What an agent is told about the commands that run after it.
fn describe_commands(commands: &Vec<String>) -> (r: String)
    ensures
        r@ == commands_block(texts(commands@)),
{
    let mut block = String::new();
    if commands.len() > 0 {
        let ghost all = texts(commands@);
        let ghost title = "Shell commands Conductor will execute after a successful agent run:\n"@;
        block.append("Shell commands Conductor will execute after a successful agent run:\n");
        assert(block@ =~= title + command_lines(all, 0));
        let mut at: usize = 0;
        while at < commands.len()
            invariant
                at <= commands@.len(),
                all == texts(commands@),
                block@ == title + command_lines(all, at as int),
            decreases commands@.len() - at,
        {
            block.append("- ");
            block.append(commands[at].as_str());
            block.append("\n");
            at = at + 1;
            assert(block@ =~= title + command_lines(all, at as int));
        }
        block.append("\n");
    }
    block
}

/// Everything that an agent is told about a step.
pub fn build_step_prompt(workflow: &Workflow, step: &Step, context: &ExecutionContext) -> (r:
    String)
    ensures
        r@ == step_prompt(workflow, step, context@),
{
    let mut prompt =
        "You are executing a Conductor workflow step.\nReturn only JSON that matches the provided schema.\n\nWorkflow: ".to_owned();
    prompt.append(workflow.name.as_str());
    prompt.append("\nStep ID: ");
    prompt.append(step.id.as_str());
    prompt.append("\nStep Title: ");
    prompt.append(step.title.as_str());
    prompt.append("\nAgent Name: ");
    prompt.append(step.agent.as_str());
    prompt.append("\nWorkspace Root: ");
    prompt.append(context.workspace_root.as_str());
    prompt.append("\nHandoff File: ");
    prompt.append(context.handoff_path.as_str());
    prompt.append("\n");
    prompt.append(describe_commands(&step.run).as_str());
    let expanded = expand_step_prompt(workflow, step, context.handoff_markdown.as_str());
    let mut instructions = String::new();
    if !is_blank(expanded.as_str()) {
        instructions = "Step Instructions:\n".to_owned().concat(expanded.as_str()).concat("\n");
    }
    prompt.append(instructions.as_str());
    prompt.append(
        "\nPerform the requested work in the workspace, then report the outcome, current state for the next handoff, any open questions, and the next actions.",
    );
    prompt
}

/// Everything that the reviewing agent is told about a step.
pub fn build_review_prompt(
    gate: &ReviewGate,
    step: &Step,
    reviewer_agent: &str,
    context: &ExecutionContext,
    step_result: &StepAgentResult,
) -> (r: String)
    ensures
        r@ == review_prompt(gate, step, reviewer_agent@, context@, step_result@),
{
    let instructions = match &gate.instructions {
        Some(instructions) => instructions.as_str(),
        None => "No extra instructions.",
    };
    let state = match &step_result.current_state {
        Some(state) => state.as_str(),
        None => "No state provided.",
    };
    let mut prompt =
        "You are executing a Conductor review gate.\nReturn only JSON that matches the provided schema.\n\nReview Gate: ".to_owned();
    prompt.append(gate.name.as_str());
    prompt.append(" (");
    prompt.append(gate.id.as_str());
    prompt.append(")\nReviewer Agent: ");
    prompt.append(reviewer_agent);
    prompt.append("\nStep ID: ");
    prompt.append(step.id.as_str());
    prompt.append("\nStep Title: ");
    prompt.append(step.title.as_str());
    prompt.append("\nWorkspace Root: ");
    prompt.append(context.workspace_root.as_str());
    prompt.append("\nHandoff File: ");
    prompt.append(context.handoff_path.as_str());
    prompt.append("\n\nGate Instructions:\n");
    prompt.append(instructions);
    prompt.append("\n\nStep Summary:\n");
    prompt.append(step_result.summary.as_str());
    prompt.append("\n\nCurrent State:\n");
    prompt.append(state);
    prompt.append("\n\nOpen Questions:\n");
    prompt.append(markdown_list(&step_result.open_questions).as_str());
    prompt.append(
        "\n\nDecide whether the step is approved for the workflow to continue. If not approved, list concrete blocking issues.",
    );
    prompt
}

} // verus!
