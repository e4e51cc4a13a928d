//! The text of a generated workflow.

use vstd::prelude::*;
use vstd::string::*;

use super::analysis::{kind_name, AnalysisView, ProjectAnalysis, ProjectKind};
use super::yaml::{
    escaped, law_plain_text_is_not_changed, lemma_row_stands_in_text, push_all, push_bare, push_blank, push_entry, push_item, push_quoted,
    push_section, push_text, row_text, row_views, rows_text, sanitize_yaml_scalar, sanitized,
    write_rows, Row, RowView,
};
use crate::names::{command_name, command_of, review_role, review_role_name};
use crate::text::{blank, contains, is_blank, lines, lines_of, optional, texts};
use crate::workflow::model::ConductorAgent;

verus! {

// ---------------------------------------------------------------------------
// Rows
// ---------------------------------------------------------------------------

/// A key whose value follows.
pub open spec fn section(indent: nat, key: Seq<char>) -> RowView {
    RowView::Section { indent, key }
}

/// A key with a text in quotes.
pub open spec fn quoted(indent: nat, key: Seq<char>, value: Seq<char>) -> RowView {
    RowView::Quoted { indent, item: false, key, value }
}

/// A key with a text in quotes that begins an entry of a list.
pub open spec fn item(indent: nat, key: Seq<char>, value: Seq<char>) -> RowView {
    RowView::Quoted { indent, item: true, key, value }
}

/// A key with a value as it stands.
pub open spec fn bare(indent: nat, key: Seq<char>, value: Seq<char>) -> RowView {
    RowView::Bare { indent, key, value }
}

/// An entry of a list.
pub open spec fn entry(indent: nat, value: Seq<char>) -> RowView {
    RowView::Entry { indent, value }
}

/// A line of a literal block.
pub open spec fn block_line(indent: nat, text: Seq<char>) -> RowView {
    RowView::Text { indent, text }
}

// ---------------------------------------------------------------------------
// The parts of a workflow
// ---------------------------------------------------------------------------

/// The agent that leads.
pub open spec fn lead() -> Seq<char> {
    command_of(ConductorAgent::ClaudeCode)
}

/// The agent that reviews.
pub open spec fn second() -> Seq<char> {
    command_of(ConductorAgent::OpenAiCodex)
}

/// What the workflow of a project is for.
pub open spec fn description_of(kind: ProjectKind) -> Seq<char> {
    match kind {
        ProjectKind::RustCli =>
            "Coordinate implementation, review, and validation for a Rust CLI project."@,
        ProjectKind::RustLibrary =>
            "Coordinate implementation, review, and validation for a Rust library project."@,
        ProjectKind::NodeApp =>
            "Coordinate implementation, review, and validation for a Node application."@,
        ProjectKind::PythonApp =>
            "Coordinate implementation, review, and validation for a Python project."@,
        ProjectKind::Generic =>
            "Coordinate implementation, review, and validation for a software project."@,
    }
}

/// What a workflow is, and how it keeps its notes.
pub open spec fn opening_rows(analysis: AnalysisView) -> Seq<RowView> {
    seq![
        quoted(0, "version"@, "1"@),
        quoted(0, "name"@, analysis.name + "-generated"@),
        quoted(0, "description"@, description_of(analysis.kind)),
        RowView::Blank,
        section(0, "defaults"@),
        bare(2, "auto_handoff"@, "true"@),
        bare(2, "review_required"@, "true"@),
        quoted(2, "working_directory"@, "."@),
        RowView::Blank,
        section(0, "handoff"@),
        quoted(2, "path"@, "handover.md"@),
        quoted(2, "mode"@, "append"@),
        section(2, "required_sections"@),
        entry(4, "Current State"@),
        entry(4, "Open Questions"@),
        entry(4, "Next Actions"@),
        RowView::Blank,
        section(0, "snippets"@),
    ]
}

/// What agents are told of a project.
pub open spec fn brief_rows(analysis: AnalysisView) -> Seq<RowView> {
    seq![
        section(2, "project_brief"@),
        quoted(4, "trigger"@, ";;project"@),
        quoted(4, "description"@, "Project-specific delivery brief generated by Conductor regen."@),
        bare(4, "content"@, "|"@),
        block_line(6, "You are working inside `"@ + sanitized(analysis.name) + "`."@),
        block_line(6, "Project type: "@ + kind_name(analysis.kind) + "."@),
        block_line(6, "Keep changes cohesive, preserve handoff quality, and leave the next agent with a clear state summary."@),
    ]
}

/// What agents are told of a review.
pub open spec fn review_brief_rows() -> Seq<RowView> {
    seq![
        section(2, "review_brief"@),
        quoted(4, "trigger"@, ";;review"@),
        quoted(4, "description"@, "Standard review request."@),
        bare(4, "content"@, "|"@),
        block_line(6, "Review this change for correctness, regression risk, workflow integrity, and missing validation."@),
        RowView::Blank,
    ]
}

/// The agents: one that leads, and one that reviews.
pub open spec fn agents_rows() -> Seq<RowView> {
    seq![
        section(0, "agents"@),
        section(2, lead()),
        quoted(4, "provider"@, "claude_code"@),
        quoted(4, "model"@, "sonnet"@),
        quoted(4, "profile"@, "implementer"@),
        quoted(4, "workspace"@, "."@),
        section(2, second()),
        quoted(4, "provider"@, "open_ai_codex"@),
        quoted(4, "model"@, "gpt-5.4"@),
        quoted(4, "profile"@, review_role()),
        quoted(4, "workspace"@, "."@),
        RowView::Blank,
        section(0, "steps"@),
    ]
}

/// The first step, up to its snippets.
pub open spec fn plan_rows() -> Seq<RowView> {
    seq![
        item(2, "id"@, "plan"@),
        quoted(4, "title"@, "Analyze the task and prepare the execution plan"@),
        quoted(4, "agent"@, lead()),
        bare(4, "prompt"@, "|"@),
        block_line(6, "Inspect the repository, identify the files likely to change, and propose a clean implementation plan."@),
        block_line(6, "Use ;;project."@),
    ]
}

/// The first step, from its review on.
pub open spec fn plan_end_rows() -> Seq<RowView> {
    seq![
        section(4, "review"@),
        bare(6, "required"@, "false"@),
        section(4, "on_success"@),
        quoted(6, "handoff_to"@, second()),
        quoted(6, "next_step"@, "review_plan"@),
        quoted(6, "route"@, "continue"@),
        RowView::Blank,
    ]
}

/// The second step, up to its snippets.
pub open spec fn review_plan_rows() -> Seq<RowView> {
    seq![
        item(2, "id"@, "review_plan"@),
        quoted(4, "title"@, "Review the plan before implementation"@),
        quoted(4, "agent"@, second()),
        bare(4, "prompt"@, "|"@),
        block_line(6, "Review the proposed plan, call out risks, and either approve it or force a retry."@),
        block_line(6, "Use ;;review."@),
    ]
}

/// The second step, from its review on.
pub open spec fn review_plan_end_rows() -> Seq<RowView> {
    seq![
        section(4, "review"@),
        quoted(6, "gate"@, "quality_gate"@),
        bare(6, "required"@, "true"@),
        section(4, "on_success"@),
        quoted(6, "handoff_to"@, lead()),
        quoted(6, "next_step"@, "implement"@),
        quoted(6, "route"@, "continue"@),
        section(4, "on_failure"@),
        quoted(6, "handoff_to"@, lead()),
        quoted(6, "next_step"@, "plan"@),
        quoted(6, "route"@, "retry"@),
        RowView::Blank,
    ]
}

/// The third step, up to its snippets.
pub open spec fn implement_rows() -> Seq<RowView> {
    seq![
        item(2, "id"@, "implement"@),
        quoted(4, "title"@, "Implement the approved changes"@),
        quoted(4, "agent"@, lead()),
        bare(4, "prompt"@, "|"@),
        block_line(6, "Implement the approved plan in the repository. Keep the handoff concise and specific."@),
    ]
}

/// The third step, from its review on.
pub open spec fn implement_end_rows() -> Seq<RowView> {
    seq![
        section(4, "review"@),
        quoted(6, "gate"@, "quality_gate"@),
        bare(6, "required"@, "true"@),
        section(4, "on_success"@),
        quoted(6, "handoff_to"@, second()),
        quoted(6, "next_step"@, "final_review"@),
        quoted(6, "route"@, "continue"@),
        RowView::Blank,
    ]
}

/// The last step, up to its snippets.
pub open spec fn final_review_rows() -> Seq<RowView> {
    seq![
        item(2, "id"@, "final_review"@),
        quoted(4, "title"@, "Approve the final result"@),
        quoted(4, "agent"@, second()),
        bare(4, "prompt"@, "|"@),
        block_line(6, "Perform final review, verify the change is shippable, and confirm the handoff is complete."@),
    ]
}

/// The last step, from its review on.
pub open spec fn final_review_end_rows() -> Seq<RowView> {
    seq![
        section(4, "review"@),
        quoted(6, "gate"@, "release_gate"@),
        bare(6, "required"@, "true"@),
        section(4, "on_success"@),
        quoted(6, "route"@, "halt"@),
        RowView::Blank,
    ]
}

/// The review gates.
pub open spec fn review_gates_rows() -> Seq<RowView> {
    seq![
        section(0, "review_gates"@),
        item(2, "id"@, "quality_gate"@),
        quoted(4, "name"@, "Quality Gate"@),
        bare(4, "required_approvers"@, "1"@),
        quoted(4, "instructions"@, "Validate design coherence, correctness, and project-specific checks."@),
        item(2, "id"@, "release_gate"@),
        quoted(4, "name"@, "Release Gate"@),
        bare(4, "required_approvers"@, "1"@),
        quoted(4, "instructions"@, "Confirm the result is ready to merge or release."@),
    ]
}

/// The commands of a step.
pub open spec fn command_rows(commands: Seq<Seq<char>>) -> Seq<RowView> {
    commands.map_values(|command: Seq<char>| entry(6, command))
}

/// The lines of a literal block.
pub open spec fn block_rows(lines: Seq<Seq<char>>) -> Seq<RowView> {
    lines.map_values(|line: Seq<char>| block_line(6, line))
}

/// The snippet that holds the preferences of the user.
pub open spec fn preferences_rows(preferences: Seq<char>) -> Seq<RowView> {
    seq![
        section(2, "custom_preferences"@),
        quoted(4, "trigger"@, ";;prefs"@),
        quoted(4, "description"@, "User-provided generation preferences."@),
        bare(4, "content"@, "|"@),
    ] + block_rows(lines_of(preferences))
}

/// The names of the snippets of a step: a base, if there is one, and the
/// preferences of the user, if there are any.
pub open spec fn snippet_names(base: Seq<Seq<char>>, with_preferences: bool) -> Seq<Seq<char>> {
    if with_preferences {
        base.push("custom_preferences"@)
    } else {
        base
    }
}

/// The names of snippets as entries of a list, each between quotes as it is.
pub open spec fn listed(names: Seq<Seq<char>>) -> Seq<char>
    decreases names.len(),
{
    if names.len() == 0 {
        Seq::empty()
    } else {
        "      - \""@ + names[0] + "\"\n"@ + listed(names.drop_first())
    }
}

/// The text that names the snippets of a step. A step without snippets does not
/// mention them.
pub open spec fn snippets_text(base: Seq<Seq<char>>, with_preferences: bool) -> Seq<char> {
    let snippets = snippet_names(base, with_preferences);
    if snippets.len() == 0 {
        Seq::empty()
    } else {
        "    snippets:\n"@ + listed(snippets)
    }
}

/// The rows that name the snippets of a step.
pub open spec fn snippet_rows(base: Seq<Seq<char>>, with_preferences: bool) -> Seq<RowView> {
    let snippets = snippet_names(base, with_preferences);
    if snippets.len() == 0 {
        Seq::empty()
    } else {
        seq![section(4, "snippets"@)] + command_rows(snippets)
    }
}

/// Whether there are preferences worth mentioning.
pub open spec fn preferred(preferences: Option<Seq<char>>) -> bool {
    preferences matches Some(text) && !blank(text)
}

/// The snippet that holds the preferences of the user, if there are any.
pub open spec fn preferences_part(preferences: Option<Seq<char>>) -> Seq<RowView> {
    if preferred(preferences) {
        preferences_rows(preferences->0)
    } else {
        Seq::empty()
    }
}

/// The rows before the preferences of the user.
pub open spec fn head_rows(analysis: AnalysisView) -> Seq<RowView> {
    opening_rows(analysis) + brief_rows(analysis)
}

/// The rows from the preferences of the user to the commands.
pub open spec fn middle_rows(with_preferences: bool) -> Seq<RowView> {
    review_brief_rows() + agents_rows() + (plan_rows() + snippet_rows(
        seq!["project_brief"@],
        with_preferences,
    ) + plan_end_rows()) + (review_plan_rows() + snippet_rows(
        seq!["review_brief"@],
        with_preferences,
    ) + review_plan_end_rows()) + (implement_rows() + snippet_rows(
        Seq::empty(),
        with_preferences,
    ) + seq![section(4, "run"@)])
}

/// The rows after the commands.
pub open spec fn tail_rows(with_preferences: bool) -> Seq<RowView> {
    implement_end_rows() + (final_review_rows() + snippet_rows(
        seq!["review_brief"@],
        with_preferences,
    ) + final_review_end_rows()) + review_gates_rows()
}

/// The rows of the workflow for a project.
pub open spec fn workflow_rows(analysis: AnalysisView, preferences: Option<Seq<char>>) -> Seq<
    RowView,
> {
    head_rows(analysis) + preferences_part(preferences) + middle_rows(preferred(preferences))
        + command_rows(analysis.validation_commands) + tail_rows(preferred(preferences))
}

/// The text of the workflow for a project.
#[verifier::opaque]
pub open spec fn workflow_text(analysis: AnalysisView, preferences: Option<Seq<char>>) -> Seq<
    char,
> {
    rows_text(workflow_rows(analysis, preferences))
}

// ---------------------------------------------------------------------------
// Laws
// ---------------------------------------------------------------------------

/// Every command that checks a project is run in its workflow, quoted.
pub proof fn law_checks_reach_the_workflow(
    analysis: AnalysisView,
    preferences: Option<Seq<char>>,
    i: int,
)
    requires
        0 <= i < analysis.validation_commands.len(),
    ensures
        contains(
            workflow_text(analysis, preferences),
            row_text(entry(6, analysis.validation_commands[i])) + "\n"@,
        ),
{
    reveal(workflow_text);
    let before = head_rows(analysis) + preferences_part(preferences) + middle_rows(
        preferred(preferences),
    );
    let rows = workflow_rows(analysis, preferences);
    assert(rows[before.len() + i] == entry(6, analysis.validation_commands[i]));
    lemma_row_stands_in_text(rows, before.len() + i);
}

/// Every line of the preferences of the user stands in the workflow.
pub proof fn law_preferences_reach_the_workflow(
    analysis: AnalysisView,
    preferences: Seq<char>,
    i: int,
)
    requires
        !blank(preferences),
        0 <= i < lines_of(preferences).len(),
    ensures
        contains(
            workflow_text(analysis, Some(preferences)),
            row_text(block_line(6, lines_of(preferences)[i])) + "\n"@,
        ),
{
    reveal(workflow_text);
    let before = head_rows(analysis);
    let rows = workflow_rows(analysis, Some(preferences));
    assert(preferences_rows(preferences)[4 + i] == block_line(6, lines_of(preferences)[i]));
    assert(rows[before.len() + 4 + i] == block_line(6, lines_of(preferences)[i]));
    lemma_row_stands_in_text(rows, before.len() + 4 + i);
}

/// Preferences that say nothing leave the workflow as it is without any.
pub proof fn law_blank_preferences_change_nothing(analysis: AnalysisView, preferences: Seq<char>)
    requires
        blank(preferences),
    ensures
        workflow_text(analysis, Some(preferences)) == workflow_text(analysis, None),
{
    reveal(workflow_text);
}

/// A document says what the workflow of a project of its kind is for.
pub proof fn law_descriptions(kind: ProjectKind)
    ensures
        kind == ProjectKind::RustCli ==> description_of(kind)
            == "Coordinate implementation, review, and validation for a Rust CLI project."@,
        kind == ProjectKind::RustLibrary ==> description_of(kind)
            == "Coordinate implementation, review, and validation for a Rust library project."@,
        kind == ProjectKind::NodeApp ==> description_of(kind)
            == "Coordinate implementation, review, and validation for a Node application."@,
        kind == ProjectKind::PythonApp ==> description_of(kind)
            == "Coordinate implementation, review, and validation for a Python project."@,
        kind == ProjectKind::Generic ==> description_of(kind)
            == "Coordinate implementation, review, and validation for a software project."@,
{
}

/// The documents of two projects with the same commands differ in four rows at most:
/// the name, the description, and what agents are told of the name and the kind.
pub proof fn law_documents_differ_in_four_rows(
    one: AnalysisView,
    other: AnalysisView,
    preferences: Option<Seq<char>>,
    i: int,
)
    requires
        one.validation_commands == other.validation_commands,
    ensures
        ({
            let rows = workflow_rows(one, preferences);
            let others = workflow_rows(other, preferences);
            &&& rows.len() == others.len() && rows.len() > 25
            &&& 0 <= i < rows.len() && i != 1 && i != 2 && i != 22 && i != 23 ==> rows[i]
                == others[i]
            &&& rows[1] == (RowView::Quoted {
                indent: 0,
                item: false,
                key: "name"@,
                value: one.name + "-generated"@,
            })
            &&& rows[2] == (RowView::Quoted {
                indent: 0,
                item: false,
                key: "description"@,
                value: description_of(one.kind),
            })
            &&& rows[22] == (RowView::Text {
                indent: 6,
                text: "You are working inside `"@ + sanitized(one.name) + "`."@,
            })
            &&& rows[23] == (RowView::Text {
                indent: 6,
                text: "Project type: "@ + kind_name(one.kind) + "."@,
            })
        }),
{
    let part = preferences_part(preferences);
    let middle = middle_rows(preferred(preferences));
    let commands = command_rows(one.validation_commands);
    let tail = tail_rows(preferred(preferences));
    let rest = part + middle + commands + tail;
    assert(workflow_rows(one, preferences) =~= head_rows(one) + rest);
    assert(workflow_rows(other, preferences) =~= head_rows(other) + rest);
    assert(head_rows(one).len() == 25);
    if 0 <= i < 25 && i != 1 && i != 2 && i != 22 && i != 23 {
        if i < 18 {
            assert(head_rows(one)[i] == opening_rows(one)[i]);
            assert(opening_rows(one)[i] == opening_rows(other)[i]);
        } else {
            assert(head_rows(one)[i] == brief_rows(one)[i - 18]);
            assert(brief_rows(one)[i - 18] == brief_rows(other)[i - 18]);
        }
    }
}

/// The commands of a project stand in its document in order, one to a row, at one
/// place; all the rest is the same whatever they are.
pub proof fn law_commands_have_their_place(
    analysis: AnalysisView,
    preferences: Option<Seq<char>>,
)
    ensures
        ({
            let none = AnalysisView { validation_commands: Seq::empty(), ..analysis };
            let rows = workflow_rows(analysis, preferences);
            let others = workflow_rows(none, preferences);
            let commands = analysis.validation_commands;
            exists|n: int|
                0 < n <= others.len() && others[n - 1] == (RowView::Section {
                    indent: 4,
                    key: "run"@,
                }) && rows == #[trigger] others.take(n) + commands.map_values(
                    |command: Seq<char>| RowView::Entry { indent: 6, value: command },
                ) + others.skip(n)
        }),
{
    let none = AnalysisView { validation_commands: Seq::empty(), ..analysis };
    let rows = workflow_rows(analysis, preferences);
    let others = workflow_rows(none, preferences);
    let before = head_rows(analysis) + preferences_part(preferences) + middle_rows(
        preferred(preferences),
    );
    let n = before.len() as int;
    let tail = tail_rows(preferred(preferences));
    assert(head_rows(none) =~= head_rows(analysis));
    assert(command_rows(Seq::empty()) =~= Seq::<RowView>::empty());
    assert(others =~= before + tail);
    assert(others.take(n) =~= before);
    assert(others.skip(n) =~= tail);
    assert(command_rows(analysis.validation_commands) =~= analysis.validation_commands.map_values(
        |command: Seq<char>| RowView::Entry { indent: 6, value: command },
    ));
    assert(rows =~= others.take(n) + analysis.validation_commands.map_values(
        |command: Seq<char>| RowView::Entry { indent: 6, value: command },
    ) + others.skip(n));
    assert(others[n - 1] == middle_rows(preferred(preferences)).last());
}

/// Preferences add a snippet, with their lines, to a document, and its name to the
/// snippets of every step; all the rest is as it is without any.
pub proof fn law_preferences_add_a_snippet(analysis: AnalysisView, preferences: Seq<char>)
    requires
        !blank(preferences),
    ensures
        ({
            let rows = workflow_rows(analysis, Some(preferences));
            let plain = workflow_rows(analysis, None);
            let lines = lines_of(preferences);
            let rest = plain.skip(25);
            let named = seq![RowView::Entry { indent: 6, value: "custom_preferences"@ }];
            let m = analysis.validation_commands.len() as int;
            rows == plain.take(25) + seq![
                RowView::Section { indent: 2, key: "custom_preferences"@ },
                RowView::Quoted { indent: 4, item: false, key: "trigger"@, value: ";;prefs"@ },
                RowView::Quoted {
                    indent: 4,
                    item: false,
                    key: "description"@,
                    value: "User-provided generation preferences."@,
                },
                RowView::Bare { indent: 4, key: "content"@, value: "|"@ },
            ] + lines.map_values(|line: Seq<char>| RowView::Text { indent: 6, text: line })
                + rest.take(27) + named + rest.subrange(27, 42) + named + rest.subrange(42, 59)
                + seq![RowView::Section { indent: 4, key: "snippets"@ }] + named + rest.subrange(59, 75 + m) + named
                + rest.skip(75 + m)
        }),
{
    let plain = workflow_rows(analysis, None);
    let lines = lines_of(preferences);
    let rest = plain.skip(25);
    let commands = command_rows(analysis.validation_commands);
    let m = analysis.validation_commands.len() as int;
    let named = seq![entry(6, "custom_preferences"@)];
    let head = head_rows(analysis);
    let part = preferences_part(Some(preferences));
    let a = before_first_names();
    let b = before_second_names();
    let c = before_third_names();
    let d = before_last_names(commands);
    let e = after_names();
    lemma_part_lengths(commands);
    lemma_rows_in_parts(analysis, Some(preferences));
    lemma_rows_in_parts(analysis, None);
    assert(plain =~= head + a + b + c + d + e);
    assert(head.len() == 25);
    lemma_slices(head, a, b, c, d, e);
    assert(block_rows(lines) =~= lines.map_values(
        |line: Seq<char>| RowView::Text { indent: 6, text: line },
    ));
    let title = seq![
        section(2, "custom_preferences"@),
        quoted(4, "trigger"@, ";;prefs"@),
        quoted(4, "description"@, "User-provided generation preferences."@),
        bare(4, "content"@, "|"@),
    ];
    assert(part == title + block_rows(lines));
    assert(head + part =~= head + title + block_rows(lines));
    let before = head + part + a + named + b + named + c;
    assert(before + (seq![section(4, "snippets"@)] + named) =~= before + seq![
        section(4, "snippets"@),
    ] + named);
}

/// The rows up to the names of the snippets of the first step, preferences aside.
spec fn before_first_names() -> Seq<RowView> {
    review_brief_rows() + agents_rows() + plan_rows() + snippet_rows(
        seq!["project_brief"@],
        false,
    )
}

/// The rows up to the names of the second step.
spec fn before_second_names() -> Seq<RowView> {
    plan_end_rows() + review_plan_rows() + snippet_rows(seq!["review_brief"@], false)
}

/// The rows up to the names of the third step.
spec fn before_third_names() -> Seq<RowView> {
    review_plan_end_rows() + implement_rows()
}

/// The rows up to the names of the last step.
spec fn before_last_names(commands: Seq<RowView>) -> Seq<RowView> {
    seq![section(4, "run"@)] + commands + (implement_end_rows() + final_review_rows()
        + snippet_rows(seq!["review_brief"@], false))
}

/// The rows after the names of the last step.
spec fn after_names() -> Seq<RowView> {
    final_review_end_rows() + review_gates_rows()
}

proof fn lemma_part_lengths(commands: Seq<RowView>)
    ensures
        before_first_names().len() == 27,
        before_second_names().len() == 15,
        before_third_names().len() == 17,
        before_last_names(commands).len() == 16 + commands.len(),
{
    lemma_snippets_with_preferences(seq!["project_brief"@]);
    lemma_snippets_with_preferences(seq!["review_brief"@]);
}

proof fn lemma_slices(
    head: Seq<RowView>,
    a: Seq<RowView>,
    b: Seq<RowView>,
    c: Seq<RowView>,
    d: Seq<RowView>,
    e: Seq<RowView>,
)
    ensures
        ({
            let all = head + a + b + c + d + e;
            let rest = all.skip(head.len() as int);
            let i = a.len() as int;
            let j = i + b.len();
            let k = j + c.len();
            let l = k + d.len();
            &&& all.take(head.len() as int) == head
            &&& rest.take(i) == a
            &&& rest.subrange(i, j) == b
            &&& rest.subrange(j, k) == c
            &&& rest.subrange(k, l) == d
            &&& rest.skip(l) == e
        }),
{
    let all = head + a + b + c + d + e;
    let rest = all.skip(head.len() as int);
    let i = a.len() as int;
    let j = i + b.len();
    let k = j + c.len();
    let l = k + d.len();
    assert(rest =~= a + b + c + d + e);
    assert(all.take(head.len() as int) =~= head);
    assert(rest.take(i) =~= a);
    assert(rest.subrange(i, j) =~= b);
    assert(rest.subrange(j, k) =~= c);
    assert(rest.subrange(k, l) =~= d);
    assert(rest.skip(l) =~= e);
}

proof fn lemma_rows_in_parts(analysis: AnalysisView, preferences: Option<Seq<char>>)
    ensures
        ({
            let with = preferred(preferences);
            let named = if with {
                seq![entry(6, "custom_preferences"@)]
            } else {
                Seq::empty()
            };
            let third = if with {
                seq![section(4, "snippets"@)] + named
            } else {
                Seq::empty()
            };
            workflow_rows(analysis, preferences) == head_rows(analysis) + preferences_part(
                preferences,
            ) + before_first_names() + named + before_second_names() + named + before_third_names()
                + third + before_last_names(command_rows(analysis.validation_commands)) + named
                + after_names()
        }),
{
    let with = preferred(preferences);
    let named = if with {
        seq![entry(6, "custom_preferences"@)]
    } else {
        Seq::empty()
    };
    let third = if with {
        seq![section(4, "snippets"@)] + named
    } else {
        Seq::empty()
    };
    let one = snippet_rows(seq!["project_brief"@], false);
    let two = snippet_rows(seq!["review_brief"@], false);
    lemma_snippets_with_preferences(seq!["project_brief"@]);
    lemma_snippets_with_preferences(seq!["review_brief"@]);
    assert(snippet_rows(seq!["project_brief"@], with) =~= one + named);
    assert(snippet_rows(seq!["review_brief"@], with) =~= two + named);
    assert(snippet_rows(Seq::empty(), with) =~= third);
    let run = seq![section(4, "run"@)];
    lemma_regrouped_middle(
        review_brief_rows() + agents_rows(),
        plan_rows(),
        one,
        plan_end_rows(),
        review_plan_rows(),
        two,
        review_plan_end_rows(),
        implement_rows() + third + run,
        named,
    );
    lemma_regrouped_tail(
        implement_end_rows(),
        final_review_rows(),
        two,
        final_review_end_rows(),
        review_gates_rows(),
        named,
    );
    lemma_regrouped(
        head_rows(analysis) + preferences_part(preferences),
        before_first_names() + named + before_second_names() + named,
        review_plan_end_rows(),
        implement_rows(),
        third,
        run,
        command_rows(analysis.validation_commands),
        implement_end_rows() + final_review_rows() + two,
        named,
        after_names(),
    );
    let start = head_rows(analysis) + preferences_part(preferences);
    assert(start + (before_first_names() + named + before_second_names() + named) =~= start
        + before_first_names() + named + before_second_names() + named);
}

proof fn lemma_regrouped_middle(
    x: Seq<RowView>,
    y: Seq<RowView>,
    one: Seq<RowView>,
    z: Seq<RowView>,
    u: Seq<RowView>,
    two: Seq<RowView>,
    v: Seq<RowView>,
    w: Seq<RowView>,
    named: Seq<RowView>,
)
    ensures
        x + (y + (one + named) + z) + (u + (two + named) + v) + w == (x + y + one) + named + (z + u
            + two) + named + v + w,
{
    assert(x + (y + (one + named) + z) =~= (x + y + one) + named + z);
    let left = (x + y + one) + named;
    assert((left + z) + (u + (two + named) + v) =~= left + (z + u + two) + named + v);
}

proof fn lemma_regrouped_tail(
    x: Seq<RowView>,
    y: Seq<RowView>,
    two: Seq<RowView>,
    z: Seq<RowView>,
    u: Seq<RowView>,
    named: Seq<RowView>,
)
    ensures
        x + (y + (two + named) + z) + u == (x + y + two) + named + (z + u),
{
    assert(x + (y + (two + named) + z) + u =~= (x + y + two) + named + (z + u));
}

proof fn lemma_regrouped(
    start: Seq<RowView>,
    x: Seq<RowView>,
    y: Seq<RowView>,
    z: Seq<RowView>,
    third: Seq<RowView>,
    run: Seq<RowView>,
    commands: Seq<RowView>,
    u: Seq<RowView>,
    named: Seq<RowView>,
    end: Seq<RowView>,
)
    ensures
        start + (x + y + (z + third + run)) + commands + (u + named + end) == start + x + (y + z)
            + third + (run + commands + u) + named + end,
{
    assert(start + (x + y + (z + third + run)) =~= start + x + (y + z) + third + run);
    let left = start + x + (y + z) + third;
    assert((left + run) + commands + (u + named + end) =~= left + (run + commands + u) + named
        + end);
}

proof fn lemma_snippets_with_preferences(base: Seq<Seq<char>>)
    requires
        base.len() > 0,
    ensures
        snippet_rows(base, true) == snippet_rows(base, false) + seq![
            entry(6, "custom_preferences"@),
        ],
        snippet_rows(base, false).len() == base.len() + 1,
{
    assert(snippet_rows(base, true) =~= snippet_rows(base, false) + seq![
        entry(6, "custom_preferences"@),
    ]);
}

/// The text of a document is that of its rows.
pub proof fn law_text_is_that_of_the_rows(analysis: AnalysisView, preferences: Option<Seq<char>>)
    ensures
        workflow_text(analysis, preferences) == rows_text(workflow_rows(analysis, preferences)),
{
    reveal(workflow_text);
}

/// The names of snippets are listed one to a line, in order and as they are, after a
/// title, and that of the preferences comes last; nothing is listed where there is
/// none.
pub proof fn law_snippets_are_listed(base: Seq<Seq<char>>, name: Seq<char>)
    ensures
        listed(base.push(name)) == listed(base) + "      - \""@ + name + "\"\n"@,
        listed(Seq::empty()).len() == 0,
        snippets_text(Seq::empty(), false).len() == 0,
        base.len() > 0 ==> snippets_text(base, false) == "    snippets:\n"@ + listed(base),
        snippets_text(base, true) == "    snippets:\n"@ + listed(
            base.push("custom_preferences"@),
        ),
    decreases base.len(),
{
    if base.len() > 0 {
        let rest = base.drop_first();
        law_snippets_are_listed(rest, name);
        assert(base.push(name).drop_first() =~= rest.push(name));
        assert(listed(base.push(name)) =~= listed(base) + "      - \""@ + name + "\"\n"@);
    } else {
        let one = base.push(name);
        assert(one.drop_first().len() == 0);
        assert(listed(one.drop_first()) =~= Seq::<char>::empty());
        assert(listed(one) =~= listed(base) + "      - \""@ + name + "\"\n"@);
    }
}

/// Whether a text is written between quotes as it is.
pub open spec fn needs_no_escape(text: Seq<char>) -> bool {
    forall|i: int| 0 <= i < text.len() ==> escaped(#[trigger] text[i]) == seq![text[i]]
}

/// Snippets are named in the workflow by the rows of its document, where their
/// names are written as they are.
pub proof fn law_snippets_are_rows(base: Seq<Seq<char>>, with_preferences: bool)
    requires
        forall|i: int| 0 <= i < base.len() ==> needs_no_escape(#[trigger] base[i]),
    ensures
        snippets_text(base, with_preferences) == rows_text(snippet_rows(base, with_preferences)),
{
    let snippets = snippet_names(base, with_preferences);
    assert forall|i: int| 0 <= i < snippets.len() implies needs_no_escape(
        #[trigger] snippets[i],
    ) by {
        if i < base.len() {
            assert(snippets[i] == base[i]);
        } else {
            reveal_strlit("custom_preferences");
        }
    }
    lemma_listed(snippets);
    if snippets.len() > 0 {
        let first = section(4, "snippets"@);
        let rows = snippet_rows(base, with_preferences);
        assert(rows[0] == first);
        assert(rows.drop_first() =~= command_rows(snippets));
        reveal_strlit("    snippets:\n");
        reveal_strlit("snippets");
        reveal_strlit(":");
        reveal_strlit("\n");
        assert(row_text(first) + "\n"@ =~= "    snippets:\n"@);
    }
}

proof fn lemma_listed(names: Seq<Seq<char>>)
    requires
        forall|i: int| 0 <= i < names.len() ==> needs_no_escape(#[trigger] names[i]),
    ensures
        listed(names) == rows_text(command_rows(names)),
    decreases names.len(),
{
    if names.len() > 0 {
        let rest = names.drop_first();
        assert forall|i: int| 0 <= i < rest.len() implies needs_no_escape(#[trigger] rest[i]) by {
            assert(rest[i] == names[i + 1]);
        }
        lemma_listed(rest);
        assert(needs_no_escape(names[0]));
        law_plain_text_is_not_changed(names[0]);
        assert(command_rows(names)[0] == entry(6, names[0]));
        assert(command_rows(names).drop_first() =~= command_rows(rest));
        reveal_strlit("      - \"");
        reveal_strlit("\"\n");
        reveal_strlit("- ");
        reveal_strlit("\"");
        reveal_strlit("\n");
        assert(row_text(entry(6, names[0])) + "\n"@ =~= "      - \""@ + names[0] + "\"\n"@);
    }
}

// ---------------------------------------------------------------------------
// Operations
// ---------------------------------------------------------------------------

/// What the workflow of a project is for.
fn description_for(kind: ProjectKind) -> (r: &'static str)
    ensures
        r@ == description_of(kind),
{
    match kind {
        ProjectKind::RustCli =>
            "Coordinate implementation, review, and validation for a Rust CLI project.",
        ProjectKind::RustLibrary =>
            "Coordinate implementation, review, and validation for a Rust library project.",
        ProjectKind::NodeApp =>
            "Coordinate implementation, review, and validation for a Node application.",
        ProjectKind::PythonApp =>
            "Coordinate implementation, review, and validation for a Python project.",
        ProjectKind::Generic =>
            "Coordinate implementation, review, and validation for a software project.",
    }
}

/// What a workflow is, and how it keeps its notes.
fn write_opening(analysis: &ProjectAnalysis) -> (rows: Vec<Row>)
    ensures
        row_views(rows@) == opening_rows(analysis@),
{
    let mut rows: Vec<Row> = Vec::new();
    assert(row_views(rows@) =~= Seq::empty());
    let name = analysis.name.clone().concat("-generated");
    push_quoted(&mut rows, 0, "version", "1");
    push_quoted(&mut rows, 0, "name", name.as_str());
    push_quoted(&mut rows, 0, "description", description_for(analysis.kind));
    push_blank(&mut rows);
    push_section(&mut rows, 0, "defaults");
    push_bare(&mut rows, 2, "auto_handoff", "true");
    push_bare(&mut rows, 2, "review_required", "true");
    push_quoted(&mut rows, 2, "working_directory", ".");
    push_blank(&mut rows);
    push_section(&mut rows, 0, "handoff");
    push_quoted(&mut rows, 2, "path", "handover.md");
    push_quoted(&mut rows, 2, "mode", "append");
    push_section(&mut rows, 2, "required_sections");
    push_entry(&mut rows, 4, "Current State");
    push_entry(&mut rows, 4, "Open Questions");
    push_entry(&mut rows, 4, "Next Actions");
    push_blank(&mut rows);
    push_section(&mut rows, 0, "snippets");
    rows
}

/// What agents are told of a project.
fn write_brief(analysis: &ProjectAnalysis) -> (rows: Vec<Row>)
    ensures
        row_views(rows@) == brief_rows(analysis@),
{
    let mut rows: Vec<Row> = Vec::new();
    assert(row_views(rows@) =~= Seq::empty());
    let place = "You are working inside `".to_owned().concat(
        sanitize_yaml_scalar(analysis.name.as_str()).as_str(),
    ).concat("`.");
    let kind = "Project type: ".to_owned().concat(analysis.kind.as_str()).concat(".");
    push_section(&mut rows, 2, "project_brief");
    push_quoted(&mut rows, 4, "trigger", ";;project");
    push_quoted(&mut rows, 4, "description", "Project-specific delivery brief generated by Conductor regen.");
    push_bare(&mut rows, 4, "content", "|");
    push_text(&mut rows, 6, place.as_str());
    push_text(&mut rows, 6, kind.as_str());
    push_text(&mut rows, 6, "Keep changes cohesive, preserve handoff quality, and leave the next agent with a clear state summary.");
    rows
}

/// What agents are told of a review.
fn write_review_brief() -> (rows: Vec<Row>)
    ensures
        row_views(rows@) == review_brief_rows(),
{
    let mut rows: Vec<Row> = Vec::new();
    assert(row_views(rows@) =~= Seq::empty());
    push_section(&mut rows, 2, "review_brief");
    push_quoted(&mut rows, 4, "trigger", ";;review");
    push_quoted(&mut rows, 4, "description", "Standard review request.");
    push_bare(&mut rows, 4, "content", "|");
    push_text(&mut rows, 6, "Review this change for correctness, regression risk, workflow integrity, and missing validation.");
    push_blank(&mut rows);
    rows
}

/// The agents: one that leads, and one that reviews.
fn write_agents() -> (rows: Vec<Row>)
    ensures
        row_views(rows@) == agents_rows(),
{
    let mut rows: Vec<Row> = Vec::new();
    assert(row_views(rows@) =~= Seq::empty());
    let lead = command_name(ConductorAgent::ClaudeCode);
    let second = command_name(ConductorAgent::OpenAiCodex);
    let role = review_role_name();
    push_section(&mut rows, 0, "agents");
    push_section(&mut rows, 2, lead.as_str());
    push_quoted(&mut rows, 4, "provider", "claude_code");
    push_quoted(&mut rows, 4, "model", "sonnet");
    push_quoted(&mut rows, 4, "profile", "implementer");
    push_quoted(&mut rows, 4, "workspace", ".");
    push_section(&mut rows, 2, second.as_str());
    push_quoted(&mut rows, 4, "provider", "open_ai_codex");
    push_quoted(&mut rows, 4, "model", "gpt-5.4");
    push_quoted(&mut rows, 4, "profile", role.as_str());
    push_quoted(&mut rows, 4, "workspace", ".");
    push_blank(&mut rows);
    push_section(&mut rows, 0, "steps");
    rows
}

/// The first step, up to its snippets.
fn write_plan() -> (rows: Vec<Row>)
    ensures
        row_views(rows@) == plan_rows(),
{
    let mut rows: Vec<Row> = Vec::new();
    assert(row_views(rows@) =~= Seq::empty());
    let lead = command_name(ConductorAgent::ClaudeCode);
    push_item(&mut rows, 2, "id", "plan");
    push_quoted(&mut rows, 4, "title", "Analyze the task and prepare the execution plan");
    push_quoted(&mut rows, 4, "agent", lead.as_str());
    push_bare(&mut rows, 4, "prompt", "|");
    push_text(&mut rows, 6, "Inspect the repository, identify the files likely to change, and propose a clean implementation plan.");
    push_text(&mut rows, 6, "Use ;;project.");
    rows
}

/// The first step, from its review on.
fn write_plan_end() -> (rows: Vec<Row>)
    ensures
        row_views(rows@) == plan_end_rows(),
{
    let mut rows: Vec<Row> = Vec::new();
    assert(row_views(rows@) =~= Seq::empty());
    let second = command_name(ConductorAgent::OpenAiCodex);
    push_section(&mut rows, 4, "review");
    push_bare(&mut rows, 6, "required", "false");
    push_section(&mut rows, 4, "on_success");
    push_quoted(&mut rows, 6, "handoff_to", second.as_str());
    push_quoted(&mut rows, 6, "next_step", "review_plan");
    push_quoted(&mut rows, 6, "route", "continue");
    push_blank(&mut rows);
    rows
}

/// The second step, up to its snippets.
fn write_review_plan() -> (rows: Vec<Row>)
    ensures
        row_views(rows@) == review_plan_rows(),
{
    let mut rows: Vec<Row> = Vec::new();
    assert(row_views(rows@) =~= Seq::empty());
    let second = command_name(ConductorAgent::OpenAiCodex);
    push_item(&mut rows, 2, "id", "review_plan");
    push_quoted(&mut rows, 4, "title", "Review the plan before implementation");
    push_quoted(&mut rows, 4, "agent", second.as_str());
    push_bare(&mut rows, 4, "prompt", "|");
    push_text(&mut rows, 6, "Review the proposed plan, call out risks, and either approve it or force a retry.");
    push_text(&mut rows, 6, "Use ;;review.");
    rows
}

/// The second step, from its review on.
fn write_review_plan_end() -> (rows: Vec<Row>)
    ensures
        row_views(rows@) == review_plan_end_rows(),
{
    let mut rows: Vec<Row> = Vec::new();
    assert(row_views(rows@) =~= Seq::empty());
    let lead = command_name(ConductorAgent::ClaudeCode);
    push_section(&mut rows, 4, "review");
    push_quoted(&mut rows, 6, "gate", "quality_gate");
    push_bare(&mut rows, 6, "required", "true");
    push_section(&mut rows, 4, "on_success");
    push_quoted(&mut rows, 6, "handoff_to", lead.as_str());
    push_quoted(&mut rows, 6, "next_step", "implement");
    push_quoted(&mut rows, 6, "route", "continue");
    push_section(&mut rows, 4, "on_failure");
    push_quoted(&mut rows, 6, "handoff_to", lead.as_str());
    push_quoted(&mut rows, 6, "next_step", "plan");
    push_quoted(&mut rows, 6, "route", "retry");
    push_blank(&mut rows);
    rows
}

/// The third step, up to its snippets.
fn write_implement() -> (rows: Vec<Row>)
    ensures
        row_views(rows@) == implement_rows(),
{
    let mut rows: Vec<Row> = Vec::new();
    assert(row_views(rows@) =~= Seq::empty());
    let lead = command_name(ConductorAgent::ClaudeCode);
    push_item(&mut rows, 2, "id", "implement");
    push_quoted(&mut rows, 4, "title", "Implement the approved changes");
    push_quoted(&mut rows, 4, "agent", lead.as_str());
    push_bare(&mut rows, 4, "prompt", "|");
    push_text(&mut rows, 6, "Implement the approved plan in the repository. Keep the handoff concise and specific.");
    rows
}

/// The third step, from its review on.
fn write_implement_end() -> (rows: Vec<Row>)
    ensures
        row_views(rows@) == implement_end_rows(),
{
    let mut rows: Vec<Row> = Vec::new();
    assert(row_views(rows@) =~= Seq::empty());
    let second = command_name(ConductorAgent::OpenAiCodex);
    push_section(&mut rows, 4, "review");
    push_quoted(&mut rows, 6, "gate", "quality_gate");
    push_bare(&mut rows, 6, "required", "true");
    push_section(&mut rows, 4, "on_success");
    push_quoted(&mut rows, 6, "handoff_to", second.as_str());
    push_quoted(&mut rows, 6, "next_step", "final_review");
    push_quoted(&mut rows, 6, "route", "continue");
    push_blank(&mut rows);
    rows
}

/// The last step, up to its snippets.
fn write_final_review() -> (rows: Vec<Row>)
    ensures
        row_views(rows@) == final_review_rows(),
{
    let mut rows: Vec<Row> = Vec::new();
    assert(row_views(rows@) =~= Seq::empty());
    let second = command_name(ConductorAgent::OpenAiCodex);
    push_item(&mut rows, 2, "id", "final_review");
    push_quoted(&mut rows, 4, "title", "Approve the final result");
    push_quoted(&mut rows, 4, "agent", second.as_str());
    push_bare(&mut rows, 4, "prompt", "|");
    push_text(&mut rows, 6, "Perform final review, verify the change is shippable, and confirm the handoff is complete.");
    rows
}

/// The last step, from its review on.
fn write_final_review_end() -> (rows: Vec<Row>)
    ensures
        row_views(rows@) == final_review_end_rows(),
{
    let mut rows: Vec<Row> = Vec::new();
    assert(row_views(rows@) =~= Seq::empty());
    push_section(&mut rows, 4, "review");
    push_quoted(&mut rows, 6, "gate", "release_gate");
    push_bare(&mut rows, 6, "required", "true");
    push_section(&mut rows, 4, "on_success");
    push_quoted(&mut rows, 6, "route", "halt");
    push_blank(&mut rows);
    rows
}

/// The review gates.
fn write_review_gates() -> (rows: Vec<Row>)
    ensures
        row_views(rows@) == review_gates_rows(),
{
    let mut rows: Vec<Row> = Vec::new();
    assert(row_views(rows@) =~= Seq::empty());
    push_section(&mut rows, 0, "review_gates");
    push_item(&mut rows, 2, "id", "quality_gate");
    push_quoted(&mut rows, 4, "name", "Quality Gate");
    push_bare(&mut rows, 4, "required_approvers", "1");
    push_quoted(&mut rows, 4, "instructions", "Validate design coherence, correctness, and project-specific checks.");
    push_item(&mut rows, 2, "id", "release_gate");
    push_quoted(&mut rows, 4, "name", "Release Gate");
    push_bare(&mut rows, 4, "required_approvers", "1");
    push_quoted(&mut rows, 4, "instructions", "Confirm the result is ready to merge or release.");
    rows
}

/// The commands of a step.
fn write_commands(commands: &Vec<String>) -> (rows: Vec<Row>)
    ensures
        row_views(rows@) == command_rows(texts(commands@)),
{
    let ghost all = command_rows(texts(commands@));
    let mut rows: Vec<Row> = Vec::new();
    let mut at: usize = 0;
    assert(row_views(rows@) =~= all.take(0));
    while at < commands.len()
        invariant
            at <= commands@.len(),
            all == command_rows(texts(commands@)),
            row_views(rows@) == all.take(at as int),
        decreases commands@.len() - at,
    {
        push_entry(&mut rows, 6, commands[at].as_str());
        assert(all.take(at + 1) =~= all.take(at as int).push(all[at as int]));
        at = at + 1;
    }
    assert(all.take(at as int) =~= all);
    rows
}

/// The snippet that holds the preferences of the user.
fn write_preferences(preferences: &str) -> (rows: Vec<Row>)
    ensures
        row_views(rows@) == preferences_rows(preferences@),
{
    let mut rows: Vec<Row> = Vec::new();
    assert(row_views(rows@) =~= Seq::empty());
    push_section(&mut rows, 2, "custom_preferences");
    push_quoted(&mut rows, 4, "trigger", ";;prefs");
    push_quoted(&mut rows, 4, "description", "User-provided generation preferences.");
    push_bare(&mut rows, 4, "content", "|");
    let ghost head = row_views(rows@);
    let parts = lines(preferences);
    let ghost all = block_rows(texts(parts@));
    let mut at: usize = 0;
    assert(row_views(rows@) =~= head + all.take(0));
    while at < parts.len()
        invariant
            at <= parts@.len(),
            all == block_rows(texts(parts@)),
            row_views(rows@) == head + all.take(at as int),
        decreases parts@.len() - at,
    {
        push_text(&mut rows, 6, parts[at].as_str());
        assert(row_views(rows@) =~= head + all.take(at + 1));
        at = at + 1;
    }
    assert(all.take(at as int) =~= all);
    rows
}

/// The snippets of a step.
fn write_snippets(base: &Vec<String>, with_preferences: bool) -> (rows: Vec<Row>)
    ensures
        row_views(rows@) == snippet_rows(texts(base@), with_preferences),
{
    let mut rows: Vec<Row> = Vec::new();
    assert(row_views(rows@) =~= Seq::empty());
    if base.len() == 0 && !with_preferences {
        return rows;
    }
    push_section(&mut rows, 4, "snippets");
    push_all(&mut rows, write_commands(base));
    if with_preferences {
        push_entry(&mut rows, 6, "custom_preferences");
        assert(row_views(rows@) =~= snippet_rows(texts(base@), with_preferences));
    }
    assert(row_views(rows@) =~= snippet_rows(texts(base@), with_preferences));
    rows
}

/// A list of one text.
fn only(text: &str) -> (r: Vec<String>)
    ensures
        texts(r@) == seq![text@],
{
    let mut r: Vec<String> = Vec::new();
    r.push(text.to_owned());
    assert(texts(r@) =~= seq![text@]);
    r
}

/// The commands of a project as items of a list.
pub fn build_commands_for_analysis(analysis: &ProjectAnalysis) -> (r: String)
    ensures
        r@ == rows_text(command_rows(analysis@.validation_commands)),
{
    write_rows(&write_commands(&analysis.validation_commands))
}

/// The snippet that holds the preferences of the user.
pub fn render_preferences_block(preferences: &str) -> (r: String)
    ensures
        r@ == rows_text(preferences_rows(preferences@)),
{
    write_rows(&write_preferences(preferences))
}

/// The text that names the snippets of a step.
pub fn render_step_snippets(base: &Vec<String>, with_preferences: bool) -> (r: String)
    ensures
        r@ == snippets_text(texts(base@), with_preferences),
{
    let ghost all = snippet_names(texts(base@), with_preferences);
    let mut r = String::new();
    if base.len() == 0 && !with_preferences {
        assert(r@ =~= Seq::empty());
        return r;
    }
    r = "    snippets:\n".to_owned();
    let ghost head = r@;
    let mut at: usize = 0;
    assert(all.skip(0) =~= all);
    while at < base.len()
        invariant
            at <= base@.len(),
            all == snippet_names(texts(base@), with_preferences),
            r@ + listed(all.skip(at as int)) == head + listed(all),
        decreases base@.len() - at,
    {
        let ghost before = r@;
        let ghost rest = all.skip(at as int);
        let line = "      - \"".to_owned().concat(base[at].as_str()).concat("\"\n");
        r = r.concat(line.as_str());
        assert(rest[0] == base@[at as int]@);
        assert(rest.drop_first() =~= all.skip(at + 1));
        assert(r@ + listed(rest.drop_first()) =~= before + (line@ + listed(rest.drop_first())));
        at = at + 1;
    }
    if with_preferences {
        let ghost before = r@;
        let ghost rest = all.skip(at as int);
        r = r.concat("      - \"").concat("custom_preferences").concat("\"\n");
        assert(rest.drop_first().len() == 0);
        assert(rest[0] == "custom_preferences"@);
        assert(listed(rest.drop_first()) =~= Seq::empty());
        assert(listed(rest) =~= "      - \""@ + rest[0] + "\"\n"@);
        assert(r@ =~= before + listed(rest));
    } else {
        assert(r@ + listed(all.skip(at as int)) =~= r@);
    }
    r
}

/// The rows from the preferences of the user to the commands.
fn write_middle(with_preferences: bool) -> (rows: Vec<Row>)
    ensures
        row_views(rows@) == middle_rows(with_preferences),
{
    let none: Vec<String> = Vec::new();
    assert(texts(none@) =~= Seq::empty());
    let mut rows = write_review_brief();
    push_all(&mut rows, write_agents());
    let mut plan = write_plan();
    push_all(&mut plan, write_snippets(&only("project_brief"), with_preferences));
    push_all(&mut plan, write_plan_end());
    push_all(&mut rows, plan);
    let mut review = write_review_plan();
    push_all(&mut review, write_snippets(&only("review_brief"), with_preferences));
    push_all(&mut review, write_review_plan_end());
    push_all(&mut rows, review);
    let mut implement = write_implement();
    push_all(&mut implement, write_snippets(&none, with_preferences));
    let ghost before = row_views(implement@);
    push_section(&mut implement, 4, "run");
    assert(row_views(implement@) =~= before + seq![section(4, "run"@)]);
    push_all(&mut rows, implement);
    rows
}

/// The rows after the commands.
fn write_tail(with_preferences: bool) -> (rows: Vec<Row>)
    ensures
        row_views(rows@) == tail_rows(with_preferences),
{
    let mut rows = write_implement_end();
    let mut last = write_final_review();
    push_all(&mut last, write_snippets(&only("review_brief"), with_preferences));
    push_all(&mut last, write_final_review_end());
    push_all(&mut rows, last);
    push_all(&mut rows, write_review_gates());
    rows
}

/// The text of the workflow for a project.
pub fn render_workflow_yaml(
    analysis: &ProjectAnalysis,
    custom_preferences: &Option<String>,
) -> (r: String)
    ensures
        r@ == workflow_text(analysis@, optional(*custom_preferences)),
{
    reveal(workflow_text);
    let mut with_preferences = false;
    let mut rows = write_opening(analysis);
    push_all(&mut rows, write_brief(analysis));
    let ghost head = row_views(rows@);
    assert(head + Seq::<RowView>::empty() =~= head);
    if let Some(text) = custom_preferences {
        if !is_blank(text.as_str()) {
            with_preferences = true;
            push_all(&mut rows, write_preferences(text.as_str()));
        }
    }
    push_all(&mut rows, write_middle(with_preferences));
    push_all(&mut rows, write_commands(&analysis.validation_commands));
    push_all(&mut rows, write_tail(with_preferences));
    write_rows(&rows)
}

} // verus!
