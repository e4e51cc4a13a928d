//! That the rows of a generated workflow make sense where they stand, so that
//! its text can be read.

use vstd::prelude::*;

use super::analysis::{kind_name, AnalysisView};
use super::render::{
    agents_rows, bare, block_line, block_rows, brief_rows, command_rows, entry,
    final_review_end_rows, final_review_rows, head_rows, implement_end_rows, implement_rows, lead,
    middle_rows, opening_rows, plan_end_rows, plan_rows, preferences_part, preferred, quoted,
    review_brief_rows, review_gates_rows, review_plan_end_rows, review_plan_rows, second, section,
    snippet_names, snippet_rows, tail_rows, workflow_rows,
};
use super::yaml::{
    block_after, block_after_all, block_text, lemma_lines_single, lemma_rows_fit_appended,
    lemma_sanitized_single_line, lemma_single_line_appended, plain_key, row_fits, rows_fit,
    sanitized, single_line, RowView,
};
use crate::text::{lemma_first_position_unique, lines_of};

verus! {

/// The block that is open after the first `n` rows, where each of them makes
/// sense.
spec fn fitted(rows: Seq<RowView>, n: int, block: Option<nat>) -> Option<Option<nat>>
    decreases n,
{
    if n <= 0 {
        Some(block)
    } else {
        match fitted(rows, n - 1, block) {
            Some(open) => if row_fits(rows[n - 1], open) {
                Some(block_after(rows[n - 1], open))
            } else {
                None
            },
            None => None,
        }
    }
}

/// Rows that make sense one by one make sense together.
proof fn lemma_fitted(rows: Seq<RowView>, n: int, block: Option<nat>)
    requires
        0 <= n <= rows.len(),
        fitted(rows, n, block) is Some,
    ensures
        rows_fit(rows.take(n), block),
        block_after_all(rows.take(n), block) == fitted(rows, n, block)->0,
    decreases n,
{
    if n == 0 {
        assert(rows.take(0).len() == 0);
    } else {
        lemma_fitted(rows, n - 1, block);
        let one = seq![rows[n - 1]];
        lemma_rows_fit_appended(rows.take(n - 1), one, block);
        assert(rows.take(n) =~= rows.take(n - 1) + one);
        let open = fitted(rows, n - 1, block)->0;
        assert(one.drop_first().len() == 0);
        assert(rows_fit(one.drop_first(), block_after(one[0], open)));
        assert(rows_fit(one, open));
        assert(block_after_all(one.drop_first(), block_after(one[0], open)) == block_after(
            one[0],
            open,
        ));
        assert(block_after_all(one, open) == block_after(one[0], open));
    }
}

/// All of the rows make sense, and the block is open after them.
spec fn fit_up_to(rows: Seq<RowView>, block: Option<nat>, after: Option<nat>) -> bool {
    rows_fit(rows, block) && block_after_all(rows, block) == after
}

proof fn lemma_all_fitted(rows: Seq<RowView>, block: Option<nat>, after: Option<nat>)
    requires
        fitted(rows, rows.len() as int, block) == Some(after),
    ensures
        fit_up_to(rows, block, after),
{
    lemma_fitted(rows, rows.len() as int, block);
    assert(rows.take(rows.len() as int) =~= rows);
}

proof fn lemma_fit_appended(
    a: Seq<RowView>,
    b: Seq<RowView>,
    block: Option<nat>,
    between: Option<nat>,
    after: Option<nat>,
)
    requires
        fit_up_to(a, block, between),
        fit_up_to(b, between, after),
    ensures
        fit_up_to(a + b, block, after),
{
    lemma_rows_fit_appended(a, b, block);
}

proof fn lemma_plain_keys()
    ensures
        plain_key("version"@),
        plain_key("name"@),
        plain_key("description"@),
        plain_key("defaults"@),
        plain_key("auto_handoff"@),
        plain_key("review_required"@),
        plain_key("working_directory"@),
        plain_key("handoff"@),
        plain_key("path"@),
        plain_key("mode"@),
        plain_key("required_sections"@),
        plain_key("snippets"@),
        plain_key("custom_preferences"@),
        plain_key("project_brief"@),
        plain_key("trigger"@),
        plain_key("content"@),
        plain_key("review_brief"@),
        plain_key("agents"@),
        plain_key("provider"@),
        plain_key("model"@),
        plain_key("profile"@),
        plain_key("workspace"@),
        plain_key("steps"@),
        plain_key("id"@),
        plain_key("title"@),
        plain_key("agent"@),
        plain_key("prompt"@),
        plain_key("review"@),
        plain_key("required"@),
        plain_key("on_success"@),
        plain_key("handoff_to"@),
        plain_key("next_step"@),
        plain_key("route"@),
        plain_key("gate"@),
        plain_key("on_failure"@),
        plain_key("review_gates"@),
        plain_key("required_approvers"@),
        plain_key("instructions"@),
        plain_key("run"@),
{
    reveal_strlit("version");
    reveal_strlit("name");
    reveal_strlit("description");
    reveal_strlit("defaults");
    reveal_strlit("auto_handoff");
    reveal_strlit("review_required");
    reveal_strlit("working_directory");
    reveal_strlit("handoff");
    reveal_strlit("path");
    reveal_strlit("mode");
    reveal_strlit("required_sections");
    reveal_strlit("snippets");
    reveal_strlit("custom_preferences");
    reveal_strlit("project_brief");
    reveal_strlit("trigger");
    reveal_strlit("content");
    reveal_strlit("review_brief");
    reveal_strlit("agents");
    reveal_strlit("provider");
    reveal_strlit("model");
    reveal_strlit("profile");
    reveal_strlit("workspace");
    reveal_strlit("steps");
    reveal_strlit("id");
    reveal_strlit("title");
    reveal_strlit("agent");
    reveal_strlit("prompt");
    reveal_strlit("review");
    reveal_strlit("required");
    reveal_strlit("on_success");
    reveal_strlit("handoff_to");
    reveal_strlit("next_step");
    reveal_strlit("route");
    reveal_strlit("gate");
    reveal_strlit("on_failure");
    reveal_strlit("review_gates");
    reveal_strlit("required_approvers");
    reveal_strlit("instructions");
    reveal_strlit("run");
}

/// A value that needs no quotes.
spec fn plain_value(value: Seq<char>) -> bool {
    single_line(value) && value.len() > 0 && value[0] != '"'
}

proof fn lemma_plain_values()
    ensures
        plain_value("|"@),
        plain_value("true"@),
        plain_value("false"@),
        plain_value("1"@),
        "true"@ != "|"@,
        "false"@ != "|"@,
        "1"@ != "|"@,
{
    reveal_strlit("|");
    reveal_strlit("true");
    reveal_strlit("false");
    reveal_strlit("1");
    assert("|"@[0] == '|');
    assert("true"@[0] == 't');
    assert("false"@[0] == 'f');
    assert("1"@[0] == '1');
}

/// The agents of a generated workflow have names that can be keys, and that
/// differ.
pub proof fn lemma_agent_keys()
    ensures
        plain_key(lead()),
        plain_key(second()),
        lead() != second(),
{
    reveal_strlit("Claude_CLI");
    reveal_strlit("Codex_CLI");
    lemma_first_position_unique("Claude_CLI"@, '_', 6);
    lemma_first_position_unique("Codex_CLI"@, '_', 5);
    assert(lead().len() == 6);
    assert(second().len() == 5);
}

proof fn lemma_opening_fits(analysis: AnalysisView)
    ensures
        fit_up_to(opening_rows(analysis), None, None),
{
    lemma_plain_keys();
    lemma_plain_values();
    let rows = opening_rows(analysis);
    let block: Option<nat> = None;
    assert(fitted(rows, 0, block) == Some(Option::<nat>::None));
    assert(fitted(rows, 1, block) == Some(Option::<nat>::None));
    assert(fitted(rows, 2, block) == Some(Option::<nat>::None));
    assert(fitted(rows, 3, block) == Some(Option::<nat>::None));
    assert(fitted(rows, 4, block) == Some(Option::<nat>::None));
    assert(fitted(rows, 5, block) == Some(Option::<nat>::None));
    assert(fitted(rows, 6, block) == Some(Option::<nat>::None));
    assert(fitted(rows, 7, block) == Some(Option::<nat>::None));
    assert(fitted(rows, 8, block) == Some(Option::<nat>::None));
    assert(fitted(rows, 9, block) == Some(Option::<nat>::None));
    assert(fitted(rows, 10, block) == Some(Option::<nat>::None));
    assert(fitted(rows, 11, block) == Some(Option::<nat>::None));
    assert(fitted(rows, 12, block) == Some(Option::<nat>::None));
    assert(fitted(rows, 13, block) == Some(Option::<nat>::None));
    assert(fitted(rows, 14, block) == Some(Option::<nat>::None));
    assert(fitted(rows, 15, block) == Some(Option::<nat>::None));
    assert(fitted(rows, 16, block) == Some(Option::<nat>::None));
    assert(fitted(rows, 17, block) == Some(Option::<nat>::None));
    assert(fitted(rows, 18, block) == Some(Option::<nat>::None));
    lemma_all_fitted(rows, block, None);
}

proof fn lemma_place(name: Seq<char>)
    ensures
        single_line("You are working inside `"@ + sanitized(name) + "`."@),
{
    reveal_strlit("You are working inside `");
    reveal_strlit("`.");
    lemma_sanitized_single_line(name);
    lemma_single_line_appended("You are working inside `"@, sanitized(name));
    lemma_single_line_appended("You are working inside `"@ + sanitized(name), "`."@);
}

proof fn lemma_kind(analysis: AnalysisView)
    ensures
        single_line("Project type: "@ + kind_name(analysis.kind) + "."@),
{
    reveal_strlit("Project type: ");
    reveal_strlit(".");
    reveal_strlit("rust-cli");
    reveal_strlit("rust-library");
    reveal_strlit("node-app");
    reveal_strlit("python-app");
    reveal_strlit("generic");
    lemma_single_line_appended("Project type: "@, kind_name(analysis.kind));
    lemma_single_line_appended("Project type: "@ + kind_name(analysis.kind), "."@);
}

proof fn lemma_brief_fits(analysis: AnalysisView)
    ensures
        fit_up_to(brief_rows(analysis), None, Some(4)),
{
    lemma_plain_keys();
    lemma_plain_values();
    reveal_strlit("Keep changes cohesive, preserve handoff quality, and leave the next agent with a clear state summary.");
    lemma_place(analysis.name);
    lemma_kind(analysis);
    let rows = brief_rows(analysis);
    let block: Option<nat> = None;
    assert(fitted(rows, 0, block) == Some(Option::<nat>::None));
    assert(fitted(rows, 1, block) == Some(Option::<nat>::None));
    assert(fitted(rows, 2, block) == Some(Option::<nat>::None));
    assert(fitted(rows, 3, block) == Some(Option::<nat>::None));
    assert(fitted(rows, 4, block) == Some(Option::<nat>::Some(4)));
    assert(fitted(rows, 5, block) == Some(Option::<nat>::Some(4)));
    assert(fitted(rows, 6, block) == Some(Option::<nat>::Some(4)));
    assert(fitted(rows, 7, block) == Some(Option::<nat>::Some(4)));
    lemma_all_fitted(rows, block, Some(4));
}

proof fn lemma_review_brief_fits()
    ensures
        fit_up_to(review_brief_rows(), Some(4), Some(4)),
{
    lemma_plain_keys();
    lemma_plain_values();
    reveal_strlit("Review this change for correctness, regression risk, workflow integrity, and missing validation.");
    let rows = review_brief_rows();
    let block: Option<nat> = Some(4);
    assert(fitted(rows, 0, block) == Some(Option::<nat>::Some(4)));
    assert(fitted(rows, 1, block) == Some(Option::<nat>::None));
    assert(fitted(rows, 2, block) == Some(Option::<nat>::None));
    assert(fitted(rows, 3, block) == Some(Option::<nat>::None));
    assert(fitted(rows, 4, block) == Some(Option::<nat>::Some(4)));
    assert(fitted(rows, 5, block) == Some(Option::<nat>::Some(4)));
    assert(fitted(rows, 6, block) == Some(Option::<nat>::Some(4)));
    lemma_all_fitted(rows, block, Some(4));
}

proof fn lemma_agents_fits()
    ensures
        fit_up_to(agents_rows(), Some(4), None),
{
    lemma_plain_keys();
    lemma_plain_values();
    lemma_agent_keys();
    let rows = agents_rows();
    let block: Option<nat> = Some(4);
    assert(fitted(rows, 0, block) == Some(Option::<nat>::Some(4)));
    assert(fitted(rows, 1, block) == Some(Option::<nat>::None));
    assert(fitted(rows, 2, block) == Some(Option::<nat>::None));
    assert(fitted(rows, 3, block) == Some(Option::<nat>::None));
    assert(fitted(rows, 4, block) == Some(Option::<nat>::None));
    assert(fitted(rows, 5, block) == Some(Option::<nat>::None));
    assert(fitted(rows, 6, block) == Some(Option::<nat>::None));
    assert(fitted(rows, 7, block) == Some(Option::<nat>::None));
    assert(fitted(rows, 8, block) == Some(Option::<nat>::None));
    assert(fitted(rows, 9, block) == Some(Option::<nat>::None));
    assert(fitted(rows, 10, block) == Some(Option::<nat>::None));
    assert(fitted(rows, 11, block) == Some(Option::<nat>::None));
    assert(fitted(rows, 12, block) == Some(Option::<nat>::None));
    assert(fitted(rows, 13, block) == Some(Option::<nat>::None));
    lemma_all_fitted(rows, block, None);
}

proof fn lemma_plan_fits()
    ensures
        fit_up_to(plan_rows(), None, Some(4)),
{
    lemma_plain_keys();
    lemma_plain_values();
    reveal_strlit("Inspect the repository, identify the files likely to change, and propose a clean implementation plan.");
    reveal_strlit("Use ;;project.");
    let rows = plan_rows();
    let block: Option<nat> = None;
    assert(fitted(rows, 0, block) == Some(Option::<nat>::None));
    assert(fitted(rows, 1, block) == Some(Option::<nat>::None));
    assert(fitted(rows, 2, block) == Some(Option::<nat>::None));
    assert(fitted(rows, 3, block) == Some(Option::<nat>::None));
    assert(fitted(rows, 4, block) == Some(Option::<nat>::Some(4)));
    assert(fitted(rows, 5, block) == Some(Option::<nat>::Some(4)));
    assert(fitted(rows, 6, block) == Some(Option::<nat>::Some(4)));
    lemma_all_fitted(rows, block, Some(4));
}

proof fn lemma_plan_end_fits()
    ensures
        fit_up_to(plan_end_rows(), None, None),
{
    lemma_plain_keys();
    lemma_plain_values();
    let rows = plan_end_rows();
    let block: Option<nat> = None;
    assert(fitted(rows, 0, block) == Some(Option::<nat>::None));
    assert(fitted(rows, 1, block) == Some(Option::<nat>::None));
    assert(fitted(rows, 2, block) == Some(Option::<nat>::None));
    assert(fitted(rows, 3, block) == Some(Option::<nat>::None));
    assert(fitted(rows, 4, block) == Some(Option::<nat>::None));
    assert(fitted(rows, 5, block) == Some(Option::<nat>::None));
    assert(fitted(rows, 6, block) == Some(Option::<nat>::None));
    assert(fitted(rows, 7, block) == Some(Option::<nat>::None));
    lemma_all_fitted(rows, block, None);
}

proof fn lemma_review_plan_fits()
    ensures
        fit_up_to(review_plan_rows(), None, Some(4)),
{
    lemma_plain_keys();
    lemma_plain_values();
    reveal_strlit("Review the proposed plan, call out risks, and either approve it or force a retry.");
    reveal_strlit("Use ;;review.");
    let rows = review_plan_rows();
    let block: Option<nat> = None;
    assert(fitted(rows, 0, block) == Some(Option::<nat>::None));
    assert(fitted(rows, 1, block) == Some(Option::<nat>::None));
    assert(fitted(rows, 2, block) == Some(Option::<nat>::None));
    assert(fitted(rows, 3, block) == Some(Option::<nat>::None));
    assert(fitted(rows, 4, block) == Some(Option::<nat>::Some(4)));
    assert(fitted(rows, 5, block) == Some(Option::<nat>::Some(4)));
    assert(fitted(rows, 6, block) == Some(Option::<nat>::Some(4)));
    lemma_all_fitted(rows, block, Some(4));
}

proof fn lemma_review_plan_end_fits()
    ensures
        fit_up_to(review_plan_end_rows(), None, None),
{
    lemma_plain_keys();
    lemma_plain_values();
    let rows = review_plan_end_rows();
    let block: Option<nat> = None;
    assert(fitted(rows, 0, block) == Some(Option::<nat>::None));
    assert(fitted(rows, 1, block) == Some(Option::<nat>::None));
    assert(fitted(rows, 2, block) == Some(Option::<nat>::None));
    assert(fitted(rows, 3, block) == Some(Option::<nat>::None));
    assert(fitted(rows, 4, block) == Some(Option::<nat>::None));
    assert(fitted(rows, 5, block) == Some(Option::<nat>::None));
    assert(fitted(rows, 6, block) == Some(Option::<nat>::None));
    assert(fitted(rows, 7, block) == Some(Option::<nat>::None));
    assert(fitted(rows, 8, block) == Some(Option::<nat>::None));
    assert(fitted(rows, 9, block) == Some(Option::<nat>::None));
    assert(fitted(rows, 10, block) == Some(Option::<nat>::None));
    assert(fitted(rows, 11, block) == Some(Option::<nat>::None));
    assert(fitted(rows, 12, block) == Some(Option::<nat>::None));
    lemma_all_fitted(rows, block, None);
}

proof fn lemma_implement_fits()
    ensures
        fit_up_to(implement_rows(), None, Some(4)),
{
    lemma_plain_keys();
    lemma_plain_values();
    reveal_strlit("Implement the approved plan in the repository. Keep the handoff concise and specific.");
    let rows = implement_rows();
    let block: Option<nat> = None;
    assert(fitted(rows, 0, block) == Some(Option::<nat>::None));
    assert(fitted(rows, 1, block) == Some(Option::<nat>::None));
    assert(fitted(rows, 2, block) == Some(Option::<nat>::None));
    assert(fitted(rows, 3, block) == Some(Option::<nat>::None));
    assert(fitted(rows, 4, block) == Some(Option::<nat>::Some(4)));
    assert(fitted(rows, 5, block) == Some(Option::<nat>::Some(4)));
    lemma_all_fitted(rows, block, Some(4));
}

proof fn lemma_implement_end_fits()
    ensures
        fit_up_to(implement_end_rows(), None, None),
{
    lemma_plain_keys();
    lemma_plain_values();
    let rows = implement_end_rows();
    let block: Option<nat> = None;
    assert(fitted(rows, 0, block) == Some(Option::<nat>::None));
    assert(fitted(rows, 1, block) == Some(Option::<nat>::None));
    assert(fitted(rows, 2, block) == Some(Option::<nat>::None));
    assert(fitted(rows, 3, block) == Some(Option::<nat>::None));
    assert(fitted(rows, 4, block) == Some(Option::<nat>::None));
    assert(fitted(rows, 5, block) == Some(Option::<nat>::None));
    assert(fitted(rows, 6, block) == Some(Option::<nat>::None));
    assert(fitted(rows, 7, block) == Some(Option::<nat>::None));
    assert(fitted(rows, 8, block) == Some(Option::<nat>::None));
    lemma_all_fitted(rows, block, None);
}

proof fn lemma_final_review_fits()
    ensures
        fit_up_to(final_review_rows(), None, Some(4)),
{
    lemma_plain_keys();
    lemma_plain_values();
    reveal_strlit("Perform final review, verify the change is shippable, and confirm the handoff is complete.");
    let rows = final_review_rows();
    let block: Option<nat> = None;
    assert(fitted(rows, 0, block) == Some(Option::<nat>::None));
    assert(fitted(rows, 1, block) == Some(Option::<nat>::None));
    assert(fitted(rows, 2, block) == Some(Option::<nat>::None));
    assert(fitted(rows, 3, block) == Some(Option::<nat>::None));
    assert(fitted(rows, 4, block) == Some(Option::<nat>::Some(4)));
    assert(fitted(rows, 5, block) == Some(Option::<nat>::Some(4)));
    lemma_all_fitted(rows, block, Some(4));
}

proof fn lemma_final_review_end_fits()
    ensures
        fit_up_to(final_review_end_rows(), None, None),
{
    lemma_plain_keys();
    lemma_plain_values();
    let rows = final_review_end_rows();
    let block: Option<nat> = None;
    assert(fitted(rows, 0, block) == Some(Option::<nat>::None));
    assert(fitted(rows, 1, block) == Some(Option::<nat>::None));
    assert(fitted(rows, 2, block) == Some(Option::<nat>::None));
    assert(fitted(rows, 3, block) == Some(Option::<nat>::None));
    assert(fitted(rows, 4, block) == Some(Option::<nat>::None));
    assert(fitted(rows, 5, block) == Some(Option::<nat>::None));
    assert(fitted(rows, 6, block) == Some(Option::<nat>::None));
    lemma_all_fitted(rows, block, None);
}

proof fn lemma_review_gates_fits()
    ensures
        fit_up_to(review_gates_rows(), None, None),
{
    lemma_plain_keys();
    lemma_plain_values();
    let rows = review_gates_rows();
    let block: Option<nat> = None;
    assert(fitted(rows, 0, block) == Some(Option::<nat>::None));
    assert(fitted(rows, 1, block) == Some(Option::<nat>::None));
    assert(fitted(rows, 2, block) == Some(Option::<nat>::None));
    assert(fitted(rows, 3, block) == Some(Option::<nat>::None));
    assert(fitted(rows, 4, block) == Some(Option::<nat>::None));
    assert(fitted(rows, 5, block) == Some(Option::<nat>::None));
    assert(fitted(rows, 6, block) == Some(Option::<nat>::None));
    assert(fitted(rows, 7, block) == Some(Option::<nat>::None));
    assert(fitted(rows, 8, block) == Some(Option::<nat>::None));
    assert(fitted(rows, 9, block) == Some(Option::<nat>::None));
    lemma_all_fitted(rows, block, None);
}

proof fn lemma_entries_fit(commands: Seq<Seq<char>>, n: int)
    requires
        0 <= n <= commands.len(),
    ensures
        fitted(command_rows(commands), n, None) == Some(Option::<nat>::None),
    decreases n,
{
    if n > 0 {
        lemma_entries_fit(commands, n - 1);
        assert(command_rows(commands)[n - 1] == entry(6, commands[n - 1]));
    }
}

proof fn lemma_commands_fit(commands: Seq<Seq<char>>)
    ensures
        fit_up_to(command_rows(commands), None, None),
{
    lemma_entries_fit(commands, commands.len() as int);
    lemma_all_fitted(command_rows(commands), None, None);
}

proof fn lemma_key_fits(key: Seq<char>, block: Option<nat>)
    requires
        plain_key(key),
        block matches Some(indent) ==> indent == 4,
    ensures
        fit_up_to(seq![section(4, key)], block, None),
{
    let rows = seq![section(4, key)];
    assert(fitted(rows, 0, block) == Some(block));
    assert(fitted(rows, 1, block) == Some(Option::<nat>::None));
    lemma_all_fitted(rows, block, None);
}

proof fn lemma_snippets_fit(base: Seq<Seq<char>>, with_preferences: bool)
    requires
        snippet_names(base, with_preferences).len() > 0,
    ensures
        fit_up_to(snippet_rows(base, with_preferences), Some(4), None),
{
    let names = snippet_names(base, with_preferences);
    lemma_plain_keys();
    lemma_key_fits("snippets"@, Some(4));
    lemma_commands_fit(names);
    lemma_fit_appended(
        seq![section(4, "snippets"@)],
        command_rows(names),
        Some(4),
        None,
        None,
    );
}

proof fn lemma_step_fits(
    a: Seq<RowView>,
    name: Seq<char>,
    with_preferences: bool,
    b: Seq<RowView>,
)
    requires
        fit_up_to(a, None, Some(4)),
        fit_up_to(b, None, None),
    ensures
        fit_up_to(a + snippet_rows(seq![name], with_preferences) + b, None, None),
{
    let snippets = snippet_rows(seq![name], with_preferences);
    lemma_snippets_fit(seq![name], with_preferences);
    lemma_fit_appended(a, snippets, None, Some(4), None);
    lemma_fit_appended(a + snippets, b, None, None, None);
}

proof fn lemma_run_fits(with_preferences: bool)
    ensures
        fit_up_to(
            implement_rows() + snippet_rows(Seq::empty(), with_preferences) + seq![
                section(4, "run"@),
            ],
            None,
            None,
        ),
{
    let snippets = snippet_rows(Seq::empty(), with_preferences);
    let run = seq![section(4, "run"@)];
    lemma_implement_fits();
    lemma_plain_keys();
    if with_preferences {
        lemma_snippets_fit(Seq::empty(), true);
        lemma_fit_appended(implement_rows(), snippets, None, Some(4), None);
        lemma_key_fits("run"@, None);
        lemma_fit_appended(implement_rows() + snippets, run, None, None, None);
    } else {
        lemma_key_fits("run"@, Some(4));
        assert(implement_rows() + snippets =~= implement_rows());
        lemma_fit_appended(implement_rows(), run, None, Some(4), None);
    }
}

proof fn lemma_middle_fits(with_preferences: bool)
    ensures
        fit_up_to(middle_rows(with_preferences), Some(4), None),
{
    let plan = plan_rows() + snippet_rows(seq!["project_brief"@], with_preferences)
        + plan_end_rows();
    let review = review_plan_rows() + snippet_rows(seq!["review_brief"@], with_preferences)
        + review_plan_end_rows();
    let implement = implement_rows() + snippet_rows(Seq::empty(), with_preferences) + seq![
        section(4, "run"@),
    ];
    lemma_review_brief_fits();
    lemma_agents_fits();
    let a = review_brief_rows() + agents_rows();
    lemma_fit_appended(review_brief_rows(), agents_rows(), Some(4), Some(4), None);
    lemma_plan_fits();
    lemma_plan_end_fits();
    lemma_step_fits(plan_rows(), "project_brief"@, with_preferences, plan_end_rows());
    lemma_fit_appended(a, plan, Some(4), None, None);
    lemma_review_plan_fits();
    lemma_review_plan_end_fits();
    lemma_step_fits(review_plan_rows(), "review_brief"@, with_preferences, review_plan_end_rows());
    lemma_fit_appended(a + plan, review, Some(4), None, None);
    lemma_run_fits(with_preferences);
    lemma_fit_appended(a + plan + review, implement, Some(4), None, None);
}

proof fn lemma_tail_fits(with_preferences: bool)
    ensures
        fit_up_to(tail_rows(with_preferences), None, None),
{
    let last = final_review_rows() + snippet_rows(seq!["review_brief"@], with_preferences)
        + final_review_end_rows();
    lemma_implement_end_fits();
    lemma_final_review_fits();
    lemma_final_review_end_fits();
    lemma_step_fits(
        final_review_rows(),
        "review_brief"@,
        with_preferences,
        final_review_end_rows(),
    );
    lemma_fit_appended(implement_end_rows(), last, None, None, None);
    lemma_review_gates_fits();
    lemma_fit_appended(implement_end_rows() + last, review_gates_rows(), None, None, None);
}

proof fn lemma_block_fits(lines: Seq<Seq<char>>, n: int)
    requires
        0 <= n <= lines.len(),
        forall|i: int| 0 <= i < lines.len() ==> single_line(#[trigger] lines[i]),
    ensures
        fitted(block_rows(lines), n, Some(4)) == Some(Option::<nat>::Some(4)),
    decreases n,
{
    if n > 0 {
        lemma_block_fits(lines, n - 1);
        assert(block_rows(lines)[n - 1] == block_line(6, lines[n - 1]));
    }
}

proof fn lemma_preferences_fit(preferences: Option<Seq<char>>)
    requires
        writable(preferences),
    ensures
        fit_up_to(preferences_part(preferences), Some(4), Some(4)),
{
    if preferred(preferences) {
        let lines = lines_of(preferences->0);
        let head = seq![
            section(2, "custom_preferences"@),
            quoted(4, "trigger"@, ";;prefs"@),
            quoted(4, "description"@, "User-provided generation preferences."@),
            bare(4, "content"@, "|"@),
        ];
        let block: Option<nat> = Some(4);
        lemma_plain_keys();
        lemma_plain_values();
        assert(fitted(head, 0, block) == Some(block));
        assert(fitted(head, 1, block) == Some(Option::<nat>::None));
        assert(fitted(head, 2, block) == Some(Option::<nat>::None));
        assert(fitted(head, 3, block) == Some(Option::<nat>::None));
        assert(fitted(head, 4, block) == Some(block));
        lemma_all_fitted(head, block, block);
        lemma_lines_single(preferences->0);
        lemma_block_fits(lines, lines.len() as int);
        lemma_all_fitted(block_rows(lines), block, block);
        lemma_fit_appended(head, block_rows(lines), block, block, block);
    }
}

/// Whether preferences can be written into a workflow that is read back: there
/// are none worth mentioning, or their lines can be those of a literal block.
pub open spec fn writable(preferences: Option<Seq<char>>) -> bool {
    preferred(preferences) ==> block_text(preferences->0)
}

/// The rows of a generated workflow make sense where they stand.
pub proof fn lemma_workflow_fits(analysis: AnalysisView, preferences: Option<Seq<char>>)
    requires
        writable(preferences),
    ensures
        rows_fit(workflow_rows(analysis, preferences), None),
{
    let commands = command_rows(analysis.validation_commands);
    let middle = middle_rows(preferred(preferences));
    let tail = tail_rows(preferred(preferences));
    let head = head_rows(analysis);
    let part = preferences_part(preferences);
    lemma_opening_fits(analysis);
    lemma_brief_fits(analysis);
    lemma_fit_appended(opening_rows(analysis), brief_rows(analysis), None, None, Some(4));
    lemma_preferences_fit(preferences);
    lemma_fit_appended(head, part, None, Some(4), Some(4));
    lemma_middle_fits(preferred(preferences));
    lemma_fit_appended(head + part, middle, None, Some(4), None);
    lemma_commands_fit(analysis.validation_commands);
    lemma_fit_appended(head + part + middle, commands, None, None, None);
    lemma_tail_fits(preferred(preferences));
    lemma_fit_appended(head + part + middle + commands, tail, None, None, None);
}

} // verus!
