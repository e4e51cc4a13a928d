//! The handoff file, which tells each agent what the ones before it did.

use vstd::prelude::*;
use vstd::string::*;

use super::types::{
    AgentResultView, ContextView, ExecutionContext, FileRead, FileReadView, StepAgentResult,
};
use crate::error::{outcome, WorkflowError, WorkflowErrorView};
use crate::text::{
    blank, contains, is_blank, join, joined, law_joined_parts, lemma_contains_part,
    lemma_contains_within, same, texts,
};
use crate::workflow::model::{HandoffMode, Step};
use crate::workflow::validate::lemma_joined_contains;

verus! {

/// The handoff file of a workflow.
pub struct HandoffStore {
    /// Where the file is.
    pub path: String,
    /// What becomes of earlier entries.
    pub mode: HandoffMode,
    /// The headings that every entry has.
    pub required_sections: Vec<String>,
}

// ---------------------------------------------------------------------------
// Meaning
// ---------------------------------------------------------------------------

/// The name of a mode.
pub open spec fn mode_name(mode: HandoffMode) -> Seq<char> {
    match mode {
        HandoffMode::Append => "append"@,
        HandoffMode::Replace => "replace"@,
    }
}

/// Each item as a bullet of a list.
pub open spec fn bullets(items: Seq<Seq<char>>) -> Seq<Seq<char>> {
    items.map_values(|item: Seq<char>| "- "@ + item)
}

/// The items as a list, which is never empty.
pub open spec fn list_of(items: Seq<Seq<char>>) -> Seq<char> {
    if items.len() == 0 {
        "- None"@
    } else {
        joined(bullets(items), "\n"@)
    }
}

/// The state that an agent left behind: its summary, where it names no other.
pub open spec fn state_of(result: AgentResultView) -> Seq<char> {
    match result.current_state {
        Some(state) => state,
        None => result.summary,
    }
}

/// The section of an entry under the given heading.
pub open spec fn section_of(heading: Seq<char>, result: AgentResultView) -> Seq<char> {
    if heading == "Current State"@ {
        "### Current State\n"@ + state_of(result)
    } else if heading == "Open Questions"@ {
        "### Open Questions\n"@ + list_of(result.open_questions)
    } else if heading == "Next Actions"@ {
        "### Next Actions\n"@ + list_of(result.next_actions)
    } else {
        "### "@ + heading + "\nPending"@
    }
}

/// The sections under the given headings.
pub open spec fn sections_of(headings: Seq<Seq<char>>, result: AgentResultView) -> Seq<Seq<char>> {
    headings.map_values(|heading: Seq<char>| section_of(heading, result))
}

/// The headings of an entry: the required ones, or the standard ones where
/// none is required.
pub open spec fn headings_of(required: Seq<Seq<char>>) -> Seq<Seq<char>> {
    if required.len() == 0 {
        seq!["Current State"@, "Open Questions"@, "Next Actions"@]
    } else {
        required
    }
}

/// What an entry says before its sections.
pub open spec fn entry_head(step: &Step, context: ContextView, result: AgentResultView) -> Seq<
    Seq<char>,
> {
    seq![
        "## Step `"@ + step.id@ + "`: "@ + step.title@,
        "- Agent: `"@ + context.current_agent + "`"@,
        "- Workspace: `"@ + context.workspace_root + "`"@,
        "- Summary: "@ + result.summary,
    ]
}

/// The entry for a step.
pub open spec fn entry_of(
    required: Seq<Seq<char>>,
    step: &Step,
    context: ContextView,
    result: AgentResultView,
) -> Seq<char> {
    joined(
        entry_head(step, context, result) + sections_of(headings_of(required), result),
        "\n\n"@,
    )
}

/// The contents of the file after an entry was added to what it held.
pub open spec fn with_entry(mode: HandoffMode, current: Seq<char>, entry: Seq<char>) -> Seq<char> {
    match mode {
        HandoffMode::Append => if blank(current) {
            entry
        } else {
            current + "\n\n"@ + entry
        },
        HandoffMode::Replace => entry,
    }
}

/// What the file held, as far as reading it tells.
pub open spec fn read_result(path: Seq<char>, read: FileReadView) -> Result<
    Seq<char>,
    WorkflowErrorView,
> {
    match read {
        FileReadView::Contents(text) => Ok(text),
        FileReadView::NotFound => Ok(Seq::empty()),
        FileReadView::Failed(reason) => Err(
            WorkflowErrorView::Execution(
                "failed to read handoff file `"@ + path + "`: "@ + reason,
            ),
        ),
    }
}

/// The failure to create the directory of the file.
pub open spec fn directory_error(directory: Seq<char>, reason: Seq<char>) -> WorkflowErrorView {
    WorkflowErrorView::Execution(
        "failed to create handoff directory `"@ + directory + "`: "@ + reason,
    )
}

/// The failure to write the file.
pub open spec fn write_error(
    path: Seq<char>,
    mode: HandoffMode,
    reason: Seq<char>,
) -> WorkflowErrorView {
    WorkflowErrorView::Execution(
        "failed to write handoff file `"@ + path + "` in "@ + mode_name(mode) + " mode: "@ + reason,
    )
}

// ---------------------------------------------------------------------------
// Laws
// ---------------------------------------------------------------------------

/// What the file holds is taken as it is, and a file that is not there holds
/// nothing; one that cannot be read is a failure, which names it and gives the reason.
pub proof fn law_what_the_file_holds(path: Seq<char>, text: Seq<char>, reason: Seq<char>)
    ensures
        read_result(path, FileReadView::Contents(text)) == Ok::<Seq<char>, WorkflowErrorView>(text),
        read_result(path, FileReadView::NotFound) is Ok,
        read_result(path, FileReadView::NotFound)->Ok_0.len() == 0,
        read_result(path, FileReadView::Failed(reason)) == Err::<Seq<char>, WorkflowErrorView>(
            WorkflowErrorView::Execution(
                "failed to read handoff file `"@ + path + "`: "@ + reason,
            ),
        ),
{
}

/// Where the file cannot be written, the failure says which file or directory it
/// is, how it was to be written, and the reason.
pub proof fn law_failures_name_the_file(path: Seq<char>, mode: HandoffMode, reason: Seq<char>)
    ensures
        directory_error(path, reason) == WorkflowErrorView::Execution(
            "failed to create handoff directory `"@ + path + "`: "@ + reason,
        ),
        mode == HandoffMode::Append ==> write_error(path, mode, reason)
            == WorkflowErrorView::Execution(
            "failed to write handoff file `"@ + path + "` in "@ + "append"@ + " mode: "@ + reason,
        ),
        mode == HandoffMode::Replace ==> write_error(path, mode, reason)
            == WorkflowErrorView::Execution(
            "failed to write handoff file `"@ + path + "` in "@ + "replace"@ + " mode: "@ + reason,
        ),
{
}

/// Where entries are appended, nothing that the file held is lost: what it
/// held comes first, unless it was blank, and the new entry comes last.
pub proof fn law_append_keeps_earlier_entries(current: Seq<char>, entry: Seq<char>)
    ensures
        ({
            let contents = with_entry(HandoffMode::Append, current, entry);
            &&& !blank(current) ==> contents.take(current.len() as int) == current
            &&& contents.skip(contents.len() - entry.len()) == entry
            &&& blank(current) ==> contents == entry
        }),
{
    let contents = with_entry(HandoffMode::Append, current, entry);
    if !blank(current) {
        assert(contents.take(current.len() as int) =~= current);
    }
    assert(contents.skip(contents.len() - entry.len()) =~= entry);
}

/// Where entries replace one another, the file holds the latest alone.
pub proof fn law_replace_keeps_the_latest_entry(current: Seq<char>, entry: Seq<char>)
    ensures
        with_entry(HandoffMode::Replace, current, entry) == entry,
{
}

proof fn lemma_section_has_heading(heading: Seq<char>, result: AgentResultView)
    ensures
        contains(section_of(heading, result), "### "@ + heading),
{
    reveal_strlit("### ");
    reveal_strlit("Current State");
    reveal_strlit("Open Questions");
    reveal_strlit("Next Actions");
    reveal_strlit("### Current State\n");
    reveal_strlit("### Open Questions\n");
    reveal_strlit("### Next Actions\n");
    let empty = Seq::<char>::empty();
    let title = "### "@ + heading;
    let section = section_of(heading, result);
    assert(section.take(title.len() as int) =~= title);
    lemma_contains_part(empty, title, section.skip(title.len() as int));
    assert(empty + title + section.skip(title.len() as int) =~= section);
}

/// An entry has a section for every required heading.
pub proof fn law_entry_has_every_required_section(
    required: Seq<Seq<char>>,
    step: &Step,
    context: ContextView,
    result: AgentResultView,
    i: int,
)
    requires
        0 <= i < required.len(),
    ensures
        contains(entry_of(required, step, context, result), "### "@ + required[i]),
        contains(entry_of(required, step, context, result), section_of(required[i], result)),
{
    lemma_entry_has_section(required, step, context, result, i);
}

/// An entry for which no heading is required has the three standard sections.
pub proof fn law_entry_has_standard_sections(
    step: &Step,
    context: ContextView,
    result: AgentResultView,
)
    ensures
        ({
            let entry = entry_of(Seq::empty(), step, context, result);
            &&& contains(entry, "### Current State\n"@ + state_of(result))
            &&& contains(entry, "### Open Questions\n"@ + list_of(result.open_questions))
            &&& contains(entry, "### Next Actions\n"@ + list_of(result.next_actions))
        }),
{
    reveal_strlit("Current State");
    reveal_strlit("Open Questions");
    reveal_strlit("Next Actions");
    assert("Current State"@.len() != "Open Questions"@.len());
    assert("Current State"@.len() != "Next Actions"@.len());
    assert("Open Questions"@.len() != "Next Actions"@.len());
    lemma_entry_has_section(Seq::empty(), step, context, result, 0);
    lemma_entry_has_section(Seq::empty(), step, context, result, 1);
    lemma_entry_has_section(Seq::empty(), step, context, result, 2);
}

/// A list has every item, in order and on a line of its own, behind a dash; a list
/// without items says so.
pub proof fn law_lists_have_every_item(items: Seq<Seq<char>>)
    ensures
        items.len() == 0 ==> list_of(items) == "- None"@,
        items.len() > 0 ==> list_of(items) == "- "@ + joined(items, "\n- "@),
{
    if items.len() > 0 {
        lemma_bullets(items);
    }
}

proof fn lemma_bullets(items: Seq<Seq<char>>)
    requires
        items.len() > 0,
    ensures
        joined(bullets(items), "\n"@) == "- "@ + joined(items, "\n- "@),
    decreases items.len(),
{
    reveal_strlit("\n- ");
    reveal_strlit("\n");
    reveal_strlit("- ");
    assert("\n- "@ =~= "\n"@ + "- "@);
    if items.len() == 1 {
        assert(bullets(items)[0] == "- "@ + items[0]);
    } else {
        let rest = items.drop_last();
        lemma_bullets(rest);
        assert(bullets(items).drop_last() =~= bullets(rest));
        assert(bullets(items).last() == "- "@ + items.last());
        assert(joined(bullets(rest), "\n"@) + "\n"@ + ("- "@ + items.last()) =~= "- "@ + (joined(
            rest,
            "\n- "@,
        ) + "\n- "@ + items.last()));
    }
}

/// An entry begins with its step, the agent that took it, where that worked and
/// what it said, whatever sections follow.
pub proof fn law_entry_says_what_was_done(
    required: Seq<Seq<char>>,
    step: &Step,
    context: ContextView,
    result: AgentResultView,
)
    ensures
        ({
            let entry = entry_of(required, step, context, result);
            let start = "## Step `"@ + step.id@ + "`: "@ + step.title@ + "\n\n- Agent: `"@
                + context.current_agent + "`\n\n- Workspace: `"@ + context.workspace_root
                + "`\n\n- Summary: "@ + result.summary + "\n\n"@;
            &&& entry.len() >= start.len()
            &&& entry.take(start.len() as int) == start
            &&& required.len() > 0 ==> entry == start + joined(
                sections_of(required, result),
                "\n\n"@,
            )
            &&& required.len() == 0 ==> entry == start + "### Current State\n"@ + (
            match result.current_state {
                Some(state) => state,
                None => result.summary,
            }) + "\n\n### Open Questions\n"@ + list_of(result.open_questions)
                + "\n\n### Next Actions\n"@ + list_of(result.next_actions)
        }),
{
    let start = "## Step `"@ + step.id@ + "`: "@ + step.title@ + "\n\n- Agent: `"@
        + context.current_agent + "`\n\n- Workspace: `"@ + context.workspace_root
        + "`\n\n- Summary: "@ + result.summary + "\n\n"@;
    lemma_entry_head(step, context, result);
    law_joined_parts(
        entry_head(step, context, result),
        sections_of(headings_of(required), result),
        "\n\n"@,
    );
    let entry = entry_of(required, step, context, result);
    assert(entry.take(start.len() as int) =~= start);
    if required.len() == 0 {
        lemma_standard_sections(result);
        assert(entry =~= start + "### Current State\n"@ + state_of(result)
            + "\n\n### Open Questions\n"@ + list_of(result.open_questions)
            + "\n\n### Next Actions\n"@ + list_of(result.next_actions));
    }
}

proof fn lemma_entry_head(step: &Step, context: ContextView, result: AgentResultView)
    ensures
        joined(entry_head(step, context, result), "\n\n"@) + "\n\n"@ == "## Step `"@ + step.id@
            + "`: "@ + step.title@ + "\n\n- Agent: `"@ + context.current_agent
            + "`\n\n- Workspace: `"@ + context.workspace_root + "`\n\n- Summary: "@
            + result.summary + "\n\n"@,
{
    let head = entry_head(step, context, result);
    let gap = "\n\n"@;
    reveal_strlit("\n\n");
    reveal_strlit("- Agent: `");
    reveal_strlit("\n\n- Agent: `");
    reveal_strlit("`");
    reveal_strlit("- Workspace: `");
    reveal_strlit("`\n\n- Workspace: `");
    reveal_strlit("- Summary: ");
    reveal_strlit("`\n\n- Summary: ");
    assert("\n\n- Agent: `"@ =~= gap + "- Agent: `"@);
    assert("`\n\n- Workspace: `"@ =~= "`"@ + gap + "- Workspace: `"@);
    assert("`\n\n- Summary: "@ =~= "`"@ + gap + "- Summary: "@);
    lemma_joined_four(head, gap);
    assert(head[0] + gap + head[1] + gap + head[2] + gap + head[3] + gap =~= "## Step `"@ + step.id@
        + "`: "@ + step.title@ + (gap + "- Agent: `"@) + context.current_agent + ("`"@ + gap
        + "- Workspace: `"@) + context.workspace_root + ("`"@ + gap + "- Summary: "@)
        + result.summary + gap);
}

proof fn lemma_standard_sections(result: AgentResultView)
    ensures
        joined(sections_of(headings_of(Seq::empty()), result), "\n\n"@) == "### Current State\n"@
            + state_of(result) + "\n\n### Open Questions\n"@ + list_of(result.open_questions)
            + "\n\n### Next Actions\n"@ + list_of(result.next_actions),
{
    let gap = "\n\n"@;
    let headings = headings_of(Seq::empty());
    let sections = sections_of(headings, result);
    reveal_strlit("Current State");
    reveal_strlit("Open Questions");
    reveal_strlit("Next Actions");
    assert("Current State"@.len() == 13);
    assert("Open Questions"@.len() == 14);
    assert("Next Actions"@.len() == 12);
    reveal_strlit("\n\n");
    reveal_strlit("\n\n### Open Questions\n");
    reveal_strlit("### Open Questions\n");
    reveal_strlit("\n\n### Next Actions\n");
    reveal_strlit("### Next Actions\n");
    assert("\n\n### Open Questions\n"@ =~= gap + "### Open Questions\n"@);
    assert("\n\n### Next Actions\n"@ =~= gap + "### Next Actions\n"@);
    assert(sections[0] == "### Current State\n"@ + state_of(result));
    assert(sections[1] == "### Open Questions\n"@ + list_of(result.open_questions));
    assert(sections[2] == "### Next Actions\n"@ + list_of(result.next_actions));
    lemma_joined_three(sections, gap);
    assert(sections[0] + gap + sections[1] + gap + sections[2] =~= "### Current State\n"@
        + state_of(result) + (gap + "### Open Questions\n"@) + list_of(result.open_questions)
        + (gap + "### Next Actions\n"@) + list_of(result.next_actions));
}

proof fn lemma_joined_three(parts: Seq<Seq<char>>, gap: Seq<char>)
    requires
        parts.len() == 3,
    ensures
        joined(parts, gap) == parts[0] + gap + parts[1] + gap + parts[2],
{
    let two = parts.drop_last();
    let one = two.drop_last();
    assert(one[0] == parts[0]);
    assert(joined(one, gap) == parts[0]);
    assert(joined(two, gap) == parts[0] + gap + parts[1]);
    assert(joined(parts, gap) == joined(two, gap) + gap + parts[2]);
}

proof fn lemma_joined_four(parts: Seq<Seq<char>>, gap: Seq<char>)
    requires
        parts.len() == 4,
    ensures
        joined(parts, gap) == parts[0] + gap + parts[1] + gap + parts[2] + gap + parts[3],
{
    let three = parts.drop_last();
    lemma_joined_three(three, gap);
    assert(joined(parts, gap) == joined(three, gap) + gap + parts[3]);
}

/// The sections of an entry are those that are required, each under its heading:
/// the state that the agent left behind, or its summary where it names none; its
/// open questions; its next actions; and what is still open of any other.
pub proof fn law_sections_say_what_their_headings_ask(
    required: Seq<Seq<char>>,
    result: AgentResultView,
    i: int,
)
    requires
        0 <= i < required.len(),
    ensures
        ({
            let section = sections_of(required, result)[i];
            let heading = required[i];
            &&& sections_of(required, result).len() == required.len()
            &&& heading == "Current State"@ ==> section == "### Current State\n"@ + (
            match result.current_state {
                Some(state) => state,
                None => result.summary,
            })
            &&& heading == "Open Questions"@ ==> section == "### Open Questions\n"@ + list_of(
                result.open_questions,
            )
            &&& heading == "Next Actions"@ ==> section == "### Next Actions\n"@ + list_of(
                result.next_actions,
            )
            &&& heading != "Current State"@ && heading != "Open Questions"@ && heading
                != "Next Actions"@ ==> section == "### "@ + heading + "\nPending"@
        }),
{
    reveal_strlit("Current State");
    reveal_strlit("Open Questions");
    reveal_strlit("Next Actions");
    assert("Current State"@.len() == 13);
    assert("Open Questions"@.len() == 14);
    assert("Next Actions"@.len() == 12);
}

proof fn lemma_entry_has_section(
    required: Seq<Seq<char>>,
    step: &Step,
    context: ContextView,
    result: AgentResultView,
    i: int,
)
    requires
        0 <= i < headings_of(required).len(),
    ensures
        contains(entry_of(required, step, context, result), "### "@ + headings_of(required)[i]),
        contains(
            entry_of(required, step, context, result),
            section_of(headings_of(required)[i], result),
        ),
{
    let heading = headings_of(required)[i];
    let head = entry_head(step, context, result);
    let parts = head + sections_of(headings_of(required), result);
    assert(parts[head.len() + i] == section_of(heading, result));
    lemma_joined_contains(parts, "\n\n"@, head.len() + i);
    lemma_section_has_heading(heading, result);
    lemma_contains_within(
        entry_of(required, step, context, result),
        section_of(heading, result),
        "### "@ + heading,
    );
}

// ---------------------------------------------------------------------------
// Operations
// ---------------------------------------------------------------------------

/// The name of a mode.
pub fn handoff_mode_name(mode: &HandoffMode) -> (r: &'static str)
    ensures
        r@ == mode_name(*mode),
{
    match mode {
        HandoffMode::Append => "append",
        HandoffMode::Replace => "replace",
    }
}

/// The items as a list, which is never empty.
pub fn markdown_list(items: &Vec<String>) -> (r: String)
    ensures
        r@ == list_of(texts(items@)),
{
    if items.len() == 0 {
        return "- None".to_owned();
    }
    let mut lines: Vec<String> = Vec::new();
    let mut at: usize = 0;
    while at < items.len()
        invariant
            at <= items@.len(),
            texts(lines@) == bullets(texts(items@)).take(at as int),
        decreases items@.len() - at,
    {
        let ghost before = lines@;
        lines.push("- ".to_owned().concat(items[at].as_str()));
        at = at + 1;
        assert(texts(lines@) =~= texts(before).push("- "@ + items@[at - 1]@));
        assert(bullets(texts(items@)).take(at as int) =~= bullets(texts(items@)).take(
            at - 1,
        ).push("- "@ + items@[at - 1]@));
    }
    assert(bullets(texts(items@)).take(at as int) =~= bullets(texts(items@)));
    join(&lines, "\n")
}

impl HandoffStore {
    /// The file at `path`.
    pub fn new(path: String, mode: HandoffMode, required_sections: Vec<String>) -> (r: Self)
        ensures
            r.path == path,
            r.mode == mode,
            r.required_sections == required_sections,
    {
        HandoffStore { path, mode, required_sections }
    }

    /// Where the file is.
    pub fn path(&self) -> (r: &str)
        ensures
            r@ == self.path@,
    {
        self.path.as_str()
    }

    /// What the file holds, given what came of reading it. A missing file
    /// holds nothing.
    pub fn read(&self, read: FileRead) -> (r: Result<String, WorkflowError>)
        ensures
            outcome(r) == read_result(self.path@, read@),
    {
        match read {
            FileRead::Contents(text) => Ok(text),
            FileRead::NotFound => Ok(String::new()),
            FileRead::Failed(reason) => Err(
                WorkflowError::Execution(
                    "failed to read handoff file `".to_owned().concat(self.path.as_str()).concat(
                        "`: ",
                    ).concat(reason.as_str()),
                ),
            ),
        }
    }

    /// What the file has to hold after a step, given what it holds. Where
    /// entries replace one another, that is not looked at.
    pub fn record_step(
        &self,
        step: &Step,
        context: &ExecutionContext,
        result: &StepAgentResult,
        current: &str,
    ) -> (r: String)
        ensures
            r@ == with_entry(
                self.mode,
                current@,
                entry_of(texts(self.required_sections@), step, context@, result@),
            ),
    {
        let entry = self.format_entry(step, context, result);
        match self.mode {
            HandoffMode::Append => {
                if is_blank(current) {
                    entry
                } else {
                    current.to_owned().concat("\n\n").concat(entry.as_str())
                }
            },
            HandoffMode::Replace => entry,
        }
    }

    /// The failure to create the directory of the file.
    pub fn directory_failure(&self, directory: &str, reason: &str) -> (r: WorkflowError)
        ensures
            r@ == directory_error(directory@, reason@),
    {
        WorkflowError::Execution(
            "failed to create handoff directory `".to_owned().concat(directory).concat(
                "`: ",
            ).concat(reason),
        )
    }

    /// The failure to write the file.
    pub fn write_failure(&self, reason: &str) -> (r: WorkflowError)
        ensures
            r@ == write_error(self.path@, self.mode, reason@),
    {
        WorkflowError::Execution(
            "failed to write handoff file `".to_owned().concat(self.path.as_str()).concat(
                "` in ",
            ).concat(handoff_mode_name(&self.mode)).concat(" mode: ").concat(reason),
        )
    }

    /// The section of an entry under the given heading.
    fn format_section(&self, heading: &str, result: &StepAgentResult) -> (r: String)
        ensures
            r@ == section_of(heading@, result@),
    {
        if same(heading, "Current State") {
            let state = match &result.current_state {
                Some(state) => state.as_str(),
                None => result.summary.as_str(),
            };
            "### Current State\n".to_owned().concat(state)
        } else if same(heading, "Open Questions") {
            "### Open Questions\n".to_owned().concat(
                markdown_list(&result.open_questions).as_str(),
            )
        } else if same(heading, "Next Actions") {
            "### Next Actions\n".to_owned().concat(markdown_list(&result.next_actions).as_str())
        } else {
            "### ".to_owned().concat(heading).concat("\nPending")
        }
    }

    /// The entry for a step.
    pub fn format_entry(
        &self,
        step: &Step,
        context: &ExecutionContext,
        result: &StepAgentResult,
    ) -> (r: String)
        ensures
            r@ == entry_of(texts(self.required_sections@), step, context@, result@),
    {
        let mut sections: Vec<String> = Vec::new();
        sections.push(
            "## Step `".to_owned().concat(step.id.as_str()).concat("`: ").concat(
                step.title.as_str(),
            ),
        );
        sections.push(
            "- Agent: `".to_owned().concat(context.current_agent.as_str()).concat("`"),
        );
        sections.push(
            "- Workspace: `".to_owned().concat(context.workspace_root.as_str()).concat("`"),
        );
        sections.push("- Summary: ".to_owned().concat(result.summary.as_str()));
        let ghost required = texts(self.required_sections@);
        let ghost head = entry_head(step, context@, result@);
        assert(texts(sections@) =~= head);
        if self.required_sections.len() == 0 {
            assert(required.len() == 0);
            sections.push(self.format_section("Current State", result));
            sections.push(self.format_section("Open Questions", result));
            sections.push(self.format_section("Next Actions", result));
            assert(texts(sections@) =~= head + sections_of(headings_of(required), result@));
        } else {
            let mut at: usize = 0;
            assert(texts(sections@) =~= head + sections_of(required, result@).take(0));
            while at < self.required_sections.len()
                invariant
                    at <= self.required_sections@.len(),
                    required == texts(self.required_sections@),
                    texts(sections@) == head + sections_of(required, result@).take(at as int),
                decreases self.required_sections@.len() - at,
            {
                let ghost before = sections@;
                sections.push(self.format_section(self.required_sections[at].as_str(), result));
                at = at + 1;
                assert(texts(sections@) =~= texts(before).push(
                    section_of(required[at - 1], result@),
                ));
                assert(texts(sections@) =~= head + sections_of(required, result@).take(at as int));
            }
            assert(sections_of(required, result@).take(at as int) =~= sections_of(
                required,
                result@,
            ));
        }
        join(&sections, "\n\n")
    }
}

} // verus!
