//! What a generated document says of a workflow.

use vstd::prelude::*;

use super::analysis::AnalysisView;
use super::layout::{lemma_workflow_fits, writable};
use super::render::{
    agents_rows, bare, brief_rows, command_rows, entry, final_review_end_rows, final_review_rows,
    head_rows, implement_end_rows, implement_rows, item, lead, middle_rows, opening_rows,
    plan_end_rows, plan_rows, preferences_part, preferred, quoted, review_brief_rows,
    review_gates_rows, review_plan_end_rows, review_plan_rows, second, section, snippet_names,
    snippet_rows, tail_rows, workflow_rows, workflow_text,
};
use super::yaml::{
    law_rows_are_read_back, read_rows, row_indent, rows_fit, rows_text, RowView,
};
use crate::text::{blank, is_white_space, optional, texts};
use crate::workflow::maps::{agent_entries, lemma_lookup_names, names, snippet_entries};
use crate::workflow::model::{
    lemma_gate_position, lemma_step_position, Step, StepRoute, StepTransition, Workflow,
};
use crate::workflow::validate::{
    consistent, snippet_known, step_consistent, transition_consistent,
};

verus! {

// ---------------------------------------------------------------------------
// Drafts
// ---------------------------------------------------------------------------

/// Where a workflow goes after a step, as a document has it.
pub ghost struct DraftTransition {
    pub handoff_to: Option<Seq<char>>,
    pub next_step: Option<Seq<char>>,
    pub route: Option<Seq<char>>,
}

/// A step, as a document has it.
#[verifier::ext_equal]
pub ghost struct DraftStep {
    pub id: Seq<char>,
    pub title: Seq<char>,
    pub agent: Seq<char>,
    pub run: Seq<Seq<char>>,
    pub snippets: Seq<Seq<char>>,
    pub gate: Option<Seq<char>>,
    pub required: Option<bool>,
    pub on_success: Option<DraftTransition>,
    pub on_failure: Option<DraftTransition>,
}

/// A workflow, as a document has it: what steps refer to is given by name.
#[verifier::ext_equal]
pub ghost struct Draft {
    pub version: Seq<char>,
    pub name: Seq<char>,
    pub snippets: Seq<Seq<char>>,
    pub agents: Seq<Seq<char>>,
    pub steps: Seq<DraftStep>,
    pub gates: Seq<Seq<char>>,
}

/// The keys that matter.
pub ghost enum Key {
    Version,
    Name,
    Snippets,
    Agents,
    Steps,
    ReviewGates,
    Id,
    Title,
    Agent,
    Run,
    Review,
    OnSuccess,
    OnFailure,
    Gate,
    Required,
    HandoffTo,
    NextStep,
    Route,
    Other,
}

/// The key that a text is.
#[verifier::opaque]
pub open spec fn key_of(text: Seq<char>) -> Key {
    if text == "version"@ {
        Key::Version
    } else if text == "name"@ {
        Key::Name
    } else if text == "snippets"@ {
        Key::Snippets
    } else if text == "agents"@ {
        Key::Agents
    } else if text == "steps"@ {
        Key::Steps
    } else if text == "review_gates"@ {
        Key::ReviewGates
    } else if text == "id"@ {
        Key::Id
    } else if text == "title"@ {
        Key::Title
    } else if text == "agent"@ {
        Key::Agent
    } else if text == "run"@ {
        Key::Run
    } else if text == "review"@ {
        Key::Review
    } else if text == "on_success"@ {
        Key::OnSuccess
    } else if text == "on_failure"@ {
        Key::OnFailure
    } else if text == "gate"@ {
        Key::Gate
    } else if text == "required"@ {
        Key::Required
    } else if text == "handoff_to"@ {
        Key::HandoffTo
    } else if text == "next_step"@ {
        Key::NextStep
    } else if text == "route"@ {
        Key::Route
    } else {
        Key::Other
    }
}

/// How far a document has been read: the workflow so far, the key at the margin
/// and, within a step, the key that the further indented rows belong to.
#[verifier::ext_equal]
pub ghost struct Reading {
    pub draft: Draft,
    pub section: Key,
    pub part: Key,
}

/// A step of which only the id is known.
pub open spec fn new_step(id: Seq<char>) -> DraftStep {
    DraftStep {
        id,
        title: Seq::empty(),
        agent: Seq::empty(),
        run: Seq::empty(),
        snippets: Seq::empty(),
        gate: None,
        required: None,
        on_success: None,
        on_failure: None,
    }
}

/// A transition of which nothing is known.
pub open spec fn new_transition() -> DraftTransition {
    DraftTransition { handoff_to: None, next_step: None, route: None }
}

/// A transition with a further value.
pub open spec fn transition_with(t: DraftTransition, key: Key, value: Seq<char>) -> DraftTransition {
    match key {
        Key::HandoffTo => DraftTransition { handoff_to: Some(value), ..t },
        Key::NextStep => DraftTransition { next_step: Some(value), ..t },
        Key::Route => DraftTransition { route: Some(value), ..t },
        _ => t,
    }
}

/// A step after a row about it.
pub open spec fn step_with(step: DraftStep, part: Key, row: RowView) -> DraftStep {
    match row {
        RowView::Quoted { indent, key, value, .. } => if indent == 4 {
            match key_of(key) {
                Key::Title => DraftStep { title: value, ..step },
                Key::Agent => DraftStep { agent: value, ..step },
                _ => step,
            }
        } else if indent == 6 {
            match part {
                Key::Review => if key_of(key) == Key::Gate {
                    DraftStep { gate: Some(value), ..step }
                } else {
                    step
                },
                Key::OnSuccess => DraftStep {
                    on_success: Some(transition_with(step.on_success->0, key_of(key), value)),
                    ..step
                },
                Key::OnFailure => DraftStep {
                    on_failure: Some(transition_with(step.on_failure->0, key_of(key), value)),
                    ..step
                },
                _ => step,
            }
        } else {
            step
        },
        RowView::Section { indent, key } => if indent == 4 {
            match key_of(key) {
                Key::OnSuccess => DraftStep { on_success: Some(new_transition()), ..step },
                Key::OnFailure => DraftStep { on_failure: Some(new_transition()), ..step },
                _ => step,
            }
        } else {
            step
        },
        RowView::Entry { indent, value } => if indent == 6 {
            match part {
                Key::Run => DraftStep { run: step.run.push(value), ..step },
                Key::Snippets => DraftStep { snippets: step.snippets.push(value), ..step },
                _ => step,
            }
        } else {
            step
        },
        RowView::Bare { indent, key, value } => if indent == 6 && part == Key::Review && key_of(
            key,
        ) == Key::Required {
            DraftStep { required: Some(value == "true"@), ..step }
        } else {
            step
        },
        _ => step,
    }
}

/// The steps after a row about the last of them.
pub open spec fn steps_with(steps: Seq<DraftStep>, part: Key, row: RowView) -> Seq<DraftStep> {
    steps.drop_last().push(step_with(steps.last(), part, row))
}

/// The part of a step that the rows after this one belong to.
pub open spec fn part_after(part: Key, row: RowView) -> Key {
    if row_indent(row) != 4 {
        part
    } else {
        match row {
            RowView::Section { key, .. } => key_of(key),
            _ => Key::Other,
        }
    }
}

/// The reading after a row at the margin.
pub open spec fn taken_at_margin(r: Reading, row: RowView) -> Reading {
    let d = r.draft;
    match row {
        RowView::Section { key, .. } => Reading { section: key_of(key), part: Key::Other, ..r },
        RowView::Quoted { key, value, .. } => match key_of(key) {
            Key::Version => Reading { draft: Draft { version: value, ..d }, ..r },
            Key::Name => Reading { draft: Draft { name: value, ..d }, ..r },
            _ => r,
        },
        _ => r,
    }
}

/// The reading after a row that is indented once: the name of a snippet or an
/// agent, or the beginning of a step or a review gate.
pub open spec fn taken_in_section(r: Reading, row: RowView) -> Reading {
    let d = r.draft;
    match (row, r.section) {
        (RowView::Section { key, .. }, Key::Snippets) => Reading {
            draft: Draft { snippets: d.snippets.push(key), ..d },
            ..r
        },
        (RowView::Section { key, .. }, Key::Agents) => Reading {
            draft: Draft { agents: d.agents.push(key), ..d },
            ..r
        },
        (RowView::Quoted { item, key, value, .. }, Key::Steps) => if item && key_of(key)
            == Key::Id {
            Reading {
                draft: Draft { steps: d.steps.push(new_step(value)), ..d },
                part: Key::Other,
                ..r
            }
        } else {
            r
        },
        (RowView::Quoted { item, key, value, .. }, Key::ReviewGates) => if item && key_of(key)
            == Key::Id {
            Reading { draft: Draft { gates: d.gates.push(value), ..d }, ..r }
        } else {
            r
        },
        _ => r,
    }
}

/// The reading after a further row.
pub open spec fn taken(r: Reading, row: RowView) -> Reading {
    let d = r.draft;
    if row is Blank || row is Text {
        r
    } else if row_indent(row) == 0 {
        taken_at_margin(r, row)
    } else if row_indent(row) == 2 {
        taken_in_section(r, row)
    } else if r.section == Key::Steps && d.steps.len() > 0 {
        Reading {
            draft: Draft { steps: steps_with(d.steps, r.part, row), ..d },
            part: part_after(r.part, row),
            ..r
        }
    } else {
        r
    }
}

/// The reading after the first `n` of further rows.
pub open spec fn drafted(rows: Seq<RowView>, n: int, r: Reading) -> Reading
    decreases n,
{
    if n <= 0 {
        r
    } else {
        taken(drafted(rows, n - 1, r), rows[n - 1])
    }
}

/// The reading after further rows.
pub open spec fn drafted_all(rows: Seq<RowView>, r: Reading) -> Reading {
    drafted(rows, rows.len() as int, r)
}

/// The reading before the first row.
pub open spec fn unread() -> Reading {
    Reading {
        draft: Draft {
            version: Seq::empty(),
            name: Seq::empty(),
            snippets: Seq::empty(),
            agents: Seq::empty(),
            steps: Seq::empty(),
            gates: Seq::empty(),
        },
        section: Key::Other,
        part: Key::Other,
    }
}

/// The workflow that a document is about, if it is one that can be read.
#[verifier::opaque]
pub open spec fn read_workflow(text: Seq<char>) -> Option<Draft> {
    match read_rows(text) {
        Some(rows) => Some(drafted_all(rows, unread()).draft),
        None => None,
    }
}

// ---------------------------------------------------------------------------
// Workflows and drafts
// ---------------------------------------------------------------------------

/// What a route is called.
pub open spec fn route_name(route: StepRoute) -> Seq<char> {
    match route {
        StepRoute::Continue => "continue"@,
        StepRoute::Retry => "retry"@,
        StepRoute::Halt => "halt"@,
    }
}

/// Whether a transition is as the document has it.
pub open spec fn transition_says(t: Option<StepTransition>, d: Option<DraftTransition>) -> bool {
    match (t, d) {
        (Some(t), Some(d)) => {
            &&& optional(t.handoff_to) == d.handoff_to
            &&& optional(t.next_step) == d.next_step
            &&& d.route matches Some(route) ==> route == route_name(t.route)
        },
        (None, None) => true,
        _ => false,
    }
}

/// Whether a step is as the document has it.
pub open spec fn step_says(step: &Step, d: DraftStep) -> bool {
    &&& step.id@ == d.id
    &&& step.title@ == d.title
    &&& step.agent@ == d.agent
    &&& texts(step.run@) == d.run
    &&& texts(step.snippets@) == d.snippets
    &&& optional(step.review.gate) == d.gate
    &&& step.review.required == d.required
    &&& transition_says(step.on_success, d.on_success)
    &&& transition_says(step.on_failure, d.on_failure)
}

/// Whether a workflow is as the document has it.
pub open spec fn says(w: &Workflow, d: Draft) -> bool {
    &&& w.version@ == d.version
    &&& w.name@ == d.name
    &&& names(snippet_entries(w.snippets)) == d.snippets
    &&& names(agent_entries(w.agents)) == d.agents
    &&& w.review_gates@.len() == d.gates.len()
    &&& forall|i: int|
        0 <= i < d.gates.len() ==> (#[trigger] w.review_gates@[i]).id@ == d.gates[i]
    &&& w.steps@.len() == d.steps.len()
    &&& forall|i: int| 0 <= i < d.steps.len() ==> step_says(&#[trigger] w.steps@[i], d.steps[i])
}

// ---------------------------------------------------------------------------
// The workflow of a project
// ---------------------------------------------------------------------------

/// A transition to a step, with the agent that takes over.
pub open spec fn hand_over(agent: Seq<char>, step: Seq<char>, route: Seq<char>) -> Option<
    DraftTransition,
> {
    Some(DraftTransition { handoff_to: Some(agent), next_step: Some(step), route: Some(route) })
}

/// A transition that ends the workflow.
pub open spec fn halting() -> Option<DraftTransition> {
    Some(DraftTransition { handoff_to: None, next_step: None, route: Some("halt"@) })
}

/// The first step.
pub open spec fn plan_draft(with_preferences: bool) -> DraftStep {
    DraftStep {
        id: "plan"@,
        title: "Analyze the task and prepare the execution plan"@,
        agent: lead(),
        run: Seq::empty(),
        snippets: snippet_names(seq!["project_brief"@], with_preferences),
        gate: None,
        required: Some(false),
        on_success: hand_over(second(), "review_plan"@, "continue"@),
        on_failure: None,
    }
}

/// The second step.
pub open spec fn review_plan_draft(with_preferences: bool) -> DraftStep {
    DraftStep {
        id: "review_plan"@,
        title: "Review the plan before implementation"@,
        agent: second(),
        run: Seq::empty(),
        snippets: snippet_names(seq!["review_brief"@], with_preferences),
        gate: Some("quality_gate"@),
        required: Some(true),
        on_success: hand_over(lead(), "implement"@, "continue"@),
        on_failure: hand_over(lead(), "plan"@, "retry"@),
    }
}

/// The third step, with its commands.
pub open spec fn implement_draft(
    commands: Seq<Seq<char>>,
    with_preferences: bool,
) -> DraftStep {
    DraftStep {
        id: "implement"@,
        title: "Implement the approved changes"@,
        agent: lead(),
        run: commands,
        snippets: snippet_names(Seq::empty(), with_preferences),
        gate: Some("quality_gate"@),
        required: Some(true),
        on_success: hand_over(second(), "final_review"@, "continue"@),
        on_failure: None,
    }
}

/// The last step.
pub open spec fn final_review_draft(with_preferences: bool) -> DraftStep {
    DraftStep {
        id: "final_review"@,
        title: "Approve the final result"@,
        agent: second(),
        run: Seq::empty(),
        snippets: snippet_names(seq!["review_brief"@], with_preferences),
        gate: Some("release_gate"@),
        required: Some(true),
        on_success: halting(),
        on_failure: None,
    }
}

/// The snippets of a workflow.
pub open spec fn all_snippets(with_preferences: bool) -> Seq<Seq<char>> {
    snippet_names(seq!["project_brief"@], with_preferences).push("review_brief"@)
}

/// The workflow of a project.
pub open spec fn project_draft(analysis: AnalysisView, with_preferences: bool) -> Draft {
    Draft {
        version: "1"@,
        name: analysis.name + "-generated"@,
        snippets: all_snippets(with_preferences),
        agents: seq![lead(), second()],
        steps: seq![
            plan_draft(with_preferences),
            review_plan_draft(with_preferences),
            implement_draft(analysis.validation_commands, with_preferences),
            final_review_draft(with_preferences),
        ],
        gates: seq!["quality_gate"@, "release_gate"@],
    }
}

// ---------------------------------------------------------------------------
// Proofs
// ---------------------------------------------------------------------------

proof fn lemma_drafted_prefix(a: Seq<RowView>, b: Seq<RowView>, n: int, r: Reading)
    requires
        0 <= n <= a.len(),
    ensures
        drafted(a + b, n, r) == drafted(a, n, r),
    decreases n,
{
    if n > 0 {
        lemma_drafted_prefix(a, b, n - 1, r);
    }
}

proof fn lemma_drafted_further(a: Seq<RowView>, b: Seq<RowView>, n: int, r: Reading)
    requires
        0 <= n <= b.len(),
    ensures
        drafted(a + b, a.len() + n, r) == drafted(b, n, drafted_all(a, r)),
    decreases n,
{
    if n > 0 {
        lemma_drafted_further(a, b, n - 1, r);
        assert((a + b)[a.len() + n - 1] == b[n - 1]);
    } else {
        lemma_drafted_prefix(a, b, a.len() as int, r);
    }
}

proof fn lemma_drafted_appended(a: Seq<RowView>, b: Seq<RowView>, r: Reading)
    ensures
        drafted_all(a + b, r) == drafted_all(b, drafted_all(a, r)),
{
    lemma_drafted_further(a, b, b.len() as int, r);
}

proof fn lemma_keys()
    ensures
        key_of("version"@) == Key::Version,
        key_of("name"@) == Key::Name,
        key_of("description"@) == Key::Other,
        key_of("defaults"@) == Key::Other,
        key_of("auto_handoff"@) == Key::Other,
        key_of("review_required"@) == Key::Other,
        key_of("working_directory"@) == Key::Other,
        key_of("handoff"@) == Key::Other,
        key_of("path"@) == Key::Other,
        key_of("mode"@) == Key::Other,
        key_of("required_sections"@) == Key::Other,
        key_of("snippets"@) == Key::Snippets,
        key_of("agents"@) == Key::Agents,
        key_of("steps"@) == Key::Steps,
        key_of("review_gates"@) == Key::ReviewGates,
        key_of("id"@) == Key::Id,
        key_of("title"@) == Key::Title,
        key_of("agent"@) == Key::Agent,
        key_of("prompt"@) == Key::Other,
        key_of("run"@) == Key::Run,
        key_of("review"@) == Key::Review,
        key_of("on_success"@) == Key::OnSuccess,
        key_of("on_failure"@) == Key::OnFailure,
        key_of("gate"@) == Key::Gate,
        key_of("required"@) == Key::Required,
        key_of("handoff_to"@) == Key::HandoffTo,
        key_of("next_step"@) == Key::NextStep,
        key_of("route"@) == Key::Route,
        "true"@ != "false"@,
{
    reveal(key_of);
    reveal_strlit("version");
    assert("version"@.len() == 7 && "version"@[0] == 'v');
    reveal_strlit("name");
    assert("name"@.len() == 4 && "name"@[0] == 'n');
    reveal_strlit("description");
    assert("description"@.len() == 11 && "description"@[0] == 'd');
    reveal_strlit("defaults");
    assert("defaults"@.len() == 8 && "defaults"@[0] == 'd');
    reveal_strlit("auto_handoff");
    assert("auto_handoff"@.len() == 12 && "auto_handoff"@[0] == 'a');
    reveal_strlit("review_required");
    assert("review_required"@.len() == 15 && "review_required"@[0] == 'r');
    reveal_strlit("working_directory");
    assert("working_directory"@.len() == 17 && "working_directory"@[0] == 'w');
    reveal_strlit("handoff");
    assert("handoff"@.len() == 7 && "handoff"@[0] == 'h');
    reveal_strlit("path");
    assert("path"@.len() == 4 && "path"@[0] == 'p');
    reveal_strlit("mode");
    assert("mode"@.len() == 4 && "mode"@[0] == 'm');
    reveal_strlit("required_sections");
    assert("required_sections"@.len() == 17 && "required_sections"@[0] == 'r');
    reveal_strlit("snippets");
    assert("snippets"@.len() == 8 && "snippets"@[0] == 's');
    reveal_strlit("agents");
    assert("agents"@.len() == 6 && "agents"@[0] == 'a');
    reveal_strlit("steps");
    assert("steps"@.len() == 5 && "steps"@[0] == 's');
    reveal_strlit("review_gates");
    assert("review_gates"@.len() == 12 && "review_gates"@[0] == 'r');
    reveal_strlit("id");
    assert("id"@.len() == 2 && "id"@[0] == 'i');
    reveal_strlit("title");
    assert("title"@.len() == 5 && "title"@[0] == 't');
    reveal_strlit("agent");
    assert("agent"@.len() == 5 && "agent"@[0] == 'a');
    reveal_strlit("prompt");
    assert("prompt"@.len() == 6 && "prompt"@[0] == 'p');
    reveal_strlit("run");
    assert("run"@.len() == 3 && "run"@[0] == 'r');
    reveal_strlit("review");
    assert("review"@.len() == 6 && "review"@[0] == 'r');
    reveal_strlit("on_success");
    assert("on_success"@.len() == 10 && "on_success"@[0] == 'o');
    reveal_strlit("on_failure");
    assert("on_failure"@.len() == 10 && "on_failure"@[0] == 'o');
    reveal_strlit("gate");
    assert("gate"@.len() == 4 && "gate"@[0] == 'g');
    reveal_strlit("required");
    assert("required"@.len() == 8 && "required"@[0] == 'r');
    reveal_strlit("handoff_to");
    assert("handoff_to"@.len() == 10 && "handoff_to"@[0] == 'h');
    reveal_strlit("next_step");
    assert("next_step"@.len() == 9 && "next_step"@[0] == 'n');
    reveal_strlit("route");
    assert("route"@.len() == 5 && "route"@[0] == 'r');
    assert("on_success"@[3] == 's' && "on_failure"@[3] == 'f');
    reveal_strlit("true");
    reveal_strlit("false");
    assert("true"@.len() != "false"@.len());
}

proof fn lemma_opening_drafted(analysis: AnalysisView)
    ensures
        drafted_all(opening_rows(analysis), unread()) == (Reading {
            draft: Draft {
                version: "1"@,
                name: analysis.name + "-generated"@,
                ..unread().draft
            },
            section: Key::Snippets,
            part: Key::Other,
        }),
{
    lemma_keys();
    let rows = opening_rows(analysis);
    let r = unread();
    let r1 = Reading { draft: Draft { version: "1"@, ..r.draft }, ..r };
    let r2 = Reading { draft: Draft { name: analysis.name + "-generated"@, ..r1.draft }, ..r1 };
    assert(drafted(rows, 0, r) == r);
    assert(drafted(rows, 1, r) == r1);
    assert(drafted(rows, 2, r) == r2);
    assert(drafted(rows, 3, r) == r2);
    assert(drafted(rows, 4, r) == r2);
    assert(drafted(rows, 5, r) == r2);
    assert(drafted(rows, 6, r) == r2);
    assert(drafted(rows, 7, r) == r2);
    assert(drafted(rows, 8, r) == r2);
    assert(drafted(rows, 9, r) == r2);
    assert(drafted(rows, 10, r) == r2);
    assert(drafted(rows, 11, r) == r2);
    assert(drafted(rows, 12, r) == r2);
    assert(drafted(rows, 13, r) == r2);
    assert(drafted(rows, 14, r) == r2);
    assert(drafted(rows, 15, r) == r2);
    assert(drafted(rows, 16, r) == r2);
    assert(drafted(rows, 17, r) == r2);
}

proof fn lemma_brief_drafted(analysis: AnalysisView, r: Reading)
    requires
        r.section == Key::Snippets,
    ensures
        drafted_all(brief_rows(analysis), r) == (Reading {
            draft: Draft { snippets: r.draft.snippets.push("project_brief"@), ..r.draft },
            ..r
        }),
{
    let rows = brief_rows(analysis);
    let after = Reading {
        draft: Draft { snippets: r.draft.snippets.push("project_brief"@), ..r.draft },
        ..r
    };
    assert(drafted(rows, 0, r) == r);
    assert(drafted(rows, 1, r) == after);
    assert(drafted(rows, 2, r) == after);
    assert(drafted(rows, 3, r) == after);
    assert(drafted(rows, 4, r) == after);
    assert(drafted(rows, 5, r) == after);
    assert(drafted(rows, 6, r) == after);
}

proof fn lemma_review_brief_drafted(r: Reading)
    requires
        r.section == Key::Snippets,
    ensures
        drafted_all(review_brief_rows(), r) == (Reading {
            draft: Draft { snippets: r.draft.snippets.push("review_brief"@), ..r.draft },
            ..r
        }),
{
    let rows = review_brief_rows();
    let after = Reading {
        draft: Draft { snippets: r.draft.snippets.push("review_brief"@), ..r.draft },
        ..r
    };
    assert(drafted(rows, 0, r) == r);
    assert(drafted(rows, 1, r) == after);
    assert(drafted(rows, 2, r) == after);
    assert(drafted(rows, 3, r) == after);
    assert(drafted(rows, 4, r) == after);
    assert(drafted(rows, 5, r) == after);
}

proof fn lemma_agents_drafted(r: Reading)
    requires
        r.draft.agents.len() == 0,
    ensures
        drafted_all(agents_rows(), r) == (Reading {
            draft: Draft { agents: seq![lead(), second()], ..r.draft },
            section: Key::Steps,
            part: Key::Other,
        }),
{
    lemma_keys();
    let rows = agents_rows();
    let r1 = Reading { section: Key::Agents, part: Key::Other, ..r };
    let r2 = Reading { draft: Draft { agents: r.draft.agents.push(lead()), ..r1.draft }, ..r1 };
    let r3 = Reading { draft: Draft { agents: seq![lead(), second()], ..r1.draft }, ..r1 };
    assert(drafted(rows, 0, r) == r);
    assert(drafted(rows, 1, r) == r1);
    assert(drafted(rows, 2, r) == r2);
    assert(drafted(rows, 3, r) == r2);
    assert(drafted(rows, 4, r) == r2);
    assert(drafted(rows, 5, r) == r2);
    assert(drafted(rows, 6, r) == r2);
    assert(r2.draft.agents.push(second()) =~= seq![lead(), second()]);
    assert(drafted(rows, 7, r) == r3);
    assert(drafted(rows, 8, r) == r3);
    assert(drafted(rows, 9, r) == r3);
    assert(drafted(rows, 10, r) == r3);
    assert(drafted(rows, 11, r) == r3);
    assert(drafted(rows, 12, r) == r3);
}

proof fn lemma_gates_drafted(r: Reading)
    requires
        r.draft.gates.len() == 0,
    ensures
        drafted_all(review_gates_rows(), r).draft == (Draft {
            gates: seq!["quality_gate"@, "release_gate"@],
            ..r.draft
        }),
{
    lemma_keys();
    let rows = review_gates_rows();
    let r1 = Reading { section: Key::ReviewGates, part: Key::Other, ..r };
    let r2 = Reading {
        draft: Draft { gates: r.draft.gates.push("quality_gate"@), ..r1.draft },
        ..r1
    };
    let r3 = Reading {
        draft: Draft { gates: seq!["quality_gate"@, "release_gate"@], ..r1.draft },
        ..r1
    };
    assert(drafted(rows, 0, r) == r);
    assert(drafted(rows, 1, r) == r1);
    assert(drafted(rows, 2, r) == r2);
    assert(drafted(rows, 3, r) == r2);
    assert(drafted(rows, 4, r) == r2);
    assert(drafted(rows, 5, r) == r2);
    assert(r2.draft.gates.push("release_gate"@) =~= seq!["quality_gate"@, "release_gate"@]);
    assert(drafted(rows, 6, r) == r3);
    assert(drafted(rows, 7, r) == r3);
    assert(drafted(rows, 8, r) == r3);
}

/// A row that belongs to the step that was begun last.
spec fn inner(row: RowView) -> bool {
    row is Blank || row is Text || row_indent(row) == 4 || row_indent(row) == 6
}

/// A step and the part of it that is being read, after a row.
spec fn step_taken(s: (DraftStep, Key), row: RowView) -> (DraftStep, Key) {
    if row is Blank || row is Text {
        s
    } else {
        (step_with(s.0, s.1, row), part_after(s.1, row))
    }
}

/// A step and the part of it that is being read, after the first `n` rows.
spec fn stepped(rows: Seq<RowView>, n: int, s: (DraftStep, Key)) -> (DraftStep, Key)
    decreases n,
{
    if n <= 0 {
        s
    } else {
        step_taken(stepped(rows, n - 1, s), rows[n - 1])
    }
}

/// The reading of a step after others.
spec fn reading_step(d: Draft, steps: Seq<DraftStep>, s: (DraftStep, Key)) -> Reading {
    Reading { draft: Draft { steps: steps.push(s.0), ..d }, section: Key::Steps, part: s.1 }
}

proof fn lemma_stepped(
    rows: Seq<RowView>,
    n: int,
    d: Draft,
    steps: Seq<DraftStep>,
    s: (DraftStep, Key),
)
    requires
        0 <= n <= rows.len(),
        forall|i: int| 0 <= i < n ==> inner(#[trigger] rows[i]),
    ensures
        drafted(rows, n, reading_step(d, steps, s)) == reading_step(
            d,
            steps,
            stepped(rows, n, s),
        ),
    decreases n,
{
    if n > 0 {
        lemma_stepped(rows, n - 1, d, steps, s);
        let before = stepped(rows, n - 1, s);
        let row = rows[n - 1];
        assert(inner(row));
        assert(steps.push(before.0).drop_last() =~= steps);
    }
}

proof fn lemma_head_drafted(
    rows: Seq<RowView>,
    d: Draft,
    part: Key,
    id: Seq<char>,
    title: Seq<char>,
    agent: Seq<char>,
)
    requires
        rows.len() >= 4,
        rows[0] == item(2, "id"@, id),
        rows[1] == quoted(4, "title"@, title),
        rows[2] == quoted(4, "agent"@, agent),
        rows[3] == bare(4, "prompt"@, "|"@),
        forall|i: int| 4 <= i < rows.len() ==> #[trigger] rows[i] is Text,
    ensures
        drafted_all(rows, Reading { draft: d, section: Key::Steps, part }) == reading_step(
            d,
            d.steps,
            (DraftStep { title, agent, ..new_step(id) }, Key::Other),
        ),
{
    lemma_keys();
    let r = Reading { draft: d, section: Key::Steps, part };
    let s0 = (new_step(id), Key::Other);
    let s1 = (DraftStep { title, ..new_step(id) }, Key::Other);
    let s2 = (DraftStep { title, agent, ..new_step(id) }, Key::Other);
    assert(drafted(rows, 0, r) == r);
    assert(drafted(rows, 1, r) == reading_step(d, d.steps, s0));
    assert(d.steps.push(s0.0).drop_last() =~= d.steps);
    assert(drafted(rows, 2, r) == reading_step(d, d.steps, s1));
    assert(d.steps.push(s1.0).drop_last() =~= d.steps);
    assert(drafted(rows, 3, r) == reading_step(d, d.steps, s2));
    assert(d.steps.push(s2.0).drop_last() =~= d.steps);
    assert(drafted(rows, 4, r) == reading_step(d, d.steps, s2));
    lemma_texts_drafted(rows, 4, rows.len() as int, r);
}

proof fn lemma_texts_drafted(rows: Seq<RowView>, from: int, n: int, r: Reading)
    requires
        0 <= from <= n <= rows.len(),
        forall|i: int| from <= i < n ==> #[trigger] rows[i] is Text,
    ensures
        drafted(rows, n, r) == drafted(rows, from, r),
    decreases n,
{
    if n > from {
        lemma_texts_drafted(rows, from, n - 1, r);
        assert(rows[n - 1] is Text);
    }
}

/// The snippets are added to a step.
proof fn lemma_names_stepped(names: Seq<Seq<char>>, n: int, step: DraftStep)
    requires
        0 <= n <= names.len(),
    ensures
        stepped(command_rows(names), n, (step, Key::Snippets)) == (
            DraftStep { snippets: step.snippets + names.take(n), ..step },
            Key::Snippets,
        ),
    decreases n,
{
    if n > 0 {
        lemma_names_stepped(names, n - 1, step);
        assert(command_rows(names)[n - 1] == entry(6, names[n - 1]));
        assert((step.snippets + names.take(n - 1)).push(names[n - 1]) =~= step.snippets
            + names.take(n));
    } else {
        assert(step.snippets + names.take(0) =~= step.snippets);
    }
}

/// The snippets are added to a step that has none.
proof fn lemma_snippets_drafted(
    base: Seq<Seq<char>>,
    with_preferences: bool,
    d: Draft,
    step: DraftStep,
    part: Key,
)
    requires
        snippet_names(base, with_preferences).len() > 0,
        step.snippets.len() == 0,
    ensures
        drafted_all(
            snippet_rows(base, with_preferences),
            reading_step(d, d.steps, (step, part)),
        ) == reading_step(
            d,
            d.steps,
            (
                DraftStep { snippets: snippet_names(base, with_preferences), ..step },
                Key::Snippets,
            ),
        ),
{
    lemma_keys();
    let names = snippet_names(base, with_preferences);
    let n = names.len() as int;
    let head = seq![section(4, "snippets"@)];
    let s = (step, part);
    let r = reading_step(d, d.steps, s);
    assert(stepped(head, 0, s) == s);
    assert(stepped(head, 1, s) == (step, Key::Snippets));
    lemma_stepped(head, 1, d, d.steps, s);
    lemma_names_stepped(names, n, step);
    lemma_stepped(command_rows(names), n, d, d.steps, (step, Key::Snippets));
    lemma_drafted_appended(head, command_rows(names), r);
    assert(step.snippets + names.take(n) =~= names);
}

/// The commands are added to a step.
proof fn lemma_commands_stepped(commands: Seq<Seq<char>>, n: int, step: DraftStep)
    requires
        0 <= n <= commands.len(),
    ensures
        stepped(command_rows(commands), n, (step, Key::Run)) == (
            DraftStep { run: step.run + commands.take(n), ..step },
            Key::Run,
        ),
    decreases n,
{
    if n > 0 {
        lemma_commands_stepped(commands, n - 1, step);
        assert(command_rows(commands)[n - 1] == entry(6, commands[n - 1]));
        assert((step.run + commands.take(n - 1)).push(commands[n - 1]) =~= step.run
            + commands.take(n));
    } else {
        assert(step.run + commands.take(0) =~= step.run);
    }
}

proof fn lemma_plan_end_stepped(s: (DraftStep, Key))
    ensures
        stepped(plan_end_rows(), 7, s) == (
            DraftStep {
                required: Some(false),
                on_success: hand_over(second(), "review_plan"@, "continue"@),
                ..s.0
            },
            Key::OnSuccess,
        ),
{
    lemma_keys();
    let rows = plan_end_rows();
    let t = new_transition();
    let s1 = (DraftStep { required: Some(false), ..s.0 }, Key::Review);
    let s2 = DraftStep { on_success: Some(t), ..s1.0 };
    let t1 = DraftTransition { handoff_to: Some(second()), ..t };
    let t2 = DraftTransition { next_step: Some("review_plan"@), ..t1 };
    let t3 = DraftTransition { route: Some("continue"@), ..t2 };
    assert(stepped(rows, 0, s) == s);
    assert(stepped(rows, 1, s) == (s.0, Key::Review));
    assert(stepped(rows, 2, s) == s1);
    assert(stepped(rows, 3, s) == (s2, Key::OnSuccess));
    assert(stepped(rows, 4, s) == (DraftStep { on_success: Some(t1), ..s2 }, Key::OnSuccess));
    assert(stepped(rows, 5, s) == (DraftStep { on_success: Some(t2), ..s2 }, Key::OnSuccess));
    assert(stepped(rows, 6, s) == (DraftStep { on_success: Some(t3), ..s2 }, Key::OnSuccess));
}

proof fn lemma_review_plan_end_stepped(s: (DraftStep, Key))
    ensures
        stepped(review_plan_end_rows(), 12, s) == (
            DraftStep {
                gate: Some("quality_gate"@),
                required: Some(true),
                on_success: hand_over(lead(), "implement"@, "continue"@),
                on_failure: hand_over(lead(), "plan"@, "retry"@),
                ..s.0
            },
            Key::OnFailure,
        ),
{
    lemma_keys();
    let rows = review_plan_end_rows();
    let t = new_transition();
    let s1 = DraftStep { gate: Some("quality_gate"@), ..s.0 };
    let s2 = DraftStep { required: Some(true), ..s1 };
    let s3 = DraftStep { on_success: Some(t), ..s2 };
    let t1 = DraftTransition { handoff_to: Some(lead()), ..t };
    let t2 = DraftTransition { next_step: Some("implement"@), ..t1 };
    let s4 = DraftStep { on_success: hand_over(lead(), "implement"@, "continue"@), ..s3 };
    let s5 = DraftStep { on_failure: Some(t), ..s4 };
    let f2 = DraftTransition { next_step: Some("plan"@), ..t1 };
    assert(stepped(rows, 0, s) == s);
    assert(stepped(rows, 1, s) == (s.0, Key::Review));
    assert(stepped(rows, 2, s) == (s1, Key::Review));
    assert(stepped(rows, 3, s) == (s2, Key::Review));
    assert(stepped(rows, 4, s) == (s3, Key::OnSuccess));
    assert(stepped(rows, 5, s) == (DraftStep { on_success: Some(t1), ..s3 }, Key::OnSuccess));
    assert(stepped(rows, 6, s) == (DraftStep { on_success: Some(t2), ..s3 }, Key::OnSuccess));
    assert(stepped(rows, 7, s) == (s4, Key::OnSuccess));
    assert(stepped(rows, 8, s) == (s5, Key::OnFailure));
    assert(stepped(rows, 9, s) == (DraftStep { on_failure: Some(t1), ..s5 }, Key::OnFailure));
    assert(stepped(rows, 10, s) == (DraftStep { on_failure: Some(f2), ..s5 }, Key::OnFailure));
    assert(stepped(rows, 11, s) == (
        DraftStep { on_failure: hand_over(lead(), "plan"@, "retry"@), ..s5 },
        Key::OnFailure,
    ));
}

proof fn lemma_implement_end_stepped(s: (DraftStep, Key))
    ensures
        stepped(implement_end_rows(), 8, s) == (
            DraftStep {
                gate: Some("quality_gate"@),
                required: Some(true),
                on_success: hand_over(second(), "final_review"@, "continue"@),
                ..s.0
            },
            Key::OnSuccess,
        ),
{
    lemma_keys();
    let rows = implement_end_rows();
    let t = new_transition();
    let s1 = DraftStep { gate: Some("quality_gate"@), ..s.0 };
    let s2 = DraftStep { required: Some(true), ..s1 };
    let s3 = DraftStep { on_success: Some(t), ..s2 };
    let t1 = DraftTransition { handoff_to: Some(second()), ..t };
    let t2 = DraftTransition { next_step: Some("final_review"@), ..t1 };
    let s4 = DraftStep { on_success: hand_over(second(), "final_review"@, "continue"@), ..s3 };
    assert(stepped(rows, 0, s) == s);
    assert(stepped(rows, 1, s) == (s.0, Key::Review));
    assert(stepped(rows, 2, s) == (s1, Key::Review));
    assert(stepped(rows, 3, s) == (s2, Key::Review));
    assert(stepped(rows, 4, s) == (s3, Key::OnSuccess));
    assert(stepped(rows, 5, s) == (DraftStep { on_success: Some(t1), ..s3 }, Key::OnSuccess));
    assert(stepped(rows, 6, s) == (DraftStep { on_success: Some(t2), ..s3 }, Key::OnSuccess));
    assert(stepped(rows, 7, s) == (s4, Key::OnSuccess));
}

proof fn lemma_final_review_end_stepped(s: (DraftStep, Key))
    ensures
        stepped(final_review_end_rows(), 6, s) == (
            DraftStep {
                gate: Some("release_gate"@),
                required: Some(true),
                on_success: halting(),
                ..s.0
            },
            Key::OnSuccess,
        ),
{
    lemma_keys();
    let rows = final_review_end_rows();
    let t = new_transition();
    let s1 = DraftStep { gate: Some("release_gate"@), ..s.0 };
    let s2 = DraftStep { required: Some(true), ..s1 };
    let s3 = DraftStep { on_success: Some(t), ..s2 };
    let s4 = DraftStep { on_success: halting(), ..s3 };
    assert(stepped(rows, 0, s) == s);
    assert(stepped(rows, 1, s) == (s.0, Key::Review));
    assert(stepped(rows, 2, s) == (s1, Key::Review));
    assert(stepped(rows, 3, s) == (s2, Key::Review));
    assert(stepped(rows, 4, s) == (s3, Key::OnSuccess));
    assert(stepped(rows, 5, s) == (s4, Key::OnSuccess));
}

proof fn lemma_plan_drafted(d: Draft, part: Key, with_preferences: bool)
    ensures
        drafted_all(
            plan_rows() + snippet_rows(seq!["project_brief"@], with_preferences) + plan_end_rows(),
            Reading { draft: d, section: Key::Steps, part },
        ) == reading_step(d, d.steps, (plan_draft(with_preferences), Key::OnSuccess)),
{
    let a = plan_rows();
    let b = snippet_rows(seq!["project_brief"@], with_preferences);
    let c = plan_end_rows();
    let r = Reading { draft: d, section: Key::Steps, part };
    let title = "Analyze the task and prepare the execution plan"@;
    let s0 = DraftStep { title, agent: lead(), ..new_step("plan"@) };
    let s1 = (
        DraftStep { snippets: snippet_names(seq!["project_brief"@], with_preferences), ..s0 },
        Key::Snippets,
    );
    lemma_head_drafted(a, d, part, "plan"@, title, lead());
    lemma_snippets_drafted(seq!["project_brief"@], with_preferences, d, s0, Key::Other);
    lemma_plan_end_stepped(s1);
    lemma_stepped(c, 7, d, d.steps, s1);
    lemma_drafted_appended(a, b, r);
    lemma_drafted_appended(a + b, c, r);
}

proof fn lemma_review_plan_drafted(d: Draft, part: Key, with_preferences: bool)
    ensures
        drafted_all(
            review_plan_rows() + snippet_rows(seq!["review_brief"@], with_preferences) + review_plan_end_rows(),
            Reading { draft: d, section: Key::Steps, part },
        ) == reading_step(d, d.steps, (review_plan_draft(with_preferences), Key::OnFailure)),
{
    let a = review_plan_rows();
    let b = snippet_rows(seq!["review_brief"@], with_preferences);
    let c = review_plan_end_rows();
    let r = Reading { draft: d, section: Key::Steps, part };
    let title = "Review the plan before implementation"@;
    let s0 = DraftStep { title, agent: second(), ..new_step("review_plan"@) };
    let s1 = (
        DraftStep { snippets: snippet_names(seq!["review_brief"@], with_preferences), ..s0 },
        Key::Snippets,
    );
    lemma_head_drafted(a, d, part, "review_plan"@, title, second());
    lemma_snippets_drafted(seq!["review_brief"@], with_preferences, d, s0, Key::Other);
    lemma_review_plan_end_stepped(s1);
    lemma_stepped(c, 12, d, d.steps, s1);
    lemma_drafted_appended(a, b, r);
    lemma_drafted_appended(a + b, c, r);
}

proof fn lemma_final_review_drafted(d: Draft, part: Key, with_preferences: bool)
    ensures
        drafted_all(
            final_review_rows() + snippet_rows(seq!["review_brief"@], with_preferences) + final_review_end_rows(),
            Reading { draft: d, section: Key::Steps, part },
        ) == reading_step(d, d.steps, (final_review_draft(with_preferences), Key::OnSuccess)),
{
    let a = final_review_rows();
    let b = snippet_rows(seq!["review_brief"@], with_preferences);
    let c = final_review_end_rows();
    let r = Reading { draft: d, section: Key::Steps, part };
    let title = "Approve the final result"@;
    let s0 = DraftStep { title, agent: second(), ..new_step("final_review"@) };
    let s1 = (
        DraftStep { snippets: snippet_names(seq!["review_brief"@], with_preferences), ..s0 },
        Key::Snippets,
    );
    lemma_head_drafted(a, d, part, "final_review"@, title, second());
    lemma_snippets_drafted(seq!["review_brief"@], with_preferences, d, s0, Key::Other);
    lemma_final_review_end_stepped(s1);
    lemma_stepped(c, 6, d, d.steps, s1);
    lemma_drafted_appended(a, b, r);
    lemma_drafted_appended(a + b, c, r);
}

/// The third step before its commands.
spec fn implement_begun(with_preferences: bool) -> DraftStep {
    implement_run(Seq::empty(), with_preferences)
}

/// The third step after its commands.
spec fn implement_run(commands: Seq<Seq<char>>, with_preferences: bool) -> DraftStep {
    DraftStep {
        title: "Implement the approved changes"@,
        agent: lead(),
        run: commands,
        snippets: snippet_names(Seq::empty(), with_preferences),
        ..new_step("implement"@)
    }
}

proof fn lemma_implement_drafted(d: Draft, part: Key, with_preferences: bool)
    ensures
        drafted_all(
            implement_rows() + snippet_rows(Seq::empty(), with_preferences) + seq![
                section(4, "run"@),
            ],
            Reading { draft: d, section: Key::Steps, part },
        ) == reading_step(d, d.steps, (implement_begun(with_preferences), Key::Run)),
{
    let a = implement_rows();
    let b = snippet_rows(Seq::empty(), with_preferences);
    let c = seq![section(4, "run"@)];
    let r = Reading { draft: d, section: Key::Steps, part };
    let title = "Implement the approved changes"@;
    let s0 = DraftStep { title, agent: lead(), ..new_step("implement"@) };
    let s1 = (
        implement_begun(with_preferences),
        if with_preferences {
            Key::Snippets
        } else {
            Key::Other
        },
    );
    lemma_keys();
    lemma_head_drafted(a, d, part, "implement"@, title, lead());
    lemma_drafted_appended(a, b, r);
    if with_preferences {
        lemma_snippets_drafted(Seq::empty(), true, d, s0, Key::Other);
    } else {
        assert(s0 == implement_begun(false));
    }
    assert(stepped(c, 0, s1) == s1);
    assert(stepped(c, 1, s1) == (s1.0, Key::Run));
    lemma_stepped(c, 1, d, d.steps, s1);
    lemma_drafted_appended(a + b, c, r);
}

proof fn lemma_commands_drafted(d: Draft, commands: Seq<Seq<char>>, with_preferences: bool)
    ensures
        drafted_all(
            command_rows(commands),
            reading_step(d, d.steps, (implement_begun(with_preferences), Key::Run)),
        ) == reading_step(d, d.steps, (implement_run(commands, with_preferences), Key::Run)),
{
    let n = commands.len() as int;
    let begun = implement_begun(with_preferences);
    lemma_commands_stepped(commands, n, begun);
    lemma_stepped(command_rows(commands), n, d, d.steps, (begun, Key::Run));
    assert(begun.run + commands.take(n) =~= commands);
}

proof fn lemma_implement_end_drafted(d: Draft, commands: Seq<Seq<char>>, with_preferences: bool)
    ensures
        drafted_all(
            implement_end_rows(),
            reading_step(d, d.steps, (implement_run(commands, with_preferences), Key::Run)),
        ) == reading_step(
            d,
            d.steps,
            (implement_draft(commands, with_preferences), Key::OnSuccess),
        ),
{
    let s = (implement_run(commands, with_preferences), Key::Run);
    lemma_implement_end_stepped(s);
    lemma_stepped(implement_end_rows(), 8, d, d.steps, s);
}

/// The snippet that holds preferences is named, and nothing else is said of it.
proof fn lemma_preferences_drafted(preferences: Option<Seq<char>>, r: Reading)
    requires
        r.section == Key::Snippets,
    ensures
        drafted_all(preferences_part(preferences), r) == (Reading {
            draft: Draft {
                snippets: snippet_names(r.draft.snippets, preferred(preferences)),
                ..r.draft
            },
            ..r
        }),
{
    if preferred(preferences) {
        let rows = preferences_part(preferences);
        let after = Reading {
            draft: Draft { snippets: r.draft.snippets.push("custom_preferences"@), ..r.draft },
            ..r
        };
        assert(rows[0] == section(2, "custom_preferences"@));
        assert(drafted(rows, 0, r) == r);
        assert(drafted(rows, 1, r) == after);
        assert(drafted(rows, 2, r) == after);
        assert(drafted(rows, 3, r) == after);
        assert(drafted(rows, 4, r) == after);
        lemma_texts_drafted(rows, 4, rows.len() as int, r);
    }
}

/// The workflow before its steps.
spec fn before_steps(analysis: AnalysisView, with_preferences: bool) -> Draft {
    Draft {
        version: "1"@,
        name: analysis.name + "-generated"@,
        snippets: all_snippets(with_preferences),
        agents: seq![lead(), second()],
        steps: Seq::empty(),
        gates: Seq::empty(),
    }
}

/// The workflow with so many of its steps.
spec fn with_steps(
    analysis: AnalysisView,
    with_preferences: bool,
    steps: Seq<DraftStep>,
) -> Draft {
    Draft { steps, ..before_steps(analysis, with_preferences) }
}

/// The rows before the steps.
spec fn first_rows(analysis: AnalysisView, preferences: Option<Seq<char>>) -> Seq<RowView> {
    head_rows(analysis) + preferences_part(preferences) + review_brief_rows() + agents_rows()
}

proof fn lemma_first_rows_drafted(analysis: AnalysisView, preferences: Option<Seq<char>>)
    ensures
        drafted_all(first_rows(analysis, preferences), unread()) == (Reading {
            draft: before_steps(analysis, preferred(preferences)),
            section: Key::Steps,
            part: Key::Other,
        }),
{
    let r = unread();
    let head = head_rows(analysis);
    let part = preferences_part(preferences);
    lemma_opening_drafted(analysis);
    lemma_drafted_appended(opening_rows(analysis), brief_rows(analysis), r);
    lemma_brief_drafted(analysis, drafted_all(opening_rows(analysis), r));
    let r2 = drafted_all(head, r);
    assert(r2.draft.snippets =~= seq!["project_brief"@]);
    lemma_drafted_appended(head, part, r);
    lemma_preferences_drafted(preferences, r2);
    let r3 = drafted_all(head + part, r);
    lemma_drafted_appended(head + part, review_brief_rows(), r);
    lemma_review_brief_drafted(r3);
    let r4 = drafted_all(head + part + review_brief_rows(), r);
    lemma_drafted_appended(head + part + review_brief_rows(), agents_rows(), r);
    lemma_agents_drafted(r4);
}

/// The rows up to the commands of the third step.
spec fn early_rows(analysis: AnalysisView, preferences: Option<Seq<char>>) -> Seq<RowView> {
    let with_preferences = preferred(preferences);
    first_rows(analysis, preferences) + (plan_rows() + snippet_rows(
        seq!["project_brief"@],
        with_preferences,
    ) + plan_end_rows()) + (review_plan_rows() + snippet_rows(
        seq!["review_brief"@],
        with_preferences,
    ) + review_plan_end_rows()) + (implement_rows() + snippet_rows(Seq::empty(), with_preferences)
        + seq![section(4, "run"@)])
}

/// The first two steps.
spec fn early_steps(with_preferences: bool) -> Seq<DraftStep> {
    Seq::<DraftStep>::empty().push(plan_draft(with_preferences)).push(
        review_plan_draft(with_preferences),
    )
}

proof fn lemma_early_drafted(analysis: AnalysisView, preferences: Option<Seq<char>>)
    ensures
        ({
            let with_preferences = preferred(preferences);
            drafted_all(early_rows(analysis, preferences), unread()) == reading_step(
                with_steps(analysis, with_preferences, early_steps(with_preferences)),
                early_steps(with_preferences),
                (implement_begun(with_preferences), Key::Run),
            )
        }),
{
    let with_preferences = preferred(preferences);
    let r = unread();
    let none = Seq::<DraftStep>::empty();
    let one = none.push(plan_draft(with_preferences));
    let two = early_steps(with_preferences);
    let first = first_rows(analysis, preferences);
    let plan = plan_rows() + snippet_rows(seq!["project_brief"@], with_preferences)
        + plan_end_rows();
    let review = review_plan_rows() + snippet_rows(seq!["review_brief"@], with_preferences)
        + review_plan_end_rows();
    let implement = implement_rows() + snippet_rows(Seq::empty(), with_preferences) + seq![
        section(4, "run"@),
    ];
    lemma_first_rows_drafted(analysis, preferences);
    lemma_drafted_appended(first, plan, r);
    lemma_plan_drafted(
        with_steps(analysis, with_preferences, none),
        Key::Other,
        with_preferences,
    );
    lemma_drafted_appended(first + plan, review, r);
    lemma_review_plan_drafted(
        with_steps(analysis, with_preferences, one),
        Key::OnSuccess,
        with_preferences,
    );
    lemma_drafted_appended(first + plan + review, implement, r);
    lemma_implement_drafted(
        with_steps(analysis, with_preferences, two),
        Key::OnFailure,
        with_preferences,
    );
}

proof fn lemma_late_drafted(analysis: AnalysisView, preferences: Option<Seq<char>>)
    ensures
        drafted_all(
            early_rows(analysis, preferences) + command_rows(analysis.validation_commands)
                + tail_rows(preferred(preferences)),
            unread(),
        ).draft == project_draft(analysis, preferred(preferences)),
{
    let with_preferences = preferred(preferences);
    let commands = analysis.validation_commands;
    let r = unread();
    let two = early_steps(with_preferences);
    let three = two.push(implement_draft(commands, with_preferences));
    let d2 = with_steps(analysis, with_preferences, two);
    let d3 = with_steps(analysis, with_preferences, three);
    let early = early_rows(analysis, preferences);
    let end = implement_end_rows();
    let last = final_review_rows() + snippet_rows(seq!["review_brief"@], with_preferences)
        + final_review_end_rows();
    lemma_early_drafted(analysis, preferences);
    lemma_drafted_appended(early, command_rows(commands), r);
    lemma_commands_drafted(d2, commands, with_preferences);
    let r1 = drafted_all(early + command_rows(commands), r);
    lemma_drafted_appended(early + command_rows(commands), tail_rows(with_preferences), r);
    lemma_implement_end_drafted(d2, commands, with_preferences);
    lemma_drafted_appended(end, last, r1);
    lemma_final_review_drafted(d3, Key::OnSuccess, with_preferences);
    lemma_drafted_appended(end + last, review_gates_rows(), r1);
    lemma_gates_drafted(drafted_all(end + last, r1));
    assert(three.push(final_review_draft(with_preferences)) =~= project_draft(
        analysis,
        with_preferences,
    ).steps);
}

proof fn lemma_workflow_parts(analysis: AnalysisView, preferences: Option<Seq<char>>)
    ensures
        workflow_rows(analysis, preferences) == early_rows(analysis, preferences) + command_rows(
            analysis.validation_commands,
        ) + tail_rows(preferred(preferences)),
{
    assert(head_rows(analysis) + preferences_part(preferences) + middle_rows(
        preferred(preferences),
    ) =~= early_rows(analysis, preferences));
}

proof fn lemma_workflow_drafted(analysis: AnalysisView, preferences: Option<Seq<char>>)
    ensures
        drafted_all(workflow_rows(analysis, preferences), unread()).draft == project_draft(
            analysis,
            preferred(preferences),
        ),
{
    lemma_workflow_parts(analysis, preferences);
    lemma_late_drafted(analysis, preferences);
}

// ---------------------------------------------------------------------------
// Laws
// ---------------------------------------------------------------------------

proof fn lemma_rows_drafted(rows: Seq<RowView>, d: Draft)
    requires
        rows_fit(rows, None),
        drafted_all(rows, unread()).draft == d,
    ensures
        read_workflow(rows_text(rows)) == Some(d),
{
    reveal(read_workflow);
    law_rows_are_read_back(rows);
}

/// The text that is generated for a project, read back, is the workflow of that
/// project: under its name, with its commands in the third step and, where there
/// are preferences, with the snippet that holds them in every step.
pub proof fn law_generated_text_is_read(analysis: AnalysisView, preferences: Option<Seq<char>>)
    requires
        writable(preferences),
    ensures
        read_workflow(workflow_text(analysis, preferences)) == Some(
            project_draft(analysis, preferred(preferences)),
        ),
{
    let rows = workflow_rows(analysis, preferences);
    lemma_workflow_fits(analysis, preferences);
    lemma_workflow_drafted(analysis, preferences);
    lemma_rows_drafted(rows, project_draft(analysis, preferred(preferences)));
    assert(workflow_text(analysis, preferences) == rows_text(rows)) by {
        reveal(workflow_text);
    }
}

proof fn lemma_not_blank(text: Seq<char>, i: int)
    requires
        0 <= i < text.len(),
        !is_white_space(text[i]),
    ensures
        !blank(text),
{
}

proof fn lemma_step_ids()
    ensures
        "plan"@ != "review_plan"@,
        "plan"@ != "implement"@,
        "plan"@ != "final_review"@,
        "review_plan"@ != "implement"@,
        "review_plan"@ != "final_review"@,
        "implement"@ != "final_review"@,
{
    reveal_strlit("plan");
    reveal_strlit("review_plan");
    reveal_strlit("implement");
    reveal_strlit("final_review");
    assert("plan"@.len() == 4);
    assert("review_plan"@.len() == 11);
    assert("implement"@.len() == 9);
    assert("final_review"@.len() == 12);
}

proof fn lemma_titles(analysis: AnalysisView, with_preferences: bool)
    ensures
        !blank("1"@),
        !blank(analysis.name + "-generated"@),
        !blank(plan_draft(with_preferences).title),
        !blank(review_plan_draft(with_preferences).title),
        !blank(implement_draft(analysis.validation_commands, with_preferences).title),
        !blank(final_review_draft(with_preferences).title),
{
    reveal_strlit("1");
    lemma_not_blank("1"@, 0);
    reveal_strlit("-generated");
    let name = analysis.name + "-generated"@;
    assert(name[analysis.name.len() as int] == "-generated"@[0]);
    lemma_not_blank(name, analysis.name.len() as int);
    reveal_strlit("Analyze the task and prepare the execution plan");
    lemma_not_blank(plan_draft(with_preferences).title, 0);
    reveal_strlit("Review the plan before implementation");
    lemma_not_blank(review_plan_draft(with_preferences).title, 0);
    reveal_strlit("Implement the approved changes");
    lemma_not_blank(implement_draft(analysis.validation_commands, with_preferences).title, 0);
    reveal_strlit("Approve the final result");
    lemma_not_blank(final_review_draft(with_preferences).title, 0);
}

/// Whether a transition leads only to what the draft defines.
spec fn transition_closed(d: Draft, t: Option<DraftTransition>) -> bool {
    match t {
        Some(t) => {
            &&& t.next_step matches Some(id) ==> exists|i: int|
                0 <= i < d.steps.len() && (#[trigger] d.steps[i]).id == id
            &&& t.handoff_to matches Some(agent) ==> d.agents.contains(agent)
        },
        None => true,
    }
}

/// Whether a step refers only to what the draft defines.
spec fn step_closed(d: Draft, step: DraftStep) -> bool {
    &&& !blank(step.title)
    &&& d.agents.contains(step.agent)
    &&& forall|k: int|
        0 <= k < step.snippets.len() ==> d.snippets.contains(#[trigger] step.snippets[k])
    &&& step.gate matches Some(gate) ==> d.gates.contains(gate)
    &&& step.required == Some(false) || step.required == Some(true) && step.gate is Some
    &&& transition_closed(d, step.on_success)
    &&& transition_closed(d, step.on_failure)
}

proof fn lemma_project_closed(analysis: AnalysisView, with_preferences: bool)
    ensures
        ({
            let d = project_draft(analysis, with_preferences);
            forall|i: int| 0 <= i < 4 ==> step_closed(d, #[trigger] d.steps[i])
        }),
{
    let d = project_draft(analysis, with_preferences);
    lemma_titles(analysis, with_preferences);
    assert(d.agents[0] == lead());
    assert(d.agents[1] == second());
    assert(d.snippets[0] == "project_brief"@);
    assert(d.snippets[d.snippets.len() - 1] == "review_brief"@);
    assert(with_preferences ==> d.snippets[1] == "custom_preferences"@);
    assert(d.gates[0] == "quality_gate"@);
    assert(d.gates[1] == "release_gate"@);
    assert(d.steps[0].id == "plan"@);
    assert(d.steps[1].id == "review_plan"@);
    assert(d.steps[2].id == "implement"@);
    assert(d.steps[3].id == "final_review"@);
    assert(step_closed(d, plan_draft(with_preferences)));
    assert(step_closed(d, review_plan_draft(with_preferences)));
    assert(step_closed(d, implement_draft(analysis.validation_commands, with_preferences)));
    assert(step_closed(d, final_review_draft(with_preferences)));
}

proof fn lemma_transition_consistent(
    w: &Workflow,
    d: Draft,
    t: Option<StepTransition>,
    draft: Option<DraftTransition>,
)
    requires
        says(w, d),
        transition_says(t, draft),
        transition_closed(d, draft),
    ensures
        transition_consistent(w, t),
{
    if let Some(t) = t {
        if let Some(next) = t.next_step {
            let i = choose|i: int| 0 <= i < d.steps.len() && (#[trigger] d.steps[i]).id == next@;
            assert(step_says(&w.steps@[i], d.steps[i]));
            lemma_step_position(w.steps@, next@);
        }
        if let Some(agent) = t.handoff_to {
            lemma_lookup_names(agent_entries(w.agents), agent@);
        }
    }
}

proof fn lemma_step_consistent(w: &Workflow, d: Draft, step: &Step, draft: DraftStep)
    requires
        says(w, d),
        step_says(step, draft),
        step_closed(d, draft),
    ensures
        step_consistent(w, step),
{
    lemma_lookup_names(agent_entries(w.agents), step.agent@);
    assert forall|k: int| 0 <= k < step.snippets@.len() implies snippet_known(
        w,
        (#[trigger] step.snippets@[k])@,
    ) by {
        assert(texts(step.snippets@)[k] == step.snippets@[k]@);
        assert(d.snippets.contains(draft.snippets[k]));
        lemma_lookup_names(snippet_entries(w.snippets), step.snippets@[k]@);
    }
    if let Some(gate) = step.review.gate {
        let i = choose|i: int| 0 <= i < d.gates.len() && d.gates[i] == gate@;
        assert(w.review_gates@[i].id@ == d.gates[i]);
        lemma_gate_position(w.review_gates@, gate@);
    }
    lemma_transition_consistent(w, d, step.on_success, draft.on_success);
    lemma_transition_consistent(w, d, step.on_failure, draft.on_failure);
}

/// A workflow that is as the text generated for a project has it passes
/// validation. It bears the name of the project, has four steps, and runs the
/// commands of the project in the third of them and none elsewhere. Where there
/// are preferences, every step has the snippet that holds them. A project without
/// commands is left out: a key without a value is no list in YAML.
pub proof fn law_generated_workflow_is_valid(
    analysis: AnalysisView,
    preferences: Option<Seq<char>>,
    w: &Workflow,
)
    requires
        analysis.validation_commands.len() > 0,
        writable(preferences),
        read_workflow(workflow_text(analysis, preferences)) matches Some(d) && says(w, d),
    ensures
        consistent(w),
        w.name@ == analysis.name + "-generated"@,
        w.steps@.len() == 4,
        w.steps@[0].id@ == "plan"@,
        w.steps@[1].id@ == "review_plan"@,
        w.steps@[2].id@ == "implement"@,
        w.steps@[3].id@ == "final_review"@,
        w.steps@[0].run@.len() == 0,
        w.steps@[1].run@.len() == 0,
        texts(w.steps@[2].run@) == analysis.validation_commands,
        w.steps@[3].run@.len() == 0,
        preferred(preferences) ==> names(snippet_entries(w.snippets)).contains(
            "custom_preferences"@,
        ),
        preferred(preferences) ==> forall|i: int|
            0 <= i < 4 ==> texts((#[trigger] w.steps@[i]).snippets@).contains(
                "custom_preferences"@,
            ),
{
    law_generated_text_is_read(analysis, preferences);
    let with_preferences = preferred(preferences);
    let d = project_draft(analysis, with_preferences);
    lemma_project_closed(analysis, with_preferences);
    lemma_titles(analysis, with_preferences);
    lemma_step_ids();
    assert(step_says(&w.steps@[0], d.steps[0]));
    assert(step_says(&w.steps@[1], d.steps[1]));
    assert(step_says(&w.steps@[2], d.steps[2]));
    assert(step_says(&w.steps@[3], d.steps[3]));
    assert(texts(w.steps@[0].run@).len() == 0);
    assert(texts(w.steps@[1].run@).len() == 0);
    assert(texts(w.steps@[3].run@).len() == 0);
    assert(names(agent_entries(w.agents)).len() == 2);
    if with_preferences {
        assert(d.snippets[1] == "custom_preferences"@);
        assert forall|i: int| 0 <= i < 4 implies texts(
            (#[trigger] w.steps@[i]).snippets@,
        ).contains("custom_preferences"@) by {
            assert(step_says(&w.steps@[i], d.steps[i]));
            let snippets = d.steps[i].snippets;
            assert(snippets[snippets.len() - 1] == "custom_preferences"@);
        }
    }
    assert forall|i: int| 0 <= i < w.steps@.len() implies step_consistent(
        w,
        &#[trigger] w.steps@[i],
    ) by {
        lemma_step_consistent(w, d, &w.steps@[i], d.steps[i]);
    }
}

} // verus!
