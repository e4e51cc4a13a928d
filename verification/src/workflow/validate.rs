//! Whether the parts of a workflow fit together.
//!
//! Validation looks at the whole workflow and reports every issue that it
//! finds, not only the first.

use vstd::prelude::*;
use vstd::string::*;

use super::maps::{
    agent_entries, agent_names, has_snippet, lemma_lookup_names, lookup, names, no_agents,
    snippet_entries,
};
use super::model::{
    gate_position, lemma_gate_position, lemma_step_position, step_position, Step, StepTransition,
    Workflow,
};
use crate::error::{WorkflowError, WorkflowErrorView};
use crate::text::{blank, contains, is_blank, join, joined, lemma_contains_part, same, texts};

verus! {

// ---------------------------------------------------------------------------
// Consistency
// ---------------------------------------------------------------------------

/// Whether the workflow defines an agent of that name.
pub open spec fn agent_known(w: &Workflow, name: Seq<char>) -> bool {
    lookup(agent_entries(w.agents), name) is Some
}

/// Whether the workflow defines a snippet of that name.
pub open spec fn snippet_known(w: &Workflow, name: Seq<char>) -> bool {
    lookup(snippet_entries(w.snippets), name) is Some
}

/// Whether the workflow defines a step with that id.
pub open spec fn step_known(w: &Workflow, id: Seq<char>) -> bool {
    step_position(w.steps@, id) is Some
}

/// Whether the workflow defines a gate with that id.
pub open spec fn gate_known(w: &Workflow, id: Seq<char>) -> bool {
    gate_position(w.review_gates@, id) is Some
}

/// Whether a transition leads only to what the workflow defines.
pub open spec fn transition_consistent(w: &Workflow, transition: Option<StepTransition>) -> bool {
    match transition {
        Some(t) => {
            &&& t.next_step matches Some(next) ==> step_known(w, next@)
            &&& t.handoff_to matches Some(agent) ==> agent_known(w, agent@)
        },
        None => true,
    }
}

/// Whether a step has a title and refers only to what the workflow defines.
pub open spec fn step_consistent(w: &Workflow, step: &Step) -> bool {
    &&& !blank(step.title@)
    &&& agent_known(w, step.agent@)
    &&& forall|k: int|
        0 <= k < step.snippets@.len() ==> snippet_known(w, (#[trigger] step.snippets@[k])@)
    &&& step.review.gate matches Some(gate) ==> gate_known(w, gate@)
    &&& w.review_required(step) ==> step.review.gate is Some
    &&& transition_consistent(w, step.on_success)
    &&& transition_consistent(w, step.on_failure)
}

/// Whether the parts of a workflow fit together.
pub open spec fn consistent(w: &Workflow) -> bool {
    &&& !blank(w.version@)
    &&& !blank(w.name@)
    &&& agent_entries(w.agents).len() > 0
    &&& w.steps@.len() > 0
    &&& forall|i: int, j: int|
        0 <= i < j < w.steps@.len() ==> (#[trigger] w.steps@[i]).id@ != (
        #[trigger] w.steps@[j]).id@
    &&& forall|i: int| 0 <= i < w.steps@.len() ==> step_consistent(w, &#[trigger] w.steps@[i])
}

// ---------------------------------------------------------------------------
// Issues
// ---------------------------------------------------------------------------

/// The issue, if there is one.
pub open spec fn issue_if(found: bool, issue: Seq<char>) -> Seq<Seq<char>> {
    if found {
        seq![issue]
    } else {
        Seq::empty()
    }
}

/// What is wrong with the workflow apart from its steps.
pub open spec fn general_issues(w: &Workflow) -> Seq<Seq<char>> {
    issue_if(blank(w.version@), "`version` must not be empty"@) + issue_if(
        blank(w.name@),
        "`name` must not be empty"@,
    ) + issue_if(agent_entries(w.agents).len() == 0, "at least one agent must be defined"@)
        + issue_if(w.steps@.len() == 0, "at least one step must be defined"@)
}

/// Whether an earlier step has the id of step `i`.
pub open spec fn id_taken(steps: Seq<Step>, i: int) -> bool {
    exists|j: int| 0 <= j < i && (#[trigger] steps[j]).id@ == steps[i].id@
}

/// What is wrong with the first `n` snippet references of a step.
pub open spec fn snippet_issues(w: &Workflow, step: &Step, n: int) -> Seq<Seq<char>>
    decreases n,
{
    if n <= 0 {
        Seq::empty()
    } else {
        let name = step.snippets@[n - 1]@;
        snippet_issues(w, step, n - 1) + issue_if(
            !snippet_known(w, name),
            "step `"@ + step.id@ + "` references unknown snippet `"@ + name + "`"@,
        )
    }
}

/// What is wrong with the review gate that a step names.
pub open spec fn gate_issues(w: &Workflow, step: &Step) -> Seq<Seq<char>> {
    match step.review.gate {
        Some(gate) => issue_if(
            !gate_known(w, gate@),
            "step `"@ + step.id@ + "` references unknown review gate `"@ + gate@ + "`"@,
        ),
        None => Seq::empty(),
    }
}

/// What is wrong with step `i`, apart from its transitions.
pub open spec fn step_issues(w: &Workflow, i: int) -> Seq<Seq<char>> {
    let step = &w.steps@[i];
    issue_if(id_taken(w.steps@, i), "duplicate step id `"@ + step.id@ + "`"@) + issue_if(
        blank(step.title@),
        "step `"@ + step.id@ + "` must have a non-empty title"@,
    ) + issue_if(
        !agent_known(w, step.agent@),
        "step `"@ + step.id@ + "` references unknown agent `"@ + step.agent@ + "`"@,
    ) + snippet_issues(w, step, step.snippets@.len() as int) + gate_issues(w, step) + issue_if(
        w.review_required(step) && step.review.gate is None,
        "step `"@ + step.id@ + "` requires review but does not declare a `review.gate`"@,
    )
}

/// What is wrong with the transition of a step that has the given name.
pub open spec fn transition_issues(
    w: &Workflow,
    step: &Step,
    name: Seq<char>,
    transition: Option<StepTransition>,
) -> Seq<Seq<char>> {
    match transition {
        Some(t) => {
            (match t.next_step {
                Some(next) => issue_if(
                    !step_known(w, next@),
                    "step `"@ + step.id@ + "` "@ + name + " references unknown next step `"@ + next@
                        + "`"@,
                ),
                None => Seq::empty(),
            }) + (match t.handoff_to {
                Some(agent) => issue_if(
                    !agent_known(w, agent@),
                    "step `"@ + step.id@ + "` "@ + name + " references unknown handoff agent `"@
                        + agent@ + "`"@,
                ),
                None => Seq::empty(),
            })
        },
        None => Seq::empty(),
    }
}

/// What is wrong with the transitions of step `i`.
pub open spec fn routing_issues(w: &Workflow, i: int) -> Seq<Seq<char>> {
    let step = &w.steps@[i];
    transition_issues(w, step, "on_success"@, step.on_success) + transition_issues(
        w,
        step,
        "on_failure"@,
        step.on_failure,
    )
}

/// What is wrong with the first `n` steps, apart from their transitions.
pub open spec fn issues_of_steps(w: &Workflow, n: int) -> Seq<Seq<char>>
    decreases n,
{
    if n <= 0 {
        Seq::empty()
    } else {
        issues_of_steps(w, n - 1) + step_issues(w, n - 1)
    }
}

/// What is wrong with the transitions of the first `n` steps.
pub open spec fn issues_of_routing(w: &Workflow, n: int) -> Seq<Seq<char>>
    decreases n,
{
    if n <= 0 {
        Seq::empty()
    } else {
        issues_of_routing(w, n - 1) + routing_issues(w, n - 1)
    }
}

/// Everything that is wrong with a workflow, in the order of its report.
pub open spec fn workflow_issues(w: &Workflow) -> Seq<Seq<char>> {
    general_issues(w) + issues_of_steps(w, w.steps@.len() as int) + issues_of_routing(
        w,
        w.steps@.len() as int,
    )
}

// ---------------------------------------------------------------------------
// Laws
// ---------------------------------------------------------------------------

proof fn lemma_no_snippet_issues(w: &Workflow, step: &Step, n: int)
    requires
        0 <= n <= step.snippets@.len(),
    ensures
        snippet_issues(w, step, n).len() == 0 <==> forall|k: int|
            0 <= k < n ==> snippet_known(w, (#[trigger] step.snippets@[k])@),
    decreases n,
{
    if n > 0 {
        lemma_no_snippet_issues(w, step, n - 1);
        if snippet_issues(w, step, n).len() == 0 {
            assert forall|k: int| 0 <= k < n implies snippet_known(
                w,
                (#[trigger] step.snippets@[k])@,
            ) by {
                if k == n - 1 {
                    assert(snippet_known(w, step.snippets@[n - 1]@));
                }
            }
        } else if forall|k: int|
            0 <= k < n ==> snippet_known(w, (#[trigger] step.snippets@[k])@) {
            assert(snippet_known(w, step.snippets@[n - 1]@));
        }
    }
}

proof fn lemma_no_step_issues(w: &Workflow, n: int)
    requires
        0 <= n <= w.steps@.len(),
    ensures
        issues_of_steps(w, n).len() == 0 <==> forall|i: int|
            0 <= i < n ==> (#[trigger] step_issues(w, i)).len() == 0,
    decreases n,
{
    if n > 0 {
        lemma_no_step_issues(w, n - 1);
        if issues_of_steps(w, n).len() == 0 {
            assert(step_issues(w, n - 1).len() == 0);
        }
    }
}

proof fn lemma_no_routing_issues(w: &Workflow, n: int)
    requires
        0 <= n <= w.steps@.len(),
    ensures
        issues_of_routing(w, n).len() == 0 <==> forall|i: int|
            0 <= i < n ==> (#[trigger] routing_issues(w, i)).len() == 0,
    decreases n,
{
    if n > 0 {
        lemma_no_routing_issues(w, n - 1);
        if issues_of_routing(w, n).len() == 0 {
            assert(routing_issues(w, n - 1).len() == 0);
        }
    }
}

proof fn lemma_step_without_issues(w: &Workflow, i: int)
    requires
        0 <= i < w.steps@.len(),
    ensures
        step_issues(w, i).len() == 0 && routing_issues(w, i).len() == 0 <==> !id_taken(w.steps@, i)
            && step_consistent(w, &w.steps@[i]),
{
    let step = &w.steps@[i];
    lemma_no_snippet_issues(w, step, step.snippets@.len() as int);
    let s = transition_issues(w, step, "on_success"@, step.on_success);
    let f = transition_issues(w, step, "on_failure"@, step.on_failure);
    assert(s.len() == 0 <==> transition_consistent(w, step.on_success));
    assert(f.len() == 0 <==> transition_consistent(w, step.on_failure));
}

/// Validation finds an issue with a workflow exactly when its parts do not fit
/// together.
pub proof fn law_issues_are_inconsistencies(w: &Workflow)
    ensures
        workflow_issues(w).len() == 0 <==> consistent(w),
{
    let n = w.steps@.len() as int;
    lemma_no_step_issues(w, n);
    lemma_no_routing_issues(w, n);
    if workflow_issues(w).len() == 0 {
        assert(general_issues(w).len() == 0);
        assert forall|i: int, j: int| 0 <= i < j < n implies (#[trigger] w.steps@[i]).id@ != (
        #[trigger] w.steps@[j]).id@ by {
            assert(step_issues(w, j).len() == 0);
            assert(routing_issues(w, j).len() == 0);
            lemma_step_without_issues(w, j);
        }
        assert forall|i: int| 0 <= i < n implies step_consistent(w, &#[trigger] w.steps@[i]) by {
            assert(step_issues(w, i).len() == 0);
            assert(routing_issues(w, i).len() == 0);
            lemma_step_without_issues(w, i);
        }
    }
    if consistent(w) {
        assert forall|i: int| 0 <= i < n implies (#[trigger] step_issues(w, i)).len() == 0 by {
            assert(step_consistent(w, &w.steps@[i]));
            lemma_step_without_issues(w, i);
        }
        assert forall|i: int| 0 <= i < n implies (#[trigger] routing_issues(w, i)).len() == 0 by {
            assert(step_consistent(w, &w.steps@[i]));
            lemma_step_without_issues(w, i);
        }
    }
}

/// Every one of several texts stands in what they are joined to.
pub proof fn lemma_joined_contains(parts: Seq<Seq<char>>, separator: Seq<char>, i: int)
    requires
        0 <= i < parts.len(),
    ensures
        contains(joined(parts, separator), parts[i]),
    decreases parts.len(),
{
    let empty = Seq::<char>::empty();
    if parts.len() == 1 {
        lemma_contains_part(empty, parts[0], empty);
        assert(empty + parts[0] + empty =~= parts[0]);
    } else if i == parts.len() - 1 {
        let before = joined(parts.drop_last(), separator) + separator;
        lemma_contains_part(before, parts[i], empty);
        assert(before + parts[i] + empty =~= before + parts[i]);
    } else {
        lemma_joined_contains(parts.drop_last(), separator, i);
        let start = joined(parts.drop_last(), separator);
        crate::text::lemma_contains_appended(start, separator + parts.last(), parts[i]);
        assert(start + (separator + parts.last()) =~= start + separator + parts.last());
    }
}

/// A transition leads to steps and agents of the workflow.
pub open spec fn leads_within(w: &Workflow, transition: Option<StepTransition>) -> bool {
    transition matches Some(t) ==> {
        &&& t.next_step matches Some(id) ==> exists|j: int|
            0 <= j < w.steps@.len() && (#[trigger] w.steps@[j]).id@ == id@
        &&& t.handoff_to matches Some(agent) ==> names(agent_entries(w.agents)).contains(agent@)
    }
}

/// A workflow is accepted exactly if it has a version, a name, an agent and a step;
/// no two of its steps have the same id; and every step has a title, refers to
/// agents, snippets, steps and review gates of the workflow only, and names a
/// review gate where it must be reviewed.
pub proof fn law_what_makes_a_workflow_valid(w: &Workflow)
    ensures
        consistent(w) <==> {
            &&& !blank(w.version@)
            &&& !blank(w.name@)
            &&& agent_entries(w.agents).len() > 0
            &&& w.steps@.len() > 0
            &&& forall|i: int, j: int|
                0 <= i < w.steps@.len() && 0 <= j < w.steps@.len() && i != j ==> (
                #[trigger] w.steps@[i]).id@ != (#[trigger] w.steps@[j]).id@
            &&& forall|i: int|
                0 <= i < w.steps@.len() ==> {
                    let step = #[trigger] w.steps@[i];
                    &&& !blank(step.title@)
                    &&& names(agent_entries(w.agents)).contains(step.agent@)
                    &&& forall|k: int|
                        0 <= k < step.snippets@.len() ==> names(
                            snippet_entries(w.snippets),
                        ).contains((#[trigger] step.snippets@[k])@)
                    &&& step.review.gate matches Some(id) ==> exists|j: int|
                        0 <= j < w.review_gates@.len() && (#[trigger] w.review_gates@[j]).id@
                            == id@
                    &&& step.review.gate is None ==> step.review.required == Some(false)
                        || step.review.required is None && !w.defaults.review_required
                    &&& leads_within(w, step.on_success)
                    &&& leads_within(w, step.on_failure)
                }
        },
        workflow_issues(w).len() == 0 <==> consistent(w),
{
    law_issues_are_inconsistencies(w);
    assert forall|i: int| 0 <= i < w.steps@.len() implies (step_consistent(
        w,
        &#[trigger] w.steps@[i],
    ) <==> {
        let step = w.steps@[i];
        &&& !blank(step.title@)
        &&& names(agent_entries(w.agents)).contains(step.agent@)
        &&& forall|k: int|
            0 <= k < step.snippets@.len() ==> names(snippet_entries(w.snippets)).contains(
                (#[trigger] step.snippets@[k])@,
            )
        &&& step.review.gate matches Some(id) ==> exists|j: int|
            0 <= j < w.review_gates@.len() && (#[trigger] w.review_gates@[j]).id@ == id@
        &&& step.review.gate is None ==> step.review.required == Some(false)
            || step.review.required is None && !w.defaults.review_required
        &&& leads_within(w, step.on_success)
        &&& leads_within(w, step.on_failure)
    }) by {
        let step = &w.steps@[i];
        lemma_lookup_names(agent_entries(w.agents), step.agent@);
        assert forall|k: int| 0 <= k < step.snippets@.len() implies (snippet_known(
            w,
            (#[trigger] step.snippets@[k])@,
        ) <==> names(snippet_entries(w.snippets)).contains(step.snippets@[k]@)) by {
            lemma_lookup_names(snippet_entries(w.snippets), step.snippets@[k]@);
        }
        if let Some(id) = step.review.gate {
            lemma_gate_position(w.review_gates@, id@);
        }
        lemma_leads_within(w, step.on_success);
        lemma_leads_within(w, step.on_failure);
    }
}

proof fn lemma_leads_within(w: &Workflow, transition: Option<StepTransition>)
    ensures
        transition_consistent(w, transition) <==> leads_within(w, transition),
{
    if let Some(t) = transition {
        if let Some(id) = t.next_step {
            lemma_step_position(w.steps@, id@);
        }
        if let Some(agent) = t.handoff_to {
            lemma_lookup_names(agent_entries(w.agents), agent@);
        }
    }
}

/// What is wrong with where a step goes, in words.
pub open spec fn misdirected(
    w: &Workflow,
    step: &Step,
    name: Seq<char>,
    transition: Option<StepTransition>,
    issue: Seq<char>,
) -> bool {
    transition matches Some(t) && {
        ||| t.next_step matches Some(id) && !step_known(w, id@) && issue == "step `"@ + step.id@
            + "` "@ + name + " references unknown next step `"@ + id@ + "`"@
        ||| t.handoff_to matches Some(agent) && !agent_known(w, agent@) && issue == "step `"@
            + step.id@ + "` "@ + name + " references unknown handoff agent `"@ + agent@ + "`"@
    }
}

/// What is wrong with a step, in words.
pub open spec fn wrong_with_step(w: &Workflow, i: int, issue: Seq<char>) -> bool {
    let step = &w.steps@[i];
    let start = "step `"@ + step.id@ + "` "@;
    &&& 0 <= i < w.steps@.len()
    &&& {
        ||| issue == "duplicate step id `"@ + step.id@ + "`"@ && exists|j: int|
            0 <= j < i && (#[trigger] w.steps@[j]).id@ == step.id@
        ||| issue == start + "must have a non-empty title"@ && blank(step.title@)
        ||| issue == start + "references unknown agent `"@ + step.agent@ + "`"@ && !agent_known(
            w,
            step.agent@,
        )
        ||| exists|k: int|
            0 <= k < step.snippets@.len() && issue == start + "references unknown snippet `"@ + (
            #[trigger] step.snippets@[k])@ + "`"@ && !snippet_known(w, step.snippets@[k]@)
        ||| step.review.gate matches Some(id) && issue == start
            + "references unknown review gate `"@ + id@ + "`"@ && !gate_known(w, id@)
        ||| issue == start + "requires review but does not declare a `review.gate`"@
            && step.review.gate is None && w.review_required(step)
        ||| misdirected(w, step, "on_success"@, step.on_success, issue)
        ||| misdirected(w, step, "on_failure"@, step.on_failure, issue)
    }
}

proof fn lemma_either_contains(a: Seq<Seq<char>>, b: Seq<Seq<char>>, x: Seq<char>)
    ensures
        (a + b).contains(x) <==> a.contains(x) || b.contains(x),
{
    if a.contains(x) {
        let i = choose|i: int| 0 <= i < a.len() && a[i] == x;
        assert((a + b)[i] == x);
    }
    if b.contains(x) {
        let i = choose|i: int| 0 <= i < b.len() && b[i] == x;
        assert((a + b)[a.len() + i] == x);
    }
    if (a + b).contains(x) {
        let i = choose|i: int| 0 <= i < (a + b).len() && (a + b)[i] == x;
        if i < a.len() {
            assert(a[i] == x);
        } else {
            assert(b[i - a.len()] == x);
        }
    }
}

proof fn lemma_issue_if(found: bool, issue: Seq<char>, x: Seq<char>)
    ensures
        issue_if(found, issue).contains(x) <==> found && x == issue,
{
    if found {
        assert(issue_if(found, issue)[0] == issue);
    }
}

proof fn lemma_snippet_issue(w: &Workflow, step: &Step, n: int, x: Seq<char>)
    requires
        0 <= n <= step.snippets@.len(),
    ensures
        snippet_issues(w, step, n).contains(x) <==> exists|k: int|
            0 <= k < n && x == "step `"@ + step.id@ + "` references unknown snippet `"@ + (
            #[trigger] step.snippets@[k])@ + "`"@ && !snippet_known(w, step.snippets@[k]@),
    decreases n,
{
    if n > 0 {
        lemma_snippet_issue(w, step, n - 1, x);
        let name = step.snippets@[n - 1]@;
        let issue = "step `"@ + step.id@ + "` references unknown snippet `"@ + name + "`"@;
        lemma_issue_if(!snippet_known(w, name), issue, x);
        lemma_either_contains(
            snippet_issues(w, step, n - 1),
            issue_if(!snippet_known(w, name), issue),
            x,
        );
    }
}

proof fn lemma_transition_issue(
    w: &Workflow,
    step: &Step,
    name: Seq<char>,
    transition: Option<StepTransition>,
    x: Seq<char>,
)
    ensures
        transition_issues(w, step, name, transition).contains(x) <==> misdirected(
            w,
            step,
            name,
            transition,
            x,
        ),
{
    if let Some(t) = transition {
        let a = match t.next_step {
            Some(next) => issue_if(
                !step_known(w, next@),
                "step `"@ + step.id@ + "` "@ + name + " references unknown next step `"@ + next@
                    + "`"@,
            ),
            None => Seq::empty(),
        };
        let b = match t.handoff_to {
            Some(agent) => issue_if(
                !agent_known(w, agent@),
                "step `"@ + step.id@ + "` "@ + name + " references unknown handoff agent `"@
                    + agent@ + "`"@,
            ),
            None => Seq::empty(),
        };
        lemma_either_contains(a, b, x);
        if let Some(next) = t.next_step {
            lemma_issue_if(
                !step_known(w, next@),
                "step `"@ + step.id@ + "` "@ + name + " references unknown next step `"@ + next@
                    + "`"@,
                x,
            );
        }
        if let Some(agent) = t.handoff_to {
            lemma_issue_if(
                !agent_known(w, agent@),
                "step `"@ + step.id@ + "` "@ + name + " references unknown handoff agent `"@
                    + agent@ + "`"@,
                x,
            );
        }
    }
}

proof fn lemma_words(id: Seq<char>)
    ensures
        "step `"@ + id + "` must have a non-empty title"@ == "step `"@ + id + "` "@
            + "must have a non-empty title"@,
        "step `"@ + id + "` references unknown agent `"@ == "step `"@ + id + "` "@
            + "references unknown agent `"@,
        "step `"@ + id + "` references unknown snippet `"@ == "step `"@ + id + "` "@
            + "references unknown snippet `"@,
        "step `"@ + id + "` references unknown review gate `"@ == "step `"@ + id + "` "@
            + "references unknown review gate `"@,
        "step `"@ + id + "` requires review but does not declare a `review.gate`"@ == "step `"@
            + id + "` "@ + "requires review but does not declare a `review.gate`"@,
{
    reveal_strlit("` ");
    reveal_strlit("must have a non-empty title");
    reveal_strlit("` must have a non-empty title");
    assert("` must have a non-empty title"@ =~= "` "@ + "must have a non-empty title"@);
    reveal_strlit("references unknown agent `");
    reveal_strlit("` references unknown agent `");
    assert("` references unknown agent `"@ =~= "` "@ + "references unknown agent `"@);
    reveal_strlit("references unknown snippet `");
    reveal_strlit("` references unknown snippet `");
    assert("` references unknown snippet `"@ =~= "` "@ + "references unknown snippet `"@);
    reveal_strlit("references unknown review gate `");
    reveal_strlit("` references unknown review gate `");
    assert("` references unknown review gate `"@ =~= "` "@ + "references unknown review gate `"@);
    reveal_strlit("requires review but does not declare a `review.gate`");
    reveal_strlit("` requires review but does not declare a `review.gate`");
    assert("` requires review but does not declare a `review.gate`"@ =~= "` "@
        + "requires review but does not declare a `review.gate`"@);
    let start = "step `"@ + id;
    assert(start + ("` "@ + "must have a non-empty title"@) =~= start + "` "@
        + "must have a non-empty title"@);
    assert(start + ("` "@ + "references unknown agent `"@) =~= start + "` "@
        + "references unknown agent `"@);
    assert(start + ("` "@ + "references unknown snippet `"@) =~= start + "` "@
        + "references unknown snippet `"@);
    assert(start + ("` "@ + "references unknown review gate `"@) =~= start + "` "@
        + "references unknown review gate `"@);
    assert(start + ("` "@ + "requires review but does not declare a `review.gate`"@) =~= start
        + "` "@ + "requires review but does not declare a `review.gate`"@);
}

proof fn lemma_step_issue(w: &Workflow, i: int, x: Seq<char>)
    requires
        0 <= i < w.steps@.len(),
    ensures
        step_issues(w, i).contains(x) || routing_issues(w, i).contains(x) <==> wrong_with_step(
            w,
            i,
            x,
        ),
{
    let step = &w.steps@[i];
    lemma_words(step.id@);
    let a = issue_if(id_taken(w.steps@, i), "duplicate step id `"@ + step.id@ + "`"@);
    let b = issue_if(
        blank(step.title@),
        "step `"@ + step.id@ + "` must have a non-empty title"@,
    );
    let c = issue_if(
        !agent_known(w, step.agent@),
        "step `"@ + step.id@ + "` references unknown agent `"@ + step.agent@ + "`"@,
    );
    let d = snippet_issues(w, step, step.snippets@.len() as int);
    let e = gate_issues(w, step);
    let f = issue_if(
        w.review_required(step) && step.review.gate is None,
        "step `"@ + step.id@ + "` requires review but does not declare a `review.gate`"@,
    );
    lemma_issue_if(id_taken(w.steps@, i), "duplicate step id `"@ + step.id@ + "`"@, x);
    lemma_issue_if(
        blank(step.title@),
        "step `"@ + step.id@ + "` must have a non-empty title"@,
        x,
    );
    lemma_issue_if(
        !agent_known(w, step.agent@),
        "step `"@ + step.id@ + "` references unknown agent `"@ + step.agent@ + "`"@,
        x,
    );
    lemma_issue_if(
        w.review_required(step) && step.review.gate is None,
        "step `"@ + step.id@ + "` requires review but does not declare a `review.gate`"@,
        x,
    );
    if let Some(gate) = step.review.gate {
        lemma_issue_if(
            !gate_known(w, gate@),
            "step `"@ + step.id@ + "` references unknown review gate `"@ + gate@ + "`"@,
            x,
        );
    }
    lemma_snippet_issue(w, step, step.snippets@.len() as int, x);
    lemma_either_contains(a, b, x);
    lemma_either_contains(a + b, c, x);
    lemma_either_contains(a + b + c, d, x);
    lemma_either_contains(a + b + c + d, e, x);
    lemma_either_contains(a + b + c + d + e, f, x);
    lemma_transition_issue(w, step, "on_success"@, step.on_success, x);
    lemma_transition_issue(w, step, "on_failure"@, step.on_failure, x);
    lemma_either_contains(
        transition_issues(w, step, "on_success"@, step.on_success),
        transition_issues(w, step, "on_failure"@, step.on_failure),
        x,
    );
}

proof fn lemma_issues_of_steps(w: &Workflow, n: int, x: Seq<char>)
    requires
        0 <= n <= w.steps@.len(),
    ensures
        issues_of_steps(w, n).contains(x) || issues_of_routing(w, n).contains(x) <==> exists|
            i: int,
        |
            i < n && #[trigger] wrong_with_step(w, i, x),
    decreases n,
{
    if n > 0 {
        lemma_issues_of_steps(w, n - 1, x);
        lemma_step_issue(w, n - 1, x);
        lemma_either_contains(issues_of_steps(w, n - 1), step_issues(w, n - 1), x);
        lemma_either_contains(issues_of_routing(w, n - 1), routing_issues(w, n - 1), x);
        if issues_of_steps(w, n).contains(x) || issues_of_routing(w, n).contains(x) {
            if step_issues(w, n - 1).contains(x) || routing_issues(w, n - 1).contains(x) {
                assert(wrong_with_step(w, n - 1, x));
            }
        }
    }
}

/// Validation names what is wrong, all of it and nothing else: a missing version,
/// name, agent or step, and of each step a repeated id, a missing title, every
/// reference to what the workflow does not define, and a review without a review
/// gate.
pub proof fn law_validation_names_what_is_wrong(w: &Workflow, issue: Seq<char>)
    ensures
        workflow_issues(w).contains(issue) <==> {
            ||| issue == "`version` must not be empty"@ && blank(w.version@)
            ||| issue == "`name` must not be empty"@ && blank(w.name@)
            ||| issue == "at least one agent must be defined"@ && agent_entries(w.agents).len()
                == 0
            ||| issue == "at least one step must be defined"@ && w.steps@.len() == 0
            ||| exists|i: int| #[trigger] wrong_with_step(w, i, issue)
        },
{
    let n = w.steps@.len() as int;
    let a = issue_if(blank(w.version@), "`version` must not be empty"@);
    let b = issue_if(blank(w.name@), "`name` must not be empty"@);
    let c = issue_if(agent_entries(w.agents).len() == 0, "at least one agent must be defined"@);
    let d = issue_if(w.steps@.len() == 0, "at least one step must be defined"@);
    lemma_issue_if(blank(w.version@), "`version` must not be empty"@, issue);
    lemma_issue_if(blank(w.name@), "`name` must not be empty"@, issue);
    lemma_issue_if(
        agent_entries(w.agents).len() == 0,
        "at least one agent must be defined"@,
        issue,
    );
    lemma_issue_if(w.steps@.len() == 0, "at least one step must be defined"@, issue);
    lemma_either_contains(a, b, issue);
    lemma_either_contains(a + b, c, issue);
    lemma_either_contains(a + b + c, d, issue);
    lemma_either_contains(general_issues(w), issues_of_steps(w, n), issue);
    lemma_either_contains(
        general_issues(w) + issues_of_steps(w, n),
        issues_of_routing(w, n),
        issue,
    );
    lemma_issues_of_steps(w, n, issue);
    if exists|i: int| #[trigger] wrong_with_step(w, i, issue) {
        let i = choose|i: int| #[trigger] wrong_with_step(w, i, issue);
        assert(i < n);
    }
}

/// What a workflow defines: agents and snippets by their names, steps and review
/// gates by their ids.
pub proof fn law_what_a_workflow_defines(w: &Workflow, name: Seq<char>)
    ensures
        agent_known(w, name) <==> names(agent_entries(w.agents)).contains(name),
        snippet_known(w, name) <==> names(snippet_entries(w.snippets)).contains(name),
        step_known(w, name) <==> exists|i: int|
            0 <= i < w.steps@.len() && (#[trigger] w.steps@[i]).id@ == name,
        gate_known(w, name) <==> exists|i: int|
            0 <= i < w.review_gates@.len() && (#[trigger] w.review_gates@[i]).id@ == name,
{
    lemma_lookup_names(agent_entries(w.agents), name);
    lemma_lookup_names(snippet_entries(w.snippets), name);
    lemma_step_position(w.steps@, name);
    lemma_gate_position(w.review_gates@, name);
}

/// A rejected workflow is reported with all of its issues: each of them stands
/// in the report.
pub proof fn law_every_issue_is_reported(w: &Workflow, i: int)
    requires
        0 <= i < workflow_issues(w).len(),
    ensures
        contains(joined(workflow_issues(w), "\n"@), workflow_issues(w)[i]),
{
    lemma_joined_contains(workflow_issues(w), "\n"@, i);
}

// ---------------------------------------------------------------------------
// Validation
// ---------------------------------------------------------------------------

fn add_issue(issues: &mut Vec<String>, issue: String)
    ensures
        texts(final(issues)@) == texts(old(issues)@) + seq![issue@],
{
    issues.push(issue);
    assert(texts(issues@) =~= texts(old(issues)@) + seq![issue@]);
}

fn names_hold(known: &Vec<String>, name: &str) -> (r: bool)
    ensures
        r == texts(known@).contains(name@),
{
    let mut at: usize = 0;
    while at < known.len()
        invariant
            at <= known@.len(),
            forall|j: int| 0 <= j < at ==> (#[trigger] known@[j])@ != name@,
        decreases known@.len() - at,
    {
        if same(known[at].as_str(), name) {
            assert(texts(known@)[at as int] == name@);
            return true;
        }
        at = at + 1;
    }
    assert(!texts(known@).contains(name@));
    false
}

/// Whether the workflow defines an agent of that name.
fn defines_agent(w: &Workflow, known: &Vec<String>, name: &str) -> (r: bool)
    requires
        texts(known@) == names(agent_entries(w.agents)),
    ensures
        r == agent_known(w, name@),
{
    proof {
        lemma_lookup_names(agent_entries(w.agents), name@);
    }
    names_hold(known, name)
}

fn check_general(w: &Workflow, issues: &mut Vec<String>)
    ensures
        texts(final(issues)@) == texts(old(issues)@) + general_issues(w),
{
    if is_blank(w.version.as_str()) {
        add_issue(issues, "`version` must not be empty".to_owned());
    }
    if is_blank(w.name.as_str()) {
        add_issue(issues, "`name` must not be empty".to_owned());
    }
    if no_agents(&w.agents) {
        add_issue(issues, "at least one agent must be defined".to_owned());
    }
    if w.steps.len() == 0 {
        add_issue(issues, "at least one step must be defined".to_owned());
    }
    assert(texts(issues@) =~= texts(old(issues)@) + general_issues(w));
}

fn check_snippets(w: &Workflow, step: &Step, issues: &mut Vec<String>)
    ensures
        texts(final(issues)@) == texts(old(issues)@) + snippet_issues(
            w,
            step,
            step.snippets@.len() as int,
        ),
{
    let mut at: usize = 0;
    assert(texts(issues@) =~= texts(old(issues)@) + snippet_issues(w, step, 0));
    while at < step.snippets.len()
        invariant
            at <= step.snippets@.len(),
            texts(issues@) == texts(old(issues)@) + snippet_issues(w, step, at as int),
        decreases step.snippets@.len() - at,
    {
        let ghost before = texts(issues@);
        let name = &step.snippets[at];
        if !has_snippet(&w.snippets, name.as_str()) {
            add_issue(
                issues,
                "step `".to_owned().concat(step.id.as_str()).concat(
                    "` references unknown snippet `",
                ).concat(name.as_str()).concat("`"),
            );
        }
        at = at + 1;
        assert(texts(issues@) =~= texts(old(issues)@) + snippet_issues(w, step, at as int));
    }
}

fn id_repeats(w: &Workflow, i: usize) -> (r: bool)
    requires
        i < w.steps@.len(),
    ensures
        r == id_taken(w.steps@, i as int),
{
    let mut at: usize = 0;
    while at < i
        invariant
            at <= i < w.steps@.len(),
            forall|j: int|
                0 <= j < at ==> (#[trigger] w.steps@[j]).id@ != w.steps@[i as int].id@,
        decreases i - at,
    {
        if same(w.steps[at].id.as_str(), w.steps[i].id.as_str()) {
            return true;
        }
        at = at + 1;
    }
    false
}

fn check_step(w: &Workflow, known_agents: &Vec<String>, i: usize, issues: &mut Vec<String>)
    requires
        i < w.steps@.len(),
        texts(known_agents@) == names(agent_entries(w.agents)),
    ensures
        texts(final(issues)@) == texts(old(issues)@) + step_issues(w, i as int),
{
    let step = &w.steps[i];
    if id_repeats(w, i) {
        add_issue(
            issues,
            "duplicate step id `".to_owned().concat(step.id.as_str()).concat("`"),
        );
    }
    if is_blank(step.title.as_str()) {
        add_issue(
            issues,
            "step `".to_owned().concat(step.id.as_str()).concat("` must have a non-empty title"),
        );
    }
    if !defines_agent(w, known_agents, step.agent.as_str()) {
        add_issue(
            issues,
            "step `".to_owned().concat(step.id.as_str()).concat(
                "` references unknown agent `",
            ).concat(step.agent.as_str()).concat("`"),
        );
    }
    check_snippets(w, step, issues);
    if let Some(gate) = &step.review.gate {
        if w.gate_index(gate.as_str()).is_none() {
            add_issue(
                issues,
                "step `".to_owned().concat(step.id.as_str()).concat(
                    "` references unknown review gate `",
                ).concat(gate.as_str()).concat("`"),
            );
        }
    }
    if w.is_review_required(step) && step.review.gate.is_none() {
        add_issue(
            issues,
            "step `".to_owned().concat(step.id.as_str()).concat(
                "` requires review but does not declare a `review.gate`",
            ),
        );
    }
    assert(texts(issues@) =~= texts(old(issues)@) + step_issues(w, i as int));
}

fn check_transition(
    w: &Workflow,
    known_agents: &Vec<String>,
    step: &Step,
    name: &str,
    transition: &Option<StepTransition>,
    issues: &mut Vec<String>,
)
    requires
        texts(known_agents@) == names(agent_entries(w.agents)),
    ensures
        texts(final(issues)@) == texts(old(issues)@) + transition_issues(
            w,
            step,
            name@,
            *transition,
        ),
{
    if let Some(t) = transition {
        if let Some(next) = &t.next_step {
            if w.step_index(next.as_str()).is_none() {
                add_issue(
                    issues,
                    "step `".to_owned().concat(step.id.as_str()).concat("` ").concat(name).concat(
                        " references unknown next step `",
                    ).concat(next.as_str()).concat("`"),
                );
            }
        }
        if let Some(agent) = &t.handoff_to {
            if !defines_agent(w, known_agents, agent.as_str()) {
                add_issue(
                    issues,
                    "step `".to_owned().concat(step.id.as_str()).concat("` ").concat(name).concat(
                        " references unknown handoff agent `",
                    ).concat(agent.as_str()).concat("`"),
                );
            }
        }
    }
    assert(texts(issues@) =~= texts(old(issues)@) + transition_issues(w, step, name@, *transition));
}

/// Accepts a workflow whose parts fit together, and otherwise reports every
/// issue, one per line.
pub fn validate_workflow(workflow: &Workflow) -> (r: Result<(), WorkflowError>)
    ensures
        r is Ok <==> consistent(workflow),
        r matches Err(error) ==> error@ == WorkflowErrorView::Validation(
            joined(workflow_issues(workflow), "\n"@),
        ),
        r is Ok <==> workflow_issues(workflow).len() == 0,
{
    let mut issues: Vec<String> = Vec::new();
    assert(texts(issues@) =~= Seq::<Seq<char>>::empty());
    check_general(workflow, &mut issues);
    assert(texts(issues@) =~= general_issues(workflow));
    let known_agents = agent_names(&workflow.agents);
    let mut at: usize = 0;
    assert(texts(issues@) =~= general_issues(workflow) + issues_of_steps(workflow, 0));
    while at < workflow.steps.len()
        invariant
            at <= workflow.steps@.len(),
            texts(known_agents@) == names(agent_entries(workflow.agents)),
            texts(issues@) == general_issues(workflow) + issues_of_steps(workflow, at as int),
        decreases workflow.steps@.len() - at,
    {
        check_step(workflow, &known_agents, at, &mut issues);
        at = at + 1;
        assert(texts(issues@) =~= general_issues(workflow) + issues_of_steps(workflow, at as int));
    }
    let ghost first = general_issues(workflow) + issues_of_steps(
        workflow,
        workflow.steps@.len() as int,
    );
    let mut at: usize = 0;
    assert(texts(issues@) =~= first + issues_of_routing(workflow, 0));
    while at < workflow.steps.len()
        invariant
            at <= workflow.steps@.len(),
            texts(known_agents@) == names(agent_entries(workflow.agents)),
            texts(issues@) == first + issues_of_routing(workflow, at as int),
        decreases workflow.steps@.len() - at,
    {
        let step = &workflow.steps[at];
        check_transition(
            workflow,
            &known_agents,
            step,
            "on_success",
            &step.on_success,
            &mut issues,
        );
        check_transition(
            workflow,
            &known_agents,
            step,
            "on_failure",
            &step.on_failure,
            &mut issues,
        );
        at = at + 1;
        assert(texts(issues@) =~= first + issues_of_routing(workflow, at as int));
    }
    assert(texts(issues@) == workflow_issues(workflow));
    proof {
        law_issues_are_inconsistencies(workflow);
    }
    if issues.len() > 0 {
        assert(texts(issues@).len() > 0);
        return Err(WorkflowError::Validation(join(&issues, "\n")));
    }
    Ok(())
}

} // verus!
