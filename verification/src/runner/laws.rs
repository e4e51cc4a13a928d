//! What holds of every run.

use vstd::prelude::*;

use super::decisions::{
    dry_result, first_other, law_reviewer_is_another_agent, no_reviewer, resolution, reviewer_of,
    ResolutionView, Runner,
};
use super::handoff::{directory_error, entry_of, read_result, write_error};
use super::machine::{
    after_entry, begun, budget_error, context_of, finished, fits, law_resumed_valid,
    law_started_valid, recordable, recorded, recording, records, report_of, resumed, settled,
    started, valid, ActionView, EventView, PhaseView, StateView,
};
use super::types::{
    AgentResultView, AgentRunStatus, CompletedStepView, ContextView, DecisionView, FileReadView,
    ProcessView, ReportView, RunStatusView, StepExecutionStatus,
};
use crate::error::WorkflowErrorView;
use crate::names::review_role;
use crate::paths::{parent_of, path_from};
use crate::text::{blank, decimal_of, occurs_at, texts, trimmed, Trimmed};
use crate::workflow::maps::{agent_entries, names};
use crate::workflow::model::{
    gate_position, lemma_gate_position, lemma_step_position, step_position, HandoffMode, Step,
    StepRoute, StepTransition,
};
use crate::workflow::validate::{consistent, step_consistent, step_known};

verus! {

// ---------------------------------------------------------------------------
// Ends
// ---------------------------------------------------------------------------

/// The rank of a phase: each phase of a step leads to phases of lower rank.
pub open spec fn rank(phase: PhaseView) -> nat {
    match phase {
        PhaseView::ReadContext { .. } => 7,
        PhaseView::RunAgent { .. } => 6,
        PhaseView::RunCommand { .. } => 5,
        PhaseView::CreateDirectory { .. } => 4,
        PhaseView::ReadHandoff { .. } => 3,
        PhaseView::WriteHandoff { .. } => 2,
        PhaseView::Review { .. } => 1,
        PhaseView::Finished => 0,
    }
}

/// How many commands of the step are left.
pub open spec fn commands_left(runner: &Runner, phase: PhaseView) -> int {
    match phase {
        PhaseView::RunCommand { step, command, .. } => runner.workflow.steps@[step].run@.len()
            - command,
        _ => 0,
    }
}

/// Each event brings a run nearer to its end: a step more is taken, or a lower
/// phase of the same step is reached, or fewer of its commands are left. So a
/// run ends after finitely many events, whatever they are.
pub proof fn law_every_event_is_progress(runner: &Runner, state: StateView, event: EventView)
    requires
        valid(runner, state),
        fits(state.phase, event),
    ensures
        ({
            let next = resumed(runner, state, event).0;
            decreases_to!(
                runner.options.max_steps - state.completed.len(),
                rank(state.phase),
                commands_left(runner, state.phase)
                =>
                runner.options.max_steps - next.completed.len(),
                rank(next.phase),
                commands_left(runner, next.phase)
            )
        }),
{
    law_resumed_valid(runner, state, event);
    lemma_settled_records_one(runner, state, event);
}

proof fn lemma_settled_records_one(runner: &Runner, state: StateView, event: EventView)
    requires
        valid(runner, state),
        fits(state.phase, event),
    ensures
        ({
            let next = resumed(runner, state, event).0;
            ||| next.completed == state.completed
            ||| next.completed.len() == state.completed.len() + 1 && next.completed.drop_last()
                == state.completed
        }),
{
    let next = resumed(runner, state, event).0;
    if next.completed != state.completed {
        assert(next.completed.drop_last() =~= state.completed);
    }
}

/// A run never takes back what it has recorded: each event adds one record at
/// most, and it does so only when a step is over, that is when its entry has
/// been written, if entries are written, and a review that is due has been
/// decided.
pub proof fn law_records_are_kept(runner: &Runner, state: StateView, event: EventView)
    requires
        valid(runner, state),
        fits(state.phase, event),
    ensures
        ({
            let next = resumed(runner, state, event).0;
            ||| next.completed == state.completed
            ||| {
                &&& next.completed.drop_last() == state.completed
                &&& next.completed.len() == state.completed.len() + 1
                &&& {
                    ||| event == (EventView::HandoffWritten { failure: None })
                    ||| event matches EventView::ReviewFinished(decided) && decided is Ok
                    ||| !runner.workflow.defaults.auto_handoff
                }
            }
        }),
{
    lemma_settled_records_one(runner, state, event);
}

/// Where the workflow does without entries, the handoff file is neither written
/// nor read for writing.
pub proof fn law_no_entries_unless_wanted(runner: &Runner, events: Seq<EventView>)
    requires
        !runner.workflow.defaults.auto_handoff,
        possible(runner, events),
    ensures
        ({
            let (state, action) = ran(runner, events);
            &&& !(action is CreateDirectory) && !(action is WriteHandoff)
            &&& action is ReadHandoff ==> state.phase is ReadContext
            &&& !(state.phase is CreateDirectory) && !(state.phase is ReadHandoff)
                && !(state.phase is WriteHandoff)
        }),
    decreases events.len(),
{
    if events.len() > 0 {
        law_no_entries_unless_wanted(runner, events.drop_last());
    }
}

/// A run takes no more steps than it may, and a report is about at least one.
pub proof fn law_step_budget(runner: &Runner, state: StateView, event: EventView)
    requires
        valid(runner, state),
        fits(state.phase, event),
    ensures
        resumed(runner, state, event).0.completed.len() <= runner.options.max_steps,
        resumed(runner, state, event).1 matches ActionView::Finish(Ok(report)) ==> {
            &&& 1 <= report.completed_steps.len() <= runner.options.max_steps
            &&& report.completed_steps == resumed(runner, state, event).0.completed
            &&& report.workflow_name == runner.workflow.name@
            &&& report.dry_run == runner.options.dry_run
        },
{
    law_resumed_valid(runner, state, event);
}

/// A run begins by reading the handoff file, or fails at once.
pub proof fn law_run_begins_by_reading(runner: &Runner)
    ensures
        match started(runner).1 {
            ActionView::ReadHandoff { path } => path == runner.handoff_path(),
            ActionView::Finish(result) => result is Err,
            _ => false,
        },
{
}

/// A run that would need one more step than it may take fails, and says so.
pub proof fn law_budget_is_enforced(
    runner: &Runner,
    id: Seq<char>,
    completed: Seq<CompletedStepView>,
)
    requires
        completed.len() >= runner.options.max_steps,
    ensures
        begun(runner, id, completed).1 == ActionView::Finish(
            Err(budget_error(runner.options.max_steps as nat)),
        ),
{
}

// ---------------------------------------------------------------------------
// Whole runs
// ---------------------------------------------------------------------------

/// A run after a sequence of events.
pub open spec fn ran(runner: &Runner, events: Seq<EventView>) -> (StateView, ActionView)
    decreases events.len(),
{
    if events.len() == 0 {
        started(runner)
    } else {
        resumed(runner, ran(runner, events.drop_last()).0, events.last())
    }
}

/// Each event tells what came of what the run waited for.
pub open spec fn possible(runner: &Runner, events: Seq<EventView>) -> bool
    decreases events.len(),
{
    events.len() == 0 || (possible(runner, events.drop_last()) && fits(
        ran(runner, events.drop_last()).0.phase,
        events.last(),
    ))
}

/// Whatever happens during a run, it is in a state that a run can be in.
pub proof fn law_every_state_is_valid(runner: &Runner, events: Seq<EventView>)
    requires
        possible(runner, events),
    ensures
        valid(runner, ran(runner, events).0),
    decreases events.len(),
{
    if events.len() == 0 {
        law_started_valid(runner);
    } else {
        law_every_state_is_valid(runner, events.drop_last());
        law_resumed_valid(runner, ran(runner, events.drop_last()).0, events.last());
    }
}

/// The most commands that a step has.
pub open spec fn most_commands(steps: Seq<Step>) -> nat
    decreases steps.len(),
{
    if steps.len() == 0 {
        0
    } else {
        let rest = most_commands(steps.drop_last());
        if steps.last().run@.len() > rest {
            steps.last().run@.len()
        } else {
            rest
        }
    }
}

proof fn lemma_most_commands(steps: Seq<Step>, i: int)
    requires
        0 <= i < steps.len(),
    ensures
        steps[i].run@.len() <= most_commands(steps),
    decreases steps.len(),
{
    if i < steps.len() - 1 {
        lemma_most_commands(steps.drop_last(), i);
    }
}

/// The most events that one step can take.
pub open spec fn events_per_step(runner: &Runner) -> nat {
    most_commands(runner.workflow.steps@) + 8
}

/// The most events that are left of the step that is being taken.
spec fn left_of_step(runner: &Runner, phase: PhaseView) -> int {
    match phase {
        PhaseView::ReadContext { .. } => events_per_step(runner) - 1,
        PhaseView::RunAgent { .. } => events_per_step(runner) - 2,
        PhaseView::RunCommand { .. } => 4 + commands_left(runner, phase),
        _ => rank(phase) as int,
    }
}

/// The most events that are left of a run.
spec fn left_of_run(runner: &Runner, state: StateView) -> int {
    if state.phase is Finished {
        0
    } else {
        (runner.options.max_steps - state.completed.len() - 1) * events_per_step(runner)
            + left_of_step(runner, state.phase)
    }
}

proof fn lemma_fewer_events_are_left(runner: &Runner, state: StateView, event: EventView)
    requires
        valid(runner, state),
        fits(state.phase, event),
    ensures
        left_of_run(runner, resumed(runner, state, event).0) < left_of_run(runner, state),
{
    let next = resumed(runner, state, event).0;
    let most = events_per_step(runner);
    let steps = runner.workflow.steps@;
    law_resumed_valid(runner, state, event);
    lemma_settled_records_one(runner, state, event);
    let left = runner.options.max_steps - state.completed.len() - 1;
    assert(left * most >= 0) by (nonlinear_arith)
        requires
            left >= 0,
            most >= 0,
    ;
    match state.phase {
        PhaseView::RunAgent { step, .. } => lemma_most_commands(steps, step),
        PhaseView::RunCommand { step, .. } => lemma_most_commands(steps, step),
        _ => {},
    }
    if next.phase !is Finished && next.completed != state.completed {
        assert((left - 1) * most + most == left * most) by (nonlinear_arith);
        assert(next.phase is ReadContext);
    }
}

/// A run takes a bounded number of events, whatever they are: no workflow runs
/// for ever.
pub proof fn law_runs_are_bounded(runner: &Runner, events: Seq<EventView>)
    requires
        possible(runner, events),
    ensures
        events.len() <= runner.options.max_steps * events_per_step(runner),
{
    lemma_events_are_used_up(runner, events);
    law_every_state_is_valid(runner, events);
    let state = ran(runner, events).0;
    let most = events_per_step(runner);
    assert(left_of_run(runner, state) >= 0) by {
        if state.phase !is Finished {
            let left = runner.options.max_steps - state.completed.len() - 1;
            assert(left * most >= 0) by (nonlinear_arith)
                requires
                    left >= 0,
                    most >= 0,
            ;
        }
    }
    let first = started(runner).0;
    law_started_valid(runner);
    let max = runner.options.max_steps as int;
    if first.phase !is Finished {
        assert((max - 1) * most + most == max * most) by (nonlinear_arith);
    } else {
        assert(max * most >= 0) by (nonlinear_arith)
            requires
                max >= 0,
                most >= 0,
        ;
    }
}

proof fn lemma_events_are_used_up(runner: &Runner, events: Seq<EventView>)
    requires
        possible(runner, events),
    ensures
        events.len() + left_of_run(runner, ran(runner, events).0) <= left_of_run(
            runner,
            started(runner).0,
        ),
    decreases events.len(),
{
    if events.len() > 0 {
        lemma_events_are_used_up(runner, events.drop_last());
        law_every_state_is_valid(runner, events.drop_last());
        lemma_fewer_events_are_left(runner, ran(runner, events.drop_last()).0, events.last());
    }
}

// ---------------------------------------------------------------------------
// Reviews
// ---------------------------------------------------------------------------

/// The record is about the step at the given position. If that must be
/// reviewed and did not fail, it was.
pub open spec fn vouched(runner: &Runner, record: CompletedStepView, step: int) -> bool {
    let taken = &runner.workflow.steps@[step];
    &&& 0 <= step < runner.workflow.steps@.len()
    &&& taken.id@ == record.step_id
    &&& taken.agent@ == record.agent
    &&& runner.workflow.review_required(taken) && record.status != StepExecutionStatus::Failed
        ==> record.reviewed
    &&& record.reviewed ==> runner.workflow.review_required(taken)
}

/// Every step in the report of a run is a step of the workflow. One that did not
/// fail was reviewed, if it must be.
pub proof fn law_no_success_without_review(
    runner: &Runner,
    events: Seq<EventView>,
    report: ReportView,
    i: int,
)
    requires
        possible(runner, events),
        ran(runner, events).1 == ActionView::Finish(Ok(report)),
        0 <= i < report.completed_steps.len(),
    ensures
        exists|step: int| vouched(runner, report.completed_steps[i], step),
{
    law_every_state_is_valid(runner, events);
    law_every_state_is_valid(runner, events.drop_last());
    let state = ran(runner, events).0;
    law_step_budget(runner, ran(runner, events.drop_last()).0, events.last());
    let record = state.completed[i];
    assert(recordable(runner, record));
    let (step, success, reviewed) = choose|step: int, success: bool, reviewed: bool|
        records(runner, record, step, success, reviewed);
    assert(vouched(runner, record, step));
}

/// A review is asked for only of an agent other than the one that took the
/// step, only at a review gate that the step names, and only where it is due.
pub proof fn law_reviews_are_independent(runner: &Runner, state: StateView, event: EventView)
    requires
        valid(runner, state),
        fits(state.phase, event),
    ensures
        resumed(runner, state, event).1 matches ActionView::RunReview {
            step,
            gate,
            reviewer,
            ..
        } ==> {
            let taken = &runner.workflow.steps@[step];
            &&& reviewer != taken.agent@
            &&& taken.review.gate matches Some(id) && id@
                == runner.workflow.review_gates@[gate].id@
            &&& runner.workflow.review_required(taken)
        },
{
    if let ActionView::RunReview { step, .. } = resumed(runner, state, event).1 {
        let taken = &runner.workflow.steps@[step];
        law_reviewer_is_another_agent(&runner.workflow, taken);
        lemma_gate_position(runner.workflow.review_gates@, taken.review.gate->0@);
    }
}

/// A step that a review rejects counts as failed, and its transition for
/// failures is followed.
pub proof fn law_rejection_follows_on_failure(
    runner: &Runner,
    state: StateView,
    step: int,
    gate: int,
    decision: DecisionView,
)
    requires
        valid(runner, state),
        state.phase == (PhaseView::Review { step, gate }),
        !decision.approved,
    ensures
        ({
            let taken = &runner.workflow.steps@[step];
            let now = state.completed.push(
                CompletedStepView {
                    step_id: taken.id@,
                    agent: taken.agent@,
                    reviewed: true,
                    status: StepExecutionStatus::Failed,
                },
            );
            resumed(runner, state, EventView::ReviewFinished(Ok(decision))) == match resolution(
                taken,
                taken.on_failure,
            ) {
                ResolutionView::Next(id) => begun(runner, id, now),
                ResolutionView::Halt => finished(
                    now,
                    Ok(report_of(runner, now, RunStatusView::Halted)),
                ),
                ResolutionView::End => finished(
                    now,
                    Ok(report_of(runner, now, RunStatusView::Completed)),
                ),
            }
        }),
{
}

/// A step that a review approves counts as a success, and its transition for
/// successes is followed.
pub proof fn law_approval_follows_on_success(
    runner: &Runner,
    state: StateView,
    step: int,
    gate: int,
    decision: DecisionView,
)
    requires
        valid(runner, state),
        state.phase == (PhaseView::Review { step, gate }),
        decision.approved,
    ensures
        ({
            let taken = &runner.workflow.steps@[step];
            let now = state.completed.push(
                CompletedStepView {
                    step_id: taken.id@,
                    agent: taken.agent@,
                    reviewed: true,
                    status: StepExecutionStatus::Succeeded,
                },
            );
            resumed(runner, state, EventView::ReviewFinished(Ok(decision))) == match resolution(
                taken,
                taken.on_success,
            ) {
                ResolutionView::Next(id) => begun(runner, id, now),
                ResolutionView::Halt => finished(
                    now,
                    Ok(report_of(runner, now, RunStatusView::Halted)),
                ),
                ResolutionView::End => finished(
                    now,
                    Ok(report_of(runner, now, RunStatusView::Completed)),
                ),
            }
        }),
{
}

// ---------------------------------------------------------------------------
// Agents and commands
// ---------------------------------------------------------------------------

/// A dry run does nothing but read and write the handoff file: no agent and no
/// command is started, and no step counts as more than a dry run.
pub proof fn law_dry_run_starts_nothing(runner: &Runner, events: Seq<EventView>)
    requires
        runner.options.dry_run,
        possible(runner, events),
    ensures
        ({
            let (state, action) = ran(runner, events);
            &&& !(action is RunAgent) && !(action is RunCommand) && !(action is RunReview)
            &&& forall|i: int|
                0 <= i < state.completed.len() ==> (#[trigger] state.completed[i]).status
                    == StepExecutionStatus::DryRun
        }),
{
    let state = ran(runner, events).0;
    law_every_state_is_valid(runner, events);
    if events.len() > 0 {
        law_every_state_is_valid(runner, events.drop_last());
    }
    assert forall|i: int| 0 <= i < state.completed.len() implies (
    #[trigger] state.completed[i]).status == StepExecutionStatus::DryRun by {
        assert(recordable(runner, state.completed[i]));
    }
}

/// An agent sees what the handoff file holds when its step begins.
pub proof fn law_agent_sees_the_handoff(
    runner: &Runner,
    state: StateView,
    step: int,
    read: FileReadView,
)
    requires
        !runner.options.dry_run,
        valid(runner, state),
        state.phase == (PhaseView::ReadContext { step }),
        !(read is Failed),
    ensures
        resumed(runner, state, EventView::HandoffRead(read)).1 matches ActionView::RunAgent {
            step: taken,
            context,
        } && taken == step && context.handoff_markdown == (match read {
            FileReadView::Contents(text) => text,
            _ => Seq::empty(),
        }) && context.current_agent == runner.workflow.steps@[step].agent@,
{
}

/// Where entries are appended, what the file holds when an entry is added stays
/// in it, unless it is blank, and the entry comes last.
pub proof fn law_earlier_entries_are_kept(
    runner: &Runner,
    state: StateView,
    step: int,
    context: ContextView,
    result: AgentResultView,
    current: Seq<char>,
)
    requires
        valid(runner, state),
        state.phase == (PhaseView::ReadHandoff { step, context, result }),
    ensures
        resumed(
            runner,
            state,
            EventView::HandoffRead(FileReadView::Contents(current)),
        ).1 matches ActionView::WriteHandoff { path, contents } && {
            let entry = entry_of(
                texts(runner.workflow.handoff.required_sections@),
                &runner.workflow.steps@[step],
                context,
                result,
            );
            &&& path == runner.handoff_path()
            &&& !blank(current) ==> contents == current + "\n\n"@ + entry
            &&& blank(current) ==> contents == entry
        },
{
}

/// A command is run only for a step whose agent reported success, and only
/// after the commands before it succeeded; it is run where the agent worked.
pub proof fn law_commands_follow_success(runner: &Runner, state: StateView, event: EventView)
    requires
        valid(runner, state),
        fits(state.phase, event),
    ensures
        resumed(runner, state, event).1 matches ActionView::RunCommand { command, workspace } ==> {
            ||| state.phase matches PhaseView::RunAgent { step, context } && event
                matches EventView::AgentFinished(Ok(result)) && result.status
                == AgentRunStatus::Success && command == runner.workflow.steps@[step].run@[0]@
                && workspace == context.workspace_root
            ||| state.phase matches PhaseView::RunCommand { step, context, command: last, .. }
                && event matches EventView::CommandFinished(
                ProcessView::Exited { success, .. },
            ) && success && command == runner.workflow.steps@[step].run@[last + 1]@ && workspace
                == context.workspace_root
        },
{
}

/// A command that fails ends the run with the failure of its step.
pub proof fn law_failed_command_ends_the_run(
    runner: &Runner,
    state: StateView,
    step: int,
    process: ProcessView,
)
    requires
        valid(runner, state),
        state.phase matches PhaseView::RunCommand { step: taken, .. } && taken == step,
        process matches ProcessView::Exited { success, .. } ==> !success,
    ensures
        resumed(runner, state, EventView::CommandFinished(process)).1 matches ActionView::Finish(
            Err(WorkflowErrorView::StepFailed { step_id, .. }),
        ) && step_id == runner.workflow.steps@[step].id@,
{
}

/// A step whose agent reports failure follows its transition for failures as
/// soon as its entry is written; nothing is run and nobody is asked about it.
pub proof fn law_failure_follows_on_failure(
    runner: &Runner,
    state: StateView,
    step: int,
)
    requires
        valid(runner, state),
        state.phase matches PhaseView::WriteHandoff { step: taken, result, .. } && taken == step
            && result.status == AgentRunStatus::Failure,
    ensures
        ({
            let taken = &runner.workflow.steps@[step];
            let now = state.completed.push(recorded(runner, taken, false, false));
            resumed(runner, state, EventView::HandoffWritten { failure: None }) == match resolution(
                taken,
                taken.on_failure,
            ) {
                ResolutionView::Next(id) => begun(runner, id, now),
                ResolutionView::Halt => finished(
                    now,
                    Ok(report_of(runner, now, RunStatusView::Halted)),
                ),
                ResolutionView::End => finished(
                    now,
                    Ok(report_of(runner, now, RunStatusView::Completed)),
                ),
            }
        }),
{
}

// ---------------------------------------------------------------------------
// Consistent workflows
// ---------------------------------------------------------------------------

/// The event reports that something outside the run went wrong.
pub open spec fn trouble(event: EventView) -> bool {
    match event {
        EventView::HandoffRead(read) => read is Failed,
        EventView::AgentFinished(report) => report is Err,
        EventView::CommandFinished(process) => !(process matches ProcessView::Exited {
            success: true,
            ..
        }),
        EventView::DirectoryCreated { failure } => failure is Some,
        EventView::HandoffWritten { failure } => failure is Some,
        EventView::ReviewFinished(decided) => decided is Err,
    }
}

/// The run is out of steps, or there is nobody to review one.
pub open spec fn expected_failure(runner: &Runner, error: WorkflowErrorView) -> bool {
    ||| error == budget_error(runner.options.max_steps as nat)
    ||| exists|step: int|
        0 <= step < runner.workflow.steps@.len() && error == #[trigger] no_reviewer(
            &runner.workflow.steps@[step],
        ) && reviewer_of(&runner.workflow, &runner.workflow.steps@[step]) is None
}

/// A run of a workflow whose parts fit together fails, where nothing outside it
/// goes wrong, only for want of steps or of an agent to review.
pub proof fn law_consistent_workflows_run(runner: &Runner, state: StateView, event: EventView)
    requires
        consistent(&runner.workflow),
        valid(runner, state),
        fits(state.phase, event),
        !trouble(event),
    ensures
        resumed(runner, state, event).1 matches ActionView::Finish(Err(error)) ==> expected_failure(
            runner,
            error,
        ),
{
    lemma_own_failures(runner, state, event);
}

/// The failure of something outside the run, or an expected one.
spec fn accountable(runner: &Runner, event: EventView, error: WorkflowErrorView) -> bool {
    ||| expected_failure(runner, error)
    ||| match event {
        EventView::AgentFinished(Err(reason)) => error == reason,
        EventView::ReviewFinished(Err(reason)) => error == reason,
        EventView::CommandFinished(_) => trouble(event) && error is StepFailed,
        EventView::HandoffRead(read) => trouble(event) && read_result(
            runner.handoff_path(),
            read,
        ) == Err::<Seq<char>, WorkflowErrorView>(error),
        EventView::DirectoryCreated { failure } => failure matches Some(reason) && error
            == directory_error(parent_of(runner.handoff_path())->0, reason),
        EventView::HandoffWritten { failure } => failure matches Some(reason) && error
            == write_error(runner.handoff_path(), runner.workflow.handoff.mode, reason),
        _ => false,
    }
}

proof fn lemma_own_failures(runner: &Runner, state: StateView, event: EventView)
    requires
        consistent(&runner.workflow),
        valid(runner, state),
        fits(state.phase, event),
    ensures
        resumed(runner, state, event).1 matches ActionView::Finish(Err(error)) ==> accountable(
            runner,
            event,
            error,
        ),
{
    let completed = state.completed;
    match (state.phase, event) {
        (PhaseView::ReadContext { step }, EventView::HandoffRead(read)) => {
            if let Ok(markdown) = read_result(runner.handoff_path(), read) {
                let taken = &runner.workflow.steps@[step];
                let context = context_of(runner, taken, markdown);
                lemma_after_entry_runs(runner, completed, step, context, dry_result(taken));
            }
        },
        (PhaseView::RunAgent { step, context }, EventView::AgentFinished(report)) => {
            if let Ok(result) = report {
                lemma_after_entry_runs(runner, completed, step, context, result);
            }
        },
        (PhaseView::RunCommand { step, context, result, .. }, _) => {
            lemma_after_entry_runs(runner, completed, step, context, result);
        },
        (PhaseView::WriteHandoff { step, context, result }, _) => {
            lemma_after_entry_runs(runner, completed, step, context, result);
        },
        (PhaseView::Review { step, .. }, EventView::ReviewFinished(Ok(decision))) => {
            lemma_settled_runs(runner, completed, step, decision.approved, true);
        },
        _ => {},
    }
}

proof fn lemma_after_entry_runs(
    runner: &Runner,
    completed: Seq<CompletedStepView>,
    step: int,
    context: ContextView,
    result: AgentResultView,
)
    requires
        consistent(&runner.workflow),
        0 <= step < runner.workflow.steps@.len(),
    ensures
        after_entry(runner, completed, step, context, result).1 matches ActionView::Finish(
            Err(error),
        ) ==> expected_failure(runner, error),
{
    let w = &runner.workflow;
    let success = result.status == AgentRunStatus::Success;
    lemma_settled_runs(runner, completed, step, true, true);
    lemma_settled_runs(runner, completed, step, success, false);
    assert(step_consistent(w, &w.steps@[step]));
    assert(no_reviewer(&w.steps@[step]) == no_reviewer(&runner.workflow.steps@[step]));
}

/// A failure for want of a part of the workflow: it has no steps, or it names a
/// step or a review gate that does not exist, or it names no review gate where
/// one is due.
pub open spec fn part_missing(error: WorkflowErrorView) -> bool {
    error matches WorkflowErrorView::Execution(message) && {
        let due = "requires review but no gate was configured"@;
        ||| message == "workflow contains no steps"@
        ||| occurs_at(message, "unknown step"@, 0)
        ||| occurs_at(message, "unknown review gate"@, 0)
        ||| occurs_at(message, "step `"@, 0) && occurs_at(message, due, message.len() - due.len())
    }
}

/// Whoever takes or reviews the steps failed to do so.
pub open spec fn executor_failed(event: EventView) -> bool {
    match event {
        EventView::AgentFinished(report) => report is Err,
        EventView::ReviewFinished(decided) => decided is Err,
        _ => false,
    }
}

/// A run of a workflow whose parts fit together never fails for want of one of
/// them, whatever happens to files and commands, unless whoever takes or reviews
/// the steps reports such a failure.
pub proof fn law_consistent_workflows_miss_nothing(runner: &Runner, events: Seq<EventView>)
    requires
        consistent(&runner.workflow),
        possible(runner, events),
        forall|i: int| 0 <= i < events.len() ==> !executor_failed(#[trigger] events[i]),
    ensures
        ran(runner, events).1 matches ActionView::Finish(Err(error)) ==> !part_missing(error),
{
    if let ActionView::Finish(Err(error)) = ran(runner, events).1 {
        if events.len() == 0 {
            law_consistent_workflows_start(runner);
            lemma_expected_failures(runner, error);
        } else {
            let before = ran(runner, events.drop_last()).0;
            let event = events[events.len() - 1];
            law_every_state_is_valid(runner, events.drop_last());
            lemma_own_failures(runner, before, event);
            if expected_failure(runner, error) {
                lemma_expected_failures(runner, error);
            } else {
                lemma_file_failures(runner, event, error);
            }
        }
    }
}

proof fn lemma_expected_failures(runner: &Runner, error: WorkflowErrorView)
    requires
        expected_failure(runner, error),
    ensures
        !part_missing(error),
{
    let due = "requires review but no gate was configured"@;
    let message = error->Execution_0;
    reveal_strlit("workflow contains no steps");
    reveal_strlit("unknown step");
    reveal_strlit("unknown review gate");
    reveal_strlit("requires review but no gate was configured");
    reveal_strlit("workflow exceeded max_steps limit (");
    reveal_strlit(")");
    reveal_strlit("step `");
    reveal_strlit(" but no alternate agent exists");
    assert("unknown step"@[0] == 'u');
    assert("unknown review gate"@[0] == 'u');
    assert(due.last() == 'd');
    if occurs_at(message, "unknown step"@, 0) {
        assert(message.subrange(0, "unknown step"@.len() as int)[0] == message[0]);
    }
    if occurs_at(message, "unknown review gate"@, 0) {
        assert(message.subrange(0, "unknown review gate"@.len() as int)[0] == message[0]);
    }
    if occurs_at(message, due, message.len() - due.len()) {
        let at = message.len() - due.len();
        assert(message.subrange(at, at + due.len()).last() == message.last());
    }
    if error == budget_error(runner.options.max_steps as nat) {
        assert(message[0] == 'w');
        assert(message[9] == 'e');
        assert("workflow contains no steps"@[9] == 'c');
        assert(message.last() == ')');
    } else {
        assert(message[0] == 's');
        assert("workflow contains no steps"@[0] == 'w');
        assert(message.last() == 's');
    }
}

proof fn lemma_file_failures(runner: &Runner, event: EventView, error: WorkflowErrorView)
    requires
        accountable(runner, event, error),
        !expected_failure(runner, error),
        !executor_failed(event),
    ensures
        !part_missing(error),
{
    if let WorkflowErrorView::Execution(message) = error {
        reveal_strlit("workflow contains no steps");
        reveal_strlit("unknown step");
        reveal_strlit("unknown review gate");
        reveal_strlit("failed to read handoff file `");
        reveal_strlit("failed to create handoff directory `");
        reveal_strlit("failed to write handoff file `");
        reveal_strlit("step `");
        assert(message[0] == 'f');
        assert(message.subrange(0, "unknown step"@.len() as int)[0] == message[0]);
        assert(message.subrange(0, "unknown review gate"@.len() as int)[0] == message[0]);
        assert(message.subrange(0, "step `"@.len() as int)[0] == message[0]);
    }
}

/// A run of a workflow whose parts fit together begins, at its first step,
/// unless it may take no step at all.
pub proof fn law_consistent_workflows_start(runner: &Runner)
    requires
        consistent(&runner.workflow),
    ensures
        started(runner) == if runner.options.max_steps == 0 {
            finished(Seq::empty(), Err(budget_error(0)))
        } else {
            (
                StateView { completed: Seq::empty(), phase: PhaseView::ReadContext { step: 0 } },
                ActionView::ReadHandoff { path: runner.handoff_path() },
            )
        },
{
    lemma_step_position(runner.workflow.steps@, runner.workflow.steps@[0].id@);
}

proof fn lemma_settled_runs(
    runner: &Runner,
    completed: Seq<CompletedStepView>,
    step: int,
    success: bool,
    reviewed: bool,
)
    requires
        consistent(&runner.workflow),
        0 <= step < runner.workflow.steps@.len(),
    ensures
        settled(runner, completed, step, success, reviewed).1 matches ActionView::Finish(
            Err(error),
        ) ==> error == budget_error(runner.options.max_steps as nat),
{
    let w = &runner.workflow;
    let taken = &w.steps@[step];
    assert(step_consistent(w, taken));
    lemma_step_position(w.steps@, taken.id@);
    assert(step_known(w, taken.id@));
}

// ---------------------------------------------------------------------------
// From event to action
// ---------------------------------------------------------------------------

/// The run is over, with a failure, and nothing more is recorded.
pub open spec fn fails(
    next: (StateView, ActionView),
    completed: Seq<CompletedStepView>,
    error: WorkflowErrorView,
) -> bool {
    &&& next.0.completed == completed
    &&& next.0.phase is Finished
    &&& next.1 == ActionView::Finish(Err(error))
}

/// The run is over, and its report holds what was recorded.
pub open spec fn ends(
    runner: &Runner,
    next: (StateView, ActionView),
    now: Seq<CompletedStepView>,
    status: RunStatusView,
) -> bool {
    &&& next.0.completed == now
    &&& next.0.phase is Finished
    &&& next.1 matches ActionView::Finish(Ok(report)) && {
        &&& report.workflow_name == runner.workflow.name@
        &&& report.dry_run == runner.options.dry_run
        &&& report.completed_steps == now
        &&& report.final_status == status
    }
}

/// The run turns to the first step with the given id, for which the handoff file
/// is read. It fails where it may take no further step, or where no step has
/// that id.
pub open spec fn turns_to(
    runner: &Runner,
    next: (StateView, ActionView),
    now: Seq<CompletedStepView>,
    id: Seq<char>,
) -> bool {
    let steps = runner.workflow.steps@;
    if now.len() >= runner.options.max_steps {
        fails(
            next,
            now,
            WorkflowErrorView::Execution(
                "workflow exceeded max_steps limit ("@ + decimal_of(
                    runner.options.max_steps as nat,
                ) + ")"@,
            ),
        )
    } else if forall|i: int| 0 <= i < steps.len() ==> (#[trigger] steps[i]).id@ != id {
        fails(next, now, WorkflowErrorView::Execution("unknown step `"@ + id + "`"@))
    } else {
        &&& next.0.completed == now
        &&& next.0.phase matches PhaseView::ReadContext { step } && {
            &&& 0 <= step < steps.len()
            &&& steps[step].id@ == id
            &&& forall|i: int| 0 <= i < step ==> (#[trigger] steps[i]).id@ != id
        }
        &&& next.1 == (ActionView::ReadHandoff {
            path: path_from(runner.workspace_root@, runner.workflow.handoff.path@),
        })
    }
}

/// The run goes where the transition of a step says.
pub open spec fn takes(
    runner: &Runner,
    next: (StateView, ActionView),
    now: Seq<CompletedStepView>,
    taken: &Step,
    transition: Option<StepTransition>,
) -> bool {
    match transition {
        None => ends(runner, next, now, RunStatusView::Completed),
        Some(t) => {
            &&& t.route == StepRoute::Halt ==> ends(runner, next, now, RunStatusView::Halted)
            &&& t.route != StepRoute::Halt && t.next_step is Some ==> turns_to(
                runner,
                next,
                now,
                t.next_step->0@,
            )
            &&& t.route == StepRoute::Retry && t.next_step is None ==> turns_to(
                runner,
                next,
                now,
                taken.id@,
            )
            &&& t.route == StepRoute::Continue && t.next_step is None ==> ends(
                runner,
                next,
                now,
                RunStatusView::Completed,
            )
        },
    }
}

/// The agent is the one to review a step: that to which the step hands over
/// after success, if it is another than the step's own, or else the first of the
/// workflow that is another.
pub open spec fn may_review(runner: &Runner, taken: &Step, reviewer: Seq<char>) -> bool {
    let known = agent_entries(runner.workflow.agents);
    if taken.on_success matches Some(t) && t.handoff_to matches Some(agent) && agent@
        != taken.agent@ {
        reviewer == taken.on_success->0.handoff_to->0@
    } else {
        &&& reviewer != taken.agent@
        &&& exists|i: int|
            0 <= i < known.len() && (#[trigger] known[i]).0 == reviewer && forall|j: int|
                0 <= j < i ==> (#[trigger] known[j]).0 == taken.agent@
    }
}

/// The review gate is the first of the workflow that has the id which the step names.
pub open spec fn guards(runner: &Runner, taken: &Step, gate: int) -> bool {
    let gates = runner.workflow.review_gates@;
    &&& 0 <= gate < gates.len()
    &&& taken.review.gate matches Some(id) && gates[gate].id@ == id@ && forall|i: int|
        0 <= i < gate ==> (#[trigger] gates[i]).id@ != id@
}

/// A step must be reviewed: it says so, or it does not say and the workflow does.
pub open spec fn review_due(runner: &Runner, taken: &Step) -> bool {
    match taken.review.required {
        Some(required) => required,
        None => runner.workflow.defaults.review_required,
    }
}

/// The way of a run after the entry for a step. A step that failed follows its
/// transition for failures. One that succeeded is reviewed where that is due, and
/// otherwise follows its transition for successes. In a dry run every review
/// approves.
pub open spec fn goes_on(
    runner: &Runner,
    next: (StateView, ActionView),
    completed: Seq<CompletedStepView>,
    step: int,
    context: ContextView,
    result: AgentResultView,
) -> bool {
    let taken = &runner.workflow.steps@[step];
    let dry = runner.options.dry_run;
    let record = |reviewed: bool, status: StepExecutionStatus|
        completed.push(
            CompletedStepView { step_id: taken.id@, agent: taken.agent@, reviewed, status },
        );
    if result.status != AgentRunStatus::Success {
        let status = if dry {
            StepExecutionStatus::DryRun
        } else {
            StepExecutionStatus::Failed
        };
        takes(runner, next, record(false, status), taken, taken.on_failure)
    } else if !review_due(runner, taken) {
        let status = if dry {
            StepExecutionStatus::DryRun
        } else {
            StepExecutionStatus::Succeeded
        };
        takes(runner, next, record(false, status), taken, taken.on_success)
    } else if taken.review.gate is None {
        fails(
            next,
            completed,
            WorkflowErrorView::Execution(
                "step `"@ + taken.id@ + "` requires review but no gate was configured"@,
            ),
        )
    } else if forall|gate: int| !guards(runner, taken, gate) {
        fails(
            next,
            completed,
            WorkflowErrorView::Execution(
                "unknown review gate `"@ + taken.review.gate->0@ + "`"@,
            ),
        )
    } else if forall|reviewer: Seq<char>| !may_review(runner, taken, reviewer) {
        fails(
            next,
            completed,
            WorkflowErrorView::Execution(
                "step `"@ + taken.id@ + "` requires a "@ + review_role()
                    + " but no alternate agent exists"@,
            ),
        )
    } else if dry {
        takes(
            runner,
            next,
            record(true, StepExecutionStatus::DryRun),
            taken,
            taken.on_success,
        )
    } else {
        &&& next.0.completed == completed
        &&& next.0.phase matches PhaseView::Review { step: reviewed, gate } && reviewed == step
            && guards(runner, taken, gate)
        &&& next.1 matches ActionView::RunReview {
            step: reviewed,
            gate,
            reviewer,
            context: known,
            result: reported,
        } && {
            &&& reviewed == step
            &&& guards(runner, taken, gate)
            &&& may_review(runner, taken, reviewer)
            &&& known == context
            &&& reported == result
        }
    }
}

/// The way of a run once a step has its result. Where entries are written, the
/// directory of the handoff file is made first, if it has one.
pub open spec fn writes_down(
    runner: &Runner,
    next: (StateView, ActionView),
    completed: Seq<CompletedStepView>,
    step: int,
    context: ContextView,
    result: AgentResultView,
) -> bool {
    let path = path_from(runner.workspace_root@, runner.workflow.handoff.path@);
    if !runner.workflow.defaults.auto_handoff {
        goes_on(runner, next, completed, step, context, result)
    } else {
        &&& next.0.completed == completed
        &&& match parent_of(path) {
            Some(directory) => {
                &&& next.0.phase == (PhaseView::CreateDirectory { step, context, result })
                &&& next.1 == (ActionView::CreateDirectory { path: directory })
            },
            None => adds_entry(runner, next, completed, step, context, result),
        }
    }
}

/// The handoff file gets an entry: after what it holds, or in place of that.
pub open spec fn adds_entry(
    runner: &Runner,
    next: (StateView, ActionView),
    completed: Seq<CompletedStepView>,
    step: int,
    context: ContextView,
    result: AgentResultView,
) -> bool {
    let path = path_from(runner.workspace_root@, runner.workflow.handoff.path@);
    &&& next.0.completed == completed
    &&& match runner.workflow.handoff.mode {
        HandoffMode::Append => {
            &&& next.0.phase == (PhaseView::ReadHandoff { step, context, result })
            &&& next.1 == (ActionView::ReadHandoff { path })
        },
        HandoffMode::Replace => {
            &&& next.0.phase == (PhaseView::WriteHandoff { step, context, result })
            &&& next.1 == (ActionView::WriteHandoff {
                path,
                contents: entry_of(
                    texts(runner.workflow.handoff.required_sections@),
                    &runner.workflow.steps@[step],
                    context,
                    result,
                ),
            })
        },
    }
}

proof fn lemma_turns(
    runner: &Runner,
    next: (StateView, ActionView),
    now: Seq<CompletedStepView>,
    id: Seq<char>,
)
    requires
        next == begun(runner, id, now),
    ensures
        turns_to(runner, next, now, id),
{
    lemma_step_position(runner.workflow.steps@, id);
}

proof fn lemma_takes(
    runner: &Runner,
    completed: Seq<CompletedStepView>,
    step: int,
    success: bool,
    reviewed: bool,
)
    ensures
        ({
            let taken = &runner.workflow.steps@[step];
            takes(
                runner,
                settled(runner, completed, step, success, reviewed),
                completed.push(recorded(runner, taken, success, reviewed)),
                taken,
                if success {
                    taken.on_success
                } else {
                    taken.on_failure
                },
            )
        }),
{
    let taken = &runner.workflow.steps@[step];
    let now = completed.push(recorded(runner, taken, success, reviewed));
    let next = settled(runner, completed, step, success, reviewed);
    let transition = if success {
        taken.on_success
    } else {
        taken.on_failure
    };
    if let ResolutionView::Next(id) = resolution(taken, transition) {
        lemma_turns(runner, next, now, id);
    }
}

proof fn lemma_reviewer(runner: &Runner, taken: &Step)
    ensures
        match reviewer_of(&runner.workflow, taken) {
            Some(reviewer) => may_review(runner, taken, reviewer),
            None => forall|reviewer: Seq<char>| !may_review(runner, taken, reviewer),
        },
{
    let known = agent_entries(runner.workflow.agents);
    lemma_first_among(known, taken.agent@);
    if reviewer_of(&runner.workflow, taken) is None {
        assert forall|reviewer: Seq<char>| !may_review(runner, taken, reviewer) by {
            if may_review(runner, taken, reviewer) {
                let i = choose|i: int|
                    0 <= i < known.len() && (#[trigger] known[i]).0 == reviewer && forall|j: int|
                        0 <= j < i ==> (#[trigger] known[j]).0 == taken.agent@;
                assert(known[i].0 == taken.agent@);
            }
        }
    }
}

proof fn lemma_first_among<V>(known: Seq<(Seq<char>, V)>, name: Seq<char>)
    ensures
        match first_other(names(known), name) {
            Some(other) => other != name && exists|i: int|
                0 <= i < known.len() && (#[trigger] known[i]).0 == other && forall|j: int|
                    0 <= j < i ==> (#[trigger] known[j]).0 == name,
            None => forall|i: int| 0 <= i < known.len() ==> (#[trigger] known[i]).0 == name,
        },
    decreases known.len(),
{
    if known.len() > 0 {
        let rest = known.drop_first();
        assert(names(known)[0] == known[0].0);
        assert(names(known).drop_first() =~= names(rest));
        if known[0].0 == name {
            lemma_first_among(rest, name);
            match first_other(names(rest), name) {
                Some(other) => {
                    let i = choose|i: int|
                        0 <= i < rest.len() && (#[trigger] rest[i]).0 == other && forall|j: int|
                            0 <= j < i ==> (#[trigger] rest[j]).0 == name;
                    assert(known[i + 1].0 == other);
                    assert forall|j: int| 0 <= j < i + 1 implies (#[trigger] known[j]).0
                        == name by {
                        if j > 0 {
                            assert(known[j] == rest[j - 1]);
                        }
                    }
                },
                None => {
                    assert forall|i: int| 0 <= i < known.len() implies (#[trigger] known[i]).0
                        == name by {
                        if i > 0 {
                            assert(known[i] == rest[i - 1]);
                        }
                    }
                },
            }
        } else {
            assert(known[0].0 == names(known)[0]);
        }
    }
}

proof fn lemma_goes_on(
    runner: &Runner,
    completed: Seq<CompletedStepView>,
    step: int,
    context: ContextView,
    result: AgentResultView,
)
    ensures
        goes_on(
            runner,
            after_entry(runner, completed, step, context, result),
            completed,
            step,
            context,
            result,
        ),
{
    let taken = &runner.workflow.steps@[step];
    let gates = runner.workflow.review_gates@;
    let success = result.status == AgentRunStatus::Success;
    lemma_takes(runner, completed, step, success, false);
    lemma_takes(runner, completed, step, true, true);
    lemma_reviewer(runner, taken);
    if let Some(id) = taken.review.gate {
        lemma_gate_position(gates, id@);
        match gate_position(gates, id@) {
            Some(gate) => assert(guards(runner, taken, gate)),
            None => assert(forall|gate: int| !guards(runner, taken, gate)),
        }
    }
}

proof fn lemma_writes_down(
    runner: &Runner,
    completed: Seq<CompletedStepView>,
    step: int,
    context: ContextView,
    result: AgentResultView,
)
    ensures
        writes_down(
            runner,
            recording(runner, completed, step, context, result),
            completed,
            step,
            context,
            result,
        ),
{
    lemma_goes_on(runner, completed, step, context, result);
}

/// A run begins with the first step of the workflow.
pub proof fn law_run_begins_at_the_first_step(runner: &Runner)
    ensures
        runner.workflow.steps@.len() == 0 ==> fails(
            started(runner),
            Seq::empty(),
            WorkflowErrorView::Execution("workflow contains no steps"@),
        ),
        runner.workflow.steps@.len() > 0 && runner.options.max_steps > 0 ==> started(runner) == (
            StateView { completed: Seq::empty(), phase: PhaseView::ReadContext { step: 0 } },
            ActionView::ReadHandoff {
                path: path_from(runner.workspace_root@, runner.workflow.handoff.path@),
            },
        ),
        runner.workflow.steps@.len() > 0 && runner.options.max_steps == 0 ==> started(runner).1 is Finish
            && started(runner).1->Finish_0 is Err,
{
    if runner.workflow.steps@.len() > 0 {
        lemma_step_position(runner.workflow.steps@, runner.workflow.steps@[0].id@);
    }
}

/// What an agent is given is about its step: its id, its agent, the workspace of
/// that agent, and the handoff file with what it holds; a missing file holds
/// nothing. A file that cannot be read ends the run.
pub proof fn law_agent_is_told_of_its_step(
    runner: &Runner,
    state: StateView,
    step: int,
    read: FileReadView,
)
    requires
        valid(runner, state),
        state.phase == (PhaseView::ReadContext { step }),
    ensures
        ({
            let taken = &runner.workflow.steps@[step];
            let path = path_from(runner.workspace_root@, runner.workflow.handoff.path@);
            let next = resumed(runner, state, EventView::HandoffRead(read));
            let context = ContextView {
                current_step_id: taken.id@,
                current_agent: taken.agent@,
                workspace_root: runner.workspace_of(taken.agent@),
                handoff_path: path,
                handoff_markdown: if read is Contents {
                    read->Contents_0
                } else {
                    Seq::empty()
                },
            };
            &&& read matches FileReadView::Failed(reason) ==> fails(
                next,
                state.completed,
                WorkflowErrorView::Execution(
                    "failed to read handoff file `"@ + path + "`: "@ + reason,
                ),
            )
            &&& !(read is Failed) && !runner.options.dry_run ==> next == (
                StateView {
                    completed: state.completed,
                    phase: PhaseView::RunAgent { step, context },
                },
                ActionView::RunAgent { step, context },
            )
            &&& !(read is Failed) && runner.options.dry_run ==> writes_down(
                runner,
                next,
                state.completed,
                step,
                context,
                AgentResultView {
                    status: AgentRunStatus::Success,
                    summary: "dry run for step `"@ + taken.id@ + "`"@,
                    current_state: Some("No work executed"@),
                    open_questions: Seq::empty(),
                    next_actions: seq!["Invoke the real agent executor"@],
                },
            )
        }),
{
    let taken = &runner.workflow.steps@[step];
    if let Ok(markdown) = read_result(runner.handoff_path(), read) {
        let context = context_of(runner, taken, markdown);
        lemma_writes_down(runner, state.completed, step, context, dry_result(taken));
    }
}

/// After its agent, a step runs its commands, the first one first, where the
/// agent worked and reported success; a step that failed or has no commands is
/// written down at once. An agent that could not report ends the run.
pub proof fn law_commands_come_after_the_agent(
    runner: &Runner,
    state: StateView,
    step: int,
    context: ContextView,
    report: Result<AgentResultView, WorkflowErrorView>,
)
    requires
        valid(runner, state),
        state.phase == (PhaseView::RunAgent { step, context }),
    ensures
        ({
            let commands = runner.workflow.steps@[step].run@;
            let next = resumed(runner, state, EventView::AgentFinished(report));
            match report {
                Err(error) => fails(next, state.completed, error),
                Ok(result) => if result.status == AgentRunStatus::Success && commands.len() > 0 {
                    next == (
                        StateView {
                            completed: state.completed,
                            phase: PhaseView::RunCommand { step, context, result, command: 0 },
                        },
                        ActionView::RunCommand {
                            command: commands[0]@,
                            workspace: context.workspace_root,
                        },
                    )
                } else {
                    writes_down(runner, next, state.completed, step, context, result)
                },
            }
        }),
{
    if let Ok(result) = report {
        lemma_writes_down(runner, state.completed, step, context, result);
    }
}

/// A command that succeeds is followed by the next, and the last by the entry.
/// One that fails ends the run, and the failure names it with what it printed.
pub proof fn law_commands_are_run_in_order(
    runner: &Runner,
    state: StateView,
    step: int,
    context: ContextView,
    result: AgentResultView,
    command: int,
    process: ProcessView,
)
    requires
        valid(runner, state),
        state.phase == (PhaseView::RunCommand { step, context, result, command }),
    ensures
        ({
            let taken = &runner.workflow.steps@[step];
            let commands = taken.run@;
            let next = resumed(runner, state, EventView::CommandFinished(process));
            match process {
                ProcessView::Exited { success: true, .. } => if command + 1 < commands.len() {
                    next == (
                        StateView {
                            completed: state.completed,
                            phase: PhaseView::RunCommand {
                                step,
                                context,
                                result,
                                command: command + 1,
                            },
                        },
                        ActionView::RunCommand {
                            command: commands[command + 1]@,
                            workspace: context.workspace_root,
                        },
                    )
                } else {
                    writes_down(runner, next, state.completed, step, context, result)
                },
                ProcessView::Exited { success: false, status, stdout, stderr } => fails(
                    next,
                    state.completed,
                    WorkflowErrorView::StepFailed {
                        step_id: taken.id@,
                        message: "shell command `"@ + commands[command]@
                            + "` failed with status "@ + status + ".\nstdout:\n"@ + trimmed(
                            stdout,
                            Trimmed::WhiteSpace,
                        ) + "\nstderr:\n"@ + trimmed(stderr, Trimmed::WhiteSpace),
                    },
                ),
                ProcessView::NotStarted(reason) => fails(
                    next,
                    state.completed,
                    WorkflowErrorView::StepFailed {
                        step_id: taken.id@,
                        message: "failed to start `"@ + commands[command]@ + "`: "@ + reason,
                    },
                ),
            }
        }),
{
    lemma_writes_down(runner, state.completed, step, context, result);
}

/// With its directory in place, the handoff file gets its entry. A directory that
/// cannot be made ends the run.
pub proof fn law_entry_comes_after_its_directory(
    runner: &Runner,
    state: StateView,
    step: int,
    context: ContextView,
    result: AgentResultView,
    failure: Option<Seq<char>>,
)
    requires
        valid(runner, state),
        state.phase == (PhaseView::CreateDirectory { step, context, result }),
    ensures
        ({
            let path = path_from(runner.workspace_root@, runner.workflow.handoff.path@);
            let next = resumed(runner, state, EventView::DirectoryCreated { failure });
            &&& parent_of(path) is Some
            &&& match failure {
                None => adds_entry(runner, next, state.completed, step, context, result),
                Some(reason) => fails(
                    next,
                    state.completed,
                    WorkflowErrorView::Execution(
                        "failed to create handoff directory `"@ + parent_of(path)->0 + "`: "@
                            + reason,
                    ),
                ),
            }
        }),
{
}

/// An entry that is added stands after what the file holds, with a blank line
/// between them, and alone in a file that is blank or missing. A file that cannot
/// be read ends the run.
pub proof fn law_entries_are_added_at_the_end(
    runner: &Runner,
    state: StateView,
    step: int,
    context: ContextView,
    result: AgentResultView,
    read: FileReadView,
)
    requires
        valid(runner, state),
        state.phase == (PhaseView::ReadHandoff { step, context, result }),
    ensures
        ({
            let path = path_from(runner.workspace_root@, runner.workflow.handoff.path@);
            let next = resumed(runner, state, EventView::HandoffRead(read));
            let entry = entry_of(
                texts(runner.workflow.handoff.required_sections@),
                &runner.workflow.steps@[step],
                context,
                result,
            );
            match read {
                FileReadView::Failed(reason) => fails(
                    next,
                    state.completed,
                    WorkflowErrorView::Execution(
                        "failed to read handoff file `"@ + path + "`: "@ + reason,
                    ),
                ),
                _ => {
                    &&& next.0.completed == state.completed
                    &&& next.0.phase == (PhaseView::WriteHandoff { step, context, result })
                    &&& next.1 == (ActionView::WriteHandoff {
                        path,
                        contents: if read matches FileReadView::Contents(held) && !blank(held) {
                            read->Contents_0 + "\n\n"@ + entry
                        } else {
                            entry
                        },
                    })
                },
            }
        }),
{
}

/// Once its entry is written, a step that succeeded is reviewed where that is due,
/// and otherwise goes where its transition for successes says, whatever that for
/// failures is; a step that failed goes where its transition for failures says.
/// An entry that cannot be written ends the run.
pub proof fn law_steps_go_where_their_transitions_say(
    runner: &Runner,
    state: StateView,
    step: int,
    context: ContextView,
    result: AgentResultView,
    failure: Option<Seq<char>>,
)
    requires
        valid(runner, state),
        state.phase == (PhaseView::WriteHandoff { step, context, result }),
    ensures
        ({
            let path = path_from(runner.workspace_root@, runner.workflow.handoff.path@);
            let next = resumed(runner, state, EventView::HandoffWritten { failure });
            match failure {
                None => goes_on(runner, next, state.completed, step, context, result),
                Some(reason) => fails(
                    next,
                    state.completed,
                    WorkflowErrorView::Execution(
                        "failed to write handoff file `"@ + path + "` in "@ + (
                        match runner.workflow.handoff.mode {
                            HandoffMode::Append => "append"@,
                            HandoffMode::Replace => "replace"@,
                        }) + " mode: "@ + reason,
                    ),
                ),
            }
        }),
{
    lemma_goes_on(runner, state.completed, step, context, result);
}

/// A step goes where its transition for successes says if its review approves it,
/// and where that for failures says if it is rejected. A review that could not be
/// held ends the run.
pub proof fn law_reviews_decide_the_transition(
    runner: &Runner,
    state: StateView,
    step: int,
    gate: int,
    decided: Result<DecisionView, WorkflowErrorView>,
)
    requires
        valid(runner, state),
        state.phase == (PhaseView::Review { step, gate }),
    ensures
        ({
            let taken = &runner.workflow.steps@[step];
            let next = resumed(runner, state, EventView::ReviewFinished(decided));
            let record = |status: StepExecutionStatus|
                state.completed.push(
                    CompletedStepView {
                        step_id: taken.id@,
                        agent: taken.agent@,
                        reviewed: true,
                        status,
                    },
                );
            match decided {
                Err(error) => fails(next, state.completed, error),
                Ok(decision) => if decision.approved {
                    takes(
                        runner,
                        next,
                        record(StepExecutionStatus::Succeeded),
                        taken,
                        taken.on_success,
                    )
                } else {
                    takes(
                        runner,
                        next,
                        record(StepExecutionStatus::Failed),
                        taken,
                        taken.on_failure,
                    )
                },
            }
        }),
{
    if let Ok(decision) = decided {
        lemma_takes(runner, state.completed, step, decision.approved, true);
    }
}

/// A transition for failures has no bearing on a step that succeeds, and one for
/// successes none on a step that fails: with the other transition replaced, the
/// run goes on in the same way.
pub proof fn law_other_transition_does_not_matter(
    one: &Runner,
    other: &Runner,
    state: StateView,
    step: int,
    context: ContextView,
    result: AgentResultView,
)
    requires
        valid(one, state),
        valid(other, state),
        state.phase == (PhaseView::WriteHandoff { step, context, result }),
        one.options == other.options,
        one.workspace_root == other.workspace_root,
        one.workflow.name == other.workflow.name,
        one.workflow.defaults == other.workflow.defaults,
        one.workflow.handoff == other.workflow.handoff,
        one.workflow.agents == other.workflow.agents,
        one.workflow.review_gates == other.workflow.review_gates,
        one.workflow.steps@.len() == other.workflow.steps@.len(),
        forall|i: int|
            0 <= i < one.workflow.steps@.len() ==> (#[trigger] one.workflow.steps@[i]).id
                == other.workflow.steps@[i].id,
        one.workflow.steps@[step].agent == other.workflow.steps@[step].agent,
        one.workflow.steps@[step].review == other.workflow.steps@[step].review,
        result.status == AgentRunStatus::Success ==> one.workflow.steps@[step].on_success
            == other.workflow.steps@[step].on_success,
        result.status != AgentRunStatus::Success ==> one.workflow.steps@[step].on_failure
            == other.workflow.steps@[step].on_failure,
    ensures
        resumed(one, state, EventView::HandoffWritten { failure: None }) == resumed(
            other,
            state,
            EventView::HandoffWritten { failure: None },
        ),
{
    let taken = &one.workflow.steps@[step];
    let success = result.status == AgentRunStatus::Success;
    let transition = if success {
        taken.on_success
    } else {
        taken.on_failure
    };
    if let ResolutionView::Next(id) = resolution(taken, transition) {
        lemma_same_positions(one.workflow.steps@, other.workflow.steps@, id);
    }
    assert(one.workflow.steps@[step].id == other.workflow.steps@[step].id);
}

proof fn lemma_same_positions(one: Seq<Step>, other: Seq<Step>, id: Seq<char>)
    requires
        one.len() == other.len(),
        forall|i: int| 0 <= i < one.len() ==> (#[trigger] one[i]).id == other[i].id,
    ensures
        step_position(one, id) == step_position(other, id),
    decreases one.len(),
{
    if one.len() > 0 {
        assert(one[0].id == other[0].id);
        let rest = one.drop_first();
        assert forall|i: int| 0 <= i < rest.len() implies (#[trigger] rest[i]).id
            == other.drop_first()[i].id by {
            assert(rest[i] == one[i + 1]);
        }
        lemma_same_positions(rest, other.drop_first(), id);
    }
}

} // verus!
