//! Generating a workflow file, in conversation with the user.
//!
//! This is a machine: it names what has to be done next, and goes on when it is
//! told what came of it.

use vstd::prelude::*;
use vstd::string::*;

use super::analysis::{
    analyze_project, analyzed, kind_name, regen_outcome, AnalysisView, ProjectAnalysis,
    ProjectProbe, RegenError, RegenErrorView,
};
use super::render::{render_workflow_yaml, workflow_text};
use crate::paths::{absolute, is_absolute, join_path, parent_directory, parent_of, path_from};
use crate::text::{
    ascii_lowered, blank, is_blank, join, joined, lemma_blank_when_trimmed_empty, optional, same, text_result, texts,
    to_ascii_lower, trim, trim_line_end, trimmed, without_suffix, Trimmed,
};

verus! {

/// A request to generate a workflow.
#[derive(Debug, Clone)]
pub struct RegenCommand {
    /// The file to be written.
    pub workflow_path: String,
    /// The directory of the project, if it is not the current one.
    pub project_dir: Option<String>,
    /// The file is written even if it exists.
    pub force: bool,
}

/// What was generated.
#[derive(Debug, Clone)]
pub struct RegenReport {
    pub workflow_path: String,
    pub project_root: String,
    pub project_kind: &'static str,
    pub notes: Vec<String>,
}

/// A request with its paths made absolute.
#[derive(Debug)]
pub struct RegenRun {
    pub workflow_path: String,
    pub project_root: String,
    pub force: bool,
}

/// What the generation waits for.
#[derive(Debug)]
pub enum RegenPhase {
    Inspect,
    AskPreferences { analysis: ProjectAnalysis },
    EnterPreferences { analysis: ProjectAnalysis, collected: Vec<String> },
    CheckTarget { analysis: ProjectAnalysis, yaml: String },
    AskOverwrite { analysis: ProjectAnalysis, yaml: String },
    CreateDirectory { analysis: ProjectAnalysis, yaml: String },
    WriteFile { analysis: ProjectAnalysis },
    Finished,
}

/// What has to be done for the generation.
#[derive(Debug)]
pub enum RegenAction {
    /// Look at the directory of the project.
    Inspect { root: String },
    /// Print the lines, then the prompt without ending its line, and read a
    /// line.
    Ask { lines: Vec<String>, prompt: String },
    /// See whether the file exists.
    CheckTarget { path: String },
    /// Make a directory and those above it, where they are missing.
    CreateDirectory { path: String },
    WriteFile { path: String, contents: String },
    /// Nothing: the generation is over.
    Finish(Result<RegenReport, RegenError>),
}

/// What the user answered.
#[derive(Debug)]
pub enum Answer {
    /// A line, with its ending if it has one.
    Line(String),
    /// The question could not be shown.
    NotShown(String),
    /// The answer could not be read.
    NotRead(String),
}

/// What came of an action.
#[derive(Debug)]
pub enum RegenEvent {
    Inspected(ProjectProbe),
    Answered(Answer),
    TargetChecked { exists: bool },
    DirectoryCreated { failure: Option<String> },
    FileWritten { failure: Option<String> },
}

/// A [`RegenReport`] with its texts as sequences of characters.
#[verifier::ext_equal]
pub ghost struct RegenReportView {
    pub workflow_path: Seq<char>,
    pub project_root: Seq<char>,
    pub project_kind: Seq<char>,
    pub notes: Seq<Seq<char>>,
}

/// A [`RegenPhase`] with its texts as sequences of characters.
#[verifier::ext_equal]
pub ghost enum RegenPhaseView {
    Inspect,
    AskPreferences { analysis: AnalysisView },
    EnterPreferences { analysis: AnalysisView, collected: Seq<Seq<char>> },
    CheckTarget { analysis: AnalysisView, yaml: Seq<char> },
    AskOverwrite { analysis: AnalysisView, yaml: Seq<char> },
    CreateDirectory { analysis: AnalysisView, yaml: Seq<char> },
    WriteFile { analysis: AnalysisView },
    Finished,
}

/// A [`RegenAction`] with its texts as sequences of characters.
#[verifier::ext_equal]
pub ghost enum RegenActionView {
    Inspect { root: Seq<char> },
    Ask { lines: Seq<Seq<char>>, prompt: Seq<char> },
    CheckTarget { path: Seq<char> },
    CreateDirectory { path: Seq<char> },
    WriteFile { path: Seq<char>, contents: Seq<char> },
    Finish(Result<RegenReportView, RegenErrorView>),
}

/// An [`Answer`] with its text as a sequence of characters.
pub ghost enum AnswerView {
    Line(Seq<char>),
    NotShown(Seq<char>),
    NotRead(Seq<char>),
}

/// A [`RegenEvent`] with its texts as sequences of characters.
pub ghost enum RegenEventView {
    Inspected(ProjectProbe),
    Answered(AnswerView),
    TargetChecked { exists: bool },
    DirectoryCreated { failure: Option<Seq<char>> },
    FileWritten { failure: Option<Seq<char>> },
}

impl View for RegenReport {
    type V = RegenReportView;

    open spec fn view(&self) -> RegenReportView {
        RegenReportView {
            workflow_path: self.workflow_path@,
            project_root: self.project_root@,
            project_kind: self.project_kind@,
            notes: texts(self.notes@),
        }
    }
}

impl View for RegenPhase {
    type V = RegenPhaseView;

    open spec fn view(&self) -> RegenPhaseView {
        match self {
            RegenPhase::Inspect => RegenPhaseView::Inspect,
            RegenPhase::AskPreferences { analysis } => RegenPhaseView::AskPreferences {
                analysis: analysis@,
            },
            RegenPhase::EnterPreferences { analysis, collected } => {
                RegenPhaseView::EnterPreferences {
                    analysis: analysis@,
                    collected: texts(collected@),
                }
            },
            RegenPhase::CheckTarget { analysis, yaml } => RegenPhaseView::CheckTarget {
                analysis: analysis@,
                yaml: yaml@,
            },
            RegenPhase::AskOverwrite { analysis, yaml } => RegenPhaseView::AskOverwrite {
                analysis: analysis@,
                yaml: yaml@,
            },
            RegenPhase::CreateDirectory { analysis, yaml } => RegenPhaseView::CreateDirectory {
                analysis: analysis@,
                yaml: yaml@,
            },
            RegenPhase::WriteFile { analysis } => RegenPhaseView::WriteFile {
                analysis: analysis@,
            },
            RegenPhase::Finished => RegenPhaseView::Finished,
        }
    }
}

impl View for RegenAction {
    type V = RegenActionView;

    open spec fn view(&self) -> RegenActionView {
        match self {
            RegenAction::Inspect { root } => RegenActionView::Inspect { root: root@ },
            RegenAction::Ask { lines, prompt } => RegenActionView::Ask {
                lines: texts(lines@),
                prompt: prompt@,
            },
            RegenAction::CheckTarget { path } => RegenActionView::CheckTarget { path: path@ },
            RegenAction::CreateDirectory { path } => RegenActionView::CreateDirectory {
                path: path@,
            },
            RegenAction::WriteFile { path, contents } => RegenActionView::WriteFile {
                path: path@,
                contents: contents@,
            },
            RegenAction::Finish(result) => RegenActionView::Finish(regen_outcome(*result)),
        }
    }
}

impl View for Answer {
    type V = AnswerView;

    open spec fn view(&self) -> AnswerView {
        match self {
            Answer::Line(line) => AnswerView::Line(line@),
            Answer::NotShown(reason) => AnswerView::NotShown(reason@),
            Answer::NotRead(reason) => AnswerView::NotRead(reason@),
        }
    }
}

impl View for RegenEvent {
    type V = RegenEventView;

    open spec fn view(&self) -> RegenEventView {
        match self {
            RegenEvent::Inspected(probe) => RegenEventView::Inspected(*probe),
            RegenEvent::Answered(answer) => RegenEventView::Answered(answer@),
            RegenEvent::TargetChecked { exists } => RegenEventView::TargetChecked {
                exists: *exists,
            },
            RegenEvent::DirectoryCreated { failure } => RegenEventView::DirectoryCreated {
                failure: optional(*failure),
            },
            RegenEvent::FileWritten { failure } => RegenEventView::FileWritten {
                failure: optional(*failure),
            },
        }
    }
}

/// A phase together with what has to be done in it.
pub open spec fn regen_progress(r: (RegenPhase, RegenAction)) -> (
    RegenPhaseView,
    RegenActionView,
) {
    (r.0@, r.1@)
}

// ---------------------------------------------------------------------------
// Meaning
// ---------------------------------------------------------------------------

/// A failure that nothing else caused.
pub open spec fn refusal(message: Seq<char>) -> RegenErrorView {
    RegenErrorView { message, cause: None }
}

/// A failure with its cause.
pub open spec fn caused(message: Seq<char>, cause: Seq<char>) -> RegenErrorView {
    RegenErrorView { message, cause: Some(cause) }
}

/// `path` as an absolute path. The current directory matters only to a relative
/// one.
pub open spec fn absolutized(path: Seq<char>, current_dir: Result<Seq<char>, Seq<char>>) -> Result<
    Seq<char>,
    RegenErrorView,
> {
    if is_absolute(path) {
        Ok(path)
    } else {
        match current_dir {
            Ok(base) => Ok(path_from(base, path)),
            Err(reason) => Err(refusal(reason)),
        }
    }
}

/// The directory of the project.
pub open spec fn root_for(
    project_dir: Option<Seq<char>>,
    current_dir: Result<Seq<char>, Seq<char>>,
) -> Result<Seq<char>, RegenErrorView> {
    match project_dir {
        Some(path) => absolutized(path, current_dir),
        None => match current_dir {
            Ok(base) => Ok(base),
            Err(reason) => Err(refusal(reason)),
        },
    }
}

/// A question with its possible answers, the usual one in capitals.
pub open spec fn question(message: Seq<char>, usual: bool) -> Seq<char> {
    message + " "@ + (if usual {
        "[Y/n]"@
    } else {
        "[y/N]"@
    }) + " "@
}

/// What a line means as the answer to a question.
pub open spec fn decided(line: Seq<char>, usual: bool) -> Result<bool, RegenErrorView> {
    let word = ascii_lowered(trimmed(line, Trimmed::WhiteSpace));
    if word.len() == 0 {
        Ok(usual)
    } else if word == "y"@ || word == "yes"@ {
        Ok(true)
    } else if word == "n"@ || word == "no"@ {
        Ok(false)
    } else {
        Err(refusal("expected yes or no"@))
    }
}

/// The line that was answered, without its ending.
pub open spec fn answered(answer: AnswerView) -> Result<Seq<char>, RegenErrorView> {
    match answer {
        AnswerView::Line(line) => Ok(without_suffix(line, Trimmed::LineEnd)),
        AnswerView::NotShown(reason) => Err(caused("failed to flush stdout"@, reason)),
        AnswerView::NotRead(reason) => Err(caused("failed to read user input"@, reason)),
    }
}

/// The answer to a question.
pub open spec fn decision(answer: AnswerView, usual: bool) -> Result<bool, RegenErrorView> {
    match answered(answer) {
        Ok(line) => decided(line, usual),
        Err(error) => Err(error),
    }
}

/// The notes, each with a word before it.
pub open spec fn noted(word: Seq<char>, notes: Seq<Seq<char>>) -> Seq<Seq<char>> {
    notes.map_values(|note: Seq<char>| word + note)
}

/// What the user is told of a project.
pub open spec fn analysis_text(analysis: AnalysisView, workflow_path: Seq<char>) -> Seq<Seq<char>> {
    seq![
        "analyzing project: "@ + analysis.root,
        "detected project type: "@ + kind_name(analysis.kind),
        "workflow target: "@ + workflow_path,
    ] + noted("signal: "@, analysis.notes)
}

/// What the user is told of the generated workflow.
pub open spec fn report_text(report: RegenReportView) -> Seq<Seq<char>> {
    seq![
        "generated workflow `"@ + report.workflow_path + "` for detected project type `"@
            + report.project_kind + "`"@,
        "project root: "@ + report.project_root,
    ] + noted("note: "@, report.notes)
}

/// The end of the generation.
pub open spec fn regen_finished(result: Result<RegenReportView, RegenErrorView>) -> (
    RegenPhaseView,
    RegenActionView,
) {
    (RegenPhaseView::Finished, RegenActionView::Finish(result))
}

/// The writing of the file.
pub open spec fn storing(run: &RegenRun, analysis: AnalysisView, yaml: Seq<char>) -> (
    RegenPhaseView,
    RegenActionView,
) {
    (
        RegenPhaseView::WriteFile { analysis },
        RegenActionView::WriteFile { path: run.workflow_path@, contents: yaml },
    )
}

/// The way to the writing of the file, which may take its place.
pub open spec fn placing(run: &RegenRun, analysis: AnalysisView, yaml: Seq<char>) -> (
    RegenPhaseView,
    RegenActionView,
) {
    match parent_of(run.workflow_path@) {
        Some(path) => (
            RegenPhaseView::CreateDirectory { analysis, yaml },
            RegenActionView::CreateDirectory { path },
        ),
        None => storing(run, analysis, yaml),
    }
}

/// The generation once the preferences of the user are known.
pub open spec fn prepared(
    run: &RegenRun,
    analysis: AnalysisView,
    preferences: Option<Seq<char>>,
) -> (RegenPhaseView, RegenActionView) {
    let yaml = workflow_text(analysis, preferences);
    if run.force {
        placing(run, analysis, yaml)
    } else {
        (
            RegenPhaseView::CheckTarget { analysis, yaml },
            RegenActionView::CheckTarget { path: run.workflow_path@ },
        )
    }
}

/// The question for one line of preferences.
pub open spec fn collecting(
    analysis: AnalysisView,
    collected: Seq<Seq<char>>,
    lines: Seq<Seq<char>>,
) -> (RegenPhaseView, RegenActionView) {
    (
        RegenPhaseView::EnterPreferences { analysis, collected },
        RegenActionView::Ask { lines, prompt: "> "@ },
    )
}

/// The preferences made up of the lines that were entered.
pub open spec fn preferences_from(collected: Seq<Seq<char>>) -> Option<Seq<char>> {
    if collected.len() == 0 {
        None
    } else {
        Some(joined(collected, "\n"@))
    }
}

/// The event tells what came of what the phase waits for.
pub open spec fn regen_fits(phase: RegenPhaseView, event: RegenEventView) -> bool {
    match phase {
        RegenPhaseView::Inspect => event is Inspected,
        RegenPhaseView::AskPreferences { .. } => event is Answered,
        RegenPhaseView::EnterPreferences { .. } => event is Answered,
        RegenPhaseView::CheckTarget { .. } => event is TargetChecked,
        RegenPhaseView::AskOverwrite { .. } => event is Answered,
        RegenPhaseView::CreateDirectory { .. } => event is DirectoryCreated,
        RegenPhaseView::WriteFile { .. } => event is FileWritten,
        RegenPhaseView::Finished => false,
    }
}

/// The generation after an event.
pub open spec fn regen_resumed(run: &RegenRun, phase: RegenPhaseView, event: RegenEventView) -> (
    RegenPhaseView,
    RegenActionView,
) {
    let path = run.workflow_path@;
    match (phase, event) {
        (RegenPhaseView::Inspect, RegenEventView::Inspected(probe)) => match analyzed(
            run.project_root@,
            &probe,
        ) {
            Err(error) => regen_finished(Err(error)),
            Ok(analysis) => (
                RegenPhaseView::AskPreferences { analysis },
                RegenActionView::Ask {
                    lines: analysis_text(analysis, path),
                    prompt: question(
                        "Do you want to add custom preferences before writing workflow.yaml?"@,
                        false,
                    ),
                },
            ),
        },
        (RegenPhaseView::AskPreferences { analysis }, RegenEventView::Answered(answer)) => {
            match decision(answer, false) {
                Err(error) => regen_finished(Err(error)),
                Ok(false) => prepared(run, analysis, None),
                Ok(true) => collecting(
                    analysis,
                    Seq::empty(),
                    seq!["Enter custom preferences. Submit an empty line to finish."@],
                ),
            }
        },
        (
            RegenPhaseView::EnterPreferences { analysis, collected },
            RegenEventView::Answered(answer),
        ) => match answered(answer) {
            Err(error) => regen_finished(Err(error)),
            Ok(line) => if blank(line) {
                prepared(run, analysis, preferences_from(collected))
            } else {
                collecting(analysis, collected.push(line), Seq::empty())
            },
        },
        (RegenPhaseView::CheckTarget { analysis, yaml }, RegenEventView::TargetChecked { exists }) => if exists {
            (
                RegenPhaseView::AskOverwrite { analysis, yaml },
                RegenActionView::Ask {
                    lines: Seq::empty(),
                    prompt: question(
                        "workflow file `"@ + path + "` already exists. Overwrite it?"@,
                        false,
                    ),
                },
            )
        } else {
            placing(run, analysis, yaml)
        },
        (RegenPhaseView::AskOverwrite { analysis, yaml }, RegenEventView::Answered(answer)) => {
            match decision(answer, false) {
                Err(error) => regen_finished(Err(error)),
                Ok(false) => regen_finished(
                    Err(refusal("aborted without writing workflow file"@)),
                ),
                Ok(true) => placing(run, analysis, yaml),
            }
        },
        (
            RegenPhaseView::CreateDirectory { analysis, yaml },
            RegenEventView::DirectoryCreated { failure },
        ) => match failure {
            None => storing(run, analysis, yaml),
            Some(reason) => regen_finished(
                Err(
                    caused(
                        "failed to create workflow directory `"@ + optional_path(parent_of(path))
                            + "`"@,
                        reason,
                    ),
                ),
            ),
        },
        (RegenPhaseView::WriteFile { analysis }, RegenEventView::FileWritten { failure }) => {
            match failure {
                None => regen_finished(
                    Ok(
                        RegenReportView {
                            workflow_path: path,
                            project_root: analysis.root,
                            project_kind: kind_name(analysis.kind),
                            notes: analysis.notes,
                        },
                    ),
                ),
                Some(reason) => regen_finished(
                    Err(caused("failed to write workflow file `"@ + path + "`"@, reason)),
                ),
            }
        },
        _ => arbitrary(),
    }
}

/// The path, or nothing where there is none.
pub open spec fn optional_path(path: Option<Seq<char>>) -> Seq<char> {
    match path {
        Some(path) => path,
        None => Seq::empty(),
    }
}

// ---------------------------------------------------------------------------
// Laws
// ---------------------------------------------------------------------------

/// The way to the writing of the file is open.
pub open spec fn writes(action: RegenActionView) -> bool {
    action is CreateDirectory || action is WriteFile
}

/// A file that exists is not overwritten unless that was asked for from the
/// start or the user says yes: nothing is written before the target was found
/// missing, before an answer of yes, or without force.
pub proof fn law_nothing_is_overwritten_unasked(
    run: &RegenRun,
    phase: RegenPhaseView,
    event: RegenEventView,
)
    requires
        regen_fits(phase, event),
        writes(regen_resumed(run, phase, event).1),
    ensures
        match phase {
            RegenPhaseView::AskPreferences { .. } => run.force,
            RegenPhaseView::EnterPreferences { .. } => run.force,
            RegenPhaseView::CheckTarget { .. } => event == (RegenEventView::TargetChecked {
                exists: false,
            }),
            RegenPhaseView::AskOverwrite { .. } => event matches RegenEventView::Answered(answer)
                && decision(answer, false) == Ok::<bool, RegenErrorView>(true),
            RegenPhaseView::CreateDirectory { .. } => event == (RegenEventView::DirectoryCreated {
                failure: None,
            }),
            _ => false,
        },
{
}

/// The generation after a sequence of events.
pub open spec fn regen_ran(run: &RegenRun, events: Seq<RegenEventView>) -> (
    RegenPhaseView,
    RegenActionView,
)
    decreases events.len(),
{
    if events.len() == 0 {
        (RegenPhaseView::Inspect, RegenActionView::Inspect { root: run.project_root@ })
    } else {
        regen_resumed(run, regen_ran(run, events.drop_last()).0, events.last())
    }
}

/// Each event tells what came of what the generation waited for.
pub open spec fn regen_possible(run: &RegenRun, events: Seq<RegenEventView>) -> bool
    decreases events.len(),
{
    events.len() == 0 || (regen_possible(run, events.drop_last()) && regen_fits(
        regen_ran(run, events.drop_last()).0,
        events.last(),
    ))
}

/// With event `i`, the user agreed to have the file overwritten.
pub open spec fn agreed(run: &RegenRun, events: Seq<RegenEventView>, i: int) -> bool {
    &&& 0 <= i < events.len()
    &&& regen_ran(run, events.take(i)).0 is AskOverwrite
    &&& events[i] matches RegenEventView::Answered(answer) && decision(answer, false) == Ok::<
        bool,
        RegenErrorView,
    >(true)
}

/// The file may be written: that was asked for from the start, or the file was
/// found missing, or the user agreed.
pub open spec fn cleared(run: &RegenRun, events: Seq<RegenEventView>) -> bool {
    ||| run.force
    ||| events.contains(RegenEventView::TargetChecked { exists: false })
    ||| exists|i: int| agreed(run, events, i)
}

/// Whatever happens during the generation, the file is not written before it
/// may be.
pub proof fn law_files_are_written_only_when_cleared(run: &RegenRun, events: Seq<RegenEventView>)
    requires
        regen_possible(run, events),
        writes(regen_ran(run, events).1),
    ensures
        cleared(run, events),
{
    lemma_cleared(run, events);
}

proof fn lemma_cleared(run: &RegenRun, events: Seq<RegenEventView>)
    requires
        regen_possible(run, events),
    ensures
        ({
            let (phase, action) = regen_ran(run, events);
            (phase is CreateDirectory || phase is WriteFile || writes(action)) ==> cleared(
                run,
                events,
            )
        }),
    decreases events.len(),
{
    if events.len() > 0 {
        let before = events.drop_last();
        let phase = regen_ran(run, before).0;
        let last = events.len() - 1;
        lemma_cleared(run, before);
        assert(events.take(last) =~= before);
        if cleared(run, before) && !run.force {
            let missing = RegenEventView::TargetChecked { exists: false };
            if before.contains(missing) {
                let i = choose|i: int| 0 <= i < before.len() && before[i] == missing;
                assert(events[i] == missing);
            } else {
                let i = choose|i: int| agreed(run, before, i);
                assert(events.take(i) =~= before.take(i));
                assert(agreed(run, events, i));
            }
        }
        match phase {
            RegenPhaseView::CheckTarget { .. } => {
                assert(events[last] == events.last());
            },
            RegenPhaseView::AskOverwrite { .. } => {
                if writes(regen_ran(run, events).1) {
                    assert(agreed(run, events, last));
                }
            },
            _ => {},
        }
    }
}

/// A user who says nothing does not have a file overwritten.
pub proof fn law_silence_keeps_the_file(
    run: &RegenRun,
    analysis: AnalysisView,
    yaml: Seq<char>,
    line: Seq<char>,
)
    requires
        blank(line),
    ensures
        regen_resumed(
            run,
            RegenPhaseView::AskOverwrite { analysis, yaml },
            RegenEventView::Answered(AnswerView::Line(line)),
        ) == regen_finished(Err(refusal("aborted without writing workflow file"@))),
{
    lemma_blank_without_line_end(line);
    lemma_blank_when_trimmed_empty(without_suffix(line, Trimmed::LineEnd));
}

proof fn lemma_blank_without_line_end(line: Seq<char>)
    requires
        blank(line),
    ensures
        blank(without_suffix(line, Trimmed::LineEnd)),
    decreases line.len(),
{
    if line.len() > 0 {
        assert(blank(line.drop_last())) by {
            assert forall|i: int| 0 <= i < line.len() - 1 implies crate::text::is_white_space(
                #[trigger] line.drop_last()[i],
            ) by {
                assert(line.drop_last()[i] == line[i]);
            }
        }
        lemma_blank_without_line_end(line.drop_last());
    }
}

/// A path that is not absolute leads on from the current directory, which matters
/// to no other; without a directory of its own, the project is in the current one.
pub proof fn law_paths_are_made_absolute(
    path: Seq<char>,
    base: Seq<char>,
    reason: Seq<char>,
    other: Result<Seq<char>, Seq<char>>,
)
    ensures
        path.len() > 0 && path[0] == '/' ==> absolutized(path, other) == Ok::<
            Seq<char>,
            RegenErrorView,
        >(path),
        path.len() == 0 || path[0] != '/' ==> absolutized(path, Ok(base)) == Ok::<
            Seq<char>,
            RegenErrorView,
        >(path_from(base, path)) && absolutized(path, Err(reason)) == Err::<
            Seq<char>,
            RegenErrorView,
        >(RegenErrorView { message: reason, cause: None }),
        root_for(Some(path), other) == absolutized(path, other),
        root_for(None, Ok(base)) == Ok::<Seq<char>, RegenErrorView>(base),
        root_for(None, Err(reason)) == Err::<Seq<char>, RegenErrorView>(
            RegenErrorView { message: reason, cause: None },
        ),
{
}

/// An answer is yes or no by its word, in capitals or not and with white space
/// around it or not; one without a word is the usual answer, and any other is
/// refused.
pub proof fn law_answers(line: Seq<char>, usual: bool)
    ensures
        ({
            let word = ascii_lowered(trimmed(line, Trimmed::WhiteSpace));
            let answer = decided(line, usual);
            &&& blank(line) ==> answer == Ok::<bool, RegenErrorView>(usual)
            &&& word == "y"@ || word == "yes"@ ==> answer == Ok::<bool, RegenErrorView>(true)
            &&& word == "n"@ || word == "no"@ ==> answer == Ok::<bool, RegenErrorView>(false)
            &&& !blank(line) && word != "y"@ && word != "yes"@ && word != "n"@ && word != "no"@
                ==> answer == Err::<bool, RegenErrorView>(
                RegenErrorView { message: "expected yes or no"@, cause: None },
            )
        }),
{
    lemma_blank_when_trimmed_empty(line);
    reveal_strlit("y");
    reveal_strlit("yes");
    reveal_strlit("n");
    reveal_strlit("no");
    assert("y"@[0] == 'y' && "yes"@[0] == 'y' && "n"@[0] == 'n' && "no"@[0] == 'n');
}

/// An answer loses its line ending; one that was not given fails, with the reason.
pub proof fn law_lines_that_are_answered(line: Seq<char>, reason: Seq<char>, usual: bool)
    ensures
        answered(AnswerView::Line(line)) == Ok::<Seq<char>, RegenErrorView>(
            without_suffix(line, Trimmed::LineEnd),
        ),
        answered(AnswerView::NotShown(reason)) == Err::<Seq<char>, RegenErrorView>(
            RegenErrorView { message: "failed to flush stdout"@, cause: Some(reason) },
        ),
        answered(AnswerView::NotRead(reason)) == Err::<Seq<char>, RegenErrorView>(
            RegenErrorView { message: "failed to read user input"@, cause: Some(reason) },
        ),
        decision(AnswerView::Line(line), usual) == decided(
            without_suffix(line, Trimmed::LineEnd),
            usual,
        ),
        decision(AnswerView::NotShown(reason), usual) is Err,
        decision(AnswerView::NotRead(reason), usual) is Err,
{
}

/// A question shows its usual answer in capitals.
pub proof fn law_questions(message: Seq<char>)
    ensures
        question(message, true) == message + " [Y/n] "@,
        question(message, false) == message + " [y/N] "@,
{
    reveal_strlit(" ");
    reveal_strlit("[Y/n]");
    reveal_strlit("[y/N]");
    reveal_strlit(" [Y/n] ");
    reveal_strlit(" [y/N] ");
    assert(" [Y/n] "@ =~= " "@ + "[Y/n]"@ + " "@);
    assert(" [y/N] "@ =~= " "@ + "[y/N]"@ + " "@);
    assert(question(message, true) =~= message + (" "@ + "[Y/n]"@ + " "@));
    assert(question(message, false) =~= message + (" "@ + "[y/N]"@ + " "@));
}

/// The generation is over, with a failure.
pub open spec fn gives_up(
    next: (RegenPhaseView, RegenActionView),
    message: Seq<char>,
    cause: Option<Seq<char>>,
) -> bool {
    &&& next.0 is Finished
    &&& next.1 matches RegenActionView::Finish(Err(error)) && error.message == message
        && error.cause == cause
}

/// The file is on its way: its directory is made first, if it has one.
pub open spec fn puts_down(
    run: &RegenRun,
    next: (RegenPhaseView, RegenActionView),
    analysis: AnalysisView,
    yaml: Seq<char>,
) -> bool {
    let path = run.workflow_path@;
    match parent_of(path) {
        Some(directory) => {
            &&& next.0 == (RegenPhaseView::CreateDirectory { analysis, yaml })
            &&& next.1 == (RegenActionView::CreateDirectory { path: directory })
        },
        None => {
            &&& next.0 == (RegenPhaseView::WriteFile { analysis })
            &&& next.1 == (RegenActionView::WriteFile { path, contents: yaml })
        },
    }
}

/// The text is made from what is known. Where the file must not be overwritten
/// unasked, it is seen first whether it exists.
pub open spec fn makes_text(
    run: &RegenRun,
    next: (RegenPhaseView, RegenActionView),
    analysis: AnalysisView,
    preferences: Option<Seq<char>>,
) -> bool {
    let yaml = workflow_text(analysis, preferences);
    &&& run.force ==> puts_down(run, next, analysis, yaml)
    &&& !run.force ==> next == (
        RegenPhaseView::CheckTarget { analysis, yaml },
        RegenActionView::CheckTarget { path: run.workflow_path@ },
    )
}

/// The user is told what was found and asked for preferences; a project that cannot
/// be inspected ends the generation.
pub proof fn law_user_is_told_of_the_project(run: &RegenRun, probe: ProjectProbe)
    ensures
        ({
            let next = regen_resumed(
                run,
                RegenPhaseView::Inspect,
                RegenEventView::Inspected(probe),
            );
            match analyzed(run.project_root@, &probe) {
                Err(error) => gives_up(next, error.message, error.cause),
                Ok(analysis) => {
                    &&& next.0 == (RegenPhaseView::AskPreferences { analysis })
                    &&& next.1 matches RegenActionView::Ask { lines, prompt } && {
                        &&& lines.len() == 3 + analysis.notes.len()
                        &&& lines[0] == "analyzing project: "@ + analysis.root
                        &&& lines[1] == "detected project type: "@ + kind_name(analysis.kind)
                        &&& lines[2] == "workflow target: "@ + run.workflow_path@
                        &&& forall|i: int|
                            0 <= i < analysis.notes.len() ==> lines[3 + i] == "signal: "@
                                + #[trigger] analysis.notes[i]
                        &&& prompt
                            == "Do you want to add custom preferences before writing workflow.yaml? [y/N] "@
                    }
                },
            }
        }),
{
    law_questions("Do you want to add custom preferences before writing workflow.yaml?"@);
    reveal_strlit("Do you want to add custom preferences before writing workflow.yaml?");
    reveal_strlit(" [y/N] ");
    reveal_strlit("Do you want to add custom preferences before writing workflow.yaml? [y/N] ");
    assert("Do you want to add custom preferences before writing workflow.yaml? [y/N] "@
        =~= "Do you want to add custom preferences before writing workflow.yaml?"@ + " [y/N] "@);
}

/// Preferences are asked for line by line, up to the first blank one, by a user who
/// wants any; the text is then made with those lines, or without preferences where
/// there are none.
pub proof fn law_preferences_are_collected(
    run: &RegenRun,
    analysis: AnalysisView,
    collected: Seq<Seq<char>>,
    answer: AnswerView,
)
    ensures
        ({
            let event = RegenEventView::Answered(answer);
            let asked = regen_resumed(run, RegenPhaseView::AskPreferences { analysis }, event);
            let entered = regen_resumed(
                run,
                RegenPhaseView::EnterPreferences { analysis, collected },
                event,
            );
            &&& match decision(answer, false) {
                Err(error) => gives_up(asked, error.message, error.cause),
                Ok(true) => asked == (
                    RegenPhaseView::EnterPreferences { analysis, collected: Seq::empty() },
                    RegenActionView::Ask {
                        lines: seq![
                            "Enter custom preferences. Submit an empty line to finish."@,
                        ],
                        prompt: "> "@,
                    },
                ),
                Ok(false) => makes_text(run, asked, analysis, None),
            }
            &&& match answered(answer) {
                Err(error) => gives_up(entered, error.message, error.cause),
                Ok(line) => {
                    &&& !blank(line) ==> entered == (
                        RegenPhaseView::EnterPreferences {
                            analysis,
                            collected: collected.push(line),
                        },
                        RegenActionView::Ask { lines: Seq::empty(), prompt: "> "@ },
                    )
                    &&& blank(line) && collected.len() == 0 ==> makes_text(
                        run,
                        entered,
                        analysis,
                        None,
                    )
                    &&& blank(line) && collected.len() > 0 ==> makes_text(
                        run,
                        entered,
                        analysis,
                        Some(joined(collected, "\n"@)),
                    )
                },
            }
        }),
{
}

/// A file that exists is overwritten only if the user says so; one that does not is
/// written. Its directory is made first, and every failure on the way ends the
/// generation, with the path and the reason.
pub proof fn law_file_is_put_down(
    run: &RegenRun,
    analysis: AnalysisView,
    yaml: Seq<char>,
    exists: bool,
    answer: AnswerView,
    failure: Option<Seq<char>>,
)
    ensures
        ({
            let path = run.workflow_path@;
            let checked = regen_resumed(
                run,
                RegenPhaseView::CheckTarget { analysis, yaml },
                RegenEventView::TargetChecked { exists },
            );
            let asked = regen_resumed(
                run,
                RegenPhaseView::AskOverwrite { analysis, yaml },
                RegenEventView::Answered(answer),
            );
            let made = regen_resumed(
                run,
                RegenPhaseView::CreateDirectory { analysis, yaml },
                RegenEventView::DirectoryCreated { failure },
            );
            let written = regen_resumed(
                run,
                RegenPhaseView::WriteFile { analysis },
                RegenEventView::FileWritten { failure },
            );
            &&& !exists ==> puts_down(run, checked, analysis, yaml)
            &&& exists ==> checked == (
                RegenPhaseView::AskOverwrite { analysis, yaml },
                RegenActionView::Ask {
                    lines: Seq::empty(),
                    prompt: "workflow file `"@ + path
                        + "` already exists. Overwrite it? [y/N] "@,
                },
            )
            &&& match decision(answer, false) {
                Err(error) => gives_up(asked, error.message, error.cause),
                Ok(true) => puts_down(run, asked, analysis, yaml),
                Ok(false) => gives_up(asked, "aborted without writing workflow file"@, None),
            }
            &&& match failure {
                None => {
                    &&& made == (
                        RegenPhaseView::WriteFile { analysis },
                        RegenActionView::WriteFile { path, contents: yaml },
                    )
                    &&& written.0 is Finished
                    &&& written.1 == RegenActionView::Finish(
                        Ok(
                            RegenReportView {
                                workflow_path: path,
                                project_root: analysis.root,
                                project_kind: kind_name(analysis.kind),
                                notes: analysis.notes,
                            },
                        ),
                    )
                },
                Some(reason) => {
                    &&& parent_of(path) matches Some(directory) ==> gives_up(
                        made,
                        "failed to create workflow directory `"@ + directory + "`"@,
                        Some(reason),
                    )
                    &&& gives_up(
                        written,
                        "failed to write workflow file `"@ + path + "`"@,
                        Some(reason),
                    )
                },
            }
        }),
{
    let path = run.workflow_path@;
    let message = "workflow file `"@ + path + "` already exists. Overwrite it?"@;
    law_questions(message);
    reveal_strlit("` already exists. Overwrite it?");
    reveal_strlit(" [y/N] ");
    reveal_strlit("` already exists. Overwrite it? [y/N] ");
    assert("` already exists. Overwrite it? [y/N] "@ =~= "` already exists. Overwrite it?"@
        + " [y/N] "@);
    assert(message + " [y/N] "@ =~= "workflow file `"@ + path
        + "` already exists. Overwrite it? [y/N] "@);
}

/// What the user is told in the end has the file, the kind and the place of the
/// project, and every note.
pub proof fn law_report_tells_everything(report: RegenReportView, i: int)
    ensures
        ({
            let lines = report_text(report);
            &&& lines.len() == 2 + report.notes.len()
            &&& lines[0] == "generated workflow `"@ + report.workflow_path
                + "` for detected project type `"@ + report.project_kind + "`"@
            &&& lines[1] == "project root: "@ + report.project_root
            &&& 0 <= i < report.notes.len() ==> lines[2 + i] == "note: "@ + report.notes[i]
        }),
{
}

/// The report is about the project that was found, and comes only after the file
/// was written.
pub proof fn law_report_is_about_the_project(
    run: &RegenRun,
    phase: RegenPhaseView,
    event: RegenEventView,
)
    requires
        regen_fits(phase, event),
    ensures
        regen_resumed(run, phase, event).1 matches RegenActionView::Finish(Ok(report)) ==> {
            &&& phase matches RegenPhaseView::WriteFile { analysis } && report.project_root
                == analysis.root && report.project_kind == kind_name(analysis.kind)
                && report.notes == analysis.notes
            &&& event == (RegenEventView::FileWritten { failure: None })
            &&& report.workflow_path == run.workflow_path@
        },
{
}

/// The lines that answers enter, up to the first that is blank.
pub open spec fn entered_lines(events: Seq<RegenEventView>) -> Seq<Seq<char>>
    decreases events.len(),
{
    if events.len() == 0 {
        Seq::empty()
    } else {
        match events[0] {
            RegenEventView::Answered(answer) => match answered(answer) {
                Ok(line) => if blank(line) {
                    Seq::empty()
                } else {
                    seq![line] + entered_lines(events.drop_first())
                },
                Err(_) => Seq::empty(),
            },
            _ => Seq::empty(),
        }
    }
}

/// The preferences that the user enters: the first event is about the project,
/// the second answers whether there are any.
pub open spec fn entered_preferences(events: Seq<RegenEventView>) -> Option<Seq<char>> {
    match events[1] {
        RegenEventView::Answered(answer) => if decision(answer, false) == Ok::<
            bool,
            RegenErrorView,
        >(true) {
            preferences_from(entered_lines(events.skip(2)))
        } else {
            None
        },
        _ => None,
    }
}

/// What is known of the project that the first event is about.
pub open spec fn project_found(run: &RegenRun, events: Seq<RegenEventView>) -> Result<
    AnalysisView,
    RegenErrorView,
> {
    match events[0] {
        RegenEventView::Inspected(probe) => analyzed(run.project_root@, &probe),
        _ => Err(refusal(Seq::empty())),
    }
}

/// The file that is written holds the workflow for the project that was found,
/// with the preferences that the user entered.
pub proof fn law_file_holds_the_workflow(
    run: &RegenRun,
    events: Seq<RegenEventView>,
    path: Seq<char>,
    contents: Seq<char>,
)
    requires
        regen_possible(run, events),
        regen_ran(run, events).1 == (RegenActionView::WriteFile { path, contents }),
    ensures
        path == run.workflow_path@,
        project_found(run, events) matches Ok(analysis) && contents == workflow_text(
            analysis,
            entered_preferences(events),
        ),
{
    lemma_faithful(run, events);
}

/// What a phase holds is what the events said.
spec fn faithful(
    run: &RegenRun,
    events: Seq<RegenEventView>,
    phase: RegenPhaseView,
    action: RegenActionView,
) -> bool {
    let found = project_found(run, events);
    let preferences = entered_preferences(events);
    &&& match phase {
        RegenPhaseView::Inspect => events.len() == 0,
        RegenPhaseView::AskPreferences { analysis } => {
            &&& events.len() == 1
            &&& found == Ok::<AnalysisView, RegenErrorView>(analysis)
        },
        RegenPhaseView::EnterPreferences { analysis, collected } => {
            &&& events.len() >= 2
            &&& found == Ok::<AnalysisView, RegenErrorView>(analysis)
            &&& events[1] matches RegenEventView::Answered(answer) && decision(answer, false)
                == Ok::<bool, RegenErrorView>(true)
            &&& entered_lines(events.skip(2)) == collected
            &&& collected.len() == events.len() - 2
        },
        RegenPhaseView::CheckTarget { analysis, yaml } => {
            &&& found == Ok::<AnalysisView, RegenErrorView>(analysis)
            &&& yaml == workflow_text(analysis, preferences)
        },
        RegenPhaseView::AskOverwrite { analysis, yaml } => {
            &&& found == Ok::<AnalysisView, RegenErrorView>(analysis)
            &&& yaml == workflow_text(analysis, preferences)
        },
        RegenPhaseView::CreateDirectory { analysis, yaml } => {
            &&& found == Ok::<AnalysisView, RegenErrorView>(analysis)
            &&& yaml == workflow_text(analysis, preferences)
        },
        RegenPhaseView::WriteFile { analysis } => {
            &&& found == Ok::<AnalysisView, RegenErrorView>(analysis)
            &&& action == (RegenActionView::WriteFile {
                path: run.workflow_path@,
                contents: workflow_text(analysis, preferences),
            })
        },
        RegenPhaseView::Finished => action is Finish,
    }
    &&& (phase is CheckTarget || phase is AskOverwrite || phase is CreateDirectory
        || phase is WriteFile) ==> {
        &&& events.len() >= 2
        &&& settled_preferences(events)
    }
}

/// No further event changes the preferences.
spec fn settled_preferences(events: Seq<RegenEventView>) -> bool {
    events[1] matches RegenEventView::Answered(answer) && (decision(answer, false) == Ok::<
        bool,
        RegenErrorView,
    >(true) ==> entered_lines(events.skip(2)).len() < events.len() - 2)
}

proof fn lemma_entered_lines(events: Seq<RegenEventView>, event: RegenEventView)
    ensures
        entered_lines(events).len() <= events.len(),
        entered_lines(events).len() < events.len() ==> entered_lines(events.push(event))
            == entered_lines(events),
        entered_lines(events).len() == events.len() ==> entered_lines(events.push(event)) == (
        match event {
            RegenEventView::Answered(answer) => match answered(answer) {
                Ok(line) => if blank(line) {
                    entered_lines(events)
                } else {
                    entered_lines(events).push(line)
                },
                Err(_) => entered_lines(events),
            },
            _ => entered_lines(events),
        }),
    decreases events.len(),
{
    let more = events.push(event);
    if events.len() == 0 {
        assert(more.drop_first() =~= Seq::empty());
        assert(entered_lines(more.drop_first()) =~= Seq::empty());
        if let RegenEventView::Answered(answer) = event {
            if let Ok(line) = answered(answer) {
                assert(seq![line] + Seq::<Seq<char>>::empty() =~= Seq::<Seq<char>>::empty().push(
                    line,
                ));
            }
        }
    } else {
        let rest = events.drop_first();
        lemma_entered_lines(rest, event);
        assert(more.drop_first() =~= rest.push(event));
        if let RegenEventView::Answered(answer) = events[0] {
            if let Ok(line) = answered(answer) {
                if !blank(line) {
                    if let RegenEventView::Answered(last) = event {
                        if let Ok(added) = answered(last) {
                            assert(seq![line] + entered_lines(rest).push(added) =~= (seq![line]
                                + entered_lines(rest)).push(added));
                        }
                    }
                }
            }
        }
    }
}

proof fn lemma_faithful_step(
    run: &RegenRun,
    before: Seq<RegenEventView>,
    event: RegenEventView,
    phase: RegenPhaseView,
    action: RegenActionView,
)
    requires
        faithful(run, before, phase, action),
        regen_fits(phase, event),
    ensures
        ({
            let (next, wanted) = regen_resumed(run, phase, event);
            faithful(run, before.push(event), next, wanted)
        }),
{
    let events = before.push(event);
    if before.len() >= 2 {
        assert(events.skip(2) =~= before.skip(2).push(event));
        lemma_entered_lines(before.skip(2), event);
    } else if before.len() == 1 {
        assert(events.skip(2) =~= Seq::empty());
    }
    match phase {
        RegenPhaseView::Inspect => {},
        RegenPhaseView::AskPreferences { .. } => {},
        RegenPhaseView::EnterPreferences { .. } => {},
        RegenPhaseView::CheckTarget { .. } => {},
        RegenPhaseView::AskOverwrite { .. } => {},
        RegenPhaseView::CreateDirectory { .. } => {},
        RegenPhaseView::WriteFile { .. } => {},
        RegenPhaseView::Finished => {},
    }
}

proof fn lemma_faithful(run: &RegenRun, events: Seq<RegenEventView>)
    requires
        regen_possible(run, events),
    ensures
        faithful(run, events, regen_ran(run, events).0, regen_ran(run, events).1),
    decreases events.len(),
{
    if events.len() > 0 {
        let before = events.drop_last();
        let (phase, action) = regen_ran(run, before);
        lemma_faithful(run, before);
        assert(before.push(events.last()) =~= events);
        lemma_faithful_step(run, before, events.last(), phase, action);
    }
}

// ---------------------------------------------------------------------------
// Operations
// ---------------------------------------------------------------------------

/// A failure that nothing else caused.
fn refuse(message: &str) -> (r: RegenError)
    ensures
        r@ == refusal(message@),
{
    RegenError { message: message.to_owned(), cause: None }
}

/// `path` as an absolute path.
pub fn absolutize(path: &str, current_dir: &Result<String, String>) -> (r: Result<
    String,
    RegenError,
>)
    ensures
        regen_outcome(r) == absolutized(path@, text_result(*current_dir)),
{
    if absolute(path) {
        return Ok(path.to_owned());
    }
    match current_dir {
        Ok(base) => Ok(join_path(base.as_str(), path)),
        Err(reason) => Err(refuse(reason.as_str())),
    }
}

/// A question with its possible answers, the usual one in capitals.
fn ask(message: &str, usual: bool) -> (r: String)
    ensures
        r@ == question(message@, usual),
{
    let suffix = if usual {
        "[Y/n]"
    } else {
        "[y/N]"
    };
    message.to_owned().concat(" ").concat(suffix).concat(" ")
}

/// What a line means as the answer to a question.
pub fn parse_yes_no(line: &str, usual: bool) -> (r: Result<bool, RegenError>)
    ensures
        match r {
            Ok(answer) => decided(line@, usual) == Ok::<bool, RegenErrorView>(answer),
            Err(error) => decided(line@, usual) == Err::<bool, RegenErrorView>(error@),
        },
{
    let word = to_ascii_lower(trim(line).as_str());
    proof {
        reveal_strlit("");
        if word@.len() == 0 {
            assert(word@ =~= ""@);
        }
    }
    if same(word.as_str(), "") {
        Ok(usual)
    } else if same(word.as_str(), "y") || same(word.as_str(), "yes") {
        Ok(true)
    } else if same(word.as_str(), "n") || same(word.as_str(), "no") {
        Ok(false)
    } else {
        Err(refuse("expected yes or no"))
    }
}

/// The line that was answered, without its ending.
fn line_of(answer: Answer) -> (r: Result<String, RegenError>)
    ensures
        regen_outcome(r) == answered(answer@),
{
    match answer {
        Answer::Line(line) => Ok(trim_line_end(line.as_str())),
        Answer::NotShown(reason) => Err(
            RegenError { message: "failed to flush stdout".to_owned(), cause: Some(reason) },
        ),
        Answer::NotRead(reason) => Err(
            RegenError { message: "failed to read user input".to_owned(), cause: Some(reason) },
        ),
    }
}

/// The answer to a question.
fn decide(answer: Answer, usual: bool) -> (r: Result<bool, RegenError>)
    ensures
        match r {
            Ok(yes) => decision(answer@, usual) == Ok::<bool, RegenErrorView>(yes),
            Err(error) => decision(answer@, usual) == Err::<bool, RegenErrorView>(error@),
        },
{
    match line_of(answer) {
        Ok(line) => parse_yes_no(line.as_str(), usual),
        Err(error) => Err(error),
    }
}

/// Adds the notes to the lines, each with a word before it.
fn push_notes(lines: &mut Vec<String>, word: &str, notes: &Vec<String>)
    ensures
        texts(final(lines)@) == texts(old(lines)@) + noted(word@, texts(notes@)),
{
    let ghost all = noted(word@, texts(notes@));
    let mut at: usize = 0;
    assert(texts(lines@) =~= texts(old(lines)@) + all.take(0));
    while at < notes.len()
        invariant
            at <= notes@.len(),
            all == noted(word@, texts(notes@)),
            texts(lines@) == texts(old(lines)@) + all.take(at as int),
        decreases notes@.len() - at,
    {
        let ghost before = lines@;
        lines.push(word.to_owned().concat(notes[at].as_str()));
        assert(texts(lines@) =~= texts(before).push(all[at as int]));
        assert(all.take(at + 1) =~= all.take(at as int).push(all[at as int]));
        at = at + 1;
        assert(texts(lines@) =~= texts(old(lines)@) + all.take(at as int));
    }
    assert(all.take(at as int) =~= all);
}

/// What the user is told of a project.
pub fn analysis_lines(analysis: &ProjectAnalysis, workflow_path: &str) -> (r: Vec<String>)
    ensures
        texts(r@) == analysis_text(analysis@, workflow_path@),
{
    let mut lines: Vec<String> = Vec::new();
    lines.push("analyzing project: ".to_owned().concat(analysis.root.as_str()));
    lines.push("detected project type: ".to_owned().concat(analysis.kind.as_str()));
    lines.push("workflow target: ".to_owned().concat(workflow_path));
    assert(texts(lines@) =~= seq![
        "analyzing project: "@ + analysis.root@,
        "detected project type: "@ + kind_name(analysis.kind),
        "workflow target: "@ + workflow_path@,
    ]);
    push_notes(&mut lines, "signal: ", &analysis.notes);
    lines
}

/// What the user is told of the generated workflow.
pub fn regen_report_lines(report: &RegenReport) -> (r: Vec<String>)
    ensures
        texts(r@) == report_text(report@),
{
    let mut lines: Vec<String> = Vec::new();
    lines.push(
        "generated workflow `".to_owned().concat(report.workflow_path.as_str()).concat(
            "` for detected project type `",
        ).concat(report.project_kind).concat("`"),
    );
    lines.push("project root: ".to_owned().concat(report.project_root.as_str()));
    assert(texts(lines@) =~= seq![
        "generated workflow `"@ + report.workflow_path@ + "` for detected project type `"@
            + report.project_kind@ + "`"@,
        "project root: "@ + report.project_root@,
    ]);
    push_notes(&mut lines, "note: ", &report.notes);
    lines
}

impl RegenCommand {
    /// The request with its paths made absolute.
    pub fn run(self, current_dir: &Result<String, String>) -> (r: Result<RegenRun, RegenError>)
        ensures
            match (
                absolutized(self.workflow_path@, text_result(*current_dir)),
                root_for(optional(self.project_dir), text_result(*current_dir)),
            ) {
                (Ok(workflow_path), Ok(project_root)) => r matches Ok(run)
                    && run.workflow_path@ == workflow_path && run.project_root@ == project_root
                    && run.force == self.force,
                (Err(reason), _) => r matches Err(error) && error@ == reason,
                (Ok(_), Err(reason)) => r matches Err(error) && error@ == reason,
            },
    {
        let workflow_path = match absolutize(self.workflow_path.as_str(), current_dir) {
            Ok(path) => path,
            Err(error) => return Err(error),
        };
        let project_root = match &self.project_dir {
            Some(path) => match absolutize(path.as_str(), current_dir) {
                Ok(path) => path,
                Err(error) => return Err(error),
            },
            None => match current_dir {
                Ok(base) => base.clone(),
                Err(reason) => return Err(refuse(reason.as_str())),
            },
        };
        Ok(RegenRun { workflow_path, project_root, force: self.force })
    }
}

fn end(result: Result<RegenReport, RegenError>) -> (r: (RegenPhase, RegenAction))
    ensures
        regen_progress(r) == regen_finished(regen_outcome(result)),
{
    (RegenPhase::Finished, RegenAction::Finish(result))
}

fn collect(analysis: ProjectAnalysis, collected: Vec<String>, lines: Vec<String>) -> (r: (
    RegenPhase,
    RegenAction,
))
    ensures
        regen_progress(r) == collecting(analysis@, texts(collected@), texts(lines@)),
{
    (
        RegenPhase::EnterPreferences { analysis, collected },
        RegenAction::Ask { lines, prompt: "> ".to_owned() },
    )
}

impl RegenRun {
    /// Begins the generation.
    pub fn start(&self) -> (r: (RegenPhase, RegenAction))
        ensures
            regen_progress(r) == (
                RegenPhaseView::Inspect,
                RegenActionView::Inspect { root: self.project_root@ },
            ),
    {
        (RegenPhase::Inspect, RegenAction::Inspect { root: self.project_root.clone() })
    }

    /// Goes on with the generation, given what came of the last action.
    pub fn resume(&self, phase: RegenPhase, event: RegenEvent) -> (r: (RegenPhase, RegenAction))
        requires
            regen_fits(phase@, event@),
        ensures
            regen_progress(r) == regen_resumed(self, phase@, event@),
    {
        let none: Vec<String> = Vec::new();
        assert(texts(none@) =~= Seq::empty());
        match (phase, event) {
            (RegenPhase::Inspect, RegenEvent::Inspected(probe)) => {
                match analyze_project(self.project_root.as_str(), &probe) {
                    Err(error) => end(Err(error)),
                    Ok(analysis) => {
                        let lines = analysis_lines(&analysis, self.workflow_path.as_str());
                        let prompt = ask(
                            "Do you want to add custom preferences before writing workflow.yaml?",
                            false,
                        );
                        (RegenPhase::AskPreferences { analysis }, RegenAction::Ask { lines, prompt })
                    },
                }
            },
            (RegenPhase::AskPreferences { analysis }, RegenEvent::Answered(answer)) => {
                match decide(answer, false) {
                    Err(error) => end(Err(error)),
                    Ok(wanted) => {
                        if !wanted {
                            self.prepare(analysis, None)
                        } else {
                            let mut lines: Vec<String> = Vec::new();
                            lines.push(
                                "Enter custom preferences. Submit an empty line to finish.".to_owned(),
                            );
                            assert(texts(lines@) =~= seq![
                                "Enter custom preferences. Submit an empty line to finish."@,
                            ]);
                            collect(analysis, none, lines)
                        }
                    },
                }
            },
            (
                RegenPhase::EnterPreferences { analysis, collected },
                RegenEvent::Answered(answer),
            ) => {
                match line_of(answer) {
                    Err(error) => end(Err(error)),
                    Ok(line) => {
                        if is_blank(line.as_str()) {
                            let preferences = if collected.len() == 0 {
                                None
                            } else {
                                Some(join(&collected, "\n"))
                            };
                            self.prepare(analysis, preferences)
                        } else {
                            let mut collected = collected;
                            let ghost before = collected@;
                            collected.push(line);
                            assert(texts(collected@) =~= texts(before).push(line@));
                            collect(analysis, collected, none)
                        }
                    },
                }
            },
            (
                RegenPhase::CheckTarget { analysis, yaml },
                RegenEvent::TargetChecked { exists },
            ) => {
                if exists {
                    let message = "workflow file `".to_owned().concat(
                        self.workflow_path.as_str(),
                    ).concat("` already exists. Overwrite it?");
                    (
                        RegenPhase::AskOverwrite { analysis, yaml },
                        RegenAction::Ask { lines: none, prompt: ask(message.as_str(), false) },
                    )
                } else {
                    self.place(analysis, yaml)
                }
            },
            (RegenPhase::AskOverwrite { analysis, yaml }, RegenEvent::Answered(answer)) => {
                match decide(answer, false) {
                    Err(error) => end(Err(error)),
                    Ok(overwrite) => {
                        if overwrite {
                            self.place(analysis, yaml)
                        } else {
                            end(Err(refuse("aborted without writing workflow file")))
                        }
                    },
                }
            },
            (
                RegenPhase::CreateDirectory { analysis, yaml },
                RegenEvent::DirectoryCreated { failure },
            ) => match failure {
                None => self.store(analysis, yaml),
                Some(reason) => {
                    let parent = match parent_directory(self.workflow_path.as_str()) {
                        Some(path) => path,
                        None => String::new(),
                    };
                    end(
                        Err(
                            RegenError {
                                message: "failed to create workflow directory `".to_owned().concat(
                                    parent.as_str(),
                                ).concat("`"),
                                cause: Some(reason),
                            },
                        ),
                    )
                },
            },
            (RegenPhase::WriteFile { analysis }, RegenEvent::FileWritten { failure }) => {
                match failure {
                    None => end(
                        Ok(
                            RegenReport {
                                workflow_path: self.workflow_path.clone(),
                                project_root: analysis.root,
                                project_kind: analysis.kind.as_str(),
                                notes: analysis.notes,
                            },
                        ),
                    ),
                    Some(reason) => end(
                        Err(
                            RegenError {
                                message: "failed to write workflow file `".to_owned().concat(
                                    self.workflow_path.as_str(),
                                ).concat("`"),
                                cause: Some(reason),
                            },
                        ),
                    ),
                }
            },
            _ => vstd::pervasive::unreached(),
        }
    }

    fn prepare(&self, analysis: ProjectAnalysis, preferences: Option<String>) -> (r: (
        RegenPhase,
        RegenAction,
    ))
        ensures
            regen_progress(r) == prepared(self, analysis@, optional(preferences)),
    {
        let yaml = render_workflow_yaml(&analysis, &preferences);
        if self.force {
            self.place(analysis, yaml)
        } else {
            (
                RegenPhase::CheckTarget { analysis, yaml },
                RegenAction::CheckTarget { path: self.workflow_path.clone() },
            )
        }
    }

    fn place(&self, analysis: ProjectAnalysis, yaml: String) -> (r: (RegenPhase, RegenAction))
        ensures
            regen_progress(r) == placing(self, analysis@, yaml@),
    {
        match parent_directory(self.workflow_path.as_str()) {
            Some(path) => (
                RegenPhase::CreateDirectory { analysis, yaml },
                RegenAction::CreateDirectory { path },
            ),
            None => self.store(analysis, yaml),
        }
    }

    fn store(&self, analysis: ProjectAnalysis, yaml: String) -> (r: (RegenPhase, RegenAction))
        ensures
            regen_progress(r) == storing(self, analysis@, yaml@),
    {
        (
            RegenPhase::WriteFile { analysis },
            RegenAction::WriteFile { path: self.workflow_path.clone(), contents: yaml },
        )
    }
}

} // verus!
