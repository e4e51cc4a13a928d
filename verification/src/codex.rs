//! The companion that stands in for `codex`: it generates workflows itself and
//! forwards everything else.

use vstd::prelude::*;
use vstd::string::*;

use crate::paths::{join_path, path_from, paths_equal, same_path};
use crate::text::{copy_texts, optional, same, texts};

verus! {

/// What a command line of the companion comes down to.
#[derive(Debug)]
pub enum CodexTask {
    /// Generate a workflow, with the remaining arguments.
    Regen(Vec<String>),
    /// Hand everything on.
    Forward,
}

/// A file that may be the command that is stood in for.
#[derive(Debug)]
pub struct Candidate {
    pub path: String,
    pub is_file: bool,
}

/// What came of running a command whose output is not looked at.
#[derive(Debug)]
pub enum Forwarded {
    /// It could not be started.
    NotStarted(String),
    /// It ended, well or not, in the way that `status` says.
    Exited { success: bool, status: String },
}

// ---------------------------------------------------------------------------
// Meaning
// ---------------------------------------------------------------------------

/// Whether the arguments ask for a workflow to be generated.
pub open spec fn asks_for_regen(args: Seq<Seq<char>>) -> bool {
    args.len() > 0 && (args[0] == "regen"@ || args[0] == ";;regen"@)
}

/// Whether a candidate is the command: it is a file, and it is not the program
/// that is running.
pub open spec fn eligible(candidate: Candidate, current: Option<Seq<char>>) -> bool {
    candidate.is_file && !(current matches Some(path) && same_path(path, candidate.path@))
}

/// The position of the first eligible candidate.
pub open spec fn first_eligible(
    candidates: Seq<Candidate>,
    current: Option<Seq<char>>,
) -> Option<int>
    decreases candidates.len(),
{
    if candidates.len() == 0 {
        None
    } else if eligible(candidates[0], current) {
        Some(0)
    } else {
        match first_eligible(candidates.drop_first(), current) {
            Some(i) => Some(i + 1),
            None => None,
        }
    }
}

/// What the user is told where there is no eligible candidate.
pub open spec fn not_found() -> Seq<char> {
    "no `codex` binary found in PATH\nInstall the Codex CLI (https://github.com/openai/codex) to forward non-regen commands."@
}

/// The command in each directory.
pub open spec fn commands_in(directories: Seq<Seq<char>>) -> Seq<Seq<char>> {
    directories.map_values(|directory: Seq<char>| path_from(directory, "codex"@))
}

// ---------------------------------------------------------------------------
// Laws
// ---------------------------------------------------------------------------

proof fn lemma_first_eligible(candidates: Seq<Candidate>, current: Option<Seq<char>>)
    ensures
        match first_eligible(candidates, current) {
            Some(i) => 0 <= i < candidates.len() && eligible(candidates[i], current) && forall|
                j: int,
            |
                0 <= j < i ==> !eligible(#[trigger] candidates[j], current),
            None => forall|j: int|
                0 <= j < candidates.len() ==> !eligible(#[trigger] candidates[j], current),
        },
    decreases candidates.len(),
{
    if candidates.len() > 0 && !eligible(candidates[0], current) {
        let rest = candidates.drop_first();
        lemma_first_eligible(rest, current);
        assert forall|j: int|
            0 < j < candidates.len() && !eligible(rest[j - 1], current) implies !eligible(
            #[trigger] candidates[j],
            current,
        ) by {
            assert(candidates[j] == rest[j - 1]);
        }
    }
}

/// The companion never forwards to itself, and it forwards to the first command
/// that is not itself.
pub proof fn law_companion_does_not_call_itself(
    candidates: Seq<Candidate>,
    current: Seq<char>,
    i: int,
)
    requires
        first_eligible(candidates, Some(current)) == Some(i),
    ensures
        0 <= i < candidates.len(),
        candidates[i].is_file,
        !same_path(current, candidates[i].path@),
        forall|j: int|
            0 <= j < i ==> !(#[trigger] candidates[j]).is_file || same_path(
                current,
                candidates[j].path@,
            ),
{
    lemma_first_eligible(candidates, Some(current));
    assert forall|j: int| 0 <= j < i implies !(#[trigger] candidates[j]).is_file || same_path(
        current,
        candidates[j].path@,
    ) by {
        assert(!eligible(candidates[j], Some(current)));
    }
}

/// The companion generates a workflow where its first argument says so, in either
/// of two words, and hands on every other command line.
pub proof fn law_when_a_workflow_is_generated(args: Seq<Seq<char>>)
    ensures
        args.len() == 0 ==> !asks_for_regen(args),
        args.len() > 0 ==> (asks_for_regen(args) <==> args[0] == "regen"@ || args[0]
            == ";;regen"@),
{
}

/// The first file among the candidates is the command, unless it is the program that
/// is running; there is none only where every candidate is no file or that program.
pub proof fn law_first_command_is_taken(
    candidates: Seq<Candidate>,
    current: Option<Seq<char>>,
    i: int,
)
    requires
        0 <= i < candidates.len(),
        candidates[i].is_file,
        current matches Some(path) ==> !same_path(path, candidates[i].path@),
    ensures
        first_eligible(candidates, current) matches Some(j) && 0 <= j <= i,
        current is None ==> candidates[first_eligible(candidates, current)->0].is_file,
        (forall|k: int| 0 <= k < i ==> !(#[trigger] candidates[k]).is_file) ==> first_eligible(
            candidates,
            current,
        ) == Some(i),
{
    lemma_first_eligible(candidates, current);
    assert(eligible(candidates[i], current));
    if forall|k: int| 0 <= k < i ==> !(#[trigger] candidates[k]).is_file {
        let j = first_eligible(candidates, current)->0;
        if j < i {
            assert(!candidates[j].is_file);
        }
    }
}

/// There is no command where no candidate is a file other than the program that is
/// running.
pub proof fn law_no_command_is_made_up(candidates: Seq<Candidate>, current: Option<Seq<char>>)
    requires
        forall|k: int|
            0 <= k < candidates.len() ==> !(#[trigger] candidates[k]).is_file || (
            current matches Some(path) && same_path(path, candidates[k].path@)),
    ensures
        first_eligible(candidates, current) is None,
{
    lemma_first_eligible(candidates, current);
    if let Some(j) = first_eligible(candidates, current) {
        assert(!candidates[j].is_file || (current matches Some(path) && same_path(
            path,
            candidates[j].path@,
        )));
    }
}

/// The command is looked for in every directory, in order, under its name.
pub proof fn law_every_directory_is_searched(directories: Seq<Seq<char>>, i: int)
    ensures
        commands_in(directories).len() == directories.len(),
        0 <= i < directories.len() ==> commands_in(directories)[i] == path_from(
            directories[i],
            "codex"@,
        ),
{
}

// ---------------------------------------------------------------------------
// Operations
// ---------------------------------------------------------------------------

/// What a command line of the companion comes down to.
pub fn codex_task(args: &Vec<String>) -> (r: CodexTask)
    ensures
        match r {
            CodexTask::Regen(rest) => asks_for_regen(texts(args@)) && texts(rest@) == texts(
                args@,
            ).skip(1),
            CodexTask::Forward => !asks_for_regen(texts(args@)),
        },
{
    if args.len() > 0 && (same(args[0].as_str(), "regen") || same(args[0].as_str(), ";;regen")) {
        let mut rest = copy_texts(args);
        assert(texts(rest@).len() == texts(args@).len());
        let ghost all = rest@;
        let dropped = rest.remove(0);
        assert(texts(rest@) =~= texts(all).skip(1));
        return CodexTask::Regen(rest);
    }
    CodexTask::Forward
}

/// The command in each directory, in order.
pub fn candidate_paths(directories: &Vec<String>) -> (r: Vec<String>)
    ensures
        texts(r@) == commands_in(texts(directories@)),
{
    let ghost all = commands_in(texts(directories@));
    let mut r: Vec<String> = Vec::new();
    let mut at: usize = 0;
    while at < directories.len()
        invariant
            at <= directories@.len(),
            all == commands_in(texts(directories@)),
            texts(r@) == all.take(at as int),
        decreases directories@.len() - at,
    {
        let ghost before = r@;
        r.push(join_path(directories[at].as_str(), "codex"));
        assert(texts(r@) =~= texts(before).push(all[at as int]));
        at = at + 1;
        assert(texts(r@) =~= all.take(at as int));
    }
    assert(all.take(at as int) =~= all);
    r
}

/// The path of the command, given the candidates for it and the program that is
/// running.
pub fn find_real_codex(candidates: &Vec<Candidate>, current: &Option<String>) -> (r: Result<
    String,
    String,
>)
    ensures
        match first_eligible(candidates@, optional(*current)) {
            Some(i) => r matches Ok(path) && path@ == candidates@[i].path@,
            None => r matches Err(message) && message@ == not_found(),
        },
{
    let mut at: usize = 0;
    assert(candidates@.skip(0) =~= candidates@);
    while at < candidates.len()
        invariant
            at <= candidates@.len(),
            first_eligible(candidates@, optional(*current)) == match first_eligible(
                candidates@.skip(at as int),
                optional(*current),
            ) {
                Some(i) => Some(i + at),
                None => None,
            },
        decreases candidates@.len() - at,
    {
        let candidate = &candidates[at];
        let own = match current {
            Some(path) => paths_equal(path.as_str(), candidate.path.as_str()),
            None => false,
        };
        assert(candidates@.skip(at as int)[0] == *candidate);
        if candidate.is_file && !own {
            return Ok(candidate.path.clone());
        }
        assert(candidates@.skip(at as int).drop_first() =~= candidates@.skip(at + 1));
        at = at + 1;
    }
    Err(
        "no `codex` binary found in PATH\nInstall the Codex CLI (https://github.com/openai/codex) to forward non-regen commands.".to_owned(),
    )
}

/// What the end of a forwarded command means.
pub fn check_forwarded(path: &str, forwarded: &Forwarded) -> (r: Result<(), String>)
    ensures
        match *forwarded {
            Forwarded::NotStarted(reason) => r matches Err(message) && message@
                == "failed to run `"@ + path@ + "`: "@ + reason@,
            Forwarded::Exited { success: true, .. } => r is Ok,
            Forwarded::Exited { success: false, status } => r matches Err(message) && message@
                == "codex exited with "@ + status@,
        },
{
    match forwarded {
        Forwarded::NotStarted(reason) => Err(
            "failed to run `".to_owned().concat(path).concat("`: ").concat(reason.as_str()),
        ),
        Forwarded::Exited { success, status } => {
            if *success {
                Ok(())
            } else {
                Err("codex exited with ".to_owned().concat(status.as_str()))
            }
        },
    }
}

} // verus!
