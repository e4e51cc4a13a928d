//! What kind of project a directory holds, and how it is checked.

use vstd::prelude::*;
use vstd::string::*;

use crate::paths::{file_name, join_path, name_of, path_from};
use crate::text::{
    characters, contains, find, first_position, holds, law_trimmed_text_is_not_changed,
    lemma_first_position, lemma_first_position_unique, lines, lines_of, occurs_at, optional, same,
    starts_with, text_between, texts, trim, trim_quotes, trimmed, Trimmed,
};

verus! {

/// A failure to generate a workflow.
#[derive(Debug)]
pub struct RegenError {
    /// What is shown to the user.
    pub message: String,
    /// What caused the failure, where something else did.
    pub cause: Option<String>,
}

/// A [`RegenError`] with its texts as sequences of characters.
pub ghost struct RegenErrorView {
    pub message: Seq<char>,
    pub cause: Option<Seq<char>>,
}

impl View for RegenError {
    type V = RegenErrorView;

    open spec fn view(&self) -> RegenErrorView {
        RegenErrorView { message: self.message@, cause: optional(self.cause) }
    }
}

/// A result with its texts as sequences of characters.
pub open spec fn regen_outcome<T: View>(r: Result<T, RegenError>) -> Result<T::V, RegenErrorView> {
    match r {
        Ok(value) => Ok(value@),
        Err(error) => Err(error@),
    }
}

/// What is found of a file that describes a project.
#[derive(Debug)]
pub enum Manifest {
    /// There is none.
    Missing,
    /// It could not be read.
    Unreadable(String),
    /// It holds this text.
    Contents(String),
}

/// A [`Manifest`] with its texts as sequences of characters.
pub ghost enum ManifestView {
    Missing,
    Unreadable(Seq<char>),
    Contents(Seq<char>),
}

impl View for Manifest {
    type V = ManifestView;

    open spec fn view(&self) -> ManifestView {
        match self {
            Manifest::Missing => ManifestView::Missing,
            Manifest::Unreadable(reason) => ManifestView::Unreadable(reason@),
            Manifest::Contents(text) => ManifestView::Contents(text@),
        }
    }
}

/// What is found in the directory of a project.
#[derive(Debug)]
pub struct ProjectProbe {
    /// The directory exists.
    pub is_directory: bool,
    /// `Cargo.toml`.
    pub cargo_toml: Manifest,
    /// `package.json`.
    pub package_json: Manifest,
    /// `pyproject.toml` exists.
    pub pyproject_toml: bool,
    /// `src/main.rs` exists.
    pub main_rs: bool,
    /// `src/lib.rs` exists.
    pub lib_rs: bool,
    /// `.git` exists.
    pub git: bool,
    /// `clippy.toml` exists.
    pub clippy_toml: bool,
    /// `ruff.toml` exists.
    pub ruff_toml: bool,
    /// `.ruff.toml` exists.
    pub dot_ruff_toml: bool,
}

/// The kinds of projects that are told apart.
#[derive(Debug, Clone, Copy, PartialEq, Eq, Structural)]
pub enum ProjectKind {
    RustCli,
    RustLibrary,
    NodeApp,
    PythonApp,
    Generic,
}

/// What is known of a project.
#[derive(Debug)]
pub struct ProjectAnalysis {
    /// The directory of the project.
    pub root: String,
    pub name: String,
    pub kind: ProjectKind,
    /// What gave the kind away.
    pub notes: Vec<String>,
    /// Shell commands that check the project.
    pub validation_commands: Vec<String>,
}

/// A [`ProjectAnalysis`] with its texts as sequences of characters.
#[verifier::ext_equal]
pub ghost struct AnalysisView {
    pub root: Seq<char>,
    pub name: Seq<char>,
    pub kind: ProjectKind,
    pub notes: Seq<Seq<char>>,
    pub validation_commands: Seq<Seq<char>>,
}

impl View for ProjectAnalysis {
    type V = AnalysisView;

    open spec fn view(&self) -> AnalysisView {
        AnalysisView {
            root: self.root@,
            name: self.name@,
            kind: self.kind,
            notes: texts(self.notes@),
            validation_commands: texts(self.validation_commands@),
        }
    }
}

// ---------------------------------------------------------------------------
// Meaning
// ---------------------------------------------------------------------------

/// What a kind is called.
pub open spec fn kind_name(kind: ProjectKind) -> Seq<char> {
    match kind {
        ProjectKind::RustCli => "rust-cli"@,
        ProjectKind::RustLibrary => "rust-library"@,
        ProjectKind::NodeApp => "node-app"@,
        ProjectKind::PythonApp => "python-app"@,
        ProjectKind::Generic => "generic"@,
    }
}

/// The name of a project that does not say its own: that of its directory.
pub open spec fn directory_name(root: Seq<char>) -> Seq<char> {
    match name_of(root) {
        Some(name) => name,
        None => "project"@,
    }
}

/// What an assignment in a manifest assigns to: the text before the first `=`.
pub open spec fn assigned_key(line: Seq<char>) -> Seq<char> {
    trimmed(line.take(first_position(line, '=')), Trimmed::WhiteSpace)
}

/// How many quotes a text begins with.
pub open spec fn leading_quotes(text: Seq<char>) -> int
    decreases text.len(),
{
    if text.len() > 0 && text[0] == '"' {
        1 + leading_quotes(text.drop_first())
    } else {
        0
    }
}

/// Whether a quote stands at a position that no backslash precedes.
pub open spec fn quote_at(text: Seq<char>, i: int) -> bool {
    text[i] == '"' && (i == 0 || text[i - 1] != '\\')
}

/// The position of the first quote from `i` on that no backslash precedes, or
/// the length of the text where there is none.
pub open spec fn closing_quote(text: Seq<char>, i: int) -> int
    decreases text.len() - i,
{
    if i >= text.len() || quote_at(text, i) {
        i
    } else {
        closing_quote(text, i + 1)
    }
}

/// A value without its quotes: where it begins with quotes, the text behind
/// them up to the next one that no backslash precedes, if there is one.
pub open spec fn unquoted(value: Seq<char>) -> Seq<char> {
    let body = value.skip(leading_quotes(value));
    let end = closing_quote(body, 0);
    if leading_quotes(value) > 0 && end < body.len() {
        body.take(end)
    } else {
        trimmed(value, Trimmed::Quote)
    }
}

/// What an assignment in a manifest assigns, without quotes.
pub open spec fn assigned(line: Seq<char>) -> Option<Seq<char>> {
    let at = first_position(line, '=');
    if at < line.len() {
        Some(unquoted(trimmed(line.skip(at + 1), Trimmed::WhiteSpace)))
    } else {
        None
    }
}

/// The name that the lines of a manifest give to the package, if they start
/// inside or outside its section.
pub open spec fn name_in(lines: Seq<Seq<char>>, in_package: bool) -> Option<Seq<char>>
    decreases lines.len(),
{
    if lines.len() == 0 {
        None
    } else {
        let line = trimmed(lines[0], Trimmed::WhiteSpace);
        if occurs_at(line, "["@, 0) {
            name_in(lines.drop_first(), line == "[package]"@)
        } else if in_package && assigned_key(line) == "name"@ {
            assigned(line)
        } else {
            name_in(lines.drop_first(), in_package)
        }
    }
}

/// The name that a manifest gives to the package.
pub open spec fn package_name(manifest: Seq<char>) -> Option<Seq<char>> {
    name_in(lines_of(manifest), false)
}

/// The texts for which a condition holds.
pub open spec fn included(condition: bool, text: Seq<char>) -> Seq<Seq<char>> {
    if condition {
        seq![text]
    } else {
        Seq::empty()
    }
}

/// How a Rust project is checked.
pub open spec fn rust_commands(manifest: Seq<char>, clippy_toml: bool) -> Seq<Seq<char>> {
    seq!["cargo fmt"@] + included(
        contains(manifest, "clippy"@) || clippy_toml,
        "cargo clippy --all-targets --all-features -- -D warnings"@,
    ) + seq![
        if contains(manifest, "[workspace]"@) {
            "cargo test --workspace"@
        } else {
            "cargo test"@
        },
    ]
}

/// How a Node project is checked.
pub open spec fn node_commands(package_json: Seq<char>) -> Seq<Seq<char>> {
    let found = included(contains(package_json, "\"lint\""@), "npm run lint"@) + included(
        contains(package_json, "\"test\""@),
        "npm test"@,
    ) + included(contains(package_json, "\"build\""@), "npm run build"@);
    if found.len() == 0 {
        seq!["npm test"@]
    } else {
        found
    }
}

/// How a Python project is checked.
pub open spec fn python_commands(ruff: bool) -> Seq<Seq<char>> {
    included(ruff, "ruff check ."@) + seq!["pytest"@]
}

/// The failure to read a file.
pub open spec fn unreadable(path: Seq<char>, reason: Seq<char>) -> RegenErrorView {
    RegenErrorView { message: "failed to read `"@ + path + "`"@, cause: Some(reason) }
}

/// The notes on a project.
pub open spec fn notes_of(signal: Seq<char>, git: bool) -> Seq<Seq<char>> {
    seq![signal] + included(git, "git repository detected"@)
}

/// The kind of a Rust project, and what gives it away.
pub open spec fn rust_kind(main_rs: bool, lib_rs: bool) -> (ProjectKind, Seq<char>) {
    if main_rs {
        (ProjectKind::RustCli, "detected Rust crate with binary entrypoint"@)
    } else if lib_rs {
        (ProjectKind::RustLibrary, "detected Rust crate with library entrypoint"@)
    } else {
        (
            ProjectKind::RustLibrary,
            "detected Cargo manifest without standard src entrypoint"@,
        )
    }
}

/// What is known of the project in the directory `root`. A Rust manifest counts
/// before one of Node, and that before one of Python.
pub open spec fn analyzed(root: Seq<char>, probe: &ProjectProbe) -> Result<
    AnalysisView,
    RegenErrorView,
> {
    if !probe.is_directory {
        Err(
            RegenErrorView {
                message: "project directory `"@ + root + "` does not exist"@,
                cause: None,
            },
        )
    } else {
        match (probe.cargo_toml@, probe.package_json@) {
            (ManifestView::Unreadable(reason), _) => Err(
                unreadable(path_from(root, "Cargo.toml"@), reason),
            ),
            (ManifestView::Contents(manifest), _) => Ok(
                AnalysisView {
                    root,
                    name: match package_name(manifest) {
                        Some(name) => name,
                        None => directory_name(root),
                    },
                    kind: rust_kind(probe.main_rs, probe.lib_rs).0,
                    notes: notes_of(rust_kind(probe.main_rs, probe.lib_rs).1, probe.git),
                    validation_commands: rust_commands(manifest, probe.clippy_toml),
                },
            ),
            (ManifestView::Missing, ManifestView::Unreadable(reason)) => Err(
                unreadable(path_from(root, "package.json"@), reason),
            ),
            (ManifestView::Missing, ManifestView::Contents(package_json)) => Ok(
                AnalysisView {
                    root,
                    name: directory_name(root),
                    kind: ProjectKind::NodeApp,
                    notes: notes_of("detected Node project from package.json"@, probe.git),
                    validation_commands: node_commands(package_json),
                },
            ),
            (ManifestView::Missing, ManifestView::Missing) => if probe.pyproject_toml {
                Ok(
                    AnalysisView {
                        root,
                        name: directory_name(root),
                        kind: ProjectKind::PythonApp,
                        notes: notes_of(
                            "detected Python project from pyproject.toml"@,
                            probe.git,
                        ),
                        validation_commands: python_commands(
                            probe.ruff_toml || probe.dot_ruff_toml,
                        ),
                    },
                )
            } else {
                Ok(
                    AnalysisView {
                        root,
                        name: directory_name(root),
                        kind: ProjectKind::Generic,
                        notes: notes_of(
                            "no dominant project manifest found; generating a generic workflow"@,
                            probe.git,
                        ),
                        validation_commands: seq![
                            "echo 'add project-specific validation commands'"@,
                        ],
                    },
                )
            },
        }
    }
}

// ---------------------------------------------------------------------------
// Laws
// ---------------------------------------------------------------------------

/// Every project can be checked: there is at least one command.
pub proof fn law_every_project_has_checks(root: Seq<char>, probe: &ProjectProbe)
    ensures
        analyzed(root, probe) matches Ok(analysis) ==> analysis.validation_commands.len() > 0,
{
}

/// A Rust project is formatted first and tested last, whatever lies between.
pub proof fn law_rust_projects_are_tested_last(manifest: Seq<char>, clippy_toml: bool)
    ensures
        ({
            let commands = rust_commands(manifest, clippy_toml);
            &&& commands[0] == "cargo fmt"@
            &&& commands.last() == "cargo test"@ || commands.last() == "cargo test --workspace"@
            &&& commands.len() == 3 <==> contains(manifest, "clippy"@) || clippy_toml
            &&& commands.len() == 2 || commands[1]
                == "cargo clippy --all-targets --all-features -- -D warnings"@
        }),
{
}

/// What a project is found to be.
pub open spec fn found(
    root: Seq<char>,
    probe: &ProjectProbe,
    kind: ProjectKind,
    signal: Seq<char>,
) -> bool {
    analyzed(root, probe) matches Ok(analysis) && {
        &&& analysis.root == root
        &&& analysis.kind == kind
        &&& analysis.notes.len() == if probe.git {
            2int
        } else {
            1
        }
        &&& analysis.notes[0] == signal
        &&& probe.git ==> analysis.notes[1] == "git repository detected"@
    }
}

/// A project with a Rust manifest that can be read is a command-line tool where it
/// has a main file, whether or not it has a library too, and a library where it
/// has no main file; manifests of other kinds do not matter.
pub proof fn law_rust_projects_are_told_by_their_main_file(root: Seq<char>, probe: &ProjectProbe)
    requires
        probe.is_directory,
        probe.cargo_toml@ is Contents,
    ensures
        probe.main_rs ==> found(
            root,
            probe,
            ProjectKind::RustCli,
            "detected Rust crate with binary entrypoint"@,
        ),
        !probe.main_rs && probe.lib_rs ==> found(
            root,
            probe,
            ProjectKind::RustLibrary,
            "detected Rust crate with library entrypoint"@,
        ),
        !probe.main_rs && !probe.lib_rs ==> found(
            root,
            probe,
            ProjectKind::RustLibrary,
            "detected Cargo manifest without standard src entrypoint"@,
        ),
{
}

/// A project is one of Node where it has a manifest of Node that can be read and
/// none of Rust, one of Python where it has a manifest of Python and neither of
/// those, and of no special kind where it has none.
pub proof fn law_other_projects_are_told_by_their_manifests(
    root: Seq<char>,
    probe: &ProjectProbe,
)
    requires
        probe.is_directory,
        probe.cargo_toml@ is Missing,
    ensures
        probe.package_json@ is Contents ==> found(
            root,
            probe,
            ProjectKind::NodeApp,
            "detected Node project from package.json"@,
        ),
        probe.package_json@ is Missing && probe.pyproject_toml ==> found(
            root,
            probe,
            ProjectKind::PythonApp,
            "detected Python project from pyproject.toml"@,
        ),
        probe.package_json@ is Missing && !probe.pyproject_toml ==> found(
            root,
            probe,
            ProjectKind::Generic,
            "no dominant project manifest found; generating a generic workflow"@,
        ),
{
}

/// There is no project where there is no directory, nor where the manifest that
/// counts cannot be read; the failure says which, and why.
pub proof fn law_projects_that_cannot_be_inspected(root: Seq<char>, probe: &ProjectProbe)
    ensures
        !probe.is_directory ==> analyzed(root, probe) == Err::<AnalysisView, RegenErrorView>(
            RegenErrorView {
                message: "project directory `"@ + root + "` does not exist"@,
                cause: None,
            },
        ),
        probe.is_directory && probe.cargo_toml@ is Unreadable ==> analyzed(root, probe) == Err::<
            AnalysisView,
            RegenErrorView,
        >(
            RegenErrorView {
                message: "failed to read `"@ + path_from(root, "Cargo.toml"@) + "`"@,
                cause: Some(probe.cargo_toml@->Unreadable_0),
            },
        ),
        probe.is_directory && probe.cargo_toml@ is Missing && probe.package_json@ is Unreadable
            ==> analyzed(root, probe) == Err::<AnalysisView, RegenErrorView>(
            RegenErrorView {
                message: "failed to read `"@ + path_from(root, "package.json"@) + "`"@,
                cause: Some(probe.package_json@->Unreadable_0),
            },
        ),
        analyzed(root, probe) is Err ==> !probe.is_directory || probe.cargo_toml@ is Unreadable
            || probe.package_json@ is Unreadable,
{
}

/// A project is called what its Rust manifest calls its package, or else what its
/// directory is called, or `project` where that has no name.
pub proof fn law_project_names(root: Seq<char>, probe: &ProjectProbe)
    requires
        analyzed(root, probe) is Ok,
    ensures
        ({
            let name = analyzed(root, probe)->Ok_0.name;
            let given = match probe.cargo_toml@ {
                ManifestView::Contents(manifest) => package_name(manifest),
                _ => None,
            };
            &&& given is Some ==> name == given->0
            &&& given is None && name_of(root) is Some ==> name == name_of(root)->0
            &&& given is None && name_of(root) is None ==> name == "project"@
        }),
{
}

/// A Rust project is formatted, then checked by Clippy where its manifest or a
/// file of its own speaks of it, then tested, as a whole workspace where it is
/// one. No other probe matters.
pub proof fn law_rust_checks(root: Seq<char>, probe: &ProjectProbe)
    requires
        probe.is_directory,
        probe.cargo_toml@ is Contents,
    ensures
        ({
            let manifest = probe.cargo_toml@->Contents_0;
            let commands = analyzed(root, probe)->Ok_0.validation_commands;
            let linted = probe.clippy_toml || contains(manifest, "clippy"@);
            let test = if contains(manifest, "[workspace]"@) {
                "cargo test --workspace"@
            } else {
                "cargo test"@
            };
            &&& linted ==> commands == seq![
                "cargo fmt"@,
                "cargo clippy --all-targets --all-features -- -D warnings"@,
                test,
            ]
            &&& !linted ==> commands == seq!["cargo fmt"@, test]
        }),
{
}

/// The scripts of a Node project that are run are `lint`, `test` and `build`, in
/// this order, each where its manifest names it; `test` is run where it names none.
pub proof fn law_node_checks(root: Seq<char>, probe: &ProjectProbe)
    requires
        probe.is_directory,
        probe.cargo_toml@ is Missing,
        probe.package_json@ is Contents,
    ensures
        ({
            let manifest = probe.package_json@->Contents_0;
            let commands = analyzed(root, probe)->Ok_0.validation_commands;
            let lint = contains(manifest, "\"lint\""@);
            let test = contains(manifest, "\"test\""@);
            let build = contains(manifest, "\"build\""@);
            &&& lint && test && build ==> commands == seq![
                "npm run lint"@,
                "npm test"@,
                "npm run build"@,
            ]
            &&& lint && test && !build ==> commands == seq!["npm run lint"@, "npm test"@]
            &&& lint && !test && build ==> commands == seq!["npm run lint"@, "npm run build"@]
            &&& lint && !test && !build ==> commands == seq!["npm run lint"@]
            &&& !lint && test && build ==> commands == seq!["npm test"@, "npm run build"@]
            &&& !lint && test && !build ==> commands == seq!["npm test"@]
            &&& !lint && !test && build ==> commands == seq!["npm run build"@]
            &&& !lint && !test && !build ==> commands == seq!["npm test"@]
        }),
{
}

/// A Python project is checked by Ruff where a file configures that, in either of
/// its places, and then tested; a project of no special kind asks for its checks.
pub proof fn law_other_checks(root: Seq<char>, probe: &ProjectProbe)
    requires
        probe.is_directory,
        probe.cargo_toml@ is Missing,
        probe.package_json@ is Missing,
    ensures
        ({
            let commands = analyzed(root, probe)->Ok_0.validation_commands;
            let ruff = probe.ruff_toml || probe.dot_ruff_toml;
            &&& probe.pyproject_toml && ruff ==> commands == seq!["ruff check ."@, "pytest"@]
            &&& probe.pyproject_toml && !ruff ==> commands == seq!["pytest"@]
            &&& !probe.pyproject_toml ==> commands == seq![
                "echo 'add project-specific validation commands'"@,
            ]
        }),
{
}

/// A text without quotes and backslashes.
pub open spec fn unmarked(text: Seq<char>) -> bool {
    forall|i: int| 0 <= i < text.len() ==> #[trigger] text[i] != '"' && text[i] != '\\'
}

proof fn lemma_closing_quote(text: Seq<char>, i: int, end: int)
    requires
        0 <= i <= end <= text.len(),
        forall|k: int| i <= k < end ==> !quote_at(text, k),
        end < text.len() ==> quote_at(text, end),
    ensures
        closing_quote(text, i) == end,
    decreases end - i,
{
    if i < end {
        lemma_closing_quote(text, i + 1, end);
    }
}

/// A name in quotes is what stands between them, whatever follows; three quotes in
/// a row count as one, and a quote behind a backslash belongs to the name.
pub proof fn law_quoted_values(name: Seq<char>, rest: Seq<char>)
    requires
        name.len() > 0,
        name[0] != '"',
        name.last() != '\\',
        forall|i: int|
            0 <= i < name.len() && #[trigger] name[i] == '"' ==> i > 0 && name[i - 1] == '\\',
    ensures
        unquoted(seq!['"'] + name + seq!['"'] + rest) == name,
        unquoted(seq!['"', '"', '"'] + name + seq!['"', '"', '"'] + rest) == name,
{
    let once = name + (seq!['"'] + rest);
    let thrice = name + (seq!['"', '"', '"'] + rest);
    lemma_quoted_value(seq!['"'], name, seq!['"'] + rest);
    lemma_quoted_value(seq!['"', '"', '"'], name, seq!['"', '"', '"'] + rest);
    assert(seq!['"'] + name + seq!['"'] + rest =~= seq!['"'] + once);
    assert(seq!['"', '"', '"'] + name + seq!['"', '"', '"'] + rest =~= seq!['"', '"', '"']
        + thrice);
}

proof fn lemma_leading_quotes(quotes: Seq<char>, rest: Seq<char>)
    requires
        forall|i: int| 0 <= i < quotes.len() ==> quotes[i] == '"',
        rest.len() == 0 || rest[0] != '"',
    ensures
        leading_quotes(quotes + rest) == quotes.len(),
    decreases quotes.len(),
{
    let all = quotes + rest;
    if quotes.len() > 0 {
        assert(all[0] == quotes[0]);
        assert(all.drop_first() =~= quotes.drop_first() + rest);
        lemma_leading_quotes(quotes.drop_first(), rest);
    } else {
        assert(all =~= rest);
    }
}

proof fn lemma_quoted_value(quotes: Seq<char>, name: Seq<char>, after: Seq<char>)
    requires
        quotes.len() > 0,
        forall|i: int| 0 <= i < quotes.len() ==> quotes[i] == '"',
        name.len() > 0,
        name[0] != '"',
        name.last() != '\\',
        forall|i: int|
            0 <= i < name.len() && #[trigger] name[i] == '"' ==> i > 0 && name[i - 1] == '\\',
        after.len() > 0 && after[0] == '"',
    ensures
        unquoted(quotes + (name + after)) == name,
{
    let body = name + after;
    let value = quotes + body;
    assert(body[0] == name[0]);
    lemma_leading_quotes(quotes, body);
    assert(value.skip(quotes.len() as int) =~= body);
    let n = name.len() as int;
    assert forall|k: int| 0 <= k < n implies !quote_at(body, k) by {
        assert(body[k] == name[k]);
        if k > 0 {
            assert(body[k - 1] == name[k - 1]);
        }
    }
    assert(body[n] == after[0]);
    assert(body[n - 1] == name.last());
    lemma_closing_quote(body, 0, n);
    assert(body.take(n) =~= name);
}

/// A value without quotes is taken as it is.
pub proof fn law_bare_values(value: Seq<char>)
    requires
        unmarked(value),
    ensures
        unquoted(value) == value,
{
    assert(leading_quotes(value) == 0);
    law_trimmed_text_is_not_changed(value, Trimmed::Quote);
}

/// A line assigns to what stands before its first `=`, and assigns what stands
/// after it, both without the white space around them.
pub proof fn law_assignments(key: Seq<char>, value: Seq<char>)
    requires
        forall|i: int| 0 <= i < key.len() ==> #[trigger] key[i] != '=',
    ensures
        assigned_key(key + seq!['='] + value) == trimmed(key, Trimmed::WhiteSpace),
        assigned(key + seq!['='] + value) == Some(unquoted(trimmed(value, Trimmed::WhiteSpace))),
        assigned_key(key) == trimmed(key, Trimmed::WhiteSpace),
        assigned(key) is None,
{
    let line = key + seq!['='] + value;
    let n = key.len() as int;
    assert forall|i: int| 0 <= i < n implies line[i] != '=' by {
        assert(line[i] == key[i]);
    }
    assert(line[n] == '=');
    lemma_first_position_unique(line, '=', n);
    lemma_first_position_unique(key, '=', n);
    assert(line.take(n) =~= key);
    assert(line.skip(n + 1) =~= value);
    assert(key.take(n) =~= key);
}

/// The name of a package is what is assigned to `name` in its section: by the first
/// such line after the line `[package]`, before any other section begins.
pub proof fn law_package_name_stands_in_its_section(
    lines: Seq<Seq<char>>,
    section: int,
    line: int,
)
    requires
        0 <= section < line < lines.len(),
        forall|i: int|
            0 <= i < section ==> trimmed(#[trigger] lines[i], Trimmed::WhiteSpace)
                != "[package]"@,
        trimmed(lines[section], Trimmed::WhiteSpace) == "[package]"@,
        forall|i: int|
            section < i <= line ==> {
                let text = trimmed(#[trigger] lines[i], Trimmed::WhiteSpace);
                text.len() == 0 || text[0] != '['
            },
        forall|i: int|
            section < i < line ==> assigned_key(
                trimmed(#[trigger] lines[i], Trimmed::WhiteSpace),
            ) != "name"@,
        assigned_key(trimmed(lines[line], Trimmed::WhiteSpace)) == "name"@,
    ensures
        name_in(lines, false) == assigned(trimmed(lines[line], Trimmed::WhiteSpace)),
{
    reveal_strlit("[");
    reveal_strlit("[package]");
    assert("[package]"@[0] == '[');
    lemma_before_the_section(lines, section);
    let rest = lines.skip(section);
    assert(rest[0] == lines[section]);
    assert(rest[0] == lines[section]);
    let head = trimmed(rest[0], Trimmed::WhiteSpace);
    assert(head.subrange(0, 1) =~= "["@);
    assert(occurs_at(head, "["@, 0));
    assert(rest.drop_first() =~= lines.skip(section + 1));
    lemma_within_the_section(lines, section + 1, line);
}

proof fn lemma_before_the_section(lines: Seq<Seq<char>>, n: int)
    requires
        0 <= n <= lines.len(),
        forall|i: int|
            0 <= i < n ==> trimmed(#[trigger] lines[i], Trimmed::WhiteSpace) != "[package]"@,
    ensures
        name_in(lines, false) == name_in(lines.skip(n), false),
    decreases n,
{
    if n == 0 {
        assert(lines.skip(0) =~= lines);
    } else {
        lemma_before_the_section(lines, n - 1);
        let rest = lines.skip(n - 1);
        assert(rest[0] == lines[n - 1]);
        assert(rest.drop_first() =~= lines.skip(n));
    }
}

proof fn lemma_within_the_section(lines: Seq<Seq<char>>, from: int, line: int)
    requires
        0 <= from <= line < lines.len(),
        forall|i: int|
            from <= i <= line ==> {
                let text = trimmed(#[trigger] lines[i], Trimmed::WhiteSpace);
                text.len() == 0 || text[0] != '['
            },
        forall|i: int|
            from <= i < line ==> assigned_key(
                trimmed(#[trigger] lines[i], Trimmed::WhiteSpace),
            ) != "name"@,
        assigned_key(trimmed(lines[line], Trimmed::WhiteSpace)) == "name"@,
    ensures
        name_in(lines.skip(from), true) == assigned(trimmed(lines[line], Trimmed::WhiteSpace)),
    decreases line - from,
{
    reveal_strlit("[");
    let rest = lines.skip(from);
    let text = trimmed(lines[from], Trimmed::WhiteSpace);
    assert(rest[0] == lines[from]);
    assert(!occurs_at(text, "["@, 0)) by {
        if occurs_at(text, "["@, 0) {
            assert(text.subrange(0, 1)[0] == text[0]);
        }
    }
    assert(rest.drop_first() =~= lines.skip(from + 1));
    if from < line {
        lemma_within_the_section(lines, from + 1, line);
    }
}

/// A manifest is read line by line, from outside of every section.
pub proof fn law_manifests_are_read_by_lines(manifest: Seq<char>)
    ensures
        package_name(manifest) == name_in(lines_of(manifest), false),
{
}

/// A manifest without the section `[package]` names no package, and neither does
/// one whose section assigns nothing to `name`.
pub proof fn law_no_package_no_name(lines: Seq<Seq<char>>)
    requires
        (forall|i: int|
            0 <= i < lines.len() ==> trimmed(#[trigger] lines[i], Trimmed::WhiteSpace)
                != "[package]"@) || (forall|i: int|
            0 <= i < lines.len() ==> assigned_key(
                trimmed(#[trigger] lines[i], Trimmed::WhiteSpace),
            ) != "name"@),
    ensures
        name_in(lines, false) is None,
{
    if forall|i: int|
        0 <= i < lines.len() ==> trimmed(#[trigger] lines[i], Trimmed::WhiteSpace)
            != "[package]"@ {
        lemma_before_the_section(lines, lines.len() as int);
    } else {
        lemma_nothing_assigned(lines, false);
    }
}

proof fn lemma_nothing_assigned(lines: Seq<Seq<char>>, in_package: bool)
    requires
        forall|i: int|
            0 <= i < lines.len() ==> assigned_key(
                trimmed(#[trigger] lines[i], Trimmed::WhiteSpace),
            ) != "name"@,
    ensures
        name_in(lines, in_package) is None,
    decreases lines.len(),
{
    if lines.len() > 0 {
        let rest = lines.drop_first();
        assert(assigned_key(trimmed(lines[0], Trimmed::WhiteSpace)) != "name"@);
        assert forall|i: int| 0 <= i < rest.len() implies assigned_key(
            trimmed(#[trigger] rest[i], Trimmed::WhiteSpace),
        ) != "name"@ by {
            assert(rest[i] == lines[i + 1]);
        }
        lemma_nothing_assigned(rest, true);
        lemma_nothing_assigned(rest, false);
    }
}

/// The kinds of projects have different names.
pub proof fn law_kinds_have_different_names(a: ProjectKind, b: ProjectKind)
    ensures
        kind_name(a) == kind_name(b) <==> a == b,
        kind_name(a).len() > 0,
{
    reveal_strlit("rust-cli");
    reveal_strlit("rust-library");
    reveal_strlit("node-app");
    reveal_strlit("python-app");
    reveal_strlit("generic");
    assert("rust-cli"@.len() == 8 && "rust-cli"@[0] == 'r');
    assert("rust-library"@.len() == 12);
    assert("node-app"@.len() == 8 && "node-app"@[0] == 'n');
    assert("python-app"@.len() == 10);
    assert("generic"@.len() == 7);
}

// ---------------------------------------------------------------------------
// Operations
// ---------------------------------------------------------------------------

impl ProjectKind {
    /// What the kind is called.
    pub fn as_str(self) -> (r: &'static str)
        ensures
            r@ == kind_name(self),
    {
        match self {
            ProjectKind::RustCli => "rust-cli",
            ProjectKind::RustLibrary => "rust-library",
            ProjectKind::NodeApp => "node-app",
            ProjectKind::PythonApp => "python-app",
            ProjectKind::Generic => "generic",
        }
    }
}

/// A value without its quotes.
fn without_quotes(value: &str) -> (r: String)
    ensures
        r@ == unquoted(value@),
{
    let chars = characters(value);
    let mut start: usize = 0;
    assert(value@.skip(0) =~= value@);
    while start < chars.len() && chars[start] == '"'
        invariant
            start <= chars@.len(),
            chars@ == value@,
            leading_quotes(value@) == start + leading_quotes(value@.skip(start as int)),
        ensures
            start == leading_quotes(value@),
            start <= chars@.len(),
        decreases chars@.len() - start,
    {
        assert(value@.skip(start as int).drop_first() =~= value@.skip(start + 1));
        start = start + 1;
    }
    let ghost body = value@.skip(start as int);
    let mut end = start;
    while end < chars.len() && !(chars[end] == '"' && (end == start || chars[end - 1] != '\\'))
        invariant
            start <= end <= chars@.len(),
            chars@ == value@,
            body == value@.skip(start as int),
            closing_quote(body, 0) == closing_quote(body, end - start),
        ensures
            start <= end <= chars@.len(),
            closing_quote(body, 0) == end - start,
        decreases chars@.len() - end,
    {
        end = end + 1;
    }
    if start > 0 && end < chars.len() {
        let inner = text_between(&chars, start, end);
        assert(inner@ =~= body.take(end - start));
        return inner;
    }
    trim_quotes(value)
}

/// What an assignment in a manifest assigns to.
fn key_of_line(line: &str) -> (r: String)
    ensures
        r@ == assigned_key(line@),
{
    let chars = characters(line);
    let at = find(&chars, '=');
    proof {
        lemma_first_position(chars@, '=');
    }
    let key = text_between(&chars, 0, at);
    assert(key@ =~= line@.take(at as int));
    trim(key.as_str())
}

/// What an assignment in a manifest assigns, without quotes.
fn assigned_value(line: &str) -> (r: Option<String>)
    ensures
        optional(r) == assigned(line@),
{
    let chars = characters(line);
    let at = find(&chars, '=');
    proof {
        lemma_first_position(chars@, '=');
    }
    if at < chars.len() {
        let value = text_between(&chars, at + 1, chars.len());
        assert(value@ =~= line@.skip(at + 1));
        Some(without_quotes(trim(value.as_str()).as_str()))
    } else {
        None
    }
}

/// The name that a manifest gives to the package.
pub fn parse_package_name(manifest: &str) -> (r: Option<String>)
    ensures
        optional(r) == package_name(manifest@),
{
    let rows = lines(manifest);
    let ghost all = lines_of(manifest@);
    let mut in_package = false;
    let mut at: usize = 0;
    assert(all.skip(0) =~= all);
    while at < rows.len()
        invariant
            at <= rows@.len(),
            all == lines_of(manifest@),
            texts(rows@) == all,
            package_name(manifest@) == name_in(all.skip(at as int), in_package),
        decreases rows@.len() - at,
    {
        assert(all.skip(at as int)[0] == rows@[at as int]@);
        assert(all.skip(at as int).drop_first() =~= all.skip(at + 1));
        let line = trim(rows[at].as_str());
        if starts_with(line.as_str(), "[") {
            in_package = same(line.as_str(), "[package]");
        } else if in_package && same(key_of_line(line.as_str()).as_str(), "name") {
            return assigned_value(line.as_str());
        }
        at = at + 1;
    }
    None
}

/// The name of a project that does not say its own.
fn name_from_directory(root: &str) -> (r: String)
    ensures
        r@ == directory_name(root@),
{
    match file_name(root) {
        Some(name) => name,
        None => "project".to_owned(),
    }
}

/// Adds a text to a list, where the condition holds.
fn push_if(list: &mut Vec<String>, condition: bool, text: &str)
    ensures
        texts(final(list)@) == texts(old(list)@) + included(condition, text@),
{
    if condition {
        list.push(text.to_owned());
        assert(texts(list@) =~= texts(old(list)@) + seq![text@]);
    } else {
        assert(texts(list@) =~= texts(old(list)@) + Seq::empty());
    }
}

/// How a Rust project is checked.
pub fn detect_rust_commands(manifest: &str, clippy_toml: bool) -> (r: Vec<String>)
    ensures
        texts(r@) == rust_commands(manifest@, clippy_toml),
{
    let mut commands: Vec<String> = Vec::new();
    commands.push("cargo fmt".to_owned());
    assert(texts(commands@) =~= seq!["cargo fmt"@]);
    push_if(
        &mut commands,
        clippy_toml || holds(manifest, "clippy"),
        "cargo clippy --all-targets --all-features -- -D warnings",
    );
    let ghost before = texts(commands@);
    if holds(manifest, "[workspace]") {
        commands.push("cargo test --workspace".to_owned());
        assert(texts(commands@) =~= before + seq!["cargo test --workspace"@]);
    } else {
        commands.push("cargo test".to_owned());
        assert(texts(commands@) =~= before + seq!["cargo test"@]);
    }
    commands
}

/// How a Node project is checked.
pub fn detect_node_commands(package_json: &str) -> (r: Vec<String>)
    ensures
        texts(r@) == node_commands(package_json@),
{
    let mut commands: Vec<String> = Vec::new();
    assert(texts(commands@) =~= Seq::empty());
    push_if(&mut commands, holds(package_json, "\"lint\""), "npm run lint");
    push_if(&mut commands, holds(package_json, "\"test\""), "npm test");
    push_if(&mut commands, holds(package_json, "\"build\""), "npm run build");
    let ghost found = included(contains(package_json@, "\"lint\""@), "npm run lint"@) + included(
        contains(package_json@, "\"test\""@),
        "npm test"@,
    ) + included(contains(package_json@, "\"build\""@), "npm run build"@);
    assert(texts(commands@) =~= found);
    if commands.len() == 0 {
        commands.push("npm test".to_owned());
        assert(texts(commands@) =~= seq!["npm test"@]);
    }
    commands
}

/// How a Python project is checked.
pub fn detect_python_commands(ruff: bool) -> (r: Vec<String>)
    ensures
        texts(r@) == python_commands(ruff),
{
    let mut commands: Vec<String> = Vec::new();
    push_if(&mut commands, ruff, "ruff check .");
    let ghost before = texts(commands@);
    commands.push("pytest".to_owned());
    assert(texts(commands@) =~= before + seq!["pytest"@]);
    assert(texts(commands@) =~= python_commands(ruff));
    commands
}

/// The notes on a project.
fn notes_for(signal: &str, git: bool) -> (r: Vec<String>)
    ensures
        texts(r@) == notes_of(signal@, git),
{
    let mut notes: Vec<String> = Vec::new();
    notes.push(signal.to_owned());
    assert(texts(notes@) =~= seq![signal@]);
    push_if(&mut notes, git, "git repository detected");
    notes
}

/// The failure to read a file of a project.
fn read_failure(root: &str, name: &str, reason: &str) -> (r: RegenError)
    ensures
        r@ == unreadable(path_from(root@, name@), reason@),
{
    RegenError {
        message: "failed to read `".to_owned().concat(join_path(root, name).as_str()).concat("`"),
        cause: Some(reason.to_owned()),
    }
}

/// What is known of the project in the directory `root`, given what is found
/// there.
pub fn analyze_project(root: &str, probe: &ProjectProbe) -> (r: Result<
    ProjectAnalysis,
    RegenError,
>)
    ensures
        regen_outcome(r) == analyzed(root@, probe),
{
    if !probe.is_directory {
        return Err(
            RegenError {
                message: "project directory `".to_owned().concat(root).concat("` does not exist"),
                cause: None,
            },
        );
    }
    match &probe.cargo_toml {
        Manifest::Unreadable(reason) => {
            return Err(read_failure(root, "Cargo.toml", reason.as_str()));
        },
        Manifest::Contents(manifest) => {
            let (kind, signal) = if probe.main_rs {
                (ProjectKind::RustCli, "detected Rust crate with binary entrypoint")
            } else if probe.lib_rs {
                (ProjectKind::RustLibrary, "detected Rust crate with library entrypoint")
            } else {
                (
                    ProjectKind::RustLibrary,
                    "detected Cargo manifest without standard src entrypoint",
                )
            };
            let name = match parse_package_name(manifest.as_str()) {
                Some(name) => name,
                None => name_from_directory(root),
            };
            return Ok(
                ProjectAnalysis {
                    root: root.to_owned(),
                    name,
                    kind,
                    notes: notes_for(signal, probe.git),
                    validation_commands: detect_rust_commands(
                        manifest.as_str(),
                        probe.clippy_toml,
                    ),
                },
            );
        },
        Manifest::Missing => {},
    }
    let (kind, signal, validation_commands) = match &probe.package_json {
        Manifest::Unreadable(reason) => {
            return Err(read_failure(root, "package.json", reason.as_str()));
        },
        Manifest::Contents(package_json) => (
            ProjectKind::NodeApp,
            "detected Node project from package.json",
            detect_node_commands(package_json.as_str()),
        ),
        Manifest::Missing => {
            if probe.pyproject_toml {
                (
                    ProjectKind::PythonApp,
                    "detected Python project from pyproject.toml",
                    detect_python_commands(probe.ruff_toml || probe.dot_ruff_toml),
                )
            } else {
                let mut commands: Vec<String> = Vec::new();
                commands.push("echo 'add project-specific validation commands'".to_owned());
                assert(texts(commands@) =~= seq![
                    "echo 'add project-specific validation commands'"@,
                ]);
                (
                    ProjectKind::Generic,
                    "no dominant project manifest found; generating a generic workflow",
                    commands,
                )
            }
        },
    };
    Ok(
        ProjectAnalysis {
            root: root.to_owned(),
            name: name_from_directory(root),
            kind,
            notes: notes_for(signal, probe.git),
            validation_commands,
        },
    )
}

} // verus!
