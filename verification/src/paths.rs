//! Paths as text, with `/` between their components, as Unix has them.

use vstd::prelude::*;
use vstd::string::*;

use crate::text::{
    characters, find_from, first_position, lemma_first_position, optional, same, same_texts,
    text_between, texts,
};

verus! {

/// Whether a path starts at the root.
pub open spec fn is_absolute(path: Seq<char>) -> bool {
    path.len() > 0 && path[0] == '/'
}

/// `path` as seen from `base`. An absolute path stands for itself.
pub open spec fn path_from(base: Seq<char>, path: Seq<char>) -> Seq<char> {
    if is_absolute(path) {
        path
    } else if base.len() == 0 || base.last() == '/' {
        base + path
    } else {
        base + "/"@ + path
    }
}

/// The length of what precedes the components of a path that can be removed
/// from its end: the root, or a leading `.` component.
pub open spec fn fixed_length(path: Seq<char>) -> int {
    if is_absolute(path) {
        1
    } else if path.len() > 0 && path[0] == '.' && (path.len() == 1 || path[1] == '/') {
        1
    } else {
        0
    }
}

/// Where the component that ends at `end` starts: after the last `/` before it.
pub open spec fn component_start(path: Seq<char>, end: int) -> int
    decreases end,
{
    if end <= fixed_length(path) || path[end - 1] == '/' {
        end
    } else {
        component_start(path, end - 1)
    }
}

/// Whether the component between `start` and `end` names nothing: it is empty
/// or `.`.
pub open spec fn insignificant(path: Seq<char>, start: int, end: int) -> bool {
    start == end || (end - start == 1 && path[start] == '.')
}

/// Where the last component up to `end` that names something ends, with the
/// separators and `.` components after it left out; the length of the fixed
/// part where there is no such component.
pub open spec fn significant_end(path: Seq<char>, end: int) -> int
    decreases end,
    via significant_end_decreases
{
    let start = component_start(path, end);
    if end <= fixed_length(path) {
        fixed_length(path)
    } else if !insignificant(path, start, end) {
        end
    } else if start <= fixed_length(path) {
        fixed_length(path)
    } else {
        significant_end(path, start - 1)
    }
}

#[via_fn]
proof fn significant_end_decreases(path: Seq<char>, end: int) {
    lemma_component_start(path, end);
}

/// The directory that holds `path`: the path without its last component. The
/// root and the empty path have none; `.` is a component where it comes first.
pub open spec fn parent_of(path: Seq<char>) -> Option<Seq<char>> {
    let end = significant_end(path, path.len() as int);
    if end > fixed_length(path) {
        let start = component_start(path, end);
        if start <= fixed_length(path) {
            Some(path.take(fixed_length(path)))
        } else {
            Some(path.take(significant_end(path, start - 1)))
        }
    } else if path.len() > 0 && path[0] == '.' && fixed_length(path) == 1 {
        Some(Seq::empty())
    } else {
        None
    }
}

/// The last component of `path`, if it is a name: the root, `.` and `..` are
/// none.
pub open spec fn name_of(path: Seq<char>) -> Option<Seq<char>> {
    let end = significant_end(path, path.len() as int);
    let component = path.subrange(component_start(path, end), end);
    if end > fixed_length(path) && component != ".."@ {
        Some(component)
    } else {
        None
    }
}

/// The components of a path that name something.
pub open spec fn parts_of(path: Seq<char>) -> Seq<Seq<char>>
    decreases path.len(),
    via parts_of_decreases
{
    let end = first_position(path, '/');
    let first = path.take(end);
    let rest = if end < path.len() {
        parts_of(path.skip(end + 1))
    } else {
        Seq::empty()
    };
    if first.len() == 0 || first == "."@ {
        rest
    } else {
        seq![first] + rest
    }
}

#[via_fn]
proof fn parts_of_decreases(path: Seq<char>) {
    lemma_first_position(path, '/');
}

/// Whether two texts are the same path: they start at the same place and have
/// the same components. Repeated separators and `.` components count for
/// nothing, but a leading `.` counts.
pub open spec fn same_path(a: Seq<char>, b: Seq<char>) -> bool {
    &&& is_absolute(a) == is_absolute(b)
    &&& fixed_length(a) == fixed_length(b)
    &&& parts_of(a) == parts_of(b)
}

proof fn lemma_component_start(path: Seq<char>, end: int)
    ensures
        component_start(path, end) <= end,
        end >= fixed_length(path) ==> fixed_length(path) <= component_start(path, end),
    decreases end,
{
    if end > fixed_length(path) && path[end - 1] != '/' {
        lemma_component_start(path, end - 1);
    }
}

proof fn lemma_significant_end(path: Seq<char>, end: int)
    requires
        0 <= end <= path.len(),
    ensures
        fixed_length(path) <= significant_end(path, end) <= path.len(),
    decreases end,
{
    lemma_component_start(path, end);
    let start = component_start(path, end);
    if end > fixed_length(path) && insignificant(path, start, end) && start > fixed_length(path) {
        lemma_significant_end(path, start - 1);
    }
}

/// A path that starts at the root is the same from everywhere. Any other leads on
/// from where it is seen, with one separator between.
pub proof fn law_relative_paths_lead_on(base: Seq<char>, path: Seq<char>)
    ensures
        path.len() > 0 && path[0] == '/' ==> path_from(base, path) == path,
        (path.len() == 0 || path[0] != '/') && base.len() > 0 && base.last() != '/' ==> path_from(
            base,
            path,
        ) == base + seq!['/'] + path,
        (path.len() == 0 || path[0] != '/') && (base.len() == 0 || base.last() == '/')
            ==> path_from(base, path) == base + path,
{
    reveal_strlit("/");
    assert("/"@ =~= seq!['/']);
}

/// A text that can be a component of a path and names something.
pub open spec fn plain_name(name: Seq<char>) -> bool {
    &&& name.len() > 0
    &&& name != seq!['.']
    &&& forall|i: int| 0 <= i < name.len() ==> #[trigger] name[i] != '/'
}

proof fn lemma_component_of_name(path: Seq<char>, start: int, end: int)
    requires
        fixed_length(path) <= start <= end <= path.len(),
        start == fixed_length(path) || path[start - 1] == '/',
        forall|i: int| start <= i < end ==> #[trigger] path[i] != '/',
    ensures
        component_start(path, end) == start,
    decreases end - start,
{
    if end > start {
        assert(path[end - 1] != '/');
        lemma_component_of_name(path, start, end - 1);
    }
}

proof fn lemma_same_component(path: Seq<char>, more: Seq<char>, end: int)
    requires
        0 <= end <= path.len(),
        more.len() > 0 && more[0] == '/',
        path.len() > 0,
    ensures
        fixed_length(path + more) == fixed_length(path),
        component_start(path + more, end) == component_start(path, end),
    decreases end,
{
    if path.len() == 1 {
        assert((path + more)[1] == '/');
    }
    if end > fixed_length(path) {
        assert((path + more)[end - 1] == path[end - 1]);
        if path[end - 1] != '/' {
            lemma_same_component(path, more, end - 1);
        }
    }
}

proof fn lemma_same_significant(path: Seq<char>, more: Seq<char>, end: int)
    requires
        0 <= end <= path.len(),
        more.len() > 0 && more[0] == '/',
        path.len() > 0,
    ensures
        significant_end(path + more, end) == significant_end(path, end),
    decreases end,
{
    lemma_same_component(path, more, end);
    lemma_component_start(path, end);
    let start = component_start(path, end);
    if end > fixed_length(path) {
        assert(end - start == 1 ==> (path + more)[start] == path[start]);
        if insignificant(path, start, end) && start > fixed_length(path) {
            lemma_same_significant(path, more, start - 1);
        }
    }
}

/// The directory of a file is what stands before the last separator, and the name
/// of the file is what stands after it. Of a directory, separators and `.`
/// components at its end count for nothing.
pub proof fn law_directory_of_a_file(directory: Seq<char>, name: Seq<char>)
    requires
        directory.len() > 0,
        plain_name(name),
        significant_end(directory, directory.len() as int) == directory.len(),
        directory.last() != '/',
    ensures
        parent_of(directory + seq!['/'] + name) == Some(directory),
        name != seq!['.', '.'] ==> name_of(directory + seq!['/'] + name) == Some(name),
{
    let more = seq!['/'] + name;
    let path = directory + seq!['/'] + name;
    let n = directory.len() as int;
    let end = path.len() as int;
    assert(path =~= directory + more);
    lemma_same_component(directory, more, n);
    assert forall|i: int| n + 1 <= i < end implies #[trigger] path[i] != '/' by {
        assert(path[i] == name[i - n - 1]);
    }
    assert(path[n] == '/');
    lemma_component_of_name(path, n + 1, end);
    assert(path[n + 1] == name[0]);
    if name.len() == 1 {
        assert(name =~= seq![name[0]]);
    }
    assert(!insignificant(path, n + 1, end));
    assert(significant_end(path, end) == end);
    lemma_same_significant(directory, more, n);
    assert(path.take(n) =~= directory);
    assert(path.subrange(n + 1, end) =~= name);
    reveal_strlit("..");
    assert(".."@ =~= seq!['.', '.']);
}

/// Separators and `.` components at the end of a path count for nothing.
pub proof fn law_path_ends_count_for_nothing(path: Seq<char>)
    requires
        path.len() > 0,
    ensures
        parent_of(path + seq!['/']) == parent_of(path),
        name_of(path + seq!['/']) == name_of(path),
        parent_of(path + seq!['/', '.']) == parent_of(path),
        name_of(path + seq!['/', '.']) == name_of(path),
{
    lemma_end_counts_for_nothing(path, seq!['/']);
    lemma_end_counts_for_nothing(path, seq!['/', '.']);
}

proof fn lemma_end_counts_for_nothing(path: Seq<char>, more: Seq<char>)
    requires
        path.len() > 0,
        more == seq!['/'] || more == seq!['/', '.'],
    ensures
        parent_of(path + more) == parent_of(path),
        name_of(path + more) == name_of(path),
{
    let n = path.len() as int;
    let longer = path + more;
    let end = significant_end(path, n);
    lemma_same_component(path, more, n);
    lemma_same_significant(path, more, n);
    lemma_significant_end(path, n);
    assert(longer[n] == '/');
    assert(longer[0] == path[0]);
    assert(component_start(longer, n + 1) == n + 1);
    if more.len() == 2 {
        assert(longer[n + 1] == '.');
        assert(component_start(longer, n + 2) == component_start(longer, n + 1));
        assert(significant_end(longer, n + 2) == significant_end(longer, n));
    } else {
        assert(significant_end(longer, n + 1) == significant_end(longer, n));
    }
    lemma_same_component(path, more, end);
    lemma_component_start(path, end);
    let start = component_start(path, end);
    assert(longer.subrange(start, end) =~= path.subrange(start, end));
    assert(longer.take(fixed_length(path)) =~= path.take(fixed_length(path)));
    if start > fixed_length(path) {
        lemma_same_significant(path, more, start - 1);
        lemma_significant_end(path, start - 1);
        let parent = significant_end(path, start - 1);
        assert(longer.take(parent) =~= path.take(parent));
    }
}

/// A directory whose last component names something ends with it.
pub proof fn law_plain_directories_are_whole(directory: Seq<char>, name: Seq<char>)
    requires
        plain_name(name),
    ensures
        significant_end(directory + seq!['/'] + name, (directory + seq!['/'] + name).len() as int)
            == (directory + seq!['/'] + name).len(),
{
    let path = directory + seq!['/'] + name;
    let n = directory.len() as int;
    let end = path.len() as int;
    assert(path[n] == '/');
    assert forall|i: int| n + 1 <= i < end implies #[trigger] path[i] != '/' by {
        assert(path[i] == name[i - n - 1]);
    }
    assert(path[n + 1] == name[0]);
    if name.len() == 1 {
        assert(name =~= seq![name[0]]);
    }
    lemma_component_of_name(path, n + 1, end);
}

/// A file that is named without a directory has the empty path for one, and a
/// file at the root has the root.
pub proof fn law_files_without_directory(name: Seq<char>)
    requires
        plain_name(name),
    ensures
        parent_of(name) == Some(Seq::<char>::empty()),
        parent_of(seq!['/'] + name) == Some(seq!['/']),
        name != seq!['.', '.'] ==> name_of(name) == Some(name) && name_of(seq!['/'] + name)
            == Some(name),
        parent_of(seq!['/']) is None,
        name_of(seq!['/']) is None,
        parent_of(Seq::<char>::empty()) is None,
        name_of(Seq::<char>::empty()) is None,
{
    let end = name.len() as int;
    if end == 1 {
        assert(name =~= seq![name[0]]);
    }
    assert(name.len() > 1 ==> name[1] != '/');
    assert(fixed_length(name) == 0);
    lemma_component_of_name(name, 0, end);
    assert(name.take(0) =~= Seq::<char>::empty());
    assert(name.subrange(0, end) =~= name);
    let path = seq!['/'] + name;
    assert(path[0] == '/');
    assert forall|i: int| 1 <= i < end + 1 implies #[trigger] path[i] != '/' by {
        assert(path[i] == name[i - 1]);
    }
    assert(path[1] == name[0]);
    lemma_component_of_name(path, 1, end + 1);
    assert(path.take(1) =~= seq!['/']);
    assert(path.subrange(1, end + 1) =~= name);
    reveal_strlit("..");
    assert(".."@ =~= seq!['.', '.']);
}

/// A path and itself are the same path, and so are two of which one has a
/// separator or a `.` component more.
pub proof fn law_same_paths(path: Seq<char>, name: Seq<char>)
    requires
        plain_name(name),
    ensures
        same_path(path, path),
        parts_of(name + seq!['/'] + path) == seq![name] + parts_of(path),
        parts_of(seq!['/'] + path) == parts_of(path),
        parts_of(seq!['.', '/'] + path) == parts_of(path),
        parts_of(name) == seq![name],
        parts_of(Seq::<char>::empty()) == Seq::<Seq<char>>::empty(),
        parts_of(seq!['.']) == Seq::<Seq<char>>::empty(),
        !same_path(seq!['/'] + path, name),
{
    reveal_strlit(".");
    assert("."@ =~= seq!['.']);
    let a = name + seq!['/'] + path;
    let n = name.len() as int;
    assert forall|i: int| 0 <= i < n implies a[i] != '/' by {
        assert(a[i] == name[i]);
    }
    crate::text::lemma_first_position_unique(a, '/', n);
    assert(a.take(n) =~= name);
    assert(a.skip(n + 1) =~= path);
    let b = seq!['/'] + path;
    crate::text::lemma_first_position_unique(b, '/', 0);
    assert(b.take(0).len() == 0);
    assert(b.skip(1) =~= path);
    let c = seq!['.', '/'] + path;
    crate::text::lemma_first_position_unique(c, '/', 1);
    assert(c.take(1) =~= seq!['.']);
    assert(c.skip(2) =~= path);
    crate::text::lemma_first_position_unique(name, '/', n);
    assert(name.take(n) =~= name);
    assert(seq![name] + Seq::<Seq<char>>::empty() =~= seq![name]);
    crate::text::lemma_first_position_unique(Seq::<char>::empty(), '/', 0);
    let d = seq!['.'];
    crate::text::lemma_first_position_unique(d, '/', 1);
    assert(d.take(1) =~= d);
    assert(b[0] == '/' && name[0] != '/');
}

/// Two texts are the same path exactly when both start at the root or neither
/// does, both begin with a `.` component or neither does, and they have the same
/// components.
pub proof fn law_when_paths_are_the_same(a: Seq<char>, b: Seq<char>)
    ensures
        ({
            let rooted = |path: Seq<char>| path.len() > 0 && path[0] == '/';
            let dotted = |path: Seq<char>|
                path.len() > 0 && path[0] == '.' && (path.len() == 1 || path[1] == '/');
            same_path(a, b) <==> rooted(a) == rooted(b) && dotted(a) == dotted(b) && parts_of(a)
                == parts_of(b)
        }),
{
}

/// Whether a path starts at the root.
pub fn absolute(path: &str) -> (r: bool)
    ensures
        r == is_absolute(path@),
{
    let chars = characters(path);
    chars.len() > 0 && chars[0] == '/'
}

/// `path` as seen from `base`.
pub fn join_path(base: &str, path: &str) -> (r: String)
    ensures
        r@ == path_from(base@, path@),
{
    if absolute(path) {
        return path.to_owned();
    }
    let chars = characters(base);
    if chars.len() == 0 || chars[chars.len() - 1] == '/' {
        base.to_owned().concat(path)
    } else {
        base.to_owned().concat("/").concat(path)
    }
}

fn fixed(chars: &Vec<char>) -> (r: usize)
    ensures
        r == fixed_length(chars@),
{
    if chars.len() > 0 && chars[0] == '/' {
        1
    } else if chars.len() > 0 && chars[0] == '.' && (chars.len() == 1 || chars[1] == '/') {
        1
    } else {
        0
    }
}

fn start_of_component(chars: &Vec<char>, fixed: usize, end: usize) -> (start: usize)
    requires
        fixed == fixed_length(chars@),
        end <= chars@.len(),
    ensures
        start == component_start(chars@, end as int),
        start <= end,
        end >= fixed ==> start >= fixed,
{
    let mut start: usize = end;
    while start > fixed && chars[start - 1] != '/'
        invariant
            fixed == fixed_length(chars@),
            start <= end <= chars@.len(),
            end >= fixed ==> start >= fixed,
            component_start(chars@, end as int) == component_start(chars@, start as int),
        ensures
            start <= end,
            end >= fixed ==> start >= fixed,
            component_start(chars@, end as int) == component_start(chars@, start as int),
            start <= fixed || chars@[start - 1] == '/',
        decreases start,
    {
        start = start - 1;
    }
    start
}

fn end_of_significant(chars: &Vec<char>, fixed: usize, from: usize) -> (r: usize)
    requires
        fixed == fixed_length(chars@),
        from <= chars@.len(),
    ensures
        r == significant_end(chars@, from as int),
        fixed <= r <= chars@.len(),
{
    let mut end: usize = from;
    proof {
        lemma_significant_end(chars@, from as int);
    }
    while end > fixed
        invariant
            fixed == fixed_length(chars@),
            end <= from <= chars@.len(),
            significant_end(chars@, from as int) == significant_end(chars@, end as int),
            fixed <= significant_end(chars@, from as int) <= chars@.len(),
        decreases end,
    {
        let start = start_of_component(chars, fixed, end);
        if !(start == end || (end - start == 1 && chars[start] == '.')) {
            return end;
        }
        if start <= fixed {
            return fixed;
        }
        end = start - 1;
    }
    fixed
}

/// The directory that holds `path`.
pub fn parent_directory(path: &str) -> (r: Option<String>)
    ensures
        match r {
            Some(parent) => parent_of(path@) == Some(parent@),
            None => parent_of(path@) is None,
        },
{
    let chars = characters(path);
    let fixed = fixed(&chars);
    let end = end_of_significant(&chars, fixed, chars.len());
    if end > fixed {
        let start = start_of_component(&chars, fixed, end);
        if start <= fixed {
            Some(text_between(&chars, 0, fixed))
        } else {
            let parent_end = end_of_significant(&chars, fixed, start - 1);
            Some(text_between(&chars, 0, parent_end))
        }
    } else if chars.len() > 0 && chars[0] == '.' && fixed == 1 {
        Some(String::new())
    } else {
        None
    }
}

/// The last component of `path`, if it is a name.
pub fn file_name(path: &str) -> (r: Option<String>)
    ensures
        optional(r) == name_of(path@),
{
    let chars = characters(path);
    let fixed = fixed(&chars);
    let end = end_of_significant(&chars, fixed, chars.len());
    if end > fixed {
        let start = start_of_component(&chars, fixed, end);
        let component = text_between(&chars, start, end);
        if !same(component.as_str(), "..") {
            return Some(component);
        }
    }
    None
}

/// The components of a path that name something.
fn path_parts(path: &str) -> (r: Vec<String>)
    ensures
        texts(r@) == parts_of(path@),
{
    let chars = characters(path);
    let mut r: Vec<String> = Vec::new();
    let mut from: usize = 0;
    let mut more = true;
    assert(chars@.skip(0) =~= chars@);
    assert(texts(r@) + parts_of(chars@) =~= parts_of(chars@));
    while more
        invariant
            from <= chars@.len(),
            more ==> texts(r@) + parts_of(chars@.skip(from as int)) == parts_of(chars@),
            !more ==> texts(r@) == parts_of(chars@),
        decreases chars@.len() - from, more as nat,
    {
        let ghost rest = chars@.skip(from as int);
        let ghost before = texts(r@);
        let end = find_from(&chars, from, '/');
        proof {
            lemma_first_position(rest, '/');
        }
        let first = text_between(&chars, from, end);
        assert(first@ =~= rest.take(end - from));
        let ghost after = if end < chars@.len() {
            parts_of(rest.skip(end - from + 1))
        } else {
            Seq::empty()
        };
        if end > from && !same(first.as_str(), ".") {
            let ghost held = r@;
            r.push(first);
            assert(texts(r@) =~= texts(held).push(first@));
            assert(texts(r@) + after =~= before + (seq![first@] + after));
        }
        assert(texts(r@) + after == parts_of(chars@));
        if end < chars.len() {
            assert(rest.skip(end - from + 1) =~= chars@.skip(end + 1));
            from = end + 1;
        } else {
            assert(texts(r@) + after =~= texts(r@));
            more = false;
        }
    }
    r
}

/// Whether two texts are the same path.
pub fn paths_equal(a: &str, b: &str) -> (r: bool)
    ensures
        r == same_path(a@, b@),
{
    let first = characters(a);
    let second = characters(b);
    if absolute(a) != absolute(b) || fixed(&first) != fixed(&second) {
        return false;
    }
    let left = path_parts(a);
    let right = path_parts(b);
    same_texts(&left, &right)
}

} // verus!
