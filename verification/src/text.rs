//! Operations on text, stated over the characters that it is made of.

use vstd::prelude::*;
use vstd::string::*;

verus! {

// ---------------------------------------------------------------------------
// Meaning
// ---------------------------------------------------------------------------

/// The characters with the Unicode property `White_Space`.
pub open spec fn is_white_space(c: char) -> bool {
    ||| '\u{9}' <= c <= '\u{d}'
    ||| c == '\u{20}'
    ||| c == '\u{85}'
    ||| c == '\u{a0}'
    ||| c == '\u{1680}'
    ||| '\u{2000}' <= c <= '\u{200a}'
    ||| c == '\u{2028}'
    ||| c == '\u{2029}'
    ||| c == '\u{202f}'
    ||| c == '\u{205f}'
    ||| c == '\u{3000}'
}

/// The sets of characters that this crate trims from text.
#[derive(Clone, Copy)]
pub enum Trimmed {
    /// Unicode white space.
    WhiteSpace,
    /// The double quote.
    Quote,
    /// Line feed and carriage return.
    LineEnd,
}

/// Whether `c` is in the set.
pub open spec fn in_set(set: Trimmed, c: char) -> bool {
    match set {
        Trimmed::WhiteSpace => is_white_space(c),
        Trimmed::Quote => c == '"',
        Trimmed::LineEnd => c == '\r' || c == '\n',
    }
}

/// `s` without the characters of the set that it begins with.
pub open spec fn without_prefix(s: Seq<char>, set: Trimmed) -> Seq<char>
    decreases s.len(),
{
    if s.len() > 0 && in_set(set, s[0]) {
        without_prefix(s.drop_first(), set)
    } else {
        s
    }
}

/// `s` without the characters of the set that it ends with.
pub open spec fn without_suffix(s: Seq<char>, set: Trimmed) -> Seq<char>
    decreases s.len(),
{
    if s.len() > 0 && in_set(set, s.last()) {
        without_suffix(s.drop_last(), set)
    } else {
        s
    }
}

/// `s` without the characters of the set at either end.
pub open spec fn trimmed(s: Seq<char>, set: Trimmed) -> Seq<char> {
    without_suffix(without_prefix(s, set), set)
}

/// Whether every character is white space.
pub open spec fn blank(s: Seq<char>) -> bool {
    forall|i: int| 0 <= i < s.len() ==> is_white_space(#[trigger] s[i])
}

/// Whether `pattern` stands in `s` at position `at`.
pub open spec fn occurs_at(s: Seq<char>, pattern: Seq<char>, at: int) -> bool {
    &&& 0 <= at
    &&& at + pattern.len() <= s.len()
    &&& s.subrange(at, at + pattern.len()) == pattern
}

/// Whether `pattern` stands somewhere in `s`.
pub open spec fn contains(s: Seq<char>, pattern: Seq<char>) -> bool {
    exists|at: int| occurs_at(s, pattern, at)
}

/// `s` with every occurrence of `pattern` replaced by `with`, taken from the
/// left and without overlap. The empty pattern occurs before every character
/// and at the end.
pub open spec fn replaced(s: Seq<char>, pattern: Seq<char>, with: Seq<char>) -> Seq<char>
    decreases s.len(),
{
    if pattern.len() == 0 {
        if s.len() == 0 {
            with
        } else {
            with + seq![s[0]] + replaced(s.drop_first(), pattern, with)
        }
    } else if occurs_at(s, pattern, 0) {
        with + replaced(s.skip(pattern.len() as int), pattern, with)
    } else if s.len() == 0 {
        s
    } else {
        seq![s[0]] + replaced(s.drop_first(), pattern, with)
    }
}

/// The position of the first `c` in `s`, or the length of `s` where there is
/// none.
pub open spec fn first_position(s: Seq<char>, c: char) -> int
    decreases s.len(),
{
    if s.len() == 0 || s[0] == c {
        0
    } else {
        1 + first_position(s.drop_first(), c)
    }
}

/// The position of the last `c` in `s`, or -1 where there is none.
pub open spec fn last_position(s: Seq<char>, c: char) -> int
    decreases s.len(),
{
    if s.len() == 0 {
        -1
    } else if s.last() == c {
        s.len() - 1
    } else {
        last_position(s.drop_last(), c)
    }
}

/// A line without the carriage return that belongs to its line ending.
pub open spec fn without_carriage_return(line: Seq<char>) -> Seq<char> {
    if line.len() > 0 && line.last() == '\r' {
        line.drop_last()
    } else {
        line
    }
}

/// The lines of `s`. A line ends with a line feed, optionally preceded by a
/// carriage return; the ending of the last line may be missing.
pub open spec fn lines_of(s: Seq<char>) -> Seq<Seq<char>>
    decreases s.len(),
    via lines_of_decreases
{
    let end = first_position(s, '\n');
    if s.len() == 0 {
        Seq::empty()
    } else if end >= s.len() {
        seq![s]
    } else {
        seq![without_carriage_return(s.take(end))] + lines_of(s.skip(end + 1))
    }
}

#[via_fn]
proof fn lines_of_decreases(s: Seq<char>) {
    lemma_first_position(s, '\n');
}

/// The texts in order, with `separator` between neighbours.
pub open spec fn joined(texts: Seq<Seq<char>>, separator: Seq<char>) -> Seq<char>
    decreases texts.len(),
{
    if texts.len() == 0 {
        Seq::empty()
    } else if texts.len() == 1 {
        texts[0]
    } else {
        joined(texts.drop_last(), separator) + separator + texts.last()
    }
}

/// The decimal digit of `n`, for `n` below ten.
pub open spec fn digit(n: nat) -> char {
    ('0' as u32 + n) as char
}

/// `n` in decimal notation, without leading zeros.
pub open spec fn decimal_of(n: nat) -> Seq<char>
    decreases n,
{
    if n < 10 {
        seq![digit(n)]
    } else {
        decimal_of(n / 10).push(digit(n % 10))
    }
}

/// The lower-case letter for an ASCII upper-case letter, and `c` otherwise.
pub open spec fn ascii_lower(c: char) -> char {
    if 'A' <= c <= 'Z' {
        (c as u32 + 32) as char
    } else {
        c
    }
}

/// `s` with its ASCII letters in lower case.
pub open spec fn ascii_lowered(s: Seq<char>) -> Seq<char> {
    s.map_values(|c: char| ascii_lower(c))
}

/// The characters of each text.
pub open spec fn texts(v: Seq<String>) -> Seq<Seq<char>> {
    v.map_values(|s: String| s@)
}

/// The characters of a text that may be missing.
pub open spec fn optional(o: Option<String>) -> Option<Seq<char>> {
    match o {
        Some(s) => Some(s@),
        None => None,
    }
}

/// A text, or the words of a failure, as sequences of characters.
pub open spec fn text_result(r: Result<String, String>) -> Result<Seq<char>, Seq<char>> {
    match r {
        Ok(text) => Ok(text@),
        Err(reason) => Err(reason@),
    }
}

// ---------------------------------------------------------------------------
// Facts
// ---------------------------------------------------------------------------

pub proof fn lemma_first_position(s: Seq<char>, c: char)
    ensures
        0 <= first_position(s, c) <= s.len(),
        forall|i: int| 0 <= i < first_position(s, c) ==> s[i] != c,
        first_position(s, c) < s.len() ==> s[first_position(s, c)] == c,
    decreases s.len(),
{
    if s.len() != 0 && s[0] != c {
        let rest = s.drop_first();
        lemma_first_position(rest, c);
        assert forall|i: int| 0 <= i < first_position(s, c) implies s[i] != c by {
            if i > 0 {
                assert(s[i] == rest[i - 1]);
            }
        }
    }
}

pub proof fn lemma_last_position(s: Seq<char>, c: char)
    ensures
        -1 <= last_position(s, c) < s.len(),
        forall|i: int| last_position(s, c) < i < s.len() ==> s[i] != c,
        last_position(s, c) >= 0 ==> s[last_position(s, c)] == c,
    decreases s.len(),
{
    if s.len() != 0 && s.last() != c {
        let rest = s.drop_last();
        lemma_last_position(rest, c);
        assert forall|i: int| last_position(s, c) < i < s.len() implies s[i] != c by {
            if i < rest.len() {
                assert(s[i] == rest[i]);
            }
        }
    }
}

/// The first position is the only one with these properties.
pub proof fn lemma_first_position_unique(s: Seq<char>, c: char, at: int)
    requires
        0 <= at <= s.len(),
        forall|i: int| 0 <= i < at ==> s[i] != c,
        at < s.len() ==> s[at] == c,
    ensures
        first_position(s, c) == at,
{
    lemma_first_position(s, c);
    let found = first_position(s, c);
    if found < at {
        assert(s[found] != c);
    }
    if at < found {
        assert(s[at] != c);
    }
}

/// A text is blank exactly when trimming white space leaves nothing of it.
pub proof fn lemma_blank_when_trimmed_empty(s: Seq<char>)
    ensures
        blank(s) <==> trimmed(s, Trimmed::WhiteSpace).len() == 0,
    decreases s.len(),
{
    lemma_without_prefix_blank(s);
    lemma_without_suffix_blank(without_prefix(s, Trimmed::WhiteSpace));
}

proof fn lemma_without_prefix_blank(s: Seq<char>)
    ensures
        blank(s) <==> blank(without_prefix(s, Trimmed::WhiteSpace)),
    decreases s.len(),
{
    if s.len() > 0 && is_white_space(s[0]) {
        let rest = s.drop_first();
        lemma_without_prefix_blank(rest);
        if blank(rest) {
            assert forall|i: int| 0 <= i < s.len() implies is_white_space(#[trigger] s[i]) by {
                if i > 0 {
                    assert(s[i] == rest[i - 1]);
                }
            }
        }
        if blank(s) {
            assert forall|i: int| 0 <= i < rest.len() implies is_white_space(
                #[trigger] rest[i],
            ) by {
                assert(rest[i] == s[i + 1]);
            }
        }
    }
}

proof fn lemma_without_suffix_blank(s: Seq<char>)
    ensures
        blank(s) <==> without_suffix(s, Trimmed::WhiteSpace).len() == 0,
    decreases s.len(),
{
    if s.len() > 0 {
        let rest = s.drop_last();
        if is_white_space(s.last()) {
            lemma_without_suffix_blank(rest);
            if blank(rest) {
                assert forall|i: int| 0 <= i < s.len() implies is_white_space(
                    #[trigger] s[i],
                ) by {
                    if i < rest.len() {
                        assert(s[i] == rest[i]);
                    }
                }
            }
            if blank(s) {
                assert forall|i: int| 0 <= i < rest.len() implies is_white_space(
                    #[trigger] rest[i],
                ) by {
                    assert(rest[i] == s[i]);
                }
            }
        } else {
            assert(!is_white_space(s[s.len() - 1]));
        }
    }
}

/// Trimming takes away the characters of the set at both ends, and nothing else:
/// what is left is a part of the text that neither begins nor ends with one of
/// them, and all that was taken away is such characters.
pub proof fn law_trimming_takes_only_the_ends(s: Seq<char>, set: Trimmed)
    ensures
        exists|i: int, j: int|
            0 <= i <= j <= s.len() && #[trigger] s.subrange(i, j) == trimmed(s, set) && (forall|
                k: int,
            |
                0 <= k < i || j <= k < s.len() ==> in_set(set, #[trigger] s[k])),
        trimmed(s, set).len() > 0 ==> !in_set(set, trimmed(s, set)[0]) && !in_set(
            set,
            trimmed(s, set).last(),
        ),
{
    lemma_without_prefix(s, set);
    let i = s.len() - without_prefix(s, set).len();
    let rest = without_prefix(s, set);
    lemma_without_suffix(rest, set);
    let j = i + without_suffix(rest, set).len();
    assert(s.subrange(i, j) =~= trimmed(s, set));
    assert forall|k: int| 0 <= k < i || j <= k < s.len() implies in_set(set, #[trigger] s[k]) by {
        if k >= j {
            assert(s[k] == rest[k - i]);
        }
    }
}

proof fn lemma_without_prefix(s: Seq<char>, set: Trimmed)
    ensures
        without_prefix(s, set).len() <= s.len(),
        without_prefix(s, set) == s.skip(s.len() - without_prefix(s, set).len()),
        forall|k: int|
            0 <= k < s.len() - without_prefix(s, set).len() ==> in_set(set, #[trigger] s[k]),
        without_prefix(s, set).len() > 0 ==> !in_set(set, without_prefix(s, set)[0]),
    decreases s.len(),
{
    if s.len() > 0 && in_set(set, s[0]) {
        let rest = s.drop_first();
        lemma_without_prefix(rest, set);
        let n = s.len() - without_prefix(s, set).len();
        assert(rest.skip(n - 1) =~= s.skip(n));
        assert forall|k: int| 0 <= k < n implies in_set(set, #[trigger] s[k]) by {
            if k > 0 {
                assert(s[k] == rest[k - 1]);
            }
        }
    } else {
        assert(s.skip(0) =~= s);
    }
}

proof fn lemma_without_suffix(s: Seq<char>, set: Trimmed)
    ensures
        without_suffix(s, set).len() <= s.len(),
        without_suffix(s, set) == s.take(without_suffix(s, set).len() as int),
        forall|k: int|
            without_suffix(s, set).len() <= k < s.len() ==> in_set(set, #[trigger] s[k]),
        without_suffix(s, set).len() > 0 ==> !in_set(set, without_suffix(s, set).last()),
    decreases s.len(),
{
    if s.len() > 0 && in_set(set, s.last()) {
        let rest = s.drop_last();
        lemma_without_suffix(rest, set);
        let n = without_suffix(s, set).len() as int;
        assert(rest.take(n) =~= s.take(n));
        assert forall|k: int| n <= k < s.len() implies in_set(set, #[trigger] s[k]) by {
            if k < rest.len() {
                assert(s[k] == rest[k]);
            }
        }
    } else {
        assert(s.take(s.len() as int) =~= s);
    }
}

/// A line loses the characters of the set that it ends with, and nothing else.
pub proof fn law_line_ends_are_dropped(s: Seq<char>, set: Trimmed)
    ensures
        without_suffix(s, set).len() <= s.len(),
        without_suffix(s, set) == s.take(without_suffix(s, set).len() as int),
        forall|k: int|
            without_suffix(s, set).len() <= k < s.len() ==> in_set(set, #[trigger] s[k]),
        without_suffix(s, set).len() > 0 ==> !in_set(set, without_suffix(s, set).last()),
{
    lemma_without_suffix(s, set);
}

/// A text with nothing to trim at its ends stays as it is.
pub proof fn law_trimmed_text_is_not_changed(s: Seq<char>, set: Trimmed)
    requires
        s.len() > 0 ==> !in_set(set, s[0]) && !in_set(set, s.last()),
    ensures
        trimmed(s, set) == s,
{
}

/// The sets that are trimmed: white space, the double quote, and line endings.
pub proof fn law_trimmed_sets(c: char)
    ensures
        in_set(Trimmed::WhiteSpace, c) <==> is_white_space(c),
        in_set(Trimmed::Quote, c) <==> c == '"',
        in_set(Trimmed::LineEnd, c) <==> c == '\n' || c == '\r',
{
}

/// The characters that are white space, by their code points.
pub proof fn law_white_space(c: char)
    ensures
        is_white_space(c) <==> {
            let n = c as u32;
            ||| 9 <= n <= 13
            ||| n == 32
            ||| n == 0x85
            ||| n == 0xa0
            ||| n == 0x1680
            ||| 0x2000 <= n <= 0x200a
            ||| n == 0x2028
            ||| n == 0x2029
            ||| n == 0x202f
            ||| n == 0x205f
            ||| n == 0x3000
        },
{
}

/// A pattern stands in a text exactly where the text is something, the pattern,
/// and something.
pub proof fn law_what_stands_in_a_text(s: Seq<char>, pattern: Seq<char>)
    ensures
        contains(s, pattern) <==> exists|before: Seq<char>, after: Seq<char>|
            s == #[trigger] (before + pattern + after),
{
    if contains(s, pattern) {
        let at = choose|at: int| occurs_at(s, pattern, at);
        let before = s.take(at);
        let after = s.skip(at + pattern.len());
        assert(s.subrange(at, at + pattern.len()) =~= pattern);
        assert forall|i: int| 0 <= i < s.len() implies s[i] == (before + pattern + after)[i] by {
            if at <= i < at + pattern.len() {
                assert(s[i] == s.subrange(at, at + pattern.len())[i - at]);
            }
        }
        assert(s =~= before + pattern + after);
    }
    if exists|before: Seq<char>, after: Seq<char>| s == #[trigger] (before + pattern + after) {
        let (before, after) = choose|before: Seq<char>, after: Seq<char>|
            s == #[trigger] (before + pattern + after);
        lemma_contains_part(before, pattern, after);
    }
}

/// The lines of a text: a line ends with a line feed and loses one carriage return
/// before it; the last may lack its ending, and then stays as it is.
pub proof fn law_lines(line: Seq<char>, rest: Seq<char>)
    requires
        forall|i: int| 0 <= i < line.len() ==> #[trigger] line[i] != '\n',
    ensures
        lines_of(line + seq!['\n'] + rest) == seq![
            if line.len() > 0 && line.last() == '\r' {
                line.drop_last()
            } else {
                line
            },
        ] + lines_of(rest),
        line.len() > 0 ==> lines_of(line) == seq![line],
        lines_of(Seq::<char>::empty()).len() == 0,
{
    let s = line + seq!['\n'] + rest;
    let n = line.len() as int;
    assert forall|i: int| 0 <= i < n implies s[i] != '\n' by {
        assert(s[i] == line[i]);
    }
    assert(s[n] == '\n');
    lemma_first_position_unique(s, '\n', n);
    lemma_first_position_unique(line, '\n', n);
    assert(s.take(n) =~= line);
    assert(s.skip(n + 1) =~= rest);
}

/// The number that decimal digits stand for.
pub open spec fn number_in(digits: Seq<char>) -> nat
    decreases digits.len(),
{
    if digits.len() == 0 {
        0
    } else {
        number_in(digits.drop_last()) * 10 + (digits.last() as u32 - '0' as u32) as nat
    }
}

/// A number is written in decimal digits that stand for it, without a zero before
/// them unless it is zero.
pub proof fn law_decimal_notation(n: nat)
    ensures
        number_in(decimal_of(n)) == n,
        decimal_of(n).len() > 0,
        forall|i: int|
            0 <= i < decimal_of(n).len() ==> '0' <= #[trigger] decimal_of(n)[i] <= '9',
        n > 0 ==> decimal_of(n)[0] != '0',
    decreases n,
{
    if n < 10 {
        let one = decimal_of(n);
        assert(one.drop_last().len() == 0);
        assert(one.last() == digit(n));
        assert(number_in(one.drop_last()) == 0);
    } else {
        law_decimal_notation(n / 10);
        let shorter = decimal_of(n / 10);
        assert(decimal_of(n).drop_last() =~= shorter);
        assert(decimal_of(n).last() == digit(n % 10));
        assert forall|i: int| 0 <= i < decimal_of(n).len() implies '0'
            <= #[trigger] decimal_of(n)[i] <= '9' by {
            if i < shorter.len() {
                assert(decimal_of(n)[i] == shorter[i]);
            }
        }
        assert(decimal_of(n)[0] == shorter[0]);
    }
}

/// Lower case leaves every character where it is, and changes only the letters from
/// `A` to `Z`, each to the small letter at the same place of the alphabet.
pub proof fn law_lower_case(s: Seq<char>, i: int)
    requires
        0 <= i < s.len(),
    ensures
        ascii_lowered(s).len() == s.len(),
        'A' <= s[i] <= 'Z' ==> 'a' <= ascii_lowered(s)[i] <= 'z' && ascii_lowered(s)[i] as u32
            - 'a' as u32 == s[i] as u32 - 'A' as u32,
        !('A' <= s[i] <= 'Z') ==> ascii_lowered(s)[i] == s[i],
{
}

/// Replacing the empty pattern puts the replacement before every character and at
/// the end.
pub proof fn law_empty_pattern_is_everywhere(s: Seq<char>, c: char, with: Seq<char>)
    ensures
        replaced(Seq::empty(), Seq::empty(), with) == with,
        replaced(seq![c] + s, Seq::empty(), with) == with + seq![c] + replaced(
            s,
            Seq::empty(),
            with,
        ),
{
    assert((seq![c] + s).drop_first() =~= s);
}

/// Joining texts is joining some of them, then the rest, with a separator between;
/// one text alone is itself, and no text is nothing.
pub proof fn law_joined_parts(a: Seq<Seq<char>>, b: Seq<Seq<char>>, separator: Seq<char>)
    ensures
        a.len() > 0 && b.len() > 0 ==> joined(a + b, separator) == joined(a, separator) + separator
            + joined(b, separator),
        a.len() == 1 ==> joined(a, separator) == a[0],
        a.len() == 0 ==> joined(a, separator).len() == 0,
    decreases b.len(),
{
    if a.len() > 0 && b.len() > 0 {
        let rest = b.drop_last();
        assert((a + b).drop_last() =~= a + rest);
        assert((a + b).last() == b.last());
        if b.len() == 1 {
            assert(a + rest =~= a);
        } else {
            law_joined_parts(a, rest, separator);
            assert(joined(a, separator) + separator + joined(rest, separator) + separator
                + b.last() =~= joined(a, separator) + separator + (joined(rest, separator)
                + separator + b.last()));
        }
    }
}

/// What stands in a text still stands in it after more is appended.
pub proof fn lemma_contains_appended(s: Seq<char>, more: Seq<char>, pattern: Seq<char>)
    requires
        contains(s, pattern),
    ensures
        contains(s + more, pattern),
{
    let at = choose|at: int| occurs_at(s, pattern, at);
    assert((s + more).subrange(at, at + pattern.len()) =~= s.subrange(at, at + pattern.len()));
    assert(occurs_at(s + more, pattern, at));
}

/// A text contains each text that it was put together from.
pub proof fn lemma_contains_part(before: Seq<char>, part: Seq<char>, after: Seq<char>)
    ensures
        contains(before + part + after, part),
{
    let whole = before + part + after;
    assert(whole.subrange(before.len() as int, (before.len() + part.len()) as int) =~= part);
    assert(occurs_at(whole, part, before.len() as int));
}

/// What stands in a part of a text stands in the text.
pub proof fn lemma_contains_within(whole: Seq<char>, part: Seq<char>, pattern: Seq<char>)
    requires
        contains(whole, part),
        contains(part, pattern),
    ensures
        contains(whole, pattern),
{
    let i = choose|i: int| occurs_at(whole, part, i);
    let j = choose|j: int| occurs_at(part, pattern, j);
    assert(whole.subrange(i + j, i + j + pattern.len()) =~= whole.subrange(
        i,
        i + part.len(),
    ).subrange(j, j + pattern.len()));
    assert(occurs_at(whole, pattern, i + j));
}

// ---------------------------------------------------------------------------
// Operations
// ---------------------------------------------------------------------------

/// `String::push` appends the given character to the end of the string.
pub assume_specification[ String::push ](text: &mut String, ch: char)
    ensures
        final(text)@ == old(text)@.push(ch),
;

/// The characters of `text`, in order.
pub fn characters(text: &str) -> (chars: Vec<char>)
    ensures
        chars@ == text@,
{
    let mut chars: Vec<char> = Vec::new();
    for ch in it: text.chars()
        invariant
            chars@ == it.seq().take(it.index() as int),
            it.seq() == text@,
    {
        chars.push(ch);
    }
    chars
}

/// The text of the characters from `from` up to `to`.
pub fn text_between(chars: &Vec<char>, from: usize, to: usize) -> (text: String)
    requires
        from <= to <= chars@.len(),
    ensures
        text@ == chars@.subrange(from as int, to as int),
{
    let mut text = String::new();
    let mut at: usize = from;
    while at < to
        invariant
            from <= at <= to <= chars@.len(),
            text@ == chars@.subrange(from as int, at as int),
        decreases to - at,
    {
        text.push(chars[at]);
        at = at + 1;
    }
    text
}

/// Whether two texts are equal.
pub fn same(a: &str, b: &str) -> (equal: bool)
    ensures
        equal == (a@ == b@),
{
    let left = characters(a);
    let right = characters(b);
    if left.len() != right.len() {
        return false;
    }
    assert(left@.subrange(0, right@.len() as int) =~= left@);
    matches_at(&left, &right, 0)
}

/// Whether `c` is white space.
pub fn white_space(c: char) -> (r: bool)
    ensures
        r == is_white_space(c),
{
    ('\u{9}' <= c && c <= '\u{d}') || c == '\u{20}' || c == '\u{85}' || c == '\u{a0}' || c
        == '\u{1680}' || ('\u{2000}' <= c && c <= '\u{200a}') || c == '\u{2028}' || c == '\u{2029}'
        || c == '\u{202f}' || c == '\u{205f}' || c == '\u{3000}'
}

fn belongs(set: Trimmed, c: char) -> (r: bool)
    ensures
        r == in_set(set, c),
{
    match set {
        Trimmed::WhiteSpace => white_space(c),
        Trimmed::Quote => c == '"',
        Trimmed::LineEnd => c == '\r' || c == '\n',
    }
}

/// Whether every character of `text` is white space.
pub fn is_blank(text: &str) -> (r: bool)
    ensures
        r == blank(text@),
{
    let chars = characters(text);
    let mut at: usize = 0;
    while at < chars.len()
        invariant
            at <= chars@.len(),
            chars@ == text@,
            forall|i: int| 0 <= i < at ==> is_white_space(#[trigger] text@[i]),
        decreases chars@.len() - at,
    {
        if !white_space(chars[at]) {
            assert(!is_white_space(text@[at as int]));
            return false;
        }
        at = at + 1;
    }
    true
}

fn prefix_length(chars: &Vec<char>, set: Trimmed) -> (start: usize)
    ensures
        start <= chars@.len(),
        without_prefix(chars@, set) == chars@.skip(start as int),
{
    let mut start: usize = 0;
    assert(chars@.skip(0) =~= chars@);
    while start < chars.len() && belongs(set, chars[start])
        invariant
            start <= chars@.len(),
            without_prefix(chars@, set) == without_prefix(chars@.skip(start as int), set),
        ensures
            start <= chars@.len(),
            without_prefix(chars@, set) == without_prefix(chars@.skip(start as int), set),
            start < chars@.len() ==> !in_set(set, chars@[start as int]),
        decreases chars@.len() - start,
    {
        assert(chars@.skip(start as int).drop_first() =~= chars@.skip(start + 1));
        start = start + 1;
    }
    start
}

fn suffix_start(chars: &Vec<char>, start: usize, set: Trimmed) -> (end: usize)
    requires
        start <= chars@.len(),
    ensures
        start <= end <= chars@.len(),
        without_suffix(chars@.skip(start as int), set) == chars@.subrange(
            start as int,
            end as int,
        ),
{
    let mut end: usize = chars.len();
    assert(chars@.skip(start as int) =~= chars@.subrange(start as int, end as int));
    while end > start && belongs(set, chars[end - 1])
        invariant
            start <= end <= chars@.len(),
            without_suffix(chars@.skip(start as int), set) == without_suffix(
                chars@.subrange(start as int, end as int),
                set,
            ),
        ensures
            start <= end <= chars@.len(),
            without_suffix(chars@.skip(start as int), set) == without_suffix(
                chars@.subrange(start as int, end as int),
                set,
            ),
            end > start ==> !in_set(set, chars@[end - 1]),
        decreases end,
    {
        assert(chars@.subrange(start as int, end as int).drop_last() =~= chars@.subrange(
            start as int,
            end - 1,
        ));
        end = end - 1;
    }
    end
}

fn trim_both(text: &str, set: Trimmed) -> (r: String)
    ensures
        r@ == trimmed(text@, set),
{
    let chars = characters(text);
    let start = prefix_length(&chars, set);
    let end = suffix_start(&chars, start, set);
    text_between(&chars, start, end)
}

/// `text` without white space at its ends.
pub fn trim(text: &str) -> (r: String)
    ensures
        r@ == trimmed(text@, Trimmed::WhiteSpace),
{
    trim_both(text, Trimmed::WhiteSpace)
}

/// `text` without double quotes at its ends.
pub fn trim_quotes(text: &str) -> (r: String)
    ensures
        r@ == trimmed(text@, Trimmed::Quote),
{
    trim_both(text, Trimmed::Quote)
}

/// `text` without the line feeds and carriage returns that it ends with.
pub fn trim_line_end(text: &str) -> (r: String)
    ensures
        r@ == without_suffix(text@, Trimmed::LineEnd),
{
    let chars = characters(text);
    assert(chars@.skip(0) =~= chars@);
    let end = suffix_start(&chars, 0, Trimmed::LineEnd);
    text_between(&chars, 0, end)
}

/// Whether `pattern` stands in `chars` at position `at`.
pub fn matches_at(chars: &Vec<char>, pattern: &Vec<char>, at: usize) -> (r: bool)
    requires
        at <= chars@.len(),
    ensures
        r == occurs_at(chars@, pattern@, at as int),
{
    if chars.len() - at < pattern.len() {
        return false;
    }
    let mut i: usize = 0;
    while i < pattern.len()
        invariant
            at + pattern.len() <= chars.len(),
            i <= pattern.len(),
            forall|j: int| 0 <= j < i ==> chars@[at + j] == #[trigger] pattern@[j],
        decreases pattern@.len() - i,
    {
        if chars[at + i] != pattern[i] {
            assert(chars@.subrange(at as int, at + pattern@.len())[i as int] != pattern@[i as int]);
            return false;
        }
        i = i + 1;
    }
    assert(chars@.subrange(at as int, at + pattern@.len()) =~= pattern@);
    true
}

/// Whether `text` begins with `pattern`.
pub fn starts_with(text: &str, pattern: &str) -> (r: bool)
    ensures
        r == occurs_at(text@, pattern@, 0),
{
    let chars = characters(text);
    let wanted = characters(pattern);
    matches_at(&chars, &wanted, 0)
}

/// Whether `pattern` stands somewhere in `text`.
pub fn holds(text: &str, pattern: &str) -> (r: bool)
    ensures
        r == contains(text@, pattern@),
{
    let chars = characters(text);
    let wanted = characters(pattern);
    let mut at: usize = 0;
    while at < chars.len()
        invariant
            at <= chars@.len(),
            chars@ == text@,
            wanted@ == pattern@,
            forall|i: int| 0 <= i < at ==> !#[trigger] occurs_at(text@, pattern@, i),
        decreases chars@.len() - at,
    {
        if matches_at(&chars, &wanted, at) {
            return true;
        }
        at = at + 1;
    }
    matches_at(&chars, &wanted, at)
}

/// `text` with every occurrence of `pattern` replaced by `with`.
pub fn replace(text: &str, pattern: &str, with: &str) -> (r: String)
    ensures
        r@ == replaced(text@, pattern@, with@),
{
    let chars = characters(text);
    let wanted = characters(pattern);
    let mut result = String::new();
    let mut at: usize = 0;
    assert(text@.skip(0) =~= text@);
    while at < chars.len()
        invariant
            at <= chars@.len(),
            chars@ == text@,
            wanted@ == pattern@,
            result@ + replaced(text@.skip(at as int), pattern@, with@) == replaced(
                text@,
                pattern@,
                with@,
            ),
        decreases chars@.len() - at,
    {
        let ghost rest = text@.skip(at as int);
        let ghost done = result@;
        proof {
            assert(rest.drop_first() =~= text@.skip(at + 1));
            assert(rest[0] == text@[at as int]);
        }
        if wanted.len() == 0 {
            result.append(with);
            result.push(chars[at]);
            at = at + 1;
            proof {
                assert(result@ + replaced(text@.skip(at as int), pattern@, with@) =~= done + (with@
                    + seq![rest[0]] + replaced(rest.drop_first(), pattern@, with@)));
            }
        } else {
            proof {
                if at + pattern@.len() <= text@.len() {
                    assert(rest.subrange(0, pattern@.len() as int) =~= text@.subrange(
                        at as int,
                        at + pattern@.len(),
                    ));
                }
                assert(occurs_at(rest, pattern@, 0) == occurs_at(text@, pattern@, at as int));
            }
            if matches_at(&chars, &wanted, at) {
                proof {
                    assert(rest.skip(pattern@.len() as int) =~= text@.skip(at + pattern@.len()));
                }
                result.append(with);
                at = at + wanted.len();
                proof {
                    assert(result@ + replaced(text@.skip(at as int), pattern@, with@) =~= done + (
                    with@ + replaced(rest.skip(pattern@.len() as int), pattern@, with@)));
                }
            } else {
                result.push(chars[at]);
                at = at + 1;
                proof {
                    assert(result@ + replaced(text@.skip(at as int), pattern@, with@) =~= done + (
                    seq![rest[0]] + replaced(rest.drop_first(), pattern@, with@)));
                }
            }
        }
    }
    let ghost rest = text@.skip(at as int);
    assert(rest.len() == 0);
    if wanted.len() == 0 {
        result.append(with);
    } else {
        assert(replaced(rest, pattern@, with@) =~= Seq::<char>::empty());
        assert(result@ + rest =~= result@);
    }
    result
}

/// The position of the first `c` in `chars` from `from` on, or the length of
/// `chars` where there is none.
pub(crate) fn find_from(chars: &Vec<char>, from: usize, c: char) -> (at: usize)
    requires
        from <= chars@.len(),
    ensures
        from <= at <= chars@.len(),
        at == from + first_position(chars@.skip(from as int), c),
{
    let mut at: usize = from;
    while at < chars.len() && chars[at] != c
        invariant
            from <= at <= chars@.len(),
            forall|i: int| from <= i < at ==> chars@[i] != c,
        ensures
            from <= at <= chars@.len(),
            forall|i: int| from <= i < at ==> chars@[i] != c,
            at < chars@.len() ==> chars@[at as int] == c,
        decreases chars@.len() - at,
    {
        at = at + 1;
    }
    proof {
        lemma_first_position_unique(chars@.skip(from as int), c, at - from);
    }
    at
}

/// The position of the first `c` in `chars`, or the length of `chars` where
/// there is none.
pub fn find(chars: &Vec<char>, c: char) -> (at: usize)
    ensures
        at == first_position(chars@, c),
{
    assert(chars@.skip(0) =~= chars@);
    find_from(chars, 0, c)
}

/// The position after the last `c` in `chars`, or zero where there is none.
pub fn find_last_end(chars: &Vec<char>, c: char) -> (end: usize)
    ensures
        end == last_position(chars@, c) + 1,
{
    let mut end: usize = chars.len();
    while end > 0 && chars[end - 1] != c
        invariant
            end <= chars@.len(),
            forall|i: int| end <= i < chars@.len() ==> chars@[i] != c,
        ensures
            end <= chars@.len(),
            forall|i: int| end <= i < chars@.len() ==> chars@[i] != c,
            end > 0 ==> chars@[end - 1] == c,
        decreases end,
    {
        end = end - 1;
    }
    proof {
        lemma_last_position(chars@, c);
        let last = last_position(chars@, c);
        if last + 1 < end {
            assert(chars@[end - 1] != c);
        }
        if last >= end {
            assert(chars@[last] != c);
        }
    }
    end
}

/// The lines of `text`.
pub fn lines(text: &str) -> (r: Vec<String>)
    ensures
        texts(r@) == lines_of(text@),
{
    let chars = characters(text);
    let mut result: Vec<String> = Vec::new();
    let mut at: usize = 0;
    assert(text@.skip(0) =~= text@);
    assert(texts(result@) =~= Seq::<Seq<char>>::empty());
    assert(texts(result@) + lines_of(text@) =~= lines_of(text@));
    while at < chars.len()
        invariant
            at <= chars@.len(),
            chars@ == text@,
            texts(result@) + lines_of(text@.skip(at as int)) == lines_of(text@),
        decreases chars@.len() - at,
    {
        let ghost rest = text@.skip(at as int);
        let ghost done = result@;
        let end = find_from(&chars, at, '\n');
        if end == chars.len() {
            let line = text_between(&chars, at, end);
            assert(line@ =~= rest);
            result.push(line);
            at = end;
            proof {
                assert(texts(result@) =~= texts(done) + seq![rest]);
                assert(text@.skip(at as int) =~= Seq::<char>::empty());
                assert(lines_of(text@.skip(at as int)) =~= Seq::<Seq<char>>::empty());
                assert(texts(result@) + lines_of(text@.skip(at as int)) =~= texts(done)
                    + lines_of(rest));
            }
        } else {
            let ghost line_text = rest.take(end - at);
            let last = if end > at && chars[end - 1] == '\r' {
                end - 1
            } else {
                end
            };
            let line = text_between(&chars, at, last);
            proof {
                assert(line@ =~= without_carriage_return(line_text));
            }
            result.push(line);
            proof {
                assert(rest.skip(end - at + 1) =~= text@.skip(end + 1));
                assert(texts(result@) =~= texts(done) + seq![without_carriage_return(line_text)]);
                assert(texts(result@) + lines_of(text@.skip(end + 1)) =~= texts(done) + (
                seq![without_carriage_return(line_text)] + lines_of(text@.skip(end + 1))));
            }
            at = end + 1;
        }
    }
    proof {
        assert(text@.skip(at as int) =~= Seq::<char>::empty());
        assert(texts(result@) + lines_of(text@.skip(at as int)) =~= texts(result@));
    }
    result
}

/// The texts in order, with `separator` between neighbours.
pub fn join(parts: &Vec<String>, separator: &str) -> (r: String)
    ensures
        r@ == joined(texts(parts@), separator@),
{
    let mut result = String::new();
    let mut at: usize = 0;
    let ghost all = texts(parts@);
    while at < parts.len()
        invariant
            at <= parts@.len(),
            all == texts(parts@),
            result@ == joined(all.take(at as int), separator@),
        decreases parts@.len() - at,
    {
        proof {
            assert(all.take(at + 1).drop_last() =~= all.take(at as int));
            assert(all.take(at + 1).last() == parts@[at as int]@);
        }
        if at > 0 {
            result.append(separator);
            result.append(parts[at].as_str());
        } else {
            result.append(parts[at].as_str());
            assert(result@ =~= parts@[0]@);
        }
        at = at + 1;
    }
    assert(all.take(at as int) =~= all);
    result
}

/// `n` in decimal notation.
pub fn decimal(n: u128) -> (r: String)
    ensures
        r@ == decimal_of(n as nat),
    decreases n,
{
    if n < 10 {
        let mut result = String::new();
        result.push(digit_char((n % 10) as u8));
        assert(result@ =~= seq![digit(n as nat)]);
        result
    } else {
        let mut result = decimal(n / 10);
        result.push(digit_char((n % 10) as u8));
        result
    }
}

fn digit_char(n: u8) -> (c: char)
    requires
        n < 10,
    ensures
        c == digit(n as nat),
{
    (48 + n) as char
}

/// `text` with its ASCII letters in lower case.
pub fn to_ascii_lower(text: &str) -> (r: String)
    ensures
        r@ == ascii_lowered(text@),
{
    let chars = characters(text);
    let mut result = String::new();
    let mut at: usize = 0;
    while at < chars.len()
        invariant
            at <= chars@.len(),
            chars@ == text@,
            result@ == ascii_lowered(text@).take(at as int),
        decreases chars@.len() - at,
    {
        let c = chars[at];
        if 'A' <= c && c <= 'Z' {
            let code = c as u8;
            result.push((code + 32) as char);
        } else {
            result.push(c);
        }
        at = at + 1;
        assert(ascii_lowered(text@).take(at as int) =~= ascii_lowered(text@).take(at - 1).push(
            ascii_lower(text@[at - 1]),
        ));
    }
    assert(ascii_lowered(text@).take(at as int) =~= ascii_lowered(text@));
    result
}

/// A copy of a list of texts.
pub fn copy_texts(v: &Vec<String>) -> (r: Vec<String>)
    ensures
        r@ == v@,
        texts(r@) == texts(v@),
{
    let mut result: Vec<String> = Vec::new();
    let mut at: usize = 0;
    while at < v.len()
        invariant
            at <= v@.len(),
            result@ == v@.take(at as int),
        decreases v@.len() - at,
    {
        result.push(v[at].clone());
        at = at + 1;
    }
    result
}

/// Whether two lists hold the same texts in the same order.
pub fn same_texts(a: &Vec<String>, b: &Vec<String>) -> (r: bool)
    ensures
        r == (texts(a@) == texts(b@)),
{
    if a.len() != b.len() {
        assert(texts(a@).len() != texts(b@).len());
        return false;
    }
    let mut at: usize = 0;
    while at < a.len()
        invariant
            a@.len() == b@.len(),
            at <= a@.len(),
            forall|i: int| 0 <= i < at ==> a@[i]@ == b@[i]@,
        decreases a@.len() - at,
    {
        if !same(a[at].as_str(), b[at].as_str()) {
            assert(texts(a@)[at as int] != texts(b@)[at as int]);
            return false;
        }
        at = at + 1;
    }
    assert(texts(a@) =~= texts(b@));
    true
}

} // verus!
