//! The rows of a generated document: how they are written, and how they are read.
//!
//! Only so much of YAML is covered as generated documents need: mappings and
//! lists by indentation, text in double quotes, and literal blocks.

use vstd::prelude::*;
use vstd::string::*;

use crate::text::{
    characters, contains, first_position, lemma_contains_part, lemma_contains_within,
    lemma_first_position, lemma_first_position_unique, lines_of, without_carriage_return,
};

verus! {

/// A row of a document.
#[derive(Debug)]
pub enum Row {
    /// An empty line.
    Blank,
    /// A key whose value follows on the next rows.
    Section { indent: usize, key: String },
    /// A key with a text in quotes. An item begins an entry of a list.
    Quoted { indent: usize, item: bool, key: String, value: String },
    /// A key with a value as it stands; `|` opens a literal block.
    Bare { indent: usize, key: String, value: String },
    /// An entry of a list: a text in quotes.
    Entry { indent: usize, value: String },
    /// A line of a literal block.
    Text { indent: usize, text: String },
}

/// A [`Row`] with its texts as sequences of characters.
pub ghost enum RowView {
    Blank,
    Section { indent: nat, key: Seq<char> },
    Quoted { indent: nat, item: bool, key: Seq<char>, value: Seq<char> },
    Bare { indent: nat, key: Seq<char>, value: Seq<char> },
    Entry { indent: nat, value: Seq<char> },
    Text { indent: nat, text: Seq<char> },
}

impl View for Row {
    type V = RowView;

    open spec fn view(&self) -> RowView {
        match self {
            Row::Blank => RowView::Blank,
            Row::Section { indent, key } => RowView::Section { indent: *indent as nat, key: key@ },
            Row::Quoted { indent, item, key, value } => RowView::Quoted {
                indent: *indent as nat,
                item: *item,
                key: key@,
                value: value@,
            },
            Row::Bare { indent, key, value } => RowView::Bare {
                indent: *indent as nat,
                key: key@,
                value: value@,
            },
            Row::Entry { indent, value } => RowView::Entry {
                indent: *indent as nat,
                value: value@,
            },
            Row::Text { indent, text } => RowView::Text { indent: *indent as nat, text: text@ },
        }
    }
}

/// The rows with their texts as sequences of characters.
pub open spec fn row_views(rows: Seq<Row>) -> Seq<RowView> {
    rows.map_values(|row: Row| row@)
}

// ---------------------------------------------------------------------------
// Quoting
// ---------------------------------------------------------------------------

/// A character as it is written between double quotes.
pub open spec fn escaped(c: char) -> Seq<char> {
    if c == '\\' {
        seq!['\\', '\\']
    } else if c == '"' {
        seq!['\\', '"']
    } else if c == '\n' {
        seq!['\\', 'n']
    } else if c == '\r' {
        seq!['\\', 'r']
    } else if c == '\t' {
        seq!['\\', 't']
    } else {
        seq![c]
    }
}

/// A text as it is written between double quotes.
pub open spec fn sanitized(value: Seq<char>) -> Seq<char>
    decreases value.len(),
{
    if value.len() == 0 {
        Seq::empty()
    } else {
        sanitized(value.drop_last()) + escaped(value.last())
    }
}

/// The character that a backslash and `c` stand for between double quotes.
pub open spec fn meant(c: char) -> Option<char> {
    if c == '\\' || c == '"' {
        Some(c)
    } else if c == 'n' {
        Some('\n')
    } else if c == 'r' {
        Some('\r')
    } else if c == 't' {
        Some('\t')
    } else {
        None
    }
}

/// What a text between double quotes says, as YAML has it: a backslash starts
/// an escape. Nothing, where a quote ends the scalar early, where the text goes
/// over the end of the line or where an escape is unknown.
pub open spec fn read_back(text: Seq<char>) -> Option<Seq<char>>
    decreases text.len(),
{
    if text.len() == 0 {
        Some(Seq::empty())
    } else if text[0] == '\\' {
        if text.len() == 1 {
            None
        } else {
            match (meant(text[1]), read_back(text.skip(2))) {
                (Some(c), Some(rest)) => Some(seq![c] + rest),
                _ => None,
            }
        }
    } else if text[0] == '"' || text[0] == '\n' || text[0] == '\r' {
        None
    } else {
        match read_back(text.skip(1)) {
            Some(rest) => Some(seq![text[0]] + rest),
            None => None,
        }
    }
}

proof fn lemma_read_back_escaped(value: Seq<char>, rest: Seq<char>)
    ensures
        read_back(rest) matches Some(more) ==> read_back(sanitized(value) + rest) == Some(
            value + more,
        ),
    decreases value.len(),
{
    if let Some(more) = read_back(rest) {
        if value.len() == 0 {
            assert(sanitized(value) + rest =~= rest);
            assert(value + more =~= more);
        } else {
            let c = value.last();
            let tail = escaped(c) + rest;
            assert(sanitized(value) + rest =~= sanitized(value.drop_last()) + tail);
            assert(tail.skip(escaped(c).len() as int) =~= rest);
            assert(read_back(tail) == Some(seq![c] + more));
            lemma_read_back_escaped(value.drop_last(), tail);
            assert(value.drop_last() + (seq![c] + more) =~= value + more);
        }
    }
}

/// A text that was written between double quotes is read back as it was: it
/// neither ends the scalar nor the line.
pub proof fn law_quoted_text_is_read_back(value: Seq<char>)
    ensures
        read_back(sanitized(value)) == Some(value),
{
    lemma_read_back_escaped(value, Seq::empty());
    assert(sanitized(value) + Seq::<char>::empty() =~= sanitized(value));
    assert(value + Seq::<char>::empty() =~= value);
}

/// Text without special characters is written as it is.
pub proof fn law_plain_text_is_not_changed(value: Seq<char>)
    requires
        forall|i: int| 0 <= i < value.len() ==> escaped(#[trigger] value[i]) == seq![value[i]],
    ensures
        sanitized(value) == value,
    decreases value.len(),
{
    if value.len() > 0 {
        let rest = value.drop_last();
        assert forall|i: int| 0 <= i < rest.len() implies escaped(#[trigger] rest[i]) == seq![
            rest[i],
        ] by {
            assert(rest[i] == value[i]);
        }
        law_plain_text_is_not_changed(rest);
        assert(escaped(value[value.len() - 1]) == seq![value[value.len() - 1]]);
        assert(rest + seq![value.last()] =~= value);
    }
}

/// A text is written between double quotes character by character: a backslash and a
/// quote get a backslash before them; a line feed, a carriage return and a tab become
/// a backslash and a letter; any other stays as it is.
pub proof fn law_escapes(a: Seq<char>, b: Seq<char>, c: char)
    ensures
        sanitized(a + b) == sanitized(a) + sanitized(b),
        sanitized(Seq::<char>::empty()).len() == 0,
        sanitized(seq!['\\']) == seq!['\\', '\\'],
        sanitized(seq!['"']) == seq!['\\', '"'],
        sanitized(seq!['\n']) == seq!['\\', 'n'],
        sanitized(seq!['\r']) == seq!['\\', 'r'],
        sanitized(seq!['\t']) == seq!['\\', 't'],
        c != '\\' && c != '"' && c != '\n' && c != '\r' && c != '\t' ==> sanitized(seq![c])
            == seq![c],
    decreases b.len(),
{
    lemma_sanitized_one('\\');
    lemma_sanitized_one('"');
    lemma_sanitized_one('\n');
    lemma_sanitized_one('\r');
    lemma_sanitized_one('\t');
    lemma_sanitized_one(c);
    if b.len() == 0 {
        assert(a + b =~= a);
        assert(sanitized(a) + sanitized(b) =~= sanitized(a));
    } else {
        law_escapes(a, b.drop_last(), c);
        assert((a + b).drop_last() =~= a + b.drop_last());
        assert(sanitized(a + b) =~= sanitized(a) + sanitized(b));
    }
}

proof fn lemma_sanitized_one(c: char)
    ensures
        sanitized(seq![c]) == escaped(c),
{
    assert(seq![c].drop_last() =~= Seq::<char>::empty());
    assert(sanitized(seq![c].drop_last()) =~= Seq::<char>::empty());
    assert(Seq::<char>::empty() + escaped(c) =~= escaped(c));
}

/// A text as it is written between double quotes.
pub fn sanitize_yaml_scalar(value: &str) -> (r: String)
    ensures
        r@ == sanitized(value@),
{
    let chars = characters(value);
    let mut r = String::new();
    let mut at: usize = 0;
    while at < chars.len()
        invariant
            at <= chars@.len(),
            r@ == sanitized(chars@.take(at as int)),
        decreases chars@.len() - at,
    {
        let c = chars[at];
        let ghost before = r@;
        if c == '\\' {
            r.push('\\');
            r.push('\\');
        } else if c == '"' {
            r.push('\\');
            r.push('"');
        } else if c == '\n' {
            r.push('\\');
            r.push('n');
        } else if c == '\r' {
            r.push('\\');
            r.push('r');
        } else if c == '\t' {
            r.push('\\');
            r.push('t');
        } else {
            r.push(c);
        }
        assert(r@ =~= before + escaped(c));
        assert(chars@.take(at + 1).drop_last() =~= chars@.take(at as int));
        at = at + 1;
    }
    assert(chars@.take(at as int) =~= chars@);
    r
}

// ---------------------------------------------------------------------------
// Writing
// ---------------------------------------------------------------------------

/// So many spaces.
pub open spec fn spaces(n: nat) -> Seq<char> {
    Seq::new(n, |i: int| ' ')
}

/// A row as it is written.
pub open spec fn row_text(row: RowView) -> Seq<char> {
    match row {
        RowView::Blank => Seq::empty(),
        RowView::Section { indent, key } => spaces(indent) + (key + ":"@),
        RowView::Quoted { indent, item, key, value } => spaces(indent) + ((if item {
            "- "@
        } else {
            Seq::empty()
        }) + (key + ": "@ + ("\""@ + sanitized(value) + "\""@))),
        RowView::Bare { indent, key, value } => spaces(indent) + (key + ": "@ + value),
        RowView::Entry { indent, value } => spaces(indent) + ("- "@ + ("\""@ + sanitized(value)
            + "\""@)),
        RowView::Text { indent, text } => spaces(indent) + text,
    }
}

/// A document as it is written: each row ends with a line feed.
pub open spec fn rows_text(rows: Seq<RowView>) -> Seq<char>
    decreases rows.len(),
{
    if rows.len() == 0 {
        Seq::empty()
    } else {
        row_text(rows[0]) + "\n"@ + rows_text(rows.drop_first())
    }
}

/// A document is written row by row, each with its line feed; what a row says stands
/// behind its spaces.
pub proof fn law_documents_are_written_by_rows(
    a: Seq<RowView>,
    b: Seq<RowView>,
    row: RowView,
    n: nat,
)
    ensures
        rows_text(a + b) == rows_text(a) + rows_text(b),
        rows_text(seq![row]) == row_text(row) + "\n"@,
        rows_text(Seq::<RowView>::empty()).len() == 0,
        row_text(RowView::Blank).len() == 0,
        spaces(n).len() == n && forall|i: int| 0 <= i < n ==> #[trigger] spaces(n)[i] == ' ',
        row matches RowView::Section { indent, key } ==> row_text(row) == spaces(indent) + (key
            + ":"@),
        row matches RowView::Quoted { indent, item, key, value } ==> {
            let pair = key + ": "@ + ("\""@ + sanitized(value) + "\""@);
            &&& item ==> row_text(row) == spaces(indent) + ("- "@ + pair)
            &&& !item ==> row_text(row) == spaces(indent) + pair
        },
        row matches RowView::Bare { indent, key, value } ==> row_text(row) == spaces(indent) + (key
            + ": "@ + value),
        row matches RowView::Entry { indent, value } ==> row_text(row) == spaces(indent) + ("- "@
            + ("\""@ + sanitized(value) + "\""@)),
        row matches RowView::Text { indent, text } ==> row_text(row) == spaces(indent) + text,
    decreases a.len(),
{
    let one = seq![row];
    assert(one.drop_first() =~= Seq::<RowView>::empty());
    assert(rows_text(one.drop_first()) =~= Seq::<char>::empty());
    assert(rows_text(one) =~= row_text(row) + "\n"@);
    if let RowView::Quoted { key, value, .. } = row {
        let pair = key + ": "@ + ("\""@ + sanitized(value) + "\""@);
        assert(Seq::<char>::empty() + pair =~= pair);
    }
    if a.len() == 0 {
        assert(a + b =~= b);
        assert(rows_text(a) + rows_text(b) =~= rows_text(b));
    } else {
        law_documents_are_written_by_rows(a.drop_first(), b, row, n);
        assert((a + b).drop_first() =~= a.drop_first() + b);
        assert(rows_text(a + b) =~= rows_text(a) + rows_text(b));
    }
}

/// So many spaces.
fn write_spaces(n: usize) -> (r: String)
    ensures
        r@ == spaces(n as nat),
{
    let mut r = String::new();
    let mut at: usize = 0;
    while at < n
        invariant
            at <= n,
            r@ == spaces(at as nat),
        decreases n - at,
    {
        r.push(' ');
        at = at + 1;
        assert(r@ =~= spaces(at as nat));
    }
    r
}

/// A text in quotes.
fn write_quoted(value: &str) -> (r: String)
    ensures
        r@ == "\""@ + sanitized(value@) + "\""@,
{
    "\"".to_owned().concat(sanitize_yaml_scalar(value).as_str()).concat("\"")
}

/// A row as it is written.
fn write_row(row: &Row) -> (r: String)
    ensures
        r@ == row_text(row@),
{
    match row {
        Row::Blank => String::new(),
        Row::Section { indent, key } => write_spaces(*indent).concat(
            key.clone().concat(":").as_str(),
        ),
        Row::Quoted { indent, item, key, value } => {
            let pair = key.clone().concat(": ").concat(write_quoted(value.as_str()).as_str());
            if *item {
                write_spaces(*indent).concat("- ".to_owned().concat(pair.as_str()).as_str())
            } else {
                assert(Seq::<char>::empty() + pair@ =~= pair@);
                write_spaces(*indent).concat(pair.as_str())
            }
        },
        Row::Bare { indent, key, value } => write_spaces(*indent).concat(
            key.clone().concat(": ").concat(value.as_str()).as_str(),
        ),
        Row::Entry { indent, value } => write_spaces(*indent).concat(
            "- ".to_owned().concat(write_quoted(value.as_str()).as_str()).as_str(),
        ),
        Row::Text { indent, text } => write_spaces(*indent).concat(text.as_str()),
    }
}

/// A document as it is written.
pub fn write_rows(rows: &Vec<Row>) -> (r: String)
    ensures
        r@ == rows_text(row_views(rows@)),
{
    let ghost all = row_views(rows@);
    let mut r = String::new();
    let mut at: usize = 0;
    assert(all.skip(0) =~= all);
    assert(r@ + rows_text(all) =~= rows_text(all));
    while at < rows.len()
        invariant
            at <= rows@.len(),
            all == row_views(rows@),
            r@ + rows_text(all.skip(at as int)) == rows_text(all),
        decreases rows@.len() - at,
    {
        let ghost before = r@;
        let ghost rest = all.skip(at as int);
        let line = write_row(&rows[at]);
        r = r.concat(line.as_str()).concat("\n");
        assert(rest[0] == rows@[at as int]@);
        assert(rest.drop_first() =~= all.skip(at + 1));
        assert(r@ + rows_text(rest.drop_first()) =~= before + (line@ + "\n"@ + rows_text(
            rest.drop_first(),
        )));
        at = at + 1;
    }
    assert(r@ + rows_text(all.skip(at as int)) =~= r@);
    r
}

/// Adds a blank row.
pub fn push_blank(rows: &mut Vec<Row>)
    ensures
        row_views(final(rows)@) == row_views(old(rows)@).push(RowView::Blank),
{
    rows.push(Row::Blank);
    assert(row_views(rows@) =~= row_views(old(rows)@).push(RowView::Blank));
}

/// Adds a key whose value follows.
pub fn push_section(rows: &mut Vec<Row>, indent: usize, key: &str)
    ensures
        row_views(final(rows)@) == row_views(old(rows)@).push(
            RowView::Section { indent: indent as nat, key: key@ },
        ),
{
    rows.push(Row::Section { indent, key: key.to_owned() });
    assert(row_views(rows@) =~= row_views(old(rows)@).push(
        RowView::Section { indent: indent as nat, key: key@ },
    ));
}

/// Adds a key with a text in quotes.
pub fn push_quoted(rows: &mut Vec<Row>, indent: usize, key: &str, value: &str)
    ensures
        row_views(final(rows)@) == row_views(old(rows)@).push(
            RowView::Quoted { indent: indent as nat, item: false, key: key@, value: value@ },
        ),
{
    rows.push(Row::Quoted { indent, item: false, key: key.to_owned(), value: value.to_owned() });
    assert(row_views(rows@) =~= row_views(old(rows)@).push(
        RowView::Quoted { indent: indent as nat, item: false, key: key@, value: value@ },
    ));
}

/// Adds a key with a text in quotes that begins an entry of a list.
pub fn push_item(rows: &mut Vec<Row>, indent: usize, key: &str, value: &str)
    ensures
        row_views(final(rows)@) == row_views(old(rows)@).push(
            RowView::Quoted { indent: indent as nat, item: true, key: key@, value: value@ },
        ),
{
    rows.push(Row::Quoted { indent, item: true, key: key.to_owned(), value: value.to_owned() });
    assert(row_views(rows@) =~= row_views(old(rows)@).push(
        RowView::Quoted { indent: indent as nat, item: true, key: key@, value: value@ },
    ));
}

/// Adds a key with a value as it stands.
pub fn push_bare(rows: &mut Vec<Row>, indent: usize, key: &str, value: &str)
    ensures
        row_views(final(rows)@) == row_views(old(rows)@).push(
            RowView::Bare { indent: indent as nat, key: key@, value: value@ },
        ),
{
    rows.push(Row::Bare { indent, key: key.to_owned(), value: value.to_owned() });
    assert(row_views(rows@) =~= row_views(old(rows)@).push(
        RowView::Bare { indent: indent as nat, key: key@, value: value@ },
    ));
}

/// Adds an entry of a list.
pub fn push_entry(rows: &mut Vec<Row>, indent: usize, value: &str)
    ensures
        row_views(final(rows)@) == row_views(old(rows)@).push(
            RowView::Entry { indent: indent as nat, value: value@ },
        ),
{
    rows.push(Row::Entry { indent, value: value.to_owned() });
    assert(row_views(rows@) =~= row_views(old(rows)@).push(
        RowView::Entry { indent: indent as nat, value: value@ },
    ));
}

/// Adds a line of a literal block.
pub fn push_text(rows: &mut Vec<Row>, indent: usize, text: &str)
    ensures
        row_views(final(rows)@) == row_views(old(rows)@).push(
            RowView::Text { indent: indent as nat, text: text@ },
        ),
{
    rows.push(Row::Text { indent, text: text.to_owned() });
    assert(row_views(rows@) =~= row_views(old(rows)@).push(
        RowView::Text { indent: indent as nat, text: text@ },
    ));
}

/// Adds further rows.
pub fn push_all(rows: &mut Vec<Row>, more: Vec<Row>)
    ensures
        row_views(final(rows)@) == row_views(old(rows)@) + row_views(more@),
{
    let mut more = more;
    let ghost added = more@;
    rows.append(&mut more);
    assert(row_views(rows@) =~= row_views(old(rows)@) + row_views(added));
}

// ---------------------------------------------------------------------------
// Reading
// ---------------------------------------------------------------------------

/// How many spaces a line begins with.
pub open spec fn indent_of(line: Seq<char>) -> nat
    decreases line.len(),
{
    if line.len() > 0 && line[0] == ' ' {
        1 + indent_of(line.drop_first())
    } else {
        0
    }
}

/// The text that stands in quotes.
pub open spec fn scalar(text: Seq<char>) -> Option<Seq<char>> {
    if text.len() >= 2 && text[0] == '"' && text.last() == '"' {
        read_back(text.subrange(1, text.len() - 1))
    } else {
        None
    }
}

/// A key with its value, if it has one.
pub open spec fn pair_of(indent: nat, item: bool, pair: Seq<char>) -> Option<RowView> {
    let at = first_position(pair, ':');
    let key = pair.take(at);
    let after = pair.skip(at + 1);
    let value = after.skip(1);
    if at >= pair.len() {
        None
    } else if after.len() == 0 {
        if item {
            None
        } else {
            Some(RowView::Section { indent, key })
        }
    } else if after[0] != ' ' {
        None
    } else if value.len() > 0 && value[0] == '"' {
        match scalar(value) {
            Some(value) => Some(RowView::Quoted { indent, item, key, value }),
            None => None,
        }
    } else if item {
        None
    } else {
        Some(RowView::Bare { indent, key, value })
    }
}

/// What a line outside of a literal block says.
pub open spec fn row_of(line: Seq<char>) -> Option<RowView> {
    let indent = indent_of(line);
    let body = line.skip(indent as int);
    if line.len() == 0 {
        Some(RowView::Blank)
    } else if body.len() >= 2 && body[0] == '-' && body[1] == ' ' {
        let entry = body.skip(2);
        if entry.len() > 0 && entry[0] == '"' {
            match scalar(entry) {
                Some(value) => Some(RowView::Entry { indent, value }),
                None => None,
            }
        } else {
            pair_of(indent, true, entry)
        }
    } else {
        pair_of(indent, false, body)
    }
}

/// The indentation of the key whose literal block is open after a row, if one
/// is.
pub open spec fn block_after(row: RowView, block: Option<nat>) -> Option<nat> {
    match row {
        RowView::Blank => block,
        RowView::Text { .. } => block,
        RowView::Bare { indent, value, .. } => if value == "|"@ {
            Some(indent)
        } else {
            None
        },
        _ => None,
    }
}

/// What a line says. The lines of a literal block are indented by two more than
/// its key.
pub open spec fn line_row(line: Seq<char>, block: Option<nat>) -> Option<RowView> {
    match block {
        Some(indent) => if indent_of(line) >= indent + 2 {
            Some(RowView::Text { indent: indent + 2, text: line.skip((indent + 2) as int) })
        } else {
            row_of(line)
        },
        None => row_of(line),
    }
}

/// What lines say.
pub open spec fn rows_of(lines: Seq<Seq<char>>, block: Option<nat>) -> Option<Seq<RowView>>
    decreases lines.len(),
{
    if lines.len() == 0 {
        Some(Seq::empty())
    } else {
        match line_row(lines[0], block) {
            Some(row) => match rows_of(lines.drop_first(), block_after(row, block)) {
                Some(rest) => Some(seq![row] + rest),
                None => None,
            },
            None => None,
        }
    }
}

/// The rows of a document.
pub open spec fn read_rows(text: Seq<char>) -> Option<Seq<RowView>> {
    rows_of(lines_of(text), None)
}

/// Whether a text stays on its line.
pub open spec fn single_line(text: Seq<char>) -> bool {
    forall|i: int| 0 <= i < text.len() ==> #[trigger] text[i] != '\n' && text[i] != '\r'
}

/// Whether the lines of a text can be those of a literal block: no carriage
/// return ends one early, and no space stands before the first, by which the
/// indentation of the block is told.
pub open spec fn block_text(text: Seq<char>) -> bool {
    &&& forall|i: int| 0 <= i < text.len() ==> #[trigger] text[i] != '\r'
    &&& text.len() > 0 ==> text[0] != ' '
}

/// Whether a text can be a key.
pub open spec fn plain_key(key: Seq<char>) -> bool {
    &&& key.len() > 0
    &&& key[0] != ' ' && key[0] != '-'
    &&& key[0] != '"'
    &&& single_line(key)
    &&& forall|i: int| 0 <= i < key.len() ==> #[trigger] key[i] != ':'
}

/// How far a row is indented.
pub open spec fn row_indent(row: RowView) -> nat {
    match row {
        RowView::Blank => 0,
        RowView::Section { indent, .. } => indent,
        RowView::Quoted { indent, .. } => indent,
        RowView::Bare { indent, .. } => indent,
        RowView::Entry { indent, .. } => indent,
        RowView::Text { indent, .. } => indent,
    }
}

/// Whether a row makes sense where a literal block is open or not.
pub open spec fn row_fits(row: RowView, block: Option<nat>) -> bool {
    &&& match row {
        RowView::Blank => true,
        RowView::Section { key, .. } => plain_key(key),
        RowView::Quoted { key, .. } => plain_key(key),
        RowView::Bare { key, value, .. } => plain_key(key) && single_line(value) && value.len() > 0
            && value[0] != '"',
        RowView::Entry { .. } => true,
        RowView::Text { text, .. } => single_line(text),
    }
    &&& match block {
        Some(indent) => if row is Text {
            row_indent(row) == indent + 2
        } else {
            row_indent(row) < indent + 2
        },
        None => !(row is Text),
    }
}

/// Whether each of the rows makes sense where it stands.
pub open spec fn rows_fit(rows: Seq<RowView>, block: Option<nat>) -> bool
    decreases rows.len(),
{
    rows.len() == 0 || (row_fits(rows[0], block) && rows_fit(
        rows.drop_first(),
        block_after(rows[0], block),
    ))
}

/// The indentation of the key whose literal block is open after the rows.
pub open spec fn block_after_all(rows: Seq<RowView>, block: Option<nat>) -> Option<nat>
    decreases rows.len(),
{
    if rows.len() == 0 {
        block
    } else {
        block_after_all(rows.drop_first(), block_after(rows[0], block))
    }
}

/// Rows make sense after others that do.
pub proof fn lemma_rows_fit_appended(a: Seq<RowView>, b: Seq<RowView>, block: Option<nat>)
    ensures
        rows_fit(a + b, block) <==> rows_fit(a, block) && rows_fit(b, block_after_all(a, block)),
        block_after_all(a + b, block) == block_after_all(b, block_after_all(a, block)),
    decreases a.len(),
{
    if a.len() == 0 {
        assert(a + b =~= b);
    } else {
        assert((a + b).drop_first() =~= a.drop_first() + b);
        lemma_rows_fit_appended(a.drop_first(), b, block_after(a[0], block));
    }
}

proof fn lemma_indent(n: nat, body: Seq<char>)
    requires
        body.len() > 0 ==> body[0] != ' ',
    ensures
        indent_of(spaces(n) + body) == n,
        (spaces(n) + body).skip(n as int) == body,
    decreases n,
{
    assert((spaces(n) + body).skip(n as int) =~= body);
    if n == 0 {
        assert(spaces(n) + body =~= body);
    } else {
        assert((spaces(n) + body).drop_first() =~= spaces((n - 1) as nat) + body);
        lemma_indent((n - 1) as nat, body);
    }
}

proof fn lemma_indent_of_text(n: nat, text: Seq<char>)
    ensures
        indent_of(spaces(n) + text) >= n,
        (spaces(n) + text).skip(n as int) == text,
    decreases n,
{
    assert((spaces(n) + text).skip(n as int) =~= text);
    if n > 0 {
        assert((spaces(n) + text).drop_first() =~= spaces((n - 1) as nat) + text);
        lemma_indent_of_text((n - 1) as nat, text);
    }
}

/// A text between double quotes stays on its line.
pub proof fn lemma_sanitized_single_line(value: Seq<char>)
    ensures
        single_line(sanitized(value)),
    decreases value.len(),
{
    if value.len() > 0 {
        lemma_sanitized_single_line(value.drop_last());
        lemma_single_line_appended(sanitized(value.drop_last()), escaped(value.last()));
    }
}

/// Texts that stay on their line do so together.
pub proof fn lemma_single_line_appended(a: Seq<char>, b: Seq<char>)
    ensures
        single_line(a) && single_line(b) ==> single_line(a + b),
{
    if single_line(a) && single_line(b) {
        assert forall|i: int| 0 <= i < (a + b).len() implies #[trigger] (a + b)[i] != '\n' && (a
            + b)[i] != '\r' by {
            if i < a.len() {
                assert((a + b)[i] == a[i]);
            } else {
                assert((a + b)[i] == b[i - a.len()]);
            }
        }
    }
}

/// The lines of a text without carriage returns stay on their lines.
pub proof fn lemma_lines_single(text: Seq<char>)
    requires
        forall|i: int| 0 <= i < text.len() ==> #[trigger] text[i] != '\r',
    ensures
        forall|i: int| 0 <= i < lines_of(text).len() ==> single_line(#[trigger] lines_of(text)[i]),
    decreases text.len(),
{
    let end = first_position(text, '\n');
    lemma_first_position(text, '\n');
    if text.len() > 0 && end < text.len() {
        let line = text.take(end);
        let rest = text.skip(end + 1);
        assert forall|i: int| 0 <= i < rest.len() implies #[trigger] rest[i] != '\r' by {
            assert(rest[i] == text[end + 1 + i]);
        }
        lemma_lines_single(rest);
        assert forall|i: int| 0 <= i < line.len() implies #[trigger] line[i] != '\n' && line[i]
            != '\r' by {
            assert(line[i] == text[i]);
        }
        assert(without_carriage_return(line) == line);
        assert forall|i: int| 0 <= i < lines_of(text).len() implies single_line(
            #[trigger] lines_of(text)[i],
        ) by {
            if i > 0 {
                assert(lines_of(text)[i] == lines_of(rest)[i - 1]);
            }
        }
    }
}

proof fn lemma_quoted(value: Seq<char>)
    ensures
        ({
            let text = "\""@ + sanitized(value) + "\""@;
            &&& text[0] == '"'
            &&& scalar(text) == Some(value)
            &&& single_line(text)
        }),
{
    reveal_strlit("\"");
    let text = "\""@ + sanitized(value) + "\""@;
    law_quoted_text_is_read_back(value);
    assert(text.subrange(1, text.len() - 1) =~= sanitized(value));
    lemma_sanitized_single_line(value);
    lemma_single_line_appended("\""@, sanitized(value));
    lemma_single_line_appended("\""@ + sanitized(value), "\""@);
}

proof fn lemma_pair(indent: nat, item: bool, key: Seq<char>, value: Seq<char>)
    requires
        plain_key(key),
        value.len() > 0,
    ensures
        ({
            let pair = key + ": "@ + value;
            &&& value[0] == '"' && scalar(value) is Some ==> pair_of(indent, item, pair) == Some(
                RowView::Quoted { indent, item, key, value: scalar(value)->0 },
            )
            &&& value[0] != '"' && !item ==> pair_of(indent, item, pair) == Some(
                RowView::Bare { indent, key, value },
            )
        }),
{
    reveal_strlit(": ");
    let pair = key + ": "@ + value;
    let at = key.len() as int;
    assert forall|i: int| 0 <= i < at implies pair[i] != ':' by {
        assert(pair[i] == key[i]);
    }
    lemma_first_position_unique(pair, ':', at);
    assert(pair.take(at) =~= key);
    assert(pair.skip(at + 1)[0] == ' ');
    assert(pair.skip(at + 1).skip(1) =~= value);
}

/// A line outside of a literal block is read as the row that was written.
spec fn row_read(row: RowView) -> bool {
    &&& row_of(row_text(row)) == Some(row)
    &&& indent_of(row_text(row)) == row_indent(row)
    &&& single_line(row_text(row))
}

proof fn lemma_section_read(indent: nat, key: Seq<char>)
    requires
        plain_key(key),
    ensures
        row_read(RowView::Section { indent, key }),
{
    reveal_strlit(":");
    let body = key + ":"@;
    lemma_indent(indent, body);
    assert forall|i: int| 0 <= i < key.len() implies body[i] != ':' by {
        assert(body[i] == key[i]);
    }
    lemma_first_position_unique(body, ':', key.len() as int);
    assert(body.take(key.len() as int) =~= key);
    assert(body.skip((key.len() + 1) as int).len() == 0);
    lemma_single_line_appended(key, ":"@);
    lemma_single_line_appended(spaces(indent), body);
}

proof fn lemma_quoted_read(indent: nat, item: bool, key: Seq<char>, value: Seq<char>)
    requires
        plain_key(key),
    ensures
        row_read(RowView::Quoted { indent, item, key, value }),
{
    let text = "\""@ + sanitized(value) + "\""@;
    let pair = key + ": "@ + text;
    let body = (if item {
        "- "@
    } else {
        Seq::empty()
    }) + pair;
    reveal_strlit(": ");
    reveal_strlit("- ");
    lemma_quoted(value);
    lemma_pair(indent, item, key, text);
    lemma_single_line_appended(key, ": "@);
    lemma_single_line_appended(key + ": "@, text);
    lemma_single_line_appended("- "@, pair);
    assert(pair[0] == key[0]);
    if item {
        assert(body.skip(2) =~= pair);
    } else {
        assert(body =~= pair);
    }
    lemma_indent(indent, body);
    lemma_single_line_appended(spaces(indent), body);
}

proof fn lemma_bare_read(indent: nat, key: Seq<char>, value: Seq<char>)
    requires
        plain_key(key),
        single_line(value),
        value.len() > 0,
        value[0] != '"',
    ensures
        row_read(RowView::Bare { indent, key, value }),
{
    let body = key + ": "@ + value;
    reveal_strlit(": ");
    lemma_pair(indent, false, key, value);
    assert(body[0] == key[0]);
    lemma_indent(indent, body);
    lemma_single_line_appended(key, ": "@);
    lemma_single_line_appended(key + ": "@, value);
    lemma_single_line_appended(spaces(indent), body);
}

proof fn lemma_entry_read(indent: nat, value: Seq<char>)
    ensures
        row_read(RowView::Entry { indent, value }),
{
    let text = "\""@ + sanitized(value) + "\""@;
    let body = "- "@ + text;
    reveal_strlit("- ");
    lemma_quoted(value);
    lemma_indent(indent, body);
    lemma_single_line_appended("- "@, text);
    lemma_single_line_appended(spaces(indent), body);
    assert(body.skip(2) =~= text);
}

proof fn lemma_row_read(row: RowView)
    requires
        row_fits(row, None),
    ensures
        row_read(row),
{
    match row {
        RowView::Blank => {},
        RowView::Section { indent, key } => lemma_section_read(indent, key),
        RowView::Quoted { indent, item, key, value } => lemma_quoted_read(indent, item, key, value),
        RowView::Bare { indent, key, value } => lemma_bare_read(indent, key, value),
        RowView::Entry { indent, value } => lemma_entry_read(indent, value),
        RowView::Text { .. } => {},
    }
}

proof fn lemma_line_read(row: RowView, block: Option<nat>)
    requires
        row_fits(row, block),
    ensures
        line_row(row_text(row), block) == Some(row),
        single_line(row_text(row)),
{
    if let RowView::Text { indent, text } = row {
        lemma_indent_of_text(indent, text);
        lemma_single_line_appended(spaces(indent), text);
    } else {
        lemma_row_read(row);
    }
}

proof fn lemma_first_line(line: Seq<char>, rest: Seq<char>)
    requires
        single_line(line),
    ensures
        lines_of(line + "\n"@ + rest) == seq![line] + lines_of(rest),
{
    reveal_strlit("\n");
    let text = line + "\n"@ + rest;
    let at = line.len() as int;
    assert forall|i: int| 0 <= i < at implies text[i] != '\n' by {
        assert(text[i] == line[i]);
    }
    lemma_first_position_unique(text, '\n', at);
    assert(text.take(at) =~= line);
    assert(text.skip(at + 1) =~= rest);
}

/// A document whose rows make sense where they stand is read as it was written.
pub proof fn law_rows_are_read_back(rows: Seq<RowView>)
    requires
        rows_fit(rows, None),
    ensures
        read_rows(rows_text(rows)) == Some(rows),
{
    lemma_rows_read(rows, None);
}

proof fn lemma_rows_read(rows: Seq<RowView>, block: Option<nat>)
    requires
        rows_fit(rows, block),
    ensures
        rows_of(lines_of(rows_text(rows)), block) == Some(rows),
    decreases rows.len(),
{
    if rows.len() == 0 {
        assert(rows =~= Seq::empty());
    } else {
        let rest = rows.drop_first();
        lemma_line_read(rows[0], block);
        lemma_rows_read(rest, block_after(rows[0], block));
        lemma_first_line(row_text(rows[0]), rows_text(rest));
        let lines = seq![row_text(rows[0])] + lines_of(rows_text(rest));
        assert(lines.drop_first() =~= lines_of(rows_text(rest)));
        assert(seq![rows[0]] + rest =~= rows);
    }
}

/// Every row stands in the document, on a line of its own.
pub proof fn lemma_row_stands_in_text(rows: Seq<RowView>, i: int)
    requires
        0 <= i < rows.len(),
    ensures
        contains(rows_text(rows), row_text(rows[i]) + "\n"@),
    decreases rows.len(),
{
    let first = row_text(rows[0]) + "\n"@;
    let rest = rows_text(rows.drop_first());
    if i == 0 {
        lemma_contains_part(Seq::empty(), first, rest);
        assert(Seq::<char>::empty() + first + rest =~= rows_text(rows));
    } else {
        lemma_row_stands_in_text(rows.drop_first(), i - 1);
        lemma_contains_part(first, rest, Seq::empty());
        assert(first + rest + Seq::<char>::empty() =~= rows_text(rows));
        lemma_contains_within(rows_text(rows), rest, row_text(rows[i]) + "\n"@);
    }
}

} // verus!
