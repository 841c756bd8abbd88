//! Free-text search: every attribute of every record is decoded to its
//! display text and matched against a caller-supplied pattern. The result
//! stays tabular: the union of matching rows and the union of the columns
//! they matched on, behind a fixed prefix of identifying columns.

use vstd::prelude::*;
use vstd::seq_lib::*;
use vstd::string::StringExecFns;
use vstd::std_specs::iter::IteratorSpec;

use crate::cell::{cell_display_spec, RawRow};
use crate::fmt::push_char;

verus! {

/// Whether a pattern is a valid regular expression. Relied upon only through
/// `Pattern::compile`.
pub uninterp spec fn regex_valid(pattern: Seq<char>) -> bool;

/// Whether a pattern matches somewhere in a text. Relied upon only through
/// `Pattern::is_match`.
pub uninterp spec fn regex_matches(pattern: Seq<char>, text: Seq<char>) -> bool;

#[verifier::external_type_specification]
#[verifier::external_body]
pub struct ExRegex(regex::Regex);

/// A compiled search pattern. The compiled form is built from `source` by
/// the one constructor, so the match results speak of `source`.
pub struct Pattern {
    source: String,
    re: regex::Regex,
}

impl Pattern {
    /// The pattern text this value was compiled from.
    pub closed spec fn spec_source(self) -> Seq<char> {
        self.source@
    }

    /// Relies on `Regex::new`: compilation succeeds or fails as a function
    /// of the pattern text alone.
    #[verifier::external_body]
    pub(crate) fn compile(pattern: &str) -> (r: Option<Pattern>)
        ensures
            r is Some <==> regex_valid(pattern@),
            (r matches Some(p) ==> p.spec_source() == pattern@),
    {
        match regex::Regex::new(pattern) {
            Ok(re) => Some(Pattern { source: pattern.to_owned(), re }),
            Err(_) => None,
        }
    }

    /// Relies on `Regex::is_match`: whether the pattern matches anywhere in
    /// the text, a function of the pattern and the text alone. The compiled
    /// field is always the compilation of `source`.
    #[verifier::external_body]
    pub(crate) fn is_match(&self, text: &str) -> (r: bool)
        ensures
            r == regex_matches(self.spec_source(), text@),
    {
        self.re.is_match(text)
    }
}

/// A pattern wrapped for case-insensitive matching.
pub open spec fn spec_case_insensitive(pattern: Seq<char>) -> Seq<char> {
    seq!['(', '?', 'i', ':'] + pattern + seq![')']
}

/// Wrap a pattern for case-insensitive matching.
pub fn case_insensitive(pattern: &str) -> (r: String)
    ensures
        r@ == spec_case_insensitive(pattern@),
{
    let mut s = String::new();
    push_char(&mut s, '(');
    push_char(&mut s, '?');
    push_char(&mut s, 'i');
    push_char(&mut s, ':');
    s.append(pattern);
    push_char(&mut s, ')');
    proof {
        assert(s@ =~= spec_case_insensitive(pattern@));
    }
    s
}

/// A display text with line breaks escaped, so one value stays on one line.
pub open spec fn escape_line_breaks(s: Seq<char>) -> Seq<char>
    decreases s.len(),
{
    if s.len() == 0 {
        Seq::empty()
    } else {
        escape_chunk(s[0]) + escape_line_breaks(s.drop_first())
    }
}

/// The escaped form of one character.
pub open spec fn escape_chunk(c: char) -> Seq<char> {
    if c == '\n' {
        seq!['\\', 'n']
    } else if c == '\r' {
        seq!['\\', 'r']
    } else {
        seq![c]
    }
}

/// Escaping distributes over appending one character.
proof fn lemma_escape_push(s: Seq<char>, c: char)
    ensures
        escape_line_breaks(s.push(c)) == escape_line_breaks(s) + escape_chunk(c),
    decreases s.len(),
{
    reveal_with_fuel(escape_line_breaks, 2);
    if s.len() == 0 {
        assert(s.push(c)[0] == c);
        assert(s.push(c).drop_first() =~= Seq::<char>::empty());
        assert(escape_line_breaks(s.push(c)) == escape_chunk(c) + escape_line_breaks(
            Seq::<char>::empty(),
        ));
        assert(escape_line_breaks(s.push(c)) =~= escape_line_breaks(s) + escape_chunk(c));
    } else {
        assert(s.push(c)[0] == s[0]);
        assert(s.push(c).drop_first() =~= s.drop_first().push(c));
        lemma_escape_push(s.drop_first(), c);
        assert(escape_line_breaks(s.push(c)) == escape_chunk(s[0]) + (escape_line_breaks(
            s.drop_first(),
        ) + escape_chunk(c)));
        assert(escape_line_breaks(s.push(c)) =~= escape_line_breaks(s) + escape_chunk(c));
    }
}

/// Escape the line breaks of a text.
pub fn escape_line_breaks_x(s: &str) -> (r: String)
    ensures
        r@ == escape_line_breaks(s@),
{
    let mut out = String::new();
    let mut it = s.chars();
    let ghost mut consumed: Seq<char> = Seq::empty();
    proof {
        broadcast use vstd::string::group_string_axioms;

        assert(consumed + it.remaining() =~= s@);
        assert(out@ =~= escape_line_breaks(consumed));
    }
    loop
        invariant
            it.obeys_prophetic_iter_laws(),
            it.decrease() is Some,
            consumed + it.remaining() == s@,
            out@ == escape_line_breaks(consumed),
        ensures
            out@ == escape_line_breaks(s@),
        decreases it.decrease()->0,
    {
        broadcast use vstd::string::next_postcondition;

        match it.next() {
            Some(c) => {
                proof {
                    lemma_escape_push(consumed, c);
                    consumed = consumed.push(c);
                }
                if c == '\n' {
                    push_char(&mut out, '\\');
                    push_char(&mut out, 'n');
                } else if c == '\r' {
                    push_char(&mut out, '\\');
                    push_char(&mut out, 'r');
                } else {
                    push_char(&mut out, c);
                }
                proof {
                    assert(out@ =~= escape_line_breaks(consumed));
                    assert(consumed + it.remaining() =~= s@);
                }
            },
            None => {
                proof {
                    assert(consumed =~= s@);
                }
                break;
            },
        }
    }
    out
}

/// Whether the pattern matches the display text of one column of a row.
pub open spec fn spec_cell_matches(row: RawRow, col: i32, pattern: Seq<char>) -> bool {
    regex_matches(pattern, cell_display_spec(row.spec_cell(col as int)))
}

/// Whether any column of the row matches.
pub open spec fn spec_row_hit(row: RawRow, pattern: Seq<char>) -> bool {
    exists|k: int|
        0 <= k < row.cells@.len() && spec_cell_matches(row, (#[trigger] row.cells@[k]).0, pattern)
}

/// The column list after folding one row into it: every matching column id of
/// the row that the list does not already carry is appended, in cell order.
pub open spec fn spec_add_cols(row: RawRow, pattern: Seq<char>, acc: Seq<i32>, k: int) -> Seq<i32>
    decreases row.cells@.len() - k,
{
    if k < 0 || k >= row.cells@.len() {
        acc
    } else {
        let c = row.cells@[k].0;
        let acc2 = if spec_cell_matches(row, c, pattern) && !acc.contains(c) {
            acc.push(c)
        } else {
            acc
        };
        spec_add_cols(row, pattern, acc2, k + 1)
    }
}

/// The column list after folding the first `n` rows.
pub open spec fn spec_search_cols(rows: Seq<RawRow>, pattern: Seq<char>, acc: Seq<i32>, n: int) -> Seq<
    i32,
>
    decreases n,
{
    if n <= 0 {
        acc
    } else {
        spec_add_cols(rows[n - 1], pattern, spec_search_cols(rows, pattern, acc, n - 1), 0)
    }
}

/// The indices of the rows any of whose columns match.
pub open spec fn spec_hit_rows(rows: Seq<RawRow>, pattern: Seq<char>) -> Seq<int> {
    Seq::new(rows.len(), |i: int| i).filter(|i: int| spec_row_hit(rows[i], pattern))
}

/// Whether a value sits in a column list.
pub fn contains_col(cols: &Vec<i32>, c: i32) -> (r: bool)
    ensures
        r == cols@.contains(c),
{
    let mut i: usize = 0;
    while i < cols.len()
        invariant
            i <= cols@.len(),
            forall|k: int| 0 <= k < i ==> cols@[k] != c,
        decreases cols@.len() - i,
    {
        if cols[i] == c {
            return true;
        }
        i = i + 1;
    }
    false
}

/// Whether any column of the row matches the pattern.
pub fn row_hit(row: &RawRow, pattern: &Pattern) -> (r: bool)
    ensures
        r == spec_row_hit(*row, pattern.spec_source()),
{
    let mut k: usize = 0;
    while k < row.cells.len()
        invariant
            k <= row.cells@.len(),
            forall|j: int|
                0 <= j < k ==> !spec_cell_matches(*row, (#[trigger] row.cells@[j]).0, pattern.spec_source()),
        decreases row.cells@.len() - k,
    {
        let text = row.display_at(row.cells[k].0);
        if pattern.is_match(text.as_str()) {
            return true;
        }
        k = k + 1;
    }
    false
}

/// Fold one row's matching columns into the accumulated column list.
pub fn add_row_cols(cols: &mut Vec<i32>, row: &RawRow, pattern: &Pattern)
    ensures
        final(cols)@ == spec_add_cols(*row, pattern.spec_source(), old(cols)@, 0),
{
    let mut k: usize = 0;
    proof {
        assert(spec_add_cols(*row, pattern.spec_source(), old(cols)@, 0) == spec_add_cols(
            *row,
            pattern.spec_source(),
            cols@,
            0,
        ));
    }
    while k < row.cells.len()
        invariant
            k <= row.cells@.len(),
            spec_add_cols(*row, pattern.spec_source(), old(cols)@, 0) == spec_add_cols(
                *row,
                pattern.spec_source(),
                cols@,
                k as int,
            ),
        decreases row.cells@.len() - k,
    {
        let c = row.cells[k].0;
        let text = row.display_at(c);
        if pattern.is_match(text.as_str()) && !contains_col(cols, c) {
            cols.push(c);
        }
        k = k + 1;
    }
}

} // verus!
