//! Splitting text into lines.
//!
//! A line ends at a `'\n'` separator, which is not part of the line; a
//! final fragment without a trailing newline is still a line, and empty
//! text has no lines at all.

use vstd::prelude::*;
use vstd::string::*;

verus! {

/// Index of the first `'\n'` in `text`, or `text.len()` if there is none.
pub open spec fn line_break(text: Seq<char>) -> int
    decreases text.len(),
{
    if text.len() == 0 {
        0
    } else if text[0] == '\n' {
        0
    } else {
        1 + line_break(text.drop_first())
    }
}

/// The lines of `text`: maximal `'\n'`-free runs, the separator excluded.
/// Empty text has no lines; a final run without a trailing `'\n'` counts.
pub open spec fn split_lines(text: Seq<char>) -> Seq<Seq<char>>
    decreases text.len(),
    via split_lines_decreases
{
    if text.len() == 0 {
        Seq::empty()
    } else {
        let k = line_break(text);
        if k == text.len() {
            seq![text]
        } else {
            seq![text.subrange(0, k)] + split_lines(text.subrange(k + 1, text.len() as int))
        }
    }
}

#[via_fn]
proof fn split_lines_decreases(text: Seq<char>) {
    lemma_line_break_bounds(text);
}

/// `line_break` is within bounds and everything before it is `'\n'`-free.
pub proof fn lemma_line_break_bounds(text: Seq<char>)
    ensures
        0 <= line_break(text) <= text.len(),
        forall|j: int| 0 <= j < line_break(text) ==> text[j] != '\n',
        line_break(text) < text.len() ==> text[line_break(text)] == '\n',
    decreases text.len(),
{
    if text.len() != 0 && text[0] != '\n' {
        lemma_line_break_bounds(text.drop_first());
        assert forall|j: int| 0 <= j < line_break(text) implies text[j] != '\n' by {
            if j > 0 {
                assert(text.drop_first()[j - 1] != '\n');
            }
        }
    }
}

/// A position with no `'\n'` before it, and `'\n'` (or the end) at it,
/// is exactly where the first line breaks.
pub proof fn lemma_line_break_at(text: Seq<char>, i: int)
    requires
        0 <= i <= text.len(),
        forall|j: int| 0 <= j < i ==> text[j] != '\n',
        i < text.len() ==> text[i] == '\n',
    ensures
        line_break(text) == i,
    decreases i,
{
    if i == 0 {
    } else {
        assert(text[0] != '\n');
        assert forall|j: int| 0 <= j < i - 1 implies text.drop_first()[j] != '\n' by {
            assert(text[j + 1] != '\n');
        }
        assert(i - 1 < text.drop_first().len() ==> text.drop_first()[i - 1] == '\n');
        lemma_line_break_at(text.drop_first(), i - 1);
    }
}

/// The lines of `text` starting at character position `start`.
fn split_from(text: &str, start: usize, n: usize) -> (lines: Vec<String>)
    requires
        start <= n,
        n == text@.len(),
    ensures
        lines@.map_values(|l: String| l@) == split_lines(text@.subrange(start as int, n as int)),
    decreases n - start,
{
    let ghost sub = text@.subrange(start as int, n as int);
    if start == n {
        let lines: Vec<String> = Vec::new();
        assert(lines@.map_values(|l: String| l@) =~= split_lines(sub));
        return lines;
    }
    let mut k: usize = start;
    while k < n && text.get_char(k) != '\n'
        invariant
            start <= k <= n,
            n == text@.len(),
            forall|j: int| start <= j < k ==> text@[j] != '\n',
        decreases n - k,
    {
        k += 1;
    }
    proof {
        assert forall|j: int| 0 <= j < k - start implies sub[j] != '\n' by {
            assert(text@[start + j] != '\n');
        }
        assert(k < n ==> sub[k - start] == '\n');
        lemma_line_break_at(sub, k - start);
    }
    let first = String::from_str(text.substring_char(start, k));
    assert(first@ =~= sub.subrange(0, k - start));
    if k == n {
        let mut lines: Vec<String> = Vec::new();
        lines.push(first);
        assert(first@ =~= sub);
        assert(lines@.map_values(|l: String| l@) =~= seq![sub]);
        assert(split_lines(sub) == seq![sub]);
        lines
    } else {
        let mut lines: Vec<String> = Vec::new();
        lines.push(first);
        let mut rest = split_from(text, k + 1, n);
        let ghost rest_view = rest@;
        assert(text@.subrange(k + 1, n as int) =~= sub.subrange(k - start + 1, sub.len() as int));
        lines.append(&mut rest);
        proof {
            let view_of = |l: String| l@;
            assert(lines@ == seq![first] + rest_view);
            assert(split_lines(sub) == seq![sub.subrange(0, k - start)]
                + split_lines(sub.subrange(k - start + 1, sub.len() as int)));
            assert(lines@.map_values(view_of) =~= split_lines(sub)) by {
                assert forall|i: int| 0 <= i < lines@.len() implies lines@.map_values(view_of)[i]
                    == split_lines(sub)[i] by {
                    if i > 0 {
                        assert(lines@[i] == rest_view[i - 1]);
                        assert(rest_view.map_values(view_of)[i - 1] == rest_view[i - 1]@);
                    }
                }
            }
        }
        lines
    }
}

/// Splits `text` into its lines, in order.
pub fn split_into_lines(text: &str) -> (lines: Vec<String>)
    ensures
        lines@.map_values(|l: String| l@) == split_lines(text@),
{
    let n = text.unicode_len();
    let lines = split_from(text, 0, n);
    assert(text@.subrange(0, n as int) =~= text@);
    lines
}

} // verus!
