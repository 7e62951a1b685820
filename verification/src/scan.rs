//! The line scanner: which lines of a text match, and under which
//! 1-based line numbers.

use vstd::prelude::*;
use vstd::string::*;
use crate::lines::{split_lines, split_into_lines};
use crate::pattern::{line_matches, pattern_of, regex_is_match, lowercase};

verus! {

/// The matching (line number, line) pairs among `lines`, numbering the
/// first element `start`.
pub open spec fn matches_of(
    pat: Seq<char>,
    lines: Seq<Seq<char>>,
    ignore_case: bool,
    start: int,
) -> Seq<(int, Seq<char>)>
    decreases lines.len(),
{
    if lines.len() == 0 {
        Seq::empty()
    } else {
        let rest = matches_of(pat, lines.drop_first(), ignore_case, start + 1);
        if line_matches(pat, lines[0], ignore_case) {
            seq![(start, lines[0])] + rest
        } else {
            rest
        }
    }
}

/// The matching lines of `text`, with their 1-based line numbers.
pub open spec fn matched_lines(pat: Seq<char>, text: Seq<char>, ignore_case: bool) -> Seq<
    (int, Seq<char>),
> {
    matches_of(pat, split_lines(text), ignore_case, 1)
}

/// A pair is reported by `matches_of` exactly when it is a line of the
/// input, at its own position, that satisfies the matching rule.
pub proof fn lemma_matches_of_exact(
    pat: Seq<char>,
    lines: Seq<Seq<char>>,
    ignore_case: bool,
    start: int,
    p: (int, Seq<char>),
)
    ensures
        matches_of(pat, lines, ignore_case, start).contains(p) <==> exists|i: int|
            0 <= i < lines.len() && p == (start + i, lines[i])
                && line_matches(pat, lines[i], ignore_case),
    decreases lines.len(),
{
    if lines.len() != 0 {
        lemma_matches_of_exact(pat, lines.drop_first(), ignore_case, start + 1, p);
        let ms = matches_of(pat, lines, ignore_case, start);
        let rest = matches_of(pat, lines.drop_first(), ignore_case, start + 1);
        assert forall|j: int| 0 <= j < lines.drop_first().len() implies lines.drop_first()[j]
            == lines[j + 1] by {}
        if ms.contains(p) {
            if line_matches(pat, lines[0], ignore_case) && p == (start, lines[0]) {
                assert(0 <= 0 < lines.len() && p == (start + 0, lines[0])
                    && line_matches(pat, lines[0], ignore_case));
            } else {
                assert(rest.contains(p)) by {
                    if line_matches(pat, lines[0], ignore_case) {
                        let k = choose|k: int| 0 <= k < ms.len() && ms[k] == p;
                        assert(k != 0);
                        assert(rest[k - 1] == p);
                    }
                }
                let i = choose|i: int|
                    0 <= i < lines.drop_first().len() && p == (start + 1 + i,
                    lines.drop_first()[i]) && line_matches(
                        pat,
                        lines.drop_first()[i],
                        ignore_case,
                    );
                assert(p == (start + (i + 1), lines[i + 1]));
            }
        }
        if exists|i: int|
            0 <= i < lines.len() && p == (start + i, lines[i]) && line_matches(
                pat,
                lines[i],
                ignore_case,
            ) {
            let i = choose|i: int|
                0 <= i < lines.len() && p == (start + i, lines[i]) && line_matches(
                    pat,
                    lines[i],
                    ignore_case,
                );
            if i == 0 {
                assert(ms[0] == p);
            } else {
                assert(p == (start + 1 + (i - 1), lines.drop_first()[i - 1]));
                assert(rest.contains(p));
                let k = choose|k: int| 0 <= k < rest.len() && rest[k] == p;
                if line_matches(pat, lines[0], ignore_case) {
                    assert(ms[k + 1] == p);
                } else {
                    assert(ms[k] == p);
                }
            }
        }
    }
}

/// No false positives and no false negatives: the scanner's report
/// contains line `i` (1-based number `i + 1`) exactly when that line
/// satisfies the matching rule.
pub proof fn lemma_scanner_exact(pat: Seq<char>, text: Seq<char>, ignore_case: bool, i: int)
    requires
        0 <= i < split_lines(text).len(),
    ensures
        matched_lines(pat, text, ignore_case).contains((i + 1, split_lines(text)[i]))
            <==> line_matches(pat, split_lines(text)[i], ignore_case),
{
    let lines = split_lines(text);
    lemma_matches_of_exact(pat, lines, ignore_case, 1, (i + 1, lines[i]));
    if line_matches(pat, lines[i], ignore_case) {
        assert(0 <= i < lines.len() && (i + 1, lines[i]) == (1 + i, lines[i])
            && line_matches(pat, lines[i], ignore_case));
    }
    if matched_lines(pat, text, ignore_case).contains((i + 1, lines[i])) {
        let j = choose|j: int|
            0 <= j < lines.len() && (i + 1, lines[i]) == (1 + j, lines[j]) && line_matches(
                pat,
                lines[j],
                ignore_case,
            );
        assert(j == i);
    }
}

/// Scans `contents` with the compiled regex `re`: returns every matching
/// line with its 1-based line number, in order.
pub fn scan(re: &regex::Regex, contents: &str, ignore_case: bool) -> (r: Vec<(usize, String)>)
    ensures
        r@.map_values(|m: (usize, String)| (m.0 as int, m.1@)) == matched_lines(
            pattern_of(*re),
            contents@,
            ignore_case,
        ),
{
    let ghost pat = pattern_of(*re);
    let lines = split_into_lines(contents);
    let ghost lmodel = lines@.map_values(|l: String| l@);
    let mut out: Vec<(usize, String)> = Vec::new();
    let mut i: usize = 0;
    proof {
        assert(lmodel.subrange(0, lmodel.len() as int) =~= lmodel);
        assert(out@.map_values(|m: (usize, String)| (m.0 as int, m.1@)) =~= Seq::empty());
    }
    while i < lines.len()
        invariant
            i <= lines.len(),
            pat == pattern_of(*re),
            lmodel == lines@.map_values(|l: String| l@),
            out@.map_values(|m: (usize, String)| (m.0 as int, m.1@)) + matches_of(
                pat,
                lmodel.subrange(i as int, lmodel.len() as int),
                ignore_case,
                i + 1,
            ) == matched_lines(pat, contents@, ignore_case),
        decreases lines.len() - i,
    {
        let ghost out_model = out@.map_values(|m: (usize, String)| (m.0 as int, m.1@));
        let ghost suffix = lmodel.subrange(i as int, lmodel.len() as int);
        proof {
            assert(lmodel[i as int] == lines@[i as int]@);
            assert(suffix[0] == lmodel[i as int]);
            assert(suffix.drop_first() =~= lmodel.subrange(i + 1, lmodel.len() as int));
        }
        let line = &lines[i];
        let matched = if ignore_case {
            let hay = lowercase(line.as_str());
            regex_is_match(re, hay.as_str())
        } else {
            regex_is_match(re, line.as_str())
        };
        assert(matched == line_matches(pat, lmodel[i as int], ignore_case));
        if matched {
            out.push((i + 1, line.clone()));
            proof {
                let new_model = out@.map_values(|m: (usize, String)| (m.0 as int, m.1@));
                assert(new_model =~= out_model + seq![(i + 1 as int, lmodel[i as int])]);
                assert(out_model + (seq![(i + 1 as int, lmodel[i as int])] + matches_of(
                    pat,
                    suffix.drop_first(),
                    ignore_case,
                    i + 2,
                )) =~= new_model + matches_of(pat, suffix.drop_first(), ignore_case, i + 2));
            }
        }
        i += 1;
    }
    proof {
        assert(lmodel.subrange(lmodel.len() as int, lmodel.len() as int) =~= Seq::empty());
        assert(out@.map_values(|m: (usize, String)| (m.0 as int, m.1@)) + Seq::<(
            int,
            Seq<char>,
        )>::empty() =~= out@.map_values(|m: (usize, String)| (m.0 as int, m.1@)));
    }
    out
}

} // verus!
