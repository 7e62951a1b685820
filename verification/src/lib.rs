//! A small line-oriented text search library.
//!
//! Given a search request (a pattern, a root path, a case toggle and a
//! summary toggle) and the contents of the files under the root, the
//! library reports every matching line as `<path>:<line>: <text>`, or a
//! single `Total matches: <n>` line in summary mode.  Pattern matching is
//! delegated to the `regex` crate; everything around it — line splitting,
//! case handling, numbering, formatting and aggregation — is verified.

pub mod format;
pub mod lines;
pub mod pattern;
pub mod scan;

use vstd::prelude::*;

verus! {

/// A single search request: what to look for, where, and how to report it.
pub struct Config {
    /// The search pattern, interpreted as a regular expression.
    pub query: String,
    /// The file or directory root to search.
    pub path: String,
    /// Match case-insensitively by lower-casing each candidate line.
    pub ignore_case: bool,
    /// Print only the final match count instead of each matching line.
    pub summary: bool,
}

impl Config {
    /// Assembles a request from its four already-parsed parts.
    pub fn build(query: String, path: String, ignore_case: bool, summary: bool) -> (c: Config)
        ensures
            c.query@ == query@,
            c.path@ == path@,
            c.ignore_case == ignore_case,
            c.summary == summary,
    {
        Config { query, path, ignore_case, summary }
    }
}

/// Why a search could not run.
#[derive(Debug)]
pub enum SearchError {
    /// The query was not accepted as a pattern by the regex engine.
    InvalidPattern(regex::Error),
}

/// The views of a (path, contents) file list.
pub open spec fn files_view(files: Seq<(String, String)>) -> Seq<(Seq<char>, Seq<char>)> {
    files.map_values(|f: (String, String)| (f.0@, f.1@))
}

/// The verbose report lines that one file contributes.
pub open spec fn file_output(
    pat: Seq<char>,
    path: Seq<char>,
    text: Seq<char>,
    ignore_case: bool,
) -> Seq<Seq<char>> {
    scan::matched_lines(pat, text, ignore_case).map_values(
        (|m: (int, Seq<char>)| format::match_line_text(path, m.0, m.1)),
    )
}

/// All verbose report lines, file by file in the given order.
pub open spec fn verbose_output(
    pat: Seq<char>,
    files: Seq<(Seq<char>, Seq<char>)>,
    ignore_case: bool,
) -> Seq<Seq<char>>
    decreases files.len(),
{
    if files.len() == 0 {
        Seq::empty()
    } else {
        file_output(pat, files[0].0, files[0].1, ignore_case) + verbose_output(
            pat,
            files.drop_first(),
            ignore_case,
        )
    }
}

/// The total number of matching lines over the whole file list.
pub open spec fn total_matches(
    pat: Seq<char>,
    files: Seq<(Seq<char>, Seq<char>)>,
    ignore_case: bool,
) -> nat
    decreases files.len(),
{
    if files.len() == 0 {
        0
    } else {
        scan::matched_lines(pat, files[0].1, ignore_case).len() + total_matches(
            pat,
            files.drop_first(),
            ignore_case,
        )
    }
}

/// Everything a run writes: one line per match, or the single summary
/// line when `summary` is set.
pub open spec fn run_output(
    pat: Seq<char>,
    files: Seq<(Seq<char>, Seq<char>)>,
    ignore_case: bool,
    summary: bool,
) -> Seq<Seq<char>> {
    if summary {
        seq![format::summary_text(total_matches(pat, files, ignore_case))]
    } else {
        verbose_output(pat, files, ignore_case)
    }
}

/// The summary-mode total equals the number of lines a verbose run of the
/// same request over the same file list would print.
pub proof fn lemma_total_is_verbose_len(
    pat: Seq<char>,
    files: Seq<(Seq<char>, Seq<char>)>,
    ignore_case: bool,
)
    ensures
        total_matches(pat, files, ignore_case) == verbose_output(pat, files, ignore_case).len(),
    decreases files.len(),
{
    if files.len() != 0 {
        lemma_total_is_verbose_len(pat, files.drop_first(), ignore_case);
    }
}

/// Scanning a single file is scanning a one-file list: the run's verbose
/// output is exactly that file's own report, and the total is that file's
/// own match count.
pub proof fn lemma_single_file_run(
    pat: Seq<char>,
    path: Seq<char>,
    text: Seq<char>,
    ignore_case: bool,
)
    ensures
        verbose_output(pat, seq![(path, text)], ignore_case) == file_output(
            pat,
            path,
            text,
            ignore_case,
        ),
        total_matches(pat, seq![(path, text)], ignore_case) == scan::matched_lines(
            pat,
            text,
            ignore_case,
        ).len(),
{
    let files = seq![(path, text)];
    let empty = Seq::<(Seq<char>, Seq<char>)>::empty();
    assert(files.drop_first() =~= empty);
    assert(verbose_output(pat, empty, ignore_case) == Seq::<Seq<char>>::empty());
    assert(total_matches(pat, empty, ignore_case) == 0);
    assert(files[0] == (path, text));
    assert(file_output(pat, path, text, ignore_case) + Seq::<Seq<char>>::empty() =~= file_output(
        pat,
        path,
        text,
        ignore_case,
    ));
}

/// Running the same request twice over the same file list yields the same
/// output both times: the output is a function of the request and the
/// file list alone.
pub proof fn lemma_run_deterministic(
    pat: Seq<char>,
    files: Seq<(Seq<char>, Seq<char>)>,
    ignore_case: bool,
    summary: bool,
    out1: Seq<Seq<char>>,
    out2: Seq<Seq<char>>,
)
    requires
        out1 == run_output(pat, files, ignore_case, summary),
        out2 == run_output(pat, files, ignore_case, summary),
    ensures
        out1 == out2,
{
}

/// Renders one file's matches as verbose report lines.
fn format_matches(path: &str, ms: &Vec<(usize, String)>) -> (r: Vec<String>)
    ensures
        r@.map_values(|s: String| s@) == ms@.map_values(
            (|m: (usize, String)| format::match_line_text(path@, m.0 as int, m.1@)),
        ),
{
    let mut r: Vec<String> = Vec::new();
    let mut j: usize = 0;
    proof {
        assert(r@.map_values(|s: String| s@) =~= ms@.subrange(0, 0).map_values(
            (|m: (usize, String)| format::match_line_text(path@, m.0 as int, m.1@)),
        ));
    }
    while j < ms.len()
        invariant
            j <= ms.len(),
            r@.map_values(|s: String| s@) == ms@.subrange(0, j as int).map_values(
                (|m: (usize, String)| format::match_line_text(path@, m.0 as int, m.1@)),
            ),
        decreases ms.len() - j,
    {
        let ghost old_r = r@;
        let m = &ms[j];
        let line = format::format_match(path, m.0, m.1.as_str());
        r.push(line);
        proof {
            let view_of = |s: String| s@;
            let render = |m: (usize, String)| format::match_line_text(path@, m.0 as int, m.1@);
            assert(old_r.len() == j) by {
                assert(old_r.map_values(view_of).len() == old_r.len());
                assert(ms@.subrange(0, j as int).map_values(render).len() == j);
            }
            assert(r@.map_values(view_of) =~= ms@.subrange(0, j + 1).map_values(render)) by {
                assert forall|k: int| 0 <= k < j + 1 implies r@.map_values(view_of)[k]
                    == ms@.subrange(0, j + 1).map_values(render)[k] by {
                    assert(ms@.subrange(0, j + 1)[k] == ms@[k]);
                    if k < j {
                        assert(r@[k] == old_r[k]);
                        assert(old_r.map_values(view_of)[k] == old_r[k]@);
                        assert(ms@.subrange(0, j as int).map_values(render)[k] == render(
                            ms@.subrange(0, j as int)[k],
                        ));
                    }
                }
            }
        }
        j += 1;
    }
    assert(ms@.subrange(0, ms.len() as int) =~= ms@);
    r
}

/// Runs one whole search request over an already-read file list of
/// (path, contents) pairs: compiles the pattern once, scans every file in
/// order, and returns the lines the run writes — every match rendered as
/// `<path>:<line>: <text>`, or the single `Total matches: <n>` line in
/// summary mode.  Fails exactly when the query is not a valid pattern,
/// before any file is looked at.
pub fn run(config: &Config, files: &Vec<(String, String)>) -> (r: Result<
    Vec<String>,
    SearchError,
>)
    ensures
        r is Ok <==> pattern::valid_pattern(config.query@),
        r is Ok ==> (r->Ok_0)@.map_values(|s: String| s@) == run_output(
            config.query@,
            files_view(files@),
            config.ignore_case,
            config.summary,
        ),
{
    let re = match pattern::regex_new(config.query.as_str()) {
        Ok(re) => re,
        Err(e) => { return Err(SearchError::InvalidPattern(e)); },
    };
    let ghost pat = config.query@;
    let ghost fv = files_view(files@);
    let mut out: Vec<String> = Vec::new();
    let mut i: usize = 0;
    proof {
        assert(fv.subrange(0, fv.len() as int) =~= fv);
        assert(out@.map_values(|s: String| s@) =~= Seq::<Seq<char>>::empty());
    }
    while i < files.len()
        invariant
            i <= files.len(),
            pat == pattern::pattern_of(re),
            fv == files_view(files@),
            out@.map_values(|s: String| s@) + verbose_output(
                pat,
                fv.subrange(i as int, fv.len() as int),
                config.ignore_case,
            ) == verbose_output(pat, fv, config.ignore_case),
        decreases files.len() - i,
    {
        let ghost out_model = out@.map_values(|s: String| s@);
        let ghost suffix = fv.subrange(i as int, fv.len() as int);
        proof {
            assert(fv[i as int] == (files@[i as int].0@, files@[i as int].1@));
            assert(suffix[0] == fv[i as int]);
            assert(suffix.drop_first() =~= fv.subrange(i + 1, fv.len() as int));
        }
        let file = &files[i];
        let ms = scan::scan(&re, file.1.as_str(), config.ignore_case);
        let mut rendered = format_matches(file.0.as_str(), &ms);
        let ghost rendered_model = rendered@.map_values(|s: String| s@);
        proof {
            let ms_model = ms@.map_values(|m: (usize, String)| (m.0 as int, m.1@));
            let per_match = |m: (int, Seq<char>)| format::match_line_text(fv[i as int].0, m.0, m.1);
            assert(rendered_model =~= ms_model.map_values(per_match)) by {
                assert forall|k: int| 0 <= k < rendered_model.len() implies rendered_model[k]
                    == ms_model.map_values(per_match)[k] by {
                    assert(ms_model[k] == (ms@[k].0 as int, ms@[k].1@));
                }
            }
            assert(rendered_model == file_output(pat, fv[i as int].0, fv[i as int].1,
                config.ignore_case));
        }
        out.append(&mut rendered);
        proof {
            assert(out@.map_values(|s: String| s@) =~= out_model + rendered_model) by {
                assert forall|k: int| 0 <= k < out@.len() implies out@.map_values(|s: String| s@)[k]
                    == (out_model + rendered_model)[k] by {}
            }
            assert(out_model + (rendered_model + verbose_output(pat, suffix.drop_first(),
                config.ignore_case)) =~= (out_model + rendered_model) + verbose_output(pat,
                suffix.drop_first(), config.ignore_case));
        }
        i += 1;
    }
    proof {
        assert(fv.subrange(fv.len() as int, fv.len() as int) =~= Seq::<(Seq<char>, Seq<char>)>::empty());
        assert(out@.map_values(|s: String| s@) + Seq::<Seq<char>>::empty() =~= out@.map_values(
            |s: String| s@,
        ));
    }
    if config.summary {
        let total = out.len();
        proof {
            lemma_total_is_verbose_len(pat, fv, config.ignore_case);
        }
        let mut report: Vec<String> = Vec::new();
        report.push(format::summary_line(total));
        assert(report@.map_values(|s: String| s@) =~= seq![
            format::summary_text(total_matches(pat, fv, config.ignore_case)),
        ]);
        Ok(report)
    } else {
        Ok(out)
    }
}

} // verus!
