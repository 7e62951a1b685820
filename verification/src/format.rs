//! Rendering match reports as text.
//!
//! A verbose report line is `<path>:<line number>: <line text>`; the
//! summary report is the single line `Total matches: <count>`.  The
//! decimal rendering of the count and of line numbers is verified against
//! a spec-level definition.

use vstd::prelude::*;
use vstd::string::*;

verus! {

/// The digit character for a value below ten.
pub open spec fn dec_digit(d: nat) -> char {
    if d == 0 {
        '0'
    } else if d == 1 {
        '1'
    } else if d == 2 {
        '2'
    } else if d == 3 {
        '3'
    } else if d == 4 {
        '4'
    } else if d == 5 {
        '5'
    } else if d == 6 {
        '6'
    } else if d == 7 {
        '7'
    } else if d == 8 {
        '8'
    } else {
        '9'
    }
}

/// The usual decimal rendering of `n`: no sign, no leading zeros except
/// for `n == 0` itself.
pub open spec fn dec_of(n: nat) -> Seq<char>
    decreases n,
{
    if n < 10 {
        seq![dec_digit(n)]
    } else {
        dec_of(n / 10).push(dec_digit(n % 10))
    }
}

/// One verbose report line: the path, the 1-based line number and the
/// matching line, joined as `<path>:<n>: <line>`.
pub open spec fn match_line_text(path: Seq<char>, n: int, line: Seq<char>) -> Seq<char> {
    path + ":"@ + dec_of(n as nat) + ": "@ + line
}

/// The summary report line for a total of `n` matches.
pub open spec fn summary_text(n: nat) -> Seq<char> {
    "Total matches: "@ + dec_of(n)
}

/// The one-character string for a digit value.
fn digit_str(d: u128) -> (r: &'static str)
    requires
        d < 10,
    ensures
        r@ == seq![dec_digit(d as nat)],
{
    proof {
        reveal_strlit("0");
        reveal_strlit("1");
        reveal_strlit("2");
        reveal_strlit("3");
        reveal_strlit("4");
        reveal_strlit("5");
        reveal_strlit("6");
        reveal_strlit("7");
        reveal_strlit("8");
        reveal_strlit("9");
    }
    let r = if d == 0 {
        "0"
    } else if d == 1 {
        "1"
    } else if d == 2 {
        "2"
    } else if d == 3 {
        "3"
    } else if d == 4 {
        "4"
    } else if d == 5 {
        "5"
    } else if d == 6 {
        "6"
    } else if d == 7 {
        "7"
    } else if d == 8 {
        "8"
    } else {
        "9"
    };
    assert(r@ =~= seq![dec_digit(d as nat)]);
    r
}

/// Renders `n` in decimal.
pub fn decimal_string(n: u128) -> (s: String)
    ensures
        s@ == dec_of(n as nat),
    decreases n,
{
    if n < 10 {
        String::from_str(digit_str(n))
    } else {
        let mut s = decimal_string(n / 10);
        s.append(digit_str(n % 10));
        assert(s@ =~= dec_of(n as nat));
        s
    }
}

/// Builds the verbose report line for one match.
pub fn format_match(path: &str, line_number: usize, line: &str) -> (s: String)
    ensures
        s@ == match_line_text(path@, line_number as int, line@),
{
    let mut s = String::from_str(path);
    s.append(":");
    let num = decimal_string(line_number as u128);
    s.append(num.as_str());
    s.append(": ");
    s.append(line);
    assert(s@ =~= match_line_text(path@, line_number as int, line@));
    s
}

/// Builds the summary report line for a total of `count` matches.
pub fn summary_line(count: usize) -> (s: String)
    ensures
        s@ == summary_text(count as nat),
{
    let mut s = String::from_str("Total matches: ");
    let num = decimal_string(count as u128);
    s.append(num.as_str());
    assert(s@ =~= summary_text(count as nat));
    s
}

} // verus!
