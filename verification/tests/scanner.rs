use minigrep::lines::split_into_lines;
use minigrep::scan::scan;

fn match_texts(pattern: &str, text: &str, ignore_case: bool) -> Vec<String> {
    let re = regex::Regex::new(pattern).unwrap();
    scan(&re, text, ignore_case)
        .into_iter()
        .map(|m| m.1)
        .collect()
}

#[test]
fn basic_regex_match() {
    let re = regex::Regex::new("duct").unwrap();
    let text = "Rust:\nsafe, fast, productive.\nDuct tape.";
    let matches: Vec<String> = scan(&re, text, false).into_iter().map(|m| m.1).collect();

    assert_eq!(matches, vec!["safe, fast, productive."]);
}

#[test]
fn case_insensitive_match() {
    let re = regex::Regex::new("rust").unwrap();
    let text = "Rust:\nsafe, fast, productive.\nTrust me.";
    let matches: Vec<String> = scan(&re, text, true).into_iter().map(|m| m.1).collect();

    assert_eq!(matches, vec!["Rust:", "Trust me."]);
}

#[test]
fn case_sensitive_scan_reports_line_numbers() {
    let re = regex::Regex::new("duct").unwrap();
    let text = "Rust:\nsafe, fast, productive.\nDuct tape.";
    let ms = scan(&re, text, false);

    assert_eq!(ms.len(), 1);
    assert_eq!(ms[0].0, 2);
    assert_eq!(ms[0].1, "safe, fast, productive.");
}

#[test]
fn case_insensitive_scan_reports_line_numbers() {
    let re = regex::Regex::new("rust").unwrap();
    let text = "Rust:\nsafe, fast, productive.\nTrust me.";
    let ms = scan(&re, text, true);

    assert_eq!(ms.len(), 2);
    assert_eq!(ms[0].0, 1);
    assert_eq!(ms[0].1, "Rust:");
    assert_eq!(ms[1].0, 3);
    assert_eq!(ms[1].1, "Trust me.");
}

#[test]
fn scan_reports_every_matching_line() {
    let texts = match_texts("a", "abc\nxyz\ncba\nno\naaa", false);
    assert_eq!(texts, vec!["abc", "cba", "aaa"]);
}

#[test]
fn scan_handles_multibyte_characters() {
    let re = regex::Regex::new("wörld").unwrap();
    let ms = scan(&re, "héllo\nwörld", false);

    assert_eq!(ms.len(), 1);
    assert_eq!(ms[0].0, 2);
    assert_eq!(ms[0].1, "wörld");
}

#[test]
fn empty_text_has_no_matches() {
    assert_eq!(match_texts("a|^$", "", false), Vec::<String>::new());
}

#[test]
fn split_empty_text_has_no_lines() {
    assert_eq!(split_into_lines(""), Vec::<String>::new());
}

#[test]
fn split_final_line_without_newline_counts() {
    assert_eq!(split_into_lines("a\nb"), vec!["a", "b"]);
}

#[test]
fn split_trailing_newline_is_a_separator() {
    assert_eq!(split_into_lines("a\n"), vec!["a"]);
}

#[test]
fn split_lone_newline_gives_one_empty_line() {
    assert_eq!(split_into_lines("\n"), vec![""]);
}

#[test]
fn split_keeps_empty_middle_lines() {
    assert_eq!(split_into_lines("a\n\nb\n"), vec!["a", "", "b"]);
}
