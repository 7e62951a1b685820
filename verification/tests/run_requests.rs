use minigrep::{run, Config, SearchError};
use minigrep::format::{decimal_string, format_match, summary_line};

fn poem_files() -> Vec<(String, String)> {
    vec![(
        String::from("poem.txt"),
        String::from("Rust:\nsafe, fast, productive.\nDuct tape."),
    )]
}

#[test]
fn config_build_keeps_every_field() {
    let c = Config::build(
        String::from("duct"),
        String::from("poem.txt"),
        true,
        false,
    );
    assert_eq!(c.query, "duct");
    assert_eq!(c.path, "poem.txt");
    assert!(c.ignore_case);
    assert!(!c.summary);
}

#[test]
fn verbose_run_prints_path_number_and_line() {
    let c = Config::build(String::from("duct"), String::from("poem.txt"), false, false);
    let out = run(&c, &poem_files()).unwrap();
    assert_eq!(out, vec!["poem.txt:2: safe, fast, productive."]);
}

#[test]
fn summary_run_prints_only_the_total() {
    let c = Config::build(String::from("duct"), String::from("poem.txt"), false, true);
    let out = run(&c, &poem_files()).unwrap();
    assert_eq!(out, vec!["Total matches: 1"]);
}

#[test]
fn summary_total_equals_verbose_line_count() {
    let files = vec![
        (
            String::from("a.txt"),
            String::from("Rust:\nsafe, fast, productive.\nTrust me."),
        ),
        (String::from("b.txt"), String::from("no match here")),
        (String::from("c.txt"), String::from("rust\nRUST\ntrust")),
    ];
    let verbose = Config::build(String::from("rust"), String::from("root"), true, false);
    let summary = Config::build(String::from("rust"), String::from("root"), true, true);

    let lines = run(&verbose, &files).unwrap();
    let report = run(&summary, &files).unwrap();

    assert_eq!(report, vec![format!("Total matches: {}", lines.len())]);
}

#[test]
fn empty_file_set_still_reports_a_zero_total() {
    let c = Config::build(String::from("duct"), String::from("empty"), false, true);
    let out = run(&c, &Vec::new()).unwrap();
    assert_eq!(out, vec!["Total matches: 0"]);
}

#[test]
fn empty_file_set_prints_nothing_verbose() {
    let c = Config::build(String::from("duct"), String::from("empty"), false, false);
    let out = run(&c, &Vec::new()).unwrap();
    assert_eq!(out, Vec::<String>::new());
}

#[test]
fn invalid_pattern_fails_the_whole_run() {
    let c = Config::build(String::from("["), String::from("poem.txt"), false, false);
    let r = run(&c, &poem_files());
    assert!(matches!(r, Err(SearchError::InvalidPattern(_))));
}

#[test]
fn same_request_twice_gives_identical_output() {
    let files = vec![
        (String::from("a.txt"), String::from("Rust:\nTrust me.")),
        (String::from("b.txt"), String::from("crust\n")),
    ];
    let c = Config::build(String::from("rust"), String::from("root"), true, false);

    let first = run(&c, &files).unwrap();
    let second = run(&c, &files).unwrap();
    assert_eq!(first, second);

    let s = Config::build(String::from("rust"), String::from("root"), true, true);
    assert_eq!(run(&s, &files).unwrap(), run(&s, &files).unwrap());
}

#[test]
fn single_file_run_equals_that_files_own_report() {
    let text = "Rust:\nsafe, fast, productive.\nTrust me.";
    let c = Config::build(String::from("rust"), String::from("root"), true, false);
    let out = run(&c, &vec![(String::from("one.txt"), String::from(text))]).unwrap();

    let re = regex::Regex::new("rust").unwrap();
    let expected: Vec<String> = minigrep::scan::scan(&re, text, true)
        .into_iter()
        .map(|m| format_match("one.txt", m.0, &m.1))
        .collect();
    assert_eq!(out, expected);
}

#[test]
fn files_are_reported_in_order() {
    let files = vec![
        (String::from("b.txt"), String::from("beta")),
        (String::from("a.txt"), String::from("alpha\nbeta")),
    ];
    let c = Config::build(String::from("beta"), String::from("root"), false, false);
    let out = run(&c, &files).unwrap();
    assert_eq!(out, vec!["b.txt:1: beta", "a.txt:2: beta"]);
}

#[test]
fn decimal_rendering_is_exact() {
    assert_eq!(decimal_string(0), "0");
    assert_eq!(decimal_string(7), "7");
    assert_eq!(decimal_string(10), "10");
    assert_eq!(decimal_string(907), "907");
    assert_eq!(decimal_string(18446744073709551616), "18446744073709551616");
}

#[test]
fn match_line_rendering_is_exact() {
    assert_eq!(format_match("src/x.rs", 12, "hello"), "src/x.rs:12: hello");
}

#[test]
fn summary_line_rendering_is_exact() {
    assert_eq!(summary_line(0), "Total matches: 0");
    assert_eq!(summary_line(42), "Total matches: 42");
}
