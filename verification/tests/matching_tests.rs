use wordwarden::matching::{line_matches, scan_file_lines, Occurrence};
use wordwarden::text::{contains_sub, split_lines, str_eq};

const MARKER: &str = "wordwarden:skip-line";

fn lines(parts: &[&str]) -> Vec<String> {
    parts.iter().map(|p| p.to_string()).collect()
}

#[test]
fn case_insensitive_mode_matches_across_case() {
    assert!(line_matches("this has foo in it", "Foo", false, MARKER));
}

#[test]
fn case_sensitive_mode_requires_exact_case() {
    assert!(!line_matches("this has foo in it", "Foo", true, MARKER));
    assert!(line_matches("this has Foo in it", "Foo", true, MARKER));
}

#[test]
fn escape_marker_suppresses_match_case_insensitive() {
    assert!(!line_matches("alpha wordwarden:skip-line", "alpha", false, MARKER));
}

#[test]
fn escape_marker_suppresses_match_case_sensitive() {
    assert!(!line_matches("alpha wordwarden:skip-line", "alpha", true, MARKER));
}

#[test]
fn escape_marker_suppresses_even_uppercase_target_hit() {
    assert!(!line_matches("ALPHA wordwarden:skip-line", "alpha", false, MARKER));
}

#[test]
fn custom_escape_marker_is_honoured() {
    assert!(!line_matches("alpha skip-me", "alpha", false, "skip-me"));
    assert!(line_matches("alpha skip-me", "alpha", false, MARKER));
}

#[test]
fn target_metacharacters_are_literal() {
    assert!(!line_matches("axb", "a.b", false, MARKER));
    assert!(line_matches("say a.b here", "a.b", false, MARKER));
    assert!(!line_matches("abc", "a+b", false, MARKER));
}

#[test]
fn occurrence_count_equals_matching_lines() {
    let file_lines = lines(&[
        "nothing here",
        "alpha",
        "some alpha y",
        "skip alpha wordwarden:skip-line",
        "ALPHA again",
    ]);
    let mut results: Vec<Occurrence> = Vec::new();
    let found = scan_file_lines("f.txt", &file_lines, "alpha", false, MARKER, &mut results);
    assert!(found);
    assert_eq!(results.len(), 3);
    assert_eq!(results[0].line_number, 2);
    assert_eq!(results[1].line_number, 3);
    assert_eq!(results[2].line_number, 5);
    assert_eq!(results[0].file_path, "f.txt");
    assert_eq!(results[0].target, "alpha");
    assert_eq!(results[1].line_text, "some alpha y");
}

#[test]
fn one_occurrence_per_line_even_with_repeats() {
    let file_lines = lines(&["alpha alpha alpha"]);
    let mut results: Vec<Occurrence> = Vec::new();
    let found = scan_file_lines("f.txt", &file_lines, "alpha", false, MARKER, &mut results);
    assert!(found);
    assert_eq!(results.len(), 1);
    assert_eq!(results[0].line_number, 1);
}

#[test]
fn scan_without_match_reports_nothing() {
    let file_lines = lines(&["alpha", "beta"]);
    let mut results: Vec<Occurrence> = Vec::new();
    let found = scan_file_lines("f.txt", &file_lines, "zeta", false, MARKER, &mut results);
    assert!(!found);
    assert_eq!(results.len(), 0);
}

#[test]
fn contains_sub_is_literal_substring() {
    assert!(contains_sub("hello world", "lo wo"));
    assert!(contains_sub("hello", ""));
    assert!(contains_sub("", ""));
    assert!(!contains_sub("", "a"));
    assert!(!contains_sub("hello", "He"));
}

#[test]
fn str_eq_compares_contents() {
    assert!(str_eq("abc", "abc"));
    assert!(!str_eq("abc", "abd"));
    assert!(!str_eq("abc", "ab"));
    assert!(str_eq("", ""));
}

#[test]
fn split_lines_basic() {
    assert_eq!(split_lines("alpha\nBETA\n"), vec!["alpha".to_string(), "BETA".to_string()]);
    assert_eq!(split_lines("gamma alpha\n"), vec!["gamma alpha".to_string()]);
}

#[test]
fn split_lines_edge_cases() {
    assert_eq!(split_lines(""), Vec::<String>::new());
    assert_eq!(split_lines("abc"), vec!["abc".to_string()]);
    assert_eq!(split_lines("a\r\nb"), vec!["a".to_string(), "b".to_string()]);
    assert_eq!(split_lines("a\n\nb\n"), vec!["a".to_string(), "".to_string(), "b".to_string()]);
    assert_eq!(split_lines("abc\r"), vec!["abc\r".to_string()]);
}
