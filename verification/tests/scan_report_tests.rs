use wordwarden::discover::{classify_entry, excluded_config_name, EntryKind, PathAction};
use wordwarden::matching::Occurrence;
use wordwarden::report::{compute_width, exit_status, render_report, usize_to_string};
use wordwarden::scan::{run_scan, ScannedFile};
use wordwarden::text::split_lines;

const MARKER: &str = "wordwarden:skip-line";

fn file(path: &str, text: &str) -> ScannedFile {
    ScannedFile { path: path.to_string(), lines: split_lines(text) }
}

fn targets(parts: &[&str]) -> Vec<String> {
    parts.iter().map(|p| p.to_string()).collect()
}

#[test]
fn scenario_two_files_one_target() {
    let files = vec![file("a.txt", "alpha\nBETA\n"), file("b.txt", "gamma alpha\n")];
    let results = run_scan(&files, &targets(&["alpha"]), false, MARKER);
    assert_eq!(results.len(), 2);
    assert_eq!(results[0].file_path, "a.txt");
    assert_eq!(results[0].line_number, 1);
    assert_eq!(results[1].file_path, "b.txt");
    assert_eq!(results[1].line_number, 1);
    assert_eq!(exit_status(&results), 1);
}

#[test]
fn scenario_absent_target_exits_zero() {
    let files = vec![file("a.txt", "alpha\nBETA\n"), file("b.txt", "gamma alpha\n")];
    let results = run_scan(&files, &targets(&["zeta"]), false, MARKER);
    assert_eq!(results.len(), 0);
    assert_eq!(exit_status(&results), 0);
}

#[test]
fn scenario_escaped_line_reports_nothing() {
    let files = vec![file("a.txt", "alpha wordwarden:skip-line\n")];
    let results = run_scan(&files, &targets(&["alpha"]), false, MARKER);
    assert_eq!(results.len(), 0);
    assert_eq!(exit_status(&results), 0);
}

#[test]
fn result_order_is_file_then_target_then_line() {
    let files = vec![
        file("one.txt", "beta\nalpha\nalpha beta\n"),
        file("two.txt", "beta alpha\n"),
    ];
    let results = run_scan(&files, &targets(&["alpha", "beta"]), false, MARKER);
    let triples: Vec<(&str, &str, usize)> = results
        .iter()
        .map(|o| (o.file_path.as_str(), o.target.as_str(), o.line_number))
        .collect();
    assert_eq!(
        triples,
        vec![
            ("one.txt", "alpha", 2),
            ("one.txt", "alpha", 3),
            ("one.txt", "beta", 1),
            ("one.txt", "beta", 3),
            ("two.txt", "alpha", 1),
            ("two.txt", "beta", 1),
        ]
    );
}

#[test]
fn repeated_runs_render_identical_output() {
    let files = vec![file("a.txt", "alpha\nBETA\n"), file("b.txt", "gamma alpha\n")];
    let t = targets(&["alpha", "beta"]);
    let first = render_report(&run_scan(&files, &t, false, MARKER));
    let second = render_report(&run_scan(&files, &t, false, MARKER));
    assert_eq!(first, second);
}

#[test]
fn duplicate_targets_report_twice() {
    let files = vec![file("a.txt", "alpha\n")];
    let results = run_scan(&files, &targets(&["alpha", "alpha"]), false, MARKER);
    assert_eq!(results.len(), 2);
}

#[test]
fn rendered_line_highlights_every_match() {
    let files = vec![file("a.txt", "alpha\n"), file("b.txt", "gamma alpha\n")];
    let report = render_report(&run_scan(&files, &targets(&["alpha"]), false, MARKER));
    assert_eq!(report.len(), 2);
    assert_eq!(report[0], "a.txt:1 -> \u{1b}[1malpha\u{1b}[0m");
    assert_eq!(report[1], "b.txt:1 -> gamma \u{1b}[1malpha\u{1b}[0m");
}

#[test]
fn highlight_is_case_insensitive_and_keeps_original_case() {
    let files = vec![file("a.txt", "say FOO and foo\n")];
    let report = render_report(&run_scan(&files, &targets(&["Foo"]), false, MARKER));
    assert_eq!(report.len(), 1);
    assert_eq!(
        report[0],
        "a.txt:1 -> say \u{1b}[1mFOO\u{1b}[0m and \u{1b}[1mfoo\u{1b}[0m"
    );
}

#[test]
fn labels_align_to_widest() {
    let files = vec![file("a.txt", "alpha\n"), file("longer/name.txt", "alpha\n")];
    let report = render_report(&run_scan(&files, &targets(&["alpha"]), false, MARKER));
    assert_eq!(report[0], "a.txt:1           -> \u{1b}[1malpha\u{1b}[0m");
    assert_eq!(report[1], "longer/name.txt:1 -> \u{1b}[1malpha\u{1b}[0m");
}

#[test]
fn width_is_widest_label_or_zero() {
    let occ = Occurrence {
        file_path: "abc.txt".to_string(),
        line_number: 12,
        target: "t".to_string(),
        line_text: "t".to_string(),
    };
    assert_eq!(compute_width(&vec![occ]), 10);
    assert_eq!(compute_width(&Vec::new()), 0);
}

#[test]
fn numerals_render_in_decimal() {
    assert_eq!(usize_to_string(0), "0");
    assert_eq!(usize_to_string(7), "7");
    assert_eq!(usize_to_string(42), "42");
    assert_eq!(usize_to_string(105), "105");
}

#[test]
fn direct_config_file_is_skipped() {
    assert_eq!(
        classify_entry(EntryKind::File, true, ".pre-commit-config.yaml"),
        PathAction::Skip
    );
    assert_eq!(
        classify_entry(EntryKind::File, true, ".pre-commit-config.yml"),
        PathAction::Skip
    );
}

#[test]
fn recursed_config_file_is_included() {
    assert_eq!(
        classify_entry(EntryKind::File, false, ".pre-commit-config.yaml"),
        PathAction::Include
    );
}

#[test]
fn direct_config_file_yields_no_occurrences_but_recursed_does() {
    let text = "alpha here\n";
    let mut scanned: Vec<ScannedFile> = Vec::new();
    for direct in [true, false] {
        if classify_entry(EntryKind::File, direct, ".pre-commit-config.yaml")
            == PathAction::Include
        {
            scanned.push(file(".pre-commit-config.yaml", text));
        }
    }
    let results = run_scan(&scanned, &targets(&["alpha"]), false, MARKER);
    assert_eq!(results.len(), 1);
}

#[test]
fn traversal_actions() {
    assert_eq!(classify_entry(EntryKind::Directory, true, "sub"), PathAction::Recurse);
    assert_eq!(classify_entry(EntryKind::Directory, false, "sub"), PathAction::Recurse);
    assert_eq!(classify_entry(EntryKind::Other, false, "broken-link"), PathAction::Skip);
    assert_eq!(classify_entry(EntryKind::File, true, "ordinary.txt"), PathAction::Include);
}

#[test]
fn empty_file_reports_nothing() {
    let files = vec![file("a.txt", "")];
    let results = run_scan(&files, &targets(&["alpha"]), false, MARKER);
    assert_eq!(results.len(), 0);
    assert_eq!(exit_status(&results), 0);
}

#[test]
fn empty_target_list_reports_nothing() {
    let files = vec![file("a.txt", "alpha\n")];
    let results = run_scan(&files, &Vec::new(), false, MARKER);
    assert_eq!(results.len(), 0);
}

#[test]
fn empty_target_matches_every_unescaped_line() {
    let files = vec![file("a.txt", "one\ntwo wordwarden:skip-line\nthree\n")];
    for case_sensitive in [false, true] {
        let results = run_scan(&files, &targets(&[""]), case_sensitive, MARKER);
        assert_eq!(results.len(), 2);
        assert_eq!(results[0].line_number, 1);
        assert_eq!(results[1].line_number, 3);
    }
}

#[test]
fn excluded_names_are_exact() {
    assert!(excluded_config_name(".pre-commit-config.yaml"));
    assert!(excluded_config_name(".pre-commit-config.yml"));
    assert!(!excluded_config_name("pre-commit-config.yaml"));
    assert!(!excluded_config_name(".pre-commit-config.yaml "));
}
