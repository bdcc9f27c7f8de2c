use rcc_conformance::render::{render_dashboard, splice_autogen};
use rcc_conformance::report::{Outcome, Report, SuiteReport};

#[test]
fn splice_preserves_surrounding_text() {
    let md = "# Title\n\n<!-- BEGIN autogen -->\nold table\n<!-- END autogen -->\n\n## Footer\n";
    let result = splice_autogen(md, "new table\n").unwrap();
    assert!(result.starts_with("# Title\n\n<!-- BEGIN autogen -->\n"));
    assert!(result.contains("new table\n<!-- END autogen -->"));
    assert!(result.ends_with("\n\n## Footer\n"));
}

#[test]
fn splice_errors_on_missing_begin() {
    let md = "no markers here\n<!-- END autogen -->\n";
    assert!(splice_autogen(md, "x").is_err());
}

#[test]
fn splice_errors_on_missing_end() {
    let md = "<!-- BEGIN autogen -->\nno end\n";
    assert!(splice_autogen(md, "x").is_err());
}

#[test]
fn splice_errors_when_end_precedes_begin() {
    let md = "<!-- END autogen -->\n<!-- BEGIN autogen -->\n";
    let err = splice_autogen(md, "x").unwrap_err();
    assert_eq!(err.message, "`<!-- END autogen -->` appears before `<!-- BEGIN autogen -->`");
}

#[test]
fn splice_error_names_missing_marker() {
    let err = splice_autogen("<!-- BEGIN autogen -->\n", "x").unwrap_err();
    assert_eq!(err.message, "missing `<!-- END autogen -->` in conformance.md");
}

#[test]
fn splice_normalizes_crlf_and_replaces_exactly() {
    let md = "a\r\n<!-- BEGIN autogen -->\r\nold\r\n<!-- END autogen -->\r\nb\r\n";
    let result = splice_autogen(md, "new\n").unwrap();
    assert_eq!(result, "a\n<!-- BEGIN autogen -->\nnew\n<!-- END autogen -->\nb\n");
}

#[test]
fn render_empty_report_produces_header_only() {
    let report = Report::default();
    let table = render_dashboard(&report);

    assert!(table.starts_with("| Suite |"));
    assert!(table.contains("|-------|"));
    let lines: Vec<&str> = table.lines().collect();
    assert_eq!(lines.len(), 2, "empty report should have only the header rows");
}

#[test]
fn percentage_zero_discovered() {
    let report = Report { suites: vec![SuiteReport::new("empty".to_owned())] };
    let table = render_dashboard(&report);

    assert!(table.contains("| empty | 0 | 0 | 0 | 0 | 0 | 0.0 |"));
}

fn suite_with(name: &str, pass: usize, xfail: usize, fail: usize, skip: usize) -> SuiteReport {
    let mut s = SuiteReport::new(name.to_owned());
    for i in 0..pass {
        s.insert(format!("p{i}"), Outcome::Pass);
    }
    for i in 0..xfail {
        s.insert(format!("x{i}"), Outcome::XFail { reason: "r".to_owned() });
    }
    for i in 0..fail {
        s.insert(format!("f{i}"), Outcome::Fail { reason: "r".to_owned() });
    }
    for i in 0..skip {
        s.insert(format!("s{i}"), Outcome::Skip { reason: "r".to_owned() });
    }
    s
}

#[test]
fn dashboard_row_counts_and_percentage() {
    let report = Report { suites: vec![suite_with("mock", 1, 1, 1, 0)] };
    let table = render_dashboard(&report);
    assert!(table.ends_with("| mock | 3 | 1 | 1 | 1 | 0 | 66.7 |\n"), "{table}");
}

#[test]
fn dashboard_percentage_rounds_to_one_decimal() {
    let report = Report {
        suites: vec![suite_with("a", 1, 0, 2, 0), suite_with("b", 2, 0, 0, 0), suite_with("c", 1, 0, 7, 0)],
    };
    let table = render_dashboard(&report);
    assert!(table.contains("| a | 3 | 1 | 0 | 2 | 0 | 33.3 |\n"), "{table}");
    assert!(table.contains("| b | 2 | 2 | 0 | 0 | 0 | 100.0 |\n"), "{table}");
    assert!(table.contains("| c | 8 | 1 | 0 | 7 | 0 | 12.5 |\n"), "{table}");
}

#[test]
fn intro_text_preserved_after_splice() {
    let report = Report { suites: vec![suite_with("mock", 2, 0, 0, 1)] };
    let table = render_dashboard(&report);
    let md = "# Conformance\n\nHand-written intro text that must be preserved.\n\n<!-- BEGIN autogen -->\n<!-- END autogen -->\n\nThis section must also be preserved.\n";
    let actual = splice_autogen(md, &table).unwrap();
    assert!(actual.contains("Hand-written intro text that must be preserved."));
    assert!(actual.contains("This section must also be preserved."));
    assert!(actual.contains("| mock | 3 | 2 | 0 | 0 | 1 | 66.7 |\n<!-- END autogen -->"));
}

#[test]
fn splicing_twice_equals_splicing_once() {
    let md = "# Title\n<!-- BEGIN autogen -->\nold\n<!-- END autogen -->\ntail\n";
    let once = splice_autogen(md, "| a | b |\n").unwrap();
    let twice = splice_autogen(&once, "| a | b |\n").unwrap();
    assert_eq!(once, twice);
    assert_eq!(once, "# Title\n<!-- BEGIN autogen -->\n| a | b |\n<!-- END autogen -->\ntail\n");
}

#[test]
fn percentage_matches_floating_point_printing() {
    let report = Report { suites: vec![suite_with("w", 20, 3, 57, 0)] };
    let table = render_dashboard(&report);
    assert!(table.contains("| w | 80 | 20 | 3 | 57 | 0 | 28.7 |\n"), "{table}");
    for d in 1..=60usize {
        for n in 0..=d {
            let table = render_dashboard(&Report { suites: vec![suite_with("s", n, 0, d - n, 0)] });
            let expected = format!("{:.1}", (n as f64 / d as f64) * 100.0);
            assert!(table.ends_with(&format!("| {expected} |\n")), "{n}/{d}: {table}");
        }
    }
}

#[test]
fn splicing_the_same_table_twice_changes_nothing() {
    let md = "# T\n<!-- BEGIN autogen -->\nold\n<!-- END autogen -->\ntail\n";
    let once = splice_autogen(md, "| a |\n").unwrap();
    let twice = splice_autogen(&once, "| a |\n").unwrap();
    assert_eq!(once, twice);
    let crlf = "x\r\n<!-- BEGIN autogen -->\r\n<!-- END autogen -->\r\n";
    let once = splice_autogen(crlf, "t\n").unwrap();
    assert_eq!(splice_autogen(&once, "t\n").unwrap(), once);
}
