use rcc_conformance::report::{Outcome, OutcomeKind, Report, SuiteReport};

fn sample_report() -> Report {
    let mut cases = SuiteReport::new("mock-suite".to_owned());
    cases.insert("test::pass".to_owned(), Outcome::Pass);
    cases.insert("test::fail".to_owned(), Outcome::Fail { reason: "stdout mismatch".to_owned() });
    cases.insert(
        "test::xfail".to_owned(),
        Outcome::XFail { reason: "bit-fields not implemented".to_owned() },
    );
    cases.insert("test::skip".to_owned(), Outcome::Skip { reason: "no .expected file".to_owned() });
    Report { suites: vec![cases] }
}

#[test]
fn report_counts_agree() {
    let report = sample_report();
    let suite = &report.suites[0];
    let c = suite.counts();

    assert_eq!(c.pass, 1);
    assert_eq!(c.fail, 1);
    assert_eq!(c.xfail, 1);
    assert_eq!(c.skip, 1);
    assert_eq!(c.discovered(), 4);
}

#[test]
fn insert_replaces_an_earlier_outcome() {
    let mut s = SuiteReport::new("s".to_owned());
    s.insert("a".to_owned(), Outcome::Fail { reason: "first".to_owned() });
    s.insert("b".to_owned(), Outcome::Pass);
    s.insert("a".to_owned(), Outcome::Pass);
    assert_eq!(s.len(), 2);
    assert_eq!(s.get("a"), Some(&Outcome::Pass));
    assert_eq!(s.get("b"), Some(&Outcome::Pass));
    assert_eq!(s.get("c"), None);
    assert_eq!(s.counts().pass, 2);
}

#[test]
fn outcome_kind_and_duplicate() {
    let o = Outcome::Skip { reason: "why".to_owned() };
    assert_eq!(o.kind(), OutcomeKind::Skip);
    assert_eq!(o.duplicate(), o);
    assert_eq!(Outcome::Pass.kind(), OutcomeKind::Pass);
}

#[test]
fn cases_are_kept_in_id_order_once_each() {
    let mut s = SuiteReport::new("s".to_owned());
    for id in ["m", "b", "zeta", "a", "b", "Z", "é", "ab"] {
        s.insert(id.to_owned(), Outcome::Pass);
    }
    s.insert("m".to_owned(), Outcome::Skip { reason: "later".to_owned() });
    let ids: Vec<&str> = s.cases().iter().map(|(id, _)| id.as_str()).collect();
    let mut expected = vec!["m", "b", "zeta", "a", "Z", "é", "ab"];
    expected.sort();
    assert_eq!(ids, expected);
    assert_eq!(s.get("m"), Some(&Outcome::Skip { reason: "later".to_owned() }));
    assert_eq!(s.name(), "s");
    let owned = s.into_cases();
    assert_eq!(owned.len(), 7);
    assert_eq!(owned[0].0, "Z");
}
