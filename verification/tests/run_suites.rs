use rcc_conformance::report::{Outcome, TestCase};
use rcc_conformance::suite_run::{run_suites, Adapter, Suite};
use rcc_conformance::xfail::XFailEntry;

struct FixedAdapter {
    outcome: Outcome,
}

impl Adapter for FixedAdapter {
    fn discover(&self, root: &str) -> Result<Vec<TestCase>, String> {
        Ok(vec![
            TestCase { id: "suite::pass".into(), path: format!("{root}/pass.c") },
            TestCase { id: "suite::known-fail".into(), path: format!("{root}/known-fail.c") },
        ])
    }

    fn run(&self, _rcc_path: &str, case: &TestCase) -> Result<Outcome, String> {
        if case.id.ends_with("pass") {
            Ok(Outcome::Pass)
        } else {
            Ok(self.outcome.clone())
        }
    }
}

struct BrokenAdapter;

impl Adapter for BrokenAdapter {
    fn discover(&self, _root: &str) -> Result<Vec<TestCase>, String> {
        Err("no such directory".to_owned())
    }

    fn run(&self, _rcc_path: &str, _case: &TestCase) -> Result<Outcome, String> {
        Err("not reached".to_owned())
    }
}

struct ErroringRun;

impl Adapter for ErroringRun {
    fn discover(&self, root: &str) -> Result<Vec<TestCase>, String> {
        Ok(vec![TestCase { id: "suite::a".into(), path: format!("{root}/a.c") }])
    }

    fn run(&self, _rcc_path: &str, _case: &TestCase) -> Result<Outcome, String> {
        Err("rcc crashed".to_owned())
    }
}

struct Recording {
    calls: std::sync::Arc<std::sync::Mutex<Vec<String>>>,
}

impl Adapter for Recording {
    fn discover(&self, root: &str) -> Result<Vec<TestCase>, String> {
        self.calls.lock().unwrap().push(format!("discover {root}"));
        Ok(vec![
            TestCase { id: "r::b".into(), path: format!("{root}/b.c") },
            TestCase { id: "r::a".into(), path: format!("{root}/a.c") },
        ])
    }

    fn run(&self, rcc_path: &str, case: &TestCase) -> Result<Outcome, String> {
        self.calls.lock().unwrap().push(format!("run {rcc_path} {} {}", case.id, case.path));
        Ok(Outcome::Fail { reason: case.path.clone() })
    }
}

fn entry(id: &str, reason: &str) -> XFailEntry {
    XFailEntry { id: id.to_owned(), reason: reason.to_owned() }
}

fn pass_rate(pass: u32, xfail: u32, discovered: u32) -> f64 {
    if discovered == 0 {
        0.0
    } else {
        f64::from(pass + xfail) / f64::from(discovered)
    }
}

#[test]
fn run_suites_applies_xfail_entries_to_non_passing_outcomes() {
    let suite = Suite {
        name: "suite".into(),
        root: "tmp".into(),
        adapter: Box::new(FixedAdapter { outcome: Outcome::Fail { reason: "boom".into() } }),
    };
    let report = run_suites("rcc", &[suite], vec![Ok(vec![entry("suite::known-fail", "future task")])]);
    let suite = &report.suites[0];
    let c = suite.counts();
    assert_eq!(c.pass, 1);
    assert_eq!(c.xfail, 1);
    assert_eq!(pass_rate(c.pass, c.xfail, c.discovered()), 1.0);
    assert_eq!(suite.get("suite::known-fail"), Some(&Outcome::XFail { reason: "future task".into() }));
}

#[test]
fn run_suites_leaves_xpass_as_pass() {
    let suite = Suite {
        name: "suite".into(),
        root: "tmp".into(),
        adapter: Box::new(FixedAdapter { outcome: Outcome::Pass }),
    };
    let report = run_suites("rcc", &[suite], vec![Ok(vec![entry("suite::known-fail", "stale xfail")])]);
    let suite = &report.suites[0];
    let c = suite.counts();
    assert_eq!(c.pass, 2);
    assert_eq!(c.xfail, 0);
    assert_eq!(pass_rate(c.pass, c.xfail, c.discovered()), 1.0);
}

#[test]
fn run_suites_records_setup_failures_as_failing_cases() {
    let suites = [
        Suite { name: "a".into(), root: "a".into(), adapter: Box::new(BrokenAdapter) },
        Suite { name: "b".into(), root: "b".into(), adapter: Box::new(FixedAdapter { outcome: Outcome::Pass }) },
    ];
    let report = run_suites("rcc", &suites, vec![Ok(Vec::new()), Err("TOML parse error".to_owned())]);
    assert_eq!(report.suites.len(), 2);
    assert_eq!(report.suites[0].name(), "a");
    assert_eq!(report.suites[0].len(), 1);
    assert_eq!(
        report.suites[0].get("<discovery>"),
        Some(&Outcome::Fail { reason: "no such directory".into() })
    );
    assert_eq!(report.suites[1].len(), 1);
    assert_eq!(report.suites[1].get("<xfail>"), Some(&Outcome::Fail { reason: "TOML parse error".into() }));
}

#[test]
fn run_suites_reports_run_errors_and_unmatched_entries() {
    let suite = Suite { name: "s".into(), root: "r".into(), adapter: Box::new(ErroringRun) };
    let report = run_suites("rcc", &[suite], vec![Ok(vec![entry("suite::gone", "old")])]);
    let s = &report.suites[0];
    assert_eq!(s.get("suite::a"), Some(&Outcome::Fail { reason: "rcc crashed".into() }));
    assert_eq!(
        s.get("suite::gone"),
        Some(&Outcome::Skip { reason: "xfail entry did not match discovered case: old".into() })
    );
    assert_eq!(s.counts().discovered(), 2);
}

#[test]
fn run_suites_hands_each_discovered_case_to_the_adapter_in_order() {
    let calls = std::sync::Arc::new(std::sync::Mutex::new(Vec::new()));
    let suite = Suite { name: "r".into(), root: "root".into(), adapter: Box::new(Recording { calls: calls.clone() }) };
    let report = run_suites("/bin/rcc", &[suite], vec![Ok(Vec::new())]);
    assert_eq!(
        *calls.lock().unwrap(),
        ["discover root", "run /bin/rcc r::b root/b.c", "run /bin/rcc r::a root/a.c"]
    );
    let s = &report.suites[0];
    assert_eq!(s.get("r::a"), Some(&Outcome::Fail { reason: "root/a.c".into() }));
    assert_eq!(s.get("r::b"), Some(&Outcome::Fail { reason: "root/b.c".into() }));
    let ids: Vec<&str> = s.cases().iter().map(|(id, _)| id.as_str()).collect();
    assert_eq!(ids, ["r::a", "r::b"]);
}
