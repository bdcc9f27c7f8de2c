use std::path::Path;

use rcc_conformance::plan_run::{plan_verdict, StepResult, Verdict};
use rcc_conformance::adapters::{
    Arch, CTestSuiteAdapter, CaseFiles, FileEntry, Host, Listing, Workspace,
};
use rcc_conformance::compare::ExpectedFile;
use rcc_conformance::report::{Outcome, TestCase};
use rcc_conformance::steps::{judge_outcome, run_step_outcome, Step};

const LINUX: Host = Host { windows: false, arch: Arch::X86_64 };

fn entry(dir: &str, name: &str, paired: bool) -> FileEntry {
    let p = Path::new(name);
    FileEntry {
        path: format!("{dir}/{name}"),
        stem: p.file_stem().and_then(|s| s.to_str()).map(str::to_owned),
        extension: p.extension().and_then(|s| s.to_str()).map(str::to_owned),
        paired,
    }
}

/// The fixture tree `tests/single-exec` of the mini c-testsuite: three
/// cases, two with `.expected` files.
fn fixture_listing() -> Listing {
    let dir = "fixtures/c-testsuite/tests/single-exec";
    let names = ["00002.c", "00001.c.expected", "00003.c", "00001.c", "00002.c.expected"];
    Listing {
        dir: dir.to_owned(),
        entries: Some(Ok(names.iter().map(|n| entry(dir, n, false)).collect())),
    }
}

fn expected(contents: &[u8]) -> ExpectedFile {
    ExpectedFile { path: "case.expected".to_owned(), contents: Ok(contents.to_vec()) }
}

fn workspace() -> Workspace {
    Workspace {
        obj: "tmp/test.o".to_owned(),
        common_obj: "tmp/common.o".to_owned(),
        support_obj: "tmp/stage_support.o".to_owned(),
        support_src: "tmp/stage_support.c".to_owned(),
        exe: "tmp/test".to_owned(),
        run_dir: "tmp/run".to_owned(),
        run_copy: None,
    }
}

fn files(case: &TestCase) -> CaseFiles {
    CaseFiles {
        id: case.id.clone(),
        path: case.path.clone(),
        dir: Some("fixtures/c-testsuite/tests/single-exec".to_owned()),
        dir_common: None,
        suite_common: None,
        stem: None,
        file_name: None,
        expected: format!("{}.expected", case.path),
    }
}

/// Performs a plan in which every program fails to start, with the given
/// files present.
fn run_without_programs(steps: &[Step], present: &[String]) -> Outcome {
    let results: Vec<StepResult> = steps
        .iter()
        .map(|step| match step {
            Step::Require(path, _) => StepResult::Exists(present.contains(path)),
            Step::Run(..) | Step::TccCompile(..) | Step::Final(..) => StepResult::Ran(
                Err("No such file or directory (os error 2)".to_owned()),
                Some(expected(b"")),
            ),
            _ => StepResult::Done,
        })
        .collect();
    match plan_verdict(steps, &results) {
        Some(Verdict::Decided(o)) => o,
        other => panic!("plan ended without an outcome: {other:?}"),
    }
}

#[test]
fn ctestsuite_adapter_discover_finds_fixture_files() {
    let cases = CTestSuiteAdapter.discover(&fixture_listing()).unwrap();
    assert_eq!(cases.len(), 3);
    assert_eq!(cases[0].id, "c-testsuite::00001");
    assert_eq!(cases[1].id, "c-testsuite::00002");
    assert_eq!(cases[2].id, "c-testsuite::00003");
}

#[test]
fn ctestsuite_adapter_discover_cases_sorted_by_id() {
    let cases = CTestSuiteAdapter.discover(&fixture_listing()).unwrap();
    let ids: Vec<&str> = cases.iter().map(|c| c.id.as_str()).collect();
    let mut sorted = ids.clone();
    sorted.sort();
    assert_eq!(ids, sorted);
}

#[test]
fn discover_reports_missing_directory() {
    let listing = Listing { dir: "nowhere".to_owned(), entries: None };
    let err = CTestSuiteAdapter.discover(&listing).unwrap_err();
    assert_eq!(err.message, "c-testsuite single-exec directory not found: nowhere");
}

#[test]
fn discover_reports_non_utf8_stem() {
    let mut bad = entry("d", "x.c", false);
    bad.stem = None;
    let listing = Listing { dir: "d".to_owned(), entries: Some(Ok(vec![bad])) };
    let err = CTestSuiteAdapter.discover(&listing).unwrap_err();
    assert_eq!(err.message, "non-UTF-8 filename: d/x.c");
}

#[test]
fn run_skip_when_no_expected_file() {
    let cases = CTestSuiteAdapter.discover(&fixture_listing()).unwrap();
    let skip_case = cases.iter().find(|c| c.id == "c-testsuite::00003").unwrap();
    let present = vec![
        "fixtures/c-testsuite/tests/single-exec/00001.c.expected".to_owned(),
        "fixtures/c-testsuite/tests/single-exec/00002.c.expected".to_owned(),
    ];
    let steps = CTestSuiteAdapter.plan(&files(skip_case), &workspace(), LINUX);
    let outcome = run_without_programs(&steps, &present);
    assert!(matches!(outcome, Outcome::Skip { .. }), "expected Skip, got {outcome:?}",);
}

#[test]
fn ctestsuite_adapter_run_fail_when_rcc_not_found() {
    let cases = CTestSuiteAdapter.discover(&fixture_listing()).unwrap();
    let case = cases.iter().find(|c| c.id == "c-testsuite::00001").unwrap();
    let present = vec!["fixtures/c-testsuite/tests/single-exec/00001.c.expected".to_owned()];
    let steps = CTestSuiteAdapter.plan(&files(case), &workspace(), LINUX);
    let outcome = run_without_programs(&steps, &present);
    assert!(matches!(outcome, Outcome::Fail { .. }), "expected Fail, got {outcome:?}",);
}

#[test]
fn plan_compiles_links_and_runs() {
    let case = TestCase { id: "c-testsuite::00001".to_owned(), path: "d/00001.c".to_owned() };
    let steps = CTestSuiteAdapter.plan(&files(&case), &workspace(), LINUX);
    assert_eq!(steps.len(), 4);
    match &steps[1] {
        Step::Run(cmd, _) => {
            assert_eq!(cmd.program, "rcc");
            assert_eq!(cmd.args, vec!["--emit=obj", "-o", "tmp/test.o", "d/00001.c"]);
        }
        other => panic!("unexpected {other:?}"),
    }
    match &steps[2] {
        Step::Run(cmd, _) => assert_eq!(cmd.args, vec!["-o", "tmp/test", "tmp/test.o", "-lm"]),
        other => panic!("unexpected {other:?}"),
    }
}

#[test]
fn compare_pass_empty_expected() {
    let outcome = CTestSuiteAdapter::compare_outcome(b"", Some(0), &expected(b""));
    assert_eq!(outcome, Outcome::Pass);
}

#[test]
fn compare_pass_nonempty_expected() {
    let outcome = CTestSuiteAdapter::compare_outcome(b"hello\n", Some(0), &expected(b"hello\n"));
    assert_eq!(outcome, Outcome::Pass);
}

#[test]
fn compare_normalizes_crlf_expected_files() {
    let outcome = CTestSuiteAdapter::compare_outcome(b"42\n64\n", Some(0), &expected(b"42\r\n64\r\n"));
    assert_eq!(outcome, Outcome::Pass);
}

#[test]
fn compare_fail_stdout_mismatch() {
    let outcome = CTestSuiteAdapter::compare_outcome(b"wrong\n", Some(0), &expected(b"hello\n"));
    assert!(matches!(outcome, Outcome::Fail { .. }), "expected Fail, got {outcome:?}",);
}

#[test]
fn compare_fail_nonzero_exit() {
    let outcome = CTestSuiteAdapter::compare_outcome(b"", Some(1), &expected(b""));
    assert_eq!(outcome, Outcome::Fail { reason: "non-zero exit code: 1".to_owned() });
}

#[test]
fn compare_fail_signal_killed() {
    let outcome = CTestSuiteAdapter::compare_outcome(b"", None, &expected(b""));
    assert_eq!(outcome, Outcome::Fail { reason: "non-zero exit code: killed by signal".to_owned() });
}

#[test]
fn compare_reports_negative_exit_code() {
    let outcome = CTestSuiteAdapter::compare_outcome(b"", Some(-11), &expected(b""));
    assert_eq!(outcome, Outcome::Fail { reason: "non-zero exit code: -11".to_owned() });
}

#[test]
fn compare_skip_missing_expected_file() {
    let missing = ExpectedFile {
        path: "no_such_file.c.expected".to_owned(),
        contents: Err("No such file or directory (os error 2)".to_owned()),
    };
    let outcome = CTestSuiteAdapter::compare_outcome(b"", Some(0), &missing);
    assert_eq!(
        outcome,
        Outcome::Skip {
            reason: "cannot read no_such_file.c.expected: No such file or directory (os error 2)"
                .to_owned()
        }
    );
}
