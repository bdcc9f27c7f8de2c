use std::path::Path;

use rcc_conformance::plan_run::{plan_verdict, StepResult, Verdict};
use rcc_conformance::adapters::{
    AdapterError, CaseFiles, ChibiccAdapter, ChibiccMode, FileEntry, Listing, Workspace,
};
use rcc_conformance::compare::ExpectedFile;
use rcc_conformance::report::{Outcome, TestCase};
use rcc_conformance::steps::{judge_outcome, run_step_outcome, Step};

fn entry(dir: &str, name: &str) -> FileEntry {
    let p = Path::new(name);
    FileEntry {
        path: format!("{dir}/{name}"),
        stem: p.file_stem().and_then(|s| s.to_str()).map(str::to_owned),
        extension: p.extension().and_then(|s| s.to_str()).map(str::to_owned),
        paired: false,
    }
}

fn listing(dir: &str, names: &[&str]) -> Listing {
    Listing { dir: dir.to_owned(), entries: Some(Ok(names.iter().map(|n| entry(dir, n)).collect())) }
}

/// The `test` directory of the mini chibicc fixture tree.
fn fixtures_test_dir() -> Listing {
    listing("fixtures/chibicc-mini/test", &["control.c", "common", "eval-order.c", "test.h", "arith.c"])
}

fn workspace() -> Workspace {
    Workspace {
        obj: "tmp/test.o".to_owned(),
        common_obj: "tmp/common.o".to_owned(),
        support_obj: "tmp/stage_support.o".to_owned(),
        support_src: "tmp/stage_support.c".to_owned(),
        exe: "tmp/test".to_owned(),
        run_dir: "tmp/run".to_owned(),
        run_copy: None,
    }
}

fn files(case: &TestCase, dir: &str) -> CaseFiles {
    CaseFiles {
        id: case.id.clone(),
        path: case.path.clone(),
        dir: Some(dir.to_owned()),
        dir_common: Some(format!("{dir}/common")),
        suite_common: Some(format!("{dir}/../test/common")),
        stem: None,
        file_name: None,
        expected: String::new(),
    }
}

/// Performs a plan in which every program fails to start, with the given
/// files present.
fn run_without_programs(steps: &[Step], present: &[String]) -> Outcome {
    let results: Vec<StepResult> = steps
        .iter()
        .map(|step| match step {
            Step::Require(path, _) => StepResult::Exists(present.contains(path)),
            Step::Run(..) | Step::TccCompile(..) | Step::Final(..) => StepResult::Ran(
                Err("No such file or directory (os error 2)".to_owned()),
                Some(ExpectedFile { path: String::new(), contents: Ok(Vec::new()) }),
            ),
            _ => StepResult::Done,
        })
        .collect();
    match plan_verdict(steps, &results) {
        Some(Verdict::Decided(o)) => o,
        other => panic!("plan ended without an outcome: {other:?}"),
    }
}

fn ids(r: &Result<Vec<TestCase>, AdapterError>) -> Vec<&str> {
    r.as_ref().unwrap().iter().map(|c| c.id.as_str()).collect()
}

#[test]
fn chibicc_adapter_discover_finds_fixture_files() {
    let cases = ChibiccAdapter::compile().discover(&fixtures_test_dir()).unwrap();
    assert_eq!(cases.len(), 3);
    assert_eq!(cases[0].id, "chibicc::arith");
    assert_eq!(cases[1].id, "chibicc::control");
    assert_eq!(cases[2].id, "chibicc::eval-order");
}

#[test]
fn discover_excludes_non_c_files() {
    let cases = ChibiccAdapter::compile().discover(&fixtures_test_dir()).unwrap();
    let ids: Vec<&str> = cases.iter().map(|c| c.id.as_str()).collect();
    assert!(!ids.iter().any(|id: &&str| id.contains("common")), "common must be excluded");
    assert!(!ids.iter().any(|id: &&str| id.contains("test.h")), "headers must be excluded");
}

#[test]
fn chibicc_adapter_discover_cases_sorted_by_id() {
    let cases = ChibiccAdapter::compile().discover(&fixtures_test_dir()).unwrap();
    let ids: Vec<&str> = cases.iter().map(|c| c.id.as_str()).collect();
    let mut sorted = ids.clone();
    sorted.sort();
    assert_eq!(ids, sorted);
}

#[test]
fn discover_error_on_missing_dir() {
    let result = ChibiccAdapter::compile().discover(&Listing { dir: "/nonexistent/path/test".to_owned(), entries: None });
    assert!(result.is_err());
    assert_eq!(
        result.unwrap_err().message,
        "chibicc test directory not found: /nonexistent/path/test"
    );
}

#[test]
fn discover_preprocess_mode_filters_to_preprocessor_fixtures() {
    let dir = listing("t/test", &["common", "macro.c", "arith.c"]);
    assert_eq!(ids(&ChibiccAdapter::compile().discover(&dir)), vec!["chibicc::arith", "chibicc::macro"]);
    assert_eq!(ids(&ChibiccAdapter::preprocess().discover(&dir)), vec!["chibicc::macro"]);
}

#[test]
fn discover_stage_1_to_3_filters_to_stage_fixtures() {
    let dir = listing(
        "t/test",
        &["arith.c", "control.c", "function.c", "macro.c", "eval-order.c", "common.c", "common", "test.h"],
    );
    assert_eq!(
        ids(&ChibiccAdapter::stages1_to_3().discover(&dir)),
        vec!["chibicc::arith", "chibicc::control", "chibicc::function"],
    );
}

#[test]
fn run_preprocess_mode_fails_with_missing_rcc() {
    let dir = listing("t/test", &["macro.c"]);
    let adapter = ChibiccAdapter::preprocess();
    let cases = adapter.discover(&dir).unwrap();
    assert_eq!(cases.len(), 1);
    let steps = adapter.plan(&files(&cases[0], "t/test"), &workspace()).unwrap();
    let outcome = run_without_programs(&steps, &[]);
    assert!(matches!(outcome, Outcome::Fail { .. }), "expected Fail, got {outcome:?}");
}

#[test]
fn run_stage_1_to_3_does_not_require_common_helper() {
    let dir = listing("t/test", &["arith.c", "test.h"]);
    let adapter = ChibiccAdapter::stages1_to_3();
    let cases = adapter.discover(&dir).unwrap();
    assert_eq!(cases.len(), 1);
    let steps = adapter.plan(&files(&cases[0], "t/test"), &workspace()).unwrap();
    let outcome = run_without_programs(&steps, &[]);
    assert!(
        matches!(outcome, Outcome::Fail { ref reason } if reason.contains("rcc invocation failed")),
        "expected a real rcc failure instead of common-helper Skip, got {outcome:?}",
    );
}

#[test]
fn chibicc_adapter_run_fail_when_rcc_not_found() {
    let adapter = ChibiccAdapter::compile();
    let cases = adapter.discover(&fixtures_test_dir()).unwrap();
    let case = cases.iter().find(|c| c.id == "chibicc::arith").unwrap();
    let f = files(case, "fixtures/chibicc-mini/test");
    let present = vec![f.suite_common.clone().unwrap()];
    let steps = adapter.plan(&f, &workspace()).unwrap();
    let outcome = run_without_programs(&steps, &present);
    assert!(matches!(outcome, Outcome::Fail { .. }), "expected Fail, got {outcome:?}");
}

#[test]
fn run_skips_unspecified_eval_order_case_before_invoking_rcc() {
    let adapter = ChibiccAdapter::compile();
    let cases = adapter.discover(&fixtures_test_dir()).unwrap();
    let case = cases.iter().find(|c| c.id == "chibicc::eval-order").unwrap();
    let steps = adapter.plan(&files(case, "fixtures/chibicc-mini/test"), &workspace()).unwrap();
    let outcome = run_without_programs(&steps, &[]);
    assert!(
        matches!(outcome, Outcome::Skip { ref reason } if reason.contains("unspecified")),
        "expected unspecified-order Skip, got {outcome:?}",
    );
}

#[test]
fn run_skip_when_common_missing() {
    let dir = listing("t/test", &["solo.c"]);
    let adapter = ChibiccAdapter::compile();
    let cases = adapter.discover(&dir).unwrap();
    assert_eq!(cases.len(), 1);
    let steps = adapter.plan(&files(&cases[0], "t/test"), &workspace()).unwrap();
    let outcome = run_without_programs(&steps, &[]);
    assert!(
        matches!(outcome, Outcome::Skip { ref reason } if reason.contains("common")),
        "expected Skip mentioning common, got {outcome:?}",
    );
}

#[test]
fn stage_plan_uses_common_only_for_function() {
    let adapter = ChibiccAdapter::stages1_to_3();
    let case = TestCase { id: "chibicc::function".to_owned(), path: "t/test/function.c".to_owned() };
    let steps = adapter.plan(&files(&case, "t/test"), &workspace()).unwrap();
    assert!(matches!(&steps[1], Step::Require(p, _) if p == "t/test/common"));
    let case = TestCase { id: "chibicc::arith".to_owned(), path: "t/test/arith.c".to_owned() };
    let steps = adapter.plan(&files(&case, "t/test"), &workspace()).unwrap();
    assert!(matches!(&steps[1], Step::Write(p, src) if p == "tmp/stage_support.c" && src.contains("void assert")));
    assert!(ChibiccAdapter::uses_stage_common("chibicc::function"));
    assert!(!ChibiccAdapter::uses_stage_common("chibicc::arith"));
    assert_eq!(ChibiccAdapter::default().mode, ChibiccMode::Compile);
}
