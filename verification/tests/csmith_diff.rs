use rcc_conformance::csmith::{
    after_generation, after_host_compile, after_rcc_compile, after_runs, compare_exec,
    csmith_command, host_cc_command, iteration_seed, rcc_command, CaseOutcome, CaseReport,
    ExecResult, Report,
};
use rcc_conformance::steps::ProcessOutput;

fn exec(status: Option<i32>, stdout: &[u8]) -> ExecResult {
    ExecResult { status, stdout: stdout.to_vec() }
}

#[test]
fn stdout_comparison_normalizes_crlf() {
    assert!(matches!(
        compare_exec(&exec(Some(0), b"a\r\n"), &exec(Some(0), b"a\n")),
        CaseOutcome::Pass
    ));
}

#[test]
fn stdout_or_status_mismatch_is_disagreement() {
    assert!(matches!(
        compare_exec(&exec(Some(0), b"a\n"), &exec(Some(1), b"b\n")),
        CaseOutcome::Disagreement { host_status: Some(0), rcc_status: Some(1), .. }
    ));
}

#[test]
fn report_failure_predicate_ignores_large_skips() {
    let report = Report {
        seed: 1,
        iterations: 2,
        cases: vec![
            CaseReport { id: 0, seed: 1, source: "a.c".to_owned(), outcome: CaseOutcome::Pass },
            CaseReport {
                id: 1,
                seed: 2,
                source: "b.c".to_owned(),
                outcome: CaseOutcome::SkippedTooLarge { bytes: 42 },
            },
        ],
    };
    assert!(!report.has_failures());
    assert_eq!(report.failures(), 0);
}

#[test]
fn failing_iterations_are_counted() {
    let report = Report {
        seed: 1,
        iterations: 2,
        cases: vec![
            CaseReport { id: 0, seed: 1, source: "a.c".to_owned(), outcome: CaseOutcome::Pass },
            CaseReport {
                id: 1,
                seed: 2,
                source: "b.c".to_owned(),
                outcome: CaseOutcome::RccRunFailed { reason: "boom".to_owned() },
            },
        ],
    };
    assert!(report.has_failures());
    assert_eq!(report.failures(), 1);
}

#[test]
fn disagreement_keeps_both_stdouts() {
    match compare_exec(&exec(None, b"x"), &exec(Some(0), b"y")) {
        CaseOutcome::Disagreement { host_status, rcc_status, host_stdout, rcc_stdout } => {
            assert_eq!(host_status, None);
            assert_eq!(rcc_status, Some(0));
            assert_eq!(host_stdout, "x");
            assert_eq!(rcc_stdout, "y");
        }
        other => panic!("unexpected {other:?}"),
    }
}

fn output(code: Option<i32>, stdout: &[u8], stderr: &[u8]) -> ProcessOutput {
    ProcessOutput { code, stdout: stdout.to_vec(), stderr: stderr.to_vec() }
}

#[test]
fn generation_decisions() {
    assert!(after_generation(&Ok(output(Some(0), b"int main(){}", b"")), 100).is_none());
    assert!(matches!(
        after_generation(&Ok(output(Some(0), b"int main(){}", b"")), 5),
        Some(CaseOutcome::SkippedTooLarge { bytes: 12 })
    ));
    match after_generation(&Ok(output(Some(1), b"", b"bad seed")), 5) {
        Some(CaseOutcome::GeneratorFailed { stderr }) => assert_eq!(stderr, "bad seed"),
        other => panic!("unexpected {other:?}"),
    }
    match after_generation(&Err("not found".to_owned()), 5) {
        Some(CaseOutcome::GeneratorFailed { stderr }) => assert_eq!(stderr, "not found"),
        other => panic!("unexpected {other:?}"),
    }
}

#[test]
fn compile_and_run_decisions() {
    assert!(after_host_compile(&output(Some(0), b"", b"")).is_none());
    assert!(matches!(
        after_host_compile(&output(Some(1), b"", b"err")),
        Some(CaseOutcome::HostCompileFailed { .. })
    ));
    assert!(matches!(
        after_rcc_compile(&output(None, b"", b"err")),
        Some(CaseOutcome::RccCompileFailed { .. })
    ));
    assert!(matches!(
        after_runs(&Err("gone".to_owned()), &Ok(exec(Some(0), b""))),
        CaseOutcome::HostRunFailed { .. }
    ));
    assert!(matches!(
        after_runs(&Ok(exec(Some(0), b"")), &Err("gone".to_owned())),
        CaseOutcome::RccRunFailed { .. }
    ));
    assert!(matches!(
        after_runs(&Ok(exec(Some(3), b"1\r\n")), &Ok(exec(Some(3), b"1\n"))),
        CaseOutcome::Pass
    ));
}

#[test]
fn commands_and_seeds() {
    assert_eq!(iteration_seed(40, 2), 42);
    let c = csmith_command("csmith", 42);
    assert_eq!(c.program, "csmith");
    assert_eq!(&c.args[..2], &["--seed".to_owned(), "42".to_owned()]);
    assert_eq!(c.args.len(), 12);
    let h = host_cc_command("cc", "inc", "case.c", "host", false);
    assert_eq!(h.args, vec!["-std=c99", "-O0", "-I", "inc", "case.c", "-o", "host", "-lm"]);
    let h = host_cc_command("cc", "inc", "case.c", "host.exe", true);
    assert_eq!(h.args.len(), 7);
    let r = rcc_command("rcc", "inc", "case.c", "rcc");
    assert_eq!(r.args, vec!["-I", "inc", "case.c", "-o", "rcc"]);
}
