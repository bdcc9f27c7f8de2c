use rcc_conformance::plan_run::{plan_verdict, step_verdict, StepResult, Verdict};
use rcc_conformance::report::Outcome;
use rcc_conformance::steps::{command, failure, owned, Judge, ProcessOutput, Step};

fn ok(code: i32) -> Result<ProcessOutput, String> {
    Ok(ProcessOutput { code: Some(code), stdout: b"out".to_vec(), stderr: b"err".to_vec() })
}

fn plan() -> Vec<Step> {
    vec![
        Step::Require("a.c".to_owned(), Outcome::Skip { reason: "no a.c".to_owned() }),
        Step::Write("x".to_owned(), "text".to_owned()),
        Step::Run(command("rcc", vec![]), failure(owned("rcc failed (exit "), "): ", false, "rcc invocation failed")),
        Step::Final(command("./a.out", vec![]), Judge::ExitZero),
    ]
}

#[test]
fn first_deciding_step_gives_the_outcome() {
    let steps = plan();
    let results = vec![StepResult::Exists(true), StepResult::Done, StepResult::Ran(ok(2), None), StepResult::Ran(ok(0), None)];
    match plan_verdict(&steps, &results) {
        Some(Verdict::Decided(Outcome::Fail { reason })) => assert_eq!(reason, "rcc failed (exit 2): err"),
        other => panic!("unexpected {other:?}"),
    }
    let results = vec![StepResult::Exists(false), StepResult::Done, StepResult::Ran(ok(0), None), StepResult::Ran(ok(0), None)];
    match plan_verdict(&steps, &results) {
        Some(Verdict::Decided(o)) => assert_eq!(o, Outcome::Skip { reason: "no a.c".to_owned() }),
        other => panic!("unexpected {other:?}"),
    }
    let results = vec![StepResult::Exists(true), StepResult::Done, StepResult::Ran(ok(0), None), StepResult::Ran(ok(0), None)];
    assert!(matches!(plan_verdict(&steps, &results), Some(Verdict::Decided(Outcome::Pass))));
    assert!(plan_verdict(&steps, &results[..2]).is_none());
}

#[test]
fn single_step_verdicts() {
    assert!(matches!(step_verdict(&Step::Write("x".to_owned(), String::new()), &StepResult::Done), Verdict::Continue));
    match step_verdict(&Step::Abort("cannot go on".to_owned()), &StepResult::Done) {
        Verdict::Aborted(m) => assert_eq!(m, "cannot go on"),
        other => panic!("unexpected {other:?}"),
    }
    let final_step = Step::Final(command("./a.out", vec![]), Judge::ExitZero);
    match step_verdict(&final_step, &StepResult::Ran(Err("gone".to_owned()), None)) {
        Verdict::Decided(Outcome::Fail { reason }) => assert_eq!(reason, "execution failed: gone"),
        other => panic!("unexpected {other:?}"),
    }
}
