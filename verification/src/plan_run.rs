//! Carrying out a case's plan: what each performed step's result means for
//! the case, and the rule that the first step that decides the case gives
//! its outcome.

use vstd::prelude::*;

use crate::adapters::{tcc_compile_outcome, tcc_compile_spec};
use crate::compare::ExpectedFile;
use crate::report::{Outcome, OutcomeKind};
use crate::steps::{judge_outcome, judge_spec, run_step_outcome, run_step_spec, ProcessOutput, Step};

verus! {

/// What performing one step gave.
pub enum StepResult {
    /// Nothing to report: the step wrote a file, made a directory, or ran
    /// nothing.
    Done,
    /// Whether the file that the step requires exists.
    Exists(bool),
    /// What running the step's command gave, with the expected-output file
    /// when the step compares against one.
    Ran(Result<ProcessOutput, String>, Option<ExpectedFile>),
}

/// What a step's result means for the case.
#[derive(Debug)]
pub enum Verdict {
    /// Go on with the next step.
    Continue,
    /// The case has this outcome.
    Decided(Outcome),
    /// The run cannot go on: it ends with this error.
    Aborted(String),
}

/// A verdict, as values.
pub enum VerdictView {
    Continue,
    Decided((OutcomeKind, Seq<char>)),
    Aborted(Seq<char>),
}

impl View for Verdict {
    type V = VerdictView;

    open spec fn view(&self) -> VerdictView {
        match self {
            Verdict::Continue => VerdictView::Continue,
            Verdict::Decided(o) => VerdictView::Decided(o@),
            Verdict::Aborted(m) => VerdictView::Aborted(m@),
        }
    }
}

/// `r` is a result that step `s` can give: an existence answer for a
/// required file, a process result for a command (with the expected file
/// where the step compares against it).
pub open spec fn result_fits(s: Step, r: StepResult) -> bool {
    match s {
        Step::Require(..) => r is Exists,
        Step::Run(..) => r is Ran,
        Step::TccCompile(..) => r matches StepResult::Ran(_, e) && e is Some,
        Step::Final(_, j) => r matches StepResult::Ran(_, e) && (j.needs_expected() ==> e is Some),
        _ => true,
    }
}

/// What result `r` of step `s` means for the case.
pub open spec fn verdict_spec(s: Step, r: StepResult) -> VerdictView {
    match s {
        Step::Decided(o) => VerdictView::Decided(o@),
        Step::Require(_, missing) => if r matches StepResult::Exists(true) {
            VerdictView::Continue
        } else {
            VerdictView::Decided(missing@)
        },
        Step::Write(..) | Step::RunDir(..) => VerdictView::Continue,
        Step::Run(_, f) => match r {
            StepResult::Ran(res, _) => match run_step_spec(f@, res) {
                Some(v) => VerdictView::Decided(v),
                None => VerdictView::Continue,
            },
            _ => VerdictView::Continue,
        },
        Step::TccCompile(_, stem) => match r {
            StepResult::Ran(res, Some(e)) => match tcc_compile_spec(stem@, res, e) {
                Some(v) => VerdictView::Decided(v),
                None => VerdictView::Continue,
            },
            _ => VerdictView::Continue,
        },
        Step::Abort(m) => VerdictView::Aborted(m@),
        Step::Final(_, j) => match r {
            StepResult::Ran(res, e) => VerdictView::Decided(judge_spec(j, res, e)),
            _ => VerdictView::Continue,
        },
    }
}

/// The verdict of the first of the first `n` steps that decides the case,
/// if any does.
pub open spec fn first_decision(steps: Seq<Step>, results: Seq<StepResult>, n: nat) -> Option<VerdictView>
    decreases n,
{
    if n == 0 {
        None
    } else {
        match first_decision(steps, results, (n - 1) as nat) {
            Some(v) => Some(v),
            None => match verdict_spec(steps[n - 1], results[n - 1]) {
                VerdictView::Continue => None,
                v => Some(v),
            },
        }
    }
}

/// What the result `r` of step `s` means for the case.
pub fn step_verdict(s: &Step, r: &StepResult) -> (v: Verdict)
    requires
        result_fits(*s, *r),
    ensures
        v@ == verdict_spec(*s, *r),
{
    match s {
        Step::Decided(o) => Verdict::Decided(o.duplicate()),
        Step::Require(_, missing) => match r {
            StepResult::Exists(true) => Verdict::Continue,
            _ => Verdict::Decided(missing.duplicate()),
        },
        Step::Write(..) | Step::RunDir(..) => Verdict::Continue,
        Step::Run(_, f) => match r {
            StepResult::Ran(res, _) => match run_step_outcome(f, res) {
                Some(o) => Verdict::Decided(o),
                None => Verdict::Continue,
            },
            _ => Verdict::Continue,
        },
        Step::TccCompile(_, stem) => match r {
            StepResult::Ran(res, Some(e)) => match tcc_compile_outcome(stem.as_str(), res, e) {
                Some(o) => Verdict::Decided(o),
                None => Verdict::Continue,
            },
            _ => Verdict::Continue,
        },
        Step::Abort(m) => Verdict::Aborted(m.clone()),
        Step::Final(_, j) => match r {
            StepResult::Ran(res, e) => {
                let exp: Option<&ExpectedFile> = match e {
                    Some(x) => Some(x),
                    None => None,
                };
                Verdict::Decided(judge_outcome(j, res, exp))
            },
            _ => Verdict::Continue,
        },
    }
}

/// The verdict of the first step that decides the case, given the results
/// of the steps performed so far (one per step, in order).
pub fn plan_verdict(steps: &[Step], results: &[StepResult]) -> (v: Option<Verdict>)
    requires
        results@.len() <= steps@.len(),
        forall|i: int| 0 <= i < results@.len() ==> result_fits(#[trigger] steps@[i], results@[i]),
    ensures
        match first_decision(steps@, results@, results@.len()) {
            Some(d) => v matches Some(x) && x@ == d,
            None => v is None,
        },
{
    for i in 0..results.len()
        invariant
            results@.len() <= steps@.len(),
            forall|k: int| 0 <= k < results@.len() ==> result_fits(#[trigger] steps@[k], results@[k]),
            first_decision(steps@, results@, i as nat) is None,
    {
        let v = step_verdict(&steps[i], &results[i]);
        match v {
            Verdict::Continue => {},
            _ => {
                proof {
                    lemma_decision_stays(steps@, results@, (i + 1) as nat, results@.len());
                }
                return Some(v);
            },
        }
    }
    None
}

/// Once a step decides the case, later steps and their results change
/// nothing: the case's outcome is that of the first deciding step, and
/// every step before it went on.
pub proof fn lemma_decision_stays(steps: Seq<Step>, results: Seq<StepResult>, k: nat, m: nat)
    requires
        k <= m,
        first_decision(steps, results, k) is Some,
    ensures
        first_decision(steps, results, m) == first_decision(steps, results, k),
        exists|i: int|
            0 <= i < k && verdict_spec(steps[i], results[i]) !is Continue && Some(verdict_spec(steps[i], results[i]))
                == first_decision(steps, results, k) && forall|j: int| 0 <= j < i ==> verdict_spec(steps[j], results[j]) is Continue,
    decreases m - k, k,
{
    if k < m {
        lemma_decision_stays(steps, results, k, (m - 1) as nat);
    } else {
        lemma_first_decider(steps, results, k);
    }
}

proof fn lemma_first_decider(steps: Seq<Step>, results: Seq<StepResult>, k: nat)
    requires
        first_decision(steps, results, k) is Some,
    ensures
        exists|i: int|
            0 <= i < k && verdict_spec(steps[i], results[i]) !is Continue && Some(verdict_spec(steps[i], results[i]))
                == first_decision(steps, results, k) && forall|j: int| 0 <= j < i ==> verdict_spec(steps[j], results[j]) is Continue,
    decreases k,
{
    let p = (k - 1) as nat;
    if first_decision(steps, results, p) is Some {
        lemma_first_decider(steps, results, p);
    } else {
        lemma_none_all_continue(steps, results, p);
        assert(0 <= p < k && verdict_spec(steps[p as int], results[p as int]) !is Continue);
    }
}

proof fn lemma_none_all_continue(steps: Seq<Step>, results: Seq<StepResult>, k: nat)
    requires
        first_decision(steps, results, k) is None,
    ensures
        forall|j: int| 0 <= j < k ==> verdict_spec(steps[j], results[j]) is Continue,
    decreases k,
{
    if k > 0 {
        lemma_none_all_continue(steps, results, (k - 1) as nat);
    }
}

} // verus!
