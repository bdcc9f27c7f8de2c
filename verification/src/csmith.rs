//! Differential testing against the host C compiler on programs that
//! `csmith` generates: the decisions of one iteration and of the report.

use vstd::prelude::*;

use crate::bytes::{crlf_to_lf, normalize_newlines};
use crate::compare::bytes_eq;
use crate::steps::{command, owned, push_arg, strings_view, Command, CommandView, ProcessOutput};
use crate::text::{decimal, decimal_u64, string_of, take_at_most, truncate_utf8, utf8_lossy};

verus! {

/// Characters of generator or compiler stderr kept in a report.
pub const STDERR_CHARS: usize = 1024;

/// Characters of program stdout kept in a disagreement.
pub const STDOUT_CHARS: usize = 2048;

/// How one generated program fared.
#[derive(Debug)]
pub enum CaseOutcome {
    /// Both compilers' programs agreed.
    Pass,
    /// The generated program was larger than the limit and was not run.
    SkippedTooLarge { bytes: usize },
    /// `csmith` failed.
    GeneratorFailed { stderr: String },
    /// The host compiler rejected the program.
    HostCompileFailed { stderr: String },
    /// `rcc` rejected the program.
    RccCompileFailed { stderr: String },
    /// The host-compiled program could not be run.
    HostRunFailed { reason: String },
    /// The rcc-compiled program could not be run.
    RccRunFailed { reason: String },
    /// The two programs disagreed on exit status or stdout.
    Disagreement {
        host_status: Option<i32>,
        rcc_status: Option<i32>,
        host_stdout: String,
        rcc_stdout: String,
    },
}

/// Kind of a [`CaseOutcome`], with its texts.
pub enum CaseOutcomeView {
    Pass,
    SkippedTooLarge(usize),
    GeneratorFailed(Seq<char>),
    HostCompileFailed(Seq<char>),
    RccCompileFailed(Seq<char>),
    HostRunFailed(Seq<char>),
    RccRunFailed(Seq<char>),
    Disagreement(Option<i32>, Option<i32>, Seq<char>, Seq<char>),
}

impl View for CaseOutcome {
    type V = CaseOutcomeView;

    open spec fn view(&self) -> CaseOutcomeView {
        match self {
            CaseOutcome::Pass => CaseOutcomeView::Pass,
            CaseOutcome::SkippedTooLarge { bytes } => CaseOutcomeView::SkippedTooLarge(*bytes),
            CaseOutcome::GeneratorFailed { stderr } => CaseOutcomeView::GeneratorFailed(stderr@),
            CaseOutcome::HostCompileFailed { stderr } => CaseOutcomeView::HostCompileFailed(stderr@),
            CaseOutcome::RccCompileFailed { stderr } => CaseOutcomeView::RccCompileFailed(stderr@),
            CaseOutcome::HostRunFailed { reason } => CaseOutcomeView::HostRunFailed(reason@),
            CaseOutcome::RccRunFailed { reason } => CaseOutcomeView::RccRunFailed(reason@),
            CaseOutcome::Disagreement { host_status, rcc_status, host_stdout, rcc_stdout } =>
                CaseOutcomeView::Disagreement(*host_status, *rcc_status, host_stdout@, rcc_stdout@),
        }
    }
}

impl CaseOutcome {
    /// Whether this outcome counts as passing: a pass, or a program too
    /// large to run.
    pub open spec fn passing(&self) -> bool {
        self is Pass || self is SkippedTooLarge
    }

    /// Whether this outcome counts as passing.
    pub fn is_passing(&self) -> (r: bool)
        ensures
            r == self.passing(),
    {
        match self {
            CaseOutcome::Pass | CaseOutcome::SkippedTooLarge { .. } => true,
            _ => false,
        }
    }
}

/// Exit status and stdout of one program run.
#[derive(Debug)]
pub struct ExecResult {
    /// Exit code; `None` when killed by a signal.
    pub status: Option<i32>,
    /// Captured stdout.
    pub stdout: Vec<u8>,
}

/// Outcome of comparing the host-compiled and the rcc-compiled run: they
/// agree when exit statuses are equal and stdouts are equal up to CR LF.
pub open spec fn compare_exec_spec(host: ExecResult, rcc: ExecResult) -> CaseOutcomeView {
    if host.status == rcc.status && crlf_to_lf(host.stdout@) == crlf_to_lf(rcc.stdout@) {
        CaseOutcomeView::Pass
    } else {
        CaseOutcomeView::Disagreement(
            host.status,
            rcc.status,
            take_at_most(utf8_lossy(host.stdout@), STDOUT_CHARS as nat),
            take_at_most(utf8_lossy(rcc.stdout@), STDOUT_CHARS as nat),
        )
    }
}

/// Compare the host-compiled and the rcc-compiled run.
pub fn compare_exec(host: &ExecResult, rcc: &ExecResult) -> (o: CaseOutcome)
    ensures
        o@ == compare_exec_spec(*host, *rcc),
{
    let a = normalize_newlines(host.stdout.as_slice());
    let b = normalize_newlines(rcc.stdout.as_slice());
    if host.status == rcc.status && bytes_eq(a.as_slice(), b.as_slice()) {
        return CaseOutcome::Pass;
    }
    CaseOutcome::Disagreement {
        host_status: host.status,
        rcc_status: rcc.status,
        host_stdout: truncate_utf8(host.stdout.as_slice(), STDOUT_CHARS),
        rcc_stdout: truncate_utf8(rcc.stdout.as_slice(), STDOUT_CHARS),
    }
}

/// The two runs agree exactly when they exited the same way and printed
/// the same text up to CR LF line endings. Agreement does not depend on
/// which run is the host's, every run agrees with itself, and a
/// disagreement reports the host's exit status first and rcc's second.
pub proof fn lemma_compare_exec_agreement(host: ExecResult, rcc: ExecResult)
    ensures
        (compare_exec_spec(host, rcc) is Pass) ==> host.status == rcc.status,
        (compare_exec_spec(host, rcc) is Pass) == (host.status == rcc.status && crlf_to_lf(host.stdout@)
            == crlf_to_lf(rcc.stdout@)),
        (compare_exec_spec(host, rcc) is Pass) == (compare_exec_spec(rcc, host) is Pass),
        compare_exec_spec(host, host) is Pass,
        (compare_exec_spec(host, rcc) is Pass) || (compare_exec_spec(host, rcc) is Disagreement),
        (compare_exec_spec(host, rcc) is Disagreement) ==> compare_exec_spec(host, rcc)->Disagreement_0
            == host.status && compare_exec_spec(host, rcc)->Disagreement_1 == rcc.status,
{
}

/// Normalize stdout before comparing: CR LF becomes LF.
pub fn normalize_stdout(bytes: &[u8]) -> (out: Vec<u8>)
    ensures
        out@ == crlf_to_lf(bytes@),
{
    normalize_newlines(bytes)
}

/// Whether generating a program ends its iteration, and how: a generator
/// that failed or could not run ends it, and so does a program larger than
/// `max_source_bytes`.
pub open spec fn generation_spec(result: Result<ProcessOutput, String>, max_source_bytes: usize) -> Option<
    CaseOutcomeView,
> {
    match result {
        Err(e) => Some(CaseOutcomeView::GeneratorFailed(e@)),
        Ok(o) => if !o.succeeded() {
            Some(
                CaseOutcomeView::GeneratorFailed(
                    take_at_most(utf8_lossy(o.stderr@), STDERR_CHARS as nat),
                ),
            )
        } else if o.stdout@.len() > max_source_bytes {
            Some(CaseOutcomeView::SkippedTooLarge(o.stdout@.len() as usize))
        } else {
            None
        },
    }
}

/// Decide whether generating a program ends its iteration.
pub fn after_generation(result: &Result<ProcessOutput, String>, max_source_bytes: usize) -> (r: Option<CaseOutcome>)
    ensures
        match generation_spec(*result, max_source_bytes) {
            Some(v) => r matches Some(o) && o@ == v,
            None => r is None,
        },
{
    match result {
        Err(e) => Some(CaseOutcome::GeneratorFailed { stderr: e.clone() }),
        Ok(o) => if !o.success() {
            Some(CaseOutcome::GeneratorFailed { stderr: truncate_utf8(o.stderr.as_slice(), STDERR_CHARS) })
        } else if o.stdout.len() > max_source_bytes {
            Some(CaseOutcome::SkippedTooLarge { bytes: o.stdout.len() })
        } else {
            None
        },
    }
}

/// Whether the host compiler's result ends the iteration.
pub fn after_host_compile(o: &ProcessOutput) -> (r: Option<CaseOutcome>)
    ensures
        match r {
            Some(x) => !o.succeeded() && x@ == CaseOutcomeView::HostCompileFailed(
                take_at_most(utf8_lossy(o.stderr@), STDERR_CHARS as nat),
            ),
            None => o.succeeded(),
        },
{
    if o.success() {
        None
    } else {
        Some(CaseOutcome::HostCompileFailed { stderr: truncate_utf8(o.stderr.as_slice(), STDERR_CHARS) })
    }
}

/// Whether rcc's compilation result ends the iteration.
pub fn after_rcc_compile(o: &ProcessOutput) -> (r: Option<CaseOutcome>)
    ensures
        match r {
            Some(x) => !o.succeeded() && x@ == CaseOutcomeView::RccCompileFailed(
                take_at_most(utf8_lossy(o.stderr@), STDERR_CHARS as nat),
            ),
            None => o.succeeded(),
        },
{
    if o.success() {
        None
    } else {
        Some(CaseOutcome::RccCompileFailed { stderr: truncate_utf8(o.stderr.as_slice(), STDERR_CHARS) })
    }
}

/// Outcome of running both programs: a program that could not run ends the
/// iteration (the host's first), otherwise their results are compared.
pub open spec fn runs_spec(host: Result<ExecResult, String>, rcc: Result<ExecResult, String>) -> CaseOutcomeView {
    match host {
        Err(e) => CaseOutcomeView::HostRunFailed(e@),
        Ok(h) => match rcc {
            Err(e) => CaseOutcomeView::RccRunFailed(e@),
            Ok(r) => compare_exec_spec(h, r),
        },
    }
}

/// Outcome of running both programs.
pub fn after_runs(host: &Result<ExecResult, String>, rcc: &Result<ExecResult, String>) -> (o: CaseOutcome)
    ensures
        o@ == runs_spec(*host, *rcc),
{
    match host {
        Err(e) => CaseOutcome::HostRunFailed { reason: e.clone() },
        Ok(h) => match rcc {
            Err(e) => CaseOutcome::RccRunFailed { reason: e.clone() },
            Ok(r) => compare_exec(h, r),
        },
    }
}

/// Seed of iteration `id` of a run seeded with `seed`.
pub fn iteration_seed(seed: u64, id: u32) -> (r: u64)
    requires
        seed + id <= u64::MAX,
    ensures
        r == seed + id,
{
    seed + id as u64
}

/// The `csmith` command that generates the program with `seed`.
pub fn csmith_command(csmith: &str, seed: u64) -> (c: Command)
    ensures
        c@ == (csmith@, seq!["--seed"@, decimal(seed as nat), "--max-funcs"@, "4"@, "--max-block-size"@, "4"@, "--max-expr-complexity"@, "8"@, "--max-array-dim"@, "2"@, "--max-array-len-per-dim"@, "8"@], None::<Seq<char>>),
{
    let mut args: Vec<String> = Vec::new();
    push_arg(&mut args, "--seed");
    let digits = decimal_u64(seed);
    let ghost before = strings_view(args@);
    args.push(string_of(digits.as_slice()));
    assert(strings_view(args@) == before.push(decimal(seed as nat)));
    push_arg(&mut args, "--max-funcs");
    push_arg(&mut args, "4");
    push_arg(&mut args, "--max-block-size");
    push_arg(&mut args, "4");
    push_arg(&mut args, "--max-expr-complexity");
    push_arg(&mut args, "8");
    push_arg(&mut args, "--max-array-dim");
    push_arg(&mut args, "2");
    push_arg(&mut args, "--max-array-len-per-dim");
    push_arg(&mut args, "8");
    assert(strings_view(args@) =~= seq!["--seed"@, decimal(seed as nat), "--max-funcs"@, "4"@, "--max-block-size"@, "4"@, "--max-expr-complexity"@, "8"@, "--max-array-dim"@, "2"@, "--max-array-len-per-dim"@, "8"@]);
    Command { program: owned(csmith), args, current_dir: None }
}

/// The host compiler command for a generated program.
pub fn host_cc_command(cc: &str, runtime_include: &str, source: &str, exe: &str, windows: bool) -> (c: Command)
    ensures
        c@ == (cc@, seq!["-std=c99"@, "-O0"@, "-I"@, runtime_include@, source@, "-o"@, exe@] + if windows {
            Seq::<Seq<char>>::empty()
        } else {
            seq!["-lm"@]
        }, None::<Seq<char>>),
{
    let mut args: Vec<String> = Vec::new();
    push_arg(&mut args, "-std=c99");
    push_arg(&mut args, "-O0");
    push_arg(&mut args, "-I");
    push_arg(&mut args, runtime_include);
    push_arg(&mut args, source);
    push_arg(&mut args, "-o");
    push_arg(&mut args, exe);
    if !windows {
        push_arg(&mut args, "-lm");
    }
    assert(strings_view(args@) =~= seq!["-std=c99"@, "-O0"@, "-I"@, runtime_include@, source@, "-o"@, exe@] + if windows {
        Seq::<Seq<char>>::empty()
    } else {
        seq!["-lm"@]
    });
    Command { program: owned(cc), args, current_dir: None }
}

/// The rcc command for a generated program.
pub fn rcc_command(rcc: &str, runtime_include: &str, source: &str, exe: &str) -> (c: Command)
    ensures
        c@ == (rcc@, seq!["-I"@, runtime_include@, source@, "-o"@, exe@], None::<Seq<char>>),
{
    let mut args: Vec<String> = Vec::new();
    push_arg(&mut args, "-I");
    push_arg(&mut args, runtime_include);
    push_arg(&mut args, source);
    push_arg(&mut args, "-o");
    push_arg(&mut args, exe);
    assert(strings_view(args@) =~= seq!["-I"@, runtime_include@, source@, "-o"@, exe@]);
    command(rcc, args)
}

/// One generated program and how it fared.
#[derive(Debug)]
pub struct CaseReport {
    /// Iteration number.
    pub id: u32,
    /// Seed the program was generated with.
    pub seed: u64,
    /// Path of the generated source.
    pub source: String,
    /// How it fared.
    pub outcome: CaseOutcome,
}

/// Result of a differential run.
#[derive(Debug)]
pub struct Report {
    /// Seed of the first iteration.
    pub seed: u64,
    /// Iterations asked for.
    pub iterations: u32,
    /// The iterations that ran.
    pub cases: Vec<CaseReport>,
}

impl Report {
    /// Whether some iteration did not pass.
    pub open spec fn failing(&self) -> bool {
        exists|i: int| 0 <= i < self.cases@.len() && !(#[trigger] self.cases@[i]).outcome.passing()
    }

    /// Number of iterations that did not pass.
    pub open spec fn failure_count(&self) -> nat {
        self.cases@.filter(|c: CaseReport| !c.outcome.passing()).len()
    }

    /// Whether some iteration did not pass.
    pub fn has_failures(&self) -> (r: bool)
        ensures
            r == self.failing(),
    {
        for i in 0..self.cases.len()
            invariant
                forall|j: int| 0 <= j < i ==> (#[trigger] self.cases@[j]).outcome.passing(),
        {
            if !self.cases[i].outcome.is_passing() {
                return true;
            }
        }
        false
    }

    /// Number of iterations that did not pass.
    pub fn failures(&self) -> (n: usize)
        ensures
            n == self.failure_count(),
    {
        let mut n: usize = 0;
        let ghost f = |c: CaseReport| !c.outcome.passing();
        for i in 0..self.cases.len()
            invariant
                n == self.cases@.take(i as int).filter(f).len(),
                n <= i,
                f == |c: CaseReport| !c.outcome.passing(),
        {
            proof {
                assert(self.cases@.take(i + 1).drop_last() == self.cases@.take(i as int));
                reveal_with_fuel(Seq::filter, 1);
            }
            if !self.cases[i].outcome.is_passing() {
                n = n + 1;
            }
        }
        assert(self.cases@.take(self.cases.len() as int) == self.cases@);
        n
    }
}

} // verus!
