//! The steps of running one test case, and how each step's result decides
//! the case's outcome.
//!
//! An adapter turns a case into a list of [`Step`]s; the caller performs
//! them in order and asks [`run_step_outcome`] or [`judge_outcome`] after
//! each whether the case is decided.

use vstd::prelude::*;

use crate::compare::{ctestsuite_compare, ctestsuite_outcome, exit_status_text, llvm_compare, llvm_outcome, nonzero_exit, tcc_compare, tcc_mode, tcc_mode_for_stem, tcc_outcome, ExpectedFile};
use crate::report::{Outcome, OutcomeKind};
use crate::text::{decimal_i64, push_chars, push_str, signed_decimal, string_of, take_at_most, truncate_utf8, utf8_lossy};

verus! {

/// A command line.
#[derive(Clone, Debug)]
pub struct Command {
    /// Program to start.
    pub program: String,
    /// Its arguments.
    pub args: Vec<String>,
    /// Working directory, when not inherited.
    pub current_dir: Option<String>,
}

/// View of a command: program, arguments, working directory.
pub type CommandView = (Seq<char>, Seq<Seq<char>>, Option<Seq<char>>);

/// Views of a sequence of strings.
pub open spec fn strings_view(s: Seq<String>) -> Seq<Seq<char>> {
    s.map_values(|x: String| x@)
}

impl View for Command {
    type V = CommandView;

    open spec fn view(&self) -> CommandView {
        (
            self.program@,
            strings_view(self.args@),
            match self.current_dir {
                Some(d) => Some(d@),
                None => None,
            },
        )
    }
}

/// What a finished process left: its exit code (`None` when killed by a
/// signal) and its captured output.
#[derive(Clone, Debug)]
pub struct ProcessOutput {
    /// Exit code.
    pub code: Option<i32>,
    /// Captured stdout.
    pub stdout: Vec<u8>,
    /// Captured stderr.
    pub stderr: Vec<u8>,
}

impl ProcessOutput {
    /// The process exited with status 0.
    pub open spec fn succeeded(&self) -> bool {
        self.code == Some(0i32)
    }

    /// Whether the process exited with status 0.
    pub fn success(&self) -> (r: bool)
        ensures
            r == self.succeeded(),
    {
        self.code == Some(0i32)
    }
}

/// How a failed step is described.
#[derive(Clone, Debug)]
pub struct FailureFormat {
    /// Text before the exit code.
    pub head: String,
    /// Text between the exit code and the output excerpt.
    pub mid: String,
    /// Whether the excerpt is taken from stdout followed by stderr, rather
    /// than from stderr alone.
    pub combined: bool,
    /// Text before the error when the process could not be run.
    pub invoke: String,
}

/// View of a failure format: head, mid, combined, invoke.
pub type FailureView = (Seq<char>, Seq<char>, bool, Seq<char>);

impl View for FailureFormat {
    type V = FailureView;

    open spec fn view(&self) -> FailureView {
        (self.head@, self.mid@, self.combined, self.invoke@)
    }
}

/// Number of characters of process output quoted in a failure message.
pub const EXCERPT_CHARS: usize = 256;

/// The output a failure message quotes from.
pub open spec fn quoted_stream(o: ProcessOutput, combined: bool) -> Seq<u8> {
    if combined {
        o.stdout@ + o.stderr@
    } else {
        o.stderr@
    }
}

/// Message for a process that ran and did not exit with status 0.
pub open spec fn exit_failure_message(f: FailureView, o: ProcessOutput) -> Seq<char> {
    let code: int = match o.code {
        Some(c) => c as int,
        None => -1,
    };
    f.0 + signed_decimal(code) + f.1 + take_at_most(
        utf8_lossy(quoted_stream(o, f.2)),
        EXCERPT_CHARS as nat,
    )
}

/// Message for a process that could not be run.
pub open spec fn invoke_failure_message(f: FailureView, error: Seq<char>) -> Seq<char> {
    f.3 + ": "@ + error
}

/// Whether a step's result ends the run, and how: a process that could not
/// be run, or that did not exit with status 0, fails the case.
pub open spec fn run_step_spec(f: FailureView, result: Result<ProcessOutput, String>) -> Option<
    (OutcomeKind, Seq<char>),
> {
    match result {
        Err(e) => Some((OutcomeKind::Fail, invoke_failure_message(f, e@))),
        Ok(o) => if o.succeeded() {
            None
        } else {
            Some((OutcomeKind::Fail, exit_failure_message(f, o)))
        },
    }
}

/// The message for a process that exited without success.
pub fn exit_failure(f: &FailureFormat, o: &ProcessOutput) -> (s: String)
    ensures
        s@ == exit_failure_message(f@, *o),
{
    let mut v: Vec<char> = Vec::new();
    push_str(&mut v, f.head.as_str());
    let code: i32 = match o.code {
        Some(c) => c,
        None => -1,
    };
    let digits = decimal_i64(code as i64);
    push_chars(&mut v, digits.as_slice());
    push_str(&mut v, f.mid.as_str());
    let excerpt = if f.combined {
        let mut bytes = o.stdout.clone();
        let mut err = o.stderr.clone();
        bytes.append(&mut err);
        truncate_utf8(bytes.as_slice(), EXCERPT_CHARS)
    } else {
        truncate_utf8(o.stderr.as_slice(), EXCERPT_CHARS)
    };
    push_str(&mut v, excerpt.as_str());
    string_of(v.as_slice())
}

/// The message for a process that could not be run.
fn invoke_failure(f: &FailureFormat, error: &String) -> (s: String)
    ensures
        s@ == invoke_failure_message(f@, error@),
{
    let mut v: Vec<char> = Vec::new();
    push_str(&mut v, f.invoke.as_str());
    push_str(&mut v, ": ");
    push_str(&mut v, error.as_str());
    string_of(v.as_slice())
}

/// Decide whether the result of a step ends the run.
pub fn run_step_outcome(f: &FailureFormat, result: &Result<ProcessOutput, String>) -> (r: Option<Outcome>)
    ensures
        match run_step_spec(f@, *result) {
            Some(v) => r matches Some(o) && o@ == v,
            None => r is None,
        },
{
    match result {
        Err(e) => Some(Outcome::Fail { reason: invoke_failure(f, e) }),
        Ok(o) => if o.success() {
            None
        } else {
            Some(Outcome::Fail { reason: exit_failure(f, o) })
        },
    }
}

/// How the last step of a run is judged.
#[derive(Clone, Debug)]
pub enum Judge {
    /// Pass when the program exits with status 0.
    ExitZero,
    /// Pass when the command exits with status 0; otherwise fail as the
    /// format describes.
    Succeeds(FailureFormat),
    /// Compare stdout and exit status with a c-testsuite `.expected` file.
    CTestSuite,
    /// Compare stdout and stderr with a tests2 `.expect` file in the mode of
    /// the fixture with this stem.
    Tcc(String),
    /// Compare stdout and exit status with an LLVM `.reference_output` file.
    Llvm,
}

impl Judge {
    /// Whether judging needs the expected-output file.
    pub open spec fn needs_expected(&self) -> bool {
        match self {
            Judge::CTestSuite | Judge::Tcc(_) | Judge::Llvm => true,
            _ => false,
        }
    }
}

/// Message for a program that could not be executed.
pub open spec fn execution_failure_message(error: Seq<char>) -> Seq<char> {
    "execution failed: "@ + error
}

/// Outcome of the judged last step of a run.
pub open spec fn judge_spec(
    judge: Judge,
    result: Result<ProcessOutput, String>,
    expected: Option<ExpectedFile>,
) -> (OutcomeKind, Seq<char>) {
    match (judge, result) {
        (Judge::Succeeds(f), r) => match run_step_spec(f@, r) {
            Some(v) => v,
            None => (OutcomeKind::Pass, Seq::empty()),
        },
        (_, Err(e)) => (OutcomeKind::Fail, execution_failure_message(e@)),
        (Judge::ExitZero, Ok(o)) => if o.succeeded() {
            (OutcomeKind::Pass, Seq::empty())
        } else {
            (OutcomeKind::Fail, "non-zero exit code: "@ + exit_status_text(o.code))
        },
        (Judge::CTestSuite, Ok(o)) => ctestsuite_outcome(
            o.stdout@,
            o.code,
            expected->0.path@,
            expected->0.contents_view(),
        ),
        (Judge::Tcc(stem), Ok(o)) => if o.succeeded() {
            tcc_outcome(
                o.stdout@ + o.stderr@,
                expected->0.path@,
                expected->0.contents_view(),
                tcc_mode_for_stem(stem@),
            )
        } else {
            (OutcomeKind::Fail, "non-zero exit code: "@ + exit_status_text(o.code))
        },
        (Judge::Llvm, Ok(o)) => llvm_outcome(
            o.stdout@,
            o.code,
            expected->0.path@,
            expected->0.contents_view(),
        ),
    }
}

/// Judge the last step of a run.
pub fn judge_outcome(
    judge: &Judge,
    result: &Result<ProcessOutput, String>,
    expected: Option<&ExpectedFile>,
) -> (o: Outcome)
    requires
        judge.needs_expected() ==> expected is Some,
    ensures
        o@ == judge_spec(
            *judge,
            *result,
            match expected {
                Some(e) => Some(*e),
                None => None,
            },
        ),
{
    if let Judge::Succeeds(f) = judge {
        return match run_step_outcome(f, result) {
            Some(o) => o,
            None => Outcome::Pass,
        };
    }
    match result {
        Err(e) => {
            let mut v: Vec<char> = Vec::new();
            push_str(&mut v, "execution failed: ");
            push_str(&mut v, e.as_str());
            Outcome::Fail { reason: string_of(v.as_slice()) }
        },
        Ok(o) => match judge {
            Judge::ExitZero => if o.success() {
                Outcome::Pass
            } else {
                nonzero_exit(o.code)
            },
            Judge::CTestSuite => ctestsuite_compare(o.stdout.as_slice(), o.code, expected.unwrap()),
            Judge::Tcc(stem) => if o.success() {
                let mut bytes = o.stdout.clone();
                let mut err = o.stderr.clone();
                bytes.append(&mut err);
                tcc_compare(bytes.as_slice(), expected.unwrap(), tcc_mode(stem.as_str()))
            } else {
                nonzero_exit(o.code)
            },
            Judge::Llvm => llvm_compare(o.stdout.as_slice(), o.code, expected.unwrap()),
            Judge::Succeeds(_) => Outcome::Pass,
        },
    }
}

/// View of a judge.
pub enum JudgeView {
    ExitZero,
    Succeeds(FailureView),
    CTestSuite,
    Tcc(Seq<char>),
    Llvm,
}

impl View for Judge {
    type V = JudgeView;

    open spec fn view(&self) -> JudgeView {
        match self {
            Judge::ExitZero => JudgeView::ExitZero,
            Judge::Succeeds(f) => JudgeView::Succeeds(f@),
            Judge::CTestSuite => JudgeView::CTestSuite,
            Judge::Tcc(s) => JudgeView::Tcc(s@),
            Judge::Llvm => JudgeView::Llvm,
        }
    }
}

/// One step of running a case.
#[derive(Clone, Debug)]
pub enum Step {
    /// The case is decided without running anything.
    Decided(Outcome),
    /// The file at this path must exist; otherwise the case ends with the
    /// given outcome.
    Require(String, Outcome),
    /// Write the text to the file at this path.
    Write(String, String),
    /// Run a command; a failure ends the case as the format describes.
    Run(Command, FailureFormat),
    /// Compile a tests2 fixture with this stem: when compilation fails, the
    /// compiler's own output may still be the expected output.
    TccCompile(Command, String),
    /// Create the working directory at this path; when a copy is given,
    /// write an LF-normalised copy of the first file to the second.
    RunDir(String, Option<(String, String)>),
    /// The run cannot go on: it ends with this error.
    Abort(String),
    /// Run the last command and judge its result.
    Final(Command, Judge),
}

/// View of a step.
pub enum StepView {
    Decided((OutcomeKind, Seq<char>)),
    Require(Seq<char>, (OutcomeKind, Seq<char>)),
    Write(Seq<char>, Seq<char>),
    Run(CommandView, FailureView),
    TccCompile(CommandView, Seq<char>),
    RunDir(Seq<char>, Option<(Seq<char>, Seq<char>)>),
    Abort(Seq<char>),
    Final(CommandView, JudgeView),
}

impl View for Step {
    type V = StepView;

    open spec fn view(&self) -> StepView {
        match self {
            Step::Decided(o) => StepView::Decided(o@),
            Step::Require(p, o) => StepView::Require(p@, o@),
            Step::Write(p, t) => StepView::Write(p@, t@),
            Step::Run(c, f) => StepView::Run(c@, f@),
            Step::TccCompile(c, s) => StepView::TccCompile(c@, s@),
            Step::RunDir(d, copy) => StepView::RunDir(
                d@,
                match copy {
                    Some((a, b)) => Some((a@, b@)),
                    None => None,
                },
            ),
            Step::Abort(m) => StepView::Abort(m@),
            Step::Final(c, j) => StepView::Final(c@, j@),
        }
    }
}

/// Views of a sequence of steps.
pub open spec fn steps_view(s: Seq<Step>) -> Seq<StepView> {
    s.map_values(|x: Step| x@)
}

/// Builds a string from a literal.
pub fn owned(s: &str) -> (r: String)
    ensures
        r@ == s@,
{
    s.to_string()
}

/// Builds a string from two pieces.
pub fn concat2(a: &str, b: &str) -> (r: String)
    ensures
        r@ == a@ + b@,
{
    let mut v: Vec<char> = Vec::new();
    push_str(&mut v, a);
    push_str(&mut v, b);
    string_of(v.as_slice())
}

/// Builds a string from three pieces.
pub fn concat3(a: &str, b: &str, c: &str) -> (r: String)
    ensures
        r@ == a@ + b@ + c@,
{
    let mut v: Vec<char> = Vec::new();
    push_str(&mut v, a);
    push_str(&mut v, b);
    push_str(&mut v, c);
    string_of(v.as_slice())
}

/// A failure format.
pub fn failure(head: String, mid: &str, combined: bool, invoke: &str) -> (f: FailureFormat)
    ensures
        f@ == (head@, mid@, combined, invoke@),
{
    FailureFormat { head, mid: owned(mid), combined, invoke: owned(invoke) }
}

/// A command with no working directory of its own.
pub fn command(program: &str, args: Vec<String>) -> (c: Command)
    ensures
        c@ == (program@, strings_view(args@), None::<Seq<char>>),
{
    Command { program: owned(program), args, current_dir: None }
}

/// Pushes a copy of `s` onto `v`.
pub fn push_arg(v: &mut Vec<String>, s: &str)
    ensures
        strings_view(final(v)@) == strings_view(old(v)@).push(s@),
{
    let ghost before = strings_view(v@);
    v.push(owned(s));
    assert(strings_view(v@) == before.push(s@));
}

} // verus!
