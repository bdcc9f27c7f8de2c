//! Comparison of a test program's output with a suite's expected output.

use vstd::prelude::*;

use crate::bytes::{crlf_to_lf, normalize_newlines, strip_final_newline, strip_one_final_newline, trim_line_ends, trim_trailing_spaces_per_line};
use crate::report::{Outcome, OutcomeKind};
use crate::text::{decimal_i64, push_chars, push_str, signed_decimal, string_of};

verus! {

/// Contents of an expected-output file, or the error that reading it gave.
pub struct ExpectedFile {
    /// Path of the file, as displayed in messages.
    pub path: String,
    /// The file's bytes, or the text of the read error.
    pub contents: Result<Vec<u8>, String>,
}

impl ExpectedFile {
    /// View of the contents: bytes, or the error text.
    pub open spec fn contents_view(&self) -> Result<Seq<u8>, Seq<char>> {
        match self.contents {
            Ok(b) => Ok(b@),
            Err(e) => Err(e@),
        }
    }
}

/// Reason given when an expected-output file cannot be read.
pub open spec fn unreadable_reason(path: Seq<char>, error: Seq<char>) -> Seq<char> {
    "cannot read "@ + path + ": "@ + error
}

/// How an exit status is described in messages.
pub open spec fn exit_status_text(code: Option<i32>) -> Seq<char> {
    match code {
        Some(c) => signed_decimal(c as int),
        None => "killed by signal"@,
    }
}

/// Whether two byte slices are equal.
pub fn bytes_eq(a: &[u8], b: &[u8]) -> (r: bool)
    ensures
        r == (a@ == b@),
{
    if a.len() != b.len() {
        return false;
    }
    for i in 0..a.len()
        invariant
            a@.len() == b@.len(),
            forall|j: int| 0 <= j < i ==> a@[j] == b@[j],
    {
        if a[i] != b[i] {
            return false;
        }
    }
    assert(a@ =~= b@);
    true
}

/// A `Skip` outcome for an unreadable expected-output file.
fn unreadable(path: &String, error: &String) -> (o: Outcome)
    ensures
        o@ == (OutcomeKind::Skip, unreadable_reason(path@, error@)),
{
    let mut v: Vec<char> = Vec::new();
    push_str(&mut v, "cannot read ");
    push_str(&mut v, path.as_str());
    push_str(&mut v, ": ");
    push_str(&mut v, error.as_str());
    Outcome::Skip { reason: string_of(v.as_slice()) }
}

/// Describes an exit status as in messages.
pub fn exit_status_chars(code: Option<i32>) -> (v: Vec<char>)
    ensures
        v@ == exit_status_text(code),
{
    match code {
        Some(c) => decimal_i64(c as i64),
        None => {
            let mut v: Vec<char> = Vec::new();
            push_str(&mut v, "killed by signal");
            v
        },
    }
}

/// Outcome of a c-testsuite case: the expected file must be readable, the
/// program must exit with status 0, and its stdout must equal the expected
/// bytes once CR LF pairs become LF on both sides.
pub open spec fn ctestsuite_outcome(
    actual: Seq<u8>,
    exit_code: Option<i32>,
    path: Seq<char>,
    expected: Result<Seq<u8>, Seq<char>>,
) -> (OutcomeKind, Seq<char>) {
    match expected {
        Err(e) => (OutcomeKind::Skip, unreadable_reason(path, e)),
        Ok(exp) => if exit_code != Some(0i32) {
            (OutcomeKind::Fail, "non-zero exit code: "@ + exit_status_text(exit_code))
        } else if crlf_to_lf(actual) != crlf_to_lf(exp) {
            (OutcomeKind::Fail, "stdout mismatch"@)
        } else {
            (OutcomeKind::Pass, Seq::empty())
        },
    }
}

/// A `Fail` outcome for a non-zero exit status.
pub fn nonzero_exit(code: Option<i32>) -> (o: Outcome)
    ensures
        o@ == (OutcomeKind::Fail, "non-zero exit code: "@ + exit_status_text(code)),
{
    let mut v: Vec<char> = Vec::new();
    push_str(&mut v, "non-zero exit code: ");
    let t = exit_status_chars(code);
    push_chars(&mut v, t.as_slice());
    Outcome::Fail { reason: string_of(v.as_slice()) }
}

/// Compare a c-testsuite program run with its `.expected` file.
pub fn ctestsuite_compare(actual_stdout: &[u8], exit_code: Option<i32>, expected: &ExpectedFile) -> (o: Outcome)
    ensures
        o@ == ctestsuite_outcome(actual_stdout@, exit_code, expected.path@, expected.contents_view()),
{
    match &expected.contents {
        Err(e) => unreadable(&expected.path, e),
        Ok(exp) => {
            if exit_code != Some(0i32) {
                return nonzero_exit(exit_code);
            }
            let a = normalize_newlines(actual_stdout);
            let b = normalize_newlines(exp.as_slice());
            if !bytes_eq(a.as_slice(), b.as_slice()) {
                Outcome::Fail { reason: "stdout mismatch".to_string() }
            } else {
                Outcome::Pass
            }
        },
    }
}

/// Normalisation of tests2 output before comparison.
#[derive(Copy, Clone, Debug, PartialEq, Eq, Structural)]
pub enum TccCompareMode {
    /// CR LF becomes LF; nothing else changes.
    Exact,
    /// CR LF becomes LF and trailing spaces of every line are dropped.
    TrimTrailingSpacesPerLine,
    /// CR LF becomes LF and one final LF is dropped.
    AllowFinalNewlineDrift,
}

/// tests2 output normalised for comparison in `mode`.
pub open spec fn tcc_normalized(s: Seq<u8>, mode: TccCompareMode) -> Seq<u8> {
    match mode {
        TccCompareMode::Exact => crlf_to_lf(s),
        TccCompareMode::AllowFinalNewlineDrift => strip_final_newline(crlf_to_lf(s)),
        TccCompareMode::TrimTrailingSpacesPerLine => trim_line_ends(crlf_to_lf(s)),
    }
}

/// Normalise tests2 output for comparison in `mode`.
pub fn normalize_tcc_output(bytes: &[u8], mode: TccCompareMode) -> (out: Vec<u8>)
    ensures
        out@ == tcc_normalized(bytes@, mode),
{
    let normalized = normalize_newlines(bytes);
    match mode {
        TccCompareMode::Exact => normalized,
        TccCompareMode::AllowFinalNewlineDrift => strip_one_final_newline(normalized),
        TccCompareMode::TrimTrailingSpacesPerLine => trim_trailing_spaces_per_line(
            normalized.as_slice(),
        ),
    }
}

/// Outcome of a tests2 case compared in `mode`.
pub open spec fn tcc_outcome(
    actual: Seq<u8>,
    path: Seq<char>,
    expected: Result<Seq<u8>, Seq<char>>,
    mode: TccCompareMode,
) -> (OutcomeKind, Seq<char>) {
    match expected {
        Err(e) => (OutcomeKind::Skip, unreadable_reason(path, e)),
        Ok(exp) => if tcc_normalized(actual, mode) == tcc_normalized(exp, mode) {
            (OutcomeKind::Pass, Seq::empty())
        } else {
            (OutcomeKind::Fail, "output mismatch"@)
        },
    }
}

/// Compare a tests2 program's output with its `.expect` file in `mode`.
pub fn tcc_compare(actual_output: &[u8], expected: &ExpectedFile, mode: TccCompareMode) -> (o: Outcome)
    ensures
        o@ == tcc_outcome(actual_output@, expected.path@, expected.contents_view(), mode),
{
    match &expected.contents {
        Err(e) => unreadable(&expected.path, e),
        Ok(exp) => {
            let a = normalize_tcc_output(actual_output, mode);
            let b = normalize_tcc_output(exp.as_slice(), mode);
            if bytes_eq(a.as_slice(), b.as_slice()) {
                Outcome::Pass
            } else {
                Outcome::Fail { reason: "output mismatch".to_string() }
            }
        },
    }
}

/// Comparison mode for the tests2 fixture with file stem `stem`: two
/// fixtures whose vendored expected output drifted get a looser comparison.
pub open spec fn tcc_mode_for_stem(stem: Seq<char>) -> TccCompareMode {
    if stem == "38_multiple_array_index"@ {
        TccCompareMode::TrimTrailingSpacesPerLine
    } else if stem == "71_macro_empty_arg"@ {
        TccCompareMode::AllowFinalNewlineDrift
    } else {
        TccCompareMode::Exact
    }
}

/// The comparison mode for the tests2 fixture `stem`.
pub fn tcc_mode(stem: &str) -> (m: TccCompareMode)
    ensures
        m == tcc_mode_for_stem(stem@),
{
    if crate::text::str_eq(stem, "38_multiple_array_index") {
        TccCompareMode::TrimTrailingSpacesPerLine
    } else if crate::text::str_eq(stem, "71_macro_empty_arg") {
        TccCompareMode::AllowFinalNewlineDrift
    } else {
        TccCompareMode::Exact
    }
}

/// The bytes of an ASCII text.
pub open spec fn ascii_bytes(s: Seq<char>) -> Seq<u8> {
    s.map_values(|c: char| c as u8)
}

/// What an LLVM SingleSource reference output holds for a run: the
/// program's stdout followed by a line `exit N` (`-1` when killed).
pub open spec fn llvm_actual_output(stdout: Seq<u8>, exit_code: Option<i32>) -> Seq<u8> {
    let code: int = match exit_code {
        Some(c) => c as int,
        None => -1,
    };
    crlf_to_lf(stdout) + ascii_bytes("exit "@ + signed_decimal(code) + "\n"@)
}

/// Outcome of an LLVM SingleSource case.
pub open spec fn llvm_outcome(
    stdout: Seq<u8>,
    exit_code: Option<i32>,
    path: Seq<char>,
    expected: Result<Seq<u8>, Seq<char>>,
) -> (OutcomeKind, Seq<char>) {
    match expected {
        Err(e) => (OutcomeKind::Skip, unreadable_reason(path, e)),
        Ok(exp) => if llvm_actual_output(stdout, exit_code) == crlf_to_lf(exp) {
            (OutcomeKind::Pass, Seq::empty())
        } else {
            (OutcomeKind::Fail, "stdout/exit mismatch"@)
        },
    }
}

/// Compare an LLVM SingleSource run with its `.reference_output` file.
pub fn llvm_compare(stdout: &[u8], exit_code: Option<i32>, expected: &ExpectedFile) -> (o: Outcome)
    ensures
        o@ == llvm_outcome(stdout@, exit_code, expected.path@, expected.contents_view()),
{
    match &expected.contents {
        Err(e) => unreadable(&expected.path, e),
        Ok(exp) => {
            let expected_bytes = normalize_newlines(exp.as_slice());
            let mut actual = normalize_newlines(stdout);
            let code: i32 = match exit_code {
                Some(c) => c,
                None => -1,
            };
            let mut line: Vec<char> = Vec::new();
            push_str(&mut line, "exit ");
            let digits = decimal_i64(code as i64);
            push_chars(&mut line, digits.as_slice());
            push_str(&mut line, "\n");
            let ghost start = actual@;
            for i in 0..line.len()
                invariant
                    actual@ == start + ascii_bytes(line@.take(i as int)),
            {
                actual.push(line[i] as u8);
                assert(line@.take(i + 1) == line@.take(i as int).push(line@[i as int]));
                assert(ascii_bytes(line@.take(i + 1)) == ascii_bytes(line@.take(i as int)).push(
                    line@[i as int] as u8,
                ));
            }
            assert(line@.take(line.len() as int) == line@);
            if bytes_eq(actual.as_slice(), expected_bytes.as_slice()) {
                Outcome::Pass
            } else {
                Outcome::Fail { reason: "stdout/exit mismatch".to_string() }
            }
        },
    }
}

/// How a run is judged against its expected file. An unreadable expected
/// file skips the case in every suite, and a readable one never does. A
/// c-testsuite case passes exactly when the program exited with status 0
/// and printed the expected text up to CR LF line endings; any other
/// status fails it. A tests2 case that matches exactly also matches in the
/// looser modes, and in the exact mode a match is equality up to CR LF.
pub proof fn lemma_compare_verdicts(
    actual: Seq<u8>,
    exit_code: Option<i32>,
    path: Seq<char>,
    expected: Result<Seq<u8>, Seq<char>>,
    mode: TccCompareMode,
)
    ensures
        (ctestsuite_outcome(actual, exit_code, path, expected).0 == OutcomeKind::Skip) == (expected is Err),
        (tcc_outcome(actual, path, expected, mode).0 == OutcomeKind::Skip) == (expected is Err),
        (llvm_outcome(actual, exit_code, path, expected).0 == OutcomeKind::Skip) == (expected is Err),
        (ctestsuite_outcome(actual, exit_code, path, expected).0 == OutcomeKind::Pass) == (expected is Ok
            && exit_code == Some(0i32) && crlf_to_lf(actual) == crlf_to_lf(expected->Ok_0)),
        (expected is Ok && exit_code != Some(0i32)) ==> ctestsuite_outcome(actual, exit_code, path, expected).0
            == OutcomeKind::Fail,
        (tcc_outcome(actual, path, expected, TccCompareMode::Exact).0 == OutcomeKind::Pass) == (expected is Ok
            && crlf_to_lf(actual) == crlf_to_lf(expected->Ok_0)),
        tcc_outcome(actual, path, expected, TccCompareMode::Exact).0 == OutcomeKind::Pass ==> tcc_outcome(
            actual,
            path,
            expected,
            mode,
        ).0 == OutcomeKind::Pass,
        (expected is Ok) ==> (llvm_outcome(actual, exit_code, path, expected).0 == OutcomeKind::Pass) == (
        crlf_to_lf(expected->Ok_0) == llvm_actual_output(actual, exit_code)),
{
}

} // verus!
