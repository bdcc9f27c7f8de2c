//! Render a [`Report`] as a Markdown dashboard table, and splice such a
//! table into a document between sentinel markers.

use vstd::prelude::*;
use vstd::arithmetic::power2::pow2;

use crate::bytes::{crlf_chars_to_lf, normalize_char_newlines};
use crate::lines::{contains_sub, find_sub, occurs_at};
use crate::report::{count_kind, CaseView, OutcomeKind, Report, SuiteReport};
use crate::text::{chars_of, decimal, decimal_u64, digit_char, push_chars, push_str, string_of};

verus! {

/// Marker that opens the generated part of a document.
pub const BEGIN_MARKER: &'static str = "<!-- BEGIN autogen -->";

/// Marker that closes the generated part of a document.
pub const END_MARKER: &'static str = "<!-- END autogen -->";

/// The two header rows of the dashboard table.
pub open spec fn dashboard_header() -> Seq<char> {
    "| Suite | Discovered | Pass | XFail | Fail | Skip | % |\n|-------|------------|------|-------|------|------|---|\n"@
}

/// `n / d` rounded to the nearest integer, ties to even.
pub open spec fn div_round_even(n: nat, d: nat) -> nat
    recommends
        d > 0,
{
    let q = n / d;
    let r = n % d;
    if 2 * r > d || (2 * r == d && q % 2 == 1) {
        q + 1
    } else {
        q
    }
}

/// The least shift `s`, from the given one up to 84, at which `n * 2^s`
/// reaches `2^52 * d`: the scale that puts `n / d` in the range of a
/// 53-bit significand.
pub open spec fn quotient_shift(n: nat, d: nat, s: nat) -> nat
    decreases 84 - s,
{
    if s >= 84 || n * pow2(s) >= pow2(52) * d {
        s
    } else {
        quotient_shift(n, d, s + 1)
    }
}

/// Tenths of the percentage `n` of `d` as 64-bit floating point gives it:
/// the quotient `n / d` rounded to a 53-bit significand (ties to even),
/// that times 100 rounded to a 53-bit significand again, and the exact
/// value of the result rounded to tenths (ties to even).
pub open spec fn f64_percent_tenths(n: nat, d: nat) -> nat {
    if n == 0 || d == 0 {
        0
    } else {
        let s = quotient_shift(n, d, 52);
        let m = div_round_even(n * pow2(s), d);
        let p = m * 100;
        let t: nat = if p < pow2(59) {
            6
        } else {
            7
        };
        let m2 = div_round_even(p, pow2(t));
        div_round_even(m2 * 10, pow2((s - t) as nat))
    }
}

/// The percentage `100 * n / d` printed with one decimal, as computing it
/// in 64-bit floating point and printing that gives it; `0.0` when `d` is
/// zero.
pub open spec fn percent_text(n: nat, d: nat) -> Seq<char> {
    if d == 0 {
        "0.0"@
    } else {
        let t = f64_percent_tenths(n, d);
        decimal(t / 10) + "."@ + seq![digit_char(t % 10)]
    }
}

/// One table row for a suite named `name` with the given counts.
pub open spec fn dashboard_row(name: Seq<char>, pass: nat, fail: nat, xfail: nat, skip: nat) -> Seq<char> {
    let discovered = pass + fail + xfail + skip;
    "| "@ + name + " | "@ + decimal(discovered) + " | "@ + decimal(pass) + " | "@ + decimal(xfail)
        + " | "@ + decimal(fail) + " | "@ + decimal(skip) + " | "@ + percent_text(
        pass + xfail,
        discovered,
    ) + " |\n"@
}

/// The table row of a suite.
pub open spec fn suite_row(s: SuiteReport) -> Seq<char> {
    let e = s.entries();
    dashboard_row(
        s.suite_name(),
        count_kind(e, OutcomeKind::Pass),
        count_kind(e, OutcomeKind::Fail),
        count_kind(e, OutcomeKind::XFail),
        count_kind(e, OutcomeKind::Skip),
    )
}

/// The rows of a sequence of suites.
pub open spec fn suite_rows(s: Seq<SuiteReport>) -> Seq<char>
    decreases s.len(),
{
    if s.len() == 0 {
        Seq::empty()
    } else {
        suite_rows(s.drop_last()) + suite_row(s.last())
    }
}

/// `num / den` rounded to the nearest integer, ties to even.
fn round_div(num: u128, den: u128) -> (r: u128)
    requires
        den > 0,
        den < 0x1_0000_0000_0000_0000_0000_0000,
        num < 0x1_0000_0000_0000_0000_0000_0000_0000,
    ensures
        r == div_round_even(num as nat, den as nat),
{
    let q = num / den;
    let r = num % den;
    if 2 * r > den || (2 * r == den && q % 2 == 1) {
        q + 1
    } else {
        q
    }
}

proof fn lemma_round_div_le(num: nat, den: nat, k: nat)
    requires
        den > 0,
        num < k * den,
    ensures
        div_round_even(num, den) <= k,
{
    let q = num / den;
    assert(q * den <= num) by (nonlinear_arith)
        requires
            den > 0,
            q == num / den,
    ;
    assert(q < k) by (nonlinear_arith)
        requires
            q * den <= num,
            num < k * den,
            den > 0,
    ;
}

/// Tenths of the percentage `n` of `d`, as 64-bit floating point gives it.
fn percent_tenths(n: u32, d: u32) -> (t: u128)
    requires
        0 < n <= d,
    ensures
        t == f64_percent_tenths(n as nat, d as nat),
        t <= 4096,
{
    let nn = n as u128;
    let dd = d as u128;
    proof {
        vstd::arithmetic::power2::lemma2_to64();
        vstd::arithmetic::power2::lemma2_to64_rest();
    }
    let two52: u128 = 0x10_0000_0000_0000;
    let mut s: u128 = 52;
    let mut np: u128 = nn * two52;
    assert(np <= two52 * dd) by (nonlinear_arith)
        requires
            np == nn * two52,
            nn <= dd,
    ;
    while s < 84 && np < two52 * dd
        invariant
            52 <= s <= 84,
            0 < nn <= dd,
            dd < 0x1_0000_0000,
            two52 == 0x10_0000_0000_0000,
            two52 == pow2(52),
            np as nat == nn * pow2(s as nat),
            np < 2 * two52 * dd,
            quotient_shift(nn as nat, dd as nat, s as nat) == quotient_shift(nn as nat, dd as nat, 52),
        decreases 84 - s,
    {
        proof {
            vstd::arithmetic::power2::lemma_pow2_unfold((s + 1) as nat);
            assert(nn * pow2((s + 1) as nat) == 2 * (nn * pow2(s as nat))) by (nonlinear_arith)
                requires
                    pow2((s + 1) as nat) == 2 * pow2(s as nat),
            ;
        }
        s = s + 1;
        np = np * 2;
    }
    assert(quotient_shift(nn as nat, dd as nat, s as nat) == s as nat);
    let m = round_div(np, dd);
    proof {
        lemma_round_div_le(np as nat, dd as nat, 2 * pow2(52));
    }
    let p = m * 100;
    let (t, pt): (u128, u128) = if p < 0x800_0000_0000_0000 {
        (6, 64)
    } else {
        (7, 128)
    };
    assert(pt == pow2(t as nat));
    let m2 = round_div(p, pt);
    proof {
        lemma_round_div_le(p as nat, pt as nat, 2 * pow2(52));
    }
    let sh = s - t;
    let mut q2: u128 = 1;
    let mut i: u128 = 0;
    while i < sh
        invariant
            i <= sh,
            sh <= 78,
            q2 as nat == pow2(i as nat),
            q2 >= 1,
            q2 <= 0x40_0000_0000_0000_0000_0000,
        decreases sh - i,
    {
        proof {
            vstd::arithmetic::power2::lemma2_to64();
            vstd::arithmetic::power2::lemma2_to64_rest();
            vstd::arithmetic::power2::lemma_pow2_unfold((i + 1) as nat);
            if i + 1 < 78 {
                vstd::arithmetic::power2::lemma_pow2_strictly_increases((i + 1) as nat, 78);
            }
            vstd::arithmetic::power2::lemma_pow2_adds(14, 64);
        }
        q2 = q2 * 2;
        i = i + 1;
    }
    let r = round_div(m2 * 10, q2);
    proof {
        if sh > 45 {
            vstd::arithmetic::power2::lemma_pow2_strictly_increases(45, sh as nat);
        }
        assert(m2 * 10 < 4096 * q2);
        lemma_round_div_le((m2 * 10) as nat, q2 as nat, 4096);
    }
    r
}

/// The percentage text of `n` out of `d`.
fn percent(n: u32, d: u32) -> (v: Vec<char>)
    requires
        n <= d,
    ensures
        v@ == percent_text(n as nat, d as nat),
{
    if d == 0 {
        let mut v: Vec<char> = Vec::new();
        push_str(&mut v, "0.0");
        return v;
    }
    let t: u64 = if n == 0 {
        0
    } else {
        percent_tenths(n, d) as u64
    };
    let mut v = decimal_u64(t / 10);
    push_str(&mut v, ".");
    let d0 = (48 + t % 10) as u8;
    v.push(d0 as char);
    v
}

/// The table row of one suite.
fn render_row(suite: &SuiteReport) -> (v: Vec<char>)
    requires
        suite.entries().len() <= u32::MAX,
    ensures
        v@ == suite_row(*suite),
{
    let c = suite.counts();
    proof {
        crate::report::lemma_counts_sum(suite.entries());
    }
    let discovered = c.pass + c.fail + c.xfail + c.skip;
    let mut out: Vec<char> = Vec::new();
    push_str(&mut out, "| ");
    push_str(&mut out, suite.name());
    push_str(&mut out, " | ");
    push_chars(&mut out, decimal_u64(discovered as u64).as_slice());
    push_str(&mut out, " | ");
    push_chars(&mut out, decimal_u64(c.pass as u64).as_slice());
    push_str(&mut out, " | ");
    push_chars(&mut out, decimal_u64(c.xfail as u64).as_slice());
    push_str(&mut out, " | ");
    push_chars(&mut out, decimal_u64(c.fail as u64).as_slice());
    push_str(&mut out, " | ");
    push_chars(&mut out, decimal_u64(c.skip as u64).as_slice());
    push_str(&mut out, " | ");
    push_chars(&mut out, percent(c.pass + c.xfail, discovered).as_slice());
    push_str(&mut out, " |\n");
    out
}

/// Render the suite-status table of a report: the header rows and one row
/// per suite.
pub fn render_dashboard(report: &Report) -> (s: String)
    requires
        forall|i: int| 0 <= i < report.suites@.len() ==> (#[trigger] report.suites@[i]).entries().len() <= u32::MAX,
    ensures
        s@ == dashboard_header() + suite_rows(report.suites@),
{
    let mut out: Vec<char> = Vec::new();
    push_str(&mut out, "| Suite | Discovered | Pass | XFail | Fail | Skip | % |\n|-------|------------|------|-------|------|------|---|\n");
    for i in 0..report.suites.len()
        invariant
            forall|i: int| 0 <= i < report.suites@.len() ==> (#[trigger] report.suites@[i]).entries().len() <= u32::MAX,
            out@ == dashboard_header() + suite_rows(report.suites@.take(i as int)),
    {
        proof {
            assert(report.suites@.take(i + 1).drop_last() == report.suites@.take(i as int));
        }
        let row = render_row(&report.suites[i]);
        push_chars(&mut out, row.as_slice());
    }
    assert(report.suites@.take(report.suites.len() as int) == report.suites@);
    string_of(out.as_slice())
}

/// Why a document could not take a generated table.
#[derive(Debug)]
pub struct SpliceError {
    /// Human-readable message.
    pub message: String,
}

/// First position of `needle` in `hay`, if any.
pub open spec fn first_occurrence(hay: Seq<char>, needle: Seq<char>) -> Option<int> {
    if contains_sub(hay, needle) {
        Some(choose|i: int| occurs_at(hay, needle, i) && forall|j: int| 0 <= j < i ==> !occurs_at(hay, needle, j))
    } else {
        None
    }
}

/// The document `markdown` with everything between the end of the first
/// begin marker and the first end marker replaced by a line feed and
/// `generated`, after CR LF became LF; or the reason it cannot be done.
pub open spec fn splice_spec(markdown: Seq<char>, generated: Seq<char>) -> Result<Seq<char>, Seq<char>> {
    let n = crlf_chars_to_lf(markdown);
    match first_occurrence(n, BEGIN_MARKER@) {
        None => Err("missing `"@ + BEGIN_MARKER@ + "` in conformance.md"@),
        Some(begin) => match first_occurrence(n, END_MARKER@) {
            None => Err("missing `"@ + END_MARKER@ + "` in conformance.md"@),
            Some(end) => if end < begin {
                Err("`"@ + END_MARKER@ + "` appears before `"@ + BEGIN_MARKER@ + "`"@)
            } else {
                Ok(n.take(begin + BEGIN_MARKER@.len()) + "\n"@ + generated + n.skip(end))
            },
        },
    }
}

/// The unique first occurrence.
proof fn lemma_first_occurrence(hay: Seq<char>, needle: Seq<char>, i: int)
    requires
        occurs_at(hay, needle, i),
        forall|j: int| 0 <= j < i ==> !occurs_at(hay, needle, j),
    ensures
        first_occurrence(hay, needle) == Some(i),
{
    let c = choose|k: int| occurs_at(hay, needle, k) && forall|j: int| 0 <= j < k ==> !occurs_at(hay, needle, j);
    assert(occurs_at(hay, needle, c));
    if c < i {
        assert(!occurs_at(hay, needle, c));
    } else if i < c {
        assert(!occurs_at(hay, needle, i));
    }
}

/// Replace the content between `<!-- BEGIN autogen -->` and
/// `<!-- END autogen -->` in `markdown` with `generated`.
///
/// Everything outside the sentinels is preserved verbatim; line endings are
/// normalised to `\n`.
pub fn splice_autogen(markdown: &str, generated: &str) -> (r: Result<String, SpliceError>)
    ensures
        match splice_spec(markdown@, generated@) {
            Ok(s) => r matches Ok(x) && x@ == s,
            Err(m) => r matches Err(e) && e.message@ == m,
        },
{
    let md = chars_of(markdown);
    let normalized = normalize_char_newlines(md.as_slice());
    let begin_marker = chars_of(BEGIN_MARKER);
    let end_marker = chars_of(END_MARKER);
    let begin = match find_sub(normalized.as_slice(), begin_marker.as_slice()) {
        None => {
            let mut m: Vec<char> = Vec::new();
            push_str(&mut m, "missing `");
            push_str(&mut m, BEGIN_MARKER);
            push_str(&mut m, "` in conformance.md");
            return Err(SpliceError { message: string_of(m.as_slice()) });
        },
        Some(b) => b,
    };
    proof {
        lemma_first_occurrence(normalized@, BEGIN_MARKER@, begin as int);
    }
    let end = match find_sub(normalized.as_slice(), end_marker.as_slice()) {
        None => {
            let mut m: Vec<char> = Vec::new();
            push_str(&mut m, "missing `");
            push_str(&mut m, END_MARKER);
            push_str(&mut m, "` in conformance.md");
            return Err(SpliceError { message: string_of(m.as_slice()) });
        },
        Some(e) => e,
    };
    proof {
        lemma_first_occurrence(normalized@, END_MARKER@, end as int);
    }
    if end < begin {
        let mut m: Vec<char> = Vec::new();
        push_str(&mut m, "`");
        push_str(&mut m, END_MARKER);
        push_str(&mut m, "` appears before `");
        push_str(&mut m, BEGIN_MARKER);
        push_str(&mut m, "`");
        return Err(SpliceError { message: string_of(m.as_slice()) });
    }
    let cut = begin + begin_marker.len();
    let mut out: Vec<char> = Vec::new();
    for k in 0..cut
        invariant
            cut <= normalized@.len(),
            out@ == normalized@.take(k as int),
    {
        out.push(normalized[k]);
        assert(normalized@.take(k + 1) == normalized@.take(k as int).push(normalized@[k as int]));
    }
    push_str(&mut out, "\n");
    push_str(&mut out, generated);
    let ghost head = out@;
    for k in end..normalized.len()
        invariant
            end <= normalized@.len(),
            out@ == head + normalized@.subrange(end as int, k as int),
    {
        out.push(normalized[k]);
        assert(normalized@.subrange(end as int, k + 1) == normalized@.subrange(end as int, k as int).push(
            normalized@[k as int],
        ));
    }
    assert(normalized@.subrange(end as int, normalized@.len() as int) == normalized@.skip(end as int));
    Ok(string_of(out.as_slice()))
}

proof fn lemma_no_cr_normalized(s: Seq<char>)
    requires
        !s.contains('\r'),
    ensures
        crlf_chars_to_lf(s) == s,
    decreases s.len(),
{
    if s.len() > 0 {
        assert(s[0] != '\r');
        assert forall|x: char| s.skip(1).contains(x) implies s.contains(x) by {
            let i = choose|i: int| 0 <= i < s.skip(1).len() && s.skip(1)[i] == x;
            assert(s[i + 1] == x);
        }
        lemma_no_cr_normalized(s.skip(1));
        assert(seq![s[0]] + s.skip(1) =~= s);
    }
}

proof fn lemma_marker_chars()
    ensures
        BEGIN_MARKER@.len() == 22,
        END_MARKER@.len() == 20,
        BEGIN_MARKER@[0] == '<',
        BEGIN_MARKER@[1] == '!',
        BEGIN_MARKER@[2] == '-',
        BEGIN_MARKER@[5] == 'B',
        END_MARKER@[5] == 'E',
        END_MARKER@[0] == '<',
        forall|i: int| 1 <= i < 22 ==> BEGIN_MARKER@[i] != '<',
        forall|i: int| 1 <= i < 20 ==> END_MARKER@[i] != '<',
{
    reveal_strlit("<!-- BEGIN autogen -->");
    reveal_strlit("<!-- END autogen -->");
}

proof fn lemma_concat_no_cr(n: Seq<char>, generated: Seq<char>, b: int, e: int)
    requires
        !n.contains('\r'),
        !generated.contains('\r'),
        0 <= b + 22 <= n.len(),
        0 <= e <= n.len(),
    ensures
        !(n.take(b + 22) + (seq!['\n'] + generated) + n.skip(e)).contains('\r'),
{
    let pre = n.take(b + 22);
    let mid = seq!['\n'] + generated;
    let out = pre + mid + n.skip(e);
    if out.contains('\r') {
        let i = choose|i: int| 0 <= i < out.len() && out[i] == '\r';
        if i < pre.len() {
            assert(n[i] == '\r');
        } else if i < pre.len() + mid.len() {
            if i > pre.len() {
                assert(generated[i - pre.len() - 1] == '\r');
            }
        } else {
            assert(n[e + (i - pre.len() - mid.len())] == '\r');
        }
    }
}

proof fn lemma_end_after_begin(n: Seq<char>, b: int, e: int)
    requires
        b <= e,
        occurs_at(n, BEGIN_MARKER@, b),
        occurs_at(n, END_MARKER@, e),
        forall|j: int| 0 <= j < e ==> !occurs_at(n, END_MARKER@, j),
    ensures
        e >= b + 3,
{
    lemma_marker_chars();
    let bm = BEGIN_MARKER@;
    let em = END_MARKER@;
    if e < b + 3 {
        if e == b {
            assert(n.subrange(b, b + 22)[5] == bm[5]);
            assert(n.subrange(e, e + 20)[5] == em[5]);
        } else {
            assert(n.subrange(e, e + 20)[0] == em[0]);
            assert(n.subrange(b, b + 22)[e - b] == bm[e - b]);
        }
    }
}

proof fn lemma_begin_still_first(n: Seq<char>, out: Seq<char>, b: int)
    requires
        0 <= b,
        b + 22 <= n.len(),
        b + 22 <= out.len(),
        out.take(b + 22) == n.take(b + 22),
        occurs_at(n, BEGIN_MARKER@, b),
        forall|j: int| 0 <= j < b ==> !occurs_at(n, BEGIN_MARKER@, j),
    ensures
        first_occurrence(out, BEGIN_MARKER@) == Some(b),
{
    lemma_marker_chars();
    assert forall|j: int| 0 <= j <= b implies (occurs_at(out, BEGIN_MARKER@, j) <==> occurs_at(n, BEGIN_MARKER@, j)) by {
        assert(out.subrange(j, j + 22) =~= n.take(b + 22).subrange(j, j + 22));
        assert(n.subrange(j, j + 22) =~= n.take(b + 22).subrange(j, j + 22));
    }
    lemma_first_occurrence(out, BEGIN_MARKER@, b);
}

proof fn lemma_occurs_at_chars(h: Seq<char>, nd: Seq<char>, i: int)
    ensures
        occurs_at(h, nd, i) <==> (0 <= i && i + nd.len() <= h.len() && forall|t: int|
            0 <= t < nd.len() ==> #[trigger] h[i + t] == nd[t]),
{
    if 0 <= i && i + nd.len() <= h.len() {
        if forall|t: int| 0 <= t < nd.len() ==> #[trigger] h[i + t] == nd[t] {
            assert forall|k: int| 0 <= k < nd.len() implies h.subrange(i, i + nd.len())[k] == nd[k] by {
                assert(h[i + k] == nd[k]);
            }
            assert(h.subrange(i, i + nd.len()) =~= nd);
        }
        if occurs_at(h, nd, i) {
            assert forall|t: int| 0 <= t < nd.len() implies #[trigger] h[i + t] == nd[t] by {
                assert(h.subrange(i, i + nd.len())[t] == h[i + t]);
            }
        }
    }
}

proof fn lemma_out_chars(n: Seq<char>, g: Seq<char>, b: int, e: int)
    requires
        0 <= b,
        b + 22 <= n.len(),
        0 <= e <= n.len(),
    ensures
        ({
            let out = n.take(b + 22) + (seq!['\n'] + g) + n.skip(e);
            &&& out.len() == b + 23 + g.len() + (n.len() - e)
            &&& forall|i: int| 0 <= i < b + 22 ==> #[trigger] out[i] == n[i]
            &&& out[b + 22] == '\n'
            &&& forall|k: int| 0 <= k < g.len() ==> #[trigger] out[b + 23 + k] == g[k]
            &&& forall|k: int| 0 <= k < n.len() - e ==> #[trigger] out[b + 23 + g.len() + k] == n[e + k]
        }),
{
}

#[verifier::spinoff_prover]
proof fn lemma_end_first(n: Seq<char>, generated: Seq<char>, b: int, e: int)
    requires
        0 <= b,
        b + 22 <= n.len(),
        b + 3 <= e,
        occurs_at(n, BEGIN_MARKER@, b),
        occurs_at(n, END_MARKER@, e),
        forall|j: int| 0 <= j < e ==> !occurs_at(n, END_MARKER@, j),
        !contains_sub(generated, END_MARKER@),
    ensures
        first_occurrence(n.take(b + 22) + (seq!['\n'] + generated) + n.skip(e), END_MARKER@) == Some(
            b + 23 + generated.len(),
        ),
{
    lemma_marker_chars();
    let em = END_MARKER@;
    let bm = BEGIN_MARKER@;
    let out = n.take(b + 22) + (seq!['\n'] + generated) + n.skip(e);
    let q = b + 23 + generated.len();
    lemma_out_chars(n, generated, b, e);
    lemma_occurs_at_chars(n, em, e);
    lemma_occurs_at_chars(n, bm, b);
    lemma_occurs_at_chars(out, em, q);
    assert forall|t: int| 0 <= t < 20 implies #[trigger] out[q + t] == em[t] by {
        assert(out[b + 23 + generated.len() + t] == n[e + t]);
    }
    assert(occurs_at(out, em, q));
    assert forall|j: int| 0 <= j < q implies !occurs_at(out, em, j) by {
        lemma_occurs_at_chars(out, em, j);
        if occurs_at(out, em, j) {
            assert(out[j + 0] == em[0]);
            if j + 20 <= b + 22 {
                lemma_occurs_at_chars(n, em, j);
                assert forall|t: int| 0 <= t < 20 implies #[trigger] n[j + t] == em[t] by {
                    assert(out[j + t] == em[t]);
                    assert(out[j + t] == n[j + t]);
                }
            } else if j < b + 22 {
                assert(out[j] == n[j]);
                assert(n[b + (j - b)] == bm[j - b]);
            } else if j == b + 22 {
            } else if j + 20 <= q {
                let k = j - b - 23;
                lemma_occurs_at_chars(generated, em, k);
                assert forall|t: int| 0 <= t < 20 implies #[trigger] generated[k + t] == em[t] by {
                    assert(out[j + t] == em[t]);
                    assert(out[b + 23 + (k + t)] == generated[k + t]);
                }
            } else {
                let l = q - j;
                assert(out[j + l] == em[l]);
                assert(out[b + 23 + generated.len() + 0] == n[e + 0]);
                assert(n[e + 0] == em[0]);
            }
        }
    }
    lemma_first_occurrence(out, em, q);
}

proof fn lemma_begin_len()
    ensures
        BEGIN_MARKER@.len() == 22,
{
    reveal_strlit("<!-- BEGIN autogen -->");
}

proof fn lemma_newline()
    ensures
        "\n"@ == seq!['\n'],
{
    reveal_strlit("\n");
    assert("\n"@ =~= seq!['\n']);
}

proof fn lemma_splice_unfold(markdown: Seq<char>, g: Seq<char>, b: int, e: int)
    requires
        crlf_chars_to_lf(markdown) == markdown,
        first_occurrence(markdown, BEGIN_MARKER@) == Some(b),
        first_occurrence(markdown, END_MARKER@) == Some(e),
        b <= e,
    ensures
        splice_spec(markdown, g) == Ok::<Seq<char>, Seq<char>>(
            markdown.take(b + BEGIN_MARKER@.len()) + "\n"@ + g + markdown.skip(e),
        ),
{
}

proof fn lemma_splice_shape(markdown: Seq<char>, g: Seq<char>, b: int, e: int)
    requires
        crlf_chars_to_lf(markdown) == markdown,
        first_occurrence(markdown, BEGIN_MARKER@) == Some(b),
        first_occurrence(markdown, END_MARKER@) == Some(e),
        b <= e,
    ensures
        splice_spec(markdown, g) == Ok::<Seq<char>, Seq<char>>(
            markdown.take(b + 22) + (seq!['\n'] + g) + markdown.skip(e),
        ),
{
    lemma_splice_unfold(markdown, g, b, e);
    lemma_begin_len();
    lemma_newline();
    let p = markdown.take(b + 22);
    let t = markdown.skip(e);
    assert(markdown.take(b + BEGIN_MARKER@.len()) == p);
    assert(p + "\n"@ == p + seq!['\n']);
    lemma_concat_assoc(p, seq!['\n'], g, t);
}

proof fn lemma_concat_assoc(p: Seq<char>, m: Seq<char>, g: Seq<char>, t: Seq<char>)
    ensures
        p + m + g + t == p + (m + g) + t,
{
    assert(p + m + g =~= p + (m + g));
}

proof fn lemma_least_occurrence(h: Seq<char>, nd: Seq<char>, k: int)
    requires
        occurs_at(h, nd, k),
    ensures
        exists|i: int| occurs_at(h, nd, i) && forall|j: int| 0 <= j < i ==> !occurs_at(h, nd, j),
    decreases k,
{
    if exists|j: int| 0 <= j < k && occurs_at(h, nd, j) {
        let j = choose|j: int| 0 <= j < k && occurs_at(h, nd, j);
        lemma_least_occurrence(h, nd, j);
    } else {
        assert(occurs_at(h, nd, k) && forall|j: int| 0 <= j < k ==> !occurs_at(h, nd, j));
    }
}

proof fn lemma_first_occurrence_facts(h: Seq<char>, nd: Seq<char>)
    requires
        first_occurrence(h, nd) is Some,
    ensures
        occurs_at(h, nd, first_occurrence(h, nd)->Some_0),
        forall|j: int| 0 <= j < first_occurrence(h, nd)->Some_0 ==> !occurs_at(h, nd, j),
{
    let k = choose|k: int| occurs_at(h, nd, k);
    lemma_least_occurrence(h, nd, k);
}

proof fn lemma_split_back(p: Seq<char>, m: Seq<char>, t: Seq<char>)
    ensures
        (p + m + t).take(p.len() as int) == p,
        (p + m + t).skip((p.len() + m.len()) as int) == t,
{
    assert((p + m + t).take(p.len() as int) =~= p);
    assert((p + m + t).skip((p.len() + m.len()) as int) =~= t);
}

#[verifier::spinoff_prover]
#[verifier::rlimit(40)]
proof fn lemma_second_pass(n: Seq<char>, generated: Seq<char>, b: int, e: int)
    requires
        !n.contains('\r'),
        !generated.contains('\r'),
        !contains_sub(generated, END_MARKER@),
        0 <= b <= e,
        occurs_at(n, BEGIN_MARKER@, b),
        forall|j: int| 0 <= j < b ==> !occurs_at(n, BEGIN_MARKER@, j),
        occurs_at(n, END_MARKER@, e),
        forall|j: int| 0 <= j < e ==> !occurs_at(n, END_MARKER@, j),
    ensures
        ({
            let out = n.take(b + 22) + (seq!['\n'] + generated) + n.skip(e);
            splice_spec(out, generated) == Ok::<Seq<char>, Seq<char>>(out)
        }),
{
    lemma_begin_len();
    let p = n.take(b + 22);
    let m = seq!['\n'] + generated;
    let t = n.skip(e);
    let out = p + m + t;
    lemma_concat_no_cr(n, generated, b, e);
    lemma_no_cr_normalized(out);
    lemma_end_after_begin(n, b, e);
    lemma_split_back(p, m, t);
    lemma_begin_still_first(n, out, b);
    lemma_end_first(n, generated, b, e);
    let q = b + 23 + generated.len();
    lemma_splice_shape(out, generated, b, q);
}

/// Splicing the same generated text a second time changes nothing: the
/// markers of a spliced document are found where the first splice left
/// them. This holds when the document, once its CR LF pairs became LF, and
/// the generated text hold no carriage return, and the generated text
/// holds no end marker.
pub proof fn lemma_splice_idempotent(markdown: Seq<char>, generated: Seq<char>)
    requires
        !crlf_chars_to_lf(markdown).contains('\r'),
        !generated.contains('\r'),
        !contains_sub(generated, END_MARKER@),
        splice_spec(markdown, generated) is Ok,
    ensures
        splice_spec(splice_spec(markdown, generated)->Ok_0, generated) == splice_spec(markdown, generated),
{
    let n = crlf_chars_to_lf(markdown);
    lemma_no_cr_normalized(n);
    assert(splice_spec(n, generated) == splice_spec(markdown, generated));
    lemma_first_occurrence_facts(n, BEGIN_MARKER@);
    lemma_first_occurrence_facts(n, END_MARKER@);
    let b = first_occurrence(n, BEGIN_MARKER@)->Some_0;
    let e = first_occurrence(n, END_MARKER@)->Some_0;
    lemma_splice_shape(n, generated, b, e);
    lemma_second_pass(n, generated, b, e);
}

} // verus!
