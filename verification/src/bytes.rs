//! Normalisations applied to program output before comparing it with an
//! expected output.

use vstd::prelude::*;

verus! {

/// `s` with every CR LF pair replaced by a single LF.
pub open spec fn crlf_to_lf(s: Seq<u8>) -> Seq<u8>
    decreases s.len(),
{
    if s.len() == 0 {
        Seq::empty()
    } else if s.len() >= 2 && s[0] == 13u8 && s[1] == 10u8 {
        seq![10u8] + crlf_to_lf(s.skip(2))
    } else {
        seq![s[0]] + crlf_to_lf(s.skip(1))
    }
}

/// Normalize text-mode output: every CR LF pair becomes LF, so a comparison
/// does not depend on the line endings of a checkout.
pub fn normalize_newlines(bytes: &[u8]) -> (out: Vec<u8>)
    ensures
        out@ == crlf_to_lf(bytes@),
{
    let mut out: Vec<u8> = Vec::new();
    let mut i: usize = 0;
    assert(bytes@.skip(0) == bytes@);
    while i < bytes.len()
        invariant
            i <= bytes@.len(),
            out@ + crlf_to_lf(bytes@.skip(i as int)) == crlf_to_lf(bytes@),
        decreases bytes@.len() - i,
    {
        let ghost rest = bytes@.skip(i as int);
        if bytes[i] == 13u8 && i + 1 < bytes.len() && bytes[i + 1] == 10u8 {
            assert(rest.skip(2) == bytes@.skip(i + 2));
            out.push(10u8);
            i = i + 2;
        } else {
            assert(rest.skip(1) == bytes@.skip(i + 1));
            out.push(bytes[i]);
            i = i + 1;
        }
    }
    assert(bytes@.skip(i as int) == Seq::<u8>::empty());
    assert(out@ + Seq::<u8>::empty() == out@);
    out
}

/// `s` with every CR LF pair of characters replaced by a single LF.
pub open spec fn crlf_chars_to_lf(s: Seq<char>) -> Seq<char>
    decreases s.len(),
{
    if s.len() == 0 {
        Seq::empty()
    } else if s.len() >= 2 && s[0] == '\r' && s[1] == '\n' {
        seq!['\n'] + crlf_chars_to_lf(s.skip(2))
    } else {
        seq![s[0]] + crlf_chars_to_lf(s.skip(1))
    }
}

/// Replace every CR LF pair of characters by a single LF.
pub fn normalize_char_newlines(s: &[char]) -> (out: Vec<char>)
    ensures
        out@ == crlf_chars_to_lf(s@),
{
    let mut out: Vec<char> = Vec::new();
    let mut i: usize = 0;
    assert(s@.skip(0) == s@);
    while i < s.len()
        invariant
            i <= s@.len(),
            out@ + crlf_chars_to_lf(s@.skip(i as int)) == crlf_chars_to_lf(s@),
        decreases s@.len() - i,
    {
        let ghost rest = s@.skip(i as int);
        if s[i] == '\r' && i + 1 < s.len() && s[i + 1] == '\n' {
            assert(rest.skip(2) == s@.skip(i + 2));
            out.push('\n');
            i = i + 2;
        } else {
            assert(rest.skip(1) == s@.skip(i + 1));
            out.push(s[i]);
            i = i + 1;
        }
    }
    assert(s@.skip(i as int) == Seq::<char>::empty());
    assert(out@ + Seq::<char>::empty() == out@);
    out
}

/// Text of `bytes`, decoded lossily, with CR LF turned into LF, encoded as
/// UTF-8 again.
pub open spec fn lf_text(bytes: Seq<u8>) -> Seq<u8> {
    vstd::utf8::encode_utf8(crlf_chars_to_lf(crate::text::utf8_lossy(bytes)))
}

/// The text of `bytes` with LF line endings, as UTF-8.
pub fn lf_text_copy(bytes: &[u8]) -> (out: Vec<u8>)
    ensures
        out@ == lf_text(bytes@),
{
    let chars = crate::text::lossy_chars(bytes);
    let normalized = normalize_char_newlines(chars.as_slice());
    let s = crate::text::string_of(normalized.as_slice());
    let b = s.as_str().as_bytes();
    let mut out: Vec<u8> = Vec::new();
    for i in 0..b.len()
        invariant
            out@ == b@.take(i as int),
    {
        out.push(b[i]);
        assert(b@.take(i + 1) == b@.take(i as int).push(b@[i as int]));
    }
    assert(b@.take(b.len() as int) == b@);
    out
}

/// `s` without its trailing space characters.
pub open spec fn trim_trailing_spaces(s: Seq<u8>) -> Seq<u8>
    decreases s.len(),
{
    if s.len() > 0 && s.last() == 32u8 {
        trim_trailing_spaces(s.drop_last())
    } else {
        s
    }
}

/// Whether `k` is the position of the first LF of `s`, or its length when
/// it has none.
pub open spec fn is_line_end(s: Seq<u8>, k: int) -> bool {
    &&& 0 <= k <= s.len()
    &&& (k == s.len() || s[k] == 10u8)
    &&& forall|j: int| 0 <= j < k ==> s[j] != 10u8
}

/// Position of the first LF of `s`, or its length when it has none.
pub open spec fn line_end(s: Seq<u8>) -> int {
    choose|k: int| is_line_end(s, k)
}

/// There is exactly one line end.
pub proof fn lemma_line_end(s: Seq<u8>, k: int)
    requires
        is_line_end(s, k),
    ensures
        line_end(s) == k,
{
    let c = line_end(s);
    assert(is_line_end(s, c));
    if c < k {
        assert(s[c] == 10u8);
    } else if k < c {
        assert(s[k] == 10u8);
    }
}

/// `s` with the trailing spaces of every line removed; line feeds stay.
pub open spec fn trim_line_ends(s: Seq<u8>) -> Seq<u8>
    decreases s.len(),
{
    let k = line_end(s);
    if s.len() == 0 {
        Seq::empty()
    } else if 0 <= k < s.len() {
        trim_trailing_spaces(s.take(k)) + seq![10u8] + trim_line_ends(s.skip(k + 1))
    } else {
        trim_trailing_spaces(s)
    }
}

/// Length of `s` once its trailing spaces are removed.
fn trimmed_len(s: &[u8], start: usize, end: usize) -> (n: usize)
    requires
        start <= end <= s@.len(),
    ensures
        start <= n <= end,
        s@.subrange(start as int, n as int) == trim_trailing_spaces(
            s@.subrange(start as int, end as int),
        ),
{
    let mut n = end;
    while n > start && s[n - 1] == 32u8
        invariant
            start <= n <= end <= s@.len(),
            trim_trailing_spaces(s@.subrange(start as int, n as int)) == trim_trailing_spaces(
                s@.subrange(start as int, end as int),
            ),
        decreases n,
    {
        assert(s@.subrange(start as int, n as int).drop_last() == s@.subrange(
            start as int,
            n - 1,
        ));
        n = n - 1;
    }
    n
}

/// Remove the trailing spaces of every line of `bytes`.
pub fn trim_trailing_spaces_per_line(bytes: &[u8]) -> (out: Vec<u8>)
    ensures
        out@ == trim_line_ends(bytes@),
{
    let mut out: Vec<u8> = Vec::new();
    let mut i: usize = 0;
    let len = bytes.len();
    assert(bytes@.skip(0) == bytes@);
    while i < len
        invariant
            len == bytes@.len(),
            i <= len,
            out@ + trim_line_ends(bytes@.skip(i as int)) == trim_line_ends(bytes@),
        decreases len - i,
    {
        let ghost rest = bytes@.skip(i as int);
        let mut j = i;
        while j < len && bytes[j] != 10u8
            invariant
                i <= j <= len,
                len == bytes@.len(),
                forall|t: int| i <= t < j ==> bytes@[t] != 10u8,
            decreases len - j,
        {
            j = j + 1;
        }
        let n = trimmed_len(bytes, i, j);
        proof {
            assert(is_line_end(rest, j - i));
            lemma_line_end(rest, j - i);
            assert(rest.take(j - i) == bytes@.subrange(i as int, j as int));
        }
        let ghost before = out@;
        for t in i..n
            invariant
                i <= n <= len,
                len == bytes@.len(),
                out@ == before + bytes@.subrange(i as int, t as int),
        {
            out.push(bytes[t]);
            assert(bytes@.subrange(i as int, t + 1) == bytes@.subrange(i as int, t as int).push(
                bytes@[t as int],
            ));
        }
        if j < len {
            out.push(10u8);
            assert(rest.skip(j - i + 1) == bytes@.skip(j + 1));
            i = j + 1;
        } else {
            assert(rest == bytes@.subrange(i as int, j as int));
            assert(bytes@.skip(len as int) == Seq::<u8>::empty());
            i = len;
        }
    }
    assert(bytes@.skip(i as int) == Seq::<u8>::empty());
    assert(out@ + Seq::<u8>::empty() == out@);
    out
}

/// `s` without one final LF, if it ends with one.
pub open spec fn strip_final_newline(s: Seq<u8>) -> Seq<u8> {
    if s.len() > 0 && s.last() == 10u8 {
        s.drop_last()
    } else {
        s
    }
}

/// Removes one final LF, if present.
pub fn strip_one_final_newline(bytes: Vec<u8>) -> (out: Vec<u8>)
    ensures
        out@ == strip_final_newline(bytes@),
{
    let mut bytes = bytes;
    if bytes.len() > 0 && bytes[bytes.len() - 1] == 10u8 {
        bytes.pop();
    }
    bytes
}

} // verus!
