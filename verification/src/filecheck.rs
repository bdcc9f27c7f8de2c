//! A small FileCheck: ordered `CHECK` patterns that must occur in LLVM IR
//! text, each after the previous match, and `CHECK-NOT` patterns that must
//! not occur between two consecutive matches (or after the last one).
//!
//! Positions are counted in characters of the IR text.
use vstd::prelude::*;
use crate::lines::{matches_at, occurs_at};
use crate::text::{chars_of, decimal, decimal_u64, push_chars, push_str, string_of};

verus! {

/// One directive of a checked source.
#[derive(Clone, Debug, PartialEq, Eq)]
pub enum Directive {
    /// The pattern must occur after the previous match.
    Check(String),
    /// The pattern must not occur before the next match.
    CheckNot(String),
}

/// A directive as values.
pub enum DirectiveView {
    Check(Seq<char>),
    CheckNot(Seq<char>),
}

impl View for Directive {
    type V = DirectiveView;

    open spec fn view(&self) -> DirectiveView {
        match self {
            Directive::Check(p) => DirectiveView::Check(p@),
            Directive::CheckNot(p) => DirectiveView::CheckNot(p@),
        }
    }
}

/// `i` is the first position at or after `from` where `needle` occurs.
pub open spec fn first_match(hay: Seq<char>, needle: Seq<char>, from: int, i: int) -> bool {
    &&& from <= i
    &&& occurs_at(hay, needle, i)
    &&& forall|j: int| from <= j < i ==> !occurs_at(hay, needle, j)
}

/// First position at or after `from` where `needle` occurs, if any.
pub open spec fn first_match_from(hay: Seq<char>, needle: Seq<char>, from: int) -> Option<int> {
    if exists|i: int| first_match(hay, needle, from, i) {
        Some(choose|i: int| first_match(hay, needle, from, i))
    } else {
        None
    }
}

/// Whether `needle` occurs wholly inside positions `lo..hi` of `hay`.
pub open spec fn occurs_within(hay: Seq<char>, needle: Seq<char>, lo: int, hi: int) -> bool {
    exists|i: int| lo <= i && i + needle.len() <= hi && occurs_at(hay, needle, i)
}

/// The part of `text` around position `cursor` that an error quotes: from
/// 120 characters before it to 600 characters after it.
pub open spec fn excerpt_spec(text: Seq<char>, cursor: int) -> Seq<char> {
    let start = if cursor >= 120 { cursor - 120 } else { 0 };
    let end = if cursor + 600 <= text.len() { cursor + 600 } else { text.len() as int };
    "IR excerpt at byte "@ + decimal(cursor as nat) + ":\n"@ + text.subrange(start, end)
}

/// Error of a `CHECK` pattern that does not occur after `cursor`.
pub open spec fn not_found_message(idx: int, cursor: int, pattern: Seq<char>, ir: Seq<char>) -> Seq<char> {
    "CHECK #"@ + decimal(idx as nat) + " not found after byte "@ + decimal(cursor as nat) + ": `"@
        + pattern + "`\n"@ + excerpt_spec(ir, cursor)
}

/// Error of a `CHECK-NOT` pattern found in the segment `lo..hi`.
pub open spec fn not_matched_message(idx: int, pattern: Seq<char>, ir: Seq<char>, lo: int, hi: int) -> Seq<char> {
    "CHECK-NOT before directive #"@ + decimal(idx as nat) + " unexpectedly matched `"@ + pattern
        + "`\n"@ + excerpt_spec(ir.subrange(lo, hi), 0)
}

/// Checks patterns `k..` of `patterns` against the segment `lo..hi`; the
/// first that occurs there is reported.
pub open spec fn verify_not_spec(
    idx: int,
    ir: Seq<char>,
    lo: int,
    hi: int,
    patterns: Seq<Seq<char>>,
    k: int,
) -> Result<(), Seq<char>>
    decreases patterns.len() - k,
{
    if k < 0 || k >= patterns.len() {
        Ok(())
    } else if occurs_within(ir, patterns[k], lo, hi) {
        Err(not_matched_message(idx, patterns[k], ir, lo, hi))
    } else {
        verify_not_spec(idx, ir, lo, hi, patterns, k + 1)
    }
}

/// Checks directives `i..` from position `cursor`, with the `CHECK-NOT`
/// patterns `pending` waiting for the next match.
pub open spec fn check_spec(
    ir: Seq<char>,
    ds: Seq<DirectiveView>,
    i: int,
    cursor: int,
    pending: Seq<Seq<char>>,
) -> Result<(), Seq<char>>
    decreases ds.len() - i,
{
    if i < 0 || i >= ds.len() {
        verify_not_spec(ds.len() as int, ir, cursor, ir.len() as int, pending, 0)
    } else {
        match ds[i] {
            DirectiveView::CheckNot(p) => check_spec(ir, ds, i + 1, cursor, pending.push(p)),
            DirectiveView::Check(p) => match first_match_from(ir, p, cursor) {
                None => Err(not_found_message(i, cursor, p, ir)),
                Some(m) => match verify_not_spec(i, ir, cursor, m, pending, 0) {
                    Err(e) => Err(e),
                    Ok(()) => check_spec(ir, ds, i + 1, m + p.len(), Seq::empty()),
                },
            },
        }
    }
}

/// Views of a sequence of directives.
pub open spec fn directives_view(ds: Seq<Directive>) -> Seq<DirectiveView> {
    ds.map_values(|d: Directive| d@)
}

/// First position at or after `from` where `needle` occurs in `hay`.
fn find_from(hay: &[char], needle: &[char], from: usize) -> (r: Option<usize>)
    requires
        from <= hay@.len(),
    ensures
        match r {
            Some(i) => first_match(hay@, needle@, from as int, i as int),
            None => first_match_from(hay@, needle@, from as int) is None,
        },
{
    let mut i = from;
    loop
        invariant
            from <= i <= hay@.len(),
            forall|j: int| from <= j < i ==> !occurs_at(hay@, needle@, j),
        ensures
            i == hay@.len(),
            forall|j: int| from <= j <= i ==> !occurs_at(hay@, needle@, j),
        decreases hay@.len() - i,
    {
        if matches_at(hay, needle, i) {
            return Some(i);
        }
        if i == hay.len() {
            break;
        }
        i = i + 1;
    }
    proof {
        if exists|k: int| first_match(hay@, needle@, from as int, k) {
            let k = choose|k: int| first_match(hay@, needle@, from as int, k);
            assert(k <= i);
        }
    }
    None
}

/// Whether `needle` occurs wholly inside positions `lo..hi` of `hay`.
fn occurs_between(hay: &[char], needle: &[char], lo: usize, hi: usize) -> (r: bool)
    requires
        lo <= hi <= hay@.len(),
    ensures
        r == occurs_within(hay@, needle@, lo as int, hi as int),
{
    if needle.len() > hi - lo {
        return false;
    }
    let last = hi - needle.len();
    let mut i = lo;
    loop
        invariant
            lo <= i <= last,
            last + needle@.len() == hi,
            hi <= hay@.len(),
            forall|j: int| lo <= j < i ==> !occurs_at(hay@, needle@, j),
        decreases last - i,
    {
        if matches_at(hay, needle, i) {
            return true;
        }
        if i == last {
            return false;
        }
        i = i + 1;
    }
}

/// The excerpt of `text` around `cursor` that an error quotes.
fn excerpt(text: &[char], cursor: usize) -> (r: Vec<char>)
    requires
        cursor <= text@.len(),
    ensures
        r@ == excerpt_spec(text@, cursor as int),
{
    let start = if cursor >= 120 { cursor - 120 } else { 0 };
    let end = if text.len() - cursor >= 600 { cursor + 600 } else { text.len() };
    let mut out: Vec<char> = Vec::new();
    push_str(&mut out, "IR excerpt at byte ");
    let digits = decimal_u64(cursor as u64);
    push_chars(&mut out, digits.as_slice());
    push_str(&mut out, ":\n");
    let ghost head = out@;
    let mut k = start;
    while k < end
        invariant
            start <= k <= end,
            end <= text@.len(),
            out@ == head + text@.subrange(start as int, k as int),
        decreases end - k,
    {
        out.push(text[k]);
        assert(text@.subrange(start as int, k + 1) =~= text@.subrange(start as int, k as int).push(
            text@[k as int],
        ));
        k = k + 1;
    }
    out
}

/// The excerpt of the segment `lo..hi` of `text` at its start.
fn segment_excerpt(text: &[char], lo: usize, hi: usize) -> (r: Vec<char>)
    requires
        lo <= hi <= text@.len(),
    ensures
        r@ == excerpt_spec(text@.subrange(lo as int, hi as int), 0),
{
    let mut seg: Vec<char> = Vec::new();
    let mut k = lo;
    while k < hi
        invariant
            lo <= k <= hi,
            hi <= text@.len(),
            seg@ == text@.subrange(lo as int, k as int),
        decreases hi - k,
    {
        seg.push(text[k]);
        assert(text@.subrange(lo as int, k + 1) =~= text@.subrange(lo as int, k as int).push(
            text@[k as int],
        ));
        k = k + 1;
    }
    excerpt(seg.as_slice(), 0)
}

/// Checks the `CHECK-NOT` patterns against the segment `lo..hi` of `ir`.
fn verify_not_patterns(idx: usize, ir: &[char], lo: usize, hi: usize, patterns: &Vec<Vec<char>>) -> (r:
    Result<(), String>)
    requires
        lo <= hi <= ir@.len(),
    ensures
        match verify_not_spec(
            idx as int,
            ir@,
            lo as int,
            hi as int,
            patterns@.map_values(|p: Vec<char>| p@),
            0,
        ) {
            Ok(()) => r is Ok,
            Err(m) => r matches Err(e) && e@ == m,
        },
{
    let ghost pv = patterns@.map_values(|p: Vec<char>| p@);
    let mut k: usize = 0;
    while k < patterns.len()
        invariant
            k <= patterns@.len(),
            lo <= hi <= ir@.len(),
            pv == patterns@.map_values(|p: Vec<char>| p@),
            verify_not_spec(idx as int, ir@, lo as int, hi as int, pv, 0) == verify_not_spec(
                idx as int,
                ir@,
                lo as int,
                hi as int,
                pv,
                k as int,
            ),
        decreases patterns@.len() - k,
    {
        if occurs_between(ir, patterns[k].as_slice(), lo, hi) {
            let mut m: Vec<char> = Vec::new();
            push_str(&mut m, "CHECK-NOT before directive #");
            let digits = decimal_u64(idx as u64);
            push_chars(&mut m, digits.as_slice());
            push_str(&mut m, " unexpectedly matched `");
            push_chars(&mut m, patterns[k].as_slice());
            push_str(&mut m, "`\n");
            let ex = segment_excerpt(ir, lo, hi);
            push_chars(&mut m, ex.as_slice());
            return Err(string_of(m.as_slice()));
        }
        k = k + 1;
    }
    Ok(())
}

/// Checks `ir` against `directives`: every `CHECK` pattern must occur after
/// the previous match, and no `CHECK-NOT` pattern may occur between the
/// matches around it (or after the last match). The first violation is
/// reported, with an excerpt of the IR.
pub fn filecheck(ir: &str, directives: &[Directive]) -> (r: Result<(), String>)
    ensures
        match check_spec(ir@, directives_view(directives@), 0, 0, Seq::empty()) {
            Ok(()) => r is Ok,
            Err(m) => r matches Err(e) && e@ == m,
        },
{
    let irc = chars_of(ir);
    let ghost ds = directives_view(directives@);
    let mut cursor: usize = 0;
    let mut pending: Vec<Vec<char>> = Vec::new();
    assert(pending@.map_values(|q: Vec<char>| q@) =~= Seq::<Seq<char>>::empty());
    let mut idx: usize = 0;
    while idx < directives.len()
        invariant
            idx <= directives@.len(),
            cursor <= irc@.len(),
            irc@ == ir@,
            ds == directives_view(directives@),
            check_spec(ir@, ds, 0, 0, Seq::empty()) == check_spec(
                ir@,
                ds,
                idx as int,
                cursor as int,
                pending@.map_values(|p: Vec<char>| p@),
            ),
        decreases directives@.len() - idx,
    {
        match &directives[idx] {
            Directive::CheckNot(p) => {
                let ghost before = pending@.map_values(|q: Vec<char>| q@);
                pending.push(chars_of(p.as_str()));
                assert(pending@.map_values(|q: Vec<char>| q@) =~= before.push(p@));
            },
            Directive::Check(p) => {
                let pc = chars_of(p.as_str());
                match find_from(irc.as_slice(), pc.as_slice(), cursor) {
                    None => {
                        let mut m: Vec<char> = Vec::new();
                        push_str(&mut m, "CHECK #");
                        let d = decimal_u64(idx as u64);
                        push_chars(&mut m, d.as_slice());
                        push_str(&mut m, " not found after byte ");
                        let c = decimal_u64(cursor as u64);
                        push_chars(&mut m, c.as_slice());
                        push_str(&mut m, ": `");
                        push_chars(&mut m, pc.as_slice());
                        push_str(&mut m, "`\n");
                        let ex = excerpt(irc.as_slice(), cursor);
                        push_chars(&mut m, ex.as_slice());
                        return Err(string_of(m.as_slice()));
                    },
                    Some(at) => {
                        proof {
                            assert(first_match(irc@, pc@, cursor as int, at as int));
                            assert(first_match_from(irc@, pc@, cursor as int) == Some(at as int));
                        }
                        match verify_not_patterns(idx, irc.as_slice(), cursor, at, &pending) {
                            Err(e) => return Err(e),
                            Ok(()) => {},
                        }
                        assert(at + pc@.len() <= irc@.len());
                        assert(irc@.len() == irc.len());
                        assert(pc@.len() == pc.len());
                        pending = Vec::new();
                        assert(pending@.map_values(|q: Vec<char>| q@) =~= Seq::<Seq<char>>::empty());
                        cursor = at + pc.len();
                    },
                }
            },
        }
        idx = idx + 1;
    }
    verify_not_patterns(directives.len(), irc.as_slice(), cursor, irc.len(), &pending)
}

} // verus!
