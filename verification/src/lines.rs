//! Lines, whitespace trimming and substring search over text.

use vstd::prelude::*;

verus! {

/// Whether `c` has the Unicode `White_Space` property.
pub open spec fn is_white_space(c: char) -> bool {
    let u = c as u32;
    (9 <= u <= 13) || u == 32 || u == 0x85 || u == 0xA0 || u == 0x1680 || (0x2000 <= u <= 0x200A)
        || u == 0x2028 || u == 0x2029 || u == 0x202F || u == 0x205F || u == 0x3000
}

/// Whether `c` has the Unicode `White_Space` property.
pub fn white_space(c: char) -> (r: bool)
    ensures
        r == is_white_space(c),
{
    let u = c as u32;
    (9 <= u && u <= 13) || u == 32 || u == 0x85 || u == 0xA0 || u == 0x1680 || (0x2000 <= u && u
        <= 0x200A) || u == 0x2028 || u == 0x2029 || u == 0x202F || u == 0x205F || u == 0x3000
}

/// Number of leading white-space characters of `s`.
pub open spec fn leading_ws(s: Seq<char>) -> nat
    decreases s.len(),
{
    if s.len() > 0 && is_white_space(s[0]) {
        1 + leading_ws(s.skip(1))
    } else {
        0
    }
}

/// Number of trailing white-space characters of `s`.
pub open spec fn trailing_ws(s: Seq<char>) -> nat
    decreases s.len(),
{
    if s.len() > 0 && is_white_space(s.last()) {
        1 + trailing_ws(s.drop_last())
    } else {
        0
    }
}

proof fn lemma_leading_ws_bound(s: Seq<char>)
    ensures
        leading_ws(s) <= s.len(),
    decreases s.len(),
{
    if s.len() > 0 && is_white_space(s[0]) {
        lemma_leading_ws_bound(s.skip(1));
    }
}

proof fn lemma_trailing_ws_bound(s: Seq<char>)
    ensures
        trailing_ws(s) <= s.len(),
    decreases s.len(),
{
    if s.len() > 0 && is_white_space(s.last()) {
        lemma_trailing_ws_bound(s.drop_last());
    }
}

/// `s` without leading and trailing white space, as `str::trim` gives.
pub open spec fn trim(s: Seq<char>) -> Seq<char> {
    let t = s.skip(leading_ws(s) as int);
    t.take(t.len() - trailing_ws(t))
}

/// Removes leading and trailing white space.
pub fn trim_chars(s: &[char]) -> (r: Vec<char>)
    ensures
        r@ == trim(s@),
{
    let mut a: usize = 0;
    assert(s@.skip(0) == s@);
    while a < s.len() && white_space(s[a])
        invariant
            a <= s@.len(),
            leading_ws(s@) == a + leading_ws(s@.skip(a as int)),
        decreases s@.len() - a,
    {
        assert(s@.skip(a as int).skip(1) == s@.skip(a + 1));
        a = a + 1;
    }
    assert(s@.skip(0) == s@);
    let ghost t = s@.skip(a as int);
    proof {
        lemma_trailing_ws_bound(t);
    }
    let mut b: usize = s.len();
    while b > a && white_space(s[b - 1])
        invariant
            a <= b <= s@.len(),
            t == s@.skip(a as int),
            trailing_ws(t) == (s@.len() - b) + trailing_ws(s@.subrange(a as int, b as int)),
        decreases b,
    {
        assert(s@.subrange(a as int, b as int).drop_last() == s@.subrange(a as int, b - 1));
        b = b - 1;
    }
    assert(t == s@.subrange(a as int, s@.len() as int));
    let mut r: Vec<char> = Vec::new();
    for k in a..b
        invariant
            a <= b <= s@.len(),
            r@ == s@.subrange(a as int, k as int),
    {
        r.push(s[k]);
        assert(s@.subrange(a as int, k + 1) == s@.subrange(a as int, k as int).push(s@[k as int]));
    }
    assert(r@ =~= t.take(t.len() - trailing_ws(t)));
    r
}

/// Whether `k` is the position of the first LF of `s`, or its length when
/// it has none.
pub open spec fn is_lf_pos(s: Seq<char>, k: int) -> bool {
    &&& 0 <= k <= s.len()
    &&& (k == s.len() || s[k] == '\n')
    &&& forall|j: int| 0 <= j < k ==> s[j] != '\n'
}

/// Position of the first LF of `s`, or its length when it has none.
pub open spec fn lf_pos(s: Seq<char>) -> int {
    choose|k: int| is_lf_pos(s, k)
}

/// There is exactly one such position.
pub proof fn lemma_lf_pos(s: Seq<char>, k: int)
    requires
        is_lf_pos(s, k),
    ensures
        lf_pos(s) == k,
{
    let c = lf_pos(s);
    assert(is_lf_pos(s, c));
    if c < k {
        assert(s[c] == '\n');
    } else if k < c {
        assert(s[k] == '\n');
    }
}

/// A line without its LF, and without the CR of a CR LF ending.
pub open spec fn line_body(s: Seq<char>, ended: bool) -> Seq<char> {
    if ended && s.len() > 0 && s.last() == '\r' {
        s.drop_last()
    } else {
        s
    }
}

/// The lines of `s`, as `str::lines` gives them: split at LF, a CR just
/// before an LF dropped, no empty line after a final LF.
pub open spec fn lines_of(s: Seq<char>) -> Seq<Seq<char>>
    decreases s.len(),
{
    let k = lf_pos(s);
    if s.len() == 0 {
        Seq::empty()
    } else if 0 <= k < s.len() {
        seq![line_body(s.take(k), true)] + lines_of(s.skip(k + 1))
    } else {
        seq![s]
    }
}

/// The lines of `s`, as `str::lines` gives them.
pub fn lines(s: &[char]) -> (r: Vec<Vec<char>>)
    ensures
        r@.map_values(|l: Vec<char>| l@) == lines_of(s@),
{
    let mut r: Vec<Vec<char>> = Vec::new();
    let mut i: usize = 0;
    let len = s.len();
    assert(s@.skip(0) == s@);
    assert(r@.map_values(|l: Vec<char>| l@) == Seq::<Seq<char>>::empty());
    while i < len
        invariant
            len == s@.len(),
            i <= len,
            r@.map_values(|l: Vec<char>| l@) + lines_of(s@.skip(i as int)) == lines_of(s@),
        decreases len - i,
    {
        let ghost rest = s@.skip(i as int);
        let mut j = i;
        while j < len && s[j] != '\n'
            invariant
                i <= j <= len,
                len == s@.len(),
                forall|t: int| i <= t < j ==> s@[t] != '\n',
            decreases len - j,
        {
            j = j + 1;
        }
        proof {
            assert(is_lf_pos(rest, j - i));
            lemma_lf_pos(rest, j - i);
            assert(rest.take(j - i) == s@.subrange(i as int, j as int));
        }
        let ended = j < len;
        let end = if ended && j > i && s[j - 1] == '\r' {
            j - 1
        } else {
            j
        };
        let mut line: Vec<char> = Vec::new();
        for t in i..end
            invariant
                i <= end <= len,
                len == s@.len(),
                line@ == s@.subrange(i as int, t as int),
        {
            line.push(s[t]);
            assert(s@.subrange(i as int, t + 1) == s@.subrange(i as int, t as int).push(s@[t as int]));
        }
        let ghost before = r@.map_values(|l: Vec<char>| l@);
        proof {
            if ended {
                assert(line@ == line_body(s@.subrange(i as int, j as int), true));
            } else {
                assert(line@ == rest);
            }
        }
        r.push(line);
        assert(r@.map_values(|l: Vec<char>| l@) == before.push(line@));
        if ended {
            assert(rest.skip(j - i + 1) == s@.skip(j + 1));
            i = j + 1;
        } else {
            assert(s@.skip(len as int) == Seq::<char>::empty());
            i = len;
        }
    }
    assert(s@.skip(i as int) == Seq::<char>::empty());
    r
}

/// Whether `needle` occurs in `hay` at position `i`.
pub open spec fn occurs_at(hay: Seq<char>, needle: Seq<char>, i: int) -> bool {
    0 <= i && i + needle.len() <= hay.len() && hay.subrange(i, i + needle.len()) == needle
}

/// Whether `needle` occurs in `hay`.
pub open spec fn contains_sub(hay: Seq<char>, needle: Seq<char>) -> bool {
    exists|i: int| occurs_at(hay, needle, i)
}

/// Whether `needle` occurs in `hay` at position `i`.
pub fn matches_at(hay: &[char], needle: &[char], i: usize) -> (r: bool)
    ensures
        r == occurs_at(hay@, needle@, i as int),
{
    if i > hay.len() || needle.len() > hay.len() - i {
        return false;
    }
    let n = needle.len();
    let end = i + n;
    for k in 0..n
        invariant
            n == needle@.len(),
            end == i + n,
            end <= hay@.len(),
            forall|t: int| 0 <= t < k ==> hay@[i + t] == needle@[t],
    {
        let p = i + k;
        if hay[p] != needle[k] {
            assert(hay@.subrange(i as int, i + needle@.len())[k as int] != needle@[k as int]);
            return false;
        }
    }
    assert(hay@.subrange(i as int, i + needle@.len()) =~= needle@);
    true
}

/// First position of `needle` in `hay`, if it occurs.
pub fn find_sub(hay: &[char], needle: &[char]) -> (r: Option<usize>)
    ensures
        match r {
            Some(i) => occurs_at(hay@, needle@, i as int) && forall|j: int|
                0 <= j < i ==> !occurs_at(hay@, needle@, j),
            None => !contains_sub(hay@, needle@),
        },
{
    let mut i: usize = 0;
    loop
        invariant
            i <= hay@.len(),
            forall|j: int| 0 <= j < i ==> !occurs_at(hay@, needle@, j),
        ensures
            i == hay@.len(),
            forall|j: int| 0 <= j <= i ==> !occurs_at(hay@, needle@, j),
        decreases hay@.len() - i,
    {
        if matches_at(hay, needle, i) {
            return Some(i);
        }
        if i == hay.len() {
            break;
        }
        i = i + 1;
    }
    proof {
        assert forall|j: int| !occurs_at(hay@, needle@, j) by {
            if j > i {
                assert(j + needle@.len() > hay@.len());
            }
        }
    }
    None
}

/// Whether `needle` occurs in `hay`.
pub fn has_sub(hay: &[char], needle: &[char]) -> (r: bool)
    ensures
        r == contains_sub(hay@, needle@),
{
    find_sub(hay, needle).is_some()
}

} // verus!
