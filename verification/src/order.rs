//! Ordering of test cases by id.
//!
//! Strings compare by their UTF-8 bytes, which orders them as their
//! sequences of code points compare lexicographically.

use vstd::prelude::*;

use crate::report::TestCase;
use vstd::multiset::Multiset;

verus! {

broadcast use vstd::seq_lib::group_seq_properties;

/// `a` comes strictly before `b` in lexicographic code-point order.
pub open spec fn lex_lt(a: Seq<char>, b: Seq<char>) -> bool
    decreases a.len(),
{
    if a.len() == 0 {
        b.len() > 0
    } else if b.len() == 0 {
        false
    } else if a[0] != b[0] {
        (a[0] as u32) < (b[0] as u32)
    } else {
        lex_lt(a.skip(1), b.skip(1))
    }
}

/// The lexicographic order is transitive.
pub proof fn lemma_lex_lt_transitive(a: Seq<char>, b: Seq<char>, c: Seq<char>)
    requires
        lex_lt(a, b),
        lex_lt(b, c),
    ensures
        lex_lt(a, c),
    decreases a.len(),
{
    if a.len() > 0 && b.len() > 0 && c.len() > 0 {
        if a[0] == b[0] && b[0] == c[0] {
            lemma_lex_lt_transitive(a.skip(1), b.skip(1), c.skip(1));
        }
    }
}

/// The lexicographic order is irreflexive.
pub proof fn lemma_lex_lt_irreflexive(a: Seq<char>)
    ensures
        !lex_lt(a, a),
    decreases a.len(),
{
    if a.len() > 0 {
        lemma_lex_lt_irreflexive(a.skip(1));
    }
}

/// Of two different sequences, one comes before the other.
pub proof fn lemma_lex_lt_total(a: Seq<char>, b: Seq<char>)
    ensures
        a == b || lex_lt(a, b) || lex_lt(b, a),
    decreases a.len(),
{
    if a.len() > 0 && b.len() > 0 {
        if a[0] == b[0] {
            lemma_lex_lt_total(a.skip(1), b.skip(1));
            if a.skip(1) == b.skip(1) {
                assert(a.skip(1).len() == a.len() - 1);
                assert(b.skip(1).len() == b.len() - 1);
                assert(a =~= b) by {
                    assert forall|i: int| 0 <= i < a.len() implies a[i] == b[i] by {
                        if i > 0 {
                            assert(a[i] == a.skip(1)[i - 1]);
                            assert(b[i] == b.skip(1)[i - 1]);
                        }
                    }
                }
            }
        } else {
            let x = a[0];
            let y = b[0];
            vstd::utf8::char_u32_cast(x, x as u32);
            vstd::utf8::char_u32_cast(y, y as u32);
        }
    } else if a.len() == 0 && b.len() == 0 {
        assert(a =~= b);
    }
}

/// Whether `a` comes strictly before `b`.
pub fn chars_lt(a: &[char], b: &[char]) -> (r: bool)
    ensures
        r == lex_lt(a@, b@),
{
    let mut i: usize = 0;
    while i < a.len() && i < b.len() && a[i] == b[i]
        invariant
            i <= a@.len(),
            i <= b@.len(),
            lex_lt(a@, b@) == lex_lt(a@.skip(i as int), b@.skip(i as int)),
        decreases a@.len() - i,
    {
        assert(a@.skip(i as int).skip(1) == a@.skip(i + 1));
        assert(b@.skip(i as int).skip(1) == b@.skip(i + 1));
        i = i + 1;
    }
    assert(a@.skip(0) == a@);
    if i == a.len() {
        i < b.len()
    } else if i == b.len() {
        false
    } else {
        (a[i] as u32) < (b[i] as u32)
    }
}

/// The ids of `s` never decrease.
pub open spec fn sorted_by_id(s: Seq<TestCase>) -> bool {
    forall|i: int, j: int| 0 <= i < j < s.len() ==> !lex_lt(s[j].id@, s[i].id@)
}

/// The `(id, path)` views of a sequence of test cases.
pub open spec fn case_views(s: Seq<TestCase>) -> Seq<(Seq<char>, Seq<char>)> {
    s.map_values(|c: TestCase| c@)
}

/// Sort test cases by id; cases with equal ids keep their order.
pub fn sort_cases(cases: Vec<TestCase>) -> (out: Vec<TestCase>)
    ensures
        sorted_by_id(out@),
        case_views(out@).to_multiset() == case_views(cases@).to_multiset(),
{
    let mut out: Vec<TestCase> = Vec::new();
    let mut rest = cases;
    let ghost all = case_views(rest@);
    assert(case_views(out@) == Seq::<(Seq<char>, Seq<char>)>::empty());
    while rest.len() > 0
        invariant
            sorted_by_id(out@),
            case_views(out@).to_multiset().add(case_views(rest@).to_multiset()) == all.to_multiset(),
        decreases rest@.len(),
    {
        let ghost before_rest = case_views(rest@);
        let c = rest.remove(0);
        proof {
            assert(before_rest == seq![c@] + case_views(rest@));
            vstd::seq_lib::lemma_multiset_commutative(seq![c@], case_views(rest@));
            assert(seq![c@].to_multiset() == Multiset::<(Seq<char>, Seq<char>)>::empty().insert(c@)) by {
                assert(seq![c@] == Seq::<(Seq<char>, Seq<char>)>::empty().push(c@));
            }
        }
        let key = crate::text::chars_of(c.id.as_str());
        let mut k: usize = 0;
        while k < out.len() && !chars_lt(key.as_slice(), crate::text::chars_of(out[k].id.as_str()).as_slice())
            invariant
                k <= out@.len(),
                key@ == c.id@,
                forall|i: int| 0 <= i < k ==> !lex_lt(c.id@, #[trigger] out@[i].id@),
            decreases out@.len() - k,
        {
            k = k + 1;
        }
        let ghost prev = out@;
        out.insert(k, c);
        proof {
            assert(case_views(out@) == case_views(prev).insert(k as int, c@));
            assert forall|i: int, j: int| 0 <= i < j < out@.len() implies !lex_lt(
                out@[j].id@,
                out@[i].id@,
            ) by {
                if i < k && j == k {
                } else if i == k && j > k {
                    let q = out@[j];
                    assert(q == prev[j - 1]);
                    assert(lex_lt(c.id@, prev[k as int].id@));
                    if lex_lt(q.id@, c.id@) {
                        lemma_lex_lt_transitive(q.id@, c.id@, prev[k as int].id@);
                        if j - 1 > k {
                            assert(!lex_lt(prev[j - 1].id@, prev[k as int].id@));
                        } else {
                            lemma_lex_lt_irreflexive(q.id@);
                        }
                    }
                } else if i < k && j < k {
                    assert(out@[i] == prev[i] && out@[j] == prev[j]);
                } else if i < k && j > k {
                    assert(out@[i] == prev[i] && out@[j] == prev[j - 1]);
                } else {
                    assert(out@[i] == prev[i - 1] && out@[j] == prev[j - 1]);
                }
            }
        }
    }
    out
}

} // verus!
