//! Expected-failure lists (`xfail.toml`).
//!
//! Each suite may list test-case ids that are known to fail, with a reason:
//!
//! ```toml
//! [[xfail]]
//! id     = "c-testsuite::00055"
//! reason = "bit-fields not yet implemented (M4)"
//! ```

use vstd::prelude::*;

verus! {

/// Root object of `xfail.toml`.
#[derive(Clone, Debug)]
pub struct XFailFile {
    /// Expected-failure entries.
    pub xfail: Vec<XFailEntry>,
}

impl Default for XFailFile {
    fn default() -> (f: XFailFile)
        ensures
            f.xfail@.len() == 0,
    {
        XFailFile { xfail: Vec::new() }
    }
}

/// One expected-failure entry.
#[derive(Clone, Debug)]
pub struct XFailEntry {
    /// Test-case id (matches `TestCase::id`).
    pub id: String,
    /// Human-readable reason.
    pub reason: String,
}

impl View for XFailEntry {
    type V = (Seq<char>, Seq<char>);

    open spec fn view(&self) -> (Seq<char>, Seq<char>) {
        (self.id@, self.reason@)
    }
}

/// Reason of the last entry of `xs` listing `id`, if any: a later entry for
/// the same id overrides an earlier one.
pub open spec fn xfail_reason(xs: Seq<(Seq<char>, Seq<char>)>, id: Seq<char>) -> Option<Seq<char>>
    decreases xs.len(),
{
    if xs.len() == 0 {
        None
    } else if xs.last().0 == id {
        Some(xs.last().1)
    } else {
        xfail_reason(xs.drop_last(), id)
    }
}

/// A case is listed exactly when some entry names it, and then its reason
/// is that of the last entry naming it: no later entry names the case.
pub proof fn lemma_xfail_reason_is_last_listing(xs: Seq<(Seq<char>, Seq<char>)>, id: Seq<char>)
    ensures
        (xfail_reason(xs, id) is Some) == (exists|i: int| 0 <= i < xs.len() && xs[i].0 == id),
        xfail_reason(xs, id) is Some ==> exists|i: int|
            0 <= i < xs.len() && xs[i] == (id, xfail_reason(xs, id)->Some_0) && forall|j: int|
                i < j < xs.len() ==> xs[j].0 != id,
    decreases xs.len(),
{
    if xs.len() > 0 {
        let t = xs.drop_last();
        lemma_xfail_reason_is_last_listing(t, id);
        if xs.last().0 == id {
            assert(xs[xs.len() - 1] == (id, xs.last().1));
        } else {
            if exists|i: int| 0 <= i < xs.len() && xs[i].0 == id {
                let i = choose|i: int| 0 <= i < xs.len() && xs[i].0 == id;
                assert(t[i].0 == id);
            }
            if xfail_reason(t, id) is Some {
                let i = choose|i: int|
                    0 <= i < t.len() && t[i] == (id, xfail_reason(t, id)->Some_0) && forall|j: int|
                        i < j < t.len() ==> t[j].0 != id;
                assert(xs[i] == t[i]);
                assert forall|j: int| i < j < xs.len() implies xs[j].0 != id by {
                    if j < t.len() {
                        assert(xs[j] == t[j]);
                    }
                }
            } else {
                assert forall|i: int| 0 <= i < xs.len() implies xs[i].0 != id by {
                    if i < t.len() {
                        assert(xs[i] == t[i]);
                    }
                }
            }
        }
    }
}

/// The reason that `entries` give for case `id`, if listed.
pub fn find_xfail<'a>(entries: &'a [XFailEntry], id: &str) -> (r: Option<&'a String>)
    ensures
        match xfail_reason(entries@.map_values(|e: XFailEntry| e@), id@) {
            Some(reason) => r matches Some(s) && s@ == reason,
            None => r is None,
        },
{
    let ghost views = entries@.map_values(|e: XFailEntry| e@);
    let mut i = entries.len();
    assert(views.take(i as int) == views);
    while i > 0
        invariant
            i <= entries@.len(),
            views == entries@.map_values(|e: XFailEntry| e@),
            xfail_reason(views, id@) == xfail_reason(views.take(i as int), id@),
        decreases i,
    {
        let k = i - 1;
        assert(views.take(i as int).drop_last() == views.take(k as int));
        if crate::text::str_eq(entries[k].id.as_str(), id) {
            return Some(&entries[k].reason);
        }
        i = k;
    }
    None
}

} // verus!
