//! Test outcomes and their roll-up into per-suite and whole-run reports.

use vstd::prelude::*;

use crate::order::{chars_lt, lemma_lex_lt_irreflexive, lemma_lex_lt_total, lemma_lex_lt_transitive, lex_lt};

verus! {

/// The four kinds of [`Outcome`], without their reasons.
#[derive(Copy, Clone, Debug, PartialEq, Eq, Structural)]
pub enum OutcomeKind {
    Pass,
    Fail,
    XFail,
    Skip,
}

/// Outcome of running a single test case.
#[derive(Clone, Debug, PartialEq, Eq)]
pub enum Outcome {
    /// Ran and matched the expected output.
    Pass,
    /// Ran but the output or exit code did not match.
    Fail {
        /// Human-readable reason.
        reason: String,
    },
    /// Expected failure: listed in `xfail.toml`; counts as pass.
    XFail {
        /// `xfail.toml` entry reason.
        reason: String,
    },
    /// Intentionally skipped (unsupported feature).
    Skip {
        /// Skip reason.
        reason: String,
    },
}

impl View for Outcome {
    type V = (OutcomeKind, Seq<char>);

    open spec fn view(&self) -> (OutcomeKind, Seq<char>) {
        match self {
            Outcome::Pass => (OutcomeKind::Pass, Seq::empty()),
            Outcome::Fail { reason } => (OutcomeKind::Fail, reason@),
            Outcome::XFail { reason } => (OutcomeKind::XFail, reason@),
            Outcome::Skip { reason } => (OutcomeKind::Skip, reason@),
        }
    }
}

impl Outcome {
    /// The kind of this outcome.
    pub fn kind(&self) -> (k: OutcomeKind)
        ensures
            k == self@.0,
    {
        match self {
            Outcome::Pass => OutcomeKind::Pass,
            Outcome::Fail { .. } => OutcomeKind::Fail,
            Outcome::XFail { .. } => OutcomeKind::XFail,
            Outcome::Skip { .. } => OutcomeKind::Skip,
        }
    }

    /// A copy of this outcome.
    pub fn duplicate(&self) -> (o: Outcome)
        ensures
            o@ == self@,
    {
        match self {
            Outcome::Pass => Outcome::Pass,
            Outcome::Fail { reason } => Outcome::Fail { reason: reason.clone() },
            Outcome::XFail { reason } => Outcome::XFail { reason: reason.clone() },
            Outcome::Skip { reason } => Outcome::Skip { reason: reason.clone() },
        }
    }
}

/// A single test-case discovered by an adapter.
#[derive(Clone, Debug)]
pub struct TestCase {
    /// Short, stable id (e.g. `c-testsuite::00001`).
    pub id: String,
    /// Path to the primary `.c` file, as text.
    pub path: String,
}

/// The view of one recorded case: its id and its outcome.
pub type CaseView = (Seq<char>, (OutcomeKind, Seq<char>));

/// The views of a sequence of recorded cases.
pub open spec fn view_cases(s: Seq<(String, Outcome)>) -> Seq<CaseView> {
    s.map_values(|e: (String, Outcome)| (e.0@, e.1@))
}

impl View for TestCase {
    type V = (Seq<char>, Seq<char>);

    open spec fn view(&self) -> (Seq<char>, Seq<char>) {
        (self.id@, self.path@)
    }
}

/// Number of cases of `s` whose outcome has kind `k`.
pub open spec fn count_kind(s: Seq<CaseView>, k: OutcomeKind) -> nat
    decreases s.len(),
{
    if s.len() == 0 {
        0
    } else {
        count_kind(s.drop_last(), k) + if s.last().1.0 == k {
            1nat
        } else {
            0nat
        }
    }
}

/// The four counts of `s` add up to its length.
pub proof fn lemma_counts_sum(s: Seq<CaseView>)
    ensures
        count_kind(s, OutcomeKind::Pass) + count_kind(s, OutcomeKind::Fail) + count_kind(
            s,
            OutcomeKind::XFail,
        ) + count_kind(s, OutcomeKind::Skip) == s.len(),
    decreases s.len(),
{
    if s.len() > 0 {
        lemma_counts_sum(s.drop_last());
    }
}

/// No id occurs twice in `s`.
pub open spec fn ids_unique(s: Seq<CaseView>) -> bool {
    forall|i: int, j: int| 0 <= i < j < s.len() ==> s[i].0 != s[j].0
}

/// Whether `i` is the first position of `s` whose id is `id`.
pub open spec fn first_position(s: Seq<CaseView>, id: Seq<char>, i: int) -> bool {
    &&& 0 <= i < s.len()
    &&& s[i].0 == id
    &&& forall|j: int| 0 <= j < i ==> s[j].0 != id
}

/// First position of the case with id `id` in `s`, if any.
pub open spec fn position_of(s: Seq<CaseView>, id: Seq<char>) -> Option<int> {
    if exists|i: int| first_position(s, id, i) {
        Some(choose|i: int| first_position(s, id, i))
    } else {
        None
    }
}

/// `position_of` finds a case exactly when some case has that id.
pub proof fn lemma_position_of(s: Seq<CaseView>, id: Seq<char>)
    ensures
        position_of(s, id) is None <==> forall|i: int| 0 <= i < s.len() ==> s[i].0 != id,
        position_of(s, id) matches Some(i) ==> first_position(s, id, i),
    decreases s.len(),
{
    if s.len() > 0 {
        let t = s.drop_last();
        lemma_position_of(t, id);
        assert(forall|j: int| 0 <= j < t.len() ==> t[j] == s[j]);
        if let Some(i) = position_of(t, id) {
            assert(first_position(t, id, i));
            assert(first_position(s, id, i));
        } else if s.last().0 == id {
            assert(first_position(s, id, s.len() - 1));
        } else {
            if exists|i: int| first_position(s, id, i) {
                let i = choose|i: int| first_position(s, id, i);
                assert(t[i].0 == id);
            }
        }
    }
}

/// Where a case with the new id `id` goes among the cases of `s`: just
/// after the last case whose id comes before `id`.
pub open spec fn insert_position(s: Seq<CaseView>, id: Seq<char>) -> int
    decreases s.len(),
{
    if s.len() == 0 {
        0
    } else if lex_lt(s.last().0, id) {
        s.len() as int
    } else {
        insert_position(s.drop_last(), id)
    }
}

/// The ids of `s` strictly increase.
pub open spec fn ids_sorted(s: Seq<CaseView>) -> bool {
    forall|i: int, j: int| 0 <= i < j < s.len() ==> lex_lt(s[i].0, s[j].0)
}

/// The cases of `s` after recording outcome `o` for `id`: an existing case
/// `id` gets the new outcome, otherwise the case goes in at its place in
/// id order.
pub open spec fn insert_case(s: Seq<CaseView>, id: Seq<char>, o: (OutcomeKind, Seq<char>)) -> Seq<
    CaseView,
> {
    match position_of(s, id) {
        Some(i) => s.update(i, (id, o)),
        None => s.insert(insert_position(s, id), (id, o)),
    }
}

/// Outcome recorded for `id` in `s`, if any.
pub open spec fn lookup_case(s: Seq<CaseView>, id: Seq<char>) -> Option<(OutcomeKind, Seq<char>)> {
    match position_of(s, id) {
        Some(i) => Some(s[i].1),
        None => None,
    }
}

proof fn lemma_insert_position_range(s: Seq<CaseView>, id: Seq<char>)
    ensures
        0 <= insert_position(s, id) <= s.len(),
    decreases s.len(),
{
    if s.len() > 0 {
        lemma_insert_position_range(s.drop_last(), id);
    }
}

/// In sorted cases, the ids before the insert position come before `id`
/// and the others do not.
proof fn lemma_insert_position(s: Seq<CaseView>, id: Seq<char>)
    requires
        ids_sorted(s),
    ensures
        0 <= insert_position(s, id) <= s.len(),
        forall|i: int| 0 <= i < insert_position(s, id) ==> lex_lt(#[trigger] s[i].0, id),
        forall|i: int| insert_position(s, id) <= i < s.len() ==> !lex_lt(#[trigger] s[i].0, id),
    decreases s.len(),
{
    if s.len() > 0 {
        let t = s.drop_last();
        assert forall|i: int, j: int| 0 <= i < j < t.len() implies lex_lt(t[i].0, t[j].0) by {
            assert(t[i] == s[i] && t[j] == s[j]);
        }
        lemma_insert_position(t, id);
        if lex_lt(s.last().0, id) {
            assert forall|i: int| 0 <= i < s.len() implies lex_lt(#[trigger] s[i].0, id) by {
                if i < s.len() - 1 {
                    lemma_lex_lt_transitive(s[i].0, s.last().0, id);
                }
            }
        } else {
            assert forall|i: int| insert_position(s, id) <= i < s.len() implies !lex_lt(#[trigger] s[i].0, id) by {
                if i < s.len() - 1 {
                    assert(t[i] == s[i]);
                }
            }
            assert forall|i: int| 0 <= i < insert_position(s, id) implies lex_lt(#[trigger] s[i].0, id) by {
                assert(t[i] == s[i]);
            }
        }
    }
}

/// Cases in strictly increasing id order have distinct ids.
pub proof fn lemma_sorted_ids_unique(s: Seq<CaseView>)
    requires
        ids_sorted(s),
    ensures
        ids_unique(s),
{
    assert forall|i: int, j: int| 0 <= i < j < s.len() implies s[i].0 != s[j].0 by {
        lemma_lex_lt_irreflexive(s[i].0);
    }
}

/// Where ids are distinct, the case with id `id` at `i` is the one found.
proof fn lemma_unique_position(s: Seq<CaseView>, id: Seq<char>, i: int)
    requires
        ids_unique(s),
        0 <= i < s.len(),
        s[i].0 == id,
    ensures
        position_of(s, id) == Some(i),
{
    assert(first_position(s, id, i));
    lemma_position_of(s, id);
    let j = position_of(s, id)->Some_0;
    assert(first_position(s, id, j));
}

/// Recording an outcome keeps the cases in strictly increasing id order.
pub proof fn lemma_insert_keeps_sorted(s: Seq<CaseView>, id: Seq<char>, o: (OutcomeKind, Seq<char>))
    requires
        ids_sorted(s),
    ensures
        ids_sorted(insert_case(s, id, o)),
{
    lemma_position_of(s, id);
    match position_of(s, id) {
        Some(i) => {
            let t = s.update(i, (id, o));
            assert forall|a: int, b: int| 0 <= a < b < t.len() implies lex_lt(t[a].0, t[b].0) by {
                assert(t[a].0 == s[a].0);
                assert(t[b].0 == s[b].0);
            }
        },
        None => {
            lemma_insert_position(s, id);
            let p = insert_position(s, id);
            let t = s.insert(p, (id, o));
            assert forall|i: int| p <= i < s.len() implies lex_lt(id, #[trigger] s[i].0) by {
                lemma_lex_lt_total(s[i].0, id);
            }
            assert forall|a: int, b: int| 0 <= a < b < t.len() implies lex_lt(t[a].0, t[b].0) by {
                if b < p {
                    assert(t[a] == s[a] && t[b] == s[b]);
                } else if b == p {
                    assert(t[a] == s[a]);
                } else if a < p {
                    assert(t[a] == s[a] && t[b] == s[b - 1]);
                    lemma_lex_lt_transitive(s[a].0, id, s[b - 1].0);
                } else if a == p {
                    assert(t[b] == s[b - 1]);
                } else {
                    assert(t[a] == s[a - 1] && t[b] == s[b - 1]);
                }
            }
        },
    }
}

/// Recording an outcome keeps the ids of a sequence of cases distinct.
pub proof fn lemma_insert_keeps_ids_unique(
    s: Seq<CaseView>,
    id: Seq<char>,
    o: (OutcomeKind, Seq<char>),
)
    requires
        ids_unique(s),
    ensures
        ids_unique(insert_case(s, id, o)),
{
    lemma_position_of(s, id);
    lemma_insert_position_range(s, id);
    if position_of(s, id) is None {
        let p = insert_position(s, id);
        let t = s.insert(p, (id, o));
        assert forall|a: int, b: int| 0 <= a < b < t.len() implies t[a].0 != t[b].0 by {
            if b < p {
                assert(t[a] == s[a] && t[b] == s[b]);
            } else if b == p {
                assert(t[a] == s[a]);
            } else if a < p {
                assert(t[a] == s[a] && t[b] == s[b - 1]);
            } else if a == p {
                assert(t[b] == s[b - 1]);
            } else {
                assert(t[a] == s[a - 1] && t[b] == s[b - 1]);
            }
        }
    }
}

/// Reading a case back gives what was last recorded for it, and leaves the
/// other cases as they were.
pub proof fn lemma_lookup_after_insert(
    s: Seq<CaseView>,
    id: Seq<char>,
    o: (OutcomeKind, Seq<char>),
    other: Seq<char>,
)
    requires
        ids_unique(s),
    ensures
        lookup_case(insert_case(s, id, o), id) == Some(o),
        other != id ==> lookup_case(insert_case(s, id, o), other) == lookup_case(s, other),
{
    let t = insert_case(s, id, o);
    lemma_position_of(s, id);
    lemma_position_of(s, other);
    lemma_insert_keeps_ids_unique(s, id, o);
    lemma_insert_position_range(s, id);
    lemma_position_of(t, other);
    match position_of(s, id) {
        Some(i) => {
            lemma_unique_position(t, id, i);
            if other != id {
                match position_of(s, other) {
                    Some(j) => {
                        lemma_unique_position(t, other, j);
                    },
                    None => {
                        assert forall|k: int| 0 <= k < t.len() implies t[k].0 != other by {
                            if k != i {
                                assert(t[k] == s[k]);
                            }
                        }
                    },
                }
            }
        },
        None => {
            let p = insert_position(s, id);
            lemma_unique_position(t, id, p);
            if other != id {
                match position_of(s, other) {
                    Some(j) => {
                        if j < p {
                            assert(t[j] == s[j]);
                            lemma_unique_position(t, other, j);
                        } else {
                            assert(t[j + 1] == s[j]);
                            lemma_unique_position(t, other, j + 1);
                        }
                    },
                    None => {
                        assert forall|k: int| 0 <= k < t.len() implies t[k].0 != other by {
                            if k < p {
                                assert(t[k] == s[k]);
                            } else if k > p {
                                assert(t[k] == s[k - 1]);
                            }
                        }
                    },
                }
            }
        },
    }
}

/// Aggregate result for one suite: per-case outcomes keyed by case id.
///
/// Cases are kept in increasing id order, one entry per id: the order and
/// the uniqueness of a map sorted by key. They are held in a `Vec` because
/// vstd's specification of `BTreeMap` holds only for key types whose
/// ordering it knows, which `String` is not, and says nothing of a lookup
/// by `&str`.
#[derive(Debug)]
pub struct SuiteReport {
    name: String,
    cases: Vec<(String, Outcome)>,
}

impl SuiteReport {
    #[verifier::type_invariant]
    spec fn well_formed(self) -> bool {
        ids_sorted(view_cases(self.cases@))
    }

    /// The suite's name.
    pub closed spec fn suite_name(&self) -> Seq<char> {
        self.name@
    }

    /// The views of the recorded cases, in increasing id order.
    pub closed spec fn entries(&self) -> Seq<CaseView> {
        view_cases(self.cases@)
    }

    /// An empty report for suite `name`.
    pub fn new(name: String) -> (r: SuiteReport)
        ensures
            r.suite_name() == name@,
            r.entries() == Seq::<CaseView>::empty(),
            ids_sorted(r.entries()),
    {
        let r = SuiteReport { name, cases: Vec::new() };
        assert(view_cases(r.cases@) =~= Seq::<CaseView>::empty());
        r
    }

    /// The suite's name.
    pub fn name(&self) -> (r: &str)
        ensures
            r@ == self.suite_name(),
    {
        self.name.as_str()
    }

    /// Number of recorded cases.
    pub fn len(&self) -> (n: usize)
        ensures
            n == self.entries().len(),
    {
        self.cases.len()
    }

    /// The recorded cases, in increasing id order.
    pub fn cases(&self) -> (r: &[(String, Outcome)])
        ensures
            view_cases(r@) == self.entries(),
            ids_sorted(view_cases(r@)),
            ids_unique(view_cases(r@)),
    {
        proof {
            use_type_invariant(self);
            lemma_sorted_ids_unique(self.entries());
        }
        self.cases.as_slice()
    }

    /// The recorded cases, in increasing id order, taken out of the report.
    pub fn into_cases(self) -> (r: Vec<(String, Outcome)>)
        ensures
            view_cases(r@) == self.entries(),
            ids_sorted(view_cases(r@)),
    {
        proof {
            use_type_invariant(&self);
        }
        let SuiteReport { name: _, cases } = self;
        cases
    }

    /// Position of the case `id`, if recorded.
    fn find(&self, id: &str) -> (r: Option<usize>)
        ensures
            match r {
                Some(i) => position_of(self.entries(), id@) == Some(i as int),
                None => position_of(self.entries(), id@) is None,
            },
    {
        let mut i: usize = 0;
        while i < self.cases.len()
            invariant
                i <= self.cases@.len(),
                forall|j: int| 0 <= j < i ==> self.entries()[j].0 != id@,
            decreases self.cases@.len() - i,
        {
            if crate::text::str_eq(self.cases[i].0.as_str(), id) {
                proof {
                    assert(first_position(self.entries(), id@, i as int));
                    lemma_position_of(self.entries(), id@);
                }
                return Some(i);
            }
            i = i + 1;
        }
        proof {
            lemma_position_of(self.entries(), id@);
        }
        None
    }

    /// Where a new case `id` goes.
    fn position_for(&self, id: &str) -> (r: usize)
        ensures
            r == insert_position(self.entries(), id@),
    {
        let key = crate::text::chars_of(id);
        let ghost es = self.entries();
        let mut i: usize = self.cases.len();
        assert(es.take(i as int) =~= es);
        while i > 0
            invariant
                i <= es.len(),
                es == self.entries(),
                key@ == id@,
                insert_position(es, id@) == insert_position(es.take(i as int), id@),
            decreases i,
        {
            let other = crate::text::chars_of(self.cases[i - 1].0.as_str());
            assert(es.take(i as int).last() == es[i - 1]);
            if chars_lt(other.as_slice(), key.as_slice()) {
                return i;
            }
            assert(es.take(i as int).drop_last() =~= es.take(i - 1));
            i = i - 1;
        }
        i
    }

    /// Outcome recorded for case `id`, if any.
    pub fn get(&self, id: &str) -> (r: Option<&Outcome>)
        ensures
            match lookup_case(self.entries(), id@) {
                Some(o) => r matches Some(x) && x@ == o,
                None => r is None,
            },
    {
        match self.find(id) {
            Some(i) => Some(&self.cases[i].1),
            None => None,
        }
    }

    /// Records `outcome` for case `id`, replacing an earlier outcome of the
    /// same case; a new case goes in at its place in id order.
    pub fn insert(&mut self, id: String, outcome: Outcome)
        ensures
            final(self).suite_name() == old(self).suite_name(),
            final(self).entries() == insert_case(old(self).entries(), id@, outcome@),
            ids_sorted(final(self).entries()),
            ids_unique(final(self).entries()),
    {
        proof {
            use_type_invariant(&*self);
            lemma_insert_keeps_sorted(self.entries(), id@, outcome@);
        }
        let ghost before = self.entries();
        let found = self.find(id.as_str());
        let at = self.position_for(id.as_str());
        let mut cases: Vec<(String, Outcome)> = Vec::new();
        std::mem::swap(&mut cases, &mut self.cases);
        assert(view_cases(cases@) == before);
        match found {
            Some(i) => {
                let entry_id = cases[i].0.clone();
                cases.set(i, (entry_id, outcome));
                assert(view_cases(cases@) =~= before.update(i as int, (id@, outcome@)));
            },
            None => {
                proof {
                    lemma_insert_position_range(before, id@);
                }
                cases.insert(at, (id, outcome));
                assert(view_cases(cases@) =~= before.insert(at as int, (id@, outcome@)));
            },
        }
        self.cases = cases;
        proof {
            lemma_sorted_ids_unique(self.entries());
        }
    }

    /// Count outcomes of each kind.
    pub fn counts(&self) -> (c: Counts)
        requires
            self.entries().len() <= u32::MAX,
        ensures
            c.pass == count_kind(self.entries(), OutcomeKind::Pass),
            c.fail == count_kind(self.entries(), OutcomeKind::Fail),
            c.xfail == count_kind(self.entries(), OutcomeKind::XFail),
            c.skip == count_kind(self.entries(), OutcomeKind::Skip),
    {
        let mut c = Counts { pass: 0, fail: 0, xfail: 0, skip: 0 };
        let n = self.cases.len();
        for i in 0..n
            invariant
                n == self.cases@.len(),
                n <= u32::MAX,
                c.pass == count_kind(self.entries().take(i as int), OutcomeKind::Pass),
                c.fail == count_kind(self.entries().take(i as int), OutcomeKind::Fail),
                c.xfail == count_kind(self.entries().take(i as int), OutcomeKind::XFail),
                c.skip == count_kind(self.entries().take(i as int), OutcomeKind::Skip),
        {
            proof {
                let s = self.entries().take(i + 1);
                assert(s.drop_last() == self.entries().take(i as int));
                lemma_counts_sum(self.entries().take(i as int));
            }
            match &self.cases[i].1 {
                Outcome::Pass => c.pass = c.pass + 1,
                Outcome::Fail { .. } => c.fail = c.fail + 1,
                Outcome::XFail { .. } => c.xfail = c.xfail + 1,
                Outcome::Skip { .. } => c.skip = c.skip + 1,
            }
        }
        assert(self.entries().take(n as int) == self.entries());
        c
    }
}

/// Outcome roll-up.
#[derive(Copy, Clone, Debug, PartialEq, Eq, Structural)]
pub struct Counts {
    /// Passing tests.
    pub pass: u32,
    /// Failing tests.
    pub fail: u32,
    /// Expected-failure tests (count as pass for CI gating).
    pub xfail: u32,
    /// Skipped tests.
    pub skip: u32,
}

impl Counts {
    /// Total discovered cases represented by this count set.
    pub fn discovered(self) -> (n: u32)
        requires
            self.pass + self.fail + self.xfail + self.skip <= u32::MAX,
        ensures
            n == self.pass + self.fail + self.xfail + self.skip,
    {
        self.pass + self.fail + self.xfail + self.skip
    }
}

/// Top-level report containing every suite.
#[derive(Debug)]
pub struct Report {
    /// Per-suite results.
    pub suites: Vec<SuiteReport>,
}

impl Default for Report {
    fn default() -> (r: Report)
        ensures
            r.suites@.len() == 0,
    {
        Report { suites: Vec::new() }
    }
}

} // verus!
