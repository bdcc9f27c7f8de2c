//! The decisions of a suite run: which step comes next, and what each
//! result of the outside work (loading `xfail.toml`, discovering cases,
//! running one case) does to the suite's report.
//!
//! The caller performs each requested step and hands its result back.

use vstd::prelude::*;

use crate::report::{
    insert_case, lookup_case, CaseView, Outcome, OutcomeKind, Report, SuiteReport, TestCase,
    ids_unique, lemma_insert_keeps_ids_unique, lemma_lookup_after_insert, lemma_position_of,
};
use crate::xfail::{find_xfail, xfail_reason, XFailEntry};

verus! {

/// Outcome kind and reason that an expected-failure listing gives to a case
/// outcome `o`: a listed case that did not pass becomes an expected failure
/// with the listing's reason; anything else is left as it was.
pub open spec fn apply_xfail_spec(o: (OutcomeKind, Seq<char>), listed: Option<Seq<char>>) -> (
    OutcomeKind,
    Seq<char>,
) {
    match listed {
        Some(reason) => if o.0 == OutcomeKind::Pass {
            o
        } else {
            (OutcomeKind::XFail, reason)
        },
        None => o,
    }
}

/// Expected-failure listings never turn a pass into anything else, and
/// every other outcome of a listed case, a failure or a skip alike, becomes
/// an expected failure with the listing's reason.
pub proof fn lemma_xfail_keeps_passes(o: (OutcomeKind, Seq<char>), listed: Option<Seq<char>>)
    ensures
        (apply_xfail_spec(o, listed).0 == OutcomeKind::Pass) == (o.0 == OutcomeKind::Pass),
        listed is Some ==> apply_xfail_spec(o, listed).0 != OutcomeKind::Fail,
        listed is None ==> apply_xfail_spec(o, listed) == o,
        (listed is Some && o.0 != OutcomeKind::Pass) ==> apply_xfail_spec(o, listed) == (
            OutcomeKind::XFail,
            listed->Some_0,
        ),
        (listed is Some && o.0 == OutcomeKind::Pass) ==> apply_xfail_spec(o, listed) == o,
{
}

/// Applies the expected-failure listing `listed` to the outcome `o`.
pub fn apply_xfail(o: Outcome, listed: Option<&String>) -> (r: Outcome)
    ensures
        r@ == apply_xfail_spec(
            o@,
            match listed {
                Some(s) => Some(s@),
                None => None,
            },
        ),
{
    match listed {
        Some(reason) => match o {
            Outcome::Pass => Outcome::Pass,
            _ => Outcome::XFail { reason: reason.clone() },
        },
        None => o,
    }
}

/// View of the result of running one case: an error of the run itself is
/// reported as a failure with the error's text.
pub open spec fn run_result_view(result: Result<Outcome, String>) -> (OutcomeKind, Seq<char>) {
    match result {
        Ok(o) => o@,
        Err(e) => (OutcomeKind::Fail, e@),
    }
}

/// Reason given to an xfail entry that names no discovered case.
pub open spec fn unmatched_reason(reason: Seq<char>) -> Seq<char> {
    "xfail entry did not match discovered case: "@ + reason
}

/// Cases of `s` after recording a skip for every entry of `xs` whose id is
/// not among `ids`, in the order of `xs`.
pub open spec fn skip_unmatched(
    s: Seq<CaseView>,
    xs: Seq<(Seq<char>, Seq<char>)>,
    ids: Seq<Seq<char>>,
) -> Seq<CaseView>
    decreases xs.len(),
{
    if xs.len() == 0 {
        s
    } else {
        let prev = skip_unmatched(s, xs.drop_last(), ids);
        if ids.contains(xs.last().0) {
            prev
        } else {
            insert_case(prev, xs.last().0, (OutcomeKind::Skip, unmatched_reason(xs.last().1)))
        }
    }
}

/// Next step of a suite run.
#[derive(Copy, Clone, Debug, PartialEq, Eq, Structural)]
pub enum SuiteStep {
    /// Load the suite's `xfail.toml`.
    LoadXFail,
    /// Discover the suite's cases.
    Discover,
    /// Run the discovered case with this position.
    RunCase(usize),
    /// The report is complete.
    Finished,
}

/// State of one suite run.
pub struct SuiteRun {
    report: SuiteReport,
    xfails: Vec<XFailEntry>,
    ids: Vec<String>,
    step: SuiteStep,
}

impl SuiteRun {
    /// Internal consistency of the run state; every step keeps it.
    pub closed spec fn wf(&self) -> bool {
        &&& ids_unique(self.report.entries())
        &&& self.step matches SuiteStep::RunCase(i) ==> i < self.ids@.len()
    }

    /// Name of the suite.
    pub closed spec fn name_of(&self) -> Seq<char> {
        self.report.suite_name()
    }

    /// Cases recorded so far.
    pub closed spec fn cases_of(&self) -> Seq<CaseView> {
        self.report.entries()
    }

    /// Expected-failure entries in force.
    pub closed spec fn xfails_of(&self) -> Seq<(Seq<char>, Seq<char>)> {
        self.xfails@.map_values(|e: XFailEntry| e@)
    }

    /// Ids of the discovered cases.
    pub closed spec fn ids_of(&self) -> Seq<Seq<char>> {
        self.ids@.map_values(|s: String| s@)
    }

    /// Step the run waits for.
    pub closed spec fn step_of(&self) -> SuiteStep {
        self.step
    }

    /// Starts the run of suite `name`; its first step loads `xfail.toml`.
    pub fn start(name: String) -> (r: SuiteRun)
        ensures
            r.name_of() == name@,
            r.step_of() == SuiteStep::LoadXFail,
            r.cases_of() == Seq::<CaseView>::empty(),
            r.wf(),
    {
        SuiteRun {
            report: SuiteReport::new(name),
            xfails: Vec::new(),
            ids: Vec::new(),
            step: SuiteStep::LoadXFail,
        }
    }

    /// The step the run waits for.
    pub fn step(&self) -> (s: SuiteStep)
        ensures
            s == self.step_of(),
    {
        self.step
    }

    /// Takes the result of loading `xfail.toml`. A load error is recorded as
    /// the failing case `<xfail>` and ends the run; otherwise discovery
    /// comes next.
    pub fn xfail_loaded(&mut self, loaded: Result<Vec<XFailEntry>, String>) -> (next: SuiteStep)
        requires
            old(self).wf(),
            old(self).step_of() == SuiteStep::LoadXFail,
        ensures
            final(self).wf(),
            next == final(self).step_of(),
            final(self).name_of() == old(self).name_of(),
            final(self).ids_of() == old(self).ids_of(),
            match loaded {
                Ok(xs) => {
                    &&& next == SuiteStep::Discover
                    &&& final(self).xfails_of() == xs@.map_values(|e: XFailEntry| e@)
                    &&& final(self).cases_of() == old(self).cases_of()
                },
                Err(e) => {
                    &&& next == SuiteStep::Finished
                    &&& final(self).xfails_of() == old(self).xfails_of()
                    &&& final(self).cases_of() == insert_case(
                        old(self).cases_of(),
                        "<xfail>"@,
                        (OutcomeKind::Fail, e@),
                    )
                },
            },
    {
        match loaded {
            Ok(xs) => {
                self.xfails = xs;
                self.step = SuiteStep::Discover;
            },
            Err(e) => {
                proof {
                    lemma_insert_keeps_ids_unique(self.report.entries(), "<xfail>"@, (OutcomeKind::Fail, e@));
                }
                self.report.insert("<xfail>".to_string(), Outcome::Fail { reason: e });
                self.step = SuiteStep::Finished;
            },
        }
        self.step
    }

    /// Takes the result of case discovery. A discovery error is recorded as
    /// the failing case `<discovery>` and ends the run. Otherwise every
    /// expected-failure entry that names no discovered case is recorded as
    /// skipped, and the discovered cases are run in order.
    pub fn discovered(&mut self, found: Result<Vec<String>, String>) -> (next: SuiteStep)
        requires
            old(self).wf(),
            old(self).step_of() == SuiteStep::Discover,
        ensures
            final(self).wf(),
            next == final(self).step_of(),
            final(self).name_of() == old(self).name_of(),
            final(self).xfails_of() == old(self).xfails_of(),
            match found {
                Ok(ids) => {
                    &&& final(self).ids_of() == ids@.map_values(|s: String| s@)
                    &&& final(self).cases_of() == skip_unmatched(
                        old(self).cases_of(),
                        old(self).xfails_of(),
                        ids@.map_values(|s: String| s@),
                    )
                    &&& next == if ids@.len() == 0 {
                        SuiteStep::Finished
                    } else {
                        SuiteStep::RunCase(0)
                    }
                },
                Err(e) => {
                    &&& next == SuiteStep::Finished
                    &&& final(self).ids_of() == old(self).ids_of()
                    &&& final(self).cases_of() == insert_case(
                        old(self).cases_of(),
                        "<discovery>"@,
                        (OutcomeKind::Fail, e@),
                    )
                },
            },
    {
        match found {
            Err(e) => {
                proof {
                    lemma_insert_keeps_ids_unique(
                        self.report.entries(),
                        "<discovery>"@,
                        (OutcomeKind::Fail, e@),
                    );
                }
                self.report.insert("<discovery>".to_string(), Outcome::Fail { reason: e });
                self.step = SuiteStep::Finished;
            },
            Ok(ids) => {
                let ghost start = self.report.entries();
                let ghost xs = self.xfails@.map_values(|e: XFailEntry| e@);
                let ghost idv = ids@.map_values(|s: String| s@);
                let n = self.xfails.len();
                for k in 0..n
                    invariant
                        n == self.xfails@.len(),
                        xs == self.xfails@.map_values(|e: XFailEntry| e@),
                        idv == ids@.map_values(|s: String| s@),
                        ids_unique(self.report.entries()),
                        self.report.suite_name() == old(self).report.suite_name(),
                        self.report.entries() == skip_unmatched(start, xs.take(k as int), idv),
                {
                    proof {
                        assert(xs.take(k + 1).drop_last() == xs.take(k as int));
                    }
                    if !contains_id(ids.as_slice(), self.xfails[k].id.as_str()) {
                        let mut reason = "xfail entry did not match discovered case: ".to_string();
                        reason.append(self.xfails[k].reason.as_str());
                        let id = self.xfails[k].id.clone();
                        proof {
                            lemma_insert_keeps_ids_unique(
                                self.report.entries(),
                                id@,
                                (OutcomeKind::Skip, reason@),
                            );
                        }
                        self.report.insert(id, Outcome::Skip { reason });
                    }
                }
                assert(xs.take(n as int) == xs);
                self.step = if ids.len() == 0 {
                    SuiteStep::Finished
                } else {
                    SuiteStep::RunCase(0)
                };
                self.ids = ids;
            },
        }
        self.step
    }

    /// Takes the result of running the current case: a run error counts as
    /// a failure with the error's text, and an expected-failure listing
    /// turns a non-pass into an expected failure. The next case follows, or
    /// the run ends after the last one.
    pub fn case_finished(&mut self, result: Result<Outcome, String>) -> (next: SuiteStep)
        requires
            old(self).wf(),
            old(self).step_of() is RunCase,
        ensures
            final(self).wf(),
            next == final(self).step_of(),
            final(self).name_of() == old(self).name_of(),
            final(self).xfails_of() == old(self).xfails_of(),
            final(self).ids_of() == old(self).ids_of(),
            ({
                let i = old(self).step_of()->RunCase_0;
                let id = old(self).ids_of()[i as int];
                &&& final(self).cases_of() == insert_case(
                    old(self).cases_of(),
                    id,
                    apply_xfail_spec(run_result_view(result), xfail_reason(old(self).xfails_of(), id)),
                )
                &&& next == if i + 1 < old(self).ids_of().len() {
                    SuiteStep::RunCase((i + 1) as usize)
                } else {
                    SuiteStep::Finished
                }
            }),
    {
        let i = match self.step {
            SuiteStep::RunCase(i) => i,
            _ => 0,
        };
        let outcome = match result {
            Ok(o) => o,
            Err(e) => Outcome::Fail { reason: e },
        };
        let listed = find_xfail(self.xfails.as_slice(), self.ids[i].as_str());
        let outcome = apply_xfail(outcome, listed);
        let id = self.ids[i].clone();
        proof {
            lemma_insert_keeps_ids_unique(self.report.entries(), id@, outcome@);
        }
        self.report.insert(id, outcome);
        self.step = if i < self.ids.len() - 1 {
            SuiteStep::RunCase(i + 1)
        } else {
            SuiteStep::Finished
        };
        self.step
    }

    /// The report of the run.
    pub fn into_report(self) -> (r: SuiteReport)
        ensures
            r.suite_name() == self.name_of(),
            r.entries() == self.cases_of(),
    {
        self.report
    }
}

/// Whether some string of `ids` equals `id`.
fn contains_id(ids: &[String], id: &str) -> (r: bool)
    ensures
        r == ids@.map_values(|s: String| s@).contains(id@),
{
    let ghost idv = ids@.map_values(|s: String| s@);
    for k in 0..ids.len()
        invariant
            idv == ids@.map_values(|s: String| s@),
            forall|j: int| 0 <= j < k ==> idv[j] != id@,
    {
        if crate::text::str_eq(ids[k].as_str(), id) {
            assert(idv[k as int] == id@);
            return true;
        }
    }
    false
}

/// What discovery gave, as values: the `(id, path)` of each case, or the
/// error.
pub type DiscoverView = Result<Seq<(Seq<char>, Seq<char>)>, Seq<char>>;

/// What running one case gave, as values: its outcome, or the error.
pub type RunView = Result<(OutcomeKind, Seq<char>), Seq<char>>;

/// View of the result of discovering a suite's cases.
pub open spec fn discover_view(r: Result<Vec<TestCase>, String>) -> DiscoverView {
    match r {
        Ok(cases) => Ok(cases@.map_values(|c: TestCase| c@)),
        Err(e) => Err(e@),
    }
}

/// View of the result of running one case.
pub open spec fn run_view(r: Result<Outcome, String>) -> RunView {
    match r {
        Ok(o) => Ok(o@),
        Err(e) => Err(e@),
    }
}

/// The outcome that the result of a run is recorded with: an error of the
/// run itself is a failure with the error's text.
pub open spec fn outcome_of(r: RunView) -> (OutcomeKind, Seq<char>) {
    match r {
        Ok(o) => o,
        Err(e) => (OutcomeKind::Fail, e),
    }
}

/// Test-suite adapter: discovers a suite's cases and runs one of them.
///
/// Implementations live with the code that can reach the file system and
/// spawn processes. Each names, by `discovers` and `runs`, which answers it
/// may give for which arguments; [`run_suites`] records exactly the answers
/// it was given for the arguments it handed over.
pub trait Adapter {
    /// Whether `r` is an answer this adapter may give to discovery under
    /// `root`; an adapter that does not say admits every answer.
    open spec fn discovers(&self, root: Seq<char>, r: DiscoverView) -> bool {
        true
    }

    /// Whether `r` is an answer this adapter may give to running the case
    /// `case` (its id and path) with the `rcc` binary at `rcc`; an adapter
    /// that does not say admits every answer.
    open spec fn runs(&self, rcc: Seq<char>, case: (Seq<char>, Seq<char>), r: RunView) -> bool {
        true
    }

    /// Enumerate every test case the adapter knows about under `root`.
    fn discover(&self, root: &str) -> (r: Result<Vec<TestCase>, String>)
        ensures
            self.discovers(root@, discover_view(r)),
    ;

    /// Run one case using the `rcc` binary at `rcc_path`.
    fn run(&self, rcc_path: &str, case: &TestCase) -> (r: Result<Outcome, String>)
        ensures
            self.runs(rcc_path@, case@, run_view(r)),
    ;
}

/// A named test suite wrapping a concrete directory.
pub struct Suite {
    /// Suite name (shown in reports).
    pub name: String,
    /// Root of the vendored checkout.
    pub root: String,
    /// Adapter strategy.
    pub adapter: Box<dyn Adapter>,
}

/// View of a loaded expected-failure list, or of the error that loading it
/// gave.
pub open spec fn xfail_load_view(r: Result<Vec<XFailEntry>, String>) -> Result<
    Seq<(Seq<char>, Seq<char>)>,
    Seq<char>,
> {
    match r {
        Ok(xs) => Ok(xs@.map_values(|e: XFailEntry| e@)),
        Err(e) => Err(e@),
    }
}

/// Cases after running the first `k` discovered cases, whose results were
/// `runs`, on top of `s`.
pub open spec fn run_cases_spec(
    s: Seq<CaseView>,
    xs: Seq<(Seq<char>, Seq<char>)>,
    ids: Seq<Seq<char>>,
    runs: Seq<(OutcomeKind, Seq<char>)>,
    k: int,
) -> Seq<CaseView>
    decreases k,
{
    if k <= 0 {
        s
    } else {
        insert_case(
            run_cases_spec(s, xs, ids, runs, k - 1),
            ids[k - 1],
            apply_xfail_spec(runs[k - 1], xfail_reason(xs, ids[k - 1])),
        )
    }
}

/// Cases of a suite's report, given what loading its expected-failure list
/// gave, what discovery gave (the ids of the cases, or an error), and what
/// running each discovered case gave, in order.
pub open spec fn suite_cases_spec(
    xfail: Result<Seq<(Seq<char>, Seq<char>)>, Seq<char>>,
    found: Result<Seq<Seq<char>>, Seq<char>>,
    runs: Seq<(OutcomeKind, Seq<char>)>,
) -> Seq<CaseView> {
    match xfail {
        Err(e) => insert_case(Seq::empty(), "<xfail>"@, (OutcomeKind::Fail, e)),
        Ok(xs) => match found {
            Err(e) => insert_case(Seq::empty(), "<discovery>"@, (OutcomeKind::Fail, e)),
            Ok(ids) => run_cases_spec(skip_unmatched(Seq::empty(), xs, ids), xs, ids, runs, ids.len() as int),
        },
    }
}

/// Ids of what discovery gave.
pub open spec fn found_ids(found: DiscoverView) -> Result<Seq<Seq<char>>, Seq<char>> {
    match found {
        Ok(cs) => Ok(cs.map_values(|c: (Seq<char>, Seq<char>)| c.0)),
        Err(e) => Err(e),
    }
}

/// The outcomes that the results of runs are recorded with, in order.
pub open spec fn outcomes(results: Seq<RunView>) -> Seq<(OutcomeKind, Seq<char>)> {
    results.map_values(|r: RunView| outcome_of(r))
}

/// `found` is an answer of the suite's adapter to discovery under the
/// suite's root, and `results` are its answers to running each discovered
/// case, in order, with the `rcc` binary at `rcc`.
pub open spec fn answered(rcc: Seq<char>, suite: &Suite, found: DiscoverView, results: Seq<RunView>) -> bool {
    &&& suite.adapter.discovers(suite.root@, found)
    &&& match found {
        Ok(cs) => results.len() == cs.len() && forall|k: int|
            0 <= k < cs.len() ==> suite.adapter.runs(rcc, cs[k], #[trigger] results[k]),
        Err(_) => results.len() == 0,
    }
}

/// `cases` is the report of `suite`, run with the `rcc` binary at `rcc`:
/// when its expected-failure list did not load, the one `<xfail>` failure;
/// otherwise what the adapter's answer to discovery under the suite's root
/// and its answers to running each discovered case, in order, give.
pub open spec fn suite_report_for(
    rcc: Seq<char>,
    suite: &Suite,
    xfail: Result<Seq<(Seq<char>, Seq<char>)>, Seq<char>>,
    r_name: Seq<char>,
    cases: Seq<CaseView>,
) -> bool {
    &&& r_name == suite.name@
    &&& match xfail {
        Err(_) => cases == suite_cases_spec(xfail, Err(Seq::empty()), Seq::empty()),
        Ok(_) => exists|found: DiscoverView, results: Seq<RunView>|
            #[trigger] answered(rcc, suite, found, results) && suite_cases_spec(
                xfail,
                found_ids(found),
                outcomes(results),
            ) == cases,
    }
}

proof fn lemma_run_cases_prefix(
    s: Seq<CaseView>,
    xs: Seq<(Seq<char>, Seq<char>)>,
    ids: Seq<Seq<char>>,
    runs: Seq<(OutcomeKind, Seq<char>)>,
    more: Seq<(OutcomeKind, Seq<char>)>,
    k: int,
)
    requires
        0 <= k <= runs.len(),
    ensures
        run_cases_spec(s, xs, ids, runs + more, k) == run_cases_spec(s, xs, ids, runs, k),
    decreases k,
{
    if k > 0 {
        lemma_run_cases_prefix(s, xs, ids, runs, more, k - 1);
        assert((runs + more)[k - 1] == runs[k - 1]);
    }
}

/// Ids of a sequence of test cases.
pub open spec fn case_ids(cases: Seq<TestCase>) -> Seq<Seq<char>> {
    cases.map_values(|c: TestCase| c.id@)
}

fn ids_of_cases(cases: &Vec<TestCase>) -> (ids: Vec<String>)
    ensures
        ids@.map_values(|s: String| s@) == case_ids(cases@),
{
    let mut ids: Vec<String> = Vec::new();
    for k in 0..cases.len()
        invariant
            ids@.map_values(|s: String| s@) == case_ids(cases@).take(k as int),
    {
        let id = cases[k].id.clone();
        assert(id@ == cases@[k as int].id@);
        let ghost prev = ids@;
        ids.push(id);
        assert(ids@ == prev.push(id));
        assert(ids@.map_values(|s: String| s@) =~= prev.map_values(|s: String| s@).push(
            cases@[k as int].id@,
        ));
        assert(case_ids(cases@).take(k + 1) =~= case_ids(cases@).take(k as int).push(
            cases@[k as int].id@,
        ));
    }
    assert(case_ids(cases@).take(cases@.len() as int) =~= case_ids(cases@));
    ids
}

/// Runs one suite: loads nothing itself (its expected-failure list comes
/// loaded), asks the adapter for the cases, and runs each of them.
fn run_suite(rcc_path: &str, suite: &Suite, xfail: Result<Vec<XFailEntry>, String>) -> (r: SuiteReport)
    ensures
        suite_report_for(rcc_path@, suite, xfail_load_view(xfail), r.suite_name(), r.entries()),
{
    let ghost xv = xfail_load_view(xfail);
    let mut run = SuiteRun::start(suite.name.clone());
    let step = run.xfail_loaded(xfail);
    if step != SuiteStep::Discover {
        let r = run.into_report();
        assert(suite_cases_spec(xv, Err(Seq::<char>::empty()), Seq::empty()) == r.entries());
        return r;
    }
    let ghost xs = run.xfails_of();
    let discovery = suite.adapter.discover(suite.root.as_str());
    let ghost dv = discover_view(discovery);
    let (found, cases) = match discovery {
        Ok(cases) => (Ok(ids_of_cases(&cases)), cases),
        Err(e) => (Err(e), Vec::new()),
    };
    let ghost fv: Result<Seq<Seq<char>>, Seq<char>> = match &found {
        Ok(ids) => Ok(ids@.map_values(|s: String| s@)),
        Err(e) => Err(e@),
    };
    proof {
        if let Ok(cs) = dv {
            assert(cs =~= cases@.map_values(|c: TestCase| c@));
            assert(found_ids(dv)->Ok_0 =~= case_ids(cases@));
        }
    }
    assert(fv == found_ids(dv));
    let discovered_ok = found.is_ok();
    let mut step = run.discovered(found);
    let ghost mut results: Seq<RunView> = Seq::empty();
    if !discovered_ok {
        let r = run.into_report();
        assert(outcomes(results) =~= Seq::<(OutcomeKind, Seq<char>)>::empty());
        assert(answered(rcc_path@, suite, dv, results));
        assert(suite_cases_spec(xv, found_ids(dv), outcomes(results)) == r.entries());
        return r;
    }
    let ghost ids = fv->Ok_0;
    let ghost cvs = dv->Ok_0;
    let n_cases = cases.len();
    assert(ids.len() == n_cases);
    while step != SuiteStep::Finished
        invariant
            ids.len() == n_cases,
            run.wf(),
            step == run.step_of(),
            run.name_of() == suite.name@,
            run.xfails_of() == xs,
            run.ids_of() == ids,
            xv == Ok::<Seq<(Seq<char>, Seq<char>)>, Seq<char>>(xs),
            fv == Ok::<Seq<Seq<char>>, Seq<char>>(ids),
            dv == Ok::<Seq<(Seq<char>, Seq<char>)>, Seq<char>>(cvs),
            cvs == cases@.map_values(|c: TestCase| c@),
            suite.adapter.discovers(suite.root@, dv),
            case_ids(cases@) == ids,
            results.len() <= ids.len(),
            forall|j: int| 0 <= j < results.len() ==> suite.adapter.runs(rcc_path@, cvs[j], #[trigger] results[j]),
            step is RunCase ==> step->RunCase_0 == results.len() && results.len() < ids.len(),
            step is Finished ==> results.len() == ids.len(),
            step is Finished || step is RunCase,
            run.cases_of() == run_cases_spec(
                skip_unmatched(Seq::empty(), xs, ids),
                xs,
                ids,
                outcomes(results),
                results.len() as int,
            ),
        decreases ids.len() - results.len(),
    {
        let k = match step {
            SuiteStep::RunCase(k) => k,
            _ => 0,
        };
        let result = suite.adapter.run(rcc_path, &cases[k]);
        proof {
            let one = seq![run_view(result)];
            lemma_run_cases_prefix(
                skip_unmatched(Seq::empty(), xs, ids),
                xs,
                ids,
                outcomes(results),
                outcomes(one),
                results.len() as int,
            );
            assert(outcomes(results + one) =~= outcomes(results) + outcomes(one));
            assert(outcomes(results + one)[k as int] == run_result_view(result));
            assert(cvs[k as int] == cases@[k as int]@);
            results = results + one;
        }
        assert(run.step_of() == SuiteStep::RunCase(k));
        assert(run.ids_of().len() == ids.len());
        step = run.case_finished(result);
        assert(k == results.len() - 1);
        assert(step == if k + 1 < ids.len() { SuiteStep::RunCase((k + 1) as usize) } else { SuiteStep::Finished });
        proof {
            if k + 1 < ids.len() {
                assert(((k + 1) as usize) as int == k + 1);
            }
        }
    }
    let r = run.into_report();
    assert(answered(rcc_path@, suite, dv, results));
    assert(suite_cases_spec(xv, found_ids(dv), outcomes(results)) == r.entries());
    r
}

/// Run every supplied suite against the `rcc` binary at `rcc_path`;
/// `xfails[i]` is what loading the expected-failure list of `suites[i]`
/// gave.
///
/// Errors from loading, discovery and execution are recorded as failing
/// cases, so a broken adapter does not silently skip a whole suite.
pub fn run_suites(rcc_path: &str, suites: &[Suite], xfails: Vec<Result<Vec<XFailEntry>, String>>) -> (r:
    Report)
    requires
        xfails@.len() == suites@.len(),
    ensures
        r.suites@.len() == suites@.len(),
        forall|i: int|
            0 <= i < suites@.len() ==> suite_report_for(
                rcc_path@,
                &suites@[i],
                xfail_load_view(xfails@[i]),
                #[trigger] r.suites@[i].suite_name(),
                r.suites@[i].entries(),
            ),
{
    let mut report = Report { suites: Vec::new() };
    let mut rest = xfails;
    let mut i: usize = 0;
    while i < suites.len()
        invariant
            i <= suites@.len(),
            xfails@.len() == suites@.len(),
            rest@ == xfails@.skip(i as int),
            report.suites@.len() == i,
            forall|j: int|
                0 <= j < i ==> suite_report_for(
                    rcc_path@,
                    &suites@[j],
                    xfail_load_view(xfails@[j]),
                    #[trigger] report.suites@[j].suite_name(),
                    report.suites@[j].entries(),
                ),
        decreases suites@.len() - i,
    {
        let xfail = rest.remove(0);
        assert(xfail == xfails@[i as int]);
        let sr = run_suite(rcc_path, &suites[i], xfail);
        report.suites.push(sr);
        assert(rest@ =~= xfails@.skip(i + 1));
        i = i + 1;
    }
    report
}

proof fn lemma_skip_unmatched_unique(s: Seq<CaseView>, xs: Seq<(Seq<char>, Seq<char>)>, ids: Seq<Seq<char>>)
    requires
        ids_unique(s),
    ensures
        ids_unique(skip_unmatched(s, xs, ids)),
    decreases xs.len(),
{
    if xs.len() > 0 {
        lemma_skip_unmatched_unique(s, xs.drop_last(), ids);
        let prev = skip_unmatched(s, xs.drop_last(), ids);
        lemma_insert_keeps_ids_unique(prev, xs.last().0, (OutcomeKind::Skip, unmatched_reason(xs.last().1)));
    }
}

proof fn lemma_run_cases_lookup(
    s: Seq<CaseView>,
    xs: Seq<(Seq<char>, Seq<char>)>,
    ids: Seq<Seq<char>>,
    runs: Seq<(OutcomeKind, Seq<char>)>,
    k: int,
    j: int,
)
    requires
        ids_unique(s),
        0 <= k <= ids.len(),
        k <= runs.len(),
        forall|a: int, b: int| 0 <= a < b < ids.len() ==> ids[a] != ids[b],
    ensures
        ids_unique(run_cases_spec(s, xs, ids, runs, k)),
        0 <= j < k ==> lookup_case(run_cases_spec(s, xs, ids, runs, k), ids[j]) == Some(
            apply_xfail_spec(runs[j], xfail_reason(xs, ids[j])),
        ),
    decreases k,
{
    if k > 0 {
        lemma_run_cases_lookup(s, xs, ids, runs, k - 1, j);
        let prev = run_cases_spec(s, xs, ids, runs, k - 1);
        let o = apply_xfail_spec(runs[k - 1], xfail_reason(xs, ids[k - 1]));
        lemma_insert_keeps_ids_unique(prev, ids[k - 1], o);
        if 0 <= j < k {
            lemma_lookup_after_insert(prev, ids[k - 1], o, ids[j]);
        }
    }
}

/// In a suite whose expected-failure list loaded and whose cases were
/// discovered (with distinct ids), every discovered case is reported with
/// the outcome of its run, except that a listed case that did not pass is
/// reported as an expected failure with the listing's reason: a listed case
/// that passed stays a pass, and a listed case is never a failure.
pub proof fn lemma_suite_case_outcome(
    xs: Seq<(Seq<char>, Seq<char>)>,
    ids: Seq<Seq<char>>,
    runs: Seq<(OutcomeKind, Seq<char>)>,
    j: int,
)
    requires
        runs.len() == ids.len(),
        0 <= j < ids.len(),
        forall|a: int, b: int| 0 <= a < b < ids.len() ==> ids[a] != ids[b],
    ensures
        lookup_case(suite_cases_spec(Ok(xs), Ok(ids), runs), ids[j]) == Some(
            apply_xfail_spec(runs[j], xfail_reason(xs, ids[j])),
        ),
        xfail_reason(xs, ids[j]) is Some ==> lookup_case(
            suite_cases_spec(Ok(xs), Ok(ids), runs),
            ids[j],
        )->Some_0.0 != OutcomeKind::Fail,
        (lookup_case(suite_cases_spec(Ok(xs), Ok(ids), runs), ids[j])->Some_0.0
            == OutcomeKind::Pass) == (runs[j].0 == OutcomeKind::Pass),
        (xfail_reason(xs, ids[j]) is Some && runs[j].0 != OutcomeKind::Pass) ==> lookup_case(
            suite_cases_spec(Ok(xs), Ok(ids), runs),
            ids[j],
        ) == Some((OutcomeKind::XFail, xfail_reason(xs, ids[j])->Some_0)),
{
    lemma_skip_unmatched_unique(Seq::empty(), xs, ids);
    lemma_run_cases_lookup(skip_unmatched(Seq::empty(), xs, ids), xs, ids, runs, ids.len() as int, j);
    lemma_xfail_keeps_passes(runs[j], xfail_reason(xs, ids[j]));
}

/// A suite whose expected-failure list does not load, or whose discovery
/// fails, is reported as the single failing case `<xfail>` or
/// `<discovery>` with the error's text; nothing is run.
pub proof fn lemma_suite_setup_failure(
    xs: Seq<(Seq<char>, Seq<char>)>,
    e: Seq<char>,
    runs: Seq<(OutcomeKind, Seq<char>)>,
    found: Result<Seq<Seq<char>>, Seq<char>>,
)
    ensures
        suite_cases_spec(Err(e), found, runs) == seq![("<xfail>"@, (OutcomeKind::Fail, e))],
        suite_cases_spec(Ok(xs), Err(e), runs) == seq![("<discovery>"@, (OutcomeKind::Fail, e))],
{
    lemma_position_of(Seq::<CaseView>::empty(), "<xfail>"@);
    lemma_position_of(Seq::<CaseView>::empty(), "<discovery>"@);
    assert(Seq::<CaseView>::empty().push(("<xfail>"@, (OutcomeKind::Fail, e))) =~= seq![("<xfail>"@, (OutcomeKind::Fail, e))]);
    assert(Seq::<CaseView>::empty().push(("<discovery>"@, (OutcomeKind::Fail, e))) =~= seq![("<discovery>"@, (OutcomeKind::Fail, e))]);
}

} // verus!
