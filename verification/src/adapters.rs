//! The suite adapters: which files of a vendored suite are test cases, how
//! they are named, and how a run of one case is judged.

use vstd::prelude::*;

use crate::order::{case_views, sort_cases, sorted_by_id};
use crate::report::TestCase;
use crate::report::{Outcome, OutcomeKind};
use crate::steps::{command, Command, FailureFormat, concat2, concat3, failure, owned, push_arg, steps_view, strings_view, CommandView, FailureView, Judge, JudgeView, Step, StepView};
use crate::text::{push_str, string_of, str_eq};

verus! {

/// Error of case discovery or of a run step, with its message.
#[derive(Clone, Debug)]
pub struct AdapterError {
    /// Human-readable message.
    pub message: String,
}

/// One directory entry, as the suite logic reads it.
#[derive(Clone, Debug)]
pub struct FileEntry {
    /// Path of the entry, as displayed in messages and stored in test cases.
    pub path: String,
    /// File stem, when the file name has one that is valid UTF-8.
    pub stem: Option<String>,
    /// Extension, when the file name has one that is valid UTF-8.
    pub extension: Option<String>,
    /// Whether the companion expected-output file of the entry exists.
    pub paired: bool,
}

/// View of a directory entry: path, stem, extension, pairing.
pub type FileEntryView = (Seq<char>, Option<Seq<char>>, Option<Seq<char>>, bool);

impl View for FileEntry {
    type V = FileEntryView;

    open spec fn view(&self) -> FileEntryView {
        (
            self.path@,
            match self.stem {
                Some(s) => Some(s@),
                None => None,
            },
            match self.extension {
                Some(s) => Some(s@),
                None => None,
            },
            self.paired,
        )
    }
}

impl FileEntry {
    /// A copy of this entry.
    pub fn duplicate(&self) -> (r: FileEntry)
        ensures
            r@ == self@,
    {
        FileEntry {
            path: self.path.clone(),
            stem: match &self.stem {
                Some(s) => Some(s.clone()),
                None => None,
            },
            extension: match &self.extension {
                Some(s) => Some(s.clone()),
                None => None,
            },
            paired: self.paired,
        }
    }
}

/// A suite directory as read for discovery.
pub struct Listing {
    /// Path of the directory, as displayed in messages.
    pub dir: String,
    /// `None` when the path is not a directory; otherwise its entries, or
    /// the text of the error that listing it gave.
    pub entries: Option<Result<Vec<FileEntry>, String>>,
}

impl Listing {
    /// View of the entries.
    pub open spec fn entries_view(&self) -> Option<Result<Seq<FileEntryView>, Seq<char>>> {
        match self.entries {
            None => None,
            Some(Ok(v)) => Some(Ok(v@.map_values(|e: FileEntry| e@))),
            Some(Err(e)) => Some(Err(e@)),
        }
    }
}

/// Which entries an adapter keeps as test cases.
#[derive(Copy, Clone, Debug, PartialEq, Eq, Structural)]
pub enum CaseFilter {
    /// Every `.c` file.
    AllC,
    /// Every `.c` file whose expected-output file exists.
    PairedC,
    /// Every `.c` file except `common`.
    ChibiccAll,
    /// The chibicc preprocessor fixtures.
    ChibiccPreprocess,
    /// The stage-isolated chibicc fixtures.
    ChibiccStages,
}

/// File stems of the chibicc fixtures that exercise `#define`,
/// `#include` and conditional compilation.
pub open spec fn is_preprocess_fixture(stem: Seq<char>) -> bool {
    stem == "macro"@ || stem == "typedef"@ || stem == "include"@
}

/// File stems of the stage-isolated chibicc fixtures.
pub open spec fn is_stage_fixture(stem: Seq<char>) -> bool {
    stem == "arith"@ || stem == "control"@ || stem == "function"@
}

/// Whether an entry is considered at all (before its stem is read).
pub open spec fn entry_considered(e: FileEntryView, filter: CaseFilter) -> bool {
    &&& e.2 == Some("c"@)
    &&& (filter == CaseFilter::PairedC ==> e.3)
}

/// Whether a considered entry with stem `stem` becomes a test case.
pub open spec fn stem_kept(stem: Seq<char>, filter: CaseFilter) -> bool {
    match filter {
        CaseFilter::AllC => true,
        CaseFilter::PairedC => true,
        CaseFilter::ChibiccAll => stem != "common"@,
        CaseFilter::ChibiccPreprocess => stem != "common"@ && is_preprocess_fixture(stem),
        CaseFilter::ChibiccStages => stem != "common"@ && is_stage_fixture(stem),
    }
}

/// Message for a file name that is not valid UTF-8.
pub open spec fn non_utf8_message(path: Seq<char>) -> Seq<char> {
    "non-UTF-8 filename: "@ + path
}

/// The `(id, path)` pairs that `entries` give, in directory order, or the
/// message of the first considered entry whose stem is not valid UTF-8.
pub open spec fn collect_cases(
    entries: Seq<FileEntryView>,
    filter: CaseFilter,
    prefix: Seq<char>,
) -> Result<Seq<(Seq<char>, Seq<char>)>, Seq<char>>
    decreases entries.len(),
{
    if entries.len() == 0 {
        Ok(Seq::empty())
    } else {
        match collect_cases(entries.drop_last(), filter, prefix) {
            Err(m) => Err(m),
            Ok(prev) => {
                let e = entries.last();
                if !entry_considered(e, filter) {
                    Ok(prev)
                } else {
                    match e.1 {
                        None => Err(non_utf8_message(e.0)),
                        Some(stem) => if stem_kept(stem, filter) {
                            Ok(prev.push((prefix + stem, e.0)))
                        } else {
                            Ok(prev)
                        },
                    }
                }
            },
        }
    }
}

/// Discovery result: the collected cases sorted by id, or an error message.
pub open spec fn discovery_ok(
    result: Result<Vec<TestCase>, AdapterError>,
    expected: Result<Seq<(Seq<char>, Seq<char>)>, Seq<char>>,
) -> bool {
    match (result, expected) {
        (Ok(cases), Ok(pairs)) => {
            &&& sorted_by_id(cases@)
            &&& case_views(cases@).to_multiset() == pairs.to_multiset()
        },
        (Err(err), Err(m)) => err.message@ == m,
        _ => false,
    }
}

/// Whether `stem` keeps an entry for `filter`.
fn keeps_stem(stem: &str, filter: CaseFilter) -> (r: bool)
    ensures
        r == stem_kept(stem@, filter),
{
    let not_common = !str_eq(stem, "common");
    match filter {
        CaseFilter::AllC => true,
        CaseFilter::PairedC => true,
        CaseFilter::ChibiccAll => not_common,
        CaseFilter::ChibiccPreprocess => not_common && (str_eq(stem, "macro") || str_eq(
            stem,
            "typedef",
        ) || str_eq(stem, "include")),
        CaseFilter::ChibiccStages => not_common && (str_eq(stem, "arith") || str_eq(
            stem,
            "control",
        ) || str_eq(stem, "function")),
    }
}

/// The test cases among `entries`, with ids `prefix` + stem, sorted by id.
pub fn select_cases(entries: &[FileEntry], filter: CaseFilter, prefix: &str) -> (r: Result<
    Vec<TestCase>,
    AdapterError,
>)
    ensures
        discovery_ok(r, collect_cases(entries@.map_values(|e: FileEntry| e@), filter, prefix@)),
{
    let ghost views = entries@.map_values(|e: FileEntry| e@);
    let mut cases: Vec<TestCase> = Vec::new();
    assert(views.take(0) == Seq::<FileEntryView>::empty());
    assert(case_views(cases@) == Seq::<(Seq<char>, Seq<char>)>::empty());
    for k in 0..entries.len()
        invariant
            views == entries@.map_values(|e: FileEntry| e@),
            collect_cases(views.take(k as int), filter, prefix@) == Ok::<
                Seq<(Seq<char>, Seq<char>)>,
                Seq<char>,
            >(case_views(cases@)),
    {
        proof {
            assert(views.take(k + 1).drop_last() == views.take(k as int));
        }
        let e = &entries[k];
        let is_c = match &e.extension {
            Some(x) => str_eq(x.as_str(), "c"),
            None => false,
        };
        let considered = is_c && (filter != CaseFilter::PairedC || e.paired);
        if considered {
            match &e.stem {
                None => {
                    let mut m: Vec<char> = Vec::new();
                    push_str(&mut m, "non-UTF-8 filename: ");
                    push_str(&mut m, e.path.as_str());
                    proof {
                        lemma_collect_error_stays(views, k as int + 1, filter, prefix@);
                    }
                    return Err(AdapterError { message: string_of(m.as_slice()) });
                },
                Some(stem) => {
                    if keeps_stem(stem.as_str(), filter) {
                        let mut id: Vec<char> = Vec::new();
                        push_str(&mut id, prefix);
                        push_str(&mut id, stem.as_str());
                        let c = TestCase { id: string_of(id.as_slice()), path: e.path.clone() };
                        let ghost before = case_views(cases@);
                        cases.push(c);
                        assert(case_views(cases@) == before.push(c@));
                    }
                },
            }
        }
    }
    assert(views.take(entries.len() as int) == views);
    let sorted = sort_cases(cases);
    Ok(sorted)
}

/// Once collection fails on a prefix of the entries, it fails with the same
/// message on every longer prefix.
proof fn lemma_collect_error_stays(
    views: Seq<FileEntryView>,
    k: int,
    filter: CaseFilter,
    prefix: Seq<char>,
)
    requires
        0 <= k <= views.len(),
        collect_cases(views.take(k), filter, prefix) is Err,
    ensures
        collect_cases(views, filter, prefix) == collect_cases(views.take(k), filter, prefix),
    decreases views.len() - k,
{
    if k < views.len() {
        assert(views.take(k + 1).drop_last() == views.take(k));
        lemma_collect_error_stays(views, k + 1, filter, prefix);
    } else {
        assert(views.take(k) == views);
    }
}

/// Discovery over a listed directory: a missing directory gives the message
/// `<what> not found: <dir>`, a listing error its own text.
pub open spec fn discover_spec(
    dir: Seq<char>,
    entries: Option<Result<Seq<FileEntryView>, Seq<char>>>,
    what: Seq<char>,
    filter: CaseFilter,
    prefix: Seq<char>,
) -> Result<Seq<(Seq<char>, Seq<char>)>, Seq<char>> {
    match entries {
        None => Err(what + " not found: "@ + dir),
        Some(Err(e)) => Err(e),
        Some(Ok(v)) => collect_cases(v, filter, prefix),
    }
}

/// Discover the test cases of a listed directory.
pub fn discover_listing(listing: &Listing, what: &str, filter: CaseFilter, prefix: &str) -> (r: Result<
    Vec<TestCase>,
    AdapterError,
>)
    ensures
        discovery_ok(r, discover_spec(listing.dir@, listing.entries_view(), what@, filter, prefix@)),
{
    match &listing.entries {
        None => {
            let mut m: Vec<char> = Vec::new();
            push_str(&mut m, what);
            push_str(&mut m, " not found: ");
            push_str(&mut m, listing.dir.as_str());
            Err(AdapterError { message: string_of(m.as_slice()) })
        },
        Some(Err(e)) => Err(AdapterError { message: e.clone() }),
        Some(Ok(v)) => select_cases(v.as_slice(), filter, prefix),
    }
}

/// The files of one case, as the run logic reads them.
#[derive(Clone, Debug)]
pub struct CaseFiles {
    /// Case id.
    pub id: String,
    /// Path of the case's `.c` file.
    pub path: String,
    /// Directory holding the case file, when it has one.
    pub dir: Option<String>,
    /// `common` inside that directory.
    pub dir_common: Option<String>,
    /// `test/common` under the directory above it, when there is one.
    pub suite_common: Option<String>,
    /// File stem of the case file, when it is valid UTF-8.
    pub stem: Option<String>,
    /// File name of the case file, when it has one that is valid UTF-8.
    pub file_name: Option<String>,
    /// Path of the case's expected-output file.
    pub expected: String,
}

/// Scratch files of one run, inside a fresh temporary directory.
#[derive(Clone, Debug)]
pub struct Workspace {
    /// Object file of the case.
    pub obj: String,
    /// Object file of the compiled `common` helper.
    pub common_obj: String,
    /// Object file of the generated support helper.
    pub support_obj: String,
    /// Source file of the generated support helper.
    pub support_src: String,
    /// Linked executable.
    pub exe: String,
    /// Working directory for running the executable.
    pub run_dir: String,
    /// Where a copy of the case file goes inside the working directory,
    /// when the case file has a file name.
    pub run_copy: Option<String>,
}

/// Architecture of the host that runs the suites.
#[derive(Copy, Clone, Debug, PartialEq, Eq, Structural)]
pub enum Arch {
    /// 64-bit x86.
    X86_64,
    /// 32-bit x86.
    X86,
    /// Any other architecture.
    Other,
}

/// The host that runs the suites.
#[derive(Copy, Clone, Debug, PartialEq, Eq, Structural)]
pub struct Host {
    /// Whether the host is Windows.
    pub windows: bool,
    /// The host architecture.
    pub arch: Arch,
}

/// View of an optional string.
pub open spec fn opt_view(s: Option<String>) -> Option<Seq<char>> {
    match s {
        Some(x) => Some(x@),
        None => None,
    }
}

/// Execution mode of [`ChibiccAdapter`].
#[derive(Copy, Clone, Debug, PartialEq, Eq, Structural)]
pub enum ChibiccMode {
    /// Full pipeline: compile every fixture (plus `test/common`), link with
    /// host `cc`, execute, assert exit code 0.
    Compile,
    /// Preprocess-only: run `rcc --emit=pp -I<testdir>` against the
    /// preprocessor fixtures and assert exit code 0.
    Preprocess,
    /// Stage-isolated compile + link + run of `arith.c`, `control.c` and
    /// `function.c`, with support code compiled by host `cc`.
    Stages1To3,
}

/// `chibicc` adapter: runs the `chibicc/test/*.c` files the way chibicc's
/// Makefile does.
#[derive(Copy, Clone, Debug)]
pub struct ChibiccAdapter {
    /// Which pipeline stage the adapter exercises per test case.
    pub mode: ChibiccMode,
}

/// Source of the host-compiled support helper of the stage-isolated mode.
pub const STAGE_SUPPORT_SOURCE: &'static str = "#include <stdio.h>\n#include <stdlib.h>\n\nvoid assert(int expected, int actual, char *code) {\n  if (expected == actual)\n    return;\n  fprintf(stderr, \"%s => %d expected but got %d\\n\", code, expected, actual);\n  exit(1);\n}\n";

/// The skip reason of cases whose output depends on an unspecified
/// evaluation order, by case id.
pub open spec fn eval_order_reason(id: Seq<char>) -> Option<Seq<char>> {
    if id == "chibicc::eval-order"@ {
        Some("stdout depends on unspecified function-argument evaluation order"@)
    } else {
        None
    }
}

/// Failure format of compiling the case with `rcc`.
pub open spec fn rcc_case_failure(path: Seq<char>) -> FailureView {
    ("rcc compilation failed for "@ + path + ": exit "@, "; "@, false, "rcc invocation failed"@)
}

/// Failure format of linking with host `cc`.
pub open spec fn link_failure() -> FailureView {
    ("link failed (exit "@, "): "@, false, "link invocation failed"@)
}

/// The steps of a chibicc case, or the error that prevents running it.
pub open spec fn chibicc_plan(mode: ChibiccMode, f: CaseFiles, w: Workspace) -> Result<Seq<StepView>, Seq<char>> {
    if let Some(reason) = eval_order_reason(f.id@) {
        Ok(seq![StepView::Decided((OutcomeKind::Skip, reason))])
    } else {
        match mode {
            ChibiccMode::Preprocess => match f.dir {
                None => Err("cannot derive directory from "@ + f.path@),
                Some(dir) => Ok(seq![StepView::Final(
                    ("rcc"@, seq!["--emit=pp"@, "-fgnu-permissive-redefinition"@, "-fgnu-named-variadic"@, "-fgnu-permissive-paste"@, "-fgnu-va-args-elision"@, "-I"@, dir@, f.path@], None),
                    JudgeView::Succeeds(("rcc --emit=pp failed for "@ + f.path@ + " (exit "@, "): "@, false, "rcc invocation failed"@)),
                )]),
            },
            ChibiccMode::Stages1To3 => match f.dir {
                None => Err("cannot derive directory from "@ + f.path@),
                Some(dir) => {
                    let compile_test = StepView::Run(
                        ("rcc"@, seq!["--emit=obj"@, "-fgnu-binary-literals"@, "-fgnu-statement-expressions"@, "-fgnu-omitted-conditional-operand"@, "-fgnu-conditional-void-operand"@, "-fgnu-case-ranges"@, "-fgnu-labels-as-values"@, "-fgnu-lvalue-comma"@, "-fgnu-function-names"@, "-fgnu-va-area"@, "-fgnu89-inline"@, "-I"@, dir@, "-o"@, w.obj@, f.path@], None),
                        rcc_case_failure(f.path@),
                    );
                    let support_failure: FailureView = ("stage support compilation failed (exit "@, "): "@, false, "stage support invocation failed"@);
                    let support = if f.id@ == "chibicc::function"@ {
                        let common = f.dir_common->0@;
                        seq![
                            StepView::Require(common, (OutcomeKind::Fail, "stage common helper not found: "@ + common)),
                            StepView::Run(("cc"@, seq!["-std=c99"@, "-c"@, "-x"@, "c"@, common, "-o"@, w.support_obj@], None), support_failure),
                        ]
                    } else {
                        seq![
                            StepView::Write(w.support_src@, STAGE_SUPPORT_SOURCE@),
                            StepView::Run(("cc"@, seq!["-std=c99"@, "-c"@, w.support_src@, "-o"@, w.support_obj@], None), support_failure),
                        ]
                    };
                    Ok(seq![compile_test] + support + seq![
                        StepView::Run(("cc"@, seq!["-o"@, w.exe@, w.obj@, w.support_obj@], None), link_failure()),
                        StepView::Final((w.exe@, Seq::empty(), None), JudgeView::ExitZero),
                    ])
                },
            },
            ChibiccMode::Compile => match f.suite_common {
                None => Err("cannot derive suite root from "@ + f.path@),
                Some(common) => Ok(seq![
                    StepView::Require(common@, (OutcomeKind::Skip, "common helper not found: "@ + common@)),
                    StepView::Run(("rcc"@, seq!["--emit=obj"@, "-o"@, w.obj@, f.path@], None), rcc_case_failure(f.path@)),
                    StepView::Run(("rcc"@, seq!["--emit=obj"@, "-o"@, w.common_obj@, common@], None), ("rcc compilation failed for common: exit "@, "; "@, false, "rcc invocation failed for common"@)),
                    StepView::Run(("cc"@, seq!["-o"@, w.exe@, w.obj@, w.common_obj@], None), link_failure()),
                    StepView::Final((w.exe@, Seq::empty(), None), JudgeView::ExitZero),
                ]),
            },
        }
    }
}

/// Steps view of a plan result.
pub open spec fn plan_view(r: Result<Vec<Step>, AdapterError>) -> Result<Seq<StepView>, Seq<char>> {
    match r {
        Ok(v) => Ok(steps_view(v@)),
        Err(e) => Err(e.message@),
    }
}

impl Default for ChibiccAdapter {
    /// The default adapter runs the full compile pipeline.
    fn default() -> (a: Self)
        ensures
            a.mode == ChibiccMode::Compile,
    {
        Self::compile()
    }
}

impl ChibiccAdapter {
    /// Adapter wired to the full compile + link + run pipeline.
    pub fn compile() -> (a: Self)
        ensures
            a.mode == ChibiccMode::Compile,
    {
        ChibiccAdapter { mode: ChibiccMode::Compile }
    }

    /// Adapter restricted to the preprocessor-only fixtures.
    pub fn preprocess() -> (a: Self)
        ensures
            a.mode == ChibiccMode::Preprocess,
    {
        ChibiccAdapter { mode: ChibiccMode::Preprocess }
    }

    /// Adapter restricted to the stage-1..3 fixtures.
    pub fn stages1_to_3() -> (a: Self)
        ensures
            a.mode == ChibiccMode::Stages1To3,
    {
        ChibiccAdapter { mode: ChibiccMode::Stages1To3 }
    }

    /// File stems of the chibicc fixtures that exercise `#define` /
    /// `#include` / conditional compilation.
    pub fn preprocess_fixtures() -> (v: Vec<&'static str>)
        ensures
            v@.map_values(|s: &str| s@) == seq!["macro"@, "typedef"@, "include"@],
    {
        let v = vec!["macro", "typedef", "include"];
        assert(v@.map_values(|s: &str| s@) =~= seq!["macro"@, "typedef"@, "include"@]);
        v
    }

    /// File stems of the stage-isolated chibicc fixtures.
    pub fn stage_1_to_3_fixtures() -> (v: Vec<&'static str>)
        ensures
            v@.map_values(|s: &str| s@) == seq!["arith"@, "control"@, "function"@],
    {
        let v = vec!["arith", "control", "function"];
        assert(v@.map_values(|s: &str| s@) =~= seq!["arith"@, "control"@, "function"@]);
        v
    }

    /// Minimal host-compiled support source used by stage-isolated mode.
    pub fn stage_support_source() -> (s: &'static str)
        ensures
            s@ == STAGE_SUPPORT_SOURCE@,
    {
        STAGE_SUPPORT_SOURCE
    }

    /// Whether a stage-isolated case needs upstream chibicc `test/common`
    /// instead of the generated one-function support source.
    pub fn uses_stage_common(case_id: &str) -> (r: bool)
        ensures
            r == (case_id@ == "chibicc::function"@),
    {
        str_eq(case_id, "chibicc::function")
    }

    /// Which entries discovery keeps in this adapter's mode.
    pub open spec fn filter_of(mode: ChibiccMode) -> CaseFilter {
        match mode {
            ChibiccMode::Compile => CaseFilter::ChibiccAll,
            ChibiccMode::Preprocess => CaseFilter::ChibiccPreprocess,
            ChibiccMode::Stages1To3 => CaseFilter::ChibiccStages,
        }
    }

    /// Discover the cases of the `test` directory of a chibicc checkout.
    pub fn discover(&self, test_dir: &Listing) -> (r: Result<Vec<TestCase>, AdapterError>)
        ensures
            discovery_ok(
                r,
                discover_spec(
                    test_dir.dir@,
                    test_dir.entries_view(),
                    "chibicc test directory"@,
                    Self::filter_of(self.mode),
                    "chibicc::"@,
                ),
            ),
    {
        let filter = match self.mode {
            ChibiccMode::Compile => CaseFilter::ChibiccAll,
            ChibiccMode::Preprocess => CaseFilter::ChibiccPreprocess,
            ChibiccMode::Stages1To3 => CaseFilter::ChibiccStages,
        };
        discover_listing(test_dir, "chibicc test directory", filter, "chibicc::")
    }

    /// The steps of running the case described by `f`, with scratch files
    /// `w`.
    pub fn plan(&self, f: &CaseFiles, w: &Workspace) -> (r: Result<Vec<Step>, AdapterError>)
        requires
            f.id@ == "chibicc::function"@ && self.mode == ChibiccMode::Stages1To3 && f.dir is Some
                ==> f.dir_common is Some,
        ensures
            plan_view(r) == chibicc_plan(self.mode, *f, *w),
    {
        if let Some(reason) = crate::metadata::unspecified_eval_order_reason(f.id.as_str()) {
            let steps = vec![Step::Decided(Outcome::Skip { reason: owned(reason) })];
            assert(steps_view(steps@) == seq![StepView::Decided((OutcomeKind::Skip, reason@))]);
            return Ok(steps);
        }
        match self.mode {
            ChibiccMode::Preprocess => match &f.dir {
                None => Err(AdapterError { message: concat2("cannot derive directory from ", f.path.as_str()) }),
                Some(dir) => {
                    let mut args: Vec<String> = Vec::new();
                    push_arg(&mut args, "--emit=pp");
                    push_arg(&mut args, "-fgnu-permissive-redefinition");
                    push_arg(&mut args, "-fgnu-named-variadic");
                    push_arg(&mut args, "-fgnu-permissive-paste");
                    push_arg(&mut args, "-fgnu-va-args-elision");
                    push_arg(&mut args, "-I");
                    push_arg(&mut args, dir.as_str());
                    push_arg(&mut args, f.path.as_str());
                    assert(strings_view(args@) =~= seq!["--emit=pp"@, "-fgnu-permissive-redefinition"@, "-fgnu-named-variadic"@, "-fgnu-permissive-paste"@, "-fgnu-va-args-elision"@, "-I"@, dir@, f.path@]);
                    let fmt = failure(concat3("rcc --emit=pp failed for ", f.path.as_str(), " (exit "), "): ", false, "rcc invocation failed");
                    let steps = vec![Step::Final(command("rcc", args), Judge::Succeeds(fmt))];
                    assert(steps_view(steps@) =~~= chibicc_plan(self.mode, *f, *w)->Ok_0);
                    Ok(steps)
                },
            },
            ChibiccMode::Stages1To3 => match &f.dir {
                None => Err(AdapterError { message: concat2("cannot derive directory from ", f.path.as_str()) }),
                Some(dir) => {
                    let mut args: Vec<String> = Vec::new();
                    push_arg(&mut args, "--emit=obj");
                    push_arg(&mut args, "-fgnu-binary-literals");
                    push_arg(&mut args, "-fgnu-statement-expressions");
                    push_arg(&mut args, "-fgnu-omitted-conditional-operand");
                    push_arg(&mut args, "-fgnu-conditional-void-operand");
                    push_arg(&mut args, "-fgnu-case-ranges");
                    push_arg(&mut args, "-fgnu-labels-as-values");
                    push_arg(&mut args, "-fgnu-lvalue-comma");
                    push_arg(&mut args, "-fgnu-function-names");
                    push_arg(&mut args, "-fgnu-va-area");
                    push_arg(&mut args, "-fgnu89-inline");
                    push_arg(&mut args, "-I");
                    push_arg(&mut args, dir.as_str());
                    push_arg(&mut args, "-o");
                    push_arg(&mut args, w.obj.as_str());
                    push_arg(&mut args, f.path.as_str());
                    assert(strings_view(args@) =~= seq!["--emit=obj"@, "-fgnu-binary-literals"@, "-fgnu-statement-expressions"@, "-fgnu-omitted-conditional-operand"@, "-fgnu-conditional-void-operand"@, "-fgnu-case-ranges"@, "-fgnu-labels-as-values"@, "-fgnu-lvalue-comma"@, "-fgnu-function-names"@, "-fgnu-va-area"@, "-fgnu89-inline"@, "-I"@, dir@, "-o"@, w.obj@, f.path@]);
                    let mut steps: Vec<Step> = Vec::new();
                    steps.push(Step::Run(command("rcc", args), failure(concat3("rcc compilation failed for ", f.path.as_str(), ": exit "), "; ", false, "rcc invocation failed")));
                    let mut sargs: Vec<String> = Vec::new();
                    push_arg(&mut sargs, "-std=c99");
                    push_arg(&mut sargs, "-c");
                    if Self::uses_stage_common(f.id.as_str()) {
                        let common = f.dir_common.as_ref().unwrap();
                        push_arg(&mut sargs, "-x");
                        push_arg(&mut sargs, "c");
                        push_arg(&mut sargs, common.as_str());
                        steps.push(Step::Require(common.clone(), Outcome::Fail { reason: concat2("stage common helper not found: ", common.as_str()) }));
                    } else {
                        push_arg(&mut sargs, w.support_src.as_str());
                        steps.push(Step::Write(w.support_src.clone(), owned(STAGE_SUPPORT_SOURCE)));
                    }
                    push_arg(&mut sargs, "-o");
                    push_arg(&mut sargs, w.support_obj.as_str());
                    assert(f.id@ == "chibicc::function"@ ==> strings_view(sargs@) =~= seq!["-std=c99"@, "-c"@, "-x"@, "c"@, f.dir_common->0@, "-o"@, w.support_obj@]);
                    assert(f.id@ != "chibicc::function"@ ==> strings_view(sargs@) =~= seq!["-std=c99"@, "-c"@, w.support_src@, "-o"@, w.support_obj@]);
                    steps.push(Step::Run(command("cc", sargs), failure(owned("stage support compilation failed (exit "), "): ", false, "stage support invocation failed")));
                    let mut largs: Vec<String> = Vec::new();
                    push_arg(&mut largs, "-o");
                    push_arg(&mut largs, w.exe.as_str());
                    push_arg(&mut largs, w.obj.as_str());
                    push_arg(&mut largs, w.support_obj.as_str());
                    assert(strings_view(largs@) =~= seq!["-o"@, w.exe@, w.obj@, w.support_obj@]);
                    steps.push(Step::Run(command("cc", largs), failure(owned("link failed (exit "), "): ", false, "link invocation failed")));
                    let no_args: Vec<String> = Vec::new();
                    assert(strings_view(no_args@) == Seq::<Seq<char>>::empty());
                    steps.push(Step::Final(Command { program: w.exe.clone(), args: no_args, current_dir: None }, Judge::ExitZero));
                    proof {
                        let p = chibicc_plan(self.mode, *f, *w)->Ok_0;
                        let sv = steps_view(steps@);
                        assert(sv.len() == 5);
                        assert(sv[0] == p[0]);
                        assert(sv[1] == p[1]);
                        assert(sv[2] == p[2]);
                        assert(sv[3] == p[3]);
                        assert(sv[4] == p[4]);
                        assert(sv =~= p);
                    }
                    Ok(steps)
                },
            },
            ChibiccMode::Compile => match &f.suite_common {
                None => Err(AdapterError { message: concat2("cannot derive suite root from ", f.path.as_str()) }),
                Some(common) => {
                    let mut steps: Vec<Step> = Vec::new();
                    steps.push(Step::Require(common.clone(), Outcome::Skip { reason: concat2("common helper not found: ", common.as_str()) }));
                    let mut a1: Vec<String> = Vec::new();
                    push_arg(&mut a1, "--emit=obj");
                    push_arg(&mut a1, "-o");
                    push_arg(&mut a1, w.obj.as_str());
                    push_arg(&mut a1, f.path.as_str());
                    assert(strings_view(a1@) =~= seq!["--emit=obj"@, "-o"@, w.obj@, f.path@]);
                    steps.push(Step::Run(command("rcc", a1), failure(concat3("rcc compilation failed for ", f.path.as_str(), ": exit "), "; ", false, "rcc invocation failed")));
                    let mut a2: Vec<String> = Vec::new();
                    push_arg(&mut a2, "--emit=obj");
                    push_arg(&mut a2, "-o");
                    push_arg(&mut a2, w.common_obj.as_str());
                    push_arg(&mut a2, common.as_str());
                    assert(strings_view(a2@) =~= seq!["--emit=obj"@, "-o"@, w.common_obj@, common@]);
                    steps.push(Step::Run(command("rcc", a2), failure(owned("rcc compilation failed for common: exit "), "; ", false, "rcc invocation failed for common")));
                    let mut a3: Vec<String> = Vec::new();
                    push_arg(&mut a3, "-o");
                    push_arg(&mut a3, w.exe.as_str());
                    push_arg(&mut a3, w.obj.as_str());
                    push_arg(&mut a3, w.common_obj.as_str());
                    assert(strings_view(a3@) =~= seq!["-o"@, w.exe@, w.obj@, w.common_obj@]);
                    steps.push(Step::Run(command("cc", a3), failure(owned("link failed (exit "), "): ", false, "link invocation failed")));
                    let no_args: Vec<String> = Vec::new();
                    assert(strings_view(no_args@) == Seq::<Seq<char>>::empty());
                    steps.push(Step::Final(Command { program: w.exe.clone(), args: no_args, current_dir: None }, Judge::ExitZero));
                    proof {
                        let p = chibicc_plan(self.mode, *f, *w)->Ok_0;
                        let sv = steps_view(steps@);
                        assert(sv.len() == 5);
                        assert(sv[0] == p[0]);
                        assert(sv[1] == p[1]);
                        assert(sv[2] == p[2]);
                        assert(sv[3] == p[3]);
                        assert(sv[4] == p[4]);
                        assert(sv =~= p);
                    }
                    Ok(steps)
                },
            },
        }
    }
}

/// `c-testsuite` adapter: `tests/single-exec/*.c`, judged by comparing
/// stdout with `<name>.c.expected`.
#[derive(Copy, Clone, Debug)]
pub struct CTestSuiteAdapter;

/// Failure format of compiling a case with `rcc` and reporting the exit
/// status in parentheses.
pub open spec fn rcc_exit_failure(combined: bool) -> FailureView {
    ("rcc compilation failed (exit "@, "): "@, combined, "rcc invocation failed"@)
}

/// The steps of a c-testsuite case.
pub open spec fn ctestsuite_plan(f: CaseFiles, w: Workspace, host: Host) -> Seq<StepView> {
    if let Some(reason) = eval_order_reason(f.id@) {
        seq![StepView::Decided((OutcomeKind::Skip, reason))]
    } else {
        let link_args = seq!["-o"@, w.exe@, w.obj@] + if host.windows {
            Seq::<Seq<char>>::empty()
        } else {
            seq!["-lm"@]
        };
        seq![
            StepView::Require(f.expected@, (OutcomeKind::Skip, "no .expected file for "@ + f.id@)),
            StepView::Run(("rcc"@, seq!["--emit=obj"@, "-o"@, w.obj@, f.path@], None), rcc_exit_failure(false)),
            StepView::Run(("cc"@, link_args, None), link_failure()),
            StepView::Final((w.exe@, Seq::empty(), None), JudgeView::CTestSuite),
        ]
    }
}

impl CTestSuiteAdapter {
    /// Compare a program run with the case's `.expected` file: the exit
    /// code must be 0 and stdout must match byte-for-byte once CR LF pairs
    /// become LF on both sides.
    pub fn compare_outcome(actual_stdout: &[u8], exit_code: Option<i32>, expected: &crate::compare::ExpectedFile) -> (o: Outcome)
        ensures
            o@ == crate::compare::ctestsuite_outcome(actual_stdout@, exit_code, expected.path@, expected.contents_view()),
    {
        crate::compare::ctestsuite_compare(actual_stdout, exit_code, expected)
    }

    /// Discover the cases of the `tests/single-exec` directory.
    pub fn discover(&self, single_exec: &Listing) -> (r: Result<Vec<TestCase>, AdapterError>)
        ensures
            discovery_ok(
                r,
                discover_spec(
                    single_exec.dir@,
                    single_exec.entries_view(),
                    "c-testsuite single-exec directory"@,
                    CaseFilter::AllC,
                    "c-testsuite::"@,
                ),
            ),
    {
        discover_listing(single_exec, "c-testsuite single-exec directory", CaseFilter::AllC, "c-testsuite::")
    }

    /// The steps of running a case.
    pub fn plan(&self, f: &CaseFiles, w: &Workspace, host: Host) -> (r: Vec<Step>)
        ensures
            steps_view(r@) == ctestsuite_plan(*f, *w, host),
    {
        if let Some(reason) = crate::metadata::unspecified_eval_order_reason(f.id.as_str()) {
            let steps = vec![Step::Decided(Outcome::Skip { reason: owned(reason) })];
            assert(steps_view(steps@) == seq![StepView::Decided((OutcomeKind::Skip, reason@))]);
            return steps;
        }
        let mut steps: Vec<Step> = Vec::new();
        steps.push(Step::Require(f.expected.clone(), Outcome::Skip { reason: concat2("no .expected file for ", f.id.as_str()) }));
        let mut a1: Vec<String> = Vec::new();
        push_arg(&mut a1, "--emit=obj");
        push_arg(&mut a1, "-o");
        push_arg(&mut a1, w.obj.as_str());
        push_arg(&mut a1, f.path.as_str());
        assert(strings_view(a1@) =~= seq!["--emit=obj"@, "-o"@, w.obj@, f.path@]);
        steps.push(Step::Run(command("rcc", a1), failure(owned("rcc compilation failed (exit "), "): ", false, "rcc invocation failed")));
        let mut a2: Vec<String> = Vec::new();
        push_arg(&mut a2, "-o");
        push_arg(&mut a2, w.exe.as_str());
        push_arg(&mut a2, w.obj.as_str());
        if !host.windows {
            push_arg(&mut a2, "-lm");
        }
        assert(strings_view(a2@) =~= seq!["-o"@, w.exe@, w.obj@] + if host.windows {
            Seq::<Seq<char>>::empty()
        } else {
            seq!["-lm"@]
        });
        steps.push(Step::Run(command("cc", a2), failure(owned("link failed (exit "), "): ", false, "link invocation failed")));
        let no_args: Vec<String> = Vec::new();
        assert(strings_view(no_args@) == Seq::<Seq<char>>::empty());
        steps.push(Step::Final(Command { program: w.exe.clone(), args: no_args, current_dir: None }, Judge::CTestSuite));
        proof {
            let p = ctestsuite_plan(*f, *w, host);
            let sv = steps_view(steps@);
            assert(sv[0] == p[0]);
            assert(sv[1] == p[1]);
            assert(sv[2] == p[2]);
            assert(sv[3] == p[3]);
            assert(sv =~= p);
        }
        steps
    }
}

/// How much of gcc-torture a [`GccTortureAdapter`] runs.
#[derive(Copy, Clone, Debug, PartialEq, Eq, Structural)]
pub enum GccTortureMode {
    /// The tracked smoke subset.
    Smoke,
    /// Every `gcc.c-torture/execute/*.c` file.
    FullExecute,
}

/// `gcc-torture` adapter.
#[derive(Copy, Clone, Debug)]
pub struct GccTortureAdapter {
    /// Which cases run.
    pub mode: GccTortureMode,
}

/// Message of a smoke-subset entry that is not a clean relative path.
pub open spec fn unclean_entry_message(path: Seq<char>, line_no: nat) -> Seq<char> {
    path + ":"@ + crate::text::decimal(line_no) + ": subset entries must be clean relative paths"@
}

/// Whether a path without backslashes is absolute by the host's rules: on
/// Windows, one that begins with two slashes (a network or device prefix)
/// or with a drive letter, a colon and a slash; elsewhere, one that begins
/// with a slash.
pub open spec fn absolute_path(line: Seq<char>, windows: bool) -> bool {
    if windows {
        (line.len() >= 2 && line[0] == '/' && line[1] == '/') || (line.len() >= 3
            && crate::build_support::is_ascii_letter(line[0]) && line[1] == ':' && line[2] == '/')
    } else {
        line.len() > 0 && line[0] == '/'
    }
}

/// Whether a smoke-subset entry is a clean relative path: no backslash, not
/// absolute on the host, no `..`.
pub open spec fn clean_entry(line: Seq<char>, windows: bool) -> bool {
    &&& !line.contains('\\')
    &&& !absolute_path(line, windows)
    &&& !crate::lines::contains_sub(line, ".."@)
}

/// The entries of a smoke-subset text: trimmed lines that are neither empty
/// nor comments, or the message of the first unclean one.
pub open spec fn subset_entries(lines: Seq<Seq<char>>, path: Seq<char>, windows: bool) -> Result<
    Seq<Seq<char>>,
    Seq<char>,
>
    decreases lines.len(),
{
    if lines.len() == 0 {
        Ok(Seq::empty())
    } else {
        match subset_entries(lines.drop_last(), path, windows) {
            Err(m) => Err(m),
            Ok(prev) => {
                let line = crate::lines::trim(lines.last());
                if line.len() == 0 || line[0] == '#' {
                    Ok(prev)
                } else if !clean_entry(line, windows) {
                    Err(unclean_entry_message(path, lines.len()))
                } else {
                    Ok(prev.push(line))
                }
            },
        }
    }
}

/// The smoke subset listed by a subset file's text.
pub open spec fn smoke_subset_spec(path: Seq<char>, text: Result<Seq<char>, Seq<char>>, windows: bool) -> Result<
    Seq<Seq<char>>,
    Seq<char>,
> {
    match text {
        Err(e) => Err("cannot read "@ + path + ": "@ + e),
        Ok(t) => match subset_entries(crate::lines::lines_of(t), path, windows) {
            Err(m) => Err(m),
            Ok(v) => if v.len() == 0 {
                Err(path + " contains no smoke cases"@)
            } else {
                Ok(v)
            },
        },
    }
}

/// The ids and paths of gcc-torture case files, in order, or the message of
/// the first that is missing or has no UTF-8 stem.
pub open spec fn gcc_cases(files: Seq<FileEntryView>) -> Result<Seq<(Seq<char>, Seq<char>)>, Seq<char>>
    decreases files.len(),
{
    if files.len() == 0 {
        Ok(Seq::empty())
    } else {
        match gcc_cases(files.drop_last()) {
            Err(m) => Err(m),
            Ok(prev) => {
                let e = files.last();
                if !e.3 {
                    Err("gcc-torture case not found: "@ + e.0)
                } else {
                    match e.1 {
                        None => Err(non_utf8_message(e.0)),
                        Some(stem) => Ok(prev.push(("gcc-torture::execute::"@ + stem, e.0))),
                    }
                }
            },
        }
    }
}

/// Flags of the full-execute mode.
pub open spec fn gcc_full_flags() -> Seq<Seq<char>> {
    seq!["-fgnu-binary-literals"@, "-fgnu-statement-expressions"@, "-fgnu-omitted-conditional-operand"@, "-fgnu-conditional-void-operand"@, "-fgnu-permissive-redefinition"@, "-fgnu-named-variadic"@, "-fgnu-permissive-paste"@, "-fgnu-va-args-elision"@, "-fgnu-range-designators"@, "-fgnu-attributes"@, "-fgnu-inline-asm"@, "-fgnu-case-ranges"@, "-fgnu-labels-as-values"@, "-fgnu-lvalue-comma"@, "-fgnu-alignof"@, "-fgnu-function-names"@, "-fgnu89-inline"@, "-fgnu-builtin-libcalls"@]
}

/// Whether a test source asks for `flag` on one of its `dg-options` lines.
pub open spec fn requests_flag(source: Seq<char>, flag: Seq<char>) -> bool {
    exists|i: int|
        0 <= i < crate::lines::lines_of(source).len() && crate::lines::contains_sub(
            #[trigger] crate::lines::lines_of(source)[i],
            "dg-options"@,
        ) && crate::lines::contains_sub(crate::lines::lines_of(source)[i], flag)
}

/// The steps of a gcc-torture case; `source` is the case's text when it
/// could be read.
pub open spec fn gcc_plan(mode: GccTortureMode, f: CaseFiles, w: Workspace, source: Option<Seq<char>>) -> Seq<StepView> {
    let flags = if mode == GccTortureMode::FullExecute {
        gcc_full_flags() + if source is Some && requests_flag(source->0, "-finstrument-functions"@) {
            seq!["-finstrument-functions"@]
        } else {
            Seq::<Seq<char>>::empty()
        }
    } else {
        Seq::<Seq<char>>::empty()
    };
    seq![
        StepView::Run(("rcc"@, seq!["-w"@] + flags + seq!["-o"@, w.exe@, f.path@], None), ("rcc compile/link failed (exit "@, "): "@, false, "rcc invocation failed"@)),
        StepView::Final((w.exe@, Seq::empty(), None), JudgeView::ExitZero),
    ]
}

impl GccTortureAdapter {
    /// Smoke subset list relative to the fetched gcc-torture checkout.
    pub const SMOKE_SUBSET: &'static str = "smoke-subset.txt";

    /// Run only the tracked smoke subset.
    pub fn smoke() -> (a: Self)
        ensures
            a.mode == GccTortureMode::Smoke,
    {
        GccTortureAdapter { mode: GccTortureMode::Smoke }
    }

    /// Run every `gcc.c-torture/execute/*.c` file.
    pub fn full_execute() -> (a: Self)
        ensures
            a.mode == GccTortureMode::FullExecute,
    {
        GccTortureAdapter { mode: GccTortureMode::FullExecute }
    }

    /// Whether `source` asks for `flag` on one of its `dg-options` lines.
    pub fn case_requests_flag(source: &str, flag: &str) -> (r: bool)
        ensures
            r == requests_flag(source@, flag@),
    {
        let text = crate::text::chars_of(source);
        let ls = crate::lines::lines(text.as_slice());
        let pat = crate::text::chars_of("dg-options");
        let f = crate::text::chars_of(flag);
        let ghost lv = ls@.map_values(|l: Vec<char>| l@);
        for i in 0..ls.len()
            invariant
                lv == ls@.map_values(|l: Vec<char>| l@),
                lv == crate::lines::lines_of(source@),
                pat@ == "dg-options"@,
                f@ == flag@,
                forall|j: int| 0 <= j < i ==> !(crate::lines::contains_sub(lv[j], "dg-options"@) && crate::lines::contains_sub(lv[j], flag@)),
        {
            if crate::lines::has_sub(ls[i].as_slice(), pat.as_slice()) && crate::lines::has_sub(ls[i].as_slice(), f.as_slice()) {
                assert(crate::lines::contains_sub(lv[i as int], "dg-options"@));
                return true;
            }
        }
        false
    }

    /// The entries of a smoke-subset file whose path is displayed as `path`
    /// and whose text (or read error) is `text`, on a Windows host when
    /// `windows`.
    pub fn read_smoke_subset(path: &str, text: Result<&str, &str>, windows: bool) -> (r: Result<
        Vec<String>,
        AdapterError,
    >)
        ensures
            match smoke_subset_spec(path@, match text { Ok(t) => Ok(t@), Err(e) => Err(e@) }, windows) {
                Ok(v) => r matches Ok(x) && strings_view(x@) == v,
                Err(m) => r matches Err(e) && e.message@ == m,
            },
    {
        let t = match text {
            Err(e) => {
                let mut m: Vec<char> = Vec::new();
                push_str(&mut m, "cannot read ");
                push_str(&mut m, path);
                push_str(&mut m, ": ");
                push_str(&mut m, e);
                return Err(AdapterError { message: string_of(m.as_slice()) });
            },
            Ok(t) => t,
        };
        let chars = crate::text::chars_of(t);
        let ls = crate::lines::lines(chars.as_slice());
        let ghost lv = ls@.map_values(|l: Vec<char>| l@);
        let dots = crate::text::chars_of("..");
        let mut files: Vec<String> = Vec::new();
        assert(lv.take(0) == Seq::<Seq<char>>::empty());
        assert(strings_view(files@) == Seq::<Seq<char>>::empty());
        for idx in 0..ls.len()
            invariant
                lv == ls@.map_values(|l: Vec<char>| l@),
                lv == crate::lines::lines_of(t@),
                text matches Ok(x) && x@ == t@,
                dots@ == ".."@,
                subset_entries(lv.take(idx as int), path@, windows) == Ok::<Seq<Seq<char>>, Seq<char>>(strings_view(files@)),
        {
            assert(lv.take(idx + 1).drop_last() == lv.take(idx as int));
            let line = crate::lines::trim_chars(ls[idx].as_slice());
            if line.len() > 0 && line[0] != '#' {
                let mut backslash = false;
                for k in 0..line.len()
                    invariant
                        backslash == exists|j: int| 0 <= j < k && line@[j] == '\\',
                {
                    if line[k] == '\\' {
                        backslash = true;
                    }
                }
                let n = line.len();
                let absolute = if windows {
                    (n >= 2 && line[0] == '/' && line[1] == '/') || (n >= 3 && (('a' <= line[0] && line[0] <= 'z') || (
                    'A' <= line[0] && line[0] <= 'Z')) && line[1] == ':' && line[2] == '/')
                } else {
                    line[0] == '/'
                };
                if backslash || absolute || crate::lines::has_sub(line.as_slice(), dots.as_slice()) {
                    let mut m: Vec<char> = Vec::new();
                    push_str(&mut m, path);
                    push_str(&mut m, ":");
                    let n = crate::text::decimal_u64(idx as u64 + 1);
                    crate::text::push_chars(&mut m, n.as_slice());
                    push_str(&mut m, ": subset entries must be clean relative paths");
                    proof {
                        assert(lv.take(idx + 1).len() == idx + 1);
                        lemma_subset_error_stays(lv, idx as int + 1, path@, windows);
                    }
                    return Err(AdapterError { message: string_of(m.as_slice()) });
                }
                let ghost before = strings_view(files@);
                files.push(string_of(line.as_slice()));
                assert(strings_view(files@) == before.push(line@));
            }
        }
        assert(lv.take(ls.len() as int) == lv);
        if files.len() == 0 {
            let mut m: Vec<char> = Vec::new();
            push_str(&mut m, path);
            push_str(&mut m, " contains no smoke cases");
            return Err(AdapterError { message: string_of(m.as_slice()) });
        }
        Ok(files)
    }

    /// Discover the cases of a full gcc-torture `execute` directory.
    pub fn discover_full_execute(execute: &Listing) -> (r: Result<Vec<FileEntry>, AdapterError>)
        ensures
            match execute.entries_view() {
                None => r matches Err(e) && e.message@ == "gcc-torture execute directory not found: "@ + execute.dir@,
                Some(Err(m)) => r matches Err(e) && e.message@ == "cannot read "@ + execute.dir@ + ": "@ + m,
                Some(Ok(v)) => {
                    let c = v.filter(|e: FileEntryView| e.2 == Some("c"@));
                    if c.len() == 0 {
                        r matches Err(e) && e.message@ == execute.dir@ + " contains no .c files"@
                    } else {
                        r matches Ok(x) && x@.map_values(|e: FileEntry| e@) == c
                    }
                },
            },
    {
        match &execute.entries {
            None => Err(AdapterError { message: concat2("gcc-torture execute directory not found: ", execute.dir.as_str()) }),
            Some(Err(e)) => Err(AdapterError { message: concat3("cannot read ", execute.dir.as_str(), concat2(": ", e.as_str()).as_str()) }),
            Some(Ok(v)) => {
                let ghost vv = v@.map_values(|e: FileEntry| e@);
                let mut out: Vec<FileEntry> = Vec::new();
                for k in 0..v.len()
                    invariant
                        vv == v@.map_values(|e: FileEntry| e@),
                        out@.map_values(|e: FileEntry| e@) == vv.take(k as int).filter(|e: FileEntryView| e.2 == Some("c"@)),
                {
                    assert(vv.take(k + 1).drop_last() == vv.take(k as int));
                    reveal_with_fuel(Seq::filter, 1);
                    let is_c = match &v[k].extension {
                        Some(x) => str_eq(x.as_str(), "c"),
                        None => false,
                    };
                    if is_c {
                        let ghost before = out@.map_values(|e: FileEntry| e@);
                        out.push(v[k].duplicate());
                        assert(out@.map_values(|e: FileEntry| e@) == before.push(v@[k as int]@));
                    }
                }
                assert(vv.take(v.len() as int) == vv);
                if out.len() == 0 {
                    Err(AdapterError { message: concat2(execute.dir.as_str(), " contains no .c files") })
                } else {
                    Ok(out)
                }
            },
        }
    }

    /// The test cases of the given case files, sorted by id: each file must
    /// exist and have a UTF-8 stem.
    pub fn discover(&self, files: &[FileEntry]) -> (r: Result<Vec<TestCase>, AdapterError>)
        ensures
            discovery_ok(r, gcc_cases(files@.map_values(|e: FileEntry| e@))),
    {
        let ghost views = files@.map_values(|e: FileEntry| e@);
        let mut cases: Vec<TestCase> = Vec::new();
        assert(views.take(0) == Seq::<FileEntryView>::empty());
        assert(case_views(cases@) == Seq::<(Seq<char>, Seq<char>)>::empty());
        for k in 0..files.len()
            invariant
                views == files@.map_values(|e: FileEntry| e@),
                gcc_cases(views.take(k as int)) == Ok::<Seq<(Seq<char>, Seq<char>)>, Seq<char>>(case_views(cases@)),
        {
            assert(views.take(k + 1).drop_last() == views.take(k as int));
            let e = &files[k];
            if !e.paired {
                proof {
                    lemma_gcc_error_stays(views, k as int + 1);
                }
                return Err(AdapterError { message: concat2("gcc-torture case not found: ", e.path.as_str()) });
            }
            match &e.stem {
                None => {
                    proof {
                        lemma_gcc_error_stays(views, k as int + 1);
                    }
                    return Err(AdapterError { message: concat2("non-UTF-8 filename: ", e.path.as_str()) });
                },
                Some(stem) => {
                    let c = TestCase { id: concat2("gcc-torture::execute::", stem.as_str()), path: e.path.clone() };
                    let ghost before = case_views(cases@);
                    cases.push(c);
                    assert(case_views(cases@) == before.push(c@));
                },
            }
        }
        assert(views.take(files.len() as int) == views);
        Ok(sort_cases(cases))
    }

    /// The steps of running a case; `source` is the case's text when it
    /// could be read.
    pub fn plan(&self, f: &CaseFiles, w: &Workspace, source: Option<&str>) -> (r: Vec<Step>)
        ensures
            steps_view(r@) == gcc_plan(self.mode, *f, *w, match source { Some(s) => Some(s@), None => None }),
    {
        let mut args: Vec<String> = Vec::new();
        push_arg(&mut args, "-w");
        let ghost start = strings_view(args@);
        if self.mode == GccTortureMode::FullExecute {
            push_arg(&mut args, "-fgnu-binary-literals");
            push_arg(&mut args, "-fgnu-statement-expressions");
            push_arg(&mut args, "-fgnu-omitted-conditional-operand");
            push_arg(&mut args, "-fgnu-conditional-void-operand");
            push_arg(&mut args, "-fgnu-permissive-redefinition");
            push_arg(&mut args, "-fgnu-named-variadic");
            push_arg(&mut args, "-fgnu-permissive-paste");
            push_arg(&mut args, "-fgnu-va-args-elision");
            push_arg(&mut args, "-fgnu-range-designators");
            push_arg(&mut args, "-fgnu-attributes");
            push_arg(&mut args, "-fgnu-inline-asm");
            push_arg(&mut args, "-fgnu-case-ranges");
            push_arg(&mut args, "-fgnu-labels-as-values");
            push_arg(&mut args, "-fgnu-lvalue-comma");
            push_arg(&mut args, "-fgnu-alignof");
            push_arg(&mut args, "-fgnu-function-names");
            push_arg(&mut args, "-fgnu89-inline");
            push_arg(&mut args, "-fgnu-builtin-libcalls");
            assert(strings_view(args@) =~= start + gcc_full_flags());
            let requested = match source {
                Some(src) => Self::case_requests_flag(src, "-finstrument-functions"),
                None => false,
            };
            if requested {
                push_arg(&mut args, "-finstrument-functions");
            }
        }
        push_arg(&mut args, "-o");
        push_arg(&mut args, w.exe.as_str());
        push_arg(&mut args, f.path.as_str());
        let ghost src = match source { Some(s) => Some(s@), None => None };
        assert(strings_view(args@) =~= gcc_plan(self.mode, *f, *w, src)[0]->Run_0.1);
        let mut steps: Vec<Step> = Vec::new();
        steps.push(Step::Run(command("rcc", args), failure(owned("rcc compile/link failed (exit "), "): ", false, "rcc invocation failed")));
        let no_args: Vec<String> = Vec::new();
        assert(strings_view(no_args@) == Seq::<Seq<char>>::empty());
        steps.push(Step::Final(Command { program: w.exe.clone(), args: no_args, current_dir: None }, Judge::ExitZero));
        proof {
            let p = gcc_plan(self.mode, *f, *w, src);
            let sv = steps_view(steps@);
            assert(sv[0] == p[0]);
            assert(sv[1] == p[1]);
            assert(sv =~= p);
        }
        steps
    }
}

/// `tcc-tests2` adapter.
#[derive(Copy, Clone, Debug)]
pub struct TccTests2Adapter;

/// Why a tests2 fixture cannot run on `host`, by stem.
pub open spec fn platform_skip(stem: Seq<char>, host: Host) -> Option<Seq<char>> {
    if stem == "34_array_assignment"@ {
        Some("array assignment is not C"@)
    } else if stem == "73_arm64"@ && host.arch == Arch::X86_64 {
        Some("arm64-specific ABI fixture"@)
    } else if (stem == "98_al_ax_extend"@ || stem == "99_fastcall"@) && host.arch != Arch::X86 {
        Some("i386-specific assembly/calling-convention fixture"@)
    } else {
        None
    }
}

/// Why a tests2 fixture exercises a feature that rcc does not offer, by stem.
pub open spec fn unsupported_extension(stem: Seq<char>) -> Option<Seq<char>> {
    if stem == "60_errors_and_warnings"@ || stem == "96_nodata_wanted"@ {
        Some("tcc -dt diagnostic/data-section test mode is not an rcc feature"@)
    } else if stem == "76_dollars_in_identifiers"@ {
        Some("TinyCC/GNU dollar identifiers are not supported by rcc"@)
    } else {
        None
    }
}

/// Command-line arguments of a tests2 fixture program, by stem.
pub open spec fn tcc_runtime_args(stem: Seq<char>, file_name: Option<Seq<char>>) -> Seq<Seq<char>> {
    if stem == "31_args"@ {
        seq!["arg1"@, "arg2"@, "arg3"@, "arg4"@, "arg5"@]
    } else if stem == "46_grep"@ {
        seq![
            "[^* ]*[:a:d: ]+\\:\\*-/: $"@,
            match file_name {
                Some(n) => n,
                None => "46_grep.c"@,
            },
        ]
    } else {
        Seq::empty()
    }
}

/// Compiler flags for every tests2 fixture.
pub open spec fn tcc_flags() -> Seq<Seq<char>> {
    seq!["-w"@, "-fgnu-binary-literals"@, "-fgnu-statement-expressions"@, "-fgnu-omitted-conditional-operand"@, "-fgnu-conditional-void-operand"@, "-fgnu-permissive-redefinition"@, "-fgnu-named-variadic"@, "-fgnu-permissive-paste"@, "-fgnu-va-args-elision"@, "-fgnu-range-designators"@, "-fgnu-attributes"@, "-fgnu-inline-asm"@, "-fgnu-case-ranges"@, "-fgnu-labels-as-values"@, "-fgnu-lvalue-comma"@, "-fgnu-typeof"@, "-fgnu-alignof"@, "-fgnu-pragma-pack"@, "-fgnu-function-names"@, "-fgnu-builtin-libcalls"@, "-lm"@]
}

/// The steps of a tests2 case, or the error that prevents running it.
pub open spec fn tcc_plan(f: CaseFiles, w: Workspace, host: Host) -> Result<Seq<StepView>, Seq<char>> {
    match f.stem {
        None => Err(non_utf8_message(f.path@)),
        Some(stem_s) => {
            let stem = stem_s@;
            if let Some(reason) = platform_skip(stem, host) {
                Ok(seq![StepView::Decided((OutcomeKind::Skip, reason))])
            } else if let Some(reason) = unsupported_extension(stem) {
                Ok(seq![StepView::Decided((OutcomeKind::Fail, reason))])
            } else {
                let extra = if stem == "95_bitfields_ms"@ {
                    seq!["-fms-bitfields"@]
                } else {
                    Seq::<Seq<char>>::empty()
                };
                let compile = StepView::TccCompile(("rcc"@, tcc_flags() + extra + seq!["-o"@, w.exe@, f.path@], None), stem);
                let prepare = if stem == "46_grep"@ {
                    match w.run_copy {
                        Some(dest) => StepView::RunDir(w.run_dir@, Some((f.path@, dest@))),
                        None => StepView::Abort("missing filename: "@ + f.path@),
                    }
                } else {
                    StepView::RunDir(w.run_dir@, None)
                };
                Ok(seq![compile, prepare, StepView::Final(
                    (w.exe@, tcc_runtime_args(stem, opt_view(f.file_name)), Some(w.run_dir@)),
                    JudgeView::Tcc(stem),
                )])
            }
        },
    }
}

impl TccTests2Adapter {
    /// Compare a fixture's output with its `.expect` file exactly (up to
    /// CR LF).
    pub fn compare_outcome(actual_output: &[u8], expected: &crate::compare::ExpectedFile) -> (o: Outcome)
        ensures
            o@ == crate::compare::tcc_outcome(actual_output@, expected.path@, expected.contents_view(), crate::compare::TccCompareMode::Exact),
    {
        crate::compare::tcc_compare(actual_output, expected, crate::compare::TccCompareMode::Exact)
    }

    /// Compare the output of the fixture `stem` with its `.expect` file, in
    /// the fixture's comparison mode.
    pub fn compare_outcome_for_stem(stem: &str, actual_output: &[u8], expected: &crate::compare::ExpectedFile) -> (o: Outcome)
        ensures
            o@ == crate::compare::tcc_outcome(actual_output@, expected.path@, expected.contents_view(), crate::compare::tcc_mode_for_stem(stem@)),
    {
        crate::compare::tcc_compare(actual_output, expected, crate::compare::tcc_mode(stem))
    }

    /// Discover the cases of the `tests/tests2` directory: `.c` files whose
    /// `.expect` file exists.
    pub fn discover(&self, tests2: &Listing) -> (r: Result<Vec<TestCase>, AdapterError>)
        ensures
            discovery_ok(
                r,
                discover_spec(tests2.dir@, tests2.entries_view(), "tcc tests2 directory"@, CaseFilter::PairedC, "tcc-tests2::"@),
            ),
    {
        discover_listing(tests2, "tcc tests2 directory", CaseFilter::PairedC, "tcc-tests2::")
    }

    /// Why the fixture `stem` cannot run on `host`, if it cannot.
    pub fn platform_skip_reason(stem: &str, host: Host) -> (r: Option<&'static str>)
        ensures
            match platform_skip(stem@, host) {
                Some(m) => r matches Some(x) && x@ == m,
                None => r is None,
            },
    {
        if str_eq(stem, "34_array_assignment") {
            Some("array assignment is not C")
        } else if str_eq(stem, "73_arm64") && host.arch == Arch::X86_64 {
            Some("arm64-specific ABI fixture")
        } else if (str_eq(stem, "98_al_ax_extend") || str_eq(stem, "99_fastcall")) && host.arch != Arch::X86 {
            Some("i386-specific assembly/calling-convention fixture")
        } else {
            None
        }
    }

    /// Why the fixture `stem` needs a feature rcc does not offer, if it does.
    pub fn unsupported_extension_reason(stem: &str) -> (r: Option<&'static str>)
        ensures
            match unsupported_extension(stem@) {
                Some(m) => r matches Some(x) && x@ == m,
                None => r is None,
            },
    {
        if str_eq(stem, "60_errors_and_warnings") || str_eq(stem, "96_nodata_wanted") {
            Some("tcc -dt diagnostic/data-section test mode is not an rcc feature")
        } else if str_eq(stem, "76_dollars_in_identifiers") {
            Some("TinyCC/GNU dollar identifiers are not supported by rcc")
        } else {
            None
        }
    }

    /// Command-line arguments of the fixture program `stem`.
    pub fn runtime_args(stem: &str, file_name: Option<&String>) -> (r: Vec<String>)
        ensures
            strings_view(r@) == tcc_runtime_args(stem@, match file_name { Some(n) => Some(n@), None => None }),
    {
        let mut v: Vec<String> = Vec::new();
        if str_eq(stem, "31_args") {
            push_arg(&mut v, "arg1");
            push_arg(&mut v, "arg2");
            push_arg(&mut v, "arg3");
            push_arg(&mut v, "arg4");
            push_arg(&mut v, "arg5");
            assert(strings_view(v@) =~= seq!["arg1"@, "arg2"@, "arg3"@, "arg4"@, "arg5"@]);
        } else if str_eq(stem, "46_grep") {
            push_arg(&mut v, "[^* ]*[:a:d: ]+\\:\\*-/: $");
            match file_name {
                Some(n) => push_arg(&mut v, n.as_str()),
                None => push_arg(&mut v, "46_grep.c"),
            }
            assert(strings_view(v@) =~= tcc_runtime_args(stem@, match file_name { Some(n) => Some(n@), None => None }));
        } else {
            assert(strings_view(v@) =~= Seq::<Seq<char>>::empty());
        }
        v
    }

    /// Compiler flags for every tests2 fixture.
    pub fn compile_flags() -> (r: Vec<String>)
        ensures
            strings_view(r@) == tcc_flags(),
    {
        let mut v: Vec<String> = Vec::new();
        push_arg(&mut v, "-w");
        push_arg(&mut v, "-fgnu-binary-literals");
        push_arg(&mut v, "-fgnu-statement-expressions");
        push_arg(&mut v, "-fgnu-omitted-conditional-operand");
        push_arg(&mut v, "-fgnu-conditional-void-operand");
        push_arg(&mut v, "-fgnu-permissive-redefinition");
        push_arg(&mut v, "-fgnu-named-variadic");
        push_arg(&mut v, "-fgnu-permissive-paste");
        push_arg(&mut v, "-fgnu-va-args-elision");
        push_arg(&mut v, "-fgnu-range-designators");
        push_arg(&mut v, "-fgnu-attributes");
        push_arg(&mut v, "-fgnu-inline-asm");
        push_arg(&mut v, "-fgnu-case-ranges");
        push_arg(&mut v, "-fgnu-labels-as-values");
        push_arg(&mut v, "-fgnu-lvalue-comma");
        push_arg(&mut v, "-fgnu-typeof");
        push_arg(&mut v, "-fgnu-alignof");
        push_arg(&mut v, "-fgnu-pragma-pack");
        push_arg(&mut v, "-fgnu-function-names");
        push_arg(&mut v, "-fgnu-builtin-libcalls");
        push_arg(&mut v, "-lm");
        assert(strings_view(v@) =~= tcc_flags());
        v
    }

    /// The steps of running a case on `host`.
    pub fn plan(&self, f: &CaseFiles, w: &Workspace, host: Host) -> (r: Result<Vec<Step>, AdapterError>)
        ensures
            plan_view(r) == tcc_plan(*f, *w, host),
    {
        let stem = match &f.stem {
            None => return Err(AdapterError { message: concat2("non-UTF-8 filename: ", f.path.as_str()) }),
            Some(s) => s,
        };
        if let Some(reason) = Self::platform_skip_reason(stem.as_str(), host) {
            let steps = vec![Step::Decided(Outcome::Skip { reason: owned(reason) })];
            assert(steps_view(steps@) =~~= tcc_plan(*f, *w, host)->Ok_0);
            return Ok(steps);
        }
        if let Some(reason) = Self::unsupported_extension_reason(stem.as_str()) {
            let steps = vec![Step::Decided(Outcome::Fail { reason: owned(reason) })];
            assert(steps_view(steps@) =~~= tcc_plan(*f, *w, host)->Ok_0);
            return Ok(steps);
        }
        let mut args = Self::compile_flags();
        let ghost flags = strings_view(args@);
        if str_eq(stem.as_str(), "95_bitfields_ms") {
            push_arg(&mut args, "-fms-bitfields");
        }
        push_arg(&mut args, "-o");
        push_arg(&mut args, w.exe.as_str());
        push_arg(&mut args, f.path.as_str());
        let ghost p = tcc_plan(*f, *w, host)->Ok_0;
        assert(strings_view(args@) =~= p[0]->TccCompile_0.1);
        let mut steps: Vec<Step> = Vec::new();
        steps.push(Step::TccCompile(command("rcc", args), stem.clone()));
        if str_eq(stem.as_str(), "46_grep") {
            match &w.run_copy {
                Some(dest) => steps.push(Step::RunDir(w.run_dir.clone(), Some((f.path.clone(), dest.clone())))),
                None => steps.push(Step::Abort(concat2("missing filename: ", f.path.as_str()))),
            }
        } else {
            steps.push(Step::RunDir(w.run_dir.clone(), None));
        }
        let rargs = Self::runtime_args(stem.as_str(), f.file_name.as_ref());
        steps.push(Step::Final(Command { program: w.exe.clone(), args: rargs, current_dir: Some(w.run_dir.clone()) }, Judge::Tcc(stem.clone())));
        proof {
            let sv = steps_view(steps@);
            assert(sv[0] == p[0]);
            assert(sv[1] == p[1]);
            assert(sv[2] == p[2]);
            assert(sv =~= p);
        }
        Ok(steps)
    }
}

/// Failure format of a tests2 compilation, quoting stdout and stderr.
pub open spec fn tcc_compile_failure() -> FailureView {
    ("rcc compile/link failed (exit "@, "): "@, true, "rcc invocation failed"@)
}

/// Whether compiling a tests2 fixture ends its run: a compiler that could
/// not run fails the case; a compiler that failed passes the case when its
/// own output is the fixture's expected output, and fails it otherwise.
pub open spec fn tcc_compile_spec(
    stem: Seq<char>,
    result: Result<crate::steps::ProcessOutput, String>,
    expected: crate::compare::ExpectedFile,
) -> Option<(OutcomeKind, Seq<char>)> {
    match result {
        Err(e) => Some((OutcomeKind::Fail, "rcc invocation failed"@ + ": "@ + e@)),
        Ok(o) => if o.succeeded() {
            None
        } else if crate::compare::tcc_outcome(
            o.stdout@ + o.stderr@,
            expected.path@,
            expected.contents_view(),
            crate::compare::tcc_mode_for_stem(stem),
        ).0 == OutcomeKind::Pass {
            Some((OutcomeKind::Pass, Seq::empty()))
        } else {
            Some((OutcomeKind::Fail, crate::steps::exit_failure_message(tcc_compile_failure(), o)))
        },
    }
}

/// Decide whether compiling a tests2 fixture ends its run.
pub fn tcc_compile_outcome(
    stem: &str,
    result: &Result<crate::steps::ProcessOutput, String>,
    expected: &crate::compare::ExpectedFile,
) -> (r: Option<Outcome>)
    ensures
        match tcc_compile_spec(stem@, *result, *expected) {
            Some(v) => r matches Some(o) && o@ == v,
            None => r is None,
        },
{
    match result {
        Err(e) => Some(Outcome::Fail { reason: concat3("rcc invocation failed", ": ", e.as_str()) }),
        Ok(o) => if o.success() {
            None
        } else {
            let mut bytes = o.stdout.clone();
            let mut err = o.stderr.clone();
            bytes.append(&mut err);
            let compared = crate::compare::tcc_compare(bytes.as_slice(), expected, crate::compare::tcc_mode(stem));
            match compared {
                Outcome::Pass => Some(Outcome::Pass),
                _ => {
                    let f = failure(owned("rcc compile/link failed (exit "), "): ", true, "rcc invocation failed");
                    Some(Outcome::Fail { reason: crate::steps::exit_failure(&f, o) })
                },
            }
        },
    }
}

/// `llvm-test-suite` SingleSource adapter.
#[derive(Copy, Clone, Debug)]
pub struct LlvmTestSuiteAdapter;

/// The curated SingleSource unit tests that run.
pub open spec fn llvm_subset() -> Seq<Seq<char>> {
    seq!["2002-04-17-PrintfChar"@, "2002-05-02-ArgumentTest"@, "2002-05-03-NotTest"@, "2003-04-22-Switch"@, "2003-07-08-BitOpsTest"@, "2003-10-13-SwitchTest"@]
}

/// The cases that probes of the subset's files give: a subset test whose
/// source and reference output both exist becomes a case.
pub open spec fn llvm_cases(probes: Seq<FileEntryView>) -> Seq<(Seq<char>, Seq<char>)>
    decreases probes.len(),
{
    if probes.len() == 0 {
        Seq::empty()
    } else {
        let prev = llvm_cases(probes.drop_last());
        let i = probes.len() - 1;
        if probes[i].3 {
            prev.push(("llvm-test-suite::"@ + llvm_subset()[i], probes[i].0))
        } else {
            prev
        }
    }
}

/// The steps of an LLVM SingleSource case.
pub open spec fn llvm_plan(f: CaseFiles, w: Workspace) -> Seq<StepView> {
    seq![
        StepView::Run(("rcc"@, seq!["-w"@, "-lm"@, "-o"@, w.exe@, f.path@], None), tcc_compile_failure()),
        StepView::Final((w.exe@, Seq::empty(), None), JudgeView::Llvm),
    ]
}

impl LlvmTestSuiteAdapter {
    /// Compare a run with the case's `.reference_output` file, which holds
    /// stdout followed by a final `exit N` line.
    pub fn compare_outcome(stdout: &[u8], exit_code: Option<i32>, expected: &crate::compare::ExpectedFile) -> (o: Outcome)
        ensures
            o@ == crate::compare::llvm_outcome(stdout@, exit_code, expected.path@, expected.contents_view()),
    {
        crate::compare::llvm_compare(stdout, exit_code, expected)
    }

    /// The curated SingleSource unit tests that run, in order.
    pub fn subset() -> (r: Vec<&'static str>)
        ensures
            r@.map_values(|s: &str| s@) == llvm_subset(),
    {
        let r = vec!["2002-04-17-PrintfChar", "2002-05-02-ArgumentTest", "2002-05-03-NotTest", "2003-04-22-Switch", "2003-07-08-BitOpsTest", "2003-10-13-SwitchTest"];
        assert(r@.map_values(|s: &str| s@) =~= llvm_subset());
        r
    }

    /// Discover the cases of the `SingleSource/UnitTests` directory `dir`;
    /// `probes[i]` tells whether both files of the `i`-th subset test exist
    /// and where its source is.
    pub fn discover(&self, dir: &str, dir_exists: bool, probes: &[FileEntry]) -> (r: Result<Vec<TestCase>, AdapterError>)
        requires
            probes@.len() == llvm_subset().len(),
        ensures
            discovery_ok(
                r,
                if dir_exists {
                    Ok(llvm_cases(probes@.map_values(|e: FileEntry| e@)))
                } else {
                    Err("llvm-test-suite UnitTests dir not found: "@ + dir@)
                },
            ),
    {
        if !dir_exists {
            return Err(AdapterError { message: concat2("llvm-test-suite UnitTests dir not found: ", dir) });
        }
        let names = Self::subset();
        let ghost views = probes@.map_values(|e: FileEntry| e@);
        let mut cases: Vec<TestCase> = Vec::new();
        assert(views.take(0) == Seq::<FileEntryView>::empty());
        assert(case_views(cases@) == Seq::<(Seq<char>, Seq<char>)>::empty());
        for k in 0..probes.len()
            invariant
                views == probes@.map_values(|e: FileEntry| e@),
                names@.map_values(|s: &str| s@) == llvm_subset(),
                probes@.len() == llvm_subset().len(),
                llvm_cases(views.take(k as int)) == case_views(cases@),
        {
            assert(views.take(k + 1).drop_last() == views.take(k as int));
            if probes[k].paired {
                let c = TestCase { id: concat2("llvm-test-suite::", names[k]), path: probes[k].path.clone() };
                let ghost before = case_views(cases@);
                cases.push(c);
                assert(case_views(cases@) == before.push(c@));
            }
        }
        assert(views.take(probes.len() as int) == views);
        Ok(sort_cases(cases))
    }

    /// The steps of running a case.
    pub fn plan(&self, f: &CaseFiles, w: &Workspace) -> (r: Vec<Step>)
        ensures
            steps_view(r@) == llvm_plan(*f, *w),
    {
        let mut args: Vec<String> = Vec::new();
        push_arg(&mut args, "-w");
        push_arg(&mut args, "-lm");
        push_arg(&mut args, "-o");
        push_arg(&mut args, w.exe.as_str());
        push_arg(&mut args, f.path.as_str());
        assert(strings_view(args@) =~= seq!["-w"@, "-lm"@, "-o"@, w.exe@, f.path@]);
        let mut steps: Vec<Step> = Vec::new();
        steps.push(Step::Run(command("rcc", args), failure(owned("rcc compile/link failed (exit "), "): ", true, "rcc invocation failed")));
        let no_args: Vec<String> = Vec::new();
        assert(strings_view(no_args@) == Seq::<Seq<char>>::empty());
        steps.push(Step::Final(Command { program: w.exe.clone(), args: no_args, current_dir: None }, Judge::Llvm));
        proof {
            let p = llvm_plan(*f, *w);
            let sv = steps_view(steps@);
            assert(sv[0] == p[0]);
            assert(sv[1] == p[1]);
            assert(sv =~= p);
        }
        steps
    }
}

/// Differential-fuzzing driver built on top of `csmith`; it generates fresh
/// programs each run rather than reading a suite.
#[derive(Copy, Clone, Debug)]
pub struct CsmithDifferentialAdapter;

impl CsmithDifferentialAdapter {
    /// There is nothing to discover.
    pub fn discover(&self) -> (r: Vec<TestCase>)
        ensures
            r@.len() == 0,
    {
        Vec::new()
    }

    /// Every case is skipped.
    pub fn run(&self) -> (o: Outcome)
        ensures
            o@ == (OutcomeKind::Skip, "csmith differential not yet implemented"@),
    {
        Outcome::Skip { reason: owned("csmith differential not yet implemented") }
    }
}

proof fn lemma_gcc_error_stays(views: Seq<FileEntryView>, k: int)
    requires
        0 <= k <= views.len(),
        gcc_cases(views.take(k)) is Err,
    ensures
        gcc_cases(views) == gcc_cases(views.take(k)),
    decreases views.len() - k,
{
    if k < views.len() {
        assert(views.take(k + 1).drop_last() == views.take(k));
        lemma_gcc_error_stays(views, k + 1);
    } else {
        assert(views.take(k) == views);
    }
}

proof fn lemma_subset_error_stays(lines: Seq<Seq<char>>, k: int, path: Seq<char>, windows: bool)
    requires
        0 <= k <= lines.len(),
        subset_entries(lines.take(k), path, windows) is Err,
    ensures
        subset_entries(lines, path, windows) == subset_entries(lines.take(k), path, windows),
    decreases lines.len() - k,
{
    if k < lines.len() {
        assert(lines.take(k + 1).drop_last() == lines.take(k));
        lemma_subset_error_stays(lines, k + 1, path, windows);
    } else {
        assert(lines.take(k) == lines);
    }
}

} // verus!
