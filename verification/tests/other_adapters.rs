use rcc_conformance::adapters::{
    tcc_compile_outcome, Arch, CaseFiles, FileEntry, GccTortureAdapter, Host, Listing,
    LlvmTestSuiteAdapter, TccTests2Adapter, Workspace,
};
use rcc_conformance::build_support::{llvm_c_paths, validate_llvm_c_prefix, PrefixProbe, LLVM_PREFIX_ENV};
use rcc_conformance::bytes::lf_text_copy;
use rcc_conformance::compare::ExpectedFile;
use rcc_conformance::report::Outcome;
use rcc_conformance::steps::Step;

fn file(dir: &str, stem: &str, ext: &str, paired: bool) -> FileEntry {
    FileEntry {
        path: format!("{dir}/{stem}.{ext}"),
        stem: Some(stem.to_owned()),
        extension: Some(ext.to_owned()),
        paired,
    }
}

fn expected(path: &str, bytes: &[u8]) -> ExpectedFile {
    ExpectedFile { path: path.to_owned(), contents: Ok(bytes.to_vec()) }
}

fn workspace(run_copy: Option<&str>) -> Workspace {
    Workspace {
        obj: "tmp/test.o".to_owned(),
        common_obj: "tmp/common.o".to_owned(),
        support_obj: "tmp/stage_support.o".to_owned(),
        support_src: "tmp/stage_support.c".to_owned(),
        exe: "tmp/test".to_owned(),
        run_dir: "tmp/run".to_owned(),
        run_copy: run_copy.map(str::to_owned),
    }
}

fn tcc_files(dir: &str, stem: &str) -> CaseFiles {
    CaseFiles {
        id: format!("tcc-tests2::{stem}"),
        path: format!("{dir}/{stem}.c"),
        dir: Some(dir.to_owned()),
        dir_common: None,
        suite_common: None,
        stem: Some(stem.to_owned()),
        file_name: Some(format!("{stem}.c")),
        expected: format!("{dir}/{stem}.expect"),
    }
}

const HOST: Host = Host { windows: false, arch: Arch::X86_64 };

#[test]
fn discover_finds_expect_paired_c_files_sorted_by_id() {
    let dir = "t/tests/tests2";
    let listing = Listing {
        dir: dir.to_owned(),
        entries: Some(Ok(vec![
            file(dir, "02_b", "c", true),
            file(dir, "02_b", "expect", false),
            file(dir, "01_a", "c", true),
            file(dir, "01_a", "expect", false),
            file(dir, "ignored", "c", false),
        ])),
    };
    let cases = TccTests2Adapter.discover(&listing).unwrap();
    let ids = cases.into_iter().map(|case| case.id).collect::<Vec<_>>();
    assert_eq!(ids, ["tcc-tests2::01_a", "tcc-tests2::02_b"]);
}

#[test]
fn compare_normalizes_crlf_expected_output() {
    let exp = expected("case.expect", b"a\r\nb\r\n");
    assert!(matches!(TccTests2Adapter::compare_outcome(b"a\nb\n", &exp), Outcome::Pass));
}

#[test]
fn compare_trims_known_multiple_array_index_trailing_space_drift_only_for_that_case() {
    let exp = expected("38_multiple_array_index.expect", b"x=0: 1 2 3 4\r\nx=1: 5 6 7 8 \r\n");
    let actual = b"x=0: 1 2 3 4 \nx=1: 5 6 7 8 \n";
    assert!(matches!(TccTests2Adapter::compare_outcome(actual, &exp), Outcome::Fail { .. }));
    assert!(matches!(
        TccTests2Adapter::compare_outcome_for_stem("38_multiple_array_index", actual, &exp),
        Outcome::Pass
    ));
    assert!(matches!(
        TccTests2Adapter::compare_outcome_for_stem("00_assignment", actual, &exp),
        Outcome::Fail { .. }
    ));
}

#[test]
fn compare_allows_known_macro_empty_arg_final_newline_drift_only_for_that_case() {
    let exp = expected("71_macro_empty_arg.expect", b"17\r\n");
    let actual = b"17";
    assert!(matches!(TccTests2Adapter::compare_outcome(actual, &exp), Outcome::Fail { .. }));
    assert!(matches!(
        TccTests2Adapter::compare_outcome_for_stem("71_macro_empty_arg", actual, &exp),
        Outcome::Pass
    ));
    assert!(matches!(
        TccTests2Adapter::compare_outcome_for_stem("00_assignment", actual, &exp),
        Outcome::Fail { .. }
    ));
}

#[test]
fn run_fails_when_rcc_not_found() {
    let steps = TccTests2Adapter.plan(&tcc_files("t", "00_assignment"), &workspace(None), HOST).unwrap();
    let Step::TccCompile(cmd, stem) = &steps[0] else { panic!("compile step expected") };
    assert_eq!(cmd.program, "rcc");
    let spawn_error = Err("No such file or directory (os error 2)".to_owned());
    let outcome = tcc_compile_outcome(stem, &spawn_error, &expected("t/00_assignment.expect", b""));
    assert!(matches!(outcome, Some(Outcome::Fail { .. })));
}

#[test]
fn runtime_workdir_is_temp_for_side_effecting_tests() {
    let steps = TccTests2Adapter.plan(&tcc_files("suite/tests/tests2", "40_stdio"), &workspace(None), HOST).unwrap();
    match &steps[1] {
        Step::RunDir(dir, copy) => {
            assert_eq!(dir, "tmp/run");
            assert_ne!(dir, "suite/tests/tests2");
            assert!(copy.is_none());
        }
        other => panic!("unexpected step {other:?}"),
    }
    let Step::Final(cmd, _) = &steps[2] else { panic!("final step expected") };
    assert_eq!(cmd.current_dir.as_deref(), Some("tmp/run"));
}

#[test]
fn grep_runtime_workdir_gets_lf_normalized_input_copy() {
    let steps = TccTests2Adapter
        .plan(&tcc_files("suite/tests/tests2", "46_grep"), &workspace(Some("tmp/run/46_grep.c")), HOST)
        .unwrap();
    match &steps[1] {
        Step::RunDir(dir, Some((from, to))) => {
            assert_eq!(dir, "tmp/run");
            assert_eq!(from, "suite/tests/tests2/46_grep.c");
            assert_eq!(to, "tmp/run/46_grep.c");
        }
        other => panic!("unexpected step {other:?}"),
    }
    assert_eq!(lf_text_copy(b"a\r\nb\r\n"), b"a\nb\n");
}

#[test]
fn discover_uses_curated_single_source_subset() {
    let dir = "t/SingleSource/UnitTests";
    let probes: Vec<FileEntry> = LlvmTestSuiteAdapter::subset()
        .iter()
        .map(|name| file(dir, name, "c", *name == "2002-04-17-PrintfChar"))
        .collect();
    let cases = LlvmTestSuiteAdapter.discover(dir, true, &probes).unwrap();
    assert_eq!(cases.len(), 1);
    assert_eq!(cases[0].id, "llvm-test-suite::2002-04-17-PrintfChar");
    let err = LlvmTestSuiteAdapter.discover(dir, false, &probes).unwrap_err();
    assert_eq!(err.message, "llvm-test-suite UnitTests dir not found: t/SingleSource/UnitTests");
}

#[test]
fn compare_appends_exit_code_to_stdout() {
    let exp = expected("case.reference_output", b"hello\nexit 0\n");
    assert!(matches!(LlvmTestSuiteAdapter::compare_outcome(b"hello\n", Some(0), &exp), Outcome::Pass));
    assert!(matches!(
        LlvmTestSuiteAdapter::compare_outcome(b"hello\n", Some(1), &exp),
        Outcome::Fail { .. }
    ));
}

#[test]
fn discover_uses_smoke_subset_ordered_by_id() {
    let text = "\n# comment\ngcc/testsuite/gcc.c-torture/execute/20000205-1.c\n\
                gcc/testsuite/gcc.c-torture/execute/20000113-1.c\n";
    let rel = GccTortureAdapter::read_smoke_subset("root/smoke-subset.txt", Ok(text), false).unwrap();
    assert_eq!(
        rel,
        ["gcc/testsuite/gcc.c-torture/execute/20000205-1.c", "gcc/testsuite/gcc.c-torture/execute/20000113-1.c"]
    );
    let files: Vec<FileEntry> = rel
        .iter()
        .map(|r| {
            let stem = r.rsplit('/').next().unwrap().trim_end_matches(".c");
            FileEntry {
                path: format!("root/{r}"),
                stem: Some(stem.to_owned()),
                extension: Some("c".to_owned()),
                paired: true,
            }
        })
        .collect();
    let cases = GccTortureAdapter::smoke().discover(&files).unwrap();
    let ids = cases.iter().map(|case| case.id.as_str()).collect::<Vec<_>>();
    assert_eq!(ids, ["gcc-torture::execute::20000113-1", "gcc-torture::execute::20000205-1"]);
}

#[test]
fn discover_rejects_parent_dir_subset_entries() {
    let err = GccTortureAdapter::read_smoke_subset("root/smoke-subset.txt", Ok("../outside.c\n"), false).unwrap_err();
    assert!(err.message.contains("clean relative paths"), "{}", err.message);
    assert_eq!(err.message, "root/smoke-subset.txt:1: subset entries must be clean relative paths");
}

#[test]
fn gcc_smoke_subset_errors() {
    let err = GccTortureAdapter::read_smoke_subset("s.txt", Ok("# only comments\n\n"), false).unwrap_err();
    assert_eq!(err.message, "s.txt contains no smoke cases");
    let err = GccTortureAdapter::read_smoke_subset("s.txt", Err("denied"), false).unwrap_err();
    assert_eq!(err.message, "cannot read s.txt: denied");
    let missing = FileEntry {
        path: "root/x.c".to_owned(),
        stem: Some("x".to_owned()),
        extension: Some("c".to_owned()),
        paired: false,
    };
    let err = GccTortureAdapter::smoke().discover(&[missing]).unwrap_err();
    assert_eq!(err.message, "gcc-torture case not found: root/x.c");
    assert!(GccTortureAdapter::case_requests_flag(
        "/* { dg-options \"-finstrument-functions\" } */\nint main(){}",
        "-finstrument-functions"
    ));
    assert!(!GccTortureAdapter::case_requests_flag("-finstrument-functions\n", "-finstrument-functions"));
}

fn probe(prefix: &str, lib: bool, dll: bool) -> PrefixProbe {
    PrefixProbe {
        prefix: prefix.to_owned(),
        windows: false,
        prefix_is_dir: true,
        import_lib_is_file: lib,
        runtime_dll_is_file: dll,
    }
}

#[test]
fn validates_official_windows_archive_layout() {
    let layout = validate_llvm_c_prefix(&probe("p", true, true)).unwrap();
    assert_eq!(layout.prefix, "p");
    assert_eq!(layout.lib_dir, "p/lib");
    assert_eq!(layout.bin_dir, "p/bin");
    assert_eq!(layout.import_lib, "p/lib/LLVM-C.lib");
    assert_eq!(layout.runtime_dll, "p/bin/LLVM-C.dll");
}

#[test]
fn prefix_layout_follows_host_path_rules() {
    let mut p = probe("D:\\Tools\\llvm", true, true);
    p.windows = true;
    let layout = validate_llvm_c_prefix(&p).unwrap();
    assert_eq!(layout.lib_dir, "D:\\Tools\\llvm\\lib");
    assert_eq!(layout.runtime_dll, "D:\\Tools\\llvm\\bin\\LLVM-C.dll");
    assert_eq!(llvm_c_paths("/opt/llvm/", false).2, "/opt/llvm/lib/LLVM-C.lib");
    assert_eq!(llvm_c_paths("C:", true).0, "C:lib");
    assert_eq!(llvm_c_paths("C:/x/", true).1, "C:/x/bin");
    assert_eq!(llvm_c_paths("", false).0, "lib");
    assert_eq!(
        std::path::Path::new("/opt/llvm").join("lib").join("LLVM-C.lib").to_str().unwrap(),
        llvm_c_paths("/opt/llvm", false).2
    );
}

#[test]
fn verbatim_prefixes_are_rebuilt_from_their_components() {
    let paths = |p: &str| llvm_c_paths(p, true);
    assert_eq!(paths("\\\\?\\C:").0, "\\\\?\\C:\\lib");
    assert_eq!(paths("\\\\?\\C:\\llvm").2, "\\\\?\\C:\\llvm\\lib\\LLVM-C.lib");
    assert_eq!(paths("\\\\?\\C:\\a\\\\b\\").1, "\\\\?\\C:\\a\\b\\bin");
    assert_eq!(paths("\\\\?\\C:\\x/").0, "\\\\?\\C:\\x/\\lib");
    assert_eq!(paths("\\\\?\\UNC\\srv\\share").3, "\\\\?\\UNC\\srv\\share\\bin\\LLVM-C.dll");
    assert_eq!(paths("\\\\?\\UNC\\srv\\\\share").0, "\\\\?\\UNC\\srv\\share\\lib");
    assert_eq!(paths("\\\\?").2, "\\\\?\\lib\\LLVM-C.lib");
    assert_eq!(llvm_c_paths("\\\\?\\C:", false).0, "\\\\?\\C:/lib");
}

#[test]
fn reports_missing_import_library() {
    let err = validate_llvm_c_prefix(&probe("p", false, true)).unwrap_err();
    assert!(err.contains("LLVM-C.lib"));
    assert!(err.contains(LLVM_PREFIX_ENV));
}

#[test]
fn reports_missing_runtime_dll() {
    let err = validate_llvm_c_prefix(&probe("p", true, false)).unwrap_err();
    assert!(err.contains("LLVM-C.dll"));
    assert!(err.contains("PATH"));
}

#[test]
fn reports_missing_prefix_directory() {
    let mut p = probe("nowhere", true, true);
    p.prefix_is_dir = false;
    let err = validate_llvm_c_prefix(&p).unwrap_err();
    assert!(validate_llvm_c_prefix(&probe("p", false, true)).unwrap_err().starts_with("missing `p/lib/LLVM-C.lib`.\n"));
    assert!(err.starts_with("LLVM_SYS_181_PREFIX points to `nowhere`, but that directory does not exist.\n"));
}

#[test]
fn smoke_subset_absolute_entries_follow_host_rules() {
    let unclean = |text: &str, windows: bool| {
        GccTortureAdapter::read_smoke_subset("s.txt", Ok(text), windows)
            .err()
            .map(|e| e.message)
    };
    let msg = Some("s.txt:1: subset entries must be clean relative paths".to_owned());
    assert_eq!(unclean("/abs.c\n", false), msg);
    assert_eq!(unclean("/abs.c\n", true), None);
    assert_eq!(unclean("C:/abs.c\n", true), msg);
    assert_eq!(unclean("C:/abs.c\n", false), None);
    assert_eq!(unclean("//server/share/x.c\n", true), msg);
    assert_eq!(unclean("C:rel.c\n", true), None);
}
