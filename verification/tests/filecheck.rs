use rcc_conformance::filecheck::{filecheck, Directive};

#[test]
fn filecheck_reports_missing_expected_instruction() {
    let err = filecheck(
        "define i32 @f() {\n  ret i32 0\n}\n",
        &[Directive::Check("store i32".to_owned())],
    )
    .unwrap_err();
    assert!(err.contains("not found"));
    assert!(err.contains("store i32"));
    assert!(err.contains("IR excerpt"));
}

#[test]
fn filecheck_reports_negative_match() {
    let directives = [
        Directive::Check("define i32 @f()".to_owned()),
        Directive::CheckNot("load volatile".to_owned()),
        Directive::Check("ret i32 0".to_owned()),
    ];
    let err =
        filecheck("define i32 @f() {\n  load volatile i32, ptr @x\n  ret i32 0\n}\n", &directives)
            .unwrap_err();
    assert!(err.contains("CHECK-NOT"));
    assert!(err.contains("load volatile"));
}

#[test]
fn filecheck_accepts_ordered_matches_and_exact_messages() {
    let ir = "define i32 @f() {\n  store i32 1, ptr %x\n  ret i32 0\n}\n";
    let ok = [
        Directive::Check("define".to_owned()),
        Directive::CheckNot("load".to_owned()),
        Directive::Check("store i32".to_owned()),
        Directive::Check("ret".to_owned()),
    ];
    assert_eq!(filecheck(ir, &ok), Ok(()));
    // A match must come after the previous one.
    let out_of_order = [Directive::Check("ret".to_owned()), Directive::Check("store".to_owned())];
    let err = filecheck(ir, &out_of_order).unwrap_err();
    assert!(err.starts_with("CHECK #1 not found after byte 45: `store`\nIR excerpt at byte 45:\n"), "{err}");
    // A trailing CHECK-NOT covers the rest of the text.
    let trailing = [Directive::Check("store".to_owned()), Directive::CheckNot("ret".to_owned())];
    let err = filecheck(ir, &trailing).unwrap_err();
    assert!(err.starts_with("CHECK-NOT before directive #2 unexpectedly matched `ret`\nIR excerpt at byte 0:\n i32 1"), "{err}");
}
