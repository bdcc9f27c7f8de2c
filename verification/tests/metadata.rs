use rcc_conformance::metadata::{unspecified_eval_order_cases, unspecified_eval_order_reason};

#[test]
fn known_unspecified_eval_order_case_has_reason() {
    let reason = unspecified_eval_order_reason("chibicc::eval-order").unwrap();
    assert!(reason.contains("unspecified"));
}

#[test]
fn ordinary_case_has_no_eval_order_reason() {
    assert_eq!(unspecified_eval_order_reason("chibicc::arith"), None);
}

#[test]
fn eval_order_table_lists_one_case() {
    let cases = unspecified_eval_order_cases();
    assert_eq!(cases.len(), 1);
    assert_eq!(cases[0].id, "chibicc::eval-order");
    assert_eq!(
        unspecified_eval_order_reason("chibicc::eval-order"),
        Some("stdout depends on unspecified function-argument evaluation order")
    );
}
