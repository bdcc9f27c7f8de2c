use rcc_conformance::abi::CodegenError;
use rcc_conformance::switch::{switch_plan, SwitchCase};

fn message(e: CodegenError) -> String {
    match e {
        CodegenError::Internal(m) => m,
        other => panic!("expected an internal error, got {other:?}"),
    }
}

#[test]
fn switch_cases_and_default() {
    let plan = switch_plan(&[(Some(1), 3), (Some(-1), 4), (Some(1i128 << 70 | 5), 6), (None, 9)]).unwrap();
    assert_eq!(plan.default, 9);
    assert_eq!(
        plan.cases,
        vec![
            SwitchCase { bits: 1, sign_extend: false, target: 3 },
            SwitchCase { bits: u64::MAX, sign_extend: true, target: 4 },
            SwitchCase { bits: 5, sign_extend: false, target: 6 },
        ]
    );
    let only_default = switch_plan(&[(None, 2)]).unwrap();
    assert_eq!(only_default.default, 2);
    assert!(only_default.cases.is_empty());
}

#[test]
fn switch_target_errors() {
    assert_eq!(message(switch_plan(&[]).unwrap_err()), "SwitchInt has no targets");
    assert_eq!(message(switch_plan(&[(Some(0), 1)]).unwrap_err()), "SwitchInt default target must be last");
    assert_eq!(
        message(switch_plan(&[(Some(0), 1), (None, 2), (None, 3)]).unwrap_err()),
        "SwitchInt non-default target is missing a case value"
    );
}
