use rcc_conformance::abi::{CodegenError, TyId};
use rcc_conformance::ptr_arith::{ptr_add_plan, ptr_diff_plan, ptr_sub_plan, ArithTy};

fn internal(e: CodegenError) -> String {
    match e {
        CodegenError::Internal(m) => m,
        other => panic!("expected an internal error, got {other:?}"),
    }
}

#[test]
fn pointer_addition_finds_the_pointer() {
    assert_eq!(ptr_add_plan(TyId(1), ArithTy::Ptr(TyId(7)), TyId(2), ArithTy::Int).unwrap(), (true, TyId(7)));
    assert_eq!(ptr_add_plan(TyId(2), ArithTy::Int, TyId(1), ArithTy::Ptr(TyId(7))).unwrap(), (false, TyId(7)));
    assert_eq!(
        internal(ptr_add_plan(TyId(1), ArithTy::Ptr(TyId(7)), TyId(3), ArithTy::Ptr(TyId(7))).unwrap_err()),
        "PtrAdd requires pointer and integer operands, got TyId(1) and TyId(3)"
    );
}

#[test]
fn pointer_subtraction_and_difference() {
    assert_eq!(ptr_sub_plan(TyId(1), ArithTy::Ptr(TyId(7))).unwrap(), TyId(7));
    assert_eq!(internal(ptr_sub_plan(TyId(2), ArithTy::Int).unwrap_err()), "PtrSub left operand must be a pointer, got TyId(2)");
    assert_eq!(ptr_diff_plan(TyId(1), ArithTy::Ptr(TyId(7)), TyId(1), ArithTy::Ptr(TyId(7)), Ok(4)).unwrap(), 4);
    assert_eq!(
        internal(ptr_diff_plan(TyId(2), ArithTy::Int, TyId(1), ArithTy::Ptr(TyId(7)), Ok(4)).unwrap_err()),
        "PtrDiff operands must be pointers, got TyId(2)"
    );
    assert_eq!(
        internal(ptr_diff_plan(TyId(1), ArithTy::Ptr(TyId(7)), TyId(2), ArithTy::Int, Ok(4)).unwrap_err()),
        "PtrDiff right operand must be a pointer, got TyId(2)"
    );
    match ptr_diff_plan(TyId(1), ArithTy::Ptr(TyId(7)), TyId(1), ArithTy::Ptr(TyId(7)), Ok(0)).unwrap_err() {
        CodegenError::TypeLowering { ty, reason } => {
            assert_eq!(ty, TyId(7));
            assert_eq!(reason, "pointer difference element has zero size");
        }
        other => panic!("unexpected {other:?}"),
    }
    match ptr_diff_plan(TyId(1), ArithTy::Ptr(TyId(7)), TyId(1), ArithTy::Ptr(TyId(7)), Err("incomplete".to_string())).unwrap_err() {
        CodegenError::TypeLowering { ty, reason } => {
            assert_eq!(ty, TyId(7));
            assert_eq!(reason, "incomplete");
        }
        other => panic!("unexpected {other:?}"),
    }
}
