use rcc_conformance::operators::{
    binop_lowering, equality_lowering, unop_lowering, BinOp, BinOpLowering, Compare, FloatInstr, FloatPredicate,
    IntInstr, IntPredicate, ScalarKind, UnOp, UnOpLowering,
};

#[test]
fn binops_route_to_their_instructions() {
    assert_eq!(binop_lowering(BinOp::SDiv), BinOpLowering::Int(IntInstr::SDiv));
    assert_eq!(binop_lowering(BinOp::LShr), BinOpLowering::Int(IntInstr::LShr));
    assert_eq!(binop_lowering(BinOp::BitXor), BinOpLowering::Int(IntInstr::Xor));
    assert_eq!(binop_lowering(BinOp::FDiv), BinOpLowering::Float(FloatInstr::Div));
    assert_eq!(binop_lowering(BinOp::FAdd), BinOpLowering::Float(FloatInstr::Add));
    assert_eq!(binop_lowering(BinOp::UGe), BinOpLowering::IntCompare(IntPredicate::Uge));
    assert_eq!(binop_lowering(BinOp::SLt), BinOpLowering::IntCompare(IntPredicate::Slt));
    assert_eq!(binop_lowering(BinOp::FLe), BinOpLowering::FloatCompare(FloatPredicate::Ole));
    assert_eq!(binop_lowering(BinOp::Eq), BinOpLowering::Equality { eq: true });
    assert_eq!(binop_lowering(BinOp::Ne), BinOpLowering::Equality { eq: false });
    assert_eq!(binop_lowering(BinOp::PtrDiff), BinOpLowering::PtrDiff);
}

#[test]
fn equality_by_operand_kind() {
    assert_eq!(equality_lowering(true, ScalarKind::Int, ScalarKind::Int), Some(Compare::Int(IntPredicate::Eq)));
    assert_eq!(equality_lowering(false, ScalarKind::Float, ScalarKind::Float), Some(Compare::Float(FloatPredicate::One)));
    assert_eq!(equality_lowering(true, ScalarKind::Float, ScalarKind::Float), Some(Compare::Float(FloatPredicate::Oeq)));
    assert_eq!(equality_lowering(false, ScalarKind::Ptr, ScalarKind::Ptr), Some(Compare::PtrAsInt(IntPredicate::Ne)));
    assert_eq!(equality_lowering(true, ScalarKind::Int, ScalarKind::Ptr), None);
    assert_eq!(equality_lowering(true, ScalarKind::Other, ScalarKind::Other), None);
}

#[test]
fn unops_by_operand() {
    assert_eq!(unop_lowering(UnOp::Neg, false, ScalarKind::Int), Some(UnOpLowering::IntNeg));
    assert_eq!(unop_lowering(UnOp::FNeg, true, ScalarKind::Other), Some(UnOpLowering::ComplexNeg));
    assert_eq!(unop_lowering(UnOp::FNeg, false, ScalarKind::Float), Some(UnOpLowering::FloatNeg));
    assert_eq!(unop_lowering(UnOp::BitNot, false, ScalarKind::Int), Some(UnOpLowering::Not));
    assert_eq!(unop_lowering(UnOp::LogNot, false, ScalarKind::Ptr), Some(UnOpLowering::IsNull));
    assert_eq!(unop_lowering(UnOp::LogNot, false, ScalarKind::Float), Some(UnOpLowering::FloatIsZero));
    assert_eq!(unop_lowering(UnOp::LogNot, false, ScalarKind::Int), Some(UnOpLowering::IntIsZero));
    assert_eq!(unop_lowering(UnOp::LogNot, false, ScalarKind::Other), None);
}
