use rcc_conformance::abi::{CodegenError, TyId};
use rcc_conformance::casts::{cast_instr, CastFacts, CastInstr, CastKind, ValueClass};

fn facts(from_bits: u32, from_signed: bool, to: ValueClass, to_bool: bool, to_signed: bool) -> CastFacts {
    CastFacts { from_bits, from_signed, from_float_width: 64, to, to_bool, to_signed, to_ptr: false, to_float_width: 64 }
}

fn reason(r: Result<CastInstr, CodegenError>) -> String {
    match r {
        Err(CodegenError::TypeLowering { ty, reason }) => {
            assert_eq!(ty, TyId(3));
            reason
        }
        other => panic!("expected a type lowering error, got {other:?}"),
    }
}

#[test]
fn integer_casts() {
    let t = TyId(3);
    assert_eq!(cast_instr(CastKind::IntToInt, t, facts(32, true, ValueClass::Int(64), false, true)).unwrap(), CastInstr::SExt);
    assert_eq!(cast_instr(CastKind::IntToInt, t, facts(32, false, ValueClass::Int(64), false, true)).unwrap(), CastInstr::ZExt);
    assert_eq!(cast_instr(CastKind::IntToInt, t, facts(64, true, ValueClass::Int(8), false, true)).unwrap(), CastInstr::Trunc);
    assert_eq!(cast_instr(CastKind::IntToInt, t, facts(32, true, ValueClass::Int(32), false, false)).unwrap(), CastInstr::Keep);
    assert_eq!(cast_instr(CastKind::IntToInt, t, facts(32, true, ValueClass::Int(1), true, false)).unwrap(), CastInstr::IntIsNonZero);
    assert_eq!(cast_instr(CastKind::IntToInt, t, facts(1, false, ValueClass::Int(1), true, false)).unwrap(), CastInstr::Keep);
    assert_eq!(reason(cast_instr(CastKind::IntToInt, t, facts(32, true, ValueClass::Float, false, false))), "integer cast target is not an integer");
}

#[test]
fn float_casts() {
    let t = TyId(3);
    assert_eq!(cast_instr(CastKind::IntToFloat, t, facts(32, true, ValueClass::Float, false, false)).unwrap(), CastInstr::SiToFp);
    assert_eq!(cast_instr(CastKind::IntToFloat, t, facts(32, false, ValueClass::Float, false, false)).unwrap(), CastInstr::UiToFp);
    assert_eq!(cast_instr(CastKind::FloatToInt, t, facts(0, false, ValueClass::Int(32), false, true)).unwrap(), CastInstr::FpToSi);
    assert_eq!(cast_instr(CastKind::FloatToInt, t, facts(0, false, ValueClass::Int(32), false, false)).unwrap(), CastInstr::FpToUi);
    assert_eq!(cast_instr(CastKind::FloatToInt, t, facts(0, false, ValueClass::Int(1), true, false)).unwrap(), CastInstr::FloatIsNonZero);
    let mut f = facts(0, false, ValueClass::Float, false, false);
    f.from_float_width = 32;
    f.to_float_width = 80;
    assert_eq!(cast_instr(CastKind::FloatToFloat, t, f).unwrap(), CastInstr::FpExt);
    f.from_float_width = 80;
    f.to_float_width = 64;
    assert_eq!(cast_instr(CastKind::FloatToFloat, t, f).unwrap(), CastInstr::FpTrunc);
    f.to_float_width = 80;
    assert_eq!(cast_instr(CastKind::FloatToFloat, t, f).unwrap(), CastInstr::Keep);
    assert_eq!(reason(cast_instr(CastKind::IntToFloat, t, facts(32, true, ValueClass::Int(32), false, false))), "integer-to-float target is not floating");
    assert_eq!(reason(cast_instr(CastKind::FloatToInt, t, facts(0, true, ValueClass::Ptr, false, false))), "float-to-integer target is not an integer");
    assert_eq!(reason(cast_instr(CastKind::FloatToFloat, t, facts(0, true, ValueClass::Other, false, false))), "float cast target is not floating");
}

#[test]
fn pointer_casts() {
    let t = TyId(3);
    let mut f = facts(64, false, ValueClass::Ptr, false, false);
    f.to_ptr = true;
    assert_eq!(cast_instr(CastKind::PtrToPtr, t, f).unwrap(), CastInstr::Keep);
    assert_eq!(cast_instr(CastKind::IntToPtr, t, f).unwrap(), CastInstr::IntToPtr);
    assert_eq!(cast_instr(CastKind::PtrToInt, t, facts(0, false, ValueClass::Int(64), false, false)).unwrap(), CastInstr::PtrToInt);
    assert_eq!(cast_instr(CastKind::PtrToInt, t, facts(0, false, ValueClass::Int(1), true, false)).unwrap(), CastInstr::IsNonNull);
    assert_eq!(reason(cast_instr(CastKind::PtrToPtr, t, facts(0, false, ValueClass::Ptr, false, false))), "pointer cast target is not a pointer");
    assert_eq!(reason(cast_instr(CastKind::PtrToInt, t, facts(0, false, ValueClass::Ptr, false, false))), "pointer-to-integer target is not an integer");
    assert_eq!(reason(cast_instr(CastKind::IntToPtr, t, facts(0, false, ValueClass::Int(64), false, false))), "integer-to-pointer target is not a pointer");
}
