use rcc_conformance::abi::{CodegenError, FloatKind, RecordDefError, TyId};
use rcc_conformance::llvm_types::{
    basic_check, enum_repr_error, record_body, type_shape, LlvmShape, LowerTy, LowerTyKind, RecordDef, RecordLlvmBody,
};
use rcc_conformance::lowering::IntRank;

fn shape(kind: LowerTyKind) -> Result<LlvmShape, CodegenError> {
    type_shape(&LowerTy { id: TyId(5), kind })
}

fn reason(r: Result<LlvmShape, CodegenError>) -> String {
    match r {
        Err(CodegenError::TypeLowering { ty, reason }) => {
            assert_eq!(ty, TyId(5));
            reason
        }
        other => panic!("expected a type lowering error, got {other:?}"),
    }
}

#[test]
fn scalar_shapes() {
    assert_eq!(shape(LowerTyKind::Int(IntRank::Bool)).unwrap(), LlvmShape::Int(1));
    assert_eq!(shape(LowerTyKind::Int(IntRank::Short)).unwrap(), LlvmShape::Int(16));
    assert_eq!(shape(LowerTyKind::Int(IntRank::LongLong)).unwrap(), LlvmShape::Int(64));
    assert_eq!(shape(LowerTyKind::Float(FloatKind::F80)).unwrap(), LlvmShape::Float(FloatKind::F80));
    assert_eq!(shape(LowerTyKind::Complex(FloatKind::F32)).unwrap(), LlvmShape::Complex(FloatKind::F32));
    assert_eq!(shape(LowerTyKind::Ptr).unwrap(), LlvmShape::Ptr);
    assert_eq!(shape(LowerTyKind::Void).unwrap(), LlvmShape::Void);
    assert_eq!(shape(LowerTyKind::BuiltinVaList).unwrap(), LlvmShape::VaList);
    assert_eq!(shape(LowerTyKind::Enum { repr: TyId(2) }).unwrap(), LlvmShape::Like(TyId(2)));
    assert_eq!(shape(LowerTyKind::Func).unwrap(), LlvmShape::Func);
}

#[test]
fn array_and_record_shapes() {
    assert_eq!(
        shape(LowerTyKind::Array { elem: TyId(1), len: Some(3), is_vla: false }).unwrap(),
        LlvmShape::Array { elem: TyId(1), len: 3 }
    );
    assert_eq!(
        reason(shape(LowerTyKind::Array { elem: TyId(1), len: Some(3), is_vla: true })),
        "VLA array objects are runtime-sized"
    );
    assert_eq!(
        reason(shape(LowerTyKind::Array { elem: TyId(1), len: None, is_vla: false })),
        "incomplete arrays have no LLVM object type"
    );
    assert_eq!(
        reason(shape(LowerTyKind::Array { elem: TyId(1), len: Some(1 << 33), is_vla: false })),
        "array length 8589934592 exceeds LLVM u32 limit"
    );
    assert_eq!(
        shape(LowerTyKind::Record { def: 4, lookup: Ok(RecordDef::Struct(vec![TyId(1)])) }).unwrap(),
        LlvmShape::Named(4)
    );
    assert_eq!(
        reason(shape(LowerTyKind::Record { def: 4, lookup: Err(RecordDefError::Missing(4)) })),
        "record definition DefId(4) is missing"
    );
    assert_eq!(
        reason(shape(LowerTyKind::Record { def: 4, lookup: Err(RecordDefError::NotARecord(4)) })),
        "record type does not reference a record definition"
    );
    assert_eq!(reason(shape(LowerTyKind::Error)), "error type cannot be lowered");
}

#[test]
fn record_bodies() {
    assert_eq!(
        record_body(TyId(5), &RecordDef::Struct(vec![TyId(1), TyId(2)])).unwrap(),
        RecordLlvmBody::Fields(vec![TyId(1), TyId(2)])
    );
    assert_eq!(record_body(TyId(5), &RecordDef::Union(Ok(12))).unwrap(), RecordLlvmBody::Bytes(12));
    match record_body(TyId(5), &RecordDef::Union(Err("incomplete union".to_string()))).unwrap_err() {
        CodegenError::TypeLowering { ty, reason } => {
            assert_eq!(ty, TyId(5));
            assert_eq!(reason, "incomplete union");
        }
        other => panic!("unexpected {other:?}"),
    }
}

#[test]
fn basic_types_and_enum_errors() {
    assert!(basic_check(TyId(5), LlvmShape::Int(32)).is_ok());
    assert_eq!(reason(basic_check(TyId(5), LlvmShape::Void).map(|_| LlvmShape::Void)), "void is not a basic type");
    assert_eq!(reason(basic_check(TyId(5), LlvmShape::Func).map(|_| LlvmShape::Void)), "function is not a basic type");
    match enum_repr_error(TyId(5), TyId(3)) {
        CodegenError::TypeLowering { ty, reason } => {
            assert_eq!(ty, TyId(5));
            assert_eq!(reason, "enum representation TyId(3) is invalid");
        }
        other => panic!("unexpected {other:?}"),
    }
}
