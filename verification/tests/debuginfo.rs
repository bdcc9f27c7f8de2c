use rcc_conformance::abi::{CodegenError, FloatKind, Layout, RecordDefError, TyId};
use rcc_conformance::debuginfo::{debug_type_desc, debug_variables, DebugLocal, DebugVar, DebugVarKind, DebugPointee, DebugRecordDef, DebugTy, DebugTyKind, DebugTypeDesc};
use rcc_conformance::lowering::IntRank;

fn desc(kind: DebugTyKind) -> Result<DebugTypeDesc, CodegenError> {
    debug_type_desc(&DebugTy { id: TyId(7), kind }, true)
}

fn basic(name: &str, size_bits: u64, encoding: u32) -> DebugTypeDesc {
    DebugTypeDesc::Basic { name: name.to_string(), size_bits, encoding }
}

fn lowering_reason(r: Result<DebugTypeDesc, CodegenError>) -> String {
    match r {
        Err(CodegenError::TypeLowering { ty, reason }) => {
            assert_eq!(ty, TyId(7));
            reason
        }
        other => panic!("expected a type lowering error, got {other:?}"),
    }
}

#[test]
fn debug_basic_types() {
    assert_eq!(desc(DebugTyKind::Void).unwrap(), basic("void", 0, 0));
    assert_eq!(
        desc(DebugTyKind::Int { signed: false, rank: IntRank::Short }).unwrap(),
        basic("unsigned short", 16, 0x07)
    );
    assert_eq!(desc(DebugTyKind::Int { signed: true, rank: IntRank::Bool }).unwrap(), basic("_Bool", 8, 0x02));
    assert_eq!(desc(DebugTyKind::Float(FloatKind::F80)).unwrap(), basic("long double", 128, 0x04));
    assert_eq!(desc(DebugTyKind::Float(FloatKind::F32)).unwrap(), basic("float", 32, 0x04));
    assert_eq!(
        desc(DebugTyKind::Complex { kind: FloatKind::F64, layout: Ok(Layout { size: 16, align: 8 }) }).unwrap(),
        basic("_Complex double", 128, 0x04)
    );
}

#[test]
fn debug_enum_names() {
    assert_eq!(desc(DebugTyKind::Enum { name: Some("color".to_string()) }).unwrap(), basic("enum color", 32, 0x05));
    assert_eq!(desc(DebugTyKind::Enum { name: None }).unwrap(), basic("enum enum", 32, 0x05));
}

#[test]
fn debug_pointer_types() {
    assert_eq!(
        desc(DebugTyKind::Ptr(TyId(3))).unwrap(),
        DebugTypeDesc::Pointer { name: String::new(), pointee: DebugPointee::Ty(TyId(3)), size_bits: 64, align_bits: 64 }
    );
    assert_eq!(
        desc(DebugTyKind::Func).unwrap(),
        DebugTypeDesc::Pointer {
            name: "function pointer".to_string(),
            pointee: DebugPointee::Void,
            size_bits: 64,
            align_bits: 64
        }
    );
    assert_eq!(
        desc(DebugTyKind::BuiltinVaList).unwrap(),
        DebugTypeDesc::Pointer {
            name: "__builtin_va_list".to_string(),
            pointee: DebugPointee::Char,
            size_bits: 64,
            align_bits: 64
        }
    );
}

#[test]
fn debug_array_types() {
    let int_layout = Ok(Layout { size: 4, align: 4 });
    assert_eq!(
        desc(DebugTyKind::Array { elem: TyId(2), elem_layout: int_layout.clone(), len: Some(10), is_vla: false }).unwrap(),
        DebugTypeDesc::Array { elem: TyId(2), size_bits: 320, align_bits: 32, range_end: 10 }
    );
    assert_eq!(
        desc(DebugTyKind::Array { elem: TyId(2), elem_layout: int_layout.clone(), len: Some(10), is_vla: true }).unwrap(),
        DebugTypeDesc::Array { elem: TyId(2), size_bits: 0, align_bits: 32, range_end: 0 }
    );
    assert_eq!(
        desc(DebugTyKind::Array { elem: TyId(2), elem_layout: int_layout, len: None, is_vla: false }).unwrap(),
        DebugTypeDesc::Array { elem: TyId(2), size_bits: 0, align_bits: 32, range_end: 0 }
    );
    assert_eq!(
        desc(DebugTyKind::Array {
            elem: TyId(2),
            elem_layout: Ok(Layout { size: 8, align: u32::MAX }),
            len: Some(u64::MAX),
            is_vla: false
        })
        .unwrap(),
        DebugTypeDesc::Array { elem: TyId(2), size_bits: u64::MAX, align_bits: u32::MAX, range_end: i64::MAX }
    );
}

#[test]
fn debug_record_types() {
    let def = DebugRecordDef { union: false, name: "point".to_string(), line: 12 };
    assert_eq!(
        desc(DebugTyKind::Record { def: Ok(def), layout: Ok(Layout { size: 8, align: 4 }) }).unwrap(),
        DebugTypeDesc::Record {
            union: false,
            name: "point".to_string(),
            line: 12,
            size_bits: 64,
            align_bits: 32,
            unique_id: "rcc.struct.point".to_string()
        }
    );
    let def = DebugRecordDef { union: true, name: "u".to_string(), line: 0 };
    match desc(DebugTyKind::Record { def: Ok(def), layout: Ok(Layout { size: 4, align: 4 }) }).unwrap() {
        DebugTypeDesc::Record { unique_id, union, .. } => {
            assert!(union);
            assert_eq!(unique_id, "rcc.union.u");
        }
        other => panic!("unexpected {other:?}"),
    }
}

#[test]
fn debug_type_errors() {
    assert_eq!(lowering_reason(desc(DebugTyKind::Error)), "error type has no debug metadata");
    assert_eq!(
        lowering_reason(desc(DebugTyKind::Record { def: Err(RecordDefError::Missing(4)), layout: Ok(Layout { size: 1, align: 1 }) })),
        "record definition is missing"
    );
    assert_eq!(
        lowering_reason(desc(DebugTyKind::Record {
            def: Err(RecordDefError::NotARecord(4)),
            layout: Err("no layout".to_string())
        })),
        "record definition id does not name a record"
    );
    let def = DebugRecordDef { union: false, name: "s".to_string(), line: 1 };
    assert_eq!(
        lowering_reason(desc(DebugTyKind::Record { def: Ok(def), layout: Err("incomplete type".to_string()) })),
        "incomplete type"
    );
    assert_eq!(
        lowering_reason(desc(DebugTyKind::Array {
            elem: TyId(1),
            elem_layout: Err("bad element".to_string()),
            len: Some(1),
            is_vla: false
        })),
        "bad element"
    );
    assert_eq!(
        lowering_reason(desc(DebugTyKind::Complex { kind: FloatKind::F32, layout: Err("no complex".to_string()) })),
        "no complex"
    );
}

#[test]
fn debug_variables_skip_unnamed_vla_and_slotless_locals() {
    let local = |name: Option<u32>, is_vla: bool, has_storage: bool, is_param: bool, align: Option<u32>| DebugLocal {
        name,
        is_vla,
        has_storage,
        is_param,
        align,
        debug_ty: Ok(()),
    };
    let vars = debug_variables(&[
        local(None, false, true, false, Some(4)),
        local(Some(10), false, true, true, Some(4)),
        local(Some(11), false, true, true, Some(8)),
        local(Some(12), true, true, false, Some(4)),
        local(Some(13), false, false, false, Some(4)),
        local(Some(14), false, true, false, Some(16)),
        local(Some(15), false, true, false, None),
        local(Some(16), false, true, false, Some(u32::MAX)),
    ], true)
    .unwrap();
    assert_eq!(
        vars,
        vec![
            DebugVar { local: 1, name: 10, kind: DebugVarKind::Param(1) },
            DebugVar { local: 2, name: 11, kind: DebugVarKind::Param(2) },
            DebugVar { local: 5, name: 14, kind: DebugVarKind::Auto { align_bits: 128 } },
            DebugVar { local: 6, name: 15, kind: DebugVarKind::Auto { align_bits: 8 } },
            DebugVar { local: 7, name: 16, kind: DebugVarKind::Auto { align_bits: u32::MAX } },
        ]
    );
}

#[test]
fn debug_variables_fail_on_an_undescribable_type() {
    let local = |name: Option<u32>, has_storage: bool, debug_ty: Result<(), CodegenError>| DebugLocal {
        name,
        is_vla: false,
        has_storage,
        is_param: false,
        align: Some(4),
        debug_ty,
    };
    let bad = || Err(CodegenError::TypeLowering { ty: TyId(3), reason: "error type has no debug metadata".to_string() });
    // A local that is not declared is not described, so its type cannot fail.
    let vars = debug_variables(&[local(None, true, bad()), local(Some(1), false, bad()), local(Some(2), true, Ok(()))], true).unwrap();
    assert_eq!(vars, vec![DebugVar { local: 2, name: 2, kind: DebugVarKind::Auto { align_bits: 32 } }]);
    match debug_variables(&[local(Some(1), true, Ok(())), local(Some(2), true, bad())], true).unwrap_err() {
        CodegenError::TypeLowering { ty, reason } => {
            assert_eq!(ty, TyId(3));
            assert_eq!(reason, "error type has no debug metadata");
        }
        other => panic!("unexpected {other:?}"),
    }
    assert!(debug_variables(&[local(Some(2), true, bad())], false).unwrap().is_empty());
}

#[test]
fn debug_types_need_debug_info() {
    match debug_type_desc(&DebugTy { id: TyId(7), kind: DebugTyKind::Void }, false).unwrap_err() {
        CodegenError::Internal(m) => assert_eq!(m, "debug info is disabled"),
        other => panic!("unexpected {other:?}"),
    }
}
