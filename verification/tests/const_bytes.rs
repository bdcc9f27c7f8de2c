use rcc_conformance::abi::{AbiField, AbiTy, AbiTyKind, CodegenError, FloatKind, Layout, RecordDefError, TyId};
use rcc_conformance::const_bytes::{build_const_bytes, record_const_plan, const_value_plan, ConstValue, Designator, InitEntry, RecordConst, ScalarConst};

fn ty(id: u32, size: u64, align: u32, kind: AbiTyKind) -> AbiTy {
    AbiTy { id: TyId(id), layout: Ok(Layout { size, align }), kind }
}

fn int_ty() -> AbiTy {
    ty(1, 4, 4, AbiTyKind::Int { is_bool: false })
}

fn char_ty() -> AbiTy {
    ty(2, 1, 1, AbiTyKind::Int { is_bool: false })
}

fn short_ty() -> AbiTy {
    ty(3, 2, 2, AbiTyKind::Int { is_bool: false })
}

fn double_ty() -> AbiTy {
    ty(4, 8, 8, AbiTyKind::Float(FloatKind::F64))
}

fn field(t: AbiTy, offset: u64, size: u64) -> AbiField {
    AbiField { ty: t, offset, storage_size: size, storage_align: size as u32 }
}

fn entry(path: Vec<Designator>, v: ScalarConst) -> InitEntry {
    InitEntry { path, value: Ok(v) }
}

fn internal(e: CodegenError) -> String {
    match e {
        CodegenError::Internal(m) => m,
        other => panic!("expected an internal error, got {other:?}"),
    }
}

#[test]
fn struct_fields_are_placed_at_their_offsets() {
    let s = ty(
        10,
        8,
        4,
        AbiTyKind::Record { union: false, fields: Ok(vec![field(int_ty(), 0, 4), field(char_ty(), 4, 1)]) },
    );
    let entries = vec![
        entry(vec![Designator::Field(0)], ScalarConst::Int(0x1122_3344)),
        entry(vec![Designator::Field(1)], ScalarConst::Int(0x55)),
    ];
    assert_eq!(build_const_bytes(&s, &entries, 8).unwrap(), [0x44, 0x33, 0x22, 0x11, 0x55, 0, 0, 0]);
}

#[test]
fn array_elements_use_the_element_stride() {
    let a = ty(11, 6, 2, AbiTyKind::Array { elem: Box::new(short_ty()), elem_size: 2, len: Some(3) });
    let entries = vec![
        entry(vec![Designator::Index(1)], ScalarConst::Int(0x0102)),
        entry(vec![Designator::Index(2)], ScalarConst::Int(0xffff_0304)),
    ];
    assert_eq!(build_const_bytes(&a, &entries, 6).unwrap(), [0, 0, 2, 1, 4, 3]);
}

#[test]
fn empty_initializer_is_all_zero_and_scalars_are_little_endian() {
    assert_eq!(build_const_bytes(&int_ty(), &[], 4).unwrap(), [0, 0, 0, 0]);
    let one = vec![entry(Vec::new(), ScalarConst::Int(0x0a0b))];
    assert_eq!(build_const_bytes(&int_ty(), &one, 4).unwrap(), [0x0b, 0x0a, 0, 0]);
    let f32_one = vec![entry(Vec::new(), ScalarConst::Bits { bits: 0x3f80_0000, bytes: 4 })];
    assert_eq!(build_const_bytes(&int_ty(), &f32_one, 8).unwrap(), [0, 0, 0x80, 0x3f, 0, 0, 0, 0]);
    let addr = vec![entry(Vec::new(), ScalarConst::Opaque)];
    assert_eq!(build_const_bytes(&int_ty(), &addr, 3).unwrap(), [0, 0, 0]);
}

#[test]
fn union_takes_the_first_named_member() {
    let u = ty(
        12,
        8,
        8,
        AbiTyKind::Record { union: true, fields: Ok(vec![field(int_ty(), 0, 4), field(double_ty(), 0, 8)]) },
    );
    let entries = vec![
        entry(vec![Designator::Field(1)], ScalarConst::Bits { bits: 0x3ff0_0000_0000_0000, bytes: 8 }),
        entry(vec![Designator::Field(0)], ScalarConst::Int(7)),
    ];
    assert_eq!(build_const_bytes(&u, &entries, 8).unwrap(), [0, 0, 0, 0, 0, 0, 0xf0, 0x3f]);
    let bad = vec![
        entry(vec![Designator::Field(5)], ScalarConst::Int(1)),
        entry(vec![Designator::Field(0)], ScalarConst::Int(2)),
    ];
    assert_eq!(internal(build_const_bytes(&u, &bad, 8).unwrap_err()), "union field index 5 out of bounds");
}

#[test]
fn nested_designators_reach_inner_members() {
    let inner = ty(
        13,
        4,
        2,
        AbiTyKind::Record { union: false, fields: Ok(vec![field(short_ty(), 0, 2), field(short_ty(), 2, 2)]) },
    );
    let outer = ty(14, 8, 2, AbiTyKind::Array { elem: Box::new(inner), elem_size: 4, len: Some(2) });
    let entries = vec![
        entry(vec![Designator::Index(1), Designator::Field(1)], ScalarConst::Int(0x0908)),
        entry(vec![Designator::Index(0), Designator::Field(0)], ScalarConst::Int(0x01)),
    ];
    assert_eq!(build_const_bytes(&outer, &entries, 8).unwrap(), [1, 0, 0, 0, 0, 0, 8, 9]);
}

#[test]
fn errors_are_reported() {
    let missing = ty(15, 4, 4, AbiTyKind::Record { union: false, fields: Err(RecordDefError::Missing(3)) });
    let two = vec![
        entry(vec![Designator::Field(0)], ScalarConst::Int(1)),
        entry(vec![Designator::Field(1)], ScalarConst::Int(2)),
    ];
    assert_eq!(internal(build_const_bytes(&missing, &two, 4).unwrap_err()), "record definition DefId(3) not found");
    let not_record = ty(16, 4, 4, AbiTyKind::Record { union: false, fields: Err(RecordDefError::NotARecord(4)) });
    assert_eq!(internal(build_const_bytes(&not_record, &two, 4).unwrap_err()), "DefId(4) is not a record");
    assert_eq!(
        internal(build_const_bytes(&int_ty(), &two, 4).unwrap_err()),
        "expected scalar leaf or aggregate type for byte initializer, got TyId(1)"
    );
    let failing = vec![InitEntry { path: Vec::new(), value: Err(CodegenError::Internal("Int value for non-int type".to_owned())) }];
    assert_eq!(internal(build_const_bytes(&int_ty(), &failing, 4).unwrap_err()), "Int value for non-int type");
}

fn paths(entries: &[InitEntry]) -> Vec<Vec<Designator>> {
    entries.iter().map(|e| e.path.clone()).collect()
}

#[test]
fn struct_constant_hands_each_field_its_entries() {
    let s = ty(
        20,
        8,
        4,
        AbiTyKind::Record { union: false, fields: Ok(vec![field(int_ty(), 0, 4), field(int_ty(), 4, 4), field(char_ty(), 8, 1)]) },
    );
    let entries = vec![
        entry(vec![Designator::Field(1), Designator::Index(2)], ScalarConst::Int(5)),
        entry(vec![Designator::Field(0)], ScalarConst::Int(6)),
        entry(vec![Designator::Index(0)], ScalarConst::Int(7)),
        entry(vec![Designator::Field(1)], ScalarConst::Int(8)),
    ];
    let RecordConst::Struct(subs) = record_const_plan(&s, &entries).unwrap() else { panic!("expected a struct") };
    assert_eq!(subs.len(), 3);
    assert_eq!(paths(&subs[0]), vec![Vec::<Designator>::new()]);
    assert_eq!(subs[0][0].value.as_ref().unwrap(), &ScalarConst::Int(6));
    assert_eq!(paths(&subs[1]), vec![vec![Designator::Index(2)], Vec::new()]);
    assert_eq!(subs[1][1].value.as_ref().unwrap(), &ScalarConst::Int(8));
    assert!(subs[2].is_empty());
}

#[test]
fn union_constant_is_one_byte_array_of_the_union_size() {
    let u = ty(
        21,
        8,
        8,
        AbiTyKind::Record { union: true, fields: Ok(vec![field(int_ty(), 0, 4), field(short_ty(), 0, 2)]) },
    );
    let entries = vec![
        entry(vec![Designator::Index(0)], ScalarConst::Int(1)),
        entry(vec![Designator::Field(1)], ScalarConst::Int(0x0102)),
        entry(vec![Designator::Field(0)], ScalarConst::Int(9)),
    ];
    match record_const_plan(&u, &entries).unwrap() {
        RecordConst::Union { size, bytes } => {
            assert_eq!(size, 8);
            assert_eq!(bytes.unwrap(), [2, 1, 0, 0, 0, 0, 0, 0]);
        }
        other => panic!("expected a union, got {other:?}"),
    }
    let unnamed = vec![entry(vec![Designator::Index(3)], ScalarConst::Int(1))];
    match record_const_plan(&u, &unnamed).unwrap() {
        RecordConst::Union { size, bytes } => {
            assert_eq!(size, 8);
            assert!(bytes.is_none());
        }
        other => panic!("expected a union, got {other:?}"),
    }
}

#[test]
fn record_constant_errors_are_reported() {
    let fields = || Ok(vec![field(int_ty(), 0, 4)]);
    let u = ty(22, 4, 4, AbiTyKind::Record { union: true, fields: fields() });
    let bad = vec![entry(vec![Designator::Field(3)], ScalarConst::Int(1))];
    assert_eq!(internal(record_const_plan(&u, &bad).unwrap_err()), "union field index 3 out of bounds");
    let huge = ty(23, 1 << 32, 4, AbiTyKind::Record { union: true, fields: fields() });
    assert_eq!(internal(record_const_plan(&huge, &bad).unwrap_err()), "union size exceeds u32");
    let unlaid = AbiTy {
        id: TyId(24),
        layout: Err("incomplete type".to_owned()),
        kind: AbiTyKind::Record { union: true, fields: fields() },
    };
    match record_const_plan(&unlaid, &bad).unwrap_err() {
        CodegenError::TypeLowering { ty, reason } => {
            assert_eq!(ty, TyId(24));
            assert_eq!(reason, "incomplete type");
        }
        other => panic!("expected a lowering error, got {other:?}"),
    }
    let missing = ty(25, 4, 4, AbiTyKind::Record { union: true, fields: Err(RecordDefError::Missing(9)) });
    assert_eq!(internal(record_const_plan(&missing, &bad).unwrap_err()), "record definition DefId(9) not found");
    let failing = vec![InitEntry {
        path: vec![Designator::Field(0)],
        value: Err(CodegenError::Internal("Int value for non-int type".to_owned())),
    }];
    assert_eq!(internal(record_const_plan(&u, &failing).unwrap_err()), "Int value for non-int type");
}

#[test]
fn constant_value_is_zero_leaf_array_or_record() {
    assert!(matches!(const_value_plan(&int_ty(), &[]).unwrap(), ConstValue::Zero));
    let one = vec![entry(Vec::new(), ScalarConst::Int(3))];
    assert!(matches!(const_value_plan(&int_ty(), &one).unwrap(), ConstValue::Leaf));
    let a = ty(30, 6, 2, AbiTyKind::Array { elem: Box::new(short_ty()), elem_size: 2, len: Some(3) });
    let entries = vec![
        entry(vec![Designator::Index(2)], ScalarConst::Int(1)),
        entry(vec![Designator::Index(0), Designator::Field(1)], ScalarConst::Int(2)),
        entry(vec![Designator::Field(0)], ScalarConst::Int(3)),
    ];
    let ConstValue::Array(subs) = const_value_plan(&a, &entries).unwrap() else { panic!("expected an array") };
    assert_eq!(subs.len(), 3);
    assert_eq!(paths(&subs[0]), vec![vec![Designator::Field(1)]]);
    assert!(subs[1].is_empty());
    assert_eq!(paths(&subs[2]), vec![Vec::<Designator>::new()]);
    let s = ty(31, 4, 4, AbiTyKind::Record { union: false, fields: Ok(vec![field(int_ty(), 0, 4)]) });
    let ConstValue::Record(RecordConst::Struct(fs)) = const_value_plan(&s, &entries).unwrap() else {
        panic!("expected a struct")
    };
    assert_eq!(fs.len(), 1);
    assert_eq!(paths(&fs[0]), vec![Vec::<Designator>::new()]);
}

#[test]
fn constant_value_errors_are_reported() {
    let two = vec![
        entry(vec![Designator::Index(0)], ScalarConst::Int(1)),
        entry(vec![Designator::Index(1)], ScalarConst::Int(2)),
    ];
    let long = ty(32, 0, 1, AbiTyKind::Array { elem: Box::new(char_ty()), elem_size: 1, len: Some(1 << 32) });
    assert_eq!(internal(const_value_plan(&long, &two).unwrap_err()), "array length exceeds u32");
    assert_eq!(
        internal(const_value_plan(&int_ty(), &two).unwrap_err()),
        "expected aggregate type for nested global initializer, got TyId(1)"
    );
    let missing = ty(33, 4, 4, AbiTyKind::Record { union: false, fields: Err(RecordDefError::NotARecord(2)) });
    assert_eq!(internal(const_value_plan(&missing, &two).unwrap_err()), "DefId(2) is not a record");
}
