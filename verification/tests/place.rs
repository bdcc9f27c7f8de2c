use rcc_conformance::abi::{CodegenError, TyId};
use rcc_conformance::place::{
    field_access, place_addr_plan, place_is_volatile, place_prefix_object_volatile, place_ty, AddrStep, FieldDef,
    FieldPos, LocalDecl, Place, PlaceTyKind, Proj, QualTy, RecordDef, RecordLookup,
};

fn q(ty: u32, is_volatile: bool) -> QualTy {
    QualTy { ty: TyId(ty), is_volatile }
}

fn pos(offset: u64, is_bitfield: bool) -> FieldPos {
    FieldPos { offset, is_bitfield }
}

/// 0 int; 1 `volatile int *`; 2 `int[4]`; 3 `struct s { int a; volatile int b[4]; }`;
/// 4 `struct s *`; 5 `int *volatile [2]`; 6 `int[n]`; 7 record with a
/// missing definition; 8 struct with one bit-field; 9 `union { int a; int b[4]; }`.
fn types() -> Vec<PlaceTyKind> {
    vec![
        PlaceTyKind::Other,
        PlaceTyKind::Ptr(q(0, true)),
        PlaceTyKind::Array { elem: q(0, false), is_vla: false },
        PlaceTyKind::Record {
            def: 5,
            lookup: RecordLookup::Found(RecordDef {
                union: false,
                fields: vec![FieldDef { ty: TyId(0), is_volatile: false }, FieldDef { ty: TyId(2), is_volatile: true }],
                layout: Ok(vec![pos(0, false), pos(8, false)]),
            }),
        },
        PlaceTyKind::Ptr(q(3, false)),
        PlaceTyKind::Array { elem: q(1, true), is_vla: false },
        PlaceTyKind::Array { elem: q(0, false), is_vla: true },
        PlaceTyKind::Record { def: 9, lookup: RecordLookup::Missing },
        PlaceTyKind::Record {
            def: 10,
            lookup: RecordLookup::Found(RecordDef {
                union: false,
                fields: vec![FieldDef { ty: TyId(0), is_volatile: false }],
                layout: Ok(vec![pos(4, true)]),
            }),
        },
        PlaceTyKind::Record {
            def: 11,
            lookup: RecordLookup::Found(RecordDef {
                union: true,
                fields: vec![FieldDef { ty: TyId(0), is_volatile: false }, FieldDef { ty: TyId(2), is_volatile: false }],
                layout: Ok(vec![pos(0, false), pos(0, false)]),
            }),
        },
    ]
}

fn locals() -> Vec<LocalDecl> {
    vec![
        LocalDecl { ty: TyId(4), is_volatile: false },
        LocalDecl { ty: TyId(3), is_volatile: true },
        LocalDecl { ty: TyId(5), is_volatile: false },
        LocalDecl { ty: TyId(6), is_volatile: false },
        LocalDecl { ty: TyId(7), is_volatile: false },
        LocalDecl { ty: TyId(8), is_volatile: false },
        LocalDecl { ty: TyId(9), is_volatile: false },
    ]
}

fn place(base: u32, projection: Vec<Proj>) -> Place {
    Place { base, projection }
}

fn internal_message(e: CodegenError) -> String {
    match e {
        CodegenError::Internal(m) => m,
        other => panic!("expected an internal error, got {other:?}"),
    }
}

#[test]
fn place_type_follows_projections() {
    let (t, l) = (types(), locals());
    assert_eq!(place_ty(&t, &l, &place(0, vec![Proj::Deref, Proj::Field(1), Proj::Index])).unwrap(), TyId(0));
    assert_eq!(place_ty(&t, &l, &place(0, vec![])).unwrap(), TyId(4));
    assert_eq!(place_ty(&t, &l, &place(2, vec![Proj::Index, Proj::Deref])).unwrap(), TyId(0));
    assert_eq!(place_ty(&t, &l, &place(0, vec![Proj::Index])).unwrap(), TyId(3));
}

#[test]
fn address_of_struct_field_element() {
    let (t, l) = (types(), locals());
    let (ty, steps) = place_addr_plan(&t, &l, 7, &place(0, vec![Proj::Deref, Proj::Field(1), Proj::Index])).unwrap();
    assert_eq!(ty, TyId(0));
    assert_eq!(steps, vec![AddrStep::LoadPtr { volatile: false }, AddrStep::ByteOffset(8), AddrStep::IndexArray(TyId(2))]);
    let (_, steps) = place_addr_plan(&t, &l, 7, &place(0, vec![Proj::Deref, Proj::Field(0)])).unwrap();
    assert_eq!(steps, vec![AddrStep::LoadPtr { volatile: false }]);
}

#[test]
fn address_through_pointers_and_vlas() {
    let (t, l) = (types(), locals());
    let (ty, steps) = place_addr_plan(&t, &l, 7, &place(2, vec![Proj::Index, Proj::Deref])).unwrap();
    assert_eq!(ty, TyId(0));
    assert_eq!(steps, vec![AddrStep::IndexArray(TyId(5)), AddrStep::LoadPtr { volatile: true }]);
    let (_, steps) = place_addr_plan(&t, &l, 7, &place(3, vec![Proj::Index])).unwrap();
    assert_eq!(steps, vec![AddrStep::IndexElem(TyId(0))]);
    let (ty, steps) = place_addr_plan(&t, &l, 7, &place(0, vec![Proj::Index])).unwrap();
    assert_eq!(ty, TyId(3));
    assert_eq!(steps, vec![AddrStep::LoadPtr { volatile: false }, AddrStep::IndexElem(TyId(3))]);
    let (ty, steps) = place_addr_plan(&t, &l, 7, &place(6, vec![Proj::Field(1)])).unwrap();
    assert_eq!(ty, TyId(2));
    assert!(steps.is_empty());
}

#[test]
fn volatility_of_places() {
    let (t, l) = (types(), locals());
    assert!(place_is_volatile(&t, &l, &place(1, vec![Proj::Field(0)])).unwrap());
    assert!(place_is_volatile(&t, &l, &place(0, vec![Proj::Deref, Proj::Field(1), Proj::Index])).unwrap());
    assert!(!place_is_volatile(&t, &l, &place(0, vec![Proj::Deref, Proj::Field(0)])).unwrap());
    assert!(place_is_volatile(&t, &l, &place(2, vec![Proj::Index, Proj::Deref])).unwrap());
    assert!(place_is_volatile(&t, &l, &place(2, vec![Proj::Index])).unwrap());
}

#[test]
fn object_volatility_of_prefixes() {
    let (t, l) = (types(), locals());
    let p = place(2, vec![Proj::Index, Proj::Deref]);
    assert!(!place_prefix_object_volatile(&t, &l, &p, 0).unwrap());
    assert!(place_prefix_object_volatile(&t, &l, &p, 1).unwrap());
    assert!(place_prefix_object_volatile(&t, &l, &p, 2).unwrap());
    assert!(place_prefix_object_volatile(&t, &l, &p, 9).unwrap());
    let r = place(0, vec![Proj::Deref, Proj::Field(0)]);
    assert!(!place_prefix_object_volatile(&t, &l, &r, 2).unwrap());
    let s = place(0, vec![Proj::Deref, Proj::Field(1), Proj::Index]);
    assert!(place_prefix_object_volatile(&t, &l, &s, 2).unwrap());
    assert!(place_prefix_object_volatile(&t, &l, &s, 3).unwrap());
    let v = place(2, vec![Proj::Index]);
    let plain = vec![PlaceTyKind::Other, PlaceTyKind::Array { elem: q(0, true), is_vla: false }];
    let one = vec![LocalDecl { ty: TyId(1), is_volatile: false }];
    assert!(!place_prefix_object_volatile(&plain, &one, &place(0, vec![Proj::Index]), 1).unwrap());
    assert!(place_is_volatile(&plain, &one, &place(0, vec![Proj::Index])).unwrap());
    assert!(place_prefix_object_volatile(&t, &l, &v, 1).unwrap());
    assert!(place_prefix_object_volatile(&t, &l, &place(1, vec![]), 0).unwrap());
}

#[test]
fn place_errors() {
    let (t, l) = (types(), locals());
    assert_eq!(
        internal_message(place_ty(&t, &l, &place(4, vec![Proj::Field(0)])).unwrap_err()),
        "record definition DefId(9) is missing"
    );
    assert_eq!(
        internal_message(place_ty(&t, &l, &place(1, vec![Proj::Deref])).unwrap_err()),
        "invalid dereference projection for place type TyId(3)"
    );
    assert_eq!(
        internal_message(place_is_volatile(&t, &l, &place(1, vec![Proj::Field(5)])).unwrap_err()),
        "record DefId(5) has no field at index 5"
    );
    assert_eq!(
        internal_message(place_ty(&t, &l, &place(9, vec![])).unwrap_err()),
        "place base local Local(9) is missing"
    );
    assert_eq!(
        internal_message(place_addr_plan(&t, &l, 2, &place(3, vec![])).unwrap_err()),
        "missing LLVM storage for local Local(3)"
    );
    assert_eq!(
        internal_message(place_addr_plan(&t, &l, 7, &place(5, vec![Proj::Field(0)])).unwrap_err()),
        "cannot take the address of a bit-field"
    );
    assert_eq!(place_ty(&t, &l, &place(5, vec![Proj::Field(0)])).unwrap(), TyId(0));
    assert_eq!(
        internal_message(place_addr_plan(&t, &l, 7, &place(0, vec![Proj::Field(0)])).unwrap_err()),
        "invalid field projection for place type TyId(4)"
    );
    assert_eq!(
        internal_message(place_ty(&t, &l, &place(3, vec![Proj::Index, Proj::Index])).unwrap_err()),
        "invalid index projection for place type TyId(0)"
    );
}

#[test]
fn field_layout_errors() {
    let t = vec![PlaceTyKind::Record {
        def: 2,
        lookup: RecordLookup::Found(RecordDef {
            union: false,
            fields: vec![FieldDef { ty: TyId(0), is_volatile: false }],
            layout: Err("incomplete record".to_string()),
        }),
    }];
    match field_access(&t, TyId(0), 0).unwrap_err() {
        CodegenError::TypeLowering { ty, reason } => {
            assert_eq!(ty, TyId(0));
            assert_eq!(reason, "incomplete record");
        }
        other => panic!("unexpected {other:?}"),
    }
    let t = vec![PlaceTyKind::Record { def: 3, lookup: RecordLookup::NotARecord }];
    assert_eq!(internal_message(field_access(&t, TyId(0), 0).unwrap_err()), "definition DefId(3) is not a record");
    let t = vec![PlaceTyKind::Record {
        def: 4,
        lookup: RecordLookup::Found(RecordDef {
            union: false,
            fields: vec![FieldDef { ty: TyId(0), is_volatile: false }],
            layout: Ok(vec![]),
        }),
    }];
    assert_eq!(
        internal_message(field_access(&t, TyId(0), 0).unwrap_err()),
        "record DefId(4) layout has no field at index 0"
    );
}
