use rcc_conformance::abi::{
    call_abi_attributes, function_abi_attributes, merge_class, AbiAttr, AttrLoc, sysv_fn_abi, sysv_param_abi, sysv_return_abi, AbiClass, AbiField, AbiParam,
    AbiParamKind, AbiParamUnit, AbiParamUnitKind, AbiReturn, AbiReturnKind, AbiTy, AbiTyKind,
    CodegenError, FloatKind, Layout, RecordDefError, TyId,
};

fn ty(id: u32, size: u64, align: u32, kind: AbiTyKind) -> AbiTy {
    AbiTy { id: TyId(id), layout: Ok(Layout { size, align }), kind }
}

fn int_ty() -> AbiTy {
    ty(1, 4, 4, AbiTyKind::Int { is_bool: false })
}

fn bool_() -> AbiTy {
    ty(2, 1, 1, AbiTyKind::Int { is_bool: true })
}

fn long() -> AbiTy {
    ty(3, 8, 8, AbiTyKind::Int { is_bool: false })
}

fn char_() -> AbiTy {
    ty(4, 1, 1, AbiTyKind::Int { is_bool: false })
}

fn ptr() -> AbiTy {
    ty(5, 8, 8, AbiTyKind::Int { is_bool: false })
}

fn float() -> AbiTy {
    ty(6, 4, 4, AbiTyKind::Float(FloatKind::F32))
}

fn double() -> AbiTy {
    ty(7, 8, 8, AbiTyKind::Float(FloatKind::F64))
}

fn long_double() -> AbiTy {
    ty(8, 16, 16, AbiTyKind::Float(FloatKind::F80))
}

fn void() -> AbiTy {
    AbiTy { id: TyId(9), layout: Err("void has no layout".to_owned()), kind: AbiTyKind::Void }
}

fn field(t: AbiTy, offset: u64) -> AbiField {
    let (size, align) = match &t.layout {
        Ok(l) => (l.size, l.align),
        Err(_) => (0, 1),
    };
    AbiField { ty: t, offset, storage_size: size, storage_align: align }
}

fn record(id: u32, size: u64, align: u32, fields: Vec<AbiField>) -> AbiTy {
    ty(id, size, align, AbiTyKind::Record { union: false, fields: Ok(fields) })
}

fn pair() -> AbiTy {
    record(20, 8, 4, vec![field(int_ty(), 0), field(int_ty(), 4)])
}

fn mix() -> AbiTy {
    record(21, 16, 8, vec![field(int_ty(), 0), field(double(), 8)])
}

fn two_floats() -> AbiTy {
    record(22, 8, 4, vec![field(float(), 0), field(float(), 4)])
}

fn three_chars() -> AbiTy {
    let arr = ty(
        23,
        3,
        1,
        AbiTyKind::Array { elem: Box::new(char_()), elem_size: 1, len: Some(3) },
    );
    record(24, 3, 1, vec![field(arr, 0)])
}

fn big() -> AbiTy {
    record(25, 24, 8, vec![field(long(), 0), field(long(), 8), field(long(), 16)])
}

fn func(ret: AbiTy, params: Vec<AbiTy>, variadic: bool) -> AbiTy {
    AbiTy {
        id: TyId(99),
        layout: Err("function types have no layout".to_owned()),
        kind: AbiTyKind::Func { ret: Box::new(ret), params, variadic },
    }
}

fn source_shape(id: TyId) -> String {
    match id.0 {
        1 => "i32",
        2 => "i1",
        3 => "i64",
        4 => "i8",
        5 => "ptr",
        6 => "float",
        7 => "double",
        8 => "x86_fp80",
        _ => "<aggregate>",
    }
    .to_owned()
}

fn unit_shape(unit: &AbiParamUnit) -> String {
    match unit.kind {
        AbiParamUnitKind::Source(id) => source_shape(id),
        AbiParamUnitKind::Integer { bits } => format!("i{bits}"),
        AbiParamUnitKind::Float(FloatKind::F32) => "float".to_owned(),
        AbiParamUnitKind::Float(FloatKind::F64) => "double".to_owned(),
        AbiParamUnitKind::Float(FloatKind::F80) => "x86_fp80".to_owned(),
        AbiParamUnitKind::Vector { elem, lanes } => {
            let e = match elem {
                FloatKind::F32 => "float",
                FloatKind::F64 => "double",
                FloatKind::F80 => "x86_fp80",
            };
            format!("<{lanes} x {e}>")
        }
    }
}

fn abi_shapes(param: &AbiParam) -> Vec<String> {
    match &param.kind {
        AbiParamKind::Direct(units) => units.iter().map(unit_shape).collect(),
        AbiParamKind::Indirect { .. } => vec!["ptr".to_owned()],
    }
}

fn return_shape(ret: &AbiReturn) -> String {
    match &ret.kind {
        AbiReturnKind::Void | AbiReturnKind::Indirect { .. } => "void".to_owned(),
        AbiReturnKind::Direct { units } if units.len() == 1 => unit_shape(&units[0]),
        AbiReturnKind::Direct { units } => {
            format!("{{ {} }}", units.iter().map(unit_shape).collect::<Vec<_>>().join(", "))
        }
    }
}

fn return_uses_sret(ret: &AbiReturn) -> bool {
    matches!(ret.kind, AbiReturnKind::Indirect { sret: true, .. })
}

fn lowering_reason(e: &CodegenError) -> &str {
    match e {
        CodegenError::TypeLowering { reason, .. } => reason.as_str(),
        _ => panic!("expected a type lowering error, got {e:?}"),
    }
}

#[test]
fn sysv_abi_classifies_direct_return_shapes_and_bool_zeroext() {
    let cases = [
        (func(void(), Vec::new(), false), "void", false),
        (func(bool_(), Vec::new(), false), "i1", true),
        (func(int_ty(), Vec::new(), false), "i32", false),
        (func(double(), Vec::new(), false), "double", false),
        (func(pair(), Vec::new(), false), "i64", false),
        (func(mix(), Vec::new(), false), "{ i32, double }", false),
    ];
    for (fn_ty, expected_shape, expected_zeroext) in cases {
        let abi = sysv_fn_abi(&fn_ty).unwrap();
        assert_eq!(return_shape(&abi.ret), expected_shape);
        assert_eq!(abi.ret.zeroext, expected_zeroext);
        assert_eq!(abi.fixed_param_count, 0);
    }
}

#[test]
fn sysv_abi_classifies_sret_return_before_user_params() {
    let fn_ty = func(big(), vec![int_ty(), double()], false);
    let abi = sysv_fn_abi(&fn_ty).unwrap();
    assert_eq!(return_shape(&abi.ret), "void");
    assert!(return_uses_sret(&abi.ret));
    assert_eq!(abi.ret.classes, [AbiClass::Memory]);
    assert!(matches!(abi.ret.kind, AbiReturnKind::Indirect { sret: true, align: 8, size: 24 }));
    assert_eq!(abi_shapes(&abi.params[0]), ["i32"]);
    assert_eq!(abi_shapes(&abi.params[1]), ["double"]);
    assert_eq!(abi.fixed_param_count, 3);
}

#[test]
fn sysv_abi_classifies_scalar_params_and_variadic_boundary() {
    let fn_ty = func(void(), vec![int_ty(), double(), ptr()], true);
    let abi = sysv_fn_abi(&fn_ty).unwrap();
    assert!(abi.variadic);
    assert_eq!(abi.fixed_param_count, 3);
    assert_eq!(abi_shapes(&abi.params[0]), ["i32"]);
    assert_eq!(abi_shapes(&abi.params[1]), ["double"]);
    assert_eq!(abi_shapes(&abi.params[2]), ["ptr"]);
    assert_eq!(abi.params[0].classes, [AbiClass::Integer]);
    assert_eq!(abi.params[1].classes, [AbiClass::Sse]);
    assert_eq!(abi.params[2].classes, [AbiClass::Integer]);
}

#[test]
fn sysv_abi_golden_shapes_match_clang_for_aggregate_params() {
    let fn_ty = func(void(), vec![pair(), mix(), two_floats(), three_chars(), big()], false);
    let abi = sysv_fn_abi(&fn_ty).unwrap();
    assert_eq!(abi.fixed_param_count, 6);
    assert_eq!(abi_shapes(&abi.params[0]), ["i64"]);
    assert_eq!(abi_shapes(&abi.params[1]), ["i32", "double"]);
    assert_eq!(abi_shapes(&abi.params[2]), ["<2 x float>"]);
    assert_eq!(abi_shapes(&abi.params[3]), ["i24"]);
    assert_eq!(abi_shapes(&abi.params[4]), ["ptr"]);
    assert_eq!(abi.params[1].classes, [AbiClass::Integer, AbiClass::Sse]);
    assert_eq!(abi.params[4].classes, [AbiClass::Memory]);
    assert!(matches!(abi.params[4].kind, AbiParamKind::Indirect { byval: true, align: 8, size: 24 }));
}

#[test]
fn long_double_scalar_takes_x87_pair_but_one_unit() {
    let p = sysv_param_abi(&long_double()).unwrap();
    assert_eq!(p.classes, [AbiClass::X87, AbiClass::X87Up]);
    assert_eq!(p.llvm_param_count(), 1);
    assert_eq!(abi_shapes(&p), ["x86_fp80"]);
}

#[test]
fn long_double_inside_a_record_is_not_passed_directly() {
    let rec = record(30, 16, 16, vec![field(long_double(), 0)]);
    let err = sysv_param_abi(&rec).unwrap_err();
    assert_eq!(lowering_reason(&err), "unsupported direct ABI class");
}

#[test]
fn complex_long_double_return_is_complex_x87() {
    let c = ty(31, 32, 16, AbiTyKind::Complex(FloatKind::F80));
    let r = sysv_return_abi(&c).unwrap();
    assert_eq!(r.classes, [AbiClass::ComplexX87]);
    assert_eq!(r.llvm_param_count(), 0);
    // Passed as a parameter it spans four eightbytes and goes to memory.
    let p = sysv_param_abi(&c).unwrap();
    assert_eq!(p.classes, [AbiClass::Memory]);
    assert_eq!(p.llvm_param_count(), 1);
}

#[test]
fn complex_float_fills_one_sse_vector() {
    let c = ty(32, 8, 4, AbiTyKind::Complex(FloatKind::F32));
    let p = sysv_param_abi(&c).unwrap();
    assert_eq!(abi_shapes(&p), ["<2 x float>"]);
    let d = ty(33, 16, 8, AbiTyKind::Complex(FloatKind::F64));
    let p = sysv_param_abi(&d).unwrap();
    assert_eq!(abi_shapes(&p), ["double", "double"]);
    assert_eq!(p.classes, [AbiClass::Sse, AbiClass::Sse]);
}

#[test]
fn misaligned_field_sends_record_to_memory() {
    let packed = record(
        34,
        12,
        1,
        vec![field(char_(), 0), AbiField { ty: int_ty(), offset: 1, storage_size: 4, storage_align: 4 }],
    );
    let p = sysv_param_abi(&packed).unwrap();
    assert!(matches!(p.kind, AbiParamKind::Indirect { byval: true, align: 1, size: 12 }));
    assert_eq!(p.classes, [AbiClass::Memory]);
}

#[test]
fn zero_sized_fields_are_skipped() {
    let rec = record(
        35,
        8,
        8,
        vec![AbiField { ty: int_ty(), offset: 0, storage_size: 0, storage_align: 0 }, field(double(), 0)],
    );
    let p = sysv_param_abi(&rec).unwrap();
    assert_eq!(abi_shapes(&p), ["double"]);
}

#[test]
fn parameter_errors_name_the_type() {
    let err = sysv_param_abi(&void()).unwrap_err();
    assert_eq!(lowering_reason(&err), "void is not a parameter type");
    assert_eq!(err.message(), "failed to lower HIR type TyId(9) to LLVM: void is not a parameter type");
    let f = func(int_ty(), Vec::new(), false);
    assert_eq!(lowering_reason(&sysv_param_abi(&f).unwrap_err()), "function parameters must decay");
    assert_eq!(lowering_reason(&sysv_return_abi(&f).unwrap_err()), "function return types must decay");
    let e = AbiTy { id: TyId(40), layout: Err("bad".to_owned()), kind: AbiTyKind::Error };
    assert_eq!(lowering_reason(&sysv_param_abi(&e).unwrap_err()), "error type cannot be ABI-classified");
    assert_eq!(lowering_reason(&sysv_fn_abi(&int_ty()).unwrap_err()), "not a function type");
}

#[test]
fn layout_and_definition_errors_propagate() {
    let broken = AbiTy {
        id: TyId(41),
        layout: Err("incomplete record".to_owned()),
        kind: AbiTyKind::Record { union: false, fields: Ok(Vec::new()) },
    };
    assert_eq!(lowering_reason(&sysv_param_abi(&broken).unwrap_err()), "incomplete record");
    let missing = ty(42, 8, 8, AbiTyKind::Record { union: false, fields: Err(RecordDefError::Missing(7)) });
    assert_eq!(
        lowering_reason(&sysv_param_abi(&missing).unwrap_err()),
        "record definition DefId(7) is missing"
    );
    let incomplete = ty(43, 8, 1, AbiTyKind::Array { elem: Box::new(char_()), elem_size: 1, len: None });
    assert_eq!(
        lowering_reason(&sysv_param_abi(&incomplete).unwrap_err()),
        "incomplete arrays cannot be ABI-classified"
    );
    let oversized = ty(44, u64::MAX, 8, AbiTyKind::Array { elem: Box::new(char_()), elem_size: 1, len: Some(3) });
    assert_eq!(lowering_reason(&sysv_param_abi(&oversized).unwrap_err()), "ABI size overflow");
}

#[test]
fn first_failing_parameter_is_reported() {
    let f = func(int_ty(), vec![int_ty(), void(), func(int_ty(), Vec::new(), false)], false);
    assert_eq!(lowering_reason(&sysv_fn_abi(&f).unwrap_err()), "void is not a parameter type");
}

#[test]
fn large_aggregates_go_to_memory() {
    let arr = ty(45, 40, 8, AbiTyKind::Array { elem: Box::new(long()), elem_size: 8, len: Some(5) });
    let p = sysv_param_abi(&arr).unwrap();
    assert!(matches!(p.kind, AbiParamKind::Indirect { byval: true, align: 8, size: 40 }));
    let r = sysv_return_abi(&arr).unwrap();
    assert!(matches!(r.kind, AbiReturnKind::Indirect { sret: true, align: 8, size: 40 }));
    assert_eq!(r.llvm_param_count(), 1);
}

#[test]
fn merge_class_laws_on_concrete_classes() {
    let all = [
        AbiClass::NoClass,
        AbiClass::Integer,
        AbiClass::Sse,
        AbiClass::SseUp,
        AbiClass::X87,
        AbiClass::X87Up,
        AbiClass::ComplexX87,
        AbiClass::Memory,
    ];
    for a in all {
        assert_eq!(merge_class(AbiClass::NoClass, a), a);
        assert_eq!(merge_class(a, AbiClass::Memory), AbiClass::Memory);
        assert_eq!(merge_class(a, a), a);
        for b in all {
            assert_eq!(merge_class(a, b), merge_class(b, a));
        }
    }
    assert_eq!(merge_class(AbiClass::Integer, AbiClass::Sse), AbiClass::Integer);
    assert_eq!(merge_class(AbiClass::X87, AbiClass::Sse), AbiClass::Memory);
    assert_eq!(merge_class(AbiClass::Sse, AbiClass::SseUp), AbiClass::Sse);
    assert_eq!(AbiClass::default(), AbiClass::NoClass);
}

#[test]
fn codegen_error_messages() {
    assert_eq!(CodegenError::BackendDisabled.message(), "rcc_codegen_llvm built without the `llvm` feature");
    assert_eq!(CodegenError::Internal("x".to_owned()).message(), "internal codegen error: x");
}

#[test]
fn abi_attributes_follow_llvm_parameter_numbering() {
    let abi = sysv_fn_abi(&func(big(), vec![int_ty(), big()], false)).unwrap();
    let attrs = function_abi_attributes(&abi).unwrap();
    assert_eq!(
        attrs,
        [
            (AttrLoc::Param(0), AbiAttr::StructRet(TyId(25))),
            (AttrLoc::Param(0), AbiAttr::Align(8)),
            (AttrLoc::Param(2), AbiAttr::ByVal(TyId(25))),
            (AttrLoc::Param(2), AbiAttr::Align(8)),
        ]
    );
    assert_eq!(call_abi_attributes(&abi).unwrap(), attrs);
    assert_eq!(abi.fixed_param_count, 3);
    let abi = sysv_fn_abi(&func(bool_(), vec![pair()], false)).unwrap();
    assert_eq!(function_abi_attributes(&abi).unwrap(), [(AttrLoc::Return, AbiAttr::ZeroExt)]);
}

#[test]
fn record_definition_errors() {
    let not_record = ty(46, 8, 8, AbiTyKind::Record { union: false, fields: Err(RecordDefError::NotARecord(2)) });
    assert_eq!(
        lowering_reason(&sysv_param_abi(&not_record).unwrap_err()),
        "record type does not reference a record definition"
    );
}
