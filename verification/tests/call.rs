use rcc_conformance::abi::{sysv_fn_abi, AbiField, AbiParamKind, AbiTy, AbiTyKind, CodegenError, FloatKind, Layout, TyId};
use rcc_conformance::call::{call_args_plan, call_name, result_store, ArgSource, ResultStore};

fn ty(id: u32, size: u64, align: u32, kind: AbiTyKind) -> AbiTy {
    AbiTy { id: TyId(id), layout: Ok(Layout { size, align }), kind }
}

fn int_ty() -> AbiTy {
    ty(1, 4, 4, AbiTyKind::Int { is_bool: false })
}

fn double() -> AbiTy {
    ty(7, 8, 8, AbiTyKind::Float(FloatKind::F64))
}

fn void() -> AbiTy {
    AbiTy { id: TyId(9), layout: Err("void has no layout".to_owned()), kind: AbiTyKind::Void }
}

fn field(t: AbiTy, offset: u64) -> AbiField {
    let (size, align) = match &t.layout {
        Ok(l) => (l.size, l.align),
        Err(_) => (0, 1),
    };
    AbiField { ty: t, offset, storage_size: size, storage_align: align }
}

fn record(id: u32, size: u64, align: u32, fields: Vec<AbiField>) -> AbiTy {
    ty(id, size, align, AbiTyKind::Record { union: false, fields: Ok(fields) })
}

fn mix() -> AbiTy {
    record(21, 16, 8, vec![field(int_ty(), 0), field(double(), 8)])
}

fn big() -> AbiTy {
    record(30, 32, 8, vec![field(double(), 0), field(double(), 8), field(double(), 16), field(double(), 24)])
}

fn func(ret: AbiTy, params: Vec<AbiTy>, variadic: bool) -> AbiTy {
    ty(40, 1, 1, AbiTyKind::Func { ret: Box::new(ret), params, variadic })
}

fn message(e: CodegenError) -> String {
    match e {
        CodegenError::Internal(m) => m,
        other => panic!("expected an internal error, got {other:?}"),
    }
}

#[test]
fn variadic_call_passes_extra_arguments_by_value() {
    let abi = sysv_fn_abi(&func(int_ty(), vec![int_ty(), double()], true)).unwrap();
    let args = call_args_plan(&abi, 4, true).unwrap();
    assert_eq!(args, vec![ArgSource::Value(0), ArgSource::Value(1), ArgSource::Value(2), ArgSource::Value(3)]);
    assert_eq!(call_name(&abi.ret), "call");
    assert_eq!(result_store(&abi.ret, true).unwrap(), ResultStore::Whole);
}

#[test]
fn aggregate_argument_is_passed_by_units() {
    let abi = sysv_fn_abi(&func(mix(), vec![mix(), int_ty()], false)).unwrap();
    let units = match &abi.params[0].kind {
        AbiParamKind::Direct(units) => units.clone(),
        other => panic!("unexpected {other:?}"),
    };
    let args = call_args_plan(&abi, 2, true).unwrap();
    assert_eq!(
        args,
        vec![
            ArgSource::Unit { arg: 0, offset: 0, unit: units[0] },
            ArgSource::Unit { arg: 0, offset: 8, unit: units[1] },
            ArgSource::Value(1),
        ]
    );
    assert_eq!(result_store(&abi.ret, true).unwrap(), ResultStore::Units(vec![(0, 0), (1, 8)]));
    assert_eq!(args.len(), abi.fixed_param_count);
}

#[test]
fn memory_return_passes_destination_first() {
    let abi = sysv_fn_abi(&func(big(), vec![big(), int_ty()], false)).unwrap();
    let args = call_args_plan(&abi, 2, true).unwrap();
    assert_eq!(args, vec![ArgSource::DestAddr, ArgSource::Address(0), ArgSource::Value(1)]);
    assert_eq!(call_name(&abi.ret), "");
    assert_eq!(result_store(&abi.ret, true).unwrap(), ResultStore::Nothing);
    assert_eq!(
        message(call_args_plan(&abi, 2, false).unwrap_err()),
        "indirect ABI return requires a call destination"
    );
    assert_eq!(message(result_store(&abi.ret, false).unwrap_err()), "indirect ABI return requires a call destination");
}

#[test]
fn call_argument_count_errors() {
    let abi = sysv_fn_abi(&func(int_ty(), vec![int_ty(), double()], true)).unwrap();
    assert_eq!(
        message(call_args_plan(&abi, 0, true).unwrap_err()),
        "variadic call has 0 args but ABI requires at least 2 fixed params"
    );
    let abi = sysv_fn_abi(&func(int_ty(), vec![int_ty(), double()], false)).unwrap();
    assert_eq!(
        message(call_args_plan(&abi, 1, true).unwrap_err()),
        "call argument count 1 does not match ABI parameter count 2"
    );
}

#[test]
fn call_result_errors() {
    let abi = sysv_fn_abi(&func(void(), vec![], false)).unwrap();
    assert_eq!(result_store(&abi.ret, false).unwrap(), ResultStore::Nothing);
    assert_eq!(message(result_store(&abi.ret, true).unwrap_err()), "void call cannot write a destination");
    let abi = sysv_fn_abi(&func(int_ty(), vec![], false)).unwrap();
    assert_eq!(message(result_store(&abi.ret, false).unwrap_err()), "direct ABI return requires a call destination");
}
