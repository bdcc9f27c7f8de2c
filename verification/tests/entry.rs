use rcc_conformance::abi::{sysv_fn_abi, AbiField, AbiReturnKind, AbiTy, AbiTyKind, CodegenError, FloatKind, Layout, TyId};
use rcc_conformance::entry::{param_store_plan, return_plan, ReturnPlan, Slot};

fn ty(id: u32, size: u64, align: u32, kind: AbiTyKind) -> AbiTy {
    AbiTy { id: TyId(id), layout: Ok(Layout { size, align }), kind }
}

fn int_ty() -> AbiTy {
    ty(1, 4, 4, AbiTyKind::Int { is_bool: false })
}

fn double() -> AbiTy {
    ty(7, 8, 8, AbiTyKind::Float(FloatKind::F64))
}

fn void() -> AbiTy {
    AbiTy { id: TyId(9), layout: Err("void has no layout".to_owned()), kind: AbiTyKind::Void }
}

fn field(t: AbiTy, offset: u64) -> AbiField {
    let (size, align) = match &t.layout {
        Ok(l) => (l.size, l.align),
        Err(_) => (0, 1),
    };
    AbiField { ty: t, offset, storage_size: size, storage_align: align }
}

fn record(id: u32, size: u64, align: u32, fields: Vec<AbiField>) -> AbiTy {
    ty(id, size, align, AbiTyKind::Record { union: false, fields: Ok(fields) })
}

fn mix() -> AbiTy {
    record(21, 16, 8, vec![field(int_ty(), 0), field(double(), 8)])
}

fn big() -> AbiTy {
    record(30, 32, 8, vec![field(double(), 0), field(double(), 8), field(double(), 16), field(double(), 24)])
}

fn func(ret: AbiTy, params: Vec<AbiTy>, variadic: bool) -> AbiTy {
    ty(40, 1, 1, AbiTyKind::Func { ret: Box::new(ret), params, variadic })
}

fn message(e: CodegenError) -> String {
    match e {
        CodegenError::Internal(m) => m,
        other => panic!("expected an internal error, got {other:?}"),
    }
}

#[test]
fn prologue_without_signature_stores_each_parameter() {
    let plan = param_store_plan(&[1, 2], None, 2).unwrap();
    assert_eq!(plan, vec![(0, Slot::Whole { local: 1 }), (1, Slot::Whole { local: 2 })]);
    assert_eq!(message(param_store_plan(&[1, 2], None, 1).unwrap_err()), "missing LLVM parameter 1 for local Local(2)");
    assert!(param_store_plan(&[], None, 0).unwrap().is_empty());
}

#[test]
fn prologue_with_signature_follows_the_abi() {
    let abi = sysv_fn_abi(&func(big(), vec![mix(), big(), int_ty()], false)).unwrap();
    let plan = param_store_plan(&[1, 2, 3], Some(&abi), abi.fixed_param_count as u32).unwrap();
    assert_eq!(
        plan,
        vec![
            (1, Slot::Unit { local: 1, offset: 0 }),
            (2, Slot::Unit { local: 1, offset: 8 }),
            (3, Slot::Storage { local: 2 }),
            (4, Slot::Unit { local: 3, offset: 0 }),
        ]
    );
    assert_eq!(abi.fixed_param_count, 5);
    assert_eq!(
        message(param_store_plan(&[1, 2, 3], Some(&abi), 2).unwrap_err()),
        "missing LLVM parameter 2 for local Local(1)"
    );
    assert_eq!(
        message(param_store_plan(&[1, 2, 3], Some(&abi), 0).unwrap_err()),
        "missing LLVM parameter 1 for local Local(1)"
    );
    // Fewer parameter locals than ABI parameters: only the paired ones.
    let plan = param_store_plan(&[4], Some(&abi), 5).unwrap();
    assert_eq!(plan, vec![(1, Slot::Unit { local: 4, offset: 0 }), (2, Slot::Unit { local: 4, offset: 8 })]);
}

#[test]
fn return_plans() {
    assert_eq!(message(return_plan(None, false, None, 0).unwrap_err()), "CFG body is missing its return type");
    assert_eq!(return_plan(Some(TyId(9)), true, None, 0).unwrap(), ReturnPlan::Void);
    assert_eq!(return_plan(Some(TyId(1)), false, None, 0).unwrap(), ReturnPlan::Slot(TyId(1)));

    let abi = sysv_fn_abi(&func(int_ty(), vec![], false)).unwrap();
    assert_eq!(return_plan(Some(TyId(1)), false, Some(&abi.ret), 0).unwrap(), ReturnPlan::Slot(TyId(1)));

    let abi = sysv_fn_abi(&func(mix(), vec![], false)).unwrap();
    let units = match &abi.ret.kind {
        AbiReturnKind::Direct { units } => units.clone(),
        other => panic!("unexpected {other:?}"),
    };
    assert_eq!(
        return_plan(Some(TyId(21)), false, Some(&abi.ret), 0).unwrap(),
        ReturnPlan::Units(vec![(0, 0, units[0]), (1, 8, units[1])])
    );

    let pair = record(20, 8, 4, vec![field(int_ty(), 0), field(int_ty(), 4)]);
    let abi = sysv_fn_abi(&func(pair, vec![], false)).unwrap();
    let units = match &abi.ret.kind {
        AbiReturnKind::Direct { units } => units.clone(),
        other => panic!("unexpected {other:?}"),
    };
    assert_eq!(return_plan(Some(TyId(20)), false, Some(&abi.ret), 0).unwrap(), ReturnPlan::OneUnit(units[0]));

    let abi = sysv_fn_abi(&func(big(), vec![], false)).unwrap();
    assert_eq!(return_plan(Some(TyId(30)), false, Some(&abi.ret), 1).unwrap(), ReturnPlan::CopyToSret(TyId(30)));
    assert_eq!(
        message(return_plan(Some(TyId(30)), false, Some(&abi.ret), 0).unwrap_err()),
        "sret function is missing hidden return pointer"
    );
    let abi = sysv_fn_abi(&func(void(), vec![], false)).unwrap();
    assert_eq!(return_plan(Some(TyId(9)), false, Some(&abi.ret), 0).unwrap(), ReturnPlan::Void);
}
