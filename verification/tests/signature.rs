use rcc_conformance::abi::{sysv_fn_abi, AbiField, AbiTy, AbiTyKind, FloatKind, Layout, TyId};
use rcc_conformance::signature::{llvm_signature, SigRet, SigTy};

fn ty(id: u32, size: u64, align: u32, kind: AbiTyKind) -> AbiTy {
    AbiTy { id: TyId(id), layout: Ok(Layout { size, align }), kind }
}

fn int_ty() -> AbiTy {
    ty(1, 4, 4, AbiTyKind::Int { is_bool: false })
}

fn float() -> AbiTy {
    ty(6, 4, 4, AbiTyKind::Float(FloatKind::F32))
}

fn double() -> AbiTy {
    ty(7, 8, 8, AbiTyKind::Float(FloatKind::F64))
}

fn void() -> AbiTy {
    AbiTy { id: TyId(9), layout: Err("void has no layout".to_owned()), kind: AbiTyKind::Void }
}

fn field(t: AbiTy, offset: u64) -> AbiField {
    let (size, align) = match &t.layout {
        Ok(l) => (l.size, l.align),
        Err(_) => (0, 1),
    };
    AbiField { ty: t, offset, storage_size: size, storage_align: align }
}

fn record(id: u32, size: u64, align: u32, fields: Vec<AbiField>) -> AbiTy {
    ty(id, size, align, AbiTyKind::Record { union: false, fields: Ok(fields) })
}

fn func(ret: AbiTy, params: Vec<AbiTy>, variadic: bool) -> AbiTy {
    ty(40, 1, 1, AbiTyKind::Func { ret: Box::new(ret), params, variadic })
}

#[test]
fn scalar_signature() {
    let abi = sysv_fn_abi(&func(int_ty(), vec![int_ty(), double()], true)).unwrap();
    let sig = llvm_signature(&abi);
    assert_eq!(sig.params, vec![SigTy::Of(TyId(1)), SigTy::Of(TyId(7))]);
    assert_eq!(sig.ret, SigRet::One(SigTy::Of(TyId(1))));
    assert!(sig.variadic);
    assert_eq!(sig.params.len(), abi.fixed_param_count);
}

#[test]
fn aggregate_signature_coerces_units() {
    let mix = || record(21, 16, 8, vec![field(int_ty(), 0), field(double(), 8)]);
    let two_floats = record(22, 8, 4, vec![field(float(), 0), field(float(), 4)]);
    let abi = sysv_fn_abi(&func(mix(), vec![two_floats, mix()], false)).unwrap();
    let sig = llvm_signature(&abi);
    assert_eq!(
        sig.params,
        vec![SigTy::Vector { elem: FloatKind::F32, lanes: 2 }, SigTy::Int(32), SigTy::Float(FloatKind::F64)]
    );
    assert_eq!(sig.ret, SigRet::Struct(vec![SigTy::Int(32), SigTy::Float(FloatKind::F64)]));
    assert_eq!(sig.params.len(), abi.fixed_param_count);
}

#[test]
fn memory_return_adds_hidden_pointer() {
    let big = || record(30, 32, 8, vec![field(double(), 0), field(double(), 8), field(double(), 16), field(double(), 24)]);
    let abi = sysv_fn_abi(&func(big(), vec![big(), int_ty()], false)).unwrap();
    let sig = llvm_signature(&abi);
    assert_eq!(sig.params, vec![SigTy::Ptr, SigTy::Ptr, SigTy::Of(TyId(1))]);
    assert_eq!(sig.ret, SigRet::Void);
    assert_eq!(sig.params.len(), abi.fixed_param_count);
    let abi = sysv_fn_abi(&func(void(), vec![], false)).unwrap();
    let sig = llvm_signature(&abi);
    assert!(sig.params.is_empty());
    assert_eq!(sig.ret, SigRet::Void);
}
