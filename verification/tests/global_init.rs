use rcc_conformance::abi::CodegenError;
use rcc_conformance::casts::ValueClass;
use rcc_conformance::global_init::{check_init_leaves, init_const, AddrBase, ByteOffset, InitConst, InitScalar, SymbolLookup};

fn internal(e: CodegenError) -> String {
    match e {
        CodegenError::Internal(m) => m,
        other => panic!("expected an internal error, got {other:?}"),
    }
}

#[test]
fn scalar_initializers() {
    assert_eq!(
        init_const(InitScalar::Int(5), ValueClass::Int(32), SymbolLookup::Undeclared).unwrap(),
        InitConst::Int { bits: 5, sign_extend: false }
    );
    assert_eq!(
        init_const(InitScalar::Int(-1), ValueClass::Int(8), SymbolLookup::Undeclared).unwrap(),
        InitConst::Int { bits: u64::MAX, sign_extend: true }
    );
    assert_eq!(internal(init_const(InitScalar::Int(1), ValueClass::Ptr, SymbolLookup::Global).unwrap_err()), "Int value for non-int type");
    assert_eq!(init_const(InitScalar::Float, ValueClass::Float, SymbolLookup::Global).unwrap(), InitConst::Float);
    assert!(init_const(InitScalar::Float, ValueClass::Int(32), SymbolLookup::Global).is_err());
    assert_eq!(init_const(InitScalar::Zero, ValueClass::Other, SymbolLookup::Global).unwrap(), InitConst::Zero);
    assert_eq!(
        internal(init_const(InitScalar::Error, ValueClass::Int(32), SymbolLookup::Global).unwrap_err()),
        "GlobalInitValue::Error should have been rejected earlier"
    );
}

#[test]
fn address_initializers() {
    assert_eq!(
        init_const(InitScalar::Address { def: Some(3), offset: 0 }, ValueClass::Ptr, SymbolLookup::Global).unwrap(),
        InitConst::Addr { base: AddrBase::Global(3), offset: None }
    );
    assert_eq!(
        init_const(InitScalar::Address { def: Some(3), offset: -4 }, ValueClass::Ptr, SymbolLookup::Function).unwrap(),
        InitConst::Addr { base: AddrBase::Function(3), offset: Some(ByteOffset { bits: (-4i64) as u64, sign_extend: true }) }
    );
    assert_eq!(
        init_const(InitScalar::Address { def: None, offset: 8 }, ValueClass::Ptr, SymbolLookup::Undeclared).unwrap(),
        InitConst::Addr { base: AddrBase::Null, offset: Some(ByteOffset { bits: 8, sign_extend: false }) }
    );
    assert_eq!(
        internal(init_const(InitScalar::Address { def: Some(9), offset: 0 }, ValueClass::Ptr, SymbolLookup::Undeclared).unwrap_err()),
        "address-of references undeclared symbol DefId(9)"
    );
    assert_eq!(init_const(InitScalar::StringLiteral(4), ValueClass::Ptr, SymbolLookup::Global).unwrap(), InitConst::StringLiteral(4));
    assert_eq!(
        internal(init_const(InitScalar::StringLiteral(4), ValueClass::Ptr, SymbolLookup::Function).unwrap_err()),
        "string literal global DefId(4) was not declared"
    );
}

#[test]
fn initializer_with_an_error_leaf_is_refused_before_lookup() {
    let leaves = [InitScalar::Int(1), InitScalar::Error, InitScalar::Zero];
    match check_init_leaves(7, &leaves, false).unwrap_err() {
        CodegenError::Internal(m) => assert_eq!(m, "global initializer for DefId(7) contains an error leaf"),
        other => panic!("unexpected {other:?}"),
    }
    match check_init_leaves(8, &leaves[..1], false).unwrap_err() {
        CodegenError::Internal(m) => assert_eq!(m, "global DefId(8) was not declared"),
        other => panic!("unexpected {other:?}"),
    }
    assert!(check_init_leaves(8, &leaves[..1], true).is_ok());
    assert!(check_init_leaves(8, &[], true).is_ok());
}
