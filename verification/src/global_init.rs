//! The LLVM constant of one scalar piece of a global's initializer.

use vstd::prelude::*;

use crate::abi::{err_view, CodegenError, ErrView};
use crate::casts::ValueClass;
use crate::text::{decimal, decimal_u64, push_chars, push_str, string_of};

verus! {

/// A scalar initializer value.
#[derive(Copy, Clone, Debug, PartialEq, Eq, Structural)]
pub enum InitScalar {
    Int(i128),
    /// A floating constant (its value is the back end's business).
    Float,
    /// The address of a definition (or of nothing: null) plus a byte
    /// offset.
    Address { def: Option<u32>, offset: i64 },
    /// The address of a string literal's global.
    StringLiteral(u32),
    Zero,
    /// An initializer that failed earlier.
    Error,
}

/// What a definition id names among the declared symbols.
#[derive(Copy, Clone, Debug, PartialEq, Eq, Structural)]
pub enum SymbolLookup {
    Global,
    Function,
    Undeclared,
}

/// The base of an address constant.
#[derive(Copy, Clone, Debug, PartialEq, Eq, Structural)]
pub enum AddrBase {
    Null,
    Global(u32),
    Function(u32),
}

/// A constant byte offset: its 64 bits, sign-extended when set.
#[derive(Copy, Clone, Debug, PartialEq, Eq, Structural)]
pub struct ByteOffset {
    pub bits: u64,
    pub sign_extend: bool,
}

/// The LLVM constant of a scalar initializer.
#[derive(Copy, Clone, Debug, PartialEq, Eq, Structural)]
pub enum InitConst {
    /// An integer constant of the target's type: these bits, sign-extended
    /// to its width when set.
    Int { bits: u64, sign_extend: bool },
    /// A floating constant of the target's type.
    Float,
    /// An address: the base, advanced by a byte offset unless the offset
    /// is zero.
    Addr { base: AddrBase, offset: Option<ByteOffset> },
    /// The string literal's global, which becomes constant.
    StringLiteral(u32),
    /// The zero value of the target's type.
    Zero,
}

/// `DefId(n)`, as a definition id prints.
pub open spec fn def_text(d: u32) -> Seq<char> {
    "DefId("@ + decimal(d as nat) + ")"@
}

/// The constant of `v` for a target of class `target`, where `lookup`
/// says what a referenced definition is; or why it cannot be made.
pub open spec fn init_const_spec(v: InitScalar, target: ValueClass, lookup: SymbolLookup) -> Result<InitConst, ErrView> {
    match v {
        InitScalar::Int(n) => match target {
            ValueClass::Int(_) => Ok(InitConst::Int { bits: n as u64, sign_extend: n < 0 }),
            _ => Err(ErrView::Internal("Int value for non-int type"@)),
        },
        InitScalar::Float => match target {
            ValueClass::Float => Ok(InitConst::Float),
            _ => Err(ErrView::Internal("Float value for non-float type"@)),
        },
        InitScalar::Address { def, offset } => {
            let base = match def {
                None => Ok(AddrBase::Null),
                Some(d) => match lookup {
                    SymbolLookup::Global => Ok(AddrBase::Global(d)),
                    SymbolLookup::Function => Ok(AddrBase::Function(d)),
                    SymbolLookup::Undeclared => Err(
                        ErrView::Internal("address-of references undeclared symbol "@ + def_text(d)),
                    ),
                },
            };
            match base {
                Err(e) => Err(e),
                Ok(b) => Ok(
                    InitConst::Addr {
                        base: b,
                        offset: if offset == 0 {
                            None
                        } else {
                            Some(ByteOffset { bits: offset as u64, sign_extend: offset < 0 })
                        },
                    },
                ),
            }
        },
        InitScalar::StringLiteral(d) => match lookup {
            SymbolLookup::Global => Ok(InitConst::StringLiteral(d)),
            _ => Err(ErrView::Internal("string literal global "@ + def_text(d) + " was not declared"@)),
        },
        InitScalar::Zero => Ok(InitConst::Zero),
        InitScalar::Error => Err(ErrView::Internal("GlobalInitValue::Error should have been rejected earlier"@)),
    }
}

fn internal(v: Vec<char>) -> (e: CodegenError)
    ensures
        err_view(e) == ErrView::Internal(v@),
{
    CodegenError::Internal(string_of(v.as_slice()))
}

fn internal_str(m: &str) -> (e: CodegenError)
    ensures
        err_view(e) == ErrView::Internal(m@),
{
    CodegenError::Internal(m.to_string())
}

fn def_error(head: &str, d: u32, tail: &str) -> (e: CodegenError)
    ensures
        err_view(e) == ErrView::Internal(head@ + def_text(d) + tail@),
{
    let mut v: Vec<char> = Vec::new();
    push_str(&mut v, head);
    push_str(&mut v, "DefId(");
    let n = decimal_u64(d as u64);
    push_chars(&mut v, n.as_slice());
    push_str(&mut v, ")");
    push_str(&mut v, tail);
    assert(v@ =~= head@ + def_text(d) + tail@);
    internal(v)
}

/// The constant of the scalar initializer `v` for a target of class
/// `target` (the lowering of the initialized type); `lookup` says what
/// the definition that `v` references is declared as.
pub fn init_const(v: InitScalar, target: ValueClass, lookup: SymbolLookup) -> (r: Result<InitConst, CodegenError>)
    ensures
        match init_const_spec(v, target, lookup) {
            Ok(c) => r == Ok::<InitConst, CodegenError>(c),
            Err(e) => r is Err && err_view(r->Err_0) == e,
        },
{
    match v {
        InitScalar::Int(n) => match target {
            ValueClass::Int(_) => Ok(InitConst::Int { bits: n as u64, sign_extend: n < 0 }),
            _ => Err(internal_str("Int value for non-int type")),
        },
        InitScalar::Float => match target {
            ValueClass::Float => Ok(InitConst::Float),
            _ => Err(internal_str("Float value for non-float type")),
        },
        InitScalar::Address { def, offset } => {
            let base = match def {
                None => AddrBase::Null,
                Some(d) => match lookup {
                    SymbolLookup::Global => AddrBase::Global(d),
                    SymbolLookup::Function => AddrBase::Function(d),
                    SymbolLookup::Undeclared => {
                        let e = def_error("address-of references undeclared symbol ", d, "");
                        proof {
                            reveal_strlit("");
                            assert("address-of references undeclared symbol "@ + def_text(d) + ""@
                                =~= "address-of references undeclared symbol "@ + def_text(d));
                        }
                        return Err(e);
                    },
                },
            };
            Ok(
                InitConst::Addr {
                    base,
                    offset: if offset == 0 {
                        None
                    } else {
                        Some(ByteOffset { bits: offset as u64, sign_extend: offset < 0 })
                    },
                },
            )
        },
        InitScalar::StringLiteral(d) => match lookup {
            SymbolLookup::Global => Ok(InitConst::StringLiteral(d)),
            _ => Err(def_error("string literal global ", d, " was not declared")),
        },
        InitScalar::Zero => Ok(InitConst::Zero),
        InitScalar::Error => Err(internal_str("GlobalInitValue::Error should have been rejected earlier")),
    }
}

/// Whether a global's initializer can be materialized: none of its leaves
/// may be an initializer that failed earlier, and the global must have been
/// declared.
pub open spec fn init_check_spec(def: u32, leaves: Seq<InitScalar>, declared: bool) -> Result<(), ErrView> {
    if exists|i: int| 0 <= i < leaves.len() && leaves[i] is Error {
        Err(ErrView::Internal("global initializer for "@ + def_text(def) + " contains an error leaf"@))
    } else if !declared {
        Err(ErrView::Internal("global "@ + def_text(def) + " was not declared"@))
    } else {
        Ok(())
    }
}

/// Checks the leaves of the initializer of global `def` (declared when
/// `declared`) before its constant is built.
pub fn check_init_leaves(def: u32, leaves: &[InitScalar], declared: bool) -> (r: Result<(), CodegenError>)
    ensures
        match init_check_spec(def, leaves@, declared) {
            Ok(()) => r is Ok,
            Err(e) => r matches Err(x) && err_view(x) == e,
        },
{
    let mut i: usize = 0;
    while i < leaves.len()
        invariant
            i <= leaves@.len(),
            forall|j: int| 0 <= j < i ==> !(leaves@[j] is Error),
        decreases leaves@.len() - i,
    {
        if let InitScalar::Error = leaves[i] {
            let mut m: Vec<char> = Vec::new();
            push_str(&mut m, "global initializer for DefId(");
            push_chars(&mut m, decimal_u64(def as u64).as_slice());
            push_str(&mut m, ") contains an error leaf");
            proof {
                reveal_strlit("global initializer for DefId(");
                reveal_strlit(") contains an error leaf");
                reveal_strlit("global initializer for ");
                reveal_strlit("DefId(");
                reveal_strlit(")");
                reveal_strlit(" contains an error leaf");
                assert(m@ =~= "global initializer for "@ + def_text(def) + " contains an error leaf"@);
            }
            return Err(CodegenError::Internal(string_of(m.as_slice())));
        }
        i = i + 1;
    }
    if !declared {
        let mut m: Vec<char> = Vec::new();
        push_str(&mut m, "global DefId(");
        push_chars(&mut m, decimal_u64(def as u64).as_slice());
        push_str(&mut m, ") was not declared");
        proof {
            reveal_strlit("global DefId(");
            reveal_strlit(") was not declared");
            reveal_strlit("global ");
            reveal_strlit("DefId(");
            reveal_strlit(")");
            reveal_strlit(" was not declared");
            assert(m@ =~= "global "@ + def_text(def) + " was not declared"@);
        }
        return Err(CodegenError::Internal(string_of(m.as_slice())));
    }
    Ok(())
}

} // verus!
