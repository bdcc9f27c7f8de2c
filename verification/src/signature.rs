//! The LLVM signature of a lowered C function type: its parameter types,
//! with the hidden return pointer first, and its return type.

use vstd::prelude::*;

use crate::abi::{
    fn_abi_spec, param_llvm_count, params_llvm_count, return_llvm_count, AbiParamUnit, AbiParamUnitKind,
    AbiParamView, AbiReturn, AbiReturnKind, AbiReturnView, AbiTy, FloatKind, FnAbi, FnAbiView, PassingView,
    ReturningView, AbiParamKind,
};

verus! {

/// One LLVM parameter or return type.
#[derive(Copy, Clone, Debug, PartialEq, Eq, Structural)]
pub enum SigTy {
    /// The natural LLVM type of this C type.
    Of(crate::abi::TyId),
    /// An integer of this many bits.
    Int(u32),
    /// A floating-point type.
    Float(FloatKind),
    /// A vector of `lanes` floating-point elements.
    Vector { elem: FloatKind, lanes: u32 },
    /// An opaque pointer.
    Ptr,
}

/// The LLVM return type of a signature.
#[derive(Clone, Debug, PartialEq, Eq)]
pub enum SigRet {
    Void,
    One(SigTy),
    /// A literal struct of the return units.
    Struct(Vec<SigTy>),
}

/// A return type, as values.
pub enum SigRetView {
    Void,
    One(SigTy),
    Struct(Seq<SigTy>),
}

impl View for SigRet {
    type V = SigRetView;

    open spec fn view(&self) -> SigRetView {
        match self {
            SigRet::Void => SigRetView::Void,
            SigRet::One(t) => SigRetView::One(*t),
            SigRet::Struct(ts) => SigRetView::Struct(ts@),
        }
    }
}

/// An LLVM function signature.
#[derive(Clone, Debug, PartialEq, Eq)]
pub struct LlvmSignature {
    pub params: Vec<SigTy>,
    pub ret: SigRet,
    pub variadic: bool,
}

/// The LLVM type of one ABI unit.
pub open spec fn unit_ty_spec(u: AbiParamUnit) -> SigTy {
    match u.kind {
        AbiParamUnitKind::Source(t) => SigTy::Of(t),
        AbiParamUnitKind::Integer { bits } => SigTy::Int(bits),
        AbiParamUnitKind::Float(k) => SigTy::Float(k),
        AbiParamUnitKind::Vector { elem, lanes } => SigTy::Vector { elem, lanes },
    }
}

/// The LLVM types of a sequence of units.
pub open spec fn units_tys(us: Seq<AbiParamUnit>) -> Seq<SigTy> {
    us.map_values(|u: AbiParamUnit| unit_ty_spec(u))
}

/// The LLVM parameters of one C parameter.
pub open spec fn param_tys_spec(p: AbiParamView) -> Seq<SigTy> {
    match p.kind {
        PassingView::Direct(units) => units_tys(units),
        PassingView::Indirect { .. } => seq![SigTy::Ptr],
    }
}

/// The LLVM parameters of the C parameters, in order.
pub open spec fn params_tys_spec(ps: Seq<AbiParamView>) -> Seq<SigTy>
    decreases ps.len(),
{
    if ps.len() == 0 {
        Seq::empty()
    } else {
        params_tys_spec(ps.drop_last()) + param_tys_spec(ps.last())
    }
}

/// The LLVM parameters of a lowered signature: the hidden return pointer
/// of an indirect return, then each parameter's.
pub open spec fn sig_params_spec(abi: FnAbiView) -> Seq<SigTy> {
    (if abi.ret.kind is Indirect {
        seq![SigTy::Ptr]
    } else {
        Seq::empty()
    }) + params_tys_spec(abi.params)
}

/// The LLVM return type: none for a void or indirect return, the unit's
/// type for one unit, a struct of the units' types otherwise.
pub open spec fn sig_ret_spec(r: AbiReturnView) -> SigRetView {
    match r.kind {
        ReturningView::Direct(units) => if units.len() == 1 {
            SigRetView::One(unit_ty_spec(units[0]))
        } else {
            SigRetView::Struct(units_tys(units))
        },
        _ => SigRetView::Void,
    }
}

/// The LLVM type of one ABI unit.
pub fn unit_ty(u: AbiParamUnit) -> (t: SigTy)
    ensures
        t == unit_ty_spec(u),
{
    match u.kind {
        AbiParamUnitKind::Source(t) => SigTy::Of(t),
        AbiParamUnitKind::Integer { bits } => SigTy::Int(bits),
        AbiParamUnitKind::Float(k) => SigTy::Float(k),
        AbiParamUnitKind::Vector { elem, lanes } => SigTy::Vector { elem, lanes },
    }
}

fn push_units(out: &mut Vec<SigTy>, units: &Vec<AbiParamUnit>)
    ensures
        final(out)@ == old(out)@ + units_tys(units@),
{
    let ghost start = out@;
    for i in 0..units.len()
        invariant
            out@ == start + units_tys(units@.take(i as int)),
    {
        proof {
            assert(units_tys(units@.take(i + 1)) =~= units_tys(units@.take(i as int)).push(unit_ty_spec(units@[i as int])));
        }
        out.push(unit_ty(units[i]));
    }
    proof {
        assert(units@.take(units@.len() as int) =~= units@);
    }
}

/// The LLVM parameter types of a lowered signature.
pub fn abi_param_types(abi: &FnAbi) -> (v: Vec<SigTy>)
    ensures
        v@ == sig_params_spec(abi@),
{
    let mut out: Vec<SigTy> = Vec::new();
    if matches!(abi.ret.kind, AbiReturnKind::Indirect { .. }) {
        out.push(SigTy::Ptr);
    }
    let ghost head = out@;
    let ghost ps = abi@.params;
    assert(head =~= (if abi@.ret.kind is Indirect {
        seq![SigTy::Ptr]
    } else {
        Seq::<SigTy>::empty()
    }));
    for i in 0..abi.params.len()
        invariant
            ps == abi@.params,
            ps.len() == abi.params@.len(),
            forall|j: int| 0 <= j < ps.len() ==> ps[j] == #[trigger] abi.params@[j]@,
            out@ == head + params_tys_spec(ps.take(i as int)),
    {
        proof {
            assert(ps.take(i + 1).drop_last() =~= ps.take(i as int));
            assert(ps.take(i + 1).last() == abi.params@[i as int]@);
        }
        match &abi.params[i].kind {
            AbiParamKind::Direct(units) => {
                push_units(&mut out, units);
            },
            AbiParamKind::Indirect { .. } => {
                out.push(SigTy::Ptr);
                proof {
                    assert(seq![SigTy::Ptr] =~= Seq::<SigTy>::empty().push(SigTy::Ptr));
                }
            },
        }
        proof {
            assert(head + params_tys_spec(ps.take(i as int)) + param_tys_spec(ps[i as int]) =~= head
                + params_tys_spec(ps.take(i + 1)));
        }
    }
    proof {
        assert(ps.take(ps.len() as int) =~= ps);
    }
    out
}

/// The LLVM return type of a lowered return value.
pub fn abi_return_type(ret: &AbiReturn) -> (r: SigRet)
    ensures
        r@ == sig_ret_spec(ret@),
{
    match &ret.kind {
        AbiReturnKind::Direct { units } => {
            if units.len() == 1 {
                SigRet::One(unit_ty(units[0]))
            } else {
                let mut out: Vec<SigTy> = Vec::new();
                push_units(&mut out, units);
                assert(out@ =~= units_tys(units@));
                SigRet::Struct(out)
            }
        },
        _ => SigRet::Void,
    }
}

/// The LLVM signature of a lowered C function type.
pub fn llvm_signature(abi: &FnAbi) -> (s: LlvmSignature)
    ensures
        s.params@ == sig_params_spec(abi@),
        s.ret@ == sig_ret_spec(abi@.ret),
        s.variadic == abi.variadic,
{
    LlvmSignature { params: abi_param_types(abi), ret: abi_return_type(&abi.ret), variadic: abi.variadic }
}

proof fn lemma_param_tys_len(p: AbiParamView)
    ensures
        param_tys_spec(p).len() == param_llvm_count(p),
{
}

proof fn lemma_params_tys_len(ps: Seq<AbiParamView>)
    ensures
        params_tys_spec(ps).len() == params_llvm_count(ps),
    decreases ps.len(),
{
    if ps.len() > 0 {
        lemma_params_tys_len(ps.drop_last());
        lemma_param_tys_len(ps.last());
    }
}

/// The LLVM signature of a classified function type has exactly
/// `fixed_param_count` parameters, so the variadic arguments of a call
/// start right after them.
pub proof fn lemma_signature_has_fixed_params(t: AbiTy)
    requires
        fn_abi_spec(t) is Ok,
    ensures
        sig_params_spec(fn_abi_spec(t)->Ok_0).len() == fn_abi_spec(t)->Ok_0.fixed_param_count,
{
    let abi = fn_abi_spec(t)->Ok_0;
    lemma_params_tys_len(abi.params);
    assert(return_llvm_count(abi.ret) == (if abi.ret.kind is Indirect {
        1nat
    } else {
        0nat
    }));
}

} // verus!
