//! A function's prologue and epilogue under its classified signature: which
//! incoming LLVM parameter lands in which parameter local, and how the
//! return slot becomes the returned value.

use vstd::prelude::*;

use crate::abi::{
    fn_abi_spec, AbiParamKind, AbiParamUnit, AbiParamUnitKind, AbiParamView, AbiReturn, AbiReturnKind,
    AbiReturnView, AbiTy, FnAbi, FnAbiView, PassingView, ReturningView, TyId,
};
use crate::call::{call_args_spec, fixed_sources, param_sources, ArgSource};
use crate::lowering::{abi_unit_offset, is_internal};
use crate::text::{decimal, decimal_u64, push_chars, push_str, string_of};

verus! {

/// Where one incoming LLVM parameter goes.
#[derive(Copy, Clone, Debug, PartialEq, Eq, Structural)]
pub enum Slot {
    /// Stored whole into the local's stack slot.
    Whole { local: u32 },
    /// Stored into the local's stack slot at a byte offset (one ABI unit).
    Unit { local: u32, offset: u64 },
    /// The parameter is a pointer to the argument: it becomes the local's
    /// storage.
    Storage { local: u32 },
}

/// The slots of one parameter local passed as `p`.
pub open spec fn param_slots(local: u32, p: AbiParamView) -> Seq<Slot> {
    match p.kind {
        PassingView::Direct(units) => Seq::new(units.len(), |j: int| Slot::Unit { local, offset: (j * 8) as u64 }),
        PassingView::Indirect { .. } => seq![Slot::Storage { local }],
    }
}

/// The slots of the first `n` parameter locals, paired in order with the
/// lowered parameters.
pub open spec fn abi_slots(locals: Seq<u32>, ps: Seq<AbiParamView>, n: nat) -> Seq<Slot>
    decreases n,
{
    if n == 0 {
        Seq::empty()
    } else {
        abi_slots(locals, ps, (n - 1) as nat) + param_slots(locals[n - 1], ps[n - 1])
    }
}

/// The slots of all parameter locals: with a signature, those of the
/// locals paired with its parameters (the shorter list decides how many);
/// without one, each local takes one LLVM parameter whole.
pub open spec fn all_slots(locals: Seq<u32>, abi: Option<FnAbiView>) -> Seq<Slot> {
    match abi {
        Some(a) => abi_slots(
            locals,
            a.params,
            if locals.len() < a.params.len() {
                locals.len()
            } else {
                a.params.len()
            },
        ),
        None => Seq::new(locals.len(), |k: int| Slot::Whole { local: locals[k] }),
    }
}

/// The LLVM index of the first parameter: after the hidden return pointer.
pub open spec fn first_param_index(abi: Option<FnAbiView>) -> nat {
    match abi {
        Some(a) => if a.ret.kind is Indirect {
            1
        } else {
            0
        },
        None => 0,
    }
}

/// The slot local's id, as its error message names it.
pub open spec fn slot_local(s: Slot) -> u32 {
    match s {
        Slot::Whole { local } => local,
        Slot::Unit { local, .. } => local,
        Slot::Storage { local } => local,
    }
}

/// The prologue of a function whose parameter locals are `locals` (in
/// order), lowered by `abi` if it has a signature, where the LLVM function
/// has `llvm_params` parameters: each slot with its LLVM parameter index
/// (consecutive from the first), or the error for the first slot whose
/// parameter is missing.
pub open spec fn param_plan_spec(locals: Seq<u32>, abi: Option<FnAbiView>, llvm_params: u32) -> Result<
    Seq<(u32, Slot)>,
    Seq<char>,
> {
    let slots = all_slots(locals, abi);
    let k0 = first_param_index(abi);
    if slots.len() > 0 && k0 + slots.len() > llvm_params {
        let p = if llvm_params >= k0 {
            llvm_params - k0
        } else {
            0
        };
        Err(
            "missing LLVM parameter "@ + decimal((k0 + p) as nat) + " for local Local("@ + decimal(
                slot_local(slots[p]) as nat,
            ) + ")"@,
        )
    } else {
        Ok(Seq::new(slots.len(), |k: int| ((k0 + k) as u32, slots[k])))
    }
}

fn internal(v: Vec<char>) -> (e: crate::abi::CodegenError)
    ensures
        is_internal(e, v@),
{
    crate::abi::CodegenError::Internal(string_of(v.as_slice()))
}

fn internal_str(m: &str) -> (e: crate::abi::CodegenError)
    ensures
        is_internal(e, m@),
{
    crate::abi::CodegenError::Internal(m.to_string())
}

fn missing_param(index: u32, local: u32) -> (e: crate::abi::CodegenError)
    ensures
        is_internal(
            e,
            "missing LLVM parameter "@ + decimal(index as nat) + " for local Local("@ + decimal(local as nat) + ")"@,
        ),
{
    let mut v: Vec<char> = Vec::new();
    push_str(&mut v, "missing LLVM parameter ");
    let a = decimal_u64(index as u64);
    push_chars(&mut v, a.as_slice());
    push_str(&mut v, " for local Local(");
    let b = decimal_u64(local as u64);
    push_chars(&mut v, b.as_slice());
    push_str(&mut v, ")");
    assert(v@ =~= "missing LLVM parameter "@ + decimal(index as nat) + " for local Local("@ + decimal(local as nat)
        + ")"@);
    internal(v)
}

proof fn lemma_abi_slots_prefix(locals: Seq<u32>, ps: Seq<AbiParamView>, m: nat, n: nat)
    requires
        m <= n,
    ensures
        abi_slots(locals, ps, m).len() <= abi_slots(locals, ps, n).len(),
        forall|x: int|
            0 <= x < abi_slots(locals, ps, m).len() ==> #[trigger] abi_slots(locals, ps, n)[x] == abi_slots(
                locals,
                ps,
                m,
            )[x],
    decreases n - m,
{
    if m < n {
        lemma_abi_slots_prefix(locals, ps, m, (n - 1) as nat);
    }
}

/// Where each incoming LLVM parameter of a function goes. `locals` are the
/// parameter locals in order; `abi` is the function's lowered signature,
/// if it has one; `llvm_params` is the LLVM function's parameter count.
pub fn param_store_plan(locals: &[u32], abi: Option<&FnAbi>, llvm_params: u32) -> (r: Result<
    Vec<(u32, Slot)>,
    crate::abi::CodegenError,
>)
    ensures
        ({
            let av = match abi {
                Some(a) => Some(a@),
                None => None::<FnAbiView>,
            };
            match param_plan_spec(locals@, av, llvm_params) {
                Ok(s) => r is Ok && r->Ok_0@ == s,
                Err(m) => r is Err && is_internal(r->Err_0, m),
            }
        }),
{
    let ghost av = match abi {
        Some(a) => Some(a@),
        None => None::<FnAbiView>,
    };
    let ghost slots = all_slots(locals@, av);
    let ghost k0 = first_param_index(av);
    let mut out: Vec<(u32, Slot)> = Vec::new();
    let mut next: u32 = 0;
    match abi {
        None => {
            for k in 0..locals.len()
                invariant
                    abi is None,
                    av is None,
                    slots == all_slots(locals@, av),
                    slots.len() == locals@.len(),
                    k0 == 0,
                    next as int == k,
                    k > 0 ==> next <= llvm_params,
                    out@ == Seq::new(k as nat, |x: int| ((k0 + x) as u32, slots[x])),
            {
                assert(slots[k as int] == Slot::Whole { local: locals@[k as int] });
                if next >= llvm_params {
                    return Err(missing_param(next, locals[k]));
                }
                out.push((next, Slot::Whole { local: locals[k] }));
                next = next + 1;
                assert(out@ =~= Seq::new((k + 1) as nat, |x: int| ((k0 + x) as u32, slots[x])));
            }
            Ok(out)
        },
        Some(a) => {
            if matches!(a.ret.kind, AbiReturnKind::Indirect { .. }) {
                next = 1;
            }
            let n = if locals.len() < a.params.len() {
                locals.len()
            } else {
                a.params.len()
            };
            let ghost ps = a@.params;
            assert(slots == abi_slots(locals@, ps, n as nat));
            for i in 0..n
                invariant
                    abi == Some(a),
                    av == Some(a@),
                    slots == all_slots(locals@, av),
                    ps == a@.params,
                    slots == abi_slots(locals@, ps, n as nat),
                    k0 == first_param_index(av),
                    n <= locals@.len(),
                    n <= a.params@.len(),
                    ps.len() == a.params@.len(),
                    forall|j: int| 0 <= j < a.params@.len() ==> ps[j] == #[trigger] a.params@[j]@,
                    next as int == k0 + abi_slots(locals@, ps, i as nat).len(),
                    abi_slots(locals@, ps, i as nat).len() > 0 ==> next <= llvm_params,
                    abi_slots(locals@, ps, i as nat).len() <= slots.len(),
                    out@ == Seq::new(
                        abi_slots(locals@, ps, i as nat).len(),
                        |x: int| ((k0 + x) as u32, slots[x]),
                    ),
            {
                let local = locals[i];
                let ghost done = abi_slots(locals@, ps, i as nat);
                let ghost mine = param_slots(local, ps[i as int]);
                proof {
                    lemma_abi_slots_prefix(locals@, ps, (i + 1) as nat, n as nat);
                    assert(abi_slots(locals@, ps, (i + 1) as nat) == done + mine);
                    assert forall|x: int| 0 <= x < mine.len() implies #[trigger] slots[done.len() + x] == mine[x] by {
                        assert(abi_slots(locals@, ps, (i + 1) as nat)[done.len() + x] == mine[x]);
                    }
                }
                match &a.params[i].kind {
                    AbiParamKind::Direct(units) => {
                        assert(mine =~= Seq::new(
                            units@.len(),
                            |j: int| Slot::Unit { local, offset: (j * 8) as u64 },
                        ));
                        for j in 0..units.len()
                            invariant
                                abi == Some(a),
                                av == Some(a@),
                                slots == all_slots(locals@, av),
                                k0 == first_param_index(av),
                                local == locals@[i as int],
                                k0 <= 1,
                                mine.len() == units@.len(),
                                forall|x: int| 0 <= x < mine.len() ==> #[trigger] slots[done.len() + x] == mine[x],
                                mine =~= Seq::new(
                                    units@.len(),
                                    |j: int| Slot::Unit { local, offset: (j * 8) as u64 },
                                ),
                                done.len() + mine.len() <= slots.len(),
                                next as int == k0 + done.len() + j,
                                done.len() + j > 0 ==> next <= llvm_params,
                                out@ == Seq::new(
                                    (done.len() + j) as nat,
                                    |x: int| ((k0 + x) as u32, slots[x]),
                                ),
                        {
                            if next >= llvm_params {
                                proof {
                                    assert(slots[done.len() + j] == mine[j as int]);
                                }
                                return Err(missing_param(next, local));
                            }
                            let offset: u64 = (j as u64) * 8;
                            out.push((next, Slot::Unit { local, offset }));
                            next = next + 1;
                            proof {
                                assert(slots[done.len() + j] == mine[j as int]);
                                assert(out@ =~= Seq::new(
                                    (done.len() + j + 1) as nat,
                                    |x: int| ((k0 + x) as u32, slots[x]),
                                ));
                            }
                        }
                    },
                    AbiParamKind::Indirect { .. } => {
                        assert(mine == seq![Slot::Storage { local }]);
                        if next >= llvm_params {
                            proof {
                                assert(slots[done.len() + 0int] == mine[0int]);
                            }
                            return Err(missing_param(next, local));
                        }
                        out.push((next, Slot::Storage { local }));
                        next = next + 1;
                        proof {
                            assert(slots[done.len() + 0int] == mine[0int]);
                            assert(out@ =~= Seq::new(
                                (done.len() + 1) as nat,
                                |x: int| ((k0 + x) as u32, slots[x]),
                            ));
                        }
                    },
                }
            }
            Ok(out)
        },
    }
}

/// How a function returns.
#[derive(Clone, Debug, PartialEq, Eq)]
pub enum ReturnPlan {
    /// `ret void`.
    Void,
    /// Return the value of the return slot, whose type is this.
    Slot(TyId),
    /// Return the single ABI unit loaded from the start of the return slot.
    OneUnit(AbiParamUnit),
    /// Return a struct of ABI units: each (by its index in the struct) is
    /// loaded from the return slot at the byte offset paired with it.
    Units(Vec<(u32, u64, AbiParamUnit)>),
    /// Copy the return slot, of this type, to the hidden return pointer,
    /// then `ret void`.
    CopyToSret(TyId),
}

/// How a function returns, as values.
pub enum ReturnPlanView {
    Void,
    Slot(TyId),
    OneUnit(AbiParamUnit),
    Units(Seq<(u32, u64, AbiParamUnit)>),
    CopyToSret(TyId),
}

impl View for ReturnPlan {
    type V = ReturnPlanView;

    open spec fn view(&self) -> ReturnPlanView {
        match self {
            ReturnPlan::Void => ReturnPlanView::Void,
            ReturnPlan::Slot(t) => ReturnPlanView::Slot(*t),
            ReturnPlan::OneUnit(u) => ReturnPlanView::OneUnit(*u),
            ReturnPlan::Units(v) => ReturnPlanView::Units(v@),
            ReturnPlan::CopyToSret(t) => ReturnPlanView::CopyToSret(*t),
        }
    }
}

/// The return of a function whose return type is `ret_ty` (void when
/// `ret_is_void`), lowered by `abi` if the function has a signature, where
/// the LLVM function has `llvm_params` parameters.
pub open spec fn return_plan_spec(
    ret_ty: Option<TyId>,
    ret_is_void: bool,
    abi: Option<AbiReturnView>,
    llvm_params: u32,
) -> Result<ReturnPlanView, Seq<char>> {
    match ret_ty {
        None => Err("CFG body is missing its return type"@),
        Some(t) => if ret_is_void {
            Ok(ReturnPlanView::Void)
        } else {
            match abi {
                None => Ok(ReturnPlanView::Slot(t)),
                Some(r) => match r.kind {
                    ReturningView::Void => Ok(ReturnPlanView::Void),
                    ReturningView::Direct(units) => if units.len() == 1 && units[0].kind
                        == AbiParamUnitKind::Source(t) {
                        Ok(ReturnPlanView::Slot(t))
                    } else if units.len() == 1 {
                        Ok(ReturnPlanView::OneUnit(units[0]))
                    } else if units.len() > u32::MAX + 1 {
                        Err("ABI return unit index overflowed"@)
                    } else {
                        Ok(
                            ReturnPlanView::Units(
                                Seq::new(units.len(), |j: int| (j as u32, (j * 8) as u64, units[j])),
                            ),
                        )
                    },
                    ReturningView::Indirect { .. } => if llvm_params == 0 {
                        Err("sret function is missing hidden return pointer"@)
                    } else {
                        Ok(ReturnPlanView::CopyToSret(t))
                    },
                },
            }
        },
    }
}

/// How a function returns: `ret_ty` is its return type (void when
/// `ret_is_void`), `abi` the lowering of its return value if it has a
/// signature, `llvm_params` the LLVM function's parameter count.
pub fn return_plan(ret_ty: Option<TyId>, ret_is_void: bool, abi: Option<&AbiReturn>, llvm_params: u32) -> (r: Result<
    ReturnPlan,
    crate::abi::CodegenError,
>)
    ensures
        ({
            let rv = match abi {
                Some(a) => Some(a@),
                None => None::<AbiReturnView>,
            };
            match return_plan_spec(ret_ty, ret_is_void, rv, llvm_params) {
                Ok(s) => r is Ok && r->Ok_0@ == s,
                Err(m) => r is Err && is_internal(r->Err_0, m),
            }
        }),
{
    let t = match ret_ty {
        None => {
            return Err(internal_str("CFG body is missing its return type"));
        },
        Some(t) => t,
    };
    if ret_is_void {
        return Ok(ReturnPlan::Void);
    }
    let a = match abi {
        None => {
            return Ok(ReturnPlan::Slot(t));
        },
        Some(a) => a,
    };
    match &a.kind {
        AbiReturnKind::Void => Ok(ReturnPlan::Void),
        AbiReturnKind::Direct { units } => {
            if units.len() == 1 && units[0].kind == AbiParamUnitKind::Source(t) {
                return Ok(ReturnPlan::Slot(t));
            }
            if units.len() == 1 {
                return Ok(ReturnPlan::OneUnit(units[0]));
            }
            let mut out: Vec<(u32, u64, AbiParamUnit)> = Vec::new();
            for j in 0..units.len()
                invariant
                    abi == Some(a),
                    ret_ty == Some(t),
                    !ret_is_void,
                    a@.kind == ReturningView::Direct(units@),
                    units@.len() != 1,
                    j > 0 ==> j - 1 <= u32::MAX,
                    out@ == Seq::new(j as nat, |k: int| (k as u32, (k * 8) as u64, units@[k])),
            {
                if j > u32::MAX as usize {
                    return Err(internal_str("ABI return unit index overflowed"));
                }
                let offset = match abi_unit_offset(j, "function return") {
                    Ok(o) => o,
                    Err(e) => {
                        return Err(e);
                    },
                };
                out.push((j as u32, offset, units[j]));
                assert(out@ =~= Seq::new((j + 1) as nat, |k: int| (k as u32, (k * 8) as u64, units@[k])));
            }
            Ok(ReturnPlan::Units(out))
        },
        AbiReturnKind::Indirect { .. } => {
            if llvm_params == 0 {
                return Err(internal_str("sret function is missing hidden return pointer"));
            }
            Ok(ReturnPlan::CopyToSret(t))
        },
    }
}

/// A call argument source fits the callee's slot for it: a whole value or
/// a unit goes into a unit slot at the same offset, an address becomes the
/// local's storage.
pub open spec fn arg_matches_slot(a: ArgSource, s: Slot) -> bool {
    match a {
        ArgSource::Value(_) => s matches Slot::Unit { offset, .. } && offset == 0,
        ArgSource::Unit { offset, .. } => s matches Slot::Unit { offset: o, .. } && o == offset,
        ArgSource::Address(_) => s is Storage,
        ArgSource::DestAddr => false,
    }
}

/// Sources and slots correspond one to one.
pub open spec fn aligned(a: Seq<ArgSource>, s: Seq<Slot>) -> bool {
    a.len() == s.len() && forall|q: int| 0 <= q < a.len() ==> arg_matches_slot(#[trigger] a[q], s[q])
}

proof fn lemma_param_aligned(i: usize, local: u32, p: AbiParamView)
    requires
        param_sources(i, p) is Ok,
    ensures
        aligned(param_sources(i, p)->Ok_0, param_slots(local, p)),
{
}

proof fn lemma_concat_aligned(a1: Seq<ArgSource>, s1: Seq<Slot>, a2: Seq<ArgSource>, s2: Seq<Slot>)
    requires
        aligned(a1, s1),
        aligned(a2, s2),
    ensures
        aligned(a1 + a2, s1 + s2),
{
    assert forall|q: int| 0 <= q < (a1 + a2).len() implies arg_matches_slot(#[trigger] (a1 + a2)[q], (s1 + s2)[q]) by {
        if q < a1.len() {
            assert(arg_matches_slot(a1[q], s1[q]));
        } else {
            assert(arg_matches_slot(a2[q - a1.len()], s2[q - a1.len()]));
        }
    }
}

proof fn lemma_fixed_aligned(ps: Seq<AbiParamView>, locals: Seq<u32>, n: nat)
    requires
        n <= ps.len(),
        n <= locals.len(),
        fixed_sources(ps.take(n as int)) is Ok,
    ensures
        aligned(fixed_sources(ps.take(n as int))->Ok_0, abi_slots(locals, ps, n)),
    decreases n,
{
    if n > 0 {
        let m = (n - 1) as nat;
        assert(ps.take(n as int).drop_last() =~= ps.take(m as int));
        assert(ps.take(n as int).last() == ps[m as int]);
        lemma_fixed_aligned(ps, locals, m);
        lemma_param_aligned(m as usize, locals[m as int], ps[m as int]);
        lemma_concat_aligned(
            fixed_sources(ps.take(m as int))->Ok_0,
            abi_slots(locals, ps, m),
            param_sources(m as usize, ps[m as int])->Ok_0,
            param_slots(locals[m as int], ps[m as int]),
        );
    }
}

/// Caller and callee agree on every LLVM parameter of a classified
/// function type: the hidden return pointer comes first on both sides,
/// the callee's prologue takes exactly the `fixed_param_count` parameters,
/// and each argument that a call passes for a fixed parameter lands in
/// the callee's slot of the same kind and offset (for a function whose
/// parameter locals match its parameters one to one).
pub proof fn lemma_call_matches_prologue(t: AbiTy, nargs: nat, has_dest: bool, locals: Seq<u32>)
    requires
        fn_abi_spec(t) is Ok,
        call_args_spec(fn_abi_spec(t)->Ok_0, nargs, has_dest) is Ok,
        locals.len() == fn_abi_spec(t)->Ok_0.params.len(),
    ensures
        ({
            let abi = fn_abi_spec(t)->Ok_0;
            let args = call_args_spec(abi, nargs, has_dest)->Ok_0;
            let slots = all_slots(locals, Some(abi));
            let k0 = first_param_index(Some(abi));
            &&& k0 + slots.len() == abi.fixed_param_count
            &&& k0 == 1 ==> args[0] == ArgSource::DestAddr
            &&& forall|q: int| 0 <= q < slots.len() ==> arg_matches_slot(#[trigger] args[k0 + q], slots[q])
        }),
{
    let abi = fn_abi_spec(t)->Ok_0;
    let ps = abi.params;
    let args = call_args_spec(abi, nargs, has_dest)->Ok_0;
    assert(ps.take(ps.len() as int) =~= ps);
    lemma_fixed_aligned(ps, locals, ps.len());
    crate::call::lemma_fixed_sources_len(ps);
    let fs = fixed_sources(ps)->Ok_0;
    let slots = all_slots(locals, Some(abi));
    let k0 = first_param_index(Some(abi));
    let head = if abi.ret.kind is Indirect {
        seq![ArgSource::DestAddr]
    } else {
        Seq::<ArgSource>::empty()
    };
    let extra = Seq::new((nargs - ps.len()) as nat, |k: int| ArgSource::Value((ps.len() + k) as usize));
    assert(args == head + fs + extra);
    assert(head.len() == k0);
    assert forall|q: int| 0 <= q < slots.len() implies arg_matches_slot(#[trigger] args[k0 + q], slots[q]) by {
        assert(args[k0 + q] == fs[q]);
        assert(arg_matches_slot(fs[q], slots[q]));
    }
}

} // verus!
