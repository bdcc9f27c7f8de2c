//! The argument list and the result handling of a call, decided from the
//! callee's classified signature: which value, address or ABI unit each
//! LLVM argument is, and how the returned value reaches the destination.

use vstd::prelude::*;

use crate::abi::{
    AbiParamKind, AbiParamUnit, AbiParamUnitKind, AbiParamView, AbiReturn, AbiReturnKind, AbiReturnView, FnAbi,
    FnAbiView, PassingView, ReturningView,
};
use crate::lowering::{abi_unit_offset, is_internal};
use crate::text::{decimal, decimal_u64, push_chars, push_str, string_of};

verus! {

/// Where one LLVM argument of a call comes from.
#[derive(Copy, Clone, Debug, PartialEq, Eq, Structural)]
pub enum ArgSource {
    /// The address of the call's destination: the hidden return pointer.
    DestAddr,
    /// The value of the call argument with this index.
    Value(usize),
    /// One ABI unit of an argument, loaded from the argument's address at a
    /// byte offset.
    Unit { arg: usize, offset: u64, unit: AbiParamUnit },
    /// The address of the call argument with this index.
    Address(usize),
}

/// How the result of a call reaches its destination.
#[derive(Clone, Debug, PartialEq, Eq)]
pub enum ResultStore {
    /// Nothing to store: a void call, or one that wrote through the hidden
    /// return pointer.
    Nothing,
    /// The single returned unit is stored at the destination's start.
    Whole,
    /// Each returned unit (by its index in the returned struct) is stored
    /// at the byte offset paired with it.
    Units(Vec<(u32, u64)>),
}

/// The result handling, as values.
pub enum ResultStoreView {
    Nothing,
    Whole,
    Units(Seq<(u32, u64)>),
}

impl View for ResultStore {
    type V = ResultStoreView;

    open spec fn view(&self) -> ResultStoreView {
        match self {
            ResultStore::Nothing => ResultStoreView::Nothing,
            ResultStore::Whole => ResultStoreView::Whole,
            ResultStore::Units(v) => ResultStoreView::Units(v@),
        }
    }
}

/// `r` is an internal error with message `m`, when `m` is given; else `r`
/// is the value `v`.
pub open spec fn result_is<T>(r: Result<T, crate::abi::CodegenError>, s: Result<T, Seq<char>>) -> bool {
    match s {
        Ok(v) => r == Ok::<T, crate::abi::CodegenError>(v),
        Err(m) => r is Err && is_internal(r->Err_0, m),
    }
}

/// The sources of a parameter passed as `units`, argument `i`: each unit
/// loaded at eight bytes times its position.
pub open spec fn unit_sources(i: usize, units: Seq<AbiParamUnit>) -> Result<Seq<ArgSource>, Seq<char>> {
    if units.len() > 0 && (units.len() - 1) * 8 > u64::MAX {
        Err("call argument unit offset overflowed"@)
    } else {
        Ok(Seq::new(units.len(), |j: int| ArgSource::Unit { arg: i, offset: (j * 8) as u64, unit: units[j] }))
    }
}

/// The sources of argument `i` passed as parameter `p`: its value when
/// its single unit is its own type, its units otherwise, or its address.
pub open spec fn param_sources(i: usize, p: AbiParamView) -> Result<Seq<ArgSource>, Seq<char>> {
    match p.kind {
        PassingView::Direct(units) => if units.len() == 1 && units[0].kind == AbiParamUnitKind::Source(p.source) {
            Ok(seq![ArgSource::Value(i)])
        } else {
            unit_sources(i, units)
        },
        PassingView::Indirect { .. } => Ok(seq![ArgSource::Address(i)]),
    }
}

/// The sources of the fixed arguments, in order; the first failure is
/// reported.
pub open spec fn fixed_sources(ps: Seq<AbiParamView>) -> Result<Seq<ArgSource>, Seq<char>>
    decreases ps.len(),
{
    if ps.len() == 0 {
        Ok(Seq::empty())
    } else {
        match fixed_sources(ps.drop_last()) {
            Err(e) => Err(e),
            Ok(s) => match param_sources((ps.len() - 1) as usize, ps.last()) {
                Err(e) => Err(e),
                Ok(t) => Ok(s + t),
            },
        }
    }
}

/// The LLVM arguments of a call with `nargs` arguments to a function with
/// signature `abi`, where `has_dest` tells whether the call has a
/// destination: the hidden return pointer first, then the fixed
/// arguments, then the variadic ones by value.
pub open spec fn call_args_spec(abi: FnAbiView, nargs: nat, has_dest: bool) -> Result<Seq<ArgSource>, Seq<char>> {
    let m = abi.params.len();
    if abi.variadic && nargs < m {
        Err(
            "variadic call has "@ + decimal(nargs) + " args but ABI requires at least "@ + decimal(m)
                + " fixed params"@,
        )
    } else if !abi.variadic && nargs != m {
        Err("call argument count "@ + decimal(nargs) + " does not match ABI parameter count "@ + decimal(m))
    } else if abi.ret.kind is Indirect && !has_dest {
        Err("indirect ABI return requires a call destination"@)
    } else {
        let head = if abi.ret.kind is Indirect {
            seq![ArgSource::DestAddr]
        } else {
            Seq::empty()
        };
        match fixed_sources(abi.params) {
            Err(e) => Err(e),
            Ok(fs) => Ok(head + fs + Seq::new((nargs - m) as nat, |k: int| ArgSource::Value((m + k) as usize))),
        }
    }
}

/// How the result of a call returning `r` reaches its destination.
pub open spec fn result_store_spec(r: AbiReturnView, has_dest: bool) -> Result<ResultStoreView, Seq<char>> {
    match r.kind {
        ReturningView::Void => if has_dest {
            Err("void call cannot write a destination"@)
        } else {
            Ok(ResultStoreView::Nothing)
        },
        ReturningView::Indirect { .. } => if has_dest {
            Ok(ResultStoreView::Nothing)
        } else {
            Err("indirect ABI return requires a call destination"@)
        },
        ReturningView::Direct(units) => if !has_dest {
            Err("direct ABI return requires a call destination"@)
        } else if units.len() == 1 {
            Ok(ResultStoreView::Whole)
        } else if units.len() > u32::MAX + 1 {
            Err("ABI return unit index overflowed"@)
        } else {
            Ok(ResultStoreView::Units(Seq::new(units.len(), |j: int| (j as u32, (j * 8) as u64))))
        },
    }
}

/// The name of the call instruction: `call` when it returns a value.
pub open spec fn call_name_spec(r: AbiReturnView) -> Seq<char> {
    if r.kind is Direct {
        "call"@
    } else {
        ""@
    }
}

fn internal(v: Vec<char>) -> (e: crate::abi::CodegenError)
    ensures
        is_internal(e, v@),
{
    crate::abi::CodegenError::Internal(string_of(v.as_slice()))
}

fn internal_str(m: &str) -> (e: crate::abi::CodegenError)
    ensures
        is_internal(e, m@),
{
    crate::abi::CodegenError::Internal(m.to_string())
}

fn push_param_sources(out: &mut Vec<ArgSource>, i: usize, p: &crate::abi::AbiParam) -> (r: Result<
    (),
    crate::abi::CodegenError,
>)
    ensures
        match param_sources(i, p@) {
            Ok(t) => r is Ok && final(out)@ == old(out)@ + t,
            Err(m) => r is Err && is_internal(r->Err_0, m),
        },
{
    match &p.kind {
        AbiParamKind::Direct(units) => {
            if units.len() == 1 && units[0].kind == AbiParamUnitKind::Source(p.source) {
                out.push(ArgSource::Value(i));
                assert(out@ =~= old(out)@ + seq![ArgSource::Value(i)]);
                return Ok(());
            }
            let ghost start = out@;
            let ghost uv = units@;
            assert(uv.len() != 1 || uv[0].kind != AbiParamUnitKind::Source(p.source));
            for j in 0..units.len()
                invariant
                    uv == units@,
                    p@.kind == PassingView::Direct(uv),
                    uv.len() != 1 || uv[0].kind != AbiParamUnitKind::Source(p.source),
                    j > 0 ==> (j - 1) * 8 <= u64::MAX,
                    out@ == start + Seq::new(
                        j as nat,
                        |k: int| ArgSource::Unit { arg: i, offset: (k * 8) as u64, unit: uv[k] },
                    ),
            {
                let offset = match abi_unit_offset(j, "call argument") {
                    Ok(o) => o,
                    Err(e) => {
                        assert("call argument"@ + " unit offset overflowed"@ =~= "call argument unit offset overflowed"@)
                            by {
                            reveal_strlit("call argument");
                            reveal_strlit(" unit offset overflowed");
                            reveal_strlit("call argument unit offset overflowed");
                        }
                        assert((uv.len() - 1) * 8 > u64::MAX);
                        assert(unit_sources(i, uv) is Err);
                        return Err(e);
                    },
                };
                out.push(ArgSource::Unit { arg: i, offset, unit: units[j] });
                assert(Seq::new(
                    (j + 1) as nat,
                    |k: int| ArgSource::Unit { arg: i, offset: (k * 8) as u64, unit: uv[k] },
                ) =~= Seq::new(
                    j as nat,
                    |k: int| ArgSource::Unit { arg: i, offset: (k * 8) as u64, unit: uv[k] },
                ).push(ArgSource::Unit { arg: i, offset, unit: uv[j as int] }));
            }
            Ok(())
        },
        AbiParamKind::Indirect { .. } => {
            out.push(ArgSource::Address(i));
            assert(out@ =~= old(out)@ + seq![ArgSource::Address(i)]);
            Ok(())
        },
    }
}

proof fn lemma_fixed_sources_err(ps: Seq<AbiParamView>, k: int, n: int)
    requires
        0 <= k <= n <= ps.len(),
        fixed_sources(ps.take(k)) is Err,
    ensures
        fixed_sources(ps.take(n)) == fixed_sources(ps.take(k)),
    decreases n - k,
{
    if k < n {
        lemma_fixed_sources_err(ps, k, n - 1);
        assert(ps.take(n).drop_last() =~= ps.take(n - 1));
    }
}

fn count_error(head: &str, n: usize, mid: &str, m: usize, tail: &str) -> (e: crate::abi::CodegenError)
    ensures
        is_internal(e, head@ + decimal(n as nat) + mid@ + decimal(m as nat) + tail@),
{
    let mut v: Vec<char> = Vec::new();
    push_str(&mut v, head);
    let a = decimal_u64(n as u64);
    push_chars(&mut v, a.as_slice());
    push_str(&mut v, mid);
    let b = decimal_u64(m as u64);
    push_chars(&mut v, b.as_slice());
    push_str(&mut v, tail);
    assert(v@ =~= head@ + decimal(n as nat) + mid@ + decimal(m as nat) + tail@);
    internal(v)
}

/// The LLVM arguments of a call with `nargs` arguments to a function with
/// the classified signature `abi`; `has_dest` tells whether the call has a
/// destination. Each source is evaluated by the caller, in order.
pub fn call_args_plan(abi: &FnAbi, nargs: usize, has_dest: bool) -> (r: Result<Vec<ArgSource>, crate::abi::CodegenError>)
    ensures
        match call_args_spec(abi@, nargs as nat, has_dest) {
            Ok(s) => r is Ok && r->Ok_0@ == s,
            Err(m) => r is Err && is_internal(r->Err_0, m),
        },
{
    let m = abi.params.len();
    assert(abi@.params.len() == m);
    if abi.variadic {
        if nargs < m {
            return Err(
                count_error("variadic call has ", nargs, " args but ABI requires at least ", m, " fixed params"),
            );
        }
    } else if nargs != m {
        let e = count_error("call argument count ", nargs, " does not match ABI parameter count ", m, "");
        proof {
            reveal_strlit("");
            let x = "call argument count "@ + decimal(nargs as nat) + " does not match ABI parameter count "@
                + decimal(m as nat);
            assert(x + ""@ =~= x);
        }
        return Err(e);
    }
    let indirect = matches!(abi.ret.kind, AbiReturnKind::Indirect { .. });
    let mut out: Vec<ArgSource> = Vec::new();
    if indirect {
        if !has_dest {
            return Err(internal_str("indirect ABI return requires a call destination"));
        }
        out.push(ArgSource::DestAddr);
    }
    let ghost head = out@;
    let ghost ps = abi@.params;
    assert(head =~= (if abi@.ret.kind is Indirect {
        seq![ArgSource::DestAddr]
    } else {
        Seq::<ArgSource>::empty()
    }));
    assert(ps.take(0) =~= Seq::<AbiParamView>::empty());
    for i in 0..m
        invariant
            m == abi.params@.len(),
            !(abi@.variadic && nargs < m),
            !(!abi@.variadic && nargs != m),
            !(abi@.ret.kind is Indirect && !has_dest),
            ps == abi@.params,
            ps.len() == m,
            forall|j: int| 0 <= j < m ==> ps[j] == #[trigger] abi.params@[j]@,
            fixed_sources(ps.take(i as int)) is Ok,
            out@ == head + fixed_sources(ps.take(i as int))->Ok_0,
    {
        proof {
            assert(ps.take(i + 1).drop_last() =~= ps.take(i as int));
            assert(ps.take(i + 1).last() == abi.params@[i as int]@);
        }
        let ghost before = out@;
        match push_param_sources(&mut out, i, &abi.params[i]) {
            Ok(()) => {},
            Err(e) => {
                proof {
                    lemma_fixed_sources_err(ps, i + 1, m as int);
                    assert(ps.take(m as int) =~= ps);
                }
                return Err(e);
            },
        }
        proof {
            assert(out@ =~= head + fixed_sources(ps.take(i + 1))->Ok_0);
        }
    }
    proof {
        assert(ps.take(m as int) =~= ps);
    }
    let ghost fixed = out@;
    for k in m..nargs
        invariant
            m <= nargs,
            out@ == fixed + Seq::new((k - m) as nat, |x: int| ArgSource::Value((m + x) as usize)),
    {
        out.push(ArgSource::Value(k));
        assert(Seq::new((k + 1 - m) as nat, |x: int| ArgSource::Value((m + x) as usize)) =~= Seq::new(
            (k - m) as nat,
            |x: int| ArgSource::Value((m + x) as usize),
        ).push(ArgSource::Value(k)));
    }
    Ok(out)
}

/// How the result of a call returning `ret` reaches the destination, when
/// `has_dest` tells that there is one.
pub fn result_store(ret: &AbiReturn, has_dest: bool) -> (r: Result<ResultStore, crate::abi::CodegenError>)
    ensures
        match result_store_spec(ret@, has_dest) {
            Ok(s) => r is Ok && r->Ok_0@ == s,
            Err(m) => r is Err && is_internal(r->Err_0, m),
        },
{
    match &ret.kind {
        AbiReturnKind::Void => {
            if has_dest {
                return Err(internal_str("void call cannot write a destination"));
            }
            Ok(ResultStore::Nothing)
        },
        AbiReturnKind::Indirect { .. } => {
            if !has_dest {
                return Err(internal_str("indirect ABI return requires a call destination"));
            }
            Ok(ResultStore::Nothing)
        },
        AbiReturnKind::Direct { units } => {
            if !has_dest {
                return Err(internal_str("direct ABI return requires a call destination"));
            }
            if units.len() == 1 {
                return Ok(ResultStore::Whole);
            }
            let mut out: Vec<(u32, u64)> = Vec::new();
            for j in 0..units.len()
                invariant
                    ret@.kind == ReturningView::Direct(units@),
                    has_dest,
                    units@.len() != 1,
                    j > 0 ==> j - 1 <= u32::MAX,
                    out@ == Seq::new(j as nat, |k: int| (k as u32, (k * 8) as u64)),
            {
                if j > u32::MAX as usize {
                    return Err(internal_str("ABI return unit index overflowed"));
                }
                let offset = match abi_unit_offset(j, "call return") {
                    Ok(o) => o,
                    Err(e) => {
                        return Err(e);
                    },
                };
                out.push((j as u32, offset));
                assert(Seq::new((j + 1) as nat, |k: int| (k as u32, (k * 8) as u64)) =~= Seq::new(
                    j as nat,
                    |k: int| (k as u32, (k * 8) as u64),
                ).push((j as u32, offset)));
            }
            Ok(ResultStore::Units(out))
        },
    }
}

/// The name of the call instruction: `call` when the call returns a value
/// directly.
pub fn call_name(ret: &AbiReturn) -> (s: &'static str)
    ensures
        s@ == call_name_spec(ret@),
{
    match ret.kind {
        AbiReturnKind::Direct { .. } => "call",
        _ => "",
    }
}

proof fn lemma_param_sources_len(i: usize, p: AbiParamView)
    requires
        param_sources(i, p) is Ok,
    ensures
        param_sources(i, p)->Ok_0.len() == crate::abi::param_llvm_count(p),
{
}

pub(crate) proof fn lemma_fixed_sources_len(ps: Seq<AbiParamView>)
    requires
        fixed_sources(ps) is Ok,
    ensures
        fixed_sources(ps)->Ok_0.len() == crate::abi::params_llvm_count(ps),
    decreases ps.len(),
{
    if ps.len() > 0 {
        lemma_fixed_sources_len(ps.drop_last());
        lemma_param_sources_len((ps.len() - 1) as usize, ps.last());
    }
}

/// A call passes exactly the callee's LLVM parameters, then its variadic
/// arguments: the argument list of a call to a classified function type
/// is as long as the LLVM signature's parameter list (which is
/// `fixed_param_count` long) plus the arguments past the fixed parameters.
pub proof fn lemma_call_args_match_signature(t: crate::abi::AbiTy, nargs: nat, has_dest: bool)
    requires
        crate::abi::fn_abi_spec(t) is Ok,
        call_args_spec(crate::abi::fn_abi_spec(t)->Ok_0, nargs, has_dest) is Ok,
    ensures
        ({
            let abi = crate::abi::fn_abi_spec(t)->Ok_0;
            let args = call_args_spec(abi, nargs, has_dest)->Ok_0;
            &&& args.len() == crate::signature::sig_params_spec(abi).len() + (nargs - abi.params.len())
            &&& args.len() == abi.fixed_param_count + (nargs - abi.params.len())
        }),
{
    let abi = crate::abi::fn_abi_spec(t)->Ok_0;
    lemma_fixed_sources_len(abi.params);
    crate::signature::lemma_signature_has_fixed_params(t);
}

} // verus!
