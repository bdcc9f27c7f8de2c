//! Pointer arithmetic: which operand is the pointer, the element type it
//! steps over, and the element size that divides a pointer difference.

use vstd::prelude::*;

use crate::abi::{err_view, CodegenError, ErrView, TyId};
use crate::text::{decimal, decimal_u64, push_chars, push_str, string_of};

verus! {

/// What pointer arithmetic needs to know of an operand's type.
#[derive(Copy, Clone, Debug, PartialEq, Eq, Structural)]
pub enum ArithTy {
    /// A pointer to this type.
    Ptr(TyId),
    Int,
    Other,
}

/// `TyId(n)`, as a type id prints.
pub open spec fn ty_text(t: TyId) -> Seq<char> {
    "TyId("@ + decimal(t.0 as nat) + ")"@
}

/// Pointer plus integer (in either order): whether the pointer is the left
/// operand, and the type of the elements it steps over.
pub open spec fn ptr_add_spec(lt: TyId, l: ArithTy, rt: TyId, r: ArithTy) -> Result<(bool, TyId), ErrView> {
    match (l, r) {
        (ArithTy::Ptr(p), ArithTy::Int) => Ok((true, p)),
        (ArithTy::Int, ArithTy::Ptr(p)) => Ok((false, p)),
        _ => Err(
            ErrView::Internal(
                "PtrAdd requires pointer and integer operands, got "@ + ty_text(lt) + " and "@ + ty_text(rt),
            ),
        ),
    }
}

/// Pointer minus integer: the type of the elements the pointer steps over.
pub open spec fn ptr_sub_spec(lt: TyId, l: ArithTy) -> Result<TyId, ErrView> {
    match l {
        ArithTy::Ptr(p) => Ok(p),
        _ => Err(ErrView::Internal("PtrSub left operand must be a pointer, got "@ + ty_text(lt))),
    }
}

/// Pointer minus pointer: the size of the elements that the byte distance
/// is divided by, from the pointee's layout size (or its error's text).
pub open spec fn ptr_diff_spec(lt: TyId, l: ArithTy, rt: TyId, r: ArithTy, size: Result<u64, Seq<char>>) -> Result<
    u64,
    ErrView,
> {
    match l {
        ArithTy::Ptr(p) => if !(r is Ptr) {
            Err(ErrView::Internal("PtrDiff right operand must be a pointer, got "@ + ty_text(rt)))
        } else {
            match size {
                Err(e) => Err(ErrView::Lowering(p, e)),
                Ok(n) => if n == 0 {
                    Err(ErrView::Lowering(p, "pointer difference element has zero size"@))
                } else {
                    Ok(n)
                },
            }
        },
        _ => Err(ErrView::Internal("PtrDiff operands must be pointers, got "@ + ty_text(lt))),
    }
}

pub(crate) fn ty_chars(out: &mut Vec<char>, t: TyId)
    ensures
        final(out)@ == old(out)@ + ty_text(t),
{
    push_str(out, "TyId(");
    let d = decimal_u64(t.0 as u64);
    push_chars(out, d.as_slice());
    push_str(out, ")");
    assert(final(out)@ =~= old(out)@ + ty_text(t));
}

fn internal(v: Vec<char>) -> (e: CodegenError)
    ensures
        err_view(e) == ErrView::Internal(v@),
{
    CodegenError::Internal(string_of(v.as_slice()))
}

/// Pointer plus integer: whether the left operand is the pointer, and the
/// element type.
pub fn ptr_add_plan(lt: TyId, l: ArithTy, rt: TyId, r: ArithTy) -> (res: Result<(bool, TyId), CodegenError>)
    ensures
        match ptr_add_spec(lt, l, rt, r) {
            Ok(x) => res == Ok::<(bool, TyId), CodegenError>(x),
            Err(e) => res is Err && err_view(res->Err_0) == e,
        },
{
    match (l, r) {
        (ArithTy::Ptr(p), ArithTy::Int) => Ok((true, p)),
        (ArithTy::Int, ArithTy::Ptr(p)) => Ok((false, p)),
        _ => {
            let mut v: Vec<char> = Vec::new();
            push_str(&mut v, "PtrAdd requires pointer and integer operands, got ");
            ty_chars(&mut v, lt);
            push_str(&mut v, " and ");
            ty_chars(&mut v, rt);
            assert(v@ =~= "PtrAdd requires pointer and integer operands, got "@ + ty_text(lt) + " and "@ + ty_text(rt));
            Err(internal(v))
        },
    }
}

/// Pointer minus integer: the element type.
pub fn ptr_sub_plan(lt: TyId, l: ArithTy) -> (res: Result<TyId, CodegenError>)
    ensures
        match ptr_sub_spec(lt, l) {
            Ok(x) => res == Ok::<TyId, CodegenError>(x),
            Err(e) => res is Err && err_view(res->Err_0) == e,
        },
{
    match l {
        ArithTy::Ptr(p) => Ok(p),
        _ => {
            let mut v: Vec<char> = Vec::new();
            push_str(&mut v, "PtrSub left operand must be a pointer, got ");
            ty_chars(&mut v, lt);
            Err(internal(v))
        },
    }
}

/// Pointer minus pointer: the element size, given the pointee layout's
/// size or its error's text.
pub fn ptr_diff_plan(lt: TyId, l: ArithTy, rt: TyId, r: ArithTy, size: Result<u64, String>) -> (res: Result<
    u64,
    CodegenError,
>)
    ensures
        match ptr_diff_spec(
            lt,
            l,
            rt,
            r,
            match size {
                Ok(n) => Ok::<u64, Seq<char>>(n),
                Err(e) => Err::<u64, Seq<char>>(e@),
            },
        ) {
            Ok(x) => res == Ok::<u64, CodegenError>(x),
            Err(e) => res is Err && err_view(res->Err_0) == e,
        },
{
    let p = match l {
        ArithTy::Ptr(p) => p,
        _ => {
            let mut v: Vec<char> = Vec::new();
            push_str(&mut v, "PtrDiff operands must be pointers, got ");
            ty_chars(&mut v, lt);
            return Err(internal(v));
        },
    };
    if !matches!(r, ArithTy::Ptr(_)) {
        let mut v: Vec<char> = Vec::new();
        push_str(&mut v, "PtrDiff right operand must be a pointer, got ");
        ty_chars(&mut v, rt);
        return Err(internal(v));
    }
    match size {
        Err(e) => Err(CodegenError::TypeLowering { ty: p, reason: e }),
        Ok(n) => {
            if n == 0 {
                Err(CodegenError::TypeLowering { ty: p, reason: "pointer difference element has zero size".to_string() })
            } else {
                Ok(n)
            }
        },
    }
}

} // verus!
