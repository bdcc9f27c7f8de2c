//! The instruction of each CFG cast, from what the operand and the target
//! type lower to.

use vstd::prelude::*;

use crate::abi::{err_view, CodegenError, ErrView, TyId};

verus! {

/// The casts of the CFG.
#[derive(Copy, Clone, Debug, PartialEq, Eq, Structural)]
pub enum CastKind {
    IntToInt,
    IntToFloat,
    FloatToInt,
    FloatToFloat,
    PtrToPtr,
    PtrToInt,
    IntToPtr,
}

/// The LLVM class of a lowered type.
#[derive(Copy, Clone, Debug, PartialEq, Eq, Structural)]
pub enum ValueClass {
    /// An integer of this many bits.
    Int(u32),
    Float,
    Ptr,
    Other,
}

/// What a cast needs to know of its operand and its target.
#[derive(Copy, Clone, Debug, PartialEq, Eq, Structural)]
pub struct CastFacts {
    /// Width of an integer operand's value.
    pub from_bits: u32,
    /// The operand's C type is signed.
    pub from_signed: bool,
    /// Width of a floating operand's C type.
    pub from_float_width: u32,
    /// What the target type lowers to.
    pub to: ValueClass,
    /// The target is `_Bool`.
    pub to_bool: bool,
    /// The target's C type is signed.
    pub to_signed: bool,
    /// The target's C type is a pointer.
    pub to_ptr: bool,
    /// Width of a floating target's C type.
    pub to_float_width: u32,
}

/// The instruction of a cast.
#[derive(Copy, Clone, Debug, PartialEq, Eq, Structural)]
pub enum CastInstr {
    /// The value is kept.
    Keep,
    Trunc,
    SExt,
    ZExt,
    /// `icmp ne x, 0`.
    IntIsNonZero,
    SiToFp,
    UiToFp,
    /// `fcmp one x, 0.0`.
    FloatIsNonZero,
    FpToSi,
    FpToUi,
    FpExt,
    FpTrunc,
    /// `icmp ne p, null`.
    IsNonNull,
    PtrToInt,
    IntToPtr,
}

/// The instruction of cast `k` to type `to` with facts `f`, or the reason
/// the target does not fit the cast.
pub open spec fn cast_spec(k: CastKind, to: TyId, f: CastFacts) -> Result<CastInstr, ErrView> {
    match k {
        CastKind::IntToInt => match f.to {
            ValueClass::Int(w) => Ok(
                if f.to_bool {
                    if f.from_bits == 1 {
                        CastInstr::Keep
                    } else {
                        CastInstr::IntIsNonZero
                    }
                } else if f.from_bits == w {
                    CastInstr::Keep
                } else if f.from_bits > w {
                    CastInstr::Trunc
                } else if f.from_signed {
                    CastInstr::SExt
                } else {
                    CastInstr::ZExt
                },
            ),
            _ => Err(ErrView::Lowering(to, "integer cast target is not an integer"@)),
        },
        CastKind::IntToFloat => match f.to {
            ValueClass::Float => Ok(
                if f.from_signed {
                    CastInstr::SiToFp
                } else {
                    CastInstr::UiToFp
                },
            ),
            _ => Err(ErrView::Lowering(to, "integer-to-float target is not floating"@)),
        },
        CastKind::FloatToInt => match f.to {
            ValueClass::Int(_) => Ok(
                if f.to_bool {
                    CastInstr::FloatIsNonZero
                } else if f.to_signed {
                    CastInstr::FpToSi
                } else {
                    CastInstr::FpToUi
                },
            ),
            _ => Err(ErrView::Lowering(to, "float-to-integer target is not an integer"@)),
        },
        CastKind::FloatToFloat => match f.to {
            ValueClass::Float => Ok(
                if f.from_float_width == f.to_float_width {
                    CastInstr::Keep
                } else if f.from_float_width < f.to_float_width {
                    CastInstr::FpExt
                } else {
                    CastInstr::FpTrunc
                },
            ),
            _ => Err(ErrView::Lowering(to, "float cast target is not floating"@)),
        },
        CastKind::PtrToPtr => if f.to_ptr {
            Ok(CastInstr::Keep)
        } else {
            Err(ErrView::Lowering(to, "pointer cast target is not a pointer"@))
        },
        CastKind::PtrToInt => match f.to {
            ValueClass::Int(_) => Ok(
                if f.to_bool {
                    CastInstr::IsNonNull
                } else {
                    CastInstr::PtrToInt
                },
            ),
            _ => Err(ErrView::Lowering(to, "pointer-to-integer target is not an integer"@)),
        },
        CastKind::IntToPtr => match f.to {
            ValueClass::Ptr => Ok(CastInstr::IntToPtr),
            _ => Err(ErrView::Lowering(to, "integer-to-pointer target is not a pointer"@)),
        },
    }
}

fn lowering(ty: TyId, reason: &str) -> (e: CodegenError)
    ensures
        err_view(e) == ErrView::Lowering(ty, reason@),
{
    CodegenError::TypeLowering { ty, reason: reason.to_string() }
}

/// The instruction of cast `k` to type `to`.
pub fn cast_instr(k: CastKind, to: TyId, f: CastFacts) -> (r: Result<CastInstr, CodegenError>)
    ensures
        match cast_spec(k, to, f) {
            Ok(i) => r == Ok::<CastInstr, CodegenError>(i),
            Err(e) => r is Err && err_view(r->Err_0) == e,
        },
{
    match k {
        CastKind::IntToInt => match f.to {
            ValueClass::Int(w) => {
                if f.to_bool {
                    return Ok(
                        if f.from_bits == 1 {
                            CastInstr::Keep
                        } else {
                            CastInstr::IntIsNonZero
                        },
                    );
                }
                Ok(
                    if f.from_bits == w {
                        CastInstr::Keep
                    } else if f.from_bits > w {
                        CastInstr::Trunc
                    } else if f.from_signed {
                        CastInstr::SExt
                    } else {
                        CastInstr::ZExt
                    },
                )
            },
            _ => Err(lowering(to, "integer cast target is not an integer")),
        },
        CastKind::IntToFloat => match f.to {
            ValueClass::Float => Ok(
                if f.from_signed {
                    CastInstr::SiToFp
                } else {
                    CastInstr::UiToFp
                },
            ),
            _ => Err(lowering(to, "integer-to-float target is not floating")),
        },
        CastKind::FloatToInt => match f.to {
            ValueClass::Int(_) => Ok(
                if f.to_bool {
                    CastInstr::FloatIsNonZero
                } else if f.to_signed {
                    CastInstr::FpToSi
                } else {
                    CastInstr::FpToUi
                },
            ),
            _ => Err(lowering(to, "float-to-integer target is not an integer")),
        },
        CastKind::FloatToFloat => match f.to {
            ValueClass::Float => Ok(
                if f.from_float_width == f.to_float_width {
                    CastInstr::Keep
                } else if f.from_float_width < f.to_float_width {
                    CastInstr::FpExt
                } else {
                    CastInstr::FpTrunc
                },
            ),
            _ => Err(lowering(to, "float cast target is not floating")),
        },
        CastKind::PtrToPtr => {
            if f.to_ptr {
                Ok(CastInstr::Keep)
            } else {
                Err(lowering(to, "pointer cast target is not a pointer"))
            }
        },
        CastKind::PtrToInt => match f.to {
            ValueClass::Int(_) => Ok(
                if f.to_bool {
                    CastInstr::IsNonNull
                } else {
                    CastInstr::PtrToInt
                },
            ),
            _ => Err(lowering(to, "pointer-to-integer target is not an integer")),
        },
        CastKind::IntToPtr => match f.to {
            ValueClass::Ptr => Ok(CastInstr::IntToPtr),
            _ => Err(lowering(to, "integer-to-pointer target is not a pointer")),
        },
    }
}

/// A cast keeps what C says a conversion keeps. Between integers: a
/// conversion to `_Bool` tests for non-zero unless the operand already is
/// one bit; otherwise the value is kept at equal widths, truncated only
/// when narrowing, and widened by sign extension exactly when the operand
/// is signed. Integers become floating values by their own signedness, and
/// floating values become integers by the target's. Between floating
/// types, the value is extended only when widening and truncated only when
/// narrowing. A pointer converted to `_Bool` is tested against null.
pub proof fn lemma_cast_preserves_meaning(k: CastKind, to: TyId, f: CastFacts)
    ensures
        (k == CastKind::IntToInt && f.to is Int && !f.to_bool) ==> ({
            let w = f.to->Int_0;
            let r = cast_spec(k, to, f)->Ok_0;
            &&& (r == CastInstr::Keep) == (f.from_bits == w)
            &&& (r == CastInstr::Trunc) == (f.from_bits > w)
            &&& (r == CastInstr::SExt) == (f.from_bits < w && f.from_signed)
            &&& (r == CastInstr::ZExt) == (f.from_bits < w && !f.from_signed)
        }),
        (k == CastKind::IntToInt && f.to is Int && f.to_bool) ==> cast_spec(k, to, f) == Ok::<CastInstr, ErrView>(
            if f.from_bits == 1 {
                CastInstr::Keep
            } else {
                CastInstr::IntIsNonZero
            },
        ),
        (k == CastKind::IntToFloat && f.to is Float) ==> (cast_spec(k, to, f) == Ok::<CastInstr, ErrView>(
            CastInstr::SiToFp,
        )) == f.from_signed,
        (k == CastKind::FloatToInt && f.to is Int && !f.to_bool) ==> (cast_spec(k, to, f) == Ok::<CastInstr, ErrView>(
            CastInstr::FpToSi,
        )) == f.to_signed,
        (k == CastKind::FloatToInt && f.to is Int && f.to_bool) ==> cast_spec(k, to, f) == Ok::<CastInstr, ErrView>(
            CastInstr::FloatIsNonZero,
        ),
        (k == CastKind::FloatToFloat && f.to is Float) ==> ({
            let r = cast_spec(k, to, f)->Ok_0;
            &&& (r == CastInstr::FpExt) == (f.from_float_width < f.to_float_width)
            &&& (r == CastInstr::FpTrunc) == (f.from_float_width > f.to_float_width)
            &&& (r == CastInstr::Keep) == (f.from_float_width == f.to_float_width)
        }),
        (k == CastKind::PtrToInt && f.to is Int) ==> (cast_spec(k, to, f) == Ok::<CastInstr, ErrView>(
            CastInstr::IsNonNull,
        )) == f.to_bool,
        cast_spec(k, to, f) is Ok ==> match k {
            CastKind::PtrToPtr => f.to_ptr,
            CastKind::IntToPtr => f.to is Ptr,
            CastKind::IntToFloat | CastKind::FloatToFloat => f.to is Float,
            _ => f.to is Int,
        },
{
}

} // verus!
