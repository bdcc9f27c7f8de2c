//! How an assignment to an array or record place is carried out: a copy
//! or a zero fill, byte by byte when either side is volatile.

use vstd::prelude::*;

use crate::abi::{err_view, CodegenError, ErrView, Layout, TyId};
use crate::lowering::{is_power_of_two, layout_align};
use crate::text::{decimal, decimal_u64, push_chars, push_str, string_of};

verus! {

/// The value assigned to an aggregate place.
#[derive(Copy, Clone, Debug, PartialEq, Eq, Structural)]
pub enum AggValue {
    /// The value of another place, of this type and layout, volatile or not.
    CopyFrom { ty: TyId, volatile: bool, layout: Layout },
    /// A zero initializer.
    ZeroInit,
    /// Any other value: assigned as a scalar.
    Other,
}

/// How an aggregate assignment writes its destination.
#[derive(Copy, Clone, Debug, PartialEq, Eq, Structural)]
pub enum AggregateWrite {
    /// Volatile one-byte loads and stores over this many bytes.
    VolatileBytes(u64),
    /// `memcpy` of this many bytes with the destination's and the source's
    /// alignment.
    Memcpy { size: u64, dest_align: u32, src_align: u32 },
    /// Volatile stores of zero over this many bytes.
    VolatileZero(u64),
    /// `memset` to zero of this many bytes with the destination's alignment.
    Memset { size: u64, align: u32 },
}

/// The error of a copy between objects of different sizes.
pub open spec fn size_mismatch(dest: u64, src: u64) -> ErrView {
    ErrView::Internal(
        "aggregate copy size mismatch: dest "@ + decimal(dest as nat) + " bytes, source "@ + decimal(src as nat)
            + " bytes"@,
    )
}

/// The error of a layout whose alignment is not a power of two.
pub open spec fn bad_align(ty: TyId, a: u32) -> ErrView {
    ErrView::Lowering(ty, "invalid memory alignment "@ + decimal(a as nat))
}

/// The write of an assignment of `v` to a place of type `dest_ty` (an
/// array or record when `dest_aggregate`) with layout `dl`, volatile when
/// `dest_volatile`; `None` when the assignment is not an aggregate one.
pub open spec fn aggregate_spec(dest_aggregate: bool, dest_ty: TyId, dest_volatile: bool, dl: Layout, v: AggValue) -> Result<
    Option<AggregateWrite>,
    ErrView,
> {
    if !dest_aggregate {
        Ok(None)
    } else {
        match v {
            AggValue::CopyFrom { ty, volatile, layout } => if dl.size != layout.size {
                Err(size_mismatch(dl.size, layout.size))
            } else if dest_volatile || volatile {
                Ok(Some(AggregateWrite::VolatileBytes(dl.size)))
            } else if !is_power_of_two(dl.align) {
                Err(bad_align(dest_ty, dl.align))
            } else if !is_power_of_two(layout.align) {
                Err(bad_align(ty, layout.align))
            } else {
                Ok(Some(AggregateWrite::Memcpy { size: dl.size, dest_align: dl.align, src_align: layout.align }))
            },
            AggValue::ZeroInit => if dest_volatile {
                Ok(Some(AggregateWrite::VolatileZero(dl.size)))
            } else if !is_power_of_two(dl.align) {
                Err(bad_align(dest_ty, dl.align))
            } else {
                Ok(Some(AggregateWrite::Memset { size: dl.size, align: dl.align }))
            },
            AggValue::Other => Ok(None),
        }
    }
}

fn mismatch_error(dest: u64, src: u64) -> (e: CodegenError)
    ensures
        err_view(e) == size_mismatch(dest, src),
{
    let mut v: Vec<char> = Vec::new();
    push_str(&mut v, "aggregate copy size mismatch: dest ");
    let a = decimal_u64(dest);
    push_chars(&mut v, a.as_slice());
    push_str(&mut v, " bytes, source ");
    let b = decimal_u64(src);
    push_chars(&mut v, b.as_slice());
    push_str(&mut v, " bytes");
    assert(v@ =~= "aggregate copy size mismatch: dest "@ + decimal(dest as nat) + " bytes, source "@ + decimal(
        src as nat,
    ) + " bytes"@);
    CodegenError::Internal(string_of(v.as_slice()))
}

/// How an assignment of `v` to a place of type `dest_ty` is written: the
/// destination is an array or record when `dest_aggregate`, has layout
/// `dl`, and is volatile when `dest_volatile`.
pub fn aggregate_assign_plan(dest_aggregate: bool, dest_ty: TyId, dest_volatile: bool, dl: Layout, v: AggValue) -> (r: Result<
    Option<AggregateWrite>,
    CodegenError,
>)
    ensures
        match aggregate_spec(dest_aggregate, dest_ty, dest_volatile, dl, v) {
            Ok(w) => r == Ok::<Option<AggregateWrite>, CodegenError>(w),
            Err(e) => r is Err && err_view(r->Err_0) == e,
        },
{
    if !dest_aggregate {
        return Ok(None);
    }
    match v {
        AggValue::CopyFrom { ty, volatile, layout } => {
            if dl.size != layout.size {
                return Err(mismatch_error(dl.size, layout.size));
            }
            if dest_volatile || volatile {
                return Ok(Some(AggregateWrite::VolatileBytes(dl.size)));
            }
            let da = match layout_align(dest_ty, dl) {
                Ok(a) => a,
                Err(e) => {
                    return Err(e);
                },
            };
            let sa = match layout_align(ty, layout) {
                Ok(a) => a,
                Err(e) => {
                    return Err(e);
                },
            };
            Ok(Some(AggregateWrite::Memcpy { size: dl.size, dest_align: da, src_align: sa }))
        },
        AggValue::ZeroInit => {
            if dest_volatile {
                return Ok(Some(AggregateWrite::VolatileZero(dl.size)));
            }
            let a = match layout_align(dest_ty, dl) {
                Ok(a) => a,
                Err(e) => {
                    return Err(e);
                },
            };
            Ok(Some(AggregateWrite::Memset { size: dl.size, align: a }))
        },
        AggValue::Other => Ok(None),
    }
}

} // verus!
