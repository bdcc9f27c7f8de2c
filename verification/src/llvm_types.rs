//! The LLVM type that each C type lowers to, one level at a time: a shape
//! that names the types it is built from, which the caller lowers in turn.

use vstd::prelude::*;

use crate::abi::{err_view, CodegenError, ErrView, FloatKind, TyId};
use crate::lowering::{array_len, debug_int_spec, IntRank};
use crate::text::{decimal, decimal_u64, push_chars, push_str, string_of};

verus! {

/// What a record type's definition gives its LLVM type.
#[derive(Debug)]
pub enum RecordDef {
    /// A struct with fields of these types.
    Struct(Vec<TyId>),
    /// A union whose layout has this size in bytes, or the layout error's
    /// text.
    Union(Result<u64, String>),
}

/// The body of a record's named struct.
#[derive(Clone, Debug, PartialEq, Eq)]
pub enum RecordLlvmBody {
    /// One member per field, each the lowering of the field's type.
    Fields(Vec<TyId>),
    /// `[n x i8]`: a union's bytes.
    Bytes(u32),
}

/// A record body, as values.
pub enum RecordLlvmBodyView {
    Fields(Seq<TyId>),
    Bytes(u32),
}

impl View for RecordLlvmBody {
    type V = RecordLlvmBodyView;

    open spec fn view(&self) -> RecordLlvmBodyView {
        match self {
            RecordLlvmBody::Fields(v) => RecordLlvmBodyView::Fields(v@),
            RecordLlvmBody::Bytes(n) => RecordLlvmBodyView::Bytes(*n),
        }
    }
}

/// A C type, as its lowering sees it.
#[derive(Debug)]
pub enum LowerTyKind {
    Void,
    Int(IntRank),
    Float(FloatKind),
    Complex(FloatKind),
    Ptr,
    Array { elem: TyId, len: Option<u64>, is_vla: bool },
    Func,
    /// A record: its definition id and what the id leads to.
    Record { def: u32, lookup: Result<RecordDef, crate::abi::RecordDefError> },
    /// An enum and the type that represents it (`int` when its definition
    /// names none).
    Enum { repr: TyId },
    BuiltinVaList,
    Error,
}

/// A C type id with its kind.
#[derive(Debug)]
pub struct LowerTy {
    pub id: TyId,
    pub kind: LowerTyKind,
}

/// One level of an LLVM type.
#[derive(Copy, Clone, Debug, PartialEq, Eq, Structural)]
pub enum LlvmShape {
    Void,
    /// An integer of this many bits.
    Int(u32),
    Float(FloatKind),
    /// `{ f, f }` of the floating kind.
    Complex(FloatKind),
    Ptr,
    /// An array of `len` elements of the lowering of `elem`.
    Array { elem: TyId, len: u32 },
    /// The function type of the C function type's signature.
    Func,
    /// The named struct `rcc.record.<def>`, whose body comes from the
    /// record's definition.
    Named(u32),
    /// The lowering of the enum's representation type.
    Like(TyId),
    /// `{ i32, i32, ptr, ptr }`.
    VaList,
}

/// The width of an integer rank.
pub open spec fn int_bits(rank: IntRank) -> u32 {
    match rank {
        IntRank::Bool => 1,
        IntRank::Char => 8,
        IntRank::Short => 16,
        IntRank::Int => 32,
        IntRank::Long => 64,
        IntRank::LongLong => 64,
    }
}

/// The lowering of a type of kind `k` with id `t`, one level deep, or its
/// error.
pub open spec fn shape_spec(t: TyId, k: LowerTyKind) -> Result<LlvmShape, ErrView> {
    match k {
        LowerTyKind::Void => Ok(LlvmShape::Void),
        LowerTyKind::Int(r) => Ok(LlvmShape::Int(int_bits(r))),
        LowerTyKind::Float(f) => Ok(LlvmShape::Float(f)),
        LowerTyKind::Complex(f) => Ok(LlvmShape::Complex(f)),
        LowerTyKind::Ptr => Ok(LlvmShape::Ptr),
        LowerTyKind::Array { elem, len, is_vla } => if is_vla {
            Err(ErrView::Lowering(t, "VLA array objects are runtime-sized"@))
        } else {
            match len {
                None => Err(ErrView::Lowering(t, "incomplete arrays have no LLVM object type"@)),
                Some(n) => if n > u32::MAX {
                    Err(
                        ErrView::Lowering(
                            t,
                            "array length "@ + decimal(n as nat) + " exceeds LLVM u32 limit"@,
                        ),
                    )
                } else {
                    Ok(LlvmShape::Array { elem, len: n as u32 })
                },
            }
        },
        LowerTyKind::Func => Ok(LlvmShape::Func),
        LowerTyKind::Record { def, lookup } => match lookup {
            Err(crate::abi::RecordDefError::Missing(_)) => Err(
                ErrView::Lowering(t, "record definition DefId("@ + decimal(def as nat) + ") is missing"@),
            ),
            Err(crate::abi::RecordDefError::NotARecord(_)) => Err(
                ErrView::Lowering(t, "record type does not reference a record definition"@),
            ),
            Ok(_) => Ok(LlvmShape::Named(def)),
        },
        LowerTyKind::Enum { repr } => Ok(LlvmShape::Like(repr)),
        LowerTyKind::BuiltinVaList => Ok(LlvmShape::VaList),
        LowerTyKind::Error => Err(ErrView::Lowering(t, "error type cannot be lowered"@)),
    }
}

/// The LLVM width of the integer type of rank `rank`.
pub open spec fn lowered_int_width(rank: IntRank) -> u32 {
    shape_spec(TyId(0), LowerTyKind::Int(rank))->Ok_0->Int_0
}

/// Every C integer type lowers to an LLVM integer whose width is the one
/// its debug description gives (`_Bool`, stored in a byte, is the one-bit
/// `i1`). The widths meet C's minimums, never shrink from `char` to
/// `long long`, and follow the LP64 model of the target: `char` has 8
/// bits, `int` 32, and `long` and `long long` 64, a pointer's width.
pub proof fn lemma_int_widths(t: TyId, rank: IntRank, signed: bool)
    ensures
        shape_spec(t, LowerTyKind::Int(rank)) == Ok::<LlvmShape, ErrView>(LlvmShape::Int(lowered_int_width(rank))),
        rank != IntRank::Bool ==> lowered_int_width(rank) as u64 == debug_int_spec(signed, rank).1,
        lowered_int_width(IntRank::Bool) == 1,
        lowered_int_width(IntRank::Char) >= 8,
        lowered_int_width(IntRank::Short) >= 16,
        lowered_int_width(IntRank::Int) >= 16,
        lowered_int_width(IntRank::Long) >= 32,
        lowered_int_width(IntRank::LongLong) >= 64,
        lowered_int_width(IntRank::Char) <= lowered_int_width(IntRank::Short) <= lowered_int_width(IntRank::Int)
            <= lowered_int_width(IntRank::Long) <= lowered_int_width(IntRank::LongLong),
        lowered_int_width(IntRank::Char) == 8,
        lowered_int_width(IntRank::Int) == 32,
        lowered_int_width(IntRank::Long) == 64,
        lowered_int_width(IntRank::LongLong) == 64,
{
}

/// A lowering keeps what the C type says: a floating or complex type keeps
/// its floating kind, a pointer stays a pointer, a complete array of at
/// most `u32::MAX` elements keeps its element type and length, a record
/// becomes the named struct of its own definition, and an enum takes its
/// representation's type. Runtime-sized, incomplete and erroneous types
/// have no LLVM type.
pub proof fn lemma_shape_keeps_the_type(t: TyId, k: LowerTyKind)
    ensures
        match k {
            LowerTyKind::Float(f) => shape_spec(t, k) == Ok::<LlvmShape, ErrView>(LlvmShape::Float(f)),
            LowerTyKind::Complex(f) => shape_spec(t, k) == Ok::<LlvmShape, ErrView>(LlvmShape::Complex(f)),
            LowerTyKind::Ptr => shape_spec(t, k) == Ok::<LlvmShape, ErrView>(LlvmShape::Ptr),
            LowerTyKind::Array { elem, len, is_vla } => if is_vla || len is None {
                shape_spec(t, k) is Err
            } else if len->Some_0 <= u32::MAX {
                shape_spec(t, k) == Ok::<LlvmShape, ErrView>(
                    LlvmShape::Array { elem: elem, len: len->Some_0 as u32 },
                )
            } else {
                shape_spec(t, k) is Err
            },
            LowerTyKind::Record { def, lookup } => (lookup is Ok) == (shape_spec(t, k) is Ok) && (lookup is Ok
                ==> shape_spec(t, k) == Ok::<LlvmShape, ErrView>(LlvmShape::Named(def))),
            LowerTyKind::Enum { repr } => shape_spec(t, k) == Ok::<LlvmShape, ErrView>(LlvmShape::Like(repr)),
            LowerTyKind::Error => shape_spec(t, k) is Err,
            _ => true,
        },
        (shape_spec(t, k) is Err) ==> (shape_spec(t, k)->Err_0 is Lowering && shape_spec(t, k)->Err_0->Lowering_0
            == t),
{
}

fn lowering(ty: TyId, reason: &str) -> (e: CodegenError)
    ensures
        err_view(e) == ErrView::Lowering(ty, reason@),
{
    CodegenError::TypeLowering { ty, reason: reason.to_string() }
}

fn lowering_chars(ty: TyId, v: Vec<char>) -> (e: CodegenError)
    ensures
        err_view(e) == ErrView::Lowering(ty, v@),
{
    CodegenError::TypeLowering { ty, reason: string_of(v.as_slice()) }
}

/// The LLVM type of `t`, one level deep.
pub fn type_shape(t: &LowerTy) -> (r: Result<LlvmShape, CodegenError>)
    ensures
        match shape_spec(t.id, t.kind) {
            Ok(s) => r == Ok::<LlvmShape, CodegenError>(s),
            Err(e) => r is Err && err_view(r->Err_0) == e,
        },
{
    match &t.kind {
        LowerTyKind::Void => Ok(LlvmShape::Void),
        LowerTyKind::Int(r) => Ok(
            LlvmShape::Int(
                match r {
                    IntRank::Bool => 1,
                    IntRank::Char => 8,
                    IntRank::Short => 16,
                    IntRank::Int => 32,
                    IntRank::Long | IntRank::LongLong => 64,
                },
            ),
        ),
        LowerTyKind::Float(f) => Ok(LlvmShape::Float(*f)),
        LowerTyKind::Complex(f) => Ok(LlvmShape::Complex(*f)),
        LowerTyKind::Ptr => Ok(LlvmShape::Ptr),
        LowerTyKind::Array { elem, len, is_vla } => {
            if *is_vla {
                return Err(lowering(t.id, "VLA array objects are runtime-sized"));
            }
            match len {
                None => Err(lowering(t.id, "incomplete arrays have no LLVM object type")),
                Some(n) => match array_len(*n, t.id) {
                    Ok(l) => Ok(LlvmShape::Array { elem: *elem, len: l }),
                    Err(e) => Err(e),
                },
            }
        },
        LowerTyKind::Func => Ok(LlvmShape::Func),
        LowerTyKind::Record { def, lookup } => match lookup {
            Err(crate::abi::RecordDefError::Missing(_)) => {
                let mut v: Vec<char> = Vec::new();
                push_str(&mut v, "record definition DefId(");
                let d = decimal_u64(*def as u64);
                push_chars(&mut v, d.as_slice());
                push_str(&mut v, ") is missing");
                assert(v@ =~= "record definition DefId("@ + decimal(*def as nat) + ") is missing"@);
                Err(lowering_chars(t.id, v))
            },
            Err(crate::abi::RecordDefError::NotARecord(_)) => Err(
                lowering(t.id, "record type does not reference a record definition"),
            ),
            Ok(_) => Ok(LlvmShape::Named(*def)),
        },
        LowerTyKind::Enum { repr } => Ok(LlvmShape::Like(*repr)),
        LowerTyKind::BuiltinVaList => Ok(LlvmShape::VaList),
        LowerTyKind::Error => Err(lowering(t.id, "error type cannot be lowered")),
    }
}

/// The body of the named struct of record type `t` defined by `d`: one
/// member per field for a struct, the union's bytes for a union.
pub open spec fn record_body_spec(t: TyId, d: RecordDef) -> Result<RecordLlvmBodyView, ErrView> {
    match d {
        RecordDef::Struct(fields) => Ok(RecordLlvmBodyView::Fields(fields@)),
        RecordDef::Union(Err(e)) => Err(ErrView::Lowering(t, e@)),
        RecordDef::Union(Ok(size)) => if size > u32::MAX {
            Err(ErrView::Lowering(t, "array length "@ + decimal(size as nat) + " exceeds LLVM u32 limit"@))
        } else {
            Ok(RecordLlvmBodyView::Bytes(size as u32))
        },
    }
}

/// The body of the named struct of record type `t` defined by `d`.
pub fn record_body(t: TyId, d: &RecordDef) -> (r: Result<RecordLlvmBody, CodegenError>)
    ensures
        match record_body_spec(t, *d) {
            Ok(b) => r is Ok && r->Ok_0@ == b,
            Err(e) => r is Err && err_view(r->Err_0) == e,
        },
{
    match d {
        RecordDef::Struct(fields) => {
            let mut v: Vec<TyId> = Vec::new();
            for i in 0..fields.len()
                invariant
                    v@ == fields@.take(i as int),
            {
                v.push(fields[i]);
                assert(fields@.take(i + 1) == fields@.take(i as int).push(fields@[i as int]));
            }
            assert(fields@.take(fields@.len() as int) == fields@);
            Ok(RecordLlvmBody::Fields(v))
        },
        RecordDef::Union(Err(e)) => Err(CodegenError::TypeLowering { ty: t, reason: e.clone() }),
        RecordDef::Union(Ok(size)) => match array_len(*size, t) {
            Ok(n) => Ok(RecordLlvmBody::Bytes(n)),
            Err(e) => Err(e),
        },
    }
}

/// Whether a shape is a first-class value type: `void` and function types
/// are not, and using one as a value is refused with this reason.
pub open spec fn basic_error(s: LlvmShape) -> Option<Seq<char>> {
    match s {
        LlvmShape::Void => Some("void is not a basic type"@),
        LlvmShape::Func => Some("function is not a basic type"@),
        _ => None,
    }
}

/// Checks that a lowered type `t` of shape `s` can be a value.
pub fn basic_check(t: TyId, s: LlvmShape) -> (r: Result<(), CodegenError>)
    ensures
        match basic_error(s) {
            None => r is Ok,
            Some(m) => r is Err && err_view(r->Err_0) == ErrView::Lowering(t, m),
        },
{
    match s {
        LlvmShape::Void => Err(lowering(t, "void is not a basic type")),
        LlvmShape::Func => Err(lowering(t, "function is not a basic type")),
        _ => Ok(()),
    }
}

/// The error for an enum type `ty` whose representation `repr` cannot be
/// lowered to a value type.
pub fn enum_repr_error(ty: TyId, repr: TyId) -> (e: CodegenError)
    ensures
        err_view(e) == ErrView::Lowering(ty, "enum representation TyId("@ + decimal(repr.0 as nat) + ") is invalid"@),
{
    let mut v: Vec<char> = Vec::new();
    push_str(&mut v, "enum representation TyId(");
    let d = decimal_u64(repr.0 as u64);
    push_chars(&mut v, d.as_slice());
    push_str(&mut v, ") is invalid");
    assert(v@ =~= "enum representation TyId("@ + decimal(repr.0 as nat) + ") is invalid"@);
    lowering_chars(ty, v)
}

/// A struct's body has one member per field, in the fields' order and of
/// their types; a union's body is a byte array exactly as long as the
/// union, which must fit LLVM's array length.
pub proof fn lemma_record_body_layout(t: TyId, d: RecordDef)
    ensures
        match d {
            RecordDef::Struct(fields) => record_body_spec(t, d) == Ok::<RecordLlvmBodyView, ErrView>(
                RecordLlvmBodyView::Fields(fields@),
            ),
            RecordDef::Union(Ok(size)) => (size <= u32::MAX) == (record_body_spec(t, d) is Ok) && (size <= u32::MAX
                ==> record_body_spec(t, d) == Ok::<RecordLlvmBodyView, ErrView>(
                RecordLlvmBodyView::Bytes(size as u32),
            )),
            RecordDef::Union(Err(e)) => record_body_spec(t, d) == Err::<RecordLlvmBodyView, ErrView>(
                ErrView::Lowering(t, e@),
            ),
        },
{
}

} // verus!
