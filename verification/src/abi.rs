//! Baseline SysV x86-64 calling-convention classification.
//!
//! A C type is described to the classifier by an [`AbiTy`]: its kind, the
//! layout that the layout engine computed for it (or the error it reported),
//! and, for aggregates, the element or field layouts. The classifier splits an
//! aggregate into eightbytes, merges the classes of every scalar that overlaps
//! each eightbyte, applies the post-merge cleanup, and decides whether the
//! value travels in registers (`Direct`) or through memory (`Indirect`).
use vstd::prelude::*;

verus! {

/// Final SysV x86-64 ABI class assigned to a parameter/return eightbyte.
#[derive(Copy, Clone, Debug, PartialEq, Eq, Structural)]
pub enum AbiClass {
    /// Empty or padding-only eightbyte before cleanup.
    NoClass,
    /// General-purpose integer register class.
    Integer,
    /// SSE/vector register class.
    Sse,
    /// Upper half of a vector register.
    SseUp,
    /// x87 long-double payload class.
    X87,
    /// x87 long-double exponent/padding class.
    X87Up,
    /// Complex long-double class.
    ComplexX87,
    /// Stack memory class.
    Memory,
}

impl Default for AbiClass {
    /// An eightbyte starts out unclassified.
    fn default() -> (c: Self)
        ensures
            c == AbiClass::NoClass,
    {
        AbiClass::NoClass
    }
}

/// Whether `c` is one of the x87 classes.
pub open spec fn is_x87_class(c: AbiClass) -> bool {
    c == AbiClass::X87 || c == AbiClass::X87Up || c == AbiClass::ComplexX87
}

/// The class of an eightbyte that two overlapping scalars of classes `a` and
/// `b` share.
pub open spec fn merged_class(a: AbiClass, b: AbiClass) -> AbiClass {
    if a == b {
        a
    } else if a == AbiClass::NoClass {
        b
    } else if b == AbiClass::NoClass {
        a
    } else if a == AbiClass::Memory || b == AbiClass::Memory {
        AbiClass::Memory
    } else if a == AbiClass::Integer || b == AbiClass::Integer {
        AbiClass::Integer
    } else if is_x87_class(a) || is_x87_class(b) {
        AbiClass::Memory
    } else {
        AbiClass::Sse
    }
}

/// Merges the class of an eightbyte with the class of one more scalar that
/// overlaps it.
pub fn merge_class(lhs: AbiClass, rhs: AbiClass) -> (c: AbiClass)
    ensures
        c == merged_class(lhs, rhs),
{
    if lhs == rhs {
        lhs
    } else if lhs == AbiClass::NoClass {
        rhs
    } else if rhs == AbiClass::NoClass {
        lhs
    } else if lhs == AbiClass::Memory || rhs == AbiClass::Memory {
        AbiClass::Memory
    } else if lhs == AbiClass::Integer || rhs == AbiClass::Integer {
        AbiClass::Integer
    } else if lhs == AbiClass::X87 || lhs == AbiClass::X87Up || lhs == AbiClass::ComplexX87
        || rhs == AbiClass::X87 || rhs == AbiClass::X87Up || rhs == AbiClass::ComplexX87 {
        AbiClass::Memory
    } else {
        AbiClass::Sse
    }
}

/// Merging does not depend on the order of the two classes, an unclassified
/// eightbyte takes the other class, memory absorbs everything, and merging a
/// class with itself leaves it unchanged.
pub proof fn lemma_merge_class_laws(a: AbiClass, b: AbiClass)
    ensures
        merged_class(a, b) == merged_class(b, a),
        merged_class(AbiClass::NoClass, a) == a,
        merged_class(a, AbiClass::NoClass) == a,
        merged_class(AbiClass::Memory, a) == AbiClass::Memory,
        merged_class(a, AbiClass::Memory) == AbiClass::Memory,
        merged_class(a, a) == a,
{
}

/// Merging never yields `SseUp` unless one of the merged classes already was
/// `SseUp`.
pub proof fn lemma_merge_class_never_invents_sse_up(a: AbiClass, b: AbiClass)
    requires
        a != AbiClass::SseUp,
        b != AbiClass::SseUp,
    ensures
        merged_class(a, b) != AbiClass::SseUp,
{
}

/// Stand-in for the id under which the type table knows a type.
#[derive(Copy, Clone, Debug, PartialEq, Eq, Structural)]
pub struct TyId(pub u32);

/// Floating-point kinds of C: `float`, `double` and x87 `long double`.
#[derive(Copy, Clone, Debug, PartialEq, Eq, Structural)]
pub enum FloatKind {
    F32,
    F64,
    F80,
}

/// Size and alignment of a type, in bytes.
#[derive(Copy, Clone, Debug, PartialEq, Eq, Structural)]
pub struct Layout {
    pub size: u64,
    pub align: u32,
}

/// Pointer layout for the baseline LP64 / SysV x86-64 target.
pub fn baseline_pointer_layout() -> (l: Layout)
    ensures
        l.size == 8,
        l.align == 8,
{
    Layout { size: 8, align: 8 }
}

/// A C type as the classifier sees it.
#[derive(Debug)]
pub struct AbiTy {
    /// The type's id, reported in errors and in `Source` units.
    pub id: TyId,
    /// What the layout engine answered for this type.
    pub layout: Result<Layout, String>,
    /// The type's structure.
    pub kind: AbiTyKind,
}

/// One field of a record, with the placement the record layout gave it.
#[derive(Debug)]
pub struct AbiField {
    pub ty: AbiTy,
    /// Byte offset of the field's storage inside the record.
    pub offset: u64,
    /// Size of the field's storage unit in bytes (zero for zero-width
    /// bit-fields and flexible array members).
    pub storage_size: u64,
    /// Alignment of the field's storage unit in bytes.
    pub storage_align: u32,
}

/// Structure of a C type.
#[derive(Debug)]
pub enum AbiTyKind {
    Void,
    /// Integer, pointer or enumeration type; `is_bool` marks `_Bool`.
    Int { is_bool: bool },
    Float(FloatKind),
    Complex(FloatKind),
    /// Array of `len` elements (`None` for an incomplete array) spaced
    /// `elem_size` bytes apart.
    Array { elem: Box<AbiTy>, elem_size: u64, len: Option<u64> },
    /// Record type (a union when `union` is set); `Err` tells why its
    /// definition could not be looked up.
    Record { union: bool, fields: Result<Vec<AbiField>, RecordDefError> },
    /// Function type.
    Func { ret: Box<AbiTy>, params: Vec<AbiTy>, variadic: bool },
    /// The type of an erroneous expression.
    Error,
}

/// Why the definition of a record type could not be used.
#[derive(Copy, Clone, Debug, PartialEq, Eq, Structural)]
pub enum RecordDefError {
    /// No definition has this id.
    Missing(u32),
    /// The definition with this id is not a record.
    NotARecord(u32),
}

/// Reason reported by the classifier for a record definition error.
pub open spec fn record_def_reason(e: RecordDefError) -> Seq<char> {
    match e {
        RecordDefError::Missing(d) => "record definition DefId("@ + crate::text::decimal(d as nat)
            + ") is missing"@,
        RecordDefError::NotARecord(_) => "record type does not reference a record definition"@,
    }
}

fn record_def_error(ty: TyId, e: RecordDefError) -> (r: CodegenError)
    ensures
        is_lowering_error(r, ty, record_def_reason(e)),
{
    match e {
        RecordDefError::Missing(d) => {
            let mut v: Vec<char> = Vec::new();
            crate::text::push_str(&mut v, "record definition DefId(");
            let digits = crate::text::decimal_u64(d as u64);
            crate::text::push_chars(&mut v, digits.as_slice());
            crate::text::push_str(&mut v, ") is missing");
            CodegenError::TypeLowering { ty, reason: crate::text::string_of(v.as_slice()) }
        },
        RecordDefError::NotARecord(_) => lowering_error(ty, "record type does not reference a record definition"),
    }
}

/// Every record field that occupies storage has a nonzero alignment, at
/// every depth of the type.
pub open spec fn abi_ty_wf(t: AbiTy) -> bool
    decreases t,
{
    match t.kind {
        AbiTyKind::Array { elem, .. } => abi_ty_wf(*elem),
        AbiTyKind::Record { fields, .. } => match fields {
            Ok(fs) => forall|i: int|
                0 <= i < fs@.len() ==> {
                    &&& (#[trigger] fs@[i]).storage_size != 0 ==> fs@[i].storage_align != 0
                    &&& abi_ty_wf(fs@[i].ty)
                },
            Err(_) => true,
        },
        AbiTyKind::Func { ret, params, .. } => abi_ty_wf(*ret) && forall|i: int|
            0 <= i < params@.len() ==> abi_ty_wf(#[trigger] params@[i]),
        _ => true,
    }
}

/// Error returned from codegen.
#[derive(Debug)]
pub enum CodegenError {
    /// The `llvm` feature is not enabled; rebuild with `--features llvm`.
    BackendDisabled,
    /// HIR type lowering failed for the given type id.
    TypeLowering {
        /// Original HIR type that failed to lower.
        ty: TyId,
        /// Human-readable reason.
        reason: String,
    },
    /// Internal error with a human-readable message.
    Internal(String),
}

/// A codegen error, as values.
pub enum ErrView {
    Lowering(TyId, Seq<char>),
    Internal(Seq<char>),
    Disabled,
}

/// The value of a codegen error.
pub open spec fn err_view(e: CodegenError) -> ErrView {
    match e {
        CodegenError::TypeLowering { ty, reason } => ErrView::Lowering(ty, reason@),
        CodegenError::Internal(m) => ErrView::Internal(m@),
        CodegenError::BackendDisabled => ErrView::Disabled,
    }
}

/// A failed classification: the type it failed on and the reason.
pub open spec fn is_lowering_error(e: CodegenError, ty: TyId, reason: Seq<char>) -> bool {
    match e {
        CodegenError::TypeLowering { ty: t, reason: r } => t == ty && r@ == reason,
        _ => false,
    }
}

/// `r` is what the model result `s` describes: the same value, or a type
/// lowering error with the same type and reason.
pub open spec fn result_is<T>(r: Result<T, CodegenError>, s: Result<T, (TyId, Seq<char>)>) -> bool {
    match s {
        Ok(v) => r == Ok::<T, CodegenError>(v),
        Err(e) => r is Err && is_lowering_error(r->Err_0, e.0, e.1),
    }
}

fn lowering_error(ty: TyId, reason: &str) -> (e: CodegenError)
    ensures
        is_lowering_error(e, ty, reason@),
{
    CodegenError::TypeLowering { ty, reason: reason.to_string() }
}

/// A scalar that lies within one eightbyte of an integer-class aggregate.
#[derive(Copy, Clone, Debug, PartialEq, Eq, Structural)]
pub struct IntPart {
    /// Offset inside the eightbyte.
    pub offset: u8,
    /// Width in bits.
    pub bits: u32,
}

/// A floating-point scalar inside an eightbyte of an SSE-class aggregate.
#[derive(Copy, Clone, Debug, PartialEq, Eq, Structural)]
pub struct FloatPart {
    /// Offset inside the eightbyte.
    pub offset: u8,
    pub kind: FloatKind,
}

/// The eightbytes of an aggregate being classified: one class per
/// eightbyte, and the integer and floating-point scalars recorded so far,
/// each tagged with the index of its eightbyte.
pub struct Eightbytes {
    pub classes: Vec<AbiClass>,
    pub ints: Vec<(usize, IntPart)>,
    pub floats: Vec<(usize, FloatPart)>,
}

/// The eightbytes as values.
pub struct EightbytesView {
    pub classes: Seq<AbiClass>,
    pub ints: Seq<(usize, IntPart)>,
    pub floats: Seq<(usize, FloatPart)>,
}

impl View for Eightbytes {
    type V = EightbytesView;

    open spec fn view(&self) -> EightbytesView {
        EightbytesView { classes: self.classes@, ints: self.ints@, floats: self.floats@ }
    }
}

/// Eightbytes per register-passed aggregate at most.
pub const MAX_AGGREGATE_EIGHTBYTES: u64 = 4;

/// Bytes in an eightbyte.
pub const EIGHTBYTE_SIZE: u64 = 8;

/// Byte size of a floating-point kind.
pub open spec fn float_size_spec(kind: FloatKind) -> u64 {
    match kind {
        FloatKind::F32 => 4,
        FloatKind::F64 => 8,
        FloatKind::F80 => 16,
    }
}

/// Byte size of a floating-point kind.
pub fn float_size(kind: FloatKind) -> (n: u64)
    ensures
        n == float_size_spec(kind),
{
    match kind {
        FloatKind::F32 => 4,
        FloatKind::F64 => 8,
        FloatKind::F80 => 16,
    }
}

/// Index of the eightbyte that holds byte `offset`.
pub fn chunk_index(offset: u64, ty: TyId) -> (r: Result<usize, CodegenError>)
    ensures
        result_is(
            r,
            if offset / 8 <= usize::MAX {
                Ok((offset / 8) as usize)
            } else {
                Err((ty, "ABI chunk index overflow"@))
            },
        ),
{
    let q = offset / EIGHTBYTE_SIZE;
    if q <= usize::MAX as u64 {
        Ok(q as usize)
    } else {
        Err(lowering_error(ty, "ABI chunk index overflow"))
    }
}

/// Number of eightbytes that a value of `size` bytes spans.
pub fn eightbyte_count(size: u64, ty: TyId) -> (r: Result<usize, CodegenError>)
    ensures
        result_is(
            r,
            if size + 7 <= u64::MAX && (size + 7) / 8 <= usize::MAX {
                Ok(((size + 7) / 8) as usize)
            } else {
                Err((ty, "ABI size overflow"@))
            },
        ),
{
    match size.checked_add(EIGHTBYTE_SIZE - 1) {
        None => Err(lowering_error(ty, "ABI size overflow")),
        Some(padded) => {
            let rounded = padded / EIGHTBYTE_SIZE;
            if rounded <= usize::MAX as u64 {
                Ok(rounded as usize)
            } else {
                Err(lowering_error(ty, "ABI size overflow"))
            }
        },
    }
}

/// Bytes of a `total_size`-byte value that fall into eightbyte `idx`.
pub fn eightbyte_payload_size(total_size: u64, idx: usize) -> (n: u64)
    requires
        idx * 8 <= total_size,
    ensures
        n == if total_size - idx * 8 < 8 { total_size - idx * 8 } else { 8 },
{
    let offset = (idx as u64) * EIGHTBYTE_SIZE;
    let rest = total_size - offset;
    if rest < EIGHTBYTE_SIZE {
        rest
    } else {
        EIGHTBYTE_SIZE
    }
}

/// Width in bits of an integer of `size` bytes.
pub fn bits_for_size(size: u64, ty: TyId) -> (r: Result<u32, CodegenError>)
    ensures
        result_is(
            r,
            if size * 8 <= u32::MAX {
                Ok((size * 8) as u32)
            } else {
                Err((ty, "ABI integer width overflow"@))
            },
        ),
{
    if size <= (u32::MAX as u64) / 8 {
        Ok((size * 8) as u32)
    } else {
        Err(lowering_error(ty, "ABI integer width overflow"))
    }
}

/// `cs` with `class` merged into every eightbyte from `lo` to `hi`.
pub open spec fn merge_classes(cs: Seq<AbiClass>, lo: int, hi: int, class: AbiClass) -> Seq<AbiClass> {
    Seq::new(cs.len(), |i: int| if lo <= i <= hi { merged_class(cs[i], class) } else { cs[i] })
}

/// Merges `class` into the eightbytes that bytes `offset..offset + size`
/// touch.
pub open spec fn merge_range_spec(
    m: EightbytesView,
    offset: int,
    size: int,
    class: AbiClass,
    ty: TyId,
) -> Result<EightbytesView, (TyId, Seq<char>)> {
    if size == 0 {
        Ok(m)
    } else if offset / 8 > usize::MAX {
        Err((ty, "ABI chunk index overflow"@))
    } else if offset + size - 1 > u64::MAX {
        Err((ty, "ABI range overflow"@))
    } else if (offset + size - 1) / 8 > usize::MAX {
        Err((ty, "ABI chunk index overflow"@))
    } else if (offset + size - 1) / 8 >= m.classes.len() {
        Err((ty, "ABI range escaped its aggregate"@))
    } else {
        Ok(
            EightbytesView {
                classes: merge_classes(m.classes, offset / 8, (offset + size - 1) / 8, class),
                ..m
            },
        )
    }
}

/// Every eightbyte set to `Memory`.
pub open spec fn all_memory(m: EightbytesView) -> EightbytesView {
    EightbytesView { classes: Seq::new(m.classes.len(), |i: int| AbiClass::Memory), ..m }
}

/// Records an integer scalar of `size` bytes at `offset` when it lies within
/// one eightbyte.
pub open spec fn int_part_spec(m: EightbytesView, offset: int, size: int, ty: TyId) -> Result<
    EightbytesView,
    (TyId, Seq<char>),
> {
    if size == 0 {
        Ok(m)
    } else if offset / 8 > usize::MAX || (offset + size - 1) / 8 > usize::MAX {
        Err((ty, "ABI chunk index overflow"@))
    } else if offset / 8 != (offset + size - 1) / 8 {
        Ok(m)
    } else if offset / 8 >= m.classes.len() {
        Err((ty, "ABI integer escaped its aggregate"@))
    } else if size * 8 > u32::MAX {
        Err((ty, "ABI integer width overflow"@))
    } else {
        Ok(
            EightbytesView {
                ints: m.ints.push(
                    ((offset / 8) as usize, IntPart { offset: (offset % 8) as u8, bits: (size * 8) as u32 }),
                ),
                ..m
            },
        )
    }
}

/// Classifies a floating-point scalar at `offset` as SSE and records it.
pub open spec fn float_part_spec(m: EightbytesView, offset: int, kind: FloatKind, ty: TyId) -> Result<
    EightbytesView,
    (TyId, Seq<char>),
> {
    match merge_range_spec(m, offset, float_size_spec(kind) as int, AbiClass::Sse, ty) {
        Err(e) => Err(e),
        Ok(m2) => if offset / 8 > usize::MAX {
            Err((ty, "ABI chunk index overflow"@))
        } else if offset / 8 >= m2.classes.len() {
            Err((ty, "ABI float escaped its aggregate"@))
        } else {
            Ok(
                EightbytesView {
                    floats: m2.floats.push(
                        ((offset / 8) as usize, FloatPart { offset: (offset % 8) as u8, kind }),
                    ),
                    ..m2
                },
            )
        },
    }
}

/// Merges `class` into every eightbyte that bytes `offset..offset + size`
/// touch.
fn merge_range(chunks: &mut Eightbytes, offset: u64, size: u64, class: AbiClass, ty: TyId) -> (r:
    Result<(), CodegenError>)
    ensures
        final(chunks).classes@.len() == old(chunks).classes@.len(),
        match merge_range_spec(old(chunks)@, offset as int, size as int, class, ty) {
            Ok(m) => r is Ok && final(chunks)@ == m,
            Err(e) => r is Err && is_lowering_error(r->Err_0, e.0, e.1),
        },
{
    if size == 0 {
        return Ok(());
    }
    let start = match chunk_index(offset, ty) {
        Ok(i) => i,
        Err(e) => return Err(e),
    };
    let last = match offset.checked_add(size - 1) {
        Some(l) => l,
        None => return Err(lowering_error(ty, "ABI range overflow")),
    };
    let end = match chunk_index(last, ty) {
        Ok(i) => i,
        Err(e) => return Err(e),
    };
    if end >= chunks.classes.len() {
        return Err(lowering_error(ty, "ABI range escaped its aggregate"));
    }
    let ghost before = chunks.classes@;
    let mut idx = start;
    while idx <= end
        invariant
            start <= idx <= end + 1,
            end < chunks.classes.len(),
            chunks.classes@.len() == before.len(),
            chunks.ints@ == old(chunks).ints@,
            chunks.floats@ == old(chunks).floats@,
            forall|i: int|
                0 <= i < before.len() ==> #[trigger] chunks.classes@[i] == if start <= i < idx {
                    merged_class(before[i], class)
                } else {
                    before[i]
                },
        decreases end + 1 - idx,
    {
        let merged = merge_class(chunks.classes[idx], class);
        chunks.classes.set(idx, merged);
        idx = idx + 1;
    }
    assert(chunks.classes@ =~= merge_classes(before, start as int, end as int, class));
    Ok(())
}

/// Sets every eightbyte to `Memory`.
fn mark_memory(chunks: &mut Eightbytes)
    ensures
        final(chunks)@ == all_memory(old(chunks)@),
{
    let mut idx: usize = 0;
    while idx < chunks.classes.len()
        invariant
            idx <= chunks.classes.len(),
            chunks.classes@.len() == old(chunks).classes@.len(),
            chunks.ints@ == old(chunks).ints@,
            chunks.floats@ == old(chunks).floats@,
            forall|i: int| 0 <= i < idx ==> #[trigger] chunks.classes@[i] == AbiClass::Memory,
        decreases chunks.classes.len() - idx,
    {
        chunks.classes.set(idx, AbiClass::Memory);
        idx = idx + 1;
    }
    assert(chunks.classes@ =~= all_memory(old(chunks)@).classes);
}

/// Records an integer scalar of `size` bytes at `offset` when it lies within
/// one eightbyte.
fn record_integer_part(offset: u64, size: u64, chunks: &mut Eightbytes, ty: TyId) -> (r: Result<
    (),
    CodegenError,
>)
    requires
        offset + size <= u64::MAX + 1,
    ensures
        final(chunks).classes@.len() == old(chunks).classes@.len(),
        match int_part_spec(old(chunks)@, offset as int, size as int, ty) {
            Ok(m) => r is Ok && final(chunks)@ == m,
            Err(e) => r is Err && is_lowering_error(r->Err_0, e.0, e.1),
        },
{
    if size == 0 {
        return Ok(());
    }
    let first = match chunk_index(offset, ty) {
        Ok(i) => i,
        Err(e) => return Err(e),
    };
    let last = match chunk_index(offset + (size - 1), ty) {
        Ok(i) => i,
        Err(e) => return Err(e),
    };
    if first != last {
        return Ok(());
    }
    if first >= chunks.classes.len() {
        return Err(lowering_error(ty, "ABI integer escaped its aggregate"));
    }
    let bits = match bits_for_size(size, ty) {
        Ok(b) => b,
        Err(e) => return Err(e),
    };
    chunks.ints.push((first, IntPart { offset: (offset % EIGHTBYTE_SIZE) as u8, bits }));
    Ok(())
}

/// Classifies a floating-point scalar at `offset` as SSE and records it.
fn classify_float(offset: u64, kind: FloatKind, chunks: &mut Eightbytes, ty: TyId) -> (r: Result<
    (),
    CodegenError,
>)
    ensures
        final(chunks).classes@.len() == old(chunks).classes@.len(),
        match float_part_spec(old(chunks)@, offset as int, kind, ty) {
            Ok(m) => r is Ok && final(chunks)@ == m,
            Err(e) => r is Err && is_lowering_error(r->Err_0, e.0, e.1),
        },
{
    let size = float_size(kind);
    match merge_range(chunks, offset, size, AbiClass::Sse, ty) {
        Ok(()) => {},
        Err(e) => return Err(e),
    }
    let idx = match chunk_index(offset, ty) {
        Ok(i) => i,
        Err(e) => return Err(e),
    };
    if idx >= chunks.classes.len() {
        return Err(lowering_error(ty, "ABI float escaped its aggregate"));
    }
    chunks.floats.push((idx, FloatPart { offset: (offset % EIGHTBYTE_SIZE) as u8, kind }));
    Ok(())
}

/// Number of elements of an array type (zero for other types).
pub open spec fn array_len(t: AbiTy) -> int {
    match t.kind {
        AbiTyKind::Array { len: Some(n), .. } => n as int,
        _ => 0,
    }
}

/// Number of fields of a record type (zero for other types).
pub open spec fn field_count(t: AbiTy) -> int {
    match t.kind {
        AbiTyKind::Record { fields: Ok(fs), .. } => fs@.len() as int,
        _ => 0,
    }
}

/// Classifies a type placed at byte `offset` of an aggregate into the
/// eightbytes `m`.
pub open spec fn classify_spec(t: AbiTy, offset: int, m: EightbytesView) -> Result<
    EightbytesView,
    (TyId, Seq<char>),
>
    decreases t, 1int, 0int,
{
    match t.kind {
        AbiTyKind::Int { .. } => match t.layout {
            Err(e) => Err((t.id, e@)),
            Ok(l) => match merge_range_spec(m, offset, l.size as int, AbiClass::Integer, t.id) {
                Err(e) => Err(e),
                Ok(m2) => int_part_spec(m2, offset, l.size as int, t.id),
            },
        },
        AbiTyKind::Float(FloatKind::F80) => match merge_range_spec(
            m,
            offset,
            8,
            AbiClass::X87,
            t.id,
        ) {
            Err(e) => Err(e),
            Ok(m2) => merge_range_spec(m2, offset + 8, 8, AbiClass::X87Up, t.id),
        },
        AbiTyKind::Float(k) => float_part_spec(m, offset, k, t.id),
        AbiTyKind::Complex(FloatKind::F80) => merge_range_spec(
            m,
            offset,
            32,
            AbiClass::ComplexX87,
            t.id,
        ),
        AbiTyKind::Complex(k) => match float_part_spec(m, offset, k, t.id) {
            Err(e) => Err(e),
            Ok(m2) => float_part_spec(m2, offset + float_size_spec(k), k, t.id),
        },
        AbiTyKind::Array { len, .. } => match t.layout {
            Err(e) => Err((t.id, e@)),
            Ok(_) => match len {
                None => Err((t.id, "incomplete arrays cannot be ABI-classified"@)),
                Some(_) => classify_elems_spec(t, offset, 0, m),
            },
        },
        AbiTyKind::Record { fields, .. } => match t.layout {
            Err(e) => Err((t.id, e@)),
            Ok(_) => match fields {
                Err(e) => Err((t.id, record_def_reason(e))),
                Ok(_) => classify_fields_spec(t, offset, 0, m),
            },
        },
        _ => Err((t.id, "type cannot appear inside an ABI aggregate"@)),
    }
}

/// Classifies elements `i..` of array type `t` placed at byte `base`.
pub open spec fn classify_elems_spec(t: AbiTy, base: int, i: int, m: EightbytesView) -> Result<
    EightbytesView,
    (TyId, Seq<char>),
>
    decreases t, 0int, array_len(t) - i,
{
    match t.kind {
        AbiTyKind::Array { elem, elem_size, len: Some(n) } => if i >= n {
            Ok(m)
        } else if i * elem_size > u64::MAX || base + i * elem_size > u64::MAX {
            Err((t.id, "array ABI offset overflow"@))
        } else {
            match classify_spec(*elem, base + i * elem_size, m) {
                Err(e) => Err(e),
                Ok(m2) => classify_elems_spec(t, base, i + 1, m2),
            }
        },
        _ => Ok(m),
    }
}

/// Classifies fields `i..` of record type `t` placed at byte `base`. A field
/// whose offset breaks its own alignment sends the whole aggregate to
/// memory.
pub open spec fn classify_fields_spec(t: AbiTy, base: int, i: int, m: EightbytesView) -> Result<
    EightbytesView,
    (TyId, Seq<char>),
>
    decreases t, 0int, field_count(t) - i,
{
    match t.kind {
        AbiTyKind::Record { fields: Ok(fs), .. } => if i < 0 || i >= fs@.len() {
            Ok(m)
        } else if fs@[i].storage_size == 0 {
            classify_fields_spec(t, base, i + 1, m)
        } else if base + fs@[i].offset > u64::MAX {
            Err((t.id, "record field ABI offset overflow"@))
        } else if fs@[i].storage_align != 0 && (base + fs@[i].offset) % (fs@[i].storage_align as int)
            != 0 {
            Ok(all_memory(m))
        } else {
            match classify_spec(fs@[i].ty, base + fs@[i].offset, m) {
                Err(e) => Err(e),
                Ok(m2) => classify_fields_spec(t, base, i + 1, m2),
            }
        },
        _ => Ok(m),
    }
}

/// Classifies `t`, placed at byte `offset` of the aggregate, into `chunks`.
fn classify_ty_into(t: &AbiTy, offset: u64, chunks: &mut Eightbytes) -> (r: Result<(), CodegenError>)
    requires
        abi_ty_wf(*t),
        old(chunks).classes@.len() <= MAX_AGGREGATE_EIGHTBYTES,
    ensures
        final(chunks).classes@.len() == old(chunks).classes@.len(),
        match classify_spec(*t, offset as int, old(chunks)@) {
            Ok(m) => r is Ok && final(chunks)@ == m,
            Err(e) => r is Err && is_lowering_error(r->Err_0, e.0, e.1),
        },
    decreases *t,
{
    match &t.kind {
        AbiTyKind::Int { .. } => match &t.layout {
            Err(e) => Err(CodegenError::TypeLowering { ty: t.id, reason: e.clone() }),
            Ok(l) => {
                match merge_range(chunks, offset, l.size, AbiClass::Integer, t.id) {
                    Ok(()) => {},
                    Err(e) => return Err(e),
                }
                record_integer_part(offset, l.size, chunks, t.id)
            },
        },
        AbiTyKind::Float(FloatKind::F80) => {
            match merge_range(chunks, offset, 8, AbiClass::X87, t.id) {
                Ok(()) => {},
                Err(e) => return Err(e),
            }
            merge_range(chunks, offset + 8, 8, AbiClass::X87Up, t.id)
        },
        AbiTyKind::Float(k) => classify_float(offset, *k, chunks, t.id),
        AbiTyKind::Complex(FloatKind::F80) => merge_range(
            chunks,
            offset,
            32,
            AbiClass::ComplexX87,
            t.id,
        ),
        AbiTyKind::Complex(k) => {
            match classify_float(offset, *k, chunks, t.id) {
                Ok(()) => {},
                Err(e) => return Err(e),
            }
            classify_float(offset + float_size(*k), *k, chunks, t.id)
        },
        AbiTyKind::Array { elem, elem_size, len } => match &t.layout {
            Err(e) => Err(CodegenError::TypeLowering { ty: t.id, reason: e.clone() }),
            Ok(_) => match len {
                None => Err(lowering_error(t.id, "incomplete arrays cannot be ABI-classified")),
                Some(n) => classify_array(t, elem, *elem_size, *n, offset, chunks),
            },
        },
        AbiTyKind::Record { fields, .. } => match &t.layout {
            Err(e) => Err(CodegenError::TypeLowering { ty: t.id, reason: e.clone() }),
            Ok(_) => match fields {
                Err(e) => Err(record_def_error(t.id, *e)),
                Ok(fs) => classify_record(t, fs, offset, chunks),
            },
        },
        _ => Err(lowering_error(t.id, "type cannot appear inside an ABI aggregate")),
    }
}

/// Classifies every element of array type `t`, placed at byte `offset`.
fn classify_array(
    t: &AbiTy,
    elem: &AbiTy,
    elem_size: u64,
    len: u64,
    offset: u64,
    chunks: &mut Eightbytes,
) -> (r: Result<(), CodegenError>)
    requires
        abi_ty_wf(*t),
        t.kind matches AbiTyKind::Array { elem: e, elem_size: s, len: Some(n) } && *e == *elem
            && s == elem_size && n == len,
        old(chunks).classes@.len() <= MAX_AGGREGATE_EIGHTBYTES,
    ensures
        final(chunks).classes@.len() == old(chunks).classes@.len(),
        match classify_elems_spec(*t, offset as int, 0, old(chunks)@) {
            Ok(m) => r is Ok && final(chunks)@ == m,
            Err(e) => r is Err && is_lowering_error(r->Err_0, e.0, e.1),
        },
    decreases *t, 0int,
{
    let ghost total = classify_elems_spec(*t, offset as int, 0, chunks@);
    let mut idx: u64 = 0;
    while idx < len
        invariant
            idx <= len,
            abi_ty_wf(*elem),
            t.kind matches AbiTyKind::Array { elem: e, elem_size: s, len: Some(n) } && *e == *elem
                && s == elem_size && n == len,
            chunks.classes@.len() == old(chunks).classes@.len(),
            old(chunks).classes@.len() <= MAX_AGGREGATE_EIGHTBYTES,
            total == classify_elems_spec(*t, offset as int, 0, old(chunks)@),
            total == classify_elems_spec(*t, offset as int, idx as int, chunks@),
        decreases len - idx,
    {
        let elem_offset = match idx.checked_mul(elem_size) {
            Some(step) => match offset.checked_add(step) {
                Some(o) => o,
                None => return Err(lowering_error(t.id, "array ABI offset overflow")),
            },
            None => return Err(lowering_error(t.id, "array ABI offset overflow")),
        };
        match classify_ty_into(elem, elem_offset, chunks) {
            Ok(()) => {},
            Err(e) => return Err(e),
        }
        idx = idx + 1;
    }
    Ok(())
}

/// Classifies every field of record type `t`, placed at byte `offset`.
fn classify_record(t: &AbiTy, fields: &Vec<AbiField>, offset: u64, chunks: &mut Eightbytes) -> (r:
    Result<(), CodegenError>)
    requires
        abi_ty_wf(*t),
        t.kind matches AbiTyKind::Record { fields: Ok(fs), .. } && fs@ == fields@,
        old(chunks).classes@.len() <= MAX_AGGREGATE_EIGHTBYTES,
    ensures
        final(chunks).classes@.len() == old(chunks).classes@.len(),
        match classify_fields_spec(*t, offset as int, 0, old(chunks)@) {
            Ok(m) => r is Ok && final(chunks)@ == m,
            Err(e) => r is Err && is_lowering_error(r->Err_0, e.0, e.1),
        },
    decreases *t, 0int,
{
    let ghost total = classify_fields_spec(*t, offset as int, 0, chunks@);
    let mut idx: usize = 0;
    while idx < fields.len()
        invariant
            idx <= fields@.len(),
            abi_ty_wf(*t),
            t.kind matches AbiTyKind::Record { fields: Ok(fs), .. } && fs@ == fields@,
            chunks.classes@.len() == old(chunks).classes@.len(),
            old(chunks).classes@.len() <= MAX_AGGREGATE_EIGHTBYTES,
            total == classify_fields_spec(*t, offset as int, 0, old(chunks)@),
            total == classify_fields_spec(*t, offset as int, idx as int, chunks@),
        decreases fields@.len() - idx,
    {
        let field = &fields[idx];
        if field.storage_size != 0 {
            let field_offset = match offset.checked_add(field.offset) {
                Some(o) => o,
                None => return Err(lowering_error(t.id, "record field ABI offset overflow")),
            };
            if field_offset % (field.storage_align as u64) != 0 {
                mark_memory(chunks);
                return Ok(());
            }
            match classify_ty_into(&field.ty, field_offset, chunks) {
                Ok(()) => {},
                Err(e) => return Err(e),
            }
        }
        idx = idx + 1;
    }
    Ok(())
}

/// The classes after the post-merge cleanup: an `SseUp` eightbyte that does
/// not follow an SSE eightbyte becomes `Sse`.
pub open spec fn cleaned(cs: Seq<AbiClass>) -> Seq<AbiClass> {
    Seq::new(
        cs.len(),
        |i: int|
            if cs[i] == AbiClass::SseUp && (i == 0 || !(cs[i - 1] == AbiClass::Sse || cs[i - 1]
                == AbiClass::SseUp)) {
                AbiClass::Sse
            } else {
                cs[i]
            },
    )
}

/// Applies the post-merge cleanup to the eightbyte classes.
fn post_cleanup(classes: &mut Vec<AbiClass>)
    ensures
        final(classes)@ == cleaned(old(classes)@),
{
    let ghost before = classes@;
    let mut idx: usize = 0;
    while idx < classes.len()
        invariant
            idx <= classes@.len(),
            classes@.len() == before.len(),
            forall|i: int| 0 <= i < idx ==> #[trigger] classes@[i] == cleaned(before)[i],
            forall|i: int| idx <= i < before.len() ==> #[trigger] classes@[i] == before[i],
        decreases classes.len() - idx,
    {
        if classes[idx] == AbiClass::SseUp && (idx == 0 || !(classes[idx - 1] == AbiClass::Sse
            || classes[idx - 1] == AbiClass::SseUp)) {
            classes.set(idx, AbiClass::Sse);
        }
        idx = idx + 1;
    }
    assert(classes@ =~= cleaned(before));
}

/// An aggregate of more than two eightbytes is passed in registers only as
/// one SSE eightbyte followed by `SseUp` eightbytes.
pub open spec fn needs_memory(cs: Seq<AbiClass>) -> bool {
    cs.len() > 2 && (cs[0] != AbiClass::Sse || exists|i: int|
        1 <= i < cs.len() && #[trigger] cs[i] != AbiClass::SseUp)
}

/// Whether the cleaned-up classes force the aggregate into memory.
fn needs_memory_after_cleanup(classes: &Vec<AbiClass>) -> (b: bool)
    ensures
        b == needs_memory(classes@),
{
    if classes.len() <= 2 {
        return false;
    }
    if classes[0] != AbiClass::Sse {
        return true;
    }
    let mut idx: usize = 1;
    while idx < classes.len()
        invariant
            1 <= idx <= classes@.len(),
            classes@.len() > 2,
            classes@[0] == AbiClass::Sse,
            forall|i: int| 1 <= i < idx ==> #[trigger] classes@[i] == AbiClass::SseUp,
        decreases classes.len() - idx,
    {
        if classes[idx] != AbiClass::SseUp {
            return true;
        }
        idx = idx + 1;
    }
    false
}

/// Whether any eightbyte is classified `Memory`.
pub open spec fn has_memory(cs: Seq<AbiClass>) -> bool {
    exists|i: int| 0 <= i < cs.len() && #[trigger] cs[i] == AbiClass::Memory
}

fn any_memory(classes: &Vec<AbiClass>) -> (b: bool)
    ensures
        b == has_memory(classes@),
{
    let mut idx: usize = 0;
    while idx < classes.len()
        invariant
            idx <= classes@.len(),
            forall|i: int| 0 <= i < idx ==> #[trigger] classes@[i] != AbiClass::Memory,
        decreases classes.len() - idx,
    {
        if classes[idx] == AbiClass::Memory {
            return true;
        }
        idx = idx + 1;
    }
    false
}

/// The integer scalars recorded for eightbyte `idx`, in recording order.
pub open spec fn int_parts_in(parts: Seq<(usize, IntPart)>, idx: usize) -> Seq<IntPart>
    decreases parts.len(),
{
    if parts.len() == 0 {
        Seq::empty()
    } else if parts.last().0 == idx {
        int_parts_in(parts.drop_last(), idx).push(parts.last().1)
    } else {
        int_parts_in(parts.drop_last(), idx)
    }
}

/// The floating-point scalars recorded for eightbyte `idx`, in recording
/// order.
pub open spec fn float_parts_in(parts: Seq<(usize, FloatPart)>, idx: usize) -> Seq<FloatPart>
    decreases parts.len(),
{
    if parts.len() == 0 {
        Seq::empty()
    } else if parts.last().0 == idx {
        float_parts_in(parts.drop_last(), idx).push(parts.last().1)
    } else {
        float_parts_in(parts.drop_last(), idx)
    }
}

fn collect_int_parts(parts: &Vec<(usize, IntPart)>, idx: usize) -> (r: Vec<IntPart>)
    ensures
        r@ == int_parts_in(parts@, idx),
{
    let mut out: Vec<IntPart> = Vec::new();
    let mut i: usize = 0;
    while i < parts.len()
        invariant
            i <= parts@.len(),
            out@ == int_parts_in(parts@.take(i as int), idx),
        decreases parts.len() - i,
    {
        assert(parts@.take(i + 1).drop_last() =~= parts@.take(i as int));
        let (at, part) = parts[i];
        if at == idx {
            out.push(part);
        }
        i = i + 1;
    }
    assert(parts@.take(parts@.len() as int) =~= parts@);
    out
}

fn collect_float_parts(parts: &Vec<(usize, FloatPart)>, idx: usize) -> (r: Vec<FloatPart>)
    ensures
        r@ == float_parts_in(parts@, idx),
{
    let mut out: Vec<FloatPart> = Vec::new();
    let mut i: usize = 0;
    while i < parts.len()
        invariant
            i <= parts@.len(),
            out@ == float_parts_in(parts@.take(i as int), idx),
        decreases parts.len() - i,
    {
        assert(parts@.take(i + 1).drop_last() =~= parts@.take(i as int));
        let (at, part) = parts[i];
        if at == idx {
            out.push(part);
        }
        i = i + 1;
    }
    assert(parts@.take(parts@.len() as int) =~= parts@);
    out
}

/// LLVM type shape for a direct ABI parameter unit.
#[derive(Copy, Clone, Debug, PartialEq, Eq, Structural)]
pub enum AbiParamUnitKind {
    /// Use the source type's natural LLVM lowering.
    Source(TyId),
    /// Coerce an aggregate eightbyte to an integer of this bit width.
    Integer {
        /// Integer bit width.
        bits: u32,
    },
    /// Coerce an aggregate eightbyte to a floating-point scalar.
    Float(FloatKind),
    /// Coerce an aggregate eightbyte to a fixed-width vector.
    Vector {
        /// Element floating-point kind.
        elem: FloatKind,
        /// Number of vector lanes.
        lanes: u32,
    },
}

/// One LLVM IR parameter produced by direct ABI lowering.
#[derive(Copy, Clone, Debug, PartialEq, Eq, Structural)]
pub struct AbiParamUnit {
    /// SysV ABI class for this unit.
    pub class: AbiClass,
    /// LLVM type shape for this unit.
    pub kind: AbiParamUnitKind,
}

/// Shape of an SSE eightbyte: two `float`s make a two-lane vector, one
/// scalar at its start keeps its own kind, anything else is a `double`.
pub open spec fn sse_unit_kind_spec(fs: Seq<FloatPart>) -> AbiParamUnitKind {
    let lo = FloatPart { offset: 0, kind: FloatKind::F32 };
    let hi = FloatPart { offset: 4, kind: FloatKind::F32 };
    if fs.len() == 2 && ((fs[0] == lo && fs[1] == hi) || (fs[0] == hi && fs[1] == lo)) {
        AbiParamUnitKind::Vector { elem: FloatKind::F32, lanes: 2 }
    } else if fs.len() == 1 && fs[0].offset == 0 {
        AbiParamUnitKind::Float(fs[0].kind)
    } else {
        AbiParamUnitKind::Float(FloatKind::F64)
    }
}

fn sse_unit_kind(floats: &Vec<FloatPart>) -> (k: AbiParamUnitKind)
    ensures
        k == sse_unit_kind_spec(floats@),
{
    let lo = FloatPart { offset: 0, kind: FloatKind::F32 };
    let hi = FloatPart { offset: 4, kind: FloatKind::F32 };
    if floats.len() == 2 && ((floats[0] == lo && floats[1] == hi) || (floats[0] == hi && floats[1]
        == lo)) {
        AbiParamUnitKind::Vector { elem: FloatKind::F32, lanes: 2 }
    } else if floats.len() == 1 && floats[0].offset == 0 {
        AbiParamUnitKind::Float(floats[0].kind)
    } else {
        AbiParamUnitKind::Float(FloatKind::F64)
    }
}

/// Shape of one register eightbyte of class `class` holding `size` bytes of
/// payload, from the scalars recorded for it.
pub open spec fn unit_kind_spec(
    class: AbiClass,
    ints: Seq<IntPart>,
    floats: Seq<FloatPart>,
    size: u64,
    ty: TyId,
) -> Result<AbiParamUnitKind, (TyId, Seq<char>)> {
    match class {
        AbiClass::Integer => if ints.len() == 1 && ints[0].offset == 0 {
            Ok(AbiParamUnitKind::Integer { bits: ints[0].bits })
        } else if size * 8 <= u32::MAX {
            Ok(AbiParamUnitKind::Integer { bits: (size * 8) as u32 })
        } else {
            Err((ty, "ABI integer width overflow"@))
        },
        AbiClass::Sse | AbiClass::SseUp => Ok(sse_unit_kind_spec(floats)),
        _ => Err((ty, "unsupported direct ABI class"@)),
    }
}

/// How an SSE eightbyte is passed follows the floating-point scalars in
/// it: one scalar at its start travels as a scalar of its own kind (a lone
/// `float` as `float`, never widened), two `float`s filling its halves as
/// a two-lane `float` vector, and any other mix as one `double`. A `float`
/// scalar or vector is chosen only for those two layouts.
pub proof fn lemma_sse_unit_follows_its_floats(
    class: AbiClass,
    ints: Seq<IntPart>,
    fs: Seq<FloatPart>,
    size: u64,
    ty: TyId,
)
    requires
        class is Sse || class is SseUp,
    ensures
        (fs.len() == 1 && fs[0].offset == 0) ==> unit_kind_spec(class, ints, fs, size, ty) == Ok::<
            AbiParamUnitKind,
            (TyId, Seq<char>),
        >(AbiParamUnitKind::Float(fs[0].kind)),
        (fs.len() == 2 && fs[0].kind == FloatKind::F32 && fs[1].kind == FloatKind::F32 && fs[0].offset + fs[1].offset
            == 4 && (fs[0].offset == 0 || fs[1].offset == 0)) ==> unit_kind_spec(class, ints, fs, size, ty) == Ok::<
            AbiParamUnitKind,
            (TyId, Seq<char>),
        >(AbiParamUnitKind::Vector { elem: FloatKind::F32, lanes: 2 }),
        unit_kind_spec(class, ints, fs, size, ty) == Ok::<AbiParamUnitKind, (TyId, Seq<char>)>(
            AbiParamUnitKind::Float(FloatKind::F32),
        ) ==> fs.len() == 1 && fs[0] == (FloatPart { offset: 0, kind: FloatKind::F32 }),
        (unit_kind_spec(class, ints, fs, size, ty) is Ok && unit_kind_spec(class, ints, fs, size, ty)->Ok_0 is Vector)
            ==> fs.len() == 2 && unit_kind_spec(class, ints, fs, size, ty)->Ok_0 == (AbiParamUnitKind::Vector {
            elem: FloatKind::F32,
            lanes: 2,
        }),
        (unit_kind_spec(class, ints, fs, size, ty) is Ok) && !(unit_kind_spec(class, ints, fs, size, ty)->Ok_0 is Integer)
            && !(unit_kind_spec(class, ints, fs, size, ty)->Ok_0 is Source),
{
}

fn unit_kind(
    class: AbiClass,
    ints: &Vec<IntPart>,
    floats: &Vec<FloatPart>,
    size: u64,
    ty: TyId,
) -> (r: Result<AbiParamUnitKind, CodegenError>)
    ensures
        result_is(r, unit_kind_spec(class, ints@, floats@, size, ty)),
{
    match class {
        AbiClass::Integer => {
            if ints.len() == 1 && ints[0].offset == 0 {
                Ok(AbiParamUnitKind::Integer { bits: ints[0].bits })
            } else {
                match bits_for_size(size, ty) {
                    Ok(bits) => Ok(AbiParamUnitKind::Integer { bits }),
                    Err(e) => Err(e),
                }
            }
        },
        AbiClass::Sse | AbiClass::SseUp => Ok(sse_unit_kind(floats)),
        _ => Err(lowering_error(ty, "unsupported direct ABI class")),
    }
}

/// ABI-passing strategy for one C function parameter.
#[derive(Clone, Debug, PartialEq, Eq)]
pub enum AbiParamKind {
    /// Pass directly as one or more LLVM scalar/vector parameters.
    Direct(Vec<AbiParamUnit>),
    /// Pass indirectly through a pointer to caller-owned storage.
    Indirect {
        /// Whether LLVM should treat the pointer as a by-value aggregate.
        byval: bool,
        /// Required alignment of the pointed-to storage in bytes.
        align: u32,
        /// Size of the original object in bytes.
        size: u64,
    },
}

/// How a parameter is passed, as values.
pub enum PassingView {
    Direct(Seq<AbiParamUnit>),
    Indirect { byval: bool, align: u32, size: u64 },
}

impl View for AbiParamKind {
    type V = PassingView;

    open spec fn view(&self) -> PassingView {
        match self {
            AbiParamKind::Direct(units) => PassingView::Direct(units@),
            AbiParamKind::Indirect { byval, align, size } => PassingView::Indirect {
                byval: *byval,
                align: *align,
                size: *size,
            },
        }
    }
}

/// ABI lowering for one C function parameter.
#[derive(Clone, Debug, PartialEq, Eq)]
pub struct AbiParam {
    /// Original type being lowered.
    pub source: TyId,
    /// ABI-passing strategy.
    pub kind: AbiParamKind,
    /// Final eightbyte classes after SysV cleanup.
    pub classes: Vec<AbiClass>,
}

/// A parameter's lowering, as values.
pub struct AbiParamView {
    pub source: TyId,
    pub kind: PassingView,
    pub classes: Seq<AbiClass>,
}

impl View for AbiParam {
    type V = AbiParamView;

    open spec fn view(&self) -> AbiParamView {
        AbiParamView { source: self.source, kind: self.kind@, classes: self.classes@ }
    }
}

/// Number of LLVM IR parameters that a parameter lowered as `p` takes.
pub open spec fn param_llvm_count(p: AbiParamView) -> nat {
    match p.kind {
        PassingView::Direct(units) => units.len(),
        PassingView::Indirect { .. } => 1,
    }
}

impl AbiParam {
    /// Number of LLVM IR parameters emitted for this one C parameter.
    pub fn llvm_param_count(&self) -> (n: usize)
        ensures
            n == param_llvm_count(self@),
    {
        match &self.kind {
            AbiParamKind::Direct(units) => units.len(),
            AbiParamKind::Indirect { .. } => 1,
        }
    }
}

/// `r` is what the model result `s` describes: a value whose view is the
/// model's value, or a type lowering error with the same type and reason.
pub open spec fn result_view_is<T: View>(r: Result<T, CodegenError>, s: Result<T::V, (TyId, Seq<char>)>) -> bool {
    match s {
        Ok(v) => r is Ok && r->Ok_0@ == v,
        Err(e) => r is Err && is_lowering_error(r->Err_0, e.0, e.1),
    }
}

/// A parameter passed by value through memory.
pub open spec fn indirect_view(ty: TyId, l: Layout) -> AbiParamView {
    AbiParamView {
        source: ty,
        kind: PassingView::Indirect { byval: true, align: l.align, size: l.size },
        classes: seq![AbiClass::Memory],
    }
}

fn indirect_param(ty: TyId, l: Layout) -> (p: AbiParam)
    ensures
        p@ == indirect_view(ty, l),
{
    let mut classes: Vec<AbiClass> = Vec::new();
    classes.push(AbiClass::Memory);
    assert(classes@ =~= seq![AbiClass::Memory]);
    AbiParam {
        source: ty,
        kind: AbiParamKind::Indirect { byval: true, align: l.align, size: l.size },
        classes,
    }
}

/// Payload bytes of eightbyte `i` of a `size`-byte value.
pub open spec fn payload_size(size: u64, i: int) -> u64 {
    if size - i * 8 < 8 {
        (size - i * 8) as u64
    } else {
        8
    }
}

/// The register units of the eightbytes from `i` on: one per eightbyte
/// that holds anything, in order.
pub open spec fn units_spec(cs: Seq<AbiClass>, m: EightbytesView, size: u64, ty: TyId, i: int) -> Result<
    Seq<AbiParamUnit>,
    (TyId, Seq<char>),
>
    decreases cs.len() - i,
{
    if i < 0 || i >= cs.len() {
        Ok(Seq::empty())
    } else if cs[i] == AbiClass::NoClass {
        units_spec(cs, m, size, ty, i + 1)
    } else {
        match unit_kind_spec(
            cs[i],
            int_parts_in(m.ints, i as usize),
            float_parts_in(m.floats, i as usize),
            payload_size(size, i),
            ty,
        ) {
            Err(e) => Err(e),
            Ok(k) => match units_spec(cs, m, size, ty, i + 1) {
                Err(e) => Err(e),
                Ok(rest) => Ok(seq![AbiParamUnit { class: cs[i], kind: k }] + rest),
            },
        }
    }
}

/// The classes of a sequence of units.
pub open spec fn unit_classes(units: Seq<AbiParamUnit>) -> Seq<AbiClass> {
    units.map_values(|u: AbiParamUnit| u.class)
}

/// `n` unclassified eightbytes with nothing recorded.
pub open spec fn fresh_chunks(n: nat) -> EightbytesView {
    EightbytesView {
        classes: Seq::new(n, |i: int| AbiClass::NoClass),
        ints: Seq::empty(),
        floats: Seq::empty(),
    }
}

/// Lowering of an aggregate (complex, array or record) parameter.
pub open spec fn aggregate_param_spec(t: AbiTy) -> Result<AbiParamView, (TyId, Seq<char>)> {
    match t.layout {
        Err(e) => Err((t.id, e@)),
        Ok(l) => if !(l.size + 7 <= u64::MAX && (l.size + 7) / 8 <= usize::MAX) {
            Err((t.id, "ABI size overflow"@))
        } else if (l.size + 7) / 8 > 4 {
            Ok(indirect_view(t.id, l))
        } else {
            match classify_spec(t, 0, fresh_chunks(((l.size + 7) / 8) as nat)) {
                Err(e) => Err(e),
                Ok(m) => {
                    let cs = cleaned(m.classes);
                    if has_memory(cs) || needs_memory(cs) {
                        Ok(indirect_view(t.id, l))
                    } else {
                        match units_spec(cs, m, l.size, t.id, 0) {
                            Err(e) => Err(e),
                            Ok(units) => Ok(
                                AbiParamView {
                                    source: t.id,
                                    kind: PassingView::Direct(units),
                                    classes: unit_classes(units),
                                },
                            ),
                        }
                    }
                },
            }
        },
    }
}

proof fn lemma_payload_in_range(size: u64, idx: int)
    requires
        0 <= idx,
        size + 7 <= u64::MAX,
        idx < (size + 7) / 8,
    ensures
        idx * 8 <= size,
        idx * 8 < size,
{
    assert(idx * 8 < size) by (nonlinear_arith)
        requires
            0 <= idx,
            idx < (size + 7) / 8,
    ;
}

/// Splits an aggregate into register units, or sends it to memory.
fn aggregate_param(t: &AbiTy) -> (r: Result<AbiParam, CodegenError>)
    requires
        abi_ty_wf(*t),
    ensures
        result_view_is(r, aggregate_param_spec(*t)),
{
    let l = match &t.layout {
        Err(e) => return Err(CodegenError::TypeLowering { ty: t.id, reason: e.clone() }),
        Ok(l) => *l,
    };
    let n = match eightbyte_count(l.size, t.id) {
        Ok(n) => n,
        Err(e) => return Err(e),
    };
    if n > 4 {
        return Ok(indirect_param(t.id, l));
    }
    let mut chunks = Eightbytes { classes: Vec::new(), ints: Vec::new(), floats: Vec::new() };
    let mut k: usize = 0;
    while k < n
        invariant
            k <= n,
            chunks.classes@ =~= Seq::new(k as nat, |i: int| AbiClass::NoClass),
            chunks.ints@ == Seq::<(usize, IntPart)>::empty(),
            chunks.floats@ == Seq::<(usize, FloatPart)>::empty(),
        decreases n - k,
    {
        chunks.classes.push(AbiClass::NoClass);
        k = k + 1;
    }
    assert(chunks@ == fresh_chunks(n as nat));
    match classify_ty_into(t, 0, &mut chunks) {
        Ok(()) => {},
        Err(e) => return Err(e),
    }
    let ghost m = chunks@;
    post_cleanup(&mut chunks.classes);
    if any_memory(&chunks.classes) || needs_memory_after_cleanup(&chunks.classes) {
        return Ok(indirect_param(t.id, l));
    }
    let ghost cs = chunks.classes@;
    let mut units: Vec<AbiParamUnit> = Vec::new();
    let mut classes: Vec<AbiClass> = Vec::new();
    let mut idx: usize = 0;
    while idx < chunks.classes.len()
        invariant
            idx <= cs.len(),
            cs.len() == n,
            n <= 4,
            l.size + 7 <= u64::MAX,
            n == (l.size + 7) / 8,
            chunks.classes@ == cs,
            t.layout == Ok::<Layout, String>(l),
            classify_spec(*t, 0, fresh_chunks(n as nat)) == Ok::<EightbytesView, (TyId, Seq<char>)>(m),
            cs == cleaned(m.classes),
            !has_memory(cs),
            !needs_memory(cs),
            chunks.ints@ == m.ints,
            chunks.floats@ == m.floats,
            classes@ == unit_classes(units@),
            units_spec(cs, m, l.size, t.id, 0) == match units_spec(cs, m, l.size, t.id, idx as int) {
                Ok(rest) => Ok(units@ + rest),
                Err(e) => Err(e),
            },
        decreases cs.len() - idx,
    {
        let class = chunks.classes[idx];
        if class != AbiClass::NoClass {
            proof {
                lemma_payload_in_range(l.size, idx as int);
            }
            let size = eightbyte_payload_size(l.size, idx);
            let ints = collect_int_parts(&chunks.ints, idx);
            let floats = collect_float_parts(&chunks.floats, idx);
            let kind = match unit_kind(class, &ints, &floats, size, t.id) {
                Ok(k) => k,
                Err(e) => return Err(e),
            };
            let unit = AbiParamUnit { class, kind };
            proof {
                assert forall|rest: Seq<AbiParamUnit>|
                    units@ + (seq![unit] + rest) =~= #[trigger] (units@.push(unit) + rest) by {}
            }
            units.push(unit);
            classes.push(class);
            assert(unit_classes(units@) =~= classes@);
        }
        idx = idx + 1;
    }
    assert(units@ + Seq::<AbiParamUnit>::empty() =~= units@);
    Ok(AbiParam { source: t.id, kind: AbiParamKind::Direct(units), classes })
}

/// Classes of a scalar: `long double` takes an x87 pair, other floating
/// types SSE, integers, pointers and enumerations INTEGER.
pub open spec fn scalar_classes(k: AbiTyKind) -> Seq<AbiClass> {
    match k {
        AbiTyKind::Float(FloatKind::F80) => seq![AbiClass::X87, AbiClass::X87Up],
        AbiTyKind::Float(_) => seq![AbiClass::Sse],
        _ => seq![AbiClass::Integer],
    }
}

fn scalar_class_vec(k: &AbiTyKind) -> (v: Vec<AbiClass>)
    ensures
        v@ == scalar_classes(*k),
        v@.len() >= 1,
{
    let mut v: Vec<AbiClass> = Vec::new();
    match k {
        AbiTyKind::Float(FloatKind::F80) => {
            v.push(AbiClass::X87);
            v.push(AbiClass::X87Up);
        },
        AbiTyKind::Float(_) => v.push(AbiClass::Sse),
        _ => v.push(AbiClass::Integer),
    }
    assert(v@ =~= scalar_classes(*k));
    v
}

/// A scalar is passed directly in its natural LLVM type.
pub open spec fn scalar_param_spec(t: AbiTy) -> AbiParamView {
    AbiParamView {
        source: t.id,
        kind: PassingView::Direct(
            seq![AbiParamUnit { class: scalar_classes(t.kind)[0], kind: AbiParamUnitKind::Source(t.id) }],
        ),
        classes: scalar_classes(t.kind),
    }
}

fn single_unit(u: AbiParamUnit) -> (v: Vec<AbiParamUnit>)
    ensures
        v@ == seq![u],
{
    let mut v: Vec<AbiParamUnit> = Vec::new();
    v.push(u);
    assert(v@ =~= seq![u]);
    v
}

/// Lowering of one C function parameter.
pub open spec fn param_spec(t: AbiTy) -> Result<AbiParamView, (TyId, Seq<char>)> {
    match t.kind {
        AbiTyKind::Void => Err((t.id, "void is not a parameter type"@)),
        AbiTyKind::Func { .. } => Err((t.id, "function parameters must decay"@)),
        AbiTyKind::Error => Err((t.id, "error type cannot be ABI-classified"@)),
        AbiTyKind::Int { .. } | AbiTyKind::Float(_) => Ok(scalar_param_spec(t)),
        _ => aggregate_param_spec(t),
    }
}

/// Classify one C function parameter for the baseline SysV x86-64 ABI.
pub fn sysv_param_abi(t: &AbiTy) -> (r: Result<AbiParam, CodegenError>)
    requires
        abi_ty_wf(*t),
    ensures
        result_view_is(r, param_spec(*t)),
{
    match &t.kind {
        AbiTyKind::Void => Err(lowering_error(t.id, "void is not a parameter type")),
        AbiTyKind::Func { .. } => Err(lowering_error(t.id, "function parameters must decay")),
        AbiTyKind::Error => Err(lowering_error(t.id, "error type cannot be ABI-classified")),
        AbiTyKind::Int { .. } | AbiTyKind::Float(_) => {
            let classes = scalar_class_vec(&t.kind);
            let units = single_unit(
                AbiParamUnit { class: classes[0], kind: AbiParamUnitKind::Source(t.id) },
            );
            Ok(AbiParam { source: t.id, kind: AbiParamKind::Direct(units), classes })
        },
        _ => aggregate_param(t),
    }
}

/// ABI return strategy for one C function return value.
#[derive(Clone, Debug, PartialEq, Eq)]
pub enum AbiReturnKind {
    /// `void` return.
    Void,
    /// Return directly in one or more ABI-classified registers.
    Direct {
        /// LLVM return units. Multiple units are wrapped in an LLVM struct.
        units: Vec<AbiParamUnit>,
    },
    /// Return indirectly through a hidden caller-provided pointer.
    Indirect {
        /// Whether LLVM should mark the hidden pointer as `sret`.
        sret: bool,
        /// Required alignment of the pointed-to storage in bytes.
        align: u32,
        /// Size of the original returned object in bytes.
        size: u64,
    },
}

/// How a value is returned, as values.
pub enum ReturningView {
    Void,
    Direct(Seq<AbiParamUnit>),
    Indirect { sret: bool, align: u32, size: u64 },
}

impl View for AbiReturnKind {
    type V = ReturningView;

    open spec fn view(&self) -> ReturningView {
        match self {
            AbiReturnKind::Void => ReturningView::Void,
            AbiReturnKind::Direct { units } => ReturningView::Direct(units@),
            AbiReturnKind::Indirect { sret, align, size } => ReturningView::Indirect {
                sret: *sret,
                align: *align,
                size: *size,
            },
        }
    }
}

/// ABI lowering for one C function return value.
#[derive(Clone, Debug, PartialEq, Eq)]
pub struct AbiReturn {
    /// Original type being lowered.
    pub source: TyId,
    /// ABI return strategy.
    pub kind: AbiReturnKind,
    /// Final eightbyte classes after SysV cleanup.
    pub classes: Vec<AbiClass>,
    /// Whether the LLVM return value needs `zeroext` normalization.
    pub zeroext: bool,
}

/// A return value's lowering, as values.
pub struct AbiReturnView {
    pub source: TyId,
    pub kind: ReturningView,
    pub classes: Seq<AbiClass>,
    pub zeroext: bool,
}

impl View for AbiReturn {
    type V = AbiReturnView;

    open spec fn view(&self) -> AbiReturnView {
        AbiReturnView {
            source: self.source,
            kind: self.kind@,
            classes: self.classes@,
            zeroext: self.zeroext,
        }
    }
}

/// Number of hidden LLVM IR parameters that a return lowered as `r` takes.
pub open spec fn return_llvm_count(r: AbiReturnView) -> nat {
    match r.kind {
        ReturningView::Indirect { .. } => 1,
        _ => 0,
    }
}

impl AbiReturn {
    /// Number of hidden LLVM IR parameters emitted for this return value.
    pub fn llvm_param_count(&self) -> (n: usize)
        ensures
            n == return_llvm_count(self@),
    {
        match self.kind {
            AbiReturnKind::Void | AbiReturnKind::Direct { .. } => 0,
            AbiReturnKind::Indirect { .. } => 1,
        }
    }
}

/// Lowering of one C function return type.
pub open spec fn return_spec(t: AbiTy) -> Result<AbiReturnView, (TyId, Seq<char>)> {
    match t.kind {
        AbiTyKind::Void => Ok(
            AbiReturnView {
                source: t.id,
                kind: ReturningView::Void,
                classes: Seq::empty(),
                zeroext: false,
            },
        ),
        AbiTyKind::Func { .. } => Err((t.id, "function return types must decay"@)),
        AbiTyKind::Error => Err((t.id, "error type cannot be ABI-classified"@)),
        AbiTyKind::Int { is_bool } => Ok(
            AbiReturnView {
                source: t.id,
                kind: ReturningView::Direct(
                    seq![AbiParamUnit { class: AbiClass::Integer, kind: AbiParamUnitKind::Source(t.id) }],
                ),
                classes: seq![AbiClass::Integer],
                zeroext: is_bool,
            },
        ),
        AbiTyKind::Float(_) => Ok(
            AbiReturnView {
                source: t.id,
                kind: ReturningView::Direct(
                    seq![AbiParamUnit { class: scalar_classes(t.kind)[0], kind: AbiParamUnitKind::Source(t.id) }],
                ),
                classes: scalar_classes(t.kind),
                zeroext: false,
            },
        ),
        AbiTyKind::Complex(FloatKind::F80) => Ok(
            AbiReturnView {
                source: t.id,
                kind: ReturningView::Direct(
                    seq![AbiParamUnit { class: AbiClass::ComplexX87, kind: AbiParamUnitKind::Source(t.id) }],
                ),
                classes: seq![AbiClass::ComplexX87],
                zeroext: false,
            },
        ),
        _ => match aggregate_param_spec(t) {
            Err(e) => Err(e),
            Ok(p) => match p.kind {
                PassingView::Direct(units) => Ok(
                    AbiReturnView {
                        source: t.id,
                        kind: ReturningView::Direct(units),
                        classes: p.classes,
                        zeroext: false,
                    },
                ),
                PassingView::Indirect { align, size, .. } => Ok(
                    AbiReturnView {
                        source: t.id,
                        kind: ReturningView::Indirect { sret: true, align, size },
                        classes: seq![AbiClass::Memory],
                        zeroext: false,
                    },
                ),
            },
        },
    }
}

/// Classify one C function return type for the baseline SysV x86-64 ABI.
pub fn sysv_return_abi(t: &AbiTy) -> (r: Result<AbiReturn, CodegenError>)
    requires
        abi_ty_wf(*t),
    ensures
        result_view_is(r, return_spec(*t)),
{
    match &t.kind {
        AbiTyKind::Void => Ok(
            AbiReturn {
                source: t.id,
                kind: AbiReturnKind::Void,
                classes: Vec::new(),
                zeroext: false,
            },
        ),
        AbiTyKind::Func { .. } => Err(lowering_error(t.id, "function return types must decay")),
        AbiTyKind::Error => Err(lowering_error(t.id, "error type cannot be ABI-classified")),
        AbiTyKind::Int { .. } | AbiTyKind::Float(_) => {
            let classes = scalar_class_vec(&t.kind);
            let units = single_unit(
                AbiParamUnit { class: classes[0], kind: AbiParamUnitKind::Source(t.id) },
            );
            let zeroext = match &t.kind {
                AbiTyKind::Int { is_bool } => *is_bool,
                _ => false,
            };
            Ok(AbiReturn { source: t.id, kind: AbiReturnKind::Direct { units }, classes, zeroext })
        },
        AbiTyKind::Complex(FloatKind::F80) => {
            let units = single_unit(
                AbiParamUnit { class: AbiClass::ComplexX87, kind: AbiParamUnitKind::Source(t.id) },
            );
            let mut classes: Vec<AbiClass> = Vec::new();
            classes.push(AbiClass::ComplexX87);
            assert(classes@ =~= seq![AbiClass::ComplexX87]);
            Ok(AbiReturn { source: t.id, kind: AbiReturnKind::Direct { units }, classes, zeroext: false })
        },
        _ => {
            let param = match aggregate_param(t) {
                Ok(p) => p,
                Err(e) => return Err(e),
            };
            match param.kind {
                AbiParamKind::Direct(units) => Ok(
                    AbiReturn {
                        source: t.id,
                        kind: AbiReturnKind::Direct { units },
                        classes: param.classes,
                        zeroext: false,
                    },
                ),
                AbiParamKind::Indirect { align, size, .. } => {
                    let mut classes: Vec<AbiClass> = Vec::new();
                    classes.push(AbiClass::Memory);
                    assert(classes@ =~= seq![AbiClass::Memory]);
                    Ok(
                        AbiReturn {
                            source: t.id,
                            kind: AbiReturnKind::Indirect { sret: true, align, size },
                            classes,
                            zeroext: false,
                        },
                    )
                },
            }
        },
    }
}

proof fn lemma_units_len(cs: Seq<AbiClass>, m: EightbytesView, size: u64, ty: TyId, i: int)
    requires
        0 <= i <= cs.len(),
        units_spec(cs, m, size, ty, i) is Ok,
    ensures
        units_spec(cs, m, size, ty, i)->Ok_0.len() <= cs.len() - i,
    decreases cs.len() - i,
{
    if i < cs.len() {
        lemma_units_len(cs, m, size, ty, i + 1);
    }
}

/// Classification never adds or removes eightbytes.
proof fn lemma_classify_keeps_len(t: AbiTy, offset: int, m: EightbytesView)
    ensures
        classify_spec(t, offset, m) is Ok ==> classify_spec(t, offset, m)->Ok_0.classes.len()
            == m.classes.len(),
    decreases t, 1int, 0int,
{
    match t.kind {
        AbiTyKind::Array { len: Some(_), .. } => lemma_elems_keep_len(t, offset, 0, m),
        AbiTyKind::Record { fields: Ok(_), .. } => lemma_fields_keep_len(t, offset, 0, m),
        AbiTyKind::Float(FloatKind::F80) => {
            let r = merge_range_spec(m, offset, 8, AbiClass::X87, t.id);
            if r is Ok {
                let _ = merge_range_spec(r->Ok_0, offset + 8, 8, AbiClass::X87Up, t.id);
            }
        },
        AbiTyKind::Complex(k) => {
            let r = float_part_spec(m, offset, k, t.id);
            if r is Ok {
                let _ = float_part_spec(r->Ok_0, offset + float_size_spec(k), k, t.id);
            }
        },
        _ => {},
    }
}

proof fn lemma_elems_keep_len(t: AbiTy, base: int, i: int, m: EightbytesView)
    ensures
        classify_elems_spec(t, base, i, m) is Ok ==> classify_elems_spec(t, base, i, m)->Ok_0.classes.len()
            == m.classes.len(),
    decreases t, 0int, array_len(t) - i,
{
    match t.kind {
        AbiTyKind::Array { elem, elem_size, len: Some(n) } => {
            if i < n && !(i * elem_size > u64::MAX || base + i * elem_size > u64::MAX) {
                lemma_classify_keeps_len(*elem, base + i * elem_size, m);
                let r = classify_spec(*elem, base + i * elem_size, m);
                if r is Ok {
                    lemma_elems_keep_len(t, base, i + 1, r->Ok_0);
                }
            }
        },
        _ => {},
    }
}

proof fn lemma_fields_keep_len(t: AbiTy, base: int, i: int, m: EightbytesView)
    ensures
        classify_fields_spec(t, base, i, m) is Ok ==> classify_fields_spec(t, base, i, m)->Ok_0.classes.len()
            == m.classes.len(),
    decreases t, 0int, field_count(t) - i,
{
    match t.kind {
        AbiTyKind::Record { fields: Ok(fs), .. } => {
            if 0 <= i < fs@.len() {
                if fs@[i].storage_size == 0 {
                    lemma_fields_keep_len(t, base, i + 1, m);
                } else {
                    lemma_classify_keeps_len(fs@[i].ty, base + fs@[i].offset, m);
                    let r = classify_spec(fs@[i].ty, base + fs@[i].offset, m);
                    if r is Ok {
                        lemma_fields_keep_len(t, base, i + 1, r->Ok_0);
                    }
                }
            }
        },
        _ => {},
    }
}

/// A parameter takes at most four LLVM IR parameters.
proof fn lemma_param_count_bound(t: AbiTy)
    requires
        param_spec(t) is Ok,
    ensures
        param_llvm_count(param_spec(t)->Ok_0) <= 4,
{
    match t.kind {
        AbiTyKind::Int { .. } | AbiTyKind::Float(_) => {
            let u = AbiParamUnit {
                class: scalar_classes(t.kind)[0],
                kind: AbiParamUnitKind::Source(t.id),
            };
            assert(seq![u].len() == 1);
        },
        AbiTyKind::Void | AbiTyKind::Func { .. } | AbiTyKind::Error => {},
        _ => {
            let l = t.layout->Ok_0;
            if (l.size + 7) / 8 <= 4 {
                let m0 = fresh_chunks(((l.size + 7) / 8) as nat);
                lemma_classify_keeps_len(t, 0, m0);
                let m = classify_spec(t, 0, m0)->Ok_0;
                let cs = cleaned(m.classes);
                if !(has_memory(cs) || needs_memory(cs)) {
                    lemma_units_len(cs, m, l.size, t.id, 0);
                }
            }
        },
    }
}

/// ABI lowering for a whole C function signature.
#[derive(Clone, Debug, PartialEq, Eq)]
pub struct FnAbi {
    /// Lowered return value.
    pub ret: AbiReturn,
    /// Lowered fixed parameters in source order.
    pub params: Vec<AbiParam>,
    /// Whether the C function has an ellipsis.
    pub variadic: bool,
    /// LLVM IR parameter index where variadic call-site arguments begin.
    pub fixed_param_count: usize,
}

/// A signature's lowering, as values.
pub struct FnAbiView {
    pub ret: AbiReturnView,
    pub params: Seq<AbiParamView>,
    pub variadic: bool,
    pub fixed_param_count: nat,
}

impl View for FnAbi {
    type V = FnAbiView;

    open spec fn view(&self) -> FnAbiView {
        FnAbiView {
            ret: self.ret@,
            params: self.params@.map_values(|p: AbiParam| p@),
            variadic: self.variadic,
            fixed_param_count: self.fixed_param_count as nat,
        }
    }
}

/// Lowering of parameters `i..` in order; the first failure is reported.
pub open spec fn params_spec(ps: Seq<AbiTy>, i: int) -> Result<Seq<AbiParamView>, (TyId, Seq<char>)>
    decreases ps.len() - i,
{
    if i < 0 || i >= ps.len() {
        Ok(Seq::empty())
    } else {
        match param_spec(ps[i]) {
            Err(e) => Err(e),
            Ok(p) => match params_spec(ps, i + 1) {
                Err(e) => Err(e),
                Ok(rest) => Ok(seq![p] + rest),
            },
        }
    }
}

/// LLVM IR parameters that the lowered parameters take together.
pub open spec fn params_llvm_count(ps: Seq<AbiParamView>) -> nat
    decreases ps.len(),
{
    if ps.len() == 0 {
        0
    } else {
        params_llvm_count(ps.drop_last()) + param_llvm_count(ps.last())
    }
}

/// Lowering of a whole function type: the return value, then each
/// parameter; the variadic arguments start after the hidden return pointer
/// (if any) and all the fixed parameters' LLVM parameters.
pub open spec fn fn_abi_spec(t: AbiTy) -> Result<FnAbiView, (TyId, Seq<char>)> {
    match t.kind {
        AbiTyKind::Func { ret, params, variadic } => match return_spec(*ret) {
            Err(e) => Err(e),
            Ok(r) => match params_spec(params@, 0) {
                Err(e) => Err(e),
                Ok(ps) => Ok(
                    FnAbiView {
                        ret: r,
                        params: ps,
                        variadic,
                        fixed_param_count: return_llvm_count(r) + params_llvm_count(ps),
                    },
                ),
            },
        },
        _ => Err((t.id, "not a function type"@)),
    }
}

/// The parameter list fits the machine's address space: a function type
/// has fewer parameters than a quarter of the largest `usize`.
pub open spec fn params_fit(t: AbiTy) -> bool {
    t.kind matches AbiTyKind::Func { params, .. } ==> params@.len() < usize::MAX / 4
}

/// Classify a C function type's parameters for the baseline SysV x86-64 ABI.
pub fn sysv_fn_abi(t: &AbiTy) -> (r: Result<FnAbi, CodegenError>)
    requires
        abi_ty_wf(*t),
        params_fit(*t),
    ensures
        result_view_is(r, fn_abi_spec(*t)),
{
    let (ret_ty, params, variadic) = match &t.kind {
        AbiTyKind::Func { ret, params, variadic } => (ret, params, *variadic),
        _ => return Err(lowering_error(t.id, "not a function type")),
    };
    let ret = match sysv_return_abi(ret_ty) {
        Ok(r) => r,
        Err(e) => return Err(e),
    };
    let ret_count = ret.llvm_param_count();
    let mut lowered: Vec<AbiParam> = Vec::new();
    let mut count: usize = ret_count;
    let mut idx: usize = 0;
    while idx < params.len()
        invariant
            idx <= params@.len(),
            params@.len() < usize::MAX / 4,
            t.kind matches AbiTyKind::Func { ret: rt, params: ps, variadic: v } && ps@ == params@
                && v == variadic && *rt == **ret_ty,
            return_spec(**ret_ty) == Ok::<AbiReturnView, (TyId, Seq<char>)>(ret@),
            ret_count <= 1,
            forall|i: int| 0 <= i < params@.len() ==> abi_ty_wf(#[trigger] params@[i]),
            count == ret_count + params_llvm_count(lowered@.map_values(|p: AbiParam| p@)),
            count <= 1 + 4 * idx,
            params_spec(params@, 0) == match params_spec(params@, idx as int) {
                Ok(rest) => Ok(lowered@.map_values(|p: AbiParam| p@) + rest),
                Err(e) => Err(e),
            },
        decreases params@.len() - idx,
    {
        let p = match sysv_param_abi(&params[idx]) {
            Ok(p) => p,
            Err(e) => return Err(e),
        };
        proof {
            lemma_param_count_bound(params@[idx as int]);
        }
        let n = p.llvm_param_count();
        let ghost before = lowered@.map_values(|q: AbiParam| q@);
        let ghost pv = p@;
        lowered.push(p);
        let ghost after = lowered@.map_values(|q: AbiParam| q@);
        proof {
            assert(after =~= before.push(pv));
            assert(after.drop_last() =~= before);
            assert forall|rest: Seq<AbiParamView>| before + (seq![pv] + rest) =~= #[trigger] (after + rest) by {}
        }
        count = count + n;
        idx = idx + 1;
    }
    assert(lowered@.map_values(|p: AbiParam| p@) + Seq::<AbiParamView>::empty() =~= lowered@.map_values(|p: AbiParam| p@));
    Ok(FnAbi { ret, params: lowered, variadic, fixed_param_count: count })
}

proof fn lemma_units_classes(cs: Seq<AbiClass>, m: EightbytesView, size: u64, ty: TyId, i: int)
    requires
        0 <= i <= cs.len(),
        units_spec(cs, m, size, ty, i) is Ok,
        !has_memory(cs),
    ensures
        forall|j: int|
            0 <= j < units_spec(cs, m, size, ty, i)->Ok_0.len() ==> {
                let c = #[trigger] units_spec(cs, m, size, ty, i)->Ok_0[j].class;
                c != AbiClass::NoClass && c != AbiClass::Memory
            },
    decreases cs.len() - i,
{
    if i < cs.len() {
        lemma_units_len(cs, m, size, ty, i + 1);
        lemma_units_classes(cs, m, size, ty, i + 1);
        if cs[i] != AbiClass::NoClass {
            assert(cs[i] != AbiClass::Memory);
            let us = units_spec(cs, m, size, ty, i)->Ok_0;
            let rest = units_spec(cs, m, size, ty, i + 1)->Ok_0;
            assert forall|j: int| 1 <= j < us.len() implies us[j] == rest[j - 1] by {}
        }
    }
}

/// A parameter passed through memory is classified `[Memory]` and passed
/// by value; a parameter passed in registers has no eightbyte classified
/// `NoClass` or `Memory`, and takes at least one register.
pub proof fn lemma_param_classes(t: AbiTy)
    requires
        param_spec(t) is Ok,
    ensures
        ({
            let p = param_spec(t)->Ok_0;
            &&& p.source == t.id
            &&& p.kind is Indirect ==> p.classes == seq![AbiClass::Memory] && p.kind->byval
            &&& p.kind is Direct ==> forall|i: int|
                0 <= i < p.classes.len() ==> #[trigger] p.classes[i] != AbiClass::NoClass
                    && p.classes[i] != AbiClass::Memory
        }),
{
    match t.kind {
        AbiTyKind::Int { .. } | AbiTyKind::Float(_) => {},
        AbiTyKind::Void | AbiTyKind::Func { .. } | AbiTyKind::Error => {},
        _ => {
            let l = t.layout->Ok_0;
            if (l.size + 7) / 8 <= 4 {
                let m0 = fresh_chunks(((l.size + 7) / 8) as nat);
                lemma_classify_keeps_len(t, 0, m0);
                let m = classify_spec(t, 0, m0)->Ok_0;
                let cs = cleaned(m.classes);
                if !(has_memory(cs) || needs_memory(cs)) {
                    lemma_units_len(cs, m, l.size, t.id, 0);
                    lemma_units_classes(cs, m, l.size, t.id, 0);
                }
            }
        },
    }
}

/// An aggregate (non-`long double` complex, array or record) is returned
/// the way it is passed: in the same registers when it is passed in
/// registers, and through a hidden `sret` pointer of the same alignment and
/// size when it is passed by value in memory; classification fails for both
/// or for neither, with the same error.
pub proof fn lemma_aggregate_return_mirrors_param(t: AbiTy)
    requires
        t.kind is Array || t.kind is Record || (t.kind is Complex && !(t.kind
            == AbiTyKind::Complex(FloatKind::F80))),
    ensures
        param_spec(t) is Err <==> return_spec(t) is Err,
        param_spec(t) is Err ==> param_spec(t)->Err_0 == return_spec(t)->Err_0,
        param_spec(t) is Ok ==> ({
            let p = param_spec(t)->Ok_0;
            let r = return_spec(t)->Ok_0;
            &&& !r.zeroext
            &&& p.kind is Direct ==> r.kind == ReturningView::Direct(p.kind->Direct_0) && r.classes
                == p.classes
            &&& p.kind is Indirect ==> r.kind == (ReturningView::Indirect {
                sret: true,
                align: p.kind->align,
                size: p.kind->size,
            }) && r.classes == seq![AbiClass::Memory] && p.classes == r.classes
        }),
{
    if param_spec(t) is Ok {
        lemma_param_classes(t);
    }
}

/// An integer or pointer parameter travels in one general-purpose
/// register and a `float` or `double` in one SSE register, each in its own
/// LLVM type; an aggregate larger than four eightbytes is passed by value in
/// memory, at its own alignment and size (when its eightbyte count fits
/// the machine's word).
pub proof fn lemma_param_passing_by_kind_and_size(t: AbiTy)
    ensures
        (t.kind is Int) ==> param_spec(t) == Ok::<AbiParamView, (TyId, Seq<char>)>(
            AbiParamView {
                source: t.id,
                kind: PassingView::Direct(
                    seq![AbiParamUnit { class: AbiClass::Integer, kind: AbiParamUnitKind::Source(t.id) }],
                ),
                classes: seq![AbiClass::Integer],
            },
        ),
        (t.kind == AbiTyKind::Float(FloatKind::F32) || t.kind == AbiTyKind::Float(FloatKind::F64)) ==> param_spec(t)
            == Ok::<AbiParamView, (TyId, Seq<char>)>(
            AbiParamView {
                source: t.id,
                kind: PassingView::Direct(
                    seq![AbiParamUnit { class: AbiClass::Sse, kind: AbiParamUnitKind::Source(t.id) }],
                ),
                classes: seq![AbiClass::Sse],
            },
        ),
        ((t.kind is Array || t.kind is Record || t.kind is Complex) && t.layout is Ok && t.layout->Ok_0.size > 32
            && t.layout->Ok_0.size + 7 <= u64::MAX && (t.layout->Ok_0.size + 7) / 8 <= usize::MAX) ==> param_spec(t) == Ok::<AbiParamView, (TyId, Seq<char>)>(
            AbiParamView {
                source: t.id,
                kind: PassingView::Indirect {
                    byval: true,
                    align: t.layout->Ok_0.align,
                    size: t.layout->Ok_0.size,
                },
                classes: seq![AbiClass::Memory],
            },
        ),
{
}

/// After cleanup no eightbyte is `SseUp` unless it follows an SSE
/// eightbyte, and cleaning twice changes nothing more.
pub proof fn lemma_cleanup_laws(cs: Seq<AbiClass>)
    ensures
        cleaned(cs).len() == cs.len(),
        forall|i: int|
            0 <= i < cs.len() && #[trigger] cleaned(cs)[i] == AbiClass::SseUp ==> i > 0 && (cleaned(
                cs,
            )[i - 1] == AbiClass::Sse || cleaned(cs)[i - 1] == AbiClass::SseUp),
        cleaned(cleaned(cs)) == cleaned(cs),
{
    assert(cleaned(cleaned(cs)) =~= cleaned(cs));
}

/// Result of a codegen run. Backend-specific artifacts are stringified so the
/// driver / tests can assert against textual LLVM IR.
#[derive(Debug)]
pub struct CodegenArtifact {
    /// Textual LLVM IR module (pretty-printed).
    pub ir_text: String,
    /// Target assembly, present when assembly output was requested.
    pub assembly_text: Option<String>,
    /// Native object bytes, present for final linking or object output.
    pub object_bytes: Option<Vec<u8>>,
}

/// The text that describes a codegen error to a user.
pub open spec fn codegen_error_text(e: CodegenError) -> Seq<char> {
    match e {
        CodegenError::BackendDisabled => "rcc_codegen_llvm built without the `llvm` feature"@,
        CodegenError::TypeLowering { ty, reason } => "failed to lower HIR type TyId("@ + crate::text::decimal(
            ty.0 as nat,
        ) + ") to LLVM: "@ + reason@,
        CodegenError::Internal(m) => "internal codegen error: "@ + m@,
    }
}

impl CodegenError {
    /// The error's message, as the original `Display` renders it.
    pub fn message(&self) -> (s: String)
        ensures
            s@ == codegen_error_text(*self),
    {
        match self {
            CodegenError::BackendDisabled => "rcc_codegen_llvm built without the `llvm` feature".to_string(),
            CodegenError::TypeLowering { ty, reason } => {
                let mut v: Vec<char> = Vec::new();
                crate::text::push_str(&mut v, "failed to lower HIR type TyId(");
                let digits = crate::text::decimal_u64(ty.0 as u64);
                crate::text::push_chars(&mut v, digits.as_slice());
                crate::text::push_str(&mut v, ") to LLVM: ");
                crate::text::push_str(&mut v, reason.as_str());
                crate::text::string_of(v.as_slice())
            },
            CodegenError::Internal(m) => {
                let mut v: Vec<char> = Vec::new();
                crate::text::push_str(&mut v, "internal codegen error: ");
                crate::text::push_str(&mut v, m.as_str());
                crate::text::string_of(v.as_slice())
            },
        }
    }
}

/// Where an LLVM attribute goes.
#[derive(Copy, Clone, Debug, PartialEq, Eq, Structural)]
pub enum AttrLoc {
    /// The return value.
    Return,
    /// The LLVM parameter with this index.
    Param(u32),
}

/// An ABI attribute of a function or call site.
#[derive(Copy, Clone, Debug, PartialEq, Eq, Structural)]
pub enum AbiAttr {
    /// The returned integer is zero-extended.
    ZeroExt,
    /// The parameter points to the returned object of this type.
    StructRet(TyId),
    /// The parameter passes an object of this type by value.
    ByVal(TyId),
    /// The pointed-to storage has this alignment.
    Align(u32),
}

/// Attributes of a lowered return value: `zeroext` on the return, and the
/// hidden result pointer's `sret` and `align` on parameter zero.
pub open spec fn return_attrs(r: AbiReturnView) -> Seq<(AttrLoc, AbiAttr)> {
    (if r.zeroext {
        seq![(AttrLoc::Return, AbiAttr::ZeroExt)]
    } else {
        Seq::empty()
    }) + match r.kind {
        ReturningView::Indirect { sret, align, .. } => (if sret {
            seq![(AttrLoc::Param(0), AbiAttr::StructRet(r.source))]
        } else {
            Seq::empty()
        }) + seq![(AttrLoc::Param(0), AbiAttr::Align(align))],
        _ => Seq::empty(),
    }
}

/// Attributes of parameters `k..`, the first of which starts at LLVM
/// parameter `idx`: a parameter passed in memory gets `byval` (when passed
/// by value) and `align` on its pointer. `msg` is reported when an index
/// passes the largest `u32`.
pub open spec fn params_attrs(ps: Seq<AbiParamView>, k: int, idx: int, msg: Seq<char>) -> Result<
    Seq<(AttrLoc, AbiAttr)>,
    Seq<char>,
>
    decreases ps.len() - k,
{
    if k < 0 || k >= ps.len() {
        Ok(Seq::empty())
    } else {
        match ps[k].kind {
            PassingView::Direct(us) => if idx + us.len() > u32::MAX {
                Err(msg)
            } else {
                params_attrs(ps, k + 1, idx + us.len(), msg)
            },
            PassingView::Indirect { byval, align, .. } => if idx + 1 > u32::MAX {
                Err(msg)
            } else {
                match params_attrs(ps, k + 1, idx + 1, msg) {
                    Err(e) => Err(e),
                    Ok(rest) => Ok(
                        (if byval {
                            seq![(AttrLoc::Param(idx as u32), AbiAttr::ByVal(ps[k].source))]
                        } else {
                            Seq::empty()
                        }) + seq![(AttrLoc::Param(idx as u32), AbiAttr::Align(align))] + rest,
                    ),
                }
            },
        }
    }
}

/// The ABI attributes of a lowered signature, in the order they are added.
pub open spec fn abi_attrs_spec(abi: FnAbiView, msg: Seq<char>) -> Result<Seq<(AttrLoc, AbiAttr)>, Seq<char>> {
    match params_attrs(abi.params, 0, return_llvm_count(abi.ret) as int, msg) {
        Err(e) => Err(e),
        Ok(ps) => Ok(return_attrs(abi.ret) + ps),
    }
}

fn abi_attributes(abi: &FnAbi, msg: &str) -> (r: Result<Vec<(AttrLoc, AbiAttr)>, CodegenError>)
    ensures
        match abi_attrs_spec(abi@, msg@) {
            Ok(v) => r matches Ok(x) && x@ == v,
            Err(m) => r matches Err(e) && (e matches CodegenError::Internal(s) && s@ == m),
        },
{
    let mut out: Vec<(AttrLoc, AbiAttr)> = Vec::new();
    if abi.ret.zeroext {
        out.push((AttrLoc::Return, AbiAttr::ZeroExt));
    }
    if let AbiReturnKind::Indirect { sret, align, .. } = &abi.ret.kind {
        if *sret {
            out.push((AttrLoc::Param(0), AbiAttr::StructRet(abi.ret.source)));
        }
        out.push((AttrLoc::Param(0), AbiAttr::Align(*align)));
    }
    assert(out@ =~= return_attrs(abi.ret@));
    let ghost ps = abi@.params;
    let ghost head = out@;
    let mut idx: u32 = abi.ret.llvm_param_count() as u32;
    let mut k: usize = 0;
    while k < abi.params.len()
        invariant
            k <= abi.params@.len(),
            ps == abi@.params,
            ps.len() == abi.params@.len(),
            forall|j: int| 0 <= j < ps.len() ==> #[trigger] ps[j] == abi.params@[j]@,
            params_attrs(ps, 0, return_llvm_count(abi.ret@) as int, msg@) == match params_attrs(
                ps,
                k as int,
                idx as int,
                msg@,
            ) {
                Ok(rest) => Ok(out@.skip(head.len() as int) + rest),
                Err(e) => Err(e),
            },
            out@.len() >= head.len(),
            out@.take(head.len() as int) == head,
        decreases abi.params@.len() - k,
    {
        match &abi.params[k].kind {
            AbiParamKind::Direct(units) => {
                if units.len() > (u32::MAX - idx) as usize {
                    return Err(CodegenError::Internal(msg.to_string()));
                }
                idx = idx + units.len() as u32;
            },
            AbiParamKind::Indirect { byval, align, .. } => {
                let ghost before = out@;
                if *byval {
                    out.push((AttrLoc::Param(idx), AbiAttr::ByVal(abi.params[k].source)));
                }
                out.push((AttrLoc::Param(idx), AbiAttr::Align(*align)));
                if idx == u32::MAX {
                    return Err(CodegenError::Internal(msg.to_string()));
                }
                proof {
                    let pre = (if *byval {
                        seq![(AttrLoc::Param(idx as u32), AbiAttr::ByVal(ps[k as int].source))]
                    } else {
                        Seq::empty()
                    }) + seq![(AttrLoc::Param(idx as u32), AbiAttr::Align(*align))];
                    assert(out@ =~= before + pre);
                    assert(out@.skip(head.len() as int) =~= before.skip(head.len() as int) + pre);
                    assert forall|rest: Seq<(AttrLoc, AbiAttr)>| before.skip(head.len() as int) + (pre + rest)
                        =~= #[trigger] (out@.skip(head.len() as int) + rest) by {}
                    assert(out@.take(head.len() as int) =~= head);
                }
                idx = idx + 1;
            },
        }
        k = k + 1;
    }
    assert(out@ =~= head + out@.skip(head.len() as int) + Seq::<(AttrLoc, AbiAttr)>::empty());
    Ok(out)
}

/// Message of a function parameter index past the largest `u32`.
pub open spec fn function_index_message() -> Seq<char> {
    "function parameter index overflowed"@
}

/// Message of a call parameter index past the largest `u32`.
pub open spec fn call_index_message() -> Seq<char> {
    "call parameter index overflowed"@
}

/// The ABI attributes of a function definition or declaration with
/// signature `abi`.
pub fn function_abi_attributes(abi: &FnAbi) -> (r: Result<Vec<(AttrLoc, AbiAttr)>, CodegenError>)
    ensures
        match abi_attrs_spec(abi@, function_index_message()) {
            Ok(v) => r matches Ok(x) && x@ == v,
            Err(m) => r matches Err(e) && (e matches CodegenError::Internal(s) && s@ == m),
        },
{
    abi_attributes(abi, "function parameter index overflowed")
}

/// The ABI attributes of a call site with signature `abi`.
pub fn call_abi_attributes(abi: &FnAbi) -> (r: Result<Vec<(AttrLoc, AbiAttr)>, CodegenError>)
    ensures
        match abi_attrs_spec(abi@, call_index_message()) {
            Ok(v) => r matches Ok(x) && x@ == v,
            Err(m) => r matches Err(e) && (e matches CodegenError::Internal(s) && s@ == m),
        },
{
    abi_attributes(abi, "call parameter index overflowed")
}

/// LLVM parameters that lowered parameters `k..` take together.
pub open spec fn counts_from(ps: Seq<AbiParamView>, k: int) -> nat
    decreases ps.len() - k,
{
    if k < 0 || k >= ps.len() {
        0
    } else {
        param_llvm_count(ps[k]) + counts_from(ps, k + 1)
    }
}

proof fn lemma_counts_from_split(ps: Seq<AbiParamView>, k: int)
    requires
        0 <= k <= ps.len(),
    ensures
        counts_from(ps, 0) == params_llvm_count(ps.take(k)) + counts_from(ps, k),
    decreases k,
{
    if k > 0 {
        lemma_counts_from_split(ps, k - 1);
        assert(ps.take(k).drop_last() =~= ps.take(k - 1));
        assert(ps.take(k).last() == ps[k - 1]);
    }
}

proof fn lemma_params_attr_positions(ps: Seq<AbiParamView>, k: int, idx: int, msg: Seq<char>)
    requires
        0 <= k <= ps.len(),
        0 <= idx,
        params_attrs(ps, k, idx, msg) is Ok,
    ensures
        forall|j: int|
            0 <= j < params_attrs(ps, k, idx, msg)->Ok_0.len() ==> ((#[trigger] params_attrs(
                ps,
                k,
                idx,
                msg,
            )->Ok_0[j]).0 matches AttrLoc::Param(i) && idx <= i < idx + counts_from(ps, k)),
    decreases ps.len() - k,
{
    if k < ps.len() {
        match ps[k].kind {
            PassingView::Direct(us) => {
                lemma_params_attr_positions(ps, k + 1, idx + us.len(), msg);
            },
            PassingView::Indirect { byval, align, .. } => {
                lemma_params_attr_positions(ps, k + 1, idx + 1, msg);
                let rest = params_attrs(ps, k + 1, idx + 1, msg)->Ok_0;
                let pre = (if byval {
                    seq![(AttrLoc::Param(idx as u32), AbiAttr::ByVal(ps[k].source))]
                } else {
                    Seq::empty()
                }) + seq![(AttrLoc::Param(idx as u32), AbiAttr::Align(align))];
                let v = params_attrs(ps, k, idx, msg)->Ok_0;
                assert(v == pre + rest);
                assert forall|j: int| 0 <= j < v.len() implies ((#[trigger] v[j]).0 matches AttrLoc::Param(i)
                    && idx <= i < idx + counts_from(ps, k)) by {
                    if j >= pre.len() {
                        assert(v[j] == rest[j - pre.len()]);
                    }
                }
            },
        }
    }
}

/// Every parameter attribute of a lowered signature names one of the LLVM
/// parameters before the variadic arguments: its index is below
/// `fixed_param_count`.
pub proof fn lemma_attrs_within_fixed_params(t: AbiTy, msg: Seq<char>)
    requires
        fn_abi_spec(t) is Ok,
        abi_attrs_spec(fn_abi_spec(t)->Ok_0, msg) is Ok,
    ensures
        ({
            let abi = fn_abi_spec(t)->Ok_0;
            let v = abi_attrs_spec(abi, msg)->Ok_0;
            forall|j: int|
                0 <= j < v.len() ==> ((#[trigger] v[j]).0 matches AttrLoc::Param(i) ==> i
                    < abi.fixed_param_count)
        }),
{
    let abi = fn_abi_spec(t)->Ok_0;
    let ps = abi.params;
    let rc = return_llvm_count(abi.ret) as int;
    lemma_params_attr_positions(ps, 0, rc, msg);
    lemma_counts_from_split(ps, ps.len() as int);
    assert(ps.take(ps.len() as int) =~= ps);
    let ra = return_attrs(abi.ret);
    let pa = params_attrs(ps, 0, rc, msg)->Ok_0;
    let v = abi_attrs_spec(abi, msg)->Ok_0;
    assert(v == ra + pa);
    assert forall|j: int| 0 <= j < v.len() implies ((#[trigger] v[j]).0 matches AttrLoc::Param(i) ==> i
        < abi.fixed_param_count) by {
        if j >= ra.len() {
            assert(v[j] == pa[j - ra.len()]);
        } else {
            assert(v[j] == ra[j]);
        }
    }
}

} // verus!
