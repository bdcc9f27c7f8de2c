//! The object representation of a constant initializer, byte by byte.
//!
//! A global's initializer is a list of entries, each a designator path
//! (array indices and field numbers) leading to a scalar constant. The bytes
//! of an aggregate are built from its elements' and fields' bytes, placed at
//! the offsets that the layout gave them; bytes that no entry covers are
//! zero.
use vstd::prelude::*;
use crate::abi::{array_len, err_view, field_count, AbiField, AbiTy, AbiTyKind, CodegenError, ErrView, RecordDefError, TyId};
use crate::text::{decimal, decimal_u64, push_chars, push_str, string_of};

verus! {

/// One step of a designator path.
#[derive(Copy, Clone, Debug, PartialEq, Eq, Structural)]
pub enum Designator {
    /// Array element with this index.
    Index(u64),
    /// Record field with this number.
    Field(u32),
}

/// What a scalar constant contributes to the bytes.
#[derive(Copy, Clone, Debug, PartialEq, Eq, Structural)]
pub enum ScalarConst {
    /// An integer constant, zero-extended to 64 bits.
    Int(u64),
    /// A floating-point constant: the low `bytes` bytes of its bit pattern.
    Bits { bits: u64, bytes: u32 },
    /// A constant whose bytes are not known here (an address): zero bytes.
    Opaque,
}

pub(crate) fn copy_error(e: &CodegenError) -> (r: CodegenError)
    ensures
        err_view(r) == err_view(*e),
{
    match e {
        CodegenError::TypeLowering { ty, reason } => CodegenError::TypeLowering { ty: *ty, reason: reason.clone() },
        CodegenError::Internal(m) => CodegenError::Internal(m.clone()),
        CodegenError::BackendDisabled => CodegenError::BackendDisabled,
    }
}

/// One initializer entry: a designator path and the constant it leads to
/// (or the error that lowering that constant gave).
#[derive(Debug)]
pub struct InitEntry {
    pub path: Vec<Designator>,
    pub value: Result<ScalarConst, CodegenError>,
}

/// An initializer entry, as values.
pub type EntryView = (Seq<Designator>, Result<ScalarConst, ErrView>);

impl View for InitEntry {
    type V = EntryView;

    open spec fn view(&self) -> EntryView {
        (
            self.path@,
            match self.value {
                Ok(v) => Ok(v),
                Err(e) => Err(err_view(e)),
            },
        )
    }
}

/// Views of a sequence of entries.
pub open spec fn entries_view(es: Seq<InitEntry>) -> Seq<EntryView> {
    es.map_values(|e: InitEntry| e@)
}

/// Result of building bytes: the bytes, an error, or an arithmetic overflow
/// (on which the computation cannot go on).
pub enum ConstBytes {
    Bytes(Seq<u8>),
    Failed(ErrView),
    Overflow,
}

/// `n` zero bytes.
pub open spec fn zeros(n: nat) -> Seq<u8> {
    Seq::new(n, |i: int| 0u8)
}

/// The `size` bytes of a scalar constant, little-endian: an integer gives
/// its low bytes, a floating-point constant the bytes of its bit pattern
/// followed by zeros, anything else zeros. An integer wider than eight
/// bytes, or a bit pattern longer than eight, overflows the shift.
pub open spec fn leaf_bytes(v: ScalarConst, size: nat) -> Option<Seq<u8>> {
    match v {
        ScalarConst::Int(x) => if size > 8 {
            None
        } else {
            Some(Seq::new(size, |i: int| ((x >> ((8 * i) as u64)) & 0xff) as u8))
        },
        ScalarConst::Bits { bits, bytes } => if bytes > 8 {
            None
        } else {
            Some(
                Seq::new(
                    size,
                    |i: int|
                        if i < bytes {
                            ((bits >> ((8 * i) as u64)) & 0xff) as u8
                        } else {
                            0u8
                        },
                ),
            )
        },
        ScalarConst::Opaque => Some(zeros(size)),
    }
}

/// `dst` with the bytes of `src` written from position `off` on; bytes past
/// the end of `dst` are dropped. A position past the largest `usize`
/// overflows.
pub open spec fn write_at(dst: Seq<u8>, off: u64, src: Seq<u8>) -> Option<Seq<u8>> {
    let start = (off as usize) as int;
    if src.len() > 0 && start + src.len() - 1 > usize::MAX {
        None
    } else {
        Some(
            Seq::new(
                dst.len(),
                |p: int| if start <= p < start + src.len() { src[p - start] } else { dst[p] },
            ),
        )
    }
}

/// The entries whose path starts with `d`, in order, with that first step
/// removed.
pub open spec fn select(es: Seq<EntryView>, d: Designator) -> Seq<EntryView>
    decreases es.len(),
{
    if es.len() == 0 {
        Seq::empty()
    } else {
        let prev = select(es.drop_last(), d);
        let e = es.last();
        if e.0.len() > 0 && e.0[0] == d {
            prev.push((e.0.drop_first(), e.1))
        } else {
            prev
        }
    }
}

/// The entries whose path starts with field number `i`, with that step
/// removed.
pub open spec fn select_field(es: Seq<EntryView>, i: int) -> Seq<EntryView>
    decreases es.len(),
{
    if es.len() == 0 {
        Seq::empty()
    } else {
        let prev = select_field(es.drop_last(), i);
        let e = es.last();
        if e.0.len() > 0 && (e.0[0] matches Designator::Field(k) && k as int == i) {
            prev.push((e.0.drop_first(), e.1))
        } else {
            prev
        }
    }
}

/// Field number of the first entry, from position `j` on, whose path starts
/// with a field.
pub open spec fn first_field(es: Seq<EntryView>, j: int) -> Option<u32>
    decreases es.len() - j,
{
    if j < 0 || j >= es.len() {
        None
    } else if es[j].0.len() > 0 && es[j].0[0] is Field {
        Some(es[j].0[0]->Field_0)
    } else {
        first_field(es, j + 1)
    }
}

/// Message of a type that is neither a scalar leaf nor an aggregate.
pub open spec fn not_aggregate_message(ty: TyId) -> Seq<char> {
    "expected scalar leaf or aggregate type for byte initializer, got TyId("@ + decimal(ty.0 as nat)
        + ")"@
}

/// Message of a record definition that cannot be used.
pub open spec fn record_def_message(e: RecordDefError) -> Seq<char> {
    match e {
        RecordDefError::Missing(d) => "record definition DefId("@ + decimal(d as nat) + ") not found"@,
        RecordDefError::NotARecord(d) => "DefId("@ + decimal(d as nat) + ") is not a record"@,
    }
}

/// The `size` bytes of a constant of type `t` initialized by `es`.
pub open spec fn const_bytes_spec(t: AbiTy, es: Seq<EntryView>, size: nat) -> ConstBytes
    decreases t, 2int, 0int,
{
    if es.len() == 0 {
        ConstBytes::Bytes(zeros(size))
    } else if es.len() == 1 && es[0].0.len() == 0 {
        match es[0].1 {
            Err(e) => ConstBytes::Failed(e),
            Ok(v) => match leaf_bytes(v, size) {
                None => ConstBytes::Overflow,
                Some(b) => ConstBytes::Bytes(b),
            },
        }
    } else {
        match t.kind {
            AbiTyKind::Array { elem_size, len: Some(_), .. } => match t.layout {
                Err(e) => ConstBytes::Failed(ErrView::Lowering(t.id, e@)),
                Ok(_) => if elem_size > u32::MAX {
                    ConstBytes::Failed(ErrView::Internal("array element size exceeds u32"@))
                } else {
                    array_bytes_spec(t, es, 0, zeros(size))
                },
            },
            AbiTyKind::Record { union, fields } => match fields {
                Err(e) => ConstBytes::Failed(ErrView::Internal(record_def_message(e))),
                Ok(_) => match t.layout {
                    Err(e) => ConstBytes::Failed(ErrView::Lowering(t.id, e@)),
                    Ok(_) => if union {
                        union_bytes_spec(t, es, zeros(size))
                    } else {
                        struct_bytes_spec(t, es, 0, zeros(size))
                    },
                },
            },
            _ => ConstBytes::Failed(ErrView::Internal(not_aggregate_message(t.id))),
        }
    }
}

/// Bytes after placing elements `i..` of array type `t` into `acc`.
pub open spec fn array_bytes_spec(t: AbiTy, es: Seq<EntryView>, i: int, acc: Seq<u8>) -> ConstBytes
    decreases t, 1int, array_len(t) - i,
{
    match t.kind {
        AbiTyKind::Array { elem, elem_size, len: Some(n) } => if i < 0 || i >= n {
            ConstBytes::Bytes(acc)
        } else {
            match const_bytes_spec(*elem, select(es, Designator::Index(i as u64)), elem_size as nat) {
                ConstBytes::Bytes(b) => if i * elem_size > u64::MAX {
                    ConstBytes::Overflow
                } else {
                    match write_at(acc, (i * elem_size) as u64, b) {
                        None => ConstBytes::Overflow,
                        Some(a) => array_bytes_spec(t, es, i + 1, a),
                    }
                },
                other => other,
            }
        },
        _ => ConstBytes::Bytes(acc),
    }
}

/// Bytes after placing fields `i..` of struct type `t` into `acc`.
pub open spec fn struct_bytes_spec(t: AbiTy, es: Seq<EntryView>, i: int, acc: Seq<u8>) -> ConstBytes
    decreases t, 1int, field_count(t) - i,
{
    match t.kind {
        AbiTyKind::Record { fields: Ok(fs), .. } => if i < 0 || i >= fs@.len() {
            ConstBytes::Bytes(acc)
        } else if fs@[i].storage_size > u32::MAX {
            ConstBytes::Failed(ErrView::Internal("struct field size exceeds u32"@))
        } else {
            match const_bytes_spec(fs@[i].ty, select_field(es, i), fs@[i].storage_size as nat) {
                ConstBytes::Bytes(b) => match write_at(acc, fs@[i].offset, b) {
                    None => ConstBytes::Overflow,
                    Some(a) => struct_bytes_spec(t, es, i + 1, a),
                },
                other => other,
            }
        },
        _ => ConstBytes::Bytes(acc),
    }
}

/// Bytes of union type `t`: the member named by the first entry that names
/// a member is placed at offset zero.
pub open spec fn union_bytes_spec(t: AbiTy, es: Seq<EntryView>, acc: Seq<u8>) -> ConstBytes
    decreases t, 1int, 0int,
{
    match t.kind {
        AbiTyKind::Record { fields: Ok(fs), .. } => match first_field(es, 0) {
            None => ConstBytes::Bytes(acc),
            Some(k) => if k >= fs@.len() {
                ConstBytes::Failed(
                    ErrView::Internal("union field index "@ + decimal(k as nat) + " out of bounds"@),
                )
            } else if fs@[k as int].storage_size > u32::MAX {
                ConstBytes::Failed(ErrView::Internal("union field size exceeds u32"@))
            } else {
                match const_bytes_spec(
                    fs@[k as int].ty,
                    select_field(es, k as int),
                    fs@[k as int].storage_size as nat,
                ) {
                    ConstBytes::Bytes(b) => match write_at(acc, 0, b) {
                        None => ConstBytes::Overflow,
                        Some(a) => ConstBytes::Bytes(a),
                    },
                    other => other,
                }
            },
        },
        _ => ConstBytes::Bytes(acc),
    }
}

/// `r` is what the model result `s` describes.
pub open spec fn bytes_result_is(r: Result<Vec<u8>, CodegenError>, s: ConstBytes) -> bool {
    match s {
        ConstBytes::Bytes(b) => r matches Ok(v) && v@ == b,
        ConstBytes::Failed(e) => r matches Err(x) && err_view(x) == e,
        ConstBytes::Overflow => false,
    }
}

fn zero_bytes(n: u32) -> (v: Vec<u8>)
    ensures
        v@ == zeros(n as nat),
{
    let mut v: Vec<u8> = Vec::new();
    let mut k: u32 = 0;
    while k < n
        invariant
            k <= n,
            v@ =~= zeros(k as nat),
        decreases n - k,
    {
        v.push(0);
        k = k + 1;
    }
    v
}

fn scalar_bytes(v: ScalarConst, size: u32) -> (r: Vec<u8>)
    requires
        leaf_bytes(v, size as nat) is Some,
    ensures
        r@ == leaf_bytes(v, size as nat)->Some_0,
{
    let mut out: Vec<u8> = Vec::new();
    let mut i: u32 = 0;
    while i < size
        invariant
            i <= size,
            leaf_bytes(v, size as nat) is Some,
            out@ =~= leaf_bytes(v, size as nat)->Some_0.take(i as int),
        decreases size - i,
    {
        let b: u8 = match v {
            ScalarConst::Int(x) => ((x >> (8 * i) as u64) & 0xff) as u8,
            ScalarConst::Bits { bits, bytes } => if i < bytes {
                ((bits >> (8 * i) as u64) & 0xff) as u8
            } else {
                0
            },
            ScalarConst::Opaque => 0,
        };
        out.push(b);
        assert(leaf_bytes(v, size as nat)->Some_0.take(i + 1) =~= leaf_bytes(v, size as nat)->Some_0.take(
            i as int,
        ).push(b));
        i = i + 1;
    }
    assert(leaf_bytes(v, size as nat)->Some_0.take(size as int) =~= leaf_bytes(v, size as nat)->Some_0);
    out
}

fn write_bytes_at(dst: &mut Vec<u8>, offset: u64, src: Vec<u8>)
    requires
        write_at(old(dst)@, offset, src@) is Some,
    ensures
        final(dst)@ == write_at(old(dst)@, offset, src@)->Some_0,
{
    #[verifier::truncate]
    let start = offset as usize;
    let ghost target = write_at(dst@, offset, src@)->Some_0;
    let ghost before = dst@;
    let mut idx: usize = 0;
    while idx < src.len()
        invariant
            idx <= src@.len(),
            start == (offset as usize),
            src@.len() > 0 ==> start + src@.len() - 1 <= usize::MAX,
            dst@.len() == before.len(),
            target == write_at(before, offset, src@)->Some_0,
            write_at(before, offset, src@) is Some,
            forall|p: int|
                0 <= p < before.len() ==> #[trigger] dst@[p] == if start <= p < start + idx {
                    src@[p - start]
                } else {
                    before[p]
                },
        decreases src@.len() - idx,
    {
        let p = start + idx;
        if p < dst.len() {
            dst.set(p, src[idx]);
        }
        idx = idx + 1;
    }
    assert(dst@ =~= target);
}

fn strip_first(e: &InitEntry) -> (r: InitEntry)
    requires
        e.path@.len() > 0,
    ensures
        r@ == (e@.0.drop_first(), e@.1),
{
    let mut path: Vec<Designator> = Vec::new();
    let mut k: usize = 1;
    while k < e.path.len()
        invariant
            1 <= k <= e.path@.len(),
            path@ =~= e.path@.subrange(1, k as int),
        decreases e.path@.len() - k,
    {
        path.push(e.path[k]);
        k = k + 1;
    }
    let value = match &e.value {
        Ok(v) => Ok(*v),
        Err(x) => Err(copy_error(x)),
    };
    InitEntry { path, value }
}

fn select_entries(entries: &[InitEntry], d: Designator) -> (r: Vec<InitEntry>)
    ensures
        entries_view(r@) == select(entries_view(entries@), d),
{
    let ghost es = entries_view(entries@);
    let mut out: Vec<InitEntry> = Vec::new();
    let mut k: usize = 0;
    while k < entries.len()
        invariant
            k <= entries@.len(),
            es == entries_view(entries@),
            entries_view(out@) == select(es.take(k as int), d),
        decreases entries@.len() - k,
    {
        assert(es.take(k + 1).drop_last() =~= es.take(k as int));
        if entries[k].path.len() > 0 && entries[k].path[0] == d {
            let e = strip_first(&entries[k]);
            let ghost before = entries_view(out@);
            out.push(e);
            assert(entries_view(out@) =~= before.push(e@));
        }
        k = k + 1;
    }
    assert(es.take(entries@.len() as int) =~= es);
    out
}

fn select_field_entries(entries: &[InitEntry], i: usize) -> (r: Vec<InitEntry>)
    ensures
        entries_view(r@) == select_field(entries_view(entries@), i as int),
{
    let ghost es = entries_view(entries@);
    let mut out: Vec<InitEntry> = Vec::new();
    let mut k: usize = 0;
    while k < entries.len()
        invariant
            k <= entries@.len(),
            es == entries_view(entries@),
            entries_view(out@) == select_field(es.take(k as int), i as int),
        decreases entries@.len() - k,
    {
        assert(es.take(k + 1).drop_last() =~= es.take(k as int));
        let hit = entries[k].path.len() > 0 && match entries[k].path[0] {
            Designator::Field(f) => f as usize == i,
            Designator::Index(_) => false,
        };
        if hit {
            let e = strip_first(&entries[k]);
            let ghost before = entries_view(out@);
            out.push(e);
            assert(entries_view(out@) =~= before.push(e@));
        }
        k = k + 1;
    }
    assert(es.take(entries@.len() as int) =~= es);
    out
}

fn first_field_index(entries: &[InitEntry]) -> (r: Option<u32>)
    ensures
        r == first_field(entries_view(entries@), 0),
{
    let ghost es = entries_view(entries@);
    let mut k: usize = 0;
    while k < entries.len()
        invariant
            k <= entries@.len(),
            es == entries_view(entries@),
            first_field(es, 0) == first_field(es, k as int),
        decreases entries@.len() - k,
    {
        if entries[k].path.len() > 0 {
            if let Designator::Field(f) = entries[k].path[0] {
                return Some(f);
            }
        }
        k = k + 1;
    }
    None
}

fn internal_message(m: Vec<char>) -> (e: CodegenError)
    ensures
        err_view(e) == ErrView::Internal(m@),
{
    CodegenError::Internal(string_of(m.as_slice()))
}

fn record_def_internal(e: RecordDefError) -> (r: CodegenError)
    ensures
        err_view(r) == ErrView::Internal(record_def_message(e)),
{
    let mut m: Vec<char> = Vec::new();
    match e {
        RecordDefError::Missing(d) => {
            push_str(&mut m, "record definition DefId(");
            let digits = decimal_u64(d as u64);
            push_chars(&mut m, digits.as_slice());
            push_str(&mut m, ") not found");
        },
        RecordDefError::NotARecord(d) => {
            push_str(&mut m, "DefId(");
            let digits = decimal_u64(d as u64);
            push_chars(&mut m, digits.as_slice());
            push_str(&mut m, ") is not a record");
        },
    }
    internal_message(m)
}

/// Build the object representation bytes of a constant of type `t`
/// initialized by `entries`, `size` bytes long.
pub fn build_const_bytes(t: &AbiTy, entries: &[InitEntry], size: u32) -> (r: Result<Vec<u8>, CodegenError>)
    requires
        !(const_bytes_spec(*t, entries_view(entries@), size as nat) is Overflow),
    ensures
        bytes_result_is(r, const_bytes_spec(*t, entries_view(entries@), size as nat)),
    decreases *t, 2int,
{
    let ghost es = entries_view(entries@);
    if entries.len() == 0 {
        return Ok(zero_bytes(size));
    }
    if entries.len() == 1 && entries[0].path.len() == 0 {
        return match &entries[0].value {
            Err(e) => Err(copy_error(e)),
            Ok(v) => Ok(scalar_bytes(*v, size)),
        };
    }
    match &t.kind {
        AbiTyKind::Array { elem, elem_size, len: Some(n) } => {
            match &t.layout {
                Err(e) => return Err(CodegenError::TypeLowering { ty: t.id, reason: e.clone() }),
                Ok(_) => {},
            }
            if *elem_size > u32::MAX as u64 {
                let mut m: Vec<char> = Vec::new();
                push_str(&mut m, "array element size exceeds u32");
                return Err(internal_message(m));
            }
            let esz = *elem_size as u32;
            let mut bytes = zero_bytes(size);
            let mut i: u64 = 0;
            while i < *n
                invariant
                    i <= *n,
                    es == entries_view(entries@),
                    t.kind matches AbiTyKind::Array { elem: e, elem_size: s, len: Some(m) } && *e == **elem
                        && s == esz && m == *n,
                    const_bytes_spec(*t, es, size as nat) == array_bytes_spec(*t, es, 0, zeros(size as nat)),
                    array_bytes_spec(*t, es, 0, zeros(size as nat)) == array_bytes_spec(*t, es, i as int, bytes@),
                    !(array_bytes_spec(*t, es, i as int, bytes@) is Overflow),
                decreases *n - i,
            {
                let sub = select_entries(entries, Designator::Index(i));
                let eb = match build_const_bytes(elem, &sub, esz) {
                    Ok(b) => b,
                    Err(e) => return Err(e),
                };
                let off = i * (esz as u64);
                write_bytes_at(&mut bytes, off, eb);
                i = i + 1;
            }
            Ok(bytes)
        },
        AbiTyKind::Record { union, fields } => {
            let fs = match fields {
                Err(e) => return Err(record_def_internal(*e)),
                Ok(fs) => fs,
            };
            match &t.layout {
                Err(e) => return Err(CodegenError::TypeLowering { ty: t.id, reason: e.clone() }),
                Ok(_) => {},
            }
            let mut bytes = zero_bytes(size);
            if *union {
                let k = match first_field_index(entries) {
                    None => return Ok(bytes),
                    Some(k) => k,
                };
                if k as usize >= fs.len() {
                    let mut m: Vec<char> = Vec::new();
                    push_str(&mut m, "union field index ");
                    let digits = decimal_u64(k as u64);
                    push_chars(&mut m, digits.as_slice());
                    push_str(&mut m, " out of bounds");
                    return Err(internal_message(m));
                }
                let f: &AbiField = &fs[k as usize];
                if f.storage_size > u32::MAX as u64 {
                    let mut m: Vec<char> = Vec::new();
                    push_str(&mut m, "union field size exceeds u32");
                    return Err(internal_message(m));
                }
                let sub = select_field_entries(entries, k as usize);
                let fb = match build_const_bytes(&f.ty, &sub, f.storage_size as u32) {
                    Ok(b) => b,
                    Err(e) => return Err(e),
                };
                write_bytes_at(&mut bytes, 0, fb);
                return Ok(bytes);
            }
            let mut i: usize = 0;
            while i < fs.len()
                invariant
                    i <= fs@.len(),
                    es == entries_view(entries@),
                    t.kind matches AbiTyKind::Record { fields: Ok(x), union: u } && x@ == fs@ && !u,
                    const_bytes_spec(*t, es, size as nat) == struct_bytes_spec(*t, es, 0, zeros(size as nat)),
                    struct_bytes_spec(*t, es, 0, zeros(size as nat)) == struct_bytes_spec(*t, es, i as int, bytes@),
                    !(struct_bytes_spec(*t, es, i as int, bytes@) is Overflow),
                decreases fs@.len() - i,
            {
                let f: &AbiField = &fs[i];
                if f.storage_size > u32::MAX as u64 {
                    let mut m: Vec<char> = Vec::new();
                    push_str(&mut m, "struct field size exceeds u32");
                    return Err(internal_message(m));
                }
                let sub = select_field_entries(entries, i);
                let fb = match build_const_bytes(&f.ty, &sub, f.storage_size as u32) {
                    Ok(b) => b,
                    Err(e) => return Err(e),
                };
                write_bytes_at(&mut bytes, f.offset, fb);
                i = i + 1;
            }
            Ok(bytes)
        },
        _ => {
            let mut m: Vec<char> = Vec::new();
            push_str(&mut m, "expected scalar leaf or aggregate type for byte initializer, got TyId(");
            let digits = decimal_u64(t.id.0 as u64);
            push_chars(&mut m, digits.as_slice());
            push_str(&mut m, ")");
            Err(internal_message(m))
        },
    }
}


/// What a record constant is made of, one level deep.
#[derive(Debug)]
pub enum RecordConst {
    /// A struct: for each field in order, the entries that initialize it,
    /// with the field step removed.
    Struct(Vec<Vec<InitEntry>>),
    /// A union, laid out as one byte array of `size` bytes: the bytes of the
    /// member named by the first entry that names one, or all zeros
    /// (`None`) when no entry names a member.
    Union { size: u32, bytes: Option<Vec<u8>> },
}

/// A record constant, as values.
pub enum RecordPlan {
    Struct(Seq<Seq<EntryView>>),
    Union { size: u32, bytes: Option<Seq<u8>> },
    Failed(ErrView),
    Overflow,
}

/// The record constant of record type `t` initialized by `es`: a struct
/// hands each field the entries that start with its number; a union takes
/// its size from the layout, which must fit in 32 bits, and fills it with
/// the bytes of the member that the first member-naming entry names.
/// Only record types are asked for; any other type is left as a failure
/// that nothing reaches.
pub open spec fn record_const_spec(t: AbiTy, es: Seq<EntryView>) -> RecordPlan {
    match t.kind {
        AbiTyKind::Record { union, fields } => match fields {
            Err(e) => RecordPlan::Failed(ErrView::Internal(record_def_message(e))),
            Ok(fs) => if !union {
                RecordPlan::Struct(Seq::new(fs@.len(), |i: int| select_field(es, i)))
            } else {
                match t.layout {
                    Err(e) => RecordPlan::Failed(ErrView::Lowering(t.id, e@)),
                    Ok(l) => if l.size > u32::MAX {
                        RecordPlan::Failed(ErrView::Internal("union size exceeds u32"@))
                    } else {
                        match first_field(es, 0) {
                            None => RecordPlan::Union { size: l.size as u32, bytes: None },
                            Some(k) => if k >= fs@.len() {
                                RecordPlan::Failed(
                                    ErrView::Internal("union field index "@ + decimal(k as nat) + " out of bounds"@),
                                )
                            } else {
                                match const_bytes_spec(fs@[k as int].ty, select_field(es, k as int), l.size as nat) {
                                    ConstBytes::Bytes(b) => RecordPlan::Union { size: l.size as u32, bytes: Some(b) },
                                    ConstBytes::Failed(e) => RecordPlan::Failed(e),
                                    ConstBytes::Overflow => RecordPlan::Overflow,
                                }
                            },
                        }
                    },
                }
            },
        },
        _ => RecordPlan::Failed(ErrView::Disabled),
    }
}

/// `r` is what the model plan `s` describes.
pub open spec fn record_const_is(r: Result<RecordConst, CodegenError>, s: RecordPlan) -> bool {
    match s {
        RecordPlan::Struct(subs) => r matches Ok(RecordConst::Struct(v)) && v@.len() == subs.len() && forall|
            i: int,
        |
            0 <= i < subs.len() ==> entries_view(#[trigger] v@[i]@) == subs[i],
        RecordPlan::Union { size, bytes } => r matches Ok(RecordConst::Union { size: z, bytes: b }) && z == size
            && match bytes {
            None => b is None,
            Some(x) => b matches Some(y) && y@ == x,
        },
        RecordPlan::Failed(e) => r matches Err(x) && err_view(x) == e,
        RecordPlan::Overflow => false,
    }
}

/// Work out what the constant of record type `t` initialized by `entries`
/// is made of.
pub fn record_const_plan(t: &AbiTy, entries: &[InitEntry]) -> (r: Result<RecordConst, CodegenError>)
    requires
        t.kind is Record,
        !(record_const_spec(*t, entries_view(entries@)) is Overflow),
    ensures
        record_const_is(r, record_const_spec(*t, entries_view(entries@))),
{
    let ghost es = entries_view(entries@);
    let (union, fs) = match &t.kind {
        AbiTyKind::Record { union, fields } => match fields {
            Err(e) => return Err(record_def_internal(*e)),
            Ok(fs) => (*union, fs),
        },
        _ => {
            assert(false);
            return Err(CodegenError::BackendDisabled);
        },
    };
    if !union {
        let mut subs: Vec<Vec<InitEntry>> = Vec::new();
        let mut i: usize = 0;
        while i < fs.len()
            invariant
                i <= fs@.len(),
                es == entries_view(entries@),
                subs@.len() == i,
                forall|j: int| 0 <= j < i ==> entries_view(#[trigger] subs@[j]@) == select_field(es, j),
            decreases fs@.len() - i,
        {
            let sub = select_field_entries(entries, i);
            subs.push(sub);
            i = i + 1;
        }
        return Ok(RecordConst::Struct(subs));
    }
    let size: u32 = match &t.layout {
        Err(e) => return Err(CodegenError::TypeLowering { ty: t.id, reason: e.clone() }),
        Ok(l) => {
            if l.size > u32::MAX as u64 {
                let mut m: Vec<char> = Vec::new();
                push_str(&mut m, "union size exceeds u32");
                return Err(internal_message(m));
            }
            l.size as u32
        },
    };
    let k = match first_field_index(entries) {
        None => return Ok(RecordConst::Union { size, bytes: None }),
        Some(k) => k,
    };
    if k as usize >= fs.len() {
        let mut m: Vec<char> = Vec::new();
        push_str(&mut m, "union field index ");
        let digits = decimal_u64(k as u64);
        push_chars(&mut m, digits.as_slice());
        push_str(&mut m, " out of bounds");
        return Err(internal_message(m));
    }
    let sub = select_field_entries(entries, k as usize);
    match build_const_bytes(&fs[k as usize].ty, &sub, size) {
        Ok(b) => Ok(RecordConst::Union { size, bytes: Some(b) }),
        Err(e) => Err(e),
    }
}

/// What a constant of some type is made of, one level deep.
#[derive(Debug)]
pub enum ConstValue {
    /// No entry: the type's zero value.
    Zero,
    /// One entry with an empty path: its constant, taken at the type.
    Leaf,
    /// An array: for each element in order, the entries that initialize it,
    /// with the index step removed.
    Array(Vec<Vec<InitEntry>>),
    /// A record.
    Record(RecordConst),
}

/// A constant, as values.
pub enum ValuePlan {
    Zero,
    Leaf,
    Array(Seq<Seq<EntryView>>),
    Record(RecordPlan),
    Failed(ErrView),
}

/// Message of a type that cannot take a nested initializer.
pub open spec fn not_nested_message(ty: TyId) -> Seq<char> {
    "expected aggregate type for nested global initializer, got TyId("@ + decimal(ty.0 as nat) + ")"@
}

/// The constant of type `t` initialized by `es`: zero when nothing
/// initializes it, the leaf constant when one entry reaches it directly,
/// else an array of known length (which must fit in 32 bits) whose elements
/// take the entries starting with their index, or a record.
pub open spec fn const_value_spec(t: AbiTy, es: Seq<EntryView>) -> ValuePlan {
    if es.len() == 0 {
        ValuePlan::Zero
    } else if es.len() == 1 && es[0].0.len() == 0 {
        ValuePlan::Leaf
    } else {
        match t.kind {
            AbiTyKind::Array { len: Some(n), .. } => if n > u32::MAX {
                ValuePlan::Failed(ErrView::Internal("array length exceeds u32"@))
            } else {
                ValuePlan::Array(Seq::new(n as nat, |i: int| select(es, Designator::Index(i as u64))))
            },
            AbiTyKind::Record { .. } => ValuePlan::Record(record_const_spec(t, es)),
            _ => ValuePlan::Failed(ErrView::Internal(not_nested_message(t.id))),
        }
    }
}

/// `r` is what the model plan `s` describes.
pub open spec fn const_value_is(r: Result<ConstValue, CodegenError>, s: ValuePlan) -> bool {
    match s {
        ValuePlan::Zero => r matches Ok(ConstValue::Zero),
        ValuePlan::Leaf => r matches Ok(ConstValue::Leaf),
        ValuePlan::Array(subs) => r matches Ok(ConstValue::Array(v)) && v@.len() == subs.len() && forall|i: int|
            0 <= i < subs.len() ==> entries_view(#[trigger] v@[i]@) == subs[i],
        ValuePlan::Record(p) => match p {
            RecordPlan::Failed(e) => r matches Err(x) && err_view(x) == e,
            _ => r matches Ok(ConstValue::Record(c)) && record_const_is(Ok(c), p),
        },
        ValuePlan::Failed(e) => r matches Err(x) && err_view(x) == e,
    }
}

/// Work out what the constant of type `t` initialized by `entries` is made
/// of.
pub fn const_value_plan(t: &AbiTy, entries: &[InitEntry]) -> (r: Result<ConstValue, CodegenError>)
    requires
        !(const_value_spec(*t, entries_view(entries@)) matches ValuePlan::Record(RecordPlan::Overflow)),
    ensures
        const_value_is(r, const_value_spec(*t, entries_view(entries@))),
{
    let ghost es = entries_view(entries@);
    if entries.len() == 0 {
        return Ok(ConstValue::Zero);
    }
    if entries.len() == 1 && entries[0].path.len() == 0 {
        return Ok(ConstValue::Leaf);
    }
    match &t.kind {
        AbiTyKind::Array { len: Some(n), .. } => {
            if *n > u32::MAX as u64 {
                let mut m: Vec<char> = Vec::new();
                push_str(&mut m, "array length exceeds u32");
                return Err(internal_message(m));
            }
            let mut subs: Vec<Vec<InitEntry>> = Vec::new();
            let mut i: u64 = 0;
            while i < *n
                invariant
                    i <= *n,
                    es == entries_view(entries@),
                    subs@.len() == i,
                    forall|j: int|
                        0 <= j < i ==> entries_view(#[trigger] subs@[j]@) == select(es, Designator::Index(j as u64)),
                decreases *n - i,
            {
                let sub = select_entries(entries, Designator::Index(i));
                subs.push(sub);
                i = i + 1;
            }
            Ok(ConstValue::Array(subs))
        },
        AbiTyKind::Record { .. } => match record_const_plan(t, entries) {
            Ok(c) => Ok(ConstValue::Record(c)),
            Err(e) => Err(e),
        },
        _ => {
            let mut m: Vec<char> = Vec::new();
            push_str(&mut m, "expected aggregate type for nested global initializer, got TyId(");
            let digits = decimal_u64(t.id.0 as u64);
            push_chars(&mut m, digits.as_slice());
            push_str(&mut m, ")");
            Err(internal_message(m))
        },
    }
}

} // verus!
