//! What the back end tells a debugger about each C type: the DWARF basic,
//! pointer, array and record descriptions, decided from plain facts about
//! the type (its kind, its layout, its definition).

use vstd::prelude::*;

use crate::abi::{err_view, is_lowering_error, CodegenError, ErrView, FloatKind, Layout, RecordDefError, TyId};
use crate::lowering::{debug_int_spec, debug_int_type, IntRank};
use crate::text::{push_str, string_of};

verus! {

/// The definition of a record type, as debug info names it.
#[derive(Clone, Debug, PartialEq, Eq)]
pub struct DebugRecordDef {
    /// A union rather than a struct.
    pub union: bool,
    /// The record's tag name.
    pub name: String,
    /// Source line of the definition (0 when it has no location).
    pub line: u32,
}

/// A C type, with what debug info needs to know of it.
#[derive(Debug)]
pub enum DebugTyKind {
    Void,
    Int { signed: bool, rank: IntRank },
    Float(FloatKind),
    /// A complex type and its layout, or the text of the layout error.
    Complex { kind: FloatKind, layout: Result<Layout, String> },
    /// A pointer to the given type.
    Ptr(TyId),
    /// An array: element type, element layout (or the layout error's
    /// text), declared length, and whether it is variable-length.
    Array { elem: TyId, elem_layout: Result<Layout, String>, len: Option<u64>, is_vla: bool },
    /// A record: its definition (or why it cannot be used) and its layout
    /// (or the layout error's text).
    Record { def: Result<DebugRecordDef, RecordDefError>, layout: Result<Layout, String> },
    /// An enum and its tag name, when its definition is known.
    Enum { name: Option<String> },
    Func,
    BuiltinVaList,
    Error,
}

/// A type id with its debug-relevant facts.
#[derive(Debug)]
pub struct DebugTy {
    pub id: TyId,
    pub kind: DebugTyKind,
}

/// The type a debug pointer type points to.
#[derive(Copy, Clone, Debug, PartialEq, Eq, Structural)]
pub enum DebugPointee {
    /// The description of this type.
    Ty(TyId),
    /// The description of `void`.
    Void,
    /// The description of plain `char`.
    Char,
}

/// A DWARF type description. Sizes and alignments are in bits.
#[derive(Clone, Debug, PartialEq, Eq)]
pub enum DebugTypeDesc {
    /// A base type with its name and DWARF encoding.
    Basic { name: String, size_bits: u64, encoding: u32 },
    /// A pointer type.
    Pointer { name: String, pointee: DebugPointee, size_bits: u64, align_bits: u32 },
    /// An array of the given element type with one subrange `0..range_end`.
    Array { elem: TyId, size_bits: u64, align_bits: u32, range_end: i64 },
    /// A struct or union without member descriptions, with its unique id.
    Record { union: bool, name: String, line: u32, size_bits: u64, align_bits: u32, unique_id: String },
}

/// `a * b`, or `u64::MAX` when that overflows.
pub open spec fn sat_mul_u64(a: u64, b: u64) -> u64 {
    if a * b > u64::MAX {
        u64::MAX
    } else {
        (a * b) as u64
    }
}

/// `a * b`, or `u32::MAX` when that overflows.
pub open spec fn sat_mul_u32(a: u32, b: u32) -> u32 {
    if a * b > u32::MAX {
        u32::MAX
    } else {
        (a * b) as u32
    }
}

fn saturating_mul_u64(a: u64, b: u64) -> (r: u64)
    ensures
        r == sat_mul_u64(a, b),
{
    match a.checked_mul(b) {
        Some(v) => v,
        None => u64::MAX,
    }
}

fn saturating_mul_u32(a: u32, b: u32) -> (r: u32)
    ensures
        r == sat_mul_u32(a, b),
{
    match a.checked_mul(b) {
        Some(v) => v,
        None => u32::MAX,
    }
}

/// DWARF name and width of a real floating type.
pub open spec fn float_debug_spec(kind: FloatKind) -> (Seq<char>, u64) {
    match kind {
        FloatKind::F32 => ("float"@, 32),
        FloatKind::F64 => ("double"@, 64),
        FloatKind::F80 => ("long double"@, 128),
    }
}

/// DWARF name of a complex floating type.
pub open spec fn complex_debug_name(kind: FloatKind) -> Seq<char> {
    match kind {
        FloatKind::F32 => "_Complex float"@,
        FloatKind::F64 => "_Complex double"@,
        FloatKind::F80 => "_Complex long double"@,
    }
}

/// Number of elements that the debug array type of an array declares:
/// none for a variable-length array or one without a length.
pub open spec fn debug_array_count(len: Option<u64>, is_vla: bool) -> u64 {
    if is_vla {
        0
    } else {
        match len {
            Some(n) => n,
            None => 0,
        }
    }
}

/// The record kind's keyword.
pub open spec fn record_tag(union: bool) -> Seq<char> {
    if union {
        "union"@
    } else {
        "struct"@
    }
}

/// Why a type has no debug description, if it has none.
pub open spec fn debug_error(k: DebugTyKind) -> Option<Seq<char>> {
    match k {
        DebugTyKind::Complex { layout: Err(e), .. } => Some(e@),
        DebugTyKind::Array { elem_layout: Err(e), .. } => Some(e@),
        DebugTyKind::Record { def: Err(RecordDefError::Missing(_)), .. } => Some(
            "record definition is missing"@,
        ),
        DebugTyKind::Record { def: Err(RecordDefError::NotARecord(_)), .. } => Some(
            "record definition id does not name a record"@,
        ),
        DebugTyKind::Record { def: Ok(_), layout: Err(e) } => Some(e@),
        DebugTyKind::Error => Some("error type has no debug metadata"@),
        _ => None,
    }
}

/// `d` is the debug description of a type of kind `k`.
pub open spec fn describes(k: DebugTyKind, d: DebugTypeDesc) -> bool {
    match k {
        DebugTyKind::Void => d matches DebugTypeDesc::Basic { name, size_bits, encoding } && name@
            == "void"@ && size_bits == 0 && encoding == 0,
        DebugTyKind::Int { signed, rank } => {
            let (n, b, e) = debug_int_spec(signed, rank);
            d matches DebugTypeDesc::Basic { name, size_bits, encoding } && name@ == n && size_bits == b
                && encoding == e
        },
        DebugTyKind::Float(kind) => {
            let (n, b) = float_debug_spec(kind);
            d matches DebugTypeDesc::Basic { name, size_bits, encoding } && name@ == n && size_bits == b
                && encoding == 0x04
        },
        DebugTyKind::Complex { kind, layout: Ok(l) } => d matches DebugTypeDesc::Basic {
            name,
            size_bits,
            encoding,
        } && name@ == complex_debug_name(kind) && size_bits == l.size * 8 && encoding == 0x04,
        DebugTyKind::Ptr(p) => d matches DebugTypeDesc::Pointer { name, pointee, size_bits, align_bits }
            && name@ == ""@ && pointee == DebugPointee::Ty(p) && size_bits == 64 && align_bits == 64,
        DebugTyKind::Array { elem: el, elem_layout: Ok(l), len, is_vla } => {
            let count = debug_array_count(len, is_vla);
            d matches DebugTypeDesc::Array { elem, size_bits, align_bits, range_end } && elem == el
                && size_bits == sat_mul_u64(sat_mul_u64(l.size, count), 8) && align_bits == sat_mul_u32(
                l.align,
                8,
            ) && range_end == (if count > i64::MAX {
                i64::MAX as int
            } else {
                count as int
            })
        },
        DebugTyKind::Record { def: Ok(r), layout: Ok(l) } => d matches DebugTypeDesc::Record {
            union,
            name,
            line,
            size_bits,
            align_bits,
            unique_id,
        } && union == r.union && name@ == r.name@ && line == r.line && size_bits == sat_mul_u64(l.size, 8)
            && align_bits == sat_mul_u32(l.align, 8) && unique_id@ == "rcc."@ + record_tag(r.union) + "."@
            + r.name@,
        DebugTyKind::Enum { name: tag } => d matches DebugTypeDesc::Basic { name, size_bits, encoding }
            && name@ == "enum "@ + (match tag {
            Some(t) => t@,
            None => "enum"@,
        }) && size_bits == 32 && encoding == 0x05,
        DebugTyKind::Func => d matches DebugTypeDesc::Pointer { name, pointee, size_bits, align_bits }
            && name@ == "function pointer"@ && pointee == DebugPointee::Void && size_bits == 64
            && align_bits == 64,
        DebugTyKind::BuiltinVaList => d matches DebugTypeDesc::Pointer {
            name,
            pointee,
            size_bits,
            align_bits,
        } && name@ == "__builtin_va_list"@ && pointee == DebugPointee::Char && size_bits == 64
            && align_bits == 64,
        _ => false,
    }
}

/// The complex layout of `k`, when it has one, fits in bits.
pub open spec fn debug_ty_sizes_fit(k: DebugTyKind) -> bool {
    match k {
        DebugTyKind::Complex { layout: Ok(l), .. } => l.size * 8 <= u64::MAX,
        _ => true,
    }
}

fn basic(name: &str, size_bits: u64, encoding: u32) -> (d: DebugTypeDesc)
    ensures
        d matches DebugTypeDesc::Basic { name: n, size_bits: s, encoding: e } && n@ == name@ && s
            == size_bits && e == encoding,
{
    DebugTypeDesc::Basic { name: name.to_string(), size_bits, encoding }
}

fn pointer(name: &str, pointee: DebugPointee) -> (d: DebugTypeDesc)
    ensures
        d matches DebugTypeDesc::Pointer { name: n, pointee: p, size_bits, align_bits } && n@ == name@
            && p == pointee && size_bits == 64 && align_bits == 64,
{
    DebugTypeDesc::Pointer { name: name.to_string(), pointee, size_bits: 64, align_bits: 64 }
}

fn lowering_error_text(ty: TyId, reason: &String) -> (e: CodegenError)
    ensures
        is_lowering_error(e, ty, reason@),
{
    CodegenError::TypeLowering { ty, reason: reason.clone() }
}

fn lowering_error_str(ty: TyId, reason: &str) -> (e: CodegenError)
    ensures
        is_lowering_error(e, ty, reason@),
{
    CodegenError::TypeLowering { ty, reason: reason.to_string() }
}

/// The debug description of one type, when debug info is on (`enabled`).
/// A pointer, array, function or `va_list` description refers to the
/// description of another type, which the caller makes first (for an
/// array, before the element layout is consulted).
pub fn debug_type_desc(t: &DebugTy, enabled: bool) -> (r: Result<DebugTypeDesc, CodegenError>)
    requires
        debug_ty_sizes_fit(t.kind),
    ensures
        !enabled ==> r is Err && err_view(r->Err_0) == ErrView::Internal("debug info is disabled"@),
        enabled ==> (r is Err <==> debug_error(t.kind) is Some),
        enabled ==> (r matches Err(e) ==> is_lowering_error(e, t.id, debug_error(t.kind)->Some_0)),
        r matches Ok(d) ==> describes(t.kind, d),
{
    if !enabled {
        return Err(CodegenError::Internal("debug info is disabled".to_string()));
    }
    match &t.kind {
        DebugTyKind::Void => Ok(basic("void", 0, 0x00)),
        DebugTyKind::Int { signed, rank } => {
            let (name, bits, encoding) = debug_int_type(*signed, *rank);
            Ok(basic(name, bits, encoding))
        },
        DebugTyKind::Float(kind) => {
            let (name, bits): (&str, u64) = match kind {
                FloatKind::F32 => ("float", 32),
                FloatKind::F64 => ("double", 64),
                FloatKind::F80 => ("long double", 128),
            };
            Ok(basic(name, bits, 0x04))
        },
        DebugTyKind::Complex { kind, layout } => {
            let name = match kind {
                FloatKind::F32 => "_Complex float",
                FloatKind::F64 => "_Complex double",
                FloatKind::F80 => "_Complex long double",
            };
            match layout {
                Ok(l) => Ok(basic(name, l.size * 8, 0x04)),
                Err(e) => Err(lowering_error_text(t.id, e)),
            }
        },
        DebugTyKind::Ptr(p) => Ok(pointer("", DebugPointee::Ty(*p))),
        DebugTyKind::Array { elem, elem_layout, len, is_vla } => {
            let l = match elem_layout {
                Ok(l) => l,
                Err(e) => {
                    return Err(lowering_error_text(t.id, e));
                },
            };
            let count: u64 = if *is_vla {
                0
            } else {
                match len {
                    Some(n) => *n,
                    None => 0,
                }
            };
            let size = saturating_mul_u64(saturating_mul_u64(l.size, count), 8);
            let range_end: i64 = if count > i64::MAX as u64 {
                i64::MAX
            } else {
                count as i64
            };
            Ok(
                DebugTypeDesc::Array {
                    elem: *elem,
                    size_bits: size,
                    align_bits: saturating_mul_u32(l.align, 8),
                    range_end,
                },
            )
        },
        DebugTyKind::Record { def, layout } => {
            let r = match def {
                Ok(r) => r,
                Err(RecordDefError::Missing(_)) => {
                    return Err(lowering_error_str(t.id, "record definition is missing"));
                },
                Err(RecordDefError::NotARecord(_)) => {
                    return Err(lowering_error_str(t.id, "record definition id does not name a record"));
                },
            };
            let l = match layout {
                Ok(l) => l,
                Err(e) => {
                    return Err(lowering_error_text(t.id, e));
                },
            };
            let mut id: Vec<char> = Vec::new();
            push_str(&mut id, "rcc.");
            push_str(&mut id, if r.union { "union" } else { "struct" });
            push_str(&mut id, ".");
            push_str(&mut id, r.name.as_str());
            Ok(
                DebugTypeDesc::Record {
                    union: r.union,
                    name: r.name.clone(),
                    line: r.line,
                    size_bits: saturating_mul_u64(l.size, 8),
                    align_bits: saturating_mul_u32(l.align, 8),
                    unique_id: string_of(id.as_slice()),
                },
            )
        },
        DebugTyKind::Enum { name } => {
            let mut v: Vec<char> = Vec::new();
            push_str(&mut v, "enum ");
            match name {
                Some(n) => push_str(&mut v, n.as_str()),
                None => push_str(&mut v, "enum"),
            }
            Ok(DebugTypeDesc::Basic { name: string_of(v.as_slice()), size_bits: 32, encoding: 0x05 })
        },
        DebugTyKind::Func => Ok(pointer("function pointer", DebugPointee::Void)),
        DebugTyKind::BuiltinVaList => Ok(pointer("__builtin_va_list", DebugPointee::Char)),
        DebugTyKind::Error => Err(lowering_error_str(t.id, "error type has no debug metadata")),
    }
}

/// A local of a function body, as its debug declaration sees it.
#[derive(Debug)]
pub struct DebugLocal {
    /// The symbol of its source name, if it has one.
    pub name: Option<u32>,
    /// A variable-length array.
    pub is_vla: bool,
    /// The local has a (non-null) stack slot.
    pub has_storage: bool,
    pub is_param: bool,
    /// Its type's alignment in bytes, if its layout is known.
    pub align: Option<u32>,
    /// Whether its type could be described to the debugger: the error of
    /// describing it otherwise.
    pub debug_ty: Result<(), CodegenError>,
}

/// How a local is declared to the debugger.
#[derive(Copy, Clone, Debug, PartialEq, Eq, Structural)]
pub enum DebugVarKind {
    /// A parameter, with its 1-based argument number.
    Param(u32),
    /// A local variable aligned to this many bits.
    Auto { align_bits: u32 },
}

/// One debug variable declaration.
#[derive(Copy, Clone, Debug, PartialEq, Eq, Structural)]
pub struct DebugVar {
    pub local: u32,
    pub name: u32,
    pub kind: DebugVarKind,
}

/// `p + 1`, or `u32::MAX` when that overflows.
pub open spec fn sat_inc(p: u32) -> u32 {
    if p == u32::MAX {
        u32::MAX
    } else {
        (p + 1) as u32
    }
}

/// The declarations for the first `n` locals, and the argument number of
/// the next parameter; or the error of describing the type of the first of
/// them that is declared. Unnamed locals, variable-length arrays and locals
/// without a stack slot are left out; parameters are numbered from 1.
pub open spec fn debug_vars_prefix(ls: Seq<DebugLocal>, n: nat) -> Result<(Seq<DebugVar>, u32), ErrView>
    decreases n,
{
    if n == 0 {
        Ok((Seq::empty(), 1u32))
    } else {
        match debug_vars_prefix(ls, (n - 1) as nat) {
            Err(e) => Err(e),
            Ok((v, p)) => {
                let d = ls[n - 1];
                if d.name is None || d.is_vla || !d.has_storage {
                    Ok((v, p))
                } else if d.debug_ty is Err {
                    Err(err_view(d.debug_ty->Err_0))
                } else if d.is_param {
                    Ok(
                        (
                            v.push(
                                DebugVar { local: (n - 1) as u32, name: d.name->Some_0, kind: DebugVarKind::Param(p) },
                            ),
                            sat_inc(p),
                        ),
                    )
                } else {
                    let a = match d.align {
                        Some(a) => a,
                        None => 1u32,
                    };
                    Ok(
                        (
                            v.push(
                                DebugVar {
                                    local: (n - 1) as u32,
                                    name: d.name->Some_0,
                                    kind: DebugVarKind::Auto { align_bits: sat_mul_u32(a, 8) },
                                },
                            ),
                            p,
                        ),
                    )
                }
            },
        }
    }
}

proof fn lemma_debug_vars_err(ls: Seq<DebugLocal>, k: nat, m: nat)
    requires
        k <= m,
        debug_vars_prefix(ls, k) is Err,
    ensures
        debug_vars_prefix(ls, m) == debug_vars_prefix(ls, k),
    decreases m - k,
{
    if k < m {
        lemma_debug_vars_err(ls, k, (m - 1) as nat);
    }
}

/// The debug variable declarations of a body's locals, in order; none when
/// debug info is off (`enabled` is false: no debug info, no subprogram or
/// no entry block for the function).
pub fn debug_variables(locals: &[DebugLocal], enabled: bool) -> (r: Result<Vec<DebugVar>, CodegenError>)
    requires
        locals@.len() <= u32::MAX,
    ensures
        !enabled ==> (r matches Ok(v) && v@.len() == 0),
        enabled ==> match debug_vars_prefix(locals@, locals@.len()) {
            Ok((vs, _)) => r matches Ok(v) && v@ == vs,
            Err(e) => r is Err && err_view(r->Err_0) == e,
        },
{
    let mut out: Vec<DebugVar> = Vec::new();
    if !enabled {
        return Ok(out);
    }
    let mut param_index: u32 = 1;
    for i in 0..locals.len()
        invariant
            enabled,
            locals@.len() <= u32::MAX,
            debug_vars_prefix(locals@, i as nat) == Ok::<(Seq<DebugVar>, u32), ErrView>((out@, param_index)),
    {
        let d = &locals[i];
        if let Some(name) = d.name {
            if !d.is_vla && d.has_storage {
                if let Err(e) = &d.debug_ty {
                    proof {
                        lemma_debug_vars_err(locals@, (i + 1) as nat, locals@.len());
                    }
                    return Err(crate::const_bytes::copy_error(e));
                }
                if d.is_param {
                    out.push(DebugVar { local: i as u32, name, kind: DebugVarKind::Param(param_index) });
                    param_index = if param_index == u32::MAX {
                        u32::MAX
                    } else {
                        param_index + 1
                    };
                } else {
                    let a: u32 = match d.align {
                        Some(a) => a,
                        None => 1,
                    };
                    out.push(
                        DebugVar {
                            local: i as u32,
                            name,
                            kind: DebugVarKind::Auto { align_bits: saturating_mul_u32(a, 8) },
                        },
                    );
                }
            }
        }
    }
    Ok(out)
}

} // verus!
