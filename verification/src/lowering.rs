//! Small decisions of the LLVM lowering that do not need LLVM itself:
//! bit-field storage widths and masks, ABI unit offsets, alignment checks,
//! linkage selection and the debug-info description of integer types.
use vstd::prelude::*;
use crate::abi::{CodegenError, Layout, TyId};
use crate::text::{decimal, decimal_u64, push_chars, push_str, string_of};

verus! {

/// The internal error whose message is `m`.
pub open spec fn is_internal(e: CodegenError, m: Seq<char>) -> bool {
    e matches CodegenError::Internal(s) && s@ == m
}

fn internal(m: Vec<char>) -> (e: CodegenError)
    ensures
        is_internal(e, m@),
{
    CodegenError::Internal(string_of(m.as_slice()))
}

/// Message of an unsupported bit-field width.
pub open spec fn unsupported_bits_message(bits: u32, what: Seq<char>) -> Seq<char> {
    "unsupported "@ + decimal(bits as nat) + "-bit bit-field "@ + what
}

fn unsupported_bits(bits: u32, what: &str) -> (e: CodegenError)
    ensures
        is_internal(e, unsupported_bits_message(bits, what@)),
{
    let mut v: Vec<char> = Vec::new();
    push_str(&mut v, "unsupported ");
    let digits = decimal_u64(bits as u64);
    push_chars(&mut v, digits.as_slice());
    push_str(&mut v, "-bit bit-field ");
    push_str(&mut v, what);
    internal(v)
}

/// Width in bits of a bit-field storage unit of `storage_size` bytes: one
/// to sixty-four bits, else an internal error.
pub fn storage_bits_for_bitfield(storage_size: u64) -> (r: Result<u32, CodegenError>)
    ensures
        storage_size * 8 > u64::MAX ==> r is Err && is_internal(
            r->Err_0,
            "bit-field storage size overflowed"@,
        ),
        u64::MAX >= storage_size * 8 > u32::MAX ==> r is Err && is_internal(
            r->Err_0,
            "bit-field storage unit exceeds u32 bits"@,
        ),
        storage_size * 8 <= u32::MAX ==> (if 1 <= storage_size * 8 <= 64 {
            r == Ok::<u32, CodegenError>((storage_size * 8) as u32)
        } else {
            r is Err && is_internal(
                r->Err_0,
                unsupported_bits_message((storage_size * 8) as u32, "storage unit"@),
            )
        }),
{
    let bits = match storage_size.checked_mul(8) {
        Some(b) => b,
        None => {
            let mut v: Vec<char> = Vec::new();
            push_str(&mut v, "bit-field storage size overflowed");
            return Err(internal(v));
        },
    };
    if bits > u32::MAX as u64 {
        let mut v: Vec<char> = Vec::new();
        push_str(&mut v, "bit-field storage unit exceeds u32 bits");
        return Err(internal(v));
    }
    let bits = bits as u32;
    if bits == 0 || bits > 64 {
        return Err(unsupported_bits(bits, "storage unit"));
    }
    Ok(bits)
}

/// The mask of the low `bits` bits of a 64-bit word.
pub open spec fn low_mask(bits: u32) -> u64 {
    if bits >= 64 {
        u64::MAX
    } else {
        ((1u64 << bits) - 1) as u64
    }
}

/// Mask of the low `bits` bits, for widths of one to sixty-four bits.
pub fn bit_mask(bits: u32) -> (r: Result<u64, CodegenError>)
    ensures
        1 <= bits <= 64 ==> r is Ok && r->Ok_0 + 1 == vstd::arithmetic::power2::pow2(bits as nat),
        1 <= bits <= 64 ==> r is Ok && r->Ok_0 == low_mask(bits),
        !(1 <= bits <= 64) ==> r is Err && is_internal(
            r->Err_0,
            unsupported_bits_message(bits, "mask width"@),
        ),
{
    if bits == 0 || bits > 64 {
        return Err(unsupported_bits(bits, "mask width"));
    }
    if bits == 64 {
        proof {
            vstd::arithmetic::power2::lemma2_to64_rest();
        }
        Ok(u64::MAX)
    } else {
        let one: u64 = 1;
        let sh: u64 = bits as u64;
        proof {
            vstd::bits::lemma_u64_pow2_no_overflow(sh as nat);
            vstd::bits::lemma_u64_shl_is_mul(one, sh);
        }
        let m = (one << sh) - 1;
        Ok(m)
    }
}

/// Byte offset of ABI unit `index` (units are eightbytes).
pub fn abi_unit_offset(index: usize, context: &str) -> (r: Result<u64, CodegenError>)
    ensures
        index * 8 <= u64::MAX ==> r == Ok::<u64, CodegenError>((index * 8) as u64),
        index * 8 > u64::MAX ==> r is Err && is_internal(
            r->Err_0,
            context@ + " unit offset overflowed"@,
        ),
{
    match (index as u64).checked_mul(8) {
        Some(o) => Ok(o),
        None => {
            let mut v: Vec<char> = Vec::new();
            push_str(&mut v, context);
            push_str(&mut v, " unit offset overflowed");
            Err(internal(v))
        },
    }
}

/// Whether `n` is a power of two.
pub open spec fn is_power_of_two(n: u32) -> bool {
    exists|k: nat| k < 32 && #[trigger] vstd::arithmetic::power2::pow2(k) == n
}

/// The alignment of a memory access to a value of type `ty`: its layout's
/// alignment when that is a power of two.
pub fn layout_align(ty: TyId, layout: Layout) -> (r: Result<u32, CodegenError>)
    ensures
        is_power_of_two(layout.align) ==> r == Ok::<u32, CodegenError>(layout.align),
        !is_power_of_two(layout.align) ==> r is Err && crate::abi::is_lowering_error(
            r->Err_0,
            ty,
            "invalid memory alignment "@ + decimal(layout.align as nat),
        ),
{
    let a = layout.align;
    let mut p: u32 = 1;
    let mut k: u32 = 0;
    proof {
        vstd::arithmetic::power2::lemma2_to64();
    }
    while k < 32
        invariant
            a == layout.align,
            k <= 32,
            k < 32 ==> p as nat == vstd::arithmetic::power2::pow2(k as nat),
            forall|j: nat| j < k ==> #[trigger] vstd::arithmetic::power2::pow2(j) != a,
        decreases 32 - k,
    {
        if p == a {
            assert(vstd::arithmetic::power2::pow2(k as nat) == a);
            return Ok(a);
        }
        proof {
            vstd::arithmetic::power2::lemma_pow2_unfold((k + 1) as nat);
            vstd::arithmetic::power2::lemma2_to64();
            if k + 1 < 32 {
                vstd::arithmetic::power2::lemma_pow2_strictly_increases((k + 1) as nat, 32);
            }
        }
        if k < 31 {
            p = p * 2;
        }
        k = k + 1;
    }
    let mut v: Vec<char> = Vec::new();
    push_str(&mut v, "invalid memory alignment ");
    let digits = decimal_u64(a as u64);
    push_chars(&mut v, digits.as_slice());
    Err(CodegenError::TypeLowering { ty, reason: string_of(v.as_slice()) })
}

/// LLVM linkage of a global symbol.
#[derive(Copy, Clone, Debug, PartialEq, Eq, Structural)]
pub enum LlvmLinkage {
    Internal,
    AvailableExternally,
    External,
}

/// Linkage of a C declaration.
#[derive(Copy, Clone, Debug, PartialEq, Eq, Structural)]
pub enum HirLinkage {
    Internal,
    External,
    NoLinkage,
}

/// Linkage of a function: `static` functions are internal; a non-`static`
/// inline definition that is not `extern inline` is only available
/// externally; everything else is external.
pub fn function_linkage(has_body: bool, is_static: bool, is_inline: bool, is_extern_inline: bool) -> (l:
    LlvmLinkage)
    ensures
        is_static ==> l == LlvmLinkage::Internal,
        !is_static && has_body && is_inline && !is_extern_inline ==> l
            == LlvmLinkage::AvailableExternally,
        !is_static && !(has_body && is_inline && !is_extern_inline) ==> l == LlvmLinkage::External,
{
    if is_static {
        LlvmLinkage::Internal
    } else if has_body && is_inline && !is_extern_inline {
        LlvmLinkage::AvailableExternally
    } else {
        LlvmLinkage::External
    }
}

/// Linkage of a global variable: internal stays internal, the rest is
/// external.
pub fn global_linkage(linkage: HirLinkage) -> (l: LlvmLinkage)
    ensures
        l == if linkage == HirLinkage::Internal {
            LlvmLinkage::Internal
        } else {
            LlvmLinkage::External
        },
{
    match linkage {
        HirLinkage::Internal => LlvmLinkage::Internal,
        HirLinkage::External | HirLinkage::NoLinkage => LlvmLinkage::External,
    }
}

/// A declared global gets a zero initializer (until its real one is set)
/// when it has an initializer or is not an external declaration.
pub fn global_needs_zero_init(has_init: bool, linkage: HirLinkage) -> (b: bool)
    ensures
        b == (has_init || linkage == HirLinkage::Internal),
{
    let l = global_linkage(linkage);
    has_init || !matches!(l, LlvmLinkage::External)
}

/// Ranks of the C integer types.
#[derive(Copy, Clone, Debug, PartialEq, Eq, Structural)]
pub enum IntRank {
    Bool,
    Char,
    Short,
    Int,
    Long,
    LongLong,
}

/// DWARF description of an integer type: name, width in bits, and encoding
/// (boolean, signed or unsigned).
pub open spec fn debug_int_spec(signed: bool, rank: IntRank) -> (Seq<char>, u64, u32) {
    match rank {
        IntRank::Bool => ("_Bool"@, 8, 0x02),
        IntRank::Char => if signed { ("char"@, 8, 0x05) } else { ("unsigned char"@, 8, 0x07) },
        IntRank::Short => if signed { ("short"@, 16, 0x05) } else { ("unsigned short"@, 16, 0x07) },
        IntRank::Int => if signed { ("int"@, 32, 0x05) } else { ("unsigned int"@, 32, 0x07) },
        IntRank::Long => if signed { ("long"@, 64, 0x05) } else { ("unsigned long"@, 64, 0x07) },
        IntRank::LongLong => if signed {
            ("long long"@, 64, 0x05)
        } else {
            ("unsigned long long"@, 64, 0x07)
        },
    }
}

/// DWARF name, width and encoding of an integer type.
pub fn debug_int_type(signed: bool, rank: IntRank) -> (r: (&'static str, u64, u32))
    ensures
        (r.0@, r.1, r.2) == debug_int_spec(signed, rank),
{
    match rank {
        IntRank::Bool => ("_Bool", 8, 0x02),
        IntRank::Char => if signed { ("char", 8, 0x05) } else { ("unsigned char", 8, 0x07) },
        IntRank::Short => if signed { ("short", 16, 0x05) } else { ("unsigned short", 16, 0x07) },
        IntRank::Int => if signed { ("int", 32, 0x05) } else { ("unsigned int", 32, 0x07) },
        IntRank::Long => if signed { ("long", 64, 0x05) } else { ("unsigned long", 64, 0x07) },
        IntRank::LongLong => if signed {
            ("long long", 64, 0x05)
        } else {
            ("unsigned long long", 64, 0x07)
        },
    }
}

/// Name of the stack slot of a local: the return slot, a named parameter or
/// local (by its symbol number), or an unnamed parameter or temporary (by
/// its local number).
pub open spec fn local_storage_name_spec(local: u32, is_param: bool, name: Option<u32>) -> Seq<char> {
    if local == 0 {
        "ret.addr"@
    } else {
        match name {
            Some(n) => (if is_param { "param"@ } else { "local"@ }) + decimal(n as nat) + ".addr"@,
            None => (if is_param { "param"@ } else { "tmp"@ }) + decimal(local as nat) + ".addr"@,
        }
    }
}

/// Name of the stack slot of local number `local`, a parameter when
/// `is_param`, whose source name has symbol number `name` if it has one.
pub fn local_storage_name(local: u32, is_param: bool, name: Option<u32>) -> (s: String)
    ensures
        s@ == local_storage_name_spec(local, is_param, name),
{
    if local == 0 {
        return "ret.addr".to_string();
    }
    let mut v: Vec<char> = Vec::new();
    let n = match name {
        Some(n) => {
            push_str(&mut v, if is_param { "param" } else { "local" });
            n
        },
        None => {
            push_str(&mut v, if is_param { "param" } else { "tmp" });
            local
        },
    };
    let digits = decimal_u64(n as u64);
    push_chars(&mut v, digits.as_slice());
    push_str(&mut v, ".addr");
    string_of(v.as_slice())
}

/// Bit width of a floating-point kind in casts.
pub fn float_kind_width(kind: crate::abi::FloatKind) -> (w: u32)
    ensures
        w == match kind {
            crate::abi::FloatKind::F32 => 32u32,
            crate::abi::FloatKind::F64 => 64u32,
            crate::abi::FloatKind::F80 => 80u32,
        },
{
    match kind {
        crate::abi::FloatKind::F32 => 32,
        crate::abi::FloatKind::F64 => 64,
        crate::abi::FloatKind::F80 => 80,
    }
}

/// Length of an LLVM array type: at most `u32::MAX` elements.
pub fn array_len(len: u64, ty: TyId) -> (r: Result<u32, CodegenError>)
    ensures
        len <= u32::MAX ==> r == Ok::<u32, CodegenError>(len as u32),
        len > u32::MAX ==> r is Err && crate::abi::is_lowering_error(
            r->Err_0,
            ty,
            "array length "@ + decimal(len as nat) + " exceeds LLVM u32 limit"@,
        ),
{
    if len <= u32::MAX as u64 {
        Ok(len as u32)
    } else {
        let mut v: Vec<char> = Vec::new();
        push_str(&mut v, "array length ");
        let digits = decimal_u64(len);
        push_chars(&mut v, digits.as_slice());
        push_str(&mut v, " exceeds LLVM u32 limit");
        Err(CodegenError::TypeLowering { ty, reason: string_of(v.as_slice()) })
    }
}

/// Where a bit-field lies in its storage unit.
#[derive(Copy, Clone, Debug, PartialEq, Eq, Structural)]
pub struct BitfieldAccess {
    /// Offset of the field's lowest bit in the storage unit.
    pub bit_offset: u32,
    /// Width of the field in bits.
    pub bit_width: u32,
    /// Width of the storage unit in bits.
    pub storage_bits: u32,
}

/// A bit-field placement fits its storage unit.
pub open spec fn access_fits(a: BitfieldAccess) -> bool {
    1 <= a.bit_width && 1 <= a.storage_bits <= 64 && a.bit_offset + a.bit_width <= a.storage_bits
}

/// Message of a bit-field that does not fit its storage unit.
pub open spec fn range_message(offset: u32, width: u32, storage_bits: u32) -> Seq<char> {
    "bit-field range offset "@ + decimal(offset as nat) + " width "@ + decimal(width as nat)
        + " exceeds "@ + decimal(storage_bits as nat) + "-bit storage unit"@
}

/// The access to a field with bit width `bit_width` (`None` for an ordinary
/// field), bit offset `bit_offset` and a storage unit of `storage_size`
/// bytes: `None` for an ordinary field; an error for a zero-width field, a
/// missing offset, an unsupported storage unit, or a field that does not
/// fit its storage unit.
pub fn bitfield_access(bit_width: Option<u32>, bit_offset: Option<u32>, storage_size: u64) -> (r: Result<
    Option<BitfieldAccess>,
    CodegenError,
>)
    ensures
        bit_width is None ==> r == Ok::<Option<BitfieldAccess>, CodegenError>(None),
        bit_width == Some(0u32) ==> r is Err && is_internal(
            r->Err_0,
            "zero-width bit-field cannot be accessed as a value"@,
        ),
        bit_width matches Some(w) && w > 0 && bit_offset is None ==> r is Err && is_internal(
            r->Err_0,
            "bit-field layout is missing bit offset"@,
        ),
        bit_width matches Some(w) && w > 0 && bit_offset is Some && !(1 <= storage_size * 8 <= 64)
            ==> r is Err,
        (bit_width matches Some(w) && w > 0) && (bit_offset matches Some(o)) && 1 <= storage_size * 8
            <= 64 ==> ({
            let w = bit_width->0;
            let o = bit_offset->0;
            let sb = (storage_size * 8) as u32;
            if o + w <= sb {
                r == Ok::<Option<BitfieldAccess>, CodegenError>(
                    Some(BitfieldAccess { bit_offset: o, bit_width: w, storage_bits: sb }),
                )
            } else {
                r is Err && is_internal(r->Err_0, range_message(o, w, sb))
            }
        }),
        r matches Ok(Some(a)) ==> access_fits(a),
{
    let w = match bit_width {
        None => return Ok(None),
        Some(w) => w,
    };
    if w == 0 {
        let mut v: Vec<char> = Vec::new();
        push_str(&mut v, "zero-width bit-field cannot be accessed as a value");
        return Err(internal(v));
    }
    let o = match bit_offset {
        None => {
            let mut v: Vec<char> = Vec::new();
            push_str(&mut v, "bit-field layout is missing bit offset");
            return Err(internal(v));
        },
        Some(o) => o,
    };
    let sb = match storage_bits_for_bitfield(storage_size) {
        Ok(b) => b,
        Err(e) => return Err(e),
    };
    if o > u32::MAX - w || o + w > sb {
        let mut v: Vec<char> = Vec::new();
        push_str(&mut v, "bit-field range offset ");
        let d = decimal_u64(o as u64);
        push_chars(&mut v, d.as_slice());
        push_str(&mut v, " width ");
        let d = decimal_u64(w as u64);
        push_chars(&mut v, d.as_slice());
        push_str(&mut v, " exceeds ");
        let d = decimal_u64(sb as u64);
        push_chars(&mut v, d.as_slice());
        push_str(&mut v, "-bit storage unit");
        return Err(internal(v));
    }
    Ok(Some(BitfieldAccess { bit_offset: o, bit_width: w, storage_bits: sb }))
}

/// The masks of a bit-field store: the field's value bits, the field's bits
/// in the storage unit, and the storage bits that the store keeps.
#[derive(Copy, Clone, Debug, PartialEq, Eq, Structural)]
pub struct BitfieldMasks {
    pub width_mask: u64,
    pub field_mask: u64,
    pub clear_mask: u64,
}

/// Masks of a store into the bit-field placed as `a`.
pub fn bitfield_store_masks(a: BitfieldAccess) -> (m: BitfieldMasks)
    requires
        access_fits(a),
    ensures
        m.width_mask == low_mask(a.bit_width),
        m.field_mask == low_mask(a.bit_width) << a.bit_offset,
        m.clear_mask == low_mask(a.storage_bits) & !(low_mask(a.bit_width) << a.bit_offset),
{
    let width_mask = match bit_mask(a.bit_width) {
        Ok(m) => m,
        Err(_) => 0,
    };
    let storage_mask = match bit_mask(a.storage_bits) {
        Ok(m) => m,
        Err(_) => 0,
    };
    let field_mask = width_mask << a.bit_offset;
    BitfieldMasks { width_mask, field_mask, clear_mask: storage_mask & !field_mask }
}

/// Storage unit `storage` after storing `value` into the bit-field placed
/// as `a`: the value is cut to the field's width and shifted into place,
/// and the other bits of the unit are kept.
pub open spec fn bitfield_insert(storage: u64, value: u64, a: BitfieldAccess) -> u64 {
    (storage & (low_mask(a.storage_bits) & !(low_mask(a.bit_width) << a.bit_offset))) | ((value
        & low_mask(a.bit_width)) << a.bit_offset)
}

/// The bit-field placed as `a`, read from storage unit `storage`.
pub open spec fn bitfield_extract(storage: u64, a: BitfieldAccess) -> u64 {
    (storage >> a.bit_offset) & low_mask(a.bit_width)
}

/// The storage unit after a bit-field store.
pub fn bitfield_store(storage: u64, value: u64, a: BitfieldAccess) -> (r: u64)
    requires
        access_fits(a),
    ensures
        r == bitfield_insert(storage, value, a),
{
    let m = bitfield_store_masks(a);
    (storage & m.clear_mask) | ((value & m.width_mask) << a.bit_offset)
}

/// The value of a bit-field load.
pub fn bitfield_load(storage: u64, a: BitfieldAccess) -> (r: u64)
    requires
        access_fits(a),
    ensures
        r == bitfield_extract(storage, a),
{
    let m = bitfield_store_masks(a);
    (storage >> a.bit_offset) & m.width_mask
}

proof fn lemma_bitfield_bits(s: u64, v: u64, off: u64, w: u64, sb: u64)
    requires
        1 <= w,
        1 <= sb <= 64,
        off + w <= sb,
    ensures
        ({
            let wm: u64 = if w >= 64 { u64::MAX } else { ((1u64 << w) - 1) as u64 };
            let sm: u64 = if sb >= 64 { u64::MAX } else { ((1u64 << sb) - 1) as u64 };
            let ins = (s & (sm & !(wm << off))) | ((v & wm) << off);
            &&& (ins >> off) & wm == v & wm
            &&& ins & (sm & !(wm << off)) == s & (sm & !(wm << off))
            &&& s & !sm == 0 ==> ins & !sm == 0
        }),
{
    assert({
        let wm: u64 = if w >= 64 { u64::MAX } else { ((1u64 << w) - 1) as u64 };
        let sm: u64 = if sb >= 64 { u64::MAX } else { ((1u64 << sb) - 1) as u64 };
        let ins = (s & (sm & !(wm << off))) | ((v & wm) << off);
        &&& (ins >> off) & wm == v & wm
        &&& ins & (sm & !(wm << off)) == s & (sm & !(wm << off))
        &&& s & !sm == 0 ==> ins & !sm == 0
    }) by (bit_vector)
        requires
            1 <= w,
            1 <= sb <= 64,
            off + w <= sb,
    ;
}

/// A bit-field store followed by a load of the same field gives back the
/// stored value cut to the field's width; the store leaves every other bit
/// of the storage unit as it was, and sets no bit above the storage unit.
pub proof fn lemma_bitfield_store_then_load(storage: u64, value: u64, a: BitfieldAccess)
    requires
        access_fits(a),
    ensures
        bitfield_extract(bitfield_insert(storage, value, a), a) == value & low_mask(a.bit_width),
        bitfield_insert(storage, value, a) & (low_mask(a.storage_bits) & !(low_mask(a.bit_width)
            << a.bit_offset)) == storage & (low_mask(a.storage_bits) & !(low_mask(a.bit_width)
            << a.bit_offset)),
        storage & !low_mask(a.storage_bits) == 0 ==> bitfield_insert(storage, value, a)
            & !low_mask(a.storage_bits) == 0,
{
    let w: u32 = a.bit_width;
    let o: u32 = a.bit_offset;
    let sb: u32 = a.storage_bits;
    lemma_bitfield_bits(storage, value, o as u64, w as u64, sb as u64);
    assert(low_mask(w) == (if (w as u64) >= 64 {
        u64::MAX
    } else {
        ((1u64 << (w as u64)) - 1) as u64
    })) by (bit_vector);
    assert(low_mask(sb) == (if (sb as u64) >= 64 {
        u64::MAX
    } else {
        ((1u64 << (sb as u64)) - 1) as u64
    })) by (bit_vector);
    assert(forall|x: u64| (x << o) == (x << (o as u64))) by (bit_vector);
    assert(forall|x: u64| (x >> o) == (x >> (o as u64))) by (bit_vector);
}

/// The instruction of an integer-to-integer conversion.
#[derive(Copy, Clone, Debug, PartialEq, Eq, Structural)]
pub enum IntCast {
    /// Same width: the value is kept.
    Keep,
    /// Narrower target: `trunc`.
    Truncate,
    /// Wider target, signed source: `sext`.
    SignExtend,
    /// Wider target, unsigned source: `zext`.
    ZeroExtend,
}

/// The conversion of a `from_bits`-bit integer to a `to_bits`-bit one; a
/// widening conversion extends by the source's signedness.
pub fn int_cast_kind(from_bits: u32, to_bits: u32, signed: bool) -> (c: IntCast)
    ensures
        c == if from_bits == to_bits {
            IntCast::Keep
        } else if from_bits > to_bits {
            IntCast::Truncate
        } else if signed {
            IntCast::SignExtend
        } else {
            IntCast::ZeroExtend
        },
{
    if from_bits == to_bits {
        IntCast::Keep
    } else if from_bits > to_bits {
        IntCast::Truncate
    } else if signed {
        IntCast::SignExtend
    } else {
        IntCast::ZeroExtend
    }
}

/// The instruction of a floating-point conversion.
#[derive(Copy, Clone, Debug, PartialEq, Eq, Structural)]
pub enum FloatCast {
    /// Same width: the value is kept.
    Keep,
    /// Wider target: `fpext`.
    Extend,
    /// Narrower target: `fptrunc`.
    Truncate,
}

/// The conversion between two floating-point kinds, by their widths.
pub fn float_cast_kind(from: crate::abi::FloatKind, to: crate::abi::FloatKind) -> (c: FloatCast)
    ensures
        ({
            let fw = match from {
                crate::abi::FloatKind::F32 => 32int,
                crate::abi::FloatKind::F64 => 64int,
                crate::abi::FloatKind::F80 => 80int,
            };
            let tw = match to {
                crate::abi::FloatKind::F32 => 32int,
                crate::abi::FloatKind::F64 => 64int,
                crate::abi::FloatKind::F80 => 80int,
            };
            c == if fw == tw {
                FloatCast::Keep
            } else if fw < tw {
                FloatCast::Extend
            } else {
                FloatCast::Truncate
            }
        }),
{
    let fw = float_kind_width(from);
    let tw = float_kind_width(to);
    if fw == tw {
        FloatCast::Keep
    } else if fw < tw {
        FloatCast::Extend
    } else {
        FloatCast::Truncate
    }
}

} // verus!
