use rcc_conformance::abi::{CodegenError, FloatKind, Layout, TyId};
use rcc_conformance::lowering::{
    abi_unit_offset, array_len, bit_mask, bitfield_access, bitfield_load, bitfield_store,
    bitfield_store_masks, BitfieldAccess, float_kind_width, local_storage_name, debug_int_type, function_linkage, global_linkage, global_needs_zero_init, layout_align,
    storage_bits_for_bitfield, HirLinkage, IntRank, LlvmLinkage, int_cast_kind, float_cast_kind, IntCast,
    FloatCast,
};

fn internal(e: CodegenError) -> String {
    match e {
        CodegenError::Internal(m) => m,
        other => panic!("expected an internal error, got {other:?}"),
    }
}

#[test]
fn bitfield_storage_widths() {
    assert_eq!(storage_bits_for_bitfield(1).unwrap(), 8);
    assert_eq!(storage_bits_for_bitfield(4).unwrap(), 32);
    assert_eq!(storage_bits_for_bitfield(8).unwrap(), 64);
    assert_eq!(internal(storage_bits_for_bitfield(0).unwrap_err()), "unsupported 0-bit bit-field storage unit");
    assert_eq!(internal(storage_bits_for_bitfield(9).unwrap_err()), "unsupported 72-bit bit-field storage unit");
    assert_eq!(
        internal(storage_bits_for_bitfield(u64::MAX).unwrap_err()),
        "bit-field storage size overflowed"
    );
    assert_eq!(
        internal(storage_bits_for_bitfield(1 << 40).unwrap_err()),
        "bit-field storage unit exceeds u32 bits"
    );
}

#[test]
fn bit_masks() {
    assert_eq!(bit_mask(1).unwrap(), 1);
    assert_eq!(bit_mask(3).unwrap(), 7);
    assert_eq!(bit_mask(32).unwrap(), 0xffff_ffff);
    assert_eq!(bit_mask(63).unwrap(), u64::MAX >> 1);
    assert_eq!(bit_mask(64).unwrap(), u64::MAX);
    assert_eq!(internal(bit_mask(0).unwrap_err()), "unsupported 0-bit bit-field mask width");
    assert_eq!(internal(bit_mask(65).unwrap_err()), "unsupported 65-bit bit-field mask width");
}

#[test]
fn abi_unit_offsets_are_eightbytes() {
    assert_eq!(abi_unit_offset(0, "param").unwrap(), 0);
    assert_eq!(abi_unit_offset(2, "param").unwrap(), 16);
}

#[test]
fn layout_alignment_must_be_a_power_of_two() {
    assert_eq!(layout_align(TyId(1), Layout { size: 8, align: 8 }).unwrap(), 8);
    assert_eq!(layout_align(TyId(1), Layout { size: 1, align: 1 }).unwrap(), 1);
    assert_eq!(layout_align(TyId(1), Layout { size: 0, align: 1 << 31 }).unwrap(), 1 << 31);
    match layout_align(TyId(5), Layout { size: 12, align: 6 }).unwrap_err() {
        CodegenError::TypeLowering { ty, reason } => {
            assert_eq!(ty, TyId(5));
            assert_eq!(reason, "invalid memory alignment 6");
        }
        other => panic!("unexpected error {other:?}"),
    }
    assert!(layout_align(TyId(5), Layout { size: 0, align: 0 }).is_err());
}

#[test]
fn linkage_selection() {
    assert_eq!(function_linkage(true, true, true, false), LlvmLinkage::Internal);
    assert_eq!(function_linkage(false, true, false, false), LlvmLinkage::Internal);
    assert_eq!(function_linkage(true, false, true, false), LlvmLinkage::AvailableExternally);
    assert_eq!(function_linkage(true, false, true, true), LlvmLinkage::External);
    assert_eq!(function_linkage(false, false, true, false), LlvmLinkage::External);
    assert_eq!(function_linkage(true, false, false, false), LlvmLinkage::External);
    assert_eq!(global_linkage(HirLinkage::Internal), LlvmLinkage::Internal);
    assert_eq!(global_linkage(HirLinkage::External), LlvmLinkage::External);
    assert_eq!(global_linkage(HirLinkage::NoLinkage), LlvmLinkage::External);
}

#[test]
fn zero_initializer_for_defined_or_internal_globals() {
    assert!(global_needs_zero_init(true, HirLinkage::External));
    assert!(global_needs_zero_init(false, HirLinkage::Internal));
    assert!(!global_needs_zero_init(false, HirLinkage::External));
    assert!(!global_needs_zero_init(false, HirLinkage::NoLinkage));
}

#[test]
fn debug_integer_descriptions() {
    assert_eq!(debug_int_type(true, IntRank::Bool), ("_Bool", 8, 0x02));
    assert_eq!(debug_int_type(false, IntRank::Bool), ("_Bool", 8, 0x02));
    assert_eq!(debug_int_type(true, IntRank::Char), ("char", 8, 0x05));
    assert_eq!(debug_int_type(false, IntRank::Short), ("unsigned short", 16, 0x07));
    assert_eq!(debug_int_type(true, IntRank::Int), ("int", 32, 0x05));
    assert_eq!(debug_int_type(false, IntRank::Long), ("unsigned long", 64, 0x07));
    assert_eq!(debug_int_type(true, IntRank::LongLong), ("long long", 64, 0x05));
}

#[test]
fn local_slot_names() {
    assert_eq!(local_storage_name(0, true, Some(3)), "ret.addr");
    assert_eq!(local_storage_name(2, true, Some(7)), "param7.addr");
    assert_eq!(local_storage_name(2, false, Some(7)), "local7.addr");
    assert_eq!(local_storage_name(4, true, None), "param4.addr");
    assert_eq!(local_storage_name(5, false, None), "tmp5.addr");
}

#[test]
fn float_widths_and_array_lengths() {
    assert_eq!(float_kind_width(FloatKind::F32), 32);
    assert_eq!(float_kind_width(FloatKind::F64), 64);
    assert_eq!(float_kind_width(FloatKind::F80), 80);
    assert_eq!(array_len(12, TyId(1)).unwrap(), 12);
    match array_len(1 << 33, TyId(2)).unwrap_err() {
        CodegenError::TypeLowering { ty, reason } => {
            assert_eq!(ty, TyId(2));
            assert_eq!(reason, "array length 8589934592 exceeds LLVM u32 limit");
        }
        other => panic!("unexpected {other:?}"),
    }
}

#[test]
fn bitfield_accesses_and_masks() {
    assert_eq!(bitfield_access(None, None, 4).unwrap(), None);
    assert_eq!(
        internal(bitfield_access(Some(0), Some(0), 4).unwrap_err()),
        "zero-width bit-field cannot be accessed as a value"
    );
    assert_eq!(internal(bitfield_access(Some(3), None, 4).unwrap_err()), "bit-field layout is missing bit offset");
    assert_eq!(
        internal(bitfield_access(Some(6), Some(28), 4).unwrap_err()),
        "bit-field range offset 28 width 6 exceeds 32-bit storage unit"
    );
    let a = bitfield_access(Some(3), Some(4), 1).unwrap().unwrap();
    assert_eq!(a, BitfieldAccess { bit_offset: 4, bit_width: 3, storage_bits: 8 });
    let m = bitfield_store_masks(a);
    assert_eq!(m.width_mask, 0b111);
    assert_eq!(m.field_mask, 0b111_0000);
    assert_eq!(m.clear_mask, 0b1000_1111);
    // Neighbour bits survive a store, and a load gives back the stored value.
    let stored = bitfield_store(0b1010_1010, 0b1101, a);
    assert_eq!(stored, 0b1101_1010);
    assert_eq!(bitfield_load(stored, a), 0b101);
}

#[test]
fn cast_instruction_selection() {
    assert_eq!(int_cast_kind(32, 32, true), IntCast::Keep);
    assert_eq!(int_cast_kind(64, 32, true), IntCast::Truncate);
    assert_eq!(int_cast_kind(8, 32, true), IntCast::SignExtend);
    assert_eq!(int_cast_kind(8, 32, false), IntCast::ZeroExtend);
    assert_eq!(float_cast_kind(FloatKind::F32, FloatKind::F64), FloatCast::Extend);
    assert_eq!(float_cast_kind(FloatKind::F80, FloatKind::F64), FloatCast::Truncate);
    assert_eq!(float_cast_kind(FloatKind::F64, FloatKind::F64), FloatCast::Keep);
}
