use rcc_conformance::abi::{CodegenError, Layout, TyId};
use rcc_conformance::aggregate::{aggregate_assign_plan, AggValue, AggregateWrite};

fn l(size: u64, align: u32) -> Layout {
    Layout { size, align }
}

#[test]
fn aggregate_copies() {
    let src = |volatile: bool, layout: Layout| AggValue::CopyFrom { ty: TyId(2), volatile, layout };
    assert_eq!(
        aggregate_assign_plan(true, TyId(1), false, l(16, 8), src(false, l(16, 4))).unwrap(),
        Some(AggregateWrite::Memcpy { size: 16, dest_align: 8, src_align: 4 })
    );
    assert_eq!(
        aggregate_assign_plan(true, TyId(1), true, l(16, 8), src(false, l(16, 4))).unwrap(),
        Some(AggregateWrite::VolatileBytes(16))
    );
    assert_eq!(
        aggregate_assign_plan(true, TyId(1), false, l(16, 8), src(true, l(16, 3))).unwrap(),
        Some(AggregateWrite::VolatileBytes(16))
    );
    match aggregate_assign_plan(true, TyId(1), false, l(16, 8), src(false, l(12, 4))).unwrap_err() {
        CodegenError::Internal(m) => assert_eq!(m, "aggregate copy size mismatch: dest 16 bytes, source 12 bytes"),
        other => panic!("unexpected {other:?}"),
    }
    match aggregate_assign_plan(true, TyId(1), false, l(16, 8), src(false, l(16, 6))).unwrap_err() {
        CodegenError::TypeLowering { ty, reason } => {
            assert_eq!(ty, TyId(2));
            assert_eq!(reason, "invalid memory alignment 6");
        }
        other => panic!("unexpected {other:?}"),
    }
}

#[test]
fn aggregate_zero_fills_and_others() {
    assert_eq!(
        aggregate_assign_plan(true, TyId(1), false, l(24, 8), AggValue::ZeroInit).unwrap(),
        Some(AggregateWrite::Memset { size: 24, align: 8 })
    );
    assert_eq!(
        aggregate_assign_plan(true, TyId(1), true, l(24, 8), AggValue::ZeroInit).unwrap(),
        Some(AggregateWrite::VolatileZero(24))
    );
    assert_eq!(aggregate_assign_plan(true, TyId(1), false, l(24, 8), AggValue::Other).unwrap(), None);
    assert_eq!(aggregate_assign_plan(false, TyId(1), false, l(4, 4), AggValue::ZeroInit).unwrap(), None);
    match aggregate_assign_plan(true, TyId(1), false, l(24, 0), AggValue::ZeroInit).unwrap_err() {
        CodegenError::TypeLowering { ty, reason } => {
            assert_eq!(ty, TyId(1));
            assert_eq!(reason, "invalid memory alignment 0");
        }
        other => panic!("unexpected {other:?}"),
    }
}
