use rcc_conformance::abi::{CodegenError, TyId};
use rcc_conformance::complex::{complex_binop_plan, ComplexStep, PartRef};
use rcc_conformance::operators::{BinOp, FloatInstr};

fn names(steps: &[ComplexStep]) -> Vec<&str> {
    steps.iter().map(|s| s.name.as_str()).collect()
}

fn value(steps: &[ComplexStep], l: (f64, f64), r: (f64, f64)) -> (f64, f64) {
    let mut vals: Vec<f64> = Vec::new();
    for s in steps {
        let get = |p: PartRef| match p {
            PartRef::LhsReal => l.0,
            PartRef::LhsImag => l.1,
            PartRef::RhsReal => r.0,
            PartRef::RhsImag => r.1,
            PartRef::Step(i) => vals[i],
        };
        let (x, y) = (get(s.lhs), get(s.rhs));
        vals.push(match s.instr {
            FloatInstr::Add => x + y,
            FloatInstr::Sub => x - y,
            FloatInstr::Mul => x * y,
            FloatInstr::Div => x / y,
        });
    }
    (vals[vals.len() - 2], vals[vals.len() - 1])
}

#[test]
fn complex_operations_compute_textbook_formulas() {
    let t = TyId(7);
    let plan = |op| complex_binop_plan(op, t, true, t, true).unwrap();
    assert_eq!(value(&plan(BinOp::FAdd), (1.0, 2.0), (3.0, 4.0)), (4.0, 6.0));
    assert_eq!(value(&plan(BinOp::FSub), (1.0, 2.0), (3.0, 4.0)), (-2.0, -2.0));
    assert_eq!(value(&plan(BinOp::FMul), (1.0, 2.0), (3.0, 4.0)), (-5.0, 10.0));
    assert_eq!(value(&plan(BinOp::FDiv), (-5.0, 10.0), (3.0, 4.0)), (1.0, 2.0));
}

#[test]
fn complex_instructions_are_named_for_the_ir() {
    let t = TyId(7);
    let mul = complex_binop_plan(BinOp::FMul, t, true, t, true).unwrap();
    assert_eq!(
        names(&mul),
        ["complex.mul.rr", "complex.mul.ii", "complex.mul.ri", "complex.mul.ir", "complex.mul.real", "complex.mul.imag"]
    );
    let div = complex_binop_plan(BinOp::FDiv, t, true, t, true).unwrap();
    assert_eq!(div.len(), 11);
    assert_eq!(names(&div)[2], "complex.div.denom");
    assert_eq!(names(&div)[10], "complex.div.imag");
    let add = complex_binop_plan(BinOp::FAdd, t, true, t, true).unwrap();
    assert_eq!(names(&add), ["complex.add.real", "complex.add.imag"]);
}

#[test]
fn complex_operands_must_share_a_complex_type() {
    match complex_binop_plan(BinOp::FAdd, TyId(1), false, TyId(2), true).unwrap_err() {
        CodegenError::TypeLowering { ty, reason } => {
            assert_eq!(ty, TyId(1));
            assert_eq!(reason, "complex lhs is not complex");
        }
        other => panic!("unexpected {other:?}"),
    }
    match complex_binop_plan(BinOp::FAdd, TyId(1), true, TyId(2), false).unwrap_err() {
        CodegenError::TypeLowering { ty, reason } => {
            assert_eq!(ty, TyId(2));
            assert_eq!(reason, "complex rhs is not complex");
        }
        other => panic!("unexpected {other:?}"),
    }
    match complex_binop_plan(BinOp::FMul, TyId(1), true, TyId(2), true).unwrap_err() {
        CodegenError::Internal(m) => {
            assert_eq!(m, "complex operands were not coerced to the same type: TyId(1) and TyId(2)")
        }
        other => panic!("unexpected {other:?}"),
    }
}
