//! Complex arithmetic: the floating-point instructions that add, subtract,
//! multiply or divide two complex values part by part.
//!
//! Each operand is split into its real and imaginary part; the operation is
//! a short list of real instructions over those four parts and the results
//! of earlier instructions, and the last two instructions give the real and
//! the imaginary part of the result.
use vstd::prelude::*;

use crate::abi::{err_view, CodegenError, ErrView, TyId};
use crate::operators::{BinOp, FloatInstr};
use crate::ptr_arith::{ty_chars, ty_text};
use crate::text::{push_str, string_of};

verus! {

/// An input of a complex instruction.
#[derive(Copy, Clone, Debug, PartialEq, Eq, Structural)]
pub enum PartRef {
    LhsReal,
    LhsImag,
    RhsReal,
    RhsImag,
    /// The result of the instruction at this position.
    Step(usize),
}

/// One real instruction of a complex operation, with its value's name.
#[derive(Debug)]
pub struct ComplexStep {
    pub instr: FloatInstr,
    pub lhs: PartRef,
    pub rhs: PartRef,
    pub name: String,
}

/// A complex instruction, as values.
pub type StepView = (FloatInstr, PartRef, PartRef, Seq<char>);

impl View for ComplexStep {
    type V = StepView;

    open spec fn view(&self) -> StepView {
        (self.instr, self.lhs, self.rhs, self.name@)
    }
}

/// The complex operators.
pub open spec fn is_complex_op(op: BinOp) -> bool {
    op is FAdd || op is FSub || op is FMul || op is FDiv
}

/// The instructions of each complex operator. With `a + bi` on the left
/// and `c + di` on the right: the sum is `(a + c) + (b + d)i`, the
/// difference `(a - c) + (b - d)i`, the product `(ac - bd) + (ad + bc)i`,
/// and the quotient `((ac + bd) + (bc - ad)i) / (c² + d²)`.
pub open spec fn complex_steps(op: BinOp) -> Seq<StepView> {
    match op {
        BinOp::FAdd => seq![
            (FloatInstr::Add, PartRef::LhsReal, PartRef::RhsReal, "complex.add.real"@),
            (FloatInstr::Add, PartRef::LhsImag, PartRef::RhsImag, "complex.add.imag"@),
        ],
        BinOp::FSub => seq![
            (FloatInstr::Sub, PartRef::LhsReal, PartRef::RhsReal, "complex.sub.real"@),
            (FloatInstr::Sub, PartRef::LhsImag, PartRef::RhsImag, "complex.sub.imag"@),
        ],
        BinOp::FMul => seq![
            (FloatInstr::Mul, PartRef::LhsReal, PartRef::RhsReal, "complex.mul.rr"@),
            (FloatInstr::Mul, PartRef::LhsImag, PartRef::RhsImag, "complex.mul.ii"@),
            (FloatInstr::Mul, PartRef::LhsReal, PartRef::RhsImag, "complex.mul.ri"@),
            (FloatInstr::Mul, PartRef::LhsImag, PartRef::RhsReal, "complex.mul.ir"@),
            (FloatInstr::Sub, PartRef::Step(0), PartRef::Step(1), "complex.mul.real"@),
            (FloatInstr::Add, PartRef::Step(2), PartRef::Step(3), "complex.mul.imag"@),
        ],
        _ => seq![
            (FloatInstr::Mul, PartRef::RhsReal, PartRef::RhsReal, "complex.div.rr"@),
            (FloatInstr::Mul, PartRef::RhsImag, PartRef::RhsImag, "complex.div.ii"@),
            (FloatInstr::Add, PartRef::Step(0), PartRef::Step(1), "complex.div.denom"@),
            (FloatInstr::Mul, PartRef::LhsReal, PartRef::RhsReal, "complex.div.rr.num"@),
            (FloatInstr::Mul, PartRef::LhsImag, PartRef::RhsImag, "complex.div.ii.num"@),
            (FloatInstr::Mul, PartRef::LhsImag, PartRef::RhsReal, "complex.div.ir.num"@),
            (FloatInstr::Mul, PartRef::LhsReal, PartRef::RhsImag, "complex.div.ri.num"@),
            (FloatInstr::Add, PartRef::Step(3), PartRef::Step(4), "complex.div.real.num"@),
            (FloatInstr::Sub, PartRef::Step(5), PartRef::Step(6), "complex.div.imag.num"@),
            (FloatInstr::Div, PartRef::Step(7), PartRef::Step(2), "complex.div.real"@),
            (FloatInstr::Div, PartRef::Step(8), PartRef::Step(2), "complex.div.imag"@),
        ],
    }
}

/// The instructions of the complex operator `op` on a left operand of type
/// `lt` and a right operand of type `rt` (each complex or not): both must
/// be complex, and of one type.
pub open spec fn complex_binop_spec(op: BinOp, lt: TyId, l_complex: bool, rt: TyId, r_complex: bool) -> Result<
    Seq<StepView>,
    ErrView,
> {
    if !l_complex {
        Err(ErrView::Lowering(lt, "complex lhs is not complex"@))
    } else if !r_complex {
        Err(ErrView::Lowering(rt, "complex rhs is not complex"@))
    } else if lt != rt {
        Err(
            ErrView::Internal(
                "complex operands were not coerced to the same type: "@ + ty_text(lt) + " and "@ + ty_text(rt),
            ),
        )
    } else {
        Ok(complex_steps(op))
    }
}

/// The value of one instruction on two values; a quotient is the integer
/// quotient (the law below speaks only of what a division divides).
pub open spec fn apply_instr(f: FloatInstr, x: int, y: int) -> int {
    match f {
        FloatInstr::Add => x + y,
        FloatInstr::Sub => x - y,
        FloatInstr::Mul => x * y,
        FloatInstr::Div => if y == 0 {
            0
        } else {
            x / y
        },
    }
}

/// The value, in exact arithmetic, of the input `p` of instruction `i` of
/// `steps` on the operands `a + bi` and `c + di`; an instruction reads only
/// the results of instructions before it.
pub open spec fn input_value(steps: Seq<StepView>, i: nat, p: PartRef, a: int, b: int, c: int, d: int) -> int
    decreases i, 0int,
{
    match p {
        PartRef::LhsReal => a,
        PartRef::LhsImag => b,
        PartRef::RhsReal => c,
        PartRef::RhsImag => d,
        PartRef::Step(j) => if j < i {
            step_value(steps, j as nat, a, b, c, d)
        } else {
            0
        },
    }
}

/// The value, in exact arithmetic, of instruction `i` of `steps` on the
/// operands `a + bi` and `c + di`.
pub open spec fn step_value(steps: Seq<StepView>, i: nat, a: int, b: int, c: int, d: int) -> int
    decreases i, 1int,
{
    if i >= steps.len() {
        0
    } else {
        apply_instr(
            steps[i as int].0,
            input_value(steps, i, steps[i as int].1, a, b, c, d),
            input_value(steps, i, steps[i as int].2, a, b, c, d),
        )
    }
}

fn step(instr: FloatInstr, lhs: PartRef, rhs: PartRef, name: &str) -> (s: ComplexStep)
    ensures
        s@ == (instr, lhs, rhs, name@),
{
    ComplexStep { instr, lhs, rhs, name: name.to_string() }
}

fn steps_of(op: BinOp) -> (v: Vec<ComplexStep>)
    requires
        is_complex_op(op),
    ensures
        v@.map_values(|s: ComplexStep| s@) == complex_steps(op),
{
    let mut v: Vec<ComplexStep> = Vec::new();
    match op {
        BinOp::FAdd => {
            v.push(step(FloatInstr::Add, PartRef::LhsReal, PartRef::RhsReal, "complex.add.real"));
            v.push(step(FloatInstr::Add, PartRef::LhsImag, PartRef::RhsImag, "complex.add.imag"));
        },
        BinOp::FSub => {
            v.push(step(FloatInstr::Sub, PartRef::LhsReal, PartRef::RhsReal, "complex.sub.real"));
            v.push(step(FloatInstr::Sub, PartRef::LhsImag, PartRef::RhsImag, "complex.sub.imag"));
        },
        BinOp::FMul => {
            v.push(step(FloatInstr::Mul, PartRef::LhsReal, PartRef::RhsReal, "complex.mul.rr"));
            v.push(step(FloatInstr::Mul, PartRef::LhsImag, PartRef::RhsImag, "complex.mul.ii"));
            v.push(step(FloatInstr::Mul, PartRef::LhsReal, PartRef::RhsImag, "complex.mul.ri"));
            v.push(step(FloatInstr::Mul, PartRef::LhsImag, PartRef::RhsReal, "complex.mul.ir"));
            v.push(step(FloatInstr::Sub, PartRef::Step(0), PartRef::Step(1), "complex.mul.real"));
            v.push(step(FloatInstr::Add, PartRef::Step(2), PartRef::Step(3), "complex.mul.imag"));
        },
        _ => {
            v.push(step(FloatInstr::Mul, PartRef::RhsReal, PartRef::RhsReal, "complex.div.rr"));
            v.push(step(FloatInstr::Mul, PartRef::RhsImag, PartRef::RhsImag, "complex.div.ii"));
            v.push(step(FloatInstr::Add, PartRef::Step(0), PartRef::Step(1), "complex.div.denom"));
            v.push(step(FloatInstr::Mul, PartRef::LhsReal, PartRef::RhsReal, "complex.div.rr.num"));
            v.push(step(FloatInstr::Mul, PartRef::LhsImag, PartRef::RhsImag, "complex.div.ii.num"));
            v.push(step(FloatInstr::Mul, PartRef::LhsImag, PartRef::RhsReal, "complex.div.ir.num"));
            v.push(step(FloatInstr::Mul, PartRef::LhsReal, PartRef::RhsImag, "complex.div.ri.num"));
            v.push(step(FloatInstr::Add, PartRef::Step(3), PartRef::Step(4), "complex.div.real.num"));
            v.push(step(FloatInstr::Sub, PartRef::Step(5), PartRef::Step(6), "complex.div.imag.num"));
            v.push(step(FloatInstr::Div, PartRef::Step(7), PartRef::Step(2), "complex.div.real"));
            v.push(step(FloatInstr::Div, PartRef::Step(8), PartRef::Step(2), "complex.div.imag"));
        },
    }
    assert(v@.map_values(|s: ComplexStep| s@) =~= complex_steps(op));
    v
}

/// The instructions of the complex operator `op` on a left operand of type
/// `lt` (complex when `l_complex`) and a right one of type `rt`.
pub fn complex_binop_plan(op: BinOp, lt: TyId, l_complex: bool, rt: TyId, r_complex: bool) -> (r: Result<
    Vec<ComplexStep>,
    CodegenError,
>)
    requires
        is_complex_op(op),
    ensures
        match complex_binop_spec(op, lt, l_complex, rt, r_complex) {
            Ok(s) => r matches Ok(v) && v@.map_values(|x: ComplexStep| x@) == s,
            Err(e) => r matches Err(x) && err_view(x) == e,
        },
{
    if !l_complex {
        return Err(CodegenError::TypeLowering { ty: lt, reason: "complex lhs is not complex".to_string() });
    }
    if !r_complex {
        return Err(CodegenError::TypeLowering { ty: rt, reason: "complex rhs is not complex".to_string() });
    }
    if lt != rt {
        let mut m: Vec<char> = Vec::new();
        push_str(&mut m, "complex operands were not coerced to the same type: ");
        ty_chars(&mut m, lt);
        push_str(&mut m, " and ");
        ty_chars(&mut m, rt);
        assert(m@ =~= "complex operands were not coerced to the same type: "@ + ty_text(lt) + " and "@ + ty_text(rt));
        return Err(CodegenError::Internal(string_of(m.as_slice())));
    }
    Ok(steps_of(op))
}

/// In exact arithmetic, the last two instructions of a sum, difference or
/// product give the real and imaginary part of `(a + bi) op (c + di)`; those
/// of a quotient divide `ac + bd` and `bc - ad` by `c² + d²`.
pub proof fn lemma_complex_arithmetic(op: BinOp, a: int, b: int, c: int, d: int)
    requires
        is_complex_op(op),
    ensures
        ({
            let s = complex_steps(op);
            let n = s.len();
            n >= 2 && match op {
                BinOp::FAdd => step_value(s, (n - 2) as nat, a, b, c, d) == a + c
                    && step_value(s, (n - 1) as nat, a, b, c, d) == b + d,
                BinOp::FSub => step_value(s, (n - 2) as nat, a, b, c, d) == a - c
                    && step_value(s, (n - 1) as nat, a, b, c, d) == b - d,
                BinOp::FMul => step_value(s, (n - 2) as nat, a, b, c, d) == a * c - b * d
                    && step_value(s, (n - 1) as nat, a, b, c, d) == a * d + b * c,
                _ => s[n - 2].0 == FloatInstr::Div && s[n - 2].1 == PartRef::Step(7) && s[n - 2].2 == PartRef::Step(2)
                    && s[n - 1].0 == FloatInstr::Div && s[n - 1].1 == PartRef::Step(8) && s[n - 1].2 == PartRef::Step(2)
                    && step_value(s, 7, a, b, c, d) == a * c + b * d && step_value(s, 8, a, b, c, d) == b * c - a * d
                    && step_value(s, 2, a, b, c, d) == c * c + d * d,
            }
        }),
{
    let s = complex_steps(op);
    reveal_with_fuel(step_value, 3);
    reveal_with_fuel(input_value, 3);
    if op is FMul {
        assert(step_value(s, 0, a, b, c, d) == a * c);
        assert(step_value(s, 1, a, b, c, d) == b * d);
        assert(step_value(s, 2, a, b, c, d) == a * d);
        assert(step_value(s, 3, a, b, c, d) == b * c);
    } else if op is FDiv {
        assert(step_value(s, 0, a, b, c, d) == c * c);
        assert(step_value(s, 1, a, b, c, d) == d * d);
        assert(step_value(s, 3, a, b, c, d) == a * c);
        assert(step_value(s, 4, a, b, c, d) == b * d);
        assert(step_value(s, 5, a, b, c, d) == b * c);
        assert(step_value(s, 6, a, b, c, d) == a * d);
    }
}

} // verus!
