//! Which LLVM instruction each CFG operator becomes: the dispatch of binary
//! operators, equality on each kind of scalar, and unary operators.

use vstd::prelude::*;

verus! {

/// Binary operators of the CFG.
#[derive(Copy, Clone, Debug, PartialEq, Eq, Structural)]
pub enum BinOp {
    Add,
    Sub,
    Mul,
    SDiv,
    UDiv,
    SRem,
    URem,
    FDiv,
    Shl,
    AShr,
    LShr,
    BitAnd,
    BitXor,
    BitOr,
    Eq,
    Ne,
    SLt,
    SLe,
    SGt,
    SGe,
    ULt,
    ULe,
    UGt,
    UGe,
    FLt,
    FLe,
    FGt,
    FGe,
    FAdd,
    FSub,
    FMul,
    PtrAdd,
    PtrSub,
    PtrDiff,
}

/// Integer arithmetic and bitwise instructions.
#[derive(Copy, Clone, Debug, PartialEq, Eq, Structural)]
pub enum IntInstr {
    Add,
    Sub,
    Mul,
    SDiv,
    UDiv,
    SRem,
    URem,
    Shl,
    AShr,
    LShr,
    And,
    Xor,
    Or,
}

/// Integer comparison predicates (`icmp`).
#[derive(Copy, Clone, Debug, PartialEq, Eq, Structural)]
pub enum IntPredicate {
    Eq,
    Ne,
    Slt,
    Sle,
    Sgt,
    Sge,
    Ult,
    Ule,
    Ugt,
    Uge,
}

/// Ordered floating-point comparison predicates (`fcmp`).
#[derive(Copy, Clone, Debug, PartialEq, Eq, Structural)]
pub enum FloatPredicate {
    Oeq,
    One,
    Olt,
    Ole,
    Ogt,
    Oge,
}

/// Floating-point arithmetic instructions.
#[derive(Copy, Clone, Debug, PartialEq, Eq, Structural)]
pub enum FloatInstr {
    Add,
    Sub,
    Mul,
    Div,
}

/// How a binary operator is lowered.
#[derive(Copy, Clone, Debug, PartialEq, Eq, Structural)]
pub enum BinOpLowering {
    /// One integer instruction on two integer operands.
    Int(IntInstr),
    /// `==` (when `eq`) or `!=`, by the kind of the operands.
    Equality { eq: bool },
    /// An `icmp` with this predicate.
    IntCompare(IntPredicate),
    /// An `fcmp` with this predicate.
    FloatCompare(FloatPredicate),
    /// A real or complex floating-point instruction.
    Float(FloatInstr),
    /// Pointer plus integer.
    PtrAdd,
    /// Pointer minus integer.
    PtrSub,
    /// Pointer minus pointer, in elements.
    PtrDiff,
}

/// The lowering of each binary operator.
pub open spec fn binop_lowering_spec(op: BinOp) -> BinOpLowering {
    match op {
        BinOp::Add => BinOpLowering::Int(IntInstr::Add),
        BinOp::Sub => BinOpLowering::Int(IntInstr::Sub),
        BinOp::Mul => BinOpLowering::Int(IntInstr::Mul),
        BinOp::SDiv => BinOpLowering::Int(IntInstr::SDiv),
        BinOp::UDiv => BinOpLowering::Int(IntInstr::UDiv),
        BinOp::SRem => BinOpLowering::Int(IntInstr::SRem),
        BinOp::URem => BinOpLowering::Int(IntInstr::URem),
        BinOp::FDiv => BinOpLowering::Float(FloatInstr::Div),
        BinOp::Shl => BinOpLowering::Int(IntInstr::Shl),
        BinOp::AShr => BinOpLowering::Int(IntInstr::AShr),
        BinOp::LShr => BinOpLowering::Int(IntInstr::LShr),
        BinOp::BitAnd => BinOpLowering::Int(IntInstr::And),
        BinOp::BitXor => BinOpLowering::Int(IntInstr::Xor),
        BinOp::BitOr => BinOpLowering::Int(IntInstr::Or),
        BinOp::Eq => BinOpLowering::Equality { eq: true },
        BinOp::Ne => BinOpLowering::Equality { eq: false },
        BinOp::SLt => BinOpLowering::IntCompare(IntPredicate::Slt),
        BinOp::SLe => BinOpLowering::IntCompare(IntPredicate::Sle),
        BinOp::SGt => BinOpLowering::IntCompare(IntPredicate::Sgt),
        BinOp::SGe => BinOpLowering::IntCompare(IntPredicate::Sge),
        BinOp::ULt => BinOpLowering::IntCompare(IntPredicate::Ult),
        BinOp::ULe => BinOpLowering::IntCompare(IntPredicate::Ule),
        BinOp::UGt => BinOpLowering::IntCompare(IntPredicate::Ugt),
        BinOp::UGe => BinOpLowering::IntCompare(IntPredicate::Uge),
        BinOp::FLt => BinOpLowering::FloatCompare(FloatPredicate::Olt),
        BinOp::FLe => BinOpLowering::FloatCompare(FloatPredicate::Ole),
        BinOp::FGt => BinOpLowering::FloatCompare(FloatPredicate::Ogt),
        BinOp::FGe => BinOpLowering::FloatCompare(FloatPredicate::Oge),
        BinOp::FAdd => BinOpLowering::Float(FloatInstr::Add),
        BinOp::FSub => BinOpLowering::Float(FloatInstr::Sub),
        BinOp::FMul => BinOpLowering::Float(FloatInstr::Mul),
        BinOp::PtrAdd => BinOpLowering::PtrAdd,
        BinOp::PtrSub => BinOpLowering::PtrSub,
        BinOp::PtrDiff => BinOpLowering::PtrDiff,
    }
}

/// How the binary operator `op` is lowered.
pub fn binop_lowering(op: BinOp) -> (l: BinOpLowering)
    ensures
        l == binop_lowering_spec(op),
{
    match op {
        BinOp::Add => BinOpLowering::Int(IntInstr::Add),
        BinOp::Sub => BinOpLowering::Int(IntInstr::Sub),
        BinOp::Mul => BinOpLowering::Int(IntInstr::Mul),
        BinOp::SDiv => BinOpLowering::Int(IntInstr::SDiv),
        BinOp::UDiv => BinOpLowering::Int(IntInstr::UDiv),
        BinOp::SRem => BinOpLowering::Int(IntInstr::SRem),
        BinOp::URem => BinOpLowering::Int(IntInstr::URem),
        BinOp::FDiv => BinOpLowering::Float(FloatInstr::Div),
        BinOp::Shl => BinOpLowering::Int(IntInstr::Shl),
        BinOp::AShr => BinOpLowering::Int(IntInstr::AShr),
        BinOp::LShr => BinOpLowering::Int(IntInstr::LShr),
        BinOp::BitAnd => BinOpLowering::Int(IntInstr::And),
        BinOp::BitXor => BinOpLowering::Int(IntInstr::Xor),
        BinOp::BitOr => BinOpLowering::Int(IntInstr::Or),
        BinOp::Eq => BinOpLowering::Equality { eq: true },
        BinOp::Ne => BinOpLowering::Equality { eq: false },
        BinOp::SLt => BinOpLowering::IntCompare(IntPredicate::Slt),
        BinOp::SLe => BinOpLowering::IntCompare(IntPredicate::Sle),
        BinOp::SGt => BinOpLowering::IntCompare(IntPredicate::Sgt),
        BinOp::SGe => BinOpLowering::IntCompare(IntPredicate::Sge),
        BinOp::ULt => BinOpLowering::IntCompare(IntPredicate::Ult),
        BinOp::ULe => BinOpLowering::IntCompare(IntPredicate::Ule),
        BinOp::UGt => BinOpLowering::IntCompare(IntPredicate::Ugt),
        BinOp::UGe => BinOpLowering::IntCompare(IntPredicate::Uge),
        BinOp::FLt => BinOpLowering::FloatCompare(FloatPredicate::Olt),
        BinOp::FLe => BinOpLowering::FloatCompare(FloatPredicate::Ole),
        BinOp::FGt => BinOpLowering::FloatCompare(FloatPredicate::Ogt),
        BinOp::FGe => BinOpLowering::FloatCompare(FloatPredicate::Oge),
        BinOp::FAdd => BinOpLowering::Float(FloatInstr::Add),
        BinOp::FSub => BinOpLowering::Float(FloatInstr::Sub),
        BinOp::FMul => BinOpLowering::Float(FloatInstr::Mul),
        BinOp::PtrAdd => BinOpLowering::PtrAdd,
        BinOp::PtrSub => BinOpLowering::PtrSub,
        BinOp::PtrDiff => BinOpLowering::PtrDiff,
    }
}

/// The value of a 64-bit pattern read as a two's-complement integer.
pub open spec fn signed_value(x: u64) -> int {
    if x < 0x8000_0000_0000_0000 {
        x as int
    } else {
        x as int - 0x1_0000_0000_0000_0000
    }
}

/// The 64-bit pattern of an integer, modulo 2^64.
pub open spec fn wrap64(x: int) -> u64 {
    (x % 0x1_0000_0000_0000_0000) as u64
}

/// Whether the C comparison `op` holds of the operands `a` and `b`, both
/// given by their bit patterns: `S` operators compare the values read as
/// signed integers, `U` operators as unsigned ones. `None` for an operator
/// that is no integer comparison.
pub open spec fn c_int_comparison(op: BinOp, a: u64, b: u64) -> Option<bool> {
    let (x, y) = (signed_value(a), signed_value(b));
    match op {
        BinOp::SLt => Some(x < y),
        BinOp::SLe => Some(x <= y),
        BinOp::SGt => Some(x > y),
        BinOp::SGe => Some(x >= y),
        BinOp::ULt => Some(a < b),
        BinOp::ULe => Some(a <= b),
        BinOp::UGt => Some(a > b),
        BinOp::UGe => Some(a >= b),
        _ => None,
    }
}

/// Whether `icmp` with predicate `p` is true of the bit patterns `a`
/// and `b`.
pub open spec fn icmp_holds(p: IntPredicate, a: u64, b: u64) -> bool {
    match p {
        IntPredicate::Eq => a == b,
        IntPredicate::Ne => a != b,
        IntPredicate::Slt => signed_value(a) < signed_value(b),
        IntPredicate::Sle => signed_value(a) <= signed_value(b),
        IntPredicate::Sgt => signed_value(a) > signed_value(b),
        IntPredicate::Sge => signed_value(a) >= signed_value(b),
        IntPredicate::Ult => a < b,
        IntPredicate::Ule => a <= b,
        IntPredicate::Ugt => a > b,
        IntPredicate::Uge => a >= b,
    }
}

/// Whether the C comparison `op` holds of two ordered (non-NaN)
/// floating-point values, standing here as the numbers `x` and `y`.
pub open spec fn c_float_comparison(op: BinOp, x: int, y: int) -> Option<bool> {
    match op {
        BinOp::FLt => Some(x < y),
        BinOp::FLe => Some(x <= y),
        BinOp::FGt => Some(x > y),
        BinOp::FGe => Some(x >= y),
        _ => None,
    }
}

/// Whether `fcmp` with the ordered predicate `p` is true of two non-NaN
/// values, standing here as the numbers `x` and `y`.
pub open spec fn fcmp_holds(p: FloatPredicate, x: int, y: int) -> bool {
    match p {
        FloatPredicate::Oeq => x == y,
        FloatPredicate::One => x != y,
        FloatPredicate::Olt => x < y,
        FloatPredicate::Ole => x <= y,
        FloatPredicate::Ogt => x > y,
        FloatPredicate::Oge => x >= y,
    }
}

/// The result of the C integer operator `op` on 64-bit operands `a` and
/// `b`, as a bit pattern: arithmetic wraps modulo 2^64, `S` division and
/// remainder truncate the signed values toward zero, shifts move bits by
/// the amount `b`. `None` where C leaves the result undefined (division by
/// zero, a signed quotient that overflows, a shift by 64 or more) and for
/// operators that are not integer arithmetic.
pub open spec fn c_int_arith(op: BinOp, a: u64, b: u64) -> Option<u64> {
    let (x, y) = (signed_value(a), signed_value(b));
    let signed_ok = y != 0 && !(x == -0x8000_0000_0000_0000 && y == -1);
    let q = if (x >= 0) == (y > 0) || x % y == 0 { x / y } else { x / y + 1 };
    match op {
        BinOp::Add => Some(wrap64(a + b)),
        BinOp::Sub => Some(wrap64(a - b)),
        BinOp::Mul => Some(wrap64(a * b)),
        BinOp::UDiv => if b == 0 { None } else { Some(((a as int) / (b as int)) as u64) },
        BinOp::URem => if b == 0 { None } else { Some(((a as int) % (b as int)) as u64) },
        BinOp::SDiv => if signed_ok { Some(wrap64(q)) } else { None },
        BinOp::SRem => if signed_ok { Some(wrap64(x - q * y)) } else { None },
        BinOp::Shl => if b < 64 { Some(wrap64(a * pow2(b as nat))) } else { None },
        BinOp::LShr => if b < 64 { Some(((a as int) / pow2(b as nat)) as u64) } else { None },
        BinOp::AShr => if b < 64 { Some(wrap64(x / pow2(b as nat))) } else { None },
        BinOp::BitAnd => Some(a & b),
        BinOp::BitXor => Some(a ^ b),
        BinOp::BitOr => Some(a | b),
        _ => None,
    }
}

/// `2^n`.
pub open spec fn pow2(n: nat) -> int
    decreases n,
{
    if n == 0 {
        1
    } else {
        2 * pow2((n - 1) as nat)
    }
}

/// The result of the LLVM integer instruction `i` on 64-bit operands `a`
/// and `b`, or `None` where it is poison or undefined behaviour.
pub open spec fn int_instr_value(i: IntInstr, a: u64, b: u64) -> Option<u64> {
    let (x, y) = (signed_value(a), signed_value(b));
    let q = if (x >= 0) == (y > 0) || x % y == 0 { x / y } else { x / y + 1 };
    match i {
        IntInstr::Add => Some(wrap64(a + b)),
        IntInstr::Sub => Some(wrap64(a - b)),
        IntInstr::Mul => Some(wrap64(a * b)),
        IntInstr::UDiv => if b == 0 { None } else { Some(((a as int) / (b as int)) as u64) },
        IntInstr::URem => if b == 0 { None } else { Some(((a as int) % (b as int)) as u64) },
        IntInstr::SDiv => if y == 0 || (x == -0x8000_0000_0000_0000 && y == -1) { None } else { Some(wrap64(q)) },
        IntInstr::SRem => if y == 0 || (x == -0x8000_0000_0000_0000 && y == -1) { None } else { Some(wrap64(x - q * y)) },
        IntInstr::Shl => if b >= 64 { None } else { Some(wrap64(a * pow2(b as nat))) },
        IntInstr::LShr => if b >= 64 { None } else { Some(((a as int) / pow2(b as nat)) as u64) },
        IntInstr::AShr => if b >= 64 { None } else { Some(wrap64(x / pow2(b as nat))) },
        IntInstr::And => Some(a & b),
        IntInstr::Xor => Some(a ^ b),
        IntInstr::Or => Some(a | b),
    }
}

/// Each C comparison is lowered to the comparison that holds exactly when
/// it does: an integer comparison to the `icmp` predicate with the same
/// relation and signedness, a floating comparison to the ordered `fcmp`
/// predicate with the same relation; `==` and `!=` to equality.
pub proof fn lemma_comparisons_keep_their_meaning(op: BinOp, a: u64, b: u64, x: int, y: int)
    ensures
        (c_int_comparison(op, a, b) is Some) ==> (binop_lowering_spec(op) is IntCompare),
        (c_int_comparison(op, a, b) is Some) ==> icmp_holds(binop_lowering_spec(op)->IntCompare_0, a, b)
            == c_int_comparison(op, a, b)->Some_0,
        (c_float_comparison(op, x, y) is Some) ==> (binop_lowering_spec(op) is FloatCompare),
        (c_float_comparison(op, x, y) is Some) ==> fcmp_holds(binop_lowering_spec(op)->FloatCompare_0, x, y)
            == c_float_comparison(op, x, y)->Some_0,
        (op == BinOp::Eq) == (binop_lowering_spec(op) == (BinOpLowering::Equality { eq: true })),
        (op == BinOp::Ne) == (binop_lowering_spec(op) == (BinOpLowering::Equality { eq: false })),
{
}

/// Each C integer arithmetic, bitwise or shift operator is lowered to the
/// instruction that computes the same bits wherever C defines the result.
pub proof fn lemma_arithmetic_keeps_its_meaning(op: BinOp, a: u64, b: u64)
    ensures
        (c_int_arith(op, a, b) is Some) ==> (binop_lowering_spec(op) is Int),
        (c_int_arith(op, a, b) is Some) ==> int_instr_value(binop_lowering_spec(op)->Int_0, a, b) == c_int_arith(
            op,
            a,
            b,
        ),
{
}

/// Different operators are lowered differently.
pub proof fn lemma_binop_lowering_injective(op1: BinOp, op2: BinOp)
    ensures
        binop_lowering_spec(op1) == binop_lowering_spec(op2) ==> op1 == op2,
{
}

/// The kind of an LLVM scalar value.
#[derive(Copy, Clone, Debug, PartialEq, Eq, Structural)]
pub enum ScalarKind {
    Int,
    Float,
    Ptr,
    /// Any other value (a vector, an aggregate).
    Other,
}

/// A comparison on scalar values.
#[derive(Copy, Clone, Debug, PartialEq, Eq, Structural)]
pub enum Compare {
    /// `icmp` with this predicate.
    Int(IntPredicate),
    /// `fcmp` with this predicate.
    Float(FloatPredicate),
    /// Both pointers converted to 64-bit integers, then `icmp`.
    PtrAsInt(IntPredicate),
}

/// `==` (when `eq`) or `!=` on two scalars of the given kinds: the
/// comparison, or `None` when the kinds differ or are not comparable.
pub open spec fn equality_spec(eq: bool, lhs: ScalarKind, rhs: ScalarKind) -> Option<Compare> {
    let ip = if eq {
        IntPredicate::Eq
    } else {
        IntPredicate::Ne
    };
    match (lhs, rhs) {
        (ScalarKind::Int, ScalarKind::Int) => Some(Compare::Int(ip)),
        (ScalarKind::Float, ScalarKind::Float) => Some(
            Compare::Float(
                if eq {
                    FloatPredicate::Oeq
                } else {
                    FloatPredicate::One
                },
            ),
        ),
        (ScalarKind::Ptr, ScalarKind::Ptr) => Some(Compare::PtrAsInt(ip)),
        _ => None,
    }
}

/// The comparison that lowers `==` (when `eq`) or `!=` on operands of the
/// given kinds.
pub fn equality_lowering(eq: bool, lhs: ScalarKind, rhs: ScalarKind) -> (c: Option<Compare>)
    ensures
        c == equality_spec(eq, lhs, rhs),
{
    let ip = if eq {
        IntPredicate::Eq
    } else {
        IntPredicate::Ne
    };
    match (lhs, rhs) {
        (ScalarKind::Int, ScalarKind::Int) => Some(Compare::Int(ip)),
        (ScalarKind::Float, ScalarKind::Float) => Some(
            Compare::Float(
                if eq {
                    FloatPredicate::Oeq
                } else {
                    FloatPredicate::One
                },
            ),
        ),
        (ScalarKind::Ptr, ScalarKind::Ptr) => Some(Compare::PtrAsInt(ip)),
        _ => None,
    }
}

/// Unary operators of the CFG.
#[derive(Copy, Clone, Debug, PartialEq, Eq, Structural)]
pub enum UnOp {
    /// Integer negation.
    Neg,
    /// Floating (real or complex) negation.
    FNeg,
    /// Bitwise complement.
    BitNot,
    /// Logical not: comparison with zero.
    LogNot,
}

/// How a unary operator is lowered.
#[derive(Copy, Clone, Debug, PartialEq, Eq, Structural)]
pub enum UnOpLowering {
    /// `sub 0, x` on an integer.
    IntNeg,
    /// `fneg` on a real value.
    FloatNeg,
    /// Negation of both parts of a complex value.
    ComplexNeg,
    /// `xor x, -1` on an integer.
    Not,
    /// `icmp eq x, 0`.
    IntIsZero,
    /// `fcmp oeq x, 0.0`.
    FloatIsZero,
    /// `icmp eq p, null`.
    IsNull,
}

/// The lowering of a unary operator whose operand has type kind
/// `complex` (a complex type) and value kind `value`; `None` when logical
/// not meets a value that is no scalar.
pub open spec fn unop_spec(op: UnOp, complex: bool, value: ScalarKind) -> Option<UnOpLowering> {
    match op {
        UnOp::Neg => Some(UnOpLowering::IntNeg),
        UnOp::FNeg => Some(
            if complex {
                UnOpLowering::ComplexNeg
            } else {
                UnOpLowering::FloatNeg
            },
        ),
        UnOp::BitNot => Some(UnOpLowering::Not),
        UnOp::LogNot => match value {
            ScalarKind::Int => Some(UnOpLowering::IntIsZero),
            ScalarKind::Float => Some(UnOpLowering::FloatIsZero),
            ScalarKind::Ptr => Some(UnOpLowering::IsNull),
            ScalarKind::Other => None,
        },
    }
}

/// How the unary operator `op` is lowered on an operand whose type is
/// complex when `complex` and whose value has kind `value`.
pub fn unop_lowering(op: UnOp, complex: bool, value: ScalarKind) -> (l: Option<UnOpLowering>)
    ensures
        l == unop_spec(op, complex, value),
{
    match op {
        UnOp::Neg => Some(UnOpLowering::IntNeg),
        UnOp::FNeg => Some(
            if complex {
                UnOpLowering::ComplexNeg
            } else {
                UnOpLowering::FloatNeg
            },
        ),
        UnOp::BitNot => Some(UnOpLowering::Not),
        UnOp::LogNot => match value {
            ScalarKind::Int => Some(UnOpLowering::IntIsZero),
            ScalarKind::Float => Some(UnOpLowering::FloatIsZero),
            ScalarKind::Ptr => Some(UnOpLowering::IsNull),
            ScalarKind::Other => None,
        },
    }
}

/// Each unary operator is lowered by what it does to its operand:
/// integer negation subtracts from zero, floating negation negates a real
/// value or both parts of a complex one, complement flips every bit, and
/// logical not compares the operand with the zero of its own kind, which
/// only a scalar has.
pub proof fn lemma_unop_lowering_meaning(op: UnOp, complex: bool, value: ScalarKind)
    ensures
        (unop_spec(op, complex, value) == Some(UnOpLowering::IntNeg)) == (op == UnOp::Neg),
        (unop_spec(op, complex, value) == Some(UnOpLowering::Not)) == (op == UnOp::BitNot),
        (unop_spec(op, complex, value) == Some(UnOpLowering::ComplexNeg)) == (op == UnOp::FNeg && complex),
        (unop_spec(op, complex, value) == Some(UnOpLowering::FloatNeg)) == (op == UnOp::FNeg && !complex),
        (unop_spec(op, complex, value) == Some(UnOpLowering::IntIsZero)) == (op == UnOp::LogNot && value
            == ScalarKind::Int),
        (unop_spec(op, complex, value) == Some(UnOpLowering::FloatIsZero)) == (op == UnOp::LogNot && value
            == ScalarKind::Float),
        (unop_spec(op, complex, value) == Some(UnOpLowering::IsNull)) == (op == UnOp::LogNot && value
            == ScalarKind::Ptr),
        (unop_spec(op, complex, value) is None) == (op == UnOp::LogNot && value == ScalarKind::Other),
{
}

/// `==` and `!=` compare two scalars of one kind by their values: the
/// chosen comparison holds of two integers (or two pointers, as integers)
/// exactly when they are equal, for `==`, or different, for `!=`, and
/// likewise of two ordered floating values. Scalars of different kinds,
/// or values that are no scalars, are not compared.
pub proof fn lemma_equality_meaning(eq: bool, lhs: ScalarKind, rhs: ScalarKind, a: u64, b: u64, x: int, y: int)
    ensures
        (equality_spec(eq, lhs, rhs) is Some) == (lhs == rhs && lhs != ScalarKind::Other),
        (equality_spec(eq, lhs, rhs) is Some && equality_spec(eq, lhs, rhs)->Some_0 is Int) ==> icmp_holds(
            equality_spec(eq, lhs, rhs)->Some_0->Int_0,
            a,
            b,
        ) == (eq == (a == b)),
        (equality_spec(eq, lhs, rhs) is Some && equality_spec(eq, lhs, rhs)->Some_0 is PtrAsInt) ==> icmp_holds(
            equality_spec(eq, lhs, rhs)->Some_0->PtrAsInt_0,
            a,
            b,
        ) == (eq == (a == b)),
        (equality_spec(eq, lhs, rhs) is Some && equality_spec(eq, lhs, rhs)->Some_0 is Float) ==> fcmp_holds(
            equality_spec(eq, lhs, rhs)->Some_0->Float_0,
            x,
            y,
        ) == (eq == (x == y)),
        (lhs == ScalarKind::Int && rhs == ScalarKind::Int) ==> (equality_spec(eq, lhs, rhs) is Some
            && equality_spec(eq, lhs, rhs)->Some_0 is Int),
        (lhs == ScalarKind::Ptr && rhs == ScalarKind::Ptr) ==> (equality_spec(eq, lhs, rhs) is Some
            && equality_spec(eq, lhs, rhs)->Some_0 is PtrAsInt),
        (lhs == ScalarKind::Float && rhs == ScalarKind::Float) ==> (equality_spec(eq, lhs, rhs) is Some
            && equality_spec(eq, lhs, rhs)->Some_0 is Float),
{
}

} // verus!
