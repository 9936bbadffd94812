//! The algebraic simplifications that the translator applies when an
//! operand is a constant or both operands are the same register, the
//! 16-bit immediate encodings of constants, and the laws that justify them.
use vstd::prelude::*;
use crate::ops::{BinOp, IntBinOp, FloatBinOp, TrapCode, Folded, fold_binary, lo32, f32_is_nan,
    f32_is_infinite, f32_is_sign_negative, f64_is_nan, f64_is_infinite, f64_is_sign_negative,
    f32_bits_is_nan, f32_bits_is_infinite, f64_bits_is_nan, f64_bits_is_infinite};
use crate::value::{TypedVal, ValType, s32, s64, pow32};

verus! {

/// What the translator does instead of emitting an instruction.
#[derive(Clone, Copy, Debug, PartialEq, Eq, Structural)]
pub enum Simplify {
    /// No simplification applies: emit the operator.
    Keep,
    /// The result is this constant, whatever the register holds.
    Const(TypedVal),
    /// The result is the left operand.
    Lhs,
    /// The result is the right operand.
    Rhs,
    /// The operator always traps.
    Trap(TrapCode),
}

/// The zero of the result type of an operator.
pub open spec fn zero_of(op: BinOp) -> TypedVal {
    match op {
        BinOp::I64(_) => TypedVal::spec_i64(0),
        _ => TypedVal::spec_i32(0),
    }
}

fn exec_zero_of(op: BinOp) -> (r: TypedVal)
    ensures
        r == zero_of(op),
{
    match op {
        BinOp::I64(_) => TypedVal::from_i64_bits(0),
        _ => TypedVal::from_i32_bits(0),
    }
}

/// The operand value of the type of an operator with the given bits.
pub open spec fn operand_val(op: BinOp, x: u64) -> TypedVal {
    match op {
        BinOp::I32(_) => TypedVal::spec_i32(lo32(x)),
        BinOp::I64(_) => TypedVal::spec_i64(x),
        BinOp::F32(_) => TypedVal { ty: ValType::F32, bits: x },
        BinOp::F64(_) => TypedVal { ty: ValType::F64, bits: x },
    }
}

/// Bits fit the operand type of an operator.
pub open spec fn operand_fits(op: BinOp, x: u64) -> bool {
    match op {
        BinOp::I32(_) | BinOp::F32(_) => x < pow32(),
        _ => true,
    }
}

/// The operators that the translator evaluates exactly on constants: all
/// integer operators, float comparisons and `copysign`.
pub open spec fn folds_exactly(op: BinOp) -> bool {
    match op {
        BinOp::F32(o) | BinOp::F64(o) => match o {
            FloatBinOp::Add | FloatBinOp::Sub | FloatBinOp::Mul | FloatBinOp::Div
            | FloatBinOp::Min | FloatBinOp::Max => false,
            _ => true,
        },
        _ => true,
    }
}

/// Operators whose operands may be exchanged.
pub open spec fn is_commutative(op: BinOp) -> bool {
    match op {
        BinOp::I32(o) | BinOp::I64(o) => match o {
            IntBinOp::Add | IntBinOp::Mul | IntBinOp::And | IntBinOp::Or | IntBinOp::Xor
            | IntBinOp::Eq | IntBinOp::Ne => true,
            _ => false,
        },
        BinOp::F32(o) | BinOp::F64(o) => match o {
            FloatBinOp::Eq | FloatBinOp::Ne | FloatBinOp::Add | FloatBinOp::Mul
            | FloatBinOp::Min | FloatBinOp::Max => true,
            _ => false,
        },
    }
}

/// Returns `true` if the operator is commutative.
pub fn exec_is_commutative(op: BinOp) -> (r: bool)
    ensures
        r == is_commutative(op),
{
    match op {
        BinOp::I32(o) | BinOp::I64(o) => match o {
            IntBinOp::Add | IntBinOp::Mul | IntBinOp::And | IntBinOp::Or | IntBinOp::Xor
            | IntBinOp::Eq | IntBinOp::Ne => true,
            _ => false,
        },
        BinOp::F32(o) | BinOp::F64(o) => match o {
            FloatBinOp::Eq | FloatBinOp::Ne | FloatBinOp::Add | FloatBinOp::Mul
            | FloatBinOp::Min | FloatBinOp::Max => true,
            _ => false,
        },
    }
}

/// The instruction set has no `gt` and `ge`: they are encoded as `lt` and
/// `le` with exchanged operands.
pub open spec fn is_swapped(op: BinOp) -> bool {
    match op {
        BinOp::I32(o) | BinOp::I64(o) => match o {
            IntBinOp::GtS | IntBinOp::GtU | IntBinOp::GeS | IntBinOp::GeU => true,
            _ => false,
        },
        BinOp::F32(o) | BinOp::F64(o) => o == FloatBinOp::Gt || o == FloatBinOp::Ge,
    }
}

/// The operator that the instruction set uses for `op` (see [`is_swapped`]).
pub open spec fn encoded_op(op: BinOp) -> BinOp {
    match op {
        BinOp::I32(o) => BinOp::I32(encoded_int_op(o)),
        BinOp::I64(o) => BinOp::I64(encoded_int_op(o)),
        BinOp::F32(o) => BinOp::F32(encoded_float_op(o)),
        BinOp::F64(o) => BinOp::F64(encoded_float_op(o)),
    }
}

pub open spec fn encoded_int_op(o: IntBinOp) -> IntBinOp {
    match o {
        IntBinOp::GtS => IntBinOp::LtS,
        IntBinOp::GtU => IntBinOp::LtU,
        IntBinOp::GeS => IntBinOp::LeS,
        IntBinOp::GeU => IntBinOp::LeU,
        _ => o,
    }
}

pub open spec fn encoded_float_op(o: FloatBinOp) -> FloatBinOp {
    match o {
        FloatBinOp::Gt => FloatBinOp::Lt,
        FloatBinOp::Ge => FloatBinOp::Le,
        _ => o,
    }
}

/// Returns the encoded operator and whether the operands are exchanged.
pub fn exec_encoded_op(op: BinOp) -> (r: (BinOp, bool))
    ensures
        r.0 == encoded_op(op),
        r.1 == is_swapped(op),
{
    let swap_int = |o: IntBinOp| -> (r: (IntBinOp, bool))
        ensures
            r.0 == encoded_int_op(o),
            r.1 == (o == IntBinOp::GtS || o == IntBinOp::GtU || o == IntBinOp::GeS || o
                == IntBinOp::GeU),
        {
            match o {
                IntBinOp::GtS => (IntBinOp::LtS, true),
                IntBinOp::GtU => (IntBinOp::LtU, true),
                IntBinOp::GeS => (IntBinOp::LeS, true),
                IntBinOp::GeU => (IntBinOp::LeU, true),
                _ => (o, false),
            }
        };
    match op {
        BinOp::I32(o) => {
            let (e, s) = swap_int(o);
            (BinOp::I32(e), s)
        },
        BinOp::I64(o) => {
            let (e, s) = swap_int(o);
            (BinOp::I64(e), s)
        },
        BinOp::F32(o) => match o {
            FloatBinOp::Gt => (BinOp::F32(FloatBinOp::Lt), true),
            FloatBinOp::Ge => (BinOp::F32(FloatBinOp::Le), true),
            _ => (op, false),
        },
        BinOp::F64(o) => match o {
            FloatBinOp::Gt => (BinOp::F64(FloatBinOp::Lt), true),
            FloatBinOp::Ge => (BinOp::F64(FloatBinOp::Le), true),
            _ => (op, false),
        },
    }
}

/// Operators that read their constant operand as an unsigned number.
pub open spec fn reads_unsigned(o: IntBinOp) -> bool {
    match o {
        IntBinOp::DivU | IntBinOp::RemU | IntBinOp::LtU | IntBinOp::GtU | IntBinOp::LeU
        | IntBinOp::GeU => true,
        _ => false,
    }
}

/// The 16-bit immediate that encodes the constant operand `c` of `op`, if
/// there is one: a signed 16-bit number for signed readings, an unsigned
/// one for unsigned readings; floats have none.
pub open spec fn imm16(op: BinOp, c: u64) -> Option<i64> {
    match op {
        BinOp::I32(o) => if reads_unsigned(o) {
            if lo32(c) <= 0xffff {
                Some(lo32(c) as i64)
            } else {
                None
            }
        } else {
            if -0x8000 <= s32(lo32(c)) <= 0x7fff {
                Some(s32(lo32(c)) as i64)
            } else {
                None
            }
        },
        BinOp::I64(o) => if reads_unsigned(o) {
            if c <= 0xffff {
                Some(c as i64)
            } else {
                None
            }
        } else {
            if -0x8000 <= s64(c) <= 0x7fff {
                Some(s64(c) as i64)
            } else {
                None
            }
        },
        _ => None,
    }
}

/// Computes [`imm16`].
pub fn exec_imm16(op: BinOp, c: u64) -> (r: Option<i64>)
    ensures
        r == imm16(op, c),
{
    let unsigned = |o: IntBinOp| -> (r: bool)
        ensures
            r == reads_unsigned(o),
        {
            match o {
                IntBinOp::DivU | IntBinOp::RemU | IntBinOp::LtU | IntBinOp::GtU | IntBinOp::LeU
                | IntBinOp::GeU => true,
                _ => false,
            }
        };
    match op {
        BinOp::I32(o) => {
            let x = (c % 0x1_0000_0000) as u32;
            if unsigned(o) {
                if x <= 0xffff {
                    Some(x as i64)
                } else {
                    None
                }
            } else {
                let v = crate::value::i32_from_bits(x);
                if -0x8000 <= v && v <= 0x7fff {
                    Some(v as i64)
                } else {
                    None
                }
            }
        },
        BinOp::I64(o) => {
            if unsigned(o) {
                if c <= 0xffff {
                    Some(c as i64)
                } else {
                    None
                }
            } else {
                let v = crate::value::i64_from_bits(c);
                if -0x8000 <= v && v <= 0x7fff {
                    Some(v)
                } else {
                    None
                }
            }
        },
        _ => None,
    }
}

/// The simplification of `x op x`, where both operands are one register.
pub open spec fn simplify_same(op: BinOp) -> Simplify {
    match op {
        BinOp::I32(o) | BinOp::I64(o) => match o {
            IntBinOp::Eq | IntBinOp::LeS | IntBinOp::LeU | IntBinOp::GeS | IntBinOp::GeU => {
                Simplify::Const(TypedVal::spec_bool(true))
            },
            IntBinOp::Ne | IntBinOp::LtS | IntBinOp::LtU | IntBinOp::GtS | IntBinOp::GtU => {
                Simplify::Const(TypedVal::spec_bool(false))
            },
            IntBinOp::Sub | IntBinOp::Xor => Simplify::Const(zero_of(op)),
            IntBinOp::And | IntBinOp::Or => Simplify::Lhs,
            _ => Simplify::Keep,
        },
        BinOp::F32(o) | BinOp::F64(o) => match o {
            FloatBinOp::Lt | FloatBinOp::Gt => Simplify::Const(TypedVal::spec_bool(false)),
            FloatBinOp::Copysign => Simplify::Lhs,
            _ => Simplify::Keep,
        },
    }
}

/// The simplification of `x op c` for an integer operator, where `c` is the
/// constant's pattern, `ones` the all-ones pattern, `smin` the pattern of
/// the smallest signed number and `width` the number of bits.
pub open spec fn simplify_int_reg_imm(
    op: BinOp,
    o: IntBinOp,
    c: u64,
    ones: u64,
    smin: u64,
    width: u64,
) -> Simplify {
    let smax = (smin - 1) as u64;
    let f = Simplify::Const(TypedVal::spec_bool(false));
    let t = Simplify::Const(TypedVal::spec_bool(true));
    match o {
        IntBinOp::LtS => if c == smin { f } else { Simplify::Keep },
        IntBinOp::LtU => if c == 0 { f } else { Simplify::Keep },
        IntBinOp::GtS => if c == smax { f } else { Simplify::Keep },
        IntBinOp::GtU => if c == ones { f } else { Simplify::Keep },
        IntBinOp::LeS => if c == smax { t } else { Simplify::Keep },
        IntBinOp::LeU => if c == ones { t } else { Simplify::Keep },
        IntBinOp::GeS => if c == smin { t } else { Simplify::Keep },
        IntBinOp::GeU => if c == 0 { t } else { Simplify::Keep },
        IntBinOp::Add | IntBinOp::Sub | IntBinOp::Xor => if c == 0 {
            Simplify::Lhs
        } else {
            Simplify::Keep
        },
        IntBinOp::Mul => if c == 0 {
            Simplify::Const(zero_of(op))
        } else if c == 1 {
            Simplify::Lhs
        } else {
            Simplify::Keep
        },
        IntBinOp::DivS | IntBinOp::DivU => if c == 0 {
            Simplify::Trap(TrapCode::IntegerDivisionByZero)
        } else if c == 1 {
            Simplify::Lhs
        } else {
            Simplify::Keep
        },
        IntBinOp::RemS => if c == 0 {
            Simplify::Trap(TrapCode::IntegerDivisionByZero)
        } else if c == 1 || c == ones {
            Simplify::Const(zero_of(op))
        } else {
            Simplify::Keep
        },
        IntBinOp::RemU => if c == 0 {
            Simplify::Trap(TrapCode::IntegerDivisionByZero)
        } else if c == 1 {
            Simplify::Const(zero_of(op))
        } else {
            Simplify::Keep
        },
        IntBinOp::And => if c == ones {
            Simplify::Lhs
        } else if c == 0 {
            Simplify::Const(zero_of(op))
        } else {
            Simplify::Keep
        },
        IntBinOp::Or => if c == ones {
            Simplify::Const(operand_val(op, ones))
        } else if c == 0 {
            Simplify::Lhs
        } else {
            Simplify::Keep
        },
        IntBinOp::Shl | IntBinOp::ShrS | IntBinOp::ShrU | IntBinOp::Rotl | IntBinOp::Rotr => {
            if c % width == 0 {
                Simplify::Lhs
            } else {
                Simplify::Keep
            }
        },
        IntBinOp::Eq | IntBinOp::Ne => Simplify::Keep,
    }
}

/// The simplification of `c op x` for a non-commutative integer operator.
pub open spec fn simplify_int_imm_reg(
    op: BinOp,
    o: IntBinOp,
    c: u64,
    ones: u64,
    smin: u64,
) -> Simplify {
    let smax = (smin - 1) as u64;
    let f = Simplify::Const(TypedVal::spec_bool(false));
    let t = Simplify::Const(TypedVal::spec_bool(true));
    match o {
        IntBinOp::LtS => if c == smax { f } else { Simplify::Keep },
        IntBinOp::LtU => if c == ones { f } else { Simplify::Keep },
        IntBinOp::GtS => if c == smin { f } else { Simplify::Keep },
        IntBinOp::GtU => if c == 0 { f } else { Simplify::Keep },
        IntBinOp::LeS => if c == smin { t } else { Simplify::Keep },
        IntBinOp::LeU => if c == 0 { t } else { Simplify::Keep },
        IntBinOp::GeS => if c == smax { t } else { Simplify::Keep },
        IntBinOp::GeU => if c == ones { t } else { Simplify::Keep },
        IntBinOp::ShrS | IntBinOp::Rotl | IntBinOp::Rotr => if c == ones {
            Simplify::Const(operand_val(op, ones))
        } else if c == 0 {
            Simplify::Const(zero_of(op))
        } else {
            Simplify::Keep
        },
        IntBinOp::Shl | IntBinOp::ShrU => if c == 0 {
            Simplify::Const(zero_of(op))
        } else {
            Simplify::Keep
        },
        _ => Simplify::Keep,
    }
}

/// The simplification of `x op c` for a float operator, given the
/// classification of `c`.
pub open spec fn simplify_float_reg_imm(o: FloatBinOp, nan: bool, inf: bool, neg: bool) -> Simplify {
    let f = Simplify::Const(TypedVal::spec_bool(false));
    match o {
        FloatBinOp::Eq => if nan { f } else { Simplify::Keep },
        FloatBinOp::Ne => if nan { Simplify::Const(TypedVal::spec_bool(true)) } else { Simplify::Keep },
        FloatBinOp::Lt => if nan || (inf && neg) { f } else { Simplify::Keep },
        FloatBinOp::Gt => if nan || (inf && !neg) { f } else { Simplify::Keep },
        FloatBinOp::Le | FloatBinOp::Ge => if nan { f } else { Simplify::Keep },
        FloatBinOp::Min => if inf && !neg { Simplify::Lhs } else { Simplify::Keep },
        FloatBinOp::Max => if inf && neg { Simplify::Lhs } else { Simplify::Keep },
        _ => Simplify::Keep,
    }
}

/// The simplification of `c op x` for a non-commutative float operator.
pub open spec fn simplify_float_imm_reg(o: FloatBinOp, nan: bool, inf: bool, neg: bool) -> Simplify {
    let f = Simplify::Const(TypedVal::spec_bool(false));
    match o {
        FloatBinOp::Lt => if nan || (inf && !neg) { f } else { Simplify::Keep },
        FloatBinOp::Gt => if nan || (inf && neg) { f } else { Simplify::Keep },
        FloatBinOp::Le | FloatBinOp::Ge => if nan { f } else { Simplify::Keep },
        _ => Simplify::Keep,
    }
}

/// The simplification of `x op c`, where `x` is a register and `c` the bits
/// of a constant.
pub open spec fn simplify_reg_imm(op: BinOp, c: u64) -> Simplify {
    match op {
        BinOp::I32(o) => simplify_int_reg_imm(op, o, lo32(c) as u64, 0xffff_ffff, 0x8000_0000, 32),
        BinOp::I64(o) => simplify_int_reg_imm(
            op,
            o,
            c,
            0xffff_ffff_ffff_ffff,
            0x8000_0000_0000_0000,
            64,
        ),
        BinOp::F32(o) => simplify_float_reg_imm(
            o,
            f32_is_nan(lo32(c)),
            f32_is_infinite(lo32(c)),
            f32_is_sign_negative(lo32(c)),
        ),
        BinOp::F64(o) => simplify_float_reg_imm(
            o,
            f64_is_nan(c),
            f64_is_infinite(c),
            f64_is_sign_negative(c),
        ),
    }
}

/// The simplification of `c op x`, where `c` is the bits of a constant and
/// `x` a register, for non-commutative operators.
pub open spec fn simplify_imm_reg(op: BinOp, c: u64) -> Simplify {
    match op {
        BinOp::I32(o) => simplify_int_imm_reg(op, o, lo32(c) as u64, 0xffff_ffff, 0x8000_0000),
        BinOp::I64(o) => simplify_int_imm_reg(
            op,
            o,
            c,
            0xffff_ffff_ffff_ffff,
            0x8000_0000_0000_0000,
        ),
        BinOp::F32(o) => simplify_float_imm_reg(
            o,
            f32_is_nan(lo32(c)),
            f32_is_infinite(lo32(c)),
            f32_is_sign_negative(lo32(c)),
        ),
        BinOp::F64(o) => simplify_float_imm_reg(
            o,
            f64_is_nan(c),
            f64_is_infinite(c),
            f64_is_sign_negative(c),
        ),
    }
}

/// Computes [`simplify_same`].
pub fn exec_simplify_same(op: BinOp) -> (r: Simplify)
    ensures
        r == simplify_same(op),
{
    match op {
        BinOp::I32(o) | BinOp::I64(o) => match o {
            IntBinOp::Eq | IntBinOp::LeS | IntBinOp::LeU | IntBinOp::GeS | IntBinOp::GeU => {
                Simplify::Const(TypedVal::from_bool(true))
            },
            IntBinOp::Ne | IntBinOp::LtS | IntBinOp::LtU | IntBinOp::GtS | IntBinOp::GtU => {
                Simplify::Const(TypedVal::from_bool(false))
            },
            IntBinOp::Sub | IntBinOp::Xor => Simplify::Const(exec_zero_of(op)),
            IntBinOp::And | IntBinOp::Or => Simplify::Lhs,
            _ => Simplify::Keep,
        },
        BinOp::F32(o) | BinOp::F64(o) => match o {
            FloatBinOp::Lt | FloatBinOp::Gt => Simplify::Const(TypedVal::from_bool(false)),
            FloatBinOp::Copysign => Simplify::Lhs,
            _ => Simplify::Keep,
        },
    }
}

fn exec_operand_val(op: BinOp, x: u64) -> (r: TypedVal)
    requires
        operand_fits(op, x),
    ensures
        r == operand_val(op, x),
{
    match op {
        BinOp::I32(_) => TypedVal::from_i32_bits(x as u32),
        BinOp::I64(_) => TypedVal::from_i64_bits(x),
        BinOp::F32(_) => TypedVal { ty: ValType::F32, bits: x },
        BinOp::F64(_) => TypedVal { ty: ValType::F64, bits: x },
    }
}

fn exec_simplify_int_reg_imm(
    op: BinOp,
    o: IntBinOp,
    c: u64,
    ones: u64,
    smin: u64,
    width: u64,
) -> (r: Simplify)
    requires
        smin >= 1,
        width > 0,
        operand_fits(op, ones),
    ensures
        r == simplify_int_reg_imm(op, o, c, ones, smin, width),
{
    let smax = smin - 1;
    let f = Simplify::Const(TypedVal::from_bool(false));
    let t = Simplify::Const(TypedVal::from_bool(true));
    match o {
        IntBinOp::LtS => if c == smin { f } else { Simplify::Keep },
        IntBinOp::LtU => if c == 0 { f } else { Simplify::Keep },
        IntBinOp::GtS => if c == smax { f } else { Simplify::Keep },
        IntBinOp::GtU => if c == ones { f } else { Simplify::Keep },
        IntBinOp::LeS => if c == smax { t } else { Simplify::Keep },
        IntBinOp::LeU => if c == ones { t } else { Simplify::Keep },
        IntBinOp::GeS => if c == smin { t } else { Simplify::Keep },
        IntBinOp::GeU => if c == 0 { t } else { Simplify::Keep },
        IntBinOp::Add | IntBinOp::Sub | IntBinOp::Xor => if c == 0 {
            Simplify::Lhs
        } else {
            Simplify::Keep
        },
        IntBinOp::Mul => if c == 0 {
            Simplify::Const(exec_zero_of(op))
        } else if c == 1 {
            Simplify::Lhs
        } else {
            Simplify::Keep
        },
        IntBinOp::DivS | IntBinOp::DivU => if c == 0 {
            Simplify::Trap(TrapCode::IntegerDivisionByZero)
        } else if c == 1 {
            Simplify::Lhs
        } else {
            Simplify::Keep
        },
        IntBinOp::RemS => if c == 0 {
            Simplify::Trap(TrapCode::IntegerDivisionByZero)
        } else if c == 1 || c == ones {
            Simplify::Const(exec_zero_of(op))
        } else {
            Simplify::Keep
        },
        IntBinOp::RemU => if c == 0 {
            Simplify::Trap(TrapCode::IntegerDivisionByZero)
        } else if c == 1 {
            Simplify::Const(exec_zero_of(op))
        } else {
            Simplify::Keep
        },
        IntBinOp::And => if c == ones {
            Simplify::Lhs
        } else if c == 0 {
            Simplify::Const(exec_zero_of(op))
        } else {
            Simplify::Keep
        },
        IntBinOp::Or => if c == ones {
            Simplify::Const(exec_operand_val(op, ones))
        } else if c == 0 {
            Simplify::Lhs
        } else {
            Simplify::Keep
        },
        IntBinOp::Shl | IntBinOp::ShrS | IntBinOp::ShrU | IntBinOp::Rotl | IntBinOp::Rotr => {
            if c % width == 0 {
                Simplify::Lhs
            } else {
                Simplify::Keep
            }
        },
        IntBinOp::Eq | IntBinOp::Ne => Simplify::Keep,
    }
}

fn exec_simplify_int_imm_reg(op: BinOp, o: IntBinOp, c: u64, ones: u64, smin: u64) -> (r:
    Simplify)
    requires
        smin >= 1,
        operand_fits(op, ones),
    ensures
        r == simplify_int_imm_reg(op, o, c, ones, smin),
{
    let smax = smin - 1;
    let f = Simplify::Const(TypedVal::from_bool(false));
    let t = Simplify::Const(TypedVal::from_bool(true));
    match o {
        IntBinOp::LtS => if c == smax { f } else { Simplify::Keep },
        IntBinOp::LtU => if c == ones { f } else { Simplify::Keep },
        IntBinOp::GtS => if c == smin { f } else { Simplify::Keep },
        IntBinOp::GtU => if c == 0 { f } else { Simplify::Keep },
        IntBinOp::LeS => if c == smin { t } else { Simplify::Keep },
        IntBinOp::LeU => if c == 0 { t } else { Simplify::Keep },
        IntBinOp::GeS => if c == smax { t } else { Simplify::Keep },
        IntBinOp::GeU => if c == ones { t } else { Simplify::Keep },
        IntBinOp::ShrS | IntBinOp::Rotl | IntBinOp::Rotr => if c == ones {
            Simplify::Const(exec_operand_val(op, ones))
        } else if c == 0 {
            Simplify::Const(exec_zero_of(op))
        } else {
            Simplify::Keep
        },
        IntBinOp::Shl | IntBinOp::ShrU => if c == 0 {
            Simplify::Const(exec_zero_of(op))
        } else {
            Simplify::Keep
        },
        _ => Simplify::Keep,
    }
}

fn exec_simplify_float_reg_imm(o: FloatBinOp, nan: bool, inf: bool, neg: bool) -> (r: Simplify)
    ensures
        r == simplify_float_reg_imm(o, nan, inf, neg),
{
    let f = Simplify::Const(TypedVal::from_bool(false));
    match o {
        FloatBinOp::Eq => if nan { f } else { Simplify::Keep },
        FloatBinOp::Ne => if nan { Simplify::Const(TypedVal::from_bool(true)) } else { Simplify::Keep },
        FloatBinOp::Lt => if nan || (inf && neg) { f } else { Simplify::Keep },
        FloatBinOp::Gt => if nan || (inf && !neg) { f } else { Simplify::Keep },
        FloatBinOp::Le | FloatBinOp::Ge => if nan { f } else { Simplify::Keep },
        FloatBinOp::Min => if inf && !neg { Simplify::Lhs } else { Simplify::Keep },
        FloatBinOp::Max => if inf && neg { Simplify::Lhs } else { Simplify::Keep },
        _ => Simplify::Keep,
    }
}

fn exec_simplify_float_imm_reg(o: FloatBinOp, nan: bool, inf: bool, neg: bool) -> (r: Simplify)
    ensures
        r == simplify_float_imm_reg(o, nan, inf, neg),
{
    let f = Simplify::Const(TypedVal::from_bool(false));
    match o {
        FloatBinOp::Lt => if nan || (inf && !neg) { f } else { Simplify::Keep },
        FloatBinOp::Gt => if nan || (inf && neg) { f } else { Simplify::Keep },
        FloatBinOp::Le | FloatBinOp::Ge => if nan { f } else { Simplify::Keep },
        _ => Simplify::Keep,
    }
}

/// Computes [`simplify_reg_imm`].
pub fn exec_simplify_reg_imm(op: BinOp, c: u64) -> (r: Simplify)
    ensures
        r == simplify_reg_imm(op, c),
{
    match op {
        BinOp::I32(o) => exec_simplify_int_reg_imm(
            op,
            o,
            c % 0x1_0000_0000,
            0xffff_ffff,
            0x8000_0000,
            32,
        ),
        BinOp::I64(o) => exec_simplify_int_reg_imm(
            op,
            o,
            c,
            0xffff_ffff_ffff_ffff,
            0x8000_0000_0000_0000,
            64,
        ),
        BinOp::F32(o) => {
            let x = (c % 0x1_0000_0000) as u32;
            exec_simplify_float_reg_imm(
                o,
                f32_bits_is_nan(x),
                f32_bits_is_infinite(x),
                x >= 0x8000_0000,
            )
        },
        BinOp::F64(o) => exec_simplify_float_reg_imm(
            o,
            f64_bits_is_nan(c),
            f64_bits_is_infinite(c),
            c >= 0x8000_0000_0000_0000,
        ),
    }
}

/// Computes [`simplify_imm_reg`].
pub fn exec_simplify_imm_reg(op: BinOp, c: u64) -> (r: Simplify)
    ensures
        r == simplify_imm_reg(op, c),
{
    match op {
        BinOp::I32(o) => exec_simplify_int_imm_reg(
            op,
            o,
            c % 0x1_0000_0000,
            0xffff_ffff,
            0x8000_0000,
        ),
        BinOp::I64(o) => exec_simplify_int_imm_reg(
            op,
            o,
            c,
            0xffff_ffff_ffff_ffff,
            0x8000_0000_0000_0000,
        ),
        BinOp::F32(o) => {
            let x = (c % 0x1_0000_0000) as u32;
            exec_simplify_float_imm_reg(
                o,
                f32_bits_is_nan(x),
                f32_bits_is_infinite(x),
                x >= 0x8000_0000,
            )
        },
        BinOp::F64(o) => exec_simplify_float_imm_reg(
            o,
            f64_bits_is_nan(c),
            f64_bits_is_infinite(c),
            c >= 0x8000_0000_0000_0000,
        ),
    }
}

/// A simplification is sound for operands `a` and `b` if it produces what
/// the operator computes on them.
pub open spec fn simplify_sound(op: BinOp, a: u64, b: u64, s: Simplify) -> bool {
    match s {
        Simplify::Keep => true,
        Simplify::Const(v) => fold_binary(op, a, b) == Folded::Value(v),
        Simplify::Lhs => fold_binary(op, a, b) == Folded::Value(operand_val(op, a)),
        Simplify::Rhs => fold_binary(op, a, b) == Folded::Value(operand_val(op, b)),
        Simplify::Trap(t) => fold_binary(op, a, b) == Folded::Trap(t),
    }
}

proof fn lemma_bits32(x: u32, y: u32, k: u32)
    by (bit_vector)
    requires
        0 < k < 32,
    ensures
        x & x == x,
        x | x == x,
        x ^ x == 0,
        x & 0xffff_ffff == x,
        x & 0 == 0,
        x | 0xffff_ffff == 0xffff_ffff,
        x | 0 == x,
        x ^ 0 == x,
        x & y == y & x,
        x | y == y | x,
        x ^ y == y ^ x,
        (0u32 << k) == 0,
        (0u32 >> k) == 0,
        !((!0xffff_ffffu32) >> k) == 0xffff_ffff,
        ((0xffff_ffffu32 << k) | (0xffff_ffffu32 >> ((32 - k) as u32))) == 0xffff_ffff,
        ((0xffff_ffffu32 >> k) | (0xffff_ffffu32 << ((32 - k) as u32))) == 0xffff_ffff,
        ((0u32 << k) | (0u32 >> ((32 - k) as u32))) == 0,
        ((0u32 >> k) | (0u32 << ((32 - k) as u32))) == 0,
        (x << 0u32) == x,
        (x >> 0u32) == x,
        !((!x) >> 0u32) == x,
        (0u32 << 0u32) == 0,
        (0u32 >> 0u32) == 0,
        !((!0xffff_ffffu32) >> 0u32) == 0xffff_ffff,
{
}

proof fn lemma_bits64(x: u64, y: u64, k: u64)
    by (bit_vector)
    requires
        0 < k < 64,
    ensures
        x & x == x,
        x | x == x,
        x ^ x == 0,
        x & 0xffff_ffff_ffff_ffff == x,
        x & 0 == 0,
        x | 0xffff_ffff_ffff_ffff == 0xffff_ffff_ffff_ffff,
        x | 0 == x,
        x ^ 0 == x,
        x & y == y & x,
        x | y == y | x,
        x ^ y == y ^ x,
        (0u64 << k) == 0,
        (0u64 >> k) == 0,
        !((!0xffff_ffff_ffff_ffffu64) >> k) == 0xffff_ffff_ffff_ffff,
        ((0xffff_ffff_ffff_ffffu64 << k) | (0xffff_ffff_ffff_ffffu64 >> ((64 - k) as u64)))
            == 0xffff_ffff_ffff_ffff,
        ((0xffff_ffff_ffff_ffffu64 >> k) | (0xffff_ffff_ffff_ffffu64 << ((64 - k) as u64)))
            == 0xffff_ffff_ffff_ffff,
        ((0u64 << k) | (0u64 >> ((64 - k) as u64))) == 0,
        ((0u64 >> k) | (0u64 << ((64 - k) as u64))) == 0,
        (x << 0u64) == x,
        (x >> 0u64) == x,
        !((!x) >> 0u64) == x,
        (0u64 << 0u64) == 0,
        (0u64 >> 0u64) == 0,
        !((!0xffff_ffff_ffff_ffffu64) >> 0u64) == 0xffff_ffff_ffff_ffff,
{
}

/// Every simplification of `x op x` (both operands one register) yields
/// what the operator computes on `x` and `x`.
pub proof fn lemma_simplify_same_sound(op: BinOp, x: u64)
    requires
        operand_fits(op, x),
        folds_exactly(op),
    ensures
        simplify_sound(op, x, x, simplify_same(op)),
{
    match op {
        BinOp::I32(_) => {
            lemma_bits32(lo32(x), lo32(x), 1);
        },
        BinOp::I64(_) => {
            lemma_bits64(x, x, 1);
        },
        _ => {},
    }
}

/// Every simplification of `x op c` yields what the operator computes on
/// `x` and `c`, whatever `x` holds.
pub proof fn lemma_simplify_reg_imm_sound(op: BinOp, x: u64, c: u64)
    requires
        operand_fits(op, x),
        operand_fits(op, c),
        folds_exactly(op),
    ensures
        simplify_sound(op, x, c, simplify_reg_imm(op, c)),
{
    match op {
        BinOp::I32(o) => lemma_reg_imm_sound_i32(o, x, c),
        BinOp::I64(o) => lemma_reg_imm_sound_i64(o, x, c),
        _ => {},
    }
}

#[verifier::spinoff_prover]
proof fn lemma_reg_imm_sound_i32(o: IntBinOp, x: u64, c: u64)
    requires
        operand_fits(BinOp::I32(o), x),
        operand_fits(BinOp::I32(o), c),
    ensures
        simplify_sound(BinOp::I32(o), x, c, simplify_reg_imm(BinOp::I32(o), c)),
{
    let op = BinOp::I32(o);
    match o {
        IntBinOp::Add => {},
        IntBinOp::Sub => {},
        IntBinOp::Mul => {
            vstd::arithmetic::mul::lemma_mul_basics(lo32(x) as int);
        },
        IntBinOp::DivS => {
            lemma_signed32_roundtrip(lo32(x));
        },
        IntBinOp::DivU => {},
        IntBinOp::RemS => {
            lemma_signed32_roundtrip(lo32(x));
        },
        IntBinOp::RemU => {},
        IntBinOp::And => {
            lemma_bits32(lo32(x), lo32(c), 1);
        },
        IntBinOp::Or => {
            lemma_bits32(lo32(x), lo32(c), 1);
        },
        IntBinOp::Xor => {
            lemma_bits32(lo32(x), lo32(c), 1);
        },
        IntBinOp::Shl => {
            lemma_bits32(lo32(x), lo32(c), 1);
        },
        IntBinOp::ShrS => {
            lemma_bits32(lo32(x), lo32(c), 1);
        },
        IntBinOp::ShrU => {
            lemma_bits32(lo32(x), lo32(c), 1);
        },
        IntBinOp::Rotl => {
            lemma_bits32(lo32(x), lo32(c), 1);
        },
        IntBinOp::Rotr => {
            lemma_bits32(lo32(x), lo32(c), 1);
        },
        IntBinOp::Eq => {},
        IntBinOp::Ne => {},
        IntBinOp::LtS => {},
        IntBinOp::LtU => {},
        IntBinOp::GtS => {},
        IntBinOp::GtU => {},
        IntBinOp::LeS => {},
        IntBinOp::LeU => {},
        IntBinOp::GeS => {},
        IntBinOp::GeU => {},
    }
}

#[verifier::spinoff_prover]
proof fn lemma_reg_imm_sound_i64(o: IntBinOp, x: u64, c: u64)
    requires
        operand_fits(BinOp::I64(o), x),
        operand_fits(BinOp::I64(o), c),
    ensures
        simplify_sound(BinOp::I64(o), x, c, simplify_reg_imm(BinOp::I64(o), c)),
{
    let op = BinOp::I64(o);
    match o {
        IntBinOp::Add => {},
        IntBinOp::Sub => {},
        IntBinOp::Mul => {
            vstd::arithmetic::mul::lemma_mul_basics(x as int);
        },
        IntBinOp::DivS => {
            lemma_signed64_roundtrip(x);
        },
        IntBinOp::DivU => {},
        IntBinOp::RemS => {
            lemma_signed64_roundtrip(x);
        },
        IntBinOp::RemU => {},
        IntBinOp::And => {
            lemma_bits64(x, c, 1);
        },
        IntBinOp::Or => {
            lemma_bits64(x, c, 1);
        },
        IntBinOp::Xor => {
            lemma_bits64(x, c, 1);
        },
        IntBinOp::Shl => {
            lemma_bits64(x, c, 1);
        },
        IntBinOp::ShrS => {
            lemma_bits64(x, c, 1);
        },
        IntBinOp::ShrU => {
            lemma_bits64(x, c, 1);
        },
        IntBinOp::Rotl => {
            lemma_bits64(x, c, 1);
        },
        IntBinOp::Rotr => {
            lemma_bits64(x, c, 1);
        },
        IntBinOp::Eq => {},
        IntBinOp::Ne => {},
        IntBinOp::LtS => {},
        IntBinOp::LtU => {},
        IntBinOp::GtS => {},
        IntBinOp::GtU => {},
        IntBinOp::LeS => {},
        IntBinOp::LeU => {},
        IntBinOp::GeS => {},
        IntBinOp::GeU => {},
    }
}

/// Every simplification of `c op x` yields what the operator computes on
/// `c` and `x`, whatever `x` holds.
pub proof fn lemma_simplify_imm_reg_sound(op: BinOp, c: u64, x: u64)
    requires
        operand_fits(op, x),
        operand_fits(op, c),
        folds_exactly(op),
    ensures
        simplify_sound(op, c, x, simplify_imm_reg(op, c)),
{
    match op {
        BinOp::I32(o) => {
            let k = lo32(x) % 32;
            if k != 0 {
                lemma_bits32(lo32(c), lo32(x), k);
            } else {
                lemma_bits32(lo32(c), lo32(x), 1);
            }
        },
        BinOp::I64(o) => {
            let k = x % 64;
            if k != 0 {
                lemma_bits64(c, x, k);
            } else {
                lemma_bits64(c, x, 1);
            }
        },
        _ => {},
    }
}

proof fn lemma_signed32_roundtrip(a: u32)
    ensures
        crate::value::bits32(s32(a)) == a,
{
}

proof fn lemma_signed64_roundtrip(a: u64)
    ensures
        crate::value::bits64(s64(a)) == a,
{
}

/// Exchanging the operands of a commutative operator does not change its
/// result.
pub proof fn lemma_commutative(op: BinOp, a: u64, b: u64)
    requires
        is_commutative(op),
        folds_exactly(op),
    ensures
        fold_binary(op, a, b) == fold_binary(op, b, a),
{
    match op {
        BinOp::I32(o) => {
            lemma_bits32(lo32(a), lo32(b), 1);
            if o == IntBinOp::Mul {
                vstd::arithmetic::mul::lemma_mul_is_commutative(lo32(a) as int, lo32(b) as int);
            }
        },
        BinOp::I64(o) => {
            lemma_bits64(a, b, 1);
            if o == IntBinOp::Mul {
                vstd::arithmetic::mul::lemma_mul_is_commutative(a as int, b as int);
            }
        },
        _ => {},
    }
}

/// The encoding of `gt` and `ge` as `lt` and `le` with exchanged operands
/// computes the same result.
pub proof fn lemma_swapped_encoding(op: BinOp, a: u64, b: u64)
    requires
        is_swapped(op),
    ensures
        fold_binary(op, a, b) == fold_binary(encoded_op(op), b, a),
{
}

/// Subtracting a constant is adding its two's complement negation, which
/// is how the translator encodes `sub` with a constant right operand.
pub proof fn lemma_sub_is_add_negated(x: u64, c: u64)
    ensures
        fold_binary(BinOp::I32(IntBinOp::Sub), x, c) == fold_binary(
            BinOp::I32(IntBinOp::Add),
            x,
            0u32.wrapping_sub(lo32(c)) as u64,
        ),
        fold_binary(BinOp::I64(IntBinOp::Sub), x, c) == fold_binary(
            BinOp::I64(IntBinOp::Add),
            x,
            0u64.wrapping_sub(c),
        ),
{
}

} // verus!
