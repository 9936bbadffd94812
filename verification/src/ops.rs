//! The semantics of the Wasm numeric operators on bit patterns, and the
//! algebraic simplifications that the translator applies to them.
use vstd::prelude::*;
use crate::value::{TypedVal, ValType, s32, s64, bits32, bits64, pow32, pow64, i32_from_bits,
    i32_to_bits, i64_from_bits, i64_to_bits};

verus! {

/// The reasons for which executing Wasm code can trap.
#[derive(Clone, Copy, Debug, PartialEq, Eq, Structural)]
pub enum TrapCode {
    UnreachableCodeReached,
    MemoryOutOfBounds,
    TableOutOfBounds,
    IndirectCallToNull,
    IntegerDivisionByZero,
    IntegerOverflow,
    BadConversionToInteger,
    BadSignature,
}

/// The binary integer operators, shared by `i32` and `i64`.
#[derive(Clone, Copy, Debug, PartialEq, Eq, Structural)]
pub enum IntBinOp {
    Add,
    Sub,
    Mul,
    DivS,
    DivU,
    RemS,
    RemU,
    And,
    Or,
    Xor,
    Shl,
    ShrS,
    ShrU,
    Rotl,
    Rotr,
    Eq,
    Ne,
    LtS,
    LtU,
    GtS,
    GtU,
    LeS,
    LeU,
    GeS,
    GeU,
}

/// The binary floating-point operators, shared by `f32` and `f64`.
#[derive(Clone, Copy, Debug, PartialEq, Eq, Structural)]
pub enum FloatBinOp {
    Eq,
    Ne,
    Lt,
    Gt,
    Le,
    Ge,
    Add,
    Sub,
    Mul,
    Div,
    Min,
    Max,
    Copysign,
}

/// A binary operator together with the width of its operands.
#[derive(Clone, Copy, Debug, PartialEq, Eq, Structural)]
pub enum BinOp {
    I32(IntBinOp),
    I64(IntBinOp),
    F32(FloatBinOp),
    F64(FloatBinOp),
}

/// The `i32` pattern of a boolean.
pub open spec fn bool_bits(b: bool) -> u32 {
    if b {
        1
    } else {
        0
    }
}

/// The boolean `0` or `1` in 64 bits.
pub open spec fn bool_bits64(b: bool) -> u64 {
    if b {
        1
    } else {
        0
    }
}

fn exec_bool_bits(b: bool) -> (r: u32)
    ensures
        r == bool_bits(b),
{
    if b {
        1
    } else {
        0
    }
}

fn exec_bool_bits64(b: bool) -> (r: u64)
    ensures
        r == bool_bits64(b),
{
    if b {
        1
    } else {
        0
    }
}

/// The result of a 32-bit integer operator applied to two bit patterns:
/// its result pattern, or the trap that Wasm prescribes.
pub open spec fn eval_i32(op: IntBinOp, a: u32, b: u32) -> Result<u32, TrapCode> {
    match op {
        IntBinOp::Add => Ok(a.wrapping_add(b)),
        IntBinOp::Sub => Ok(a.wrapping_sub(b)),
        IntBinOp::Mul => Ok(a.wrapping_mul(b)),
        IntBinOp::DivS => if b == 0 {
            Err(TrapCode::IntegerDivisionByZero)
        } else {
            match (s32(a) as i32).checked_div(s32(b) as i32) {
                Some(q) => Ok(bits32(q as int)),
                None => Err(TrapCode::IntegerOverflow),
            }
        },
        IntBinOp::DivU => if b == 0 {
            Err(TrapCode::IntegerDivisionByZero)
        } else {
            Ok(a / b)
        },
        IntBinOp::RemS => if b == 0 {
            Err(TrapCode::IntegerDivisionByZero)
        } else if a == 0x8000_0000 && b == 0xffff_ffff {
            Ok(0)
        } else {
            match (s32(a) as i32).checked_rem(s32(b) as i32) {
                Some(r) => Ok(bits32(r as int)),
                None => Err(TrapCode::IntegerOverflow),
            }
        },
        IntBinOp::RemU => if b == 0 {
            Err(TrapCode::IntegerDivisionByZero)
        } else {
            Ok(a % b)
        },
        IntBinOp::And => Ok(a & b),
        IntBinOp::Or => Ok(a | b),
        IntBinOp::Xor => Ok(a ^ b),
        IntBinOp::Shl => Ok(a << (b % 32)),
        IntBinOp::ShrU => Ok(a >> (b % 32)),
        IntBinOp::ShrS => Ok(shr_s32(a, b % 32)),
        IntBinOp::Rotl => Ok(rotl32(a, b % 32)),
        IntBinOp::Rotr => Ok(rotr32(a, b % 32)),
        IntBinOp::Eq => Ok(bool_bits(a == b)),
        IntBinOp::Ne => Ok(bool_bits(a != b)),
        IntBinOp::LtS => Ok(bool_bits(s32(a) < s32(b))),
        IntBinOp::LtU => Ok(bool_bits(a < b)),
        IntBinOp::GtS => Ok(bool_bits(s32(a) > s32(b))),
        IntBinOp::GtU => Ok(bool_bits(a > b)),
        IntBinOp::LeS => Ok(bool_bits(s32(a) <= s32(b))),
        IntBinOp::LeU => Ok(bool_bits(a <= b)),
        IntBinOp::GeS => Ok(bool_bits(s32(a) >= s32(b))),
        IntBinOp::GeU => Ok(bool_bits(a >= b)),
    }
}

/// Arithmetic (sign-filling) right shift of a 32-bit pattern.
pub open spec fn shr_s32(a: u32, k: u32) -> u32 {
    if a < 0x8000_0000 {
        a >> k
    } else {
        !((!a) >> k)
    }
}

/// Rotation of a 32-bit pattern to the left by `k < 32` bits.
pub open spec fn rotl32(a: u32, k: u32) -> u32 {
    if k == 0 {
        a
    } else {
        (a << k) | (a >> (32 - k) as u32)
    }
}

/// Rotation of a 32-bit pattern to the right by `k < 32` bits.
pub open spec fn rotr32(a: u32, k: u32) -> u32 {
    if k == 0 {
        a
    } else {
        (a >> k) | (a << (32 - k) as u32)
    }
}

/// Signed less-than on 32-bit patterns.
fn lt_s32(a: u32, b: u32) -> (r: bool)
    ensures
        r == (s32(a) < s32(b)),
{
    if (a < 0x8000_0000) == (b < 0x8000_0000) {
        a < b
    } else {
        a >= 0x8000_0000
    }
}

/// Applies a 32-bit integer operator to two bit patterns.
pub fn exec_i32(op: IntBinOp, a: u32, b: u32) -> (r: Result<u32, TrapCode>)
    ensures
        r == eval_i32(op, a, b),
{
    match op {
        IntBinOp::Add => Ok(a.wrapping_add(b)),
        IntBinOp::Sub => Ok(a.wrapping_sub(b)),
        IntBinOp::Mul => Ok(a.wrapping_mul(b)),
        IntBinOp::DivS => {
            if b == 0 {
                Err(TrapCode::IntegerDivisionByZero)
            } else {
                let x = i32_from_bits(a);
                let y = i32_from_bits(b);
                match x.checked_div(y) {
                    Some(q) => Ok(i32_to_bits(q)),
                    None => Err(TrapCode::IntegerOverflow),
                }
            }
        },
        IntBinOp::DivU => {
            if b == 0 {
                Err(TrapCode::IntegerDivisionByZero)
            } else {
                Ok(a / b)
            }
        },
        IntBinOp::RemS => {
            if b == 0 {
                Err(TrapCode::IntegerDivisionByZero)
            } else if a == 0x8000_0000 && b == 0xffff_ffff {
                Ok(0)
            } else {
                let x = i32_from_bits(a);
                let y = i32_from_bits(b);
                match x.checked_rem(y) {
                    Some(r) => Ok(i32_to_bits(r)),
                    None => Err(TrapCode::IntegerOverflow),
                }
            }
        },
        IntBinOp::RemU => {
            if b == 0 {
                Err(TrapCode::IntegerDivisionByZero)
            } else {
                Ok(a % b)
            }
        },
        IntBinOp::And => Ok(a & b),
        IntBinOp::Or => Ok(a | b),
        IntBinOp::Xor => Ok(a ^ b),
        IntBinOp::Shl => Ok(a << (b % 32)),
        IntBinOp::ShrU => Ok(a >> (b % 32)),
        IntBinOp::ShrS => {
            let k = b % 32;
            if a < 0x8000_0000 {
                Ok(a >> k)
            } else {
                Ok(!((!a) >> k))
            }
        },
        IntBinOp::Rotl => {
            let k = b % 32;
            if k == 0 {
                Ok(a)
            } else {
                Ok((a << k) | (a >> (32 - k)))
            }
        },
        IntBinOp::Rotr => {
            let k = b % 32;
            if k == 0 {
                Ok(a)
            } else {
                Ok((a >> k) | (a << (32 - k)))
            }
        },
        IntBinOp::Eq => Ok(exec_bool_bits(a == b)),
        IntBinOp::Ne => Ok(exec_bool_bits(a != b)),
        IntBinOp::LtS => Ok(exec_bool_bits(lt_s32(a, b))),
        IntBinOp::LtU => Ok(exec_bool_bits(a < b)),
        IntBinOp::GtS => Ok(exec_bool_bits(lt_s32(b, a))),
        IntBinOp::GtU => Ok(exec_bool_bits(a > b)),
        IntBinOp::LeS => Ok(exec_bool_bits(!lt_s32(b, a))),
        IntBinOp::LeU => Ok(exec_bool_bits(a <= b)),
        IntBinOp::GeS => Ok(exec_bool_bits(!lt_s32(a, b))),
        IntBinOp::GeU => Ok(exec_bool_bits(a >= b)),
    }
}
/// The result of a 64-bit integer operator applied to two bit patterns:
/// its result pattern, or the trap that Wasm prescribes.
pub open spec fn eval_i64(op: IntBinOp, a: u64, b: u64) -> Result<u64, TrapCode> {
    match op {
        IntBinOp::Add => Ok(a.wrapping_add(b)),
        IntBinOp::Sub => Ok(a.wrapping_sub(b)),
        IntBinOp::Mul => Ok(a.wrapping_mul(b)),
        IntBinOp::DivS => if b == 0 {
            Err(TrapCode::IntegerDivisionByZero)
        } else {
            match (s64(a) as i64).checked_div(s64(b) as i64) {
                Some(q) => Ok(bits64(q as int)),
                None => Err(TrapCode::IntegerOverflow),
            }
        },
        IntBinOp::DivU => if b == 0 {
            Err(TrapCode::IntegerDivisionByZero)
        } else {
            Ok(a / b)
        },
        IntBinOp::RemS => if b == 0 {
            Err(TrapCode::IntegerDivisionByZero)
        } else if a == 0x8000_0000_0000_0000 && b == 0xffff_ffff_ffff_ffff {
            Ok(0)
        } else {
            match (s64(a) as i64).checked_rem(s64(b) as i64) {
                Some(r) => Ok(bits64(r as int)),
                None => Err(TrapCode::IntegerOverflow),
            }
        },
        IntBinOp::RemU => if b == 0 {
            Err(TrapCode::IntegerDivisionByZero)
        } else {
            Ok(a % b)
        },
        IntBinOp::And => Ok(a & b),
        IntBinOp::Or => Ok(a | b),
        IntBinOp::Xor => Ok(a ^ b),
        IntBinOp::Shl => Ok(a << (b % 64)),
        IntBinOp::ShrU => Ok(a >> (b % 64)),
        IntBinOp::ShrS => Ok(shr_s64(a, b % 64)),
        IntBinOp::Rotl => Ok(rotl64(a, b % 64)),
        IntBinOp::Rotr => Ok(rotr64(a, b % 64)),
        IntBinOp::Eq => Ok(bool_bits64(a == b)),
        IntBinOp::Ne => Ok(bool_bits64(a != b)),
        IntBinOp::LtS => Ok(bool_bits64(s64(a) < s64(b))),
        IntBinOp::LtU => Ok(bool_bits64(a < b)),
        IntBinOp::GtS => Ok(bool_bits64(s64(a) > s64(b))),
        IntBinOp::GtU => Ok(bool_bits64(a > b)),
        IntBinOp::LeS => Ok(bool_bits64(s64(a) <= s64(b))),
        IntBinOp::LeU => Ok(bool_bits64(a <= b)),
        IntBinOp::GeS => Ok(bool_bits64(s64(a) >= s64(b))),
        IntBinOp::GeU => Ok(bool_bits64(a >= b)),
    }
}

/// Arithmetic (sign-filling) right shift of a 64-bit pattern.
pub open spec fn shr_s64(a: u64, k: u64) -> u64 {
    if a < 0x8000_0000_0000_0000 {
        a >> k
    } else {
        !((!a) >> k)
    }
}

/// Rotation of a 64-bit pattern to the left by `k < 64` bits.
pub open spec fn rotl64(a: u64, k: u64) -> u64 {
    if k == 0 {
        a
    } else {
        (a << k) | (a >> (64 - k) as u64)
    }
}

/// Rotation of a 64-bit pattern to the right by `k < 64` bits.
pub open spec fn rotr64(a: u64, k: u64) -> u64 {
    if k == 0 {
        a
    } else {
        (a >> k) | (a << (64 - k) as u64)
    }
}

/// Signed less-than on 64-bit patterns.
fn lt_s64(a: u64, b: u64) -> (r: bool)
    ensures
        r == (s64(a) < s64(b)),
{
    if (a < 0x8000_0000_0000_0000) == (b < 0x8000_0000_0000_0000) {
        a < b
    } else {
        a >= 0x8000_0000_0000_0000
    }
}

/// Applies a 64-bit integer operator to two bit patterns.
pub fn exec_i64(op: IntBinOp, a: u64, b: u64) -> (r: Result<u64, TrapCode>)
    ensures
        r == eval_i64(op, a, b),
{
    match op {
        IntBinOp::Add => Ok(a.wrapping_add(b)),
        IntBinOp::Sub => Ok(a.wrapping_sub(b)),
        IntBinOp::Mul => Ok(a.wrapping_mul(b)),
        IntBinOp::DivS => {
            if b == 0 {
                Err(TrapCode::IntegerDivisionByZero)
            } else {
                let x = i64_from_bits(a);
                let y = i64_from_bits(b);
                match x.checked_div(y) {
                    Some(q) => Ok(i64_to_bits(q)),
                    None => Err(TrapCode::IntegerOverflow),
                }
            }
        },
        IntBinOp::DivU => {
            if b == 0 {
                Err(TrapCode::IntegerDivisionByZero)
            } else {
                Ok(a / b)
            }
        },
        IntBinOp::RemS => {
            if b == 0 {
                Err(TrapCode::IntegerDivisionByZero)
            } else if a == 0x8000_0000_0000_0000 && b == 0xffff_ffff_ffff_ffff {
                Ok(0)
            } else {
                let x = i64_from_bits(a);
                let y = i64_from_bits(b);
                match x.checked_rem(y) {
                    Some(r) => Ok(i64_to_bits(r)),
                    None => Err(TrapCode::IntegerOverflow),
                }
            }
        },
        IntBinOp::RemU => {
            if b == 0 {
                Err(TrapCode::IntegerDivisionByZero)
            } else {
                Ok(a % b)
            }
        },
        IntBinOp::And => Ok(a & b),
        IntBinOp::Or => Ok(a | b),
        IntBinOp::Xor => Ok(a ^ b),
        IntBinOp::Shl => Ok(a << (b % 64)),
        IntBinOp::ShrU => Ok(a >> (b % 64)),
        IntBinOp::ShrS => {
            let k = b % 64;
            if a < 0x8000_0000_0000_0000 {
                Ok(a >> k)
            } else {
                Ok(!((!a) >> k))
            }
        },
        IntBinOp::Rotl => {
            let k = b % 64;
            if k == 0 {
                Ok(a)
            } else {
                Ok((a << k) | (a >> (64 - k)))
            }
        },
        IntBinOp::Rotr => {
            let k = b % 64;
            if k == 0 {
                Ok(a)
            } else {
                Ok((a >> k) | (a << (64 - k)))
            }
        },
        IntBinOp::Eq => Ok(exec_bool_bits64(a == b)),
        IntBinOp::Ne => Ok(exec_bool_bits64(a != b)),
        IntBinOp::LtS => Ok(exec_bool_bits64(lt_s64(a, b))),
        IntBinOp::LtU => Ok(exec_bool_bits64(a < b)),
        IntBinOp::GtS => Ok(exec_bool_bits64(lt_s64(b, a))),
        IntBinOp::GtU => Ok(exec_bool_bits64(a > b)),
        IntBinOp::LeS => Ok(exec_bool_bits64(!lt_s64(b, a))),
        IntBinOp::LeU => Ok(exec_bool_bits64(a <= b)),
        IntBinOp::GeS => Ok(exec_bool_bits64(!lt_s64(a, b))),
        IntBinOp::GeU => Ok(exec_bool_bits64(a >= b)),
    }
}
/// The magnitude of a 32-bit float pattern: the pattern without its sign bit.
pub open spec fn f32_magnitude(a: u32) -> int {
    if a >= 0x8000_0000 {
        a - 0x8000_0000
    } else {
        a as int
    }
}

/// A 32-bit float pattern is a NaN if its exponent bits are all set and its
/// mantissa is not zero.
pub open spec fn f32_is_nan(a: u32) -> bool {
    f32_magnitude(a) > 0x7f80_0000
}

/// A 32-bit float pattern is an infinity if its exponent bits are all set
/// and its mantissa is zero.
pub open spec fn f32_is_infinite(a: u32) -> bool {
    f32_magnitude(a) == 0x7f80_0000
}

/// The sign bit of a 32-bit float pattern.
pub open spec fn f32_is_sign_negative(a: u32) -> bool {
    a >= 0x8000_0000
}

/// The position of a 32-bit float on the number line: two non-NaN floats
/// compare as their keys do, and both zeros have key `0`.
pub open spec fn f32_key(a: u32) -> int {
    if f32_is_sign_negative(a) {
        -f32_magnitude(a)
    } else {
        f32_magnitude(a)
    }
}

/// The result of a 32-bit float comparison; any comparison with a NaN is
/// false except `ne`, which is true.
pub open spec fn eval_f32_compare(op: FloatBinOp, a: u32, b: u32) -> bool {
    let ordered = !f32_is_nan(a) && !f32_is_nan(b);
    match op {
        FloatBinOp::Eq => ordered && f32_key(a) == f32_key(b),
        FloatBinOp::Ne => !(ordered && f32_key(a) == f32_key(b)),
        FloatBinOp::Lt => ordered && f32_key(a) < f32_key(b),
        FloatBinOp::Gt => ordered && f32_key(a) > f32_key(b),
        FloatBinOp::Le => ordered && f32_key(a) <= f32_key(b),
        FloatBinOp::Ge => ordered && f32_key(a) >= f32_key(b),
        _ => false,
    }
}

/// `f32.copysign`: the magnitude of `a` with the sign of `b`.
pub open spec fn f32_copysign(a: u32, b: u32) -> u32 {
    (f32_magnitude(a) + if f32_is_sign_negative(b) {
        0x8000_0000int
    } else {
        0
    }) as u32
}

/// `f32.abs`: the pattern with its sign bit cleared.
pub open spec fn f32_abs(a: u32) -> u32 {
    f32_magnitude(a) as u32
}

/// `f32.neg`: the pattern with its sign bit flipped.
pub open spec fn f32_neg(a: u32) -> u32 {
    if f32_is_sign_negative(a) {
        (a - 0x8000_0000) as u32
    } else {
        (a + 0x8000_0000) as u32
    }
}

fn exec_f32_magnitude(a: u32) -> (r: u32)
    ensures
        r == f32_magnitude(a),
{
    if a >= 0x8000_0000 {
        a - 0x8000_0000
    } else {
        a
    }
}

/// Returns `true` if the 32-bit float pattern is a NaN.
pub fn f32_bits_is_nan(a: u32) -> (r: bool)
    ensures
        r == f32_is_nan(a),
{
    exec_f32_magnitude(a) > 0x7f80_0000
}

/// Returns `true` if the 32-bit float pattern is an infinity.
pub fn f32_bits_is_infinite(a: u32) -> (r: bool)
    ensures
        r == f32_is_infinite(a),
{
    exec_f32_magnitude(a) == 0x7f80_0000
}

fn exec_f32_key_lt(a: u32, b: u32) -> (r: bool)
    ensures
        r == (f32_key(a) < f32_key(b)),
{
    let ma = exec_f32_magnitude(a);
    let mb = exec_f32_magnitude(b);
    match (a >= 0x8000_0000, b >= 0x8000_0000) {
        (false, false) => ma < mb,
        (true, true) => mb < ma,
        (true, false) => ma != 0 || mb != 0,
        (false, true) => false,
    }
}

fn exec_f32_key_eq(a: u32, b: u32) -> (r: bool)
    ensures
        r == (f32_key(a) == f32_key(b)),
{
    let ma = exec_f32_magnitude(a);
    let mb = exec_f32_magnitude(b);
    if (a >= 0x8000_0000) == (b >= 0x8000_0000) {
        ma == mb
    } else {
        ma == 0 && mb == 0
    }
}

/// Compares two 32-bit float patterns.
pub fn exec_f32_compare(op: FloatBinOp, a: u32, b: u32) -> (r: bool)
    ensures
        r == eval_f32_compare(op, a, b),
{
    let ordered = !f32_bits_is_nan(a) && !f32_bits_is_nan(b);
    match op {
        FloatBinOp::Eq => ordered && exec_f32_key_eq(a, b),
        FloatBinOp::Ne => !(ordered && exec_f32_key_eq(a, b)),
        FloatBinOp::Lt => ordered && exec_f32_key_lt(a, b),
        FloatBinOp::Gt => ordered && exec_f32_key_lt(b, a),
        FloatBinOp::Le => ordered && !exec_f32_key_lt(b, a),
        FloatBinOp::Ge => ordered && !exec_f32_key_lt(a, b),
        _ => false,
    }
}

/// `f32.copysign` on patterns.
pub fn exec_f32_copysign(a: u32, b: u32) -> (r: u32)
    ensures
        r == f32_copysign(a, b),
{
    let m = exec_f32_magnitude(a);
    if b >= 0x8000_0000 {
        m + 0x8000_0000
    } else {
        m
    }
}

/// `f32.neg` on patterns.
pub fn exec_f32_neg(a: u32) -> (r: u32)
    ensures
        r == f32_neg(a),
{
    if a >= 0x8000_0000 {
        a - 0x8000_0000
    } else {
        a + 0x8000_0000
    }
}
/// The magnitude of a 64-bit float pattern: the pattern without its sign bit.
pub open spec fn f64_magnitude(a: u64) -> int {
    if a >= 0x8000_0000_0000_0000 {
        a - 0x8000_0000_0000_0000
    } else {
        a as int
    }
}

/// A 64-bit float pattern is a NaN if its exponent bits are all set and its
/// mantissa is not zero.
pub open spec fn f64_is_nan(a: u64) -> bool {
    f64_magnitude(a) > 0x7ff0_0000_0000_0000
}

/// A 64-bit float pattern is an infinity if its exponent bits are all set
/// and its mantissa is zero.
pub open spec fn f64_is_infinite(a: u64) -> bool {
    f64_magnitude(a) == 0x7ff0_0000_0000_0000
}

/// The sign bit of a 64-bit float pattern.
pub open spec fn f64_is_sign_negative(a: u64) -> bool {
    a >= 0x8000_0000_0000_0000
}

/// The position of a 64-bit float on the number line: two non-NaN floats
/// compare as their keys do, and both zeros have key `0`.
pub open spec fn f64_key(a: u64) -> int {
    if f64_is_sign_negative(a) {
        -f64_magnitude(a)
    } else {
        f64_magnitude(a)
    }
}

/// The result of a 64-bit float comparison; any comparison with a NaN is
/// false except `ne`, which is true.
pub open spec fn eval_f64_compare(op: FloatBinOp, a: u64, b: u64) -> bool {
    let ordered = !f64_is_nan(a) && !f64_is_nan(b);
    match op {
        FloatBinOp::Eq => ordered && f64_key(a) == f64_key(b),
        FloatBinOp::Ne => !(ordered && f64_key(a) == f64_key(b)),
        FloatBinOp::Lt => ordered && f64_key(a) < f64_key(b),
        FloatBinOp::Gt => ordered && f64_key(a) > f64_key(b),
        FloatBinOp::Le => ordered && f64_key(a) <= f64_key(b),
        FloatBinOp::Ge => ordered && f64_key(a) >= f64_key(b),
        _ => false,
    }
}

/// `f64.copysign`: the magnitude of `a` with the sign of `b`.
pub open spec fn f64_copysign(a: u64, b: u64) -> u64 {
    (f64_magnitude(a) + if f64_is_sign_negative(b) {
        0x8000_0000_0000_0000int
    } else {
        0
    }) as u64
}

/// `f64.abs`: the pattern with its sign bit cleared.
pub open spec fn f64_abs(a: u64) -> u64 {
    f64_magnitude(a) as u64
}

/// `f64.neg`: the pattern with its sign bit flipped.
pub open spec fn f64_neg(a: u64) -> u64 {
    if f64_is_sign_negative(a) {
        (a - 0x8000_0000_0000_0000) as u64
    } else {
        (a + 0x8000_0000_0000_0000) as u64
    }
}

fn exec_f64_magnitude(a: u64) -> (r: u64)
    ensures
        r == f64_magnitude(a),
{
    if a >= 0x8000_0000_0000_0000 {
        a - 0x8000_0000_0000_0000
    } else {
        a
    }
}

/// Returns `true` if the 64-bit float pattern is a NaN.
pub fn f64_bits_is_nan(a: u64) -> (r: bool)
    ensures
        r == f64_is_nan(a),
{
    exec_f64_magnitude(a) > 0x7ff0_0000_0000_0000
}

/// Returns `true` if the 64-bit float pattern is an infinity.
pub fn f64_bits_is_infinite(a: u64) -> (r: bool)
    ensures
        r == f64_is_infinite(a),
{
    exec_f64_magnitude(a) == 0x7ff0_0000_0000_0000
}

fn exec_f64_key_lt(a: u64, b: u64) -> (r: bool)
    ensures
        r == (f64_key(a) < f64_key(b)),
{
    let ma = exec_f64_magnitude(a);
    let mb = exec_f64_magnitude(b);
    match (a >= 0x8000_0000_0000_0000, b >= 0x8000_0000_0000_0000) {
        (false, false) => ma < mb,
        (true, true) => mb < ma,
        (true, false) => ma != 0 || mb != 0,
        (false, true) => false,
    }
}

fn exec_f64_key_eq(a: u64, b: u64) -> (r: bool)
    ensures
        r == (f64_key(a) == f64_key(b)),
{
    let ma = exec_f64_magnitude(a);
    let mb = exec_f64_magnitude(b);
    if (a >= 0x8000_0000_0000_0000) == (b >= 0x8000_0000_0000_0000) {
        ma == mb
    } else {
        ma == 0 && mb == 0
    }
}

/// Compares two 64-bit float patterns.
pub fn exec_f64_compare(op: FloatBinOp, a: u64, b: u64) -> (r: bool)
    ensures
        r == eval_f64_compare(op, a, b),
{
    let ordered = !f64_bits_is_nan(a) && !f64_bits_is_nan(b);
    match op {
        FloatBinOp::Eq => ordered && exec_f64_key_eq(a, b),
        FloatBinOp::Ne => !(ordered && exec_f64_key_eq(a, b)),
        FloatBinOp::Lt => ordered && exec_f64_key_lt(a, b),
        FloatBinOp::Gt => ordered && exec_f64_key_lt(b, a),
        FloatBinOp::Le => ordered && !exec_f64_key_lt(b, a),
        FloatBinOp::Ge => ordered && !exec_f64_key_lt(a, b),
        _ => false,
    }
}

/// `f64.copysign` on patterns.
pub fn exec_f64_copysign(a: u64, b: u64) -> (r: u64)
    ensures
        r == f64_copysign(a, b),
{
    let m = exec_f64_magnitude(a);
    if b >= 0x8000_0000_0000_0000 {
        m + 0x8000_0000_0000_0000
    } else {
        m
    }
}

/// `f64.neg` on patterns.
pub fn exec_f64_neg(a: u64) -> (r: u64)
    ensures
        r == f64_neg(a),
{
    if a >= 0x8000_0000_0000_0000 {
        a - 0x8000_0000_0000_0000
    } else {
        a + 0x8000_0000_0000_0000
    }
}
/// Unary operators whose result depends on floating-point arithmetic.
/// The translator never evaluates them itself: a constant operand is handed
/// back to the caller, which folds it (see [`crate::numeric`]).
#[derive(Clone, Copy, Debug, PartialEq, Eq, Structural)]
pub enum FloatUnOp {
    F32Ceil,
    F32Floor,
    F32Trunc,
    F32Nearest,
    F32Sqrt,
    F64Ceil,
    F64Floor,
    F64Trunc,
    F64Nearest,
    F64Sqrt,
    I32TruncF32S,
    I32TruncF32U,
    I32TruncF64S,
    I32TruncF64U,
    I64TruncF32S,
    I64TruncF32U,
    I64TruncF64S,
    I64TruncF64U,
    I32TruncSatF32S,
    I32TruncSatF32U,
    I32TruncSatF64S,
    I32TruncSatF64U,
    I64TruncSatF32S,
    I64TruncSatF32U,
    I64TruncSatF64S,
    I64TruncSatF64U,
    F32ConvertI32S,
    F32ConvertI32U,
    F32ConvertI64S,
    F32ConvertI64U,
    F32DemoteF64,
    F64ConvertI32S,
    F64ConvertI32U,
    F64ConvertI64S,
    F64ConvertI64U,
    F64PromoteF32,
}

/// Unary operators.
#[derive(Clone, Copy, Debug, PartialEq, Eq, Structural)]
pub enum UnOp {
    I32Clz,
    I32Ctz,
    I32Popcnt,
    I64Clz,
    I64Ctz,
    I64Popcnt,
    I32Extend8S,
    I32Extend16S,
    I64Extend8S,
    I64Extend16S,
    I64Extend32S,
    I32WrapI64,
    I64ExtendI32S,
    F32Abs,
    F32Neg,
    F64Abs,
    F64Neg,
    Float(FloatUnOp),
}

/// The outcome of evaluating an operator on constant operands.
#[derive(Clone, Copy, Debug, PartialEq, Eq, Structural)]
pub enum Folded {
    /// The operator yields this value.
    Value(TypedVal),
    /// The operator traps.
    Trap(TrapCode),
    /// The result depends on floating-point arithmetic.
    Float,
}

/// The low 32 bits of a 64-bit pattern.
pub open spec fn lo32(x: u64) -> u32 {
    (x as int % pow32()) as u32
}

fn exec_lo32(x: u64) -> (r: u32)
    ensures
        r == lo32(x),
{
    (x % 0x1_0000_0000) as u32
}

/// Returns `true` for the integer comparison operators, whose result is an
/// `i32` boolean.
pub open spec fn is_int_comparison(op: IntBinOp) -> bool {
    match op {
        IntBinOp::Eq | IntBinOp::Ne | IntBinOp::LtS | IntBinOp::LtU | IntBinOp::GtS
        | IntBinOp::GtU | IntBinOp::LeS | IntBinOp::LeU | IntBinOp::GeS | IntBinOp::GeU => true,
        _ => false,
    }
}

fn exec_is_int_comparison(op: IntBinOp) -> (r: bool)
    ensures
        r == is_int_comparison(op),
{
    match op {
        IntBinOp::Eq | IntBinOp::Ne | IntBinOp::LtS | IntBinOp::LtU | IntBinOp::GtS
        | IntBinOp::GtU | IntBinOp::LeS | IntBinOp::LeU | IntBinOp::GeS | IntBinOp::GeU => true,
        _ => false,
    }
}

/// Returns `true` for the float comparison operators.
pub open spec fn is_float_comparison(op: FloatBinOp) -> bool {
    match op {
        FloatBinOp::Eq | FloatBinOp::Ne | FloatBinOp::Lt | FloatBinOp::Gt | FloatBinOp::Le
        | FloatBinOp::Ge => true,
        _ => false,
    }
}

/// Evaluates a binary operator on constant operands given by their bits.
pub open spec fn fold_binary(op: BinOp, a: u64, b: u64) -> Folded {
    match op {
        BinOp::I32(o) => match eval_i32(o, lo32(a), lo32(b)) {
            Ok(r) => Folded::Value(TypedVal::spec_i32(r)),
            Err(t) => Folded::Trap(t),
        },
        BinOp::I64(o) => match eval_i64(o, a, b) {
            Ok(r) => Folded::Value(
                if is_int_comparison(o) {
                    TypedVal::spec_i32(r as u32)
                } else {
                    TypedVal::spec_i64(r)
                },
            ),
            Err(t) => Folded::Trap(t),
        },
        BinOp::F32(o) => if is_float_comparison(o) {
            Folded::Value(TypedVal::spec_bool(eval_f32_compare(o, lo32(a), lo32(b))))
        } else if o == FloatBinOp::Copysign {
            Folded::Value(
                TypedVal { ty: ValType::F32, bits: f32_copysign(lo32(a), lo32(b)) as u64 },
            )
        } else {
            Folded::Float
        },
        BinOp::F64(o) => if is_float_comparison(o) {
            Folded::Value(TypedVal::spec_bool(eval_f64_compare(o, a, b)))
        } else if o == FloatBinOp::Copysign {
            Folded::Value(TypedVal { ty: ValType::F64, bits: f64_copysign(a, b) })
        } else {
            Folded::Float
        },
    }
}

/// Evaluates a binary operator on constant operands.
pub fn exec_fold_binary(op: BinOp, a: u64, b: u64) -> (r: Folded)
    ensures
        r == fold_binary(op, a, b),
{
    match op {
        BinOp::I32(o) => match exec_i32(o, exec_lo32(a), exec_lo32(b)) {
            Ok(r) => Folded::Value(TypedVal::from_i32_bits(r)),
            Err(t) => Folded::Trap(t),
        },
        BinOp::I64(o) => match exec_i64(o, a, b) {
            Ok(r) => {
                if exec_is_int_comparison(o) {
                    Folded::Value(TypedVal::from_i32_bits(r as u32))
                } else {
                    Folded::Value(TypedVal::from_i64_bits(r))
                }
            },
            Err(t) => Folded::Trap(t),
        },
        BinOp::F32(o) => match o {
            FloatBinOp::Eq | FloatBinOp::Ne | FloatBinOp::Lt | FloatBinOp::Gt | FloatBinOp::Le
            | FloatBinOp::Ge => Folded::Value(
                TypedVal::from_bool(exec_f32_compare(o, exec_lo32(a), exec_lo32(b))),
            ),
            FloatBinOp::Copysign => Folded::Value(
                TypedVal::from_f32_bits(exec_f32_copysign(exec_lo32(a), exec_lo32(b))),
            ),
            _ => Folded::Float,
        },
        BinOp::F64(o) => match o {
            FloatBinOp::Eq | FloatBinOp::Ne | FloatBinOp::Lt | FloatBinOp::Gt | FloatBinOp::Le
            | FloatBinOp::Ge => Folded::Value(TypedVal::from_bool(exec_f64_compare(o, a, b))),
            FloatBinOp::Copysign => Folded::Value(
                TypedVal::from_f64_bits(exec_f64_copysign(a, b)),
            ),
            _ => Folded::Float,
        },
    }
}

/// The number of set bits of a natural number.
pub open spec fn popcount(x: nat) -> nat
    decreases x,
{
    if x == 0 {
        0
    } else {
        x % 2 + popcount(x / 2)
    }
}

proof fn lemma_popcount_le(x: nat)
    ensures
        popcount(x) <= x,
    decreases x,
{
    if x != 0 {
        lemma_popcount_le(x / 2);
    }
}

fn exec_popcount(a: u64) -> (r: u64)
    ensures
        r == popcount(a as nat),
{
    let mut x = a;
    let mut n: u64 = 0;
    proof {
        lemma_popcount_le(a as nat);
    }
    while x != 0
        invariant
            n + popcount(x as nat) == popcount(a as nat),
            popcount(a as nat) <= a,
        decreases x,
    {
        n = n + x % 2;
        x = x / 2;
    }
    n
}

/// Sign-extends the low byte of a 32-bit pattern.
pub open spec fn extend8_32(a: u32) -> u32 {
    let b = a % 0x100;
    if b < 0x80 {
        b
    } else {
        (b + 0xffff_ff00) as u32
    }
}

/// Sign-extends the low 16 bits of a 32-bit pattern.
pub open spec fn extend16_32(a: u32) -> u32 {
    let b = a % 0x1_0000;
    if b < 0x8000 {
        b
    } else {
        (b + 0xffff_0000) as u32
    }
}

/// Sign-extends the low `n` bits (`n` of 8, 16 or 32) of a 64-bit pattern.
pub open spec fn extend_64(a: u64, n: nat) -> u64 {
    let m = vstd::arithmetic::power2::pow2(n) as int;
    let b = a as int % m;
    if b < m / 2 {
        b as u64
    } else {
        (b + pow64() - m) as u64
    }
}

/// Evaluates a unary operator on a constant operand given by its bits.
pub open spec fn fold_unary(op: UnOp, a: u64) -> Folded {
    match op {
        UnOp::I32Clz => Folded::Value(
            TypedVal::spec_i32(vstd::std_specs::bits::u32_leading_zeros(lo32(a))),
        ),
        UnOp::I32Ctz => Folded::Value(
            TypedVal::spec_i32(vstd::std_specs::bits::u32_trailing_zeros(lo32(a))),
        ),
        UnOp::I32Popcnt => Folded::Value(TypedVal::spec_i32(popcount(lo32(a) as nat) as u32)),
        UnOp::I64Clz => Folded::Value(
            TypedVal::spec_i64(vstd::std_specs::bits::u64_leading_zeros(a) as u64),
        ),
        UnOp::I64Ctz => Folded::Value(
            TypedVal::spec_i64(vstd::std_specs::bits::u64_trailing_zeros(a) as u64),
        ),
        UnOp::I64Popcnt => Folded::Value(TypedVal::spec_i64(popcount(a as nat) as u64)),
        UnOp::I32Extend8S => Folded::Value(TypedVal::spec_i32(extend8_32(lo32(a)))),
        UnOp::I32Extend16S => Folded::Value(TypedVal::spec_i32(extend16_32(lo32(a)))),
        UnOp::I64Extend8S => Folded::Value(TypedVal::spec_i64(extend_64(a, 8))),
        UnOp::I64Extend16S => Folded::Value(TypedVal::spec_i64(extend_64(a, 16))),
        UnOp::I64Extend32S => Folded::Value(TypedVal::spec_i64(extend_64(a, 32))),
        UnOp::I32WrapI64 => Folded::Value(TypedVal::spec_i32(lo32(a))),
        UnOp::I64ExtendI32S => Folded::Value(TypedVal::spec_i64(extend_64(a, 32))),
        UnOp::F32Abs => Folded::Value(
            TypedVal { ty: ValType::F32, bits: f32_abs(lo32(a)) as u64 },
        ),
        UnOp::F32Neg => Folded::Value(
            TypedVal { ty: ValType::F32, bits: f32_neg(lo32(a)) as u64 },
        ),
        UnOp::F64Abs => Folded::Value(TypedVal { ty: ValType::F64, bits: f64_abs(a) }),
        UnOp::F64Neg => Folded::Value(TypedVal { ty: ValType::F64, bits: f64_neg(a) }),
        UnOp::Float(_) => Folded::Float,
    }
}

fn exec_extend_64(a: u64, n: u32) -> (r: u64)
    requires
        n == 8 || n == 16 || n == 32,
    ensures
        r == extend_64(a, n as nat),
{
    proof {
        vstd::arithmetic::power2::lemma2_to64();
    }
    let m: u64 = if n == 8 {
        0x100
    } else if n == 16 {
        0x1_0000
    } else {
        0x1_0000_0000
    };
    let b = a % m;
    if b < m / 2 {
        b
    } else {
        b + (0xffff_ffff_ffff_ffff - m + 1)
    }
}

/// Evaluates a unary operator on a constant operand.
pub fn exec_fold_unary(op: UnOp, a: u64) -> (r: Folded)
    ensures
        r == fold_unary(op, a),
{
    match op {
        UnOp::I32Clz => Folded::Value(TypedVal::from_i32_bits(exec_lo32(a).leading_zeros())),
        UnOp::I32Ctz => Folded::Value(TypedVal::from_i32_bits(exec_lo32(a).trailing_zeros())),
        UnOp::I32Popcnt => {
            let n = exec_popcount(exec_lo32(a) as u64);
            proof {
                lemma_popcount_le(lo32(a) as nat);
            }
            Folded::Value(TypedVal::from_i32_bits(n as u32))
        },
        UnOp::I64Clz => Folded::Value(TypedVal::from_i64_bits(a.leading_zeros() as u64)),
        UnOp::I64Ctz => Folded::Value(TypedVal::from_i64_bits(a.trailing_zeros() as u64)),
        UnOp::I64Popcnt => Folded::Value(TypedVal::from_i64_bits(exec_popcount(a))),
        UnOp::I32Extend8S => {
            let b = exec_lo32(a) % 0x100;
            Folded::Value(TypedVal::from_i32_bits(if b < 0x80 { b } else { b + 0xffff_ff00 }))
        },
        UnOp::I32Extend16S => {
            let b = exec_lo32(a) % 0x1_0000;
            Folded::Value(
                TypedVal::from_i32_bits(if b < 0x8000 { b } else { b + 0xffff_0000 }),
            )
        },
        UnOp::I64Extend8S => Folded::Value(TypedVal::from_i64_bits(exec_extend_64(a, 8))),
        UnOp::I64Extend16S => Folded::Value(TypedVal::from_i64_bits(exec_extend_64(a, 16))),
        UnOp::I64Extend32S => Folded::Value(TypedVal::from_i64_bits(exec_extend_64(a, 32))),
        UnOp::I32WrapI64 => Folded::Value(TypedVal::from_i32_bits(exec_lo32(a))),
        UnOp::I64ExtendI32S => Folded::Value(TypedVal::from_i64_bits(exec_extend_64(a, 32))),
        UnOp::F32Abs => Folded::Value(
            TypedVal::from_f32_bits(exec_f32_magnitude(exec_lo32(a))),
        ),
        UnOp::F32Neg => Folded::Value(TypedVal::from_f32_bits(exec_f32_neg(exec_lo32(a)))),
        UnOp::F64Abs => Folded::Value(TypedVal::from_f64_bits(exec_f64_magnitude(a))),
        UnOp::F64Neg => Folded::Value(TypedVal::from_f64_bits(exec_f64_neg(a))),
        UnOp::Float(_) => Folded::Float,
    }
}

} // verus!
