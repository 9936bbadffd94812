//! What constant folding computes, stated in plain arithmetic: wrapping
//! integer arithmetic, division and its traps, how the comparisons relate,
//! shifts and rotations, sign extension, and the sign operations on floats.
use vstd::prelude::*;
use crate::ops::{IntBinOp, TrapCode, eval_i32, eval_i64, extend8_32, extend16_32, extend_64, f32_abs,
    f32_neg, f64_abs, f64_neg, f32_magnitude, f64_magnitude, FloatBinOp, eval_f32_compare, eval_f64_compare,
    f32_is_nan, f64_is_nan, f32_copysign, f64_copysign};
use crate::value::{pow32, pow64, s32, s64};

verus! {

/// 32-bit `add`, `sub` and `mul` wrap around modulo `2^32`.
pub proof fn lemma_i32_arith_wraps(a: u32, b: u32)
    ensures
        eval_i32(IntBinOp::Add, a, b) == Ok::<u32, TrapCode>(((a as int + b as int) % pow32()) as u32),
        eval_i32(IntBinOp::Sub, a, b) == Ok::<u32, TrapCode>(((a as int - b as int + pow32()) % pow32()) as u32),
        eval_i32(IntBinOp::Mul, a, b) == Ok::<u32, TrapCode>(((a as int * b as int) % pow32()) as u32),
{
    assert(pow32() == 0x1_0000_0000);
}

/// 64-bit `add`, `sub` and `mul` wrap around modulo `2^64`.
pub proof fn lemma_i64_arith_wraps(a: u64, b: u64)
    ensures
        eval_i64(IntBinOp::Add, a, b) == Ok::<u64, TrapCode>(((a as int + b as int) % pow64()) as u64),
        eval_i64(IntBinOp::Sub, a, b) == Ok::<u64, TrapCode>(((a as int - b as int + pow64()) % pow64()) as u64),
        eval_i64(IntBinOp::Mul, a, b) == Ok::<u64, TrapCode>(((a as int * b as int) % pow64()) as u64),
{
    assert(pow64() == 0x1_0000_0000_0000_0000);
}

/// Division and remainder trap on a zero divisor; unsigned they are the
/// quotient and remainder; signed division of the least value by `-1`
/// overflows, while the remainder is zero.
pub proof fn lemma_i32_division(a: u32, b: u32)
    ensures
        b == 0 ==> eval_i32(IntBinOp::DivS, a, b) == Err::<u32, TrapCode>(TrapCode::IntegerDivisionByZero)
            && eval_i32(IntBinOp::DivU, a, b) == Err::<u32, TrapCode>(TrapCode::IntegerDivisionByZero)
            && eval_i32(IntBinOp::RemS, a, b) == Err::<u32, TrapCode>(TrapCode::IntegerDivisionByZero)
            && eval_i32(IntBinOp::RemU, a, b) == Err::<u32, TrapCode>(TrapCode::IntegerDivisionByZero),
        b != 0 ==> eval_i32(IntBinOp::DivU, a, b) == Ok::<u32, TrapCode>(a / b) && eval_i32(IntBinOp::RemU, a, b)
            == Ok::<u32, TrapCode>(a % b),
        eval_i32(IntBinOp::DivS, 0x8000_0000, 0xffff_ffff) == Err::<u32, TrapCode>(TrapCode::IntegerOverflow),
        eval_i32(IntBinOp::RemS, 0x8000_0000, 0xffff_ffff) == Ok::<u32, TrapCode>(0),
{
    assert(pow32() == 0x1_0000_0000);
    assert(s32(0x8000_0000) == -0x8000_0000);
    assert(s32(0xffff_ffff) == -1);
    assert((-0x8000_0000int) as i32 == i32::MIN);
    assert((-1int) as i32 == -1i32);
    assert(i32::MIN.checked_div(-1i32) is None);
}

/// The 64-bit counterpart of [`lemma_i32_division`].
pub proof fn lemma_i64_division(a: u64, b: u64)
    ensures
        b == 0 ==> eval_i64(IntBinOp::DivS, a, b) == Err::<u64, TrapCode>(TrapCode::IntegerDivisionByZero)
            && eval_i64(IntBinOp::DivU, a, b) == Err::<u64, TrapCode>(TrapCode::IntegerDivisionByZero)
            && eval_i64(IntBinOp::RemS, a, b) == Err::<u64, TrapCode>(TrapCode::IntegerDivisionByZero)
            && eval_i64(IntBinOp::RemU, a, b) == Err::<u64, TrapCode>(TrapCode::IntegerDivisionByZero),
        b != 0 ==> eval_i64(IntBinOp::DivU, a, b) == Ok::<u64, TrapCode>(a / b) && eval_i64(IntBinOp::RemU, a, b)
            == Ok::<u64, TrapCode>(a % b),
        eval_i64(IntBinOp::DivS, 0x8000_0000_0000_0000, 0xffff_ffff_ffff_ffff) == Err::<u64, TrapCode>(
            TrapCode::IntegerOverflow,
        ),
        eval_i64(IntBinOp::RemS, 0x8000_0000_0000_0000, 0xffff_ffff_ffff_ffff) == Ok::<u64, TrapCode>(0),
{
    assert(pow64() == 0x1_0000_0000_0000_0000);
    assert(s64(0x8000_0000_0000_0000) == -0x8000_0000_0000_0000);
    assert(s64(0xffff_ffff_ffff_ffff) == -1);
    assert((-0x8000_0000_0000_0000int) as i64 == i64::MIN);
    assert((-1int) as i64 == -1i64);
    assert(i64::MIN.checked_div(-1i64) is None);
}

/// The value, 1 or 0, of a truth.
pub open spec fn truth(b: bool) -> u32 {
    if b {
        1
    } else {
        0
    }
}

/// The 32-bit comparisons: `eq` is equality and `ne` its negation;
/// unsigned `lt` is the order of the patterns; signed `lt` is unsigned `lt`
/// with the sign bits flipped; `gt` is `lt` with the operands exchanged,
/// `le` is not `gt`, and `ge` is `le` with the operands exchanged.
pub proof fn lemma_i32_comparisons(a: u32, b: u32)
    ensures
        eval_i32(IntBinOp::Eq, a, b) == Ok::<u32, TrapCode>(truth(a == b)),
        eval_i32(IntBinOp::Ne, a, b) == Ok::<u32, TrapCode>(truth(a != b)),
        eval_i32(IntBinOp::LtU, a, b) == Ok::<u32, TrapCode>(truth(a < b)),
        eval_i32(IntBinOp::LtS, a, b) == Ok::<u32, TrapCode>(
            truth((a as int + 0x8000_0000) % pow32() < (b as int + 0x8000_0000) % pow32()),
        ),
        eval_i32(IntBinOp::GtU, a, b) == eval_i32(IntBinOp::LtU, b, a),
        eval_i32(IntBinOp::GtS, a, b) == eval_i32(IntBinOp::LtS, b, a),
        eval_i32(IntBinOp::LeU, a, b) == Ok::<u32, TrapCode>((1 - eval_i32(IntBinOp::GtU, a, b)->Ok_0) as u32),
        eval_i32(IntBinOp::LeS, a, b) == Ok::<u32, TrapCode>((1 - eval_i32(IntBinOp::GtS, a, b)->Ok_0) as u32),
        eval_i32(IntBinOp::GeU, a, b) == eval_i32(IntBinOp::LeU, b, a),
        eval_i32(IntBinOp::GeS, a, b) == eval_i32(IntBinOp::LeS, b, a),
{
    assert(pow32() == 0x1_0000_0000);
}

/// The 64-bit comparisons, as in [`lemma_i32_comparisons`]; their results
/// are 1 or 0.
pub proof fn lemma_i64_comparisons(a: u64, b: u64)
    ensures
        eval_i64(IntBinOp::Eq, a, b) == Ok::<u64, TrapCode>(truth(a == b) as u64),
        eval_i64(IntBinOp::Ne, a, b) == Ok::<u64, TrapCode>(truth(a != b) as u64),
        eval_i64(IntBinOp::LtU, a, b) == Ok::<u64, TrapCode>(truth(a < b) as u64),
        eval_i64(IntBinOp::LtS, a, b) == Ok::<u64, TrapCode>(
            truth((a as int + 0x8000_0000_0000_0000) % pow64() < (b as int + 0x8000_0000_0000_0000) % pow64())
                as u64,
        ),
        eval_i64(IntBinOp::GtU, a, b) == eval_i64(IntBinOp::LtU, b, a),
        eval_i64(IntBinOp::GtS, a, b) == eval_i64(IntBinOp::LtS, b, a),
        eval_i64(IntBinOp::LeU, a, b) == Ok::<u64, TrapCode>((1 - eval_i64(IntBinOp::GtU, a, b)->Ok_0) as u64),
        eval_i64(IntBinOp::LeS, a, b) == Ok::<u64, TrapCode>((1 - eval_i64(IntBinOp::GtS, a, b)->Ok_0) as u64),
        eval_i64(IntBinOp::GeU, a, b) == eval_i64(IntBinOp::LeU, b, a),
        eval_i64(IntBinOp::GeS, a, b) == eval_i64(IntBinOp::LeS, b, a),
{
    assert(pow64() == 0x1_0000_0000_0000_0000);
}

/// Logical right shift divides by two to the power of the amount modulo
/// 32; arithmetic right shift agrees with it on non-negative values;
/// rotating left by `k` is rotating right by `32 - k`.
pub proof fn lemma_i32_shifts(a: u32, b: u32)
    ensures
        eval_i32(IntBinOp::ShrU, a, b) == Ok::<u32, TrapCode>(
            (a as nat / vstd::arithmetic::power2::pow2((b % 32) as nat)) as u32,
        ),
        a < 0x8000_0000 ==> eval_i32(IntBinOp::ShrS, a, b) == eval_i32(IntBinOp::ShrU, a, b),
        eval_i32(IntBinOp::Rotl, a, b) == eval_i32(IntBinOp::Rotr, a, ((32 - b % 32) % 32) as u32),
        eval_i32(IntBinOp::Rotl, a, 0) == Ok::<u32, TrapCode>(a),
{
    let k = b % 32;
    vstd::bits::lemma_u32_shr_is_div(a, k);
    let r = ((32 - k) % 32) as u32;
    assert(r % 32 == r);
    if k != 0 {
        assert(32 - r == k);
        assert((a << k) | (a >> r) == (a >> r) | (a << k)) by (bit_vector);
    }
}

/// The 64-bit counterpart of [`lemma_i32_shifts`].
pub proof fn lemma_i64_shifts(a: u64, b: u64)
    ensures
        eval_i64(IntBinOp::ShrU, a, b) == Ok::<u64, TrapCode>(
            (a as nat / vstd::arithmetic::power2::pow2((b % 64) as nat)) as u64,
        ),
        a < 0x8000_0000_0000_0000 ==> eval_i64(IntBinOp::ShrS, a, b) == eval_i64(IntBinOp::ShrU, a, b),
        eval_i64(IntBinOp::Rotl, a, b) == eval_i64(IntBinOp::Rotr, a, ((64 - b % 64) % 64) as u64),
        eval_i64(IntBinOp::Rotl, a, 0) == Ok::<u64, TrapCode>(a),
{
    let k = b % 64;
    vstd::bits::lemma_u64_shr_is_div(a, k);
    let r = ((64 - k) % 64) as u64;
    assert(r % 64 == r);
    if k != 0 {
        assert(64 - r == k);
        assert((a << k) | (a >> r) == (a >> r) | (a << k)) by (bit_vector);
    }
}

/// Sign extension keeps the low bits and gives the signed value they
/// stand for.
pub proof fn lemma_sign_extension(a: u32, x: u64)
    ensures
        s32(extend8_32(a)) % 0x100 == a as int % 0x100 && -0x80 <= s32(extend8_32(a)) < 0x80,
        s32(extend16_32(a)) % 0x1_0000 == a as int % 0x1_0000 && -0x8000 <= s32(extend16_32(a)) < 0x8000,
        s64(extend_64(x, 8)) % 0x100 == x as int % 0x100 && -0x80 <= s64(extend_64(x, 8)) < 0x80,
        s64(extend_64(x, 16)) % 0x1_0000 == x as int % 0x1_0000 && -0x8000 <= s64(extend_64(x, 16)) < 0x8000,
        s64(extend_64(x, 32)) % 0x1_0000_0000 == x as int % 0x1_0000_0000 && -0x8000_0000 <= s64(
            extend_64(x, 32),
        ) < 0x8000_0000,
{
    assert(pow32() == 0x1_0000_0000);
    assert(pow64() == 0x1_0000_0000_0000_0000);
    vstd::arithmetic::power2::lemma2_to64();
}

/// `neg` flips the sign bit and `abs` clears it; both keep the magnitude,
/// and negating twice gives the operand back.
pub proof fn lemma_float_sign_ops(a: u32, x: u64)
    ensures
        f32_magnitude(f32_neg(a)) == f32_magnitude(a) && (f32_neg(a) >= 0x8000_0000) != (a >= 0x8000_0000),
        f32_neg(f32_neg(a)) == a,
        f32_magnitude(f32_abs(a)) == f32_magnitude(a) && f32_abs(a) < 0x8000_0000,
        f64_magnitude(f64_neg(x)) == f64_magnitude(x) && (f64_neg(x) >= 0x8000_0000_0000_0000) != (x
            >= 0x8000_0000_0000_0000),
        f64_neg(f64_neg(x)) == x,
        f64_magnitude(f64_abs(x)) == f64_magnitude(x) && f64_abs(x) < 0x8000_0000_0000_0000,
{
}

/// The 32-bit float comparisons: every comparison with a NaN is false but
/// `ne`, which is true; the two zeros are equal; `gt` and `ge` are `lt` and
/// `le` with the operands exchanged; `le` is `lt` or `eq`, and `ne` is not
/// `eq`; `lt` is a strict order.
pub proof fn lemma_f32_comparisons(a: u32, b: u32)
    ensures
        f32_is_nan(a) || f32_is_nan(b) ==> !eval_f32_compare(FloatBinOp::Eq, a, b) && eval_f32_compare(
            FloatBinOp::Ne,
            a,
            b,
        ) && !eval_f32_compare(FloatBinOp::Lt, a, b) && !eval_f32_compare(FloatBinOp::Gt, a, b)
            && !eval_f32_compare(FloatBinOp::Le, a, b) && !eval_f32_compare(FloatBinOp::Ge, a, b),
        eval_f32_compare(FloatBinOp::Eq, 0, 0x8000_0000),
        eval_f32_compare(FloatBinOp::Gt, a, b) == eval_f32_compare(FloatBinOp::Lt, b, a),
        eval_f32_compare(FloatBinOp::Ge, a, b) == eval_f32_compare(FloatBinOp::Le, b, a),
        eval_f32_compare(FloatBinOp::Le, a, b) == (eval_f32_compare(FloatBinOp::Lt, a, b) || eval_f32_compare(
            FloatBinOp::Eq,
            a,
            b,
        )),
        eval_f32_compare(FloatBinOp::Ne, a, b) == !eval_f32_compare(FloatBinOp::Eq, a, b),
        !(eval_f32_compare(FloatBinOp::Lt, a, b) && eval_f32_compare(FloatBinOp::Lt, b, a)),
        !f32_is_nan(a) ==> eval_f32_compare(FloatBinOp::Eq, a, a),
        !f32_is_nan(a) && a < 0x7f80_0000 ==> eval_f32_compare(FloatBinOp::Lt, a, 0x7f80_0000),
        !f32_is_nan(a) && f32_magnitude(a) != 0 && a < 0x8000_0000 ==> eval_f32_compare(FloatBinOp::Lt, 0, a),
{
}

/// The 64-bit counterpart of [`lemma_f32_comparisons`].
pub proof fn lemma_f64_comparisons(a: u64, b: u64)
    ensures
        f64_is_nan(a) || f64_is_nan(b) ==> !eval_f64_compare(FloatBinOp::Eq, a, b) && eval_f64_compare(
            FloatBinOp::Ne,
            a,
            b,
        ) && !eval_f64_compare(FloatBinOp::Lt, a, b) && !eval_f64_compare(FloatBinOp::Gt, a, b)
            && !eval_f64_compare(FloatBinOp::Le, a, b) && !eval_f64_compare(FloatBinOp::Ge, a, b),
        eval_f64_compare(FloatBinOp::Eq, 0, 0x8000_0000_0000_0000),
        eval_f64_compare(FloatBinOp::Gt, a, b) == eval_f64_compare(FloatBinOp::Lt, b, a),
        eval_f64_compare(FloatBinOp::Ge, a, b) == eval_f64_compare(FloatBinOp::Le, b, a),
        eval_f64_compare(FloatBinOp::Le, a, b) == (eval_f64_compare(FloatBinOp::Lt, a, b) || eval_f64_compare(
            FloatBinOp::Eq,
            a,
            b,
        )),
        eval_f64_compare(FloatBinOp::Ne, a, b) == !eval_f64_compare(FloatBinOp::Eq, a, b),
        !(eval_f64_compare(FloatBinOp::Lt, a, b) && eval_f64_compare(FloatBinOp::Lt, b, a)),
        !f64_is_nan(a) ==> eval_f64_compare(FloatBinOp::Eq, a, a),
        !f64_is_nan(a) && a < 0x7ff0_0000_0000_0000 ==> eval_f64_compare(FloatBinOp::Lt, a, 0x7ff0_0000_0000_0000),
        !f64_is_nan(a) && f64_magnitude(a) != 0 && a < 0x8000_0000_0000_0000 ==> eval_f64_compare(
            FloatBinOp::Lt,
            0,
            a,
        ),
{
}

/// `copysign` keeps the magnitude of its first operand and takes the sign
/// of its second.
pub proof fn lemma_copysign(a: u32, b: u32, x: u64, y: u64)
    ensures
        f32_magnitude(f32_copysign(a, b)) == f32_magnitude(a),
        (f32_copysign(a, b) >= 0x8000_0000) == (b >= 0x8000_0000),
        f64_magnitude(f64_copysign(x, y)) == f64_magnitude(x),
        (f64_copysign(x, y) >= 0x8000_0000_0000_0000) == (y >= 0x8000_0000_0000_0000),
{
}

} // verus!
