//! Value types, typed constant values, registers and the providers that
//! stand on the translator's value stack.
use vstd::prelude::*;

verus! {

/// The Wasm value types that the translator handles.
#[derive(Clone, Copy, Debug, PartialEq, Eq, Structural)]
pub enum ValType {
    I32,
    I64,
    F32,
    F64,
    V128,
    FuncRef,
    ExternRef,
}

/// A constant value with its type.
///
/// The bits of 32-bit values (`i32`, `f32`) are held zero-extended in the
/// low 32 bits; the bits of 64-bit values and references fill all 64 bits.
/// A null reference is represented by zero bits.
#[derive(Clone, Copy, Debug, PartialEq, Eq, Structural)]
pub struct TypedVal {
    pub ty: ValType,
    pub bits: u64,
}

/// `2^32`, the number of distinct 32-bit patterns.
pub open spec fn pow32() -> int {
    0x1_0000_0000
}

/// `2^64`, the number of distinct 64-bit patterns.
pub open spec fn pow64() -> int {
    0x1_0000_0000_0000_0000
}

/// Returns `true` for the types whose values occupy 32 bits.
pub open spec fn is_32bit_type(ty: ValType) -> bool {
    ty == ValType::I32 || ty == ValType::F32
}

impl TypedVal {
    /// A typed value is well formed if a 32-bit value has no bits above
    /// the low 32.
    pub open spec fn wf(self) -> bool {
        is_32bit_type(self.ty) ==> self.bits < pow32()
    }

    /// The `i32` constant with the given bit pattern.
    pub open spec fn spec_i32(bits: u32) -> TypedVal {
        TypedVal { ty: ValType::I32, bits: bits as u64 }
    }

    /// The `i64` constant with the given bit pattern.
    pub open spec fn spec_i64(bits: u64) -> TypedVal {
        TypedVal { ty: ValType::I64, bits }
    }

    /// The `i32` boolean `1` or `0`.
    pub open spec fn spec_bool(b: bool) -> TypedVal {
        TypedVal::spec_i32(if b { 1 } else { 0 })
    }

    /// Builds an `i32` constant from its bit pattern.
    pub fn from_i32_bits(bits: u32) -> (r: TypedVal)
        ensures
            r == TypedVal::spec_i32(bits),
            r.wf(),
    {
        TypedVal { ty: ValType::I32, bits: bits as u64 }
    }

    /// Builds an `i64` constant from its bit pattern.
    pub fn from_i64_bits(bits: u64) -> (r: TypedVal)
        ensures
            r == TypedVal::spec_i64(bits),
            r.wf(),
    {
        TypedVal { ty: ValType::I64, bits }
    }

    /// Builds an `f32` constant from its bit pattern.
    pub fn from_f32_bits(bits: u32) -> (r: TypedVal)
        ensures
            r == (TypedVal { ty: ValType::F32, bits: bits as u64 }),
            r.wf(),
    {
        TypedVal { ty: ValType::F32, bits: bits as u64 }
    }

    /// Builds an `f64` constant from its bit pattern.
    pub fn from_f64_bits(bits: u64) -> (r: TypedVal)
        ensures
            r == (TypedVal { ty: ValType::F64, bits }),
            r.wf(),
    {
        TypedVal { ty: ValType::F64, bits }
    }

    /// Builds the `i32` boolean `1` (true) or `0` (false).
    pub fn from_bool(b: bool) -> (r: TypedVal)
        ensures
            r == TypedVal::spec_bool(b),
            r.wf(),
    {
        TypedVal::from_i32_bits(if b { 1 } else { 0 })
    }

    /// The low 32 bits of the value; the whole value for 32-bit types.
    pub fn low32(&self) -> (r: u32)
        ensures
            r == (self.bits as int) % pow32(),
            self.wf() && is_32bit_type(self.ty) ==> r == self.bits,
    {
        (self.bits % 0x1_0000_0000) as u32
    }
}

/// A register of the register machine.
///
/// Registers `0 .. num_locals` hold the function's locals; the following
/// registers hold values computed on the fly ("dynamic" registers); the
/// highest registers preserve the old values of locals that were
/// overwritten while still referenced; negative registers refer to
/// function-local constants.
#[derive(Clone, Copy, Debug, PartialEq, Eq, Structural)]
pub struct Reg(pub i16);

/// What stands on the value stack: a value held in a register, or a
/// constant known at translation time.
#[derive(Clone, Copy, Debug, PartialEq, Eq, Structural)]
pub enum Provider {
    Register(Reg),
    Const(TypedVal),
}

/// The signed value of a 32-bit pattern (two's complement).
pub open spec fn s32(x: u32) -> int {
    if x < 0x8000_0000 {
        x as int
    } else {
        x - pow32()
    }
}

/// The signed value of a 64-bit pattern (two's complement).
pub open spec fn s64(x: u64) -> int {
    if x < 0x8000_0000_0000_0000 {
        x as int
    } else {
        x - pow64()
    }
}

/// The 32-bit pattern of an integer, taken modulo `2^32`.
pub open spec fn bits32(v: int) -> u32 {
    (v % pow32()) as u32
}

/// The 64-bit pattern of an integer, taken modulo `2^64`.
pub open spec fn bits64(v: int) -> u64 {
    (v % pow64()) as u64
}

/// The `i32` value of a 32-bit pattern.
pub fn i32_from_bits(x: u32) -> (r: i32)
    ensures
        r as int == s32(x),
{
    if x < 0x8000_0000 {
        x as i32
    } else {
        ((x - 0x8000_0000u32) as i32) + i32::MIN
    }
}

/// The 32-bit pattern of an `i32` value.
pub fn i32_to_bits(v: i32) -> (r: u32)
    ensures
        s32(r) == v as int,
        r == bits32(v as int),
{
    if v >= 0 {
        v as u32
    } else {
        ((v - i32::MIN) as u32) + 0x8000_0000u32
    }
}

/// The `i64` value of a 64-bit pattern.
pub fn i64_from_bits(x: u64) -> (r: i64)
    ensures
        r as int == s64(x),
{
    if x < 0x8000_0000_0000_0000 {
        x as i64
    } else {
        ((x - 0x8000_0000_0000_0000u64) as i64) + i64::MIN
    }
}

/// The 64-bit pattern of an `i64` value.
pub fn i64_to_bits(v: i64) -> (r: u64)
    ensures
        s64(r) == v as int,
        r == bits64(v as int),
{
    if v >= 0 {
        v as u64
    } else {
        ((v - i64::MIN) as u64) + 0x8000_0000_0000_0000u64
    }
}

} // verus!
