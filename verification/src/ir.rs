//! The register-based instructions that Wasm operators are translated into.
use vstd::prelude::*;
use crate::ops::{BinOp, UnOp, TrapCode};
use crate::value::{Reg, TypedVal};

verus! {

/// A jump target whose instruction position is fixed ("pinned") once the
/// translator reaches it. Labels are numbered in order of creation.
#[derive(Clone, Copy, Debug, PartialEq, Eq, Structural)]
pub struct Label(pub usize);

/// The width and extension of a memory load.
#[derive(Clone, Copy, Debug, PartialEq, Eq, Structural)]
pub enum LoadOp {
    Load32,
    Load64,
    I32Load8S,
    I32Load8U,
    I32Load16S,
    I32Load16U,
    I64Load8S,
    I64Load8U,
    I64Load16S,
    I64Load16U,
    I64Load32S,
    I64Load32U,
}

/// The width of a memory store.
#[derive(Clone, Copy, Debug, PartialEq, Eq, Structural)]
pub enum StoreOp {
    Store32,
    Store64,
    I32Store8,
    I32Store16,
    I64Store8,
    I64Store16,
    I64Store32,
}

/// How a called function is reached.
#[derive(Clone, Copy, Debug, PartialEq, Eq, Structural)]
pub enum Callee {
    /// A function defined in the module, by its index among the engine's
    /// compiled functions.
    Internal(u32),
    /// An imported function, by its function index.
    Imported(u32),
    /// A function taken from a table at run time, checked against a type.
    Indirect(u32),
}

/// An instruction of the register machine.
///
/// Some instructions are followed by parameter instructions (`Register`,
/// `RegisterAndOffsetHi`, `MemoryIndex`, `DataIndex`, `TableIndex`,
/// `ElemIndex`, `CallIndirectParams`, `CallIndirectParamsImm16`,
/// `BranchTableTarget`) that carry further operands.
#[derive(Clone, Copy, Debug, PartialEq, Eq, Structural)]
pub enum Instruction {
    Trap { code: TrapCode },
    ConsumeFuel { amount: u64 },
    Register { reg: Reg },
    RegisterAndOffsetHi { reg: Reg, offset_hi: u32 },
    MemoryIndex { index: u32 },
    DataIndex { index: u32 },
    TableIndex { index: u32 },
    ElemIndex { index: u32 },
    CallIndirectParams { index: Reg, table: u32 },
    CallIndirectParamsImm16 { index: u16, table: u32 },
    Branch { target: Label },
    BranchEqz { condition: Reg, target: Label },
    BranchNez { condition: Reg, target: Label },
    BranchTable { index: Reg, len_targets: u32 },
    BranchTableTarget { target: Label },
    Copy { result: Reg, value: Reg },
    CopyImm { result: Reg, value: TypedVal },
    CopyMany { results: Reg, len: u32 },
    Return,
    ReturnReg { value: Reg },
    ReturnImm { value: TypedVal },
    ReturnMany { len_values: u32 },
    Binary { op: BinOp, result: Reg, lhs: Reg, rhs: Reg },
    BinaryImm16Rhs { op: BinOp, result: Reg, lhs: Reg, rhs: i64 },
    BinaryImm16Lhs { op: BinOp, result: Reg, lhs: i64, rhs: Reg },
    CopysignImm { op: BinOp, result: Reg, lhs: Reg, sign_negative: bool },
    Unary { op: UnOp, result: Reg, input: Reg },
    Select { result: Reg, condition: Reg, lhs: Reg, rhs: Reg },
    GlobalGet { result: Reg, global: u32 },
    GlobalSet { input: Reg, global: u32 },
    GlobalSetI32Imm16 { input: i64, global: u32 },
    GlobalSetI64Imm16 { input: i64, global: u32 },
    Load { op: LoadOp, result: Reg, offset_lo: u32 },
    LoadOffset16 { op: LoadOp, result: Reg, ptr: Reg, offset: u16 },
    LoadAt { op: LoadOp, result: Reg, address: u32 },
    Store { op: StoreOp, ptr: Reg, offset_lo: u32 },
    StoreOffset16 { op: StoreOp, ptr: Reg, offset: u16, value: Reg },
    StoreOffset16Imm16 { op: StoreOp, ptr: Reg, offset: u16, value: i64 },
    StoreAt { op: StoreOp, address: u32, value: Reg },
    StoreAtImm16 { op: StoreOp, address: u32, value: i64 },
    StoreImm16 { op: StoreOp, ptr: Reg, offset_lo: u32 },
    Imm16AndOffsetHi { value: i64, offset_hi: u32 },
    MemorySize { result: Reg, memory: u32 },
    MemoryGrow { result: Reg, delta: Reg },
    MemoryGrowImm { result: Reg, delta: u64 },
    MemoryInit { dst: Reg, src: Reg, len: Reg },
    MemoryInitImm { dst: Reg, src: Reg, len: u16 },
    MemoryCopy { dst: Reg, src: Reg, len: Reg },
    MemoryCopyImm { dst: Reg, src: Reg, len: u16 },
    MemoryFill { dst: Reg, value: Reg, len: Reg },
    MemoryFillExact { dst: Reg, value: Reg, len: u16 },
    MemoryFillImm { dst: Reg, value: u8, len: Reg },
    MemoryFillImmExact { dst: Reg, value: u8, len: u16 },
    DataDrop { index: u32 },
    TableInit { dst: Reg, src: Reg, len: Reg },
    TableInitImm { dst: Reg, src: Reg, len: u16 },
    TableCopy { dst: Reg, src: Reg, len: Reg },
    TableCopyImm { dst: Reg, src: Reg, len: u16 },
    TableFill { dst: Reg, len: Reg, value: Reg },
    TableFillImm { dst: Reg, len: u16, value: Reg },
    TableGet { result: Reg, index: Reg },
    TableGetImm { result: Reg, index: u64 },
    TableSet { index: Reg, value: Reg },
    TableSetAt { value: Reg, index: u64 },
    TableGrow { result: Reg, delta: Reg, value: Reg },
    TableGrowImm { result: Reg, delta: u16, value: Reg },
    TableSize { result: Reg, table: u32 },
    ElemDrop { index: u32 },
    RefFunc { result: Reg, func: u32 },
    Call { results: Reg, callee: Callee, has_params: bool },
    ReturnCall { callee: Callee, has_params: bool },
    Wide128 { op: WideOp, results: Reg, lhs_lo: Reg, lhs_hi: Reg, rhs_lo: Reg, rhs_hi: Reg },
    MulWide { signed: bool, results: Reg, lhs: Reg, rhs: Reg },
}

/// The 128-bit additive operators of the wide-arithmetic proposal; their
/// operands and results are pairs of 64-bit halves, low half first.
#[derive(Clone, Copy, Debug, PartialEq, Eq, Structural)]
pub enum WideOp {
    Add128,
    Sub128,
}

} // verus!
