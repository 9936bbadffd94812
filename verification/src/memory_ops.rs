//! The translation of linear memory operators: loads, stores and the bulk
//! memory operators.
use vstd::prelude::*;
use crate::ir::{Instruction, LoadOp, StoreOp};
use crate::memory::{IndexType, MemoryType, valid_memory_type};
use crate::ops::{TrapCode, lo32};
use crate::translator::{FuncTranslator, TState, TranslationError, Failure, FuelKind, outcome};
use crate::value::{Provider, Reg, TypedVal, pow32, s32, s64};

verus! {

/// An index, length or delta operand: a register, or a constant small
/// enough to be an immediate.
#[derive(Clone, Copy, Debug, PartialEq, Eq, Structural)]
pub enum IndexArg {
    Reg(Reg),
    Imm(u64),
}

/// Which constants a store can take as a 16-bit immediate.
#[derive(Clone, Copy, Debug, PartialEq, Eq, Structural)]
pub enum StoreImm {
    /// Float stores take none.
    Never,
    /// 8-bit stores take every constant, wrapped to its low byte.
    Byte,
    /// 16-bit stores take every constant, wrapped to its low 16 bits.
    Half,
    /// `i32.store` and `i64.store32` take a 32-bit value that fits 16 bits.
    Word,
    /// `i64.store` takes a 64-bit value that fits 16 bits.
    Double,
}

/// The signed value of the low `2^bits` of `x`.
pub open spec fn signed_low(x: u64, m: int) -> int {
    if (x as int) % m < m / 2 {
        (x as int) % m
    } else {
        (x as int) % m - m
    }
}

/// The 16-bit immediate that stores the constant `bits`, if the store
/// takes one.
pub open spec fn store_imm16(k: StoreImm, bits: u64) -> Option<i64> {
    match k {
        StoreImm::Never => None,
        StoreImm::Byte => Some(signed_low(bits, 0x100) as i64),
        StoreImm::Half => Some(signed_low(bits, 0x1_0000) as i64),
        StoreImm::Word => if -0x8000 <= s32(lo32(bits)) <= 0x7fff {
            Some(s32(lo32(bits)) as i64)
        } else {
            None
        },
        StoreImm::Double => if -0x8000 <= s64(bits) <= 0x7fff {
            Some(s64(bits) as i64)
        } else {
            None
        },
    }
}

/// Computes [`store_imm16`].
pub fn exec_store_imm16(k: StoreImm, bits: u64) -> (r: Option<i64>)
    ensures
        r == store_imm16(k, bits),
{
    match k {
        StoreImm::Never => None,
        StoreImm::Byte => {
            let b = bits % 0x100;
            if b < 0x80 {
                Some(b as i64)
            } else {
                Some(b as i64 - 0x100)
            }
        },
        StoreImm::Half => {
            let h = bits % 0x1_0000;
            if h < 0x8000 {
                Some(h as i64)
            } else {
                Some(h as i64 - 0x1_0000)
            }
        },
        StoreImm::Word => {
            let v = crate::value::i32_from_bits((bits % 0x1_0000_0000) as u32);
            if -0x8000 <= v && v <= 0x7fff {
                Some(v as i64)
            } else {
                None
            }
        },
        StoreImm::Double => {
            let v = crate::value::i64_from_bits(bits);
            if -0x8000 <= v && v <= 0x7fff {
                Some(v)
            } else {
                None
            }
        },
    }
}

/// The size in bytes of a memory of `max` pages: the product wraps
/// around like a shift of 64-bit integers.
pub open spec fn max_size(max: u64, page_size_log2: u8) -> u64 {
    max << page_size_log2
}

/// The address that a constant pointer and an offset give, if it can be
/// valid at all: it must not overflow 64 bits, exceed the size of the
/// memory at its maximum, or leave the 32-bit address space of a 32-bit
/// memory.
pub open spec fn effective_address(mt: MemoryType, ptr: TypedVal, offset: u64) -> Option<u64> {
    let p: int = if mt.index_type == IndexType::I64 {
        ptr.bits as int
    } else {
        lo32(ptr.bits) as int
    };
    let a = p + offset;
    if a > u64::MAX {
        None
    } else if mt.maximum is Some && a > max_size(mt.maximum->0, mt.page_size_log2) {
        None
    } else if mt.index_type == IndexType::I32 && a >= pow32() {
        None
    } else {
        Some(a as u64)
    }
}

/// Computes [`effective_address`].
pub fn exec_effective_address(mt: &MemoryType, ptr: TypedVal, offset: u64) -> (r: Option<u64>)
    requires
        valid_memory_type(*mt),
    ensures
        r == effective_address(*mt, ptr, offset),
{
    let p: u64 = match mt.index_type {
        IndexType::I64 => ptr.bits,
        IndexType::I32 => ptr.bits % 0x1_0000_0000,
    };
    let a = match p.checked_add(offset) {
        Some(a) => a,
        None => return None,
    };
    match mt.maximum {
        Some(max) => {
            if a > (max << mt.page_size_log2) {
                return None;
            }
        },
        None => {},
    }
    match mt.index_type {
        IndexType::I32 => if a >= 0x1_0000_0000 {
            return None;
        },
        IndexType::I64 => {},
    }
    Some(a)
}

impl TState {
    /// Appends the memory index parameter unless the memory is the default
    /// one.
    pub open spec fn memory_param(self, memory: u32) -> TState {
        if memory == 0 {
            self
        } else {
            self.push_instr(Instruction::MemoryIndex { index: memory })
        }
    }

    /// An index operand: a constant, read at the index type, is an
    /// immediate if it does not exceed `limit`; other constants get a
    /// constant register.
    pub open spec fn index_arg(self, p: Provider, ty: IndexType, limit: u64) -> Result<(TState, IndexArg), Failure> {
        match p {
            Provider::Register(r) => Ok((self, IndexArg::Reg(r))),
            Provider::Const(v) => {
                let x: u64 = if ty == IndexType::I64 {
                    v.bits
                } else {
                    lo32(v.bits) as u64
                };
                if x <= limit {
                    Ok((self, IndexArg::Imm(x)))
                } else {
                    match self.alloc_const(v) {
                        Err(e) => Err(e),
                        Ok((s, r)) => Ok((s, IndexArg::Reg(r))),
                    }
                }
            },
        }
    }

    /// Translates a load of `op` from `memory` at `offset`. A constant
    /// pointer is resolved upfront: an address that cannot be valid traps,
    /// a 32-bit address is encoded in the instruction, a larger one is
    /// split around the constant zero pointer. A register pointer uses a
    /// 16-bit offset on the default memory when the offset fits, and a
    /// split 64-bit offset otherwise.
    pub open spec fn load(self, op: LoadOp, memory: u32, offset: u64, mt: MemoryType) -> Result<TState, Failure> {
        if !self.reachable {
            Ok(self)
        } else {
            let ptr = self.stack.last();
            let s0 = self.pop();
            match ptr {
                Provider::Const(p) => match effective_address(mt, p, offset) {
                    None => s0.trap(TrapCode::MemoryOutOfBounds),
                    Some(a) => if a <= u32::MAX {
                        match s0.push_dynamic() {
                            Err(e) => Err(e),
                            Ok(s1) => match s1.push_fueled(
                                Instruction::LoadAt { op, result: Reg(s0.next_dyn() as i16), address: a as u32 },
                                FuelKind::Load,
                            ) {
                                Err(e) => Err(e),
                                Ok(s2) => Ok(s2.memory_param(memory)),
                            },
                        }
                    } else {
                        match s0.alloc_const(TypedVal::spec_i64(0)) {
                            Err(e) => Err(e),
                            Ok((s1, zero)) => s1.load_split(op, memory, zero, a),
                        }
                    },
                },
                Provider::Register(p) => if memory == 0 && offset <= 0xffff {
                    match s0.push_dynamic() {
                        Err(e) => Err(e),
                        Ok(s1) => s1.push_fueled(
                            Instruction::LoadOffset16 {
                                op,
                                result: Reg(s0.next_dyn() as i16),
                                ptr: p,
                                offset: offset as u16,
                            },
                            FuelKind::Load,
                        ),
                    }
                } else {
                    s0.load_split(op, memory, p, offset)
                },
            }
        }
    }

    /// A load from a register pointer with a 64-bit offset split into the
    /// instruction's low half and a parameter's high half.
    pub open spec fn load_split(self, op: LoadOp, memory: u32, ptr: Reg, offset: u64) -> Result<TState, Failure> {
        match self.push_dynamic() {
            Err(e) => Err(e),
            Ok(s1) => match s1.push_fueled(
                Instruction::Load { op, result: Reg(self.next_dyn() as i16), offset_lo: offset as u32 },
                FuelKind::Load,
            ) {
                Err(e) => Err(e),
                Ok(s2) => Ok(
                    s2.push_instr(
                        Instruction::RegisterAndOffsetHi { reg: ptr, offset_hi: (offset >> 32u64) as u32 },
                    ).memory_param(memory),
                ),
            },
        }
    }

    /// A store to a register pointer with a 64-bit offset split into the
    /// instruction's low half and a parameter's high half, which also
    /// carries the value.
    pub open spec fn store_split(self, op: StoreOp, imm: StoreImm, memory: u32, ptr: Reg, offset: u64, value: Provider) -> Result<TState, Failure> {
        let lo = offset as u32;
        let hi = (offset >> 32u64) as u32;
        let emitted = match value {
            Provider::Register(v) => match self.push_fueled(
                Instruction::Store { op, ptr, offset_lo: lo },
                FuelKind::Store,
            ) {
                Err(e) => Err(e),
                Ok(s) => Ok(s.push_instr(Instruction::RegisterAndOffsetHi { reg: v, offset_hi: hi })),
            },
            Provider::Const(v) => match store_imm16(imm, v.bits) {
                Some(i) => match self.push_fueled(
                    Instruction::StoreImm16 { op, ptr, offset_lo: lo },
                    FuelKind::Store,
                ) {
                    Err(e) => Err(e),
                    Ok(s) => Ok(s.push_instr(Instruction::Imm16AndOffsetHi { value: i, offset_hi: hi })),
                },
                None => match self.alloc_const(v) {
                    Err(e) => Err(e),
                    Ok((s1, c)) => match s1.push_fueled(
                        Instruction::Store { op, ptr, offset_lo: lo },
                        FuelKind::Store,
                    ) {
                        Err(e) => Err(e),
                        Ok(s) => Ok(s.push_instr(Instruction::RegisterAndOffsetHi { reg: c, offset_hi: hi })),
                    },
                },
            },
        };
        match emitted {
            Err(e) => Err(e),
            Ok(s) => Ok(s.memory_param(memory)),
        }
    }

    /// Translates a store of `op` to `memory` at `offset`; `imm` tells which
    /// constant values are immediates. A constant pointer is resolved
    /// upfront like for loads; a register pointer uses a 16-bit offset on
    /// the default memory when the offset fits.
    pub open spec fn store(self, op: StoreOp, imm: StoreImm, memory: u32, offset: u64, mt: MemoryType) -> Result<TState, Failure> {
        if !self.reachable {
            Ok(self)
        } else {
            let n = self.stack.len();
            let value = self.stack[n - 1];
            let ptr = self.stack[n - 2];
            let s0 = self.pop().pop();
            match ptr {
                Provider::Const(p) => match effective_address(mt, p, offset) {
                    None => s0.trap(TrapCode::MemoryOutOfBounds),
                    Some(a) => if a <= u32::MAX {
                        let address = a as u32;
                        let emitted = match value {
                            Provider::Register(v) => s0.push_fueled(
                                Instruction::StoreAt { op, address, value: v },
                                FuelKind::Store,
                            ),
                            Provider::Const(v) => match store_imm16(imm, v.bits) {
                                Some(i) => s0.push_fueled(
                                    Instruction::StoreAtImm16 { op, address, value: i },
                                    FuelKind::Store,
                                ),
                                None => match s0.alloc_const(v) {
                                    Err(e) => Err(e),
                                    Ok((s1, c)) => s1.push_fueled(
                                        Instruction::StoreAt { op, address, value: c },
                                        FuelKind::Store,
                                    ),
                                },
                            },
                        };
                        match emitted {
                            Err(e) => Err(e),
                            Ok(s) => Ok(s.memory_param(memory)),
                        }
                    } else {
                        match s0.alloc_const(TypedVal::spec_i64(0)) {
                            Err(e) => Err(e),
                            Ok((s1, zero)) => s1.store_split(op, imm, memory, zero, a, value),
                        }
                    },
                },
                Provider::Register(p) => if memory == 0 && offset <= 0xffff {
                    let off = offset as u16;
                    match value {
                        Provider::Register(v) => s0.push_fueled(
                            Instruction::StoreOffset16 { op, ptr: p, offset: off, value: v },
                            FuelKind::Store,
                        ),
                        Provider::Const(v) => match store_imm16(imm, v.bits) {
                            Some(i) => s0.push_fueled(
                                Instruction::StoreOffset16Imm16 { op, ptr: p, offset: off, value: i },
                                FuelKind::Store,
                            ),
                            None => match s0.alloc_const(v) {
                                Err(e) => Err(e),
                                Ok((s1, c)) => s1.push_fueled(
                                    Instruction::StoreOffset16 { op, ptr: p, offset: off, value: c },
                                    FuelKind::Store,
                                ),
                            },
                        },
                    }
                } else {
                    s0.store_split(op, imm, memory, p, offset, value)
                },
            }
        }
    }
}

/// The smaller of two index types: `i32` unless both are `i64`.
pub open spec fn min_index_type(a: IndexType, b: IndexType) -> IndexType {
    if a == IndexType::I64 && b == IndexType::I64 {
        IndexType::I64
    } else {
        IndexType::I32
    }
}

impl TState {
    /// Translates `memory.size`: a `MemorySize` into a new register.
    pub open spec fn memory_size(self, memory: u32) -> Result<TState, Failure> {
        if !self.reachable {
            Ok(self)
        } else {
            match self.push_dynamic() {
                Err(e) => Err(e),
                Ok(s1) => s1.push_fueled(
                    Instruction::MemorySize { result: Reg(self.next_dyn() as i16), memory },
                    FuelKind::Instance,
                ),
            }
        }
    }

    /// Translates `memory.grow`: growing by the constant zero is
    /// `memory.size`, since both give the size before the operation.
    pub open spec fn memory_grow(self, memory: u32, ty: IndexType) -> Result<TState, Failure> {
        if !self.reachable {
            Ok(self)
        } else {
            let delta = self.stack.last();
            let s0 = self.pop();
            match s0.index_arg(delta, ty, u32::MAX as u64) {
                Err(e) => Err(e),
                Ok((s1, d)) => match s1.push_dynamic() {
                    Err(e) => Err(e),
                    Ok(s2) => {
                        let result = Reg(s1.next_dyn() as i16);
                        if d == IndexArg::Imm(0) {
                            s2.push_fueled(Instruction::MemorySize { result, memory }, FuelKind::Instance)
                        } else {
                            let instr = match d {
                                IndexArg::Imm(x) => Instruction::MemoryGrowImm { result, delta: x },
                                IndexArg::Reg(r) => Instruction::MemoryGrow { result, delta: r },
                            };
                            match s2.push_fueled(instr, FuelKind::Instance) {
                                Err(e) => Err(e),
                                Ok(s3) => Ok(s3.push_instr(Instruction::MemoryIndex { index: memory })),
                            }
                        }
                    },
                },
            }
        }
    }

    /// The three operands of a bulk operator: the destination and source
    /// (or value) providers and the length provider, popped.
    pub open spec fn pop3(self) -> (TState, Provider, Provider, Provider) {
        let n = self.stack.len();
        (self.pop().pop().pop(), self.stack[n - 3], self.stack[n - 2], self.stack[n - 1])
    }

    /// Translates `memory.init`.
    pub open spec fn memory_init(self, data: u32, memory: u32) -> Result<TState, Failure> {
        if !self.reachable {
            Ok(self)
        } else {
            let (s0, dst, src, len) = self.pop3();
            match s0.provider_reg(dst) {
                Err(e) => Err(e),
                Ok((s1, d)) => match s1.provider_reg(src) {
                    Err(e) => Err(e),
                    Ok((s2, sr)) => match s2.index_arg(len, IndexType::I32, 0xffff) {
                        Err(e) => Err(e),
                        Ok((s3, l)) => {
                            let instr = match l {
                                IndexArg::Reg(r) => Instruction::MemoryInit { dst: d, src: sr, len: r },
                                IndexArg::Imm(x) => Instruction::MemoryInitImm { dst: d, src: sr, len: x as u16 },
                            };
                            match s3.push_fueled(instr, FuelKind::Instance) {
                                Err(e) => Err(e),
                                Ok(s4) => Ok(
                                    s4.push_instr(Instruction::MemoryIndex { index: memory }).push_instr(
                                        Instruction::DataIndex { index: data },
                                    ),
                                ),
                            }
                        },
                    },
                },
            }
        }
    }

    /// Translates `memory.copy`; a constant length is read at the smaller
    /// of the two memories' index types.
    pub open spec fn memory_copy(self, dst_memory: u32, src_memory: u32, ty: IndexType) -> Result<TState, Failure> {
        if !self.reachable {
            Ok(self)
        } else {
            let (s0, dst, src, len) = self.pop3();
            match s0.provider_reg(dst) {
                Err(e) => Err(e),
                Ok((s1, d)) => match s1.provider_reg(src) {
                    Err(e) => Err(e),
                    Ok((s2, sr)) => match s2.index_arg(len, ty, 0xffff) {
                        Err(e) => Err(e),
                        Ok((s3, l)) => {
                            let instr = match l {
                                IndexArg::Reg(r) => Instruction::MemoryCopy { dst: d, src: sr, len: r },
                                IndexArg::Imm(x) => Instruction::MemoryCopyImm { dst: d, src: sr, len: x as u16 },
                            };
                            match s3.push_fueled(instr, FuelKind::Instance) {
                                Err(e) => Err(e),
                                Ok(s4) => Ok(
                                    s4.push_instr(Instruction::MemoryIndex { index: dst_memory }).push_instr(
                                        Instruction::MemoryIndex { index: src_memory },
                                    ),
                                ),
                            }
                        },
                    },
                },
            }
        }
    }

    /// Translates `memory.fill`; a constant value is its low byte.
    pub open spec fn memory_fill(self, memory: u32, ty: IndexType) -> Result<TState, Failure> {
        if !self.reachable {
            Ok(self)
        } else {
            let (s0, dst, value, len) = self.pop3();
            match s0.provider_reg(dst) {
                Err(e) => Err(e),
                Ok((s1, d)) => match s1.index_arg(len, ty, 0xffff) {
                    Err(e) => Err(e),
                    Ok((s2, l)) => {
                        let instr = match (value, l) {
                            (Provider::Register(v), IndexArg::Reg(r)) => Instruction::MemoryFill { dst: d, value: v, len: r },
                            (Provider::Register(v), IndexArg::Imm(x)) => Instruction::MemoryFillExact { dst: d, value: v, len: x as u16 },
                            (Provider::Const(c), IndexArg::Reg(r)) => Instruction::MemoryFillImm { dst: d, value: (lo32(c.bits) % 0x100) as u8, len: r },
                            (Provider::Const(c), IndexArg::Imm(x)) => Instruction::MemoryFillImmExact { dst: d, value: (lo32(c.bits) % 0x100) as u8, len: x as u16 },
                        };
                        match s2.push_fueled(instr, FuelKind::Instance) {
                            Err(e) => Err(e),
                            Ok(s3) => Ok(s3.push_instr(Instruction::MemoryIndex { index: memory })),
                        }
                    },
                },
            }
        }
    }

    /// Translates `data.drop`.
    pub open spec fn data_drop(self, data: u32) -> Result<TState, Failure> {
        if !self.reachable {
            Ok(self)
        } else {
            self.push_fueled(Instruction::DataDrop { index: data }, FuelKind::Instance)
        }
    }
}

impl FuncTranslator {
    /// Appends the memory index parameter unless the memory is the default
    /// one.
    fn memory_param(&mut self, memory: u32)
        requires
            old(self).wf(),
        ensures
            final(self).wf(),
            final(self).module == old(self).module,
            final(self)@ == old(self)@.memory_param(memory),
    {
        if memory != 0 {
            self.push_instr(Instruction::MemoryIndex { index: memory });
        }
    }

    /// An index operand of the given index type, an immediate if a constant
    /// does not exceed `limit`.
    pub fn index_arg(&mut self, p: Provider, ty: IndexType, limit: u64) -> (r: Result<IndexArg, TranslationError>)
        requires
            old(self).wf(),
        ensures
            final(self).wf(),
            final(self).module == old(self).module,
            match old(self)@.index_arg(p, ty, limit) {
                Ok((s, a)) => r == Ok::<IndexArg, TranslationError>(a) && final(self)@ == s,
                Err(f) => r == Err::<IndexArg, TranslationError>(f.error) && final(self)@ == f.state,
            },
    {
        match p {
            Provider::Register(r) => Ok(IndexArg::Reg(r)),
            Provider::Const(v) => {
                let x: u64 = match ty {
                    IndexType::I64 => v.bits,
                    IndexType::I32 => v.bits % 0x1_0000_0000,
                };
                if x <= limit {
                    Ok(IndexArg::Imm(x))
                } else {
                    let r = self.alloc_const(v)?;
                    Ok(IndexArg::Reg(r))
                }
            },
        }
    }

    /// A load with a split 64-bit offset.
    fn load_split(&mut self, op: LoadOp, memory: u32, ptr: Reg, offset: u64) -> (r: Result<(), TranslationError>)
        requires
            old(self).wf(),
        ensures
            final(self).wf(),
            final(self).module == old(self).module,
            outcome(old(self)@.load_split(op, memory, ptr, offset), final(self)@, r),
    {
        let result = self.push_dynamic()?;
        self.push_fueled_instr(Instruction::Load { op, result, offset_lo: offset as u32 }, FuelKind::Load)?;
        self.push_instr(Instruction::RegisterAndOffsetHi { reg: ptr, offset_hi: (offset >> 32u64) as u32 });
        self.memory_param(memory);
        Ok(())
    }

    /// Translates a load of `op` from `memory` at `offset`.
    pub fn translate_load(&mut self, op: LoadOp, memory: u32, offset: u64) -> (r: Result<(), TranslationError>)
        requires
            old(self).wf(),
            memory < old(self).module.memories@.len(),
            old(self)@.reachable ==> old(self)@.stack.len() > 0 && old(self)@.can_pop(1),
        ensures
            final(self).wf(),
            final(self).module == old(self).module,
            outcome(
                old(self)@.load(op, memory, offset, old(self).module.memories@[memory as int]),
                final(self)@,
                r,
            ),
    {
        if !self.reachable {
            return Ok(());
        }
        let mt = self.module.memories[memory as usize];
        proof {
            assert(valid_memory_type(mt));
        }
        match self.pop() {
            Provider::Const(p) => match exec_effective_address(&mt, p, offset) {
                None => self.translate_trap(TrapCode::MemoryOutOfBounds),
                Some(a) => {
                    if a <= 0xffff_ffff {
                        let result = self.push_dynamic()?;
                        self.push_fueled_instr(Instruction::LoadAt { op, result, address: a as u32 }, FuelKind::Load)?;
                        self.memory_param(memory);
                        Ok(())
                    } else {
                        let zero = self.alloc_const(TypedVal::from_i64_bits(0))?;
                        self.load_split(op, memory, zero, a)
                    }
                },
            },
            Provider::Register(p) => {
                if memory == 0 && offset <= 0xffff {
                    let result = self.push_dynamic()?;
                    self.push_fueled_instr(
                        Instruction::LoadOffset16 { op, result, ptr: p, offset: offset as u16 },
                        FuelKind::Load,
                    )
                } else {
                    self.load_split(op, memory, p, offset)
                }
            },
        }
    }

    /// A store with a split 64-bit offset.
    fn store_split(&mut self, op: StoreOp, imm: StoreImm, memory: u32, ptr: Reg, offset: u64, value: Provider) -> (r: Result<(), TranslationError>)
        requires
            old(self).wf(),
        ensures
            final(self).wf(),
            final(self).module == old(self).module,
            outcome(old(self)@.store_split(op, imm, memory, ptr, offset, value), final(self)@, r),
    {
        let lo = offset as u32;
        let hi = (offset >> 32u64) as u32;
        match value {
            Provider::Register(v) => {
                self.push_fueled_instr(Instruction::Store { op, ptr, offset_lo: lo }, FuelKind::Store)?;
                self.push_instr(Instruction::RegisterAndOffsetHi { reg: v, offset_hi: hi });
            },
            Provider::Const(v) => match exec_store_imm16(imm, v.bits) {
                Some(i) => {
                    self.push_fueled_instr(Instruction::StoreImm16 { op, ptr, offset_lo: lo }, FuelKind::Store)?;
                    self.push_instr(Instruction::Imm16AndOffsetHi { value: i, offset_hi: hi });
                },
                None => {
                    let c = self.alloc_const(v)?;
                    self.push_fueled_instr(Instruction::Store { op, ptr, offset_lo: lo }, FuelKind::Store)?;
                    self.push_instr(Instruction::RegisterAndOffsetHi { reg: c, offset_hi: hi });
                },
            },
        }
        self.memory_param(memory);
        Ok(())
    }

    /// Translates a store of `op` to `memory` at `offset`.
    pub fn translate_store(&mut self, op: StoreOp, imm: StoreImm, memory: u32, offset: u64) -> (r: Result<(), TranslationError>)
        requires
            old(self).wf(),
            memory < old(self).module.memories@.len(),
            old(self)@.reachable ==> old(self)@.stack.len() >= 2 && old(self)@.can_pop(2),
        ensures
            final(self).wf(),
            final(self).module == old(self).module,
            outcome(
                old(self)@.store(op, imm, memory, offset, old(self).module.memories@[memory as int]),
                final(self)@,
                r,
            ),
    {
        if !self.reachable {
            return Ok(());
        }
        let mt = self.module.memories[memory as usize];
        proof {
            assert(valid_memory_type(mt));
        }
        let ghost s = self@;
        let value = self.pop();
        let ptr = self.pop();
        proof {
            assert(s.pop().stack.last() == s.stack[s.stack.len() - 2]);
        }
        match ptr {
            Provider::Const(p) => match exec_effective_address(&mt, p, offset) {
                None => self.translate_trap(TrapCode::MemoryOutOfBounds),
                Some(a) => {
                    if a <= 0xffff_ffff {
                        let address = a as u32;
                        match value {
                            Provider::Register(v) => {
                                self.push_fueled_instr(Instruction::StoreAt { op, address, value: v }, FuelKind::Store)?;
                            },
                            Provider::Const(v) => match exec_store_imm16(imm, v.bits) {
                                Some(i) => {
                                    self.push_fueled_instr(Instruction::StoreAtImm16 { op, address, value: i }, FuelKind::Store)?;
                                },
                                None => {
                                    let c = self.alloc_const(v)?;
                                    self.push_fueled_instr(Instruction::StoreAt { op, address, value: c }, FuelKind::Store)?;
                                },
                            },
                        }
                        self.memory_param(memory);
                        Ok(())
                    } else {
                        let zero = self.alloc_const(TypedVal::from_i64_bits(0))?;
                        self.store_split(op, imm, memory, zero, a, value)
                    }
                },
            },
            Provider::Register(p) => {
                if memory == 0 && offset <= 0xffff {
                    let off = offset as u16;
                    match value {
                        Provider::Register(v) => self.push_fueled_instr(
                            Instruction::StoreOffset16 { op, ptr: p, offset: off, value: v },
                            FuelKind::Store,
                        ),
                        Provider::Const(v) => match exec_store_imm16(imm, v.bits) {
                            Some(i) => self.push_fueled_instr(
                                Instruction::StoreOffset16Imm16 { op, ptr: p, offset: off, value: i },
                                FuelKind::Store,
                            ),
                            None => {
                                let c = self.alloc_const(v)?;
                                self.push_fueled_instr(
                                    Instruction::StoreOffset16 { op, ptr: p, offset: off, value: c },
                                    FuelKind::Store,
                                )
                            },
                        },
                    }
                } else {
                    self.store_split(op, imm, memory, p, offset, value)
                }
            },
        }
    }
}

impl FuncTranslator {
    /// Translates `i32.load` from `memory` at `offset`.
    pub fn visit_i32_load(&mut self, memory: u32, offset: u64) -> (r: Result<(), TranslationError>)
        requires
            old(self).wf(),
            memory < old(self).module.memories@.len(),
            old(self)@.reachable ==> old(self)@.stack.len() > 0 && old(self)@.can_pop(1),
        ensures
            final(self).wf(),
            final(self).module == old(self).module,
            outcome(
                old(self)@.load(LoadOp::Load32, memory, offset, old(self).module.memories@[memory as int]),
                final(self)@,
                r,
            ),
    {
        self.translate_load(LoadOp::Load32, memory, offset)
    }

    /// Translates `i64.load` from `memory` at `offset`.
    pub fn visit_i64_load(&mut self, memory: u32, offset: u64) -> (r: Result<(), TranslationError>)
        requires
            old(self).wf(),
            memory < old(self).module.memories@.len(),
            old(self)@.reachable ==> old(self)@.stack.len() > 0 && old(self)@.can_pop(1),
        ensures
            final(self).wf(),
            final(self).module == old(self).module,
            outcome(
                old(self)@.load(LoadOp::Load64, memory, offset, old(self).module.memories@[memory as int]),
                final(self)@,
                r,
            ),
    {
        self.translate_load(LoadOp::Load64, memory, offset)
    }

    /// Translates `f32.load` from `memory` at `offset`.
    pub fn visit_f32_load(&mut self, memory: u32, offset: u64) -> (r: Result<(), TranslationError>)
        requires
            old(self).wf(),
            memory < old(self).module.memories@.len(),
            old(self)@.reachable ==> old(self)@.stack.len() > 0 && old(self)@.can_pop(1),
        ensures
            final(self).wf(),
            final(self).module == old(self).module,
            outcome(
                old(self)@.load(LoadOp::Load32, memory, offset, old(self).module.memories@[memory as int]),
                final(self)@,
                r,
            ),
    {
        self.translate_load(LoadOp::Load32, memory, offset)
    }

    /// Translates `f64.load` from `memory` at `offset`.
    pub fn visit_f64_load(&mut self, memory: u32, offset: u64) -> (r: Result<(), TranslationError>)
        requires
            old(self).wf(),
            memory < old(self).module.memories@.len(),
            old(self)@.reachable ==> old(self)@.stack.len() > 0 && old(self)@.can_pop(1),
        ensures
            final(self).wf(),
            final(self).module == old(self).module,
            outcome(
                old(self)@.load(LoadOp::Load64, memory, offset, old(self).module.memories@[memory as int]),
                final(self)@,
                r,
            ),
    {
        self.translate_load(LoadOp::Load64, memory, offset)
    }

    /// Translates `i32.load8_s` from `memory` at `offset`.
    pub fn visit_i32_load8_s(&mut self, memory: u32, offset: u64) -> (r: Result<(), TranslationError>)
        requires
            old(self).wf(),
            memory < old(self).module.memories@.len(),
            old(self)@.reachable ==> old(self)@.stack.len() > 0 && old(self)@.can_pop(1),
        ensures
            final(self).wf(),
            final(self).module == old(self).module,
            outcome(
                old(self)@.load(LoadOp::I32Load8S, memory, offset, old(self).module.memories@[memory as int]),
                final(self)@,
                r,
            ),
    {
        self.translate_load(LoadOp::I32Load8S, memory, offset)
    }

    /// Translates `i32.load8_u` from `memory` at `offset`.
    pub fn visit_i32_load8_u(&mut self, memory: u32, offset: u64) -> (r: Result<(), TranslationError>)
        requires
            old(self).wf(),
            memory < old(self).module.memories@.len(),
            old(self)@.reachable ==> old(self)@.stack.len() > 0 && old(self)@.can_pop(1),
        ensures
            final(self).wf(),
            final(self).module == old(self).module,
            outcome(
                old(self)@.load(LoadOp::I32Load8U, memory, offset, old(self).module.memories@[memory as int]),
                final(self)@,
                r,
            ),
    {
        self.translate_load(LoadOp::I32Load8U, memory, offset)
    }

    /// Translates `i32.load16_s` from `memory` at `offset`.
    pub fn visit_i32_load16_s(&mut self, memory: u32, offset: u64) -> (r: Result<(), TranslationError>)
        requires
            old(self).wf(),
            memory < old(self).module.memories@.len(),
            old(self)@.reachable ==> old(self)@.stack.len() > 0 && old(self)@.can_pop(1),
        ensures
            final(self).wf(),
            final(self).module == old(self).module,
            outcome(
                old(self)@.load(LoadOp::I32Load16S, memory, offset, old(self).module.memories@[memory as int]),
                final(self)@,
                r,
            ),
    {
        self.translate_load(LoadOp::I32Load16S, memory, offset)
    }

    /// Translates `i32.load16_u` from `memory` at `offset`.
    pub fn visit_i32_load16_u(&mut self, memory: u32, offset: u64) -> (r: Result<(), TranslationError>)
        requires
            old(self).wf(),
            memory < old(self).module.memories@.len(),
            old(self)@.reachable ==> old(self)@.stack.len() > 0 && old(self)@.can_pop(1),
        ensures
            final(self).wf(),
            final(self).module == old(self).module,
            outcome(
                old(self)@.load(LoadOp::I32Load16U, memory, offset, old(self).module.memories@[memory as int]),
                final(self)@,
                r,
            ),
    {
        self.translate_load(LoadOp::I32Load16U, memory, offset)
    }

    /// Translates `i64.load8_s` from `memory` at `offset`.
    pub fn visit_i64_load8_s(&mut self, memory: u32, offset: u64) -> (r: Result<(), TranslationError>)
        requires
            old(self).wf(),
            memory < old(self).module.memories@.len(),
            old(self)@.reachable ==> old(self)@.stack.len() > 0 && old(self)@.can_pop(1),
        ensures
            final(self).wf(),
            final(self).module == old(self).module,
            outcome(
                old(self)@.load(LoadOp::I64Load8S, memory, offset, old(self).module.memories@[memory as int]),
                final(self)@,
                r,
            ),
    {
        self.translate_load(LoadOp::I64Load8S, memory, offset)
    }

    /// Translates `i64.load8_u` from `memory` at `offset`.
    pub fn visit_i64_load8_u(&mut self, memory: u32, offset: u64) -> (r: Result<(), TranslationError>)
        requires
            old(self).wf(),
            memory < old(self).module.memories@.len(),
            old(self)@.reachable ==> old(self)@.stack.len() > 0 && old(self)@.can_pop(1),
        ensures
            final(self).wf(),
            final(self).module == old(self).module,
            outcome(
                old(self)@.load(LoadOp::I64Load8U, memory, offset, old(self).module.memories@[memory as int]),
                final(self)@,
                r,
            ),
    {
        self.translate_load(LoadOp::I64Load8U, memory, offset)
    }

    /// Translates `i64.load16_s` from `memory` at `offset`.
    pub fn visit_i64_load16_s(&mut self, memory: u32, offset: u64) -> (r: Result<(), TranslationError>)
        requires
            old(self).wf(),
            memory < old(self).module.memories@.len(),
            old(self)@.reachable ==> old(self)@.stack.len() > 0 && old(self)@.can_pop(1),
        ensures
            final(self).wf(),
            final(self).module == old(self).module,
            outcome(
                old(self)@.load(LoadOp::I64Load16S, memory, offset, old(self).module.memories@[memory as int]),
                final(self)@,
                r,
            ),
    {
        self.translate_load(LoadOp::I64Load16S, memory, offset)
    }

    /// Translates `i64.load16_u` from `memory` at `offset`.
    pub fn visit_i64_load16_u(&mut self, memory: u32, offset: u64) -> (r: Result<(), TranslationError>)
        requires
            old(self).wf(),
            memory < old(self).module.memories@.len(),
            old(self)@.reachable ==> old(self)@.stack.len() > 0 && old(self)@.can_pop(1),
        ensures
            final(self).wf(),
            final(self).module == old(self).module,
            outcome(
                old(self)@.load(LoadOp::I64Load16U, memory, offset, old(self).module.memories@[memory as int]),
                final(self)@,
                r,
            ),
    {
        self.translate_load(LoadOp::I64Load16U, memory, offset)
    }

    /// Translates `i64.load32_s` from `memory` at `offset`.
    pub fn visit_i64_load32_s(&mut self, memory: u32, offset: u64) -> (r: Result<(), TranslationError>)
        requires
            old(self).wf(),
            memory < old(self).module.memories@.len(),
            old(self)@.reachable ==> old(self)@.stack.len() > 0 && old(self)@.can_pop(1),
        ensures
            final(self).wf(),
            final(self).module == old(self).module,
            outcome(
                old(self)@.load(LoadOp::I64Load32S, memory, offset, old(self).module.memories@[memory as int]),
                final(self)@,
                r,
            ),
    {
        self.translate_load(LoadOp::I64Load32S, memory, offset)
    }

    /// Translates `i64.load32_u` from `memory` at `offset`.
    pub fn visit_i64_load32_u(&mut self, memory: u32, offset: u64) -> (r: Result<(), TranslationError>)
        requires
            old(self).wf(),
            memory < old(self).module.memories@.len(),
            old(self)@.reachable ==> old(self)@.stack.len() > 0 && old(self)@.can_pop(1),
        ensures
            final(self).wf(),
            final(self).module == old(self).module,
            outcome(
                old(self)@.load(LoadOp::I64Load32U, memory, offset, old(self).module.memories@[memory as int]),
                final(self)@,
                r,
            ),
    {
        self.translate_load(LoadOp::I64Load32U, memory, offset)
    }

    /// Translates `i32.store` to `memory` at `offset`.
    pub fn visit_i32_store(&mut self, memory: u32, offset: u64) -> (r: Result<(), TranslationError>)
        requires
            old(self).wf(),
            memory < old(self).module.memories@.len(),
            old(self)@.reachable ==> old(self)@.stack.len() >= 2 && old(self)@.can_pop(2),
        ensures
            final(self).wf(),
            final(self).module == old(self).module,
            outcome(
                old(self)@.store(StoreOp::Store32, StoreImm::Word, memory, offset, old(self).module.memories@[memory as int]),
                final(self)@,
                r,
            ),
    {
        self.translate_store(StoreOp::Store32, StoreImm::Word, memory, offset)
    }

    /// Translates `i64.store` to `memory` at `offset`.
    pub fn visit_i64_store(&mut self, memory: u32, offset: u64) -> (r: Result<(), TranslationError>)
        requires
            old(self).wf(),
            memory < old(self).module.memories@.len(),
            old(self)@.reachable ==> old(self)@.stack.len() >= 2 && old(self)@.can_pop(2),
        ensures
            final(self).wf(),
            final(self).module == old(self).module,
            outcome(
                old(self)@.store(StoreOp::Store64, StoreImm::Double, memory, offset, old(self).module.memories@[memory as int]),
                final(self)@,
                r,
            ),
    {
        self.translate_store(StoreOp::Store64, StoreImm::Double, memory, offset)
    }

    /// Translates `f32.store` to `memory` at `offset`.
    pub fn visit_f32_store(&mut self, memory: u32, offset: u64) -> (r: Result<(), TranslationError>)
        requires
            old(self).wf(),
            memory < old(self).module.memories@.len(),
            old(self)@.reachable ==> old(self)@.stack.len() >= 2 && old(self)@.can_pop(2),
        ensures
            final(self).wf(),
            final(self).module == old(self).module,
            outcome(
                old(self)@.store(StoreOp::Store32, StoreImm::Never, memory, offset, old(self).module.memories@[memory as int]),
                final(self)@,
                r,
            ),
    {
        self.translate_store(StoreOp::Store32, StoreImm::Never, memory, offset)
    }

    /// Translates `f64.store` to `memory` at `offset`.
    pub fn visit_f64_store(&mut self, memory: u32, offset: u64) -> (r: Result<(), TranslationError>)
        requires
            old(self).wf(),
            memory < old(self).module.memories@.len(),
            old(self)@.reachable ==> old(self)@.stack.len() >= 2 && old(self)@.can_pop(2),
        ensures
            final(self).wf(),
            final(self).module == old(self).module,
            outcome(
                old(self)@.store(StoreOp::Store64, StoreImm::Never, memory, offset, old(self).module.memories@[memory as int]),
                final(self)@,
                r,
            ),
    {
        self.translate_store(StoreOp::Store64, StoreImm::Never, memory, offset)
    }

    /// Translates `i32.store8` to `memory` at `offset`.
    pub fn visit_i32_store8(&mut self, memory: u32, offset: u64) -> (r: Result<(), TranslationError>)
        requires
            old(self).wf(),
            memory < old(self).module.memories@.len(),
            old(self)@.reachable ==> old(self)@.stack.len() >= 2 && old(self)@.can_pop(2),
        ensures
            final(self).wf(),
            final(self).module == old(self).module,
            outcome(
                old(self)@.store(StoreOp::I32Store8, StoreImm::Byte, memory, offset, old(self).module.memories@[memory as int]),
                final(self)@,
                r,
            ),
    {
        self.translate_store(StoreOp::I32Store8, StoreImm::Byte, memory, offset)
    }

    /// Translates `i32.store16` to `memory` at `offset`.
    pub fn visit_i32_store16(&mut self, memory: u32, offset: u64) -> (r: Result<(), TranslationError>)
        requires
            old(self).wf(),
            memory < old(self).module.memories@.len(),
            old(self)@.reachable ==> old(self)@.stack.len() >= 2 && old(self)@.can_pop(2),
        ensures
            final(self).wf(),
            final(self).module == old(self).module,
            outcome(
                old(self)@.store(StoreOp::I32Store16, StoreImm::Half, memory, offset, old(self).module.memories@[memory as int]),
                final(self)@,
                r,
            ),
    {
        self.translate_store(StoreOp::I32Store16, StoreImm::Half, memory, offset)
    }

    /// Translates `i64.store8` to `memory` at `offset`.
    pub fn visit_i64_store8(&mut self, memory: u32, offset: u64) -> (r: Result<(), TranslationError>)
        requires
            old(self).wf(),
            memory < old(self).module.memories@.len(),
            old(self)@.reachable ==> old(self)@.stack.len() >= 2 && old(self)@.can_pop(2),
        ensures
            final(self).wf(),
            final(self).module == old(self).module,
            outcome(
                old(self)@.store(StoreOp::I64Store8, StoreImm::Byte, memory, offset, old(self).module.memories@[memory as int]),
                final(self)@,
                r,
            ),
    {
        self.translate_store(StoreOp::I64Store8, StoreImm::Byte, memory, offset)
    }

    /// Translates `i64.store16` to `memory` at `offset`.
    pub fn visit_i64_store16(&mut self, memory: u32, offset: u64) -> (r: Result<(), TranslationError>)
        requires
            old(self).wf(),
            memory < old(self).module.memories@.len(),
            old(self)@.reachable ==> old(self)@.stack.len() >= 2 && old(self)@.can_pop(2),
        ensures
            final(self).wf(),
            final(self).module == old(self).module,
            outcome(
                old(self)@.store(StoreOp::I64Store16, StoreImm::Half, memory, offset, old(self).module.memories@[memory as int]),
                final(self)@,
                r,
            ),
    {
        self.translate_store(StoreOp::I64Store16, StoreImm::Half, memory, offset)
    }

    /// Translates `i64.store32` to `memory` at `offset`.
    pub fn visit_i64_store32(&mut self, memory: u32, offset: u64) -> (r: Result<(), TranslationError>)
        requires
            old(self).wf(),
            memory < old(self).module.memories@.len(),
            old(self)@.reachable ==> old(self)@.stack.len() >= 2 && old(self)@.can_pop(2),
        ensures
            final(self).wf(),
            final(self).module == old(self).module,
            outcome(
                old(self)@.store(StoreOp::I64Store32, StoreImm::Word, memory, offset, old(self).module.memories@[memory as int]),
                final(self)@,
                r,
            ),
    {
        self.translate_store(StoreOp::I64Store32, StoreImm::Word, memory, offset)
    }
}

impl FuncTranslator {
    /// Pops the three operands of a bulk operator.
    pub fn pop3(&mut self) -> (r: (Provider, Provider, Provider))
        requires
            old(self).wf(),
            old(self)@.stack.len() >= 3,
            old(self)@.can_pop(3),
        ensures
            final(self).wf(),
            final(self).module == old(self).module,
            (final(self)@, r.0, r.1, r.2) == old(self)@.pop3(),
    {
        let ghost s = self@;
        let c = self.pop();
        let b = self.pop();
        let a = self.pop();
        proof {
            let n = s.stack.len();
            assert(s.pop().stack.last() == s.stack[n - 2]);
            assert(s.pop().pop().stack.last() == s.stack[n - 3]);
        }
        (a, b, c)
    }

    /// Translates `memory.size`.
    pub fn visit_memory_size(&mut self, memory: u32) -> (r: Result<(), TranslationError>)
        requires
            old(self).wf(),
        ensures
            final(self).wf(),
            final(self).module == old(self).module,
            outcome(old(self)@.memory_size(memory), final(self)@, r),
    {
        if !self.reachable {
            return Ok(());
        }
        let result = self.push_dynamic()?;
        self.push_fueled_instr(Instruction::MemorySize { result, memory }, FuelKind::Instance)
    }

    /// Translates `memory.grow`.
    pub fn visit_memory_grow(&mut self, memory: u32) -> (r: Result<(), TranslationError>)
        requires
            old(self).wf(),
            memory < old(self).module.memories@.len(),
            old(self)@.reachable ==> old(self)@.stack.len() > 0 && old(self)@.can_pop(1),
        ensures
            final(self).wf(),
            final(self).module == old(self).module,
            outcome(
                old(self)@.memory_grow(memory, old(self).module.memories@[memory as int].index_type),
                final(self)@,
                r,
            ),
    {
        if !self.reachable {
            return Ok(());
        }
        let ty = self.module.memories[memory as usize].index_type;
        let delta = self.pop();
        let d = self.index_arg(delta, ty, 0xffff_ffff)?;
        let result = self.push_dynamic()?;
        if d == IndexArg::Imm(0) {
            return self.push_fueled_instr(Instruction::MemorySize { result, memory }, FuelKind::Instance);
        }
        let instr = match d {
            IndexArg::Imm(x) => Instruction::MemoryGrowImm { result, delta: x },
            IndexArg::Reg(r) => Instruction::MemoryGrow { result, delta: r },
        };
        self.push_fueled_instr(instr, FuelKind::Instance)?;
        self.push_instr(Instruction::MemoryIndex { index: memory });
        Ok(())
    }

    /// Translates `memory.init` of data segment `data` into `memory`.
    pub fn visit_memory_init(&mut self, data: u32, memory: u32) -> (r: Result<(), TranslationError>)
        requires
            old(self).wf(),
            old(self)@.reachable ==> old(self)@.stack.len() >= 3 && old(self)@.can_pop(3),
        ensures
            final(self).wf(),
            final(self).module == old(self).module,
            outcome(old(self)@.memory_init(data, memory), final(self)@, r),
    {
        if !self.reachable {
            return Ok(());
        }
        let (dst, src, len) = self.pop3();
        let d = self.provider_reg(dst)?;
        let sr = self.provider_reg(src)?;
        let l = self.index_arg(len, IndexType::I32, 0xffff)?;
        let instr = match l {
            IndexArg::Reg(r) => Instruction::MemoryInit { dst: d, src: sr, len: r },
            IndexArg::Imm(x) => Instruction::MemoryInitImm { dst: d, src: sr, len: x as u16 },
        };
        self.push_fueled_instr(instr, FuelKind::Instance)?;
        self.push_instr(Instruction::MemoryIndex { index: memory });
        self.push_instr(Instruction::DataIndex { index: data });
        Ok(())
    }

    /// Translates `memory.copy` from `src_memory` to `dst_memory`.
    pub fn visit_memory_copy(&mut self, dst_memory: u32, src_memory: u32) -> (r: Result<(), TranslationError>)
        requires
            old(self).wf(),
            dst_memory < old(self).module.memories@.len(),
            src_memory < old(self).module.memories@.len(),
            old(self)@.reachable ==> old(self)@.stack.len() >= 3 && old(self)@.can_pop(3),
        ensures
            final(self).wf(),
            final(self).module == old(self).module,
            outcome(
                old(self)@.memory_copy(
                    dst_memory,
                    src_memory,
                    min_index_type(
                        old(self).module.memories@[dst_memory as int].index_type,
                        old(self).module.memories@[src_memory as int].index_type,
                    ),
                ),
                final(self)@,
                r,
            ),
    {
        if !self.reachable {
            return Ok(());
        }
        let ty = self.module.memories[dst_memory as usize].index_type.min(
            &self.module.memories[src_memory as usize].index_type,
        );
        let (dst, src, len) = self.pop3();
        let d = self.provider_reg(dst)?;
        let sr = self.provider_reg(src)?;
        let l = self.index_arg(len, ty, 0xffff)?;
        let instr = match l {
            IndexArg::Reg(r) => Instruction::MemoryCopy { dst: d, src: sr, len: r },
            IndexArg::Imm(x) => Instruction::MemoryCopyImm { dst: d, src: sr, len: x as u16 },
        };
        self.push_fueled_instr(instr, FuelKind::Instance)?;
        self.push_instr(Instruction::MemoryIndex { index: dst_memory });
        self.push_instr(Instruction::MemoryIndex { index: src_memory });
        Ok(())
    }

    /// Translates `memory.fill`.
    pub fn visit_memory_fill(&mut self, memory: u32) -> (r: Result<(), TranslationError>)
        requires
            old(self).wf(),
            memory < old(self).module.memories@.len(),
            old(self)@.reachable ==> old(self)@.stack.len() >= 3 && old(self)@.can_pop(3),
        ensures
            final(self).wf(),
            final(self).module == old(self).module,
            outcome(
                old(self)@.memory_fill(memory, old(self).module.memories@[memory as int].index_type),
                final(self)@,
                r,
            ),
    {
        if !self.reachable {
            return Ok(());
        }
        let ty = self.module.memories[memory as usize].index_type;
        let (dst, value, len) = self.pop3();
        let d = self.provider_reg(dst)?;
        let l = self.index_arg(len, ty, 0xffff)?;
        let instr = match (value, l) {
            (Provider::Register(v), IndexArg::Reg(r)) => Instruction::MemoryFill { dst: d, value: v, len: r },
            (Provider::Register(v), IndexArg::Imm(x)) => Instruction::MemoryFillExact { dst: d, value: v, len: x as u16 },
            (Provider::Const(c), IndexArg::Reg(r)) => Instruction::MemoryFillImm {
                dst: d,
                value: ((c.bits % 0x1_0000_0000) % 0x100) as u8,
                len: r,
            },
            (Provider::Const(c), IndexArg::Imm(x)) => Instruction::MemoryFillImmExact {
                dst: d,
                value: ((c.bits % 0x1_0000_0000) % 0x100) as u8,
                len: x as u16,
            },
        };
        self.push_fueled_instr(instr, FuelKind::Instance)?;
        self.push_instr(Instruction::MemoryIndex { index: memory });
        Ok(())
    }

    /// Translates `data.drop`.
    pub fn visit_data_drop(&mut self, data: u32) -> (r: Result<(), TranslationError>)
        requires
            old(self).wf(),
        ensures
            final(self).wf(),
            final(self).module == old(self).module,
            outcome(old(self)@.data_drop(data), final(self)@, r),
    {
        if !self.reachable {
            return Ok(());
        }
        self.push_fueled_instr(Instruction::DataDrop { index: data }, FuelKind::Instance)
    }
}

} // verus!
