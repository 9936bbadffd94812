//! The translation of table operators.
use vstd::prelude::*;
use crate::ir::Instruction;
use crate::memory::IndexType;
use crate::memory_ops::{IndexArg, min_index_type};
use crate::translator::{FuncTranslator, TState, TranslationError, Failure, FuelKind, outcome};
use crate::value::Reg;

verus! {

impl TState {
    /// Translates `table.init` of element segment `elem` into `table`.
    pub open spec fn table_init(self, elem: u32, table: u32) -> Result<TState, Failure> {
        if !self.reachable {
            Ok(self)
        } else {
            let (s0, dst, src, len) = self.pop3();
            match s0.provider_reg(dst) {
                Err(e) => Err(e),
                Ok((s1, d)) => match s1.provider_reg(src) {
                    Err(e) => Err(e),
                    Ok((s2, sr)) => match s2.index_arg(len, IndexType::I32, 0xffff) {
                        Err(e) => Err(e),
                        Ok((s3, l)) => {
                            let instr = match l {
                                IndexArg::Reg(r) => Instruction::TableInit { dst: d, src: sr, len: r },
                                IndexArg::Imm(x) => Instruction::TableInitImm { dst: d, src: sr, len: x as u16 },
                            };
                            match s3.push_fueled(instr, FuelKind::Instance) {
                                Err(e) => Err(e),
                                Ok(s4) => Ok(
                                    s4.push_instr(Instruction::TableIndex { index: table }).push_instr(
                                        Instruction::ElemIndex { index: elem },
                                    ),
                                ),
                            }
                        },
                    },
                },
            }
        }
    }

    /// Translates `elem.drop`.
    pub open spec fn elem_drop(self, elem: u32) -> Result<TState, Failure> {
        if !self.reachable {
            Ok(self)
        } else {
            self.push_fueled(Instruction::ElemDrop { index: elem }, FuelKind::Instance)
        }
    }

    /// Translates `table.copy`; a constant length is read at the smaller of
    /// the two tables' index types.
    pub open spec fn table_copy(self, dst_table: u32, src_table: u32, ty: IndexType) -> Result<TState, Failure> {
        if !self.reachable {
            Ok(self)
        } else {
            let (s0, dst, src, len) = self.pop3();
            match s0.provider_reg(dst) {
                Err(e) => Err(e),
                Ok((s1, d)) => match s1.provider_reg(src) {
                    Err(e) => Err(e),
                    Ok((s2, sr)) => match s2.index_arg(len, ty, 0xffff) {
                        Err(e) => Err(e),
                        Ok((s3, l)) => {
                            let instr = match l {
                                IndexArg::Reg(r) => Instruction::TableCopy { dst: d, src: sr, len: r },
                                IndexArg::Imm(x) => Instruction::TableCopyImm { dst: d, src: sr, len: x as u16 },
                            };
                            match s3.push_fueled(instr, FuelKind::Instance) {
                                Err(e) => Err(e),
                                Ok(s4) => Ok(
                                    s4.push_instr(Instruction::TableIndex { index: dst_table }).push_instr(
                                        Instruction::TableIndex { index: src_table },
                                    ),
                                ),
                            }
                        },
                    },
                },
            }
        }
    }

    /// Translates `table.fill`.
    pub open spec fn table_fill(self, table: u32, ty: IndexType) -> Result<TState, Failure> {
        if !self.reachable {
            Ok(self)
        } else {
            let (s0, dst, value, len) = self.pop3();
            match s0.provider_reg(dst) {
                Err(e) => Err(e),
                Ok((s1, d)) => match s1.index_arg(len, ty, 0xffff) {
                    Err(e) => Err(e),
                    Ok((s2, l)) => match s2.provider_reg(value) {
                        Err(e) => Err(e),
                        Ok((s3, v)) => {
                            let instr = match l {
                                IndexArg::Reg(r) => Instruction::TableFill { dst: d, len: r, value: v },
                                IndexArg::Imm(x) => Instruction::TableFillImm { dst: d, len: x as u16, value: v },
                            };
                            match s3.push_fueled(instr, FuelKind::Instance) {
                                Err(e) => Err(e),
                                Ok(s4) => Ok(s4.push_instr(Instruction::TableIndex { index: table })),
                            }
                        },
                    },
                },
            }
        }
    }

    /// Translates `table.get`: a constant index that fits 32 bits is an
    /// immediate.
    pub open spec fn table_get(self, table: u32, ty: IndexType) -> Result<TState, Failure> {
        if !self.reachable {
            Ok(self)
        } else {
            let index = self.stack.last();
            let s0 = self.pop();
            match s0.push_dynamic() {
                Err(e) => Err(e),
                Ok(s1) => match s1.index_arg(index, ty, u32::MAX as u64) {
                    Err(e) => Err(e),
                    Ok((s2, i)) => {
                        let result = Reg(s0.next_dyn() as i16);
                        let instr = match i {
                            IndexArg::Reg(r) => Instruction::TableGet { result, index: r },
                            IndexArg::Imm(x) => Instruction::TableGetImm { result, index: x },
                        };
                        match s2.push_fueled(instr, FuelKind::Instance) {
                            Err(e) => Err(e),
                            Ok(s3) => Ok(s3.push_instr(Instruction::TableIndex { index: table })),
                        }
                    },
                },
            }
        }
    }

    /// Translates `table.set`.
    pub open spec fn table_set(self, table: u32, ty: IndexType) -> Result<TState, Failure> {
        if !self.reachable {
            Ok(self)
        } else {
            let n = self.stack.len();
            let index = self.stack[n - 2];
            let value = self.stack[n - 1];
            let s0 = self.pop().pop();
            match s0.index_arg(index, ty, u32::MAX as u64) {
                Err(e) => Err(e),
                Ok((s1, i)) => match s1.provider_reg(value) {
                    Err(e) => Err(e),
                    Ok((s2, v)) => {
                        let instr = match i {
                            IndexArg::Reg(r) => Instruction::TableSet { index: r, value: v },
                            IndexArg::Imm(x) => Instruction::TableSetAt { value: v, index: x },
                        };
                        match s2.push_fueled(instr, FuelKind::Instance) {
                            Err(e) => Err(e),
                            Ok(s3) => Ok(s3.push_instr(Instruction::TableIndex { index: table })),
                        }
                    },
                },
            }
        }
    }

    /// Translates `table.grow`: growing by the constant zero is
    /// `table.size`, since both give the size before the operation.
    pub open spec fn table_grow(self, table: u32, ty: IndexType) -> Result<TState, Failure> {
        if !self.reachable {
            Ok(self)
        } else {
            let n = self.stack.len();
            let value = self.stack[n - 2];
            let delta = self.stack[n - 1];
            let s0 = self.pop().pop();
            match s0.index_arg(delta, ty, 0xffff) {
                Err(e) => Err(e),
                Ok((s1, d)) => if d == IndexArg::Imm(0) {
                    match s1.push_dynamic() {
                        Err(e) => Err(e),
                        Ok(s2) => s2.push_fueled(
                            Instruction::TableSize { result: Reg(s1.next_dyn() as i16), table },
                            FuelKind::Instance,
                        ),
                    }
                } else {
                    match s1.provider_reg(value) {
                        Err(e) => Err(e),
                        Ok((s2, v)) => match s2.push_dynamic() {
                            Err(e) => Err(e),
                            Ok(s3) => {
                                let result = Reg(s2.next_dyn() as i16);
                                let instr = match d {
                                    IndexArg::Reg(r) => Instruction::TableGrow { result, delta: r, value: v },
                                    IndexArg::Imm(x) => Instruction::TableGrowImm { result, delta: x as u16, value: v },
                                };
                                match s3.push_fueled(instr, FuelKind::Instance) {
                                    Err(e) => Err(e),
                                    Ok(s4) => Ok(s4.push_instr(Instruction::TableIndex { index: table })),
                                }
                            },
                        },
                    }
                },
            }
        }
    }

    /// Translates `table.size`.
    pub open spec fn table_size(self, table: u32) -> Result<TState, Failure> {
        if !self.reachable {
            Ok(self)
        } else {
            match self.push_dynamic() {
                Err(e) => Err(e),
                Ok(s1) => s1.push_fueled(
                    Instruction::TableSize { result: Reg(self.next_dyn() as i16), table },
                    FuelKind::Instance,
                ),
            }
        }
    }
}

impl FuncTranslator {
    /// Translates `table.init` of element segment `elem` into `table`.
    pub fn visit_table_init(&mut self, elem: u32, table: u32) -> (r: Result<(), TranslationError>)
        requires
            old(self).wf(),
            old(self)@.reachable ==> old(self)@.stack.len() >= 3 && old(self)@.can_pop(3),
        ensures
            final(self).wf(),
            final(self).module == old(self).module,
            outcome(old(self)@.table_init(elem, table), final(self)@, r),
    {
        if !self.reachable {
            return Ok(());
        }
        let (dst, src, len) = self.pop3();
        let d = self.provider_reg(dst)?;
        let sr = self.provider_reg(src)?;
        let l = self.index_arg(len, IndexType::I32, 0xffff)?;
        let instr = match l {
            IndexArg::Reg(r) => Instruction::TableInit { dst: d, src: sr, len: r },
            IndexArg::Imm(x) => Instruction::TableInitImm { dst: d, src: sr, len: x as u16 },
        };
        self.push_fueled_instr(instr, FuelKind::Instance)?;
        self.push_instr(Instruction::TableIndex { index: table });
        self.push_instr(Instruction::ElemIndex { index: elem });
        Ok(())
    }

    /// Translates `elem.drop`.
    pub fn visit_elem_drop(&mut self, elem: u32) -> (r: Result<(), TranslationError>)
        requires
            old(self).wf(),
        ensures
            final(self).wf(),
            final(self).module == old(self).module,
            outcome(old(self)@.elem_drop(elem), final(self)@, r),
    {
        if !self.reachable {
            return Ok(());
        }
        self.push_fueled_instr(Instruction::ElemDrop { index: elem }, FuelKind::Instance)
    }

    /// Translates `table.copy` from `src_table` to `dst_table`.
    pub fn visit_table_copy(&mut self, dst_table: u32, src_table: u32) -> (r: Result<(), TranslationError>)
        requires
            old(self).wf(),
            dst_table < old(self).module.tables@.len(),
            src_table < old(self).module.tables@.len(),
            old(self)@.reachable ==> old(self)@.stack.len() >= 3 && old(self)@.can_pop(3),
        ensures
            final(self).wf(),
            final(self).module == old(self).module,
            outcome(
                old(self)@.table_copy(
                    dst_table,
                    src_table,
                    min_index_type(
                        old(self).module.tables@[dst_table as int].index_type,
                        old(self).module.tables@[src_table as int].index_type,
                    ),
                ),
                final(self)@,
                r,
            ),
    {
        if !self.reachable {
            return Ok(());
        }
        let ty = self.module.tables[dst_table as usize].index_type.min(
            &self.module.tables[src_table as usize].index_type,
        );
        let (dst, src, len) = self.pop3();
        let d = self.provider_reg(dst)?;
        let sr = self.provider_reg(src)?;
        let l = self.index_arg(len, ty, 0xffff)?;
        let instr = match l {
            IndexArg::Reg(r) => Instruction::TableCopy { dst: d, src: sr, len: r },
            IndexArg::Imm(x) => Instruction::TableCopyImm { dst: d, src: sr, len: x as u16 },
        };
        self.push_fueled_instr(instr, FuelKind::Instance)?;
        self.push_instr(Instruction::TableIndex { index: dst_table });
        self.push_instr(Instruction::TableIndex { index: src_table });
        Ok(())
    }

    /// Translates `table.fill`.
    pub fn visit_table_fill(&mut self, table: u32) -> (r: Result<(), TranslationError>)
        requires
            old(self).wf(),
            table < old(self).module.tables@.len(),
            old(self)@.reachable ==> old(self)@.stack.len() >= 3 && old(self)@.can_pop(3),
        ensures
            final(self).wf(),
            final(self).module == old(self).module,
            outcome(
                old(self)@.table_fill(table, old(self).module.tables@[table as int].index_type),
                final(self)@,
                r,
            ),
    {
        if !self.reachable {
            return Ok(());
        }
        let ty = self.module.tables[table as usize].index_type;
        let (dst, value, len) = self.pop3();
        let d = self.provider_reg(dst)?;
        let l = self.index_arg(len, ty, 0xffff)?;
        let v = self.provider_reg(value)?;
        let instr = match l {
            IndexArg::Reg(r) => Instruction::TableFill { dst: d, len: r, value: v },
            IndexArg::Imm(x) => Instruction::TableFillImm { dst: d, len: x as u16, value: v },
        };
        self.push_fueled_instr(instr, FuelKind::Instance)?;
        self.push_instr(Instruction::TableIndex { index: table });
        Ok(())
    }

    /// Translates `table.get`.
    pub fn visit_table_get(&mut self, table: u32) -> (r: Result<(), TranslationError>)
        requires
            old(self).wf(),
            table < old(self).module.tables@.len(),
            old(self)@.reachable ==> old(self)@.stack.len() > 0 && old(self)@.can_pop(1),
        ensures
            final(self).wf(),
            final(self).module == old(self).module,
            outcome(
                old(self)@.table_get(table, old(self).module.tables@[table as int].index_type),
                final(self)@,
                r,
            ),
    {
        if !self.reachable {
            return Ok(());
        }
        let ty = self.module.tables[table as usize].index_type;
        let index = self.pop();
        let result = self.push_dynamic()?;
        let i = self.index_arg(index, ty, 0xffff_ffff)?;
        let instr = match i {
            IndexArg::Reg(r) => Instruction::TableGet { result, index: r },
            IndexArg::Imm(x) => Instruction::TableGetImm { result, index: x },
        };
        self.push_fueled_instr(instr, FuelKind::Instance)?;
        self.push_instr(Instruction::TableIndex { index: table });
        Ok(())
    }

    /// Translates `table.set`.
    pub fn visit_table_set(&mut self, table: u32) -> (r: Result<(), TranslationError>)
        requires
            old(self).wf(),
            table < old(self).module.tables@.len(),
            old(self)@.reachable ==> old(self)@.stack.len() >= 2 && old(self)@.can_pop(2),
        ensures
            final(self).wf(),
            final(self).module == old(self).module,
            outcome(
                old(self)@.table_set(table, old(self).module.tables@[table as int].index_type),
                final(self)@,
                r,
            ),
    {
        if !self.reachable {
            return Ok(());
        }
        let ty = self.module.tables[table as usize].index_type;
        let ghost s = self@;
        let value = self.pop();
        let index = self.pop();
        proof {
            assert(s.pop().stack.last() == s.stack[s.stack.len() - 2]);
        }
        let i = self.index_arg(index, ty, 0xffff_ffff)?;
        let v = self.provider_reg(value)?;
        let instr = match i {
            IndexArg::Reg(r) => Instruction::TableSet { index: r, value: v },
            IndexArg::Imm(x) => Instruction::TableSetAt { value: v, index: x },
        };
        self.push_fueled_instr(instr, FuelKind::Instance)?;
        self.push_instr(Instruction::TableIndex { index: table });
        Ok(())
    }

    /// Translates `table.grow`.
    pub fn visit_table_grow(&mut self, table: u32) -> (r: Result<(), TranslationError>)
        requires
            old(self).wf(),
            table < old(self).module.tables@.len(),
            old(self)@.reachable ==> old(self)@.stack.len() >= 2 && old(self)@.can_pop(2),
        ensures
            final(self).wf(),
            final(self).module == old(self).module,
            outcome(
                old(self)@.table_grow(table, old(self).module.tables@[table as int].index_type),
                final(self)@,
                r,
            ),
    {
        if !self.reachable {
            return Ok(());
        }
        let ty = self.module.tables[table as usize].index_type;
        let ghost s = self@;
        let delta = self.pop();
        let value = self.pop();
        proof {
            assert(s.pop().stack.last() == s.stack[s.stack.len() - 2]);
        }
        let d = self.index_arg(delta, ty, 0xffff)?;
        if d == IndexArg::Imm(0) {
            let result = self.push_dynamic()?;
            return self.push_fueled_instr(Instruction::TableSize { result, table }, FuelKind::Instance);
        }
        let v = self.provider_reg(value)?;
        let result = self.push_dynamic()?;
        let instr = match d {
            IndexArg::Reg(r) => Instruction::TableGrow { result, delta: r, value: v },
            IndexArg::Imm(x) => Instruction::TableGrowImm { result, delta: x as u16, value: v },
        };
        self.push_fueled_instr(instr, FuelKind::Instance)?;
        self.push_instr(Instruction::TableIndex { index: table });
        Ok(())
    }

    /// Translates `table.size`.
    pub fn visit_table_size(&mut self, table: u32) -> (r: Result<(), TranslationError>)
        requires
            old(self).wf(),
        ensures
            final(self).wf(),
            final(self).module == old(self).module,
            outcome(old(self)@.table_size(table), final(self)@, r),
    {
        if !self.reachable {
            return Ok(());
        }
        let result = self.push_dynamic()?;
        self.push_fueled_instr(Instruction::TableSize { result, table }, FuelKind::Instance)
    }
}

} // verus!
