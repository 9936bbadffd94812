//! The translation of calls and tail calls.
use vstd::prelude::*;
use crate::ir::{Callee, Instruction};
use crate::memory::IndexType;
use crate::memory_ops::IndexArg;
use crate::module::FuncInfo;
use crate::translator::{FuncTranslator, TState, TranslationError, Failure, FuelKind, outcome};
use crate::value::Reg;

verus! {

/// How a function of the module is called: directly if it is compiled by
/// the engine, as an import otherwise.
pub open spec fn callee_of(func: u32, info: FuncInfo) -> Callee {
    match info.engine_func {
        Some(ef) => Callee::Internal(ef),
        None => Callee::Imported(func),
    }
}

/// The parameter instruction of an indirect call: the table and the index
/// into it, a register or a 16-bit immediate.
pub open spec fn indirect_params(index: IndexArg, table: u32) -> Instruction {
    match index {
        IndexArg::Reg(r) => Instruction::CallIndirectParams { index: r, table },
        IndexArg::Imm(x) => Instruction::CallIndirectParamsImm16 { index: x as u16, table },
    }
}

impl TState {
    /// A call of `callee` with `len_params` parameters and `len_results`
    /// results: the parameters are popped, the results are placed in new
    /// registers, and the call is followed by the parameters' register list
    /// (after `extra`, the parameter instruction of an indirect call).
    pub open spec fn call(self, callee: Callee, len_params: nat, len_results: nat, extra: Option<Instruction>) -> Result<TState, Failure> {
        let params = self.top_values(len_params);
        let s0 = self.trunc((self.stack.len() - len_params) as nat);
        match s0.push_dynamic_n(len_results) {
            Err(e) => Err(e),
            Ok(s1) => match s1.push_fueled(
                Instruction::Call { results: Reg(s0.next_dyn() as i16), callee, has_params: len_params > 0 },
                FuelKind::Call,
            ) {
                Err(e) => Err(e),
                Ok(s2) => {
                    let s3 = match extra {
                        Some(i) => s2.push_instr(i),
                        None => s2,
                    };
                    s3.register_list(params)
                },
            },
        }
    }

    /// A tail call: like a call, but nothing is pushed and the code that
    /// follows is unreachable.
    pub open spec fn return_call(self, callee: Callee, len_params: nat, extra: Option<Instruction>) -> Result<TState, Failure> {
        let params = self.top_values(len_params);
        let s0 = self.trunc((self.stack.len() - len_params) as nat);
        match s0.push_fueled(Instruction::ReturnCall { callee, has_params: len_params > 0 }, FuelKind::Call) {
            Err(e) => Err(e),
            Ok(s1) => {
                let s2 = match extra {
                    Some(i) => s1.push_instr(i),
                    None => s1,
                };
                match s2.register_list(params) {
                    Err(e) => Err(e),
                    Ok(s3) => Ok(s3.set_reachable(false)),
                }
            },
        }
    }

    /// Translates `call` of function `func`.
    pub open spec fn call_(self, func: u32, info: FuncInfo, len_params: nat, len_results: nat) -> Result<TState, Failure> {
        if !self.reachable {
            Ok(self)
        } else {
            self.call(callee_of(func, info), len_params, len_results, None)
        }
    }

    /// Translates `call_indirect` through `table` with signature
    /// `type_index`: the index into the table is popped first.
    pub open spec fn call_indirect(self, type_index: u32, table: u32, ty: IndexType, len_params: nat, len_results: nat) -> Result<TState, Failure> {
        if !self.reachable {
            Ok(self)
        } else {
            let index = self.stack.last();
            match self.pop().index_arg(index, ty, 0xffff) {
                Err(e) => Err(e),
                Ok((s1, i)) => s1.call(
                    Callee::Indirect(type_index),
                    len_params,
                    len_results,
                    Some(indirect_params(i, table)),
                ),
            }
        }
    }

    /// Translates `return_call` of function `func`.
    pub open spec fn return_call_(self, func: u32, info: FuncInfo, len_params: nat) -> Result<TState, Failure> {
        if !self.reachable {
            Ok(self)
        } else {
            self.return_call(callee_of(func, info), len_params, None)
        }
    }

    /// Translates `return_call_indirect`.
    pub open spec fn return_call_indirect(self, type_index: u32, table: u32, ty: IndexType, len_params: nat) -> Result<TState, Failure> {
        if !self.reachable {
            Ok(self)
        } else {
            let index = self.stack.last();
            match self.pop().index_arg(index, ty, 0xffff) {
                Err(e) => Err(e),
                Ok((s1, i)) => s1.return_call(
                    Callee::Indirect(type_index),
                    len_params,
                    Some(indirect_params(i, table)),
                ),
            }
        }
    }
}

impl FuncTranslator {
    /// A call with `len_params` parameters and `len_results` results.
    fn call(&mut self, callee: Callee, len_params: usize, len_results: usize, extra: Option<Instruction>) -> (r: Result<(), TranslationError>)
        requires
            old(self).wf(),
            len_params <= old(self)@.stack.len(),
            old(self)@.can_pop(len_params as nat),
        ensures
            final(self).wf(),
            final(self).module == old(self).module,
            outcome(old(self)@.call(callee, len_params as nat, len_results as nat, extra), final(self)@, r),
    {
        let params = self.pop_n(len_params);
        let results = self.push_dynamic_n(len_results)?;
        self.push_fueled_instr(Instruction::Call { results, callee, has_params: len_params > 0 }, FuelKind::Call)?;
        match extra {
            Some(i) => self.push_instr(i),
            None => {},
        }
        self.register_list(&params)
    }

    /// A tail call with `len_params` parameters.
    fn return_call(&mut self, callee: Callee, len_params: usize, extra: Option<Instruction>) -> (r: Result<(), TranslationError>)
        requires
            old(self).wf(),
            len_params <= old(self)@.stack.len(),
            old(self)@.can_pop(len_params as nat),
        ensures
            final(self).wf(),
            final(self).module == old(self).module,
            outcome(old(self)@.return_call(callee, len_params as nat, extra), final(self)@, r),
    {
        let params = self.pop_n(len_params);
        self.push_fueled_instr(Instruction::ReturnCall { callee, has_params: len_params > 0 }, FuelKind::Call)?;
        match extra {
            Some(i) => self.push_instr(i),
            None => {},
        }
        self.register_list(&params)?;
        self.reachable = false;
        Ok(())
    }

    /// The parameter instruction of an indirect call.
    fn indirect_params(index: IndexArg, table: u32) -> (r: Instruction)
        ensures
            r == indirect_params(index, table),
    {
        match index {
            IndexArg::Reg(r) => Instruction::CallIndirectParams { index: r, table },
            IndexArg::Imm(x) => Instruction::CallIndirectParamsImm16 { index: x as u16, table },
        }
    }

    /// Translates `call` of function `func`.
    pub fn visit_call(&mut self, func: u32) -> (r: Result<(), TranslationError>)
        requires
            old(self).wf(),
            func < old(self).module.funcs@.len(),
            old(self)@.reachable ==> old(self).module.func_len_params(func) <= old(self)@.stack.len()
                && old(self)@.can_pop(old(self).module.func_len_params(func)),
        ensures
            final(self).wf(),
            final(self).module == old(self).module,
            outcome(
                old(self)@.call_(
                    func,
                    old(self).module.funcs@[func as int],
                    old(self).module.func_len_params(func),
                    old(self).module.func_len_results(func),
                ),
                final(self)@,
                r,
            ),
    {
        if !self.reachable {
            return Ok(());
        }
        let info = self.module.funcs[func as usize];
        let t = info.type_index as usize;
        let len_params = self.module.types[t].params.len();
        let len_results = self.module.types[t].results.len();
        let callee = match info.engine_func {
            Some(ef) => Callee::Internal(ef),
            None => Callee::Imported(func),
        };
        self.call(callee, len_params, len_results, None)
    }

    /// Translates `call_indirect` with signature `type_index` through
    /// `table`.
    pub fn visit_call_indirect(&mut self, type_index: u32, table: u32) -> (r: Result<(), TranslationError>)
        requires
            old(self).wf(),
            type_index < old(self).module.types@.len(),
            table < old(self).module.tables@.len(),
            old(self)@.reachable ==> 1 + old(self).module.types@[type_index as int].params@.len()
                <= old(self)@.stack.len() && old(self)@.can_pop(
                1 + old(self).module.types@[type_index as int].params@.len(),
            ),
        ensures
            final(self).wf(),
            final(self).module == old(self).module,
            outcome(
                old(self)@.call_indirect(
                    type_index,
                    table,
                    old(self).module.tables@[table as int].index_type,
                    old(self).module.types@[type_index as int].params@.len(),
                    old(self).module.types@[type_index as int].results@.len(),
                ),
                final(self)@,
                r,
            ),
    {
        if !self.reachable {
            return Ok(());
        }
        let ty = self.module.tables[table as usize].index_type;
        let len_params = self.module.types[type_index as usize].params.len();
        let len_results = self.module.types[type_index as usize].results.len();
        let index = self.pop();
        let i = self.index_arg(index, ty, 0xffff)?;
        let extra = Self::indirect_params(i, table);
        self.call(Callee::Indirect(type_index), len_params, len_results, Some(extra))
    }

    /// Translates `return_call` of function `func`.
    pub fn visit_return_call(&mut self, func: u32) -> (r: Result<(), TranslationError>)
        requires
            old(self).wf(),
            func < old(self).module.funcs@.len(),
            old(self)@.reachable ==> old(self).module.func_len_params(func) <= old(self)@.stack.len()
                && old(self)@.can_pop(old(self).module.func_len_params(func)),
        ensures
            final(self).wf(),
            final(self).module == old(self).module,
            outcome(
                old(self)@.return_call_(
                    func,
                    old(self).module.funcs@[func as int],
                    old(self).module.func_len_params(func),
                ),
                final(self)@,
                r,
            ),
    {
        if !self.reachable {
            return Ok(());
        }
        let info = self.module.funcs[func as usize];
        let t = info.type_index as usize;
        let len_params = self.module.types[t].params.len();
        let callee = match info.engine_func {
            Some(ef) => Callee::Internal(ef),
            None => Callee::Imported(func),
        };
        self.return_call(callee, len_params, None)
    }

    /// Translates `return_call_indirect` with signature `type_index`
    /// through `table`.
    pub fn visit_return_call_indirect(&mut self, type_index: u32, table: u32) -> (r: Result<(), TranslationError>)
        requires
            old(self).wf(),
            type_index < old(self).module.types@.len(),
            table < old(self).module.tables@.len(),
            old(self)@.reachable ==> 1 + old(self).module.types@[type_index as int].params@.len()
                <= old(self)@.stack.len() && old(self)@.can_pop(
                1 + old(self).module.types@[type_index as int].params@.len(),
            ),
        ensures
            final(self).wf(),
            final(self).module == old(self).module,
            outcome(
                old(self)@.return_call_indirect(
                    type_index,
                    table,
                    old(self).module.tables@[table as int].index_type,
                    old(self).module.types@[type_index as int].params@.len(),
                ),
                final(self)@,
                r,
            ),
    {
        if !self.reachable {
            return Ok(());
        }
        let ty = self.module.tables[table as usize].index_type;
        let len_params = self.module.types[type_index as usize].params.len();
        let index = self.pop();
        let i = self.index_arg(index, ty, 0xffff)?;
        let extra = Self::indirect_params(i, table);
        self.return_call(Callee::Indirect(type_index), len_params, Some(extra))
    }
}

} // verus!
