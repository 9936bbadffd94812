//! The translation of operators on locals, globals, the value stack and
//! references, and of `unreachable` and `nop`.
use vstd::prelude::*;
use crate::ir::Instruction;
use crate::module::GlobalInit;
use crate::ops::{TrapCode, lo32};
use crate::regs::{is_dyn, reg_index, reg_ok, regs_nonneg};
use crate::translator::{FuncTranslator, TState, TranslationError, Failure, FuelKind, outcome};
use crate::value::{Provider, Reg, TypedVal, ValType, pow32, s32, s64};

verus! {

/// The 16-bit signed immediate of an `i32` or `i64` constant, if its value
/// fits.
pub open spec fn signed_imm16(ty: ValType, bits: u64) -> Option<i64> {
    match ty {
        ValType::I32 => if -0x8000 <= s32(lo32(bits)) <= 0x7fff {
            Some(s32(lo32(bits)) as i64)
        } else {
            None
        },
        ValType::I64 => if -0x8000 <= s64(bits) <= 0x7fff {
            Some(s64(bits) as i64)
        } else {
            None
        },
        _ => None,
    }
}

/// Computes [`signed_imm16`].
pub fn exec_signed_imm16(ty: ValType, bits: u64) -> (r: Option<i64>)
    ensures
        r == signed_imm16(ty, bits),
{
    match ty {
        ValType::I32 => {
            let v = crate::value::i32_from_bits((bits % 0x1_0000_0000) as u32);
            if -0x8000 <= v && v <= 0x7fff {
                Some(v as i64)
            } else {
                None
            }
        },
        ValType::I64 => {
            let v = crate::value::i64_from_bits(bits);
            if -0x8000 <= v && v <= 0x7fff {
                Some(v)
            } else {
                None
            }
        },
        _ => None,
    }
}

/// The null reference of a reference type.
pub open spec fn null_ref(ty: ValType) -> TypedVal {
    TypedVal { ty, bits: 0 }
}

/// A reference type.
pub open spec fn is_ref_type(ty: ValType) -> bool {
    ty == ValType::FuncRef || ty == ValType::ExternRef
}

impl TState {
    /// The register of a provider: a constant gets a function-local
    /// constant register.
    pub open spec fn provider_reg(self, p: Provider) -> Result<(TState, Reg), Failure> {
        match p {
            Provider::Register(r) => Ok((self, r)),
            Provider::Const(v) => self.alloc_const(v),
        }
    }

    /// Translates `unreachable`: a trap.
    pub open spec fn unreachable_(self) -> Result<TState, Failure> {
        self.trap(TrapCode::UnreachableCodeReached)
    }

    /// Translates `drop`.
    pub open spec fn drop_(self) -> TState {
        if !self.reachable {
            self
        } else {
            self.pop()
        }
    }

    /// Translates `local.get`: the local's register is pushed.
    pub open spec fn local_get(self, local: u32) -> TState {
        if !self.reachable {
            self
        } else {
            self.push(Provider::Register(Reg(local as i16)))
        }
    }

    /// Translates `local.set`. Unused preservation registers are freed
    /// first; setting a local to itself does nothing; otherwise the value
    /// stack's references to the local are preserved before the local is
    /// overwritten by a copy of the value.
    pub open spec fn local_set(self, local: u32) -> Result<TState, Failure> {
        if !self.reachable {
            Ok(self)
        } else {
            let s0 = self.gc_preservations();
            let value = s0.stack.last();
            let s1 = s0.pop();
            let l = Reg(local as i16);
            if value == Provider::Register(l) {
                Ok(s1)
            } else {
                let preserved = if s1.stack.contains(Provider::Register(l)) {
                    s1.preserve_local(l)
                } else {
                    Ok(s1)
                };
                match preserved {
                    Err(e) => Err(e),
                    Ok(s2) => s2.copy_one(local as int, value),
                }
            }
        }
    }

    /// Translates `local.tee`: `local.set`, after which the local (or the
    /// constant that was stored) stands on the value stack.
    pub open spec fn local_tee(self, local: u32) -> Result<TState, Failure> {
        if !self.reachable {
            Ok(self)
        } else {
            let input = self.stack.last();
            match self.local_set(local) {
                Err(e) => Err(e),
                Ok(s) => Ok(
                    s.push(
                        match input {
                            Provider::Register(_) => Provider::Register(Reg(local as i16)),
                            Provider::Const(v) => Provider::Const(v),
                        },
                    ),
                ),
            }
        }
    }

    /// Translates `select`: equal operands are the result; a constant
    /// condition picks an operand (a dynamic register that is not the next
    /// one is copied into it); otherwise a `Select` into a new register.
    pub open spec fn select(self) -> Result<TState, Failure> {
        if !self.reachable {
            Ok(self)
        } else {
            let n = self.stack.len();
            let condition = self.stack[n - 1];
            let if_false = self.stack[n - 2];
            let if_true = self.stack[n - 3];
            let s0 = self.pop().pop().pop();
            if if_true == if_false {
                Ok(s0.push(if_true))
            } else {
                match condition {
                    Provider::Const(c) => {
                        let selected = if (c.bits as int) % pow32() != 0 {
                            if_true
                        } else {
                            if_false
                        };
                        if s0.is_dyn(selected) && reg_index(selected) != s0.next_dyn() {
                            match s0.push_dynamic() {
                                Err(e) => Err(e),
                                Ok(s1) => s1.copy_one(s0.next_dyn(), selected),
                            }
                        } else {
                            Ok(s0.push(selected))
                        }
                    },
                    Provider::Register(c) => match s0.provider_reg(if_true) {
                        Err(e) => Err(e),
                        Ok((s1, lhs)) => match s1.provider_reg(if_false) {
                            Err(e) => Err(e),
                            Ok((s2, rhs)) => match s2.push_dynamic() {
                                Err(e) => Err(e),
                                Ok(s3) => s3.push_fueled(
                                    Instruction::Select {
                                        result: Reg(s2.next_dyn() as i16),
                                        condition: c,
                                        lhs,
                                        rhs,
                                    },
                                    FuelKind::Base,
                                ),
                            },
                        },
                    },
                }
            }
        }
    }

    /// Translates `global.get`: an immutable global with a constant
    /// initializer is that constant, one initialized by `ref.func` is
    /// `ref.func`; otherwise a `GlobalGet` into a new register.
    pub open spec fn global_get(self, global: u32, mutable: bool, init: GlobalInit) -> Result<TState, Failure> {
        if !self.reachable {
            Ok(self)
        } else if !mutable && init is Const {
            Ok(self.push(Provider::Const(init->Const_0)))
        } else if !mutable && init is FuncRef {
            self.ref_func(init->FuncRef_0)
        } else {
            match self.push_dynamic() {
                Err(e) => Err(e),
                Ok(s1) => s1.push_fueled(
                    Instruction::GlobalGet { result: Reg(self.next_dyn() as i16), global },
                    FuelKind::Instance,
                ),
            }
        }
    }

    /// Translates `global.set`: a constant that fits 16 bits is an
    /// immediate; other constants get a constant register.
    pub open spec fn global_set(self, global: u32, content: ValType) -> Result<TState, Failure> {
        if !self.reachable {
            Ok(self)
        } else {
            let value = self.stack.last();
            let s0 = self.pop();
            match value {
                Provider::Register(input) => s0.push_fueled(
                    Instruction::GlobalSet { input, global },
                    FuelKind::Instance,
                ),
                Provider::Const(v) => match signed_imm16(content, v.bits) {
                    Some(imm) => s0.push_fueled(
                        if content == ValType::I32 {
                            Instruction::GlobalSetI32Imm16 { input: imm, global }
                        } else {
                            Instruction::GlobalSetI64Imm16 { input: imm, global }
                        },
                        FuelKind::Instance,
                    ),
                    None => match s0.alloc_const(v) {
                        Err(e) => Err(e),
                        Ok((s1, cref)) => s1.push_fueled(
                            Instruction::GlobalSet { input: cref, global },
                            FuelKind::Instance,
                        ),
                    },
                },
            }
        }
    }

    /// Translates `ref.null`: the null reference.
    pub open spec fn ref_null(self, ty: ValType) -> TState {
        if !self.reachable {
            self
        } else {
            self.push(Provider::Const(null_ref(ty)))
        }
    }

    /// Translates `ref.is_null`: decided on a constant reference, an
    /// `i64.eqz` of the reference's bits otherwise.
    pub open spec fn ref_is_null_const(self) -> TState {
        let v = self.stack.last()->Const_0;
        self.pop().push(Provider::Const(TypedVal::spec_bool(v.bits == 0)))
    }

    /// Translates `ref.func`: a `RefFunc` into a new register.
    pub open spec fn ref_func(self, func: u32) -> Result<TState, Failure> {
        if !self.reachable {
            Ok(self)
        } else {
            match self.push_dynamic() {
                Err(e) => Err(e),
                Ok(s1) => s1.push_fueled(
                    Instruction::RefFunc { result: Reg(self.next_dyn() as i16), func },
                    FuelKind::Instance,
                ),
            }
        }
    }
}

impl FuncTranslator {
    /// The register of a provider; a constant gets a constant register.
    pub fn provider_reg(&mut self, p: Provider) -> (r: Result<Reg, TranslationError>)
        requires
            old(self).wf(),
        ensures
            final(self).wf(),
            final(self).module == old(self).module,
            match old(self)@.provider_reg(p) {
                Ok((s, reg)) => r == Ok::<Reg, TranslationError>(reg) && final(self)@ == s,
                Err(f) => r == Err::<Reg, TranslationError>(f.error) && final(self)@ == f.state,
            },
    {
        match p {
            Provider::Register(reg) => Ok(reg),
            Provider::Const(v) => self.alloc_const(v),
        }
    }

    /// Translates `unreachable`.
    pub fn visit_unreachable(&mut self) -> (r: Result<(), TranslationError>)
        requires
            old(self).wf(),
        ensures
            final(self).wf(),
            final(self).module == old(self).module,
            outcome(old(self)@.unreachable_(), final(self)@, r),
    {
        self.translate_trap(TrapCode::UnreachableCodeReached)
    }

    /// Translates `nop`: nothing changes.
    pub fn visit_nop(&mut self) -> (r: Result<(), TranslationError>)
        ensures
            *final(self) == *old(self),
            r == Ok::<(), TranslationError>(()),
    {
        Ok(())
    }

    /// Translates `drop`.
    pub fn visit_drop(&mut self) -> (r: Result<(), TranslationError>)
        requires
            old(self).wf(),
            old(self)@.reachable ==> old(self)@.stack.len() > 0 && old(self)@.can_pop(1),
        ensures
            final(self).wf(),
            final(self).module == old(self).module,
            r == Ok::<(), TranslationError>(()),
            final(self)@ == old(self)@.drop_(),
    {
        if self.reachable {
            let _ = self.pop();
        }
        Ok(())
    }

    /// Translates `local.get`.
    pub fn visit_local_get(&mut self, local: u32) -> (r: Result<(), TranslationError>)
        requires
            old(self).wf(),
            local < old(self)@.len_locals,
        ensures
            final(self).wf(),
            final(self).module == old(self).module,
            r == Ok::<(), TranslationError>(()),
            final(self)@ == old(self)@.local_get(local),
    {
        if self.reachable {
            self.push_register(Reg(local as i16));
        }
        Ok(())
    }

    /// Whether the value stack holds a provider.
    pub fn stack_contains(&self, p: Provider) -> (r: bool)
        ensures
            r == self@.stack.contains(p),
    {
        let mut i: usize = 0;
        while i < self.stack.len()
            invariant
                i <= self.stack@.len(),
                forall|j: int| 0 <= j < i ==> self.stack@[j] != p,
            decreases self.stack@.len() - i,
        {
            if self.stack[i] == p {
                proof {
                    assert(self@.stack[i as int] == p);
                }
                return true;
            }
            i = i + 1;
        }
        false
    }

    /// Translates `local.set`.
    pub fn visit_local_set(&mut self, local: u32) -> (r: Result<(), TranslationError>)
        requires
            old(self).wf(),
            local < old(self)@.len_locals,
            old(self)@.reachable ==> old(self)@.stack.len() > 0 && old(self)@.can_pop(1),
        ensures
            final(self).wf(),
            final(self).module == old(self).module,
            outcome(old(self)@.local_set(local), final(self)@, r),
    {
        if !self.reachable {
            return Ok(());
        }
        self.gc_preservations();
        let value = self.pop();
        let l = Reg(local as i16);
        if value == Provider::Register(l) {
            return Ok(());
        }
        if self.stack_contains(Provider::Register(l)) {
            self.preserve_local(l)?;
        }
        self.copy_one(local as i16, value)
    }

    /// Translates `local.tee`.
    pub fn visit_local_tee(&mut self, local: u32) -> (r: Result<(), TranslationError>)
        requires
            old(self).wf(),
            local < old(self)@.len_locals,
            old(self)@.reachable ==> old(self)@.stack.len() > 0 && old(self)@.can_pop(1),
        ensures
            final(self).wf(),
            final(self).module == old(self).module,
            outcome(old(self)@.local_tee(local), final(self)@, r),
    {
        if !self.reachable {
            return Ok(());
        }
        let input = self.stack[self.stack.len() - 1];
        proof {
            assert(input == old(self)@.stack.last());
        }
        self.visit_local_set(local)?;
        match input {
            Provider::Register(_) => self.push_register(Reg(local as i16)),
            Provider::Const(v) => self.push_const(v),
        }
        Ok(())
    }

    /// Translates `select`.
    pub fn visit_select(&mut self) -> (r: Result<(), TranslationError>)
        requires
            old(self).wf(),
            old(self)@.reachable ==> old(self)@.stack.len() >= 3 && old(self)@.can_pop(3),
        ensures
            final(self).wf(),
            final(self).module == old(self).module,
            outcome(old(self)@.select(), final(self)@, r),
    {
        if !self.reachable {
            return Ok(());
        }
        let ghost s = self@;
        let condition = self.pop();
        let if_false = self.pop();
        let if_true = self.pop();
        let ghost s0 = self@;
        proof {
            let n = s.stack.len();
            assert(s.pop().stack.last() == s.stack[n - 2]);
            assert(s.pop().pop().stack.last() == s.stack[n - 3]);
            crate::regs::lemma_dyn_ok_pop(s.stack, s.len_locals, s.len_locals, s.dyn_hi());
            crate::regs::lemma_dyn_ok_pop(s.pop().stack, s.len_locals, s.len_locals, s.dyn_hi());
            crate::regs::lemma_dyn_ok_pop(s.pop().pop().stack, s.len_locals, s.len_locals, s.dyn_hi());
            assert(regs_nonneg(s.stack));
            assert(reg_ok(s.stack[n - 3]));
            assert(reg_ok(s.stack[n - 2]));
        }
        if if_true == if_false {
            proof {
                if s0.is_dyn(if_true) {
                    assert(reg_index(if_true) == s0.next_dyn());
                    assert(false);
                }
            }
            match if_true {
                Provider::Register(reg) => self.push_register(reg),
                Provider::Const(v) => self.push_const(v),
            }
            return Ok(());
        }
        match condition {
            Provider::Const(c) => {
                let selected = if c.low32() != 0 { if_true } else { if_false };
                let d = self.provider_is_dyn(selected);
                let next: i32 = self.len_locals as i32 + self.num_dynamic as i32;
                let is_next = match selected {
                    Provider::Register(reg) => reg.0 as i32 == next,
                    Provider::Const(_) => false,
                };
                if d && !is_next {
                    let result = self.push_dynamic()?;
                    self.copy_one(result.0, selected)
                } else {
                    proof {
                        if s0.is_dyn(selected) {
                            if selected == if_true {
                                assert(reg_index(if_true) == s0.next_dyn());
                            }
                        }
                    }
                    match selected {
                        Provider::Register(reg) => self.push_register(reg),
                        Provider::Const(v) => self.push_const(v),
                    }
                    Ok(())
                }
            },
            Provider::Register(cr) => {
                let lhs = self.provider_reg(if_true)?;
                let rhs = self.provider_reg(if_false)?;
                let result = self.push_dynamic()?;
                self.push_base_instr(Instruction::Select { result, condition: cr, lhs, rhs })
            },
        }
    }

    /// Translates the typed `select`; the type does not change the
    /// translation.
    pub fn visit_typed_select(&mut self, ty: ValType) -> (r: Result<(), TranslationError>)
        requires
            old(self).wf(),
            old(self)@.reachable ==> old(self)@.stack.len() >= 3 && old(self)@.can_pop(3),
        ensures
            final(self).wf(),
            final(self).module == old(self).module,
            outcome(old(self)@.select(), final(self)@, r),
    {
        self.visit_select()
    }

    /// Translates `global.get`.
    pub fn visit_global_get(&mut self, global: u32) -> (r: Result<(), TranslationError>)
        requires
            old(self).wf(),
            global < old(self).module.globals@.len(),
        ensures
            final(self).wf(),
            final(self).module == old(self).module,
            outcome(
                old(self)@.global_get(
                    global,
                    old(self).module.globals@[global as int].mutable,
                    old(self).module.globals@[global as int].init,
                ),
                final(self)@,
                r,
            ),
    {
        if !self.reachable {
            return Ok(());
        }
        let g = self.module.globals[global as usize];
        if !g.mutable {
            match g.init {
                GlobalInit::Const(v) => {
                    self.push_const(v);
                    return Ok(());
                },
                GlobalInit::FuncRef(f) => {
                    return self.visit_ref_func(f);
                },
                _ => {},
            }
        }
        let result = self.push_dynamic()?;
        self.push_fueled_instr(Instruction::GlobalGet { result, global }, FuelKind::Instance)
    }

    /// Translates `global.set`.
    pub fn visit_global_set(&mut self, global: u32) -> (r: Result<(), TranslationError>)
        requires
            old(self).wf(),
            global < old(self).module.globals@.len(),
            old(self)@.reachable ==> old(self)@.stack.len() > 0 && old(self)@.can_pop(1),
        ensures
            final(self).wf(),
            final(self).module == old(self).module,
            outcome(
                old(self)@.global_set(global, old(self).module.globals@[global as int].content),
                final(self)@,
                r,
            ),
    {
        if !self.reachable {
            return Ok(());
        }
        let content = self.module.globals[global as usize].content;
        match self.pop() {
            Provider::Register(input) => self.push_fueled_instr(
                Instruction::GlobalSet { input, global },
                FuelKind::Instance,
            ),
            Provider::Const(v) => match exec_signed_imm16(content, v.bits) {
                Some(imm) => {
                    let instr = match content {
                        ValType::I32 => Instruction::GlobalSetI32Imm16 { input: imm, global },
                        _ => Instruction::GlobalSetI64Imm16 { input: imm, global },
                    };
                    self.push_fueled_instr(instr, FuelKind::Instance)
                },
                None => {
                    let cref = self.alloc_const(v)?;
                    self.push_fueled_instr(Instruction::GlobalSet { input: cref, global }, FuelKind::Instance)
                },
            },
        }
    }

    /// Translates `ref.null` of a reference type.
    pub fn visit_ref_null(&mut self, ty: ValType) -> (r: Result<(), TranslationError>)
        requires
            old(self).wf(),
            is_ref_type(ty),
        ensures
            final(self).wf(),
            final(self).module == old(self).module,
            r == Ok::<(), TranslationError>(()),
            final(self)@ == old(self)@.ref_null(ty),
    {
        if self.reachable {
            self.push_const(TypedVal { ty, bits: 0 });
        }
        Ok(())
    }

    /// Translates `ref.is_null`.
    pub fn visit_ref_is_null(&mut self) -> (r: Result<(), TranslationError>)
        requires
            old(self).wf(),
            old(self)@.reachable ==> old(self)@.stack.len() > 0 && old(self)@.can_pop(1),
            old(self)@.reachable && old(self)@.stack.last() is Const ==> is_ref_type(
                old(self)@.stack.last()->Const_0.ty,
            ),
        ensures
            final(self).wf(),
            final(self).module == old(self).module,
            !old(self)@.reachable ==> r == Ok::<(), TranslationError>(()) && final(self)@ == old(self)@,
            old(self)@.reachable && old(self)@.stack.last() is Const ==> r == Ok::<(), TranslationError>(()) && final(self)@
                == old(self)@.ref_is_null_const(),
            old(self)@.reachable && old(self)@.stack.last() is Register
                ==> crate::numeric::binary_outcome(
                crate::visit_numeric::with_zero(old(self)@, TypedVal::spec_i64(0)),
                crate::ops::BinOp::I64(crate::ops::IntBinOp::Eq),
                final(self)@,
                r,
            ),
    {
        if !self.reachable {
            return Ok(());
        }
        let input = self.stack[self.stack.len() - 1];
        proof {
            assert(input == old(self)@.stack.last());
        }
        match input {
            Provider::Const(v) => {
                let _ = self.pop();
                self.push_const(TypedVal::from_bool(v.bits == 0));
                Ok(())
            },
            Provider::Register(_) => self.visit_i64_eqz(),
        }
    }

    /// Translates `ref.func`.
    pub fn visit_ref_func(&mut self, func: u32) -> (r: Result<(), TranslationError>)
        requires
            old(self).wf(),
        ensures
            final(self).wf(),
            final(self).module == old(self).module,
            outcome(old(self)@.ref_func(func), final(self)@, r),
    {
        if !self.reachable {
            return Ok(());
        }
        let result = self.push_dynamic()?;
        self.push_fueled_instr(Instruction::RefFunc { result, func }, FuelKind::Instance)
    }
}

} // verus!
