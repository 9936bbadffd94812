//! The translation of numeric operators: constant folding, algebraic
//! simplification, 16-bit immediate encodings and register allocation for
//! results.
use vstd::prelude::*;
use crate::ir::Instruction;
use crate::ops::{BinOp, IntBinOp, FloatBinOp, Folded, UnOp, fold_binary, exec_fold_binary,
    fold_unary, exec_fold_unary, lo32};
use crate::simplify::{Simplify, simplify_same, simplify_reg_imm, simplify_imm_reg, imm16,
    is_commutative, is_swapped, encoded_op, exec_simplify_same, exec_simplify_reg_imm,
    exec_simplify_imm_reg, exec_imm16, exec_is_commutative, exec_encoded_op};
use crate::translator::{FuncTranslator, TState, TranslationError, Failure, FuelKind, lemma_wf_pop, outcome,
    pushable};
use crate::regs::reg_ok;
use crate::value::{Provider, Reg, TypedVal, ValType};

verus! {

/// An operator application on constants whose result needs floating-point
/// arithmetic. The translator has popped the operands; the caller computes
/// the result and hands it back with [`FuncTranslator::complete_fold`].
#[derive(Clone, Copy, Debug, PartialEq, Eq, Structural)]
pub enum FloatFold {
    Binary { op: BinOp, lhs: TypedVal, rhs: TypedVal },
    Unary { op: UnOp, input: TypedVal },
}

/// The instruction for `lhs op rhs` with both operands in registers.
pub open spec fn rr_instr(op: BinOp, result: Reg, lhs: Reg, rhs: Reg) -> Instruction {
    if is_swapped(op) {
        Instruction::Binary { op: encoded_op(op), result, lhs: rhs, rhs: lhs }
    } else {
        Instruction::Binary { op, result, lhs, rhs }
    }
}

/// The instruction for `lhs op rhs` with `rhs` a 16-bit immediate.
pub open spec fn ri16_instr(op: BinOp, result: Reg, lhs: Reg, rhs: i64) -> Instruction {
    if is_swapped(op) {
        Instruction::BinaryImm16Lhs { op: encoded_op(op), result, lhs: rhs, rhs: lhs }
    } else {
        Instruction::BinaryImm16Rhs { op, result, lhs, rhs }
    }
}

/// The instruction for `lhs op rhs` with `lhs` a 16-bit immediate.
pub open spec fn ir16_instr(op: BinOp, result: Reg, lhs: i64, rhs: Reg) -> Instruction {
    if is_swapped(op) {
        Instruction::BinaryImm16Rhs { op: encoded_op(op), result, lhs: rhs, rhs: lhs }
    } else {
        Instruction::BinaryImm16Lhs { op, result, lhs, rhs }
    }
}

fn exec_rr_instr(op: BinOp, result: Reg, lhs: Reg, rhs: Reg) -> (r: Instruction)
    ensures
        r == rr_instr(op, result, lhs, rhs),
{
    let (e, swapped) = exec_encoded_op(op);
    if swapped {
        Instruction::Binary { op: e, result, lhs: rhs, rhs: lhs }
    } else {
        Instruction::Binary { op, result, lhs, rhs }
    }
}

fn exec_ri16_instr(op: BinOp, result: Reg, lhs: Reg, rhs: i64) -> (r: Instruction)
    ensures
        r == ri16_instr(op, result, lhs, rhs),
{
    let (e, swapped) = exec_encoded_op(op);
    if swapped {
        Instruction::BinaryImm16Lhs { op: e, result, lhs: rhs, rhs: lhs }
    } else {
        Instruction::BinaryImm16Rhs { op, result, lhs, rhs }
    }
}

fn exec_ir16_instr(op: BinOp, result: Reg, lhs: i64, rhs: Reg) -> (r: Instruction)
    ensures
        r == ir16_instr(op, result, lhs, rhs),
{
    let (e, swapped) = exec_encoded_op(op);
    if swapped {
        Instruction::BinaryImm16Rhs { op: e, result, lhs: rhs, rhs: lhs }
    } else {
        Instruction::BinaryImm16Lhs { op, result, lhs, rhs }
    }
}

/// Shift and rotation operators.
pub open spec fn is_shift(op: BinOp) -> bool {
    match op {
        BinOp::I32(o) | BinOp::I64(o) => match o {
            IntBinOp::Shl | IntBinOp::ShrS | IntBinOp::ShrU | IntBinOp::Rotl | IntBinOp::Rotr => true,
            _ => false,
        },
        _ => false,
    }
}

/// The shift amount that a constant right operand stands for.
pub open spec fn shift_amount(op: BinOp, c: u64) -> i64 {
    match op {
        BinOp::I32(_) => (lo32(c) % 32) as i64,
        _ => (c % 64) as i64,
    }
}

/// `sub` on integers, which a constant right operand turns into `add`.
pub open spec fn is_int_sub(op: BinOp) -> bool {
    op == BinOp::I32(IntBinOp::Sub) || op == BinOp::I64(IntBinOp::Sub)
}

/// The `add` of the width of an integer `sub`.
pub open spec fn add_of(op: BinOp) -> BinOp {
    match op {
        BinOp::I64(_) => BinOp::I64(IntBinOp::Add),
        _ => BinOp::I32(IntBinOp::Add),
    }
}

/// The two's complement negation of a constant right operand of `sub`.
pub open spec fn negated(op: BinOp, c: u64) -> TypedVal {
    match op {
        BinOp::I64(_) => TypedVal::spec_i64(0u64.wrapping_sub(c)),
        _ => TypedVal::spec_i32(0u32.wrapping_sub(lo32(c))),
    }
}

/// `copysign`, whose constant right operand only contributes its sign.
pub open spec fn is_copysign(op: BinOp) -> bool {
    op == BinOp::F32(FloatBinOp::Copysign) || op == BinOp::F64(FloatBinOp::Copysign)
}

/// The sign of a float constant.
pub open spec fn float_sign_negative(op: BinOp, c: u64) -> bool {
    match op {
        BinOp::F32(_) => lo32(c) >= 0x8000_0000,
        _ => c >= 0x8000_0000_0000_0000,
    }
}

/// The outcome of a binary operator translation that makes no fold request
/// (integer operators never do).
pub open spec fn binary_outcome(old: TState, op: BinOp, fin: TState, r: Result<(), TranslationError>) -> bool {
    match old.binary(op) {
        Ok((s, _)) => r == Ok::<(), TranslationError>(()) && fin == s,
        Err(f) => r == Err::<(), TranslationError>(f.error) && fin == f.state,
    }
}

/// The outcome of a binary operator translation.
pub open spec fn binary_fold_outcome(old: TState, op: BinOp, fin: TState, r: Result<Option<FloatFold>, TranslationError>) -> bool {
    match old.binary(op) {
        Ok((s, f)) => r == Ok::<Option<FloatFold>, TranslationError>(f) && fin == s,
        Err(f) => r == Err::<Option<FloatFold>, TranslationError>(f.error) && fin == f.state,
    }
}

/// The outcome of a unary operator translation that makes no fold request.
pub open spec fn unary_outcome(old: TState, op: UnOp, fin: TState, r: Result<(), TranslationError>) -> bool {
    match old.unary(op) {
        Ok((s, _)) => r == Ok::<(), TranslationError>(()) && fin == s,
        Err(f) => r == Err::<(), TranslationError>(f.error) && fin == f.state,
    }
}

/// The outcome of a unary operator translation.
pub open spec fn unary_fold_outcome(old: TState, op: UnOp, fin: TState, r: Result<Option<FloatFold>, TranslationError>) -> bool {
    match old.unary(op) {
        Ok((s, f)) => r == Ok::<Option<FloatFold>, TranslationError>(f) && fin == s,
        Err(f) => r == Err::<Option<FloatFold>, TranslationError>(f.error) && fin == f.state,
    }
}

/// Drops the fold request of a translation that never makes one.
pub open spec fn no_fold(r: Result<TState, Failure>) -> Result<(TState, Option<FloatFold>), Failure> {
    match r {
        Ok(s) => Ok((s, None)),
        Err(e) => Err(e),
    }
}

impl TState {
    /// Appends an instruction that writes the next dynamic register, and
    /// pushes that register.
    pub open spec fn emit_result(self, instr: spec_fn(Reg) -> Instruction, kind: FuelKind) -> Result<TState, Failure> {
        let result = Reg(self.next_dyn() as i16);
        match self.push_dynamic() {
            Ok(s) => s.push_fueled(instr(result), kind),
            Err(e) => Err(e),
        }
    }

    /// Appends `lhs op rhs` for two registers.
    pub open spec fn emit_rr(self, op: BinOp, lhs: Reg, rhs: Reg) -> Result<TState, Failure> {
        self.emit_result(|result: Reg| rr_instr(op, result, lhs, rhs), FuelKind::Base)
    }

    /// Appends `lhs op c` with `c` made a function-local constant.
    pub open spec fn emit_rc(self, op: BinOp, lhs: Reg, c: TypedVal) -> Result<TState, Failure> {
        match self.alloc_const(c) {
            Ok((s, creg)) => s.emit_rr(op, lhs, creg),
            Err(e) => Err(e),
        }
    }

    /// Appends `c op rhs` with `c` made a function-local constant.
    pub open spec fn emit_cr(self, op: BinOp, c: TypedVal, rhs: Reg) -> Result<TState, Failure> {
        match self.alloc_const(c) {
            Ok((s, creg)) => s.emit_rr(op, creg, rhs),
            Err(e) => Err(e),
        }
    }

    /// Carries out a simplification, pushing its result in place of an
    /// instruction; `operand` is the register operand that `Lhs` or `Rhs`
    /// selects.
    pub open spec fn apply_simplify(self, simp: Simplify, operand: Provider) -> Result<TState, Failure> {
        match simp {
            Simplify::Const(v) => Ok(self.push(Provider::Const(v))),
            Simplify::Lhs | Simplify::Rhs => Ok(self.push(operand)),
            Simplify::Trap(t) => self.trap(t),
            Simplify::Keep => Ok(self),
        }
    }

    /// Translates `lhs op c`, where `lhs` is a register and `c` a constant.
    pub open spec fn binary_reg_imm(self, op: BinOp, lhs: Reg, c: TypedVal) -> Result<TState, Failure> {
        let simp = simplify_reg_imm(op, c.bits);
        if simp != Simplify::Keep {
            self.apply_simplify(simp, Provider::Register(lhs))
        } else if is_int_sub(op) {
            let neg = negated(op, c.bits);
            match imm16(add_of(op), neg.bits) {
                Some(i) => self.emit_result(|result: Reg| ri16_instr(add_of(op), result, lhs, i), FuelKind::Base),
                None => self.emit_rc(add_of(op), lhs, neg),
            }
        } else if is_shift(op) {
            self.emit_result(
                |result: Reg| Instruction::BinaryImm16Rhs { op, result, lhs, rhs: shift_amount(op, c.bits) },
                FuelKind::Base,
            )
        } else if is_copysign(op) {
            self.emit_result(
                |result: Reg| Instruction::CopysignImm { op, result, lhs, sign_negative: float_sign_negative(op, c.bits) },
                FuelKind::Base,
            )
        } else {
            match imm16(op, c.bits) {
                Some(i) => self.emit_result(|result: Reg| ri16_instr(op, result, lhs, i), FuelKind::Base),
                None => self.emit_rc(op, lhs, c),
            }
        }
    }

    /// Translates `c op rhs` for a non-commutative operator, where `c` is a
    /// constant and `rhs` a register.
    pub open spec fn binary_imm_reg(self, op: BinOp, c: TypedVal, rhs: Reg) -> Result<TState, Failure> {
        let simp = simplify_imm_reg(op, c.bits);
        if simp != Simplify::Keep {
            self.apply_simplify(simp, Provider::Register(rhs))
        } else {
            match imm16(op, c.bits) {
                Some(i) => self.emit_result(|result: Reg| ir16_instr(op, result, i, rhs), FuelKind::Base),
                None => self.emit_cr(op, c, rhs),
            }
        }
    }

    /// Translates `a op b` on constants: pushes the folded value, traps, or
    /// hands the operands back for floating-point folding.
    pub open spec fn binary_consts(self, op: BinOp, a: TypedVal, b: TypedVal) -> Result<(TState, Option<FloatFold>), Failure> {
        match fold_binary(op, a.bits, b.bits) {
            Folded::Value(v) => Ok((self.push(Provider::Const(v)), None)),
            Folded::Trap(t) => no_fold(self.trap(t)),
            Folded::Float => Ok((self, Some(FloatFold::Binary { op, lhs: a, rhs: b }))),
        }
    }

    /// Translates a unary operator applied to the top provider.
    pub open spec fn unary(self, op: UnOp) -> Result<(TState, Option<FloatFold>), Failure> {
        if !self.reachable {
            Ok((self, None))
        } else {
            let input = self.stack.last();
            let s = self.pop();
            match input {
                Provider::Const(v) => match fold_unary(op, v.bits) {
                    Folded::Value(x) => Ok((s.push(Provider::Const(x)), None)),
                    Folded::Trap(t) => no_fold(s.trap(t)),
                    Folded::Float => Ok((s, Some(FloatFold::Unary { op, input: v }))),
                },
                Provider::Register(reg) => no_fold(
                    s.emit_result(|result: Reg| Instruction::Unary { op, result, input: reg }, FuelKind::Base),
                ),
            }
        }
    }

    /// Translates an operator that only changes the type of its operand:
    /// a constant is retyped, a register is left as it is.
    pub open spec fn reinterpret(self, ty: ValType) -> TState {
        if !self.reachable {
            self
        } else {
            match self.stack.last() {
                Provider::Const(v) => self.pop().push(Provider::Const(TypedVal { ty, bits: v.bits })),
                Provider::Register(_) => self,
            }
        }
    }

    /// Completes a floating-point fold with its result: the value is pushed,
    /// or the trap is translated.
    pub open spec fn complete_fold(self, result: Result<TypedVal, crate::ops::TrapCode>) -> Result<TState, Failure> {
        match result {
            Ok(v) => Ok(self.push(Provider::Const(v))),
            Err(t) => self.trap(t),
        }
    }

    /// Translates a binary operator applied to the two top providers.
    pub open spec fn binary(self, op: BinOp) -> Result<(TState, Option<FloatFold>), Failure> {
        if !self.reachable {
            Ok((self, None))
        } else {
            let rhs = self.stack.last();
            let s1 = self.pop();
            let lhs = s1.stack.last();
            let s = s1.pop();
            match (lhs, rhs) {
                (Provider::Const(a), Provider::Const(b)) => s.binary_consts(op, a, b),
                (Provider::Register(l), Provider::Register(r)) => no_fold(
                    if l == r && simplify_same(op) != Simplify::Keep {
                        s.apply_simplify(simplify_same(op), lhs)
                    } else {
                        s.emit_rr(op, l, r)
                    },
                ),
                (Provider::Register(l), Provider::Const(c)) => no_fold(s.binary_reg_imm(op, l, c)),
                (Provider::Const(c), Provider::Register(r)) => no_fold(
                    if is_commutative(op) {
                        s.binary_reg_imm(op, r, c)
                    } else {
                        s.binary_imm_reg(op, c, r)
                    },
                ),
            }
        }
    }
}

fn exec_is_shift(op: BinOp) -> (r: bool)
    ensures
        r == is_shift(op),
{
    match op {
        BinOp::I32(o) | BinOp::I64(o) => match o {
            IntBinOp::Shl | IntBinOp::ShrS | IntBinOp::ShrU | IntBinOp::Rotl | IntBinOp::Rotr => true,
            _ => false,
        },
        _ => false,
    }
}

fn exec_shift_amount(op: BinOp, c: u64) -> (r: i64)
    ensures
        r == shift_amount(op, c),
{
    match op {
        BinOp::I32(_) => ((c % 0x1_0000_0000) % 32) as i64,
        _ => (c % 64) as i64,
    }
}

fn exec_negated(op: BinOp, c: u64) -> (r: TypedVal)
    ensures
        r == negated(op, c),
{
    match op {
        BinOp::I64(_) => TypedVal::from_i64_bits(0u64.wrapping_sub(c)),
        _ => TypedVal::from_i32_bits(0u32.wrapping_sub((c % 0x1_0000_0000) as u32)),
    }
}

fn exec_add_of(op: BinOp) -> (r: BinOp)
    ensures
        r == add_of(op),
{
    match op {
        BinOp::I64(_) => BinOp::I64(IntBinOp::Add),
        _ => BinOp::I32(IntBinOp::Add),
    }
}

fn exec_float_sign_negative(op: BinOp, c: u64) -> (r: bool)
    ensures
        r == float_sign_negative(op, c),
{
    match op {
        BinOp::F32(_) => (c % 0x1_0000_0000) >= 0x8000_0000,
        _ => c >= 0x8000_0000_0000_0000,
    }
}

impl FuncTranslator {
    /// Appends `lhs op rhs` for two registers, its result in the next
    /// dynamic register.
    pub fn emit_rr(&mut self, op: BinOp, lhs: Reg, rhs: Reg) -> (r: Result<(), TranslationError>)
        requires
            old(self).wf(),
        ensures
            final(self).wf(),
            final(self).module == old(self).module,
            outcome(old(self)@.emit_rr(op, lhs, rhs), final(self)@, r),
    {
        let result = self.push_dynamic()?;
        self.push_fueled_instr(exec_rr_instr(op, result, lhs, rhs), FuelKind::Base)
    }

    fn emit_ri16(&mut self, op: BinOp, lhs: Reg, rhs: i64) -> (r: Result<(), TranslationError>)
        requires
            old(self).wf(),
        ensures
            final(self).wf(),
            final(self).module == old(self).module,
            outcome(old(self)@.emit_result(|result: Reg| ri16_instr(op, result, lhs, rhs), FuelKind::Base), final(self)@, r),
    {
        let result = self.push_dynamic()?;
        self.push_fueled_instr(exec_ri16_instr(op, result, lhs, rhs), FuelKind::Base)
    }

    fn emit_ir16(&mut self, op: BinOp, lhs: i64, rhs: Reg) -> (r: Result<(), TranslationError>)
        requires
            old(self).wf(),
        ensures
            final(self).wf(),
            final(self).module == old(self).module,
            outcome(old(self)@.emit_result(|result: Reg| ir16_instr(op, result, lhs, rhs), FuelKind::Base), final(self)@, r),
    {
        let result = self.push_dynamic()?;
        self.push_fueled_instr(exec_ir16_instr(op, result, lhs, rhs), FuelKind::Base)
    }

    fn emit_rc(&mut self, op: BinOp, lhs: Reg, c: TypedVal) -> (r: Result<(), TranslationError>)
        requires
            old(self).wf(),
        ensures
            final(self).wf(),
            final(self).module == old(self).module,
            outcome(old(self)@.emit_rc(op, lhs, c), final(self)@, r),
    {
        let creg = self.alloc_const(c)?;
        self.emit_rr(op, lhs, creg)
    }

    fn emit_cr(&mut self, op: BinOp, c: TypedVal, rhs: Reg) -> (r: Result<(), TranslationError>)
        requires
            old(self).wf(),
        ensures
            final(self).wf(),
            final(self).module == old(self).module,
            outcome(old(self)@.emit_cr(op, c, rhs), final(self)@, r),
    {
        let creg = self.alloc_const(c)?;
        self.emit_rr(op, creg, rhs)
    }

    /// Carries out a simplification in place of an instruction.
    pub fn apply_simplify(&mut self, simp: Simplify, operand: Provider) -> (r: Result<(), TranslationError>)
        requires
            old(self).wf(),
            (simp is Lhs || simp is Rhs) ==> pushable(old(self)@, operand),
        ensures
            final(self).wf(),
            final(self).module == old(self).module,
            outcome(old(self)@.apply_simplify(simp, operand), final(self)@, r),
    {
        match simp {
            Simplify::Const(v) => {
                self.push_const(v);
                Ok(())
            },
            Simplify::Lhs | Simplify::Rhs => {
                match operand {
                    Provider::Register(reg) => self.push_register(reg),
                    Provider::Const(v) => self.push_const(v),
                }
                Ok(())
            },
            Simplify::Trap(t) => self.translate_trap(t),
            Simplify::Keep => Ok(()),
        }
    }

    /// Translates `lhs op c`, where `lhs` is a register and `c` a constant.
    pub fn binary_reg_imm(&mut self, op: BinOp, lhs: Reg, c: TypedVal) -> (r: Result<(), TranslationError>)
        requires
            old(self).wf(),
            pushable(old(self)@, Provider::Register(lhs)),
        ensures
            final(self).wf(),
            final(self).module == old(self).module,
            outcome(old(self)@.binary_reg_imm(op, lhs, c), final(self)@, r),
    {
        let simp = exec_simplify_reg_imm(op, c.bits);
        if simp != Simplify::Keep {
            return self.apply_simplify(simp, Provider::Register(lhs));
        }
        if op == BinOp::I32(IntBinOp::Sub) || op == BinOp::I64(IntBinOp::Sub) {
            let neg = exec_negated(op, c.bits);
            let add = exec_add_of(op);
            return match exec_imm16(add, neg.bits) {
                Some(i) => self.emit_ri16(add, lhs, i),
                None => self.emit_rc(add, lhs, neg),
            };
        }
        if exec_is_shift(op) {
            let amount = exec_shift_amount(op, c.bits);
            let result = self.push_dynamic()?;
            return self.push_fueled_instr(
                Instruction::BinaryImm16Rhs { op, result, lhs, rhs: amount },
                FuelKind::Base,
            );
        }
        if op == BinOp::F32(FloatBinOp::Copysign) || op == BinOp::F64(FloatBinOp::Copysign) {
            let sign_negative = exec_float_sign_negative(op, c.bits);
            let result = self.push_dynamic()?;
            return self.push_fueled_instr(
                Instruction::CopysignImm { op, result, lhs, sign_negative },
                FuelKind::Base,
            );
        }
        match exec_imm16(op, c.bits) {
            Some(i) => self.emit_ri16(op, lhs, i),
            None => self.emit_rc(op, lhs, c),
        }
    }

    /// Translates `c op rhs` for a non-commutative operator.
    pub fn binary_imm_reg(&mut self, op: BinOp, c: TypedVal, rhs: Reg) -> (r: Result<(), TranslationError>)
        requires
            old(self).wf(),
            pushable(old(self)@, Provider::Register(rhs)),
        ensures
            final(self).wf(),
            final(self).module == old(self).module,
            outcome(old(self)@.binary_imm_reg(op, c, rhs), final(self)@, r),
    {
        let simp = exec_simplify_imm_reg(op, c.bits);
        if simp != Simplify::Keep {
            return self.apply_simplify(simp, Provider::Register(rhs));
        }
        match exec_imm16(op, c.bits) {
            Some(i) => self.emit_ir16(op, i, rhs),
            None => self.emit_cr(op, c, rhs),
        }
    }

    /// Translates a binary operator applied to the two top providers of the
    /// value stack. Returns the operands when both are constants and the
    /// result needs floating-point arithmetic.
    pub fn translate_binary(&mut self, op: BinOp) -> (r: Result<Option<FloatFold>, TranslationError>)
        requires
            old(self).wf(),
            old(self)@.reachable ==> old(self)@.can_pop(2),
        ensures
            final(self).wf(),
            final(self).module == old(self).module,
            match old(self)@.binary(op) {
                Ok((s, f)) => r == Ok::<Option<FloatFold>, TranslationError>(f) && final(self)@ == s,
                Err(f) => r == Err::<Option<FloatFold>, TranslationError>(f.error) && final(self)@ == f.state,
            },
    {
        if !self.reachable {
            return Ok(None);
        }
        let ghost s0 = self@;
        proof {
            let top = s0.frames.len() - 1;
            assert(!s0.frames[top].in_unreachable_code);
        }
        let rhs = self.pop();
        let ghost s1 = self@;
        proof {
            lemma_wf_pop(s0);
            assert(s1.can_pop(1)) by {
                assert forall|i: int| 0 <= i < s1.frames.len() && !(#[trigger] s1.frames[i]).in_unreachable_code implies
                    s1.frames[i].height + 1 <= s1.stack.len() by {
                    assert(s0.frames[i].height + 2 <= s0.stack.len());
                }
            }
            let top = s1.frames.len() - 1;
            assert(!s1.frames[top].in_unreachable_code);
        }
        let lhs = self.pop();
        let ghost s = self@;
        proof {
            lemma_wf_pop(s1);
            assert(reg_ok(rhs)) by {
                assert(s0.stack[s0.stack.len() - 1] == rhs);
            }
            assert(reg_ok(lhs)) by {
                assert(s1.stack[s1.stack.len() - 1] == lhs);
            }
        }
        match (lhs, rhs) {
            (Provider::Const(a), Provider::Const(b)) => {
                match exec_fold_binary(op, a.bits, b.bits) {
                    Folded::Value(v) => {
                        self.push_const(v);
                        Ok(None)
                    },
                    Folded::Trap(t) => {
                        self.translate_trap(t)?;
                        Ok(None)
                    },
                    Folded::Float => Ok(Some(FloatFold::Binary { op, lhs: a, rhs: b })),
                }
            },
            (Provider::Register(l), Provider::Register(rr)) => {
                let simp = exec_simplify_same(op);
                if l == rr && simp != Simplify::Keep {
                    self.apply_simplify(simp, lhs)?;
                } else {
                    self.emit_rr(op, l, rr)?;
                }
                Ok(None)
            },
            (Provider::Register(l), Provider::Const(c)) => {
                self.binary_reg_imm(op, l, c)?;
                Ok(None)
            },
            (Provider::Const(c), Provider::Register(rr)) => {
                if exec_is_commutative(op) {
                    self.binary_reg_imm(op, rr, c)?;
                } else {
                    self.binary_imm_reg(op, c, rr)?;
                }
                Ok(None)
            },
        }
    }

    /// Translates a binary operator whose folding never needs
    /// floating-point arithmetic.
    pub fn translate_exact_binary(&mut self, op: BinOp) -> (r: Result<(), TranslationError>)
        requires
            old(self).wf(),
            crate::simplify::folds_exactly(op),
            old(self)@.reachable ==> old(self)@.can_pop(2),
        ensures
            final(self).wf(),
            final(self).module == old(self).module,
            binary_outcome(old(self)@, op, final(self)@, r),
    {
        self.translate_binary(op)?;
        Ok(())
    }

    /// Translates a unary operator applied to the top provider. Returns the
    /// operand when it is a constant and the result needs floating-point
    /// arithmetic.
    pub fn translate_unary(&mut self, op: UnOp) -> (r: Result<Option<FloatFold>, TranslationError>)
        requires
            old(self).wf(),
            old(self)@.reachable ==> old(self)@.can_pop(1),
        ensures
            final(self).wf(),
            final(self).module == old(self).module,
            unary_fold_outcome(old(self)@, op, final(self)@, r),
    {
        if !self.reachable {
            return Ok(None);
        }
        proof {
            let top = self@.frames.len() - 1;
            assert(!self@.frames[top].in_unreachable_code);
        }
        let input = self.pop();
        match input {
            Provider::Const(v) => match exec_fold_unary(op, v.bits) {
                Folded::Value(x) => {
                    self.push_const(x);
                    Ok(None)
                },
                Folded::Trap(t) => {
                    self.translate_trap(t)?;
                    Ok(None)
                },
                Folded::Float => Ok(Some(FloatFold::Unary { op, input: v })),
            },
            Provider::Register(reg) => {
                let result = self.push_dynamic()?;
                self.push_fueled_instr(Instruction::Unary { op, result, input: reg }, FuelKind::Base)?;
                Ok(None)
            },
        }
    }

    /// Translates a unary operator whose folding never needs floating-point
    /// arithmetic.
    pub fn translate_exact_unary(&mut self, op: UnOp) -> (r: Result<(), TranslationError>)
        requires
            old(self).wf(),
            !(op is Float),
            old(self)@.reachable ==> old(self)@.can_pop(1),
        ensures
            final(self).wf(),
            final(self).module == old(self).module,
            unary_outcome(old(self)@, op, final(self)@, r),
    {
        self.translate_unary(op)?;
        Ok(())
    }

    /// Translates an operator that only changes the type of its operand.
    pub fn translate_reinterpret(&mut self, ty: ValType) -> (r: Result<(), TranslationError>)
        requires
            old(self).wf(),
            old(self)@.reachable ==> old(self)@.can_pop(1),
        ensures
            final(self).wf(),
            final(self).module == old(self).module,
            r == Ok::<(), TranslationError>(()),
            final(self)@ == old(self)@.reinterpret(ty),
    {
        if !self.reachable {
            return Ok(());
        }
        proof {
            let top = self@.frames.len() - 1;
            assert(!self@.frames[top].in_unreachable_code);
        }
        match self.stack[self.stack.len() - 1] {
            Provider::Const(v) => {
                self.pop();
                self.push_const(TypedVal { ty, bits: v.bits });
                Ok(())
            },
            Provider::Register(_) => Ok(()),
        }
    }

    /// Completes a floating-point fold that a translation handed back: pushes
    /// the folded value, or translates the trap that the operator raises.
    pub fn complete_fold(&mut self, result: Result<TypedVal, crate::ops::TrapCode>) -> (r: Result<(), TranslationError>)
        requires
            old(self).wf(),
        ensures
            final(self).wf(),
            final(self).module == old(self).module,
            outcome(old(self)@.complete_fold(result), final(self)@, r),
    {
        match result {
            Ok(v) => {
                self.push_const(v);
                Ok(())
            },
            Err(t) => self.translate_trap(t),
        }
    }
}

} // verus!
