//! The translation of the wide-arithmetic operators: 128-bit addition and
//! subtraction on pairs of 64-bit halves, and widening 64-bit
//! multiplication.
use vstd::prelude::*;
use crate::ir::{Instruction, WideOp};
use crate::translator::{FuncTranslator, TState, TranslationError, Failure, FuelKind, outcome};
use crate::value::{Provider, Reg, TypedVal, pow64, s64};

verus! {

/// `2^128`.
pub open spec fn pow128() -> int {
    pow64() * pow64()
}

/// The 128-bit number with the given halves.
pub open spec fn join128(lo: u64, hi: u64) -> int {
    hi * pow64() + lo
}

/// The halves, low first, of a 128-bit number given modulo `2^128`.
pub open spec fn split128(x: int) -> (u64, u64) {
    let r = x % pow128();
    ((r % pow64()) as u64, (r / pow64()) as u64)
}

/// The result of a 128-bit addition or subtraction, modulo `2^128`.
pub open spec fn eval128(op: WideOp, lhs_lo: u64, lhs_hi: u64, rhs_lo: u64, rhs_hi: u64) -> (u64, u64) {
    match op {
        WideOp::Add128 => split128(join128(lhs_lo, lhs_hi) + join128(rhs_lo, rhs_hi)),
        WideOp::Sub128 => split128(join128(lhs_lo, lhs_hi) - join128(rhs_lo, rhs_hi)),
    }
}

/// The 128-bit product of two 64-bit numbers, read as signed or unsigned.
pub open spec fn eval_mul_wide(signed: bool, lhs: u64, rhs: u64) -> (u64, u64) {
    if signed {
        split128(s64(lhs) * s64(rhs))
    } else {
        split128(lhs * rhs)
    }
}

/// The halves of a 128-bit number.
fn halves(x: u128) -> (r: (u64, u64))
    ensures
        r == split128(x as int),
{
    proof {
        assert(pow128() == 0x1_0000_0000_0000_0000_0000_0000_0000_0000);
        assert((x as int) % pow128() == x as int);
    }
    ((x % 0x1_0000_0000_0000_0000) as u64, (x / 0x1_0000_0000_0000_0000) as u64)
}

/// The 128-bit number with the given halves.
fn join(lo: u64, hi: u64) -> (r: u128)
    ensures
        r as int == join128(lo, hi),
{
    proof {
        assert(hi * pow64() <= (pow64() - 1) * pow64()) by (nonlinear_arith)
            requires
                hi < pow64(),
        ;
    }
    hi as u128 * 0x1_0000_0000_0000_0000u128 + lo as u128
}

/// Computes [`eval128`].
#[verifier::spinoff_prover]
pub fn exec_eval128(op: WideOp, lhs_lo: u64, lhs_hi: u64, rhs_lo: u64, rhs_hi: u64) -> (r: (u64, u64))
    ensures
        r == eval128(op, lhs_lo, lhs_hi, rhs_lo, rhs_hi),
{
    let l = join(lhs_lo, lhs_hi);
    let r = join(rhs_lo, rhs_hi);
    proof {
        assert(pow128() == 0x1_0000_0000_0000_0000_0000_0000_0000_0000);
    }
    let x: u128 = match op {
        WideOp::Add128 => if l <= u128::MAX - r {
            l + r
        } else {
            l - (u128::MAX - r) - 1
        },
        WideOp::Sub128 => if l >= r {
            l - r
        } else {
            (u128::MAX - r) + l + 1
        },
    };
    proof {
        match op {
            WideOp::Add128 => {
                if l as int + r as int >= pow128() {
                    vstd::arithmetic::div_mod::lemma_fundamental_div_mod_converse(
                        l as int + r as int, pow128(), 1, x as int);
                }
            },
            WideOp::Sub128 => {
                if (l as int) < r as int {
                    vstd::arithmetic::div_mod::lemma_fundamental_div_mod_converse(
                        l as int - r as int, pow128(), -1, x as int);
                }
            },
        }
    }
    halves(x)
}

/// Computes [`eval_mul_wide`].
pub fn exec_eval_mul_wide(signed: bool, lhs: u64, rhs: u64) -> (r: (u64, u64))
    ensures
        r == eval_mul_wide(signed, lhs, rhs),
{
    proof {
        assert(pow128() == 0x1_0000_0000_0000_0000_0000_0000_0000_0000);
    }
    if signed {
        let a = crate::value::i64_from_bits(lhs) as i128;
        let b = crate::value::i64_from_bits(rhs) as i128;
        proof {
            assert(-0x4000_0000_0000_0000_0000_0000_0000_0000 <= a * b <= 0x4000_0000_0000_0000_0000_0000_0000_0000)
                by (nonlinear_arith)
                requires
                    -0x8000_0000_0000_0000 <= a <= 0x7fff_ffff_ffff_ffff,
                    -0x8000_0000_0000_0000 <= b <= 0x7fff_ffff_ffff_ffff,
            ;
        }
        let p: i128 = a * b;
        let x: u128 = if p >= 0 {
            p as u128
        } else {
            u128::MAX - ((-(p + 1)) as u128)
        };
        proof {
            if p < 0 {
                vstd::arithmetic::div_mod::lemma_fundamental_div_mod_converse(
                    p as int, pow128(), -1, x as int);
            }
        }
        halves(x)
    } else {
        proof {
            assert(lhs * rhs <= (pow64() - 1) * (pow64() - 1)) by (nonlinear_arith)
                requires
                    lhs < pow64(),
                    rhs < pow64(),
            ;
        }
        let x: u128 = lhs as u128 * rhs as u128;
        halves(x)
    }
}

impl TState {
    /// Translates a 128-bit addition or subtraction: four constants are
    /// folded; otherwise the halves get registers and the result goes to two
    /// new registers.
    pub open spec fn binop128(self, op: WideOp) -> Result<TState, Failure> {
        if !self.reachable {
            Ok(self)
        } else {
            let n = self.stack.len();
            let lhs_lo = self.stack[n - 4];
            let lhs_hi = self.stack[n - 3];
            let rhs_lo = self.stack[n - 2];
            let rhs_hi = self.stack[n - 1];
            let s0 = self.pop().pop().pop().pop();
            if lhs_lo is Const && lhs_hi is Const && rhs_lo is Const && rhs_hi is Const {
                let (lo, hi) = eval128(
                    op,
                    lhs_lo->Const_0.bits,
                    lhs_hi->Const_0.bits,
                    rhs_lo->Const_0.bits,
                    rhs_hi->Const_0.bits,
                );
                Ok(s0.push(Provider::Const(TypedVal::spec_i64(lo))).push(Provider::Const(TypedVal::spec_i64(hi))))
            } else {
                match s0.provider_reg(lhs_lo) {
                    Err(e) => Err(e),
                    Ok((s1, a)) => match s1.provider_reg(lhs_hi) {
                        Err(e) => Err(e),
                        Ok((s2, b)) => match s2.provider_reg(rhs_lo) {
                            Err(e) => Err(e),
                            Ok((s3, c)) => match s3.provider_reg(rhs_hi) {
                                Err(e) => Err(e),
                                Ok((s4, d)) => match s4.push_dynamic_n(2) {
                                    Err(e) => Err(e),
                                    Ok(s5) => s5.push_fueled(
                                        Instruction::Wide128 {
                                            op,
                                            results: Reg(s4.next_dyn() as i16),
                                            lhs_lo: a,
                                            lhs_hi: b,
                                            rhs_lo: c,
                                            rhs_hi: d,
                                        },
                                        FuelKind::Base,
                                    ),
                                },
                            },
                        },
                    },
                }
            }
        }
    }

    /// The widening multiplication of two registers into two new registers.
    pub open spec fn mul_wide_instr(self, signed: bool, lhs: Reg, rhs: Reg) -> Result<TState, Failure> {
        match self.push_dynamic_n(2) {
            Err(e) => Err(e),
            Ok(s1) => s1.push_fueled(
                Instruction::MulWide { signed, results: Reg(self.next_dyn() as i16), lhs, rhs },
                FuelKind::Base,
            ),
        }
    }

    /// The widening multiplication of a register `x` by a constant `c`:
    /// by zero it is zero, unsigned by one it is `x` with a zero high half;
    /// otherwise the constant gets a register (`x` stays on the side it was
    /// on).
    pub open spec fn mul_wide_by_const(self, signed: bool, x: Reg, c: TypedVal, x_is_lhs: bool) -> Result<TState, Failure> {
        if c.bits == 0 {
            Ok(self.push(Provider::Const(TypedVal::spec_i64(0))).push(Provider::Const(TypedVal::spec_i64(0))))
        } else if c.bits == 1 && !signed {
            Ok(self.push(Provider::Register(x)).push(Provider::Const(TypedVal::spec_i64(0))))
        } else {
            match self.alloc_const(c) {
                Err(e) => Err(e),
                Ok((s1, cr)) => if x_is_lhs {
                    s1.mul_wide_instr(signed, x, cr)
                } else {
                    s1.mul_wide_instr(signed, cr, x)
                },
            }
        }
    }

    /// Translates a widening multiplication: two constants are folded.
    pub open spec fn mul_wide(self, signed: bool) -> Result<TState, Failure> {
        if !self.reachable {
            Ok(self)
        } else {
            let n = self.stack.len();
            let lhs = self.stack[n - 2];
            let rhs = self.stack[n - 1];
            let s0 = self.pop().pop();
            match (lhs, rhs) {
                (Provider::Const(a), Provider::Const(b)) => {
                    let (lo, hi) = eval_mul_wide(signed, a.bits, b.bits);
                    Ok(s0.push(Provider::Const(TypedVal::spec_i64(lo))).push(Provider::Const(TypedVal::spec_i64(hi))))
                },
                (Provider::Register(l), Provider::Const(b)) => s0.mul_wide_by_const(signed, l, b, true),
                (Provider::Const(a), Provider::Register(r)) => s0.mul_wide_by_const(signed, r, a, false),
                (Provider::Register(l), Provider::Register(r)) => s0.mul_wide_instr(signed, l, r),
            }
        }
    }
}

impl FuncTranslator {
    /// Translates a 128-bit addition or subtraction.
    pub fn translate_binop128(&mut self, op: WideOp) -> (r: Result<(), TranslationError>)
        requires
            old(self).wf(),
            old(self)@.reachable ==> old(self)@.stack.len() >= 4 && old(self)@.can_pop(4),
        ensures
            final(self).wf(),
            final(self).module == old(self).module,
            outcome(old(self)@.binop128(op), final(self)@, r),
    {
        if !self.reachable {
            return Ok(());
        }
        let ghost s = self@;
        let rhs_hi = self.pop();
        let rhs_lo = self.pop();
        let lhs_hi = self.pop();
        let lhs_lo = self.pop();
        proof {
            let n = s.stack.len();
            assert(s.pop().stack.last() == s.stack[n - 2]);
            assert(s.pop().pop().stack.last() == s.stack[n - 3]);
            assert(s.pop().pop().pop().stack.last() == s.stack[n - 4]);
        }
        match (lhs_lo, lhs_hi, rhs_lo, rhs_hi) {
            (Provider::Const(a), Provider::Const(b), Provider::Const(c), Provider::Const(d)) => {
                let (lo, hi) = exec_eval128(op, a.bits, b.bits, c.bits, d.bits);
                self.push_const(TypedVal::from_i64_bits(lo));
                self.push_const(TypedVal::from_i64_bits(hi));
                Ok(())
            },
            _ => {
                let a = self.provider_reg(lhs_lo)?;
                let b = self.provider_reg(lhs_hi)?;
                let c = self.provider_reg(rhs_lo)?;
                let d = self.provider_reg(rhs_hi)?;
                let results = self.push_dynamic_n(2)?;
                self.push_fueled_instr(
                    Instruction::Wide128 { op, results, lhs_lo: a, lhs_hi: b, rhs_lo: c, rhs_hi: d },
                    FuelKind::Base,
                )
            },
        }
    }

    /// Translates `i64.add128`.
    pub fn visit_i64_add128(&mut self) -> (r: Result<(), TranslationError>)
        requires
            old(self).wf(),
            old(self)@.reachable ==> old(self)@.stack.len() >= 4 && old(self)@.can_pop(4),
        ensures
            final(self).wf(),
            final(self).module == old(self).module,
            outcome(old(self)@.binop128(WideOp::Add128), final(self)@, r),
    {
        self.translate_binop128(WideOp::Add128)
    }

    /// Translates `i64.sub128`.
    pub fn visit_i64_sub128(&mut self) -> (r: Result<(), TranslationError>)
        requires
            old(self).wf(),
            old(self)@.reachable ==> old(self)@.stack.len() >= 4 && old(self)@.can_pop(4),
        ensures
            final(self).wf(),
            final(self).module == old(self).module,
            outcome(old(self)@.binop128(WideOp::Sub128), final(self)@, r),
    {
        self.translate_binop128(WideOp::Sub128)
    }

    /// The widening multiplication of two registers.
    fn mul_wide_instr(&mut self, signed: bool, lhs: Reg, rhs: Reg) -> (r: Result<(), TranslationError>)
        requires
            old(self).wf(),
        ensures
            final(self).wf(),
            final(self).module == old(self).module,
            outcome(old(self)@.mul_wide_instr(signed, lhs, rhs), final(self)@, r),
    {
        let results = self.push_dynamic_n(2)?;
        self.push_fueled_instr(Instruction::MulWide { signed, results, lhs, rhs }, FuelKind::Base)
    }

    /// The widening multiplication of a register by a constant.
    fn mul_wide_by_const(&mut self, signed: bool, x: Reg, c: TypedVal, x_is_lhs: bool) -> (r: Result<(), TranslationError>)
        requires
            old(self).wf(),
            x.0 >= 0,
            old(self)@.is_dyn(Provider::Register(x)) ==> x.0 == old(self)@.next_dyn()
                && old(self)@.num_dynamic + 1 <= old(self)@.max_dynamic,
        ensures
            final(self).wf(),
            final(self).module == old(self).module,
            outcome(old(self)@.mul_wide_by_const(signed, x, c, x_is_lhs), final(self)@, r),
    {
        if c.bits == 0 {
            self.push_const(TypedVal::from_i64_bits(0));
            self.push_const(TypedVal::from_i64_bits(0));
            return Ok(());
        }
        if c.bits == 1 && !signed {
            self.push_register(x);
            self.push_const(TypedVal::from_i64_bits(0));
            return Ok(());
        }
        let cr = self.alloc_const(c)?;
        if x_is_lhs {
            self.mul_wide_instr(signed, x, cr)
        } else {
            self.mul_wide_instr(signed, cr, x)
        }
    }

    /// Translates a widening multiplication.
    pub fn translate_mul_wide(&mut self, signed: bool) -> (r: Result<(), TranslationError>)
        requires
            old(self).wf(),
            old(self)@.reachable ==> old(self)@.stack.len() >= 2 && old(self)@.can_pop(2),
        ensures
            final(self).wf(),
            final(self).module == old(self).module,
            outcome(old(self)@.mul_wide(signed), final(self)@, r),
    {
        if !self.reachable {
            return Ok(());
        }
        let ghost s = self@;
        let rhs = self.pop();
        let ghost s1 = self@;
        let lhs = self.pop();
        let ghost s0 = self@;
        proof {
            let n = s.stack.len();
            assert(s.pop().stack.last() == s.stack[n - 2]);
            crate::regs::lemma_dyn_ok_pop(s.stack, s.len_locals, s.len_locals, s.dyn_hi());
            crate::regs::lemma_dyn_ok_pop(s1.stack, s.len_locals, s.len_locals, s.dyn_hi());
            assert(crate::regs::regs_nonneg(s.stack));
            assert(crate::regs::reg_ok(s.stack[n - 2]));
            assert(crate::regs::reg_ok(s.stack[n - 1]));
        }
        match (lhs, rhs) {
            (Provider::Const(a), Provider::Const(b)) => {
                let (lo, hi) = exec_eval_mul_wide(signed, a.bits, b.bits);
                self.push_const(TypedVal::from_i64_bits(lo));
                self.push_const(TypedVal::from_i64_bits(hi));
                Ok(())
            },
            (Provider::Register(l), Provider::Const(b)) => self.mul_wide_by_const(signed, l, b, true),
            (Provider::Const(a), Provider::Register(r)) => self.mul_wide_by_const(signed, r, a, false),
            (Provider::Register(l), Provider::Register(r)) => self.mul_wide_instr(signed, l, r),
        }
    }

    /// Translates `i64.mul_wide_s`.
    pub fn visit_i64_mul_wide_s(&mut self) -> (r: Result<(), TranslationError>)
        requires
            old(self).wf(),
            old(self)@.reachable ==> old(self)@.stack.len() >= 2 && old(self)@.can_pop(2),
        ensures
            final(self).wf(),
            final(self).module == old(self).module,
            outcome(old(self)@.mul_wide(true), final(self)@, r),
    {
        self.translate_mul_wide(true)
    }

    /// Translates `i64.mul_wide_u`.
    pub fn visit_i64_mul_wide_u(&mut self) -> (r: Result<(), TranslationError>)
        requires
            old(self).wf(),
            old(self)@.reachable ==> old(self)@.stack.len() >= 2 && old(self)@.can_pop(2),
        ensures
            final(self).wf(),
            final(self).module == old(self).module,
            outcome(old(self)@.mul_wide(false), final(self)@, r),
    {
        self.translate_mul_wide(false)
    }
}

} // verus!
