//! The visitors of the numeric operators.
use vstd::prelude::*;
use crate::numeric::{FloatFold, binary_outcome, binary_fold_outcome, unary_outcome,
    unary_fold_outcome};
use crate::ops::{BinOp, IntBinOp, FloatBinOp, UnOp, FloatUnOp};
use crate::translator::{FuncTranslator, TState, TranslationError};
use crate::value::{Provider, TypedVal, ValType, bits32, bits64};

verus! {

/// The state in which `eqz` is translated as `eq` with zero: the zero is
/// pushed in reachable code.
pub open spec fn with_zero(s: TState, zero: TypedVal) -> TState {
    if s.reachable {
        s.push(Provider::Const(zero))
    } else {
        s
    }
}

impl FuncTranslator {
    /// Translates `i32.const`.
    pub fn visit_i32_const(&mut self, value: i32) -> (r: Result<(), TranslationError>)
        requires
            old(self).wf(),
        ensures
            final(self).wf(),
            final(self).module == old(self).module,
            r == Ok::<(), TranslationError>(()),
            final(self)@ == if old(self)@.reachable {
                old(self)@.push(Provider::Const(TypedVal::spec_i32(bits32(value as int))))
            } else {
                old(self)@
            },
    {
        if !self.reachable {
            return Ok(());
        }
        self.push_const(TypedVal::from_i32_bits(crate::value::i32_to_bits(value)));
        Ok(())
    }

    /// Translates `i64.const`.
    pub fn visit_i64_const(&mut self, value: i64) -> (r: Result<(), TranslationError>)
        requires
            old(self).wf(),
        ensures
            final(self).wf(),
            final(self).module == old(self).module,
            r == Ok::<(), TranslationError>(()),
            final(self)@ == if old(self)@.reachable {
                old(self)@.push(Provider::Const(TypedVal::spec_i64(bits64(value as int))))
            } else {
                old(self)@
            },
    {
        if !self.reachable {
            return Ok(());
        }
        self.push_const(TypedVal::from_i64_bits(crate::value::i64_to_bits(value)));
        Ok(())
    }

    /// Translates `f32.const`, given the bits of the constant.
    pub fn visit_f32_const(&mut self, bits: u32) -> (r: Result<(), TranslationError>)
        requires
            old(self).wf(),
        ensures
            final(self).wf(),
            final(self).module == old(self).module,
            r == Ok::<(), TranslationError>(()),
            final(self)@ == if old(self)@.reachable {
                old(self)@.push(Provider::Const(TypedVal { ty: ValType::F32, bits: bits as u64 }))
            } else {
                old(self)@
            },
    {
        if !self.reachable {
            return Ok(());
        }
        self.push_const(TypedVal::from_f32_bits(bits));
        Ok(())
    }

    /// Translates `f64.const`, given the bits of the constant.
    pub fn visit_f64_const(&mut self, bits: u64) -> (r: Result<(), TranslationError>)
        requires
            old(self).wf(),
        ensures
            final(self).wf(),
            final(self).module == old(self).module,
            r == Ok::<(), TranslationError>(()),
            final(self)@ == if old(self)@.reachable {
                old(self)@.push(Provider::Const(TypedVal { ty: ValType::F64, bits }))
            } else {
                old(self)@
            },
    {
        if !self.reachable {
            return Ok(());
        }
        self.push_const(TypedVal::from_f64_bits(bits));
        Ok(())
    }

    /// Translates `i32.eqz` as `i32.eq` with the constant zero.
    pub fn visit_i32_eqz(&mut self) -> (r: Result<(), TranslationError>)
        requires
            old(self).wf(),
            old(self)@.reachable ==> old(self)@.can_pop(1),
        ensures
            final(self).wf(),
            final(self).module == old(self).module,
            binary_outcome(with_zero(old(self)@, TypedVal::spec_i32(0)), BinOp::I32(IntBinOp::Eq), final(self)@, r),
    {
        if !self.reachable {
            return Ok(());
        }
        self.push_const(TypedVal::from_i32_bits(0));
        self.translate_exact_binary(BinOp::I32(IntBinOp::Eq))
    }

    /// Translates `i64.eqz` as `i64.eq` with the constant zero.
    pub fn visit_i64_eqz(&mut self) -> (r: Result<(), TranslationError>)
        requires
            old(self).wf(),
            old(self)@.reachable ==> old(self)@.can_pop(1),
        ensures
            final(self).wf(),
            final(self).module == old(self).module,
            binary_outcome(with_zero(old(self)@, TypedVal::spec_i64(0)), BinOp::I64(IntBinOp::Eq), final(self)@, r),
    {
        if !self.reachable {
            return Ok(());
        }
        self.push_const(TypedVal::from_i64_bits(0));
        self.translate_exact_binary(BinOp::I64(IntBinOp::Eq))
    }

    /// Translates `i32.add`.
    pub fn visit_i32_add(&mut self) -> (r: Result<(), TranslationError>)
        requires
            old(self).wf(),
            old(self)@.reachable ==> old(self)@.can_pop(2),
        ensures
            final(self).wf(),
            final(self).module == old(self).module,
            binary_outcome(old(self)@, BinOp::I32(IntBinOp::Add), final(self)@, r),
    {
        self.translate_exact_binary(BinOp::I32(IntBinOp::Add))
    }

    /// Translates `i32.sub`.
    pub fn visit_i32_sub(&mut self) -> (r: Result<(), TranslationError>)
        requires
            old(self).wf(),
            old(self)@.reachable ==> old(self)@.can_pop(2),
        ensures
            final(self).wf(),
            final(self).module == old(self).module,
            binary_outcome(old(self)@, BinOp::I32(IntBinOp::Sub), final(self)@, r),
    {
        self.translate_exact_binary(BinOp::I32(IntBinOp::Sub))
    }

    /// Translates `i32.mul`.
    pub fn visit_i32_mul(&mut self) -> (r: Result<(), TranslationError>)
        requires
            old(self).wf(),
            old(self)@.reachable ==> old(self)@.can_pop(2),
        ensures
            final(self).wf(),
            final(self).module == old(self).module,
            binary_outcome(old(self)@, BinOp::I32(IntBinOp::Mul), final(self)@, r),
    {
        self.translate_exact_binary(BinOp::I32(IntBinOp::Mul))
    }

    /// Translates `i32.div_s`.
    pub fn visit_i32_div_s(&mut self) -> (r: Result<(), TranslationError>)
        requires
            old(self).wf(),
            old(self)@.reachable ==> old(self)@.can_pop(2),
        ensures
            final(self).wf(),
            final(self).module == old(self).module,
            binary_outcome(old(self)@, BinOp::I32(IntBinOp::DivS), final(self)@, r),
    {
        self.translate_exact_binary(BinOp::I32(IntBinOp::DivS))
    }

    /// Translates `i32.div_u`.
    pub fn visit_i32_div_u(&mut self) -> (r: Result<(), TranslationError>)
        requires
            old(self).wf(),
            old(self)@.reachable ==> old(self)@.can_pop(2),
        ensures
            final(self).wf(),
            final(self).module == old(self).module,
            binary_outcome(old(self)@, BinOp::I32(IntBinOp::DivU), final(self)@, r),
    {
        self.translate_exact_binary(BinOp::I32(IntBinOp::DivU))
    }

    /// Translates `i32.rem_s`.
    pub fn visit_i32_rem_s(&mut self) -> (r: Result<(), TranslationError>)
        requires
            old(self).wf(),
            old(self)@.reachable ==> old(self)@.can_pop(2),
        ensures
            final(self).wf(),
            final(self).module == old(self).module,
            binary_outcome(old(self)@, BinOp::I32(IntBinOp::RemS), final(self)@, r),
    {
        self.translate_exact_binary(BinOp::I32(IntBinOp::RemS))
    }

    /// Translates `i32.rem_u`.
    pub fn visit_i32_rem_u(&mut self) -> (r: Result<(), TranslationError>)
        requires
            old(self).wf(),
            old(self)@.reachable ==> old(self)@.can_pop(2),
        ensures
            final(self).wf(),
            final(self).module == old(self).module,
            binary_outcome(old(self)@, BinOp::I32(IntBinOp::RemU), final(self)@, r),
    {
        self.translate_exact_binary(BinOp::I32(IntBinOp::RemU))
    }

    /// Translates `i32.and`.
    pub fn visit_i32_and(&mut self) -> (r: Result<(), TranslationError>)
        requires
            old(self).wf(),
            old(self)@.reachable ==> old(self)@.can_pop(2),
        ensures
            final(self).wf(),
            final(self).module == old(self).module,
            binary_outcome(old(self)@, BinOp::I32(IntBinOp::And), final(self)@, r),
    {
        self.translate_exact_binary(BinOp::I32(IntBinOp::And))
    }

    /// Translates `i32.or`.
    pub fn visit_i32_or(&mut self) -> (r: Result<(), TranslationError>)
        requires
            old(self).wf(),
            old(self)@.reachable ==> old(self)@.can_pop(2),
        ensures
            final(self).wf(),
            final(self).module == old(self).module,
            binary_outcome(old(self)@, BinOp::I32(IntBinOp::Or), final(self)@, r),
    {
        self.translate_exact_binary(BinOp::I32(IntBinOp::Or))
    }

    /// Translates `i32.xor`.
    pub fn visit_i32_xor(&mut self) -> (r: Result<(), TranslationError>)
        requires
            old(self).wf(),
            old(self)@.reachable ==> old(self)@.can_pop(2),
        ensures
            final(self).wf(),
            final(self).module == old(self).module,
            binary_outcome(old(self)@, BinOp::I32(IntBinOp::Xor), final(self)@, r),
    {
        self.translate_exact_binary(BinOp::I32(IntBinOp::Xor))
    }

    /// Translates `i32.shl`.
    pub fn visit_i32_shl(&mut self) -> (r: Result<(), TranslationError>)
        requires
            old(self).wf(),
            old(self)@.reachable ==> old(self)@.can_pop(2),
        ensures
            final(self).wf(),
            final(self).module == old(self).module,
            binary_outcome(old(self)@, BinOp::I32(IntBinOp::Shl), final(self)@, r),
    {
        self.translate_exact_binary(BinOp::I32(IntBinOp::Shl))
    }

    /// Translates `i32.shr_s`.
    pub fn visit_i32_shr_s(&mut self) -> (r: Result<(), TranslationError>)
        requires
            old(self).wf(),
            old(self)@.reachable ==> old(self)@.can_pop(2),
        ensures
            final(self).wf(),
            final(self).module == old(self).module,
            binary_outcome(old(self)@, BinOp::I32(IntBinOp::ShrS), final(self)@, r),
    {
        self.translate_exact_binary(BinOp::I32(IntBinOp::ShrS))
    }

    /// Translates `i32.shr_u`.
    pub fn visit_i32_shr_u(&mut self) -> (r: Result<(), TranslationError>)
        requires
            old(self).wf(),
            old(self)@.reachable ==> old(self)@.can_pop(2),
        ensures
            final(self).wf(),
            final(self).module == old(self).module,
            binary_outcome(old(self)@, BinOp::I32(IntBinOp::ShrU), final(self)@, r),
    {
        self.translate_exact_binary(BinOp::I32(IntBinOp::ShrU))
    }

    /// Translates `i32.rotl`.
    pub fn visit_i32_rotl(&mut self) -> (r: Result<(), TranslationError>)
        requires
            old(self).wf(),
            old(self)@.reachable ==> old(self)@.can_pop(2),
        ensures
            final(self).wf(),
            final(self).module == old(self).module,
            binary_outcome(old(self)@, BinOp::I32(IntBinOp::Rotl), final(self)@, r),
    {
        self.translate_exact_binary(BinOp::I32(IntBinOp::Rotl))
    }

    /// Translates `i32.rotr`.
    pub fn visit_i32_rotr(&mut self) -> (r: Result<(), TranslationError>)
        requires
            old(self).wf(),
            old(self)@.reachable ==> old(self)@.can_pop(2),
        ensures
            final(self).wf(),
            final(self).module == old(self).module,
            binary_outcome(old(self)@, BinOp::I32(IntBinOp::Rotr), final(self)@, r),
    {
        self.translate_exact_binary(BinOp::I32(IntBinOp::Rotr))
    }

    /// Translates `i32.eq`.
    pub fn visit_i32_eq(&mut self) -> (r: Result<(), TranslationError>)
        requires
            old(self).wf(),
            old(self)@.reachable ==> old(self)@.can_pop(2),
        ensures
            final(self).wf(),
            final(self).module == old(self).module,
            binary_outcome(old(self)@, BinOp::I32(IntBinOp::Eq), final(self)@, r),
    {
        self.translate_exact_binary(BinOp::I32(IntBinOp::Eq))
    }

    /// Translates `i32.ne`.
    pub fn visit_i32_ne(&mut self) -> (r: Result<(), TranslationError>)
        requires
            old(self).wf(),
            old(self)@.reachable ==> old(self)@.can_pop(2),
        ensures
            final(self).wf(),
            final(self).module == old(self).module,
            binary_outcome(old(self)@, BinOp::I32(IntBinOp::Ne), final(self)@, r),
    {
        self.translate_exact_binary(BinOp::I32(IntBinOp::Ne))
    }

    /// Translates `i32.lt_s`.
    pub fn visit_i32_lt_s(&mut self) -> (r: Result<(), TranslationError>)
        requires
            old(self).wf(),
            old(self)@.reachable ==> old(self)@.can_pop(2),
        ensures
            final(self).wf(),
            final(self).module == old(self).module,
            binary_outcome(old(self)@, BinOp::I32(IntBinOp::LtS), final(self)@, r),
    {
        self.translate_exact_binary(BinOp::I32(IntBinOp::LtS))
    }

    /// Translates `i32.lt_u`.
    pub fn visit_i32_lt_u(&mut self) -> (r: Result<(), TranslationError>)
        requires
            old(self).wf(),
            old(self)@.reachable ==> old(self)@.can_pop(2),
        ensures
            final(self).wf(),
            final(self).module == old(self).module,
            binary_outcome(old(self)@, BinOp::I32(IntBinOp::LtU), final(self)@, r),
    {
        self.translate_exact_binary(BinOp::I32(IntBinOp::LtU))
    }

    /// Translates `i32.gt_s`.
    pub fn visit_i32_gt_s(&mut self) -> (r: Result<(), TranslationError>)
        requires
            old(self).wf(),
            old(self)@.reachable ==> old(self)@.can_pop(2),
        ensures
            final(self).wf(),
            final(self).module == old(self).module,
            binary_outcome(old(self)@, BinOp::I32(IntBinOp::GtS), final(self)@, r),
    {
        self.translate_exact_binary(BinOp::I32(IntBinOp::GtS))
    }

    /// Translates `i32.gt_u`.
    pub fn visit_i32_gt_u(&mut self) -> (r: Result<(), TranslationError>)
        requires
            old(self).wf(),
            old(self)@.reachable ==> old(self)@.can_pop(2),
        ensures
            final(self).wf(),
            final(self).module == old(self).module,
            binary_outcome(old(self)@, BinOp::I32(IntBinOp::GtU), final(self)@, r),
    {
        self.translate_exact_binary(BinOp::I32(IntBinOp::GtU))
    }

    /// Translates `i32.le_s`.
    pub fn visit_i32_le_s(&mut self) -> (r: Result<(), TranslationError>)
        requires
            old(self).wf(),
            old(self)@.reachable ==> old(self)@.can_pop(2),
        ensures
            final(self).wf(),
            final(self).module == old(self).module,
            binary_outcome(old(self)@, BinOp::I32(IntBinOp::LeS), final(self)@, r),
    {
        self.translate_exact_binary(BinOp::I32(IntBinOp::LeS))
    }

    /// Translates `i32.le_u`.
    pub fn visit_i32_le_u(&mut self) -> (r: Result<(), TranslationError>)
        requires
            old(self).wf(),
            old(self)@.reachable ==> old(self)@.can_pop(2),
        ensures
            final(self).wf(),
            final(self).module == old(self).module,
            binary_outcome(old(self)@, BinOp::I32(IntBinOp::LeU), final(self)@, r),
    {
        self.translate_exact_binary(BinOp::I32(IntBinOp::LeU))
    }

    /// Translates `i32.ge_s`.
    pub fn visit_i32_ge_s(&mut self) -> (r: Result<(), TranslationError>)
        requires
            old(self).wf(),
            old(self)@.reachable ==> old(self)@.can_pop(2),
        ensures
            final(self).wf(),
            final(self).module == old(self).module,
            binary_outcome(old(self)@, BinOp::I32(IntBinOp::GeS), final(self)@, r),
    {
        self.translate_exact_binary(BinOp::I32(IntBinOp::GeS))
    }

    /// Translates `i32.ge_u`.
    pub fn visit_i32_ge_u(&mut self) -> (r: Result<(), TranslationError>)
        requires
            old(self).wf(),
            old(self)@.reachable ==> old(self)@.can_pop(2),
        ensures
            final(self).wf(),
            final(self).module == old(self).module,
            binary_outcome(old(self)@, BinOp::I32(IntBinOp::GeU), final(self)@, r),
    {
        self.translate_exact_binary(BinOp::I32(IntBinOp::GeU))
    }

    /// Translates `i64.add`.
    pub fn visit_i64_add(&mut self) -> (r: Result<(), TranslationError>)
        requires
            old(self).wf(),
            old(self)@.reachable ==> old(self)@.can_pop(2),
        ensures
            final(self).wf(),
            final(self).module == old(self).module,
            binary_outcome(old(self)@, BinOp::I64(IntBinOp::Add), final(self)@, r),
    {
        self.translate_exact_binary(BinOp::I64(IntBinOp::Add))
    }

    /// Translates `i64.sub`.
    pub fn visit_i64_sub(&mut self) -> (r: Result<(), TranslationError>)
        requires
            old(self).wf(),
            old(self)@.reachable ==> old(self)@.can_pop(2),
        ensures
            final(self).wf(),
            final(self).module == old(self).module,
            binary_outcome(old(self)@, BinOp::I64(IntBinOp::Sub), final(self)@, r),
    {
        self.translate_exact_binary(BinOp::I64(IntBinOp::Sub))
    }

    /// Translates `i64.mul`.
    pub fn visit_i64_mul(&mut self) -> (r: Result<(), TranslationError>)
        requires
            old(self).wf(),
            old(self)@.reachable ==> old(self)@.can_pop(2),
        ensures
            final(self).wf(),
            final(self).module == old(self).module,
            binary_outcome(old(self)@, BinOp::I64(IntBinOp::Mul), final(self)@, r),
    {
        self.translate_exact_binary(BinOp::I64(IntBinOp::Mul))
    }

    /// Translates `i64.div_s`.
    pub fn visit_i64_div_s(&mut self) -> (r: Result<(), TranslationError>)
        requires
            old(self).wf(),
            old(self)@.reachable ==> old(self)@.can_pop(2),
        ensures
            final(self).wf(),
            final(self).module == old(self).module,
            binary_outcome(old(self)@, BinOp::I64(IntBinOp::DivS), final(self)@, r),
    {
        self.translate_exact_binary(BinOp::I64(IntBinOp::DivS))
    }

    /// Translates `i64.div_u`.
    pub fn visit_i64_div_u(&mut self) -> (r: Result<(), TranslationError>)
        requires
            old(self).wf(),
            old(self)@.reachable ==> old(self)@.can_pop(2),
        ensures
            final(self).wf(),
            final(self).module == old(self).module,
            binary_outcome(old(self)@, BinOp::I64(IntBinOp::DivU), final(self)@, r),
    {
        self.translate_exact_binary(BinOp::I64(IntBinOp::DivU))
    }

    /// Translates `i64.rem_s`.
    pub fn visit_i64_rem_s(&mut self) -> (r: Result<(), TranslationError>)
        requires
            old(self).wf(),
            old(self)@.reachable ==> old(self)@.can_pop(2),
        ensures
            final(self).wf(),
            final(self).module == old(self).module,
            binary_outcome(old(self)@, BinOp::I64(IntBinOp::RemS), final(self)@, r),
    {
        self.translate_exact_binary(BinOp::I64(IntBinOp::RemS))
    }

    /// Translates `i64.rem_u`.
    pub fn visit_i64_rem_u(&mut self) -> (r: Result<(), TranslationError>)
        requires
            old(self).wf(),
            old(self)@.reachable ==> old(self)@.can_pop(2),
        ensures
            final(self).wf(),
            final(self).module == old(self).module,
            binary_outcome(old(self)@, BinOp::I64(IntBinOp::RemU), final(self)@, r),
    {
        self.translate_exact_binary(BinOp::I64(IntBinOp::RemU))
    }

    /// Translates `i64.and`.
    pub fn visit_i64_and(&mut self) -> (r: Result<(), TranslationError>)
        requires
            old(self).wf(),
            old(self)@.reachable ==> old(self)@.can_pop(2),
        ensures
            final(self).wf(),
            final(self).module == old(self).module,
            binary_outcome(old(self)@, BinOp::I64(IntBinOp::And), final(self)@, r),
    {
        self.translate_exact_binary(BinOp::I64(IntBinOp::And))
    }

    /// Translates `i64.or`.
    pub fn visit_i64_or(&mut self) -> (r: Result<(), TranslationError>)
        requires
            old(self).wf(),
            old(self)@.reachable ==> old(self)@.can_pop(2),
        ensures
            final(self).wf(),
            final(self).module == old(self).module,
            binary_outcome(old(self)@, BinOp::I64(IntBinOp::Or), final(self)@, r),
    {
        self.translate_exact_binary(BinOp::I64(IntBinOp::Or))
    }

    /// Translates `i64.xor`.
    pub fn visit_i64_xor(&mut self) -> (r: Result<(), TranslationError>)
        requires
            old(self).wf(),
            old(self)@.reachable ==> old(self)@.can_pop(2),
        ensures
            final(self).wf(),
            final(self).module == old(self).module,
            binary_outcome(old(self)@, BinOp::I64(IntBinOp::Xor), final(self)@, r),
    {
        self.translate_exact_binary(BinOp::I64(IntBinOp::Xor))
    }

    /// Translates `i64.shl`.
    pub fn visit_i64_shl(&mut self) -> (r: Result<(), TranslationError>)
        requires
            old(self).wf(),
            old(self)@.reachable ==> old(self)@.can_pop(2),
        ensures
            final(self).wf(),
            final(self).module == old(self).module,
            binary_outcome(old(self)@, BinOp::I64(IntBinOp::Shl), final(self)@, r),
    {
        self.translate_exact_binary(BinOp::I64(IntBinOp::Shl))
    }

    /// Translates `i64.shr_s`.
    pub fn visit_i64_shr_s(&mut self) -> (r: Result<(), TranslationError>)
        requires
            old(self).wf(),
            old(self)@.reachable ==> old(self)@.can_pop(2),
        ensures
            final(self).wf(),
            final(self).module == old(self).module,
            binary_outcome(old(self)@, BinOp::I64(IntBinOp::ShrS), final(self)@, r),
    {
        self.translate_exact_binary(BinOp::I64(IntBinOp::ShrS))
    }

    /// Translates `i64.shr_u`.
    pub fn visit_i64_shr_u(&mut self) -> (r: Result<(), TranslationError>)
        requires
            old(self).wf(),
            old(self)@.reachable ==> old(self)@.can_pop(2),
        ensures
            final(self).wf(),
            final(self).module == old(self).module,
            binary_outcome(old(self)@, BinOp::I64(IntBinOp::ShrU), final(self)@, r),
    {
        self.translate_exact_binary(BinOp::I64(IntBinOp::ShrU))
    }

    /// Translates `i64.rotl`.
    pub fn visit_i64_rotl(&mut self) -> (r: Result<(), TranslationError>)
        requires
            old(self).wf(),
            old(self)@.reachable ==> old(self)@.can_pop(2),
        ensures
            final(self).wf(),
            final(self).module == old(self).module,
            binary_outcome(old(self)@, BinOp::I64(IntBinOp::Rotl), final(self)@, r),
    {
        self.translate_exact_binary(BinOp::I64(IntBinOp::Rotl))
    }

    /// Translates `i64.rotr`.
    pub fn visit_i64_rotr(&mut self) -> (r: Result<(), TranslationError>)
        requires
            old(self).wf(),
            old(self)@.reachable ==> old(self)@.can_pop(2),
        ensures
            final(self).wf(),
            final(self).module == old(self).module,
            binary_outcome(old(self)@, BinOp::I64(IntBinOp::Rotr), final(self)@, r),
    {
        self.translate_exact_binary(BinOp::I64(IntBinOp::Rotr))
    }

    /// Translates `i64.eq`.
    pub fn visit_i64_eq(&mut self) -> (r: Result<(), TranslationError>)
        requires
            old(self).wf(),
            old(self)@.reachable ==> old(self)@.can_pop(2),
        ensures
            final(self).wf(),
            final(self).module == old(self).module,
            binary_outcome(old(self)@, BinOp::I64(IntBinOp::Eq), final(self)@, r),
    {
        self.translate_exact_binary(BinOp::I64(IntBinOp::Eq))
    }

    /// Translates `i64.ne`.
    pub fn visit_i64_ne(&mut self) -> (r: Result<(), TranslationError>)
        requires
            old(self).wf(),
            old(self)@.reachable ==> old(self)@.can_pop(2),
        ensures
            final(self).wf(),
            final(self).module == old(self).module,
            binary_outcome(old(self)@, BinOp::I64(IntBinOp::Ne), final(self)@, r),
    {
        self.translate_exact_binary(BinOp::I64(IntBinOp::Ne))
    }

    /// Translates `i64.lt_s`.
    pub fn visit_i64_lt_s(&mut self) -> (r: Result<(), TranslationError>)
        requires
            old(self).wf(),
            old(self)@.reachable ==> old(self)@.can_pop(2),
        ensures
            final(self).wf(),
            final(self).module == old(self).module,
            binary_outcome(old(self)@, BinOp::I64(IntBinOp::LtS), final(self)@, r),
    {
        self.translate_exact_binary(BinOp::I64(IntBinOp::LtS))
    }

    /// Translates `i64.lt_u`.
    pub fn visit_i64_lt_u(&mut self) -> (r: Result<(), TranslationError>)
        requires
            old(self).wf(),
            old(self)@.reachable ==> old(self)@.can_pop(2),
        ensures
            final(self).wf(),
            final(self).module == old(self).module,
            binary_outcome(old(self)@, BinOp::I64(IntBinOp::LtU), final(self)@, r),
    {
        self.translate_exact_binary(BinOp::I64(IntBinOp::LtU))
    }

    /// Translates `i64.gt_s`.
    pub fn visit_i64_gt_s(&mut self) -> (r: Result<(), TranslationError>)
        requires
            old(self).wf(),
            old(self)@.reachable ==> old(self)@.can_pop(2),
        ensures
            final(self).wf(),
            final(self).module == old(self).module,
            binary_outcome(old(self)@, BinOp::I64(IntBinOp::GtS), final(self)@, r),
    {
        self.translate_exact_binary(BinOp::I64(IntBinOp::GtS))
    }

    /// Translates `i64.gt_u`.
    pub fn visit_i64_gt_u(&mut self) -> (r: Result<(), TranslationError>)
        requires
            old(self).wf(),
            old(self)@.reachable ==> old(self)@.can_pop(2),
        ensures
            final(self).wf(),
            final(self).module == old(self).module,
            binary_outcome(old(self)@, BinOp::I64(IntBinOp::GtU), final(self)@, r),
    {
        self.translate_exact_binary(BinOp::I64(IntBinOp::GtU))
    }

    /// Translates `i64.le_s`.
    pub fn visit_i64_le_s(&mut self) -> (r: Result<(), TranslationError>)
        requires
            old(self).wf(),
            old(self)@.reachable ==> old(self)@.can_pop(2),
        ensures
            final(self).wf(),
            final(self).module == old(self).module,
            binary_outcome(old(self)@, BinOp::I64(IntBinOp::LeS), final(self)@, r),
    {
        self.translate_exact_binary(BinOp::I64(IntBinOp::LeS))
    }

    /// Translates `i64.le_u`.
    pub fn visit_i64_le_u(&mut self) -> (r: Result<(), TranslationError>)
        requires
            old(self).wf(),
            old(self)@.reachable ==> old(self)@.can_pop(2),
        ensures
            final(self).wf(),
            final(self).module == old(self).module,
            binary_outcome(old(self)@, BinOp::I64(IntBinOp::LeU), final(self)@, r),
    {
        self.translate_exact_binary(BinOp::I64(IntBinOp::LeU))
    }

    /// Translates `i64.ge_s`.
    pub fn visit_i64_ge_s(&mut self) -> (r: Result<(), TranslationError>)
        requires
            old(self).wf(),
            old(self)@.reachable ==> old(self)@.can_pop(2),
        ensures
            final(self).wf(),
            final(self).module == old(self).module,
            binary_outcome(old(self)@, BinOp::I64(IntBinOp::GeS), final(self)@, r),
    {
        self.translate_exact_binary(BinOp::I64(IntBinOp::GeS))
    }

    /// Translates `i64.ge_u`.
    pub fn visit_i64_ge_u(&mut self) -> (r: Result<(), TranslationError>)
        requires
            old(self).wf(),
            old(self)@.reachable ==> old(self)@.can_pop(2),
        ensures
            final(self).wf(),
            final(self).module == old(self).module,
            binary_outcome(old(self)@, BinOp::I64(IntBinOp::GeU), final(self)@, r),
    {
        self.translate_exact_binary(BinOp::I64(IntBinOp::GeU))
    }

    /// Translates `f32.eq`.
    pub fn visit_f32_eq(&mut self) -> (r: Result<(), TranslationError>)
        requires
            old(self).wf(),
            old(self)@.reachable ==> old(self)@.can_pop(2),
        ensures
            final(self).wf(),
            final(self).module == old(self).module,
            binary_outcome(old(self)@, BinOp::F32(FloatBinOp::Eq), final(self)@, r),
    {
        self.translate_exact_binary(BinOp::F32(FloatBinOp::Eq))
    }

    /// Translates `f32.ne`.
    pub fn visit_f32_ne(&mut self) -> (r: Result<(), TranslationError>)
        requires
            old(self).wf(),
            old(self)@.reachable ==> old(self)@.can_pop(2),
        ensures
            final(self).wf(),
            final(self).module == old(self).module,
            binary_outcome(old(self)@, BinOp::F32(FloatBinOp::Ne), final(self)@, r),
    {
        self.translate_exact_binary(BinOp::F32(FloatBinOp::Ne))
    }

    /// Translates `f32.lt`.
    pub fn visit_f32_lt(&mut self) -> (r: Result<(), TranslationError>)
        requires
            old(self).wf(),
            old(self)@.reachable ==> old(self)@.can_pop(2),
        ensures
            final(self).wf(),
            final(self).module == old(self).module,
            binary_outcome(old(self)@, BinOp::F32(FloatBinOp::Lt), final(self)@, r),
    {
        self.translate_exact_binary(BinOp::F32(FloatBinOp::Lt))
    }

    /// Translates `f32.gt`.
    pub fn visit_f32_gt(&mut self) -> (r: Result<(), TranslationError>)
        requires
            old(self).wf(),
            old(self)@.reachable ==> old(self)@.can_pop(2),
        ensures
            final(self).wf(),
            final(self).module == old(self).module,
            binary_outcome(old(self)@, BinOp::F32(FloatBinOp::Gt), final(self)@, r),
    {
        self.translate_exact_binary(BinOp::F32(FloatBinOp::Gt))
    }

    /// Translates `f32.le`.
    pub fn visit_f32_le(&mut self) -> (r: Result<(), TranslationError>)
        requires
            old(self).wf(),
            old(self)@.reachable ==> old(self)@.can_pop(2),
        ensures
            final(self).wf(),
            final(self).module == old(self).module,
            binary_outcome(old(self)@, BinOp::F32(FloatBinOp::Le), final(self)@, r),
    {
        self.translate_exact_binary(BinOp::F32(FloatBinOp::Le))
    }

    /// Translates `f32.ge`.
    pub fn visit_f32_ge(&mut self) -> (r: Result<(), TranslationError>)
        requires
            old(self).wf(),
            old(self)@.reachable ==> old(self)@.can_pop(2),
        ensures
            final(self).wf(),
            final(self).module == old(self).module,
            binary_outcome(old(self)@, BinOp::F32(FloatBinOp::Ge), final(self)@, r),
    {
        self.translate_exact_binary(BinOp::F32(FloatBinOp::Ge))
    }

    /// Translates `f32.copysign`.
    pub fn visit_f32_copysign(&mut self) -> (r: Result<(), TranslationError>)
        requires
            old(self).wf(),
            old(self)@.reachable ==> old(self)@.can_pop(2),
        ensures
            final(self).wf(),
            final(self).module == old(self).module,
            binary_outcome(old(self)@, BinOp::F32(FloatBinOp::Copysign), final(self)@, r),
    {
        self.translate_exact_binary(BinOp::F32(FloatBinOp::Copysign))
    }

    /// Translates `f32.add`.
    pub fn visit_f32_add(&mut self) -> (r: Result<Option<FloatFold>, TranslationError>)
        requires
            old(self).wf(),
            old(self)@.reachable ==> old(self)@.can_pop(2),
        ensures
            final(self).wf(),
            final(self).module == old(self).module,
            binary_fold_outcome(old(self)@, BinOp::F32(FloatBinOp::Add), final(self)@, r),
    {
        self.translate_binary(BinOp::F32(FloatBinOp::Add))
    }

    /// Translates `f32.sub`.
    pub fn visit_f32_sub(&mut self) -> (r: Result<Option<FloatFold>, TranslationError>)
        requires
            old(self).wf(),
            old(self)@.reachable ==> old(self)@.can_pop(2),
        ensures
            final(self).wf(),
            final(self).module == old(self).module,
            binary_fold_outcome(old(self)@, BinOp::F32(FloatBinOp::Sub), final(self)@, r),
    {
        self.translate_binary(BinOp::F32(FloatBinOp::Sub))
    }

    /// Translates `f32.mul`.
    pub fn visit_f32_mul(&mut self) -> (r: Result<Option<FloatFold>, TranslationError>)
        requires
            old(self).wf(),
            old(self)@.reachable ==> old(self)@.can_pop(2),
        ensures
            final(self).wf(),
            final(self).module == old(self).module,
            binary_fold_outcome(old(self)@, BinOp::F32(FloatBinOp::Mul), final(self)@, r),
    {
        self.translate_binary(BinOp::F32(FloatBinOp::Mul))
    }

    /// Translates `f32.div`.
    pub fn visit_f32_div(&mut self) -> (r: Result<Option<FloatFold>, TranslationError>)
        requires
            old(self).wf(),
            old(self)@.reachable ==> old(self)@.can_pop(2),
        ensures
            final(self).wf(),
            final(self).module == old(self).module,
            binary_fold_outcome(old(self)@, BinOp::F32(FloatBinOp::Div), final(self)@, r),
    {
        self.translate_binary(BinOp::F32(FloatBinOp::Div))
    }

    /// Translates `f32.min`.
    pub fn visit_f32_min(&mut self) -> (r: Result<Option<FloatFold>, TranslationError>)
        requires
            old(self).wf(),
            old(self)@.reachable ==> old(self)@.can_pop(2),
        ensures
            final(self).wf(),
            final(self).module == old(self).module,
            binary_fold_outcome(old(self)@, BinOp::F32(FloatBinOp::Min), final(self)@, r),
    {
        self.translate_binary(BinOp::F32(FloatBinOp::Min))
    }

    /// Translates `f32.max`.
    pub fn visit_f32_max(&mut self) -> (r: Result<Option<FloatFold>, TranslationError>)
        requires
            old(self).wf(),
            old(self)@.reachable ==> old(self)@.can_pop(2),
        ensures
            final(self).wf(),
            final(self).module == old(self).module,
            binary_fold_outcome(old(self)@, BinOp::F32(FloatBinOp::Max), final(self)@, r),
    {
        self.translate_binary(BinOp::F32(FloatBinOp::Max))
    }

    /// Translates `f64.eq`.
    pub fn visit_f64_eq(&mut self) -> (r: Result<(), TranslationError>)
        requires
            old(self).wf(),
            old(self)@.reachable ==> old(self)@.can_pop(2),
        ensures
            final(self).wf(),
            final(self).module == old(self).module,
            binary_outcome(old(self)@, BinOp::F64(FloatBinOp::Eq), final(self)@, r),
    {
        self.translate_exact_binary(BinOp::F64(FloatBinOp::Eq))
    }

    /// Translates `f64.ne`.
    pub fn visit_f64_ne(&mut self) -> (r: Result<(), TranslationError>)
        requires
            old(self).wf(),
            old(self)@.reachable ==> old(self)@.can_pop(2),
        ensures
            final(self).wf(),
            final(self).module == old(self).module,
            binary_outcome(old(self)@, BinOp::F64(FloatBinOp::Ne), final(self)@, r),
    {
        self.translate_exact_binary(BinOp::F64(FloatBinOp::Ne))
    }

    /// Translates `f64.lt`.
    pub fn visit_f64_lt(&mut self) -> (r: Result<(), TranslationError>)
        requires
            old(self).wf(),
            old(self)@.reachable ==> old(self)@.can_pop(2),
        ensures
            final(self).wf(),
            final(self).module == old(self).module,
            binary_outcome(old(self)@, BinOp::F64(FloatBinOp::Lt), final(self)@, r),
    {
        self.translate_exact_binary(BinOp::F64(FloatBinOp::Lt))
    }

    /// Translates `f64.gt`.
    pub fn visit_f64_gt(&mut self) -> (r: Result<(), TranslationError>)
        requires
            old(self).wf(),
            old(self)@.reachable ==> old(self)@.can_pop(2),
        ensures
            final(self).wf(),
            final(self).module == old(self).module,
            binary_outcome(old(self)@, BinOp::F64(FloatBinOp::Gt), final(self)@, r),
    {
        self.translate_exact_binary(BinOp::F64(FloatBinOp::Gt))
    }

    /// Translates `f64.le`.
    pub fn visit_f64_le(&mut self) -> (r: Result<(), TranslationError>)
        requires
            old(self).wf(),
            old(self)@.reachable ==> old(self)@.can_pop(2),
        ensures
            final(self).wf(),
            final(self).module == old(self).module,
            binary_outcome(old(self)@, BinOp::F64(FloatBinOp::Le), final(self)@, r),
    {
        self.translate_exact_binary(BinOp::F64(FloatBinOp::Le))
    }

    /// Translates `f64.ge`.
    pub fn visit_f64_ge(&mut self) -> (r: Result<(), TranslationError>)
        requires
            old(self).wf(),
            old(self)@.reachable ==> old(self)@.can_pop(2),
        ensures
            final(self).wf(),
            final(self).module == old(self).module,
            binary_outcome(old(self)@, BinOp::F64(FloatBinOp::Ge), final(self)@, r),
    {
        self.translate_exact_binary(BinOp::F64(FloatBinOp::Ge))
    }

    /// Translates `f64.copysign`.
    pub fn visit_f64_copysign(&mut self) -> (r: Result<(), TranslationError>)
        requires
            old(self).wf(),
            old(self)@.reachable ==> old(self)@.can_pop(2),
        ensures
            final(self).wf(),
            final(self).module == old(self).module,
            binary_outcome(old(self)@, BinOp::F64(FloatBinOp::Copysign), final(self)@, r),
    {
        self.translate_exact_binary(BinOp::F64(FloatBinOp::Copysign))
    }

    /// Translates `f64.add`.
    pub fn visit_f64_add(&mut self) -> (r: Result<Option<FloatFold>, TranslationError>)
        requires
            old(self).wf(),
            old(self)@.reachable ==> old(self)@.can_pop(2),
        ensures
            final(self).wf(),
            final(self).module == old(self).module,
            binary_fold_outcome(old(self)@, BinOp::F64(FloatBinOp::Add), final(self)@, r),
    {
        self.translate_binary(BinOp::F64(FloatBinOp::Add))
    }

    /// Translates `f64.sub`.
    pub fn visit_f64_sub(&mut self) -> (r: Result<Option<FloatFold>, TranslationError>)
        requires
            old(self).wf(),
            old(self)@.reachable ==> old(self)@.can_pop(2),
        ensures
            final(self).wf(),
            final(self).module == old(self).module,
            binary_fold_outcome(old(self)@, BinOp::F64(FloatBinOp::Sub), final(self)@, r),
    {
        self.translate_binary(BinOp::F64(FloatBinOp::Sub))
    }

    /// Translates `f64.mul`.
    pub fn visit_f64_mul(&mut self) -> (r: Result<Option<FloatFold>, TranslationError>)
        requires
            old(self).wf(),
            old(self)@.reachable ==> old(self)@.can_pop(2),
        ensures
            final(self).wf(),
            final(self).module == old(self).module,
            binary_fold_outcome(old(self)@, BinOp::F64(FloatBinOp::Mul), final(self)@, r),
    {
        self.translate_binary(BinOp::F64(FloatBinOp::Mul))
    }

    /// Translates `f64.div`.
    pub fn visit_f64_div(&mut self) -> (r: Result<Option<FloatFold>, TranslationError>)
        requires
            old(self).wf(),
            old(self)@.reachable ==> old(self)@.can_pop(2),
        ensures
            final(self).wf(),
            final(self).module == old(self).module,
            binary_fold_outcome(old(self)@, BinOp::F64(FloatBinOp::Div), final(self)@, r),
    {
        self.translate_binary(BinOp::F64(FloatBinOp::Div))
    }

    /// Translates `f64.min`.
    pub fn visit_f64_min(&mut self) -> (r: Result<Option<FloatFold>, TranslationError>)
        requires
            old(self).wf(),
            old(self)@.reachable ==> old(self)@.can_pop(2),
        ensures
            final(self).wf(),
            final(self).module == old(self).module,
            binary_fold_outcome(old(self)@, BinOp::F64(FloatBinOp::Min), final(self)@, r),
    {
        self.translate_binary(BinOp::F64(FloatBinOp::Min))
    }

    /// Translates `f64.max`.
    pub fn visit_f64_max(&mut self) -> (r: Result<Option<FloatFold>, TranslationError>)
        requires
            old(self).wf(),
            old(self)@.reachable ==> old(self)@.can_pop(2),
        ensures
            final(self).wf(),
            final(self).module == old(self).module,
            binary_fold_outcome(old(self)@, BinOp::F64(FloatBinOp::Max), final(self)@, r),
    {
        self.translate_binary(BinOp::F64(FloatBinOp::Max))
    }

    /// Translates `i32.clz`.
    pub fn visit_i32_clz(&mut self) -> (r: Result<(), TranslationError>)
        requires
            old(self).wf(),
            old(self)@.reachable ==> old(self)@.can_pop(1),
        ensures
            final(self).wf(),
            final(self).module == old(self).module,
            unary_outcome(old(self)@, UnOp::I32Clz, final(self)@, r),
    {
        self.translate_exact_unary(UnOp::I32Clz)
    }

    /// Translates `i32.ctz`.
    pub fn visit_i32_ctz(&mut self) -> (r: Result<(), TranslationError>)
        requires
            old(self).wf(),
            old(self)@.reachable ==> old(self)@.can_pop(1),
        ensures
            final(self).wf(),
            final(self).module == old(self).module,
            unary_outcome(old(self)@, UnOp::I32Ctz, final(self)@, r),
    {
        self.translate_exact_unary(UnOp::I32Ctz)
    }

    /// Translates `i32.popcnt`.
    pub fn visit_i32_popcnt(&mut self) -> (r: Result<(), TranslationError>)
        requires
            old(self).wf(),
            old(self)@.reachable ==> old(self)@.can_pop(1),
        ensures
            final(self).wf(),
            final(self).module == old(self).module,
            unary_outcome(old(self)@, UnOp::I32Popcnt, final(self)@, r),
    {
        self.translate_exact_unary(UnOp::I32Popcnt)
    }

    /// Translates `i64.clz`.
    pub fn visit_i64_clz(&mut self) -> (r: Result<(), TranslationError>)
        requires
            old(self).wf(),
            old(self)@.reachable ==> old(self)@.can_pop(1),
        ensures
            final(self).wf(),
            final(self).module == old(self).module,
            unary_outcome(old(self)@, UnOp::I64Clz, final(self)@, r),
    {
        self.translate_exact_unary(UnOp::I64Clz)
    }

    /// Translates `i64.ctz`.
    pub fn visit_i64_ctz(&mut self) -> (r: Result<(), TranslationError>)
        requires
            old(self).wf(),
            old(self)@.reachable ==> old(self)@.can_pop(1),
        ensures
            final(self).wf(),
            final(self).module == old(self).module,
            unary_outcome(old(self)@, UnOp::I64Ctz, final(self)@, r),
    {
        self.translate_exact_unary(UnOp::I64Ctz)
    }

    /// Translates `i64.popcnt`.
    pub fn visit_i64_popcnt(&mut self) -> (r: Result<(), TranslationError>)
        requires
            old(self).wf(),
            old(self)@.reachable ==> old(self)@.can_pop(1),
        ensures
            final(self).wf(),
            final(self).module == old(self).module,
            unary_outcome(old(self)@, UnOp::I64Popcnt, final(self)@, r),
    {
        self.translate_exact_unary(UnOp::I64Popcnt)
    }

    /// Translates `i32.extend8_s`.
    pub fn visit_i32_extend8_s(&mut self) -> (r: Result<(), TranslationError>)
        requires
            old(self).wf(),
            old(self)@.reachable ==> old(self)@.can_pop(1),
        ensures
            final(self).wf(),
            final(self).module == old(self).module,
            unary_outcome(old(self)@, UnOp::I32Extend8S, final(self)@, r),
    {
        self.translate_exact_unary(UnOp::I32Extend8S)
    }

    /// Translates `i32.extend16_s`.
    pub fn visit_i32_extend16_s(&mut self) -> (r: Result<(), TranslationError>)
        requires
            old(self).wf(),
            old(self)@.reachable ==> old(self)@.can_pop(1),
        ensures
            final(self).wf(),
            final(self).module == old(self).module,
            unary_outcome(old(self)@, UnOp::I32Extend16S, final(self)@, r),
    {
        self.translate_exact_unary(UnOp::I32Extend16S)
    }

    /// Translates `i64.extend8_s`.
    pub fn visit_i64_extend8_s(&mut self) -> (r: Result<(), TranslationError>)
        requires
            old(self).wf(),
            old(self)@.reachable ==> old(self)@.can_pop(1),
        ensures
            final(self).wf(),
            final(self).module == old(self).module,
            unary_outcome(old(self)@, UnOp::I64Extend8S, final(self)@, r),
    {
        self.translate_exact_unary(UnOp::I64Extend8S)
    }

    /// Translates `i64.extend16_s`.
    pub fn visit_i64_extend16_s(&mut self) -> (r: Result<(), TranslationError>)
        requires
            old(self).wf(),
            old(self)@.reachable ==> old(self)@.can_pop(1),
        ensures
            final(self).wf(),
            final(self).module == old(self).module,
            unary_outcome(old(self)@, UnOp::I64Extend16S, final(self)@, r),
    {
        self.translate_exact_unary(UnOp::I64Extend16S)
    }

    /// Translates `i64.extend32_s`.
    pub fn visit_i64_extend32_s(&mut self) -> (r: Result<(), TranslationError>)
        requires
            old(self).wf(),
            old(self)@.reachable ==> old(self)@.can_pop(1),
        ensures
            final(self).wf(),
            final(self).module == old(self).module,
            unary_outcome(old(self)@, UnOp::I64Extend32S, final(self)@, r),
    {
        self.translate_exact_unary(UnOp::I64Extend32S)
    }

    /// Translates `i32.wrap_i64`.
    pub fn visit_i32_wrap_i64(&mut self) -> (r: Result<(), TranslationError>)
        requires
            old(self).wf(),
            old(self)@.reachable ==> old(self)@.can_pop(1),
        ensures
            final(self).wf(),
            final(self).module == old(self).module,
            unary_outcome(old(self)@, UnOp::I32WrapI64, final(self)@, r),
    {
        self.translate_exact_unary(UnOp::I32WrapI64)
    }

    /// Translates `i64.extend_i32_s`.
    pub fn visit_i64_extend_i32_s(&mut self) -> (r: Result<(), TranslationError>)
        requires
            old(self).wf(),
            old(self)@.reachable ==> old(self)@.can_pop(1),
        ensures
            final(self).wf(),
            final(self).module == old(self).module,
            unary_outcome(old(self)@, UnOp::I64ExtendI32S, final(self)@, r),
    {
        self.translate_exact_unary(UnOp::I64ExtendI32S)
    }

    /// Translates `f32.abs`.
    pub fn visit_f32_abs(&mut self) -> (r: Result<(), TranslationError>)
        requires
            old(self).wf(),
            old(self)@.reachable ==> old(self)@.can_pop(1),
        ensures
            final(self).wf(),
            final(self).module == old(self).module,
            unary_outcome(old(self)@, UnOp::F32Abs, final(self)@, r),
    {
        self.translate_exact_unary(UnOp::F32Abs)
    }

    /// Translates `f32.neg`.
    pub fn visit_f32_neg(&mut self) -> (r: Result<(), TranslationError>)
        requires
            old(self).wf(),
            old(self)@.reachable ==> old(self)@.can_pop(1),
        ensures
            final(self).wf(),
            final(self).module == old(self).module,
            unary_outcome(old(self)@, UnOp::F32Neg, final(self)@, r),
    {
        self.translate_exact_unary(UnOp::F32Neg)
    }

    /// Translates `f64.abs`.
    pub fn visit_f64_abs(&mut self) -> (r: Result<(), TranslationError>)
        requires
            old(self).wf(),
            old(self)@.reachable ==> old(self)@.can_pop(1),
        ensures
            final(self).wf(),
            final(self).module == old(self).module,
            unary_outcome(old(self)@, UnOp::F64Abs, final(self)@, r),
    {
        self.translate_exact_unary(UnOp::F64Abs)
    }

    /// Translates `f64.neg`.
    pub fn visit_f64_neg(&mut self) -> (r: Result<(), TranslationError>)
        requires
            old(self).wf(),
            old(self)@.reachable ==> old(self)@.can_pop(1),
        ensures
            final(self).wf(),
            final(self).module == old(self).module,
            unary_outcome(old(self)@, UnOp::F64Neg, final(self)@, r),
    {
        self.translate_exact_unary(UnOp::F64Neg)
    }

    /// Translates `f32.ceil`.
    pub fn visit_f32_ceil(&mut self) -> (r: Result<Option<FloatFold>, TranslationError>)
        requires
            old(self).wf(),
            old(self)@.reachable ==> old(self)@.can_pop(1),
        ensures
            final(self).wf(),
            final(self).module == old(self).module,
            unary_fold_outcome(old(self)@, UnOp::Float(FloatUnOp::F32Ceil), final(self)@, r),
    {
        self.translate_unary(UnOp::Float(FloatUnOp::F32Ceil))
    }

    /// Translates `f32.floor`.
    pub fn visit_f32_floor(&mut self) -> (r: Result<Option<FloatFold>, TranslationError>)
        requires
            old(self).wf(),
            old(self)@.reachable ==> old(self)@.can_pop(1),
        ensures
            final(self).wf(),
            final(self).module == old(self).module,
            unary_fold_outcome(old(self)@, UnOp::Float(FloatUnOp::F32Floor), final(self)@, r),
    {
        self.translate_unary(UnOp::Float(FloatUnOp::F32Floor))
    }

    /// Translates `f32.trunc`.
    pub fn visit_f32_trunc(&mut self) -> (r: Result<Option<FloatFold>, TranslationError>)
        requires
            old(self).wf(),
            old(self)@.reachable ==> old(self)@.can_pop(1),
        ensures
            final(self).wf(),
            final(self).module == old(self).module,
            unary_fold_outcome(old(self)@, UnOp::Float(FloatUnOp::F32Trunc), final(self)@, r),
    {
        self.translate_unary(UnOp::Float(FloatUnOp::F32Trunc))
    }

    /// Translates `f32.nearest`.
    pub fn visit_f32_nearest(&mut self) -> (r: Result<Option<FloatFold>, TranslationError>)
        requires
            old(self).wf(),
            old(self)@.reachable ==> old(self)@.can_pop(1),
        ensures
            final(self).wf(),
            final(self).module == old(self).module,
            unary_fold_outcome(old(self)@, UnOp::Float(FloatUnOp::F32Nearest), final(self)@, r),
    {
        self.translate_unary(UnOp::Float(FloatUnOp::F32Nearest))
    }

    /// Translates `f32.sqrt`.
    pub fn visit_f32_sqrt(&mut self) -> (r: Result<Option<FloatFold>, TranslationError>)
        requires
            old(self).wf(),
            old(self)@.reachable ==> old(self)@.can_pop(1),
        ensures
            final(self).wf(),
            final(self).module == old(self).module,
            unary_fold_outcome(old(self)@, UnOp::Float(FloatUnOp::F32Sqrt), final(self)@, r),
    {
        self.translate_unary(UnOp::Float(FloatUnOp::F32Sqrt))
    }

    /// Translates `f64.ceil`.
    pub fn visit_f64_ceil(&mut self) -> (r: Result<Option<FloatFold>, TranslationError>)
        requires
            old(self).wf(),
            old(self)@.reachable ==> old(self)@.can_pop(1),
        ensures
            final(self).wf(),
            final(self).module == old(self).module,
            unary_fold_outcome(old(self)@, UnOp::Float(FloatUnOp::F64Ceil), final(self)@, r),
    {
        self.translate_unary(UnOp::Float(FloatUnOp::F64Ceil))
    }

    /// Translates `f64.floor`.
    pub fn visit_f64_floor(&mut self) -> (r: Result<Option<FloatFold>, TranslationError>)
        requires
            old(self).wf(),
            old(self)@.reachable ==> old(self)@.can_pop(1),
        ensures
            final(self).wf(),
            final(self).module == old(self).module,
            unary_fold_outcome(old(self)@, UnOp::Float(FloatUnOp::F64Floor), final(self)@, r),
    {
        self.translate_unary(UnOp::Float(FloatUnOp::F64Floor))
    }

    /// Translates `f64.trunc`.
    pub fn visit_f64_trunc(&mut self) -> (r: Result<Option<FloatFold>, TranslationError>)
        requires
            old(self).wf(),
            old(self)@.reachable ==> old(self)@.can_pop(1),
        ensures
            final(self).wf(),
            final(self).module == old(self).module,
            unary_fold_outcome(old(self)@, UnOp::Float(FloatUnOp::F64Trunc), final(self)@, r),
    {
        self.translate_unary(UnOp::Float(FloatUnOp::F64Trunc))
    }

    /// Translates `f64.nearest`.
    pub fn visit_f64_nearest(&mut self) -> (r: Result<Option<FloatFold>, TranslationError>)
        requires
            old(self).wf(),
            old(self)@.reachable ==> old(self)@.can_pop(1),
        ensures
            final(self).wf(),
            final(self).module == old(self).module,
            unary_fold_outcome(old(self)@, UnOp::Float(FloatUnOp::F64Nearest), final(self)@, r),
    {
        self.translate_unary(UnOp::Float(FloatUnOp::F64Nearest))
    }

    /// Translates `f64.sqrt`.
    pub fn visit_f64_sqrt(&mut self) -> (r: Result<Option<FloatFold>, TranslationError>)
        requires
            old(self).wf(),
            old(self)@.reachable ==> old(self)@.can_pop(1),
        ensures
            final(self).wf(),
            final(self).module == old(self).module,
            unary_fold_outcome(old(self)@, UnOp::Float(FloatUnOp::F64Sqrt), final(self)@, r),
    {
        self.translate_unary(UnOp::Float(FloatUnOp::F64Sqrt))
    }

    /// Translates `i32.trunc_f32_s`.
    pub fn visit_i32_trunc_f32_s(&mut self) -> (r: Result<Option<FloatFold>, TranslationError>)
        requires
            old(self).wf(),
            old(self)@.reachable ==> old(self)@.can_pop(1),
        ensures
            final(self).wf(),
            final(self).module == old(self).module,
            unary_fold_outcome(old(self)@, UnOp::Float(FloatUnOp::I32TruncF32S), final(self)@, r),
    {
        self.translate_unary(UnOp::Float(FloatUnOp::I32TruncF32S))
    }

    /// Translates `i32.trunc_f32_u`.
    pub fn visit_i32_trunc_f32_u(&mut self) -> (r: Result<Option<FloatFold>, TranslationError>)
        requires
            old(self).wf(),
            old(self)@.reachable ==> old(self)@.can_pop(1),
        ensures
            final(self).wf(),
            final(self).module == old(self).module,
            unary_fold_outcome(old(self)@, UnOp::Float(FloatUnOp::I32TruncF32U), final(self)@, r),
    {
        self.translate_unary(UnOp::Float(FloatUnOp::I32TruncF32U))
    }

    /// Translates `i32.trunc_f64_s`.
    pub fn visit_i32_trunc_f64_s(&mut self) -> (r: Result<Option<FloatFold>, TranslationError>)
        requires
            old(self).wf(),
            old(self)@.reachable ==> old(self)@.can_pop(1),
        ensures
            final(self).wf(),
            final(self).module == old(self).module,
            unary_fold_outcome(old(self)@, UnOp::Float(FloatUnOp::I32TruncF64S), final(self)@, r),
    {
        self.translate_unary(UnOp::Float(FloatUnOp::I32TruncF64S))
    }

    /// Translates `i32.trunc_f64_u`.
    pub fn visit_i32_trunc_f64_u(&mut self) -> (r: Result<Option<FloatFold>, TranslationError>)
        requires
            old(self).wf(),
            old(self)@.reachable ==> old(self)@.can_pop(1),
        ensures
            final(self).wf(),
            final(self).module == old(self).module,
            unary_fold_outcome(old(self)@, UnOp::Float(FloatUnOp::I32TruncF64U), final(self)@, r),
    {
        self.translate_unary(UnOp::Float(FloatUnOp::I32TruncF64U))
    }

    /// Translates `i64.trunc_f32_s`.
    pub fn visit_i64_trunc_f32_s(&mut self) -> (r: Result<Option<FloatFold>, TranslationError>)
        requires
            old(self).wf(),
            old(self)@.reachable ==> old(self)@.can_pop(1),
        ensures
            final(self).wf(),
            final(self).module == old(self).module,
            unary_fold_outcome(old(self)@, UnOp::Float(FloatUnOp::I64TruncF32S), final(self)@, r),
    {
        self.translate_unary(UnOp::Float(FloatUnOp::I64TruncF32S))
    }

    /// Translates `i64.trunc_f32_u`.
    pub fn visit_i64_trunc_f32_u(&mut self) -> (r: Result<Option<FloatFold>, TranslationError>)
        requires
            old(self).wf(),
            old(self)@.reachable ==> old(self)@.can_pop(1),
        ensures
            final(self).wf(),
            final(self).module == old(self).module,
            unary_fold_outcome(old(self)@, UnOp::Float(FloatUnOp::I64TruncF32U), final(self)@, r),
    {
        self.translate_unary(UnOp::Float(FloatUnOp::I64TruncF32U))
    }

    /// Translates `i64.trunc_f64_s`.
    pub fn visit_i64_trunc_f64_s(&mut self) -> (r: Result<Option<FloatFold>, TranslationError>)
        requires
            old(self).wf(),
            old(self)@.reachable ==> old(self)@.can_pop(1),
        ensures
            final(self).wf(),
            final(self).module == old(self).module,
            unary_fold_outcome(old(self)@, UnOp::Float(FloatUnOp::I64TruncF64S), final(self)@, r),
    {
        self.translate_unary(UnOp::Float(FloatUnOp::I64TruncF64S))
    }

    /// Translates `i64.trunc_f64_u`.
    pub fn visit_i64_trunc_f64_u(&mut self) -> (r: Result<Option<FloatFold>, TranslationError>)
        requires
            old(self).wf(),
            old(self)@.reachable ==> old(self)@.can_pop(1),
        ensures
            final(self).wf(),
            final(self).module == old(self).module,
            unary_fold_outcome(old(self)@, UnOp::Float(FloatUnOp::I64TruncF64U), final(self)@, r),
    {
        self.translate_unary(UnOp::Float(FloatUnOp::I64TruncF64U))
    }

    /// Translates `i32.trunc_sat_f32_s`.
    pub fn visit_i32_trunc_sat_f32_s(&mut self) -> (r: Result<Option<FloatFold>, TranslationError>)
        requires
            old(self).wf(),
            old(self)@.reachable ==> old(self)@.can_pop(1),
        ensures
            final(self).wf(),
            final(self).module == old(self).module,
            unary_fold_outcome(old(self)@, UnOp::Float(FloatUnOp::I32TruncSatF32S), final(self)@, r),
    {
        self.translate_unary(UnOp::Float(FloatUnOp::I32TruncSatF32S))
    }

    /// Translates `i32.trunc_sat_f32_u`.
    pub fn visit_i32_trunc_sat_f32_u(&mut self) -> (r: Result<Option<FloatFold>, TranslationError>)
        requires
            old(self).wf(),
            old(self)@.reachable ==> old(self)@.can_pop(1),
        ensures
            final(self).wf(),
            final(self).module == old(self).module,
            unary_fold_outcome(old(self)@, UnOp::Float(FloatUnOp::I32TruncSatF32U), final(self)@, r),
    {
        self.translate_unary(UnOp::Float(FloatUnOp::I32TruncSatF32U))
    }

    /// Translates `i32.trunc_sat_f64_s`.
    pub fn visit_i32_trunc_sat_f64_s(&mut self) -> (r: Result<Option<FloatFold>, TranslationError>)
        requires
            old(self).wf(),
            old(self)@.reachable ==> old(self)@.can_pop(1),
        ensures
            final(self).wf(),
            final(self).module == old(self).module,
            unary_fold_outcome(old(self)@, UnOp::Float(FloatUnOp::I32TruncSatF64S), final(self)@, r),
    {
        self.translate_unary(UnOp::Float(FloatUnOp::I32TruncSatF64S))
    }

    /// Translates `i32.trunc_sat_f64_u`.
    pub fn visit_i32_trunc_sat_f64_u(&mut self) -> (r: Result<Option<FloatFold>, TranslationError>)
        requires
            old(self).wf(),
            old(self)@.reachable ==> old(self)@.can_pop(1),
        ensures
            final(self).wf(),
            final(self).module == old(self).module,
            unary_fold_outcome(old(self)@, UnOp::Float(FloatUnOp::I32TruncSatF64U), final(self)@, r),
    {
        self.translate_unary(UnOp::Float(FloatUnOp::I32TruncSatF64U))
    }

    /// Translates `i64.trunc_sat_f32_s`.
    pub fn visit_i64_trunc_sat_f32_s(&mut self) -> (r: Result<Option<FloatFold>, TranslationError>)
        requires
            old(self).wf(),
            old(self)@.reachable ==> old(self)@.can_pop(1),
        ensures
            final(self).wf(),
            final(self).module == old(self).module,
            unary_fold_outcome(old(self)@, UnOp::Float(FloatUnOp::I64TruncSatF32S), final(self)@, r),
    {
        self.translate_unary(UnOp::Float(FloatUnOp::I64TruncSatF32S))
    }

    /// Translates `i64.trunc_sat_f32_u`.
    pub fn visit_i64_trunc_sat_f32_u(&mut self) -> (r: Result<Option<FloatFold>, TranslationError>)
        requires
            old(self).wf(),
            old(self)@.reachable ==> old(self)@.can_pop(1),
        ensures
            final(self).wf(),
            final(self).module == old(self).module,
            unary_fold_outcome(old(self)@, UnOp::Float(FloatUnOp::I64TruncSatF32U), final(self)@, r),
    {
        self.translate_unary(UnOp::Float(FloatUnOp::I64TruncSatF32U))
    }

    /// Translates `i64.trunc_sat_f64_s`.
    pub fn visit_i64_trunc_sat_f64_s(&mut self) -> (r: Result<Option<FloatFold>, TranslationError>)
        requires
            old(self).wf(),
            old(self)@.reachable ==> old(self)@.can_pop(1),
        ensures
            final(self).wf(),
            final(self).module == old(self).module,
            unary_fold_outcome(old(self)@, UnOp::Float(FloatUnOp::I64TruncSatF64S), final(self)@, r),
    {
        self.translate_unary(UnOp::Float(FloatUnOp::I64TruncSatF64S))
    }

    /// Translates `i64.trunc_sat_f64_u`.
    pub fn visit_i64_trunc_sat_f64_u(&mut self) -> (r: Result<Option<FloatFold>, TranslationError>)
        requires
            old(self).wf(),
            old(self)@.reachable ==> old(self)@.can_pop(1),
        ensures
            final(self).wf(),
            final(self).module == old(self).module,
            unary_fold_outcome(old(self)@, UnOp::Float(FloatUnOp::I64TruncSatF64U), final(self)@, r),
    {
        self.translate_unary(UnOp::Float(FloatUnOp::I64TruncSatF64U))
    }

    /// Translates `f32.convert_i32_s`.
    pub fn visit_f32_convert_i32_s(&mut self) -> (r: Result<Option<FloatFold>, TranslationError>)
        requires
            old(self).wf(),
            old(self)@.reachable ==> old(self)@.can_pop(1),
        ensures
            final(self).wf(),
            final(self).module == old(self).module,
            unary_fold_outcome(old(self)@, UnOp::Float(FloatUnOp::F32ConvertI32S), final(self)@, r),
    {
        self.translate_unary(UnOp::Float(FloatUnOp::F32ConvertI32S))
    }

    /// Translates `f32.convert_i32_u`.
    pub fn visit_f32_convert_i32_u(&mut self) -> (r: Result<Option<FloatFold>, TranslationError>)
        requires
            old(self).wf(),
            old(self)@.reachable ==> old(self)@.can_pop(1),
        ensures
            final(self).wf(),
            final(self).module == old(self).module,
            unary_fold_outcome(old(self)@, UnOp::Float(FloatUnOp::F32ConvertI32U), final(self)@, r),
    {
        self.translate_unary(UnOp::Float(FloatUnOp::F32ConvertI32U))
    }

    /// Translates `f32.convert_i64_s`.
    pub fn visit_f32_convert_i64_s(&mut self) -> (r: Result<Option<FloatFold>, TranslationError>)
        requires
            old(self).wf(),
            old(self)@.reachable ==> old(self)@.can_pop(1),
        ensures
            final(self).wf(),
            final(self).module == old(self).module,
            unary_fold_outcome(old(self)@, UnOp::Float(FloatUnOp::F32ConvertI64S), final(self)@, r),
    {
        self.translate_unary(UnOp::Float(FloatUnOp::F32ConvertI64S))
    }

    /// Translates `f32.convert_i64_u`.
    pub fn visit_f32_convert_i64_u(&mut self) -> (r: Result<Option<FloatFold>, TranslationError>)
        requires
            old(self).wf(),
            old(self)@.reachable ==> old(self)@.can_pop(1),
        ensures
            final(self).wf(),
            final(self).module == old(self).module,
            unary_fold_outcome(old(self)@, UnOp::Float(FloatUnOp::F32ConvertI64U), final(self)@, r),
    {
        self.translate_unary(UnOp::Float(FloatUnOp::F32ConvertI64U))
    }

    /// Translates `f64.convert_i32_s`.
    pub fn visit_f64_convert_i32_s(&mut self) -> (r: Result<Option<FloatFold>, TranslationError>)
        requires
            old(self).wf(),
            old(self)@.reachable ==> old(self)@.can_pop(1),
        ensures
            final(self).wf(),
            final(self).module == old(self).module,
            unary_fold_outcome(old(self)@, UnOp::Float(FloatUnOp::F64ConvertI32S), final(self)@, r),
    {
        self.translate_unary(UnOp::Float(FloatUnOp::F64ConvertI32S))
    }

    /// Translates `f64.convert_i32_u`.
    pub fn visit_f64_convert_i32_u(&mut self) -> (r: Result<Option<FloatFold>, TranslationError>)
        requires
            old(self).wf(),
            old(self)@.reachable ==> old(self)@.can_pop(1),
        ensures
            final(self).wf(),
            final(self).module == old(self).module,
            unary_fold_outcome(old(self)@, UnOp::Float(FloatUnOp::F64ConvertI32U), final(self)@, r),
    {
        self.translate_unary(UnOp::Float(FloatUnOp::F64ConvertI32U))
    }

    /// Translates `f64.convert_i64_s`.
    pub fn visit_f64_convert_i64_s(&mut self) -> (r: Result<Option<FloatFold>, TranslationError>)
        requires
            old(self).wf(),
            old(self)@.reachable ==> old(self)@.can_pop(1),
        ensures
            final(self).wf(),
            final(self).module == old(self).module,
            unary_fold_outcome(old(self)@, UnOp::Float(FloatUnOp::F64ConvertI64S), final(self)@, r),
    {
        self.translate_unary(UnOp::Float(FloatUnOp::F64ConvertI64S))
    }

    /// Translates `f64.convert_i64_u`.
    pub fn visit_f64_convert_i64_u(&mut self) -> (r: Result<Option<FloatFold>, TranslationError>)
        requires
            old(self).wf(),
            old(self)@.reachable ==> old(self)@.can_pop(1),
        ensures
            final(self).wf(),
            final(self).module == old(self).module,
            unary_fold_outcome(old(self)@, UnOp::Float(FloatUnOp::F64ConvertI64U), final(self)@, r),
    {
        self.translate_unary(UnOp::Float(FloatUnOp::F64ConvertI64U))
    }

    /// Translates `f32.demote_f64`.
    pub fn visit_f32_demote_f64(&mut self) -> (r: Result<Option<FloatFold>, TranslationError>)
        requires
            old(self).wf(),
            old(self)@.reachable ==> old(self)@.can_pop(1),
        ensures
            final(self).wf(),
            final(self).module == old(self).module,
            unary_fold_outcome(old(self)@, UnOp::Float(FloatUnOp::F32DemoteF64), final(self)@, r),
    {
        self.translate_unary(UnOp::Float(FloatUnOp::F32DemoteF64))
    }

    /// Translates `f64.promote_f32`.
    pub fn visit_f64_promote_f32(&mut self) -> (r: Result<Option<FloatFold>, TranslationError>)
        requires
            old(self).wf(),
            old(self)@.reachable ==> old(self)@.can_pop(1),
        ensures
            final(self).wf(),
            final(self).module == old(self).module,
            unary_fold_outcome(old(self)@, UnOp::Float(FloatUnOp::F64PromoteF32), final(self)@, r),
    {
        self.translate_unary(UnOp::Float(FloatUnOp::F64PromoteF32))
    }

    /// Translates `i32.reinterpret_f32`.
    pub fn visit_i32_reinterpret_f32(&mut self) -> (r: Result<(), TranslationError>)
        requires
            old(self).wf(),
            old(self)@.reachable ==> old(self)@.can_pop(1),
        ensures
            final(self).wf(),
            final(self).module == old(self).module,
            r == Ok::<(), TranslationError>(()) && final(self)@ == old(self)@.reinterpret(ValType::I32),
    {
        self.translate_reinterpret(ValType::I32)
    }

    /// Translates `i64.reinterpret_f64`.
    pub fn visit_i64_reinterpret_f64(&mut self) -> (r: Result<(), TranslationError>)
        requires
            old(self).wf(),
            old(self)@.reachable ==> old(self)@.can_pop(1),
        ensures
            final(self).wf(),
            final(self).module == old(self).module,
            r == Ok::<(), TranslationError>(()) && final(self)@ == old(self)@.reinterpret(ValType::I64),
    {
        self.translate_reinterpret(ValType::I64)
    }

    /// Translates `f32.reinterpret_i32`.
    pub fn visit_f32_reinterpret_i32(&mut self) -> (r: Result<(), TranslationError>)
        requires
            old(self).wf(),
            old(self)@.reachable ==> old(self)@.can_pop(1),
        ensures
            final(self).wf(),
            final(self).module == old(self).module,
            r == Ok::<(), TranslationError>(()) && final(self)@ == old(self)@.reinterpret(ValType::F32),
    {
        self.translate_reinterpret(ValType::F32)
    }

    /// Translates `f64.reinterpret_i64`.
    pub fn visit_f64_reinterpret_i64(&mut self) -> (r: Result<(), TranslationError>)
        requires
            old(self).wf(),
            old(self)@.reachable ==> old(self)@.can_pop(1),
        ensures
            final(self).wf(),
            final(self).module == old(self).module,
            r == Ok::<(), TranslationError>(()) && final(self)@ == old(self)@.reinterpret(ValType::F64),
    {
        self.translate_reinterpret(ValType::F64)
    }

    /// Translates `i64.extend_i32_u`.
    pub fn visit_i64_extend_i32_u(&mut self) -> (r: Result<(), TranslationError>)
        requires
            old(self).wf(),
            old(self)@.reachable ==> old(self)@.can_pop(1),
        ensures
            final(self).wf(),
            final(self).module == old(self).module,
            r == Ok::<(), TranslationError>(()) && final(self)@ == old(self)@.reinterpret(ValType::I64),
    {
        self.translate_reinterpret(ValType::I64)
    }
}

} // verus!
