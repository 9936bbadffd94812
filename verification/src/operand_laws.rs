//! What individual translations mean: which operand each instruction reads,
//! how the immediates of shifts and narrow stores act, where `br_table` on a
//! constant goes, and when the code after `end` is reachable.
use vstd::prelude::*;
use crate::control::lemma_copies_shape;
use crate::ir::Instruction;
use crate::memory::IndexType;
use crate::memory_ops::{IndexArg, StoreImm, store_imm16, effective_address};
use crate::ir::{LoadOp, StoreOp};
use crate::ops::TrapCode;
use crate::numeric::{is_shift, shift_amount, is_int_sub, add_of, negated, is_copysign, float_sign_negative};
use crate::ops::{BinOp, IntBinOp, UnOp, Folded, eval_i32, eval_i64, fold_binary, fold_unary, lo32};
use crate::numeric::FloatFold;
use crate::simplify::{Simplify, simplify_reg_imm, simplify_same, imm16, reads_unsigned, is_swapped,
    encoded_op, lemma_swapped_encoding};
use crate::translator::{TState, FrameKind, IfReachability, reg_space};
use crate::value::{Provider, Reg, TypedVal, ValType, pow32, pow64, s32, s64};
use crate::variables::signed_imm16;
use crate::ir::WideOp;
use crate::wide::{eval128, eval_mul_wide, join128, pow128};

verus! {

/// In state `t`, register `r` reads the value of provider `p`: `p` is that
/// register, or a constant that `r` refers to as a function-local constant.
pub open spec fn reads(t: TState, r: Reg, p: Provider) -> bool {
    match p {
        Provider::Register(x) => r == x,
        Provider::Const(v) => -t.consts.len() <= r.0 < 0 && t.consts[-1 - r.0] == v,
    }
}

/// The function-local constants of `s` are still those of `t`, at the same
/// registers.
pub open spec fn consts_kept(s: TState, t: TState) -> bool {
    &&& s.consts.len() <= t.consts.len()
    &&& forall|i: int| 0 <= i < s.consts.len() ==> t.consts[i] == s.consts[i]
}

/// A register keeps reading a provider while the constants are kept.
proof fn lemma_reads_kept(s: TState, t: TState, r: Reg, p: Provider)
    requires
        reads(s, r, p),
        consts_kept(s, t),
    ensures
        reads(t, r, p),
{
}

/// The register of a provider reads it, and making a constant a
/// function-local constant keeps the others.
proof fn lemma_provider_reg_reads(s: TState, p: Provider)
    requires
        s.consts.len() <= reg_space(),
        s.provider_reg(p) is Ok,
    ensures
        ({
            let (t, r) = s.provider_reg(p)->Ok_0;
            &&& reads(t, r, p)
            &&& consts_kept(s, t)
            &&& t.consts.len() <= reg_space()
            &&& t == TState { consts: t.consts, ..s }
        }),
{
    if let Provider::Const(v) = p {
        s.consts.index_of_first_ensures(v);
        if !s.consts.contains(v) {
            assert(s.consts.push(v)[s.consts.len() as int] == v);
        }
    }
}

/// The index that a constant index operand stands for.
pub open spec fn index_value(v: TypedVal, ty: IndexType) -> u64 {
    if ty == IndexType::I64 {
        v.bits
    } else {
        lo32(v.bits) as u64
    }
}

/// `memory.copy` copies `len` bytes from the address given by its second
/// operand to the address given by its first: the emitted instruction reads
/// its destination from the deepest of the three operands, its source from
/// the middle one and its length from the top one, and names the
/// destination memory before the source memory.
#[verifier::spinoff_prover]
pub proof fn lemma_memory_copy_operands(s: TState, dst_memory: u32, src_memory: u32, ty: IndexType)
    requires
        s.wf(),
        s.reachable,
        s.stack.len() >= 3,
        s.memory_copy(dst_memory, src_memory, ty) is Ok,
    ensures
        ({
            let t = s.memory_copy(dst_memory, src_memory, ty)->Ok_0;
            let n = s.stack.len();
            let k = t.instrs.len();
            &&& k >= 3
            &&& t.instrs[k - 2] == Instruction::MemoryIndex { index: dst_memory }
            &&& t.instrs[k - 1] == Instruction::MemoryIndex { index: src_memory }
            &&& match t.instrs[k - 3] {
                Instruction::MemoryCopy { dst, src, len } => reads(t, dst, s.stack[n - 3]) && reads(
                    t,
                    src,
                    s.stack[n - 2],
                ) && reads(t, len, s.stack[n - 1]),
                Instruction::MemoryCopyImm { dst, src, len } => reads(t, dst, s.stack[n - 3]) && reads(
                    t,
                    src,
                    s.stack[n - 2],
                ) && s.stack[n - 1] is Const && len as u64 == index_value(s.stack[n - 1]->Const_0, ty),
                _ => false,
            }
        }),
{
    let n = s.stack.len();
    let (s0, dst, src, len) = s.pop3();
    assert(s0.consts == s.consts);
    lemma_provider_reg_reads(s0, dst);
    let (s1, d) = s0.provider_reg(dst)->Ok_0;
    lemma_provider_reg_reads(s1, src);
    let (s2, sr) = s1.provider_reg(src)->Ok_0;
    lemma_reads_kept(s1, s2, d, dst);
    let len_arg = s2.index_arg(len, ty, 0xffff);
    if let Provider::Const(v) = len {
        if index_value(v, ty) > 0xffff {
            lemma_provider_reg_reads(s2, len);
        }
    }
    let (s3, l) = len_arg->Ok_0;
    lemma_reads_kept(s2, s3, d, dst);
    lemma_reads_kept(s2, s3, sr, src);
}

/// `table.copy` reads its destination index from the deepest of the three
/// operands, its source index from the middle one and its length from the
/// top one, and names the destination table before the source table.
#[verifier::spinoff_prover]
pub proof fn lemma_table_copy_operands(s: TState, dst_table: u32, src_table: u32, ty: IndexType)
    requires
        s.wf(),
        s.reachable,
        s.stack.len() >= 3,
        s.table_copy(dst_table, src_table, ty) is Ok,
    ensures
        ({
            let t = s.table_copy(dst_table, src_table, ty)->Ok_0;
            let n = s.stack.len();
            let k = t.instrs.len();
            &&& k >= 3
            &&& t.instrs[k - 2] == Instruction::TableIndex { index: dst_table }
            &&& t.instrs[k - 1] == Instruction::TableIndex { index: src_table }
            &&& match t.instrs[k - 3] {
                Instruction::TableCopy { dst, src, len } => reads(t, dst, s.stack[n - 3]) && reads(
                    t,
                    src,
                    s.stack[n - 2],
                ) && reads(t, len, s.stack[n - 1]),
                Instruction::TableCopyImm { dst, src, len } => reads(t, dst, s.stack[n - 3]) && reads(
                    t,
                    src,
                    s.stack[n - 2],
                ) && s.stack[n - 1] is Const && len as u64 == index_value(s.stack[n - 1]->Const_0, ty),
                _ => false,
            }
        }),
{
    let n = s.stack.len();
    let (s0, dst, src, len) = s.pop3();
    assert(s0.consts == s.consts);
    lemma_provider_reg_reads(s0, dst);
    let (s1, d) = s0.provider_reg(dst)->Ok_0;
    lemma_provider_reg_reads(s1, src);
    let (s2, sr) = s1.provider_reg(src)->Ok_0;
    lemma_reads_kept(s1, s2, d, dst);
    let len_arg = s2.index_arg(len, ty, 0xffff);
    if let Provider::Const(v) = len {
        if index_value(v, ty) > 0xffff {
            lemma_provider_reg_reads(s2, len);
        }
    }
    let (s3, l) = len_arg->Ok_0;
    lemma_reads_kept(s2, s3, d, dst);
    lemma_reads_kept(s2, s3, sr, src);
}

/// The amount that a shift or rotation by the constant `c` encodes acts,
/// on every value, as the constant itself: Wasm reads a shift amount
/// modulo the operand width.
pub proof fn lemma_shift_amount_acts_as_constant(op: BinOp, c: u64, v: u64)
    requires
        is_shift(op),
    ensures
        0 <= shift_amount(op, c) < 64,
        fold_binary(op, v, shift_amount(op, c) as u64) == fold_binary(op, v, c),
{
    let a = shift_amount(op, c);
    match op {
        BinOp::I32(o) => {
            assert(lo32(a as u64) == a);
            assert(lo32(a as u64) % 32 == lo32(c) % 32);
        },
        _ => {
            assert((a as u64) % 64 == c % 64);
        },
    }
}

/// A shift or rotation of a register by a constant that is not simplified
/// away is one instruction with an immediate amount, which acts on every
/// value of the register as the constant does.
pub proof fn lemma_shift_by_constant(s: TState, op: BinOp, x: Reg, c: TypedVal)
    requires
        s.reachable,
        s.stack.len() >= 2,
        is_shift(op),
        s.stack[s.stack.len() - 2] == Provider::Register(x),
        s.stack.last() == Provider::Const(c),
        simplify_reg_imm(op, c.bits) == Simplify::Keep,
        s.binary(op) is Ok,
    ensures
        ({
            let t = s.binary(op)->Ok_0.0;
            &&& t.instrs.len() > 0
            &&& t.instrs.last() matches Instruction::BinaryImm16Rhs { op: o, result: _, lhs, rhs } && o == op
                && lhs == x && 0 <= rhs && forall|v: u64|
                #![trigger fold_binary(op, v, rhs as u64)]
                fold_binary(op, v, rhs as u64) == fold_binary(op, v, c.bits)
        }),
{
    let s1 = s.pop();
    assert(s1.stack.last() == Provider::Register(x));
    assert forall|v: u64| #![trigger fold_binary(op, v, shift_amount(op, c.bits) as u64)]
        fold_binary(op, v, shift_amount(op, c.bits) as u64) == fold_binary(op, v, c.bits) by {
        lemma_shift_amount_acts_as_constant(op, c.bits, v);
    }
    lemma_shift_amount_acts_as_constant(op, c.bits, 0);
}

/// The 16-bit immediate of a store of the constant `bits` stores the same
/// bytes as the constant: an 8-bit store keeps its low byte, a 16-bit store
/// its low 16 bits, a 32-bit store its low 32 bits and a 64-bit store all of
/// it; a 32-bit or 64-bit constant is taken exactly when its signed value
/// fits 16 bits, narrow stores always take one, and float stores never do.
pub proof fn lemma_store_imm16_keeps_stored_bits(k: StoreImm, bits: u64)
    ensures
        store_imm16(k, bits) matches Some(i) ==> -0x8000 <= i < 0x8000,
        k == StoreImm::Never ==> store_imm16(k, bits) is None,
        k == StoreImm::Byte ==> (store_imm16(k, bits) matches Some(i) && -0x80 <= i < 0x80 && (i as int)
            % 0x100 == (bits as int) % 0x100),
        k == StoreImm::Half ==> (store_imm16(k, bits) matches Some(i) && (i as int) % 0x1_0000 == (bits as int)
            % 0x1_0000),
        k == StoreImm::Word ==> (store_imm16(k, bits) is Some <==> -0x8000 <= s32(lo32(bits)) < 0x8000),
        k == StoreImm::Word ==> (store_imm16(k, bits) matches Some(i) ==> (i as int) % pow32() == (bits as int)
            % pow32()),
        k == StoreImm::Double ==> (store_imm16(k, bits) is Some <==> -0x8000 <= s64(bits) < 0x8000),
        k == StoreImm::Double ==> (store_imm16(k, bits) matches Some(i) ==> (i as int) % pow64() == bits as int),
{
    assert(pow32() == 0x1_0000_0000);
    assert(pow64() == 0x1_0000_0000_0000_0000);
}

/// `br_table` on a constant index `i` is translated as `br` to the `i`-th
/// target once the index is popped, and as `br` to the default when `i` is
/// not below the number of targets.
pub proof fn lemma_br_table_constant(s: TState, targets: Seq<u32>, default: u32, v: TypedVal)
    requires
        s.reachable,
        s.stack.len() > 0,
        s.stack.last() == Provider::Const(v),
    ensures
        lo32(v.bits) < targets.len() ==> s.br_table(targets, default) == s.pop().br(
            targets[lo32(v.bits) as int] as nat,
        ),
        lo32(v.bits) >= targets.len() ==> s.br_table(targets, default) == s.pop().br(default as nat),
{
}

/// Whether the code after `end` is reachable, for a frame inside the
/// function body: after a `loop` as before it; after a `block` when its end
/// is reached by falling through or by a branch; after an `if` with both
/// branches reachable and a visited `else` when the end of either branch is
/// reachable or a branch targets the `if`; after an `if` with both branches
/// reachable and no `else` always (the missing `else` falls through); after
/// an `if` whose condition was a constant when the end of its taken branch
/// is reachable or a branch targets the `if`.
#[verifier::spinoff_prover]
pub proof fn lemma_end_reachability(s: TState)
    requires
        s.wf(),
        s.frames.len() > 1,
        !s.frames.last().in_unreachable_code,
        s.end() is Ok,
    ensures
        ({
            let f = s.frames.last();
            let r = s.end()->Ok_0.reachable;
            let then_end = match f.end_of_then_reachable {
                Some(b) => b,
                None => s.reachable,
            };
            &&& s.end()->Ok_0.frames == s.frames.drop_last()
            &&& f.kind == FrameKind::Loop ==> r == s.reachable
            &&& f.kind == FrameKind::Block ==> r == (s.reachable || f.branched_to)
            &&& f.kind == FrameKind::If && f.reachability is Both && f.visited_else ==> r == (then_end
                || s.reachable || f.branched_to)
            &&& f.kind == FrameKind::If && f.reachability is Both && !f.visited_else ==> r
            &&& f.kind == FrameKind::If && f.reachability == IfReachability::OnlyThen ==> r == (then_end
                || f.branched_to)
            &&& f.kind == FrameKind::If && f.reachability == IfReachability::OnlyElse ==> r == (s.reachable
                || !f.visited_else || f.branched_to)
        }),
{
    let f = s.frames.last();
    let n = f.len_branch_params;
    if f.kind != FrameKind::Loop {
        match f.kind {
            FrameKind::If => {
                if let IfReachability::Both(else_label) = f.reachability {
                    if f.visited_else {
                        if s.reachable {
                            lemma_copies_shape(s, f.branch_params.0 as int, s.top_values(n));
                        }
                    } else {
                        let bp = f.branch_params.0 as int;
                        let s1 = if s.reachable && n >= 1 {
                            lemma_copies_shape(s, bp, s.top_values(n));
                            let sc = s.copies(bp, s.top_values(n))->Ok_0;
                            sc.charge_to_parent().push_fueled(Instruction::Branch { target: f.label }, crate::translator::FuelKind::Base)->Ok_0
                        } else {
                            s.charge_to_parent()
                        };
                        let s2 = s1.pin_label(else_label);
                        if n >= 1 {
                            lemma_copies_shape(s2, bp, f.else_providers);
                        }
                    }
                } else if s.end_fallthrough() && f.branched_to {
                    lemma_copies_shape(s, f.branch_params.0 as int, s.top_values(n));
                }
            },
            _ => {
                if s.end_fallthrough() && f.branched_to {
                    lemma_copies_shape(s, f.branch_params.0 as int, s.top_values(n));
                }
            },
        }
    }
}

/// An index operand encoded as the immediate `x` was the constant that
/// stands for the index `x`.
pub open spec fn imm_index(x: u64, p: Provider, ty: IndexType) -> bool {
    p is Const && x == index_value(p->Const_0, ty)
}

/// `memory.init` reads the destination address from the deepest of its
/// three operands, the offset into the data segment from the middle one
/// and the length from the top one, and names the memory and then the
/// data segment.
#[verifier::spinoff_prover]
pub proof fn lemma_memory_init_operands(s: TState, data: u32, memory: u32)
    requires
        s.wf(),
        s.reachable,
        s.stack.len() >= 3,
        s.memory_init(data, memory) is Ok,
    ensures
        ({
            let t = s.memory_init(data, memory)->Ok_0;
            let n = s.stack.len();
            let k = t.instrs.len();
            &&& k >= 3
            &&& t.instrs[k - 2] == Instruction::MemoryIndex { index: memory }
            &&& t.instrs[k - 1] == Instruction::DataIndex { index: data }
            &&& match t.instrs[k - 3] {
                Instruction::MemoryInit { dst, src, len } => reads(t, dst, s.stack[n - 3]) && reads(
                    t,
                    src,
                    s.stack[n - 2],
                ) && reads(t, len, s.stack[n - 1]),
                Instruction::MemoryInitImm { dst, src, len } => reads(t, dst, s.stack[n - 3]) && reads(
                    t,
                    src,
                    s.stack[n - 2],
                ) && imm_index(len as u64, s.stack[n - 1], IndexType::I32),
                _ => false,
            }
        }),
{
    let (s0, dst, src, len) = s.pop3();
    assert(s0.consts == s.consts);
    lemma_provider_reg_reads(s0, dst);
    let (s1, d) = s0.provider_reg(dst)->Ok_0;
    lemma_provider_reg_reads(s1, src);
    let (s2, sr) = s1.provider_reg(src)->Ok_0;
    lemma_reads_kept(s1, s2, d, dst);
    let len_arg = s2.index_arg(len, IndexType::I32, 0xffff);
    if let Provider::Const(v) = len {
        if index_value(v, IndexType::I32) > 0xffff {
            lemma_provider_reg_reads(s2, len);
        }
    }
    let (s3, l) = len_arg->Ok_0;
    lemma_reads_kept(s2, s3, d, dst);
    lemma_reads_kept(s2, s3, sr, src);
}

/// `table.init` reads the destination index from the deepest of its three
/// operands, the offset into the element segment from the middle one and
/// the length from the top one, and names the table and then the element
/// segment.
#[verifier::spinoff_prover]
pub proof fn lemma_table_init_operands(s: TState, elem: u32, table: u32)
    requires
        s.wf(),
        s.reachable,
        s.stack.len() >= 3,
        s.table_init(elem, table) is Ok,
    ensures
        ({
            let t = s.table_init(elem, table)->Ok_0;
            let n = s.stack.len();
            let k = t.instrs.len();
            &&& k >= 3
            &&& t.instrs[k - 2] == Instruction::TableIndex { index: table }
            &&& t.instrs[k - 1] == Instruction::ElemIndex { index: elem }
            &&& match t.instrs[k - 3] {
                Instruction::TableInit { dst, src, len } => reads(t, dst, s.stack[n - 3]) && reads(
                    t,
                    src,
                    s.stack[n - 2],
                ) && reads(t, len, s.stack[n - 1]),
                Instruction::TableInitImm { dst, src, len } => reads(t, dst, s.stack[n - 3]) && reads(
                    t,
                    src,
                    s.stack[n - 2],
                ) && imm_index(len as u64, s.stack[n - 1], IndexType::I32),
                _ => false,
            }
        }),
{
    let (s0, dst, src, len) = s.pop3();
    assert(s0.consts == s.consts);
    lemma_provider_reg_reads(s0, dst);
    let (s1, d) = s0.provider_reg(dst)->Ok_0;
    lemma_provider_reg_reads(s1, src);
    let (s2, sr) = s1.provider_reg(src)->Ok_0;
    lemma_reads_kept(s1, s2, d, dst);
    let len_arg = s2.index_arg(len, IndexType::I32, 0xffff);
    if let Provider::Const(v) = len {
        if index_value(v, IndexType::I32) > 0xffff {
            lemma_provider_reg_reads(s2, len);
        }
    }
    let (s3, l) = len_arg->Ok_0;
    lemma_reads_kept(s2, s3, d, dst);
    lemma_reads_kept(s2, s3, sr, src);
}

/// `memory.fill` reads the destination address from the deepest of its
/// three operands, the fill value from the middle one and the length from
/// the top one; a constant fill value is its low byte, which is what Wasm
/// stores.
#[verifier::spinoff_prover]
pub proof fn lemma_memory_fill_operands(s: TState, memory: u32, ty: IndexType)
    requires
        s.wf(),
        s.reachable,
        s.stack.len() >= 3,
        s.memory_fill(memory, ty) is Ok,
    ensures
        ({
            let t = s.memory_fill(memory, ty)->Ok_0;
            let n = s.stack.len();
            let k = t.instrs.len();
            let value = s.stack[n - 2];
            &&& k >= 2
            &&& t.instrs[k - 1] == Instruction::MemoryIndex { index: memory }
            &&& match t.instrs[k - 2] {
                Instruction::MemoryFill { dst, value: v, len } => reads(t, dst, s.stack[n - 3])
                    && value == Provider::Register(v) && reads(t, len, s.stack[n - 1]),
                Instruction::MemoryFillExact { dst, value: v, len } => reads(t, dst, s.stack[n - 3])
                    && value == Provider::Register(v) && imm_index(len as u64, s.stack[n - 1], ty),
                Instruction::MemoryFillImm { dst, value: b, len } => reads(t, dst, s.stack[n - 3])
                    && value is Const && b as int == (value->Const_0.bits as int) % 0x100 && reads(
                    t,
                    len,
                    s.stack[n - 1],
                ),
                Instruction::MemoryFillImmExact { dst, value: b, len } => reads(t, dst, s.stack[n - 3])
                    && value is Const && b as int == (value->Const_0.bits as int) % 0x100 && imm_index(
                    len as u64,
                    s.stack[n - 1],
                    ty,
                ),
                _ => false,
            }
        }),
{
    let (s0, dst, value, len) = s.pop3();
    assert(s0.consts == s.consts);
    lemma_provider_reg_reads(s0, dst);
    let (s1, d) = s0.provider_reg(dst)->Ok_0;
    let len_arg = s1.index_arg(len, ty, 0xffff);
    if let Provider::Const(v) = len {
        if index_value(v, ty) > 0xffff {
            lemma_provider_reg_reads(s1, len);
        }
    }
    let (s2, l) = len_arg->Ok_0;
    lemma_reads_kept(s1, s2, d, dst);
    if let Provider::Const(c) = value {
        assert(pow32() == 0x1_0000_0000);
        assert((lo32(c.bits) as int) % 0x100 == (c.bits as int) % 0x100);
    }
}

/// `table.fill` reads the first index from the deepest of its three
/// operands, the value from the middle one and the length from the top one.
#[verifier::spinoff_prover]
pub proof fn lemma_table_fill_operands(s: TState, table: u32, ty: IndexType)
    requires
        s.wf(),
        s.reachable,
        s.stack.len() >= 3,
        s.table_fill(table, ty) is Ok,
    ensures
        ({
            let t = s.table_fill(table, ty)->Ok_0;
            let n = s.stack.len();
            let k = t.instrs.len();
            &&& k >= 2
            &&& t.instrs[k - 1] == Instruction::TableIndex { index: table }
            &&& match t.instrs[k - 2] {
                Instruction::TableFill { dst, len, value } => reads(t, dst, s.stack[n - 3]) && reads(
                    t,
                    value,
                    s.stack[n - 2],
                ) && reads(t, len, s.stack[n - 1]),
                Instruction::TableFillImm { dst, len, value } => reads(t, dst, s.stack[n - 3]) && reads(
                    t,
                    value,
                    s.stack[n - 2],
                ) && imm_index(len as u64, s.stack[n - 1], ty),
                _ => false,
            }
        }),
{
    let (s0, dst, value, len) = s.pop3();
    assert(s0.consts == s.consts);
    lemma_provider_reg_reads(s0, dst);
    let (s1, d) = s0.provider_reg(dst)->Ok_0;
    let len_arg = s1.index_arg(len, ty, 0xffff);
    if let Provider::Const(v) = len {
        if index_value(v, ty) > 0xffff {
            lemma_provider_reg_reads(s1, len);
        }
    }
    let (s2, l) = len_arg->Ok_0;
    lemma_reads_kept(s1, s2, d, dst);
    lemma_provider_reg_reads(s2, value);
    let (s3, v) = s2.provider_reg(value)->Ok_0;
    lemma_reads_kept(s2, s3, d, dst);
    if let IndexArg::Reg(r) = l {
        lemma_reads_kept(s2, s3, r, len);
    }
}

/// `table.set` reads the index from the lower of its two operands and the
/// value from the top one.
pub proof fn lemma_table_set_operands(s: TState, table: u32, ty: IndexType)
    requires
        s.wf(),
        s.reachable,
        s.stack.len() >= 2,
        s.table_set(table, ty) is Ok,
    ensures
        ({
            let t = s.table_set(table, ty)->Ok_0;
            let n = s.stack.len();
            let k = t.instrs.len();
            &&& k >= 2
            &&& t.instrs[k - 1] == Instruction::TableIndex { index: table }
            &&& match t.instrs[k - 2] {
                Instruction::TableSet { index, value } => reads(t, index, s.stack[n - 2]) && reads(
                    t,
                    value,
                    s.stack[n - 1],
                ),
                Instruction::TableSetAt { value, index } => imm_index(index, s.stack[n - 2], ty) && reads(
                    t,
                    value,
                    s.stack[n - 1],
                ),
                _ => false,
            }
        }),
{
    let n = s.stack.len();
    let index = s.stack[n - 2];
    let value = s.stack[n - 1];
    let s0 = s.pop().pop();
    assert(s0.consts == s.consts);
    let idx_arg = s0.index_arg(index, ty, u32::MAX as u64);
    if let Provider::Const(v) = index {
        if index_value(v, ty) > u32::MAX {
            lemma_provider_reg_reads(s0, index);
        }
    }
    let (s1, i) = idx_arg->Ok_0;
    lemma_provider_reg_reads(s1, value);
    let (s2, v) = s1.provider_reg(value)->Ok_0;
    if let IndexArg::Reg(r) = i {
        lemma_reads_kept(s1, s2, r, index);
    }
}

/// The 16-bit immediate of a constant operand stands for the constant: at
/// the operand's width it is the same number, unsigned for operators that
/// read their operands unsigned and signed otherwise; an integer constant
/// gets one exactly when it fits 16 bits in that reading, and float
/// constants never do.
pub proof fn lemma_imm16_encodes_constant(op: BinOp, c: u64)
    ensures
        match op {
            BinOp::I32(o) => if reads_unsigned(o) {
                &&& imm16(op, c) is Some <==> lo32(c) <= 0xffff
                &&& imm16(op, c) matches Some(i) ==> 0 <= i && i as int == lo32(c)
            } else {
                &&& imm16(op, c) is Some <==> -0x8000 <= s32(lo32(c)) < 0x8000
                &&& imm16(op, c) matches Some(i) ==> -0x8000 <= i < 0x8000 && (i as int) % pow32() == lo32(c)
            },
            BinOp::I64(o) => if reads_unsigned(o) {
                &&& imm16(op, c) is Some <==> c <= 0xffff
                &&& imm16(op, c) matches Some(i) ==> 0 <= i && i as int == c
            } else {
                &&& imm16(op, c) is Some <==> -0x8000 <= s64(c) < 0x8000
                &&& imm16(op, c) matches Some(i) ==> -0x8000 <= i < 0x8000 && (i as int) % pow64() == c
            },
            _ => imm16(op, c) is None,
        },
{
    assert(pow32() == 0x1_0000_0000);
    assert(pow64() == 0x1_0000_0000_0000_0000);
}

/// Instruction `instr` writes `result` with `a op b`, reading `a` from
/// register `x` and `b` from register `y`: it is the operator itself on
/// `x, y`, or an operator that gives the same for all values on `y, x`.
pub open spec fn computes(instr: Instruction, op: BinOp, result: Reg, x: Reg, y: Reg) -> bool {
    match instr {
        Instruction::Binary { op: o, result: r, lhs, rhs } => r == result && ((o == op && lhs == x && rhs
            == y) || (lhs == y && rhs == x && forall|a: u64, b: u64|
            #![trigger fold_binary(op, a, b)]
            fold_binary(o, b, a) == fold_binary(op, a, b))),
        _ => false,
    }
}

/// A binary operator on two registers that is not simplified away is one
/// instruction that computes it from the lower register as left operand
/// and the top register as right operand into a new register, which takes
/// their place on the value stack.
pub proof fn lemma_binary_registers(s: TState, op: BinOp, x: Reg, y: Reg)
    requires
        s.reachable,
        s.stack.len() >= 2,
        s.stack[s.stack.len() - 2] == Provider::Register(x),
        s.stack.last() == Provider::Register(y),
        !(x == y && simplify_same(op) != Simplify::Keep),
        s.binary(op) is Ok,
    ensures
        ({
            let t = s.binary(op)->Ok_0.0;
            &&& t.instrs.len() > 0
            &&& t.stack.len() == s.stack.len() - 1
            &&& t.stack.last() is Register
            &&& computes(t.instrs.last(), op, t.stack.last()->Register_0, x, y)
        }),
{
    let s1 = s.pop();
    assert(s1.stack.last() == Provider::Register(x));
    if is_swapped(op) {
        assert forall|a: u64, b: u64| #![trigger fold_binary(op, a, b)]
            fold_binary(encoded_op(op), b, a) == fold_binary(op, a, b) by {
            lemma_swapped_encoding(op, a, b);
        }
    }
}

/// Control never falls through `br`, `br_table`, `return`, `unreachable`
/// or a tail call: the code after each is unreachable.
pub proof fn lemma_transfers_end_reachability(
    s: TState,
    depth: nat,
    targets: Seq<u32>,
    default: u32,
    func: u32,
    info: crate::module::FuncInfo,
    len_params: nat,
)
    requires
        s.reachable,
    ensures
        s.br_(depth) matches Ok(t) ==> !t.reachable,
        s.br_table(targets, default) matches Ok(t) ==> !t.reachable,
        s.return_() matches Ok(t) ==> !t.reachable,
        s.unreachable_() matches Ok(t) ==> !t.reachable,
        s.return_call_(func, info, len_params) matches Ok(t) ==> !t.reachable,
{
}

/// `br` pops the values that the target frame's branches carry; to an
/// enclosing frame other than the function body it marks the frame as
/// branched to and ends in a branch to that frame's label.
pub proof fn lemma_br_targets_its_frame(s: TState, depth: nat)
    requires
        s.reachable,
        depth < s.frames.len(),
        s.stack.len() >= s.frames[s.target_index(depth)].len_branch_params,
        s.br_(depth) is Ok,
    ensures
        ({
            let t = s.br_(depth)->Ok_0;
            let i = s.frames.len() - 1 - depth;
            let f = s.frames[i];
            &&& t.instrs.len() > 0
            &&& t.stack == s.stack.take(s.stack.len() - f.len_branch_params)
            &&& i > 0 ==> t.instrs.last() == Instruction::Branch { target: f.label } && t.frames[i].branched_to
                && t.frames.len() == s.frames.len()
        }),
{
    let i = s.frames.len() - 1 - depth;
    let f = s.frames[i];
    if i > 0 {
        let s1 = s.branch_to(i);
        let values = s1.top_values(f.len_branch_params);
        let s2 = s1.trunc((s1.stack.len() - f.len_branch_params) as nat);
        lemma_copies_shape(s2, f.branch_params.0 as int, values);
    } else {
        let n = s.len_func_results();
        let s1 = s.trunc((s.stack.len() - n) as nat);
        if n >= 2 {
            let s2 = s1.push_fueled(Instruction::ReturnMany { len_values: n as u32 }, crate::translator::FuelKind::Base)->Ok_0;
            crate::branch::lemma_register_list_shape(s2, s.top_values(n));
        }
    }
}

/// `return` of a single result returns the value on top of the value
/// stack: its register, or the constant itself.
pub proof fn lemma_return_single_value(s: TState)
    requires
        s.reachable,
        s.frames.len() > 0,
        s.len_func_results() == 1,
        s.stack.len() >= 1,
        s.return_() is Ok,
    ensures
        ({
            let t = s.return_()->Ok_0;
            &&& t.instrs.len() > 0
            &&& t.instrs.last() == match s.stack.last() {
                Provider::Register(r) => Instruction::ReturnReg { value: r },
                Provider::Const(v) => Instruction::ReturnImm { value: v },
            }
            &&& t.stack == s.stack.drop_last()
        }),
{
    assert(s.top_values(1)[0] == s.stack.last());
    assert(s.stack.take(s.stack.len() - 1) =~= s.stack.drop_last());
}

/// Subtracting a constant is adding its negation at the same width, for
/// every value: this is how `sub` with a constant right operand is encoded.
pub proof fn lemma_sub_constant_is_add_negated(op: BinOp, x: u64, c: u64)
    requires
        is_int_sub(op),
    ensures
        add_of(op) == match op {
            BinOp::I64(_) => BinOp::I64(IntBinOp::Add),
            _ => BinOp::I32(IntBinOp::Add),
        },
        fold_binary(add_of(op), x, negated(op, c).bits) == fold_binary(op, x, c),
{
    crate::simplify::lemma_sub_is_add_negated(x, c);
    let n = 0u32.wrapping_sub(lo32(c));
    assert(lo32(n as u64) == n) by {
        assert(pow32() == 0x1_0000_0000);
    }
}

/// `copysign` with a constant right operand depends only on that
/// constant's sign, which is what its immediate form records.
pub proof fn lemma_copysign_constant_sign(op: BinOp, x: u64, c: u64)
    requires
        is_copysign(op),
    ensures
        fold_binary(op, x, c) == fold_binary(
            op,
            x,
            if float_sign_negative(op, c) {
                match op {
                    BinOp::F32(_) => 0x8000_0000u64,
                    _ => 0x8000_0000_0000_0000u64,
                }
            } else {
                0u64
            },
        ),
{
    assert(pow32() == 0x1_0000_0000);
}

/// The entries of a branch table whose branches carry no values follow
/// the target depths in order, each branching to the label of the frame
/// its depth selects, and mark those frames as branched to.
pub proof fn lemma_table_entries_in_order(s: TState, all: Seq<u32>)
    requires
        forall|k: int| 0 <= k < all.len() ==> (#[trigger] all[k]) < s.frames.len(),
    ensures
        ({
            let t = s.table_entries(all, 0);
            &&& t.instrs.len() == s.instrs.len() + all.len()
            &&& t.instrs.take(s.instrs.len() as int) == s.instrs
            &&& forall|k: int|
                0 <= k < all.len() ==> t.instrs[s.instrs.len() + k] == Instruction::BranchTableTarget {
                    target: s.frames[s.frames.len() - 1 - #[trigger] all[k]].label,
                }
            &&& t.frames.len() == s.frames.len()
            &&& forall|j: int| 0 <= j < s.frames.len() ==> (#[trigger] t.frames[j]).label == s.frames[j].label
            &&& forall|k: int| 0 <= k < all.len() ==> t.frames[s.frames.len() - 1 - #[trigger] all[k]].branched_to
        }),
    decreases all.len(),
{
    if all.len() > 0 {
        let a = all.drop_last();
        assert forall|k: int| 0 <= k < a.len() implies (#[trigger] a[k]) < s.frames.len() by {
            assert(a[k] == all[k]);
        }
        lemma_table_entries_in_order(s, a);
        let u = s.table_entries(a, 0);
        let i = u.target_index(all.last() as nat);
        let u1 = u.branch_to(i);
        let t = s.table_entries(all, 0);
        assert(t == u1.push_instr(Instruction::BranchTableTarget { target: u1.frames[i].label }));
        assert(t.instrs.take(s.instrs.len() as int) =~= s.instrs) by {
            assert forall|j: int| 0 <= j < s.instrs.len() implies t.instrs[j] == s.instrs[j] by {
                assert(u.instrs.take(s.instrs.len() as int)[j] == s.instrs[j]);
            }
        }
        assert forall|k: int| 0 <= k < all.len() implies t.instrs[s.instrs.len() + k]
            == Instruction::BranchTableTarget { target: s.frames[s.frames.len() - 1 - #[trigger] all[k]].label } by {
            if k < a.len() {
                assert(a[k] == all[k]);
            }
        }
        assert forall|k: int| 0 <= k < all.len() implies t.frames[s.frames.len() - 1 - #[trigger] all[k]].branched_to by {
            if k < a.len() {
                assert(a[k] == all[k]);
            }
        }
    }
}

/// Charging fuel and appending an instruction makes the instruction the
/// last one, one past the previous ones.
proof fn lemma_push_fueled_appends(s: TState, instr: Instruction, kind: crate::translator::FuelKind)
    requires
        s.fuel_instr() matches Some(idx) ==> idx < s.instrs.len(),
        s.push_fueled(instr, kind) is Ok,
    ensures
        s.push_fueled(instr, kind)->Ok_0.instrs.len() == s.instrs.len() + 1,
        s.push_fueled(instr, kind)->Ok_0.instrs.last() == instr,
{
    let b = s.bump_fuel(s.cost(kind));
    assert(b->Ok_0.instrs.len() == s.instrs.len());
}

/// `br_table` on a register index whose branches carry no values is a
/// `BranchTable` on that register followed by one entry per target depth,
/// in order, the default last.
pub proof fn lemma_br_table_register(s: TState, targets: Seq<u32>, default: u32, r: Reg)
    requires
        s.wf(),
        s.reachable,
        s.stack.len() > 0,
        s.stack.last() == Provider::Register(r),
        default < s.frames.len(),
        forall|k: int| 0 <= k < targets.len() ==> (#[trigger] targets[k]) < s.frames.len(),
        s.frames[s.frames.len() - 1 - default].len_branch_params == 0,
        s.br_table(targets, default) is Ok,
    ensures
        ({
            let t = s.br_table(targets, default)->Ok_0;
            let k0 = s.instrs.len();
            let all = targets.push(default);
            &&& t.instrs.len() == k0 + 1 + all.len()
            &&& t.instrs[k0 as int] == Instruction::BranchTable { index: r, len_targets: all.len() as u32 }
            &&& forall|k: int|
                0 <= k < all.len() ==> t.instrs[k0 + 1 + k] == Instruction::BranchTableTarget {
                    target: s.frames[s.frames.len() - 1 - #[trigger] all[k]].label,
                }
        }),
{
    let all = targets.push(default);
    let s0 = s.pop();
    let s1 = s0.push_fueled(Instruction::BranchTable { index: r, len_targets: all.len() as u32 }, crate::translator::FuelKind::Base)->Ok_0;
    crate::control::lemma_push_fueled_shape(s0, Instruction::BranchTable { index: r, len_targets: all.len() as u32 }, crate::translator::FuelKind::Base);
    assert forall|k: int| 0 <= k < all.len() implies (#[trigger] all[k]) < s1.frames.len() by {
        if k < targets.len() {
            assert(all[k] == targets[k]);
        }
    }
    let k0 = s.instrs.len() as int;
    assert(s0.instrs == s.instrs);
    assert(s0.fuel_instr() == s.fuel_instr());
    if s.fuel is Some {
        assert(s.frame_ok(s.frames[s.frames.len() - 1]));
    }
    lemma_push_fueled_appends(s0, Instruction::BranchTable { index: r, len_targets: all.len() as u32 }, crate::translator::FuelKind::Base);
    assert(s1.instrs.len() == k0 + 1);
    assert(s1.instrs[k0] == Instruction::BranchTable { index: r, len_targets: all.len() as u32 });
    assert(s1.frames == s.frames);
    lemma_table_entries_in_order(s1, all);
    let t2 = s1.table_entries(all, 0);
    assert(t2.instrs.take(k0 + 1)[k0] == s1.instrs[k0]);
    assert(s.br_table(targets, default)->Ok_0.instrs == t2.instrs);
}

/// `select` yields its first operand when the condition on top is not zero
/// and its second operand otherwise: with equal operands or a constant
/// condition the selected operand stands on the value stack (copied into
/// a new register when it is a dynamic register out of place); with a
/// register condition a `Select` writes the new top register from the
/// condition, reading the first operand as its left and the second as its
/// right.
#[verifier::spinoff_prover]
pub proof fn lemma_select_operands(s: TState)
    requires
        s.wf(),
        s.reachable,
        s.stack.len() >= 3,
        s.select() is Ok,
    ensures
        ({
            let t = s.select()->Ok_0;
            let n = s.stack.len();
            let if_true = s.stack[n - 3];
            let if_false = s.stack[n - 2];
            let condition = s.stack[n - 1];
            let selected = match condition {
                Provider::Const(c) => if (c.bits as int) % pow32() != 0 {
                    if_true
                } else {
                    if_false
                },
                Provider::Register(_) => if_true,
            };
            &&& t.stack.len() == n - 2
            &&& t.stack.take(n - 3) == s.stack.take(n - 3)
            &&& (if_true == if_false || condition is Const) ==> (t.stack.last() == selected || (
                t.stack.last() is Register && selected is Register && t.instrs.last() == Instruction::Copy {
                    result: t.stack.last()->Register_0,
                    value: selected->Register_0,
                }))
            &&& (if_true != if_false && condition is Register) ==> t.stack.last() is Register
            &&& (if_true != if_false && condition is Register) ==> (t.instrs.last() matches Instruction::Select {
                result,
                condition: c,
                lhs,
                rhs,
            } && result == t.stack.last()->Register_0 && condition == Provider::Register(c) && reads(t, lhs, if_true)
                && reads(t, rhs, if_false))
        }),
{
    let n = s.stack.len();
    let if_true = s.stack[n - 3];
    let if_false = s.stack[n - 2];
    let condition = s.stack[n - 1];
    let s0 = s.pop().pop().pop();
    assert(s0.stack =~= s.stack.take(n - 3));
    assert(s0.consts == s.consts);
    if if_true != if_false {
        if let Provider::Register(c) = condition {
            lemma_provider_reg_reads(s0, if_true);
            let (s1, lhs) = s0.provider_reg(if_true)->Ok_0;
            lemma_provider_reg_reads(s1, if_false);
            let (s2, rhs) = s1.provider_reg(if_false)->Ok_0;
            lemma_reads_kept(s1, s2, lhs, if_true);
        } else {
            let c = condition->Const_0;
            let selected = if (c.bits as int) % pow32() != 0 { if_true } else { if_false };
            if s0.is_dyn(selected) && crate::regs::reg_index(selected) != s0.next_dyn() {
                let s1 = s0.push_dynamic()->Ok_0;
                assert(s1.stack.last() == Provider::Register(Reg(s0.next_dyn() as i16)));
            }
        }
    }
}

/// Instruction `k` of `t` is a register list entry that passes provider
/// `p`.
pub open spec fn passes(t: TState, k: int, p: Provider) -> bool {
    &&& t.instrs[k] is Register
    &&& reads(t, t.instrs[k]->Register_reg, p)
}

/// A register list passes the providers in order: one `Register` entry per
/// provider, reading it, appended after the previous instructions.
pub proof fn lemma_register_list_reads(s: TState, ps: Seq<Provider>)
    requires
        s.consts.len() <= reg_space(),
        s.register_list(ps) is Ok,
    ensures
        ({
            let t = s.register_list(ps)->Ok_0;
            &&& t.instrs.len() == s.instrs.len() + ps.len()
            &&& t.instrs.take(s.instrs.len() as int) == s.instrs
            &&& consts_kept(s, t)
            &&& t.consts.len() <= reg_space()
            &&& t == TState { instrs: t.instrs, consts: t.consts, ..s }
            &&& forall|j: int|
                0 <= j < ps.len() ==> passes(t, s.instrs.len() + j, #[trigger] ps[j])
        }),
    decreases ps.len(),
{
    if ps.len() == 0 {
        assert(s.instrs.take(s.instrs.len() as int) =~= s.instrs);
    } else {
        let a = ps.drop_last();
        lemma_register_list_reads(s, a);
        let u = s.register_list(a)->Ok_0;
        let t = s.register_list(ps)->Ok_0;
        lemma_provider_reg_reads(u, ps.last());
        let (u2, r) = u.provider_reg(ps.last())->Ok_0;
        assert(t == u2.push_instr(Instruction::Register { reg: r }));
        assert(consts_kept(s, t)) by {
            assert forall|j: int| 0 <= j < s.consts.len() implies t.consts[j] == s.consts[j] by {
                assert(u.consts[j] == s.consts[j]);
            }
        }
        assert(t.instrs[(s.instrs.len() + a.len()) as int] == Instruction::Register { reg: r });
        assert(ps[a.len() as int] == ps.last());
        assert(t.instrs.take(s.instrs.len() as int) =~= s.instrs) by {
            assert forall|j: int| 0 <= j < s.instrs.len() implies t.instrs[j] == s.instrs[j] by {
                assert(u.instrs.take(s.instrs.len() as int)[j] == s.instrs[j]);
            }
        }
        assert forall|j: int| 0 <= j < ps.len() implies passes(t, s.instrs.len() + j, #[trigger] ps[j]) by {
            if j < a.len() {
                assert(a[j] == ps[j]);
                assert(t.instrs[s.instrs.len() + j] == u.instrs[s.instrs.len() + j]);
                let reg = u.instrs[s.instrs.len() + j]->Register_reg;
                lemma_reads_kept(u, t, reg, ps[j]);
            }
        }
    }
}

/// A call pops its parameters, places its results in consecutive new
/// registers that take their place on the value stack, and passes the
/// parameters, in order, in the register list that follows the call.
#[verifier::spinoff_prover]
pub proof fn lemma_call_operands(s: TState, callee: crate::ir::Callee, len_params: nat, len_results: nat)
    requires
        s.wf(),
        len_params <= s.stack.len(),
        s.call(callee, len_params, len_results, None) is Ok,
    ensures
        ({
            let t = s.call(callee, len_params, len_results, None)->Ok_0;
            let h = s.stack.len() - len_params;
            let params = s.stack.subrange(h, s.stack.len() as int);
            let k0 = s.instrs.len();
            let first = s.len_locals + s.count(s.stack.take(h));
            &&& t.stack.len() == h + len_results
            &&& t.stack.take(h) == s.stack.take(h)
            &&& forall|j: int| 0 <= j < len_results ==> #[trigger] t.stack[h + j] == Provider::Register(Reg((first + j) as i16))
            &&& t.instrs.len() == k0 + 1 + len_params
            &&& t.instrs[k0 as int] == Instruction::Call {
                results: Reg(first as i16),
                callee,
                has_params: len_params > 0,
            }
            &&& forall|j: int|
                0 <= j < len_params ==> passes(t, k0 + 1 + j, #[trigger] params[j])
        }),
{
    let h = s.stack.len() - len_params;
    let params = s.top_values(len_params);
    let s0 = s.trunc(h as nat);
    let s1 = s0.push_dynamic_n(len_results)->Ok_0;
    let call = Instruction::Call { results: Reg(s0.next_dyn() as i16), callee, has_params: len_params > 0 };
    assert(s0.fuel_instr() == s.fuel_instr());
    if s.fuel is Some && s.top_frame_reachable() {
        assert(s.frame_ok(s.frames[s.frames.len() - 1]));
    }
    lemma_push_fueled_appends(s1, call, crate::translator::FuelKind::Call);
    let s2 = s1.push_fueled(call, crate::translator::FuelKind::Call)->Ok_0;
    lemma_register_list_reads(s2, params);
    let t = s2.register_list(params)->Ok_0;
    assert(t.instrs.take(s2.instrs.len() as int)[s.instrs.len() as int] == s2.instrs[s.instrs.len() as int]);
}

/// The address that a constant pointer and an offset give, when it can be
/// valid, is their sum; otherwise no access through them can be in bounds.
pub proof fn lemma_effective_address(mt: crate::memory::MemoryType, ptr: TypedVal, offset: u64)
    ensures
        ({
            let a = index_value(ptr, mt.index_type) + offset;
            &&& effective_address(mt, ptr, offset) matches Some(x) ==> x == a
            &&& effective_address(mt, ptr, offset) is None <==> (a > u64::MAX || (mt.maximum is Some && a
                > crate::memory_ops::max_size(mt.maximum->0, mt.page_size_log2)) || (mt.index_type
                == IndexType::I32 && a >= pow32()))
        }),
{
}

/// A load reads the address that its pointer operand and its offset give:
/// from a register pointer with the offset in the instruction (split into
/// a low and a high half when it does not fit 16 bits or the memory is not
/// the default one), from a constant pointer at the sum, which, when it
/// does not fit 32 bits, is split around the constant zero; a constant
/// address that cannot be valid traps. The loaded value is written to the
/// new top register, and a memory other than the default one is named.
#[verifier::spinoff_prover]
pub proof fn lemma_load_address(s: TState, op: LoadOp, memory: u32, offset: u64, mt: crate::memory::MemoryType)
    requires
        s.wf(),
        s.reachable,
        s.stack.len() >= 1,
        s.load(op, memory, offset, mt) is Ok,
    ensures
        ({
            let t = s.load(op, memory, offset, mt)->Ok_0;
            let k = s.instrs.len() as int;
            &&& t.instrs.len() > k
            &&& match t.instrs[k] {
                Instruction::LoadOffset16 { op: o, result, ptr, offset: off } => o == op && memory == 0
                    && s.stack.last() == Provider::Register(ptr) && off as u64 == offset && t.stack.last()
                    == Provider::Register(result) && t.instrs.len() == k + 1,
                Instruction::LoadAt { op: o, result, address } => o == op && s.stack.last() is Const
                    && address as int == index_value(s.stack.last()->Const_0, mt.index_type) + offset
                    && t.stack.last() == Provider::Register(result) && names_memory(t, k + 1, memory),
                Instruction::Load { op: o, result, offset_lo } => o == op && t.stack.last() == Provider::Register(
                    result,
                ) && t.instrs.len() > k + 1 && t.instrs[k + 1] is RegisterAndOffsetHi && names_memory(
                    t,
                    k + 2,
                    memory,
                ) && split_address(t, s.stack.last(), t.instrs[k + 1]->RegisterAndOffsetHi_reg,
                    offset_lo as int + t.instrs[k + 1]->RegisterAndOffsetHi_offset_hi as int * pow32(),
                    offset, mt.index_type),
                Instruction::Trap { code } => code == TrapCode::MemoryOutOfBounds && s.stack.last() is Const
                    && effective_address(mt, s.stack.last()->Const_0, offset) is None && !t.reachable,
                _ => false,
            }
        }),
{
    let k = s.instrs.len() as int;
    let ptr = s.stack.last();
    let s0 = s.pop();
    assert(s0.instrs == s.instrs && s0.frames == s.frames && s0.fuel == s.fuel);
    if s.fuel is Some && s.top_frame_reachable() {
        assert(s.frame_ok(s.frames[s.frames.len() - 1]));
    }
    assert(pow32() == 0x1_0000_0000);
    match ptr {
        Provider::Const(p) => {
            lemma_effective_address(mt, p, offset);
            match effective_address(mt, p, offset) {
                None => {
                    lemma_push_fueled_appends(s0, Instruction::Trap { code: TrapCode::MemoryOutOfBounds }, crate::translator::FuelKind::Base);
                },
                Some(a) => {
                    if a <= u32::MAX {
                        let s1 = s0.push_dynamic()->Ok_0;
                        let instr = Instruction::LoadAt { op, result: Reg(s0.next_dyn() as i16), address: a as u32 };
                        lemma_push_fueled_appends(s1, instr, crate::translator::FuelKind::Load);
                    } else {
                        lemma_provider_reg_reads(s0, Provider::Const(TypedVal::spec_i64(0)));
                        let (s1, zero) = s0.alloc_const(TypedVal::spec_i64(0))->Ok_0;
                        lemma_load_split_shape(s1, op, memory, zero, a);
                    }
                },
            }
        },
        Provider::Register(p) => {
            if memory == 0 && offset <= 0xffff {
                let s1 = s0.push_dynamic()->Ok_0;
                let instr = Instruction::LoadOffset16 { op, result: Reg(s0.next_dyn() as i16), ptr: p, offset: offset as u16 };
                lemma_push_fueled_appends(s1, instr, crate::translator::FuelKind::Load);
            } else {
                lemma_load_split_shape(s0, op, memory, p, offset);
            }
        },
    }
}

/// Instructions from `k` on name `memory` when it is not the default one,
/// and end there.
pub open spec fn names_memory(t: TState, k: int, memory: u32) -> bool {
    if memory == 0 {
        t.instrs.len() == k
    } else {
        t.instrs.len() == k + 1 && t.instrs[k] == Instruction::MemoryIndex { index: memory }
    }
}

/// A split address: register `reg` and the 64-bit offset `off` give the
/// address of pointer `ptr` and offset `offset`, for a register pointer
/// that register and the offset, for a constant pointer the constant zero
/// and the sum.
pub open spec fn split_address(t: TState, ptr: Provider, reg: Reg, off: int, offset: u64, ty: IndexType) -> bool {
    match ptr {
        Provider::Register(p) => reg == p && off == offset,
        Provider::Const(c) => reads(t, reg, Provider::Const(TypedVal::spec_i64(0))) && off == index_value(c, ty)
            + offset,
    }
}

/// The shape of a load with a split offset.
proof fn lemma_load_split_shape(s: TState, op: LoadOp, memory: u32, ptr: Reg, offset: u64)
    requires
        s.fuel_instr() matches Some(idx) ==> idx < s.instrs.len(),
        s.load_split(op, memory, ptr, offset) is Ok,
    ensures
        ({
            let t = s.load_split(op, memory, ptr, offset)->Ok_0;
            let k = s.instrs.len() as int;
            &&& t.instrs.len() > k + 1
            &&& t.instrs[k] == Instruction::Load { op, result: Reg(s.next_dyn() as i16), offset_lo: offset as u32 }
            &&& t.instrs[k + 1] == Instruction::RegisterAndOffsetHi { reg: ptr, offset_hi: (offset >> 32u64) as u32 }
            &&& (offset as u32) as int + ((offset >> 32u64) as u32) as int * pow32() == offset
            &&& names_memory(t, k + 2, memory)
            &&& t.stack.last() == Provider::Register(Reg(s.next_dyn() as i16))
            &&& t.consts == s.consts
            &&& t.reachable == s.reachable
        }),
{
    let s1 = s.push_dynamic()->Ok_0;
    let instr = Instruction::Load { op, result: Reg(s.next_dyn() as i16), offset_lo: offset as u32 };
    lemma_push_fueled_appends(s1, instr, crate::translator::FuelKind::Load);
    assert(pow32() == 0x1_0000_0000);
    assert((offset as u32) as int + ((offset >> 32u64) as u32) as int * 0x1_0000_0000 == offset) by (bit_vector);
}

/// A store value operand: register `v` reads the stored provider.
pub open spec fn stores_reg(t: TState, v: Reg, value: Provider) -> bool {
    reads(t, v, value)
}

/// A store value immediate: the stored provider is a constant whose
/// 16-bit immediate for this store is `i`.
pub open spec fn stores_imm(imm: StoreImm, i: i64, value: Provider) -> bool {
    value is Const && store_imm16(imm, value->Const_0.bits) == Some(i)
}

/// A store writes the value operand on top (a register that reads it, or
/// its 16-bit immediate) to the address that the pointer operand below it
/// and the offset give, with the offset and address encoded as for loads;
/// a constant address that cannot be valid traps.
#[verifier::spinoff_prover]
pub proof fn lemma_store_address(
    s: TState,
    op: StoreOp,
    imm: StoreImm,
    memory: u32,
    offset: u64,
    mt: crate::memory::MemoryType,
)
    requires
        s.wf(),
        s.reachable,
        s.stack.len() >= 2,
        s.store(op, imm, memory, offset, mt) is Ok,
    ensures
        ({
            let t = s.store(op, imm, memory, offset, mt)->Ok_0;
            let k = s.instrs.len() as int;
            let n = s.stack.len();
            let ptr = s.stack[n - 2];
            let value = s.stack[n - 1];
            &&& t.instrs.len() > k
            &&& t.stack == s.stack.take(n - 2)
            &&& match t.instrs[k] {
                Instruction::StoreOffset16 { op: o, ptr: p, offset: off, value: v } => o == op && memory == 0
                    && ptr == Provider::Register(p) && off as u64 == offset && stores_reg(t, v, value)
                    && t.instrs.len() == k + 1,
                Instruction::StoreOffset16Imm16 { op: o, ptr: p, offset: off, value: i } => o == op && memory
                    == 0 && ptr == Provider::Register(p) && off as u64 == offset && stores_imm(imm, i, value)
                    && t.instrs.len() == k + 1,
                Instruction::StoreAt { op: o, address, value: v } => o == op && ptr is Const && address as int
                    == index_value(ptr->Const_0, mt.index_type) + offset && stores_reg(t, v, value)
                    && names_memory(t, k + 1, memory),
                Instruction::StoreAtImm16 { op: o, address, value: i } => o == op && ptr is Const && address
                    as int == index_value(ptr->Const_0, mt.index_type) + offset && stores_imm(imm, i, value)
                    && names_memory(t, k + 1, memory),
                Instruction::Store { op: o, ptr: p, offset_lo } => o == op && t.instrs.len() > k + 1
                    && t.instrs[k + 1] is RegisterAndOffsetHi && stores_reg(
                    t,
                    t.instrs[k + 1]->RegisterAndOffsetHi_reg,
                    value,
                ) && split_address(
                    t,
                    ptr,
                    p,
                    offset_lo as int + t.instrs[k + 1]->RegisterAndOffsetHi_offset_hi as int * pow32(),
                    offset,
                    mt.index_type,
                ) && names_memory(t, k + 2, memory),
                Instruction::StoreImm16 { op: o, ptr: p, offset_lo } => o == op && t.instrs.len() > k + 1
                    && t.instrs[k + 1] is Imm16AndOffsetHi && stores_imm(
                    imm,
                    t.instrs[k + 1]->Imm16AndOffsetHi_value,
                    value,
                ) && split_address(
                    t,
                    ptr,
                    p,
                    offset_lo as int + t.instrs[k + 1]->Imm16AndOffsetHi_offset_hi as int * pow32(),
                    offset,
                    mt.index_type,
                ) && names_memory(t, k + 2, memory),
                Instruction::Trap { code } => code == TrapCode::MemoryOutOfBounds && ptr is Const
                    && effective_address(mt, ptr->Const_0, offset) is None && !t.reachable,
                _ => false,
            }
        }),
{
    let n = s.stack.len();
    let ptr = s.stack[n - 2];
    let value = s.stack[n - 1];
    let s0 = s.pop().pop();
    assert(s0.stack =~= s.stack.take(n - 2));
    assert(s0.instrs == s.instrs && s0.frames == s.frames && s0.fuel == s.fuel && s0.consts == s.consts);
    if s.fuel is Some && s.top_frame_reachable() {
        assert(s.frame_ok(s.frames[s.frames.len() - 1]));
    }
    assert(pow32() == 0x1_0000_0000);
    let kind = crate::translator::FuelKind::Store;
    match ptr {
        Provider::Const(p) => {
            lemma_effective_address(mt, p, offset);
            match effective_address(mt, p, offset) {
                None => {
                    lemma_push_fueled_appends(s0, Instruction::Trap { code: TrapCode::MemoryOutOfBounds }, crate::translator::FuelKind::Base);
                },
                Some(a) => {
                    if a <= u32::MAX {
                        let address = a as u32;
                        match value {
                            Provider::Register(v) => {
                                lemma_push_fueled_appends(s0, Instruction::StoreAt { op, address, value: v }, kind);
                            },
                            Provider::Const(v) => match store_imm16(imm, v.bits) {
                                Some(i) => {
                                    lemma_push_fueled_appends(s0, Instruction::StoreAtImm16 { op, address, value: i }, kind);
                                },
                                None => {
                                    lemma_provider_reg_reads(s0, value);
                                    let (s1, c) = s0.alloc_const(v)->Ok_0;
                                    lemma_push_fueled_appends(s1, Instruction::StoreAt { op, address, value: c }, kind);
                                },
                            },
                        }
                    } else {
                        lemma_provider_reg_reads(s0, Provider::Const(TypedVal::spec_i64(0)));
                        let (s1, zero) = s0.alloc_const(TypedVal::spec_i64(0))->Ok_0;
                        lemma_store_split_shape(s1, op, imm, memory, zero, a, value);
                        lemma_reads_kept(s1, s1.store_split(op, imm, memory, zero, a, value)->Ok_0, zero, Provider::Const(TypedVal::spec_i64(0)));
                    }
                },
            }
        },
        Provider::Register(p) => {
            if memory == 0 && offset <= 0xffff {
                let off = offset as u16;
                match value {
                    Provider::Register(v) => {
                        lemma_push_fueled_appends(s0, Instruction::StoreOffset16 { op, ptr: p, offset: off, value: v }, kind);
                    },
                    Provider::Const(v) => match store_imm16(imm, v.bits) {
                        Some(i) => {
                            lemma_push_fueled_appends(s0, Instruction::StoreOffset16Imm16 { op, ptr: p, offset: off, value: i }, kind);
                        },
                        None => {
                            lemma_provider_reg_reads(s0, value);
                            let (s1, c) = s0.alloc_const(v)->Ok_0;
                            lemma_push_fueled_appends(s1, Instruction::StoreOffset16 { op, ptr: p, offset: off, value: c }, kind);
                        },
                    },
                }
            } else {
                lemma_store_split_shape(s0, op, imm, memory, p, offset, value);
            }
        },
    }
}

/// The shape of a store with a split offset.
proof fn lemma_store_split_shape(s: TState, op: StoreOp, imm: StoreImm, memory: u32, ptr: Reg, offset: u64, value: Provider)
    requires
        s.consts.len() <= reg_space(),
        s.fuel_instr() matches Some(idx) ==> idx < s.instrs.len(),
        s.store_split(op, imm, memory, ptr, offset, value) is Ok,
    ensures
        ({
            let t = s.store_split(op, imm, memory, ptr, offset, value)->Ok_0;
            let k = s.instrs.len() as int;
            &&& t.instrs.len() > k + 1
            &&& (offset as u32) as int + ((offset >> 32u64) as u32) as int * pow32() == offset
            &&& names_memory(t, k + 2, memory)
            &&& consts_kept(s, t)
            &&& t.stack == s.stack
            &&& match value {
                Provider::Register(v) => t.instrs[k] == Instruction::Store { op, ptr, offset_lo: offset as u32 }
                    && t.instrs[k + 1] == Instruction::RegisterAndOffsetHi { reg: v, offset_hi: (offset >> 32u64) as u32 },
                Provider::Const(c) => match store_imm16(imm, c.bits) {
                    Some(i) => t.instrs[k] == Instruction::StoreImm16 { op, ptr, offset_lo: offset as u32 }
                        && t.instrs[k + 1] == Instruction::Imm16AndOffsetHi { value: i, offset_hi: (offset >> 32u64) as u32 },
                    None => t.instrs[k] == Instruction::Store { op, ptr, offset_lo: offset as u32 }
                        && t.instrs[k + 1] is RegisterAndOffsetHi && t.instrs[k + 1]->RegisterAndOffsetHi_offset_hi
                        == (offset >> 32u64) as u32 && reads(t, t.instrs[k + 1]->RegisterAndOffsetHi_reg, value),
                },
            }
        }),
{
    let kind = crate::translator::FuelKind::Store;
    let lo = offset as u32;
    let hi = (offset >> 32u64) as u32;
    assert(pow32() == 0x1_0000_0000);
    assert((offset as u32) as int + ((offset >> 32u64) as u32) as int * 0x1_0000_0000 == offset) by (bit_vector);
    match value {
        Provider::Register(v) => {
            lemma_push_fueled_appends(s, Instruction::Store { op, ptr, offset_lo: lo }, kind);
        },
        Provider::Const(c) => match store_imm16(imm, c.bits) {
            Some(i) => {
                lemma_push_fueled_appends(s, Instruction::StoreImm16 { op, ptr, offset_lo: lo }, kind);
            },
            None => {
                lemma_provider_reg_reads(s, value);
                let (s1, r) = s.alloc_const(c)->Ok_0;
                lemma_push_fueled_appends(s1, Instruction::Store { op, ptr, offset_lo: lo }, kind);
            },
        },
    }
}

/// The immediate of `global.set` stands for the constant: at the global's
/// width it is the same signed number, and there is one exactly for
/// integer constants whose signed value fits 16 bits.
pub proof fn lemma_global_imm16(ty: ValType, bits: u64)
    ensures
        ty == ValType::I32 ==> (signed_imm16(ty, bits) is Some <==> -0x8000 <= s32(lo32(bits)) < 0x8000),
        ty == ValType::I32 ==> (signed_imm16(ty, bits) matches Some(i) ==> (i as int) % pow32() == lo32(bits)),
        ty == ValType::I64 ==> (signed_imm16(ty, bits) is Some <==> -0x8000 <= s64(bits) < 0x8000),
        ty == ValType::I64 ==> (signed_imm16(ty, bits) matches Some(i) ==> (i as int) % pow64() == bits),
        ty != ValType::I32 && ty != ValType::I64 ==> signed_imm16(ty, bits) is None,
{
    assert(pow32() == 0x1_0000_0000);
    assert(pow64() == 0x1_0000_0000_0000_0000);
}

/// `global.set` writes the value on top of the value stack to that global:
/// from a register that reads it, or as its 16-bit immediate at the
/// global's width.
pub proof fn lemma_global_set_operand(s: TState, global: u32, content: ValType)
    requires
        s.wf(),
        s.reachable,
        s.stack.len() >= 1,
        s.global_set(global, content) is Ok,
    ensures
        ({
            let t = s.global_set(global, content)->Ok_0;
            let value = s.stack.last();
            &&& t.stack == s.stack.drop_last()
            &&& t.instrs.len() == s.instrs.len() + 1
            &&& match t.instrs.last() {
                Instruction::GlobalSet { input, global: g } => g == global && reads(t, input, value),
                Instruction::GlobalSetI32Imm16 { input, global: g } => g == global && content == ValType::I32
                    && value is Const && signed_imm16(content, value->Const_0.bits) == Some(input),
                Instruction::GlobalSetI64Imm16 { input, global: g } => g == global && content == ValType::I64
                    && value is Const && signed_imm16(content, value->Const_0.bits) == Some(input),
                _ => false,
            }
        }),
{
    let value = s.stack.last();
    let s0 = s.pop();
    assert(s0.stack =~= s.stack.drop_last());
    assert(s0.instrs == s.instrs && s0.frames == s.frames && s0.fuel == s.fuel && s0.consts == s.consts);
    if s.fuel is Some && s.top_frame_reachable() {
        assert(s.frame_ok(s.frames[s.frames.len() - 1]));
    }
    let kind = crate::translator::FuelKind::Instance;
    match value {
        Provider::Register(input) => {
            lemma_push_fueled_appends(s0, Instruction::GlobalSet { input, global }, kind);
        },
        Provider::Const(v) => match signed_imm16(content, v.bits) {
            Some(imm) => {
                let instr = if content == ValType::I32 {
                    Instruction::GlobalSetI32Imm16 { input: imm, global }
                } else {
                    Instruction::GlobalSetI64Imm16 { input: imm, global }
                };
                lemma_push_fueled_appends(s0, instr, kind);
            },
            None => {
                lemma_provider_reg_reads(s0, value);
                let (s1, c) = s0.alloc_const(v)->Ok_0;
                lemma_push_fueled_appends(s1, Instruction::GlobalSet { input: c, global }, kind);
            },
        },
    }
}

/// `global.get` of an immutable global with a constant initializer pushes
/// that constant and emits nothing; of any other global that is not a
/// function reference it reads the global into a new top register.
pub proof fn lemma_global_get_result(s: TState, global: u32, mutable: bool, init: crate::module::GlobalInit)
    requires
        s.wf(),
        s.reachable,
        s.global_get(global, mutable, init) is Ok,
    ensures
        ({
            let t = s.global_get(global, mutable, init)->Ok_0;
            &&& t.stack.len() == s.stack.len() + 1
            &&& t.stack.drop_last() == s.stack
            &&& !mutable && init is Const ==> t.stack.last() == Provider::Const(init->Const_0) && t.instrs
                == s.instrs
            &&& (mutable || !(init is Const || init is FuncRef)) ==> t.stack.last() is Register
                && t.instrs.len() == s.instrs.len() + 1 && t.instrs.last() == Instruction::GlobalGet {
                result: t.stack.last()->Register_0,
                global,
            }
        }),
{
    if s.fuel is Some && s.top_frame_reachable() {
        assert(s.frame_ok(s.frames[s.frames.len() - 1]));
    }
    if !mutable && init is Const {
        assert(s.push(Provider::Const(init->Const_0)).stack.drop_last() =~= s.stack);
    } else if !mutable && init is FuncRef {
        let s1 = s.push_dynamic()->Ok_0;
        assert(s1.stack.drop_last() =~= s.stack);
    } else {
        let s1 = s.push_dynamic()->Ok_0;
        assert(s1.stack.drop_last() =~= s.stack);
        lemma_push_fueled_appends(s1, Instruction::GlobalGet { result: Reg(s.next_dyn() as i16), global }, crate::translator::FuelKind::Instance);
    }
}

/// `local.set n` of a value other than local `n` itself ends by writing
/// that value into local `n`: a register copy or a constant copy, or
/// nothing when the value already is in that register; `local.tee` leaves
/// on the value stack what it stored: the local, or the constant.
#[verifier::spinoff_prover]
pub proof fn lemma_local_set_writes_value(s: TState, local: u32)
    requires
        s.wf(),
        s.reachable,
        local < s.len_locals,
        s.stack.len() >= 1,
        s.local_set(local) is Ok,
    ensures
        ({
            let t = s.local_set(local)->Ok_0;
            let l = Reg(local as i16);
            let value = s.stack.last();
            &&& t.stack.len() == s.stack.len() - 1
            &&& value != Provider::Register(l) ==> match value {
                Provider::Register(r) => t.instrs.last() == Instruction::Copy { result: l, value: r },
                Provider::Const(v) => t.instrs.last() == Instruction::CopyImm { result: l, value: v },
            }
            &&& s.local_tee(local) == Ok::<TState, crate::translator::Failure>(t.push(
                match value {
                    Provider::Register(_) => Provider::Register(l),
                    Provider::Const(v) => Provider::Const(v),
                },
            ))
        }),
{
    let l = Reg(local as i16);
    let g = s.gc_preservations();
    let s1 = g.pop();
    let value = s.stack.last();
    if value != Provider::Register(l) {
        let s2 = if s1.stack.contains(Provider::Register(l)) {
            let s2 = s1.preserve_local(l)->Ok_0;
            crate::frames::lemma_preservation_reg(s1);
            s2
        } else {
            s1
        };
        assert(value is Register ==> value->Register_0.0 != local);
        match crate::frames::copy_instr(local as int, value) {
            Some(instr) => {
                lemma_push_fueled_appends_any(s2, instr, crate::translator::FuelKind::Base);
            },
            None => {},
        }
    }
}

/// Charging fuel and appending an instruction makes it the last one.
proof fn lemma_push_fueled_appends_any(s: TState, instr: Instruction, kind: crate::translator::FuelKind)
    requires
        s.push_fueled(instr, kind) is Ok,
    ensures
        s.push_fueled(instr, kind)->Ok_0.instrs.last() == instr,
        s.push_fueled(instr, kind)->Ok_0.stack == s.stack,
{
}

/// `if` on a register condition pops it, keeps the frame's parameters,
/// and branches to the `else` label when the condition is zero; on a
/// constant condition it emits no branch and reaches exactly the branch
/// that the condition selects.
#[verifier::spinoff_prover]
pub proof fn lemma_if_condition(s: TState, bt: crate::module::BlockType, len_params: nat, len_results: nat)
    requires
        s.wf(),
        s.reachable,
        s.stack.len() >= 1,
        s.if_(bt, len_params, len_results) is Ok,
    ensures
        ({
            let t = s.if_(bt, len_params, len_results)->Ok_0;
            let f = t.frames.last();
            &&& t.frames.len() == s.frames.len() + 1
            &&& f.kind == FrameKind::If
            &&& match s.stack.last() {
                Provider::Register(c) => f.reachability is Both && t.reachable && exists|k: int|
                    0 <= k < t.instrs.len() && t.instrs[k] == Instruction::BranchEqz {
                        condition: c,
                        target: f.reachability->Both_0,
                    },
                Provider::Const(v) => (((v.bits as int) % pow32() != 0) ==> f.reachability
                    == IfReachability::OnlyThen && t.reachable) && (((v.bits as int) % pow32() == 0)
                    ==> f.reachability == IfReachability::OnlyElse && !t.reachable),
            }
        }),
{
    let s0 = s.pop();
    let s1 = s0.preserve_locals()->Ok_0;
    crate::control::lemma_preserve_shape(s0, 0);
    match s.stack.last() {
        Provider::Register(c) => {
            let (s2, end_label) = s1.new_label();
            let bp = s2.alloc_branch_params(len_params, len_results);
            let (s3, r) = bp->Ok_0;
            let (s4, else_label) = s3.new_label();
            let instr = Instruction::BranchEqz { condition: c, target: else_label };
            lemma_push_fueled_appends_any(s4, instr, crate::translator::FuelKind::Base);
            let s5 = s4.push_fueled(instr, crate::translator::FuelKind::Base)->Ok_0;
            let (s6, fi) = s5.make_fuel_instr();
            assert(s5.instrs.len() > 0);
            assert(s6.instrs[s5.instrs.len() - 1] == instr);
            let t = s.if_(bt, len_params, len_results)->Ok_0;
            assert(t.instrs[s5.instrs.len() - 1] == instr);
        },
        Provider::Const(_) => {},
    }
}

/// The instructions of `t` from `k` to `end` copy the providers `ps` into
/// the registers `first, first + 1, ...`: none when they stand there
/// already, one copy for a single provider, and otherwise a `CopyMany` of
/// that many registers followed by the providers in order.
pub open spec fn copies_into(t: TState, k: int, end: int, first: int, ps: Seq<Provider>) -> bool {
    if ps == crate::regs::dyn_span(first, ps.len()) {
        end == k
    } else if ps.len() == 1 {
        &&& end == k + 1
        &&& match ps[0] {
            Provider::Register(r) => t.instrs[k] == Instruction::Copy { result: Reg(first as i16), value: r },
            Provider::Const(v) => t.instrs[k] == Instruction::CopyImm { result: Reg(first as i16), value: v },
        }
    } else {
        &&& end == k + 1 + ps.len()
        &&& t.instrs[k] == Instruction::CopyMany { results: Reg(first as i16), len: ps.len() as u32 }
        &&& forall|j: int| 0 <= j < ps.len() ==> passes(t, k + 1 + j, #[trigger] ps[j])
    }
}

/// Copies emit exactly the copy of their providers into the target
/// registers, after the instructions already there.
pub proof fn lemma_copies_meaning(s: TState, first: int, ps: Seq<Provider>)
    requires
        s.consts.len() <= reg_space(),
        s.fuel_instr() matches Some(idx) ==> idx < s.instrs.len(),
        s.copies(first, ps) is Ok,
    ensures
        ({
            let t = s.copies(first, ps)->Ok_0;
            &&& copies_into(t, s.instrs.len() as int, t.instrs.len() as int, first, ps)
            &&& consts_kept(s, t)
            &&& t.consts.len() <= reg_space()
            &&& t.instrs.len() >= s.instrs.len()
            &&& forall|j: int|
                0 <= j < s.instrs.len() && !(s.fuel_instr() matches Some(idx) && idx == j) ==> #[trigger] t.instrs[j]
                    == s.instrs[j]
        }),
{
    let k = s.instrs.len() as int;
    if ps != crate::regs::dyn_span(first, ps.len()) {
        if ps.len() == 1 {
            match crate::frames::copy_instr(first, ps[0]) {
                Some(instr) => {
                    lemma_push_fueled_appends(s, instr, crate::translator::FuelKind::Base);
                    if let Provider::Register(r) = ps[0] {
                        if r.0 == first {
                            assert(ps =~= crate::regs::dyn_span(first, 1));
                        }
                    }
                },
                None => {
                    if let Provider::Register(r) = ps[0] {
                        assert(ps =~= crate::regs::dyn_span(first, 1));
                    }
                },
            }
        } else {
            let instr = Instruction::CopyMany { results: Reg(first as i16), len: ps.len() as u32 };
            lemma_push_fueled_appends(s, instr, crate::translator::FuelKind::Base);
            let s1 = s.push_fueled(instr, crate::translator::FuelKind::Base)->Ok_0;
            lemma_register_list_reads(s1, ps);
            let t = s1.register_list(ps)->Ok_0;
            assert(t.instrs.take(s1.instrs.len() as int)[k] == s1.instrs[k]);
            assert forall|j: int| 0 <= j < s.instrs.len() && !(s.fuel_instr() matches Some(idx) && idx == j) implies #[trigger] t.instrs[j]
                == s.instrs[j] by {
                assert(t.instrs.take(s1.instrs.len() as int)[j] == s1.instrs[j]);
            }
        }
    }
}

/// `br` to an enclosing frame other than the function body copies the
/// values on top of the value stack into that frame's branch registers
/// before it branches to the frame's label.
#[verifier::spinoff_prover]
pub proof fn lemma_br_copies_into_branch_registers(s: TState, depth: nat)
    requires
        s.wf(),
        s.reachable,
        depth < s.frames.len() - 1,
        s.stack.len() >= s.frames[s.target_index(depth)].len_branch_params,
        s.br_(depth) is Ok,
    ensures
        ({
            let t = s.br_(depth)->Ok_0;
            let f = s.frames[s.frames.len() - 1 - depth];
            let n = f.len_branch_params;
            let values = s.stack.subrange(s.stack.len() - n, s.stack.len() as int);
            &&& t.instrs.len() > s.instrs.len()
            &&& copies_into(t, s.instrs.len() as int, t.instrs.len() - 1, f.branch_params.0 as int, values)
            &&& t.instrs.last() == Instruction::Branch { target: f.label }
        }),
{
    let i = s.frames.len() - 1 - depth;
    let f = s.frames[i];
    let s1 = s.branch_to(i);
    let values = s1.top_values(f.len_branch_params);
    let s2 = s1.trunc((s1.stack.len() - f.len_branch_params) as nat);
    assert(s2.instrs == s.instrs && s2.consts == s.consts && s2.fuel == s.fuel);
    assert(s2.frames.len() == s.frames.len());
    assert(s.frame_ok(s.frames[s.frames.len() - 1]));
    assert(s2.fuel_instr() == s.fuel_instr()) by {
        assert(s2.frames.last() == s.frames.last() || (i == s.frames.len() - 1 && s2.frames.last().fuel_instr
            == s.frames.last().fuel_instr));
    }
    lemma_copies_meaning(s2, f.branch_params.0 as int, values);
    let s3 = s2.copies(f.branch_params.0 as int, values)->Ok_0;
    lemma_copies_shape(s2, f.branch_params.0 as int, values);
    lemma_push_fueled_appends(s3, Instruction::Branch { target: f.label }, crate::translator::FuelKind::Base);
    let s4 = s3.push_fueled(Instruction::Branch { target: f.label }, crate::translator::FuelKind::Base)->Ok_0;
    assert(s3.fuel_instr() == s2.fuel_instr());
    let b = s3.bump_fuel(s3.cost(crate::translator::FuelKind::Base))->Ok_0;
    assert forall|j: int| s.instrs.len() <= j < s3.instrs.len() implies s4.instrs[j] == s3.instrs[j] by {
        assert(b.instrs[j] == s3.instrs[j]);
    }
    lemma_copies_into_kept(s3, s4, s.instrs.len() as int, s3.instrs.len() as int, f.branch_params.0 as int, values);
}

/// Copies stay what they are when their instructions and the constants do.
proof fn lemma_copies_into_kept(t: TState, u: TState, k: int, end: int, first: int, ps: Seq<Provider>)
    requires
        copies_into(t, k, end, first, ps),
        0 <= k <= end <= t.instrs.len(),
        end <= u.instrs.len(),
        forall|j: int| k <= j < end ==> u.instrs[j] == t.instrs[j],
        consts_kept(t, u),
    ensures
        copies_into(u, k, end, first, ps),
{
    if ps != crate::regs::dyn_span(first, ps.len()) && ps.len() != 1 {
        assert forall|j: int| 0 <= j < ps.len() implies passes(u, k + 1 + j, #[trigger] ps[j]) by {
            assert(passes(t, k + 1 + j, ps[j]));
            assert(u.instrs[k + 1 + j] == t.instrs[k + 1 + j]);
            lemma_reads_kept(t, u, t.instrs[k + 1 + j]->Register_reg, ps[j]);
        }
    }
}

/// A binary operator on two constants is folded: the value of the
/// operator on them replaces them on the value stack with nothing emitted,
/// a trap of the operator is translated as that trap, and a float result
/// is handed back with both operands, left first.
pub proof fn lemma_binary_constants(s: TState, op: BinOp, a: TypedVal, b: TypedVal)
    requires
        s.reachable,
        s.stack.len() >= 2,
        s.stack[s.stack.len() - 2] == Provider::Const(a),
        s.stack.last() == Provider::Const(b),
        s.binary(op) is Ok,
    ensures
        ({
            let (t, fold) = s.binary(op)->Ok_0;
            let n = s.stack.len();
            match fold_binary(op, a.bits, b.bits) {
                Folded::Value(v) => t.stack == s.stack.take(n - 2).push(Provider::Const(v)) && t.instrs
                    == s.instrs && fold is None,
                Folded::Trap(code) => !t.reachable && t.instrs.last() == Instruction::Trap { code } && fold is None,
                Folded::Float => t.stack == s.stack.take(n - 2) && fold == Some(
                    FloatFold::Binary { op, lhs: a, rhs: b },
                ),
            }
        }),
{
    let n = s.stack.len();
    let s1 = s.pop();
    assert(s1.stack.last() == Provider::Const(a));
    assert(s1.pop().stack =~= s.stack.take(n - 2));
}

/// A unary operator on a constant is folded like a binary one; on a
/// register it is one instruction that reads that register and writes the
/// new top register.
pub proof fn lemma_unary_operand(s: TState, op: UnOp)
    requires
        s.reachable,
        s.stack.len() >= 1,
        s.unary(op) is Ok,
    ensures
        ({
            let (t, fold) = s.unary(op)->Ok_0;
            let n = s.stack.len();
            match s.stack.last() {
                Provider::Const(v) => match fold_unary(op, v.bits) {
                    Folded::Value(x) => t.stack == s.stack.drop_last().push(Provider::Const(x)) && t.instrs
                        == s.instrs && fold is None,
                    Folded::Trap(code) => !t.reachable && t.instrs.last() == Instruction::Trap { code } && fold
                        is None,
                    Folded::Float => t.stack == s.stack.drop_last() && fold == Some(
                        FloatFold::Unary { op, input: v },
                    ),
                },
                Provider::Register(r) => t.stack.len() == n && t.stack.drop_last() == s.stack.drop_last()
                    && t.stack.last() is Register && t.instrs.last() == Instruction::Unary {
                    op,
                    result: t.stack.last()->Register_0,
                    input: r,
                } && fold is None,
            }
        }),
{
    let s0 = s.pop();
    if let Provider::Register(r) = s.stack.last() {
        let s1 = s0.push_dynamic()->Ok_0;
        assert(s1.stack.drop_last() =~= s0.stack);
    }
}

/// `br_if` on a register condition leaves the values on the value stack
/// and marks the target frame as branched to. When the values already
/// stand in the frame's branch registers it is one branch to the frame's
/// label taken when the condition is not zero; otherwise a branch taken
/// when the condition is zero skips the copies of the values into the
/// branch registers and the branch to the frame's label that follow.
#[verifier::spinoff_prover]
pub proof fn lemma_br_if_register(s: TState, depth: nat, c: Reg)
    requires
        s.wf(),
        s.reachable,
        depth < s.frames.len(),
        s.stack.len() >= 1 + s.frames[s.target_index(depth)].len_branch_params,
        s.stack.last() == Provider::Register(c),
        s.br_if(depth) is Ok,
    ensures
        ({
            let t = s.br_if(depth)->Ok_0;
            let i = s.frames.len() - 1 - depth;
            let f = s.frames[i];
            let n = f.len_branch_params;
            let k = s.instrs.len() as int;
            let values = s.stack.subrange(s.stack.len() - 1 - n, s.stack.len() - 1);
            &&& t.stack == s.stack.drop_last()
            &&& t.reachable
            &&& t.frames[i].branched_to
            &&& t.instrs.len() > k
            &&& values == crate::regs::dyn_span(f.branch_params.0 as int, n) ==> t.instrs.len() == k + 1
                && t.instrs[k] == Instruction::BranchNez { condition: c, target: f.label }
            &&& values != crate::regs::dyn_span(f.branch_params.0 as int, n) ==> t.instrs[k] is BranchEqz
                && t.instrs[k]->BranchEqz_condition == c && copies_into(
                t,
                k + 1,
                t.instrs.len() - 1,
                f.branch_params.0 as int,
                values,
            ) && t.instrs.last() == Instruction::Branch { target: f.label } && t.labels[t.instrs[k]->BranchEqz_target.0 as int]
                == Some(t.instrs.len() as usize)
        }),
{
    let k = s.instrs.len() as int;
    let s0 = s.pop();
    assert(s0.stack =~= s.stack.drop_last());
    let i = s0.target_index(depth);
    let f = s0.frames[i];
    let s1 = s0.branch_to(i);
    let n = f.len_branch_params;
    let values = s1.top_values(n);
    assert(values =~= s.stack.subrange(s.stack.len() - 1 - n, s.stack.len() - 1));
    assert(s.frame_ok(s.frames[s.frames.len() - 1]));
    assert(s1.fuel_instr() == s.fuel_instr()) by {
        assert(s1.frames.last().fuel_instr == s.frames.last().fuel_instr);
    }
    if values == crate::regs::dyn_span(f.branch_params.0 as int, n) {
        lemma_push_fueled_appends(s1, Instruction::BranchNez { condition: c, target: f.label }, crate::translator::FuelKind::Base);
    } else {
        let (s2, skip) = s1.new_label();
        let eqz = Instruction::BranchEqz { condition: c, target: skip };
        lemma_push_fueled_appends(s2, eqz, crate::translator::FuelKind::Base);
        let s3 = s2.push_fueled(eqz, crate::translator::FuelKind::Base)->Ok_0;
        assert(s3.fuel_instr() == s2.fuel_instr());
        lemma_copies_meaning(s3, f.branch_params.0 as int, values);
        lemma_copies_shape(s3, f.branch_params.0 as int, values);
        let s4 = s3.copies(f.branch_params.0 as int, values)->Ok_0;
        let br = Instruction::Branch { target: f.label };
        assert(s4.fuel_instr() == s2.fuel_instr());
        lemma_push_fueled_appends(s4, br, crate::translator::FuelKind::Base);
        let s5 = s4.push_fueled(br, crate::translator::FuelKind::Base)->Ok_0;
        let b = s4.bump_fuel(s4.cost(crate::translator::FuelKind::Base))->Ok_0;
        assert forall|j: int| k < j < s4.instrs.len() implies s5.instrs[j] == s4.instrs[j] by {
            assert(b.instrs[j] == s4.instrs[j]);
        }
        lemma_copies_into_kept(s4, s5, k + 1, s4.instrs.len() as int, f.branch_params.0 as int, values);
        assert(s2.instrs == s.instrs);
        assert(s3.instrs[k] == eqz);
        assert(s2.fuel_instr() == s1.fuel_instr());
        assert(s.fuel_instr() matches Some(idx) ==> idx < k);
        assert(!(s3.fuel_instr() matches Some(idx) && idx == k));
        assert(s4.instrs[k] == s3.instrs[k]);
        assert(b.instrs[k] == s4.instrs[k]);
        assert(s5.instrs[k] == eqz);
        let t = s5.pin_label(skip);
        lemma_copies_into_kept(s5, t, k + 1, s4.instrs.len() as int, f.branch_params.0 as int, values);
    }
}

/// At the `end` of a `block` inside the function body that a branch
/// targets, a reachable end copies the block's values into its branch
/// registers, and those registers then stand for its results on the value
/// stack above the block's height; the end label is pinned after the
/// copies. A `block` that no branch targets leaves its values where they
/// are and emits nothing.
#[verifier::spinoff_prover]
pub proof fn lemma_block_end_results(s: TState)
    requires
        s.wf(),
        s.frames.len() > 1,
        !s.frames.last().in_unreachable_code,
        s.frames.last().kind == FrameKind::Block,
        s.reachable ==> s.frames.last().height + s.frames.last().len_branch_params <= s.stack.len(),
        s.end() is Ok,
    ensures
        ({
            let t = s.end()->Ok_0;
            let f = s.frames.last();
            let n = f.len_branch_params;
            let k = s.instrs.len() as int;
            let values = s.stack.subrange(s.stack.len() - n, s.stack.len() as int);
            &&& f.branched_to ==> t.stack == s.stack.take(f.height as int) + crate::regs::dyn_span(
                f.branch_params.0 as int,
                n,
            ) && t.labels[f.label.0 as int] == Some(t.instrs.len() as usize)
            &&& f.branched_to && s.reachable ==> copies_into(
                t,
                k,
                t.instrs.len() as int,
                f.branch_params.0 as int,
                values,
            )
            &&& !f.branched_to ==> t.stack == s.stack && t.instrs == s.instrs
        }),
{
    let f = s.frames.last();
    let n = f.len_branch_params;
    assert(s.frame_ok(s.frames[s.frames.len() - 1]));
    if s.reachable && f.branched_to {
        let values = s.top_values(n);
        lemma_copies_meaning(s, f.branch_params.0 as int, values);
        lemma_copies_shape(s, f.branch_params.0 as int, values);
        let s1 = s.copies(f.branch_params.0 as int, values)->Ok_0;
        let t = s.end()->Ok_0;
        lemma_copies_into_kept(s1, t, s.instrs.len() as int, s1.instrs.len() as int, f.branch_params.0 as int, values);
    }
}

/// `loop` takes its parameters in its branch registers, which then stand
/// for them on the value stack: branches back to the loop carry the
/// parameters, not the results. Its label, the target of those branches,
/// is pinned, and when fuel is metered it is the loop's own fuel
/// instruction, so that each iteration is charged.
#[verifier::spinoff_prover]
pub proof fn lemma_loop_header(s: TState, bt: crate::module::BlockType, len_params: nat, len_results: nat)
    requires
        s.wf(),
        s.reachable,
        len_params <= s.stack.len(),
        s.loop_(bt, len_params, len_results) is Ok,
    ensures
        ({
            let t = s.loop_(bt, len_params, len_results)->Ok_0;
            let f = t.frames.last();
            let h = s.stack.len() - len_params;
            &&& t.frames.len() == s.frames.len() + 1
            &&& f.kind == FrameKind::Loop
            &&& f.len_branch_params == len_params
            &&& f.len_results == len_results
            &&& f.height == h
            &&& t.reachable
            &&& t.stack.len() == s.stack.len()
            &&& t.stack.subrange(h, t.stack.len() as int) == crate::regs::dyn_span(f.branch_params.0 as int, len_params)
            &&& t.labels[f.label.0 as int] is Some
            &&& t.fuel is Some ==> f.fuel_instr == t.labels[f.label.0 as int]
        }),
{
    crate::control::lemma_preserve_shape(s, 0);
    let s1 = s.preserve_locals()->Ok_0;
    let params = s1.top_values(len_params);
    let height = (s1.stack.len() - len_params) as nat;
    let s2 = s1.trunc(height);
    let bp = s2.next_dyn();
    let s3 = s2.push_dynamic_n(len_params)->Ok_0;
    assert(s3.stack.subrange(height as int, s3.stack.len() as int) =~= crate::regs::dyn_span(bp, len_params));
    lemma_copies_shape(s3, bp, params);
}

/// 128-bit addition does not depend on the order of its operands, and the
/// low halves of a 128-bit sum or difference are the 64-bit sum or
/// difference of the low halves; the low half of a widening product is the
/// 64-bit product, signed or not, and the product does not depend on the
/// order of its operands.
#[verifier::spinoff_prover]
pub proof fn lemma_wide_arithmetic(a_lo: u64, a_hi: u64, b_lo: u64, b_hi: u64, signed: bool)
    ensures
        eval128(WideOp::Add128, a_lo, a_hi, b_lo, b_hi) == eval128(WideOp::Add128, b_lo, b_hi, a_lo, a_hi),
        eval128(WideOp::Add128, a_lo, a_hi, b_lo, b_hi).0 as int == (a_lo as int + b_lo as int) % pow64(),
        eval128(WideOp::Sub128, a_lo, a_hi, b_lo, b_hi).0 as int == (a_lo as int - b_lo as int) % pow64(),
        eval_mul_wide(signed, a_lo, b_lo) == eval_mul_wide(signed, b_lo, a_lo),
        eval_mul_wide(signed, a_lo, b_lo).0 as int == (a_lo as int * b_lo as int) % pow64(),
{
    let p = pow64();
    assert(p == 0x1_0000_0000_0000_0000);
    assert(pow128() == p * p);
    let a = join128(a_lo, a_hi);
    let b = join128(b_lo, b_hi);
    vstd::arithmetic::div_mod::lemma_mod_mod(a + b, p, p);
    vstd::arithmetic::div_mod::lemma_mod_mod(a - b, p, p);
    assert((a + b) % p == (a_lo as int + b_lo as int) % p) by {
        vstd::arithmetic::div_mod::lemma_mod_multiples_vanish(a_hi as int + b_hi as int, a_lo as int + b_lo as int, p);
        vstd::arithmetic::mul::lemma_mul_is_distributive_add(p, a_hi as int, b_hi as int);
        vstd::arithmetic::mul::lemma_mul_is_commutative(a_hi as int, p);
        vstd::arithmetic::mul::lemma_mul_is_commutative(b_hi as int, p);
    }
    assert((a - b) % p == (a_lo as int - b_lo as int) % p) by {
        vstd::arithmetic::div_mod::lemma_mod_multiples_vanish(a_hi as int - b_hi as int, a_lo as int - b_lo as int, p);
        vstd::arithmetic::mul::lemma_mul_is_distributive_sub(p, a_hi as int, b_hi as int);
        vstd::arithmetic::mul::lemma_mul_is_commutative(a_hi as int, p);
        vstd::arithmetic::mul::lemma_mul_is_commutative(b_hi as int, p);
    }
    let ua = a_lo as int;
    let ub = b_lo as int;
    assert(ua * ub == ub * ua) by (nonlinear_arith);
    let sa = s64(a_lo);
    let sb = s64(b_lo);
    assert(sa * sb == sb * sa) by (nonlinear_arith);
    vstd::arithmetic::div_mod::lemma_mod_mod(ua * ub, p, p);
    vstd::arithmetic::div_mod::lemma_mod_mod(sa * sb, p, p);
    assert((sa * sb) % p == (ua * ub) % p) by {
        let da = if a_lo < 0x8000_0000_0000_0000 { 0int } else { -1int };
        let db = if b_lo < 0x8000_0000_0000_0000 { 0int } else { -1int };
        assert(sa == p * da + ua);
        assert(sb == p * db + ub);
        vstd::arithmetic::div_mod::lemma_mod_multiples_vanish(da, ua, p);
        vstd::arithmetic::div_mod::lemma_mod_multiples_vanish(db, ub, p);
        vstd::arithmetic::div_mod::lemma_small_mod(ua as nat, p as nat);
        vstd::arithmetic::div_mod::lemma_small_mod(ub as nat, p as nat);
        vstd::arithmetic::div_mod::lemma_mul_mod_noop(sa, sb, p);
        vstd::arithmetic::div_mod::lemma_mul_mod_noop(ua, ub, p);
    }
}

/// A 128-bit addition or subtraction that is not folded reads the low and
/// high halves of its left operand from the deepest two of its four
/// operands and those of its right operand from the top two, and writes the
/// two new top registers, low half first; on four constants the folded
/// halves replace them.
#[verifier::spinoff_prover]
pub proof fn lemma_wide128_operands(s: TState, op: WideOp)
    requires
        s.wf(),
        s.reachable,
        s.stack.len() >= 4,
        s.binop128(op) is Ok,
    ensures
        ({
            let t = s.binop128(op)->Ok_0;
            let n = s.stack.len();
            let (a, b, c, d) = (s.stack[n - 4], s.stack[n - 3], s.stack[n - 2], s.stack[n - 1]);
            &&& t.stack.len() == n - 2
            &&& t.stack.take(n - 4) == s.stack.take(n - 4)
            &&& (a is Const && b is Const && c is Const && d is Const) ==> ({
                let (lo, hi) = eval128(op, a->Const_0.bits, b->Const_0.bits, c->Const_0.bits, d->Const_0.bits);
                t.stack[n - 4] == Provider::Const(TypedVal::spec_i64(lo)) && t.stack[n - 3] == Provider::Const(
                    TypedVal::spec_i64(hi),
                )
            })
            &&& !(a is Const && b is Const && c is Const && d is Const) ==> t.stack[n - 4] is Register
                && t.stack[n - 3] == Provider::Register(Reg((t.stack[n - 4]->Register_0.0 + 1) as i16))
            &&& !(a is Const && b is Const && c is Const && d is Const) ==> (t.instrs.last() matches Instruction::Wide128 {
                op: o,
                results,
                lhs_lo,
                lhs_hi,
                rhs_lo,
                rhs_hi,
            } && o == op && results == t.stack[n - 4]->Register_0 && reads(t, lhs_lo, a) && reads(t, lhs_hi, b)
                && reads(t, rhs_lo, c) && reads(t, rhs_hi, d))
        }),
{
    let n = s.stack.len();
    let (a, b, c, d) = (s.stack[n - 4], s.stack[n - 3], s.stack[n - 2], s.stack[n - 1]);
    let s0 = s.pop().pop().pop().pop();
    assert(s0.stack =~= s.stack.take(n - 4));
    assert(s0.consts == s.consts);
    if !(a is Const && b is Const && c is Const && d is Const) {
        lemma_provider_reg_reads(s0, a);
        let (s1, ra) = s0.provider_reg(a)->Ok_0;
        lemma_provider_reg_reads(s1, b);
        let (s2, rb) = s1.provider_reg(b)->Ok_0;
        lemma_provider_reg_reads(s2, c);
        let (s3, rc) = s2.provider_reg(c)->Ok_0;
        lemma_provider_reg_reads(s3, d);
        let (s4, rd) = s3.provider_reg(d)->Ok_0;
        lemma_reads_kept(s1, s4, ra, a);
        lemma_reads_kept(s2, s4, rb, b);
        lemma_reads_kept(s3, s4, rc, c);
        let s5 = s4.push_dynamic_n(2)->Ok_0;
        assert(s5.stack[n - 4] == Provider::Register(Reg(s4.next_dyn() as i16)));
        assert(s5.stack[n - 3] == Provider::Register(Reg((s4.next_dyn() + 1) as i16)));
    }
}

/// A widening multiplication that is neither folded nor simplified reads
/// its left factor from the lower operand and its right factor from the
/// top one, and writes the two new top registers.
#[verifier::spinoff_prover]
pub proof fn lemma_mul_wide_operands(s: TState, signed: bool)
    requires
        s.wf(),
        s.reachable,
        s.stack.len() >= 2,
        s.mul_wide(signed) is Ok,
    ensures
        ({
            let t = s.mul_wide(signed)->Ok_0;
            let n = s.stack.len();
            let (a, b) = (s.stack[n - 2], s.stack[n - 1]);
            &&& t.stack.len() == n
            &&& t.stack.take(n - 2) == s.stack.take(n - 2)
            &&& t.instrs.len() > s.instrs.len() ==> (t.instrs.last() matches Instruction::MulWide {
                signed: sg,
                results,
                lhs,
                rhs,
            } && sg == signed && t.stack[n - 2] == Provider::Register(results) && reads(t, lhs, a) && reads(t, rhs, b))
        }),
{
    let n = s.stack.len();
    let (a, b) = (s.stack[n - 2], s.stack[n - 1]);
    let s0 = s.pop().pop();
    assert(s0.stack =~= s.stack.take(n - 2));
    assert(s0.consts == s.consts);
    match (a, b) {
        (Provider::Register(l), Provider::Const(c)) => {
            if !(c.bits == 0 || (c.bits == 1 && !signed)) {
                lemma_provider_reg_reads(s0, b);
            }
        },
        (Provider::Const(c), Provider::Register(r)) => {
            if !(c.bits == 0 || (c.bits == 1 && !signed)) {
                lemma_provider_reg_reads(s0, a);
            }
        },
        _ => {},
    }
}

/// `memory.grow` grows by the operand on top into the new top register:
/// from a register that reads it or by the constant delta it stands for;
/// by the constant zero it is a query of the size.
#[verifier::spinoff_prover]
pub proof fn lemma_memory_grow_operand(s: TState, memory: u32, ty: IndexType)
    requires
        s.wf(),
        s.reachable,
        s.stack.len() >= 1,
        s.memory_grow(memory, ty) is Ok,
    ensures
        ({
            let t = s.memory_grow(memory, ty)->Ok_0;
            let delta = s.stack.last();
            let k = s.instrs.len() as int;
            &&& t.stack.len() == s.stack.len()
            &&& t.stack.drop_last() == s.stack.drop_last()
            &&& t.stack.last() is Register
            &&& t.instrs.len() > k
            &&& match t.instrs[k] {
                Instruction::MemorySize { result, memory: m } => m == memory && result == t.stack.last()->Register_0
                    && imm_index(0, delta, ty),
                Instruction::MemoryGrow { result, delta: r } => result == t.stack.last()->Register_0 && reads(
                    t,
                    r,
                    delta,
                ) && t.instrs.len() == k + 2 && t.instrs[k + 1] == Instruction::MemoryIndex { index: memory },
                Instruction::MemoryGrowImm { result, delta: x } => result == t.stack.last()->Register_0 && x != 0
                    && imm_index(x, delta, ty) && t.instrs.len() == k + 2 && t.instrs[k + 1]
                    == Instruction::MemoryIndex { index: memory },
                _ => false,
            }
        }),
{
    let delta = s.stack.last();
    let s0 = s.pop();
    assert(s0.stack =~= s.stack.drop_last());
    assert(s0.instrs == s.instrs && s0.frames == s.frames && s0.fuel == s.fuel && s0.consts == s.consts);
    assert(s.frame_ok(s.frames[s.frames.len() - 1]));
    let d_arg = s0.index_arg(delta, ty, u32::MAX as u64);
    if let Provider::Const(v) = delta {
        if index_value(v, ty) > u32::MAX {
            lemma_provider_reg_reads(s0, delta);
        }
    }
    let (s1, d) = d_arg->Ok_0;
    let s2 = s1.push_dynamic()->Ok_0;
    assert(s2.stack.drop_last() =~= s0.stack);
    let result = Reg(s1.next_dyn() as i16);
    let kind = crate::translator::FuelKind::Instance;
    if d == IndexArg::Imm(0) {
        lemma_push_fueled_appends(s2, Instruction::MemorySize { result, memory }, kind);
    } else {
        let instr = match d {
            IndexArg::Imm(x) => Instruction::MemoryGrowImm { result, delta: x },
            IndexArg::Reg(r) => Instruction::MemoryGrow { result, delta: r },
        };
        lemma_push_fueled_appends(s2, instr, kind);
    }
}

/// `table.grow` grows by the operand on top, filling with the operand below
/// it, into the new top register; by the constant zero it is a query of the
/// size.
#[verifier::spinoff_prover]
pub proof fn lemma_table_grow_operands(s: TState, table: u32, ty: IndexType)
    requires
        s.wf(),
        s.reachable,
        s.stack.len() >= 2,
        s.table_grow(table, ty) is Ok,
    ensures
        ({
            let t = s.table_grow(table, ty)->Ok_0;
            let n = s.stack.len();
            let value = s.stack[n - 2];
            let delta = s.stack[n - 1];
            let k = s.instrs.len() as int;
            &&& t.stack.len() == n - 1
            &&& t.stack.take(n - 2) == s.stack.take(n - 2)
            &&& t.stack.last() is Register
            &&& t.instrs.len() > k
            &&& match t.instrs[k] {
                Instruction::TableSize { result, table: tb } => tb == table && result == t.stack.last()->Register_0
                    && imm_index(0, delta, ty),
                Instruction::TableGrow { result, delta: r, value: v } => result == t.stack.last()->Register_0
                    && reads(t, r, delta) && reads(t, v, value),
                Instruction::TableGrowImm { result, delta: x, value: v } => result == t.stack.last()->Register_0
                    && x != 0 && imm_index(x as u64, delta, ty) && reads(t, v, value),
                _ => false,
            }
        }),
{
    let n = s.stack.len();
    let value = s.stack[n - 2];
    let delta = s.stack[n - 1];
    let s0 = s.pop().pop();
    assert(s0.stack =~= s.stack.take(n - 2));
    assert(s0.instrs == s.instrs && s0.frames == s.frames && s0.fuel == s.fuel && s0.consts == s.consts);
    assert(s.frame_ok(s.frames[s.frames.len() - 1]));
    let d_arg = s0.index_arg(delta, ty, 0xffff);
    if let Provider::Const(v) = delta {
        if index_value(v, ty) > 0xffff {
            lemma_provider_reg_reads(s0, delta);
        }
    }
    let (s1, d) = d_arg->Ok_0;
    let kind = crate::translator::FuelKind::Instance;
    if d == IndexArg::Imm(0) {
        let s2 = s1.push_dynamic()->Ok_0;
        assert(s2.stack.take(n - 2) =~= s0.stack);
        lemma_push_fueled_appends(s2, Instruction::TableSize { result: Reg(s1.next_dyn() as i16), table }, kind);
    } else {
        lemma_provider_reg_reads(s1, value);
        let (s2, v) = s1.provider_reg(value)->Ok_0;
        if let IndexArg::Reg(r) = d {
            lemma_reads_kept(s1, s2, r, delta);
        }
        let s3 = s2.push_dynamic()->Ok_0;
        assert(s3.stack.take(n - 2) =~= s0.stack);
        let result = Reg(s2.next_dyn() as i16);
        let instr = match d {
            IndexArg::Reg(r) => Instruction::TableGrow { result, delta: r, value: v },
            IndexArg::Imm(x) => Instruction::TableGrowImm { result, delta: x as u16, value: v },
        };
        lemma_push_fueled_appends(s3, instr, kind);
    }
}

/// `table.get` reads the element at the index on top into the new top
/// register: from a register that reads the index or at the constant index.
#[verifier::spinoff_prover]
pub proof fn lemma_table_get_operand(s: TState, table: u32, ty: IndexType)
    requires
        s.wf(),
        s.reachable,
        s.stack.len() >= 1,
        s.table_get(table, ty) is Ok,
    ensures
        ({
            let t = s.table_get(table, ty)->Ok_0;
            let index = s.stack.last();
            let k = s.instrs.len() as int;
            &&& t.stack.drop_last() == s.stack.drop_last()
            &&& t.stack.last() is Register
            &&& t.instrs.len() == k + 2
            &&& t.instrs[k + 1] == Instruction::TableIndex { index: table }
            &&& match t.instrs[k] {
                Instruction::TableGet { result, index: r } => result == t.stack.last()->Register_0 && reads(
                    t,
                    r,
                    index,
                ),
                Instruction::TableGetImm { result, index: x } => result == t.stack.last()->Register_0 && imm_index(
                    x,
                    index,
                    ty,
                ),
                _ => false,
            }
        }),
{
    let index = s.stack.last();
    let s0 = s.pop();
    assert(s0.instrs == s.instrs && s0.frames == s.frames && s0.fuel == s.fuel && s0.consts == s.consts);
    assert(s.frame_ok(s.frames[s.frames.len() - 1]));
    let s1 = s0.push_dynamic()->Ok_0;
    assert(s1.stack.drop_last() =~= s.stack.drop_last());
    let i_arg = s1.index_arg(index, ty, u32::MAX as u64);
    if let Provider::Const(v) = index {
        if index_value(v, ty) > u32::MAX {
            lemma_provider_reg_reads(s1, index);
        }
    }
    let (s2, i) = i_arg->Ok_0;
    let result = Reg(s0.next_dyn() as i16);
    let instr = match i {
        IndexArg::Reg(r) => Instruction::TableGet { result, index: r },
        IndexArg::Imm(x) => Instruction::TableGetImm { result, index: x },
    };
    lemma_push_fueled_appends(s2, instr, crate::translator::FuelKind::Instance);
}

/// `call_indirect` pops the index into the table first: the call is
/// followed by the parameter that names the table and reads that index
/// (from a register that reads it, or as the constant index), and then by
/// the call's parameters in order.
#[verifier::spinoff_prover]
pub proof fn lemma_call_indirect_index(s: TState, type_index: u32, table: u32, ty: IndexType, len_params: nat, len_results: nat)
    requires
        s.wf(),
        s.reachable,
        s.stack.len() >= 1 + len_params,
        s.call_indirect(type_index, table, ty, len_params, len_results) is Ok,
    ensures
        ({
            let t = s.call_indirect(type_index, table, ty, len_params, len_results)->Ok_0;
            let n = s.stack.len();
            let index = s.stack.last();
            let params = s.stack.subrange(n - 1 - len_params, n - 1);
            let k = s.instrs.len() as int;
            &&& t.instrs.len() == k + 2 + len_params
            &&& t.instrs[k] matches Instruction::Call { callee, .. } && callee == crate::ir::Callee::Indirect(type_index)
            &&& match t.instrs[k + 1] {
                Instruction::CallIndirectParams { index: r, table: tb } => tb == table && reads(t, r, index),
                Instruction::CallIndirectParamsImm16 { index: x, table: tb } => tb == table && imm_index(
                    x as u64,
                    index,
                    ty,
                ),
                _ => false,
            }
            &&& forall|j: int| 0 <= j < len_params ==> passes(t, k + 2 + j, #[trigger] params[j])
        }),
{
    let n = s.stack.len();
    let index = s.stack.last();
    let s0 = s.pop();
    assert(s0.instrs == s.instrs && s0.frames == s.frames && s0.fuel == s.fuel && s0.consts == s.consts);
    assert(s.frame_ok(s.frames[s.frames.len() - 1]));
    let i_arg = s0.index_arg(index, ty, 0xffff);
    if let Provider::Const(v) = index {
        if index_value(v, ty) > 0xffff {
            lemma_provider_reg_reads(s0, index);
        }
    }
    let (s1, i) = i_arg->Ok_0;
    let h = s1.stack.len() - len_params;
    let params = s1.top_values(len_params);
    assert(params =~= s.stack.subrange(n - 1 - len_params, n - 1));
    let s2 = s1.trunc(h as nat);
    let s3 = s2.push_dynamic_n(len_results)->Ok_0;
    let call = Instruction::Call { results: Reg(s2.next_dyn() as i16), callee: crate::ir::Callee::Indirect(type_index), has_params: len_params > 0 };
    assert(s3.fuel_instr() == s.fuel_instr());
    lemma_push_fueled_appends(s3, call, crate::translator::FuelKind::Call);
    let s4 = s3.push_fueled(call, crate::translator::FuelKind::Call)->Ok_0;
    let s5 = s4.push_instr(crate::calls::indirect_params(i, table));
    lemma_register_list_reads(s5, params);
    let t = s5.register_list(params)->Ok_0;
    assert(t.instrs.take(s5.instrs.len() as int)[k_of(s)] == s5.instrs[k_of(s)]);
    assert(t.instrs.take(s5.instrs.len() as int)[k_of(s) + 1] == s5.instrs[k_of(s) + 1]);
    if let IndexArg::Reg(r) = i {
        lemma_reads_kept(s1, t, r, index);
    }
}

/// The position at which the next instruction of `s` goes.
pub open spec fn k_of(s: TState) -> int {
    s.instrs.len() as int
}

/// `return` of several results is a `ReturnMany` of that many values
/// followed by the values on top of the value stack, in order.
#[verifier::spinoff_prover]
pub proof fn lemma_return_many_values(s: TState)
    requires
        s.wf(),
        s.reachable,
        s.len_func_results() >= 2,
        s.stack.len() >= s.len_func_results(),
        s.return_() is Ok,
    ensures
        ({
            let t = s.return_()->Ok_0;
            let m = s.len_func_results();
            let values = s.stack.subrange(s.stack.len() - m, s.stack.len() as int);
            let k = s.instrs.len() as int;
            &&& t.instrs.len() == k + 1 + m
            &&& t.instrs[k] == Instruction::ReturnMany { len_values: m as u32 }
            &&& forall|j: int| 0 <= j < m ==> passes(t, k + 1 + j, #[trigger] values[j])
            &&& !t.reachable
        }),
{
    let m = s.len_func_results();
    let values = s.top_values(m);
    let s1 = s.trunc((s.stack.len() - m) as nat);
    assert(s1.fuel_instr() == s.fuel_instr());
    assert(s.frame_ok(s.frames[s.frames.len() - 1]));
    let rm = Instruction::ReturnMany { len_values: m as u32 };
    lemma_push_fueled_appends(s1, rm, crate::translator::FuelKind::Base);
    let s2 = s1.push_fueled(rm, crate::translator::FuelKind::Base)->Ok_0;
    lemma_register_list_reads(s2, values);
    let t = s2.register_list(values)->Ok_0;
    assert(t.instrs.take(s2.instrs.len() as int)[k_of(s)] == s2.instrs[k_of(s)]);
}

/// At the `end` of an `if` with both branches reachable and a visited
/// `else`, a reachable end of the `else` branch copies its values into the
/// `if`'s branch registers before the end label, which is pinned after the
/// copies; when the code after the `if` is reachable its results are those
/// registers.
#[verifier::spinoff_prover]
pub proof fn lemma_if_else_end_results(s: TState)
    requires
        s.wf(),
        s.frames.len() > 1,
        !s.frames.last().in_unreachable_code,
        s.frames.last().kind == FrameKind::If,
        s.frames.last().reachability is Both,
        s.frames.last().visited_else,
        s.reachable ==> s.frames.last().height + s.frames.last().len_branch_params <= s.stack.len(),
        s.end() is Ok,
    ensures
        ({
            let t = s.end()->Ok_0;
            let f = s.frames.last();
            let n = f.len_branch_params;
            let k = s.instrs.len() as int;
            let values = s.stack.subrange(s.stack.len() - n, s.stack.len() as int);
            &&& t.labels[f.label.0 as int] == Some(t.instrs.len() as usize)
            &&& s.reachable ==> copies_into(t, k, t.instrs.len() as int, f.branch_params.0 as int, values)
            &&& !s.reachable ==> t.instrs == s.instrs
            &&& t.reachable ==> t.stack == s.stack.take(f.height as int) + crate::regs::dyn_span(
                f.branch_params.0 as int,
                n,
            )
        }),
{
    let f = s.frames.last();
    let n = f.len_branch_params;
    assert(s.frame_ok(s.frames[s.frames.len() - 1]));
    if s.reachable {
        let values = s.top_values(n);
        lemma_copies_meaning(s, f.branch_params.0 as int, values);
        lemma_copies_shape(s, f.branch_params.0 as int, values);
        let s1 = s.copies(f.branch_params.0 as int, values)->Ok_0;
        let t = s.end()->Ok_0;
        lemma_copies_into_kept(s1, t, s.instrs.len() as int, s1.instrs.len() as int, f.branch_params.0 as int, values);
    }
}

/// At the `end` of an `if` with both branches reachable and no `else`
/// whose frame has results: a reachable end of `then` copies its values
/// into the branch registers and branches to the end; the `else` label is
/// pinned after that, where the missing `else` copies the parameters kept
/// for it into the same registers; the end label is pinned after those
/// copies, and the code after the `if` is reachable with the registers as
/// its results.
#[verifier::spinoff_prover]
pub proof fn lemma_if_missing_else_end(s: TState, else_label: crate::ir::Label)
    requires
        s.wf(),
        s.frames.len() > 1,
        !s.frames.last().in_unreachable_code,
        s.frames.last().kind == FrameKind::If,
        s.frames.last().reachability == IfReachability::Both(else_label),
        !s.frames.last().visited_else,
        s.frames.last().len_branch_params >= 1,
        s.reachable ==> s.frames.last().height + s.frames.last().len_branch_params <= s.stack.len(),
        s.end() is Ok,
    ensures
        ({
            let t = s.end()->Ok_0;
            let f = s.frames.last();
            let n = f.len_branch_params;
            let bp = f.branch_params.0 as int;
            let k = s.instrs.len() as int;
            let values = s.stack.subrange(s.stack.len() - n, s.stack.len() as int);
            &&& t.reachable
            &&& t.stack == s.stack.take(f.height as int) + crate::regs::dyn_span(bp, n)
            &&& t.labels[f.label.0 as int] == Some(t.instrs.len() as usize)
            &&& s.reachable ==> exists|m: int|
                #![trigger t.instrs[m]]
                k <= m < t.instrs.len() && copies_into(t, k, m, bp, values) && t.instrs[m] == Instruction::Branch {
                    target: f.label,
                } && (else_label != f.label ==> t.labels[else_label.0 as int] == Some((m + 1) as usize)) && copies_into(
                    t,
                    m + 1,
                    t.instrs.len() as int,
                    bp,
                    f.else_providers,
                )
            &&& !s.reachable ==> (else_label != f.label ==> t.labels[else_label.0 as int] == Some(k as usize))
                && copies_into(
                t,
                k,
                t.instrs.len() as int,
                bp,
                f.else_providers,
            )
        }),
{
    let f = s.frames.last();
    let n = f.len_branch_params;
    let bp = f.branch_params.0 as int;
    let k = s.instrs.len() as int;
    let top = s.frames.len() - 1;
    assert(s.frame_ok(s.frames[top]));
    assert(!s.frames[top - 1].in_unreachable_code);
    assert(s.frame_ok(s.frames[top - 1]));
    let kind = crate::translator::FuelKind::Base;
    if s.reachable {
        let values = s.top_values(n);
        lemma_copies_meaning(s, bp, values);
        lemma_copies_shape(s, bp, values);
        let sc = s.copies(bp, values)->Ok_0;
        let sp = sc.charge_to_parent();
        assert(sp.instrs == sc.instrs);
        assert(sp.fuel_instr() matches Some(idx) ==> idx < k);
        let br = Instruction::Branch { target: f.label };
        lemma_push_fueled_appends(sp, br, kind);
        let s1 = sp.push_fueled(br, kind)->Ok_0;
        let m = sc.instrs.len() as int;
        let b = sp.bump_fuel(sp.cost(kind))->Ok_0;
        assert forall|j: int| k <= j < m implies s1.instrs[j] == sc.instrs[j] by {
            assert(b.instrs[j] == sc.instrs[j]);
        }
        lemma_copies_into_kept(sc, s1, k, m, bp, values);
        let s2 = s1.pin_label(else_label);
        assert(s2.fuel_instr() == sp.fuel_instr());
        lemma_copies_meaning(s2, bp, f.else_providers);
        lemma_copies_shape(s2, bp, f.else_providers);
        let s3 = s2.copies(bp, f.else_providers)->Ok_0;
        assert forall|j: int| k <= j <= m implies s3.instrs[j] == s1.instrs[j] by {
            assert(s2.instrs[j] == s1.instrs[j]);
        }
        lemma_copies_into_kept(s1, s3, k, m, bp, values);
        let t = s.end()->Ok_0;
        assert(t.instrs == s3.instrs && t.consts == s3.consts);
        lemma_copies_into_kept(s3, t, k, m, bp, values);
        lemma_copies_into_kept(s3, t, m + 1, s3.instrs.len() as int, bp, f.else_providers);
        assert(t.instrs[m] == br);
    } else {
        let sp = s.charge_to_parent();
        let s2 = sp.pin_label(else_label);
        assert(s2.fuel_instr() matches Some(idx) ==> idx < k);
        lemma_copies_meaning(s2, bp, f.else_providers);
        lemma_copies_shape(s2, bp, f.else_providers);
        let s3 = s2.copies(bp, f.else_providers)->Ok_0;
        let t = s.end()->Ok_0;
        lemma_copies_into_kept(s3, t, k, s3.instrs.len() as int, bp, f.else_providers);
    }
}

/// `else` of an `if` with both branches reachable: a reachable end of
/// `then` copies its values into the `if`'s branch registers and branches
/// to the end; the `else` label is pinned after that; the value stack is
/// reset to what it was when the `if` was entered, with the parameters kept
/// for `else`, and the `else` branch is reachable.
#[verifier::spinoff_prover]
pub proof fn lemma_else_switches_branch(s: TState, else_label: crate::ir::Label)
    requires
        s.wf(),
        s.frames.len() > 1,
        !s.frames.last().in_unreachable_code,
        s.frames.last().kind == FrameKind::If,
        s.frames.last().reachability == IfReachability::Both(else_label),
        s.reachable ==> s.frames.last().height + s.frames.last().len_branch_params <= s.stack.len(),
        s.else_() is Ok,
    ensures
        ({
            let t = s.else_()->Ok_0;
            let f = s.frames.last();
            let n = f.len_branch_params;
            let bp = f.branch_params.0 as int;
            let k = s.instrs.len() as int;
            let values = s.stack.subrange(s.stack.len() - n, s.stack.len() as int);
            &&& t.reachable
            &&& t.stack == s.stack.take(f.height as int) + f.else_providers
            &&& t.frames.len() == s.frames.len()
            &&& t.frames.last().visited_else
            &&& t.frames.last().end_of_then_reachable == Some(s.reachable)
            &&& s.reachable ==> exists|m: int|
                #![trigger t.instrs[m]]
                k <= m < t.instrs.len() && copies_into(t, k, m, bp, values) && t.instrs[m] == Instruction::Branch {
                    target: f.label,
                } && t.labels[else_label.0 as int] == Some((m + 1) as usize)
            &&& !s.reachable ==> t.labels[else_label.0 as int] == Some(k as usize)
        }),
{
    let f = s.frames.last();
    let n = f.len_branch_params;
    let bp = f.branch_params.0 as int;
    let k = s.instrs.len() as int;
    let top = s.frames.len() - 1;
    assert(s.frame_ok(s.frames[top]));
    assert(!s.frames[top - 1].in_unreachable_code);
    assert(s.frame_ok(s.frames[top - 1]));
    let kind = crate::translator::FuelKind::Base;
    assert(s.stack.take(f.height as int).len() == f.height);
    if s.reachable {
        let values = s.top_values(n);
        lemma_copies_meaning(s, bp, values);
        lemma_copies_shape(s, bp, values);
        let sc = s.copies(bp, values)->Ok_0;
        let sp = sc.charge_to_parent();
        assert(sp.fuel_instr() matches Some(idx) ==> idx < k);
        let br = Instruction::Branch { target: f.label };
        lemma_push_fueled_appends(sp, br, kind);
        let s1 = sp.push_fueled(br, kind)->Ok_0;
        let m = sc.instrs.len() as int;
        let b = sp.bump_fuel(sp.cost(kind))->Ok_0;
        assert forall|j: int| k <= j < m implies s1.instrs[j] == sc.instrs[j] by {
            assert(b.instrs[j] == sc.instrs[j]);
        }
        lemma_copies_into_kept(sc, s1, k, m, bp, values);
        let t = s.else_()->Ok_0;
        let s3 = s1.pin_label(else_label);
        let (s4, fi) = s3.make_fuel_instr();
        assert forall|j: int| k <= j <= m implies t.instrs[j] == s1.instrs[j] by {
            assert(s4.instrs[j] == s1.instrs[j]);
        }
        lemma_copies_into_kept(s1, t, k, m, bp, values);
        assert(t.instrs[m] == br);
        assert(t.stack =~= s.stack.take(f.height as int) + f.else_providers);
    } else {
        let t = s.else_()->Ok_0;
        assert(t.stack =~= s.stack.take(f.height as int) + f.else_providers);
    }
}

} // verus!
