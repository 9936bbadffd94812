//! Properties of the translation that relate several of its steps.
use vstd::prelude::*;
use crate::ir::WideOp;
use crate::ops::{BinOp, fold_binary};
use crate::simplify::{encoded_op, imm16, is_commutative, is_swapped, simplify_imm_reg,
    simplify_reg_imm, simplify_same};
use crate::memory::IndexType;
use crate::module::BlockType;
use crate::ops::lo32;
use crate::regs::{is_dyn, lemma_dyn_below};
use crate::frames::{slot_reg, lemma_first_free, lemma_preservation_reg};
use crate::translator::reg_space;
use crate::translator::{TState, TranslationError, Failure, IfReachability};
use crate::value::{Provider, Reg, TypedVal, pow32, pow64};
use crate::wide::{eval128, eval_mul_wide, join128, split128, pow128};

verus! {

/// Function-local constants are shared: making a constant a function-local
/// constant a second time gives the same register and changes nothing.
pub proof fn lemma_alloc_const_dedup(s: TState, v: TypedVal)
    requires
        s.alloc_const(v) is Ok,
    ensures
        ({
            let (s1, r1) = s.alloc_const(v)->Ok_0;
            s1.alloc_const(v) == Ok::<(TState, Reg), Failure>((s1, r1))
        }),
{
    let (s1, r1) = s.alloc_const(v)->Ok_0;
    s.consts.index_of_first_ensures(v);
    s1.consts.index_of_first_ensures(v);
    if !s.consts.contains(v) {
        assert(s1.consts[s.consts.len() as int] == v);
        assert(s1.consts.contains(v));
        let k = s1.consts.index_of_first(v)->0;
        if k < s.consts.len() {
            assert(s.consts[k] == v);
        }
        assert(k == s.consts.len());
    }
}

/// `local.get n` followed by `local.set n` emits nothing: it only frees the
/// preservation registers that are not in use.
pub proof fn lemma_local_get_then_set(s: TState, local: u32)
    requires
        s.wf(),
        s.reachable,
        local < s.len_locals,
    ensures
        s.local_get(local).local_set(local) == Ok::<TState, Failure>(s.gc_preservations()),
{
    let l = Provider::Register(Reg(local as i16));
    let t = s.local_get(local);
    assert(t == s.push(l));
    assert(!s.is_dyn(l));
    assert forall|k: int| 0 <= k < s.num_preserved implies t.in_use(#[trigger] slot_reg(k)) == s.in_use(
        slot_reg(k),
    ) by {
        let r = slot_reg(k);
        assert(Provider::Register(r) != l);
        if exists|i: int| 0 <= i < t.stack.len() && t.stack[i] == Provider::Register(r) {
            let i = choose|i: int| 0 <= i < t.stack.len() && t.stack[i] == Provider::Register(r);
            assert(i < s.stack.len());
            assert(s.stack[i] == t.stack[i]);
        }
        if exists|i: int| 0 <= i < s.stack.len() && s.stack[i] == Provider::Register(r) {
            let i = choose|i: int| 0 <= i < s.stack.len() && s.stack[i] == Provider::Register(r);
            assert(s.stack[i] == t.stack[i]);
        }
    }
    let s0 = t.gc_preservations();
    assert(s0.free_preserved =~= s.gc_preservations().free_preserved);
    assert(s0.stack.last() == l);
    assert(!is_dyn(l, s0.len_locals, s0.dyn_hi()));
    assert(s0.pop().stack =~= s.stack);
}

/// After `local.set n` no value on the value stack refers to local `n`:
/// the values that did are read from a preserved copy, so overwriting the
/// local changes none of them.
pub proof fn lemma_local_set_keeps_stack_values(s: TState, local: u32)
    requires
        s.wf(),
        s.reachable,
        local < s.len_locals,
        s.stack.len() > 0,
        s.stack.last() != Provider::Register(Reg(local as i16)),
        s.local_set(local) is Ok,
    ensures
        !s.local_set(local)->Ok_0.stack.contains(Provider::Register(Reg(local as i16))),
{
    let l = Reg(local as i16);
    let s0 = s.gc_preservations();
    let s1 = s0.pop();
    assert(s0.stack == s.stack);
    assert(s1.stack =~= s.stack.drop_last());
    if s1.stack.contains(Provider::Register(l)) {
        let s2 = s1.preserve_local(l)->Ok_0;
        let p = s1.preservation_reg();
        crate::frames::lemma_preservation_reg(s1);
        assert(s2.stack == crate::frames::replace_reg(s1.stack, l, p));
        assert(p.0 != l.0);
        assert forall|i: int| 0 <= i < s2.stack.len() implies s2.stack[i] != Provider::Register(l) by {
            assert(s2.stack[i] == (if s1.stack[i] == Provider::Register(l) {
                Provider::Register(p)
            } else {
                s1.stack[i]
            }));
        }
        let value = s0.stack.last();
        let t = s2.copy_one(local as int, value)->Ok_0;
        assert(t.stack == s2.stack);
    } else {
        let value = s0.stack.last();
        let t = s1.copy_one(local as int, value)->Ok_0;
        assert(t.stack == s1.stack);
    }
}

/// `local.set` never preserves a local into a register that is still in
/// use: no value left on the value stack and no parameter kept for an
/// `else` branch refers to the register that the local is copied into.
pub proof fn lemma_local_set_preserves_into_unused(s: TState, local: u32)
    requires
        s.wf(),
        s.reachable,
        local < s.len_locals,
        s.stack.len() > 0,
        s.local_set(local) is Ok,
    ensures
        ({
            let t = s.gc_preservations().pop();
            s.stack.last() != Provider::Register(Reg(local as i16)) && t.stack.contains(
                Provider::Register(Reg(local as i16)),
            ) ==> !t.in_use(t.preservation_reg())
        }),
{
    let l = Reg(local as i16);
    let g = s.gc_preservations();
    let t = g.pop();
    if s.stack.last() != Provider::Register(l) && t.stack.contains(Provider::Register(l)) {
        let r = t.preservation_reg();
        let nl = s.len_locals;
        let hi = s.dyn_hi();
        assert(t.stack =~= s.stack.drop_last());
        assert(t.frames == s.frames);
        lemma_preservation_reg(t);
        lemma_first_free(t.free_preserved, 0);
        if t.in_use(r) {
            assert(s.in_use(r)) by {
                if exists|i: int| 0 <= i < t.stack.len() && t.stack[i] == Provider::Register(r) {
                    let i = choose|i: int| 0 <= i < t.stack.len() && t.stack[i] == Provider::Register(r);
                    assert(s.stack[i] == t.stack[i]);
                }
            }
            match t.free_slot() {
                Some(k) => {
                    assert(t.free_preserved[k as int] == !s.in_use(slot_reg(k as int)));
                },
                None => {
                    assert(t.preserve_local(l) is Ok);
                    assert(r.0 == hi - 1);
                    assert(nl + s.max_dynamic <= r.0);
                    if exists|i: int| 0 <= i < s.stack.len() && s.stack[i] == Provider::Register(r) {
                        let i = choose|i: int| 0 <= i < s.stack.len() && s.stack[i] == Provider::Register(r);
                        assert(is_dyn(s.stack[i], nl, hi));
                        lemma_dyn_below(s.stack, nl, nl, hi, i);
                    } else {
                        let (a, j) = choose|a: int, j: int|
                            0 <= a < s.frames.len() && !s.frames[a].in_unreachable_code && 0 <= j
                                < s.frames[a].else_providers.len() && s.frames[a].else_providers[j]
                                == Provider::Register(r);
                        let f = s.frames[a];
                        assert(s.frame_ok(f));
                        assert(is_dyn(f.else_providers[j], nl, hi));
                        lemma_dyn_below(f.else_providers, f.branch_params.0 as int, nl, hi, j);
                    }
                },
            }
        }
    }
}

/// A provider refers to a local.
pub open spec fn is_local(p: Provider, len_locals: int) -> bool {
    match p {
        Provider::Register(r) => 0 <= r.0 < len_locals,
        Provider::Const(_) => false,
    }
}

/// Preserving from position `i` upwards leaves references to locals only
/// below `i`, where they were already.
proof fn lemma_preserve_from_no_locals(s: TState, i: int)
    requires
        0 <= i,
        0 <= s.len_locals,
        s.free_preserved.len() == s.num_preserved,
        s.len_locals + s.max_dynamic + s.num_preserved <= reg_space(),
        s.preserve_from(i) is Ok,
    ensures
        ({
            let t = s.preserve_from(i)->Ok_0;
            &&& t.len_locals == s.len_locals
            &&& t.stack.len() == s.stack.len()
            &&& forall|j: int| 0 <= j < t.stack.len() && is_local(#[trigger] t.stack[j], t.len_locals)
                ==> j < i && is_local(s.stack[j], s.len_locals)
        }),
    decreases s.stack.len() - i,
{
    if i >= s.stack.len() {
    } else {
        match s.stack[i] {
            Provider::Register(l) => {
                if 0 <= l.0 < s.len_locals {
                    let s1 = s.preserve_local(l)->Ok_0;
                    let p = s.preservation_reg();
                    crate::frames::lemma_preservation_reg(s);
                    assert(s1.stack == crate::frames::replace_reg(s.stack, l, p));
                    lemma_preserve_from_no_locals(s1, i + 1);
                    let t = s1.preserve_from(i + 1)->Ok_0;
                    assert forall|j: int| 0 <= j < t.stack.len() && is_local(#[trigger] t.stack[j], t.len_locals)
                        implies j < i && is_local(s.stack[j], s.len_locals) by {
                        assert(j < i + 1 && is_local(s1.stack[j], s1.len_locals));
                        assert(s1.stack[j] == (if s.stack[j] == Provider::Register(l) {
                            Provider::Register(p)
                        } else {
                            s.stack[j]
                        }));
                    }
                } else {
                    lemma_preserve_from_no_locals(s, i + 1);
                }
            },
            Provider::Const(_) => {
                lemma_preserve_from_no_locals(s, i + 1);
            },
        }
    }
}

/// Entering a `block` in reachable code leaves no reference to a local on
/// the value stack, so that writes to locals inside the block cannot change
/// the values below it.
pub proof fn lemma_block_preserves_locals(s: TState, bt: BlockType, len_params: nat, len_results: nat)
    requires
        s.wf(),
        s.reachable,
        s.block(bt, len_params, len_results) is Ok,
    ensures
        forall|j: int|
            0 <= j < s.block(bt, len_params, len_results)->Ok_0.stack.len() ==> !is_local(
                #[trigger] s.block(bt, len_params, len_results)->Ok_0.stack[j],
                s.len_locals,
            ),
{
    lemma_preserve_from_no_locals(s, 0);
    crate::control::lemma_preserve_shape(s, 0);
}

/// Growing a memory by the constant zero is translated as querying its
/// size: both give the size before the operation.
pub proof fn lemma_memory_grow_by_zero(s: TState, memory: u32, ty: IndexType, v: TypedVal)
    requires
        s.reachable,
        s.stack.len() > 0,
        s.stack.last() == Provider::Const(v),
        (if ty == IndexType::I64 { v.bits } else { lo32(v.bits) as u64 }) == 0,
    ensures
        s.memory_grow(memory, ty) == s.pop().memory_size(memory),
{
}

/// Growing a table by the constant zero is translated as querying its size.
pub proof fn lemma_table_grow_by_zero(s: TState, table: u32, ty: IndexType, v: TypedVal)
    requires
        s.reachable,
        s.stack.len() > 1,
        s.stack.last() == Provider::Const(v),
        (if ty == IndexType::I64 { v.bits } else { lo32(v.bits) as u64 }) == 0,
    ensures
        s.table_grow(table, ty) == s.pop().pop().table_size(table),
{
}

/// A `block` is entered unconditionally, so its instructions are charged to
/// the fuel instruction of the frame around it.
pub proof fn lemma_block_inherits_fuel(s: TState, bt: BlockType, len_params: nat, len_results: nat)
    requires
        s.wf(),
        s.reachable,
        s.block(bt, len_params, len_results) is Ok,
    ensures
        s.block(bt, len_params, len_results)->Ok_0.frames.last().fuel_instr == s.frames.last().fuel_instr,
{
    crate::control::lemma_preserve_shape(s, 0);
}

/// The `then` branch of an `if` whose condition is the constant zero is
/// unreachable, and its `else` branch is reachable.
pub proof fn lemma_if_false_reaches_else(s: TState, bt: BlockType, len_params: nat, len_results: nat, v: TypedVal)
    requires
        s.wf(),
        s.reachable,
        s.stack.len() > 0,
        s.stack.last() == Provider::Const(v),
        (v.bits as int) % pow32() == 0,
        s.if_(bt, len_params, len_results) is Ok,
    ensures
        ({
            let t = s.if_(bt, len_params, len_results)->Ok_0;
            &&& !t.reachable
            &&& t.else_() is Ok
            &&& t.else_()->Ok_0.reachable
        }),
{
    let s0 = s.pop();
    crate::control::lemma_preserve_shape(s0, 0);
    let t = s.if_(bt, len_params, len_results)->Ok_0;
    assert(t.frames.last().reachability == IfReachability::OnlyElse);
}

/// The `else` branch of an `if` whose condition is a constant other than
/// zero is unreachable, and its `then` branch is reachable.
pub proof fn lemma_if_true_skips_else(s: TState, bt: BlockType, len_params: nat, len_results: nat, v: TypedVal)
    requires
        s.wf(),
        s.reachable,
        s.stack.len() > 0,
        s.stack.last() == Provider::Const(v),
        (v.bits as int) % pow32() != 0,
        s.if_(bt, len_params, len_results) is Ok,
    ensures
        ({
            let t = s.if_(bt, len_params, len_results)->Ok_0;
            &&& t.reachable
            &&& t.else_() is Ok
            &&& !t.else_()->Ok_0.reachable
        }),
{
    let s0 = s.pop();
    crate::control::lemma_preserve_shape(s0, 0);
    let t = s.if_(bt, len_params, len_results)->Ok_0;
    assert(t.frames.last().reachability == IfReachability::OnlyThen);
}

/// Code that cannot be reached is not translated: the operators that do
/// not open or close frames leave the state as it is.
pub proof fn lemma_unreachable_code_is_skipped(s: TState, local: u32, depth: nat, global: u32)
    requires
        !s.reachable,
    ensures
        s.unreachable_() == Ok::<TState, Failure>(s),
        s.drop_() == s,
        s.local_get(local) == s,
        s.local_set(local) == Ok::<TState, Failure>(s),
        s.select() == Ok::<TState, Failure>(s),
        s.br_(depth) == Ok::<TState, Failure>(s),
        s.br_if(depth) == Ok::<TState, Failure>(s),
        s.return_() == Ok::<TState, Failure>(s),
        s.global_set(global, crate::value::ValType::I32) == Ok::<TState, Failure>(s),
        s.ref_func(global) == Ok::<TState, Failure>(s),
        s.memory_size(global) == Ok::<TState, Failure>(s),
        s.table_size(global) == Ok::<TState, Failure>(s),
{
}

/// The halves of a 128-bit number give it back.
proof fn lemma_join_split(x: int)
    ensures
        join128(split128(x).0, split128(x).1) == x % pow128(),
        0 <= x % pow128() < pow128(),
{
    let r = x % pow128();
    assert(pow128() == 0x1_0000_0000_0000_0000_0000_0000_0000_0000) by {
        assert(pow64() == 0x1_0000_0000_0000_0000);
    }
    vstd::arithmetic::div_mod::lemma_fundamental_div_mod(r, pow64());
    assert(0 <= r / pow64() < pow64()) by {
        vstd::arithmetic::div_mod::lemma_div_pos_is_pos(r, pow64());
        vstd::arithmetic::div_mod::lemma_div_is_ordered(r, pow128() - 1, pow64());
        assert((pow128() - 1) / pow64() == pow64() - 1);
    }
    vstd::arithmetic::div_mod::lemma_mod_bound(r, pow64());
}

/// Subtracting what was added gives back the first 128-bit operand.
pub proof fn lemma_add128_then_sub128(a_lo: u64, a_hi: u64, b_lo: u64, b_hi: u64)
    ensures
        ({
            let (lo, hi) = eval128(WideOp::Add128, a_lo, a_hi, b_lo, b_hi);
            eval128(WideOp::Sub128, lo, hi, b_lo, b_hi) == (a_lo, a_hi)
        }),
{
    let a = join128(a_lo, a_hi);
    let b = join128(b_lo, b_hi);
    let m = pow128();
    assert(m == 0x1_0000_0000_0000_0000_0000_0000_0000_0000) by {
        assert(pow64() == 0x1_0000_0000_0000_0000);
    }
    assert(0 <= a < m) by {
        assert(a_hi * pow64() <= (pow64() - 1) * pow64()) by (nonlinear_arith)
            requires
                a_hi < pow64(),
        ;
    }
    assert(0 <= b < m) by {
        assert(b_hi * pow64() <= (pow64() - 1) * pow64()) by (nonlinear_arith)
            requires
                b_hi < pow64(),
        ;
    }
    let (lo, hi) = eval128(WideOp::Add128, a_lo, a_hi, b_lo, b_hi);
    lemma_join_split(a + b);
    let c = join128(lo, hi);
    assert(c == (a + b) % m);
    vstd::arithmetic::div_mod::lemma_mod_sub_multiples_vanish(a + b, m);
    if a + b >= m {
        vstd::arithmetic::div_mod::lemma_fundamental_div_mod_converse(a + b, m, 1, a + b - m);
        assert(c == a + b - m);
        vstd::arithmetic::div_mod::lemma_fundamental_div_mod_converse(c - b, m, -1, a);
    } else {
        vstd::arithmetic::div_mod::lemma_fundamental_div_mod_converse(a + b, m, 0, a + b);
        vstd::arithmetic::div_mod::lemma_fundamental_div_mod_converse(c - b, m, 0, a);
    }
    assert((c - b) % m == a);
    lemma_join_split(c - b);
    let (lo2, hi2) = split128(c - b);
    assert(join128(lo2, hi2) == a);
    vstd::arithmetic::div_mod::lemma_fundamental_div_mod_converse(a, pow64(), a_hi as int, a_lo as int);
    vstd::arithmetic::div_mod::lemma_fundamental_div_mod_converse(a, pow64(), hi2 as int, lo2 as int);
}

/// The widening multiplication by zero is zero, and the unsigned one by one
/// is the other operand with a zero high half; these justify translating
/// such multiplications without an instruction.
pub proof fn lemma_mul_wide_by_zero_and_one(signed: bool, x: u64)
    ensures
        eval_mul_wide(signed, x, 0) == (0u64, 0u64),
        eval_mul_wide(false, x, 1) == (x, 0u64),
{
    assert(pow128() == 0x1_0000_0000_0000_0000_0000_0000_0000_0000) by {
        assert(pow64() == 0x1_0000_0000_0000_0000);
    }
    assert(crate::value::s64(0) == 0);
    assert(crate::value::s64(x) * 0 == 0);
    assert(x * 1 == x);
}

/// The state with the two top providers of the value stack exchanged.
pub open spec fn swap_top(s: TState) -> TState {
    let n = s.stack.len();
    TState { stack: s.stack.update(n - 1, s.stack[n - 2]).update(n - 2, s.stack[n - 1]), ..s }
}

/// Popping the two top providers gives the same state whatever their
/// order.
proof fn lemma_pop_two_swapped(s: TState)
    requires
        s.wf(),
        s.stack.len() >= 2,
    ensures
        swap_top(s).pop().pop() == s.pop().pop(),
{
    let n = s.stack.len();
    let rest = s.stack.drop_last().drop_last();
    let a = s.stack[n - 2];
    let b = s.stack[n - 1];
    let nl = s.len_locals;
    let hi = s.dyn_hi();
    assert(s.stack =~= rest.push(a).push(b));
    crate::regs::lemma_count_dyn_push(rest, a, nl, hi);
    crate::regs::lemma_count_dyn_push(rest.push(a), b, nl, hi);
    let w = swap_top(s);
    assert(w.stack =~= rest.push(b).push(a));
    assert(w.stack.last() == a);
    assert(w.stack.drop_last().last() == b);
    assert(w.pop().pop().stack =~= s.pop().pop().stack);
}

/// The instruction set has no `gt` and `ge`: translating `a > b` (or
/// `a >= b`) gives the same result, value stack, constants and instructions
/// as translating `b < a` (or `b <= a`), for integers and floats alike, with
/// constants folded, shortcuts for special constants and immediate forms all
/// mirrored; when it fails, it fails with the same error in the same state.
pub proof fn lemma_gt_is_swapped_lt(s: TState, op: BinOp)
    requires
        s.wf(),
        s.reachable,
        s.stack.len() >= 2,
        is_swapped(op),
    ensures
        s.binary(op) == swap_top(s).binary(encoded_op(op)),
{
    let w = swap_top(s);
    let n = s.stack.len();
    let lhs = s.stack[n - 2];
    let rhs = s.stack[n - 1];
    lemma_pop_two_swapped(s);
    assert(w.stack.last() == lhs);
    assert(w.pop().stack.last() == rhs);
    assert(s.pop().stack.last() == lhs);
    let t = s.pop().pop();
    let e = encoded_op(op);
    match (lhs, rhs) {
        (Provider::Const(a), Provider::Const(b)) => {
            crate::simplify::lemma_swapped_encoding(op, a.bits, b.bits);
            assert(!(fold_binary(op, a.bits, b.bits) is Float));
        },
        (Provider::Register(l), Provider::Register(r)) => {
            assert(simplify_same(op) == simplify_same(e));
            assert(t.emit_rr(op, l, r) == t.emit_rr(e, r, l));
        },
        (Provider::Register(l), Provider::Const(c)) => {
            assert(simplify_reg_imm(op, c.bits) == simplify_imm_reg(e, c.bits));
            assert(imm16(op, c.bits) == imm16(e, c.bits));
            assert(!is_commutative(e));
            assert(t.binary_reg_imm(op, l, c) == t.binary_imm_reg(e, c, l));
        },
        (Provider::Const(c), Provider::Register(r)) => {
            assert(simplify_imm_reg(op, c.bits) == simplify_reg_imm(e, c.bits));
            assert(imm16(op, c.bits) == imm16(e, c.bits));
            assert(!is_commutative(op));
            assert(t.binary_imm_reg(op, c, r) == t.binary_reg_imm(e, r, c));
        },
    }
}

/// `br_if` with a constant condition other than zero is translated as an
/// unconditional `br` once the condition is popped (failing, if it fails,
/// with the same error in the same state), and the code after it is
/// unreachable.
pub proof fn lemma_br_if_constant_taken(s: TState, depth: nat, c: TypedVal)
    requires
        s.reachable,
        s.stack.len() > 0,
        s.stack.last() == Provider::Const(c),
        (c.bits as int) % pow32() != 0,
    ensures
        s.br_if(depth) == s.pop().br(depth),
        s.br_if(depth) is Ok ==> !s.br_if(depth)->Ok_0.reachable,
{
}

/// `br_if` with the constant condition zero only pops the condition.
pub proof fn lemma_br_if_constant_not_taken(s: TState, depth: nat, c: TypedVal)
    requires
        s.reachable,
        s.stack.len() > 0,
        s.stack.last() == Provider::Const(c),
        (c.bits as int) % pow32() == 0,
    ensures
        s.br_if(depth) == Ok::<TState, Failure>(s.pop()),
{
}

} // verus!
