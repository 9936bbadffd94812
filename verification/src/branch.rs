//! Returns and branches, and the end of control frames.
use vstd::prelude::*;
use crate::ir::{Instruction, Label};
use crate::ops::lo32;
use crate::regs::dyn_span;
use crate::translator::{FuncTranslator, TState, TranslationError, Failure, FuelKind, FrameView, reg_space,
    outcome};
use crate::value::{Provider, Reg, pow32};

verus! {

impl TState {
    /// Appends the registers of `ps` as parameter instructions, giving each
    /// constant a function-local constant register.
    pub open spec fn register_list(self, ps: Seq<Provider>) -> Result<TState, Failure>
        decreases ps.len(),
    {
        if ps.len() == 0 {
            Ok(self)
        } else {
            match self.register_list(ps.drop_last()) {
                Err(e) => Err(e),
                Ok(s) => match ps.last() {
                    Provider::Register(r) => Ok(s.push_instr(Instruction::Register { reg: r })),
                    Provider::Const(v) => match s.alloc_const(v) {
                        Err(e) => Err(e),
                        Ok((s2, r)) => Ok(s2.push_instr(Instruction::Register { reg: r })),
                    },
                },
            }
        }
    }

    /// Returns the `n` values on top of the value stack: `Return` for none,
    /// `ReturnReg` or `ReturnImm` for one, and `ReturnMany` followed by the
    /// register list for more. The values are popped and the code that
    /// follows is unreachable.
    pub open spec fn return_values(self, n: nat) -> Result<TState, Failure> {
        let values = self.top_values(n);
        let s1 = self.trunc((self.stack.len() - n) as nat);
        let emitted = if n == 0 {
            s1.push_fueled(Instruction::Return, FuelKind::Base)
        } else if n == 1 {
            match values[0] {
                Provider::Register(r) => s1.push_fueled(Instruction::ReturnReg { value: r }, FuelKind::Base),
                Provider::Const(v) => s1.push_fueled(Instruction::ReturnImm { value: v }, FuelKind::Base),
            }
        } else {
            match s1.push_fueled(Instruction::ReturnMany { len_values: n as u32 }, FuelKind::Base) {
                Err(e) => Err(e),
                Ok(s2) => s2.register_list(values),
            }
        };
        match emitted {
            Err(e) => Err(e),
            Ok(s) => Ok(s.set_reachable(false)),
        }
    }

    /// The number of results of the function: those of its body frame.
    pub open spec fn len_func_results(self) -> nat {
        self.frames[0].len_branch_params
    }

    /// Translates `return`: in reachable code, returns the function's
    /// results.
    pub open spec fn return_(self) -> Result<TState, Failure> {
        if !self.reachable {
            Ok(self)
        } else {
            self.return_values(self.len_func_results())
        }
    }
}

impl TState {
    /// Replaces the frame at index `i`.
    pub open spec fn set_frame(self, i: int, f: FrameView) -> TState {
        TState { frames: self.frames.update(i, f), ..self }
    }

    /// The index of the frame `depth` levels out from the innermost.
    pub open spec fn target_index(self, depth: nat) -> int {
        self.frames.len() - 1 - depth
    }

    /// Records that a branch targets the frame at index `i`.
    pub open spec fn branch_to(self, i: int) -> TState {
        self.set_frame(i, FrameView { branched_to: true, ..self.frames[i] })
    }

    /// Branches unconditionally to the frame `depth` levels out: to the
    /// function body, a return; otherwise the branch values are popped and
    /// copied into the frame's branch registers, and a branch to the frame's
    /// label follows. The code after the branch is unreachable.
    pub open spec fn br(self, depth: nat) -> Result<TState, Failure> {
        let i = self.target_index(depth);
        if i == 0 {
            self.return_values(self.len_func_results())
        } else {
            let f = self.frames[i];
            let s1 = self.branch_to(i);
            let values = s1.top_values(f.len_branch_params);
            let s2 = s1.trunc((s1.stack.len() - f.len_branch_params) as nat);
            match s2.copies(f.branch_params.0 as int, values) {
                Err(e) => Err(e),
                Ok(s3) => match s3.push_fueled(Instruction::Branch { target: f.label }, FuelKind::Base) {
                    Err(e) => Err(e),
                    Ok(s4) => Ok(s4.set_reachable(false)),
                },
            }
        }
    }

    /// Translates `br`: a branch in reachable code.
    pub open spec fn br_(self, depth: nat) -> Result<TState, Failure> {
        if !self.reachable {
            Ok(self)
        } else {
            self.br(depth)
        }
    }

    /// Translates `br_if`: a constant condition other than zero branches
    /// unconditionally and a zero one does nothing. Otherwise, when the branch
    /// values already stand in the frame's branch registers (or there are
    /// none), a single conditional branch suffices; else a conditional
    /// branch skips the copies of the branch values and the branch that
    /// follow them. The conditional branch always tests the condition
    /// register: a comparison that computed it is not fused into the branch.
    pub open spec fn br_if(self, depth: nat) -> Result<TState, Failure> {
        if !self.reachable {
            Ok(self)
        } else {
            let condition = self.stack.last();
            let s0 = self.pop();
            match condition {
                Provider::Const(v) => if (v.bits as int) % pow32() != 0 {
                    s0.br(depth)
                } else {
                    Ok(s0)
                },
                Provider::Register(c) => {
                    let i = s0.target_index(depth);
                    let f = s0.frames[i];
                    let s1 = s0.branch_to(i);
                    let n = f.len_branch_params;
                    let values = s1.top_values(n);
                    if values == dyn_span(f.branch_params.0 as int, n) {
                        s1.push_fueled(Instruction::BranchNez { condition: c, target: f.label }, FuelKind::Base)
                    } else {
                        let (s2, skip) = s1.new_label();
                        match s2.push_fueled(Instruction::BranchEqz { condition: c, target: skip }, FuelKind::Base) {
                            Err(e) => Err(e),
                            Ok(s3) => match s3.copies(f.branch_params.0 as int, values) {
                                Err(e) => Err(e),
                                Ok(s4) => match s4.push_fueled(Instruction::Branch { target: f.label }, FuelKind::Base) {
                                    Err(e) => Err(e),
                                    Ok(s5) => Ok(s5.pin_label(skip)),
                                },
                            },
                        }
                    }
                },
            }
        }
    }

    /// The entries of a branch table for the target depths `all`: each
    /// target frame is marked as branched to; without branch values an entry
    /// branches to the frame's label, with them to a new label, the
    /// trampoline that copies the values for that target.
    pub open spec fn table_entries(self, all: Seq<u32>, n: nat) -> TState
        decreases all.len(),
    {
        if all.len() == 0 {
            self
        } else {
            let s = self.table_entries(all.drop_last(), n);
            let i = s.target_index(all.last() as nat);
            let s1 = s.branch_to(i);
            if n == 0 {
                s1.push_instr(Instruction::BranchTableTarget { target: s1.frames[i].label })
            } else {
                let (s2, l) = s1.new_label();
                s2.push_instr(Instruction::BranchTableTarget { target: l })
            }
        }
    }

    /// The trampolines of a branch table whose entries use the labels
    /// `first, first + 1, ...`: each pins its label, copies the branch values
    /// into its target's branch registers and branches to the target.
    pub open spec fn trampolines(self, all: Seq<u32>, values: Seq<Provider>, first: nat) -> Result<TState, Failure>
        decreases all.len(),
    {
        if all.len() == 0 {
            Ok(self)
        } else {
            match self.trampolines(all.drop_last(), values, first) {
                Err(e) => Err(e),
                Ok(s) => {
                    let f = s.frames[s.target_index(all.last() as nat)];
                    let s1 = s.pin_label(Label((first + all.len() - 1) as usize));
                    match s1.copies(f.branch_params.0 as int, values) {
                        Err(e) => Err(e),
                        Ok(s2) => s2.push_fueled(Instruction::Branch { target: f.label }, FuelKind::Base),
                    }
                },
            }
        }
    }

    /// Translates `br_table` with the target depths `targets` and the
    /// default depth: a constant index branches to the target it selects
    /// (the default when out of range); otherwise a `BranchTable` on the
    /// index is followed by one entry per target, the default last, and,
    /// when branches carry values, by the targets' trampolines. The values
    /// are popped and the code that follows is unreachable.
    pub open spec fn br_table(self, targets: Seq<u32>, default: u32) -> Result<TState, Failure> {
        if !self.reachable {
            Ok(self)
        } else {
            let index = self.stack.last();
            let s0 = self.pop();
            match index {
                Provider::Const(v) => {
                    let i = lo32(v.bits);
                    s0.br(if i < targets.len() { targets[i as int] } else { default } as nat)
                },
                Provider::Register(r) => {
                    let all = targets.push(default);
                    let n = s0.frames[s0.target_index(default as nat)].len_branch_params;
                    let values = s0.top_values(n);
                    match s0.push_fueled(
                        Instruction::BranchTable { index: r, len_targets: all.len() as u32 },
                        FuelKind::Base,
                    ) {
                        Err(e) => Err(e),
                        Ok(s1) => {
                            let first = s1.labels.len();
                            let s2 = s1.table_entries(all, n);
                            let tramp = if n == 0 {
                                Ok(s2)
                            } else {
                                s2.trampolines(all, values, first)
                            };
                            match tramp {
                                Err(e) => Err(e),
                                Ok(s3) => Ok(s3.trunc((s3.stack.len() - n) as nat).set_reachable(false)),
                            }
                        },
                    }
                },
            }
        }
    }

    /// The values that a branch to the frame at index `i` carries can be
    /// popped.
    pub open spec fn can_branch(self, i: int) -> bool {
        &&& 0 <= i < self.frames.len()
        &&& self.frames[i].len_branch_params <= self.stack.len()
        &&& self.can_pop(self.frames[i].len_branch_params)
    }
}

/// Recording a branch to a frame keeps the invariant.
pub proof fn lemma_wf_branch_to(s: TState, i: int)
    requires
        s.wf(),
        0 <= i < s.frames.len(),
    ensures
        s.branch_to(i).wf(),
{
    let t = s.branch_to(i);
    assert forall|k: int|
        0 <= k < t.frames.len() && !(#[trigger] t.frames[k]).in_unreachable_code implies t.frame_ok(
        t.frames[k],
    ) by {
        assert(s.frame_ok(s.frames[k]));
    }
    assert forall|a: int, b: int|
        0 <= a < b < t.frames.len() && !(#[trigger] t.frames[b]).in_unreachable_code implies !(
        #[trigger] t.frames[a]).in_unreachable_code && t.frames[a].height <= t.frames[b].height by {
        assert(!s.frames[b].in_unreachable_code);
    }
}

/// A register list changes only the instructions and the constants.
pub proof fn lemma_register_list_shape(s: TState, ps: Seq<Provider>)
    requires
        s.register_list(ps) is Ok,
    ensures
        ({
            let t = s.register_list(ps)->Ok_0;
            t == TState { instrs: t.instrs, consts: t.consts, ..s }
        }),
    decreases ps.len(),
{
    if ps.len() > 0 {
        lemma_register_list_shape(s, ps.drop_last());
    }
}

/// Returning changes the value stack, the instructions, the constants and
/// the reachability, and nothing else.
pub proof fn lemma_return_shape(s: TState, n: nat)
    requires
        s.return_values(n) is Ok,
    ensures
        ({
            let t = s.return_values(n)->Ok_0;
            &&& t == TState {
                stack: t.stack,
                num_dynamic: t.num_dynamic,
                instrs: t.instrs,
                consts: t.consts,
                reachable: false,
                ..s
            }
        }),
{
    let s1 = s.trunc((s.stack.len() - n) as nat);
    if n >= 2 {
        let s2 = s1.push_fueled(Instruction::ReturnMany { len_values: n as u32 }, FuelKind::Base)->Ok_0;
        lemma_register_list_shape(s2, s.top_values(n));
    }
}

/// Trampolines that fail on a prefix of the targets fail with the same
/// error.
proof fn lemma_trampolines_prefix_err(s: TState, all: Seq<u32>, values: Seq<Provider>, first: nat, k: int, e: Failure)
    requires
        0 <= k <= all.len(),
        s.trampolines(all.take(k), values, first) == Err::<TState, Failure>(e),
    ensures
        s.trampolines(all, values, first) == Err::<TState, Failure>(e),
    decreases all.len() - k,
{
    if k == all.len() {
        assert(all.take(k) =~= all);
    } else {
        let t = all.take(k + 1);
        assert(t.drop_last() =~= all.take(k));
        lemma_trampolines_prefix_err(s, all, values, first, k + 1, e);
    }
}

/// The entries of a branch table change the frames' branch marks, the
/// labels and the instructions, and add one label per entry when branches
/// carry values.
proof fn lemma_table_entries_shape(s: TState, all: Seq<u32>, n: nat)
    requires
        forall|j: int| 0 <= j < all.len() ==> (#[trigger] all[j]) < s.frames.len(),
    ensures
        ({
            let t = s.table_entries(all, n);
            &&& t.frames.len() == s.frames.len()
            &&& t.labels.len() == s.labels.len() + if n == 0 { 0 } else { all.len() }
            &&& t.stack == s.stack
            &&& t.len_locals == s.len_locals
            &&& t.num_preserved == s.num_preserved
            &&& t.reachable == s.reachable
            &&& forall|i: int| 0 <= i < s.frames.len() ==> (#[trigger] t.frames[i]) == (FrameView {
                branched_to: t.frames[i].branched_to,
                ..s.frames[i]
            })
        }),
    decreases all.len(),
{
    if all.len() > 0 {
        lemma_table_entries_shape(s, all.drop_last(), n);
        let t0 = s.table_entries(all.drop_last(), n);
        let idx = t0.target_index(all.last() as nat);
        let t1 = t0.branch_to(idx);
        let t = s.table_entries(all, n);
        assert forall|i: int| 0 <= i < s.frames.len() implies (#[trigger] t.frames[i]) == (FrameView {
            branched_to: t.frames[i].branched_to,
            ..s.frames[i]
        }) by {
            assert(t.frames[i] == t1.frames[i]);
            assert(t0.frames[i] == (FrameView { branched_to: t0.frames[i].branched_to, ..s.frames[i] }));
        }
    }
}

/// Trampolines change only the labels' positions, the instructions and the
/// constants.
proof fn lemma_trampolines_shape(s: TState, all: Seq<u32>, values: Seq<Provider>, first: nat)
    requires
        s.trampolines(all, values, first) is Ok,
        first + all.len() <= s.labels.len(),
    ensures
        ({
            let t = s.trampolines(all, values, first)->Ok_0;
            t == TState { instrs: t.instrs, labels: t.labels, consts: t.consts, ..s } && t.labels.len()
                == s.labels.len()
        }),
    decreases all.len(),
{
    if all.len() > 0 {
        lemma_trampolines_shape(s, all.drop_last(), values, first);
        let t0 = s.trampolines(all.drop_last(), values, first)->Ok_0;
        let f = t0.frames[t0.target_index(all.last() as nat)];
        let t1 = t0.pin_label(Label((first + all.len() - 1) as usize));
        crate::control::lemma_copies_shape(t1, f.branch_params.0 as int, values);
        let t2 = t1.copies(f.branch_params.0 as int, values)->Ok_0;
        crate::control::lemma_push_fueled_shape(t2, Instruction::Branch { target: f.label }, FuelKind::Base);
    }
}

/// A register list that fails on a prefix fails with the same error.
proof fn lemma_register_list_prefix_err(s: TState, ps: Seq<Provider>, k: int, e: Failure)
    requires
        0 <= k <= ps.len(),
        s.register_list(ps.take(k)) == Err::<TState, Failure>(e),
    ensures
        s.register_list(ps) == Err::<TState, Failure>(e),
    decreases ps.len() - k,
{
    if k == ps.len() {
        assert(ps.take(k) =~= ps);
    } else {
        let t = ps.take(k + 1);
        assert(t.drop_last() =~= ps.take(k));
        lemma_register_list_prefix_err(s, ps, k + 1, e);
    }
}

impl FuncTranslator {
    /// Appends the registers of `ps` as parameter instructions.
    pub fn register_list(&mut self, ps: &Vec<Provider>) -> (r: Result<(), TranslationError>)
        requires
            old(self).wf(),
        ensures
            final(self).wf(),
            final(self).module == old(self).module,
            outcome(old(self)@.register_list(ps@), final(self)@, r),
    {
        let mut i: usize = 0;
        proof {
            assert(ps@.take(0) =~= Seq::<Provider>::empty());
        }
        while i < ps.len()
            invariant
                self.wf(),
                self.module == old(self).module,
                i <= ps@.len(),
                old(self)@.register_list(ps@.take(i as int)) == Ok::<TState, Failure>(self@),
            decreases ps@.len() - i,
        {
            proof {
                assert(ps@.take(i as int + 1).drop_last() =~= ps@.take(i as int));
                assert(ps@.take(i as int + 1).last() == ps@[i as int]);
            }
            let reg = match ps[i] {
                Provider::Register(reg) => reg,
                Provider::Const(v) => match self.alloc_const(v) {
                    Ok(reg) => reg,
                    Err(e) => {
                        proof {
                            lemma_register_list_prefix_err(old(self)@, ps@, i as int + 1, Failure { state: self@, error: e });
                        }
                        return Err(e);
                    },
                },
            };
            self.push_instr(Instruction::Register { reg });
            i = i + 1;
        }
        proof {
            assert(ps@.take(ps@.len() as int) =~= ps@);
        }
        Ok(())
    }

    /// Returns the `n` values on top of the value stack.
    pub fn return_values(&mut self, n: usize) -> (r: Result<(), TranslationError>)
        requires
            old(self).wf(),
            n <= old(self)@.stack.len(),
            old(self)@.can_pop(n as nat),
        ensures
            final(self).wf(),
            final(self).module == old(self).module,
            outcome(old(self)@.return_values(n as nat), final(self)@, r),
    {
        let values = self.pop_n(n);
        if n == 0 {
            self.push_base_instr(Instruction::Return)?;
        } else if n == 1 {
            match values[0] {
                Provider::Register(r) => self.push_base_instr(Instruction::ReturnReg { value: r })?,
                Provider::Const(v) => self.push_base_instr(Instruction::ReturnImm { value: v })?,
            }
        } else {
            self.push_base_instr(Instruction::ReturnMany { len_values: n as u32 })?;
            self.register_list(&values)?;
        }
        self.reachable = false;
        Ok(())
    }

    /// Records that a branch targets the frame at index `i`.
    pub fn branch_to(&mut self, i: usize)
        requires
            old(self).wf(),
            i < old(self)@.frames.len(),
        ensures
            final(self).wf(),
            final(self).module == old(self).module,
            final(self)@ == old(self)@.branch_to(i as int),
    {
        proof {
            lemma_wf_branch_to(self@, i as int);
        }
        let mut f = self.frames.remove(i);
        f.branched_to = true;
        let ghost fv = f@;
        self.frames.insert(i, f);
        proof {
            assert(self@.frames =~= old(self)@.frames.update(i as int, fv));
        }
    }

    /// Branches unconditionally to the frame `depth` levels out.
    pub fn br(&mut self, depth: u32) -> (r: Result<(), TranslationError>)
        requires
            old(self).wf(),
            old(self)@.reachable,
            depth < old(self)@.frames.len(),
            old(self)@.can_branch(old(self)@.target_index(depth as nat)),
        ensures
            final(self).wf(),
            final(self).module == old(self).module,
            outcome(old(self)@.br(depth as nat), final(self)@, r),
    {
        let i = self.frames.len() - 1 - depth as usize;
        proof {
            assert(self@.frames[i as int] == self.frames@[i as int]@);
            crate::control::lemma_reachable_frames(self@);
            assert(self@.frame_ok(self@.frames[i as int]));
        }
        let n = self.frames[i].len_branch_params;
        if i == 0 {
            return self.return_values(n);
        }
        let bp = self.frames[i].branch_params;
        let label = self.frames[i].label;
        self.branch_to(i);
        let values = self.pop_n(n);
        self.copies(bp.0, &values)?;
        self.push_base_instr(Instruction::Branch { target: label })?;
        self.reachable = false;
        Ok(())
    }

    /// Translates `br`.
    pub fn visit_br(&mut self, depth: u32) -> (r: Result<(), TranslationError>)
        requires
            old(self).wf(),
            old(self)@.reachable ==> depth < old(self)@.frames.len() && old(self)@.can_branch(
                old(self)@.target_index(depth as nat),
            ),
        ensures
            final(self).wf(),
            final(self).module == old(self).module,
            outcome(old(self)@.br_(depth as nat), final(self)@, r),
    {
        if !self.reachable {
            return Ok(());
        }
        self.br(depth)
    }

    /// Whether `values` are the registers `first, first + 1, ...`.
    pub fn is_span(values: &Vec<Provider>, first: i16) -> (r: bool)
        requires
            first + values@.len() <= reg_space(),
        ensures
            r == (values@ == dyn_span(first as int, values@.len())),
    {
        let mut k: usize = 0;
        while k < values.len()
            invariant
                k <= values@.len(),
                first + values@.len() <= reg_space(),
                forall|j: int| 0 <= j < k ==> values@[j] == dyn_span(first as int, values@.len())[j],
            decreases values@.len() - k,
        {
            let expected = Provider::Register(Reg((first as i32 + k as i32) as i16));
            if values[k] != expected {
                proof {
                    assert(dyn_span(first as int, values@.len())[k as int] == expected);
                    assert(values@ != dyn_span(first as int, values@.len()));
                }
                return false;
            }
            k = k + 1;
        }
        proof {
            assert(values@ =~= dyn_span(first as int, values@.len()));
        }
        true
    }

    /// Translates `br_if`.
    pub fn visit_br_if(&mut self, depth: u32) -> (r: Result<(), TranslationError>)
        requires
            old(self).wf(),
            old(self)@.reachable ==> depth < old(self)@.frames.len() && old(self)@.stack.len()
                >= 1 + old(self)@.frames[old(self)@.target_index(depth as nat)].len_branch_params
                && old(self)@.can_pop(
                1 + old(self)@.frames[old(self)@.target_index(depth as nat)].len_branch_params,
            ),
        ensures
            final(self).wf(),
            final(self).module == old(self).module,
            outcome(old(self)@.br_if(depth as nat), final(self)@, r),
    {
        if !self.reachable {
            return Ok(());
        }
        let condition = self.pop();
        let ghost s0 = self@;
        let i = self.frames.len() - 1 - depth as usize;
        proof {
            assert(self@.frames[i as int] == self.frames@[i as int]@);
            crate::control::lemma_reachable_frames(old(self)@);
            assert(s0.frame_ok(s0.frames[i as int]));
        }
        match condition {
            Provider::Const(v) => {
                if v.low32() != 0 {
                    return self.br(depth);
                }
                Ok(())
            },
            Provider::Register(c) => {
                let n = self.frames[i].len_branch_params;
                let bp = self.frames[i].branch_params;
                let label = self.frames[i].label;
                self.branch_to(i);
                let values = self.peek_n(n);
                if Self::is_span(&values, bp.0) {
                    return self.push_base_instr(Instruction::BranchNez { condition: c, target: label });
                }
                let skip = self.new_label();
                self.push_base_instr(Instruction::BranchEqz { condition: c, target: skip })?;
                let ghost s3 = self@;
                self.copies(bp.0, &values)?;
                proof {
                    crate::control::lemma_copies_shape(s3, bp.0 as int, values@);
                }
                self.push_base_instr(Instruction::Branch { target: label })?;
                self.pin_label(skip);
                Ok(())
            },
        }
    }

    /// The target depth of entry `k` of a branch table: a listed target or,
    /// last, the default.
    fn table_target(targets: &Vec<u32>, default: u32, k: usize) -> (d: u32)
        requires
            k <= targets@.len(),
        ensures
            d == targets@.push(default)[k as int],
    {
        if k < targets.len() {
            targets[k]
        } else {
            default
        }
    }

    /// Appends the entries of a branch table.
    fn table_entries(&mut self, targets: &Vec<u32>, default: u32, n: usize)
        requires
            old(self).wf(),
            targets@.len() < u32::MAX,
            forall|k: int| 0 <= k < targets@.push(default).len() ==> (#[trigger] targets@.push(default)[k])
                < old(self)@.frames.len(),
        ensures
            final(self).wf(),
            final(self).module == old(self).module,
            final(self)@ == old(self)@.table_entries(targets@.push(default), n as nat),
    {
        let ghost all = targets@.push(default);
        let ghost s0 = self@;
        let mut k: usize = 0;
        proof {
            assert(all.take(0) =~= Seq::<u32>::empty());
        }
        while k <= targets.len()
            invariant
                self.wf(),
                self.module == old(self).module,
                all == targets@.push(default),
                s0 == old(self)@,
                targets@.len() < u32::MAX,
                k <= all.len(),
                forall|j: int| 0 <= j < all.len() ==> (#[trigger] all[j]) < s0.frames.len(),
                self@ == s0.table_entries(all.take(k as int), n as nat),
            decreases all.len() - k,
        {
            let depth = Self::table_target(targets, default, k);
            proof {
                lemma_table_entries_shape(s0, all.take(k as int), n as nat);
                assert(all.take(k as int + 1).drop_last() =~= all.take(k as int));
                assert(all.take(k as int + 1).last() == all[k as int]);
                assert(depth < self@.frames.len());
            }
            let i = self.frames.len() - 1 - depth as usize;
            self.branch_to(i);
            if n == 0 {
                proof {
                    assert(self@.frames[i as int] == self.frames@[i as int]@);
                }
                let label = self.frames[i].label;
                self.push_instr(Instruction::BranchTableTarget { target: label });
            } else {
                let l = self.new_label();
                self.push_instr(Instruction::BranchTableTarget { target: l });
            }
            k = k + 1;
        }
        proof {
            assert(all.take(all.len() as int) =~= all);
        }
    }

    /// Appends the trampolines of a branch table whose entries use the
    /// labels `first, first + 1, ...`.
    fn trampolines(&mut self, targets: &Vec<u32>, default: u32, values: &Vec<Provider>, first: usize) -> (r: Result<(), TranslationError>)
        requires
            old(self).wf(),
            old(self)@.reachable,
            targets@.len() < u32::MAX,
            first + targets@.len() + 1 <= old(self)@.labels.len(),
            forall|k: int| 0 <= k < targets@.push(default).len() ==> (#[trigger] targets@.push(default)[k])
                < old(self)@.frames.len(),
            forall|k: int| 0 <= k < targets@.push(default).len() ==> old(self)@.frames[old(self)@.target_index(
                #[trigger] targets@.push(default)[k] as nat,
            )].len_branch_params == values@.len(),
        ensures
            final(self).wf(),
            final(self).module == old(self).module,
            outcome(old(self)@.trampolines(targets@.push(default), values@, first as nat), final(self)@, r),
    {
        let ghost all = targets@.push(default);
        let ghost s0 = self@;
        let mut k: usize = 0;
        proof {
            assert(all.take(0) =~= Seq::<u32>::empty());
        }
        while k <= targets.len()
            invariant
                self.wf(),
                self.module == old(self).module,
                all == targets@.push(default),
                s0 == old(self)@,
                s0.reachable,
                targets@.len() < u32::MAX,
                k <= all.len(),
                first + all.len() <= s0.labels.len(),
                forall|j: int| 0 <= j < all.len() ==> (#[trigger] all[j]) < s0.frames.len(),
                forall|j: int| 0 <= j < all.len() ==> s0.frames[s0.target_index(#[trigger] all[j] as nat)].len_branch_params
                    == values@.len(),
                s0.trampolines(all.take(k as int), values@, first as nat) == Ok::<TState, Failure>(self@),
            decreases all.len() - k,
        {
            let depth = Self::table_target(targets, default, k);
            proof {
                lemma_trampolines_shape(s0, all.take(k as int), values@, first as nat);
                assert(all.take(k as int + 1).drop_last() =~= all.take(k as int));
                assert(all.take(k as int + 1).last() == all[k as int]);
                assert(depth == all[k as int]);
            }
            let i = self.frames.len() - 1 - depth as usize;
            let ghost ll: usize = self.labels.len();
            proof {
                assert(self@.frames[i as int] == self.frames@[i as int]@);
                crate::control::lemma_reachable_frames(self@);
                assert(self@.labels.len() == s0.labels.len());
                assert(ll == self@.labels.len());
            }
            let bp = self.frames[i].branch_params;
            let label = self.frames[i].label;
            let ghost before = self@;
            self.pin_label(Label(first + k));
            proof {
                assert(self@.frames == before.frames);
                assert(before.frames == s0.frames);
                if !self@.frames[i as int].in_unreachable_code {
                    assert(self@.frame_ok(self@.frames[i as int]));
                }
            }
            let ghost s_pin = self@;
            match self.copies(bp.0, values) {
                Ok(()) => {},
                Err(e) => {
                    proof {
                        lemma_trampolines_prefix_err(s0, all, values@, first as nat, k as int + 1, Failure { state: self@, error: e });
                    }
                    return Err(e);
                },
            }
            proof {
                crate::control::lemma_copies_shape(s_pin, bp.0 as int, values@);
            }
            match self.push_base_instr(Instruction::Branch { target: label }) {
                Ok(()) => {},
                Err(e) => {
                    proof {
                        lemma_trampolines_prefix_err(s0, all, values@, first as nat, k as int + 1, Failure { state: self@, error: e });
                    }
                    return Err(e);
                },
            }
            k = k + 1;
        }
        proof {
            assert(all.take(all.len() as int) =~= all);
        }
        Ok(())
    }

    /// Translates `br_table` with the target depths `targets` and the
    /// default depth.
    pub fn visit_br_table(&mut self, targets: &Vec<u32>, default: u32) -> (r: Result<(), TranslationError>)
        requires
            old(self).wf(),
            targets@.len() < u32::MAX,
            old(self)@.reachable ==> {
                let s = old(self)@;
                let n = s.frames[s.target_index(default as nat)].len_branch_params;
                &&& default < s.frames.len()
                &&& forall|k: int| 0 <= k < targets@.len() ==> (#[trigger] targets@[k]) < s.frames.len()
                &&& forall|k: int| 0 <= k < targets@.len() ==> s.frames[s.target_index(
                    #[trigger] targets@[k] as nat,
                )].len_branch_params == n
                &&& 1 + n <= s.stack.len()
                &&& s.can_pop(1 + n)
            },
        ensures
            final(self).wf(),
            final(self).module == old(self).module,
            outcome(old(self)@.br_table(targets@, default), final(self)@, r),
    {
        if !self.reachable {
            return Ok(());
        }
        let ghost s = self@;
        let ghost all = targets@.push(default);
        proof {
            assert forall|k: int| 0 <= k < all.len() implies (#[trigger] all[k]) < s.frames.len()
                && s.frames[s.target_index(all[k] as nat)].len_branch_params == s.frames[s.target_index(
                default as nat,
            )].len_branch_params by {
                if k < targets@.len() {
                    assert(all[k] == targets@[k]);
                }
            }
        }
        let index = self.pop();
        let ghost s0 = self@;
        match index {
            Provider::Const(v) => {
                let i = v.low32();
                let depth = if (i as usize) < targets.len() {
                    targets[i as usize]
                } else {
                    default
                };
                proof {
                    assert(i == lo32(v.bits));
                    if (i as usize) < targets.len() {
                        assert(depth == targets@[i as int]);
                    }
                }
                self.br(depth)
            },
            Provider::Register(r) => self.br_table_dynamic(r, targets, default),
        }
    }

    /// A branch table on the index in register `r`.
    #[verifier::rlimit(40)]
    fn br_table_dynamic(&mut self, r: Reg, targets: &Vec<u32>, default: u32) -> (res: Result<(), TranslationError>)
        requires
            old(self).wf(),
            old(self)@.reachable,
            targets@.len() < u32::MAX,
            ({
                let s = old(self)@;
                let n = s.frames[s.target_index(default as nat)].len_branch_params;
                &&& default < s.frames.len()
                &&& forall|k: int| 0 <= k < targets@.push(default).len() ==> (#[trigger] targets@.push(default)[k]) < s.frames.len()
                    && s.frames[s.target_index(targets@.push(default)[k] as nat)].len_branch_params == n
                &&& n <= s.stack.len()
                &&& s.can_pop(n)
            }),
        ensures
            final(self).wf(),
            final(self).module == old(self).module,
            ({
                let s0 = old(self)@;
                let all = targets@.push(default);
                let n = s0.frames[s0.target_index(default as nat)].len_branch_params;
                let values = s0.top_values(n);
                outcome(
                    match s0.push_fueled(
                        Instruction::BranchTable { index: r, len_targets: all.len() as u32 },
                        FuelKind::Base,
                    ) {
                        Err(e) => Err(e),
                        Ok(s1) => {
                            let first = s1.labels.len();
                            let s2 = s1.table_entries(all, n);
                            let tramp = if n == 0 {
                                Ok(s2)
                            } else {
                                s2.trampolines(all, values, first)
                            };
                            match tramp {
                                Err(e) => Err(e),
                                Ok(s3) => Ok(s3.trunc((s3.stack.len() - n) as nat).set_reachable(false)),
                            }
                        },
                    },
                    final(self)@,
                    res,
                )
            }),
    {
        let ghost s = self@;
        let ghost all = targets@.push(default);
        let di = self.frames.len() - 1 - default as usize;
        proof {
            assert(s.frames[di as int] == self.frames@[di as int]@);
        }
        let n = self.frames[di].len_branch_params;
        let values = self.peek_n(n);
        self.push_base_instr(Instruction::BranchTable { index: r, len_targets: (targets.len() + 1) as u32 })?;
        let ghost s1 = self@;
        let first = self.labels.len();
        self.table_entries(targets, default, n);
        let ghost s2 = self@;
        proof {
            lemma_table_entries_shape(s1, all, n as nat);
            assert forall|k: int| 0 <= k < all.len() implies s2.frames[s2.target_index(
                #[trigger] all[k] as nat,
            )].len_branch_params == values@.len() by {
                let j = s2.target_index(all[k] as nat);
                assert(s2.frames[j] == (FrameView { branched_to: s2.frames[j].branched_to, ..s1.frames[j] }));
                assert(s1.frames[j] == s.frames[j]);
            }
        }
        if n > 0 {
            self.trampolines(targets, default, &values, first)?;
            proof {
                lemma_trampolines_shape(s2, all, values@, first as nat);
            }
        }
        let ghost s3 = self@;
        proof {
            assert(s3.stack == s.stack);
            assert forall|i: int|
                0 <= i < s3.frames.len() && !(#[trigger] s3.frames[i]).in_unreachable_code
                    implies s3.frames[i].height + n <= s3.stack.len() by {
                assert(s3.frames[i] == (FrameView { branched_to: s3.frames[i].branched_to, ..s.frames[i] }));
                assert(!s.frames[i].in_unreachable_code ==> s.frames[i].height + n <= s.stack.len());
            }
        }
        let h = self.stack.len() - n;
        self.trunc(h);
        self.reachable = false;
        Ok(())
    }

    /// Translates `return`.
    pub fn visit_return(&mut self) -> (r: Result<(), TranslationError>)
        requires
            old(self).wf(),
            old(self)@.reachable ==> old(self)@.can_pop(old(self)@.len_func_results())
                && old(self)@.len_func_results() <= old(self)@.stack.len(),
        ensures
            final(self).wf(),
            final(self).module == old(self).module,
            outcome(old(self)@.return_(), final(self)@, r),
    {
        if !self.reachable {
            return Ok(());
        }
        proof {
            assert(self@.frames[0] == self.frames@[0]@);
        }
        let n = self.frames[0].len_branch_params;
        self.return_values(n)
    }
}

} // verus!
