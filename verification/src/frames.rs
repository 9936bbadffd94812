//! Steps that control-flow translation is built from: preserving locals
//! that are about to change while still referenced, reserving the
//! registers that branches fill, copying values into them, and adjusting
//! the value stack at frame boundaries.
use vstd::prelude::*;
use crate::ir::Instruction;
use crate::regs::{count_dyn, is_dyn, reg_index, reg_ok, regs_nonneg, same_dyn, lemma_same_dyn,
    lemma_dyn_below};
use crate::translator::{FuncTranslator, TState, TranslationError, Failure, FuelKind, reg_space, outcome,
    lemma_frames_kept};
use crate::value::{Provider, Reg};

verus! {

/// Replaces every occurrence of register `from` by register `to`.
pub open spec fn replace_reg(s: Seq<Provider>, from: Reg, to: Reg) -> Seq<Provider> {
    s.map_values(
        |p: Provider|
            if p == Provider::Register(from) {
                Provider::Register(to)
            } else {
                p
            },
    )
}

/// The copy of a provider into register `dst`; none if it is already there.
pub open spec fn copy_instr(dst: int, p: Provider) -> Option<Instruction> {
    match p {
        Provider::Register(r) => if r.0 == dst {
            None
        } else {
            Some(Instruction::Copy { result: Reg(dst as i16), value: r })
        },
        Provider::Const(v) => Some(Instruction::CopyImm { result: Reg(dst as i16), value: v }),
    }
}

/// The register of preservation slot `k`: slots count down from the
/// highest register.
pub open spec fn slot_reg(k: int) -> Reg {
    Reg((reg_space() - 1 - k) as i16)
}

/// The first slot at or after `k` that is marked free.
pub open spec fn first_free(free: Seq<bool>, k: nat) -> Option<nat>
    decreases free.len() - k,
{
    if k >= free.len() {
        None
    } else if free[k as int] {
        Some(k)
    } else {
        first_free(free, k + 1)
    }
}

/// The first free slot at or after `k` is one, and marked free.
pub proof fn lemma_first_free(free: Seq<bool>, k: nat)
    ensures
        first_free(free, k) matches Some(x) ==> k <= x < free.len() && free[x as int],
    decreases free.len() - k,
{
    if k < free.len() && !free[k as int] {
        lemma_first_free(free, k + 1);
    }
}

/// The register that preserves the next local lies above every local and
/// every dynamic register.
pub proof fn lemma_preservation_reg(s: TState)
    requires
        0 <= s.len_locals,
        s.free_preserved.len() == s.num_preserved,
        s.len_locals + s.max_dynamic + s.num_preserved <= reg_space(),
    ensures
        s.free_slot() matches Some(k) ==> k < s.num_preserved && s.preservation_reg() == slot_reg(k as int)
            && s.preservation_reg().0 >= s.dyn_hi(),
        s.free_slot() is None && s.len_locals + s.max_dynamic + s.num_preserved + 1 <= reg_space()
            ==> s.preservation_reg().0 == s.next_preserved(),
        s.preservation_reg().0 >= s.len_locals + s.max_dynamic
            || s.len_locals + s.max_dynamic + s.num_preserved == reg_space(),
{
    lemma_first_free(s.free_preserved, 0);
}

impl TState {
    /// The register that a new preservation slot gets.
    pub open spec fn next_preserved(self) -> int {
        reg_space() - self.num_preserved - 1
    }

    /// The first freed preservation slot, if any: slots are reused from the
    /// highest register down.
    pub open spec fn free_slot(self) -> Option<nat> {
        first_free(self.free_preserved, 0)
    }

    /// The register that preserves the next overwritten local: the first
    /// freed one, else a new one.
    pub open spec fn preservation_reg(self) -> Reg {
        match self.free_slot() {
            Some(k) => slot_reg(k as int),
            None => Reg(self.next_preserved() as i16),
        }
    }

    /// Preserves local `l`: copies it into a preservation register (a freed
    /// one if there is one, else a new one) and makes every occurrence of
    /// `l` on the value stack refer to that copy.
    pub open spec fn preserve_local(self, l: Reg) -> Result<TState, Failure> {
        let p = self.preservation_reg();
        match self.free_slot() {
            Some(k) => {
                let s1 = TState {
                    free_preserved: self.free_preserved.update(k as int, false),
                    stack: replace_reg(self.stack, l, p),
                    ..self
                };
                s1.push_fueled(Instruction::Copy { result: p, value: l }, FuelKind::Base)
            },
            None => if self.len_locals + self.max_dynamic + self.num_preserved + 1 > reg_space() {
                Err(Failure { state: self, error: TranslationError::RegisterOutOfBounds })
            } else {
                let s1 = TState {
                    num_preserved: self.num_preserved + 1,
                    free_preserved: self.free_preserved.push(false),
                    stack: replace_reg(self.stack, l, p),
                    ..self
                };
                s1.push_fueled(Instruction::Copy { result: p, value: l }, FuelKind::Base)
            },
        }
    }

    /// Preserves, from position `i` of the value stack upwards, every local
    /// that is still referenced.
    pub open spec fn preserve_from(self, i: int) -> Result<TState, Failure>
        decreases self.stack.len() - i,
    {
        if i < 0 || i >= self.stack.len() {
            Ok(self)
        } else {
            match self.stack[i] {
                Provider::Register(l) => if 0 <= l.0 < self.len_locals {
                    match self.preserve_local(l) {
                        Ok(s) => if s.stack.len() == self.stack.len() {
                            s.preserve_from(i + 1)
                        } else {
                            Ok(s)
                        },
                        Err(e) => Err(e),
                    }
                } else {
                    self.preserve_from(i + 1)
                },
                Provider::Const(_) => self.preserve_from(i + 1),
            }
        }
    }

    /// Preserves every local that the value stack refers to, so that the
    /// stack holds no locals when control flow merges.
    pub open spec fn preserve_locals(self) -> Result<TState, Failure> {
        self.preserve_from(0)
    }

    /// Whether register `r` is referenced by the value stack or by the
    /// parameters that an `if` keeps for its `else` branch: its usage count
    /// is not zero.
    pub open spec fn in_use(self, r: Reg) -> bool {
        ||| exists|i: int| 0 <= i < self.stack.len() && self.stack[i] == Provider::Register(r)
        ||| exists|a: int, j: int|
            0 <= a < self.frames.len() && !self.frames[a].in_unreachable_code && 0 <= j
                < self.frames[a].else_providers.len() && self.frames[a].else_providers[j]
                == Provider::Register(r)
    }

    /// Frees every preservation register that is no longer in use, so that
    /// it can be reused; the others stay allocated.
    pub open spec fn gc_preservations(self) -> TState {
        TState {
            free_preserved: Seq::new(self.num_preserved, |k: int| !self.in_use(slot_reg(k))),
            ..self
        }
    }

    /// The `n` providers on top of the value stack.
    pub open spec fn top_values(self, n: nat) -> Seq<Provider> {
        self.stack.subrange(self.stack.len() - n, self.stack.len() as int)
    }

    /// Reserves the registers that branches to a new frame fill: they follow
    /// the dynamic registers below the frame's `len_params` parameters.
    pub open spec fn alloc_branch_params(self, len_params: nat, len_branch_params: nat) -> Result<(TState, Reg), Failure> {
        let h = self.stack.len() - len_params;
        let bp = self.len_locals + self.count(self.stack.take(h));
        if bp + len_branch_params > self.dyn_hi() || bp >= reg_space() {
            Err(Failure { state: self, error: TranslationError::RegisterOutOfBounds })
        } else {
            let need = (bp - self.len_locals + len_branch_params) as nat;
            Ok((TState { max_dynamic: if need > self.max_dynamic { need } else { self.max_dynamic }, ..self }, Reg(bp as i16)))
        }
    }

    /// Copies a provider into register `dst`, unless it is already there.
    pub open spec fn copy_one(self, dst: int, p: Provider) -> Result<TState, Failure> {
        match copy_instr(dst, p) {
            Some(instr) => self.push_fueled(instr, FuelKind::Base),
            None => Ok(self),
        }
    }

    /// Copies the providers `ps` into the registers `first, first + 1, ...`:
    /// nothing when they are these registers already, a single copy for one
    /// provider, and otherwise one `CopyMany`, which reads all its sources
    /// before it writes, followed by the providers' register list.
    pub open spec fn copies(self, first: int, ps: Seq<Provider>) -> Result<TState, Failure> {
        if ps == crate::regs::dyn_span(first, ps.len()) {
            Ok(self)
        } else if ps.len() == 1 {
            self.copy_one(first, ps[0])
        } else {
            match self.push_fueled(
                Instruction::CopyMany { results: Reg(first as i16), len: ps.len() as u32 },
                FuelKind::Base,
            ) {
                Err(e) => Err(e),
                Ok(s) => s.register_list(ps),
            }
        }
    }
}

/// Raising the preservation count by one keeps the invariant when the new
/// preservation register is above every dynamic register in use, and the
/// replaced local becomes that register.
proof fn lemma_wf_preserve(s: TState, l: Reg)
    requires
        s.wf(),
        0 <= l.0 < s.len_locals,
        s.len_locals + s.max_dynamic + s.num_preserved + 1 <= reg_space(),
    ensures
        (TState {
            num_preserved: s.num_preserved + 1,
            free_preserved: s.free_preserved.push(false),
            stack: replace_reg(s.stack, l, Reg(s.next_preserved() as i16)),
            ..s
        }).wf(),
{
    let p = Reg(s.next_preserved() as i16);
    let t = TState {
        num_preserved: s.num_preserved + 1,
        free_preserved: s.free_preserved.push(false),
        stack: replace_reg(s.stack, l, p),
        ..s
    };
    let nl = s.len_locals;
    let hi = s.dyn_hi();
    let hi2 = t.dyn_hi();
    assert(hi2 == hi - 1);
    assert(p.0 == hi2);
    assert(same_dyn(s.stack, t.stack, nl, hi, hi2)) by {
        assert forall|i: int| 0 <= i < s.stack.len() implies (is_dyn(#[trigger] s.stack[i], nl, hi)
            == is_dyn(t.stack[i], nl, hi2) && (is_dyn(s.stack[i], nl, hi) ==> reg_index(
            s.stack[i],
        ) == reg_index(t.stack[i]))) by {
            if is_dyn(s.stack[i], nl, hi) {
                lemma_dyn_below(s.stack, nl, nl, hi, i);
            }
        }
    }
    lemma_same_dyn(s.stack, t.stack, nl, nl, hi, hi2);
    assert(regs_nonneg(t.stack)) by {
        assert forall|i: int| 0 <= i < t.stack.len() implies reg_ok(#[trigger] t.stack[i]) by {
            assert(reg_ok(s.stack[i]));
        }
    }
    assert forall|i: int|
        0 <= i < t.frames.len() && !(#[trigger] t.frames[i]).in_unreachable_code implies t.frame_ok(
        t.frames[i],
    ) by {
        let f = s.frames[i];
        assert(s.frame_ok(f));
        let ep = f.else_providers;
        assert(same_dyn(ep, ep, nl, hi, hi2)) by {
            assert forall|j: int| 0 <= j < ep.len() implies (is_dyn(#[trigger] ep[j], nl, hi)
                == is_dyn(ep[j], nl, hi2) && (is_dyn(ep[j], nl, hi) ==> reg_index(ep[j])
                == reg_index(ep[j]))) by {
                if is_dyn(ep[j], nl, hi) {
                    lemma_dyn_below(ep, f.branch_params.0 as int, nl, hi, j);
                }
            }
        }
        lemma_same_dyn(ep, ep, f.branch_params.0 as int, nl, hi, hi2);
        assert(t.stack.take(f.height as int).len() == f.height);
        assert(s.count(s.stack.take(f.height as int)) == t.count(t.stack.take(f.height as int))) by {
            assert(s.stack.take(f.height as int) == s.stack.take(f.height as int));
        }
    }
}

/// Reusing a freed preservation slot keeps the invariant: its register
/// lies above every dynamic register, and the replaced local becomes it.
proof fn lemma_wf_reuse(s: TState, l: Reg, k: nat)
    requires
        s.wf(),
        0 <= l.0 < s.len_locals,
        k < s.num_preserved,
    ensures
        (TState {
            free_preserved: s.free_preserved.update(k as int, false),
            stack: replace_reg(s.stack, l, slot_reg(k as int)),
            ..s
        }).wf(),
{
    let p = slot_reg(k as int);
    let t = TState {
        free_preserved: s.free_preserved.update(k as int, false),
        stack: replace_reg(s.stack, l, p),
        ..s
    };
    let nl = s.len_locals;
    let hi = s.dyn_hi();
    assert(t.dyn_hi() == hi);
    assert(p.0 >= hi);
    assert(same_dyn(s.stack, t.stack, nl, hi, hi)) by {
        assert forall|i: int| 0 <= i < s.stack.len() implies (is_dyn(#[trigger] s.stack[i], nl, hi)
            == is_dyn(t.stack[i], nl, hi) && (is_dyn(s.stack[i], nl, hi) ==> reg_index(
            s.stack[i],
        ) == reg_index(t.stack[i]))) by {
            if is_dyn(s.stack[i], nl, hi) {
                lemma_dyn_below(s.stack, nl, nl, hi, i);
            }
        }
    }
    lemma_same_dyn(s.stack, t.stack, nl, nl, hi, hi);
    assert(regs_nonneg(t.stack)) by {
        assert forall|i: int| 0 <= i < t.stack.len() implies reg_ok(#[trigger] t.stack[i]) by {
            assert(reg_ok(s.stack[i]));
        }
    }
    assert forall|i: int|
        0 <= i < t.frames.len() && !(#[trigger] t.frames[i]).in_unreachable_code implies t.frame_ok(
        t.frames[i],
    ) by {
        let f = s.frames[i];
        assert(s.frame_ok(f));
        assert(t.stack.take(f.height as int).len() == f.height);
        assert(s.count(s.stack.take(f.height as int)) == t.count(t.stack.take(f.height as int))) by {
            assert(s.stack.take(f.height as int) == s.stack.take(f.height as int));
        }
    }
}

/// Counting dynamic registers on a prefix one element longer.
pub proof fn lemma_count_take_step(s: Seq<Provider>, j: int, nl: int, hi: int)
    requires
        0 <= j < s.len(),
    ensures
        count_dyn(s.take(j + 1), nl, hi) == count_dyn(s.take(j), nl, hi) + if is_dyn(s[j], nl, hi) {
            1nat
        } else {
            0nat
        },
{
    assert(s.take(j + 1).drop_last() =~= s.take(j));
    assert(s.take(j + 1).last() == s[j]);
}

impl FuncTranslator {
    /// The first freed preservation slot, if any.
    fn free_slot(&self) -> (r: Option<usize>)
        requires
            self.wf(),
        ensures
            self@.free_slot() == match r {
                Some(k) => Some(k as nat),
                None => None::<nat>,
            },
            r matches Some(k) ==> k < self@.num_preserved,
    {
        let mut k: usize = 0;
        while k < self.free_preserved.len()
            invariant
                self.wf(),
                k <= self.free_preserved@.len(),
                first_free(self.free_preserved@, 0) == first_free(self.free_preserved@, k as nat),
            decreases self.free_preserved@.len() - k,
        {
            if self.free_preserved[k] {
                return Some(k);
            }
            k = k + 1;
        }
        None
    }

    /// Preserves local `l`: copies it into a preservation register (a freed
    /// one if there is one, else a new one) and makes every occurrence of
    /// `l` on the value stack refer to that copy.
    pub fn preserve_local(&mut self, l: Reg) -> (r: Result<(), TranslationError>)
        requires
            old(self).wf(),
            0 <= l.0 < old(self)@.len_locals,
        ensures
            final(self).wf(),
            final(self).module == old(self).module,
            outcome(old(self)@.preserve_local(l), final(self)@, r),
    {
        let slot = self.free_slot();
        let p = match slot {
            Some(k) => {
                proof {
                    lemma_wf_reuse(self@, l, k as nat);
                }
                Reg((0x7fffusize - k) as i16)
            },
            None => {
                if self.len_locals as u32 + self.max_dynamic as u32 + self.num_preserved as u32 + 1 > 0x8000 {
                    return Err(TranslationError::RegisterOutOfBounds);
                }
                proof {
                    lemma_wf_preserve(self@, l);
                }
                Reg((0x8000u32 - self.num_preserved as u32 - 1) as i16)
            },
        };
        let ghost target = replace_reg(old(self)@.stack, l, p);
        let mut i: usize = 0;
        while i < self.stack.len()
            invariant
                i <= self.stack@.len(),
                self.stack@.len() == old(self)@.stack.len(),
                target.len() == old(self)@.stack.len(),
                target == replace_reg(old(self)@.stack, l, p),
                forall|j: int| 0 <= j < i ==> self.stack@[j] == target[j],
                forall|j: int| i <= j < self.stack@.len() ==> self.stack@[j] == old(self)@.stack[j],
                self.module == old(self).module,
                self.len_locals == old(self).len_locals,
                self.fuel == old(self).fuel,
                self.reachable == old(self).reachable,
                self.num_dynamic == old(self).num_dynamic,
                self.max_dynamic == old(self).max_dynamic,
                self.num_preserved == old(self).num_preserved,
                self.free_preserved@ == old(self).free_preserved@,
                self.consts@ == old(self).consts@,
                self.frames@ == old(self).frames@,
                self.instrs@ == old(self).instrs@,
                self.labels@ == old(self).labels@,
            decreases self.stack@.len() - i,
        {
            proof {
                assert(target[i as int] == if old(self)@.stack[i as int] == Provider::Register(l) {
                    Provider::Register(p)
                } else {
                    old(self)@.stack[i as int]
                });
            }
            if self.stack[i] == Provider::Register(l) {
                self.stack.set(i, Provider::Register(p));
            }
            i = i + 1;
        }
        match slot {
            Some(k) => {
                self.free_preserved.set(k, false);
            },
            None => {
                self.num_preserved = self.num_preserved + 1;
                self.free_preserved.push(false);
            },
        }
        proof {
            assert(self.stack@ =~= target);
            assert(self@.frames == old(self)@.frames);
        }
        self.push_fueled_instr(Instruction::Copy { result: p, value: l }, FuelKind::Base)
    }

    /// Preserves every local that the value stack refers to.
    pub fn preserve_locals(&mut self) -> (r: Result<(), TranslationError>)
        requires
            old(self).wf(),
        ensures
            final(self).wf(),
            final(self).module == old(self).module,
            outcome(old(self)@.preserve_locals(), final(self)@, r),
    {
        let mut i: usize = 0;
        while i < self.stack.len()
            invariant
                self.wf(),
                self.module == old(self).module,
                i <= self.stack@.len(),
                self.stack@.len() == old(self)@.stack.len(),
                old(self)@.preserve_from(0) == self@.preserve_from(i as int),
            decreases self.stack@.len() - i,
        {
            let p = self.stack[i];
            match p {
                Provider::Register(l) => {
                    if 0 <= l.0 && (l.0 as i32) < self.len_locals as i32 {
                        self.preserve_local(l)?;
                    }
                },
                Provider::Const(_) => {},
            }
            i = i + 1;
        }
        Ok(())
    }

    /// Whether register `r` is referenced by the value stack or by the
    /// parameters kept for an `else` branch.
    fn in_use(&self, r: Reg) -> (u: bool)
        requires
            self.wf(),
        ensures
            u == self@.in_use(r),
    {
        let mut i: usize = 0;
        while i < self.stack.len()
            invariant
                i <= self.stack@.len(),
                forall|j: int| 0 <= j < i ==> self.stack@[j] != Provider::Register(r),
            decreases self.stack@.len() - i,
        {
            if self.stack[i] == Provider::Register(r) {
                return true;
            }
            i = i + 1;
        }
        let mut a: usize = 0;
        while a < self.frames.len()
            invariant
                self.wf(),
                a <= self.frames@.len(),
                forall|j: int| 0 <= j < self.stack@.len() ==> self.stack@[j] != Provider::Register(r),
                forall|b: int, j: int|
                    0 <= b < a && !self@.frames[b].in_unreachable_code && 0 <= j
                        < self@.frames[b].else_providers.len() ==> #[trigger] self@.frames[b].else_providers[j]
                        != Provider::Register(r),
            decreases self.frames@.len() - a,
        {
            proof {
                assert(self@.frames[a as int] == self.frames@[a as int]@);
            }
            if !self.frames[a].in_unreachable_code {
                let n = self.frames[a].else_providers.len();
                let mut j: usize = 0;
                while j < n
                    invariant
                        self.wf(),
                        a < self.frames@.len(),
                        n == self@.frames[a as int].else_providers.len(),
                        j <= n,
                        !self@.frames[a as int].in_unreachable_code,
                        forall|jj: int| 0 <= jj < j ==> #[trigger] self@.frames[a as int].else_providers[jj]
                            != Provider::Register(r),
                    decreases n - j,
                {
                    proof {
                        assert(self@.frames[a as int] == self.frames@[a as int]@);
                    }
                    if self.frames[a].else_providers[j] == Provider::Register(r) {
                        proof {
                            assert(self@.frames[a as int].else_providers[j as int] == Provider::Register(r));
                        }
                        return true;
                    }
                    j = j + 1;
                }
            }
            a = a + 1;
        }
        false
    }

    /// Frees every preservation register that is no longer in use.
    pub fn gc_preservations(&mut self)
        requires
            old(self).wf(),
        ensures
            final(self).wf(),
            final(self).module == old(self).module,
            final(self)@ == old(self)@.gc_preservations(),
    {
        let n: usize = self.num_preserved as usize;
        let mut free: Vec<bool> = Vec::new();
        let mut k: usize = 0;
        while k < n
            invariant
                self.wf(),
                n == self@.num_preserved,
                n <= reg_space(),
                k <= n,
                free@.len() == k,
                forall|j: int| 0 <= j < k ==> free@[j] == !self@.in_use(slot_reg(j)),
            decreases n - k,
        {
            let u = self.in_use(Reg((0x7fffusize - k) as i16));
            proof {
                assert(Reg((0x7fffusize - k) as i16) == slot_reg(k as int));
            }
            free.push(!u);
            k = k + 1;
        }
        let ghost s0 = self@;
        self.free_preserved = free;
        proof {
            assert(self@.free_preserved =~= s0.gc_preservations().free_preserved);
            assert(self@.frames == s0.frames);
        }
    }

    /// Reserves the registers that branches to a new frame fill.
    pub fn alloc_branch_params(&mut self, len_params: usize, len_branch_params: usize) -> (r: Result<Reg, TranslationError>)
        requires
            old(self).wf(),
            len_params <= old(self)@.stack.len(),
        ensures
            final(self).wf(),
            final(self).module == old(self).module,
            match old(self)@.alloc_branch_params(len_params as nat, len_branch_params as nat) {
                Ok((s, reg)) => r == Ok::<Reg, TranslationError>(reg) && final(self)@ == s,
                Err(f) => r == Err::<Reg, TranslationError>(f.error) && final(self)@ == f.state,
            },
    {
        let len = self.stack.len();
        let h = len - len_params;
        let mut j: usize = h;
        let mut k: u32 = 0;
        let ghost nl = self@.len_locals;
        let ghost hi = self@.dyn_hi();
        while j < len
            invariant
                self@ == old(self)@,
                self.wf(),
                nl == self@.len_locals,
                hi == self@.dyn_hi(),
                len == self.stack@.len(),
                h <= j <= len,
                k <= j - h,
                k + self@.count(self.stack@.take(h as int)) == self@.count(self.stack@.take(j as int)),
            decreases len - j,
        {
            proof {
                lemma_count_take_step(self.stack@, j as int, nl, hi);
            }
            let d = self.provider_is_dyn(self.stack[j]);
            proof {
                assert(d == is_dyn(self.stack@[j as int], nl, hi));
                assert(self@.count(self.stack@.take(j as int + 1)) == self@.count(self.stack@.take(j as int)) + if d { 1nat } else { 0nat });
            }
            if d {
                k = k + 1;
            }
            j = j + 1;
        }
        proof {
            assert(self.stack@.take(len as int) =~= self.stack@);
        }
        let bp: u32 = self.len_locals as u32 + self.num_dynamic as u32 - k;
        let hi_exec: u32 = 0x8000u32 - self.num_preserved as u32;
        if len_branch_params > 0x8000 || len_branch_params as u32 + bp > hi_exec || bp >= 0x8000 {
            return Err(TranslationError::RegisterOutOfBounds);
        }
        let need: u32 = bp - self.len_locals as u32 + len_branch_params as u32;
        let new_max: u16 = if need > self.max_dynamic as u32 {
            need as u16
        } else {
            self.max_dynamic
        };
        proof {
            lemma_frames_kept(self@, TState { max_dynamic: new_max as nat, ..self@ });
        }
        self.max_dynamic = new_max;
        proof {
            assert(self@.frames == old(self)@.frames);
        }
        Ok(Reg(bp as i16))
    }

    /// Copies a provider into register `dst`, unless it is already there.
    pub fn copy_one(&mut self, dst: i16, p: Provider) -> (r: Result<(), TranslationError>)
        requires
            old(self).wf(),
        ensures
            final(self).wf(),
            final(self).module == old(self).module,
            outcome(old(self)@.copy_one(dst as int, p), final(self)@, r),
    {
        match p {
            Provider::Register(reg) => {
                if reg.0 == dst {
                    Ok(())
                } else {
                    self.push_base_instr(Instruction::Copy { result: Reg(dst), value: reg })
                }
            },
            Provider::Const(v) => self.push_base_instr(Instruction::CopyImm { result: Reg(dst), value: v }),
        }
    }

    /// Copies the providers `ps` into the registers `first, first + 1, ...`.
    pub fn copies(&mut self, first: i16, ps: &Vec<Provider>) -> (r: Result<(), TranslationError>)
        requires
            old(self).wf(),
            first + ps@.len() <= reg_space(),
        ensures
            final(self).wf(),
            final(self).module == old(self).module,
            outcome(old(self)@.copies(first as int, ps@), final(self)@, r),
    {
        if Self::is_span(ps, first) {
            return Ok(());
        }
        if ps.len() == 1 {
            return self.copy_one(first, ps[0]);
        }
        self.push_base_instr(Instruction::CopyMany { results: Reg(first), len: ps.len() as u32 })?;
        self.register_list(ps)
    }
}

} // verus!
