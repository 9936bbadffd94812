//! The translation of `end`: closing the innermost control frame.
use vstd::prelude::*;
use crate::ir::{Instruction, Label};
use crate::regs::{count_dyn, is_dyn, dyn_span};
use crate::translator::{FuncTranslator, TState, TranslationError, Failure, FuelKind, FrameView, FrameKind,
    IfReachability, outcome};
use crate::value::{Provider, Reg};

verus! {

impl TState {
    /// Leaves the innermost frame; `reach` tells whether the code after it
    /// is reachable. At the end of the function body reachable code returns
    /// the function's results.
    pub open spec fn leave(self, reach: bool) -> Result<TState, Failure> {
        if self.frames.len() == 1 {
            if reach {
                match self.set_reachable(true).return_values(self.frames[0].len_branch_params) {
                    Err(e) => Err(e),
                    Ok(t) => Ok(t.pop_frame()),
                }
            } else {
                Ok(self.set_reachable(false).pop_frame())
            }
        } else {
            Ok(self.pop_frame().set_reachable(reach))
        }
    }

    /// The registers that a frame's branches fill replace its values on the
    /// value stack.
    pub open spec fn branch_results(self, f: FrameView) -> TState {
        self.trunc(f.height).push_span(f.branch_params.0 as int, f.len_branch_params)
    }

    /// Closes the innermost frame like a `block`: when its end is reached by
    /// falling through (`fall`) and by branches, the values are copied into
    /// the branch registers; the end label is pinned; if branched to, the
    /// branch registers stand for the frame's results.
    pub open spec fn close_block(self, fall: bool) -> Result<TState, Failure> {
        let f = self.frames.last();
        let n = f.len_branch_params;
        let copied = if fall && f.branched_to {
            self.copies(f.branch_params.0 as int, self.top_values(n))
        } else {
            Ok(self)
        };
        match copied {
            Err(e) => Err(e),
            Ok(s1) => {
                let s2 = s1.pin_label(f.label);
                let s3 = if f.branched_to { s2.branch_results(f) } else { s2 };
                s3.leave(fall || f.branched_to)
            },
        }
    }

    /// Closes an `if` whose both branches can be reached and whose `else`
    /// was visited: a reachable end of `else` copies its values into the
    /// branch registers; the code after the `if` is reachable if either
    /// branch's end is, or a branch targets the `if`.
    pub open spec fn close_if_with_else(self) -> Result<TState, Failure> {
        let f = self.frames.last();
        let n = f.len_branch_params;
        let then_end = match f.end_of_then_reachable {
            Some(b) => b,
            None => self.reachable,
        };
        let else_end = self.reachable;
        let reach = then_end || else_end || f.branched_to;
        let copied = if else_end {
            self.copies(f.branch_params.0 as int, self.top_values(n))
        } else {
            Ok(self)
        };
        match copied {
            Err(e) => Err(e),
            Ok(s1) => {
                let s2 = s1.pin_label(f.label);
                let s3 = if reach { s2.branch_results(f) } else { s2 };
                s3.leave(reach)
            },
        }
    }

    /// Closes an `if` whose both branches can be reached but that has no
    /// `else`: a reachable end of `then` with results copies them and
    /// branches to the end; the missing `else` copies the kept parameters
    /// into the branch registers; the code after the `if` is reachable. The
    /// branch and the copies of the missing `else` are charged to the fuel
    /// instruction of the enclosing frame.
    pub open spec fn close_if_missing_else(self, else_label: Label) -> Result<TState, Failure> {
        let f = self.frames.last();
        let n = f.len_branch_params;
        let bp = f.branch_params.0 as int;
        let then_copied = if self.reachable && n >= 1 {
            match self.copies(bp, self.top_values(n)) {
                Err(e) => Err(e),
                Ok(s) => s.charge_to_parent().push_fueled(Instruction::Branch { target: f.label }, FuelKind::Base),
            }
        } else {
            Ok(self.charge_to_parent())
        };
        match then_copied {
            Err(e) => Err(e),
            Ok(s1) => {
                let s2 = s1.pin_label(else_label);
                let else_copied = if n >= 1 {
                    s2.copies(bp, f.else_providers)
                } else {
                    Ok(s2)
                };
                match else_copied {
                    Err(e) => Err(e),
                    Ok(s3) => s3.pin_label(f.label).branch_results(f).leave(true),
                }
            },
        }
    }

    /// Whether the end of the innermost frame is reached by falling through
    /// from the code before it.
    pub open spec fn end_fallthrough(self) -> bool {
        let f = self.frames.last();
        match f.kind {
            FrameKind::Loop => false,
            FrameKind::Block => self.reachable,
            FrameKind::If => match f.reachability {
                IfReachability::OnlyThen => match f.end_of_then_reachable {
                    Some(b) => b,
                    None => self.reachable,
                },
                IfReachability::OnlyElse => self.reachable || !f.visited_else,
                IfReachability::Both(_) => self.reachable,
            },
        }
    }

    /// Translates `end`: a frame opened in unreachable code and a `loop`
    /// are just closed; a `block` is closed as such; an `if` according to
    /// which of its branches can be reached and whether it has an `else`.
    pub open spec fn end(self) -> Result<TState, Failure> {
        let f = self.frames.last();
        if f.in_unreachable_code {
            Ok(self.pop_frame())
        } else {
            match f.kind {
                FrameKind::Loop => Ok(self.pop_frame()),
                FrameKind::Block => self.close_block(self.end_fallthrough()),
                FrameKind::If => match f.reachability {
                    IfReachability::Both(else_label) => if f.visited_else {
                        self.close_if_with_else()
                    } else {
                        self.close_if_missing_else(else_label)
                    },
                    _ => self.close_block(self.end_fallthrough()),
                },
            }
        }
    }

    /// The value stack holds what closing the innermost frame reads: the
    /// values of a reachable end, and, for an `if` without `else` that has
    /// results, as many kept parameters as results.
    pub open spec fn can_end(self) -> bool {
        let f = self.frames.last();
        &&& self.frames.len() > 0
        &&& !f.in_unreachable_code && self.end_fallthrough() ==> f.height + f.len_branch_params
            <= self.stack.len()
        &&& !f.in_unreachable_code && f.reachability is Both && !f.visited_else
            && f.len_branch_params >= 1 ==> f.else_providers.len() == f.len_branch_params
    }
}

/// Closing the innermost frame keeps the invariant when the code after it
/// is unreachable or the frame below it was opened in reachable code.
pub proof fn lemma_wf_pop_frame(s: TState)
    requires
        s.wf(),
        s.frames.len() > 0,
        s.reachable ==> s.frames.len() > 1,
    ensures
        s.pop_frame().wf(),
{
    let t = s.pop_frame();
    let top = s.frames.len() - 1;
    assert forall|i: int|
        0 <= i < t.frames.len() && !(#[trigger] t.frames[i]).in_unreachable_code implies t.frame_ok(
        t.frames[i],
    ) by {
        assert(t.frames[i] == s.frames[i]);
    }
    assert forall|i: int, j: int|
        0 <= i < j < t.frames.len() && !(#[trigger] t.frames[j]).in_unreachable_code implies !(
        #[trigger] t.frames[i]).in_unreachable_code && t.frames[i].height <= t.frames[j].height by {
        assert(t.frames[i] == s.frames[i]);
        assert(t.frames[j] == s.frames[j]);
    }
    if s.reachable {
        assert(!s.frames[top].in_unreachable_code);
        assert(t.frames.last() == s.frames[top - 1]);
    }
}

impl FuncTranslator {
    /// Closes the innermost frame.
    fn pop_frame(&mut self)
        requires
            old(self).wf(),
            old(self)@.frames.len() > 0,
            old(self)@.reachable ==> old(self)@.frames.len() > 1,
        ensures
            final(self).wf(),
            final(self).module == old(self).module,
            final(self)@ == old(self)@.pop_frame(),
    {
        proof {
            lemma_wf_pop_frame(self@);
        }
        let _ = self.frames.pop();
        proof {
            assert(self@.frames =~= old(self)@.frames.drop_last());
        }
    }

    /// Pushes the `n` registers starting at `first`, which follow the
    /// dynamic registers of the value stack.
    #[verifier::spinoff_prover]
    fn push_span(&mut self, first: Reg, n: usize)
        requires
            old(self).wf(),
            first.0 == old(self)@.next_dyn(),
            first.0 + n <= old(self)@.dyn_hi(),
            old(self)@.num_dynamic + n <= old(self)@.max_dynamic,
        ensures
            final(self).wf(),
            final(self).module == old(self).module,
            final(self)@ == old(self)@.push_span(first.0 as int, n as nat),
    {
        let ghost s0 = self@;
        let ghost nl = s0.len_locals;
        let ghost hi = s0.dyn_hi();
        proof {
            crate::regs::lemma_dyn_span(first.0 as int, n as nat, nl, hi);
            assert(dyn_span(first.0 as int, 0) =~= Seq::<Provider>::empty());
            assert(s0.stack + Seq::<Provider>::empty() =~= s0.stack);
        }
        let mut k: usize = 0;
        while k < n
            invariant
                self.wf(),
                self.module == old(self).module,
                k <= n,
                nl == s0.len_locals,
                hi == s0.dyn_hi(),
                first.0 == s0.next_dyn(),
                first.0 + n <= hi,
                s0.num_dynamic + n <= s0.max_dynamic,
                self@ == s0.push_all(dyn_span(first.0 as int, k as nat)),
            decreases n - k,
        {
            let reg = Reg((first.0 as i32 + k as i32) as i16);
            proof {
                let sp = dyn_span(first.0 as int, k as nat);
                crate::regs::lemma_dyn_span(first.0 as int, k as nat, nl, hi);
                assert(dyn_span(first.0 as int, (k + 1) as nat) =~= sp.push(Provider::Register(reg)));
                assert(s0.stack + sp.push(Provider::Register(reg)) =~= (s0.stack + sp).push(
                    Provider::Register(reg),
                ));
                crate::regs::lemma_count_dyn_push(sp, Provider::Register(reg), nl, hi);
                assert(count_dyn(sp, nl, hi) == k);
                assert(self@.next_dyn() == first.0 + k);
                assert(is_dyn(Provider::Register(reg), nl, hi));
            }
            self.push_register(reg);
            proof {
                let sp1 = dyn_span(first.0 as int, (k + 1) as nat);
                crate::regs::lemma_dyn_span(first.0 as int, (k + 1) as nat, nl, hi);
                assert(self@.stack =~= s0.stack + sp1);
                assert(self@.num_dynamic == s0.num_dynamic + count_dyn(sp1, nl, hi));
            }
            k = k + 1;
        }
    }

    /// Replaces the values of the innermost frame on the value stack by the
    /// registers its branches fill.
    fn branch_results(&mut self)
        requires
            old(self).wf(),
            old(self)@.frames.len() > 0,
            !old(self)@.frames.last().in_unreachable_code,
        ensures
            final(self).wf(),
            final(self).module == old(self).module,
            final(self)@ == old(self)@.branch_results(old(self)@.frames.last()),
    {
        let ghost s0 = self@;
        let top = self.frames.len() - 1;
        let ghost f = s0.frames[top as int];
        proof {
            assert(s0.frames.last() == self.frames@[top as int]@);
            assert(s0.frame_ok(f));
            assert forall|i: int|
                0 <= i < s0.frames.len() && !(#[trigger] s0.frames[i]).in_unreachable_code
                    implies s0.frames[i].height <= f.height by {
                if i < top {
                    assert(!s0.frames[top as int].in_unreachable_code);
                }
            }
        }
        let height = self.frames[top].height;
        let bp = self.frames[top].branch_params;
        let n = self.frames[top].len_branch_params;
        self.trunc(height);
        proof {
            assert(self@.stack == s0.stack.take(f.height as int));
        }
        self.push_span(bp, n);
    }

    /// Closes the innermost frame like a `block`.
    fn close_block(&mut self, fall: bool) -> (r: Result<(), TranslationError>)
        requires
            old(self).wf(),
            old(self)@.frames.len() > 0,
            !old(self)@.frames.last().in_unreachable_code,
            fall ==> old(self)@.frames.last().height + old(self)@.frames.last().len_branch_params
                <= old(self)@.stack.len(),
        ensures
            final(self).wf(),
            final(self).module == old(self).module,
            outcome(old(self)@.close_block(fall), final(self)@, r),
    {
        let ghost s0 = self@;
        let top = self.frames.len() - 1;
        let ghost f = s0.frames[top as int];
        proof {
            assert(s0.frames.last() == self.frames@[top as int]@);
            assert(s0.frame_ok(f));
        }
        let n = self.frames[top].len_branch_params;
        let bp = self.frames[top].branch_params;
        let label = self.frames[top].label;
        let branched_to = self.frames[top].branched_to;
        if fall && branched_to {
            proof {
                assert forall|i: int|
                    0 <= i < s0.frames.len() && !(#[trigger] s0.frames[i]).in_unreachable_code
                        implies s0.frames[i].height + n <= s0.stack.len() by {
                    if i < top {
                        assert(!s0.frames[top as int].in_unreachable_code);
                    }
                }
            }
            let values = self.peek_n(n);
            self.copies(bp.0, &values)?;
            proof {
                crate::control::lemma_copies_shape(s0, bp.0 as int, values@);
            }
        }
        self.pin_label(label);
        let ghost s2 = self@;
        proof {
            assert(s2.frames == s0.frames);
        }
        if branched_to {
            self.branch_results();
        }
        proof {
            assert(self@.frames == s0.frames);
            assert(self@.frames.last() == f);
            if fall && !branched_to && self@.frames.len() == 1 {
                assert(self@.stack == s0.stack);
            }
        }
        self.leave(fall || branched_to)
    }

    /// Closes an `if` with both branches reachable and a visited `else`.
    fn close_if_with_else(&mut self) -> (r: Result<(), TranslationError>)
        requires
            old(self).wf(),
            old(self)@.frames.len() > 1,
            !old(self)@.frames.last().in_unreachable_code,
            old(self)@.reachable ==> old(self)@.frames.last().height
                + old(self)@.frames.last().len_branch_params <= old(self)@.stack.len(),
        ensures
            final(self).wf(),
            final(self).module == old(self).module,
            outcome(old(self)@.close_if_with_else(), final(self)@, r),
    {
        let ghost s0 = self@;
        let top = self.frames.len() - 1;
        let ghost f = s0.frames[top as int];
        proof {
            assert(s0.frames.last() == self.frames@[top as int]@);
            assert(s0.frame_ok(f));
        }
        let n = self.frames[top].len_branch_params;
        let bp = self.frames[top].branch_params;
        let label = self.frames[top].label;
        let branched_to = self.frames[top].branched_to;
        let then_end = match self.frames[top].end_of_then_reachable {
            Some(b) => b,
            None => self.reachable,
        };
        let else_end = self.reachable;
        let reach = then_end || else_end || branched_to;
        if else_end {
            proof {
                assert forall|i: int|
                    0 <= i < s0.frames.len() && !(#[trigger] s0.frames[i]).in_unreachable_code
                        implies s0.frames[i].height + n <= s0.stack.len() by {
                    if i < top {
                        assert(!s0.frames[top as int].in_unreachable_code);
                    }
                }
            }
            let values = self.peek_n(n);
            self.copies(bp.0, &values)?;
            proof {
                crate::control::lemma_copies_shape(s0, bp.0 as int, values@);
            }
        }
        self.pin_label(label);
        if reach {
            self.branch_results();
        }
        proof {
            assert(self@.frames == s0.frames);
        }
        self.leave(reach)
    }

    /// Closes an `if` with both branches reachable and no `else`.
    fn close_if_missing_else(&mut self, else_label: Label) -> (r: Result<(), TranslationError>)
        requires
            old(self).wf(),
            old(self)@.frames.len() > 1,
            !old(self)@.frames.last().in_unreachable_code,
            old(self)@.frames.last().reachability == IfReachability::Both(else_label),
            old(self)@.reachable ==> old(self)@.frames.last().height
                + old(self)@.frames.last().len_branch_params <= old(self)@.stack.len(),
            old(self)@.frames.last().len_branch_params >= 1 ==> old(self)@.frames.last().else_providers.len()
                == old(self)@.frames.last().len_branch_params,
        ensures
            final(self).wf(),
            final(self).module == old(self).module,
            outcome(old(self)@.close_if_missing_else(else_label), final(self)@, r),
    {
        let ghost s0 = self@;
        let top = self.frames.len() - 1;
        let ghost f = s0.frames[top as int];
        proof {
            assert(s0.frames.last() == self.frames@[top as int]@);
            assert(s0.frame_ok(f));
        }
        let n = self.frames[top].len_branch_params;
        let bp = self.frames[top].branch_params;
        let label = self.frames[top].label;
        if self.reachable && n >= 1 {
            proof {
                assert forall|i: int|
                    0 <= i < s0.frames.len() && !(#[trigger] s0.frames[i]).in_unreachable_code
                        implies s0.frames[i].height + n <= s0.stack.len() by {
                    if i < top {
                        assert(!s0.frames[top as int].in_unreachable_code);
                    }
                }
            }
            let values = self.peek_n(n);
            self.copies(bp.0, &values)?;
            proof {
                crate::control::lemma_copies_shape(s0, bp.0 as int, values@);
            }
            self.charge_to_parent();
            self.push_base_instr(Instruction::Branch { target: label })?;
        } else {
            self.charge_to_parent();
        }
        proof {
            assert(self@.frames.len() == s0.frames.len());
            assert(self@.frames.last() == FrameView { fuel_instr: self@.frames.last().fuel_instr, ..f });
            assert(else_label.0 < self@.labels.len());
        }
        self.pin_label(else_label);
        if n >= 1 {
            let ghost s2 = self@;
            let ep = self.else_providers_of_top();
            self.copies(bp.0, &ep)?;
            proof {
                crate::control::lemma_copies_shape(s2, bp.0 as int, ep@);
            }
        }
        self.pin_label(label);
        self.branch_results();
        self.leave(true)
    }

    /// The parameters that the innermost frame, an `if`, keeps for its
    /// `else` branch.
    fn else_providers_of_top(&self) -> (ps: Vec<Provider>)
        requires
            self@.frames.len() > 0,
        ensures
            ps@ == self@.frames.last().else_providers,
    {
        let top = self.frames.len() - 1;
        proof {
            assert(self@.frames.last() == self.frames@[top as int]@);
        }
        let mut ps: Vec<Provider> = Vec::new();
        let mut j: usize = 0;
        while j < self.frames[top].else_providers.len()
            invariant
                top == self.frames@.len() - 1,
                j <= self.frames@[top as int].else_providers@.len(),
                ps@ == self.frames@[top as int].else_providers@.take(j as int),
            decreases self.frames@[top as int].else_providers@.len() - j,
        {
            proof {
                assert(self.frames@[top as int].else_providers@.take(j as int + 1)
                    =~= self.frames@[top as int].else_providers@.take(j as int).push(
                    self.frames@[top as int].else_providers@[j as int],
                ));
            }
            ps.push(self.frames[top].else_providers[j]);
            j = j + 1;
        }
        proof {
            assert(self.frames@[top as int].else_providers@.take(j as int)
                =~= self.frames@[top as int].else_providers@);
        }
        ps
    }

    /// Translates `end`.
    pub fn visit_end(&mut self) -> (r: Result<(), TranslationError>)
        requires
            old(self).wf(),
            old(self)@.can_end(),
        ensures
            final(self).wf(),
            final(self).module == old(self).module,
            outcome(old(self)@.end(), final(self)@, r),
    {
        let top = self.frames.len() - 1;
        let ghost s0 = self@;
        proof {
            assert(s0.frames.last() == self.frames@[top as int]@);
        }
        if self.frames[top].in_unreachable_code {
            self.pop_frame();
            return Ok(());
        }
        let fall = self.end_fallthrough();
        match self.frames[top].kind {
            FrameKind::Loop => {
                proof {
                    assert(s0.frames[0].kind == FrameKind::Block);
                }
                self.pop_frame();
                Ok(())
            },
            FrameKind::Block => self.close_block(fall),
            FrameKind::If => match self.frames[top].reachability {
                IfReachability::Both(else_label) => {
                    if self.frames[top].visited_else {
                        self.close_if_with_else()
                    } else {
                        self.close_if_missing_else(else_label)
                    }
                },
                _ => self.close_block(fall),
            },
        }
    }

    /// Whether the end of the innermost frame is reached by falling through.
    pub fn end_fallthrough(&self) -> (r: bool)
        requires
            self@.frames.len() > 0,
        ensures
            r == self@.end_fallthrough(),
    {
        let top = self.frames.len() - 1;
        proof {
            assert(self@.frames.last() == self.frames@[top as int]@);
        }
        match self.frames[top].kind {
            FrameKind::Loop => false,
            FrameKind::Block => self.reachable,
            FrameKind::If => match self.frames[top].reachability {
                IfReachability::OnlyThen => match self.frames[top].end_of_then_reachable {
                    Some(b) => b,
                    None => self.reachable,
                },
                IfReachability::OnlyElse => self.reachable || !self.frames[top].visited_else,
                IfReachability::Both(_) => self.reachable,
            },
        }
    }

    /// Leaves the innermost frame.
    fn leave(&mut self, reach: bool) -> (r: Result<(), TranslationError>)
        requires
            old(self).wf(),
            old(self)@.frames.len() > 0,
            !old(self)@.frames.last().in_unreachable_code,
            reach && old(self)@.frames.len() == 1 ==> old(self)@.frames[0].len_branch_params
                + old(self)@.frames[0].height <= old(self)@.stack.len(),
        ensures
            final(self).wf(),
            final(self).module == old(self).module,
            outcome(old(self)@.leave(reach), final(self)@, r),
    {
        if self.frames.len() == 1 {
            proof {
                assert(self@.frames[0] == self.frames@[0]@);
                assert(self@.frames[0] == self@.frames.last());
            }
            if reach {
                self.reachable = true;
                let n = self.frames[0].len_branch_params;
                let ghost s1 = self@;
                self.return_values(n)?;
                proof {
                    crate::branch::lemma_return_shape(s1, n as nat);
                }
            } else {
                self.reachable = false;
            }
            self.pop_frame();
            Ok(())
        } else {
            self.reachable = false;
            self.pop_frame();
            proof {
                let s = self@;
                let o = old(self)@;
                crate::control::lemma_reachable_frames(TState { reachable: true, ..o });
                assert(s.frames.last() == o.frames[o.frames.len() - 2]);
            }
            self.reachable = reach;
            Ok(())
        }
    }
}

} // verus!
