//! The translation of structured control flow: `block`, `loop`, `if`,
//! `else`, `end` and the branches.
use vstd::prelude::*;

use crate::ir::{Instruction, Label};
use crate::module::BlockType;
use crate::regs::{count_dyn, dyn_ok, reg_ok, regs_nonneg, dyn_span, lemma_dyn_ok_take,
    lemma_dyn_span};
use crate::translator::{FuncTranslator, TState, TranslationError, Failure, FuelKind, FrameView, FrameKind,
    ControlFrame, IfReachability, reg_space, outcome, lemma_frames_kept};
use crate::value::{Provider, Reg, pow32};

verus! {

/// The frame that stands for a `block`, `loop` or `if` opened in
/// unreachable code.
pub open spec fn unreachable_frame(kind: FrameKind) -> FrameView {
    FrameView {
        kind,
        in_unreachable_code: true,
        block_type: BlockType::Empty,
        label: Label(0),
        branch_params: Reg(0),
        len_branch_params: 0,
        len_results: 0,
        height: 0,
        fuel_instr: None,
        branched_to: false,
        reachability: IfReachability::OnlyThen,
        visited_else: false,
        end_of_then_reachable: None,
        else_providers: Seq::empty(),
    }
}

impl ControlFrame {
    /// The frame of a `block`, `loop` or `if` opened in unreachable code.
    pub fn unreachable(kind: FrameKind) -> (f: ControlFrame)
        ensures
            f@ == unreachable_frame(kind),
    {
        ControlFrame {
            kind,
            in_unreachable_code: true,
            block_type: BlockType::Empty,
            label: Label(0),
            branch_params: Reg(0),
            len_branch_params: 0,
            len_results: 0,
            height: 0,
            fuel_instr: None,
            branched_to: false,
            reachability: IfReachability::OnlyThen,
            visited_else: false,
            end_of_then_reachable: None,
            else_providers: Vec::new(),
        }
    }
}

impl TState {
    /// Opens a frame.
    pub open spec fn push_frame(self, f: FrameView) -> TState {
        TState { frames: self.frames.push(f), ..self }
    }

    /// Closes the innermost frame.
    pub open spec fn pop_frame(self) -> TState {
        TState { frames: self.frames.drop_last(), ..self }
    }

    /// The frame of a `block` or `if` (and the function body) as opened:
    /// not yet branched to.
    pub open spec fn new_frame(
        kind: FrameKind,
        bt: BlockType,
        label: Label,
        bp: Reg,
        len_branch_params: nat,
        len_results: nat,
        height: nat,
        fuel_instr: Option<usize>,
        reachability: IfReachability,
        else_providers: Seq<Provider>,
    ) -> FrameView {
        FrameView {
            kind,
            in_unreachable_code: false,
            block_type: bt,
            label,
            branch_params: bp,
            len_branch_params,
            len_results,
            height,
            fuel_instr,
            branched_to: false,
            reachability,
            visited_else: false,
            end_of_then_reachable: None,
            else_providers,
        }
    }

    /// Truncates the value stack to height `h`.
    pub open spec fn trunc(self, h: nat) -> TState {
        TState { stack: self.stack.take(h as int), num_dynamic: self.count(self.stack.take(h as int)), ..self }
    }

    /// Pushes providers onto the value stack.
    pub open spec fn push_all(self, ps: Seq<Provider>) -> TState {
        TState { stack: self.stack + ps, num_dynamic: self.num_dynamic + self.count(ps), ..self }
    }

    /// Pushes the `n` consecutive registers starting at `first`.
    pub open spec fn push_span(self, first: int, n: nat) -> TState {
        self.push_all(dyn_span(first, n))
    }

    /// Places `n` new values in the next dynamic registers and pushes them;
    /// fails if the register space is exhausted.
    pub open spec fn push_dynamic_n(self, n: nat) -> Result<TState, Failure> {
        if self.next_dyn() + n > self.dyn_hi() || self.next_dyn() >= reg_space() {
            Err(Failure { state: self, error: TranslationError::RegisterOutOfBounds })
        } else {
            let s = self.push_span(self.next_dyn(), n);
            Ok(TState {
                max_dynamic: if self.num_dynamic + n > self.max_dynamic {
                    self.num_dynamic + n
                } else {
                    self.max_dynamic
                },
                ..s
            })
        }
    }

    /// Translates `loop`: the parameters are moved into fresh registers that
    /// branches back to the loop header fill, the header label is pinned,
    /// and each iteration gets its own fuel instruction.
    pub open spec fn loop_(self, bt: BlockType, len_params: nat, len_results: nat) -> Result<TState, Failure> {
        if !self.reachable {
            Ok(self.push_frame(unreachable_frame(FrameKind::Loop)))
        } else {
            match self.preserve_locals() {
                Err(e) => Err(e),
                Ok(s1) => {
                    let params = s1.top_values(len_params);
                    let height = (s1.stack.len() - len_params) as nat;
                    let s2 = s1.trunc(height);
                    let bp = s2.next_dyn();
                    match s2.push_dynamic_n(len_params) {
                        Err(e) => Err(e),
                        Ok(s3) => match s3.copies(bp, params) {
                            Err(e) => Err(e),
                            Ok(s4) => {
                                let (s5, header) = s4.new_label();
                                let s6 = s5.pin_label(header);
                                let (s7, fuel_instr) = s6.make_fuel_instr();
                                Ok(s7.push_frame(
                                    TState::new_frame(
                                        FrameKind::Loop,
                                        bt,
                                        header,
                                        Reg(bp as i16),
                                        len_params,
                                        len_results,
                                        height,
                                        fuel_instr,
                                        IfReachability::OnlyThen,
                                        Seq::empty(),
                                    ),
                                ))
                            },
                        },
                    }
                },
            }
        }
    }

    /// Translates `if`: the condition is popped and the referenced locals are
    /// preserved. A constant condition decides upfront which branch is
    /// reached, and the frame inherits its parent's fuel instruction; a zero
    /// condition makes the `then` branch unreachable. Otherwise the
    /// parameters are kept for the `else` branch, a branch to the `else`
    /// label is taken when the condition is zero, and the `then` branch gets
    /// its own fuel instruction. The conditional branch always tests the
    /// condition register: a comparison that computed it is not fused into
    /// the branch.
    pub open spec fn if_(self, bt: BlockType, len_params: nat, len_results: nat) -> Result<TState, Failure> {
        if !self.reachable {
            Ok(self.push_frame(unreachable_frame(FrameKind::If)))
        } else {
            let condition = self.stack.last();
            let s0 = self.pop();
            let height = (s0.stack.len() - len_params) as nat;
            match s0.preserve_locals() {
                Err(e) => Err(e),
                Ok(s1) => {
                    let (s2, end_label) = s1.new_label();
                    match s2.alloc_branch_params(len_params, len_results) {
                        Err(e) => Err(e),
                        Ok((s3, bp)) => match condition {
                            Provider::Const(v) => {
                                let fuel_instr = s3.frames.last().fuel_instr;
                                let taken = (v.bits as int) % pow32() != 0;
                                let s4 = if taken { s3 } else { s3.set_reachable(false) };
                                Ok(s4.push_frame(TState::new_frame(
                                    FrameKind::If,
                                    bt,
                                    end_label,
                                    bp,
                                    len_results,
                                    len_results,
                                    height,
                                    fuel_instr,
                                    if taken { IfReachability::OnlyThen } else { IfReachability::OnlyElse },
                                    Seq::empty(),
                                )))
                            },
                            Provider::Register(c) => {
                                let else_providers = s3.top_values(len_params);
                                let (s4, else_label) = s3.new_label();
                                match s4.push_fueled(
                                    Instruction::BranchEqz { condition: c, target: else_label },
                                    FuelKind::Base,
                                ) {
                                    Err(e) => Err(e),
                                    Ok(s5) => {
                                        let (s6, fuel_instr) = s5.make_fuel_instr();
                                        Ok(s6.push_frame(TState::new_frame(
                                            FrameKind::If,
                                            bt,
                                            end_label,
                                            bp,
                                            len_results,
                                            len_results,
                                            height,
                                            fuel_instr,
                                            IfReachability::Both(else_label),
                                            else_providers,
                                        )))
                                    },
                                }
                            },
                        },
                    }
                },
            }
        }
    }

    /// Replaces the innermost frame.
    pub open spec fn set_top(self, f: FrameView) -> TState {
        TState { frames: self.frames.update(self.frames.len() - 1, f), ..self }
    }

    /// Charges the instructions that follow to the fuel instruction of the
    /// frame that encloses the innermost one.
    pub open spec fn charge_to_parent(self) -> TState {
        self.set_top(FrameView { fuel_instr: self.frames[self.frames.len() - 2].fuel_instr, ..self.frames.last() })
    }

    /// Translates `else`. For an `if` opened in unreachable code nothing
    /// changes. Otherwise the frame records that its `else` was seen and
    /// whether the end of its `then` branch was reachable. When both
    /// branches can be reached, a reachable end of `then` copies its results
    /// into the branch registers and branches to the end (the branch is
    /// charged to the fuel instruction of the enclosing frame); the `else` label is
    /// pinned, the `else` branch gets its own fuel instruction, and the
    /// value stack is reset to the parameters kept for `else`. The code that
    /// follows is reachable exactly when the `else` branch is.
    pub open spec fn else_(self) -> Result<TState, Failure> {
        let f = self.frames.last();
        if f.in_unreachable_code {
            Ok(self)
        } else {
            match f.reachability {
                IfReachability::Both(else_label) => {
                    let copied = if self.reachable {
                        match self.copies(f.branch_params.0 as int, self.top_values(f.len_branch_params)) {
                            Err(e) => Err(e),
                            Ok(s1) => s1.charge_to_parent().push_fueled(
                                Instruction::Branch { target: f.label },
                                FuelKind::Base,
                            ),
                        }
                    } else {
                        Ok(self)
                    };
                    match copied {
                        Err(e) => Err(e),
                        Ok(s2) => {
                            let s3 = s2.pin_label(else_label);
                            let (s4, fuel_instr) = s3.make_fuel_instr();
                            let s5 = s4.trunc(f.height).push_all(f.else_providers);
                            let f2 = FrameView {
                                visited_else: true,
                                end_of_then_reachable: Some(self.reachable),
                                branched_to: f.branched_to || self.reachable,
                                fuel_instr: if fuel_instr is Some { fuel_instr } else { f.fuel_instr },
                                else_providers: Seq::empty(),
                                ..f
                            };
                            Ok(s5.set_top(f2).set_reachable(true))
                        },
                    }
                },
                IfReachability::OnlyThen => Ok(
                    self.set_top(
                        FrameView {
                            visited_else: true,
                            end_of_then_reachable: Some(self.reachable),
                            else_providers: Seq::empty(),
                            ..f
                        },
                    ).set_reachable(false),
                ),
                IfReachability::OnlyElse => Ok(
                    self.set_top(FrameView { visited_else: true, else_providers: Seq::empty(), ..f })
                        .set_reachable(true),
                ),
            }
        }
    }

    /// Translates `block`: in unreachable code only the frame is recorded;
    /// otherwise the referenced locals are preserved, an end label is created,
    /// the result registers are reserved, and the block inherits the fuel
    /// instruction of its parent.
    pub open spec fn block(self, bt: BlockType, len_params: nat, len_results: nat) -> Result<TState, Failure> {
        if !self.reachable {
            Ok(self.push_frame(unreachable_frame(FrameKind::Block)))
        } else {
            match self.preserve_locals() {
                Err(e) => Err(e),
                Ok(s1) => {
                    let fuel_instr = s1.frames.last().fuel_instr;
                    let height = (s1.stack.len() - len_params) as nat;
                    let (s2, end_label) = s1.new_label();
                    match s2.alloc_branch_params(len_params, len_results) {
                        Err(e) => Err(e),
                        Ok((s3, bp)) => Ok(
                            s3.push_frame(
                                TState::new_frame(
                                    FrameKind::Block,
                                    bt,
                                    end_label,
                                    bp,
                                    len_results,
                                    len_results,
                                    height,
                                    fuel_instr,
                                    IfReachability::OnlyThen,
                                    Seq::empty(),
                                ),
                            ),
                        ),
                    }
                },
            }
        }
    }
}

/// Preservation changes no more than the value stack's entries, the
/// preservation count and the instructions.
pub proof fn lemma_preserve_shape(s: TState, i: int)
    requires
        s.preserve_from(i) is Ok,
    ensures
        ({
            let t = s.preserve_from(i)->Ok_0;
            &&& t.stack.len() == s.stack.len()
            &&& t.frames == s.frames
            &&& t.reachable == s.reachable
            &&& t.len_locals == s.len_locals
            &&& t.fuel == s.fuel
            &&& t.labels == s.labels
            &&& t.consts == s.consts
            &&& t.num_dynamic == s.num_dynamic
            &&& t.max_dynamic == s.max_dynamic
        }),
    decreases s.stack.len() - i,
{
    if i < 0 || i >= s.stack.len() {
    } else {
        match s.stack[i] {
            Provider::Register(l) => {
                if 0 <= l.0 < s.len_locals {
                    let s1 = s.preserve_local(l)->Ok_0;
                    if s1.stack.len() == s.stack.len() {
                        lemma_preserve_shape(s1, i + 1);
                    }
                } else {
                    lemma_preserve_shape(s, i + 1);
                }
            },
            Provider::Const(_) => {
                lemma_preserve_shape(s, i + 1);
            },
        }
    }
}

/// Two states differ at most in their instructions and constants.
pub open spec fn same_but_instrs(s: TState, t: TState) -> bool {
    t == TState { instrs: t.instrs, consts: t.consts, ..s }
}

/// Charging fuel and appending an instruction changes only the
/// instructions.
pub proof fn lemma_push_fueled_shape(s: TState, instr: Instruction, kind: FuelKind)
    requires
        s.push_fueled(instr, kind) is Ok,
    ensures
        same_but_instrs(s, s.push_fueled(instr, kind)->Ok_0),
{
}

/// Copies change only the instructions and the constants.
pub proof fn lemma_copies_shape(s: TState, first: int, ps: Seq<Provider>)
    requires
        s.copies(first, ps) is Ok,
    ensures
        same_but_instrs(s, s.copies(first, ps)->Ok_0),
{
    if ps != dyn_span(first, ps.len()) && ps.len() != 1 {
        let s1 = s.push_fueled(
            Instruction::CopyMany { results: Reg(first as i16), len: ps.len() as u32 },
            FuelKind::Base,
        )->Ok_0;
        crate::branch::lemma_register_list_shape(s1, ps);
    }
}

/// Opening a frame in unreachable code keeps the invariant.
pub proof fn lemma_wf_push_unreachable_frame(s: TState, kind: FrameKind)
    requires
        s.wf(),
        !s.reachable,
        s.frames.len() > 0 || kind == FrameKind::Block,
    ensures
        s.push_frame(unreachable_frame(kind)).wf(),
{
    let t = s.push_frame(unreachable_frame(kind));
    assert forall|i: int|
        0 <= i < t.frames.len() && !(#[trigger] t.frames[i]).in_unreachable_code implies t.frame_ok(
        t.frames[i],
    ) by {
        assert(t.frames[i] == s.frames[i]);
    }
    assert forall|i: int, j: int|
        0 <= i < j < t.frames.len() && !(#[trigger] t.frames[j]).in_unreachable_code implies !(
        #[trigger] t.frames[i]).in_unreachable_code && t.frames[i].height <= t.frames[j].height by {
        assert(t.frames[i] == s.frames[i]);
        assert(t.frames[j] == s.frames[j]);
    }
}

/// Opening a frame in reachable code keeps the invariant when the frame
/// satisfies its own invariant and lies above every open frame.
pub proof fn lemma_wf_push_frame(s: TState, f: FrameView)
    requires
        s.wf(),
        !f.in_unreachable_code,
        s.frame_ok(f),
        s.frames.len() > 0 || f.kind == FrameKind::Block,
        forall|i: int|
            0 <= i < s.frames.len() ==> !(#[trigger] s.frames[i]).in_unreachable_code
                && s.frames[i].height <= f.height,
    ensures
        s.push_frame(f).wf(),
{
    let t = s.push_frame(f);
    assert forall|i: int|
        0 <= i < t.frames.len() && !(#[trigger] t.frames[i]).in_unreachable_code implies t.frame_ok(
        t.frames[i],
    ) by {
        if i < s.frames.len() {
            assert(t.frames[i] == s.frames[i]);
        }
    }
    assert forall|i: int, j: int|
        0 <= i < j < t.frames.len() && !(#[trigger] t.frames[j]).in_unreachable_code implies !(
        #[trigger] t.frames[i]).in_unreachable_code && t.frames[i].height <= t.frames[j].height by {
        assert(t.frames[i] == s.frames[i]);
        if j < s.frames.len() {
            assert(t.frames[j] == s.frames[j]);
        }
    }
}

/// In reachable code every open frame was opened in reachable code.
pub proof fn lemma_reachable_frames(s: TState)
    requires
        s.wf(),
        s.reachable,
    ensures
        forall|i: int| 0 <= i < s.frames.len() ==> !(#[trigger] s.frames[i]).in_unreachable_code,
        s.frame_ok(s.frames.last()),
{
    let top = s.frames.len() - 1;
    assert(s.frames[top] == s.frames.last());
    assert forall|i: int| 0 <= i < s.frames.len() implies !(#[trigger] s.frames[i]).in_unreachable_code by {
        if i < top {
            assert(!s.frames[top].in_unreachable_code);
        }
    }
}

/// Replacing the innermost frame, opened in reachable code, by a frame at
/// the same height that satisfies its invariant keeps the invariant.
pub proof fn lemma_wf_set_top(s: TState, f: FrameView)
    requires
        s.wf(),
        s.frames.len() > 0,
        !s.frames.last().in_unreachable_code,
        !f.in_unreachable_code,
        f.height == s.frames.last().height,
        f.kind == s.frames.last().kind,
        s.frame_ok(f),
    ensures
        s.set_top(f).wf(),
{
    let t = s.set_top(f);
    let top = s.frames.len() - 1;
    assert forall|i: int|
        0 <= i < t.frames.len() && !(#[trigger] t.frames[i]).in_unreachable_code implies t.frame_ok(
        t.frames[i],
    ) by {
        if i < top {
            assert(t.frames[i] == s.frames[i]);
        }
    }
    assert forall|i: int, j: int|
        0 <= i < j < t.frames.len() && !(#[trigger] t.frames[j]).in_unreachable_code implies !(
        #[trigger] t.frames[i]).in_unreachable_code && t.frames[i].height <= t.frames[j].height by {
        assert(t.frames[i] == s.frames[i]);
        assert(!s.frames[top].in_unreachable_code);
        if j < top {
            assert(t.frames[j] == s.frames[j]);
        }
    }
}

impl FuncTranslator {
    /// Opens a frame, keeping the frames' view in step.
    fn push_frame(&mut self, f: ControlFrame)
        requires
            old(self).wf(),
            f@.in_unreachable_code ==> !old(self)@.reachable,
            !f@.in_unreachable_code ==> old(self)@.frame_ok(f@) && forall|i: int|
                0 <= i < old(self)@.frames.len() ==> !(#[trigger] old(self)@.frames[i]).in_unreachable_code
                    && old(self)@.frames[i].height <= f@.height,
            f@.in_unreachable_code ==> f@ == unreachable_frame(f@.kind),
            old(self)@.frames.len() > 0 || f@.kind == FrameKind::Block,
        ensures
            final(self).wf(),
            final(self).module == old(self).module,
            final(self)@ == old(self)@.push_frame(f@),
    {
        proof {
            if f@.in_unreachable_code {
                lemma_wf_push_unreachable_frame(self@, f@.kind);
            } else {
                lemma_wf_push_frame(self@, f@);
            }
        }
        let ghost fv = f@;
        self.frames.push(f);
        proof {
            assert(self@.frames =~= old(self)@.frames.push(fv));
        }
    }

    /// Translates `block`.
    pub fn visit_block(&mut self, bt: BlockType) -> (r: Result<(), TranslationError>)
        requires
            old(self).wf(),
            old(self).module.valid_block_type(bt),
            old(self)@.reachable ==> old(self)@.can_pop(old(self).module.spec_len_params(bt)),
        ensures
            final(self).wf(),
            final(self).module == old(self).module,
            outcome(
                old(self)@.block(bt, old(self).module.spec_len_params(bt), old(self).module.spec_len_results(bt)),
                final(self)@,
                r,
            ),
    {
        let len_params = self.module.len_params(bt);
        let len_results = self.module.len_results(bt);
        if !self.reachable {
            self.push_frame(ControlFrame::unreachable(FrameKind::Block));
            return Ok(());
        }
        let ghost s0 = self@;
        proof {
            lemma_reachable_frames(s0);
            assert(s0.frames[s0.frames.len() - 1].height + len_params <= s0.stack.len());
        }
        self.preserve_locals()?;
        proof {
            lemma_preserve_shape(s0, 0);
        }
        let top = self.frames.len() - 1;
        let fuel_instr = self.frames[top].fuel_instr;
        proof {
            assert(self@.frames[top as int] == self.frames@[top as int]@);
        }
        let height = self.stack.len() - len_params;
        let end_label = self.new_label();
        let bp = self.alloc_branch_params(len_params, len_results)?;
        let frame = ControlFrame {
            kind: FrameKind::Block,
            in_unreachable_code: false,
            block_type: bt,
            label: end_label,
            branch_params: bp,
            len_branch_params: len_results,
            len_results,
            height,
            fuel_instr,
            branched_to: false,
            reachability: IfReachability::OnlyThen,
            visited_else: false,
            end_of_then_reachable: None,
            else_providers: Vec::new(),
        };
        proof {
            let s = self@;
            assert(s.frame_ok(s.frames[top as int]));
            assert(frame@.else_providers =~= Seq::<Provider>::empty());
            assert(s.count(Seq::<Provider>::empty()) == 0);
            assert(s.frame_ok(frame@));
            assert(frame@ == TState::new_frame(FrameKind::Block, bt, end_label, bp, len_results as nat, len_results as nat, height as nat, fuel_instr, IfReachability::OnlyThen, Seq::empty()));
        }
        self.push_frame(frame);
        Ok(())
    }

    /// Translates `if`.
    pub fn visit_if(&mut self, bt: BlockType) -> (r: Result<(), TranslationError>)
        requires
            old(self).wf(),
            old(self).module.valid_block_type(bt),
            old(self)@.frames.len() > 0,
            old(self)@.reachable ==> old(self)@.stack.len() > 0 && old(self)@.can_pop(
                old(self).module.spec_len_params(bt) + 1,
            ),
        ensures
            final(self).wf(),
            final(self).module == old(self).module,
            outcome(
                old(self)@.if_(bt, old(self).module.spec_len_params(bt), old(self).module.spec_len_results(bt)),
                final(self)@,
                r,
            ),
    {
        let len_params = self.module.len_params(bt);
        let len_results = self.module.len_results(bt);
        if !self.reachable {
            self.push_frame(ControlFrame::unreachable(FrameKind::If));
            return Ok(());
        }
        proof {
            lemma_reachable_frames(self@);
        }
        let condition = self.pop();
        let ghost s0 = self@;
        proof {
            lemma_reachable_frames(s0);
            assert(s0.frames[s0.frames.len() - 1].height + len_params <= s0.stack.len());
        }
        let height = self.stack.len() - len_params;
        self.preserve_locals()?;
        proof {
            lemma_preserve_shape(s0, 0);
            lemma_reachable_frames(self@);
        }
        let end_label = self.new_label();
        let bp = self.alloc_branch_params(len_params, len_results)?;
        let ghost s3 = self@;
        proof {
            lemma_reachable_frames(s3);
        }
        let top = self.frames.len() - 1;
        proof {
            assert(s3.frames[top as int] == self.frames@[top as int]@);
            assert(s3.frame_ok(s3.frames[top as int]));
        }
        match condition {
            Provider::Const(v) => {
                let fuel_instr = self.frames[top].fuel_instr;
                let taken = v.low32() != 0;
                if !taken {
                    self.reachable = false;
                }
                let frame = ControlFrame {
                    kind: FrameKind::If,
                    in_unreachable_code: false,
                    block_type: bt,
                    label: end_label,
                    branch_params: bp,
                    len_branch_params: len_results,
                    len_results,
                    height,
                    fuel_instr,
                    branched_to: false,
                    reachability: if taken { IfReachability::OnlyThen } else { IfReachability::OnlyElse },
                    visited_else: false,
                    end_of_then_reachable: None,
                    else_providers: Vec::new(),
                };
                proof {
                    let s = self@;
                    assert(frame@.else_providers =~= Seq::<Provider>::empty());
                    assert(s.count(Seq::<Provider>::empty()) == 0);
                    assert(s.frame_ok(frame@));
                    lemma_frames_kept(s3, s);
                }
                self.push_frame(frame);
                Ok(())
            },
            Provider::Register(c) => {
                let else_providers = self.peek_n(len_params);
                proof {
                    let nl = s3.len_locals;
                    let hi = s3.dyn_hi();
                    crate::regs::lemma_dyn_ok_suffix(s3.stack, height as int, nl, nl, hi);
                    assert(else_providers@ == s3.stack.subrange(height as int, s3.stack.len() as int));
                    assert(regs_nonneg(else_providers@)) by {
                        assert forall|j: int| 0 <= j < else_providers@.len() implies reg_ok(#[trigger] else_providers@[j]) by {
                            assert(else_providers@[j] == s3.stack[height + j]);
                        }
                    }
                }
                let else_label = self.new_label();
                self.push_base_instr(Instruction::BranchEqz { condition: c, target: else_label })?;
                let ghost s5 = self@;
                let ghost n5: usize = self.instrs.len();
                let fuel_instr = self.make_fuel_instr();
                let frame = ControlFrame {
                    kind: FrameKind::If,
                    in_unreachable_code: false,
                    block_type: bt,
                    label: end_label,
                    branch_params: bp,
                    len_branch_params: len_results,
                    len_results,
                    height,
                    fuel_instr,
                    branched_to: false,
                    reachability: IfReachability::Both(else_label),
                    visited_else: false,
                    end_of_then_reachable: None,
                    else_providers,
                };
                proof {
                    let s = self@;
                    assert(s.stack == s3.stack);
                    assert(s.fuel is Some ==> s.instrs[n5 as int] is ConsumeFuel);
                    assert(s.frame_ok(frame@));
                }
                self.push_frame(frame);
                Ok(())
            },
        }
    }

    /// Replaces the innermost frame.
    fn set_top(&mut self, f: ControlFrame)
        requires
            old(self).wf(),
            old(self)@.frames.len() > 0,
            !old(self)@.frames.last().in_unreachable_code,
            !f@.in_unreachable_code,
            f@.height == old(self)@.frames.last().height,
            f@.kind == old(self)@.frames.last().kind,
            old(self)@.frame_ok(f@),
        ensures
            final(self).wf(),
            final(self).module == old(self).module,
            final(self)@ == old(self)@.set_top(f@),
    {
        proof {
            lemma_wf_set_top(self@, f@);
        }
        let ghost fv = f@;
        let top = self.frames.len() - 1;
        self.frames.set(top, f);
        proof {
            assert(self@.frames =~= old(self)@.frames.update(top as int, fv));
        }
    }

    /// Charges the instructions that follow to the fuel instruction of the
    /// enclosing frame.
    pub(crate) fn charge_to_parent(&mut self)
        requires
            old(self).wf(),
            old(self)@.frames.len() > 1,
            !old(self)@.frames.last().in_unreachable_code,
        ensures
            final(self).wf(),
            final(self).module == old(self).module,
            final(self)@ == old(self)@.charge_to_parent(),
    {
        let top = self.frames.len() - 1;
        let fuel_instr = self.frames[top - 1].fuel_instr;
        let ghost s = self@;
        let ghost f = FrameView { fuel_instr: s.frames[s.frames.len() - 2].fuel_instr, ..s.frames.last() };
        proof {
            assert(s.frames[top - 1] == self.frames@[top - 1]@);
            assert(!s.frames[top - 1].in_unreachable_code);
            assert(s.frame_ok(s.frames[top - 1]));
            assert(s.frame_ok(s.frames[top as int]));
            assert(s.frame_ok(f));
            lemma_wf_set_top(s, f);
        }
        let mut fr = self.frames.pop().unwrap();
        fr.fuel_instr = fuel_instr;
        proof {
            assert(fr@ == f);
        }
        self.frames.push(fr);
        proof {
            assert(self@.frames =~= s.frames.update(top as int, f));
        }
    }

    /// Pushes the parameters that the innermost frame, an `if`, kept for
    /// its `else` branch; the value stack stands at the frame's height.
    fn push_else_providers(&mut self)
        requires
            old(self).wf(),
            old(self)@.frames.len() > 0,
            !old(self)@.frames.last().in_unreachable_code,
            old(self)@.stack.len() == old(self)@.frames.last().height,
        ensures
            final(self).wf(),
            final(self).module == old(self).module,
            final(self)@ == old(self)@.push_all(old(self)@.frames.last().else_providers),
    {
        let ghost s0 = self@;
        let top = self.frames.len() - 1;
        let ghost f = s0.frames[top as int];
        let ghost ep = f.else_providers;
        let ghost nl = s0.len_locals;
        let ghost hi = s0.dyn_hi();
        proof {
            assert(s0.frames.last() == f);
            assert(self.frames@[top as int]@ == f);
            assert(s0.frame_ok(f));
            assert(s0.stack.take(f.height as int) =~= s0.stack);
            assert(s0.next_dyn() == f.branch_params.0);
            assert(ep.take(0) =~= Seq::<Provider>::empty());
            assert(s0.stack + Seq::<Provider>::empty() =~= s0.stack);
        }
        let mut j: usize = 0;
        while j < self.frames[top].else_providers.len()
            invariant
                self.wf(),
                self.module == old(self).module,
                top == s0.frames.len() - 1,
                self@.frames == s0.frames,
                self.frames@[top as int]@ == f,
                f == s0.frames[top as int],
                ep == f.else_providers,
                nl == s0.len_locals,
                hi == s0.dyn_hi(),
                j <= ep.len(),
                regs_nonneg(ep),
                dyn_ok(ep, s0.next_dyn(), nl, hi),
                s0.num_dynamic + count_dyn(ep, nl, hi) <= s0.max_dynamic,
                self@ == s0.push_all(ep.take(j as int)),
            decreases ep.len() - j,
        {
            let p = self.frames[top].else_providers[j];
            proof {
                assert(p == ep[j as int]);
                crate::frames::lemma_count_take_step(ep, j as int, nl, hi);
                crate::regs::lemma_dyn_ok_take(ep, j as int + 1, s0.next_dyn(), nl, hi);
                crate::regs::lemma_count_take_le(ep, j as int + 1, nl, hi);
                assert(reg_ok(ep[j as int]));
                assert(ep.take(j as int + 1) =~= ep.take(j as int).push(p));
                assert(s0.stack + ep.take(j as int + 1) =~= (s0.stack + ep.take(j as int)).push(p));
            }
            match p {
                Provider::Register(reg) => self.push_register(reg),
                Provider::Const(v) => self.push_const(v),
            }
            j = j + 1;
        }
        proof {
            assert(ep.take(ep.len() as int) =~= ep);
        }
    }

    /// Translates `else`.
    #[verifier::rlimit(40)]
    pub fn visit_else(&mut self) -> (r: Result<(), TranslationError>)
        requires
            old(self).wf(),
            old(self)@.frames.len() > 0,
            old(self)@.frames.last().kind == FrameKind::If,
            old(self)@.reachable ==> old(self)@.frames.last().height
                + old(self)@.frames.last().len_branch_params <= old(self)@.stack.len(),
        ensures
            final(self).wf(),
            final(self).module == old(self).module,
            outcome(old(self)@.else_(), final(self)@, r),
    {
        let top = self.frames.len() - 1;
        let ghost s0 = self@;
        proof {
            assert(s0.frames.last() == self.frames@[top as int]@);
        }
        if self.frames[top].in_unreachable_code {
            return Ok(());
        }
        proof {
            assert(s0.frame_ok(s0.frames[top as int]));
        }
        let kind = self.frames[top].kind;
        let block_type = self.frames[top].block_type;
        let label = self.frames[top].label;
        let bp = self.frames[top].branch_params;
        let len_bp = self.frames[top].len_branch_params;
        let len_results = self.frames[top].len_results;
        let height = self.frames[top].height;
        let old_fuel_instr = self.frames[top].fuel_instr;
        let branched_to = self.frames[top].branched_to;
        let reachability = self.frames[top].reachability;
        let was_reachable = self.reachable;
        match reachability {
            IfReachability::Both(else_label) => {
                if self.reachable {
                    let ps = self.peek_n(len_bp);
                    self.copies(bp.0, &ps)?;
                    proof {
                        lemma_copies_shape(s0, bp.0 as int, ps@);
                    }
                    self.charge_to_parent();
                    self.push_base_instr(Instruction::Branch { target: label })?;
                }
                let ghost s2 = self@;
                self.pin_label(else_label);
                let ghost s3 = self@;
                let ghost n3: usize = self.instrs.len();
                let new_fuel_instr = self.make_fuel_instr();
                let ghost s4 = self@;
                proof {
                    assert(s4.frames.len() == s0.frames.len());
                    assert(s4.frames.last().height == height);
                    assert forall|i: int|
                        0 <= i < s4.frames.len() && !(#[trigger] s4.frames[i]).in_unreachable_code
                            implies s4.frames[i].height <= height by {
                        if i < top {
                            assert(s4.frames[i] == s0.frames[i]);
                            assert(!s0.frames[top as int].in_unreachable_code);
                        }
                    }
                }
                self.trunc(height);
                let ghost s5 = self@;
                proof {
                    assert(s5.stack.len() == height);
                }
                self.push_else_providers();
                let fuel_instr = match new_fuel_instr {
                    Some(i) => Some(i),
                    None => old_fuel_instr,
                };
                let frame = ControlFrame {
                    kind,
                    in_unreachable_code: false,
                    block_type,
                    label,
                    branch_params: bp,
                    len_branch_params: len_bp,
                    len_results,
                    height,
                    fuel_instr,
                    branched_to: branched_to || was_reachable,
                    reachability,
                    visited_else: true,
                    end_of_then_reachable: Some(was_reachable),
                    else_providers: Vec::new(),
                };
                proof {
                    let s = self@;
                    assert(frame@.else_providers =~= Seq::<Provider>::empty());
                    assert(s.count(Seq::<Provider>::empty()) == 0);
                    assert(s.stack.take(height as int) =~= s5.stack);
                    assert(s.fuel is Some ==> s.instrs[n3 as int] is ConsumeFuel);
                    assert(s.frame_ok(frame@));
                }
                self.set_top(frame);
                self.reachable = true;
                proof {
                    assert(self@ == s0.else_()->Ok_0);
                }
                Ok(())
            },
            IfReachability::OnlyThen | IfReachability::OnlyElse => {
                let only_else = match reachability {
                    IfReachability::OnlyElse => true,
                    _ => false,
                };
                let ep = Vec::new();
                let frame = ControlFrame {
                    kind,
                    in_unreachable_code: false,
                    block_type,
                    label,
                    branch_params: bp,
                    len_branch_params: len_bp,
                    len_results,
                    height,
                    fuel_instr: old_fuel_instr,
                    branched_to,
                    reachability,
                    visited_else: true,
                    end_of_then_reachable: if only_else {
                        self.frames[top].end_of_then_reachable
                    } else {
                        Some(was_reachable)
                    },
                    else_providers: ep,
                };
                proof {
                    let s = self@;
                    assert(frame@.else_providers =~= Seq::<Provider>::empty());
                    assert(s.count(Seq::<Provider>::empty()) == 0);
                    assert(s.frame_ok(frame@));
                }
                self.set_top(frame);
                self.reachable = only_else;
                Ok(())
            },
        }
    }

    /// The `n` providers on top of the value stack, bottom first.
    pub fn peek_n(&self, n: usize) -> (ps: Vec<Provider>)
        requires
            n <= self@.stack.len(),
        ensures
            ps@ == self@.top_values(n as nat),
    {
        let len = self.stack.len();
        let mut ps: Vec<Provider> = Vec::new();
        let mut j = len - n;
        while j < len
            invariant
                len == self.stack@.len(),
                n <= len,
                len - n <= j <= len,
                ps@ == self.stack@.subrange(len - n, j as int),
            decreases len - j,
        {
            proof {
                assert(self.stack@.subrange(len - n, j as int + 1) =~= self.stack@.subrange(len - n, j as int).push(self.stack@[j as int]));
            }
            ps.push(self.stack[j]);
            j = j + 1;
        }
        ps
    }

    /// Truncates the value stack to height `h`, which is at or above every
    /// open frame.
    pub fn trunc(&mut self, h: usize)
        requires
            old(self).wf(),
            h <= old(self)@.stack.len(),
            forall|i: int|
                0 <= i < old(self)@.frames.len() && !(#[trigger] old(self)@.frames[i]).in_unreachable_code
                    ==> old(self)@.frames[i].height <= h,
        ensures
            final(self).wf(),
            final(self).module == old(self).module,
            final(self)@ == old(self)@.trunc(h as nat),
    {
        let ghost s0 = self@;
        proof {
            assert(s0.stack.take(s0.stack.len() as int) =~= s0.stack);
        }
        while self.stack.len() > h
            invariant
                self.wf(),
                self.module == old(self).module,
                h <= self@.stack.len() <= s0.stack.len(),
                self@ == s0.trunc(self@.stack.len()),
                forall|i: int|
                    0 <= i < self@.frames.len() && !(#[trigger] self@.frames[i]).in_unreachable_code
                        ==> self@.frames[i].height <= h,
            decreases self@.stack.len(),
        {
            let ghost before = self@;
            let ghost k = before.stack.len();
            proof {
                assert(before.can_pop(1));
                crate::frames::lemma_count_take_step(s0.stack, k - 1, s0.len_locals, s0.dyn_hi());
                assert(s0.stack.take(k - 1) =~= before.stack.drop_last());
                assert(before.stack.last() == s0.stack[k - 1]);
            }
            self.pop();
            proof {
                assert(self@.stack =~= s0.stack.take(k - 1));
            }
        }
        proof {
            assert(self@.stack.len() == h);
        }
    }

    /// Pops the `n` top providers and returns them, bottom first.
    pub fn pop_n(&mut self, n: usize) -> (ps: Vec<Provider>)
        requires
            old(self).wf(),
            n <= old(self)@.stack.len(),
            old(self)@.can_pop(n as nat),
        ensures
            final(self).wf(),
            final(self).module == old(self).module,
            ps@ == old(self)@.top_values(n as nat),
            final(self)@ == old(self)@.trunc((old(self)@.stack.len() - n) as nat),
    {
        let ps = self.peek_n(n);
        let h = self.stack.len() - n;
        self.trunc(h);
        ps
    }

    /// Pushes providers onto the value stack; their dynamic registers must
    /// follow on those of the stack.
    pub fn push_all(&mut self, ps: &Vec<Provider>)
        requires
            old(self).wf(),
            regs_nonneg(ps@),
            dyn_ok(ps@, old(self)@.next_dyn(), old(self)@.len_locals, old(self)@.dyn_hi()),
            old(self)@.num_dynamic + old(self)@.count(ps@) <= old(self)@.max_dynamic,
        ensures
            final(self).wf(),
            final(self).module == old(self).module,
            final(self)@ == old(self)@.push_all(ps@),
    {
        let ghost s0 = self@;
        let ghost nl = s0.len_locals;
        let ghost hi = s0.dyn_hi();
        let mut j: usize = 0;
        proof {
            assert(ps@.take(0) =~= Seq::<Provider>::empty());
            assert(s0.stack + Seq::<Provider>::empty() =~= s0.stack);
        }
        while j < ps.len()
            invariant
                self.wf(),
                self.module == old(self).module,
                j <= ps@.len(),
                nl == s0.len_locals,
                hi == s0.dyn_hi(),
                regs_nonneg(ps@),
                dyn_ok(ps@, s0.next_dyn(), nl, hi),
                s0.num_dynamic + s0.count(ps@) <= s0.max_dynamic,
                self@ == s0.push_all(ps@.take(j as int)),
            decreases ps@.len() - j,
        {
            let p = ps[j];
            proof {
                crate::frames::lemma_count_take_step(ps@, j as int, nl, hi);
                crate::regs::lemma_dyn_ok_take(ps@, j as int + 1, s0.next_dyn(), nl, hi);
                crate::regs::lemma_count_take_le(ps@, j as int + 1, nl, hi);
                assert(reg_ok(ps@[j as int]));
                assert(ps@.take(j as int + 1) =~= ps@.take(j as int).push(p));
                assert(s0.stack + ps@.take(j as int + 1) =~= (s0.stack + ps@.take(j as int)).push(p));
            }
            match p {
                Provider::Register(reg) => self.push_register(reg),
                Provider::Const(v) => self.push_const(v),
            }
            j = j + 1;
        }
        proof {
            assert(ps@.take(ps@.len() as int) =~= ps@);
        }
    }

    /// Places `n` new values in the next dynamic registers and pushes them.
    pub fn push_dynamic_n(&mut self, n: usize) -> (r: Result<Reg, TranslationError>)
        requires
            old(self).wf(),
        ensures
            final(self).wf(),
            final(self).module == old(self).module,
            match old(self)@.push_dynamic_n(n as nat) {
                Ok(s) => r == Ok::<Reg, TranslationError>(Reg(old(self)@.next_dyn() as i16)) && final(self)@ == s,
                Err(f) => r == Err::<Reg, TranslationError>(f.error) && final(self)@ == f.state,
            },
    {
        let next: u32 = self.len_locals as u32 + self.num_dynamic as u32;
        let hi: u32 = 0x8000u32 - self.num_preserved as u32;
        if n > 0x8000 || next + n as u32 > hi || next >= 0x8000 {
            return Err(TranslationError::RegisterOutOfBounds);
        }
        let ghost s0 = self@;
        let mut k: usize = 0;
        proof {
            assert(dyn_span(s0.next_dyn(), 0) =~= Seq::<Provider>::empty());
            assert(s0.stack + Seq::<Provider>::empty() =~= s0.stack);
        }
        while k < n
            invariant
                self.wf(),
                self.module == old(self).module,
                k <= n,
                next == s0.next_dyn(),
                hi == s0.dyn_hi(),
                next + n <= hi,
                self@.stack == s0.stack + dyn_span(next as int, k as nat),
                self@.num_dynamic == s0.num_dynamic + k,
                self@.max_dynamic == if s0.num_dynamic + k > s0.max_dynamic { (s0.num_dynamic + k) as nat } else { s0.max_dynamic },
                self@ == (TState { stack: self@.stack, num_dynamic: self@.num_dynamic, max_dynamic: self@.max_dynamic, ..s0 }),
            decreases n - k,
        {
            let ghost before = self@;
            let reg = self.push_dynamic();
            proof {
                assert(before.next_dyn() == next + k);
                assert(dyn_span(next as int, (k + 1) as nat) =~= dyn_span(next as int, k as nat).push(Provider::Register(Reg((next + k) as i16))));
                assert(self@.stack =~= s0.stack + dyn_span(next as int, (k + 1) as nat));
            }
            k = k + 1;
        }
        proof {
            crate::regs::lemma_dyn_span(next as int, n as nat, s0.len_locals, s0.dyn_hi());
        }
        Ok(Reg(next as i16))
    }

    /// Translates `loop`.
    #[verifier::rlimit(40)]
    pub fn visit_loop(&mut self, bt: BlockType) -> (r: Result<(), TranslationError>)
        requires
            old(self).wf(),
            old(self).module.valid_block_type(bt),
            old(self)@.frames.len() > 0,
            old(self)@.reachable ==> old(self)@.can_pop(old(self).module.spec_len_params(bt)),
        ensures
            final(self).wf(),
            final(self).module == old(self).module,
            outcome(
                old(self)@.loop_(bt, old(self).module.spec_len_params(bt), old(self).module.spec_len_results(bt)),
                final(self)@,
                r,
            ),
    {
        let len_params = self.module.len_params(bt);
        let len_results = self.module.len_results(bt);
        if !self.reachable {
            self.push_frame(ControlFrame::unreachable(FrameKind::Loop));
            return Ok(());
        }
        let ghost s0 = self@;
        proof {
            lemma_reachable_frames(s0);
        }
        self.preserve_locals()?;
        proof {
            lemma_preserve_shape(s0, 0);
            lemma_reachable_frames(self@);
        }
        let params = self.pop_n(len_params);
        let height = self.stack.len();
        let ghost s2 = self@;
        let bp = self.push_dynamic_n(len_params)?;
        let ghost s3 = self@;
        self.copies(bp.0, &params)?;
        proof {
            lemma_copies_shape(s3, bp.0 as int, params@);
        }
        let header = self.new_label();
        self.pin_label(header);
        let ghost s6 = self@;
        let ghost n6: usize = self.instrs.len();
        let fuel_instr = self.make_fuel_instr();
        let frame = ControlFrame {
            kind: FrameKind::Loop,
            in_unreachable_code: false,
            block_type: bt,
            label: header,
            branch_params: bp,
            len_branch_params: len_params,
            len_results,
            height,
            fuel_instr,
            branched_to: false,
            reachability: IfReachability::OnlyThen,
            visited_else: false,
            end_of_then_reachable: None,
            else_providers: Vec::new(),
        };
        proof {
            let s = self@;
            assert(s.stack.take(height as int) =~= s2.stack);
            assert(frame@.else_providers =~= Seq::<Provider>::empty());
            assert(s.count(Seq::<Provider>::empty()) == 0);
            assert(s.len_locals == s2.len_locals);
            assert(s.dyn_hi() == s2.dyn_hi());
            assert(s2.count(s2.stack) == s2.num_dynamic);
            assert(bp.0 == s2.next_dyn());
            assert(frame@.branch_params.0 == s.len_locals + s.count(s.stack.take(frame@.height as int)));
            assert(frame@.branch_params.0 + frame@.len_branch_params <= s.len_locals + s.max_dynamic);
            assert(frame@.label.0 < s.labels.len());
            assert(s.fuel is Some ==> s.instrs[n6 as int] is ConsumeFuel);
            assert(s.frame_ok(frame@));
        }
        self.push_frame(frame);
        Ok(())
    }
}

} // verus!
