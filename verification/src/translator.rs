//! The state of the translation of one function body, its invariant, and
//! the primitive steps that the operator translations are built from.
use vstd::prelude::*;
use crate::ir::{Instruction, Label};
use crate::module::{BlockType, ModuleInfo};
use crate::ops::TrapCode;
use crate::regs::{count_dyn, dyn_ok, is_dyn, reg_index, reg_ok, regs_nonneg, lemma_count_dyn_push,
    lemma_dyn_ok_push, lemma_dyn_ok_pop};
use crate::value::{Provider, Reg, TypedVal};

verus! {

/// Why the translation of a function body failed.
#[derive(Clone, Copy, Debug, PartialEq, Eq, Structural)]
pub enum TranslationError {
    /// The function needs more registers than the register space holds.
    RegisterOutOfBounds,
    /// The function uses more distinct constants than can be referenced.
    TooManyFunctionLocalConstants,
    /// The fuel consumed by a basic block does not fit into 64 bits.
    FuelCountOutOfBounds,
}

/// A failed translation step: the error, and the translation state at the
/// point where the step failed (what was done before that point stays done).
pub struct Failure {
    pub state: TState,
    pub error: TranslationError,
}

/// The fuel that each kind of instruction consumes.
#[derive(Clone, Copy, Debug, PartialEq, Eq, Structural)]
pub struct FuelCosts {
    pub base: u64,
    pub instance: u64,
    pub load: u64,
    pub store: u64,
    pub call: u64,
}

/// The kinds of instructions that fuel metering distinguishes.
#[derive(Clone, Copy, Debug, PartialEq, Eq, Structural)]
pub enum FuelKind {
    Base,
    Instance,
    Load,
    Store,
    Call,
}

impl FuelCosts {
    pub open spec fn spec_cost(self, kind: FuelKind) -> u64 {
        match kind {
            FuelKind::Base => self.base,
            FuelKind::Instance => self.instance,
            FuelKind::Load => self.load,
            FuelKind::Store => self.store,
            FuelKind::Call => self.call,
        }
    }

    /// The fuel that an instruction of the given kind consumes.
    pub fn cost(&self, kind: FuelKind) -> (r: u64)
        ensures
            r == self.spec_cost(kind),
    {
        match kind {
            FuelKind::Base => self.base,
            FuelKind::Instance => self.instance,
            FuelKind::Load => self.load,
            FuelKind::Store => self.store,
            FuelKind::Call => self.call,
        }
    }
}

/// The kinds of control frames.
#[derive(Clone, Copy, Debug, PartialEq, Eq, Structural)]
pub enum FrameKind {
    Block,
    Loop,
    If,
}

/// Which branches of an `if` can be reached.
#[derive(Clone, Copy, Debug, PartialEq, Eq, Structural)]
pub enum IfReachability {
    /// The condition is not known: both branches can be reached, and the
    /// `else` branch starts at the given label.
    Both(Label),
    /// The condition is a constant other than zero.
    OnlyThen,
    /// The condition is the constant zero.
    OnlyElse,
}

/// A control frame: an open `block`, `loop` or `if`, or the function body.
#[derive(Clone, Debug)]
pub struct ControlFrame {
    pub kind: FrameKind,
    /// The frame was opened in unreachable code; then only its kind matters.
    pub in_unreachable_code: bool,
    pub block_type: BlockType,
    /// The end label of a `block` or `if`, the header label of a `loop`.
    pub label: Label,
    /// The first of the registers that branches to this frame fill.
    pub branch_params: Reg,
    /// How many values a branch to this frame carries: the results of a
    /// `block` or `if`, the parameters of a `loop`.
    pub len_branch_params: usize,
    /// The number of results of the frame.
    pub len_results: usize,
    /// The height of the value stack below the frame's parameters.
    pub height: usize,
    /// The fuel instruction that the frame's instructions are charged to.
    pub fuel_instr: Option<usize>,
    /// Whether a branch targets this frame.
    pub branched_to: bool,
    pub reachability: IfReachability,
    pub visited_else: bool,
    /// For an `if` whose `else` was visited: whether the end of its `then`
    /// branch was reachable.
    pub end_of_then_reachable: Option<bool>,
    /// The parameters of an `if` with both branches reachable, restored at
    /// the start of its `else` branch.
    pub else_providers: Vec<Provider>,
}

/// The mathematical content of a control frame.
pub struct FrameView {
    pub kind: FrameKind,
    pub in_unreachable_code: bool,
    pub block_type: BlockType,
    pub label: Label,
    pub branch_params: Reg,
    pub len_branch_params: nat,
    pub len_results: nat,
    pub height: nat,
    pub fuel_instr: Option<usize>,
    pub branched_to: bool,
    pub reachability: IfReachability,
    pub visited_else: bool,
    pub end_of_then_reachable: Option<bool>,
    pub else_providers: Seq<Provider>,
}

impl View for ControlFrame {
    type V = FrameView;

    open spec fn view(&self) -> FrameView {
        FrameView {
            kind: self.kind,
            in_unreachable_code: self.in_unreachable_code,
            block_type: self.block_type,
            label: self.label,
            branch_params: self.branch_params,
            len_branch_params: self.len_branch_params as nat,
            len_results: self.len_results as nat,
            height: self.height as nat,
            fuel_instr: self.fuel_instr,
            branched_to: self.branched_to,
            reachability: self.reachability,
            visited_else: self.visited_else,
            end_of_then_reachable: self.end_of_then_reachable,
            else_providers: self.else_providers@,
        }
    }
}

/// The mathematical content of the translator's state.
pub struct TState {
    /// The number of locals (parameters included); registers
    /// `0 .. len_locals` hold them.
    pub len_locals: int,
    /// The fuel costs when fuel metering is enabled.
    pub fuel: Option<FuelCosts>,
    /// Whether the code being translated can be reached.
    pub reachable: bool,
    /// The value stack.
    pub stack: Seq<Provider>,
    /// The number of dynamic registers on the value stack.
    pub num_dynamic: nat,
    /// The number of dynamic registers that the function uses at most.
    pub max_dynamic: nat,
    /// The number of registers, counted down from the highest, that
    /// preserve overwritten locals.
    pub num_preserved: nat,
    /// For each of these preservation registers, in the same order, whether
    /// it has been freed for reuse.
    pub free_preserved: Seq<bool>,
    /// The function-local constants; register `-1 - i` refers to the
    /// `i`-th of them.
    pub consts: Seq<TypedVal>,
    pub frames: Seq<FrameView>,
    pub instrs: Seq<Instruction>,
    /// For each label, the index of the instruction it is pinned to.
    pub labels: Seq<Option<usize>>,
}

/// The number of registers: register indices range over `0 .. 2^15`.
pub open spec fn reg_space() -> int {
    0x8000
}

impl TState {
    /// Dynamic registers are below this bound; the preservation registers
    /// are at or above it.
    pub open spec fn dyn_hi(self) -> int {
        reg_space() - self.num_preserved
    }

    /// The register that the next dynamic value is placed in.
    pub open spec fn next_dyn(self) -> int {
        self.len_locals + self.num_dynamic
    }

    /// A provider is a dynamic register of this state.
    pub open spec fn is_dyn(self, p: Provider) -> bool {
        is_dyn(p, self.len_locals, self.dyn_hi())
    }

    /// The number of dynamic registers in a sequence of providers.
    pub open spec fn count(self, s: Seq<Provider>) -> nat {
        count_dyn(s, self.len_locals, self.dyn_hi())
    }

    /// The innermost frame opened in reachable code, if the innermost frame
    /// is such a frame.
    pub open spec fn top_frame_reachable(self) -> bool {
        self.frames.len() > 0 && !self.frames.last().in_unreachable_code
    }

    /// The invariant of one frame opened in reachable code.
    pub open spec fn frame_ok(self, f: FrameView) -> bool {
        &&& f.height <= self.stack.len()
        &&& f.branch_params.0 == self.len_locals + self.count(self.stack.take(f.height as int))
        &&& f.branch_params.0 + f.len_branch_params <= self.len_locals + self.max_dynamic
        &&& f.label.0 < self.labels.len()
        &&& (f.reachability matches IfReachability::Both(l) ==> l.0 < self.labels.len())
        &&& (self.fuel is Some ==> (f.fuel_instr matches Some(idx) && idx < self.instrs.len()
            && self.instrs[idx as int] is ConsumeFuel))
        &&& regs_nonneg(f.else_providers)
        &&& dyn_ok(f.else_providers, f.branch_params.0 as int, self.len_locals, self.dyn_hi())
        &&& f.branch_params.0 + self.count(f.else_providers) <= self.len_locals
            + self.max_dynamic
    }

    /// The invariant of the translator's state.
    pub open spec fn wf(self) -> bool {
        &&& 0 <= self.len_locals
        &&& self.len_locals + self.max_dynamic + self.num_preserved <= reg_space()
        &&& self.free_preserved.len() == self.num_preserved
        &&& self.num_dynamic <= self.max_dynamic
        &&& regs_nonneg(self.stack)
        &&& dyn_ok(self.stack, self.len_locals, self.len_locals, self.dyn_hi())
        &&& self.count(self.stack) == self.num_dynamic
        &&& self.consts.len() <= reg_space()
        &&& (forall|i: int|
            0 <= i < self.frames.len() && !(#[trigger] self.frames[i]).in_unreachable_code
                ==> self.frame_ok(self.frames[i]))
        &&& (forall|i: int, j: int|
            0 <= i < j < self.frames.len() && !(#[trigger] self.frames[j]).in_unreachable_code
                ==> !(#[trigger] self.frames[i]).in_unreachable_code && self.frames[i].height
                <= self.frames[j].height)
        &&& (self.reachable ==> self.top_frame_reachable())
        &&& (self.frames.len() > 0 ==> self.frames[0].kind == FrameKind::Block)
    }

    /// At least `n` values stand on the value stack above every frame.
    pub open spec fn can_pop(self, n: nat) -> bool {
        forall|i: int|
            0 <= i < self.frames.len() && !(#[trigger] self.frames[i]).in_unreachable_code
                ==> self.frames[i].height + n <= self.stack.len()
    }

    /// The fuel instruction that instructions are currently charged to.
    pub open spec fn fuel_instr(self) -> Option<usize> {
        if self.fuel is Some && self.top_frame_reachable() {
            self.frames.last().fuel_instr
        } else {
            None
        }
    }

    /// Charges `cost` fuel to the current fuel instruction, if fuel is
    /// metered; fails if the charge of the block does not fit in 64 bits.
    pub open spec fn bump_fuel(self, cost: u64) -> Result<TState, Failure> {
        match self.fuel_instr() {
            Some(idx) => match self.instrs[idx as int] {
                Instruction::ConsumeFuel { amount } => if amount + cost <= u64::MAX {
                    Ok(
                        TState {
                            instrs: self.instrs.update(
                                idx as int,
                                Instruction::ConsumeFuel { amount: (amount + cost) as u64 },
                            ),
                            ..self
                        },
                    )
                } else {
                    Err(Failure { state: self, error: TranslationError::FuelCountOutOfBounds })
                },
                _ => Ok(self),
            },
            None => Ok(self),
        }
    }

    /// The fuel that an instruction of the given kind consumes (zero when
    /// fuel is not metered).
    pub open spec fn cost(self, kind: FuelKind) -> u64 {
        match self.fuel {
            Some(c) => c.spec_cost(kind),
            None => 0,
        }
    }

    /// Appends an instruction.
    pub open spec fn push_instr(self, instr: Instruction) -> TState {
        TState { instrs: self.instrs.push(instr), ..self }
    }

    /// Charges the fuel of an instruction of the given kind and appends it.
    pub open spec fn push_fueled(self, instr: Instruction, kind: FuelKind) -> Result<TState, Failure> {
        match self.bump_fuel(self.cost(kind)) {
            Ok(s) => Ok(s.push_instr(instr)),
            Err(e) => Err(e),
        }
    }

    /// Pushes a provider onto the value stack.
    pub open spec fn push(self, p: Provider) -> TState {
        TState {
            stack: self.stack.push(p),
            num_dynamic: self.num_dynamic + if self.is_dyn(p) {
                1nat
            } else {
                0nat
            },
            ..self
        }
    }

    /// Pops the top provider off the value stack.
    pub open spec fn pop(self) -> TState {
        TState {
            stack: self.stack.drop_last(),
            num_dynamic: (self.num_dynamic - if self.is_dyn(self.stack.last()) {
                1nat
            } else {
                0nat
            }) as nat,
            ..self
        }
    }

    /// Places a new value in the next dynamic register and pushes that
    /// register; fails if the register space is exhausted.
    pub open spec fn push_dynamic(self) -> Result<TState, Failure> {
        if self.next_dyn() < self.dyn_hi() {
            Ok(
                TState {
                    stack: self.stack.push(Provider::Register(Reg(self.next_dyn() as i16))),
                    num_dynamic: self.num_dynamic + 1,
                    max_dynamic: if self.num_dynamic + 1 > self.max_dynamic {
                        self.num_dynamic + 1
                    } else {
                        self.max_dynamic
                    },
                    ..self
                },
            )
        } else {
            Err(Failure { state: self, error: TranslationError::RegisterOutOfBounds })
        }
    }

    /// The register of the `i`-th function-local constant.
    pub open spec fn const_reg(i: int) -> Reg {
        Reg((-1 - i) as i16)
    }

    /// Makes `v` a function-local constant: the register of its first
    /// occurrence, or of a new constant; fails if there is no register left
    /// for a new constant.
    pub open spec fn alloc_const(self, v: TypedVal) -> Result<(TState, Reg), Failure> {
        if self.consts.contains(v) {
            Ok((self, TState::const_reg(self.consts.index_of_first(v)->0)))
        } else if self.consts.len() < reg_space() {
            Ok((TState { consts: self.consts.push(v), ..self }, TState::const_reg(self.consts.len() as int)))
        } else {
            Err(Failure { state: self, error: TranslationError::TooManyFunctionLocalConstants })
        }
    }
}

impl TState {
    /// Creates a new unpinned label.
    pub open spec fn new_label(self) -> (TState, Label) {
        (TState { labels: self.labels.push(None), ..self }, Label(self.labels.len() as usize))
    }

    /// Pins a label to the position of the next instruction.
    pub open spec fn pin_label(self, l: Label) -> TState {
        TState { labels: self.labels.update(l.0 as int, Some(self.instrs.len() as usize)), ..self }
    }

    /// Starts a new fuel instruction charging the base cost, if fuel is
    /// metered, and returns its index.
    pub open spec fn make_fuel_instr(self) -> (TState, Option<usize>) {
        match self.fuel {
            Some(c) => (
                self.push_instr(Instruction::ConsumeFuel { amount: c.base }),
                Some(self.instrs.len() as usize),
            ),
            None => (self, None),
        }
    }

    /// Sets whether the following code is reachable.
    pub open spec fn set_reachable(self, reachable: bool) -> TState {
        TState { reachable, ..self }
    }

    /// Translates a trap: in reachable code, appends the trap instruction
    /// and makes the following code unreachable.
    pub open spec fn trap(self, code: TrapCode) -> Result<TState, Failure> {
        if !self.reachable {
            Ok(self)
        } else {
            match self.push_fueled(Instruction::Trap { code }, FuelKind::Base) {
                Ok(s) => Ok(s.set_reachable(false)),
                Err(e) => Err(e),
            }
        }
    }
}

/// Translates a Wasm function body into register-machine instructions, one
/// operator at a time.
pub struct FuncTranslator {
    pub module: ModuleInfo,
    pub len_locals: u16,
    pub fuel: Option<FuelCosts>,
    pub reachable: bool,
    pub stack: Vec<Provider>,
    pub num_dynamic: u16,
    pub max_dynamic: u16,
    pub num_preserved: u16,
    pub free_preserved: Vec<bool>,
    pub consts: Vec<TypedVal>,
    pub frames: Vec<ControlFrame>,
    pub instrs: Vec<Instruction>,
    pub labels: Vec<Option<usize>>,
}

impl View for FuncTranslator {
    type V = TState;

    open spec fn view(&self) -> TState {
        TState {
            len_locals: self.len_locals as int,
            fuel: self.fuel,
            reachable: self.reachable,
            stack: self.stack@,
            num_dynamic: self.num_dynamic as nat,
            max_dynamic: self.max_dynamic as nat,
            num_preserved: self.num_preserved as nat,
            free_preserved: self.free_preserved@,
            consts: self.consts@,
            frames: self.frames@.map_values(|f: ControlFrame| f@),
            instrs: self.instrs@,
            labels: self.labels@,
        }
    }
}

impl FuncTranslator {
    /// The translator's invariant, together with the module's.
    pub open spec fn wf(&self) -> bool {
        self@.wf() && self.module.wf()
    }
}

/// Frames keep their invariant when the value stack below every frame
/// and every fuel instruction of a frame stay as they are.
pub proof fn lemma_frames_kept(s: TState, t: TState)
    requires
        s.wf(),
        t.len_locals == s.len_locals,
        t.num_preserved == s.num_preserved,
        t.fuel == s.fuel,
        t.frames == s.frames,
        t.max_dynamic >= s.max_dynamic,
        t.labels.len() >= s.labels.len(),
        forall|i: int|
            0 <= i < s.frames.len() && !(#[trigger] s.frames[i]).in_unreachable_code ==> {
                &&& s.frames[i].height <= t.stack.len()
                &&& t.stack.take(s.frames[i].height as int) == s.stack.take(
                    s.frames[i].height as int,
                )
                &&& (s.fuel is Some ==> (s.frames[i].fuel_instr matches Some(idx) && idx
                    < t.instrs.len() && t.instrs[idx as int] is ConsumeFuel))
            },
    ensures
        forall|i: int|
            0 <= i < t.frames.len() && !(#[trigger] t.frames[i]).in_unreachable_code
                ==> t.frame_ok(t.frames[i]),
        forall|i: int, j: int|
            0 <= i < j < t.frames.len() && !(#[trigger] t.frames[j]).in_unreachable_code
                ==> !(#[trigger] t.frames[i]).in_unreachable_code && t.frames[i].height
                <= t.frames[j].height,
{
    assert forall|i: int|
        0 <= i < t.frames.len() && !(#[trigger] t.frames[i]).in_unreachable_code implies t.frame_ok(
        t.frames[i],
    ) by {
        assert(s.frame_ok(s.frames[i]));
    }
}

/// Pushing a provider keeps the invariant, provided a dynamic register is
/// the next one and the register space covers it.
pub proof fn lemma_wf_push(s: TState, p: Provider)
    requires
        s.wf(),
        reg_ok(p),
        s.is_dyn(p) ==> reg_index(p) == s.next_dyn() && s.num_dynamic + 1 <= s.max_dynamic,
    ensures
        s.push(p).wf(),
        s.push(p).count(s.push(p).stack) == s.push(p).num_dynamic,
{
    let t = s.push(p);
    lemma_count_dyn_push(s.stack, p, s.len_locals, s.dyn_hi());
    lemma_dyn_ok_push(s.stack, p, s.len_locals, s.len_locals, s.dyn_hi());
    assert forall|i: int| 0 <= i < s.frames.len() && !(#[trigger] s.frames[i]).in_unreachable_code implies
        t.stack.take(s.frames[i].height as int) == s.stack.take(s.frames[i].height as int) by {
        assert(s.frame_ok(s.frames[i]));
        assert(t.stack.take(s.frames[i].height as int) =~= s.stack.take(s.frames[i].height as int));
    }
    assert(regs_nonneg(t.stack)) by {
        assert forall|i: int| 0 <= i < t.stack.len() implies reg_ok(#[trigger] t.stack[i]) by {
            if i < s.stack.len() {
                assert(t.stack[i] == s.stack[i]);
            }
        }
    }
    lemma_frames_kept(s, t);
}

/// Popping a provider above every frame keeps the invariant.
pub proof fn lemma_wf_pop(s: TState)
    requires
        s.wf(),
        s.can_pop(1),
        s.stack.len() > 0,
    ensures
        s.pop().wf(),
        s.is_dyn(s.stack.last()) ==> reg_index(s.stack.last()) == s.pop().next_dyn(),
        s.is_dyn(s.stack.last()) ==> s.pop().num_dynamic + 1 <= s.pop().max_dynamic,
{
    let t = s.pop();
    lemma_dyn_ok_pop(s.stack, s.len_locals, s.len_locals, s.dyn_hi());
    assert forall|i: int| 0 <= i < s.frames.len() && !(#[trigger] s.frames[i]).in_unreachable_code implies
        t.stack.take(s.frames[i].height as int) == s.stack.take(s.frames[i].height as int) by {
        assert(s.frames[i].height + 1 <= s.stack.len());
        assert(t.stack.take(s.frames[i].height as int) =~= s.stack.take(s.frames[i].height as int));
    }
    assert(regs_nonneg(t.stack)) by {
        assert forall|i: int| 0 <= i < t.stack.len() implies reg_ok(#[trigger] t.stack[i]) by {
            assert(t.stack[i] == s.stack[i]);
        }
    }
    lemma_frames_kept(s, t);
}

impl FuncTranslator {
    /// Pushes a constant onto the value stack.
    pub fn push_const(&mut self, v: TypedVal)
        requires
            old(self).wf(),
        ensures
            final(self).wf(),
            final(self)@ == old(self)@.push(Provider::Const(v)),
            final(self).module == old(self).module,
    {
        proof {
            lemma_wf_push(self@, Provider::Const(v));
        }
        self.stack.push(Provider::Const(v));
        proof {
            assert(self@.frames == old(self)@.frames);
        }
    }

    /// Whether a provider is one of the dynamic registers.
    pub fn provider_is_dyn(&self, p: Provider) -> (r: bool)
        requires
            old_wf_bounds(self@),
        ensures
            r == self@.is_dyn(p),
    {
        match p {
            Provider::Register(reg) => {
                let hi: i32 = 0x8000i32 - self.num_preserved as i32;
                self.len_locals as i32 <= reg.0 as i32 && (reg.0 as i32) < hi
            },
            Provider::Const(_) => false,
        }
    }

    /// Places a new value in the next dynamic register and pushes that
    /// register onto the value stack.
    pub fn push_dynamic(&mut self) -> (r: Result<Reg, TranslationError>)
        requires
            old(self).wf(),
        ensures
            final(self).wf(),
            final(self).module == old(self).module,
            match old(self)@.push_dynamic() {
                Ok(s) => r == Ok::<Reg, TranslationError>(Reg(old(self)@.next_dyn() as i16))
                    && final(self)@ == s,
                Err(f) => r == Err::<Reg, TranslationError>(f.error) && final(self)@ == f.state,
            },
    {
        let next: u32 = self.len_locals as u32 + self.num_dynamic as u32;
        let hi: u32 = 0x8000u32 - self.num_preserved as u32;
        if next >= hi {
            return Err(TranslationError::RegisterOutOfBounds);
        }
        let ghost s0 = self@;
        let new_max: u16 = if self.num_dynamic + 1 > self.max_dynamic {
            self.num_dynamic + 1
        } else {
            self.max_dynamic
        };
        proof {
            let s1 = TState { max_dynamic: new_max as nat, ..s0 };
            lemma_frames_kept(s0, s1);
            let p = Provider::Register(Reg(next as i16));
            lemma_wf_push(s1, p);
            assert(s1.push(p) == s0.push_dynamic()->Ok_0);
        }
        let reg = Reg(next as i16);
        self.stack.push(Provider::Register(reg));
        self.num_dynamic = self.num_dynamic + 1;
        self.max_dynamic = new_max;
        Ok(reg)
    }

    /// Pops the top provider off the value stack.
    pub fn pop(&mut self) -> (p: Provider)
        requires
            old(self).wf(),
            old(self)@.can_pop(1),
            old(self)@.stack.len() > 0,
        ensures
            final(self).wf(),
            final(self).module == old(self).module,
            p == old(self)@.stack.last(),
            final(self)@ == old(self)@.pop(),
    {
        proof {
            lemma_wf_pop(self@);
            lemma_dyn_ok_pop(self@.stack, self@.len_locals, self@.len_locals, self@.dyn_hi());
        }
        let p = self.stack.pop().unwrap();
        if self.provider_is_dyn(p) {
            self.num_dynamic = self.num_dynamic - 1;
        }
        p
    }

    /// Pushes a register onto the value stack; a dynamic register must be
    /// the next one.
    pub fn push_register(&mut self, reg: Reg)
        requires
            old(self).wf(),
            reg.0 >= 0,
            old(self)@.is_dyn(Provider::Register(reg)) ==> reg.0 == old(self)@.next_dyn()
                && old(self)@.num_dynamic + 1 <= old(self)@.max_dynamic,
        ensures
            final(self).wf(),
            final(self).module == old(self).module,
            final(self)@ == old(self)@.push(Provider::Register(reg)),
    {
        proof {
            lemma_wf_push(self@, Provider::Register(reg));
        }
        let p = Provider::Register(reg);
        let d = self.provider_is_dyn(p);
        self.stack.push(p);
        if d {
            self.num_dynamic = self.num_dynamic + 1;
        }
    }

    /// Makes `v` a function-local constant and returns its register.
    pub fn alloc_const(&mut self, v: TypedVal) -> (r: Result<Reg, TranslationError>)
        requires
            old(self).wf(),
        ensures
            final(self).wf(),
            final(self).module == old(self).module,
            match old(self)@.alloc_const(v) {
                Ok((s, reg)) => r == Ok::<Reg, TranslationError>(reg) && final(self)@ == s,
                Err(f) => r == Err::<Reg, TranslationError>(f.error) && final(self)@ == f.state,
            },
    {
        let mut i: usize = 0;
        while i < self.consts.len()
            invariant
                self.wf(),
                self@ == old(self)@,
                self.module == old(self).module,
                i <= self.consts@.len(),
                self.consts@.len() <= reg_space(),
                forall|j: int| 0 <= j < i ==> self.consts@[j] != v,
            decreases self.consts@.len() - i,
        {
            if self.consts[i] == v {
                proof {
                    self.consts@.index_of_first_ensures(v);
                    assert(self.consts@.contains(v));
                }
                return Ok(Reg((-1 - i as i32) as i16));
            }
            i = i + 1;
        }
        proof {
            self.consts@.index_of_first_ensures(v);
        }
        if self.consts.len() >= 0x8000 {
            return Err(TranslationError::TooManyFunctionLocalConstants);
        }
        let idx = self.consts.len();
        self.consts.push(v);
        proof {
            assert(self@.frames == old(self)@.frames);
        }
        Ok(Reg((-1 - idx as i32) as i16))
    }

    /// Creates a new unpinned label.
    pub fn new_label(&mut self) -> (l: Label)
        requires
            old(self).wf(),
        ensures
            final(self).wf(),
            final(self).module == old(self).module,
            (final(self)@, l) == old(self)@.new_label(),
    {
        proof {
            let t = self@.new_label().0;
            assert forall|i: int| 0 <= i < self@.frames.len() && !(#[trigger] self@.frames[i]).in_unreachable_code implies
                t.stack.take(self@.frames[i].height as int) == self@.stack.take(self@.frames[i].height as int) by {
                assert(self@.frame_ok(self@.frames[i]));
            }
            lemma_frames_kept(self@, t);
        }
        let l = Label(self.labels.len());
        self.labels.push(None);
        proof {
            assert(self@.frames == old(self)@.frames);
        }
        l
    }

    /// Pins a label to the position of the next instruction.
    pub fn pin_label(&mut self, l: Label)
        requires
            old(self).wf(),
            l.0 < old(self)@.labels.len(),
        ensures
            final(self).wf(),
            final(self).module == old(self).module,
            final(self)@ == old(self)@.pin_label(l),
    {
        proof {
            let t = self@.pin_label(l);
            assert forall|i: int| 0 <= i < self@.frames.len() && !(#[trigger] self@.frames[i]).in_unreachable_code implies
                t.stack.take(self@.frames[i].height as int) == self@.stack.take(self@.frames[i].height as int) by {
                assert(self@.frame_ok(self@.frames[i]));
            }
            lemma_frames_kept(self@, t);
        }
        let pos = self.instrs.len();
        self.labels.set(l.0, Some(pos));
        proof {
            assert(self@.frames == old(self)@.frames);
        }
    }

    /// The fuel instruction that instructions are currently charged to.
    pub fn fuel_instr(&self) -> (r: Option<usize>)
        requires
            self.wf(),
        ensures
            r == self@.fuel_instr(),
    {
        if self.fuel.is_none() || self.frames.len() == 0 {
            return None;
        }
        let top = &self.frames[self.frames.len() - 1];
        proof {
            assert(self@.frames.last() == top@);
        }
        if top.in_unreachable_code {
            None
        } else {
            top.fuel_instr
        }
    }

    /// Appends an instruction that is not charged fuel of its own.
    pub fn push_instr(&mut self, instr: Instruction)
        requires
            old(self).wf(),
        ensures
            final(self).wf(),
            final(self).module == old(self).module,
            final(self)@ == old(self)@.push_instr(instr),
    {
        proof {
            let t = self@.push_instr(instr);
            assert forall|i: int| 0 <= i < self@.frames.len() && !(#[trigger] self@.frames[i]).in_unreachable_code implies {
                &&& self@.frames[i].height <= t.stack.len()
                &&& t.stack.take(self@.frames[i].height as int) == self@.stack.take(self@.frames[i].height as int)
                &&& (self@.fuel is Some ==> (self@.frames[i].fuel_instr matches Some(idx) && idx
                    < t.instrs.len() && t.instrs[idx as int] is ConsumeFuel))
            } by {
                assert(self@.frame_ok(self@.frames[i]));
            }
            lemma_frames_kept(self@, t);
        }
        self.instrs.push(instr);
        proof {
            assert(self@.frames == old(self)@.frames);
        }
    }

    /// Charges `cost` to the current fuel instruction, if fuel is metered.
    pub fn bump_fuel(&mut self, cost: u64) -> (r: Result<(), TranslationError>)
        requires
            old(self).wf(),
        ensures
            final(self).wf(),
            final(self).module == old(self).module,
            match old(self)@.bump_fuel(cost) {
                Ok(s) => r == Ok::<(), TranslationError>(()) && final(self)@ == s,
                Err(f) => r == Err::<(), TranslationError>(f.error) && final(self)@ == f.state,
            },
    {
        let idx = match self.fuel_instr() {
            Some(idx) => idx,
            None => return Ok(()),
        };
        proof {
            let top = self@.frames.len() - 1;
            assert(self@.frame_ok(self@.frames[top]));
        }
        match self.instrs[idx] {
            Instruction::ConsumeFuel { amount } => {
                match amount.checked_add(cost) {
                    Some(total) => {
                        proof {
                            let t = self@.bump_fuel(cost)->Ok_0;
                            assert forall|i: int| 0 <= i < self@.frames.len() && !(#[trigger] self@.frames[i]).in_unreachable_code implies {
                                &&& self@.frames[i].height <= t.stack.len()
                                &&& t.stack.take(self@.frames[i].height as int) == self@.stack.take(self@.frames[i].height as int)
                                &&& (self@.fuel is Some ==> (self@.frames[i].fuel_instr matches Some(j) && j
                                    < t.instrs.len() && t.instrs[j as int] is ConsumeFuel))
                            } by {
                                assert(self@.frame_ok(self@.frames[i]));
                            }
                            lemma_frames_kept(self@, t);
                        }
                        self.instrs.set(idx, Instruction::ConsumeFuel { amount: total });
                        proof {
                            assert(self@.frames == old(self)@.frames);
                        }
                        Ok(())
                    },
                    None => Err(TranslationError::FuelCountOutOfBounds),
                }
            },
            _ => Ok(()),
        }
    }

    /// The fuel that an instruction of the given kind consumes.
    pub fn cost(&self, kind: FuelKind) -> (r: u64)
        ensures
            r == self@.cost(kind),
    {
        match &self.fuel {
            Some(c) => c.cost(kind),
            None => 0,
        }
    }

    /// Charges the fuel of an instruction of the given kind and appends it.
    pub fn push_fueled_instr(&mut self, instr: Instruction, kind: FuelKind) -> (r: Result<
        (),
        TranslationError,
    >)
        requires
            old(self).wf(),
        ensures
            final(self).wf(),
            final(self).module == old(self).module,
            match old(self)@.push_fueled(instr, kind) {
                Ok(s) => r == Ok::<(), TranslationError>(()) && final(self)@ == s,
                Err(f) => r == Err::<(), TranslationError>(f.error) && final(self)@ == f.state,
            },
    {
        let c = self.cost(kind);
        self.bump_fuel(c)?;
        self.push_instr(instr);
        Ok(())
    }

    /// Appends an instruction charged the base cost.
    pub fn push_base_instr(&mut self, instr: Instruction) -> (r: Result<(), TranslationError>)
        requires
            old(self).wf(),
        ensures
            final(self).wf(),
            final(self).module == old(self).module,
            match old(self)@.push_fueled(instr, FuelKind::Base) {
                Ok(s) => r == Ok::<(), TranslationError>(()) && final(self)@ == s,
                Err(f) => r == Err::<(), TranslationError>(f.error) && final(self)@ == f.state,
            },
    {
        self.push_fueled_instr(instr, FuelKind::Base)
    }

    /// Starts a new fuel instruction, if fuel is metered.
    pub fn make_fuel_instr(&mut self) -> (r: Option<usize>)
        requires
            old(self).wf(),
        ensures
            final(self).wf(),
            final(self).module == old(self).module,
            (final(self)@, r) == old(self)@.make_fuel_instr(),
    {
        match self.fuel {
            Some(c) => {
                let idx = self.instrs.len();
                self.push_instr(Instruction::ConsumeFuel { amount: c.base });
                Some(idx)
            },
            None => None,
        }
    }

    /// Translates a trap: in reachable code, appends the trap instruction and
    /// makes the following code unreachable.
    pub fn translate_trap(&mut self, code: TrapCode) -> (r: Result<(), TranslationError>)
        requires
            old(self).wf(),
        ensures
            final(self).wf(),
            final(self).module == old(self).module,
            match old(self)@.trap(code) {
                Ok(s) => r == Ok::<(), TranslationError>(()) && final(self)@ == s,
                Err(f) => r == Err::<(), TranslationError>(f.error) && final(self)@ == f.state,
            },
    {
        if !self.reachable {
            return Ok(());
        }
        self.push_base_instr(Instruction::Trap { code })?;
        self.reachable = false;
        Ok(())
    }

    /// Starts the translation of the body of a function with the given
    /// signature and number of locals (parameters included). The body is the
    /// outermost frame; branching to it returns from the function.
    pub fn new(module: ModuleInfo, type_index: u32, len_locals: u32, fuel: Option<FuelCosts>) -> (r:
        Result<FuncTranslator, TranslationError>)
        requires
            module.wf(),
            type_index < module.types@.len(),
        ensures
            match r {
                Ok(t) => {
                    &&& t.wf()
                    &&& t.module == module
                    &&& t@ == initial_state(
                        len_locals as int,
                        module.types@[type_index as int].results@.len(),
                        type_index,
                        fuel,
                    )
                },
                Err(e) => e == TranslationError::RegisterOutOfBounds && (len_locals >= reg_space()
                    || len_locals + module.types@[type_index as int].results@.len() > reg_space()),
            },
    {
        let len_results = module.types[type_index as usize].results.len();
        if len_locals >= 0x8000 || len_results > 0x8000 || len_locals as usize + len_results > 0x8000 {
            return Err(TranslationError::RegisterOutOfBounds);
        }
        let mut instrs: Vec<Instruction> = Vec::new();
        let fuel_instr = match fuel {
            Some(c) => {
                instrs.push(Instruction::ConsumeFuel { amount: c.base });
                Some(0usize)
            },
            None => None,
        };
        let mut labels: Vec<Option<usize>> = Vec::new();
        labels.push(None);
        let mut frames: Vec<ControlFrame> = Vec::new();
        frames.push(
            ControlFrame {
                kind: FrameKind::Block,
                in_unreachable_code: false,
                block_type: BlockType::FuncType(type_index),
                label: Label(0),
                branch_params: Reg(len_locals as i16),
                len_branch_params: len_results,
                len_results: len_results,
                height: 0,
                fuel_instr,
                branched_to: false,
                reachability: IfReachability::OnlyThen,
                visited_else: false,
                end_of_then_reachable: None,
                else_providers: Vec::new(),
            },
        );
        let t = FuncTranslator {
            module,
            len_locals: len_locals as u16,
            fuel,
            reachable: true,
            stack: Vec::new(),
            num_dynamic: 0,
            max_dynamic: len_results as u16,
            num_preserved: 0,
            free_preserved: Vec::new(),
            consts: Vec::new(),
            frames,
            instrs,
            labels,
        };
        proof {
            let s = t@;
            assert(s.stack =~= Seq::<Provider>::empty());
            assert(s.stack.take(0) =~= Seq::<Provider>::empty());
            assert(s.frames[0] == initial_state(len_locals as int, len_results as nat, type_index, fuel).frames[0]);
            assert(s.frames =~= initial_state(len_locals as int, len_results as nat, type_index, fuel).frames);
            assert(s.count(s.stack.take(0)) == 0);
            assert(s.frames[0].branch_params.0 == len_locals);
            assert(s.frame_ok(s.frames[0]));
        }
        Ok(t)
    }
}

/// The state in which the translation of a function body starts: the value
/// stack is empty and the body is the only frame; its branch parameters
/// are the registers right after the locals, and its fuel instruction is
/// the first instruction when fuel is metered.
pub open spec fn initial_state(len_locals: int, len_results: nat, type_index: u32, fuel: Option<FuelCosts>) -> TState {
    TState {
        len_locals,
        fuel,
        reachable: true,
        stack: Seq::empty(),
        num_dynamic: 0,
        max_dynamic: len_results,
        num_preserved: 0,
        free_preserved: Seq::empty(),
        consts: Seq::empty(),
        frames: seq![
            FrameView {
                kind: FrameKind::Block,
                in_unreachable_code: false,
                block_type: BlockType::FuncType(type_index),
                label: Label(0),
                branch_params: Reg(len_locals as i16),
                len_branch_params: len_results,
                len_results,
                height: 0,
                fuel_instr: if fuel is Some { Some(0) } else { None },
                branched_to: false,
                reachability: IfReachability::OnlyThen,
                visited_else: false,
                end_of_then_reachable: None,
                else_providers: Seq::empty(),
            },
        ],
        instrs: match fuel {
            Some(c) => seq![Instruction::ConsumeFuel { amount: c.base }],
            None => Seq::empty(),
        },
        labels: seq![None],
    }
}

/// A translation step ended as its specification says: with the specified
/// state when it succeeds, with the specified error and the state at the
/// point of failure when it fails.
pub open spec fn outcome(spec: Result<TState, Failure>, fin: TState, r: Result<(), TranslationError>) -> bool {
    match spec {
        Ok(s) => r == Ok::<(), TranslationError>(()) && fin == s,
        Err(f) => r == Err::<(), TranslationError>(f.error) && fin == f.state,
    }
}

/// A provider may be pushed onto the value stack of `s`: it is a constant,
/// a local, a preservation register, or the next dynamic register.
pub open spec fn pushable(s: TState, p: Provider) -> bool {
    &&& reg_ok(p)
    &&& (s.is_dyn(p) ==> reg_index(p) == s.next_dyn() && s.num_dynamic + 1 <= s.max_dynamic)
}

/// The bounds that make the dynamic-register test computable.
pub open spec fn old_wf_bounds(s: TState) -> bool {
    0 <= s.len_locals && s.num_preserved <= reg_space()
}

} // verus!
