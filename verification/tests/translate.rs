use wasmi::ir::{Callee, Instruction, Label, LoadOp, StoreOp, WideOp};
use wasmi::memory::{memory_type, IndexType};
use wasmi::module::{BlockType, FuncInfo, FuncType, GlobalInfo, GlobalInit, ModuleInfo, TableInfo};
use wasmi::numeric::FloatFold;
use wasmi::ops::{BinOp, FloatBinOp, IntBinOp, TrapCode};
use wasmi::translator::{FuelCosts, FuncTranslator, TranslationError};
use wasmi::value::{Provider, Reg, TypedVal, ValType};

fn module() -> ModuleInfo {
    ModuleInfo {
        types: vec![
            FuncType { params: vec![], results: vec![] },
            FuncType { params: vec![ValType::I32, ValType::I32], results: vec![ValType::I32] },
            FuncType { params: vec![], results: vec![ValType::I32] },
        ],
        funcs: vec![
            FuncInfo { type_index: 1, engine_func: Some(7) },
            FuncInfo { type_index: 1, engine_func: None },
        ],
        globals: vec![
            GlobalInfo {
                content: ValType::I32,
                mutable: false,
                init: GlobalInit::Const(TypedVal::from_i32_bits(42)),
            },
            GlobalInfo {
                content: ValType::I32,
                mutable: true,
                init: GlobalInit::Const(TypedVal::from_i32_bits(0)),
            },
            GlobalInfo { content: ValType::FuncRef, mutable: false, init: GlobalInit::FuncRef(1) },
            GlobalInfo { content: ValType::I64, mutable: true, init: GlobalInit::Imported },
        ],
        memories: vec![memory_type(1, 1), memory_type(0, None)],
        tables: vec![TableInfo { index_type: IndexType::I32, element: ValType::FuncRef }],
    }
}

fn translator(type_index: u32, len_locals: u32) -> FuncTranslator {
    match FuncTranslator::new(module(), type_index, len_locals, None) {
        Ok(t) => t,
        Err(e) => panic!("unexpected error: {:?}", e),
    }
}

fn costs(base: u64) -> FuelCosts {
    FuelCosts { base, instance: 2, load: 3, store: 4, call: 5 }
}

fn i32c(v: i32) -> Provider {
    Provider::Const(TypedVal::from_i32_bits(v as u32))
}

fn reg(r: i16) -> Provider {
    Provider::Register(Reg(r))
}

#[test]
fn constants_are_folded() {
    let mut t = translator(0, 0);
    t.visit_i32_const(1).unwrap();
    t.visit_i32_const(2).unwrap();
    t.visit_i32_add().unwrap();
    assert_eq!(t.stack, vec![i32c(3)]);
    t.visit_i32_const(-1).unwrap();
    t.visit_i32_mul().unwrap();
    assert_eq!(t.stack, vec![i32c(-3)]);
    t.visit_i32_const(1).unwrap();
    t.visit_i32_shr_u().unwrap();
    assert_eq!(t.stack, vec![i32c(0x7fff_fffe)]);
    assert!(t.instrs.is_empty());
}

#[test]
fn constant_division_by_zero_traps() {
    let mut t = translator(0, 0);
    t.visit_i32_const(7).unwrap();
    t.visit_i32_const(0).unwrap();
    t.visit_i32_div_s().unwrap();
    assert_eq!(t.instrs, vec![Instruction::Trap { code: TrapCode::IntegerDivisionByZero }]);
    assert!(!t.reachable);
    assert!(t.stack.is_empty());
}

#[test]
fn constant_signed_division_overflow_traps() {
    let mut t = translator(0, 0);
    t.visit_i32_const(i32::MIN).unwrap();
    t.visit_i32_const(-1).unwrap();
    t.visit_i32_div_s().unwrap();
    assert_eq!(t.instrs, vec![Instruction::Trap { code: TrapCode::IntegerOverflow }]);
    let mut t = translator(0, 0);
    t.visit_i32_const(i32::MIN).unwrap();
    t.visit_i32_const(-1).unwrap();
    t.visit_i32_rem_s().unwrap();
    assert_eq!(t.stack, vec![i32c(0)]);
    assert!(t.instrs.is_empty());
}

#[test]
fn registers_get_a_binary_instruction() {
    let mut t = translator(1, 2);
    t.visit_local_get(0).unwrap();
    t.visit_local_get(1).unwrap();
    t.visit_i32_add().unwrap();
    assert_eq!(
        t.instrs,
        vec![Instruction::Binary { op: BinOp::I32(IntBinOp::Add), result: Reg(2), lhs: Reg(0), rhs: Reg(1) }]
    );
    assert_eq!(t.stack, vec![reg(2)]);
}

#[test]
fn adding_zero_is_the_operand() {
    let mut t = translator(1, 2);
    t.visit_local_get(0).unwrap();
    t.visit_i32_const(0).unwrap();
    t.visit_i32_add().unwrap();
    assert!(t.instrs.is_empty());
    assert_eq!(t.stack, vec![reg(0)]);
}

#[test]
fn subtracting_a_constant_adds_its_negation() {
    let mut t = translator(1, 2);
    t.visit_local_get(0).unwrap();
    t.visit_i32_const(5).unwrap();
    t.visit_i32_sub().unwrap();
    assert_eq!(
        t.instrs,
        vec![Instruction::BinaryImm16Rhs { op: BinOp::I32(IntBinOp::Add), result: Reg(2), lhs: Reg(0), rhs: -5 }]
    );
}

#[test]
fn subtracting_a_register_from_itself_is_zero() {
    let mut t = translator(1, 2);
    t.visit_local_get(0).unwrap();
    t.visit_local_get(0).unwrap();
    t.visit_i32_sub().unwrap();
    assert!(t.instrs.is_empty());
    assert_eq!(t.stack, vec![i32c(0)]);
}

#[test]
fn less_than_the_minimum_is_false() {
    let mut t = translator(1, 2);
    t.visit_local_get(0).unwrap();
    t.visit_i32_const(i32::MIN).unwrap();
    t.visit_i32_lt_s().unwrap();
    assert!(t.instrs.is_empty());
    assert_eq!(t.stack, vec![i32c(0)]);
}

#[test]
fn function_local_constants_are_shared() {
    let mut t = translator(0, 0);
    let big = TypedVal::from_i64_bits(1 << 40);
    let r1 = t.alloc_const(big).unwrap();
    let r2 = t.alloc_const(big).unwrap();
    assert_eq!(r1, Reg(-1));
    assert_eq!(r1, r2);
    assert_eq!(t.consts.len(), 1);
    let r3 = t.alloc_const(TypedVal::from_i64_bits(3)).unwrap();
    assert_eq!(r3, Reg(-2));
}

#[test]
fn too_many_function_local_constants() {
    let mut t = translator(0, 0);
    t.consts = (0..0x8000u64).map(TypedVal::from_i64_bits).collect();
    assert_eq!(t.alloc_const(TypedVal::from_i64_bits(1)), Ok(Reg(-2)));
    assert_eq!(
        t.alloc_const(TypedVal::from_i64_bits(0x8000)),
        Err(TranslationError::TooManyFunctionLocalConstants)
    );
}

#[test]
fn register_space_is_bounded() {
    assert!(matches!(
        FuncTranslator::new(module(), 0, 0x8000, None),
        Err(TranslationError::RegisterOutOfBounds)
    ));
    let mut t = translator(0, 0x7fff);
    t.visit_local_get(0).unwrap();
    t.visit_local_get(1).unwrap();
    t.visit_i32_add().unwrap();
    assert_eq!(t.stack, vec![reg(0x7fff)]);
    t.visit_local_get(0).unwrap();
    t.visit_local_get(1).unwrap();
    assert_eq!(t.visit_i32_add(), Err(TranslationError::RegisterOutOfBounds));
}

#[test]
fn fuel_is_charged_to_the_block() {
    let mut t = FuncTranslator::new(module(), 1, 2, Some(costs(1))).unwrap();
    assert_eq!(t.instrs, vec![Instruction::ConsumeFuel { amount: 1 }]);
    t.visit_local_get(0).unwrap();
    t.visit_local_get(1).unwrap();
    t.visit_i32_add().unwrap();
    t.visit_global_get(1).unwrap();
    assert_eq!(t.instrs[0], Instruction::ConsumeFuel { amount: 4 });
    assert_eq!(t.instrs.len(), 3);
}

#[test]
fn fuel_count_out_of_bounds() {
    let mut t = FuncTranslator::new(module(), 0, 0, Some(costs(u64::MAX))).unwrap();
    assert_eq!(t.visit_unreachable(), Err(TranslationError::FuelCountOutOfBounds));
}

#[test]
fn branch_out_of_then_is_charged_to_the_enclosing_frame() {
    let mut t = FuncTranslator::new(module(), 1, 2, Some(costs(1))).unwrap();
    t.visit_local_get(0).unwrap();
    t.visit_if(BlockType::Empty).unwrap();
    assert_eq!(t.instrs[0], Instruction::ConsumeFuel { amount: 2 });
    assert_eq!(t.instrs[2], Instruction::ConsumeFuel { amount: 1 });
    t.visit_else().unwrap();
    assert_eq!(t.instrs.len(), 5);
    assert_eq!(t.instrs[0], Instruction::ConsumeFuel { amount: 3 });
    assert_eq!(t.instrs[2], Instruction::ConsumeFuel { amount: 1 });
    assert!(matches!(t.instrs[3], Instruction::Branch { .. }));
    assert_eq!(t.instrs[4], Instruction::ConsumeFuel { amount: 1 });
}

#[test]
fn block_inherits_the_fuel_instruction() {
    let mut t = FuncTranslator::new(module(), 0, 0, Some(costs(1))).unwrap();
    t.visit_block(BlockType::Empty).unwrap();
    assert_eq!(t.frames.len(), 2);
    assert_eq!(t.frames[1].fuel_instr, Some(0));
    t.visit_loop(BlockType::Empty).unwrap();
    assert_eq!(t.frames[2].fuel_instr, Some(1));
    assert_eq!(t.instrs[1], Instruction::ConsumeFuel { amount: 1 });
}

#[test]
fn local_get_then_set_emits_nothing() {
    let mut t = translator(1, 2);
    t.visit_local_get(0).unwrap();
    t.visit_local_set(0).unwrap();
    assert!(t.instrs.is_empty());
    assert!(t.stack.is_empty());
}

#[test]
fn local_set_preserves_references_to_the_local() {
    let mut t = translator(1, 2);
    t.visit_local_get(0).unwrap();
    t.visit_i32_const(5).unwrap();
    t.visit_local_set(0).unwrap();
    assert_eq!(
        t.instrs,
        vec![
            Instruction::Copy { result: Reg(0x7fff), value: Reg(0) },
            Instruction::CopyImm { result: Reg(0), value: TypedVal::from_i32_bits(5) },
        ]
    );
    assert_eq!(t.stack, vec![reg(0x7fff)]);
}

#[test]
fn freed_preservation_registers_are_reused() {
    let mut t = translator(0, 4);
    t.visit_local_get(0).unwrap();
    t.visit_local_get(1).unwrap();
    t.visit_i32_const(1).unwrap();
    t.visit_local_set(1).unwrap();
    t.visit_i32_const(2).unwrap();
    t.visit_local_set(0).unwrap();
    assert_eq!(t.stack, vec![reg(0x7ffe), reg(0x7fff)]);
    // The copy of local 1 is consumed; its register is freed on the next
    // `local.set` and reused, while the copy of local 0 stays in use.
    t.visit_local_set(2).unwrap();
    t.visit_local_get(3).unwrap();
    t.visit_i32_const(3).unwrap();
    t.visit_local_set(3).unwrap();
    assert_eq!(t.stack, vec![reg(0x7ffe), reg(0x7fff)]);
    assert_eq!(t.num_preserved, 2);
    assert_eq!(
        t.instrs[4..].to_vec(),
        vec![
            Instruction::Copy { result: Reg(2), value: Reg(0x7fff) },
            Instruction::Copy { result: Reg(0x7fff), value: Reg(3) },
            Instruction::CopyImm { result: Reg(3), value: TypedVal::from_i32_bits(3) },
        ]
    );
}

#[test]
fn local_tee_keeps_the_local() {
    let mut t = translator(1, 2);
    t.visit_local_get(1).unwrap();
    t.visit_local_tee(0).unwrap();
    assert_eq!(t.instrs, vec![Instruction::Copy { result: Reg(0), value: Reg(1) }]);
    assert_eq!(t.stack, vec![reg(0)]);
}

#[test]
fn memory_grow_by_zero_is_memory_size() {
    let mut t = translator(0, 0);
    t.visit_i32_const(0).unwrap();
    t.visit_memory_grow(0).unwrap();
    assert_eq!(t.instrs, vec![Instruction::MemorySize { result: Reg(0), memory: 0 }]);
    assert_eq!(t.stack, vec![reg(0)]);
    let mut t = translator(1, 2);
    t.visit_local_get(0).unwrap();
    t.visit_memory_grow(0).unwrap();
    assert_eq!(
        t.instrs,
        vec![
            Instruction::MemoryGrow { result: Reg(2), delta: Reg(0) },
            Instruction::MemoryIndex { index: 0 },
        ]
    );
}

#[test]
fn table_grow_by_zero_is_table_size() {
    let mut t = translator(0, 0);
    t.visit_ref_null(ValType::FuncRef).unwrap();
    t.visit_i32_const(0).unwrap();
    t.visit_table_grow(0).unwrap();
    assert_eq!(t.instrs, vec![Instruction::TableSize { result: Reg(0), table: 0 }]);
}

#[test]
fn constant_pointers_are_resolved() {
    let mut t = translator(0, 0);
    t.visit_i32_const(100).unwrap();
    t.visit_i32_load(0, 4).unwrap();
    assert_eq!(t.instrs, vec![Instruction::LoadAt { op: LoadOp::Load32, result: Reg(0), address: 104 }]);
    let mut t = translator(0, 0);
    t.visit_i32_const(0x1_0000).unwrap();
    t.visit_i32_load(0, 0).unwrap();
    assert_eq!(t.instrs, vec![Instruction::LoadAt { op: LoadOp::Load32, result: Reg(0), address: 0x1_0000 }]);
    let mut t = translator(0, 0);
    t.visit_i32_const(0x1_0000).unwrap();
    t.visit_i32_load(0, 1).unwrap();
    assert_eq!(t.instrs, vec![Instruction::Trap { code: TrapCode::MemoryOutOfBounds }]);
    assert!(!t.reachable);
}

#[test]
fn register_pointers_use_offsets() {
    let mut t = translator(1, 2);
    t.visit_local_get(0).unwrap();
    t.visit_i64_load8_u(0, 8).unwrap();
    assert_eq!(
        t.instrs,
        vec![Instruction::LoadOffset16 { op: LoadOp::I64Load8U, result: Reg(2), ptr: Reg(0), offset: 8 }]
    );
    let mut t = translator(1, 2);
    t.visit_local_get(0).unwrap();
    t.visit_i32_load(1, 0x1_0000_0002).unwrap();
    assert_eq!(
        t.instrs,
        vec![
            Instruction::Load { op: LoadOp::Load32, result: Reg(2), offset_lo: 2 },
            Instruction::RegisterAndOffsetHi { reg: Reg(0), offset_hi: 1 },
            Instruction::MemoryIndex { index: 1 },
        ]
    );
}

#[test]
fn small_constants_are_stored_as_immediates() {
    let mut t = translator(1, 2);
    t.visit_local_get(0).unwrap();
    t.visit_i32_const(7).unwrap();
    t.visit_i32_store(0, 0).unwrap();
    t.visit_local_get(0).unwrap();
    t.visit_i32_const(100_000).unwrap();
    t.visit_i32_store(0, 0).unwrap();
    t.visit_local_get(0).unwrap();
    t.visit_i32_const(0x1ff).unwrap();
    t.visit_i32_store8(0, 2).unwrap();
    assert_eq!(
        t.instrs,
        vec![
            Instruction::StoreOffset16Imm16 { op: StoreOp::Store32, ptr: Reg(0), offset: 0, value: 7 },
            Instruction::StoreOffset16 { op: StoreOp::Store32, ptr: Reg(0), offset: 0, value: Reg(-1) },
            Instruction::StoreOffset16Imm16 { op: StoreOp::I32Store8, ptr: Reg(0), offset: 2, value: -1 },
        ]
    );
}

#[test]
fn memory_fill_with_constants() {
    let mut t = translator(1, 2);
    t.visit_local_get(0).unwrap();
    t.visit_i32_const(0x1ff).unwrap();
    t.visit_i32_const(4).unwrap();
    t.visit_memory_fill(0).unwrap();
    assert_eq!(
        t.instrs,
        vec![
            Instruction::MemoryFillImmExact { dst: Reg(0), value: 0xff, len: 4 },
            Instruction::MemoryIndex { index: 0 },
        ]
    );
}

#[test]
fn block_with_branch_and_function_end() {
    let mut t = translator(2, 0);
    t.visit_block(BlockType::Value(ValType::I32)).unwrap();
    t.visit_i32_const(5).unwrap();
    t.visit_br(0).unwrap();
    assert!(!t.reachable);
    t.visit_end().unwrap();
    assert!(t.reachable);
    assert_eq!(t.stack, vec![reg(0)]);
    t.visit_end().unwrap();
    assert_eq!(
        t.instrs,
        vec![
            Instruction::CopyImm { result: Reg(0), value: TypedVal::from_i32_bits(5) },
            Instruction::Branch { target: Label(1) },
            Instruction::ReturnReg { value: Reg(0) },
        ]
    );
    assert_eq!(t.labels, vec![Some(2), Some(2)]);
    assert!(t.frames.is_empty());
    assert!(!t.reachable);
}

#[test]
fn if_else_copies_both_results() {
    let mut t = translator(1, 2);
    t.visit_local_get(0).unwrap();
    t.visit_if(BlockType::Value(ValType::I32)).unwrap();
    t.visit_i32_const(1).unwrap();
    t.visit_else().unwrap();
    t.visit_i32_const(2).unwrap();
    t.visit_end().unwrap();
    t.visit_return().unwrap();
    assert_eq!(
        t.instrs,
        vec![
            Instruction::BranchEqz { condition: Reg(0), target: Label(2) },
            Instruction::CopyImm { result: Reg(2), value: TypedVal::from_i32_bits(1) },
            Instruction::Branch { target: Label(1) },
            Instruction::CopyImm { result: Reg(2), value: TypedVal::from_i32_bits(2) },
            Instruction::ReturnReg { value: Reg(2) },
        ]
    );
    assert_eq!(t.labels, vec![None, Some(4), Some(3)]);
}

#[test]
fn constant_false_if_reaches_only_else() {
    let mut t = translator(0, 0);
    t.visit_i32_const(0).unwrap();
    t.visit_if(BlockType::Empty).unwrap();
    assert!(!t.reachable);
    t.visit_nop().unwrap();
    t.visit_else().unwrap();
    assert!(t.reachable);
    t.visit_end().unwrap();
    assert!(t.reachable);
    assert!(t.instrs.is_empty());
}

#[test]
fn constant_true_if_skips_else() {
    let mut t = translator(0, 0);
    t.visit_i32_const(1).unwrap();
    t.visit_if(BlockType::Empty).unwrap();
    assert!(t.reachable);
    t.visit_else().unwrap();
    assert!(!t.reachable);
    t.visit_end().unwrap();
    assert!(t.reachable);
}

#[test]
fn unreachable_code_is_skipped() {
    let mut t = translator(1, 2);
    t.visit_unreachable().unwrap();
    assert_eq!(t.instrs, vec![Instruction::Trap { code: TrapCode::UnreachableCodeReached }]);
    t.visit_local_get(0).unwrap();
    t.visit_local_set(1).unwrap();
    t.visit_i32_add().unwrap();
    t.visit_br(0).unwrap();
    t.visit_call(0).unwrap();
    assert_eq!(t.instrs.len(), 1);
    assert!(t.stack.is_empty());
    t.visit_block(BlockType::Empty).unwrap();
    assert!(t.frames[1].in_unreachable_code);
    t.visit_end().unwrap();
    assert_eq!(t.frames.len(), 1);
}

#[test]
fn br_if_copies_values_behind_a_skip() {
    let mut t = translator(1, 2);
    t.visit_block(BlockType::Value(ValType::I32)).unwrap();
    t.visit_i32_const(9).unwrap();
    t.visit_local_get(1).unwrap();
    t.visit_br_if(0).unwrap();
    assert_eq!(
        t.instrs,
        vec![
            Instruction::BranchEqz { condition: Reg(1), target: Label(2) },
            Instruction::CopyImm { result: Reg(2), value: TypedVal::from_i32_bits(9) },
            Instruction::Branch { target: Label(1) },
        ]
    );
    assert_eq!(t.labels[2], Some(3));
    assert_eq!(t.stack, vec![i32c(9)]);
    assert!(t.frames[1].branched_to);
}

#[test]
fn br_if_with_constant_condition() {
    let mut t = translator(0, 0);
    t.visit_block(BlockType::Empty).unwrap();
    t.visit_i32_const(0).unwrap();
    t.visit_br_if(0).unwrap();
    assert!(t.instrs.is_empty());
    assert!(t.reachable);
    t.visit_i32_const(1).unwrap();
    t.visit_br_if(0).unwrap();
    assert_eq!(t.instrs, vec![Instruction::Branch { target: Label(1) }]);
    assert!(!t.reachable);
}

#[test]
fn br_table_entries() {
    let mut t = translator(0, 1);
    t.visit_block(BlockType::Empty).unwrap();
    t.visit_local_get(0).unwrap();
    t.visit_br_table(&vec![0, 1], 0).unwrap();
    assert_eq!(
        t.instrs,
        vec![
            Instruction::BranchTable { index: Reg(0), len_targets: 3 },
            Instruction::BranchTableTarget { target: Label(1) },
            Instruction::BranchTableTarget { target: Label(0) },
            Instruction::BranchTableTarget { target: Label(1) },
        ]
    );
    assert!(!t.reachable);
    assert!(t.frames[0].branched_to);
    assert!(t.frames[1].branched_to);
}

#[test]
fn br_table_with_constant_index_branches_directly() {
    let mut t = translator(0, 0);
    t.visit_block(BlockType::Empty).unwrap();
    t.visit_i32_const(5).unwrap();
    t.visit_br_table(&vec![1], 0).unwrap();
    assert_eq!(t.instrs, vec![Instruction::Branch { target: Label(1) }]);
}

#[test]
fn select_with_constant_condition() {
    let mut t = translator(1, 2);
    t.visit_local_get(0).unwrap();
    t.visit_local_get(1).unwrap();
    t.visit_i32_const(0).unwrap();
    t.visit_select().unwrap();
    assert!(t.instrs.is_empty());
    assert_eq!(t.stack, vec![reg(1)]);
    t.visit_drop().unwrap();
    t.visit_local_get(0).unwrap();
    t.visit_local_get(1).unwrap();
    t.visit_local_get(0).unwrap();
    t.visit_typed_select(ValType::I32).unwrap();
    assert_eq!(
        t.instrs,
        vec![Instruction::Select { result: Reg(2), condition: Reg(0), lhs: Reg(0), rhs: Reg(1) }]
    );
}

#[test]
fn globals() {
    let mut t = translator(0, 0);
    t.visit_global_get(0).unwrap();
    assert_eq!(t.stack, vec![i32c(42)]);
    t.visit_global_get(1).unwrap();
    t.visit_global_get(2).unwrap();
    assert_eq!(
        t.instrs,
        vec![
            Instruction::GlobalGet { result: Reg(0), global: 1 },
            Instruction::RefFunc { result: Reg(1), func: 1 },
        ]
    );
    let mut t = translator(0, 0);
    t.visit_i32_const(7).unwrap();
    t.visit_global_set(1).unwrap();
    t.visit_i64_const(1 << 40).unwrap();
    t.visit_global_set(3).unwrap();
    assert_eq!(
        t.instrs,
        vec![
            Instruction::GlobalSetI32Imm16 { input: 7, global: 1 },
            Instruction::GlobalSet { input: Reg(-1), global: 3 },
        ]
    );
}

#[test]
fn calls_pass_a_register_list() {
    let mut t = translator(1, 2);
    t.visit_local_get(0).unwrap();
    t.visit_local_get(1).unwrap();
    t.visit_call(0).unwrap();
    assert_eq!(
        t.instrs,
        vec![
            Instruction::Call { results: Reg(2), callee: Callee::Internal(7), has_params: true },
            Instruction::Register { reg: Reg(0) },
            Instruction::Register { reg: Reg(1) },
        ]
    );
    assert_eq!(t.stack, vec![reg(2)]);
    let mut t = translator(1, 2);
    t.visit_local_get(0).unwrap();
    t.visit_local_get(1).unwrap();
    t.visit_i32_const(3).unwrap();
    t.visit_call_indirect(1, 0).unwrap();
    assert_eq!(
        t.instrs,
        vec![
            Instruction::Call { results: Reg(2), callee: Callee::Indirect(1), has_params: true },
            Instruction::CallIndirectParamsImm16 { index: 3, table: 0 },
            Instruction::Register { reg: Reg(0) },
            Instruction::Register { reg: Reg(1) },
        ]
    );
    let mut t = translator(1, 2);
    t.visit_local_get(0).unwrap();
    t.visit_i32_const(1 << 20).unwrap();
    t.visit_return_call(1).unwrap();
    assert_eq!(
        t.instrs,
        vec![
            Instruction::ReturnCall { callee: Callee::Imported(1), has_params: true },
            Instruction::Register { reg: Reg(0) },
            Instruction::Register { reg: Reg(-1) },
        ]
    );
    assert!(!t.reachable);
}

#[test]
fn float_folds_are_completed_by_the_caller() {
    let mut t = translator(0, 0);
    t.visit_f32_const(1.0f32.to_bits()).unwrap();
    t.visit_f32_const(2.0f32.to_bits()).unwrap();
    let fold = t.visit_f32_add().unwrap();
    let lhs = TypedVal { ty: ValType::F32, bits: 1.0f32.to_bits() as u64 };
    let rhs = TypedVal { ty: ValType::F32, bits: 2.0f32.to_bits() as u64 };
    assert_eq!(fold, Some(FloatFold::Binary { op: BinOp::F32(FloatBinOp::Add), lhs, rhs }));
    assert!(t.stack.is_empty());
    let sum = TypedVal { ty: ValType::F32, bits: 3.0f32.to_bits() as u64 };
    t.complete_fold(Ok(sum)).unwrap();
    assert_eq!(t.stack, vec![Provider::Const(sum)]);
    t.visit_f32_const(4.0f32.to_bits()).unwrap();
    t.visit_f32_lt().unwrap();
    assert_eq!(t.stack, vec![i32c(1)]);
}

#[test]
fn add128_then_sub128_is_identity() {
    let mut t = translator(0, 0);
    t.visit_i64_const(-1).unwrap();
    t.visit_i64_const(0).unwrap();
    t.visit_i64_const(1).unwrap();
    t.visit_i64_const(0).unwrap();
    t.visit_i64_add128().unwrap();
    assert_eq!(
        t.stack,
        vec![Provider::Const(TypedVal::from_i64_bits(0)), Provider::Const(TypedVal::from_i64_bits(1))]
    );
    t.visit_i64_const(1).unwrap();
    t.visit_i64_const(0).unwrap();
    t.visit_i64_sub128().unwrap();
    assert_eq!(
        t.stack,
        vec![Provider::Const(TypedVal::from_i64_bits(u64::MAX)), Provider::Const(TypedVal::from_i64_bits(0))]
    );
    assert!(t.instrs.is_empty());
}

#[test]
fn wide_multiplication() {
    let mut t = translator(0, 0);
    t.visit_i64_const(-2).unwrap();
    t.visit_i64_const(3).unwrap();
    t.visit_i64_mul_wide_s().unwrap();
    assert_eq!(
        t.stack,
        vec![
            Provider::Const(TypedVal::from_i64_bits((-6i64) as u64)),
            Provider::Const(TypedVal::from_i64_bits(u64::MAX)),
        ]
    );
    let mut t = translator(1, 2);
    t.visit_local_get(0).unwrap();
    t.visit_i64_const(1).unwrap();
    t.visit_i64_mul_wide_u().unwrap();
    assert_eq!(t.stack, vec![reg(0), Provider::Const(TypedVal::from_i64_bits(0))]);
    t.visit_drop().unwrap();
    t.visit_drop().unwrap();
    t.visit_local_get(0).unwrap();
    t.visit_local_get(1).unwrap();
    t.visit_i64_const(0).unwrap();
    t.visit_i64_const(0).unwrap();
    t.visit_i64_add128().unwrap();
    assert_eq!(
        t.instrs,
        vec![Instruction::Wide128 {
            op: WideOp::Add128,
            results: Reg(2),
            lhs_lo: Reg(0),
            lhs_hi: Reg(1),
            rhs_lo: Reg(-1),
            rhs_hi: Reg(-1),
        }]
    );
}

#[test]
fn ref_is_null_on_constants() {
    let mut t = translator(0, 0);
    t.visit_ref_null(ValType::ExternRef).unwrap();
    t.visit_ref_is_null().unwrap();
    assert_eq!(t.stack, vec![i32c(1)]);
}

#[test]
fn eqz_compares_with_zero() {
    let mut t = translator(1, 2);
    t.visit_local_get(0).unwrap();
    t.visit_i32_eqz().unwrap();
    assert_eq!(t.instrs.len(), 1);
    let mut t = translator(0, 0);
    t.visit_i32_const(0).unwrap();
    t.visit_i32_eqz().unwrap();
    assert_eq!(t.stack, vec![i32c(1)]);
}

#[test]
fn entering_a_block_preserves_locals() {
    let mut t = translator(1, 2);
    t.visit_local_get(0).unwrap();
    t.visit_local_get(1).unwrap();
    t.visit_block(BlockType::Empty).unwrap();
    assert_eq!(
        t.instrs,
        vec![
            Instruction::Copy { result: Reg(0x7fff), value: Reg(0) },
            Instruction::Copy { result: Reg(0x7ffe), value: Reg(1) },
        ]
    );
    assert_eq!(t.stack, vec![reg(0x7fff), reg(0x7ffe)]);
    t.visit_i32_const(3).unwrap();
    t.visit_local_set(0).unwrap();
    assert_eq!(t.instrs[2], Instruction::CopyImm { result: Reg(0), value: TypedVal::from_i32_bits(3) });
    assert_eq!(t.stack, vec![reg(0x7fff), reg(0x7ffe)]);
}

#[test]
fn loop_moves_its_parameters_into_new_registers() {
    let mut module = module();
    module.types.push(FuncType { params: vec![ValType::I32], results: vec![] });
    let mut t = FuncTranslator::new(module, 0, 1, None).unwrap();
    t.visit_i32_const(4).unwrap();
    t.visit_loop(BlockType::FuncType(3)).unwrap();
    assert_eq!(t.instrs, vec![Instruction::CopyImm { result: Reg(1), value: TypedVal::from_i32_bits(4) }]);
    assert_eq!(t.stack, vec![reg(1)]);
    assert_eq!(t.labels[1], Some(1));
    t.visit_br(0).unwrap();
    assert_eq!(t.instrs[1], Instruction::Branch { target: Label(1) });
}

#[test]
fn several_branch_values_are_copied_at_once() {
    let mut module = module();
    module.types.push(FuncType { params: vec![], results: vec![ValType::I32, ValType::I32] });
    let mut t = FuncTranslator::new(module, 1, 2, None).unwrap();
    t.visit_block(BlockType::FuncType(3)).unwrap();
    t.visit_i32_const(1).unwrap();
    t.visit_local_get(0).unwrap();
    t.visit_local_get(1).unwrap();
    t.visit_i32_add().unwrap();
    assert_eq!(t.stack, vec![i32c(1), reg(2)]);
    t.visit_br(0).unwrap();
    assert_eq!(
        t.instrs[1..],
        [
            Instruction::CopyMany { results: Reg(2), len: 2 },
            Instruction::Register { reg: Reg(-1) },
            Instruction::Register { reg: Reg(2) },
            Instruction::Branch { target: Label(1) },
        ]
    );
}

#[test]
fn greater_than_is_less_than_with_swapped_operands() {
    let mut gt = translator(1, 2);
    gt.visit_local_get(0).unwrap();
    gt.visit_i32_const(5).unwrap();
    gt.visit_i32_gt_s().unwrap();
    let mut lt = translator(1, 2);
    lt.visit_i32_const(5).unwrap();
    lt.visit_local_get(0).unwrap();
    lt.visit_i32_lt_s().unwrap();
    assert_eq!(gt.instrs, lt.instrs);
    assert_eq!(gt.stack, lt.stack);
    assert_eq!(
        gt.instrs,
        vec![Instruction::BinaryImm16Lhs { op: BinOp::I32(IntBinOp::LtS), result: Reg(2), lhs: 5, rhs: Reg(0) }]
    );
    let mut gt = translator(1, 2);
    gt.visit_local_get(0).unwrap();
    gt.visit_f32_const(f32::NAN.to_bits()).unwrap();
    gt.visit_f32_gt().unwrap();
    assert_eq!(gt.stack, vec![i32c(0)]);
    let mut gt = translator(1, 2);
    gt.visit_local_get(0).unwrap();
    gt.visit_local_get(1).unwrap();
    gt.visit_f64_ge().unwrap();
    assert_eq!(
        gt.instrs,
        vec![Instruction::Binary { op: BinOp::F64(FloatBinOp::Le), result: Reg(2), lhs: Reg(1), rhs: Reg(0) }]
    );
}
