//! The translation of Wasm function bodies, operator by operator, into the
//! instructions of a register machine, with each step proved against its
//! specification, together with the linear memory types that the
//! translation consults.
pub mod memory;
pub mod value;
pub mod ops;
pub mod simplify;
pub mod ir;
pub mod module;
pub mod regs;
pub mod translator;
pub mod numeric;
pub mod visit_numeric;
pub mod frames;
pub mod control;
pub mod branch;
pub mod end;
pub mod variables;
pub mod memory_ops;
pub mod table_ops;
pub mod calls;
pub mod wide;
pub mod laws;
pub mod operand_laws;
pub mod fold_laws;
