//! What the translator knows of the module that the function belongs to.
use vstd::prelude::*;
use crate::memory::{IndexType, MemoryType, valid_memory_type};
use crate::value::{TypedVal, ValType};

verus! {

/// A function signature.
#[derive(Clone, Debug)]
pub struct FuncType {
    pub params: Vec<ValType>,
    pub results: Vec<ValType>,
}

/// A function of the module.
#[derive(Clone, Copy, Debug, PartialEq, Eq, Structural)]
pub struct FuncInfo {
    /// The index of its signature in the type section.
    pub type_index: u32,
    /// For functions defined in the module, their index among the engine's
    /// compiled functions; `None` for imported functions.
    pub engine_func: Option<u32>,
}

/// How a global variable is initialized.
#[derive(Clone, Copy, Debug, PartialEq, Eq, Structural)]
pub enum GlobalInit {
    /// The global is imported; its value is unknown at translation time.
    Imported,
    /// The global is initialized by a constant expression with this value.
    Const(TypedVal),
    /// The global is initialized by `ref.func` of this function.
    FuncRef(u32),
    /// The global is initialized by an expression whose value is only
    /// known at instantiation time.
    Dynamic,
}

/// A global variable of the module.
#[derive(Clone, Copy, Debug, PartialEq, Eq, Structural)]
pub struct GlobalInfo {
    pub content: ValType,
    pub mutable: bool,
    pub init: GlobalInit,
}

/// A table of the module.
#[derive(Clone, Copy, Debug, PartialEq, Eq, Structural)]
pub struct TableInfo {
    pub index_type: IndexType,
    pub element: ValType,
}

/// The parts of a module that the translation of a function body reads.
#[derive(Clone, Debug)]
pub struct ModuleInfo {
    pub types: Vec<FuncType>,
    pub funcs: Vec<FuncInfo>,
    pub globals: Vec<GlobalInfo>,
    pub memories: Vec<MemoryType>,
    pub tables: Vec<TableInfo>,
}

/// The type of a `block`, `loop` or `if`.
#[derive(Clone, Copy, Debug, PartialEq, Eq, Structural)]
pub enum BlockType {
    /// No parameters and no results.
    Empty,
    /// No parameters and one result.
    Value(ValType),
    /// The parameters and results of a signature of the type section.
    FuncType(u32),
}

impl ModuleInfo {
    /// Every function refers to a signature of the type section, and every
    /// memory type is valid.
    pub open spec fn wf(&self) -> bool {
        &&& forall|i: int|
            0 <= i < self.funcs@.len() ==> (#[trigger] self.funcs@[i]).type_index
                < self.types@.len()
        &&& forall|i: int|
            0 <= i < self.memories@.len() ==> valid_memory_type(#[trigger] self.memories@[i])
    }

    /// A block type refers to a signature of the type section.
    pub open spec fn valid_block_type(&self, bt: BlockType) -> bool {
        match bt {
            BlockType::FuncType(t) => t < self.types@.len(),
            _ => true,
        }
    }

    /// The number of parameters of a block type.
    pub open spec fn spec_len_params(&self, bt: BlockType) -> nat {
        match bt {
            BlockType::FuncType(t) => self.types@[t as int].params@.len(),
            _ => 0,
        }
    }

    /// The number of results of a block type.
    pub open spec fn spec_len_results(&self, bt: BlockType) -> nat {
        match bt {
            BlockType::Empty => 0,
            BlockType::Value(_) => 1,
            BlockType::FuncType(t) => self.types@[t as int].results@.len(),
        }
    }

    /// The number of parameters of function `func`.
    pub open spec fn func_len_params(&self, func: u32) -> nat {
        self.types@[self.funcs@[func as int].type_index as int].params@.len()
    }

    /// The number of results of function `func`.
    pub open spec fn func_len_results(&self, func: u32) -> nat {
        self.types@[self.funcs@[func as int].type_index as int].results@.len()
    }

    /// The number of parameters of a block type.
    pub fn len_params(&self, bt: BlockType) -> (r: usize)
        requires
            self.valid_block_type(bt),
        ensures
            r == self.spec_len_params(bt),
    {
        match bt {
            BlockType::FuncType(t) => self.types[t as usize].params.len(),
            _ => 0,
        }
    }

    /// The number of results of a block type.
    pub fn len_results(&self, bt: BlockType) -> (r: usize)
        requires
            self.valid_block_type(bt),
        ensures
            r == self.spec_len_results(bt),
    {
        match bt {
            BlockType::Empty => 0,
            BlockType::Value(_) => 1,
            BlockType::FuncType(t) => self.types[t as usize].results.len(),
        }
    }
}

} // verus!
