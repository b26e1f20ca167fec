//! The instruction set and the code-object format.
//!
//! An instruction is one opcode with its operands; instructions are stored
//! in an ordered sequence, and the position in that sequence is the program
//! counter. A code object is immutable once compiled.

use vstd::prelude::*;

verus! {

/// One bytecode instruction. Operand meanings: a constant-pool index, a
/// variable-name index, an absolute jump target, or an argument count.
#[derive(Debug, PartialEq, Eq, Structural, Clone, Copy)]
pub enum Instruction {
    LoadConst { idx: usize },
    LoadName { idx: usize },
    StoreName { idx: usize },
    JumpAbsolute { target: usize },
    JumpIfFalse { target: usize },
    CallFunction { count: usize },
    PopTop,
    ReturnValue,
}

/// A literal in a code object's constant pool.
#[derive(Debug)]
pub enum Constant {
    IntC { value: i64 },
    StrC { value: String },
    BoolC { value: bool },
    NoneC,
}

/// Mathematical model of a constant.
pub enum ConstV {
    IntV { value: int },
    StrV { value: Seq<char> },
    BoolV { value: bool },
    NoneV,
}

impl View for Constant {
    type V = ConstV;

    open spec fn view(&self) -> ConstV {
        match self {
            Constant::IntC { value } => ConstV::IntV { value: *value as int },
            Constant::StrC { value } => ConstV::StrV { value: value@ },
            Constant::BoolC { value } => ConstV::BoolV { value: *value },
            Constant::NoneC => ConstV::NoneV,
        }
    }
}

/// A compiled body: the instruction sequence, its constant pool, the names
/// it mentions, and metadata.
#[derive(Debug)]
pub struct CodeObject {
    pub instructions: Vec<Instruction>,
    pub constants: Vec<Constant>,
    pub names: Vec<String>,
    pub arg_count: usize,
    pub name: String,
}

/// Mathematical model of a code object.
pub struct CodeV {
    pub instructions: Seq<Instruction>,
    pub constants: Seq<ConstV>,
    pub names: Seq<Seq<char>>,
    pub arg_count: nat,
    pub name: Seq<char>,
}

/// The models of a constant pool and of a name table.
pub open spec fn cview(v: Seq<Constant>) -> Seq<ConstV> {
    v.map_values(|c: Constant| c@)
}

pub open spec fn nview(v: Seq<String>) -> Seq<Seq<char>> {
    v.map_values(|n: String| n@)
}

impl View for CodeObject {
    type V = CodeV;

    open spec fn view(&self) -> CodeV {
        CodeV {
            instructions: self.instructions@,
            constants: cview(self.constants@),
            names: nview(self.names@),
            arg_count: self.arg_count as nat,
            name: self.name@,
        }
    }
}

} // verus!
