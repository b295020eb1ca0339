use vstd::prelude::*;
use crate::value::Value;

verus! {

/// The closed set of opcodes the engine executes, each carrying its
/// typed operand. Jump targets are absolute instruction indices.
#[derive(Debug, Clone)]
pub enum Instr {
    Jump(usize),
    JumpIfFalse(usize),
    Store(String),
    Load(String),
    BuildList(usize),
    Binary(Binary),
    LoadConst(Value),
    Print,
}

/// The arithmetic operation tag a `Binary` instruction carries.
#[derive(Debug, Clone, Copy, PartialEq, Eq, Structural)]
pub enum Binary {
    Add,
    Sub,
    Mult,
    Div,
}

} // verus!
