//! A minimal stack-based bytecode virtual machine: a fixed sequence of
//! instructions is executed against an operand stack and name-keyed local
//! bindings, collecting printed lines and signalling typed errors on misuse.
pub mod float;
pub mod instruction;
pub mod stack;
pub mod value;
pub mod vm;
