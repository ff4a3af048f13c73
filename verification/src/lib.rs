//! A small stack-based bytecode virtual machine.
//!
//! The library assembles a textual assembly-like program into an indexed
//! instruction sequence with resolved label targets, and executes it against
//! an operand stack and per-frame local variables, producing a final value,
//! a typed assembly error, or a typed execution fault.

pub mod assemble;
pub mod instr;
pub mod laws;
pub mod machine;
pub mod operand;
pub mod text;
