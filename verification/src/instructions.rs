//! The instructions: for each, what it does to the state of the machine,
//! and the handler that does it.

pub mod control;
pub mod opcode;
pub mod stack;
pub mod system;
