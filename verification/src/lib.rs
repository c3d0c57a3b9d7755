//! A deterministic, gas-metered bytecode interpreter for an EVM-style stack
//! machine: operand stack, scratch memory, gas meter, jump validation and the
//! control, stack and system instructions, each with a machine-checked
//! contract over a mathematical model of the machine state.

pub mod gas;
pub mod hash;
pub mod primitives;
pub mod protocol;
pub mod interpreter;
pub mod instructions;
