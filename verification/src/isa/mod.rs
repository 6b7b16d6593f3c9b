//! The NVM instruction set: registers, operands, opcodes and instructions.
pub mod err;
pub mod instruction;
pub mod opcode;
pub mod operand;
pub mod register;
