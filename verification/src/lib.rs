//! An assembler for a small 8-bit machine with a memory of 256 bytes.
//!
//! Source text is read line by line. An instruction is two bytes, an
//! operation and a register packed into the first and an operand in the
//! second; a data segment is a run of bytes of even length. Every byte is a
//! [`token::Token`], whose address is its place in the program and which may
//! give that address a name. [`compile::compile`] replaces every reference to
//! a name by the address, and [`assemble::assemble`] goes all the way from
//! the lines to the image.

pub mod assemble;
pub mod compile;
pub mod grammar;
pub mod opcode;
pub mod parser;
pub mod text;
pub mod token;
