//! A verified toolchain that lowers a stack-machine bytecode to binary
//! instruction words for a 16-bit accumulator machine, in two stages:
//! a translator from stack commands to symbolic assembly, and a two-pass
//! assembler from symbolic assembly to 16-bit binary words.

pub mod asm_code_gen;
pub mod asm_parser;
pub mod assembler;
pub mod symbols;
pub mod text;
pub mod vm_code_gen;
pub mod vm_parser;
pub mod vm_translator;
