//! A small 16-bit microcontroller: its instruction set, an emulator of its
//! core, and the assembler's front end (tokenizers and operand parsers).
pub mod isa;
pub mod mcu;
pub mod text;
pub mod assembler;
pub mod token;
pub mod console;
