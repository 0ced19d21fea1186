//! An emulator for a Transputer-style stack machine: memory, evaluation stack,
//! instruction engine, scheduler queues and a small assembler.
pub mod assembler;
pub mod bits;
pub mod laws;
pub mod mem;
pub mod parse;
pub mod proc;
pub mod strings;
pub mod text;
