//! A small register-machine interpreter: a bounds-checked linear memory
//! holding the program, four registers, and a fetch-decode-execute loop.

pub mod memory;
pub mod cpu;
