//! The processing core of a CHIP-8 virtual machine: machine state, an
//! instruction decoder and an executor, each stated against a model.
pub mod cpu;
pub mod font;
pub mod laws;
pub mod model;
pub mod opcode;
pub mod opts;
