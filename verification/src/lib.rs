//! A verified CHIP-8 interpreter.
//!
//! The machine state, the two-level instruction decoder, the 35 instruction
//! handlers, and the cycle driver are specified against a mathematical
//! model of the machine (`model::MachineState`) and proved to implement it.
//! Presentation, input capture, and program loading from disk are left to
//! the host around the library.

pub mod chip8;
pub mod decode;
pub mod laws;
pub mod model;
pub mod rng;
