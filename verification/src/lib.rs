//! Fixed-capacity arenas with stable handles, and the pools built on them.

pub mod bit;
pub mod circuit_instruction;
pub mod instruction;
pub mod operations;
pub mod quantum_circuit;
pub mod register;
pub mod util;
