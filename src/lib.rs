//! A small just-in-time compiler for combinational boolean circuits.
//!
//! A [`circuit::Circuit`] is an indexed list of gates in which every gate reads
//! only earlier positions. [`jit::compile`] validates it, lowers it into one
//! straight-line native function ([`codegen::lowered`]), and finalizes that
//! function into executable memory owned by the returned
//! [`jit::CompiledCircuit`]. [`backend`] models the function under
//! construction, so that the contracts can state which instructions are emitted.

pub mod backend;
pub mod circuit;
pub mod codegen;
pub mod jit;
