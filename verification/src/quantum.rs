//! The quantum primitives, the circuit program and the runtime that executes it.

pub mod basic_rt;
pub mod circuit;
pub mod components;
pub mod gates;
pub mod runtime;
