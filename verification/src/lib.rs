//! A small classical simulator of quantum circuits: a generic numeric layer
//! (complex numbers, dense matrices, oriented vectors), the quantum primitives
//! built on it, a runtime that executes a circuit program, and a text
//! renderer for circuit diagrams.

pub mod maths;
pub mod quantum;
pub mod statistics;
pub mod visualizer;

pub use maths::complex::Complex;
pub use maths::matrix::{Matrix, MatrixView, ShapeMismatch};
pub use maths::numeric::{Float, Integer, Numeric, Real};
pub use maths::vector::{ColumnVector, RowVector, Vector, VectorImpl, VectorMatrix};
pub use quantum::basic_rt::BasicRT;
pub use quantum::circuit::{CircuitView, Instruction, InstructionView, QuantumCircuit};
pub use quantum::components::{
    ClassicalRegister, QuantumBit, QuantumGate, QuantumRegister, QuantumRegisterView,
    QuantumState,
};
pub use quantum::gates;
pub use quantum::runtime::{is_executable, RandomSource, Runtime, RuntimeData};
pub use statistics::count_qubit_states;
pub use visualizer::renderer::{CLIRenderer, Direction, Quad};
