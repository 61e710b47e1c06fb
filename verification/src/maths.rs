//! The numeric layer: element capabilities, complex numbers, matrices and vectors.

pub mod complex;
pub mod laws;
pub mod layout;
pub mod matrix;
pub mod numeric;
pub mod vector;
