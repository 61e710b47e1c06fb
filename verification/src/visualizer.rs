//! Drawing a circuit as text.

pub mod renderer;
