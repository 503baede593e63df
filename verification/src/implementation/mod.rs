//! The two generation strategies behind the shared producer capability.
pub mod lineal;
pub mod matmul;
