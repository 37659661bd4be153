//! The most common types, traits and functions.

pub use crate::circuit::QuantumCircuit;
