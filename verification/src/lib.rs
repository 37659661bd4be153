//! A compact intermediate representation for quantum circuits.
//!
//! A circuit is built inside a construction session. The session hands out
//! symbolic handles (qubits, classical bits, formal parameters) that are tied
//! to it by a brand lifetime, and records instructions in a flat buffer of
//! words. Closing the session yields an immutable [`circuit::QuantumCircuit`].
//!
//! - [`symbol`] and [`tuple`] hold the handles, [`genericity`] their brand;
//! - [`operation`] is the catalog of operations, [`instruction`] holds
//!   instructions and buffers of them;
//! - [`storage`] moves values in and out of words, and [`wire`] says how
//!   instructions are laid out in them;
//! - [`circuit`] holds circuits and sessions, and [`model`] says what a
//!   circuit is and what allocation and binding make of it;
//! - [`parameter`], [`bitset`] and [`provider`] hold what instructions and
//!   circuits are made of and handed to.

pub mod bitset;
pub mod circuit;
pub mod genericity;
pub mod instruction;
pub mod model;
pub mod operation;
pub mod parameter;
pub mod prelude;
pub mod provider;
pub mod storage;
pub mod symbol;
pub mod tuple;
pub mod wire;
