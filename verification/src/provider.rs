//! What a circuit is handed to in order to be run.

use crate::instruction::{Instr, InstrVec};
use crate::symbol::Ancillas;
use vstd::prelude::*;

verus! {

/// A machine, or a family of machines, with its own set of instructions and
/// its own layout of qubits. It is for the users of the library to
/// implement; the library promises nothing of what an implementation does.
pub trait Architecture {
    /// Why a circuit cannot be run on the architecture.
    type TranspileError;

    /// The number of qubits of the architecture.
    fn num_qubits(&self) -> usize;

    /// Whether an operation can act on the two qubits together.
    fn connected(&self, qubit1: usize, qubit2: usize) -> bool;

    /// Whether the architecture can perform the instruction as it is.
    fn supports<'id>(&self, instr: &Instr<'id>) -> Result<(), Self::TranspileError>;

    /// Rewrites the instructions into instructions that the architecture
    /// can perform. It may use the ancillas.
    fn transpile<'id>(
        &self,
        instructions: InstrVec<'id>,
        ancillas: Option<Ancillas<'id>>,
    ) -> Result<InstrVec<'id>, Self::TranspileError>;
}

} // verus!
