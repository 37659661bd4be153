//! What a circuit is, as a mathematical value.
//!
//! The types of the library that hold a circuit are seen through a
//! [`CircuitView`]: the counts of the handles that were handed out, and the
//! instructions. This module says what it is for such a value to be
//! well-formed, what allocation and binding make of it, and what follows.

use crate::instruction::{ComputeView, InstrView, ModifierView};
use crate::operation::OpView;
use crate::parameter::{formal_index, is_value_word, value_word};
use crate::storage::Word;
use crate::symbol::{Bit, FormalParameter, Qubit};
use crate::wire::all_valid;
use vstd::prelude::*;

verus! {

/// The three kinds of handles.
#[derive(Copy, Clone, PartialEq, Eq, Hash, Debug, Structural)]
pub enum SymbolKind {
    Qubit,
    Bit,
    FormalParameter,
}

/// What a circuit is: how many handles of each kind it has handed out, how
/// many ancillas it sets aside, and its instructions.
pub struct CircuitView {
    pub num_qubits: u32,
    pub num_bits: u32,
    pub num_formals: u32,
    pub num_ancillas: u32,
    pub instrs: Seq<InstrView>,
}

/// Whether every word is below the bound.
pub open spec fn all_below(words: Seq<Word>, bound: int) -> bool {
    forall|i: int| 0 <= i < words.len() ==> (#[trigger] words[i]) < bound
}

/// Whether every reference to a formal parameter among the parameters is to
/// one with an index below the bound.
pub open spec fn formals_below(parameters: Seq<Word>, bound: int) -> bool {
    forall|i: int|
        0 <= i < parameters.len() && !is_value_word(#[trigger] parameters[i]) ==> formal_index(
            parameters[i],
        ) < bound
}

impl ComputeView {
    /// Whether the compute is evaluated on bits of a circuit with
    /// `num_bits` bits.
    pub open spec fn in_range(self, num_bits: int) -> bool {
        all_below(self.bits, num_bits)
    }
}

impl ModifierView {
    /// Whether the modifier speaks of bits of a circuit with `num_bits`
    /// bits.
    pub open spec fn in_range(self, num_bits: int) -> bool {
        match self {
            ModifierView::IfBit(bit) | ModifierView::WhileBit(bit) => bit < num_bits,
            ModifierView::IfCompute(c) | ModifierView::WhileCompute(c) | ModifierView::ForCompute(
                c,
            ) => c.in_range(num_bits),
            ModifierView::ForConst(_) => true,
        }
    }
}

impl InstrView {
    /// Whether every handle of the instruction is one of a circuit with as
    /// many qubits, bits and formal parameters as given.
    pub open spec fn in_range(self, num_qubits: int, num_bits: int, num_formals: int) -> bool {
        &&& all_below(self.qubits, num_qubits)
        &&& all_below(self.bits, num_bits)
        &&& formals_below(self.parameters, num_formals)
        &&& match self.op {
            OpView::Compute(c) => c.in_range(num_bits),
            _ => true,
        }
        &&& match self.modifier {
            Some(m) => m.in_range(num_bits),
            None => true,
        }
    }
}

/// The word of a parameter once the formal parameters have got the given
/// values: a value stays as it is, a reference to a formal parameter becomes
/// the value of that formal parameter. The bit pattern `values[i]` is the
/// value of the formal parameter with index `i`.
pub open spec fn bind_word(parameter: Word, values: Seq<u32>) -> Word {
    if is_value_word(parameter) {
        parameter
    } else {
        value_word(values[formal_index(parameter) as int])
    }
}

impl InstrView {
    /// The instruction once the formal parameters have got the given
    /// values.
    pub open spec fn bound(self, values: Seq<u32>) -> InstrView {
        InstrView {
            parameters: Seq::new(
                self.parameters.len(),
                |i: int| bind_word(self.parameters[i], values),
            ),
            ..self
        }
    }
}

impl CircuitView {
    /// The circuit without handles, ancillas or instructions.
    pub open spec fn empty() -> CircuitView {
        CircuitView {
            num_qubits: 0,
            num_bits: 0,
            num_formals: 0,
            num_ancillas: 0,
            instrs: Seq::empty(),
        }
    }

    /// The number of qubits of the circuit, ancillas included.
    pub open spec fn width(self) -> int {
        self.num_qubits + self.num_ancillas
    }

    /// The number of handles of a kind that the circuit has handed out.
    pub open spec fn count(self, kind: SymbolKind) -> u32 {
        match kind {
            SymbolKind::Qubit => self.num_qubits,
            SymbolKind::Bit => self.num_bits,
            SymbolKind::FormalParameter => self.num_formals,
        }
    }

    /// The largest number of handles of a kind in one circuit.
    pub open spec fn limit(kind: SymbolKind) -> u32 {
        match kind {
            SymbolKind::Qubit => Qubit::MAX,
            SymbolKind::Bit => Bit::MAX,
            SymbolKind::FormalParameter => FormalParameter::MAX,
        }
    }

    /// Whether the circuit can hand out `n` more handles of a kind. The
    /// ancillas of the circuit count as qubits.
    pub open spec fn has_room(self, kind: SymbolKind, n: int) -> bool {
        match kind {
            SymbolKind::Qubit => self.width() + n <= Qubit::MAX,
            SymbolKind::Bit => self.num_bits + n <= Bit::MAX,
            SymbolKind::FormalParameter => self.num_formals + n <= FormalParameter::MAX,
        }
    }

    /// The circuit after it has handed out `n` more handles of a kind.
    pub open spec fn advanced(self, kind: SymbolKind, n: int) -> CircuitView {
        match kind {
            SymbolKind::Qubit => CircuitView { num_qubits: (self.num_qubits + n) as u32, ..self },
            SymbolKind::Bit => CircuitView { num_bits: (self.num_bits + n) as u32, ..self },
            SymbolKind::FormalParameter => CircuitView {
                num_formals: (self.num_formals + n) as u32,
                ..self
            },
        }
    }

    /// The circuit after it was asked for `n` more handles of a kind: the
    /// circuit after it has handed them out where it has room for them, the
    /// circuit as it is where it has not.
    pub open spec fn asked_for(self, kind: SymbolKind, n: int) -> CircuitView {
        if self.has_room(kind, n) {
            self.advanced(kind, n)
        } else {
            self
        }
    }

    /// Whether the circuit can hand out one handle of each of the kinds, in
    /// turn.
    pub open spec fn has_room_for(self, kinds: Seq<SymbolKind>) -> bool
        decreases kinds.len(),
    {
        kinds.len() == 0 || (self.has_room(kinds[0], 1) && self.advanced(
            kinds[0],
            1,
        ).has_room_for(kinds.skip(1)))
    }

    /// The circuit after it has handed out one handle of each of the kinds,
    /// in turn, up to the first for which it has no room.
    pub open spec fn handed_out(self, kinds: Seq<SymbolKind>) -> CircuitView
        decreases kinds.len(),
    {
        if kinds.len() == 0 || !self.has_room(kinds[0], 1) {
            self
        } else {
            self.advanced(kinds[0], 1).handed_out(kinds.skip(1))
        }
    }

    /// The indices of the handles that the circuit hands out when it hands
    /// out one of each of the kinds, in turn.
    pub open spec fn indices_of(self, kinds: Seq<SymbolKind>) -> Seq<u32>
        decreases kinds.len(),
    {
        if kinds.len() == 0 {
            Seq::empty()
        } else {
            seq![self.count(kinds[0])] + self.advanced(kinds[0], 1).indices_of(kinds.skip(1))
        }
    }

    /// Whether every handle of every instruction is one of the circuit.
    pub open spec fn in_range(self) -> bool {
        forall|i: int|
            0 <= i < self.instrs.len() ==> (#[trigger] self.instrs[i]).in_range(
                self.num_qubits as int,
                self.num_bits as int,
                self.num_formals as int,
            )
    }

    /// Whether the counts of the circuit are within the limits, and its
    /// instructions valid and about its own handles.
    pub open spec fn well_formed(self) -> bool {
        &&& self.width() <= Qubit::MAX
        &&& self.num_bits <= Bit::MAX
        &&& self.num_formals <= FormalParameter::MAX
        &&& all_valid(self.instrs)
        &&& self.in_range()
    }

    /// Whether the circuit has no formal parameter.
    pub open spec fn is_concrete(self) -> bool {
        self.num_formals == 0
    }

    /// Whether the circuit can take the instruction: it is valid, and every
    /// handle of it is one that the circuit has handed out.
    pub open spec fn admits(self, instr: InstrView) -> bool {
        &&& instr.valid()
        &&& instr.in_range(self.num_qubits as int, self.num_bits as int, self.num_formals as int)
    }

    /// The circuit with one more instruction at its end.
    pub open spec fn with(self, instr: InstrView) -> CircuitView {
        CircuitView { instrs: self.instrs.push(instr), ..self }
    }

    /// The circuit once its formal parameters have got the given values: it
    /// has no formal parameter left.
    pub open spec fn bound(self, values: Seq<u32>) -> CircuitView {
        CircuitView {
            num_formals: 0,
            instrs: Seq::new(self.instrs.len(), |i: int| self.instrs[i].bound(values)),
            ..self
        }
    }
}

/// Handing out `n` handles of a kind advances the count of that kind by
/// exactly `n`, and leaves everything else as it was.
pub proof fn lemma_advanced_count(circuit: CircuitView, kind: SymbolKind, other: SymbolKind, n: int)
    requires
        0 <= n,
        circuit.well_formed(),
        circuit.has_room(kind, n),
    ensures
        circuit.advanced(kind, n).count(kind) == circuit.count(kind) + n,
        other != kind ==> circuit.advanced(kind, n).count(other) == circuit.count(other),
        circuit.advanced(kind, n).num_ancillas == circuit.num_ancillas,
        circuit.advanced(kind, n).instrs == circuit.instrs,
        circuit.advanced(kind, n).well_formed(),
{
    let after = circuit.advanced(kind, n);
    assert forall|i: int| 0 <= i < after.instrs.len() implies (#[trigger] after.instrs[i]).in_range(
        after.num_qubits as int,
        after.num_bits as int,
        after.num_formals as int,
    ) by {
        lemma_in_range_grows(
            circuit.instrs[i],
            circuit.num_qubits as int,
            circuit.num_bits as int,
            circuit.num_formals as int,
            after.num_qubits as int,
            after.num_bits as int,
            after.num_formals as int,
        );
    }
}

/// Asking a circuit for `n` handles of a kind is all or nothing: where it
/// has room, the count of that kind advances by exactly `n`; where it has
/// not, the circuit stays as it is. Either way the counts of the other
/// kinds, the ancillas and the instructions stay as they are.
pub proof fn lemma_asked_for(circuit: CircuitView, kind: SymbolKind, other: SymbolKind, n: int)
    requires
        0 <= n,
        circuit.well_formed(),
    ensures
        circuit.has_room(kind, n) ==> circuit.asked_for(kind, n).count(kind) == circuit.count(kind)
            + n,
        !circuit.has_room(kind, n) ==> circuit.asked_for(kind, n) == circuit,
        other != kind ==> circuit.asked_for(kind, n).count(other) == circuit.count(other),
        circuit.asked_for(kind, n).num_ancillas == circuit.num_ancillas,
        circuit.asked_for(kind, n).instrs == circuit.instrs,
        circuit.asked_for(kind, n).well_formed(),
{
    if circuit.has_room(kind, n) {
        lemma_advanced_count(circuit, kind, other, n);
    }
}

/// An instruction about the handles of a circuit is about the handles of
/// every circuit with at least as many of each kind.
pub proof fn lemma_in_range_grows(
    instr: InstrView,
    num_qubits: int,
    num_bits: int,
    num_formals: int,
    more_qubits: int,
    more_bits: int,
    more_formals: int,
)
    requires
        instr.in_range(num_qubits, num_bits, num_formals),
        num_qubits <= more_qubits,
        num_bits <= more_bits,
        num_formals <= more_formals,
    ensures
        instr.in_range(more_qubits, more_bits, more_formals),
{
}

/// A circuit that has handed out one handle less of a kind than the limit
/// has room for one more, which gets the last index; after that it has room
/// for none. For qubits this is so of a circuit without ancillas, since
/// ancillas count as qubits.
pub proof fn lemma_last_handle(circuit: CircuitView, kind: SymbolKind)
    requires
        circuit.well_formed(),
        circuit.count(kind) == CircuitView::limit(kind) - 1,
        kind == SymbolKind::Qubit ==> circuit.num_ancillas == 0,
    ensures
        circuit.has_room(kind, 1),
        circuit.asked_for(kind, 1).count(kind) == CircuitView::limit(kind),
        !circuit.asked_for(kind, 1).has_room(kind, 1),
        circuit.asked_for(kind, 1).asked_for(kind, 1) == circuit.asked_for(kind, 1),
{
}

/// The instruction that applies an operation without bits or modifier to
/// the given qubits, with the given parameters.
pub open spec fn gate(op: OpView, qubits: Seq<Word>, parameters: Seq<Word>) -> InstrView {
    InstrView { op, qubits, bits: Seq::empty(), parameters, modifier: None }
}

/// The bit pattern of zero is that of a value, so whatever stands for a
/// number is a value.
pub proof fn lemma_value_word_is_value(bits: u32)
    ensures
        is_value_word(value_word(bits)),
{
    assert(0u32 & 0x7F80_0000u32 != 0x7F80_0000u32) by (bit_vector);
}

/// Once the formal parameters have got values, an instruction is as valid
/// as before, speaks of the same qubits and bits, and refers to no formal
/// parameter.
pub proof fn lemma_bound_instr(
    instr: InstrView,
    values: Seq<u32>,
    num_qubits: int,
    num_bits: int,
    num_formals: int,
)
    requires
        instr.valid(),
        instr.in_range(num_qubits, num_bits, num_formals),
    ensures
        instr.bound(values).valid(),
        instr.bound(values).in_range(num_qubits, num_bits, 0),
        instr.bound(values).is_concrete(),
{
    let after = instr.bound(values);
    assert forall|i: int| 0 <= i < after.parameters.len() implies is_value_word(
        #[trigger] after.parameters[i],
    ) by {
        lemma_value_word_is_value(values[formal_index(instr.parameters[i]) as int]);
    }
}

/// Once its formal parameters have got values, a circuit is well-formed as
/// before, and concrete.
pub proof fn lemma_bound_circuit(circuit: CircuitView, values: Seq<u32>)
    requires
        circuit.well_formed(),
    ensures
        circuit.bound(values).well_formed(),
        circuit.bound(values).is_concrete(),
{
    let after = circuit.bound(values);
    assert forall|i: int| 0 <= i < after.instrs.len() implies (#[trigger] after.instrs[i]).valid()
        && after.instrs[i].in_range(after.num_qubits as int, after.num_bits as int, 0) by {
        assert(circuit.instrs[i].in_range(
            circuit.num_qubits as int,
            circuit.num_bits as int,
            circuit.num_formals as int,
        ));
        lemma_bound_instr(
            circuit.instrs[i],
            values,
            circuit.num_qubits as int,
            circuit.num_bits as int,
            circuit.num_formals as int,
        );
    }
}

/// In a circuit without formal parameters, no instruction refers to one.
pub proof fn lemma_concrete_instructions(circuit: CircuitView)
    requires
        circuit.well_formed(),
        circuit.is_concrete(),
    ensures
        forall|i: int|
            0 <= i < circuit.instrs.len() ==> (#[trigger] circuit.instrs[i]).is_concrete(),
{
    assert forall|i: int| 0 <= i < circuit.instrs.len() implies (
    #[trigger] circuit.instrs[i]).is_concrete() by {
        let instr = circuit.instrs[i];
        assert(instr.in_range(
            circuit.num_qubits as int,
            circuit.num_bits as int,
            circuit.num_formals as int,
        ));
    }
}

} // verus!
