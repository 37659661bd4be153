//! Circuits and the sessions that construct them.
//!
//! A [`QuantumCircuit`] is immutable. It is made, and changed, inside a
//! construction session: [`QuantumCircuit::new`] and
//! [`QuantumCircuit::edit`] hand a [`CircuitBuilder`] with a brand of its
//! own to a closure, and close the session when the closure returns. The
//! builder hands out the handles of the session and records the
//! instructions that are built from them.

use crate::instruction::{Instr, InstrIter, InstrVec, InstrView, Modifier};
use crate::model::{
    all_below, bind_word, formals_below, gate, lemma_advanced_count, lemma_bound_circuit,
    lemma_bound_instr, CircuitView, SymbolKind,
};
use crate::operation::{OpKind, OpView};
use crate::parameter::{formal_index, is_value_word, Parameter};
use crate::provider::Architecture;
use crate::storage::{words_of, Transparent, Word};
use crate::symbol::{Ancillas, Bit, FormalParameter, List, Qubit, Symbol, SymbolTuple};
use crate::wire::encode_all;
use std::marker::PhantomData;
use vstd::prelude::*;

verus! {

/// Why a construction session failed.
#[derive(Copy, Clone, PartialEq, Eq, Hash, Debug, Structural)]
pub enum CircuitError {
    /// The circuit cannot hold as many handles of one kind as were asked for.
    AllocOverflow,
}

/// The circuit cannot hold as many handles of one kind as were asked for.
#[derive(Copy, Clone, PartialEq, Eq, Hash, Debug, Structural)]
pub struct CircuitAllocOverflow;

/// The circuit is not concrete: it has at least one formal parameter.
#[derive(Copy, Clone, PartialEq, Eq, Hash, Debug, Structural)]
pub struct NotConcreteError;

impl From<CircuitAllocOverflow> for CircuitError {
    fn from(overflow: CircuitAllocOverflow) -> (error: Self) {
        CircuitError::AllocOverflow
    }
}

impl vstd::std_specs::convert::FromSpecImpl<CircuitAllocOverflow> for CircuitError {
    open spec fn obeys_from_spec() -> bool {
        true
    }

    open spec fn from_spec(overflow: CircuitAllocOverflow) -> Self {
        CircuitError::AllocOverflow
    }
}

/// An immutable circuit: counts of qubits, bits, formal parameters and
/// ancillas, and a buffer of instructions.
pub struct QuantumCircuit {
    num_qubits: u32,
    num_bits: u32,
    num_formals: u32,
    num_ancillas: u32,
    data: Vec<Word>,
    instrs: Ghost<Seq<InstrView>>,
}

impl View for QuantumCircuit {
    type V = CircuitView;

    closed spec fn view(&self) -> CircuitView {
        CircuitView {
            num_qubits: self.num_qubits,
            num_bits: self.num_bits,
            num_formals: self.num_formals,
            num_ancillas: self.num_ancillas,
            instrs: self.instrs@,
        }
    }
}

/// A circuit under construction, within one session.
pub struct CircuitBuilder<'id> {
    num_qubits: u32,
    num_bits: u32,
    num_formals: u32,
    num_ancillas: u32,
    data: InstrVec<'id>,
}

impl<'id> View for CircuitBuilder<'id> {
    type V = CircuitView;

    closed spec fn view(&self) -> CircuitView {
        CircuitView {
            num_qubits: self.num_qubits,
            num_bits: self.num_bits,
            num_formals: self.num_formals,
            num_ancillas: self.num_ancillas,
            instrs: self.data@,
        }
    }
}

impl<'id> CircuitBuilder<'id> {
    /// The counts are within the limits, and the instructions valid and
    /// about the handles of the session.
    #[verifier::type_invariant]
    spec fn well_formed(&self) -> bool {
        self@.well_formed()
    }

    /// Turns the quantum circuit into a circuit builder.
    pub(crate) fn from_circ(circ: QuantumCircuit) -> (builder: Self)
        ensures
            builder@ == circ@,
    {
        proof {
            use_type_invariant(&circ);
        }
        CircuitBuilder {
            num_qubits: circ.num_qubits,
            num_ancillas: circ.num_ancillas,
            num_bits: circ.num_bits,
            num_formals: circ.num_formals,
            data: InstrVec::from_parts(circ.data, circ.instrs),
        }
    }

    /// Turns the circuit builder into a quantum circuit.
    pub(crate) fn into_circ(self) -> (circ: QuantumCircuit)
        ensures
            circ@ == self@,
    {
        proof {
            use_type_invariant(&self);
        }
        let ghost instrs = self.data@;
        let words: Vec<Word> = self.data.take();
        QuantumCircuit {
            num_qubits: self.num_qubits,
            num_ancillas: self.num_ancillas,
            num_bits: self.num_bits,
            num_formals: self.num_formals,
            data: words,
            instrs: Ghost(instrs),
        }
    }

    /// The number of qubits that the session has handed out.
    pub fn num_qubits(&self) -> (n: usize)
        ensures
            n == self@.num_qubits,
    {
        self.num_qubits as usize
    }

    /// The number of formal parameters that the session has handed out.
    pub fn num_formals(&self) -> (n: usize)
        ensures
            n == self@.num_formals,
    {
        self.num_formals as usize
    }

    /// The number of bits that the session has handed out.
    pub fn num_bits(&self) -> (n: usize)
        ensures
            n == self@.num_bits,
    {
        self.num_bits as usize
    }

    /// The number of ancillas that the circuit sets aside.
    pub fn num_ancillas(&self) -> (n: usize)
        ensures
            n == self@.num_ancillas,
    {
        self.num_ancillas as usize
    }

    /// The number of qubits of the circuit, ancillas included.
    pub fn width(&self) -> (n: usize)
        ensures
            n == self@.width(),
            n <= Qubit::MAX,
    {
        proof {
            use_type_invariant(self);
        }
        self.num_qubits as usize + self.num_ancillas as usize
    }

    /// Takes the next `n` indices of qubits, all of them or none, and gives
    /// the first of them.
    pub(crate) fn reserve_qubits(&mut self, n: usize) -> (first: Result<u32, CircuitAllocOverflow>)
        ensures
            first is Ok <==> old(self)@.has_room(SymbolKind::Qubit, n as int),
            first matches Ok(start) ==> start == old(self)@.num_qubits,
            final(self)@ == old(self)@.asked_for(SymbolKind::Qubit, n as int),
    {
        proof {
            use_type_invariant(&*self);
        }
        let start: u32 = self.num_qubits;
        let room: u32 = Qubit::MAX - start - self.num_ancillas;
        if n <= room as usize {
            proof {
                lemma_advanced_count(self@, SymbolKind::Qubit, SymbolKind::Qubit, n as int);
            }
            self.num_qubits = start + n as u32;
            Ok(start)
        } else {
            Err(CircuitAllocOverflow)
        }
    }

    /// Takes the next `n` indices of bits, all of them or none, and gives
    /// the first of them.
    pub(crate) fn reserve_bits(&mut self, n: usize) -> (first: Result<u32, CircuitAllocOverflow>)
        ensures
            first is Ok <==> old(self)@.has_room(SymbolKind::Bit, n as int),
            first matches Ok(start) ==> start == old(self)@.num_bits,
            final(self)@ == old(self)@.asked_for(SymbolKind::Bit, n as int),
    {
        proof {
            use_type_invariant(&*self);
        }
        let start: u32 = self.num_bits;
        let room: u32 = Bit::MAX - start;
        if n <= room as usize {
            proof {
                lemma_advanced_count(self@, SymbolKind::Bit, SymbolKind::Bit, n as int);
            }
            self.num_bits = start + n as u32;
            Ok(start)
        } else {
            Err(CircuitAllocOverflow)
        }
    }

    /// Takes the next `n` indices of formal parameters, all of them or none, and gives
    /// the first of them.
    pub(crate) fn reserve_formals(&mut self, n: usize) -> (first: Result<u32, CircuitAllocOverflow>)
        ensures
            first is Ok <==> old(self)@.has_room(SymbolKind::FormalParameter, n as int),
            first matches Ok(start) ==> start == old(self)@.num_formals,
            final(self)@ == old(self)@.asked_for(SymbolKind::FormalParameter, n as int),
    {
        proof {
            use_type_invariant(&*self);
        }
        let start: u32 = self.num_formals;
        let room: u32 = FormalParameter::MAX - start;
        if n <= room as usize {
            proof {
                lemma_advanced_count(
                    self@,
                    SymbolKind::FormalParameter,
                    SymbolKind::FormalParameter,
                    n as int,
                );
            }
            self.num_formals = start + n as u32;
            Ok(start)
        } else {
            Err(CircuitAllocOverflow)
        }
    }

    /// Hands out one handle: the next of its kind. Fails, and changes
    /// nothing, where the circuit has no room for it.
    pub fn allocate<T: Symbol<'id>>(&mut self) -> (symbol: Result<T, CircuitAllocOverflow>)
        ensures
            symbol is Ok <==> old(self)@.has_room(T::kind(), 1),
            symbol matches Ok(s) ==> s.index() == old(self)@.count(T::kind()),
            final(self)@ == old(self)@.asked_for(T::kind(), 1),
    {
        match T::reserve(self, 1) {
            Ok(first) => Ok(T::new_unchecked(first)),
            Err(e) => Err(e),
        }
    }

    /// Hands out `N` handles of one kind, with consecutive indices. Fails,
    /// and changes nothing, where the circuit has no room for all of them.
    pub fn alloc_n<T: Symbol<'id>, const N: usize>(&mut self) -> (symbols: Result<
        [T; N],
        CircuitAllocOverflow,
    >)
        ensures
            symbols is Ok <==> old(self)@.has_room(T::kind(), N as int),
            symbols matches Ok(array) ==> forall|i: int|
                0 <= i < N ==> (#[trigger] array@[i]).index() == old(self)@.count(T::kind()) + i,
            final(self)@ == old(self)@.asked_for(T::kind(), N as int),
    {
        proof {
            use_type_invariant(&*self);
        }
        match T::reserve(self, N) {
            Ok(first) => {
                let mut array: [T; N] = [T::new_unchecked(first);N];
                let mut i: usize = 0;
                while i < N
                    invariant
                        i <= N,
                        first + N <= u32::MAX,
                        forall|k: int| 0 <= k < i ==> (#[trigger] array@[k]).index() == first + k,
                    decreases N - i,
                {
                    array[i] = T::new_unchecked(first + i as u32);
                    i += 1;
                }
                Ok(array)
            },
            Err(e) => Err(e),
        }
    }

    /// Hands out `len` handles of one kind, with consecutive indices, as a
    /// list. Fails, and changes nothing, where the circuit has no room for
    /// all of them.
    pub fn alloc_list<T: Symbol<'id>>(&mut self, len: usize) -> (list: Result<
        List<T>,
        CircuitAllocOverflow,
    >)
        ensures
            list is Ok <==> old(self)@.has_room(T::kind(), len as int),
            list matches Ok(l) ==> l.start() == old(self)@.count(T::kind()) && l.end() == l.start()
                + len,
            final(self)@ == old(self)@.asked_for(T::kind(), len as int),
    {
        proof {
            use_type_invariant(&*self);
        }
        match T::reserve(self, len) {
            Ok(first) => Ok(List::from_range(first..first + len as u32)),
            Err(e) => Err(e),
        }
    }

    /// Hands out one handle of each kind of a tuple, in turn. Where the
    /// session has no room for one of them, this fails, and the handles
    /// before that one stay handed out.
    pub fn alloc_tuple<T: SymbolTuple<'id>>(&mut self) -> (tuple: Result<T, CircuitAllocOverflow>)
        ensures
            tuple is Ok <==> old(self)@.has_room_for(T::kinds()),
            tuple matches Ok(t) ==> t.indices() == old(self)@.indices_of(T::kinds()),
            final(self)@ == old(self)@.handed_out(T::kinds()),
    {
        T::alloc_tuple(self)
    }

    /// Hands out the next qubit. Fails, and changes nothing, where the circuit
    /// has no room for it.
    pub fn qubit(&mut self) -> (qubit: Result<Qubit<'id>, CircuitAllocOverflow>)
        ensures
            qubit is Ok <==> old(self)@.has_room(SymbolKind::Qubit, 1),
            qubit matches Ok(handle) ==> handle@ == old(self)@.num_qubits,
            final(self)@ == old(self)@.asked_for(SymbolKind::Qubit, 1),
    {
        self.allocate()
    }

    /// Hands out the next `N` qubits. Fails, and changes nothing, where the
    /// circuit has no room for all of them.
    pub fn qubits<const N: usize>(&mut self) -> (qubits: Result<
        [Qubit<'id>; N],
        CircuitAllocOverflow,
    >)
        ensures
            qubits is Ok <==> old(self)@.has_room(SymbolKind::Qubit, N as int),
            qubits matches Ok(array) ==> forall|i: int|
                0 <= i < N ==> (#[trigger] array@[i])@ == old(self)@.num_qubits + i,
            final(self)@ == old(self)@.asked_for(SymbolKind::Qubit, N as int),
    {
        self.alloc_n()
    }

    /// Hands out the next formal parameter. Fails, and changes nothing, where the circuit
    /// has no room for it.
    pub fn formal(&mut self) -> (formal: Result<FormalParameter<'id>, CircuitAllocOverflow>)
        ensures
            formal is Ok <==> old(self)@.has_room(SymbolKind::FormalParameter, 1),
            formal matches Ok(handle) ==> handle@ == old(self)@.num_formals,
            final(self)@ == old(self)@.asked_for(SymbolKind::FormalParameter, 1),
    {
        self.allocate()
    }

    /// Hands out the next `N` formal parameters. Fails, and changes nothing, where the
    /// circuit has no room for all of them.
    pub fn formals<const N: usize>(&mut self) -> (formals: Result<
        [FormalParameter<'id>; N],
        CircuitAllocOverflow,
    >)
        ensures
            formals is Ok <==> old(self)@.has_room(SymbolKind::FormalParameter, N as int),
            formals matches Ok(array) ==> forall|i: int|
                0 <= i < N ==> (#[trigger] array@[i])@ == old(self)@.num_formals + i,
            final(self)@ == old(self)@.asked_for(SymbolKind::FormalParameter, N as int),
    {
        self.alloc_n()
    }

    /// Hands out the next bit. Fails, and changes nothing, where the circuit
    /// has no room for it.
    pub fn bit(&mut self) -> (bit: Result<Bit<'id>, CircuitAllocOverflow>)
        ensures
            bit is Ok <==> old(self)@.has_room(SymbolKind::Bit, 1),
            bit matches Ok(handle) ==> handle@ == old(self)@.num_bits,
            final(self)@ == old(self)@.asked_for(SymbolKind::Bit, 1),
    {
        self.allocate()
    }

    /// Hands out the next `N` bits. Fails, and changes nothing, where the
    /// circuit has no room for all of them.
    pub fn bits<const N: usize>(&mut self) -> (bits: Result<[Bit<'id>; N], CircuitAllocOverflow>)
        ensures
            bits is Ok <==> old(self)@.has_room(SymbolKind::Bit, N as int),
            bits matches Ok(array) ==> forall|i: int|
                0 <= i < N ==> (#[trigger] array@[i])@ == old(self)@.num_bits + i,
            final(self)@ == old(self)@.asked_for(SymbolKind::Bit, N as int),
    {
        self.alloc_n()
    }

    /// Sets the number of ancillas that the circuit sets aside. Fails, and
    /// changes nothing, where the circuit has no room for them beside its
    /// qubits.
    pub fn set_num_ancillas(&mut self, n: usize) -> (done: Result<(), CircuitAllocOverflow>)
        ensures
            match done {
                Ok(_) => old(self)@.num_qubits + n <= Qubit::MAX && final(self)@ == (CircuitView {
                    num_ancillas: n as u32,
                    ..old(self)@
                }),
                Err(_) => old(self)@.num_qubits + n > Qubit::MAX && final(self)@ == old(self)@,
            },
    {
        proof {
            use_type_invariant(&*self);
        }
        let room: u32 = Qubit::MAX - self.num_qubits;
        if n <= room as usize {
            self.num_ancillas = n as u32;
            Ok(())
        } else {
            Err(CircuitAllocOverflow)
        }
    }

    /// Whether the session can record the instruction: it is valid, and
    /// every handle of it is one that the session has handed out.
    pub fn admits(&self, instruction: &Instr<'id>) -> (admitted: bool)
        ensures
            admitted == self@.admits(instruction@),
    {
        instruction.is_valid() && in_range(
            instruction,
            self.num_qubits,
            self.num_bits,
            self.num_formals,
        )
    }

    /// Records an instruction at the end of the circuit.
    pub fn append(&mut self, instruction: &Instr<'id>)
        requires
            old(self)@.admits(instruction@),
        ensures
            final(self)@ == old(self)@.with(instruction@),
    {
        let mut taken = CircuitBuilder::from_circ(QuantumCircuit::default());
        proof {
            use_type_invariant(&*self);
            use_type_invariant(&taken);
        }
        std::mem::swap(self, &mut taken);
        let CircuitBuilder { num_qubits, num_bits, num_formals, num_ancillas, mut data } = taken;
        data.append(instruction);
        *self = CircuitBuilder { num_qubits, num_bits, num_formals, num_ancillas, data };
    }

    /// Records a Hadamard transform of the target.
    pub fn h(&mut self, target: Qubit<'id>) -> (builder: &mut Self)
        requires
            target@ < old(self)@.num_qubits,
        ensures
            builder@ == old(self)@.with(gate(OpView::H, seq![target@], Seq::empty())),
            *final(self) == *final(builder),
    {
        let instruction = Instr {
            op: OpKind::H,
            qubits: vec![target],
            bits: Vec::new(),
            parameters: Vec::new(),
            modifier: None,
        };
        proof {
            lemma_gate_view(instruction@, seq![target@], Seq::empty());
        }
        self.append(&instruction);
        self
    }

    /// Records a controlled X of the target.
    pub fn cx(&mut self, control: Qubit<'id>, target: Qubit<'id>) -> (builder: &mut Self)
        requires
            control@ < old(self)@.num_qubits,
            target@ < old(self)@.num_qubits,
        ensures
            builder@ == old(self)@.with(gate(OpView::Cx, seq![control@, target@], Seq::empty())),
            *final(self) == *final(builder),
    {
        let instruction = Instr {
            op: OpKind::Cx,
            qubits: vec![control, target],
            bits: Vec::new(),
            parameters: Vec::new(),
            modifier: None,
        };
        proof {
            lemma_gate_view(instruction@, seq![control@, target@], Seq::empty());
        }
        self.append(&instruction);
        self
    }

    /// Records a rotation of the target around the X axis, by an angle that
    /// is a value or one of the formal parameters of the session.
    pub fn rx(&mut self, target: Qubit<'id>, angle: Parameter<'id>) -> (builder: &mut Self)
        requires
            target@ < old(self)@.num_qubits,
            !is_value_word(angle@) ==> formal_index(angle@) < old(self)@.num_formals,
        ensures
            builder@ == old(self)@.with(gate(OpView::Rx, seq![target@], seq![angle@])),
            *final(self) == *final(builder),
    {
        let instruction = Instr {
            op: OpKind::Rx,
            qubits: vec![target],
            bits: Vec::new(),
            parameters: vec![angle],
            modifier: None,
        };
        proof {
            lemma_gate_view(instruction@, seq![target@], seq![angle@]);
        }
        self.append(&instruction);
        self
    }

    /// Records a measurement of the target into the bit.
    pub fn measure(&mut self, target: Qubit<'id>, result: Bit<'id>) -> (builder: &mut Self)
        requires
            target@ < old(self)@.num_qubits,
            result@ < old(self)@.num_bits,
        ensures
            builder@ == old(self)@.with(
                InstrView {
                    op: OpView::Measure,
                    qubits: seq![target@],
                    bits: seq![result@],
                    parameters: Seq::empty(),
                    modifier: None,
                },
            ),
            *final(self) == *final(builder),
    {
        let instruction = Instr {
            op: OpKind::Measure,
            qubits: vec![target],
            bits: vec![result],
            parameters: Vec::new(),
            modifier: None,
        };
        proof {
            assert(instruction@.qubits =~= seq![target@]);
            assert(instruction@.bits =~= seq![result@]);
            assert(instruction@.parameters =~= Seq::empty());
        }
        self.append(&instruction);
        self
    }

    /// The instructions that the session has recorded. They are valid, and
    /// about the handles of the session.
    pub fn instructions(&self) -> (instructions: &InstrVec<'id>)
        ensures
            instructions@ == self@.instrs,
            self@.well_formed(),
    {
        proof {
            use_type_invariant(self);
        }
        &self.data
    }
}

impl QuantumCircuit {
    /// The counts are within the limits, the instructions valid and about
    /// the handles of the circuit, and the buffer holds their words.
    #[verifier::type_invariant]
    spec fn well_formed(&self) -> bool {
        &&& self@.well_formed()
        &&& self.data@ == encode_all(self.instrs@)
    }

    /// Opens a session on an empty circuit, hands its builder to `init`,
    /// and closes the session. Where `init` fails, so does this, with the
    /// error of `init`, and no circuit is made.
    pub fn new<F>(init: F) -> (circ: Result<Self, CircuitError>) where
        F: for<'id> FnOnce(&mut CircuitBuilder<'id>) -> Result<(), CircuitError>,

        requires
            forall|builder: &mut CircuitBuilder|
                builder@ == CircuitView::empty() ==> #[trigger] init.requires((builder,)),
        ensures
            match circ {
                Ok(c) => exists|builder: &mut CircuitBuilder|
                    builder@ == CircuitView::empty() && #[trigger] init.ensures(
                        (builder,),
                        Ok(()),
                    ) && c@ == final(builder)@,
                Err(e) => exists|builder: &mut CircuitBuilder|
                    builder@ == CircuitView::empty() && #[trigger] init.ensures(
                        (builder,),
                        Err(e),
                    ),
            },
    {
        QuantumCircuit::default().edit(init)
    }

    /// Opens a session on the circuit, hands its builder to `edit`, and
    /// closes the session. Where `edit` fails, so does this, with the error
    /// of `edit`, and the circuit is lost.
    pub fn edit<F>(self, edit: F) -> (circ: Result<Self, CircuitError>) where
        F: for<'id> FnOnce(&mut CircuitBuilder<'id>) -> Result<(), CircuitError>,

        requires
            forall|builder: &mut CircuitBuilder|
                builder@ == self@ ==> #[trigger] edit.requires((builder,)),
        ensures
            match circ {
                Ok(c) => exists|builder: &mut CircuitBuilder|
                    builder@ == self@ && #[trigger] edit.ensures((builder,), Ok(())) && c@
                        == final(builder)@,
                Err(e) => exists|builder: &mut CircuitBuilder|
                    builder@ == self@ && #[trigger] edit.ensures((builder,), Err(e)),
            },
    {
        let mut builder = CircuitBuilder::from_circ(self);
        let session = &mut builder;
        let outcome: Result<(), CircuitError> = edit(session);
        match outcome {
            Ok(done) => {
                assert(done == ());
                Ok(builder.into_circ())
            },
            Err(e) => Err(e),
        }
    }

    /// The number of qubits of the circuit, ancillas not included.
    pub fn num_qubit(&self) -> (n: usize)
        ensures
            n == self@.num_qubits,
    {
        self.num_qubits as usize
    }

    /// The number of formal parameters of the circuit.
    pub fn num_formals(&self) -> (n: usize)
        ensures
            n == self@.num_formals,
    {
        self.num_formals as usize
    }

    /// The number of bits of the circuit.
    pub fn num_bits(&self) -> (n: usize)
        ensures
            n == self@.num_bits,
    {
        self.num_bits as usize
    }

    /// The number of ancillas that the circuit sets aside.
    pub fn num_ancillas(&self) -> (n: usize)
        ensures
            n == self@.num_ancillas,
    {
        self.num_ancillas as usize
    }

    /// The number of qubits of the circuit, ancillas included.
    pub fn width(&self) -> (n: usize)
        ensures
            n == self@.width(),
            n <= Qubit::MAX,
    {
        proof {
            use_type_invariant(self);
        }
        self.num_qubits as usize + self.num_ancillas as usize
    }

    /// Whether the circuit has no formal parameter.
    pub fn is_concrete(&self) -> (concrete: bool)
        ensures
            concrete == self@.is_concrete(),
    {
        self.num_formals == 0
    }

    /// The circuit as a concrete circuit, where it has no formal
    /// parameter.
    pub fn as_concrete(self) -> (concrete: Option<ConcreteCircuit>)
        ensures
            concrete is Some <==> self@.is_concrete(),
            concrete matches Some(c) ==> c@ == self@,
    {
        if self.is_concrete() {
            Some(ConcreteCircuit { circ: self })
        } else {
            None
        }
    }

    /// Gives every formal parameter of the circuit a value: the formal
    /// parameter with index `i` gets the number with the bit pattern
    /// `values[i]`, or zero where that pattern is not that of a finite
    /// number. There must be as many values as formal parameters, or there
    /// is no result.
    pub fn bind(self, values: &[u32]) -> (bound: Option<ConcreteCircuit>)
        ensures
            bound is Some <==> values@.len() == self@.num_formals,
            bound matches Some(c) ==> c@ == self@.bound(values@),
    {
        proof {
            use_type_invariant(&self);
        }
        if values.len() != self.num_formals as usize {
            return None;
        }
        let ghost all = self.instrs@;
        let ghost mut done: int = 0;
        let mut walk = InstrIter::from_parts(self.data.as_slice(), self.instrs);
        let mut out: InstrVec<'static> = InstrVec::new();
        loop
            invariant
                0 <= done <= all.len(),
                all == self.instrs@,
                self@.well_formed(),
                values@.len() == self@.num_formals,
                walk@ == all.skip(done),
                out@.len() == done,
                forall|i: int| 0 <= i < done ==> (#[trigger] out@[i]) == all[i].bound(values@),
            ensures
                done == all.len(),
            decreases all.len() - done,
        {
            match walk.next() {
                Some(instr) => {
                    proof {
                        assert(instr@ == all[done]);
                        assert(all[done].in_range(
                            self@.num_qubits as int,
                            self@.num_bits as int,
                            self@.num_formals as int,
                        ));
                        lemma_bound_instr(
                            all[done],
                            values@,
                            self@.num_qubits as int,
                            self@.num_bits as int,
                            self@.num_formals as int,
                        );
                    }
                    let bound: Instr<'static> = bind_instr(instr, values);
                    out.append(&bound);
                    proof {
                        assert(all.skip(done).skip(1) =~= all.skip(done + 1));
                        done = done + 1;
                    }
                },
                None => {
                    break ;
                },
            }
        }
        let ghost instrs = out@;
        let data: Vec<Word> = out.take();
        proof {
            assert(instrs =~= self@.bound(values@).instrs);
            lemma_bound_circuit(self@, values@);
        }
        Some(
            ConcreteCircuit {
                circ: QuantumCircuit {
                    num_qubits: self.num_qubits,
                    num_bits: self.num_bits,
                    num_formals: 0,
                    num_ancillas: self.num_ancillas,
                    data,
                    instrs: Ghost(instrs),
                },
            },
        )
    }

    /// Gives every formal parameter of a copy of the circuit a value, as
    /// `bind` does.
    pub fn bind_copy(&self, values: &[u32]) -> (bound: Option<ConcreteCircuit>)
        ensures
            bound is Some <==> values@.len() == self@.num_formals,
            bound matches Some(c) ==> c@ == self@.bound(values@),
    {
        self.clone().bind(values)
    }

    /// The words of the instructions of the circuit, one instruction after
    /// another.
    pub fn data(&self) -> (words: &[Word])
        ensures
            words@ == encode_all(self@.instrs),
            self@.well_formed(),
    {
        proof {
            use_type_invariant(self);
        }
        self.data.as_slice()
    }

    /// The instructions of the circuit, in a buffer of their own.
    pub fn instructions(&self) -> (instructions: InstrVec<'static>)
        ensures
            instructions@ == self@.instrs,
    {
        proof {
            use_type_invariant(self);
        }
        InstrVec::from_parts(crate::storage::copy_slice(self.data.as_slice()), self.instrs)
    }
}

/// A circuit without formal parameters.
pub struct ConcreteCircuit {
    circ: QuantumCircuit,
}

impl View for ConcreteCircuit {
    type V = CircuitView;

    closed spec fn view(&self) -> CircuitView {
        self.circ@
    }
}

impl TryFrom<QuantumCircuit> for ConcreteCircuit {
    type Error = NotConcreteError;

    /// The circuit as a concrete circuit, or the error that says that it
    /// has formal parameters.
    fn try_from(circ: QuantumCircuit) -> (concrete: Result<Self, NotConcreteError>)
        ensures
            concrete is Ok <==> circ@.is_concrete(),
            concrete matches Ok(c) ==> c@ == circ@,
    {
        if circ.is_concrete() {
            Ok(ConcreteCircuit { circ })
        } else {
            Err(NotConcreteError)
        }
    }
}

impl vstd::std_specs::convert::TryFromSpecImpl<QuantumCircuit> for ConcreteCircuit {
    open spec fn obeys_try_from_spec() -> bool {
        true
    }

    open spec fn try_from_spec(circ: QuantumCircuit) -> Result<Self, NotConcreteError> {
        if circ@.is_concrete() {
            Ok(ConcreteCircuit::holding(circ))
        } else {
            Err(NotConcreteError)
        }
    }
}

impl ConcreteCircuit {
    /// The concrete circuit that holds the circuit.
    pub closed spec fn holding(circ: QuantumCircuit) -> Self {
        ConcreteCircuit { circ }
    }

    /// The circuit has no formal parameter.
    #[verifier::type_invariant]
    spec fn concrete(&self) -> bool {
        self.circ@.is_concrete()
    }

    /// The circuit, which has no formal parameter.
    pub fn circuit(&self) -> (circ: &QuantumCircuit)
        ensures
            circ@ == self@,
            circ@.is_concrete(),
    {
        proof {
            use_type_invariant(self);
        }
        &self.circ
    }

    /// Gives up the mark of concreteness for the circuit, which has no
    /// formal parameter.
    pub fn take(self) -> (circ: QuantumCircuit)
        ensures
            circ@ == self@,
            circ@.is_concrete(),
    {
        proof {
            use_type_invariant(&self);
        }
        self.circ
    }
}

impl ConcreteCircuit {
    /// Hands the instructions of the circuit, and its ancillas, to the
    /// architecture, and gives what its `transpile` gave: the circuit with
    /// the instructions that came back, or the error that came back.
    pub fn transpile<T: Architecture>(self, backend: &T) -> (transpiled: Result<
        TranspiledCircuit<T>,
        T::TranspileError,
    >)
        ensures
            exists|
                instructions: InstrVec<'static>,
                ancillas: Option<Ancillas<'static>>,
                outcome: Result<InstrVec<'static>, T::TranspileError>,
            |
                {
                    &&& instructions@ == self@.instrs
                    &&& ancillas is Some <==> self@.num_ancillas > 0
                    &&& ancillas matches Some(a) ==> a.start() == self@.num_qubits && a.end()
                        == self@.width()
                    &&& #[trigger] call_ensures(
                        T::transpile,
                        (backend, instructions, ancillas),
                        outcome,
                    )
                    &&& transpiled_as(self@, outcome, transpiled)
                },
    {
        let ancillas: Option<Ancillas<'static>> = Ancillas::new(&self.circ);
        let instructions: InstrVec<'static> = self.circ.instructions();
        let outcome = backend.transpile(instructions, ancillas);
        TranspiledCircuit::new(&self, outcome)
    }

    /// Hands a copy of the circuit to the architecture, as `transpile`
    /// does.
    pub fn transpile_copy<T: Architecture>(&self, backend: &T) -> (transpiled: Result<
        TranspiledCircuit<T>,
        T::TranspileError,
    >)
        ensures
            exists|
                instructions: InstrVec<'static>,
                ancillas: Option<Ancillas<'static>>,
                outcome: Result<InstrVec<'static>, T::TranspileError>,
            |
                {
                    &&& instructions@ == self@.instrs
                    &&& ancillas is Some <==> self@.num_ancillas > 0
                    &&& ancillas matches Some(a) ==> a.start() == self@.num_qubits && a.end()
                        == self@.width()
                    &&& #[trigger] call_ensures(
                        T::transpile,
                        (backend, instructions, ancillas),
                        outcome,
                    )
                    &&& transpiled_as(self@, outcome, transpiled)
                },
    {
        self.clone().transpile(backend)
    }
}

/// What becomes of a concrete circuit once an architecture has answered
/// with the given instructions.
pub open spec fn transpiled_view(circuit: CircuitView, instrs: Seq<InstrView>) -> CircuitView {
    CircuitView { instrs, ..circuit }
}

/// Whether `transpiled` is what becomes of a concrete circuit once an
/// architecture has answered with `outcome`: the circuit with the
/// instructions that the architecture gave, or the error that it gave.
pub open spec fn transpiled_as<T: Architecture, E>(
    circuit: CircuitView,
    outcome: Result<InstrVec<'static>, E>,
    transpiled: Result<TranspiledCircuit<T>, E>,
) -> bool {
    match outcome {
        Ok(instructions) => transpiled matches Ok(t) && t@ == transpiled_view(
            circuit,
            instructions@,
        ),
        Err(e) => transpiled matches Err(f) && f == e,
    }
}

/// A circuit that an architecture has rewritten for itself. Its
/// instructions are those that the architecture gave: they may speak of the
/// ancillas, and of whatever else the architecture saw fit.
pub struct TranspiledCircuit<T: Architecture> {
    _phantom: PhantomData<T>,
    num_qubits: u32,
    num_bits: u32,
    num_ancillas: u32,
    instructions: InstrVec<'static>,
}

impl<T: Architecture> View for TranspiledCircuit<T> {
    type V = CircuitView;

    closed spec fn view(&self) -> CircuitView {
        CircuitView {
            num_qubits: self.num_qubits,
            num_bits: self.num_bits,
            num_formals: 0,
            num_ancillas: self.num_ancillas,
            instrs: self.instructions@,
        }
    }
}

impl<T: Architecture> TranspiledCircuit<T> {
    /// What becomes of a concrete circuit once an architecture has
    /// answered: the circuit with the instructions that the architecture
    /// gave, or the error that it gave.
    pub fn new<E>(circ: &ConcreteCircuit, outcome: Result<InstrVec<'static>, E>) -> (transpiled:
        Result<Self, E>)
        ensures
            transpiled_as(circ@, outcome, transpiled),
    {
        proof {
            use_type_invariant(circ);
        }
        match outcome {
            Ok(instructions) => Ok(
                TranspiledCircuit {
                    _phantom: PhantomData,
                    num_qubits: circ.circ.num_qubits,
                    num_bits: circ.circ.num_bits,
                    num_ancillas: circ.circ.num_ancillas,
                    instructions,
                },
            ),
            Err(e) => Err(e),
        }
    }

    /// The number of qubits of the circuit, ancillas not included.
    pub fn num_qubit(&self) -> (n: usize)
        ensures
            n == self@.num_qubits,
    {
        self.num_qubits as usize
    }

    /// The number of bits of the circuit.
    pub fn num_bits(&self) -> (n: usize)
        ensures
            n == self@.num_bits,
    {
        self.num_bits as usize
    }

    /// The number of ancillas of the circuit.
    pub fn num_ancillas(&self) -> (n: usize)
        ensures
            n == self@.num_ancillas,
    {
        self.num_ancillas as usize
    }

    /// The instructions of the circuit.
    pub fn instructions(&self) -> (instructions: &InstrVec<'static>)
        ensures
            instructions@ == self@.instrs,
    {
        &self.instructions
    }

    /// Gives up the circuit for its instructions.
    pub fn take(self) -> (instructions: InstrVec<'static>)
        ensures
            instructions@ == self@.instrs,
    {
        self.instructions
    }
}

impl Default for ConcreteCircuit {
    fn default() -> (circ: Self)
        ensures
            circ@ == CircuitView::empty(),
    {
        ConcreteCircuit { circ: QuantumCircuit::default() }
    }
}

impl Clone for ConcreteCircuit {
    fn clone(&self) -> (copy: Self)
        ensures
            copy@ == self@,
    {
        proof {
            use_type_invariant(self);
        }
        ConcreteCircuit { circ: self.circ.clone() }
    }
}

impl Default for QuantumCircuit {
    fn default() -> (circ: Self)
        ensures
            circ@ == CircuitView::empty(),
    {
        QuantumCircuit {
            num_qubits: 0,
            num_bits: 0,
            num_formals: 0,
            num_ancillas: 0,
            data: Vec::new(),
            instrs: Ghost(Seq::empty()),
        }
    }
}

impl Clone for QuantumCircuit {
    fn clone(&self) -> (copy: Self)
        ensures
            copy@ == self@,
    {
        proof {
            use_type_invariant(self);
        }
        QuantumCircuit {
            num_qubits: self.num_qubits,
            num_bits: self.num_bits,
            num_formals: self.num_formals,
            num_ancillas: self.num_ancillas,
            data: crate::storage::copy_slice(self.data.as_slice()),
            instrs: self.instrs,
        }
    }
}

/// Gives the formal parameters that the instruction refers to their values.
fn bind_instr<'id>(instr: Instr<'id>, values: &[u32]) -> (bound: Instr<'id>)
    requires
        formals_below(instr@.parameters, values@.len() as int),
    ensures
        bound@ == instr@.bound(values@),
{
    let mut parameters: Vec<Parameter<'id>> = Vec::with_capacity(instr.parameters.len());
    let mut i: usize = 0;
    while i < instr.parameters.len()
        invariant
            i <= instr.parameters@.len(),
            parameters@.len() == i,
            formals_below(instr@.parameters, values@.len() as int),
            forall|k: int|
                0 <= k < i ==> (#[trigger] parameters@[k])@ == bind_word(
                    instr@.parameters[k],
                    values@,
                ),
        decreases instr.parameters@.len() - i,
    {
        let parameter: Parameter<'id> = instr.parameters[i];
        assert(parameter@ == instr@.parameters[i as int]);
        let bound: Parameter<'id> = match parameter.as_formal() {
            Some(formal) => Parameter::from_value_bits(values[formal.id() as usize]),
            None => parameter,
        };
        parameters.push(bound);
        i += 1;
    }
    let bound = Instr {
        op: instr.op,
        qubits: instr.qubits,
        bits: instr.bits,
        parameters,
        modifier: instr.modifier,
    };
    assert(bound@.parameters =~= instr@.bound(values@).parameters);
    bound
}

/// An instruction without bits or modifier is what `gate` makes of its
/// operation, its qubits and its parameters.
proof fn lemma_gate_view(instr: InstrView, qubits: Seq<Word>, parameters: Seq<Word>)
    requires
        instr.qubits.len() == qubits.len(),
        forall|i: int| 0 <= i < qubits.len() ==> instr.qubits[i] == qubits[i],
        instr.parameters.len() == parameters.len(),
        forall|i: int| 0 <= i < parameters.len() ==> instr.parameters[i] == parameters[i],
        instr.bits.len() == 0,
        instr.modifier is None,
    ensures
        instr == gate(instr.op, qubits, parameters),
{
    assert(instr.qubits =~= qubits);
    assert(instr.parameters =~= parameters);
    assert(instr.bits =~= Seq::empty());
}

/// Whether every value of the slice is stored as a word below the bound.
fn below<T: Transparent>(values: &[T], bound: u32) -> (all: bool)
    ensures
        all == all_below(words_of(values@), bound as int),
{
    let mut i: usize = 0;
    while i < values.len()
        invariant
            i <= values@.len(),
            forall|k: int| 0 <= k < i ==> (#[trigger] words_of(values@)[k]) < bound,
        decreases values@.len() - i,
    {
        if values[i].to_word() >= bound {
            assert(words_of(values@)[i as int] >= bound);
            return false;
        }
        i += 1;
    }
    true
}

/// Whether every reference to a formal parameter among the parameters is to
/// one with an index below the bound.
fn formals_in_range<'id>(parameters: &[Parameter<'id>], bound: u32) -> (all: bool)
    ensures
        all == formals_below(words_of(parameters@), bound as int),
{
    let mut i: usize = 0;
    while i < parameters.len()
        invariant
            i <= parameters@.len(),
            forall|k: int|
                0 <= k < i && !is_value_word(#[trigger] words_of(parameters@)[k]) ==> formal_index(
                    words_of(parameters@)[k],
                ) < bound,
        decreases parameters@.len() - i,
    {
        match parameters[i].as_formal() {
            Some(formal) => {
                if formal.id() >= bound {
                    assert(!is_value_word(words_of(parameters@)[i as int]));
                    return false;
                }
            },
            None => {},
        }
        i += 1;
    }
    true
}

/// Whether the modifier speaks of bits below the bound only.
fn modifier_in_range<'id>(modifier: &Modifier<'id>, num_bits: u32) -> (all: bool)
    ensures
        all == modifier@.in_range(num_bits as int),
{
    match modifier {
        Modifier::IfBit(bit) => bit.id() < num_bits,
        Modifier::WhileBit(bit) => bit.id() < num_bits,
        Modifier::IfCompute(compute) => below(compute.bits.as_slice(), num_bits),
        Modifier::WhileCompute(compute) => below(compute.bits.as_slice(), num_bits),
        Modifier::ForCompute(compute) => below(compute.bits.as_slice(), num_bits),
        Modifier::ForConst(_) => true,
    }
}

/// Whether every handle of the instruction is one of a circuit with as many
/// qubits, bits and formal parameters as given.
fn in_range<'id>(
    instruction: &Instr<'id>,
    num_qubits: u32,
    num_bits: u32,
    num_formals: u32,
) -> (all: bool)
    ensures
        all == instruction@.in_range(num_qubits as int, num_bits as int, num_formals as int),
{
    let op: bool = match &instruction.op {
        OpKind::Compute(compute) => below(compute.bits.as_slice(), num_bits),
        _ => true,
    };
    let modifier: bool = match &instruction.modifier {
        Some(m) => modifier_in_range(m, num_bits),
        None => true,
    };
    op && modifier && below(instruction.qubits.as_slice(), num_qubits) && below(
        instruction.bits.as_slice(),
        num_bits,
    ) && formals_in_range(instruction.parameters.as_slice(), num_formals)
}

} // verus!
