//! Symbolic handles and contiguous ranges of them.
//!
//! A handle names one qubit, one classical bit or one formal parameter of
//! the circuit whose construction session handed it out. It is an index
//! together with the brand of that session.

use crate::circuit::{CircuitAllocOverflow, CircuitBuilder, QuantumCircuit};
use crate::model::SymbolKind;
use crate::genericity::Id;
use crate::storage::{Transparent, Word};
use std::marker::PhantomData;
use std::ops::Range;
use vstd::prelude::*;

pub use crate::tuple::SymbolTuple;

verus! {

/// What the three kinds of handles have in common.
pub trait Symbol<'id>: Sized + Copy {
    /// The index of the handle within its circuit.
    spec fn index(&self) -> u32;

    /// The kind of the handle.
    spec fn kind() -> SymbolKind;

    /// The index of the handle within its circuit.
    fn id(self) -> (n: u32)
        ensures
            n == self.index(),
    ;

    /// Makes the handle with index `n`, without asking whether the circuit
    /// has handed that index out.
    fn new_unchecked(n: u32) -> (symbol: Self)
        ensures
            symbol.index() == n,
    ;

    /// Takes the next `n` indices of this kind from the session, all of
    /// them or none, and gives the first of them.
    fn reserve(builder: &mut CircuitBuilder<'id>, n: usize) -> (first: Result<
        u32,
        CircuitAllocOverflow,
    >)
        ensures
            first is Ok <==> old(builder)@.has_room(Self::kind(), n as int),
            first matches Ok(start) ==> start == old(builder)@.count(Self::kind()),
            final(builder)@ == old(builder)@.asked_for(Self::kind(), n as int),
    ;
}

/// A handle on a qubit.
#[derive(Clone, Copy, PartialOrd, Ord, Hash, Debug)]
pub struct Qubit<'id> {
    n: u32,
    _id: Id<'id>,
}

/// A handle on a formal parameter.
#[derive(Clone, Copy, PartialOrd, Ord, Hash, Debug)]
pub struct FormalParameter<'id> {
    n: u32,
    _id: Id<'id>,
}

/// A handle on a classical bit.
#[derive(Clone, Copy, PartialOrd, Ord, Hash, Debug)]
pub struct Bit<'id> {
    n: u32,
    _id: Id<'id>,
}

impl<'id> Qubit<'id> {
    /// The maximum number of qubits, ancillas included, in a single circuit.
    pub const MAX: u32 = 0xFFFF_FFFE;

    /// Makes the handle on the qubit with index `n`.
    pub fn new_unchecked(n: u32) -> (qubit: Self)
        ensures
            qubit@ == n,
    {
        Qubit { n, _id: Id::new() }
    }

    /// The index of the qubit.
    pub fn id(self) -> (n: u32)
        ensures
            n == self@,
    {
        self.n
    }
}

impl<'id> FormalParameter<'id> {
    /// The handle on the formal parameter with the given index.
    pub closed spec fn with_index(n: u32) -> Self {
        FormalParameter { n, _id: Id::brand() }
    }

    /// The maximum number of formal parameters in a single circuit.
    pub const MAX: u32 = 0xFFFF_FFFE;

    /// Makes the handle on the formal parameter with index `n`.
    pub fn new_unchecked(n: u32) -> (formal: Self)
        ensures
            formal@ == n,
            formal == Self::with_index(n),
    {
        FormalParameter { n, _id: Id::new() }
    }

    /// The index of the formal parameter.
    pub fn id(self) -> (n: u32)
        ensures
            n == self@,
    {
        self.n
    }
}

impl<'id> Bit<'id> {
    /// The maximum number of classical bits in a single circuit.
    pub const MAX: u32 = 0x0100_0000;

    /// Makes the handle on the classical bit with index `n`.
    pub fn new_unchecked(n: u32) -> (bit: Self)
        ensures
            bit@ == n,
    {
        Bit { n, _id: Id::new() }
    }

    /// The index of the classical bit.
    pub fn id(self) -> (n: u32)
        ensures
            n == self@,
    {
        self.n
    }
}

impl<'id> View for Qubit<'id> {
    type V = u32;

    closed spec fn view(&self) -> u32 {
        self.n
    }
}

impl<'id> View for FormalParameter<'id> {
    type V = u32;

    closed spec fn view(&self) -> u32 {
        self.n
    }
}

impl<'id> View for Bit<'id> {
    type V = u32;

    closed spec fn view(&self) -> u32 {
        self.n
    }
}

impl<'id> PartialEq for Qubit<'id> {
    fn eq(&self, other: &Self) -> (r: bool) {
        self.n == other.n
    }
}

impl<'id> Eq for Qubit<'id> {}

impl<'id> vstd::std_specs::cmp::PartialEqSpecImpl for Qubit<'id> {
    open spec fn obeys_eq_spec() -> bool {
        true
    }

    open spec fn eq_spec(&self, other: &Self) -> bool {
        self@ == other@
    }
}

impl<'id> PartialEq for FormalParameter<'id> {
    fn eq(&self, other: &Self) -> (r: bool) {
        self.n == other.n
    }
}

impl<'id> Eq for FormalParameter<'id> {}

impl<'id> vstd::std_specs::cmp::PartialEqSpecImpl for FormalParameter<'id> {
    open spec fn obeys_eq_spec() -> bool {
        true
    }

    open spec fn eq_spec(&self, other: &Self) -> bool {
        self@ == other@
    }
}

impl<'id> PartialEq for Bit<'id> {
    fn eq(&self, other: &Self) -> (r: bool) {
        self.n == other.n
    }
}

impl<'id> Eq for Bit<'id> {}

impl<'id> vstd::std_specs::cmp::PartialEqSpecImpl for Bit<'id> {
    open spec fn obeys_eq_spec() -> bool {
        true
    }

    open spec fn eq_spec(&self, other: &Self) -> bool {
        self@ == other@
    }
}

impl<'id> Symbol<'id> for Qubit<'id> {
    open spec fn index(&self) -> u32 {
        self@
    }

    open spec fn kind() -> SymbolKind {
        SymbolKind::Qubit
    }

    fn id(self) -> (n: u32) {
        self.n
    }

    fn new_unchecked(n: u32) -> (symbol: Self) {
        Qubit { n, _id: Id::new() }
    }

    fn reserve(builder: &mut CircuitBuilder<'id>, n: usize) -> (first: Result<
        u32,
        CircuitAllocOverflow,
    >) {
        builder.reserve_qubits(n)
    }
}

impl<'id> Symbol<'id> for FormalParameter<'id> {
    open spec fn index(&self) -> u32 {
        self@
    }

    open spec fn kind() -> SymbolKind {
        SymbolKind::FormalParameter
    }

    fn id(self) -> (n: u32) {
        self.n
    }

    fn new_unchecked(n: u32) -> (symbol: Self) {
        FormalParameter { n, _id: Id::new() }
    }

    fn reserve(builder: &mut CircuitBuilder<'id>, n: usize) -> (first: Result<
        u32,
        CircuitAllocOverflow,
    >) {
        builder.reserve_formals(n)
    }
}

impl<'id> Symbol<'id> for Bit<'id> {
    open spec fn index(&self) -> u32 {
        self@
    }

    open spec fn kind() -> SymbolKind {
        SymbolKind::Bit
    }

    fn id(self) -> (n: u32) {
        self.n
    }

    fn new_unchecked(n: u32) -> (symbol: Self) {
        Bit { n, _id: Id::new() }
    }

    fn reserve(builder: &mut CircuitBuilder<'id>, n: usize) -> (first: Result<
        u32,
        CircuitAllocOverflow,
    >) {
        builder.reserve_bits(n)
    }
}

impl<'id> Transparent for Qubit<'id> {
    open spec fn word(&self) -> Word {
        self@
    }

    fn to_word(&self) -> (w: Word) {
        self.n
    }

    fn from_word(w: Word) -> (value: Self) {
        Qubit { n: w, _id: Id::new() }
    }
}

impl<'id> Transparent for FormalParameter<'id> {
    open spec fn word(&self) -> Word {
        self@
    }

    fn to_word(&self) -> (w: Word) {
        self.n
    }

    fn from_word(w: Word) -> (value: Self) {
        FormalParameter { n: w, _id: Id::new() }
    }
}

impl<'id> Transparent for Bit<'id> {
    open spec fn word(&self) -> Word {
        self@
    }

    fn to_word(&self) -> (w: Word) {
        self.n
    }

    fn from_word(w: Word) -> (value: Self) {
        Bit { n: w, _id: Id::new() }
    }
}

/// A contiguous block of handles of one kind: those with the indices from
/// `start()` up to, and without, `end()`.
#[derive(Debug)]
pub struct List<T> {
    first: u32,
    last: u32,
    _phantom: PhantomData<T>,
}

impl<T> List<T> {
    /// The list does not end before it starts.
    #[verifier::type_invariant]
    spec fn ordered(&self) -> bool {
        self.first <= self.last
    }

    /// The index of the first handle of the list.
    pub closed spec fn start(&self) -> u32 {
        self.first
    }

    /// The index after that of the last handle of the list.
    pub closed spec fn end(&self) -> u32 {
        self.last
    }

    /// The number of handles of the list.
    pub open spec fn count(&self) -> int {
        self.end() - self.start()
    }

    /// The list of the handles with the indices of `range`. An empty range
    /// gives an empty list that starts where the range does.
    pub(crate) fn from_range(range: Range<u32>) -> (list: Self)
        ensures
            list.start() == range.start,
            list.end() == if range.start <= range.end {
                range.end
            } else {
                range.start
            },
    {
        let first: u32 = range.start;
        let last: u32 = if range.start <= range.end {
            range.end
        } else {
            range.start
        };
        List { first, last, _phantom: PhantomData }
    }

    /// The indices of the handles of the list.
    pub fn as_range(&self) -> (range: Range<u32>)
        ensures
            range.start == self.start(),
            range.end == self.end(),
            range.start <= range.end,
    {
        proof {
            use_type_invariant(self);
        }
        self.first..self.last
    }

    /// The number of handles of the list.
    pub fn len(&self) -> (n: usize)
        ensures
            n == self.count(),
            0 <= self.count() <= u32::MAX,
    {
        proof {
            use_type_invariant(self);
        }
        (self.last - self.first) as usize
    }

    /// Whether the list holds no handle.
    pub fn is_empty(&self) -> (empty: bool)
        ensures
            empty == (self.count() == 0),
    {
        self.len() == 0
    }
}

impl<'id, T: Symbol<'id>> List<T> {
    /// The list of the handles from `start` to `end`, both included. There
    /// is none where `end` comes before `start`, nor where the index after
    /// `end` has no representation.
    pub fn new(start: T, end: T) -> (list: Option<Self>)
        ensures
            list is Some <==> start.index() <= end.index() < u32::MAX,
            list matches Some(l) ==> l.start() == start.index() && l.end() == end.index() + 1,
    {
        let first: u32 = start.id();
        let last: u32 = end.id();
        if first <= last && last < u32::MAX {
            Some(List { first, last: last + 1, _phantom: PhantomData })
        } else {
            None
        }
    }

    /// The `n`th handle of the list, or `None` where it has no such handle.
    pub fn get(&self, n: usize) -> (symbol: Option<T>)
        ensures
            symbol is Some <==> n < self.count(),
            symbol matches Some(s) ==> s.index() == self.start() + n,
    {
        proof {
            use_type_invariant(self);
        }
        if n < self.len() {
            Some(T::new_unchecked(n as u32 + self.first))
        } else {
            None
        }
    }

    /// Whether the handle is one of the list.
    pub fn contains(&self, symbol: T) -> (found: bool)
        ensures
            found == (self.start() <= symbol.index() < self.end()),
    {
        let n: u32 = symbol.id();
        self.first <= n && n < self.last
    }

    /// Walks the handles of the list, from the first to the last.
    pub fn iter(&self) -> (walk: SymbolIter<T>)
        ensures
            walk.rest().start() == self.start(),
            walk.rest().end() == self.end(),
    {
        proof {
            use_type_invariant(self);
        }
        SymbolIter { inner: List { first: self.first, last: self.last, _phantom: PhantomData } }
    }
}

impl<T> Clone for List<T> {
    fn clone(&self) -> (copy: Self)
        ensures
            copy.start() == self.start(),
            copy.end() == self.end(),
    {
        proof {
            use_type_invariant(self);
        }
        List { first: self.first, last: self.last, _phantom: PhantomData }
    }
}

/// A contiguous block of qubits.
pub type QubitList<'id> = List<Qubit<'id>>;

/// A contiguous block of classical bits.
pub type BitList<'id> = List<Bit<'id>>;

/// A contiguous block of formal parameters.
pub type FormalParameterList<'id> = List<FormalParameter<'id>>;

/// A walk over the handles of a list.
#[derive(Debug)]
pub struct SymbolIter<T> {
    inner: List<T>,
}

impl<T> SymbolIter<T> {
    /// The handles that the walk has not reached yet.
    pub closed spec fn rest(&self) -> List<T> {
        self.inner
    }
}

impl<'id, T: Symbol<'id>> SymbolIter<T> {
    /// The next handle of the walk, or `None` where it is over.
    pub fn next(&mut self) -> (symbol: Option<T>)
        ensures
            symbol is Some <==> old(self).rest().count() > 0,
            symbol matches Some(s) ==> s.index() == old(self).rest().start(),
            final(self).rest().end() == old(self).rest().end(),
            final(self).rest().start() == if symbol is Some {
                old(self).rest().start() + 1
            } else {
                old(self).rest().start() as int
            },
    {
        proof {
            use_type_invariant(&self.inner);
        }
        let first: u32 = self.inner.first;
        let last: u32 = self.inner.last;
        if first < last {
            self.inner = List { first: first + 1, last, _phantom: PhantomData };
            Some(T::new_unchecked(first))
        } else {
            None
        }
    }
}

/// The ancillas of a circuit: the qubits that it sets aside above its own,
/// for whoever runs it.
#[derive(Debug)]
pub struct Ancillas<'id> {
    list: List<Qubit<'id>>,
}

impl<'id> Ancillas<'id> {
    /// The index of the first ancilla.
    pub closed spec fn start(&self) -> u32 {
        self.list.start()
    }

    /// The index after that of the last ancilla.
    pub closed spec fn end(&self) -> u32 {
        self.list.end()
    }

    /// The ancillas of a circuit: the qubits with the indices from the
    /// number of its qubits up to, and without, its width. There are none
    /// where the circuit sets no ancilla aside.
    pub fn new(circ: &QuantumCircuit) -> (ancillas: Option<Self>)
        ensures
            ancillas is Some <==> circ@.num_ancillas > 0,
            ancillas matches Some(a) ==> a.start() == circ@.num_qubits && a.end() == circ@.width(),
    {
        if circ.num_ancillas() > 0 {
            let start: u32 = circ.num_qubit() as u32;
            let end: u32 = circ.width() as u32;
            Some(Ancillas { list: List::from_range(start..end) })
        } else {
            None
        }
    }

    /// The number of ancillas.
    pub fn count(&self) -> (n: usize)
        ensures
            n == self.end() - self.start(),
    {
        self.list.len()
    }

    /// The `n`th ancilla, or `None` where there is no such ancilla.
    pub fn get(&self, n: usize) -> (qubit: Option<Qubit<'id>>)
        ensures
            qubit is Some <==> n < self.end() - self.start(),
            qubit matches Some(q) ==> q@ == self.start() + n,
    {
        self.list.get(n)
    }

    /// Whether the qubit is one of the ancillas.
    pub fn contains(&self, qubit: Qubit<'id>) -> (found: bool)
        ensures
            found == (self.start() <= qubit@ < self.end()),
    {
        self.list.contains(qubit)
    }

    /// Walks the ancillas, from the first to the last.
    pub fn iter(&self) -> (walk: AncillasIter<'id>)
        ensures
            walk.rest().start() == self.start(),
            walk.rest().end() == self.end(),
    {
        AncillasIter { ancillas: self.clone() }
    }
}

impl<'id> Clone for Ancillas<'id> {
    fn clone(&self) -> (copy: Self)
        ensures
            copy.start() == self.start(),
            copy.end() == self.end(),
    {
        Ancillas { list: self.list.clone() }
    }
}

/// A walk over the ancillas of a circuit.
#[derive(Debug)]
pub struct AncillasIter<'id> {
    ancillas: Ancillas<'id>,
}

impl<'id> AncillasIter<'id> {
    /// The ancillas that the walk has not reached yet.
    pub closed spec fn rest(&self) -> Ancillas<'id> {
        self.ancillas
    }

    /// The next ancilla of the walk, or `None` where it is over.
    pub fn next(&mut self) -> (qubit: Option<Qubit<'id>>)
        ensures
            qubit is Some <==> old(self).rest().start() < old(self).rest().end(),
            qubit matches Some(q) ==> q@ == old(self).rest().start(),
            final(self).rest().end() == old(self).rest().end(),
            final(self).rest().start() == if qubit is Some {
                old(self).rest().start() + 1
            } else {
                old(self).rest().start() as int
            },
    {
        let range = self.ancillas.list.as_range();
        if range.start < range.end {
            self.ancillas = Ancillas { list: List::from_range(range.start + 1..range.end) };
            Some(Qubit::new_unchecked(range.start))
        } else {
            None
        }
    }
}

} // verus!
