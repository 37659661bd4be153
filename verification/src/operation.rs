//! The catalog of operations.
//!
//! Every kind of operation has a tag that identifies it in the instruction
//! stream, the number of qubits, bits and parameters that it takes, each a
//! definite count or variadic, and a label. New kinds may be added; the tag
//! of a kind never changes and is never given to another kind.

use crate::bitset::BitSet;
use crate::instruction::{Compute, ComputeView, InstrFlags};
use crate::storage;
use crate::storage::Word;
use crate::wire::{decode_op, encode_op, lemma_header_fields, next_word, DecodeError};
use vstd::prelude::*;

verus! {

/// The number of operands of one class that an operation takes: a definite
/// count, or any number.
#[derive(Copy, Clone, PartialEq, Eq, PartialOrd, Ord, Hash, Debug, Structural)]
pub struct Arity(u32);

impl View for Arity {
    type V = Option<u32>;

    /// The count, or `None` for any number.
    closed spec fn view(&self) -> Option<u32> {
        if self.0 == u32::MAX {
            None
        } else {
            Some(self.0)
        }
    }
}

impl Arity {
    /// The arity of exactly `n` operands. There is none for `u32::MAX`.
    pub fn new(n: u32) -> (arity: Option<Self>)
        ensures
            arity is Some <==> n != u32::MAX,
            arity matches Some(a) ==> a@ == Some(n),
    {
        if n != u32::MAX {
            Some(Arity(n))
        } else {
            None
        }
    }

    /// The arity of any number of operands.
    pub fn variadic() -> (arity: Self)
        ensures
            arity@ is None,
    {
        Arity(u32::MAX)
    }

    /// Whether any number of operands is taken.
    pub fn is_variadic(self) -> (variadic: bool)
        ensures
            variadic == (self@ is None),
    {
        self.0 == u32::MAX
    }

    /// Whether a definite count of operands is taken.
    pub fn is_definite(self) -> (definite: bool)
        ensures
            definite == (self@ is Some),
    {
        !self.is_variadic()
    }

    /// The count of operands, where it is definite.
    pub fn get(self) -> (count: Option<u32>)
        ensures
            count == self@,
    {
        if self.is_definite() {
            Some(self.0)
        } else {
            None
        }
    }
}

impl From<u32> for Arity {
    /// The arity that `n` stands for: `u32::MAX` for any number of
    /// operands, every other number for that count.
    fn from(n: u32) -> (arity: Self)
        ensures
            arity@ == if n == u32::MAX {
                None
            } else {
                Some(n)
            },
    {
        Arity(n)
    }
}

impl vstd::std_specs::convert::FromSpecImpl<u32> for Arity {
    open spec fn obeys_from_spec() -> bool {
        true
    }

    open spec fn from_spec(n: u32) -> Self {
        Arity::standing_for(n)
    }
}

impl Arity {
    /// The arity that `n` stands for.
    pub closed spec fn standing_for(n: u32) -> Self {
        Arity(n)
    }
}

impl Default for Arity {
    fn default() -> (arity: Self)
        ensures
            arity@ == Some(0u32),
    {
        Arity(0)
    }
}

/// The tag of `Nop`.
pub const TAG_NOP: u16 = 0;

/// The tag of `H`.
pub const TAG_H: u16 = 1;

/// The tag of `X`.
pub const TAG_X: u16 = 2;

/// The tag of `Y`.
pub const TAG_Y: u16 = 3;

/// The tag of `Z`.
pub const TAG_Z: u16 = 4;

/// The tag of `Rx`.
pub const TAG_RX: u16 = 5;

/// The tag of `Ry`.
pub const TAG_RY: u16 = 6;

/// The tag of `Rz`.
pub const TAG_RZ: u16 = 7;

/// The tag of `Cx`.
pub const TAG_CX: u16 = 8;

/// The tag of `Ccx`.
pub const TAG_CCX: u16 = 9;

/// The tag of `Measure`.
pub const TAG_MEASURE: u16 = 10;

/// The tag of `Barrier`.
pub const TAG_BARRIER: u16 = 11;

/// The tag of `Compute`.
pub const TAG_COMPUTE: u16 = 100;

/// A kind of operation.
#[non_exhaustive]
#[derive(PartialEq, Eq, Debug)]
pub enum OpKind<'id> {
    /// No-operation: do nothing.
    Nop,
    /// Hadamard transform.
    H,
    /// Pauli X.
    X,
    /// Pauli Y.
    Y,
    /// Pauli Z.
    Z,
    /// Rotation around the X axis, by the angle that is its parameter.
    Rx,
    /// Rotation around the Y axis, by the angle that is its parameter.
    Ry,
    /// Rotation around the Z axis, by the angle that is its parameter.
    Rz,
    /// Controlled X: the control, then the target.
    Cx,
    /// Doubly controlled X: the two controls, then the target.
    Ccx,
    /// Measurement of a qubit into a classical bit.
    Measure,
    /// A barrier across any number of qubits.
    Barrier,
    /// Compute node, performs an arbitrary classical compute on bits,
    /// as defined by a custom function.
    Compute(Compute<'id, BitSet>),
}

/// What a kind of operation is, apart from its brand.
pub enum OpView {
    Nop,
    H,
    X,
    Y,
    Z,
    Rx,
    Ry,
    Rz,
    Cx,
    Ccx,
    Measure,
    Barrier,
    Compute(ComputeView),
}

impl OpView {
    /// The tag that identifies the kind in the instruction stream.
    pub open spec fn tag(self) -> u16 {
        match self {
            OpView::Nop => TAG_NOP,
            OpView::H => TAG_H,
            OpView::X => TAG_X,
            OpView::Y => TAG_Y,
            OpView::Z => TAG_Z,
            OpView::Rx => TAG_RX,
            OpView::Ry => TAG_RY,
            OpView::Rz => TAG_RZ,
            OpView::Cx => TAG_CX,
            OpView::Ccx => TAG_CCX,
            OpView::Measure => TAG_MEASURE,
            OpView::Barrier => TAG_BARRIER,
            OpView::Compute(_) => TAG_COMPUTE,
        }
    }

    /// The kind without payload that the tag identifies, if any.
    pub open spec fn plain(tag: u16) -> Option<OpView> {
        if tag == TAG_NOP {
            Some(OpView::Nop)
        } else if tag == TAG_H {
            Some(OpView::H)
        } else if tag == TAG_X {
            Some(OpView::X)
        } else if tag == TAG_Y {
            Some(OpView::Y)
        } else if tag == TAG_Z {
            Some(OpView::Z)
        } else if tag == TAG_RX {
            Some(OpView::Rx)
        } else if tag == TAG_RY {
            Some(OpView::Ry)
        } else if tag == TAG_RZ {
            Some(OpView::Rz)
        } else if tag == TAG_CX {
            Some(OpView::Cx)
        } else if tag == TAG_CCX {
            Some(OpView::Ccx)
        } else if tag == TAG_MEASURE {
            Some(OpView::Measure)
        } else if tag == TAG_BARRIER {
            Some(OpView::Barrier)
        } else {
            None
        }
    }

    /// The number of qubits that the kind takes; `None` for any number.
    pub open spec fn qubits(self) -> Option<u32> {
        match self {
            OpView::Nop | OpView::Compute(_) => Some(0u32),
            OpView::Cx => Some(2u32),
            OpView::Ccx => Some(3u32),
            OpView::Barrier => None,
            _ => Some(1u32),
        }
    }

    /// The number of bits that the kind takes; `None` for any number.
    pub open spec fn bits(self) -> Option<u32> {
        match self {
            OpView::Measure => Some(1u32),
            OpView::Compute(_) => None,
            _ => Some(0u32),
        }
    }

    /// The number of parameters that the kind takes; `None` for any number.
    pub open spec fn parameters(self) -> Option<u32> {
        match self {
            OpView::Rx | OpView::Ry | OpView::Rz => Some(1u32),
            _ => Some(0u32),
        }
    }

    /// Whether the kind is a unitary transformation.
    pub open spec fn is_unitary(self) -> bool {
        match self {
            OpView::Nop | OpView::Measure | OpView::Barrier | OpView::Compute(_) => false,
            _ => true,
        }
    }

    /// The label of the kind.
    pub open spec fn label(self) -> Seq<char> {
        match self {
            OpView::Nop => "nop"@,
            OpView::H => "h"@,
            OpView::X => "x"@,
            OpView::Y => "y"@,
            OpView::Z => "z"@,
            OpView::Rx => "rx"@,
            OpView::Ry => "ry"@,
            OpView::Rz => "rz"@,
            OpView::Cx => "cx"@,
            OpView::Ccx => "ccx"@,
            OpView::Measure => "measure"@,
            OpView::Barrier => "barrier"@,
            OpView::Compute(_) => "compute"@,
        }
    }

    /// Whether the payload of the kind can be written.
    pub open spec fn valid(self) -> bool {
        match self {
            OpView::Compute(c) => c.valid(),
            _ => true,
        }
    }
}

/// No two kinds of operation share a tag: kinds with the same tag are the
/// same kind, up to the payload of a compute.
pub proof fn lemma_tag_names_one_kind(first: OpView, second: OpView)
    requires
        first.tag() == second.tag(),
    ensures
        first is Compute <==> second is Compute,
        !(first is Compute) ==> first == second,
        !(first is Compute) ==> OpView::plain(first.tag()) == Some(first),
        first is Compute ==> OpView::plain(first.tag()) is None,
{
}

impl<'id> View for OpKind<'id> {
    type V = OpView;

    open spec fn view(&self) -> OpView {
        match self {
            OpKind::Nop => OpView::Nop,
            OpKind::H => OpView::H,
            OpKind::X => OpView::X,
            OpKind::Y => OpView::Y,
            OpKind::Z => OpView::Z,
            OpKind::Rx => OpView::Rx,
            OpKind::Ry => OpView::Ry,
            OpKind::Rz => OpView::Rz,
            OpKind::Cx => OpView::Cx,
            OpKind::Ccx => OpView::Ccx,
            OpKind::Measure => OpView::Measure,
            OpKind::Barrier => OpView::Barrier,
            OpKind::Compute(c) => OpView::Compute(c@),
        }
    }
}

impl<'id> Clone for OpKind<'id> {
    fn clone(&self) -> (copy: Self)
        ensures
            copy@ == self@,
    {
        match self {
            OpKind::Nop => OpKind::Nop,
            OpKind::H => OpKind::H,
            OpKind::X => OpKind::X,
            OpKind::Y => OpKind::Y,
            OpKind::Z => OpKind::Z,
            OpKind::Rx => OpKind::Rx,
            OpKind::Ry => OpKind::Ry,
            OpKind::Rz => OpKind::Rz,
            OpKind::Cx => OpKind::Cx,
            OpKind::Ccx => OpKind::Ccx,
            OpKind::Measure => OpKind::Measure,
            OpKind::Barrier => OpKind::Barrier,
            OpKind::Compute(compute) => OpKind::Compute(compute.clone()),
        }
    }
}

impl<'id> Default for OpKind<'id> {
    fn default() -> (op: Self)
        ensures
            op@ == OpView::Nop,
    {
        OpKind::Nop
    }
}

impl<'id> OpKind<'id> {
    /// The tag that identifies the kind in the instruction stream.
    pub fn tag(&self) -> (tag: u16)
        ensures
            tag == self@.tag(),
    {
        match self {
            OpKind::Nop => TAG_NOP,
            OpKind::H => TAG_H,
            OpKind::X => TAG_X,
            OpKind::Y => TAG_Y,
            OpKind::Z => TAG_Z,
            OpKind::Rx => TAG_RX,
            OpKind::Ry => TAG_RY,
            OpKind::Rz => TAG_RZ,
            OpKind::Cx => TAG_CX,
            OpKind::Ccx => TAG_CCX,
            OpKind::Measure => TAG_MEASURE,
            OpKind::Barrier => TAG_BARRIER,
            OpKind::Compute(_) => TAG_COMPUTE,
        }
    }

    /// The kind without payload that the tag identifies, if any.
    fn plain(tag: u16) -> (op: Option<Self>)
        ensures
            match OpView::plain(tag) {
                Some(view) => op matches Some(o) && o@ == view,
                None => op is None,
            },
    {
        if tag == TAG_NOP {
            Some(OpKind::Nop)
        } else if tag == TAG_H {
            Some(OpKind::H)
        } else if tag == TAG_X {
            Some(OpKind::X)
        } else if tag == TAG_Y {
            Some(OpKind::Y)
        } else if tag == TAG_Z {
            Some(OpKind::Z)
        } else if tag == TAG_RX {
            Some(OpKind::Rx)
        } else if tag == TAG_RY {
            Some(OpKind::Ry)
        } else if tag == TAG_RZ {
            Some(OpKind::Rz)
        } else if tag == TAG_CX {
            Some(OpKind::Cx)
        } else if tag == TAG_CCX {
            Some(OpKind::Ccx)
        } else if tag == TAG_MEASURE {
            Some(OpKind::Measure)
        } else if tag == TAG_BARRIER {
            Some(OpKind::Barrier)
        } else {
            None
        }
    }

    /// Writes the operation kind along with the given flags to the
    /// destination.
    pub fn write(&self, dest: &mut Vec<Word>, flags: InstrFlags)
        requires
            self@.valid(),
        ensures
            final(dest)@ == old(dest)@ + encode_op(self@, flags@),
    {
        storage::write(dest, (flags, self.tag()));
        match self {
            OpKind::Compute(compute) => {
                compute.write(dest);
            },
            _ => {},
        }
        assert(dest@ =~= old(dest)@ + encode_op(self@, flags@));
    }

    /// Reads the operation kind along with its associated flags from the
    /// source. Where the source begins with none, it is left as it was.
    pub fn read(src: &mut &[Word]) -> (found: Result<(Self, InstrFlags), DecodeError>)
        ensures
            match decode_op(old(src)@) {
                Ok(((view, flags), rest)) => found matches Ok((op, f)) && op@ == view && f@
                    == flags && final(src)@ == rest,
                Err(e) => found == Err::<(Self, InstrFlags), DecodeError>(e) && final(src)@
                    == old(src)@,
            },
    {
        let start: &[Word] = *src;
        let (flags, tag) = match next_word::<(InstrFlags, u16)>(src) {
            Ok(header) => header,
            Err(e) => {
                return Err(e);
            },
        };
        proof {
            lemma_header_fields(flags@, tag, 0);
        }
        if tag == TAG_COMPUTE {
            match Compute::read(src) {
                Ok(compute) => Ok((OpKind::Compute(compute), flags)),
                Err(e) => {
                    *src = start;
                    Err(e)
                },
            }
        } else {
            match OpKind::plain(tag) {
                Some(op) => Ok((op, flags)),
                None => {
                    *src = start;
                    Err(DecodeError::InvalidOperation)
                },
            }
        }
    }

    /// The number of qubits that the kind takes.
    pub fn qubits(&self) -> (arity: Arity)
        ensures
            arity@ == self@.qubits(),
    {
        match self {
            OpKind::Nop | OpKind::Compute(_) => Arity::from(0),
            OpKind::Cx => Arity::from(2),
            OpKind::Ccx => Arity::from(3),
            OpKind::Barrier => Arity::variadic(),
            _ => Arity::from(1),
        }
    }

    /// The number of bits that the kind takes.
    pub fn bits(&self) -> (arity: Arity)
        ensures
            arity@ == self@.bits(),
    {
        match self {
            OpKind::Measure => Arity::from(1),
            OpKind::Compute(_) => Arity::variadic(),
            _ => Arity::from(0),
        }
    }

    /// The number of parameters that the kind takes.
    pub fn parameters(&self) -> (arity: Arity)
        ensures
            arity@ == self@.parameters(),
    {
        match self {
            OpKind::Rx | OpKind::Ry | OpKind::Rz => Arity::from(1),
            _ => Arity::from(0),
        }
    }

    /// Whether the kind is a unitary transformation.
    pub fn is_unitary(&self) -> (unitary: bool)
        ensures
            unitary == self@.is_unitary(),
    {
        match self {
            OpKind::Nop | OpKind::Measure | OpKind::Barrier | OpKind::Compute(_) => false,
            _ => true,
        }
    }

    /// The label of the kind.
    pub fn label(&self) -> (label: &'static str)
        ensures
            label@ == self@.label(),
    {
        match self {
            OpKind::Nop => "nop",
            OpKind::H => "h",
            OpKind::X => "x",
            OpKind::Y => "y",
            OpKind::Z => "z",
            OpKind::Rx => "rx",
            OpKind::Ry => "ry",
            OpKind::Rz => "rz",
            OpKind::Cx => "cx",
            OpKind::Ccx => "ccx",
            OpKind::Measure => "measure",
            OpKind::Barrier => "barrier",
            OpKind::Compute(_) => "compute",
        }
    }
}

} // verus!
