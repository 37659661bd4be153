//! Parameters of operations, packed into one word each.
//!
//! A parameter is either a value, a finite single-precision number, or a
//! reference to a formal parameter of the circuit. Both share one word: a
//! word whose exponent bits are not all set is the bit pattern of the value;
//! a word whose exponent bits are all set, which no finite number has,
//! carries the index of the formal parameter in its low bits.

use crate::genericity::Id;
use crate::storage::{Transparent, Word};
use crate::symbol::FormalParameter;
use vstd::prelude::*;

verus! {

/// The exponent bits of a single-precision number, also the bit pattern of
/// positive infinity.
pub const INFINITY_BITS: u32 = 0x7F80_0000;

/// The bits below the exponent, which carry the index of a formal parameter.
pub const PAYLOAD_MASK: u32 = 0x007F_FFFF;

/// Whether the word is the bit pattern of a finite number.
pub open spec fn is_value_word(w: Word) -> bool {
    w & INFINITY_BITS != INFINITY_BITS
}

/// The index of the formal parameter that a word which is no value refers to.
pub open spec fn formal_index(w: Word) -> u32 {
    w & PAYLOAD_MASK
}

/// The word of a reference to the formal parameter with the given index.
pub open spec fn formal_word(index: u32) -> Word {
    index | INFINITY_BITS
}

/// The bit pattern that stands for a number: its own where the number is
/// finite, that of zero where it is not.
pub open spec fn value_word(bits: u32) -> Word {
    if is_value_word(bits) {
        bits
    } else {
        0
    }
}

/// A reference to a formal parameter is never a value.
pub proof fn lemma_formal_word_is_formal(index: u32)
    ensures
        !is_value_word(formal_word(index)),
{
    assert((index | 0x7F80_0000u32) & 0x7F80_0000u32 == 0x7F80_0000u32) by (bit_vector);
}

/// An index that fits under the exponent bits is read back as it was written.
pub proof fn lemma_formal_index_of_formal_word(index: u32)
    requires
        index <= PAYLOAD_MASK,
    ensures
        formal_index(formal_word(index)) == index,
{
    assert(index <= 0x007F_FFFFu32 ==> (index | 0x7F80_0000u32) & 0x007F_FFFFu32 == index)
        by (bit_vector);
}

/// A value or a reference to a formal parameter.
#[derive(Copy, Clone, Debug)]
pub struct Parameter<'id> {
    _id: Id<'id>,
    bits: u32,
}

/// The parameter is a reference to a formal parameter, and has no value.
#[derive(Copy, Clone, PartialEq, Eq, Hash, Debug, Structural)]
pub struct NotValue;

/// The parameter is a value, and refers to no formal parameter.
#[derive(Copy, Clone, PartialEq, Eq, Hash, Debug, Structural)]
pub struct NotFormal;

impl<'id> View for Parameter<'id> {
    type V = Word;

    closed spec fn view(&self) -> Word {
        self.bits
    }
}

impl<'id> Transparent for Parameter<'id> {
    open spec fn word(&self) -> Word {
        self@
    }

    fn to_word(&self) -> (w: Word) {
        self.bits
    }

    fn from_word(w: Word) -> (value: Self) {
        Parameter { _id: Id::new(), bits: w }
    }
}

impl<'id> From<FormalParameter<'id>> for Parameter<'id> {
    fn from(formal: FormalParameter<'id>) -> (parameter: Self)
        ensures
            parameter@ == formal_word(formal@),
    {
        Parameter { _id: Id::new(), bits: formal.id() | INFINITY_BITS }
    }
}

impl<'id> vstd::std_specs::convert::FromSpecImpl<FormalParameter<'id>> for Parameter<'id> {
    open spec fn obeys_from_spec() -> bool {
        true
    }

    open spec fn from_spec(formal: FormalParameter<'id>) -> Self {
        Parameter::stored_as(formal_word(formal@))
    }
}

impl<'id> TryFrom<Parameter<'id>> for FormalParameter<'id> {
    type Error = NotFormal;

    /// The formal parameter that the parameter refers to, or the error that
    /// says that it refers to none.
    fn try_from(parameter: Parameter<'id>) -> (formal: Result<Self, NotFormal>)
        ensures
            formal is Ok <==> !is_value_word(parameter@),
            formal matches Ok(f) ==> f@ == formal_index(parameter@),
    {
        if parameter.is_formal() {
            Ok(FormalParameter::new_unchecked(parameter.bits & PAYLOAD_MASK))
        } else {
            Err(NotFormal)
        }
    }
}

impl<'id> vstd::std_specs::convert::TryFromSpecImpl<Parameter<'id>> for FormalParameter<'id> {
    open spec fn obeys_try_from_spec() -> bool {
        true
    }

    open spec fn try_from_spec(parameter: Parameter<'id>) -> Result<Self, NotFormal> {
        if is_value_word(parameter@) {
            Err(NotFormal)
        } else {
            Ok(FormalParameter::with_index(formal_index(parameter@)))
        }
    }
}

impl<'id> Parameter<'id> {
    /// The parameter that is stored as the word.
    pub closed spec fn stored_as(w: Word) -> Self {
        Parameter { _id: Id::brand(), bits: w }
    }

    /// The parameter with the value whose bit pattern is `bits`. A pattern
    /// that is not that of a finite number stands for zero.
    pub fn from_value_bits(bits: u32) -> (parameter: Self)
        ensures
            parameter@ == value_word(bits),
            is_value_word(parameter@),
    {
        assert(is_value_word(0u32)) by {
            assert(0u32 & 0x7F80_0000u32 != 0x7F80_0000u32) by (bit_vector);
        }
        if bits & INFINITY_BITS != INFINITY_BITS {
            Parameter { _id: Id::new(), bits }
        } else {
            Parameter { _id: Id::new(), bits: 0 }
        }
    }

    /// The parameter that refers to the formal parameter. The index of the
    /// formal parameter is read back from it where it is at most
    /// `PAYLOAD_MASK`.
    pub fn from_formal(formal: FormalParameter<'id>) -> (parameter: Self)
        ensures
            parameter@ == formal_word(formal@),
            !is_value_word(parameter@),
            formal@ <= PAYLOAD_MASK ==> formal_index(parameter@) == formal@,
    {
        proof {
            lemma_formal_word_is_formal(formal@);
            if formal@ <= PAYLOAD_MASK {
                lemma_formal_index_of_formal_word(formal@);
            }
        }
        Parameter { _id: Id::new(), bits: formal.id() | INFINITY_BITS }
    }

    /// The word that stores the parameter.
    pub fn bits(self) -> (w: Word)
        ensures
            w == self@,
    {
        self.bits
    }

    /// Whether the parameter is a value.
    pub fn is_value(self) -> (value: bool)
        ensures
            value == is_value_word(self@),
    {
        self.bits & INFINITY_BITS != INFINITY_BITS
    }

    /// Whether the parameter refers to a formal parameter.
    pub fn is_formal(self) -> (formal: bool)
        ensures
            formal == !is_value_word(self@),
    {
        !self.is_value()
    }

    /// The bit pattern of the value, or `None` where the parameter refers
    /// to a formal parameter.
    pub fn as_value_bits(self) -> (bits: Option<u32>)
        ensures
            bits == if is_value_word(self@) {
                Some(self@)
            } else {
                None
            },
    {
        if self.is_value() {
            Some(self.bits)
        } else {
            None
        }
    }

    /// The formal parameter that the parameter refers to, or `None` where
    /// it is a value.
    pub fn as_formal(self) -> (formal: Option<FormalParameter<'id>>)
        ensures
            formal is Some <==> !is_value_word(self@),
            formal matches Some(f) ==> f@ == formal_index(self@),
    {
        if self.is_formal() {
            Some(FormalParameter::new_unchecked(self.bits & PAYLOAD_MASK))
        } else {
            None
        }
    }

    /// The bit pattern of the value, or the error that says that the
    /// parameter has none.
    pub fn try_into_value_bits(self) -> (bits: Result<u32, NotValue>)
        ensures
            bits is Ok <==> is_value_word(self@),
            bits matches Ok(b) ==> b == self@,
    {
        if self.is_value() {
            Ok(self.bits)
        } else {
            Err(NotValue)
        }
    }
}

} // verus!
