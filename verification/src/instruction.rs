//! Instructions and the buffer that holds them.

use crate::genericity::Id;
use crate::operation::{Arity, OpKind, OpView};
use crate::parameter::{is_value_word, Parameter};
use crate::storage;
use crate::storage::{words_of, Transparent, Word};
use crate::symbol::{Bit, Qubit};
use crate::wire::{
    all_valid, decode_all, decode_compute, decode_instr, decode_modifier, encode_all,
    encode_compute, encode_instr, encode_modifier, header_word, lemma_decode_all_step,
    lemma_decode_front, lemma_decoded_instr, lemma_encode_all_concat, lemma_encode_all_empty,
    lemma_encode_all_push, lemma_header_fields, next_word, next_words, read_operands,
    write_operands, DecodeError,
};
use std::marker::PhantomData;
use vstd::prelude::*;

verus! {

/// The flag that says that the instruction has a modifier.
pub const HAS_MODIFIER: u16 = 1;

/// The tag of the modifier `IfBit`.
pub const TAG_IF_BIT: u32 = 0;

/// The tag of the modifier `IfCompute`.
pub const TAG_IF_COMPUTE: u32 = 1;

/// The tag of the modifier `WhileBit`.
pub const TAG_WHILE_BIT: u32 = 2;

/// The tag of the modifier `WhileCompute`.
pub const TAG_WHILE_COMPUTE: u32 = 3;

/// The tag of the modifier `ForConst`.
pub const TAG_FOR_CONST: u32 = 4;

/// The tag of the modifier `ForCompute`.
pub const TAG_FOR_COMPUTE: u32 = 5;

/// Flags attached to the compact representation of an instruction.
#[derive(Copy, Clone, PartialEq, Eq, Hash, Debug, Structural)]
pub struct InstrFlags {
    bits: u16,
}

impl View for InstrFlags {
    type V = u16;

    closed spec fn view(&self) -> u16 {
        self.bits
    }
}

impl InstrFlags {
    /// No flag.
    pub fn empty() -> (flags: Self)
        ensures
            flags@ == 0,
    {
        InstrFlags { bits: 0 }
    }

    /// The flag that says that the instruction has a modifier.
    pub fn has_modifier() -> (flags: Self)
        ensures
            flags@ == HAS_MODIFIER,
    {
        InstrFlags { bits: HAS_MODIFIER }
    }

    /// The flags as a number.
    pub fn bits(&self) -> (bits: u16)
        ensures
            bits == self@,
    {
        self.bits
    }

    /// Whether all the flags of `other` are among these.
    pub fn contains(&self, other: Self) -> (all: bool)
        ensures
            all == (self@ & other@ == other@),
    {
        self.bits & other.bits == other.bits
    }

    /// Adds the flags of `other` to these.
    pub fn insert(&mut self, other: Self)
        ensures
            final(self)@ == old(self)@ | other@,
    {
        self.bits = self.bits | other.bits;
    }
}

impl Transparent for (InstrFlags, u16) {
    open spec fn word(&self) -> Word {
        header_word(self.0@, self.1)
    }

    fn to_word(&self) -> (w: Word) {
        (self.0.bits as u32) | ((self.1 as u32) << 16)
    }

    fn from_word(w: Word) -> (value: Self) {
        proof {
            lemma_header_fields(0, 0, w);
        }
        (InstrFlags { bits: (w & 0xFFFF) as u16 }, (w >> 16) as u16)
    }
}

/// A classical function of some bits of the circuit.
///
/// The function itself is kept by the host, in a table of functions from a
/// snapshot of the bits to a `T`; the compute holds its place in that table.
#[derive(PartialEq, Eq, Debug)]
pub struct Compute<'id, T> {
    /// The bits that the function is evaluated on.
    pub bits: Vec<Bit<'id>>,
    /// The place of the function in the host's table.
    pub func: u32,
    /// Marks what the function returns.
    pub output: PhantomData<T>,
}

/// What a compute is, apart from its brand.
pub struct ComputeView {
    pub bits: Seq<Word>,
    pub func: Word,
}

impl ComputeView {
    /// Whether the compute can be written: the number of its bits fits in
    /// one word.
    pub open spec fn valid(self) -> bool {
        self.bits.len() <= u32::MAX
    }
}

impl<'id, T> View for Compute<'id, T> {
    type V = ComputeView;

    open spec fn view(&self) -> ComputeView {
        ComputeView { bits: words_of(self.bits@), func: self.func }
    }
}

impl<'id, T> Compute<'id, T> {
    /// The compute of the function at place `func` of the host's table, on
    /// the given bits.
    pub fn new(bits: Vec<Bit<'id>>, func: u32) -> (compute: Self)
        ensures
            compute.bits == bits,
            compute.func == func,
    {
        Compute { bits, func, output: PhantomData }
    }
}

impl<'id, T> Compute<'id, T> {
    /// Writes the compute to the destination.
    pub fn write(&self, dest: &mut Vec<Word>)
        requires
            self@.valid(),
        ensures
            final(dest)@ == old(dest)@ + encode_compute(self@),
    {
        storage::write(dest, self.bits.len() as u32);
        storage::write_slice(dest, self.bits.as_slice());
        storage::write(dest, self.func);
        assert(dest@ =~= old(dest)@ + encode_compute(self@));
    }

    /// Reads the compute that the source begins with. Where it begins with
    /// none, the source is left as it was.
    pub fn read(src: &mut &[Word]) -> (compute: Result<Self, DecodeError>)
        ensures
            match decode_compute(old(src)@) {
                Ok((view, rest)) => compute matches Ok(c) && c@ == view && final(src)@ == rest,
                Err(e) => compute == Err::<Self, DecodeError>(e) && final(src)@ == old(src)@,
            },
    {
        let start: &[Word] = *src;
        let len: u32 = match next_word::<u32>(src) {
            Ok(n) => n,
            Err(e) => {
                return Err(e);
            },
        };
        let bits: Vec<Bit<'id>> = match next_words(src, len) {
            Ok(bits) => bits,
            Err(e) => {
                *src = start;
                return Err(e);
            },
        };
        let func: u32 = match next_word::<u32>(src) {
            Ok(func) => func,
            Err(e) => {
                *src = start;
                return Err(e);
            },
        };
        Ok(Compute { bits, func, output: PhantomData })
    }
}

impl<'id, T> Clone for Compute<'id, T> {
    fn clone(&self) -> (copy: Self)
        ensures
            copy@ == self@,
    {
        Compute {
            bits: storage::copy_slice(self.bits.as_slice()),
            func: self.func,
            output: PhantomData,
        }
    }
}

/// What an instruction is subject to.
#[non_exhaustive]
#[derive(PartialEq, Eq, Debug)]
pub enum Modifier<'id> {
    /// Only perform the instruction if the bit is `true`.
    IfBit(Bit<'id>),
    /// Only perform the instruction if the result of the compute is `true`.
    IfCompute(Compute<'id, bool>),
    /// Perform the instruction while the bit is `true`.
    WhileBit(Bit<'id>),
    /// Perform the instruction while the result of the compute is `true`.
    WhileCompute(Compute<'id, bool>),
    /// Perform the instruction as many times as the provided integer.
    ForConst(u32),
    /// Perform the instruction as many times as the result of the compute.
    ForCompute(Compute<'id, u32>),
}

/// What a modifier is, apart from its brand.
pub enum ModifierView {
    IfBit(Word),
    IfCompute(ComputeView),
    WhileBit(Word),
    WhileCompute(ComputeView),
    ForConst(Word),
    ForCompute(ComputeView),
}

impl ModifierView {
    /// Whether the modifier can be written.
    pub open spec fn valid(self) -> bool {
        match self {
            ModifierView::IfCompute(c) | ModifierView::WhileCompute(c) | ModifierView::ForCompute(
                c,
            ) => c.valid(),
            _ => true,
        }
    }
}

impl<'id> View for Modifier<'id> {
    type V = ModifierView;

    open spec fn view(&self) -> ModifierView {
        match self {
            Modifier::IfBit(bit) => ModifierView::IfBit(bit@),
            Modifier::IfCompute(compute) => ModifierView::IfCompute(compute@),
            Modifier::WhileBit(bit) => ModifierView::WhileBit(bit@),
            Modifier::WhileCompute(compute) => ModifierView::WhileCompute(compute@),
            Modifier::ForConst(count) => ModifierView::ForConst(*count),
            Modifier::ForCompute(compute) => ModifierView::ForCompute(compute@),
        }
    }
}

impl<'id> Modifier<'id> {
    /// Writes the modifier to the destination.
    pub fn write(&self, dest: &mut Vec<Word>)
        requires
            self@.valid(),
        ensures
            final(dest)@ == old(dest)@ + encode_modifier(self@),
    {
        match self {
            Modifier::IfBit(bit) => {
                storage::write(dest, TAG_IF_BIT);
                storage::write(dest, *bit);
            },
            Modifier::IfCompute(compute) => {
                storage::write(dest, TAG_IF_COMPUTE);
                compute.write(dest);
            },
            Modifier::WhileBit(bit) => {
                storage::write(dest, TAG_WHILE_BIT);
                storage::write(dest, *bit);
            },
            Modifier::WhileCompute(compute) => {
                storage::write(dest, TAG_WHILE_COMPUTE);
                compute.write(dest);
            },
            Modifier::ForConst(count) => {
                storage::write(dest, TAG_FOR_CONST);
                storage::write(dest, *count);
            },
            Modifier::ForCompute(compute) => {
                storage::write(dest, TAG_FOR_COMPUTE);
                compute.write(dest);
            },
        }
        assert(dest@ =~= old(dest)@ + encode_modifier(self@));
    }

    /// Reads the modifier that the source begins with. Where it begins
    /// with none, the source is left as it was.
    pub fn read(src: &mut &[Word]) -> (modifier: Result<Self, DecodeError>)
        ensures
            match decode_modifier(old(src)@) {
                Ok((view, rest)) => modifier matches Ok(m) && m@ == view && final(src)@ == rest,
                Err(e) => modifier == Err::<Self, DecodeError>(e) && final(src)@ == old(src)@,
            },
    {
        let start: &[Word] = *src;
        let tag: u32 = match next_word::<u32>(src) {
            Ok(tag) => tag,
            Err(e) => {
                return Err(e);
            },
        };
        let modifier: Result<Self, DecodeError> = if tag == TAG_IF_BIT {
            match next_word::<Bit<'id>>(src) {
                Ok(bit) => Ok(Modifier::IfBit(bit)),
                Err(e) => Err(e),
            }
        } else if tag == TAG_IF_COMPUTE {
            match Compute::read(src) {
                Ok(compute) => Ok(Modifier::IfCompute(compute)),
                Err(e) => Err(e),
            }
        } else if tag == TAG_WHILE_BIT {
            match next_word::<Bit<'id>>(src) {
                Ok(bit) => Ok(Modifier::WhileBit(bit)),
                Err(e) => Err(e),
            }
        } else if tag == TAG_WHILE_COMPUTE {
            match Compute::read(src) {
                Ok(compute) => Ok(Modifier::WhileCompute(compute)),
                Err(e) => Err(e),
            }
        } else if tag == TAG_FOR_CONST {
            match next_word::<u32>(src) {
                Ok(count) => Ok(Modifier::ForConst(count)),
                Err(e) => Err(e),
            }
        } else if tag == TAG_FOR_COMPUTE {
            match Compute::read(src) {
                Ok(compute) => Ok(Modifier::ForCompute(compute)),
                Err(e) => Err(e),
            }
        } else {
            Err(DecodeError::InvalidModifier)
        };
        if modifier.is_err() {
            *src = start;
        }
        modifier
    }
}

impl<'id> Clone for Modifier<'id> {
    fn clone(&self) -> (copy: Self)
        ensures
            copy@ == self@,
    {
        match self {
            Modifier::IfBit(bit) => Modifier::IfBit(*bit),
            Modifier::IfCompute(compute) => Modifier::IfCompute(compute.clone()),
            Modifier::WhileBit(bit) => Modifier::WhileBit(*bit),
            Modifier::WhileCompute(compute) => Modifier::WhileCompute(compute.clone()),
            Modifier::ForConst(count) => Modifier::ForConst(*count),
            Modifier::ForCompute(compute) => Modifier::ForCompute(compute.clone()),
        }
    }
}

/// One instruction: an operation, what it is applied to, and what it is
/// subject to.
#[derive(Debug)]
pub struct Instr<'id> {
    /// The base operation type.
    pub op: OpKind<'id>,
    /// The qubits to apply this operation to.
    pub qubits: Vec<Qubit<'id>>,
    /// The bits to apply this operation to.
    pub bits: Vec<Bit<'id>>,
    /// The parameters this operation depends on.
    pub parameters: Vec<Parameter<'id>>,
    /// This operation's modifier, if there is one.
    pub modifier: Option<Modifier<'id>>,
}

/// What an instruction is, apart from its brand.
pub struct InstrView {
    pub op: OpView,
    pub qubits: Seq<Word>,
    pub bits: Seq<Word>,
    pub parameters: Seq<Word>,
    pub modifier: Option<ModifierView>,
}

/// Whether an operation that takes `arity` operands of a class can be given
/// `count` of them.
pub open spec fn arity_admits(arity: Option<u32>, count: nat) -> bool {
    match arity {
        Some(n) => count == n,
        None => count <= u32::MAX,
    }
}

impl InstrView {
    /// Whether the instruction gives its operation as many operands of each
    /// class as the operation takes, and can be written.
    pub open spec fn valid(self) -> bool {
        &&& self.op.valid()
        &&& arity_admits(self.op.qubits(), self.qubits.len())
        &&& arity_admits(self.op.bits(), self.bits.len())
        &&& arity_admits(self.op.parameters(), self.parameters.len())
        &&& match self.modifier {
            Some(m) => m.valid(),
            None => true,
        }
    }

    /// Whether no parameter of the instruction refers to a formal parameter.
    pub open spec fn is_concrete(self) -> bool {
        forall|i: int|
            0 <= i < self.parameters.len() ==> is_value_word(#[trigger] self.parameters[i])
    }
}

impl<'id> View for Instr<'id> {
    type V = InstrView;

    open spec fn view(&self) -> InstrView {
        InstrView {
            op: self.op@,
            qubits: words_of(self.qubits@),
            bits: words_of(self.bits@),
            parameters: words_of(self.parameters@),
            modifier: match self.modifier {
                Some(m) => Some(m@),
                None => None,
            },
        }
    }
}

impl<'id> Instr<'id> {
    /// Whether the instruction gives its operation as many operands of
    /// each class as the operation takes, and can be written.
    pub fn is_valid(&self) -> (valid: bool)
        ensures
            valid == self@.valid(),
    {
        let op_valid: bool = match &self.op {
            OpKind::Compute(compute) => compute.bits.len() <= u32::MAX as usize,
            _ => true,
        };
        let modifier_valid: bool = match &self.modifier {
            Some(Modifier::IfCompute(compute)) => compute.bits.len() <= u32::MAX as usize,
            Some(Modifier::WhileCompute(compute)) => compute.bits.len() <= u32::MAX as usize,
            Some(Modifier::ForCompute(compute)) => compute.bits.len() <= u32::MAX as usize,
            _ => true,
        };
        op_valid && modifier_valid && admits(self.op.qubits(), self.qubits.len()) && admits(
            self.op.bits(),
            self.bits.len(),
        ) && admits(self.op.parameters(), self.parameters.len())
    }

    /// Writes the instruction to the destination.
    pub fn write(&self, dest: &mut Vec<Word>)
        requires
            self@.valid(),
        ensures
            final(dest)@ == old(dest)@ + encode_instr(self@),
    {
        proof {
            reveal(encode_instr);
        }
        let flags = {
            let mut res = InstrFlags::empty();
            if self.modifier.is_some() {
                res.insert(InstrFlags::has_modifier());
                assert(0u16 | 1u16 == 1u16) by (bit_vector);
            }
            res
        };
        self.op.write(dest, flags);
        write_operands(self.op.qubits(), dest, self.qubits.as_slice());
        write_operands(self.op.bits(), dest, self.bits.as_slice());
        write_operands(self.op.parameters(), dest, self.parameters.as_slice());
        match &self.modifier {
            Some(modifier) => {
                modifier.write(dest);
            },
            None => {},
        }
        assert(dest@ =~= old(dest)@ + encode_instr(self@));
    }

    /// Reads the instruction that the source begins with. Where it begins
    /// with none, the source is left as it was.
    pub fn read(src: &mut &[Word]) -> (instr: Result<Self, DecodeError>)
        ensures
            match decode_instr(old(src)@) {
                Ok((view, rest)) => instr matches Ok(i) && i@ == view && final(src)@ == rest,
                Err(e) => instr == Err::<Self, DecodeError>(e) && final(src)@ == old(src)@,
            },
    {
        proof {
            reveal(decode_instr);
        }
        let start: &[Word] = *src;
        let (op, flags) = match OpKind::read(src) {
            Ok(found) => found,
            Err(e) => {
                return Err(e);
            },
        };
        let qubits: Vec<Qubit<'id>> = match read_operands(op.qubits(), src) {
            Ok(qubits) => qubits,
            Err(e) => {
                *src = start;
                return Err(e);
            },
        };
        let bits: Vec<Bit<'id>> = match read_operands(op.bits(), src) {
            Ok(bits) => bits,
            Err(e) => {
                *src = start;
                return Err(e);
            },
        };
        let parameters: Vec<Parameter<'id>> = match read_operands(op.parameters(), src) {
            Ok(parameters) => parameters,
            Err(e) => {
                *src = start;
                return Err(e);
            },
        };
        let modifier: Option<Modifier<'id>> = if flags.contains(InstrFlags::has_modifier()) {
            match Modifier::read(src) {
                Ok(modifier) => Some(modifier),
                Err(e) => {
                    *src = start;
                    return Err(e);
                },
            }
        } else {
            None
        };
        Ok(Instr { op, qubits, bits, parameters, modifier })
    }

    /// Whether the instruction has a modifier.
    pub fn has_modifier(&self) -> (modified: bool)
        ensures
            modified == (self@.modifier is Some),
    {
        self.modifier.is_some()
    }

    /// Whether no parameter of the instruction refers to a formal
    /// parameter.
    pub fn is_concrete(&self) -> (concrete: bool)
        ensures
            concrete == self@.is_concrete(),
    {
        let mut i: usize = 0;
        while i < self.parameters.len()
            invariant
                i <= self.parameters@.len(),
                forall|k: int| 0 <= k < i ==> is_value_word(#[trigger] self@.parameters[k]),
            decreases self.parameters@.len() - i,
        {
            if !self.parameters[i].is_value() {
                assert(!is_value_word(self@.parameters[i as int]));
                return false;
            }
            i += 1;
        }
        true
    }
}

/// Whether an operation that takes `arity` operands of a class can be given
/// `count` of them.
fn admits(arity: Arity, count: usize) -> (fits: bool)
    ensures
        fits == arity_admits(arity@, count as nat),
{
    match arity.get() {
        Some(n) => count == n as usize,
        None => count <= u32::MAX as usize,
    }
}

impl<'id> Clone for Instr<'id> {
    fn clone(&self) -> (copy: Self)
        ensures
            copy@ == self@,
    {
        Instr {
            op: self.op.clone(),
            qubits: storage::copy_slice(self.qubits.as_slice()),
            bits: storage::copy_slice(self.bits.as_slice()),
            parameters: storage::copy_slice(self.parameters.as_slice()),
            modifier: match &self.modifier {
                Some(m) => Some(m.clone()),
                None => None,
            },
        }
    }
}

impl<'id> Default for Instr<'id> {
    fn default() -> (instr: Self)
        ensures
            instr@ == (InstrView {
                op: OpView::Nop,
                qubits: Seq::empty(),
                bits: Seq::empty(),
                parameters: Seq::empty(),
                modifier: None,
            }),
    {
        let instr = Instr {
            op: OpKind::Nop,
            qubits: Vec::new(),
            bits: Vec::new(),
            parameters: Vec::new(),
            modifier: None,
        };
        assert(instr@.qubits =~= Seq::empty());
        assert(instr@.bits =~= Seq::empty());
        assert(instr@.parameters =~= Seq::empty());
        instr
    }
}

/// A walk over the instructions of a buffer, from the first to the last.
pub struct InstrIter<'a, 'id> {
    _id: Id<'id>,
    src: &'a [Word],
    rest: Ghost<Seq<InstrView>>,
}

impl<'a, 'id> View for InstrIter<'a, 'id> {
    type V = Seq<InstrView>;

    /// The instructions that the walk has not reached yet.
    closed spec fn view(&self) -> Seq<InstrView> {
        self.rest@
    }
}

impl<'a, 'id> InstrIter<'a, 'id> {
    /// The source holds the words of the instructions that are left, which
    /// are valid.
    #[verifier::type_invariant]
    spec fn well_formed(&self) -> bool {
        &&& all_valid(self.rest@)
        &&& self.src@ == encode_all(self.rest@)
    }

    /// The walk over the given instructions, which `src` holds.
    pub(crate) fn from_parts(src: &'a [Word], Ghost(instrs): Ghost<Seq<InstrView>>) -> (walk: Self)
        requires
            all_valid(instrs),
            src@ == encode_all(instrs),
        ensures
            walk@ == instrs,
    {
        InstrIter { _id: Id::new(), src, rest: Ghost(instrs) }
    }

    /// The next instruction of the walk, or `None` where it is over.
    pub fn next(&mut self) -> (instr: Option<Instr<'id>>)
        ensures
            old(self)@.len() == 0 ==> instr is None && final(self)@ == old(self)@,
            old(self)@.len() > 0 ==> (instr matches Some(i) && i@ == old(self)@[0] && final(self)@
                == old(self)@.skip(1)),
    {
        proof {
            use_type_invariant(&*self);
            lemma_encode_all_empty(self.rest@);
        }
        if self.src.len() == 0 {
            None
        } else {
            proof {
                lemma_decode_front(self.rest@);
            }
            let mut src: &'a [Word] = self.src;
            match Instr::read(&mut src) {
                Ok(instr) => {
                    *self = InstrIter { _id: self._id, src, rest: Ghost(self.rest@.skip(1)) };
                    Some(instr)
                },
                Err(_) => None,
            }
        }
    }
}

/// A buffer of instructions.
pub struct InstrVec<'id> {
    _id: Id<'id>,
    data: Vec<Word>,
    instrs: Ghost<Seq<InstrView>>,
}

impl<'id> View for InstrVec<'id> {
    type V = Seq<InstrView>;

    /// The instructions of the buffer, in the order in which they were
    /// appended.
    closed spec fn view(&self) -> Seq<InstrView> {
        self.instrs@
    }
}

impl<'id> InstrVec<'id> {
    /// The buffer holds the words of its instructions, which are valid.
    #[verifier::type_invariant]
    spec fn well_formed(&self) -> bool {
        &&& all_valid(self.instrs@)
        &&& self.data@ == encode_all(self.instrs@)
    }

    /// The buffer of the given instructions, which `data` holds.
    pub(crate) fn from_parts(data: Vec<Word>, Ghost(instrs): Ghost<Seq<InstrView>>) -> (buffer:
        Self)
        requires
            all_valid(instrs),
            data@ == encode_all(instrs),
        ensures
            buffer@ == instrs,
    {
        InstrVec { _id: Id::new(), data, instrs: Ghost(instrs) }
    }

    /// An empty buffer.
    pub fn new() -> (buffer: Self)
        ensures
            buffer@ == Seq::<InstrView>::empty(),
    {
        InstrVec { _id: Id::new(), data: Vec::new(), instrs: Ghost(Seq::empty()) }
    }

    /// The buffer of the instructions that the words hold, one after
    /// another, or why the words hold no sequence of instructions.
    pub fn from_words(words: &[Word]) -> (buffer: Result<Self, DecodeError>)
        ensures
            match decode_all(words@) {
                Ok(instrs) => buffer matches Ok(b) && b@ == instrs,
                Err(e) => buffer == Err::<Self, DecodeError>(e),
            },
    {
        let mut src: &[Word] = words;
        let mut buffer = InstrVec::new();
        while src.len() > 0
            invariant
                decode_all(words@) == match decode_all(src@) {
                    Err(e) => Err::<Seq<InstrView>, DecodeError>(e),
                    Ok(others) => Ok(buffer@ + others),
                },
            decreases src@.len(),
        {
            let ghost before = src@;
            let ghost read = buffer@;
            match Instr::read(&mut src) {
                Ok(instr) => {
                    proof {
                        lemma_decoded_instr(before);
                        lemma_decode_all_step(before, instr@, src@);
                    }
                    buffer.append(&instr);
                    proof {
                        if decode_all(src@) is Ok {
                            let others = decode_all(src@)->Ok_0;
                            assert(read.push(instr@) + others =~= read + (seq![instr@] + others));
                        }
                    }
                },
                Err(e) => {
                    return Err(e);
                },
            }
        }
        assert(buffer@ + Seq::<InstrView>::empty() =~= buffer@);
        Ok(buffer)
    }

    /// Gives up the buffer for its words: those of its instructions, one
    /// after another.
    pub fn take(self) -> (words: Vec<Word>)
        ensures
            words@ == encode_all(self@),
    {
        proof {
            use_type_invariant(&self);
        }
        self.data
    }

    /// The words of the buffer: those of its instructions, one after
    /// another.
    pub fn as_words(&self) -> (words: &[Word])
        ensures
            words@ == encode_all(self@),
            all_valid(self@),
    {
        proof {
            use_type_invariant(self);
        }
        self.data.as_slice()
    }

    /// Appends an instruction to the buffer.
    pub fn append(&mut self, instruction: &Instr<'id>)
        requires
            instruction@.valid(),
        ensures
            final(self)@ == old(self)@.push(instruction@),
    {
        let mut taken = InstrVec::new();
        proof {
            use_type_invariant(&*self);
            use_type_invariant(&taken);
        }
        std::mem::swap(self, &mut taken);
        let InstrVec { _id, mut data, instrs } = taken;
        instruction.write(&mut data);
        proof {
            lemma_encode_all_push(instrs@, instruction@);
        }
        *self = InstrVec { _id, data, instrs: Ghost(instrs@.push(instruction@)) };
    }

    /// Appends the instructions of another buffer to the buffer.
    pub fn extend(&mut self, instructions: &InstrVec<'id>)
        ensures
            final(self)@ == old(self)@ + instructions@,
    {
        let mut taken = InstrVec::new();
        proof {
            use_type_invariant(&*self);
            use_type_invariant(&taken);
            use_type_invariant(instructions);
        }
        std::mem::swap(self, &mut taken);
        let InstrVec { _id, mut data, instrs } = taken;
        storage::write_slice(&mut data, instructions.data.as_slice());
        proof {
            lemma_encode_all_concat(instrs@, instructions@);
            assert(words_of(instructions.data@) =~= instructions.data@);
        }
        *self = InstrVec { _id, data, instrs: Ghost(instrs@ + instructions@) };
    }

    /// Removes every instruction from the buffer.
    pub fn clear(&mut self)
        ensures
            final(self)@ == Seq::<InstrView>::empty(),
    {
        *self = InstrVec::new();
    }

    /// Walks the instructions of the buffer, from the first to the last.
    pub fn iter<'a>(&'a self) -> (walk: InstrIter<'a, 'id>)
        ensures
            walk@ == self@,
    {
        proof {
            use_type_invariant(self);
        }
        InstrIter { _id: Id::new(), src: self.data.as_slice(), rest: Ghost(self.instrs@) }
    }
}

impl<'id> Default for InstrVec<'id> {
    fn default() -> (buffer: Self)
        ensures
            buffer@ == Seq::<InstrView>::empty(),
    {
        InstrVec::new()
    }
}

impl<'id> Clone for InstrVec<'id> {
    fn clone(&self) -> (copy: Self)
        ensures
            copy@ == self@,
    {
        proof {
            use_type_invariant(self);
        }
        InstrVec {
            _id: Id::new(),
            data: storage::copy_slice(self.data.as_slice()),
            instrs: Ghost(self.instrs@),
        }
    }
}

} // verus!
