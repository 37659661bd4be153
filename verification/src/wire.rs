//! The layout of instructions in the word buffer.
//!
//! An instruction is written as a header word, the payload of its operation
//! if the kind has one, its qubits, its bits, its parameters, and its
//! modifier if it has one:
//!
//! - the header holds the flags in its low half and the tag of the kind of
//!   operation in its high half;
//! - each class of operands is written as one word per operand, after a word
//!   that gives their number where the kind takes any number of them;
//! - a modifier is a word that holds its tag, and then a bit, a repeat count
//!   or a compute;
//! - a compute is the number of its bits, then its bits, then the reference
//!   to its function.
//!
//! This module states the layout twice, as the words that a value is written
//! as and as the value that words are read as, and proves that reading what
//! was written gives back the value.

use crate::instruction::{
    arity_admits, ComputeView, InstrView, ModifierView, HAS_MODIFIER, TAG_FOR_COMPUTE,
    TAG_FOR_CONST, TAG_IF_BIT, TAG_IF_COMPUTE, TAG_WHILE_BIT, TAG_WHILE_COMPUTE,
};
use crate::operation::{Arity, OpView, TAG_COMPUTE};
use crate::storage;
use crate::storage::{words_of, Transparent, Word};
use vstd::prelude::*;

verus! {

/// Why words could not be read as an instruction.
#[derive(Copy, Clone, PartialEq, Eq, Hash, Debug, Structural)]
pub enum DecodeError {
    /// The words end before the instruction does.
    UnexpectedEnd,
    /// The tag of the header names no kind of operation.
    InvalidOperation,
    /// The tag of the modifier names no modifier.
    InvalidModifier,
}

/// The header word that holds the flags and the tag.
pub open spec fn header_word(flags: u16, tag: u16) -> Word {
    (flags as u32) | ((tag as u32) << 16)
}

/// The flags that a header word holds.
pub open spec fn header_flags(header: Word) -> u16 {
    (header & 0xFFFF) as u16
}

/// The tag that a header word holds.
pub open spec fn header_tag(header: Word) -> u16 {
    (header >> 16) as u16
}

/// The flags and the tag are read from a header as they were written to it,
/// and a header is written from its flags and its tag as it was.
pub proof fn lemma_header_fields(flags: u16, tag: u16, header: Word)
    ensures
        header_flags(header_word(flags, tag)) == flags,
        header_tag(header_word(flags, tag)) == tag,
        header_word(header_flags(header), header_tag(header)) == header,
{
    assert((((flags as u32) | ((tag as u32) << 16)) & 0xFFFF) as u16 == flags) by (bit_vector);
    assert((((flags as u32) | ((tag as u32) << 16)) >> 16) as u16 == tag) by (bit_vector);
    assert((((header & 0xFFFF) as u16) as u32) | ((((header >> 16) as u16) as u32) << 16) == header)
        by (bit_vector);
}

/// Whether the flags say that a modifier follows the operands.
pub open spec fn has_modifier(flags: u16) -> bool {
    flags & HAS_MODIFIER == HAS_MODIFIER
}

/// The flags of an instruction with or without a modifier.
pub open spec fn flags_for(modifier: bool) -> u16 {
    if modifier {
        HAS_MODIFIER
    } else {
        0
    }
}

/// The flags of an instruction say whether it has a modifier.
pub proof fn lemma_flags_for(modifier: bool)
    ensures
        has_modifier(flags_for(modifier)) == modifier,
{
    assert(1u16 & 1u16 == 1u16) by (bit_vector);
    assert(0u16 & 1u16 != 1u16) by (bit_vector);
}

/// The words of a compute.
pub open spec fn encode_compute(compute: ComputeView) -> Seq<Word> {
    seq![compute.bits.len() as u32] + compute.bits + seq![compute.func]
}

/// The words of a kind of operation, under a header with the given flags.
pub open spec fn encode_op(op: OpView, flags: u16) -> Seq<Word> {
    seq![header_word(flags, op.tag())] + match op {
        OpView::Compute(compute) => encode_compute(compute),
        _ => Seq::empty(),
    }
}

/// The words of one class of operands of an operation that takes `arity`
/// of them.
pub open spec fn encode_operands(arity: Option<u32>, operands: Seq<Word>) -> Seq<Word> {
    match arity {
        Some(_) => operands,
        None => seq![operands.len() as u32] + operands,
    }
}

/// The words of a modifier.
pub open spec fn encode_modifier(modifier: ModifierView) -> Seq<Word> {
    match modifier {
        ModifierView::IfBit(bit) => seq![TAG_IF_BIT, bit],
        ModifierView::IfCompute(compute) => seq![TAG_IF_COMPUTE] + encode_compute(compute),
        ModifierView::WhileBit(bit) => seq![TAG_WHILE_BIT, bit],
        ModifierView::WhileCompute(compute) => seq![TAG_WHILE_COMPUTE] + encode_compute(compute),
        ModifierView::ForConst(count) => seq![TAG_FOR_CONST, count],
        ModifierView::ForCompute(compute) => seq![TAG_FOR_COMPUTE] + encode_compute(compute),
    }
}

/// The words of a modifier, if there is one.
pub open spec fn encode_optional_modifier(modifier: Option<ModifierView>) -> Seq<Word> {
    match modifier {
        Some(m) => encode_modifier(m),
        None => Seq::empty(),
    }
}

/// The words of an instruction.
#[verifier::opaque]
pub open spec fn encode_instr(instr: InstrView) -> Seq<Word> {
    encode_op(instr.op, flags_for(instr.modifier is Some)) + encode_operands(
        instr.op.qubits(),
        instr.qubits,
    ) + encode_operands(instr.op.bits(), instr.bits) + encode_operands(
        instr.op.parameters(),
        instr.parameters,
    ) + encode_optional_modifier(instr.modifier)
}

/// The words of a sequence of instructions: those of each, one after
/// another.
pub open spec fn encode_all(instrs: Seq<InstrView>) -> Seq<Word>
    decreases instrs.len(),
{
    if instrs.len() == 0 {
        Seq::empty()
    } else {
        encode_all(instrs.drop_last()) + encode_instr(instrs.last())
    }
}

/// Whether every instruction of the sequence is valid.
pub open spec fn all_valid(instrs: Seq<InstrView>) -> bool {
    forall|i: int| 0 <= i < instrs.len() ==> (#[trigger] instrs[i]).valid()
}

/// The first word, and the words after it.
pub open spec fn take_word(words: Seq<Word>) -> Result<(Word, Seq<Word>), DecodeError> {
    if words.len() == 0 {
        Err(DecodeError::UnexpectedEnd)
    } else {
        Ok((words[0], words.skip(1)))
    }
}

/// The first `n` words, and the words after them.
pub open spec fn take_words(words: Seq<Word>, n: int) -> Result<
    (Seq<Word>, Seq<Word>),
    DecodeError,
> {
    if words.len() < n {
        Err(DecodeError::UnexpectedEnd)
    } else {
        Ok((words.take(n), words.skip(n)))
    }
}

/// The compute that the words begin with, and the words after it.
pub open spec fn decode_compute(words: Seq<Word>) -> Result<(ComputeView, Seq<Word>), DecodeError> {
    match take_word(words) {
        Err(e) => Err(e),
        Ok((len, after_len)) => match take_words(after_len, len as int) {
            Err(e) => Err(e),
            Ok((bits, after_bits)) => match take_word(after_bits) {
                Err(e) => Err(e),
                Ok((func, rest)) => Ok((ComputeView { bits, func }, rest)),
            },
        },
    }
}

/// The kind of operation and the flags that the words begin with, and the
/// words after them.
pub open spec fn decode_op(words: Seq<Word>) -> Result<((OpView, u16), Seq<Word>), DecodeError> {
    match take_word(words) {
        Err(e) => Err(e),
        Ok((header, after_header)) => if header_tag(header) == TAG_COMPUTE {
            match decode_compute(after_header) {
                Err(e) => Err(e),
                Ok((compute, rest)) => Ok(
                    ((OpView::Compute(compute), header_flags(header)), rest),
                ),
            }
        } else {
            match OpView::plain(header_tag(header)) {
                None => Err(DecodeError::InvalidOperation),
                Some(op) => Ok(((op, header_flags(header)), after_header)),
            }
        },
    }
}

/// The operands of one class that the words begin with, for an operation
/// that takes `arity` of them, and the words after them.
pub open spec fn decode_operands(arity: Option<u32>, words: Seq<Word>) -> Result<
    (Seq<Word>, Seq<Word>),
    DecodeError,
> {
    match arity {
        Some(n) => take_words(words, n as int),
        None => match take_word(words) {
            Err(e) => Err(e),
            Ok((len, after_len)) => take_words(after_len, len as int),
        },
    }
}

/// The modifier that the words begin with, and the words after it.
pub open spec fn decode_modifier(words: Seq<Word>) -> Result<
    (ModifierView, Seq<Word>),
    DecodeError,
> {
    match take_word(words) {
        Err(e) => Err(e),
        Ok((tag, after_tag)) => if tag == TAG_IF_BIT {
            match take_word(after_tag) {
                Err(e) => Err(e),
                Ok((bit, rest)) => Ok((ModifierView::IfBit(bit), rest)),
            }
        } else if tag == TAG_IF_COMPUTE {
            match decode_compute(after_tag) {
                Err(e) => Err(e),
                Ok((compute, rest)) => Ok((ModifierView::IfCompute(compute), rest)),
            }
        } else if tag == TAG_WHILE_BIT {
            match take_word(after_tag) {
                Err(e) => Err(e),
                Ok((bit, rest)) => Ok((ModifierView::WhileBit(bit), rest)),
            }
        } else if tag == TAG_WHILE_COMPUTE {
            match decode_compute(after_tag) {
                Err(e) => Err(e),
                Ok((compute, rest)) => Ok((ModifierView::WhileCompute(compute), rest)),
            }
        } else if tag == TAG_FOR_CONST {
            match take_word(after_tag) {
                Err(e) => Err(e),
                Ok((count, rest)) => Ok((ModifierView::ForConst(count), rest)),
            }
        } else if tag == TAG_FOR_COMPUTE {
            match decode_compute(after_tag) {
                Err(e) => Err(e),
                Ok((compute, rest)) => Ok((ModifierView::ForCompute(compute), rest)),
            }
        } else {
            Err(DecodeError::InvalidModifier)
        },
    }
}

/// The modifier that the words begin with where `present` says that there
/// is one, and the words after it.
pub open spec fn decode_optional_modifier(present: bool, words: Seq<Word>) -> Result<
    (Option<ModifierView>, Seq<Word>),
    DecodeError,
> {
    if present {
        match decode_modifier(words) {
            Err(e) => Err(e),
            Ok((modifier, rest)) => Ok((Some(modifier), rest)),
        }
    } else {
        Ok((None, words))
    }
}

/// The instruction that the words begin with, and the words after it.
#[verifier::opaque]
pub open spec fn decode_instr(words: Seq<Word>) -> Result<(InstrView, Seq<Word>), DecodeError> {
    match decode_op(words) {
        Err(e) => Err(e),
        Ok(((op, flags), after_op)) => match decode_operands(op.qubits(), after_op) {
            Err(e) => Err(e),
            Ok((qubits, after_qubits)) => match decode_operands(op.bits(), after_qubits) {
                Err(e) => Err(e),
                Ok((bits, after_bits)) => match decode_operands(op.parameters(), after_bits) {
                    Err(e) => Err(e),
                    Ok((parameters, after_parameters)) => match decode_optional_modifier(
                        has_modifier(flags),
                        after_parameters,
                    ) {
                        Err(e) => Err(e),
                        Ok((modifier, rest)) => Ok(
                            (InstrView { op, qubits, bits, parameters, modifier }, rest),
                        ),
                    },
                },
            },
        },
    }
}

/// A word that is written in front of other words is read back, and leaves
/// the other words.
pub proof fn lemma_word_round_trip(word: Word, rest: Seq<Word>)
    ensures
        take_word(seq![word] + rest) == Ok::<(Word, Seq<Word>), DecodeError>((word, rest)),
{
    assert((seq![word] + rest).skip(1) =~= rest);
}

/// Words that are written in front of other words are read back, and leave
/// the other words.
pub proof fn lemma_words_round_trip(words: Seq<Word>, rest: Seq<Word>)
    ensures
        take_words(words + rest, words.len() as int) == Ok::<(Seq<Word>, Seq<Word>), DecodeError>(
            (words, rest),
        ),
{
    assert((words + rest).take(words.len() as int) =~= words);
    assert((words + rest).skip(words.len() as int) =~= rest);
}

/// A compute that is written in front of other words is read back, and
/// leaves the other words.
pub proof fn lemma_compute_round_trip(compute: ComputeView, rest: Seq<Word>)
    requires
        compute.valid(),
    ensures
        decode_compute(encode_compute(compute) + rest) == Ok::<
            (ComputeView, Seq<Word>),
            DecodeError,
        >((compute, rest)),
{
    let len = compute.bits.len() as u32;
    let after_bits = seq![compute.func] + rest;
    let after_len = compute.bits + after_bits;
    assert(encode_compute(compute) + rest =~= seq![len] + after_len);
    lemma_word_round_trip(len, after_len);
    lemma_words_round_trip(compute.bits, after_bits);
    lemma_word_round_trip(compute.func, rest);
}

/// A kind of operation that is written with some flags in front of other
/// words is read back with these flags, and leaves the other words.
pub proof fn lemma_op_round_trip(op: OpView, flags: u16, rest: Seq<Word>)
    requires
        op.valid(),
    ensures
        decode_op(encode_op(op, flags) + rest) == Ok::<((OpView, u16), Seq<Word>), DecodeError>(
            ((op, flags), rest),
        ),
{
    let header = header_word(flags, op.tag());
    lemma_header_fields(flags, op.tag(), 0);
    match op {
        OpView::Compute(compute) => {
            let after_header = encode_compute(compute) + rest;
            assert(encode_op(op, flags) + rest =~= seq![header] + after_header);
            lemma_word_round_trip(header, after_header);
            lemma_compute_round_trip(compute, rest);
        },
        _ => {
            assert(encode_op(op, flags) + rest =~= seq![header] + rest);
            lemma_word_round_trip(header, rest);
            assert(OpView::plain(op.tag()) == Some(op));
        },
    }
}

/// The operands of one class that are written in front of other words are
/// read back, and leave the other words.
pub proof fn lemma_operands_round_trip(arity: Option<u32>, operands: Seq<Word>, rest: Seq<Word>)
    requires
        arity_admits(arity, operands.len()),
    ensures
        decode_operands(arity, encode_operands(arity, operands) + rest) == Ok::<
            (Seq<Word>, Seq<Word>),
            DecodeError,
        >((operands, rest)),
{
    match arity {
        Some(n) => {
            lemma_words_round_trip(operands, rest);
        },
        None => {
            let len = operands.len() as u32;
            let after_len = operands + rest;
            assert(encode_operands(arity, operands) + rest =~= seq![len] + after_len);
            lemma_word_round_trip(len, after_len);
            lemma_words_round_trip(operands, rest);
        },
    }
}

/// A modifier that is written in front of other words is read back, and
/// leaves the other words.
pub proof fn lemma_modifier_round_trip(modifier: ModifierView, rest: Seq<Word>)
    requires
        modifier.valid(),
    ensures
        decode_modifier(encode_modifier(modifier) + rest) == Ok::<
            (ModifierView, Seq<Word>),
            DecodeError,
        >((modifier, rest)),
{
    match modifier {
        ModifierView::IfBit(word) | ModifierView::WhileBit(word) | ModifierView::ForConst(word) => {
            let tag = encode_modifier(modifier)[0];
            let after_tag = seq![word] + rest;
            assert(encode_modifier(modifier) + rest =~= seq![tag] + after_tag);
            lemma_word_round_trip(tag, after_tag);
            lemma_word_round_trip(word, rest);
        },
        ModifierView::IfCompute(compute) | ModifierView::WhileCompute(compute)
        | ModifierView::ForCompute(compute) => {
            let tag = encode_modifier(modifier)[0];
            let after_tag = encode_compute(compute) + rest;
            assert(encode_modifier(modifier) + rest =~= seq![tag] + after_tag);
            lemma_word_round_trip(tag, after_tag);
            lemma_compute_round_trip(compute, rest);
        },
    }
}

/// Reading what was written gives back the instruction: an instruction
/// that takes as many operands of each class as its operation does, written
/// in front of other words, is read back with the same operation, the same
/// operands and the same modifier, and leaves the other words.
pub proof fn lemma_instr_round_trip(instr: InstrView, rest: Seq<Word>)
    requires
        instr.valid(),
    ensures
        decode_instr(encode_instr(instr) + rest) == Ok::<(InstrView, Seq<Word>), DecodeError>(
            (instr, rest),
        ),
{
    reveal(encode_instr);
    reveal(decode_instr);
    let flags = flags_for(instr.modifier is Some);
    let words = encode_instr(instr) + rest;
    let after_parameters = encode_optional_modifier(instr.modifier) + rest;
    let after_bits = encode_operands(instr.op.parameters(), instr.parameters) + after_parameters;
    let after_qubits = encode_operands(instr.op.bits(), instr.bits) + after_bits;
    let after_op = encode_operands(instr.op.qubits(), instr.qubits) + after_qubits;
    assert(words == encode_op(instr.op, flags) + after_op) by {
        lemma_regroup(
            encode_op(instr.op, flags),
            encode_operands(instr.op.qubits(), instr.qubits),
            encode_operands(instr.op.bits(), instr.bits),
            encode_operands(instr.op.parameters(), instr.parameters),
            encode_optional_modifier(instr.modifier),
            rest,
        );
    }
    assert(decode_op(words) == Ok::<((OpView, u16), Seq<Word>), DecodeError>(
        ((instr.op, flags), after_op),
    )) by {
        lemma_op_round_trip(instr.op, flags, after_op);
    }
    assert(decode_operands(instr.op.qubits(), after_op) == Ok::<
        (Seq<Word>, Seq<Word>),
        DecodeError,
    >((instr.qubits, after_qubits))) by {
        lemma_operands_round_trip(instr.op.qubits(), instr.qubits, after_qubits);
    }
    assert(decode_operands(instr.op.bits(), after_qubits) == Ok::<
        (Seq<Word>, Seq<Word>),
        DecodeError,
    >((instr.bits, after_bits))) by {
        lemma_operands_round_trip(instr.op.bits(), instr.bits, after_bits);
    }
    assert(decode_operands(instr.op.parameters(), after_bits) == Ok::<
        (Seq<Word>, Seq<Word>),
        DecodeError,
    >((instr.parameters, after_parameters))) by {
        lemma_operands_round_trip(instr.op.parameters(), instr.parameters, after_parameters);
    }
    assert(decode_optional_modifier(has_modifier(flags), after_parameters) == Ok::<
        (Option<ModifierView>, Seq<Word>),
        DecodeError,
    >((instr.modifier, rest))) by {
        lemma_flags_for(instr.modifier is Some);
        match instr.modifier {
            Some(modifier) => {
                lemma_modifier_round_trip(modifier, rest);
            },
            None => {
                assert(after_parameters =~= rest);
            },
        }
    }
}

/// Words that were put together from the left are the same words put
/// together from the right.
proof fn lemma_regroup(
    a: Seq<Word>,
    b: Seq<Word>,
    c: Seq<Word>,
    d: Seq<Word>,
    e: Seq<Word>,
    rest: Seq<Word>,
)
    ensures
        (a + b + c + d + e) + rest == a + (b + (c + (d + (e + rest)))),
{
    assert((a + b + c + d + e) + rest =~= a + (b + (c + (d + (e + rest)))));
}

/// An instruction is written as at least one word.
pub proof fn lemma_instr_not_empty(instr: InstrView)
    ensures
        encode_instr(instr).len() > 0,
{
    reveal(encode_instr);
}

/// A compute that was read is valid, and took at least two words.
pub proof fn lemma_decoded_compute(words: Seq<Word>)
    requires
        decode_compute(words) is Ok,
    ensures
        decode_compute(words)->Ok_0.0.valid(),
        decode_compute(words)->Ok_0.1.len() + 2 <= words.len(),
{
}

/// The operands that were read are as many as the operation takes, and
/// what is left is no longer than what was there.
pub proof fn lemma_decoded_operands(arity: Option<u32>, words: Seq<Word>)
    requires
        decode_operands(arity, words) is Ok,
    ensures
        arity_admits(arity, decode_operands(arity, words)->Ok_0.0.len()),
        decode_operands(arity, words)->Ok_0.1.len() <= words.len(),
{
}

/// A modifier that was read is valid, and what is left is no longer than
/// what was there.
pub proof fn lemma_decoded_modifier(words: Seq<Word>)
    requires
        decode_modifier(words) is Ok,
    ensures
        decode_modifier(words)->Ok_0.0.valid(),
        decode_modifier(words)->Ok_0.1.len() <= words.len(),
{
    let tag = words[0];
    let after_tag = words.skip(1);
    if tag == TAG_IF_COMPUTE || tag == TAG_WHILE_COMPUTE || tag == TAG_FOR_COMPUTE {
        lemma_decoded_compute(after_tag);
    }
}

/// An instruction that was read is valid: it takes as many operands of
/// each class as its operation does. Reading it took at least one word.
pub proof fn lemma_decoded_instr(words: Seq<Word>)
    requires
        decode_instr(words) is Ok,
    ensures
        decode_instr(words)->Ok_0.0.valid(),
        decode_instr(words)->Ok_0.1.len() < words.len(),
{
    reveal(decode_instr);
    let ((op, flags), after_op) = decode_op(words)->Ok_0;
    assert(op.valid() && after_op.len() < words.len()) by {
        if header_tag(words[0]) == TAG_COMPUTE {
            lemma_decoded_compute(words.skip(1));
        }
    }
    lemma_decoded_operands(op.qubits(), after_op);
    let (qubits, after_qubits) = decode_operands(op.qubits(), after_op)->Ok_0;
    lemma_decoded_operands(op.bits(), after_qubits);
    let (bits, after_bits) = decode_operands(op.bits(), after_qubits)->Ok_0;
    lemma_decoded_operands(op.parameters(), after_bits);
    let (parameters, after_parameters) = decode_operands(op.parameters(), after_bits)->Ok_0;
    if has_modifier(flags) {
        lemma_decoded_modifier(after_parameters);
    }
}

/// Writing what was read gives words that are read as the same
/// instruction. They need not be the words that were read: flags that mean
/// nothing are not written again.
pub proof fn lemma_decoded_instr_round_trip(words: Seq<Word>)
    requires
        decode_instr(words) is Ok,
    ensures
        decode_instr(encode_instr(decode_instr(words)->Ok_0.0) + decode_instr(words)->Ok_0.1)
            == decode_instr(words),
{
    lemma_decoded_instr(words);
    lemma_instr_round_trip(decode_instr(words)->Ok_0.0, decode_instr(words)->Ok_0.1);
}

/// The instructions that the words hold, one after another, or why the
/// words hold no sequence of instructions.
pub open spec fn decode_all(words: Seq<Word>) -> Result<Seq<InstrView>, DecodeError>
    decreases words.len(),
{
    if words.len() == 0 {
        Ok(Seq::empty())
    } else {
        match decode_instr(words) {
            Err(e) => Err(e),
            Ok((instr, rest)) => {
                proof {
                    lemma_decoded_instr(words);
                }
                match decode_all(rest) {
                    Err(e) => Err(e),
                    Ok(others) => Ok(seq![instr] + others),
                }
            },
        }
    }
}

/// The instructions that words hold are valid.
pub proof fn lemma_decoded_all(words: Seq<Word>)
    requires
        decode_all(words) is Ok,
    ensures
        all_valid(decode_all(words)->Ok_0),
    decreases words.len(),
{
    if words.len() > 0 {
        lemma_decoded_instr(words);
        lemma_decoded_all(decode_instr(words)->Ok_0.1);
    }
}

/// The instructions that words hold are the first of them, and then those
/// that the words after it hold.
pub proof fn lemma_decode_all_step(words: Seq<Word>, instr: InstrView, rest: Seq<Word>)
    requires
        words.len() > 0,
        decode_instr(words) == Ok::<(InstrView, Seq<Word>), DecodeError>((instr, rest)),
    ensures
        decode_all(words) == match decode_all(rest) {
            Err(e) => Err::<Seq<InstrView>, DecodeError>(e),
            Ok(others) => Ok(seq![instr] + others),
        },
{
}

/// The words of a sequence with one more instruction are those of the
/// sequence, and then those of the instruction.
pub proof fn lemma_encode_all_push(instrs: Seq<InstrView>, instr: InstrView)
    ensures
        encode_all(instrs.push(instr)) == encode_all(instrs) + encode_instr(instr),
{
    assert(instrs.push(instr).drop_last() =~= instrs);
}

/// The words of two sequences of instructions, one after the other, are
/// those of the first and then those of the second.
pub proof fn lemma_encode_all_concat(first: Seq<InstrView>, second: Seq<InstrView>)
    ensures
        encode_all(first + second) == encode_all(first) + encode_all(second),
    decreases second.len(),
{
    if second.len() == 0 {
        assert(first + second =~= first);
        assert(encode_all(first) + encode_all(second) =~= encode_all(first));
    } else {
        lemma_encode_all_concat(first, second.drop_last());
        assert((first + second).drop_last() =~= first + second.drop_last());
        assert(encode_all(first + second) =~= encode_all(first) + encode_all(second));
    }
}

/// The words of a sequence of instructions begin with those of its first
/// instruction; those of the others follow.
pub proof fn lemma_encode_all_front(instrs: Seq<InstrView>)
    requires
        instrs.len() > 0,
    ensures
        encode_all(instrs) == encode_instr(instrs[0]) + encode_all(instrs.skip(1)),
{
    let head = seq![instrs[0]];
    assert(instrs =~= head + instrs.skip(1));
    lemma_encode_all_concat(head, instrs.skip(1));
    assert(head.drop_last() =~= Seq::<InstrView>::empty());
    assert(encode_all(head) =~= encode_instr(instrs[0])) by {
        reveal_with_fuel(encode_all, 2);
    }
}

/// Only the empty sequence of instructions is written as no word at all.
pub proof fn lemma_encode_all_empty(instrs: Seq<InstrView>)
    ensures
        encode_all(instrs).len() == 0 <==> instrs.len() == 0,
{
    if instrs.len() > 0 {
        lemma_instr_not_empty(instrs.last());
    }
}

/// Reading the words of a sequence of valid instructions gives its first
/// instruction, and leaves the words of the others.
pub proof fn lemma_decode_front(instrs: Seq<InstrView>)
    requires
        instrs.len() > 0,
        all_valid(instrs),
    ensures
        decode_instr(encode_all(instrs)) == Ok::<(InstrView, Seq<Word>), DecodeError>(
            (instrs[0], encode_all(instrs.skip(1))),
        ),
{
    lemma_encode_all_front(instrs);
    lemma_instr_round_trip(instrs[0], encode_all(instrs.skip(1)));
}

/// Reading the words of a sequence of valid instructions gives back the
/// sequence.
pub proof fn lemma_all_round_trip(instrs: Seq<InstrView>)
    requires
        all_valid(instrs),
    ensures
        decode_all(encode_all(instrs)) == Ok::<Seq<InstrView>, DecodeError>(instrs),
    decreases instrs.len(),
{
    let words = encode_all(instrs);
    lemma_encode_all_empty(instrs);
    if instrs.len() > 0 {
        let others = instrs.skip(1);
        lemma_decode_front(instrs);
        lemma_all_round_trip(others);
        lemma_decode_all_step(words, instrs[0], encode_all(others));
        assert(seq![instrs[0]] + others =~= instrs);
    } else {
        assert(instrs =~= Seq::empty());
    }
}

/// Reads a single value from the front of the source, if there is one.
pub fn next_word<T: Transparent>(src: &mut &[Word]) -> (value: Result<T, DecodeError>)
    ensures
        match take_word(old(src)@) {
            Ok((word, rest)) => value matches Ok(v) && v.word() == word && final(src)@ == rest,
            Err(e) => value == Err::<T, DecodeError>(e) && final(src)@ == old(src)@,
        },
{
    if src.len() == 0 {
        Err(DecodeError::UnexpectedEnd)
    } else {
        Ok(storage::read(src))
    }
}

/// Reads `len` values from the front of the source, if there are as many.
pub fn next_words<T: Transparent>(src: &mut &[Word], len: u32) -> (values: Result<
    Vec<T>,
    DecodeError,
>)
    ensures
        match take_words(old(src)@, len as int) {
            Ok((words, rest)) => values matches Ok(v) && words_of(v@) == words && final(src)@
                == rest,
            Err(e) => values == Err::<Vec<T>, DecodeError>(e) && final(src)@ == old(src)@,
        },
{
    if src.len() < len as usize {
        Err(DecodeError::UnexpectedEnd)
    } else {
        Ok(storage::read_slice(src, len))
    }
}

/// Writes the operands of one class, after their number where the
/// operation takes any number of them.
pub fn write_operands<T: Transparent>(arity: Arity, dest: &mut Vec<Word>, operands: &[T])
    requires
        operands@.len() <= u32::MAX,
    ensures
        final(dest)@ == old(dest)@ + encode_operands(arity@, words_of(operands@)),
{
    if arity.is_variadic() {
        storage::write(dest, operands.len() as u32);
    }
    storage::write_slice(dest, operands);
    assert(dest@ =~= old(dest)@ + encode_operands(arity@, words_of(operands@)));
}

/// Reads the operands of one class: as many as the operation takes, or as
/// many as the word before them says where it takes any number.
pub fn read_operands<T: Transparent>(arity: Arity, src: &mut &[Word]) -> (operands: Result<
    Vec<T>,
    DecodeError,
>)
    ensures
        match decode_operands(arity@, old(src)@) {
            Ok((words, rest)) => operands matches Ok(v) && words_of(v@) == words && final(src)@
                == rest,
            Err(e) => operands == Err::<Vec<T>, DecodeError>(e) && final(src)@ == old(src)@,
        },
{
    let start: &[Word] = *src;
    let len: u32 = match arity.get() {
        Some(n) => n,
        None => match next_word::<u32>(src) {
            Ok(n) => n,
            Err(e) => {
                return Err(e);
            },
        },
    };
    match next_words(src, len) {
        Ok(values) => Ok(values),
        Err(e) => {
            *src = start;
            Err(e)
        },
    }
}

} // verus!
