//! Reading and writing values in a flat buffer of words.
//!
//! Every value that the instruction stream stores occupies exactly one word.
//! A type says how its values map to words by implementing [`Transparent`];
//! the functions here move such values, one by one or as slices, between a
//! growing destination and a shrinking source.

use vstd::prelude::*;
use vstd::slice::slice_subrange;

verus! {

/// The unit of storage.
pub type Word = u32;

/// A type whose values are stored as exactly one word each.
pub trait Transparent: Sized {
    /// The word that stores this value.
    spec fn word(&self) -> Word;

    /// Gives the word that stores this value.
    fn to_word(&self) -> (w: Word)
        ensures
            w == self.word(),
    ;

    /// Gives the value that the word stores. Every word stores some value,
    /// and writing that value again gives the same word.
    fn from_word(w: Word) -> (value: Self)
        ensures
            value.word() == w,
    ;
}

impl Transparent for Word {
    open spec fn word(&self) -> Word {
        *self
    }

    fn to_word(&self) -> (w: Word) {
        *self
    }

    fn from_word(w: Word) -> (value: Self) {
        w
    }
}

/// The words that store the values of `values`, in order.
pub open spec fn words_of<T: Transparent>(values: Seq<T>) -> Seq<Word> {
    Seq::new(values.len(), |i: int| values[i].word())
}

/// Reads a single word from the front of the source.
pub fn read_word(src: &mut &[Word]) -> (first: Word)
    requires
        old(src)@.len() > 0,
    ensures
        first == old(src)@[0],
        final(src)@ == old(src)@.skip(1),
{
    let all: &[Word] = *src;
    let first: Word = all[0];
    *src = slice_subrange(all, 1, all.len());
    first
}

/// Reads a single value from the front of the source.
pub fn read<T: Transparent>(src: &mut &[Word]) -> (value: T)
    requires
        old(src)@.len() > 0,
    ensures
        value.word() == old(src)@[0],
        final(src)@ == old(src)@.skip(1),
{
    let word: Word = read_word(src);
    T::from_word(word)
}

/// Reads `len` values from the front of the source.
pub fn read_slice<T: Transparent>(src: &mut &[Word], len: u32) -> (values: Vec<T>)
    requires
        len <= old(src)@.len(),
    ensures
        words_of(values@) == old(src)@.take(len as int),
        final(src)@ == old(src)@.skip(len as int),
{
    let all: &[Word] = *src;
    let n: usize = len as usize;
    let mut values: Vec<T> = Vec::with_capacity(n);
    let mut i: usize = 0;
    while i < n
        invariant
            n <= all@.len(),
            i <= n,
            values@.len() == i,
            forall|k: int| 0 <= k < i ==> (#[trigger] values@[k]).word() == all@[k],
        decreases n - i,
    {
        values.push(T::from_word(all[i]));
        i += 1;
    }
    *src = slice_subrange(all, n, all.len());
    assert(words_of(values@) =~= all@.take(len as int));
    values
}

/// Copies a slice of values into a vector of its own.
pub fn copy_slice<T: Copy>(slice: &[T]) -> (values: Vec<T>)
    ensures
        values@ == slice@,
{
    let mut values: Vec<T> = Vec::with_capacity(slice.len());
    let mut i: usize = 0;
    while i < slice.len()
        invariant
            i <= slice@.len(),
            values@ == slice@.take(i as int),
        decreases slice@.len() - i,
    {
        values.push(slice[i]);
        i += 1;
        assert(values@ =~= slice@.take(i as int));
    }
    assert(slice@.take(slice@.len() as int) =~= slice@);
    values
}

/// Writes a single value at the end of the destination.
pub fn write<T: Transparent>(dest: &mut Vec<Word>, data: T)
    ensures
        final(dest)@ == old(dest)@.push(data.word()),
{
    dest.push(data.to_word());
}

/// Writes the values of a slice, in order, at the end of the destination.
pub fn write_slice<T: Transparent>(dest: &mut Vec<Word>, slice: &[T])
    ensures
        final(dest)@ == old(dest)@ + words_of(slice@),
{
    let mut i: usize = 0;
    while i < slice.len()
        invariant
            i <= slice@.len(),
            dest@ == old(dest)@ + words_of(slice@.take(i as int)),
        decreases slice@.len() - i,
    {
        dest.push(slice[i].to_word());
        i += 1;
        assert(words_of(slice@.take(i as int)) =~= words_of(slice@.take(i - 1)).push(
            slice@[i - 1].word(),
        ));
        assert(dest@ =~= old(dest)@ + words_of(slice@.take(i as int)));
    }
    assert(slice@.take(slice@.len() as int) =~= slice@);
}

} // verus!
