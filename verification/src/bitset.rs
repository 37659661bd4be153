//! A fixed-size set of bits, the snapshot of classical bits that a classical
//! function of a circuit is evaluated on.

use vstd::prelude::*;

verus! {

/// A sequence of `len()` bits, all `false` when created.
#[derive(PartialEq, Eq, Debug)]
pub struct BitSet {
    size: usize,
    data: Vec<u8>,
}

/// Whether bit `k` of the byte is set.
pub open spec fn byte_bit(byte: u8, k: u8) -> bool {
    (byte >> k) & 1 == 1
}

/// The number of bytes that hold `size` bits.
pub open spec fn bytes_for(size: int) -> int {
    if size % 8 == 0 {
        size / 8
    } else {
        size / 8 + 1
    }
}

/// Returns the index of the byte that contains the `index`th bit.
fn word(index: usize) -> (w: usize)
    ensures
        w == index / 8,
{
    assert(index >> 3 == index / 8) by (bit_vector);
    index >> 3
}

/// Returns a mask of the position of the `index`th bit in its containing byte.
fn mask(index: usize) -> (m: u8)
    ensures
        m == 1u8 << ((index % 8) as u8),
{
    assert(index & 7 == index % 8) by (bit_vector);
    let k: u8 = (index & 7) as u8;
    1u8 << k
}

/// Testing a byte against the mask of a bit tells whether the bit is set.
proof fn lemma_mask_test(byte: u8, k: u8)
    requires
        k < 8,
    ensures
        (byte & (1u8 << k) != 0) == byte_bit(byte, k),
{
    assert(k < 8 ==> ((byte & (1u8 << k) != 0) == ((byte >> k) & 1 == 1))) by (bit_vector);
}

/// Joining a byte with the mask of a bit sets that bit and no other.
proof fn lemma_mask_set(byte: u8, k: u8, j: u8)
    requires
        k < 8,
        j < 8,
    ensures
        byte_bit(byte | (1u8 << k), j) == (j == k || byte_bit(byte, j)),
{
    assert(k < 8 && j < 8 ==> ((((byte | (1u8 << k)) >> j) & 1 == 1) == (j == k || (byte >> j) & 1
        == 1))) by (bit_vector);
}

/// Meeting a byte with the complement of the mask of a bit clears that bit
/// and no other.
proof fn lemma_mask_clear(byte: u8, k: u8, j: u8)
    requires
        k < 8,
        j < 8,
    ensures
        byte_bit(byte & !(1u8 << k), j) == (j != k && byte_bit(byte, j)),
{
    assert(k < 8 && j < 8 ==> ((((byte & !(1u8 << k)) >> j) & 1 == 1) == (j != k && (byte >> j) & 1
        == 1))) by (bit_vector);
}

/// No bit of the zero byte is set.
proof fn lemma_zero_byte(k: u8)
    requires
        k < 8,
    ensures
        !byte_bit(0u8, k),
{
    assert(k < 8 ==> (0u8 >> k) & 1 == 0) by (bit_vector);
}

impl BitSet {
    /// The set has as many bytes as its bits take.
    #[verifier::type_invariant]
    spec fn well_formed(&self) -> bool {
        self.data@.len() == bytes_for(self.size as int)
    }

    /// The bits of the set, in order.
    pub closed spec fn bits(&self) -> Seq<bool> {
        Seq::new(self.size as nat, |i: int| byte_bit(self.data@[i / 8], (i % 8) as u8))
    }

    /// Creates a set of `size` bits, all `false`.
    pub fn new(size: usize) -> (set: Self)
        ensures
            set@ == Seq::new(size as nat, |i: int| false),
    {
        let full: usize = word(size);
        let bytes: usize = if size % 8 == 0 {
            full
        } else {
            full + 1
        };
        let mut data: Vec<u8> = Vec::with_capacity(bytes);
        let mut i: usize = 0;
        while i < bytes
            invariant
                i <= bytes,
                data@.len() == i,
                forall|k: int| 0 <= k < i ==> data@[k] == 0u8,
            decreases bytes - i,
        {
            data.push(0u8);
            i += 1;
        }
        let set = BitSet { size, data };
        proof {
            assert forall|i: int| 0 <= i < size implies !(#[trigger] set.bits()[i]) by {
                lemma_zero_byte((i % 8) as u8);
            }
            assert(set.bits() =~= Seq::new(size as nat, |i: int| false));
        }
        set
    }

    /// The number of bits of the set.
    pub fn len(&self) -> (n: usize)
        ensures
            n == self@.len(),
    {
        self.size
    }

    /// The bit at `index`, or `None` where the set has no such bit.
    pub fn get(&self, index: usize) -> (bit: Option<bool>)
        ensures
            index < self@.len() ==> bit == Some(self@[index as int]),
            index >= self@.len() ==> bit is None,
    {
        proof {
            use_type_invariant(self);
        }
        if index < self.size {
            let byte: u8 = self.data[word(index)];
            let m: u8 = mask(index);
            proof {
                lemma_mask_test(byte, (index % 8) as u8);
            }
            Some(byte & m != 0)
        } else {
            None
        }
    }

    /// Sets the bit at `index` to `value`. Gives `None`, and changes
    /// nothing, where the set has no such bit.
    pub fn set(&mut self, index: usize, value: bool) -> (done: Option<()>)
        ensures
            index < old(self)@.len() ==> done is Some && final(self)@ == old(self)@.update(
                index as int,
                value,
            ),
            index >= old(self)@.len() ==> done is None && final(self)@ == old(self)@,
    {
        proof {
            use_type_invariant(&*self);
        }
        if index < self.size {
            let w: usize = word(index);
            let m: u8 = mask(index);
            let byte: u8 = self.data[w];
            let changed: u8 = if value {
                byte | m
            } else {
                byte & !m
            };
            self.data[w] = changed;
            proof {
                let k = (index % 8) as u8;
                let before = old(self).bits();
                assert forall|i: int| 0 <= i < self.size implies #[trigger] self.bits()[i]
                    == before.update(index as int, value)[i] by {
                    if i / 8 == w as int {
                        lemma_mask_set(byte, k, (i % 8) as u8);
                        lemma_mask_clear(byte, k, (i % 8) as u8);
                    }
                }
                assert(self.bits() =~= old(self).bits().update(index as int, value));
            }
            Some(())
        } else {
            None
        }
    }
}

impl Clone for BitSet {
    fn clone(&self) -> (copy: Self)
        ensures
            copy@ == self@,
    {
        proof {
            use_type_invariant(self);
        }
        let data: Vec<u8> = self.data.clone();
        assert(data@ =~= self.data@);
        let copy = BitSet { size: self.size, data };
        assert(copy.bits() =~= self.bits());
        copy
    }
}

impl View for BitSet {
    type V = Seq<bool>;

    open spec fn view(&self) -> Seq<bool> {
        self.bits()
    }
}

} // verus!
