//! One level of the filter: a fixed-length bit array whose insert and query
//! logic consults the full hash-function family.

use vstd::prelude::*;
use crate::hash::{hash_fold, str_bytes, HashFunction};

verus! {

/// The bit-array slot an item occupies under one hash function: the hash
/// reduced modulo the array size.
pub open spec fn slot_of(multiplier: u64, bytes: Seq<u8>, array_size: usize) -> int
    recommends
        array_size > 0,
{
    hash_fold(multiplier, bytes) as int % array_size as int
}

/// The multipliers of a sequence of hash functions, in order.
pub open spec fn mults_of(hash_functions: Seq<HashFunction>) -> Seq<u64> {
    hash_functions.map_values(|h: HashFunction| h@)
}

/// Whether a level's bit array reports an item present: every hash function's
/// slot is set. False positives are possible; a false answer is definite.
pub open spec fn level_has(
    bits: Seq<bool>,
    mults: Seq<u64>,
    array_size: usize,
    bytes: Seq<u8>,
) -> bool {
    forall|k: int|
        0 <= k < mults.len() ==> bits[#[trigger] slot_of(mults[k], bytes, array_size)]
}

/// Whether some hash function maps the item to slot `j`.
pub open spec fn slot_is_hit(
    mults: Seq<u64>,
    array_size: usize,
    bytes: Seq<u8>,
    j: int,
) -> bool {
    exists|k: int| 0 <= k < mults.len() && j == #[trigger] slot_of(mults[k], bytes, array_size)
}

/// A level's bit array after inserting an item: every slot the family maps
/// the item to is set, and no set bit is ever cleared.
pub open spec fn level_inserted(
    bits: Seq<bool>,
    mults: Seq<u64>,
    array_size: usize,
    bytes: Seq<u8>,
) -> Seq<bool> {
    Seq::new(bits.len(), |j: int| bits[j] || slot_is_hit(mults, array_size, bytes, j))
}

/// A single level: one fixed-size bit array, all-false at creation, whose
/// flags are only ever flipped to true.
#[derive(Debug)]
pub struct BloomLevel {
    bit_array: Vec<bool>,
}

impl View for BloomLevel {
    type V = Seq<bool>;

    closed spec fn view(&self) -> Seq<bool> {
        self.bit_array@
    }
}

impl BloomLevel {
    /// Allocates a flag sequence of the given length, all false.
    pub fn new(array_size: usize) -> (r: Self)
        ensures
            r@ == Seq::new(array_size as nat, |j: int| false),
    {
        let mut bits: Vec<bool> = Vec::new();
        let mut i: usize = 0;
        while i < array_size
            invariant
                i <= array_size,
                bits@ =~= Seq::new(i as nat, |j: int| false),
            decreases array_size - i,
        {
            bits.push(false);
            proof {
                assert(bits@ =~= Seq::new((i + 1) as nat, |j: int| false));
            }
            i = i + 1;
        }
        proof {
            assert(bits@ =~= Seq::new(array_size as nat, |j: int| false));
        }
        BloomLevel { bit_array: bits }
    }

    /// Rebuilds a level from a stored bit array, as decoded from a snapshot.
    pub fn from_bits(bits: Vec<bool>) -> (r: Self)
        ensures
            r@ == bits@,
    {
        BloomLevel { bit_array: bits }
    }

    /// The length of the bit array.
    pub fn len(&self) -> (r: usize)
        ensures
            r == self@.len(),
    {
        self.bit_array.len()
    }

    /// A copy of the bit array, for persisting the level.
    pub fn to_bits(&self) -> (r: Vec<bool>)
        ensures
            r@ == self@,
    {
        let mut bits: Vec<bool> = Vec::new();
        let mut i: usize = 0;
        while i < self.bit_array.len()
            invariant
                i <= self@.len(),
                bits@ =~= self@.take(i as int),
            decreases self@.len() - i,
        {
            bits.push(self.bit_array[i]);
            proof {
                assert(bits@ =~= self@.take(i + 1));
            }
            i = i + 1;
        }
        proof {
            assert(bits@ =~= self@);
        }
        bits
    }

    /// Sets the slot of every hash function in the family to true. Repeated
    /// insertion of the same item changes nothing further.
    pub fn insert(
        &mut self,
        item: &str,
        hash_functions: &Vec<HashFunction>,
        array_size: usize,
    )
        requires
            old(self)@.len() == array_size,
            array_size > 0,
        ensures
            final(self)@ == level_inserted(
                old(self)@,
                mults_of(hash_functions@),
                array_size,
                str_bytes(item),
            ),
    {
        let ghost m = mults_of(hash_functions@);
        let ghost b = str_bytes(item);
        let mut k: usize = 0;
        while k < hash_functions.len()
            invariant
                k <= hash_functions@.len(),
                m == mults_of(hash_functions@),
                b == str_bytes(item),
                self@.len() == array_size,
                array_size > 0,
                forall|j: int|
                    0 <= j < array_size ==> self@[j] == (old(self)@[j] || exists|t: int|
                        0 <= t < k && j == #[trigger] slot_of(m[t], b, array_size)),
            decreases hash_functions@.len() - k,
        {
            let hv = hash_functions[k].hash(item);
            let idx = (hv % (array_size as u64)) as usize;
            proof {
                assert(hash_functions@[k as int]@ == m[k as int]);
                assert(idx as int == slot_of(m[k as int], b, array_size));
            }
            let ghost prev = self@;
            self.bit_array.set(idx, true);
            proof {
                assert forall|j: int| 0 <= j < array_size implies self@[j] == (old(self)@[j]
                    || exists|t: int|
                        0 <= t < k + 1 && j == #[trigger] slot_of(m[t], b, array_size)) by {
                    if j == idx {
                        assert(j == slot_of(m[k as int], b, array_size));
                        assert(self@[j]);
                    } else {
                        assert(self@[j] == prev[j]);
                        if exists|t: int|
                            0 <= t < k + 1 && j == #[trigger] slot_of(m[t], b, array_size) {
                            let t = choose|t: int|
                                0 <= t < k + 1 && j == #[trigger] slot_of(m[t], b, array_size);
                            assert(t < k);
                        }
                    }
                }
            }
            k = k + 1;
        }
        proof {
            assert(self@ =~= level_inserted(old(self)@, m, array_size, b));
        }
    }

    /// Reports whether the item may be present in this level: true only if
    /// every hash function's slot is set; false as soon as one is not.
    pub fn query(
        &self,
        item: &str,
        hash_functions: &Vec<HashFunction>,
        array_size: usize,
    ) -> (r: bool)
        requires
            self@.len() == array_size,
            array_size > 0,
        ensures
            r == level_has(self@, mults_of(hash_functions@), array_size, str_bytes(item)),
    {
        let ghost m = mults_of(hash_functions@);
        let ghost b = str_bytes(item);
        let mut k: usize = 0;
        while k < hash_functions.len()
            invariant
                k <= hash_functions@.len(),
                m == mults_of(hash_functions@),
                b == str_bytes(item),
                self@.len() == array_size,
                array_size > 0,
                forall|t: int| 0 <= t < k ==> self@[#[trigger] slot_of(m[t], b, array_size)],
            decreases hash_functions@.len() - k,
        {
            let hv = hash_functions[k].hash(item);
            let idx = (hv % (array_size as u64)) as usize;
            proof {
                assert(hash_functions@[k as int]@ == m[k as int]);
                assert(idx as int == slot_of(m[k as int], b, array_size));
            }
            if !self.bit_array[idx] {
                proof {
                    assert(!self@[slot_of(m[k as int], b, array_size)]);
                }
                return false;
            }
            k = k + 1;
        }
        true
    }
}

} // verus!
