//! The layered filter: an ordered sequence of levels sharing one
//! hash-function family and one array size. Insertion fans out to every
//! level; querying searches a clamped prefix of the levels and
//! short-circuits on the first level that reports a hit.

use vstd::prelude::*;
use crate::hash::{str_bytes, HashFunction};
use crate::level::{level_has, level_inserted, mults_of, BloomLevel};

verus! {

/// The fixed pool of multiplier constants from which hash-function families
/// are drawn, in its fixed order; families are therefore reproducible.
pub open spec fn multiplier_pool() -> Seq<u64> {
    seq![31u64, 37u64, 41u64, 43u64, 47u64, 53u64, 59u64, 61u64, 67u64, 71u64]
}

/// Errors a filter operation can report.
#[derive(Debug, Clone, Copy, PartialEq, Eq, Structural)]
pub enum BloomFilterError {
    /// The requested hash-function count exceeds the fixed pool.
    InvalidHashFunctions { requested: usize, available: usize },
    /// A zero array size would make every slot computation a division by
    /// zero, so it is rejected up front.
    InvalidArraySize,
    /// A decoded snapshot whose bit arrays disagree with its array size.
    InconsistentSnapshot,
}

/// The well-formedness of a filter's parts: a positive array size, and every
/// level's bit array exactly that long.
pub open spec fn parts_wf(levels: Seq<Seq<bool>>, array_size: usize) -> bool {
    array_size > 0 && forall|i: int|
        0 <= i < levels.len() ==> (#[trigger] levels[i]).len() == array_size
}

/// What a bounded query over a stack of levels reports: some level among the
/// first `n` (and within the stack) has every slot of the item set.
pub open spec fn filter_query(
    levels: Seq<Seq<bool>>,
    mults: Seq<u64>,
    array_size: usize,
    bytes: Seq<u8>,
    n: int,
) -> bool {
    exists|i: int|
        0 <= i < n && i < levels.len() && level_has(
            #[trigger] levels[i],
            mults,
            array_size,
            bytes,
        )
}

/// Every level's bit array after inserting one item into all of them.
pub open spec fn levels_inserted(
    levels: Seq<Seq<bool>>,
    mults: Seq<u64>,
    array_size: usize,
    bytes: Seq<u8>,
) -> Seq<Seq<bool>> {
    Seq::new(levels.len(), |i: int| level_inserted(levels[i], mults, array_size, bytes))
}

/// The views of a sequence of stored bit arrays.
pub open spec fn bits_views(level_bits: Seq<Vec<bool>>) -> Seq<Seq<bool>> {
    level_bits.map_values(|v: Vec<bool>| v@)
}

/// A multi-level Bloom filter. All levels share the one hash-function family
/// and the one array size fixed at construction.
#[derive(Debug)]
pub struct BloomFilter {
    levels: Vec<BloomLevel>,
    hash_functions: Vec<HashFunction>,
    array_size: usize,
}

impl BloomFilter {
    /// The bit arrays of the levels, in level order.
    pub closed spec fn spec_levels(self) -> Seq<Seq<bool>> {
        self.levels@.map_values(|l: BloomLevel| l@)
    }

    /// The multipliers of the shared hash-function family, in order.
    pub closed spec fn spec_multipliers(self) -> Seq<u64> {
        mults_of(self.hash_functions@)
    }

    /// The common length of every level's bit array.
    pub closed spec fn spec_array_size(self) -> usize {
        self.array_size
    }

    /// The structural invariant every constructed or rebuilt filter has.
    pub open spec fn wf(self) -> bool {
        parts_wf(self.spec_levels(), self.spec_array_size())
    }

    /// What `query` reports for an item's bytes over the first `n` levels.
    pub open spec fn spec_query(self, bytes: Seq<u8>, n: int) -> bool {
        filter_query(
            self.spec_levels(),
            self.spec_multipliers(),
            self.spec_array_size(),
            bytes,
            n,
        )
    }

    /// Builds a filter: the first `num_hash_functions` multipliers of the
    /// fixed pool, then `num_levels` all-false levels of size `array_size`.
    /// Rejects a request for more hash functions than the pool holds, and a
    /// zero array size.
    pub fn new(num_levels: usize, array_size: usize, num_hash_functions: usize) -> (r: Result<
        Self,
        BloomFilterError,
    >)
        ensures
            r is Ok <==> (num_hash_functions <= multiplier_pool().len() && array_size > 0),
            (match r {
                Ok(f) => f.wf() && f.spec_array_size() == array_size && f.spec_multipliers()
                    == multiplier_pool().take(num_hash_functions as int) && f.spec_levels()
                    == Seq::new(
                    num_levels as nat,
                    |i: int| Seq::new(array_size as nat, |j: int| false),
                ),
                Err(e) => if num_hash_functions > multiplier_pool().len() {
                    e == (BloomFilterError::InvalidHashFunctions {
                        requested: num_hash_functions,
                        available: multiplier_pool().len() as usize,
                    })
                } else {
                    array_size == 0 && e == BloomFilterError::InvalidArraySize
                },
            }),
    {
        let mut pool: Vec<u64> = Vec::new();
        pool.push(31);
        pool.push(37);
        pool.push(41);
        pool.push(43);
        pool.push(47);
        pool.push(53);
        pool.push(59);
        pool.push(61);
        pool.push(67);
        pool.push(71);
        proof {
            assert(pool@ =~= multiplier_pool());
        }
        if num_hash_functions > pool.len() {
            return Err(BloomFilterError::InvalidHashFunctions {
                requested: num_hash_functions,
                available: pool.len(),
            });
        }
        if array_size == 0 {
            return Err(BloomFilterError::InvalidArraySize);
        }
        let mut hash_functions: Vec<HashFunction> = Vec::new();
        let mut k: usize = 0;
        while k < num_hash_functions
            invariant
                k <= num_hash_functions,
                num_hash_functions <= pool@.len(),
                pool@ == multiplier_pool(),
                hash_functions@.len() == k,
                forall|t: int| 0 <= t < k ==> (#[trigger] hash_functions@[t])@ == pool@[t],
            decreases num_hash_functions - k,
        {
            hash_functions.push(HashFunction::new(pool[k]));
            k = k + 1;
        }
        let mut levels: Vec<BloomLevel> = Vec::new();
        let mut i: usize = 0;
        while i < num_levels
            invariant
                i <= num_levels,
                levels@.len() == i,
                forall|t: int| 0 <= t < i ==> (#[trigger] levels@[t])@ == Seq::new(
                    array_size as nat,
                    |j: int| false,
                ),
            decreases num_levels - i,
        {
            levels.push(BloomLevel::new(array_size));
            i = i + 1;
        }
        let f = BloomFilter { levels, hash_functions, array_size };
        proof {
            assert(f.spec_multipliers() =~= multiplier_pool().take(num_hash_functions as int));
            assert(f.spec_levels() =~= Seq::new(
                num_levels as nat,
                |i: int| Seq::new(array_size as nat, |j: int| false),
            ));
        }
        Ok(f)
    }

    /// Rebuilds a filter from its plain parts, as decoded from a snapshot.
    /// Accepts exactly the well-formed combinations: a positive array size
    /// with every stored bit array of that length.
    pub fn from_parts(
        level_bits: Vec<Vec<bool>>,
        multipliers: Vec<u64>,
        array_size: usize,
    ) -> (r: Result<Self, BloomFilterError>)
        ensures
            r is Ok <==> parts_wf(bits_views(level_bits@), array_size),
            (match r {
                Ok(f) => f.wf() && f.spec_levels() == bits_views(level_bits@)
                    && f.spec_multipliers() == multipliers@ && f.spec_array_size() == array_size,
                Err(e) => if array_size == 0 {
                    e == BloomFilterError::InvalidArraySize
                } else {
                    e == BloomFilterError::InconsistentSnapshot
                },
            }),
    {
        if array_size == 0 {
            return Err(BloomFilterError::InvalidArraySize);
        }
        let mut i: usize = 0;
        while i < level_bits.len()
            invariant
                array_size > 0,
                i <= level_bits@.len(),
                forall|t: int| 0 <= t < i ==> (#[trigger] level_bits@[t])@.len() == array_size,
            decreases level_bits@.len() - i,
        {
            if level_bits[i].len() != array_size {
                proof {
                    assert(bits_views(level_bits@)[i as int].len() != array_size);
                }
                return Err(BloomFilterError::InconsistentSnapshot);
            }
            i = i + 1;
        }
        let mut hash_functions: Vec<HashFunction> = Vec::new();
        let mut k: usize = 0;
        while k < multipliers.len()
            invariant
                k <= multipliers@.len(),
                hash_functions@.len() == k,
                forall|t: int| 0 <= t < k ==> (#[trigger] hash_functions@[t])@ == multipliers@[t],
            decreases multipliers@.len() - k,
        {
            hash_functions.push(HashFunction::new(multipliers[k]));
            k = k + 1;
        }
        let mut levels: Vec<BloomLevel> = Vec::new();
        let mut j: usize = 0;
        while j < level_bits.len()
            invariant
                j <= level_bits@.len(),
                levels@.len() == j,
                forall|t: int| 0 <= t < j ==> (#[trigger] levels@[t])@ == level_bits@[t]@,
            decreases level_bits@.len() - j,
        {
            let mut bits: Vec<bool> = Vec::new();
            let mut b: usize = 0;
            while b < level_bits[j].len()
                invariant
                    j < level_bits@.len(),
                    b <= level_bits@[j as int]@.len(),
                    bits@ =~= level_bits@[j as int]@.take(b as int),
                decreases level_bits@[j as int]@.len() - b,
            {
                bits.push(level_bits[j][b]);
                proof {
                    assert(bits@ =~= level_bits@[j as int]@.take(b + 1));
                }
                b = b + 1;
            }
            proof {
                assert(bits@ =~= level_bits@[j as int]@);
            }
            levels.push(BloomLevel::from_bits(bits));
            j = j + 1;
        }
        let f = BloomFilter { levels, hash_functions, array_size };
        proof {
            assert(f.spec_levels() =~= bits_views(level_bits@));
            assert(f.spec_multipliers() =~= multipliers@);
        }
        Ok(f)
    }

    /// Inserts an item into every level, using the shared family.
    pub fn insert(&mut self, item: &str)
        requires
            old(self).wf(),
        ensures
            final(self).wf(),
            final(self).spec_levels() == levels_inserted(
                old(self).spec_levels(),
                old(self).spec_multipliers(),
                old(self).spec_array_size(),
                str_bytes(item),
            ),
            final(self).spec_multipliers() == old(self).spec_multipliers(),
            final(self).spec_array_size() == old(self).spec_array_size(),
    {
        let ghost m = old(self).spec_multipliers();
        let ghost b = str_bytes(item);
        let n = self.levels.len();
        let mut i: usize = 0;
        while i < n
            invariant
                i <= n,
                n == self.levels@.len(),
                self.levels@.len() == old(self).levels@.len(),
                self.hash_functions@ == old(self).hash_functions@,
                self.array_size == old(self).array_size,
                old(self).wf(),
                m == old(self).spec_multipliers(),
                b == str_bytes(item),
                forall|j: int| 0 <= j < i ==> (#[trigger] self.levels@[j])@ == level_inserted(
                    old(self).levels@[j]@,
                    m,
                    old(self).array_size,
                    b,
                ),
                forall|j: int| i <= j < n ==> self.levels@[j] == old(self).levels@[j],
            decreases n - i,
        {
            proof {
                assert(old(self).spec_levels()[i as int] == old(self).levels@[i as int]@);
                assert(self.levels@[i as int]@.len() == self.array_size);
            }
            let sz = self.array_size;
            self.levels[i].insert(item, &self.hash_functions, sz);
            i = i + 1;
        }
        proof {
            assert forall|j: int| 0 <= j < n implies self.spec_levels()[j] == levels_inserted(
                old(self).spec_levels(),
                m,
                old(self).array_size,
                b,
            )[j] by {
                assert(self.levels@[j]@ == level_inserted(
                    old(self).levels@[j]@,
                    m,
                    old(self).array_size,
                    b,
                ));
            }
            assert(self.spec_levels() =~= levels_inserted(
                old(self).spec_levels(),
                m,
                old(self).array_size,
                b,
            ));
            assert(self.spec_multipliers() =~= old(self).spec_multipliers());
        }
    }

    /// Queries an item over the first `num_levels_to_search` levels, clamped
    /// to the stack's height; true as soon as one searched level reports a
    /// hit, false only when none does.
    pub fn query(&self, item: &str, num_levels_to_search: usize) -> (r: bool)
        requires
            self.wf(),
        ensures
            r == self.spec_query(str_bytes(item), num_levels_to_search as int),
    {
        let ghost b = str_bytes(item);
        let levels_to_search = if num_levels_to_search < self.levels.len() {
            num_levels_to_search
        } else {
            self.levels.len()
        };
        let mut i: usize = 0;
        while i < levels_to_search
            invariant
                i <= levels_to_search,
                levels_to_search <= self.levels@.len(),
                levels_to_search == if num_levels_to_search < self.levels@.len() {
                    num_levels_to_search as int
                } else {
                    self.levels@.len() as int
                },
                self.wf(),
                b == str_bytes(item),
                forall|t: int| 0 <= t < i ==> !level_has(
                    #[trigger] self.spec_levels()[t],
                    self.spec_multipliers(),
                    self.spec_array_size(),
                    b,
                ),
            decreases levels_to_search - i,
        {
            proof {
                assert(self.spec_levels()[i as int] == self.levels@[i as int]@);
            }
            if self.levels[i].query(item, &self.hash_functions, self.array_size) {
                proof {
                    assert(level_has(
                        self.spec_levels()[i as int],
                        self.spec_multipliers(),
                        self.spec_array_size(),
                        b,
                    ));
                }
                return true;
            }
            i = i + 1;
        }
        false
    }

    /// The number of levels.
    pub fn num_levels(&self) -> (r: usize)
        ensures
            r == self.spec_levels().len(),
    {
        self.levels.len()
    }

    /// The common bit-array length fixed at construction.
    pub fn array_size(&self) -> (r: usize)
        ensures
            r == self.spec_array_size(),
    {
        self.array_size
    }

    /// A copy of the family's multipliers, in order, for persisting.
    pub fn multipliers(&self) -> (r: Vec<u64>)
        ensures
            r@ == self.spec_multipliers(),
    {
        let mut mults: Vec<u64> = Vec::new();
        let mut k: usize = 0;
        while k < self.hash_functions.len()
            invariant
                k <= self.hash_functions@.len(),
                mults@ =~= self.spec_multipliers().take(k as int),
            decreases self.hash_functions@.len() - k,
        {
            mults.push(self.hash_functions[k].multiplier());
            proof {
                assert(mults@ =~= self.spec_multipliers().take(k + 1));
            }
            k = k + 1;
        }
        proof {
            assert(mults@ =~= self.spec_multipliers());
        }
        mults
    }

    /// A copy of one level's bit array, for persisting.
    pub fn level_bits(&self, i: usize) -> (r: Vec<bool>)
        requires
            i < self.spec_levels().len(),
        ensures
            r@ == self.spec_levels()[i as int],
    {
        proof {
            assert(self.spec_levels()[i as int] == self.levels@[i as int]@);
        }
        self.levels[i].to_bits()
    }
}

} // verus!
