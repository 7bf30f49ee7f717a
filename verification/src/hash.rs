//! The hash-function family: a deterministic multiplicative string hash over
//! 64-bit wraparound arithmetic, parameterized by a multiplier constant.

use vstd::prelude::*;
use vstd::string::StringSliceAdditionalSpecFns;

verus! {

/// The UTF-8 byte sequence of a string slice; hashing folds over these bytes.
pub open spec fn str_bytes(s: &str) -> Seq<u8> {
    s.spec_bytes()
}

/// The multiply-add fold that defines the hash: starting from 0, each byte
/// contributes `acc = acc * multiplier + byte`, modulo 2^64.
pub open spec fn hash_fold(multiplier: u64, bytes: Seq<u8>) -> u64
    decreases bytes.len(),
{
    if bytes.len() == 0 {
        0u64
    } else {
        vstd::wrapping::u64_specs::wrapping_add(
            vstd::wrapping::u64_specs::wrapping_mul(
                hash_fold(multiplier, bytes.drop_last()),
                multiplier,
            ),
            bytes.last() as u64,
        )
    }
}

/// A single hash function of the family, identified by its multiplier alone.
#[derive(Debug)]
pub struct HashFunction {
    multiplier: u64,
}

impl View for HashFunction {
    type V = u64;

    closed spec fn view(&self) -> u64 {
        self.multiplier
    }
}

impl HashFunction {
    /// Stores the multiplier; validity of the multiplier is the
    /// family-selection responsibility of the filter constructor.
    pub fn new(multiplier: u64) -> (r: Self)
        ensures
            r@ == multiplier,
    {
        HashFunction { multiplier }
    }

    /// The multiplier this hash function was built with.
    pub fn multiplier(&self) -> (r: u64)
        ensures
            r == self@,
    {
        self.multiplier
    }

    /// Hashes a string by folding its bytes left-to-right with wraparound
    /// multiply-add; overflow is intentional, not an error.
    pub fn hash(&self, s: &str) -> (r: u64)
        ensures
            r == hash_fold(self@, str_bytes(s)),
    {
        let bytes: &[u8] = s.as_bytes();
        let mut h: u64 = 0;
        let mut i: usize = 0;
        while i < bytes.len()
            invariant
                i <= bytes@.len(),
                bytes@ == str_bytes(s),
                h == hash_fold(self@, bytes@.take(i as int)),
            decreases bytes@.len() - i,
        {
            let b = bytes[i];
            h = h.wrapping_mul(self.multiplier).wrapping_add(b as u64);
            proof {
                assert(bytes@.take(i + 1).drop_last() =~= bytes@.take(i as int));
                assert(bytes@.take(i + 1).last() == bytes@[i as int]);
            }
            i = i + 1;
        }
        proof {
            assert(bytes@.take(bytes@.len() as int) =~= bytes@);
        }
        h
    }
}

} // verus!
