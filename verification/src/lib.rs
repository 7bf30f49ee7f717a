//! A layered Bloom filter: a stack of independent bit-array levels populated
//! by one shared family of multiplicative hash functions. Insertion fans out
//! to every level; querying searches a bounded prefix of the levels and
//! short-circuits on the first hit. The filter can be decomposed into plain
//! values and rebuilt from them, which is how snapshots are persisted.

pub mod filter;
pub mod hash;
pub mod laws;
pub mod level;

pub use filter::BloomFilter;
pub use filter::BloomFilterError;
pub use hash::HashFunction;
pub use level::BloomLevel;
