//! The laws of the layered filter, proved once and for all over the spec
//! functions that the executable contracts are stated with.

use vstd::prelude::*;
use crate::filter::{filter_query, levels_inserted, parts_wf, BloomFilter};
use crate::level::{level_has, level_inserted, slot_is_hit, slot_of};

verus! {

/// Inserting an item makes every searched query for it succeed: after the
/// insertion, a query over any positive number of levels reports the item,
/// whatever the stack held before. This is the no-false-negatives guarantee
/// at the moment of insertion.
pub proof fn lemma_insert_then_query(
    levels: Seq<Seq<bool>>,
    mults: Seq<u64>,
    array_size: usize,
    bytes: Seq<u8>,
    n: int,
)
    requires
        parts_wf(levels, array_size),
        levels.len() >= 1,
        n >= 1,
    ensures
        filter_query(levels_inserted(levels, mults, array_size, bytes), mults, array_size, bytes, n),
{
    let levels2 = levels_inserted(levels, mults, array_size, bytes);
    assert(levels2[0] == level_inserted(levels[0], mults, array_size, bytes));
    assert(levels[0].len() == array_size);
    assert forall|k: int|
        0 <= k < mults.len() implies levels2[0][#[trigger] slot_of(
        mults[k],
        bytes,
        array_size,
    )] by {
        let j = slot_of(mults[k], bytes, array_size);
        assert(0 <= j < array_size);
        assert(slot_is_hit(mults, array_size, bytes, j));
    }
    assert(level_has(levels2[0], mults, array_size, bytes));
    assert(0 <= 0 < n && 0 < levels2.len());
}

/// Querying is monotonic in the number of levels searched: searching strictly
/// more levels never turns a hit into a miss.
pub proof fn lemma_query_monotonic(
    levels: Seq<Seq<bool>>,
    mults: Seq<u64>,
    array_size: usize,
    bytes: Seq<u8>,
    n1: int,
    n2: int,
)
    requires
        n1 <= n2,
        filter_query(levels, mults, array_size, bytes, n1),
    ensures
        filter_query(levels, mults, array_size, bytes, n2),
{
    let i = choose|i: int|
        0 <= i < n1 && i < levels.len() && level_has(
            #[trigger] levels[i],
            mults,
            array_size,
            bytes,
        );
    assert(0 <= i < n2 && i < levels.len() && level_has(levels[i], mults, array_size, bytes));
}

/// Later insertions never clear a bit, so they never turn an earlier hit
/// into a miss: together with `lemma_insert_then_query` this says an
/// inserted item keeps querying true through any further insertions.
pub proof fn lemma_insert_preserves_query(
    levels: Seq<Seq<bool>>,
    mults: Seq<u64>,
    array_size: usize,
    inserted: Seq<u8>,
    queried: Seq<u8>,
    n: int,
)
    requires
        parts_wf(levels, array_size),
        filter_query(levels, mults, array_size, queried, n),
    ensures
        filter_query(
            levels_inserted(levels, mults, array_size, inserted),
            mults,
            array_size,
            queried,
            n,
        ),
{
    let levels2 = levels_inserted(levels, mults, array_size, inserted);
    let i = choose|i: int|
        0 <= i < n && i < levels.len() && level_has(
            #[trigger] levels[i],
            mults,
            array_size,
            queried,
        );
    assert(levels[i].len() == array_size);
    assert(levels2[i] == level_inserted(levels[i], mults, array_size, inserted));
    assert forall|k: int|
        0 <= k < mults.len() implies levels2[i][#[trigger] slot_of(
        mults[k],
        queried,
        array_size,
    )] by {
        let j = slot_of(mults[k], queried, array_size);
        assert(0 <= j < array_size);
        assert(levels[i][j]);
    }
    assert(level_has(levels2[i], mults, array_size, queried));
}

/// Inserting the same item twice produces the same bit arrays as inserting
/// it once: the flags an insertion sets are already set the second time.
pub proof fn lemma_insert_idempotent(
    levels: Seq<Seq<bool>>,
    mults: Seq<u64>,
    array_size: usize,
    bytes: Seq<u8>,
)
    ensures
        levels_inserted(
            levels_inserted(levels, mults, array_size, bytes),
            mults,
            array_size,
            bytes,
        ) == levels_inserted(levels, mults, array_size, bytes),
{
    let once = levels_inserted(levels, mults, array_size, bytes);
    let twice = levels_inserted(once, mults, array_size, bytes);
    assert forall|i: int| 0 <= i < levels.len() implies twice[i] == once[i] by {
        assert(once[i] == level_inserted(levels[i], mults, array_size, bytes));
        assert(twice[i] == level_inserted(once[i], mults, array_size, bytes));
        assert(twice[i] =~= once[i]);
    }
    assert(twice =~= once);
}

/// A filter's query answers are determined by its parts alone. Together with
/// the contracts of `BloomFilter::from_parts` and the part accessors, this is
/// the snapshot round trip: a filter rebuilt from a saved filter's parts
/// answers every query exactly as the original does.
pub proof fn lemma_equal_parts_equal_query(
    f1: BloomFilter,
    f2: BloomFilter,
    bytes: Seq<u8>,
    n: int,
)
    requires
        f1.spec_levels() == f2.spec_levels(),
        f1.spec_multipliers() == f2.spec_multipliers(),
        f1.spec_array_size() == f2.spec_array_size(),
    ensures
        f1.spec_query(bytes, n) == f2.spec_query(bytes, n),
{
}

} // verus!
