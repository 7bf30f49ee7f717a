use bloom::{BloomFilter, BloomFilterError, HashFunction};

#[test]
fn test_insert_and_query() {
    let mut bf = BloomFilter::new(1, 100, 3).unwrap();
    bf.insert("test");
    assert!(bf.query("test", 1));
    assert!(!bf.query("nonexistent", 1));
}

#[test]
fn test_two_levels_scenario() {
    let mut bf = BloomFilter::new(2, 50, 2).unwrap();
    bf.insert("alpha");
    assert!(bf.query("alpha", 1));
    assert!(!bf.query("beta", 2));
}

#[test]
fn test_query_monotonic_in_levels_searched() {
    let mut bf = BloomFilter::new(3, 100, 3).unwrap();
    bf.insert("item");
    assert!(bf.query("item", 1));
    assert!(bf.query("item", 2));
    assert!(bf.query("item", 3));
    // Over-large requests are clamped, never an error.
    assert!(bf.query("item", 10));
}

#[test]
fn test_no_false_negatives_across_inserts() {
    let mut bf = BloomFilter::new(2, 10, 4).unwrap();
    bf.insert("first");
    bf.insert("second");
    bf.insert("third");
    assert!(bf.query("first", 1));
    assert!(bf.query("first", 2));
    assert!(bf.query("second", 1));
    assert!(bf.query("third", 2));
}

#[test]
fn test_pool_exhausted() {
    let err = BloomFilter::new(1, 100, 11).unwrap_err();
    assert_eq!(
        err,
        BloomFilterError::InvalidHashFunctions { requested: 11, available: 10 }
    );
}

#[test]
fn test_pool_boundary_accepted() {
    let mut bf = BloomFilter::new(1, 100, 10).unwrap();
    bf.insert("full-family");
    assert!(bf.query("full-family", 1));
}

#[test]
fn test_zero_array_size_rejected() {
    let err = BloomFilter::new(1, 0, 3).unwrap_err();
    assert_eq!(err, BloomFilterError::InvalidArraySize);
}

#[test]
fn test_zero_levels_query_false() {
    let bf = BloomFilter::new(0, 10, 3).unwrap();
    assert!(!bf.query("anything", 1));
    assert!(!bf.query("anything", 5));
}

#[test]
fn test_multipliers_are_pool_prefix() {
    let bf = BloomFilter::new(1, 10, 4).unwrap();
    assert_eq!(bf.multipliers(), vec![31, 37, 41, 43]);
    assert_eq!(bf.array_size(), 10);
    assert_eq!(bf.num_levels(), 1);
}

#[test]
fn test_fresh_filter_all_bits_false() {
    let bf = BloomFilter::new(2, 7, 3).unwrap();
    for i in 0..bf.num_levels() {
        let bits = bf.level_bits(i);
        assert_eq!(bits.len(), 7);
        assert!(bits.iter().all(|&b| !b));
    }
}

#[test]
fn test_insert_idempotent() {
    let mut once = BloomFilter::new(2, 30, 3).unwrap();
    let mut twice = BloomFilter::new(2, 30, 3).unwrap();
    once.insert("dup");
    twice.insert("dup");
    twice.insert("dup");
    for i in 0..once.num_levels() {
        assert_eq!(once.level_bits(i), twice.level_bits(i));
    }
}

#[test]
fn test_parts_round_trip() {
    let mut bf = BloomFilter::new(2, 100, 3).unwrap();
    bf.insert("test");
    bf.insert("other");
    let levels: Vec<Vec<bool>> = (0..bf.num_levels()).map(|i| bf.level_bits(i)).collect();
    let rebuilt = BloomFilter::from_parts(levels, bf.multipliers(), bf.array_size()).unwrap();
    for n in 1..=2 {
        assert_eq!(bf.query("test", n), rebuilt.query("test", n));
        assert_eq!(bf.query("other", n), rebuilt.query("other", n));
        assert_eq!(bf.query("nonexistent", n), rebuilt.query("nonexistent", n));
    }
    assert!(rebuilt.query("test", 1));
    // The rebuilt filter decomposes into the same parts.
    assert_eq!(rebuilt.array_size(), bf.array_size());
    assert_eq!(rebuilt.multipliers(), bf.multipliers());
    for i in 0..bf.num_levels() {
        assert_eq!(rebuilt.level_bits(i), bf.level_bits(i));
    }
}

#[test]
fn test_from_parts_inconsistent_lengths() {
    let levels = vec![vec![false, true, false], vec![false, true]];
    let err = BloomFilter::from_parts(levels, vec![31, 37], 3).unwrap_err();
    assert_eq!(err, BloomFilterError::InconsistentSnapshot);
}

#[test]
fn test_from_parts_zero_array_size() {
    let err = BloomFilter::from_parts(vec![], vec![31], 0).unwrap_err();
    assert_eq!(err, BloomFilterError::InvalidArraySize);
}

#[test]
fn test_hash_exact_values() {
    let hf = HashFunction::new(31);
    // Fold of "abc": ((0*31 + 97)*31 + 98)*31 + 99.
    assert_eq!(hf.hash("abc"), 96354);
    assert_eq!(hf.hash(""), 0);
    assert_eq!(hf.hash("a"), 97);
    assert_eq!(hf.multiplier(), 31);
}

#[test]
fn test_hash_deterministic_and_multiplier_sensitive() {
    let h1 = HashFunction::new(31);
    let h2 = HashFunction::new(37);
    assert_eq!(h1.hash("same item"), h1.hash("same item"));
    assert_ne!(h1.hash("abc"), h2.hash("abc"));
}
