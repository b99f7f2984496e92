use consensus::entropy::{byte_counts, ones_count, runs_count, Trng};

#[test]
fn test_rand_bytes_lengths() {
    let t = Trng::new();
    // empty pool: the operating-system fallback still yields the asked length
    assert_eq!(t.rand_bytes(32).len(), 32);
    t.absorb(&vec![1u8, 2, 3, 4, 5]);
    assert_eq!(t.rand_bytes(8).len(), 8);
    assert_eq!(t.rand_bytes(0).len(), 0);
    assert_eq!(t.rand_bytes(100).len(), 100);
}

#[test]
fn test_rand_bytes_derived_from_pool() {
    let t = Trng::new();
    t.absorb(&vec![7u8; 16]);
    let a = t.rand_bytes(16);
    let b = t.rand_bytes(16);
    // the same pool and length always derive the same bytes
    assert_eq!(a, b);
    // and the derivation does not hand the pool back unchanged
    assert_ne!(a, vec![7u8; 16]);
    let t2 = Trng::new();
    t2.absorb(&vec![9u8; 16]);
    assert_ne!(t2.rand_bytes(16), a);
}

#[test]
fn test_absorb_trims_to_capacity() {
    let t = Trng::new();
    // absorbing far beyond the capacity still leaves a working pool
    t.absorb(&vec![3u8; 5000]);
    let a = t.rand_bytes(4);
    t.absorb(&vec![4u8; 2000]);
    let b = t.rand_bytes(4);
    assert_eq!(a.len(), 4);
    assert_eq!(b.len(), 4);
}

#[test]
fn test_reseed_clears_pool() {
    let t = Trng::new();
    t.absorb(&vec![1u8; 64]);
    let before = t.rand_bytes(16);
    t.reseed();
    t.absorb(&vec![1u8; 64]);
    let after = t.rand_bytes(16);
    // the pool content is the derivation input, so an identical refill
    // derives identical bytes again
    assert_eq!(before, after);
}

#[test]
fn test_timing_jitter_length() {
    let t = Trng::new();
    let jitter = t.collect_timing_jitter();
    // one thousand sixteen-byte clock readings
    assert_eq!(jitter.len(), 16000);
    t.absorb(&jitter);
    assert_eq!(t.rand_bytes(12).len(), 12);
}

#[test]
fn test_ones_count_values() {
    assert_eq!(ones_count(&vec![]), 0);
    assert_eq!(ones_count(&vec![0u8]), 0);
    assert_eq!(ones_count(&vec![0xFFu8]), 8);
    assert_eq!(ones_count(&vec![0x55u8, 0x01]), 5);
    assert_eq!(ones_count(&vec![0xAAu8; 3]), 12);
}

#[test]
fn test_runs_count_values() {
    assert_eq!(runs_count(&vec![]), 0);
    assert_eq!(runs_count(&vec![0x00u8]), 1);
    assert_eq!(runs_count(&vec![0xFFu8]), 1);
    // 0x55 read from the least significant bit: 1,0,1,0,1,0,1,0
    assert_eq!(runs_count(&vec![0x55u8]), 8);
    assert_eq!(runs_count(&vec![0xFFu8, 0x00]), 2);
}

#[test]
fn test_byte_counts_values() {
    let counts = byte_counts(&vec![1u8, 1, 2, 255]);
    assert_eq!(counts.len(), 256);
    assert_eq!(counts[0], 0);
    assert_eq!(counts[1], 2);
    assert_eq!(counts[2], 1);
    assert_eq!(counts[255], 1);
    let empty = byte_counts(&vec![]);
    assert!(empty.iter().all(|&c| c == 0));
}
