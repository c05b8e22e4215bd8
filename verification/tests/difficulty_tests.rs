use pow_miner::difficulty::satisfies;

#[test]
fn zero_difficulty_accepts_any_hash() {
    assert!(satisfies(&[], 0));
    assert!(satisfies(&[0xff], 0));
    assert!(satisfies(&[0x12, 0x34, 0x56], 0));
    assert!(satisfies(&[0u8; 32], 0));
}

#[test]
fn threshold_at_every_nibble() {
    for k in 0..64usize {
        let mut hash = [0u8; 32];
        if k % 2 == 0 {
            hash[k / 2] = 0x10;
        } else {
            hash[k / 2] = 0x01;
        }
        assert!(satisfies(&hash, k as u32), "k = {}", k);
        assert!(!satisfies(&hash, k as u32 + 1), "k = {}", k);
    }
}

#[test]
fn high_nibble_comes_first() {
    assert!(satisfies(&[0x0f, 0xff], 1));
    assert!(!satisfies(&[0x0f, 0xff], 2));
    assert!(!satisfies(&[0xf0, 0x00], 1));
    assert!(satisfies(&[0x00, 0x0f], 3));
    assert!(!satisfies(&[0x00, 0x0f], 4));
}

#[test]
fn all_zero_hash_meets_its_full_length() {
    let hash = [0u8; 32];
    assert!(satisfies(&hash, 63));
    assert!(satisfies(&hash, 64));
}

#[test]
fn difficulty_beyond_the_hash_is_rejected() {
    let hash = [0u8; 32];
    assert!(!satisfies(&hash, 65));
    assert!(!satisfies(&hash, 1000));
    assert!(!satisfies(&hash, u32::MAX));
    assert!(!satisfies(&[], 1));
    assert!(!satisfies(&[0x00], 3));
}
