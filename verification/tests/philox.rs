use mc_keygen::philox::{philox4x64_10, philox_block32};

// Reference vectors from Random123 tests/kat_vectors.
#[test]
fn kat_zero() {
    let out = philox4x64_10([0, 0, 0, 0], [0, 0]);
    assert_eq!(
        out,
        [
            0x16554d9eca36314c,
            0xdb20fe9d672d0fdc,
            0xd7e772cee186176b,
            0x7e68b68aec7ba23b,
        ]
    );
}

#[test]
fn kat_pi_e() {
    // ctr = digits of pi, key = digits of e
    let out = philox4x64_10(
        [
            0x243f6a8885a308d3,
            0x13198a2e03707344,
            0xa4093822299f31d0,
            0x082efa98ec4e6c89,
        ],
        [0x452821e638d01377, 0xbe5466cf34e90c6c],
    );
    assert_eq!(
        out,
        [
            0xa528f45403e61d95,
            0x38c72dbd566e9788,
            0xa5a1610e72fd18b5,
            0x57bd43b5e52b7fe6,
        ]
    );
}

#[test]
fn block32_deterministic() {
    let a = philox_block32(1, 2, 42, 0);
    let b = philox_block32(1, 2, 42, 0);
    assert_eq!(a, b);
}

#[test]
fn block32_distinct_sides() {
    let a = philox_block32(1, 2, 42, 0);
    let b = philox_block32(1, 2, 42, 1);
    assert_ne!(a, b);
}

#[test]
fn block32_is_little_endian_words() {
    let words = philox4x64_10([42, 0, 0, 0], [1, 2]);
    let bytes = philox_block32(1, 2, 42, 0);
    for i in 0..4 {
        assert_eq!(&bytes[i * 8..i * 8 + 8], &words[i].to_le_bytes());
    }
}

#[test]
fn block32_zero_key_matches_kat_zero() {
    let bytes = philox_block32(0, 0, 0, 0);
    assert_eq!(&bytes[0..8], &0x16554d9eca36314cu64.to_le_bytes());
    assert_eq!(&bytes[24..32], &0x7e68b68aec7ba23bu64.to_le_bytes());
}

#[test]
fn block32_distinct_counters_under_one_key() {
    let mut seen = std::collections::HashSet::new();
    for idx in 0..64u64 {
        for side in 0..4u64 {
            assert!(seen.insert(philox_block32(7, 9, idx, side)));
        }
    }
    assert_ne!(philox_block32(1, 2, 42, 0), philox_block32(1, 2, 43, 0));
}
