use mc_keygen::deterministic::DeterministicState;
use sha2::{Digest, Sha256};

#[test]
fn same_master_seed_counter_gives_same_candidate_seed() {
    let mut state = DeterministicState::new().unwrap();
    // Set a fixed master for determinism in tests
    state.master_seed = [0xAB; 32];
    state.counter = 0;

    let seed1 = state.next_seed();
    state.counter = 0;
    let seed2 = state.next_seed();
    assert_eq!(seed1, seed2);
}

#[test]
fn different_counter_gives_different_candidate_seed() {
    let mut state = DeterministicState::new().unwrap();
    state.master_seed = [0xAB; 32];

    state.counter = 0;
    let seed0 = state.next_seed();
    state.counter = 1;
    let seed1 = state.next_seed();
    assert_ne!(seed0, seed1);
}

#[test]
fn different_master_seed_gives_different_seeds() {
    let mut state_a = DeterministicState::new().unwrap();
    let mut state_b = DeterministicState::new().unwrap();
    state_a.master_seed = [0xAB; 32];
    state_b.master_seed = [0xCD; 32];
    state_a.counter = 0;
    state_b.counter = 0;

    assert_ne!(state_a.next_seed(), state_b.next_seed());
}

#[test]
fn different_worker_id_gives_different_seeds() {
    let mut state_a = DeterministicState::new().unwrap();
    let mut state_b = DeterministicState::new().unwrap();
    state_a.master_seed = [0xAB; 32];
    state_b.master_seed = [0xAB; 32];
    state_a.worker_id = 0;
    state_b.worker_id = 1;
    state_a.counter = 0;
    state_b.counter = 0;

    assert_ne!(state_a.next_seed(), state_b.next_seed());
}

#[test]
fn resume_uses_same_master_seed() {
    let mut state = DeterministicState::new().unwrap();
    state.master_seed = [0xAB; 32];
    state.counter = 42;

    let seed_at_42 = state.next_seed();

    // Simulate pause and resume
    let master_hex = state.master_seed_hex();
    let mut resumed = DeterministicState::from_hex_seed(&master_hex).unwrap();
    resumed.set_counter(42);

    assert_eq!(resumed.next_seed(), seed_at_42);
}

#[test]
fn restart_generates_new_master_seed() {
    let state1 = DeterministicState::new().unwrap();
    let state2 = DeterministicState::new().unwrap();
    // Extremely unlikely to get the same random 32-byte seed
    assert_ne!(state1.master_seed, state2.master_seed);
}

#[test]
fn duplicate_generates_new_master_seed() {
    let state1 = DeterministicState::new().unwrap();
    let state2 = DeterministicState::new().unwrap();
    assert_ne!(state1.master_seed, state2.master_seed);
}

#[test]
fn counter_sequence_is_deterministic() {
    let mut state = DeterministicState::new().unwrap();
    state.master_seed = [0x42; 32];
    state.counter = 0;

    let seq1: Vec<[u8; 32]> = (0..10).map(|_| state.next_seed()).collect();

    state.counter = 0;
    let seq2: Vec<[u8; 32]> = (0..10).map(|_| state.next_seed()).collect();

    assert_eq!(seq1, seq2);
}

#[test]
fn master_seed_hex_roundtrip() {
    let state = DeterministicState::new().unwrap();
    let hex = state.master_seed_hex();
    assert_eq!(hex.len(), 64);
    let restored = DeterministicState::from_hex_seed(&hex).unwrap();
    assert_eq!(state.master_seed, restored.master_seed);
}

#[test]
fn from_hex_seed_rejects_invalid_length() {
    assert!(DeterministicState::from_hex_seed("DEAD").is_err());
    assert!(DeterministicState::from_hex_seed("").is_err());
}

#[test]
fn from_hex_seed_rejects_non_hex() {
    assert!(DeterministicState::from_hex_seed(&"GH".repeat(32)).is_err());
}

#[test]
fn candidate_seed_is_sha256_of_seed_worker_counter() {
    let mut state = DeterministicState::new().unwrap();
    state.master_seed = [0x5A; 32];
    state.worker_id = 7;
    state.counter = 0x0102030405060708;
    let mut msg = vec![0x5Au8; 32];
    msg.extend_from_slice(&7u64.to_le_bytes());
    msg.extend_from_slice(&0x0102030405060708u64.to_le_bytes());
    let expected: [u8; 32] = Sha256::digest(&msg).into();
    assert_eq!(state.peek_seed(), expected);
    assert_eq!(state.next_seed(), expected);
    assert_eq!(state.counter, 0x0102030405060709);
}

#[test]
fn peek_does_not_advance() {
    let mut state = DeterministicState::new().unwrap();
    state.counter = 5;
    let p = state.peek_seed();
    assert_eq!(state.counter, 5);
    assert_eq!(state.next_seed(), p);
    assert_eq!(state.counter, 6);
}

#[test]
fn counter_wraps_at_max() {
    let mut state = DeterministicState::new().unwrap();
    state.counter = u64::MAX;
    state.next_seed();
    assert_eq!(state.counter, 0);
}

#[test]
fn next_seeds_matches_successive_next_seed() {
    let mut a = DeterministicState::new().unwrap();
    a.master_seed = [3; 32];
    a.counter = u64::MAX - 1;
    let mut b = a;
    let batch: [[u8; 32]; 4] = a.next_seeds::<4>();
    for seed in batch.iter() {
        assert_eq!(*seed, b.next_seed());
    }
    assert_eq!(a.counter, 2);
    assert_eq!(a.counter, b.counter);
}

#[test]
fn from_hex_seed_accepts_lower_case() {
    let s = DeterministicState::from_hex_seed(&"ab".repeat(32)).unwrap();
    assert_eq!(s.master_seed, [0xAB; 32]);
    assert_eq!(s.worker_id, 0);
    assert_eq!(s.counter, 0);
}

#[test]
fn from_hex_seed_messages() {
    assert_eq!(
        DeterministicState::from_hex_seed("DEAD").unwrap_err(),
        "master seed must be 32 bytes (64 hex chars), got 2 bytes"
    );
    assert_eq!(
        DeterministicState::from_hex_seed("").unwrap_err(),
        "master seed must be 32 bytes (64 hex chars), got 0 bytes"
    );
    assert_eq!(
        DeterministicState::from_hex_seed("ABC").unwrap_err(),
        "invalid hex seed: Odd number of digits"
    );
    assert_eq!(
        DeterministicState::from_hex_seed(&"GH".repeat(32)).unwrap_err(),
        "invalid hex seed: Invalid character 'G' at position 0"
    );
}

#[test]
fn master_seed_hex_is_upper_case() {
    let mut state = DeterministicState::new().unwrap();
    state.master_seed = [0xAB; 32];
    state.master_seed[31] = 0x0F;
    let hex = state.master_seed_hex();
    assert_eq!(&hex[0..4], "ABAB");
    assert_eq!(&hex[62..64], "0F");
}

#[test]
fn successive_counters_do_not_repeat_across_wrap() {
    let mut state = DeterministicState::new().unwrap();
    state.counter = u64::MAX - 3;
    let mut seen = Vec::new();
    for _ in 0..8 {
        seen.push(state.counter);
        state.next_seed();
    }
    for i in 0..seen.len() {
        for j in (i + 1)..seen.len() {
            assert_ne!(seen[i], seen[j]);
        }
    }
}

#[test]
fn invalid_character_position_is_reported() {
    assert_eq!(
        DeterministicState::from_hex_seed(&format!("{}{}", "A".repeat(63), "Z")).unwrap_err(),
        "invalid hex seed: Invalid character 'Z' at position 63"
    );
    assert_eq!(
        DeterministicState::from_hex_seed(&format!("0{}", "g".repeat(63))).unwrap_err(),
        "invalid hex seed: Invalid character 'g' at position 1"
    );
}

#[test]
fn from_seed_starts_at_worker_zero_counter_zero() {
    let seed = [7u8; 32];
    let s = DeterministicState::from_seed(seed);
    assert_eq!(s.master_seed, seed);
    assert_eq!(s.worker_id, 0);
    assert_eq!(s.counter, 0);
    assert_eq!(s.master_seed_hex(), "07".repeat(32));
}
