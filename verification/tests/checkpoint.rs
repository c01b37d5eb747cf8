use mc_keygen::checkpoint::Checkpoint;
use mc_keygen::deterministic::DeterministicState;

#[test]
fn checkpoint_to_deterministic_state() {
    let mut state = DeterministicState::new().unwrap();
    state.master_seed = [0xAB; 32];
    state.counter = 100;

    let ckpt = Checkpoint::new(
        "test-job",
        &["C0DE".to_string()],
        &state,
        "cpu",
        "none",
        3,
        1,
    );

    let restored_state = ckpt.to_deterministic_state().unwrap();
    assert_eq!(restored_state.master_seed, state.master_seed);
    assert_eq!(restored_state.counter, 100);

    // Both should produce the same next seed
    let mut s1 = state.clone();
    let mut s2 = restored_state;
    assert_eq!(s1.next_seed(), s2.next_seed());
}

#[test]
fn checkpoint_update_counter() {
    let mut state = DeterministicState::new().unwrap();
    state.master_seed = [0xAB; 32];
    state.counter = 0;

    let mut ckpt = Checkpoint::new("test", &["AB".to_string()], &state, "cpu", "none", 1, 1);
    assert_eq!(ckpt.next_counter, 0);

    state.counter = 12345678;
    ckpt.update(&state);
    assert_eq!(ckpt.next_counter, 12345678);
    assert_eq!(ckpt.attempts_done, 12345678);
}

#[test]
fn checkpoint_default_path() {
    let path = Checkpoint::default_path("my-job-id");
    assert!(path.contains("my-job-id"));
    assert!(path.contains("checkpoints"));
}

#[test]
fn checkpoint_default_path_exact() {
    assert_eq!(Checkpoint::default_path("j1"), "checkpoints/j1.json");
    assert_eq!(Checkpoint::default_path(""), "checkpoints/.json");
    // An absolute job id replaces the directory, as `Path::join` does.
    assert_eq!(Checkpoint::default_path("/data/j1"), "/data/j1.json");
    let joined = std::path::PathBuf::from("checkpoints").join(format!("{}.json", "/data/j1"));
    assert_eq!(joined.to_str().unwrap(), "/data/j1.json");
}

#[test]
fn checkpoint_new_records_job() {
    let mut state = DeterministicState::new().unwrap();
    state.master_seed = [0xAB; 32];
    state.worker_id = 3;
    state.counter = 42;
    let ckpt = Checkpoint::new(
        "test-job-1",
        &["DEAD".to_string(), "BEEF".to_string()],
        &state,
        "cuda",
        "RTX 4090",
        7,
        1,
    );
    assert_eq!(ckpt.version, 1);
    assert_eq!(ckpt.job_id, "test-job-1");
    assert_eq!(ckpt.prefixes, vec!["DEAD".to_string(), "BEEF".to_string()]);
    assert_eq!(ckpt.master_seed, state.master_seed_hex());
    assert_eq!(ckpt.worker_id, 3);
    assert_eq!(ckpt.workers, 1);
    assert_eq!(ckpt.next_counter, 42);
    assert_eq!(ckpt.attempts_done, 42);
    assert_eq!(ckpt.backend, "cuda");
    assert_eq!(ckpt.device, "RTX 4090");
    assert_eq!(ckpt.cpu_worker_threads, 7);
    assert_eq!(ckpt.cpu_reserved_cores, 1);
    assert_eq!(ckpt.created_at, ckpt.updated_at);
    assert!(ckpt.created_at.bytes().all(|b| b.is_ascii_digit()));
}

#[test]
fn checkpoint_restores_worker_and_counter() {
    let mut state = DeterministicState::new().unwrap();
    state.worker_id = 9;
    state.counter = u64::MAX;
    let ckpt = Checkpoint::new("w", &[], &state, "cpu", "", 1, 1);
    let restored = ckpt.to_deterministic_state().unwrap();
    assert_eq!(restored.master_seed, state.master_seed);
    assert_eq!(restored.worker_id, 9);
    assert_eq!(restored.counter, u64::MAX);
    assert_eq!(restored.peek_seed(), state.peek_seed());
}

#[test]
fn checkpoint_with_bad_seed_fails() {
    let state = DeterministicState::new().unwrap();
    let mut ckpt = Checkpoint::new("bad", &[], &state, "cpu", "", 1, 1);
    ckpt.master_seed = "XYZ".to_string();
    assert!(ckpt
        .to_deterministic_state()
        .unwrap_err()
        .starts_with("invalid hex seed: "));
    ckpt.master_seed = "ABCD".to_string();
    assert_eq!(
        ckpt.to_deterministic_state().unwrap_err(),
        "master seed must be 32 bytes (64 hex chars), got 2 bytes"
    );
}
