use mc_keygen::models::{JobStatus, Settings, StoredSettings};

#[test]
fn status_names() {
    assert_eq!(JobStatus::Queued.as_str(), "queued");
    assert_eq!(JobStatus::Running.as_str(), "running");
    assert_eq!(JobStatus::Paused.as_str(), "paused");
    assert_eq!(JobStatus::Completed.as_str(), "completed");
    assert_eq!(JobStatus::Failed.as_str(), "failed");
    assert_eq!(JobStatus::Stopped.as_str(), "stopped");
    assert_eq!(JobStatus::Scheduled.as_str(), "scheduled");
}

#[test]
fn status_name_roundtrip() {
    for s in [
        JobStatus::Queued,
        JobStatus::Running,
        JobStatus::Paused,
        JobStatus::Completed,
        JobStatus::Failed,
        JobStatus::Stopped,
        JobStatus::Scheduled,
    ] {
        assert_eq!(JobStatus::parse(s.as_str()), Some(s));
    }
    assert_eq!(JobStatus::parse("Queued"), None);
    assert_eq!(JobStatus::parse(""), None);
}

#[test]
fn stored_status_defaults_to_queued() {
    assert_eq!(JobStatus::from_stored("paused"), JobStatus::Paused);
    assert_eq!(JobStatus::from_stored("bogus"), JobStatus::Queued);
}

#[test]
fn update_status_ignores_scheduled_and_unknown() {
    assert_eq!(JobStatus::from_update("stopped", JobStatus::Running), JobStatus::Stopped);
    assert_eq!(JobStatus::from_update("scheduled", JobStatus::Paused), JobStatus::Paused);
    assert_eq!(JobStatus::from_update("nope", JobStatus::Failed), JobStatus::Failed);
}

#[test]
fn default_settings() {
    let s = Settings::default();
    assert_eq!(s.reserved_cpu_cores, 1);
    assert_eq!(s.max_worker_threads, None);
    assert_eq!(s.checkpoint_interval_secs, 10);
    assert_eq!(s.default_backend, "cpu");
    assert_eq!(s.default_benchmark_id, None);
    assert_eq!(s.timezone, "UTC");
    assert!(s.hide_secrets);
    assert_eq!(s.max_log_lines, 10000);
    assert_eq!(s.bind_address, "0.0.0.0:8080");
    assert_eq!(s.password_hash, None);
    assert!(!s.schedule_enabled);
    assert_eq!(s.schedule_start, "23:00");
    assert_eq!(s.schedule_end, "07:00");
}

fn empty_stored() -> StoredSettings {
    StoredSettings {
        reserved_cpu_cores: None,
        max_worker_threads: None,
        checkpoint_interval_secs: None,
        default_backend: None,
        default_benchmark_id: None,
        timezone: None,
        hide_secrets: None,
        max_log_lines: None,
        bind_address: None,
        password_hash: None,
        schedule_enabled: None,
        schedule_start: None,
        schedule_end: None,
    }
}

#[test]
fn stored_settings_fall_back_to_defaults() {
    let s = Settings::from_stored(&empty_stored());
    let d = Settings::default();
    assert_eq!(s.reserved_cpu_cores, d.reserved_cpu_cores);
    assert_eq!(s.checkpoint_interval_secs, d.checkpoint_interval_secs);
    assert_eq!(s.default_backend, d.default_backend);
    assert_eq!(s.hide_secrets, d.hide_secrets);
    assert_eq!(s.max_log_lines, d.max_log_lines);
    assert_eq!(s.bind_address, d.bind_address);
    assert_eq!(s.schedule_start, d.schedule_start);
    assert_eq!(s.schedule_end, d.schedule_end);
}

#[test]
fn stored_settings_are_parsed() {
    let mut st = empty_stored();
    st.reserved_cpu_cores = Some("3".to_string());
    st.max_worker_threads = Some("12".to_string());
    st.checkpoint_interval_secs = Some("x".to_string());
    st.hide_secrets = Some("false".to_string());
    st.schedule_enabled = Some("TRUE".to_string());
    st.max_log_lines = Some("+50".to_string());
    st.timezone = Some("Europe/Oslo".to_string());
    st.password_hash = Some("h".to_string());
    let s = Settings::from_stored(&st);
    assert_eq!(s.reserved_cpu_cores, 3);
    assert_eq!(s.max_worker_threads, Some(12));
    assert_eq!(s.checkpoint_interval_secs, 10);
    assert!(!s.hide_secrets);
    assert!(!s.schedule_enabled);
    assert_eq!(s.max_log_lines, 50);
    assert_eq!(s.timezone, "Europe/Oslo");
    assert_eq!(s.password_hash, Some("h".to_string()));
    assert_eq!(s.without_password().password_hash, None);
}
