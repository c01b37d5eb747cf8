use mc_keygen::cpu::CpuConfig;

#[test]
fn default_reserves_at_least_one_core() {
    let config = CpuConfig {
        total_logical_cores: 8,
        reserved_cores: 1,
        max_worker_threads: None,
    };
    assert_eq!(config.available_workers(), 7);
    assert!(config.can_run_cpu_workers());
}

#[test]
fn single_core_machine_has_zero_workers() {
    let config = CpuConfig {
        total_logical_cores: 1,
        reserved_cores: 1,
        max_worker_threads: None,
    };
    assert_eq!(config.available_workers(), 0);
    assert!(!config.can_run_cpu_workers());
}

#[test]
fn cannot_reserve_more_than_total_minus_one() {
    let config = CpuConfig {
        total_logical_cores: 4,
        reserved_cores: 4, // too high
        max_worker_threads: None,
    };
    // available_workers floors at 0
    assert_eq!(config.available_workers(), 0);
}

#[test]
fn max_worker_threads_override() {
    let config = CpuConfig {
        total_logical_cores: 8,
        reserved_cores: 1,
        max_worker_threads: Some(3),
    };
    assert_eq!(config.available_workers(), 3);
}

#[test]
fn max_worker_threads_capped_by_available() {
    let config = CpuConfig {
        total_logical_cores: 8,
        reserved_cores: 1,
        max_worker_threads: Some(100), // too high
    };
    assert_eq!(config.available_workers(), 7);
}

#[test]
fn reserve_zero_uses_all_cores() {
    let config = CpuConfig {
        total_logical_cores: 8,
        reserved_cores: 0,
        max_worker_threads: None,
    };
    assert_eq!(config.available_workers(), 8);
}

#[test]
fn summary_contains_expected_fields() {
    let config = CpuConfig {
        total_logical_cores: 8,
        reserved_cores: 1,
        max_worker_threads: None,
    };
    let summary = config.summary();
    assert!(summary.contains("total=8"));
    assert!(summary.contains("reserved=1"));
    assert!(summary.contains("workers=7"));
}

#[test]
fn summary_exact_text() {
    let config = CpuConfig {
        total_logical_cores: 16,
        reserved_cores: 2,
        max_worker_threads: Some(5),
    };
    assert_eq!(config.summary(), "total=16, reserved=2, workers=5");
}

#[test]
fn detected_defaults_reserve_one_core() {
    let config = CpuConfig::from_detected(8, None, None);
    assert_eq!(config.total_logical_cores, 8);
    assert_eq!(config.reserved_cores, 1);
    assert_eq!(config.max_worker_threads, None);
    assert_eq!(config.available_workers(), 7);
}

#[test]
fn detected_reservation_is_capped() {
    let config = CpuConfig::from_detected(4, Some("9"), None);
    assert_eq!(config.reserved_cores, 3);
    assert_eq!(config.available_workers(), 1);
}

#[test]
fn detected_single_core_keeps_its_core_for_the_ui() {
    let single = CpuConfig::from_detected(1, None, None);
    assert_eq!(single.reserved_cores, 1);
    assert_eq!(single.available_workers(), 0);
    assert!(!single.can_run_cpu_workers());
    let all = CpuConfig::from_detected(1, Some("0"), None);
    assert_eq!(all.reserved_cores, 0);
    assert_eq!(all.available_workers(), 1);
    let many = CpuConfig::from_detected(1, Some("5"), None);
    assert_eq!(many.reserved_cores, 1);
}

#[test]
fn detected_unreadable_settings() {
    let config = CpuConfig::from_detected(8, Some("two"), Some("-3"));
    assert_eq!(config.reserved_cores, 1);
    assert_eq!(config.max_worker_threads, None);
    let config = CpuConfig::from_detected(8, Some("+0"), Some("4"));
    assert_eq!(config.reserved_cores, 0);
    assert_eq!(config.max_worker_threads, Some(4));
    assert_eq!(config.available_workers(), 4);
}

#[test]
fn workers_never_exceed_cores() {
    for total in 0..6usize {
        for reserved in 0..8usize {
            for max in [None, Some(0usize), Some(2), Some(50)] {
                let c = CpuConfig {
                    total_logical_cores: total,
                    reserved_cores: reserved,
                    max_worker_threads: max,
                };
                assert!(c.available_workers() <= total);
                if reserved < total && max != Some(0) {
                    assert!(c.available_workers() >= 1);
                }
            }
        }
    }
}
