use mc_keygen::clock::{chrono_now, now_str};

#[test]
fn timestamps_are_decimal_seconds() {
    for t in [chrono_now(), now_str()] {
        assert!(!t.is_empty());
        assert!(t.bytes().all(|b| b.is_ascii_digit()));
        assert!(t.parse::<u64>().unwrap() > 1_600_000_000);
    }
}
