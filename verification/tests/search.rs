use mc_keygen::search::{prefix_warning, should_skip, validate_prefix, PrefixMatcher};

#[test]
fn prefix_matcher_full_bytes() {
    let m = PrefixMatcher::new("AB");
    let mut key = [0u8; 32];
    key[0] = 0xAB;
    assert!(m.matches(&key));

    key[0] = 0xAC;
    assert!(!m.matches(&key));
}

#[test]
fn prefix_matcher_odd_nibble() {
    let m = PrefixMatcher::new("A");
    let mut key = [0u8; 32];
    key[0] = 0xA0;
    assert!(m.matches(&key));

    key[0] = 0xAF;
    assert!(m.matches(&key));

    key[0] = 0xB0;
    assert!(!m.matches(&key));
}

#[test]
fn prefix_matcher_multi_byte() {
    let m = PrefixMatcher::new("ABCD");
    let mut key = [0u8; 32];
    key[0] = 0xAB;
    key[1] = 0xCD;
    assert!(m.matches(&key));

    key[1] = 0xCE;
    assert!(!m.matches(&key));
}

#[test]
fn prefix_matcher_three_nibbles() {
    let m = PrefixMatcher::new("ABC");
    let mut key = [0u8; 32];
    key[0] = 0xAB;
    key[1] = 0xC0;
    assert!(m.matches(&key));

    key[1] = 0xCF;
    assert!(m.matches(&key));

    key[1] = 0xD0;
    assert!(!m.matches(&key));
}

#[test]
fn skip_00_prefix() {
    let mut key = [0u8; 32];
    key[0] = 0x00;
    assert!(should_skip(&key));
}

#[test]
fn skip_ff_prefix() {
    let mut key = [0u8; 32];
    key[0] = 0xFF;
    assert!(should_skip(&key));
}

#[test]
fn no_skip_normal_prefix() {
    let mut key = [0u8; 32];
    key[0] = 0xAB;
    assert!(!should_skip(&key));
}

#[test]
fn prefix_matcher_case_insensitive() {
    let m = PrefixMatcher::new("ab");
    let mut key = [0u8; 32];
    key[0] = 0xAB;
    assert!(m.matches(&key));
}

#[test]
fn empty_prefix_matches_every_key() {
    let m = PrefixMatcher::new("");
    assert!(m.matches(&[0u8; 32]));
    assert!(m.matches(&[0xFFu8; 32]));
}

#[test]
fn matcher_agrees_with_hex_text_of_key() {
    // A key matches exactly when its upper-case hex text starts with the prefix.
    let prefixes = ["C0DE", "c0d", "0", "FFFFFFFF", "1a2B3c4"];
    let keys: [[u8; 32]; 4] = [
        {
            let mut k = [0x11u8; 32];
            k[0] = 0xC0;
            k[1] = 0xDE;
            k
        },
        {
            let mut k = [0u8; 32];
            k[0] = 0x0F;
            k
        },
        [0xFFu8; 32],
        {
            let mut k = [0u8; 32];
            k[0] = 0x1A;
            k[1] = 0x2B;
            k[2] = 0x3C;
            k[3] = 0x4D;
            k
        },
    ];
    for p in prefixes.iter() {
        let m = PrefixMatcher::new(p);
        for k in keys.iter() {
            let text = hex::encode_upper(k);
            assert_eq!(m.matches(k), text.starts_with(&p.to_ascii_uppercase()), "{} {}", p, text);
        }
    }
}

#[test]
fn validate_prefix_uppercases() {
    assert_eq!(validate_prefix("c0de"), Ok("C0DE".to_string()));
    assert_eq!(validate_prefix("A"), Ok("A".to_string()));
    assert_eq!(validate_prefix("0F"), Ok("0F".to_string()));
    assert_eq!(validate_prefix("F"), Ok("F".to_string()));
}

#[test]
fn validate_prefix_rejects_length() {
    assert_eq!(
        validate_prefix(""),
        Err("prefix must be 1-64 hex characters, got 0 characters".to_string())
    );
    let long = "1".repeat(65);
    assert_eq!(
        validate_prefix(&long),
        Err("prefix must be 1-64 hex characters, got 65 characters".to_string())
    );
    // The count is of bytes: "é" is two bytes.
    let wide = "é".repeat(33);
    assert_eq!(
        validate_prefix(&wide),
        Err("prefix must be 1-64 hex characters, got 66 characters".to_string())
    );
}

#[test]
fn validate_prefix_accepts_long_prefix_with_warning() {
    assert_eq!(validate_prefix("C0DEBA5ED"), Ok("C0DEBA5ED".to_string()));
    assert_eq!(
        prefix_warning("C0DEBA5ED"),
        Some("prefix has 9 characters; more than 8 may take a very long time to find".to_string())
    );
    assert_eq!(prefix_warning("C0DEBA5E"), None);
    assert_eq!(prefix_warning("A"), None);
    let full = "1".repeat(64);
    assert_eq!(validate_prefix(&full), Ok(full.clone()));
    assert_eq!(
        prefix_warning(&full),
        Some("prefix has 64 characters; more than 8 may take a very long time to find".to_string())
    );
}

#[test]
fn validation_is_idempotent() {
    for p in ["c0de", "a", "1a2B3c4d5", "Fe", "0F0f"] {
        let u = validate_prefix(p).unwrap();
        assert_eq!(validate_prefix(&u), Ok(u.clone()));
    }
}

#[test]
fn accepted_prefixes_are_reachable() {
    // A key made of the prefix's bytes, then 0x?1 and 0x01 bytes, matches and is not skipped.
    for p in ["A", "0", "F", "C0D", "C0DE", "1a2B3c4d5"] {
        let u = validate_prefix(p).unwrap();
        let b = u.as_bytes();
        let mut key = [1u8; 32];
        for i in 0..b.len() / 2 {
            key[i] = u8::from_str_radix(&u[2 * i..2 * i + 2], 16).unwrap();
        }
        if b.len() % 2 == 1 {
            key[b.len() / 2] = u8::from_str_radix(&u[b.len() - 1..], 16).unwrap() * 16 + 1;
        }
        assert!(PrefixMatcher::new(&u).matches(&key), "{}", p);
        assert!(!should_skip(&key), "{}", p);
    }
}

#[test]
fn validate_prefix_rejects_non_hex() {
    assert_eq!(
        validate_prefix("xyz"),
        Err("prefix must be valid hex (0-9, A-F), got 'xyz'".to_string())
    );
    assert_eq!(
        validate_prefix("é"),
        Err("prefix must be valid hex (0-9, A-F), got 'é'".to_string())
    );
    assert_eq!(
        validate_prefix("ééééé"),
        Err("prefix must be valid hex (0-9, A-F), got 'ééééé'".to_string())
    );
}

#[test]
fn validate_prefix_rejects_reserved_starts() {
    assert_eq!(
        validate_prefix("00ab"),
        Err("prefix '00AB' starts with 00 or FF, which are skipped by MeshCore".to_string())
    );
    assert_eq!(
        validate_prefix("ff"),
        Err("prefix 'FF' starts with 00 or FF, which are skipped by MeshCore".to_string())
    );
}

#[test]
fn validated_prefixes_never_match_skipped_keys() {
    for first in 0u16..256 {
        let p = format!("{:02X}", first);
        let accepted = validate_prefix(&p).is_ok();
        let mut key = [0u8; 32];
        key[0] = first as u8;
        let m = PrefixMatcher::new(&p);
        assert!(m.matches(&key));
        if accepted {
            assert!(!should_skip(&key), "{}", p);
        } else {
            assert!(should_skip(&key), "{}", p);
        }
    }
}
