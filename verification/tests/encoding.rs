use mc_keygen::deterministic::DeterministicState;
use mc_keygen::encoding::HexError;

#[test]
fn hex_error_messages() {
    assert_eq!(HexError::OddLength.message(), "Odd number of digits");
    assert_eq!(HexError::InvalidStringLength.message(), "Invalid string length");
    assert_eq!(
        HexError::InvalidHexCharacter { c: 'x', index: 12 }.message(),
        "Invalid character 'x' at position 12"
    );
    assert_eq!(
        HexError::InvalidHexCharacter { c: '\n', index: 1 }.message(),
        "Invalid character '\\n' at position 1"
    );
}

#[test]
fn hex_roundtrip_of_master_seed() {
    for b in [0u8, 0x0F, 0x10, 0x9A, 0xFF] {
        let mut s = DeterministicState::new().unwrap();
        s.master_seed = [b; 32];
        let text = s.master_seed_hex();
        assert_eq!(text, hex::encode_upper([b; 32]));
        assert_eq!(DeterministicState::from_hex_seed(&text).unwrap().master_seed, [b; 32]);
    }
}
