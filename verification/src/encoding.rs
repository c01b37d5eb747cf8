//! Hexadecimal text of byte strings, through the `hex` crate.

use vstd::prelude::*;
use vstd::string::StringSliceAdditionalSpecFns;

use crate::text::{decimal, push_decimal, push_str};

verus! {

/// Whether `b` is an ASCII hexadecimal digit, either case.
pub open spec fn is_hex_byte(b: u8) -> bool {
    (0x30 <= b <= 0x39) || (0x41 <= b <= 0x46) || (0x61 <= b <= 0x66)
}

/// The value of the hexadecimal digit `b`.
pub open spec fn hex_value(b: u8) -> nat {
    if b <= 0x39 {
        (b - 0x30) as nat
    } else if b <= 0x46 {
        (b - 0x41 + 10) as nat
    } else {
        (b - 0x61 + 10) as nat
    }
}

/// The upper-case hexadecimal digit for `n` (`n < 16`).
pub open spec fn upper_hex_digit(n: nat) -> char {
    if n < 10 {
        ((n + 0x30) as u8) as char
    } else {
        ((n - 10 + 0x41) as u8) as char
    }
}

/// Upper-case hexadecimal text of `b`: two digits per byte, high nibble first.
pub open spec fn hex_upper(b: Seq<u8>) -> Seq<char> {
    Seq::new(
        2 * b.len(),
        |i: int|
            upper_hex_digit(if i % 2 == 0 { (b[i / 2] / 16) as nat } else { (b[i / 2] % 16) as nat }),
    )
}

/// Whether `hex::decode` accepts the text bytes `t`: an even number of hexadecimal digits.
pub open spec fn hex_decodable(t: Seq<u8>) -> bool {
    t.len() % 2 == 0 && forall|i: int| 0 <= i < t.len() ==> is_hex_byte(#[trigger] t[i])
}

/// The bytes that the hexadecimal text `t` stands for, two digits per byte.
pub open spec fn hex_decoded(t: Seq<u8>) -> Seq<u8> {
    Seq::new(t.len() / 2, |i: int| (hex_value(t[2 * i]) * 16 + hex_value(t[2 * i + 1])) as u8)
}

/// The bytes of the text `c` as `str::as_bytes` gives them (UTF-8).
pub open spec fn text_bytes(c: Seq<char>) -> Seq<u8> {
    vstd::utf8::encode_utf8(c)
}

/// Why hexadecimal text does not decode (the variants of `hex::FromHexError`).
#[derive(Clone, Copy, Debug, PartialEq, Eq, Structural)]
pub enum HexError {
    /// The character at `index` is not a hexadecimal digit.
    InvalidHexCharacter { c: char, index: usize },
    /// The text has an odd number of bytes.
    OddLength,
    /// A fixed-size target of the wrong length.
    InvalidStringLength,
}

/// Whether `i` is the first position of `t` that holds no hexadecimal digit.
pub open spec fn first_non_hex(t: Seq<u8>, i: int) -> bool {
    &&& 0 <= i < t.len()
    &&& !is_hex_byte(t[i])
    &&& forall|j: int| 0 <= j < i ==> is_hex_byte(#[trigger] t[j])
}

/// The error `hex::decode` reports for text bytes `t` that do not decode: an
/// odd length first, else the first byte that is no hexadecimal digit.
pub open spec fn hex_error_of(t: Seq<u8>) -> HexError {
    if t.len() % 2 == 1 {
        HexError::OddLength
    } else {
        let i = choose|i: int| first_non_hex(t, i);
        HexError::InvalidHexCharacter { c: t[i] as char, index: i as usize }
    }
}

/// `hex::encode_upper`: two upper-case digits per byte, high nibble first.
#[verifier::external_body]
pub(crate) fn encode_upper(data: &[u8]) -> (s: String)
    ensures
        s@ == hex_upper(data@),
{
    hex::encode_upper(data)
}

/// `hex::decode`: succeeds exactly on an even number of hexadecimal digits of
/// either case, and then gives one byte per pair of digits; otherwise it
/// reports an odd length, or else the first byte that is no digit.
#[verifier::external_body]
pub(crate) fn decode(text: &str) -> (r: Result<Vec<u8>, HexError>)
    ensures
        r is Ok <==> hex_decodable(text.spec_bytes()),
        r matches Ok(v) ==> v@ == hex_decoded(text.spec_bytes()),
        r matches Err(e) ==> e == hex_error_of(text.spec_bytes()),
{
    match hex::decode(text) {
        Ok(v) => Ok(v),
        Err(hex::FromHexError::InvalidHexCharacter { c, index }) => Err(
            HexError::InvalidHexCharacter { c, index },
        ),
        Err(hex::FromHexError::OddLength) => Err(HexError::OddLength),
        Err(hex::FromHexError::InvalidStringLength) => Err(HexError::InvalidStringLength),
    }
}

/// The text that `{:?}` writes for the character `c`.
pub uninterp spec fn char_debug(c: char) -> Seq<char>;

/// `<char as Debug>::fmt`: the character in single quotes, escaped as
/// `char::escape_debug` escapes it; a printable ASCII character other than a
/// quote or a backslash stands as it is.
#[verifier::external_body]
fn debug_char(c: char) -> (s: String)
    ensures
        s@ == char_debug(c),
        (' ' <= c <= '~' && c != '\'' && c != '\\') ==> s@ == seq!['\'', c, '\''],
{
    format!("{:?}", c)
}

/// The text of a hexadecimal error, as `hex::FromHexError` displays it.
pub open spec fn hex_error_text(e: HexError) -> Seq<char> {
    match e {
        HexError::InvalidHexCharacter { c, index } => "Invalid character "@ + char_debug(c)
            + " at position "@ + decimal(index as nat),
        HexError::OddLength => "Odd number of digits"@,
        HexError::InvalidStringLength => "Invalid string length"@,
    }
}

impl HexError {
    /// The text of this error, as `hex::FromHexError` displays it.
    pub fn message(&self) -> (s: String)
        ensures
            s@ == hex_error_text(*self),
    {
        match self {
            HexError::InvalidHexCharacter { c, index } => {
                let mut s = "Invalid character ".to_owned();
                let d = debug_char(*c);
                push_str(&mut s, d.as_str());
                push_str(&mut s, " at position ");
                push_decimal(&mut s, *index as u64);
                s
            },
            HexError::OddLength => "Odd number of digits".to_owned(),
            HexError::InvalidStringLength => "Invalid string length".to_owned(),
        }
    }
}

/// Upper-case hexadecimal text is ASCII, and its bytes are its characters.
pub proof fn lemma_hex_upper_bytes(b: Seq<u8>)
    ensures
        vstd::utf8::is_ascii_chars(hex_upper(b)),
        text_bytes(hex_upper(b)) == Seq::new(2 * b.len(), |i: int| hex_upper(b)[i] as u8),
{
    let h = hex_upper(b);
    assert forall|i: int| 0 <= i < h.len() implies '\0' <= #[trigger] h[i] <= '\u{7f}' by {
        let n: nat = if i % 2 == 0 { (b[i / 2] / 16) as nat } else { (b[i / 2] % 16) as nat };
        assert(n < 16);
    }
    vstd::utf8::is_ascii_chars_encode_utf8(h);
    assert(text_bytes(h) =~= Seq::new(2 * b.len(), |i: int| h[i] as u8));
}

/// Decoding the upper-case hexadecimal text of `b` gives back `b`.
pub proof fn lemma_hex_roundtrip(b: Seq<u8>)
    ensures
        hex_decodable(text_bytes(hex_upper(b))),
        hex_decoded(text_bytes(hex_upper(b))) == b,
{
    lemma_hex_upper_bytes(b);
    let t = text_bytes(hex_upper(b));
    assert forall|i: int| 0 <= i < t.len() implies is_hex_byte(#[trigger] t[i])
        && hex_value(t[i]) == (if i % 2 == 0 { (b[i / 2] / 16) as nat } else { (b[i / 2] % 16) as nat }) by {
        let n: nat = if i % 2 == 0 { (b[i / 2] / 16) as nat } else { (b[i / 2] % 16) as nat };
        assert(n < 16);
        assert(t[i] == hex_upper(b)[i] as u8);
    }
    assert forall|i: int| 0 <= i < b.len() implies #[trigger] hex_decoded(t)[i] == b[i] by {
        assert((2 * i) / 2 == i);
        assert((2 * i + 1) / 2 == i);
        assert((2 * i) % 2 == 0);
        assert((2 * i + 1) % 2 == 1);
        assert(hex_value(t[2 * i]) == (b[i] / 16) as nat);
        assert(hex_value(t[2 * i + 1]) == (b[i] % 16) as nat);
    }
    assert(hex_decoded(t) =~= b);
}

} // verus!
