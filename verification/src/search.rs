//! Prefix matching of public keys.
//!
//! A prefix is a run of hexadecimal digits; a public key matches when the
//! upper-case hexadecimal text of the key starts with the upper-cased prefix.

use vstd::prelude::*;
use vstd::string::StringSliceAdditionalSpecFns;

use crate::encoding::{hex_decoded, hex_upper, hex_value, is_hex_byte, text_bytes, upper_hex_digit};
use crate::text::{decimal, push_char, push_decimal, push_str};

verus! {

/// Whether every byte of `b` is a hexadecimal digit.
pub open spec fn all_hex(b: Seq<u8>) -> bool {
    forall|i: int| 0 <= i < b.len() ==> is_hex_byte(#[trigger] b[i])
}

/// `u8::to_ascii_uppercase`.
pub open spec fn ascii_upper(c: u8) -> u8 {
    if 0x61 <= c <= 0x7A {
        (c - 32) as u8
    } else {
        c
    }
}

/// The text `b` with ASCII letters upper-cased, one character per byte.
pub open spec fn upper_text(b: Seq<u8>) -> Seq<char> {
    Seq::new(b.len(), |i: int| ascii_upper(b[i]) as char)
}

/// The nibble that a trailing odd digit of the prefix `b` fixes, if any.
pub open spec fn trailing_of(b: Seq<u8>) -> Option<u8> {
    if b.len() % 2 == 1 {
        Some(hex_value(b[b.len() - 1]) as u8)
    } else {
        None
    }
}

/// Whether `key` begins with the bytes `full` and, when a trailing nibble is
/// given, the next byte has that high nibble.
pub open spec fn key_matches(full: Seq<u8>, trailing: Option<u8>, key: Seq<u8>) -> bool {
    &&& forall|i: int| 0 <= i < full.len() ==> key[i] == full[i]
    &&& trailing matches Some(n) ==> key[full.len() as int] / 16 == n
}

/// Number of key bytes that a matcher reads.
pub open spec fn bytes_read(full: Seq<u8>, trailing: Option<u8>) -> nat {
    full.len() + if trailing is Some { 1nat } else { 0nat }
}

/// Parsed prefix for fast nibble-level matching.
pub struct PrefixMatcher {
    /// Full bytes to match (pairs of hex chars).
    pub(crate) full_bytes: Vec<u8>,
    /// If prefix has odd length, the high nibble of the trailing hex char.
    pub(crate) trailing_nibble: Option<u8>,
}

/// The value of the hexadecimal digit `c`.
fn nibble_from_ascii(c: u8) -> (n: u8)
    requires
        is_hex_byte(c),
    ensures
        n == hex_value(c),
        n < 16,
{
    if c >= 0x30 && c <= 0x39 {
        c - 0x30
    } else if c >= 0x41 && c <= 0x46 {
        c - 0x41 + 10
    } else {
        c - 0x61 + 10
    }
}

impl PrefixMatcher {
    /// The full bytes to match.
    pub closed spec fn full(self) -> Seq<u8> {
        self.full_bytes@
    }

    /// The trailing nibble to match, if any.
    pub closed spec fn trailing(self) -> Option<u8> {
        self.trailing_nibble
    }

    /// Parses a hexadecimal prefix (either case): each pair of digits becomes a
    /// full byte, and an odd last digit becomes the trailing nibble.
    pub fn new(prefix: &str) -> (m: Self)
        requires
            all_hex(prefix.spec_bytes()),
        ensures
            m.full() == hex_decoded(prefix.spec_bytes()),
            m.trailing() == trailing_of(prefix.spec_bytes()),
    {
        let chars = prefix.as_bytes();
        let ghost b = prefix.spec_bytes();
        let mut full_bytes: Vec<u8> = Vec::new();
        let mut i: usize = 0;
        while i + 1 < chars.len()
            invariant
                chars@ == b,
                all_hex(b),
                i % 2 == 0,
                i <= chars.len(),
                full_bytes@ == hex_decoded(b).take(i as int / 2),
                hex_decoded(b).len() == b.len() / 2,
            decreases chars.len() - i,
        {
            let hi = nibble_from_ascii(chars[i]);
            let lo = nibble_from_ascii(chars[i + 1]);
            let byte = (hi << 4u8) | lo;
            assert(byte == hi * 16 + lo) by (bit_vector)
                requires
                    hi < 16,
                    lo < 16,
                    byte == (hi << 4u8) | lo,
            ;
            full_bytes.push(byte);
            proof {
                assert(hex_decoded(b)[i as int / 2] == byte);
                assert(hex_decoded(b).take(i as int / 2 + 1) =~= hex_decoded(b).take(i as int / 2).push(byte));
            }
            i = i + 2;
        }
        assert(hex_decoded(b).take(i as int / 2) =~= hex_decoded(b));
        let trailing_nibble = if i < chars.len() {
            Some(nibble_from_ascii(chars[i]))
        } else {
            None
        };
        PrefixMatcher { full_bytes, trailing_nibble }
    }

    /// Whether `public_key` starts with this prefix.
    pub fn matches(&self, public_key: &[u8; 32]) -> (r: bool)
        requires
            bytes_read(self.full(), self.trailing()) <= 32,
        ensures
            r == key_matches(self.full(), self.trailing(), public_key@),
    {
        let mut i: usize = 0;
        while i < self.full_bytes.len()
            invariant
                i <= self.full_bytes@.len(),
                self.full_bytes@.len() <= 32,
                forall|j: int| 0 <= j < i ==> public_key@[j] == self.full_bytes@[j],
            decreases self.full_bytes@.len() - i,
        {
            if public_key[i] != self.full_bytes[i] {
                return false;
            }
            i = i + 1;
        }
        if let Some(nibble) = self.trailing_nibble {
            let idx = self.full_bytes.len();
            let k = public_key[idx];
            let hi = k >> 4u8;
            assert(hi == k / 16) by (bit_vector)
                requires
                    hi == k >> 4u8,
            ;
            if hi != nibble {
                return false;
            }
        }
        true
    }
}

/// Whether a public key is skipped: MeshCore reserves the first bytes 00 and FF.
pub fn should_skip(public_key: &[u8; 32]) -> (r: bool)
    ensures
        r == (public_key@[0] == 0x00 || public_key@[0] == 0xFF),
{
    public_key[0] == 0x00 || public_key[0] == 0xFF
}

proof fn lemma_digit_match(c: u8, v: nat)
    requires
        is_hex_byte(c),
        v < 16,
    ensures
        (upper_hex_digit(v) == ascii_upper(c) as char) <==> (v == hex_value(c)),
{
}

proof fn lemma_byte_split(k: u8, hi: nat, lo: nat)
    requires
        hi < 16,
        lo < 16,
    ensures
        (k == (hi * 16 + lo) as u8) <==> ((k / 16) as nat == hi && (k % 16) as nat == lo),
{
    assert(hi * 16 + lo < 256) by (nonlinear_arith)
        requires
            hi < 16,
            lo < 16,
    ;
}

/// A key matches the matcher of a hexadecimal prefix exactly when the
/// upper-case hexadecimal text of the key begins with the upper-cased prefix.
pub proof fn lemma_matches_iff_hex_prefix(prefix: Seq<u8>, key: Seq<u8>)
    requires
        all_hex(prefix),
        prefix.len() <= 2 * key.len(),
    ensures
        key_matches(hex_decoded(prefix), trailing_of(prefix), key) <==> hex_upper(key).take(
            prefix.len() as int,
        ) == upper_text(prefix),
{
    let n = prefix.len() as int;
    let full = hex_decoded(prefix);
    let text = hex_upper(key).take(n);
    let up = upper_text(prefix);
    assert forall|j: int| 0 <= j < n implies (#[trigger] text[j] == up[j]) <==> (if j % 2 == 0 {
        (key[j / 2] / 16) as nat == hex_value(prefix[j])
    } else {
        (key[j / 2] % 16) as nat == hex_value(prefix[j])
    }) by {
        let v: nat = if j % 2 == 0 { (key[j / 2] / 16) as nat } else { (key[j / 2] % 16) as nat };
        lemma_digit_match(prefix[j], v);
    }
    assert forall|i: int| 0 <= i < full.len() implies (key[i] == #[trigger] full[i]) <==> ((key[i]
        / 16) as nat == hex_value(prefix[2 * i]) && (key[i] % 16) as nat == hex_value(
        prefix[2 * i + 1],
    )) by {
        assert(is_hex_byte(prefix[2 * i]) && is_hex_byte(prefix[2 * i + 1]));
        lemma_byte_split(key[i], hex_value(prefix[2 * i]), hex_value(prefix[2 * i + 1]));
    }
    if key_matches(full, trailing_of(prefix), key) {
        assert forall|j: int| 0 <= j < n implies #[trigger] text[j] == up[j] by {
            if j / 2 < full.len() {
                assert(key[j / 2] == full[j / 2]);
                assert(2 * (j / 2) == j || 2 * (j / 2) + 1 == j);
            } else {
                assert(j == n - 1 && n % 2 == 1);
            }
        }
        assert(text =~= up);
    }
    if text == up {
        assert forall|i: int| 0 <= i < full.len() implies key[i] == #[trigger] full[i] by {
            assert(text[2 * i] == up[2 * i]);
            assert(text[2 * i + 1] == up[2 * i + 1]);
            assert((2 * i) / 2 == i && (2 * i) % 2 == 0);
            assert((2 * i + 1) / 2 == i && (2 * i + 1) % 2 == 1);
        }
        if n % 2 == 1 {
            assert(text[n - 1] == up[n - 1]);
            assert((n - 1) / 2 == full.len());
            assert((n - 1) % 2 == 0);
        }
    }
}

/// A prefix that validation accepts with at least two digits never matches a
/// key that the search skips: the first byte of a matching key is neither 00 nor FF.
pub proof fn lemma_valid_prefix_avoids_skipped_keys(prefix: Seq<u8>, key: Seq<u8>)
    requires
        prefix_accepted(prefix),
        2 <= prefix.len(),
        key.len() == 32,
        key_matches(hex_decoded(prefix), trailing_of(prefix), key),
    ensures
        key[0] != 0x00,
        key[0] != 0xFF,
{
    let full = hex_decoded(prefix);
    assert(full.len() >= 1);
    assert(key[0] == full[0]);
    let hi = hex_value(prefix[0]);
    let lo = hex_value(prefix[1]);
    assert(is_hex_byte(prefix[0]) && is_hex_byte(prefix[1]));
    lemma_byte_split(key[0], hi, lo);
    assert(hi < 16 && lo < 16);
    if key[0] == 0x00 {
        assert(hi == 0 && lo == 0);
    }
    if key[0] == 0xFF {
        assert(hi == 15 && lo == 15);
    }
}

proof fn lemma_upper_hex_byte(c: u8)
    requires
        is_hex_byte(c),
    ensures
        is_hex_byte(ascii_upper(c)),
        ascii_upper(ascii_upper(c)) == ascii_upper(c),
        hex_value(ascii_upper(c)) == hex_value(c),
        ascii_upper(c) < 0x80,
        ((ascii_upper(c) as char) as u8) == ascii_upper(c),
{
}

/// Validation is idempotent: the upper-cased text that validation gives for an
/// accepted prefix is accepted again and gives itself back, and the matcher
/// reads it as the same bytes and trailing nibble.
pub proof fn lemma_validation_idempotent(b: Seq<u8>)
    requires
        prefix_accepted(b),
    ensures
        prefix_accepted(text_bytes(upper_text(b))),
        upper_text(text_bytes(upper_text(b))) == upper_text(b),
        hex_decoded(text_bytes(upper_text(b))) == hex_decoded(b),
        trailing_of(text_bytes(upper_text(b))) == trailing_of(b),
{
    let up = upper_text(b);
    assert forall|i: int| 0 <= i < up.len() implies '\0' <= #[trigger] up[i] <= '\u{7f}' by {
        lemma_upper_hex_byte(b[i]);
    }
    vstd::utf8::is_ascii_chars_encode_utf8(up);
    let ub = text_bytes(up);
    assert(ub.len() == b.len());
    assert forall|i: int| 0 <= i < b.len() implies #[trigger] ub[i] == ascii_upper(b[i]) by {
        lemma_upper_hex_byte(b[i]);
        assert(up[i] as u8 == ub[i]);
    }
    assert forall|i: int| 0 <= i < ub.len() implies is_hex_byte(#[trigger] ub[i]) by {
        lemma_upper_hex_byte(b[i]);
    }
    if b.len() >= 2 {
        lemma_upper_hex_byte(b[0]);
        lemma_upper_hex_byte(b[1]);
    }
    assert(upper_text(ub) =~= up) by {
        assert forall|i: int| 0 <= i < b.len() implies #[trigger] upper_text(ub)[i] == up[i] by {
            lemma_upper_hex_byte(b[i]);
        }
    }
    assert(hex_decoded(ub) =~= hex_decoded(b)) by {
        assert forall|i: int| 0 <= i < b.len() / 2 implies #[trigger] hex_decoded(ub)[i] == hex_decoded(b)[i] by {
            lemma_upper_hex_byte(b[2 * i]);
            lemma_upper_hex_byte(b[2 * i + 1]);
        }
    }
    if b.len() % 2 == 1 {
        lemma_upper_hex_byte(b[b.len() - 1]);
    }
}

/// Every accepted prefix can be found: some 32-byte key that the search does
/// not skip (its first byte is neither 00 nor FF) matches it.
pub proof fn lemma_accepted_prefix_is_reachable(b: Seq<u8>)
    requires
        prefix_accepted(b),
    ensures
        exists|key: Seq<u8>|
            key.len() == 32 && key_matches(hex_decoded(b), trailing_of(b), key) && key[0] != 0x00
                && key[0] != 0xFF,
{
    let full = hex_decoded(b);
    let t = trailing_of(b);
    if b.len() % 2 == 1 {
        assert(is_hex_byte(b[b.len() - 1]));
    }
    let key = Seq::new(
        32,
        |i: int|
            if i < full.len() {
                full[i]
            } else if i == full.len() && t is Some {
                (t->0 * 16 + 1) as u8
            } else {
                1u8
            },
    );
    assert(key_matches(full, t, key));
    if b.len() >= 2 {
        lemma_valid_prefix_avoids_skipped_keys(b, key);
    } else {
        assert(full.len() == 0 && t is Some);
    }
    assert(key.len() == 32 && key_matches(full, t, key) && key[0] != 0x00 && key[0] != 0xFF);
}

/// The longest prefix: the 64 hexadecimal digits of a 32-byte public key.
pub const MAX_PREFIX_LEN: usize = 64;

/// Prefixes longer than this are accepted with a warning.
pub const WARN_PREFIX_LEN: usize = 8;

/// The message for a prefix of `n` bytes, outside 1 to 64.
pub open spec fn prefix_length_message(n: nat) -> Seq<char> {
    "prefix must be 1-64 hex characters, got "@ + decimal(n) + " characters"@
}

/// The warning for an accepted prefix of `n` characters, more than 8.
pub open spec fn prefix_warning_message(n: nat) -> Seq<char> {
    "prefix has "@ + decimal(n) + " characters; more than 8 may take a very long time to find"@
}

/// The message for a prefix that is not hexadecimal.
pub open spec fn prefix_hex_message(prefix: Seq<char>) -> Seq<char> {
    "prefix must be valid hex (0-9, A-F), got '"@ + prefix + "'"@
}

/// The message for an upper-cased prefix that begins with 00 or FF.
pub open spec fn prefix_reserved_message(upper: Seq<char>) -> Seq<char> {
    "prefix '"@ + upper + "' starts with 00 or FF, which are skipped by MeshCore"@
}

/// Whether the upper-cased text of `b` begins with `00` or `FF`.
pub open spec fn starts_reserved(b: Seq<u8>) -> bool {
    b.len() >= 2 && ((ascii_upper(b[0]) == 0x30 && ascii_upper(b[1]) == 0x30) || (ascii_upper(
        b[0],
    ) == 0x46 && ascii_upper(b[1]) == 0x46))
}

/// Whether validation accepts the prefix bytes `b`: 1 to 64 hexadecimal
/// digits, not beginning with 00 or FF.
pub open spec fn prefix_accepted(b: Seq<u8>) -> bool {
    &&& 1 <= b.len() <= MAX_PREFIX_LEN
    &&& all_hex(b)
    &&& !starts_reserved(b)
}

/// Validates a search prefix and gives it upper-cased: 1 to 64 hexadecimal
/// digits (as many as a public key has), not beginning with 00 or FF. A prefix
/// of more than 8 digits is accepted; `prefix_warning` gives its warning.
pub fn validate_prefix(prefix: &str) -> (r: Result<String, String>)
    ensures
        r is Ok <==> prefix_accepted(prefix.spec_bytes()),
        ({
            let b = prefix.spec_bytes();
            if b.len() == 0 || b.len() > MAX_PREFIX_LEN {
                r matches Err(m) && m@ == prefix_length_message(b.len())
            } else if !all_hex(b) {
                r matches Err(m) && m@ == prefix_hex_message(prefix@)
            } else if starts_reserved(b) {
                r matches Err(m) && m@ == prefix_reserved_message(upper_text(b))
            } else {
                r matches Ok(u) && u@ == upper_text(b)
            }
        }),
{
    let b = prefix.as_bytes();
    let n = b.len();
    if n == 0 || n > MAX_PREFIX_LEN {
        let mut m = "prefix must be 1-64 hex characters, got ".to_owned();
        push_decimal(&mut m, n as u64);
        push_str(&mut m, " characters");
        return Err(m);
    }
    let mut i: usize = 0;
    while i < n
        invariant
            i <= n,
            1 <= n <= MAX_PREFIX_LEN,
            n == b@.len(),
            b@ == prefix.spec_bytes(),
            forall|j: int| 0 <= j < i ==> is_hex_byte(#[trigger] b@[j]),
        decreases n - i,
    {
        let c = b[i];
        if !((c >= 0x30 && c <= 0x39) || (c >= 0x41 && c <= 0x46) || (c >= 0x61 && c <= 0x66)) {
            let mut m = "prefix must be valid hex (0-9, A-F), got '".to_owned();
            push_str(&mut m, prefix);
            push_str(&mut m, "'");
            proof {
                assert(prefix.spec_bytes()[i as int] == c);
                assert(!is_hex_byte(prefix.spec_bytes()[i as int]));
                assert(!all_hex(prefix.spec_bytes()));
            }
            return Err(m);
        }
        i = i + 1;
    }
    let mut upper = String::new();
    let mut k: usize = 0;
    while k < n
        invariant
            k <= n,
            1 <= n <= MAX_PREFIX_LEN,
            n == b@.len(),
            b@ == prefix.spec_bytes(),
            all_hex(b@),
            upper@ == upper_text(b@).take(k as int),
        decreases n - k,
    {
        let c = b[k];
        let u = if c >= 0x61 && c <= 0x7A { c - 32 } else { c };
        push_char(&mut upper, u as char);
        proof {
            assert(upper_text(b@).take(k as int + 1) =~= upper_text(b@).take(k as int).push(u as char));
        }
        k = k + 1;
    }
    assert(upper_text(b@).take(n as int) =~= upper_text(b@));
    let u0 = if b[0] >= 0x61 && b[0] <= 0x7A { b[0] - 32 } else { b[0] };
    let reserved = n >= 2 && {
        let u1 = if b[1] >= 0x61 && b[1] <= 0x7A { b[1] - 32 } else { b[1] };
        (u0 == 0x30 && u1 == 0x30) || (u0 == 0x46 && u1 == 0x46)
    };
    if reserved {
        let mut m = "prefix '".to_owned();
        push_str(&mut m, upper.as_str());
        push_str(&mut m, "' starts with 00 or FF, which are skipped by MeshCore");
        return Err(m);
    }
    Ok(upper)
}

/// The warning for a prefix of more than 8 characters, which takes very long
/// to find; `None` for a shorter one.
pub fn prefix_warning(prefix: &str) -> (w: Option<String>)
    ensures
        prefix.spec_bytes().len() > WARN_PREFIX_LEN ==> (w matches Some(m) && m@
            == prefix_warning_message(prefix.spec_bytes().len())),
        prefix.spec_bytes().len() <= WARN_PREFIX_LEN ==> w is None,
{
    let n = prefix.as_bytes().len();
    if n > WARN_PREFIX_LEN {
        let mut m = "prefix has ".to_owned();
        push_decimal(&mut m, n as u64);
        push_str(&mut m, " characters; more than 8 may take a very long time to find");
        Some(m)
    } else {
        None
    }
}

} // verus!
