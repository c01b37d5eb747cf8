//! Philox4x64-10 counter-based generator (Random123).
//!
//! 256 bits of output per call from a 128-bit key and a 256-bit counter.

use vstd::prelude::*;
use crate::bytes::le_byte;

verus! {

/// First round multiplier.
pub const M0: u64 = 0xD2E7470EE14C6C93;
/// Second round multiplier.
pub const M1: u64 = 0xCA5A826395121157;
/// Weyl increment of the first key word.
pub const W0: u64 = 0x9E3779B97F4A7C15;
/// Weyl increment of the second key word.
pub const W1: u64 = 0xBB67AE8584CAA73B;

/// 2^64.
pub open spec fn word_modulus() -> int {
    0x1_0000_0000_0000_0000
}

/// High 64 bits of the 128-bit product `a * b`.
pub open spec fn mulhi(a: u64, b: u64) -> u64 {
    ((a as int * b as int) / word_modulus()) as u64
}

/// Low 64 bits of the 128-bit product `a * b`.
pub open spec fn mullo(a: u64, b: u64) -> u64 {
    ((a as int * b as int) % word_modulus()) as u64
}

/// The key word used in round `r`: the initial word bumped `r` times by `w`, modulo 2^64.
pub open spec fn round_key(k: u64, w: u64, r: nat) -> u64 {
    ((k as int + r * w as int) % word_modulus()) as u64
}

/// One Philox4x64 round on the counter `c` with key words `k0`, `k1`.
pub open spec fn philox_round(c: Seq<u64>, k0: u64, k1: u64) -> Seq<u64> {
    seq![
        mulhi(M1, c[2]) ^ c[1] ^ k0,
        mullo(M1, c[2]),
        mulhi(M0, c[0]) ^ c[3] ^ k1,
        mullo(M0, c[0]),
    ]
}

/// The counter after the first `n` rounds under the key `(k0, k1)`.
pub open spec fn philox_rounds(c: Seq<u64>, k0: u64, k1: u64, n: nat) -> Seq<u64>
    decreases n,
{
    if n == 0 {
        c
    } else {
        let prev = philox_rounds(c, k0, k1, (n - 1) as nat);
        philox_round(prev, round_key(k0, W0, (n - 1) as nat), round_key(k1, W1, (n - 1) as nat))
    }
}

/// Philox4x64-10: ten rounds.
pub open spec fn philox4x64_10_spec(ctr: Seq<u64>, key: Seq<u64>) -> Seq<u64> {
    philox_rounds(ctr, key[0], key[1], 10)
}

/// The 32 output bytes of one block: the four output words, each little-endian.
pub open spec fn block32_spec(words: Seq<u64>) -> Seq<u8> {
    Seq::new(32, |k: int| le_byte(words[k / 8], k % 8))
}

proof fn lemma_mullo_m0_injective(a: u64, b: u64)
    requires
        mullo(M0, a) == mullo(M0, b),
    ensures
        a == b,
{
    // 0x6c6d4a4b2db9919b is the inverse of M0 modulo 2^64.
    let x: u64 = mullo(M0, a);
    let y: u64 = mullo(M0, b);
    assert(x == ((0xD2E7470EE14C6C93u64 * a) as u64) && y == ((0xD2E7470EE14C6C93u64 * b) as u64))
        by (bit_vector)
        requires
            x == ((0xD2E7470EE14C6C93u64 as int * a as int) % 0x1_0000_0000_0000_0000int) as u64,
            y == ((0xD2E7470EE14C6C93u64 as int * b as int) % 0x1_0000_0000_0000_0000int) as u64,
    ;
    assert(((0x6c6d4a4b2db9919bu64 * ((0xD2E7470EE14C6C93u64 * a) as u64)) as u64) == a) by (bit_vector);
    assert(((0x6c6d4a4b2db9919bu64 * ((0xD2E7470EE14C6C93u64 * b) as u64)) as u64) == b) by (bit_vector);
}

proof fn lemma_mullo_m1_injective(a: u64, b: u64)
    requires
        mullo(M1, a) == mullo(M1, b),
    ensures
        a == b,
{
    // 0x17df77e820bb6a67 is the inverse of M1 modulo 2^64.
    let x: u64 = mullo(M1, a);
    let y: u64 = mullo(M1, b);
    assert(x == ((0xCA5A826395121157u64 * a) as u64) && y == ((0xCA5A826395121157u64 * b) as u64))
        by (bit_vector)
        requires
            x == ((0xCA5A826395121157u64 as int * a as int) % 0x1_0000_0000_0000_0000int) as u64,
            y == ((0xCA5A826395121157u64 as int * b as int) % 0x1_0000_0000_0000_0000int) as u64,
    ;
    assert(((0x17df77e820bb6a67u64 * ((0xCA5A826395121157u64 * a) as u64)) as u64) == a) by (bit_vector);
    assert(((0x17df77e820bb6a67u64 * ((0xCA5A826395121157u64 * b) as u64)) as u64) == b) by (bit_vector);
}

proof fn lemma_xor_cancel(h: u64, y: u64, z: u64, k: u64)
    requires
        h ^ y ^ k == h ^ z ^ k,
    ensures
        y == z,
{
    assert(y == z) by (bit_vector)
        requires
            h ^ y ^ k == h ^ z ^ k,
    ;
}

/// One round is injective in the counter for fixed key words.
proof fn lemma_round_injective(c: Seq<u64>, d: Seq<u64>, k0: u64, k1: u64)
    requires
        c.len() == 4,
        d.len() == 4,
        philox_round(c, k0, k1) == philox_round(d, k0, k1),
    ensures
        c == d,
{
    let rc = philox_round(c, k0, k1);
    let rd = philox_round(d, k0, k1);
    assert(rc[3] == rd[3] && rc[1] == rd[1] && rc[2] == rd[2] && rc[0] == rd[0]);
    lemma_mullo_m0_injective(c[0], d[0]);
    lemma_mullo_m1_injective(c[2], d[2]);
    lemma_xor_cancel(mulhi(M0, c[0]), c[3], d[3], k1);
    lemma_xor_cancel(mulhi(M1, c[2]), c[1], d[1], k0);
    assert(c =~= d);
}

proof fn lemma_rounds_len(c: Seq<u64>, k0: u64, k1: u64, n: nat)
    requires
        c.len() == 4,
    ensures
        philox_rounds(c, k0, k1, n).len() == 4,
{
}

proof fn lemma_rounds_injective(c: Seq<u64>, d: Seq<u64>, k0: u64, k1: u64, n: nat)
    requires
        c.len() == 4,
        d.len() == 4,
        philox_rounds(c, k0, k1, n) == philox_rounds(d, k0, k1, n),
    ensures
        c == d,
    decreases n,
{
    if n > 0 {
        let m = (n - 1) as nat;
        lemma_rounds_len(c, k0, k1, m);
        lemma_rounds_len(d, k0, k1, m);
        lemma_round_injective(
            philox_rounds(c, k0, k1, m),
            philox_rounds(d, k0, k1, m),
            round_key(k0, W0, m),
            round_key(k1, W1, m),
        );
        lemma_rounds_injective(c, d, k0, k1, m);
    }
}

proof fn lemma_le_bytes_injective(x: u64, y: u64)
    requires
        forall|j: int| 0 <= j < 8 ==> #[trigger] le_byte(x, j) == le_byte(y, j),
    ensures
        x == y,
{
    assert(le_byte(x, 0) == le_byte(y, 0));
    assert(le_byte(x, 1) == le_byte(y, 1));
    assert(le_byte(x, 2) == le_byte(y, 2));
    assert(le_byte(x, 3) == le_byte(y, 3));
    assert(le_byte(x, 4) == le_byte(y, 4));
    assert(le_byte(x, 5) == le_byte(y, 5));
    assert(le_byte(x, 6) == le_byte(y, 6));
    assert(le_byte(x, 7) == le_byte(y, 7));
    assert(x == y) by (bit_vector)
        requires
            (x >> 0u64) as u8 == (y >> 0u64) as u8,
            (x >> 8u64) as u8 == (y >> 8u64) as u8,
            (x >> 16u64) as u8 == (y >> 16u64) as u8,
            (x >> 24u64) as u8 == (y >> 24u64) as u8,
            (x >> 32u64) as u8 == (y >> 32u64) as u8,
            (x >> 40u64) as u8 == (y >> 40u64) as u8,
            (x >> 48u64) as u8 == (y >> 48u64) as u8,
            (x >> 56u64) as u8 == (y >> 56u64) as u8,
    ;
}

proof fn lemma_block32_words(w: Seq<u64>, v: Seq<u64>)
    requires
        w.len() == 4,
        v.len() == 4,
        block32_spec(w) == block32_spec(v),
    ensures
        w == v,
{
    assert forall|i: int| 0 <= i < 4 implies #[trigger] w[i] == v[i] by {
        assert forall|j: int| 0 <= j < 8 implies #[trigger] le_byte(w[i], j) == le_byte(v[i], j) by {
            let k = 8 * i + j;
            assert(0 <= k < 32);
            assert(k / 8 == i && k % 8 == j);
            assert(block32_spec(w)[k] == le_byte(w[k / 8], k % 8));
            assert(block32_spec(v)[k] == le_byte(v[k / 8], k % 8));
            assert(block32_spec(w)[k] == block32_spec(v)[k]);
        }
        lemma_le_bytes_injective(w[i], v[i]);
    }
    assert(w =~= v);
}

/// For a fixed key, Philox4x64-10 is injective in the counter: distinct
/// counters give distinct outputs.
pub proof fn lemma_philox_injective(c: Seq<u64>, d: Seq<u64>, key: Seq<u64>)
    requires
        c.len() == 4,
        d.len() == 4,
        key.len() == 2,
        c != d,
    ensures
        philox4x64_10_spec(c, key) != philox4x64_10_spec(d, key),
{
    if philox4x64_10_spec(c, key) == philox4x64_10_spec(d, key) {
        lemma_rounds_injective(c, d, key[0], key[1], 10);
    }
}

/// Under one key, distinct `(index, side)` pairs give distinct 32-byte blocks.
pub proof fn lemma_block32_distinct(k0: u64, k1: u64, idx1: u64, side1: u64, idx2: u64, side2: u64)
    requires
        idx1 != idx2 || side1 != side2,
    ensures
        block32_spec(philox4x64_10_spec(seq![idx1, side1, 0u64, 0u64], seq![k0, k1]))
            != block32_spec(philox4x64_10_spec(seq![idx2, side2, 0u64, 0u64], seq![k0, k1])),
{
    let c = seq![idx1, side1, 0u64, 0u64];
    let d = seq![idx2, side2, 0u64, 0u64];
    let key = seq![k0, k1];
    assert(c[0] == idx1 && c[1] == side1 && d[0] == idx2 && d[1] == side2);
    assert(c != d);
    lemma_philox_injective(c, d, key);
    lemma_rounds_len(c, k0, k1, 10);
    lemma_rounds_len(d, k0, k1, 10);
    if block32_spec(philox4x64_10_spec(c, key)) == block32_spec(philox4x64_10_spec(d, key)) {
        lemma_block32_words(philox4x64_10_spec(c, key), philox4x64_10_spec(d, key));
    }
}

/// High and low halves of the 128-bit product `a * b`.
fn mul_hi_lo(a: u64, b: u64) -> (r: (u64, u64))
    ensures
        r.0 == mulhi(a, b),
        r.1 == mullo(a, b),
{
    assert((a as int) * (b as int) <= 0xFFFF_FFFF_FFFF_FFFF * 0xFFFF_FFFF_FFFF_FFFFint)
        by (nonlinear_arith)
        requires
            a <= 0xFFFF_FFFF_FFFF_FFFFu64,
            b <= 0xFFFF_FFFF_FFFF_FFFFu64,
    ;
    let prod: u128 = (a as u128) * (b as u128);
    let hi = (prod >> 64u32) as u64;
    let lo = prod as u64;
    assert(hi == prod / 0x1_0000_0000_0000_0000u128) by (bit_vector)
        requires
            hi == (prod >> 64u32) as u64,
    ;
    assert(lo == prod % 0x1_0000_0000_0000_0000u128) by (bit_vector)
        requires
            lo == prod as u64,
    ;
    (hi, lo)
}

/// Philox4x64-10 on the counter `ctr` under the key `key`.
pub fn philox4x64_10(ctr: [u64; 4], key: [u64; 2]) -> (out: [u64; 4])
    ensures
        out@ == philox4x64_10_spec(ctr@, key@),
{
    let mut c = ctr;
    let mut k = key;
    let mut r: u64 = 0;
    while r < 10
        invariant
            r <= 10,
            c@ == philox_rounds(ctr@, key@[0], key@[1], r as nat),
            r > 0 ==> k[0] == round_key(key@[0], W0, (r - 1) as nat),
            r > 0 ==> k[1] == round_key(key@[1], W1, (r - 1) as nat),
            r == 0 ==> k@ == key@,
        decreases 10 - r,
    {
        if r > 0 {
            proof {
                lemma_round_key_step(key@[0], W0, (r - 1) as nat);
                lemma_round_key_step(key@[1], W1, (r - 1) as nat);
            }
            k[0] = k[0].wrapping_add(W0);
            k[1] = k[1].wrapping_add(W1);
        } else {
            proof {
                lemma_round_key_zero(key@[0], W0);
                lemma_round_key_zero(key@[1], W1);
            }
        }
        let (hi0, lo0) = mul_hi_lo(M0, c[0]);
        let (hi1, lo1) = mul_hi_lo(M1, c[2]);
        let next = [hi1 ^ c[1] ^ k[0], lo1, hi0 ^ c[3] ^ k[1], lo0];
        proof {
            assert(next@ =~= philox_round(c@, k[0], k[1]));
        }
        c = next;
        r = r + 1;
    }
    c
}

proof fn lemma_round_key_zero(k: u64, w: u64)
    ensures
        round_key(k, w, 0) == k,
{
    assert((k as int + 0 * w as int) % word_modulus() == k as int) by (nonlinear_arith);
}

proof fn lemma_round_key_step(k: u64, w: u64, r: nat)
    ensures
        (round_key(k, w, r) as int + w as int) % word_modulus() == round_key(k, w, r + 1) as int,
        vstd::wrapping::u64_specs::wrapping_add(round_key(k, w, r), w) == round_key(k, w, r + 1),
{
    let m = word_modulus();
    let a = k as int + r * w as int;
    vstd::arithmetic::div_mod::lemma_add_mod_noop(a, w as int, m);
    vstd::arithmetic::div_mod::lemma_mod_twice(w as int, m);
    assert(a + w as int == k as int + (r + 1) * w as int) by (nonlinear_arith)
        requires
            a == k as int + r * w as int,
    ;
    vstd::arithmetic::div_mod::lemma_small_mod(w as nat, m as nat);
    vstd::arithmetic::div_mod::lemma_mod_pos_bound(a, m);
    vstd::arithmetic::div_mod::lemma_mod_pos_bound(a + w as int, m);
}

/// The 32 bytes of one Philox4x64-10 block with key `(k0, k1)` and counter
/// `(idx, side, 0, 0)`, each output word little-endian.
pub fn philox_block32(k0: u64, k1: u64, idx: u64, side: u64) -> (bytes: [u8; 32])
    ensures
        bytes@ == block32_spec(philox4x64_10_spec(seq![idx, side, 0u64, 0u64], seq![k0, k1])),
{
    let out = philox4x64_10([idx, side, 0, 0], [k0, k1]);
    proof {
        assert([idx, side, 0u64, 0u64]@ =~= seq![idx, side, 0u64, 0u64]);
        assert([k0, k1]@ =~= seq![k0, k1]);
    }
    let mut bytes = [0u8; 32];
    let mut k: usize = 0;
    while k < 32
        invariant
            k <= 32,
            forall|m: int| 0 <= m < k ==> bytes@[m] == le_byte(out@[m / 8], m % 8),
        decreases 32 - k,
    {
        let w = out[k / 8];
        let j = (k % 8) as u64;
        bytes[k] = (w >> (8 * j)) as u8;
        k = k + 1;
    }
    proof {
        assert(bytes@ =~= block32_spec(out@));
    }
    bytes
}

} // verus!
