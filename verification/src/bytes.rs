//! Little-endian byte views of machine words.

use vstd::prelude::*;

verus! {

/// Byte `j` (0 = least significant) of the little-endian encoding of `w`.
pub open spec fn le_byte(w: u64, j: int) -> u8 {
    (w >> ((8 * j) as u64)) as u8
}

/// The eight bytes of `w`, least significant first (what `u64::to_le_bytes` gives).
pub open spec fn le_bytes(w: u64) -> Seq<u8> {
    Seq::new(8, |j: int| le_byte(w, j))
}

/// The number that eight bytes stand for, least significant first.
pub open spec fn le_value8(b: Seq<u8>) -> int {
    b[0] + 0x100 * b[1] + 0x1_0000 * b[2] + 0x100_0000 * b[3] + 0x1_0000_0000 * b[4]
        + 0x100_0000_0000 * b[5] + 0x1_0000_0000_0000 * b[6] + 0x100_0000_0000_0000 * b[7]
}

/// The little-endian bytes of a word stand for the word: byte `j` carries the
/// digit of weight 256^j.
pub proof fn lemma_le_bytes_value(w: u64)
    ensures
        le_bytes(w).len() == 8,
        le_value8(le_bytes(w)) == w as int,
{
    let b = le_bytes(w);
    let b0 = le_byte(w, 0);
    let b1 = le_byte(w, 1);
    let b2 = le_byte(w, 2);
    let b3 = le_byte(w, 3);
    let b4 = le_byte(w, 4);
    let b5 = le_byte(w, 5);
    let b6 = le_byte(w, 6);
    let b7 = le_byte(w, 7);
    assert(b[0] == b0 && b[1] == b1 && b[2] == b2 && b[3] == b3);
    assert(b[4] == b4 && b[5] == b5 && b[6] == b6 && b[7] == b7);
    assert(w as int == b0 + 0x100 * b1 + 0x1_0000 * b2 + 0x100_0000 * b3 + 0x1_0000_0000 * b4
        + 0x100_0000_0000 * b5 + 0x1_0000_0000_0000 * b6 + 0x100_0000_0000_0000 * b7)
        by (bit_vector)
        requires
            b0 == (w >> 0u64) as u8,
            b1 == (w >> 8u64) as u8,
            b2 == (w >> 16u64) as u8,
            b3 == (w >> 24u64) as u8,
            b4 == (w >> 32u64) as u8,
            b5 == (w >> 40u64) as u8,
            b6 == (w >> 48u64) as u8,
            b7 == (w >> 56u64) as u8,
    ;
}

/// Appends the little-endian bytes of `w` to `out`.
pub fn push_le_bytes(out: &mut Vec<u8>, w: u64)
    ensures
        final(out)@ == old(out)@ + le_bytes(w),
{
    let ghost start = out@;
    let mut j: u64 = 0;
    while j < 8
        invariant
            j <= 8,
            out@ == start + le_bytes(w).take(j as int),
        decreases 8 - j,
    {
        out.push((w >> (8 * j)) as u8);
        proof {
            assert(le_bytes(w).take(j as int + 1) =~= le_bytes(w).take(j as int).push(le_byte(w, j as int)));
        }
        j = j + 1;
    }
    proof {
        assert(le_bytes(w).take(8) =~= le_bytes(w));
    }
}

} // verus!
