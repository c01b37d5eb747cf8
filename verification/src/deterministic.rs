//! Deterministic candidate seeds: `SHA-256(master_seed || worker_id || counter)`.
//!
//! The same master seed, worker id and counter always give the same candidate
//! seed, so a search can be paused and resumed without repeating work.

use vstd::prelude::*;
use vstd::string::StringSliceAdditionalSpecFns;
use sha2::Digest;

use crate::bytes::{le_bytes, le_value8, lemma_le_bytes_value, push_le_bytes};
use crate::entropy::os_random_bytes;
use crate::encoding::{hex_decodable, hex_decoded, hex_error_of, hex_error_text, hex_upper};
use crate::text::{decimal, push_decimal, push_str};

verus! {

/// The SHA-256 digest of `data`.
pub uninterp spec fn sha256_digest(data: Seq<u8>) -> Seq<u8>;

/// `sha2::Sha256::digest`: the 32-byte SHA-256 digest of `data`.
#[verifier::external_body]
fn sha256(data: &[u8]) -> (d: [u8; 32])
    ensures
        d@ == sha256_digest(data@),
{
    let out = sha2::Sha256::digest(data);
    let mut d = [0u8; 32];
    d.copy_from_slice(&out);
    d
}


/// The hashed message: `master_seed || worker_id (LE) || counter (LE)`.
pub open spec fn seed_message(master_seed: Seq<u8>, worker_id: u64, counter: u64) -> Seq<u8> {
    master_seed + le_bytes(worker_id) + le_bytes(counter)
}

/// The hashed message is laid out as the 32 master-seed bytes in order, then
/// the worker id and then the counter, each as eight bytes least significant first.
pub proof fn lemma_seed_message_layout(master_seed: Seq<u8>, worker_id: u64, counter: u64)
    requires
        master_seed.len() == 32,
    ensures
        seed_message(master_seed, worker_id, counter).len() == 48,
        seed_message(master_seed, worker_id, counter).subrange(0, 32) == master_seed,
        le_value8(seed_message(master_seed, worker_id, counter).subrange(32, 40)) == worker_id as int,
        le_value8(seed_message(master_seed, worker_id, counter).subrange(40, 48)) == counter as int,
{
    let msg = seed_message(master_seed, worker_id, counter);
    lemma_le_bytes_value(worker_id);
    lemma_le_bytes_value(counter);
    assert(msg.subrange(0, 32) =~= master_seed);
    assert(msg.subrange(32, 40) =~= le_bytes(worker_id));
    assert(msg.subrange(40, 48) =~= le_bytes(counter));
}

/// Distinct (master seed, worker id, counter) triples give distinct hashed
/// messages: every master-seed byte, the worker id and the counter all reach
/// the hash.
pub proof fn lemma_seed_message_injective(
    m1: Seq<u8>,
    w1: u64,
    c1: u64,
    m2: Seq<u8>,
    w2: u64,
    c2: u64,
)
    requires
        m1.len() == 32,
        m2.len() == 32,
        seed_message(m1, w1, c1) == seed_message(m2, w2, c2),
    ensures
        m1 == m2,
        w1 == w2,
        c1 == c2,
{
    lemma_seed_message_layout(m1, w1, c1);
    lemma_seed_message_layout(m2, w2, c2);
}

/// The candidate seed for `(master_seed, worker_id, counter)`.
pub open spec fn candidate_seed(master_seed: Seq<u8>, worker_id: u64, counter: u64) -> Seq<u8> {
    sha256_digest(seed_message(master_seed, worker_id, counter))
}

/// The counter `k` steps after `c`, modulo 2^64.
pub open spec fn counter_after(c: u64, k: int) -> u64 {
    ((c as int + k) % 0x1_0000_0000_0000_0000int) as u64
}

/// The message of `from_hex_seed` for a seed of `n` bytes.
pub open spec fn seed_length_message(n: nat) -> Seq<char> {
    "master seed must be 32 bytes (64 hex chars), got "@ + decimal(n) + " bytes"@
}

/// State for deterministic vanity key search.
#[derive(Clone, Copy, Debug)]
pub struct DeterministicState {
    /// 32-byte master seed, randomly generated once at job creation.
    pub master_seed: [u8; 32],
    /// Worker ID for multi-worker setups (avoids overlap).
    pub worker_id: u64,
    /// Monotonically increasing counter.
    pub counter: u64,
}

/// The candidate seed for `master_seed`, `worker_id` and `counter`.
fn derive_seed(master_seed: &[u8; 32], worker_id: u64, counter: u64) -> (seed: [u8; 32])
    ensures
        seed@ == candidate_seed(master_seed@, worker_id, counter),
{
    let mut msg: Vec<u8> = Vec::new();
    let mut i: usize = 0;
    while i < 32
        invariant
            i <= 32,
            msg@ == master_seed@.take(i as int),
        decreases 32 - i,
    {
        msg.push(master_seed[i]);
        proof {
            assert(master_seed@.take(i as int + 1) =~= master_seed@.take(i as int).push(master_seed@[i as int]));
        }
        i = i + 1;
    }
    assert(master_seed@.take(32) =~= master_seed@);
    push_le_bytes(&mut msg, worker_id);
    push_le_bytes(&mut msg, counter);
    sha256(msg.as_slice())
}

impl DeterministicState {
    /// A state with the master seed `master_seed`, worker 0 and counter 0.
    pub fn from_seed(master_seed: [u8; 32]) -> (s: Self)
        ensures
            s.master_seed == master_seed,
            s.worker_id == 0,
            s.counter == 0,
    {
        DeterministicState { master_seed, worker_id: 0, counter: 0 }
    }

    /// A state with a fresh master seed of 32 bytes from the operating system's
    /// random source, worker 0 and counter 0; `None` when the source reports an
    /// error.
    pub fn new() -> (r: Option<Self>)
        ensures
            r matches Some(s) ==> s.worker_id == 0 && s.counter == 0,
    {
        let bytes = match os_random_bytes(32) {
            Some(v) => v,
            None => return None,
        };
        let mut master_seed = [0u8; 32];
        let mut i: usize = 0;
        while i < 32
            invariant
                i <= 32,
                bytes@.len() == 32,
            decreases 32 - i,
        {
            master_seed[i] = bytes[i];
            i = i + 1;
        }
        Some(DeterministicState::from_seed(master_seed))
    }

    /// A state (worker 0, counter 0) whose master seed is given as hexadecimal text.
    ///
    /// Fails when the text is not an even number of hexadecimal digits
    /// (`invalid hex seed: ...`) or does not stand for exactly 32 bytes.
    pub fn from_hex_seed(hex: &str) -> (r: Result<Self, String>)
        ensures
            r is Ok <==> hex_decodable(hex.spec_bytes()) && hex_decoded(hex.spec_bytes()).len() == 32,
            r matches Ok(s) ==> s.master_seed@ == hex_decoded(hex.spec_bytes()) && s.worker_id == 0
                && s.counter == 0,
            r matches Err(msg) ==> if hex_decodable(hex.spec_bytes()) {
                msg@ == seed_length_message(hex_decoded(hex.spec_bytes()).len())
            } else {
                msg@ == "invalid hex seed: "@ + hex_error_text(hex_error_of(hex.spec_bytes()))
            },
    {
        let bytes = match crate::encoding::decode(hex) {
            Ok(b) => b,
            Err(e) => {
                let mut msg = "invalid hex seed: ".to_owned();
                let detail = e.message();
                push_str(&mut msg, detail.as_str());
                return Err(msg);
            },
        };
        if bytes.len() != 32 {
            let mut msg = "master seed must be 32 bytes (64 hex chars), got ".to_owned();
            push_decimal(&mut msg, bytes.len() as u64);
            push_str(&mut msg, " bytes");
            return Err(msg);
        }
        let mut master_seed = [0u8; 32];
        let mut i: usize = 0;
        while i < 32
            invariant
                i <= 32,
                bytes@.len() == 32,
                forall|j: int| 0 <= j < i ==> master_seed@[j] == bytes@[j],
            decreases 32 - i,
        {
            master_seed[i] = bytes[i];
            i = i + 1;
        }
        assert(master_seed@ =~= bytes@);
        Ok(DeterministicState { master_seed, worker_id: 0, counter: 0 })
    }

    /// The master seed as upper-case hexadecimal text (64 digits).
    pub fn master_seed_hex(&self) -> (s: String)
        ensures
            s@ == hex_upper(self.master_seed@),
    {
        crate::encoding::encode_upper(self.master_seed.as_slice())
    }

    /// The candidate seed at the current counter; the counter then advances by one
    /// (wrapping at 2^64).
    pub fn next_seed(&mut self) -> (seed: [u8; 32])
        ensures
            seed@ == candidate_seed(old(self).master_seed@, old(self).worker_id, old(self).counter),
            final(self).master_seed == old(self).master_seed,
            final(self).worker_id == old(self).worker_id,
            final(self).counter == counter_after(old(self).counter, 1),
    {
        let seed = derive_seed(&self.master_seed, self.worker_id, self.counter);
        self.counter = self.counter.wrapping_add(1);
        seed
    }

    /// The candidate seed at the current counter, leaving the counter as it is.
    pub fn peek_seed(&self) -> (seed: [u8; 32])
        ensures
            seed@ == candidate_seed(self.master_seed@, self.worker_id, self.counter),
    {
        derive_seed(&self.master_seed, self.worker_id, self.counter)
    }

    /// Sets the counter, to resume from a given point.
    pub fn set_counter(&mut self, counter: u64)
        ensures
            final(self).master_seed == old(self).master_seed,
            final(self).worker_id == old(self).worker_id,
            final(self).counter == counter,
    {
        self.counter = counter;
    }

    /// The next `N` candidate seeds, in counter order; the counter advances by `N`
    /// (wrapping at 2^64).
    pub fn next_seeds<const N: usize>(&mut self) -> (seeds: [[u8; 32]; N])
        ensures
            forall|i: int|
                0 <= i < N ==> (#[trigger] seeds@[i])@ == candidate_seed(
                    old(self).master_seed@,
                    old(self).worker_id,
                    counter_after(old(self).counter, i),
                ),
            final(self).master_seed == old(self).master_seed,
            final(self).worker_id == old(self).worker_id,
            final(self).counter == counter_after(old(self).counter, N as int),
    {
        let mut seeds = [[0u8; 32]; N];
        let mut i: usize = 0;
        while i < N
            invariant
                i <= N,
                seeds@.len() == N,
                self.master_seed == old(self).master_seed,
                self.worker_id == old(self).worker_id,
                self.counter == counter_after(old(self).counter, i as int),
                forall|j: int|
                    0 <= j < i ==> (#[trigger] seeds@[j])@ == candidate_seed(
                        old(self).master_seed@,
                        old(self).worker_id,
                        counter_after(old(self).counter, j),
                    ),
            decreases N - i,
        {
            seeds[i] = derive_seed(&self.master_seed, self.worker_id, self.counter);
            proof {
                lemma_counter_after_step(old(self).counter, i as int);
            }
            self.counter = self.counter.wrapping_add(1);
            i = i + 1;
        }
        seeds
    }
}

/// The same master seed, worker id and counter always give the same candidate
/// seed, whichever state they are read from.
pub proof fn lemma_same_state_same_seed(a: DeterministicState, b: DeterministicState)
    requires
        a.master_seed == b.master_seed,
        a.worker_id == b.worker_id,
        a.counter == b.counter,
    ensures
        candidate_seed(a.master_seed@, a.worker_id, a.counter) == candidate_seed(
            b.master_seed@,
            b.worker_id,
            b.counter,
        ),
{
}

proof fn lemma_mod_below_twice(x: int, m: int)
    requires
        0 < m,
        0 <= x < 2 * m,
    ensures
        x % m == if x < m { x } else { x - m },
{
    if x < m {
        vstd::arithmetic::div_mod::lemma_small_mod(x as nat, m as nat);
    } else {
        vstd::arithmetic::div_mod::lemma_mod_sub_multiples_vanish(x, m);
        vstd::arithmetic::div_mod::lemma_small_mod((x - m) as nat, m as nat);
    }
}

/// Within one cycle of 2^64 steps, the counters that successive seeds are
/// derived from are pairwise distinct: a run never derives a seed twice from
/// the same counter.
pub proof fn lemma_counters_distinct(c: u64, i: int, j: int)
    requires
        0 <= i < j < 0x1_0000_0000_0000_0000int,
    ensures
        counter_after(c, i) != counter_after(c, j),
{
    let m = 0x1_0000_0000_0000_0000int;
    lemma_mod_below_twice(c as int + i, m);
    lemma_mod_below_twice(c as int + j, m);
}

proof fn lemma_counter_after_step(c: u64, k: int)
    requires
        0 <= k,
    ensures
        vstd::wrapping::u64_specs::wrapping_add(counter_after(c, k), 1) == counter_after(c, k + 1),
{
    let m = 0x1_0000_0000_0000_0000int;
    vstd::arithmetic::div_mod::lemma_add_mod_noop(c as int + k, 1, m);
    vstd::arithmetic::div_mod::lemma_mod_pos_bound(c as int + k, m);
    vstd::arithmetic::div_mod::lemma_mod_pos_bound(c as int + k + 1, m);
    vstd::arithmetic::div_mod::lemma_small_mod(1, m as nat);
    if (c as int + k) % m + 1 < m {
        vstd::arithmetic::div_mod::lemma_small_mod(((c as int + k) % m + 1) as nat, m as nat);
    } else {
        vstd::arithmetic::div_mod::lemma_mod_self_0(m);
    }
}

} // verus!
