//! Checkpoints: the full state of a search, so that it can be paused and
//! resumed deterministically.

use vstd::prelude::*;
use vstd::string::StringSliceAdditionalSpecFns;

use crate::clock::chrono_now;
use crate::deterministic::{candidate_seed, seed_length_message, DeterministicState};
use crate::encoding::{hex_error_of, hex_error_text, hex_decodable, hex_decoded, hex_upper, lemma_hex_roundtrip, text_bytes};
use crate::text::{copy_strings, decimal, push_str};

verus! {

/// A checkpoint captures the full state of a search.
#[derive(Clone, Debug)]
pub struct Checkpoint {
    pub version: u32,
    pub job_id: String,
    pub prefixes: Vec<String>,
    pub master_seed: String,
    pub worker_id: u64,
    pub workers: u64,
    pub next_counter: u64,
    pub attempts_done: u64,
    pub backend: String,
    pub device: String,
    pub cpu_reserved_cores: usize,
    pub cpu_worker_threads: usize,
    pub created_at: String,
    pub updated_at: String,
}

impl Checkpoint {
    /// Whether this checkpoint records `state`: its master seed as upper-case
    /// hexadecimal, its worker id, and its counter as the next counter.
    pub open spec fn records(self, state: DeterministicState) -> bool {
        &&& self.master_seed@ == hex_upper(state.master_seed@)
        &&& self.worker_id == state.worker_id
        &&& self.next_counter == state.counter
    }

    /// Whether the recorded master seed is hexadecimal text of 32 bytes.
    pub open spec fn restorable(self) -> bool {
        &&& hex_decodable(text_bytes(self.master_seed@))
        &&& hex_decoded(text_bytes(self.master_seed@)).len() == 32
    }

    /// The master seed that the recorded text stands for.
    pub open spec fn restored_seed(self) -> Seq<u8> {
        hex_decoded(text_bytes(self.master_seed@))
    }

    /// A version-1 checkpoint for one worker, recording `state` and the job's
    /// metadata, with both timestamps set to now.
    pub fn new(
        job_id: &str,
        prefixes: &[String],
        state: &DeterministicState,
        backend: &str,
        device: &str,
        cpu_worker_threads: usize,
        cpu_reserved_cores: usize,
    ) -> (c: Self)
        ensures
            c.records(*state),
            c.version == 1,
            c.job_id@ == job_id@,
            c.prefixes@ == prefixes@,
            c.workers == 1,
            c.attempts_done == state.counter,
            c.backend@ == backend@,
            c.device@ == device@,
            c.cpu_reserved_cores == cpu_reserved_cores,
            c.cpu_worker_threads == cpu_worker_threads,
            c.created_at == c.updated_at,
            exists|n: nat| c.created_at@ == decimal(n),
    {
        let now = chrono_now();
        Checkpoint {
            version: 1,
            job_id: job_id.to_owned(),
            prefixes: copy_strings(prefixes),
            master_seed: state.master_seed_hex(),
            worker_id: state.worker_id,
            workers: 1,
            next_counter: state.counter,
            attempts_done: state.counter,
            backend: backend.to_owned(),
            device: device.to_owned(),
            cpu_reserved_cores,
            cpu_worker_threads,
            created_at: now.clone(),
            updated_at: now,
        }
    }

    /// Records the counter of `state` as both the next counter and the number of
    /// attempts done, and sets the update time to now.
    pub fn update(&mut self, state: &DeterministicState)
        ensures
            final(self).next_counter == state.counter,
            final(self).attempts_done == state.counter,
            exists|n: nat| final(self).updated_at@ == decimal(n),
            final(self).version == old(self).version,
            final(self).job_id == old(self).job_id,
            final(self).prefixes == old(self).prefixes,
            final(self).master_seed == old(self).master_seed,
            final(self).worker_id == old(self).worker_id,
            final(self).workers == old(self).workers,
            final(self).backend == old(self).backend,
            final(self).device == old(self).device,
            final(self).cpu_reserved_cores == old(self).cpu_reserved_cores,
            final(self).cpu_worker_threads == old(self).cpu_worker_threads,
            final(self).created_at == old(self).created_at,
    {
        self.next_counter = state.counter;
        self.attempts_done = state.counter;
        self.updated_at = chrono_now();
    }

    /// The deterministic state that this checkpoint records: its master seed,
    /// worker id and next counter. Fails as `DeterministicState::from_hex_seed`
    /// does on the recorded master seed.
    pub fn to_deterministic_state(&self) -> (r: Result<DeterministicState, String>)
        ensures
            r is Ok <==> self.restorable(),
            r matches Ok(s) ==> s.master_seed@ == self.restored_seed() && s.worker_id
                == self.worker_id && s.counter == self.next_counter,
            r matches Err(msg) ==> if hex_decodable(text_bytes(self.master_seed@)) {
                msg@ == seed_length_message(self.restored_seed().len())
            } else {
                msg@ == "invalid hex seed: "@ + hex_error_text(hex_error_of(text_bytes(self.master_seed@)))
            },
    {
        let mut state = DeterministicState::from_hex_seed(self.master_seed.as_str())?;
        state.worker_id = self.worker_id;
        state.counter = self.next_counter;
        Ok(state)
    }

    /// The default checkpoint path for a job: `checkpoints/<job_id>.json`, the
    /// way `Path::join` on Unix puts `<job_id>.json` under `checkpoints`. A job id
    /// that begins with `/` makes an absolute path, which `join` takes in place
    /// of `checkpoints`: the path is then `<job_id>.json`.
    pub fn default_path(job_id: &str) -> (p: String)
        ensures
            p@ == if job_id.spec_bytes().len() > 0 && job_id.spec_bytes()[0] == 0x2Fu8 {
                job_id@ + ".json"@
            } else {
                "checkpoints/"@ + job_id@ + ".json"@
            },
    {
        let b = job_id.as_bytes();
        let mut p = if b.len() > 0 && b[0] == 0x2F {
            String::new()
        } else {
            "checkpoints/".to_owned()
        };
        push_str(&mut p, job_id);
        push_str(&mut p, ".json");
        p
    }
}

/// A checkpoint that records a state restores exactly that state: the same
/// master seed, worker id and counter, and so the same next candidate seed.
pub proof fn lemma_checkpoint_restores_state(state: DeterministicState, c: Checkpoint)
    requires
        c.records(state),
    ensures
        c.restorable(),
        c.restored_seed() == state.master_seed@,
        candidate_seed(c.restored_seed(), c.worker_id, c.next_counter) == candidate_seed(
            state.master_seed@,
            state.worker_id,
            state.counter,
        ),
{
    lemma_hex_roundtrip(state.master_seed@);
}

} // verus!
