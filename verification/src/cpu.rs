//! CPU and worker configuration for resource reservation.
//!
//! At least one logical core is kept for the web UI and container services,
//! so that the key search never starves the API, scheduler, database and logging.

use vstd::prelude::*;
use vstd::string::StringSliceAdditionalSpecFns;

use crate::text::{decimal, parse_usize, parse_usize_spec, push_decimal, push_str};

verus! {

/// `a.saturating_sub(b)` on natural numbers.
pub open spec fn saturating_sub(a: nat, b: nat) -> nat {
    if a >= b {
        (a - b) as nat
    } else {
        0
    }
}

/// CPU and worker configuration.
#[derive(Clone, Copy, Debug)]
pub struct CpuConfig {
    /// Total logical CPU cores detected on the system.
    pub total_logical_cores: usize,
    /// Cores reserved for web UI / container services (default 1).
    pub reserved_cores: usize,
    /// Optional override for max CPU worker threads.
    /// If None, uses total_logical_cores - reserved_cores.
    pub max_worker_threads: Option<usize>,
}

impl CpuConfig {
    /// The number of worker threads: the cores left after the reservation,
    /// capped by the override when there is one.
    pub open spec fn workers(self) -> nat {
        let free = saturating_sub(self.total_logical_cores as nat, self.reserved_cores as nat);
        match self.max_worker_threads {
            Some(max) => if (max as nat) < free { max as nat } else { free },
            None => free,
        }
    }

    /// The configuration for a machine with `total_logical_cores` cores, given
    /// the texts of the reservation and of the worker override where they are
    /// set (`RESERVED_CPU_CORES`, `MAX_CPU_WORKERS`).
    ///
    /// A reservation that is unset or not a number counts as 1. On a machine of
    /// two or more cores it is then lowered so that at least one core is left
    /// for workers; on a single core at most that one core is reserved, so the
    /// web UI keeps it and no worker runs. An override that is not a number
    /// counts as unset.
    pub fn from_detected(
        total_logical_cores: usize,
        reserved_text: Option<&str>,
        max_workers_text: Option<&str>,
    ) -> (c: Self)
        ensures
            c.total_logical_cores == total_logical_cores,
            ({
                let reserved: nat = match reserved_text {
                    Some(t) => match parse_usize_spec(t.spec_bytes()) {
                        Some(v) => v as nat,
                        None => 1,
                    },
                    None => 1,
                };
                let cap: nat = if total_logical_cores >= 2 { (total_logical_cores - 1) as nat } else { 1 };
                c.reserved_cores == if reserved < cap { reserved } else { cap }
            }),
            c.max_worker_threads == match max_workers_text {
                Some(t) => parse_usize_spec(t.spec_bytes()),
                None => None,
            },
    {
        let reserved: usize = match reserved_text {
            Some(t) => match parse_usize(t) {
                Some(v) => v,
                None => 1,
            },
            None => 1,
        };
        let cap: usize = if total_logical_cores >= 2 { total_logical_cores - 1 } else { 1 };
        let max_worker_threads = match max_workers_text {
            Some(t) => parse_usize(t),
            None => None,
        };
        CpuConfig {
            total_logical_cores,
            reserved_cores: if reserved < cap { reserved } else { cap },
            max_worker_threads,
        }
    }

    /// Number of CPU worker threads available for the key search.
    pub fn available_workers(&self) -> (n: usize)
        ensures
            n as nat == self.workers(),
    {
        let free = self.total_logical_cores.saturating_sub(self.reserved_cores);
        if let Some(max) = self.max_worker_threads {
            return if max < free { max } else { free };
        }
        free
    }

    /// Whether there are enough cores to run CPU workers at all.
    pub fn can_run_cpu_workers(&self) -> (b: bool)
        ensures
            b == (self.workers() > 0),
    {
        self.available_workers() > 0
    }

    /// Human-readable summary: `total=<t>, reserved=<r>, workers=<w>`.
    pub fn summary(&self) -> (s: String)
        ensures
            s@ == "total="@ + decimal(self.total_logical_cores as nat) + ", reserved="@ + decimal(
                self.reserved_cores as nat,
            ) + ", workers="@ + decimal(self.workers()),
    {
        let mut s = "total=".to_owned();
        push_decimal(&mut s, self.total_logical_cores as u64);
        push_str(&mut s, ", reserved=");
        push_decimal(&mut s, self.reserved_cores as u64);
        push_str(&mut s, ", workers=");
        push_decimal(&mut s, self.available_workers() as u64);
        s
    }
}

/// The workers never outnumber the cores, and when the reservation leaves a
/// core free and no override of zero is set, at least one worker runs.
pub proof fn lemma_workers_within_cores(c: CpuConfig)
    ensures
        c.workers() <= c.total_logical_cores,
        c.reserved_cores < c.total_logical_cores && c.max_worker_threads != Some(0usize) ==> c.workers()
            >= 1,
{
}

} // verus!
