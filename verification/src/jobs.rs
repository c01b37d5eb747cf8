//! The plain-valued fields of a queued job and the transitions that the job
//! API and the queue apply to them.

use vstd::prelude::*;

use crate::models::{opt_text, JobStatus, Settings};
use crate::text::{copy_strings, push_str};

verus! {

/// The fields of a job other than its id, its timestamps and its
/// floating-point statistics.
#[derive(Clone, Debug)]
pub struct JobFields {
    pub name: String,
    pub prefixes: Vec<String>,
    pub backend: String,
    pub device: String,
    pub status: JobStatus,
    pub priority: i32,
    pub master_seed: Option<String>,
    pub next_counter: Option<u64>,
    pub attempts_done: u64,
    pub cpu_reserved_cores: usize,
    pub cpu_worker_threads: usize,
    pub max_attempts: Option<u64>,
    pub max_runtime: Option<u64>,
    pub schedule_enabled: bool,
    pub schedule_start: Option<String>,
    pub schedule_end: Option<String>,
    pub notes: Option<String>,
}

/// A request to create a job.
#[derive(Clone, Debug)]
pub struct CreateJobRequest {
    pub name: Option<String>,
    pub prefixes: Vec<String>,
    pub backend: Option<String>,
    pub max_attempts: Option<u64>,
    pub max_runtime: Option<u64>,
    pub notes: Option<String>,
}

/// A request to change some fields of a job.
#[derive(Clone, Debug)]
pub struct UpdateJobRequest {
    pub name: Option<String>,
    pub priority: Option<i32>,
    pub status: Option<String>,
    pub max_attempts: Option<u64>,
    pub max_runtime: Option<u64>,
    pub notes: Option<String>,
    pub schedule_enabled: Option<bool>,
    pub schedule_start: Option<String>,
    pub schedule_end: Option<String>,
}

/// The status that an update asking for the status text `t` gives a job in `current`.
pub open spec fn updated_status(t: Seq<char>, current: JobStatus) -> JobStatus {
    match crate::models::status_named(t) {
        Some(s) => if s == JobStatus::Scheduled { current } else { s },
        None => current,
    }
}

/// Whether `j` has no search progress: no master seed, no counter, no attempts.
pub open spec fn progress_cleared(j: JobFields) -> bool {
    &&& j.master_seed is None
    &&& j.next_counter is None
    &&& j.attempts_done == 0
}

/// Whether `a` and `b` agree on every field but the status, the search
/// progress, the name and the notes.
pub open spec fn same_setup(a: JobFields, b: JobFields) -> bool {
    &&& a.prefixes@ == b.prefixes@
    &&& a.backend == b.backend
    &&& a.device == b.device
    &&& a.priority == b.priority
    &&& a.cpu_reserved_cores == b.cpu_reserved_cores
    &&& a.cpu_worker_threads == b.cpu_worker_threads
    &&& a.max_attempts == b.max_attempts
    &&& a.max_runtime == b.max_runtime
    &&& a.schedule_enabled == b.schedule_enabled
    &&& a.schedule_start == b.schedule_start
    &&& a.schedule_end == b.schedule_end
}

impl JobFields {
    /// A new queued job from a create request: unnamed when no name is given,
    /// on the default backend when none is given, with the reservation of the
    /// settings and no progress.
    pub fn from_request(req: CreateJobRequest, settings: &Settings) -> (j: JobFields)
        ensures
            j.name@ == match req.name {
                Some(n) => n@,
                None => Seq::<char>::empty(),
            },
            j.prefixes == req.prefixes,
            j.backend@ == match req.backend {
                Some(b) => b@,
                None => settings.default_backend@,
            },
            j.device@ == Seq::<char>::empty(),
            j.status == JobStatus::Queued,
            j.priority == 0,
            progress_cleared(j),
            j.cpu_reserved_cores == settings.reserved_cpu_cores,
            j.cpu_worker_threads == 0,
            j.max_attempts == req.max_attempts,
            j.max_runtime == req.max_runtime,
            !j.schedule_enabled,
            j.schedule_start is None,
            j.schedule_end is None,
            j.notes == req.notes,
    {
        JobFields {
            name: match req.name {
                Some(n) => n,
                None => String::new(),
            },
            prefixes: req.prefixes,
            backend: match req.backend {
                Some(b) => b,
                None => settings.default_backend.clone(),
            },
            device: String::new(),
            status: JobStatus::Queued,
            priority: 0,
            master_seed: None,
            next_counter: None,
            attempts_done: 0,
            cpu_reserved_cores: settings.reserved_cpu_cores,
            cpu_worker_threads: 0,
            max_attempts: req.max_attempts,
            max_runtime: req.max_runtime,
            schedule_enabled: false,
            schedule_start: None,
            schedule_end: None,
            notes: req.notes,
        }
    }

    /// Applies an update: each field that the request sets replaces the job's.
    /// A status is taken only when it names a status other than `scheduled`.
    pub fn apply_update(&mut self, req: UpdateJobRequest)
        ensures
            final(self).name == match req.name {
                Some(n) => n,
                None => old(self).name,
            },
            final(self).priority == match req.priority {
                Some(p) => p,
                None => old(self).priority,
            },
            final(self).status == match req.status {
                Some(t) => updated_status(t@, old(self).status),
                None => old(self).status,
            },
            final(self).max_attempts == match req.max_attempts {
                Some(m) => Some(m),
                None => old(self).max_attempts,
            },
            final(self).max_runtime == match req.max_runtime {
                Some(m) => Some(m),
                None => old(self).max_runtime,
            },
            final(self).notes == match req.notes {
                Some(n) => Some(n),
                None => old(self).notes,
            },
            final(self).schedule_enabled == match req.schedule_enabled {
                Some(e) => e,
                None => old(self).schedule_enabled,
            },
            final(self).schedule_start == match req.schedule_start {
                Some(s) => Some(s),
                None => old(self).schedule_start,
            },
            final(self).schedule_end == match req.schedule_end {
                Some(s) => Some(s),
                None => old(self).schedule_end,
            },
            final(self).prefixes == old(self).prefixes,
            final(self).backend == old(self).backend,
            final(self).device == old(self).device,
            final(self).master_seed == old(self).master_seed,
            final(self).next_counter == old(self).next_counter,
            final(self).attempts_done == old(self).attempts_done,
            final(self).cpu_reserved_cores == old(self).cpu_reserved_cores,
            final(self).cpu_worker_threads == old(self).cpu_worker_threads,
    {
        if let Some(name) = req.name {
            self.name = name;
        }
        if let Some(priority) = req.priority {
            self.priority = priority;
        }
        if let Some(status) = req.status {
            self.status = JobStatus::from_update(status.as_str(), self.status);
        }
        if let Some(ma) = req.max_attempts {
            self.max_attempts = Some(ma);
        }
        if let Some(mr) = req.max_runtime {
            self.max_runtime = Some(mr);
        }
        if let Some(notes) = req.notes {
            self.notes = Some(notes);
        }
        if let Some(enabled) = req.schedule_enabled {
            self.schedule_enabled = enabled;
        }
        if req.schedule_start.is_some() {
            self.schedule_start = req.schedule_start;
        }
        if req.schedule_end.is_some() {
            self.schedule_end = req.schedule_end;
        }
    }

    /// Sets the status, leaving every other field as it is.
    pub fn set_status(&mut self, status: JobStatus)
        ensures
            final(self).status == status,
            final(self).name == old(self).name,
            final(self).notes == old(self).notes,
            same_setup(*final(self), *old(self)),
            final(self).master_seed == old(self).master_seed,
            final(self).next_counter == old(self).next_counter,
            final(self).attempts_done == old(self).attempts_done,
    {
        self.status = status;
    }

    /// Requeues the job from scratch: refused (`false`, job unchanged) while it
    /// runs; otherwise its progress is cleared, so that it runs with a new
    /// master seed.
    pub fn restart(&mut self) -> (ok: bool)
        ensures
            ok == (old(self).status != JobStatus::Running),
            ok ==> final(self).status == JobStatus::Queued && progress_cleared(*final(self))
                && final(self).name == old(self).name && final(self).notes == old(self).notes
                && same_setup(*final(self), *old(self)),
            !ok ==> *final(self) == *old(self),
    {
        if self.status == JobStatus::Running {
            return false;
        }
        self.master_seed = None;
        self.next_counter = None;
        self.attempts_done = 0;
        self.status = JobStatus::Queued;
        true
    }

    /// A queued copy of the job named `<name> (copy)`, with no progress, so that
    /// it runs with a new master seed.
    pub fn duplicate(&self) -> (d: JobFields)
        ensures
            d.name@ == self.name@ + " (copy)"@,
            d.status == JobStatus::Queued,
            progress_cleared(d),
            same_setup(d, *self),
            d.notes == self.notes,
    {
        let mut name = self.name.clone();
        push_str(&mut name, " (copy)");
        JobFields {
            name,
            prefixes: copy_strings(self.prefixes.as_slice()),
            backend: self.backend.clone(),
            device: self.device.clone(),
            status: JobStatus::Queued,
            priority: self.priority,
            master_seed: None,
            next_counter: None,
            attempts_done: 0,
            cpu_reserved_cores: self.cpu_reserved_cores,
            cpu_worker_threads: self.cpu_worker_threads,
            max_attempts: self.max_attempts,
            max_runtime: self.max_runtime,
            schedule_enabled: self.schedule_enabled,
            schedule_start: clone_opt(&self.schedule_start),
            schedule_end: clone_opt(&self.schedule_end),
            notes: clone_opt(&self.notes),
        }
    }

    /// Marks the job failed with `message` as its notes.
    pub fn fail(&mut self, message: &str)
        ensures
            final(self).status == JobStatus::Failed,
            opt_text(final(self).notes) == Some(message@),
            final(self).name == old(self).name,
            same_setup(*final(self), *old(self)),
            final(self).master_seed == old(self).master_seed,
            final(self).next_counter == old(self).next_counter,
            final(self).attempts_done == old(self).attempts_done,
    {
        self.status = JobStatus::Failed;
        self.notes = Some(message.to_owned());
    }

    /// After a server restart, a job left running or paused is stopped with a
    /// note; returns whether the job changed.
    pub fn interrupt_on_startup(&mut self) -> (changed: bool)
        ensures
            changed == (old(self).status == JobStatus::Running || old(self).status
                == JobStatus::Paused),
            changed ==> final(self).status == JobStatus::Stopped && opt_text(final(self).notes)
                == Some("Server restarted — job interrupted"@) && final(self).name == old(self).name
                && same_setup(*final(self), *old(self)) && final(self).master_seed == old(
                self,
            ).master_seed && final(self).next_counter == old(self).next_counter
                && final(self).attempts_done == old(self).attempts_done,
            !changed ==> *final(self) == *old(self),
    {
        if self.status == JobStatus::Running || self.status == JobStatus::Paused {
            self.status = JobStatus::Stopped;
            self.notes = Some("Server restarted — job interrupted".to_owned());
            true
        } else {
            false
        }
    }
}

fn clone_opt(s: &Option<String>) -> (r: Option<String>)
    ensures
        r == *s,
{
    match s {
        Some(t) => Some(t.clone()),
        None => None,
    }
}

} // verus!
