//! Job, settings and request records of the job queue and its web API.
//!
//! Floating-point statistics (keys per second, elapsed seconds) are kept by the
//! server around these records.

use vstd::prelude::*;

use crate::encoding::text_bytes;
use crate::text::{parse_bool, parse_bool_spec, parse_u64, parse_u64_spec, parse_usize, parse_usize_spec, str_eq};

verus! {

/// State of a job in the queue.
#[derive(Clone, Copy, Debug, PartialEq, Eq, Structural)]
pub enum JobStatus {
    Queued,
    Running,
    Paused,
    Completed,
    Failed,
    Stopped,
    Scheduled,
}

/// The lower-case name of a status, as stored and served.
pub open spec fn status_name(s: JobStatus) -> Seq<char> {
    match s {
        JobStatus::Queued => "queued"@,
        JobStatus::Running => "running"@,
        JobStatus::Paused => "paused"@,
        JobStatus::Completed => "completed"@,
        JobStatus::Failed => "failed"@,
        JobStatus::Stopped => "stopped"@,
        JobStatus::Scheduled => "scheduled"@,
    }
}

/// The status whose name is `t`, if any.
pub open spec fn status_named(t: Seq<char>) -> Option<JobStatus> {
    if t == "queued"@ {
        Some(JobStatus::Queued)
    } else if t == "running"@ {
        Some(JobStatus::Running)
    } else if t == "paused"@ {
        Some(JobStatus::Paused)
    } else if t == "completed"@ {
        Some(JobStatus::Completed)
    } else if t == "failed"@ {
        Some(JobStatus::Failed)
    } else if t == "stopped"@ {
        Some(JobStatus::Stopped)
    } else if t == "scheduled"@ {
        Some(JobStatus::Scheduled)
    } else {
        None
    }
}

impl JobStatus {
    /// The lower-case name of this status.
    pub fn as_str(&self) -> (r: &'static str)
        ensures
            r@ == status_name(*self),
    {
        match self {
            JobStatus::Queued => "queued",
            JobStatus::Running => "running",
            JobStatus::Paused => "paused",
            JobStatus::Completed => "completed",
            JobStatus::Failed => "failed",
            JobStatus::Stopped => "stopped",
            JobStatus::Scheduled => "scheduled",
        }
    }

    /// The status named `t`, if any.
    pub fn parse(t: &str) -> (r: Option<JobStatus>)
        ensures
            r == status_named(t@),
    {
        if str_eq(t, "queued") {
            Some(JobStatus::Queued)
        } else if str_eq(t, "running") {
            Some(JobStatus::Running)
        } else if str_eq(t, "paused") {
            Some(JobStatus::Paused)
        } else if str_eq(t, "completed") {
            Some(JobStatus::Completed)
        } else if str_eq(t, "failed") {
            Some(JobStatus::Failed)
        } else if str_eq(t, "stopped") {
            Some(JobStatus::Stopped)
        } else if str_eq(t, "scheduled") {
            Some(JobStatus::Scheduled)
        } else {
            None
        }
    }

    /// The status of a stored job row: an unknown name reads as `Queued`.
    pub fn from_stored(t: &str) -> (r: JobStatus)
        ensures
            r == match status_named(t@) {
                Some(s) => s,
                None => JobStatus::Queued,
            },
    {
        match JobStatus::parse(t) {
            Some(s) => s,
            None => JobStatus::Queued,
        }
    }

    /// The status that a job update asking for `t` leaves on a job now in
    /// `current`: any named status but `scheduled`, else `current` unchanged.
    pub fn from_update(t: &str, current: JobStatus) -> (r: JobStatus)
        ensures
            r == match status_named(t@) {
                Some(s) => if s == JobStatus::Scheduled { current } else { s },
                None => current,
            },
    {
        match JobStatus::parse(t) {
            Some(JobStatus::Scheduled) => current,
            Some(s) => s,
            None => current,
        }
    }
}

/// Every status is read back from its name.
pub proof fn lemma_status_name_roundtrip(s: JobStatus)
    ensures
        status_named(status_name(s)) == Some(s),
{
    reveal_strlit("queued");
    reveal_strlit("running");
    reveal_strlit("paused");
    reveal_strlit("completed");
    reveal_strlit("failed");
    reveal_strlit("stopped");
    reveal_strlit("scheduled");
    match s {
        JobStatus::Queued => {},
        JobStatus::Running => {
            assert("running"@[0] != "queued"@[0]);
        },
        JobStatus::Paused => {
            assert("paused"@[0] != "queued"@[0]);
            assert("paused"@[0] != "running"@[0]);
        },
        JobStatus::Completed => {
            assert("completed"@[0] != "queued"@[0]);
            assert("completed"@[0] != "running"@[0]);
            assert("completed"@[0] != "paused"@[0]);
        },
        JobStatus::Failed => {
            assert("failed"@[0] != "queued"@[0]);
            assert("failed"@[0] != "running"@[0]);
            assert("failed"@[0] != "paused"@[0]);
            assert("failed"@[0] != "completed"@[0]);
        },
        JobStatus::Stopped => {
            assert("stopped"@[0] != "queued"@[0]);
            assert("stopped"@[0] != "running"@[0]);
            assert("stopped"@[0] != "paused"@[0]);
            assert("stopped"@[0] != "completed"@[0]);
            assert("stopped"@[0] != "failed"@[0]);
        },
        JobStatus::Scheduled => {
            assert("scheduled"@[0] != "queued"@[0]);
            assert("scheduled"@[0] != "running"@[0]);
            assert("scheduled"@[0] != "paused"@[0]);
            assert("scheduled"@[0] != "completed"@[0]);
            assert("scheduled"@[0] != "failed"@[0]);
            assert("scheduled"@.len() != "stopped"@.len());
        },
    }
}

/// Application settings.
#[derive(Clone, Debug)]
pub struct Settings {
    pub reserved_cpu_cores: usize,
    pub max_worker_threads: Option<usize>,
    pub checkpoint_interval_secs: u64,
    pub default_backend: String,
    pub default_benchmark_id: Option<String>,
    pub timezone: String,
    pub hide_secrets: bool,
    pub max_log_lines: usize,
    pub bind_address: String,
    pub password_hash: Option<String>,
    pub schedule_enabled: bool,
    pub schedule_start: String,
    pub schedule_end: String,
}

/// Whether `s` holds the default settings.
pub open spec fn is_default_settings(s: Settings) -> bool {
    &&& s.reserved_cpu_cores == 1
    &&& s.max_worker_threads is None
    &&& s.checkpoint_interval_secs == 10
    &&& s.default_backend@ == "cpu"@
    &&& s.default_benchmark_id is None
    &&& s.timezone@ == "UTC"@
    &&& s.hide_secrets
    &&& s.max_log_lines == 10000
    &&& s.bind_address@ == "0.0.0.0:8080"@
    &&& s.password_hash is None
    &&& !s.schedule_enabled
    &&& s.schedule_start@ == "23:00"@
    &&& s.schedule_end@ == "07:00"@
}

impl Default for Settings {
    fn default() -> (s: Self)
        ensures
            is_default_settings(s),
    {
        Settings {
            reserved_cpu_cores: 1,
            max_worker_threads: None,
            checkpoint_interval_secs: 10,
            default_backend: "cpu".to_owned(),
            default_benchmark_id: None,
            timezone: "UTC".to_owned(),
            hide_secrets: true,
            max_log_lines: 10000,
            bind_address: "0.0.0.0:8080".to_owned(),
            password_hash: None,
            schedule_enabled: false,
            schedule_start: "23:00".to_owned(),
            schedule_end: "07:00".to_owned(),
        }
    }
}

/// The stored text of each setting, `None` where the key is absent.
#[derive(Clone, Debug)]
pub struct StoredSettings {
    pub reserved_cpu_cores: Option<String>,
    pub max_worker_threads: Option<String>,
    pub checkpoint_interval_secs: Option<String>,
    pub default_backend: Option<String>,
    pub default_benchmark_id: Option<String>,
    pub timezone: Option<String>,
    pub hide_secrets: Option<String>,
    pub max_log_lines: Option<String>,
    pub bind_address: Option<String>,
    pub password_hash: Option<String>,
    pub schedule_enabled: Option<String>,
    pub schedule_start: Option<String>,
    pub schedule_end: Option<String>,
}

/// A stored `usize` setting: its parsed value, or `d` when absent or not a number.
pub open spec fn stored_usize(t: Option<String>, d: usize) -> usize {
    match t {
        Some(t) => match parse_usize_spec(text_bytes(t@)) {
            Some(v) => v,
            None => d,
        },
        None => d,
    }
}

/// A stored optional `usize` setting: its parsed value, if any.
pub open spec fn stored_opt_usize(t: Option<String>) -> Option<usize> {
    match t {
        Some(t) => parse_usize_spec(text_bytes(t@)),
        None => None,
    }
}

/// A stored `u64` setting: its parsed value, or `d` when absent or not a number.
pub open spec fn stored_u64(t: Option<String>, d: u64) -> u64 {
    match t {
        Some(t) => match parse_u64_spec(text_bytes(t@)) {
            Some(v) => v,
            None => d,
        },
        None => d,
    }
}

/// A stored `bool` setting: its parsed value, or `d` when absent or not a boolean.
pub open spec fn stored_bool(t: Option<String>, d: bool) -> bool {
    match t {
        Some(t) => match parse_bool_spec(text_bytes(t@)) {
            Some(v) => v,
            None => d,
        },
        None => d,
    }
}

/// A stored boolean setting reads back as what it says, whatever the default:
/// the text `true` reads as true and `false` as false. Only a setting that is
/// absent or reads as neither falls back to the default.
pub proof fn lemma_stored_bool_reads_back(t: String, d: bool)
    ensures
        t@ == "true"@ ==> stored_bool(Some(t), d),
        t@ == "false"@ ==> !stored_bool(Some(t), d),
        t@ != "true"@ && t@ != "false"@ ==> stored_bool(Some(t), d) == d,
        stored_bool(None, d) == d,
{
    reveal_strlit("true");
    reveal_strlit("false");
    vstd::utf8::encode_utf8_decode_utf8(t@);
    if t@ == "true"@ {
        vstd::utf8::is_ascii_chars_encode_utf8(t@);
        assert(text_bytes(t@) =~= seq![0x74u8, 0x72u8, 0x75u8, 0x65u8]);
    } else if t@ == "false"@ {
        vstd::utf8::is_ascii_chars_encode_utf8(t@);
        assert(text_bytes(t@) =~= seq![0x66u8, 0x61u8, 0x6Cu8, 0x73u8, 0x65u8]);
    } else {
        let tt: Seq<char> = seq!['t', 'r', 'u', 'e'];
        let ff: Seq<char> = seq!['f', 'a', 'l', 's', 'e'];
        vstd::utf8::is_ascii_chars_encode_utf8(tt);
        vstd::utf8::is_ascii_chars_encode_utf8(ff);
        vstd::utf8::encode_utf8_decode_utf8(tt);
        vstd::utf8::encode_utf8_decode_utf8(ff);
        assert(text_bytes(tt) =~= seq![0x74u8, 0x72u8, 0x75u8, 0x65u8]);
        assert(text_bytes(ff) =~= seq![0x66u8, 0x61u8, 0x6Cu8, 0x73u8, 0x65u8]);
        assert(tt =~= "true"@);
        assert(ff =~= "false"@);
    }
}

/// A stored text setting, or `d` when absent.
pub open spec fn stored_text(t: Option<String>, d: Seq<char>) -> Seq<char> {
    match t {
        Some(t) => t@,
        None => d,
    }
}

/// A stored optional text setting.
pub open spec fn stored_opt_text(t: Option<String>) -> Option<Seq<char>> {
    match t {
        Some(t) => Some(t@),
        None => None,
    }
}

/// The text of an optional string.
pub open spec fn opt_text(t: Option<String>) -> Option<Seq<char>> {
    stored_opt_text(t)
}

fn usize_setting(t: &Option<String>, d: usize) -> (v: usize)
    ensures
        v == stored_usize(*t, d),
{
    match t {
        Some(t) => match parse_usize(t.as_str()) {
            Some(v) => v,
            None => d,
        },
        None => d,
    }
}

fn opt_usize_setting(t: &Option<String>) -> (v: Option<usize>)
    ensures
        v == stored_opt_usize(*t),
{
    match t {
        Some(t) => parse_usize(t.as_str()),
        None => None,
    }
}

fn u64_setting(t: &Option<String>, d: u64) -> (v: u64)
    ensures
        v == stored_u64(*t, d),
{
    match t {
        Some(t) => match parse_u64(t.as_str()) {
            Some(v) => v,
            None => d,
        },
        None => d,
    }
}

fn bool_setting(t: &Option<String>, d: bool) -> (v: bool)
    ensures
        v == stored_bool(*t, d),
{
    match t {
        Some(t) => match parse_bool(t.as_str()) {
            Some(v) => v,
            None => d,
        },
        None => d,
    }
}

fn text_setting(t: &Option<String>, d: &str) -> (v: String)
    ensures
        v@ == stored_text(*t, d@),
{
    match t {
        Some(t) => t.clone(),
        None => d.to_owned(),
    }
}

fn opt_text_setting(t: &Option<String>) -> (v: Option<String>)
    ensures
        opt_text(v) == stored_opt_text(*t),
{
    match t {
        Some(t) => Some(t.clone()),
        None => None,
    }
}

impl Settings {
    /// The settings that the stored texts give, each absent or unreadable
    /// value replaced by its default.
    pub fn from_stored(st: &StoredSettings) -> (s: Settings)
        ensures
            s.reserved_cpu_cores == stored_usize(st.reserved_cpu_cores, 1),
            s.max_worker_threads == stored_opt_usize(st.max_worker_threads),
            s.checkpoint_interval_secs == stored_u64(st.checkpoint_interval_secs, 10),
            s.default_backend@ == stored_text(st.default_backend, "cpu"@),
            opt_text(s.default_benchmark_id) == stored_opt_text(st.default_benchmark_id),
            s.timezone@ == stored_text(st.timezone, "UTC"@),
            s.hide_secrets == stored_bool(st.hide_secrets, true),
            s.max_log_lines == stored_usize(st.max_log_lines, 10000),
            s.bind_address@ == stored_text(st.bind_address, "0.0.0.0:8080"@),
            opt_text(s.password_hash) == stored_opt_text(st.password_hash),
            s.schedule_enabled == stored_bool(st.schedule_enabled, false),
            s.schedule_start@ == stored_text(st.schedule_start, "23:00"@),
            s.schedule_end@ == stored_text(st.schedule_end, "07:00"@),
    {
        Settings {
            reserved_cpu_cores: usize_setting(&st.reserved_cpu_cores, 1),
            max_worker_threads: opt_usize_setting(&st.max_worker_threads),
            checkpoint_interval_secs: u64_setting(&st.checkpoint_interval_secs, 10),
            default_backend: text_setting(&st.default_backend, "cpu"),
            default_benchmark_id: opt_text_setting(&st.default_benchmark_id),
            timezone: text_setting(&st.timezone, "UTC"),
            hide_secrets: bool_setting(&st.hide_secrets, true),
            max_log_lines: usize_setting(&st.max_log_lines, 10000),
            bind_address: text_setting(&st.bind_address, "0.0.0.0:8080"),
            password_hash: opt_text_setting(&st.password_hash),
            schedule_enabled: bool_setting(&st.schedule_enabled, false),
            schedule_start: text_setting(&st.schedule_start, "23:00"),
            schedule_end: text_setting(&st.schedule_end, "07:00"),
        }
    }

    /// These settings as served by the API: the password hash is withheld.
    pub fn without_password(self) -> (s: Settings)
        ensures
            s.password_hash is None,
            s.reserved_cpu_cores == self.reserved_cpu_cores,
            s.max_worker_threads == self.max_worker_threads,
            s.checkpoint_interval_secs == self.checkpoint_interval_secs,
            s.default_backend == self.default_backend,
            s.default_benchmark_id == self.default_benchmark_id,
            s.timezone == self.timezone,
            s.hide_secrets == self.hide_secrets,
            s.max_log_lines == self.max_log_lines,
            s.bind_address == self.bind_address,
            s.schedule_enabled == self.schedule_enabled,
            s.schedule_start == self.schedule_start,
            s.schedule_end == self.schedule_end,
    {
        Settings { password_hash: None, ..self }
    }
}

} // verus!
