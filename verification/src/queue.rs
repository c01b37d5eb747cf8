//! Decisions of the job queue: when a job may start, when a running job stops,
//! which status it ends in, and the daily schedule window.

use vstd::prelude::*;
use vstd::string::StringSliceAdditionalSpecFns;

use crate::models::JobStatus;
use crate::text::{decimal, parse_u32_spec, parse_u64_range, push_decimal, push_str};

verus! {

/// What the queue does with the next queued job.
#[derive(Clone, Copy, Debug, PartialEq, Eq, Structural)]
pub enum Admission {
    /// Outside the schedule window: leave the job queued for now.
    Wait,
    /// A limit of zero: mark the job failed.
    Reject,
    /// Start the job.
    Start,
}

/// Whether the next queued job starts, waits for the schedule window, or is
/// rejected for a zero attempt or runtime limit.
pub fn admission(
    schedule_enabled: bool,
    in_window: bool,
    max_attempts: Option<u64>,
    max_runtime: Option<u64>,
) -> (a: Admission)
    ensures
        a == if schedule_enabled && !in_window {
            Admission::Wait
        } else if max_attempts == Some(0u64) || max_runtime == Some(0u64) {
            Admission::Reject
        } else {
            Admission::Start
        },
{
    if schedule_enabled && !in_window {
        return Admission::Wait;
    }
    let zero_attempts = match max_attempts {
        Some(n) => n == 0,
        None => false,
    };
    let zero_runtime = match max_runtime {
        Some(n) => n == 0,
        None => false,
    };
    if zero_attempts || zero_runtime {
        Admission::Reject
    } else {
        Admission::Start
    }
}

/// What the runner of a job does after one look at the search.
#[derive(Clone, Copy, Debug, PartialEq, Eq, Structural)]
pub enum RunStep {
    /// Keep searching.
    Continue,
    /// The search has found a key.
    Finished,
    /// Ask the search to stop: cancelled, or a limit reached.
    Stop,
}

/// Whether a limit is set and reached.
pub open spec fn limit_reached(value: u64, limit: Option<u64>) -> bool {
    limit matches Some(l) && value >= l
}

fn reached(value: u64, limit: Option<u64>) -> (b: bool)
    ensures
        b == limit_reached(value, limit),
{
    match limit {
        Some(l) => value >= l,
        None => false,
    }
}

/// The next step of a running job, given whether the search is done, whether
/// the job was cancelled, and the attempts and whole seconds so far.
pub fn run_step(
    done: bool,
    cancelled: bool,
    attempts: u64,
    elapsed_secs: u64,
    max_attempts: Option<u64>,
    max_runtime: Option<u64>,
) -> (s: RunStep)
    ensures
        s == if done {
            RunStep::Finished
        } else if cancelled || limit_reached(attempts, max_attempts) || limit_reached(
            elapsed_secs,
            max_runtime,
        ) {
            RunStep::Stop
        } else {
            RunStep::Continue
        },
{
    if done {
        RunStep::Finished
    } else if cancelled || reached(attempts, max_attempts) || reached(elapsed_secs, max_runtime) {
        RunStep::Stop
    } else {
        RunStep::Continue
    }
}

/// The status a job ends in: `Completed` when a key was found; when cancelled,
/// `Stopped` if the user stopped it and `Paused` otherwise; else `Stopped`.
pub fn finish_status(found: bool, cancelled: bool, current: JobStatus) -> (s: JobStatus)
    ensures
        s == if found {
            JobStatus::Completed
        } else if cancelled {
            if current == JobStatus::Stopped {
                JobStatus::Stopped
            } else {
                JobStatus::Paused
            }
        } else {
            JobStatus::Stopped
        },
{
    if found {
        JobStatus::Completed
    } else if cancelled {
        if current == JobStatus::Stopped {
            JobStatus::Stopped
        } else {
            JobStatus::Paused
        }
    } else {
        JobStatus::Stopped
    }
}

/// The note for a reached attempt limit.
pub open spec fn attempts_note(limit: u64) -> Seq<char> {
    "reached max_attempts ("@ + decimal(limit as nat) + ")"@
}

/// The note for a reached runtime limit.
pub open spec fn runtime_note(limit: u64) -> Seq<char> {
    "reached max_runtime ("@ + decimal(limit as nat) + "s)"@
}

/// The notes of a job stopped by its limits, joined by `, `, if any limit is reached.
pub open spec fn limit_notes_spec(
    attempts: u64,
    elapsed_secs: u64,
    max_attempts: Option<u64>,
    max_runtime: Option<u64>,
) -> Option<Seq<char>> {
    let a = limit_reached(attempts, max_attempts);
    let r = limit_reached(elapsed_secs, max_runtime);
    if a && r {
        Some(attempts_note(max_attempts->0) + ", "@ + runtime_note(max_runtime->0))
    } else if a {
        Some(attempts_note(max_attempts->0))
    } else if r {
        Some(runtime_note(max_runtime->0))
    } else {
        None
    }
}

/// The notes that record which limits stopped a job, or `None` when none was reached.
pub fn limit_notes(
    attempts: u64,
    elapsed_secs: u64,
    max_attempts: Option<u64>,
    max_runtime: Option<u64>,
) -> (n: Option<String>)
    ensures
        match n {
            Some(t) => limit_notes_spec(attempts, elapsed_secs, max_attempts, max_runtime) == Some(
                t@,
            ),
            None => limit_notes_spec(attempts, elapsed_secs, max_attempts, max_runtime) is None,
        },
{
    let mut notes = String::new();
    let mut any = false;
    if let Some(limit) = max_attempts {
        if attempts >= limit {
            push_str(&mut notes, "reached max_attempts (");
            push_decimal(&mut notes, limit);
            push_str(&mut notes, ")");
            any = true;
        }
    }
    if let Some(limit) = max_runtime {
        if elapsed_secs >= limit {
            if any {
                push_str(&mut notes, ", ");
            }
            push_str(&mut notes, "reached max_runtime (");
            push_decimal(&mut notes, limit);
            push_str(&mut notes, "s)");
            any = true;
        }
    }
    if any {
        Some(notes)
    } else {
        None
    }
}

/// The minute of the day (UTC) of a time given in seconds since the Unix epoch.
pub fn minutes_of_day(epoch_secs: u64) -> (m: u32)
    ensures
        m == ((epoch_secs / 3600) % 24) * 60 + (epoch_secs / 60) % 60,
        m < 1440,
{
    let hours = ((epoch_secs / 3600) % 24) as u32;
    let minutes = ((epoch_secs / 60) % 60) as u32;
    hours * 60 + minutes
}

/// Whether `p` is the position of the only `:` in `t`.
pub open spec fn sole_colon(t: Seq<u8>, p: int) -> bool {
    &&& 0 <= p < t.len()
    &&& t[p] == 0x3A
    &&& forall|q: int| 0 <= q < t.len() && q != p ==> t[q] != 0x3A
}

/// The minutes of a clock time `H:M`: exactly two parts around one colon, each
/// an unsigned 32-bit numeral; the value is `H * 60 + M`.
pub open spec fn clock_value(t: Seq<u8>) -> Option<nat> {
    if exists|p: int| sole_colon(t, p) {
        let p = choose|p: int| sole_colon(t, p);
        match (parse_u32_spec(t.subrange(0, p)), parse_u32_spec(t.subrange(p + 1, t.len() as int))) {
            (Some(h), Some(m)) => Some(h as nat * 60 + m as nat),
            _ => None,
        }
    } else {
        None
    }
}

/// The minutes of the clock time `t` (`H:M`), if it is one.
pub fn clock_minutes(t: &str) -> (r: Option<u64>)
    ensures
        match r {
            Some(v) => clock_value(t.spec_bytes()) == Some(v as nat),
            None => clock_value(t.spec_bytes()) is None,
        },
{
    let b = t.as_bytes();
    let ghost s = t.spec_bytes();
    let mut colon: Option<usize> = None;
    let mut i: usize = 0;
    while i < b.len()
        invariant
            i <= b@.len(),
            b@ == s,
            s == t.spec_bytes(),
            match colon {
                Some(p) => p < i && s[p as int] == 0x3A && forall|q: int|
                    0 <= q < i && q != p ==> s[q] != 0x3A,
                None => forall|q: int| 0 <= q < i ==> s[q] != 0x3A,
            },
        decreases b@.len() - i,
    {
        if b[i] == 0x3A {
            match colon {
                Some(p) => {
                    proof {
                        assert(s[i as int] == 0x3A);
                        assert forall|p2: int| !sole_colon(s, p2) by {
                            if sole_colon(s, p2) {
                                if p2 != p as int {
                                    assert(s[p as int] != 0x3A);
                                } else {
                                    assert(s[i as int] != 0x3A);
                                }
                            }
                        }
                        assert(!(exists|p2: int| sole_colon(s, p2)));
                    }
                    return None;
                },
                None => {
                    colon = Some(i);
                },
            }
        }
        i = i + 1;
    }
    let p = match colon {
        Some(p) => p,
        None => {
            proof {
                assert forall|p2: int| !sole_colon(s, p2) by {
                    if sole_colon(s, p2) {
                        assert(s[p2] == 0x3A);
                    }
                }
            }
            return None;
        },
    };
    assert(sole_colon(s, p as int));
    let ghost chosen = choose|q: int| sole_colon(s, q);
    assert(chosen == p as int) by {
        assert(sole_colon(s, chosen));
    }
    let h = parse_u64_range(b, 0, p);
    let m = parse_u64_range(b, p + 1, b.len());
    match (h, m) {
        (Some(h), Some(m)) => {
            if h <= u32::MAX as u64 && m <= u32::MAX as u64 {
                Some(h * 60 + m)
            } else {
                None
            }
        },
        _ => None,
    }
}

/// Default window start, 23:00.
pub open spec fn default_window_start() -> nat {
    1380
}

/// Default window end, 07:00.
pub open spec fn default_window_end() -> nat {
    420
}

/// Whether the minute `current` lies in the daily window from `start` to `end`,
/// which wraps past midnight when `start > end`.
pub open spec fn in_window(current: nat, start: nat, end: nat) -> bool {
    if start <= end {
        start <= current < end
    } else {
        current >= start || current < end
    }
}

/// A window that wraps past midnight holds exactly the minutes outside the
/// window with its ends exchanged.
pub proof fn lemma_wrapping_window_complement(current: nat, start: nat, end: nat)
    requires
        start > end,
    ensures
        in_window(current, start, end) == !in_window(current, end, start),
{
}

/// Whether the daily schedule window with the clock texts `start` and `end`
/// (23:00 and 07:00 where unreadable) contains the minute `current`.
///
/// The clock values must fit in 32 bits.
pub fn schedule_allows(current: u32, start: &str, end: &str) -> (b: bool)
    requires
        clock_value(start.spec_bytes()) matches Some(v) ==> v <= u32::MAX,
        clock_value(end.spec_bytes()) matches Some(v) ==> v <= u32::MAX,
    ensures
        b == in_window(
            current as nat,
            match clock_value(start.spec_bytes()) {
                Some(v) => v,
                None => default_window_start(),
            },
            match clock_value(end.spec_bytes()) {
                Some(v) => v,
                None => default_window_end(),
            },
        ),
{
    let s = match clock_minutes(start) {
        Some(v) => v,
        None => 1380,
    };
    let e = match clock_minutes(end) {
        Some(v) => v,
        None => 420,
    };
    let c = current as u64;
    if s <= e {
        c >= s && c < e
    } else {
        c >= s || c < e
    }
}

/// Worker threads for a search on `total` cores with `reserved` kept back:
/// at least one.
pub fn worker_threads_for(total: usize, reserved: usize) -> (n: usize)
    ensures
        n == if total > reserved && total - reserved > 1 { (total - reserved) as usize } else { 1 },
{
    let free = total.saturating_sub(reserved);
    if free > 1 {
        free
    } else {
        1
    }
}

/// Index of the first running job of `statuses`, if any.
pub fn first_running(statuses: &Vec<JobStatus>) -> (r: Option<usize>)
    ensures
        match r {
            Some(i) => i < statuses@.len() && statuses@[i as int] == JobStatus::Running && forall|
                j: int,
            | 0 <= j < i ==> statuses@[j] != JobStatus::Running,
            None => forall|j: int| 0 <= j < statuses@.len() ==> statuses@[j] != JobStatus::Running,
        },
{
    let mut i: usize = 0;
    while i < statuses.len()
        invariant
            i <= statuses@.len(),
            forall|j: int| 0 <= j < i ==> statuses@[j] != JobStatus::Running,
        decreases statuses@.len() - i,
    {
        if statuses[i] == JobStatus::Running {
            return Some(i);
        }
        i = i + 1;
    }
    None
}

/// Number of jobs with status `s` among the statuses `v`.
pub open spec fn count_status(v: Seq<JobStatus>, s: JobStatus) -> nat
    decreases v.len(),
{
    if v.len() == 0 {
        0
    } else {
        count_status(v.drop_last(), s) + if v.last() == s { 1nat } else { 0nat }
    }
}

/// Whether a status is `s`.
pub open spec fn status_is(s: JobStatus) -> spec_fn(JobStatus) -> bool {
    |x: JobStatus| x == s
}

/// The number of jobs with status `s` is the length of the subsequence of the
/// statuses equal to `s`: every such job counts once and no other job counts.
pub proof fn lemma_count_status_is_filter(v: Seq<JobStatus>, s: JobStatus)
    ensures
        count_status(v, s) == v.filter(status_is(s)).len(),
    decreases v.len(),
{
    reveal(Seq::filter);
    if v.len() > 0 {
        lemma_count_status_is_filter(v.drop_last(), s);
    }
}

/// Number of queued jobs among `statuses`.
pub fn queue_length(statuses: &Vec<JobStatus>) -> (n: usize)
    ensures
        n == count_status(statuses@, JobStatus::Queued),
{
    let mut n: usize = 0;
    let mut i: usize = 0;
    while i < statuses.len()
        invariant
            i <= statuses@.len(),
            n == count_status(statuses@.take(i as int), JobStatus::Queued),
            n <= i,
        decreases statuses@.len() - i,
    {
        proof {
            assert(statuses@.take(i as int + 1).drop_last() =~= statuses@.take(i as int));
        }
        if statuses[i] == JobStatus::Queued {
            n = n + 1;
        }
        i = i + 1;
    }
    assert(statuses@.take(i as int) =~= statuses@);
    n
}

} // verus!
