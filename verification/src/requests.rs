//! Requests of the web API and the rules that read them.

use vstd::prelude::*;

use crate::clock::now_str;
use crate::entropy::os_random_bytes;
use crate::encoding::{text_bytes, upper_hex_digit};
use crate::text::{decimal, decimal_string, push_char};

verus! {

/// The text `ToString` gives a `bool`.
pub open spec fn bool_text(b: bool) -> Seq<char> {
    if b {
        "true"@
    } else {
        "false"@
    }
}

fn bool_string(b: bool) -> (s: String)
    ensures
        s@ == bool_text(b),
{
    if b {
        "true".to_owned()
    } else {
        "false".to_owned()
    }
}

/// The texts of a list of key/value pairs.
pub open spec fn entry_texts(v: Seq<(String, String)>) -> Seq<(Seq<char>, Seq<char>)> {
    v.map_values(|e: (String, String)| (e.0@, e.1@))
}

/// `(key, value)` when the value is given, else nothing.
pub open spec fn entry_if(key: Seq<char>, value: Option<Seq<char>>) -> Seq<(Seq<char>, Seq<char>)> {
    match value {
        Some(v) => seq![(key, v)],
        None => Seq::empty(),
    }
}

fn push_entry(v: &mut Vec<(String, String)>, key: &str, value: String)
    ensures
        entry_texts(final(v)@) == entry_texts(old(v)@).push((key@, value@)),
{
    let ghost before = v@;
    v.push((key.to_owned(), value));
    assert(entry_texts(v@) =~= entry_texts(before).push((key@, value@)));
}

/// The stored settings that the server writes on first start, in order.
pub open spec fn default_entry_texts() -> Seq<(Seq<char>, Seq<char>)> {
    seq![
        ("reserved_cpu_cores"@, "1"@),
        ("checkpoint_interval_secs"@, "10"@),
        ("default_backend"@, "cpu"@),
        ("timezone"@, "UTC"@),
        ("hide_secrets"@, "true"@),
        ("max_log_lines"@, "10000"@),
        ("bind_address"@, "0.0.0.0:8080"@),
        ("schedule_enabled"@, "false"@),
        ("schedule_start"@, "23:00"@),
        ("schedule_end"@, "07:00"@),
    ]
}

/// The key/value pairs of the default settings that the server stores when
/// its settings table is empty.
pub fn default_setting_entries() -> (v: Vec<(String, String)>)
    ensures
        entry_texts(v@) == default_entry_texts(),
{
    let mut v: Vec<(String, String)> = Vec::new();
    push_entry(&mut v, "reserved_cpu_cores", "1".to_owned());
    push_entry(&mut v, "checkpoint_interval_secs", "10".to_owned());
    push_entry(&mut v, "default_backend", "cpu".to_owned());
    push_entry(&mut v, "timezone", "UTC".to_owned());
    push_entry(&mut v, "hide_secrets", "true".to_owned());
    push_entry(&mut v, "max_log_lines", "10000".to_owned());
    push_entry(&mut v, "bind_address", "0.0.0.0:8080".to_owned());
    push_entry(&mut v, "schedule_enabled", "false".to_owned());
    push_entry(&mut v, "schedule_start", "23:00".to_owned());
    push_entry(&mut v, "schedule_end", "07:00".to_owned());
    assert(entry_texts(v@) =~= default_entry_texts());
    v
}

/// A request to change some settings.
#[derive(Clone, Debug)]
pub struct UpdateSettingsRequest {
    pub reserved_cpu_cores: Option<usize>,
    pub max_worker_threads: Option<usize>,
    pub checkpoint_interval_secs: Option<u64>,
    pub default_backend: Option<String>,
    pub default_benchmark_id: Option<String>,
    pub timezone: Option<String>,
    pub hide_secrets: Option<bool>,
    pub max_log_lines: Option<usize>,
    pub schedule_enabled: Option<bool>,
    pub schedule_start: Option<String>,
    pub schedule_end: Option<String>,
}

/// The decimal text of an optional `usize`.
pub open spec fn opt_usize_text(n: Option<usize>) -> Option<Seq<char>> {
    match n {
        Some(n) => Some(decimal(n as nat)),
        None => None,
    }
}

/// The decimal text of an optional `u64`.
pub open spec fn opt_u64_text(n: Option<u64>) -> Option<Seq<char>> {
    match n {
        Some(n) => Some(decimal(n as nat)),
        None => None,
    }
}

/// The text of an optional string.
pub open spec fn opt_string(s: Option<String>) -> Option<Seq<char>> {
    match s {
        Some(s) => Some(s@),
        None => None,
    }
}

/// The text of an optional boolean.
pub open spec fn opt_bool(b: Option<bool>) -> Option<Seq<char>> {
    match b {
        Some(b) => Some(bool_text(b)),
        None => None,
    }
}


impl UpdateSettingsRequest {
    /// The key/value pairs to store, in the order of the fields, for each
    /// setting that the request gives.
    pub open spec fn entries_spec(self) -> Seq<(Seq<char>, Seq<char>)> {
        entry_if("reserved_cpu_cores"@, opt_usize_text(self.reserved_cpu_cores))
            + entry_if("max_worker_threads"@, opt_usize_text(self.max_worker_threads))
            + entry_if("checkpoint_interval_secs"@, opt_u64_text(self.checkpoint_interval_secs))
            + entry_if("default_backend"@, opt_string(self.default_backend))
            + entry_if("default_benchmark_id"@, opt_string(self.default_benchmark_id))
            + entry_if("timezone"@, opt_string(self.timezone))
            + entry_if("hide_secrets"@, opt_bool(self.hide_secrets))
            + entry_if("max_log_lines"@, opt_usize_text(self.max_log_lines))
            + entry_if("schedule_enabled"@, opt_bool(self.schedule_enabled))
            + entry_if("schedule_start"@, opt_string(self.schedule_start))
            + entry_if("schedule_end"@, opt_string(self.schedule_end))
    }

    /// The key/value pairs to store for this request.
    pub fn entries(&self) -> (v: Vec<(String, String)>)
        ensures
            entry_texts(v@) == self.entries_spec(),
    {
        let mut v: Vec<(String, String)> = Vec::new();
        assert(entry_texts(v@) =~= Seq::empty());
        push_opt_usize(&mut v, "reserved_cpu_cores", self.reserved_cpu_cores);
        push_opt_usize(&mut v, "max_worker_threads", self.max_worker_threads);
        push_opt_u64(&mut v, "checkpoint_interval_secs", self.checkpoint_interval_secs);
        push_opt_string(&mut v, "default_backend", &self.default_backend);
        push_opt_string(&mut v, "default_benchmark_id", &self.default_benchmark_id);
        push_opt_string(&mut v, "timezone", &self.timezone);
        push_opt_bool(&mut v, "hide_secrets", self.hide_secrets);
        push_opt_usize(&mut v, "max_log_lines", self.max_log_lines);
        push_opt_bool(&mut v, "schedule_enabled", self.schedule_enabled);
        push_opt_string(&mut v, "schedule_start", &self.schedule_start);
        push_opt_string(&mut v, "schedule_end", &self.schedule_end);
        assert(entry_texts(v@) =~= self.entries_spec());
        v
    }
}

/// Whether the key/value texts `e` store the setting `key` exactly as `value`
/// says: the pair `(key, text)` is among them when a text is given, and every
/// pair with that key carries the given text (so there is none when no text is given).
pub open spec fn stores(e: Seq<(Seq<char>, Seq<char>)>, key: Seq<char>, value: Option<Seq<char>>) -> bool {
    &&& (value matches Some(t) ==> e.contains((key, t)))
    &&& forall|i: int| 0 <= i < e.len() && (#[trigger] e[i]).0 == key ==> value == Some(e[i].1)
}

/// Whether no pair of `e` has the key `key`.
spec fn lacks_key(e: Seq<(Seq<char>, Seq<char>)>, key: Seq<char>) -> bool {
    forall|i: int| 0 <= i < e.len() ==> (#[trigger] e[i]).0 != key
}

/// The pairs of a list of settings, each stored when its text is given.
spec fn flat_entries(parts: Seq<(Seq<char>, Option<Seq<char>>)>) -> Seq<(Seq<char>, Seq<char>)>
    decreases parts.len(),
{
    if parts.len() == 0 {
        Seq::empty()
    } else {
        flat_entries(parts.drop_last()) + entry_if(parts.last().0, parts.last().1)
    }
}

proof fn lemma_flat_lacks_key(parts: Seq<(Seq<char>, Option<Seq<char>>)>, key: Seq<char>)
    requires
        forall|i: int| 0 <= i < parts.len() ==> (#[trigger] parts[i]).0 != key,
    ensures
        lacks_key(flat_entries(parts), key),
    decreases parts.len(),
{
    if parts.len() > 0 {
        let rest = parts.drop_last();
        assert forall|i: int| 0 <= i < rest.len() implies (#[trigger] rest[i]).0 != key by {
            assert(rest[i] == parts[i]);
        }
        lemma_flat_lacks_key(rest, key);
        assert(parts.last() == parts[parts.len() - 1]);
    }
}

proof fn lemma_flat_stores(parts: Seq<(Seq<char>, Option<Seq<char>>)>, j: int)
    requires
        0 <= j < parts.len(),
        forall|a: int, b: int| 0 <= a < b < parts.len() ==> (#[trigger] parts[a]).0 != (#[trigger] parts[b]).0,
    ensures
        stores(flat_entries(parts), parts[j].0, parts[j].1),
    decreases parts.len(),
{
    let rest = parts.drop_last();
    let last = parts.last();
    let k = parts[j].0;
    let e = flat_entries(parts);
    let fr = flat_entries(rest);
    let tail = entry_if(last.0, last.1);
    assert(e == fr + tail);
    if j == parts.len() - 1 {
        assert forall|i: int| 0 <= i < rest.len() implies (#[trigger] rest[i]).0 != k by {
            assert(rest[i] == parts[i]);
        }
        lemma_flat_lacks_key(rest, k);
        if let Some(t) = last.1 {
            assert(e[fr.len() as int] == (k, t));
        }
        assert forall|i: int| 0 <= i < e.len() && (#[trigger] e[i]).0 == k implies parts[j].1 == Some(e[i].1) by {
            if i < fr.len() {
                assert(e[i] == fr[i]);
            }
        }
    } else {
        assert forall|a: int, b: int| 0 <= a < b < rest.len() implies (#[trigger] rest[a]).0 != (#[trigger] rest[b]).0 by {
            assert(rest[a] == parts[a] && rest[b] == parts[b]);
        }
        assert(rest[j] == parts[j]);
        lemma_flat_stores(rest, j);
        assert(last.0 != k);
        if let Some(t) = parts[j].1 {
            let w = choose|w: int| 0 <= w < fr.len() && fr[w] == (k, t);
            assert(e[w] == (k, t));
        }
        assert forall|i: int| 0 <= i < e.len() && (#[trigger] e[i]).0 == k implies parts[j].1 == Some(e[i].1) by {
            if i < fr.len() {
                assert(e[i] == fr[i]);
            } else {
                assert(e[i] == tail[i - fr.len()]);
            }
        }
    }
}

/// What an update of the settings stores: for each field that the request
/// gives, the setting under that field's name with the field's text (a number
/// in decimal, a flag as `true` or `false`, a string as it is); for a field it
/// leaves out, nothing under that name.
pub proof fn lemma_entries_store_given_settings(r: UpdateSettingsRequest)
    ensures
        stores(r.entries_spec(), "reserved_cpu_cores"@, opt_usize_text(r.reserved_cpu_cores)),
        stores(r.entries_spec(), "max_worker_threads"@, opt_usize_text(r.max_worker_threads)),
        stores(r.entries_spec(), "checkpoint_interval_secs"@, opt_u64_text(r.checkpoint_interval_secs)),
        stores(r.entries_spec(), "default_backend"@, opt_string(r.default_backend)),
        stores(r.entries_spec(), "default_benchmark_id"@, opt_string(r.default_benchmark_id)),
        stores(r.entries_spec(), "timezone"@, opt_string(r.timezone)),
        stores(r.entries_spec(), "hide_secrets"@, opt_bool(r.hide_secrets)),
        stores(r.entries_spec(), "max_log_lines"@, opt_usize_text(r.max_log_lines)),
        stores(r.entries_spec(), "schedule_enabled"@, opt_bool(r.schedule_enabled)),
        stores(r.entries_spec(), "schedule_start"@, opt_string(r.schedule_start)),
        stores(r.entries_spec(), "schedule_end"@, opt_string(r.schedule_end)),
{
    reveal_strlit("reserved_cpu_cores");
    reveal_strlit("max_worker_threads");
    reveal_strlit("checkpoint_interval_secs");
    reveal_strlit("default_backend");
    reveal_strlit("default_benchmark_id");
    reveal_strlit("timezone");
    reveal_strlit("hide_secrets");
    reveal_strlit("max_log_lines");
    reveal_strlit("schedule_enabled");
    reveal_strlit("schedule_start");
    reveal_strlit("schedule_end");
    let parts: Seq<(Seq<char>, Option<Seq<char>>)> = seq![
        ("reserved_cpu_cores"@, opt_usize_text(r.reserved_cpu_cores)),
        ("max_worker_threads"@, opt_usize_text(r.max_worker_threads)),
        ("checkpoint_interval_secs"@, opt_u64_text(r.checkpoint_interval_secs)),
        ("default_backend"@, opt_string(r.default_backend)),
        ("default_benchmark_id"@, opt_string(r.default_benchmark_id)),
        ("timezone"@, opt_string(r.timezone)),
        ("hide_secrets"@, opt_bool(r.hide_secrets)),
        ("max_log_lines"@, opt_usize_text(r.max_log_lines)),
        ("schedule_enabled"@, opt_bool(r.schedule_enabled)),
        ("schedule_start"@, opt_string(r.schedule_start)),
        ("schedule_end"@, opt_string(r.schedule_end)),
    ];
    reveal_with_fuel(flat_entries, 12);
    assert(flat_entries(parts) =~= r.entries_spec());
    assert forall|a: int, b: int| 0 <= a < b < parts.len() implies (#[trigger] parts[a]).0 != (#[trigger] parts[b]).0 by {
        assert(parts[a].0[0] != parts[b].0[0] || parts[a].0.len() != parts[b].0.len() || parts[a].0[1] != parts[b].0[1]
            || parts[a].0[9] != parts[b].0[9]);
    }
    lemma_flat_stores(parts, 0);
    lemma_flat_stores(parts, 1);
    lemma_flat_stores(parts, 2);
    lemma_flat_stores(parts, 3);
    lemma_flat_stores(parts, 4);
    lemma_flat_stores(parts, 5);
    lemma_flat_stores(parts, 6);
    lemma_flat_stores(parts, 7);
    lemma_flat_stores(parts, 8);
    lemma_flat_stores(parts, 9);
    lemma_flat_stores(parts, 10);
}

fn push_opt_usize(v: &mut Vec<(String, String)>, key: &str, n: Option<usize>)
    ensures
        entry_texts(final(v)@) == entry_texts(old(v)@) + entry_if(key@, opt_usize_text(n)),
{
    if let Some(n) = n {
        push_entry(v, key, decimal_string(n as u64));
    }
    assert(entry_texts(v@) =~= entry_texts(old(v)@) + entry_if(key@, opt_usize_text(n)));
}

fn push_opt_u64(v: &mut Vec<(String, String)>, key: &str, n: Option<u64>)
    ensures
        entry_texts(final(v)@) == entry_texts(old(v)@) + entry_if(key@, opt_u64_text(n)),
{
    if let Some(n) = n {
        push_entry(v, key, decimal_string(n));
    }
    assert(entry_texts(v@) =~= entry_texts(old(v)@) + entry_if(key@, opt_u64_text(n)));
}

fn push_opt_bool(v: &mut Vec<(String, String)>, key: &str, b: Option<bool>)
    ensures
        entry_texts(final(v)@) == entry_texts(old(v)@) + entry_if(key@, opt_bool(b)),
{
    if let Some(b) = b {
        push_entry(v, key, bool_string(b));
    }
    assert(entry_texts(v@) =~= entry_texts(old(v)@) + entry_if(key@, opt_bool(b)));
}

fn push_opt_string(v: &mut Vec<(String, String)>, key: &str, s: &Option<String>)
    ensures
        entry_texts(final(v)@) == entry_texts(old(v)@) + entry_if(key@, opt_string(*s)),
{
    if let Some(s) = s {
        push_entry(v, key, s.clone());
    }
    assert(entry_texts(v@) =~= entry_texts(old(v)@) + entry_if(key@, opt_string(*s)));
}


/// A request for time estimates of a search for any of some prefixes.
#[derive(Clone, Debug)]
pub struct EstimateRequest {
    pub prefixes: Vec<String>,
    pub backend: Option<String>,
}

/// The shortest byte length among the texts `v`.
pub open spec fn min_len(v: Seq<String>) -> nat
    decreases v.len(),
{
    if v.len() == 0 {
        0
    } else if v.len() == 1 {
        text_bytes(v[0]@).len()
    } else {
        let rest = min_len(v.drop_last());
        let last = text_bytes(v.last()@).len();
        if last < rest { last } else { rest }
    }
}

/// The shortest length is a lower bound of the byte lengths of all the texts
/// and is the byte length of one of them.
pub proof fn lemma_min_len_is_least(v: Seq<String>)
    requires
        v.len() > 0,
    ensures
        forall|i: int| 0 <= i < v.len() ==> min_len(v) <= #[trigger] text_bytes(v[i]@).len(),
        exists|i: int| 0 <= i < v.len() && min_len(v) == #[trigger] text_bytes(v[i]@).len(),
    decreases v.len(),
{
    if v.len() == 1 {
        assert(min_len(v) == text_bytes(v[0]@).len());
    } else {
        let rest = v.drop_last();
        lemma_min_len_is_least(rest);
        assert forall|i: int| 0 <= i < v.len() implies min_len(v) <= #[trigger] text_bytes(v[i]@).len() by {
            if i < v.len() - 1 {
                assert(rest[i] == v[i]);
                assert(min_len(rest) <= text_bytes(rest[i]@).len());
            }
        }
        let j = choose|j: int| 0 <= j < rest.len() && min_len(rest) == #[trigger] text_bytes(rest[j]@).len();
        assert(rest[j] == v[j]);
        if text_bytes(v.last()@).len() < min_len(rest) {
            assert(min_len(v) == text_bytes(v[v.len() - 1]@).len());
        } else {
            assert(min_len(v) == text_bytes(v[j]@).len());
        }
    }
}

impl EstimateRequest {
    /// The shortest prefix length in bytes, which the estimate is for; `None`
    /// (a bad request) when no prefix is given.
    pub fn min_prefix_len(&self) -> (r: Option<usize>)
        ensures
            match r {
                Some(n) => self.prefixes@.len() > 0 && n as nat == min_len(self.prefixes@),
                None => self.prefixes@.len() == 0,
            },
    {
        if self.prefixes.len() == 0 {
            return None;
        }
        let first = self.prefixes[0].as_str();
        let mut best = first.as_bytes().len();
        assert(self.prefixes@.take(1).len() == 1);
        assert(self.prefixes@.take(1)[0] == self.prefixes@[0]);
        assert(best as nat == text_bytes(self.prefixes@[0]@).len());
        let mut i: usize = 1;
        while i < self.prefixes.len()
            invariant
                1 <= i <= self.prefixes@.len(),
                best as nat == min_len(self.prefixes@.take(i as int)),
            decreases self.prefixes@.len() - i,
        {
            proof {
                assert(self.prefixes@.take(i as int + 1).drop_last() =~= self.prefixes@.take(i as int));
                assert(self.prefixes@.take(i as int + 1).last() == self.prefixes@[i as int]);
            }
            let p = self.prefixes[i].as_str();
            let n = p.as_bytes().len();
            assert(n as nat == text_bytes(self.prefixes@[i as int]@).len());
            if n < best {
                best = n;
            }
            i = i + 1;
        }
        assert(self.prefixes@.take(i as int) =~= self.prefixes@);
        Some(best)
    }

    /// The backend of the estimate: the one asked for, or `cpu`.
    pub fn backend_or_default(&self) -> (b: String)
        ensures
            b@ == match self.backend {
                Some(b) => b@,
                None => "cpu"@,
            },
    {
        match &self.backend {
            Some(b) => b.clone(),
            None => "cpu".to_owned(),
        }
    }
}

/// A query of the log.
#[derive(Clone, Debug)]
pub struct LogsQuery {
    pub job_id: Option<String>,
    pub limit: Option<usize>,
}

impl LogsQuery {
    /// How many entries to serve: the limit asked for (200 if none), at most 1000.
    pub fn effective_limit(&self) -> (n: usize)
        ensures
            n == match self.limit {
                Some(l) => if l < 1000 { l } else { 1000 },
                None => 200,
            },
    {
        match self.limit {
            Some(l) => if l < 1000 { l } else { 1000 },
            None => 200,
        }
    }
}

/// A request to run a benchmark.
#[derive(Clone, Debug)]
pub struct RunBenchmarkRequest {
    pub backend: Option<String>,
    pub prefix_length: Option<u32>,
    pub timeout_seconds: Option<u64>,
}

impl RunBenchmarkRequest {
    /// The prefix length of the benchmark: the one asked for (6 if none),
    /// clamped to 2..=16.
    pub fn prefix_length_or_default(&self) -> (n: u32)
        ensures
            n == ({
                let l = match self.prefix_length {
                    Some(l) => l,
                    None => 6,
                };
                if l < 2 { 2 } else if l > 16 { 16 } else { l }
            }),
    {
        let l = match self.prefix_length {
            Some(l) => l,
            None => 6,
        };
        if l < 2 {
            2
        } else if l > 16 {
            16
        } else {
            l
        }
    }

    /// The backend asked for, or `cpu`.
    pub fn backend_or_default(&self) -> (b: String)
        ensures
            b@ == match self.backend {
                Some(b) => b@,
                None => "cpu"@,
            },
    {
        match &self.backend {
            Some(b) => b.clone(),
            None => "cpu".to_owned(),
        }
    }
}


/// The upper-case hexadecimal digits of the nibbles `ns`, one per nibble.
pub open spec fn nibble_text(ns: Seq<u8>) -> Seq<char> {
    Seq::new(ns.len(), |i: int| upper_hex_digit(ns[i] as nat))
}

/// Whether every item of `ns` is below 16.
pub open spec fn all_nibbles(ns: Seq<u8>) -> bool {
    forall|i: int| 0 <= i < ns.len() ==> #[trigger] ns[i] < 16
}

/// The upper-case hexadecimal text of the nibbles `ns`: `0`-`9`, then `A`-`F`.
pub fn nibbles_to_hex(ns: &[u8]) -> (s: String)
    requires
        all_nibbles(ns@),
    ensures
        s@ == nibble_text(ns@),
{
    let mut s = String::new();
    let mut i: usize = 0;
    while i < ns.len()
        invariant
            i <= ns@.len(),
            all_nibbles(ns@),
            s@ == nibble_text(ns@).take(i as int),
        decreases ns@.len() - i,
    {
        let n = ns[i];
        assert(n < 16);
        let c = if n < 10 { (n + 0x30) as char } else { (n - 10 + 0x41) as char };
        assert(c == upper_hex_digit(n as nat));
        push_char(&mut s, c);
        proof {
            assert(nibble_text(ns@).take(i as int + 1) =~= nibble_text(ns@).take(i as int).push(c));
        }
        i = i + 1;
    }
    assert(nibble_text(ns@).take(ns@.len() as int) =~= nibble_text(ns@));
    s
}

/// The low nibble of each byte of `bytes`.
pub open spec fn low_nibbles(bytes: Seq<u8>) -> Seq<u8> {
    Seq::new(bytes.len(), |i: int| (bytes[i] % 16) as u8)
}

/// A random upper-case hexadecimal prefix of `len` digits, the target of a
/// benchmark: the low nibbles of `len` bytes from the operating system's random
/// source, each as a digit; `None` when the source reports an error.
pub fn random_benchmark_prefix(len: u32) -> (r: Option<String>)
    ensures
        r matches Some(s) ==> s@.len() == len && exists|bytes: Seq<u8>|
            bytes.len() == len && s@ == nibble_text(low_nibbles(bytes)),
{
    let bytes = match os_random_bytes(len as usize) {
        Some(v) => v,
        None => return None,
    };
    let mut ns: Vec<u8> = Vec::new();
    let mut i: usize = 0;
    while i < bytes.len()
        invariant
            i <= bytes@.len(),
            ns@ == low_nibbles(bytes@).take(i as int),
        decreases bytes@.len() - i,
    {
        ns.push(bytes[i] % 16);
        proof {
            assert(low_nibbles(bytes@).take(i as int + 1) =~= low_nibbles(bytes@).take(i as int).push(
                (bytes@[i as int] % 16) as u8,
            ));
        }
        i = i + 1;
    }
    assert(low_nibbles(bytes@).take(bytes@.len() as int) =~= low_nibbles(bytes@));
    let s = nibbles_to_hex(ns.as_slice());
    assert(s@ == nibble_text(low_nibbles(bytes@)));
    Some(s)
}

/// An entry of the log.
#[derive(Clone, Debug)]
pub struct LogEntry {
    pub id: i64,
    pub timestamp: String,
    pub level: String,
    pub job_id: Option<String>,
    pub message: String,
}

impl LogEntry {
    /// A new entry, stamped now (empty before the Unix epoch); its id is assigned when it is stored.
    pub fn new(level: &str, job_id: Option<&str>, message: &str) -> (e: LogEntry)
        ensures
            e.id == 0,
            e.level@ == level@,
            opt_string(e.job_id) == match job_id {
                Some(j) => Some(j@),
                None => None,
            },
            e.message@ == message@,
            e.timestamp@.len() == 0 || exists|n: nat| e.timestamp@ == decimal(n),
    {
        LogEntry {
            id: 0,
            timestamp: now_str(),
            level: level.to_owned(),
            job_id: match job_id {
                Some(j) => Some(j.to_owned()),
                None => None,
            },
            message: message.to_owned(),
        }
    }
}

/// The secrets of a found key as served: when secrets are hidden, the private
/// key reads `[hidden]` and the seeds are withheld.
pub fn visible_secrets(
    hide: bool,
    private_key: String,
    candidate_seed: Option<String>,
    master_seed: Option<String>,
) -> (r: (String, Option<String>, Option<String>))
    ensures
        hide ==> r.0@ == "[hidden]"@ && r.1 is None && r.2 is None,
        !hide ==> r.0 == private_key && r.1 == candidate_seed && r.2 == master_seed,
{
    if hide {
        ("[hidden]".to_owned(), None, None)
    } else {
        (private_key, candidate_seed, master_seed)
    }
}

} // verus!
