//! Process sampling: per-process network and GPU counters, the capabilities
//! a process collection reports, and which processes a snapshot keeps.
use vstd::prelude::*;

use std::collections::HashMap;

use crate::anomaly_storage::optional_text;
use crate::config::ProcessConfig;
use crate::float_bits::{integer_bits, integer_value_bits, SIGN_BIT};
use crate::model::{
    capability_record, owned_detail, CapabilityBatch, CapabilityRecord, CapabilityState,
    CollectorCapability, ProcessSample, ProcessSnapshot,
};
use crate::text::{chars_match_at, chars_of, has_prefix, parse_unsigned, parse_unsigned_chars, trim_chars, trimmed};

verus! {

broadcast use {vstd::string::group_string_axioms, vstd::std_specs::hash::group_hash_axioms};

/// Cumulative network byte counters of one process.
#[derive(Debug, Clone, Copy, PartialEq, Eq, Structural)]
pub struct NetworkTotals {
    pub received: u64,
    pub transmitted: u64,
}

// ---------------------------------------------------------------------------
// `nettop` output.
/// `s` without trailing commas.
pub open spec fn without_trailing_commas(s: Seq<char>) -> Seq<char>
    decreases s.len(),
{
    if s.len() > 0 && s.last() == ',' {
        without_trailing_commas(s.drop_last())
    } else {
        s
    }
}

/// The position of the last `c` in `s`.
pub open spec fn last_index_of(s: Seq<char>, c: char) -> Option<int>
    decreases s.len(),
{
    if s.len() == 0 {
        None
    } else if s.last() == c {
        Some(s.len() - 1)
    } else {
        last_index_of(s.drop_last(), c)
    }
}

/// One counter row of `nettop -P -x -J bytes_in,bytes_out`, trimmed and
/// without trailing commas: `<name>.<pid>,<bytes in>,<bytes out>`, where the
/// name may itself hold commas and dots.  Header rows (`time,...` and
/// `,bytes_in,...`) and rows that do not parse give nothing.
pub open spec fn nettop_row(line: Seq<char>) -> Option<(u32, NetworkTotals)> {
    let row = without_trailing_commas(trimmed(line));
    if has_prefix(row, "time,"@) || has_prefix(row, ",bytes_in,"@) {
        None
    } else {
        match last_index_of(row, ',') {
            None => None,
            Some(i) => {
                let rest = row.take(i);
                match last_index_of(rest, ',') {
                    None => None,
                    Some(j) => {
                        let transmitted = parse_unsigned(row.skip(i + 1), u64::MAX as nat);
                        let received = parse_unsigned(rest.skip(j + 1), u64::MAX as nat);
                        let identity = rest.take(j);
                        match (transmitted, received, last_index_of(identity, '.')) {
                            (Some(t), Some(r), Some(k)) => match parse_unsigned(
                                identity.skip(k + 1),
                                u32::MAX as nat,
                            ) {
                                Some(pid) => Some(
                                    (
                                        pid as u32,
                                        NetworkTotals { received: r as u64, transmitted: t as u64 },
                                    ),
                                ),
                                None => None,
                            },
                            _ => None,
                        }
                    },
                }
            },
        }
    }
}

/// `a + b` on `u64`, saturating.
pub open spec fn saturating_sum(a: u64, b: u64) -> u64 {
    if a + b > u64::MAX {
        u64::MAX
    } else {
        (a + b) as u64
    }
}

/// The totals after one more row: rows of the same process add up
/// (saturating).
pub open spec fn add_row(totals: Map<u32, NetworkTotals>, row: Option<(u32, NetworkTotals)>) -> Map<
    u32,
    NetworkTotals,
> {
    match row {
        None => totals,
        Some((pid, t)) => if totals.contains_key(pid) {
            totals.insert(
                pid,
                NetworkTotals {
                    received: saturating_sum(totals[pid].received, t.received),
                    transmitted: saturating_sum(totals[pid].transmitted, t.transmitted),
                },
            )
        } else {
            totals.insert(pid, t)
        },
    }
}

/// The totals of `rest`, read line by line; `line` holds the characters of
/// the current line read so far.
pub open spec fn scan_nettop(totals: Map<u32, NetworkTotals>, line: Seq<char>, rest: Seq<char>) -> Map<
    u32,
    NetworkTotals,
>
    decreases rest.len(),
{
    if rest.len() == 0 {
        add_row(totals, nettop_row(line))
    } else if rest[0] == '\n' {
        scan_nettop(add_row(totals, nettop_row(line)), Seq::empty(), rest.skip(1))
    } else {
        scan_nettop(totals, line.push(rest[0]), rest.skip(1))
    }
}

/// The per-process totals of a whole `nettop` report.
pub open spec fn nettop_totals(source: Seq<char>) -> Map<u32, NetworkTotals> {
    scan_nettop(Map::empty(), Seq::empty(), source)
}

fn last_index(s: &Vec<char>, end: usize, c: char) -> (r: Option<usize>)
    requires
        end <= s.len(),
    ensures
        last_index_of(s@.take(end as int), c) == match r {
            Some(i) => Some(i as int),
            None => None,
        },
        r matches Some(i) ==> i < end,
{
    let mut k = end;
    while k > 0 && s[k - 1] != c
        invariant
            k <= end <= s.len(),
            last_index_of(s@.take(end as int), c) == last_index_of(s@.take(k as int), c),
        decreases k,
    {
        proof {
            assert(s@.take(k as int).drop_last() =~= s@.take(k - 1));
        }
        k = k - 1;
    }
    if k == 0 {
        None
    } else {
        Some(k - 1)
    }
}

fn range_chars(s: &Vec<char>, start: usize, end: usize) -> (r: Vec<char>)
    requires
        start <= end <= s.len(),
    ensures
        r@ == s@.subrange(start as int, end as int),
{
    let mut r: Vec<char> = Vec::new();
    let mut i = start;
    while i < end
        invariant
            start <= i <= end <= s.len(),
            r@ == s@.subrange(start as int, i as int),
        decreases end - i,
    {
        r.push(s[i]);
        i = i + 1;
        assert(r@ =~= s@.subrange(start as int, i as int));
    }
    r
}

fn parse_row(line: &Vec<char>) -> (row: Option<(u32, NetworkTotals)>)
    ensures
        row == nettop_row(line@),
{
    let t = trim_chars(line);
    let mut end = t.len();
    assert(t@.take(end as int) =~= t@);
    while end > 0 && t[end - 1] == ','
        invariant
            end <= t.len(),
            without_trailing_commas(t@) == without_trailing_commas(t@.take(end as int)),
        decreases end,
    {
        proof {
            assert(t@.take(end as int).drop_last() =~= t@.take(end - 1));
        }
        end = end - 1;
    }
    let row = range_chars(&t, 0, end);
    proof {
        assert(without_trailing_commas(t@.take(end as int)) == t@.take(end as int));
        assert(row@ =~= t@.take(end as int));
        assert(row@.skip(0) =~= row@);
    }
    if chars_match_at(&row, 0, &chars_of("time,")) || chars_match_at(
        &row,
        0,
        &chars_of(",bytes_in,"),
    ) {
        return None;
    }
    let i = match last_index(&row, row.len(), ',') {
        Some(i) => i,
        None => {
            assert(row@.take(row.len() as int) =~= row@);
            return None;
        },
    };
    assert(row@.take(row.len() as int) =~= row@);
    let j = match last_index(&row, i, ',') {
        Some(j) => j,
        None => {
            return None;
        },
    };
    let transmitted = parse_unsigned_chars(&range_chars(&row, i + 1, row.len()), u64::MAX);
    let received = parse_unsigned_chars(&range_chars(&row, j + 1, i), u64::MAX);
    proof {
        assert(row@.subrange(i + 1, row.len() as int) =~= row@.skip(i + 1));
        assert(row@.subrange(j + 1, i as int) =~= row@.take(i as int).skip(j + 1));
    }
    let k = match last_index(&row, j, '.') {
        Some(k) => k,
        None => {
            proof {
                assert(row@.take(j as int) =~= row@.take(i as int).take(j as int));
            }
            return None;
        },
    };
    proof {
        assert(row@.take(j as int) =~= row@.take(i as int).take(j as int));
        assert(row@.subrange(k + 1, j as int) =~= row@.take(i as int).take(j as int).skip(k + 1));
    }
    match (transmitted, received) {
        (Some(t), Some(r)) => match parse_unsigned_chars(&range_chars(&row, k + 1, j), 0xffff_ffff) {
            Some(pid) => Some((pid as u32, NetworkTotals { received: r, transmitted: t })),
            None => None,
        },
        _ => None,
    }
}

fn add_parsed_row(totals: &mut HashMap<u32, NetworkTotals>, line: &Vec<char>)
    ensures
        final(totals)@ == add_row(old(totals)@, nettop_row(line@)),
{
    match parse_row(line) {
        None => {},
        Some((pid, t)) => {
            let next = match totals.get(&pid) {
                Some(old) => NetworkTotals {
                    received: old.received.saturating_add(t.received),
                    transmitted: old.transmitted.saturating_add(t.transmitted),
                },
                None => t,
            };
            totals.insert(pid, next);
        },
    }
}

/// The per-process totals of a `nettop` report (see `nettop_totals`);
/// refused when it holds no counter row.
pub fn parse_nettop(source: &str) -> (r: Result<HashMap<u32, NetworkTotals>, String>)
    ensures
        nettop_totals(source@).len() == 0 ==> (r matches Err(e) && e@
            == "nettop returned no process counters"@),
        nettop_totals(source@).len() > 0 ==> (r matches Ok(totals) && totals@ == nettop_totals(
            source@,
        )),
{
    let chars = chars_of(source);
    let mut totals: HashMap<u32, NetworkTotals> = HashMap::new();
    let mut line: Vec<char> = Vec::new();
    let mut i: usize = 0;
    assert(chars@.skip(0) =~= chars@);
    assert(line@ =~= Seq::<char>::empty());
    assert(totals@ =~= Map::<u32, NetworkTotals>::empty());
    while i < chars.len()
        invariant
            i <= chars.len(),
            chars@ == source@,
            scan_nettop(totals@, line@, chars@.skip(i as int)) == nettop_totals(source@),
        decreases chars.len() - i,
    {
        let c = chars[i];
        proof {
            assert(chars@.skip(i as int).skip(1) =~= chars@.skip(i + 1));
            assert(chars@.skip(i as int)[0] == c);
        }
        if c == '\n' {
            add_parsed_row(&mut totals, &line);
            line = Vec::new();
        } else {
            line.push(c);
        }
        i = i + 1;
    }
    proof {
        assert(chars@.skip(i as int).len() == 0);
    }
    add_parsed_row(&mut totals, &line);
    if totals.is_empty() {
        return Err(String::from_str("nettop returned no process counters"));
    }
    Ok(totals)
}


// ---------------------------------------------------------------------------
// Candidates and counters.
/// One process as the process table shows it, with rates measured over the
/// last interval.  Rates and percentages are binary64 bit patterns (see
/// `float_bits`).
#[derive(Debug)]
pub struct ProcessCandidate {
    pub pid: u32,
    pub process_start_time_seconds: u64,
    pub parent_pid: Option<u32>,
    pub name: String,
    pub executable_path: Option<String>,
    pub cpu_usage_percent_bits: u64,
    pub memory_bytes: u64,
    pub disk_read_bytes: u64,
    pub disk_write_bytes: u64,
    pub disk_read_bytes_per_second_bits: u64,
    pub disk_write_bytes_per_second_bits: u64,
    pub network_receive_bytes: Option<u64>,
    pub network_transmit_bytes: Option<u64>,
    pub network_receive_bytes_per_second_bits: Option<u64>,
    pub network_transmit_bytes_per_second_bits: Option<u64>,
    pub gpu_time_ns: Option<u64>,
    pub gpu_usage_percent_bits: Option<u64>,
}

/// The network totals seen for one process identity at the last collection.
#[derive(Debug, Clone, Copy, PartialEq, Eq, Structural)]
pub struct NetworkEntry {
    pub pid: u32,
    pub process_start_time_seconds: u64,
    pub totals: NetworkTotals,
}

/// The GPU time seen for one process identity at the last collection.
#[derive(Debug, Clone, Copy, PartialEq, Eq, Structural)]
pub struct GpuEntry {
    pub pid: u32,
    pub process_start_time_seconds: u64,
    pub gpu_time_ns: u64,
}

/// `a - b` on `u64`, saturating at zero: a counter that went back (a reset)
/// counts as no traffic.
pub open spec fn saturating_difference(a: u64, b: u64) -> u64 {
    if a >= b {
        (a - b) as u64
    } else {
        0
    }
}

/// The last totals recorded for an identity.
pub open spec fn previous_network(entries: Seq<NetworkEntry>, pid: u32, start: u64) -> Option<
    NetworkTotals,
>
    decreases entries.len(),
{
    if entries.len() == 0 {
        None
    } else if entries.last().pid == pid && entries.last().process_start_time_seconds == start {
        Some(entries.last().totals)
    } else {
        previous_network(entries.drop_last(), pid, start)
    }
}

/// The last GPU time recorded for an identity.
pub open spec fn previous_gpu(entries: Seq<GpuEntry>, pid: u32, start: u64) -> Option<u64>
    decreases entries.len(),
{
    if entries.len() == 0 {
        None
    } else if entries.last().pid == pid && entries.last().process_start_time_seconds == start {
        Some(entries.last().gpu_time_ns)
    } else {
        previous_gpu(entries.drop_last(), pid, start)
    }
}

/// A candidate after the network counters: a process that `nettop` reports
/// and that was seen with the same start time before gets the bytes
/// transferred since (saturating at zero); the others stay as they are.
pub open spec fn with_network(
    c: ProcessCandidate,
    totals: Map<u32, NetworkTotals>,
    previous: Seq<NetworkEntry>,
) -> ProcessCandidate {
    if totals.contains_key(c.pid) {
        match previous_network(previous, c.pid, c.process_start_time_seconds) {
            Some(old) => ProcessCandidate {
                network_receive_bytes: Some(
                    saturating_difference(totals[c.pid].received, old.received),
                ),
                network_transmit_bytes: Some(
                    saturating_difference(totals[c.pid].transmitted, old.transmitted),
                ),
                ..c
            },
            None => c,
        }
    } else {
        c
    }
}

/// The totals to remember: one entry per candidate that `nettop` reports,
/// in candidate order.
pub open spec fn next_network(candidates: Seq<ProcessCandidate>, totals: Map<u32, NetworkTotals>) -> Seq<
    NetworkEntry,
>
    decreases candidates.len(),
{
    if candidates.len() == 0 {
        Seq::empty()
    } else {
        let c = candidates.last();
        next_network(candidates.drop_last(), totals) + if totals.contains_key(c.pid) {
            seq![
                NetworkEntry {
                    pid: c.pid,
                    process_start_time_seconds: c.process_start_time_seconds,
                    totals: totals[c.pid],
                },
            ]
        } else {
            Seq::empty()
        }
    }
}

/// Joins the `nettop` totals to the candidates by pid, guarded against pid
/// reuse by the start time (see `with_network`), and replaces the remembered
/// totals (see `next_network`).  Rates are left to the caller, which knows
/// the elapsed time.
pub fn apply_network_deltas(
    candidates: &mut Vec<ProcessCandidate>,
    totals: &HashMap<u32, NetworkTotals>,
    previous: &mut Vec<NetworkEntry>,
)
    ensures
        final(candidates)@.len() == old(candidates)@.len(),
        forall|i: int|
            0 <= i < old(candidates)@.len() ==> #[trigger] final(candidates)@[i] == with_network(
                old(candidates)@[i],
                totals@,
                old(previous)@,
            ),
        final(previous)@ == next_network(old(candidates)@, totals@),
{
    let mut next: Vec<NetworkEntry> = Vec::new();
    let mut i: usize = 0;
    while i < candidates.len()
        invariant
            i <= candidates@.len() == old(candidates)@.len(),
            *previous == *old(previous),
            forall|j: int|
                0 <= j < i ==> #[trigger] candidates@[j] == with_network(
                    old(candidates)@[j],
                    totals@,
                    old(previous)@,
                ),
            forall|j: int| i <= j < candidates@.len() ==> #[trigger] candidates@[j] == old(candidates)@[j],
            next@ == next_network(old(candidates)@.take(i as int), totals@),
        decreases candidates@.len() - i,
    {
        let pid = candidates[i].pid;
        let start = candidates[i].process_start_time_seconds;
        proof {
            assert(old(candidates)@.take(i + 1).drop_last() =~= old(candidates)@.take(i as int));
        }
        match totals.get(&pid) {
            Some(total) => {
                let total = *total;
                next.push(NetworkEntry { pid, process_start_time_seconds: start, totals: total });
                match previous_totals(previous, pid, start) {
                    Some(old) => {
                        candidates[i].network_receive_bytes = Some(
                            difference(total.received, old.received),
                        );
                        candidates[i].network_transmit_bytes = Some(
                            difference(total.transmitted, old.transmitted),
                        );
                    },
                    None => {},
                }
            },
            None => {},
        }
        i = i + 1;
    }
    assert(old(candidates)@.take(i as int) =~= old(candidates)@);
    *previous = next;
}

fn difference(a: u64, b: u64) -> (d: u64)
    ensures
        d == saturating_difference(a, b),
{
    if a >= b {
        a - b
    } else {
        0
    }
}

fn previous_totals(entries: &Vec<NetworkEntry>, pid: u32, start: u64) -> (r: Option<NetworkTotals>)
    ensures
        r == previous_network(entries@, pid, start),
{
    let mut k = entries.len();
    assert(entries@.take(k as int) =~= entries@);
    while k > 0
        invariant
            k <= entries@.len(),
            previous_network(entries@, pid, start) == previous_network(entries@.take(k as int), pid, start),
        decreases k,
    {
        proof {
            assert(entries@.take(k as int).drop_last() =~= entries@.take(k - 1));
        }
        let e = entries[k - 1];
        if e.pid == pid && e.process_start_time_seconds == start {
            return Some(e.totals);
        }
        k = k - 1;
    }
    None
}

/// A candidate after the GPU snapshot: a process the snapshot reports and
/// that was seen with the same start time before gets the GPU time used
/// since (saturating at zero); the others stay as they are.
pub open spec fn with_gpu(c: ProcessCandidate, totals: Map<u32, u64>, previous: Seq<GpuEntry>) -> ProcessCandidate {
    if totals.contains_key(c.pid) {
        match previous_gpu(previous, c.pid, c.process_start_time_seconds) {
            Some(old) => ProcessCandidate {
                gpu_time_ns: Some(saturating_difference(totals[c.pid], old)),
                ..c
            },
            None => c,
        }
    } else {
        c
    }
}

/// The GPU times to remember: one entry per candidate that the snapshot
/// reports, in candidate order.
pub open spec fn next_gpu(candidates: Seq<ProcessCandidate>, totals: Map<u32, u64>) -> Seq<GpuEntry>
    decreases candidates.len(),
{
    if candidates.len() == 0 {
        Seq::empty()
    } else {
        let c = candidates.last();
        next_gpu(candidates.drop_last(), totals) + if totals.contains_key(c.pid) {
            seq![
                GpuEntry {
                    pid: c.pid,
                    process_start_time_seconds: c.process_start_time_seconds,
                    gpu_time_ns: totals[c.pid],
                },
            ]
        } else {
            Seq::empty()
        }
    }
}

fn previous_time(entries: &Vec<GpuEntry>, pid: u32, start: u64) -> (r: Option<u64>)
    ensures
        r == previous_gpu(entries@, pid, start),
{
    let mut k = entries.len();
    assert(entries@.take(k as int) =~= entries@);
    while k > 0
        invariant
            k <= entries@.len(),
            previous_gpu(entries@, pid, start) == previous_gpu(entries@.take(k as int), pid, start),
        decreases k,
    {
        proof {
            assert(entries@.take(k as int).drop_last() =~= entries@.take(k - 1));
        }
        let e = entries[k - 1];
        if e.pid == pid && e.process_start_time_seconds == start {
            return Some(e.gpu_time_ns);
        }
        k = k - 1;
    }
    None
}

/// Joins the GPU snapshot to the candidates by pid, guarded against pid
/// reuse by the start time (see `with_gpu`), and replaces the remembered
/// times (see `next_gpu`).  Usage percentages are left to the caller.
pub fn apply_gpu_deltas(
    candidates: &mut Vec<ProcessCandidate>,
    totals: &HashMap<u32, u64>,
    previous: &mut Vec<GpuEntry>,
)
    ensures
        final(candidates)@.len() == old(candidates)@.len(),
        forall|i: int|
            0 <= i < old(candidates)@.len() ==> #[trigger] final(candidates)@[i] == with_gpu(
                old(candidates)@[i],
                totals@,
                old(previous)@,
            ),
        final(previous)@ == next_gpu(old(candidates)@, totals@),
{
    let mut next: Vec<GpuEntry> = Vec::new();
    let mut i: usize = 0;
    while i < candidates.len()
        invariant
            i <= candidates@.len() == old(candidates)@.len(),
            *previous == *old(previous),
            forall|j: int|
                0 <= j < i ==> #[trigger] candidates@[j] == with_gpu(
                    old(candidates)@[j],
                    totals@,
                    old(previous)@,
                ),
            forall|j: int| i <= j < candidates@.len() ==> #[trigger] candidates@[j] == old(candidates)@[j],
            next@ == next_gpu(old(candidates)@.take(i as int), totals@),
        decreases candidates@.len() - i,
    {
        let pid = candidates[i].pid;
        let start = candidates[i].process_start_time_seconds;
        proof {
            assert(old(candidates)@.take(i + 1).drop_last() =~= old(candidates)@.take(i as int));
        }
        match totals.get(&pid) {
            Some(total) => {
                let total = *total;
                next.push(GpuEntry { pid, process_start_time_seconds: start, gpu_time_ns: total });
                match previous_time(previous, pid, start) {
                    Some(old) => {
                        candidates[i].gpu_time_ns = Some(difference(total, old));
                    },
                    None => {},
                }
            },
            None => {},
        }
        i = i + 1;
    }
    assert(old(candidates)@.take(i as int) =~= old(candidates)@);
    *previous = next;
}

// ---------------------------------------------------------------------------
// Capabilities.
/// The capability record of the process collector.
pub open spec fn process_record(
    name: Seq<char>,
    state: CapabilityState,
    provider: Seq<char>,
    detail: Option<Seq<char>>,
    checked_at_ms: i64,
) -> CapabilityRecord {
    CapabilityRecord {
        collector: "process"@,
        resource: Seq::empty(),
        capability: name,
        state,
        provider,
        detail,
        checked_at_ms,
    }
}

/// One capability of the process collector.
pub fn capability(
    name: &str,
    state: CapabilityState,
    provider: &str,
    detail: Option<&str>,
    checked_at_ms: i64,
) -> (c: CollectorCapability)
    ensures
        capability_record(c) == process_record(
            name@,
            state,
            provider@,
            optional_text(detail),
            checked_at_ms,
        ),
{
    CollectorCapability {
        collector: String::from_str("process"),
        resource: String::new(),
        capability: name.to_owned(),
        state,
        provider: provider.to_owned(),
        detail: owned_detail(detail),
        checked_at_ms,
    }
}

/// The capabilities `sysinfo` always provides: CPU, memory and disk I/O.
pub fn base_capabilities(checked_at_ms: i64) -> (batch: CapabilityBatch)
    ensures
        crate::gpu::records(batch@) == seq![
            process_record("process.cpu"@, CapabilityState::Available, "sysinfo"@, None, checked_at_ms),
            process_record("process.memory"@, CapabilityState::Available, "sysinfo"@, None, checked_at_ms),
            process_record("process.disk_io"@, CapabilityState::Available, "sysinfo"@, None, checked_at_ms),
        ],
{
    let mut batch: CapabilityBatch = Vec::new();
    batch.push(capability("process.cpu", CapabilityState::Available, "sysinfo", None, checked_at_ms));
    batch.push(capability("process.memory", CapabilityState::Available, "sysinfo", None, checked_at_ms));
    batch.push(capability("process.disk_io", CapabilityState::Available, "sysinfo", None, checked_at_ms));
    assert(crate::gpu::records(batch@) =~= seq![
        process_record("process.cpu"@, CapabilityState::Available, "sysinfo"@, None, checked_at_ms),
        process_record("process.memory"@, CapabilityState::Available, "sysinfo"@, None, checked_at_ms),
        process_record("process.disk_io"@, CapabilityState::Available, "sysinfo"@, None, checked_at_ms),
    ]);
    batch
}

/// The network capability: available when `nettop` answered, degraded with
/// its error when it failed, unavailable when turned off.
pub open spec fn network_record(enabled: bool, failure: Option<Seq<char>>, checked_at_ms: i64) -> CapabilityRecord {
    if !enabled {
        process_record(
            "process.network_io"@,
            CapabilityState::Unavailable,
            "disabled"@,
            Some("process network collection is disabled"@),
            checked_at_ms,
        )
    } else {
        match failure {
            None => process_record(
                "process.network_io"@,
                CapabilityState::Available,
                "macos-nettop"@,
                None,
                checked_at_ms,
            ),
            Some(error) => process_record(
                "process.network_io"@,
                CapabilityState::Degraded,
                "macos-nettop"@,
                Some(error),
                checked_at_ms,
            ),
        }
    }
}

/// The network capability (see `network_record`).
pub fn network_capability(enabled: bool, failure: Option<&str>, checked_at_ms: i64) -> (c:
    CollectorCapability)
    ensures
        capability_record(c) == network_record(enabled, optional_text(failure), checked_at_ms),
{
    if !enabled {
        capability(
            "process.network_io",
            CapabilityState::Unavailable,
            "disabled",
            Some("process network collection is disabled"),
            checked_at_ms,
        )
    } else {
        match failure {
            None => capability(
                "process.network_io",
                CapabilityState::Available,
                "macos-nettop",
                None,
                checked_at_ms,
            ),
            Some(error) => capability(
                "process.network_io",
                CapabilityState::Degraded,
                "macos-nettop",
                Some(error),
                checked_at_ms,
            ),
        }
    }
}

/// The GPU-time capability: available when the helper's snapshot was read,
/// degraded with the reason when it was refused, unavailable when no helper
/// is configured.
pub open spec fn gpu_time_record(configured: bool, failure: Option<Seq<char>>, checked_at_ms: i64) -> CapabilityRecord {
    if !configured {
        process_record(
            "process.gpu_time"@,
            CapabilityState::Unavailable,
            "not-configured"@,
            Some("optional privileged GPU helper is not configured"@),
            checked_at_ms,
        )
    } else {
        match failure {
            None => process_record(
                "process.gpu_time"@,
                CapabilityState::Available,
                "privileged-helper"@,
                None,
                checked_at_ms,
            ),
            Some(error) => process_record(
                "process.gpu_time"@,
                CapabilityState::Degraded,
                "privileged-helper"@,
                Some(error),
                checked_at_ms,
            ),
        }
    }
}

/// The GPU-time capability (see `gpu_time_record`).
pub fn gpu_time_capability(configured: bool, failure: Option<&str>, checked_at_ms: i64) -> (c:
    CollectorCapability)
    ensures
        capability_record(c) == gpu_time_record(configured, optional_text(failure), checked_at_ms),
{
    if !configured {
        capability(
            "process.gpu_time",
            CapabilityState::Unavailable,
            "not-configured",
            Some("optional privileged GPU helper is not configured"),
            checked_at_ms,
        )
    } else {
        match failure {
            None => capability(
                "process.gpu_time",
                CapabilityState::Available,
                "privileged-helper",
                None,
                checked_at_ms,
            ),
            Some(error) => capability(
                "process.gpu_time",
                CapabilityState::Degraded,
                "privileged-helper",
                Some(error),
                checked_at_ms,
            ),
        }
    }
}


// ---------------------------------------------------------------------------
// Ranking.
/// The rankings a snapshot is made of: CPU, memory, disk read, disk write,
/// network receive, network transmit and GPU, in this order.
pub const RANKINGS: usize = 7;

/// `f64::total_cmp` as a position on the number line: patterns without the
/// sign bit grow with their value, patterns with it shrink.
pub open spec fn total_order_key(bits: u64) -> int {
    if bits < SIGN_BIT {
        bits as int
    } else {
        SIGN_BIT - 1 - bits
    }
}

/// The value a candidate is ranked by in ranking `d`, if it has one: CPU
/// usage, memory as a binary64 number, the disk rates, and, when measured,
/// the network rates and GPU usage.
pub open spec fn ranked_value(c: ProcessCandidate, d: int) -> Option<u64> {
    if d == 0 {
        Some(c.cpu_usage_percent_bits)
    } else if d == 1 {
        Some(integer_bits(c.memory_bytes as nat) as u64)
    } else if d == 2 {
        Some(c.disk_read_bytes_per_second_bits)
    } else if d == 3 {
        Some(c.disk_write_bytes_per_second_bits)
    } else if d == 4 {
        c.network_receive_bytes_per_second_bits
    } else if d == 5 {
        c.network_transmit_bytes_per_second_bits
    } else {
        c.gpu_usage_percent_bits
    }
}

/// How many processes ranking `d` keeps.
pub open spec fn ranking_limit(config: ProcessConfig, d: int) -> usize {
    if d == 0 {
        config.top_cpu
    } else if d == 1 {
        config.top_memory
    } else if d <= 3 {
        config.top_disk
    } else if d <= 5 {
        config.top_network
    } else {
        config.top_gpu
    }
}

/// Whether candidate `j` ranks ahead of candidate `i` in ranking `d`: both
/// have a value there, and `j` has the larger one (by `total_order_key`),
/// else the smaller pid, else the earlier start time, else the earlier place
/// in the table.
pub open spec fn ranks_ahead(cs: Seq<ProcessCandidate>, d: int, j: int, i: int) -> bool {
    match (ranked_value(cs[j], d), ranked_value(cs[i], d)) {
        (Some(a), Some(b)) => {
            let ka = total_order_key(a);
            let kb = total_order_key(b);
            ka > kb || (ka == kb && (cs[j].pid < cs[i].pid || (cs[j].pid == cs[i].pid && (
            cs[j].process_start_time_seconds < cs[i].process_start_time_seconds || (
            cs[j].process_start_time_seconds == cs[i].process_start_time_seconds && j < i)))))
        },
        _ => false,
    }
}

/// How many of the first `n` candidates rank ahead of candidate `i` in
/// ranking `d`.
pub open spec fn ahead_count(cs: Seq<ProcessCandidate>, d: int, i: int, n: int) -> nat
    decreases n,
{
    if n <= 0 {
        0
    } else {
        ahead_count(cs, d, i, n - 1) + if ranks_ahead(cs, d, n - 1, i) {
            1nat
        } else {
            0nat
        }
    }
}

/// The rank of candidate `i` in ranking `d`, if that ranking keeps it: it
/// has a value there and fewer candidates than the limit rank ahead of it.
/// Ranks count from 1 and saturate at `u32::MAX`.
pub open spec fn rank_in(cs: Seq<ProcessCandidate>, config: ProcessConfig, d: int, i: int) -> Option<
    u32,
> {
    let ahead = ahead_count(cs, d, i, cs.len() as int);
    if ranked_value(cs[i], d) is Some && ahead < ranking_limit(config, d) {
        Some(
            if ahead + 1 > u32::MAX {
                u32::MAX
            } else {
                (ahead + 1) as u32
            },
        )
    } else {
        None
    }
}

/// Whether one of the first `k` rankings keeps candidate `i`.
pub open spec fn kept_by(cs: Seq<ProcessCandidate>, config: ProcessConfig, i: int, k: int) -> bool
    decreases k,
{
    if k <= 0 {
        false
    } else {
        kept_by(cs, config, i, k - 1) || rank_in(cs, config, k - 1, i) is Some
    }
}

/// The best rank of candidate `i` in the first `k` rankings (`u32::MAX`
/// when none keeps it).
pub open spec fn best_of(cs: Seq<ProcessCandidate>, config: ProcessConfig, i: int, k: int) -> u32
    decreases k,
{
    if k <= 0 {
        u32::MAX
    } else {
        let earlier = best_of(cs, config, i, k - 1);
        match rank_in(cs, config, k - 1, i) {
            Some(r) => if r < earlier {
                r
            } else {
                earlier
            },
            None => earlier,
        }
    }
}

/// Whether some ranking keeps candidate `i`.
pub open spec fn is_kept(cs: Seq<ProcessCandidate>, config: ProcessConfig, i: int) -> bool {
    kept_by(cs, config, i, RANKINGS as int)
}

/// The best rank of candidate `i` over all rankings.
pub open spec fn best_rank(cs: Seq<ProcessCandidate>, config: ProcessConfig, i: int) -> u32 {
    best_of(cs, config, i, RANKINGS as int)
}

/// Whether kept candidate `i` is listed before kept candidate `j`: a better
/// best rank, else the smaller pid, else the earlier start time.
pub open spec fn listed_before(cs: Seq<ProcessCandidate>, config: ProcessConfig, i: int, j: int) -> bool {
    let bi = best_rank(cs, config, i);
    let bj = best_rank(cs, config, j);
    bi < bj || (bi == bj && (cs[i].pid < cs[j].pid || (cs[i].pid == cs[j].pid
        && cs[i].process_start_time_seconds < cs[j].process_start_time_seconds)))
}

/// Whether `order` lists a snapshot of the candidates: kept candidates only,
/// each listed before the next, at most `max_snapshot_processes` of them,
/// and a kept candidate is left out only when the snapshot is full and it
/// comes after every listed one.
pub open spec fn is_snapshot_order(cs: Seq<ProcessCandidate>, config: ProcessConfig, order: Seq<int>) -> bool {
    &&& order.len() <= config.max_snapshot_processes
    &&& forall|k: int|
        0 <= k < order.len() ==> 0 <= #[trigger] order[k] < cs.len() && is_kept(cs, config, order[k])
    &&& forall|k1: int, k2: int|
        0 <= k1 < k2 < order.len() ==> listed_before(cs, config, #[trigger] order[k1], #[trigger] order[k2])
    &&& forall|i: int|
        0 <= i < cs.len() && #[trigger] is_kept(cs, config, i) && (forall|k: int| 0 <= k < order.len() ==> order[k] != i)
            ==> order.len() == config.max_snapshot_processes && (forall|k: int|
            0 <= k < order.len() ==> listed_before(cs, config, #[trigger] order[k], i))
}

/// The sample a snapshot holds for candidate `i`: its measurements, its
/// executable path only when configured, and its rank in each ranking that
/// keeps it.
pub open spec fn sample_of(
    cs: Seq<ProcessCandidate>,
    config: ProcessConfig,
    i: int,
    collected_at_ms: i64,
) -> ProcessSample {
    let c = cs[i];
    ProcessSample {
        collected_at_ms,
        pid: c.pid,
        process_start_time_seconds: c.process_start_time_seconds,
        parent_pid: c.parent_pid,
        name: c.name,
        executable_path: if config.include_executable_path {
            c.executable_path
        } else {
            None
        },
        cpu_usage_percent_bits: c.cpu_usage_percent_bits,
        memory_bytes: c.memory_bytes,
        disk_read_bytes: c.disk_read_bytes,
        disk_write_bytes: c.disk_write_bytes,
        disk_read_bytes_per_second_bits: c.disk_read_bytes_per_second_bits,
        disk_write_bytes_per_second_bits: c.disk_write_bytes_per_second_bits,
        network_receive_bytes: c.network_receive_bytes,
        network_transmit_bytes: c.network_transmit_bytes,
        network_receive_bytes_per_second_bits: c.network_receive_bytes_per_second_bits,
        network_transmit_bytes_per_second_bits: c.network_transmit_bytes_per_second_bits,
        gpu_time_ns: c.gpu_time_ns,
        gpu_usage_percent_bits: c.gpu_usage_percent_bits,
        cpu_rank: rank_in(cs, config, 0, i),
        memory_rank: rank_in(cs, config, 1, i),
        disk_read_rank: rank_in(cs, config, 2, i),
        disk_write_rank: rank_in(cs, config, 3, i),
        network_receive_rank: rank_in(cs, config, 4, i),
        network_transmit_rank: rank_in(cs, config, 5, i),
        gpu_rank: rank_in(cs, config, 6, i),
    }
}

/// No two candidates share a pid and a start time, as in a process table.
pub open spec fn identities_distinct(cs: Seq<ProcessCandidate>) -> bool {
    forall|i: int, j: int|
        0 <= i < j < cs.len() ==> (#[trigger] cs[i]).pid != (#[trigger] cs[j]).pid
            || cs[i].process_start_time_seconds != cs[j].process_start_time_seconds
}

fn order_key(bits: u64) -> (k: i128)
    ensures
        k == total_order_key(bits),
{
    if bits < SIGN_BIT {
        bits as i128
    } else {
        (SIGN_BIT as i128) - 1 - (bits as i128)
    }
}

fn value_key(c: &ProcessCandidate, d: usize) -> (k: Option<i128>)
    requires
        d < RANKINGS,
    ensures
        k == match ranked_value(*c, d as int) {
            Some(b) => Some(total_order_key(b) as i128),
            None => None,
        },
{
    let value = if d == 0 {
        Some(c.cpu_usage_percent_bits)
    } else if d == 1 {
        Some(integer_value_bits(c.memory_bytes))
    } else if d == 2 {
        Some(c.disk_read_bytes_per_second_bits)
    } else if d == 3 {
        Some(c.disk_write_bytes_per_second_bits)
    } else if d == 4 {
        c.network_receive_bytes_per_second_bits
    } else if d == 5 {
        c.network_transmit_bytes_per_second_bits
    } else {
        c.gpu_usage_percent_bits
    };
    match value {
        Some(b) => Some(order_key(b)),
        None => None,
    }
}

fn limit_of(config: &ProcessConfig, d: usize) -> (limit: usize)
    ensures
        limit == ranking_limit(*config, d as int),
{
    if d == 0 {
        config.top_cpu
    } else if d == 1 {
        config.top_memory
    } else if d <= 3 {
        config.top_disk
    } else if d <= 5 {
        config.top_network
    } else {
        config.top_gpu
    }
}

fn ranking(cs: &Vec<ProcessCandidate>, config: &ProcessConfig, d: usize) -> (ranks: Vec<Option<u32>>)
    requires
        d < RANKINGS,
    ensures
        ranks@.len() == cs@.len(),
        forall|i: int| 0 <= i < cs@.len() ==> #[trigger] ranks@[i] == rank_in(cs@, *config, d as int, i),
{
    let n = cs.len();
    let mut keys: Vec<Option<i128>> = Vec::new();
    let mut i: usize = 0;
    while i < n
        invariant
            i <= n == cs@.len(),
            d < RANKINGS,
            keys@.len() == i,
            forall|j: int|
                0 <= j < i ==> #[trigger] keys@[j] == match ranked_value(cs@[j], d as int) {
                    Some(b) => Some(total_order_key(b) as i128),
                    None => None,
                },
        decreases n - i,
    {
        keys.push(value_key(&cs[i], d));
        i = i + 1;
    }
    let limit = limit_of(config, d);
    let mut ranks: Vec<Option<u32>> = Vec::new();
    let mut i: usize = 0;
    while i < n
        invariant
            i <= n == cs@.len(),
            keys@.len() == n,
            limit == ranking_limit(*config, d as int),
            forall|j: int|
                0 <= j < n ==> #[trigger] keys@[j] == match ranked_value(cs@[j], d as int) {
                    Some(b) => Some(total_order_key(b) as i128),
                    None => None,
                },
            ranks@.len() == i,
            forall|j: int| 0 <= j < i ==> #[trigger] ranks@[j] == rank_in(cs@, *config, d as int, j),
        decreases n - i,
    {
        let mut ahead: usize = 0;
        let mut j: usize = 0;
        while j < n
            invariant
                i < n == cs@.len(),
                j <= n,
                keys@.len() == n,
                forall|x: int|
                    0 <= x < n ==> #[trigger] keys@[x] == match ranked_value(cs@[x], d as int) {
                        Some(b) => Some(total_order_key(b) as i128),
                        None => None,
                    },
                ahead == ahead_count(cs@, d as int, i as int, j as int),
                ahead <= j,
            decreases n - j,
        {
            let before = match (keys[j], keys[i]) {
                (Some(a), Some(b)) => a > b || (a == b && (cs[j].pid < cs[i].pid || (cs[j].pid
                    == cs[i].pid && (cs[j].process_start_time_seconds
                    < cs[i].process_start_time_seconds || (cs[j].process_start_time_seconds
                    == cs[i].process_start_time_seconds && j < i))))),
                _ => false,
            };
            assert(before == ranks_ahead(cs@, d as int, j as int, i as int));
            if before {
                ahead = ahead + 1;
            }
            j = j + 1;
        }
        let rank = if keys[i].is_some() && ahead < limit {
            Some(
                if ahead >= 0xffff_ffff {
                    u32::MAX
                } else {
                    (ahead + 1) as u32
                },
            )
        } else {
            None
        };
        ranks.push(rank);
        i = i + 1;
    }
    ranks
}

fn listed_in(order: &Vec<usize>, i: usize) -> (r: bool)
    ensures
        r == exists|k: int| 0 <= k < order@.len() && order@[k] == i,
{
    let mut k: usize = 0;
    while k < order.len()
        invariant
            k <= order@.len(),
            forall|x: int| 0 <= x < k ==> order@[x] != i,
        decreases order@.len() - k,
    {
        if order[k] == i {
            return true;
        }
        k = k + 1;
    }
    false
}

fn listed_before_exec(cs: &Vec<ProcessCandidate>, best: &Vec<u32>, i: usize, j: usize) -> (r: bool)
    requires
        i < cs@.len(),
        j < cs@.len(),
        best@.len() == cs@.len(),
    ensures
        r == (best@[i as int] < best@[j as int] || (best@[i as int] == best@[j as int] && (
        cs@[i as int].pid < cs@[j as int].pid || (cs@[i as int].pid == cs@[j as int].pid
            && cs@[i as int].process_start_time_seconds
            < cs@[j as int].process_start_time_seconds)))),
{
    best[i] < best[j] || (best[i] == best[j] && (cs[i].pid < cs[j].pid || (cs[i].pid == cs[j].pid
        && cs[i].process_start_time_seconds < cs[j].process_start_time_seconds)))
}

/// Which processes a snapshot keeps: each ranking keeps its top entries
/// (CPU, memory and the two disk rates always, network and GPU among the
/// processes that have those measurements), the snapshot holds the union,
/// listed by best rank, then pid, then start time, and cut at
/// `max_snapshot_processes` (see `is_snapshot_order` and `sample_of`).
/// The candidates come from a process table, so no identity repeats.
pub fn rank_candidates(
    candidates: &Vec<ProcessCandidate>,
    config: &ProcessConfig,
    collected_at_ms: i64,
) -> (snapshot: ProcessSnapshot)
    requires
        identities_distinct(candidates@),
    ensures
        exists|order: Seq<int>|
            is_snapshot_order(candidates@, *config, order) && snapshot@.len() == order.len() && (
            forall|k: int|
                0 <= k < order.len() ==> #[trigger] snapshot@[k] == sample_of(
                    candidates@,
                    *config,
                    order[k],
                    collected_at_ms,
                )),
{
    let ghost cs = candidates@;
    let n = candidates.len();
    let mut ranks: Vec<Vec<Option<u32>>> = Vec::new();
    let mut d: usize = 0;
    while d < RANKINGS
        invariant
            d <= RANKINGS,
            cs == candidates@,
            n == cs.len(),
            ranks@.len() == d,
            forall|x: int|
                0 <= x < d ==> (#[trigger] ranks@[x])@.len() == n && forall|i: int|
                    0 <= i < n ==> #[trigger] ranks@[x]@[i] == rank_in(cs, *config, x, i),
        decreases RANKINGS - d,
    {
        ranks.push(ranking(candidates, config, d));
        d = d + 1;
    }
    let mut kept: Vec<bool> = Vec::new();
    let mut best: Vec<u32> = Vec::new();
    let mut i: usize = 0;
    while i < n
        invariant
            i <= n == cs.len(),
            cs == candidates@,
            ranks@.len() == RANKINGS,
            forall|x: int|
                0 <= x < RANKINGS ==> (#[trigger] ranks@[x])@.len() == n && forall|y: int|
                    0 <= y < n ==> #[trigger] ranks@[x]@[y] == rank_in(cs, *config, x, y),
            kept@.len() == i,
            best@.len() == i,
            forall|y: int| 0 <= y < i ==> #[trigger] kept@[y] == is_kept(cs, *config, y),
            forall|y: int| 0 <= y < i ==> #[trigger] best@[y] == best_rank(cs, *config, y),
        decreases n - i,
    {
        let mut is_in = false;
        let mut top: u32 = u32::MAX;
        let mut x: usize = 0;
        while x < RANKINGS
            invariant
                x <= RANKINGS,
                i < n == cs.len(),
                ranks@.len() == RANKINGS,
                forall|z: int|
                    0 <= z < RANKINGS ==> (#[trigger] ranks@[z])@.len() == n && forall|y: int|
                        0 <= y < n ==> #[trigger] ranks@[z]@[y] == rank_in(cs, *config, z, y),
                is_in == kept_by(cs, *config, i as int, x as int),
                top == best_of(cs, *config, i as int, x as int),
            decreases RANKINGS - x,
        {
            assert(ranks@[x as int]@[i as int] == rank_in(cs, *config, x as int, i as int));
            match ranks[x][i] {
                Some(r) => {
                    is_in = true;
                    if r < top {
                        top = r;
                    }
                },
                None => {},
            }
            x = x + 1;
        }
        kept.push(is_in);
        best.push(top);
        i = i + 1;
    }
    let max = config.max_snapshot_processes;
    let mut order: Vec<usize> = Vec::new();
    let mut done = false;
    while !done && order.len() < max
        invariant
            cs == candidates@,
            n == cs.len(),
            identities_distinct(cs),
            kept@.len() == n,
            best@.len() == n,
            max == config.max_snapshot_processes,
            forall|y: int| 0 <= y < n ==> #[trigger] kept@[y] == is_kept(cs, *config, y),
            forall|y: int| 0 <= y < n ==> #[trigger] best@[y] == best_rank(cs, *config, y),
            order@.len() <= max,
            forall|k: int| 0 <= k < order@.len() ==> (#[trigger] order@[k]) < n && kept@[order@[k] as int],
            forall|k1: int, k2: int|
                0 <= k1 < k2 < order@.len() ==> listed_before(
                    cs,
                    *config,
                    #[trigger] order@[k1] as int,
                    #[trigger] order@[k2] as int,
                ),
            forall|y: int|
                0 <= y < n && #[trigger] kept@[y] && (forall|k: int| 0 <= k < order@.len() ==> order@[k] != y)
                    ==> !done && forall|k: int|
                    0 <= k < order@.len() ==> listed_before(cs, *config, #[trigger] order@[k] as int, y),
        decreases max - order@.len(), if done {
            0int
        } else {
            1int
        },
    {
        let mut pick: Option<usize> = None;
        let mut y: usize = 0;
        while y < n
            invariant
                y <= n == cs.len(),
                cs == candidates@,
                identities_distinct(cs),
                kept@.len() == n,
                best@.len() == n,
                forall|z: int| 0 <= z < n ==> #[trigger] best@[z] == best_rank(cs, *config, z),
                pick matches Some(p) ==> p < n && kept@[p as int] && (forall|k: int|
                    0 <= k < order@.len() ==> order@[k] != p) && forall|z: int|
                    0 <= z < y && kept@[z] && z != p && (forall|k: int|
                        0 <= k < order@.len() ==> order@[k] != z) ==> listed_before(
                        cs,
                        *config,
                        p as int,
                        z,
                    ),
                pick is None ==> forall|z: int|
                    0 <= z < y && #[trigger] kept@[z] ==> exists|k: int|
                        0 <= k < order@.len() && order@[k] == z,
            decreases n - y,
        {
            if kept[y] && !listed_in(&order, y) {
                match pick {
                    None => {
                        pick = Some(y);
                    },
                    Some(p) => {
                        if listed_before_exec(candidates, &best, y, p) {
                            pick = Some(y);
                        }
                    },
                }
            }
            y = y + 1;
        }
        match pick {
            None => {
                proof {
                    assert forall|z: int|
                        0 <= z < n && #[trigger] kept@[z] && (forall|k: int|
                            0 <= k < order@.len() ==> order@[k] != z) implies false by {
                        let k = choose|k: int| 0 <= k < order@.len() && order@[k] == z;
                        assert(order@[k] != z);
                    }
                }
                done = true;
            },
            Some(p) => {
                let ghost before = order@;
                order.push(p);
                proof {
                    assert forall|z: int|
                        0 <= z < n && #[trigger] kept@[z] && (forall|k: int|
                            0 <= k < order@.len() ==> order@[k] != z) implies forall|k: int|
                        0 <= k < order@.len() ==> listed_before(
                            cs,
                            *config,
                            #[trigger] order@[k] as int,
                            z,
                        ) by {
                        assert(order@[before.len() as int] == p);
                        assert(z != p);
                        assert forall|k: int| 0 <= k < before.len() implies before[k] != z by {
                            assert(order@[k] == before[k]);
                        }
                        assert forall|k: int| 0 <= k < order@.len() implies listed_before(
                            cs,
                            *config,
                            #[trigger] order@[k] as int,
                            z,
                        ) by {
                            if k < before.len() {
                                assert(order@[k] == before[k]);
                            }
                        }
                    }
                    assert forall|k1: int, k2: int|
                        0 <= k1 < k2 < order@.len() implies listed_before(
                            cs,
                            *config,
                            #[trigger] order@[k1] as int,
                            #[trigger] order@[k2] as int,
                        ) by {
                        assert(order@[k1] == before[k1]);
                        if k2 < before.len() {
                            assert(order@[k2] == before[k2]);
                        } else {
                            assert forall|k: int| 0 <= k < before.len() implies before[k] != p by {}
                        }
                    }
                }
            },
        }
    }
    let mut snapshot: ProcessSnapshot = Vec::new();
    let mut k: usize = 0;
    while k < order.len()
        invariant
            k <= order@.len(),
            cs == candidates@,
            forall|j: int| 0 <= j < order@.len() ==> (#[trigger] order@[j]) < cs.len(),
            ranks@.len() == RANKINGS,
            forall|z: int|
                0 <= z < RANKINGS ==> (#[trigger] ranks@[z])@.len() == n && forall|y: int|
                    0 <= y < n ==> #[trigger] ranks@[z]@[y] == rank_in(cs, *config, z, y),
            n == cs.len(),
            snapshot@.len() == k,
            forall|j: int|
                0 <= j < k ==> #[trigger] snapshot@[j] == sample_of(
                    cs,
                    *config,
                    order@[j] as int,
                    collected_at_ms,
                ),
        decreases order@.len() - k,
    {
        let i = order[k];
        let c = &candidates[i];
        proof {
            assert(ranks@[0]@[i as int] == rank_in(cs, *config, 0, i as int));
            assert(ranks@[1]@[i as int] == rank_in(cs, *config, 1, i as int));
            assert(ranks@[2]@[i as int] == rank_in(cs, *config, 2, i as int));
            assert(ranks@[3]@[i as int] == rank_in(cs, *config, 3, i as int));
            assert(ranks@[4]@[i as int] == rank_in(cs, *config, 4, i as int));
            assert(ranks@[5]@[i as int] == rank_in(cs, *config, 5, i as int));
            assert(ranks@[6]@[i as int] == rank_in(cs, *config, 6, i as int));
        }
        snapshot.push(
            ProcessSample {
                collected_at_ms,
                pid: c.pid,
                process_start_time_seconds: c.process_start_time_seconds,
                parent_pid: c.parent_pid,
                name: c.name.clone(),
                executable_path: if config.include_executable_path {
                    crate::model::copy_optional_string(&c.executable_path)
                } else {
                    None
                },
                cpu_usage_percent_bits: c.cpu_usage_percent_bits,
                memory_bytes: c.memory_bytes,
                disk_read_bytes: c.disk_read_bytes,
                disk_write_bytes: c.disk_write_bytes,
                disk_read_bytes_per_second_bits: c.disk_read_bytes_per_second_bits,
                disk_write_bytes_per_second_bits: c.disk_write_bytes_per_second_bits,
                network_receive_bytes: c.network_receive_bytes,
                network_transmit_bytes: c.network_transmit_bytes,
                network_receive_bytes_per_second_bits: c.network_receive_bytes_per_second_bits,
                network_transmit_bytes_per_second_bits: c.network_transmit_bytes_per_second_bits,
                gpu_time_ns: c.gpu_time_ns,
                gpu_usage_percent_bits: c.gpu_usage_percent_bits,
                cpu_rank: ranks[0][i],
                memory_rank: ranks[1][i],
                disk_read_rank: ranks[2][i],
                disk_write_rank: ranks[3][i],
                network_receive_rank: ranks[4][i],
                network_transmit_rank: ranks[5][i],
                gpu_rank: ranks[6][i],
            },
        );
        k = k + 1;
    }
    let ghost order_int = order@.map_values(|x: usize| x as int);
    proof {
        assert forall|k: int| 0 <= k < order_int.len() implies order_int[k] == order@[k] as int by {}
        assert forall|i: int|
            0 <= i < cs.len() && #[trigger] is_kept(cs, *config, i) && (forall|k: int|
                0 <= k < order_int.len() ==> order_int[k] != i) implies order_int.len()
            == config.max_snapshot_processes && (forall|k: int|
            0 <= k < order_int.len() ==> listed_before(cs, *config, #[trigger] order_int[k], i)) by {
            assert(kept@[i]);
            assert forall|k: int| 0 <= k < order@.len() implies order@[k] != i by {
                assert(order_int[k] != i);
            }
        }
        assert forall|k1: int, k2: int| 0 <= k1 < k2 < order_int.len() implies listed_before(
            cs,
            *config,
            #[trigger] order_int[k1],
            #[trigger] order_int[k2],
        ) by {
            assert(order_int[k1] == order@[k1] as int);
            assert(order_int[k2] == order@[k2] as int);
        }
        assert forall|k: int| 0 <= k < order_int.len() implies 0 <= #[trigger] order_int[k] < cs.len()
            && is_kept(cs, *config, order_int[k]) by {
            assert(order_int[k] == order@[k] as int);
            assert(kept@[order@[k] as int]);
        }
    }
    assert(is_snapshot_order(cs, *config, order_int));
    snapshot
}


/// Two different kept candidates are always listed one before the other.
proof fn lemma_listing_is_strict(cs: Seq<ProcessCandidate>, config: ProcessConfig, a: int, b: int)
    requires
        identities_distinct(cs),
        0 <= a < cs.len(),
        0 <= b < cs.len(),
    ensures
        !listed_before(cs, config, a, a),
        listed_before(cs, config, a, b) ==> !listed_before(cs, config, b, a),
        a != b ==> listed_before(cs, config, a, b) || listed_before(cs, config, b, a),
{
    if a < b {
        assert(cs[a].pid != cs[b].pid || cs[a].process_start_time_seconds
            != cs[b].process_start_time_seconds);
    } else if b < a {
        assert(cs[b].pid != cs[a].pid || cs[b].process_start_time_seconds
            != cs[a].process_start_time_seconds);
    }
}

/// A snapshot order is unique: the contract of `rank_candidates` fixes the
/// snapshot.
pub proof fn lemma_snapshot_order_is_unique(
    cs: Seq<ProcessCandidate>,
    config: ProcessConfig,
    first: Seq<int>,
    second: Seq<int>,
)
    requires
        identities_distinct(cs),
        is_snapshot_order(cs, config, first),
        is_snapshot_order(cs, config, second),
    ensures
        first == second,
{
    let shorter = if first.len() < second.len() {
        first.len()
    } else {
        second.len()
    };
    lemma_prefixes_agree(cs, config, first, second, shorter as int);
    if first.len() < second.len() {
        lemma_orders_have_one_length(cs, config, first, second);
    } else if second.len() < first.len() {
        lemma_orders_have_one_length(cs, config, second, first);
    }
    assert(first =~= second);
}

proof fn lemma_prefixes_agree(
    cs: Seq<ProcessCandidate>,
    config: ProcessConfig,
    first: Seq<int>,
    second: Seq<int>,
    k: int,
)
    requires
        identities_distinct(cs),
        is_snapshot_order(cs, config, first),
        is_snapshot_order(cs, config, second),
        0 <= k <= first.len(),
        k <= second.len(),
    ensures
        forall|m: int| 0 <= m < k ==> first[m] == second[m],
    decreases k,
{
    if k > 0 {
        lemma_prefixes_agree(cs, config, first, second, k - 1);
        lemma_same_entry(cs, config, first, second, k - 1);
        lemma_same_entry(cs, config, second, first, k - 1);
        let a = first[k - 1];
        let b = second[k - 1];
        lemma_listing_is_strict(cs, config, a, b);
    }
}

proof fn lemma_same_entry(
    cs: Seq<ProcessCandidate>,
    config: ProcessConfig,
    first: Seq<int>,
    second: Seq<int>,
    k: int,
)
    requires
        identities_distinct(cs),
        is_snapshot_order(cs, config, first),
        is_snapshot_order(cs, config, second),
        0 <= k < first.len(),
        k < second.len(),
        forall|m: int| 0 <= m < k ==> first[m] == second[m],
    ensures
        !listed_before(cs, config, first[k], second[k]),
{
    let a = first[k];
    let b = second[k];
    assert(0 <= a < cs.len() && is_kept(cs, config, a));
    assert(0 <= b < cs.len() && is_kept(cs, config, b));
    if listed_before(cs, config, a, b) {
        lemma_listing_is_strict(cs, config, a, b);
        if exists|j: int| 0 <= j < second.len() && second[j] == a {
            let j = choose|j: int| 0 <= j < second.len() && second[j] == a;
            if j < k {
                assert(first[j] == a);
                assert(listed_before(cs, config, first[j], first[k]));
                lemma_listing_is_strict(cs, config, a, a);
            } else if j > k {
                assert(listed_before(cs, config, second[k], second[j]));
            }
        } else {
            assert(forall|j: int| 0 <= j < second.len() ==> second[j] != a);
            assert(listed_before(cs, config, second[k], a));
        }
    }
}

proof fn lemma_orders_have_one_length(
    cs: Seq<ProcessCandidate>,
    config: ProcessConfig,
    short: Seq<int>,
    long: Seq<int>,
)
    requires
        identities_distinct(cs),
        is_snapshot_order(cs, config, short),
        is_snapshot_order(cs, config, long),
        short.len() <= long.len(),
        forall|m: int| 0 <= m < short.len() ==> short[m] == long[m],
    ensures
        short.len() == long.len(),
{
    if short.len() == long.len() {
        return;
    }
    let b = long[short.len() as int];
    assert(0 <= b < cs.len() && is_kept(cs, config, b));
    if exists|j: int| 0 <= j < short.len() && short[j] == b {
        let j = choose|j: int| 0 <= j < short.len() && short[j] == b;
        assert(long[j] == b);
        assert(listed_before(cs, config, long[j], long[short.len() as int]));
        lemma_listing_is_strict(cs, config, b, b);
    } else {
        assert(forall|j: int| 0 <= j < short.len() ==> short[j] != b);
    }
}

/// Without a previous total for the same process instance, a candidate gets
/// no network delta: a reused pid never inherits another process's counters.
pub proof fn lemma_new_instances_get_no_network_delta(
    c: ProcessCandidate,
    totals: Map<u32, NetworkTotals>,
    previous: Seq<NetworkEntry>,
)
    requires
        previous_network(previous, c.pid, c.process_start_time_seconds) is None,
    ensures
        with_network(c, totals, previous) == c,
{
}

/// A network delta never exceeds the current total, so a counter reset
/// cannot produce a huge delta.
pub proof fn lemma_network_deltas_are_bounded(
    c: ProcessCandidate,
    totals: Map<u32, NetworkTotals>,
    previous: Seq<NetworkEntry>,
)
    requires
        c.network_receive_bytes is None,
        c.network_transmit_bytes is None,
    ensures
        with_network(c, totals, previous).network_receive_bytes matches Some(d) ==> totals.contains_key(
            c.pid,
        ) && d <= totals[c.pid].received,
        with_network(c, totals, previous).network_transmit_bytes matches Some(d)
            ==> totals.contains_key(c.pid) && d <= totals[c.pid].transmitted,
{
}

/// A GPU-time delta never exceeds the helper's current total.
pub proof fn lemma_gpu_deltas_are_bounded(
    c: ProcessCandidate,
    totals: Map<u32, u64>,
    previous: Seq<GpuEntry>,
)
    requires
        c.gpu_time_ns is None,
    ensures
        with_gpu(c, totals, previous).gpu_time_ns matches Some(d) ==> totals.contains_key(c.pid) && d
            <= totals[c.pid],
{
}


// ---------------------------------------------------------------------------
// The GPU helper's snapshot.
/// The largest snapshot file the collector reads.
pub const MAX_GPU_SNAPSHOT_BYTES: u64 = 1_048_576;

/// Why a snapshot file is refused, if it is: it must be a regular file of at
/// most 1 MiB, owned by root and writable by neither group nor others.
pub open spec fn snapshot_file_problem(is_file: bool, len: u64, owner_uid: u32, mode: u32) -> Option<
    Seq<char>,
> {
    if !is_file || len > MAX_GPU_SNAPSHOT_BYTES {
        Some("GPU snapshot must be a regular file no larger than 1 MiB"@)
    } else if owner_uid != 0 || mode & 0o022 != 0 {
        Some("GPU snapshot must be root-owned and not group/world writable"@)
    } else {
        None
    }
}

/// Why a snapshot file is refused, if it is (see `snapshot_file_problem`).
pub fn check_snapshot_file(is_file: bool, len: u64, owner_uid: u32, mode: u32) -> (problem: Option<
    &'static str,
>)
    ensures
        optional_text(problem) == snapshot_file_problem(is_file, len, owner_uid, mode),
{
    if !is_file || len > MAX_GPU_SNAPSHOT_BYTES {
        Some("GPU snapshot must be a regular file no larger than 1 MiB")
    } else if owner_uid != 0 || mode & 0o022 != 0 {
        Some("GPU snapshot must be root-owned and not group/world writable")
    } else {
        None
    }
}

/// Whether a snapshot taken at `collected_at_ms` may be used at `now_ms`:
/// at most five seconds ahead of now (clock skew) and at most
/// `max_age_seconds` old (saturating arithmetic).
pub open spec fn snapshot_is_current(collected_at_ms: i64, now_ms: i64, max_age_seconds: u64) -> bool {
    !(collected_at_ms > crate::anomaly::clamp_i64(now_ms + 5_000) || crate::anomaly::elapsed_ms(
        now_ms,
        collected_at_ms,
    ) > crate::anomaly::seconds_to_ms(max_age_seconds))
}

/// Whether a snapshot may be used (see `snapshot_is_current`).
pub fn gpu_snapshot_is_current(collected_at_ms: i64, now_ms: i64, max_age_seconds: u64) -> (current:
    bool)
    ensures
        current == snapshot_is_current(collected_at_ms, now_ms, max_age_seconds),
{
    let latest = if now_ms > i64::MAX - 5_000 {
        i64::MAX
    } else {
        now_ms + 5_000
    };
    let age = now_ms as i128 - collected_at_ms as i128;
    let age = if age > i64::MAX as i128 {
        i64::MAX
    } else if age < i64::MIN as i128 {
        i64::MIN
    } else {
        age as i64
    };
    !(collected_at_ms > latest || age > crate::anomaly::seconds_ms(max_age_seconds))
}


proof fn lemma_ranks_ahead_order(cs: Seq<ProcessCandidate>, d: int, a: int, b: int, c: int)
    ensures
        !ranks_ahead(cs, d, a, a),
        ranks_ahead(cs, d, a, b) && ranks_ahead(cs, d, b, c) ==> ranks_ahead(cs, d, a, c),
{
}

proof fn lemma_ahead_count_grows(cs: Seq<ProcessCandidate>, d: int, j: int, i: int, n: int)
    requires
        ranks_ahead(cs, d, j, i),
    ensures
        ahead_count(cs, d, j, n) + (if 0 <= j < n { 1nat } else { 0nat }) <= ahead_count(cs, d, i, n),
    decreases n,
{
    if n > 0 {
        lemma_ahead_count_grows(cs, d, j, i, n - 1);
        lemma_ranks_ahead_order(cs, d, n - 1, j, i);
        lemma_ranks_ahead_order(cs, d, j, j, i);
    }
}

proof fn lemma_nobody_ahead(cs: Seq<ProcessCandidate>, d: int, i: int, n: int)
    requires
        forall|k: int| 0 <= k < n ==> !ranks_ahead(cs, d, k, i),
    ensures
        ahead_count(cs, d, i, n) == 0,
    decreases n,
{
    if n > 0 {
        lemma_nobody_ahead(cs, d, i, n - 1);
    }
}

proof fn lemma_higher_value_ranks_better(
    cs: Seq<ProcessCandidate>,
    config: ProcessConfig,
    d: int,
    i: int,
    j: int,
)
    requires
        0 <= i < cs.len(),
        0 <= j < cs.len(),
    ensures
        (ranked_value(cs[i], d) is Some && ranked_value(cs[j], d) is Some && total_order_key(
            ranked_value(cs[j], d)->0,
        ) > total_order_key(ranked_value(cs[i], d)->0) && rank_in(cs, config, d, i) is Some) ==> (
        rank_in(cs, config, d, j) matches Some(r) && r <= rank_in(cs, config, d, i)->0 && (rank_in(
            cs,
            config,
            d,
            i,
        )->0 < u32::MAX ==> r < rank_in(cs, config, d, i)->0)),
{
    if ranked_value(cs[i], d) is Some && ranked_value(cs[j], d) is Some && total_order_key(
        ranked_value(cs[j], d)->0,
    ) > total_order_key(ranked_value(cs[i], d)->0) {
        lemma_ahead_count_grows(cs, d, j, i, cs.len() as int);
    }
}

proof fn lemma_unique_top_ranks_first(cs: Seq<ProcessCandidate>, config: ProcessConfig, d: int, i: int)
    requires
        0 <= i < cs.len(),
    ensures
        (ranking_limit(config, d) >= 1 && ranked_value(cs[i], d) is Some && (forall|k: int|
            0 <= k < cs.len() && k != i && ranked_value(cs[k], d) is Some ==> total_order_key(
                ranked_value(cs[k], d)->0,
            ) < total_order_key(ranked_value(cs[i], d)->0))) ==> rank_in(cs, config, d, i) == Some(
            1u32,
        ),
{
    if ranking_limit(config, d) >= 1 && ranked_value(cs[i], d) is Some && (forall|k: int|
        0 <= k < cs.len() && k != i && ranked_value(cs[k], d) is Some ==> total_order_key(
            ranked_value(cs[k], d)->0,
        ) < total_order_key(ranked_value(cs[i], d)->0)) {
        assert forall|k: int| 0 <= k < cs.len() implies !ranks_ahead(cs, d, k, i) by {
            lemma_ranks_ahead_order(cs, d, i, i, i);
        }
        lemma_nobody_ahead(cs, d, i, cs.len() as int);
    }
}

/// Each ranking orders by its own measurement: a process with a strictly
/// larger CPU usage, memory, disk read rate, disk write rate, network receive
/// or transmit rate, or GPU usage than one that ranking keeps is kept by it
/// too, with a better rank (or the same saturated one).
pub proof fn lemma_rankings_follow_their_measurements(
    cs: Seq<ProcessCandidate>,
    config: ProcessConfig,
    i: int,
    j: int,
    t: i64,
)
    requires
        0 <= i < cs.len(),
        0 <= j < cs.len(),
    ensures
        (sample_of(cs, config, i, t).cpu_rank is Some && total_order_key(cs[j].cpu_usage_percent_bits)
            > total_order_key(cs[i].cpu_usage_percent_bits)) ==> (sample_of(cs, config, j, t).cpu_rank matches Some(r)
            && r <= sample_of(cs, config, i, t).cpu_rank->0 && (sample_of(cs, config, i, t).cpu_rank->0 < u32::MAX ==> r < sample_of(cs, config, i, t).cpu_rank->0)),
        (sample_of(cs, config, i, t).memory_rank is Some && total_order_key(integer_bits(cs[j].memory_bytes as nat) as u64)
            > total_order_key(integer_bits(cs[i].memory_bytes as nat) as u64)) ==> (sample_of(cs, config, j, t).memory_rank matches Some(r)
            && r <= sample_of(cs, config, i, t).memory_rank->0 && (sample_of(cs, config, i, t).memory_rank->0 < u32::MAX ==> r < sample_of(cs, config, i, t).memory_rank->0)),
        (sample_of(cs, config, i, t).disk_read_rank is Some && total_order_key(cs[j].disk_read_bytes_per_second_bits)
            > total_order_key(cs[i].disk_read_bytes_per_second_bits)) ==> (sample_of(cs, config, j, t).disk_read_rank matches Some(r)
            && r <= sample_of(cs, config, i, t).disk_read_rank->0 && (sample_of(cs, config, i, t).disk_read_rank->0 < u32::MAX ==> r < sample_of(cs, config, i, t).disk_read_rank->0)),
        (sample_of(cs, config, i, t).disk_write_rank is Some && total_order_key(cs[j].disk_write_bytes_per_second_bits)
            > total_order_key(cs[i].disk_write_bytes_per_second_bits)) ==> (sample_of(cs, config, j, t).disk_write_rank matches Some(r)
            && r <= sample_of(cs, config, i, t).disk_write_rank->0 && (sample_of(cs, config, i, t).disk_write_rank->0 < u32::MAX ==> r < sample_of(cs, config, i, t).disk_write_rank->0)),
        (cs[i].network_receive_bytes_per_second_bits is Some && cs[j].network_receive_bytes_per_second_bits is Some && sample_of(cs, config, i, t).network_receive_rank is Some && total_order_key(cs[j].network_receive_bytes_per_second_bits->0)
            > total_order_key(cs[i].network_receive_bytes_per_second_bits->0)) ==> (sample_of(cs, config, j, t).network_receive_rank matches Some(r)
            && r <= sample_of(cs, config, i, t).network_receive_rank->0 && (sample_of(cs, config, i, t).network_receive_rank->0 < u32::MAX ==> r < sample_of(cs, config, i, t).network_receive_rank->0)),
        (cs[i].network_transmit_bytes_per_second_bits is Some && cs[j].network_transmit_bytes_per_second_bits is Some && sample_of(cs, config, i, t).network_transmit_rank is Some && total_order_key(cs[j].network_transmit_bytes_per_second_bits->0)
            > total_order_key(cs[i].network_transmit_bytes_per_second_bits->0)) ==> (sample_of(cs, config, j, t).network_transmit_rank matches Some(r)
            && r <= sample_of(cs, config, i, t).network_transmit_rank->0 && (sample_of(cs, config, i, t).network_transmit_rank->0 < u32::MAX ==> r < sample_of(cs, config, i, t).network_transmit_rank->0)),
        (cs[i].gpu_usage_percent_bits is Some && cs[j].gpu_usage_percent_bits is Some && sample_of(cs, config, i, t).gpu_rank is Some && total_order_key(cs[j].gpu_usage_percent_bits->0)
            > total_order_key(cs[i].gpu_usage_percent_bits->0)) ==> (sample_of(cs, config, j, t).gpu_rank matches Some(r)
            && r <= sample_of(cs, config, i, t).gpu_rank->0 && (sample_of(cs, config, i, t).gpu_rank->0 < u32::MAX ==> r < sample_of(cs, config, i, t).gpu_rank->0)),
{
    lemma_higher_value_ranks_better(cs, config, 0, i, j);
    lemma_higher_value_ranks_better(cs, config, 1, i, j);
    lemma_higher_value_ranks_better(cs, config, 2, i, j);
    lemma_higher_value_ranks_better(cs, config, 3, i, j);
    lemma_higher_value_ranks_better(cs, config, 4, i, j);
    lemma_higher_value_ranks_better(cs, config, 5, i, j);
    lemma_higher_value_ranks_better(cs, config, 6, i, j);
}

/// The process with the strictly largest measurement of a ranking comes
/// first in it, whenever that ranking keeps any process at all.
pub proof fn lemma_the_top_process_ranks_first(
    cs: Seq<ProcessCandidate>,
    config: ProcessConfig,
    i: int,
    t: i64,
)
    requires
        0 <= i < cs.len(),
    ensures
        (config.top_cpu >= 1 && (forall|k: int| 0 <= k < cs.len() && k != i ==> (total_order_key(cs[k].cpu_usage_percent_bits)
            < total_order_key(cs[i].cpu_usage_percent_bits)))) ==> sample_of(cs, config, i, t).cpu_rank == Some(1u32),
        (config.top_memory >= 1 && (forall|k: int| 0 <= k < cs.len() && k != i ==> (total_order_key(integer_bits(cs[k].memory_bytes as nat) as u64)
            < total_order_key(integer_bits(cs[i].memory_bytes as nat) as u64)))) ==> sample_of(cs, config, i, t).memory_rank == Some(1u32),
        (config.top_disk >= 1 && (forall|k: int| 0 <= k < cs.len() && k != i ==> (total_order_key(cs[k].disk_read_bytes_per_second_bits)
            < total_order_key(cs[i].disk_read_bytes_per_second_bits)))) ==> sample_of(cs, config, i, t).disk_read_rank == Some(1u32),
        (config.top_disk >= 1 && (forall|k: int| 0 <= k < cs.len() && k != i ==> (total_order_key(cs[k].disk_write_bytes_per_second_bits)
            < total_order_key(cs[i].disk_write_bytes_per_second_bits)))) ==> sample_of(cs, config, i, t).disk_write_rank == Some(1u32),
        (config.top_network >= 1 && cs[i].network_receive_bytes_per_second_bits is Some && (forall|k: int| 0 <= k < cs.len() && k != i ==> (cs[k].network_receive_bytes_per_second_bits is Some ==> total_order_key(cs[k].network_receive_bytes_per_second_bits->0)
            < total_order_key(cs[i].network_receive_bytes_per_second_bits->0)))) ==> sample_of(cs, config, i, t).network_receive_rank == Some(1u32),
        (config.top_network >= 1 && cs[i].network_transmit_bytes_per_second_bits is Some && (forall|k: int| 0 <= k < cs.len() && k != i ==> (cs[k].network_transmit_bytes_per_second_bits is Some ==> total_order_key(cs[k].network_transmit_bytes_per_second_bits->0)
            < total_order_key(cs[i].network_transmit_bytes_per_second_bits->0)))) ==> sample_of(cs, config, i, t).network_transmit_rank == Some(1u32),
        (config.top_gpu >= 1 && cs[i].gpu_usage_percent_bits is Some && (forall|k: int| 0 <= k < cs.len() && k != i ==> (cs[k].gpu_usage_percent_bits is Some ==> total_order_key(cs[k].gpu_usage_percent_bits->0)
            < total_order_key(cs[i].gpu_usage_percent_bits->0)))) ==> sample_of(cs, config, i, t).gpu_rank == Some(1u32),
{
    lemma_unique_top_ranks_first(cs, config, 0, i);
    lemma_unique_top_ranks_first(cs, config, 1, i);
    lemma_unique_top_ranks_first(cs, config, 2, i);
    lemma_unique_top_ranks_first(cs, config, 3, i);
    lemma_unique_top_ranks_first(cs, config, 4, i);
    lemma_unique_top_ranks_first(cs, config, 5, i);
    lemma_unique_top_ranks_first(cs, config, 6, i);
}

/// Each ranking keeps at most its configured number of processes: a rank
/// counts from 1 and never exceeds that ranking's limit (`top_disk` for both
/// disk rankings, `top_network` for both network rankings).
pub proof fn lemma_ranks_stay_within_their_limits(
    cs: Seq<ProcessCandidate>,
    config: ProcessConfig,
    i: int,
    t: i64,
)
    requires
        0 <= i < cs.len(),
    ensures
        sample_of(cs, config, i, t).cpu_rank matches Some(rank) ==> 1 <= rank <= config.top_cpu,
        sample_of(cs, config, i, t).memory_rank matches Some(rank) ==> 1 <= rank <= config.top_memory,
        sample_of(cs, config, i, t).disk_read_rank matches Some(rank) ==> 1 <= rank <= config.top_disk,
        sample_of(cs, config, i, t).disk_write_rank matches Some(rank) ==> 1 <= rank <= config.top_disk,
        sample_of(cs, config, i, t).network_receive_rank matches Some(rank) ==> 1 <= rank <= config.top_network,
        sample_of(cs, config, i, t).network_transmit_rank matches Some(rank) ==> 1 <= rank <= config.top_network,
        sample_of(cs, config, i, t).gpu_rank matches Some(rank) ==> 1 <= rank <= config.top_gpu,
{
}

} // verus!
