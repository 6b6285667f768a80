//! Process attribution and process-data maintenance decisions.
use vstd::prelude::*;

use crate::anomaly::{clamp_i64, elapsed_ms};
use crate::anomaly_storage::{as_integer, u64_to_integer};
use crate::config::ProcessConfig;
use crate::text::str_equal;

verus! {

broadcast use vstd::string::group_string_axioms;

/// One minute in milliseconds.
pub const MINUTE_MS: i64 = 60_000;

/// Fifteen minutes in milliseconds.
pub const QUARTER_HOUR_MS: i64 = 900_000;

/// The ranking a process listing is ordered by.
#[derive(Debug, Clone, Copy, PartialEq, Eq, Structural)]
pub enum ProcessSort {
    Cpu,
    Memory,
    DiskRead,
    DiskWrite,
    NetworkReceive,
    NetworkTransmit,
    Gpu,
}

/// The process ranking that explains a system metric.
#[derive(Debug, Clone, Copy, PartialEq, Eq, Structural)]
pub enum AttributionDimension {
    Cpu,
    Memory,
    DiskRead,
    DiskWrite,
    NetworkReceive,
    NetworkTransmit,
    Gpu,
}

/// The ranking that explains a metric, if any: CPU and memory usage, disk
/// read and write rates, network receive and transmit rates, and the three
/// GPU usage metrics.
pub open spec fn attribution_of(metric_name: Seq<char>) -> Option<AttributionDimension> {
    if metric_name == "cpu.total.usage"@ {
        Some(AttributionDimension::Cpu)
    } else if metric_name == "memory.usage"@ {
        Some(AttributionDimension::Memory)
    } else if metric_name == "disk.io.read.rate"@ {
        Some(AttributionDimension::DiskRead)
    } else if metric_name == "disk.io.write.rate"@ {
        Some(AttributionDimension::DiskWrite)
    } else if metric_name == "network.receive.rate"@ {
        Some(AttributionDimension::NetworkReceive)
    } else if metric_name == "network.transmit.rate"@ {
        Some(AttributionDimension::NetworkTransmit)
    } else if metric_name == "gpu.device.usage"@ || metric_name == "gpu.renderer.usage"@
        || metric_name == "gpu.tiler.usage"@ {
        Some(AttributionDimension::Gpu)
    } else {
        None
    }
}

/// The ranking that explains a metric, if any (see `attribution_of`).
pub fn attribution_dimension(metric_name: &str) -> (d: Option<AttributionDimension>)
    ensures
        d == attribution_of(metric_name@),
{
    if str_equal(metric_name, "cpu.total.usage") {
        Some(AttributionDimension::Cpu)
    } else if str_equal(metric_name, "memory.usage") {
        Some(AttributionDimension::Memory)
    } else if str_equal(metric_name, "disk.io.read.rate") {
        Some(AttributionDimension::DiskRead)
    } else if str_equal(metric_name, "disk.io.write.rate") {
        Some(AttributionDimension::DiskWrite)
    } else if str_equal(metric_name, "network.receive.rate") {
        Some(AttributionDimension::NetworkReceive)
    } else if str_equal(metric_name, "network.transmit.rate") {
        Some(AttributionDimension::NetworkTransmit)
    } else if str_equal(metric_name, "gpu.device.usage") || str_equal(
        metric_name,
        "gpu.renderer.usage",
    ) || str_equal(metric_name, "gpu.tiler.usage") {
        Some(AttributionDimension::Gpu)
    } else {
        None
    }
}

/// The ranking a listing order selects.
pub fn sort_dimension(sort: ProcessSort) -> (d: AttributionDimension)
    ensures
        d == match sort {
            ProcessSort::Cpu => AttributionDimension::Cpu,
            ProcessSort::Memory => AttributionDimension::Memory,
            ProcessSort::DiskRead => AttributionDimension::DiskRead,
            ProcessSort::DiskWrite => AttributionDimension::DiskWrite,
            ProcessSort::NetworkReceive => AttributionDimension::NetworkReceive,
            ProcessSort::NetworkTransmit => AttributionDimension::NetworkTransmit,
            ProcessSort::Gpu => AttributionDimension::Gpu,
        },
{
    match sort {
        ProcessSort::Cpu => AttributionDimension::Cpu,
        ProcessSort::Memory => AttributionDimension::Memory,
        ProcessSort::DiskRead => AttributionDimension::DiskRead,
        ProcessSort::DiskWrite => AttributionDimension::DiskWrite,
        ProcessSort::NetworkReceive => AttributionDimension::NetworkReceive,
        ProcessSort::NetworkTransmit => AttributionDimension::NetworkTransmit,
        ProcessSort::Gpu => AttributionDimension::Gpu,
    }
}

/// The rank column of a ranking.
pub open spec fn rank_column(d: AttributionDimension) -> Seq<char> {
    match d {
        AttributionDimension::Cpu => "cpu_rank"@,
        AttributionDimension::Memory => "memory_rank"@,
        AttributionDimension::DiskRead => "disk_read_rank"@,
        AttributionDimension::DiskWrite => "disk_write_rank"@,
        AttributionDimension::NetworkReceive => "network_receive_rank"@,
        AttributionDimension::NetworkTransmit => "network_transmit_rank"@,
        AttributionDimension::Gpu => "gpu_rank"@,
    }
}

/// The rank column of a ranking and the column its rows are ordered by.
pub fn dimension_sql(d: AttributionDimension) -> (r: (&'static str, &'static str))
    ensures
        r.0@ == rank_column(d),
        r.1@ == rank_column(d),
{
    match d {
        AttributionDimension::Cpu => ("cpu_rank", "cpu_rank"),
        AttributionDimension::Memory => ("memory_rank", "memory_rank"),
        AttributionDimension::DiskRead => ("disk_read_rank", "disk_read_rank"),
        AttributionDimension::DiskWrite => ("disk_write_rank", "disk_write_rank"),
        AttributionDimension::NetworkReceive => ("network_receive_rank", "network_receive_rank"),
        AttributionDimension::NetworkTransmit => ("network_transmit_rank", "network_transmit_rank"),
        AttributionDimension::Gpu => ("gpu_rank", "gpu_rank"),
    }
}

/// The largest age, in milliseconds, of a process snapshot that may explain an
/// event: two process sampling intervals, saturating at `i64::MAX`.
pub open spec fn freshness_limit_ms(interval_seconds: u64) -> int {
    let doubled = clamp_i64(as_integer(interval_seconds) * 2);
    clamp_i64(doubled * 1000)
}

/// Whether a snapshot taken at `snapshot_ms` is recent enough to explain an
/// event at `event_ms`.
pub fn snapshot_is_fresh(snapshot_ms: i64, event_ms: i64, config: &ProcessConfig) -> (fresh: bool)
    ensures
        fresh == (elapsed_ms(event_ms, snapshot_ms) <= freshness_limit_ms(config.interval_seconds)),
{
    let interval = u64_to_integer(config.interval_seconds);
    let doubled = if interval > i64::MAX / 2 {
        i64::MAX
    } else {
        interval * 2
    };
    let limit = if doubled > i64::MAX / 1000 {
        i64::MAX
    } else {
        doubled * 1000
    };
    let age = event_ms as i128 - snapshot_ms as i128;
    let age = if age > i64::MAX as i128 {
        i64::MAX
    } else if age < i64::MIN as i128 {
        i64::MIN
    } else {
        age as i64
    };
    age <= limit
}

/// The unit of a process rollup metric.
pub open spec fn process_unit(name: Seq<char>) -> Seq<char> {
    if name == "process.cpu.usage"@ || name == "process.gpu.usage"@ {
        "percent"@
    } else if name == "process.memory.bytes"@ {
        "bytes"@
    } else {
        "bytes_per_second"@
    }
}

/// The unit of a process rollup metric (see `process_unit`).
pub fn process_metric_unit(name: &str) -> (unit: &'static str)
    ensures
        unit@ == process_unit(name@),
{
    if str_equal(name, "process.cpu.usage") || str_equal(name, "process.gpu.usage") {
        "percent"
    } else if str_equal(name, "process.memory.bytes") {
        "bytes"
    } else {
        "bytes_per_second"
    }
}

/// The start of the bucket of width `bucket_ms` that holds `value`.
pub open spec fn bucket_floor(value: int, bucket_ms: int) -> int {
    value - value % bucket_ms
}

/// The start of the bucket of width `bucket_ms` that holds `value`
/// (`value.div_euclid(bucket_ms) * bucket_ms`).
pub fn floor_bucket(value: i64, bucket_ms: i64) -> (start: i64)
    requires
        bucket_ms > 0,
        bucket_floor(value as int, bucket_ms as int) >= i64::MIN,
    ensures
        start == bucket_floor(value as int, bucket_ms as int),
        start <= value,
        value - start < bucket_ms,
        start % bucket_ms == 0,
{
    let wide = value as i128;
    let width = bucket_ms as i128;
    let remainder = if wide >= 0 {
        ((wide as u128) % (width as u128)) as i128
    } else {
        let magnitude = (-wide) as u128;
        let r = (magnitude % (width as u128)) as i128;
        if r == 0 {
            0
        } else {
            width - r
        }
    };
    proof {
        let v = value as int;
        let b = bucket_ms as int;
        if v < 0 {
            let m = -v;
            let r = m % b;
            assert(m == (m / b) * b + r) by (nonlinear_arith)
                requires
                    b > 0,
                    m >= 0,
                    r == m % b,
            ;
            if r == 0 {
                assert(v == (-(m / b)) * b) by (nonlinear_arith)
                    requires
                        m == (m / b) * b,
                        v == -m,
                ;
                assert(v % b == 0) by (nonlinear_arith)
                    requires
                        v == (-(m / b)) * b,
                        b > 0,
                ;
            } else {
                assert(v == (-(m / b) - 1) * b + (b - r)) by (nonlinear_arith)
                    requires
                        m == (m / b) * b + r,
                        v == -m,
                ;
                vstd::arithmetic::div_mod::lemma_fundamental_div_mod_converse(
                    v,
                    b,
                    -(m / b) - 1,
                    b - r,
                );
            }
        }
        assert((v - v % b) % b == 0) by {
            vstd::arithmetic::div_mod::lemma_fundamental_div_mod(v, b);
            vstd::arithmetic::div_mod::lemma_mod_multiples_basic(v / b, b);
            assert(v - v % b == (v / b) * b) by (nonlinear_arith)
                requires
                    v == b * (v / b) + v % b,
            ;
        }
    }
    (wide - remainder) as i64
}

/// `i64::saturating_mul(1000)` of a count of seconds converted with `as_integer`.
pub open spec fn count_to_ms(seconds: u64) -> int {
    clamp_i64(as_integer(seconds) * 1000)
}

/// `u64::saturating_mul` of two counts.
pub open spec fn saturating_product(a: u64, b: u64) -> u64 {
    if a * b > u64::MAX {
        u64::MAX
    } else {
        (a * b) as u64
    }
}

/// Milliseconds in a number of seconds, saturating at `i64::MAX`.
pub fn seconds_ms(value: u64) -> (ms: i64)
    ensures
        ms == count_to_ms(value),
{
    let seconds = u64_to_integer(value);
    if seconds > i64::MAX / 1000 {
        i64::MAX
    } else {
        seconds * 1000
    }
}

fn saturating_mul_u64(a: u64, b: u64) -> (r: u64)
    ensures
        r == saturating_product(a, b),
{
    if b != 0 && a > u64::MAX / b {
        assert(a * b > u64::MAX) by (nonlinear_arith)
            requires
                b > 0,
                a > u64::MAX / b,
        ;
        u64::MAX
    } else {
        assert(a * b <= u64::MAX) by (nonlinear_arith)
            requires
                b == 0 || a <= u64::MAX / b,
        ;
        a * b
    }
}

/// Milliseconds in a number of hours, saturating.
pub fn hours_ms(value: u64) -> (ms: i64)
    ensures
        ms == count_to_ms(saturating_product(value, 3600)),
{
    seconds_ms(saturating_mul_u64(value, 3600))
}

/// Milliseconds in a number of days, saturating.
pub fn days_ms(value: u64) -> (ms: i64)
    ensures
        ms == count_to_ms(saturating_product(saturating_product(value, 24), 3600)),
{
    hours_ms(saturating_mul_u64(value, 24))
}

/// A database integer as a 32-bit value; values out of range read as zero.
pub fn integer_to_u32(value: i64) -> (r: u32)
    ensures
        r == if 0 <= value <= u32::MAX {
            value as u32
        } else {
            0
        },
{
    if 0 <= value && value <= u32::MAX as i64 {
        value as u32
    } else {
        0
    }
}

/// A size as a database integer, saturating at `i64::MAX`.
pub fn usize_to_integer(value: usize) -> (r: i64)
    ensures
        r == if value <= i64::MAX {
            value as int
        } else {
            i64::MAX as int
        },
{
    if value as u64 <= i64::MAX as u64 {
        value as i64
    } else {
        i64::MAX
    }
}

/// How many more process evidence rows an event may receive, given the rows
/// it already has; an unreadable (negative) count leaves none.
pub fn evidence_rows_left(max_rows: usize, stored_rows: i64) -> (left: usize)
    ensures
        left == if stored_rows < 0 || stored_rows >= max_rows {
            0
        } else {
            (max_rows - stored_rows) as usize
        },
{
    if stored_rows < 0 || stored_rows as u64 >= max_rows as u64 {
        0
    } else {
        max_rows - stored_rows as usize
    }
}

/// The rows one checkpoint copies: the per-checkpoint limit, bounded by what is left.
pub fn checkpoint_row_limit(left: usize, event_top_n: usize) -> (limit: usize)
    ensures
        limit == if left < event_top_n {
            left
        } else {
            event_top_n
        },
{
    if left < event_top_n {
        left
    } else {
        event_top_n
    }
}

/// The first bucket that is not yet complete: `now_ms` less the late-arrival
/// grace, floored to the bucket width.
pub fn rollup_cutoff(now_ms: i64, grace_seconds: u64, bucket_ms: i64) -> (cutoff: i64)
    requires
        bucket_ms > 0,
        bucket_floor(clamp_i64(now_ms - count_to_ms(grace_seconds)), bucket_ms as int) >= i64::MIN,
    ensures
        cutoff == bucket_floor(clamp_i64(now_ms - count_to_ms(grace_seconds)), bucket_ms as int),
{
    let grace = seconds_ms(grace_seconds);
    let shifted = if now_ms < i64::MIN + grace {
        i64::MIN
    } else {
        now_ms - grace
    };
    floor_bucket(shifted, bucket_ms)
}

/// The bucket starts one pass aggregates; the watermark afterwards is the last
/// start plus one bucket (or `cursor` when there are none).
pub fn rollup_buckets(cursor: i64, cutoff: i64, bucket_ms: i64, batch_buckets: usize) -> (starts:
    Vec<i64>)
    requires
        bucket_ms > 0,
        cutoff <= i64::MAX - bucket_ms,
    ensures
        starts.len() <= batch_buckets,
        forall|k: int| 0 <= k < starts.len() ==> #[trigger] starts[k] == cursor + k * bucket_ms,
        forall|k: int| 0 <= k < starts.len() ==> #[trigger] starts[k] < cutoff,
        starts.len() == batch_buckets || cursor + starts.len() * bucket_ms >= cutoff,
{
    let mut starts: Vec<i64> = Vec::new();
    let mut position = cursor;
    let mut done: usize = 0;
    while done < batch_buckets
        invariant
            bucket_ms > 0,
            cutoff <= i64::MAX - bucket_ms,
            done <= batch_buckets,
            starts.len() == done,
            position == cursor + done * bucket_ms,
            forall|k: int| 0 <= k < starts.len() ==> #[trigger] starts[k] == cursor + k * bucket_ms,
            forall|k: int| 0 <= k < starts.len() ==> #[trigger] starts[k] < cutoff,
        ensures
            starts.len() == batch_buckets || position >= cutoff,
        decreases batch_buckets - done,
    {
        if position >= cutoff {
            break;
        }
        starts.push(position);
        position = position + bucket_ms;
        done = done + 1;
        assert(position == cursor + done * bucket_ms) by (nonlinear_arith)
            requires
                position == cursor + (done - 1) * bucket_ms + bucket_ms,
        ;
    }
    starts
}

/// The deletion cutoffs of one process maintenance pass.
#[derive(Debug, Clone, Copy, PartialEq, Eq, Structural)]
pub struct ProcessRetention {
    /// Raw samples before this time are deleted.
    pub raw_cutoff_ms: i64,
    /// One-minute rollups before this time are deleted; none while no
    /// 15-minute watermark exists.
    pub minute_cutoff_ms: Option<i64>,
    /// Fifteen-minute rollups before this time are deleted.
    pub quarter_hour_cutoff_ms: i64,
}

/// `now_ms` less a duration, saturating at `i64::MIN`.
pub open spec fn before(now_ms: i64, window_ms: int) -> int {
    clamp_i64(now_ms - window_ms)
}

/// The retention cutoffs: each tier's age limit, but never past what the next
/// tier has already rolled up (no tier loses data that the next has not processed).
pub open spec fn retention_cutoffs(
    config: ProcessConfig,
    now_ms: i64,
    minute_watermark: Option<i64>,
    quarter_watermark: Option<i64>,
) -> ProcessRetention {
    let raw_age = before(now_ms, count_to_ms(saturating_product(config.raw_retention_hours, 3600)));
    let minute_age = before(
        now_ms,
        count_to_ms(saturating_product(saturating_product(config.minute_retention_days, 24), 3600)),
    );
    let quarter_age = before(
        now_ms,
        count_to_ms(
            saturating_product(saturating_product(config.quarter_hour_retention_days, 24), 3600),
        ),
    );
    let raw_limit: int = match minute_watermark {
        Some(w) => w as int,
        None => i64::MIN as int,
    };
    ProcessRetention {
        raw_cutoff_ms: (if raw_age < raw_limit {
            raw_age
        } else {
            raw_limit
        }) as i64,
        minute_cutoff_ms: match quarter_watermark {
            Some(w) => Some(
                (if minute_age < w {
                    minute_age
                } else {
                    w as int
                }) as i64,
            ),
            None => None,
        },
        quarter_hour_cutoff_ms: quarter_age as i64,
    }
}

fn saturating_before(now_ms: i64, window_ms: i64) -> (r: i64)
    requires
        window_ms >= 0,
    ensures
        r == before(now_ms, window_ms as int),
{
    if now_ms < i64::MIN + window_ms {
        i64::MIN
    } else {
        now_ms - window_ms
    }
}

/// The deletion cutoffs of one maintenance pass (see `retention_cutoffs`).
pub fn process_retention_cutoffs(
    config: &ProcessConfig,
    now_ms: i64,
    minute_watermark: Option<i64>,
    quarter_watermark: Option<i64>,
) -> (r: ProcessRetention)
    ensures
        r == retention_cutoffs(*config, now_ms, minute_watermark, quarter_watermark),
        minute_watermark matches Some(w) ==> r.raw_cutoff_ms <= w,
        minute_watermark is None ==> r.raw_cutoff_ms == i64::MIN,
        r.minute_cutoff_ms matches Some(c) ==> quarter_watermark matches Some(w) && c <= w,
{
    let raw_age = saturating_before(now_ms, hours_ms(config.raw_retention_hours));
    let raw_limit = match minute_watermark {
        Some(w) => w,
        None => i64::MIN,
    };
    let raw_cutoff_ms = if raw_age < raw_limit {
        raw_age
    } else {
        raw_limit
    };
    let minute_cutoff_ms = match quarter_watermark {
        Some(w) => {
            let minute_age = saturating_before(now_ms, days_ms(config.minute_retention_days));
            Some(
                if minute_age < w {
                    minute_age
                } else {
                    w
                },
            )
        },
        None => None,
    };
    let quarter_hour_cutoff_ms = saturating_before(
        now_ms,
        days_ms(config.quarter_hour_retention_days),
    );
    ProcessRetention { raw_cutoff_ms, minute_cutoff_ms, quarter_hour_cutoff_ms }
}


/// A retention window of `count` units of `unit_ms` milliseconds, saturating
/// at `i64::MAX`.
pub open spec fn window_ms(count: u64, unit_ms: int) -> int {
    if count * unit_ms > i64::MAX {
        i64::MAX as int
    } else {
        count * unit_ms
    }
}

proof fn lemma_saturating_window(count: u64, unit_hours: u64)
    requires
        unit_hours == 1 || unit_hours == 24,
    ensures
        count_to_ms(
            if unit_hours == 1 {
                saturating_product(count, 3600)
            } else {
                saturating_product(saturating_product(count, 24), 3600)
            },
        ) == window_ms(count, unit_hours * 3_600_000),
{
    let seconds = if unit_hours == 1 {
        saturating_product(count, 3600)
    } else {
        saturating_product(saturating_product(count, 24), 3600)
    };
    let exact = count * unit_hours * 3600;
    assert(count * (unit_hours * 3_600_000) == exact * 1000) by (nonlinear_arith)
        requires exact == count * unit_hours * 3600;
    if unit_hours == 24 {
        assert(count * 24 * 3600 == exact) by (nonlinear_arith)
            requires unit_hours == 24, exact == count * unit_hours * 3600;
        if count * 24 > u64::MAX {
            assert(exact > u64::MAX) by (nonlinear_arith)
                requires exact == count * 24 * 3600, count * 24 > u64::MAX;
            assert(seconds == u64::MAX);
        } else {
            assert(saturating_product(count, 24) == count * 24);
            assert(saturating_product(count, 24) * 3600 == exact) by (nonlinear_arith)
                requires saturating_product(count, 24) == count * 24, exact == count * 24 * 3600;
        }
    } else {
        assert(count * 3600 == exact) by (nonlinear_arith)
            requires unit_hours == 1, exact == count * unit_hours * 3600;
    }
    assert(seconds == if exact > u64::MAX { u64::MAX as int } else { exact });
    if exact > i64::MAX {
        assert(exact * 1000 > i64::MAX) by (nonlinear_arith) requires exact > i64::MAX;
    }
}

/// Each tier's cutoff is `now_ms` less that tier's own retention (hours for
/// raw samples, days for both rollup tiers), saturating; raw samples are kept
/// until the minute tier has rolled them up, and one-minute rollups until the
/// 15-minute tier has, and only once that tier has a watermark.  No tier's
/// cutoff depends on another tier's retention.
pub proof fn lemma_each_tier_keeps_its_own_retention(
    config: ProcessConfig,
    now_ms: i64,
    minute_watermark: Option<i64>,
    quarter_watermark: Option<i64>,
)
    ensures
        ({
            let r = retention_cutoffs(config, now_ms, minute_watermark, quarter_watermark);
            let raw_age = clamp_i64(now_ms - window_ms(config.raw_retention_hours, 3_600_000));
            let minute_age = clamp_i64(
                now_ms - window_ms(config.minute_retention_days, 86_400_000),
            );
            let quarter_age = clamp_i64(
                now_ms - window_ms(config.quarter_hour_retention_days, 86_400_000),
            );
            &&& r.quarter_hour_cutoff_ms == quarter_age
            &&& match minute_watermark {
                Some(w) => r.raw_cutoff_ms == if raw_age < w {
                    raw_age
                } else {
                    w as int
                },
                None => r.raw_cutoff_ms == i64::MIN,
            }
            &&& match quarter_watermark {
                Some(w) => r.minute_cutoff_ms == Some(
                    (if minute_age < w {
                        minute_age
                    } else {
                        w as int
                    }) as i64,
                ),
                None => r.minute_cutoff_ms is None,
            }
        }),
{
    lemma_saturating_window(config.raw_retention_hours, 1);
    lemma_saturating_window(config.minute_retention_days, 24);
    lemma_saturating_window(config.quarter_hour_retention_days, 24);
}

} // verus!
