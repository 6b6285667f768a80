//! GPU sampling: when to poll the provider, how failures back off, and what
//! the `AGXAccelerator` statistics become.
use vstd::prelude::*;

use crate::anomaly_storage::optional_text;
use crate::config::{GpuConfig, GpuProvider};
use crate::float_bits::{integer_bits, integer_value_bits};
use crate::model::{
    capability_record, metric_record, owned_detail, text_of, CapabilityBatch, CapabilityRecord,
    CapabilityState, CollectorCapability, Metric, MetricBatch, MetricRecord,
};
use crate::text::{decimal_chars, decimal_digits, push_chars, str_equal};

verus! {

broadcast use vstd::string::group_string_axioms;

/// The collector name of GPU measurements.
pub const GPU_COLLECTOR: &'static str = "gpu";

/// The resource GPU measurements describe.
pub const GPU_RESOURCE: &'static str = "Apple GPU 0";

/// The provider of GPU measurements.
pub const GPU_PROVIDER: &'static str = "apple_ioreg";

/// The longest wait between failing GPU polls, in seconds.
pub const MAX_BACKOFF_SECONDS: u64 = 300;

/// The capability record of the GPU collector for one field.
pub open spec fn gpu_record(
    name: Seq<char>,
    state: CapabilityState,
    detail: Option<Seq<char>>,
    checked_at_ms: i64,
) -> CapabilityRecord {
    CapabilityRecord {
        collector: GPU_COLLECTOR@,
        resource: GPU_RESOURCE@,
        capability: name,
        state,
        provider: GPU_PROVIDER@,
        detail,
        checked_at_ms,
    }
}

/// The capability of one GPU field.
pub fn capability(name: &str, state: CapabilityState, detail: Option<&str>, checked_at_ms: i64) -> (c:
    CollectorCapability)
    ensures
        capability_record(c) == gpu_record(name@, state, optional_text(detail), checked_at_ms),
{
    CollectorCapability {
        collector: GPU_COLLECTOR.to_owned(),
        resource: GPU_RESOURCE.to_owned(),
        capability: name.to_owned(),
        state,
        provider: GPU_PROVIDER.to_owned(),
        detail: owned_detail(detail),
        checked_at_ms,
    }
}

/// The records of a batch of capabilities.
pub open spec fn records(batch: Seq<CollectorCapability>) -> Seq<CapabilityRecord> {
    batch.map_values(|c: CollectorCapability| capability_record(c))
}

/// The records of a batch of measurements.
pub open spec fn metric_records(batch: Seq<Metric>) -> Seq<MetricRecord> {
    batch.map_values(|m: Metric| metric_record(m))
}

fn push_capability(
    batch: &mut CapabilityBatch,
    name: &str,
    state: CapabilityState,
    detail: Option<&str>,
    checked_at_ms: i64,
)
    ensures
        records(final(batch)@) == records(old(batch)@).push(
            gpu_record(name@, state, optional_text(detail), checked_at_ms),
        ),
{
    batch.push(capability(name, state, detail, checked_at_ms));
    assert(records(batch@) =~= records(old(batch)@).push(
        gpu_record(name@, state, optional_text(detail), checked_at_ms),
    ));
}

/// The fields the GPU collector measures, in the order it reports them.
pub open spec fn measured_fields() -> Seq<Seq<char>> {
    seq![
        "gpu.device.usage"@,
        "gpu.renderer.usage"@,
        "gpu.tiler.usage"@,
        "gpu.memory.used"@,
        "gpu.memory.allocated"@,
    ]
}

/// The fields no non-privileged source provides.
pub open spec fn unprovided_fields() -> Seq<Seq<char>> {
    seq!["gpu.memory.total"@, "gpu.power"@, "gpu.temperature"@]
}

/// The records of `names`, all with one state and detail.
pub open spec fn uniform_records(
    names: Seq<Seq<char>>,
    state: CapabilityState,
    detail: Option<Seq<char>>,
    checked_at_ms: i64,
) -> Seq<CapabilityRecord> {
    names.map_values(|name: Seq<char>| gpu_record(name, state, detail, checked_at_ms))
}

/// After a failed poll: the measured fields and the device identity are
/// degraded and the unprovided fields unavailable, all with the error as
/// detail.
pub open spec fn degraded_records(checked_at_ms: i64, detail: Seq<char>) -> Seq<CapabilityRecord> {
    uniform_records(
        measured_fields().push("gpu.device.identity"@),
        CapabilityState::Degraded,
        Some(detail),
        checked_at_ms,
    ) + uniform_records(
        unprovided_fields(),
        CapabilityState::Unavailable,
        Some(detail),
        checked_at_ms,
    )
}

/// The capabilities after a failed poll (see `degraded_records`).
pub fn degraded_capabilities(checked_at_ms: i64, detail: &str) -> (batch: CapabilityBatch)
    ensures
        records(batch@) == degraded_records(checked_at_ms, detail@),
{
    let mut batch: CapabilityBatch = Vec::new();
    let d = Some(detail);
    push_capability(&mut batch, "gpu.device.usage", CapabilityState::Degraded, d, checked_at_ms);
    push_capability(&mut batch, "gpu.renderer.usage", CapabilityState::Degraded, d, checked_at_ms);
    push_capability(&mut batch, "gpu.tiler.usage", CapabilityState::Degraded, d, checked_at_ms);
    push_capability(&mut batch, "gpu.memory.used", CapabilityState::Degraded, d, checked_at_ms);
    push_capability(
        &mut batch,
        "gpu.memory.allocated",
        CapabilityState::Degraded,
        d,
        checked_at_ms,
    );
    push_capability(
        &mut batch,
        "gpu.device.identity",
        CapabilityState::Degraded,
        d,
        checked_at_ms,
    );
    push_capability(&mut batch, "gpu.memory.total", CapabilityState::Unavailable, d, checked_at_ms);
    push_capability(&mut batch, "gpu.power", CapabilityState::Unavailable, d, checked_at_ms);
    push_capability(&mut batch, "gpu.temperature", CapabilityState::Unavailable, d, checked_at_ms);
    assert(records(batch@) =~= degraded_records(checked_at_ms, detail@));
    batch
}

/// Every GPU field in the order an unavailable collector reports them.
pub open spec fn all_fields() -> Seq<Seq<char>> {
    measured_fields() + unprovided_fields().push("gpu.device.identity"@)
}

/// The capabilities of a collector that cannot run: every field unavailable,
/// with the given provider and detail.
pub fn unavailable_capabilities(checked_at_ms: i64, provider: &str, detail: &str) -> (batch:
    CapabilityBatch)
    ensures
        batch@.len() == 9,
        forall|k: int|
            0 <= k < 9 ==> capability_record(#[trigger] batch@[k]) == (CapabilityRecord {
                provider: provider@,
                ..gpu_record(all_fields()[k], CapabilityState::Unavailable, Some(detail@), checked_at_ms)
            }),
{
    let mut batch: CapabilityBatch = Vec::new();
    let names = [
        "gpu.device.usage",
        "gpu.renderer.usage",
        "gpu.tiler.usage",
        "gpu.memory.used",
        "gpu.memory.allocated",
        "gpu.memory.total",
        "gpu.power",
        "gpu.temperature",
        "gpu.device.identity",
    ];
    assert(names@.map_values(|n: &str| n@) =~= all_fields());
    let mut i: usize = 0;
    while i < 9
        invariant
            i <= 9,
            names@.len() == 9,
            names@.map_values(|n: &str| n@) == all_fields(),
            batch@.len() == i,
            forall|k: int|
                0 <= k < i ==> capability_record(#[trigger] batch@[k]) == (CapabilityRecord {
                    provider: provider@,
                    ..gpu_record(all_fields()[k], CapabilityState::Unavailable, Some(detail@), checked_at_ms)
                }),
        decreases 9 - i,
    {
        assert(names@.map_values(|n: &str| n@)[i as int] == names@[i as int]@);
        batch.push(
            CollectorCapability {
                collector: GPU_COLLECTOR.to_owned(),
                resource: GPU_RESOURCE.to_owned(),
                capability: names[i].to_owned(),
                state: CapabilityState::Unavailable,
                provider: provider.to_owned(),
                detail: Some(detail.to_owned()),
                checked_at_ms,
            },
        );
        i = i + 1;
    }
    batch
}

/// The capabilities of a collector turned off by configuration.
pub fn disabled_capabilities(checked_at_ms: i64) -> (batch: CapabilityBatch)
    ensures
        batch@.len() == 9,
        forall|k: int|
            0 <= k < 9 ==> capability_record(#[trigger] batch@[k]) == (CapabilityRecord {
                provider: "disabled"@,
                ..gpu_record(
                    all_fields()[k],
                    CapabilityState::Unavailable,
                    Some("disabled by configuration"@),
                    checked_at_ms,
                )
            }),
{
    unavailable_capabilities(checked_at_ms, "disabled", "disabled by configuration")
}

// ---------------------------------------------------------------------------
// Polling and backoff.
/// The wait after the `failures`-th failure in a row: the interval doubled
/// per failure up to five times, and at most five minutes.
pub open spec fn backoff_seconds(interval_seconds: u64, failures: u32) -> u64 {
    let doublings: nat = if failures < 5 {
        failures as nat
    } else {
        5
    };
    let multiplier = vstd::arithmetic::power2::pow2(doublings);
    let delay = if interval_seconds * multiplier > u64::MAX {
        u64::MAX as int
    } else {
        interval_seconds * multiplier
    };
    if delay > MAX_BACKOFF_SECONDS {
        MAX_BACKOFF_SECONDS
    } else {
        delay as u64
    }
}

/// A time on a monotonic clock plus some seconds, saturating.
pub open spec fn later_ms(now_ms: u64, seconds: u64) -> u64 {
    if now_ms + seconds * 1000 > u64::MAX {
        u64::MAX
    } else {
        (now_ms + seconds * 1000) as u64
    }
}

/// What a poll of the GPU collector asks for.
#[derive(Debug, Clone, Copy, PartialEq, Eq, Structural)]
pub enum GpuPoll {
    /// Nothing is due.
    Idle,
    /// Report once that collection is turned off (`disabled_capabilities`).
    ReportDisabled,
    /// Run `/usr/sbin/ioreg` and hand its statistics to `collection_from_nodes`.
    RunIoreg,
    /// No provider can run on this platform; record it as a failure.
    NoProvider,
}

/// Why no provider can run.
pub open spec fn no_provider_reason(provider: GpuProvider) -> Seq<char> {
    match provider {
        GpuProvider::Auto => "no supported non-privileged GPU provider was found"@,
        GpuProvider::AppleIoreg => "apple_ioreg is available only on macOS"@,
    }
}

/// Polls GPU collection on a schedule, backing off after failures.
pub struct GpuCollector {
    config: GpuConfig,
    next_due_ms: Option<u64>,
    failure_count: u32,
    last_warning: Option<String>,
    disabled_reported: bool,
}

impl GpuCollector {
    /// The settings.
    pub closed spec fn spec_config(&self) -> GpuConfig {
        self.config
    }

    /// When the next poll is due, on the caller's monotonic clock in
    /// milliseconds; `None` before the first poll.
    pub closed spec fn spec_next_due_ms(&self) -> Option<u64> {
        self.next_due_ms
    }

    /// Failures since the last success.
    pub closed spec fn spec_failure_count(&self) -> u32 {
        self.failure_count
    }

    /// The error of the last failure, if the last poll failed.
    pub closed spec fn spec_last_warning(&self) -> Option<Seq<char>> {
        text_of(self.last_warning)
    }

    /// Whether the turned-off collector has reported so.
    pub closed spec fn spec_disabled_reported(&self) -> bool {
        self.disabled_reported
    }

    /// A collector that has not polled yet.
    pub fn new(config: GpuConfig) -> (collector: Self)
        ensures
            collector.spec_config() == config,
            collector.spec_next_due_ms() is None,
            collector.spec_failure_count() == 0,
            collector.spec_last_warning() is None,
            !collector.spec_disabled_reported(),
    {
        GpuCollector {
            config,
            next_due_ms: None,
            failure_count: 0,
            last_warning: None,
            disabled_reported: false,
        }
    }

    /// What to do at `now_ms`: a turned-off collector reports once and then
    /// stays idle; an enabled one waits until its poll is due and then runs
    /// the platform's provider (`ioreg` on macOS, `on_macos`).
    pub fn poll(&mut self, now_ms: u64, on_macos: bool) -> (step: GpuPoll)
        ensures
            final(self).spec_config() == old(self).spec_config(),
            final(self).spec_next_due_ms() == old(self).spec_next_due_ms(),
            final(self).spec_failure_count() == old(self).spec_failure_count(),
            final(self).spec_last_warning() == old(self).spec_last_warning(),
            final(self).spec_disabled_reported() == (old(self).spec_disabled_reported()
                || !old(self).spec_config().enabled),
            step == if !old(self).spec_config().enabled {
                if old(self).spec_disabled_reported() {
                    GpuPoll::Idle
                } else {
                    GpuPoll::ReportDisabled
                }
            } else if old(self).spec_next_due_ms() matches Some(due) && now_ms < due {
                GpuPoll::Idle
            } else if on_macos {
                GpuPoll::RunIoreg
            } else {
                GpuPoll::NoProvider
            },
    {
        if !self.config.enabled {
            if self.disabled_reported {
                return GpuPoll::Idle;
            }
            self.disabled_reported = true;
            return GpuPoll::ReportDisabled;
        }
        if let Some(due) = self.next_due_ms {
            if now_ms < due {
                return GpuPoll::Idle;
            }
        }
        if on_macos {
            GpuPoll::RunIoreg
        } else {
            GpuPoll::NoProvider
        }
    }

    /// Why no provider can run (see `no_provider_reason`).
    pub fn no_provider_reason(&self) -> (reason: &'static str)
        ensures
            reason@ == no_provider_reason(self.spec_config().provider),
    {
        match self.config.provider {
            GpuProvider::Auto => "no supported non-privileged GPU provider was found",
            GpuProvider::AppleIoreg => "apple_ioreg is available only on macOS",
        }
    }

    /// Records a successful poll at `now_ms`: the failure count resets and
    /// the next poll is due one interval later.
    pub fn record_success(&mut self, now_ms: u64)
        ensures
            final(self).spec_config() == old(self).spec_config(),
            final(self).spec_next_due_ms() == Some(
                later_ms(now_ms, old(self).spec_config().interval_seconds),
            ),
            final(self).spec_failure_count() == 0,
            final(self).spec_last_warning() is None,
            final(self).spec_disabled_reported() == old(self).spec_disabled_reported(),
    {
        self.failure_count = 0;
        self.next_due_ms = Some(later(now_ms, self.config.interval_seconds));
        self.last_warning = None;
    }

    /// Records a failed poll at `now_ms` and returns the warning to log: the
    /// error, unless the previous poll failed with the same error.  The next
    /// poll waits `backoff_seconds` after the failure.
    pub fn record_failure(&mut self, now_ms: u64, error: &str) -> (warning: Option<String>)
        ensures
            final(self).spec_config() == old(self).spec_config(),
            final(self).spec_failure_count() == if old(self).spec_failure_count() == u32::MAX {
                u32::MAX
            } else {
                (old(self).spec_failure_count() + 1) as u32
            },
            final(self).spec_next_due_ms() == Some(
                later_ms(
                    now_ms,
                    backoff_seconds(
                        old(self).spec_config().interval_seconds,
                        final(self).spec_failure_count(),
                    ),
                ),
            ),
            final(self).spec_last_warning() == Some(error@),
            final(self).spec_disabled_reported() == old(self).spec_disabled_reported(),
            text_of(warning) == if old(self).spec_last_warning() == Some(error@) {
                None
            } else {
                Some(error@)
            },
    {
        self.failure_count = if self.failure_count == u32::MAX {
            u32::MAX
        } else {
            self.failure_count + 1
        };
        let delay = backoff(self.config.interval_seconds, self.failure_count);
        self.next_due_ms = Some(later(now_ms, delay));
        let repeated = match &self.last_warning {
            Some(last) => str_equal(last.as_str(), error),
            None => false,
        };
        self.last_warning = Some(error.to_owned());
        if repeated {
            None
        } else {
            Some(error.to_owned())
        }
    }

    /// Records a failed poll (see `record_failure`) and returns what the
    /// collection reports: degraded capabilities and the warning, with no
    /// measurement.
    pub fn failure_collection(&mut self, now_ms: u64, checked_at_ms: i64, error: &str) -> (collection:
        GpuCollection)
        ensures
            final(self).spec_config() == old(self).spec_config(),
            final(self).spec_failure_count() == if old(self).spec_failure_count() == u32::MAX {
                u32::MAX
            } else {
                (old(self).spec_failure_count() + 1) as u32
            },
            final(self).spec_next_due_ms() == Some(
                later_ms(
                    now_ms,
                    backoff_seconds(
                        old(self).spec_config().interval_seconds,
                        final(self).spec_failure_count(),
                    ),
                ),
            ),
            final(self).spec_last_warning() == Some(error@),
            final(self).spec_disabled_reported() == old(self).spec_disabled_reported(),
            collection.metrics@.len() == 0,
            records(collection.capabilities@) == degraded_records(checked_at_ms, error@),
            text_of(collection.warning) == if old(self).spec_last_warning() == Some(error@) {
                None
            } else {
                Some(error@)
            },
    {
        let warning = self.record_failure(now_ms, error);
        GpuCollection {
            metrics: Vec::new(),
            capabilities: degraded_capabilities(checked_at_ms, error),
            warning,
        }
    }
}

fn later(now_ms: u64, seconds: u64) -> (t: u64)
    ensures
        t == later_ms(now_ms, seconds),
{
    let ms = if seconds > u64::MAX / 1000 {
        u64::MAX
    } else {
        seconds * 1000
    };
    if now_ms > u64::MAX - ms {
        u64::MAX
    } else {
        now_ms + ms
    }
}

fn backoff(interval_seconds: u64, failures: u32) -> (seconds: u64)
    ensures
        seconds == backoff_seconds(interval_seconds, failures),
        seconds <= MAX_BACKOFF_SECONDS,
{
    let doublings: u32 = if failures < 5 {
        failures
    } else {
        5
    };
    let mut multiplier: u64 = 1;
    let mut k: u32 = 0;
    proof {
        vstd::arithmetic::power2::lemma2_to64();
    }
    while k < doublings
        invariant
            k <= doublings <= 5,
            multiplier == vstd::arithmetic::power2::pow2(k as nat),
            multiplier <= 32,
        decreases doublings - k,
    {
        proof {
            vstd::arithmetic::power2::lemma_pow2_unfold((k + 1) as nat);
            vstd::arithmetic::power2::lemma2_to64();
            if k + 1 < 5 {
                vstd::arithmetic::power2::lemma_pow2_strictly_increases((k + 1) as nat, 5);
            }
        }
        multiplier = multiplier * 2;
        k = k + 1;
    }
    let delay = if multiplier > 0 && interval_seconds > u64::MAX / multiplier {
        assert(interval_seconds * multiplier > u64::MAX) by (nonlinear_arith)
            requires
                interval_seconds > u64::MAX / multiplier,
                multiplier > 0,
        ;
        u64::MAX
    } else {
        proof {
            vstd::arithmetic::power2::lemma_pow2_pos(k as nat);
        }
        assert(interval_seconds * multiplier <= u64::MAX) by (nonlinear_arith)
            requires
                interval_seconds <= u64::MAX / multiplier,
                multiplier > 0,
        ;
        interval_seconds * multiplier
    };
    if delay > MAX_BACKOFF_SECONDS {
        MAX_BACKOFF_SECONDS
    } else {
        delay
    }
}

/// Backoff never waits longer than five minutes, and never less than the
/// interval while that is below the cap.
pub proof fn lemma_backoff_is_bounded(interval_seconds: u64, failures: u32)
    ensures
        backoff_seconds(interval_seconds, failures) <= MAX_BACKOFF_SECONDS,
        interval_seconds <= MAX_BACKOFF_SECONDS ==> backoff_seconds(interval_seconds, failures)
            >= interval_seconds,
{
    let doublings: nat = if failures < 5 {
        failures as nat
    } else {
        5
    };
    vstd::arithmetic::power2::lemma_pow2_pos(doublings);
    assert(interval_seconds * vstd::arithmetic::power2::pow2(doublings) >= interval_seconds)
        by (nonlinear_arith)
        requires
            vstd::arithmetic::power2::pow2(doublings) >= 1,
    ;
}

/// Each further failure (up to the fifth) doubles the wait until the cap.
pub proof fn lemma_backoff_doubles(interval_seconds: u64, failures: u32)
    requires
        failures < 5,
        interval_seconds * 64 <= u64::MAX,
    ensures
        backoff_seconds(interval_seconds, (failures + 1) as u32) == if 2 * backoff_seconds(
            interval_seconds,
            failures,
        ) > MAX_BACKOFF_SECONDS {
            MAX_BACKOFF_SECONDS as int
        } else {
            2 * backoff_seconds(interval_seconds, failures)
        },
{
    let m = vstd::arithmetic::power2::pow2(failures as nat);
    vstd::arithmetic::power2::lemma_pow2_unfold((failures + 1) as nat);
    vstd::arithmetic::power2::lemma2_to64();
    if failures < 4 {
        vstd::arithmetic::power2::lemma_pow2_strictly_increases((failures + 1) as nat, 5);
    }
    assert(interval_seconds * (2 * m) == 2 * (interval_seconds * m)) by (nonlinear_arith);
    assert(interval_seconds * (2 * m) <= interval_seconds * 64) by (nonlinear_arith)
        requires
            2 * m <= 32,
    ;
}

// ---------------------------------------------------------------------------
// Statistics.
/// The `PerformanceStatistics` of an `AGXAccelerator` entry.
#[derive(Debug, Clone, Copy, PartialEq, Eq, Structural)]
pub struct PerformanceStatistics {
    pub device_utilization: Option<u64>,
    pub renderer_utilization: Option<u64>,
    pub tiler_utilization: Option<u64>,
    pub memory_used: Option<u64>,
    pub memory_allocated: Option<u64>,
}

/// One `AGXAccelerator` entry of the `ioreg` property list.
#[derive(Debug, Clone, Copy, PartialEq, Eq, Structural)]
pub struct IoregNode {
    pub gpu_core_count: Option<u64>,
    pub performance_statistics: Option<PerformanceStatistics>,
}

/// What one GPU collection reports.
pub struct GpuCollection {
    pub metrics: MetricBatch,
    pub capabilities: CapabilityBatch,
    pub warning: Option<String>,
}

/// Why the statistics could not be read.
#[derive(Debug, Clone, Copy, PartialEq, Eq, Structural)]
pub enum GpuError {
    /// No entry exposes `PerformanceStatistics`.
    MissingStatistics,
}

/// The index of the first entry that exposes statistics.
pub open spec fn first_with_statistics(nodes: Seq<IoregNode>) -> Option<int>
    decreases nodes.len(),
{
    if nodes.len() == 0 {
        None
    } else if nodes.last().performance_statistics is Some && first_with_statistics(
        nodes.drop_last(),
    ) is None {
        Some(nodes.len() - 1)
    } else {
        first_with_statistics(nodes.drop_last())
    }
}

/// The measurement of one field, if it is reported: a percentage only when
/// it is at most 100, a byte count whenever present.
pub open spec fn field_metric(
    name: Seq<char>,
    value: Option<u64>,
    percent: bool,
    collected_at_ms: i64,
) -> Seq<MetricRecord> {
    match value {
        Some(v) => if !percent || v <= 100 {
            seq![
                MetricRecord {
                    collected_at_ms,
                    collector: GPU_COLLECTOR@,
                    resource: Some(GPU_RESOURCE@),
                    name,
                    value_bits: integer_bits(v as nat) as u64,
                    unit: if percent {
                        "percent"@
                    } else {
                        "bytes"@
                    },
                },
            ]
        } else {
            Seq::empty()
        },
        None => Seq::empty(),
    }
}

/// The capability of one field: available when measured, degraded for an
/// out-of-range percentage, unavailable when missing.
pub open spec fn field_record(
    name: Seq<char>,
    value: Option<u64>,
    percent: bool,
    checked_at_ms: i64,
) -> CapabilityRecord {
    match value {
        Some(v) => if !percent || v <= 100 {
            gpu_record(name, CapabilityState::Available, None, checked_at_ms)
        } else {
            gpu_record(
                name,
                CapabilityState::Degraded,
                Some("ignored out-of-range value "@ + decimal_digits(v as nat)),
                checked_at_ms,
            )
        },
        None => gpu_record(
            name,
            CapabilityState::Unavailable,
            Some("ioreg field is missing"@),
            checked_at_ms,
        ),
    }
}

/// The measurements the statistics yield, in field order.
pub open spec fn statistics_metrics(s: PerformanceStatistics, collected_at_ms: i64) -> Seq<
    MetricRecord,
> {
    field_metric("gpu.device.usage"@, s.device_utilization, true, collected_at_ms) + field_metric(
        "gpu.renderer.usage"@,
        s.renderer_utilization,
        true,
        collected_at_ms,
    ) + field_metric("gpu.tiler.usage"@, s.tiler_utilization, true, collected_at_ms)
        + field_metric("gpu.memory.used"@, s.memory_used, false, collected_at_ms) + field_metric(
        "gpu.memory.allocated"@,
        s.memory_allocated,
        false,
        collected_at_ms,
    )
}

/// The identity capability: the core count when known.
pub open spec fn identity_detail(core_count: Option<u64>) -> Seq<char> {
    match core_count {
        Some(count) => "Apple GPU with "@ + decimal_digits(count as nat) + " cores"@,
        None => "Apple AGX GPU"@,
    }
}

/// The capabilities a successful collection reports: one per measured
/// field, the device identity, and the unprovided fields with their reason.
pub open spec fn statistics_records(
    s: PerformanceStatistics,
    core_count: Option<u64>,
    checked_at_ms: i64,
) -> Seq<CapabilityRecord> {
    seq![
        field_record("gpu.device.usage"@, s.device_utilization, true, checked_at_ms),
        field_record("gpu.renderer.usage"@, s.renderer_utilization, true, checked_at_ms),
        field_record("gpu.tiler.usage"@, s.tiler_utilization, true, checked_at_ms),
        field_record("gpu.memory.used"@, s.memory_used, false, checked_at_ms),
        field_record("gpu.memory.allocated"@, s.memory_allocated, false, checked_at_ms),
        gpu_record(
            "gpu.device.identity"@,
            CapabilityState::Available,
            Some(identity_detail(core_count)),
            checked_at_ms,
        ),
        gpu_record(
            "gpu.memory.total"@,
            CapabilityState::Unavailable,
            Some("unified-memory total is not exposed by this adapter"@),
            checked_at_ms,
        ),
        gpu_record(
            "gpu.power"@,
            CapabilityState::Unavailable,
            Some("powermetrics requires superuser privileges and is intentionally not used"@),
            checked_at_ms,
        ),
        gpu_record(
            "gpu.temperature"@,
            CapabilityState::Unavailable,
            Some("no stable non-privileged source is available"@),
            checked_at_ms,
        ),
    ]
}

fn push_field(
    metrics: &mut MetricBatch,
    capabilities: &mut CapabilityBatch,
    name: &str,
    value: Option<u64>,
    percent: bool,
    collected_at_ms: i64,
)
    ensures
        metric_records(final(metrics)@) == metric_records(old(metrics)@) + field_metric(
            name@,
            value,
            percent,
            collected_at_ms,
        ),
        records(final(capabilities)@) == records(old(capabilities)@).push(
            field_record(name@, value, percent, collected_at_ms),
        ),
{
    let ghost before = metric_records(metrics@);
    match value {
        Some(v) => {
            if !percent || v <= 100 {
                let unit = if percent {
                    "percent"
                } else {
                    "bytes"
                };
                metrics.push(
                    Metric::for_resource(
                        collected_at_ms,
                        GPU_COLLECTOR,
                        GPU_RESOURCE,
                        name,
                        integer_value_bits(v),
                        unit,
                    ),
                );
                push_capability(
                    capabilities,
                    name,
                    CapabilityState::Available,
                    None,
                    collected_at_ms,
                );
            } else {
                let mut detail = String::from_str("ignored out-of-range value ");
                push_chars(&mut detail, &decimal_chars(v));
                push_capability(
                    capabilities,
                    name,
                    CapabilityState::Degraded,
                    Some(detail.as_str()),
                    collected_at_ms,
                );
            }
        },
        None => {
            push_capability(
                capabilities,
                name,
                CapabilityState::Unavailable,
                Some("ioreg field is missing"),
                collected_at_ms,
            );
        },
    }
    assert(metric_records(metrics@) =~= before + field_metric(
        name@,
        value,
        percent,
        collected_at_ms,
    ));
}

/// What the `ioreg` entries yield at `collected_at_ms`: from the first entry
/// with statistics, the measurements of `statistics_metrics` and the
/// capabilities of `statistics_records`; refused when no entry has
/// statistics.
pub fn collection_from_nodes(nodes: &Vec<IoregNode>, collected_at_ms: i64) -> (r: Result<
    GpuCollection,
    GpuError,
>)
    ensures
        first_with_statistics(nodes@) is None ==> r == Err::<GpuCollection, GpuError>(
            GpuError::MissingStatistics,
        ),
        first_with_statistics(nodes@) matches Some(i) ==> (r matches Ok(collection) && {
            let node = nodes@[i];
            let s = node.performance_statistics->0;
            &&& metric_records(collection.metrics@) == statistics_metrics(s, collected_at_ms)
            &&& records(collection.capabilities@) == statistics_records(
                s,
                node.gpu_core_count,
                collected_at_ms,
            )
            &&& collection.warning is None
        }),
{
    let mut i: usize = 0;
    while i < nodes.len() && nodes[i].performance_statistics.is_none()
        invariant
            i <= nodes.len(),
            first_with_statistics(nodes@.take(i as int)) is None,
        decreases nodes.len() - i,
    {
        proof {
            assert(nodes@.take(i + 1).drop_last() =~= nodes@.take(i as int));
        }
        i = i + 1;
    }
    if i == nodes.len() {
        assert(nodes@.take(i as int) =~= nodes@);
        return Err(GpuError::MissingStatistics);
    }
    proof {
        lemma_first_with_statistics_prefix(nodes@, i as int);
    }
    let node = nodes[i];
    let s = match node.performance_statistics {
        Some(s) => s,
        None => {
            return Err(GpuError::MissingStatistics);
        },
    };
    let mut metrics: MetricBatch = Vec::new();
    let mut capabilities: CapabilityBatch = Vec::new();
    push_field(
        &mut metrics,
        &mut capabilities,
        "gpu.device.usage",
        s.device_utilization,
        true,
        collected_at_ms,
    );
    push_field(
        &mut metrics,
        &mut capabilities,
        "gpu.renderer.usage",
        s.renderer_utilization,
        true,
        collected_at_ms,
    );
    push_field(
        &mut metrics,
        &mut capabilities,
        "gpu.tiler.usage",
        s.tiler_utilization,
        true,
        collected_at_ms,
    );
    push_field(
        &mut metrics,
        &mut capabilities,
        "gpu.memory.used",
        s.memory_used,
        false,
        collected_at_ms,
    );
    push_field(
        &mut metrics,
        &mut capabilities,
        "gpu.memory.allocated",
        s.memory_allocated,
        false,
        collected_at_ms,
    );
    let identity = match node.gpu_core_count {
        Some(count) => {
            let mut text = String::from_str("Apple GPU with ");
            push_chars(&mut text, &decimal_chars(count));
            text.append(" cores");
            text
        },
        None => String::from_str("Apple AGX GPU"),
    };
    push_capability(
        &mut capabilities,
        "gpu.device.identity",
        CapabilityState::Available,
        Some(identity.as_str()),
        collected_at_ms,
    );
    push_capability(
        &mut capabilities,
        "gpu.memory.total",
        CapabilityState::Unavailable,
        Some("unified-memory total is not exposed by this adapter"),
        collected_at_ms,
    );
    push_capability(
        &mut capabilities,
        "gpu.power",
        CapabilityState::Unavailable,
        Some("powermetrics requires superuser privileges and is intentionally not used"),
        collected_at_ms,
    );
    push_capability(
        &mut capabilities,
        "gpu.temperature",
        CapabilityState::Unavailable,
        Some("no stable non-privileged source is available"),
        collected_at_ms,
    );
    proof {
        assert(metric_records(metrics@) =~= statistics_metrics(s, collected_at_ms));
        assert(records(capabilities@) =~= statistics_records(
            s,
            node.gpu_core_count,
            collected_at_ms,
        ));
    }
    Ok(GpuCollection { metrics, capabilities, warning: None })
}

proof fn lemma_first_with_statistics_prefix(nodes: Seq<IoregNode>, i: int)
    requires
        0 <= i < nodes.len(),
        first_with_statistics(nodes.take(i)) is None,
        nodes[i].performance_statistics is Some,
    ensures
        first_with_statistics(nodes) == Some(i),
    decreases nodes.len(),
{
    if i == nodes.len() - 1 {
        assert(nodes.drop_last() =~= nodes.take(i));
    } else {
        assert(nodes.drop_last().take(i) =~= nodes.take(i));
        lemma_first_with_statistics_prefix(nodes.drop_last(), i);
    }
}


/// The names of the GPU collector's fields and capabilities are distinct.
proof fn lemma_gpu_names_distinct()
    ensures
        "gpu.device.usage"@ != "gpu.renderer.usage"@,
        "gpu.device.usage"@ != "gpu.tiler.usage"@,
        "gpu.device.usage"@ != "gpu.memory.used"@,
        "gpu.device.usage"@ != "gpu.memory.allocated"@,
        "gpu.device.usage"@ != "gpu.device.identity"@,
        "gpu.device.usage"@ != "gpu.memory.total"@,
        "gpu.device.usage"@ != "gpu.power"@,
        "gpu.device.usage"@ != "gpu.temperature"@,
        "gpu.renderer.usage"@ != "gpu.tiler.usage"@,
        "gpu.renderer.usage"@ != "gpu.memory.used"@,
        "gpu.renderer.usage"@ != "gpu.memory.allocated"@,
        "gpu.renderer.usage"@ != "gpu.device.identity"@,
        "gpu.renderer.usage"@ != "gpu.memory.total"@,
        "gpu.renderer.usage"@ != "gpu.power"@,
        "gpu.renderer.usage"@ != "gpu.temperature"@,
        "gpu.tiler.usage"@ != "gpu.memory.used"@,
        "gpu.tiler.usage"@ != "gpu.memory.allocated"@,
        "gpu.tiler.usage"@ != "gpu.device.identity"@,
        "gpu.tiler.usage"@ != "gpu.memory.total"@,
        "gpu.tiler.usage"@ != "gpu.power"@,
        "gpu.tiler.usage"@ != "gpu.temperature"@,
        "gpu.memory.used"@ != "gpu.memory.allocated"@,
        "gpu.memory.used"@ != "gpu.device.identity"@,
        "gpu.memory.used"@ != "gpu.memory.total"@,
        "gpu.memory.used"@ != "gpu.power"@,
        "gpu.memory.used"@ != "gpu.temperature"@,
        "gpu.memory.allocated"@ != "gpu.device.identity"@,
        "gpu.memory.allocated"@ != "gpu.memory.total"@,
        "gpu.memory.allocated"@ != "gpu.power"@,
        "gpu.memory.allocated"@ != "gpu.temperature"@,
        "gpu.device.identity"@ != "gpu.memory.total"@,
        "gpu.device.identity"@ != "gpu.power"@,
        "gpu.device.identity"@ != "gpu.temperature"@,
        "gpu.memory.total"@ != "gpu.power"@,
        "gpu.memory.total"@ != "gpu.temperature"@,
        "gpu.power"@ != "gpu.temperature"@,
{
    reveal_strlit("gpu.device.usage");
    reveal_strlit("gpu.renderer.usage");
    reveal_strlit("gpu.tiler.usage");
    reveal_strlit("gpu.memory.used");
    reveal_strlit("gpu.memory.allocated");
    reveal_strlit("gpu.device.identity");
    reveal_strlit("gpu.memory.total");
    reveal_strlit("gpu.power");
    reveal_strlit("gpu.temperature");
    assert("gpu.device.usage"@.len() != "gpu.renderer.usage"@.len());
    assert("gpu.device.usage"@.len() != "gpu.tiler.usage"@.len());
    assert("gpu.device.usage"@.len() != "gpu.memory.used"@.len());
    assert("gpu.device.usage"@.len() != "gpu.memory.allocated"@.len());
    assert("gpu.device.usage"@.len() != "gpu.device.identity"@.len());
    assert("gpu.device.usage"@[4] != "gpu.memory.total"@[4]);
    assert("gpu.device.usage"@.len() != "gpu.power"@.len());
    assert("gpu.device.usage"@.len() != "gpu.temperature"@.len());
    assert("gpu.renderer.usage"@.len() != "gpu.tiler.usage"@.len());
    assert("gpu.renderer.usage"@.len() != "gpu.memory.used"@.len());
    assert("gpu.renderer.usage"@.len() != "gpu.memory.allocated"@.len());
    assert("gpu.renderer.usage"@.len() != "gpu.device.identity"@.len());
    assert("gpu.renderer.usage"@.len() != "gpu.memory.total"@.len());
    assert("gpu.renderer.usage"@.len() != "gpu.power"@.len());
    assert("gpu.renderer.usage"@.len() != "gpu.temperature"@.len());
    assert("gpu.tiler.usage"@[4] != "gpu.memory.used"@[4]);
    assert("gpu.tiler.usage"@.len() != "gpu.memory.allocated"@.len());
    assert("gpu.tiler.usage"@.len() != "gpu.device.identity"@.len());
    assert("gpu.tiler.usage"@.len() != "gpu.memory.total"@.len());
    assert("gpu.tiler.usage"@.len() != "gpu.power"@.len());
    assert("gpu.tiler.usage"@[5] != "gpu.temperature"@[5]);
    assert("gpu.memory.used"@.len() != "gpu.memory.allocated"@.len());
    assert("gpu.memory.used"@.len() != "gpu.device.identity"@.len());
    assert("gpu.memory.used"@.len() != "gpu.memory.total"@.len());
    assert("gpu.memory.used"@.len() != "gpu.power"@.len());
    assert("gpu.memory.used"@[4] != "gpu.temperature"@[4]);
    assert("gpu.memory.allocated"@.len() != "gpu.device.identity"@.len());
    assert("gpu.memory.allocated"@.len() != "gpu.memory.total"@.len());
    assert("gpu.memory.allocated"@.len() != "gpu.power"@.len());
    assert("gpu.memory.allocated"@.len() != "gpu.temperature"@.len());
    assert("gpu.device.identity"@.len() != "gpu.memory.total"@.len());
    assert("gpu.device.identity"@.len() != "gpu.power"@.len());
    assert("gpu.device.identity"@.len() != "gpu.temperature"@.len());
    assert("gpu.memory.total"@.len() != "gpu.power"@.len());
    assert("gpu.memory.total"@.len() != "gpu.temperature"@.len());
    assert("gpu.power"@.len() != "gpu.temperature"@.len());
}

/// Whether the measurements report field `name` from `value`: every
/// measurement under that name carries the field's value, as a binary64
/// number, in the field's unit; and there is one whenever the value is
/// reported (and, for a percentage, at most 100).
pub open spec fn reports_field(ms: Seq<MetricRecord>, name: Seq<char>, value: Option<u64>, percent: bool) -> bool {
    &&& forall|k: int|
        0 <= k < ms.len() && (#[trigger] ms[k]).name == name ==> (value matches Some(v) && (!percent
            || v <= 100) && ms[k].value_bits == integer_bits(v as nat) as u64 && ms[k].unit == if percent {
            "percent"@
        } else {
            "bytes"@
        })
    &&& (value matches Some(v) && (!percent || v <= 100)) ==> exists|k: int|
        0 <= k < ms.len() && (#[trigger] ms[k]).name == name
}

/// Whether no measurement is named `name`.
pub open spec fn lacks_field(ms: Seq<MetricRecord>, name: Seq<char>) -> bool {
    forall|k: int| 0 <= k < ms.len() ==> (#[trigger] ms[k]).name != name
}

/// Whether the capability named `name` is listed, and is available exactly
/// when the field's value is reported and in range.
pub open spec fn field_capability(
    rs: Seq<CapabilityRecord>,
    name: Seq<char>,
    value: Option<u64>,
    percent: bool,
) -> bool {
    &&& forall|k: int|
        0 <= k < rs.len() && (#[trigger] rs[k]).capability == name ==> (rs[k].state
            == CapabilityState::Available <==> (value matches Some(v) && (!percent || v <= 100)))
    &&& exists|k: int| 0 <= k < rs.len() && (#[trigger] rs[k]).capability == name
}

proof fn lemma_field_metric_shape(name: Seq<char>, value: Option<u64>, percent: bool, t: i64, other: Seq<char>)
    ensures
        reports_field(field_metric(name, value, percent, t), name, value, percent),
        other != name ==> lacks_field(field_metric(name, value, percent, t), other),
{
    let ms = field_metric(name, value, percent, t);
    if value is Some && (!percent || value->0 <= 100) {
        assert(ms[0].name == name);
    }
}

proof fn lemma_reports_concat(
    x: Seq<MetricRecord>,
    y: Seq<MetricRecord>,
    name: Seq<char>,
    value: Option<u64>,
    percent: bool,
)
    ensures
        reports_field(x, name, value, percent) && lacks_field(y, name) ==> reports_field(x + y, name, value, percent),
        lacks_field(x, name) && reports_field(y, name, value, percent) ==> reports_field(x + y, name, value, percent),
        lacks_field(x, name) && lacks_field(y, name) ==> lacks_field(x + y, name),
{
    let z = x + y;
    assert forall|k: int| 0 <= k < z.len() implies #[trigger] z[k] == if k < x.len() {
        x[k]
    } else {
        y[k - x.len()]
    } by {}
    if reports_field(x, name, value, percent) && lacks_field(y, name) {
        if value is Some && (!percent || value->0 <= 100) {
            let k = choose|k: int| 0 <= k < x.len() && (#[trigger] x[k]).name == name;
            assert(z[k] == x[k]);
        }
    }
    if lacks_field(x, name) && reports_field(y, name, value, percent) {
        if value is Some && (!percent || value->0 <= 100) {
            let k = choose|k: int| 0 <= k < y.len() && (#[trigger] y[k]).name == name;
            assert(z[k + x.len()] == y[k]);
        }
        assert forall|k: int| 0 <= k < z.len() && (#[trigger] z[k]).name == name implies (value matches Some(v) && (!percent
            || v <= 100) && z[k].value_bits == integer_bits(v as nat) as u64 && z[k].unit == if percent {
            "percent"@
        } else {
            "bytes"@
        }) by {
            assert(z[k] == y[k - x.len()]);
        }
    }
}

/// Each GPU field is reported under its own name: the measurement named
/// after a field carries that field's value and no other (the memory figures
/// in bytes, the utilizations as percentages up to 100), and the capability
/// named after a field is available exactly when that field is reported.
pub proof fn lemma_gpu_fields_keep_their_names(
    s: PerformanceStatistics,
    core_count: Option<u64>,
    t: i64,
)
    ensures
        reports_field(statistics_metrics(s, t), "gpu.device.usage"@, s.device_utilization, true),
        reports_field(statistics_metrics(s, t), "gpu.renderer.usage"@, s.renderer_utilization, true),
        reports_field(statistics_metrics(s, t), "gpu.tiler.usage"@, s.tiler_utilization, true),
        reports_field(statistics_metrics(s, t), "gpu.memory.used"@, s.memory_used, false),
        reports_field(statistics_metrics(s, t), "gpu.memory.allocated"@, s.memory_allocated, false),
        field_capability(statistics_records(s, core_count, t), "gpu.device.usage"@, s.device_utilization, true),
        field_capability(statistics_records(s, core_count, t), "gpu.renderer.usage"@, s.renderer_utilization, true),
        field_capability(statistics_records(s, core_count, t), "gpu.tiler.usage"@, s.tiler_utilization, true),
        field_capability(statistics_records(s, core_count, t), "gpu.memory.used"@, s.memory_used, false),
        field_capability(statistics_records(s, core_count, t), "gpu.memory.allocated"@, s.memory_allocated, false),
{
    lemma_gpu_names_distinct();
    let names = seq!["gpu.device.usage"@, "gpu.renderer.usage"@, "gpu.tiler.usage"@, "gpu.memory.used"@, "gpu.memory.allocated"@];
    let values = seq![s.device_utilization, s.renderer_utilization, s.tiler_utilization, s.memory_used, s.memory_allocated];
    let percents = seq![true, true, true, false, false];
    let pieces = Seq::new(5, |j: int| field_metric(names[j], values[j], percents[j], t));
    assert(statistics_metrics(s, t) == pieces[0] + pieces[1] + pieces[2] + pieces[3] + pieces[4]);
    let rs = statistics_records(s, core_count, t);
    assert forall|i: int| 0 <= i < 5 implies reports_field(statistics_metrics(s, t), #[trigger] names[i], values[i], percents[i])
        && field_capability(rs, names[i], values[i], percents[i]) by {
        assert forall|j: int| 0 <= j < 5 implies (j == i ==> reports_field(#[trigger] pieces[j], names[i], values[i], percents[i]))
            && (j != i ==> lacks_field(pieces[j], names[i])) by {
            lemma_field_metric_shape(names[j], values[j], percents[j], t, names[i]);
        }
        let n = names[i];
        let v = values[i];
        let p = percents[i];
        lemma_reports_concat(pieces[0], pieces[1], n, v, p);
        lemma_reports_concat(pieces[0] + pieces[1], pieces[2], n, v, p);
        lemma_reports_concat(pieces[0] + pieces[1] + pieces[2], pieces[3], n, v, p);
        lemma_reports_concat(pieces[0] + pieces[1] + pieces[2] + pieces[3], pieces[4], n, v, p);
        assert(rs[i].capability == n);
        assert forall|k: int| 0 <= k < rs.len() && (#[trigger] rs[k]).capability == n implies k == i by {}
    }
    assert(names[0] == "gpu.device.usage"@);
    assert(names[1] == "gpu.renderer.usage"@);
    assert(names[2] == "gpu.tiler.usage"@);
    assert(names[3] == "gpu.memory.used"@);
    assert(names[4] == "gpu.memory.allocated"@);
}

} // verus!
