//! The normalized measurement that collectors hand to storage and detection.
use vstd::prelude::*;

verus! {

/// One measurement.  `value_bits` is the IEEE-754 bit pattern of the measured
/// value (see `float_bits`); `collected_at_ms` is the UTC collection time in
/// Unix milliseconds.
#[derive(Debug)]
pub struct Metric {
    pub collected_at_ms: i64,
    pub collector: String,
    pub resource: Option<String>,
    pub name: String,
    pub value_bits: u64,
    pub unit: String,
}

/// All measurements of one collection cycle.
pub type MetricBatch = Vec<Metric>;

/// A copy of an optional string.
pub fn copy_optional_string(value: &Option<String>) -> (r: Option<String>)
    ensures
        r == *value,
{
    match value {
        Some(text) => Some(text.clone()),
        None => None,
    }
}

impl Clone for Metric {
    fn clone(&self) -> (r: Self)
        ensures
            r == *self,
    {
        Metric {
            collected_at_ms: self.collected_at_ms,
            collector: self.collector.clone(),
            resource: copy_optional_string(&self.resource),
            name: self.name.clone(),
            value_bits: self.value_bits,
            unit: self.unit.clone(),
        }
    }
}

impl Metric {
    /// A measurement of the whole system, not of one resource.
    pub fn new(collected_at_ms: i64, collector: &str, name: &str, value_bits: u64, unit: &str) -> (m:
        Self)
        ensures
            m.collected_at_ms == collected_at_ms,
            m.collector@ == collector@,
            m.resource is None,
            m.name@ == name@,
            m.value_bits == value_bits,
            m.unit@ == unit@,
    {
        Metric {
            collected_at_ms,
            collector: collector.to_owned(),
            resource: None,
            name: name.to_owned(),
            value_bits,
            unit: unit.to_owned(),
        }
    }

    /// A measurement of one resource, such as a mount point or an interface.
    pub fn for_resource(
        collected_at_ms: i64,
        collector: &str,
        resource: &str,
        name: &str,
        value_bits: u64,
        unit: &str,
    ) -> (m: Self)
        ensures
            m.collected_at_ms == collected_at_ms,
            m.collector@ == collector@,
            m.resource matches Some(r) && r@ == resource@,
            m.name@ == name@,
            m.value_bits == value_bits,
            m.unit@ == unit@,
    {
        Metric {
            collected_at_ms,
            collector: collector.to_owned(),
            resource: Some(resource.to_owned()),
            name: name.to_owned(),
            value_bits,
            unit: unit.to_owned(),
        }
    }
}


/// How far a collector can currently deliver one capability.
#[derive(Debug, Clone, Copy, PartialEq, Eq, Structural)]
pub enum CapabilityState {
    Available,
    Degraded,
    Unavailable,
}

/// The stored name of a capability state.
pub open spec fn capability_state_name(state: CapabilityState) -> Seq<char> {
    match state {
        CapabilityState::Available => "available"@,
        CapabilityState::Degraded => "degraded"@,
        CapabilityState::Unavailable => "unavailable"@,
    }
}

impl CapabilityState {
    /// The stored name of the state (see `capability_state_name`).
    pub fn as_str(self) -> (name: &'static str)
        ensures
            name@ == capability_state_name(self),
    {
        match self {
            CapabilityState::Available => "available",
            CapabilityState::Degraded => "degraded",
            CapabilityState::Unavailable => "unavailable",
        }
    }

    /// The state a stored name denotes, if any.
    pub fn parse(value: &str) -> (state: Option<Self>)
        ensures
            state matches Some(s) ==> capability_state_name(s) == value@,
            state is None ==> forall|s: CapabilityState| capability_state_name(s) != value@,
    {
        if crate::text::str_equal(value, "available") {
            Some(CapabilityState::Available)
        } else if crate::text::str_equal(value, "degraded") {
            Some(CapabilityState::Degraded)
        } else if crate::text::str_equal(value, "unavailable") {
            Some(CapabilityState::Unavailable)
        } else {
            None
        }
    }
}

/// Distinct capability states have distinct stored names, so reading back the
/// stored name of a state gives that state.
pub proof fn lemma_capability_state_names_are_distinct(a: CapabilityState, b: CapabilityState)
    ensures
        capability_state_name(a) == capability_state_name(b) ==> a == b,
{
    reveal_strlit("available");
    reveal_strlit("degraded");
    reveal_strlit("unavailable");
    assert("available"@[0] != "degraded"@[0] && "available"@[0] != "unavailable"@[0]
        && "degraded"@[0] != "unavailable"@[0]);
}

/// The state of one capability of a collector, as last checked.
#[derive(Debug)]
pub struct CollectorCapability {
    pub collector: String,
    pub resource: String,
    pub capability: String,
    pub state: CapabilityState,
    pub provider: String,
    pub detail: Option<String>,
    pub checked_at_ms: i64,
}

/// The capabilities reported in one collection.
pub type CapabilityBatch = Vec<CollectorCapability>;

/// What a capability record holds, as plain values.
pub struct CapabilityRecord {
    pub collector: Seq<char>,
    pub resource: Seq<char>,
    pub capability: Seq<char>,
    pub state: CapabilityState,
    pub provider: Seq<char>,
    pub detail: Option<Seq<char>>,
    pub checked_at_ms: i64,
}

/// The view of an optional string.
pub open spec fn text_of(value: Option<String>) -> Option<Seq<char>> {
    match value {
        Some(s) => Some(s@),
        None => None,
    }
}

/// What a capability record holds.
pub open spec fn capability_record(c: CollectorCapability) -> CapabilityRecord {
    CapabilityRecord {
        collector: c.collector@,
        resource: c.resource@,
        capability: c.capability@,
        state: c.state,
        provider: c.provider@,
        detail: text_of(c.detail),
        checked_at_ms: c.checked_at_ms,
    }
}

/// What a measurement holds, as plain values.
pub struct MetricRecord {
    pub collected_at_ms: i64,
    pub collector: Seq<char>,
    pub resource: Option<Seq<char>>,
    pub name: Seq<char>,
    pub value_bits: u64,
    pub unit: Seq<char>,
}

/// What a measurement holds.
pub open spec fn metric_record(m: Metric) -> MetricRecord {
    MetricRecord {
        collected_at_ms: m.collected_at_ms,
        collector: m.collector@,
        resource: text_of(m.resource),
        name: m.name@,
        value_bits: m.value_bits,
        unit: m.unit@,
    }
}

/// A copy of an optional string slice.
pub fn owned_detail(detail: Option<&str>) -> (r: Option<String>)
    ensures
        text_of(r) == crate::anomaly_storage::optional_text(detail),
{
    match detail {
        Some(text) => Some(text.to_owned()),
        None => None,
    }
}


/// One process of a snapshot, with its rank in each ranking that kept it.
/// Rates and percentages are binary64 bit patterns (see `float_bits`).
#[derive(Debug)]
pub struct ProcessSample {
    pub collected_at_ms: i64,
    pub pid: u32,
    pub process_start_time_seconds: u64,
    pub parent_pid: Option<u32>,
    pub name: String,
    pub executable_path: Option<String>,
    pub cpu_usage_percent_bits: u64,
    pub memory_bytes: u64,
    pub disk_read_bytes: u64,
    pub disk_write_bytes: u64,
    pub disk_read_bytes_per_second_bits: u64,
    pub disk_write_bytes_per_second_bits: u64,
    pub network_receive_bytes: Option<u64>,
    pub network_transmit_bytes: Option<u64>,
    pub network_receive_bytes_per_second_bits: Option<u64>,
    pub network_transmit_bytes_per_second_bits: Option<u64>,
    pub gpu_time_ns: Option<u64>,
    pub gpu_usage_percent_bits: Option<u64>,
    pub cpu_rank: Option<u32>,
    pub memory_rank: Option<u32>,
    pub disk_read_rank: Option<u32>,
    pub disk_write_rank: Option<u32>,
    pub network_receive_rank: Option<u32>,
    pub network_transmit_rank: Option<u32>,
    pub gpu_rank: Option<u32>,
}

/// The processes kept by one collection.
pub type ProcessSnapshot = Vec<ProcessSample>;

} // verus!
