//! Sustained-threshold anomaly detection.
//!
//! Each enabled rule keeps an independent state per resource.  A breach first
//! becomes a pending candidate; the candidate opens an event once it has lasted
//! both the rule's duration and its minimum sample count.  An open warning
//! escalates to critical after a sustained critical candidate, recovers through
//! a sustained recovery candidate, and never downgrades while it is open.
use vstd::prelude::*;

use crate::config::{AnomalyConfig, AnomalyRuleConfig};
use crate::float_bits::{
    is_finite_bits, is_finite_value,
    float_ge, float_gt, float_le, option_float_ne, option_value_ne, value_ge, value_gt, value_le,
};
use crate::model::{Metric, MetricBatch};
use crate::text::str_equal;

verus! {

broadcast use vstd::string::group_string_axioms;

/// Severity of a breach or an event.
#[derive(Debug, Clone, Copy, PartialEq, Eq, Structural)]
pub enum Severity {
    Warning,
    Critical,
}

/// The stored name of a severity.
pub open spec fn severity_name(severity: Severity) -> Seq<char> {
    match severity {
        Severity::Warning => "warning"@,
        Severity::Critical => "critical"@,
    }
}

/// The severity a stored name denotes, if any.
pub open spec fn severity_named(name: Seq<char>) -> Option<Severity> {
    if name == "warning"@ {
        Some(Severity::Warning)
    } else if name == "critical"@ {
        Some(Severity::Critical)
    } else {
        None
    }
}

impl Severity {
    /// The name stored for this severity.
    pub fn as_str(self) -> (name: &'static str)
        ensures
            name@ == severity_name(self),
    {
        match self {
            Severity::Warning => "warning",
            Severity::Critical => "critical",
        }
    }

    /// The severity with the given stored name, if any.
    pub fn parse(value: &str) -> (severity: Option<Self>)
        ensures
            severity == severity_named(value@),
    {
        proof {
            reveal_strlit("warning");
            reveal_strlit("critical");
            assert("warning"@.len() != "critical"@.len());
        }
        if str_equal(value, "warning") {
            Some(Severity::Warning)
        } else if str_equal(value, "critical") {
            Some(Severity::Critical)
        } else {
            None
        }
    }
}

/// Reading back the stored name of a severity gives that severity.
pub proof fn lemma_severity_name_round_trip(severity: Severity)
    ensures
        severity_named(severity_name(severity)) == Some(severity),
{
    reveal_strlit("warning");
    reveal_strlit("critical");
    assert("warning"@.len() != "critical"@.len());
}

/// Where a rule state stands.
#[derive(Debug, Clone, Copy, PartialEq, Eq, Structural)]
pub enum Phase {
    Normal,
    Pending,
    Open,
    Recovering,
}

/// The stored name of a phase.
pub open spec fn phase_name(phase: Phase) -> Seq<char> {
    match phase {
        Phase::Normal => "normal"@,
        Phase::Pending => "pending"@,
        Phase::Open => "open"@,
        Phase::Recovering => "recovering"@,
    }
}

/// The phase a stored name denotes, if any.
pub open spec fn phase_named(name: Seq<char>) -> Option<Phase> {
    if name == "normal"@ {
        Some(Phase::Normal)
    } else if name == "pending"@ {
        Some(Phase::Pending)
    } else if name == "open"@ {
        Some(Phase::Open)
    } else if name == "recovering"@ {
        Some(Phase::Recovering)
    } else {
        None
    }
}

impl Phase {
    /// The name stored for this phase.
    pub fn as_str(self) -> (name: &'static str)
        ensures
            name@ == phase_name(self),
    {
        match self {
            Phase::Normal => "normal",
            Phase::Pending => "pending",
            Phase::Open => "open",
            Phase::Recovering => "recovering",
        }
    }

    /// The phase with the given stored name, if any.
    pub fn parse(value: &str) -> (phase: Option<Self>)
        ensures
            phase == phase_named(value@),
    {
        proof {
            reveal_strlit("normal");
            reveal_strlit("pending");
            reveal_strlit("open");
            reveal_strlit("recovering");
            assert("normal"@[0] != "pending"@[0] && "normal"@[0] != "open"@[0] && "normal"@[0]
                != "recovering"@[0] && "pending"@[0] != "open"@[0] && "pending"@[0]
                != "recovering"@[0] && "open"@[0] != "recovering"@[0]);
        }
        if str_equal(value, "normal") {
            Some(Phase::Normal)
        } else if str_equal(value, "pending") {
            Some(Phase::Pending)
        } else if str_equal(value, "open") {
            Some(Phase::Open)
        } else if str_equal(value, "recovering") {
            Some(Phase::Recovering)
        } else {
            None
        }
    }
}

/// Reading back the stored name of a phase gives that phase.
pub proof fn lemma_phase_name_round_trip(phase: Phase)
    ensures
        phase_named(phase_name(phase)) == Some(phase),
{
    reveal_strlit("normal");
    reveal_strlit("pending");
    reveal_strlit("open");
    reveal_strlit("recovering");
    assert("normal"@[0] != "pending"@[0] && "normal"@[0] != "open"@[0] && "normal"@[0]
        != "recovering"@[0] && "pending"@[0] != "open"@[0] && "pending"@[0]
        != "recovering"@[0] && "open"@[0] != "recovering"@[0]);
}

/// Identity of a rule state: the rule and the resource (empty for the whole system).
#[derive(Debug)]
pub struct StateKey {
    pub rule_id: String,
    pub resource: String,
}

impl View for StateKey {
    type V = (Seq<char>, Seq<char>);

    open spec fn view(&self) -> (Seq<char>, Seq<char>) {
        (self.rule_id@, self.resource@)
    }
}

impl Clone for StateKey {
    fn clone(&self) -> (r: Self)
        ensures
            r == *self,
    {
        StateKey { rule_id: self.rule_id.clone(), resource: self.resource.clone() }
    }
}

/// Detection state of one rule for one resource.  Values are IEEE-754 bit patterns.
#[derive(Debug, Clone, Copy)]
pub struct RuleState {
    pub phase: Phase,
    pub severity: Option<Severity>,
    pub pending_severity: Option<Severity>,
    pub pending_since_ms: Option<i64>,
    pub pending_samples: u64,
    pub critical_since_ms: Option<i64>,
    pub critical_samples: u64,
    pub recovery_since_ms: Option<i64>,
    pub recovery_samples: u64,
    pub event_id: Option<i64>,
    pub last_sample_ms: Option<i64>,
    pub last_value: Option<u64>,
    pub peak_value: Option<u64>,
    pub peak_at_ms: Option<i64>,
    pub last_evidence_ms: Option<i64>,
    pub data_gap_count: u64,
}

/// The state of a rule that has seen nothing.
pub open spec fn initial_state() -> RuleState {
    RuleState {
        phase: Phase::Normal,
        severity: None,
        pending_severity: None,
        pending_since_ms: None,
        pending_samples: 0,
        critical_since_ms: None,
        critical_samples: 0,
        recovery_since_ms: None,
        recovery_samples: 0,
        event_id: None,
        last_sample_ms: None,
        last_value: None,
        peak_value: None,
        peak_at_ms: None,
        last_evidence_ms: None,
        data_gap_count: 0,
    }
}

impl Default for RuleState {
    fn default() -> (state: Self)
        ensures
            state == initial_state(),
    {
        RuleState {
            phase: Phase::Normal,
            severity: None,
            pending_severity: None,
            pending_since_ms: None,
            pending_samples: 0,
            critical_since_ms: None,
            critical_samples: 0,
            recovery_since_ms: None,
            recovery_samples: 0,
            event_id: None,
            last_sample_ms: None,
            last_value: None,
            peak_value: None,
            peak_at_ms: None,
            last_evidence_ms: None,
            data_gap_count: 0,
        }
    }
}

/// What one evaluation did to the event of its rule state.
#[derive(Debug, Clone, Copy, PartialEq, Eq, Structural)]
pub enum Transition {
    NoChange,
    Open,
    Escalate,
    Close,
}

// ---------------------------------------------------------------------------
// Saturating arithmetic on the engine's time and counter types.
/// `i64` arithmetic that saturates at the bounds of the type.
pub open spec fn clamp_i64(x: int) -> int {
    if x < i64::MIN {
        i64::MIN as int
    } else if x > i64::MAX {
        i64::MAX as int
    } else {
        x
    }
}

/// Milliseconds from `earlier` to `later`, saturating like `i64::saturating_sub`.
pub open spec fn elapsed_ms(later: i64, earlier: i64) -> int {
    clamp_i64(later - earlier)
}

/// A counter incremented with `u64::saturating_add(1)`.
pub open spec fn incremented(n: u64) -> u64 {
    if n == u64::MAX {
        n
    } else {
        (n + 1) as u64
    }
}

/// Milliseconds in a configured number of seconds; a count of seconds beyond
/// the `i64` range is first replaced by `i64::MAX / 1000`.
pub open spec fn seconds_to_ms(seconds: u64) -> int {
    if seconds <= i64::MAX {
        clamp_i64(seconds * 1000)
    } else {
        (i64::MAX / 1000) * 1000
    }
}

/// Milliseconds in a configured number of seconds.
pub fn seconds_ms(seconds: u64) -> (ms: i64)
    ensures
        ms == seconds_to_ms(seconds),
{
    if seconds > i64::MAX as u64 {
        (i64::MAX / 1000) * 1000
    } else if seconds > (i64::MAX as u64) / 1000 {
        i64::MAX
    } else {
        (seconds * 1000) as i64
    }
}

fn saturating_elapsed(later: i64, earlier: i64) -> (ms: i64)
    ensures
        ms == elapsed_ms(later, earlier),
{
    let difference = later as i128 - earlier as i128;
    if difference > i64::MAX as i128 {
        i64::MAX
    } else if difference < i64::MIN as i128 {
        i64::MIN
    } else {
        difference as i64
    }
}

fn incremented_count(n: u64) -> (r: u64)
    ensures
        r == incremented(n),
{
    n.saturating_add(1)
}

// ---------------------------------------------------------------------------
// The rule-state machine, as a function of the stored state and one sample.
/// The severity a value breaches: critical at or above the critical
/// threshold, warning at or above the warning threshold.
pub open spec fn breached_severity(rule: AnomalyRuleConfig, value: u64) -> Option<Severity> {
    if float_ge(value, rule.critical_threshold) {
        Some(Severity::Critical)
    } else if float_ge(value, rule.warning_threshold) {
        Some(Severity::Warning)
    } else {
        None
    }
}

/// A candidate has matured once it has both enough samples and a long enough duration.
pub open spec fn has_matured(
    since_ms: Option<i64>,
    samples: u64,
    duration_seconds: u64,
    min_samples: u64,
    timestamp_ms: i64,
) -> bool {
    samples >= min_samples && match since_ms {
        Some(since) => elapsed_ms(timestamp_ms, since) >= seconds_to_ms(duration_seconds),
        None => false,
    }
}

/// Whether the pending candidate has matured under the limits of its severity.
pub open spec fn candidate_has_matured(
    state: RuleState,
    rule: AnomalyRuleConfig,
    timestamp_ms: i64,
) -> bool {
    match state.pending_severity {
        Some(Severity::Warning) => has_matured(
            state.pending_since_ms,
            state.pending_samples,
            rule.trigger_seconds,
            rule.min_samples,
            timestamp_ms,
        ),
        Some(Severity::Critical) => has_matured(
            state.pending_since_ms,
            state.pending_samples,
            rule.critical_trigger_seconds,
            rule.critical_min_samples,
            timestamp_ms,
        ),
        None => false,
    }
}

/// The state without a pending candidate.
pub open spec fn without_pending(s: RuleState) -> RuleState {
    RuleState { pending_severity: None, pending_since_ms: None, pending_samples: 0, ..s }
}

/// The state without an escalation candidate.
pub open spec fn without_critical(s: RuleState) -> RuleState {
    RuleState { critical_since_ms: None, critical_samples: 0, ..s }
}

/// The state without a recovery candidate.
pub open spec fn without_recovery(s: RuleState) -> RuleState {
    RuleState { recovery_since_ms: None, recovery_samples: 0, ..s }
}

/// Back to normal, keeping only the last sample.
pub open spec fn reset_state(s: RuleState) -> RuleState {
    RuleState { last_sample_ms: s.last_sample_ms, last_value: s.last_value, ..initial_state() }
}

/// The pending candidate promoted to an open event.
pub open spec fn opened_state(s: RuleState) -> RuleState {
    without_pending(RuleState { phase: Phase::Open, severity: s.pending_severity, ..s })
}

/// Normal: a breach starts a pending candidate whose peak is the breaching value.
pub open spec fn normal_step(s: RuleState, rule: AnomalyRuleConfig, v: u64, ts: i64) -> RuleState {
    match breached_severity(rule, v) {
        Some(severity) => RuleState {
            phase: Phase::Pending,
            pending_severity: Some(severity),
            pending_since_ms: Some(ts),
            pending_samples: 1,
            peak_value: Some(v),
            peak_at_ms: Some(ts),
            ..s
        },
        None => s,
    }
}

/// Pending: no breach returns to normal; a change of severity restarts the
/// candidate; the candidate opens once it has matured.
pub open spec fn pending_step(s: RuleState, rule: AnomalyRuleConfig, v: u64, ts: i64) -> (
    RuleState,
    Transition,
) {
    match breached_severity(rule, v) {
        None => (reset_state(s), Transition::NoChange),
        Some(severity) => {
            let next = if s.pending_severity != Some(severity) {
                RuleState {
                    pending_severity: Some(severity),
                    pending_since_ms: Some(ts),
                    pending_samples: 1,
                    ..s
                }
            } else {
                RuleState { pending_samples: incremented(s.pending_samples), ..s }
            };
            (
                next,
                if candidate_has_matured(next, rule, ts) {
                    Transition::Open
                } else {
                    Transition::NoChange
                },
            )
        },
    }
}

/// Open: a value at or below the recovery threshold starts a recovery
/// candidate; a warning event escalates after a matured critical candidate.
pub open spec fn open_step(s: RuleState, rule: AnomalyRuleConfig, v: u64, ts: i64) -> (
    RuleState,
    Transition,
) {
    if float_le(v, rule.recovery_threshold) {
        (
            RuleState {
                phase: Phase::Recovering,
                recovery_since_ms: Some(ts),
                recovery_samples: 1,
                ..s
            },
            Transition::NoChange,
        )
    } else {
        let s1 = without_recovery(s);
        if s1.severity == Some(Severity::Warning) && float_ge(v, rule.critical_threshold) {
            let s2 = if s1.critical_since_ms is None {
                RuleState { critical_since_ms: Some(ts), critical_samples: 1, ..s1 }
            } else {
                RuleState { critical_samples: incremented(s1.critical_samples), ..s1 }
            };
            if has_matured(
                s2.critical_since_ms,
                s2.critical_samples,
                rule.critical_trigger_seconds,
                rule.critical_min_samples,
                ts,
            ) {
                (
                    without_critical(RuleState { severity: Some(Severity::Critical), ..s2 }),
                    Transition::Escalate,
                )
            } else {
                (s2, Transition::NoChange)
            }
        } else {
            (without_critical(s1), Transition::NoChange)
        }
    }
}

/// Recovering: a warning-level value reopens the event; values at or below
/// the recovery threshold extend the candidate until it closes the event;
/// values in between return to open.
pub open spec fn recovering_step(s: RuleState, rule: AnomalyRuleConfig, v: u64, ts: i64) -> (
    RuleState,
    Transition,
) {
    if float_ge(v, rule.warning_threshold) {
        open_step(without_recovery(RuleState { phase: Phase::Open, ..s }), rule, v, ts)
    } else if float_le(v, rule.recovery_threshold) {
        let s1 = RuleState { recovery_samples: incremented(s.recovery_samples), ..s };
        if has_matured(
            s1.recovery_since_ms,
            s1.recovery_samples,
            rule.recovery_seconds,
            rule.recovery_min_samples,
            ts,
        ) {
            (s1, Transition::Close)
        } else {
            (s1, Transition::NoChange)
        }
    } else {
        (without_recovery(RuleState { phase: Phase::Open, ..s }), Transition::NoChange)
    }
}

/// Whether a sample at `ts` comes after a gap longer than the rule allows.
pub open spec fn is_data_gap(s: RuleState, rule: AnomalyRuleConfig, ts: i64) -> bool {
    match s.last_sample_ms {
        Some(last) => elapsed_ms(ts, last) > seconds_to_ms(rule.max_sample_gap_seconds),
        None => false,
    }
}

/// A gap resets a pending candidate; an open or recovering event counts the
/// gap, drops its escalation and recovery candidates and stays open.
pub open spec fn after_gap(s: RuleState) -> RuleState {
    match s.phase {
        Phase::Pending => reset_state(s),
        Phase::Open | Phase::Recovering => RuleState {
            data_gap_count: incremented(s.data_gap_count),
            phase: Phase::Open,
            ..without_recovery(without_critical(s))
        },
        Phase::Normal => s,
    }
}

/// Records the sample and, while a candidate or event is active, a new peak.
pub open spec fn observed(s: RuleState, v: u64, ts: i64) -> RuleState {
    let s1 = RuleState { last_sample_ms: Some(ts), last_value: Some(v), ..s };
    if s1.phase != Phase::Normal && match s1.peak_value {
        None => true,
        Some(peak) => float_gt(v, peak),
    } {
        RuleState { peak_value: Some(v), peak_at_ms: Some(ts), ..s1 }
    } else {
        s1
    }
}

/// What one evaluation reports besides its identity.
#[derive(Debug, Clone, Copy)]
pub struct Outcome {
    pub transition: Transition,
    pub event_id: Option<i64>,
    pub event_started_at_ms: Option<i64>,
    pub trigger_sample_count: u64,
    pub new_peak: bool,
    pub periodic_evidence: bool,
    pub data_gap: bool,
    pub state: RuleState,
}

/// One sample applied to a stored rule state: the state stored afterwards and
/// the outcome reported, or `None` for a sample that is not newer than the last one.
pub open spec fn evaluate_sample(
    stored: RuleState,
    rule: AnomalyRuleConfig,
    timestamp_ms: i64,
    value: u64,
    evidence_interval_ms: i64,
) -> (RuleState, Option<Outcome>) {
    if stored.last_sample_ms matches Some(last) && timestamp_ms <= last {
        (stored, None)
    } else {
        let data_gap = is_data_gap(stored, rule, timestamp_ms);
        let s1 = if data_gap {
            after_gap(stored)
        } else {
            stored
        };
        let s2 = observed(s1, value, timestamp_ms);
        let old_peak = s1.peak_value;
        let event_before = s2.event_id;
        let (s3, transition, started, trigger_count) = match s2.phase {
            Phase::Normal => (normal_step(s2, rule, value, timestamp_ms), Transition::NoChange, None, 0),
            Phase::Pending => {
                let (p, t) = pending_step(s2, rule, value, timestamp_ms);
                if t == Transition::Open {
                    (opened_state(p), t, p.pending_since_ms, p.pending_samples)
                } else {
                    (p, t, None, 0)
                }
            },
            Phase::Open => {
                let (p, t) = open_step(s2, rule, value, timestamp_ms);
                (p, t, None, 0)
            },
            Phase::Recovering => {
                let (p, t) = recovering_step(s2, rule, value, timestamp_ms);
                (p, t, None, 0)
            },
        };
        if s3.phase == Phase::Pending && candidate_has_matured(s3, rule, timestamp_ms) {
            let opened = opened_state(s3);
            (
                opened,
                Some(
                    Outcome {
                        transition: Transition::Open,
                        event_id: event_before,
                        event_started_at_ms: s3.pending_since_ms,
                        trigger_sample_count: s3.pending_samples,
                        new_peak: true,
                        periodic_evidence: false,
                        data_gap,
                        state: opened,
                    },
                ),
            )
        } else {
            let new_peak = event_before is Some && s3.peak_value is Some && option_float_ne(
                s3.peak_value,
                old_peak,
            );
            let periodic = event_before is Some && transition != Transition::Close && match s3.last_evidence_ms {
                None => true,
                Some(last) => elapsed_ms(timestamp_ms, last) >= evidence_interval_ms,
            };
            let s4 = if periodic {
                RuleState { last_evidence_ms: Some(timestamp_ms), ..s3 }
            } else {
                s3
            };
            if transition == Transition::Close {
                (
                    reset_state(s4),
                    Some(
                        Outcome {
                            transition,
                            event_id: event_before,
                            event_started_at_ms: started,
                            trigger_sample_count: trigger_count,
                            new_peak,
                            periodic_evidence: false,
                            data_gap,
                            state: s4,
                        },
                    ),
                )
            } else {
                (
                    s4,
                    Some(
                        Outcome {
                            transition,
                            event_id: s4.event_id,
                            event_started_at_ms: started,
                            trigger_sample_count: trigger_count,
                            new_peak,
                            periodic_evidence: periodic,
                            data_gap,
                            state: s4,
                        },
                    ),
                )
            }
        }
    }
}

// ---------------------------------------------------------------------------
// The executable state machine.
fn reset_to_normal(state: &mut RuleState)
    ensures
        *final(state) == reset_state(*old(state)),
{
    *state =
    RuleState {
        last_sample_ms: state.last_sample_ms,
        last_value: state.last_value,
        ..RuleState::default()
    };
}

fn clear_pending(state: &mut RuleState)
    ensures
        *final(state) == without_pending(*old(state)),
{
    state.pending_severity = None;
    state.pending_since_ms = None;
    state.pending_samples = 0;
}

fn clear_critical_candidate(state: &mut RuleState)
    ensures
        *final(state) == without_critical(*old(state)),
{
    state.critical_since_ms = None;
    state.critical_samples = 0;
}

fn clear_recovery_candidate(state: &mut RuleState)
    ensures
        *final(state) == without_recovery(*old(state)),
{
    state.recovery_since_ms = None;
    state.recovery_samples = 0;
}

fn breached(rule: &AnomalyRuleConfig, value: u64) -> (severity: Option<Severity>)
    ensures
        severity == breached_severity(*rule, value),
{
    if value_ge(value, rule.critical_threshold) {
        Some(Severity::Critical)
    } else if value_ge(value, rule.warning_threshold) {
        Some(Severity::Warning)
    } else {
        None
    }
}

/// Whether a candidate has both its minimum sample count and its minimum duration.
pub fn matured(
    since_ms: Option<i64>,
    samples: u64,
    duration_seconds: u64,
    min_samples: u64,
    timestamp_ms: i64,
) -> (r: bool)
    ensures
        r == has_matured(since_ms, samples, duration_seconds, min_samples, timestamp_ms),
{
    samples >= min_samples && match since_ms {
        Some(since) => saturating_elapsed(timestamp_ms, since) >= seconds_ms(duration_seconds),
        None => false,
    }
}

fn candidate_matured(state: &RuleState, rule: &AnomalyRuleConfig, timestamp_ms: i64) -> (r: bool)
    ensures
        r == candidate_has_matured(*state, *rule, timestamp_ms),
{
    match state.pending_severity {
        Some(Severity::Warning) => matured(
            state.pending_since_ms,
            state.pending_samples,
            rule.trigger_seconds,
            rule.min_samples,
            timestamp_ms,
        ),
        Some(Severity::Critical) => matured(
            state.pending_since_ms,
            state.pending_samples,
            rule.critical_trigger_seconds,
            rule.critical_min_samples,
            timestamp_ms,
        ),
        None => false,
    }
}

fn begin_pending_or_stay_normal(
    state: &mut RuleState,
    rule: &AnomalyRuleConfig,
    value: u64,
    timestamp_ms: i64,
) -> (t: Transition)
    ensures
        *final(state) == normal_step(*old(state), *rule, value, timestamp_ms),
        t == Transition::NoChange,
{
    if let Some(severity) = breached(rule, value) {
        state.phase = Phase::Pending;
        state.pending_severity = Some(severity);
        state.pending_since_ms = Some(timestamp_ms);
        state.pending_samples = 1;
        state.peak_value = Some(value);
        state.peak_at_ms = Some(timestamp_ms);
    }
    Transition::NoChange
}

fn continue_pending(
    state: &mut RuleState,
    rule: &AnomalyRuleConfig,
    value: u64,
    timestamp_ms: i64,
) -> (t: Transition)
    ensures
        (*final(state), t) == pending_step(*old(state), *rule, value, timestamp_ms),
{
    let severity = match breached(rule, value) {
        Some(severity) => severity,
        None => {
            reset_to_normal(state);
            return Transition::NoChange;
        },
    };
    if state.pending_severity != Some(severity) {
        state.pending_severity = Some(severity);
        state.pending_since_ms = Some(timestamp_ms);
        state.pending_samples = 1;
    } else {
        state.pending_samples = incremented_count(state.pending_samples);
    }
    if candidate_matured(state, rule, timestamp_ms) {
        Transition::Open
    } else {
        Transition::NoChange
    }
}

fn continue_open(
    state: &mut RuleState,
    rule: &AnomalyRuleConfig,
    value: u64,
    timestamp_ms: i64,
) -> (t: Transition)
    ensures
        (*final(state), t) == open_step(*old(state), *rule, value, timestamp_ms),
{
    if value_le(value, rule.recovery_threshold) {
        state.phase = Phase::Recovering;
        state.recovery_since_ms = Some(timestamp_ms);
        state.recovery_samples = 1;
        return Transition::NoChange;
    }
    clear_recovery_candidate(state);
    if state.severity == Some(Severity::Warning) && value_ge(value, rule.critical_threshold) {
        if state.critical_since_ms.is_none() {
            state.critical_since_ms = Some(timestamp_ms);
            state.critical_samples = 1;
        } else {
            state.critical_samples = incremented_count(state.critical_samples);
        }
        if matured(
            state.critical_since_ms,
            state.critical_samples,
            rule.critical_trigger_seconds,
            rule.critical_min_samples,
            timestamp_ms,
        ) {
            state.severity = Some(Severity::Critical);
            clear_critical_candidate(state);
            return Transition::Escalate;
        }
    } else {
        clear_critical_candidate(state);
    }
    Transition::NoChange
}

fn continue_recovering(
    state: &mut RuleState,
    rule: &AnomalyRuleConfig,
    value: u64,
    timestamp_ms: i64,
) -> (t: Transition)
    ensures
        (*final(state), t) == recovering_step(*old(state), *rule, value, timestamp_ms),
{
    if value_ge(value, rule.warning_threshold) {
        state.phase = Phase::Open;
        clear_recovery_candidate(state);
        return continue_open(state, rule, value, timestamp_ms);
    }
    if value_le(value, rule.recovery_threshold) {
        state.recovery_samples = incremented_count(state.recovery_samples);
        if matured(
            state.recovery_since_ms,
            state.recovery_samples,
            rule.recovery_seconds,
            rule.recovery_min_samples,
            timestamp_ms,
        ) {
            return Transition::Close;
        }
    } else {
        state.phase = Phase::Open;
        clear_recovery_candidate(state);
    }
    Transition::NoChange
}

/// Applies one sample to a stored rule state (see `evaluate_sample`).
pub fn evaluate_state(
    stored: RuleState,
    rule: &AnomalyRuleConfig,
    timestamp_ms: i64,
    value: u64,
    evidence_interval_ms: i64,
) -> (r: (RuleState, Option<Outcome>))
    ensures
        r == evaluate_sample(stored, *rule, timestamp_ms, value, evidence_interval_ms),
{
    let mut state = stored;
    if let Some(last_sample) = state.last_sample_ms {
        if timestamp_ms <= last_sample {
            return (state, None);
        }
    }
    let data_gap = match state.last_sample_ms {
        Some(last_sample) => saturating_elapsed(timestamp_ms, last_sample) > seconds_ms(
            rule.max_sample_gap_seconds,
        ),
        None => false,
    };
    if data_gap {
        if state.phase == Phase::Pending {
            reset_to_normal(&mut state);
        } else if state.phase == Phase::Open || state.phase == Phase::Recovering {
            state.data_gap_count = incremented_count(state.data_gap_count);
            clear_critical_candidate(&mut state);
            clear_recovery_candidate(&mut state);
            state.phase = Phase::Open;
        }
    }
    let ghost s1 = state;
    state.last_sample_ms = Some(timestamp_ms);
    state.last_value = Some(value);
    let old_peak = state.peak_value;
    let peak_exceeded = match old_peak {
        None => true,
        Some(peak) => value_gt(value, peak),
    };
    if state.phase != Phase::Normal && peak_exceeded {
        state.peak_value = Some(value);
        state.peak_at_ms = Some(timestamp_ms);
    }
    assert(state == observed(s1, value, timestamp_ms));
    let event_id_before = state.event_id;
    let mut event_started_at_ms: Option<i64> = None;
    let mut trigger_sample_count: u64 = 0;
    let transition = match state.phase {
        Phase::Normal => begin_pending_or_stay_normal(&mut state, rule, value, timestamp_ms),
        Phase::Pending => {
            let result = continue_pending(&mut state, rule, value, timestamp_ms);
            if result == Transition::Open {
                event_started_at_ms = state.pending_since_ms;
                trigger_sample_count = state.pending_samples;
                state.phase = Phase::Open;
                state.severity = state.pending_severity;
                clear_pending(&mut state);
            }
            result
        },
        Phase::Open => continue_open(&mut state, rule, value, timestamp_ms),
        Phase::Recovering => continue_recovering(&mut state, rule, value, timestamp_ms),
    };

    if state.phase == Phase::Pending && candidate_matured(&state, rule, timestamp_ms) {
        let started = state.pending_since_ms;
        let count = state.pending_samples;
        state.phase = Phase::Open;
        state.severity = state.pending_severity;
        clear_pending(&mut state);
        return (
            state,
            Some(
                Outcome {
                    transition: Transition::Open,
                    event_id: event_id_before,
                    event_started_at_ms: started,
                    trigger_sample_count: count,
                    new_peak: true,
                    periodic_evidence: false,
                    data_gap,
                    state,
                },
            ),
        );
    }
    let new_peak = event_id_before.is_some() && state.peak_value.is_some() && option_value_ne(
        state.peak_value,
        old_peak,
    );
    let periodic_evidence = event_id_before.is_some() && transition != Transition::Close
        && match state.last_evidence_ms {
        None => true,
        Some(last) => saturating_elapsed(timestamp_ms, last) >= evidence_interval_ms,
    };
    if periodic_evidence {
        state.last_evidence_ms = Some(timestamp_ms);
    }
    if transition == Transition::Close {
        let closed_state = state;
        reset_to_normal(&mut state);
        return (
            state,
            Some(
                Outcome {
                    transition,
                    event_id: event_id_before,
                    event_started_at_ms,
                    trigger_sample_count,
                    new_peak,
                    periodic_evidence: false,
                    data_gap,
                    state: closed_state,
                },
            ),
        );
    }
    (
        state,
        Some(
            Outcome {
                transition,
                event_id: state.event_id,
                event_started_at_ms,
                trigger_sample_count,
                new_peak,
                periodic_evidence,
                data_gap,
                state,
            },
        ),
    )
}

// ---------------------------------------------------------------------------
// The engine: one rule state per rule and resource.
/// One evaluation of one rule against one sample.
#[derive(Debug)]
pub struct Evaluation {
    pub key: StateKey,
    pub rule: AnomalyRuleConfig,
    pub metric: Metric,
    pub transition: Transition,
    pub event_id: Option<i64>,
    pub event_started_at_ms: Option<i64>,
    pub trigger_sample_count: u64,
    pub new_peak: bool,
    pub periodic_evidence: bool,
    pub data_gap: bool,
    pub state: RuleState,
}

/// What an evaluation reports, in terms of views.
pub struct Expected {
    pub key: (Seq<char>, Seq<char>),
    pub rule: AnomalyRuleConfig,
    pub metric: Metric,
    pub outcome: Outcome,
}

/// Whether an evaluation reports exactly what is expected.
pub open spec fn reports(evaluation: Evaluation, expected: Expected) -> bool {
    &&& evaluation.key@ == expected.key
    &&& evaluation.rule == expected.rule
    &&& evaluation.metric == expected.metric
    &&& evaluation.transition == expected.outcome.transition
    &&& evaluation.event_id == expected.outcome.event_id
    &&& evaluation.event_started_at_ms == expected.outcome.event_started_at_ms
    &&& evaluation.trigger_sample_count == expected.outcome.trigger_sample_count
    &&& evaluation.new_peak == expected.outcome.new_peak
    &&& evaluation.periodic_evidence == expected.outcome.periodic_evidence
    &&& evaluation.data_gap == expected.outcome.data_gap
    &&& evaluation.state == expected.outcome.state
}

/// Whether a sequence of evaluations reports the expected sequence, in order.
pub open spec fn reports_all(evaluations: Seq<Evaluation>, expected: Seq<Expected>) -> bool {
    &&& evaluations.len() == expected.len()
    &&& forall|i: int| 0 <= i < evaluations.len() ==> reports(#[trigger] evaluations[i], expected[i])
}

/// The abstract engine: its settings, its rules, and the state of each key.
pub struct EngineView {
    pub enabled: bool,
    pub evidence_interval_ms: i64,
    pub rules: Seq<AnomalyRuleConfig>,
    pub keys: Seq<(Seq<char>, Seq<char>)>,
    pub states: Seq<RuleState>,
}

/// No key occurs twice.
pub open spec fn keys_distinct(keys: Seq<(Seq<char>, Seq<char>)>) -> bool {
    forall|i: int, j: int| 0 <= i < keys.len() && 0 <= j < keys.len() && i != j ==> keys[i] != keys[j]
}

/// Position of a key, or -1 when it has no state.
pub open spec fn key_index(keys: Seq<(Seq<char>, Seq<char>)>, key: (Seq<char>, Seq<char>)) -> int {
    if exists|i: int| 0 <= i < keys.len() && keys[i] == key {
        choose|i: int| 0 <= i < keys.len() && keys[i] == key
    } else {
        -1
    }
}

/// The stored state of a key; a key never seen starts from the initial state.
pub open spec fn stored_state(e: EngineView, key: (Seq<char>, Seq<char>)) -> RuleState {
    let i = key_index(e.keys, key);
    if i >= 0 {
        e.states[i]
    } else {
        initial_state()
    }
}

/// The state of a key, if it has one.
pub open spec fn state_of(e: EngineView, key: (Seq<char>, Seq<char>)) -> Option<RuleState> {
    let i = key_index(e.keys, key);
    if i >= 0 {
        Some(e.states[i])
    } else {
        None
    }
}

/// The engine with the state of one key replaced (or added).
pub open spec fn with_state(e: EngineView, key: (Seq<char>, Seq<char>), s: RuleState) -> EngineView {
    let i = key_index(e.keys, key);
    if i >= 0 {
        EngineView { states: e.states.update(i, s), ..e }
    } else {
        EngineView { keys: e.keys.push(key), states: e.states.push(s), ..e }
    }
}

/// The resource a metric's state is kept for (empty for the whole system).
pub open spec fn resource_of(metric: Metric) -> Seq<char> {
    match metric.resource {
        Some(resource) => resource@,
        None => Seq::empty(),
    }
}

/// The key of a rule's state for a metric.
pub open spec fn metric_key(rule: AnomalyRuleConfig, metric: Metric) -> (Seq<char>, Seq<char>) {
    (rule.id@, resource_of(metric))
}

/// Whether a rule evaluates a metric: it is enabled and names the metric.
pub open spec fn rule_applies(rule: AnomalyRuleConfig, metric: Metric) -> bool {
    rule.enabled && rule.metric_name@ == metric.name@
}

/// One rule applied to one metric: the engine afterwards and what is reported.
pub open spec fn rule_evaluation(e: EngineView, rule: AnomalyRuleConfig, metric: Metric) -> (
    EngineView,
    Option<Expected>,
) {
    let key = metric_key(rule, metric);
    let (stored, outcome) = evaluate_sample(
        stored_state(e, key),
        rule,
        metric.collected_at_ms,
        metric.value_bits,
        e.evidence_interval_ms,
    );
    (
        with_state(e, key, stored),
        match outcome {
            Some(o) => Some(Expected { key, rule, metric, outcome: o }),
            None => None,
        },
    )
}

/// The first `count` rules of `e` applied, in order, to one metric.
pub open spec fn rules_evaluation(e: EngineView, metric: Metric, count: nat) -> (
    EngineView,
    Seq<Expected>,
)
    decreases count,
{
    if count == 0 || count > e.rules.len() {
        (e, Seq::empty())
    } else {
        let (e1, reported) = rules_evaluation(e, metric, (count - 1) as nat);
        let rule = e.rules[count - 1];
        if rule_applies(rule, metric) {
            let (e2, one) = rule_evaluation(e1, rule, metric);
            (
                e2,
                match one {
                    Some(x) => reported.push(x),
                    None => reported,
                },
            )
        } else {
            (e1, reported)
        }
    }
}

/// One metric: a non-finite value is skipped; otherwise every rule is applied.
pub open spec fn metric_evaluation(e: EngineView, metric: Metric) -> (EngineView, Seq<Expected>) {
    if is_finite_bits(metric.value_bits) {
        rules_evaluation(e, metric, e.rules.len())
    } else {
        (e, Seq::empty())
    }
}

/// A batch: nothing when detection is disabled; otherwise each metric in order.
pub open spec fn batch_evaluation(e: EngineView, metrics: Seq<Metric>) -> (
    EngineView,
    Seq<Expected>,
)
    decreases metrics.len(),
{
    if !e.enabled || metrics.len() == 0 {
        (e, Seq::empty())
    } else {
        let (e1, first) = batch_evaluation(e, metrics.drop_last());
        let (e2, last) = metric_evaluation(e1, metrics.last());
        (e2, first + last)
    }
}

/// Anomaly detection over all configured rules.
#[derive(Debug)]
pub struct AnomalyEngine {
    enabled: bool,
    evidence_interval_ms: i64,
    rules: Vec<AnomalyRuleConfig>,
    keys: Vec<StateKey>,
    states: Vec<RuleState>,
}

impl View for AnomalyEngine {
    type V = EngineView;

    closed spec fn view(&self) -> EngineView {
        EngineView {
            enabled: self.enabled,
            evidence_interval_ms: self.evidence_interval_ms,
            rules: self.rules@,
            keys: self.keys@.map_values(|k: StateKey| k@),
            states: self.states@,
        }
    }
}

proof fn lemma_key_index_of_distinct(keys: Seq<(Seq<char>, Seq<char>)>, i: int)
    requires
        keys_distinct(keys),
        0 <= i < keys.len(),
    ensures
        key_index(keys, keys[i]) == i,
{
}

proof fn lemma_with_state_keeps_keys_distinct(e: EngineView, key: (Seq<char>, Seq<char>), s: RuleState)
    requires
        keys_distinct(e.keys),
        e.keys.len() == e.states.len(),
    ensures
        keys_distinct(with_state(e, key, s).keys),
        with_state(e, key, s).keys.len() == with_state(e, key, s).states.len(),
        with_state(e, key, s).rules == e.rules,
        with_state(e, key, s).enabled == e.enabled,
        with_state(e, key, s).evidence_interval_ms == e.evidence_interval_ms,
{
}

impl AnomalyEngine {
    /// Well-formed: one state per key and no key twice.
    pub closed spec fn wf(&self) -> bool {
        &&& self.keys.len() == self.states.len()
        &&& keys_distinct(self@.keys)
    }

    /// An engine for the configured rules, with no rule state yet.
    pub fn new(config: &AnomalyConfig) -> (engine: Self)
        ensures
            engine.wf(),
            engine@.enabled == config.enabled,
            engine@.evidence_interval_ms == seconds_to_ms(config.evidence_interval_seconds),
            engine@.rules == config.rules@,
            engine@.keys.len() == 0,
            engine@.states.len() == 0,
    {
        let mut rules: Vec<AnomalyRuleConfig> = Vec::new();
        let mut i: usize = 0;
        while i < config.rules.len()
            invariant
                i <= config.rules.len(),
                rules@ == config.rules@.take(i as int),
            decreases config.rules.len() - i,
        {
            rules.push(config.rules[i].clone());
            i = i + 1;
            assert(rules@ =~= config.rules@.take(i as int));
        }
        assert(rules@ =~= config.rules@);
        let engine = AnomalyEngine {
            enabled: config.enabled,
            evidence_interval_ms: seconds_ms(config.evidence_interval_seconds),
            rules,
            keys: Vec::new(),
            states: Vec::new(),
        };
        assert(engine@.keys =~= Seq::<(Seq<char>, Seq<char>)>::empty());
        engine
    }

    fn find_state(&self, rule_id: &str, resource: &str) -> (r: Option<usize>)
        requires
            self.wf(),
        ensures
            match r {
                Some(i) => i < self.keys.len() && key_index(self@.keys, (rule_id@, resource@)) == i,
                None => key_index(self@.keys, (rule_id@, resource@)) == -1,
            },
    {
        let ghost key = (rule_id@, resource@);
        let mut i: usize = 0;
        while i < self.keys.len()
            invariant
                self.wf(),
                key == (rule_id@, resource@),
                i <= self.keys.len(),
                forall|j: int| 0 <= j < i ==> self@.keys[j] != key,
            decreases self.keys.len() - i,
        {
            assert(self@.keys[i as int] == self.keys@[i as int]@);
            let same_rule = str_equal(self.keys[i].rule_id.as_str(), rule_id);
            let same_resource = str_equal(self.keys[i].resource.as_str(), resource);
            assert(same_rule == (self.keys@[i as int].rule_id@ == rule_id@));
            assert(same_resource == (self.keys@[i as int].resource@ == resource@));
            if same_rule && same_resource {
                proof {
                    assert(self@.keys[i as int] == key);
                    lemma_key_index_of_distinct(self@.keys, i as int);
                }
                return Some(i);
            }
            assert(self@.keys[i as int] != key);
            i = i + 1;
        }
        None
    }

    fn set_state(&mut self, key: &StateKey, index: Option<usize>, state: RuleState)
        requires
            old(self).wf(),
            match index {
                Some(i) => i < old(self).keys.len() && key_index(old(self)@.keys, key@) == i,
                None => key_index(old(self)@.keys, key@) == -1,
            },
        ensures
            final(self).wf(),
            final(self)@ == with_state(old(self)@, key@, state),
    {
        proof {
            lemma_with_state_keeps_keys_distinct(self@, key@, state);
        }
        match index {
            Some(i) => {
                self.states.set(i, state);
            },
            None => {
                self.keys.push(key.clone());
                self.states.push(state);
            },
        }
        assert(self@.keys =~= with_state(old(self)@, key@, state).keys);
        assert(self@.states =~= with_state(old(self)@, key@, state).states);
    }

    /// Reinstates a stored rule state, for a rule that is still configured.
    pub fn restore(&mut self, key: StateKey, state: RuleState)
        requires
            old(self).wf(),
        ensures
            final(self).wf(),
            (exists|i: int| 0 <= i < old(self)@.rules.len() && old(self)@.rules[i].id@ == key.rule_id@)
                ==> final(self)@ == with_state(old(self)@, key@, state),
            !(exists|i: int| 0 <= i < old(self)@.rules.len() && old(self)@.rules[i].id@ == key.rule_id@)
                ==> final(self)@ == old(self)@,
    {
        let mut i: usize = 0;
        let mut configured = false;
        while i < self.rules.len()
            invariant
                i <= self.rules.len(),
                configured == exists|j: int| 0 <= j < i && self@.rules[j].id@ == key.rule_id@,
            decreases self.rules.len() - i,
        {
            assert(self@.rules[i as int] == self.rules@[i as int]);
            if str_equal(self.rules[i].id.as_str(), key.rule_id.as_str()) {
                configured = true;
            }
            i = i + 1;
            assert(configured == exists|j: int| 0 <= j < i && self@.rules[j].id@ == key.rule_id@) by {
                if self.rules@[i - 1].id@ == key.rule_id@ {
                    assert(self@.rules[i - 1].id@ == key.rule_id@);
                }
            }
        }
        if configured {
            let index = self.find_state(key.rule_id.as_str(), key.resource.as_str());
            self.set_state(&key, index, state);
        }
    }

    /// The state of every key, in the order the keys were first seen.
    pub fn states(&self) -> (entries: Vec<(StateKey, RuleState)>)
        requires
            self.wf(),
        ensures
            entries.len() == self@.keys.len(),
            forall|i: int|
                0 <= i < entries.len() ==> (#[trigger] entries[i]).0@ == self@.keys[i]
                    && entries[i].1 == self@.states[i],
    {
        let mut entries: Vec<(StateKey, RuleState)> = Vec::new();
        let mut i: usize = 0;
        while i < self.keys.len()
            invariant
                self.wf(),
                i <= self.keys.len(),
                entries.len() == i,
                forall|j: int|
                    0 <= j < i ==> (#[trigger] entries[j]).0@ == self@.keys[j] && entries[j].1
                        == self@.states[j],
            decreases self.keys.len() - i,
        {
            entries.push((self.keys[i].clone(), self.states[i]));
            i = i + 1;
        }
        entries
    }

    /// The state of one key, if it has one.
    pub fn state(&self, key: &StateKey) -> (state: Option<RuleState>)
        requires
            self.wf(),
        ensures
            state == state_of(self@, key@),
    {
        match self.find_state(key.rule_id.as_str(), key.resource.as_str()) {
            Some(i) => Some(self.states[i]),
            None => None,
        }
    }

    /// Records the event that storage opened for a key and the time of its first evidence.
    pub fn attach_event(&mut self, key: &StateKey, event_id: i64, detected_at_ms: i64)
        requires
            old(self).wf(),
        ensures
            final(self).wf(),
            state_of(old(self)@, key@) matches Some(s) ==> final(self)@ == with_state(
                old(self)@,
                key@,
                RuleState { event_id: Some(event_id), last_evidence_ms: Some(detected_at_ms), ..s },
            ),
            state_of(old(self)@, key@) is None ==> final(self)@ == old(self)@,
    {
        let index = self.find_state(key.rule_id.as_str(), key.resource.as_str());
        if let Some(i) = index {
            let mut state = self.states[i];
            state.event_id = Some(event_id);
            state.last_evidence_ms = Some(detected_at_ms);
            self.set_state(key, index, state);
        }
    }

    fn evaluate_metric(&mut self, rule: &AnomalyRuleConfig, metric: &Metric) -> (r: Option<
        Evaluation,
    >)
        requires
            old(self).wf(),
        ensures
            final(self).wf(),
            final(self)@ == rule_evaluation(old(self)@, *rule, *metric).0,
            match (r, rule_evaluation(old(self)@, *rule, *metric).1) {
                (Some(evaluation), Some(expected)) => reports(evaluation, expected),
                (None, None) => true,
                _ => false,
            },
    {
        let resource = match &metric.resource {
            Some(resource) => resource.clone(),
            None => String::new(),
        };
        let key = StateKey { rule_id: rule.id.clone(), resource };
        assert(key@ == metric_key(*rule, *metric));
        let index = self.find_state(key.rule_id.as_str(), key.resource.as_str());
        let stored = match index {
            Some(i) => self.states[i],
            None => RuleState::default(),
        };
        let (next, outcome) = evaluate_state(
            stored,
            rule,
            metric.collected_at_ms,
            metric.value_bits,
            self.evidence_interval_ms,
        );
        self.set_state(&key, index, next);
        match outcome {
            Some(outcome) => Some(
                Evaluation {
                    key,
                    rule: rule.clone(),
                    metric: metric.clone(),
                    transition: outcome.transition,
                    event_id: outcome.event_id,
                    event_started_at_ms: outcome.event_started_at_ms,
                    trigger_sample_count: outcome.trigger_sample_count,
                    new_peak: outcome.new_peak,
                    periodic_evidence: outcome.periodic_evidence,
                    data_gap: outcome.data_gap,
                    state: outcome.state,
                },
            ),
            None => None,
        }
    }

    fn evaluate_rules(&mut self, metric: &Metric, evaluations: &mut Vec<Evaluation>)
        requires
            old(self).wf(),
        ensures
            final(self).wf(),
            ({
                let (e, expected) = rules_evaluation(old(self)@, *metric, old(self)@.rules.len());
                &&& final(self)@ == e
                &&& reports_all(final(evaluations)@.skip(old(evaluations).len() as int), expected)
                &&& final(evaluations)@.take(old(evaluations).len() as int) == old(evaluations)@
            }),
            final(evaluations).len() >= old(evaluations).len(),
    {
        let ghost e0 = self@;
        let ghost start = evaluations.len();
        let mut j: usize = 0;
        while j < self.rules.len()
            invariant
                self.wf(),
                self@.rules == e0.rules,
                j <= e0.rules.len(),
                start <= evaluations.len(),
                evaluations@.take(start as int) == old(evaluations)@,
                ({
                    let (e, expected) = rules_evaluation(e0, *metric, j as nat);
                    &&& self@ == e
                    &&& reports_all(evaluations@.skip(start as int), expected)
                }),
            decreases e0.rules.len() - j,
        {
            let ghost before = evaluations@;
            let ghost (e_prev, expected_prev) = rules_evaluation(e0, *metric, j as nat);
            if self.rules[j].enabled && str_equal(
                self.rules[j].metric_name.as_str(),
                metric.name.as_str(),
            ) {
                let rule = self.rules[j].clone();
                let result = self.evaluate_metric(&rule, metric);
                proof {
                    lemma_with_state_keeps_keys_distinct(
                        e_prev,
                        metric_key(rule, *metric),
                        rule_evaluation(e_prev, rule, *metric).0.states.last(),
                    );
                }
                if let Some(evaluation) = result {
                    evaluations.push(evaluation);
                    proof {
                        assert(evaluations@.take(start as int) =~= before.take(start as int));
                        let (e_next, expected_next) = rules_evaluation(e0, *metric, (j + 1) as nat);
                        assert(evaluations@.skip(start as int) =~= before.skip(start as int).push(
                            evaluations@.last(),
                        ));
                        assert(reports_all(evaluations@.skip(start as int), expected_next)) by {
                            assert forall|i: int|
                                0 <= i < evaluations@.skip(start as int).len() implies reports(
                                #[trigger] evaluations@.skip(start as int)[i],
                                expected_next[i],
                            ) by {
                                if i < before.skip(start as int).len() {
                                    assert(evaluations@.skip(start as int)[i] == before.skip(
                                        start as int,
                                    )[i]);
                                }
                            }
                        }
                    }
                }
            }
            j = j + 1;
        }
    }

    /// Evaluates every finite metric of a batch against every enabled rule that
    /// names it, in batch order and then rule order.
    pub fn evaluate_batch(&mut self, batch: &MetricBatch) -> (evaluations: Vec<Evaluation>)
        requires
            old(self).wf(),
        ensures
            final(self).wf(),
            final(self)@ == batch_evaluation(old(self)@, batch@).0,
            reports_all(evaluations@, batch_evaluation(old(self)@, batch@).1),
    {
        let mut evaluations: Vec<Evaluation> = Vec::new();
        if !self.enabled {
            return evaluations;
        }
        let ghost e0 = self@;
        let mut i: usize = 0;
        while i < batch.len()
            invariant
                self.wf(),
                e0.enabled,
                i <= batch.len(),
                ({
                    let (e, expected) = batch_evaluation(e0, batch@.take(i as int));
                    &&& self@ == e
                    &&& reports_all(evaluations@, expected)
                }),
            decreases batch.len() - i,
        {
            let ghost before = evaluations@;
            assert(batch@.take(i + 1).drop_last() =~= batch@.take(i as int));
            let metric = &batch[i];
            if is_finite_value(metric.value_bits) {
                self.evaluate_rules(metric, &mut evaluations);
                proof {
                    let (e_mid, expected_mid) = batch_evaluation(e0, batch@.take(i as int));
                    let (_, expected_last) = metric_evaluation(e_mid, *metric);
                    assert(evaluations@ =~= before + evaluations@.skip(before.len() as int));
                    assert(reports_all(evaluations@, expected_mid + expected_last)) by {
                        assert forall|k: int| 0 <= k < evaluations@.len() implies reports(
                            #[trigger] evaluations@[k],
                            (expected_mid + expected_last)[k],
                        ) by {
                            if k < before.len() {
                                assert(evaluations@[k] == evaluations@.take(before.len() as int)[k]);
                            } else {
                                assert(evaluations@[k] == evaluations@.skip(before.len() as int)[k
                                    - before.len()]);
                            }
                        }
                    }
                }
            } else {
                proof {
                    let (_, expected_mid) = batch_evaluation(e0, batch@.take(i as int));
                    assert(expected_mid + Seq::<Expected>::empty() =~= expected_mid);
                }
            }
            i = i + 1;
        }
        assert(batch@.take(batch.len() as int) =~= batch@);
        evaluations
    }
}

// ---------------------------------------------------------------------------
// Laws of detection.
/// A sample that is not newer than the last one of its state is ignored: it
/// changes nothing and reports nothing.
pub proof fn lemma_stale_samples_are_ignored(
    stored: RuleState,
    rule: AnomalyRuleConfig,
    timestamp_ms: i64,
    value: u64,
    interval_ms: i64,
)
    requires
        stored.last_sample_ms matches Some(last) && timestamp_ms <= last,
    ensures
        evaluate_sample(stored, rule, timestamp_ms, value, interval_ms) == (stored, None::<Outcome>),
{
}

/// Every newer sample is evaluated and becomes the last sample of its state.
pub proof fn lemma_newer_samples_become_the_last_sample(
    stored: RuleState,
    rule: AnomalyRuleConfig,
    timestamp_ms: i64,
    value: u64,
    interval_ms: i64,
)
    requires
        !(stored.last_sample_ms matches Some(last) && timestamp_ms <= last),
    ensures
        ({
            let (next, outcome) = evaluate_sample(stored, rule, timestamp_ms, value, interval_ms);
            &&& outcome is Some
            &&& next.last_sample_ms == Some(timestamp_ms)
            &&& next.last_value == Some(value)
        }),
{
}

/// An event opens only from a candidate that has lasted both the duration and
/// the minimum sample count of its severity; it opens with that severity.
pub proof fn lemma_events_open_only_after_sustained_breaches(
    stored: RuleState,
    rule: AnomalyRuleConfig,
    timestamp_ms: i64,
    value: u64,
    interval_ms: i64,
)
    ensures
        ({
            let (next, outcome) = evaluate_sample(stored, rule, timestamp_ms, value, interval_ms);
            match outcome {
                None => true,
                Some(o) => o.transition == Transition::Open ==> {
                &&& next.phase == Phase::Open
                &&& next == o.state
                &&& o.state.severity == Some(Severity::Warning) ==> has_matured(
                    o.event_started_at_ms,
                    o.trigger_sample_count,
                    rule.trigger_seconds,
                    rule.min_samples,
                    timestamp_ms,
                )
                &&& o.state.severity == Some(Severity::Critical) ==> has_matured(
                    o.event_started_at_ms,
                    o.trigger_sample_count,
                    rule.critical_trigger_seconds,
                    rule.critical_min_samples,
                    timestamp_ms,
                )
                &&& o.state.severity is Some
            },
            }
        }),
{
}

/// An event closes only after a recovery candidate has lasted the recovery
/// duration and sample count; the state then returns to normal.
pub proof fn lemma_events_close_only_after_sustained_recovery(
    stored: RuleState,
    rule: AnomalyRuleConfig,
    timestamp_ms: i64,
    value: u64,
    interval_ms: i64,
)
    ensures
        ({
            let (next, outcome) = evaluate_sample(stored, rule, timestamp_ms, value, interval_ms);
            match outcome {
                None => true,
                Some(o) => o.transition == Transition::Close ==> {
                &&& has_matured(
                    o.state.recovery_since_ms,
                    o.state.recovery_samples,
                    rule.recovery_seconds,
                    rule.recovery_min_samples,
                    timestamp_ms,
                )
                &&& float_le(value, rule.recovery_threshold)
                &&& next.phase == Phase::Normal
                &&& o.event_id == stored.event_id
            },
            }
        }),
{
}

/// An active event never downgrades: a critical event stays critical until it
/// closes, and a warning event stays warning or escalates to critical.
pub proof fn lemma_events_never_downgrade(
    stored: RuleState,
    rule: AnomalyRuleConfig,
    timestamp_ms: i64,
    value: u64,
    interval_ms: i64,
)
    requires
        stored.phase == Phase::Open || stored.phase == Phase::Recovering,
    ensures
        ({
            let (next, outcome) = evaluate_sample(stored, rule, timestamp_ms, value, interval_ms);
            &&& stored.severity == Some(Severity::Critical) ==> next.phase == Phase::Normal
                || next.severity == Some(Severity::Critical)
            &&& stored.severity == Some(Severity::Warning) ==> next.phase == Phase::Normal
                || next.severity == Some(Severity::Warning) || next.severity == Some(
                Severity::Critical,
            )
            &&& match outcome {
                Some(o) => o.transition == Transition::Escalate ==> stored.severity == Some(
                    Severity::Warning,
                ) && next.severity == Some(Severity::Critical),
                None => true,
            }
        }),
{
}

/// Hysteresis: while an event is open or recovering, a value above the
/// recovery threshold that breaches nothing neither closes nor escalates the
/// event, and leaves it open.
pub proof fn lemma_values_between_thresholds_keep_the_event_open(
    stored: RuleState,
    rule: AnomalyRuleConfig,
    timestamp_ms: i64,
    value: u64,
    interval_ms: i64,
)
    requires
        stored.phase == Phase::Open || stored.phase == Phase::Recovering,
        !(stored.last_sample_ms matches Some(last) && timestamp_ms <= last),
        breached_severity(rule, value) is None,
        float_gt(value, rule.recovery_threshold),
    ensures
        ({
            let (next, outcome) = evaluate_sample(stored, rule, timestamp_ms, value, interval_ms);
            &&& outcome matches Some(o) && o.transition == Transition::NoChange
            &&& next.phase == Phase::Open
            &&& next.severity == stored.severity
            &&& next.event_id == stored.event_id
        }),
{
    crate::float_bits::lemma_comparisons_are_a_total_order(value, rule.recovery_threshold, value);
}

/// A gap longer than the rule allows restarts a pending candidate from the
/// new sample alone.
pub proof fn lemma_a_gap_restarts_a_pending_candidate(
    stored: RuleState,
    rule: AnomalyRuleConfig,
    timestamp_ms: i64,
    value: u64,
    interval_ms: i64,
)
    requires
        stored.phase == Phase::Pending,
        stored.last_sample_ms matches Some(last) && timestamp_ms > last,
        is_data_gap(stored, rule, timestamp_ms),
    ensures
        ({
            let (next, outcome) = evaluate_sample(stored, rule, timestamp_ms, value, interval_ms);
            outcome matches Some(o) && {
                &&& o.data_gap
                &&& o.transition == Transition::Open ==> o.trigger_sample_count == 1
                    && o.event_started_at_ms == Some(timestamp_ms)
                &&& o.transition != Transition::Open ==> o.state.pending_samples <= 1
                &&& o.state.pending_samples == 1 ==> o.state.pending_since_ms == Some(timestamp_ms)
            }
        }),
{
}

/// A gap longer than the rule allows does not end an open event: the gap is
/// counted, escalation and recovery start over, and the event stays active.
pub proof fn lemma_a_gap_keeps_an_event_active(
    stored: RuleState,
    rule: AnomalyRuleConfig,
    timestamp_ms: i64,
    value: u64,
    interval_ms: i64,
)
    requires
        stored.phase == Phase::Open || stored.phase == Phase::Recovering,
        stored.last_sample_ms matches Some(last) && timestamp_ms > last,
        is_data_gap(stored, rule, timestamp_ms),
    ensures
        ({
            let (next, outcome) = evaluate_sample(stored, rule, timestamp_ms, value, interval_ms);
            outcome matches Some(o) && {
                &&& o.data_gap
                &&& o.transition != Transition::Close
                &&& o.transition != Transition::Escalate || rule.critical_min_samples <= 1
                &&& next.phase == Phase::Open || next.phase == Phase::Recovering
                &&& next.data_gap_count == incremented(stored.data_gap_count)
                &&& next.event_id == stored.event_id
            }
        }),
{
}

/// With detection disabled, a batch changes nothing and reports nothing.
pub proof fn lemma_disabled_detection_is_inert(e: EngineView, metrics: Seq<Metric>)
    requires
        !e.enabled,
    ensures
        batch_evaluation(e, metrics) == (e, Seq::<Expected>::empty()),
{
}

/// A metric whose value is not finite is skipped.
pub proof fn lemma_non_finite_values_are_skipped(e: EngineView, metric: Metric)
    requires
        !is_finite_bits(metric.value_bits),
    ensures
        metric_evaluation(e, metric) == (e, Seq::<Expected>::empty()),
{
}

/// Rule states are independent: evaluating one rule for one resource leaves
/// the state of every other rule and resource as it was.
pub proof fn lemma_states_are_independent(
    e: EngineView,
    rule: AnomalyRuleConfig,
    metric: Metric,
    other: (Seq<char>, Seq<char>),
)
    requires
        keys_distinct(e.keys),
        e.keys.len() == e.states.len(),
        other != metric_key(rule, metric),
    ensures
        state_of(rule_evaluation(e, rule, metric).0, other) == state_of(e, other),
{
    let key = metric_key(rule, metric);
    let (stored, _) = evaluate_sample(
        stored_state(e, key),
        rule,
        metric.collected_at_ms,
        metric.value_bits,
        e.evidence_interval_ms,
    );
    let e2 = with_state(e, key, stored);
    lemma_with_state_keeps_keys_distinct(e, key, stored);
    let i = key_index(e.keys, other);
    if i >= 0 {
        lemma_key_index_of_distinct(e2.keys, i);
    } else {
        if exists|j: int| 0 <= j < e2.keys.len() && e2.keys[j] == other {
            let j = choose|j: int| 0 <= j < e2.keys.len() && e2.keys[j] == other;
            assert(e.keys[j] == other);
        }
    }
}


/// A pending candidate whose severity changes restarts its window at the new
/// sample: the candidate of the new severity starts at that sample with one
/// sample, so an event that opens right away started at that sample with one
/// trigger sample.  A candidate whose severity holds, with no gap, keeps its
/// start and counts one more sample.
pub proof fn lemma_a_changed_severity_restarts_the_candidate(
    stored: RuleState,
    rule: AnomalyRuleConfig,
    timestamp_ms: i64,
    value: u64,
    interval_ms: i64,
)
    requires
        stored.phase == Phase::Pending,
        !(stored.last_sample_ms matches Some(last) && timestamp_ms <= last),
        breached_severity(rule, value) is Some,
    ensures
        ({
            let (next, outcome) = evaluate_sample(stored, rule, timestamp_ms, value, interval_ms);
            let severity = breached_severity(rule, value);
            &&& outcome is Some
            &&& (stored.pending_severity != severity || is_data_gap(stored, rule, timestamp_ms))
                ==> if outcome->0.transition == Transition::Open {
                &&& outcome->0.event_started_at_ms == Some(timestamp_ms)
                &&& outcome->0.trigger_sample_count == 1
                &&& next.severity == severity
            } else {
                &&& outcome->0.transition == Transition::NoChange
                &&& next.phase == Phase::Pending
                &&& next.pending_severity == severity
                &&& next.pending_since_ms == Some(timestamp_ms)
                &&& next.pending_samples == 1
            }
            &&& (stored.pending_severity == severity && !is_data_gap(stored, rule, timestamp_ms))
                ==> if outcome->0.transition == Transition::Open {
                &&& outcome->0.event_started_at_ms == stored.pending_since_ms
                &&& outcome->0.trigger_sample_count == incremented(stored.pending_samples)
                &&& next.severity == severity
            } else {
                &&& outcome->0.transition == Transition::NoChange
                &&& next.phase == Phase::Pending
                &&& next.pending_severity == severity
                &&& next.pending_since_ms == stored.pending_since_ms
                &&& next.pending_samples == incremented(stored.pending_samples)
            }
        }),
{
}

/// A pending candidate whose breach ends before it matures is dropped: with
/// no gap, a sample that breaches nothing returns the state to normal with no
/// candidate and opens nothing.
pub proof fn lemma_a_candidate_ends_when_the_breach_does(
    stored: RuleState,
    rule: AnomalyRuleConfig,
    timestamp_ms: i64,
    value: u64,
    interval_ms: i64,
)
    requires
        stored.phase == Phase::Pending,
        !(stored.last_sample_ms matches Some(last) && timestamp_ms <= last),
        breached_severity(rule, value) is None,
    ensures
        ({
            let (next, outcome) = evaluate_sample(stored, rule, timestamp_ms, value, interval_ms);
            &&& outcome matches Some(o) && o.transition == Transition::NoChange
            &&& next.phase == Phase::Normal
            &&& next.pending_severity is None
            &&& next.pending_since_ms is None
            &&& next.pending_samples == 0
            &&& next.last_sample_ms == Some(timestamp_ms)
        }),
{
}

} // verus!
