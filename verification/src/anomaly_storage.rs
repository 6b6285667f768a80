//! What storage writes for each evaluation, and the conversions between rule
//! states and their stored columns.
use vstd::prelude::*;

use crate::anomaly::{
    phase_named, severity_named, Evaluation, Phase, RuleState, Severity, Transition,
};

verus! {

/// At most this many prelude samples are copied when an event opens.
pub const PRELUDE_LIMIT: i64 = 120;

/// Why an evaluation or a stored state could not be written or read.
#[derive(Debug, Clone, Copy, PartialEq, Eq, Structural)]
pub enum StorageError {
    /// An opened event carries no severity.
    OpenedWithoutSeverity,
    /// An opened event carries no start time.
    OpenedWithoutStart,
    /// An active event carries no severity.
    ActiveWithoutSeverity,
    /// A stored phase name is unknown.
    InvalidPhase,
    /// A stored severity name is unknown.
    InvalidSeverity,
}

/// The kind of a metric evidence row.
#[derive(Debug, Clone, Copy, PartialEq, Eq, Structural)]
pub enum EvidenceKind {
    Prelude,
    Trigger,
    Escalation,
    Peak,
    Periodic,
    Recovery,
}

/// The stored name of an evidence kind.
pub open spec fn evidence_kind_name(kind: EvidenceKind) -> Seq<char> {
    match kind {
        EvidenceKind::Prelude => "prelude"@,
        EvidenceKind::Trigger => "trigger"@,
        EvidenceKind::Escalation => "escalation"@,
        EvidenceKind::Peak => "peak"@,
        EvidenceKind::Periodic => "periodic"@,
        EvidenceKind::Recovery => "recovery"@,
    }
}

impl EvidenceKind {
    /// The name stored for this kind.
    pub fn as_str(self) -> (name: &'static str)
        ensures
            name@ == evidence_kind_name(self),
    {
        match self {
            EvidenceKind::Prelude => "prelude",
            EvidenceKind::Trigger => "trigger",
            EvidenceKind::Escalation => "escalation",
            EvidenceKind::Peak => "peak",
            EvidenceKind::Periodic => "periodic",
            EvidenceKind::Recovery => "recovery",
        }
    }
}

/// The evidence an evaluation of an active event records: escalation and
/// recovery first, then a new peak, then a periodic checkpoint.
pub open spec fn evidence_for(transition: Transition, new_peak: bool, periodic: bool) -> Option<
    EvidenceKind,
> {
    match transition {
        Transition::Escalate => Some(EvidenceKind::Escalation),
        Transition::Close => Some(EvidenceKind::Recovery),
        Transition::NoChange => if new_peak {
            Some(EvidenceKind::Peak)
        } else if periodic {
            Some(EvidenceKind::Periodic)
        } else {
            None
        },
        Transition::Open => None,
    }
}

/// The evidence an evaluation of an active event records.
pub fn evidence_kind(transition: Transition, new_peak: bool, periodic: bool) -> (kind: Option<
    EvidenceKind,
>)
    ensures
        kind == evidence_for(transition, new_peak, periodic),
{
    match transition {
        Transition::Escalate => Some(EvidenceKind::Escalation),
        Transition::Close => Some(EvidenceKind::Recovery),
        Transition::NoChange => {
            if new_peak {
                Some(EvidenceKind::Peak)
            } else if periodic {
                Some(EvidenceKind::Periodic)
            } else {
                None
            }
        },
        Transition::Open => None,
    }
}

/// `i64::try_from(u64)` falling back to `i64::MAX`.
pub open spec fn as_integer(value: u64) -> i64 {
    if value <= i64::MAX {
        value as i64
    } else {
        i64::MAX
    }
}

/// A counter as a database integer, saturating at `i64::MAX`.
pub fn u64_to_integer(value: u64) -> (r: i64)
    ensures
        r == as_integer(value),
{
    if value <= i64::MAX as u64 {
        value as i64
    } else {
        i64::MAX
    }
}

/// A database integer as a counter; negative values read as zero.
pub fn integer_to_u64(value: i64) -> (r: u64)
    ensures
        r == if value >= 0 {
            value as u64
        } else {
            0
        },
{
    if value >= 0 {
        value as u64
    } else {
        0
    }
}

/// The row that opening an event inserts, besides the identity of the rule and metric.
#[derive(Debug, Clone, Copy)]
pub struct OpenedEvent {
    pub severity: Severity,
    pub started_at_ms: i64,
    pub detected_at_ms: i64,
    pub peak_value_bits: u64,
    pub peak_at_ms: i64,
    pub last_value_bits: u64,
    pub sample_count: i64,
    pub data_gap_count: i64,
}

/// The update that a later evaluation makes to an open event.
#[derive(Debug, Clone, Copy)]
pub struct EventUpdate {
    pub event_id: i64,
    pub severity: Severity,
    pub last_value_bits: u64,
    pub sample_ms: i64,
    /// One more data gap is counted.
    pub data_gap: bool,
    /// The metric evidence recorded, if any.
    pub evidence: Option<EvidenceKind>,
    /// The earlier peak evidence is deleted first, so only the newest peak is kept.
    pub replaces_previous_peak: bool,
    /// A process checkpoint is copied for the evidence.
    pub captures_processes: bool,
    /// The event is closed at `sample_ms`.
    pub closes: bool,
}

/// What storage does for one evaluation.
#[derive(Debug, Clone, Copy)]
pub enum EvaluationWrite {
    /// Insert a new event with its prelude and trigger evidence.
    Open(OpenedEvent),
    /// Update the open event of the evaluated state.
    Update(EventUpdate),
    /// Nothing: the state has no event.
    Skip,
}

/// What storage does for one evaluation, or why it cannot.
pub open spec fn evaluation_write(evaluation: Evaluation) -> Result<EvaluationWrite, StorageError> {
    let timestamp = evaluation.metric.collected_at_ms;
    let value = evaluation.metric.value_bits;
    if evaluation.transition == Transition::Open {
        match (evaluation.state.severity, evaluation.event_started_at_ms) {
            (None, _) => Err(StorageError::OpenedWithoutSeverity),
            (Some(_), None) => Err(StorageError::OpenedWithoutStart),
            (Some(severity), Some(started)) => Ok(
                EvaluationWrite::Open(
                    OpenedEvent {
                        severity,
                        started_at_ms: started,
                        detected_at_ms: timestamp,
                        peak_value_bits: match evaluation.state.peak_value {
                            Some(peak) => peak,
                            None => value,
                        },
                        peak_at_ms: match evaluation.state.peak_at_ms {
                            Some(at) => at,
                            None => timestamp,
                        },
                        last_value_bits: value,
                        sample_count: as_integer(evaluation.trigger_sample_count),
                        data_gap_count: as_integer(evaluation.state.data_gap_count),
                    },
                ),
            ),
        }
    } else {
        match evaluation.event_id {
            None => Ok(EvaluationWrite::Skip),
            Some(event_id) => match evaluation.state.severity {
                None => Err(StorageError::ActiveWithoutSeverity),
                Some(severity) => {
                    let evidence = evidence_for(
                        evaluation.transition,
                        evaluation.new_peak,
                        evaluation.periodic_evidence,
                    );
                    Ok(
                        EvaluationWrite::Update(
                            EventUpdate {
                                event_id,
                                severity,
                                last_value_bits: value,
                                sample_ms: timestamp,
                                data_gap: evaluation.data_gap,
                                evidence,
                                replaces_previous_peak: evidence == Some(EvidenceKind::Peak),
                                captures_processes: evidence is Some && evidence != Some(
                                    EvidenceKind::Peak,
                                ),
                                closes: evaluation.transition == Transition::Close,
                            },
                        ),
                    )
                },
            },
        }
    }
}

/// Decides what storage writes for one evaluation (see `evaluation_write`).
pub fn plan_evaluation(evaluation: &Evaluation) -> (r: Result<EvaluationWrite, StorageError>)
    ensures
        r == evaluation_write(*evaluation),
{
    let timestamp_ms = evaluation.metric.collected_at_ms;
    let value = evaluation.metric.value_bits;
    if evaluation.transition == Transition::Open {
        let severity = match evaluation.state.severity {
            Some(severity) => severity,
            None => return Err(StorageError::OpenedWithoutSeverity),
        };
        let started_at_ms = match evaluation.event_started_at_ms {
            Some(started) => started,
            None => return Err(StorageError::OpenedWithoutStart),
        };
        return Ok(
            EvaluationWrite::Open(
                OpenedEvent {
                    severity,
                    started_at_ms,
                    detected_at_ms: timestamp_ms,
                    peak_value_bits: match evaluation.state.peak_value {
                        Some(peak) => peak,
                        None => value,
                    },
                    peak_at_ms: match evaluation.state.peak_at_ms {
                        Some(at) => at,
                        None => timestamp_ms,
                    },
                    last_value_bits: value,
                    sample_count: u64_to_integer(evaluation.trigger_sample_count),
                    data_gap_count: u64_to_integer(evaluation.state.data_gap_count),
                },
            ),
        );
    }
    let event_id = match evaluation.event_id {
        Some(event_id) => event_id,
        None => return Ok(EvaluationWrite::Skip),
    };
    let severity = match evaluation.state.severity {
        Some(severity) => severity,
        None => return Err(StorageError::ActiveWithoutSeverity),
    };
    let evidence = evidence_kind(
        evaluation.transition,
        evaluation.new_peak,
        evaluation.periodic_evidence,
    );
    let is_peak = match evidence {
        Some(EvidenceKind::Peak) => true,
        _ => false,
    };
    Ok(
        EvaluationWrite::Update(
            EventUpdate {
                event_id,
                severity,
                last_value_bits: value,
                sample_ms: timestamp_ms,
                data_gap: evaluation.data_gap,
                evidence,
                replaces_previous_peak: is_peak,
                captures_processes: evidence.is_some() && !is_peak,
                closes: evaluation.transition == Transition::Close,
            },
        ),
    )
}

/// Milliseconds in a number of minutes, saturating at `i64::MAX`.
pub open spec fn minutes_as_ms(minutes: u64) -> int {
    if as_integer(minutes) * 60000 > i64::MAX {
        i64::MAX as int
    } else {
        as_integer(minutes) * 60000
    }
}

/// Start of the prelude window before an event's detection: the configured
/// number of minutes earlier, saturating at `i64::MIN`.
pub fn prelude_start_ms(detected_at_ms: i64, prelude_minutes: u64) -> (start: i64)
    ensures
        start == if detected_at_ms - minutes_as_ms(prelude_minutes) < i64::MIN {
            i64::MIN as int
        } else {
            detected_at_ms - minutes_as_ms(prelude_minutes)
        },
{
    let minutes = u64_to_integer(prelude_minutes);
    let window = if minutes > i64::MAX / 60000 {
        i64::MAX
    } else {
        minutes * 60000
    };
    assert(minutes > i64::MAX / 60000 <==> minutes * 60000 > i64::MAX) by (nonlinear_arith)
        requires
            minutes >= 0,
    ;
    if detected_at_ms < i64::MIN + window {
        i64::MIN
    } else {
        detected_at_ms - window
    }
}

/// Closed events that ended before this time are deleted: the configured
/// number of days before `now_ms`, saturating at the bounds of `i64`.
pub fn closed_event_cutoff_ms(now_ms: i64, retention_days: u64) -> (cutoff: i64)
    ensures
        ({
            let days = as_integer(retention_days) as int;
            let window = if days * 86_400_000 > i64::MAX {
                i64::MAX as int
            } else {
                days * 86_400_000
            };
            cutoff == if now_ms - window < i64::MIN {
                i64::MIN as int
            } else {
                now_ms - window
            }
        }),
{
    let days = u64_to_integer(retention_days);
    let window = if days > i64::MAX / 86_400_000 {
        i64::MAX
    } else {
        days * 86_400_000
    };
    assert(days > i64::MAX / 86_400_000 <==> days * 86_400_000 > i64::MAX) by (nonlinear_arith)
        requires
            days >= 0,
    ;
    if now_ms < i64::MIN + window {
        i64::MIN
    } else {
        now_ms - window
    }
}

/// The severity named by an optional stored column.
pub open spec fn stored_severity(value: Option<Seq<char>>) -> Result<Option<Severity>, StorageError> {
    match value {
        None => Ok(None),
        Some(text) => match severity_named(text) {
            Some(severity) => Ok(Some(severity)),
            None => Err(StorageError::InvalidSeverity),
        },
    }
}

/// The view of an optional string argument.
pub open spec fn optional_text(value: Option<&str>) -> Option<Seq<char>> {
    match value {
        Some(text) => Some(text@),
        None => None,
    }
}

/// A stored rule state with its phase and severities read from their names.
pub open spec fn decoded_state(
    phase: Seq<char>,
    severity: Option<Seq<char>>,
    pending_severity: Option<Seq<char>>,
    columns: RuleState,
) -> Result<RuleState, StorageError> {
    match phase_named(phase) {
        None => Err(StorageError::InvalidPhase),
        Some(p) => match (stored_severity(severity), stored_severity(pending_severity)) {
            (Ok(s), Ok(ps)) => Ok(
                RuleState { phase: p, severity: s, pending_severity: ps, ..columns },
            ),
            _ => Err(StorageError::InvalidSeverity),
        },
    }
}

/// Reads an optional stored severity; an unknown name is an error.
pub fn parse_optional_severity(value: Option<&str>) -> (r: Result<Option<Severity>, StorageError>)
    ensures
        r == stored_severity(optional_text(value)),
{
    match value {
        None => Ok(None),
        Some(text) => match Severity::parse(text) {
            Some(severity) => Ok(Some(severity)),
            None => Err(StorageError::InvalidSeverity),
        },
    }
}

/// A stored rule state with its phase and severities restored from their
/// stored names; the other fields are kept as read.
pub fn decode_state(
    phase: &str,
    severity: Option<&str>,
    pending_severity: Option<&str>,
    columns: RuleState,
) -> (r: Result<RuleState, StorageError>)
    ensures
        r == decoded_state(phase@, optional_text(severity), optional_text(pending_severity), columns),
{
    let parsed_phase = match Phase::parse(phase) {
        Some(p) => p,
        None => return Err(StorageError::InvalidPhase),
    };
    let parsed_severity = parse_optional_severity(severity)?;
    let parsed_pending = parse_optional_severity(pending_severity)?;
    Ok(
        RuleState {
            phase: parsed_phase,
            severity: parsed_severity,
            pending_severity: parsed_pending,
            ..columns
        },
    )
}


/// An event that opens is stored as starting when its sustained breach began
/// (the evaluation's candidate start), not when it was detected: the
/// detection time is the evaluated sample's time, the severity is the state's,
/// and the last value is the sample's.  An opening without a start or without
/// a severity is refused.
pub proof fn lemma_opened_events_start_when_the_breach_began(evaluation: Evaluation)
    requires
        evaluation.transition == Transition::Open,
    ensures
        (evaluation.state.severity is Some && evaluation.event_started_at_ms is Some) ==> (
        evaluation_write(evaluation) matches Ok(EvaluationWrite::Open(opened))
            && opened.started_at_ms == evaluation.event_started_at_ms->0
            && opened.detected_at_ms == evaluation.metric.collected_at_ms && opened.severity
            == evaluation.state.severity->0 && opened.last_value_bits
            == evaluation.metric.value_bits),
        evaluation.state.severity is None ==> evaluation_write(evaluation) == Err::<
            EvaluationWrite,
            StorageError,
        >(StorageError::OpenedWithoutSeverity),
        (evaluation.state.severity is Some && evaluation.event_started_at_ms is None)
            ==> evaluation_write(evaluation) == Err::<EvaluationWrite, StorageError>(
            StorageError::OpenedWithoutStart,
        ),
{
}

/// A later evaluation updates the event its state carries, or nothing when
/// the state has none: the update names that event and the state's severity,
/// records the sample's value and time, closes the event exactly on a close,
/// and records escalation evidence on an escalation, recovery evidence on a
/// close, and otherwise peak evidence for a new peak, else periodic evidence
/// when due; only a peak replaces the previous one, and every other piece of
/// evidence captures the related processes.
pub proof fn lemma_later_evaluations_update_their_event(evaluation: Evaluation)
    requires
        evaluation.transition != Transition::Open,
    ensures
        evaluation.event_id is None ==> evaluation_write(evaluation) matches Ok(
            EvaluationWrite::Skip,
        ),
        (evaluation.event_id is Some && evaluation.state.severity is None) ==> evaluation_write(
            evaluation,
        ) == Err::<EvaluationWrite, StorageError>(StorageError::ActiveWithoutSeverity),
        (evaluation.event_id is Some && evaluation.state.severity is Some) ==> (evaluation_write(
            evaluation,
        ) matches Ok(EvaluationWrite::Update(update)) && update.event_id
            == evaluation.event_id->0 && update.severity == evaluation.state.severity->0
            && update.last_value_bits == evaluation.metric.value_bits && update.sample_ms
            == evaluation.metric.collected_at_ms && update.data_gap == evaluation.data_gap
            && update.closes == (evaluation.transition == Transition::Close) && (
        evaluation.transition == Transition::Escalate ==> update.evidence == Some(
            EvidenceKind::Escalation,
        )) && (evaluation.transition == Transition::Close ==> update.evidence == Some(
            EvidenceKind::Recovery,
        )) && (evaluation.transition == Transition::NoChange ==> update.evidence == (
        if evaluation.new_peak {
            Some(EvidenceKind::Peak)
        } else if evaluation.periodic_evidence {
            Some(EvidenceKind::Periodic)
        } else {
            None
        })) && update.replaces_previous_peak == (update.evidence == Some(EvidenceKind::Peak))
            && update.captures_processes == (update.evidence is Some && update.evidence != Some(
            EvidenceKind::Peak,
        ))),
{
}

} // verus!
