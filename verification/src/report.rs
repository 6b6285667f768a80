//! Report ranges and resolutions, and the text pieces of a report.
use vstd::prelude::*;

use crate::float_bits::{integer_bits, integer_value_bits};
use crate::process_collector::total_order_key;
use crate::text::{all_digits, chars_of, decimal_value, parse_unsigned_chars, trim_chars, trimmed};

verus! {

broadcast use vstd::string::group_string_axioms;

/// The longest report range, in days.
pub const MAX_REPORT_RANGE_DAYS: i64 = 365;

/// The longest report range, in milliseconds.
pub const MAX_REPORT_RANGE_MS: i64 = 31_536_000_000;

/// About this many points are drawn per chart series.
pub const MAX_CHART_POINTS: i64 = 1_200;

/// Why a report range was refused.
#[derive(Debug, Clone, Copy, PartialEq, Eq, Structural)]
pub enum ReportError {
    /// The start is not earlier than the end.
    EmptyRange,
    /// The range is longer than 365 days.
    RangeTooLong,
    /// `last` was combined with `from` or `to`.
    LastWithExplicitRange,
    /// Only one of `from` and `to` was given.
    IncompleteExplicitRange,
    /// A duration is not a number followed by one unit letter.
    MalformedDuration,
    /// A duration's number does not fit in 64 bits.
    InvalidDurationAmount,
    /// A duration of zero.
    ZeroDuration,
    /// A duration unit other than `m`, `h` or `d`, or a duration too large to count in seconds.
    UnknownDurationUnit,
    /// A duration shorter than a minute or longer than 365 days.
    DurationOutOfBounds,
    /// A timestamp that is not RFC 3339.
    InvalidTimestamp,
}

/// The data tier a report reads.
#[derive(Debug, Clone, Copy, PartialEq, Eq, Structural)]
pub enum ReportResolution {
    Raw,
    Minute,
    QuarterHour,
}

/// The seconds one point of a tier spans.
pub open spec fn resolution_seconds(resolution: ReportResolution) -> i64 {
    match resolution {
        ReportResolution::Raw => 5,
        ReportResolution::Minute => 60,
        ReportResolution::QuarterHour => 900,
    }
}

impl ReportResolution {
    /// The seconds one point of this tier spans.
    pub fn seconds(self) -> (s: i64)
        ensures
            s == resolution_seconds(self),
    {
        match self {
            ReportResolution::Raw => 5,
            ReportResolution::Minute => 60,
            ReportResolution::QuarterHour => 900,
        }
    }

    /// How reports name this tier.
    pub fn label(self) -> (label: &'static str)
        ensures
            label@ == match self {
                ReportResolution::Raw => "raw samples"@,
                ReportResolution::Minute => "1 minute"@,
                ReportResolution::QuarterHour => "15 minutes"@,
            },
    {
        match self {
            ReportResolution::Raw => "raw samples",
            ReportResolution::Minute => "1 minute",
            ReportResolution::QuarterHour => "15 minutes",
        }
    }
}

/// A report's time range, in Unix milliseconds: start inclusive, end exclusive.
#[derive(Debug, Clone, Copy, PartialEq, Eq, Structural)]
pub struct ReportRange {
    pub from_ms: i64,
    pub to_ms: i64,
}

/// Two hours in milliseconds.
pub const TWO_HOURS_MS: i64 = 7_200_000;

/// One day in milliseconds.
pub const ONE_DAY_MS: i64 = 86_400_000;

/// The tier a range prefers: raw up to two hours, one-minute rollups up to a
/// day, 15-minute rollups beyond.
pub open spec fn preferred_resolution_for(duration_ms: int) -> ReportResolution {
    if duration_ms <= TWO_HOURS_MS {
        ReportResolution::Raw
    } else if duration_ms <= ONE_DAY_MS {
        ReportResolution::Minute
    } else {
        ReportResolution::QuarterHour
    }
}

/// Whether a range is acceptable: non-empty and at most 365 days long.
pub open spec fn valid_range(from_ms: i64, to_ms: i64) -> bool {
    from_ms < to_ms && to_ms - from_ms <= MAX_REPORT_RANGE_MS
}

impl ReportRange {
    /// A range from `from_ms` to `to_ms`; refused when empty or reversed, or
    /// longer than 365 days.
    pub fn new(from_ms: i64, to_ms: i64) -> (r: Result<Self, ReportError>)
        ensures
            from_ms >= to_ms ==> r == Err::<Self, ReportError>(ReportError::EmptyRange),
            from_ms < to_ms && to_ms - from_ms > MAX_REPORT_RANGE_MS ==> r == Err::<
                Self,
                ReportError,
            >(ReportError::RangeTooLong),
            valid_range(from_ms, to_ms) ==> r == Ok::<Self, ReportError>(
                ReportRange { from_ms, to_ms },
            ),
    {
        if from_ms >= to_ms {
            return Err(ReportError::EmptyRange);
        }
        if (to_ms as i128 - from_ms as i128) > MAX_REPORT_RANGE_MS as i128 {
            return Err(ReportError::RangeTooLong);
        }
        Ok(ReportRange { from_ms, to_ms })
    }

    /// The length of the range in milliseconds (saturating).
    pub fn duration_ms(self) -> (d: i64)
        ensures
            d == crate::anomaly::elapsed_ms(self.to_ms, self.from_ms),
    {
        let d = self.to_ms as i128 - self.from_ms as i128;
        if d > i64::MAX as i128 {
            i64::MAX
        } else if d < i64::MIN as i128 {
            i64::MIN
        } else {
            d as i64
        }
    }

    /// The tier this range prefers (see `preferred_resolution_for`).
    pub fn preferred_resolution(self) -> (r: ReportResolution)
        ensures
            r == preferred_resolution_for(crate::anomaly::elapsed_ms(self.to_ms, self.from_ms)),
    {
        if self.duration_ms() <= TWO_HOURS_MS {
            ReportResolution::Raw
        } else if self.duration_ms() <= ONE_DAY_MS {
            ReportResolution::Minute
        } else {
            ReportResolution::QuarterHour
        }
    }
}

/// The tiers a report tries in order: the preferred one, then the others
/// from the nearest coarser tier to raw.
pub open spec fn resolution_order(preferred: ReportResolution) -> Seq<ReportResolution> {
    match preferred {
        ReportResolution::Raw => seq![
            ReportResolution::Raw,
            ReportResolution::Minute,
            ReportResolution::QuarterHour,
        ],
        ReportResolution::Minute => seq![
            ReportResolution::Minute,
            ReportResolution::QuarterHour,
            ReportResolution::Raw,
        ],
        ReportResolution::QuarterHour => seq![
            ReportResolution::QuarterHour,
            ReportResolution::Minute,
            ReportResolution::Raw,
        ],
    }
}

/// The tiers a report tries in order (see `resolution_order`); the first that
/// holds data is read, and the preferred one when none does.
pub fn resolution_candidates(preferred: ReportResolution) -> (order: [ReportResolution; 3])
    ensures
        order@ == resolution_order(preferred),
{
    let order = match preferred {
        ReportResolution::Raw => [
            ReportResolution::Raw,
            ReportResolution::Minute,
            ReportResolution::QuarterHour,
        ],
        ReportResolution::Minute => [
            ReportResolution::Minute,
            ReportResolution::QuarterHour,
            ReportResolution::Raw,
        ],
        ReportResolution::QuarterHour => [
            ReportResolution::QuarterHour,
            ReportResolution::Minute,
            ReportResolution::Raw,
        ],
    };
    assert(order@ =~= resolution_order(preferred));
    order
}

/// The tier chosen from whether each tier holds data, in the order of
/// `resolution_order`: the first that does, else the preferred tier.
pub fn select_resolution(preferred: ReportResolution, has_data: [bool; 3]) -> (r: ReportResolution)
    ensures
        r == if has_data[0] {
            resolution_order(preferred)[0]
        } else if has_data[1] {
            resolution_order(preferred)[1]
        } else if has_data[2] {
            resolution_order(preferred)[2]
        } else {
            preferred
        },
{
    let order = resolution_candidates(preferred);
    if has_data[0] {
        order[0]
    } else if has_data[1] {
        order[1]
    } else if has_data[2] {
        order[2]
    } else {
        preferred
    }
}

// ---------------------------------------------------------------------------
// Relative durations such as `15m`, `24h` or `7d`.
/// Number of leading ASCII digits.
pub open spec fn digit_prefix_len(s: Seq<char>) -> nat
    decreases s.len(),
{
    if s.len() > 0 && '0' <= s[0] && s[0] <= '9' {
        1 + digit_prefix_len(s.skip(1))
    } else {
        0
    }
}

/// Seconds in one unit of a relative duration, if the unit is known.
pub open spec fn unit_seconds(unit: char) -> Option<nat> {
    if unit == 'm' {
        Some(60)
    } else if unit == 'h' {
        Some(3600)
    } else if unit == 'd' {
        Some(86400)
    } else {
        None
    }
}

/// What a relative duration such as `15m` denotes, in seconds: a number then
/// exactly one unit character (`m`, `h` or `d`), surrounded by optional white
/// space; at least one minute and at most 365 days.
pub open spec fn relative_duration(text: Seq<char>) -> Result<nat, ReportError> {
    let t = trimmed(text);
    let split = digit_prefix_len(t);
    let amount = t.take(split as int);
    let unit = t.skip(split as int);
    if split == t.len() || amount.len() == 0 || unit.len() != 1 || unit[0] > '\u{7f}' {
        Err(ReportError::MalformedDuration)
    } else if decimal_value(amount) > u64::MAX {
        Err(ReportError::InvalidDurationAmount)
    } else if decimal_value(amount) == 0 {
        Err(ReportError::ZeroDuration)
    } else {
        match unit_seconds(unit[0]) {
            None => Err(ReportError::UnknownDurationUnit),
            Some(per_unit) => {
                let seconds = decimal_value(amount) * per_unit;
                if seconds > u64::MAX {
                    Err(ReportError::UnknownDurationUnit)
                } else if seconds < 60 || seconds > 31_536_000 {
                    Err(ReportError::DurationOutOfBounds)
                } else {
                    Ok(seconds)
                }
            },
        }
    }
}

/// A relative report duration.
#[derive(Debug, Clone, Copy, PartialEq, Eq, Structural)]
pub struct RelativeDuration {
    seconds: u64,
}

impl RelativeDuration {
    /// The number of seconds the duration spans.
    pub closed spec fn spec_seconds(self) -> nat {
        self.seconds as nat
    }

    /// The number of seconds the duration spans.
    pub fn as_secs(self) -> (s: u64)
        ensures
            s == self.spec_seconds(),
    {
        self.seconds
    }

    /// The number of milliseconds the duration spans.
    pub fn as_millis(self) -> (ms: u64)
        requires
            self.spec_seconds() <= 31_536_000,
        ensures
            ms == self.spec_seconds() * 1000,
    {
        self.seconds * 1000
    }
}

proof fn lemma_digit_prefix(s: Seq<char>)
    ensures
        digit_prefix_len(s) <= s.len(),
        all_digits(s.take(digit_prefix_len(s) as int)),
        digit_prefix_len(s) < s.len() ==> !('0' <= s[digit_prefix_len(s) as int] && s[digit_prefix_len(
            s,
        ) as int] <= '9'),
    decreases s.len(),
{
    if s.len() > 0 && '0' <= s[0] && s[0] <= '9' {
        lemma_digit_prefix(s.skip(1));
        let n = digit_prefix_len(s) as int;
        assert forall|i: int| 0 <= i < n implies crate::text::is_digit(#[trigger] s.take(n)[i]) by {
            if i > 0 {
                assert(s.take(n)[i] == s.skip(1).take(n - 1)[i - 1]);
            }
        }
    } else {
        assert(s.take(0) =~= Seq::<char>::empty());
    }
}

proof fn lemma_digit_prefix_exact(s: Seq<char>, n: int)
    requires
        0 <= n <= s.len(),
        forall|i: int| 0 <= i < n ==> '0' <= #[trigger] s[i] && s[i] <= '9',
        n < s.len() ==> !('0' <= s[n] && s[n] <= '9'),
    ensures
        digit_prefix_len(s) == n,
    decreases s.len(),
{
    if n > 0 {
        lemma_digit_prefix_exact(s.skip(1), n - 1);
    }
}

/// Parses a relative duration such as `15m`, `24h` or `7d` (see `relative_duration`).
pub fn parse_relative_duration(value: &str) -> (r: Result<RelativeDuration, ReportError>)
    ensures
        match (r, relative_duration(value@)) {
            (Ok(d), Ok(seconds)) => d.spec_seconds() == seconds,
            (Err(e), Err(f)) => e == f,
            _ => false,
        },
{
    let text = trim_chars(&chars_of(value));
    let mut split: usize = 0;
    while split < text.len() && '0' <= text[split] && text[split] <= '9'
        invariant
            split <= text.len(),
            forall|i: int| 0 <= i < split ==> '0' <= #[trigger] text@[i] && text@[i] <= '9',
        decreases text.len() - split,
    {
        split = split + 1;
    }
    proof {
        lemma_digit_prefix_exact(text@, split as int);
        lemma_digit_prefix(text@);
    }
    if split == text.len() || split == 0 || text.len() - split != 1 || text[split] > '\u{7f}' {
        return Err(ReportError::MalformedDuration);
    }
    let mut amount_chars: Vec<char> = Vec::new();
    let mut i: usize = 0;
    while i < split
        invariant
            i <= split < text.len(),
            amount_chars@ == text@.take(i as int),
        decreases split - i,
    {
        amount_chars.push(text[i]);
        i = i + 1;
        assert(amount_chars@ =~= text@.take(i as int));
    }
    let amount = match parse_unsigned_chars(&amount_chars, u64::MAX) {
        Some(amount) => amount,
        None => {
            proof {
                assert(!(amount_chars@.len() > 0 && amount_chars@[0] == '+'));
            }
            return Err(ReportError::InvalidDurationAmount);
        },
    };
    proof {
        assert(!(amount_chars@.len() > 0 && amount_chars@[0] == '+'));
    }
    if amount == 0 {
        return Err(ReportError::ZeroDuration);
    }
    let unit = text[split];
    let per_unit: u64 = if unit == 'm' {
        60
    } else if unit == 'h' {
        3600
    } else if unit == 'd' {
        86400
    } else {
        return Err(ReportError::UnknownDurationUnit);
    };
    if amount > u64::MAX / per_unit {
        assert(amount * per_unit > u64::MAX) by (nonlinear_arith)
            requires
                amount > u64::MAX / per_unit,
                per_unit > 0,
        ;
        return Err(ReportError::UnknownDurationUnit);
    }
    assert(amount * per_unit <= u64::MAX) by (nonlinear_arith)
        requires
            amount <= u64::MAX / per_unit,
            per_unit > 0,
    ;
    let seconds = amount * per_unit;
    if seconds < 60 || seconds > 31_536_000 {
        return Err(ReportError::DurationOutOfBounds);
    }
    Ok(RelativeDuration { seconds })
}

// ---------------------------------------------------------------------------
// Resolving the requested range.
/// Milliseconds since the Unix epoch of an RFC 3339 timestamp, as
/// `chrono::DateTime::parse_from_rfc3339(..).timestamp_millis()` computes them.
pub uninterp spec fn rfc3339_timestamp_millis(text: Seq<char>) -> Option<i64>;

/// Calls `chrono::DateTime::parse_from_rfc3339` and reads the instant in Unix
/// milliseconds.  The contract names the result and claims only that it is a
/// function of the text.
#[verifier::external_body]
fn rfc3339_millis(value: &str) -> (r: Option<i64>)
    ensures
        r == rfc3339_timestamp_millis(value@),
{
    match chrono::DateTime::parse_from_rfc3339(value) {
        Ok(time) => Some(time.timestamp_millis()),
        Err(_) => None,
    }
}

/// An RFC 3339 timestamp in Unix milliseconds.
pub fn parse_rfc3339_millis(value: &str) -> (r: Result<i64, ReportError>)
    ensures
        r == match rfc3339_timestamp_millis(value@) {
            Some(ms) => Ok::<i64, ReportError>(ms),
            None => Err(ReportError::InvalidTimestamp),
        },
{
    match rfc3339_millis(value) {
        Some(ms) => Ok(ms),
        None => Err(ReportError::InvalidTimestamp),
    }
}

/// The range a report resolves to, from the parsed explicit bounds.
pub open spec fn range_of(from_ms: i64, to_ms: i64) -> Result<ReportRange, ReportError> {
    if from_ms >= to_ms {
        Err(ReportError::EmptyRange)
    } else if to_ms - from_ms > MAX_REPORT_RANGE_MS {
        Err(ReportError::RangeTooLong)
    } else {
        Ok(ReportRange { from_ms, to_ms })
    }
}

/// The report range requested by `last`, or by `from` and `to` (RFC 3339),
/// at time `now_ms`: `last` defaults to one hour and ends now; explicit
/// bounds must come together and without `last`.  `from_ms` and `to_ms` are
/// the instants the timestamps denote.
pub open spec fn resolved_range(
    last: Option<Seq<char>>,
    from: Option<Seq<char>>,
    to: Option<Seq<char>>,
    now_ms: i64,
) -> Result<ReportRange, ReportError> {
    if last is Some && (from is Some || to is Some) {
        Err(ReportError::LastWithExplicitRange)
    } else {
        match (from, to) {
            (Some(f), Some(t)) => match rfc3339_timestamp_millis(f) {
                None => Err(ReportError::InvalidTimestamp),
                Some(from_ms) => match rfc3339_timestamp_millis(t) {
                    None => Err(ReportError::InvalidTimestamp),
                    Some(to_ms) => range_of(from_ms, to_ms),
                },
            },
            (None, None) => match relative_duration(
                match last {
                    Some(l) => l,
                    None => "1h"@,
                },
            ) {
                Err(e) => Err(e),
                Ok(seconds) => {
                    let start = crate::anomaly::clamp_i64(now_ms - seconds * 1000);
                    range_of(start as i64, now_ms)
                },
            },
            _ => Err(ReportError::IncompleteExplicitRange),
        }
    }
}

/// Every accepted relative duration lies between one minute and 365 days.
pub proof fn lemma_accepted_durations_are_bounded(text: Seq<char>)
    ensures
        relative_duration(text) matches Ok(seconds) ==> 60 <= seconds <= 31_536_000,
{
}

/// Every range a report resolves to is non-empty and at most 365 days long.
pub proof fn lemma_resolved_ranges_are_valid(
    last: Option<Seq<char>>,
    from: Option<Seq<char>>,
    to: Option<Seq<char>>,
    now_ms: i64,
)
    ensures
        resolved_range(last, from, to, now_ms) matches Ok(range) ==> valid_range(
            range.from_ms,
            range.to_ms,
        ),
{
}

/// Resolves the requested report range (see `resolved_range`).
pub fn resolve_range(last: Option<&str>, from: Option<&str>, to: Option<&str>, now_ms: i64) -> (r:
    Result<ReportRange, ReportError>)
    ensures
        r == resolved_range(
            crate::anomaly_storage::optional_text(last),
            crate::anomaly_storage::optional_text(from),
            crate::anomaly_storage::optional_text(to),
            now_ms,
        ),
{
    if last.is_some() && (from.is_some() || to.is_some()) {
        return Err(ReportError::LastWithExplicitRange);
    }
    match (from, to) {
        (Some(from), Some(to)) => {
            let from_ms = parse_rfc3339_millis(from)?;
            let to_ms = parse_rfc3339_millis(to)?;
            ReportRange::new(from_ms, to_ms)
        },
        (None, None) => {
            let text = match last {
                Some(text) => text,
                None => "1h",
            };
            let duration = parse_relative_duration(text)?;
            let duration_ms = duration.as_millis() as i64;
            let start = if now_ms < i64::MIN + duration_ms {
                i64::MIN
            } else {
                now_ms - duration_ms
            };
            ReportRange::new(start, now_ms)
        },
        _ => Err(ReportError::IncompleteExplicitRange),
    }
}


// ---------------------------------------------------------------------------
// Chart buckets.
/// At most about this many points are drawn per process chart.
pub const MAX_PROCESS_CHART_POINTS: i64 = 360;

/// The narrowest process chart bucket, in milliseconds.
pub const MIN_PROCESS_BUCKET_MS: i64 = 15_000;

/// The span of one metric chart bucket for a range of `duration_ms` read at a
/// tier of `base_ms` milliseconds: the smallest multiple of the tier (at
/// least one) that keeps the chart within `MAX_CHART_POINTS` points.
pub open spec fn chart_bucket_span(duration_ms: int, base_ms: int) -> int {
    if duration_ms <= 0 {
        base_ms
    } else {
        let needed = crate::anomaly::clamp_i64(duration_ms + (MAX_CHART_POINTS - 1))
            / (MAX_CHART_POINTS as int);
        let multiples = (needed + base_ms - 1) / base_ms;
        base_ms * if multiples < 1 {
            1
        } else {
            multiples
        }
    }
}

/// The span of one metric chart bucket (see `chart_bucket_span`).  The span
/// is a whole number of tier intervals, at least one, and a range of up to
/// `i64::MAX - MAX_CHART_POINTS` milliseconds needs at most
/// `MAX_CHART_POINTS` buckets of it.
pub fn chart_bucket_span_ms(range: ReportRange, resolution: ReportResolution) -> (span: i64)
    ensures
        span == chart_bucket_span(
            crate::anomaly::elapsed_ms(range.to_ms, range.from_ms),
            resolution_seconds(resolution) * 1000,
        ),
        (span as int) % (resolution_seconds(resolution) * 1000) == 0,
        span >= resolution_seconds(resolution) * 1000,
        0 < crate::anomaly::elapsed_ms(range.to_ms, range.from_ms) <= i64::MAX - MAX_CHART_POINTS
            ==> crate::anomaly::elapsed_ms(range.to_ms, range.from_ms) <= MAX_CHART_POINTS * span,
{
    let base = resolution.seconds() * 1000;
    let duration = range.duration_ms();
    if duration <= 0 {
        assert(base % base == 0) by (nonlinear_arith)
            requires
                base > 0,
        ;
        return base;
    }
    let padded = if duration > i64::MAX - (MAX_CHART_POINTS - 1) {
        i64::MAX
    } else {
        duration + (MAX_CHART_POINTS - 1)
    };
    let needed = padded / MAX_CHART_POINTS;
    let multiples = (needed + base - 1) / base;
    let count = if multiples < 1 {
        1
    } else {
        multiples
    };
    assert(base * count <= needed + base) by (nonlinear_arith)
        requires
            base > 0,
            needed >= 0,
            multiples == (needed + base - 1) / (base as int),
            count == if multiples < 1 {
                1
            } else {
                multiples
            },
    ;
    let span = base * count;
    assert(span % base == 0 && span >= base) by (nonlinear_arith)
        requires
            base > 0,
            count >= 1,
            span == base * count,
    ;
    assert(duration <= i64::MAX - MAX_CHART_POINTS ==> duration <= MAX_CHART_POINTS * span)
        by (nonlinear_arith)
        requires
            base > 0,
            duration > 0,
            duration <= i64::MAX - MAX_CHART_POINTS ==> padded == duration + (MAX_CHART_POINTS - 1),
            needed == padded / MAX_CHART_POINTS,
            multiples == (needed + base - 1) / (base as int),
            count >= multiples,
            span == base * count,
    ;
    span
}

/// The span of one process chart bucket for a range of `duration_ms`: whole
/// seconds, at least `MIN_PROCESS_BUCKET_MS`, and wide enough to keep the
/// chart within `MAX_PROCESS_CHART_POINTS` points.
pub open spec fn process_chart_bucket_span(duration_ms: int) -> int {
    if duration_ms <= 0 {
        MIN_PROCESS_BUCKET_MS as int
    } else {
        let needed = crate::anomaly::clamp_i64(duration_ms + (MAX_PROCESS_CHART_POINTS - 1))
            / (MAX_PROCESS_CHART_POINTS as int);
        let rounded = (needed + 999) / 1000 * 1000;
        if rounded < MIN_PROCESS_BUCKET_MS {
            MIN_PROCESS_BUCKET_MS as int
        } else {
            rounded
        }
    }
}

/// The span of one process chart bucket (see `process_chart_bucket_span`).
/// It is a whole number of seconds, at least `MIN_PROCESS_BUCKET_MS`, and a
/// range of up to `i64::MAX - MAX_PROCESS_CHART_POINTS` milliseconds needs at
/// most `MAX_PROCESS_CHART_POINTS` buckets of it.
pub fn process_chart_bucket_span_ms(range: ReportRange) -> (span: i64)
    ensures
        span == process_chart_bucket_span(crate::anomaly::elapsed_ms(range.to_ms, range.from_ms)),
        span % 1000 == 0,
        span >= MIN_PROCESS_BUCKET_MS,
        0 < crate::anomaly::elapsed_ms(range.to_ms, range.from_ms) <= i64::MAX
            - MAX_PROCESS_CHART_POINTS ==> crate::anomaly::elapsed_ms(range.to_ms, range.from_ms)
            <= MAX_PROCESS_CHART_POINTS * span,
{
    let duration = range.duration_ms();
    if duration <= 0 {
        return MIN_PROCESS_BUCKET_MS;
    }
    let padded = if duration > i64::MAX - (MAX_PROCESS_CHART_POINTS - 1) {
        i64::MAX
    } else {
        duration + (MAX_PROCESS_CHART_POINTS - 1)
    };
    let needed = padded / MAX_PROCESS_CHART_POINTS;
    let rounded = (needed + 999) / 1000 * 1000;
    assert(rounded % 1000 == 0 && rounded >= needed && rounded <= needed + 999) by (nonlinear_arith)
        requires
            needed >= 0,
            rounded == (needed + 999) / 1000int * 1000,
    ;
    let span = if rounded < MIN_PROCESS_BUCKET_MS {
        MIN_PROCESS_BUCKET_MS
    } else {
        rounded
    };
    assert(duration <= i64::MAX - MAX_PROCESS_CHART_POINTS ==> duration <= MAX_PROCESS_CHART_POINTS
        * span) by (nonlinear_arith)
        requires
            duration > 0,
            duration <= i64::MAX - MAX_PROCESS_CHART_POINTS ==> padded == duration + (
            MAX_PROCESS_CHART_POINTS - 1),
            needed == padded / MAX_PROCESS_CHART_POINTS,
            span >= needed,
    ;
    span
}


// ---------------------------------------------------------------------------
// Process data of a report.
/// The rankings that pick the processes a dashboard charts.
#[derive(Debug, Clone, Copy, PartialEq, Eq, Structural)]
pub enum ProcessDimension {
    Cpu,
    Memory,
    DiskRead,
    DiskWrite,
    NetworkReceive,
    NetworkTransmit,
    Gpu,
}

/// The position of a ranking in a process's list of ranks.
pub open spec fn dimension_index(dimension: ProcessDimension) -> nat {
    match dimension {
        ProcessDimension::Cpu => 0,
        ProcessDimension::Memory => 1,
        ProcessDimension::DiskRead => 2,
        ProcessDimension::DiskWrite => 3,
        ProcessDimension::NetworkReceive => 4,
        ProcessDimension::NetworkTransmit => 5,
        ProcessDimension::Gpu => 6,
    }
}

/// The position of a ranking in a process's list of ranks (see
/// `dimension_index`).
pub fn process_dimension_index(dimension: ProcessDimension) -> (index: usize)
    ensures
        index == dimension_index(dimension),
        index < 7,
{
    match dimension {
        ProcessDimension::Cpu => 0,
        ProcessDimension::Memory => 1,
        ProcessDimension::DiskRead => 2,
        ProcessDimension::DiskWrite => 3,
        ProcessDimension::NetworkReceive => 4,
        ProcessDimension::NetworkTransmit => 5,
        ProcessDimension::Gpu => 6,
    }
}

/// The process rollup tier a report reads, from the oldest retained raw
/// process sample and the oldest one-minute and 15-minute process buckets
/// before the range's end: none when raw samples reach back to the range's
/// start, else the first rollup tier (in seconds) that does, else none.
pub open spec fn process_rollup_tier(
    raw_oldest: Option<i64>,
    minute_oldest: Option<i64>,
    quarter_oldest: Option<i64>,
    from_ms: i64,
) -> Option<i64> {
    if raw_oldest matches Some(t) && t <= from_ms {
        None
    } else if minute_oldest matches Some(t) && t <= from_ms {
        Some(60)
    } else if quarter_oldest matches Some(t) && t <= from_ms {
        Some(900)
    } else {
        None
    }
}

/// The process rollup tier a report reads (see `process_rollup_tier`).
pub fn select_process_rollup_resolution(
    raw_oldest: Option<i64>,
    minute_oldest: Option<i64>,
    quarter_oldest: Option<i64>,
    range: ReportRange,
) -> (tier: Option<i64>)
    ensures
        tier == process_rollup_tier(raw_oldest, minute_oldest, quarter_oldest, range.from_ms),
{
    if let Some(t) = raw_oldest {
        if t <= range.from_ms {
            return None;
        }
    }
    if let Some(t) = minute_oldest {
        if t <= range.from_ms {
            return Some(60);
        }
    }
    if let Some(t) = quarter_oldest {
        if t <= range.from_ms {
            return Some(900);
        }
    }
    None
}

/// The most events a report shows.
pub const EVENT_LIMIT: usize = 200;

/// The events a report shows from the ids of the newest overlapping events
/// (newest first, at most one more than the limit asked for): the first
/// `EVENT_LIMIT`, and whether any was left out.
pub fn limit_events(ids: &Vec<i64>) -> (shown: (Vec<i64>, bool))
    ensures
        shown.0@ == if ids@.len() > EVENT_LIMIT {
            ids@.take(EVENT_LIMIT as int)
        } else {
            ids@
        },
        shown.1 == (ids@.len() > EVENT_LIMIT),
{
    let mut kept: Vec<i64> = Vec::new();
    let mut i: usize = 0;
    while i < ids.len() && i < EVENT_LIMIT
        invariant
            i <= ids@.len(),
            i <= EVENT_LIMIT,
            kept@ == ids@.take(i as int),
        decreases ids@.len() - i,
    {
        kept.push(ids[i]);
        i = i + 1;
        assert(kept@ =~= ids@.take(i as int));
    }
    assert(ids@.len() <= EVENT_LIMIT ==> ids@.take(i as int) =~= ids@);
    (kept, ids.len() > EVENT_LIMIT)
}


// ---------------------------------------------------------------------------
// Processes charted from rollups.
/// The peaks of one process over a report range.  Percentages and rates are
/// binary64 bit patterns (see `float_bits`).
#[derive(Debug)]
pub struct ReportProcessSummary {
    pub pid: u32,
    pub process_start_time_seconds: u64,
    pub name: String,
    pub peak_cpu_percent_bits: u64,
    pub peak_memory_bytes: u64,
    pub peak_disk_read_bytes_per_second_bits: u64,
    pub peak_disk_write_bytes_per_second_bits: u64,
    pub peak_network_receive_bytes_per_second_bits: Option<u64>,
    pub peak_network_transmit_bytes_per_second_bits: Option<u64>,
    pub peak_gpu_usage_percent_bits: Option<u64>,
    pub sample_count: i64,
    pub first_seen_ms: i64,
    pub last_seen_ms: i64,
}

/// How many processes each ranking contributes to the dashboard charts.
pub const PROCESS_CHART_LIMIT_PER_DIMENSION: usize = 3;

/// The dimension at a position of the list of ranks.
pub open spec fn dimension_at(d: int) -> ProcessDimension {
    if d == 0 {
        ProcessDimension::Cpu
    } else if d == 1 {
        ProcessDimension::Memory
    } else if d == 2 {
        ProcessDimension::DiskRead
    } else if d == 3 {
        ProcessDimension::DiskWrite
    } else if d == 4 {
        ProcessDimension::NetworkReceive
    } else if d == 5 {
        ProcessDimension::NetworkTransmit
    } else {
        ProcessDimension::Gpu
    }
}

/// The peak a process is ranked by in a dimension, if the rollups hold it:
/// network and GPU peaks may be missing; memory counts as a binary64 number.
pub open spec fn rollup_peak(p: ReportProcessSummary, dimension: ProcessDimension) -> Option<u64> {
    match dimension {
        ProcessDimension::Cpu => Some(p.peak_cpu_percent_bits),
        ProcessDimension::Memory => Some(integer_bits(p.peak_memory_bytes as nat) as u64),
        ProcessDimension::DiskRead => Some(p.peak_disk_read_bytes_per_second_bits),
        ProcessDimension::DiskWrite => Some(p.peak_disk_write_bytes_per_second_bits),
        ProcessDimension::NetworkReceive => p.peak_network_receive_bytes_per_second_bits,
        ProcessDimension::NetworkTransmit => p.peak_network_transmit_bytes_per_second_bits,
        ProcessDimension::Gpu => p.peak_gpu_usage_percent_bits,
    }
}

/// Whether the rollups hold a peak of the process in the dimension.
pub fn rollup_dimension_available(process: &ReportProcessSummary, dimension: ProcessDimension) -> (available: bool)
    ensures
        available == rollup_peak(*process, dimension) is Some,
{
    match dimension {
        ProcessDimension::NetworkReceive => process.peak_network_receive_bytes_per_second_bits.is_some(),
        ProcessDimension::NetworkTransmit => process.peak_network_transmit_bytes_per_second_bits.is_some(),
        ProcessDimension::Gpu => process.peak_gpu_usage_percent_bits.is_some(),
        _ => true,
    }
}

fn rollup_key(process: &ReportProcessSummary, d: usize) -> (key: Option<i128>)
    requires
        d < 7,
    ensures
        key == match rollup_peak(*process, dimension_at(d as int)) {
            Some(b) => Some(total_order_key(b) as i128),
            None => None,
        },
{
    let peak = if d == 0 {
        Some(process.peak_cpu_percent_bits)
    } else if d == 1 {
        Some(integer_value_bits(process.peak_memory_bytes))
    } else if d == 2 {
        Some(process.peak_disk_read_bytes_per_second_bits)
    } else if d == 3 {
        Some(process.peak_disk_write_bytes_per_second_bits)
    } else if d == 4 {
        process.peak_network_receive_bytes_per_second_bits
    } else if d == 5 {
        process.peak_network_transmit_bytes_per_second_bits
    } else {
        process.peak_gpu_usage_percent_bits
    };
    match peak {
        Some(b) => Some(if b < crate::float_bits::SIGN_BIT {
            b as i128
        } else {
            (crate::float_bits::SIGN_BIT as i128) - 1 - (b as i128)
        }),
        None => None,
    }
}

/// Whether process `j` ranks ahead of process `i` in dimension `d`: both
/// have a peak there, and `j` has the larger one, else the smaller pid, else
/// the earlier place in the list.
pub open spec fn rollup_ahead(ps: Seq<ReportProcessSummary>, d: int, j: int, i: int) -> bool {
    match (rollup_peak(ps[j], dimension_at(d)), rollup_peak(ps[i], dimension_at(d))) {
        (Some(a), Some(b)) => {
            let ka = total_order_key(a);
            let kb = total_order_key(b);
            ka > kb || (ka == kb && (ps[j].pid < ps[i].pid || (ps[j].pid == ps[i].pid && j < i)))
        },
        _ => false,
    }
}

/// How many of the first `n` processes rank ahead of process `i` in `d`.
pub open spec fn rollup_ahead_count(ps: Seq<ReportProcessSummary>, d: int, i: int, n: int) -> nat
    decreases n,
{
    if n <= 0 {
        0
    } else {
        rollup_ahead_count(ps, d, i, n - 1) + if rollup_ahead(ps, d, n - 1, i) {
            1nat
        } else {
            0nat
        }
    }
}

/// The chart rank of process `i` in dimension `d`: its place among the
/// processes with a peak there, when it is one of the first three.
pub open spec fn chart_rank(ps: Seq<ReportProcessSummary>, d: int, i: int) -> Option<u8> {
    let ahead = rollup_ahead_count(ps, d, i, ps.len() as int);
    if rollup_peak(ps[i], dimension_at(d)) is Some && ahead < PROCESS_CHART_LIMIT_PER_DIMENSION {
        Some((ahead + 1) as u8)
    } else {
        None
    }
}

/// Whether some dimension charts process `i`.
pub open spec fn is_charted(ps: Seq<ReportProcessSummary>, i: int) -> bool {
    exists|d: int| 0 <= d < 7 && #[trigger] chart_rank(ps, d, i) is Some
}

/// Whether process `i` comes before process `j` in the chart list: by pid,
/// then by start time.
pub open spec fn charted_before(ps: Seq<ReportProcessSummary>, i: int, j: int) -> bool {
    ps[i].pid < ps[j].pid || (ps[i].pid == ps[j].pid && ps[i].process_start_time_seconds
        < ps[j].process_start_time_seconds)
}

/// The processes a dashboard charts and their ranks.
#[derive(Debug, Clone, Copy, PartialEq, Eq, Structural)]
pub struct ChartedProcess {
    /// The process's place in the summaries.
    pub index: usize,
    pub cpu_rank: Option<u8>,
    pub memory_rank: Option<u8>,
    pub disk_read_rank: Option<u8>,
    pub disk_write_rank: Option<u8>,
    pub network_receive_rank: Option<u8>,
    pub network_transmit_rank: Option<u8>,
    pub gpu_rank: Option<u8>,
}

/// The chart entry of process `i`.
pub open spec fn charted_entry(ps: Seq<ReportProcessSummary>, i: int) -> ChartedProcess {
    ChartedProcess {
        index: i as usize,
        cpu_rank: chart_rank(ps, 0, i),
        memory_rank: chart_rank(ps, 1, i),
        disk_read_rank: chart_rank(ps, 2, i),
        disk_write_rank: chart_rank(ps, 3, i),
        network_receive_rank: chart_rank(ps, 4, i),
        network_transmit_rank: chart_rank(ps, 5, i),
        gpu_rank: chart_rank(ps, 6, i),
    }
}

/// No two summaries share a pid and a start time, as rows grouped by them.
pub open spec fn summaries_distinct(ps: Seq<ReportProcessSummary>) -> bool {
    forall|i: int, j: int|
        0 <= i < j < ps.len() ==> (#[trigger] ps[i]).pid != (#[trigger] ps[j]).pid
            || ps[i].process_start_time_seconds != ps[j].process_start_time_seconds
}

fn dimension_ranks(ps: &Vec<ReportProcessSummary>, d: usize) -> (ranks: Vec<Option<u8>>)
    requires
        d < 7,
    ensures
        ranks@.len() == ps@.len(),
        forall|i: int| 0 <= i < ps@.len() ==> #[trigger] ranks@[i] == chart_rank(ps@, d as int, i),
{
    let n = ps.len();
    let mut keys: Vec<Option<i128>> = Vec::new();
    let mut i: usize = 0;
    while i < n
        invariant
            i <= n == ps@.len(),
            d < 7,
            keys@.len() == i,
            forall|j: int|
                0 <= j < i ==> #[trigger] keys@[j] == match rollup_peak(ps@[j], dimension_at(d as int)) {
                    Some(b) => Some(total_order_key(b) as i128),
                    None => None,
                },
        decreases n - i,
    {
        keys.push(rollup_key(&ps[i], d));
        i = i + 1;
    }
    let mut ranks: Vec<Option<u8>> = Vec::new();
    let mut i: usize = 0;
    while i < n
        invariant
            i <= n == ps@.len(),
            keys@.len() == n,
            forall|j: int|
                0 <= j < n ==> #[trigger] keys@[j] == match rollup_peak(ps@[j], dimension_at(d as int)) {
                    Some(b) => Some(total_order_key(b) as i128),
                    None => None,
                },
            ranks@.len() == i,
            forall|j: int| 0 <= j < i ==> #[trigger] ranks@[j] == chart_rank(ps@, d as int, j),
        decreases n - i,
    {
        let mut ahead: usize = 0;
        let mut j: usize = 0;
        while j < n
            invariant
                i < n == ps@.len(),
                j <= n,
                keys@.len() == n,
                forall|x: int|
                    0 <= x < n ==> #[trigger] keys@[x] == match rollup_peak(ps@[x], dimension_at(d as int)) {
                        Some(b) => Some(total_order_key(b) as i128),
                        None => None,
                    },
                ahead == rollup_ahead_count(ps@, d as int, i as int, j as int),
                ahead <= j,
            decreases n - j,
        {
            let before = match (keys[j], keys[i]) {
                (Some(a), Some(b)) => a > b || (a == b && (ps[j].pid < ps[i].pid || (ps[j].pid
                    == ps[i].pid && j < i))),
                _ => false,
            };
            assert(before == rollup_ahead(ps@, d as int, j as int, i as int));
            if before {
                ahead = ahead + 1;
            }
            j = j + 1;
        }
        let rank = if keys[i].is_some() && ahead < PROCESS_CHART_LIMIT_PER_DIMENSION {
            Some((ahead + 1) as u8)
        } else {
            None
        };
        ranks.push(rank);
        i = i + 1;
    }
    ranks
}

/// How many of the first `n` charted processes are not listed yet.
spec fn pending_count(flags: Seq<bool>, taken: Seq<bool>, n: int) -> nat
    decreases n,
{
    if n <= 0 {
        0
    } else {
        pending_count(flags, taken, n - 1) + if flags[n - 1] && !taken[n - 1] {
            1nat
        } else {
            0nat
        }
    }
}

proof fn lemma_pending_unchanged(flags: Seq<bool>, first: Seq<bool>, second: Seq<bool>, n: int)
    requires
        forall|i: int| 0 <= i < n ==> first[i] == second[i],
    ensures
        pending_count(flags, first, n) == pending_count(flags, second, n),
    decreases n,
{
    if n > 0 {
        lemma_pending_unchanged(flags, first, second, n - 1);
    }
}

proof fn lemma_pending_drops(flags: Seq<bool>, taken: Seq<bool>, p: int, n: int)
    requires
        0 <= p < n <= taken.len(),
        flags[p],
        !taken[p],
    ensures
        pending_count(flags, taken.update(p, true), n) + 1 == pending_count(flags, taken, n),
    decreases n,
{
    if p == n - 1 {
        lemma_pending_unchanged(flags, taken.update(p, true), taken, n - 1);
    } else {
        lemma_pending_drops(flags, taken, p, n - 1);
    }
}

/// The processes a dashboard charts from rollups: each dimension
/// contributes its three highest peaks (among the processes with a peak
/// there), and the union is listed by pid and start time, each with its
/// rank per dimension (see `chart_rank`).  The summaries are grouped by pid
/// and start time, so none repeats.
pub fn chart_processes(summaries: &Vec<ReportProcessSummary>) -> (charted: Vec<ChartedProcess>)
    requires
        summaries_distinct(summaries@),
    ensures
        forall|k: int|
            0 <= k < charted@.len() ==> (#[trigger] charted@[k]).index < summaries@.len()
                && is_charted(summaries@, charted@[k].index as int) && charted@[k] == charted_entry(
                summaries@,
                charted@[k].index as int,
            ),
        forall|k1: int, k2: int|
            0 <= k1 < k2 < charted@.len() ==> charted_before(
                summaries@,
                (#[trigger] charted@[k1]).index as int,
                (#[trigger] charted@[k2]).index as int,
            ),
        forall|i: int|
            0 <= i < summaries@.len() && is_charted(summaries@, i) ==> exists|k: int|
                0 <= k < charted@.len() && (#[trigger] charted@[k]).index == i,
{
    let ghost ps = summaries@;
    let n = summaries.len();
    let mut ranks: Vec<Vec<Option<u8>>> = Vec::new();
    let mut d: usize = 0;
    while d < 7
        invariant
            d <= 7,
            ps == summaries@,
            n == ps.len(),
            ranks@.len() == d,
            forall|x: int|
                0 <= x < d ==> (#[trigger] ranks@[x])@.len() == n && forall|i: int|
                    0 <= i < n ==> #[trigger] ranks@[x]@[i] == chart_rank(ps, x, i),
        decreases 7 - d,
    {
        ranks.push(dimension_ranks(summaries, d));
        d = d + 1;
    }
    let mut charted_flags: Vec<bool> = Vec::new();
    let mut i: usize = 0;
    while i < n
        invariant
            i <= n == ps.len(),
            ps == summaries@,
            ranks@.len() == 7,
            forall|x: int|
                0 <= x < 7 ==> (#[trigger] ranks@[x])@.len() == n && forall|y: int|
                    0 <= y < n ==> #[trigger] ranks@[x]@[y] == chart_rank(ps, x, y),
            charted_flags@.len() == i,
            forall|y: int| 0 <= y < i ==> #[trigger] charted_flags@[y] == is_charted(ps, y),
        decreases n - i,
    {
        let mut any = false;
        let mut x: usize = 0;
        while x < 7
            invariant
                x <= 7,
                i < n == ps.len(),
                ranks@.len() == 7,
                forall|z: int|
                    0 <= z < 7 ==> (#[trigger] ranks@[z])@.len() == n && forall|y: int|
                        0 <= y < n ==> #[trigger] ranks@[z]@[y] == chart_rank(ps, z, y),
                any == exists|z: int| 0 <= z < x && #[trigger] chart_rank(ps, z, i as int) is Some,
            decreases 7 - x,
        {
            assert(ranks@[x as int]@[i as int] == chart_rank(ps, x as int, i as int));
            if ranks[x][i].is_some() {
                any = true;
            }
            x = x + 1;
        }
        charted_flags.push(any);
        i = i + 1;
    }
    let mut charted: Vec<ChartedProcess> = Vec::new();
    let mut taken: Vec<bool> = Vec::new();
    let mut i: usize = 0;
    while i < n
        invariant
            i <= n,
            taken@.len() == i,
            forall|y: int| 0 <= y < i ==> !(#[trigger] taken@[y]),
        decreases n - i,
    {
        taken.push(false);
        i = i + 1;
    }
    let mut done = false;
    while !done
        invariant
            ps == summaries@,
            n == ps.len(),
            summaries_distinct(ps),
            charted_flags@.len() == n,
            taken@.len() == n,
            forall|y: int| 0 <= y < n ==> #[trigger] charted_flags@[y] == is_charted(ps, y),
            ranks@.len() == 7,
            forall|z: int|
                0 <= z < 7 ==> (#[trigger] ranks@[z])@.len() == n && forall|y: int|
                    0 <= y < n ==> #[trigger] ranks@[z]@[y] == chart_rank(ps, z, y),
            forall|k: int|
                0 <= k < charted@.len() ==> (#[trigger] charted@[k]).index < n
                    && charted_flags@[charted@[k].index as int] && taken@[charted@[k].index as int]
                    && charted@[k] == charted_entry(ps, charted@[k].index as int),
            forall|k1: int, k2: int|
                0 <= k1 < k2 < charted@.len() ==> charted_before(
                    ps,
                    (#[trigger] charted@[k1]).index as int,
                    (#[trigger] charted@[k2]).index as int,
                ),
            forall|y: int|
                0 <= y < n && #[trigger] taken@[y] ==> exists|k: int|
                    0 <= k < charted@.len() && (#[trigger] charted@[k]).index == y,
            forall|y: int|
                0 <= y < n && charted_flags@[y] && !(#[trigger] taken@[y]) ==> !done && forall|k: int|
                    0 <= k < charted@.len() ==> charted_before(ps, (#[trigger] charted@[k]).index as int, y),
            done ==> forall|y: int| 0 <= y < n && charted_flags@[y] ==> #[trigger] taken@[y],
        decreases pending_count(charted_flags@, taken@, n as int), if done {
            0int
        } else {
            1int
        },
    {
        let mut pick: Option<usize> = None;
        let mut y: usize = 0;
        while y < n
            invariant
                y <= n == ps.len(),
                ps == summaries@,
                summaries_distinct(ps),
                charted_flags@.len() == n,
                taken@.len() == n,
                pick matches Some(p) ==> p < y && charted_flags@[p as int] && !taken@[p as int]
                    && forall|z: int|
                    0 <= z < y && charted_flags@[z] && !taken@[z] && z != p ==> charted_before(
                        ps,
                        p as int,
                        z,
                    ),
                pick is None ==> forall|z: int|
                    0 <= z < y && #[trigger] charted_flags@[z] ==> taken@[z],
            decreases n - y,
        {
            if charted_flags[y] && !taken[y] {
                match pick {
                    None => {
                        pick = Some(y);
                    },
                    Some(p) => {
                        proof {
                            assert(ps[p as int].pid != ps[y as int].pid
                                || ps[p as int].process_start_time_seconds
                                != ps[y as int].process_start_time_seconds);
                        }
                        if summaries[y].pid < summaries[p].pid || (summaries[y].pid
                            == summaries[p].pid && summaries[y].process_start_time_seconds
                            < summaries[p].process_start_time_seconds) {
                            pick = Some(y);
                        }
                    },
                }
            }
            y = y + 1;
        }
        match pick {
            None => {
                done = true;
            },
            Some(p) => {
                proof {
                    assert(ranks@[0]@[p as int] == chart_rank(ps, 0, p as int));
                    assert(ranks@[1]@[p as int] == chart_rank(ps, 1, p as int));
                    assert(ranks@[2]@[p as int] == chart_rank(ps, 2, p as int));
                    assert(ranks@[3]@[p as int] == chart_rank(ps, 3, p as int));
                    assert(ranks@[4]@[p as int] == chart_rank(ps, 4, p as int));
                    assert(ranks@[5]@[p as int] == chart_rank(ps, 5, p as int));
                    assert(ranks@[6]@[p as int] == chart_rank(ps, 6, p as int));
                }
                let entry = ChartedProcess {
                    index: p,
                    cpu_rank: ranks[0][p],
                    memory_rank: ranks[1][p],
                    disk_read_rank: ranks[2][p],
                    disk_write_rank: ranks[3][p],
                    network_receive_rank: ranks[4][p],
                    network_transmit_rank: ranks[5][p],
                    gpu_rank: ranks[6][p],
                };
                let ghost before = charted@;
                let ghost taken_before = taken@;
                charted.push(entry);
                taken.set(p, true);
                proof {
                    lemma_pending_drops(charted_flags@, taken_before, p as int, n as int);
                    assert(charted@[before.len() as int] == entry);
                    assert forall|k: int| 0 <= k < before.len() implies charted@[k] == before[k] by {}
                    assert forall|yy: int| 0 <= yy < n && #[trigger] taken@[yy] implies exists|k: int|
                        0 <= k < charted@.len() && (#[trigger] charted@[k]).index == yy by {
                        if yy == p {
                            assert(charted@[before.len() as int].index == yy);
                        } else {
                            assert(taken_before[yy]);
                            let k = choose|k: int| 0 <= k < before.len() && (#[trigger] before[k]).index == yy;
                            assert(charted@[k].index == yy);
                        }
                    }
                    assert forall|k: int| 0 <= k < before.len() implies before[k].index != p by {
                        assert(taken_before[before[k].index as int]);
                    }
                    assert forall|k1: int, k2: int|
                        0 <= k1 < k2 < charted@.len() implies charted_before(
                            ps,
                            (#[trigger] charted@[k1]).index as int,
                            (#[trigger] charted@[k2]).index as int,
                        ) by {
                        if k2 == before.len() {
                            assert(charted_flags@[p as int] && !taken_before[p as int]);
                        }
                    }
                }
            },
        }
    }
    proof {
        assert forall|i: int| 0 <= i < n && is_charted(ps, i) implies exists|k: int|
            0 <= k < charted@.len() && (#[trigger] charted@[k]).index == i by {
            assert(charted_flags@[i]);
            assert(taken@[i]);
        }
    }
    charted
}

} // verus!
