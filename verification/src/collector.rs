//! What a failing collector reports.
use vstd::prelude::*;

verus! {

broadcast use vstd::string::group_string_axioms;

/// Why a collector produced no measurements.
#[derive(Debug)]
pub enum CollectorError {
    /// The collector returned no metrics.
    EmptySample,
    /// A capability the collector needs is unavailable, for the given reason.
    Unavailable(String),
}

/// How a collector error reads.
pub open spec fn collector_error_text(error: CollectorError) -> Seq<char> {
    match error {
        CollectorError::EmptySample => "collector returned no metrics"@,
        CollectorError::Unavailable(reason) => "capability unavailable: "@ + reason@,
    }
}

impl CollectorError {
    /// How the error reads (see `collector_error_text`).
    pub fn message(&self) -> (text: String)
        ensures
            text@ == collector_error_text(*self),
    {
        match self {
            CollectorError::EmptySample => String::from_str("collector returned no metrics"),
            CollectorError::Unavailable(reason) => {
                let mut text = String::from_str("capability unavailable: ");
                text.append(reason.as_str());
                text
            },
        }
    }
}

} // verus!
