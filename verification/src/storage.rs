//! What the metric store reports about itself.
use vstd::prelude::*;

verus! {

/// The amount and time range of the stored samples: the number of samples,
/// and the collection times of the oldest and newest, as stored (RFC 3339).
#[derive(Debug, PartialEq, Eq)]
pub struct StorageStatus {
    pub sample_count: i64,
    pub oldest_sample: Option<String>,
    pub newest_sample: Option<String>,
}

} // verus!
