//! The values that travel through the pipeline.

use vstd::prelude::*;

verus! {

/// A log event as the remote service hands it out. Every field may be absent.
#[derive(Debug, Clone, PartialEq, Eq)]
pub struct SavedLogEvent {
    pub log_stream_name: Option<String>,
    pub timestamp: Option<i64>,
    pub message: Option<String>,
    pub ingestion_time: Option<i64>,
    pub event_id: Option<String>,
}

/// A log group of the remote service, reduced to what the pipeline reads of it.
#[derive(Debug, Clone, PartialEq, Eq)]
pub struct LogGroup {
    pub log_group_name: Option<String>,
}

/// A text that may be absent, as a plain character sequence.
pub open spec fn optional_text(text: Option<String>) -> Option<Seq<char>> {
    match text {
        Some(present) => Some(present@),
        None => None,
    }
}

} // verus!
