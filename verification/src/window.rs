//! The time window of a run: from a span before an instant up to that instant.

use vstd::prelude::*;

verus! {

/// An instant of UTC: whole seconds since the first of January 1970, and the
/// nanoseconds beyond them.
#[derive(Debug, Clone, Copy, PartialEq, Eq)]
pub struct UtcInstant {
    pub secs: i64,
    pub nanos: u32,
}

/// A length of time: whole seconds, and the nanoseconds beyond them.
#[derive(Debug, Clone, Copy, PartialEq, Eq)]
pub struct Span {
    pub secs: u64,
    pub nanos: u32,
}

/// A closed interval of time, both ends in milliseconds since the first of
/// January 1970, UTC.
#[derive(Debug, Clone, Copy, PartialEq, Eq)]
pub struct TimeWindow {
    pub start: i64,
    pub end: i64,
}

/// The nanoseconds from the first of January 1970 to `at`.
pub open spec fn instant_nanos(at: UtcInstant) -> int {
    at.secs * 1_000_000_000 + at.nanos
}

/// The nanoseconds that `span` lasts.
pub open spec fn span_nanos(span: Span) -> int {
    span.secs * 1_000_000_000 + span.nanos
}

/// The whole milliseconds in `nanos` nanoseconds, rounded towards the past.
pub open spec fn whole_millis(nanos: int) -> int {
    nanos / 1_000_000
}

/// Whether `value` can be held in 64 bits with a sign.
pub open spec fn fits_i64(value: int) -> bool {
    i64::MIN <= value <= i64::MAX
}

/// The millisecond at which the window of `span` up to `now` begins.
pub open spec fn window_start(now: UtcInstant, span: Span) -> int {
    whole_millis(instant_nanos(now) - span_nanos(span))
}

/// The millisecond at which the window up to `now` ends.
pub open spec fn window_end(now: UtcInstant) -> int {
    whole_millis(instant_nanos(now))
}

/// The whole milliseconds in `nanos`, rounded towards the past, where they
/// can be held.
fn millis_of(nanos: i128) -> (millis: Option<i64>)
    ensures
        match millis {
            Some(value) => value == whole_millis(nanos as int),
            None => !fits_i64(whole_millis(nanos as int)),
        },
{
    let quotient: i128 = nanos / 1_000_000;
    let remainder: i128 = nanos % 1_000_000;
    let floor: i128 = if remainder < 0 {
        quotient - 1
    } else {
        quotient
    };
    if floor < i64::MIN as i128 || floor > i64::MAX as i128 {
        None
    } else {
        Some(floor as i64)
    }
}

impl TimeWindow {
    /// The window of `span` that ends at `now`: it ends at the millisecond
    /// of `now` and begins at the millisecond of the instant `span` before
    /// `now`. There is none where one of the two cannot be held.
    pub fn ending_at(now: &UtcInstant, span: &Span) -> (window: Option<TimeWindow>)
        ensures
            match window {
                Some(found) => found.start == window_start(*now, *span) && found.end == window_end(
                    *now,
                ),
                None => !fits_i64(window_start(*now, *span)) || !fits_i64(window_end(*now)),
            },
    {
        let end_nanos: i128 = now.secs as i128 * 1_000_000_000 + now.nanos as i128;
        let length: i128 = span.secs as i128 * 1_000_000_000 + span.nanos as i128;
        let start_nanos: i128 = end_nanos - length;
        match (millis_of(start_nanos), millis_of(end_nanos)) {
            (Some(start), Some(end)) => Some(TimeWindow { start, end }),
            _ => None,
        }
    }
}

/// A window never begins after it ends.
pub proof fn lemma_window_is_ordered(now: UtcInstant, span: Span)
    ensures
        window_start(now, span) <= window_end(now),
{
}

/// A window of whole milliseconds is as long as its span: it begins
/// `span` before the millisecond at which it ends.
pub proof fn lemma_window_of_whole_millis(now: UtcInstant, span: Span, millis: int)
    requires
        span_nanos(span) == millis * 1_000_000,
    ensures
        window_start(now, span) == window_end(now) - millis,
{
}

} // verus!
