//! Core engine of a periodic screen-capture agent: idle detection state
//! machine, capture scheduling with pause/cancellation, a retrying upload
//! pipeline, and a date-partitioned event log. Platform capture, the object
//! store wire protocol, and process plumbing live outside this crate; the
//! logic here is specified and verified over plain values.

use vstd::prelude::*;

pub mod calendar;
pub mod clock;
pub mod config;
pub mod frame;
pub mod idle;
pub mod jsonl;
pub mod scheduler;
pub mod text;
pub mod upload;

verus! {

/// Saturating difference of two points in time given in milliseconds:
/// zero when `earlier` is not actually earlier.
pub open spec fn spec_elapsed_ms(now_ms: u64, earlier_ms: u64) -> u64 {
    if now_ms >= earlier_ms {
        (now_ms - earlier_ms) as u64
    } else {
        0
    }
}

/// Saturating difference of two points in time given in milliseconds:
/// zero when `earlier` is not actually earlier.
pub fn elapsed_ms(now_ms: u64, earlier_ms: u64) -> (r: u64)
    ensures
        r == spec_elapsed_ms(now_ms, earlier_ms),
{
    if now_ms >= earlier_ms {
        now_ms - earlier_ms
    } else {
        0
    }
}

} // verus!
