//! Main-window lifecycle decisions.

use vstd::prelude::*;

verus! {

/// Minimum interval between two geometry persists driven by Moved /
/// Resized events, in milliseconds.
pub const GEOMETRY_PERSIST_THROTTLE_MS: u64 = 200;

pub const MAIN_WINDOW_LABEL: &'static str = "main";

/// A Moved / Resized event at `now_ms` persists the geometry unless the
/// last persist, at `last_ms`, was less than the throttle interval ago
/// (a clock that went back counts as no time passed).
pub open spec fn persist_due_spec(now_ms: u64, last_ms: u64) -> bool {
    !(if now_ms >= last_ms {
        now_ms - last_ms
    } else {
        0
    } < GEOMETRY_PERSIST_THROTTLE_MS)
}

pub fn geometry_persist_due(now_ms: u64, last_ms: u64) -> (r: bool)
    ensures
        r == persist_due_spec(now_ms, last_ms),
{
    !(now_ms.saturating_sub(last_ms) < GEOMETRY_PERSIST_THROTTLE_MS)
}

} // verus!
