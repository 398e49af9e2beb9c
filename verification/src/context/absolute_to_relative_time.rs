//! Deadlines travel as the time left until them, so that peers with different clocks agree.

use vstd::prelude::*;
use std::time::{Duration, Instant};
use crate::context::{
    duration_since, instant_after, instant_checked_add, instant_duration_since, instant_now,
};

verus! {

/// The time left until `deadline`, measured at the moment the clock is read; zero for a
/// deadline in the past.
pub fn serialize(deadline: &Instant) -> (left: Duration)
    ensures
        exists|now: Instant| left == #[trigger] instant_duration_since(*deadline, now),
{
    let now = instant_now();
    duration_since(*deadline, now)
}

/// The deadline that lies `left` after the moment the clock is read, or that moment itself
/// when the deadline cannot be represented.
pub fn deserialize(left: Duration) -> (deadline: Instant)
    ensures
        exists|now: Instant| deadline == #[trigger] instant_after(now, left),
{
    let now = instant_now();
    let deadline = match instant_checked_add(now, left) {
        Some(d) => d,
        None => now,
    };
    assert(deadline == instant_after(now, left));
    deadline
}

} // verus!
