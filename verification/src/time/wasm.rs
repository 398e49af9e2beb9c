//! Millisecond timer arithmetic, and the keys and expired entries of a queue of delayed items.

use vstd::prelude::*;
use std::time::Duration;
use crate::context::duration_nanos;

pub mod delay_queue;

verus! {

/// Which way to round a span that is not a whole number of milliseconds.
#[derive(Clone, Copy, Debug, PartialEq, Eq, Structural)]
pub enum Round {
    Up,
    Down,
}

/// `std::time::Duration::as_secs`: the whole seconds of the span.
#[verifier::external_body]
fn duration_as_secs(d: Duration) -> (s: u64)
    ensures
        s == duration_nanos(d) / 1_000_000_000,
{
    d.as_secs()
}

/// `std::time::Duration::subsec_nanos`: the nanoseconds past the whole seconds.
#[verifier::external_body]
fn duration_subsec_nanos(d: Duration) -> (n: u32)
    ensures
        n == duration_nanos(d) % 1_000_000_000,
{
    d.subsec_nanos()
}

/// `std::time::Duration::subsec_millis`: the whole milliseconds past the whole seconds.
#[verifier::external_body]
fn duration_subsec_millis(d: Duration) -> (m: u32)
    ensures
        m == (duration_nanos(d) % 1_000_000_000) / 1_000_000,
{
    d.subsec_millis()
}

/// The milliseconds of a span of `nanos` nanoseconds, the part below a second rounded as `round`
/// says, saturated to a `u64`.
pub open spec fn ms_spec(nanos: u128, round: Round) -> u64 {
    let sub: int = (nanos % 1_000_000_000) as int;
    let millis: int = match round {
        Round::Up => (sub + 999_999) / 1_000_000,
        Round::Down => sub / 1_000_000,
    };
    let total: int = (nanos / 1_000_000_000) * 1000 + millis;
    if total > u64::MAX {
        u64::MAX
    } else {
        total as u64
    }
}

/// Converts a span to milliseconds, rounding the part below a second as `round` says and
/// saturating at `u64::MAX` (still many million years).
pub fn ms(duration: Duration, round: Round) -> (m: u64)
    ensures
        m == ms_spec(duration_nanos(duration), round),
{
    let millis: u32 = match round {
        Round::Up => (duration_subsec_nanos(duration) + 999_999) / 1_000_000,
        Round::Down => duration_subsec_millis(duration),
    };
    let secs = duration_as_secs(duration);
    let whole: u64 = if secs > u64::MAX / 1000 {
        u64::MAX
    } else {
        secs * 1000
    };
    if whole > u64::MAX - millis as u64 {
        u64::MAX
    } else {
        whole + millis as u64
    }
}

} // verus!
