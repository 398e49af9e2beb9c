//! Small utilities shared across the crate.

use vstd::prelude::*;
use std::collections::HashMap;
use std::time::{Duration, SystemTime};
use crate::context::duration_nanos;
use vstd::std_specs::hash::spec_keys_iter;
use vstd::std_specs::iter::IteratorSpec;

pub mod serde;

verus! {

broadcast use vstd::std_specs::hash::group_hash_axioms;

/// The keys of a map, each once.
pub(crate) fn map_keys<V>(m: &HashMap<u64, V>) -> (ks: Vec<u64>)
    ensures
        ks@.no_duplicates(),
        ks@.to_set() == m@.dom(),
{
    let mut ks: Vec<u64> = Vec::new();
    for k in it: m.keys()
        invariant
            it.seq() == spec_keys_iter(m).remaining(),
            ks@ == it.seq().take(it.index()).unref(),
        ensures
            ks@ == spec_keys_iter(m).remaining().unref(),
    {
        ks.push(*k);
        proof {
            assert(it.seq().take(it.index() + 1) =~= it.seq().take(it.index()).push(
                it.seq()[it.index()],
            ));
        }
    }
    ks
}

/// Appends `t` to `s` (`String::push_str`).
#[verifier::external_body]
pub(crate) fn push_str(s: &mut String, t: &str)
    ensures
        final(s)@ == old(s)@ + t@,
{
    s.push_str(t)
}

/// Appends `c` to `s` (`String::push`).
#[verifier::external_body]
pub(crate) fn push_char(s: &mut String, c: char)
    ensures
        final(s)@ == old(s)@.push(c),
{
    s.push(c)
}

/// The lowercase hex digit of a number below 16.
pub open spec fn hex_digit(n: u64) -> char {
    if n < 10 {
        ('0' as u32 + n) as char
    } else {
        ('a' as u32 + (n - 10)) as char
    }
}

/// The lowercase hex digit of `n`, which is below 16.
pub(crate) fn hex_char(n: u64) -> (c: char)
    requires
        n < 16,
    ensures
        c == hex_digit(n),
{
    match n {
        0 => '0',
        1 => '1',
        2 => '2',
        3 => '3',
        4 => '4',
        5 => '5',
        6 => '6',
        7 => '7',
        8 => '8',
        9 => '9',
        10 => 'a',
        11 => 'b',
        12 => 'c',
        13 => 'd',
        14 => 'e',
        _ => 'f',
    }
}

/// The lowercase hex digits of `n`, most significant first, without leading zeros.
pub open spec fn hex_of(n: nat) -> Seq<char>
    decreases n,
{
    if n < 16 {
        seq![hex_digit(n as u64)]
    } else {
        hex_of(n / 16).push(hex_digit((n % 16) as u64))
    }
}

/// `n` in lowercase hex, without leading zeros but at least two digits wide (as `{:02x}` writes
/// it).
pub open spec fn hex_min2(n: nat) -> Seq<char> {
    if n < 16 {
        seq!['0', hex_digit(n as u64)]
    } else {
        hex_of(n)
    }
}

/// `u` in lowercase hex, without leading zeros but at least two digits wide.
pub fn lower_hex_min2(u: u128) -> (s: String)
    ensures
        s@ == hex_min2(u as nat),
{
    let mut n: u128 = u;
    let mut rev: Vec<char> = Vec::new();
    let ghost mut suffix: Seq<char> = Seq::empty();
    while n >= 16
        invariant
            hex_of(u as nat) == hex_of(n as nat) + suffix,
            rev@ == suffix.reverse(),
            n <= u,
            u < 16 ==> n == u && suffix.len() == 0,
        decreases n,
    {
        let d: u64 = (n % 16) as u64;
        rev.push(hex_char(d));
        proof {
            let old_suffix = suffix;
            suffix = seq![hex_digit(d)] + old_suffix;
            assert(hex_of(n as nat) == hex_of((n / 16) as nat).push(hex_digit(d)));
            assert(hex_of(n as nat) + old_suffix =~= hex_of((n / 16) as nat) + suffix);
            assert(rev@ =~= suffix.reverse());
        }
        n = n / 16;
    }
    let mut s = String::new();
    if u < 16 {
        push_char(&mut s, '0');
    }
    push_char(&mut s, hex_char(n as u64));
    let ghost head = s@;
    proof {
        assert(hex_of(n as nat) == seq![hex_digit(n as u64)]);
    }
    let len = rev.len();
    let mut i = len;
    while i > 0
        invariant
            0 <= i <= len,
            len == rev@.len(),
            rev@ == suffix.reverse(),
            s@ == head + suffix.take(len - i),
        decreases i,
    {
        let c = rev[i - 1];
        push_char(&mut s, c);
        proof {
            assert(suffix.reverse()[i - 1] == suffix[len - i]);
            assert(suffix.take(len - i + 1) =~= suffix.take(len - i).push(suffix[len - i]));
        }
        i = i - 1;
    }
    proof {
        assert(suffix.take(len as int) =~= suffix);
        assert(s@ =~= hex_min2(u as nat));
    }
    s
}

#[verifier::external_type_specification]
#[verifier::external_body]
pub struct ExSystemTime(std::time::SystemTime);

/// What `std::time::SystemTime::duration_since` returns for `later` and `earlier`, its error
/// turned into `None`: the time from `earlier` to `later`, or `None` when `earlier` is the later
/// one.
pub uninterp spec fn system_time_duration_since(later: SystemTime, earlier: SystemTime) -> Option<
    Duration,
>;

/// What `t.duration_since(std::time::UNIX_EPOCH)` returns, its error turned into `None`: the
/// time from the Unix epoch to `t`, or `None` when `t` lies before the epoch.
pub uninterp spec fn system_time_since_epoch(t: SystemTime) -> Option<Duration>;

/// `t.duration_since(std::time::UNIX_EPOCH)`, its error turned into `None`.
#[verifier::external_body]
pub(crate) fn since_epoch(t: SystemTime) -> (d: Option<Duration>)
    ensures
        d == system_time_since_epoch(t),
{
    t.duration_since(std::time::UNIX_EPOCH).ok()
}

/// Reads the wall clock with `std::time::SystemTime::now`. The value depends on when the call
/// happens; nothing is stated of it.
#[verifier::external_body]
fn system_time_now() -> (now: SystemTime) {
    SystemTime::now()
}

/// `std::time::SystemTime::duration_since`, its error turned into `None`.
#[verifier::external_body]
fn system_duration_since(later: SystemTime, earlier: SystemTime) -> (d: Option<Duration>)
    ensures
        d == system_time_duration_since(later, earlier),
{
    later.duration_since(earlier).ok()
}

/// `Duration::default()`, which the standard library documents as the zero span.
#[verifier::external_body]
fn duration_zero() -> (d: Duration)
    ensures
        duration_nanos(d) == 0,
{
    Duration::default()
}

/// The time from `now` until `deadline`, zero once it has passed.
pub open spec fn time_until_spec(deadline: SystemTime, now: SystemTime) -> u128 {
    match system_time_duration_since(deadline, now) {
        Some(d) => duration_nanos(d),
        None => 0,
    }
}

/// Extension trait for system times in the future, i.e. deadlines.
pub trait TimeUntil {
    /// How much time from now until this time is reached.
    fn time_until(&self) -> Duration;
}

impl TimeUntil for SystemTime {
    /// The time from the moment the clock is read until `self`; zero once `self` has passed.
    fn time_until(&self) -> (d: Duration)
        ensures
            exists|now: SystemTime| duration_nanos(d) == #[trigger] time_until_spec(*self, now),
    {
        let now = system_time_now();
        let d = match system_duration_since(*self, now) {
            Some(d) => d,
            None => duration_zero(),
        };
        assert(duration_nanos(d) == time_until_spec(*self, now));
        d
    }
}

} // verus!
