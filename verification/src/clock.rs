//! The monotonic clock, read through `std::time::Instant`.

use std::time::Duration;
use std::time::Instant;

use vstd::prelude::*;

verus! {

#[verifier::external_type_specification]
#[verifier::external_body]
pub struct ExInstant(Instant);

/// Reads the monotonic clock (`Instant::now`). Nothing is stated of the
/// instant it returns.
#[verifier::external_body]
pub(crate) fn clock_now() -> Instant {
    Instant::now()
}

/// The time elapsed on the monotonic clock since `origin`
/// (`Instant::elapsed`). It depends on when the clock is read, so nothing is
/// stated of it.
#[verifier::external_body]
fn elapsed_since(origin: &Instant) -> Duration {
    origin.elapsed()
}

/// The whole seconds of a duration (`Duration::as_secs`).
pub uninterp spec fn whole_secs_of(d: Duration) -> u64;

/// The nanoseconds of a duration beyond its whole seconds
/// (`Duration::subsec_nanos`).
pub uninterp spec fn subsec_nanos_of(d: Duration) -> u32;

/// `Duration::as_secs`: the whole seconds of `d`, a function of `d` alone.
#[verifier::external_body]
fn duration_secs(d: &Duration) -> (r: u64)
    ensures
        r == whole_secs_of(*d),
{
    d.as_secs()
}

/// `Duration::subsec_nanos`: the nanoseconds of `d` beyond its whole
/// seconds, a function of `d` alone, always below one billion.
#[verifier::external_body]
fn duration_subsec_nanos(d: &Duration) -> (r: u32)
    ensures
        r == subsec_nanos_of(*d),
        r < 1_000_000_000,
{
    d.subsec_nanos()
}

/// The length of a duration in nanoseconds, held at `u64::MAX` when it
/// does not fit.
pub open spec fn nanos_of(d: Duration) -> u64 {
    let total = whole_secs_of(d) * 1_000_000_000 + subsec_nanos_of(d);
    if total > u64::MAX {
        u64::MAX
    } else {
        total as u64
    }
}

/// The length of `d` in nanoseconds, held at `u64::MAX` when it does not
/// fit.
pub(crate) fn duration_nanos(d: &Duration) -> (r: u64)
    ensures
        r == nanos_of(*d),
{
    let secs = duration_secs(d);
    let sub = duration_subsec_nanos(d);
    match secs.checked_mul(1_000_000_000) {
        Some(whole) => match whole.checked_add(sub as u64) {
            Some(total) => total,
            None => u64::MAX,
        },
        None => {
            assert(secs * 1_000_000_000 + sub > u64::MAX);
            u64::MAX
        },
    }
}

/// Nanoseconds elapsed on the monotonic clock since `origin`.
pub fn nanos_since(origin: &Instant) -> u64 {
    let elapsed = elapsed_since(origin);
    duration_nanos(&elapsed)
}

} // verus!
