//! Monotonic-clock values (`std::time::Instant`, `std::time::Duration`) as
//! the rest of the crate sees them: an instant is opaque, and a duration is
//! known by its length in nanoseconds.
use std::time::{Duration, Instant};
use vstd::prelude::*;

verus! {

#[verifier::external_type_specification]
#[verifier::external_body]
pub struct ExInstant(Instant);

/// `Instant` is `Copy`; its `Clone::clone` (derived) returns the same
/// instant.
pub assume_specification[ <Instant as Clone>::clone ](i: &Instant) -> (r: Instant)
    ensures
        r == *i,
;

/// What `Duration::as_nanos` returns for `d`: the total length of `d` in
/// nanoseconds.
pub uninterp spec fn duration_nanos(d: Duration) -> nat;

/// What `Instant::saturating_duration_since` returns: the time elapsed from
/// `earlier` to `later`, or zero when `earlier` is not before `later`.
pub uninterp spec fn saturating_since(later: Instant, earlier: Instant) -> Duration;

/// Calls `Duration::as_nanos`; its result is `duration_nanos(d)`.
#[verifier::external_body]
pub(crate) fn duration_as_nanos(d: &Duration) -> (r: u128)
    ensures
        r == duration_nanos(*d),
{
    d.as_nanos()
}

/// Calls `Duration::from_secs`; its documentation gives the result a length
/// of exactly `secs` seconds.
#[verifier::external_body]
pub(crate) fn duration_from_secs(secs: u64) -> (d: Duration)
    ensures
        duration_nanos(d) == secs * 1_000_000_000,
{
    Duration::from_secs(secs)
}

/// Calls `Instant::saturating_duration_since`; its result is
/// `saturating_since(*later, earlier)`, and (as documented) zero when the two
/// instants are the same.
#[verifier::external_body]
pub(crate) fn instant_saturating_since(later: &Instant, earlier: Instant) -> (d: Duration)
    ensures
        d == saturating_since(*later, earlier),
        *later == earlier ==> duration_nanos(d) == 0,
{
    later.saturating_duration_since(earlier)
}

/// Calls `Instant::now`. Nothing is stated of the result: it is the time of
/// the call.
#[verifier::external_body]
pub(crate) fn instant_now() -> Instant {
    Instant::now()
}

} // verus!
