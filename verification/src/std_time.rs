//! Trusted surface over the standard library's time primitives.
//!
//! The raw duration, monotonic-instant and wall-clock types and their checked
//! arithmetic are consumed as black boxes: each declaration or wrapper in
//! this module states only what the standard library documents, and nothing
//! here is verified. Everything built on top of it is.

use vstd::prelude::*;

verus! {

#[verifier::external_type_specification]
#[verifier::external_body]
pub struct ExStdInstant(std::time::Instant);

#[verifier::external_type_specification]
#[verifier::external_body]
pub struct ExStdSystemTime(std::time::SystemTime);

/// The whole-second component of a primitive duration, as
/// `std::time::Duration::as_secs` reports it.
pub uninterp spec fn std_secs(d: std::time::Duration) -> u64;

/// The subsecond-nanosecond component of a primitive duration, as
/// `std::time::Duration::subsec_nanos` reports it.
pub uninterp spec fn std_subsec_nanos(d: std::time::Duration) -> u32;

/// Relies on `std::time::Duration::as_secs`: returns the whole-second
/// component of the duration.
#[verifier::external_body]
pub(crate) fn std_dur_secs(d: &std::time::Duration) -> (r: u64)
    ensures
        r == std_secs(*d),
{
    d.as_secs()
}

/// Relies on `std::time::Duration::subsec_nanos`: returns the fractional
/// part in nanoseconds, which is documented to be below one billion. A
/// primitive duration is exactly its whole-second count and this fractional
/// part, so `std::time::Duration::new` on the two read-back components
/// returns the same value; the last clause states that.
#[verifier::external_body]
pub(crate) fn std_dur_subsec_nanos(d: &std::time::Duration) -> (r: u32)
    ensures
        r == std_subsec_nanos(*d),
        r < 1_000_000_000,
        std_dur_from_parts(std_secs(*d), r) == *d,
{
    d.subsec_nanos()
}

/// The primitive duration `std::time::Duration::new` builds from a
/// second count and a nanosecond count below one billion.
pub uninterp spec fn std_dur_from_parts(secs: u64, nanos: u32) -> std::time::Duration;

/// Relies on `std::time::Duration::new`: with a nanosecond argument below
/// one billion it cannot panic, and the components of the result read back
/// as the arguments.
#[verifier::external_body]
pub(crate) fn std_dur_new(secs: u64, nanos: u32) -> (r: std::time::Duration)
    requires
        nanos < 1_000_000_000,
    ensures
        r == std_dur_from_parts(secs, nanos),
        std_secs(r) == secs,
        std_subsec_nanos(r) == nanos,
{
    std::time::Duration::new(secs, nanos)
}

/// Relies on `std::time::Instant::now`: reads the monotonic clock, which
/// always succeeds. Nothing is assumed about the value read.
#[verifier::external_body]
pub(crate) fn std_instant_now() -> std::time::Instant {
    std::time::Instant::now()
}

/// The result of `std::time::Instant::checked_add` on an instant and a
/// duration: the later instant, or nothing if it cannot be represented.
pub uninterp spec fn instant_checked_add(i: std::time::Instant, d: std::time::Duration) -> Option<
    std::time::Instant,
>;

/// Relies on `std::time::Instant::checked_add`: returns `i + d` as an
/// instant, or `None` on overflow, and never panics.
#[verifier::external_body]
pub(crate) fn std_instant_checked_add(i: &std::time::Instant, d: std::time::Duration) -> (r: Option<
    std::time::Instant,
>)
    ensures
        r == instant_checked_add(*i, d),
{
    i.checked_add(d)
}

/// The result of `std::time::Instant::checked_sub` on an instant and a
/// duration: the earlier instant, or nothing if it cannot be represented.
pub uninterp spec fn instant_checked_sub(i: std::time::Instant, d: std::time::Duration) -> Option<
    std::time::Instant,
>;

/// Relies on `std::time::Instant::checked_sub`: returns `i - d` as an
/// instant, or `None` on underflow, and never panics.
#[verifier::external_body]
pub(crate) fn std_instant_checked_sub(i: &std::time::Instant, d: std::time::Duration) -> (r: Option<
    std::time::Instant,
>)
    ensures
        r == instant_checked_sub(*i, d),
{
    i.checked_sub(d)
}

/// The result of `std::time::Instant::saturating_duration_since`: the time
/// from `earlier` to `this`, clamped to zero when `earlier` is in fact the
/// later of the two readings.
pub uninterp spec fn instant_sat_since(this: std::time::Instant, earlier: std::time::Instant) -> std::time::Duration;

/// Relies on `std::time::Instant::saturating_duration_since`: returns the
/// elapsed time, or a zero duration instead of panicking when `earlier` is
/// later than `this`.
#[verifier::external_body]
pub(crate) fn std_instant_sat_since(this: &std::time::Instant, earlier: std::time::Instant) -> (r:
    std::time::Duration)
    ensures
        r == instant_sat_since(*this, earlier),
{
    this.saturating_duration_since(earlier)
}

/// The result of `std::time::Instant::checked_duration_since`: the time
/// from `earlier` to `this`, or nothing when `earlier` is in fact the
/// later of the two readings.
pub uninterp spec fn instant_checked_since(
    this: std::time::Instant,
    earlier: std::time::Instant,
) -> Option<std::time::Duration>;

/// Relies on `std::time::Instant::checked_duration_since`: returns the
/// elapsed time, or `None` when `earlier` is later than `this`.
#[verifier::external_body]
pub(crate) fn std_instant_checked_since(
    this: &std::time::Instant,
    earlier: std::time::Instant,
) -> (r: Option<std::time::Duration>)
    ensures
        r == instant_checked_since(*this, earlier),
{
    this.checked_duration_since(earlier)
}

/// The order of two primitive instants, as `std::time::Instant`'s `Ord`
/// comparison reports it: a pure function of the two values.
pub uninterp spec fn instant_order(a: std::time::Instant, b: std::time::Instant) -> std::cmp::Ordering;

/// Relies on `std::time::Instant`'s `Ord` implementation: instants are
/// totally ordered, and comparing two of them never panics.
#[verifier::external_body]
pub(crate) fn std_instant_cmp(a: &std::time::Instant, b: &std::time::Instant) -> (r:
    std::cmp::Ordering)
    ensures
        r == instant_order(*a, *b),
{
    a.cmp(b)
}

/// Relies on `std::time::SystemTime::now`: reads the wall clock, which
/// always succeeds. Nothing is assumed about the value read, which may lie
/// before or after any other reading.
#[verifier::external_body]
pub(crate) fn std_system_now() -> std::time::SystemTime {
    std::time::SystemTime::now()
}

/// Relies on `std::time::UNIX_EPOCH`: the fixed anchor
/// "1970-01-01 00:00:00 UTC". Nothing is assumed about its value.
#[verifier::external_body]
pub(crate) fn std_unix_epoch() -> std::time::SystemTime {
    std::time::SystemTime::UNIX_EPOCH
}

/// The result of `std::time::SystemTime::checked_add` on a wall-clock time
/// and a duration: the later time, or nothing if it cannot be represented.
pub uninterp spec fn system_checked_add(t: std::time::SystemTime, d: std::time::Duration) -> Option<
    std::time::SystemTime,
>;

/// Relies on `std::time::SystemTime::checked_add`: returns `t + d`, or
/// `None` on overflow, and never panics.
#[verifier::external_body]
pub(crate) fn std_system_checked_add(t: &std::time::SystemTime, d: std::time::Duration) -> (r:
    Option<std::time::SystemTime>)
    ensures
        r == system_checked_add(*t, d),
{
    t.checked_add(d)
}

/// The result of `std::time::SystemTime::checked_sub` on a wall-clock time
/// and a duration: the earlier time, or nothing if it cannot be
/// represented.
pub uninterp spec fn system_checked_sub(t: std::time::SystemTime, d: std::time::Duration) -> Option<
    std::time::SystemTime,
>;

/// Relies on `std::time::SystemTime::checked_sub`: returns `t - d`, or
/// `None` on underflow, and never panics.
#[verifier::external_body]
pub(crate) fn std_system_checked_sub(t: &std::time::SystemTime, d: std::time::Duration) -> (r:
    Option<std::time::SystemTime>)
    ensures
        r == system_checked_sub(*t, d),
{
    t.checked_sub(d)
}

/// The order of two primitive wall-clock values, as
/// `std::time::SystemTime`'s `Ord` comparison reports it: a pure function
/// of the two values.
pub uninterp spec fn system_order(a: std::time::SystemTime, b: std::time::SystemTime) -> std::cmp::Ordering;

/// Relies on `std::time::SystemTime`'s `Ord` implementation: wall-clock
/// values are totally ordered, and comparing two of them never panics.
#[verifier::external_body]
pub(crate) fn std_system_cmp(a: &std::time::SystemTime, b: &std::time::SystemTime) -> (r:
    std::cmp::Ordering)
    ensures
        r == system_order(*a, *b),
{
    a.cmp(b)
}

/// The result of `std::time::SystemTime::duration_since`, made optional:
/// the time from `earlier` to `this`, or nothing when `earlier` is in fact
/// the later of the two (the wall clock is not monotonic, so this genuinely
/// happens).
pub uninterp spec fn system_since(
    this: std::time::SystemTime,
    earlier: std::time::SystemTime,
) -> Option<std::time::Duration>;

/// Relies on `std::time::SystemTime::duration_since`: returns the elapsed
/// time, or `None` (the error case, dropped to an option) when `earlier`
/// is later than `this`.
#[verifier::external_body]
pub(crate) fn std_system_since(
    this: &std::time::SystemTime,
    earlier: std::time::SystemTime,
) -> (r: Option<std::time::Duration>)
    ensures
        r == system_since(*this, earlier),
{
    this.duration_since(earlier).ok()
}

} // verus!
