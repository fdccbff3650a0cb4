//! A wall-clock reading that may be absent, with checked arithmetic.

use vstd::prelude::*;

use crate::duration::{dur_of, lemma_dur_determined, repr_of_std, DurRepr, Duration};
use crate::std_time::{std_dur_new, std_system_checked_add, std_system_checked_sub,
    std_system_cmp, std_system_now, std_system_since, std_unix_epoch, std_dur_from_parts,
    system_checked_add, system_checked_sub, system_order, system_since};
use crate::utils::pair_and_then;

verus! {

/// A measurement of the system clock, or the absence of one.
///
/// Unlike a monotonic instant, a wall-clock measurement is **not
/// monotonic**: the clock may be adjusted forwards or backwards between two
/// readings. Asking for the time elapsed from a later reading therefore
/// yields the absent duration rather than clamping. Absence also arises
/// from arithmetic that overflows the underlying representation, and an
/// absent operand makes every result absent.
///
/// Two absent values compare equal to each other; an absent value is
/// unequal, and has no order, against any present value.
#[derive(Clone, Copy, Debug, PartialEq, Eq, Hash)]
pub struct SystemTime {
    inner: Option<std::time::SystemTime>,
}

impl View for SystemTime {
    type V = Option<std::time::SystemTime>;

    closed spec fn view(&self) -> Option<std::time::SystemTime> {
        self.inner
    }
}

/// The wall-clock value whose optional payload is exactly `v`.
pub closed spec fn system_time_of(v: Option<std::time::SystemTime>) -> SystemTime {
    SystemTime { inner: v }
}

/// The payload a wall-clock value carries is recovered by the view:
/// `system_time_of` inverts it, so a caller may read any
/// `system_time_of(v)` in a contract as the wall-clock value whose view
/// is `v`.
pub broadcast proof fn lemma_system_time_of(v: Option<std::time::SystemTime>)
    ensures
        (#[trigger] system_time_of(v))@ == v,
{
}

/// The time from `earlier` to `this`, or absent if the wall clock read
/// `earlier` as the later of the two, or if either operand is absent.
pub open spec fn spec_system_since(
    this: Option<std::time::SystemTime>,
    earlier: Option<std::time::SystemTime>,
) -> Option<DurRepr> {
    match (this, earlier) {
        (Some(t), Some(e)) => match system_since(t, e) {
            Some(d) => Some(repr_of_std(d)),
            None => None,
        },
        _ => None,
    }
}

/// The checked sum of an optional wall-clock value and an optional
/// duration.
pub open spec fn spec_system_add(t: Option<std::time::SystemTime>, d: Option<DurRepr>) -> Option<
    std::time::SystemTime,
> {
    match (t, d) {
        (Some(x), Some(rep)) => system_checked_add(x, std_dur_from_parts(rep.secs, rep.nanos)),
        _ => None,
    }
}

/// The checked difference of an optional wall-clock value and an optional
/// duration.
pub open spec fn spec_system_sub(t: Option<std::time::SystemTime>, d: Option<DurRepr>) -> Option<
    std::time::SystemTime,
> {
    match (t, d) {
        (Some(x), Some(rep)) => system_checked_sub(x, std_dur_from_parts(rep.secs, rep.nanos)),
        _ => None,
    }
}

/// The fallible time from the wall-clock reading `e` to the reading `t`,
/// read into this crate's components.
fn since_repr(t: std::time::SystemTime, e: std::time::SystemTime) -> (r: Option<DurRepr>)
    ensures
        r == (match system_since(t, e) {
            Some(d) => Some(repr_of_std(d)),
            None => None::<DurRepr>,
        }),
        r matches Some(rep) ==> rep.nanos < 1_000_000_000,
{
    match std_system_since(&t, e) {
        Some(d) => Some(crate::duration::repr_from_std(&d)),
        None => None,
    }
}

/// The checked sum of a wall-clock value and a duration given by its
/// components.
fn checked_add_system(t: std::time::SystemTime, rep: DurRepr) -> (r: Option<std::time::SystemTime>)
    requires
        rep.nanos < 1_000_000_000,
    ensures
        r == spec_system_add(Some(t), Some(rep)),
{
    std_system_checked_add(&t, std_dur_new(rep.secs, rep.nanos))
}

/// The checked difference of a wall-clock value and a duration given by
/// its components.
fn checked_sub_system(t: std::time::SystemTime, rep: DurRepr) -> (r: Option<std::time::SystemTime>)
    requires
        rep.nanos < 1_000_000_000,
    ensures
        r == spec_system_sub(Some(t), Some(rep)),
{
    std_system_checked_sub(&t, std_dur_new(rep.secs, rep.nanos))
}

impl SystemTime {
    /// The absent wall-clock value.
    pub fn absent() -> (r: Self)
        ensures
            r@ is None,
    {
        SystemTime { inner: None }
    }

    /// An anchor in time: "1970-01-01 00:00:00 UTC" with respect to the
    /// system clock. Always present. Adding a duration to it constructs a
    /// wall-clock value for another fixed point in time, and
    /// `duration_since` against it reads a value back as a time since the
    /// epoch.
    pub fn unix_epoch() -> (r: Self)
        ensures
            r@ is Some,
    {
        SystemTime { inner: Some(std_unix_epoch()) }
    }

    /// Returns the wall-clock time corresponding to "now". Reading the
    /// clock always succeeds, so the result is always present.
    pub fn now() -> (r: Self)
        ensures
            r@ is Some,
    {
        SystemTime { inner: Some(std_system_now()) }
    }

    /// Returns the amount of time elapsed from an earlier point in time, or
    /// the absent duration if `earlier` is in fact the later reading (the
    /// system clock may have been adjusted between the two measurements).
    pub fn duration_since(&self, earlier: Self) -> (r: Duration)
        ensures
            r@ == spec_system_since(self@, earlier@),
    {
        Duration::from_repr(pair_and_then(self.inner, earlier.inner, since_repr))
    }

    /// Returns the amount of time elapsed since this wall-clock value was
    /// created, or the absent duration if the clock has since been adjusted
    /// to read earlier than this value.
    pub fn elapsed(&self) -> (r: Duration)
        ensures
            self@ is None ==> r@ is None,
    {
        SystemTime::now().duration_since(*self)
    }

    /// Returns `true` if this `SystemTime` holds a value.
    pub fn is_some(&self) -> (r: bool)
        ensures
            r == (self@ is Some),
    {
        match &self.inner {
            Some(_) => true,
            None => false,
        }
    }

    /// Returns `true` if this `SystemTime` is absent.
    pub fn is_none(&self) -> (r: bool)
        ensures
            r == (self@ is None),
    {
        !self.is_some()
    }

    /// Returns the contained primitive wall-clock value, or `None`.
    pub fn into_inner(self) -> (r: Option<std::time::SystemTime>)
        ensures
            r == self@,
    {
        self.inner
    }

    /// Returns the contained primitive wall-clock value, or the given
    /// default if this `SystemTime` is absent.
    pub fn unwrap_or(self, default: std::time::SystemTime) -> (r: std::time::SystemTime)
        ensures
            self@ matches Some(t) ==> r == t,
            self@ is None ==> r == default,
    {
        match self.inner {
            Some(t) => t,
            None => default,
        }
    }

    /// Returns the contained primitive wall-clock value, or computes a
    /// default from the given closure if this `SystemTime` is absent.
    pub fn unwrap_or_else<F: FnOnce() -> std::time::SystemTime>(self, default: F) -> (r:
        std::time::SystemTime)
        requires
            self@ is None ==> call_requires(default, ()),
        ensures
            self@ matches Some(t) ==> r == t,
            self@ is None ==> call_ensures(default, (), r),
    {
        match self.inner {
            Some(t) => t,
            None => default(),
        }
    }
}

impl PartialOrd<SystemTime> for SystemTime {
    /// Two present values order as the underlying wall-clock readings do
    /// and two absent ones are equal, while an absent value is incomparable
    /// to a present one.
    fn partial_cmp(&self, other: &SystemTime) -> (r: Option<std::cmp::Ordering>) {
        match (&self.inner, &other.inner) {
            (Some(a), Some(b)) => Some(std_system_cmp(a, b)),
            (None, None) => Some(std::cmp::Ordering::Equal),
            _ => None,
        }
    }
}

impl vstd::std_specs::cmp::PartialOrdSpecImpl<SystemTime> for SystemTime {
    open spec fn obeys_partial_cmp_spec() -> bool {
        true
    }

    open spec fn partial_cmp_spec(&self, other: &SystemTime) -> Option<std::cmp::Ordering> {
        match (self@, other@) {
            (Some(a), Some(b)) => Some(system_order(a, b)),
            (None, None) => Some(std::cmp::Ordering::Equal),
            _ => None,
        }
    }
}

impl From<std::time::SystemTime> for SystemTime {
    /// Wraps a primitive wall-clock value; the result is always present.
    fn from(system_time: std::time::SystemTime) -> (r: SystemTime) {
        SystemTime { inner: Some(system_time) }
    }
}

impl vstd::std_specs::convert::FromSpecImpl<std::time::SystemTime> for SystemTime {
    open spec fn obeys_from_spec() -> bool {
        true
    }

    open spec fn from_spec(system_time: std::time::SystemTime) -> SystemTime {
        system_time_of(Some(system_time))
    }
}

impl From<Option<std::time::SystemTime>> for SystemTime {
    /// Wraps an optional primitive wall-clock value as it stands.
    fn from(system_time: Option<std::time::SystemTime>) -> (r: SystemTime) {
        SystemTime { inner: system_time }
    }
}

impl vstd::std_specs::convert::FromSpecImpl<Option<std::time::SystemTime>> for SystemTime {
    open spec fn obeys_from_spec() -> bool {
        true
    }

    open spec fn from_spec(system_time: Option<std::time::SystemTime>) -> SystemTime {
        system_time_of(system_time)
    }
}

impl TryFrom<SystemTime> for std::time::SystemTime {
    type Error = crate::TryFromTimeError;

    /// Unwraps a present wall-clock value; fails with the conversion error
    /// if the value is absent.
    fn try_from(system_time: SystemTime) -> (r: Result<
        std::time::SystemTime,
        crate::TryFromTimeError,
    >) {
        match system_time.into_inner() {
            Some(t) => Ok(t),
            None => Err(crate::TryFromTimeError::new()),
        }
    }
}

impl vstd::std_specs::convert::TryFromSpecImpl<SystemTime> for std::time::SystemTime {
    open spec fn obeys_try_from_spec() -> bool {
        true
    }

    open spec fn try_from_spec(system_time: SystemTime) -> Result<
        std::time::SystemTime,
        crate::TryFromTimeError,
    > {
        match system_time@ {
            Some(t) => Ok(t),
            None => Err(crate::TryFromTimeError {  }),
        }
    }
}

impl std::ops::Add<Duration> for SystemTime {
    type Output = SystemTime;

    /// The checked sum: absent if either operand is absent or the sum
    /// cannot be represented by the underlying clock type.
    fn add(self, other: Duration) -> (r: SystemTime) {
        SystemTime { inner: pair_and_then(self.inner, other.repr(), checked_add_system) }
    }
}

impl vstd::std_specs::ops::AddSpecImpl<Duration> for SystemTime {
    open spec fn obeys_add_spec() -> bool {
        true
    }

    open spec fn add_req(self, other: Duration) -> bool {
        true
    }

    open spec fn add_spec(self, other: Duration) -> SystemTime {
        system_time_of(spec_system_add(self@, other@))
    }
}

impl std::ops::Add<std::time::Duration> for SystemTime {
    type Output = SystemTime;

    /// The checked sum with a primitive duration.
    fn add(self, other: std::time::Duration) -> (r: SystemTime) {
        match self.inner {
            Some(t) => SystemTime { inner: std_system_checked_add(&t, other) },
            None => SystemTime { inner: None },
        }
    }
}

impl vstd::std_specs::ops::AddSpecImpl<std::time::Duration> for SystemTime {
    open spec fn obeys_add_spec() -> bool {
        true
    }

    open spec fn add_req(self, other: std::time::Duration) -> bool {
        true
    }

    open spec fn add_spec(self, other: std::time::Duration) -> SystemTime {
        system_time_of(
            match self@ {
                Some(t) => system_checked_add(t, other),
                None => None,
            },
        )
    }
}

impl std::ops::AddAssign<Duration> for SystemTime {
    /// Replaces `self` with the checked sum `self + other`.
    fn add_assign(&mut self, other: Duration)
        ensures
            final(self)@ == spec_system_add(old(self)@, other@),
    {
        *self = *self + other;
    }
}

impl std::ops::AddAssign<std::time::Duration> for SystemTime {
    /// Replaces `self` with the checked sum `self + other`.
    fn add_assign(&mut self, other: std::time::Duration)
        ensures
            final(self)@ == (match old(self)@ {
                Some(t) => system_checked_add(t, other),
                None => None,
            }),
    {
        *self = *self + other;
    }
}

impl std::ops::Sub<Duration> for SystemTime {
    type Output = SystemTime;

    /// The checked difference: absent if either operand is absent or the
    /// difference cannot be represented by the underlying clock type.
    fn sub(self, other: Duration) -> (r: SystemTime) {
        SystemTime { inner: pair_and_then(self.inner, other.repr(), checked_sub_system) }
    }
}

impl vstd::std_specs::ops::SubSpecImpl<Duration> for SystemTime {
    open spec fn obeys_sub_spec() -> bool {
        true
    }

    open spec fn sub_req(self, other: Duration) -> bool {
        true
    }

    open spec fn sub_spec(self, other: Duration) -> SystemTime {
        system_time_of(spec_system_sub(self@, other@))
    }
}

impl std::ops::Sub<std::time::Duration> for SystemTime {
    type Output = SystemTime;

    /// The checked difference with a primitive duration.
    fn sub(self, other: std::time::Duration) -> (r: SystemTime) {
        match self.inner {
            Some(t) => SystemTime { inner: std_system_checked_sub(&t, other) },
            None => SystemTime { inner: None },
        }
    }
}

impl vstd::std_specs::ops::SubSpecImpl<std::time::Duration> for SystemTime {
    open spec fn obeys_sub_spec() -> bool {
        true
    }

    open spec fn sub_req(self, other: std::time::Duration) -> bool {
        true
    }

    open spec fn sub_spec(self, other: std::time::Duration) -> SystemTime {
        system_time_of(
            match self@ {
                Some(t) => system_checked_sub(t, other),
                None => None,
            },
        )
    }
}

impl std::ops::SubAssign<Duration> for SystemTime {
    /// Replaces `self` with the checked difference `self - other`.
    fn sub_assign(&mut self, other: Duration)
        ensures
            final(self)@ == spec_system_sub(old(self)@, other@),
    {
        *self = *self - other;
    }
}

impl std::ops::SubAssign<std::time::Duration> for SystemTime {
    /// Replaces `self` with the checked difference `self - other`.
    fn sub_assign(&mut self, other: std::time::Duration)
        ensures
            final(self)@ == (match old(self)@ {
                Some(t) => system_checked_sub(t, other),
                None => None,
            }),
    {
        *self = *self - other;
    }
}

impl std::ops::Sub<SystemTime> for SystemTime {
    type Output = Duration;

    /// The fallible time from `other` to `self`, as
    /// [`SystemTime::duration_since`] reports it.
    fn sub(self, other: SystemTime) -> (r: Duration) {
        let d = self.duration_since(other);
        proof {
            lemma_dur_determined(d);
        }
        d
    }
}

impl vstd::std_specs::ops::SubSpecImpl<SystemTime> for SystemTime {
    open spec fn obeys_sub_spec() -> bool {
        true
    }

    open spec fn sub_req(self, other: SystemTime) -> bool {
        true
    }

    open spec fn sub_spec(self, other: SystemTime) -> Duration {
        dur_of(spec_system_since(self@, other@))
    }
}

impl std::ops::Sub<std::time::SystemTime> for SystemTime {
    type Output = Duration;

    /// The fallible time from the primitive wall-clock value `other` to
    /// `self`, as [`SystemTime::duration_since`] reports it.
    fn sub(self, other: std::time::SystemTime) -> (r: Duration) {
        let d = self.duration_since(SystemTime::from(other));
        proof {
            lemma_dur_determined(d);
        }
        d
    }
}

impl vstd::std_specs::ops::SubSpecImpl<std::time::SystemTime> for SystemTime {
    open spec fn obeys_sub_spec() -> bool {
        true
    }

    open spec fn sub_req(self, other: std::time::SystemTime) -> bool {
        true
    }

    open spec fn sub_spec(self, other: std::time::SystemTime) -> Duration {
        dur_of(spec_system_since(self@, Some(other)))
    }
}

/// An absent operand anywhere yields an absent result: absence is an
/// absorbing element of every checked wall-clock operation.
pub proof fn lemma_absent_absorbs_system(
    t: Option<std::time::SystemTime>,
    u: Option<std::time::SystemTime>,
    d: Option<DurRepr>,
)
    requires
        t is None,
    ensures
        spec_system_add(t, d) is None,
        spec_system_sub(t, d) is None,
        spec_system_since(t, u) is None,
        spec_system_since(u, t) is None,
        spec_system_add(u, None) is None,
        spec_system_sub(u, None) is None,
{
}

/// Wrapping the primitive reading of a present wall-clock value yields the
/// value back: the round trip through the primitive type is the identity.
pub proof fn lemma_system_time_round_trip(t: SystemTime)
    requires
        t@ is Some,
    ensures
        system_time_of(Some(t@->Some_0)) == t,
{
}

} // verus!
