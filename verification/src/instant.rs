//! A monotonic clock reading that may be absent, with checked arithmetic.

use vstd::prelude::*;

use crate::duration::{dur_of, lemma_dur_determined, repr_of_std, DurRepr, Duration};
use crate::std_time::{instant_checked_add, instant_checked_sub, instant_checked_since,
    instant_order, instant_sat_since, std_dur_from_parts, std_dur_new, std_instant_checked_add,
    std_instant_checked_sub, std_instant_checked_since, std_instant_cmp, std_instant_now,
    std_instant_sat_since};
use crate::utils::pair_and_then;

verus! {

/// A measurement of a monotonically nondecreasing clock, or the absence of
/// one. Opaque and useful only with `Duration`.
///
/// A present reading is never less than any previously measured reading.
/// Absence arises only from arithmetic that overflows the underlying
/// representation, never from reading the clock, and an absent operand
/// makes every result absent.
///
/// Two absent instants compare equal to each other; an absent instant is
/// unequal, and has no order, against any present instant.
#[derive(Clone, Copy, Debug, PartialEq, Eq, Hash)]
pub struct Instant {
    inner: Option<std::time::Instant>,
}

impl View for Instant {
    type V = Option<std::time::Instant>;

    closed spec fn view(&self) -> Option<std::time::Instant> {
        self.inner
    }
}

/// The instant whose optional payload is exactly `v`.
pub closed spec fn instant_of(v: Option<std::time::Instant>) -> Instant {
    Instant { inner: v }
}

/// The payload an instant carries is recovered by the view: `instant_of`
/// inverts it, so a caller may read any `instant_of(v)` in a contract as
/// the instant whose view is `v`.
pub broadcast proof fn lemma_instant_of(v: Option<std::time::Instant>)
    ensures
        (#[trigger] instant_of(v))@ == v,
{
}

/// The time from `earlier` to `this`, clamped to zero if `earlier` is the
/// later reading; absent if either operand is absent.
pub open spec fn spec_instant_since(
    this: Option<std::time::Instant>,
    earlier: Option<std::time::Instant>,
) -> Option<DurRepr> {
    match (this, earlier) {
        (Some(t), Some(e)) => Some(repr_of_std(instant_sat_since(t, e))),
        _ => None,
    }
}

/// The time from `earlier` to `this`, or absent if `earlier` is the later
/// reading or either operand is absent.
pub open spec fn spec_instant_checked_since(
    this: Option<std::time::Instant>,
    earlier: Option<std::time::Instant>,
) -> Option<DurRepr> {
    match (this, earlier) {
        (Some(t), Some(e)) => match instant_checked_since(t, e) {
            Some(d) => Some(repr_of_std(d)),
            None => None,
        },
        _ => None,
    }
}

/// The checked sum of an optional instant and an optional duration.
pub open spec fn spec_instant_add(i: Option<std::time::Instant>, d: Option<DurRepr>) -> Option<
    std::time::Instant,
> {
    match (i, d) {
        (Some(x), Some(rep)) => instant_checked_add(x, std_dur_from_parts(rep.secs, rep.nanos)),
        _ => None,
    }
}

/// The checked difference of an optional instant and an optional duration.
pub open spec fn spec_instant_sub(i: Option<std::time::Instant>, d: Option<DurRepr>) -> Option<
    std::time::Instant,
> {
    match (i, d) {
        (Some(x), Some(rep)) => instant_checked_sub(x, std_dur_from_parts(rep.secs, rep.nanos)),
        _ => None,
    }
}

/// The saturating time from the instant `e` to the instant `t`, read into
/// this crate's components.
fn sat_since_repr(t: std::time::Instant, e: std::time::Instant) -> (r: Option<DurRepr>)
    ensures
        r == Some(repr_of_std(instant_sat_since(t, e))),
        r matches Some(rep) ==> rep.nanos < 1_000_000_000,
{
    let d = std_instant_sat_since(&t, e);
    Some(crate::duration::repr_from_std(&d))
}

/// The checked sum of an instant and a duration given by its components.
fn checked_add_instant(i: std::time::Instant, rep: DurRepr) -> (r: Option<std::time::Instant>)
    requires
        rep.nanos < 1_000_000_000,
    ensures
        r == spec_instant_add(Some(i), Some(rep)),
{
    std_instant_checked_add(&i, std_dur_new(rep.secs, rep.nanos))
}

/// The checked difference of an instant and a duration given by its
/// components.
fn checked_sub_instant(i: std::time::Instant, rep: DurRepr) -> (r: Option<std::time::Instant>)
    requires
        rep.nanos < 1_000_000_000,
    ensures
        r == spec_instant_sub(Some(i), Some(rep)),
{
    std_instant_checked_sub(&i, std_dur_new(rep.secs, rep.nanos))
}

impl Instant {
    /// The absent instant.
    pub fn absent() -> (r: Self)
        ensures
            r@ is None,
    {
        Instant { inner: None }
    }

    /// Returns an instant corresponding to "now". Reading the clock always
    /// succeeds, so the result is always present.
    pub fn now() -> (r: Self)
        ensures
            r@ is Some,
    {
        Instant { inner: Some(std_instant_now()) }
    }

    /// Returns the amount of time elapsed from another instant to this one,
    /// clamped to zero if that instant is later than this one. This is the
    /// default policy of this crate for monotonic readings; the fallible
    /// alternative is [`checked_duration_since`](Self::checked_duration_since).
    pub fn duration_since(&self, earlier: Self) -> (r: Duration)
        ensures
            r@ == spec_instant_since(self@, earlier@),
    {
        Duration::from_repr(pair_and_then(self.inner, earlier.inner, sat_since_repr))
    }

    /// Returns the amount of time elapsed from another instant to this one,
    /// or the absent duration if that instant is later than this one. This
    /// is the fallible legacy policy; the clamping default is
    /// [`duration_since`](Self::duration_since).
    pub fn checked_duration_since(&self, earlier: Self) -> (r: Duration)
        ensures
            r@ == spec_instant_checked_since(self@, earlier@),
    {
        match (self.inner, earlier.inner) {
            (Some(t), Some(e)) => {
                match std_instant_checked_since(&t, e) {
                    Some(d) => Duration::from_repr(Some(crate::duration::repr_from_std(&d))),
                    None => Duration::absent(),
                }
            },
            _ => Duration::absent(),
        }
    }

    /// Returns the amount of time elapsed since this instant was created,
    /// clamped to zero if the clock reads earlier than this instant.
    pub fn elapsed(&self) -> (r: Duration)
        ensures
            r@ is Some <==> self@ is Some,
    {
        Instant::now().duration_since(*self)
    }

    /// Returns `true` if this `Instant` holds a value.
    pub fn is_some(&self) -> (r: bool)
        ensures
            r == (self@ is Some),
    {
        match &self.inner {
            Some(_) => true,
            None => false,
        }
    }

    /// Returns `true` if this `Instant` is absent.
    pub fn is_none(&self) -> (r: bool)
        ensures
            r == (self@ is None),
    {
        !self.is_some()
    }

    /// Returns the contained primitive instant, or `None`.
    pub fn into_inner(self) -> (r: Option<std::time::Instant>)
        ensures
            r == self@,
    {
        self.inner
    }

    /// Returns the contained primitive instant, or the given default if
    /// this `Instant` is absent.
    pub fn unwrap_or(self, default: std::time::Instant) -> (r: std::time::Instant)
        ensures
            self@ matches Some(i) ==> r == i,
            self@ is None ==> r == default,
    {
        match self.inner {
            Some(i) => i,
            None => default,
        }
    }

    /// Returns the contained primitive instant, or computes a default from
    /// the given closure if this `Instant` is absent.
    pub fn unwrap_or_else<F: FnOnce() -> std::time::Instant>(self, default: F) -> (r:
        std::time::Instant)
        requires
            self@ is None ==> call_requires(default, ()),
        ensures
            self@ matches Some(i) ==> r == i,
            self@ is None ==> call_ensures(default, (), r),
    {
        match self.inner {
            Some(i) => i,
            None => default(),
        }
    }
}

impl PartialOrd<Instant> for Instant {
    /// Two present instants order as the underlying clock readings do and
    /// two absent ones are equal, while an absent instant is incomparable
    /// to a present one.
    fn partial_cmp(&self, other: &Instant) -> (r: Option<std::cmp::Ordering>) {
        match (&self.inner, &other.inner) {
            (Some(a), Some(b)) => Some(std_instant_cmp(a, b)),
            (None, None) => Some(std::cmp::Ordering::Equal),
            _ => None,
        }
    }
}

impl vstd::std_specs::cmp::PartialOrdSpecImpl<Instant> for Instant {
    open spec fn obeys_partial_cmp_spec() -> bool {
        true
    }

    open spec fn partial_cmp_spec(&self, other: &Instant) -> Option<std::cmp::Ordering> {
        match (self@, other@) {
            (Some(a), Some(b)) => Some(instant_order(a, b)),
            (None, None) => Some(std::cmp::Ordering::Equal),
            _ => None,
        }
    }
}

impl From<std::time::Instant> for Instant {
    /// Wraps a primitive instant; the result is always present.
    fn from(instant: std::time::Instant) -> (r: Instant) {
        Instant { inner: Some(instant) }
    }
}

impl vstd::std_specs::convert::FromSpecImpl<std::time::Instant> for Instant {
    open spec fn obeys_from_spec() -> bool {
        true
    }

    open spec fn from_spec(instant: std::time::Instant) -> Instant {
        instant_of(Some(instant))
    }
}

impl From<Option<std::time::Instant>> for Instant {
    /// Wraps an optional primitive instant as it stands.
    fn from(instant: Option<std::time::Instant>) -> (r: Instant) {
        Instant { inner: instant }
    }
}

impl vstd::std_specs::convert::FromSpecImpl<Option<std::time::Instant>> for Instant {
    open spec fn obeys_from_spec() -> bool {
        true
    }

    open spec fn from_spec(instant: Option<std::time::Instant>) -> Instant {
        instant_of(instant)
    }
}

impl TryFrom<Instant> for std::time::Instant {
    type Error = crate::TryFromTimeError;

    /// Unwraps a present instant; fails with the conversion error if the
    /// instant is absent.
    fn try_from(instant: Instant) -> (r: Result<std::time::Instant, crate::TryFromTimeError>) {
        match instant.into_inner() {
            Some(i) => Ok(i),
            None => Err(crate::TryFromTimeError::new()),
        }
    }
}

impl vstd::std_specs::convert::TryFromSpecImpl<Instant> for std::time::Instant {
    open spec fn obeys_try_from_spec() -> bool {
        true
    }

    open spec fn try_from_spec(instant: Instant) -> Result<
        std::time::Instant,
        crate::TryFromTimeError,
    > {
        match instant@ {
            Some(i) => Ok(i),
            None => Err(crate::TryFromTimeError {  }),
        }
    }
}

impl std::ops::Add<Duration> for Instant {
    type Output = Instant;

    /// The checked sum: absent if either operand is absent or the sum
    /// cannot be represented by the underlying clock type.
    fn add(self, other: Duration) -> (r: Instant) {
        Instant { inner: pair_and_then(self.inner, other.repr(), checked_add_instant) }
    }
}

impl vstd::std_specs::ops::AddSpecImpl<Duration> for Instant {
    open spec fn obeys_add_spec() -> bool {
        true
    }

    open spec fn add_req(self, other: Duration) -> bool {
        true
    }

    open spec fn add_spec(self, other: Duration) -> Instant {
        instant_of(spec_instant_add(self@, other@))
    }
}

impl std::ops::Add<std::time::Duration> for Instant {
    type Output = Instant;

    /// The checked sum with a primitive duration.
    fn add(self, other: std::time::Duration) -> (r: Instant) {
        match self.inner {
            Some(i) => Instant { inner: std_instant_checked_add(&i, other) },
            None => Instant { inner: None },
        }
    }
}

impl vstd::std_specs::ops::AddSpecImpl<std::time::Duration> for Instant {
    open spec fn obeys_add_spec() -> bool {
        true
    }

    open spec fn add_req(self, other: std::time::Duration) -> bool {
        true
    }

    open spec fn add_spec(self, other: std::time::Duration) -> Instant {
        instant_of(
            match self@ {
                Some(i) => instant_checked_add(i, other),
                None => None,
            },
        )
    }
}

impl std::ops::AddAssign<Duration> for Instant {
    /// Replaces `self` with the checked sum `self + other`.
    fn add_assign(&mut self, other: Duration)
        ensures
            final(self)@ == spec_instant_add(old(self)@, other@),
    {
        *self = *self + other;
    }
}

impl std::ops::AddAssign<std::time::Duration> for Instant {
    /// Replaces `self` with the checked sum `self + other`.
    fn add_assign(&mut self, other: std::time::Duration)
        ensures
            final(self)@ == (match old(self)@ {
                Some(i) => instant_checked_add(i, other),
                None => None,
            }),
    {
        *self = *self + other;
    }
}

impl std::ops::Sub<Duration> for Instant {
    type Output = Instant;

    /// The checked difference: absent if either operand is absent or the
    /// difference cannot be represented by the underlying clock type.
    fn sub(self, other: Duration) -> (r: Instant) {
        Instant { inner: pair_and_then(self.inner, other.repr(), checked_sub_instant) }
    }
}

impl vstd::std_specs::ops::SubSpecImpl<Duration> for Instant {
    open spec fn obeys_sub_spec() -> bool {
        true
    }

    open spec fn sub_req(self, other: Duration) -> bool {
        true
    }

    open spec fn sub_spec(self, other: Duration) -> Instant {
        instant_of(spec_instant_sub(self@, other@))
    }
}

impl std::ops::Sub<std::time::Duration> for Instant {
    type Output = Instant;

    /// The checked difference with a primitive duration.
    fn sub(self, other: std::time::Duration) -> (r: Instant) {
        match self.inner {
            Some(i) => Instant { inner: std_instant_checked_sub(&i, other) },
            None => Instant { inner: None },
        }
    }
}

impl vstd::std_specs::ops::SubSpecImpl<std::time::Duration> for Instant {
    open spec fn obeys_sub_spec() -> bool {
        true
    }

    open spec fn sub_req(self, other: std::time::Duration) -> bool {
        true
    }

    open spec fn sub_spec(self, other: std::time::Duration) -> Instant {
        instant_of(
            match self@ {
                Some(i) => instant_checked_sub(i, other),
                None => None,
            },
        )
    }
}

impl std::ops::SubAssign<Duration> for Instant {
    /// Replaces `self` with the checked difference `self - other`.
    fn sub_assign(&mut self, other: Duration)
        ensures
            final(self)@ == spec_instant_sub(old(self)@, other@),
    {
        *self = *self - other;
    }
}

impl std::ops::SubAssign<std::time::Duration> for Instant {
    /// Replaces `self` with the checked difference `self - other`.
    fn sub_assign(&mut self, other: std::time::Duration)
        ensures
            final(self)@ == (match old(self)@ {
                Some(i) => instant_checked_sub(i, other),
                None => None,
            }),
    {
        *self = *self - other;
    }
}

impl std::ops::Sub<Instant> for Instant {
    type Output = Duration;

    /// The time from `other` to `self`, by the clamping policy of
    /// [`Instant::duration_since`].
    fn sub(self, other: Instant) -> (r: Duration) {
        let d = self.duration_since(other);
        proof {
            lemma_dur_determined(d);
        }
        d
    }
}

impl vstd::std_specs::ops::SubSpecImpl<Instant> for Instant {
    open spec fn obeys_sub_spec() -> bool {
        true
    }

    open spec fn sub_req(self, other: Instant) -> bool {
        true
    }

    open spec fn sub_spec(self, other: Instant) -> Duration {
        dur_of(spec_instant_since(self@, other@))
    }
}

impl std::ops::Sub<std::time::Instant> for Instant {
    type Output = Duration;

    /// The time from the primitive instant `other` to `self`, by the
    /// clamping policy of [`Instant::duration_since`].
    fn sub(self, other: std::time::Instant) -> (r: Duration) {
        let d = self.duration_since(Instant::from(other));
        proof {
            lemma_dur_determined(d);
        }
        d
    }
}

impl vstd::std_specs::ops::SubSpecImpl<std::time::Instant> for Instant {
    open spec fn obeys_sub_spec() -> bool {
        true
    }

    open spec fn sub_req(self, other: std::time::Instant) -> bool {
        true
    }

    open spec fn sub_spec(self, other: std::time::Instant) -> Duration {
        dur_of(spec_instant_since(self@, Some(other)))
    }
}

/// An absent operand anywhere yields an absent result: absence is an
/// absorbing element of every checked instant operation.
pub proof fn lemma_absent_absorbs_instant(
    i: Option<std::time::Instant>,
    j: Option<std::time::Instant>,
    d: Option<DurRepr>,
)
    requires
        i is None,
    ensures
        spec_instant_add(i, d) is None,
        spec_instant_sub(i, d) is None,
        spec_instant_since(i, j) is None,
        spec_instant_since(j, i) is None,
        spec_instant_checked_since(i, j) is None,
        spec_instant_checked_since(j, i) is None,
        spec_instant_add(j, None) is None,
        spec_instant_sub(j, None) is None,
{
}

/// Wrapping the primitive reading of a present instant yields the instant
/// back: the round trip through the primitive type is the identity.
pub proof fn lemma_instant_round_trip(i: Instant)
    requires
        i@ is Some,
    ensures
        instant_of(Some(i@->Some_0)) == i,
{
}

} // verus!
