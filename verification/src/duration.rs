//! A span of time that may be absent, with checked arithmetic.

use vstd::prelude::*;

use vstd::arithmetic::div_mod::{lemma_div_is_ordered, lemma_div_nonincreasing,
    lemma_fundamental_div_mod, lemma_fundamental_div_mod_converse};
use vstd::arithmetic::mul::lemma_mul_upper_bound;

use vstd::std_specs::cmp::{PartialEqSpec, PartialOrdSpec};

use crate::std_time::{std_dur_from_parts, std_dur_new, std_dur_secs, std_dur_subsec_nanos,
    std_secs, std_subsec_nanos};

verus! {

/// The whole-second and subsecond-nanosecond components of a present
/// duration value. In every present `Duration` the nanosecond component
/// stays below one billion.
#[derive(Clone, Copy, Debug, PartialEq, Eq, PartialOrd, Ord, Hash, Structural)]
pub struct DurRepr {
    /// Whole seconds.
    pub secs: u64,
    /// Subsecond nanoseconds.
    pub nanos: u32,
}

/// The length of a present duration in nanoseconds.
pub open spec fn dur_total(r: DurRepr) -> int {
    r.secs * 1_000_000_000 + r.nanos
}

/// The largest nanosecond count a duration can hold.
pub open spec fn max_total() -> int {
    0xFFFF_FFFF_FFFF_FFFFu64 * 1_000_000_000 + 999_999_999
}

/// The second/nanosecond decomposition of a nanosecond count.
pub open spec fn repr_of_total(t: int) -> DurRepr {
    DurRepr { secs: (t / 1_000_000_000) as u64, nanos: (t % 1_000_000_000) as u32 }
}

/// The checked sum of two optional durations: present only if both operands
/// are and the total stays representable.
pub open spec fn spec_checked_add(a: Option<DurRepr>, b: Option<DurRepr>) -> Option<DurRepr> {
    match (a, b) {
        (Some(x), Some(y)) => {
            let t = dur_total(x) + dur_total(y);
            if t <= max_total() {
                Some(repr_of_total(t))
            } else {
                None
            }
        },
        _ => None,
    }
}

/// The checked difference of two optional durations: present only if both
/// operands are and the first is at least as long as the second.
pub open spec fn spec_checked_sub(a: Option<DurRepr>, b: Option<DurRepr>) -> Option<DurRepr> {
    match (a, b) {
        (Some(x), Some(y)) => {
            if dur_total(x) >= dur_total(y) {
                Some(repr_of_total(dur_total(x) - dur_total(y)))
            } else {
                None
            }
        },
        _ => None,
    }
}

/// The checked product of an optional duration and an unsigned scalar:
/// present only if the operand is and the total stays representable.
pub open spec fn spec_checked_mul(a: Option<DurRepr>, rhs: u32) -> Option<DurRepr> {
    match a {
        Some(x) => {
            let t = dur_total(x) * rhs;
            if t <= max_total() {
                Some(repr_of_total(t))
            } else {
                None
            }
        },
        None => None,
    }
}

/// The checked quotient of an optional duration by an unsigned scalar:
/// absent when the divisor is zero, otherwise the total nanosecond count
/// divided by the scalar, rounding down.
pub open spec fn spec_checked_div(a: Option<DurRepr>, rhs: u32) -> Option<DurRepr> {
    match a {
        Some(x) => {
            if rhs == 0 {
                None
            } else {
                Some(repr_of_total(dur_total(x) / rhs as int))
            }
        },
        None => None,
    }
}

/// The duration whose optional payload is exactly `v`.
pub closed spec fn dur_of(v: Option<DurRepr>) -> Duration {
    Duration { inner: v }
}

/// The payload a duration carries is recovered by the view: `dur_of`
/// inverts it, so a caller may read any `dur_of(v)` in a contract as the
/// duration whose view is `v`.
pub broadcast proof fn lemma_dur_of(v: Option<DurRepr>)
    ensures
        (#[trigger] dur_of(v))@ == v,
{
}

/// A duration is determined by its optional payload: `dur_of` inverts the
/// view.
pub proof fn lemma_dur_determined(d: Duration)
    ensures
        dur_of(d@) == d,
{
}

/// Splitting a nanosecond total `t` into whole seconds and a nanosecond
/// remainder below one billion is unambiguous.
pub(crate) proof fn lemma_repr_of(t: int, secs: u64, nanos: u32)
    requires
        nanos < 1_000_000_000,
        t == secs * 1_000_000_000 + nanos,
    ensures
        repr_of_total(t) == (DurRepr { secs, nanos }),
        0 <= t <= max_total(),
{
    lemma_fundamental_div_mod_converse(t, 1_000_000_000, secs as int, nanos as int);
}

/// A `Duration` type to represent a span of time, or the absence of one.
///
/// A present value is composed of a whole number of seconds and a fractional
/// part represented in nanoseconds. Arithmetic that would overflow or
/// underflow produces the absent value instead of panicking, and an absent
/// operand makes every result absent.
///
/// Two absent durations compare equal to each other; an absent duration is
/// unequal, and has no order, against any present duration or primitive
/// value.
#[derive(Clone, Copy, Debug, PartialEq, Eq, Hash, Structural)]
pub struct Duration {
    inner: Option<DurRepr>,
}

impl View for Duration {
    type V = Option<DurRepr>;

    closed spec fn view(&self) -> Option<DurRepr> {
        self.inner
    }
}

impl Duration {
    #[verifier::type_invariant]
    spec fn type_inv(self) -> bool {
        self.inner matches Some(r) ==> r.nanos < 1_000_000_000
    }

    /// The absent duration.
    pub fn absent() -> (r: Self)
        ensures
            r@ is None,
    {
        Duration { inner: None }
    }

    /// A duration of zero time.
    pub fn zero() -> (r: Self)
        ensures
            r@ == Some(DurRepr { secs: 0, nanos: 0 }),
    {
        Duration { inner: Some(DurRepr { secs: 0, nanos: 0 }) }
    }

    /// The maximum representable duration.
    pub fn max() -> (r: Self)
        ensures
            r@ == Some(DurRepr { secs: u64::MAX, nanos: 999_999_999 }),
            dur_total(r@->Some_0) == max_total(),
    {
        Duration { inner: Some(DurRepr { secs: u64::MAX, nanos: 999_999_999 }) }
    }

    /// Creates a new `Duration` from the specified number of whole seconds
    /// and additional nanoseconds, carrying surplus nanoseconds into the
    /// seconds. If the carry overflows the maximum representable duration,
    /// the result is absent.
    pub fn new(secs: u64, nanos: u32) -> (r: Self)
        ensures
            secs * 1_000_000_000 + nanos <= max_total() ==> r@ == Some(
                repr_of_total(secs * 1_000_000_000 + nanos),
            ),
            secs * 1_000_000_000 + nanos > max_total() ==> r@ is None,
    {
        if nanos < 1_000_000_000 {
            Duration { inner: Some(DurRepr { secs, nanos }) }
        } else {
            let extra = (nanos / 1_000_000_000) as u64;
            let n = nanos % 1_000_000_000;
            if secs <= u64::MAX - extra {
                proof {
                    lemma_fundamental_div_mod(nanos as int, 1_000_000_000);
                    lemma_repr_of(secs * 1_000_000_000 + nanos, (secs + extra) as u64, n);
                }
                Duration { inner: Some(DurRepr { secs: secs + extra, nanos: n }) }
            } else {
                Duration { inner: None }
            }
        }
    }

    /// Creates a new present `Duration` from the specified number of whole
    /// seconds.
    pub fn from_secs(secs: u64) -> (r: Self)
        ensures
            r@ == Some(DurRepr { secs, nanos: 0 }),
    {
        Duration { inner: Some(DurRepr { secs, nanos: 0 }) }
    }

    /// Creates a new present `Duration` from the specified number of
    /// milliseconds.
    pub fn from_millis(millis: u64) -> (r: Self)
        ensures
            r@ == Some(repr_of_total(millis * 1_000_000)),
    {
        let secs = millis / 1000;
        let nanos = ((millis % 1000) as u32) * 1_000_000;
        proof {
            lemma_fundamental_div_mod(millis as int, 1000);
            lemma_repr_of(millis * 1_000_000, secs, nanos);
        }
        Duration { inner: Some(DurRepr { secs, nanos }) }
    }

    /// Creates a new present `Duration` from the specified number of
    /// microseconds.
    pub fn from_micros(micros: u64) -> (r: Self)
        ensures
            r@ == Some(repr_of_total(micros * 1000)),
    {
        let secs = micros / 1_000_000;
        let nanos = ((micros % 1_000_000) as u32) * 1000;
        proof {
            lemma_fundamental_div_mod(micros as int, 1_000_000);
            lemma_repr_of(micros * 1000, secs, nanos);
        }
        Duration { inner: Some(DurRepr { secs, nanos }) }
    }

    /// Creates a new present `Duration` from the specified number of
    /// nanoseconds.
    pub fn from_nanos(nanos: u64) -> (r: Self)
        ensures
            r@ == Some(repr_of_total(nanos as int)),
    {
        let secs = nanos / 1_000_000_000;
        let n = (nanos % 1_000_000_000) as u32;
        proof {
            lemma_fundamental_div_mod(nanos as int, 1_000_000_000);
            lemma_repr_of(nanos as int, secs, n);
        }
        Duration { inner: Some(DurRepr { secs, nanos: n }) }
    }

    /// Returns `true` if this `Duration` is present and spans no time.
    pub fn is_zero(&self) -> (r: bool)
        ensures
            r == (self@ matches Some(rep) && dur_total(rep) == 0),
    {
        match &self.inner {
            Some(rep) => rep.secs == 0 && rep.nanos == 0,
            None => false,
        }
    }

    /// Returns the number of whole seconds, or `None` if this `Duration`
    /// is absent.
    pub fn as_secs(&self) -> (r: Option<u64>)
        ensures
            r == match self@ { Some(rep) => Some(rep.secs), None => None },
    {
        match &self.inner {
            Some(rep) => Some(rep.secs),
            None => None,
        }
    }

    /// Returns the fractional part in whole milliseconds (always below one
    /// thousand), or `None` if this `Duration` is absent.
    pub fn subsec_millis(&self) -> (r: Option<u32>)
        ensures
            r == match self@ { Some(rep) => Some((rep.nanos / 1_000_000) as u32), None => None },
    {
        match &self.inner {
            Some(rep) => Some(rep.nanos / 1_000_000),
            None => None,
        }
    }

    /// Returns the fractional part in whole microseconds (always below one
    /// million), or `None` if this `Duration` is absent.
    pub fn subsec_micros(&self) -> (r: Option<u32>)
        ensures
            r == match self@ { Some(rep) => Some((rep.nanos / 1000) as u32), None => None },
    {
        match &self.inner {
            Some(rep) => Some(rep.nanos / 1000),
            None => None,
        }
    }

    /// Returns the fractional part in nanoseconds (always below one
    /// billion), or `None` if this `Duration` is absent.
    pub fn subsec_nanos(&self) -> (r: Option<u32>)
        ensures
            r == match self@ { Some(rep) => Some(rep.nanos), None => None },
    {
        match &self.inner {
            Some(rep) => Some(rep.nanos),
            None => None,
        }
    }

    /// Returns the total number of whole milliseconds, or `None` if this
    /// `Duration` is absent.
    pub fn as_millis(&self) -> (r: Option<u128>)
        ensures
            r == match self@ { Some(rep) => Some((dur_total(rep) / 1_000_000) as u128), None => None },
    {
        proof {
            use_type_invariant(self);
        }
        match &self.inner {
            Some(rep) => {
                let q = rep.secs as u128 * 1000 + (rep.nanos / 1_000_000) as u128;
                proof {
                    lemma_fundamental_div_mod(rep.nanos as int, 1_000_000);
                    lemma_fundamental_div_mod_converse(
                        dur_total(*rep),
                        1_000_000,
                        q as int,
                        rep.nanos as int % 1_000_000,
                    );
                }
                Some(q)
            },
            None => None,
        }
    }

    /// Returns the total number of whole microseconds, or `None` if this
    /// `Duration` is absent.
    pub fn as_micros(&self) -> (r: Option<u128>)
        ensures
            r == match self@ { Some(rep) => Some((dur_total(rep) / 1000) as u128), None => None },
    {
        proof {
            use_type_invariant(self);
        }
        match &self.inner {
            Some(rep) => {
                let q = rep.secs as u128 * 1_000_000 + (rep.nanos / 1000) as u128;
                proof {
                    lemma_fundamental_div_mod(rep.nanos as int, 1000);
                    lemma_fundamental_div_mod_converse(
                        dur_total(*rep),
                        1000,
                        q as int,
                        rep.nanos as int % 1000,
                    );
                }
                Some(q)
            },
            None => None,
        }
    }

    /// Returns the total number of nanoseconds, or `None` if this
    /// `Duration` is absent.
    pub fn as_nanos(&self) -> (r: Option<u128>)
        ensures
            r == match self@ { Some(rep) => Some(dur_total(rep) as u128), None => None },
    {
        proof {
            use_type_invariant(self);
        }
        match &self.inner {
            Some(rep) => Some(rep.secs as u128 * 1_000_000_000 + rep.nanos as u128),
            None => None,
        }
    }

    /// Returns `true` if this `Duration` holds a value.
    pub fn is_some(&self) -> (r: bool)
        ensures
            r == (self@ is Some),
    {
        match &self.inner {
            Some(_) => true,
            None => false,
        }
    }

    /// Returns `true` if this `Duration` is absent.
    pub fn is_none(&self) -> (r: bool)
        ensures
            r == (self@ is None),
    {
        !self.is_some()
    }

    /// The optional component pair this duration holds.
    pub(crate) fn repr(&self) -> (r: Option<DurRepr>)
        ensures
            r == self@,
            r matches Some(rep) ==> rep.nanos < 1_000_000_000,
    {
        proof {
            use_type_invariant(self);
        }
        self.inner
    }

    /// Builds a duration directly from an optional component pair.
    pub(crate) fn from_repr(v: Option<DurRepr>) -> (r: Duration)
        requires
            v matches Some(rep) ==> rep.nanos < 1_000_000_000,
        ensures
            r@ == v,
    {
        Duration { inner: v }
    }

    /// Returns the contained primitive duration, or `None`.
    pub fn into_inner(self) -> (r: Option<std::time::Duration>)
        ensures
            r is Some <==> self@ is Some,
            self@ matches Some(rep) ==> r == Some(std_dur_from_parts(rep.secs, rep.nanos)),
            self@ matches Some(rep) ==> std_secs(r->Some_0) == rep.secs && std_subsec_nanos(
                r->Some_0,
            ) == rep.nanos,
    {
        proof {
            use_type_invariant(&self);
        }
        match self.inner {
            Some(rep) => Some(std_dur_new(rep.secs, rep.nanos)),
            None => None,
        }
    }

    /// Returns the contained primitive duration, or the given default if
    /// this `Duration` is absent.
    pub fn unwrap_or(self, default: std::time::Duration) -> (r: std::time::Duration)
        ensures
            self@ matches Some(rep) ==> r == std_dur_from_parts(rep.secs, rep.nanos),
            self@ is None ==> r == default,
    {
        proof {
            use_type_invariant(&self);
        }
        match self.inner {
            Some(rep) => std_dur_new(rep.secs, rep.nanos),
            None => default,
        }
    }

    /// Returns the contained primitive duration, or computes a default
    /// from the given closure if this `Duration` is absent.
    pub fn unwrap_or_else<F: FnOnce() -> std::time::Duration>(self, default: F) -> (r:
        std::time::Duration)
        requires
            self@ is None ==> call_requires(default, ()),
        ensures
            self@ matches Some(rep) ==> r == std_dur_from_parts(rep.secs, rep.nanos),
            self@ is None ==> call_ensures(default, (), r),
    {
        proof {
            use_type_invariant(&self);
        }
        match self.inner {
            Some(rep) => std_dur_new(rep.secs, rep.nanos),
            None => default(),
        }
    }
}

/// The second/nanosecond components of a primitive duration, read through
/// the trusted accessors.
pub open spec fn repr_of_std(d: std::time::Duration) -> DurRepr {
    DurRepr { secs: std_secs(d), nanos: std_subsec_nanos(d) }
}

/// Reads the components of a primitive duration into this crate's
/// representation. The components capture the whole primitive value:
/// rebuilding a primitive duration from them returns the value read.
pub(crate) fn repr_from_std(d: &std::time::Duration) -> (r: DurRepr)
    ensures
        r == repr_of_std(*d),
        r.nanos < 1_000_000_000,
        std_dur_from_parts(r.secs, r.nanos) == *d,
{
    DurRepr { secs: std_dur_secs(d), nanos: std_dur_subsec_nanos(d) }
}

impl From<std::time::Duration> for Duration {
    /// Wraps a primitive duration; the result is always present, and
    /// reading it back with [`Duration::into_inner`] returns exactly the
    /// primitive that was wrapped, which the extra clause makes available
    /// to callers.
    fn from(dur: std::time::Duration) -> (r: Duration)
        ensures
            std_dur_from_parts(std_secs(dur), std_subsec_nanos(dur)) == dur,
    {
        Duration { inner: Some(repr_from_std(&dur)) }
    }
}

impl vstd::std_specs::convert::FromSpecImpl<std::time::Duration> for Duration {
    open spec fn obeys_from_spec() -> bool {
        true
    }

    open spec fn from_spec(dur: std::time::Duration) -> Duration {
        dur_of(Some(repr_of_std(dur)))
    }
}

impl From<Option<std::time::Duration>> for Duration {
    /// Wraps an optional primitive duration as it stands; reading a
    /// present value back with [`Duration::into_inner`] returns exactly
    /// the primitive that was wrapped.
    fn from(dur: Option<std::time::Duration>) -> (r: Duration)
        ensures
            dur matches Some(d) ==> std_dur_from_parts(std_secs(d), std_subsec_nanos(d)) == d,
    {
        match dur {
            Some(d) => Duration { inner: Some(repr_from_std(&d)) },
            None => Duration { inner: None },
        }
    }
}

impl vstd::std_specs::convert::FromSpecImpl<Option<std::time::Duration>> for Duration {
    open spec fn obeys_from_spec() -> bool {
        true
    }

    open spec fn from_spec(dur: Option<std::time::Duration>) -> Duration {
        dur_of(
            match dur {
                Some(d) => Some(repr_of_std(d)),
                None => None,
            },
        )
    }
}

impl TryFrom<Duration> for std::time::Duration {
    type Error = crate::TryFromTimeError;

    /// Unwraps a present duration; fails with the conversion error if the
    /// duration is absent.
    fn try_from(dur: Duration) -> (r: Result<std::time::Duration, crate::TryFromTimeError>) {
        match dur.into_inner() {
            Some(d) => Ok(d),
            None => Err(crate::TryFromTimeError::new()),
        }
    }
}

impl vstd::std_specs::convert::TryFromSpecImpl<Duration> for std::time::Duration {
    open spec fn obeys_try_from_spec() -> bool {
        true
    }

    open spec fn try_from_spec(dur: Duration) -> Result<
        std::time::Duration,
        crate::TryFromTimeError,
    > {
        match dur@ {
            Some(rep) => Ok(std_dur_from_parts(rep.secs, rep.nanos)),
            None => Err(crate::TryFromTimeError {  }),
        }
    }
}

/// The order of two present durations: by seconds, then by nanoseconds,
/// exactly as the primitive duration type orders itself.
pub open spec fn spec_cmp_repr(a: DurRepr, b: DurRepr) -> std::cmp::Ordering {
    if a.secs < b.secs {
        std::cmp::Ordering::Less
    } else if a.secs > b.secs {
        std::cmp::Ordering::Greater
    } else if a.nanos < b.nanos {
        std::cmp::Ordering::Less
    } else if a.nanos > b.nanos {
        std::cmp::Ordering::Greater
    } else {
        std::cmp::Ordering::Equal
    }
}

/// Compares two component pairs by seconds, then by nanoseconds.
fn cmp_repr(a: &DurRepr, b: &DurRepr) -> (r: std::cmp::Ordering)
    ensures
        r == spec_cmp_repr(*a, *b),
{
    if a.secs < b.secs {
        std::cmp::Ordering::Less
    } else if a.secs > b.secs {
        std::cmp::Ordering::Greater
    } else if a.nanos < b.nanos {
        std::cmp::Ordering::Less
    } else if a.nanos > b.nanos {
        std::cmp::Ordering::Greater
    } else {
        std::cmp::Ordering::Equal
    }
}

impl PartialEq<std::time::Duration> for Duration {
    /// A duration equals a primitive duration when it is present with the
    /// same components; an absent duration equals no primitive value.
    fn eq(&self, other: &std::time::Duration) -> (r: bool) {
        match &self.inner {
            Some(rep) => {
                let o = repr_from_std(other);
                rep.secs == o.secs && rep.nanos == o.nanos
            },
            None => false,
        }
    }
}

impl vstd::std_specs::cmp::PartialEqSpecImpl<std::time::Duration> for Duration {
    open spec fn obeys_eq_spec() -> bool {
        true
    }

    open spec fn eq_spec(&self, other: &std::time::Duration) -> bool {
        self@ == Some(repr_of_std(*other))
    }
}

impl PartialEq<Duration> for std::time::Duration {
    /// The mirrored comparison of a primitive duration with a wrapper.
    fn eq(&self, other: &Duration) -> (r: bool) {
        other.eq(self)
    }
}

impl vstd::std_specs::cmp::PartialEqSpecImpl<Duration> for std::time::Duration {
    open spec fn obeys_eq_spec() -> bool {
        true
    }

    open spec fn eq_spec(&self, other: &Duration) -> bool {
        other@ == Some(repr_of_std(*self))
    }
}

impl PartialOrd<Duration> for Duration {
    /// Two present durations order by their length and two absent ones are
    /// equal, while an absent duration is incomparable to a present one.
    fn partial_cmp(&self, other: &Duration) -> (r: Option<std::cmp::Ordering>) {
        match (&self.inner, &other.inner) {
            (Some(a), Some(b)) => Some(cmp_repr(a, b)),
            (None, None) => Some(std::cmp::Ordering::Equal),
            _ => None,
        }
    }
}

impl vstd::std_specs::cmp::PartialOrdSpecImpl<Duration> for Duration {
    open spec fn obeys_partial_cmp_spec() -> bool {
        true
    }

    open spec fn partial_cmp_spec(&self, other: &Duration) -> Option<std::cmp::Ordering> {
        match (self@, other@) {
            (Some(a), Some(b)) => Some(spec_cmp_repr(a, b)),
            (None, None) => Some(std::cmp::Ordering::Equal),
            _ => None,
        }
    }
}

impl PartialOrd<std::time::Duration> for Duration {
    /// A present duration orders against a primitive duration by seconds,
    /// then nanoseconds; an absent duration is incomparable.
    fn partial_cmp(&self, other: &std::time::Duration) -> (r: Option<std::cmp::Ordering>) {
        match &self.inner {
            Some(rep) => {
                let o = repr_from_std(other);
                Some(cmp_repr(rep, &o))
            },
            None => None,
        }
    }
}

impl vstd::std_specs::cmp::PartialOrdSpecImpl<std::time::Duration> for Duration {
    open spec fn obeys_partial_cmp_spec() -> bool {
        true
    }

    open spec fn partial_cmp_spec(&self, other: &std::time::Duration) -> Option<std::cmp::Ordering> {
        match self@ {
            Some(rep) => Some(spec_cmp_repr(rep, repr_of_std(*other))),
            None => None,
        }
    }
}

impl PartialOrd<Duration> for std::time::Duration {
    /// The mirrored ordering of a primitive duration against a wrapper.
    fn partial_cmp(&self, other: &Duration) -> (r: Option<std::cmp::Ordering>) {
        match &other.inner {
            Some(rep) => {
                let s = repr_from_std(self);
                Some(cmp_repr(&s, rep))
            },
            None => None,
        }
    }
}

impl vstd::std_specs::cmp::PartialOrdSpecImpl<Duration> for std::time::Duration {
    open spec fn obeys_partial_cmp_spec() -> bool {
        true
    }

    open spec fn partial_cmp_spec(&self, other: &Duration) -> Option<std::cmp::Ordering> {
        match other@ {
            Some(rep) => Some(spec_cmp_repr(repr_of_std(*self), rep)),
            None => None,
        }
    }
}

impl Default for Duration {
    /// The present zero duration, mirroring the primitive default.
    fn default() -> (r: Duration)
        ensures
            r@ == Some(DurRepr { secs: 0, nanos: 0 }),
    {
        Duration { inner: Some(DurRepr { secs: 0, nanos: 0 }) }
    }
}

/// The maximum representable duration, as a nanosecond count.
const MAX_TOTAL_NANOS: u128 = 0xFFFF_FFFF_FFFF_FFFF * 1_000_000_000 + 999_999_999;

/// The length of a present duration in nanoseconds, as a machine integer.
fn total_nanos(rep: &DurRepr) -> (t: u128)
    ensures
        t == dur_total(*rep),
{
    rep.secs as u128 * 1_000_000_000 + rep.nanos as u128
}

/// The second/nanosecond decomposition of a nanosecond count, as machine
/// integers.
fn of_total_nanos(t: u128) -> (r: DurRepr)
    requires
        t <= max_total(),
    ensures
        r == repr_of_total(t as int),
        r.nanos < 1_000_000_000,
{
    proof {
        lemma_div_is_ordered(t as int, max_total(), 1_000_000_000);
        lemma_fundamental_div_mod_converse(
            max_total(),
            1_000_000_000,
            u64::MAX as int,
            999_999_999,
        );
    }
    let secs = (t / 1_000_000_000) as u64;
    let nanos = (t % 1_000_000_000) as u32;
    DurRepr { secs, nanos }
}

/// The checked sum of two present durations.
fn checked_add_repr(a: DurRepr, b: DurRepr) -> (r: Option<DurRepr>)
    ensures
        r == spec_checked_add(Some(a), Some(b)),
{
    let ta = total_nanos(&a);
    let tb = total_nanos(&b);
    if ta <= MAX_TOTAL_NANOS && tb <= MAX_TOTAL_NANOS - ta {
        Some(of_total_nanos(ta + tb))
    } else {
        None
    }
}

/// The checked difference of two present durations.
fn checked_sub_repr(a: DurRepr, b: DurRepr) -> (r: Option<DurRepr>)
    requires
        a.nanos < 1_000_000_000,
    ensures
        r == spec_checked_sub(Some(a), Some(b)),
{
    let ta = total_nanos(&a);
    let tb = total_nanos(&b);
    if ta >= tb {
        Some(of_total_nanos(ta - tb))
    } else {
        None
    }
}

/// The checked product of a present duration and an unsigned scalar.
fn checked_mul_repr(a: DurRepr, rhs: u32) -> (r: Option<DurRepr>)
    ensures
        r == spec_checked_mul(Some(a), rhs),
{
    let ta = total_nanos(&a);
    proof {
        lemma_mul_upper_bound(ta as int, 0x1_0000_0000_0000_0000_0000_0000, rhs as int, 0xFFFF_FFFF);
    }
    let t = ta * rhs as u128;
    if t <= MAX_TOTAL_NANOS {
        Some(of_total_nanos(t))
    } else {
        None
    }
}

/// The checked quotient of a present duration by an unsigned scalar: the
/// total nanosecond count divided once, rounding down, exactly as the
/// standard library's checked duration division behaves.
fn checked_div_repr(a: DurRepr, rhs: u32) -> (r: Option<DurRepr>)
    requires
        a.nanos < 1_000_000_000,
    ensures
        r == spec_checked_div(Some(a), rhs),
{
    if rhs == 0 {
        return None;
    }
    let t = total_nanos(&a);
    proof {
        lemma_div_is_ordered(0, dur_total(a), rhs as int);
        lemma_div_nonincreasing(dur_total(a), rhs as int);
    }
    Some(of_total_nanos(t / rhs as u128))
}

impl std::ops::Add<Duration> for Duration {
    type Output = Duration;

    /// The checked sum: absent if either operand is absent or the sum
    /// overflows the maximum representable duration.
    fn add(self, rhs: Duration) -> (r: Duration) {
        proof {
            use_type_invariant(&self);
            use_type_invariant(&rhs);
        }
        Duration { inner: crate::utils::pair_and_then(self.inner, rhs.inner, checked_add_repr) }
    }
}

impl vstd::std_specs::ops::AddSpecImpl<Duration> for Duration {
    open spec fn obeys_add_spec() -> bool {
        true
    }

    open spec fn add_req(self, rhs: Duration) -> bool {
        true
    }

    open spec fn add_spec(self, rhs: Duration) -> Duration {
        dur_of(spec_checked_add(self@, rhs@))
    }
}

impl std::ops::AddAssign<Duration> for Duration {
    /// Replaces `self` with the checked sum `self + rhs`.
    fn add_assign(&mut self, rhs: Duration)
        ensures
            final(self)@ == spec_checked_add(old(self)@, rhs@),
    {
        *self = *self + rhs;
    }
}

impl std::ops::Add<std::time::Duration> for Duration {
    type Output = Duration;

    /// The checked sum with a primitive duration.
    fn add(self, rhs: std::time::Duration) -> (r: Duration) {
        proof {
            use_type_invariant(&self);
        }
        match self.inner {
            Some(a) => Duration { inner: checked_add_repr(a, repr_from_std(&rhs)) },
            None => Duration { inner: None },
        }
    }
}

impl vstd::std_specs::ops::AddSpecImpl<std::time::Duration> for Duration {
    open spec fn obeys_add_spec() -> bool {
        true
    }

    open spec fn add_req(self, rhs: std::time::Duration) -> bool {
        true
    }

    open spec fn add_spec(self, rhs: std::time::Duration) -> Duration {
        dur_of(spec_checked_add(self@, Some(repr_of_std(rhs))))
    }
}

impl std::ops::AddAssign<std::time::Duration> for Duration {
    /// Replaces `self` with the checked sum `self + rhs`.
    fn add_assign(&mut self, rhs: std::time::Duration)
        ensures
            final(self)@ == spec_checked_add(old(self)@, Some(repr_of_std(rhs))),
    {
        *self = *self + rhs;
    }
}

impl std::ops::Sub<Duration> for Duration {
    type Output = Duration;

    /// The checked difference: absent if either operand is absent or the
    /// subtrahend is longer than `self`.
    fn sub(self, rhs: Duration) -> (r: Duration) {
        proof {
            use_type_invariant(&self);
            use_type_invariant(&rhs);
        }
        Duration { inner: crate::utils::pair_and_then(self.inner, rhs.inner, checked_sub_repr) }
    }
}

impl vstd::std_specs::ops::SubSpecImpl<Duration> for Duration {
    open spec fn obeys_sub_spec() -> bool {
        true
    }

    open spec fn sub_req(self, rhs: Duration) -> bool {
        true
    }

    open spec fn sub_spec(self, rhs: Duration) -> Duration {
        dur_of(spec_checked_sub(self@, rhs@))
    }
}

impl std::ops::SubAssign<Duration> for Duration {
    /// Replaces `self` with the checked difference `self - rhs`.
    fn sub_assign(&mut self, rhs: Duration)
        ensures
            final(self)@ == spec_checked_sub(old(self)@, rhs@),
    {
        *self = *self - rhs;
    }
}

impl std::ops::Sub<std::time::Duration> for Duration {
    type Output = Duration;

    /// The checked difference with a primitive duration.
    fn sub(self, rhs: std::time::Duration) -> (r: Duration) {
        proof {
            use_type_invariant(&self);
        }
        match self.inner {
            Some(a) => Duration { inner: checked_sub_repr(a, repr_from_std(&rhs)) },
            None => Duration { inner: None },
        }
    }
}

impl vstd::std_specs::ops::SubSpecImpl<std::time::Duration> for Duration {
    open spec fn obeys_sub_spec() -> bool {
        true
    }

    open spec fn sub_req(self, rhs: std::time::Duration) -> bool {
        true
    }

    open spec fn sub_spec(self, rhs: std::time::Duration) -> Duration {
        dur_of(spec_checked_sub(self@, Some(repr_of_std(rhs))))
    }
}

impl std::ops::SubAssign<std::time::Duration> for Duration {
    /// Replaces `self` with the checked difference `self - rhs`.
    fn sub_assign(&mut self, rhs: std::time::Duration)
        ensures
            final(self)@ == spec_checked_sub(old(self)@, Some(repr_of_std(rhs))),
    {
        *self = *self - rhs;
    }
}

impl std::ops::Mul<u32> for Duration {
    type Output = Duration;

    /// The checked product with an unsigned scalar: absent on overflow.
    fn mul(self, rhs: u32) -> (r: Duration) {
        proof {
            use_type_invariant(&self);
        }
        match self.inner {
            Some(a) => Duration { inner: checked_mul_repr(a, rhs) },
            None => Duration { inner: None },
        }
    }
}

impl vstd::std_specs::ops::MulSpecImpl<u32> for Duration {
    open spec fn obeys_mul_spec() -> bool {
        true
    }

    open spec fn mul_req(self, rhs: u32) -> bool {
        true
    }

    open spec fn mul_spec(self, rhs: u32) -> Duration {
        dur_of(spec_checked_mul(self@, rhs))
    }
}

impl std::ops::Mul<Duration> for u32 {
    type Output = Duration;

    /// The checked product of an unsigned scalar and a duration.
    fn mul(self, rhs: Duration) -> (r: Duration) {
        rhs * self
    }
}

impl vstd::std_specs::ops::MulSpecImpl<Duration> for u32 {
    open spec fn obeys_mul_spec() -> bool {
        true
    }

    open spec fn mul_req(self, rhs: Duration) -> bool {
        true
    }

    open spec fn mul_spec(self, rhs: Duration) -> Duration {
        dur_of(spec_checked_mul(rhs@, self))
    }
}

impl std::ops::MulAssign<u32> for Duration {
    /// Replaces `self` with the checked product `self * rhs`.
    fn mul_assign(&mut self, rhs: u32)
        ensures
            final(self)@ == spec_checked_mul(old(self)@, rhs),
    {
        *self = *self * rhs;
    }
}

impl std::ops::Div<u32> for Duration {
    type Output = Duration;

    /// The checked quotient by an unsigned scalar: absent when the divisor
    /// is zero.
    fn div(self, rhs: u32) -> (r: Duration) {
        proof {
            use_type_invariant(&self);
        }
        match self.inner {
            Some(a) => Duration { inner: checked_div_repr(a, rhs) },
            None => Duration { inner: None },
        }
    }
}

impl vstd::std_specs::ops::DivSpecImpl<u32> for Duration {
    open spec fn obeys_div_spec() -> bool {
        true
    }

    open spec fn div_req(self, rhs: u32) -> bool {
        true
    }

    open spec fn div_spec(self, rhs: u32) -> Duration {
        dur_of(spec_checked_div(self@, rhs))
    }
}

impl std::ops::DivAssign<u32> for Duration {
    /// Replaces `self` with the checked quotient `self / rhs`.
    fn div_assign(&mut self, rhs: u32)
        ensures
            final(self)@ == spec_checked_div(old(self)@, rhs),
    {
        *self = *self / rhs;
    }
}

/// An absent operand anywhere yields an absent result: absence is an
/// absorbing element of every checked duration operation.
pub proof fn lemma_absent_absorbs(a: Option<DurRepr>, b: Option<DurRepr>, k: u32)
    requires
        a is None || b is None,
    ensures
        spec_checked_add(a, b) is None,
        spec_checked_add(b, a) is None,
        spec_checked_sub(a, b) is None,
        spec_checked_sub(b, a) is None,
        a is None ==> spec_checked_mul(a, k) is None,
        a is None ==> spec_checked_div(a, k) is None,
{
}

/// The documented equality quirk: two absent durations, however they were
/// produced, compare equal to each other.
pub proof fn lemma_absent_durations_equal(a: Duration, b: Duration)
    requires
        a@ is None,
        b@ is None,
    ensures
        a == b,
{
    lemma_dur_determined(a);
    lemma_dur_determined(b);
}

/// An absent duration compares unequal to every present duration.
pub proof fn lemma_absent_unequal_present(a: Duration, b: Duration)
    requires
        a@ is None,
        b@ is Some,
    ensures
        a != b,
{
}

/// Against a raw primitive duration an absent duration is unequal and,
/// having no order, incomparable.
pub proof fn lemma_absent_unordered_primitive(a: Duration, d: std::time::Duration)
    requires
        a@ is None,
    ensures
        !a.eq_spec(&d),
        a.partial_cmp_spec(&d) is None,
{
}

/// Between two wrapped durations an absent value has no order against a
/// present one, in either position, while two absent values compare as
/// equal.
pub proof fn lemma_absent_unordered_wrapper(a: Duration, b: Duration)
    requires
        a@ is None,
    ensures
        b@ is Some ==> a.partial_cmp_spec(&b) is None,
        b@ is Some ==> b.partial_cmp_spec(&a) is None,
        b@ is None ==> a.partial_cmp_spec(&b) == Some(std::cmp::Ordering::Equal),
{
}

impl Duration {
    /// Converting a duration to the optional primitive value and wrapping
    /// that value again yields an equal duration: in particular every
    /// present duration survives the round trip through the primitive type
    /// unchanged, and the absent duration stays absent.
    pub fn rewrapped(self) -> (r: Duration)
        ensures
            r == self,
    {
        let r = Duration::from(self.into_inner());
        proof {
            lemma_dur_determined(r);
            lemma_dur_determined(self);
        }
        r
    }
}

} // verus!
