use std::time;

use easytime::{Duration, Instant, SystemTime, TryFromTimeError};

#[test]
fn from_secs_float_exact() {
    // a billion times 2.7 is an exact nanosecond count for the 64-bit
    // encoding of 2.7, so the conversion must be exact
    assert_eq!(Duration::from_secs_f64_bits(2.7f64.to_bits()), Duration::new(2, 700_000_000));
    assert_eq!(Duration::from_secs_f64_bits(1.0f64.to_bits()), Duration::from_secs(1));
    assert_eq!(Duration::from_secs_f64_bits(0.5f64.to_bits()), Duration::new(0, 500_000_000));
    assert_eq!(
        Duration::from_secs_f64_bits(1e-9f64.to_bits()),
        Duration::new(0, 1)
    );
    // the nearest 32-bit float to 2.7 is a hair above it, and the correctly
    // rounded conversion must reflect those extra nanoseconds
    assert_eq!(Duration::from_secs_f32_bits(2.7f32.to_bits()), Duration::new(2, 700_000_048));
    assert_eq!(Duration::from_secs_f32_bits(1.0f32.to_bits()), Duration::from_secs(1));
    assert_eq!(Duration::from_secs_f32_bits(0.5f32.to_bits()), Duration::new(0, 500_000_000));
    // a large value with no fractional part
    assert_eq!(
        Duration::from_secs_f64_bits(9.007199254740992e15f64.to_bits()),
        Duration::from_secs(9_007_199_254_740_992)
    );
}

#[test]
fn from_secs_float_rejects_invalid() {
    // zero in both signs converts to the zero duration
    assert_eq!(Duration::from_secs_f64_bits(0.0f64.to_bits()), Duration::zero());
    assert_eq!(Duration::from_secs_f64_bits((-0.0f64).to_bits()), Duration::zero());
    assert_eq!(Duration::from_secs_f32_bits(0.0f32.to_bits()), Duration::zero());
    assert_eq!(Duration::from_secs_f32_bits((-0.0f32).to_bits()), Duration::zero());
    // negative, NaN and infinite values convert to the absent duration
    assert!(Duration::from_secs_f64_bits((-1.5f64).to_bits()).is_none());
    assert!(Duration::from_secs_f64_bits(f64::NAN.to_bits()).is_none());
    assert!(Duration::from_secs_f64_bits(f64::INFINITY.to_bits()).is_none());
    assert!(Duration::from_secs_f64_bits(f64::NEG_INFINITY.to_bits()).is_none());
    assert!(Duration::from_secs_f32_bits((-1.5f32).to_bits()).is_none());
    assert!(Duration::from_secs_f32_bits(f32::NAN.to_bits()).is_none());
    assert!(Duration::from_secs_f32_bits(f32::INFINITY.to_bits()).is_none());
    // a second count beyond the 64-bit range converts to the absent duration
    assert!(Duration::from_secs_f64_bits(1.9e19f64.to_bits()).is_none());
    assert!(Duration::from_secs_f32_bits(1.9e19f32.to_bits()).is_none());
    // a subnormal magnitude is far below one nanosecond and rounds to zero
    assert_eq!(Duration::from_secs_f64_bits(f64::MIN_POSITIVE.to_bits()), Duration::zero());
    assert_eq!(Duration::from_secs_f64_bits(1u64), Duration::zero());
    assert_eq!(Duration::from_secs_f32_bits(1u32), Duration::zero());
    // just below half a nanosecond rounds down to zero
    assert_eq!(Duration::from_secs_f64_bits(4.9e-10f64.to_bits()), Duration::zero());
    // just above half a nanosecond rounds up to one nanosecond
    assert_eq!(Duration::from_secs_f64_bits(5.1e-10f64.to_bits()), Duration::new(0, 1));
}

#[test]
fn from_secs_float_tie_rounds_to_even() {
    // 2^-10 seconds is exactly 976562.5 nanoseconds: the tie must resolve
    // to the even count 976562, not upward
    assert_eq!(
        Duration::from_secs_f64_bits(0.0009765625f64.to_bits()),
        Duration::new(0, 976_562)
    );
    assert_eq!(
        Duration::from_secs_f32_bits(0.0009765625f32.to_bits()),
        Duration::new(0, 976_562)
    );
    // 3 * 2^-10 seconds is exactly 2929687.5 nanoseconds: here the even
    // neighbour lies upward
    assert_eq!(
        Duration::from_secs_f64_bits(0.0029296875f64.to_bits()),
        Duration::new(0, 2_929_688)
    );
    assert_eq!(
        Duration::from_secs_f32_bits(0.0029296875f32.to_bits()),
        Duration::new(0, 2_929_688)
    );
}

#[test]
fn from_secs_float_nanos_carry() {
    // the largest 64-bit float below one second rounds its fraction up to a
    // full billion nanoseconds, which must carry into the seconds
    let below_one = 1.0f64 - f64::EPSILON / 2.0;
    assert!(below_one < 1.0);
    assert_eq!(Duration::from_secs_f64_bits(below_one.to_bits()), Duration::new(1, 0));
    // the same carry happens on the fractional part of a larger value
    let below_five = f64::from_bits(5.0f64.to_bits() - 1);
    assert!(below_five < 5.0);
    assert_eq!(Duration::from_secs_f64_bits(below_five.to_bits()), Duration::new(5, 0));
    // the 32-bit encoding has too little precision to reach the carry: its
    // largest value below one second stays below a billion nanoseconds
    let below_one_f32 = 0.99999994f32;
    assert!(below_one_f32 < 1.0);
    assert_eq!(
        Duration::from_secs_f32_bits(below_one_f32.to_bits()),
        Duration::new(0, 999_999_940)
    );
}

#[test]
fn from_secs_float_round_trip() {
    // converting a float seconds value to a duration is correct to half a
    // nanosecond, so reading it back lands within a nanosecond of the input
    let cases = [
        0.0f64,
        1.0,
        2.7,
        3.141592653589793,
        0.000000001,
        1234.000000001,
        12345.6789,
        0.33333333333333331,
    ];
    for s in cases {
        let d = Duration::from_secs_f64_bits(s.to_bits());
        let back = d.into_inner().unwrap().as_secs_f64();
        assert!((back - s).abs() <= 1e-9, "{back} is not within a nanosecond of {s}");
    }
}

#[test]
fn absent_absorbs_everything() {
    let absent = Duration::absent();
    let one = Duration::from_secs(1);
    assert!((absent + one).is_none());
    assert!((one + absent).is_none());
    assert!((absent - one).is_none());
    assert!((one - absent).is_none());
    assert!((absent * 5).is_none());
    assert!((5 * absent).is_none());
    assert!((absent / 5).is_none());
    assert!((((one + absent) * 7 / 2 - one) + Duration::max()).is_none());

    let i = Instant::now();
    assert!((Instant::absent() + one).is_none());
    assert!((Instant::absent() - one).is_none());
    assert!((i + absent).is_none());
    assert!((i - absent).is_none());
    assert!(Instant::absent().duration_since(i).is_none());
    assert!(i.duration_since(Instant::absent()).is_none());
    assert!(Instant::absent().elapsed().is_none());

    let t = SystemTime::now();
    assert!((SystemTime::absent() + one).is_none());
    assert!((SystemTime::absent() - one).is_none());
    assert!((t + absent).is_none());
    assert!((t - absent).is_none());
    assert!(SystemTime::absent().duration_since(t).is_none());
    assert!(t.duration_since(SystemTime::absent()).is_none());
    assert!(SystemTime::absent().elapsed().is_none());
}

#[test]
fn absent_equality_quirk() {
    // two absent durations from different computations compare equal
    let a = Duration::zero() - Duration::from_secs(1);
    let b = Duration::new(1, 0) + Duration::new(u64::MAX, 0);
    assert_eq!(a, b);
    assert_eq!(a, Duration::absent());
    // but an absent duration equals no present duration and no primitive
    // value, and has no order against a primitive value
    assert!(a != Duration::zero());
    assert!(a != time::Duration::from_secs(0));
    assert!(time::Duration::from_secs(0) != a);
    assert_eq!(a.partial_cmp(&time::Duration::from_secs(0)), None);
    assert!(!(a < time::Duration::from_secs(1)));
    assert!(!(a > time::Duration::from_secs(1)));
    // between two wrappers, too, absent is unordered against present and
    // equal to absent
    assert_eq!(a.partial_cmp(&Duration::zero()), None);
    assert_eq!(Duration::zero().partial_cmp(&a), None);
    assert!(!(a < Duration::zero()) && !(a > Duration::zero()) && !(a <= Duration::zero()));
    assert_eq!(a.partial_cmp(&b), Some(std::cmp::Ordering::Equal));
    assert!(Duration::from_secs(2) > Duration::from_secs(1));

    let i = Instant::now();
    assert_eq!(Instant::absent().partial_cmp(&i), None);
    assert!(!(Instant::absent() < i) && !(Instant::absent() >= i));
    assert_eq!(Instant::absent().partial_cmp(&Instant::absent()), Some(std::cmp::Ordering::Equal));

    let t = SystemTime::now();
    assert_eq!(SystemTime::absent().partial_cmp(&t), None);
    assert!(!(SystemTime::absent() < t) && !(SystemTime::absent() >= t));
    assert_eq!(
        SystemTime::absent().partial_cmp(&SystemTime::absent()),
        Some(std::cmp::Ordering::Equal)
    );
}

#[test]
fn conversion_error() {
    let absent_dur: Result<time::Duration, TryFromTimeError> =
        time::Duration::try_from(Duration::absent());
    assert_eq!(absent_dur, Err(TryFromTimeError::new()));
    let present_dur: Result<time::Duration, TryFromTimeError> =
        time::Duration::try_from(Duration::new(1, 2));
    assert_eq!(present_dur, Ok(time::Duration::new(1, 2)));

    let absent_instant: Result<time::Instant, TryFromTimeError> =
        time::Instant::try_from(Instant::absent());
    assert_eq!(absent_instant, Err(TryFromTimeError::new()));
    let now = time::Instant::now();
    let present_instant: Result<time::Instant, TryFromTimeError> =
        time::Instant::try_from(Instant::from(now));
    assert_eq!(present_instant, Ok(now));

    let absent_time: Result<time::SystemTime, TryFromTimeError> =
        time::SystemTime::try_from(SystemTime::absent());
    assert_eq!(absent_time, Err(TryFromTimeError::new()));

    assert_eq!(
        TryFromTimeError::new().message(),
        "invalid arithmetic attempted on instants or durations"
    );
}

#[test]
fn round_trip_through_primitive() {
    // every present value survives the trip to the primitive type and back
    let d = Duration::new(4, 10_000_000);
    assert_eq!(Duration::from(d.into_inner().unwrap()), d);
    assert_eq!(d.rewrapped(), d);
    assert_eq!(Duration::absent().rewrapped(), Duration::absent());
    assert_eq!(Duration::from(time::Duration::new(3, 45)).as_secs(), Some(3));
    assert_eq!(Duration::from(time::Duration::new(3, 45)).subsec_nanos(), Some(45));

    let i = Instant::now();
    assert_eq!(Instant::from(i.into_inner().unwrap()), i);
    assert_eq!(Instant::from(i.into_inner()), i);

    let t = SystemTime::now();
    assert_eq!(SystemTime::from(t.into_inner().unwrap()), t);
    assert_eq!(SystemTime::from(t.into_inner()), t);
}

#[test]
fn unwrap_with_defaults() {
    let zero = Duration::new(0, 0);
    let one_sec = Duration::new(1, 0);
    assert_eq!(
        (one_sec - zero).unwrap_or(time::Duration::from_secs(2)),
        time::Duration::from_secs(1)
    );
    assert_eq!(
        (zero - one_sec).unwrap_or(time::Duration::from_secs(2)),
        time::Duration::from_secs(2)
    );
    assert_eq!(
        (one_sec - zero).unwrap_or_else(|| time::Duration::from_secs(2)),
        time::Duration::from_secs(1)
    );
    assert_eq!(
        (zero - one_sec).unwrap_or_else(|| time::Duration::from_secs(2)),
        time::Duration::from_secs(2)
    );

    let now = time::Instant::now();
    assert_eq!(Instant::absent().unwrap_or(now), now);
    assert_eq!(Instant::absent().unwrap_or_else(|| now), now);
    assert_eq!(Instant::from(now).unwrap_or(now), now);

    let epoch = time::SystemTime::UNIX_EPOCH;
    assert_eq!(SystemTime::absent().unwrap_or(epoch), epoch);
    assert_eq!(SystemTime::absent().unwrap_or_else(|| epoch), epoch);
    assert_eq!(SystemTime::unix_epoch().unwrap_or_else(|| epoch), epoch);
}

#[test]
fn duration_since_policies() {
    // the default policy clamps a reversed pair of readings to zero; the
    // checked variant reports it as absent instead
    let now = Instant::now();
    let later = now + Duration::from_secs(1);
    assert_eq!(later.checked_duration_since(now), Duration::from_secs(1));
    assert!(now.checked_duration_since(later).is_none());
    assert_eq!(now.duration_since(later), Duration::zero());
    assert!(Instant::absent().checked_duration_since(now).is_none());
}

#[test]
fn max_and_zero() {
    assert_eq!(Duration::max(), Duration::new(u64::MAX, 999_999_999));
    assert!((Duration::max() + Duration::new(0, 1)).is_none());
    assert!(Duration::zero().is_zero());
    assert!(Duration::new(0, 0).is_zero());
    assert!(!Duration::new(0, 1).is_zero());
    assert!(!Duration::absent().is_zero());
    assert_eq!(Duration::default(), Duration::zero());
}
