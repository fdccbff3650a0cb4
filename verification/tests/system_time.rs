use easytime::{Duration, SystemTime};

#[test]
fn system_time_math() {
    let a = SystemTime::now();
    let _b = SystemTime::now();

    let second = Duration::new(1, 0);
    {
        let (x, y) = (a.duration_since(a - second), second);
        if x != y {
            let (x, y) = if x > y { (x, y) } else { (y, x) };
            assert!(x - Duration::new(0, 1000) <= y, "{:?} is not almost equal to {:?}", x, y);
        }
    }
    assert_eq!(a.duration_since(a + second).into_inner(), None);

    {
        let (x, y) = (a - second + second, a);
        if x != y {
            let (x, y) = if x > y { (x, y) } else { (y, x) };
            assert!(x - Duration::new(0, 1000) <= y, "{:?} is not almost equal to {:?}", x, y);
        }
    }

    // a difference of 80 and 800 years would not fit a 32-bit second count,
    // but this suite assumes a 64-bit one
    let eighty_years = second * 60 * 60 * 24 * 365 * 80;
    {
        let (x, y) = (a - eighty_years + eighty_years, a);
        if x != y {
            let (x, y) = if x > y { (x, y) } else { (y, x) };
            assert!(x - Duration::new(0, 1000) <= y, "{:?} is not almost equal to {:?}", x, y);
        }
    }
    {
        let (x, y) = (a - (eighty_years * 10) + (eighty_years * 10), a);
        if x != y {
            let (x, y) = if x > y { (x, y) } else { (y, x) };
            assert!(x - Duration::new(0, 1000) <= y, "{:?} is not almost equal to {:?}", x, y);
        }
    }

    let one_second_from_epoch = SystemTime::unix_epoch() + Duration::new(1, 0);
    let one_second_from_epoch2 =
        SystemTime::unix_epoch() + Duration::new(0, 500_000_000) + Duration::new(0, 500_000_000);
    assert_eq!(one_second_from_epoch, one_second_from_epoch2);

    // adding a duration that overflows the clock representation must not
    // panic; the value merely becomes absent
    let mut maybe_t = SystemTime::unix_epoch();
    let max_duration = Duration::from_secs(u64::MAX);
    // in case the clock can store a value at or past the epoch + max_duration
    for _ in 0..2 {
        maybe_t += max_duration;
    }
    assert_eq!(maybe_t.into_inner(), None);

    // checked addition calculates the right time and will work for another year
    let year = Duration::from_secs(60 * 60 * 24 * 365);
    assert_eq!(a + year, a + year);
}

#[test]
fn system_time_elapsed() {
    let a = SystemTime::now();
    let _ = a.elapsed();
}

#[test]
fn since_epoch() {
    let ts = SystemTime::now();
    let a = ts.duration_since(SystemTime::unix_epoch());
    let b = ts.duration_since(SystemTime::unix_epoch() - Duration::new(1, 0));
    assert!(b > a);
    assert_eq!(b - a, Duration::new(1, 0));

    let thirty_years = Duration::new(1, 0) * 60 * 60 * 24 * 365 * 30;

    // assume the host clock reads a date later than 2000
    assert!(a > thirty_years);

    // and assume it reads one earlier than 2090
    let hundred_twenty_years = thirty_years * 4;
    assert!(a < hundred_twenty_years);
}
