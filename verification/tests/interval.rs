use datetime::interval::TimeInterval;
use datetime::DateTime;

fn datetime(year: i16, month: u8, day: u8, hour: u8, minute: u8, second: u8) -> DateTime {
    DateTime::ymd(year, month, day).hms(hour, minute, second).build()
}

#[test]
fn test_from_fractionals() {
    for (millis, secs, nanos) in [(2_400, 2, 400_000_000), (-2_400, -3, 600_000_000)] {
        let interval = TimeInterval::from_milliseconds(millis);
        assert!(interval.seconds() == secs);
        assert!(interval.nanoseconds() == nanos);
    }
    for (micros, secs, nanos) in [(2_400_000, 2, 400_000_000), (-2_400_000, -3, 600_000_000)] {
        let interval = TimeInterval::from_microseconds(micros);
        assert!(interval.seconds() == secs);
        assert!(interval.nanoseconds() == nanos);
    }
    for (ns, s, n) in [(2_400_000_000, 2, 400_000_000), (-2_400_000_000, -3, 600_000_000)] {
        let interval = TimeInterval::from_nanoseconds(ns);
        assert!(interval.seconds() == s);
        assert!(interval.nanoseconds() == n);
    }
}

#[test]
fn test_add() {
    assert!(
        datetime(2012, 4, 21, 11, 0, 0) + TimeInterval::new(3600, 0)
            == datetime(2012, 4, 21, 12, 0, 0)
    );
    assert!(
        datetime(2012, 4, 21, 11, 0, 0) + TimeInterval::new(1800, 0)
            == datetime(2012, 4, 21, 11, 30, 0)
    );
    assert!(
        datetime(2012, 4, 21, 11, 0, 0) + TimeInterval::new(0, 500_000_000)
            == DateTime::ymd(2012, 4, 21).hms(11, 0, 0).nanos(500_000_000).build()
    );
}

#[test]
fn test_add_assign() {
    let mut dt = datetime(2012, 4, 21, 11, 0, 0);
    dt.add_assign(TimeInterval::new(3600, 0));
    assert!(dt == datetime(2012, 4, 21, 12, 0, 0));
    dt.add_assign(TimeInterval::new(0, 750_000_000));
    dt.add_assign(TimeInterval::new(0, 250_000_000));
    assert!(dt == datetime(2012, 4, 21, 12, 0, 1));
}

#[test]
fn test_sub() {
    assert!(
        datetime(2012, 4, 21, 11, 0, 0) - TimeInterval::new(3600, 0)
            == datetime(2012, 4, 21, 10, 0, 0)
    );
    assert!(
        datetime(2012, 4, 21, 11, 0, 0) - TimeInterval::new(0, 500_000_000)
            == DateTime::ymd(2012, 4, 21).hms(10, 59, 59).nanos(500_000_000).build()
    );
}

#[test]
fn test_sub_assign() {
    let mut dt = datetime(2012, 4, 21, 11, 0, 0);
    dt.sub_assign(TimeInterval::new(3600, 0));
    assert!(dt == datetime(2012, 4, 21, 10, 0, 0));
    dt.sub_assign(TimeInterval::new(0, 750_000_000));
    dt.sub_assign(TimeInterval::new(0, 350_000_000));
    dt.sub_assign(TimeInterval::new(0, 900_000_000));
    assert!(dt == datetime(2012, 4, 21, 9, 59, 58));
}

#[test]
fn test_sub_dt() {
    assert!(
        datetime(2012, 4, 21, 11, 0, 0) - datetime(2012, 4, 21, 10, 0, 0)
            == TimeInterval::new(3600, 0)
    );
    assert!(
        datetime(2012, 4, 21, 11, 0, 0) - datetime(2012, 4, 21, 12, 0, 0)
            == TimeInterval::new(-3600, 0)
    );
}

#[test]
fn test_mul_int() {
    let interval = TimeInterval::new(3, 500_000_000) * 3;
    assert!(interval.seconds() == 10);
    assert!(interval.nanoseconds() == 500_000_000);
}

#[test]
fn test_div_int() {
    let interval = TimeInterval::new(4, 500_000_000) / 3;
    assert!(interval.seconds() == 1);
    assert!(interval.nanoseconds() == 500_000_000);
}

fn ratio(a: TimeInterval, b: TimeInterval) -> f64 {
    a.as_nanoseconds() as f64 / b.as_nanoseconds() as f64
}

#[test]
fn test_div() {
    assert!(ratio(TimeInterval::new(3600, 0), TimeInterval::new(1800, 0)) == 2.0);
    assert!(ratio(TimeInterval::new(-1800, 0), TimeInterval::new(-3600, 0)) == 0.5);
    assert!(ratio(TimeInterval::new(-1800, 0), TimeInterval::new(3600, 0)) == -0.5);
    assert!(ratio(TimeInterval::new(0, 3600), TimeInterval::new(0, 1800)) == 2.0);
}

#[test]
fn test_as() {
    let dur = TimeInterval::new(5, 0);
    assert!(dur.as_milliseconds() == 5_000);
    assert!(dur.as_microseconds() == 5_000_000);
    assert!(dur.as_nanoseconds() == 5_000_000_000);
}

#[test]
fn new_carries_whole_seconds_out_of_the_nanoseconds() {
    let interval = TimeInterval::new(1, 2_500_000_000);
    assert_eq!(interval.seconds(), 3);
    assert_eq!(interval.nanoseconds(), 500_000_000);
    let most = TimeInterval::new(0, u32::MAX);
    assert_eq!(most.seconds(), 4);
    assert_eq!(most.nanoseconds(), 294_967_295);
}

#[test]
fn nanoseconds_stay_below_a_second() {
    for interval in [
        TimeInterval::new(-7, 999_999_999),
        TimeInterval::new(0, 1_000_000_000),
        TimeInterval::from_milliseconds(-1),
        TimeInterval::from_microseconds(-1),
        TimeInterval::from_nanoseconds(-1),
        TimeInterval::from_nanoseconds(i64::MIN as i128 * 1_000_000_000),
        TimeInterval::new(2, 0) * -3,
        TimeInterval::new(-2, 1) / 7,
        TimeInterval::default(),
    ] {
        assert!(interval.nanoseconds() < 1_000_000_000);
    }
    for dt in [
        DateTime::from_timestamp(0, u32::MAX),
        DateTime::from_timestamp_millis(-1),
        DateTime::from_timestamp_micros(-1),
        DateTime::from_timestamp_nanos(-1),
        datetime(1969, 12, 31, 23, 59, 59) - TimeInterval::new(0, 1),
        datetime(1969, 12, 31, 23, 59, 59) + TimeInterval::new(0, 999_999_999),
    ] {
        assert!(dt.nanosecond() < 1_000_000_000);
    }
}

#[test]
fn negative_intervals_round_their_seconds_down() {
    let interval = TimeInterval::from_milliseconds(-2_500);
    assert_eq!(interval.seconds(), -3);
    assert_eq!(interval.nanoseconds(), 500_000_000);
    assert_eq!(interval.as_nanoseconds(), -2_500_000_000);
    assert_eq!(interval.as_microseconds(), -2_500_000);
    assert_eq!(interval.as_milliseconds(), -2_500);
    let short = TimeInterval::from_nanoseconds(-1);
    assert_eq!(short.seconds(), -1);
    assert_eq!(short.nanoseconds(), 999_999_999);
    assert_eq!(short.as_milliseconds(), -1);
    assert_eq!(short.as_microseconds(), -1);
}

#[test]
fn scalar_product_and_quotient_of_negative_intervals() {
    let interval = TimeInterval::new(-3, 500_000_000) * 3;
    assert_eq!(interval.as_nanoseconds(), -7_500_000_000);
    assert_eq!(interval.seconds(), -8);
    assert_eq!(interval.nanoseconds(), 500_000_000);
    let part = TimeInterval::from_nanoseconds(-7) / 2;
    assert_eq!(part.as_nanoseconds(), -3);
    assert_eq!(part.seconds(), -1);
    assert_eq!(part.nanoseconds(), 999_999_997);
    let turned = TimeInterval::new(1, 0) / -3;
    assert_eq!(turned.as_nanoseconds(), -333_333_333);
}

#[test]
fn default_interval_is_empty() {
    assert_eq!(TimeInterval::default(), TimeInterval::new(0, 0));
    assert_eq!(TimeInterval::default().as_nanoseconds(), 0);
}

#[test]
fn add_then_sub_gives_the_value_back() {
    let starts = [
        DateTime::from_timestamp(0, 0),
        DateTime::from_timestamp(-1, 999_999_999),
        datetime(2012, 4, 21, 11, 0, 0),
        DateTime::from_timestamp(1_335_020_400, 123_456_789),
    ];
    let steps = [
        TimeInterval::new(0, 0),
        TimeInterval::new(0, 500_000_000),
        TimeInterval::new(0, 999_999_999),
        TimeInterval::new(-3, 500_000_000),
        TimeInterval::new(86_400, 1),
    ];
    for t in starts {
        for i in steps {
            let there = t + i;
            let back = there - i;
            assert_eq!(back, t);
            assert_eq!(back.as_nanoseconds(), t.as_nanoseconds());
            let before = t - i;
            assert_eq!(before + i, t);
            assert_eq!((t + i) - t, i);
        }
    }
}

#[test]
fn adding_the_empty_interval_changes_nothing() {
    let t = DateTime::from_timestamp(1_335_020_400, 123_456_789);
    assert_eq!(t + TimeInterval::new(0, 0), t);
    assert_eq!(t - TimeInterval::new(0, 0), t);
}

#[test]
fn subtraction_borrows_a_second() {
    let t = DateTime::from_timestamp(0, 0) - TimeInterval::new(0, 500_000_000);
    assert_eq!(t.as_seconds(), -1);
    assert_eq!(t.nanosecond(), 500_000_000);
    let i = DateTime::from_timestamp(0, 0) - DateTime::from_timestamp(0, 500_000_000);
    assert_eq!(i.seconds(), -1);
    assert_eq!(i.nanoseconds(), 500_000_000);
}

#[test]
fn addition_carries_a_second() {
    let t = DateTime::from_timestamp(10, 999_999_999) + TimeInterval::new(0, 1);
    assert_eq!(t.as_seconds(), 11);
    assert_eq!(t.nanosecond(), 0);
}

#[test]
fn intervals_order_by_length() {
    assert!(TimeInterval::new(-1, 999_999_999) < TimeInterval::new(0, 0));
    assert!(TimeInterval::new(0, 1) > TimeInterval::new(0, 0));
    assert!(TimeInterval::new(-3, 500_000_000) < TimeInterval::new(-2, 0));
}
