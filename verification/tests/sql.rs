use datetime::DateTime;
use datetime::Precision;

fn datetime(year: i16, month: u8, day: u8, hour: u8, minute: u8, second: u8) -> DateTime {
    DateTime::ymd(year, month, day).hms(hour, minute, second).build()
}

#[test]
fn test_from_sql() {
    for (precision, multiplier) in [
        (Precision::Second, 1),
        (Precision::Millisecond, 1_000),
        (Precision::Microsecond, 1_000_000),
        (Precision::Nanosecond, 1_000_000_000),
    ] {
        let dt = DateTime::from_units(precision, 1335020400 * multiplier);
        assert!(dt == datetime(2012, 4, 21, 15, 0, 0));
    }
}

#[test]
fn test_to_sql() {
    let dt = datetime(2012, 4, 21, 15, 0, 0);
    let output = dt.to_units();
    if let Some((Precision::Second, seconds)) = output {
        assert!(seconds == 1335020400);
    } else {
        panic!("Incorrect type");
    }
}

#[test]
fn units_follow_the_precision() {
    let dt = DateTime::from_timestamp(5, 250_000_000);
    assert_eq!(dt.to_units(), Some((Precision::Millisecond, 5_250)));
    let dt = DateTime::from_timestamp(5, 250_001_000);
    assert_eq!(dt.to_units(), Some((Precision::Microsecond, 5_250_001)));
    let dt = DateTime::from_timestamp(5, 250_001_001);
    assert_eq!(dt.to_units(), Some((Precision::Nanosecond, 5_250_001_001)));
    let dt = DateTime::from_timestamp(-1, 999_000_000);
    assert_eq!(dt.to_units(), Some((Precision::Millisecond, -1)));
    let dt = DateTime::from_timestamp(i64::MAX, 0);
    assert_eq!(dt.to_units(), Some((Precision::Second, i64::MAX)));
}

#[test]
fn counts_beyond_sixty_four_bits_have_no_units() {
    assert_eq!(DateTime::from_timestamp(i64::MAX, 1).to_units(), None);
    assert_eq!(DateTime::from_timestamp(i64::MAX, 1_000).to_units(), None);
    assert_eq!(DateTime::from_timestamp(i64::MIN, 1_000_000).to_units(), None);
    assert_eq!(DateTime::from_timestamp(i64::MAX, 0).to_postgres(), None);
    assert_eq!(DateTime::from_timestamp(i64::MIN, 0).to_postgres(), None);
}

#[test]
fn units_before_the_epoch() {
    let dt = DateTime::from_units(Precision::Millisecond, -2_400);
    assert_eq!(dt.as_seconds(), -3);
    assert_eq!(dt.nanosecond(), 600_000_000);
    let dt = DateTime::from_units(Precision::Nanosecond, -1);
    assert_eq!(dt.as_seconds(), -1);
    assert_eq!(dt.nanosecond(), 999_999_999);
    let dt = DateTime::from_units(Precision::Second, i64::MIN);
    assert_eq!(dt.as_seconds(), i64::MIN);
}

#[test]
fn postgres_counts_microseconds_from_the_year_2000() {
    let epoch = datetime(2000, 1, 1, 0, 0, 0);
    assert_eq!(epoch.as_seconds(), 946_684_800);
    assert_eq!(epoch.to_postgres(), Some(0));
    assert_eq!(DateTime::from_postgres(0), epoch);
    let dt = DateTime::ymd(2012, 4, 21).hms(15, 0, 0).nanos(123_456_789).build();
    assert_eq!(dt.to_postgres(), Some((1335020400 - 946_684_800) * 1_000_000 + 123_456));
    let back = DateTime::from_postgres((1335020400 - 946_684_800) * 1_000_000 + 123_456);
    assert_eq!(back, DateTime::ymd(2012, 4, 21).hms(15, 0, 0).nanos(123_456_000).build());
    let before = DateTime::from_postgres(-1);
    assert_eq!(before.as_seconds(), 946_684_799);
    assert_eq!(before.nanosecond(), 999_999_000);
    assert_eq!(before.to_postgres(), Some(-1));
    let whole = DateTime::from_postgres(-2_000_000);
    assert_eq!(whole.as_seconds(), 946_684_798);
    assert_eq!(whole.nanosecond(), 0);
    assert_eq!(DateTime::from_timestamp(0, 1).to_postgres(), Some(-946_684_800_000_000));
    assert_eq!(DateTime::from_timestamp(-1, 999_999_999).to_postgres(), Some(-946_684_800_000_001));
    assert_eq!(DateTime::from_postgres(i64::MAX).to_postgres(), Some(i64::MAX));
    assert_eq!(DateTime::from_postgres(i64::MIN).to_postgres(), Some(i64::MIN));
}
