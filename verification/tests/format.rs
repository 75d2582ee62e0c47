use datetime::calendar::Weekday;
use datetime::format::FormatError;
use datetime::format::Missing;
use datetime::format::WallClock;
use datetime::zone::TzError;
use datetime::DateTime;

fn datetime(year: i16, month: u8, day: u8, hour: u8, minute: u8, second: u8) -> DateTime {
    DateTime::ymd(year, month, day).hms(hour, minute, second).build()
}

#[test]
fn test_format() {
    let date = datetime(2012, 4, 21, 11, 0, 0);
    for (fmt_string, date_str) in [
        ("%Y-%m-%d", "2012-04-21"),
        ("%F", "2012-04-21"),
        ("%v", "21-Apr-2012"),
        ("%Y-%m-%d %H:%M:%S", "2012-04-21 11:00:00"),
        ("%Y-%m-%d %I:%M:%S %P", "2012-04-21 11:00:00 AM"),
        ("%H:%M:%S", "11:00:00"),
        ("%B %-d, %Y", "April 21, 2012"),
        ("%B %-d, %C%y", "April 21, 2012"),
        ("%A, %B %-d, %Y", "Saturday, April 21, 2012"),
        ("%d %h %Y", "21 Apr 2012"),
        ("%a %d %b %Y", "Sat 21 Apr 2012"),
        ("%m/%d/%y", "04/21/12"),
        ("year: %Y / day: %j", "year: 2012 / day: 112"),
        ("%%", "%"),
        ("%w %u", "6 6"),
        ("%t %n", "\t \n"),
    ] {
        assert!(date.format(fmt_string).to_string().unwrap() == date_str);
        assert!(date.format(fmt_string).eq(date_str));
    }
}

#[test]
fn test_padding() {
    let date = datetime(2024, 7, 4, 17, 30, 0);
    for (fmt_string, date_str) in
        [("%Y-%m-%d", "2024-07-04"), ("%B %-d, %Y", "July 4, 2024"), ("%-d-%h-%Y", "4-Jul-2024")]
    {
        assert!(date.format(fmt_string).to_string().unwrap() == date_str);
        assert!(date.format(fmt_string).eq(date_str));
    }
}

#[test]
fn test_debug() {
    let dt = DateTime::ymd(2012, 4, 21).hms(15, 0, 0).build();
    assert!(dt.to_debug_string().unwrap() == "2012-04-21 15:00:00");
    let dt = DateTime::ymd(2012, 4, 21).hms(15, 0, 0).nanos(500_000_000).build();
    assert!(dt.to_debug_string().unwrap() == "2012-04-21 15:00:00.500");
    let dt = DateTime::ymd(2012, 4, 21).hms(15, 0, 0).nanos(123_450_000).build();
    assert!(dt.to_debug_string().unwrap() == "2012-04-21 15:00:00.123450");
    let dt = DateTime::ymd(2012, 4, 21).hms(15, 0, 0).nanos(123_456_789).build();
    assert!(dt.to_debug_string().unwrap() == "2012-04-21 15:00:00.123456789");
}

#[test]
fn test_serde() {
    let dt = datetime(2012, 4, 21, 11, 0, 0);
    assert_eq!(dt.serialize().unwrap(), "2012-04-21T11:00:00");
    assert_eq!(DateTime::from_str("2012-04-21T11:00:00"), Ok(dt));
    let dt = DateTime::ymd(2024, 7, 4).hms(15, 30, 45).nanos(123_456_000).build();
    assert_eq!(dt.serialize().unwrap(), "2024-07-04T15:30:45.123456");
    assert_eq!(DateTime::from_str("2024-07-04T15:30:45.123456"), Ok(dt));
    let dt = DateTime::ymd(2024, 7, 4).hms(15, 30, 45).nanos(123_456_789).build();
    assert_eq!(dt.serialize().unwrap(), "2024-07-04T15:30:45.123456789");
    assert_eq!(DateTime::from_str("2024-07-04T15:30:45.123456789"), Ok(dt));
}

#[test]
fn test_serde_tz() {
    let dt = DateTime::ymd(2012, 4, 21).hms(11, 0, 0).tz("US/Eastern").unwrap().build();
    assert_eq!(dt.serialize().unwrap(), "2012-04-21T11:00:00-0400");
    assert_eq!(DateTime::from_str("2012-04-21T11:00:00-0400"), Ok(dt));
    let dt = DateTime::ymd(2012, 4, 21).hms(11, 0, 0).tz("Europe/Berlin").unwrap().build();
    assert_eq!(dt.serialize().unwrap(), "2012-04-21T11:00:00+0200");
    assert_eq!(DateTime::from_str("2012-04-21T11:00:00+0200"), Ok(dt));
}

#[test]
fn format_literals() {
    let date = datetime(2012, 4, 21, 11, 0, 0);
    assert_eq!(date.format("%B %-d, %Y").to_string().unwrap(), "April 21, 2012");
    assert_eq!(
        date.format("%Y-%m-%d %I:%M:%S %P").to_string().unwrap(),
        "2012-04-21 11:00:00 AM"
    );
}

#[test]
fn serialized_milliseconds_take_six_digits() {
    let dt = DateTime::ymd(2024, 7, 4).hms(15, 30, 45).nanos(120_000_000).build();
    assert_eq!(dt.serialize().unwrap(), "2024-07-04T15:30:45.120000");
}

#[test]
fn padding_modifiers() {
    let date = datetime(2024, 7, 4, 5, 6, 7);
    for (pattern, text) in [
        ("%d", "04"),
        ("%0d", "04"),
        ("%-d", "4"),
        ("%_d", " 4"),
        ("%_m/%_d", " 7/ 4"),
        ("%-H:%-M:%-S", "5:6:7"),
        ("%_H:%_M:%_S", " 5: 6: 7"),
        ("%j", "186"),
        ("%-j", "186"),
        ("%_Y", "2024"),
        ("%-0_d", " 4"),
        ("%_-d", "4"),
        ("%-B", "July"),
    ] {
        assert_eq!(date.format(pattern).to_string().unwrap(), text, "{}", pattern);
    }
    let early = datetime(5, 1, 9, 0, 0, 0);
    for (pattern, text) in [
        ("%Y", "0005"),
        ("%-Y", "5"),
        ("%_Y", "   5"),
        ("%C", "00"),
        ("%y", "05"),
        ("%j", "009"),
        ("%_j", "  9"),
        ("%-j", "9"),
        ("%F", "0005-01-09"),
        ("%D", "01/09/05"),
        ("%v", "09-Jan-0005"),
    ] {
        assert_eq!(early.format(pattern).to_string().unwrap(), text, "{}", pattern);
    }
}

#[test]
fn negative_years() {
    let old = datetime(-44, 3, 15, 12, 0, 0);
    for (pattern, text) in [
        ("%Y", "-044"),
        ("%-Y", "-44"),
        ("%_Y", " -44"),
        ("%C", "00"),
        ("%y", "-44"),
        ("%F", "-044-03-15"),
    ] {
        assert_eq!(old.format(pattern).to_string().unwrap(), text, "{}", pattern);
    }
    let older = datetime(-1250, 3, 15, 12, 0, 0);
    for (pattern, text) in [("%Y", "-1250"), ("%C", "-12"), ("%y", "-50"), ("%_C", "-12")] {
        assert_eq!(older.format(pattern).to_string().unwrap(), text, "{}", pattern);
    }
}

#[test]
fn fractional_seconds() {
    let dt = DateTime::ymd(2012, 4, 21).hms(15, 0, 0).nanos(1_002_003).build();
    for (pattern, text) in [
        ("%f", "001002003"),
        ("%9f", "001002003"),
        ("%.f", ".001002003"),
        ("%.9f", ".001002003"),
        ("%6f", "001002"),
        ("%.6f", ".001002"),
        ("%3f", "001"),
        ("%.3f", ".001"),
        ("%3.f", ".001"),
        ("%36f", "001002"),
        ("%S%.3f", "00.001"),
        ("%-f", "001002003"),
        ("%.3f%.6f", ".001.001002"),
        ("%.3f%f", ".001001002003"),
    ] {
        assert_eq!(dt.format(pattern).to_string().unwrap(), text, "{}", pattern);
    }
}

#[test]
fn twelve_hour_clock() {
    for (hour, text) in [
        (0, "12 AM am"),
        (1, "01 AM am"),
        (11, "11 AM am"),
        (12, "12 PM pm"),
        (13, "01 PM pm"),
        (23, "11 PM pm"),
    ] {
        let dt = datetime(2012, 4, 21, hour, 0, 0);
        assert_eq!(dt.format("%I %P %p").to_string().unwrap(), text);
    }
}

#[test]
fn weekday_numbers() {
    let sunday = datetime(2012, 4, 22, 0, 0, 0);
    assert_eq!(sunday.format("%a %A %w %u").to_string().unwrap(), "Sun Sunday 0 7");
    let monday = datetime(2012, 4, 23, 0, 0, 0);
    assert_eq!(monday.format("%a %A %w %u").to_string().unwrap(), "Mon Monday 1 1");
}

#[test]
fn month_names() {
    let names = [
        ("Jan", "January"),
        ("Feb", "February"),
        ("Mar", "March"),
        ("Apr", "April"),
        ("May", "May"),
        ("Jun", "June"),
        ("Jul", "July"),
        ("Aug", "August"),
        ("Sep", "September"),
        ("Oct", "October"),
        ("Nov", "November"),
        ("Dec", "December"),
    ];
    for month in 1..=12u8 {
        let dt = datetime(2012, month, 1, 0, 0, 0);
        let (short, long) = names[month as usize - 1];
        assert_eq!(dt.format("%b").to_string().unwrap(), short);
        assert_eq!(dt.format("%h").to_string().unwrap(), short);
        assert_eq!(dt.format("%B").to_string().unwrap(), long);
    }
}

#[test]
fn compound_directives() {
    let dt = datetime(2012, 4, 1, 5, 6, 7);
    for (pattern, text) in [
        ("%D", "04/01/12"),
        ("%F", "2012-04-01"),
        ("%v", "01-Apr-2012"),
        ("%R", "05:06"),
        ("%T", "05:06:07"),
        ("%s", "1333256767"),
    ] {
        assert_eq!(dt.format(pattern).to_string().unwrap(), text, "{}", pattern);
    }
    assert_eq!(DateTime::from_timestamp(-86_400, 0).format("%s").to_string().unwrap(), "-86400");
}

#[test]
fn offsets() {
    let plain = datetime(2012, 4, 21, 11, 0, 0);
    assert_eq!(plain.format("[%z]").to_string().unwrap(), "[]");
    let utc = DateTime::ymd(2012, 4, 21).hms(11, 0, 0).utc_offset(0).build();
    assert_eq!(utc.format("%z").to_string().unwrap(), "+0000");
    let india = DateTime::ymd(2012, 4, 21).hms(11, 0, 0).utc_offset(19_800).build();
    assert_eq!(india.format("%H:%M%z").to_string().unwrap(), "11:00+0530");
    let west = DateTime::ymd(2012, 4, 21).hms(11, 0, 0).utc_offset(-12_600).build();
    assert_eq!(west.format("%z").to_string().unwrap(), "-0330");
    let eastern = DateTime::from_timestamp(1335020400, 0).with_tz("US/Eastern");
    assert_eq!(
        eastern.format("%Y-%m-%d %H:%M:%S%z").to_string().unwrap(),
        "2012-04-21 11:00:00-0400"
    );
}

#[test]
fn format_errors() {
    let dt = datetime(2012, 4, 21, 11, 0, 0);
    assert_eq!(dt.format("%Q").to_string(), Err(FormatError::UnknownDirective));
    assert_eq!(dt.format("%Y %E %.d").to_string(), Err(FormatError::UnknownDirective));
    assert_eq!(dt.format("%.d").to_string(), Err(FormatError::MisplacedModifier));
    assert_eq!(dt.format("%3Y").to_string(), Err(FormatError::MisplacedModifier));
    assert_eq!(dt.format("%6S").to_string(), Err(FormatError::MisplacedModifier));
    assert_eq!(dt.format("%9H").to_string(), Err(FormatError::MisplacedModifier));
    assert_eq!(dt.format("%.Q").to_string(), Err(FormatError::MisplacedModifier));
    assert_eq!(dt.format("%.d %Q").to_string(), Err(FormatError::MisplacedModifier));
    assert!(!dt.format("%Q").eq(""));
    let nowhere = dt.with_tz("Atlantis/Capital");
    let unknown = Err(FormatError::TimeZone(TzError::UnknownZone));
    for pattern in ["%Y", "%d", "%a", "%j", "%H", "%M", "%S", "%I", "%p", "%T", "%F", "%z"] {
        assert_eq!(nowhere.format(pattern).to_string(), unknown, "{}", pattern);
    }
    let far = DateTime::from_timestamp(i64::MAX, 0);
    for pattern in ["%Y", "%C", "%m", "%b", "%d", "%A", "%w", "%u", "%j", "%D", "%F", "%v"] {
        assert_eq!(far.format(pattern).to_string(), Err(FormatError::OutOfCalendar), "{}", pattern);
    }
    assert_eq!(far.serialize(), Err(FormatError::OutOfCalendar));
    assert_eq!(far.to_debug_string(), Err(FormatError::OutOfCalendar));
    let first_year = DateTime::ymd(-32768, 6, 1).build();
    assert_eq!(first_year.format("%j").to_string(), Err(FormatError::OutOfCalendar));
    let before_march = DateTime::ymd(-32768, 2, 29).build();
    assert_eq!(before_march.format("%Y").to_string(), Err(FormatError::OutOfCalendar));
    assert_eq!(dt.format("%Q %.d").to_string(), Err(FormatError::UnknownDirective));
    assert_eq!(far.format("%.Y").to_string(), Err(FormatError::MisplacedModifier));
    assert_eq!(far.format("%s %Y %Q").to_string(), Err(FormatError::OutOfCalendar));
}

#[test]
fn a_pattern_fails_only_for_a_field_that_is_missing() {
    let far = DateTime::from_timestamp(i64::MAX, 5);
    assert_eq!(far.format("abc").to_string().unwrap(), "abc");
    assert_eq!(far.format("").to_string().unwrap(), "");
    assert_eq!(far.format("100%% at%t%n").to_string().unwrap(), "100% at\t\n");
    assert_eq!(far.format("%s").to_string().unwrap(), "9223372036854775807");
    assert_eq!(far.format("%f").to_string().unwrap(), "000000005");
    assert_eq!(far.format("%H:%M:%S").to_string().unwrap(), "15:30:07");
    assert_eq!(far.format("%I %P").to_string().unwrap(), "03 PM");
    assert_eq!(far.format("[%z]").to_string().unwrap(), "[]");
    let least = DateTime::from_timestamp(i64::MIN, 0);
    assert_eq!(least.format("%s %T").to_string().unwrap(), "-9223372036854775808 08:29:52");
    let first_year = DateTime::ymd(-32768, 6, 1).hms(1, 2, 3).build();
    assert_eq!(
        first_year.format("%Y-%m-%d %a %T").to_string().unwrap(),
        "-32768-06-01 Tue 01:02:03"
    );
    let before_march = DateTime::ymd(-32768, 2, 29).hms(1, 2, 3).build();
    assert_eq!(before_march.format("%T %s").to_string().unwrap(), "01:02:03 -1096220300277");
    let nowhere = DateTime::from_timestamp(86_400, 7).with_tz("Atlantis/Capital");
    assert_eq!(nowhere.format("no zone").to_string().unwrap(), "no zone");
    assert_eq!(nowhere.format("%s.%f %% %t").to_string().unwrap(), "86400.000000007 % \t");
    let zoned = DateTime::from_timestamp(i64::MAX, 0).with_tz("Europe/Berlin");
    assert_eq!(zoned.format("literal %s").to_string().unwrap(), "literal 9223372036854775807");
}

#[test]
fn noon_is_in_the_afternoon() {
    let noon = datetime(2012, 4, 21, 12, 0, 0);
    assert_eq!(noon.format("%I %P %p").to_string().unwrap(), "12 PM pm");
    let before = datetime(2012, 4, 21, 11, 59, 59);
    assert_eq!(before.format("%I %P %p").to_string().unwrap(), "11 AM am");
    let midnight = datetime(2012, 4, 21, 0, 0, 0);
    assert_eq!(midnight.format("%I %P %p").to_string().unwrap(), "12 AM am");
}

#[test]
fn pattern_edges() {
    let dt = datetime(2012, 4, 21, 11, 0, 0);
    assert_eq!(dt.format("").to_string().unwrap(), "");
    assert_eq!(dt.format("plain text").to_string().unwrap(), "plain text");
    assert_eq!(dt.format("%").to_string().unwrap(), "");
    assert_eq!(dt.format("at %").to_string().unwrap(), "at ");
    assert_eq!(dt.format("%Y%-").to_string().unwrap(), "2012");
    assert_eq!(dt.format("%Y%.3").to_string().unwrap(), "2012");
    assert_eq!(dt.format("%%Y").to_string().unwrap(), "%Y");
    assert_eq!(dt.format("100%%").to_string().unwrap(), "100%");
    assert_eq!(dt.format("caf\u{e9} %d").to_string().unwrap(), "caf\u{e9} 21");
}

#[test]
fn wall_clock_of_a_value() {
    let dt = DateTime::ymd(2012, 4, 21).hms(11, 2, 3).nanos(4).build();
    let w = dt.wall_clock();
    assert_eq!(w.missing, Missing { date: None, day_of_year: None, time: None, offset: None });
    assert_eq!(w.year, 2012);
    assert_eq!(w.month, 4);
    assert_eq!(w.day, 21);
    assert_eq!(w.weekday, Weekday::Saturday);
    assert_eq!(w.day_of_year, 112);
    assert_eq!(w.hour, 11);
    assert_eq!(w.minute, 2);
    assert_eq!(w.second, 3);
    assert_eq!(w.nanosecond, 4);
    assert_eq!(w.timestamp, dt.as_seconds());
    assert_eq!(w.offset, None);
    let zoned = dt.with_tz("Europe/Berlin").wall_clock();
    assert_eq!(zoned.hour, 13);
    assert_eq!(zoned.offset, Some(7200));
    assert_eq!(zoned.timestamp, dt.as_seconds());
    let far = DateTime::from_timestamp(i64::MAX, 9).wall_clock();
    assert_eq!(far.missing.date, Some(FormatError::OutOfCalendar));
    assert_eq!(far.missing.day_of_year, Some(FormatError::OutOfCalendar));
    assert_eq!(far.missing.time, None);
    assert_eq!(far.missing.offset, None);
    assert_eq!((far.hour, far.minute, far.second, far.nanosecond), (15, 30, 7, 9));
    assert_eq!((far.year, far.month, far.day, far.day_of_year), (0, 0, 0, 0));
    let nowhere = DateTime::from_timestamp(0, 0).with_tz("Atlantis/Capital").wall_clock();
    let unknown = Some(FormatError::TimeZone(TzError::UnknownZone));
    assert_eq!(
        nowhere.missing,
        Missing { date: unknown, day_of_year: unknown, time: unknown, offset: unknown }
    );
}

#[test]
fn formatting_plain_fields() {
    let w = WallClock {
        missing: Missing { date: None, day_of_year: None, time: None, offset: None },
        year: 1999,
        month: 12,
        day: 31,
        weekday: Weekday::Friday,
        day_of_year: 365,
        hour: 23,
        minute: 59,
        second: 58,
        nanosecond: 999_000_000,
        timestamp: 946_684_798,
        offset: Some(-3_600),
    };
    assert_eq!(
        w.format("%a %d %b %Y %T%.3f %z (%j) %s").unwrap(),
        "Fri 31 Dec 1999 23:59:58.999 -0100 (365) 946684798"
    );
    assert_eq!(w.format("%i"), Err(FormatError::UnknownDirective));
    let timeless = WallClock {
        missing: Missing { time: Some(FormatError::OutOfCalendar), ..w.missing },
        ..w
    };
    assert_eq!(timeless.format("%Y %j").unwrap(), "1999 365");
    assert_eq!(timeless.format("%Y %H"), Err(FormatError::OutOfCalendar));
}
