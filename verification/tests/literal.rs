use datetime::interval::TimeInterval;
use datetime::literal::nanoseconds;
use datetime::literal::Fault;
use datetime::literal::LiteralError;

fn fault(literal: &str) -> Fault {
    nanoseconds(literal).unwrap_err().fault
}

fn pair(literal: &str) -> (i64, u32) {
    let interval = nanoseconds(literal).unwrap();
    (interval.seconds(), interval.nanoseconds())
}

#[test]
fn units_out_of_order_are_rejected() {
    assert_eq!(fault("1h2d"), Fault::OutOfOrder);
    assert_eq!(fault("1s1m"), Fault::OutOfOrder);
    assert_eq!(fault("1m1h"), Fault::OutOfOrder);
    assert_eq!(fault("1d1s1m"), Fault::OutOfOrder);
    assert_eq!(fault("48h1d"), Fault::OutOfOrder);
}

#[test]
fn units_declared_twice_are_rejected() {
    assert_eq!(fault("1h2h"), Fault::Repeated);
    assert_eq!(fault("1d1d"), Fault::Repeated);
    assert_eq!(fault("1d2h3d"), Fault::Repeated);
    assert_eq!(fault("1s2s"), Fault::Repeated);
    assert_eq!(fault("2s0.5s"), Fault::Repeated);
}

#[test]
fn fractional_seconds_literals() {
    assert_eq!(pair("1.5s"), (1, 500_000_000));
    assert_eq!(pair("-1.5s"), (-2, 500_000_000));
    assert_eq!(pair("-2.5s"), (-3, 500_000_000));
    assert_eq!(pair("+2.5s"), (2, 500_000_000));
    assert_eq!(pair("1.000000001s"), (1, 1));
    assert_eq!(pair("1.123456789s"), (1, 123_456_789));
    assert_eq!(pair("1.1s"), (1, 100_000_000));
    assert_eq!(pair("1.01s"), (1, 10_000_000));
    assert_eq!(pair("3.0s"), (3, 0));
    assert_eq!(pair("-3.0s"), (-3, 0));
    assert_eq!(pair("1m0.25s"), (60, 250_000_000));
    assert_eq!(pair("-1m0.25s"), (-61, 750_000_000));
}

#[test]
fn whole_units() {
    assert_eq!(pair("1d12h30m"), (86_400 + 12 * 3_600 + 30 * 60, 0));
    assert_eq!(pair("-1d12h30m"), (-(86_400 + 12 * 3_600 + 30 * 60), 0));
    assert_eq!(pair("1d"), (86_400, 0));
    assert_eq!(pair("2h"), (7_200, 0));
    assert_eq!(pair("90m"), (5_400, 0));
    assert_eq!(pair("45s"), (45, 0));
    assert_eq!(pair("1d1h1m1s"), (90_061, 0));
    assert_eq!(pair("+1h30m"), (5_400, 0));
    assert_eq!(pair("007s"), (7, 0));
    assert_eq!(pair("0s"), (0, 0));
    assert_eq!(pair("-0s"), (0, 0));
    assert_eq!(pair("1d24h"), (172_800, 0));
    assert_eq!(pair("1h60m"), (7_200, 0));
    assert_eq!(nanoseconds("1d12h30m"), Ok(TimeInterval::new(131_400, 0)));
}

#[test]
fn empty_literals_are_empty_intervals() {
    assert_eq!(pair(""), (0, 0));
    assert_eq!(pair("-"), (0, 0));
    assert_eq!(pair("+"), (0, 0));
}

#[test]
fn a_unit_larger_than_what_stands_before_it_is_rejected() {
    assert_eq!(fault("1h90m"), Fault::OutOfOrder);
    assert_eq!(fault("1d25h"), Fault::OutOfOrder);
    assert_eq!(fault("1m61s"), Fault::OutOfOrder);
    assert_eq!(fault("0h30m"), Fault::OutOfOrder);
    assert_eq!(pair("2h90m"), (12_600, 0));
    assert_eq!(pair("1h0m"), (3_600, 0));
}

#[test]
fn seconds_that_are_not_positive_borrow_for_their_nanoseconds() {
    assert_eq!(pair("-0.5s"), (-1, 500_000_000));
    assert_eq!(pair("0.5s"), (-1, 500_000_000));
    assert_eq!(pair("0.000000001s"), (-1, 999_999_999));
    assert_eq!(pair("-1.25s"), (-2, 750_000_000));
}

#[test]
fn fractional_seconds_declared_twice_are_rejected() {
    assert_eq!(fault("1.5.5s"), Fault::RepeatedFraction);
    assert_eq!(fault("1.5s0.5s"), Fault::RepeatedFraction);
    assert_eq!(fault("1.5.s"), Fault::RepeatedFraction);
}

#[test]
fn fractional_seconds_of_more_than_nine_digits_are_rejected() {
    assert_eq!(fault("1.0000000001s"), Fault::TooPrecise);
    assert_eq!(fault("1.1234567891s"), Fault::TooPrecise);
    assert_eq!(fault("1.12345678912345678912345s"), Fault::TooPrecise);
}

#[test]
fn malformed_literals_are_rejected() {
    for literal in [
        "d", "1", "1x", "1 d", " 1d", "1d ", "--1d", "1d-2h", "1.5m", "1.5", "1.s", ".5s", "1.5h",
        "1.d", "s", "1D", "1.5S", "1,5s", "+-1s", "1d2", "1.5x", "1..5s",
    ] {
        assert_eq!(fault(literal), Fault::Malformed, "{}", literal);
    }
}

#[test]
fn literals_beyond_sixty_four_bits_are_rejected() {
    assert_eq!(pair("9223372036854775807s"), (i64::MAX, 0));
    assert_eq!(pair("-9223372036854775807s"), (-i64::MAX, 0));
    assert_eq!(pair("-9223372036854775807.5s"), (i64::MIN, 500_000_000));
    assert_eq!(fault("9223372036854775808s"), Fault::TooLarge);
    assert_eq!(fault("99999999999999999999999999999999999999999999s"), Fault::TooLarge);
    assert_eq!(fault("106751991167301d"), Fault::TooLarge);
    assert_eq!(pair("106751991167300d"), (106_751_991_167_300 * 86_400, 0));
    assert_eq!(fault("1d99999999999999999999999999999999999999999999h"), Fault::OutOfOrder);
    assert_eq!(fault("99999999999999999999999999999999999999999999x"), Fault::Malformed);
}

#[test]
fn an_error_names_the_offending_unit() {
    assert_eq!(
        nanoseconds("1h2d"),
        Err(LiteralError { fault: Fault::OutOfOrder, at: 2, unit: Some('d') })
    );
    assert_eq!(
        nanoseconds("1h2h"),
        Err(LiteralError { fault: Fault::Repeated, at: 2, unit: Some('h') })
    );
    assert_eq!(
        nanoseconds("-1d12h9000m"),
        Err(LiteralError { fault: Fault::OutOfOrder, at: 6, unit: Some('m') })
    );
    assert_eq!(
        nanoseconds("1d2x"),
        Err(LiteralError { fault: Fault::Malformed, at: 2, unit: Some('x') })
    );
    assert_eq!(
        nanoseconds("1d2"),
        Err(LiteralError { fault: Fault::Malformed, at: 2, unit: None })
    );
    assert_eq!(
        nanoseconds("+1dh"),
        Err(LiteralError { fault: Fault::Malformed, at: 3, unit: None })
    );
    assert_eq!(
        nanoseconds("1m1.5.5s"),
        Err(LiteralError { fault: Fault::RepeatedFraction, at: 2, unit: None })
    );
    assert_eq!(
        nanoseconds("1m1.5s0.5s"),
        Err(LiteralError { fault: Fault::RepeatedFraction, at: 6, unit: None })
    );
    assert_eq!(
        nanoseconds("1m1.0123456789s"),
        Err(LiteralError { fault: Fault::TooPrecise, at: 2, unit: None })
    );
    assert_eq!(
        nanoseconds("1d9223372036854775807s"),
        Err(LiteralError { fault: Fault::OutOfOrder, at: 2, unit: Some('s') })
    );
    assert_eq!(
        nanoseconds("106751991167301d"),
        Err(LiteralError { fault: Fault::TooLarge, at: 0, unit: Some('d') })
    );
    assert_eq!(
        nanoseconds("1m2.5s3s"),
        Err(LiteralError { fault: Fault::Repeated, at: 6, unit: Some('s') })
    );
}
