use metw_id::clock::{check_reading, ClockStep, MAX_CLOCK_SKEW};
use metw_id::id::Id;
use metw_id::span::request_span_name;
use std::str::FromStr;

#[test]
fn reading_ahead_is_accepted() {
    assert_eq!(check_reading(1000, 999), ClockStep::Accept(1000));
    assert_eq!(check_reading(1000, 1000), ClockStep::Accept(1000));
}

#[test]
fn small_skew_is_waited_out() {
    assert_eq!(check_reading(1000, 1001), ClockStep::Wait(1));
    assert_eq!(check_reading(1000, 1000 + MAX_CLOCK_SKEW), ClockStep::Wait(5000));
}

#[test]
fn large_skew_is_detected() {
    assert_eq!(check_reading(1000, 6001), ClockStep::Skew(5001));
}

#[test]
fn accepted_readings_never_decrease() {
    let mut last = 0;
    let mut handed_out = Vec::new();
    for now in [5, 3, 7, 7, 6, 20, 10000, 4000] {
        if let ClockStep::Accept(t) = check_reading(now, last) {
            handed_out.push(t);
            last = t;
        }
    }
    assert_eq!(handed_out, vec![5, 7, 7, 20, 10000]);
}

#[test]
fn id_text_round_trip() {
    for value in [0i64, 1, -1, 42, i64::MAX, i64::MIN, 7_000_000_000_000_000_000] {
        let id = Id::from(value);
        let text = id.to_string();
        assert_eq!(text, value.to_string());
        assert_eq!(Id::parse(&text).unwrap(), id);
        assert_eq!(Id::from_str(&text).unwrap(), id);
    }
}

#[test]
fn id_text_exact() {
    assert_eq!(Id::from(-120).to_string(), "-120");
    assert_eq!(Id::parse("+17").map(i64::from), Ok(17));
    assert_eq!(Id::parse("007").map(i64::from), Ok(7));
}

#[test]
fn id_parse_errors() {
    for text in ["", "+", "-", " 1", "1 ", "12a", "9223372036854775808", "-9223372036854775809", "1.5"] {
        assert!(Id::parse(text).is_err(), "{text:?}");
    }
}

#[test]
fn id_order_follows_value() {
    assert!(Id::from(-5) < Id::from(3));
    assert!(Id::from(3) > Id::from(-5));
    assert!(Id::from(3) <= Id::from(3));
    assert_eq!(Id::from(8).cmp(&Id::from(9)), std::cmp::Ordering::Less);
    assert_eq!(i64::from(Id::from(99)), 99);
}

#[test]
fn span_name_with_matched_path() {
    assert_eq!(request_span_name(true, "GET", Some("/{id}")), Some("GET /{id}".to_string()));
}

#[test]
fn span_name_without_otel_or_path() {
    assert_eq!(request_span_name(false, "GET", Some("/{id}")), None);
    assert_eq!(request_span_name(true, "POST", None), None);
}
