use idioms::duration::{parse_duration_string, scan_duration, DurationWrapper, Scan};
use std::time::Duration;

fn length(secs: u64, nanos: u32) -> DurationWrapper {
    DurationWrapper::new(secs, nanos).unwrap()
}

#[test]
fn scan_reads_each_unit() {
    assert_eq!(scan_duration("1s"), Scan::Done(length(1, 0)));
    assert_eq!(scan_duration("2m"), Scan::Done(length(120, 0)));
    assert_eq!(scan_duration("3h"), Scan::Done(length(10_800, 0)));
    assert_eq!(scan_duration("250ms"), Scan::Done(length(0, 250_000_000)));
    assert_eq!(scan_duration("1500ms"), Scan::Done(length(1, 500_000_000)));
}

#[test]
fn scan_adds_the_parts_up() {
    assert_eq!(scan_duration("1h30m"), Scan::Done(length(5400, 0)));
    assert_eq!(scan_duration("1h1m1s1ms"), Scan::Done(length(3661, 1_000_000)));
    assert_eq!(scan_duration("1s1s1s"), Scan::Done(length(3, 0)));
    assert_eq!(scan_duration("999ms999ms"), Scan::Done(length(1, 998_000_000)));
}

#[test]
fn scan_counts_a_number_without_a_unit_as_seconds() {
    assert_eq!(scan_duration("90"), Scan::Done(length(90, 0)));
    assert_eq!(scan_duration("1m30"), Scan::Done(length(90, 0)));
    assert_eq!(scan_duration("0"), Scan::Done(length(0, 0)));
}

#[test]
fn scan_of_nothing_is_no_time() {
    assert_eq!(scan_duration(""), Scan::Done(length(0, 0)));
    assert_eq!(scan_duration("  \t\n"), Scan::Done(length(0, 0)));
    assert_eq!(scan_duration("s"), Scan::Done(length(0, 0)));
    assert_eq!(scan_duration("ms"), Scan::Done(length(0, 0)));
}

#[test]
fn scan_skips_white_space() {
    assert_eq!(scan_duration(" 1 h 3 0 m "), Scan::Done(length(5400, 0)));
    assert_eq!(scan_duration("5 m s"), Scan::Done(length(0, 5_000_000)));
    assert_eq!(scan_duration("5m\u{a0}s"), Scan::Done(length(0, 5_000_000)));
    assert_eq!(scan_duration("5m\u{3000}7s"), Scan::Done(length(307, 0)));
}

#[test]
fn scan_refuses_what_is_no_unit() {
    assert_eq!(scan_duration("5d"), Scan::InvalidUnit);
    assert_eq!(scan_duration("5ns"), Scan::InvalidUnit);
    assert_eq!(scan_duration("-5s"), Scan::InvalidUnit);
    assert_eq!(scan_duration("1.5s"), Scan::InvalidUnit);
    assert_eq!(scan_duration("5S"), Scan::InvalidUnit);
    assert_eq!(scan_duration("\u{663}s"), Scan::InvalidUnit);
}

#[test]
fn scan_stops_at_what_is_too_long() {
    assert_eq!(scan_duration("18446744073709551615s"), Scan::Done(length(u64::MAX, 0)));
    assert_eq!(scan_duration("18446744073709551616s"), Scan::TooLong);
    assert_eq!(scan_duration("18446744073709551615s1s"), Scan::TooLong);
    assert_eq!(scan_duration("18446744073709551615m"), Scan::TooLong);
    assert_eq!(scan_duration("307445734561825861m"), Scan::TooLong);
    assert_eq!(scan_duration("307445734561825860m"), Scan::Done(length(u64::MAX - 15, 0)));
    assert_eq!(scan_duration("5124095576030432h"), Scan::TooLong);
    assert_eq!(scan_duration("18446744073709551615s999ms"), Scan::Done(length(u64::MAX, 999_000_000)));
    assert_eq!(scan_duration("18446744073709551615s1000ms"), Scan::TooLong);
    // the number is too long before the bad unit is seen
    assert_eq!(scan_duration("99999999999999999999x"), Scan::TooLong);
}

#[test]
fn scan_agrees_with_the_standard_durations() {
    let expected = Duration::from_secs(2 * 3600) + Duration::from_secs(5 * 60)
        + Duration::from_secs(7) + Duration::from_millis(12_345);
    let Scan::Done(got) = scan_duration("2h5m7s12345ms") else { panic!("a length") };
    assert_eq!(got.as_secs(), expected.as_secs());
    assert_eq!(got.subsec_nanos(), expected.subsec_nanos());
}

#[test]
fn parse_gives_the_length_or_the_error() {
    assert_eq!(parse_duration_string("1h30m"), Ok(length(5400, 0)));
    assert_eq!(parse_duration_string("1d"), Err("Invalid duration unit".to_string()));
}

#[test]
fn a_length_is_seconds_and_nanoseconds() {
    let d = length(7, 999_999_999);
    assert_eq!(d.as_secs(), 7);
    assert_eq!(d.subsec_nanos(), 999_999_999);
    assert_eq!(DurationWrapper::new(7, 1_000_000_000), None);
}

#[test]
fn a_length_is_written_part_by_part() {
    assert_eq!(length(0, 0).to_text(), "");
    assert_eq!(length(1, 0).to_text(), "1s");
    assert_eq!(length(60, 0).to_text(), "1m");
    assert_eq!(length(3600, 0).to_text(), "1h");
    assert_eq!(length(5400, 0).to_text(), "1h30m");
    assert_eq!(length(3661, 5_000_001).to_text(), "1h1m1s5ms1ns");
    assert_eq!(length(0, 250_000_000).to_text(), "250ms");
    assert_eq!(length(0, 999).to_text(), "999ns");
    assert_eq!(length(36_000, 10_000_100).to_text(), "10h10ms100ns");
    assert_eq!(length(u64::MAX, 999_999_999).to_text(), "5124095576030431h15s999ms999999ns");
}

#[test]
fn a_written_length_is_read_back() {
    for d in [length(0, 0), length(59, 0), length(3600, 0), length(86_399, 999_000_000)] {
        assert_eq!(scan_duration(&d.to_text()), Scan::Done(d));
    }
}
