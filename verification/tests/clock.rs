use chrono::{DateTime, Utc};
use screen_memory::clock::{
    clock_millis, current_time, folder_stamp, hours_before, is_kept, minutes_before, now_iso,
    parse_stamp, stamp_is_kept, write_stamp, UtcTime, FIVE_DIGIT_YEAR_SECS, MAX_UTC_SECS,
    MIN_UTC_SECS, NANOS_PER_SEC,
};

fn at(secs: i64, nanos: u32) -> UtcTime {
    UtcTime { secs, nanos }
}

#[test]
fn bounds_are_those_of_the_calendar() {
    assert_eq!(MIN_UTC_SECS, DateTime::<Utc>::MIN_UTC.timestamp());
    assert_eq!(MAX_UTC_SECS, DateTime::<Utc>::MAX_UTC.timestamp());
    assert_eq!(write_stamp(at(FIVE_DIGIT_YEAR_SECS - 1, 0)), "9999-12-31T23:59:59+00:00");
    assert_eq!(write_stamp(at(FIVE_DIGIT_YEAR_SECS, 0)), "+10000-01-01T00:00:00+00:00");
    assert!(DateTime::from_timestamp(MAX_UTC_SECS, NANOS_PER_SEC - 1).is_some());
}

#[test]
fn the_clock_is_read() {
    let before = Utc::now();
    let now = current_time();
    let after = Utc::now();
    let read = DateTime::from_timestamp(now.secs, now.nanos).unwrap();
    assert!(before <= read && read <= after);
    assert!(now.secs >= 0 && now.nanos < NANOS_PER_SEC);
}

#[test]
fn stamps_have_their_text() {
    assert_eq!(write_stamp(at(0, 0)), "1970-01-01T00:00:00+00:00");
    assert_eq!(write_stamp(at(1_704_067_200, 0)), "2024-01-01T00:00:00+00:00");
    assert_eq!(write_stamp(at(1_704_067_200, 500_000_000)), "2024-01-01T00:00:00.500+00:00");
    assert_eq!(write_stamp(at(1_704_067_200, 500_001_000)), "2024-01-01T00:00:00.500001+00:00");
    assert_eq!(write_stamp(at(1_704_067_200, 1)), "2024-01-01T00:00:00.000000001+00:00");
}

#[test]
fn stamps_are_read() {
    let read = parse_stamp("2024-01-01T01:30:00.25+01:00").unwrap();
    assert_eq!((read.secs, read.nanos), (1_704_067_200 + 1800, 250_000_000));
    let before_1970 = parse_stamp("1969-12-31T23:59:59.75Z").unwrap();
    assert_eq!((before_1970.secs, before_1970.nanos), (-1, 750_000_000));
    for text in ["", "yesterday", "2024-01-01", "2024-13-01T00:00:00Z", "2024-01-01T00:00:00"] {
        assert!(parse_stamp(text).is_none(), "{text:?}");
    }
}

#[test]
fn a_stamp_reads_back_as_its_time() {
    for secs in [0, 1, 951_782_400, 1_704_067_200, 1_735_689_599, FIVE_DIGIT_YEAR_SECS - 1] {
        for nanos in [0, 1, 999, 1_000, 999_999, 1_000_000, 123_456_789, NANOS_PER_SEC - 1] {
            let read = parse_stamp(&write_stamp(at(secs, nanos))).unwrap();
            assert_eq!((read.secs, read.nanos), (secs, nanos));
        }
    }
}

#[test]
fn stamps_sort_as_their_times() {
    let mut times: Vec<(i64, u32)> = Vec::new();
    for secs in [0, 1, 9, 1_704_067_199, 1_704_067_200, FIVE_DIGIT_YEAR_SECS - 1] {
        for nanos in [
            0,
            1,
            999,
            1_000,
            1_001,
            100_000_000,
            100_000_001,
            100_001_000,
            500_000_000,
            NANOS_PER_SEC - 1,
        ] {
            times.push((secs, nanos));
        }
    }
    for a in &times {
        for b in &times {
            assert_eq!(write_stamp(at(a.0, a.1)) <= write_stamp(at(b.0, b.1)), a <= b);
        }
    }
}

#[test]
fn now_iso_is_a_stamp_of_now() {
    let before = Utc::now();
    let text = now_iso();
    let after = Utc::now();
    let read = DateTime::parse_from_rfc3339(&text).unwrap().with_timezone(&Utc);
    assert!(before <= read && read <= after);
    assert_eq!(text, read.to_rfc3339());
}

#[test]
fn milliseconds_are_counted_from_1970() {
    assert_eq!(clock_millis(at(0, 999_999)), 0);
    assert_eq!(clock_millis(at(0, 1_000_000)), 1);
    assert_eq!(clock_millis(at(1_704_067_200, 987_654_321)), 1_704_067_200_987);
    assert_eq!(clock_millis(at(MAX_UTC_SECS, 999_999_999)), 8_210_266_876_799_999);
}

#[test]
fn minutes_and_hours_are_taken_off() {
    let now = at(1_704_067_200, 123);
    let earlier = minutes_before(now, 30);
    assert_eq!((earlier.secs, earlier.nanos), (1_704_067_200 - 1800, 123));
    let earlier = hours_before(now, 24);
    assert_eq!((earlier.secs, earlier.nanos), (1_704_067_200 - 86_400, 123));
    let earlier = minutes_before(at(59, 999_999_999), 1);
    assert_eq!((earlier.secs, earlier.nanos), (-1, 999_999_999));
    let same = hours_before(now, 0);
    assert_eq!((same.secs, same.nanos), (now.secs, now.nanos));
    let first = hours_before(at(0, 5), 2_315_167_008);
    assert_eq!((first.secs, first.nanos), (MIN_UTC_SECS, 5));
}

#[test]
fn an_export_folder_is_named_after_its_time() {
    assert_eq!(folder_stamp(at(1_704_067_200, 999)), "2024-01-01-000000");
    assert_eq!(folder_stamp(at(951_827_696, 0)), "2000-02-29-123456");
}

#[test]
fn a_cutoff_keeps_what_is_not_older() {
    let cutoff = at(100, 50);
    assert!(is_kept(Some(at(100, 50)), cutoff));
    assert!(is_kept(Some(at(100, 51)), cutoff));
    assert!(is_kept(Some(at(101, 0)), cutoff));
    assert!(!is_kept(Some(at(100, 49)), cutoff));
    assert!(!is_kept(Some(at(99, 999)), cutoff));
    assert!(is_kept(None, cutoff));
}

#[test]
fn a_stamp_is_held_against_a_cutoff() {
    let cutoff = at(1_704_067_200, 0);
    assert!(stamp_is_kept("2024-01-01T00:00:00Z", cutoff));
    assert!(!stamp_is_kept("2023-12-31T23:59:59.999Z", cutoff));
    assert!(stamp_is_kept("2023-12-31T20:00:00-05:00", cutoff));
    assert!(stamp_is_kept("not a stamp", cutoff));
}

#[test]
fn an_earlier_cutoff_keeps_more() {
    let stamp = "2024-01-01T00:00:00Z";
    let late = at(1_704_067_200, 0);
    assert!(stamp_is_kept(stamp, late));
    assert!(stamp_is_kept(stamp, minutes_before(late, 1)));
    assert!(!stamp_is_kept(stamp, at(1_704_067_200, 1)));
}

#[test]
fn a_leap_second_lies_between_its_neighbours() {
    let leap = parse_stamp("2016-12-31T23:59:60Z").unwrap();
    let before = parse_stamp("2016-12-31T23:59:59.999999999Z").unwrap();
    let after = parse_stamp("2017-01-01T00:00:00Z").unwrap();
    assert!(before.is_earlier_than(leap));
    assert!(leap.is_earlier_than(after));
    assert_eq!(leap.secs, before.secs);
    assert_eq!(leap.nanos, NANOS_PER_SEC);
}
