use chrono::{DateTime, Utc};
use kalshi_mm::market_finder::time_to_expiry;
use kalshi_mm::time::Timestamp;
use kalshi_mm::utc::UtcTime;

fn plain(t: DateTime<Utc>) -> UtcTime {
    UtcTime { secs: t.timestamp(), nanos: t.timestamp_subsec_nanos() }
}

const TEXTS: [&str; 10] = [
    "2025-03-01T12:00:00Z",
    "2025-03-01T12:00:00.5Z",
    "2025-03-01T12:00:01.25Z",
    "2016-12-31T23:59:60Z",
    "2016-12-31T23:59:60.75Z",
    "2017-01-01T00:00:00Z",
    "2016-12-31T23:59:59.9Z",
    "1969-12-31T23:59:59Z",
    "0000-01-01T00:00:00+23:59",
    "9999-12-31T23:59:59-23:59",
];

#[test]
fn texts_are_read_as_points_in_time() {
    assert_eq!(
        UtcTime::parse("1970-01-01T01:00:00.000000007+01:00"),
        Some(UtcTime { secs: 0, nanos: 7 })
    );
    assert_eq!(UtcTime::parse("2025-03-01"), None);
    assert_eq!(UtcTime::parse(""), None);
    assert_eq!(UtcTime::parse("9999"), None);
}

#[test]
fn differences_agree_with_the_calendar_library() {
    for a in TEXTS {
        for b in TEXTS {
            let x: DateTime<Utc> = DateTime::parse_from_rfc3339(a).unwrap().with_timezone(&Utc);
            let y: DateTime<Utc> = DateTime::parse_from_rfc3339(b).unwrap().with_timezone(&Utc);
            assert_eq!(UtcTime::parse(a), Some(plain(x)));
            assert_eq!(
                plain(x).seconds_since(plain(y)),
                (x - y).num_seconds(),
                "{} - {}",
                a,
                b
            );
        }
    }
}

#[test]
fn a_second_later_there_is_a_second_less() {
    let close = UtcTime { secs: 1000, nanos: 500_000_000 };
    let a = close.seconds_since(UtcTime { secs: 900, nanos: 0 });
    let b = close.seconds_since(UtcTime { secs: 910, nanos: 0 });
    assert_eq!((a, b), (100, 90));
}

#[test]
fn time_left_is_never_negative() {
    let close = Some(UtcTime { secs: 1000, nanos: 0 });
    assert_eq!(time_to_expiry(close, UtcTime { secs: 940, nanos: 1 }), 59);
    assert_eq!(time_to_expiry(close, UtcTime { secs: 2000, nanos: 0 }), 0);
    assert_eq!(time_to_expiry(None, UtcTime { secs: 2000, nanos: 0 }), i64::MAX);
}

#[test]
fn monotonic_time_does_not_run_backwards() {
    let a = Timestamp { nanos: 5 };
    let b = Timestamp { nanos: 9 };
    assert_eq!(b.duration_since(a), 4);
    assert_eq!(a.duration_since(b), 0);
}
