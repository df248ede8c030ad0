use chrono::{DateTime, Duration, Utc};
use niconico_watcher::schedule::{wait_duration, Delay};
use niconico_watcher::video::Timestamp;

fn timestamp(t: DateTime<Utc>) -> Timestamp {
    Timestamp { secs: t.timestamp(), nanos: t.timestamp_subsec_nanos() }
}

#[test]
fn time_test_time_test() {
    let now = Utc::now();
    // A time ahead is waited for.
    assert_eq!(
        wait_duration(timestamp(now + Duration::seconds(1)), timestamp(now)),
        Some(Delay { secs: 1, nanos: 0 })
    );
    // A time already gone is skipped.
    assert_eq!(wait_duration(timestamp(now - Duration::seconds(10)), timestamp(now)), None);
}

#[test]
fn time_time_test() {
    let now = Utc::now();
    assert!(wait_duration(timestamp(now + Duration::seconds(1)), timestamp(now)).is_some());
    assert!(wait_duration(timestamp(now - Duration::seconds(10)), timestamp(now)).is_none());
}

#[test]
fn delays_exact() {
    let at = Timestamp { secs: 100, nanos: 200 };
    let now = Timestamp { secs: 98, nanos: 500_000_000 };
    assert_eq!(wait_duration(at, now), Some(Delay { secs: 1, nanos: 500_000_200 }));
    assert_eq!(wait_duration(now, now), Some(Delay { secs: 0, nanos: 0 }));
    assert_eq!(wait_duration(now, at), None);
    let past = Timestamp { secs: -5, nanos: 10 };
    assert_eq!(wait_duration(Timestamp { secs: 0, nanos: 0 }, past), Some(Delay { secs: 4, nanos: 999_999_990 }));
}
