use aimux_lib::utils::time::{in_monitoring_window, utc_datetime_string, TimeOfDay, UtcFields};

fn time(value: &str) -> TimeOfDay {
    let parts: Vec<u32> = value.split(':').map(|p| p.parse().unwrap()).collect();
    TimeOfDay::from_hms(parts[0], parts[1], parts[2]).unwrap()
}

#[test]
fn unrestricted_when_window_missing() {
    let now = time("12:00:00");
    assert!(in_monitoring_window(None, None, now));
    assert!(in_monitoring_window(Some("08:00"), None, now));
    assert!(in_monitoring_window(None, Some("18:00"), now));
}

#[test]
fn same_day_window_is_inclusive() {
    assert!(in_monitoring_window(Some("08:00"), Some("18:00"), time("08:00:00")));
    assert!(in_monitoring_window(Some("08:00"), Some("18:00"), time("12:30:00")));
    assert!(in_monitoring_window(Some("08:00"), Some("18:00"), time("18:00:00")));
    assert!(!in_monitoring_window(Some("08:00"), Some("18:00"), time("07:59:59")));
    assert!(!in_monitoring_window(Some("08:00"), Some("18:00"), time("18:00:01")));
}

#[test]
fn overnight_window_wraps_midnight() {
    assert!(in_monitoring_window(Some("22:00"), Some("06:00"), time("23:30:00")));
    assert!(in_monitoring_window(Some("22:00"), Some("06:00"), time("05:00:00")));
    assert!(!in_monitoring_window(Some("22:00"), Some("06:00"), time("12:00:00")));
}

#[test]
fn invalid_or_equal_window_stays_unrestricted() {
    let now = time("12:00:00");
    assert!(in_monitoring_window(Some("bad"), Some("18:00"), now));
    assert!(in_monitoring_window(Some("08:00"), Some("08:00"), now));
}

#[test]
fn formats_database_timestamps_in_utc() {
    let value = UtcFields {
        year: 2026,
        month: 8,
        day: 24,
        hour: 9,
        minute: 8,
        second: 7,
        nanosecond: 0,
    };
    assert_eq!(utc_datetime_string(&value), "2026-08-24T09:08:07Z");
}

#[test]
fn formats_years_outside_four_digits_with_a_sign() {
    let value = UtcFields { year: 12345, month: 1, day: 2, hour: 3, minute: 4, second: 5, nanosecond: 0 };
    assert_eq!(utc_datetime_string(&value), "+12345-01-02T03:04:05Z");
    let value = UtcFields { year: 7, month: 1, day: 2, hour: 3, minute: 4, second: 5, nanosecond: 0 };
    assert_eq!(utc_datetime_string(&value), "0007-01-02T03:04:05Z");
}
