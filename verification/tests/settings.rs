use aimux_lib::config::Settings;
use aimux_lib::service::settings_service::{update, update_monitoring, validate, validate_monitoring_window};
use aimux_lib::service::usage_service::{check_cleanup_days, page_bounds};

#[test]
fn defaults_to_the_stable_port_with_monitoring_on() {
    let s = Settings::default();
    assert_eq!(s.port, 7789);
    assert!(s.monitoring_enabled);
    assert_eq!(s.host, "127.0.0.1");
}

#[test]
fn applies_environment_overrides() {
    let mut s = Settings::default();
    s.apply_environment_overrides(Some("8080"), Some(" FALSE "));
    assert_eq!(s.port, 8080);
    assert!(!s.monitoring_enabled);
    s.apply_environment_overrides(Some("99999"), Some("  "));
    assert_eq!(s.port, 8080);
    assert!(!s.monitoring_enabled);
    s.apply_environment_overrides(None, Some("True"));
    assert!(s.monitoring_enabled);
}

#[test]
fn restores_the_stable_port_from_the_development_one() {
    let mut s = Settings::default();
    s.port = 7790;
    assert!(s.restore_stable_port());
    assert_eq!(s.port, 7789);
    assert!(!s.restore_stable_port());
}

#[test]
fn checks_monitoring_windows() {
    assert!(validate_monitoring_window(None, None).is_ok());
    assert!(validate_monitoring_window(Some("08:00"), Some("18:00")).is_ok());
    assert_eq!(
        validate_monitoring_window(Some("08:00"), None).unwrap_err(),
        "监控时间范围必须同时设置开始和结束时间"
    );
    assert_eq!(
        validate_monitoring_window(Some("8h"), Some("18:00")).unwrap_err(),
        "监控开始时间格式必须为 HH:mm"
    );
    assert_eq!(
        validate_monitoring_window(Some("08:00"), Some("08:00")).unwrap_err(),
        "监控开始时间与结束时间不能相同"
    );
}

#[test]
fn updates_keep_the_monitoring_switch_and_window() {
    let current = Settings::default();
    let next = Settings { port: 9000, monitoring_enabled: false, ..Settings::default() };
    let saved = update(&current, next).unwrap();
    assert_eq!(saved.port, 9000);
    assert!(saved.monitoring_enabled);
    let mut bad = Settings::default();
    bad.port = 0;
    assert!(validate(&bad).is_err());
    assert!(update(&current, bad).is_err());
    let changed = update_monitoring(&current, false, Some("22:00".into()), Some("06:00".into())).unwrap();
    assert!(!changed.monitoring_enabled);
    assert_eq!(changed.monitoring_start_time.as_deref(), Some("22:00"));
    assert!(update_monitoring(&current, true, Some("22:00".into()), None).is_err());
}

#[test]
fn checks_usage_cleanup_ages_and_pages() {
    assert!(check_cleanup_days(7).is_ok());
    assert!(check_cleanup_days(30).is_ok());
    assert!(check_cleanup_days(90).is_ok());
    assert!(check_cleanup_days(14).is_err());
    assert_eq!(page_bounds(-1, 1000), (0, 200));
    assert_eq!(page_bounds(5, 0), (5, 1));
}
