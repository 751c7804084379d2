use aimux_lib::error::AppError;
use aimux_lib::model::multiplier_monitor::{LatestRunStats, MultiplierMonitorConfig};
use aimux_lib::schema::multiplier_monitor_schema::{MultiplierMonitorCreate, MultiplierMonitorUpdate};
use aimux_lib::service::multiplier_monitor_service::{
    after_failed_fetch, check_enabled_conflicts, config_changed_error, config_view, prepare_create,
    prepare_update, RefreshStep,
};
use aimux_lib::service::multiplier_query::MultiplierQueryError;

fn config(id: &str, name: &str, ids: &str, enabled: bool) -> MultiplierMonitorConfig {
    MultiplierMonitorConfig {
        id: id.into(),
        name: name.into(),
        url: "https://example.com".into(),
        token: "tok".into(),
        refresh_token: "".into(),
        account_ids: ids.into(),
        multiplier_divisor: 1,
        enabled,
        last_started_at: None,
        last_finished_at: None,
        lease_owner: None,
        lease_until: Some("2026-01-01T00:10:00Z".into()),
        created_at: "c".into(),
        updated_at: "u".into(),
    }
}

fn create() -> MultiplierMonitorCreate {
    MultiplierMonitorCreate {
        name: " 监控 ".into(),
        url: " https://example.com/api/v1/keys ".into(),
        token: "Bearer abc".into(),
        refresh_token: " r ".into(),
        account_ids: vec!["b".into(), " a ".into(), "b".into()],
        multiplier_divisor: 10,
        enabled: true,
    }
}

#[test]
fn prepares_new_configurations() {
    let c = prepare_create(create()).unwrap();
    assert_eq!(c.name, "监控");
    assert_eq!(c.url, "https://example.com");
    assert_eq!(c.token, "abc");
    assert_eq!(c.refresh_token, "r");
    assert_eq!(c.account_ids, ["b", "a"]);
    assert_eq!(c.account_ids_json, r#"["b","a"]"#);
    let mut bad = create();
    bad.name = " ".into();
    bad.multiplier_divisor = 0;
    match prepare_create(bad) {
        Err(AppError::BadRequest(m)) => assert_eq!(m, "配置名称不能为空"),
        other => panic!("unexpected {:?}", other),
    }
    let mut bad = create();
    bad.multiplier_divisor = 0;
    match prepare_create(bad) {
        Err(AppError::BadRequest(m)) => assert_eq!(m, "倍率除数必须是 1～10000 的整数"),
        other => panic!("unexpected {:?}", other),
    }
}

#[test]
fn updates_keep_tokens_and_reset_the_schedule_on_changes() {
    let current = config("1", "n", r#"["a"]"#, true);
    let update = MultiplierMonitorUpdate {
        name: "n".into(),
        url: "https://example.com".into(),
        token: Some("  ".into()),
        refresh_token: None,
        account_ids: vec!["a".into()],
        multiplier_divisor: None,
        enabled: true,
    };
    let (c, reset) = prepare_update(&current, update).unwrap();
    assert_eq!(c.token, "tok");
    assert_eq!(c.multiplier_divisor, 1);
    assert!(!reset);
    let update = MultiplierMonitorUpdate {
        name: "n".into(),
        url: "https://example.com".into(),
        token: Some("new".into()),
        refresh_token: Some(" r2 ".into()),
        account_ids: vec!["a".into()],
        multiplier_divisor: Some(2),
        enabled: false,
    };
    let (c, reset) = prepare_update(&current, update).unwrap();
    assert_eq!(c.token, "new");
    assert_eq!(c.refresh_token, "r2");
    assert!(reset);
}

#[test]
fn refuses_selections_watched_by_another_enabled_configuration() {
    let configs = vec![
        config("1", "甲", r#"["a","b"]"#, true),
        config("2", "乙", r#"["c"]"#, false),
        config("3", "丙", r#"["d"]"#, true),
    ];
    assert!(check_enabled_conflicts(&configs, None, false, &vec!["a".into()]).is_ok());
    assert!(check_enabled_conflicts(&configs, Some("1"), true, &vec!["a".into()]).is_ok());
    assert!(check_enabled_conflicts(&configs, None, true, &vec!["c".into()]).is_ok());
    match check_enabled_conflicts(&configs, None, true, &vec!["x".into(), "b".into()]) {
        Err(AppError::BadRequest(m)) => assert_eq!(m, "所选账号已被启用的配置“甲”监控"),
        other => panic!("unexpected {:?}", other),
    }
    let broken = vec![config("9", "坏", "oops", true)];
    assert!(matches!(
        check_enabled_conflicts(&broken, None, true, &vec!["a".into()]),
        Err(AppError::Internal(_))
    ));
}

#[test]
fn shows_configurations_with_their_last_run() {
    let stats = LatestRunStats {
        run_id: "r".into(),
        started_at: "s".into(),
        finished_at: "f".into(),
        total: 3,
        updated: 1,
        unchanged: 1,
        issues: 0,
        failed: 1,
    };
    let view = config_view(config("1", "n", r#"["a"]"#, true), "2026-01-01T00:00:00Z", Some(stats)).unwrap();
    assert!(view.running);
    assert!(view.has_token);
    assert!(!view.has_refresh_token);
    assert_eq!(view.account_ids, ["a"]);
    assert_eq!(view.last_run.unwrap().total, 3);
    let view = config_view(config("1", "n", "[]", true), "2026-01-01T00:10:00Z", None).unwrap();
    assert!(!view.running);
    assert!(config_view(config("1", "n", "{", true), "x", None).is_err());
}

#[test]
fn refreshes_only_after_an_unauthorized_fetch_with_a_refresh_token() {
    let unauthorized = || MultiplierQueryError { code: "unauthorized".into(), message: "m".into(), http_status: Some(401) };
    assert!(matches!(after_failed_fetch(unauthorized(), "r"), RefreshStep::Refresh));
    match after_failed_fetch(unauthorized(), "  ") {
        RefreshStep::Fail(e) => {
            assert_eq!(e.code, "unauthorized_no_refresh_token");
            assert_eq!(e.http_status, Some(401));
        }
        other => panic!("unexpected {:?}", other),
    }
    let other = MultiplierQueryError { code: "http_error".into(), message: "m".into(), http_status: Some(500) };
    match after_failed_fetch(other, "r") {
        RefreshStep::Fail(e) => assert_eq!(e.code, "http_error"),
        other => panic!("unexpected {:?}", other),
    }
    assert_eq!(config_changed_error().code, "config_changed");
}
