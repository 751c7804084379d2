use aimux_lib::service::multiplier_monitor_service::{
    normalize_account_ids, normalize_token, parse_remote_rate, validate_multiplier_divisor,
    validate_name, truncate_error, summarize, parse_account_ids, check_accounts_found,
    mark_conflict, AccountOutcome, DecimalValue, plan_account_updates, same_value_exec,
    MonitoredAccount, ParsedRemoteRate,
};
use aimux_lib::service::multiplier_query::RemoteMultiplier;
use aimux_lib::error::AppError;

#[test]
fn strips_optional_bearer_prefix_before_storage() {
    assert_eq!(normalize_token("Bearer abc").unwrap(), "abc");
    assert_eq!(normalize_token("abc").unwrap(), "abc");
}

#[test]
fn validates_remote_decimal_range_and_scale() {
    let valid = parse_remote_rate(
        &RemoteMultiplier {
            key: "key".into(),
            rate_multiplier: Some("0.300".into()),
            rate_error: None,
        },
        1,
    );
    assert!(valid.error.is_none());
    let invalid = parse_remote_rate(
        &RemoteMultiplier {
            key: "key".into(),
            rate_multiplier: Some("0.301".into()),
            rate_error: None,
        },
        1,
    );
    assert!(invalid.error.is_some());
}

#[test]
fn divides_remote_rate_before_validation() {
    let parsed = parse_remote_rate(
        &RemoteMultiplier {
            key: "key".into(),
            rate_multiplier: Some("3".into()),
            rate_error: None,
        },
        10,
    );
    assert!(parsed.error.is_none());
    assert_eq!(parsed.decimal.unwrap().to_text(), "0.3");

    let too_precise = parse_remote_rate(
        &RemoteMultiplier {
            key: "key".into(),
            rate_multiplier: Some("3.01".into()),
            rate_error: None,
        },
        10,
    );
    assert!(too_precise.error.is_some());
}

#[test]
fn validates_multiplier_divisor_range() {
    assert_eq!(validate_multiplier_divisor(1).unwrap(), 1);
    assert_eq!(validate_multiplier_divisor(10_000).unwrap(), 10_000);
    assert!(validate_multiplier_divisor(0).is_err());
    assert!(validate_multiplier_divisor(10_001).is_err());
}

#[test]
fn refuses_blank_tokens_and_names() {
    assert_eq!(normalize_token("  Bearer   ").unwrap(), "Bearer");
    assert_eq!(normalize_token("bearer   xyz ").unwrap(), "xyz");
    match normalize_token("   ") {
        Err(AppError::BadRequest(m)) => assert_eq!(m, "查询 token 不能为空"),
        other => panic!("unexpected {:?}", other),
    }
    assert_eq!(validate_name("  监控 ").unwrap(), "监控");
    assert!(validate_name("   ").is_err());
    assert!(validate_name(&"x".repeat(101)).is_err());
}

#[test]
fn keeps_each_trimmed_account_id_once() {
    let ids = normalize_account_ids(vec![" a ".into(), "b".into(), "a".into(), "".into()]).unwrap();
    assert_eq!(ids, ["a", "b"]);
    assert!(normalize_account_ids(vec!["  ".into()]).is_err());
}

#[test]
fn truncates_long_error_messages() {
    assert_eq!(truncate_error(&"é".repeat(600)).chars().count(), 500);
    assert_eq!(truncate_error("short"), "short");
}

#[test]
fn counts_run_results() {
    let results = vec![
        "updated".to_string(),
        "unchanged".to_string(),
        "failed".to_string(),
        "missing_key".to_string(),
        "updated".to_string(),
    ];
    let summary = summarize("run", &results);
    assert_eq!(summary.total, 5);
    assert_eq!(summary.updated, 2);
    assert_eq!(summary.unchanged, 1);
    assert_eq!(summary.failed, 1);
    assert_eq!(summary.issues, 1);
}

#[test]
fn reads_stored_account_lists() {
    assert_eq!(parse_account_ids(r#"["a","b"]"#).unwrap(), ["a", "b"]);
    match parse_account_ids("not json") {
        Err(AppError::Internal(m)) => assert_eq!(m, "倍率监控配置的账号列表无效"),
        other => panic!("unexpected {:?}", other),
    }
    assert!(check_accounts_found(2, 2).is_ok());
    assert!(check_accounts_found(1, 2).is_err());
}

#[test]
fn prints_decimals_as_rust_decimal_does() {
    assert_eq!(DecimalValue { mantissa: -15, scale: 2 }.to_text(), "-0.15");
    assert_eq!(DecimalValue { mantissa: 0, scale: 2 }.to_text(), "0.00");
    assert_eq!(DecimalValue { mantissa: 1205, scale: 2 }.to_text(), "12.05");
    assert_eq!(DecimalValue { mantissa: 12, scale: 0 }.to_text(), "12");
}

#[test]
fn marks_the_logged_outcome_of_a_conflicting_change() {
    let outcome = |id: &str| AccountOutcome {
        account_id: Some(id.into()),
        account_name: Some("n".into()),
        result: "updated".into(),
        old_multiplier_bits: Some(0.1f64.to_bits()),
        remote: Some(DecimalValue { mantissa: 15, scale: 2 }),
        error_code: None,
        error_message: None,
    };
    let mut outcomes = vec![outcome("a"), outcome("b")];
    mark_conflict(&mut outcomes, 1);
    assert_eq!(outcomes[0].result, "updated");
    assert_eq!(outcomes[1].result, "conflict");
    assert_eq!(outcomes[1].error_code.as_deref(), Some("account_changed"));
    assert_eq!(outcomes[1].account_id.as_deref(), Some("b"));
    mark_conflict(&mut outcomes, 5);
    assert_eq!(outcomes.len(), 2);
    assert_eq!(outcomes[0].result, "updated");
}

#[test]
fn compares_decimals_by_value() {
    let d = |mantissa: i128, scale: u32| DecimalValue { mantissa, scale };
    assert!(same_value_exec(&d(10, 2), &d(1, 1)));
    assert!(same_value_exec(&d(1, 1), &d(10, 2)));
    assert!(same_value_exec(&d(0, 0), &d(0, 28)));
    assert!(!same_value_exec(&d(11, 2), &d(1, 1)));
    assert!(!same_value_exec(&d(-10, 2), &d(1, 1)));
    assert!(!same_value_exec(&d(1, 0), &d(1, 40)));
}

#[test]
fn logs_a_rate_equal_up_to_trailing_zeros_as_unchanged() {
    let accounts = vec![MonitoredAccount {
        id: "a".into(),
        name: "A".into(),
        status: "active".into(),
        api_key: "key".into(),
        multiplier_bits: 0.1f64.to_bits(),
        current_decimal: Ok(DecimalValue { mantissa: 10, scale: 2 }),
    }];
    let rate = ParsedRemoteRate {
        decimal: Some(DecimalValue { mantissa: 1, scale: 1 }),
        normalized: Some(DecimalValue { mantissa: 1, scale: 1 }),
        error: None,
    };
    let table = vec![("key".to_string(), rate)];
    let (outcomes, changes) = plan_account_updates(&["a".to_string()], &accounts, &table).unwrap();
    assert_eq!(outcomes.len(), 1);
    assert_eq!(outcomes[0].result, "unchanged");
    assert!(changes.is_empty());

    let other = ParsedRemoteRate {
        decimal: Some(DecimalValue { mantissa: 2, scale: 1 }),
        normalized: Some(DecimalValue { mantissa: 2, scale: 1 }),
        error: None,
    };
    let table = vec![("key".to_string(), other)];
    let (outcomes, changes) = plan_account_updates(&["a".to_string()], &accounts, &table).unwrap();
    assert_eq!(outcomes[0].result, "updated");
    assert_eq!(changes.len(), 1);
}
