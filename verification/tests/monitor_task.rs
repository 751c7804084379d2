use std::cmp::Ordering;
use std::collections::BTreeSet;

use aimux_lib::background::monitor_task::{
    answered, candidate_order, choose_candidate, promotes, should_promote,
    successful_accounts_by_probe_model, unreachable_outcome,
};
use aimux_lib::model::account::Account;

fn bits(v: f64) -> u64 {
    v.to_bits()
}

fn account(id: &str, name: &str, multiplier: f64, duration: Option<i64>) -> Account {
    Account {
        id: id.into(),
        name: name.into(),
        account_type: "openai".into(),
        base_url: "https://example.test".into(),
        api_key_encrypted: "key".into(),
        status: "active".into(),
        priority: 5,
        multiplier: bits(multiplier),
        supported_models: None,
        tags: None,
        notes: None,
        last_error_code: None,
        last_error_message: None,
        last_successful_test_model: None,
        last_used_at: None,
        total_requests: 0,
        total_tokens: 0,
        monitor_average_duration_ms: duration,
        created_at: "2026-01-01T00:00:00Z".into(),
        updated_at: "2026-01-01T00:00:00Z".into(),
        test_default_model: None,
        model_mappings: None,
    }
}

#[test]
fn chooses_the_lowest_multiplier_then_the_fastest_average_duration() {
    assert_eq!(
        candidate_order(bits(0.04), Some(900), bits(0.10), Some(100)),
        Ordering::Less
    );
    assert_eq!(
        candidate_order(bits(0.10), Some(500), bits(0.10), Some(800)),
        Ordering::Less
    );
    assert_eq!(candidate_order(bits(0.10), Some(500), bits(0.10), None), Ordering::Less);
    assert_eq!(
        candidate_order(bits(0.10), None, bits(0.10), Some(500)),
        Ordering::Greater
    );
}

#[test]
fn promotes_a_successful_lower_multiplier_account() {
    assert!(should_promote(bits(0.04), None, bits(0.10), Some(500)));
}

#[test]
fn promotes_a_faster_account_when_multipliers_match() {
    assert!(should_promote(bits(0.10), Some(500), bits(0.10), Some(800)));
    assert!(should_promote(bits(0.10), Some(500), bits(0.10), None));
}

#[test]
fn does_not_promote_an_unknown_or_slower_account_when_multipliers_match() {
    assert!(!should_promote(bits(0.10), None, bits(0.10), Some(800)));
    assert!(!should_promote(bits(0.10), None, bits(0.10), None));
    assert!(!should_promote(bits(0.10), Some(800), bits(0.10), Some(500)));
}

#[test]
fn orders_multipliers_as_total_cmp_does() {
    assert_eq!(candidate_order(bits(-0.0), None, bits(0.0), None), Ordering::Less);
    assert_eq!(candidate_order(bits(-1.0), None, bits(-0.5), None), Ordering::Less);
    assert_eq!(candidate_order(bits(f64::NAN), None, bits(f64::INFINITY), None), Ordering::Greater);
    assert_eq!(candidate_order(bits(0.2), Some(1), bits(0.2), Some(1)), Ordering::Equal);
}

#[test]
fn groups_successful_accounts_by_protocol_and_test_model() {
    let groups = successful_accounts_by_probe_model(&[
        ("luna-account".into(), "openai".into(), true, "gpt-5.6-luna".into()),
        ("terra-account".into(), "openai".into(), true, "gpt-5.6-terra".into()),
        ("failed-terra".into(), "openai".into(), false, "gpt-5.6-terra".into()),
        ("anthropic-account".into(), "anthropic".into(), true, "sonnet-4-8".into()),
    ]);

    assert_eq!(groups.len(), 3);
    let luna: BTreeSet<String> = groups
        .get("openai", "gpt-5.6-luna")
        .expect("应存在 Luna 分组")
        .iter()
        .cloned()
        .collect();
    assert_eq!(luna, BTreeSet::from(["luna-account".to_string()]));
    let terra: BTreeSet<String> = groups
        .get("openai", "gpt-5.6-terra")
        .expect("应存在 Terra 分组")
        .iter()
        .cloned()
        .collect();
    assert_eq!(terra, BTreeSet::from(["terra-account".to_string()]));
}

#[test]
fn groups_repeated_accounts_once() {
    let groups = successful_accounts_by_probe_model(&[
        ("a".into(), "openai".into(), true, "m".into()),
        ("a".into(), "openai".into(), true, "m".into()),
        ("b".into(), "openai".into(), true, "m".into()),
    ]);
    assert_eq!(groups.len(), 1);
    assert_eq!(groups.get("openai", "m").unwrap(), &vec!["a".to_string(), "b".to_string()]);
    assert!(groups.get("anthropic", "m").is_none());
}

#[test]
fn picks_the_cheapest_successful_candidate() {
    let accounts = vec![
        account("1", "B", 0.10, Some(100)),
        account("2", "a", 0.05, Some(900)),
        account("3", "c", 0.01, Some(10)),
    ];
    let ids = vec!["1".to_string(), "2".to_string()];
    assert_eq!(choose_candidate(&accounts, &ids).unwrap().id, "2");
    assert!(choose_candidate(&accounts, &vec![]).is_none());
    let tied = vec![account("9", "Zed", 0.10, None), account("8", "alpha", 0.10, None)];
    let ids = vec!["9".to_string(), "8".to_string()];
    assert_eq!(choose_candidate(&tied, &ids).unwrap().id, "8");
}

#[test]
fn promotes_only_over_another_current_account() {
    let cheap = account("1", "a", 0.05, None);
    let dear = account("2", "b", 0.10, None);
    assert!(promotes(&cheap, Some(&dear)));
    assert!(!promotes(&cheap, Some(&cheap)));
    assert!(!promotes(&dear, Some(&cheap)));
    assert!(!promotes(&cheap, None));
}

#[test]
fn records_probe_outcomes() {
    let ok = answered(200, b"");
    assert!(ok.success && ok.message.is_none() && ok.error_code().is_none());
    let failed = answered(429, b"slow down");
    assert!(!failed.success);
    assert_eq!(failed.status_code, Some(429));
    assert_eq!(failed.message.as_deref(), Some("slow down"));
    assert_eq!(failed.error_code(), Some("monitor_failed"));
    let down = unreachable_outcome("refused".into());
    assert_eq!(down.status_code, Some(502));
    assert!(!down.success);
}
