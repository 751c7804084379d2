use aimux_lib::dao::account_dao::{
    clamp_priority, create_fields, has_model, json_opt_vec, pick_one, priority_update, supported,
    to_view, update_fields, validate,
};
use aimux_lib::error::AppError;
use aimux_lib::json::JsonValue;
use aimux_lib::model::account::Account;
use aimux_lib::schema::account_schema::{
    default_multiplier, default_priority, default_status, AccountCreate, AccountQuery,
    AccountUpdate,
};
use aimux_lib::service::account_service::{mapping, supported_models};

fn account(id: &str, name: &str, priority: i64, multiplier: f64, supported: Option<&str>) -> Account {
    Account {
        id: id.into(),
        name: name.into(),
        account_type: "openai".into(),
        base_url: "https://example.test".into(),
        api_key_encrypted: "key".into(),
        status: "active".into(),
        priority,
        multiplier: multiplier.to_bits(),
        supported_models: supported.map(str::to_owned),
        tags: None,
        notes: None,
        last_error_code: None,
        last_error_message: None,
        last_successful_test_model: None,
        last_used_at: None,
        total_requests: 0,
        total_tokens: 0,
        monitor_average_duration_ms: None,
        created_at: "2026-01-01T00:00:00Z".into(),
        updated_at: "2026-01-01T00:00:00Z".into(),
        test_default_model: None,
        model_mappings: None,
    }
}

fn create_payload() -> AccountCreate {
    AccountCreate {
        name: "  主账号 ".into(),
        account_type: "openai".into(),
        base_url: "https://up.test//".into(),
        api_key: "sk".into(),
        status: default_status(),
        priority: default_priority(),
        multiplier: default_multiplier(),
        test_default_model: None,
        model_mappings: None,
        supported_models: Some(vec![]),
        tags: Some(vec!["a".into()]),
        notes: None,
    }
}

#[test]
fn reads_supported_model_lists() {
    assert!(has_model(Some(r#"["a","b"]"#), "b"));
    assert!(!has_model(Some(r#"["a"]"#), "b"));
    assert!(!has_model(Some("oops"), "a"));
    assert!(!has_model(None, "a"));
    assert!(supported(None, Some("x")));
    assert!(supported(Some("[]"), Some("x")));
    assert!(supported(Some("oops"), Some("x")));
    assert!(supported(Some(r#"["a"]"#), None));
    assert!(!supported(Some(r#"["a"]"#), Some("x")));
}

#[test]
fn picks_explicit_then_priority_then_cheapest() {
    let accounts = vec![
        account("1", "a", 9, 0.10, None),
        account("2", "b", 1, 0.10, Some(r#"["gpt"]"#)),
        account("3", "c", 9, 0.05, Some(r#"["other"]"#)),
    ];
    assert_eq!(pick_one(accounts.clone(), Some("gpt"), "openai").unwrap().id, "2");
    assert_eq!(pick_one(accounts.clone(), None, "openai").unwrap().id, "3");
    let only_other = vec![account("3", "c", 9, 0.05, Some(r#"["other"]"#))];
    assert!(pick_one(only_other, Some("gpt"), "openai").is_none());
    let tied = vec![account("b", "Same", 5, 0.10, None), account("a", "same", 5, 0.10, None)];
    assert_eq!(pick_one(tied, None, "openai").unwrap().id, "a");
}

#[test]
fn picks_only_active_accounts_of_the_protocol() {
    let mut disabled = account("1", "a", 9, 0.01, None);
    disabled.status = "disabled".into();
    let mut other = account("2", "b", 9, 0.01, None);
    other.account_type = "anthropic".into();
    let plain = account("3", "c", 1, 0.30, None);
    let accounts = vec![disabled, other, plain];
    assert_eq!(pick_one(accounts.clone(), Some("gpt"), "openai").unwrap().id, "3");
    assert_eq!(pick_one(accounts.clone(), None, "anthropic").unwrap().id, "2");
    assert!(pick_one(accounts, None, "gemini").is_none());
}

#[test]
fn validates_account_fields() {
    assert!(validate("n", "openai", "u", "k", 5, 0.10f64.to_bits()).is_ok());
    assert!(validate("n", "anthropic", "u", "k", 0, 0.01f64.to_bits()).is_ok());
    assert!(validate("n", "anthropic", "u", "k", 9, 0.30f64.to_bits()).is_ok());
    match validate(" ", "openai", "u", "k", 5, 0.10f64.to_bits()) {
        Err(AppError::BadRequest(m)) => assert_eq!(m, "名称、上游地址和 API 密钥不能为空"),
        other => panic!("unexpected {:?}", other),
    }
    match validate("n", "gemini", "u", "k", 5, 0.10f64.to_bits()) {
        Err(AppError::BadRequest(m)) => assert_eq!(m, "协议类型不支持"),
        other => panic!("unexpected {:?}", other),
    }
    for m in [0.009f64, 0.31, -0.1, f64::NAN] {
        match validate("n", "openai", "u", "k", 5, m.to_bits()) {
            Err(AppError::BadRequest(msg)) => assert_eq!(msg, "优先级或倍率超出范围"),
            other => panic!("unexpected {:?}", other),
        }
    }
    assert!(validate("n", "openai", "u", "k", 10, 0.10f64.to_bits()).is_err());
}

#[test]
fn prepares_new_account_columns() {
    let fields = create_fields(create_payload()).unwrap();
    assert_eq!(fields.name, "主账号");
    assert_eq!(fields.base_url, "https://up.test");
    assert_eq!(fields.status, "active");
    assert_eq!(fields.priority, 5);
    assert_eq!(f64::from_bits(fields.multiplier), 0.10);
    assert_eq!(fields.supported_models, None);
    assert_eq!(fields.tags.as_deref(), Some(r#"["a"]"#));
    let mut bad = create_payload();
    bad.account_type = "x".into();
    assert!(create_fields(bad).is_err());
}

#[test]
fn merges_updates_with_stored_columns() {
    let mut current = account("1", "old", 5, 0.10, Some(r#"["a"]"#));
    current.model_mappings = Some(r#"{"a":"b"}"#.into());
    current.notes = Some("keep".into());
    let update = AccountUpdate {
        name: Some("new".into()),
        account_type: None,
        base_url: Some("https://x/".into()),
        api_key: Some("".into()),
        status: None,
        priority: Some(7),
        multiplier: None,
        test_default_model: None,
        model_mappings: Some(JsonValue::parse("{}").unwrap()),
        supported_models: None,
        tags: None,
        notes: Some("  ".into()),
    };
    let fields = update_fields(&current, update).unwrap();
    assert_eq!(fields.name, "new");
    assert_eq!(fields.base_url, "https://x");
    assert_eq!(fields.api_key, "key");
    assert_eq!(fields.priority, 7);
    assert_eq!(fields.model_mappings, None);
    assert_eq!(fields.supported_models.as_deref(), Some(r#"["a"]"#));
    assert_eq!(fields.notes, None);
    let refused = AccountUpdate {
        name: None,
        account_type: None,
        base_url: None,
        api_key: None,
        status: None,
        priority: Some(12),
        multiplier: None,
        test_default_model: None,
        model_mappings: None,
        supported_models: None,
        tags: None,
        notes: None,
    };
    assert!(update_fields(&current, refused).is_err());
}

#[test]
fn shows_accounts_with_parsed_columns() {
    let mut a = account("1", "n", 5, 0.10, Some(r#"["m"]"#));
    a.tags = Some("oops".into());
    a.model_mappings = Some(r#"{"x":"y"}"#.into());
    let view = to_view(a);
    assert_eq!(view.supported_models, Some(vec!["m".to_string()]));
    assert_eq!(view.tags, None);
    assert_eq!(view.model_mappings.unwrap().to_json_string(), r#"{"x":"y"}"#);
}

#[test]
fn writes_lists_as_json_columns() {
    assert_eq!(json_opt_vec(None), None);
    assert_eq!(json_opt_vec(Some(vec![])), None);
    assert_eq!(json_opt_vec(Some(vec!["a".into(), "\"b\"".into()])).as_deref(), Some(r#"["a","\"b\""]"#));
}

#[test]
fn clamps_and_adjusts_priorities() {
    assert_eq!(clamp_priority(-3), 0);
    assert_eq!(clamp_priority(4), 4);
    assert_eq!(clamp_priority(12), 9);
    assert_eq!(priority_update(true, "monitor"), "CASE WHEN priority < 8 THEN priority + 1 ELSE priority END");
    assert_eq!(priority_update(true, "request"), "priority + 1");
    assert_eq!(priority_update(false, "monitor"), "priority - 1");
}

#[test]
fn maps_requested_models() {
    let mut a = account("1", "n", 5, 0.10, Some(r#"["x","y"]"#));
    assert_eq!(mapping(&a, None), None);
    assert_eq!(mapping(&a, Some("m")).as_deref(), Some("m"));
    a.model_mappings = Some(r#"{"m":"up","n":3}"#.into());
    assert_eq!(mapping(&a, Some("m")).as_deref(), Some("up"));
    assert_eq!(mapping(&a, Some("n")).as_deref(), Some("n"));
    a.model_mappings = Some("[1]".into());
    assert_eq!(mapping(&a, Some("m")).as_deref(), Some("m"));
    assert_eq!(supported_models(&a), ["x", "y"]);
    a.supported_models = Some("bad".into());
    assert!(supported_models(&a).is_empty());
}

#[test]
fn pages_account_lists() {
    let q = AccountQuery { offset: Some(-5), limit: Some(500), account_type: None, status: None, name: None };
    assert_eq!(q.page(), (0, 200));
    let q = AccountQuery { offset: None, limit: None, account_type: None, status: None, name: None };
    assert_eq!(q.page(), (0, 50));
    let q = AccountQuery { offset: Some(3), limit: Some(0), account_type: None, status: None, name: None };
    assert_eq!(q.page(), (3, 1));
}
