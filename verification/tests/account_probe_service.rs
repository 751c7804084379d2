use aimux_lib::json::{JsonValue, json_as_i64, json_as_str, json_at, json_get, json_get_in};
use aimux_lib::model::account::Account;
use aimux_lib::service::account_service::mapped_model;
use aimux_lib::service::account_probe_service::{build_request, prepare, probe_model};

fn account(account_type: &str, model_mappings: Option<&str>) -> Account {
    Account {
        id: "account-id".into(),
        name: "测试账号".into(),
        account_type: account_type.into(),
        base_url: "https://example.test".into(),
        api_key_encrypted: "key".into(),
        status: "active".into(),
        priority: 5,
        multiplier: 0.10f64.to_bits(),
        supported_models: None,
        tags: None,
        notes: None,
        last_error_code: None,
        last_error_message: None,
        last_successful_test_model: None,
        last_used_at: None,
        total_requests: 0,
        total_tokens: 0,
        monitor_average_duration_ms: None,
        created_at: "2026-01-01T00:00:00Z".into(),
        updated_at: "2026-01-01T00:00:00Z".into(),
        test_default_model: None,
        model_mappings: model_mappings.map(str::to_owned),
    }
}

#[test]
fn builds_openai_probe_with_mapped_model() {
    let probe = build_request(
        &account("openai", Some(r#"{"gpt-5.6":"upstream-model"}"#)),
        "gpt-5.6",
    );

    assert_eq!(probe.model, "gpt-5.6");
    assert_eq!(probe.endpoint, "/v1/chat/completions");
    assert_eq!(json_as_str(json_get(&probe.body, "model")), Some("upstream-model"));
    let first = json_at(json_get(&probe.body, "messages"), 0);
    assert_eq!(json_as_str(json_get_in(first, "content")), Some("ping"));
    assert!(json_get(&probe.body, "reasoning_effort").is_none());
}

#[test]
fn builds_anthropic_probe_with_requested_model() {
    let probe = build_request(&account("anthropic", None), "sonnet-test");

    assert_eq!(probe.endpoint, "/v1/messages");
    assert_eq!(json_as_str(json_get(&probe.body, "model")), Some("sonnet-test"));
}

#[test]
fn probes_ask_for_a_single_token_from_the_user_role() {
    let probe = build_request(&account("openai", Some("not json")), "m");
    assert_eq!(json_as_str(json_get(&probe.body, "model")), Some("m"));
    assert_eq!(json_as_i64(json_get(&probe.body, "max_tokens")), Some(1));
    let first = json_at(json_get(&probe.body, "messages"), 0);
    assert_eq!(json_as_str(json_get_in(first, "role")), Some("user"));
    assert_eq!(
        probe.body.to_json_string(),
        r#"{"max_tokens":1,"messages":[{"content":"ping","role":"user"}],"model":"m"}"#
    );
}

#[test]
fn prepares_probe_for_requested_then_test_then_default_model() {
    let mut acc = account("openai", None);
    assert_eq!(prepare(&acc, Some("asked"), Some("catalog".into())).unwrap().model, "asked");
    assert_eq!(prepare(&acc, None, Some("catalog".into())).unwrap().model, "catalog");
    assert!(prepare(&acc, None, None).is_none());
    acc.test_default_model = Some("own".into());
    let probe = prepare(&acc, None, Some("catalog".into())).unwrap();
    assert_eq!(probe.model, "own");
    assert_eq!(probe.endpoint, "/v1/chat/completions");
    assert_eq!(json_as_str(json_get(&probe.body, "model")), Some("own"));
    assert_eq!(probe_model(None, None, None), None);
    assert_eq!(probe_model(None, Some("own"), Some("catalog".into())), Some("own".into()));
}

#[test]
fn maps_models_through_a_parsed_mapping_object() {
    let object = JsonValue::parse(r#"{"gpt":"upstream","n":1}"#);
    assert_eq!(mapped_model(&object, "gpt"), "upstream");
    assert_eq!(mapped_model(&object, "n"), "n");
    assert_eq!(mapped_model(&object, "other"), "other");
    assert_eq!(mapped_model(&JsonValue::parse("[1]"), "gpt"), "gpt");
    assert_eq!(mapped_model(&None, "gpt"), "gpt");
}
