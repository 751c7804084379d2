use aimux_lib::json::JsonValue;
use aimux_lib::service::account_model_discovery_service::{
    check_request, models_from_response, parse_models, upstream_status_error,
};
use aimux_lib::error::AppError;

fn json(text: &str) -> JsonValue {
    JsonValue::parse(text).expect("test JSON must parse")
}

#[test]
fn parses_unique_model_ids_in_order() {
    let models = parse_models(&json(
        r#"{"data": [{"id": "model-b"}, {"id": " model-a "}, {"id": "model-b"}, {}]}"#,
    ))
    .unwrap();
    assert_eq!(models, ["model-a", "model-b"]);
}

#[test]
fn rejects_unrecognised_response() {
    assert!(parse_models(&json(r#"{"models": []}"#)).is_err());
}

#[test]
fn skips_blank_and_non_string_ids() {
    let models = parse_models(&json(
        r#"{"data": [{"id": "  "}, {"id": 7}, {"id": "z"}, {"id": "a"}]}"#,
    ))
    .unwrap();
    assert_eq!(models, ["a", "z"]);
}

#[test]
fn refuses_data_that_is_not_an_array() {
    match parse_models(&json(r#"{"data": {"id": "x"}}"#)) {
        Err(AppError::Upstream(m)) => assert_eq!(m, "上游返回中未找到 data 模型列表"),
        other => panic!("unexpected {:?}", other),
    }
}

#[test]
fn checks_discovery_requests() {
    assert_eq!(check_request(" openai ", "https://x", "k").unwrap(), "openai");
    match check_request("gemini", "https://x", "k") {
        Err(AppError::BadRequest(m)) => assert_eq!(m, "账号类型必须是 openai 或 anthropic"),
        other => panic!("unexpected {:?}", other),
    }
    match check_request("anthropic", "  ", "k") {
        Err(AppError::BadRequest(m)) => assert_eq!(m, "上游地址不能为空"),
        other => panic!("unexpected {:?}", other),
    }
    match check_request("anthropic", "https://x", " ") {
        Err(AppError::BadRequest(m)) => assert_eq!(m, "API 密钥不能为空"),
        other => panic!("unexpected {:?}", other),
    }
}

#[test]
fn reports_refused_listings_with_status_and_body() {
    match upstream_status_error(401, b"  denied \n") {
        AppError::Upstream(m) => assert_eq!(m, "查询模型列表失败，HTTP 401：denied"),
        other => panic!("unexpected {:?}", other),
    }
    match upstream_status_error(503, b"   ") {
        AppError::Upstream(m) => assert_eq!(m, "查询模型列表失败，HTTP 503"),
        other => panic!("unexpected {:?}", other),
    }
}

#[test]
fn reads_answered_listings() {
    assert_eq!(
        models_from_response(200, br#"{"data":[{"id":"b"},{"id":"a"}]}"#).unwrap(),
        ["a", "b"]
    );
    match models_from_response(200, b"not json") {
        Err(AppError::Upstream(m)) => assert_eq!(m, "上游返回的模型列表不是有效 JSON"),
        other => panic!("unexpected {:?}", other),
    }
    assert!(matches!(models_from_response(500, b"oops"), Err(AppError::Upstream(_))));
}
