use aimux_lib::service::multiplier_query::{
    take_page, ParsedPage, RemoteMultiplier,
    advance, append_limited, authorization_value, check_declared_length, endpoint_url,
    normalize_access_token, normalize_base_url, parse_page, refresh_result, status_error,
    validated_url, with_page_query, FetchState, PageData, RateValue, RefreshData,
    RefreshResponse, RemoteGroup, RemoteItem, RootResponse, PAGE_SIZE,
};

fn number_text(literal: &str) -> String {
    serde_json::from_str::<serde_json::Value>(literal).unwrap().to_string()
}

#[test]
fn adds_bearer_prefix_once() {
    assert_eq!(authorization_value("abc").unwrap(), "Bearer abc");
    assert_eq!(authorization_value("bearer abc").unwrap(), "bearer abc");
}

#[test]
fn replaces_fixed_query_parameters_and_keeps_others() {
    let url = validated_url("https://example.com/keys?tenant=a&page=8").unwrap();
    let value = with_page_query(&url, 2);
    assert!(value.as_str().contains("tenant=a"));
    assert!(value.as_str().contains("page=2"));
    assert!(value.as_str().contains(&format!("page_size={PAGE_SIZE}")));
    assert!(!value.as_str().contains("page=8"));
}

#[test]
fn parses_key_and_rate_without_float_conversion() {
    let root = RootResponse {
        code: Some(0),
        data: Some(PageData {
            items: vec![RemoteItem {
                key: Some(" sk-test ".into()),
                group: Some(RemoteGroup {
                    rate_multiplier: Some(RateValue::Number(number_text("0.30"))),
                }),
            }],
            total: 1,
            page: 1,
            page_size: 100,
            pages: 1,
        }),
    };
    let page = parse_page(root, 1).unwrap();
    assert_eq!(page.items[0].key, "sk-test");
    assert_eq!(page.items[0].rate_multiplier.as_deref(), Some("0.3"));
}

#[test]
fn normalizes_domain_and_discards_legacy_path() {
    assert_eq!(
        normalize_base_url("https://example.com/api/v1/keys/").unwrap(),
        "https://example.com"
    );
}

#[test]
fn builds_fixed_api_endpoints_from_legacy_or_domain_url() {
    let base = validated_url("https://example.com/old/path?tenant=a").unwrap();
    assert_eq!(
        endpoint_url(&base, "/api/v1/keys", false).as_str(),
        "https://example.com/api/v1/keys?tenant=a"
    );
    assert_eq!(
        endpoint_url(&base, "/api/v1/auth/refresh", true).as_str(),
        "https://example.com/api/v1/auth/refresh"
    );
}

#[test]
fn recognizes_business_unauthorized_response_without_data() {
    let error = match parse_page(RootResponse { code: Some(401), data: None }, 1) {
        Ok(_) => panic!("expected unauthorized error"),
        Err(error) => error,
    };
    assert_eq!(error.code, "unauthorized");
    assert_eq!(error.http_status, Some(401));
}

#[test]
fn strips_bearer_prefix_from_refreshed_access_token() {
    assert_eq!(
        normalize_access_token(Some("Bearer access-token")).as_deref(),
        Some("access-token")
    );
    assert_eq!(normalize_access_token(Some("  ")), None);
}

#[test]
fn refuses_urls_with_credentials_or_without_https() {
    assert!(validated_url("ftp://example.com").is_err());
    assert!(validated_url("https://user:pw@example.com").is_err());
    assert!(validated_url("   ").is_err());
}

#[test]
fn reports_http_failures_with_their_status() {
    let e = status_error(401);
    assert_eq!(e.code, "unauthorized");
    assert_eq!(e.http_status, Some(401));
    let e = status_error(500);
    assert_eq!(e.code, "http_error");
    assert_eq!(e.message, "倍率查询接口返回 HTTP 500");
}

#[test]
fn refuses_pages_that_do_not_match_the_request() {
    let root = RootResponse {
        code: Some(0),
        data: Some(PageData { items: vec![], total: 0, page: 2, page_size: 100, pages: 1 }),
    };
    assert_eq!(parse_page(root, 1).unwrap_err().code, "pagination_mismatch");
    let root = RootResponse { code: Some(7), data: None };
    assert_eq!(parse_page(root, 1).unwrap_err().code, "business_error");
}

#[test]
fn finishes_a_fetch_on_its_last_page() {
    let root = RootResponse {
        code: Some(0),
        data: Some(PageData {
            items: vec![RemoteItem { key: Some("k".into()), group: None }],
            total: 1,
            page: 1,
            page_size: 100,
            pages: 1,
        }),
    };
    let page = parse_page(root, 1).unwrap();
    assert!(advance(&FetchState::start(), &page).unwrap().is_none());
}

#[test]
fn reads_refreshed_tokens() {
    let tokens = refresh_result(RefreshResponse {
        code: Some(0),
        data: Some(RefreshData {
            access_token: Some("Bearer new-access".into()),
            refresh_token: Some(" new-refresh ".into()),
        }),
    })
    .unwrap();
    assert_eq!(tokens.access_token, "new-access");
    assert!(refresh_result(RefreshResponse { code: Some(0), data: None }).is_err());
}

#[test]
fn limits_response_sizes() {
    assert!(check_declared_length(Some(11), 10).is_err());
    assert!(check_declared_length(Some(10), 10).is_ok());
    assert!(check_declared_length(None, 10).is_ok());
    let mut bytes = vec![1u8, 2, 3];
    assert!(append_limited(&mut bytes, &[4, 5], 5).is_ok());
    assert_eq!(bytes, [1, 2, 3, 4, 5]);
    let error = append_limited(&mut bytes, &[6], 5).unwrap_err();
    assert_eq!(error.code, "response_too_large");
    assert_eq!(bytes, [1, 2, 3, 4, 5]);
}

#[test]
fn collects_the_items_of_every_page_in_order() {
    let item = |key: &str| RemoteMultiplier { key: key.into(), rate_multiplier: Some("0.1".into()), rate_error: None };
    let page = |keys: &[&str]| ParsedPage {
        items: keys.iter().map(|k| item(k)).collect(),
        raw_item_count: keys.len(),
        total: 3,
        pages: 2,
    };
    let mut received = Vec::new();
    let first = FetchState::start();
    let next = take_page(&first, &mut received, page(&["a", "b"])).unwrap().unwrap();
    assert_eq!(next.page, 2);
    assert!(take_page(&next, &mut received, page(&["c"])).unwrap().is_none());
    let keys: Vec<&str> = received.iter().map(|r| r.key.as_str()).collect();
    assert_eq!(keys, vec!["a", "b", "c"]);

    let mut refused = vec![item("x")];
    let wrong = ParsedPage { total: 4, ..page(&["c"]) };
    assert_eq!(take_page(&next, &mut refused, wrong).unwrap_err().code, "pagination_changed");
    assert_eq!(refused.len(), 1);
}
