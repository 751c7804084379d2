use aimux_lib::dao::usage_dao::{check_single_update, UsageFilter};
use aimux_lib::error::AppError;

#[test]
fn builds_one_clause_for_listing_and_summary() {
    let filter = UsageFilter {
        account_id: Some("account-a".into()),
        model: None,
        kind: Some("openai".into()),
        success: Some(true),
        started_after: Some("2026-08-24T00:00:00Z".into()),
        started_before: None,
    };
    let (sql, values) = filter.clause();
    assert_eq!(sql, " WHERE 1=1 AND account_id=? AND account_type=? AND success=? AND started_at>=?");
    assert_eq!(values, ["account-a", "openai", "1", "2026-08-24T00:00:00Z"]);
    let empty = UsageFilter {
        account_id: None,
        model: None,
        kind: None,
        success: Some(false),
        started_after: None,
        started_before: Some("b".into()),
    };
    let (sql, values) = empty.clause();
    assert_eq!(sql, " WHERE 1=1 AND success=? AND started_at<=?");
    assert_eq!(values, ["0", "b"]);
}

#[test]
fn expects_exactly_one_finished_stream_row() {
    assert!(check_single_update(1).is_ok());
    match check_single_update(0) {
        Err(AppError::Internal(m)) => assert_eq!(m, "流式使用记录结束更新异常，期望 1 条，实际 0 条"),
        other => panic!("unexpected {:?}", other),
    }
    match check_single_update(u64::MAX) {
        Err(AppError::Internal(m)) => assert_eq!(m, "流式使用记录结束更新异常，期望 1 条，实际 18446744073709551615 条"),
        other => panic!("unexpected {:?}", other),
    }
}
