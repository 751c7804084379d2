//! Rules of the usage records API.

use vstd::prelude::*;

use crate::error::{is_bad_request, AppError};
use crate::schema::account_schema::{page_limit, page_offset};

verus! {

/// Records can be cleaned up after 7, 30 or 90 days; other ages are refused.
pub fn check_cleanup_days(days: i64) -> (r: Result<(), AppError>)
    ensures
        r is Ok <==> (days == 7 || days == 30 || days == 90),
        r matches Err(e) ==> is_bad_request(e, "清理天数只支持 7、30 或 90 天"@),
{
    if !(days == 7 || days == 30 || days == 90) {
        return Err(AppError::BadRequest("清理天数只支持 7、30 或 90 天".to_string()));
    }
    Ok(())
}

/// The offset and size of a page of records: the offset at least 0, the
/// size within 1..=200.
pub fn page_bounds(offset: i64, limit: i64) -> (r: (i64, i64))
    ensures
        r == (page_offset(Some(offset)), page_limit(Some(limit))),
{
    let o = if offset < 0 {
        0
    } else {
        offset
    };
    let l = if limit < 1 {
        1
    } else if limit > 200 {
        200
    } else {
        limit
    };
    (o, l)
}

} // verus!
