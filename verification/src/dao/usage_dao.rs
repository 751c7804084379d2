//! The filters of the usage-record queries.

use vstd::prelude::*;
use crate::text::opt_string_view;

use crate::error::{is_internal, AppError};
use crate::text::{concat, digits, from_chars, push_digits};
use crate::text::opt_str_view;

verus! {

/// The filters of a usage listing and of its summary, which share them.
#[derive(Debug, Clone)]
pub struct UsageFilter {
    pub account_id: Option<String>,
    pub model: Option<String>,
    pub kind: Option<String>,
    pub success: Option<bool>,
    pub started_after: Option<String>,
    pub started_before: Option<String>,
}

/// `sql` when the filter is present, else nothing.
pub open spec fn fragment(present: bool, sql: Seq<char>) -> Seq<char> {
    if present {
        sql
    } else {
        Seq::empty()
    }
}

/// The bound value of a present filter.
pub open spec fn bound_value(v: Option<Seq<char>>) -> Seq<Seq<char>> {
    match v {
        Some(x) => seq![x],
        None => Seq::empty(),
    }
}

/// How a success filter is bound: `1` or `0`.
pub open spec fn success_value(s: Option<bool>) -> Option<Seq<char>> {
    match s {
        Some(true) => Some("1"@),
        Some(false) => Some("0"@),
        None => None,
    }
}

/// The `WHERE` clause of the filters: a condition for each present filter,
/// in a fixed order.
pub open spec fn where_clause(f: UsageFilter) -> Seq<char> {
    " WHERE 1=1"@ + fragment(f.account_id is Some, " AND account_id=?"@) + fragment(
        f.model is Some,
        " AND model=?"@,
    ) + fragment(f.kind is Some, " AND account_type=?"@) + fragment(
        f.success is Some,
        " AND success=?"@,
    ) + fragment(f.started_after is Some, " AND started_at>=?"@) + fragment(
        f.started_before is Some,
        " AND started_at<=?"@,
    )
}

/// The values bound to the clause's placeholders, in order.
pub open spec fn where_values(f: UsageFilter) -> Seq<Seq<char>> {
    bound_value(opt_string_view(f.account_id)) + bound_value(opt_string_view(f.model)) + bound_value(
        opt_string_view(f.kind),
    ) + bound_value(success_value(f.success)) + bound_value(opt_string_view(f.started_after))
        + bound_value(opt_string_view(f.started_before))
}

fn add_filter(
    sql: String,
    values: &mut Vec<String>,
    value: Option<String>,
    condition: &str,
) -> (r: String)
    ensures
        r@ == sql@ + fragment(value is Some, condition@),
        crate::text::strings_view(final(values)@) == crate::text::strings_view(old(values)@)
            + bound_value(opt_string_view(value)),
{
    match value {
        Some(v) => {
            let ghost before = values@;
            values.push(v);
            assert(crate::text::strings_view(values@) =~= crate::text::strings_view(before)
                + bound_value(opt_string_view(Some(v))));
            concat(sql.as_str(), condition)
        },
        None => {
            assert(crate::text::strings_view(values@) =~= crate::text::strings_view(values@)
                + bound_value(opt_string_view(value)));
            assert(sql@ =~= sql@ + fragment(false, condition@));
            sql
        },
    }
}

impl UsageFilter {
    /// The `WHERE` clause of the filters and the values for its
    /// placeholders; the listing and its summary use the same clause.
    pub fn clause(&self) -> (r: (String, Vec<String>))
        ensures
            r.0@ == where_clause(*self),
            crate::text::strings_view(r.1@) == where_values(*self),
    {
        let mut values: Vec<String> = Vec::new();
        let sql = " WHERE 1=1".to_string();
        let sql = add_filter(sql, &mut values, self.account_id.clone(), " AND account_id=?");
        let sql = add_filter(sql, &mut values, self.model.clone(), " AND model=?");
        let sql = add_filter(sql, &mut values, self.kind.clone(), " AND account_type=?");
        let success = match self.success {
            Some(true) => Some("1".to_string()),
            Some(false) => Some("0".to_string()),
            None => None,
        };
        let sql = add_filter(sql, &mut values, success, " AND success=?");
        let sql = add_filter(sql, &mut values, self.started_after.clone(), " AND started_at>=?");
        let sql = add_filter(sql, &mut values, self.started_before.clone(), " AND started_at<=?");
        assert(crate::text::strings_view(values@) =~= where_values(*self));
        (sql, values)
    }
}

/// Finishing a stream's record must update exactly one row; any other count
/// is an internal error that names it.
pub fn check_single_update(rows: u64) -> (r: Result<(), AppError>)
    ensures
        r is Ok <==> rows == 1,
        r matches Err(e) ==> is_internal(e, "流式使用记录结束更新异常，期望 1 条，实际 "@ + digits(rows as nat, 0) + " 条"@),
{
    if rows == 1 {
        return Ok(());
    }
    let mut count: Vec<char> = Vec::new();
    push_digits(&mut count, rows, 0);
    let count_text = from_chars(count.as_slice());
    let head = concat("流式使用记录结束更新异常，期望 1 条，实际 ", count_text.as_str());
    Err(AppError::Internal(concat(head.as_str(), " 条")))
}

} // verus!
