//! Rules of the multiplier monitor: checks of a monitor configuration, the
//! remote rates it reads, and what each checked account comes to.

use vstd::prelude::*;
use crate::text::{opt_str_view, opt_string_view, copy_opt_string};

use crate::error::{is_bad_request, is_internal, AppError};
use crate::json::{json_parse, json_strings_text, parse_string_list, string_list, strings_to_json};
use crate::model::multiplier_monitor::{LatestRunStats, MultiplierMonitorConfig};
use crate::schema::multiplier_monitor_schema::{
    MultiplierMonitorCheckResult, MultiplierMonitorConfigView, MultiplierMonitorCreate,
    MultiplierMonitorRunSummary, MultiplierMonitorUpdate,
};
use crate::service::multiplier_query::{
    MultiplierQueryError, RemoteMultiplier,
    bearer, normalize_base_url, url_parse, url_refusal, base_url_text,
};
use crate::text::{
    strings_view, digits,
    chars_starts_with_ci, from_chars, starts_with_ci, sub_chars, to_chars, trim, trim_chars,
    trim_string, chars_eq, compare_char_slices, compare_chars, concat, str_eq, strings_contain,
};

verus! {

broadcast use vstd::string::group_string_axioms;

/// The most accounts one configuration may watch.
pub const MAX_ACCOUNT_COUNT: usize = 10000;

/// The most characters kept of an error message.
pub const MAX_ERROR_LENGTH: usize = 500;

/// The largest multiplier divisor.
pub const MAX_MULTIPLIER_DIVISOR: i64 = 10000;

/// A configuration name: trimmed, not empty, at most 100 characters.
pub fn validate_name(value: &str) -> (r: Result<String, AppError>)
    ensures
        trim(value@).len() == 0 ==> (r matches Err(e) && is_bad_request(e, "配置名称不能为空"@)),
        trim(value@).len() > 100 ==> (r matches Err(e) && is_bad_request(e, "配置名称不能超过 100 个字符"@)),
        0 < trim(value@).len() <= 100 ==> (r matches Ok(n) && n@ == trim(value@)),
{
    let v = trim_chars(value);
    if v.len() == 0 {
        return Err(AppError::BadRequest("配置名称不能为空".to_string()));
    }
    if v.len() > 100 {
        return Err(AppError::BadRequest("配置名称不能超过 100 个字符".to_string()));
    }
    Ok(from_chars(v.as_slice()))
}

/// A monitor URL, stored as the base address of the trimmed text; a refused
/// URL is a bad request with the query check's message.
pub fn validate_url(value: &str) -> (r: Result<String, AppError>)
    ensures
        r is Ok <==> url_refusal(trim(value@)) is None,
        r matches Ok(b) ==> url_parse(trim(trim(value@))) matches Ok(u) && b@ == base_url_text(u),
        r matches Err(e) ==> url_refusal(trim(value@)) matches Some(f) && is_bad_request(e, f.1),
{
    let v = trim_string(value);
    match normalize_base_url(v.as_str()) {
        Ok(b) => Ok(b),
        Err(error) => Err(AppError::BadRequest(error.message)),
    }
}

/// A stored query token: trimmed, without a leading `Bearer ` (in any case),
/// trimmed again.
pub open spec fn token_spec(value: Seq<char>) -> Seq<char> {
    let t = trim(value);
    if starts_with_ci(t, bearer()) {
        trim(t.skip(7))
    } else {
        t
    }
}

/// Normalizes a query token before it is stored; an empty token is a bad
/// request.
pub fn normalize_token(value: &str) -> (r: Result<String, AppError>)
    ensures
        r is Err <==> token_spec(value@).len() == 0,
        r matches Ok(t) ==> t@ == token_spec(value@),
        r matches Err(e) ==> is_bad_request(e, "查询 token 不能为空"@),
{
    let v = trim_chars(value);
    let b = vec!['B', 'e', 'a', 'r', 'e', 'r', ' '];
    assert(b@ =~= bearer());
    let t = if chars_starts_with_ci(v.as_slice(), b.as_slice()) {
        let rest = sub_chars(v.as_slice(), 7, v.len());
        let s = from_chars(rest.as_slice());
        trim_chars(s.as_str())
    } else {
        v
    };
    if t.len() == 0 {
        return Err(AppError::BadRequest("查询 token 不能为空".to_string()));
    }
    Ok(from_chars(t.as_slice()))
}

/// Normalizes a refresh token before it is stored: trimmed, may be empty.
pub fn normalize_refresh_token(value: &str) -> (r: Result<String, AppError>)
    ensures
        r matches Ok(t) && t@ == trim(value@),
{
    Ok(trim_string(value))
}

/// The multiplier divisor, which must lie in `1..=10000`.
pub fn validate_multiplier_divisor(value: i64) -> (r: Result<i64, AppError>)
    ensures
        r is Ok <==> 1 <= value <= MAX_MULTIPLIER_DIVISOR,
        r matches Ok(v) ==> v == value,
        r matches Err(e) ==> is_bad_request(e, "倍率除数必须是 1～10000 的整数"@),
{
    if !(1 <= value && value <= MAX_MULTIPLIER_DIVISOR) {
        return Err(AppError::BadRequest("倍率除数必须是 1～10000 的整数".to_string()));
    }
    Ok(value)
}

/// The account ids kept from `values`, in order: each trimmed, the empty ones
/// and repeats of an earlier one dropped.
pub open spec fn unique_trimmed(values: Seq<Seq<char>>) -> Seq<Seq<char>>
    decreases values.len(),
{
    if values.len() == 0 {
        Seq::empty()
    } else {
        let kept = unique_trimmed(values.drop_last());
        let v = trim(values.last());
        if v.len() == 0 || kept.contains(v) {
            kept
        } else {
            kept.push(v)
        }
    }
}

/// The views of a list of character vectors.
pub open spec fn vecs_view(v: Seq<Vec<char>>) -> Seq<Seq<char>> {
    v.map_values(|x: Vec<char>| x@)
}

fn contains_chars(list: &Vec<Vec<char>>, v: &Vec<char>) -> (r: bool)
    ensures
        r == vecs_view(list@).contains(v@),
{
    let mut i: usize = 0;
    while i < list.len()
        invariant
            i <= list@.len(),
            forall|j: int| 0 <= j < i ==> list@[j]@ != v@,
        decreases list@.len() - i,
    {
        if chars_eq(list[i].as_slice(), v.as_slice()) {
            assert(vecs_view(list@)[i as int] == v@);
            return true;
        }
        i = i + 1;
    }
    assert forall|j: int| 0 <= j < list@.len() implies #[trigger] vecs_view(list@)[j] != v@ by {
        assert(vecs_view(list@)[j] == list@[j]@);
    }
    false
}

/// The account ids of a configuration: trimmed, without empty ones and
/// repeats, at least one and at most 10000.
pub fn normalize_account_ids(values: Vec<String>) -> (r: Result<Vec<String>, AppError>)
    ensures
        unique_trimmed(strings_view(values@)).len() == 0 ==> (r matches Err(e) && is_bad_request(
            e,
            "请至少选择一个账号"@,
        )),
        unique_trimmed(strings_view(values@)).len() > MAX_ACCOUNT_COUNT ==> (r matches Err(e)
            && is_bad_request(e, "选择的账号数量超过上限"@)),
        0 < unique_trimmed(strings_view(values@)).len() <= MAX_ACCOUNT_COUNT ==> (r matches Ok(ids)
            && strings_view(ids@) == unique_trimmed(strings_view(values@))),
{
    let mut kept: Vec<Vec<char>> = Vec::new();
    let mut i: usize = 0;
    while i < values.len()
        invariant
            i <= values@.len(),
            vecs_view(kept@) == unique_trimmed(strings_view(values@).take(i as int)),
        decreases values@.len() - i,
    {
        let v = trim_chars(values[i].as_str());
        assert(strings_view(values@).take(i + 1).drop_last() =~= strings_view(values@).take(i as int));
        assert(strings_view(values@).take(i + 1).last() == values@[i as int]@);
        if v.len() > 0 && !contains_chars(&kept, &v) {
            let ghost before = kept@;
            kept.push(v);
            assert(vecs_view(kept@) =~= vecs_view(before).push(
                kept@.last()@,
            ));
        }
        i = i + 1;
    }
    assert(strings_view(values@).take(i as int) =~= strings_view(values@));
    if kept.len() == 0 {
        return Err(AppError::BadRequest("请至少选择一个账号".to_string()));
    }
    if kept.len() > MAX_ACCOUNT_COUNT {
        return Err(AppError::BadRequest("选择的账号数量超过上限".to_string()));
    }
    let mut result: Vec<String> = Vec::new();
    let mut j: usize = 0;
    while j < kept.len()
        invariant
            j <= kept@.len(),
            strings_view(result@) == vecs_view(kept@).take(j as int),
        decreases kept@.len() - j,
    {
        let ghost before = result@;
        result.push(from_chars(kept[j].as_slice()));
        assert(strings_view(result@) =~= strings_view(before).push(kept@[j as int]@));
        assert(vecs_view(kept@).take(j + 1) =~= vecs_view(kept@).take(j as int).push(kept@[j as int]@));
        j = j + 1;
    }
    assert(vecs_view(kept@).take(j as int) =~= vecs_view(kept@));
    Ok(result)
}

/// Kept account ids are never empty and never repeat.
pub proof fn lemma_unique_trimmed_distinct(values: Seq<Seq<char>>)
    ensures
        forall|i: int| 0 <= i < unique_trimmed(values).len() ==> #[trigger] unique_trimmed(values)[i].len() > 0,
        forall|i: int, j: int|
            0 <= i < j < unique_trimmed(values).len() ==> unique_trimmed(values)[i] != unique_trimmed(values)[j],
    decreases values.len(),
{
    if values.len() > 0 {
        lemma_unique_trimmed_distinct(values.drop_last());
        let kept = unique_trimmed(values.drop_last());
        let v = trim(values.last());
        if !(v.len() == 0 || kept.contains(v)) {
            assert forall|i: int, j: int|
                0 <= i < j < unique_trimmed(values).len() implies unique_trimmed(values)[i] != unique_trimmed(values)[j] by {
                if j == kept.len() {
                    assert(kept[i] != v);
                }
            }
        }
    }
}

/// Every id given, once trimmed and unless empty, is kept.
pub proof fn lemma_unique_trimmed_keeps_all(values: Seq<Seq<char>>, k: int)
    requires
        0 <= k < values.len(),
        trim(values[k]).len() > 0,
    ensures
        unique_trimmed(values).contains(trim(values[k])),
    decreases values.len(),
{
    let kept = unique_trimmed(values.drop_last());
    if k < values.len() - 1 {
        lemma_unique_trimmed_keeps_all(values.drop_last(), k);
        let x = trim(values[k]);
        let i = choose|i: int| 0 <= i < kept.len() && kept[i] == x;
        let v = trim(values.last());
        if !(v.len() == 0 || kept.contains(v)) {
            assert(unique_trimmed(values)[i] == x);
        }
    } else {
        let v = trim(values.last());
        if !kept.contains(v) {
            assert(unique_trimmed(values)[kept.len() as int] == v);
        }
    }
}

/// The first 500 characters of an error message.
pub fn truncate_error(value: &str) -> (r: String)
    ensures
        r@ == value@.take(if value@.len() < 500 { value@.len() as int } else { 500 }),
{
    let v = to_chars(value);
    let n = if v.len() < MAX_ERROR_LENGTH { v.len() } else { MAX_ERROR_LENGTH };
    let t = sub_chars(v.as_slice(), 0, n);
    assert(t@ =~= value@.take(n as int));
    from_chars(t.as_slice())
}

/// How many of `results` are `what`.
pub open spec fn count_of(results: Seq<Seq<char>>, what: Seq<char>) -> nat
    decreases results.len(),
{
    if results.len() == 0 {
        0
    } else {
        count_of(results.drop_last(), what) + if results.last() == what { 1nat } else { 0nat }
    }
}

/// How many of `results` are none of updated, unchanged and failed.
pub open spec fn issue_count(results: Seq<Seq<char>>) -> nat
    decreases results.len(),
{
    if results.len() == 0 {
        0
    } else {
        let r = results.last();
        issue_count(results.drop_last()) + if r == "updated"@ || r == "unchanged"@ || r == "failed"@ {
            0nat
        } else {
            1nat
        }
    }
}

proof fn lemma_count_bound(results: Seq<Seq<char>>, what: Seq<char>)
    ensures
        count_of(results, what) <= results.len(),
        issue_count(results) <= results.len(),
    decreases results.len(),
{
    if results.len() > 0 {
        lemma_count_bound(results.drop_last(), what);
    }
}

/// The summary of a run from the results of its log entries.
pub fn summarize(run_id: &str, results: &[String]) -> (r: MultiplierMonitorCheckResult)
    requires
        results@.len() <= i64::MAX,
    ensures
        r.run_id@ == run_id@,
        r.total == results@.len(),
        r.updated == count_of(strings_view(results@), "updated"@),
        r.unchanged == count_of(strings_view(results@), "unchanged"@),
        r.failed == count_of(strings_view(results@), "failed"@),
        r.issues == issue_count(strings_view(results@)),
{
    let upd = to_chars("updated");
    let unc = to_chars("unchanged");
    let fail = to_chars("failed");
    let mut updated: i64 = 0;
    let mut unchanged: i64 = 0;
    let mut failed: i64 = 0;
    let mut issues: i64 = 0;
    let mut i: usize = 0;
    while i < results.len()
        invariant
            i <= results@.len() <= i64::MAX,
            upd@ == "updated"@,
            unc@ == "unchanged"@,
            fail@ == "failed"@,
            updated == count_of(strings_view(results@).take(i as int), "updated"@),
            unchanged == count_of(strings_view(results@).take(i as int), "unchanged"@),
            failed == count_of(strings_view(results@).take(i as int), "failed"@),
            issues == issue_count(strings_view(results@).take(i as int)),
        decreases results@.len() - i,
    {
        let ghost prefix = strings_view(results@).take(i + 1);
        assert(prefix.drop_last() =~= strings_view(results@).take(i as int));
        assert(prefix.last() == results@[i as int]@);
        proof {
            lemma_count_bound(strings_view(results@).take(i as int), "updated"@);
            lemma_count_bound(strings_view(results@).take(i as int), "unchanged"@);
            lemma_count_bound(strings_view(results@).take(i as int), "failed"@);
        }
        let v = to_chars(results[i].as_str());
        let is_upd = chars_eq(v.as_slice(), upd.as_slice());
        let is_unc = chars_eq(v.as_slice(), unc.as_slice());
        let is_fail = chars_eq(v.as_slice(), fail.as_slice());
        if is_upd {
            updated = updated + 1;
        }
        if is_unc {
            unchanged = unchanged + 1;
        }
        if is_fail {
            failed = failed + 1;
        }
        if !(is_upd || is_unc || is_fail) {
            issues = issues + 1;
        }
        i = i + 1;
    }
    assert(strings_view(results@).take(i as int) =~= strings_view(results@));
    MultiplierMonitorCheckResult {
        run_id: run_id.to_string(),
        total: results.len() as i64,
        updated,
        unchanged,
        issues,
        failed,
    }
}


/// A decimal number `mantissa / 10^scale` in `rust_decimal`'s range: a
/// 96-bit mantissa and a scale of at most 28.
#[derive(Debug, Clone, Copy, PartialEq, Eq, Structural)]
pub struct DecimalValue {
    pub mantissa: i128,
    pub scale: u32,
}

/// The largest mantissa of a `rust_decimal::Decimal`.
pub const MAX_MANTISSA: i128 = 0xFFFF_FFFF_FFFF_FFFF_FFFF_FFFF;

impl DecimalValue {
    /// Whether the value lies in `rust_decimal`'s range.
    pub open spec fn wf(self) -> bool {
        self.scale <= 28 && -MAX_MANTISSA <= self.mantissa <= MAX_MANTISSA
    }
}

/// The unsigned digits of a decimal: its mantissa's magnitude, zero-padded
/// to at least one more digit than its scale.
pub open spec fn decimal_digits(value: DecimalValue) -> Seq<char> {
    digits(
        (if value.mantissa < 0 {
            -value.mantissa
        } else {
            value.mantissa as int
        }) as nat,
        (value.scale + 1) as nat,
    )
}

/// What `rust_decimal::Decimal`'s `Display` prints for a value: a `-` for a
/// negative mantissa, then the digits with a `.` before the last `scale` of
/// them (none when the scale is 0). The whole part has no leading zeros
/// but is `0` when the value is below one.
pub open spec fn decimal_text(value: DecimalValue) -> Seq<char> {
    let d = decimal_digits(value);
    let sign: Seq<char> = if value.mantissa < 0 {
        seq!['-']
    } else {
        seq![]
    };
    if value.scale == 0 {
        sign + d
    } else {
        sign + d.take(d.len() - value.scale) + seq!['.'] + d.skip(d.len() - value.scale)
    }
}

/// Calls `Decimal::from_i128_with_scale` and `to_string`. Claimed: the
/// result is the text that `Display` writes, as `str::to_str_internal` and
/// `pad_integral` build it in `rust_decimal`'s source (digits of the
/// mantissa padded to the scale, the point, a sign for a negative
/// mantissa). For the values admitted nothing panics: the scale and
/// mantissa are in `Decimal`'s range.
#[verifier::external_body]
fn decimal_to_string(value: DecimalValue) -> (r: String)
    requires
        value.wf(),
    ensures
        r@ == decimal_text(value),
{
    rust_decimal::Decimal::from_i128_with_scale(value.mantissa, value.scale).to_string()
}

impl DecimalValue {
    /// The decimal's text, as `rust_decimal` prints it.
    pub fn to_text(&self) -> (r: String)
        requires
            self.wf(),
        ensures
            r@ == decimal_text(*self),
    {
        decimal_to_string(*self)
    }
}

/// What `rust_decimal::Decimal::from_str` parses `text` to, as mantissa and
/// scale.
pub uninterp spec fn decimal_parse(text: Seq<char>) -> Option<DecimalValue>;

/// What `(value / Decimal::from(divisor)).normalize()` is in `rust_decimal`.
pub uninterp spec fn decimal_quotient(value: DecimalValue, divisor: i64) -> DecimalValue;

/// Calls `rust_decimal::Decimal::from_str` and reads mantissa and scale.
/// Claimed: the result is the named parse, in `Decimal`'s range (a 96-bit
/// mantissa, a scale of at most 28).
#[verifier::external_body]
fn decimal_from_str(text: &str) -> (r: Option<DecimalValue>)
    ensures
        r == decimal_parse(text@),
        r matches Some(d) ==> d.wf(),
{
    <rust_decimal::Decimal as std::str::FromStr>::from_str(text).ok().map(|d| DecimalValue { mantissa: d.mantissa(), scale: d.scale() })
}

/// Calls `Decimal::from_i128_with_scale`, divides by `Decimal::from(divisor)`
/// and calls `normalize`, reading mantissa and scale of the result. Claimed:
/// the result is the named quotient, in `Decimal`'s range, and normalized
/// (as `normalize` documents: no trailing zeros, so a positive scale means a
/// mantissa not divisible by 10). For the values admitted nothing panics:
/// the scale and mantissa are in range and the divisor is at least 1.
#[verifier::external_body]
fn decimal_divide(value: DecimalValue, divisor: i64) -> (r: DecimalValue)
    requires
        value.wf(),
        1 <= divisor <= MAX_MULTIPLIER_DIVISOR,
    ensures
        r == decimal_quotient(value, divisor),
        r.wf(),
        r.scale > 0 ==> r.mantissa % 10 != 0,
{
    let d = (rust_decimal::Decimal::from_i128_with_scale(value.mantissa, value.scale) / rust_decimal::Decimal::from(divisor)).normalize();
    DecimalValue { mantissa: d.mantissa(), scale: d.scale() }
}

/// `10^n`.
pub open spec fn pow10(n: nat) -> int
    decreases n,
{
    if n == 0 {
        1
    } else {
        10 * pow10((n - 1) as nat)
    }
}

proof fn lemma_pow10_bounds(n: nat)
    requires
        n <= 28,
    ensures
        1 <= pow10(n) <= 10000000000000000000000000000,
    decreases n,
{
    if n > 0 {
        lemma_pow10_bounds((n - 1) as nat);
        assert(pow10(n) == 10 * pow10((n - 1) as nat));
        if n == 28 {
            assert(pow10(27) <= 1000000000000000000000000000) by {
                reveal_with_fuel(pow10, 29);
            }
        } else {
            lemma_pow10_monotone((n - 1) as nat, 27);
            assert(pow10(27) == 1000000000000000000000000000) by {
                reveal_with_fuel(pow10, 29);
            }
        }
    }
}

proof fn lemma_pow10_monotone(a: nat, b: nat)
    requires
        a <= b,
    ensures
        pow10(a) <= pow10(b),
        pow10(a) >= 1,
    decreases b,
{
    if b > a {
        lemma_pow10_monotone(a, (b - 1) as nat);
    } else if a > 0 {
        lemma_pow10_monotone((a - 1) as nat, (a - 1) as nat);
    }
}

fn pow10_exec(n: u32) -> (r: i128)
    requires
        n <= 28,
    ensures
        r == pow10(n as nat),
{
    let mut r: i128 = 1;
    let mut i: u32 = 0;
    while i < n
        invariant
            i <= n <= 28,
            r == pow10(i as nat),
        decreases n - i,
    {
        proof {
            lemma_pow10_bounds(i as nat);
            lemma_pow10_bounds((i + 1) as nat);
        }
        r = r * 10;
        i = i + 1;
    }
    r
}

/// Whether two decimals have the same value, whatever their scales (as
/// `rust_decimal` compares them: `0.10 == 0.1`).
pub open spec fn same_value(a: DecimalValue, b: DecimalValue) -> bool {
    a.mantissa * pow10(b.scale as nat) == b.mantissa * pow10(a.scale as nat)
}

proof fn lemma_pow10_add(x: nat, k: nat)
    ensures
        pow10(x + k) == pow10(x) * pow10(k),
    decreases x,
{
    if x > 0 {
        lemma_pow10_add((x - 1) as nat, k);
        assert(pow10(x + k) == 10 * pow10((x - 1 + k) as nat));
        assert(10 * (pow10((x - 1) as nat) * pow10(k)) == (10 * pow10((x - 1) as nat)) * pow10(k))
            by (nonlinear_arith);
    }
}

proof fn lemma_pow10_positive(n: nat)
    ensures
        pow10(n) >= 1,
{
    lemma_pow10_monotone(n, n);
}

proof fn lemma_pow10_38(n: nat)
    ensures
        n <= 38 ==> pow10(n) <= 100000000000000000000000000000000000000,
        n > 38 ==> pow10(n) > 170141183460469231731687303715884105727,
{
    assert(pow10(38) == 100000000000000000000000000000000000000) by {
        reveal_with_fuel(pow10, 39);
    }
    assert(pow10(39) == 1000000000000000000000000000000000000000) by {
        reveal_with_fuel(pow10, 40);
    }
    if n <= 38 {
        lemma_pow10_monotone(n, 38);
    } else {
        lemma_pow10_monotone(39, n);
    }
}

fn pow10_u128(n: u32) -> (r: u128)
    requires
        n <= 38,
    ensures
        r == pow10(n as nat),
{
    let mut r: u128 = 1;
    let mut i: u32 = 0;
    while i < n
        invariant
            i <= n <= 38,
            r == pow10(i as nat),
        decreases n - i,
    {
        proof {
            lemma_pow10_38((i + 1) as nat);
        }
        r = r * 10;
        i = i + 1;
    }
    r
}

/// The magnitude of an `i128`.
fn magnitude(m: i128) -> (r: u128)
    ensures
        r == (if m < 0 { -m } else { m as int }),
{
    if m < 0 {
        let n: i128 = -(m + 1);
        (n as u128) + 1
    } else {
        m as u128
    }
}

/// Whether `small * 10^k == large`.
fn scaled_match(small: i128, large: i128, k: u32) -> (r: bool)
    ensures
        r == (small * pow10(k as nat) == large),
{
    proof {
        lemma_pow10_38(k as nat);
        lemma_pow10_positive(k as nat);
    }
    let ghost p = pow10(k as nat);
    if (small < 0) != (large < 0) {
        assert(small * p != large) by (nonlinear_arith)
            requires
                (small < 0) != (large < 0),
                p >= 1,
        ;
        return false;
    }
    if k > 38 {
        if small > 0 {
            assert(small * p >= p) by (nonlinear_arith)
                requires
                    small >= 1,
                    p >= 1,
            ;
        } else if small < 0 {
            assert(small * p <= -p) by (nonlinear_arith)
                requires
                    small <= -1,
                    p >= 1,
            ;
        }
        return small == 0 && large == 0;
    }
    let pe = pow10_u128(k);
    let us = magnitude(small);
    let ul = magnitude(large);
    let r = ul % pe == 0 && ul / pe == us;
    proof {
        assert((ul % pe == 0 && ul / pe == us) == (us * p == ul)) by (nonlinear_arith)
            requires
                p == pe,
                p >= 1,
        {
            vstd::arithmetic::div_mod::lemma_fundamental_div_mod(ul as int, p);
            if us * p == ul {
                vstd::arithmetic::div_mod::lemma_mod_multiples_basic(us as int, p);
                vstd::arithmetic::div_mod::lemma_div_multiples_vanish(us as int, p);
            }
        }
        assert((us * p == ul) == (small * p == large)) by (nonlinear_arith)
            requires
                (small < 0) == (large < 0),
                us == (if small < 0 { -small } else { small as int }),
                ul == (if large < 0 { -large } else { large as int }),
        ;
    }
    r
}

/// Whether two decimals have the same value.
pub fn same_value_exec(a: &DecimalValue, b: &DecimalValue) -> (r: bool)
    ensures
        r == same_value(*a, *b),
{
    if a.scale <= b.scale {
        let k = b.scale - a.scale;
        let r = scaled_match(a.mantissa, b.mantissa, k);
        proof {
            let q = pow10(a.scale as nat);
            let pk = pow10(k as nat);
            lemma_pow10_add(a.scale as nat, k as nat);
            lemma_pow10_positive(a.scale as nat);
            assert(pow10(b.scale as nat) == q * pk);
            assert((a.mantissa * (q * pk) == b.mantissa * q) == (a.mantissa * pk == b.mantissa))
                by (nonlinear_arith)
                requires
                    q >= 1,
            ;
        }
        r
    } else {
        let k = a.scale - b.scale;
        let r = scaled_match(b.mantissa, a.mantissa, k);
        proof {
            let q = pow10(b.scale as nat);
            let pk = pow10(k as nat);
            lemma_pow10_add(b.scale as nat, k as nat);
            lemma_pow10_positive(b.scale as nat);
            assert(pow10(a.scale as nat) == q * pk);
            assert((a.mantissa * q == b.mantissa * (q * pk)) == (b.mantissa * pk == a.mantissa))
                by (nonlinear_arith)
                requires
                    q >= 1,
            ;
        }
        r
    }
}

/// `d < 1/100`.
pub open spec fn below_one_cent(d: DecimalValue) -> bool {
    d.mantissa * 100 < pow10(d.scale as nat)
}

/// `d > 99/100`.
pub open spec fn above_ninety_nine_cents(d: DecimalValue) -> bool {
    d.mantissa * 100 > 99 * pow10(d.scale as nat)
}

/// A remote rate once parsed and divided: the accepted rate, the divided
/// value whenever the division happened, and why the rate is refused.
#[derive(Debug, Clone)]
pub struct ParsedRemoteRate {
    pub decimal: Option<DecimalValue>,
    pub normalized: Option<DecimalValue>,
    pub error: Option<String>,
}

/// The view of a parsed rate.
pub open spec fn rate_view(p: ParsedRemoteRate) -> (Option<DecimalValue>, Option<DecimalValue>, Option<Seq<char>>) {
    (p.decimal, p.normalized, opt_string_view(p.error))
}

/// How a remote rate is read: a rate error reported with the key stands; a
/// missing rate, a rate that is no decimal, or an invalid divisor is refused;
/// otherwise the rate is divided by the divisor and must lie in
/// `[0.01, 0.99]` with at most two decimals.
pub open spec fn parse_rate_spec(item: RemoteMultiplier, divisor: i64) -> (Option<DecimalValue>, Option<DecimalValue>, Option<Seq<char>>) {
    if item.rate_error is Some {
        (None, None, opt_string_view(item.rate_error))
    } else if item.rate_multiplier is None {
        (None, None, Some("远端未返回 rate_multiplier"@))
    } else if decimal_parse(item.rate_multiplier->0@) is None {
        (None, None, Some("rate_multiplier 不是有效十进制数"@))
    } else if !(1 <= divisor <= MAX_MULTIPLIER_DIVISOR) {
        (None, None, Some("倍率除数配置无效"@))
    } else {
        let n = decimal_quotient(decimal_parse(item.rate_multiplier->0@)->0, divisor);
        if below_one_cent(n) || above_ninety_nine_cents(n) {
            (None, Some(n), Some("rate_multiplier 除以 "@ + crate::text::int_text(divisor as int) + " 后必须在 0.01～0.99 之间"@))
        } else if n.scale > 2 {
            (None, Some(n), Some("rate_multiplier 除以 "@ + crate::text::int_text(divisor as int) + " 后最多保留两位小数"@))
        } else {
            (Some(n), Some(n), None)
        }
    }
}

fn divisor_message(divisor: i64, tail: &str) -> (r: String)
    ensures
        r@ == "rate_multiplier 除以 "@ + crate::text::int_text(divisor as int) + tail@,
{
    let t = crate::text::int_to_string(divisor);
    let a = crate::text::concat("rate_multiplier 除以 ", t.as_str());
    crate::text::concat(a.as_str(), tail)
}

/// Reads the remote rate of one key.
pub fn parse_remote_rate(item: &RemoteMultiplier, multiplier_divisor: i64) -> (r: ParsedRemoteRate)
    ensures
        rate_view(r) == parse_rate_spec(*item, multiplier_divisor),
        r.decimal is Some ==> r.error is None && r.decimal == r.normalized,
        r.decimal is None ==> r.error is Some,
{
    if item.rate_error.is_some() {
        return ParsedRemoteRate { decimal: None, normalized: None, error: copy_opt_string(&item.rate_error) };
    }
    let raw = match &item.rate_multiplier {
        Some(t) => t,
        None => return ParsedRemoteRate { decimal: None, normalized: None, error: Some("远端未返回 rate_multiplier".to_string()) },
    };
    let d = match decimal_from_str(raw.as_str()) {
        Some(d) => d,
        None => return ParsedRemoteRate { decimal: None, normalized: None, error: Some("rate_multiplier 不是有效十进制数".to_string()) },
    };
    if !(1 <= multiplier_divisor && multiplier_divisor <= MAX_MULTIPLIER_DIVISOR) {
        return ParsedRemoteRate { decimal: None, normalized: None, error: Some("倍率除数配置无效".to_string()) };
    }
    let n = decimal_divide(d, multiplier_divisor);
    let p = pow10_exec(n.scale);
    proof {
        lemma_pow10_bounds(n.scale as nat);
    }
    if n.mantissa * 100 < p || n.mantissa * 100 > 99 * p {
        return ParsedRemoteRate { decimal: None, normalized: Some(n), error: Some(divisor_message(multiplier_divisor, " 后必须在 0.01～0.99 之间")) };
    }
    if n.scale > 2 {
        return ParsedRemoteRate { decimal: None, normalized: Some(n), error: Some(divisor_message(multiplier_divisor, " 后最多保留两位小数")) };
    }
    ParsedRemoteRate { decimal: Some(n), normalized: Some(n), error: None }
}

/// An accepted rate lies in `[0.01, 0.99]` and has at most two decimals: it
/// is a whole number of hundredths from 1 to 99.
pub proof fn lemma_accepted_rate_is_cents(item: RemoteMultiplier, divisor: i64)
    requires
        parse_rate_spec(item, divisor).0 is Some,
    ensures
        ({
            let d = parse_rate_spec(item, divisor).0->0;
            &&& d.scale <= 2
            &&& 1 <= d.mantissa * pow10((2 - d.scale) as nat) <= 99
        }),
{
    let d = parse_rate_spec(item, divisor).0->0;
    reveal_with_fuel(pow10, 3);
    assert(pow10(0) == 1 && pow10(1) == 10 && pow10(2) == 100);
    assert(!below_one_cent(d) && !above_ninety_nine_cents(d));
    if d.scale == 0 {
        assert(d.mantissa * 100 >= 1 && d.mantissa * 100 <= 99);
    } else if d.scale == 1 {
        assert(d.mantissa * 100 >= 10 && d.mantissa * 100 <= 990);
        assert(1 <= d.mantissa <= 9);
        assert(pow10((2 - d.scale) as nat) == 10);
    } else {
        assert(d.mantissa * 100 >= 100 && d.mantissa * 100 <= 9900);
        assert(pow10((2 - d.scale) as nat) == 1);
    }
}


/// The view of a remote rate table: key and rate view of each entry.
pub open spec fn table_view(v: Seq<(String, ParsedRemoteRate)>) -> Seq<(Seq<char>, (Option<DecimalValue>, Option<DecimalValue>, Option<Seq<char>>))> {
    v.map_values(|e: (String, ParsedRemoteRate)| (e.0@, rate_view(e.1)))
}

/// The index of the first entry of `m` with key `k`.
pub open spec fn key_index<V>(m: Seq<(Seq<char>, V)>, k: Seq<char>) -> Option<int>
    decreases m.len(),
{
    if m.len() == 0 {
        None
    } else {
        match key_index(m.drop_last(), k) {
            Some(i) => Some(i),
            None => if m.last().0 == k {
                Some(m.len() - 1)
            } else {
                None
            },
        }
    }
}

proof fn lemma_key_index<V>(m: Seq<(Seq<char>, V)>, k: Seq<char>)
    ensures
        match key_index(m, k) {
            Some(i) => 0 <= i < m.len() && m[i].0 == k && forall|j: int| 0 <= j < i ==> #[trigger] m[j].0 != k,
            None => forall|j: int| 0 <= j < m.len() ==> #[trigger] m[j].0 != k,
        },
    decreases m.len(),
{
    if m.len() > 0 {
        lemma_key_index(m.drop_last(), k);
        match key_index(m.drop_last(), k) {
            Some(i) => {
                assert forall|j: int| 0 <= j < i implies #[trigger] m[j].0 != k by {
                    assert(m[j] == m.drop_last()[j]);
                }
            },
            None => {
                assert forall|j: int| 0 <= j < m.len() - 1 implies #[trigger] m[j].0 != k by {
                    assert(m[j] == m.drop_last()[j]);
                }
            },
        }
    }
}

/// The rate table built from the remote list: each key with its parsed rate,
/// in the order of first appearance; a key listed again must come with the
/// same accepted rate and the same error, else the list is refused (`None`).
pub open spec fn remote_table(items: Seq<RemoteMultiplier>, divisor: i64) -> Option<Seq<(Seq<char>, (Option<DecimalValue>, Option<DecimalValue>, Option<Seq<char>>))>>
    decreases items.len(),
{
    if items.len() == 0 {
        Some(Seq::empty())
    } else {
        match remote_table(items.drop_last(), divisor) {
            None => None,
            Some(m) => {
                let it = items.last();
                let p = parse_rate_spec(it, divisor);
                match key_index(m, it.key@) {
                    Some(i) => if m[i].1.0 != p.0 || m[i].1.2 != p.2 {
                        None
                    } else {
                        Some(m)
                    },
                    None => Some(m.push((it.key@, p))),
                }
            },
        }
    }
}

proof fn lemma_table_refusal_stays(items: Seq<RemoteMultiplier>, k: int, divisor: i64)
    requires
        0 <= k <= items.len(),
        remote_table(items.take(k), divisor) is None,
    ensures
        remote_table(items, divisor) is None,
    decreases items.len() - k,
{
    if k < items.len() {
        assert(items.take(k + 1).drop_last() =~= items.take(k));
        lemma_table_refusal_stays(items, k + 1, divisor);
    } else {
        assert(items.take(k) =~= items);
    }
}

fn opt_string_eq(a: &Option<String>, b: &Option<String>) -> (r: bool)
    ensures
        r == (opt_string_view(*a) == opt_string_view(*b)),
{
    match (a, b) {
        (Some(x), Some(y)) => {
            let xv = to_chars(x.as_str());
            let yv = to_chars(y.as_str());
            chars_eq(xv.as_slice(), yv.as_slice())
        },
        (None, None) => true,
        _ => false,
    }
}

fn find_key(m: &[(String, ParsedRemoteRate)], k: &str) -> (r: Option<usize>)
    ensures
        match r {
            Some(i) => i < m@.len() && key_index(table_view(m@), k@) == Some(i as int),
            None => key_index(table_view(m@), k@) is None,
        },
{
    let mut i: usize = 0;
    while i < m.len()
        invariant
            i <= m@.len(),
            forall|j: int| 0 <= j < i ==> #[trigger] table_view(m@)[j].0 != k@,
        decreases m@.len() - i,
    {
        if str_eq(m[i].0.as_str(), k) {
            assert(table_view(m@)[i as int].0 == k@);
            proof {
                lemma_key_index(table_view(m@), k@);
            }
            return Some(i);
        }
        assert(table_view(m@)[i as int].0 == m@[i as int].0@);
        i = i + 1;
    }
    proof {
        lemma_key_index(table_view(m@), k@);
    }
    None
}

fn clone_rate(p: &ParsedRemoteRate) -> (r: ParsedRemoteRate)
    ensures
        r == *p,
{
    ParsedRemoteRate { decimal: p.decimal, normalized: p.normalized, error: copy_opt_string(&p.error) }
}

/// The rate table of the remote list, keyed by key.
pub fn remote_map(remote: Vec<RemoteMultiplier>, multiplier_divisor: i64) -> (r: Result<Vec<(String, ParsedRemoteRate)>, MultiplierQueryError>)
    ensures
        r is Ok <==> remote_table(remote@, multiplier_divisor) is Some,
        r matches Ok(m) ==> Some(table_view(m@)) == remote_table(remote@, multiplier_divisor),
        r matches Err(e) ==> e.is("duplicate_key_conflict"@, "远端返回了倍率不一致的重复 key"@),
{
    let mut result: Vec<(String, ParsedRemoteRate)> = Vec::new();
    let mut i: usize = 0;
    while i < remote.len()
        invariant
            i <= remote@.len(),
            remote_table(remote@.take(i as int), multiplier_divisor) == Some(table_view(result@)),
        decreases remote@.len() - i,
    {
        let item = &remote[i];
        assert(remote@.take(i + 1).drop_last() =~= remote@.take(i as int));
        assert(remote@.take(i + 1).last() == remote@[i as int]);
        let parsed = parse_remote_rate(item, multiplier_divisor);
        match find_key(result.as_slice(), item.key.as_str()) {
            Some(j) => {
                let existing = &result[j].1;
                assert(table_view(result@)[j as int].1 == rate_view(result@[j as int].1));
                if existing.decimal != parsed.decimal || !opt_string_eq(&existing.error, &parsed.error) {
                    proof {
                        lemma_table_refusal_stays(remote@, (i + 1) as int, multiplier_divisor);
                    }
                    return Err(MultiplierQueryError::new("duplicate_key_conflict", "远端返回了倍率不一致的重复 key".to_string()));
                }
            },
            None => {
                let ghost before = result@;
                result.push((item.key.clone(), parsed));
                assert(table_view(result@) =~= table_view(before).push((item.key@, rate_view(parsed))));
            },
        }
        i = i + 1;
    }
    assert(remote@.take(i as int) =~= remote@);
    Ok(result)
}

/// An account as the multiplier check reads it: its stored multiplier (as
/// the bits of the `f64`), and that multiplier rounded to two decimals as a
/// decimal (or why it could not be).
#[derive(Debug)]
pub struct MonitoredAccount {
    pub id: String,
    pub name: String,
    pub status: String,
    pub api_key: String,
    pub multiplier_bits: u64,
    pub current_decimal: Result<DecimalValue, String>,
}

/// What a multiplier run logs for one account (or for the whole run).
#[derive(Debug, Clone)]
pub struct AccountOutcome {
    pub account_id: Option<String>,
    pub account_name: Option<String>,
    pub result: String,
    pub old_multiplier_bits: Option<u64>,
    pub remote: Option<DecimalValue>,
    pub error_code: Option<String>,
    pub error_message: Option<String>,
}

/// A multiplier update to apply if the account is still as read.
#[derive(Debug, Clone)]
pub struct PlannedChange {
    pub log_index: usize,
    pub account_id: String,
    pub expected_key: String,
    pub expected_multiplier_bits: u64,
    pub next: DecimalValue,
}

/// The view of an outcome.
pub struct OutcomeSpec {
    pub account_id: Option<Seq<char>>,
    pub account_name: Option<Seq<char>>,
    pub result: Seq<char>,
    pub old_multiplier_bits: Option<u64>,
    pub remote: Option<DecimalValue>,
    pub error_code: Option<Seq<char>>,
    pub error_message: Option<Seq<char>>,
}

/// The view of a planned change.
pub struct ChangeSpec {
    pub log_index: int,
    pub account_id: Seq<char>,
    pub expected_key: Seq<char>,
    pub expected_multiplier_bits: u64,
    pub next: DecimalValue,
}

pub open spec fn outcome_view(o: AccountOutcome) -> OutcomeSpec {
    OutcomeSpec {
        account_id: opt_string_view(o.account_id),
        account_name: opt_string_view(o.account_name),
        result: o.result@,
        old_multiplier_bits: o.old_multiplier_bits,
        remote: o.remote,
        error_code: opt_string_view(o.error_code),
        error_message: opt_string_view(o.error_message),
    }
}

/// A logged outcome whose update found the account's key or multiplier
/// changed meanwhile: a conflict, with everything else kept.
pub open spec fn conflict_outcome(o: OutcomeSpec) -> OutcomeSpec {
    OutcomeSpec {
        result: "conflict"@,
        error_code: Some("account_changed"@),
        error_message: Some("检查期间账号密钥或倍率已被修改，未覆盖新值"@),
        ..o
    }
}

/// Marks the outcome logged at `log_index` as a conflict, when there is one
/// there: its planned update found the account changed and was not applied.
pub fn mark_conflict(outcomes: &mut Vec<AccountOutcome>, log_index: usize)
    ensures
        final(outcomes)@.len() == old(outcomes)@.len(),
        forall|k: int|
            0 <= k < old(outcomes)@.len() && k != log_index ==> #[trigger] final(outcomes)@[k]
                == old(outcomes)@[k],
        log_index < old(outcomes)@.len() ==> outcome_view(final(outcomes)@[log_index as int])
            == conflict_outcome(outcome_view(old(outcomes)@[log_index as int])),
{
    if log_index < outcomes.len() {
        let mut o = outcomes.remove(log_index);
        o.result = "conflict".to_string();
        o.error_code = Some("account_changed".to_string());
        o.error_message = Some("检查期间账号密钥或倍率已被修改，未覆盖新值".to_string());
        outcomes.insert(log_index, o);
    }
}

pub open spec fn change_view(c: PlannedChange) -> ChangeSpec {
    ChangeSpec {
        log_index: c.log_index as int,
        account_id: c.account_id@,
        expected_key: c.expected_key@,
        expected_multiplier_bits: c.expected_multiplier_bits,
        next: c.next,
    }
}

/// What checking one account comes to.
pub enum StepSpec {
    Log(OutcomeSpec),
    Change(OutcomeSpec, ChangeSpec),
    Skip,
    Fail(Seq<char>),
}

/// The accounts' ids with their indices.
pub open spec fn account_ids_view(accounts: Seq<MonitoredAccount>) -> Seq<(Seq<char>, int)> {
    Seq::new(accounts.len(), |i: int| (accounts[i].id@, i))
}

/// An error message cut to its first 500 characters.
pub open spec fn truncated(m: Seq<char>) -> Seq<char> {
    m.take(if m.len() < 500 { m.len() as int } else { 500 })
}

/// What checking account `id` comes to: a missing account, a disabled one,
/// one whose trimmed key the remote list lacks, and one whose remote rate is
/// refused are logged; an account whose current rate cannot be read fails
/// the run; one whose rate equals the remote rate is logged unchanged; any
/// other is logged updated with a change to the remote rate.
pub open spec fn account_step(
    id: Seq<char>,
    accounts: Seq<MonitoredAccount>,
    table: Seq<(Seq<char>, (Option<DecimalValue>, Option<DecimalValue>, Option<Seq<char>>))>,
) -> StepSpec {
    match key_index(account_ids_view(accounts), id) {
        None => StepSpec::Log(OutcomeSpec {
            account_id: Some(id),
            account_name: Some("账号已删除"@),
            result: "account_missing"@,
            old_multiplier_bits: None,
            remote: None,
            error_code: Some("account_missing"@),
            error_message: Some("配置中的账号已不存在"@),
        }),
        Some(ai) => {
            let a = accounts[ai];
            let logged = |result: Seq<char>, remote: Option<DecimalValue>, code: Option<Seq<char>>, message: Option<Seq<char>>| OutcomeSpec {
                account_id: Some(a.id@),
                account_name: Some(a.name@),
                result,
                old_multiplier_bits: Some(a.multiplier_bits),
                remote,
                error_code: code,
                error_message: message,
            };
            if a.status@ != "active"@ {
                StepSpec::Log(logged("skipped_disabled"@, None, Some("account_disabled"@), Some("账号已停用，未更新倍率"@)))
            } else {
                match key_index(table, trim(a.api_key@)) {
                    None => StepSpec::Log(logged("missing_key"@, None, Some("key_not_found"@), Some("远端结果中未找到该账号密钥"@))),
                    Some(ki) => {
                        let rate = table[ki].1;
                        if rate.2 is Some {
                            StepSpec::Log(logged("invalid_rate"@, rate.1, Some("invalid_rate"@), Some(truncated(rate.2->0))))
                        } else if rate.0 is None {
                            StepSpec::Skip
                        } else {
                            match a.current_decimal {
                                Err(m) => StepSpec::Fail(m@),
                                Ok(current) => if same_value(current, rate.0->0) {
                                    StepSpec::Log(logged("unchanged"@, rate.1, None, None))
                                } else {
                                    StepSpec::Change(
                                        logged("updated"@, rate.1, None, None),
                                        ChangeSpec {
                                            log_index: 0,
                                            account_id: a.id@,
                                            expected_key: a.api_key@,
                                            expected_multiplier_bits: a.multiplier_bits,
                                            next: rate.0->0,
                                        },
                                    )
                                },
                            }
                        }
                    },
                }
            }
        },
    }
}

/// An account that is not active is logged `skipped_disabled` (with the
/// code `account_disabled`), whatever the remote rates say, and gets no
/// change: `i` is the first account with the id checked.
pub proof fn lemma_inactive_account_is_skipped(
    id: Seq<char>,
    accounts: Seq<MonitoredAccount>,
    table: Seq<(Seq<char>, (Option<DecimalValue>, Option<DecimalValue>, Option<Seq<char>>))>,
    i: int,
)
    requires
        0 <= i < accounts.len(),
        accounts[i].id@ == id,
        forall|j: int| 0 <= j < i ==> (#[trigger] accounts[j]).id@ != id,
        accounts[i].status@ != "active"@,
    ensures
        account_step(id, accounts, table) matches StepSpec::Log(o) && o.result == "skipped_disabled"@
            && o.error_code == Some("account_disabled"@) && o.account_id == Some(id),
{
    let m = account_ids_view(accounts);
    lemma_key_index(m, id);
    assert(m[i].0 == id);
    match key_index(m, id) {
        Some(k) => {
            if k < i {
                assert(m[k].0 == accounts[k].id@);
            }
            if k > i {
                assert(m[i].0 != id);
            }
        },
        None => {
            assert(m[i].0 != id);
        },
    }
}

/// How an active account is checked, `i` being the first account with the
/// id and `k` the first remote entry with its trimmed key: without such an
/// entry it is logged `missing_key`; a refused remote rate is logged
/// `invalid_rate`; an accepted rate equal in value to the current one (as
/// `0.10` equals `0.1`) is logged `unchanged`; a different one is logged
/// `updated` with a change of that account to the remote rate.
pub proof fn lemma_active_account_step(
    id: Seq<char>,
    accounts: Seq<MonitoredAccount>,
    table: Seq<(Seq<char>, (Option<DecimalValue>, Option<DecimalValue>, Option<Seq<char>>))>,
    i: int,
    k: int,
)
    requires
        0 <= i < accounts.len(),
        accounts[i].id@ == id,
        forall|j: int| 0 <= j < i ==> (#[trigger] accounts[j]).id@ != id,
        accounts[i].status@ == "active"@,
    ensures
        (forall|j: int| 0 <= j < table.len() ==> (#[trigger] table[j]).0 != trim(accounts[i].api_key@))
            ==> (account_step(id, accounts, table) matches StepSpec::Log(o) && o.result == "missing_key"@),
        ({
            &&& 0 <= k < table.len()
            &&& table[k].0 == trim(accounts[i].api_key@)
            &&& forall|j: int| 0 <= j < k ==> (#[trigger] table[j]).0 != trim(accounts[i].api_key@)
        }) ==> {
            let rate = table[k].1;
            let d = rate.0->0;
            let c = accounts[i].current_decimal->Ok_0;
            let ready = rate.2 is None && rate.0 is Some && accounts[i].current_decimal is Ok;
            &&& rate.2 is Some ==> (account_step(id, accounts, table) matches StepSpec::Log(o) && o.result
                == "invalid_rate"@)
            &&& (ready && c.mantissa * pow10(d.scale as nat) == d.mantissa * pow10(c.scale as nat)) ==> (
            account_step(id, accounts, table) matches StepSpec::Log(o) && o.result == "unchanged"@)
            &&& (ready && c.mantissa * pow10(d.scale as nat) != d.mantissa * pow10(c.scale as nat)) ==> (
            account_step(id, accounts, table) matches StepSpec::Change(o, ch) && o.result == "updated"@
                && ch.account_id == id && ch.next == d)
        },
{
    let m = account_ids_view(accounts);
    lemma_key_index(m, id);
    assert(m[i].0 == id);
    match key_index(m, id) {
        Some(x) => {
            if x < i {
                assert(m[x].0 == accounts[x].id@);
            }
            if x > i {
                assert(m[i].0 != id);
            }
        },
        None => {
            assert(m[i].0 != id);
        },
    }
    let key = trim(accounts[i].api_key@);
    lemma_key_index(table, key);
    match key_index(table, key) {
        Some(x) => {
            if 0 <= k < table.len() && table[k].0 == key && (forall|j: int| 0 <= j < k ==> (#[trigger] table[j]).0 != key) {
                if x < k {
                    assert(table[x].0 != key);
                }
                if x > k {
                    assert(table[k].0 != key);
                }
            }
        },
        None => {
            if 0 <= k < table.len() && table[k].0 == key {
                assert(table[k].0 != key);
            }
        },
    }
}

/// A change is only ever planned for the account checked, and that account
/// is active.
pub proof fn lemma_change_only_for_active_account(
    id: Seq<char>,
    accounts: Seq<MonitoredAccount>,
    table: Seq<(Seq<char>, (Option<DecimalValue>, Option<DecimalValue>, Option<Seq<char>>))>,
)
    ensures
        account_step(id, accounts, table) matches StepSpec::Change(o, c) ==> c.account_id == id
            && exists|i: int| 0 <= i < accounts.len() && (#[trigger] accounts[i]).id@ == id
                && accounts[i].status@ == "active"@,
{
    let m = account_ids_view(accounts);
    lemma_key_index(m, id);
    if let Some(k) = key_index(m, id) {
        assert(m[k].0 == accounts[k].id@);
    }
}

/// Every change that a check plans is for an active account among those
/// checked.
pub proof fn lemma_plan_changes_only_active_accounts(
    ids: Seq<Seq<char>>,
    accounts: Seq<MonitoredAccount>,
    table: Seq<(Seq<char>, (Option<DecimalValue>, Option<DecimalValue>, Option<Seq<char>>))>,
)
    ensures
        plan_spec(ids, accounts, table) matches Ok(p) ==> forall|j: int|
            0 <= j < p.1.len() ==> exists|i: int|
                0 <= i < accounts.len() && (#[trigger] accounts[i]).id@ == (#[trigger] p.1[j]).account_id
                    && accounts[i].status@ == "active"@,
    decreases ids.len(),
{
    if ids.len() > 0 {
        lemma_plan_changes_only_active_accounts(ids.drop_last(), accounts, table);
        lemma_change_only_for_active_account(ids.last(), accounts, table);
        if let Ok(p) = plan_spec(ids.drop_last(), accounts, table) {
            if let Ok(q) = plan_spec(ids, accounts, table) {
                assert forall|j: int| 0 <= j < q.1.len() implies exists|i: int|
                    0 <= i < accounts.len() && (#[trigger] accounts[i]).id@ == (#[trigger] q.1[j]).account_id
                        && accounts[i].status@ == "active"@ by {
                    if j < p.1.len() {
                        assert(q.1[j] == p.1[j]);
                    }
                }
            }
        }
    }
}

/// The log entries and changes of a check of `ids`, in order, or the message
/// of the first account whose current rate cannot be read.
pub open spec fn plan_spec(
    ids: Seq<Seq<char>>,
    accounts: Seq<MonitoredAccount>,
    table: Seq<(Seq<char>, (Option<DecimalValue>, Option<DecimalValue>, Option<Seq<char>>))>,
) -> Result<(Seq<OutcomeSpec>, Seq<ChangeSpec>), Seq<char>>
    decreases ids.len(),
{
    if ids.len() == 0 {
        Ok((Seq::empty(), Seq::empty()))
    } else {
        match plan_spec(ids.drop_last(), accounts, table) {
            Err(m) => Err(m),
            Ok(p) => match account_step(ids.last(), accounts, table) {
                StepSpec::Log(o) => Ok((p.0.push(o), p.1)),
                StepSpec::Change(o, c) => Ok((p.0.push(o), p.1.push(ChangeSpec { log_index: p.0.len() as int, ..c }))),
                StepSpec::Skip => Ok(p),
                StepSpec::Fail(m) => Err(m),
            },
        }
    }
}


/// What checking one account comes to, as values.
pub enum AccountStep {
    Log(AccountOutcome),
    Change(AccountOutcome, PlannedChange),
    Skip,
    Fail(String),
}

pub open spec fn step_view(s: AccountStep) -> StepSpec {
    match s {
        AccountStep::Log(o) => StepSpec::Log(outcome_view(o)),
        AccountStep::Change(o, c) => StepSpec::Change(outcome_view(o), change_view(c)),
        AccountStep::Skip => StepSpec::Skip,
        AccountStep::Fail(m) => StepSpec::Fail(m@),
    }
}

fn find_account(accounts: &[MonitoredAccount], id: &str) -> (r: Option<usize>)
    ensures
        match r {
            Some(i) => i < accounts@.len() && key_index(account_ids_view(accounts@), id@) == Some(i as int),
            None => key_index(account_ids_view(accounts@), id@) is None,
        },
{
    let mut i: usize = 0;
    while i < accounts.len()
        invariant
            i <= accounts@.len(),
            forall|j: int| 0 <= j < i ==> #[trigger] account_ids_view(accounts@)[j].0 != id@,
        decreases accounts@.len() - i,
    {
        assert(account_ids_view(accounts@)[i as int].0 == accounts@[i as int].id@);
        if str_eq(accounts[i].id.as_str(), id) {
            proof {
                lemma_key_index(account_ids_view(accounts@), id@);
            }
            return Some(i);
        }
        i = i + 1;
    }
    proof {
        lemma_key_index(account_ids_view(accounts@), id@);
    }
    None
}

fn outcome(
    account: &MonitoredAccount,
    result: &str,
    remote: Option<DecimalValue>,
    code: Option<&str>,
    message: Option<String>,
) -> (r: AccountOutcome)
    ensures
        outcome_view(r) == (OutcomeSpec {
            account_id: Some(account.id@),
            account_name: Some(account.name@),
            result: result@,
            old_multiplier_bits: Some(account.multiplier_bits),
            remote,
            error_code: match code {
                Some(c) => Some(c@),
                None => None,
            },
            error_message: opt_string_view(message),
        }),
{
    AccountOutcome {
        account_id: Some(account.id.clone()),
        account_name: Some(account.name.clone()),
        result: result.to_string(),
        old_multiplier_bits: Some(account.multiplier_bits),
        remote,
        error_code: match code {
            Some(c) => Some(c.to_string()),
            None => None,
        },
        error_message: message,
    }
}

/// Checks one account against the remote rates.
pub fn account_step_exec(id: &str, accounts: &[MonitoredAccount], table: &[(String, ParsedRemoteRate)]) -> (r: AccountStep)
    ensures
        step_view(r) == account_step(id@, accounts@, table_view(table@)),
{
    let ai = match find_account(accounts, id) {
        None => {
            return AccountStep::Log(
                AccountOutcome {
                    account_id: Some(id.to_string()),
                    account_name: Some("账号已删除".to_string()),
                    result: "account_missing".to_string(),
                    old_multiplier_bits: None,
                    remote: None,
                    error_code: Some("account_missing".to_string()),
                    error_message: Some("配置中的账号已不存在".to_string()),
                },
            );
        },
        Some(i) => i,
    };
    let a = &accounts[ai];
    if !str_eq(a.status.as_str(), "active") {
        return AccountStep::Log(outcome(a, "skipped_disabled", None, Some("account_disabled"), Some("账号已停用，未更新倍率".to_string())));
    }
    let key = trim_string(a.api_key.as_str());
    let ki = match find_key(table, key.as_str()) {
        None => {
            return AccountStep::Log(outcome(a, "missing_key", None, Some("key_not_found"), Some("远端结果中未找到该账号密钥".to_string())));
        },
        Some(k) => k,
    };
    let rate = &table[ki].1;
    assert(table_view(table@)[ki as int].1 == rate_view(*rate));
    if let Some(error) = &rate.error {
        return AccountStep::Log(outcome(a, "invalid_rate", rate.normalized, Some("invalid_rate"), Some(truncate_error(error.as_str()))));
    }
    let remote = match rate.decimal {
        None => return AccountStep::Skip,
        Some(d) => d,
    };
    match &a.current_decimal {
        Err(m) => AccountStep::Fail(m.clone()),
        Ok(current) => {
            if same_value_exec(current, &remote) {
                AccountStep::Log(outcome(a, "unchanged", rate.normalized, None, None))
            } else {
                let o = outcome(a, "updated", rate.normalized, None, None);
                let c = PlannedChange {
                    log_index: 0,
                    account_id: a.id.clone(),
                    expected_key: a.api_key.clone(),
                    expected_multiplier_bits: a.multiplier_bits,
                    next: remote,
                };
                AccountStep::Change(o, c)
            }
        },
    }
}

/// Decides, for each configured account id in order, what the run logs
/// and which multipliers it changes (the core of a monitor run); fails with
/// an internal error when an account's current rate cannot be read.
pub fn plan_account_updates(
    account_ids: &[String],
    accounts: &[MonitoredAccount],
    table: &[(String, ParsedRemoteRate)],
) -> (r: Result<(Vec<AccountOutcome>, Vec<PlannedChange>), AppError>)
    ensures
        match plan_spec(strings_view(account_ids@), accounts@, table_view(table@)) {
            Ok(p) => r matches Ok(x) && x.0@.map_values(|o: AccountOutcome| outcome_view(o)) == p.0
                && x.1@.map_values(|c: PlannedChange| change_view(c)) == p.1,
            Err(m) => r matches Err(e) && (e matches AppError::Internal(t) && t@ == m),
        },
{
    let mut logs: Vec<AccountOutcome> = Vec::new();
    let mut changes: Vec<PlannedChange> = Vec::new();
    let mut i: usize = 0;
    while i < account_ids.len()
        invariant
            i <= account_ids@.len(),
            plan_spec(strings_view(account_ids@).take(i as int), accounts@, table_view(table@)) matches Ok(p)
                && logs@.map_values(|o: AccountOutcome| outcome_view(o)) == p.0
                && changes@.map_values(|c: PlannedChange| change_view(c)) == p.1,
        decreases account_ids@.len() - i,
    {
        let ghost prefix = strings_view(account_ids@).take(i + 1);
        assert(prefix.drop_last() =~= strings_view(account_ids@).take(i as int));
        assert(prefix.last() == account_ids@[i as int]@);
        let ghost lv = logs@;
        let ghost cv = changes@;
        match account_step_exec(account_ids[i].as_str(), accounts, table) {
            AccountStep::Log(o) => {
                logs.push(o);
                assert(logs@.map_values(|o: AccountOutcome| outcome_view(o)) =~= lv.map_values(|o: AccountOutcome| outcome_view(o)).push(outcome_view(o)));
            },
            AccountStep::Change(o, c) => {
                let n = logs.len();
                logs.push(o);
                let c2 = PlannedChange { log_index: n, ..c };
                changes.push(c2);
                assert(logs@.map_values(|o: AccountOutcome| outcome_view(o)) =~= lv.map_values(|o: AccountOutcome| outcome_view(o)).push(outcome_view(o)));
                assert(changes@.map_values(|c: PlannedChange| change_view(c)) =~= cv.map_values(|c: PlannedChange| change_view(c)).push(change_view(c2)));
            },
            AccountStep::Skip => {},
            AccountStep::Fail(m) => {
                proof {
                    lemma_plan_failure_stays(strings_view(account_ids@), (i + 1) as int, accounts@, table_view(table@), m@);
                }
                return Err(AppError::Internal(m));
            },
        }
        i = i + 1;
    }
    assert(strings_view(account_ids@).take(i as int) =~= strings_view(account_ids@));
    Ok((logs, changes))
}

proof fn lemma_plan_failure_stays(
    ids: Seq<Seq<char>>,
    k: int,
    accounts: Seq<MonitoredAccount>,
    table: Seq<(Seq<char>, (Option<DecimalValue>, Option<DecimalValue>, Option<Seq<char>>))>,
    m: Seq<char>,
)
    requires
        0 <= k <= ids.len(),
        plan_spec(ids.take(k), accounts, table) matches Err(e) && e == m,
    ensures
        plan_spec(ids, accounts, table) matches Err(e) && e == m,
    decreases ids.len() - k,
{
    if k < ids.len() {
        assert(ids.take(k + 1).drop_last() =~= ids.take(k));
        lemma_plan_failure_stays(ids, k + 1, accounts, table, m);
    } else {
        assert(ids.take(k) =~= ids);
    }
}

/// Every planned change points at the log entry of its account, which says
/// the account was updated, and moves that account to the accepted remote
/// rate.
pub proof fn lemma_changes_point_at_updated_logs(
    ids: Seq<Seq<char>>,
    accounts: Seq<MonitoredAccount>,
    table: Seq<(Seq<char>, (Option<DecimalValue>, Option<DecimalValue>, Option<Seq<char>>))>,
)
    requires
        plan_spec(ids, accounts, table) is Ok,
        forall|i: int| 0 <= i < table.len() && (#[trigger] table[i]).1.0 is Some ==> table[i].1.1 == table[i].1.0,
    ensures
        ({
            let p = plan_spec(ids, accounts, table)->Ok_0;
            &&& p.0.len() <= ids.len()
            &&& forall|j: int| 0 <= j < p.1.len() ==> {
                let c = #[trigger] p.1[j];
                &&& 0 <= c.log_index < p.0.len()
                &&& p.0[c.log_index].result == "updated"@
                &&& p.0[c.log_index].account_id == Some(c.account_id)
                &&& p.0[c.log_index].remote == Some(c.next)
            }
        }),
    decreases ids.len(),
{
    if ids.len() > 0 {
        lemma_changes_point_at_updated_logs(ids.drop_last(), accounts, table);
        let p = plan_spec(ids.drop_last(), accounts, table)->Ok_0;
        let q = plan_spec(ids, accounts, table)->Ok_0;
        match account_step(ids.last(), accounts, table) {
            StepSpec::Log(o) => {
                assert forall|j: int| 0 <= j < q.1.len() implies ({
                    let c = #[trigger] q.1[j];
                    &&& 0 <= c.log_index < q.0.len()
                    &&& q.0[c.log_index].result == "updated"@
                    &&& q.0[c.log_index].account_id == Some(c.account_id)
                    &&& q.0[c.log_index].remote == Some(c.next)
                }) by {
                    assert(q.1[j] == p.1[j]);
                    assert(q.0[p.1[j].log_index] == p.0[p.1[j].log_index]);
                }
            },
            StepSpec::Change(o, c) => {
                assert forall|j: int| 0 <= j < q.1.len() implies ({
                    let c = #[trigger] q.1[j];
                    &&& 0 <= c.log_index < q.0.len()
                    &&& q.0[c.log_index].result == "updated"@
                    &&& q.0[c.log_index].account_id == Some(c.account_id)
                    &&& q.0[c.log_index].remote == Some(c.next)
                }) by {
                    if j < p.1.len() {
                        assert(q.1[j] == p.1[j]);
                        assert(q.0[p.1[j].log_index] == p.0[p.1[j].log_index]);
                    } else {
                        let a = accounts[key_index(account_ids_view(accounts), ids.last())->0];
                        let ki = key_index(table, trim(a.api_key@))->0;
                        lemma_key_index(table, trim(a.api_key@));
                        assert(table[ki].1.0 is Some);
                        assert(q.0[p.0.len() as int] == o);
                    }
                }
            },
            _ => {},
        }
    }
}

/// The account ids of a stored configuration: the strings of its JSON list;
/// an unreadable list is an internal error.
pub fn parse_account_ids(raw: &str) -> (r: Result<Vec<String>, AppError>)
    ensures
        r is Ok <==> string_list(json_parse(raw@)) is Some,
        r matches Ok(ids) ==> string_list(json_parse(raw@)) == Some(strings_view(ids@)),
        r matches Err(e) ==> is_internal(e, "倍率监控配置的账号列表无效"@),
{
    match parse_string_list(raw) {
        Some(ids) => Ok(ids),
        None => Err(AppError::Internal("倍率监控配置的账号列表无效".to_string())),
    }
}

/// Every selected account must still exist: as many accounts were found as
/// were selected.
pub fn check_accounts_found(found: usize, selected: usize) -> (r: Result<(), AppError>)
    ensures
        r is Ok <==> found == selected,
        r matches Err(e) ==> is_bad_request(e, "所选账号中存在已删除的账号"@),
{
    if found != selected {
        return Err(AppError::BadRequest("所选账号中存在已删除的账号".to_string()));
    }
    Ok(())
}

/// Why an enabled configuration refuses a selection.
pub enum ConflictSpec {
    /// Its stored account list cannot be read.
    Unreadable,
    /// It already watches one of the selected accounts; its name.
    Overlap(Seq<char>),
}

/// Whether `a` and `b` share an id.
pub open spec fn shares(a: Seq<Seq<char>>, b: Seq<Seq<char>>) -> bool {
    exists|i: int| 0 <= i < a.len() && b.contains(#[trigger] a[i])
}

/// The first of `configs` that refuses the selection `ids`: an enabled
/// configuration other than `current` whose list is unreadable or shares an
/// account with `ids`.
pub open spec fn first_conflict(
    configs: Seq<MultiplierMonitorConfig>,
    current: Option<Seq<char>>,
    ids: Seq<Seq<char>>,
) -> Option<ConflictSpec>
    decreases configs.len(),
{
    if configs.len() == 0 {
        None
    } else {
        let c = configs[0];
        let rest = first_conflict(configs.drop_first(), current, ids);
        if !c.enabled || current == Some(c.id@) {
            rest
        } else {
            match string_list(json_parse(c.account_ids@)) {
                None => Some(ConflictSpec::Unreadable),
                Some(existing) => if shares(ids, existing) {
                    Some(ConflictSpec::Overlap(c.name@))
                } else {
                    rest
                },
            }
        }
    }
}

/// The message of an overlap with the configuration named `name`.
pub open spec fn overlap_message(name: Seq<char>) -> Seq<char> {
    "所选账号已被启用的配置“"@ + name + "”监控"@
}

fn shares_any(a: &Vec<String>, b: &Vec<String>) -> (r: bool)
    ensures
        r == shares(strings_view(a@), strings_view(b@)),
{
    let mut i: usize = 0;
    while i < a.len()
        invariant
            i <= a@.len(),
            forall|j: int| 0 <= j < i ==> !strings_view(b@).contains(#[trigger] strings_view(a@)[j]),
        decreases a@.len() - i,
    {
        if strings_contain(b, a[i].as_str()) {
            assert(strings_view(a@)[i as int] == a@[i as int]@);
            return true;
        }
        assert(strings_view(a@)[i as int] == a@[i as int]@);
        i = i + 1;
    }
    false
}

/// Checks that enabling a configuration with the selection `account_ids`
/// clashes with no other enabled configuration (`configs` are all stored
/// ones, `current_id` the configuration being saved). A disabled
/// configuration never clashes.
pub fn check_enabled_conflicts(
    configs: &Vec<MultiplierMonitorConfig>,
    current_id: Option<&str>,
    enabled: bool,
    account_ids: &Vec<String>,
) -> (r: Result<(), AppError>)
    ensures
        !enabled ==> r is Ok,
        enabled ==> match first_conflict(configs@, opt_str_view(current_id), strings_view(account_ids@)) {
            None => r is Ok,
            Some(ConflictSpec::Unreadable) => r matches Err(e) && is_internal(e, "倍率监控配置的账号列表无效"@),
            Some(ConflictSpec::Overlap(name)) => r matches Err(e) && is_bad_request(e, overlap_message(name)),
        },
{
    if !enabled {
        return Ok(());
    }
    let ghost ids = strings_view(account_ids@);
    let ghost current = opt_str_view(current_id);
    let mut i: usize = 0;
    assert(configs@.skip(0) =~= configs@);
    while i < configs.len()
        invariant
            enabled,
            i <= configs@.len(),
            ids == strings_view(account_ids@),
            current == opt_str_view(current_id),
            first_conflict(configs@, current, ids) == first_conflict(configs@.skip(i as int), current, ids),
        decreases configs@.len() - i,
    {
        let c = &configs[i];
        proof {
            assert(configs@.skip(i as int)[0] == configs@[i as int]);
            assert(configs@.skip(i as int).drop_first() =~= configs@.skip(i + 1));
        }
        let skip = !c.enabled || match current_id {
            Some(id) => str_eq(id, c.id.as_str()),
            None => false,
        };
        if !skip {
            let existing = parse_account_ids(c.account_ids.as_str())?;
            if shares_any(account_ids, &existing) {
                let head = concat("所选账号已被启用的配置“", c.name.as_str());
                return Err(AppError::BadRequest(concat(head.as_str(), "”监控")));
            }
        }
        i = i + 1;
    }
    Ok(())
}

/// Whether a lease that runs until `lease_until` is still held at `now`
/// (timestamps compared as text).
pub open spec fn lease_held(lease_until: Option<Seq<char>>, now: Seq<char>) -> bool {
    match lease_until {
        Some(l) => compare_chars(l, now) > 0,
        None => false,
    }
}

/// A stored configuration as the API shows it at `now`, with the statistics
/// of its latest run: its account list parsed (an unreadable list is an
/// internal error), whether it has tokens, and whether it is running (its
/// lease is held).
pub fn config_view(config: MultiplierMonitorConfig, now: &str, stats: Option<LatestRunStats>) -> (r:
    Result<MultiplierMonitorConfigView, AppError>)
    ensures
        r is Ok <==> string_list(json_parse(config.account_ids@)) is Some,
        r matches Err(e) ==> is_internal(e, "倍率监控配置的账号列表无效"@),
        r matches Ok(v) ==> {
            &&& v.id == config.id
            &&& v.name == config.name
            &&& v.url == config.url
            &&& string_list(json_parse(config.account_ids@)) == Some(strings_view(v.account_ids@))
            &&& v.multiplier_divisor == config.multiplier_divisor
            &&& v.enabled == config.enabled
            &&& v.has_token == (config.token@.len() > 0)
            &&& v.has_refresh_token == (config.refresh_token@.len() > 0)
            &&& v.last_started_at == config.last_started_at
            &&& v.last_finished_at == config.last_finished_at
            &&& v.running == lease_held(opt_string_view(config.lease_until), now@)
            &&& v.last_run is Some == stats is Some
            &&& (stats matches Some(s) ==> v.last_run matches Some(l) && l.run_id == s.run_id
                && l.started_at == s.started_at && l.finished_at == s.finished_at && l.total == s.total
                && l.updated == s.updated && l.unchanged == s.unchanged && l.issues == s.issues
                && l.failed == s.failed)
            &&& v.created_at == config.created_at
            &&& v.updated_at == config.updated_at
        },
{
    let account_ids = parse_account_ids(config.account_ids.as_str())?;
    let now_chars = to_chars(now);
    let running = match &config.lease_until {
        Some(l) => {
            let lc = to_chars(l.as_str());
            compare_char_slices(lc.as_slice(), now_chars.as_slice()) > 0
        },
        None => false,
    };
    let has_token = to_chars(config.token.as_str()).len() > 0;
    let has_refresh_token = to_chars(config.refresh_token.as_str()).len() > 0;
    let last_run = match stats {
        Some(s) => Some(
            MultiplierMonitorRunSummary {
                run_id: s.run_id,
                started_at: s.started_at,
                finished_at: s.finished_at,
                total: s.total,
                updated: s.updated,
                unchanged: s.unchanged,
                issues: s.issues,
                failed: s.failed,
            },
        ),
        None => None,
    };
    let MultiplierMonitorConfig {
        id,
        name,
        url,
        multiplier_divisor,
        enabled,
        last_started_at,
        last_finished_at,
        created_at,
        updated_at,
        ..
    } = config;
    Ok(
        MultiplierMonitorConfigView {
            id,
            name,
            url,
            account_ids,
            multiplier_divisor,
            enabled,
            has_token,
            has_refresh_token,
            last_started_at,
            last_finished_at,
            running,
            last_run,
            created_at,
            updated_at,
        },
    )
}

/// The message of a refused configuration name, if it is refused.
pub open spec fn name_error(v: Seq<char>) -> Option<Seq<char>> {
    if trim(v).len() == 0 {
        Some("配置名称不能为空"@)
    } else if trim(v).len() > 100 {
        Some("配置名称不能超过 100 个字符"@)
    } else {
        None
    }
}

/// The message of a refused monitor URL, if it is refused.
pub open spec fn url_error(v: Seq<char>) -> Option<Seq<char>> {
    match url_refusal(trim(v)) {
        Some(f) => Some(f.1),
        None => None,
    }
}

/// The message of a refused query token, if it is refused.
pub open spec fn token_error(v: Seq<char>) -> Option<Seq<char>> {
    if token_spec(v).len() == 0 {
        Some("查询 token 不能为空"@)
    } else {
        None
    }
}

/// The message of a refused multiplier divisor, if it is refused.
pub open spec fn divisor_error(d: i64) -> Option<Seq<char>> {
    if 1 <= d <= MAX_MULTIPLIER_DIVISOR {
        None
    } else {
        Some("倍率除数必须是 1～10000 的整数"@)
    }
}

/// The message of a refused account selection, if it is refused.
pub open spec fn ids_error(ids: Seq<Seq<char>>) -> Option<Seq<char>> {
    let u = unique_trimmed(ids);
    if u.len() == 0 {
        Some("请至少选择一个账号"@)
    } else if u.len() > MAX_ACCOUNT_COUNT {
        Some("选择的账号数量超过上限"@)
    } else {
        None
    }
}

/// The first of two refusals.
pub open spec fn first_error(a: Option<Seq<char>>, b: Option<Seq<char>>) -> Option<Seq<char>> {
    if a is Some {
        a
    } else {
        b
    }
}

/// The stored form of a monitor URL that is accepted.
pub open spec fn stored_url(v: Seq<char>) -> Seq<char> {
    match url_parse(trim(trim(v))) {
        Ok(u) => base_url_text(u),
        Err(_) => Seq::empty(),
    }
}

/// The columns of a configuration to be written.
#[derive(Debug)]
pub struct PreparedConfig {
    pub name: String,
    pub url: String,
    pub token: String,
    pub refresh_token: String,
    pub account_ids: Vec<String>,
    pub account_ids_json: String,
    pub multiplier_divisor: i64,
    pub enabled: bool,
}

/// The first refusal of a create request, in the order the fields are checked.
pub open spec fn create_error(p: MultiplierMonitorCreate) -> Option<Seq<char>> {
    first_error(
        name_error(p.name@),
        first_error(
            url_error(p.url@),
            first_error(
                token_error(p.token@),
                first_error(divisor_error(p.multiplier_divisor), ids_error(strings_view(p.account_ids@))),
            ),
        ),
    )
}

fn require_url(value: &str) -> (r: Result<String, AppError>)
    ensures
        r is Ok <==> url_error(value@) is None,
        r matches Ok(u) ==> u@ == stored_url(value@),
        r matches Err(e) ==> url_error(value@) matches Some(m) && is_bad_request(e, m),
{
    validate_url(value)
}

/// The columns of a new configuration: each field checked and normalized
/// (the first refusal is the answer), the account list also as JSON.
pub fn prepare_create(payload: MultiplierMonitorCreate) -> (r: Result<PreparedConfig, AppError>)
    ensures
        r is Err <==> create_error(payload) is Some,
        r matches Err(e) ==> create_error(payload) matches Some(m) && is_bad_request(e, m),
        r matches Ok(c) ==> {
            &&& c.name@ == trim(payload.name@)
            &&& c.url@ == stored_url(payload.url@)
            &&& c.token@ == token_spec(payload.token@)
            &&& c.refresh_token@ == trim(payload.refresh_token@)
            &&& c.multiplier_divisor == payload.multiplier_divisor
            &&& strings_view(c.account_ids@) == unique_trimmed(strings_view(payload.account_ids@))
            &&& c.account_ids_json@ == json_strings_text(strings_view(c.account_ids@))
            &&& c.enabled == payload.enabled
        },
{
    let name = validate_name(payload.name.as_str())?;
    let url = require_url(payload.url.as_str())?;
    let token = normalize_token(payload.token.as_str())?;
    let refresh_token = normalize_refresh_token(payload.refresh_token.as_str())?;
    let multiplier_divisor = validate_multiplier_divisor(payload.multiplier_divisor)?;
    let account_ids = normalize_account_ids(payload.account_ids)?;
    let account_ids_json = strings_to_json(&account_ids);
    Ok(
        PreparedConfig {
            name,
            url,
            token,
            refresh_token,
            account_ids,
            account_ids_json,
            multiplier_divisor,
            enabled: payload.enabled,
        },
    )
}

/// A token field of an update: a missing or blank one keeps the stored
/// token; another is normalized (and may be refused).
pub open spec fn token_choice(given: Option<Seq<char>>, current: Seq<char>) -> Result<Seq<char>, Seq<char>> {
    match given {
        None => Ok(current),
        Some(t) => if trim(t).len() == 0 {
            Ok(current)
        } else if token_spec(trim(t)).len() == 0 {
            Err("查询 token 不能为空"@)
        } else {
            Ok(token_spec(trim(t)))
        },
    }
}

/// A refresh token field of an update: a missing or blank one keeps the
/// stored token; another is stored trimmed.
pub open spec fn refresh_choice(given: Option<Seq<char>>, current: Seq<char>) -> Seq<char> {
    match given {
        None => current,
        Some(t) => if trim(t).len() == 0 {
            current
        } else {
            trim(trim(t))
        },
    }
}

/// The refusal of a token choice, if any.
pub open spec fn choice_error(c: Result<Seq<char>, Seq<char>>) -> Option<Seq<char>> {
    match c {
        Ok(_) => None,
        Err(m) => Some(m),
    }
}

/// The divisor of an update: the given one, else the stored one.
pub open spec fn divisor_choice(given: Option<i64>, current: i64) -> i64 {
    match given {
        Some(d) => d,
        None => current,
    }
}

/// The first refusal of an update, in the order the fields are checked.
pub open spec fn update_error(current: MultiplierMonitorConfig, p: MultiplierMonitorUpdate) -> Option<Seq<char>> {
    first_error(
        name_error(p.name@),
        first_error(
            url_error(p.url@),
            first_error(
                choice_error(token_choice(opt_string_view(p.token), current.token@)),
                first_error(
                    divisor_error(divisor_choice(p.multiplier_divisor, current.multiplier_divisor)),
                    ids_error(strings_view(p.account_ids@)),
                ),
            ),
        ),
    )
}

fn choose_token(given: &Option<String>, current: &String) -> (r: Result<String, AppError>)
    ensures
        r is Ok <==> token_choice(opt_string_view(*given), current@) is Ok,
        r matches Ok(t) ==> (token_choice(opt_string_view(*given), current@) matches Ok(u) && u == t@),
        r matches Err(e) ==> is_bad_request(e, "查询 token 不能为空"@),
{
    match given {
        None => Ok(current.clone()),
        Some(t) => {
            let trimmed = trim_string(t.as_str());
            if to_chars(trimmed.as_str()).len() == 0 {
                Ok(current.clone())
            } else {
                normalize_token(trimmed.as_str())
            }
        },
    }
}

fn choose_refresh(given: &Option<String>, current: &String) -> (r: String)
    ensures
        r@ == refresh_choice(opt_string_view(*given), current@),
{
    match given {
        None => current.clone(),
        Some(t) => {
            let trimmed = trim_string(t.as_str());
            if to_chars(trimmed.as_str()).len() == 0 {
                current.clone()
            } else {
                match normalize_refresh_token(trimmed.as_str()) {
                    Ok(t) => t,
                    Err(_) => current.clone(),
                }
            }
        },
    }
}

/// The columns of an updated configuration and whether its schedule
/// restarts: fields checked as on creation, missing tokens and divisor kept,
/// and the schedule reset when the URL, a token, the account list or the
/// divisor changes.
pub fn prepare_update(current: &MultiplierMonitorConfig, payload: MultiplierMonitorUpdate) -> (r: Result<
    (PreparedConfig, bool),
    AppError,
>)
    ensures
        r is Err <==> update_error(*current, payload) is Some,
        r matches Err(e) ==> update_error(*current, payload) matches Some(m) && is_bad_request(e, m),
        r matches Ok((c, reset)) ==> {
            &&& c.name@ == trim(payload.name@)
            &&& c.url@ == stored_url(payload.url@)
            &&& token_choice(opt_string_view(payload.token), current.token@) matches Ok(u) && u == c.token@
            &&& c.refresh_token@ == refresh_choice(opt_string_view(payload.refresh_token), current.refresh_token@)
            &&& c.multiplier_divisor == divisor_choice(payload.multiplier_divisor, current.multiplier_divisor)
            &&& strings_view(c.account_ids@) == unique_trimmed(strings_view(payload.account_ids@))
            &&& c.account_ids_json@ == json_strings_text(strings_view(c.account_ids@))
            &&& c.enabled == payload.enabled
            &&& reset == (current.url@ != c.url@ || current.token@ != c.token@ || current.refresh_token@
                != c.refresh_token@ || current.account_ids@ != c.account_ids_json@
                || current.multiplier_divisor != c.multiplier_divisor)
        },
{
    let name = validate_name(payload.name.as_str())?;
    let url = require_url(payload.url.as_str())?;
    let token = choose_token(&payload.token, &current.token)?;
    let refresh_token = choose_refresh(&payload.refresh_token, &current.refresh_token);
    let divisor = match payload.multiplier_divisor {
        Some(d) => d,
        None => current.multiplier_divisor,
    };
    let multiplier_divisor = validate_multiplier_divisor(divisor)?;
    let account_ids = normalize_account_ids(payload.account_ids)?;
    let account_ids_json = strings_to_json(&account_ids);
    let reset = !str_eq(current.url.as_str(), url.as_str()) || !str_eq(current.token.as_str(), token.as_str())
        || !str_eq(current.refresh_token.as_str(), refresh_token.as_str()) || !str_eq(
        current.account_ids.as_str(),
        account_ids_json.as_str(),
    ) || current.multiplier_divisor != multiplier_divisor;
    Ok(
        (
            PreparedConfig {
                name,
                url,
                token,
                refresh_token,
                account_ids,
                account_ids_json,
                multiplier_divisor,
                enabled: payload.enabled,
            },
            reset,
        ),
    )
}

/// What follows a failed first fetch: fail with it, or refresh the tokens
/// and fetch again.
#[derive(Debug)]
pub enum RefreshStep {
    Fail(MultiplierQueryError),
    Refresh,
}

/// After a failed fetch: a failure other than HTTP 401 stands; a 401 without
/// a refresh token becomes `unauthorized_no_refresh_token`; a 401 with one
/// leads to a refresh.
pub fn after_failed_fetch(error: MultiplierQueryError, refresh_token: &str) -> (r: RefreshStep)
    ensures
        error.http_status != Some(401i64) ==> r == RefreshStep::Fail(error),
        error.http_status == Some(401i64) && trim(refresh_token@).len() == 0 ==> (r matches RefreshStep::Fail(e)
            && e.code@ == "unauthorized_no_refresh_token"@ && e.message@
            == "倍率查询接口返回 401，但未配置 refresh token"@ && e.http_status == Some(401i64)),
        error.http_status == Some(401i64) && trim(refresh_token@).len() > 0 ==> r is Refresh,
{
    if error.http_status != Some(401i64) {
        return RefreshStep::Fail(error);
    }
    if trim_chars(refresh_token).len() == 0 {
        return RefreshStep::Fail(
            MultiplierQueryError::with_status(
                "unauthorized_no_refresh_token",
                "倍率查询接口返回 401，但未配置 refresh token".to_string(),
                401,
            ),
        );
    }
    RefreshStep::Refresh
}

/// The failure of a run whose configuration changed while its tokens were
/// refreshed.
pub fn config_changed_error() -> (r: MultiplierQueryError)
    ensures
        r.is("config_changed"@, "刷新 token 期间配置已编辑或停用，本轮未更新账号倍率"@),
{
    MultiplierQueryError::new("config_changed", "刷新 token 期间配置已编辑或停用，本轮未更新账号倍率".to_string())
}

} // verus!
