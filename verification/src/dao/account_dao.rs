//! The rules of the account store: which account serves a model, what an
//! account must hold, and how stored columns are written and shown.

use vstd::prelude::*;

use crate::dao::ranking::{compare_rank, first_best, is_first_best, ranks_view, Rank, RankKey};
use crate::error::{is_bad_request, AppError};
use crate::json::{json_parse, json_strings_text, json_text, parse_string_list, string_list, strings_to_json, JsonValue};
use crate::model::account::Account;
use crate::text::{copy_opt_string, opt_string_view};
use crate::schema::account_schema::{AccountCreate, AccountUpdate, AccountView};
use crate::text::{
    chars_trim_end_char, from_chars, str_eq, strings_contain, strings_view, to_chars,
    to_lowercase, trim, trim_chars, trim_end_char, unicode_lower,
};
use crate::text::opt_str_view;

verus! {

/// The model list of a JSON column: the strings of a JSON array of strings.
pub open spec fn model_list(raw: Option<Seq<char>>) -> Option<Seq<Seq<char>>> {
    match raw {
        Some(t) => string_list(json_parse(t)),
        None => None,
    }
}

/// Whether a supported-models column lists `model` by name.
pub open spec fn has_model_spec(raw: Option<Seq<char>>, model: Seq<char>) -> bool {
    match model_list(raw) {
        Some(items) => items.contains(model),
        None => false,
    }
}

/// Whether an account with this supported-models column may serve `model`:
/// always when no model is asked for, when the column is missing, unreadable
/// or an empty list; else when it lists the model.
pub open spec fn supported_spec(raw: Option<Seq<char>>, model: Option<Seq<char>>) -> bool {
    match model {
        None => true,
        Some(m) => match model_list(raw) {
            None => true,
            Some(items) => items.len() == 0 || items.contains(m),
        },
    }
}

/// Whether the supported-models column `raw` lists `model`.
pub fn has_model(raw: Option<&str>, model: &str) -> (r: bool)
    ensures
        r == has_model_spec(opt_str_view(raw), model@),
{
    match raw {
        None => false,
        Some(text) => match parse_string_list(text) {
            Some(items) => strings_contain(&items, model),
            None => false,
        },
    }
}

/// Whether an account with the supported-models column `raw` may serve `model`.
pub fn supported(raw: Option<&str>, model: Option<&str>) -> (r: bool)
    ensures
        r == supported_spec(opt_str_view(raw), opt_str_view(model)),
{
    let m = match model {
        None => return true,
        Some(m) => m,
    };
    let text = match raw {
        None => return true,
        Some(t) => t,
    };
    match parse_string_list(text) {
        None => true,
        Some(items) => items.len() == 0 || strings_contain(&items, m),
    }
}

/// How an account ranks for a request of `model`.
pub open spec fn rank_of(a: Account, model: Option<Seq<char>>) -> Rank {
    Rank {
        explicit: match model {
            Some(m) => has_model_spec(opt_string_view(a.supported_models), m),
            None => false,
        },
        priority: a.priority as int,
        multiplier: a.multiplier,
        duration: a.monitor_average_duration_ms,
        name: unicode_lower(a.name@),
        id: a.id@,
    }
}

/// The ranks of a list of accounts.
pub open spec fn ranks_of(accounts: Seq<Account>, model: Option<Seq<char>>) -> Seq<Rank> {
    accounts.map_values(|a: Account| rank_of(a, model))
}

/// Whether account `a` may serve `model` for the protocol `account_type`:
/// it is active, of that protocol, and supports the model.
pub open spec fn serves(a: Account, model: Option<Seq<char>>, account_type: Seq<char>) -> bool {
    &&& a.status@ == "active"@
    &&& a.account_type@ == account_type
    &&& supported_spec(opt_string_view(a.supported_models), model)
}

/// The accounts that may serve `model` for the protocol `account_type`, in
/// their order.
pub open spec fn eligible(accounts: Seq<Account>, model: Option<Seq<char>>, account_type: Seq<char>) -> Seq<Account>
    decreases accounts.len(),
{
    if accounts.len() == 0 {
        seq![]
    } else {
        let prev = eligible(accounts.drop_last(), model, account_type);
        if serves(accounts.last(), model, account_type) {
            prev.push(accounts.last())
        } else {
            prev
        }
    }
}

fn rank_key(a: &Account, model: Option<&str>) -> (r: RankKey)
    ensures
        r@ == rank_of(*a, opt_str_view(model)),
{
    let explicit = match model {
        Some(m) => {
            let raw = match &a.supported_models {
                Some(s) => Some(s.as_str()),
                None => None,
            };
            assert(opt_str_view(raw) == opt_string_view(a.supported_models));
            has_model(raw, m)
        },
        None => false,
    };
    let lower = to_lowercase(a.name.as_str());
    RankKey {
        explicit,
        priority: a.priority,
        multiplier: a.multiplier,
        duration: a.monitor_average_duration_ms,
        name: to_chars(lower.as_str()),
        id: to_chars(a.id.as_str()),
    }
}

/// The account that serves a request for `model` among the active accounts
/// of the protocol `account_type`: of those that may serve it, the first
/// most preferred (explicit listing, higher priority, lower multiplier,
/// shorter average duration, then lower-cased name and id); `None` when none
/// may serve it.
pub fn pick_one(accounts: Vec<Account>, model: Option<&str>, account_type: &str) -> (r: Option<Account>)
    ensures
        r is None <==> eligible(accounts@, opt_str_view(model), account_type@).len() == 0,
        r matches Some(a) ==> serves(a, opt_str_view(model), account_type@),
        r matches Some(a) ==> exists|i: int|
            is_first_best(
                ranks_of(eligible(accounts@, opt_str_view(model), account_type@), opt_str_view(model)),
                i,
            ) && eligible(accounts@, opt_str_view(model), account_type@)[i] == a,
{
    let ghost orig = accounts@;
    let ghost m = opt_str_view(model);
    let ghost t = account_type@;
    assert(orig.len() == accounts.len());
    let mut rest = accounts;
    let mut pool: Vec<Account> = Vec::new();
    let mut keys: Vec<RankKey> = Vec::new();
    let mut taken: usize = 0;
    assert(orig.take(0) =~= seq![]);
    assert(orig =~= orig.take(0) + rest@);
    while rest.len() > 0
        invariant
            taken + rest@.len() == orig.len(),
            orig.len() <= usize::MAX,
            orig == orig.take(taken as int) + rest@,
            pool@ == eligible(orig.take(taken as int), m, t),
            ranks_view(keys@) == ranks_of(pool@, m),
            m == opt_str_view(model),
            t == account_type@,
            forall|k: int| 0 <= k < pool@.len() ==> #[trigger] serves(pool@[k], m, t),
        decreases rest@.len(),
    {
        let a = rest.remove(0);
        proof {
            assert(orig[taken as int] == a);
            assert(orig.take(taken + 1).drop_last() =~= orig.take(taken as int));
            assert(orig.take(taken + 1).last() == a);
            assert(orig =~= orig.take(taken + 1) + rest@);
        }
        let raw = match &a.supported_models {
            Some(s) => Some(s.as_str()),
            None => None,
        };
        assert(opt_str_view(raw) == opt_string_view(a.supported_models));
        if str_eq(a.status.as_str(), "active") && str_eq(a.account_type.as_str(), account_type)
            && supported(raw, model) {
            let key = rank_key(&a, model);
            let ghost old_pool = pool@;
            let ghost old_keys = keys@;
            pool.push(a);
            keys.push(key);
            proof {
                assert(ranks_view(keys@) =~= ranks_view(old_keys).push(key@));
                assert(ranks_of(pool@, m) =~= ranks_of(old_pool, m).push(rank_of(a, m)));
            }
        }
        taken = taken + 1;
    }
    assert(orig.take(taken as int) =~= orig);
    match first_best(&keys) {
        None => None,
        Some(i) => {
            let chosen = pool.remove(i);
            assert(is_first_best(ranks_of(eligible(orig, m, t), m), i as int));
            Some(chosen)
        },
    }
}

/// When some account that may serve the model lists it explicitly, the
/// account picked for the model lists it too.
pub proof fn lemma_pick_prefers_explicit(accounts: Seq<Account>, model: Seq<char>, account_type: Seq<char>, i: int, j: int)
    requires
        is_first_best(ranks_of(eligible(accounts, Some(model), account_type), Some(model)), i),
        0 <= j < eligible(accounts, Some(model), account_type).len(),
        has_model_spec(opt_string_view(eligible(accounts, Some(model), account_type)[j].supported_models), model),
    ensures
        has_model_spec(opt_string_view(eligible(accounts, Some(model), account_type)[i].supported_models), model),
{
    let ranks = ranks_of(eligible(accounts, Some(model), account_type), Some(model));
    assert(ranks[j] == rank_of(eligible(accounts, Some(model), account_type)[j], Some(model)));
    assert(ranks[i] == rank_of(eligible(accounts, Some(model), account_type)[i], Some(model)));
    assert(compare_rank(ranks[i], ranks[j]) <= 0);
}

/// The IEEE-754 bits of 0.01.
pub const MIN_MULTIPLIER_BITS: u64 = 0x3F84_7AE1_47AE_147B;

/// The IEEE-754 bits of 0.30.
pub const MAX_MULTIPLIER_BITS: u64 = 0x3FD3_3333_3333_3333;

/// Whether a multiplier, given by its `f64` bits, lies in 0.01..=0.30. The
/// bits of non-negative `f64`s are ordered as their values, while negative
/// values and NaNs have bits above those of 0.30.
pub open spec fn multiplier_in_range(bits: u64) -> bool {
    MIN_MULTIPLIER_BITS <= bits <= MAX_MULTIPLIER_BITS
}

/// What an account must hold: a name, an upstream address and a key that
/// are not blank, a known protocol, a priority in 0..=9 and a multiplier in
/// 0.01..=0.30.
pub open spec fn validate_spec(
    name: Seq<char>,
    typ: Seq<char>,
    url: Seq<char>,
    key: Seq<char>,
    priority: i64,
    multiplier: u64,
) -> Result<(), Seq<char>> {
    if trim(name).len() == 0 || trim(url).len() == 0 || trim(key).len() == 0 {
        Err("名称、上游地址和 API 密钥不能为空"@)
    } else if typ != "openai"@ && typ != "anthropic"@ {
        Err("协议类型不支持"@)
    } else if !(0 <= priority <= 9) || !multiplier_in_range(multiplier) {
        Err("优先级或倍率超出范围"@)
    } else {
        Ok(())
    }
}

/// Checks what an account holds; a refusal is a bad request.
pub fn validate(
    name: &str,
    typ: &str,
    url: &str,
    key: &str,
    priority: i64,
    multiplier: u64,
) -> (r: Result<(), AppError>)
    ensures
        r is Ok <==> validate_spec(name@, typ@, url@, key@, priority, multiplier) is Ok,
        r matches Err(e) ==> validate_spec(name@, typ@, url@, key@, priority, multiplier) matches Err(
            msg,
        ) && is_bad_request(e, msg),
{
    if trim_chars(name).len() == 0 || trim_chars(url).len() == 0 || trim_chars(key).len() == 0 {
        return Err(AppError::BadRequest("名称、上游地址和 API 密钥不能为空".to_string()));
    }
    if !str_eq(typ, "openai") && !str_eq(typ, "anthropic") {
        return Err(AppError::BadRequest("协议类型不支持".to_string()));
    }
    if priority < 0 || priority > 9 || multiplier < MIN_MULTIPLIER_BITS || multiplier
        > MAX_MULTIPLIER_BITS {
        return Err(AppError::BadRequest("优先级或倍率超出范围".to_string()));
    }
    Ok(())
}

/// A JSON column for a value: none for a missing or `null` value, else its
/// JSON text.
pub open spec fn json_column(value: Option<JsonValue>) -> Option<Seq<char>> {
    match value {
        None => None,
        Some(JsonValue::Null) => None,
        Some(v) => Some(json_text(v)),
    }
}

/// The JSON column of an optional value.
pub fn json_value_column(value: Option<JsonValue>) -> (r: Option<String>)
    ensures
        opt_string_view(r) == json_column(value),
{
    match value {
        None => None,
        Some(JsonValue::Null) => None,
        Some(v) => Some(v.to_json_string()),
    }
}

/// A JSON column for a list: none for a missing or empty list, else the
/// list's JSON text.
pub open spec fn list_column(value: Option<Seq<Seq<char>>>) -> Option<Seq<char>> {
    match value {
        None => None,
        Some(items) => if items.len() == 0 {
            None
        } else {
            Some(json_strings_text(items))
        },
    }
}

/// The views of an optional list of strings.
pub open spec fn opt_strings_view(value: Option<Vec<String>>) -> Option<Seq<Seq<char>>> {
    match value {
        Some(v) => Some(strings_view(v@)),
        None => None,
    }
}

/// The JSON column of an optional list of strings.
pub fn json_opt_vec(value: Option<Vec<String>>) -> (r: Option<String>)
    ensures
        opt_string_view(r) == list_column(opt_strings_view(value)),
{
    match value {
        None => None,
        Some(items) => if items.len() == 0 {
            None
        } else {
            Some(strings_to_json(&items))
        },
    }
}

/// An account's upstream address as it is stored: without trailing `/`.
pub open spec fn stored_base_url(url: Seq<char>) -> Seq<char> {
    trim_end_char(url, '/')
}

fn base_url_column(url: &str) -> (r: String)
    ensures
        r@ == stored_base_url(url@),
{
    let v = to_chars(url);
    let t = chars_trim_end_char(v.as_slice(), '/');
    from_chars(t.as_slice())
}

/// The columns that creating or updating an account writes.
#[derive(Debug)]
pub struct AccountFields {
    pub name: String,
    pub account_type: String,
    pub base_url: String,
    pub api_key: String,
    pub status: String,
    pub priority: i64,
    pub multiplier: u64,
    pub test_default_model: Option<String>,
    pub model_mappings: Option<String>,
    pub supported_models: Option<String>,
    pub tags: Option<String>,
    pub notes: Option<String>,
}

/// The columns of a new account: the request checked, the name trimmed, the
/// address without trailing `/`, lists and mappings as JSON columns.
pub fn create_fields(payload: AccountCreate) -> (r: Result<AccountFields, AppError>)
    ensures
        r is Ok <==> validate_spec(
            payload.name@,
            payload.account_type@,
            payload.base_url@,
            payload.api_key@,
            payload.priority,
            payload.multiplier,
        ) is Ok,
        r matches Err(e) ==> validate_spec(
            payload.name@,
            payload.account_type@,
            payload.base_url@,
            payload.api_key@,
            payload.priority,
            payload.multiplier,
        ) matches Err(msg) && is_bad_request(e, msg),
        r matches Ok(f) ==> {
            &&& f.name@ == trim(payload.name@)
            &&& f.account_type@ == payload.account_type@
            &&& f.base_url@ == stored_base_url(payload.base_url@)
            &&& f.api_key@ == payload.api_key@
            &&& f.status@ == payload.status@
            &&& f.priority == payload.priority
            &&& f.multiplier == payload.multiplier
            &&& opt_string_view(f.test_default_model) == opt_string_view(payload.test_default_model)
            &&& opt_string_view(f.model_mappings) == json_column(payload.model_mappings)
            &&& opt_string_view(f.supported_models) == list_column(opt_strings_view(payload.supported_models))
            &&& opt_string_view(f.tags) == list_column(opt_strings_view(payload.tags))
            &&& opt_string_view(f.notes) == opt_string_view(payload.notes)
        },
{
    validate(
        payload.name.as_str(),
        payload.account_type.as_str(),
        payload.base_url.as_str(),
        payload.api_key.as_str(),
        payload.priority,
        payload.multiplier,
    )?;
    let name = from_chars(trim_chars(payload.name.as_str()).as_slice());
    let base_url = base_url_column(payload.base_url.as_str());
    let AccountCreate {
        account_type,
        api_key,
        status,
        priority,
        multiplier,
        test_default_model,
        model_mappings,
        supported_models,
        tags,
        notes,
        ..
    } = payload;
    Ok(
        AccountFields {
            name,
            account_type,
            base_url,
            api_key,
            status,
            priority,
            multiplier,
            test_default_model,
            model_mappings: json_value_column(model_mappings),
            supported_models: json_opt_vec(supported_models),
            tags: json_opt_vec(tags),
            notes,
        },
    )
}

/// A mapping column from an update: an empty object clears it, another
/// value is written as JSON, and no value keeps the stored one.
pub open spec fn updated_mappings(value: Option<JsonValue>, current: Option<Seq<char>>) -> Option<
    Seq<char>,
> {
    match value {
        Some(JsonValue::Object(items)) => if items@.len() == 0 {
            None
        } else {
            json_column(value)
        },
        Some(v) => json_column(value),
        None => current,
    }
}

/// The mappings an update stores: a mappings object with entries is stored
/// as its JSON text, replacing the stored one; an empty object or `null`
/// clears them; no mappings keep the stored ones.
pub proof fn lemma_update_mappings(value: Option<JsonValue>, current: Option<Seq<char>>)
    ensures
        value matches Some(JsonValue::Object(items)) && items@.len() > 0 ==> updated_mappings(value, current)
            == Some(json_text(value->0)),
        value matches Some(JsonValue::Object(items)) && items@.len() == 0 ==> updated_mappings(value, current)
            is None,
        value == Some(JsonValue::Null) ==> updated_mappings(value, current) is None,
        value is None ==> updated_mappings(value, current) == current,
        value is Some && value->0 != JsonValue::Null && !(value->0 is Object) ==> updated_mappings(
            value,
            current,
        ) == Some(json_text(value->0)),
{
}

/// Notes from an update: blank notes clear them, no notes keep the stored ones.
pub open spec fn updated_notes(value: Option<Seq<char>>, current: Option<Seq<char>>) -> Option<
    Seq<char>,
> {
    match value {
        Some(v) => if trim(v).len() == 0 {
            None
        } else {
            Some(v)
        },
        None => current,
    }
}

/// An update's value, else the stored one.
pub open spec fn or_current(value: Option<Seq<char>>, current: Seq<char>) -> Seq<char> {
    match value {
        Some(v) => v,
        None => current,
    }
}

/// The key from an update: an empty key keeps the stored one.
pub open spec fn updated_key(value: Option<Seq<char>>, current: Seq<char>) -> Seq<char> {
    match value {
        Some(v) => if v.len() == 0 {
            current
        } else {
            v
        },
        None => current,
    }
}

/// An update's text fields: a given value replaces the stored one and a
/// missing one keeps it; a given key replaces the stored one unless it is
/// empty; given notes replace the stored ones, cleared when blank.
pub proof fn lemma_update_text_fields(value: Option<Seq<char>>, current: Seq<char>, notes: Option<Seq<char>>)
    ensures
        value matches Some(v) ==> or_current(value, current) == v,
        value is None ==> or_current(value, current) == current,
        value is Some && value->0.len() > 0 ==> updated_key(value, current) == value->0,
        (value is None || value == Some(Seq::<char>::empty())) ==> updated_key(value, current) == current,
        value is Some && trim(value->0).len() > 0 ==> updated_notes(value, notes) == value,
        value is Some && trim(value->0).len() == 0 ==> updated_notes(value, notes) is None,
        value is None ==> updated_notes(value, notes) == notes,
{
}

fn take_or(value: Option<String>, current: &String) -> (r: String)
    ensures
        r@ == or_current(opt_string_view(value), current@),
{
    match value {
        Some(v) => v,
        None => {
            let c = current.clone();
            assert(c@ == current@);
            c
        },
    }
}

/// The columns of an updated account: what the request gives, else the
/// stored values, then checked as on creation. The name is written as given;
/// the address without trailing `/`.
pub fn update_fields(current: &Account, payload: AccountUpdate) -> (r: Result<
    AccountFields,
    AppError,
>)
    ensures
        ({
            let name = or_current(opt_string_view(payload.name), current.name@);
            let typ = or_current(opt_string_view(payload.account_type), current.account_type@);
            let url = or_current(opt_string_view(payload.base_url), current.base_url@);
            let key = updated_key(opt_string_view(payload.api_key), current.api_key_encrypted@);
            let priority = match payload.priority {
                Some(p) => p,
                None => current.priority,
            };
            let multiplier = match payload.multiplier {
                Some(m) => m,
                None => current.multiplier,
            };
            let check = validate_spec(name, typ, url, key, priority, multiplier);
            &&& (r is Ok <==> check is Ok)
            &&& (r matches Err(e) ==> check matches Err(msg) && is_bad_request(e, msg))
            &&& (r matches Ok(f) ==> {
                &&& f.name@ == name
                &&& f.account_type@ == typ
                &&& f.base_url@ == stored_base_url(url)
                &&& f.api_key@ == key
                &&& f.status@ == or_current(opt_string_view(payload.status), current.status@)
                &&& f.priority == priority
                &&& f.multiplier == multiplier
                &&& opt_string_view(f.test_default_model) == (match payload.test_default_model {
                    Some(t) => Some(t@),
                    None => opt_string_view(current.test_default_model),
                })
                &&& opt_string_view(f.model_mappings) == updated_mappings(
                    payload.model_mappings,
                    opt_string_view(current.model_mappings),
                )
                &&& opt_string_view(f.supported_models) == (match payload.supported_models {
                    Some(v) => list_column(Some(strings_view(v@))),
                    None => opt_string_view(current.supported_models),
                })
                &&& opt_string_view(f.tags) == (match payload.tags {
                    Some(v) => list_column(Some(strings_view(v@))),
                    None => opt_string_view(current.tags),
                })
                &&& opt_string_view(f.notes) == updated_notes(
                    opt_string_view(payload.notes),
                    opt_string_view(current.notes),
                )
            })
        }),
{
    let AccountUpdate {
        name,
        account_type,
        base_url,
        api_key,
        status,
        priority,
        multiplier,
        test_default_model,
        model_mappings,
        supported_models,
        tags,
        notes,
    } = payload;
    let name = take_or(name, &current.name);
    let account_type = take_or(account_type, &current.account_type);
    let base_url = take_or(base_url, &current.base_url);
    let api_key = match api_key {
        Some(k) => if to_chars(k.as_str()).len() == 0 {
            let c = current.api_key_encrypted.clone();
            assert(c@ == current.api_key_encrypted@);
            c
        } else {
            k
        },
        None => {
            let c = current.api_key_encrypted.clone();
            assert(c@ == current.api_key_encrypted@);
            c
        },
    };
    let status = take_or(status, &current.status);
    let priority = match priority {
        Some(p) => p,
        None => current.priority,
    };
    let multiplier = match multiplier {
        Some(m) => m,
        None => current.multiplier,
    };
    let test_default_model = match test_default_model {
        Some(t) => Some(t),
        None => copy_opt_string(&current.test_default_model),
    };
    let model_mappings = match model_mappings {
        Some(JsonValue::Object(items)) => if items.len() == 0 {
            None
        } else {
            json_value_column(Some(JsonValue::Object(items)))
        },
        Some(v) => json_value_column(Some(v)),
        None => copy_opt_string(&current.model_mappings),
    };
    let supported_models = match supported_models {
        Some(v) => json_opt_vec(Some(v)),
        None => copy_opt_string(&current.supported_models),
    };
    let tags = match tags {
        Some(v) => json_opt_vec(Some(v)),
        None => copy_opt_string(&current.tags),
    };
    let notes = match notes {
        Some(v) => if trim_chars(v.as_str()).len() == 0 {
            None
        } else {
            Some(v)
        },
        None => copy_opt_string(&current.notes),
    };
    validate(
        name.as_str(),
        account_type.as_str(),
        base_url.as_str(),
        api_key.as_str(),
        priority,
        multiplier,
    )?;
    let base_url = base_url_column(base_url.as_str());
    Ok(
        AccountFields {
            name,
            account_type,
            base_url,
            api_key,
            status,
            priority,
            multiplier,
            test_default_model,
            model_mappings,
            supported_models,
            tags,
            notes,
        },
    )
}

/// A priority as it is saved: clamped into 0..=9.
pub fn clamp_priority(priority: i64) -> (r: i64)
    ensures
        r == (if priority < 0 {
            0
        } else if priority > 9 {
            9
        } else {
            priority
        }),
{
    if priority < 0 {
        0
    } else if priority > 9 {
        9
    } else {
        priority
    }
}

/// The SQL expression of an account's next priority after a request or
/// probe: a success raises it (a monitor probe only below 8), a failure
/// lowers it; the store clamps the result into 0..=9.
pub open spec fn priority_expression(success: bool, kind: Seq<char>) -> Seq<char> {
    if success {
        if kind == "monitor"@ {
            "CASE WHEN priority < 8 THEN priority + 1 ELSE priority END"@
        } else {
            "priority + 1"@
        }
    } else {
        "priority - 1"@
    }
}

/// The SQL expression of an account's next priority after an outcome.
pub fn priority_update(success: bool, kind: &str) -> (r: &'static str)
    ensures
        r@ == priority_expression(success, kind@),
{
    if success {
        if str_eq(kind, "monitor") {
            "CASE WHEN priority < 8 THEN priority + 1 ELSE priority END"
        } else {
            "priority + 1"
        }
    } else {
        "priority - 1"
    }
}

/// The strings of a list column, when it holds a JSON array of strings.
pub fn column_list(raw: Option<String>) -> (r: Option<Vec<String>>)
    ensures
        opt_strings_view(r) == model_list(opt_string_view(raw)),
{
    match raw {
        Some(s) => {
            parse_string_list(s.as_str())
        },
        None => None,
    }
}

/// The value of a JSON column, when it holds JSON.
pub fn column_json(raw: Option<String>) -> (r: Option<JsonValue>)
    ensures
        r == (match opt_string_view(raw) {
            Some(t) => json_parse(t),
            None => None,
        }),
{
    match raw {
        Some(s) => JsonValue::parse(s.as_str()),
        None => None,
    }
}

/// An account as the API shows it: its fields, with the mapping column and
/// the list columns parsed (unreadable ones shown as missing).
pub fn to_view(a: Account) -> (r: AccountView)
    ensures
        r.id == a.id,
        r.name == a.name,
        r.account_type == a.account_type,
        r.base_url == a.base_url,
        r.api_key == a.api_key_encrypted,
        r.status == a.status,
        r.priority == a.priority,
        r.multiplier == a.multiplier,
        r.test_default_model == a.test_default_model,
        r.model_mappings == (match opt_string_view(a.model_mappings) {
            Some(t) => json_parse(t),
            None => None,
        }),
        opt_strings_view(r.supported_models) == model_list(opt_string_view(a.supported_models)),
        opt_strings_view(r.tags) == model_list(opt_string_view(a.tags)),
        r.notes == a.notes,
        r.last_error_code == a.last_error_code,
        r.last_error_message == a.last_error_message,
        r.last_successful_test_model == a.last_successful_test_model,
        r.last_used_at == a.last_used_at,
        r.total_requests == a.total_requests,
        r.total_tokens == a.total_tokens,
        r.monitor_average_duration_ms == a.monitor_average_duration_ms,
        r.created_at == a.created_at,
        r.updated_at == a.updated_at,
{
    let Account {
        id,
        name,
        account_type,
        base_url,
        api_key_encrypted,
        status,
        priority,
        multiplier,
        test_default_model,
        model_mappings,
        supported_models,
        tags,
        notes,
        last_error_code,
        last_error_message,
        last_successful_test_model,
        last_used_at,
        total_requests,
        total_tokens,
        monitor_average_duration_ms,
        created_at,
        updated_at,
    } = a;
    AccountView {
        id,
        name,
        account_type,
        base_url,
        api_key: api_key_encrypted,
        status,
        priority,
        multiplier,
        test_default_model,
        model_mappings: column_json(model_mappings),
        supported_models: column_list(supported_models),
        tags: column_list(tags),
        notes,
        last_error_code,
        last_error_message,
        last_successful_test_model,
        last_used_at,
        total_requests,
        total_tokens,
        monitor_average_duration_ms,
        created_at,
        updated_at,
    }
}

} // verus!
