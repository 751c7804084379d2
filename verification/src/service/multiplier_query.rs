//! Checks and decisions of the remote multiplier query: the query URL, the
//! bearer token, the answers of the keys and refresh endpoints, and the
//! paging through the keys list.

use vstd::prelude::*;
use crate::text::{opt_as_str, opt_str_view, opt_string_view, str_eq};

use crate::text::{
    chars_eq, chars_eq_ci, chars_starts_with_ci, chars_trim_end_char, concat, digits,
    eq_ci, from_chars, int_text, int_to_string, push_digits, starts_with_ci, sub_chars,
    to_chars, trim, trim_chars, trim_end_char, ascii_lower, lemma_trim_end_char_shape, lemma_trim_end_shape,
    lemma_trim_idempotent, lemma_trim_of_trimmed, lemma_trim_start_shape, trim_start,
};

verus! {

broadcast use vstd::string::group_string_axioms;

/// Items requested per page of the keys list.
pub const PAGE_SIZE: usize = 100;

/// The most response bytes read for one page.
pub const MAX_PAGE_RESPONSE_BYTES: usize = 4194304;

/// The most pages fetched in one query.
pub const MAX_PAGES: usize = 1000;

/// The most items accepted in one query.
pub const MAX_ITEMS: usize = 100000;

/// One key and its rate as the remote service lists them.
#[derive(Debug, Clone, PartialEq, Eq)]
pub struct RemoteMultiplier {
    pub key: String,
    pub rate_multiplier: Option<String>,
    pub rate_error: Option<String>,
}

/// A failed query: a machine code, a message and, where the failure is an
/// HTTP status, that status.
#[derive(Debug, Clone)]
pub struct MultiplierQueryError {
    pub code: String,
    pub message: String,
    pub http_status: Option<i64>,
}

/// Tokens returned by the refresh endpoint.
#[derive(Debug, Clone, PartialEq, Eq)]
pub struct RefreshedTokens {
    pub access_token: String,
    pub refresh_token: String,
}

impl MultiplierQueryError {
    /// Whether this error has code `code`, message `message` and no status.
    pub open spec fn is(self, code: Seq<char>, message: Seq<char>) -> bool {
        self.code@ == code && self.message@ == message && self.http_status is None
    }

    /// An error with no HTTP status.
    pub fn new(code: &str, message: String) -> (r: Self)
        ensures
            r.code@ == code@,
            r.message == message,
            r.http_status is None,
    {
        MultiplierQueryError { code: code.to_string(), message, http_status: None }
    }

    /// An error that carries the HTTP status `status`.
    pub fn with_status(code: &str, message: String, status: u16) -> (r: Self)
        ensures
            r.code@ == code@,
            r.message == message,
            r.http_status == Some(status as i64),
    {
        MultiplierQueryError { code: code.to_string(), message, http_status: Some(status as i64) }
    }
}

/// `"Bearer "`, the prefix of an authorization value.
pub open spec fn bearer() -> Seq<char> {
    seq!['B', 'e', 'a', 'r', 'e', 'r', ' ']
}

fn bearer_chars() -> (r: Vec<char>)
    ensures
        r@ == bearer(),
{
    let r = vec!['B', 'e', 'a', 'r', 'e', 'r', ' '];
    assert(r@ =~= bearer());
    r
}

/// The authorization value for a query token: the trimmed token, prefixed
/// with `Bearer ` unless it already starts with it in any case.
pub open spec fn authorization_spec(raw: Seq<char>) -> Seq<char> {
    let t = trim(raw);
    if starts_with_ci(t, bearer()) {
        t
    } else {
        bearer() + t
    }
}

/// The prefix is added once: an authorization value is its own
/// authorization value.
pub proof fn lemma_authorization_adds_prefix_once(raw: Seq<char>)
    requires
        trim(raw).len() > 0,
    ensures
        authorization_spec(authorization_spec(raw)) == authorization_spec(raw),
{
    let t = trim(raw);
    lemma_trim_idempotent(raw);
    lemma_trim_start_shape(raw);
    lemma_trim_end_shape(trim_start(raw));
    if starts_with_ci(t, bearer()) {
        assert(trim(t) == t);
    } else {
        let v = bearer() + t;
        assert(t[0] == trim_start(raw)[0]);
        assert(v[0] == 'B');
        assert(v.last() == t.last());
        lemma_trim_of_trimmed(v);
        assert(v.take(7) =~= bearer());
        assert(starts_with_ci(v, bearer())) by {
            assert forall|i: int| 0 <= i < bearer().len() implies ascii_lower(#[trigger] v[i])
                == ascii_lower(bearer()[i]) by {
                assert(v[i] == bearer()[i]);
            }
        }
    }
}

/// The `Authorization` header value for a query token.
pub fn authorization_value(raw_token: &str) -> (r: Result<String, MultiplierQueryError>)
    ensures
        r is Err <==> trim(raw_token@).len() == 0,
        r matches Err(e) ==> e.is("empty_token"@, "倍率查询 token 不能为空"@),
        r matches Ok(v) ==> v@ == authorization_spec(raw_token@),
{
    let token = trim_chars(raw_token);
    if token.len() == 0 {
        return Err(MultiplierQueryError::new("empty_token", "倍率查询 token 不能为空".to_string()));
    }
    let b = bearer_chars();
    if chars_starts_with_ci(token.as_slice(), b.as_slice()) {
        Ok(from_chars(token.as_slice()))
    } else {
        let mut v = b;
        let mut i: usize = 0;
        while i < token.len()
            invariant
                i <= token@.len(),
                v@ == bearer() + token@.take(i as int),
            decreases token@.len() - i,
        {
            v.push(token[i]);
            i = i + 1;
            assert(v@ =~= bearer() + token@.take(i as int));
        }
        assert(token@.take(i as int) =~= token@);
        Ok(from_chars(v.as_slice()))
    }
}

/// A refreshed access token as it is stored: trimmed, without a leading
/// `Bearer ` (in any case), trimmed again; `None` when absent or blank.
pub open spec fn access_token_spec(raw: Option<Seq<char>>) -> Option<Seq<char>> {
    match raw {
        None => None,
        Some(r) => {
            let t = trim(r);
            if t.len() == 0 {
                None
            } else if starts_with_ci(t, bearer()) {
                Some(trim(t.skip(7)))
            } else {
                Some(trim(t))
            }
        },
    }
}

/// Normalizes an access token returned by the refresh endpoint.
pub fn normalize_access_token(raw_token: Option<&str>) -> (r: Option<String>)
    ensures
        opt_string_view(r) == access_token_spec(opt_str_view(raw_token)),
{
    let raw = match raw_token {
        Some(v) => v,
        None => return None,
    };
    let token = trim_chars(raw);
    if token.len() == 0 {
        return None;
    }
    let b = bearer_chars();
    let rest = if chars_starts_with_ci(token.as_slice(), b.as_slice()) {
        sub_chars(token.as_slice(), 7, token.len())
    } else {
        token
    };
    let s = from_chars(rest.as_slice());
    let t = trim_chars(s.as_str());
    Some(from_chars(t.as_slice()))
}


/// A URL parsed by the `url` crate (as `reqwest::Url`), with its
/// serialization.
#[verifier::external_type_specification]
#[verifier::external_body]
pub struct ExUrl(reqwest::Url);

/// The serialization of a URL (`Url::as_str`).
pub uninterp spec fn url_text(url: reqwest::Url) -> Seq<char>;

/// A parsed URL. Only this module builds one, from a parse or a change of
/// another, so that `text` is always the serialization of `url`.
pub struct ParsedUrl {
    url: reqwest::Url,
    text: String,
}

impl ParsedUrl {
    /// `text` is the serialization of `url`.
    #[verifier::type_invariant]
    spec fn serializes(self) -> bool {
        url_text(self.url) == self.text@
    }
}

impl View for ParsedUrl {
    type V = Seq<char>;

    /// The URL's serialization.
    closed spec fn view(&self) -> Seq<char> {
        self.text@
    }
}

impl ParsedUrl {
    /// The URL's serialization (`Url::as_str`).
    pub fn as_str(&self) -> (r: &str)
        ensures
            r@ == self@,
    {
        self.text.as_str()
    }

    /// The parsed URL that this value carries, whose serialization is
    /// `self@`.
    pub closed spec fn parsed(&self) -> reqwest::Url {
        self.url
    }

    /// The parsed URL itself, for an HTTP request: the URL whose
    /// serialization is `self@`.
    pub fn url(&self) -> (r: &reqwest::Url)
        ensures
            *r == self.parsed(),
            url_text(*r) == self@,
    {
        proof {
            use_type_invariant(self);
        }
        &self.url
    }
}

/// What `Url::parse(input)` gives: the serialization of the URL, or the
/// `Display` text of the parse error.
pub uninterp spec fn url_parse(input: Seq<char>) -> Result<Seq<char>, Seq<char>>;

/// `Url::scheme` of the URL serialized as `url`.
pub uninterp spec fn url_scheme(url: Seq<char>) -> Seq<char>;

/// `Url::host_str` of the URL serialized as `url`.
pub uninterp spec fn url_host(url: Seq<char>) -> Option<Seq<char>>;

/// `Url::username` of the URL serialized as `url`.
pub uninterp spec fn url_username(url: Seq<char>) -> Seq<char>;

/// `Url::password` of the URL serialized as `url`.
pub uninterp spec fn url_password(url: Seq<char>) -> Option<Seq<char>>;

/// `Url::fragment` of the URL serialized as `url`.
pub uninterp spec fn url_fragment(url: Seq<char>) -> Option<Seq<char>>;

/// `Url::query_pairs` (decoded names and values) of the URL serialized as
/// `url`.
pub uninterp spec fn url_query_pairs(url: Seq<char>) -> Seq<(Seq<char>, Seq<char>)>;

/// The serialization after `Url::set_path(path)`.
pub uninterp spec fn url_with_path(url: Seq<char>, path: Seq<char>) -> Seq<char>;

/// The serialization after `Url::set_query(None)`.
pub uninterp spec fn url_without_query(url: Seq<char>) -> Seq<char>;

/// The serialization after `Url::set_fragment(None)`.
pub uninterp spec fn url_without_fragment(url: Seq<char>) -> Seq<char>;

/// The serialization after `query_pairs_mut().extend_pairs(pairs)`.
pub uninterp spec fn url_with_pairs(url: Seq<char>, pairs: Seq<(Seq<char>, Seq<char>)>) -> Seq<
    char,
>;

/// The views of name/value pairs.
pub open spec fn pairs_view(v: Seq<(String, String)>) -> Seq<(Seq<char>, Seq<char>)> {
    v.map_values(|p: (String, String)| (p.0@, p.1@))
}

/// Calls `Url::parse`. Claimed: the result is the named parse of `input`,
/// and the parsed URL is kept with its own `as_str` as its text.
#[verifier::external_body]
fn parse_url(input: &str) -> (r: Result<ParsedUrl, String>)
    ensures
        r matches Ok(u) ==> (url_parse(input@) matches Ok(t) && t == u@),
        r matches Ok(u) ==> url_text(u.parsed()) == u@,
        r matches Err(m) ==> (url_parse(input@) matches Err(t) && t == m@),
{
    match reqwest::Url::parse(input) {
        Ok(url) => Ok(ParsedUrl { text: url.as_str().to_string(), url }),
        Err(error) => Err(error.to_string()),
    }
}

/// Calls `Url::scheme`. Claimed: the result is the named scheme.
#[verifier::external_body]
fn scheme_of(u: &ParsedUrl) -> (r: String)
    ensures
        r@ == url_scheme(u@),
{
    u.url.scheme().to_string()
}

/// Calls `Url::host_str`. Claimed: the result is the named host.
#[verifier::external_body]
fn host_of(u: &ParsedUrl) -> (r: Option<String>)
    ensures
        opt_string_view(r) == url_host(u@),
{
    u.url.host_str().map(|h| h.to_string())
}

/// Calls `Url::username`. Claimed: the result is the named user name.
#[verifier::external_body]
fn username_of(u: &ParsedUrl) -> (r: String)
    ensures
        r@ == url_username(u@),
{
    u.url.username().to_string()
}

/// Calls `Url::password`. Claimed: the result is the named password.
#[verifier::external_body]
fn password_of(u: &ParsedUrl) -> (r: Option<String>)
    ensures
        opt_string_view(r) == url_password(u@),
{
    u.url.password().map(|p| p.to_string())
}

/// Calls `Url::fragment`. Claimed: the result is the named fragment.
#[verifier::external_body]
fn fragment_of(u: &ParsedUrl) -> (r: Option<String>)
    ensures
        opt_string_view(r) == url_fragment(u@),
{
    u.url.fragment().map(|f| f.to_string())
}

/// Calls `Url::query_pairs`, owning each decoded pair. Claimed: the pairs are
/// the named ones, in order.
#[verifier::external_body]
fn query_pairs_of(u: &ParsedUrl) -> (r: Vec<(String, String)>)
    ensures
        pairs_view(r@) == url_query_pairs(u@),
{
    u.url.query_pairs().map(|(n, v)| (n.into_owned(), v.into_owned())).collect()
}

/// Calls `Url::set_path` on a copy. Claimed: the copy's serialization is the
/// named one, and the copy is kept with its own `as_str` as its text.
#[verifier::external_body]
fn with_path(u: &ParsedUrl, path: &str) -> (r: ParsedUrl)
    ensures
        r@ == url_with_path(u@, path@),
        url_text(r.parsed()) == r@,
{
    let mut url = u.url.clone();
    url.set_path(path);
    ParsedUrl { text: url.as_str().to_string(), url }
}

/// Calls `Url::set_query(None)` on a copy. Claimed: the copy's serialization
/// is the named one, and the copy is kept with its own `as_str` as its text.
#[verifier::external_body]
fn without_query(u: &ParsedUrl) -> (r: ParsedUrl)
    ensures
        r@ == url_without_query(u@),
        url_text(r.parsed()) == r@,
{
    let mut url = u.url.clone();
    url.set_query(None);
    ParsedUrl { text: url.as_str().to_string(), url }
}

/// Calls `Url::set_fragment(None)` on a copy. Claimed: the copy's
/// serialization is the named one, and the copy is kept with its own
/// `as_str` as its text.
#[verifier::external_body]
fn without_fragment(u: &ParsedUrl) -> (r: ParsedUrl)
    ensures
        r@ == url_without_fragment(u@),
        url_text(r.parsed()) == r@,
{
    let mut url = u.url.clone();
    url.set_fragment(None);
    ParsedUrl { text: url.as_str().to_string(), url }
}

/// Calls `query_pairs_mut().extend_pairs(pairs)` on a copy. Claimed: the
/// copy's serialization is the named one, and the copy is kept with its own
/// `as_str` as its text.
#[verifier::external_body]
fn with_pairs(u: &ParsedUrl, pairs: &[(String, String)]) -> (r: ParsedUrl)
    ensures
        r@ == url_with_pairs(u@, pairs_view(pairs@)),
        url_text(r.parsed()) == r@,
{
    let mut url = u.url.clone();
    url.query_pairs_mut().extend_pairs(pairs);
    ParsedUrl { text: url.as_str().to_string(), url }
}

/// A query parameter name that must not carry a token.
pub open spec fn is_sensitive_name(n: Seq<char>) -> bool {
    ||| eq_ci(n, "token"@)
    ||| eq_ci(n, "access_token"@)
    ||| eq_ci(n, "api_key"@)
    ||| eq_ci(n, "authorization"@)
}

/// Why a query URL is refused, as `(code, message)`, or `None` when the
/// trimmed text parses as an `http` or `https` URL with a host, without user
/// name, password or fragment, and without a query parameter named like a
/// token.
pub open spec fn url_refusal(raw: Seq<char>) -> Option<(Seq<char>, Seq<char>)> {
    match url_parse(trim(raw)) {
        Err(e) => Some(("invalid_url"@, "倍率查询 URL 无效: "@ + e)),
        Ok(u) => if !(url_scheme(u) == "http"@ || url_scheme(u) == "https"@) || url_host(u) is None {
            Some(("invalid_url"@, "倍率查询 URL 必须使用 http 或 https 且包含主机"@))
        } else if url_username(u).len() > 0 || url_password(u) is Some {
            Some(("url_contains_credentials"@, "倍率查询 URL 不能包含用户名或密码"@))
        } else if url_fragment(u) is Some {
            Some(("url_contains_fragment"@, "倍率查询 URL 不能包含 fragment"@))
        } else if exists|i: int|
            0 <= i < url_query_pairs(u).len() && is_sensitive_name(
                #[trigger] url_query_pairs(u)[i].0,
            ) {
            Some(("url_contains_token"@, "查询 Token 不能放在 URL 参数中，请填写到 Token 字段"@))
        } else {
            None
        },
    }
}

fn is_sensitive(n: &str) -> (r: bool)
    ensures
        r == is_sensitive_name(n@),
{
    let v = to_chars(n);
    let a = to_chars("token");
    let b = to_chars("access_token");
    let c = to_chars("api_key");
    let d = to_chars("authorization");
    chars_eq_ci(v.as_slice(), a.as_slice()) || chars_eq_ci(v.as_slice(), b.as_slice())
        || chars_eq_ci(v.as_slice(), c.as_slice()) || chars_eq_ci(v.as_slice(), d.as_slice())
}

/// Parses and checks a query URL.
pub fn validated_url(raw_url: &str) -> (r: Result<ParsedUrl, MultiplierQueryError>)
    ensures
        r is Ok <==> url_refusal(raw_url@) is None,
        r matches Ok(u) ==> (url_parse(trim(raw_url@)) matches Ok(t) && t == u@),
        r matches Err(e) ==> url_refusal(raw_url@) matches Some(f) && e.is(f.0, f.1),
{
    let trimmed = trim_chars(raw_url);
    let input = from_chars(trimmed.as_slice());
    let url = match parse_url(input.as_str()) {
        Ok(u) => u,
        Err(error) => {
            return Err(
                MultiplierQueryError::new(
                    "invalid_url",
                    concat("倍率查询 URL 无效: ", error.as_str()),
                ),
            );
        },
    };
    let scheme = scheme_of(&url);
    let host = host_of(&url);
    if !(str_eq(scheme.as_str(), "http") || str_eq(scheme.as_str(), "https")) || host.is_none() {
        return Err(
            MultiplierQueryError::new(
                "invalid_url",
                "倍率查询 URL 必须使用 http 或 https 且包含主机".to_string(),
            ),
        );
    }
    let username = username_of(&url);
    let password = password_of(&url);
    if username.as_str().unicode_len() > 0 || password.is_some() {
        return Err(
            MultiplierQueryError::new(
                "url_contains_credentials",
                "倍率查询 URL 不能包含用户名或密码".to_string(),
            ),
        );
    }
    if fragment_of(&url).is_some() {
        return Err(
            MultiplierQueryError::new(
                "url_contains_fragment",
                "倍率查询 URL 不能包含 fragment".to_string(),
            ),
        );
    }
    let pairs = query_pairs_of(&url);
    let mut i: usize = 0;
    while i < pairs.len()
        invariant
            i <= pairs@.len(),
            pairs_view(pairs@) == url_query_pairs(url@),
            url_parse(trim(raw_url@)) matches Ok(t) && t == url@,
            url_scheme(url@) == "http"@ || url_scheme(url@) == "https"@,
            url_host(url@) is Some,
            url_username(url@).len() == 0,
            url_password(url@) is None,
            url_fragment(url@) is None,
            forall|j: int| 0 <= j < i ==> !is_sensitive_name(#[trigger] pairs_view(pairs@)[j].0),
        decreases pairs@.len() - i,
    {
        if is_sensitive(pairs[i].0.as_str()) {
            assert(pairs_view(pairs@)[i as int].0 == pairs@[i as int].0@);
            assert(is_sensitive_name(url_query_pairs(url@)[i as int].0));
            return Err(
                MultiplierQueryError::new(
                    "url_contains_token",
                    "查询 Token 不能放在 URL 参数中，请填写到 Token 字段".to_string(),
                ),
            );
        }
        i = i + 1;
    }
    assert forall|j: int| 0 <= j < url_query_pairs(url@).len() implies !is_sensitive_name(
        #[trigger] url_query_pairs(url@)[j].0,
    ) by {
        assert(pairs_view(pairs@)[j].0 == url_query_pairs(url@)[j].0);
    }
    Ok(url)
}

/// Checks a query URL.
pub fn validate_url(raw_url: &str) -> (r: Result<(), MultiplierQueryError>)
    ensures
        r is Ok <==> url_refusal(raw_url@) is None,
        r matches Err(e) ==> url_refusal(raw_url@) matches Some(f) && e.is(f.0, f.1),
{
    match validated_url(raw_url) {
        Ok(_) => Ok(()),
        Err(e) => Err(e),
    }
}

/// The base address of a query URL: its serialization with the path set to
/// empty and query and fragment removed, without trailing `/`.
pub open spec fn base_url_text(u: Seq<char>) -> Seq<char> {
    trim_end_char(url_without_fragment(url_without_query(url_with_path(u, Seq::empty()))), '/')
}

/// The base address (scheme, host and port) of a query URL.
pub fn normalize_base_url(raw_url: &str) -> (r: Result<String, MultiplierQueryError>)
    ensures
        r is Ok <==> url_refusal(raw_url@) is None,
        r matches Ok(b) ==> url_parse(trim(raw_url@)) matches Ok(u) && b@ == base_url_text(u),
        r matches Ok(b) ==> b@.len() == 0 || b@.last() != '/',
        r matches Err(e) ==> url_refusal(raw_url@) matches Some(f) && e.is(f.0, f.1),
{
    let url = validated_url(raw_url)?;
    let a = with_path(&url, "");
    let b = without_query(&a);
    let c = without_fragment(&b);
    let v = to_chars(c.as_str());
    let t = chars_trim_end_char(v.as_slice(), '/');
    proof {
        lemma_trim_end_char_shape(v@, '/');
        assert(""@ =~= Seq::<char>::empty()) by {
            reveal_strlit("");
        }
    }
    Ok(from_chars(t.as_slice()))
}

/// The URL of a fixed API endpoint: `base` with its path replaced by `path`,
/// its fragment removed and, when `clear_query` holds, its query removed.
pub fn endpoint_url(base_url: &ParsedUrl, path: &str, clear_query: bool) -> (r: ParsedUrl)
    ensures
        r@ == (if clear_query {
            url_without_query(url_without_fragment(url_with_path(base_url@, path@)))
        } else {
            url_without_fragment(url_with_path(base_url@, path@))
        }),
{
    let a = with_path(base_url, path);
    let b = without_fragment(&a);
    if clear_query {
        without_query(&b)
    } else {
        b
    }
}

/// A query parameter that the keys request sets itself.
pub open spec fn is_fixed_param(n: Seq<char>) -> bool {
    n == "page"@ || n == "page_size"@ || n == "status"@ || n == "timezone"@
}

/// The query pairs of `pairs` that the keys request does not set itself, in
/// order.
pub open spec fn kept_pairs(pairs: Seq<(Seq<char>, Seq<char>)>) -> Seq<(Seq<char>, Seq<char>)>
    decreases pairs.len(),
{
    if pairs.len() == 0 {
        Seq::empty()
    } else if is_fixed_param(pairs.last().0) {
        kept_pairs(pairs.drop_last())
    } else {
        kept_pairs(pairs.drop_last()).push(pairs.last())
    }
}

/// The pairs that select page `page` of the active keys.
pub open spec fn page_pairs(page: nat) -> Seq<(Seq<char>, Seq<char>)> {
    seq![
        ("page"@, digits(page, 0)),
        ("page_size"@, digits(PAGE_SIZE as nat, 0)),
        ("status"@, "active"@),
        ("timezone"@, "Asia/Shanghai"@),
    ]
}

fn usize_text(n: usize) -> (r: String)
    ensures
        r@ == digits(n as nat, 0),
{
    let mut v: Vec<char> = Vec::new();
    push_digits(&mut v, n as u64, 0);
    assert(v@ =~= digits(n as nat, 0));
    from_chars(v.as_slice())
}

/// The keys URL for page `page`: the query of `base_url` without the
/// parameters the request sets itself, followed by page, page size, status
/// and time zone.
pub fn with_page_query(base_url: &ParsedUrl, page: usize) -> (r: ParsedUrl)
    ensures
        r@ == url_with_pairs(
            url_without_query(base_url@),
            kept_pairs(url_query_pairs(base_url@)) + page_pairs(page as nat),
        ),
{
    let given = query_pairs_of(base_url);
    let mut kept: Vec<(String, String)> = Vec::new();
    let mut i: usize = 0;
    while i < given.len()
        invariant
            i <= given@.len(),
            pairs_view(given@) == url_query_pairs(base_url@),
            pairs_view(kept@) == kept_pairs(pairs_view(given@).take(i as int)),
        decreases given@.len() - i,
    {
        let name = given[i].0.as_str();
        let ghost prefix = pairs_view(given@).take(i as int + 1);
        assert(prefix.drop_last() =~= pairs_view(given@).take(i as int));
        assert(prefix.last() == (given@[i as int].0@, given@[i as int].1@));
        if !(str_eq(name, "page") || str_eq(name, "page_size") || str_eq(name, "status")
            || str_eq(name, "timezone")) {
            kept.push((given[i].0.clone(), given[i].1.clone()));
            assert(pairs_view(kept@) =~= kept_pairs(pairs_view(given@).take(i as int)).push(
                prefix.last(),
            ));
        }
        i = i + 1;
    }
    assert(pairs_view(given@).take(i as int) =~= pairs_view(given@));
    let ghost before = kept@;
    kept.push(("page".to_string(), usize_text(page)));
    kept.push(("page_size".to_string(), usize_text(PAGE_SIZE)));
    kept.push(("status".to_string(), "active".to_string()));
    kept.push(("timezone".to_string(), "Asia/Shanghai".to_string()));
    assert(pairs_view(kept@) =~= pairs_view(before) + page_pairs(page as nat));
    let cleared = without_query(base_url);
    with_pairs(&cleared, kept.as_slice())
}


/// A rate as the keys endpoint gives it: a JSON number (with the text that
/// `serde_json` prints for it), a JSON string, or another JSON value.
#[derive(Debug, Clone)]
pub enum RateValue {
    Number(String),
    Text(String),
    Other,
}

/// The `group` of a listed key.
#[derive(Debug, Clone)]
pub struct RemoteGroup {
    pub rate_multiplier: Option<RateValue>,
}

/// One listed key.
#[derive(Debug, Clone)]
pub struct RemoteItem {
    pub key: Option<String>,
    pub group: Option<RemoteGroup>,
}

/// The `data` of a keys page.
#[derive(Debug, Clone)]
pub struct PageData {
    pub items: Vec<RemoteItem>,
    pub total: usize,
    pub page: usize,
    pub page_size: usize,
    pub pages: usize,
}

/// A keys page as the endpoint answers it.
#[derive(Debug, Clone)]
pub struct RootResponse {
    pub code: Option<i64>,
    pub data: Option<PageData>,
}

/// A checked keys page.
#[derive(Debug, Clone)]
pub struct ParsedPage {
    pub items: Vec<RemoteMultiplier>,
    pub raw_item_count: usize,
    pub total: usize,
    pub pages: usize,
}

/// The view of a listed key: key, rate text, rate error.
pub open spec fn remote_view(r: RemoteMultiplier) -> (Seq<char>, Option<Seq<char>>, Option<Seq<char>>) {
    (r.key@, opt_string_view(r.rate_multiplier), opt_string_view(r.rate_error))
}

/// The rate text and rate error of an optional rate value: none for none; a
/// number's text or a string's trimmed text, refused when empty; any other
/// value refused as not a number.
pub open spec fn rate_spec(value: Option<RateValue>) -> (Option<Seq<char>>, Option<Seq<char>>) {
    match value {
        None => (None, None),
        Some(RateValue::Other) => (None, Some("rate_multiplier 不是数字"@)),
        Some(v) => {
            let text = match v {
                RateValue::Number(t) => t@,
                RateValue::Text(t) => trim(t@),
                RateValue::Other => Seq::empty(),
            };
            if text.len() == 0 {
                (None, Some("rate_multiplier 为空"@))
            } else {
                (Some(text), None)
            }
        },
    }
}

/// The rate of a listed key.
pub fn extract_rate(value: Option<RateValue>) -> (r: (Option<String>, Option<String>))
    ensures
        (opt_string_view(r.0), opt_string_view(r.1)) == rate_spec(value),
{
    let text = match value {
        None => return (None, None),
        Some(RateValue::Other) => return (None, Some("rate_multiplier 不是数字".to_string())),
        Some(RateValue::Number(t)) => t,
        Some(RateValue::Text(t)) => from_chars(trim_chars(t.as_str()).as_slice()),
    };
    if text.as_str().unicode_len() == 0 {
        (None, Some("rate_multiplier 为空".to_string()))
    } else {
        (Some(text), None)
    }
}

/// The rate value of an optional group.
pub open spec fn group_rate(g: Option<RemoteGroup>) -> Option<RateValue> {
    match g {
        Some(g) => g.rate_multiplier,
        None => None,
    }
}

/// The keys that a page lists, in order: items whose key is present and not
/// blank, with the key trimmed.
pub open spec fn listed(items: Seq<RemoteItem>) -> Seq<(Seq<char>, Option<Seq<char>>, Option<Seq<char>>)>
    decreases items.len(),
{
    if items.len() == 0 {
        Seq::empty()
    } else {
        let rest = listed(items.drop_last());
        let item = items.last();
        match item.key {
            Some(k) => if trim(k@).len() == 0 {
                rest
            } else {
                let (rate, err) = rate_spec(group_rate(item.group));
                rest.push((trim(k@), rate, err))
            },
            None => rest,
        }
    }
}

/// Whether a business `code` refuses the answer (any code but 0 and 200).
pub open spec fn business_refused(code: Option<i64>) -> bool {
    code matches Some(c) && c != 0 && c != 200
}

/// `prefix` followed by the decimal text of `code`.
fn with_code(prefix: &str, code: i64) -> (r: String)
    ensures
        r@ == prefix@ + int_text(code as int),
{
    let t = int_to_string(code);
    concat(prefix, t.as_str())
}

fn clone_rate(v: &Option<RateValue>) -> (r: Option<RateValue>)
    ensures
        r == *v,
{
    match v {
        None => None,
        Some(RateValue::Number(t)) => Some(RateValue::Number(t.clone())),
        Some(RateValue::Text(t)) => Some(RateValue::Text(t.clone())),
        Some(RateValue::Other) => Some(RateValue::Other),
    }
}

/// Checks a keys page and lists its keys.
pub fn parse_page(root: RootResponse, requested_page: usize) -> (r: Result<ParsedPage, MultiplierQueryError>)
    ensures
        business_refused(root.code) ==> (r matches Err(e) && (if root.code == Some(401i64) {
            e.code@ == "unauthorized"@ && e.message@ == "倍率查询业务返回 401"@ && e.http_status
                == Some(401i64)
        } else {
            e.is("business_error"@, "倍率查询业务失败，code="@ + int_text(root.code->0 as int))
        })),
        !business_refused(root.code) && root.data is None ==> (r matches Err(e) && e.is(
            "invalid_response"@,
            "倍率查询接口返回缺少 data"@,
        )),
        !business_refused(root.code) && root.data is Some && (root.data->0.page != requested_page
            || root.data->0.page_size != PAGE_SIZE) ==> (r matches Err(e) && e.is(
            "pagination_mismatch"@,
            "倍率查询分页信息不一致"@,
        )),
        !business_refused(root.code) && root.data is Some && root.data->0.page == requested_page
            && root.data->0.page_size == PAGE_SIZE ==> (r matches Ok(p) && p.raw_item_count
            == root.data->0.items@.len() && p.total == root.data->0.total && p.pages
            == root.data->0.pages && p.items@.map_values(|x: RemoteMultiplier| remote_view(x))
            == listed(root.data->0.items@)),
{
    if let Some(code) = root.code {
        if code != 0 && code != 200 {
            if code == 401 {
                return Err(
                    MultiplierQueryError::with_status(
                        "unauthorized",
                        "倍率查询业务返回 401".to_string(),
                        401,
                    ),
                );
            }
            return Err(MultiplierQueryError::new("business_error", with_code("倍率查询业务失败，code=", code)));
        }
    }
    let data = match root.data {
        Some(d) => d,
        None => {
            return Err(
                MultiplierQueryError::new("invalid_response", "倍率查询接口返回缺少 data".to_string()),
            );
        },
    };
    if data.page != requested_page || data.page_size != PAGE_SIZE {
        return Err(
            MultiplierQueryError::new("pagination_mismatch", "倍率查询分页信息不一致".to_string()),
        );
    }
    let raw_item_count = data.items.len();
    let mut items: Vec<RemoteMultiplier> = Vec::new();
    let mut i: usize = 0;
    while i < data.items.len()
        invariant
            i <= data.items@.len(),
            items@.map_values(|x: RemoteMultiplier| remote_view(x)) == listed(data.items@.take(i as int)),
        decreases data.items@.len() - i,
    {
        let item = &data.items[i];
        assert(data.items@.take(i + 1).drop_last() =~= data.items@.take(i as int));
        assert(data.items@.take(i + 1).last() == data.items@[i as int]);
        match &item.key {
            Some(k) => {
                let key = trim_chars(k.as_str());
                if key.len() > 0 {
                    let rate = match &item.group {
                        Some(g) => clone_rate(&g.rate_multiplier),
                        None => None,
                    };
                    let (rate_multiplier, rate_error) = extract_rate(rate);
                    let ghost before = items@;
                    items.push(RemoteMultiplier { key: from_chars(key.as_slice()), rate_multiplier, rate_error });
                    assert(items@.map_values(|x: RemoteMultiplier| remote_view(x)) =~= before.map_values(
                        |x: RemoteMultiplier| remote_view(x),
                    ).push(remote_view(items@.last())));
                }
            },
            None => {},
        }
        i = i + 1;
    }
    assert(data.items@.take(i as int) =~= data.items@);
    Ok(ParsedPage { items, raw_item_count, total: data.total, pages: data.pages })
}


/// The error for an HTTP status of the keys endpoint that is not a success.
pub fn status_error(status: u16) -> (r: MultiplierQueryError)
    ensures
        r.code@ == (if status == 401 { "unauthorized"@ } else { "http_error"@ }),
        r.message@ == "倍率查询接口返回 HTTP "@ + digits(status as nat, 0),
        r.http_status == Some(status as i64),
{
    let code = if status == 401 { "unauthorized" } else { "http_error" };
    let t = usize_text(status as usize);
    MultiplierQueryError::with_status(code, concat("倍率查询接口返回 HTTP ", t.as_str()), status)
}

/// The error for an HTTP status of the refresh endpoint that is not a success.
pub fn refresh_status_error(status: u16) -> (r: MultiplierQueryError)
    ensures
        r.code@ == (if status == 401 { "refresh_unauthorized"@ } else { "refresh_http_error"@ }),
        r.message@ == "刷新 token 接口返回 HTTP "@ + digits(status as nat, 0),
        r.http_status == Some(status as i64),
{
    let code = if status == 401 { "refresh_unauthorized" } else { "refresh_http_error" };
    let t = usize_text(status as usize);
    MultiplierQueryError::with_status(code, concat("刷新 token 接口返回 HTTP ", t.as_str()), status)
}

/// Progress through the pages of the keys list: the page to fetch next, the
/// items received so far and, once the first page answered, the total and
/// page count that it announced.
#[derive(Debug, Clone, Copy, PartialEq, Eq)]
pub struct FetchState {
    pub page: usize,
    pub received_items: usize,
    pub expected: Option<(usize, usize)>,
}

impl FetchState {
    /// Before the first page.
    pub fn start() -> (r: FetchState)
        ensures
            r == (FetchState { page: 1, received_items: 0, expected: None }),
    {
        FetchState { page: 1, received_items: 0, expected: None }
    }
}

/// Refuses to fetch a page past the limit.
pub fn check_page_limit(state: &FetchState) -> (r: Result<(), MultiplierQueryError>)
    ensures
        r is Err <==> state.page > MAX_PAGES,
        r matches Err(e) ==> e.is("too_many_pages"@, "倍率查询分页超过安全上限"@),
{
    if state.page > MAX_PAGES {
        return Err(MultiplierQueryError::new("too_many_pages", "倍率查询分页超过安全上限".to_string()));
    }
    Ok(())
}

/// The page count a page announces, at least 1.
pub open spec fn effective_pages(pages: usize) -> usize {
    if pages < 1 {
        1
    } else {
        pages
    }
}

/// What follows a checked page: an error, the end of the list (`None`), or
/// the state for the next page.
pub open spec fn advance_spec(state: FetchState, page: ParsedPage) -> Result<Option<FetchState>, (Seq<char>, Seq<char>)> {
    let eff = effective_pages(page.pages);
    if state.expected is None && (page.total > MAX_ITEMS || eff > MAX_PAGES) {
        Err(("response_too_large"@, "倍率查询数据量超过安全上限"@))
    } else if state.expected matches Some(x) && (x.0 != page.total || x.1 != eff) {
        Err(("pagination_changed"@, "倍率查询期间 total/pages 发生变化"@))
    } else if state.received_items + page.raw_item_count > usize::MAX {
        Err(("item_count_overflow"@, "倍率查询条数溢出"@))
    } else if state.received_items + page.raw_item_count > MAX_ITEMS {
        Err(("response_too_large"@, "倍率查询条数超过安全上限"@))
    } else {
        let expected = match state.expected {
            Some(x) => x,
            None => (page.total, eff),
        };
        let received = (state.received_items + page.raw_item_count) as usize;
        if state.page >= expected.1 {
            if received != expected.0 {
                Err(("total_mismatch"@, "倍率查询实际条数与 total 不一致"@))
            } else {
                Ok(None)
            }
        } else {
            Ok(Some(FetchState { page: (state.page + 1) as usize, received_items: received, expected: Some(expected) }))
        }
    }
}

/// Accounts for a checked page of the keys list.
pub fn advance(state: &FetchState, page: &ParsedPage) -> (r: Result<Option<FetchState>, MultiplierQueryError>)
    ensures
        r is Ok <==> advance_spec(*state, *page) is Ok,
        r matches Ok(n) ==> (advance_spec(*state, *page) matches Ok(m) && m == n),
        r matches Err(e) ==> advance_spec(*state, *page) matches Err(f) && e.is(f.0, f.1),
{
    let eff = if page.pages < 1 { 1 } else { page.pages };
    let expected = match state.expected {
        None => {
            if page.total > MAX_ITEMS || eff > MAX_PAGES {
                return Err(MultiplierQueryError::new("response_too_large", "倍率查询数据量超过安全上限".to_string()));
            }
            (page.total, eff)
        },
        Some(x) => {
            if x.0 != page.total || x.1 != eff {
                return Err(MultiplierQueryError::new("pagination_changed", "倍率查询期间 total/pages 发生变化".to_string()));
            }
            x
        },
    };
    let received = match state.received_items.checked_add(page.raw_item_count) {
        Some(n) => n,
        None => return Err(MultiplierQueryError::new("item_count_overflow", "倍率查询条数溢出".to_string())),
    };
    if received > MAX_ITEMS {
        return Err(MultiplierQueryError::new("response_too_large", "倍率查询条数超过安全上限".to_string()));
    }
    if state.page >= expected.1 {
        if received != expected.0 {
            return Err(MultiplierQueryError::new("total_mismatch", "倍率查询实际条数与 total 不一致".to_string()));
        }
        return Ok(None);
    }
    Ok(Some(FetchState { page: state.page + 1, received_items: received, expected: Some(expected) }))
}

/// A fetch ends only when the items received add up to the total that the
/// first page announced, and every state it passes through keeps that
/// announcement.
pub proof fn lemma_finished_fetch_received_total(state: FetchState, page: ParsedPage)
    requires
        advance_spec(state, page) matches Ok(n) && n is None,
    ensures
        state.received_items + page.raw_item_count == (match state.expected {
            Some(x) => x.0,
            None => page.total,
        }),
{
}

/// A continuing fetch moves to the next page, keeps the announced total and
/// page count, and never passes the announced page count.
pub proof fn lemma_continuing_fetch_advances(state: FetchState, page: ParsedPage, next: FetchState)
    requires
        advance_spec(state, page) matches Ok(n) && n == Some(next),
    ensures
        next.page == state.page + 1,
        next.received_items == state.received_items + page.raw_item_count,
        next.expected matches Some(x) && next.page <= x.1,
        state.expected is None ==> (next.expected matches Some(x) && x.1 <= MAX_PAGES && x.0
            <= MAX_ITEMS),
        state.expected is Some ==> next.expected == state.expected,
        next.received_items <= MAX_ITEMS,
{
}

/// What fetching the keys list gives when the server answers with `pages`,
/// in order, from `state` on, after the items `got` so far: `None` when the
/// pages run out before the list ends; else the `(code, message)` of the
/// first check that fails (the page limit before each request, then the
/// page's own checks), or every item received, in order.
pub open spec fn fetch_spec(state: FetchState, got: Seq<RemoteMultiplier>, pages: Seq<ParsedPage>) -> Option<
    Result<Seq<RemoteMultiplier>, (Seq<char>, Seq<char>)>,
>
    decreases pages.len(),
{
    if state.page > MAX_PAGES {
        Some(Err(("too_many_pages"@, "倍率查询分页超过安全上限"@)))
    } else if pages.len() == 0 {
        None
    } else {
        match advance_spec(state, pages[0]) {
            Err(e) => Some(Err(e)),
            Ok(None) => Some(Ok(got + pages[0].items@)),
            Ok(Some(n)) => fetch_spec(n, got + pages[0].items@, pages.drop_first()),
        }
    }
}

/// The items of `pages`, one page after the other.
pub open spec fn pages_items(pages: Seq<ParsedPage>) -> Seq<RemoteMultiplier>
    decreases pages.len(),
{
    if pages.len() == 0 {
        Seq::empty()
    } else {
        pages[0].items@ + pages_items(pages.drop_first())
    }
}

/// Takes a page of the keys list that the server answered for `state`:
/// checks it as `advance` does and, when it passes, appends its items to
/// `received`. Stepping so through the pages is `fetch_spec`.
pub fn take_page(state: &FetchState, received: &mut Vec<RemoteMultiplier>, page: ParsedPage) -> (r: Result<Option<FetchState>, MultiplierQueryError>)
    requires
        state.page <= MAX_PAGES,
    ensures
        r is Ok <==> advance_spec(*state, page) is Ok,
        r matches Ok(n) ==> (advance_spec(*state, page) matches Ok(m) && m == n),
        r matches Err(e) ==> advance_spec(*state, page) matches Err(f) && e.is(f.0, f.1),
        r is Ok ==> final(received)@ == old(received)@ + page.items@,
        r is Err ==> final(received)@ == old(received)@,
        forall|rest: Seq<ParsedPage>| #[trigger] fetch_spec(*state, old(received)@, seq![page] + rest) == match r {
            Err(e) => Some(Err((e.code@, e.message@))),
            Ok(None) => Some(Ok(final(received)@)),
            Ok(Some(n)) => fetch_spec(n, final(received)@, rest),
        },
{
    let next = advance(state, &page);
    if next.is_ok() {
        let mut items = page.items;
        received.append(&mut items);
    }
    proof {
        assert forall|rest: Seq<ParsedPage>| #[trigger] fetch_spec(*state, old(received)@, seq![page] + rest) == match next {
            Err(e) => Some(Err((e.code@, e.message@))),
            Ok(None) => Some(Ok(received@)),
            Ok(Some(n)) => fetch_spec(n, received@, rest),
        } by {
            let ps = seq![page] + rest;
            assert(ps[0] == page);
            assert(ps.drop_first() =~= rest);
        }
    }
    next
}

/// A fetch that ends gives the items received before it, then the items of
/// every page it read, one page after the other; the pages after the last
/// one read are never looked at.
pub proof fn lemma_fetch_gives_concatenation(state: FetchState, got: Seq<RemoteMultiplier>, pages: Seq<ParsedPage>)
    requires
        fetch_spec(state, got, pages) matches Some(Ok(_)),
    ensures
        exists|k: int|
            1 <= k <= pages.len() && fetch_spec(state, got, pages.take(k)) == fetch_spec(state, got, pages)
                && fetch_spec(state, got, pages) == Some(Ok::<Seq<RemoteMultiplier>, (Seq<char>, Seq<char>)>(
                got + pages_items(pages.take(k)),
            )),
    decreases pages.len(),
{
    let p0 = pages[0];
    assert(pages.take(1) =~= seq![p0]);
    assert(seq![p0].drop_first() =~= Seq::<ParsedPage>::empty());
    assert(pages_items(seq![p0]) =~= p0.items@) by {
        reveal_with_fuel(pages_items, 2);
    }
    match advance_spec(state, p0) {
        Ok(None) => {
            assert(fetch_spec(state, got, pages.take(1)) == fetch_spec(state, got, pages));
        },
        Ok(Some(n)) => {
            let rest = pages.drop_first();
            let g2 = got + p0.items@;
            lemma_fetch_gives_concatenation(n, g2, rest);
            let k = choose|k: int|
                1 <= k <= rest.len() && fetch_spec(n, g2, rest.take(k)) == fetch_spec(n, g2, rest)
                    && fetch_spec(n, g2, rest) == Some(Ok::<Seq<RemoteMultiplier>, (Seq<char>, Seq<char>)>(
                    g2 + pages_items(rest.take(k)),
                ));
            let t = pages.take(k + 1);
            assert(t[0] == p0);
            assert(t.drop_first() =~= rest.take(k));
            assert(pages_items(t) == p0.items@ + pages_items(rest.take(k)));
            assert(g2 + pages_items(rest.take(k)) =~= got + pages_items(t));
            assert(fetch_spec(state, got, t) == fetch_spec(n, g2, rest.take(k)));
        },
        Err(_) => {},
    }
}

/// A fetch fails exactly when some check fails before the list ends: when
/// every page read passes its checks and the list has not ended, the pages
/// merely ran out.
pub proof fn lemma_fetch_fails_only_on_a_failed_check(state: FetchState, got: Seq<RemoteMultiplier>, pages: Seq<ParsedPage>)
    requires
        fetch_spec(state, got, pages) matches Some(Err(_)),
    ensures
        state.page > MAX_PAGES || (pages.len() > 0 && (advance_spec(state, pages[0]) is Err || (
        advance_spec(state, pages[0]) matches Ok(Some(n)) && fetch_spec(
            n,
            got + pages[0].items@,
            pages.drop_first(),
        ) matches Some(Err(_))))),
{
}

/// The `data` of a refresh answer.
#[derive(Debug, Clone)]
pub struct RefreshData {
    pub access_token: Option<String>,
    pub refresh_token: Option<String>,
}

/// A refresh answer.
#[derive(Debug, Clone)]
pub struct RefreshResponse {
    pub code: Option<i64>,
    pub data: Option<RefreshData>,
}

/// The refresh token sent to the refresh endpoint: the trimmed token, which
/// must not be empty.
pub fn refresh_token_value(raw_refresh_token: &str) -> (r: Result<String, MultiplierQueryError>)
    ensures
        r is Err <==> trim(raw_refresh_token@).len() == 0,
        r matches Ok(t) ==> t@ == trim(raw_refresh_token@),
        r matches Err(e) ==> e.is("empty_refresh_token"@, "refresh token 不能为空"@),
{
    let t = trim_chars(raw_refresh_token);
    if t.len() == 0 {
        return Err(MultiplierQueryError::new("empty_refresh_token", "refresh token 不能为空".to_string()));
    }
    Ok(from_chars(t.as_slice()))
}

/// The tokens that a refresh answer carries: refused when its business code
/// is not 0 or 200, when `data` is missing, or when either token is missing
/// or blank; the access token loses a `Bearer ` prefix, both are trimmed.
pub fn refresh_result(root: RefreshResponse) -> (r: Result<RefreshedTokens, MultiplierQueryError>)
    ensures
        business_refused(root.code) ==> (r matches Err(e) && e.is(
            "refresh_business_error"@,
            "刷新 token 业务失败，code="@ + int_text(root.code->0 as int),
        )),
        !business_refused(root.code) && root.data is None ==> (r matches Err(e) && e.is(
            "refresh_invalid_response"@,
            "刷新 token 响应缺少 data"@,
        )),
        !business_refused(root.code) && root.data is Some && access_token_spec(
            opt_string_view(root.data->0.access_token),
        ) is None ==> (r matches Err(e) && e.is(
            "refresh_invalid_response"@,
            "刷新 token 响应缺少 access_token"@,
        )),
        !business_refused(root.code) && root.data is Some && access_token_spec(
            opt_string_view(root.data->0.access_token),
        ) is Some && (root.data->0.refresh_token is None || trim(root.data->0.refresh_token->0@).len() == 0) ==> (r matches Err(e)
            && e.is("refresh_invalid_response"@, "刷新 token 响应缺少 refresh_token"@)),
        r is Ok <==> (!business_refused(root.code) && root.data is Some && access_token_spec(
            opt_string_view(root.data->0.access_token),
        ) is Some && root.data->0.refresh_token is Some && trim(root.data->0.refresh_token->0@).len()
            > 0),
        r matches Ok(t) ==> Some(t.access_token@) == access_token_spec(opt_string_view(root.data->0.access_token))
            && t.refresh_token@ == trim(root.data->0.refresh_token->0@),
{
    if let Some(code) = root.code {
        if code != 0 && code != 200 {
            return Err(MultiplierQueryError::new("refresh_business_error", with_code("刷新 token 业务失败，code=", code)));
        }
    }
    let data = match root.data {
        Some(d) => d,
        None => return Err(MultiplierQueryError::new("refresh_invalid_response", "刷新 token 响应缺少 data".to_string())),
    };
    let access_token = match normalize_access_token(opt_as_str(&data.access_token)) {
        Some(t) => t,
        None => return Err(MultiplierQueryError::new("refresh_invalid_response", "刷新 token 响应缺少 access_token".to_string())),
    };
    let refresh_token = match &data.refresh_token {
        Some(t) => {
            let v = trim_chars(t.as_str());
            if v.len() == 0 {
                return Err(MultiplierQueryError::new("refresh_invalid_response", "刷新 token 响应缺少 refresh_token".to_string()));
            }
            from_chars(v.as_slice())
        },
        None => return Err(MultiplierQueryError::new("refresh_invalid_response", "刷新 token 响应缺少 refresh_token".to_string())),
    };
    Ok(RefreshedTokens { access_token, refresh_token })
}

/// The failure of a response larger than allowed.
pub open spec fn is_too_large(e: MultiplierQueryError) -> bool {
    e.is("response_too_large"@, "倍率查询响应超过大小限制"@)
}

fn too_large() -> (r: MultiplierQueryError)
    ensures
        is_too_large(r),
{
    MultiplierQueryError::new("response_too_large", "倍率查询响应超过大小限制".to_string())
}

/// A response whose declared length exceeds `limit` is refused before it is
/// read.
pub fn check_declared_length(content_length: Option<u64>, limit: usize) -> (r: Result<(), MultiplierQueryError>)
    ensures
        r is Err <==> (content_length matches Some(n) && n > limit),
        r matches Err(e) ==> is_too_large(e),
{
    match content_length {
        Some(n) => if n > limit as u64 {
            Err(too_large())
        } else {
            Ok(())
        },
        None => Ok(()),
    }
}

/// Appends a received chunk, refusing the response when it would grow past
/// `limit` bytes (the bytes are then left as they were).
pub fn append_limited(bytes: &mut Vec<u8>, chunk: &[u8], limit: usize) -> (r: Result<(), MultiplierQueryError>)
    ensures
        r is Err <==> old(bytes)@.len() + chunk@.len() > limit,
        r matches Err(e) ==> is_too_large(e) && final(bytes)@ == old(bytes)@,
        r is Ok ==> final(bytes)@ == old(bytes)@ + chunk@,
{
    if chunk.len() > limit || bytes.len() > limit - chunk.len() {
        return Err(too_large());
    }
    let ghost start = bytes@;
    let mut i: usize = 0;
    while i < chunk.len()
        invariant
            i <= chunk@.len(),
            bytes@ == start + chunk@.take(i as int),
            start.len() + chunk@.len() <= limit,
        decreases chunk@.len() - i,
    {
        bytes.push(chunk[i]);
        assert(bytes@ =~= start + chunk@.take(i + 1));
        i = i + 1;
    }
    assert(chunk@.take(chunk@.len() as int) =~= chunk@);
    Ok(())
}

/// The failure of a response that could not be read, with the reader's
/// message.
pub fn read_failed(detail: &str) -> (r: MultiplierQueryError)
    ensures
        r.is("response_read_failed"@, "读取倍率查询响应失败: "@ + detail@),
{
    MultiplierQueryError::new("response_read_failed", concat("读取倍率查询响应失败: ", detail))
}

} // verus!
