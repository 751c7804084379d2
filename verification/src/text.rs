//! Character-level helpers over `str`/`String` with exact specifications.

use vstd::prelude::*;
use vstd::string::StringExecFns;

verus! {

/// The views of a list of strings.
pub open spec fn strings_view(v: Seq<String>) -> Seq<Seq<char>> {
    v.map_values(|s: String| s@)
}

broadcast use vstd::string::group_string_axioms;

/// Unicode `White_Space`, the property that `char::is_whitespace` and
/// `str::trim` use.
pub open spec fn is_ws(c: char) -> bool {
    let u = c as u32;
    ||| 0x09 <= u <= 0x0d
    ||| u == 0x20
    ||| u == 0x85
    ||| u == 0xa0
    ||| u == 0x1680
    ||| 0x2000 <= u <= 0x200a
    ||| u == 0x2028
    ||| u == 0x2029
    ||| u == 0x202f
    ||| u == 0x205f
    ||| u == 0x3000
}

/// `s` without its leading whitespace.
pub open spec fn trim_start(s: Seq<char>) -> Seq<char>
    decreases s.len(),
{
    if s.len() > 0 && is_ws(s[0]) {
        trim_start(s.drop_first())
    } else {
        s
    }
}

/// `s` without its trailing whitespace.
pub open spec fn trim_end(s: Seq<char>) -> Seq<char>
    decreases s.len(),
{
    if s.len() > 0 && is_ws(s.last()) {
        trim_end(s.drop_last())
    } else {
        s
    }
}

/// `str::trim`: leading and trailing whitespace removed.
pub open spec fn trim(s: Seq<char>) -> Seq<char> {
    trim_end(trim_start(s))
}

/// `trim_start` drops a prefix, and what remains does not begin with
/// whitespace.
pub proof fn lemma_trim_start_shape(s: Seq<char>)
    ensures
        trim_start(s).len() <= s.len(),
        trim_start(s) == s.skip(s.len() - trim_start(s).len()),
        trim_start(s).len() > 0 ==> !is_ws(trim_start(s)[0]),
    decreases s.len(),
{
    if s.len() > 0 && is_ws(s[0]) {
        lemma_trim_start_shape(s.drop_first());
        assert(s.drop_first().skip(s.drop_first().len() - trim_start(s).len()) =~= s.skip(
            s.len() - trim_start(s).len(),
        ));
    } else {
        assert(s.skip(0) =~= s);
    }
}

/// `trim_end` keeps a prefix, and what remains does not end with whitespace.
pub proof fn lemma_trim_end_shape(s: Seq<char>)
    ensures
        trim_end(s).len() <= s.len(),
        trim_end(s) == s.take(trim_end(s).len() as int),
        trim_end(s).len() > 0 ==> !is_ws(trim_end(s).last()),
    decreases s.len(),
{
    if s.len() > 0 && is_ws(s.last()) {
        lemma_trim_end_shape(s.drop_last());
        assert(s.drop_last().take(trim_end(s).len() as int) =~= s.take(trim_end(s).len() as int));
    } else {
        assert(s.take(s.len() as int) =~= s);
    }
}

/// A string that neither begins nor ends with whitespace is its own trim.
pub proof fn lemma_trim_of_trimmed(s: Seq<char>)
    requires
        s.len() > 0 ==> !is_ws(s[0]) && !is_ws(s.last()),
    ensures
        trim(s) == s,
{
}

/// Trimming twice is trimming once.
pub proof fn lemma_trim_idempotent(s: Seq<char>)
    ensures
        trim(trim(s)) == trim(s),
{
    let u = trim_start(s);
    lemma_trim_start_shape(s);
    lemma_trim_end_shape(u);
    let v = trim_end(u);
    if v.len() > 0 {
        assert(v[0] == u[0]);
    }
    lemma_trim_of_trimmed(v);
}


pub fn char_is_ws(c: char) -> (r: bool)
    ensures
        r == is_ws(c),
{
    let u = c as u32;
    (0x09 <= u && u <= 0x0d) || u == 0x20 || u == 0x85 || u == 0xa0 || u == 0x1680 || (0x2000
        <= u && u <= 0x200a) || u == 0x2028 || u == 0x2029 || u == 0x202f || u == 0x205f || u
        == 0x3000
}

/// An optional string slice's view.
pub open spec fn opt_str_view(o: Option<&str>) -> Option<Seq<char>> {
    match o {
        Some(s) => Some(s@),
        None => None,
    }
}

/// An optional string's view.
pub open spec fn opt_string_view(o: Option<String>) -> Option<Seq<char>> {
    match o {
        Some(s) => Some(s@),
        None => None,
    }
}

/// The string slice of an optional string (`Option::as_deref`).
pub fn opt_as_str(o: &Option<String>) -> (r: Option<&str>)
    ensures
        opt_str_view(r) == opt_string_view(*o),
{
    match o {
        Some(s) => Some(s.as_str()),
        None => None,
    }
}

/// A copy of an optional string, equal to it.
pub fn copy_opt_string(o: &Option<String>) -> (r: Option<String>)
    ensures
        r == *o,
{
    match o {
        Some(s) => Some(s.clone()),
        None => None,
    }
}

/// The characters of `s`.
pub fn to_chars(s: &str) -> (r: Vec<char>)
    ensures
        r@ == s@,
{
    let mut r: Vec<char> = Vec::new();
    for c in it: s.chars()
        invariant
            r@ == it.seq().take(it.index() as int),
    {
        r.push(c);
    }
    r
}

/// Collects characters into a `String` (`FromIterator<char>` of std).
#[verifier::external_body]
pub fn from_chars(v: &[char]) -> (r: String)
    ensures
        r@ == v@,
{
    v.iter().collect()
}


proof fn lemma_trim_start_skip(s: Seq<char>, k: int)
    requires
        0 <= k <= s.len(),
        forall|i: int| 0 <= i < k ==> is_ws(#[trigger] s[i]),
    ensures
        trim_start(s) == trim_start(s.skip(k)),
    decreases k,
{
    if k > 0 {
        assert(s.skip(1).skip(k - 1) =~= s.skip(k));
        assert(s.drop_first() =~= s.skip(1));
        lemma_trim_start_skip(s.drop_first(), k - 1);
    } else {
        assert(s.skip(0) =~= s);
    }
}

proof fn lemma_trim_end_take(s: Seq<char>, k: int)
    requires
        0 <= k <= s.len(),
        forall|i: int| k <= i < s.len() ==> is_ws(#[trigger] s[i]),
    ensures
        trim_end(s) == trim_end(s.take(k)),
    decreases s.len() - k,
{
    if k < s.len() {
        assert(s.drop_last().take(k) =~= s.take(k));
        lemma_trim_end_take(s.drop_last(), k);
    } else {
        assert(s.take(k) =~= s);
    }
}

/// Bounds of the trimmed part of `v`.
pub fn trim_bounds(v: &[char]) -> (r: (usize, usize))
    ensures
        r.0 <= r.1 <= v@.len(),
        v@.subrange(r.0 as int, r.1 as int) == trim(v@),
{
    let n = v.len();
    let mut a: usize = 0;
    while a < n && char_is_ws(v[a])
        invariant
            a <= n == v@.len(),
            forall|i: int| 0 <= i < a ==> is_ws(#[trigger] v@[i]),
        decreases n - a,
    {
        a = a + 1;
    }
    proof {
        lemma_trim_start_skip(v@, a as int);
        assert(trim_start(v@.skip(a as int)) == v@.skip(a as int));
    }
    let mut b: usize = n;
    while b > a && char_is_ws(v[b - 1])
        invariant
            a <= b <= n == v@.len(),
            forall|i: int| b <= i < n ==> is_ws(#[trigger] v@[i]),
        decreases b,
    {
        b = b - 1;
    }
    proof {
        let t = v@.skip(a as int);
        let k = b - a;
        assert forall|i: int| k <= i < t.len() implies is_ws(#[trigger] t[i]) by {
            assert(t[i] == v@[i + a]);
        }
        lemma_trim_end_take(t, k as int);
        assert(t.take(k as int) =~= v@.subrange(a as int, b as int));
        if k > 0 {
            assert(!is_ws(t.take(k as int).last()));
        }
    }
    (a, b)
}

/// `v[a..b]` as a new vector.
pub fn sub_chars(v: &[char], a: usize, b: usize) -> (r: Vec<char>)
    requires
        a <= b <= v@.len(),
    ensures
        r@ == v@.subrange(a as int, b as int),
{
    let mut r: Vec<char> = Vec::new();
    let mut i = a;
    while i < b
        invariant
            a <= i <= b <= v@.len(),
            r@ == v@.subrange(a as int, i as int),
        decreases b - i,
    {
        r.push(v[i]);
        i = i + 1;
    }
    r
}

/// `str::trim` of `s`, as characters.
pub fn trim_chars(s: &str) -> (r: Vec<char>)
    ensures
        r@ == trim(s@),
{
    let v = to_chars(s);
    let (a, b) = trim_bounds(v.as_slice());
    sub_chars(v.as_slice(), a, b)
}

/// `str::trim` of `s`.
pub fn trim_string(s: &str) -> (r: String)
    ensures
        r@ == trim(s@),
{
    let v = trim_chars(s);
    from_chars(v.as_slice())
}


/// The decimal digit character for `d` (`0 <= d < 10`).
pub open spec fn digit(d: nat) -> char {
    (48 + d) as char
}

/// Decimal text of `n`, zero-padded on the left to at least `w` digits
/// (at least one digit).
pub open spec fn digits(n: nat, w: nat) -> Seq<char>
    decreases n + w,
{
    if n < 10 && w <= 1 {
        seq![digit(n)]
    } else {
        digits(n / 10, if w > 0 { (w - 1) as nat } else { 0 }).push(digit(n % 10))
    }
}

/// Decimal text of a signed integer, as `Display` writes it.
pub open spec fn int_text(v: int) -> Seq<char> {
    if v < 0 {
        seq!['-'].add(digits((-v) as nat, 0))
    } else {
        digits(v as nat, 0)
    }
}

/// Appends `digits(n, w)` to `out`.
pub fn push_digits(out: &mut Vec<char>, n: u64, w: u32)
    ensures
        final(out)@ == old(out)@ + digits(n as nat, w as nat),
    decreases n + w,
{
    if n < 10 && w <= 1 {
        out.push(((48 + n) as u8) as char);
        assert(digits(n as nat, w as nat) == seq![digit(n as nat)]);
    } else {
        let w2: u32 = if w > 0 { w - 1 } else { 0 };
        push_digits(out, n / 10, w2);
        let d = n % 10;
        out.push(((48 + d) as u8) as char);
        assert(old(out)@ + digits(n as nat, w as nat) =~= old(out)@ + digits((n / 10) as nat, w2 as nat) + seq![digit(d as nat)]);
    }
}

/// Decimal text of a signed integer.
pub fn int_to_string(v: i64) -> (r: String)
    ensures
        r@ == int_text(v as int),
{
    let mut out: Vec<char> = Vec::new();
    if v < 0 {
        out.push('-');
        let m: u64 = if v == i64::MIN { 9223372036854775808u64 } else { (-v) as u64 };
        push_digits(&mut out, m, 0);
    } else {
        push_digits(&mut out, v as u64, 0);
    }
    from_chars(out.as_slice())
}


/// `char::to_ascii_lowercase`.
pub open spec fn ascii_lower(c: char) -> char {
    if 'A' <= c <= 'Z' {
        ((c as u32) + 32) as char
    } else {
        c
    }
}

/// `s` with each ASCII letter lowercased (`str::to_ascii_lowercase`).
pub open spec fn ascii_lower_seq(s: Seq<char>) -> Seq<char> {
    Seq::new(s.len(), |i: int| ascii_lower(s[i]))
}

pub fn char_ascii_lower(c: char) -> (r: char)
    ensures
        r == ascii_lower(c),
{
    if 'A' <= c && c <= 'Z' {
        ((c as u8) + 32) as char
    } else {
        c
    }
}

/// `s` begins with `p`, ASCII letters compared without case (what
/// `s.get(..p.len()).is_some_and(|x| x.eq_ignore_ascii_case(p))` decides for
/// an ASCII `p`).
pub open spec fn starts_with_ci(s: Seq<char>, p: Seq<char>) -> bool {
    s.len() >= p.len() && forall|i: int| 0 <= i < p.len() ==> ascii_lower(#[trigger] s[i])
        == ascii_lower(p[i])
}

/// `s` and `t` are equal but for the case of ASCII letters
/// (`str::eq_ignore_ascii_case`).
pub open spec fn eq_ci(s: Seq<char>, t: Seq<char>) -> bool {
    s.len() == t.len() && starts_with_ci(s, t)
}

pub fn chars_starts_with_ci(s: &[char], p: &[char]) -> (r: bool)
    ensures
        r == starts_with_ci(s@, p@),
{
    if s.len() < p.len() {
        return false;
    }
    let mut i: usize = 0;
    while i < p.len()
        invariant
            i <= p@.len() <= s@.len(),
            forall|j: int| 0 <= j < i ==> ascii_lower(#[trigger] s@[j]) == ascii_lower(p@[j]),
        decreases p@.len() - i,
    {
        if char_ascii_lower(s[i]) != char_ascii_lower(p[i]) {
            return false;
        }
        i = i + 1;
    }
    true
}

pub fn chars_eq_ci(s: &[char], t: &[char]) -> (r: bool)
    ensures
        r == eq_ci(s@, t@),
{
    s.len() == t.len() && chars_starts_with_ci(s, t)
}

pub fn chars_eq(s: &[char], t: &[char]) -> (r: bool)
    ensures
        r == (s@ == t@),
{
    if s.len() != t.len() {
        return false;
    }
    let mut i: usize = 0;
    while i < s.len()
        invariant
            i <= s@.len() == t@.len(),
            forall|j: int| 0 <= j < i ==> s@[j] == t@[j],
        decreases s@.len() - i,
    {
        if s[i] != t[i] {
            return false;
        }
        i = i + 1;
    }
    assert(s@ =~= t@);
    true
}

/// `str::to_ascii_lowercase` of `s`, as characters.
pub fn chars_ascii_lower(s: &[char]) -> (r: Vec<char>)
    ensures
        r@ == ascii_lower_seq(s@),
{
    let mut r: Vec<char> = Vec::new();
    let mut i: usize = 0;
    while i < s.len()
        invariant
            i <= s@.len(),
            r@ =~= ascii_lower_seq(s@.take(i as int)),
        decreases s@.len() - i,
    {
        r.push(char_ascii_lower(s[i]));
        i = i + 1;
    }
    assert(s@.take(s@.len() as int) =~= s@);
    r
}

/// Whether `c` is an ASCII decimal digit.
pub open spec fn is_digit(c: char) -> bool {
    '0' <= c <= '9'
}

/// The value of a string of ASCII digits.
pub open spec fn digits_value(s: Seq<char>) -> nat
    decreases s.len(),
{
    if s.len() == 0 {
        0
    } else {
        digits_value(s.drop_last()) * 10 + ((s.last() as u32) - 48) as nat
    }
}

/// Whether every character of `d` is an ASCII digit.
pub open spec fn all_digits(d: Seq<char>) -> bool {
    forall|i: int| 0 <= i < d.len() ==> is_digit(#[trigger] d[i])
}

/// The digits of an unsigned number: `s` without one leading `+`.
pub open spec fn unsigned_body(s: Seq<char>) -> Seq<char> {
    if s.len() > 0 && s[0] == '+' {
        s.drop_first()
    } else {
        s
    }
}

/// `u16::from_str`: an optional `+`, then one or more ASCII digits whose value
/// fits in `u16`.
pub open spec fn parse_u16_spec(s: Seq<char>) -> Option<u16> {
    let d = unsigned_body(s);
    if d.len() > 0 && all_digits(d) && digits_value(d) <= 65535 {
        Some(digits_value(d) as u16)
    } else {
        None
    }
}

proof fn lemma_digits_value_grows(s: Seq<char>, k: int)
    requires
        0 <= k <= s.len(),
        forall|i: int| 0 <= i < s.len() ==> is_digit(#[trigger] s[i]),
    ensures
        digits_value(s.take(k)) <= digits_value(s),
    decreases s.len() - k,
{
    if k < s.len() {
        assert(s.drop_last().take(k) =~= s.take(k));
        lemma_digits_value_grows(s.drop_last(), k);
    } else {
        assert(s.take(k) =~= s);
    }
}

/// Parses a decimal `u16` as `u16::from_str` does.
pub fn parse_u16(s: &str) -> (r: Option<u16>)
    ensures
        r == parse_u16_spec(s@),
{
    let v = to_chars(s);
    let start: usize = if v.len() > 0 && v[0] == '+' { 1 } else { 0 };
    let ghost d = unsigned_body(v@);
    assert(d =~= v@.skip(start as int));
    if start >= v.len() {
        return None;
    }
    let mut acc: u32 = 0;
    let mut i = start;
    while i < v.len()
        invariant
            start <= i <= v@.len(),
            d == v@.skip(start as int),
            v@ == s@,
            d == unsigned_body(s@),
            forall|j: int| 0 <= j < i - start ==> is_digit(#[trigger] d[j]),
            acc as nat == digits_value(d.take(i - start)),
            acc <= 65535,
        decreases v@.len() - i,
    {
        let c = v[i];
        assert(d[i - start] == c);
        if !('0' <= c && c <= '9') {
            assert(!is_digit(d[i - start]));
            assert(parse_u16_spec(s@) is None);
            return None;
        }
        let next = acc * 10 + ((c as u32) - 48);
        assert(d.take(i + 1 - start).drop_last() =~= d.take(i - start));
        assert(d.take(i + 1 - start).last() == c);
        assert(digits_value(d.take(i + 1 - start)) == next);
        if next > 65535 {
            proof {
                let k = i + 1 - start;
                if all_digits(d) {
                    lemma_digits_value_grows(d, k);
                }
                assert(parse_u16_spec(s@) is None);
            }
            return None;
        }
        acc = next;
        i = i + 1;
    }
    assert(d.take(i - start) =~= d);
    Some(acc as u16)
}


/// `a` followed by `b`.
pub fn concat(a: &str, b: &str) -> (r: String)
    ensures
        r@ == a@ + b@,
{
    let mut s = a.to_string();
    s.append(b);
    s
}

/// `s` with trailing `c` characters removed (`str::trim_end_matches(c)`).
pub open spec fn trim_end_char(s: Seq<char>, c: char) -> Seq<char>
    decreases s.len(),
{
    if s.len() > 0 && s.last() == c {
        trim_end_char(s.drop_last(), c)
    } else {
        s
    }
}

/// Removing trailing `c`s keeps a prefix that does not end with `c`.
pub proof fn lemma_trim_end_char_shape(s: Seq<char>, c: char)
    ensures
        trim_end_char(s, c).len() <= s.len(),
        trim_end_char(s, c) == s.take(trim_end_char(s, c).len() as int),
        trim_end_char(s, c).len() == 0 || trim_end_char(s, c).last() != c,
    decreases s.len(),
{
    if s.len() > 0 && s.last() == c {
        lemma_trim_end_char_shape(s.drop_last(), c);
        let t = trim_end_char(s, c);
        assert(s.drop_last().take(t.len() as int) =~= s.take(t.len() as int));
    } else {
        assert(s.take(s.len() as int) =~= s);
    }
}

pub fn chars_trim_end_char(s: &[char], c: char) -> (r: Vec<char>)
    ensures
        r@ == trim_end_char(s@, c),
{
    let mut n = s.len();
    assert(s@.take(n as int) =~= s@);
    while n > 0 && s[n - 1] == c
        invariant
            n <= s@.len(),
            trim_end_char(s@.take(n as int), c) == trim_end_char(s@, c),
        decreases n,
    {
        assert(s@.take(n as int).drop_last() =~= s@.take(n - 1));
        n = n - 1;
    }
    proof {
        if n == s@.len() {
            assert(s@.take(n as int) =~= s@);
        }
    }
    sub_chars(s, 0, n)
}

/// `s` with `p` removed from its front, when `s` begins with `p`
/// (`str::strip_prefix`).
pub open spec fn strip_prefix(s: Seq<char>, p: Seq<char>) -> Option<Seq<char>> {
    if s.len() >= p.len() && s.take(p.len() as int) == p {
        Some(s.skip(p.len() as int))
    } else {
        None
    }
}

pub fn chars_starts_with(s: &[char], p: &[char]) -> (r: bool)
    ensures
        r == (s@.len() >= p@.len() && s@.take(p@.len() as int) == p@),
{
    if s.len() < p.len() {
        return false;
    }
    let mut i: usize = 0;
    while i < p.len()
        invariant
            i <= p@.len() <= s@.len(),
            forall|j: int| 0 <= j < i ==> s@[j] == p@[j],
        decreases p@.len() - i,
    {
        if s[i] != p[i] {
            assert(s@.take(p@.len() as int)[i as int] != p@[i as int]);
            return false;
        }
        i = i + 1;
    }
    assert(s@.take(p@.len() as int) =~= p@);
    true
}

/// `s` ends with `p`.
pub open spec fn ends_with(s: Seq<char>, p: Seq<char>) -> bool {
    s.len() >= p.len() && s.skip(s.len() - p.len()) == p
}

pub fn chars_ends_with(s: &[char], p: &[char]) -> (r: bool)
    ensures
        r == ends_with(s@, p@),
{
    if s.len() < p.len() {
        return false;
    }
    let off = s.len() - p.len();
    let mut i: usize = 0;
    while i < p.len()
        invariant
            i <= p@.len(),
            off + p@.len() == s@.len(),
            s@.len() == s.len(),
            forall|j: int| 0 <= j < i ==> s@[off + j] == p@[j],
        decreases p@.len() - i,
    {
        if s[off + i] != p[i] {
            assert(s@.skip(off as int)[i as int] != p@[i as int]);
            return false;
        }
        i = i + 1;
    }
    assert(s@.skip(off as int) =~= p@);
    true
}

/// The number of characters before the first `'\n'` of `s` (all of them
/// when there is none).
pub open spec fn line_len(s: Seq<char>) -> nat
    decreases s.len(),
{
    if s.len() == 0 || s[0] == '\n' {
        0
    } else {
        1 + line_len(s.drop_first())
    }
}

/// A line that was ended by `'\n'`, without the `'\r'` before it.
pub open spec fn strip_cr(l: Seq<char>) -> Seq<char> {
    if l.len() > 0 && l.last() == '\r' {
        l.drop_last()
    } else {
        l
    }
}

/// `str::lines` of `s`: the lines without their endings (`"\n"` or
/// `"\r\n"`); a final line ending adds no empty line.
pub open spec fn lines(s: Seq<char>) -> Seq<Seq<char>>
    decreases s.len(),
{
    if s.len() == 0 {
        seq![]
    } else {
        let k = line_len(s);
        if k < s.len() {
            seq![strip_cr(s.take(k as int))] + lines(s.skip(k + 1 as int))
        } else {
            seq![s]
        }
    }
}

/// The first line of `t` has `k` characters when the first `'\n'` is at `k`
/// (or there is none and `t` has `k` characters).
pub proof fn lemma_line_len(t: Seq<char>, k: int)
    requires
        0 <= k <= t.len(),
        forall|j: int| 0 <= j < k ==> t[j] != '\n',
        k == t.len() || t[k] == '\n',
    ensures
        line_len(t) == k,
    decreases k,
{
    if k > 0 {
        let u = t.drop_first();
        assert forall|j: int| 0 <= j < k - 1 implies u[j] != '\n' by {
            assert(u[j] == t[j + 1]);
        }
        if k < t.len() {
            assert(u[k - 1] == t[k]);
        }
        lemma_line_len(u, k - 1);
    }
}

/// A first line that ends before the end of `t1` is also the first line of
/// `t1` followed by anything.
proof fn lemma_line_len_concat(t1: Seq<char>, t2: Seq<char>)
    requires
        line_len(t1) < t1.len(),
    ensures
        line_len(t1 + t2) == line_len(t1),
    decreases t1.len(),
{
    if t1.len() > 0 && t1[0] != '\n' {
        assert((t1 + t2).drop_first() =~= t1.drop_first() + t2);
        lemma_line_len_concat(t1.drop_first(), t2);
    }
}

/// A text that ends with `'\n'` has a first line that ends inside it.
proof fn lemma_line_len_ends_inside(t: Seq<char>)
    requires
        t.len() > 0,
        t.last() == '\n',
    ensures
        line_len(t) < t.len(),
    decreases t.len(),
{
    if t[0] != '\n' {
        let u = t.drop_first();
        assert(u.len() > 0 && u.last() == '\n');
        lemma_line_len_ends_inside(u);
    }
}

/// The lines of a text whose last line is ended are its lines followed by
/// the lines of what follows it.
pub proof fn lemma_lines_concat(t1: Seq<char>, t2: Seq<char>)
    requires
        t1.len() == 0 || t1.last() == '\n',
    ensures
        lines(t1 + t2) == lines(t1) + lines(t2),
    decreases t1.len(),
{
    if t1.len() == 0 {
        assert(t1 + t2 =~= t2);
        assert(lines(t1) =~= seq![]);
        assert(lines(t1) + lines(t2) =~= lines(t2));
    } else {
        lemma_line_len_ends_inside(t1);
        lemma_line_len_concat(t1, t2);
        let k = line_len(t1);
        let rest = t1.skip(k + 1 as int);
        assert((t1 + t2).take(k as int) =~= t1.take(k as int));
        assert((t1 + t2).skip(k + 1 as int) =~= rest + t2);
        if rest.len() > 0 {
            assert(rest.last() == t1.last());
        }
        lemma_lines_concat(rest, t2);
        assert(lines(t1 + t2) =~= seq![strip_cr(t1.take(k as int))] + (lines(rest) + lines(t2)));
        assert(lines(t1) =~= seq![strip_cr(t1.take(k as int))] + lines(rest));
        assert(lines(t1 + t2) =~= lines(t1) + lines(t2));
    }
}

/// The lines of `text`, as `str::lines` gives them.
pub fn split_lines(text: &str) -> (r: Vec<String>)
    ensures
        strings_view(r@) == lines(text@),
{
    let s = to_chars(text);
    let n = s.len();
    let mut out: Vec<String> = Vec::new();
    let mut start: usize = 0;
    let mut i: usize = 0;
    proof {
        assert(s@.skip(0) =~= s@);
        assert(strings_view(out@) =~= seq![]);
        assert(lines(s@) =~= strings_view(out@) + lines(s@.skip(0)));
    }
    while i < n
        invariant
            start <= i <= n == s@.len(),
            s@ == text@,
            forall|j: int| start <= j < i ==> s@[j] != '\n',
            lines(s@) == strings_view(out@) + lines(s@.skip(start as int)),
        decreases n - i,
    {
        if s[i] == '\n' {
            let ghost t = s@.skip(start as int);
            proof {
                assert forall|j: int| 0 <= j < i - start implies t[j] != '\n' by {
                    assert(t[j] == s@[start + j]);
                }
                assert(t[i - start] == s@[i as int]);
                lemma_line_len(t, i - start);
                assert(t.take(i - start) =~= s@.subrange(start as int, i as int));
                assert(t.skip(i - start + 1) =~= s@.skip(i + 1));
            }
            let mut end = i;
            if end > start && s[end - 1] == '\r' {
                end = end - 1;
            }
            let piece = sub_chars(s.as_slice(), start, end);
            proof {
                let whole = s@.subrange(start as int, i as int);
                if i > start && s@[i - 1] == '\r' {
                    assert(strip_cr(whole) =~= piece@);
                } else {
                    assert(strip_cr(whole) =~= piece@);
                }
            }
            let line = from_chars(piece.as_slice());
            let ghost before = out@;
            out.push(line);
            proof {
                assert(strings_view(out@) =~= strings_view(before).push(line@));
                assert(lines(s@) =~= strings_view(out@) + lines(s@.skip(i + 1)));
            }
            start = i + 1;
        }
        i = i + 1;
    }
    if start < n {
        let ghost t = s@.skip(start as int);
        proof {
            assert forall|j: int| 0 <= j < t.len() implies t[j] != '\n' by {
                assert(t[j] == s@[start + j]);
            }
            lemma_line_len(t, t.len() as int);
        }
        let piece = sub_chars(s.as_slice(), start, n);
        assert(piece@ =~= t);
        let line = from_chars(piece.as_slice());
        let ghost before = out@;
        out.push(line);
        proof {
            assert(strings_view(out@) =~= strings_view(before).push(line@));
            assert(lines(t) == seq![t]);
            assert(lines(s@) =~= strings_view(out@));
        }
    } else {
        proof {
            assert(s@.skip(start as int).len() == 0);
            assert(lines(s@) =~= strings_view(out@));
        }
    }
    out
}

/// -1, 0 or 1 as `a` is below, equal to or above `b`.
pub open spec fn compare_int(a: int, b: int) -> int {
    if a < b {
        -1
    } else if a > b {
        1
    } else {
        0
    }
}

/// The order of `str`'s `Ord`: lexicographic by character (UTF-8 byte
/// order is code point order), -1, 0 or 1 as `a` is below, equal to or above `b`.
pub open spec fn compare_chars(a: Seq<char>, b: Seq<char>) -> int
    decreases a.len(),
{
    if a.len() == 0 {
        if b.len() == 0 {
            0
        } else {
            -1
        }
    } else if b.len() == 0 {
        1
    } else if a[0] != b[0] {
        compare_int(a[0] as int, b[0] as int)
    } else {
        compare_chars(a.drop_first(), b.drop_first())
    }
}

/// `compare_chars` is lexicographic: after a common prefix of `k`
/// characters, `a` is below `b` when it ends there and `b` goes on, or when
/// its next character is the smaller one.
pub proof fn lemma_compare_chars_lexicographic(a: Seq<char>, b: Seq<char>, k: int)
    requires
        0 <= k <= a.len(),
        k <= b.len(),
        forall|j: int| 0 <= j < k ==> a[j] == b[j],
        (k == a.len() && k < b.len()) || (k < a.len() && k < b.len() && (a[k] as int) < (b[k] as int)),
    ensures
        compare_chars(a, b) < 0,
    decreases k,
{
    if k > 0 {
        assert(a[0] == b[0]);
        let a1 = a.drop_first();
        let b1 = b.drop_first();
        assert forall|j: int| 0 <= j < k - 1 implies a1[j] == b1[j] by {
            assert(a1[j] == a[j + 1] && b1[j] == b[j + 1]);
        }
        if k < a.len() {
            assert(a1[k - 1] == a[k] && b1[k - 1] == b[k]);
        } else if k < b.len() {
            assert(b1[k - 1] == b[k]);
        }
        lemma_compare_chars_lexicographic(a1, b1, k - 1);
    }
}

/// `compare_chars` is antisymmetric and is 0 exactly on equal strings.
pub proof fn lemma_compare_chars_antisym(a: Seq<char>, b: Seq<char>)
    ensures
        compare_chars(a, b) == -compare_chars(b, a),
        -1 <= compare_chars(a, b) <= 1,
        (compare_chars(a, b) == 0) == (a == b),
    decreases a.len(),
{
    if a.len() > 0 && b.len() > 0 {
        if a[0] == b[0] {
            lemma_compare_chars_antisym(a.drop_first(), b.drop_first());
            if a.drop_first() == b.drop_first() {
                assert(a =~= seq![a[0]] + a.drop_first());
                assert(b =~= seq![b[0]] + b.drop_first());
            }
        }
    } else if a.len() == 0 && b.len() == 0 {
        assert(a =~= b);
    }
}

/// `compare_chars` is transitive, strictly when either step is strict.
pub proof fn lemma_compare_chars_trans(a: Seq<char>, b: Seq<char>, c: Seq<char>)
    requires
        compare_chars(a, b) <= 0,
        compare_chars(b, c) <= 0,
    ensures
        compare_chars(a, c) <= 0,
        compare_chars(a, b) < 0 || compare_chars(b, c) < 0 ==> compare_chars(a, c) < 0,
    decreases a.len(),
{
    lemma_compare_chars_antisym(a, b);
    lemma_compare_chars_antisym(b, c);
    lemma_compare_chars_antisym(a, c);
    if a.len() > 0 && b.len() > 0 && c.len() > 0 && a[0] == b[0] && b[0] == c[0] {
        lemma_compare_chars_trans(a.drop_first(), b.drop_first(), c.drop_first());
    }
}

/// `str`'s `cmp` of two character sequences, as -1, 0 or 1.
pub fn compare_char_slices(a: &[char], b: &[char]) -> (r: i8)
    ensures
        r == compare_chars(a@, b@),
{
    let mut i: usize = 0;
    assert(a@.skip(0) =~= a@);
    assert(b@.skip(0) =~= b@);
    while i < a.len() && i < b.len() && a[i] == b[i]
        invariant
            i <= a@.len(),
            i <= b@.len(),
            compare_chars(a@, b@) == compare_chars(a@.skip(i as int), b@.skip(i as int)),
        decreases a@.len() - i,
    {
        proof {
            assert(a@.skip(i as int).drop_first() =~= a@.skip(i + 1));
            assert(b@.skip(i as int).drop_first() =~= b@.skip(i + 1));
        }
        i = i + 1;
    }
    proof {
        assert(a@.skip(i as int).len() == a@.len() - i);
        assert(b@.skip(i as int).len() == b@.len() - i);
        if i < a.len() && i < b.len() {
            assert(a@.skip(i as int)[0] == a@[i as int]);
            assert(b@.skip(i as int)[0] == b@[i as int]);
        }
    }
    if i == a.len() {
        if i == b.len() {
            0
        } else {
            -1
        }
    } else if i == b.len() {
        1
    } else if a[i] < b[i] {
        -1
    } else {
        1
    }
}

/// `a == b` for two strings.
pub fn str_eq(a: &str, b: &str) -> (r: bool)
    ensures
        r == (a@ == b@),
{
    let x = to_chars(a);
    let y = to_chars(b);
    chars_eq(x.as_slice(), y.as_slice())
}

/// Whether `items` holds `s`.
pub fn strings_contain(items: &Vec<String>, s: &str) -> (r: bool)
    ensures
        r == strings_view(items@).contains(s@),
{
    let mut i: usize = 0;
    while i < items.len()
        invariant
            i <= items@.len(),
            forall|j: int| 0 <= j < i ==> (#[trigger] items@[j])@ != s@,
        decreases items@.len() - i,
    {
        if str_eq(items[i].as_str(), s) {
            assert(strings_view(items@)[i as int] == s@);
            return true;
        }
        i = i + 1;
    }
    assert forall|j: int| 0 <= j < strings_view(items@).len() implies strings_view(items@)[j] != s@ by {
        assert(strings_view(items@)[j] == items@[j]@);
    }
    false
}

/// What std's `str::to_lowercase` gives for `s` (Unicode lower case).
pub uninterp spec fn unicode_lower(s: Seq<char>) -> Seq<char>;

/// Calls std's `str::to_lowercase`. Claimed: the result is the named lower
/// case of `s`, which depends on `s` alone.
#[verifier::external_body]
pub(crate) fn to_lowercase(s: &str) -> (r: String)
    ensures
        r@ == unicode_lower(s@),
{
    s.to_lowercase()
}

/// The strings are strictly increasing in `str` order (sorted, no
/// duplicates), as a `BTreeSet` yields them.
pub open spec fn sorted_strict(s: Seq<Seq<char>>) -> bool {
    forall|i: int, j: int| 0 <= i < j < s.len() ==> compare_chars(#[trigger] s[i], #[trigger] s[j]) < 0
}

fn compare_string(a: &String, b: &[char]) -> (r: i8)
    ensures
        r == compare_chars(a@, b@),
{
    let ac = to_chars(a.as_str());
    compare_char_slices(ac.as_slice(), b)
}

/// Adds `t` to a strictly increasing list of strings, keeping it strictly
/// increasing (as `BTreeSet::insert` keeps its elements).
pub fn insert_sorted(v: &mut Vec<String>, t: String)
    requires
        sorted_strict(strings_view(old(v)@)),
    ensures
        sorted_strict(strings_view(final(v)@)),
        strings_view(final(v)@).to_set() == strings_view(old(v)@).to_set().insert(t@),
{
    let ghost s0 = strings_view(v@);
    let tc = to_chars(t.as_str());
    let mut p: usize = 0;
    while p < v.len() && compare_string(&v[p], tc.as_slice()) < 0
        invariant
            p <= v@.len(),
            s0 == strings_view(v@),
            tc@ == t@,
            forall|i: int| 0 <= i < p ==> compare_chars(#[trigger] s0[i], t@) < 0,
        decreases v@.len() - p,
    {
        assert(s0[p as int] == v@[p as int]@);
        p = p + 1;
    }
    let c: i8 = if p < v.len() {
        compare_string(&v[p], tc.as_slice())
    } else {
        1
    };
    if p < v.len() {
        assert(s0[p as int] == v@[p as int]@);
    }
    if p < v.len() && c == 0 {
        proof {
            lemma_compare_chars_antisym(s0[p as int], t@);
            assert(s0.contains(t@));
            assert(s0.to_set().insert(t@) =~= s0.to_set());
        }
        return;
    }
    proof {
        if p < v.len() {
            lemma_compare_chars_antisym(s0[p as int], t@);
        }
    }
    v.insert(p, t);
    proof {
        let s1 = strings_view(v@);
        assert(s1 =~= s0.insert(p as int, t@));
        assert forall|i: int, j: int| 0 <= i < j < s1.len() implies compare_chars(#[trigger] s1[i], #[trigger] s1[j]) < 0 by {
            if j < p {
                assert(s1[i] == s0[i] && s1[j] == s0[j]);
            } else if j == p {
                assert(s1[i] == s0[i]);
            } else if i == p {
                assert(s1[j] == s0[j - 1]);
                if j - 1 > p {
                    lemma_compare_chars_trans(t@, s0[p as int], s0[j - 1]);
                }
            } else if i < p {
                assert(s1[i] == s0[i] && s1[j] == s0[j - 1]);
            } else {
                assert(s1[i] == s0[i - 1] && s1[j] == s0[j - 1]);
            }
        }
        assert forall|x: Seq<char>| s1.contains(x) <==> s0.to_set().insert(t@).contains(x) by {
            if s1.contains(x) {
                let k = choose|k: int| 0 <= k < s1.len() && s1[k] == x;
                if k < p {
                    assert(s0[k] == x);
                } else if k > p {
                    assert(s0[k - 1] == x);
                }
            }
            if s0.contains(x) {
                let k = choose|k: int| 0 <= k < s0.len() && s0[k] == x;
                if k < p {
                    assert(s1[k] == x);
                } else {
                    assert(s1[k + 1] == x);
                }
            }
            if x == t@ {
                assert(s1[p as int] == x);
            }
        }
        assert(s1.to_set() =~= s0.to_set().insert(t@));
    }
}

} // verus!
