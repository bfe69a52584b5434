//! What a subscription download yields besides the profile body: the
//! traffic/expiry counters of the `subscription-userinfo` header, the
//! display name from `profile-title` or `content-disposition`, and the
//! body itself, which providers may send base64-encoded.

use vstd::prelude::*;
use vstd::utf8::{decode_utf8, valid_utf8};

use base64::Engine;

use crate::text::{
    ascii_lower, chars_of, contains, dec, digit_char, find, find_char, find_chars, first_index_of, has_prefix,
    lemma_find, lemma_first_index_of, matches_at, owned, push_str, slice_chars,
    strip_both_chars, strip_leading, strip_leading_chars, strip_trailing, string_of,
    to_ascii_lower, trim, trim_chars,
};

verus! {

/// Traffic and expiry counters announced by a provider.
#[derive(Debug, Clone, Copy, PartialEq, Eq, Structural)]
pub struct SubscriptionInfo {
    pub upload: u64,
    pub download: u64,
    pub total: u64,
    pub expire: u64,
}

impl Default for SubscriptionInfo {
    fn default() -> (s: Self)
        ensures
            s == (SubscriptionInfo { upload: 0, download: 0, total: 0, expire: 0 }),
    {
        SubscriptionInfo { upload: 0, download: 0, total: 0, expire: 0 }
    }
}

/// A downloaded subscription.
#[derive(Debug, Clone)]
pub struct FetchResult {
    pub body: String,
    pub name: Option<String>,
    pub extra: Option<SubscriptionInfo>,
}

/// One response header: its (lower-case) name and its value when the
/// value is visible ASCII text (`None` when it is not).
#[derive(Debug, Clone)]
pub struct HeaderField {
    pub name: String,
    pub value: Option<String>,
}

/// What base64's `STANDARD` engine decodes `text` (taken as its UTF-8
/// bytes) to, or `None` when it rejects the input.
pub uninterp spec fn base64_standard_decode(text: Seq<char>) -> Option<Seq<u8>>;

/// `base64::engine::general_purpose::STANDARD.decode`: the decoded bytes,
/// or `None` when the engine reports an error. Nothing is stated of the
/// decoding itself beyond its name.
#[verifier::external_body]
fn base64_decode(text: &str) -> (r: Option<Vec<u8>>)
    ensures
        match r {
            Some(b) => base64_standard_decode(text@) == Some(b@),
            None => base64_standard_decode(text@) is None,
        },
{
    base64::engine::general_purpose::STANDARD.decode(text).ok()
}

/// `String::from_utf8`: the text when `bytes` is valid UTF-8.
#[verifier::external_body]
fn utf8_string(bytes: Vec<u8>) -> (r: Option<String>)
    ensures
        r is Some <==> valid_utf8(bytes@),
        r matches Some(s) ==> s@ == decode_utf8(bytes@),
{
    String::from_utf8(bytes).ok()
}

/// What base64-then-UTF-8 decoding of `text` yields.
pub open spec fn base64_text(text: Seq<char>) -> Option<Seq<char>> {
    match base64_standard_decode(text) {
        Some(b) => if valid_utf8(b) {
            Some(decode_utf8(b))
        } else {
            None
        },
        None => None,
    }
}

/// The UTF-8 text of decoded bytes: `None` when there are no bytes or they
/// are not valid UTF-8.
pub open spec fn utf8_text(bytes: Option<Seq<u8>>) -> Option<Seq<char>> {
    match bytes {
        Some(b) => if valid_utf8(b) {
            Some(decode_utf8(b))
        } else {
            None
        },
        None => None,
    }
}

/// The text of the bytes that base64 decoding gave, if any.
pub fn utf8_text_of(bytes: Option<Vec<u8>>) -> (r: Option<String>)
    ensures
        opt_text_view(r) == utf8_text(
            match bytes {
                Some(b) => Some(b@),
                None => None,
            },
        ),
{
    match bytes {
        Some(b) => utf8_string(b),
        None => None,
    }
}

/// Optional text, by its view.
pub open spec fn opt_text_view(o: Option<String>) -> Option<Seq<char>> {
    match o {
        Some(s) => Some(s@),
        None => None,
    }
}

fn decode_base64_text(text: &str) -> (r: Option<String>)
    ensures
        match r {
            Some(s) => base64_text(text@) == Some(s@),
            None => base64_text(text@) is None,
        },
{
    utf8_text_of(base64_decode(text))
}

pub open spec fn is_ascii_digit(c: char) -> bool {
    '0' <= c <= '9'
}

/// Value of a string of decimal digits.
pub open spec fn digits_value(s: Seq<char>) -> nat
    decreases s.len(),
{
    if s.len() == 0 {
        0
    } else {
        digits_value(s.drop_last()) * 10 + ((s.last() as u32) - ('0' as u32)) as nat
    }
}

/// `str::parse::<u64>`: an optional `+`, then one or more ASCII digits
/// whose value fits in 64 bits.
pub open spec fn parse_u64(s: Seq<char>) -> Option<u64> {
    let d = unsigned_digits(s);
    if d.len() > 0 && (forall|i: int| 0 <= i < d.len() ==> is_ascii_digit(#[trigger] d[i]))
        && digits_value(d) <= u64::MAX {
        Some(digits_value(d) as u64)
    } else {
        None
    }
}

proof fn lemma_digit_char(d: nat)
    requires
        d < 10,
    ensures
        is_ascii_digit(digit_char(d)),
        (digit_char(d) as u32) - ('0' as u32) == d,
{
}

proof fn lemma_dec_digits(m: nat)
    ensures
        dec(m).len() > 0,
        forall|k: int| 0 <= k < dec(m).len() ==> is_ascii_digit(#[trigger] dec(m)[k]),
        digits_value(dec(m)) == m,
    decreases m,
{
    if m < 10 {
        lemma_digit_char(m);
        assert(dec(m) == seq![digit_char(m)]);
        assert(dec(m).drop_last() =~= Seq::<char>::empty());
        assert(dec(m).last() == digit_char(m));
        assert(digits_value(dec(m).drop_last()) == 0);
        assert(digits_value(dec(m)) == digits_value(dec(m).drop_last()) * 10 + ((dec(m).last() as u32) - ('0' as u32)) as nat);
    } else {
        lemma_dec_digits(m / 10);
        lemma_digit_char(m % 10);
        let d = dec(m / 10);
        assert(dec(m) == d.push(digit_char(m % 10)));
        assert(dec(m).drop_last() =~= d);
        assert forall|k: int| 0 <= k < dec(m).len() implies is_ascii_digit(#[trigger] dec(m)[k]) by {
            if k < d.len() {
                assert(dec(m)[k] == d[k]);
            }
        }
        assert(dec(m).last() == digit_char(m % 10));
        assert(digits_value(dec(m)) == digits_value(d) * 10 + ((dec(m).last() as u32) - ('0' as u32)) as nat);
        assert(m == (m / 10) * 10 + m % 10) by (nonlinear_arith);
    }
}

/// Every `u64` written in decimal parses back to itself, with or without a
/// leading `+`.
pub proof fn lemma_parse_decimal(n: u64)
    ensures
        parse_u64(dec(n as nat)) == Some(n),
        parse_u64(seq!['+'] + dec(n as nat)) == Some(n),
{
    lemma_dec_digits(n as nat);
    let d = dec(n as nat);
    assert(is_ascii_digit(d[0]));
    assert(unsigned_digits(d) == d);
    let p = seq!['+'] + d;
    assert(p[0] == '+');
    assert(p.drop_first() =~= d);
    assert(unsigned_digits(p) == d);
}

/// The digits part that `parse_u64` reads.
pub open spec fn unsigned_digits(s: Seq<char>) -> Seq<char> {
    if s.len() > 0 && s[0] == '+' {
        s.drop_first()
    } else {
        s
    }
}

proof fn lemma_digits_prefix_le(s: Seq<char>, i: int)
    requires
        0 <= i <= s.len(),
        forall|k: int| 0 <= k < s.len() ==> is_ascii_digit(#[trigger] s[k]),
    ensures
        digits_value(s.take(i)) <= digits_value(s),
    decreases s.len() - i,
{
    if i < s.len() {
        let t = s.drop_last();
        assert forall|k: int| 0 <= k < t.len() implies is_ascii_digit(#[trigger] t[k]) by {
            assert(t[k] == s[k]);
        }
        lemma_digits_prefix_le(t, i);
        assert(t.take(i) == s.take(i));
    } else {
        assert(s.take(i) == s);
    }
}

/// Parses a decimal `u64` the way `str::parse` does.
pub fn parse_u64_chars(s: &[char]) -> (r: Option<u64>)
    ensures
        r == parse_u64(s@),
{
    let n = s.len();
    let start: usize = if n > 0 && s[0] == '+' { 1 } else { 0 };
    let ghost d = unsigned_digits(s@);
    assert(d == s@.subrange(start as int, n as int));
    if start == n {
        return None;
    }
    let mut acc: u64 = 0;
    let mut i: usize = start;
    while i < n
        invariant
            start <= i <= n == s@.len(),
            d == s@.subrange(start as int, n as int),
            d == unsigned_digits(s@),
            forall|k: int| 0 <= k < i - start ==> is_ascii_digit(#[trigger] d[k]),
            acc == digits_value(d.take(i - start)),
        decreases n - i,
    {
        let c = s[i];
        if !('0' <= c && c <= '9') {
            assert(!is_ascii_digit(d[i - start]));
            assert(!(forall|k: int| 0 <= k < d.len() ==> is_ascii_digit(#[trigger] d[k])));
            assert(parse_u64(s@) is None);
            return None;
        }
        let dv = (c as u32 - '0' as u32) as u64;
        assert(d.take(i - start + 1).drop_last() == d.take(i - start));
        assert(d.take(i - start + 1).last() == c);
        if acc > (u64::MAX - dv) / 10 {
            proof {
                assert(digits_value(d.take(i - start + 1)) > u64::MAX) by (nonlinear_arith)
                    requires
                        acc > (u64::MAX - dv) / 10,
                        digits_value(d.take(i - start + 1)) == acc * 10 + dv,
                        dv <= 9,
                ;
                if forall|k: int| 0 <= k < d.len() ==> is_ascii_digit(#[trigger] d[k]) {
                    lemma_digits_prefix_le(d, i - start + 1);
                }
                assert(parse_u64(s@) is None);
            }
            return None;
        }
        acc = acc * 10 + dv;
        i = i + 1;
    }
    assert(d.take(n - start) == d);
    Some(acc)
}

/// The number in a `key=value` part of the userinfo header, if `seg` is
/// such a part for `key`.
pub open spec fn part_value(seg: Seq<char>, key: Seq<char>) -> Option<u64> {
    let part = trim(seg);
    if has_prefix(part, key) {
        parse_u64(trim(strip_leading(part.subrange(key.len() as int, part.len() as int), '=')))
    } else {
        None
    }
}

/// The value of the first `;`-separated part of `s` that carries a number
/// for `key`.
#[verifier::opaque]
pub open spec fn field_in(s: Seq<char>, key: Seq<char>) -> Option<u64>
    decreases s.len(),
{
    match first_index_of(s, ';') {
        None => part_value(s, key),
        Some(i) => {
            proof {
                lemma_first_index_of(s, ';');
            }
            match part_value(s.subrange(0, i), key) {
                Some(v) => Some(v),
                None => field_in(s.subrange(i + 1, s.len() as int), key),
            }
        },
    }
}

proof fn lemma_field_in_step(s: Seq<char>, key: Seq<char>)
    ensures
        first_index_of(s, ';') is None ==> field_in(s, key) == part_value(s, key),
        first_index_of(s, ';') matches Some(i) ==> field_in(s, key) == (match part_value(
            s.subrange(0, i),
            key,
        ) {
            Some(v) => Some(v),
            None => field_in(s.subrange(i + 1, s.len() as int), key),
        }),
{
    reveal(field_in);
}

fn part_value_exec(seg: &[char], key: &[char]) -> (r: Option<u64>)
    ensures
        r == part_value(seg@, key@),
{
    let part = trim_chars(seg);
    if matches_at(part.as_slice(), 0, key) {
        assert(part@.subrange(0, part@.len() as int) == part@);
        let rest = slice_chars(part.as_slice(), key.len(), part.len());
        let v = strip_leading_chars(rest.as_slice(), '=');
        let t = trim_chars(v.as_slice());
        parse_u64_chars(t.as_slice())
    } else {
        assert(part@.subrange(0, part@.len() as int) == part@);
        None
    }
}

/// Reads the number for `key` out of a `subscription-userinfo` value such
/// as `upload=1; download=2; total=3; expire=4`; 0 when absent or not a
/// number.
pub fn parse_field(s: &str, key: &str) -> (r: u64)
    ensures
        r == field_or_zero(s@, key@),
{
    let v = chars_of(s);
    let k = chars_of(key);
    let n = v.len();
    let mut start: usize = 0;
    assert(v@.subrange(0, n as int) == v@);
    loop
        invariant
            start <= n == v@.len(),
            v@ == s@,
            k@ == key@,
            field_in(v@, k@) == field_in(v@.subrange(start as int, n as int), k@),
        decreases n - start,
    {
        let rest = slice_chars(v.as_slice(), start, n);
        proof {
            lemma_field_in_step(rest@, k@);
        }
        let found = find_char(rest.as_slice(), ';');
        if found.is_none() {
            let r = part_value_exec(rest.as_slice(), k.as_slice());
            assert(field_in(v@, k@) == r);
            return match r {
                Some(x) => x,
                None => 0,
            };
        }
        let i = found.unwrap();
        let seg = slice_chars(rest.as_slice(), 0, i);
        let r = part_value_exec(seg.as_slice(), k.as_slice());
        if r.is_some() {
            assert(field_in(v@, k@) == r);
            return r.unwrap();
        }
        assert(rest@.subrange(i + 1, rest@.len() as int) == v@.subrange(start + i + 1, n as int));
        start = start + i + 1;
    }
}

/// `url` with everything from the first `?` replaced by `?<masked>`, so
/// tokens in query strings never reach the logs.
pub open spec fn masked(url: Seq<char>) -> Seq<char> {
    match first_index_of(url, '?') {
        Some(i) => url.subrange(0, i) + "?<masked>"@,
        None => url,
    }
}

/// Masks sensitive query parameters in a URL before logging.
pub fn mask_url(url: &str) -> (r: String)
    ensures
        r@ == masked(url@),
{
    let v = chars_of(url);
    match find_char(v.as_slice(), '?') {
        Some(q) => {
            let mut out = slice_chars(v.as_slice(), 0, q);
            push_str(&mut out, "?<masked>");
            string_of(out.as_slice())
        },
        None => owned(url),
    }
}

/// The first header named exactly `name` (what `HeaderMap::get` returns).
pub open spec fn header_get(headers: Seq<HeaderField>, name: Seq<char>) -> Option<HeaderField>
    decreases headers.len(),
{
    if headers.len() == 0 {
        None
    } else if headers[0].name@ == name {
        Some(headers[0])
    } else {
        header_get(headers.drop_first(), name)
    }
}

fn find_header<'a>(headers: &'a [HeaderField], name: &str) -> (r: Option<&'a HeaderField>)
    ensures
        match r {
            Some(h) => header_get(headers@, name@) == Some(*h),
            None => header_get(headers@, name@) is None,
        },
{
    let mut i: usize = 0;
    assert(headers@.subrange(0, headers@.len() as int) == headers@);
    while i < headers.len()
        invariant
            i <= headers@.len(),
            header_get(headers@, name@) == header_get(headers@.subrange(i as int, headers@.len() as int), name@),
        decreases headers.len() - i,
    {
        let ghost rest = headers@.subrange(i as int, headers@.len() as int);
        assert(rest[0] == headers@[i as int]);
        if crate::text::str_eq(headers[i].name.as_str(), name) {
            return Some(&headers[i]);
        }
        assert(rest.drop_first() == headers@.subrange(i + 1, headers@.len() as int));
        i = i + 1;
    }
    None
}

/// File name announced by a `content-disposition` value: what follows the
/// first `filename=`, stripped of quotes and cut at `;`, when non-empty.
pub open spec fn disposition_name(value: Seq<char>) -> Option<Seq<char>> {
    match find(value, "filename="@) {
        Some(pos) => {
            let rest = value.subrange(pos + 9, value.len() as int);
            let unquoted = strip_trailing(strip_leading(rest, '"'), '"');
            let name = match first_index_of(unquoted, ';') {
                Some(j) => unquoted.subrange(0, j),
                None => unquoted,
            };
            if name.len() > 0 {
                Some(name)
            } else {
                None
            }
        },
        None => None,
    }
}

/// Display name from the `content-disposition` header, if any.
pub open spec fn content_disposition_name(headers: Seq<HeaderField>) -> Option<Seq<char>> {
    match header_get(headers, "content-disposition"@) {
        Some(h) => match h.value {
            Some(v) => disposition_name(v@),
            None => None,
        },
        None => None,
    }
}

fn disposition_name_exec(value: &str) -> (r: Option<String>)
    ensures
        match r {
            Some(s) => disposition_name(value@) == Some(s@),
            None => disposition_name(value@) is None,
        },
{
    let v = chars_of(value);
    let pat = chars_of("filename=");
    proof {
        reveal_strlit("filename=");
    }
    match find_chars(v.as_slice(), pat.as_slice()) {
        Some(pos) => {
            proof {
                lemma_find(v@, pat@);
                assert(pat@.len() == 9);
                assert(v@.len() == v.len());
            }
            let rest = slice_chars(v.as_slice(), pos + 9, v.len());
            let unquoted = strip_both_chars(rest.as_slice(), '"');
            let name = match find_char(unquoted.as_slice(), ';') {
                Some(j) => slice_chars(unquoted.as_slice(), 0, j),
                None => unquoted,
            };
            if name.len() > 0 {
                Some(string_of(name.as_slice()))
            } else {
                None
            }
        },
        None => None,
    }
}

/// Display name from the `content-disposition` header.
pub fn parse_content_disposition(headers: &[HeaderField]) -> (r: Option<String>)
    ensures
        match r {
            Some(s) => content_disposition_name(headers@) == Some(s@),
            None => content_disposition_name(headers@) is None,
        },
{
    match find_header(headers, "content-disposition") {
        Some(h) => match &h.value {
            Some(v) => disposition_name_exec(v.as_str()),
            None => None,
        },
        None => None,
    }
}

/// Display name from the `profile-title` header: a `base64:` value is
/// decoded (and yields nothing if it is not base64 of UTF-8 text), any
/// other non-empty value is taken as it is, trimmed.
pub open spec fn profile_title(headers: Seq<HeaderField>) -> Option<Seq<char>> {
    match header_get(headers, "profile-title"@) {
        Some(h) => match h.value {
            Some(v) => {
                let t = trim(v@);
                if has_prefix(t, "base64:"@) {
                    base64_text(t.subrange(7, t.len() as int))
                } else if t.len() > 0 {
                    Some(t)
                } else {
                    None
                }
            },
            None => None,
        },
        None => None,
    }
}

/// Provider display name from the `profile-title` header.
pub fn parse_profile_title(headers: &[HeaderField]) -> (r: Option<String>)
    ensures
        match r {
            Some(s) => profile_title(headers@) == Some(s@),
            None => profile_title(headers@) is None,
        },
{
    let h = match find_header(headers, "profile-title") {
        Some(h) => h,
        None => return None,
    };
    let value = match &h.value {
        Some(v) => v,
        None => return None,
    };
    let raw = chars_of(value.as_str());
    let t = trim_chars(raw.as_slice());
    let prefix = chars_of("base64:");
    proof {
        reveal_strlit("base64:");
    }
    if matches_at(t.as_slice(), 0, prefix.as_slice()) {
        assert(t@.subrange(0, t@.len() as int) == t@);
        let b64 = string_of(slice_chars(t.as_slice(), 7, t.len()).as_slice());
        decode_base64_text(b64.as_str())
    } else {
        assert(t@.subrange(0, t@.len() as int) == t@);
        if t.len() > 0 {
            Some(string_of(t.as_slice()))
        } else {
            None
        }
    }
}

/// Does `name`, ASCII-lower-cased, end with `subscription-userinfo`?
pub open spec fn is_userinfo_name(name: Seq<char>) -> bool {
    let suffix = "subscription-userinfo"@;
    let lower = name.map_values(|c: char| ascii_lower(c));
    suffix.len() <= lower.len() && lower.subrange(lower.len() - suffix.len(), lower.len() as int)
        == suffix
}

/// The counters of one userinfo header value.
pub open spec fn info_of(value: Seq<char>) -> SubscriptionInfo {
    SubscriptionInfo {
        upload: field_or_zero(value, "upload"@),
        download: field_or_zero(value, "download"@),
        total: field_or_zero(value, "total"@),
        expire: field_or_zero(value, "expire"@),
    }
}

/// `parse_field`'s result: the number for `key`, or 0.
pub open spec fn field_or_zero(s: Seq<char>, key: Seq<char>) -> u64 {
    match field_in(s, key) {
        Some(v) => v,
        None => 0,
    }
}

/// The counters from the first header whose name ends with
/// `subscription-userinfo` (a non-text value counts as empty).
pub open spec fn userinfo(headers: Seq<HeaderField>) -> Option<SubscriptionInfo>
    decreases headers.len(),
{
    if headers.len() == 0 {
        None
    } else if is_userinfo_name(headers[0].name@) {
        Some(
            info_of(
                match headers[0].value {
                    Some(v) => v@,
                    None => Seq::empty(),
                },
            ),
        )
    } else {
        userinfo(headers.drop_first())
    }
}

fn is_userinfo_name_exec(name: &str) -> (r: bool)
    ensures
        r == is_userinfo_name(name@),
{
    let v = chars_of(name);
    let mut lower: Vec<char> = Vec::new();
    let mut i: usize = 0;
    while i < v.len()
        invariant
            i <= v@.len(),
            lower@ == v@.take(i as int).map_values(|c: char| ascii_lower(c)),
        decreases v.len() - i,
    {
        lower.push(to_ascii_lower(v[i]));
        assert(v@.take(i + 1).map_values(|c: char| ascii_lower(c)) == v@.take(i as int).map_values(
            |c: char| ascii_lower(c),
        ).push(ascii_lower(v@[i as int])));
        i = i + 1;
    }
    assert(v@.take(v@.len() as int) == v@);
    let suffix = chars_of("subscription-userinfo");
    if suffix.len() > lower.len() {
        return false;
    }
    let at = lower.len() - suffix.len();
    let r = matches_at(lower.as_slice(), at, suffix.as_slice());
    assert(lower@.subrange(at as int, lower@.len() as int).subrange(0, suffix@.len() as int)
        == lower@.subrange(at as int, lower@.len() as int));
    r
}

/// Traffic counters from the `subscription-userinfo` header, if present.
pub fn parse_subscription_userinfo(headers: &[HeaderField]) -> (r: Option<SubscriptionInfo>)
    ensures
        r == userinfo(headers@),
{
    let mut i: usize = 0;
    assert(headers@.subrange(0, headers@.len() as int) == headers@);
    while i < headers.len()
        invariant
            i <= headers@.len(),
            userinfo(headers@) == userinfo(headers@.subrange(i as int, headers@.len() as int)),
        decreases headers.len() - i,
    {
        let ghost rest = headers@.subrange(i as int, headers@.len() as int);
        assert(rest[0] == headers@[i as int]);
        if is_userinfo_name_exec(headers[i].name.as_str()) {
            let info_str: &str = match &headers[i].value {
                Some(v) => v.as_str(),
                None => "",
            };
            proof {
                reveal_strlit("");
                assert(""@ =~= Seq::<char>::empty());
                let val = match headers@[i as int].value {
                    Some(v) => v@,
                    None => Seq::empty(),
                };
                assert(info_str@ == val);
                assert(userinfo(rest) == Some(info_of(val)));
            }
            return Some(
                SubscriptionInfo {
                    upload: parse_field(info_str, "upload"),
                    download: parse_field(info_str, "download"),
                    total: parse_field(info_str, "total"),
                    expire: parse_field(info_str, "expire"),
                },
            );
        }
        assert(rest.drop_first() == headers@.subrange(i + 1, headers@.len() as int));
        i = i + 1;
    }
    None
}

/// Does the (trimmed) body already look like a clash config: JSON, a
/// `proxies:` list, or one with `proxy-groups:`?
pub open spec fn looks_like_config(trimmed: Seq<char>) -> bool {
    ||| has_prefix(trimmed, "{"@)
    ||| has_prefix(trimmed, "proxies:"@)
    ||| contains(trimmed, "proxy-groups:"@)
}

/// `s` without any `\n` or `\r`.
pub open spec fn without_newlines(s: Seq<char>) -> Seq<char> {
    s.filter(|c: char| c != '\n' && c != '\r')
}

/// The body handed to the core: a config-looking body as it came, else its
/// base64 decoding when that is UTF-8 text, else the body as it came.
pub open spec fn decoded_body(body: Seq<char>) -> Seq<char> {
    let t = trim(body);
    if looks_like_config(t) {
        body
    } else {
        match base64_text(without_newlines(t)) {
            Some(d) => d,
            None => body,
        }
    }
}

fn drop_newlines(v: &[char]) -> (r: Vec<char>)
    ensures
        r@ == without_newlines(v@),
{
    let mut out: Vec<char> = Vec::new();
    let mut i: usize = 0;
    while i < v.len()
        invariant
            i <= v@.len(),
            out@ == without_newlines(v@.take(i as int)),
        decreases v.len() - i,
    {
        let c = v[i];
        proof {
            reveal(Seq::filter);
            assert(v@.take(i + 1).drop_last() == v@.take(i as int));
        }
        if c != '\n' && c != '\r' {
            out.push(c);
        }
        i = i + 1;
    }
    assert(v@.take(v@.len() as int) == v@);
    out
}

/// Decodes a base64-encoded subscription body; a body that already looks
/// like a config, or that does not decode to UTF-8 text, is kept as is.
pub fn decode_body(body: &str) -> (r: String)
    ensures
        r@ == decoded_body(body@),
{
    let v = chars_of(body);
    let t = trim_chars(v.as_slice());
    let brace = chars_of("{");
    let proxies = chars_of("proxies:");
    let groups = chars_of("proxy-groups:");
    assert(t@.subrange(0, t@.len() as int) == t@);
    let looks = matches_at(t.as_slice(), 0, brace.as_slice()) || matches_at(
        t.as_slice(),
        0,
        proxies.as_slice(),
    ) || find_chars(t.as_slice(), groups.as_slice()).is_some();
    proof {
        lemma_find(t@, groups@);
    }
    if looks {
        return owned(body);
    }
    let joined = string_of(drop_newlines(t.as_slice()).as_slice());
    match decode_base64_text(joined.as_str()) {
        Some(d) => d,
        None => owned(body),
    }
}

/// What a subscription response yields: the decoded body, the display
/// name (`profile-title` first, then `content-disposition`) and the
/// traffic counters.
pub open spec fn fetched(headers: Seq<HeaderField>, body: Seq<char>) -> (
    Seq<char>,
    Option<Seq<char>>,
    Option<SubscriptionInfo>,
) {
    (
        decoded_body(body),
        match profile_title(headers) {
            Some(t) => Some(t),
            None => content_disposition_name(headers),
        },
        userinfo(headers),
    )
}

/// Builds the result of a subscription download from its response headers
/// and body text.
pub fn fetch_result(headers: &[HeaderField], body: &str) -> (r: FetchResult)
    ensures
        r.body@ == fetched(headers@, body@).0,
        match r.name {
            Some(n) => fetched(headers@, body@).1 == Some(n@),
            None => fetched(headers@, body@).1 is None,
        },
        r.extra == fetched(headers@, body@).2,
{
    let extra = parse_subscription_userinfo(headers);
    let name = match parse_profile_title(headers) {
        Some(t) => Some(t),
        None => parse_content_disposition(headers),
    };
    let body = decode_body(body);
    FetchResult { body, name, extra }
}

} // verus!
