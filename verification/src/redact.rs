//! Redaction for captured request parameters, safe request headers and
//! request/response bodies.
//!
//! Query parameters are captured for troubleshooting but values whose field
//! name matches known credential/secret patterns are replaced with
//! `[REDACTED]`: raw tokens, passwords, verification codes, OAuth codes, and
//! private keys are never stored.
use crate::json::{
    JsonModel, JsonValue, json_document_of, json_text_of, parse_json_document, render_json_document,
};
use crate::text::{
    chars_eq, chars_eq_str, chars_of, contains, contains_str, has_prefix, is_ws, join, lower,
    pieces_view, push_all, split, split_chars, split_once, split_once_chars, string_of, subvec,
    to_ascii_lower, trim, trim_start, trim_start_index, trimmed, trim_end, ascii_lower, occurs_at,
    find, find_from, lemma_find_from_bounds,
};
use vstd::prelude::*;

verus! {

/// Replacement text for redacted values.
pub const REDACTED: &'static str = "[REDACTED]";

// ---------------------------------------------------------------------------
// Field and header names
// ---------------------------------------------------------------------------

/// Header names whose values must never be captured (credential, cookie, or
/// idempotency headers); `n` is already trimmed and lower-cased.
pub open spec fn sensitive_header(n: Seq<char>) -> bool {
    ||| n == "authorization"@
    ||| n == "x-api-key"@
    ||| n == "api-key"@
    ||| n == "access-token"@
    ||| n == "x-access-token"@
    ||| n == "x-sdkwork-access-token"@
    ||| n == "x-sdkwork-auth-token"@
    ||| n == "x-sdkwork-ingress-token"@
    ||| n == "x-sdkwork-agent-token"@
    ||| n == "cookie"@
    ||| n == "set-cookie"@
    ||| n == "x-idempotency-key"@
    ||| n == "idempotency-key"@
}

/// Exact field names whose values are secrets; `n` is already normalized.
pub open spec fn sensitive_exact_name(n: Seq<char>) -> bool {
    ||| n == "password"@
    ||| n == "passwd"@
    ||| n == "secret"@
    ||| n == "api_key"@
    ||| n == "apikey"@
    ||| n == "token"@
    ||| n == "auth_token"@
    ||| n == "access_token"@
    ||| n == "refresh_token"@
    ||| n == "bearer"@
    ||| n == "credential"@
    ||| n == "credentials"@
    ||| n == "code"@
    ||| n == "sign"@
    ||| n == "signature"@
    ||| n == "otp"@
    ||| n == "pin"@
}

/// Name fragments that mark a field as secret wherever they occur; `n` is
/// already normalized.
pub open spec fn sensitive_fragment(n: Seq<char>) -> bool {
    ||| contains(n, "password"@)
    ||| contains(n, "secret"@)
    ||| contains(n, "token"@)
    ||| contains(n, "api_key"@)
    ||| contains(n, "apikey"@)
    ||| contains(n, "signature"@)
    ||| contains(n, "verification_code"@)
    ||| contains(n, "verificationcode"@)
    ||| contains(n, "verify_code"@)
    ||| contains(n, "verifycode"@)
    ||| contains(n, "sms_code"@)
    ||| contains(n, "otp"@)
}

/// Trimmed, ASCII-lower-cased form of a field or header name.
pub open spec fn normalized_name(name: Seq<char>) -> Seq<char> {
    lower(trim(name))
}

/// A query/field name whose value must be redacted.
pub open spec fn sensitive_field(name: Seq<char>) -> bool {
    let n = normalized_name(name);
    sensitive_header(n) || sensitive_exact_name(n) || sensitive_fragment(n)
}

/// The stored form of a captured value under its field name.
pub open spec fn redacted_value(name: Seq<char>, value: Seq<char>) -> Seq<char> {
    if sensitive_field(name) {
        "[REDACTED]"@
    } else {
        value
    }
}

/// Headers whose values are safe to capture (normalized name).
pub open spec fn allowed_header(n: Seq<char>) -> bool {
    ||| n == "user-agent"@
    ||| n == "content-type"@
    ||| n == "accept"@
    ||| n == "accept-language"@
    ||| n == "origin"@
    ||| n == "x-forwarded-for"@
    ||| n == "x-real-ip"@
    ||| n == "x-client-kind"@
    ||| n == "x-sdkwork-client-kind"@
    ||| n == "x-request-id"@
    ||| n == "traceparent"@
    ||| n == "tracestate"@
    ||| n == "x-sdkwork-trace-id"@
}

/// A request header that may be captured.
pub open spec fn safe_header(name: Seq<char>) -> bool {
    let n = normalized_name(name);
    !sensitive_header(n) && allowed_header(n)
}

fn is_sensitive_header_name(n: &[char]) -> (r: bool)
    ensures
        r == sensitive_header(n@),
{
    chars_eq_str(n, "authorization") || chars_eq_str(n, "x-api-key") || chars_eq_str(n, "api-key")
        || chars_eq_str(n, "access-token") || chars_eq_str(n, "x-access-token") || chars_eq_str(
        n,
        "x-sdkwork-access-token",
    ) || chars_eq_str(n, "x-sdkwork-auth-token") || chars_eq_str(n, "x-sdkwork-ingress-token")
        || chars_eq_str(n, "x-sdkwork-agent-token") || chars_eq_str(n, "cookie") || chars_eq_str(
        n,
        "set-cookie",
    ) || chars_eq_str(n, "x-idempotency-key") || chars_eq_str(n, "idempotency-key")
}

fn is_sensitive_exact_name(n: &[char]) -> (r: bool)
    ensures
        r == sensitive_exact_name(n@),
{
    chars_eq_str(n, "password") || chars_eq_str(n, "passwd") || chars_eq_str(n, "secret")
        || chars_eq_str(n, "api_key") || chars_eq_str(n, "apikey") || chars_eq_str(n, "token")
        || chars_eq_str(n, "auth_token") || chars_eq_str(n, "access_token") || chars_eq_str(
        n,
        "refresh_token",
    ) || chars_eq_str(n, "bearer") || chars_eq_str(n, "credential") || chars_eq_str(
        n,
        "credentials",
    ) || chars_eq_str(n, "code") || chars_eq_str(n, "sign") || chars_eq_str(n, "signature")
        || chars_eq_str(n, "otp") || chars_eq_str(n, "pin")
}

fn has_sensitive_fragment(n: &[char]) -> (r: bool)
    ensures
        r == sensitive_fragment(n@),
{
    contains_str(n, "password") || contains_str(n, "secret") || contains_str(n, "token")
        || contains_str(n, "api_key") || contains_str(n, "apikey") || contains_str(n, "signature")
        || contains_str(n, "verification_code") || contains_str(n, "verificationcode")
        || contains_str(n, "verify_code") || contains_str(n, "verifycode") || contains_str(
        n,
        "sms_code",
    ) || contains_str(n, "otp")
}

pub(crate) fn normalize_name(name: &[char]) -> (r: Vec<char>)
    ensures
        r@ == normalized_name(name@),
{
    let t = trimmed(name);
    to_ascii_lower(t.as_slice())
}

fn is_sensitive_field_chars(name: &[char]) -> (r: bool)
    ensures
        r == sensitive_field(name@),
{
    let n = normalize_name(name);
    is_sensitive_header_name(n.as_slice()) || is_sensitive_exact_name(n.as_slice())
        || has_sensitive_fragment(n.as_slice())
}

/// True when a query/field name must have its value redacted.
pub fn is_sensitive_field_name(name: &str) -> (r: bool)
    ensures
        r == sensitive_field(name@),
{
    let v = chars_of(name);
    is_sensitive_field_chars(v.as_slice())
}

fn redact_value_chars(name: &[char], value: &[char]) -> (r: Vec<char>)
    ensures
        r@ == redacted_value(name@, value@),
{
    if is_sensitive_field_chars(name) {
        chars_of("[REDACTED]")
    } else {
        subvec(value, 0, value.len())
    }
}

/// Redacts one captured value by field name.
pub fn redact_sensitive_value(field_name: &str, value: &str) -> (r: String)
    ensures
        r@ == redacted_value(field_name@, value@),
{
    if is_sensitive_field_name(field_name) {
        REDACTED.to_owned()
    } else {
        value.to_owned()
    }
}

/// Allow-list of request headers whose values are safe to capture.
/// Credential, cookie, and idempotency headers are always excluded;
/// signed-URL carriers (for example `referer`) are excluded as well.
pub fn is_safe_request_header(name: &str) -> (r: bool)
    ensures
        r == safe_header(name@),
{
    let v = chars_of(name);
    let n = normalize_name(v.as_slice());
    let allowed = chars_eq_str(n.as_slice(), "user-agent") || chars_eq_str(
        n.as_slice(),
        "content-type",
    ) || chars_eq_str(n.as_slice(), "accept") || chars_eq_str(n.as_slice(), "accept-language")
        || chars_eq_str(n.as_slice(), "origin") || chars_eq_str(n.as_slice(), "x-forwarded-for")
        || chars_eq_str(n.as_slice(), "x-real-ip") || chars_eq_str(n.as_slice(), "x-client-kind")
        || chars_eq_str(n.as_slice(), "x-sdkwork-client-kind") || chars_eq_str(
        n.as_slice(),
        "x-request-id",
    ) || chars_eq_str(n.as_slice(), "traceparent") || chars_eq_str(n.as_slice(), "tracestate")
        || chars_eq_str(n.as_slice(), "x-sdkwork-trace-id");
    !is_sensitive_header_name(n.as_slice()) && allowed
}

// ---------------------------------------------------------------------------
// Query strings
// ---------------------------------------------------------------------------

/// Stored form of one `key=value` query pair (a key-only pair is kept as is).
pub open spec fn redacted_pair(pair: Seq<char>) -> Seq<char> {
    match split_once(pair, '=') {
        Some((key, value)) => key + "="@ + redacted_value(key, value),
        None => pair,
    }
}

/// Non-empty pairs, redacted and joined with `&`, in order.
pub open spec fn redacted_pairs(pairs: Seq<Seq<char>>) -> Seq<char>
    decreases pairs.len(),
{
    if pairs.len() == 0 {
        Seq::empty()
    } else {
        let acc = redacted_pairs(pairs.drop_last());
        let pair = pairs.last();
        if pair.len() == 0 {
            acc
        } else if acc.len() == 0 {
            redacted_pair(pair)
        } else {
            acc + "&"@ + redacted_pair(pair)
        }
    }
}

/// Stored form of a query string: `None` when there is nothing to store.
pub open spec fn query_redaction(query: Option<Seq<char>>) -> Option<Seq<char>> {
    match query {
        None => None,
        Some(q) => if trim(q).len() == 0 {
            None
        } else {
            let out = redacted_pairs(split(q, '&'));
            if out.len() == 0 {
                None
            } else {
                Some(out)
            }
        },
    }
}

fn redact_pair_chars(pair: &[char]) -> (r: Vec<char>)
    ensures
        r@ == redacted_pair(pair@),
{
    match split_once_chars(pair, '=') {
        Some((key, value)) => {
            let mut out = subvec(key.as_slice(), 0, key.len());
            out.push('=');
            let red = redact_value_chars(key.as_slice(), value.as_slice());
            push_all(&mut out, red.as_slice());
            proof {
                reveal_strlit("=");
            }
            assert(out@ =~= key@ + "="@ + redacted_value(key@, value@));
            out
        },
        None => subvec(pair, 0, pair.len()),
    }
}

/// Redacts query string parameters (`k=v&k2=v2`), preserving order and
/// separators and dropping empty pairs. Returns `None` when there is nothing
/// to store.
pub fn redact_query_params(query: Option<&str>) -> (r: Option<String>)
    ensures
        opt_chars(r) == query_redaction(opt_str_chars(query)),
{
    let query = match query {
        Some(q) => q,
        None => return None,
    };
    let qv = chars_of(query);
    let t = trimmed(qv.as_slice());
    if t.len() == 0 {
        return None;
    }
    let pairs = split_chars(qv.as_slice(), '&');
    let ghost ps = pieces_view(pairs@);
    let mut out: Vec<char> = Vec::new();
    let mut i: usize = 0;
    assert(ps.take(0) =~= Seq::<Seq<char>>::empty());
    while i < pairs.len()
        invariant
            ps == pieces_view(pairs@),
            ps.len() == pairs@.len(),
            0 <= i <= pairs.len(),
            out@ == redacted_pairs(ps.take(i as int)),
        decreases pairs.len() - i,
    {
        assert(ps.take(i + 1).drop_last() =~= ps.take(i as int));
        assert(ps.take(i + 1).last() == pairs@[i as int]@);
        let pair = &pairs[i];
        if pair.len() > 0 {
            let red = redact_pair_chars(pair.as_slice());
            if out.len() > 0 {
                out.push('&');
                proof {
                    reveal_strlit("&");
                }
            }
            let ghost before = out@;
            push_all(&mut out, red.as_slice());
            assert(before.len() == 0 ==> out@ =~= red@);
            assert(before.len() > 0 ==> out@ =~= redacted_pairs(ps.take(i as int)) + "&"@
                + red@);
        }
        i = i + 1;
    }
    assert(ps.take(pairs.len() as int) =~= ps);
    if out.len() == 0 {
        None
    } else {
        Some(string_of(out.as_slice()))
    }
}

/// The character view of an optional string.
pub open spec fn opt_chars(o: Option<String>) -> Option<Seq<char>> {
    match o {
        Some(s) => Some(s@),
        None => None,
    }
}

/// The character view of an optional string slice.
pub open spec fn opt_str_chars(o: Option<&str>) -> Option<Seq<char>> {
    match o {
        Some(s) => Some(s@),
        None => None,
    }
}


// ---------------------------------------------------------------------------
// Safe request headers
// ---------------------------------------------------------------------------

/// The character view of `(name, value)` string pairs.
pub open spec fn pairs_view(pairs: Seq<(String, String)>) -> Seq<(Seq<char>, Seq<char>)> {
    Seq::new(pairs.len(), |i: int| (pairs[i].0@, pairs[i].1@))
}

/// The captured `(normalized name, stored value)` entries of the safe headers,
/// in order.
pub open spec fn safe_header_entries(headers: Seq<(Seq<char>, Seq<char>)>) -> Seq<
    (Seq<char>, Seq<char>),
>
    decreases headers.len(),
{
    if headers.len() == 0 {
        Seq::empty()
    } else {
        let acc = safe_header_entries(headers.drop_last());
        let (name, value) = headers.last();
        if safe_header(name) {
            acc.push((normalized_name(name), redacted_value(name, value)))
        } else {
            acc
        }
    }
}

/// The text `serde_json` renders for a JSON object built from string-valued
/// entries (a `serde_json::Map` filled in order, rendered with
/// `Value::to_string`).
pub uninterp spec fn json_string_object_text(entries: Seq<(Seq<char>, Seq<char>)>) -> Seq<char>;

/// `serde_json`: collects the entries into a `serde_json::Map` of string
/// values and renders the object with `Value::to_string` (compact JSON).
/// Stated: the result is the text named by `json_string_object_text` for the
/// entries, a function of the entries alone. Key order, duplicate-key
/// handling and string escaping are serde_json's and are not restated here.
#[verifier::external_body]
fn json_string_object(entries: Vec<(String, String)>) -> (r: String)
    ensures
        r@ == json_string_object_text(pairs_view(entries@)),
{
    let map: serde_json::Map<String, serde_json::Value> = entries.into_iter().map(
        |(k, v)| (k, serde_json::Value::String(v)),
    ).collect();
    serde_json::Value::Object(map).to_string()
}

/// Stored form of captured request headers: `None` when nothing safe was
/// captured.
pub open spec fn header_capture(headers: Seq<(Seq<char>, Seq<char>)>) -> Option<Seq<char>> {
    if headers.len() == 0 || safe_header_entries(headers).len() == 0 {
        None
    } else {
        Some(json_string_object_text(safe_header_entries(headers)))
    }
}

/// Captures allow-listed headers as a JSON object string
/// (`{"user-agent":"...","content-type":"..."}`) with lower-cased names.
/// Returns `None` when nothing was captured.
pub fn capture_safe_headers(headers: &[(String, String)]) -> (r: Option<String>)
    ensures
        opt_chars(r) == header_capture(pairs_view(headers@)),
{
    let ghost hv = pairs_view(headers@);
    if headers.len() == 0 {
        return None;
    }
    let mut entries: Vec<(String, String)> = Vec::new();
    let mut i: usize = 0;
    assert(hv.take(0) =~= Seq::<(Seq<char>, Seq<char>)>::empty());
    while i < headers.len()
        invariant
            hv == pairs_view(headers@),
            0 <= i <= headers.len(),
            pairs_view(entries@) == safe_header_entries(hv.take(i as int)),
        decreases headers.len() - i,
    {
        assert(hv.take(i + 1).drop_last() =~= hv.take(i as int));
        assert(hv.take(i + 1).last() == hv[i as int]);
        let (name, value) = &headers[i];
        if is_safe_request_header(name.as_str()) {
            let nv = chars_of(name.as_str());
            let normalized = normalize_name(nv.as_slice());
            let stored = redact_sensitive_value(name.as_str(), value.as_str());
            let ghost before = entries@;
            entries.push((string_of(normalized.as_slice()), stored));
            assert(pairs_view(entries@) =~= pairs_view(before).push(
                (normalized_name(name@), redacted_value(name@, value@)),
            ));
        }
        i = i + 1;
    }
    assert(hv.take(headers.len() as int) =~= hv);
    if entries.len() == 0 {
        None
    } else {
        Some(json_string_object(entries))
    }
}

// ---------------------------------------------------------------------------
// Bodies
// ---------------------------------------------------------------------------

/// Structural redaction of a JSON document: object members whose key is a
/// sensitive field name get the value `"[REDACTED]"` (key kept, whole subtree
/// replaced); other members and array elements are redacted recursively;
/// primitive values are unchanged.
pub open spec fn redact_model(m: JsonModel) -> JsonModel
    decreases m,
{
    match m {
        JsonModel::Object(entries) => JsonModel::Object(
            Seq::new(
                entries.len(),
                |i: int|
                    if 0 <= i < entries.len() {
                        if sensitive_field(entries[i].0) {
                            (entries[i].0, JsonModel::String("[REDACTED]"@))
                        } else {
                            (entries[i].0, redact_model(entries[i].1))
                        }
                    } else {
                        (Seq::empty(), JsonModel::Null)
                    },
            ),
        ),
        JsonModel::Array(items) => JsonModel::Array(
            Seq::new(
                items.len(),
                |i: int|
                    if 0 <= i < items.len() {
                        redact_model(items[i])
                    } else {
                        JsonModel::Null
                    },
            ),
        ),
        _ => m,
    }
}

/// Redacts a JSON value recursively: object values whose key matches a
/// sensitive field name are replaced with `[REDACTED]` while the key is
/// preserved (so the payload shape stays readable); arrays recurse
/// element-wise; primitive values are returned untouched.
pub fn redact_json_body(value: &JsonValue) -> (r: JsonValue)
    ensures
        r@ == redact_model(value@),
    decreases value,
{
    match value {
        JsonValue::Object(entries) => {
            let mut out: Vec<(String, JsonValue)> = Vec::new();
            let mut i: usize = 0;
            while i < entries.len()
                invariant
                    *value == JsonValue::Object(*entries),
                    0 <= i <= entries@.len(),
                    out@.len() == i,
                    forall|j: int|
                        0 <= j < i ==> (#[trigger] out@[j]).0@ == entries@[j].0@ && out@[j].1@
                            == (if sensitive_field(entries@[j].0@) {
                            JsonModel::String("[REDACTED]"@)
                        } else {
                            redact_model(entries@[j].1@)
                        }),
                decreases entries@.len() - i,
            {
                let key = &entries[i].0;
                if is_sensitive_field_name(key.as_str()) {
                    out.push((key.clone(), JsonValue::String(REDACTED.to_owned())));
                } else {
                    assert(decreases_to!(*value => (*value)->Object_0));
                    assert(decreases_to!(*entries => entries@));
                    assert(decreases_to!(entries@ => entries@[i as int]));
                    assert(decreases_to!(entries@[i as int] => entries@[i as int].1));
                    let inner = redact_json_body(&entries[i].1);
                    out.push((key.clone(), inner));
                }
                i = i + 1;
            }
            let r = JsonValue::Object(out);
            assert(r@ == redact_model(value@)) by {
                if let (JsonModel::Object(rm), JsonModel::Object(em)) = (r@, redact_model(value@)) {
                    assert(rm =~= em);
                }
            }
            r
        },
        JsonValue::Array(items) => {
            let mut out: Vec<JsonValue> = Vec::new();
            let mut i: usize = 0;
            while i < items.len()
                invariant
                    *value == JsonValue::Array(*items),
                    0 <= i <= items@.len(),
                    out@.len() == i,
                    forall|j: int| 0 <= j < i ==> (#[trigger] out@[j])@ == redact_model(items@[j]@),
                decreases items@.len() - i,
            {
                assert(decreases_to!(*value => (*value)->Array_0));
                assert(decreases_to!(*items => items@));
                assert(decreases_to!(items@ => items@[i as int]));
                let inner = redact_json_body(&items[i]);
                out.push(inner);
                i = i + 1;
            }
            let r = JsonValue::Array(out);
            assert(r@ == redact_model(value@)) by {
                if let (JsonModel::Array(rm), JsonModel::Array(em)) = (r@, redact_model(value@)) {
                    assert(rm =~= em);
                }
            }
            r
        },
        JsonValue::Null => JsonValue::Null,
        JsonValue::Bool(b) => JsonValue::Bool(*b),
        JsonValue::Number(n) => JsonValue::Number(n.clone()),
        JsonValue::String(s) => JsonValue::String(s.clone()),
    }
}

/// `s` without all of its leading `c` characters (std `trim_start_matches`).
pub open spec fn strip_leading(s: Seq<char>, c: char) -> Seq<char>
    decreases s.len(),
{
    if s.len() > 0 && s[0] == c {
        strip_leading(s.drop_first(), c)
    } else {
        s
    }
}

/// `s` without all of its trailing `c` characters (std `trim_end_matches`).
pub open spec fn strip_trailing(s: Seq<char>, c: char) -> Seq<char>
    decreases s.len(),
{
    if s.len() > 0 && s.last() == c {
        strip_trailing(s.drop_last(), c)
    } else {
        s
    }
}

/// Stored form of one line of a non-JSON body: a `key=value` line or a
/// `"key": value` line (detected by its first separator) whose key is a
/// sensitive field name gets its value replaced; other lines are unchanged.
pub open spec fn line_redaction(line: Seq<char>) -> Seq<char> {
    match split_once(line, '=') {
        Some((key, _)) if sensitive_field(trim(key)) => key + "=[REDACTED]"@,
        _ => match split_once(line, ':') {
            Some((key, value)) => {
                let k = trim(key);
                let unquoted = strip_trailing(strip_leading(k, '"'), '"');
                if sensitive_field(unquoted) {
                    if has_prefix(trim_start(value), "\""@) {
                        k + ": \"[REDACTED]\""@
                    } else {
                        k + ": [REDACTED]"@
                    }
                } else {
                    line
                }
            },
            None => line,
        },
    }
}

/// A line without its `\r` when that preceded the line's `\n`.
pub open spec fn strip_cr(line: Seq<char>) -> Seq<char> {
    if line.len() > 0 && line.last() == '\r' {
        line.drop_last()
    } else {
        line
    }
}

/// std `str::lines`: pieces between `\n`, each without the `\r` of a `\r\n`
/// ending; a final empty piece (after a trailing `\n`) is not a line.
pub open spec fn text_lines(s: Seq<char>) -> Seq<Seq<char>> {
    let pieces = split(s, '\n');
    let n = pieces.len() as int;
    let init = Seq::new((n - 1) as nat, |i: int| strip_cr(pieces[i]));
    if pieces[n - 1].len() == 0 {
        init
    } else {
        init.push(pieces[n - 1])
    }
}

/// Line-oriented redaction of a non-JSON body.
pub open spec fn text_redaction(s: Seq<char>) -> Seq<char> {
    let lines = text_lines(s);
    join(Seq::new(lines.len(), |i: int| line_redaction(lines[i])), '\n')
}

fn strip_leading_exec(v: &[char], c: char) -> (r: Vec<char>)
    ensures
        r@ == strip_leading(v@, c),
{
    let mut start: usize = 0;
    assert(v@.skip(0) =~= v@);
    while start < v.len() && v[start] == c
        invariant
            start <= v.len(),
            strip_leading(v@, c) == strip_leading(v@.skip(start as int), c),
        decreases v.len() - start,
    {
        assert(v@.skip(start as int).drop_first() =~= v@.skip(start + 1));
        start = start + 1;
    }
    let r = subvec(v, start, v.len());
    assert(r@ =~= v@.skip(start as int));
    r
}

fn strip_trailing_exec(v: &[char], c: char) -> (r: Vec<char>)
    ensures
        r@ == strip_trailing(v@, c),
{
    let mut end: usize = v.len();
    assert(v@.take(v.len() as int) =~= v@);
    while end > 0 && v[end - 1] == c
        invariant
            end <= v.len(),
            strip_trailing(v@, c) == strip_trailing(v@.take(end as int), c),
        decreases end,
    {
        assert(v@.take(end as int).drop_last() =~= v@.take(end - 1));
        end = end - 1;
    }
    let r = subvec(v, 0, end);
    assert(r@ =~= v@.take(end as int));
    r
}

fn concat_str(a: &[char], b: &str) -> (r: Vec<char>)
    ensures
        r@ == a@ + b@,
{
    let mut r = subvec(a, 0, a.len());
    assert(r@ =~= a@);
    let bv = chars_of(b);
    push_all(&mut r, bv.as_slice());
    r
}

fn redact_text_line(line: &[char]) -> (r: Vec<char>)
    ensures
        r@ == line_redaction(line@),
{
    match split_once_chars(line, '=') {
        Some((key, _)) => {
            let tk = trimmed(key.as_slice());
            if is_sensitive_field_chars(tk.as_slice()) {
                return concat_str(key.as_slice(), "=[REDACTED]");
            }
        },
        None => {},
    }
    match split_once_chars(line, ':') {
        Some((key, value)) => {
            let k = trimmed(key.as_slice());
            let unquoted = strip_trailing_exec(strip_leading_exec(k.as_slice(), '"').as_slice(), '"');
            if is_sensitive_field_chars(unquoted.as_slice()) {
                let start = trim_start_index(value.as_slice());
                if start < value.len() && value[start] == '"' {
                    proof {
                        reveal_strlit("\"");
                        assert(trim_start(value@).subrange(0, 1) =~= "\""@);
                    }
                    concat_str(k.as_slice(), ": \"[REDACTED]\"")
                } else {
                    proof {
                        reveal_strlit("\"");
                        if has_prefix(trim_start(value@), "\""@) {
                            assert(trim_start(value@).subrange(0, 1)[0] == '"');
                        }
                    }
                    concat_str(k.as_slice(), ": [REDACTED]")
                }
            } else {
                subvec(line, 0, line.len())
            }
        },
        None => subvec(line, 0, line.len()),
    }
}

/// Pieces joined with a separator.
pub fn join_chars(pieces: &Vec<Vec<char>>, sep: char) -> (r: Vec<char>)
    ensures
        r@ == join(pieces_view(pieces@), sep),
{
    let ghost ps = pieces_view(pieces@);
    let mut out: Vec<char> = Vec::new();
    let mut i: usize = 0;
    assert(ps.take(0) =~= Seq::<Seq<char>>::empty());
    while i < pieces.len()
        invariant
            ps == pieces_view(pieces@),
            0 <= i <= pieces.len(),
            out@ == join(ps.take(i as int), sep),
        decreases pieces.len() - i,
    {
        assert(ps.take(i + 1).drop_last() =~= ps.take(i as int));
        assert(ps.take(i + 1).last() == pieces@[i as int]@);
        if i > 0 {
            out.push(sep);
        }
        let ghost before = out@;
        push_all(&mut out, pieces[i].as_slice());
        assert(i == 0 ==> ps.take(i + 1) =~= seq![pieces@[i as int]@]);
        assert(i == 0 ==> out@ =~= pieces@[i as int]@);
        i = i + 1;
    }
    assert(ps.take(pieces.len() as int) =~= ps);
    out
}

/// Line-oriented redaction of a non-JSON body.
fn redact_text_lines(text: &[char]) -> (r: Vec<char>)
    ensures
        r@ == text_redaction(text@),
{
    let pieces = split_chars(text, '\n');
    let ghost ps = pieces_view(pieces@);
    assert(ps.len() >= 1);
    let n = pieces.len();
    let mut redacted: Vec<Vec<char>> = Vec::new();
    let mut i: usize = 0;
    while i + 1 < n
        invariant
            ps == pieces_view(pieces@),
            n == pieces.len(),
            n >= 1,
            0 <= i <= n - 1,
            redacted@.len() == i,
            forall|j: int|
                0 <= j < i ==> (#[trigger] redacted@[j])@ == line_redaction(strip_cr(ps[j])),
        decreases n - i,
    {
        let p = &pieces[i];
        let line = if p.len() > 0 && p[p.len() - 1] == '\r' {
            subvec(p.as_slice(), 0, p.len() - 1)
        } else {
            subvec(p.as_slice(), 0, p.len())
        };
        assert(line@ =~= strip_cr(ps[i as int]));
        redacted.push(redact_text_line(line.as_slice()));
        i = i + 1;
    }
    let last = &pieces[n - 1];
    if last.len() > 0 {
        redacted.push(redact_text_line(last.as_slice()));
    }
    let ghost lines = text_lines(text@);
    assert(pieces_view(redacted@) =~= Seq::new(lines.len(), |k: int| line_redaction(lines[k])));
    join_chars(&redacted, '\n')
}

/// Outcome of redacting a captured body.
#[derive(Debug, PartialEq, Eq)]
pub enum RedactedBody {
    /// Nothing to store.
    Empty,
    /// A JSON body, structurally redacted (rendered by the caller).
    Json(JsonValue),
    /// A non-JSON body, redacted line by line.
    Text(String),
}

/// Model of a [`RedactedBody`].
pub enum RedactedBodyModel {
    Empty,
    Json(JsonModel),
    Text(Seq<char>),
}

impl View for RedactedBody {
    type V = RedactedBodyModel;

    open spec fn view(&self) -> RedactedBodyModel {
        match self {
            RedactedBody::Empty => RedactedBodyModel::Empty,
            RedactedBody::Json(v) => RedactedBodyModel::Json(v@),
            RedactedBody::Text(t) => RedactedBodyModel::Text(t@),
        }
    }
}

/// Redaction of body text `text`, where `parsed` is the JSON document the
/// text parses to (`None` when it is not JSON).
pub open spec fn body_redaction(text: Seq<char>, parsed: Option<JsonModel>) -> RedactedBodyModel {
    if trim(text).len() == 0 {
        RedactedBodyModel::Empty
    } else {
        match parsed {
            Some(doc) => RedactedBodyModel::Json(redact_model(doc)),
            None => {
                let red = text_redaction(text);
                if trim(red).len() == 0 {
                    RedactedBodyModel::Empty
                } else {
                    RedactedBodyModel::Text(red)
                }
            },
        }
    }
}

/// The model of an optional JSON document.
pub open spec fn opt_json(o: Option<JsonValue>) -> Option<JsonModel> {
    match o {
        Some(v) => Some(v@),
        None => None,
    }
}

/// The redaction step of [`redact_body_text`]: `parsed` is the JSON
/// document `text` parses to, or `None` when the text is not JSON:
/// JSON bodies are redacted structurally (shape preserved, sensitive values
/// replaced); other bodies get a conservative line-oriented replacement.
/// Blank input, or a redaction that leaves only whitespace, gives `Empty`.
pub fn redact_body_document(text: &str, parsed: Option<JsonValue>) -> (r: RedactedBody)
    ensures
        r@ == body_redaction(text@, opt_json(parsed)),
{
    let tv = chars_of(text);
    let t = trimmed(tv.as_slice());
    if t.len() == 0 {
        return RedactedBody::Empty;
    }
    match parsed {
        Some(doc) => RedactedBody::Json(redact_json_body(&doc)),
        None => {
            let red = redact_text_lines(tv.as_slice());
            let rt = trimmed(red.as_slice());
            if rt.len() == 0 {
                RedactedBody::Empty
            } else {
                RedactedBody::Text(string_of(red.as_slice()))
            }
        },
    }
}

/// Stored form of body text: `None` when there is nothing to store, the
/// rendered redacted document for a JSON body, else the redacted text.
pub open spec fn body_text_redaction(text: Seq<char>) -> Option<Seq<char>> {
    match body_redaction(text, json_document_of(text)) {
        RedactedBodyModel::Empty => None,
        RedactedBodyModel::Json(m) => Some(json_text_of(m)),
        RedactedBodyModel::Text(t) => Some(t),
    }
}

/// Redacts request/response body text before persistence. JSON bodies are
/// parsed and redacted structurally (shape preserved, sensitive values
/// replaced) and rendered as compact JSON; non-JSON bodies get a
/// conservative line-oriented replacement. Returns `None` when there is
/// nothing to store.
pub fn redact_body_text(text: &str) -> (r: Option<String>)
    ensures
        opt_chars(r) == body_text_redaction(text@),
{
    let parsed = parse_json_document(text);
    match redact_body_document(text, parsed) {
        RedactedBody::Empty => None,
        RedactedBody::Json(doc) => Some(render_json_document(&doc)),
        RedactedBody::Text(t) => Some(t),
    }
}

/// Stored form of body text cut to `max_chars` characters (at least one).
pub open spec fn truncation(text: Seq<char>, max_chars: usize) -> Seq<char> {
    let max = if max_chars < 1 {
        1
    } else {
        max_chars as int
    };
    if text.len() <= max {
        text
    } else {
        text.take(max) + "[TRUNCATED]"@
    }
}

/// Truncates body text to at most `max_chars` characters, appending a
/// `[TRUNCATED]` marker when the input was cut.
pub fn truncate_body_text(text: &str, max_chars: usize) -> (r: String)
    ensures
        r@ == truncation(text@, max_chars),
{
    let max: usize = if max_chars < 1 {
        1
    } else {
        max_chars
    };
    let tv = chars_of(text);
    if tv.len() <= max {
        text.to_owned()
    } else {
        let head = subvec(tv.as_slice(), 0, max);
        let out = concat_str(head.as_slice(), "[TRUNCATED]");
        string_of(out.as_slice())
    }
}

/// Two JSON documents have the same shape: the same kinds of values, the
/// same object keys in the same order, and arrays of the same length, at
/// every depth (primitive values may differ).
pub open spec fn same_shape(a: JsonModel, b: JsonModel) -> bool
    decreases a,
{
    match (a, b) {
        (JsonModel::Object(xs), JsonModel::Object(ys)) => xs.len() == ys.len() && forall|i: int|
            0 <= i < xs.len() ==> #[trigger] xs[i].0 == ys[i].0 && (sensitive_field(xs[i].0) || same_shape(
                xs[i].1,
                ys[i].1,
            )),
        (JsonModel::Array(xs), JsonModel::Array(ys)) => xs.len() == ys.len() && forall|i: int|
            0 <= i < xs.len() ==> same_shape(#[trigger] xs[i], ys[i]),
        (JsonModel::Null, JsonModel::Null) => true,
        (JsonModel::Bool(_), JsonModel::Bool(_)) => true,
        (JsonModel::Number(_), JsonModel::Number(_)) => true,
        (JsonModel::String(_), JsonModel::String(_)) => true,
        _ => false,
    }
}

/// Body redaction keeps the payload's shape: every key stays in place and
/// only the values under sensitive keys change (to `"[REDACTED]"`).
pub proof fn lemma_redaction_preserves_shape(m: JsonModel)
    ensures
        same_shape(m, redact_model(m)),
    decreases m,
{
    match m {
        JsonModel::Object(xs) => {
            assert forall|i: int| 0 <= i < xs.len() && !sensitive_field(xs[i].0) implies same_shape(
                xs[i].1,
                redact_model(xs[i].1),
            ) by {
                assert(decreases_to!(m => xs));
                assert(decreases_to!(xs => xs[i]));
                assert(decreases_to!(xs[i] => xs[i].1));
                lemma_redaction_preserves_shape(xs[i].1);
            }
        },
        JsonModel::Array(xs) => {
            assert forall|i: int| 0 <= i < xs.len() implies same_shape(
                xs[i],
                redact_model(xs[i]),
            ) by {
                assert(decreases_to!(m => xs));
                assert(decreases_to!(xs => xs[i]));
                lemma_redaction_preserves_shape(xs[i]);
            }
        },
        _ => {},
    }
}

/// No sensitive member survives body redaction: in the redacted document
/// every member whose key is a sensitive field name holds `"[REDACTED]"`,
/// at every depth.
pub open spec fn no_secret_values(m: JsonModel) -> bool
    decreases m,
{
    match m {
        JsonModel::Object(xs) => forall|i: int|
            0 <= i < xs.len() ==> if sensitive_field(#[trigger] xs[i].0) {
                xs[i].1 == JsonModel::String("[REDACTED]"@)
            } else {
                no_secret_values(xs[i].1)
            },
        JsonModel::Array(xs) => forall|i: int| 0 <= i < xs.len() ==> no_secret_values(#[trigger] xs[i]),
        _ => true,
    }
}

/// Every value under a sensitive key is replaced, at every depth.
pub proof fn lemma_redaction_hides_secrets(m: JsonModel)
    ensures
        no_secret_values(redact_model(m)),
    decreases m,
{
    match m {
        JsonModel::Object(xs) => {
            let r = redact_model(m);
            assert forall|i: int| 0 <= i < xs.len() && !sensitive_field(xs[i].0) implies no_secret_values(
                redact_model(xs[i].1),
            ) by {
                assert(decreases_to!(m => xs));
                assert(decreases_to!(xs => xs[i]));
                assert(decreases_to!(xs[i] => xs[i].1));
                lemma_redaction_hides_secrets(xs[i].1);
            }
        },
        JsonModel::Array(xs) => {
            assert forall|i: int| 0 <= i < xs.len() implies no_secret_values(redact_model(xs[i])) by {
                assert(decreases_to!(m => xs));
                assert(decreases_to!(xs => xs[i]));
                lemma_redaction_hides_secrets(xs[i]);
            }
        },
        _ => {},
    }
}

/// Redacting an already redacted body changes nothing.
pub proof fn lemma_redaction_idempotent(m: JsonModel)
    ensures
        redact_model(redact_model(m)) == redact_model(m),
    decreases m,
{
    match m {
        JsonModel::Object(xs) => {
            let once = redact_model(m);
            let twice = redact_model(once);
            if let (JsonModel::Object(ys), JsonModel::Object(zs)) = (once, twice) {
                assert forall|i: int| 0 <= i < xs.len() implies zs[i] == ys[i] by {
                    if !sensitive_field(xs[i].0) {
                        assert(decreases_to!(m => xs));
                        assert(decreases_to!(xs => xs[i]));
                        assert(decreases_to!(xs[i] => xs[i].1));
                        lemma_redaction_idempotent(xs[i].1);
                    }
                }
                assert(zs =~= ys);
            }
        },
        JsonModel::Array(xs) => {
            let once = redact_model(m);
            let twice = redact_model(once);
            if let (JsonModel::Array(ys), JsonModel::Array(zs)) = (once, twice) {
                assert forall|i: int| 0 <= i < xs.len() implies zs[i] == ys[i] by {
                    assert(decreases_to!(m => xs));
                    assert(decreases_to!(xs => xs[i]));
                    lemma_redaction_idempotent(xs[i]);
                }
                assert(zs =~= ys);
            }
        },
        _ => {},
    }
}

/// Captured headers never include a credential, cookie or idempotency
/// header, and only allow-listed names are kept.
pub proof fn lemma_captured_headers_are_safe(headers: Seq<(Seq<char>, Seq<char>)>)
    ensures
        forall|i: int|
            0 <= i < safe_header_entries(headers).len() ==> {
                let name = #[trigger] safe_header_entries(headers)[i].0;
                !sensitive_header(name) && allowed_header(name)
            },
    decreases headers.len(),
{
    if headers.len() > 0 {
        lemma_captured_headers_are_safe(headers.drop_last());
        let acc = safe_header_entries(headers.drop_last());
        let (name, value) = headers.last();
        let all = safe_header_entries(headers);
        if safe_header(name) {
            assert(all == acc.push((normalized_name(name), redacted_value(name, value))));
            assert forall|i: int| 0 <= i < all.len() implies {
                let n = #[trigger] all[i].0;
                !sensitive_header(n) && allowed_header(n)
            } by {
                if i < acc.len() {
                    assert(all[i] == acc[i]);
                }
            }
        } else {
            assert(all == acc);
        }
    }
}

// ---------------------------------------------------------------------------
// Laws of field-name matching
// ---------------------------------------------------------------------------

proof fn lemma_lower_keeps_ws(c: char)
    ensures
        is_ws(ascii_lower(c)) == is_ws(c),
        ascii_lower(ascii_lower(c)) == ascii_lower(c),
{
}

proof fn lemma_trim_start_shape(s: Seq<char>)
    ensures
        trim_start(s).len() == 0 || !is_ws(trim_start(s)[0]),
        exists|k: int| 0 <= k <= s.len() && trim_start(s) == s.skip(k),
    decreases s.len(),
{
    if s.len() > 0 && is_ws(s[0]) {
        lemma_trim_start_shape(s.drop_first());
        let k = choose|k: int| 0 <= k <= s.drop_first().len() && trim_start(s.drop_first()) == s.drop_first().skip(k);
        assert(s.drop_first().skip(k) =~= s.skip(k + 1));
    } else {
        assert(s.skip(0) =~= s);
    }
}

proof fn lemma_trim_end_shape(s: Seq<char>)
    ensures
        trim_end(s).len() == 0 || !is_ws(trim_end(s).last()),
        exists|k: int| 0 <= k <= s.len() && trim_end(s) == s.take(k),
    decreases s.len(),
{
    if s.len() > 0 && is_ws(s.last()) {
        lemma_trim_end_shape(s.drop_last());
        let k = choose|k: int| 0 <= k <= s.drop_last().len() && trim_end(s.drop_last()) == s.drop_last().take(k);
        assert(s.drop_last().take(k) =~= s.take(k));
    } else {
        assert(s.take(s.len() as int) =~= s);
    }
}

/// Trimmed text has no whitespace at either end.
proof fn lemma_trim_ends(s: Seq<char>)
    ensures
        trim(s).len() == 0 || (!is_ws(trim(s)[0]) && !is_ws(trim(s).last())),
{
    let t = trim_start(s);
    lemma_trim_start_shape(s);
    lemma_trim_end_shape(t);
    let k = choose|k: int| 0 <= k <= t.len() && trim_end(t) == t.take(k);
    if trim(s).len() > 0 {
        assert(trim(s)[0] == t[0]);
    }
}

/// Text with no whitespace at either end is its own trim.
proof fn lemma_trim_of_trimmed(s: Seq<char>)
    requires
        s.len() == 0 || (!is_ws(s[0]) && !is_ws(s.last())),
    ensures
        trim(s) == s,
{
}

/// Normalizing a normalized name changes nothing.
proof fn lemma_normalized_name_idempotent(name: Seq<char>)
    ensures
        normalized_name(normalized_name(name)) == normalized_name(name),
{
    let t = trim(name);
    let n = lower(t);
    lemma_trim_ends(name);
    if t.len() > 0 {
        lemma_lower_keeps_ws(t[0]);
        lemma_lower_keeps_ws(t.last());
        assert(n[0] == ascii_lower(t[0]));
        assert(n.last() == ascii_lower(t.last()));
    }
    lemma_trim_of_trimmed(n);
    assert forall|i: int| 0 <= i < n.len() implies #[trigger] lower(n)[i] == n[i] by {
        lemma_lower_keeps_ws(t[i]);
    }
    assert(lower(n) =~= n);
}

/// Whether a field name is sensitive depends only on its trimmed,
/// lower-cased form: surrounding whitespace and ASCII case never matter.
pub proof fn lemma_sensitivity_ignores_case_and_padding(name: Seq<char>)
    ensures
        sensitive_field(normalized_name(name)) == sensitive_field(name),
{
    lemma_normalized_name_idempotent(name);
}

proof fn lemma_trim_start_around(a: Seq<char>, m: Seq<char>, b: Seq<char>)
    requires
        m.len() > 0,
        !is_ws(m[0]),
    ensures
        exists|k: int| 0 <= k <= a.len() && trim_start(a + m + b) == a.skip(k) + m + b,
    decreases a.len(),
{
    if a.len() == 0 {
        assert(a + m + b =~= a.skip(0) + m + b);
        assert((a + m + b)[0] == m[0]);
    } else if is_ws(a[0]) {
        let rest = a.drop_first();
        lemma_trim_start_around(rest, m, b);
        assert((a + m + b).drop_first() =~= rest + m + b);
        let k = choose|k: int| 0 <= k <= rest.len() && trim_start(rest + m + b) == rest.skip(k) + m + b;
        assert(rest.skip(k) =~= a.skip(k + 1));
    } else {
        assert(a + m + b =~= a.skip(0) + m + b);
    }
}

proof fn lemma_trim_end_around(c: Seq<char>, m: Seq<char>, d: Seq<char>)
    requires
        m.len() > 0,
        !is_ws(m.last()),
    ensures
        exists|j: int| 0 <= j <= d.len() && trim_end(c + m + d) == c + m + d.take(j),
    decreases d.len(),
{
    if d.len() == 0 {
        assert(c + m + d =~= c + m + d.take(0));
        assert((c + m + d).last() == m.last());
    } else if is_ws(d.last()) {
        let rest = d.drop_last();
        lemma_trim_end_around(c, m, rest);
        assert((c + m + d).drop_last() =~= c + m + rest);
        let j = choose|j: int| 0 <= j <= rest.len() && trim_end(c + m + rest) == c + m + rest.take(j);
        assert(rest.take(j) =~= d.take(j));
    } else {
        assert(c + m + d =~= c + m + d.take(d.len() as int));
    }
}

/// A secret fragment (`password`, `secret`, `token`, `api_key`, `apikey`,
/// `signature`, `verification_code`, `verificationcode`, `verify_code`,
/// `verifycode`, `sms_code`, `otp`), written in any ASCII case anywhere in a
/// field name, makes the field sensitive.
pub proof fn lemma_secret_fragment_anywhere_is_sensitive(a: Seq<char>, m: Seq<char>, b: Seq<char>)
    requires
        ({
            let f = lower(m);
            ||| f == "password"@
            ||| f == "secret"@
            ||| f == "token"@
            ||| f == "api_key"@
            ||| f == "apikey"@
            ||| f == "signature"@
            ||| f == "verification_code"@
            ||| f == "verificationcode"@
            ||| f == "verify_code"@
            ||| f == "verifycode"@
            ||| f == "sms_code"@
            ||| f == "otp"@
        }),
    ensures
        sensitive_field(a + m + b),
{
    reveal_strlit("password");
    reveal_strlit("secret");
    reveal_strlit("token");
    reveal_strlit("api_key");
    reveal_strlit("apikey");
    reveal_strlit("signature");
    reveal_strlit("verification_code");
    reveal_strlit("verificationcode");
    reveal_strlit("verify_code");
    reveal_strlit("verifycode");
    reveal_strlit("sms_code");
    reveal_strlit("otp");
    let f = lower(m);
    assert(f.len() > 0 && !is_ws(f[0]) && !is_ws(f.last()));
    lemma_lower_keeps_ws(m[0]);
    lemma_lower_keeps_ws(m.last());
    assert(f[0] == ascii_lower(m[0]));
    assert(f.last() == ascii_lower(m.last()));
    lemma_trim_start_around(a, m, b);
    let k = choose|k: int| 0 <= k <= a.len() && trim_start(a + m + b) == a.skip(k) + m + b;
    let x = a.skip(k);
    lemma_trim_end_around(x, m, b);
    let j = choose|j: int| 0 <= j <= b.len() && trim_end(x + m + b) == x + m + b.take(j);
    let y = b.take(j);
    assert(trim(a + m + b) == x + m + y);
    let n = lower(x + m + y);
    assert(n =~= lower(x) + f + lower(y));
    assert(n.subrange(x.len() as int, (x.len() + f.len()) as int) =~= f);
    assert(occurs_at(n, f, x.len() as int));
    assert(contains(n, f));
    assert(normalized_name(a + m + b) == n);
}

// ---------------------------------------------------------------------------
// Laws of query redaction
// ---------------------------------------------------------------------------

/// `c` does not occur in `s`.
spec fn lacks(s: Seq<char>, c: char) -> bool {
    forall|j: int| 0 <= j < s.len() ==> #[trigger] s[j] != c
}

/// The first occurrence of `c` is at `k` when `s[k] == c` and no earlier
/// character is `c`.
proof fn lemma_find_at(s: Seq<char>, c: char, k: int)
    requires
        0 <= k < s.len(),
        s[k] == c,
        lacks(s.take(k), c),
    ensures
        find(s, c) == k,
{
    lemma_find_from_bounds(s, c, 0);
    let r = find_from(s, c, 0);
    if r != k {
        if r >= 0 && r < k {
            assert(s.take(k)[r] == s[r]);
        }
    }
}

proof fn lemma_find_none(s: Seq<char>, c: char)
    requires
        lacks(s, c),
    ensures
        find(s, c) == -1,
{
    lemma_find_from_bounds(s, c, 0);
}

/// The non-empty pairs of a split query, redacted, in order.
spec fn nonempty_redacted(pairs: Seq<Seq<char>>) -> Seq<Seq<char>>
    decreases pairs.len(),
{
    if pairs.len() == 0 {
        Seq::empty()
    } else {
        let acc = nonempty_redacted(pairs.drop_last());
        if pairs.last().len() == 0 {
            acc
        } else {
            acc.push(redacted_pair(pairs.last()))
        }
    }
}

proof fn lemma_redacted_pair_shape(pair: Seq<char>)
    requires
        pair.len() > 0,
        lacks(pair, '&'),
    ensures
        redacted_pair(pair).len() > 0,
        lacks(redacted_pair(pair), '&'),
        redacted_pair(redacted_pair(pair)) == redacted_pair(pair),
{
    reveal_strlit("=");
    reveal_strlit("[REDACTED]");
    match split_once(pair, '=') {
        Some((key, value)) => {
            let i = find(pair, '=');
            lemma_find_from_bounds(pair, '=', 0);
            let rv = redacted_value(key, value);
            let rp = key + "="@ + rv;
            assert(lacks(rp, '&')) by {
                assert forall|j: int| 0 <= j < rp.len() implies #[trigger] rp[j] != '&' by {
                    if j < key.len() {
                        assert(rp[j] == pair[j]);
                    } else if j > key.len() {
                        if !sensitive_field(key) {
                            assert(rp[j] == pair[j]);
                        }
                    }
                }
            }
            assert(lacks(rp.take(key.len() as int), '=')) by {
                assert forall|j: int| 0 <= j < key.len() implies #[trigger] rp.take(key.len() as int)[j] != '=' by {
                    assert(rp[j] == pair[j]);
                }
            }
            lemma_find_at(rp, '=', key.len() as int);
            assert(rp.take(key.len() as int) =~= key);
            assert(rp.skip(key.len() as int + 1) =~= rv);
        },
        None => {},
    }
}

proof fn lemma_nonempty_redacted_shape(pairs: Seq<Seq<char>>)
    requires
        forall|i: int| 0 <= i < pairs.len() ==> lacks(#[trigger] pairs[i], '&'),
    ensures
        redacted_pairs(pairs) == join(nonempty_redacted(pairs), '&'),
        forall|i: int|
            0 <= i < nonempty_redacted(pairs).len() ==> {
                let y = #[trigger] nonempty_redacted(pairs)[i];
                &&& y.len() > 0
                &&& lacks(y, '&')
                &&& redacted_pair(y) == y
            },
    decreases pairs.len(),
{
    reveal_strlit("&");
    if pairs.len() > 0 {
        let prev = pairs.drop_last();
        assert forall|i: int| 0 <= i < prev.len() implies lacks(#[trigger] prev[i], '&') by {
            assert(prev[i] == pairs[i]);
        }
        lemma_nonempty_redacted_shape(prev);
        let acc = nonempty_redacted(prev);
        let last = pairs.last();
        assert(lacks(pairs[pairs.len() - 1], '&'));
        if last.len() > 0 {
            lemma_redacted_pair_shape(last);
            let all = nonempty_redacted(pairs);
            assert(all == acc.push(redacted_pair(last)));
            assert forall|i: int| 0 <= i < all.len() implies {
                let y = #[trigger] all[i];
                &&& y.len() > 0
                &&& lacks(y, '&')
                &&& redacted_pair(y) == y
            } by {
                if i < acc.len() {
                    assert(all[i] == acc[i]);
                }
            }
            if acc.len() == 0 {
                assert(redacted_pairs(prev).len() == 0);
                assert(all =~= seq![redacted_pair(last)]);
            } else {
                assert(acc[0].len() > 0);
                lemma_join_nonempty(acc, '&');
                assert(all.drop_last() =~= acc);
            }
        }
    }
}

proof fn lemma_join_nonempty(xs: Seq<Seq<char>>, c: char)
    requires
        xs.len() > 0,
        xs[0].len() > 0,
    ensures
        join(xs, c).len() > 0,
    decreases xs.len(),
{
    if xs.len() > 1 {
        lemma_join_nonempty(xs.drop_last(), c);
    }
}

/// Joining from the front: the first piece, the separator, then the rest.
proof fn lemma_join_front(xs: Seq<Seq<char>>, c: char)
    requires
        xs.len() >= 2,
    ensures
        join(xs, c) == xs[0] + seq![c] + join(xs.drop_first(), c),
    decreases xs.len(),
{
    let d = xs.drop_first();
    if xs.len() > 2 {
        lemma_join_front(xs.drop_last(), c);
        assert(xs.drop_last().drop_first() =~= d.drop_last());
        assert(xs.drop_last()[0] == xs[0]);
        assert(d.last() == xs.last());
        assert(join(d, c) == join(d.drop_last(), c) + seq![c] + d.last());
        assert(join(xs, c) == join(xs.drop_last(), c) + seq![c] + xs.last());
        assert(join(xs, c) =~= xs[0] + seq![c] + join(d, c));
    } else {
        assert(xs.drop_last().len() == 1);
        assert(join(xs.drop_last(), c) == xs[0]);
        assert(d.len() == 1);
        assert(join(d, c) == xs[1]);
        assert(join(xs, c) == join(xs.drop_last(), c) + seq![c] + xs.last());
    }
}

/// Splitting joined pieces that lack the separator gives the pieces back.
proof fn lemma_split_join(xs: Seq<Seq<char>>, c: char)
    requires
        xs.len() > 0,
        forall|i: int| 0 <= i < xs.len() ==> lacks(#[trigger] xs[i], c),
    ensures
        split(join(xs, c), c) == xs,
    decreases xs.len(),
{
    if xs.len() == 1 {
        assert(lacks(xs[0], c));
        lemma_find_none(xs[0], c);
        assert(seq![xs[0]] =~= xs);
    } else {
        let rest = xs.drop_first();
        assert forall|i: int| 0 <= i < rest.len() implies lacks(#[trigger] rest[i], c) by {
            assert(rest[i] == xs[i + 1]);
        }
        lemma_split_join(rest, c);
        lemma_join_front(xs, c);
        let s = join(xs, c);
        let k = xs[0].len() as int;
        assert(lacks(xs[0], c));
        assert(s.take(k) =~= xs[0]);
        lemma_find_at(s, c, k);
        assert(s.skip(k + 1) =~= join(rest, c));
        assert(split(s, c) =~= seq![xs[0]] + rest);
        assert(seq![xs[0]] + rest =~= xs);
    }
}

proof fn lemma_split_pieces_lack(s: Seq<char>, c: char)
    ensures
        forall|i: int| 0 <= i < split(s, c).len() ==> lacks(#[trigger] split(s, c)[i], c),
    decreases s.len(),
{
    let i = find(s, c);
    lemma_find_from_bounds(s, c, 0);
    if i >= 0 {
        lemma_split_pieces_lack(s.skip(i + 1), c);
        let all = split(s, c);
        assert forall|j: int| 0 <= j < all.len() implies lacks(#[trigger] all[j], c) by {
            if j > 0 {
                assert(all[j] == split(s.skip(i + 1), c)[j - 1]);
            }
        }
    }
}

proof fn lemma_nonempty_redacted_fixed(ys: Seq<Seq<char>>)
    requires
        forall|i: int| 0 <= i < ys.len() ==> (#[trigger] ys[i]).len() > 0 && redacted_pair(ys[i]) == ys[i],
    ensures
        nonempty_redacted(ys) == ys,
    decreases ys.len(),
{
    if ys.len() > 0 {
        let prev = ys.drop_last();
        assert forall|i: int| 0 <= i < prev.len() implies (#[trigger] prev[i]).len() > 0 && redacted_pair(prev[i]) == prev[i] by {
            assert(prev[i] == ys[i]);
        }
        lemma_nonempty_redacted_fixed(prev);
        assert(ys[ys.len() - 1].len() > 0);
        assert(prev.push(ys.last()) =~= ys);
    }
}

/// Redacting an already redacted query string changes nothing (when the
/// stored form is not blank): pairs keep their order, redacted values stay
/// `[REDACTED]` and safe values stay as they are.
pub proof fn lemma_query_redaction_idempotent(q: Seq<char>)
    requires
        query_redaction(Some(q)) matches Some(s) && trim(s).len() > 0,
    ensures
        query_redaction(query_redaction(Some(q))) == query_redaction(Some(q)),
{
    let pairs = split(q, '&');
    lemma_split_pieces_lack(q, '&');
    lemma_nonempty_redacted_shape(pairs);
    let ys = nonempty_redacted(pairs);
    let out = redacted_pairs(pairs);
    assert(out == join(ys, '&'));
    if ys.len() == 0 {
        assert(out.len() == 0);
    }
    assert forall|i: int| 0 <= i < ys.len() implies lacks(#[trigger] ys[i], '&') by {}
    lemma_split_join(ys, '&');
    assert forall|i: int| 0 <= i < ys.len() implies (#[trigger] ys[i]).len() > 0 && redacted_pair(ys[i]) == ys[i] by {}
    lemma_nonempty_redacted_fixed(ys);
    lemma_nonempty_redacted_shape(ys);
}

/// The non-empty pieces of a query split on `&`, in order.
pub open spec fn query_pieces(q: Seq<char>) -> Seq<Seq<char>> {
    split(q, '&').filter(|p: Seq<char>| p.len() > 0)
}

proof fn lemma_nonempty_redacted_is_filter_map(pairs: Seq<Seq<char>>)
    ensures
        nonempty_redacted(pairs) == pairs.filter(|p: Seq<char>| p.len() > 0).map_values(
            |p: Seq<char>| redacted_pair(p),
        ),
    decreases pairs.len(),
{
    reveal(Seq::filter);
    if pairs.len() > 0 {
        let prev = pairs.drop_last();
        lemma_nonempty_redacted_is_filter_map(prev);
        let f = prev.filter(|p: Seq<char>| p.len() > 0);
        if pairs.last().len() > 0 {
            assert(pairs.filter(|p: Seq<char>| p.len() > 0) == f.push(pairs.last()));
            assert(f.push(pairs.last()).map_values(|p: Seq<char>| redacted_pair(p)) =~= f.map_values(
                |p: Seq<char>| redacted_pair(p),
            ).push(redacted_pair(pairs.last())));
        } else {
            assert(pairs.filter(|p: Seq<char>| p.len() > 0) == f);
        }
    }
}

/// The stored form of a query: split on `&`, drop the empty pieces, redact
/// each remaining `key=value` piece (a piece without `=` is kept), and join
/// them again with `&` in order; `None` for a blank query or one with no
/// non-empty piece.
pub proof fn lemma_query_redaction_split_form(q: Seq<char>)
    ensures
        query_redaction(Some(q)) == (if trim(q).len() == 0 || query_pieces(q).len() == 0 {
            None
        } else {
            Some(join(query_pieces(q).map_values(|p: Seq<char>| redacted_pair(p)), '&'))
        }),
{
    let pairs = split(q, '&');
    lemma_split_pieces_lack(q, '&');
    lemma_nonempty_redacted_shape(pairs);
    lemma_nonempty_redacted_is_filter_map(pairs);
    let ys = nonempty_redacted(pairs);
    assert(ys.len() == query_pieces(q).len());
    if ys.len() > 0 {
        assert(ys[0].len() > 0);
        lemma_join_nonempty(ys, '&');
    }
}

// ---------------------------------------------------------------------------
// Law of the header allow-list
// ---------------------------------------------------------------------------

/// No `a` directly followed by `b` in `s` from index `i` on.
spec fn lacks_pair_from(s: Seq<char>, a: char, b: char, i: int) -> bool
    decreases s.len() - i,
{
    if i < 0 || i + 1 >= s.len() {
        true
    } else {
        !(s[i] == a && s[i + 1] == b) && lacks_pair_from(s, a, b, i + 1)
    }
}

proof fn lemma_lacks_pair(s: Seq<char>, a: char, b: char, i: int)
    requires
        0 <= i,
        lacks_pair_from(s, a, b, i),
    ensures
        forall|k: int| i <= k && k + 1 < s.len() ==> !(#[trigger] s[k] == a && s[k + 1] == b),
    decreases s.len() - i,
{
    if i + 1 < s.len() {
        lemma_lacks_pair(s, a, b, i + 1);
    }
}

/// A text lacking two adjacent characters of `f` does not contain `f`.
proof fn lemma_not_contains_by_pair(s: Seq<char>, f: Seq<char>, j: int)
    requires
        0 <= j && j + 1 < f.len(),
        lacks_pair_from(s, f[j], f[j + 1], 0),
    ensures
        !contains(s, f),
{
    lemma_lacks_pair(s, f[j], f[j + 1], 0);
    if contains(s, f) {
        let i = choose|i: int| occurs_at(s, f, i);
        let sub = s.subrange(i, i + f.len());
        assert(sub[j] == s[i + j]);
        assert(sub[j + 1] == s[i + j + 1]);
        assert(s[i + j] == f[j]);
    }
}

/// The two-character sequences no allow-listed header name holds, one from
/// each secret fragment and each exact secret name.
spec fn lacks_secret_pairs(s: Seq<char>) -> bool {
    &&& lacks_pair_from(s, 's', 's', 0)
    &&& lacks_pair_from(s, 'e', 'c', 0)
    &&& lacks_pair_from(s, 'a', 'p', 0)
    &&& lacks_pair_from(s, 'o', 'k', 0)
    &&& lacks_pair_from(s, 't', 'h', 0)
    &&& lacks_pair_from(s, 'e', 'f', 0)
    &&& lacks_pair_from(s, 'b', 'e', 0)
    &&& lacks_pair_from(s, 'c', 'r', 0)
    &&& lacks_pair_from(s, 'o', 'd', 0)
    &&& lacks_pair_from(s, 'g', 'n', 0)
    &&& lacks_pair_from(s, 'o', 't', 0)
    &&& lacks_pair_from(s, 'p', 'i', 0)
    &&& lacks_pair_from(s, 'v', 'e', 0)
    &&& lacks_pair_from(s, 's', 'm', 0)
}

proof fn lemma_allowed_names_lack_secret_pairs(n: Seq<char>)
    requires
        allowed_header(n),
    ensures
        lacks_secret_pairs(n),
{
    if n == "user-agent"@ {
        reveal_strlit("user-agent");
        assert(lacks_secret_pairs(n)) by {
            reveal_with_fuel(lacks_pair_from, 22);
        }
    }
    if n == "content-type"@ {
        reveal_strlit("content-type");
        assert(lacks_secret_pairs(n)) by {
            reveal_with_fuel(lacks_pair_from, 22);
        }
    }
    if n == "accept"@ {
        reveal_strlit("accept");
        assert(lacks_secret_pairs(n)) by {
            reveal_with_fuel(lacks_pair_from, 22);
        }
    }
    if n == "accept-language"@ {
        reveal_strlit("accept-language");
        assert(lacks_secret_pairs(n)) by {
            reveal_with_fuel(lacks_pair_from, 22);
        }
    }
    if n == "origin"@ {
        reveal_strlit("origin");
        assert(lacks_secret_pairs(n)) by {
            reveal_with_fuel(lacks_pair_from, 22);
        }
    }
    if n == "x-forwarded-for"@ {
        reveal_strlit("x-forwarded-for");
        assert(lacks_secret_pairs(n)) by {
            reveal_with_fuel(lacks_pair_from, 22);
        }
    }
    if n == "x-real-ip"@ {
        reveal_strlit("x-real-ip");
        assert(lacks_secret_pairs(n)) by {
            reveal_with_fuel(lacks_pair_from, 22);
        }
    }
    if n == "x-client-kind"@ {
        reveal_strlit("x-client-kind");
        assert(lacks_secret_pairs(n)) by {
            reveal_with_fuel(lacks_pair_from, 22);
        }
    }
    if n == "x-sdkwork-client-kind"@ {
        reveal_strlit("x-sdkwork-client-kind");
        assert(lacks_secret_pairs(n)) by {
            reveal_with_fuel(lacks_pair_from, 22);
        }
    }
    if n == "x-request-id"@ {
        reveal_strlit("x-request-id");
        assert(lacks_secret_pairs(n)) by {
            reveal_with_fuel(lacks_pair_from, 22);
        }
    }
    if n == "traceparent"@ {
        reveal_strlit("traceparent");
        assert(lacks_secret_pairs(n)) by {
            reveal_with_fuel(lacks_pair_from, 22);
        }
    }
    if n == "tracestate"@ {
        reveal_strlit("tracestate");
        assert(lacks_secret_pairs(n)) by {
            reveal_with_fuel(lacks_pair_from, 22);
        }
    }
    if n == "x-sdkwork-trace-id"@ {
        reveal_strlit("x-sdkwork-trace-id");
        assert(lacks_secret_pairs(n)) by {
            reveal_with_fuel(lacks_pair_from, 22);
        }
    }
}

/// A name lacking the secret pairs is no sensitive field name.
proof fn lemma_secret_pairs_free_is_not_secret(n: Seq<char>)
    requires
        lacks_secret_pairs(n),
    ensures
        !sensitive_exact_name(n),
        !sensitive_fragment(n),
{
    reveal_strlit("password");
    lemma_not_contains_by_pair(n, "password"@, 2);
    reveal_strlit("secret");
    lemma_not_contains_by_pair(n, "secret"@, 1);
    reveal_strlit("token");
    lemma_not_contains_by_pair(n, "token"@, 1);
    reveal_strlit("api_key");
    lemma_not_contains_by_pair(n, "api_key"@, 0);
    reveal_strlit("apikey");
    lemma_not_contains_by_pair(n, "apikey"@, 0);
    reveal_strlit("signature");
    lemma_not_contains_by_pair(n, "signature"@, 2);
    reveal_strlit("verification_code");
    lemma_not_contains_by_pair(n, "verification_code"@, 0);
    reveal_strlit("verificationcode");
    lemma_not_contains_by_pair(n, "verificationcode"@, 0);
    reveal_strlit("verify_code");
    lemma_not_contains_by_pair(n, "verify_code"@, 0);
    reveal_strlit("verifycode");
    lemma_not_contains_by_pair(n, "verifycode"@, 0);
    reveal_strlit("sms_code");
    lemma_not_contains_by_pair(n, "sms_code"@, 0);
    reveal_strlit("otp");
    lemma_not_contains_by_pair(n, "otp"@, 0);
    reveal_strlit("password");
    lemma_not_contains_by_pair(n, "password"@, 2);
    assert(occurs_at("password"@, "password"@, 0)) by {
        assert("password"@.subrange(0, "password"@.len() as int) =~= "password"@);
    }
    reveal_strlit("passwd");
    lemma_not_contains_by_pair(n, "passwd"@, 2);
    assert(occurs_at("passwd"@, "passwd"@, 0)) by {
        assert("passwd"@.subrange(0, "passwd"@.len() as int) =~= "passwd"@);
    }
    reveal_strlit("secret");
    lemma_not_contains_by_pair(n, "secret"@, 1);
    assert(occurs_at("secret"@, "secret"@, 0)) by {
        assert("secret"@.subrange(0, "secret"@.len() as int) =~= "secret"@);
    }
    reveal_strlit("api_key");
    lemma_not_contains_by_pair(n, "api_key"@, 0);
    assert(occurs_at("api_key"@, "api_key"@, 0)) by {
        assert("api_key"@.subrange(0, "api_key"@.len() as int) =~= "api_key"@);
    }
    reveal_strlit("apikey");
    lemma_not_contains_by_pair(n, "apikey"@, 0);
    assert(occurs_at("apikey"@, "apikey"@, 0)) by {
        assert("apikey"@.subrange(0, "apikey"@.len() as int) =~= "apikey"@);
    }
    reveal_strlit("token");
    lemma_not_contains_by_pair(n, "token"@, 1);
    assert(occurs_at("token"@, "token"@, 0)) by {
        assert("token"@.subrange(0, "token"@.len() as int) =~= "token"@);
    }
    reveal_strlit("auth_token");
    lemma_not_contains_by_pair(n, "auth_token"@, 2);
    assert(occurs_at("auth_token"@, "auth_token"@, 0)) by {
        assert("auth_token"@.subrange(0, "auth_token"@.len() as int) =~= "auth_token"@);
    }
    reveal_strlit("access_token");
    lemma_not_contains_by_pair(n, "access_token"@, 4);
    assert(occurs_at("access_token"@, "access_token"@, 0)) by {
        assert("access_token"@.subrange(0, "access_token"@.len() as int) =~= "access_token"@);
    }
    reveal_strlit("refresh_token");
    lemma_not_contains_by_pair(n, "refresh_token"@, 1);
    assert(occurs_at("refresh_token"@, "refresh_token"@, 0)) by {
        assert("refresh_token"@.subrange(0, "refresh_token"@.len() as int) =~= "refresh_token"@);
    }
    reveal_strlit("bearer");
    lemma_not_contains_by_pair(n, "bearer"@, 0);
    assert(occurs_at("bearer"@, "bearer"@, 0)) by {
        assert("bearer"@.subrange(0, "bearer"@.len() as int) =~= "bearer"@);
    }
    reveal_strlit("credential");
    lemma_not_contains_by_pair(n, "credential"@, 0);
    assert(occurs_at("credential"@, "credential"@, 0)) by {
        assert("credential"@.subrange(0, "credential"@.len() as int) =~= "credential"@);
    }
    reveal_strlit("credentials");
    lemma_not_contains_by_pair(n, "credentials"@, 0);
    assert(occurs_at("credentials"@, "credentials"@, 0)) by {
        assert("credentials"@.subrange(0, "credentials"@.len() as int) =~= "credentials"@);
    }
    reveal_strlit("code");
    lemma_not_contains_by_pair(n, "code"@, 1);
    assert(occurs_at("code"@, "code"@, 0)) by {
        assert("code"@.subrange(0, "code"@.len() as int) =~= "code"@);
    }
    reveal_strlit("sign");
    lemma_not_contains_by_pair(n, "sign"@, 2);
    assert(occurs_at("sign"@, "sign"@, 0)) by {
        assert("sign"@.subrange(0, "sign"@.len() as int) =~= "sign"@);
    }
    reveal_strlit("signature");
    lemma_not_contains_by_pair(n, "signature"@, 2);
    assert(occurs_at("signature"@, "signature"@, 0)) by {
        assert("signature"@.subrange(0, "signature"@.len() as int) =~= "signature"@);
    }
    reveal_strlit("otp");
    lemma_not_contains_by_pair(n, "otp"@, 0);
    assert(occurs_at("otp"@, "otp"@, 0)) by {
        assert("otp"@.subrange(0, "otp"@.len() as int) =~= "otp"@);
    }
    reveal_strlit("pin");
    lemma_not_contains_by_pair(n, "pin"@, 0);
    assert(occurs_at("pin"@, "pin"@, 0)) by {
        assert("pin"@.subrange(0, "pin"@.len() as int) =~= "pin"@);
    }
}

/// A header name the capture allow-list admits is never a sensitive field
/// name, so a captured header value is never replaced by `[REDACTED]`.
pub proof fn lemma_safe_headers_are_not_sensitive(name: Seq<char>)
    requires
        safe_header(name),
    ensures
        !sensitive_field(name),
{
    let n = normalized_name(name);
    lemma_allowed_names_lack_secret_pairs(n);
    lemma_secret_pairs_free_is_not_secret(n);
}

// ---------------------------------------------------------------------------
// Law of text-line redaction
// ---------------------------------------------------------------------------

/// A `key=value` line of a text body (its key is everything before the
/// first `=`) loses its value exactly when the key is a sensitive field
/// name: with a sensitive key the line becomes `key=[REDACTED]`; with any
/// other key (and no `:` to make it a `"key": value` line) it is stored
/// unchanged, whatever its value mentions.
pub proof fn lemma_text_line_redaction_follows_key(line: Seq<char>, i: int)
    requires
        0 <= i < line.len(),
        line[i] == '=',
        forall|j: int| 0 <= j < i ==> line[j] != '=',
    ensures
        sensitive_field(trim(line.take(i))) ==> line_redaction(line) == line.take(i) + "=[REDACTED]"@,
        !sensitive_field(trim(line.take(i))) && (forall|j: int| 0 <= j < line.len() ==> line[j] != ':')
            ==> line_redaction(line) == line,
{
    assert(lacks(line.take(i), '=')) by {
        assert forall|j: int| 0 <= j < line.take(i).len() implies #[trigger] line.take(i)[j] != '=' by {
            assert(line.take(i)[j] == line[j]);
        }
    }
    lemma_find_at(line, '=', i);
    assert(split_once(line, '=') == Some((line.take(i), line.skip(i + 1))));
    if forall|j: int| 0 <= j < line.len() ==> line[j] != ':' {
        assert(lacks(line, ':'));
        lemma_find_none(line, ':');
    }
}

} // verus!
