//! Request capture rules of the HTTP logging middleware: surface inference,
//! trace-id resolution, body capture limits, and the metadata record built
//! for each request before the handler runs.
use crate::ip::{ClientIp, client_ip_columns, ip_columns};
use crate::record::{ApiSurfaceModel, LogApiSurface, RequestLogRecord, opt_text};
use crate::redact::{
    capture_safe_headers, header_capture, normalize_name, normalized_name, opt_chars, pairs_view,
    query_redaction, redact_query_params, safe_header_entries, body_text_redaction, redact_body_text,
    truncate_body_text, truncation,
};
use crate::retention::{LogRetentionPolicy, policy_resolution};
use crate::text::{
    all_hex, chars_eq_str, chars_of, has_prefix, lower, pieces_view, split, split_chars, starts_with_str,
    string_of, to_ascii_lower, trim, trimmed,
};
use vstd::prelude::*;

verus! {

/// Default cap for buffered body capture (256 KiB).
pub const DEFAULT_MAX_BODY_BUFFER_BYTES: usize = 262144;

/// Service name recorded on rows when none is configured.
pub const DEFAULT_SERVICE: &'static str = "sdkwork-log-tower-adapter";

// ---------------------------------------------------------------------------
// Surfaces and trace ids
// ---------------------------------------------------------------------------

/// The API surface a request path belongs to (canonical framework prefixes).
pub open spec fn surface_of_path(path: Seq<char>) -> ApiSurfaceModel {
    if has_prefix(path, "/backend/v3/api/"@) || has_prefix(path, "/backend/"@) {
        ApiSurfaceModel::BackendApi
    } else if has_prefix(path, "/app/v3/api/"@) || has_prefix(path, "/app/"@) {
        ApiSurfaceModel::AppApi
    } else if has_prefix(path, "/open/"@) || has_prefix(path, "/openapi"@) {
        ApiSurfaceModel::OpenApi
    } else if has_prefix(path, "/internal/"@) {
        ApiSurfaceModel::InternalApi
    } else if has_prefix(path, "/gateway/"@) {
        ApiSurfaceModel::GatewayApi
    } else {
        ApiSurfaceModel::Unknown
    }
}

/// Infers the API surface from a path prefix (canonical framework surfaces).
pub fn infer_api_surface(path: &str) -> (r: LogApiSurface)
    ensures
        r@ == surface_of_path(path@),
{
    let p = chars_of(path);
    let p = p.as_slice();
    if starts_with_str(p, "/backend/v3/api/") || starts_with_str(p, "/backend/") {
        LogApiSurface::BackendApi
    } else if starts_with_str(p, "/app/v3/api/") || starts_with_str(p, "/app/") {
        LogApiSurface::AppApi
    } else if starts_with_str(p, "/open/") || starts_with_str(p, "/openapi") {
        LogApiSurface::OpenApi
    } else if starts_with_str(p, "/internal/") {
        LogApiSurface::InternalApi
    } else if starts_with_str(p, "/gateway/") {
        LogApiSurface::GatewayApi
    } else {
        LogApiSurface::Unknown
    }
}

/// Number of UTF-8 bytes that encode `c`.
pub open spec fn utf8_width(c: char) -> nat {
    if (c as u32) < 0x80 {
        1
    } else if (c as u32) < 0x800 {
        2
    } else if (c as u32) < 0x10000 {
        3
    } else {
        4
    }
}

/// UTF-8 byte length of a string (std `str::len`).
pub open spec fn utf8_len(s: Seq<char>) -> nat
    decreases s.len(),
{
    if s.len() == 0 {
        0
    } else {
        utf8_len(s.drop_last()) + utf8_width(s.last())
    }
}

proof fn lemma_utf8_len_monotone(s: Seq<char>, j: int, k: int)
    requires
        0 <= j <= k <= s.len(),
    ensures
        utf8_len(s.take(j)) <= utf8_len(s.take(k)),
    decreases k - j,
{
    if j < k {
        lemma_utf8_len_monotone(s, j, k - 1);
        assert(s.take(k).drop_last() =~= s.take(k - 1));
    }
}

/// The trace id of a W3C `traceparent` value
/// (`<2 bytes>-<32 hex digits>-<16 bytes>-<rest>` after trimming), lower-cased.
pub open spec fn traceparent_trace_id(tp: Seq<char>) -> Option<Seq<char>> {
    let parts = split(trim(tp), '-');
    if parts.len() >= 4 && utf8_len(parts[0]) == 2 && utf8_len(parts[1]) == 32 && utf8_len(
        parts[2],
    ) == 16 && all_hex(parts[1]) {
        Some(lower(parts[1]))
    } else {
        None
    }
}

fn byte_len_is(v: &[char], n: usize) -> (r: bool)
    ensures
        r == (utf8_len(v@) == n),
{
    let mut total: usize = 0;
    let mut i: usize = 0;
    assert(v@.take(0) =~= Seq::<char>::empty());
    while i < v.len()
        invariant
            0 <= i <= v.len(),
            total == utf8_len(v@.take(i as int)),
            total <= n,
        decreases v.len() - i,
    {
        let c = v[i];
        let w: usize = if (c as u32) < 0x80 {
            1
        } else if (c as u32) < 0x800 {
            2
        } else if (c as u32) < 0x10000 {
            3
        } else {
            4
        };
        assert(v@.take(i + 1).drop_last() =~= v@.take(i as int));
        if w > n - total {
            proof {
                lemma_utf8_len_monotone(v@, i + 1, v@.len() as int);
                assert(v@.take(v@.len() as int) =~= v@);
            }
            return false;
        }
        total = total + w;
        i = i + 1;
    }
    assert(v@.take(v@.len() as int) =~= v@);
    total == n
}

fn all_hex_exec(v: &[char]) -> (r: bool)
    ensures
        r == all_hex(v@),
{
    let mut i: usize = 0;
    while i < v.len()
        invariant
            0 <= i <= v.len(),
            forall|j: int| 0 <= j < i ==> crate::text::is_hex_digit(#[trigger] v@[j]),
        decreases v.len() - i,
    {
        let c = v[i];
        if !(('0' <= c && c <= '9') || ('a' <= c && c <= 'f') || ('A' <= c && c <= 'F')) {
            return false;
        }
        i = i + 1;
    }
    true
}

/// Parses the trace id from a W3C `traceparent` header
/// (`00-<32hex>-<16hex>-<2hex>`).
pub fn trace_id_from_traceparent(traceparent: &str) -> (r: Option<String>)
    ensures
        opt_chars(r) == traceparent_trace_id(traceparent@),
{
    let v = chars_of(traceparent);
    let t = trimmed(v.as_slice());
    let parts = split_chars(t.as_slice(), '-');
    proof {
        assert(pieces_view(parts@).len() == parts@.len());
    }
    if parts.len() >= 4 && byte_len_is(parts[0].as_slice(), 2) && byte_len_is(
        parts[1].as_slice(),
        32,
    ) && byte_len_is(parts[2].as_slice(), 16) && all_hex_exec(parts[1].as_slice()) {
        let low = to_ascii_lower(parts[1].as_slice());
        Some(string_of(low.as_slice()))
    } else {
        None
    }
}

// ---------------------------------------------------------------------------
// Bodies
// ---------------------------------------------------------------------------

/// std `str::from_utf8`: the text of `bytes` when they are valid UTF-8.
/// Stated: `Some` exactly for valid UTF-8, and then the decoded characters.
#[verifier::external_body]
fn str_from_utf8(bytes: &[u8]) -> (r: Option<&str>)
    ensures
        r is Some <==> vstd::utf8::valid_utf8(bytes@),
        r matches Some(s) ==> s@ == vstd::utf8::decode_utf8(bytes@),
{
    std::str::from_utf8(bytes).ok()
}

/// Captures a body as text when it is valid UTF-8; binary bodies are
/// skipped (`None`) — only text payloads are ever persisted.
pub fn capture_utf8_text(bytes: &[u8]) -> (r: Option<String>)
    ensures
        r is Some <==> vstd::utf8::valid_utf8(bytes@),
        r matches Some(s) ==> s@ == vstd::utf8::decode_utf8(bytes@),
{
    match str_from_utf8(bytes) {
        Some(s) => Some(s.to_owned()),
        None => None,
    }
}

/// Stored form of a captured body: `None` for bytes that are not UTF-8 text
/// or whose redaction leaves nothing to store, else the redacted text cut
/// to `max_chars` characters.
pub open spec fn stored_body_text(bytes: Seq<u8>, max_chars: usize) -> Option<Seq<char>> {
    if !vstd::utf8::valid_utf8(bytes) {
        None
    } else {
        match body_text_redaction(vstd::utf8::decode_utf8(bytes)) {
            Some(t) => Some(truncation(t, max_chars)),
            None => None,
        }
    }
}

/// The stored form of a captured body: UTF-8 text only, redacted, then
/// truncated.
pub fn stored_body(bytes: &[u8], max_chars: usize) -> (r: Option<String>)
    ensures
        opt_chars(r) == stored_body_text(bytes@, max_chars),
{
    match capture_utf8_text(bytes) {
        Some(text) => match redact_body_text(text.as_str()) {
            Some(redacted) => Some(truncate_body_text(redacted.as_str(), max_chars)),
            None => None,
        },
        None => None,
    }
}

/// The body cap a capture uses (at least one byte).
pub fn capture_limit(max_bytes: usize) -> (r: usize)
    ensures
        r == (if max_bytes < 1 {
            1
        } else {
            max_bytes
        }),
{
    if max_bytes < 1 {
        1
    } else {
        max_bytes
    }
}

/// Bytes of `data` kept when `captured` already holds `held` of at most
/// `max_bytes`.
pub open spec fn kept_bytes(held: nat, data: Seq<u8>, max_bytes: nat) -> Seq<u8> {
    if held >= max_bytes {
        Seq::empty()
    } else if data.len() <= max_bytes - held {
        data
    } else {
        data.take(max_bytes - held)
    }
}

/// Tees one streamed frame into the capture buffer: keeps as much of `data`
/// as fits under `max_bytes`.
pub fn capture_append(captured: &mut Vec<u8>, data: &[u8], max_bytes: usize)
    ensures
        final(captured)@ == old(captured)@ + kept_bytes(old(captured)@.len(), data@, max_bytes as nat),
        old(captured)@.len() <= max_bytes ==> final(captured)@.len() <= max_bytes,
{
    let remaining = max_bytes.saturating_sub(captured.len());
    if remaining > 0 {
        let take = if data.len() < remaining {
            data.len()
        } else {
            remaining
        };
        let mut i: usize = 0;
        let ghost start = captured@;
        while i < take
            invariant
                take <= data.len(),
                0 <= i <= take,
                captured@ == start + data@.take(i as int),
            decreases take - i,
        {
            captured.push(data[i]);
            assert(start + data@.take(i as int).push(data@[i as int]) =~= start + data@.take(
                i + 1,
            ));
            i = i + 1;
        }
        assert(data@.take(take as int) =~= kept_bytes(start.len(), data@, max_bytes as nat));
    } else {
        assert(old(captured)@ + kept_bytes(old(captured)@.len(), data@, max_bytes as nat)
            =~= old(captured)@);
    }
}

/// What a capture of at most `max_bytes` holds once `stream` went through it:
/// the first `max_bytes` bytes of the stream.
pub open spec fn captured_prefix(stream: Seq<u8>, max_bytes: nat) -> Seq<u8> {
    if stream.len() <= max_bytes {
        stream
    } else {
        stream.take(max_bytes as int)
    }
}

/// Teeing frames one after another keeps exactly the first `max_bytes`
/// bytes of the whole stream: appending a frame to the capture of what came
/// before gives the capture of the longer stream.
pub proof fn lemma_capture_keeps_stream_prefix(stream: Seq<u8>, data: Seq<u8>, max_bytes: nat)
    ensures
        captured_prefix(stream, max_bytes) + kept_bytes(
            captured_prefix(stream, max_bytes).len(),
            data,
            max_bytes,
        ) == captured_prefix(stream + data, max_bytes),
{
    let held = captured_prefix(stream, max_bytes);
    let all = stream + data;
    if stream.len() >= max_bytes {
        assert(held + kept_bytes(held.len(), data, max_bytes) =~= held);
        assert(all.take(max_bytes as int) =~= stream.take(max_bytes as int));
    } else if data.len() <= max_bytes - stream.len() {
        assert(held + kept_bytes(held.len(), data, max_bytes) =~= all);
    } else {
        assert(held + kept_bytes(held.len(), data, max_bytes) =~= all.take(max_bytes as int));
    }
}

/// The bytes of a stream of frames, in order.
pub open spec fn stream_of(frames: Seq<Seq<u8>>) -> Seq<u8>
    decreases frames.len(),
{
    if frames.len() == 0 {
        Seq::empty()
    } else {
        stream_of(frames.drop_last()) + frames.last()
    }
}

/// The capture buffer after teeing `frames` one after another into an empty
/// buffer of at most `max_bytes` (each step is what [`capture_append`] does).
pub open spec fn capture_of_frames(frames: Seq<Seq<u8>>, max_bytes: nat) -> Seq<u8>
    decreases frames.len(),
{
    if frames.len() == 0 {
        Seq::empty()
    } else {
        let held = capture_of_frames(frames.drop_last(), max_bytes);
        held + kept_bytes(held.len(), frames.last(), max_bytes)
    }
}

/// Teeing a whole stream keeps exactly its first `max_bytes` bytes, however
/// the stream is cut into frames.
pub proof fn lemma_capture_of_whole_stream(frames: Seq<Seq<u8>>, max_bytes: nat)
    ensures
        capture_of_frames(frames, max_bytes) == captured_prefix(stream_of(frames), max_bytes),
    decreases frames.len(),
{
    if frames.len() > 0 {
        lemma_capture_of_whole_stream(frames.drop_last(), max_bytes);
        lemma_capture_keeps_stream_prefix(stream_of(frames.drop_last()), frames.last(), max_bytes);
    }
}

/// A request body is buffered only when its declared size bound is within
/// the cap (bodies without an upper bound are buffered too).
pub fn should_buffer_body(size_upper_bound: Option<u64>, max_bytes: usize) -> (r: bool)
    ensures
        r == match size_upper_bound {
            Some(upper) => upper <= max_bytes,
            None => true,
        },
{
    match size_upper_bound {
        Some(upper) => upper <= max_bytes as u64,
        None => true,
    }
}

// ---------------------------------------------------------------------------
// Capture configuration
// ---------------------------------------------------------------------------

/// Configuration of the capture middleware.
#[derive(Clone, Debug, PartialEq, Eq)]
pub struct CaptureSettings {
    /// Service name recorded on rows.
    pub service: Option<String>,
    /// Maximum number of body bytes buffered for storage (at least 1).
    pub max_body_bytes: usize,
    /// Retention policy resolved against each captured path.
    pub retention_policy: Option<LogRetentionPolicy>,
    /// Trust `x-forwarded-for` / `x-real-ip` for the client address (only
    /// behind a controlled reverse proxy).
    pub trust_forwarded_headers: bool,
}

impl CaptureSettings {
    /// Default settings: no service name, 256 KiB body cap, no retention
    /// policy, forwarded headers untrusted.
    pub fn new() -> (s: CaptureSettings)
        ensures
            s.service is None,
            s.max_body_bytes == DEFAULT_MAX_BODY_BUFFER_BYTES,
            s.retention_policy is None,
            !s.trust_forwarded_headers,
    {
        CaptureSettings {
            service: None,
            max_body_bytes: DEFAULT_MAX_BODY_BUFFER_BYTES,
            retention_policy: None,
            trust_forwarded_headers: false,
        }
    }

    /// Sets the service name recorded on every row.
    pub fn with_service(self, service: &str) -> (s: CaptureSettings)
        ensures
            s.service matches Some(v) && v@ == service@,
            s == (CaptureSettings { service: s.service, ..self }),
    {
        CaptureSettings { service: Some(service.to_owned()), ..self }
    }

    /// Sets the body cap (at least one byte).
    pub fn with_max_body_bytes(self, max_body_bytes: usize) -> (s: CaptureSettings)
        ensures
            s == (CaptureSettings {
                max_body_bytes: if max_body_bytes < 1 {
                    1
                } else {
                    max_body_bytes
                },
                ..self
            }),
    {
        CaptureSettings { max_body_bytes: capture_limit(max_body_bytes), ..self }
    }

    /// Sets the retention policy.
    pub fn with_retention_policy(self, policy: LogRetentionPolicy) -> (s: CaptureSettings)
        ensures
            s == (CaptureSettings { retention_policy: Some(policy), ..self }),
    {
        CaptureSettings { retention_policy: Some(policy), ..self }
    }

    /// Trusts forwarded headers for the client address.
    pub fn with_trusted_forwarded_headers(self, trust: bool) -> (s: CaptureSettings)
        ensures
            s == (CaptureSettings { trust_forwarded_headers: trust, ..self }),
    {
        CaptureSettings { trust_forwarded_headers: trust, ..self }
    }
}

// ---------------------------------------------------------------------------
// Request metadata
// ---------------------------------------------------------------------------

/// What the middleware reads of one request before the handler runs.
#[derive(Clone, Debug, PartialEq, Eq)]
pub struct RequestFacts {
    /// Raw request path (without the query string).
    pub raw_path: String,
    /// Raw query string, when present.
    pub query: Option<String>,
    /// HTTP method.
    pub method: String,
    /// Request headers in order (lower-case names); the value is `None`
    /// when it is not visible ASCII text.
    pub headers: Vec<(String, Option<String>)>,
    /// Route template from the host's resolver, when one is configured.
    pub path_template: Option<String>,
    /// Tenant id from the host's resolver.
    pub tenant_id: Option<String>,
    /// User id from the host's resolver.
    pub user_id: Option<String>,
    /// User display name from the host's resolver.
    pub user_name: Option<String>,
    /// API surface from the host's resolver, when one is configured.
    pub api_surface: Option<LogApiSurface>,
    /// Client address chosen for the request.
    pub client_ip: Option<ClientIp>,
}

/// The character view of headers with optional values.
pub open spec fn headers_view(hs: Seq<(String, Option<String>)>) -> Seq<(Seq<char>, Option<Seq<char>>)> {
    Seq::new(hs.len(), |i: int| (hs[i].0@, opt_text(hs[i].1)))
}

/// Index of the first header named `name`, or -1.
pub open spec fn first_header_from(hs: Seq<(Seq<char>, Option<Seq<char>>)>, name: Seq<char>, from: int) -> int
    decreases hs.len() - from,
{
    if from < 0 || from >= hs.len() {
        -1
    } else if hs[from].0 == name {
        from
    } else {
        first_header_from(hs, name, from + 1)
    }
}

/// The text value of the first header named `name` (`None` when absent or
/// not text).
pub open spec fn header_text(hs: Seq<(Seq<char>, Option<Seq<char>>)>, name: Seq<char>) -> Option<Seq<char>> {
    let i = first_header_from(hs, name, 0);
    if i < 0 {
        None
    } else {
        hs[i].1
    }
}

/// A header that carries the client address; the address is kept only as
/// hash and mask, never as captured header text.
pub open spec fn client_address_header(name: Seq<char>) -> bool {
    normalized_name(name) == "x-forwarded-for"@ || normalized_name(name) == "x-real-ip"@
}

/// The headers offered for capture, as `(name, value)` pairs in order: those
/// whose values are text, without the client-address carriers.
pub open spec fn capturable_headers(hs: Seq<(Seq<char>, Option<Seq<char>>)>) -> Seq<
    (Seq<char>, Seq<char>),
>
    decreases hs.len(),
{
    if hs.len() == 0 {
        Seq::empty()
    } else {
        let acc = capturable_headers(hs.drop_last());
        match hs.last().1 {
            Some(v) => if client_address_header(hs.last().0) {
                acc
            } else {
                acc.push((hs.last().0, v))
            },
            None => acc,
        }
    }
}

proof fn lemma_capturable_excludes_addresses(hs: Seq<(Seq<char>, Option<Seq<char>>)>)
    ensures
        forall|i: int|
            0 <= i < capturable_headers(hs).len() ==> !client_address_header(
                #[trigger] capturable_headers(hs)[i].0,
            ),
    decreases hs.len(),
{
    if hs.len() > 0 {
        lemma_capturable_excludes_addresses(hs.drop_last());
        let acc = capturable_headers(hs.drop_last());
        let all = capturable_headers(hs);
        assert forall|i: int| 0 <= i < all.len() implies !client_address_header(
            #[trigger] all[i].0,
        ) by {
            if i < acc.len() {
                assert(all[i] == acc[i]);
            }
        }
    }
}

proof fn lemma_entry_names(xs: Seq<(Seq<char>, Seq<char>)>)
    ensures
        forall|i: int|
            0 <= i < safe_header_entries(xs).len() ==> exists|j: int|
                0 <= j < xs.len() && (#[trigger] safe_header_entries(xs)[i]).0 == normalized_name(
                    xs[j].0,
                ),
    decreases xs.len(),
{
    if xs.len() > 0 {
        let prev = xs.drop_last();
        lemma_entry_names(prev);
        let acc = safe_header_entries(prev);
        let all = safe_header_entries(xs);
        assert forall|i: int| 0 <= i < all.len() implies exists|j: int|
            0 <= j < xs.len() && (#[trigger] all[i]).0 == normalized_name(xs[j].0) by {
            if i < acc.len() {
                assert(all[i] == acc[i]);
                let j = choose|j: int| 0 <= j < prev.len() && acc[i].0 == normalized_name(prev[j].0);
                assert(xs[j] == prev[j]);
            } else {
                assert(all[i].0 == normalized_name(xs[xs.len() - 1].0));
            }
        }
    }
}

/// The client address never lands in captured request headers: no captured
/// entry is an `x-forwarded-for` or `x-real-ip` header (the address is kept
/// only as hash and mask).
pub proof fn lemma_client_address_not_captured(hs: Seq<(Seq<char>, Option<Seq<char>>)>)
    ensures
        forall|i: int|
            0 <= i < safe_header_entries(capturable_headers(hs)).len() ==> {
                let n = (#[trigger] safe_header_entries(capturable_headers(hs))[i]).0;
                n != "x-forwarded-for"@ && n != "x-real-ip"@
            },
{
    let xs = capturable_headers(hs);
    lemma_capturable_excludes_addresses(hs);
    lemma_entry_names(xs);
    assert forall|i: int| 0 <= i < safe_header_entries(xs).len() implies {
        let n = (#[trigger] safe_header_entries(xs)[i]).0;
        n != "x-forwarded-for"@ && n != "x-real-ip"@
    } by {
        let j = choose|j: int| 0 <= j < xs.len() && safe_header_entries(xs)[i].0 == normalized_name(xs[j].0);
        assert(!client_address_header(xs[j].0));
    }
}

fn is_client_address_header(name: &str) -> (r: bool)
    ensures
        r == client_address_header(name@),
{
    let v = chars_of(name);
    let n = normalize_name(v.as_slice());
    chars_eq_str(n.as_slice(), "x-forwarded-for") || chars_eq_str(n.as_slice(), "x-real-ip")
}

/// Text value of the first header named `name`.
pub fn header_value(headers: &Vec<(String, Option<String>)>, name: &str) -> (r: Option<String>)
    ensures
        opt_chars(r) == header_text(headers_view(headers@), name@),
{
    let ghost hv = headers_view(headers@);
    let mut i: usize = 0;
    while i < headers.len()
        invariant
            hv == headers_view(headers@),
            0 <= i <= headers.len(),
            first_header_from(hv, name@, 0) == first_header_from(hv, name@, i as int),
        decreases headers.len() - i,
    {
        let nv = chars_of(headers[i].0.as_str());
        if crate::text::chars_eq_str(nv.as_slice(), name) {
            return headers[i].1.clone();
        }
        i = i + 1;
    }
    None
}

/// The headers offered for capture: text values, client-address carriers
/// left out.
pub fn capture_candidates(headers: &Vec<(String, Option<String>)>) -> (r: Vec<(String, String)>)
    ensures
        pairs_view(r@) == capturable_headers(headers_view(headers@)),
{
    let ghost hv = headers_view(headers@);
    let mut out: Vec<(String, String)> = Vec::new();
    let mut i: usize = 0;
    assert(hv.take(0) =~= Seq::<(Seq<char>, Option<Seq<char>>)>::empty());
    while i < headers.len()
        invariant
            hv == headers_view(headers@),
            0 <= i <= headers.len(),
            pairs_view(out@) == capturable_headers(hv.take(i as int)),
        decreases headers.len() - i,
    {
        assert(hv.take(i + 1).drop_last() =~= hv.take(i as int));
        assert(hv.take(i + 1).last() == hv[i as int]);
        match &headers[i].1 {
            Some(v) => {
                if !is_client_address_header(headers[i].0.as_str()) {
                    let ghost before = out@;
                    out.push((headers[i].0.clone(), v.clone()));
                    assert(pairs_view(out@) =~= pairs_view(before).push((headers@[i as int].0@, v@)));
                }
            },
            None => {},
        }
        i = i + 1;
    }
    assert(hv.take(headers.len() as int) =~= hv);
    out
}

/// The trace id a request carries: the `traceparent` trace id, else the
/// `x-sdkwork-trace-id` value, else the `x-request-id` value (`None`: the
/// caller generates a fresh id).
pub open spec fn carried_trace_id(hs: Seq<(Seq<char>, Option<Seq<char>>)>) -> Option<Seq<char>> {
    let from_traceparent = match header_text(hs, "traceparent"@) {
        Some(tp) => traceparent_trace_id(tp),
        None => None,
    };
    if from_traceparent is Some {
        from_traceparent
    } else if header_text(hs, "x-sdkwork-trace-id"@) is Some {
        header_text(hs, "x-sdkwork-trace-id"@)
    } else {
        header_text(hs, "x-request-id"@)
    }
}

/// Resolves the trace id a request carries (`traceparent` first, then
/// `x-sdkwork-trace-id`, then `x-request-id`).
pub fn resolve_trace_id(headers: &Vec<(String, Option<String>)>) -> (r: Option<String>)
    ensures
        opt_chars(r) == carried_trace_id(headers_view(headers@)),
{
    let from_traceparent = match header_value(headers, "traceparent") {
        Some(tp) => trace_id_from_traceparent(tp.as_str()),
        None => None,
    };
    if from_traceparent.is_some() {
        return from_traceparent;
    }
    let sdkwork_trace_id = header_value(headers, "x-sdkwork-trace-id");
    if sdkwork_trace_id.is_some() {
        sdkwork_trace_id
    } else {
        header_value(headers, "x-request-id")
    }
}

/// Builds the metadata record of one request before the handler runs:
/// `trace_id` is the resolved trace id, the request id falls back to it, the
/// path is the route template when one is resolved, the surface comes from
/// the host's resolver or the path prefix, query parameters are redacted,
/// headers allow-listed (client-address carriers left out), and the client
/// address kept only as hash and mask.
pub fn build_record_metadata(facts: RequestFacts, trace_id: String, service: Option<String>) -> (r:
    RequestLogRecord)
    ensures
        r.trace_id@ == trace_id@,
        r.request_id@ == (match header_text(headers_view(facts.headers@), "x-request-id"@) {
            Some(id) => id,
            None => trace_id@,
        }),
        opt_text(r.tenant_id) == opt_text(facts.tenant_id),
        opt_text(r.user_id) == opt_text(facts.user_id),
        opt_text(r.user_name) == opt_text(facts.user_name),
        r.api_surface@ == (match facts.api_surface {
            Some(s) => s@,
            None => surface_of_path(facts.raw_path@),
        }),
        r.path@ == (match facts.path_template {
            Some(t) => t@,
            None => facts.raw_path@,
        }),
        r.retention is None,
        r.method@ == facts.method@,
        r.operation_id is None,
        opt_text(r.service) == opt_text(service),
        r.environment is None,
        r.auth_mode is None,
        r.status_code is None,
        r.duration_ms is None,
        r.error_code is None,
        r.failed_stage is None,
        opt_text(r.query_params) == (match opt_text(facts.query) {
            Some(q) => query_redaction(Some(q)),
            None => None,
        }),
        opt_text(r.request_headers) == header_capture(capturable_headers(headers_view(facts.headers@))),
        (opt_text(r.client_ip_hash), opt_text(r.client_ip_masked)) == ip_columns(facts.client_ip),
        r.request_body is None,
        r.response_body is None,
{
    let request_id = match header_value(&facts.headers, "x-request-id") {
        Some(id) => id,
        None => trace_id.clone(),
    };
    let api_surface = match facts.api_surface {
        Some(s) => s,
        None => infer_api_surface(facts.raw_path.as_str()),
    };
    let query_params = match &facts.query {
        Some(q) => redact_query_params(Some(q.as_str())),
        None => None,
    };
    let present = capture_candidates(&facts.headers);
    let request_headers = capture_safe_headers(present.as_slice());
    let (client_ip_hash, client_ip_masked) = client_ip_columns(&facts.client_ip);
    let path = match facts.path_template {
        Some(t) => t,
        None => facts.raw_path,
    };
    RequestLogRecord {
        trace_id,
        request_id,
        tenant_id: facts.tenant_id,
        user_id: facts.user_id,
        user_name: facts.user_name,
        api_surface,
        path,
        retention: None,
        method: facts.method,
        operation_id: None,
        service,
        environment: None,
        auth_mode: None,
        status_code: None,
        duration_ms: None,
        error_code: None,
        failed_stage: None,
        query_params,
        request_headers,
        client_ip_hash,
        client_ip_masked,
        request_body: None,
        response_body: None,
    }
}

/// Sets the record's retention from the policy (resolved against the
/// record's path), when a policy is configured.
pub fn apply_retention_policy(record: RequestLogRecord, policy: &Option<LogRetentionPolicy>) -> (r:
    RequestLogRecord)
    ensures
        r == (RequestLogRecord {
            retention: match policy {
                Some(p) => Some(policy_resolution(*p, record.path@)),
                None => record.retention,
            },
            ..record
        }),
{
    match policy {
        Some(p) => {
            let retention = p.resolve(record.path.as_str());
            RequestLogRecord { retention: Some(retention), ..record }
        },
        None => record,
    }
}

/// Completes a record after the response: status, duration, the redacted
/// response body, and the service name (the default service name when none
/// is configured).
pub fn complete_record(
    record: RequestLogRecord,
    status_code: u16,
    duration_ms: u64,
    service: Option<String>,
    response_body: Option<String>,
) -> (r: RequestLogRecord)
    ensures
        r.status_code == Some(status_code),
        r.duration_ms == Some(duration_ms),
        r.service matches Some(s) && s@ == (match service {
            Some(v) => v@,
            None => DEFAULT_SERVICE@,
        }),
        opt_text(r.response_body) == opt_text(response_body),
        r == (RequestLogRecord {
            status_code: r.status_code,
            duration_ms: r.duration_ms,
            service: r.service,
            response_body: r.response_body,
            ..record
        }),
{
    let service = match service {
        Some(s) => s,
        None => DEFAULT_SERVICE.to_owned(),
    };
    RequestLogRecord {
        status_code: Some(status_code),
        duration_ms: Some(duration_ms),
        service: Some(service),
        response_body,
        ..record
    }
}

/// Lowercase hexadecimal digit.
pub open spec fn is_lower_hex(c: char) -> bool {
    ('0' <= c && c <= '9') || ('a' <= c && c <= 'f')
}

proof fn lemma_utf8_len_hex(s: Seq<char>)
    requires
        all_hex(s),
    ensures
        utf8_len(s) == s.len(),
    decreases s.len(),
{
    if s.len() > 0 {
        assert(all_hex(s.drop_last()));
        assert(crate::text::is_hex_digit(s.last()));
        lemma_utf8_len_hex(s.drop_last());
    }
}

/// A trace id taken from a `traceparent` header is always 32 lowercase hex
/// digits.
pub proof fn lemma_trace_id_shape(tp: Seq<char>)
    ensures
        traceparent_trace_id(tp) matches Some(t) ==> t.len() == 32 && forall|i: int|
            0 <= i < t.len() ==> is_lower_hex(#[trigger] t[i]),
{
    let parts = split(trim(tp), '-');
    if traceparent_trace_id(tp) is Some {
        lemma_utf8_len_hex(parts[1]);
        assert forall|i: int| 0 <= i < lower(parts[1]).len() implies is_lower_hex(
            #[trigger] lower(parts[1])[i],
        ) by {
            assert(crate::text::is_hex_digit(parts[1][i]));
        }
    }
}

/// A parsable `traceparent` decides the trace id, whatever
/// `x-sdkwork-trace-id` and `x-request-id` hold; `x-sdkwork-trace-id` comes
/// next, and `x-request-id` counts only when neither gives one.
pub proof fn lemma_trace_id_preference(hs: Seq<(Seq<char>, Option<Seq<char>>)>)
    ensures
        header_text(hs, "traceparent"@) matches Some(tp) ==> (traceparent_trace_id(tp) is Some
            ==> carried_trace_id(hs) == traceparent_trace_id(tp)),
        (header_text(hs, "traceparent"@) matches Some(tp) ==> traceparent_trace_id(tp) is None)
            && header_text(hs, "x-sdkwork-trace-id"@) is Some ==> carried_trace_id(hs) == header_text(
            hs,
            "x-sdkwork-trace-id"@,
        ),
        (header_text(hs, "traceparent"@) matches Some(tp) ==> traceparent_trace_id(tp) is None)
            && header_text(hs, "x-sdkwork-trace-id"@) is None ==> carried_trace_id(hs) == header_text(
            hs,
            "x-request-id"@,
        ),
{
}

proof fn lemma_prefix_char(s: Seq<char>, p: Seq<char>, k: int)
    requires
        has_prefix(s, p),
        0 <= k < p.len(),
    ensures
        s[k] == p[k],
{
    assert(s.subrange(0, p.len() as int)[k] == s[k]);
}

proof fn lemma_prefix_trans(s: Seq<char>, p: Seq<char>, q: Seq<char>)
    requires
        has_prefix(s, p),
        has_prefix(p, q),
    ensures
        has_prefix(s, q),
{
    assert(s.subrange(0, q.len() as int) =~= p.subrange(0, q.len() as int)) by {
        assert forall|k: int| 0 <= k < q.len() implies s.subrange(0, q.len() as int)[k] == p.subrange(
            0,
            q.len() as int,
        )[k] by {
            lemma_prefix_char(s, p, k);
        }
    }
}

/// Each canonical prefix names its surface whatever follows it (no version
/// segment is needed): `/backend/...` is the backend surface, `/app/...` the
/// app surface, `/open/...` and `/openapi...` the open surface,
/// `/internal/...` and `/gateway/...` theirs; any other path is unknown.
pub proof fn lemma_surface_follows_prefix(path: Seq<char>)
    ensures
        has_prefix(path, "/backend/"@) ==> surface_of_path(path) == ApiSurfaceModel::BackendApi,
        has_prefix(path, "/app/"@) ==> surface_of_path(path) == ApiSurfaceModel::AppApi,
        has_prefix(path, "/open/"@) || has_prefix(path, "/openapi"@) ==> surface_of_path(path)
            == ApiSurfaceModel::OpenApi,
        has_prefix(path, "/internal/"@) ==> surface_of_path(path) == ApiSurfaceModel::InternalApi,
        has_prefix(path, "/gateway/"@) ==> surface_of_path(path) == ApiSurfaceModel::GatewayApi,
        !has_prefix(path, "/backend/"@) && !has_prefix(path, "/app/"@) && !has_prefix(path, "/open/"@)
            && !has_prefix(path, "/openapi"@) && !has_prefix(path, "/internal/"@) && !has_prefix(
            path,
            "/gateway/"@,
        ) ==> surface_of_path(path) == ApiSurfaceModel::Unknown,
{
    reveal_strlit("/backend/v3/api/");
    reveal_strlit("/backend/");
    reveal_strlit("/app/v3/api/");
    reveal_strlit("/app/");
    reveal_strlit("/open/");
    reveal_strlit("/openapi");
    reveal_strlit("/internal/");
    reveal_strlit("/gateway/");
    assert(has_prefix("/backend/v3/api/"@, "/backend/"@)) by {
        assert("/backend/v3/api/"@.subrange(0, 9) =~= "/backend/"@);
    }
    assert(has_prefix("/app/v3/api/"@, "/app/"@)) by {
        assert("/app/v3/api/"@.subrange(0, 5) =~= "/app/"@);
    }
    if has_prefix(path, "/backend/v3/api/"@) {
        lemma_prefix_trans(path, "/backend/v3/api/"@, "/backend/"@);
    }
    if has_prefix(path, "/app/v3/api/"@) {
        lemma_prefix_trans(path, "/app/v3/api/"@, "/app/"@);
    }
    if has_prefix(path, "/backend/"@) {
        lemma_prefix_char(path, "/backend/"@, 1);
    }
    if has_prefix(path, "/app/"@) {
        lemma_prefix_char(path, "/app/"@, 1);
    }
    if has_prefix(path, "/open/"@) {
        lemma_prefix_char(path, "/open/"@, 1);
    }
    if has_prefix(path, "/openapi"@) {
        lemma_prefix_char(path, "/openapi"@, 1);
    }
    if has_prefix(path, "/internal/"@) {
        lemma_prefix_char(path, "/internal/"@, 1);
    }
    if has_prefix(path, "/gateway/"@) {
        lemma_prefix_char(path, "/gateway/"@, 1);
    }
}

} // verus!
