use sdkwork_log::ip::{hash_client_ip, mask_client_ip, ClientIpAddr};
use sdkwork_log::json::JsonValue;
use sdkwork_log::query::{RequestLogListQuery, DEFAULT_LIST_PAGE_SIZE, MAX_LIST_PAGE_SIZE};
use sdkwork_log::record::LogApiSurface;
use sdkwork_log::redact::{
    capture_safe_headers, is_safe_request_header, is_sensitive_field_name, redact_body_document, redact_body_text,
    redact_json_body, redact_query_params, redact_sensitive_value, truncate_body_text,
    RedactedBody, REDACTED,
};
use sdkwork_log::request_id::{
    format_id_for_key, format_request_log_id, new_request_log_id, next_id_key, ID_KEY_LIMIT,
};
use sdkwork_log::retention::{LogRetention, LogRetentionPolicy, LogRetentionRule};

// ---------------------------------------------------------------------------
// Query
// ---------------------------------------------------------------------------

#[test]
fn default_query_uses_spec_pagination() {
    let query = RequestLogListQuery::default();
    assert_eq!(1, query.page);
    assert_eq!(DEFAULT_LIST_PAGE_SIZE, query.page_size);
}

#[test]
fn page_size_is_clamped_to_spec_bounds() {
    assert_eq!(1, RequestLogListQuery::new(0, 0).page_size);
    assert_eq!(MAX_LIST_PAGE_SIZE, RequestLogListQuery::new(1, 10_000).page_size);
    assert_eq!(1, RequestLogListQuery::new(0, 20).page);
}

#[test]
fn offset_is_zero_based() {
    assert_eq!(0, RequestLogListQuery::new(1, 20).offset());
    assert_eq!(40, RequestLogListQuery::new(3, 20).offset());
}

#[test]
fn builders_set_one_filter_each() {
    let query = RequestLogListQuery::new(2, 50)
        .with_request_id("req-1")
        .with_tenant_id("100001")
        .with_operation_id("log.requestLogs.list")
        .with_duration_min(5)
        .with_duration_max(500);
    assert_eq!(Some("req-1".to_owned()), query.request_id);
    assert_eq!(Some("100001".to_owned()), query.tenant_id);
    assert_eq!(Some("log.requestLogs.list".to_owned()), query.operation_id);
    assert_eq!(Some(5), query.duration_min);
    assert_eq!(Some(500), query.duration_max);
    assert_eq!(None, query.trace_id);
    assert_eq!(2, query.page);
    assert_eq!(50, query.page_size);
}

#[test]
fn consecutive_pages_are_adjacent() {
    let first = RequestLogListQuery::new(1, 7);
    let second = RequestLogListQuery::new(2, 7);
    assert_eq!(0, first.offset());
    assert_eq!(first.offset() + first.page_size, second.offset());
}

#[test]
fn builders_set_only_their_filter() {
    let query = RequestLogListQuery::default()
        .with_trace_id("trace-2")
        .with_status_code(200)
        .with_created_range(10, 20);
    assert_eq!(Some("trace-2".to_owned()), query.trace_id);
    assert_eq!(Some(200), query.status_code);
    assert_eq!(Some(10), query.created_from);
    assert_eq!(Some(20), query.created_to);
    assert_eq!(None, query.request_id);
    assert_eq!(None, query.service);
    assert_eq!(1, query.page);
}

// ---------------------------------------------------------------------------
// Record
// ---------------------------------------------------------------------------

#[test]
fn api_surface_round_trips_canonical_strings() {
    for surface in [
        LogApiSurface::OpenApi,
        LogApiSurface::AppApi,
        LogApiSurface::BackendApi,
        LogApiSurface::InternalApi,
        LogApiSurface::GatewayApi,
        LogApiSurface::Unknown,
    ] {
        assert_eq!(surface, LogApiSurface::parse(surface.as_str()));
    }
}

#[test]
fn api_surface_other_preserves_raw_value() {
    let surface = LogApiSurface::parse("rpc-internal");
    assert_eq!("rpc-internal", surface.as_str());
}

#[test]
fn api_surface_other_with_canonical_text_normalizes() {
    let surface = LogApiSurface::parse(LogApiSurface::Other("backend-api".to_owned()).as_str());
    assert_eq!(LogApiSurface::BackendApi, surface);
    assert_eq!("backend-api", LogApiSurface::BackendApi.to_display_string());
}

// ---------------------------------------------------------------------------
// Redaction
// ---------------------------------------------------------------------------

#[test]
fn redacts_credential_query_values() {
    assert_eq!("[REDACTED]", redact_sensitive_value("access_token", "abc"));
    assert_eq!("[REDACTED]", redact_sensitive_value("sign", "hmac-value"));
    assert_eq!("[REDACTED]", redact_sensitive_value("code", "oauth-code"));
    assert_eq!("[REDACTED]", redact_sensitive_value("verifyCode", "123456"));
    assert_eq!("123", redact_sensitive_value("page_size", "123"));
}

#[test]
fn sensitive_names_are_trimmed_and_case_insensitive() {
    assert!(is_sensitive_field_name("  Authorization "));
    assert!(is_sensitive_field_name("X-SDKWORK-AGENT-TOKEN"));
    assert!(is_sensitive_field_name("client_secret"));
    assert!(is_sensitive_field_name("sms_code"));
    assert!(!is_sensitive_field_name("page"));
    assert!(!is_sensitive_field_name("tenant_id"));
}

#[test]
fn redact_query_params_preserves_safe_pairs() {
    let redacted = redact_query_params(Some("page=2&token=secret&page_size=20")).expect("query");
    assert_eq!("page=2&token=[REDACTED]&page_size=20", redacted);
}

#[test]
fn redact_query_params_handles_empty_and_key_only() {
    assert_eq!(None, redact_query_params(None));
    assert_eq!(None, redact_query_params(Some("")));
    assert_eq!(Some("flag".to_owned()), redact_query_params(Some("flag")));
}

#[test]
fn redact_query_params_drops_empty_pairs_and_keeps_extra_equals() {
    assert_eq!(Some("a=1&b=x=y".to_owned()), redact_query_params(Some("&a=1&&b=x=y&")));
    assert_eq!(None, redact_query_params(Some("&&")));
    assert_eq!(None, redact_query_params(Some("   ")));
    assert_eq!(
        Some("password=[REDACTED]".to_owned()),
        redact_query_params(Some("password=a=b"))
    );
}

#[test]
fn safe_header_allow_list_excludes_credentials() {
    assert!(is_safe_request_header("User-Agent"));
    assert!(is_safe_request_header(" traceparent "));
    assert!(!is_safe_request_header("Authorization"));
    assert!(!is_safe_request_header("Cookie"));
    assert!(!is_safe_request_header("Referer"));
}

#[test]
fn capture_safe_headers_excludes_credentials_and_signed_url_carriers() {
    let headers = vec![
        ("Authorization".to_owned(), "Bearer xyz".to_owned()),
        ("User-Agent".to_owned(), "test-agent".to_owned()),
        ("Referer".to_owned(), "https://x/signed?token=abc".to_owned()),
        ("X-Request-Id".to_owned(), "req-1".to_owned()),
    ];
    let captured = capture_safe_headers(&headers).expect("headers");
    assert!(captured.contains("\"user-agent\":\"test-agent\""));
    assert!(captured.contains("\"x-request-id\":\"req-1\""));
    assert!(!captured.contains("Authorization"));
    assert!(!captured.contains("Referer"));
    assert!(!captured.contains("token"));
}

#[test]
fn capture_safe_headers_returns_none_when_nothing_safe() {
    let headers = vec![("Authorization".to_owned(), "Bearer xyz".to_owned())];
    assert_eq!(None, capture_safe_headers(&headers));
    assert_eq!(None, capture_safe_headers(&[]));
}

#[test]
fn capture_safe_headers_renders_a_json_object() {
    let headers = vec![("Content-Type".to_owned(), "application/json".to_owned())];
    assert_eq!(
        Some("{\"content-type\":\"application/json\"}".to_owned()),
        capture_safe_headers(&headers)
    );
}

fn s(text: &str) -> JsonValue {
    JsonValue::String(text.to_owned())
}

fn obj(entries: Vec<(&str, JsonValue)>) -> JsonValue {
    JsonValue::Object(entries.into_iter().map(|(k, v)| (k.to_owned(), v)).collect())
}

fn get<'a>(value: &'a JsonValue, key: &str) -> &'a JsonValue {
    match value {
        JsonValue::Object(entries) => {
            &entries.iter().find(|(k, _)| k == key).expect("member").1
        }
        _ => panic!("not an object"),
    }
}

#[test]
fn redact_json_body_replaces_sensitive_values_recursively() {
    let body = obj(vec![
        ("prompt", s("hello")),
        ("user", obj(vec![("id", JsonValue::Number("7".to_owned())), ("password", s("hunter2"))])),
        ("credentials", obj(vec![("apiKey", s("sk-abc")), ("safe", s("kept"))])),
        ("session", obj(vec![("authToken", s("t-1")), ("name", s("ok"))])),
    ]);
    let redacted = redact_json_body(&body);
    assert_eq!(&s(REDACTED), get(get(&redacted, "user"), "password"));
    // A sensitive field name redacts the whole subtree.
    assert_eq!(&s(REDACTED), get(&redacted, "credentials"));
    assert_eq!(&s(REDACTED), get(get(&redacted, "session"), "authToken"));
    assert_eq!(&s("hello"), get(&redacted, "prompt"));
    assert_eq!(&s("ok"), get(get(&redacted, "session"), "name"));
    // Payload shape is preserved.
    assert!(matches!(get(get(&redacted, "user"), "id"), JsonValue::Number(_)));
}

#[test]
fn redact_json_body_is_idempotent_and_recurses_into_arrays() {
    let body = JsonValue::Array(vec![
        obj(vec![("token", s("a"))]),
        JsonValue::Array(vec![obj(vec![("x", JsonValue::Bool(true)), ("otp", JsonValue::Null)])]),
    ]);
    let once = redact_json_body(&body);
    let twice = redact_json_body(&once);
    assert_eq!(once, twice);
    let expected = JsonValue::Array(vec![
        obj(vec![("token", s(REDACTED))]),
        JsonValue::Array(vec![obj(vec![("x", JsonValue::Bool(true)), ("otp", s(REDACTED))])]),
    ]);
    assert_eq!(expected, once);
}

#[test]
fn redact_body_text_handles_json_and_plain_text() {
    let json = r#"{"prompt":"hi","secret":"s3cr3t"}"#;
    let redacted = redact_body_text(json).expect("json body");
    assert_eq!(r#"{"prompt":"hi","secret":"[REDACTED]"}"#, redacted);

    let text = "tenant_id=1001\ntoken=abc123\nstatus=ok";
    let redacted_text = redact_body_text(text).expect("text body");
    assert!(redacted_text.contains("token=[REDACTED]"));
    assert!(redacted_text.contains("tenant_id=1001"));
    assert!(redacted_text.contains("status=ok"));
}

#[test]
fn redact_body_text_returns_none_for_empty_input() {
    assert_eq!(None, redact_body_text(""));
    assert_eq!(None, redact_body_text("   \n  "));
}

#[test]
fn redact_body_text_renders_nested_json_compactly() {
    let json = "{ \"user\": {\"id\": 7, \"password\": \"p\"}, \"items\": [1.5, {\"otp\": 1}] }";
    assert_eq!(
        Some(r#"{"items":[1.5,{"otp":"[REDACTED]"}],"user":{"id":7,"password":"[REDACTED]"}}"#.to_owned()),
        redact_body_text(json)
    );
    assert_eq!(Some("plain body".to_owned()), redact_body_text("plain body"));
}

#[test]
fn redact_body_text_redacts_colon_lines_and_keeps_line_structure() {
    let text = "\"apiKey\": \"sk-1\"\r\nname: bob\npassword: hunter2\n";
    assert_eq!(
        RedactedBody::Text("\"apiKey\": \"[REDACTED]\"\nname: bob\npassword: [REDACTED]".to_owned()),
        redact_body_document(text, None)
    );
}

#[test]
fn truncate_body_text_marks_cut_bodies() {
    let text = "abcdefgh";
    assert_eq!(text, truncate_body_text(text, 100));
    let truncated = truncate_body_text(text, 4);
    assert!(truncated.starts_with("abcd"));
    assert!(truncated.ends_with("[TRUNCATED]"));
}

#[test]
fn truncate_body_text_counts_characters_and_keeps_at_least_one() {
    assert_eq!("é[TRUNCATED]", truncate_body_text("éé", 1));
    assert_eq!("a[TRUNCATED]", truncate_body_text("ab", 0));
    assert_eq!("éé", truncate_body_text("éé", 2));
}

// ---------------------------------------------------------------------------
// Request ids
// ---------------------------------------------------------------------------

#[test]
fn request_log_id_is_uuid_v7_shaped() {
    let (id, _) = new_request_log_id(0).expect("random source");
    assert_eq!(36, id.len());
    assert_eq!('7', id.as_bytes()[14] as char);
    let variant = id.as_bytes()[19] as char;
    assert!(
        matches!(variant, '8' | '9' | 'a' | 'b'),
        "variant nibble must be 10xx, got {variant}"
    );
}

#[test]
fn request_log_ids_are_distinct_and_strictly_increasing() {
    let (first, key) = new_request_log_id(0).expect("random source");
    let (second, key) = new_request_log_id(key).expect("random source");
    let (third, _) = new_request_log_id(key).expect("random source");
    assert_ne!(first, second);
    assert!(first < second, "ids must be strictly increasing");
    assert!(second < third, "ids must be strictly increasing");
}

#[test]
fn request_log_id_layout_is_exact() {
    let random = [0xFFu8; 16];
    let id = format_request_log_id(random, 0x0123_4567_89AB, 0x1234);
    assert_eq!("01234567-89ab-7234-bfff-ffffffffffff", id);
}

#[test]
fn later_ids_sort_after_whatever_the_random_bytes() {
    let high = [0xFFu8; 16];
    let low = [0x00u8; 16];
    let same_ms_first = format_request_log_id(high, 1_700_000_000_000, 41);
    let same_ms_second = format_request_log_id(low, 1_700_000_000_000, 42);
    assert!(same_ms_first < same_ms_second);
    let next_ms = format_request_log_id(low, 1_700_000_000_001, 0);
    assert!(same_ms_second < next_ms);
    let carry = format_request_log_id(high, 1_700_000_000_000, 0x0FF);
    let carried = format_request_log_id(low, 1_700_000_000_000, 0x100);
    assert!(carry < carried);
}

#[test]
fn full_millisecond_carries_into_the_timestamp() {
    let ms: u64 = 1_700_000_000_000;
    let last = ms * 4096 + 4095;
    // The clock still reads the same millisecond: the key moves on anyway.
    let key = next_id_key(last, ms).expect("key");
    assert_eq!(last + 1, key);
    let before = format_id_for_key([0xFF; 16], last);
    let after = format_id_for_key([0x00; 16], key);
    assert!(before < after);
    assert_eq!(format_request_log_id([0x00; 16], ms + 1, 0), after);
    // A clock past the last key starts its own millisecond; a clock that went
    // back does not reorder ids.
    assert_eq!(Some((ms + 5) * 4096), next_id_key(last, ms + 5));
    assert_eq!(Some(last + 1), next_id_key(last, ms - 3));
    assert_eq!(None, next_id_key(ID_KEY_LIMIT - 1, 0));
}

// ---------------------------------------------------------------------------
// Retention
// ---------------------------------------------------------------------------

#[test]
fn parses_annotation_values() {
    assert_eq!(Some(LogRetention::Permanent), LogRetention::parse("permanent"));
    assert_eq!(Some(LogRetention::Permanent), LogRetention::parse("Permanent"));
    assert_eq!(Some(LogRetention::Days(30)), LogRetention::parse("30d"));
    assert_eq!(None, LogRetention::parse(""));
    assert_eq!(None, LogRetention::parse("0d"));
    assert_eq!(None, LogRetention::parse("-5d"));
    assert_eq!(None, LogRetention::parse("forever"));
    assert_eq!(None, LogRetention::parse("d"));
}

#[test]
fn parse_accepts_trimmed_signed_and_upper_case_forms() {
    assert_eq!(Some(LogRetention::Days(7)), LogRetention::parse("  +7D "));
    assert_eq!(Some(LogRetention::Permanent), LogRetention::parse(" PERMANENT\n"));
    assert_eq!(None, LogRetention::parse("99999999999999999999d"));
    assert_eq!(None, LogRetention::parse("1 d"));
}

#[test]
fn labels_and_expiry_follow_retention() {
    let now = 1_700_000_000;
    assert_eq!("permanent", LogRetention::Permanent.label());
    assert_eq!("30d", LogRetention::Days(30).label());
    assert_eq!(None, LogRetention::Permanent.expires_at_epoch(now));
    assert_eq!(Some(now + 30 * 86_400), LogRetention::Days(30).expires_at_epoch(now));
}

#[test]
fn label_parses_back_and_expiry_saturates() {
    for retention in [LogRetention::Permanent, LogRetention::Days(1), LogRetention::Days(365)] {
        assert_eq!(Some(retention), LogRetention::parse(&retention.label()));
    }
    assert_eq!("-3d", LogRetention::Days(-3).label());
    assert_eq!(Some(i64::MAX), LogRetention::Days(i64::MAX).expires_at_epoch(1));
}

#[test]
fn policy_resolves_longest_prefix_first() {
    let policy = LogRetentionPolicy {
        default_retention: LogRetention::Days(30),
        rules: vec![
            LogRetentionRule {
                path_prefix: "/backend/v3/api/billing".to_owned(),
                retention: LogRetention::Permanent,
            },
            LogRetentionRule {
                path_prefix: "/v1".to_owned(),
                retention: LogRetention::Permanent,
            },
            LogRetentionRule {
                path_prefix: "/backend/v3/api".to_owned(),
                retention: LogRetention::Days(60),
            },
        ],
    };
    assert_eq!(
        LogRetention::Permanent,
        policy.resolve("/backend/v3/api/billing/recharges/records")
    );
    assert_eq!(LogRetention::Days(60), policy.resolve("/backend/v3/api/iam/users"));
    assert_eq!(LogRetention::Permanent, policy.resolve("/v1/chat/completions"));
    assert_eq!(LogRetention::Days(30), policy.resolve("/app/v3/api/orders"));
}

#[test]
fn default_month_policy_keeps_every_path_thirty_days() {
    let policy = LogRetentionPolicy::default_month();
    assert_eq!(LogRetention::Days(30), policy.resolve("/backend/v3/api/log/echo"));
    assert!(policy.rules.is_empty());
}

// ---------------------------------------------------------------------------
// Client IPs
// ---------------------------------------------------------------------------

#[test]
fn masks_ipv4_last_octet() {
    assert_eq!("1.2.3.x".to_owned(), mask_client_ip(&ClientIpAddr::V4([1, 2, 3, 4])));
    assert_eq!("192.168.0.x".to_owned(), mask_client_ip(&ClientIpAddr::V4([192, 168, 0, 7])));
}

#[test]
fn masks_ipv6_to_subnet_prefix() {
    let addr = ClientIpAddr::V6([0x2001, 0xdb8, 0, 1, 0xdead, 0xbeef, 0, 1]);
    assert_eq!("2001:db8:0:1::/64".to_owned(), mask_client_ip(&addr));
}

#[test]
fn hash_is_stable_64_char_hex() {
    let hash = hash_client_ip("1.2.3.4");
    assert_eq!(64, hash.len());
    assert!(hash.chars().all(|ch| ch.is_ascii_hexdigit()));
    assert_eq!(hash, hash_client_ip("1.2.3.4"));
    assert_ne!(hash, hash_client_ip("1.2.3.5"));
    // SHA-256("abc")
    assert_eq!(
        "ba7816bf8f01cfea414140de5dae2223b00361a396177a9cb410ff61f20015ad",
        hash_client_ip("abc")
    );
}

#[test]
fn secret_fragments_match_in_any_case_and_position() {
    assert!(is_sensitive_field_name("X-My-PassWord-Hint"));
    assert!(is_sensitive_field_name("userApiKeyOld"));
    assert!(is_sensitive_field_name("  SMS_CODE  "));
    assert!(is_sensitive_field_name("refreshOTPValue"));
    assert!(!is_sensitive_field_name("page_size"));
    assert_eq!(
        is_sensitive_field_name("  Secret "),
        is_sensitive_field_name("secret")
    );
}

#[test]
fn query_redaction_is_idempotent() {
    let once = redact_query_params(Some("&page=2&&token=secret&flag&code=1")).expect("stored");
    assert_eq!("page=2&token=[REDACTED]&flag&code=[REDACTED]", once);
    assert_eq!(Some(once.clone()), redact_query_params(Some(&once)));
}

#[test]
fn allow_listed_headers_are_never_redacted() {
    for name in [
        "user-agent",
        "Content-Type",
        "accept",
        "accept-language",
        "origin",
        "x-forwarded-for",
        "x-real-ip",
        "x-client-kind",
        "x-sdkwork-client-kind",
        "x-request-id",
        "traceparent",
        "tracestate",
        " X-SDKWORK-TRACE-ID ",
    ] {
        assert!(is_safe_request_header(name));
        assert!(!is_sensitive_field_name(name));
    }
    assert!(!is_safe_request_header("referer"));
    assert!(!is_safe_request_header("authorization"));
}
