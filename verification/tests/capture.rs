use sdkwork_log::capture::{
    apply_retention_policy, build_record_metadata, capture_append, capture_utf8_text,
    complete_record, infer_api_surface, resolve_trace_id, should_buffer_body, stored_body,
    trace_id_from_traceparent, CaptureSettings, RequestFacts, DEFAULT_MAX_BODY_BUFFER_BYTES,
};
use sdkwork_log::ip::{forwarded_candidates, select_client_ip, ClientIp, ClientIpAddr};
use sdkwork_log::record::LogApiSurface;
use sdkwork_log::retention::{LogRetention, LogRetentionPolicy, LogRetentionRule};

#[test]
fn traceparent_parses_trace_id() {
    assert_eq!(
        Some("4bf92f3577b34da6a3ce929d0e0e4736".to_owned()),
        trace_id_from_traceparent("00-4bf92f3577b34da6a3ce929d0e0e4736-00f067aa0ba902b7-01")
    );
    assert_eq!(None, trace_id_from_traceparent("00-abc-00f-01"));
    assert_eq!(None, trace_id_from_traceparent(""));
}

#[test]
fn traceparent_trace_id_is_lowercased_and_needs_four_parts() {
    assert_eq!(
        Some("4bf92f3577b34da6a3ce929d0e0e4736".to_owned()),
        trace_id_from_traceparent(" 00-4BF92F3577B34DA6A3CE929D0E0E4736-00f067aa0ba902b7-01 ")
    );
    assert_eq!(
        None,
        trace_id_from_traceparent("00-4bf92f3577b34da6a3ce929d0e0e4736-00f067aa0ba902b7")
    );
    assert_eq!(
        None,
        trace_id_from_traceparent("00-4bf92f3577b34da6a3ce929d0e0e473g-00f067aa0ba902b7-01")
    );
}

#[test]
fn api_surface_inferred_from_prefix() {
    assert_eq!(LogApiSurface::BackendApi, infer_api_surface("/backend/v3/api/system/records"));
    assert_eq!(LogApiSurface::AppApi, infer_api_surface("/app/v3/api/chat/sessions"));
    assert_eq!(LogApiSurface::OpenApi, infer_api_surface("/open/v1/health"));
    assert_eq!(LogApiSurface::Unknown, infer_api_surface("/favicon.ico"));
    assert_eq!(LogApiSurface::InternalApi, infer_api_surface("/internal/jobs"));
    assert_eq!(LogApiSurface::GatewayApi, infer_api_surface("/gateway/x"));
    assert_eq!(LogApiSurface::OpenApi, infer_api_surface("/openapi.json"));
}

#[test]
fn binary_bodies_are_not_captured() {
    assert_eq!(None, capture_utf8_text(&[0xFF, 0x00, 0x01]));
    assert_eq!(Some("ok".to_owned()), capture_utf8_text(b"ok"));
}

#[test]
fn capture_buffer_never_exceeds_cap() {
    let mut captured = Vec::new();
    capture_append(&mut captured, b"hello", 8);
    assert_eq!(b"hello".to_vec(), captured);
    capture_append(&mut captured, b"world", 8);
    assert_eq!(b"hellowor".to_vec(), captured);
    capture_append(&mut captured, b"!", 8);
    assert_eq!(8, captured.len());
}

#[test]
fn request_bodies_are_buffered_only_within_the_cap() {
    assert!(should_buffer_body(None, 10));
    assert!(should_buffer_body(Some(10), 10));
    assert!(!should_buffer_body(Some(11), 10));
}

#[test]
fn settings_clamp_the_body_cap() {
    let settings = CaptureSettings::new();
    assert_eq!(DEFAULT_MAX_BODY_BUFFER_BYTES, settings.max_body_bytes);
    assert_eq!(1, CaptureSettings::new().with_max_body_bytes(0).max_body_bytes);
    assert_eq!(
        Some("svc".to_owned()),
        CaptureSettings::new().with_service("svc").service
    );
}

fn facts(headers: Vec<(&str, &str)>) -> RequestFacts {
    RequestFacts {
        raw_path: "/backend/v3/api/log/echo".to_owned(),
        query: None,
        method: "GET".to_owned(),
        headers: headers
            .into_iter()
            .map(|(name, value)| (name.to_owned(), Some(value.to_owned())))
            .collect(),
        path_template: None,
        tenant_id: None,
        user_id: None,
        user_name: None,
        api_surface: None,
        client_ip: None,
    }
}

fn v4(octets: [u8; 4]) -> ClientIp {
    ClientIp {
        addr: ClientIpAddr::V4(octets),
        canonical: format!("{}.{}.{}.{}", octets[0], octets[1], octets[2], octets[3]),
    }
}

#[test]
fn record_captures_masked_and_hashed_client_ip() {
    let mut request = facts(vec![("x-forwarded-for", "203.0.113.7")]);
    request.client_ip = select_client_ip(true, Some(v4([203, 0, 113, 7])), None, None);
    let record = build_record_metadata(request, "trace-1".to_owned(), None);
    assert_eq!(Some("203.0.113.x".to_owned()), record.client_ip_masked);
    let hash = record.client_ip_hash.expect("hash");
    assert_eq!(64, hash.len());
    assert!(hash.chars().all(|ch| ch.is_ascii_hexdigit()));
    // The raw address never lands in captured headers.
    assert!(!record.request_headers.as_deref().unwrap_or("").contains("203.0.113.7"));
}

#[test]
fn client_address_headers_are_left_out_of_captured_headers() {
    let request = facts(vec![
        ("x-real-ip", "198.51.100.4"),
        ("X-Forwarded-For", "198.51.100.5"),
        ("accept", "*/*"),
    ]);
    let record = build_record_metadata(request, "t".to_owned(), None);
    assert_eq!(Some("{\"accept\":\"*/*\"}".to_owned()), record.request_headers);
    let only_addresses = facts(vec![("x-real-ip", "198.51.100.4")]);
    let record = build_record_metadata(only_addresses, "t".to_owned(), None);
    assert_eq!(None, record.request_headers);
}

#[test]
fn client_ip_prefers_trusted_forwarded_headers() {
    let forwarded = Some(v4([1, 2, 3, 4]));
    let peer = Some(v4([10, 0, 0, 9]));
    assert_eq!(peer, select_client_ip(false, forwarded.clone(), None, peer.clone()));
    assert_eq!(forwarded, select_client_ip(true, forwarded.clone(), None, peer.clone()));
    assert_eq!(peer, select_client_ip(true, None, None, peer.clone()));
    let candidates = forwarded_candidates(" 1.2.3.4 , garbage,10.0.0.1");
    assert_eq!(vec!["1.2.3.4".to_owned(), "garbage".to_owned(), "10.0.0.1".to_owned()], candidates);
}

#[test]
fn record_metadata_resolves_trace_and_request_ids() {
    let request = facts(vec![
        ("traceparent", "00-4bf92f3577b34da6a3ce929d0e0e4736-00f067aa0ba902b7-01"),
        ("x-request-id", "req-42"),
        ("authorization", "Bearer secret"),
        ("user-agent", "agent"),
    ]);
    let trace_id = resolve_trace_id(&request.headers).expect("trace id");
    assert_eq!("4bf92f3577b34da6a3ce929d0e0e4736", trace_id);
    let mut request = request;
    request.query = Some("page=1&token=t".to_owned());
    let record = build_record_metadata(request, trace_id, Some("svc".to_owned()));
    assert_eq!("req-42", record.request_id);
    assert_eq!(LogApiSurface::BackendApi, record.api_surface);
    assert_eq!(Some("page=1&token=[REDACTED]".to_owned()), record.query_params);
    assert_eq!(
        Some(
            "{\"traceparent\":\"00-4bf92f3577b34da6a3ce929d0e0e4736-00f067aa0ba902b7-01\",\"user-agent\":\"agent\",\"x-request-id\":\"req-42\"}"
                .to_owned()
        ),
        record.request_headers
    );
    assert_eq!(Some("svc".to_owned()), record.service);

    let plain = facts(vec![("x-sdkwork-trace-id", "trace-x")]);
    assert_eq!(Some("trace-x".to_owned()), resolve_trace_id(&plain.headers));
    let record = build_record_metadata(plain, "trace-x".to_owned(), None);
    assert_eq!("trace-x", record.request_id);
    assert_eq!(None, resolve_trace_id(&facts(vec![]).headers));
}

#[test]
fn retention_policy_drives_row_retention_and_completion_fills_defaults() {
    let policy = LogRetentionPolicy {
        default_retention: LogRetention::Days(30),
        rules: vec![LogRetentionRule {
            path_prefix: "/backend/v3/api/billing".to_owned(),
            retention: LogRetention::Permanent,
        }],
    };
    let mut request = facts(vec![]);
    request.raw_path = "/backend/v3/api/billing/records".to_owned();
    let record = build_record_metadata(request, "t".to_owned(), None);
    let record = apply_retention_policy(record, &Some(policy));
    assert_eq!(Some(LogRetention::Permanent), record.retention);
    let record = complete_record(record, 200, 12, None, Some("{}".to_owned()));
    assert_eq!(Some("sdkwork-log-tower-adapter".to_owned()), record.service);
    assert_eq!(Some(200), record.status_code);
    assert_eq!(Some(12), record.duration_ms);
    assert_eq!(Some("{}".to_owned()), record.response_body);
}

fn v6(segments: [u16; 8], canonical: &str) -> ClientIp {
    ClientIp {
        addr: ClientIpAddr::V6(segments),
        canonical: canonical.to_owned(),
    }
}

#[test]
fn client_ip_ignores_forwarded_headers_by_default() {
    // The forwarded header parses to 1.2.3.4, but untrusted headers are ignored.
    let forwarded = Some(v4([1, 2, 3, 4]));
    assert_eq!(None, select_client_ip(false, forwarded, None, None));
}

#[test]
fn client_ip_trusts_forwarded_headers_when_enabled() {
    let candidates = forwarded_candidates("1.2.3.4, 10.0.0.1");
    assert_eq!("1.2.3.4", candidates[0]);
    assert_eq!(
        Some(v4([1, 2, 3, 4])),
        select_client_ip(true, Some(v4([1, 2, 3, 4])), None, None)
    );
    let real_ip = v6([0x2001, 0xdb8, 0, 0, 0, 0, 0, 1], "2001:db8::1");
    assert_eq!(
        Some(real_ip.clone()),
        select_client_ip(true, None, Some(real_ip), None)
    );
    // Malformed forwarded values parse to nothing, falling back to the
    // transport peer (absent here).
    assert_eq!(vec!["garbage".to_owned()], forwarded_candidates("garbage"));
    assert_eq!(None, select_client_ip(true, None, None, None));
}

#[test]
fn client_ip_falls_back_to_connect_info() {
    let forwarded = Some(v4([1, 2, 3, 4]));
    let peer = Some(v4([10, 0, 0, 9]));
    assert_eq!(
        peer,
        select_client_ip(false, forwarded.clone(), None, peer.clone()),
        "transport extension wins when forwarded headers are untrusted"
    );
    assert_eq!(
        forwarded,
        select_client_ip(true, forwarded.clone(), None, peer.clone()),
        "trusted forwarded header wins over the transport extension"
    );
}

#[test]
fn trace_id_falls_back_to_request_id() {
    let only_request_id = facts(vec![("x-request-id", "req-7")]);
    let trace_id = resolve_trace_id(&only_request_id.headers).expect("trace id");
    assert_eq!("req-7", trace_id);
    let record = build_record_metadata(only_request_id, trace_id, None);
    assert_eq!("req-7", record.trace_id);
    assert_eq!("req-7", record.request_id);
    assert_eq!("GET", record.method);
    // x-sdkwork-trace-id still comes before x-request-id.
    let both = facts(vec![("x-request-id", "req-7"), ("x-sdkwork-trace-id", "trace-s")]);
    assert_eq!(Some("trace-s".to_owned()), resolve_trace_id(&both.headers));
}

#[test]
fn record_carries_resolved_tenant_user_and_user_name() {
    let mut request = facts(vec![]);
    request.tenant_id = Some("100001".to_owned());
    request.user_id = Some("user-9".to_owned());
    request.user_name = Some("用户九".to_owned());
    let record = build_record_metadata(request, "t".to_owned(), None);
    assert_eq!(Some("100001".to_owned()), record.tenant_id);
    assert_eq!(Some("user-9".to_owned()), record.user_id);
    assert_eq!(Some("用户九".to_owned()), record.user_name);
}

#[test]
fn stored_body_keeps_redacted_utf8_text_within_the_cap() {
    assert_eq!(None, stored_body(&[0xFF, 0x00, 0x01], 100));
    assert_eq!(None, stored_body(b"   ", 100));
    assert_eq!(
        Some(r#"{"apiKey":"[REDACTED]","prompt":"hi"}"#.to_owned()),
        stored_body(br#"{"prompt":"hi","apiKey":"sk-secret"}"#, 1024)
    );
    assert_eq!(Some("token=[RED[TRUNCATED]".to_owned()), stored_body(b"token=abc", 10));
}
