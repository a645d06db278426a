use sdkwork_log::record::LogApiSurface;
use sdkwork_log::redact::redact_query_params;
use sdkwork_log::web::{
    log_api_surface, request_log_record_from_state, web_auth_mode_str, web_environment_str,
    CallPrincipal, StageFailure, WebApiSurface, WebAuthMode, WebCallFacts, WebEnvironment,
};

fn state_with_traceparent() -> WebCallFacts {
    WebCallFacts {
        traceparent: Some("00-4bf92f3577b34da6a3ce929d0e0e4736-00f067aa0ba902b7-01".to_owned()),
        request_id: Some("req-server-1".to_owned()),
        principal: None,
        api_surface: WebApiSurface::BackendApi,
        path_template: "/backend/v3/api/log/request_logs".to_owned(),
        method: "GET".to_owned(),
        operation_id: Some("log.requestLogs.list".to_owned()),
        auth_mode: WebAuthMode::Public,
        elapsed_ms: Some(3),
        before_failure: None,
        redacted_query: redact_query_params(Some("trace_id=x&token=secret&page_size=20")),
        safe_request_headers: Some("{\"user-agent\":\"test-agent\"}".to_owned()),
    }
}

#[test]
fn record_uses_traceparent_trace_id() {
    let state = state_with_traceparent();
    let record = request_log_record_from_state(state, 200, Some("svc-test"), Some("prod"));
    assert_eq!("4bf92f3577b34da6a3ce929d0e0e4736", record.trace_id);
    assert_eq!("200", record.status_code.unwrap().to_string());
    assert_eq!(LogApiSurface::BackendApi, record.api_surface);
    assert_eq!(
        "/backend/v3/api/log/request_logs", record.path,
        "query string must not leak into the stored path"
    );
    assert_eq!(Some("log.requestLogs.list".to_owned()), record.operation_id);
    assert_eq!(Some("svc-test".to_owned()), record.service);
    assert_eq!(Some("prod".to_owned()), record.environment);
    assert_eq!(Some("public".to_owned()), record.auth_mode);
}

#[test]
fn record_falls_back_to_request_id_when_no_traceparent() {
    let mut state = state_with_traceparent();
    state.traceparent = None;
    let expected = state.request_id.clone().unwrap();
    let record = request_log_record_from_state(state, 500, None, None);
    assert_eq!(
        expected, record.trace_id,
        "request id fallback mirrors the framework ResponseIdentity stage"
    );
}

#[test]
fn record_carries_principal_tenant_and_user() {
    let mut state = state_with_traceparent();
    state.principal = Some(CallPrincipal {
        tenant_id: "100001".to_owned(),
        user_id: "user-1".to_owned(),
    });
    let record = request_log_record_from_state(state, 201, None, None);
    assert_eq!(Some("100001".to_owned()), record.tenant_id);
    assert_eq!(Some("user-1".to_owned()), record.user_id);
}

#[test]
fn record_captures_before_stage_error_code_and_stage() {
    let mut state = state_with_traceparent();
    state.auth_mode = WebAuthMode::DualToken;
    state.before_failure = Some(StageFailure {
        result_code: 40101,
        failed_stage: Some("request_context_resolution".to_owned()),
    });
    let record = request_log_record_from_state(state, 401, None, None);
    assert_eq!(Some(40101), record.error_code);
    assert_eq!(
        Some("request_context_resolution".to_owned()),
        record.failed_stage
    );
    assert_eq!(Some("dual-token".to_owned()), record.auth_mode);
}

#[test]
fn record_carries_redacted_query_params() {
    let mut state = state_with_traceparent();
    state.redacted_query = redact_query_params(Some("page=2&token=secret"));
    let record = request_log_record_from_state(state, 200, None, None);
    assert_eq!(Some("page=2&token=[REDACTED]".to_owned()), record.query_params);
    assert!(!record.query_params.as_deref().unwrap().contains("secret"));
}

#[test]
fn record_without_traceparent_or_request_id_uses_unknown() {
    let mut state = state_with_traceparent();
    state.traceparent = Some("not-a-traceparent".to_owned());
    state.request_id = None;
    let record = request_log_record_from_state(state, 200, None, None);
    assert_eq!("unknown", record.trace_id);
    assert_eq!("unknown", record.request_id);
}

#[test]
fn record_keeps_duration_headers_and_leaves_client_and_bodies_empty() {
    let state = state_with_traceparent();
    let record = request_log_record_from_state(state, 200, None, None);
    assert_eq!(Some(3), record.duration_ms);
    assert_eq!(
        Some("{\"user-agent\":\"test-agent\"}".to_owned()),
        record.request_headers
    );
    assert_eq!(
        Some("trace_id=x&token=[REDACTED]&page_size=20".to_owned()),
        record.query_params
    );
    assert_eq!("req-server-1", record.request_id);
    assert_eq!(None, record.tenant_id);
    assert_eq!(None, record.error_code);
    assert_eq!(None, record.client_ip_hash);
    assert_eq!(None, record.request_body);
    assert_eq!(None, record.response_body);
    assert_eq!(None, record.retention);
}

#[test]
fn environment_and_auth_mode_strings_are_canonical() {
    assert_eq!("dev", web_environment_str(WebEnvironment::Dev));
    assert_eq!("test", web_environment_str(WebEnvironment::Test));
    assert_eq!("prod", web_environment_str(WebEnvironment::Prod));
    assert_eq!("public", web_auth_mode_str(WebAuthMode::Public));
    assert_eq!("bootstrap-body", web_auth_mode_str(WebAuthMode::BootstrapBody));
    assert_eq!(
        "credential-entry-bootstrap",
        web_auth_mode_str(WebAuthMode::CredentialEntryBootstrap)
    );
    assert_eq!("refresh-token", web_auth_mode_str(WebAuthMode::RefreshToken));
    assert_eq!("api-key", web_auth_mode_str(WebAuthMode::ApiKey));
    assert_eq!("ingress-token", web_auth_mode_str(WebAuthMode::IngressToken));
    assert_eq!("agent-token", web_auth_mode_str(WebAuthMode::AgentToken));
    assert_eq!("oauth", web_auth_mode_str(WebAuthMode::OAuth));
    assert_eq!("dual-token", web_auth_mode_str(WebAuthMode::DualToken));
    assert_eq!("compatibility", web_auth_mode_str(WebAuthMode::Compatibility));
}

#[test]
fn framework_surfaces_map_to_log_surfaces() {
    assert_eq!(LogApiSurface::OpenApi, log_api_surface(WebApiSurface::OpenApi));
    assert_eq!(LogApiSurface::AppApi, log_api_surface(WebApiSurface::AppApi));
    assert_eq!(LogApiSurface::BackendApi, log_api_surface(WebApiSurface::BackendApi));
    assert_eq!(LogApiSurface::InternalApi, log_api_surface(WebApiSurface::InternalApi));
    assert_eq!(LogApiSurface::GatewayApi, log_api_surface(WebApiSurface::GatewayApi));
    assert_eq!(LogApiSurface::Unknown, log_api_surface(WebApiSurface::Unknown));
}
