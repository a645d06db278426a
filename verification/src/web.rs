//! Request log records of web-framework calls: the framework's call state
//! (after the handler, or after a rejecting interceptor stage) mapped to the
//! stored record.
use crate::capture::{trace_id_from_traceparent, traceparent_trace_id};
use crate::record::{ApiSurfaceModel, LogApiSurface, RequestLogRecord, opt_text};
use crate::redact::opt_chars;
use vstd::prelude::*;

verus! {

/// Deployment environment of the serving runtime.
#[derive(Clone, Copy, Debug, PartialEq, Eq)]
pub enum WebEnvironment {
    Dev,
    Test,
    Prod,
}

/// Authentication mode of the matched route.
#[derive(Clone, Copy, Debug, PartialEq, Eq)]
pub enum WebAuthMode {
    Public,
    BootstrapBody,
    CredentialEntryBootstrap,
    RefreshToken,
    ApiKey,
    IngressToken,
    AgentToken,
    OAuth,
    DualToken,
    Compatibility,
}

/// API surface classified by the web framework.
#[derive(Clone, Copy, Debug, PartialEq, Eq)]
pub enum WebApiSurface {
    OpenApi,
    AppApi,
    BackendApi,
    InternalApi,
    GatewayApi,
    Unknown,
}

/// Canonical environment text.
pub open spec fn environment_text(e: WebEnvironment) -> Seq<char> {
    match e {
        WebEnvironment::Dev => "dev"@,
        WebEnvironment::Test => "test"@,
        WebEnvironment::Prod => "prod"@,
    }
}

/// Canonical authentication-mode text.
pub open spec fn auth_mode_text(m: WebAuthMode) -> Seq<char> {
    match m {
        WebAuthMode::Public => "public"@,
        WebAuthMode::BootstrapBody => "bootstrap-body"@,
        WebAuthMode::CredentialEntryBootstrap => "credential-entry-bootstrap"@,
        WebAuthMode::RefreshToken => "refresh-token"@,
        WebAuthMode::ApiKey => "api-key"@,
        WebAuthMode::IngressToken => "ingress-token"@,
        WebAuthMode::AgentToken => "agent-token"@,
        WebAuthMode::OAuth => "oauth"@,
        WebAuthMode::DualToken => "dual-token"@,
        WebAuthMode::Compatibility => "compatibility"@,
    }
}

/// The log surface of a framework surface.
pub open spec fn log_surface_of(s: WebApiSurface) -> ApiSurfaceModel {
    match s {
        WebApiSurface::OpenApi => ApiSurfaceModel::OpenApi,
        WebApiSurface::AppApi => ApiSurfaceModel::AppApi,
        WebApiSurface::BackendApi => ApiSurfaceModel::BackendApi,
        WebApiSurface::InternalApi => ApiSurfaceModel::InternalApi,
        WebApiSurface::GatewayApi => ApiSurfaceModel::GatewayApi,
        WebApiSurface::Unknown => ApiSurfaceModel::Unknown,
    }
}

/// Canonical `WebEnvironment` string form (`dev` / `test` / `prod`).
pub fn web_environment_str(environment: WebEnvironment) -> (r: &'static str)
    ensures
        r@ == environment_text(environment),
{
    match environment {
        WebEnvironment::Dev => "dev",
        WebEnvironment::Test => "test",
        WebEnvironment::Prod => "prod",
    }
}

/// Canonical `WebAuthMode` string form.
pub fn web_auth_mode_str(auth_mode: WebAuthMode) -> (r: &'static str)
    ensures
        r@ == auth_mode_text(auth_mode),
{
    match auth_mode {
        WebAuthMode::Public => "public",
        WebAuthMode::BootstrapBody => "bootstrap-body",
        WebAuthMode::CredentialEntryBootstrap => "credential-entry-bootstrap",
        WebAuthMode::RefreshToken => "refresh-token",
        WebAuthMode::ApiKey => "api-key",
        WebAuthMode::IngressToken => "ingress-token",
        WebAuthMode::AgentToken => "agent-token",
        WebAuthMode::OAuth => "oauth",
        WebAuthMode::DualToken => "dual-token",
        WebAuthMode::Compatibility => "compatibility",
    }
}

/// The log surface of a framework surface.
pub fn log_api_surface(surface: WebApiSurface) -> (r: LogApiSurface)
    ensures
        r@ == log_surface_of(surface),
{
    match surface {
        WebApiSurface::OpenApi => LogApiSurface::OpenApi,
        WebApiSurface::AppApi => LogApiSurface::AppApi,
        WebApiSurface::BackendApi => LogApiSurface::BackendApi,
        WebApiSurface::InternalApi => LogApiSurface::InternalApi,
        WebApiSurface::GatewayApi => LogApiSurface::GatewayApi,
        WebApiSurface::Unknown => LogApiSurface::Unknown,
    }
}

/// A failure of an interceptor stage before the handler ran.
#[derive(Clone, Debug, PartialEq, Eq)]
pub struct StageFailure {
    /// Numeric platform problem code.
    pub result_code: i32,
    /// Name of the stage that rejected the request.
    pub failed_stage: Option<String>,
}

/// The authenticated subject of a call.
#[derive(Clone, Debug, PartialEq, Eq)]
pub struct CallPrincipal {
    pub tenant_id: String,
    pub user_id: String,
}

/// What the framework's call state holds of one call.
#[derive(Clone, Debug, PartialEq, Eq)]
pub struct WebCallFacts {
    /// Raw `traceparent` header value.
    pub traceparent: Option<String>,
    /// Server-owned request id.
    pub request_id: Option<String>,
    pub principal: Option<CallPrincipal>,
    pub api_surface: WebApiSurface,
    /// Redacted route template of the request path.
    pub path_template: String,
    pub method: String,
    pub operation_id: Option<String>,
    pub auth_mode: WebAuthMode,
    /// Milliseconds since the call was accepted, when it was.
    pub elapsed_ms: Option<u64>,
    pub before_failure: Option<StageFailure>,
    /// Query parameters redacted at capture time.
    pub redacted_query: Option<String>,
    /// Allow-listed request headers captured at capture time.
    pub safe_request_headers: Option<String>,
}

/// The trace id of a call: the `traceparent` trace id, else the request id,
/// else `unknown`.
pub open spec fn call_trace_id(facts: WebCallFacts) -> Seq<char> {
    let from_traceparent = match facts.traceparent {
        Some(tp) => traceparent_trace_id(tp@),
        None => None,
    };
    match from_traceparent {
        Some(t) => t,
        None => match facts.request_id {
            Some(id) => id@,
            None => "unknown"@,
        },
    }
}

/// Builds the request log record for one web call. The trace id is the
/// `traceparent` trace id with the request id as fallback; query parameters
/// and headers were redacted/allow-listed at capture time.
pub fn request_log_record_from_state(
    facts: WebCallFacts,
    status_code: u16,
    service: Option<&str>,
    environment: Option<&str>,
) -> (r: RequestLogRecord)
    ensures
        r.trace_id@ == call_trace_id(facts),
        r.request_id@ == (match facts.request_id {
            Some(id) => id@,
            None => "unknown"@,
        }),
        r.tenant_id matches Some(t) ==> facts.principal matches Some(p) && t@ == p.tenant_id@,
        r.tenant_id is None <==> facts.principal is None,
        r.user_id matches Some(u) ==> facts.principal matches Some(p) && u@ == p.user_id@,
        r.user_id is None <==> facts.principal is None,
        r.user_name is None,
        r.api_surface@ == log_surface_of(facts.api_surface),
        r.path@ == facts.path_template@,
        r.retention is None,
        r.method@ == facts.method@,
        opt_text(r.operation_id) == opt_text(facts.operation_id),
        opt_text(r.service) == (match service {
            Some(s) => Some(s@),
            None => None,
        }),
        opt_text(r.environment) == (match environment {
            Some(e) => Some(e@),
            None => None,
        }),
        opt_text(r.auth_mode) == Some(auth_mode_text(facts.auth_mode)),
        r.status_code == Some(status_code),
        r.duration_ms == facts.elapsed_ms,
        r.error_code == (match facts.before_failure {
            Some(f) => Some(f.result_code),
            None => None,
        }),
        opt_text(r.failed_stage) == (match facts.before_failure {
            Some(f) => opt_text(f.failed_stage),
            None => None,
        }),
        opt_text(r.query_params) == opt_text(facts.redacted_query),
        opt_text(r.request_headers) == opt_text(facts.safe_request_headers),
        r.client_ip_hash is None,
        r.client_ip_masked is None,
        r.request_body is None,
        r.response_body is None,
{
    let from_traceparent = match &facts.traceparent {
        Some(tp) => trace_id_from_traceparent(tp.as_str()),
        None => None,
    };
    let trace_id = match from_traceparent {
        Some(t) => t,
        None => match &facts.request_id {
            Some(id) => id.clone(),
            None => "unknown".to_owned(),
        },
    };
    let request_id = match &facts.request_id {
        Some(id) => id.clone(),
        None => "unknown".to_owned(),
    };
    let (tenant_id, user_id) = match &facts.principal {
        Some(p) => (Some(p.tenant_id.clone()), Some(p.user_id.clone())),
        None => (None, None),
    };
    let (error_code, failed_stage) = match &facts.before_failure {
        Some(f) => (Some(f.result_code), f.failed_stage.clone()),
        None => (None, None),
    };
    RequestLogRecord {
        trace_id,
        request_id,
        tenant_id,
        user_id,
        user_name: None,
        api_surface: log_api_surface(facts.api_surface),
        path: facts.path_template,
        retention: None,
        method: facts.method,
        operation_id: facts.operation_id,
        service: match service {
            Some(s) => Some(s.to_owned()),
            None => None,
        },
        environment: match environment {
            Some(e) => Some(e.to_owned()),
            None => None,
        },
        auth_mode: Some(web_auth_mode_str(facts.auth_mode).to_owned()),
        status_code: Some(status_code),
        duration_ms: facts.elapsed_ms,
        error_code,
        failed_stage,
        query_params: facts.redacted_query,
        request_headers: facts.safe_request_headers,
        client_ip_hash: None,
        client_ip_masked: None,
        request_body: None,
        response_body: None,
    }
}

} // verus!
