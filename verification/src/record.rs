//! Request log domain records (framework-agnostic).
//!
//! Routes are stored as redacted templates, never raw paths; no tokens,
//! secrets, or sensitive payloads are stored.
use crate::retention::LogRetention;
use crate::text::{chars_eq_str, chars_of};
use vstd::prelude::*;

verus! {

/// API surface of the recorded request. Mirrors the web framework surfaces
/// with an `Other` escape hatch so non-HTTP transports (RPC, gateway) can
/// record too.
#[derive(Clone, Debug, PartialEq, Eq)]
pub enum LogApiSurface {
    OpenApi,
    AppApi,
    BackendApi,
    InternalApi,
    GatewayApi,
    Unknown,
    /// Transport surfaces not covered by the enum — raw canonical string.
    Other(String),
}

/// Mathematical model of a [`LogApiSurface`].
pub enum ApiSurfaceModel {
    OpenApi,
    AppApi,
    BackendApi,
    InternalApi,
    GatewayApi,
    Unknown,
    Other(Seq<char>),
}

impl View for LogApiSurface {
    type V = ApiSurfaceModel;

    open spec fn view(&self) -> ApiSurfaceModel {
        match self {
            LogApiSurface::OpenApi => ApiSurfaceModel::OpenApi,
            LogApiSurface::AppApi => ApiSurfaceModel::AppApi,
            LogApiSurface::BackendApi => ApiSurfaceModel::BackendApi,
            LogApiSurface::InternalApi => ApiSurfaceModel::InternalApi,
            LogApiSurface::GatewayApi => ApiSurfaceModel::GatewayApi,
            LogApiSurface::Unknown => ApiSurfaceModel::Unknown,
            LogApiSurface::Other(value) => ApiSurfaceModel::Other(value@),
        }
    }
}

/// Canonical lowercase string form of a surface (the `api_surface` column).
pub open spec fn surface_text(s: ApiSurfaceModel) -> Seq<char> {
    match s {
        ApiSurfaceModel::OpenApi => "open-api"@,
        ApiSurfaceModel::AppApi => "app-api"@,
        ApiSurfaceModel::BackendApi => "backend-api"@,
        ApiSurfaceModel::InternalApi => "internal-api"@,
        ApiSurfaceModel::GatewayApi => "gateway-api"@,
        ApiSurfaceModel::Unknown => "unknown"@,
        ApiSurfaceModel::Other(value) => value,
    }
}

/// The surface that a canonical string form denotes.
pub open spec fn surface_of_text(t: Seq<char>) -> ApiSurfaceModel {
    if t == "open-api"@ {
        ApiSurfaceModel::OpenApi
    } else if t == "app-api"@ {
        ApiSurfaceModel::AppApi
    } else if t == "backend-api"@ {
        ApiSurfaceModel::BackendApi
    } else if t == "internal-api"@ {
        ApiSurfaceModel::InternalApi
    } else if t == "gateway-api"@ {
        ApiSurfaceModel::GatewayApi
    } else if t == "unknown"@ {
        ApiSurfaceModel::Unknown
    } else {
        ApiSurfaceModel::Other(t)
    }
}

/// A surface in normal form: an `Other` never carries one of the six
/// canonical names (those have variants of their own).
pub open spec fn surface_is_normal(s: ApiSurfaceModel) -> bool {
    match s {
        ApiSurfaceModel::Other(t) => !(surface_of_text(t) !is Other),
        _ => true,
    }
}

impl LogApiSurface {
    /// Canonical lowercase string form (used as the `api_surface` column
    /// value).
    pub fn as_str(&self) -> (r: &str)
        ensures
            r@ == surface_text(self@),
    {
        match self {
            LogApiSurface::OpenApi => "open-api",
            LogApiSurface::AppApi => "app-api",
            LogApiSurface::BackendApi => "backend-api",
            LogApiSurface::InternalApi => "internal-api",
            LogApiSurface::GatewayApi => "gateway-api",
            LogApiSurface::Unknown => "unknown",
            LogApiSurface::Other(value) => value.as_str(),
        }
    }

    /// Parses a canonical string form back into the enum; any other text
    /// becomes `Other` with the text preserved.
    pub fn parse(value: &str) -> (r: LogApiSurface)
        ensures
            r@ == surface_of_text(value@),
    {
        let v = chars_of(value);
        if chars_eq_str(v.as_slice(), "open-api") {
            LogApiSurface::OpenApi
        } else if chars_eq_str(v.as_slice(), "app-api") {
            LogApiSurface::AppApi
        } else if chars_eq_str(v.as_slice(), "backend-api") {
            LogApiSurface::BackendApi
        } else if chars_eq_str(v.as_slice(), "internal-api") {
            LogApiSurface::InternalApi
        } else if chars_eq_str(v.as_slice(), "gateway-api") {
            LogApiSurface::GatewayApi
        } else if chars_eq_str(v.as_slice(), "unknown") {
            LogApiSurface::Unknown
        } else {
            LogApiSurface::Other(value.to_owned())
        }
    }

    /// The `Display` text of a surface (its canonical string form).
    pub fn to_display_string(&self) -> (r: String)
        ensures
            r@ == surface_text(self@),
    {
        self.as_str().to_owned()
    }
}

/// Parsing the canonical text of a surface gives the surface back, for every
/// surface in normal form.
pub proof fn lemma_surface_text_round_trip(s: ApiSurfaceModel)
    requires
        surface_is_normal(s),
    ensures
        surface_of_text(surface_text(s)) == s,
{
    reveal_strlit("open-api");
    reveal_strlit("app-api");
    reveal_strlit("backend-api");
    reveal_strlit("internal-api");
    reveal_strlit("gateway-api");
    reveal_strlit("unknown");
    assert("open-api"@[0] == 'o');
    assert("app-api"@[0] == 'a');
    assert("backend-api"@[0] == 'b');
    assert("internal-api"@[0] == 'i');
    assert("gateway-api"@[0] == 'g');
    assert("unknown"@[0] == 'u');
}

/// The canonical text of a parsed string is the string itself, for every
/// string.
pub proof fn lemma_surface_parse_round_trip(t: Seq<char>)
    ensures
        surface_text(surface_of_text(t)) == t,
        surface_is_normal(surface_of_text(t)),
{
}

/// Write model: one recorded HTTP request. Persisted by a request log store,
/// which assigns `id` and lifecycle timestamps.
#[derive(Clone, Debug, PartialEq, Eq)]
pub struct RequestLogRecord {
    /// Server-owned trace id (traceparent trace id / `x-sdkwork-trace-id`).
    pub trace_id: String,
    /// Server-owned request id, kept for correlation with audit rows.
    pub request_id: String,
    pub tenant_id: Option<String>,
    pub user_id: Option<String>,
    /// Display name of the user, when the host's resolver supplies one.
    pub user_name: Option<String>,
    pub api_surface: LogApiSurface,
    /// Redacted route template — never raw paths with identifiers.
    pub path: String,
    /// Retention resolved for this request (drives `expires_at`); `None`
    /// uses the store's default TTL.
    pub retention: Option<LogRetention>,
    pub method: String,
    pub operation_id: Option<String>,
    /// Service name supplied by the wiring application.
    pub service: Option<String>,
    /// Deployment environment (`dev` / `test` / `prod`).
    pub environment: Option<String>,
    /// Authentication mode (`public` / `api-key` / `dual-token` / ...).
    pub auth_mode: Option<String>,
    /// HTTP response status when the row is written after the handler.
    pub status_code: Option<u16>,
    /// Milliseconds from request acceptance to completion.
    pub duration_ms: Option<u64>,
    /// Numeric platform problem code for requests failed before the handler.
    pub error_code: Option<i32>,
    /// Interceptor stage that rejected the request before the handler.
    pub failed_stage: Option<String>,
    /// Redacted query parameters (`k=v&k=[REDACTED]`).
    pub query_params: Option<String>,
    /// Allow-listed safe request headers as a JSON object string.
    pub request_headers: Option<String>,
    /// SHA-256 hex digest of the client IP (never the raw address).
    pub client_ip_hash: Option<String>,
    /// Masked client IP for display (`1.2.3.x`, `2001:db8:0:1::/64`).
    pub client_ip_masked: Option<String>,
    /// Full request body text with sensitive values redacted.
    pub request_body: Option<String>,
    /// Full response body text with sensitive values redacted.
    pub response_body: Option<String>,
}

/// Read model: a persisted request log row with id and lifecycle timestamps.
#[derive(Clone, Debug, PartialEq, Eq)]
pub struct RequestLogRow {
    pub id: String,
    pub record: RequestLogRecord,
    /// Epoch seconds when the row was persisted.
    pub created_at: i64,
    /// Epoch seconds TTL expiry (`None` = never expires).
    pub expires_at: Option<i64>,
}

/// The character view of an optional string.
pub open spec fn opt_text(o: Option<String>) -> Option<Seq<char>> {
    match o {
        Some(s) => Some(s@),
        None => None,
    }
}

/// Mathematical model of a [`RequestLogRecord`].
pub struct RecordModel {
    pub trace_id: Seq<char>,
    pub request_id: Seq<char>,
    pub tenant_id: Option<Seq<char>>,
    pub user_id: Option<Seq<char>>,
    pub user_name: Option<Seq<char>>,
    pub api_surface: ApiSurfaceModel,
    pub path: Seq<char>,
    pub retention: Option<LogRetention>,
    pub method: Seq<char>,
    pub operation_id: Option<Seq<char>>,
    pub service: Option<Seq<char>>,
    pub environment: Option<Seq<char>>,
    pub auth_mode: Option<Seq<char>>,
    pub status_code: Option<u16>,
    pub duration_ms: Option<u64>,
    pub error_code: Option<i32>,
    pub failed_stage: Option<Seq<char>>,
    pub query_params: Option<Seq<char>>,
    pub request_headers: Option<Seq<char>>,
    pub client_ip_hash: Option<Seq<char>>,
    pub client_ip_masked: Option<Seq<char>>,
    pub request_body: Option<Seq<char>>,
    pub response_body: Option<Seq<char>>,
}

impl View for RequestLogRecord {
    type V = RecordModel;

    open spec fn view(&self) -> RecordModel {
        RecordModel {
            trace_id: self.trace_id@,
            request_id: self.request_id@,
            tenant_id: opt_text(self.tenant_id),
            user_id: opt_text(self.user_id),
            user_name: opt_text(self.user_name),
            api_surface: self.api_surface@,
            path: self.path@,
            retention: self.retention,
            method: self.method@,
            operation_id: opt_text(self.operation_id),
            service: opt_text(self.service),
            environment: opt_text(self.environment),
            auth_mode: opt_text(self.auth_mode),
            status_code: self.status_code,
            duration_ms: self.duration_ms,
            error_code: self.error_code,
            failed_stage: opt_text(self.failed_stage),
            query_params: opt_text(self.query_params),
            request_headers: opt_text(self.request_headers),
            client_ip_hash: opt_text(self.client_ip_hash),
            client_ip_masked: opt_text(self.client_ip_masked),
            request_body: opt_text(self.request_body),
            response_body: opt_text(self.response_body),
        }
    }
}

/// Mathematical model of a [`RequestLogRow`].
pub struct RowModel {
    pub id: Seq<char>,
    pub record: RecordModel,
    pub created_at: i64,
    pub expires_at: Option<i64>,
}

impl View for RequestLogRow {
    type V = RowModel;

    open spec fn view(&self) -> RowModel {
        RowModel {
            id: self.id@,
            record: self.record@,
            created_at: self.created_at,
            expires_at: self.expires_at,
        }
    }
}

} // verus!
