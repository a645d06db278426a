//! Request log query backend-api: wire items, tenant scoping, list query
//! validation and the store query a list request becomes.
use crate::query::{
    DEFAULT_LIST_PAGE_SIZE, MAX_LIST_PAGE_SIZE, RequestLogListQuery, is_unfiltered, normalized_page,
    normalized_page_size,
};
use crate::record::{RequestLogRow, opt_text, surface_of_text, surface_text};
use crate::store::RequestLogStoreError;
use crate::text::{chars_eq, chars_of, push_all, string_of};
use vstd::prelude::*;

verus! {

/// Request log list/search path (offset pagination, traceId filters).
pub const REQUEST_LOGS_PATH: &'static str = "/backend/v3/api/log/request_logs";

/// Request log detail path (full redacted request/response bodies).
pub const REQUEST_LOG_DETAIL_PATH: &'static str = "/backend/v3/api/log/request_logs/{id}";

/// Permission to read the caller's own tenant's request logs.
pub const PERM_LOG_TENANT_READ: &'static str = "log.tenant.read";

/// Permission to read request logs of every tenant.
pub const PERM_LOG_PLATFORM_READ: &'static str = "log.platform.read";

/// Offset list query for request logs, as received.
#[derive(Clone, Debug, PartialEq, Eq, Default)]
pub struct AdminLogListQuery {
    /// Accepted for contract compatibility; rows are not environment-scoped.
    pub environment: Option<String>,
    pub tenant_id: Option<String>,
    pub trace_id: Option<String>,
    pub request_id: Option<String>,
    pub api_surface: Option<String>,
    /// HTTP method filter (for example `GET`).
    pub method: Option<String>,
    pub operation_id: Option<String>,
    pub service: Option<String>,
    /// HTTP status code filter (`100..=599`).
    pub status: Option<i32>,
    /// Inclusive lower bound on `duration_ms` (milliseconds).
    pub duration_min: Option<i64>,
    /// Inclusive upper bound on `duration_ms` (milliseconds).
    pub duration_max: Option<i64>,
    /// Inclusive `created_at` lower bound (epoch seconds).
    pub created_from: Option<i64>,
    /// Inclusive `created_at` upper bound (epoch seconds).
    pub created_to: Option<i64>,
    pub page: Option<i64>,
    pub page_size: Option<i64>,
    /// Legacy alias of `page_size`.
    pub limit: Option<i64>,
}

/// A problem answered by the query API.
#[derive(Clone, Debug, PartialEq, Eq)]
pub enum LogApiProblem {
    /// The caller has no tenant context.
    MissingTenant,
    /// The caller has no application context.
    MissingApp,
    /// The caller lacks permission, or asked for another tenant.
    Forbidden(String),
    /// A query parameter is invalid.
    BadRequest(String),
    /// The requested row does not exist or is not visible to the caller.
    NotFound(String),
    /// The request log store failed.
    DependencyUnavailable(String),
}

/// What the authenticated request context tells about the caller.
#[derive(Clone, Debug, PartialEq, Eq)]
pub struct ReadScope {
    /// The caller's tenant, when the context has one.
    pub tenant_id: Option<String>,
    /// The caller's application, when the context has one.
    pub app_id: Option<String>,
    /// Permissions granted to the caller.
    pub permissions: Vec<String>,
}

/// The caller holds `perm`.
pub open spec fn holds(scope: ReadScope, perm: Seq<char>) -> bool {
    exists|i: int| 0 <= i < scope.permissions@.len() && (#[trigger] scope.permissions@[i])@ == perm
}

/// The caller holds permission `perm`.
pub fn has_permission(scope: &ReadScope, perm: &str) -> (r: bool)
    ensures
        r == holds(*scope, perm@),
{
    let p = chars_of(perm);
    let mut i: usize = 0;
    while i < scope.permissions.len()
        invariant
            p@ == perm@,
            0 <= i <= scope.permissions@.len(),
            forall|j: int| 0 <= j < i ==> (#[trigger] scope.permissions@[j])@ != perm@,
        decreases scope.permissions@.len() - i,
    {
        let q = chars_of(scope.permissions[i].as_str());
        if chars_eq(q.as_slice(), p.as_slice()) {
            return true;
        }
        i = i + 1;
    }
    false
}

/// Requires an authenticated tenant/app principal with `log.tenant.read` or
/// `log.platform.read`.
pub fn require_tenant_read(scope: &ReadScope) -> (r: Result<(), LogApiProblem>)
    ensures
        r is Err <==> (scope.tenant_id is None || scope.app_id is None || !(holds(
            *scope,
            PERM_LOG_TENANT_READ@,
        ) || holds(*scope, PERM_LOG_PLATFORM_READ@))),
        scope.tenant_id is None ==> r == Err::<(), LogApiProblem>(LogApiProblem::MissingTenant),
        scope.tenant_id is Some && scope.app_id is None ==> r == Err::<(), LogApiProblem>(
            LogApiProblem::MissingApp,
        ),
        r matches Err(LogApiProblem::Forbidden(m)) ==> m@ == "missing required permission: log.tenant.read"@,
        scope.tenant_id is Some && scope.app_id is Some && r is Err ==> r matches Err(
            LogApiProblem::Forbidden(_),
        ),
{
    if scope.tenant_id.is_none() {
        return Err(LogApiProblem::MissingTenant);
    }
    if scope.app_id.is_none() {
        return Err(LogApiProblem::MissingApp);
    }
    if has_permission(scope, PERM_LOG_TENANT_READ) || has_permission(scope, PERM_LOG_PLATFORM_READ) {
        return Ok(());
    }
    Err(LogApiProblem::Forbidden("missing required permission: log.tenant.read".to_owned()))
}

/// Resolves the tenant scope for list queries — tenant admins never receive
/// cross-tenant or tenant-less rows.
///
/// - `log.platform.read`: the requested `tenant_id` is honored; none (or
///   empty) means platform-wide.
/// - otherwise: always the authenticated tenant; a different non-empty
///   `tenant_id` parameter is refused.
pub fn resolve_list_tenant_id(scope: &ReadScope, query_tenant_id: Option<&str>) -> (r: Result<
    Option<String>,
    LogApiProblem,
>)
    ensures
        holds(*scope, PERM_LOG_PLATFORM_READ@) ==> (r matches Ok(t) && opt_text(t) == (match query_tenant_id {
            Some(q) => if q@.len() > 0 {
                Some(q@)
            } else {
                None
            },
            None => None,
        })),
        !holds(*scope, PERM_LOG_PLATFORM_READ@) && scope.tenant_id is None ==> r == Err::<
            Option<String>,
            LogApiProblem,
        >(LogApiProblem::MissingTenant),
        !holds(*scope, PERM_LOG_PLATFORM_READ@) ==> (scope.tenant_id matches Some(own) ==> (
        match query_tenant_id {
            Some(q) if q@.len() > 0 && q@ != own@ => r matches Err(LogApiProblem::Forbidden(m))
                && m@ == "tenant_id query parameter does not match authenticated tenant"@,
            _ => r matches Ok(Some(t)) && t@ == own@,
        })),
{
    if has_permission(scope, PERM_LOG_PLATFORM_READ) {
        return Ok(
            match query_tenant_id {
                Some(q) => if q.is_empty() {
                    None
                } else {
                    Some(q.to_owned())
                },
                None => None,
            },
        );
    }
    let tenant = match &scope.tenant_id {
        Some(t) => t,
        None => return Err(LogApiProblem::MissingTenant),
    };
    if let Some(requested) = query_tenant_id {
        if !requested.is_empty() {
            let rv = chars_of(requested);
            let tv = chars_of(tenant.as_str());
            if !chars_eq(rv.as_slice(), tv.as_slice()) {
                return Err(
                    LogApiProblem::Forbidden(
                        "tenant_id query parameter does not match authenticated tenant".to_owned(),
                    ),
                );
            }
        }
    }
    Ok(Some(tenant.clone()))
}

/// A stored row is visible to a tenant scope: platform-wide scopes see every
/// row, tenant scopes only rows of their tenant.
pub open spec fn row_visible_in(row_tenant: Option<Seq<char>>, scope: Option<Seq<char>>) -> bool {
    match scope {
        Some(s) => row_tenant == Some(s),
        None => true,
    }
}

/// Tenant isolation of the detail endpoint (a foreign row is reported as
/// not found, so its existence is not leaked).
pub fn row_visible(row: &RequestLogRow, tenant_scope: &Option<String>) -> (r: bool)
    ensures
        r == row_visible_in(opt_text(row.record.tenant_id), opt_text(*tenant_scope)),
{
    match tenant_scope {
        Some(scope) => match &row.record.tenant_id {
            Some(t) => {
                let a = chars_of(t.as_str());
                let b = chars_of(scope.as_str());
                chars_eq(a.as_slice(), b.as_slice())
            },
            None => false,
        },
        None => true,
    }
}

/// The detail answer for a looked-up row: the row when it exists and is
/// visible, else not found.
pub fn visible_detail(row: Option<RequestLogRow>, tenant_scope: &Option<String>) -> (r: Result<
    LogRequestDetailItem,
    LogApiProblem,
>)
    ensures
        match row {
            Some(found) => if row_visible_in(opt_text(found.record.tenant_id), opt_text(*tenant_scope)) {
                r matches Ok(item) && item.summary.id@ == found.id@
            } else {
                r matches Err(LogApiProblem::NotFound(m)) && m@ == "request log was not found"@
            },
            None => r matches Err(LogApiProblem::NotFound(m)) && m@ == "request log was not found"@,
        },
        r matches Ok(item) ==> row matches Some(found) && item_of_row(item, found),
{
    match row {
        Some(found) => if row_visible(&found, tenant_scope) {
            Ok(LogRequestDetailItem::from_row(found))
        } else {
            Err(LogApiProblem::NotFound("request log was not found".to_owned()))
        },
        None => Err(LogApiProblem::NotFound("request log was not found".to_owned())),
    }
}

/// The status filter is an HTTP status code (`100..=599`) when present.
pub fn check_status_filter(status: Option<i32>) -> (r: Result<(), LogApiProblem>)
    ensures
        r is Ok <==> (status matches Some(s) ==> 100 <= s <= 599),
        r matches Err(p) ==> (p matches LogApiProblem::BadRequest(m) && m@
            == "status must be an HTTP status code in 100..599"@),
{
    if let Some(s) = status {
        if !(100 <= s && s <= 599) {
            return Err(
                LogApiProblem::BadRequest("status must be an HTTP status code in 100..599".to_owned()),
            );
        }
    }
    Ok(())
}

/// The requested page size: `page_size`, else the legacy `limit`.
pub open spec fn merged_page_size(page_size: Option<i64>, legacy_limit: Option<i64>) -> Option<i64> {
    if page_size is Some {
        page_size
    } else {
        legacy_limit
    }
}

/// The requested page size: `page_size`, else the legacy `limit`; a size
/// outside `1..=200` (an explicit 0 among them) is invalid.
pub fn merge_page_size(page_size: Option<i64>, legacy_limit: Option<i64>) -> (r: Result<
    Option<i64>,
    LogApiProblem,
>)
    ensures
        ({
            let merged = merged_page_size(page_size, legacy_limit);
            if merged matches Some(n) && !(1 <= n <= MAX_LIST_PAGE_SIZE) {
                r matches Err(LogApiProblem::BadRequest(m)) && m@ == "invalid parameter"@
            } else {
                r == Ok::<Option<i64>, LogApiProblem>(merged)
            }
        }),
{
    let merged = if page_size.is_some() {
        page_size
    } else {
        legacy_limit
    };
    if let Some(n) = merged {
        if n < 1 || n > MAX_LIST_PAGE_SIZE {
            return Err(LogApiProblem::BadRequest("invalid parameter".to_owned()));
        }
    }
    Ok(merged)
}

/// Validated offset pagination of a list request.
#[derive(Clone, Copy, Debug, PartialEq, Eq)]
pub struct OffsetListPageParams {
    /// 1-based page number.
    pub page: i64,
    /// Rows per page, in `1..=200`.
    pub page_size: i64,
}

/// The pagination a request asks for: `page` (default 1, at least 1) and the
/// merged page size (default 20, within `1..=200`); `None` when either is out
/// of bounds.
pub open spec fn offset_params_of(
    page: Option<i64>,
    page_size: Option<i64>,
    legacy_limit: Option<i64>,
) -> Option<(i64, i64)> {
    let p = match page {
        Some(p) => p,
        None => 1,
    };
    let n = match merged_page_size(page_size, legacy_limit) {
        Some(n) => n,
        None => DEFAULT_LIST_PAGE_SIZE,
    };
    if 1 <= p && 1 <= n <= MAX_LIST_PAGE_SIZE {
        Some((p, n))
    } else {
        None
    }
}

/// Validates the offset pagination parameters of a list request; invalid
/// pages or page sizes are a bad request.
pub fn validated_offset_params(
    page: Option<i64>,
    page_size: Option<i64>,
    legacy_limit: Option<i64>,
) -> (r: Result<OffsetListPageParams, LogApiProblem>)
    ensures
        match offset_params_of(page, page_size, legacy_limit) {
            Some((p, n)) => r == Ok::<OffsetListPageParams, LogApiProblem>(
                OffsetListPageParams { page: p, page_size: n },
            ),
            None => r matches Err(LogApiProblem::BadRequest(m)) && m@ == "invalid parameter"@,
        },
{
    let merged = match merge_page_size(page_size, legacy_limit) {
        Ok(m) => m,
        Err(problem) => return Err(problem),
    };
    let page = match page {
        Some(p) => p,
        None => 1,
    };
    if page < 1 {
        return Err(LogApiProblem::BadRequest("invalid parameter".to_owned()));
    }
    let page_size = match merged {
        Some(n) => n,
        None => DEFAULT_LIST_PAGE_SIZE,
    };
    Ok(OffsetListPageParams { page, page_size })
}

/// An optional filter value with empty strings dropped.
pub open spec fn non_empty(v: Option<Seq<char>>) -> Option<Seq<char>> {
    match v {
        Some(s) => if s.len() > 0 {
            Some(s)
        } else {
            None
        },
        None => None,
    }
}

fn non_empty_string(v: Option<String>) -> (r: Option<String>)
    ensures
        opt_text(r) == non_empty(opt_text(v)),
{
    match v {
        Some(s) => if s.as_str().is_empty() {
            None
        } else {
            Some(s)
        },
        None => None,
    }
}

/// The store query of a validated list request on page `page` of
/// `page_size` rows, scoped to `tenant_id`: empty text filters are dropped,
/// the surface text is parsed, and the status, `duration_ms` range and
/// `created_at` range are passed on.
pub fn store_query_from_admin(
    query: AdminLogListQuery,
    tenant_id: Option<String>,
    page: i64,
    page_size: i64,
) -> (q: RequestLogListQuery)
    requires
        query.status matches Some(s) ==> 100 <= s <= 599,
    ensures
        q.page == normalized_page(page),
        q.page_size == normalized_page_size(page_size),
        opt_text(q.tenant_id) == opt_text(tenant_id),
        opt_text(q.trace_id) == non_empty(opt_text(query.trace_id)),
        opt_text(q.request_id) == non_empty(opt_text(query.request_id)),
        match (q.api_surface, non_empty(opt_text(query.api_surface))) {
            (Some(s), Some(t)) => s@ == surface_of_text(t),
            (None, None) => true,
            _ => false,
        },
        opt_text(q.operation_id) == non_empty(opt_text(query.operation_id)),
        opt_text(q.service) == non_empty(opt_text(query.service)),
        q.status_code == (match query.status {
            Some(s) => Some(s as u16),
            None => None,
        }),
        q.created_from == query.created_from,
        q.created_to == query.created_to,
        opt_text(q.method) == non_empty(opt_text(query.method)),
        q.duration_min == query.duration_min,
        q.duration_max == query.duration_max,
{
    let mut store_query = RequestLogListQuery::new(page, page_size);
    store_query.tenant_id = tenant_id;
    store_query.trace_id = non_empty_string(query.trace_id);
    store_query.request_id = non_empty_string(query.request_id);
    store_query.api_surface = match non_empty_string(query.api_surface) {
        Some(v) => Some(crate::record::LogApiSurface::parse(v.as_str())),
        None => None,
    };
    store_query.operation_id = non_empty_string(query.operation_id);
    store_query.service = non_empty_string(query.service);
    store_query.method = non_empty_string(query.method);
    store_query.duration_min = query.duration_min;
    store_query.duration_max = query.duration_max;
    store_query.status_code = match query.status {
        Some(s) => Some(s as u16),
        None => None,
    };
    store_query.created_from = query.created_from;
    store_query.created_to = query.created_to;
    store_query
}

/// The answer to a store failure.
pub fn store_error_problem(error: &RequestLogStoreError) -> (p: LogApiProblem)
    ensures
        p matches LogApiProblem::DependencyUnavailable(m) && m@ == "request log store error: "@
            + error.message@,
{
    let mut v = chars_of("request log store error: ");
    let m = chars_of(error.message.as_str());
    push_all(&mut v, m.as_slice());
    LogApiProblem::DependencyUnavailable(string_of(v.as_slice()))
}

/// One request log row on the wire.
#[derive(Clone, Debug, PartialEq, Eq)]
pub struct LogRequestListItem {
    pub id: String,
    pub trace_id: String,
    pub request_id: String,
    pub tenant_id: Option<String>,
    pub user_id: Option<String>,
    pub api_surface: String,
    pub path: String,
    pub method: String,
    pub operation_id: Option<String>,
    pub service: Option<String>,
    pub environment: Option<String>,
    pub auth_mode: Option<String>,
    pub status_code: Option<i32>,
    pub duration_ms: Option<i64>,
    pub error_code: Option<i32>,
    pub failed_stage: Option<String>,
    /// Redacted query parameters (`k=v&k=[REDACTED]`).
    pub query_params: Option<String>,
    /// Allow-listed safe request headers as a JSON object string.
    pub request_headers: Option<String>,
    pub created_at: i64,
    pub expires_at: Option<i64>,
}

/// `item` is the wire form of `row` (bodies excluded).
pub open spec fn list_item_of_row(item: LogRequestListItem, row: RequestLogRow) -> bool {
    &&& item.id@ == row.id@
    &&& item.trace_id@ == row.record.trace_id@
    &&& item.request_id@ == row.record.request_id@
    &&& opt_text(item.tenant_id) == opt_text(row.record.tenant_id)
    &&& opt_text(item.user_id) == opt_text(row.record.user_id)
    &&& item.api_surface@ == surface_text(row.record.api_surface@)
    &&& item.path@ == row.record.path@
    &&& item.method@ == row.record.method@
    &&& opt_text(item.operation_id) == opt_text(row.record.operation_id)
    &&& opt_text(item.service) == opt_text(row.record.service)
    &&& opt_text(item.environment) == opt_text(row.record.environment)
    &&& opt_text(item.auth_mode) == opt_text(row.record.auth_mode)
    &&& item.status_code == (match row.record.status_code {
        Some(s) => Some(s as i32),
        None => None,
    })
    &&& item.duration_ms == (match row.record.duration_ms {
        Some(d) => Some(d as i64),
        None => None,
    })
    &&& item.error_code == row.record.error_code
    &&& opt_text(item.failed_stage) == opt_text(row.record.failed_stage)
    &&& opt_text(item.query_params) == opt_text(row.record.query_params)
    &&& opt_text(item.request_headers) == opt_text(row.record.request_headers)
    &&& item.created_at == row.created_at
    &&& item.expires_at == row.expires_at
}

impl LogRequestListItem {
    /// The wire form of a row; list responses never carry bodies.
    pub fn from_row(row: RequestLogRow) -> (item: LogRequestListItem)
        ensures
            list_item_of_row(item, row),
    {
        let api_surface = row.record.api_surface.as_str().to_owned();
        LogRequestListItem {
            id: row.id,
            trace_id: row.record.trace_id,
            request_id: row.record.request_id,
            tenant_id: row.record.tenant_id,
            user_id: row.record.user_id,
            api_surface,
            path: row.record.path,
            method: row.record.method,
            operation_id: row.record.operation_id,
            service: row.record.service,
            environment: row.record.environment,
            auth_mode: row.record.auth_mode,
            status_code: match row.record.status_code {
                Some(s) => Some(s as i32),
                None => None,
            },
            duration_ms: match row.record.duration_ms {
                Some(d) => Some(d as i64),
                None => None,
            },
            error_code: row.record.error_code,
            failed_stage: row.record.failed_stage,
            query_params: row.record.query_params,
            request_headers: row.record.request_headers,
            created_at: row.created_at,
            expires_at: row.expires_at,
        }
    }
}

/// Full request log row on the wire, including the redacted request/response
/// bodies — served only by the detail endpoint.
#[derive(Clone, Debug, PartialEq, Eq)]
pub struct LogRequestDetailItem {
    pub summary: LogRequestListItem,
    /// Full redacted request body text.
    pub request_body: Option<String>,
    /// Full redacted response body text.
    pub response_body: Option<String>,
}

/// `item` is the detail wire form of `row`.
pub open spec fn item_of_row(item: LogRequestDetailItem, row: RequestLogRow) -> bool {
    &&& list_item_of_row(item.summary, row)
    &&& opt_text(item.request_body) == opt_text(row.record.request_body)
    &&& opt_text(item.response_body) == opt_text(row.record.response_body)
}

impl LogRequestDetailItem {
    /// The detail wire form of a row, bodies included.
    pub fn from_row(row: RequestLogRow) -> (item: LogRequestDetailItem)
        ensures
            item_of_row(item, row),
    {
        let request_body = row.record.request_body.clone();
        let response_body = row.record.response_body.clone();
        LogRequestDetailItem { request_body, response_body, summary: LogRequestListItem::from_row(row) }
    }
}

/// Resource envelope for the detail endpoint.
#[derive(Clone, Debug, PartialEq, Eq)]
pub struct LogRequestDetailEnvelope {
    pub item: LogRequestDetailItem,
}

} // verus!
