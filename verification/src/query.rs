//! Offset-mode list query and page result.
use crate::record::{LogApiSurface, RequestLogRow};
use vstd::prelude::*;

verus! {

/// Default rows per page.
pub const DEFAULT_LIST_PAGE_SIZE: i64 = 20;

/// Maximum rows per page.
pub const MAX_LIST_PAGE_SIZE: i64 = 200;

/// Offset-mode request log list query. Filtering, sorting, and page
/// selection are pushed to SQL (`LIMIT`/`OFFSET`) by store implementations.
#[derive(Clone, Debug, PartialEq, Eq)]
pub struct RequestLogListQuery {
    pub trace_id: Option<String>,
    pub request_id: Option<String>,
    pub tenant_id: Option<String>,
    pub api_surface: Option<LogApiSurface>,
    /// HTTP method filter (for example `GET`).
    pub method: Option<String>,
    pub operation_id: Option<String>,
    pub service: Option<String>,
    pub status_code: Option<u16>,
    /// Inclusive lower bound on `duration_ms` (milliseconds).
    pub duration_min: Option<i64>,
    /// Inclusive upper bound on `duration_ms` (milliseconds).
    pub duration_max: Option<i64>,
    /// Inclusive lower bound on `created_at` (epoch seconds).
    pub created_from: Option<i64>,
    /// Inclusive upper bound on `created_at` (epoch seconds).
    pub created_to: Option<i64>,
    /// 1-based page number.
    pub page: i64,
    /// Rows per page, clamped to `1..=MAX_LIST_PAGE_SIZE`.
    pub page_size: i64,
}

/// The page a requested page number denotes (at least 1).
pub open spec fn normalized_page(page: i64) -> i64 {
    if page < 1 {
        1
    } else {
        page
    }
}

/// The page size a requested size denotes (clamped to `1..=200`).
pub open spec fn normalized_page_size(page_size: i64) -> i64 {
    if page_size < 1 {
        1
    } else if page_size > MAX_LIST_PAGE_SIZE {
        MAX_LIST_PAGE_SIZE
    } else {
        page_size
    }
}

/// A query with no filters on the given page.
pub open spec fn is_unfiltered(q: RequestLogListQuery) -> bool {
    &&& q.trace_id is None
    &&& q.request_id is None
    &&& q.tenant_id is None
    &&& q.api_surface is None
    &&& q.method is None
    &&& q.operation_id is None
    &&& q.service is None
    &&& q.status_code is None
    &&& q.duration_min is None
    &&& q.duration_max is None
    &&& q.created_from is None
    &&& q.created_to is None
}

/// Page bounds hold: `page >= 1` and `1 <= page_size <= 200`.
pub open spec fn page_bounds_hold(q: RequestLogListQuery) -> bool {
    q.page >= 1 && 1 <= q.page_size <= MAX_LIST_PAGE_SIZE
}

/// Rows skipped before a page.
pub open spec fn page_offset(q: RequestLogListQuery) -> int {
    (q.page - 1) * q.page_size
}

impl RequestLogListQuery {
    /// Unfiltered query on `page` (at least 1) with `page_size` clamped to
    /// `1..=MAX_LIST_PAGE_SIZE`.
    pub fn new(page: i64, page_size: i64) -> (q: RequestLogListQuery)
        ensures
            is_unfiltered(q),
            q.page == normalized_page(page),
            q.page_size == normalized_page_size(page_size),
            page_bounds_hold(q),
    {
        let page = if page < 1 {
            1
        } else {
            page
        };
        let page_size = if page_size < 1 {
            1
        } else if page_size > MAX_LIST_PAGE_SIZE {
            MAX_LIST_PAGE_SIZE
        } else {
            page_size
        };
        RequestLogListQuery {
            trace_id: None,
            request_id: None,
            tenant_id: None,
            api_surface: None,
            method: None,
            operation_id: None,
            service: None,
            status_code: None,
            duration_min: None,
            duration_max: None,
            created_from: None,
            created_to: None,
            page,
            page_size,
        }
    }

    pub fn with_trace_id(self, trace_id: &str) -> (q: RequestLogListQuery)
        ensures
            q.trace_id matches Some(t) && t@ == trace_id@,
            q == (RequestLogListQuery { trace_id: q.trace_id, ..self }),
    {
        RequestLogListQuery { trace_id: Some(trace_id.to_owned()), ..self }
    }

    pub fn with_request_id(self, request_id: &str) -> (q: RequestLogListQuery)
        ensures
            q.request_id matches Some(t) && t@ == request_id@,
            q == (RequestLogListQuery { request_id: q.request_id, ..self }),
    {
        RequestLogListQuery { request_id: Some(request_id.to_owned()), ..self }
    }

    pub fn with_tenant_id(self, tenant_id: &str) -> (q: RequestLogListQuery)
        ensures
            q.tenant_id matches Some(t) && t@ == tenant_id@,
            q == (RequestLogListQuery { tenant_id: q.tenant_id, ..self }),
    {
        RequestLogListQuery { tenant_id: Some(tenant_id.to_owned()), ..self }
    }

    pub fn with_method(self, method: &str) -> (q: RequestLogListQuery)
        ensures
            q.method matches Some(t) && t@ == method@,
            q == (RequestLogListQuery { method: q.method, ..self }),
    {
        RequestLogListQuery { method: Some(method.to_owned()), ..self }
    }

    pub fn with_api_surface(self, api_surface: LogApiSurface) -> (q: RequestLogListQuery)
        ensures
            q == (RequestLogListQuery { api_surface: Some(api_surface), ..self }),
    {
        RequestLogListQuery { api_surface: Some(api_surface), ..self }
    }

    pub fn with_operation_id(self, operation_id: &str) -> (q: RequestLogListQuery)
        ensures
            q.operation_id matches Some(t) && t@ == operation_id@,
            q == (RequestLogListQuery { operation_id: q.operation_id, ..self }),
    {
        RequestLogListQuery { operation_id: Some(operation_id.to_owned()), ..self }
    }

    pub fn with_service(self, service: &str) -> (q: RequestLogListQuery)
        ensures
            q.service matches Some(t) && t@ == service@,
            q == (RequestLogListQuery { service: q.service, ..self }),
    {
        RequestLogListQuery { service: Some(service.to_owned()), ..self }
    }

    pub fn with_status_code(self, status_code: u16) -> (q: RequestLogListQuery)
        ensures
            q == (RequestLogListQuery { status_code: Some(status_code), ..self }),
    {
        RequestLogListQuery { status_code: Some(status_code), ..self }
    }

    pub fn with_duration_min(self, duration_min: i64) -> (q: RequestLogListQuery)
        ensures
            q == (RequestLogListQuery { duration_min: Some(duration_min), ..self }),
    {
        RequestLogListQuery { duration_min: Some(duration_min), ..self }
    }

    pub fn with_duration_max(self, duration_max: i64) -> (q: RequestLogListQuery)
        ensures
            q == (RequestLogListQuery { duration_max: Some(duration_max), ..self }),
    {
        RequestLogListQuery { duration_max: Some(duration_max), ..self }
    }

    pub fn with_created_range(self, from: i64, to: i64) -> (q: RequestLogListQuery)
        ensures
            q == (RequestLogListQuery { created_from: Some(from), created_to: Some(to), ..self }),
    {
        RequestLogListQuery { created_from: Some(from), created_to: Some(to), ..self }
    }

    /// Zero-based row offset of the page (`(page - 1) * page_size`).
    pub fn offset(&self) -> (r: i64)
        requires
            self.page - 1 >= i64::MIN,
            i64::MIN <= page_offset(*self) <= i64::MAX,
        ensures
            r == page_offset(*self),
    {
        (self.page - 1) * self.page_size
    }
}

impl Default for RequestLogListQuery {
    /// Unfiltered first page with the default page size.
    fn default() -> (q: RequestLogListQuery)
        ensures
            is_unfiltered(q),
            q.page == 1,
            q.page_size == DEFAULT_LIST_PAGE_SIZE,
    {
        RequestLogListQuery::new(1, DEFAULT_LIST_PAGE_SIZE)
    }
}

/// Offset-mode page result with authoritative total count.
#[derive(Clone, Debug, PartialEq, Eq)]
pub struct RequestLogPage {
    pub items: Vec<RequestLogRow>,
    pub total: i64,
}

/// Offset pages tile the result list: the first page starts at row 0 and
/// each page starts where the previous one ends.
pub proof fn lemma_pages_are_adjacent(a: RequestLogListQuery, b: RequestLogListQuery)
    requires
        page_bounds_hold(a),
        b.page == a.page + 1,
        b.page_size == a.page_size,
    ensures
        a.page == 1 ==> page_offset(a) == 0,
        page_offset(b) == page_offset(a) + a.page_size,
{
    let p = a.page as int;
    let n = a.page_size as int;
    assert(p * n == (p - 1) * n + n) by (nonlinear_arith);
    assert(p == 1 ==> (p - 1) * n == 0) by (nonlinear_arith);
    assert(page_offset(a) == (p - 1) * n);
    assert(page_offset(b) == p * n);
}

} // verus!
