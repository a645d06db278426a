//! Request log store rules: the persisted row shape (the `log_request` table
//! columns), the expiry of a saved row, the purge throttle, and the list
//! filters and page window that stores push down to SQL.
use crate::query::{RequestLogListQuery, page_offset};
use crate::record::{
    ApiSurfaceModel, LogApiSurface, RecordModel, RequestLogRecord, RequestLogRow, RowModel,
    opt_text, surface_is_normal, surface_of_text, surface_text,
};
use crate::retention::{
    LogRetention, LogRetentionPolicy, policy_resolution, retention_expiry, some_rule_matches,
};
use vstd::prelude::*;

verus! {

/// Default TTL for request log rows without a retention (90 days).
pub const DEFAULT_LOG_TTL_SECS: i64 = 7776000;

/// Minimum interval between two purges of expired rows (seconds).
pub const DEFAULT_PURGE_INTERVAL_SECS: i64 = 60;

/// Store failure (transport-agnostic). Database adapters map their errors
/// here.
#[derive(Clone, Debug, PartialEq, Eq)]
pub struct RequestLogStoreError {
    pub message: String,
}

impl RequestLogStoreError {
    /// A failure of the store's backing dependency.
    pub fn dependency(message: &str) -> (e: RequestLogStoreError)
        ensures
            e.message@ == message@,
    {
        RequestLogStoreError { message: message.to_owned() }
    }

    /// The display text of the error (its message).
    pub fn to_display_string(&self) -> (r: String)
        ensures
            r@ == self.message@,
    {
        self.message.clone()
    }
}

/// One `log_request` row as stored: the record's columns with integer
/// columns widened to `i64` and the surface as its canonical text.
#[derive(Clone, Debug, PartialEq, Eq)]
pub struct LogRow {
    pub id: String,
    pub trace_id: String,
    pub request_id: String,
    pub tenant_id: Option<String>,
    pub user_id: Option<String>,
    pub user_name: Option<String>,
    pub api_surface: String,
    pub path: String,
    pub method: String,
    pub operation_id: Option<String>,
    pub service: Option<String>,
    pub environment: Option<String>,
    pub auth_mode: Option<String>,
    pub status_code: Option<i64>,
    pub duration_ms: Option<i64>,
    pub error_code: Option<i64>,
    pub failed_stage: Option<String>,
    pub query_params: Option<String>,
    pub request_headers: Option<String>,
    pub client_ip_hash: Option<String>,
    pub client_ip_masked: Option<String>,
    pub request_body: Option<String>,
    pub response_body: Option<String>,
    pub created_at: i64,
    pub expires_at: Option<i64>,
}

/// Column value of an optional `u16`.
pub open spec fn widen_u16(v: Option<u16>) -> Option<i64> {
    match v {
        Some(x) => Some(x as i64),
        None => None,
    }
}

/// Column value of an optional `u64` (an `as i64` cast: values above
/// `i64::MAX` wrap to negative numbers).
pub open spec fn widen_u64(v: Option<u64>) -> Option<i64> {
    match v {
        Some(x) => Some(x as i64),
        None => None,
    }
}

/// Column value of an optional `i32`.
pub open spec fn widen_i32(v: Option<i32>) -> Option<i64> {
    match v {
        Some(x) => Some(x as i64),
        None => None,
    }
}

/// Checked narrowing of a stored status code (std `u16::try_from`).
pub open spec fn narrow_u16(v: Option<i64>) -> Option<u16> {
    match v {
        Some(x) => if 0 <= x <= u16::MAX {
            Some(x as u16)
        } else {
            None
        },
        None => None,
    }
}

/// Checked narrowing of a stored duration (std `u64::try_from`).
pub open spec fn narrow_u64(v: Option<i64>) -> Option<u64> {
    match v {
        Some(x) => if 0 <= x {
            Some(x as u64)
        } else {
            None
        },
        None => None,
    }
}

/// Checked narrowing of a stored error code (std `i32::try_from`).
pub open spec fn narrow_i32(v: Option<i64>) -> Option<i32> {
    match v {
        Some(x) => if i32::MIN <= x <= i32::MAX {
            Some(x as i32)
        } else {
            None
        },
        None => None,
    }
}

/// `row` is the stored form of `record` with id `id` and lifecycle
/// timestamps `created_at` / `expires_at`.
pub open spec fn row_encodes(
    row: LogRow,
    id: Seq<char>,
    record: RequestLogRecord,
    created_at: i64,
    expires_at: Option<i64>,
) -> bool {
    &&& row.id@ == id
    &&& row.trace_id@ == record.trace_id@
    &&& row.request_id@ == record.request_id@
    &&& opt_text(row.tenant_id) == opt_text(record.tenant_id)
    &&& opt_text(row.user_id) == opt_text(record.user_id)
    &&& opt_text(row.user_name) == opt_text(record.user_name)
    &&& row.api_surface@ == surface_text(record.api_surface@)
    &&& row.path@ == record.path@
    &&& row.method@ == record.method@
    &&& opt_text(row.operation_id) == opt_text(record.operation_id)
    &&& opt_text(row.service) == opt_text(record.service)
    &&& opt_text(row.environment) == opt_text(record.environment)
    &&& opt_text(row.auth_mode) == opt_text(record.auth_mode)
    &&& row.status_code == widen_u16(record.status_code)
    &&& row.duration_ms == widen_u64(record.duration_ms)
    &&& row.error_code == widen_i32(record.error_code)
    &&& opt_text(row.failed_stage) == opt_text(record.failed_stage)
    &&& opt_text(row.query_params) == opt_text(record.query_params)
    &&& opt_text(row.request_headers) == opt_text(record.request_headers)
    &&& opt_text(row.client_ip_hash) == opt_text(record.client_ip_hash)
    &&& opt_text(row.client_ip_masked) == opt_text(record.client_ip_masked)
    &&& opt_text(row.request_body) == opt_text(record.request_body)
    &&& opt_text(row.response_body) == opt_text(record.response_body)
    &&& row.created_at == created_at
    &&& row.expires_at == expires_at
}

/// The read model a stored row decodes to.
pub open spec fn decoded_row(row: LogRow) -> RowModel {
    RowModel {
        id: row.id@,
        record: RecordModel {
            trace_id: row.trace_id@,
            request_id: row.request_id@,
            tenant_id: opt_text(row.tenant_id),
            user_id: opt_text(row.user_id),
            user_name: opt_text(row.user_name),
            api_surface: surface_of_text(row.api_surface@),
            path: row.path@,
            retention: None,
            method: row.method@,
            operation_id: opt_text(row.operation_id),
            service: opt_text(row.service),
            environment: opt_text(row.environment),
            auth_mode: opt_text(row.auth_mode),
            status_code: narrow_u16(row.status_code),
            duration_ms: narrow_u64(row.duration_ms),
            error_code: narrow_i32(row.error_code),
            failed_stage: opt_text(row.failed_stage),
            query_params: opt_text(row.query_params),
            request_headers: opt_text(row.request_headers),
            client_ip_hash: opt_text(row.client_ip_hash),
            client_ip_masked: opt_text(row.client_ip_masked),
            request_body: opt_text(row.request_body),
            response_body: opt_text(row.response_body),
        },
        created_at: row.created_at,
        expires_at: row.expires_at,
    }
}

impl LogRow {
    /// The stored row of `record` under id `id`.
    pub fn from_record(
        id: String,
        record: RequestLogRecord,
        created_at: i64,
        expires_at: Option<i64>,
    ) -> (row: LogRow)
        ensures
            row_encodes(row, id@, record, created_at, expires_at),
    {
        let api_surface = record.api_surface.as_str().to_owned();
        LogRow {
            id,
            trace_id: record.trace_id,
            request_id: record.request_id,
            tenant_id: record.tenant_id,
            user_id: record.user_id,
            user_name: record.user_name,
            api_surface,
            path: record.path,
            method: record.method,
            operation_id: record.operation_id,
            service: record.service,
            environment: record.environment,
            auth_mode: record.auth_mode,
            status_code: match record.status_code {
                Some(v) => Some(v as i64),
                None => None,
            },
            duration_ms: match record.duration_ms {
                Some(v) => Some(v as i64),
                None => None,
            },
            error_code: match record.error_code {
                Some(v) => Some(v as i64),
                None => None,
            },
            failed_stage: record.failed_stage,
            query_params: record.query_params,
            request_headers: record.request_headers,
            client_ip_hash: record.client_ip_hash,
            client_ip_masked: record.client_ip_masked,
            request_body: record.request_body,
            response_body: record.response_body,
            created_at,
            expires_at,
        }
    }

    /// The read model of a stored row: the surface is parsed back from its
    /// text and integer columns are narrowed (out-of-range values read back
    /// as absent).
    pub fn into_request_log_row(self) -> (r: RequestLogRow)
        ensures
            r@ == decoded_row(self),
    {
        let api_surface = LogApiSurface::parse(self.api_surface.as_str());
        RequestLogRow {
            id: self.id,
            record: RequestLogRecord {
                trace_id: self.trace_id,
                request_id: self.request_id,
                tenant_id: self.tenant_id,
                user_id: self.user_id,
                user_name: self.user_name,
                api_surface,
                path: self.path,
                retention: None,
                method: self.method,
                operation_id: self.operation_id,
                service: self.service,
                environment: self.environment,
                auth_mode: self.auth_mode,
                status_code: match self.status_code {
                    Some(v) => if 0 <= v && v <= 65535 {
                        Some(v as u16)
                    } else {
                        None
                    },
                    None => None,
                },
                duration_ms: match self.duration_ms {
                    Some(v) => if 0 <= v {
                        Some(v as u64)
                    } else {
                        None
                    },
                    None => None,
                },
                error_code: match self.error_code {
                    Some(v) => if i32::MIN as i64 <= v && v <= i32::MAX as i64 {
                        Some(v as i32)
                    } else {
                        None
                    },
                    None => None,
                },
                failed_stage: self.failed_stage,
                query_params: self.query_params,
                request_headers: self.request_headers,
                client_ip_hash: self.client_ip_hash,
                client_ip_masked: self.client_ip_masked,
                request_body: self.request_body,
                response_body: self.response_body,
            },
            created_at: self.created_at,
            expires_at: self.expires_at,
        }
    }
}

/// Reading back a saved row gives the saved record, with its id and
/// timestamps; only the retention is not kept (it lives on as `expires_at`).
/// Holds for records whose surface is in normal form and whose duration fits
/// the `i64` column.
pub proof fn lemma_saved_record_reads_back(
    row: LogRow,
    id: Seq<char>,
    record: RequestLogRecord,
    created_at: i64,
    expires_at: Option<i64>,
)
    requires
        row_encodes(row, id, record, created_at, expires_at),
        surface_is_normal(record.api_surface@),
        record.duration_ms matches Some(d) ==> d <= i64::MAX,
    ensures
        decoded_row(row) == (RowModel {
            id,
            record: RecordModel { retention: None, ..record@ },
            created_at,
            expires_at,
        }),
{
    crate::record::lemma_surface_text_round_trip(record.api_surface@);
}

/// Expiry of a row saved at `now`: its retention decides when present
/// (`Permanent` never expires), otherwise the store's TTL applies.
pub open spec fn stored_expiry(now: i64, ttl_secs: i64, retention: Option<LogRetention>) -> Option<i64> {
    match retention {
        Some(r) => retention_expiry(r, now),
        None => Some((now + ttl_secs) as i64),
    }
}

/// The TTL a store uses (at least one second).
pub open spec fn effective_ttl(ttl_secs: i64) -> i64 {
    if ttl_secs < 1 {
        1
    } else {
        ttl_secs
    }
}

/// A store's TTL clamped to at least one second.
pub fn store_ttl(ttl_secs: i64) -> (r: i64)
    ensures
        r == effective_ttl(ttl_secs),
{
    if ttl_secs < 1 {
        1
    } else {
        ttl_secs
    }
}

/// Expiry of a row saved at `now` with a store TTL of `ttl_secs`.
pub fn stored_expires_at(now: i64, ttl_secs: i64, retention: Option<LogRetention>) -> (r: Option<
    i64,
>)
    requires
        retention is None ==> i64::MIN <= now + ttl_secs <= i64::MAX,
    ensures
        r == stored_expiry(now, ttl_secs, retention),
{
    match retention {
        Some(r) => r.expires_at_epoch(now),
        None => Some(now + ttl_secs),
    }
}

/// The row a store saves for `record`: id `id`, persisted at `now`, expiring
/// per the record's retention or the TTL.
pub fn prepare_row(id: String, record: RequestLogRecord, now: i64, ttl_secs: i64) -> (row: LogRow)
    requires
        record.retention is None ==> i64::MIN <= now + ttl_secs <= i64::MAX,
    ensures
        row_encodes(row, id@, record, now, stored_expiry(now, ttl_secs, record.retention)),
{
    let expires_at = stored_expires_at(now, ttl_secs, record.retention);
    LogRow::from_record(id, record, now, expires_at)
}

/// A purge of expired rows is due: at least `interval_secs` have passed since
/// the last one.
pub fn purge_due(now: i64, last_purge: i64, interval_secs: i64) -> (r: bool)
    requires
        i64::MIN <= now - last_purge <= i64::MAX,
    ensures
        r == (now - last_purge >= interval_secs),
{
    !(now - last_purge < interval_secs)
}

/// A purge at `cutoff` deletes a row with expiry `expires_at`: only rows
/// that expire, and expired at or before the cutoff, are removed.
pub open spec fn purged_at(expires_at: Option<i64>, cutoff: i64) -> bool {
    expires_at matches Some(e) && e <= cutoff
}

/// The purge step of a throttled purge whose last run was at `last_purge`:
/// `Some(now)` when a purge is due — the rows expired by `now` are deleted
/// and `now` becomes the last run — else `None` (nothing is deleted and the
/// last run stays).
pub fn purge_step(now: i64, last_purge: i64, interval_secs: i64) -> (r: Option<i64>)
    requires
        i64::MIN <= now - last_purge <= i64::MAX,
    ensures
        r == (if now - last_purge >= interval_secs {
            Some(now)
        } else {
            None::<i64>
        }),
{
    if purge_due(now, last_purge, interval_secs) {
        Some(now)
    } else {
        None
    }
}

/// Rows saved with a `Permanent` retention survive every purge.
pub proof fn lemma_permanent_rows_are_never_purged(now: i64, ttl_secs: i64, cutoff: i64)
    ensures
        !purged_at(stored_expiry(now, ttl_secs, Some(LogRetention::Permanent)), cutoff),
{
}

/// One equality/range condition of a list query, in push-down order.
#[derive(Clone, Debug, PartialEq, Eq)]
pub enum ListFilter {
    TraceId(String),
    RequestId(String),
    TenantId(String),
    /// Canonical surface text.
    ApiSurface(String),
    OperationId(String),
    Service(String),
    Method(String),
    StatusCode(i64),
    /// Inclusive lower bound on `duration_ms`.
    DurationMin(i64),
    /// Inclusive upper bound on `duration_ms`.
    DurationMax(i64),
    /// Inclusive lower bound on `created_at`.
    CreatedFrom(i64),
    /// Inclusive upper bound on `created_at`.
    CreatedTo(i64),
}

/// Model of a [`ListFilter`]: the column kind and its bound value.
pub enum FilterModel {
    TraceId(Seq<char>),
    RequestId(Seq<char>),
    TenantId(Seq<char>),
    ApiSurface(Seq<char>),
    OperationId(Seq<char>),
    Service(Seq<char>),
    Method(Seq<char>),
    StatusCode(i64),
    DurationMin(i64),
    DurationMax(i64),
    CreatedFrom(i64),
    CreatedTo(i64),
}

impl View for ListFilter {
    type V = FilterModel;

    open spec fn view(&self) -> FilterModel {
        match self {
            ListFilter::TraceId(v) => FilterModel::TraceId(v@),
            ListFilter::RequestId(v) => FilterModel::RequestId(v@),
            ListFilter::TenantId(v) => FilterModel::TenantId(v@),
            ListFilter::ApiSurface(v) => FilterModel::ApiSurface(v@),
            ListFilter::OperationId(v) => FilterModel::OperationId(v@),
            ListFilter::Service(v) => FilterModel::Service(v@),
            ListFilter::Method(v) => FilterModel::Method(v@),
            ListFilter::StatusCode(v) => FilterModel::StatusCode(*v),
            ListFilter::DurationMin(v) => FilterModel::DurationMin(*v),
            ListFilter::DurationMax(v) => FilterModel::DurationMax(*v),
            ListFilter::CreatedFrom(v) => FilterModel::CreatedFrom(*v),
            ListFilter::CreatedTo(v) => FilterModel::CreatedTo(*v),
        }
    }
}

/// A present optional filter as a one-element sequence.
pub open spec fn opt_filter<T>(v: Option<T>, f: spec_fn(T) -> FilterModel) -> Seq<FilterModel> {
    match v {
        Some(x) => seq![f(x)],
        None => Seq::empty(),
    }
}

/// Text filters (trace id, request id, tenant, surface, operation id,
/// service, method) of a list query, in order.
pub open spec fn text_filters(q: RequestLogListQuery) -> Seq<FilterModel> {
    opt_filter(opt_text(q.trace_id), |v: Seq<char>| FilterModel::TraceId(v)) + opt_filter(
        opt_text(q.request_id),
        |v: Seq<char>| FilterModel::RequestId(v),
    ) + opt_filter(opt_text(q.tenant_id), |v: Seq<char>| FilterModel::TenantId(v)) + opt_filter(
        match q.api_surface {
            Some(s) => Some(surface_text(s@)),
            None => None,
        },
        |v: Seq<char>| FilterModel::ApiSurface(v),
    ) + opt_filter(opt_text(q.operation_id), |v: Seq<char>| FilterModel::OperationId(v))
        + opt_filter(opt_text(q.service), |v: Seq<char>| FilterModel::Service(v)) + opt_filter(
        opt_text(q.method),
        |v: Seq<char>| FilterModel::Method(v),
    )
}

/// Numeric filters (status, the `duration_ms` range, then the `created_at`
/// range) of a list query.
pub open spec fn numeric_filters(q: RequestLogListQuery) -> Seq<FilterModel> {
    opt_filter(q.status_code, |v: u16| FilterModel::StatusCode(v as i64)) + opt_filter(
        q.duration_min,
        |v: i64| FilterModel::DurationMin(v),
    ) + opt_filter(q.duration_max, |v: i64| FilterModel::DurationMax(v)) + opt_filter(
        q.created_from,
        |v: i64| FilterModel::CreatedFrom(v),
    ) + opt_filter(q.created_to, |v: i64| FilterModel::CreatedTo(v))
}

/// The conditions a list query pushes down, in order: trace id, request id,
/// tenant, surface, operation id, service, method (equalities), status
/// (equality), then the inclusive `duration_ms` and `created_at` ranges. A condition is present only when its filter is set (a `NULL` bind
/// would silently drop rows from comparisons).
pub open spec fn query_filters(q: RequestLogListQuery) -> Seq<FilterModel> {
    text_filters(q) + numeric_filters(q)
}

/// The models of a filter list.
pub open spec fn filters_view(fs: Seq<ListFilter>) -> Seq<FilterModel> {
    Seq::new(fs.len(), |i: int| fs[i]@)
}

fn push_filter(out: &mut Vec<ListFilter>, f: ListFilter)
    ensures
        filters_view(final(out)@) == filters_view(old(out)@).push(f@),
{
    out.push(f);
    assert(filters_view(out@) =~= filters_view(old(out)@).push(f@));
}

fn push_text_filter(out: &mut Vec<ListFilter>, v: &Option<String>, kind: u8)
    requires
        kind < 7,
    ensures
        filters_view(final(out)@) == filters_view(old(out)@) + opt_filter(
            opt_text(*v),
            |t: Seq<char>| text_filter_model(kind, t),
        ),
{
    match v {
        Some(t) => {
            let f = if kind == 0 {
                ListFilter::TraceId(t.clone())
            } else if kind == 1 {
                ListFilter::RequestId(t.clone())
            } else if kind == 2 {
                ListFilter::TenantId(t.clone())
            } else if kind == 3 {
                ListFilter::ApiSurface(t.clone())
            } else if kind == 4 {
                ListFilter::OperationId(t.clone())
            } else if kind == 5 {
                ListFilter::Service(t.clone())
            } else {
                ListFilter::Method(t.clone())
            };
            push_filter(out, f);
            assert(filters_view(out@) =~= filters_view(old(out)@) + seq![
                text_filter_model(kind, t@),
            ]);
        },
        None => {
            assert(filters_view(out@) =~= filters_view(old(out)@) + Seq::<FilterModel>::empty());
        },
    }
}

/// The text filter of kind `kind` (in push-down order) with value `t`.
pub open spec fn text_filter_model(kind: u8, t: Seq<char>) -> FilterModel {
    if kind == 0 {
        FilterModel::TraceId(t)
    } else if kind == 1 {
        FilterModel::RequestId(t)
    } else if kind == 2 {
        FilterModel::TenantId(t)
    } else if kind == 3 {
        FilterModel::ApiSurface(t)
    } else if kind == 4 {
        FilterModel::OperationId(t)
    } else if kind == 5 {
        FilterModel::Service(t)
    } else {
        FilterModel::Method(t)
    }
}

fn push_numeric_filter(out: &mut Vec<ListFilter>, v: Option<i64>, kind: u8)
    requires
        kind < 5,
    ensures
        filters_view(final(out)@) == filters_view(old(out)@) + opt_filter(
            v,
            |x: i64| numeric_filter_model(kind, x),
        ),
{
    match v {
        Some(x) => {
            let f = if kind == 0 {
                ListFilter::StatusCode(x)
            } else if kind == 1 {
                ListFilter::DurationMin(x)
            } else if kind == 2 {
                ListFilter::DurationMax(x)
            } else if kind == 3 {
                ListFilter::CreatedFrom(x)
            } else {
                ListFilter::CreatedTo(x)
            };
            push_filter(out, f);
            assert(filters_view(out@) =~= filters_view(old(out)@) + seq![numeric_filter_model(kind, x)]);
        },
        None => {
            assert(filters_view(out@) =~= filters_view(old(out)@) + Seq::<FilterModel>::empty());
        },
    }
}

/// The numeric filter of kind `kind` (in push-down order) with value `x`.
pub open spec fn numeric_filter_model(kind: u8, x: i64) -> FilterModel {
    if kind == 0 {
        FilterModel::StatusCode(x)
    } else if kind == 1 {
        FilterModel::DurationMin(x)
    } else if kind == 2 {
        FilterModel::DurationMax(x)
    } else if kind == 3 {
        FilterModel::CreatedFrom(x)
    } else {
        FilterModel::CreatedTo(x)
    }
}

#[verifier::rlimit(50)]
fn push_text_filters(out: &mut Vec<ListFilter>, query: &RequestLogListQuery)
    ensures
        filters_view(final(out)@) == filters_view(old(out)@) + text_filters(*query),
{
    let ghost q = *query;
    let ghost o = filters_view(out@);
    let surface: Option<String> = match &query.api_surface {
        Some(s) => Some(s.as_str().to_owned()),
        None => None,
    };
    push_text_filter(out, &query.trace_id, 0);
    let ghost a = filters_view(out@);
    assert(a =~= o + opt_filter(opt_text(q.trace_id), |v: Seq<char>| FilterModel::TraceId(v)));
    push_text_filter(out, &query.request_id, 1);
    let ghost b = filters_view(out@);
    assert(b =~= a + opt_filter(opt_text(q.request_id), |v: Seq<char>| FilterModel::RequestId(v)));
    push_text_filter(out, &query.tenant_id, 2);
    let ghost c = filters_view(out@);
    assert(c =~= b + opt_filter(opt_text(q.tenant_id), |v: Seq<char>| FilterModel::TenantId(v)));
    push_text_filter(out, &surface, 3);
    let ghost d = filters_view(out@);
    assert(d =~= c + opt_filter(
        match q.api_surface {
            Some(s) => Some(surface_text(s@)),
            None => None,
        },
        |v: Seq<char>| FilterModel::ApiSurface(v),
    ));
    push_text_filter(out, &query.operation_id, 4);
    let ghost e = filters_view(out@);
    assert(e =~= d + opt_filter(opt_text(q.operation_id), |v: Seq<char>| FilterModel::OperationId(v)));
    push_text_filter(out, &query.service, 5);
    let ghost f = filters_view(out@);
    assert(f =~= e + opt_filter(opt_text(q.service), |v: Seq<char>| FilterModel::Service(v)));
    push_text_filter(out, &query.method, 6);
    let ghost g = filters_view(out@);
    assert(g =~= f + opt_filter(opt_text(q.method), |v: Seq<char>| FilterModel::Method(v)));
    assert(g =~= o + text_filters(q));
}

fn push_numeric_filters(out: &mut Vec<ListFilter>, query: &RequestLogListQuery)
    ensures
        filters_view(final(out)@) == filters_view(old(out)@) + numeric_filters(*query),
{
    let ghost q = *query;
    let ghost o = filters_view(out@);
    let status: Option<i64> = match query.status_code {
        Some(v) => Some(v as i64),
        None => None,
    };
    push_numeric_filter(out, status, 0);
    let ghost a = filters_view(out@);
    assert(a =~= o + opt_filter(q.status_code, |v: u16| FilterModel::StatusCode(v as i64)));
    push_numeric_filter(out, query.duration_min, 1);
    let ghost b = filters_view(out@);
    assert(b =~= a + opt_filter(q.duration_min, |v: i64| FilterModel::DurationMin(v)));
    push_numeric_filter(out, query.duration_max, 2);
    let ghost c = filters_view(out@);
    assert(c =~= b + opt_filter(q.duration_max, |v: i64| FilterModel::DurationMax(v)));
    push_numeric_filter(out, query.created_from, 3);
    let ghost d = filters_view(out@);
    assert(d =~= c + opt_filter(q.created_from, |v: i64| FilterModel::CreatedFrom(v)));
    push_numeric_filter(out, query.created_to, 4);
    let ghost e = filters_view(out@);
    assert(e =~= d + opt_filter(q.created_to, |v: i64| FilterModel::CreatedTo(v)));
    assert(e =~= o + numeric_filters(q));
}

/// The conditions a list query pushes down to SQL.
pub fn list_filters(query: &RequestLogListQuery) -> (r: Vec<ListFilter>)
    ensures
        filters_view(r@) == query_filters(*query),
{
    let mut out: Vec<ListFilter> = Vec::new();
    push_text_filters(&mut out, query);
    push_numeric_filters(&mut out, query);
    assert(filters_view(out@) =~= query_filters(*query));
    out
}

/// A list query scoped to a tenant always pushes the tenant condition down,
/// so a tenant-scoped list never returns rows of another tenant or rows
/// without a tenant.
pub proof fn lemma_tenant_scope_is_pushed_down(q: RequestLogListQuery)
    ensures
        opt_text(q.tenant_id) matches Some(t) ==> query_filters(q).contains(FilterModel::TenantId(t)),
{
    if let Some(t) = opt_text(q.tenant_id) {
        let pre = opt_filter(opt_text(q.trace_id), |v: Seq<char>| FilterModel::TraceId(v)).len()
            + opt_filter(opt_text(q.request_id), |v: Seq<char>| FilterModel::RequestId(v)).len();
        let all = query_filters(q);
        assert(all[pre as int] == FilterModel::TenantId(t));
    }
}

/// A saved row's expiry follows the retention its captured path resolves to:
/// rows on a `Permanent` path never expire, rows on a `Days(n)` path expire
/// `n` days after they are saved, and a path that no rule matches takes the
/// policy default.
pub proof fn lemma_retention_drives_expiry(
    policy: LogRetentionPolicy,
    path: Seq<char>,
    now: i64,
    ttl_secs: i64,
)
    ensures
        ({
            let expiry = stored_expiry(now, ttl_secs, Some(policy_resolution(policy, path)));
            &&& expiry == retention_expiry(policy_resolution(policy, path), now)
            &&& policy_resolution(policy, path) == LogRetention::Permanent ==> expiry is None
            &&& !some_rule_matches(policy.rules@, path) ==> expiry == retention_expiry(
                policy.default_retention,
                now,
            )
        }),
{
}

/// The `(LIMIT, OFFSET)` window of a list query.
pub fn page_window(query: &RequestLogListQuery) -> (r: (i64, i64))
    requires
        query.page - 1 >= i64::MIN,
        i64::MIN <= page_offset(*query) <= i64::MAX,
    ensures
        r == (query.page_size, page_offset(*query) as i64),
{
    (query.page_size, query.offset())
}

} // verus!
