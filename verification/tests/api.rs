use sdkwork_log::api::{
    check_status_filter, has_permission, merge_page_size, require_tenant_read,
    resolve_list_tenant_id, row_visible, store_error_problem, store_query_from_admin,
    validated_offset_params, visible_detail, AdminLogListQuery, OffsetListPageParams, LogApiProblem, LogRequestDetailItem, LogRequestListItem,
    ReadScope, PERM_LOG_PLATFORM_READ, PERM_LOG_TENANT_READ,
};
use sdkwork_log::assembly::{
    assembly_route_count, LogQueryState, LogServiceHost, DEFAULT_LOG_SERVICE_NAME,
};
use sdkwork_log::clock::{epoch_millis_from, epoch_secs_from, now_epoch_secs};
use sdkwork_log::query::RequestLogListQuery;
use sdkwork_log::record::{LogApiSurface, RequestLogRecord, RequestLogRow};
use sdkwork_log::retention::LogRetention;
use sdkwork_log::store::{
    list_filters, page_window, prepare_row, purge_due, purge_step, store_ttl, stored_expires_at, ListFilter,
    LogRow, RequestLogStoreError, DEFAULT_LOG_TTL_SECS, DEFAULT_PURGE_INTERVAL_SECS,
};

fn ctx_with_permissions(permissions: &[&str]) -> ReadScope {
    ReadScope {
        tenant_id: Some("100001".to_owned()),
        app_id: Some("log-console".to_owned()),
        permissions: permissions.iter().map(|value| (*value).to_owned()).collect(),
    }
}

fn sample_record() -> RequestLogRecord {
    RequestLogRecord {
        trace_id: "trace-1".to_owned(),
        request_id: "req-1".to_owned(),
        tenant_id: None,
        user_id: None,
        user_name: None,
        api_surface: LogApiSurface::BackendApi,
        path: "/backend/v3/api/log/request_logs".to_owned(),
        retention: None,
        method: "GET".to_owned(),
        operation_id: None,
        service: Some("svc-1".to_owned()),
        environment: Some("prod".to_owned()),
        auth_mode: Some("dual-token".to_owned()),
        status_code: Some(200),
        duration_ms: Some(42),
        error_code: None,
        failed_stage: None,
        query_params: Some("page=1".to_owned()),
        request_headers: None,
        client_ip_hash: None,
        client_ip_masked: None,
        request_body: Some("{\"prompt\":\"hi\"}".to_owned()),
        response_body: None,
    }
}

fn sample_row() -> RequestLogRow {
    RequestLogRow {
        id: "id-1".to_owned(),
        record: sample_record(),
        created_at: 1_700_000_000,
        expires_at: Some(1_700_086_400),
    }
}

// ---------------------------------------------------------------------------
// Tenant scope
// ---------------------------------------------------------------------------

#[test]
fn tenant_read_scope_allows_own_tenant_only() {
    let ctx = ctx_with_permissions(&["log.tenant.read"]);
    assert_eq!(
        Some("100001".to_owned()),
        resolve_list_tenant_id(&ctx, None).expect("scope")
    );
    assert!(resolve_list_tenant_id(&ctx, Some("100002")).is_err());
}

#[test]
fn platform_read_scope_allows_cross_tenant_and_platform_wide() {
    let ctx = ctx_with_permissions(&["log.tenant.read", "log.platform.read"]);
    assert_eq!(
        Some("100002".to_owned()),
        resolve_list_tenant_id(&ctx, Some("100002")).expect("cross tenant")
    );
    assert_eq!(None, resolve_list_tenant_id(&ctx, None).expect("platform wide"));
}

#[test]
fn require_tenant_read_rejects_missing_permission() {
    let ctx = ctx_with_permissions(&[]);
    assert!(require_tenant_read(&ctx).is_err());
}

#[test]
fn require_tenant_read_reports_each_missing_piece() {
    let mut ctx = ctx_with_permissions(&["log.tenant.read"]);
    assert_eq!(Ok(()), require_tenant_read(&ctx));
    assert_eq!(Ok(()), require_tenant_read(&ctx_with_permissions(&["log.platform.read"])));
    assert_eq!(
        Err(LogApiProblem::Forbidden(
            "missing required permission: log.tenant.read".to_owned()
        )),
        require_tenant_read(&ctx_with_permissions(&["other.read"]))
    );
    ctx.app_id = None;
    assert_eq!(Err(LogApiProblem::MissingApp), require_tenant_read(&ctx));
    ctx.tenant_id = None;
    assert_eq!(Err(LogApiProblem::MissingTenant), require_tenant_read(&ctx));
}

#[test]
fn tenant_scope_accepts_own_or_empty_tenant_and_names_the_mismatch() {
    let ctx = ctx_with_permissions(&[PERM_LOG_TENANT_READ]);
    assert_eq!(Ok(Some("100001".to_owned())), resolve_list_tenant_id(&ctx, Some("100001")));
    assert_eq!(Ok(Some("100001".to_owned())), resolve_list_tenant_id(&ctx, Some("")));
    assert_eq!(
        Err(LogApiProblem::Forbidden(
            "tenant_id query parameter does not match authenticated tenant".to_owned()
        )),
        resolve_list_tenant_id(&ctx, Some("100002"))
    );
    let platform = ctx_with_permissions(&[PERM_LOG_PLATFORM_READ]);
    assert_eq!(Ok(None), resolve_list_tenant_id(&platform, Some("")));
    let mut no_tenant = ctx_with_permissions(&[]);
    no_tenant.tenant_id = None;
    assert_eq!(Err(LogApiProblem::MissingTenant), resolve_list_tenant_id(&no_tenant, None));
}

#[test]
fn has_permission_matches_exact_names() {
    let ctx = ctx_with_permissions(&["log.tenant.read"]);
    assert!(has_permission(&ctx, "log.tenant.read"));
    assert!(!has_permission(&ctx, "log.tenant"));
    assert!(!has_permission(&ctx, "log.platform.read"));
}

// ---------------------------------------------------------------------------
// Wire items and detail visibility
// ---------------------------------------------------------------------------

#[test]
fn list_item_carries_row_columns() {
    let item = LogRequestListItem::from_row(sample_row());
    assert_eq!("1700000000", item.created_at.to_string());
    assert_eq!("42", item.duration_ms.unwrap().to_string());
    assert_eq!("200", item.status_code.unwrap().to_string());
    assert_eq!("trace-1", item.trace_id);
    assert_eq!(Some("svc-1".to_owned()), item.service);
    assert_eq!(Some("prod".to_owned()), item.environment);
    assert_eq!(Some("dual-token".to_owned()), item.auth_mode);
    assert_eq!(Some("page=1".to_owned()), item.query_params);
    assert_eq!("backend-api", item.api_surface);
    assert_eq!(Some(1_700_086_400), item.expires_at);
}

#[test]
fn detail_item_carries_bodies() {
    let detail = LogRequestDetailItem::from_row(sample_row());
    assert_eq!(Some("{\"prompt\":\"hi\"}".to_owned()), detail.request_body);
    assert_eq!(None, detail.response_body);
    assert_eq!("id-1", detail.summary.id);
}

#[test]
fn detail_is_hidden_from_other_tenants() {
    let mut row = sample_row();
    row.record.tenant_id = Some("100001".to_owned());
    assert!(row_visible(&row, &None));
    assert!(row_visible(&row, &Some("100001".to_owned())));
    assert!(!row_visible(&row, &Some("100002".to_owned())));
    assert!(visible_detail(Some(row.clone()), &Some("100001".to_owned())).is_ok());
    assert_eq!(
        Err(LogApiProblem::NotFound("request log was not found".to_owned())),
        visible_detail(Some(row), &Some("100002".to_owned()))
    );
    assert_eq!(
        Err(LogApiProblem::NotFound("request log was not found".to_owned())),
        visible_detail(None, &None)
    );
    let tenantless = sample_row();
    assert!(!row_visible(&tenantless, &Some("100001".to_owned())));
}

// ---------------------------------------------------------------------------
// Query parameters
// ---------------------------------------------------------------------------

#[test]
fn status_filter_must_be_http_status() {
    assert_eq!(Ok(()), check_status_filter(None));
    assert_eq!(Ok(()), check_status_filter(Some(100)));
    assert_eq!(Ok(()), check_status_filter(Some(599)));
    assert_eq!(
        Err(LogApiProblem::BadRequest(
            "status must be an HTTP status code in 100..599".to_owned()
        )),
        check_status_filter(Some(600))
    );
    assert!(check_status_filter(Some(99)).is_err());
}

#[test]
fn page_size_prefers_page_size_over_legacy_limit() {
    assert_eq!(Ok(None), merge_page_size(None, None));
    assert_eq!(Ok(Some(10)), merge_page_size(Some(10), Some(30)));
    assert_eq!(Ok(Some(30)), merge_page_size(None, Some(30)));
    assert_eq!(
        Err(LogApiProblem::BadRequest("invalid parameter".to_owned())),
        merge_page_size(Some(0), None)
    );
    assert!(merge_page_size(None, Some(0)).is_err());
    assert_eq!(
        Err(LogApiProblem::BadRequest("invalid parameter".to_owned())),
        merge_page_size(Some(500), None)
    );
    assert_eq!(Ok(Some(200)), merge_page_size(None, Some(200)));
}

#[test]
fn offset_query_validates_spec_bounds() {
    assert!(validated_offset_params(None, None, None).is_ok());
    assert!(validated_offset_params(Some(1), Some(0), None).is_err());
    assert!(validated_offset_params(Some(1), Some(500), None).is_err());
    let params = validated_offset_params(Some(2), Some(10), None).expect("params");
    assert_eq!(2, params.page);
    assert_eq!(10, params.page_size);
}

#[test]
fn offset_params_default_and_reject_bad_pages() {
    assert_eq!(
        Ok(OffsetListPageParams { page: 1, page_size: 20 }),
        validated_offset_params(None, None, None)
    );
    assert_eq!(
        Ok(OffsetListPageParams { page: 3, page_size: 50 }),
        validated_offset_params(Some(3), None, Some(50))
    );
    assert_eq!(
        Err(LogApiProblem::BadRequest("invalid parameter".to_owned())),
        validated_offset_params(Some(0), Some(10), None)
    );
}

#[test]
fn admin_query_maps_to_store_query() {
    let query = AdminLogListQuery {
        trace_id: Some("trace-1".to_owned()),
        request_id: Some(String::new()),
        api_surface: Some("backend-api".to_owned()),
        method: Some("GET".to_owned()),
        service: Some("svc-1".to_owned()),
        status: Some(404),
        duration_min: Some(5),
        created_from: Some(10),
        created_to: Some(20),
        ..AdminLogListQuery::default()
    };
    let q = store_query_from_admin(query, Some("100001".to_owned()), 2, 500);
    assert_eq!(2, q.page);
    assert_eq!(200, q.page_size);
    assert_eq!(Some("100001".to_owned()), q.tenant_id);
    assert_eq!(Some("trace-1".to_owned()), q.trace_id);
    assert_eq!(None, q.request_id);
    assert_eq!(Some(LogApiSurface::BackendApi), q.api_surface);
    assert_eq!(Some("svc-1".to_owned()), q.service);
    assert_eq!(Some(404), q.status_code);
    assert_eq!(Some(10), q.created_from);
    assert_eq!(Some(20), q.created_to);
    assert_eq!(Some("GET".to_owned()), q.method);
    assert_eq!(Some(5), q.duration_min);
    assert_eq!(None, q.duration_max);
}

#[test]
fn store_failures_become_dependency_problems() {
    let error = RequestLogStoreError::dependency("pool closed");
    assert_eq!("pool closed", error.to_display_string());
    assert_eq!(
        LogApiProblem::DependencyUnavailable("request log store error: pool closed".to_owned()),
        store_error_problem(&error)
    );
}

// ---------------------------------------------------------------------------
// Store rules
// ---------------------------------------------------------------------------

#[test]
fn saved_row_reads_back_the_record() {
    let mut record = sample_record();
    record.error_code = Some(40101);
    record.client_ip_masked = Some("203.0.113.x".to_owned());
    record.user_name = Some("用户九".to_owned());
    let row = LogRow::from_record("id-1".to_owned(), record.clone(), 1_700_000_000, None);
    assert_eq!("backend-api", row.api_surface);
    assert_eq!(Some(200), row.status_code);
    assert_eq!(Some(40101), row.error_code);
    let back = row.into_request_log_row();
    assert_eq!("id-1", back.id);
    assert_eq!(record, back.record);
    assert_eq!(1_700_000_000, back.created_at);
    assert_eq!(None, back.expires_at);
}

#[test]
fn out_of_range_columns_read_back_as_absent() {
    let mut row = LogRow::from_record("id-2".to_owned(), sample_record(), 1, Some(2));
    row.status_code = Some(70_000);
    row.duration_ms = Some(-1);
    row.error_code = Some(i64::MAX);
    row.api_surface = "rpc-internal".to_owned();
    let back = row.into_request_log_row();
    assert_eq!(None, back.record.status_code);
    assert_eq!(None, back.record.duration_ms);
    assert_eq!(None, back.record.error_code);
    assert_eq!(LogApiSurface::Other("rpc-internal".to_owned()), back.record.api_surface);
}

#[test]
fn expiry_follows_retention_then_ttl() {
    assert_eq!(Some(1_700_000_000 + DEFAULT_LOG_TTL_SECS), stored_expires_at(1_700_000_000, DEFAULT_LOG_TTL_SECS, None));
    assert_eq!(None, stored_expires_at(1_700_000_000, 60, Some(LogRetention::Permanent)));
    assert_eq!(
        Some(1_700_000_000 + 30 * 86_400),
        stored_expires_at(1_700_000_000, 60, Some(LogRetention::Days(30)))
    );
    assert_eq!(1, store_ttl(0));
    assert_eq!(1, store_ttl(-5));
    assert_eq!(3600, store_ttl(3600));
    let mut record = sample_record();
    record.retention = Some(LogRetention::Permanent);
    assert_eq!(None, prepare_row("id-3".to_owned(), record, 100, 60).expires_at);
    let row = prepare_row("id-4".to_owned(), sample_record(), 100, 60);
    assert_eq!(Some(160), row.expires_at);
    assert_eq!(100, row.created_at);
}

#[test]
fn purge_is_throttled_by_interval() {
    assert!(!purge_due(100, 50, DEFAULT_PURGE_INTERVAL_SECS));
    assert!(purge_due(110, 50, DEFAULT_PURGE_INTERVAL_SECS));
    assert!(purge_due(200, 50, DEFAULT_PURGE_INTERVAL_SECS));
    assert_eq!(None, purge_step(100, 50, DEFAULT_PURGE_INTERVAL_SECS));
    assert_eq!(Some(110), purge_step(110, 50, DEFAULT_PURGE_INTERVAL_SECS));
}

#[test]
fn list_filters_are_pushed_down_in_order() {
    assert!(list_filters(&RequestLogListQuery::default()).is_empty());
    let query = RequestLogListQuery::new(3, 10)
        .with_service("svc-1")
        .with_trace_id("trace-1")
        .with_status_code(500)
        .with_api_surface(LogApiSurface::AppApi)
        .with_created_range(10, 20)
        .with_method("GET")
        .with_duration_max(900);
    assert_eq!(
        vec![
            ListFilter::TraceId("trace-1".to_owned()),
            ListFilter::ApiSurface("app-api".to_owned()),
            ListFilter::Service("svc-1".to_owned()),
            ListFilter::Method("GET".to_owned()),
            ListFilter::StatusCode(500),
            ListFilter::DurationMax(900),
            ListFilter::CreatedFrom(10),
            ListFilter::CreatedTo(20),
        ],
        list_filters(&query)
    );
    assert_eq!((10, 20), page_window(&query));
}

#[test]
fn clock_readings_convert_to_epoch_values() {
    assert_eq!(1_700_000_000, epoch_secs_from(Some((1_700_000_000, 999_000_000))));
    assert_eq!(0, epoch_secs_from(None));
    assert_eq!(1_700_000_000_123, epoch_millis_from(Some((1_700_000_000, 123))));
    assert_eq!(0, epoch_millis_from(None));
    assert!(now_epoch_secs() > 1_600_000_000);
}

// ---------------------------------------------------------------------------
// Assembly
// ---------------------------------------------------------------------------

#[test]
fn assembly_composes_one_route_crate_and_exposes_its_parts() {
    assert_eq!(1, assembly_route_count());
    assert_eq!("sdkwork-log", DEFAULT_LOG_SERVICE_NAME);
    let host = LogServiceHost::new("db".to_owned(), 7u32);
    assert_eq!("db", host.database_pool());
    assert_eq!(&7u32, host.store());
    let state = LogQueryState::from_store(9u8);
    assert_eq!(9, state.service.store);
}
