# sdkwork-log

Request logging for HTTP services: one `log_request` row per request with
redacted query parameters, allow-listed headers, hashed/masked client
addresses and redacted request/response bodies, plus the tenant-scoped query
API over the stored rows.

Layout:

- `src/` — the verified library (Verus). Redaction rules, trace-id and
  surface inference, capture limits, retention policies and expiry, UUID v7
  row ids, the stored row shape and its read-back, list filters and page
  windows, tenant scoping of the query API, and the wire items. Contracts are
  stated over `Seq<char>`/`Seq<u8>` models; the laws of the library are the
  public `lemma_*` proof functions.
- `app/` — the runtime around it: std address parsing, serde/serde_json
  forms, the SQLx store (SQLite and PostgreSQL), the tower/axum capture
  middleware and the axum query handlers.
- `tests/` — tests of the library on concrete values.
