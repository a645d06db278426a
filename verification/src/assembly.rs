//! Composition of the log module for hosting applications: the service host
//! owning the database handle and the store, and the query service/state the
//! query router runs on.
use vstd::prelude::*;

verus! {

/// Default request-log service identity recorded on captured rows.
pub const DEFAULT_LOG_SERVICE_NAME: &'static str = "sdkwork-log";

/// Route crates composed by the log API assembly (the backend-api routes).
pub const ROUTE_CRATE_COUNT: usize = 1;

/// Number of route crates the assembly composes.
pub fn assembly_route_count() -> (r: usize)
    ensures
        r == ROUTE_CRATE_COUNT,
{
    ROUTE_CRATE_COUNT
}

/// Service host owning the log module's database handle `D` and store `S`.
pub struct LogServiceHost<D, S> {
    pub database: D,
    pub store: S,
}

impl<D, S> LogServiceHost<D, S> {
    /// A host over a bootstrapped database and its store.
    pub fn new(database: D, store: S) -> (h: LogServiceHost<D, S>)
        ensures
            h.database == database,
            h.store == store,
    {
        LogServiceHost { database, store }
    }

    /// The host's database handle.
    pub fn database_pool(&self) -> (r: &D)
        ensures
            *r == self.database,
    {
        &self.database
    }

    /// The host's request log store.
    pub fn store(&self) -> (r: &S)
        ensures
            *r == self.store,
    {
        &self.store
    }
}

/// Query service over a request log store `S`.
pub struct LogQueryService<S> {
    pub store: S,
}

impl<S> LogQueryService<S> {
    /// A query service reading from `store`.
    pub fn new(store: S) -> (s: LogQueryService<S>)
        ensures
            s.store == store,
    {
        LogQueryService { store }
    }
}

/// Router state of the query API.
pub struct LogQueryState<S> {
    pub service: LogQueryService<S>,
}

impl<S> LogQueryState<S> {
    /// Router state serving queries from `store`.
    pub fn from_store(store: S) -> (st: LogQueryState<S>)
        ensures
            st.service.store == store,
    {
        LogQueryState { service: LogQueryService::new(store) }
    }
}

} // verus!
