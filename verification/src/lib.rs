pub mod text;
pub mod retention;
pub mod record;
pub mod query;
pub mod json;
pub mod redact;
pub mod ip;
pub mod clock;
pub mod request_id;
pub mod store;
pub mod capture;
pub mod web;
pub mod api;
pub mod assembly;
