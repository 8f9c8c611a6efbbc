//! An in-memory URL shortener: an alias table from short alphanumeric codes
//! to long URLs, the request/response protocol that serves it, and a model
//! of the worker-pool dispatch that executes connections.

pub mod digits;
pub mod pool;
pub mod protocol;
pub mod store;
