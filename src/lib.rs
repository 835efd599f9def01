//! Verified core of a line-delimited JSON-RPC adapter for Paradox tables:
//! the field codec, the record marshaler, the query matcher and the tool
//! dispatcher.

pub mod args;
pub mod bytes;
pub mod json;
pub mod text;
pub mod codec;
pub mod record;
pub mod query;
pub mod schema;
pub mod dispatch;
pub mod replies;
