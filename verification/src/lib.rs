//! Dynamic provider/model resolution engine for an OpenAI-API-compatible
//! backend: credential state, two-stage model discovery, catalog merging,
//! and a concurrency-bounded dispatch gateway.

pub mod catalog;
pub mod credentials;
pub mod discovery;
pub mod engine;
pub mod fanout;
pub mod gateway;
pub mod handle;
pub mod merge;
pub mod order;
pub mod routing;
pub mod text;
