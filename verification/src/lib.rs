//! Verified core of an AI protocol gateway: endpoint types, channel and
//! group routing, wildcard model mapping, SSE framing and usage extraction,
//! retry policy, error replies, configuration and token handling.

pub mod text;
pub mod endpoint;
pub mod wildcard;
pub mod errors;
pub mod routing;
pub mod balance;
pub mod sse;
pub mod selection;
pub mod proxy;
pub mod auth;
pub mod config;
pub mod toml_doc;
pub mod admin;
pub mod db;
pub mod cost;
pub mod json;
pub mod model_test;
pub mod key_cache;
pub mod tasks;
pub mod static_files;
pub mod catalog;
pub mod store;
