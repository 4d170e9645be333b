//! An event-to-action runtime: authenticated events are normalized, matched
//! against configured handlers, and forwarded to HTTP actions.

pub mod action;
pub mod codegen;
pub mod config;
pub mod dispatch;
pub mod error;
pub mod event;
pub mod github;
pub mod iris;
pub mod json;
pub mod matching;
pub mod message;
pub mod signature;
pub mod source;
pub mod sse;
pub mod table;
pub mod template;
pub mod text;
pub mod time;
pub mod uptime_kuma;
