//! Verified core of the oproxy inspection proxy: protocol planning, wire
//! header rules and response decoding, configuration checks, the admin guard,
//! session listing, diffing and metrics, composed forwards, and the
//! assistant's contracts, tool-call handling, eval scoring and state
//! fingerprints.
#![allow(unused_imports)]

pub mod text;
pub mod forward;
pub mod wire;
pub mod config;
pub mod env;
pub mod auth;
pub mod exchange;
pub mod diff;
pub mod contracts;
pub mod order;
pub mod listing;
pub mod assistant;
pub mod compat;
pub mod probe;
pub mod pending;
pub mod chat;
pub mod dispatch;
pub mod compose;
pub mod actions;
pub mod tools;
pub mod traffic;
pub mod login;
pub mod storage;
pub mod playback;
pub mod engine;
pub mod request_flow;
pub mod json;
pub mod fingerprint;
pub mod metrics;
pub mod decompression;
pub mod api_error;
