//! Engine of an asynchronous export service: job lifecycle and event log,
//! staged export pipeline decisions, retention collection, and the read-only
//! query layer over a derived side-index, with deterministic ranking,
//! cursor pagination, LRU result caching and token-bucket rate limiting.

pub mod artifact;
pub mod auth;
pub mod cache;
pub mod cli;
pub mod config;
pub mod embedding;
pub mod index;
pub mod jobs;
pub mod models;
pub mod order;
pub mod pipeline;
pub mod rate_limit;
pub mod registry;
pub mod runpod;
pub mod strutil;
pub mod tools;
pub mod transform;
