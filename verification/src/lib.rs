//! Decision logic of a self-hosted LLM gateway: request translation, stream
//! translation, model metadata, access rules and configuration.
pub mod json;
pub mod text;
pub mod text_laws;
pub mod api;
pub mod auth;
pub mod backfill;
pub mod config;
pub mod config_laws;
pub mod csp;
pub mod csp_laws;
pub mod db;
pub mod docker;
pub mod ids;
pub mod metrics;
pub mod metrics_laws;
pub mod reply;
pub mod routing;
