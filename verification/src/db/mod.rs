//! What the database holds.
pub mod models;
