//! Usage-limit polling core: per-account session tracking, alert
//! deduplication, snapshot history and the poll scheduler's decisions.

pub mod api;
pub mod clock;
pub mod config;
pub mod credentials;
pub mod error;
pub mod history;
pub mod models;
pub mod notifications;
pub mod output;
pub mod providers;
pub mod scheduler;
pub mod table;
pub mod text;
