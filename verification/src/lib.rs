//! Status-watch engine: watch configuration, status aggregation, the
//! condition-expression tokenizer and parser, and the adapters that turn
//! service status payloads into per-component statuses.

pub mod state;
pub mod tray;
pub mod text;
pub mod expr;
pub mod json;
pub mod strmap;
pub mod config;
pub mod adapter;
pub mod preset;
pub mod provider;
pub mod shell;
pub mod logging;
pub mod scheduler;
pub mod watcher;
pub mod path;
pub mod config_file;
pub mod pattern;
pub mod yaml;
