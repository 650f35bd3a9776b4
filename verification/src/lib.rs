//! A durable task scheduler core: task lifecycle, leased claiming, next-run
//! arithmetic, plugin fan-out planning, the plugin key-value cache and the
//! HTTP broker's retry and pooling rules.

pub mod auth;
pub mod dispatch;
pub mod error;
pub mod http;
pub mod keyvalue;
pub mod logging;
pub mod pages;
pub mod plugin;
pub mod plugin_error;
pub mod project;
pub mod schedule;
pub mod sequences;
pub mod status;
pub mod store;
pub mod task;
pub mod text;
pub mod users;
