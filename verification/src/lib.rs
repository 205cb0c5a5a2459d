//! A minimal host-metrics exporter core: a registry of named gauge metrics,
//! safe for concurrent sampling and scraping, rendered in a line-oriented
//! plain-text exposition format.

pub mod error;
pub mod metric;
pub mod metric_registry;
pub mod numtext;
pub mod system_monitor;
