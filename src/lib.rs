//! Verified core of a live hardware monitor: bounded metric history, trend
//! forecasting, threshold alerts, process-tree reconstruction and the
//! graceful-then-forceful termination protocol.

pub mod history;
pub mod gpu;
pub mod config;

pub mod trends;
pub mod text;
pub mod alerts;
pub mod process;
pub mod signals;
pub mod error;
pub mod metrics;
pub mod theme;
pub mod ui_state;
pub mod daemon;
pub mod vendors;
pub mod listing;
