//! Per-node telemetry exporter core: GPU telemetry acquisition, defensive
//! CSV parsing of the query tool's output, a staleness-aware cache of the
//! last good snapshot, and rendering of the merged metrics in the Prometheus
//! text exposition format.
//!
//! Subprocess execution, filesystem probes and the HTTP surface live outside
//! this crate; everything here is pure logic on plain values, stated in
//! contracts and verified.
#![verifier::loop_isolation(false)]

use vstd::prelude::*;

pub mod cache;
pub mod config;
pub mod error;
pub mod executor;
pub mod gpu;
pub mod hostinfo;
pub mod metrics;
pub mod text;

verus! {

/// Shared application state: the loaded settings, reference-counted so
/// every concurrent request handler reads the same instance.
#[derive(Clone)]
pub struct AppState {
    pub settings: std::sync::Arc<crate::config::Settings>,
}

impl AppState {
    /// Wraps loaded settings for sharing across request handlers.
    pub fn new(settings: crate::config::Settings) -> (s: AppState)
        ensures
            s.settings == settings,
    {
        AppState { settings: std::sync::Arc::new(settings) }
    }
}

} // verus!
