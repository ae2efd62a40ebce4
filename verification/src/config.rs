//! Runtime settings: the listen address, the collection interval, and the
//! per-metric enable matrix that gates each family of the exposition.
//!
//! Reading configuration files and the environment happens outside this
//! crate; what arrives here is either a fully deserialized `Settings` value
//! or nothing, in which case the documented defaults stand.

use vstd::prelude::*;

verus! {

/// Which metric families are written; every flag defaults to on.
#[derive(Debug, Clone, Copy, PartialEq, Eq, Structural)]
pub struct MetricsEnabled {
    pub node_info: bool,
    pub node_uptime: bool,
    pub cpu_cores: bool,
    pub cpu_threads: bool,
    pub cpu_usage: bool,
    pub cpu_used_cores: bool,
    pub memory_total: bool,
    pub memory_used: bool,
    pub memory_available: bool,
    pub memory_usage: bool,
    pub gpu_count: bool,
    pub gpu_used_count: bool,
    pub gpu_type_count: bool,
    pub gpu_memory_total: bool,
    pub gpu_memory_used: bool,
    pub gpu_memory_free: bool,
    pub gpu_utilization: bool,
    pub gpu_temperature: bool,
    pub gpu_power_draw: bool,
    pub gpu_power_limit: bool,
}

/// The default enable matrix: every family on.
pub open spec fn metrics_enabled_default() -> MetricsEnabled {
    MetricsEnabled {
        node_info: true,
        node_uptime: true,
        cpu_cores: true,
        cpu_threads: true,
        cpu_usage: true,
        cpu_used_cores: true,
        memory_total: true,
        memory_used: true,
        memory_available: true,
        memory_usage: true,
        gpu_count: true,
        gpu_used_count: true,
        gpu_type_count: true,
        gpu_memory_total: true,
        gpu_memory_used: true,
        gpu_memory_free: true,
        gpu_utilization: true,
        gpu_temperature: true,
        gpu_power_draw: true,
        gpu_power_limit: true,
    }
}

/// The default value a missing enable flag takes: on.
pub fn default_true() -> (b: bool)
    ensures
        b,
{
    true
}

impl Default for MetricsEnabled {
    fn default() -> (e: MetricsEnabled)
        ensures
            e == metrics_enabled_default(),
    {
        MetricsEnabled {
            node_info: true,
            node_uptime: true,
            cpu_cores: true,
            cpu_threads: true,
            cpu_usage: true,
            cpu_used_cores: true,
            memory_total: true,
            memory_used: true,
            memory_available: true,
            memory_usage: true,
            gpu_count: true,
            gpu_used_count: true,
            gpu_type_count: true,
            gpu_memory_total: true,
            gpu_memory_used: true,
            gpu_memory_free: true,
            gpu_utilization: true,
            gpu_temperature: true,
            gpu_power_draw: true,
            gpu_power_limit: true,
        }
    }
}

/// Where the HTTP layer listens.
#[derive(Debug)]
pub struct ServerSettings {
    pub host: String,
    pub port: u16,
}

/// How collection behaves: the cycle interval and the enable matrix.
#[derive(Debug)]
pub struct MetricsSettings {
    pub collect_interval_secs: u64,
    pub enabled: MetricsEnabled,
}

/// All runtime settings.
#[derive(Debug)]
pub struct Settings {
    pub server: ServerSettings,
    pub metrics: MetricsSettings,
}

/// The documented defaults: listen on `0.0.0.0:8080`, collect every 15
/// seconds, every metric family on.
pub open spec fn settings_is_default(s: Settings) -> bool {
    &&& s.server.host@ == "0.0.0.0"@
    &&& s.server.port == 8080
    &&& s.metrics.collect_interval_secs == 15
    &&& s.metrics.enabled == metrics_enabled_default()
}

impl Default for Settings {
    fn default() -> (s: Settings)
        ensures
            settings_is_default(s),
    {
        Settings {
            server: ServerSettings { host: String::from_str("0.0.0.0"), port: 8080 },
            metrics: MetricsSettings {
                collect_interval_secs: 15,
                enabled: MetricsEnabled::default(),
            },
        }
    }
}

impl Settings {
    /// Adopts deserialized settings when configuration yielded any, and
    /// falls back to the documented defaults when it did not.
    pub fn load(parsed: Option<Settings>) -> (s: Settings)
        ensures
            match parsed {
                Some(p) => s == p,
                None => settings_is_default(s),
            },
    {
        match parsed {
            Some(p) => p,
            None => Settings::default(),
        }
    }
}

} // verus!
