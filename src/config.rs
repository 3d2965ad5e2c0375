use vstd::prelude::*;

verus! {

/// How often the monitor samples and how many samples it keeps.
#[derive(Debug, Clone)]
pub struct RefreshConfig {
    pub interval_ms: u64,
    pub history_samples: usize,
}

/// Alert thresholds, in thousandths of a percent (temperature: thousandths
/// of a degree Celsius), and the notification cooldown in seconds.
#[derive(Debug, Clone, Copy)]
pub struct AlertsConfig {
    pub enabled: bool,
    pub notifications_enabled: bool,
    pub notification_cooldown_secs: u64,
    pub cpu_threshold: u32,
    pub memory_threshold: u32,
    pub swap_threshold: u32,
    pub gpu_temp_threshold: u32,
    pub gpu_util_threshold: u32,
    pub gpu_mem_threshold: u32,
}

/// Display preferences.
#[derive(Debug, Clone)]
pub struct DisplayConfig {
    pub theme: String,
    pub show_processes: bool,
    pub process_count: usize,
}

/// Trend analysis settings. `min_confidence` is an R² in millionths.
#[derive(Debug, Clone, Copy)]
pub struct TrendConfig {
    pub enabled: bool,
    pub sample_interval_secs: u64,
    pub min_confidence: u32,
    pub show_stable_trends: bool,
}

/// The whole configuration.
#[derive(Debug, Clone)]
pub struct Config {
    pub refresh: RefreshConfig,
    pub alerts: AlertsConfig,
    pub display: DisplayConfig,
    pub trends: TrendConfig,
}

pub fn default_interval_ms() -> (r: u64)
    ensures
        r == 1000,
{
    1000
}

pub fn default_history_samples() -> (r: usize)
    ensures
        r == 60,
{
    60
}

pub fn default_enabled() -> (r: bool)
    ensures
        r,
{
    true
}

pub fn default_notifications_enabled() -> (r: bool)
    ensures
        r,
{
    true
}

pub fn default_notification_cooldown() -> (r: u64)
    ensures
        r == 60,
{
    60
}

pub fn default_cpu_threshold() -> (r: u32)
    ensures
        r == 85_000,
{
    85_000
}

pub fn default_memory_threshold() -> (r: u32)
    ensures
        r == 90_000,
{
    90_000
}

pub fn default_swap_threshold() -> (r: u32)
    ensures
        r == 80_000,
{
    80_000
}

pub fn default_gpu_temp_threshold() -> (r: u32)
    ensures
        r == 75_000,
{
    75_000
}

pub fn default_gpu_util_threshold() -> (r: u32)
    ensures
        r == 95_000,
{
    95_000
}

pub fn default_gpu_mem_threshold() -> (r: u32)
    ensures
        r == 90_000,
{
    90_000
}

pub fn default_theme() -> (r: String)
    ensures
        r@ == "dark"@,
{
    String::from_str("dark")
}

pub fn default_show_processes() -> (r: bool)
    ensures
        r,
{
    true
}

pub fn default_process_count() -> (r: usize)
    ensures
        r == 10,
{
    10
}

pub fn default_trend_enabled() -> (r: bool)
    ensures
        r,
{
    true
}

pub fn default_sample_interval() -> (r: u64)
    ensures
        r == 1,
{
    1
}

pub fn default_min_confidence() -> (r: u32)
    ensures
        r == 700_000,
{
    700_000
}

pub fn default_show_stable() -> (r: bool)
    ensures
        r,
{
    true
}

impl Default for AlertsConfig {
    fn default() -> (r: Self)
        ensures
            r.enabled && r.notifications_enabled,
            r.notification_cooldown_secs == 60,
            r.cpu_threshold == 85_000,
            r.memory_threshold == 90_000,
            r.swap_threshold == 80_000,
            r.gpu_temp_threshold == 75_000,
            r.gpu_util_threshold == 95_000,
            r.gpu_mem_threshold == 90_000,
    {
        AlertsConfig {
            enabled: default_enabled(),
            notifications_enabled: default_notifications_enabled(),
            notification_cooldown_secs: default_notification_cooldown(),
            cpu_threshold: default_cpu_threshold(),
            memory_threshold: default_memory_threshold(),
            swap_threshold: default_swap_threshold(),
            gpu_temp_threshold: default_gpu_temp_threshold(),
            gpu_util_threshold: default_gpu_util_threshold(),
            gpu_mem_threshold: default_gpu_mem_threshold(),
        }
    }
}

impl Default for TrendConfig {
    fn default() -> (r: Self)
        ensures
            r.enabled,
            r.sample_interval_secs == 1,
            r.min_confidence == 700_000,
            r.show_stable_trends,
    {
        TrendConfig {
            enabled: default_trend_enabled(),
            sample_interval_secs: default_sample_interval(),
            min_confidence: default_min_confidence(),
            show_stable_trends: default_show_stable(),
        }
    }
}

impl Default for Config {
    fn default() -> (r: Self)
        ensures
            r.refresh.interval_ms == 1000,
            r.refresh.history_samples == 60,
            r.alerts.enabled && r.alerts.notifications_enabled,
            r.alerts.notification_cooldown_secs == 60,
            r.alerts.cpu_threshold == 85_000,
            r.alerts.memory_threshold == 90_000,
            r.alerts.swap_threshold == 80_000,
            r.alerts.gpu_temp_threshold == 75_000,
            r.alerts.gpu_util_threshold == 95_000,
            r.alerts.gpu_mem_threshold == 90_000,
            r.display.theme@ == "dark"@,
            r.display.show_processes,
            r.display.process_count == 10,
            r.trends.enabled,
            r.trends.sample_interval_secs == 1,
            r.trends.min_confidence == 700_000,
            r.trends.show_stable_trends,
    {
        Config {
            refresh: RefreshConfig {
                interval_ms: default_interval_ms(),
                history_samples: default_history_samples(),
            },
            alerts: AlertsConfig::default(),
            display: DisplayConfig {
                theme: default_theme(),
                show_processes: default_show_processes(),
                process_count: default_process_count(),
            },
            trends: TrendConfig::default(),
        }
    }
}

} // verus!
