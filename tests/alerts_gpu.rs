use gleam_observer::alerts::{AlertDetector, AlertLevel, AlertType};
use gleam_observer::config::{AlertsConfig, Config};
use gleam_observer::gpu::{milli_percent, power_efficiency, GPUInfo};
use gleam_observer::text::one_decimal_text;

fn gpu(temp: Option<u32>, util: Option<u32>, used: Option<u64>, total: Option<u64>) -> GPUInfo {
    GPUInfo::from_readings(
        0,
        "card".to_string(),
        "NVIDIA".to_string(),
        temp,
        util,
        used,
        total,
        Some(200_000),
        Some(300_000),
        Some(1800),
        Some(7000),
        Some(40_000),
        Vec::new(),
    )
}

#[test]
fn cpu_alert_levels() {
    let mut d = AlertDetector::new(AlertsConfig::default());
    let a = d.check_alerts_at(90_000, 0, 0, 0, &[], 10);
    assert_eq!(a.len(), 1);
    assert!(matches!(a[0].alert_type, AlertType::CpuUsage));
    assert_eq!(a[0].level, AlertLevel::Warning);
    assert_eq!(a[0].message, "CPU usage at 90.0% (threshold: 85.0%)");
    assert_eq!(a[0].timestamp, 10);
    let a = d.check_alerts_at(96_000, 0, 0, 0, &[], 11);
    assert_eq!(a.len(), 1);
    assert_eq!(a[0].level, AlertLevel::Critical);
    assert_eq!(d.critical_count(), 1);
    assert_eq!(d.warning_count(), 0);
    assert!(d.has_alerts());
    let a = d.check_alerts_at(50_000, 0, 0, 0, &[], 12);
    assert!(a.is_empty());
    assert!(!d.has_alerts());
}

#[test]
fn memory_and_swap_alerts() {
    let mut d = AlertDetector::new(AlertsConfig::default());
    let a = d.check_alerts_at(0, 96_500, 85_000, 0, &[], 1);
    assert_eq!(a.len(), 1);
    assert_eq!(a[0].level, AlertLevel::Critical);
    assert_eq!(a[0].message, "Memory usage at 96.5% (threshold: 90.0%)");
    let a = d.check_alerts_at(0, 0, 85_000, 1024, &[], 1);
    assert_eq!(a.len(), 1);
    assert!(matches!(a[0].alert_type, AlertType::SwapUsage));
    assert_eq!(a[0].level, AlertLevel::Warning);
    assert_eq!(d.warning_count(), 1);
}

#[test]
fn gpu_alerts_per_policy() {
    let mut d = AlertDetector::new(AlertsConfig::default());
    let g = gpu(Some(90_000), Some(99_000), Some(95), Some(100));
    let a = d.check_alerts_at(0, 0, 0, 0, &[g], 5);
    assert_eq!(a.len(), 3);
    assert!(matches!(a[0].alert_type, AlertType::GpuTemperature { gpu_id: 0 }));
    assert_eq!(a[0].level, AlertLevel::Critical);
    assert_eq!(a[0].message, "GPU 0 temperature at 90.0\u{b0}C (threshold: 75.0\u{b0}C)");
    assert!(matches!(a[1].alert_type, AlertType::GpuUtilization { gpu_id: 0 }));
    assert_eq!(a[1].level, AlertLevel::Info);
    assert!(matches!(a[2].alert_type, AlertType::GpuMemory { gpu_id: 0 }));
    assert_eq!(a[2].level, AlertLevel::Warning);
    assert_eq!(a[2].value, 95_000);
    let warm = gpu(Some(80_000), None, None, None);
    let a = d.check_alerts_at(0, 0, 0, 0, &[warm], 5);
    assert_eq!(a.len(), 1);
    assert_eq!(a[0].level, AlertLevel::Warning);
}

#[test]
fn disabled_alerts_are_silent() {
    let cfg = AlertsConfig { enabled: false, ..AlertsConfig::default() };
    let mut d = AlertDetector::new(cfg);
    assert!(d.check_alerts_at(100_000, 100_000, 100_000, 1, &[], 1).is_empty());
    assert!(d.active_alerts().is_empty());
}

#[test]
fn notification_cooldown() {
    let mut d = AlertDetector::new(AlertsConfig::default());
    let cpu = AlertType::CpuUsage;
    assert!(d.should_notify_at(&cpu, 1000));
    assert!(!d.should_notify_at(&cpu, 1001));
    assert!(!d.should_notify_at(&cpu, 1059));
    assert!(d.should_notify_at(&AlertType::GpuMemory { gpu_id: 1 }, 1059));
    assert!(d.should_notify_at(&cpu, 1060));
    assert!(!d.should_notify_at(&cpu, 1100));
    assert!(d.should_notify(&AlertType::SwapUsage));
    assert!(!d.should_notify(&AlertType::SwapUsage));
}

#[test]
fn gpu_memory_percent() {
    assert_eq!(gpu(None, None, None, Some(8)).memory_usage_percent(), None);
    assert_eq!(gpu(None, None, Some(4), None).memory_usage_percent(), None);
    assert_eq!(gpu(None, None, Some(4), Some(0)).memory_usage_percent(), None);
    let gib: u64 = 1 << 30;
    assert_eq!(gpu(None, None, Some(4 * gib), Some(8 * gib)).memory_usage_percent(), Some(50_000));
    assert_eq!(milli_percent(1, 3), 33_333);
}

#[test]
fn power_efficiency_needs_positive_draw() {
    assert_eq!(power_efficiency(Some(50_000), Some(100_000)), Some(500));
    assert_eq!(power_efficiency(Some(50_000), Some(0)), None);
    assert_eq!(power_efficiency(None, Some(100_000)), None);
    assert_eq!(gpu(None, Some(60_000), None, None).power_efficiency, Some(300));
}

#[test]
fn one_decimal_rounds() {
    assert_eq!(one_decimal_text(90_000), "90.0");
    assert_eq!(one_decimal_text(12_345), "12.3");
    assert_eq!(one_decimal_text(12_350), "12.4");
    assert_eq!(one_decimal_text(0), "0.0");
}

#[test]
fn default_config_values() {
    let c = Config::default();
    assert_eq!(c.refresh.interval_ms, 1000);
    assert_eq!(c.refresh.history_samples, 60);
    assert_eq!(c.alerts.cpu_threshold, 85_000);
    assert_eq!(c.alerts.notification_cooldown_secs, 60);
    assert_eq!(c.display.theme, "dark");
    assert_eq!(c.trends.min_confidence, 700_000);
}

#[test]
fn alert_keys() {
    assert_eq!(AlertType::CpuUsage.key(), "cpu");
    assert_eq!(AlertType::SwapUsage.key(), "swap");
    assert_eq!(AlertType::GpuTemperature { gpu_id: 2 }.key(), "gpu_2_temp");
    assert_eq!(AlertType::GpuMemory { gpu_id: 10 }.key(), "gpu_10_mem");
}
