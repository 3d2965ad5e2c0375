use gleam_observer::config::{AlertsConfig, TrendConfig};
use gleam_observer::gpu::GPUInfo;
use gleam_observer::history::{CircularBuffer, MetricsHistory};
use gleam_observer::trends::{TrendAnalyzer, TrendDirection, TrendSeverity, TrendType};

fn gpu(temp: Option<u32>, util: Option<u32>, used: Option<u64>, total: Option<u64>) -> GPUInfo {
    GPUInfo::from_readings(
        0,
        "card".to_string(),
        "AMD".to_string(),
        temp,
        util,
        used,
        total,
        None,
        None,
        None,
        None,
        None,
        Vec::new(),
    )
}

#[test]
fn buffer_keeps_most_recent_in_order() {
    let mut b: CircularBuffer<u32> = CircularBuffer::new(3);
    for i in 0..10u32 {
        b.push(i * 10, i as u64);
        assert!(b.len() <= 3);
    }
    assert_eq!(b.get_values(), vec![70, 80, 90]);
    assert_eq!(b.get_at(0), Some((7, 70)));
    assert_eq!(b.get_at(2), Some((9, 90)));
    assert_eq!(b.get_at(3), None);
    assert_eq!(b.get_latest(), Some(&90));
    let ts: Vec<u64> = b.get_all().iter().map(|d| d.timestamp).collect();
    assert!(ts.windows(2).all(|w| w[0] <= w[1]));
}

#[test]
fn buffer_of_capacity_zero_stays_empty() {
    let mut b: CircularBuffer<u32> = CircularBuffer::new(0);
    b.push(1, 1);
    assert!(b.is_empty());
    assert_eq!(b.get_latest(), None);
}

#[test]
fn buffer_clear_and_default() {
    let mut b: CircularBuffer<f32> = CircularBuffer::default();
    assert_eq!(b.capacity(), 60);
    b.push(1.5, 3);
    assert_eq!(b.len(), 1);
    b.clear();
    assert!(b.is_empty());
}

#[test]
fn history_update_pushes_present_readings() {
    let mut h = MetricsHistory::new(5, 1);
    h.update(
        1,
        10_000,
        20_000,
        0,
        &[gpu(Some(60_000), None, Some(4 << 30), Some(8 << 30)), gpu(Some(1), None, None, None)],
    );
    assert_eq!(h.cpu_usage.get_values(), vec![10_000]);
    assert_eq!(h.memory_usage.get_values(), vec![20_000]);
    assert_eq!(h.gpu_temp[0].get_values(), vec![60_000]);
    assert!(h.gpu_util[0].is_empty());
    assert_eq!(h.gpu_mem[0].get_values(), vec![50_000]);
    assert_eq!(h.gpu_temp.len(), 1);
}

#[test]
fn history_grows_without_touching_existing_buffers() {
    let mut h = MetricsHistory::new(4, 1);
    h.update(1, 1, 1, 1, &[gpu(Some(5), Some(6), None, None)]);
    h.resize_gpu_buffers(3, 4);
    assert_eq!(h.gpu_temp.len(), 3);
    assert_eq!(h.gpu_util.len(), 3);
    assert_eq!(h.gpu_mem.len(), 3);
    assert_eq!(h.gpu_temp[0].get_values(), vec![5]);
    assert!(h.gpu_temp[2].is_empty());
    h.resize_gpu_buffers(1, 4);
    assert_eq!(h.gpu_temp.len(), 3);
}

fn config() -> TrendConfig {
    TrendConfig { enabled: true, sample_interval_secs: 1, min_confidence: 0, show_stable_trends: true }
}

fn buffer_of(values: &[u32]) -> CircularBuffer<u32> {
    let mut b = CircularBuffer::new(60);
    for (i, v) in values.iter().enumerate() {
        b.push(*v, i as u64);
    }
    b
}

#[test]
fn linear_series_is_increasing() {
    let a = TrendAnalyzer::new(config());
    let b = buffer_of(&[10_000, 12_000, 14_000, 16_000, 18_000, 20_000]);
    let t = a.analyze_metric(&b, TrendType::Cpu, 100_000).unwrap();
    assert_eq!(t.direction, TrendDirection::Increasing);
    // slope 2 units per sample, one sample per second
    assert_eq!(t.rate_per_minute, 120_000);
    assert_eq!(t.confidence, 1_000_000);
    // the line at x = 6 + 300
    assert_eq!(t.predicted_value_5min, 10_000 + 2_000 * 306);
    // (100 - 20) / 2 = 40 samples
    assert_eq!(t.time_to_threshold, Some(40));
    assert_eq!(t.severity, TrendSeverity::Critical);
}

#[test]
fn constant_series_is_stable() {
    let a = TrendAnalyzer::new(config());
    let b = buffer_of(&[50_000; 8]);
    let t = a.analyze_metric(&b, TrendType::Memory, 90_000).unwrap();
    assert_eq!(t.direction, TrendDirection::Stable);
    assert_eq!(t.rate_per_minute, 0);
    assert_eq!(t.confidence, 0);
    assert_eq!(t.time_to_threshold, None);
    assert_eq!(t.severity, TrendSeverity::Info);
}

#[test]
fn too_few_samples_give_no_trend() {
    let a = TrendAnalyzer::new(config());
    assert!(a.analyze_metric(&buffer_of(&[1, 2]), TrendType::Swap, 10).is_none());
}

#[test]
fn noisy_series_is_volatile() {
    let a = TrendAnalyzer::new(config());
    let b = buffer_of(&[10_000, 90_000, 5_000, 95_000, 20_000, 80_000]);
    let t = a.analyze_metric(&b, TrendType::Cpu, 100_000).unwrap();
    assert_eq!(t.direction, TrendDirection::Volatile);
    assert!(t.confidence < 500_000);
}

#[test]
fn decreasing_series() {
    let a = TrendAnalyzer::new(config());
    let b = buffer_of(&[30_000, 29_000, 28_000, 27_000]);
    let t = a.analyze_metric(&b, TrendType::Cpu, 100_000).unwrap();
    assert_eq!(t.direction, TrendDirection::Decreasing);
    assert_eq!(t.rate_per_minute, -60_000);
    assert_eq!(t.time_to_threshold, None);
    assert_eq!(t.severity, TrendSeverity::Warning);
}

#[test]
fn window_uses_last_ten_samples() {
    let a = TrendAnalyzer::new(config());
    let mut v = vec![99_000u32; 5];
    v.extend((0..10u32).map(|i| 1_000 * i));
    let t = a.analyze_metric(&buffer_of(&v), TrendType::Cpu, 1_000_000).unwrap();
    assert_eq!(t.rate_per_minute, 60_000);
    assert_eq!(t.confidence, 1_000_000);
}

#[test]
fn far_threshold_is_dropped_and_interval_scales_rate() {
    let cfg = TrendConfig { enabled: true, sample_interval_secs: 10, min_confidence: 0, show_stable_trends: true };
    let a = TrendAnalyzer::new(cfg);
    let b = buffer_of(&[10_000, 10_100, 10_200, 10_300]);
    let t = a.analyze_metric(&b, TrendType::Cpu, 95_000).unwrap();
    // 0.1 unit per 10 s sample is 0.6 per minute
    assert_eq!(t.rate_per_minute, 600);
    // (95 - 10.3) / 0.1 samples of 10 s is far beyond two hours
    assert_eq!(t.time_to_threshold, None);
    assert_eq!(t.severity, TrendSeverity::Info);
}

#[test]
fn stable_hidden_and_confidence_filter() {
    let cfg = TrendConfig { enabled: true, sample_interval_secs: 1, min_confidence: 700_000, show_stable_trends: false };
    let a = TrendAnalyzer::new(cfg);
    assert!(a.analyze_metric(&buffer_of(&[50_000; 5]), TrendType::Cpu, 90_000).is_none());
    let mut h = MetricsHistory::new(20, 1);
    for (i, v) in [10_000u32, 12_000, 14_000, 16_000].iter().enumerate() {
        h.update(i as u64, *v, 50_000, 0, &[gpu(Some(*v), None, None, None)]);
    }
    let trends = a.analyze_all(&h, &AlertsConfig::default());
    assert_eq!(trends.len(), 2);
    assert_eq!(trends[0].metric, TrendType::Cpu);
    assert_eq!(trends[1].metric, TrendType::GpuTemp(0));
    let off = TrendAnalyzer::new(TrendConfig { enabled: false, ..cfg });
    assert!(off.analyze_all(&h, &AlertsConfig::default()).is_empty());
}

#[test]
fn distant_crossing_with_fast_rate_is_a_warning() {
    let a = TrendAnalyzer::new(config());
    let b = buffer_of(&[1_000, 1_100, 1_200]);
    let t = a.analyze_metric(&b, TrendType::Cpu, 101_200).unwrap();
    assert_eq!(t.time_to_threshold, Some(1000));
    assert_eq!(t.rate_per_minute, 6_000);
    assert_eq!(t.severity, TrendSeverity::Warning);
}

#[test]
fn push_keeps_timestamp_order_and_newest_last() {
    let mut b: CircularBuffer<u32> = CircularBuffer::new(2);
    b.push(1, 10);
    b.push(2, 20);
    b.push(3, 30);
    assert_eq!(b.get_at(1), Some((30, 3)));
    assert_eq!(b.get_at(0), Some((20, 2)));
}
