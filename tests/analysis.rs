use sysops_agent::analyzer::{create_analyzers, Analyzer, ThresholdAnalyzer, TrendAnalyzer, ZScoreAnalyzer};
use sysops_agent::config::{
    default_data_dir, default_log_level, default_proc_root, default_sys_root, AgentConfig,
    AlertingConfig, AnalyzerConfig, CollectorConfig, Config, NatsConfig, PrometheusConfig,
    StorageConfig, ThresholdConfig,
};
use sysops_agent::stats::{trend_check, zscore_check, OutOfRange};
use sysops_agent::storage::Storage;
use sysops_agent::types::{MetricId, MetricSample, Severity};

fn store() -> Storage {
    Storage::new(&StorageConfig::default())
}

#[test]
fn threshold_cpu_critical() {
    let mut t = ThresholdConfig::default();
    t.cpu_warn_percent = 80_000;
    t.cpu_critical_percent = 95_000;
    let mut s = store();
    s.insert(MetricSample::unlabelled(100, MetricId::CpuUsage, 96_000));
    let mut a = ThresholdAnalyzer::new(&t);
    let alerts = a.analyze(&s);
    assert_eq!(alerts.len(), 1);
    assert_eq!(alerts[0].severity, Severity::Critical);
    assert_eq!(alerts[0].metric, MetricId::CpuUsage);
    assert_eq!(alerts[0].value, 96_000);
    assert_eq!(alerts[0].threshold, Some(95_000));
    assert_eq!(alerts[0].message, "cpu.usage_percent is 96.0% (threshold: 95.0%)");
}

#[test]
fn threshold_warn_and_quiet() {
    let t = ThresholdConfig::default();
    let mut s = store();
    s.insert(MetricSample::unlabelled(1, MetricId::MemUsage, 85_000));
    s.insert(MetricSample::unlabelled(1, MetricId::DiskUsage, 79_999));
    let a = ThresholdAnalyzer::new(&t);
    let w = a.check_metric(&s, MetricId::MemUsage, 80_000, 90_000).unwrap();
    assert_eq!(w.severity, Severity::Warn);
    assert_eq!(w.threshold, Some(80_000));
    assert!(a.check_metric(&s, MetricId::DiskUsage, 80_000, 90_000).is_none());
    assert!(a.check_metric(&s, MetricId::FdSystemUsage, 80_000, 95_000).is_none());
}

#[test]
fn zscore_spike_is_critical() {
    let mut s = store();
    for i in 0..100 {
        s.insert(MetricSample::unlabelled(i, MetricId::CpuUsage, 10_000));
    }
    s.insert(MetricSample::unlabelled(100, MetricId::CpuUsage, 50_000));
    let mut config = AnalyzerConfig::default();
    config.zscore_threshold = 3000;
    let mut z = ZScoreAnalyzer::new(&config);
    let alerts = z.analyze(&s);
    assert_eq!(alerts.len(), 1);
    assert_eq!(alerts[0].severity, Severity::Critical);
    assert_eq!(alerts[0].metric, MetricId::CpuUsage);
    assert_eq!(alerts[0].value, 50_000);
    assert_eq!(alerts[0].threshold, None);
    assert_eq!(alerts[0].message, "cpu.usage_percent anomaly detected (value=50.0, mean=10.3)");
}

#[test]
fn zscore_flat_window_is_quiet() {
    let values = vec![10_000i64; 50];
    assert_eq!(zscore_check(&values, 3000), Ok(None));
}

#[test]
fn zscore_needs_thirty_samples() {
    let mut values = vec![10_000i64; 28];
    values.push(90_000);
    assert_eq!(zscore_check(&values, 3000), Ok(None));
}

#[test]
fn zscore_warn_band() {
    // 99 samples alternating 0 and 2, then 5: |z| is about 3.7
    let mut values: Vec<i64> = Vec::new();
    for i in 0..99 {
        values.push(if i % 2 == 0 { 0 } else { 2000 });
    }
    values.push(5000);
    let r = zscore_check(&values, 3000);
    assert_eq!(r, Ok(Some((Severity::Warn, 1030))));
}

#[test]
fn zscore_out_of_range() {
    let mut values = vec![0i64; 40];
    values.push(i64::MAX);
    assert_eq!(zscore_check(&values, 3000), Err(OutOfRange));
}

fn ramp(n: usize, step_secs: i64, start: i64, step: i64) -> (Vec<i64>, Vec<i64>) {
    let t0 = 1_700_000_000i64;
    let times = (0..n as i64).map(|i| t0 + i * step_secs).collect();
    let values = (0..n as i64).map(|i| start + i * step).collect();
    (times, values)
}

#[test]
fn trend_disk_exhaustion_in_a_day() {
    // 400 samples from 50.025% to 60% over 21546 s: 40% left at 1/144 % per s is 24 h
    let (times, values) = ramp(400, 54, 50_025, 25);
    let mut s = store();
    for (t, v) in times.iter().zip(values.iter()) {
        s.insert(MetricSample::unlabelled(*t, MetricId::DiskUsage, *v));
    }
    let mut a = TrendAnalyzer::new(&AnalyzerConfig::default());
    let alerts = a.analyze(&s);
    assert_eq!(alerts.len(), 1);
    assert_eq!(alerts[0].metric, MetricId::DiskUsage);
    assert_eq!(alerts[0].severity, Severity::Critical);
    assert_eq!(alerts[0].value, 60_000);
    assert_eq!(alerts[0].threshold, Some(100_000));
    assert_eq!(
        alerts[0].message,
        "disk.usage_percent trending toward exhaustion: 24.0h remaining (current=60.0%)"
    );
}

#[test]
fn trend_warn_between_crit_and_warn_horizon() {
    // 40% left at 1% per hour: 40 h, between 24 h and 72 h
    let (times, values) = ramp(120, 36, 50_000, 10);
    let last = *values.last().unwrap();
    let limit_left = 100_000 - last;
    assert!(limit_left > 0);
    // 48810 thousandths left at 1000 an hour: 48.8 h
    assert_eq!(trend_check(&times, &values, 100_000, 72, 24), Ok(Some((Severity::Warn, 488))));
}

#[test]
fn trend_needs_sixty_samples() {
    let (times, values) = ramp(59, 10, 50_000, 100);
    assert_eq!(trend_check(&times, &values, 100_000, 72, 24), Ok(None));
}

#[test]
fn trend_same_timestamps_is_quiet() {
    let (_, values) = ramp(100, 10, 50_000, 100);
    let times = vec![1_700_000_000i64; 100];
    assert_eq!(trend_check(&times, &values, 100_000, 72, 24), Ok(None));
}

#[test]
fn trend_falling_or_full_is_quiet() {
    let (times, values) = ramp(100, 10, 90_000, -10);
    assert_eq!(trend_check(&times, &values, 100_000, 72, 24), Ok(None));
    let (times, values) = ramp(100, 10, 99_000, 20);
    assert_eq!(trend_check(&times, &values, 100_000, 72, 24), Ok(None));
}

#[test]
fn analyzers_in_order() {
    let mut list = create_analyzers(&sysops_agent_config());
    let names: Vec<&str> = list.iter().map(|a| a.name()).collect();
    assert_eq!(names, vec!["threshold", "zscore", "trend"]);
    let s = store();
    for a in list.iter_mut() {
        assert!(a.analyze(&s).is_empty());
    }
    assert!(matches!(list[0], Analyzer::Threshold(_)));
}

fn sysops_agent_config() -> Config {
    Config {
        agent: AgentConfig {
            hostname: "h".to_string(),
            log_level: default_log_level(),
            log_file: None,
            pid_file: None,
            data_dir: default_data_dir(),
            proc_root: default_proc_root(),
            sys_root: default_sys_root(),
        },
        collector: CollectorConfig::default(),
        thresholds: ThresholdConfig::default(),
        analyzer: AnalyzerConfig::default(),
        storage: StorageConfig::default(),
        alerting: AlertingConfig::default(),
        prometheus: PrometheusConfig::default(),
        nats: NatsConfig::default(),
    }
}
