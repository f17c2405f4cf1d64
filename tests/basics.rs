use sysops_agent::config::{
    default_exclude_fstypes, default_hostname, default_interval, default_ring_buffer_size,
    hostname_or_unknown, AlertingConfig, AnalyzerConfig, DiskCollectorConfig, StorageConfig,
    ThresholdConfig,
};
use sysops_agent::text::{decimal_text, parse_milli, parse_u64, split_lines, split_words, tenths_text};
use sysops_agent::types::{MetricId, METRIC_COUNT};

#[test]
fn metric_text_round_trip() {
    for i in 0..METRIC_COUNT {
        let m = MetricId::from_index(i);
        assert_eq!(m.index(), i);
        assert_eq!(MetricId::from_text(m.text()), Some(m));
    }
    assert_eq!(MetricId::CpuUsage.text(), "cpu.usage_percent");
    assert_eq!(MetricId::NetRxRate.text(), "net.rx_bytes_rate");
    assert_eq!(MetricId::from_text("cpu.usage"), None);
}

#[test]
fn words_and_lines() {
    let w = split_words(b"  cpu0 12\t34 \n");
    assert_eq!(w, vec![b"cpu0".to_vec(), b"12".to_vec(), b"34".to_vec()]);
    assert!(split_words(b"   ").is_empty());
    let l = split_lines(b"a\n\nb\n");
    assert_eq!(l, vec![b"a".to_vec(), Vec::new(), b"b".to_vec()]);
    assert!(split_lines(b"").is_empty());
}

#[test]
fn numbers() {
    assert_eq!(parse_u64(b"18446744073709551615"), Some(u64::MAX));
    assert_eq!(parse_u64(b"18446744073709551616"), None);
    assert_eq!(parse_u64(b"+7"), Some(7));
    assert_eq!(parse_u64(b"7x"), None);
    assert_eq!(parse_u64(b""), None);
    assert_eq!(parse_milli(b"0.52"), Some(520));
    assert_eq!(parse_milli(b"3"), Some(3000));
    assert_eq!(parse_milli(b".5"), Some(500));
    assert_eq!(parse_milli(b"1.23456"), Some(1234));
    assert_eq!(parse_milli(b"1.2.3"), None);
    assert_eq!(decimal_text(0), "0");
    assert_eq!(decimal_text(1907), "1907");
}

#[test]
fn configuration_defaults() {
    assert_eq!(StorageConfig::default().ring_buffer_size, 8640);
    assert_eq!(default_ring_buffer_size(), 8640);
    assert_eq!(default_interval(), 10);
    let a = AlertingConfig::default();
    assert_eq!((a.rate_limit_per_minute, a.dedup_window_secs), (10, 300));
    let z = AnalyzerConfig::default();
    assert_eq!((z.zscore_window, z.zscore_threshold, z.trend_window_hours), (360, 3000, 6));
    let t = ThresholdConfig::default();
    assert_eq!((t.cpu_warn_percent, t.cpu_critical_percent), (80_000, 95_000));
    assert_eq!(default_exclude_fstypes(), vec!["tmpfs", "devtmpfs", "sysfs", "proc"]);
    assert_eq!(DiskCollectorConfig::default().interval_secs, 60);
}

#[test]
fn host_names() {
    assert_eq!(hostname_or_unknown(None), "unknown");
    assert_eq!(hostname_or_unknown(Some("db1".to_string())), "db1");
    let _ = default_hostname();
}

#[test]
fn one_decimal_text() {
    assert_eq!(tenths_text(96_000), "96.0");
    assert_eq!(tenths_text(95_049), "95.0");
    assert_eq!(tenths_text(-1_500), "-1.5");
    assert_eq!(tenths_text(-50), "0.0");
    assert_eq!(tenths_text(123), "0.1");
}
