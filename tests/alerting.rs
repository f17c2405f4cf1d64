use sysops_agent::alerter::{
    accepts_severity, alert_title, discord_username, enabled_channels, parse_severity,
    parse_severity_filter, severity_color, severity_hex_color, AlertManager, ChannelKind,
    DispatchOutcome,
};
use sysops_agent::config::{AlertingConfig, DiscordConfig, SlackConfig};
use sysops_agent::rate_limit::{RateLimiter, TOKEN_SCALE};
use sysops_agent::types::{Alert, LabelList, MetricId, Severity};

fn alert(metric: MetricId, severity: Severity) -> Alert {
    Alert {
        timestamp: 0,
        severity,
        metric,
        value: 1000,
        threshold: None,
        message: "m".to_string(),
        labels: LabelList::new(),
        hostname: "h".to_string(),
    }
}

#[test]
fn dedup_suppresses_repeat_within_window() {
    let config = AlertingConfig::default();
    assert_eq!(config.dedup_window_secs, 300);
    let mut m = AlertManager::new(&config, 0);
    let a = alert(MetricId::CpuUsage, Severity::Warn);
    assert!(matches!(m.dispatch(&a, 0), DispatchOutcome::Delivered(_)));
    assert_eq!(m.dispatch(&a, 60_000), DispatchOutcome::Suppressed);
    assert_eq!(m.dedup_count(MetricId::CpuUsage, Severity::Warn), Some(2));
}

#[test]
fn dedup_window_expires() {
    let mut m = AlertManager::new(&AlertingConfig::default(), 0);
    let a = alert(MetricId::MemUsage, Severity::Critical);
    assert!(matches!(m.dispatch(&a, 1_000), DispatchOutcome::Delivered(_)));
    assert_eq!(m.dispatch(&a, 300_999), DispatchOutcome::Suppressed);
    assert!(matches!(m.dispatch(&a, 301_000), DispatchOutcome::Delivered(_)));
    assert_eq!(m.dedup_count(MetricId::MemUsage, Severity::Critical), Some(1));
}

#[test]
fn same_metric_other_severity_is_not_deduplicated() {
    let mut m = AlertManager::new(&AlertingConfig::default(), 0);
    assert!(matches!(m.dispatch(&alert(MetricId::CpuUsage, Severity::Warn), 0), DispatchOutcome::Delivered(_)));
    assert!(matches!(m.dispatch(&alert(MetricId::CpuUsage, Severity::Critical), 0), DispatchOutcome::Delivered(_)));
}

#[test]
fn emergency_bypasses_empty_bucket() {
    let mut config = AlertingConfig::default();
    config.rate_limit_per_minute = 2;
    let mut m = AlertManager::new(&config, 0);
    assert!(matches!(m.dispatch(&alert(MetricId::CpuUsage, Severity::Warn), 0), DispatchOutcome::Delivered(_)));
    assert!(matches!(m.dispatch(&alert(MetricId::MemUsage, Severity::Warn), 0), DispatchOutcome::Delivered(_)));
    assert_eq!(m.dispatch(&alert(MetricId::DiskUsage, Severity::Warn), 0), DispatchOutcome::RateLimited);
    assert!(matches!(m.dispatch(&alert(MetricId::FdSystemUsage, Severity::Emergency), 0), DispatchOutcome::Delivered(_)));
}

#[test]
fn emergency_bypasses_dedup() {
    let mut m = AlertManager::new(&AlertingConfig::default(), 0);
    let a = alert(MetricId::CpuUsage, Severity::Emergency);
    assert!(matches!(m.dispatch(&a, 0), DispatchOutcome::Delivered(_)));
    assert!(matches!(m.dispatch(&a, 1), DispatchOutcome::Delivered(_)));
}

#[test]
fn token_bucket_refills_over_time() {
    let mut b = RateLimiter::new(2, 0);
    assert!(b.try_acquire(0));
    assert!(b.try_acquire(0));
    assert!(!b.try_acquire(0));
    assert!(!b.try_acquire(29_999));
    assert!(b.try_acquire(30_000));
    assert!(!b.try_acquire(30_000));
    assert_eq!(TOKEN_SCALE, 60_000);
}

#[test]
fn token_bucket_grants_bounded_by_capacity_and_rate() {
    let per_minute = 10u32;
    let mut b = RateLimiter::new(per_minute, 0);
    let mut granted = 0u64;
    for t in 0..=120u64 {
        if b.try_acquire(t * 1000) {
            granted += 1;
        }
    }
    // capacity 10 plus 10 per minute over 120 s
    assert!(granted <= 10 + 20);
    assert!(granted >= 29);
}

#[test]
fn fan_out_follows_severity_filters() {
    let mut config = AlertingConfig::default();
    config.discord = Some(DiscordConfig {
        enabled: true,
        webhook_url: "http://d".to_string(),
        username: None,
        severity_filter: vec!["critical".to_string()],
    });
    config.slack = Some(SlackConfig {
        enabled: true,
        webhook_url: "http://s".to_string(),
        channel: None,
        severity_filter: vec![],
    });
    let mut m = AlertManager::new(&config, 0);
    assert_eq!(m.channel_kinds(), vec![ChannelKind::Discord, ChannelKind::Slack]);
    assert_eq!(m.dispatch(&alert(MetricId::CpuUsage, Severity::Warn), 0), DispatchOutcome::Delivered(vec![1]));
    assert_eq!(m.dispatch(&alert(MetricId::CpuUsage, Severity::Critical), 0), DispatchOutcome::Delivered(vec![0, 1]));
}

#[test]
fn disabled_channels_are_left_out() {
    let mut config = AlertingConfig::default();
    config.slack = Some(SlackConfig {
        enabled: false,
        webhook_url: "http://s".to_string(),
        channel: None,
        severity_filter: vec![],
    });
    assert!(enabled_channels(&config).is_empty());
}

#[test]
fn severity_words_and_filters() {
    assert_eq!(parse_severity("warn"), Some(Severity::Warn));
    assert_eq!(parse_severity("emergency"), Some(Severity::Emergency));
    assert_eq!(parse_severity("WARN"), None);
    let f = parse_severity_filter(&vec!["info".to_string(), "bogus".to_string(), "critical".to_string()]);
    assert_eq!(f, vec![Severity::Info, Severity::Critical]);
    assert!(accepts_severity(&vec![], Severity::Warn));
    assert!(accepts_severity(&f, Severity::Critical));
    assert!(!accepts_severity(&f, Severity::Warn));
}

#[test]
fn payload_pieces() {
    assert_eq!(severity_color(Severity::Info), 0x2ECC71);
    assert_eq!(severity_color(Severity::Emergency), 0x9B59B6);
    assert_eq!(severity_hex_color(Severity::Warn), "#f39c12");
    let a = alert(MetricId::CpuUsage, Severity::Critical);
    assert_eq!(alert_title(&a), "[CRITICAL] m");
    let d = DiscordConfig { enabled: true, webhook_url: String::new(), username: None, severity_filter: vec![] };
    assert_eq!(discord_username(&d), "SysOps Agent");
    assert_eq!(ChannelKind::Webhook.name(), "webhook");
}

#[test]
fn severity_order() {
    assert!(Severity::Info < Severity::Warn);
    assert!(Severity::Critical < Severity::Emergency);
    assert!(Severity::Warn.is_below(&Severity::Critical));
    assert!(!Severity::Emergency.is_below(&Severity::Emergency));
    assert_eq!(Severity::Critical.as_str(), "CRITICAL");
}
