use sysops_agent::config::{
    default_data_dir, default_log_level, default_proc_root, default_sys_root, AgentConfig,
    AlertingConfig, AnalyzerConfig, CollectorConfig, Config, CustomPattern, NatsConfig,
    PrometheusConfig, StorageConfig, ThresholdConfig,
};
use sysops_agent::logscan::LogAnalyzer;
use sysops_agent::types::{MetricId, Severity};

fn config(custom: Vec<CustomPattern>) -> Config {
    let mut collector = CollectorConfig::default();
    collector.log.custom_patterns = custom;
    Config {
        agent: AgentConfig {
            hostname: "node7".to_string(),
            log_level: default_log_level(),
            log_file: None,
            pid_file: None,
            data_dir: default_data_dir(),
            proc_root: default_proc_root(),
            sys_root: default_sys_root(),
        },
        collector,
        thresholds: ThresholdConfig::default(),
        analyzer: AnalyzerConfig::default(),
        storage: StorageConfig::default(),
        alerting: AlertingConfig::default(),
        prometheus: PrometheusConfig::default(),
        nats: NatsConfig::default(),
    }
}

#[test]
fn kernel_log_patterns_raise_alerts() {
    let a = LogAnalyzer::new(&config(vec![])).unwrap();
    let out = b"[1.0] Out of memory: Killed process 4242 (java)  \nnothing here\n  eth0: NIC Link is Down\n";
    let alerts = a.scan(out, 77);
    assert_eq!(alerts.len(), 2);
    assert_eq!(alerts[0].severity, Severity::Critical);
    assert_eq!(alerts[0].message, "OOM Kill: [1.0] Out of memory: Killed process 4242 (java)");
    assert_eq!(alerts[1].severity, Severity::Warn);
    assert_eq!(alerts[1].message, "Network Down: eth0: NIC Link is Down");
    assert_eq!(alerts[1].metric, MetricId::KernelEntropy);
    assert_eq!(alerts[1].timestamp, 77);
    assert_eq!(alerts[1].value, 1000);
    assert_eq!(alerts[1].hostname, "node7");
}

#[test]
fn custom_patterns_and_severity_words() {
    let custom = vec![
        CustomPattern { name: "Disk".to_string(), pattern: "sd[a-z] failed".to_string(), severity: "emergency".to_string() },
        CustomPattern { name: "Odd".to_string(), pattern: "odd".to_string(), severity: "loud".to_string() },
    ];
    let a = LogAnalyzer::new(&config(custom)).unwrap();
    let alerts = a.scan(b"sdb failed, odd\n", 1);
    assert_eq!(alerts.len(), 2);
    assert_eq!(alerts[0].severity, Severity::Emergency);
    assert_eq!(alerts[1].severity, Severity::Warn);
    assert_eq!(alerts[1].message, "Odd: sdb failed, odd");
}

#[test]
fn invalid_custom_pattern_is_an_error() {
    let custom = vec![CustomPattern { name: "Bad".to_string(), pattern: "foo(bar".to_string(), severity: "warn".to_string() }];
    assert!(LogAnalyzer::new(&config(custom)).is_err());
}

#[test]
fn one_line_can_match_several_patterns() {
    let a = LogAnalyzer::new(&config(vec![])).unwrap();
    let alerts = a.scan(b"EXT4-fs error on MCE bank\n", 3);
    let names: Vec<&str> = alerts.iter().map(|x| x.message.split(':').next().unwrap()).collect();
    assert_eq!(names, vec!["Hardware Error", "Filesystem Error"]);
}
