use sysops_agent::collector::{create_collectors, DiskCollector, FdCollector, ProcessCollector};
use sysops_agent::config::{
    default_data_dir, default_log_level, default_proc_root, default_sys_root, AgentConfig,
    AlertingConfig, AnalyzerConfig, CollectorConfig, Config, CpuCollectorConfig,
    DiskCollectorConfig, MemoryCollectorConfig, NatsConfig, NetworkCollectorConfig,
    PrometheusConfig, StorageConfig, ThresholdConfig,
};
use sysops_agent::cpu::CpuCollector;
use sysops_agent::memory::MemoryCollector;
use sysops_agent::network::NetworkCollector;
use sysops_agent::types::MetricId;

const STAT_1: &str = "cpu  100 0 100 700 100 0 0 0 0 0\ncpu0 50 0 50 350 50 0 0 0 0 0\ncpu1 50 0 50 350 50 0 0 0 0 0\nintr 12345\nctxt 999\n";
const STAT_2: &str = "cpu  200 0 200 1300 200 0 0 100 0 0\ncpu0 100 0 100 600 100 0 0 0 0 0\ncpu1 100 0 50 750 100 0 0 0 0 0\nintr 12350\n";

#[test]
fn cpu_first_call_has_no_baseline() {
    let mut c = CpuCollector::new(&CpuCollectorConfig::default());
    assert!(c.parse_stat(STAT_1.as_bytes(), 10).is_empty());
}

#[test]
fn cpu_usage_from_two_snapshots() {
    let mut c = CpuCollector::new(&CpuCollectorConfig::default());
    c.parse_stat(STAT_1.as_bytes(), 10);
    let out = c.parse_stat(STAT_2.as_bytes(), 20);
    // total: 1000 -> 2000 jiffies, idle+iowait: 800 -> 1500
    assert_eq!(out.len(), 5);
    assert_eq!(out[0].metric, MetricId::CpuUsage);
    assert_eq!(out[0].value, 30_000);
    assert_eq!(out[1].metric, MetricId::CpuIoWait);
    assert_eq!(out[1].value, 10_000);
    assert_eq!(out[2].metric, MetricId::CpuSteal);
    assert_eq!(out[2].value, 10_000);
    assert_eq!(out[3].metric, MetricId::CpuUsagePerCore);
    assert_eq!(out[3].value, 25_000);
    assert_eq!(out[3].labels.get(0).key, "core");
    assert_eq!(out[3].labels.get(0).value, "0");
    assert_eq!(out[4].labels.get(0).value, "1");
    assert_eq!(out[4].value, 10_000);
    for s in &out {
        assert!(s.value >= 0 && s.value <= 100_000);
        assert_eq!(s.timestamp, 20);
    }
}

#[test]
fn cpu_per_core_off() {
    let mut config = CpuCollectorConfig::default();
    config.per_core = false;
    let mut c = CpuCollector::new(&config);
    c.parse_stat(STAT_1.as_bytes(), 10);
    let out = c.parse_stat(STAT_2.as_bytes(), 20);
    assert_eq!(out.len(), 3);
}

#[test]
fn cpu_short_lines_are_skipped() {
    let mut c = CpuCollector::new(&CpuCollectorConfig::default());
    c.parse_stat(b"cpu 1 2 3\n", 1);
    assert!(c.parse_stat(b"cpu 4 5 6\n", 2).is_empty());
}

#[test]
fn load_averages() {
    let c = CpuCollector::new(&CpuCollectorConfig::default());
    let out = c.parse_loadavg(b"0.52 1.05 12.5 1/234 5678\n", 7);
    let v: Vec<(MetricId, i64)> = out.iter().map(|s| (s.metric, s.value)).collect();
    assert_eq!(v, vec![(MetricId::CpuLoad1m, 520), (MetricId::CpuLoad5m, 1050), (MetricId::CpuLoad15m, 12_500)]);
    assert!(c.parse_loadavg(b"0.5 1.0", 7).is_empty());
}

const MEMINFO: &str = "MemTotal:       16000000 kB\nMemFree:         2000000 kB\nMemAvailable:    4000000 kB\nBuffers:          100000 kB\nCached:          3000000 kB\nSwapTotal:       2000000 kB\nSwapFree:        1500000 kB\n";

#[test]
fn memory_usage_and_swap() {
    let m = MemoryCollector::new(&MemoryCollectorConfig::default());
    let out = m.parse_meminfo(MEMINFO.as_bytes(), 3);
    assert_eq!(out.len(), 3);
    assert_eq!(out[0].metric, MetricId::MemUsage);
    assert_eq!(out[0].value, 75_000);
    assert_eq!(out[1].metric, MetricId::MemAvailable);
    assert_eq!(out[1].value, 4_000_000 * 1024 * 1000);
    assert_eq!(out[2].metric, MetricId::MemSwapUsage);
    assert_eq!(out[2].value, 25_000);
}

#[test]
fn memory_available_fallback() {
    let m = MemoryCollector::new(&MemoryCollectorConfig::default());
    let text = "MemTotal: 1000 kB\nMemFree: 100 kB\nBuffers: 100 kB\nCached: 300 kB\n";
    let out = m.parse_meminfo(text.as_bytes(), 3);
    assert_eq!(out.len(), 2);
    assert_eq!(out[0].value, 50_000);
    assert!(m.parse_meminfo(b"", 3).is_empty());
}

const NET_1: &str = "Inter-|   Receive                                                |  Transmit\n face |bytes    packets errs drop fifo frame compressed multicast|bytes    packets errs drop fifo colls carrier compressed\n    lo: 500 5 0 0 0 0 0 0 500 5 0 0 0 0 0 0\n  eth0: 1000 10 0 0 0 0 0 0 2000 20 0 0 0 0 0 0\n";
const NET_2: &str = "Inter-|   Receive                                                |  Transmit\n face |bytes    packets errs drop fifo frame compressed multicast|bytes    packets errs drop fifo colls carrier compressed\n    lo: 900 5 0 0 0 0 0 0 900 5 0 0 0 0 0 0\n  eth0: 11000 10 3 0 0 0 0 0 4000 20 0 0 0 0 0 0\n";

#[test]
fn network_rates_on_second_call() {
    let mut n = NetworkCollector::new(&NetworkCollectorConfig::default());
    assert!(n.parse_dev(NET_1.as_bytes(), 1).is_empty());
    let out = n.parse_dev(NET_2.as_bytes(), 11);
    let v: Vec<(MetricId, i64)> = out.iter().map(|s| (s.metric, s.value)).collect();
    assert_eq!(v, vec![(MetricId::NetRxRate, 1_000_000), (MetricId::NetTxRate, 200_000), (MetricId::NetRxErrors, 3000)]);
    assert_eq!(out[0].labels.get(0).key, "interface");
    assert_eq!(out[0].labels.get(0).value, "eth0");
    assert_eq!(n.interval_secs(), 10);
}

#[test]
fn file_descriptor_usage() {
    let f = FdCollector::new();
    let out = f.parse_file_nr(b"1024\t0\t4096\n", 5);
    assert_eq!(out.len(), 1);
    assert_eq!(out[0].metric, MetricId::FdSystemUsage);
    assert_eq!(out[0].value, 25_000);
    assert!(f.parse_file_nr(b"1024 0", 5).is_empty());
    assert_eq!(f.interval_secs(), 30);
}

#[test]
fn mounts_are_filtered() {
    let mut config = DiskCollectorConfig::default();
    config.exclude_mountpoints = vec!["/boot".to_string()];
    let d = DiskCollector::new(&config);
    let text = "/dev/sda1 / ext4 rw 0 0\nproc /proc proc rw 0 0\ntmpfs /run tmpfs rw 0 0\n/dev/sda2 /boot ext4 rw 0 0\n/dev/sdb1 /data xfs rw 0 0\n";
    let w = d.watched(text.as_bytes());
    assert_eq!(w, vec![(b"/".to_vec(), b"ext4".to_vec()), (b"/data".to_vec(), b"xfs".to_vec())]);
    let s = DiskCollector::samples_for(b"/data", b"xfs", 1000, 250, 9);
    assert_eq!(s[0].metric, MetricId::DiskUsage);
    assert_eq!(s[0].value, 75_000);
    assert_eq!(s[1].value, 250_000);
    assert_eq!(s[0].labels.get(0).value, "/data");
    assert_eq!(s[0].labels.get(1).value, "xfs");
}

#[test]
fn process_entries() {
    assert!(ProcessCollector::is_process_entry("1234"));
    assert!(!ProcessCollector::is_process_entry("self"));
    assert!(!ProcessCollector::is_process_entry("12a"));
    let s = ProcessCollector::count_sample(321, 4);
    assert_eq!(s.metric, MetricId::ProcCount);
    assert_eq!(s.value, 321_000);
}

#[test]
fn collectors_follow_config() {
    let mut collector = CollectorConfig::default();
    collector.network.enabled = false;
    let config = Config {
        agent: AgentConfig {
            hostname: "h".to_string(),
            log_level: default_log_level(),
            log_file: None,
            pid_file: None,
            data_dir: default_data_dir(),
            proc_root: default_proc_root(),
            sys_root: default_sys_root(),
        },
        collector,
        thresholds: ThresholdConfig::default(),
        analyzer: AnalyzerConfig::default(),
        storage: StorageConfig::default(),
        alerting: AlertingConfig::default(),
        prometheus: PrometheusConfig::default(),
        nats: NatsConfig::default(),
    };
    let names: Vec<&str> = create_collectors(&config).iter().map(|c| c.name()).collect();
    assert_eq!(names, vec!["cpu", "memory", "disk", "process", "fd"]);
}

#[test]
fn cpu_first_call_with_repeated_lines_is_silent() {
    let mut c = CpuCollector::new(&CpuCollectorConfig::default());
    let twice = "cpu  100 0 100 700 100 0 0 0\ncpu  200 0 200 1300 200 0 0 0\n";
    assert!(c.parse_stat(twice.as_bytes(), 1).is_empty());
    // the repeated aggregate line was ignored: the baseline is the first one
    let out = c.parse_stat(b"cpu  200 0 200 1300 200 100 0 0\n", 2);
    assert_eq!(out[0].metric, MetricId::CpuUsage);
    assert_eq!(out[0].value, 30_000);
}

#[test]
fn network_first_call_with_repeated_interface_has_no_rates() {
    let header = "h1\nh2\n";
    let twice = format!(
        "{}  eth0: 1000 1 0 0 0 0 0 0 2000 2 0 0 0 0 0 0\n  eth0: 5000 1 0 0 0 0 0 0 6000 2 0 0 0 0 0 0\n",
        header
    );
    let mut n = NetworkCollector::new(&NetworkCollectorConfig::default());
    assert!(n.parse_dev(twice.as_bytes(), 1).is_empty());
    let next = format!("{}  eth0: 15000 1 0 0 0 0 0 0 16000 2 0 0 0 0 0 0\n", header);
    let out = n.parse_dev(next.as_bytes(), 11);
    let v: Vec<(MetricId, i64)> = out.iter().map(|s| (s.metric, s.value)).collect();
    // the later listing of the first call is the one kept
    assert_eq!(v, vec![(MetricId::NetRxRate, 1_000_000), (MetricId::NetTxRate, 1_000_000)]);
}
