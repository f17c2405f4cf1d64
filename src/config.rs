use vstd::prelude::*;

use crate::host::system_hostname;

verus! {

/// Top-level agent configuration. Percent cut-offs and analyzer tunables are
/// in thousandths (95.0% is `95000`, a z-score threshold of 3.0 is `3000`).
#[derive(Debug, Clone)]
pub struct Config {
    pub agent: AgentConfig,
    pub collector: CollectorConfig,
    pub thresholds: ThresholdConfig,
    pub analyzer: AnalyzerConfig,
    pub storage: StorageConfig,
    pub alerting: AlertingConfig,
    pub prometheus: PrometheusConfig,
    pub nats: NatsConfig,
}

#[derive(Debug, Clone)]
pub struct AgentConfig {
    pub hostname: String,
    pub log_level: String,
    pub log_file: Option<String>,
    pub pid_file: Option<String>,
    pub data_dir: String,
    pub proc_root: String,
    pub sys_root: String,
}

#[derive(Debug, Clone)]
pub struct CollectorConfig {
    pub default_interval_secs: u64,
    pub cpu: CpuCollectorConfig,
    pub memory: MemoryCollectorConfig,
    pub disk: DiskCollectorConfig,
    pub network: NetworkCollectorConfig,
    pub process: ProcessCollectorConfig,
    pub log: LogCollectorConfig,
}

impl Default for CollectorConfig {
    fn default() -> (r: Self)
        ensures
            r.default_interval_secs == 0,
            r.cpu.enabled && r.cpu.interval_secs == 10,
            r.memory.enabled && r.memory.interval_secs == 10,
            r.disk.enabled && r.disk.interval_secs == 60,
            r.network.enabled && r.network.interval_secs == 10,
            r.process.enabled && r.process.interval_secs == 30,
            r.log.enabled,
    {
        CollectorConfig {
            default_interval_secs: 0,
            cpu: CpuCollectorConfig::default(),
            memory: MemoryCollectorConfig::default(),
            disk: DiskCollectorConfig::default(),
            network: NetworkCollectorConfig::default(),
            process: ProcessCollectorConfig::default(),
            log: LogCollectorConfig::default(),
        }
    }
}

#[derive(Debug, Clone)]
pub struct CpuCollectorConfig {
    pub enabled: bool,
    pub interval_secs: u64,
    pub per_core: bool,
}

impl Default for CpuCollectorConfig {
    fn default() -> (r: Self)
        ensures
            r.enabled,
            r.interval_secs == 10,
            r.per_core,
    {
        CpuCollectorConfig { enabled: true, interval_secs: 10, per_core: true }
    }
}

#[derive(Debug, Clone)]
pub struct MemoryCollectorConfig {
    pub enabled: bool,
    pub interval_secs: u64,
}

impl Default for MemoryCollectorConfig {
    fn default() -> (r: Self)
        ensures
            r.enabled,
            r.interval_secs == 10,
    {
        MemoryCollectorConfig { enabled: true, interval_secs: 10 }
    }
}

#[derive(Debug, Clone)]
pub struct DiskCollectorConfig {
    pub enabled: bool,
    pub interval_secs: u64,
    pub io_interval_secs: u64,
    pub exclude_fstypes: Vec<String>,
    pub exclude_mountpoints: Vec<String>,
}

impl Default for DiskCollectorConfig {
    fn default() -> (r: Self)
        ensures
            r.enabled,
            r.interval_secs == 60,
            r.io_interval_secs == 10,
            r.exclude_fstypes@.len() == 4,
            r.exclude_fstypes@[0]@ == "tmpfs"@,
            r.exclude_fstypes@[1]@ == "devtmpfs"@,
            r.exclude_fstypes@[2]@ == "sysfs"@,
            r.exclude_fstypes@[3]@ == "proc"@,
            r.exclude_mountpoints@.len() == 0,
    {
        DiskCollectorConfig {
            enabled: true,
            interval_secs: 60,
            io_interval_secs: 10,
            exclude_fstypes: default_exclude_fstypes(),
            exclude_mountpoints: Vec::new(),
        }
    }
}

#[derive(Debug, Clone)]
pub struct NetworkCollectorConfig {
    pub enabled: bool,
    pub interval_secs: u64,
    pub exclude_interfaces: Vec<String>,
}

impl Default for NetworkCollectorConfig {
    fn default() -> (r: Self)
        ensures
            r.enabled,
            r.interval_secs == 10,
            r.exclude_interfaces@.len() == 1,
            r.exclude_interfaces@[0]@ == "lo"@,
    {
        NetworkCollectorConfig {
            enabled: true,
            interval_secs: 10,
            exclude_interfaces: default_exclude_interfaces(),
        }
    }
}

#[derive(Debug, Clone)]
pub struct ProcessCollectorConfig {
    pub enabled: bool,
    pub interval_secs: u64,
    pub track_patterns: Vec<String>,
    pub track_top_n: u32,
}

impl Default for ProcessCollectorConfig {
    fn default() -> (r: Self)
        ensures
            r.enabled,
            r.interval_secs == 30,
            r.track_patterns@.len() == 0,
            r.track_top_n == 20,
    {
        ProcessCollectorConfig {
            enabled: true,
            interval_secs: 30,
            track_patterns: Vec::new(),
            track_top_n: 20,
        }
    }
}

#[derive(Debug, Clone)]
pub struct LogCollectorConfig {
    pub enabled: bool,
    pub sources: Vec<String>,
    pub syslog_path: Option<String>,
    pub custom_patterns: Vec<CustomPattern>,
}

impl Default for LogCollectorConfig {
    fn default() -> (r: Self)
        ensures
            r.enabled,
            r.sources@.len() == 2,
            r.sources@[0]@ == "dmesg"@,
            r.sources@[1]@ == "syslog"@,
            r.syslog_path.is_none(),
            r.custom_patterns@.len() == 0,
    {
        LogCollectorConfig {
            enabled: true,
            sources: default_log_sources(),
            syslog_path: None,
            custom_patterns: Vec::new(),
        }
    }
}

#[derive(Debug, Clone)]
pub struct CustomPattern {
    pub name: String,
    pub pattern: String,
    pub severity: String,
}

/// Warn and critical cut-offs, in thousandths of a percent.
#[derive(Debug, Clone, Copy, PartialEq, Eq, Structural)]
pub struct ThresholdConfig {
    pub cpu_warn_percent: i64,
    pub cpu_critical_percent: i64,
    pub memory_warn_percent: i64,
    pub memory_critical_percent: i64,
    pub disk_warn_percent: i64,
    pub disk_critical_percent: i64,
    pub fd_warn_percent: i64,
    pub fd_critical_percent: i64,
}

impl Default for ThresholdConfig {
    fn default() -> (r: Self)
        ensures
            r.cpu_warn_percent == 80_000,
            r.cpu_critical_percent == 95_000,
            r.memory_warn_percent == 80_000,
            r.memory_critical_percent == 90_000,
            r.disk_warn_percent == 80_000,
            r.disk_critical_percent == 90_000,
            r.fd_warn_percent == 80_000,
            r.fd_critical_percent == 95_000,
    {
        ThresholdConfig {
            cpu_warn_percent: default_80(),
            cpu_critical_percent: default_95(),
            memory_warn_percent: default_80(),
            memory_critical_percent: default_90(),
            disk_warn_percent: default_80(),
            disk_critical_percent: default_90(),
            fd_warn_percent: default_80(),
            fd_critical_percent: default_95(),
        }
    }
}

/// Analyzer tunables; `zscore_threshold`, `ema_alpha` and
/// `leak_r_squared_threshold` are in thousandths.
#[derive(Debug, Clone)]
pub struct AnalyzerConfig {
    pub zscore_window: u32,
    pub zscore_threshold: u64,
    pub ema_alpha: u64,
    pub trend_window_hours: u32,
    pub leak_min_observation_mins: u32,
    pub leak_r_squared_threshold: u64,
}

impl Default for AnalyzerConfig {
    fn default() -> (r: Self)
        ensures
            r.zscore_window == 360,
            r.zscore_threshold == 3000,
            r.ema_alpha == 100,
            r.trend_window_hours == 6,
            r.leak_min_observation_mins == 30,
            r.leak_r_squared_threshold == 800,
    {
        AnalyzerConfig {
            zscore_window: default_zscore_window(),
            zscore_threshold: default_zscore_threshold(),
            ema_alpha: default_ema_alpha(),
            trend_window_hours: default_trend_window(),
            leak_min_observation_mins: default_leak_observation(),
            leak_r_squared_threshold: default_r_squared(),
        }
    }
}

#[derive(Debug, Clone)]
pub struct StorageConfig {
    pub ring_buffer_size: u32,
    pub sqlite_enabled: bool,
    pub sqlite_path: Option<String>,
    pub sqlite_retention_days: u32,
}

impl Default for StorageConfig {
    fn default() -> (r: Self)
        ensures
            r.ring_buffer_size == 8640,
            !r.sqlite_enabled,
            r.sqlite_path.is_none(),
            r.sqlite_retention_days == 30,
    {
        StorageConfig {
            ring_buffer_size: default_ring_buffer_size(),
            sqlite_enabled: false,
            sqlite_path: None,
            sqlite_retention_days: default_retention_days(),
        }
    }
}

#[derive(Debug, Clone)]
pub struct AlertingConfig {
    pub rate_limit_per_minute: u32,
    pub rate_limit_per_hour: u32,
    pub dedup_window_secs: u64,
    pub group_window_secs: u64,
    pub recovery_enabled: bool,
    pub discord: Option<DiscordConfig>,
    pub slack: Option<SlackConfig>,
    pub telegram: Option<TelegramConfig>,
    pub email: Option<EmailConfig>,
    pub webhook: Option<WebhookConfig>,
    pub syslog: Option<SyslogConfig>,
}

impl Default for AlertingConfig {
    fn default() -> (r: Self)
        ensures
            r.rate_limit_per_minute == 10,
            r.rate_limit_per_hour == 60,
            r.dedup_window_secs == 300,
            r.group_window_secs == 30,
            r.recovery_enabled,
            r.discord.is_none(),
            r.slack.is_none(),
            r.telegram.is_none(),
            r.email.is_none(),
            r.webhook.is_none(),
            r.syslog.is_none(),
    {
        AlertingConfig {
            rate_limit_per_minute: default_rate_per_min(),
            rate_limit_per_hour: default_rate_per_hour(),
            dedup_window_secs: default_dedup_window(),
            group_window_secs: default_group_window(),
            recovery_enabled: default_true(),
            discord: None,
            slack: None,
            telegram: None,
            email: None,
            webhook: None,
            syslog: None,
        }
    }
}

#[derive(Debug, Clone)]
pub struct DiscordConfig {
    pub enabled: bool,
    pub webhook_url: String,
    pub username: Option<String>,
    pub severity_filter: Vec<String>,
}

#[derive(Debug, Clone)]
pub struct SlackConfig {
    pub enabled: bool,
    pub webhook_url: String,
    pub channel: Option<String>,
    pub severity_filter: Vec<String>,
}

#[derive(Debug, Clone)]
pub struct TelegramConfig {
    pub enabled: bool,
    pub bot_token: String,
    pub chat_id: String,
    pub severity_filter: Vec<String>,
    pub parse_mode: String,
}

#[derive(Debug, Clone)]
pub struct EmailConfig {
    pub enabled: bool,
    pub smtp_host: String,
    pub smtp_port: u16,
    pub smtp_tls: bool,
    pub username: String,
    pub password: String,
    pub from: String,
    pub to: Vec<String>,
    pub severity_filter: Vec<String>,
}

/// A generic webhook; `headers` are (name, value) pairs sent with each POST.
#[derive(Debug, Clone)]
pub struct WebhookConfig {
    pub enabled: bool,
    pub url: String,
    pub method: String,
    pub headers: Vec<(String, String)>,
    pub severity_filter: Vec<String>,
}

#[derive(Debug, Clone)]
pub struct SyslogConfig {
    pub enabled: bool,
    pub facility: String,
    pub severity_filter: Vec<String>,
}

#[derive(Debug, Clone)]
pub struct PrometheusConfig {
    pub enabled: bool,
    pub bind: String,
}

impl Default for PrometheusConfig {
    fn default() -> (r: Self)
        ensures
            !r.enabled,
            r.bind@ == "127.0.0.1:9100"@,
    {
        PrometheusConfig { enabled: false, bind: default_prom_bind() }
    }
}

#[derive(Debug, Clone)]
pub struct NatsConfig {
    pub enabled: bool,
    pub url: String,
    pub subject_prefix: String,
    pub metrics_interval_secs: u64,
    pub inventory_interval_secs: u64,
    pub heartbeat_interval_secs: u64,
    pub compression: bool,
    pub credential_file: Option<String>,
    pub token: Option<String>,
}

impl Default for NatsConfig {
    fn default() -> (r: Self)
        ensures
            !r.enabled,
            r.url@ == "nats://localhost:4222"@,
            r.subject_prefix@ == "sysops"@,
            r.metrics_interval_secs == 30,
            r.inventory_interval_secs == 300,
            r.heartbeat_interval_secs == 60,
            !r.compression,
            r.credential_file.is_none(),
            r.token.is_none(),
    {
        NatsConfig {
            enabled: false,
            url: default_nats_url(),
            subject_prefix: default_nats_prefix(),
            metrics_interval_secs: default_metrics_interval(),
            inventory_interval_secs: default_inventory_interval(),
            heartbeat_interval_secs: default_heartbeat_interval(),
            compression: false,
            credential_file: None,
            token: None,
        }
    }
}

/// The machine's host name, or `unknown` where it cannot be read.
pub fn default_hostname() -> (r: String) {
    hostname_or_unknown(system_hostname())
}

/// The reported host name, or `unknown` where none was reported.
pub fn hostname_or_unknown(reported: Option<String>) -> (r: String)
    ensures
        match reported {
            Some(h) => r@ == h@,
            None => r@ == "unknown"@,
        },
{
    match reported {
        Some(h) => h,
        None => "unknown".to_owned(),
    }
}

pub fn default_log_level() -> (r: String)
    ensures
        r@ == "info"@,
{
    "info".to_owned()
}

pub fn default_data_dir() -> (r: String)
    ensures
        r@ == "/var/lib/sysops-agent"@,
{
    "/var/lib/sysops-agent".to_owned()
}

pub fn default_proc_root() -> (r: String)
    ensures
        r@ == "/proc"@,
{
    "/proc".to_owned()
}

pub fn default_sys_root() -> (r: String)
    ensures
        r@ == "/sys"@,
{
    "/sys".to_owned()
}

pub fn default_interval() -> (r: u64)
    ensures
        r == 10,
{
    10
}

pub fn default_disk_interval() -> (r: u64)
    ensures
        r == 60,
{
    60
}

pub fn default_process_interval() -> (r: u64)
    ensures
        r == 30,
{
    30
}

pub fn default_true() -> (r: bool)
    ensures
        r == true,
{
    true
}

pub fn default_top_n() -> (r: u32)
    ensures
        r == 20,
{
    20
}

pub fn default_log_sources() -> (r: Vec<String>)
    ensures
        r@.len() == 2,
        r@[0]@ == "dmesg"@,
        r@[1]@ == "syslog"@,
{
    let mut r: Vec<String> = Vec::new();
    r.push("dmesg".to_owned());
    r.push("syslog".to_owned());
    r
}

pub fn default_exclude_fstypes() -> (r: Vec<String>)
    ensures
        r@.len() == 4,
        r@[0]@ == "tmpfs"@,
        r@[1]@ == "devtmpfs"@,
        r@[2]@ == "sysfs"@,
        r@[3]@ == "proc"@,
{
    let mut r: Vec<String> = Vec::new();
    r.push("tmpfs".to_owned());
    r.push("devtmpfs".to_owned());
    r.push("sysfs".to_owned());
    r.push("proc".to_owned());
    r
}

pub fn default_exclude_interfaces() -> (r: Vec<String>)
    ensures
        r@.len() == 1,
        r@[0]@ == "lo"@,
{
    let mut r: Vec<String> = Vec::new();
    r.push("lo".to_owned());
    r
}

pub fn default_80() -> (r: i64)
    ensures
        r == 80_000,
{
    80_000
}

pub fn default_90() -> (r: i64)
    ensures
        r == 90_000,
{
    90_000
}

pub fn default_95() -> (r: i64)
    ensures
        r == 95_000,
{
    95_000
}

pub fn default_zscore_window() -> (r: u32)
    ensures
        r == 360,
{
    360
}

pub fn default_zscore_threshold() -> (r: u64)
    ensures
        r == 3000,
{
    3000
}

pub fn default_ema_alpha() -> (r: u64)
    ensures
        r == 100,
{
    100
}

pub fn default_trend_window() -> (r: u32)
    ensures
        r == 6,
{
    6
}

pub fn default_leak_observation() -> (r: u32)
    ensures
        r == 30,
{
    30
}

pub fn default_r_squared() -> (r: u64)
    ensures
        r == 800,
{
    800
}

pub fn default_ring_buffer_size() -> (r: u32)
    ensures
        r == 8640,
{
    8640
}

pub fn default_retention_days() -> (r: u32)
    ensures
        r == 30,
{
    30
}

pub fn default_rate_per_min() -> (r: u32)
    ensures
        r == 10,
{
    10
}

pub fn default_rate_per_hour() -> (r: u32)
    ensures
        r == 60,
{
    60
}

pub fn default_dedup_window() -> (r: u64)
    ensures
        r == 300,
{
    300
}

pub fn default_group_window() -> (r: u64)
    ensures
        r == 30,
{
    30
}

pub fn default_parse_mode() -> (r: String)
    ensures
        r@ == "HTML"@,
{
    "HTML".to_owned()
}

pub fn default_smtp_port() -> (r: u16)
    ensures
        r == 587,
{
    587
}

pub fn default_post() -> (r: String)
    ensures
        r@ == "POST"@,
{
    "POST".to_owned()
}

pub fn default_facility() -> (r: String)
    ensures
        r@ == "daemon"@,
{
    "daemon".to_owned()
}

pub fn default_prom_bind() -> (r: String)
    ensures
        r@ == "127.0.0.1:9100"@,
{
    "127.0.0.1:9100".to_owned()
}

pub fn default_nats_url() -> (r: String)
    ensures
        r@ == "nats://localhost:4222"@,
{
    "nats://localhost:4222".to_owned()
}

pub fn default_nats_prefix() -> (r: String)
    ensures
        r@ == "sysops"@,
{
    "sysops".to_owned()
}

pub fn default_metrics_interval() -> (r: u64)
    ensures
        r == 30,
{
    30
}

pub fn default_inventory_interval() -> (r: u64)
    ensures
        r == 300,
{
    300
}

pub fn default_heartbeat_interval() -> (r: u64)
    ensures
        r == 60,
{
    60
}

} // verus!
