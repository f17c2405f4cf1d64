use vstd::prelude::*;
use vstd::string::StringExecFns;

use crate::config::{default_hostname, AnalyzerConfig, Config, ThresholdConfig};
use crate::ring::{last_n, samples_view};
use crate::stats::{
    hours_tenths, trend_check, trend_fits, trend_severity, zscore_check, zscore_fits,
    zscore_severity, offsets,
};
use crate::storage::Storage;
use crate::text::{tenths, tenths_text};
use crate::types::{
    duplicate_labels, labels_view, metric_text, Alert, MetricId, MetricSample, SampleView,
    Severity,
};

verus! {

/// The parts of an alert the analyzers decide: metric, severity, value and
/// threshold.
pub open spec fn alert_key(a: Alert) -> (MetricId, Severity, i64, Option<i64>) {
    (a.metric, a.severity, a.value, a.threshold)
}

pub open spec fn alert_keys(alerts: Seq<Alert>) -> Seq<(MetricId, Severity, i64, Option<i64>)> {
    alerts.map_values(|a: Alert| alert_key(a))
}

pub open spec fn key_of(r: Option<Alert>) -> Option<(MetricId, Severity, i64, Option<i64>)> {
    match r {
        Some(a) => Some(alert_key(a)),
        None => None,
    }
}

pub open spec fn severity_of(r: Option<Alert>) -> Option<Severity> {
    match r {
        Some(a) => Some(a.severity),
        None => None,
    }
}

/// The values present among `opts`, in order.
pub open spec fn present<T>(opts: Seq<Option<T>>) -> Seq<T>
    decreases opts.len(),
{
    if opts.len() == 0 {
        Seq::empty()
    } else {
        let prev = present(opts.drop_last());
        match opts.last() {
            Some(x) => prev.push(x),
            None => prev,
        }
    }
}

/// Values of a sample window, oldest first.
pub open spec fn window_values(w: Seq<SampleView>) -> Seq<int> {
    w.map_values(|s: SampleView| s.value as int)
}

/// Timestamps of a sample window, oldest first.
pub open spec fn window_times(w: Seq<SampleView>) -> Seq<i64> {
    w.map_values(|s: SampleView| s.timestamp)
}

/// Severity and breached cut-off for a value: Critical at or above
/// `crit`, else Warn at or above `warn`, else none.
pub open spec fn threshold_verdict(value: i64, warn: i64, crit: i64) -> Option<(Severity, i64)> {
    if value >= crit {
        Some((Severity::Critical, crit))
    } else if value >= warn {
        Some((Severity::Warn, warn))
    } else {
        None
    }
}

/// What the threshold rule says of the latest sample of `m`.
pub open spec fn threshold_key(
    held: Seq<SampleView>,
    m: MetricId,
    warn: i64,
    crit: i64,
) -> Option<(MetricId, Severity, i64, Option<i64>)> {
    if held.len() == 0 {
        None
    } else {
        match threshold_verdict(held.last().value, warn, crit) {
            Some((s, t)) => Some((m, s, held.last().value, Some(t))),
            None => None,
        }
    }
}

/// An alert built from the newest sample `last` of a window.
pub open spec fn built_from(a: Alert, last: SampleView, m: MetricId) -> bool {
    &&& a.metric == m
    &&& a.value == last.value
    &&& a.timestamp == last.timestamp
    &&& labels_view(a.labels) == last.labels
}

fn joined(a: &str, b: &str) -> (r: String)
    ensures
        r@ == a@ + b@,
{
    let mut r = String::from_str(a);
    r.append(b);
    r
}

/// What the threshold rule says of CPU, memory, disk and FD usage, in that
/// order.
pub open spec fn threshold_expected(storage: &Storage, t: ThresholdConfig) -> Seq<
    (MetricId, Severity, i64, Option<i64>),
> {
    present(
        seq![
            threshold_key(storage.held(MetricId::CpuUsage), MetricId::CpuUsage,
                t.cpu_warn_percent, t.cpu_critical_percent),
            threshold_key(storage.held(MetricId::MemUsage), MetricId::MemUsage,
                t.memory_warn_percent, t.memory_critical_percent),
            threshold_key(storage.held(MetricId::DiskUsage), MetricId::DiskUsage,
                t.disk_warn_percent, t.disk_critical_percent),
            threshold_key(storage.held(MetricId::FdSystemUsage), MetricId::FdSystemUsage,
                t.fd_warn_percent, t.fd_critical_percent),
        ],
    )
}

/// Alert text of a threshold breach: `<metric> is <v>% (threshold: <t>%)`
/// with one decimal.
pub open spec fn threshold_message(m: MetricId, v: i64, t: i64) -> Seq<char> {
    metric_text(m) + " is "@ + tenths(v as int) + "% (threshold: "@ + tenths(t as int) + "%)"@
}

/// Compares the latest value of CPU, memory, disk and FD usage with warn
/// and critical cut-offs.
pub struct ThresholdAnalyzer {
    thresholds: ThresholdConfig,
    hostname: String,
}

impl ThresholdAnalyzer {
    pub closed spec fn cutoffs(&self) -> ThresholdConfig {
        self.thresholds
    }

    pub fn new(config: &ThresholdConfig) -> (r: ThresholdAnalyzer)
        ensures
            r.cutoffs() == *config,
    {
        ThresholdAnalyzer { thresholds: *config, hostname: default_hostname() }
    }

    pub fn name(&self) -> (r: &'static str)
        ensures
            r@ == "threshold"@,
    {
        "threshold"
    }

    /// At most one alert for `metric`, from its latest sample.
    pub fn check_metric(&self, storage: &Storage, metric: MetricId, warn: i64, crit: i64) -> (r:
        Option<Alert>)
        requires
            storage.wf(),
        ensures
            key_of(r) == threshold_key(storage.held(metric), metric, warn, crit),
            r matches Some(a) ==> (built_from(a, storage.held(metric).last(), metric)
                && a.message@ == threshold_message(metric, a.value, a.threshold->0)),
    {
        let latest = match storage.latest(metric) {
            Some(s) => s,
            None => return None,
        };
        let (severity, threshold) = if latest.value >= crit {
            (Severity::Critical, crit)
        } else if latest.value >= warn {
            (Severity::Warn, warn)
        } else {
            return None;
        };
        let mut message = joined(metric.text(), " is ");
        message.append(tenths_text(latest.value).as_str());
        message.append("% (threshold: ");
        message.append(tenths_text(threshold).as_str());
        message.append("%)");
        Some(
            Alert {
                timestamp: latest.timestamp,
                severity,
                metric,
                value: latest.value,
                threshold: Some(threshold),
                message,
                labels: latest.labels,
                hostname: self.hostname.clone(),
            },
        )
    }

    /// One alert per breached metric, in the order CPU, memory, disk, FD.
    pub fn analyze(&mut self, storage: &Storage) -> (r: Vec<Alert>)
        requires
            storage.wf(),
        ensures
            alert_keys(r@) == threshold_expected(storage, old(self).cutoffs()),
    {
        let t = self.thresholds;
        let checks = [
            (MetricId::CpuUsage, t.cpu_warn_percent, t.cpu_critical_percent),
            (MetricId::MemUsage, t.memory_warn_percent, t.memory_critical_percent),
            (MetricId::DiskUsage, t.disk_warn_percent, t.disk_critical_percent),
            (MetricId::FdSystemUsage, t.fd_warn_percent, t.fd_critical_percent),
        ];
        let ghost expected = seq![
            threshold_key(storage.held(MetricId::CpuUsage), MetricId::CpuUsage,
                t.cpu_warn_percent, t.cpu_critical_percent),
            threshold_key(storage.held(MetricId::MemUsage), MetricId::MemUsage,
                t.memory_warn_percent, t.memory_critical_percent),
            threshold_key(storage.held(MetricId::DiskUsage), MetricId::DiskUsage,
                t.disk_warn_percent, t.disk_critical_percent),
            threshold_key(storage.held(MetricId::FdSystemUsage), MetricId::FdSystemUsage,
                t.fd_warn_percent, t.fd_critical_percent),
        ];
        let mut alerts: Vec<Alert> = Vec::new();
        let mut i: usize = 0;
        while i < 4
            invariant
                storage.wf(),
                i <= 4,
                checks@.len() == 4,
                expected.len() == 4,
                forall|j: int|
                    0 <= j < 4 ==> #[trigger] expected[j] == threshold_key(
                        storage.held(checks@[j].0),
                        checks@[j].0,
                        checks@[j].1,
                        checks@[j].2,
                    ),
                alert_keys(alerts@) == present(expected.subrange(0, i as int)),
            decreases 4 - i,
        {
            let (m, w, c) = checks[i];
            let found = self.check_metric(storage, m, w, c);
            let ghost prev = alerts@;
            assert(expected.subrange(0, i + 1).drop_last() =~= expected.subrange(0, i as int));
            match found {
                Some(a) => {
                    alerts.push(a);
                    assert(alert_keys(alerts@) =~= alert_keys(prev).push(alert_key(a)));
                },
                None => {},
            }
            i += 1;
        }
        assert(expected.subrange(0, 4) =~= expected);
        alerts
    }
}

/// Alert text of a z-score anomaly:
/// `<metric> anomaly detected (value=<v>, mean=<mean>)` with one decimal.
pub open spec fn zscore_message(m: MetricId, value: i64, mean: int) -> Seq<char> {
    metric_text(m) + " anomaly detected (value="@ + tenths(value as int) + ", mean="@ + tenths(mean)
        + ")"@
}

/// Mean of the window `w`, truncated toward zero.
pub open spec fn window_mean(w: Seq<SampleView>) -> int {
    crate::stats::mean_of(window_values(w))
}

/// Severity the z-score rule gives the window `w` for threshold `t`
/// thousandths; none where the statistics are out of range.
pub open spec fn zscore_outcome(w: Seq<SampleView>, t: int) -> Option<Severity> {
    if zscore_fits(window_values(w), t) {
        zscore_severity(window_values(w), t)
    } else {
        None
    }
}

fn sample_values(samples: &Vec<MetricSample>) -> (r: Vec<i64>)
    ensures
        crate::stats::ints(r@) == window_values(samples_view(samples@)),
        r@.len() == samples@.len(),
{
    let mut out: Vec<i64> = Vec::new();
    let mut i: usize = 0;
    while i < samples.len()
        invariant
            i <= samples.len(),
            out@.len() == i,
            forall|j: int| 0 <= j < i ==> out@[j] == samples@[j].value,
        decreases samples.len() - i,
    {
        out.push(samples[i].value);
        i += 1;
    }
    assert(crate::stats::ints(out@) =~= window_values(samples_view(samples@)));
    out
}

fn sample_times(samples: &Vec<MetricSample>) -> (r: Vec<i64>)
    ensures
        r@ == window_times(samples_view(samples@)),
{
    let mut out: Vec<i64> = Vec::new();
    let mut i: usize = 0;
    while i < samples.len()
        invariant
            i <= samples.len(),
            out@.len() == i,
            forall|j: int| 0 <= j < i ==> out@[j] == samples@[j].timestamp,
        decreases samples.len() - i,
    {
        out.push(samples[i].timestamp);
        i += 1;
    }
    assert(out@ =~= window_times(samples_view(samples@)));
    out
}

/// Flags a latest value that lies more than `threshold` standard
/// deviations from the mean of the recent window.
pub struct ZScoreAnalyzer {
    window_size: u32,
    threshold: u64,
    hostname: String,
}

impl ZScoreAnalyzer {
    pub closed spec fn window(&self) -> nat {
        self.window_size as nat
    }

    pub closed spec fn limit(&self) -> nat {
        self.threshold as nat
    }

    pub fn new(config: &AnalyzerConfig) -> (r: ZScoreAnalyzer)
        ensures
            r.window() == config.zscore_window,
            r.limit() == config.zscore_threshold,
    {
        ZScoreAnalyzer {
            window_size: config.zscore_window,
            threshold: config.zscore_threshold,
            hostname: default_hostname(),
        }
    }

    pub fn name(&self) -> (r: &'static str)
        ensures
            r@ == "zscore"@,
    {
        "zscore"
    }

    /// A z-score alert for `metric` over its recent window, if anomalous.
    pub fn check_metric(&self, storage: &Storage, metric: MetricId) -> (r: Option<Alert>)
        requires
            storage.wf(),
        ensures
            ({
                let w = last_n(storage.held(metric), self.window());
                &&& severity_of(r) == zscore_outcome(w, self.limit() as int)
                &&& r matches Some(a) ==> zscore_alert(a, w, metric)
            }),
    {
        let samples = storage.recent(metric, self.window_size as usize);
        let ghost w = last_n(storage.held(metric), self.window());
        assert(samples_view(samples@) == w);
        let values = sample_values(&samples);
        let verdict = zscore_check(&values, self.threshold);
        let (severity, mean) = match verdict {
            Ok(Some(v)) => v,
            _ => return None,
        };
        let n = samples.len();
        assert(samples@[n - 1]@ == w.last());
        let last = &samples[n - 1];
        let mut message = joined(metric.text(), " anomaly detected (value=");
        message.append(tenths_text(last.value).as_str());
        message.append(", mean=");
        message.append(tenths_text(mean).as_str());
        message.append(")");
        Some(
            Alert {
                timestamp: last.timestamp,
                severity,
                metric,
                value: last.value,
                threshold: None,
                message,
                labels: duplicate_labels(&last.labels),
                hostname: self.hostname.clone(),
            },
        )
    }

    /// Alerts for CPU, iowait, memory and network rates, in that order.
    pub fn analyze(&mut self, storage: &Storage) -> (r: Vec<Alert>)
        requires
            storage.wf(),
        ensures
            alert_verdicts(r@) == zscore_expected(storage, old(self).window(), old(self).limit()),
            forall|i: int|
                0 <= i < r@.len() ==> zscore_alert(
                    #[trigger] r@[i],
                    last_n(storage.held(r@[i].metric), old(self).window()),
                    r@[i].metric,
                ),
    {
        let metrics = [
            MetricId::CpuUsage,
            MetricId::CpuIoWait,
            MetricId::MemUsage,
            MetricId::NetRxRate,
            MetricId::NetTxRate,
        ];
        let ghost expected = seq![
            zscore_key(storage, MetricId::CpuUsage, self.window(), self.limit()),
            zscore_key(storage, MetricId::CpuIoWait, self.window(), self.limit()),
            zscore_key(storage, MetricId::MemUsage, self.window(), self.limit()),
            zscore_key(storage, MetricId::NetRxRate, self.window(), self.limit()),
            zscore_key(storage, MetricId::NetTxRate, self.window(), self.limit()),
        ];
        let mut alerts: Vec<Alert> = Vec::new();
        let mut i: usize = 0;
        while i < 5
            invariant
                storage.wf(),
                i <= 5,
                expected.len() == 5,
                forall|j: int|
                    0 <= j < 5 ==> #[trigger] expected[j] == zscore_key(
                        storage,
                        metrics@[j],
                        self.window(),
                        self.limit(),
                    ),
                alert_verdicts(alerts@) == present(expected.subrange(0, i as int)),
                forall|k: int|
                    0 <= k < alerts@.len() ==> zscore_alert(
                        #[trigger] alerts@[k],
                        last_n(storage.held(alerts@[k].metric), self.window()),
                        alerts@[k].metric,
                    ),
            decreases 5 - i,
        {
            let found = self.check_metric(storage, metrics[i]);
            let ghost prev = alerts@;
            assert(expected.subrange(0, i + 1).drop_last() =~= expected.subrange(0, i as int));
            match found {
                Some(a) => {
                    alerts.push(a);
                    assert(alert_verdicts(alerts@) =~= alert_verdicts(prev).push(
                        (a.metric, a.severity),
                    ));
                },
                None => {},
            }
            i += 1;
        }
        assert(expected.subrange(0, 5) =~= expected);
        alerts
    }
}

/// Metric and severity of each alert, in order.
pub open spec fn alert_verdicts(alerts: Seq<Alert>) -> Seq<(MetricId, Severity)> {
    alerts.map_values(|a: Alert| (a.metric, a.severity))
}

/// The z-score verdict for `m` over its `window` most recent samples.
pub open spec fn zscore_key(storage: &Storage, m: MetricId, window: nat, t: nat) -> Option<
    (MetricId, Severity),
> {
    match zscore_outcome(last_n(storage.held(m), window), t as int) {
        Some(s) => Some((m, s)),
        None => None,
    }
}

/// The z-score verdicts for CPU, iowait, memory and network rates.
pub open spec fn zscore_expected(storage: &Storage, window: nat, t: nat) -> Seq<(MetricId, Severity)> {
    present(
        seq![
            zscore_key(storage, MetricId::CpuUsage, window, t),
            zscore_key(storage, MetricId::CpuIoWait, window, t),
            zscore_key(storage, MetricId::MemUsage, window, t),
            zscore_key(storage, MetricId::NetRxRate, window, t),
            zscore_key(storage, MetricId::NetTxRate, window, t),
        ],
    )
}

/// The exhaustion verdicts for disk, memory and FD usage.
pub open spec fn trend_expected(storage: &Storage, hours: nat) -> Seq<(MetricId, Severity)> {
    present(
        seq![
            trend_key(storage, MetricId::DiskUsage, hours, 72, 24),
            trend_key(storage, MetricId::MemUsage, hours, 12, 6),
            trend_key(storage, MetricId::FdSystemUsage, hours, 24, 6),
        ],
    )
}

/// The exhaustion verdict for `m` over its trend window.
pub open spec fn trend_key(
    storage: &Storage,
    m: MetricId,
    hours: nat,
    warn: int,
    crit: int,
) -> Option<(MetricId, Severity)> {
    match trend_outcome(last_n(storage.held(m), trend_window(hours)), 100_000, warn, crit) {
        Some(s) => Some((m, s)),
        None => None,
    }
}

/// Samples a trend window spans: `hours` at one sample per 10 seconds.
pub open spec fn trend_window(hours: nat) -> nat {
    if hours * 360 <= usize::MAX {
        hours * 360
    } else {
        usize::MAX as nat
    }
}

/// Severity the exhaustion rule gives the window `w`; none where the
/// statistics are out of range.
pub open spec fn trend_outcome(w: Seq<SampleView>, limit: int, warn: int, crit: int) -> Option<
    Severity,
> {
    let xs = offsets(window_times(w));
    let ys = window_values(w);
    if trend_fits(xs, ys, limit, warn, crit) {
        trend_severity(xs, ys, limit, warn, crit)
    } else {
        None
    }
}

/// Hours from the newest sample of `w` to `limit` along its trend, in
/// tenths.
pub open spec fn trend_hours(w: Seq<SampleView>, limit: int) -> int {
    hours_tenths(offsets(window_times(w)), window_values(w), limit)
}

/// Alert text of an exhaustion forecast:
/// `<metric> trending toward exhaustion: <h>h remaining (current=<v>%)`,
/// hours and value with one decimal.
pub open spec fn trend_message(m: MetricId, hours_tenths: int, value: i64) -> Seq<char> {
    metric_text(m) + " trending toward exhaustion: "@ + tenths(hours_tenths * 100) + "h remaining (current="@
        + tenths(value as int) + "%)"@
}

/// An exhaustion alert for `m` built from its window `w`.
pub open spec fn trend_alert(a: Alert, w: Seq<SampleView>, m: MetricId, limit: i64) -> bool {
    &&& built_from(a, w.last(), m)
    &&& a.threshold == Some(limit)
    &&& a.message@ == trend_message(m, trend_hours(w, limit as int), a.value)
}

/// A z-score alert for `m` built from its window `w`.
pub open spec fn zscore_alert(a: Alert, w: Seq<SampleView>, m: MetricId) -> bool {
    &&& built_from(a, w.last(), m)
    &&& a.threshold is None
    &&& a.message@ == zscore_message(m, a.value, window_mean(w))
}

/// Fits a line to the recent history of capacity metrics and warns ahead
/// of the time it reaches the limit.
pub struct TrendAnalyzer {
    window_hours: u32,
    hostname: String,
}

impl TrendAnalyzer {
    pub closed spec fn hours(&self) -> nat {
        self.window_hours as nat
    }

    pub fn new(config: &AnalyzerConfig) -> (r: TrendAnalyzer)
        ensures
            r.hours() == config.trend_window_hours,
    {
        TrendAnalyzer { window_hours: config.trend_window_hours, hostname: default_hostname() }
    }

    pub fn name(&self) -> (r: &'static str)
        ensures
            r@ == "trend"@,
    {
        "trend"
    }

    /// An exhaustion alert for `metric` if its recent trend reaches `limit`
    /// (thousandths) within `hours_warn` hours.
    pub fn check_exhaustion(
        &self,
        storage: &Storage,
        metric: MetricId,
        limit: i64,
        hours_warn: u32,
        hours_crit: u32,
    ) -> (r: Option<Alert>)
        requires
            storage.wf(),
        ensures
            ({
                let w = last_n(storage.held(metric), trend_window(self.hours()));
                &&& severity_of(r) == trend_outcome(
                    w,
                    limit as int,
                    hours_warn as int,
                    hours_crit as int,
                )
                &&& r matches Some(a) ==> trend_alert(a, w, metric, limit)
            }),
    {
        let wanted: usize = match (self.window_hours as usize).checked_mul(360) {
            Some(k) => k,
            None => usize::MAX,
        };
        assert(wanted == trend_window(self.hours()));
        let samples = storage.recent(metric, wanted);
        let ghost w = last_n(storage.held(metric), trend_window(self.hours()));
        let values = sample_values(&samples);
        let times = sample_times(&samples);
        let verdict = trend_check(&times, &values, limit, hours_warn, hours_crit);
        let (severity, hours) = match verdict {
            Ok(Some(v)) => v,
            _ => return None,
        };
        let n = samples.len();
        assert(samples@[n - 1]@ == w.last());
        let last = &samples[n - 1];
        let mut message = joined(metric.text(), " trending toward exhaustion: ");
        message.append(tenths_text(hours * 100).as_str());
        message.append("h remaining (current=");
        message.append(tenths_text(last.value).as_str());
        message.append("%)");
        Some(
            Alert {
                timestamp: last.timestamp,
                severity,
                metric,
                value: last.value,
                threshold: Some(limit),
                message,
                labels: duplicate_labels(&last.labels),
                hostname: self.hostname.clone(),
            },
        )
    }

    /// Disk (warn 72 h, critical 24 h), memory (12 h, 6 h) and FD usage
    /// (24 h, 6 h), each against a limit of 100%.
    pub fn analyze(&mut self, storage: &Storage) -> (r: Vec<Alert>)
        requires
            storage.wf(),
        ensures
            alert_verdicts(r@) == trend_expected(storage, old(self).hours()),
            forall|i: int|
                0 <= i < r@.len() ==> trend_alert(
                    #[trigger] r@[i],
                    last_n(storage.held(r@[i].metric), trend_window(old(self).hours())),
                    r@[i].metric,
                    100_000,
                ),
            forall|i: int| 0 <= i < r@.len() ==> r@[i].threshold == Some(100_000i64),
    {
        let plan = [
            (MetricId::DiskUsage, 72u32, 24u32),
            (MetricId::MemUsage, 12u32, 6u32),
            (MetricId::FdSystemUsage, 24u32, 6u32),
        ];
        let ghost expected = seq![
            trend_key(storage, MetricId::DiskUsage, self.hours(), 72, 24),
            trend_key(storage, MetricId::MemUsage, self.hours(), 12, 6),
            trend_key(storage, MetricId::FdSystemUsage, self.hours(), 24, 6),
        ];
        let mut alerts: Vec<Alert> = Vec::new();
        let mut i: usize = 0;
        while i < 3
            invariant
                storage.wf(),
                i <= 3,
                expected.len() == 3,
                forall|j: int|
                    0 <= j < 3 ==> #[trigger] expected[j] == trend_key(
                        storage,
                        plan@[j].0,
                        self.hours(),
                        plan@[j].1 as int,
                        plan@[j].2 as int,
                    ),
                alert_verdicts(alerts@) == present(expected.subrange(0, i as int)),
                forall|k: int| 0 <= k < alerts@.len() ==> alerts@[k].threshold == Some(100_000i64),
                forall|k: int|
                    0 <= k < alerts@.len() ==> trend_alert(
                        #[trigger] alerts@[k],
                        last_n(storage.held(alerts@[k].metric), trend_window(self.hours())),
                        alerts@[k].metric,
                        100_000,
                    ),
            decreases 3 - i,
        {
            let (m, w, c) = plan[i];
            let found = self.check_exhaustion(storage, m, 100_000, w, c);
            let ghost prev = alerts@;
            assert(expected.subrange(0, i + 1).drop_last() =~= expected.subrange(0, i as int));
            match found {
                Some(a) => {
                    alerts.push(a);
                    assert(alert_verdicts(alerts@) =~= alert_verdicts(prev).push(
                        (a.metric, a.severity),
                    ));
                },
                None => {},
            }
            i += 1;
        }
        assert(expected.subrange(0, 3) =~= expected);
        alerts
    }
}

/// The analyzers the agent runs each tick.
pub enum Analyzer {
    Threshold(ThresholdAnalyzer),
    ZScore(ZScoreAnalyzer),
    Trend(TrendAnalyzer),
}

impl Analyzer {
    pub fn name(&self) -> (r: &'static str)
        ensures
            r@ == match self {
                Analyzer::Threshold(_) => "threshold"@,
                Analyzer::ZScore(_) => "zscore"@,
                Analyzer::Trend(_) => "trend"@,
            },
    {
        match self {
            Analyzer::Threshold(a) => a.name(),
            Analyzer::ZScore(a) => a.name(),
            Analyzer::Trend(a) => a.name(),
        }
    }

    /// The alerts of the analyzer this value holds.
    pub fn analyze(&mut self, storage: &Storage) -> (r: Vec<Alert>)
        requires
            storage.wf(),
        ensures
            match *old(self) {
                Analyzer::Threshold(a) => alert_keys(r@) == threshold_expected(storage, a.cutoffs()),
                Analyzer::ZScore(a) => alert_verdicts(r@) == zscore_expected(
                    storage,
                    a.window(),
                    a.limit(),
                ),
                Analyzer::Trend(a) => alert_verdicts(r@) == trend_expected(storage, a.hours()),
            },
    {
        match self {
            Analyzer::Threshold(a) => a.analyze(storage),
            Analyzer::ZScore(a) => a.analyze(storage),
            Analyzer::Trend(a) => a.analyze(storage),
        }
    }
}

/// The threshold, z-score and trend analyzers, in that order.
pub fn create_analyzers(config: &Config) -> (r: Vec<Analyzer>)
    ensures
        r@.len() == 3,
        r@[0] matches Analyzer::Threshold(a) && a.cutoffs() == config.thresholds,
        r@[1] matches Analyzer::ZScore(a) && a.window() == config.analyzer.zscore_window
            && a.limit() == config.analyzer.zscore_threshold,
        r@[2] matches Analyzer::Trend(a) && a.hours() == config.analyzer.trend_window_hours,
{
    let mut r: Vec<Analyzer> = Vec::new();
    r.push(Analyzer::Threshold(ThresholdAnalyzer::new(&config.thresholds)));
    r.push(Analyzer::ZScore(ZScoreAnalyzer::new(&config.analyzer)));
    r.push(Analyzer::Trend(TrendAnalyzer::new(&config.analyzer)));
    r
}

} // verus!
