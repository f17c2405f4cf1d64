use vstd::prelude::*;
use vstd::string::StrSliceExecFns;

verus! {

/// Number of distinct metric identifiers.
pub const METRIC_COUNT: usize = 27;

/// Alert severity, totally ordered: `Info < Warn < Critical < Emergency`.
#[derive(Debug, Clone, Copy, PartialEq, Eq, PartialOrd, Ord, Hash, Structural)]
pub enum Severity {
    Info,
    Warn,
    Critical,
    Emergency,
}

impl Severity {
    /// Position of the severity in the total order.
    pub open spec fn rank(self) -> nat {
        match self {
            Severity::Info => 0,
            Severity::Warn => 1,
            Severity::Critical => 2,
            Severity::Emergency => 3,
        }
    }

    pub fn level(&self) -> (r: u8)
        ensures
            r as nat == self.rank(),
    {
        match self {
            Severity::Info => 0,
            Severity::Warn => 1,
            Severity::Critical => 2,
            Severity::Emergency => 3,
        }
    }

    /// True when `self` comes strictly before `other` in the severity order.
    pub fn is_below(&self, other: &Severity) -> (r: bool)
        ensures
            r == (self.rank() < other.rank()),
    {
        self.level() < other.level()
    }

    pub fn as_str(&self) -> (r: &'static str)
        ensures
            r@ == severity_text(*self),
    {
        match self {
            Severity::Info => "INFO",
            Severity::Warn => "WARN",
            Severity::Critical => "CRITICAL",
            Severity::Emergency => "EMERGENCY",
        }
    }
}

/// Upper-case display form of a severity.
pub open spec fn severity_text(s: Severity) -> Seq<char> {
    match s {
        Severity::Info => "INFO"@,
        Severity::Warn => "WARN"@,
        Severity::Critical => "CRITICAL"@,
        Severity::Emergency => "EMERGENCY"@,
    }
}

/// Identifier of every metric the agent knows about.
#[derive(Debug, Clone, Copy, PartialEq, Eq, Hash, Structural)]
pub enum MetricId {
    CpuUsage,
    CpuUsagePerCore,
    CpuIoWait,
    CpuSteal,
    CpuLoad1m,
    CpuLoad5m,
    CpuLoad15m,
    MemUsage,
    MemAvailable,
    MemSwapUsage,
    DiskUsage,
    DiskAvailable,
    DiskInodeUsage,
    DiskReadRate,
    DiskWriteRate,
    DiskIoTime,
    NetRxRate,
    NetTxRate,
    NetRxErrors,
    NetTxErrors,
    ProcCount,
    ProcRss,
    ProcCpu,
    ProcFdCount,
    FdSystemUsage,
    KernelEntropy,
    KernelUptime,
}

impl MetricId {
    /// Dense index of the identifier, in declaration order.
    pub open spec fn spec_index(self) -> nat {
        match self {
            MetricId::CpuUsage => 0,
            MetricId::CpuUsagePerCore => 1,
            MetricId::CpuIoWait => 2,
            MetricId::CpuSteal => 3,
            MetricId::CpuLoad1m => 4,
            MetricId::CpuLoad5m => 5,
            MetricId::CpuLoad15m => 6,
            MetricId::MemUsage => 7,
            MetricId::MemAvailable => 8,
            MetricId::MemSwapUsage => 9,
            MetricId::DiskUsage => 10,
            MetricId::DiskAvailable => 11,
            MetricId::DiskInodeUsage => 12,
            MetricId::DiskReadRate => 13,
            MetricId::DiskWriteRate => 14,
            MetricId::DiskIoTime => 15,
            MetricId::NetRxRate => 16,
            MetricId::NetTxRate => 17,
            MetricId::NetRxErrors => 18,
            MetricId::NetTxErrors => 19,
            MetricId::ProcCount => 20,
            MetricId::ProcRss => 21,
            MetricId::ProcCpu => 22,
            MetricId::ProcFdCount => 23,
            MetricId::FdSystemUsage => 24,
            MetricId::KernelEntropy => 25,
            MetricId::KernelUptime => 26,
        }
    }

    pub fn index(&self) -> (r: usize)
        ensures
            r as nat == self.spec_index(),
            r < METRIC_COUNT,
    {
        match self {
            MetricId::CpuUsage => 0,
            MetricId::CpuUsagePerCore => 1,
            MetricId::CpuIoWait => 2,
            MetricId::CpuSteal => 3,
            MetricId::CpuLoad1m => 4,
            MetricId::CpuLoad5m => 5,
            MetricId::CpuLoad15m => 6,
            MetricId::MemUsage => 7,
            MetricId::MemAvailable => 8,
            MetricId::MemSwapUsage => 9,
            MetricId::DiskUsage => 10,
            MetricId::DiskAvailable => 11,
            MetricId::DiskInodeUsage => 12,
            MetricId::DiskReadRate => 13,
            MetricId::DiskWriteRate => 14,
            MetricId::DiskIoTime => 15,
            MetricId::NetRxRate => 16,
            MetricId::NetTxRate => 17,
            MetricId::NetRxErrors => 18,
            MetricId::NetTxErrors => 19,
            MetricId::ProcCount => 20,
            MetricId::ProcRss => 21,
            MetricId::ProcCpu => 22,
            MetricId::ProcFdCount => 23,
            MetricId::FdSystemUsage => 24,
            MetricId::KernelEntropy => 25,
            MetricId::KernelUptime => 26,
        }
    }

    pub fn from_index(i: usize) -> (r: MetricId)
        requires
            i < METRIC_COUNT,
        ensures
            r.spec_index() == i,
    {
        match i {
            0 => MetricId::CpuUsage,
            1 => MetricId::CpuUsagePerCore,
            2 => MetricId::CpuIoWait,
            3 => MetricId::CpuSteal,
            4 => MetricId::CpuLoad1m,
            5 => MetricId::CpuLoad5m,
            6 => MetricId::CpuLoad15m,
            7 => MetricId::MemUsage,
            8 => MetricId::MemAvailable,
            9 => MetricId::MemSwapUsage,
            10 => MetricId::DiskUsage,
            11 => MetricId::DiskAvailable,
            12 => MetricId::DiskInodeUsage,
            13 => MetricId::DiskReadRate,
            14 => MetricId::DiskWriteRate,
            15 => MetricId::DiskIoTime,
            16 => MetricId::NetRxRate,
            17 => MetricId::NetTxRate,
            18 => MetricId::NetRxErrors,
            19 => MetricId::NetTxErrors,
            20 => MetricId::ProcCount,
            21 => MetricId::ProcRss,
            22 => MetricId::ProcCpu,
            23 => MetricId::ProcFdCount,
            24 => MetricId::FdSystemUsage,
            25 => MetricId::KernelEntropy,
            _ => MetricId::KernelUptime,
        }
    }

    /// Canonical dotted textual form, stable across releases.
    pub fn text(&self) -> (r: &'static str)
        ensures
            r@ == metric_text(*self),
    {
        match self {
            MetricId::CpuUsage => "cpu.usage_percent",
            MetricId::CpuUsagePerCore => "cpu.usage_per_core",
            MetricId::CpuIoWait => "cpu.iowait_percent",
            MetricId::CpuSteal => "cpu.steal_percent",
            MetricId::CpuLoad1m => "cpu.load_1m",
            MetricId::CpuLoad5m => "cpu.load_5m",
            MetricId::CpuLoad15m => "cpu.load_15m",
            MetricId::MemUsage => "mem.usage_percent",
            MetricId::MemAvailable => "mem.available_bytes",
            MetricId::MemSwapUsage => "mem.swap_usage_percent",
            MetricId::DiskUsage => "disk.usage_percent",
            MetricId::DiskAvailable => "disk.available_bytes",
            MetricId::DiskInodeUsage => "disk.inode_usage_percent",
            MetricId::DiskReadRate => "disk.read_bytes_rate",
            MetricId::DiskWriteRate => "disk.write_bytes_rate",
            MetricId::DiskIoTime => "disk.io_time_percent",
            MetricId::NetRxRate => "net.rx_bytes_rate",
            MetricId::NetTxRate => "net.tx_bytes_rate",
            MetricId::NetRxErrors => "net.rx_errors_rate",
            MetricId::NetTxErrors => "net.tx_errors_rate",
            MetricId::ProcCount => "proc.count",
            MetricId::ProcRss => "proc.rss_bytes",
            MetricId::ProcCpu => "proc.cpu_percent",
            MetricId::ProcFdCount => "proc.fd_count",
            MetricId::FdSystemUsage => "fd.system_usage_percent",
            MetricId::KernelEntropy => "kernel.entropy_available",
            MetricId::KernelUptime => "kernel.uptime_secs",
        }
    }

    /// Parses the canonical textual form back into an identifier.
    pub fn from_text(s: &str) -> (r: Option<MetricId>)
        ensures
            match r {
                Some(m) => metric_text(m) == s@,
                None => forall|m: MetricId| metric_text(m) != s@,
            },
    {
        let mut i: usize = 0;
        while i < METRIC_COUNT
            invariant
                i <= METRIC_COUNT,
                forall|m: MetricId| m.spec_index() < i ==> metric_text(m) != s@,
            decreases METRIC_COUNT - i,
        {
            let m = MetricId::from_index(i);
            if str_equal(m.text(), s) {
                return Some(m);
            }
            i += 1;
        }
        proof {
            assert forall|m: MetricId| metric_text(m) != s@ by {
                lemma_index_bound(m);
            }
        }
        None
    }
}

proof fn lemma_index_bound(m: MetricId)
    ensures
        m.spec_index() < METRIC_COUNT,
{
}

/// Canonical dotted textual form of a metric identifier.
pub open spec fn metric_text(m: MetricId) -> Seq<char> {
    match m {
        MetricId::CpuUsage => "cpu.usage_percent"@,
        MetricId::CpuUsagePerCore => "cpu.usage_per_core"@,
        MetricId::CpuIoWait => "cpu.iowait_percent"@,
        MetricId::CpuSteal => "cpu.steal_percent"@,
        MetricId::CpuLoad1m => "cpu.load_1m"@,
        MetricId::CpuLoad5m => "cpu.load_5m"@,
        MetricId::CpuLoad15m => "cpu.load_15m"@,
        MetricId::MemUsage => "mem.usage_percent"@,
        MetricId::MemAvailable => "mem.available_bytes"@,
        MetricId::MemSwapUsage => "mem.swap_usage_percent"@,
        MetricId::DiskUsage => "disk.usage_percent"@,
        MetricId::DiskAvailable => "disk.available_bytes"@,
        MetricId::DiskInodeUsage => "disk.inode_usage_percent"@,
        MetricId::DiskReadRate => "disk.read_bytes_rate"@,
        MetricId::DiskWriteRate => "disk.write_bytes_rate"@,
        MetricId::DiskIoTime => "disk.io_time_percent"@,
        MetricId::NetRxRate => "net.rx_bytes_rate"@,
        MetricId::NetTxRate => "net.tx_bytes_rate"@,
        MetricId::NetRxErrors => "net.rx_errors_rate"@,
        MetricId::NetTxErrors => "net.tx_errors_rate"@,
        MetricId::ProcCount => "proc.count"@,
        MetricId::ProcRss => "proc.rss_bytes"@,
        MetricId::ProcCpu => "proc.cpu_percent"@,
        MetricId::ProcFdCount => "proc.fd_count"@,
        MetricId::FdSystemUsage => "fd.system_usage_percent"@,
        MetricId::KernelEntropy => "kernel.entropy_available"@,
        MetricId::KernelUptime => "kernel.uptime_secs"@,
    }
}

/// Character-wise equality of two strings.
pub fn str_equal(a: &str, b: &str) -> (r: bool)
    ensures
        r == (a@ == b@),
{
    let n = a.unicode_len();
    if n != b.unicode_len() {
        return false;
    }
    let mut i: usize = 0;
    while i < n
        invariant
            n == a@.len(),
            n == b@.len(),
            i <= n,
            forall|j: int| 0 <= j < i ==> a@[j] == b@[j],
        decreases n - i,
    {
        if a.get_char(i) != b.get_char(i) {
            return false;
        }
        i += 1;
    }
    assert(a@ =~= b@);
    true
}

/// Length and three characters, enough to tell the canonical texts apart.
spec fn text_key(s: Seq<char>) -> (nat, char, char, char) {
    (s.len(), s[0], s[4], s[9])
}

/// The textual form is a bijection: two identifiers share a text exactly
/// when they are the same identifier.
pub proof fn lemma_metric_text_bijective(a: MetricId, b: MetricId)
    ensures
        (metric_text(a) == metric_text(b)) == (a == b),
{
    reveal_strlit("cpu.usage_percent");
    reveal_strlit("cpu.usage_per_core");
    reveal_strlit("cpu.iowait_percent");
    reveal_strlit("cpu.steal_percent");
    reveal_strlit("cpu.load_1m");
    reveal_strlit("cpu.load_5m");
    reveal_strlit("cpu.load_15m");
    reveal_strlit("mem.usage_percent");
    reveal_strlit("mem.available_bytes");
    reveal_strlit("mem.swap_usage_percent");
    reveal_strlit("disk.usage_percent");
    reveal_strlit("disk.available_bytes");
    reveal_strlit("disk.inode_usage_percent");
    reveal_strlit("disk.read_bytes_rate");
    reveal_strlit("disk.write_bytes_rate");
    reveal_strlit("disk.io_time_percent");
    reveal_strlit("net.rx_bytes_rate");
    reveal_strlit("net.tx_bytes_rate");
    reveal_strlit("net.rx_errors_rate");
    reveal_strlit("net.tx_errors_rate");
    reveal_strlit("proc.count");
    reveal_strlit("proc.rss_bytes");
    reveal_strlit("proc.cpu_percent");
    reveal_strlit("proc.fd_count");
    reveal_strlit("fd.system_usage_percent");
    reveal_strlit("kernel.entropy_available");
    reveal_strlit("kernel.uptime_secs");
    if metric_text(a) == metric_text(b) {
        assert(text_key(metric_text(a)) == text_key(metric_text(b)));
    }
}

/// A (key, value) pair that tells apart series sharing one metric.
#[derive(Debug, Clone)]
pub struct Label {
    pub key: String,
    pub value: String,
}

impl View for Label {
    type V = (Seq<char>, Seq<char>);

    open spec fn view(&self) -> (Seq<char>, Seq<char>) {
        (self.key@, self.value@)
    }
}

impl Label {
    pub fn duplicate(&self) -> (r: Label)
        ensures
            r@ == self@,
    {
        Label { key: self.key.clone(), value: self.value.clone() }
    }
}

/// The labels of a sample, kept as the original agent keeps them: in a
/// `smallvec::SmallVec` with room for four inline, so that the usual few
/// labels need no allocation.
#[verifier::external_body]
#[derive(Debug)]
pub struct LabelList {
    items: smallvec::SmallVec<[Label; 4]>,
}

/// The labels a list holds, in order.
pub uninterp spec fn label_items(l: LabelList) -> Seq<(Seq<char>, Seq<char>)>;

/// Relies on `SmallVec::new`: a vector with no items.
#[verifier::external_body]
fn list_empty() -> (r: LabelList)
    ensures
        label_items(r) == Seq::<(Seq<char>, Seq<char>)>::empty(),
{
    LabelList { items: smallvec::SmallVec::new() }
}

/// Relies on `SmallVec::push`: the item goes at the end.
#[verifier::external_body]
fn list_push(l: &mut LabelList, x: Label)
    ensures
        label_items(*final(l)) == label_items(*old(l)).push(x@),
{
    l.items.push(x)
}

/// Relies on `SmallVec::len`: the number of items.
#[verifier::external_body]
fn list_len(l: &LabelList) -> (r: usize)
    ensures
        r == label_items(*l).len(),
{
    l.items.len()
}

/// Relies on indexing a `SmallVec` below its length: the item at `i`.
#[verifier::external_body]
fn list_get(l: &LabelList, i: usize) -> (r: &Label)
    requires
        i < label_items(*l).len(),
    ensures
        r@ == label_items(*l)[i as int],
{
    &l.items[i]
}

impl LabelList {
    pub fn new() -> (r: LabelList)
        ensures
            labels_view(r) == Seq::<(Seq<char>, Seq<char>)>::empty(),
    {
        list_empty()
    }

    pub fn push(&mut self, label: Label)
        ensures
            labels_view(*final(self)) == labels_view(*old(self)).push(label@),
    {
        list_push(self, label)
    }

    pub fn len(&self) -> (r: usize)
        ensures
            r == labels_view(*self).len(),
    {
        list_len(self)
    }

    pub fn get(&self, i: usize) -> (r: &Label)
        requires
            i < labels_view(*self).len(),
        ensures
            r@ == labels_view(*self)[i as int],
    {
        list_get(self, i)
    }
}

impl Clone for LabelList {
    fn clone(&self) -> (r: LabelList)
        ensures
            labels_view(r) == labels_view(*self),
    {
        duplicate_labels(self)
    }
}

/// The (key, value) texts of a label list, in order.
pub open spec fn labels_view(ls: LabelList) -> Seq<(Seq<char>, Seq<char>)> {
    label_items(ls)
}

/// Copies a label list, keeping every label's key and value.
pub fn duplicate_labels(ls: &LabelList) -> (r: LabelList)
    ensures
        labels_view(r) == labels_view(*ls),
{
    let mut out = LabelList::new();
    let n = ls.len();
    let mut i: usize = 0;
    while i < n
        invariant
            i <= n == labels_view(*ls).len(),
            labels_view(out) == labels_view(*ls).subrange(0, i as int),
        decreases n - i,
    {
        out.push(ls.get(i).duplicate());
        i += 1;
        assert(labels_view(out) =~= labels_view(*ls).subrange(0, i as int));
    }
    assert(labels_view(*ls).subrange(0, n as int) =~= labels_view(*ls));
    out
}

/// Abstract value of a sample: the same fields, labels by their text.
pub struct SampleView {
    pub timestamp: i64,
    pub metric: MetricId,
    pub value: i64,
    pub labels: Seq<(Seq<char>, Seq<char>)>,
}

/// One timestamped measurement of one metric.
///
/// `timestamp` is in whole seconds since the Unix epoch (UTC) and `value`
/// is in thousandths of the metric's unit (percent, bytes, bytes/s, count).
#[derive(Debug, Clone)]
pub struct MetricSample {
    pub timestamp: i64,
    pub metric: MetricId,
    pub value: i64,
    pub labels: LabelList,
}

impl View for MetricSample {
    type V = SampleView;

    open spec fn view(&self) -> SampleView {
        SampleView {
            timestamp: self.timestamp,
            metric: self.metric,
            value: self.value,
            labels: labels_view(self.labels),
        }
    }
}

impl MetricSample {
    /// A sample without labels.
    pub fn unlabelled(timestamp: i64, metric: MetricId, value: i64) -> (r: MetricSample)
        ensures
            r.timestamp == timestamp,
            r.metric == metric,
            r.value == value,
            labels_view(r.labels).len() == 0,
            r@ == (SampleView { timestamp, metric, value, labels: Seq::empty() }),
    {
        MetricSample { timestamp, metric, value, labels: LabelList::new() }
    }

    pub fn duplicate(&self) -> (r: MetricSample)
        ensures
            r@ == self@,
    {
        MetricSample {
            timestamp: self.timestamp,
            metric: self.metric,
            value: self.value,
            labels: duplicate_labels(&self.labels),
        }
    }
}

/// An alert to be dispatched. `value` and `threshold` are in thousandths of
/// the metric's unit; `threshold` is present for fixed cut-off rules.
#[derive(Debug, Clone)]
pub struct Alert {
    pub timestamp: i64,
    pub severity: Severity,
    pub metric: MetricId,
    pub value: i64,
    pub threshold: Option<i64>,
    pub message: String,
    pub labels: LabelList,
    pub hostname: String,
}

} // verus!
