use vstd::prelude::*;
use vstd::string::StrSliceExecFns;

use crate::config::{Config, DiskCollectorConfig, ProcessCollectorConfig};
use crate::cpu::{share, CpuCollector};
use crate::memory::MemoryCollector;
use crate::network::{milli, names_view, NetworkCollector};
use crate::ring::samples_view;
use crate::text::{bytes_equal, bytes_view, lines, lossy_text, parse_u64, parsed_u64, split_lines, split_words, text_of, utf8, words};
use crate::types::{labels_view, Label, LabelList, MetricId, MetricSample, SampleView};

verus! {

/// System-wide file descriptor usage from `/proc/sys/fs/file-nr`.
pub struct FdCollector;

/// FD usage in thousandths of a percent: `100 × used / max` from the
/// first and third words of `file-nr` (a word that is not a number counts
/// as 0 for `used` and 1 for `max`). Nothing with fewer than three words or
/// a zero maximum.
pub open spec fn fd_samples(content: Seq<u8>, now: i64) -> Seq<SampleView> {
    let ws = words(content);
    if ws.len() < 3 {
        Seq::empty()
    } else {
        let used = match parsed_u64(ws[0]) {
            Some(v) => v,
            None => 0,
        };
        let max = match parsed_u64(ws[2]) {
            Some(v) => v,
            None => 1,
        };
        if max == 0 {
            Seq::empty()
        } else {
            let v = 100_000 * (used as int) / (max as int);
            seq![
                SampleView {
                    timestamp: now,
                    metric: MetricId::FdSystemUsage,
                    value: if v > i64::MAX { i64::MAX } else { v as i64 },
                    labels: Seq::empty(),
                },
            ]
        }
    }
}

impl FdCollector {
    pub fn new() -> (r: FdCollector) {
        FdCollector
    }

    pub fn name(&self) -> (r: &'static str)
        ensures
            r@ == "fd"@,
    {
        "fd"
    }

    pub fn interval_secs(&self) -> (r: u64)
        ensures
            r == 30,
    {
        30
    }

    /// Samples from the content of `/proc/sys/fs/file-nr`, taken at `now`.
    pub fn parse_file_nr(&self, content: &[u8], now: i64) -> (r: Vec<MetricSample>)
        ensures
            samples_view(r@) == fd_samples(content@, now),
    {
        let ws = split_words(content);
        let mut out: Vec<MetricSample> = Vec::new();
        if ws.len() < 3 {
            assert(samples_view(out@) =~= fd_samples(content@, now));
            return out;
        }
        assert(bytes_view(ws@)[0] == ws@[0]@ && bytes_view(ws@)[2] == ws@[2]@);
        let used = match parse_u64(ws[0].as_slice()) {
            Some(v) => v,
            None => 0,
        };
        let max = match parse_u64(ws[2].as_slice()) {
            Some(v) => v,
            None => 1,
        };
        if max == 0 {
            assert(samples_view(out@) =~= fd_samples(content@, now));
            return out;
        }
        let v = (100_000u128 * used as u128) / max as u128;
        let value: i64 = if v > i64::MAX as u128 { i64::MAX } else { v as i64 };
        out.push(MetricSample::unlabelled(now, MetricId::FdSystemUsage, value));
        assert(samples_view(out@) =~= fd_samples(content@, now));
        out
    }
}

/// True when some name in `list` has the bytes `b`.
pub open spec fn listed(list: Seq<Seq<char>>, b: Seq<u8>) -> bool {
    exists|i: int| 0 <= i < list.len() && utf8(#[trigger] list[i]) == b
}

/// The (mount point, fstype) pairs of `/proc/mounts` that are not excluded
/// by fstype or by mount point, in order. Lines with fewer than three words
/// are skipped.
pub open spec fn watched_mounts(
    ls: Seq<Seq<u8>>,
    fstypes: Seq<Seq<char>>,
    mounts: Seq<Seq<char>>,
) -> Seq<(Seq<u8>, Seq<u8>)>
    decreases ls.len(),
{
    if ls.len() == 0 {
        Seq::empty()
    } else {
        let prev = watched_mounts(ls.drop_last(), fstypes, mounts);
        let ws = words(ls.last());
        if ws.len() < 3 || listed(fstypes, ws[2]) || listed(mounts, ws[1]) {
            prev
        } else {
            prev.push((ws[1], ws[2]))
        }
    }
}

fn is_listed(list: &Vec<String>, b: &[u8]) -> (r: bool)
    ensures
        r == listed(names_view(list@), b@),
{
    let mut i: usize = 0;
    while i < list.len()
        invariant
            i <= list@.len(),
            forall|j: int| 0 <= j < i ==> utf8(#[trigger] names_view(list@)[j]) != b@,
        decreases list@.len() - i,
    {
        assert(names_view(list@)[i as int] == list@[i as int]@);
        if bytes_equal(list[i].as_str().as_bytes(), b) {
            return true;
        }
        i += 1;
    }
    false
}

/// Filesystem usage of the mounted filesystems from `/proc/mounts`.
pub struct DiskCollector {
    interval: u64,
    exclude_fstypes: Vec<String>,
    exclude_mountpoints: Vec<String>,
}

/// Usage and available-bytes samples of one filesystem, labelled with its
/// mount point and fstype; usage is `100 × (1 − available / total)`.
pub open spec fn disk_samples_of(
    mount: Seq<u8>,
    fstype: Seq<u8>,
    total: u64,
    avail: u64,
    now: i64,
) -> Seq<SampleView> {
    let labels = seq![("mountpoint"@, lossy_text(mount)), ("fstype"@, lossy_text(fstype))];
    let usage = if total == 0 {
        0
    } else {
        share((total - (if avail > total { total } else { avail })) as nat, total as nat)
    };
    seq![
        SampleView { timestamp: now, metric: MetricId::DiskUsage, value: usage as i64, labels },
        SampleView { timestamp: now, metric: MetricId::DiskAvailable, value: milli(avail as int), labels },
    ]
}

impl DiskCollector {
    pub closed spec fn fstypes(&self) -> Seq<Seq<char>> {
        names_view(self.exclude_fstypes@)
    }

    pub closed spec fn mountpoints(&self) -> Seq<Seq<char>> {
        names_view(self.exclude_mountpoints@)
    }

    pub closed spec fn interval_spec(&self) -> u64 {
        self.interval
    }

    pub fn new(config: &DiskCollectorConfig) -> (r: DiskCollector)
        ensures
            r.interval_spec() == config.interval_secs,
            r.fstypes() == names_view(config.exclude_fstypes@),
            r.mountpoints() == names_view(config.exclude_mountpoints@),
    {
        DiskCollector {
            interval: config.interval_secs,
            exclude_fstypes: crate::network::clone_names(&config.exclude_fstypes),
            exclude_mountpoints: crate::network::clone_names(&config.exclude_mountpoints),
        }
    }

    pub fn name(&self) -> (r: &'static str)
        ensures
            r@ == "disk"@,
    {
        "disk"
    }

    pub fn interval_secs(&self) -> (r: u64)
        ensures
            r == self.interval_spec(),
    {
        self.interval
    }

    /// The (mount point, fstype) pairs to measure, from `/proc/mounts`.
    pub fn watched(&self, content: &[u8]) -> (r: Vec<(Vec<u8>, Vec<u8>)>)
        ensures
            r@.map_values(|p: (Vec<u8>, Vec<u8>)| (p.0@, p.1@)) == watched_mounts(
                lines(content@),
                self.fstypes(),
                self.mountpoints(),
            ),
    {
        let ls = split_lines(content);
        let ghost lsv = bytes_view(ls@);
        let mut out: Vec<(Vec<u8>, Vec<u8>)> = Vec::new();
        let mut i: usize = 0;
        while i < ls.len()
            invariant
                i <= ls@.len(),
                lsv == bytes_view(ls@),
                out@.map_values(|p: (Vec<u8>, Vec<u8>)| (p.0@, p.1@)) == watched_mounts(
                    lsv.subrange(0, i as int),
                    self.fstypes(),
                    self.mountpoints(),
                ),
            decreases ls@.len() - i,
        {
            assert(lsv.subrange(0, i + 1).drop_last() =~= lsv.subrange(0, i as int));
            assert(lsv[i as int] == ls@[i as int]@);
            let ws = split_words(ls[i].as_slice());
            let ghost prev = out@.map_values(|p: (Vec<u8>, Vec<u8>)| (p.0@, p.1@));
            if ws.len() >= 3 {
                assert(bytes_view(ws@)[1] == ws@[1]@ && bytes_view(ws@)[2] == ws@[2]@);
                if !is_listed(&self.exclude_fstypes, ws[2].as_slice()) && !is_listed(
                    &self.exclude_mountpoints,
                    ws[1].as_slice(),
                ) {
                    out.push((ws[1].clone(), ws[2].clone()));
                    assert(out@.map_values(|p: (Vec<u8>, Vec<u8>)| (p.0@, p.1@)) =~= prev.push(
                        (ws@[1]@, ws@[2]@),
                    ));
                }
            }
            i += 1;
        }
        assert(lsv.subrange(0, i as int) =~= lsv);
        out
    }

    /// Samples of one filesystem with `total` and `avail` bytes, at `now`.
    pub fn samples_for(mount: &[u8], fstype: &[u8], total: u64, avail: u64, now: i64) -> (r: Vec<
        MetricSample,
    >)
        ensures
            samples_view(r@) == disk_samples_of(mount@, fstype@, total, avail, now),
    {
        let usage: i64 = if total == 0 {
            0
        } else {
            let used = total - if avail > total { total } else { avail };
            assert(0 <= 100_000 * (used as int) / (total as int) <= 100_000) by (nonlinear_arith)
                requires
                    used <= total,
                    total > 0,
            ;
            ((100_000u128 * used as u128) / total as u128) as i64
        };
        let v = avail as u128 * 1000;
        let avail_milli: i64 = if v > i64::MAX as u128 { i64::MAX } else { v as i64 };
        let mut out: Vec<MetricSample> = Vec::new();
        out.push(MetricSample { timestamp: now, metric: MetricId::DiskUsage, value: usage, labels: disk_labels(mount, fstype) });
        out.push(MetricSample { timestamp: now, metric: MetricId::DiskAvailable, value: avail_milli, labels: disk_labels(mount, fstype) });
        assert(samples_view(out@) =~= disk_samples_of(mount@, fstype@, total, avail, now));
        out
    }
}

fn disk_labels(mount: &[u8], fstype: &[u8]) -> (r: LabelList)
    ensures
        labels_view(r) == seq![("mountpoint"@, lossy_text(mount@)), ("fstype"@, lossy_text(fstype@))],
{
    let mut labels = LabelList::new();
    labels.push(Label { key: "mountpoint".to_owned(), value: text_of(mount) });
    labels.push(Label { key: "fstype".to_owned(), value: text_of(fstype) });
    assert(labels_view(labels) =~= seq![("mountpoint"@, lossy_text(mount@)), ("fstype"@, lossy_text(fstype@))]);
    labels
}

/// Number of processes, from the numeric entries of `/proc`.
pub struct ProcessCollector {
    interval: u64,
    track_patterns: Vec<String>,
    track_top_n: u32,
}

/// An entry of `/proc` names a process when every character is an ASCII
/// digit.
pub open spec fn is_pid_name(name: Seq<char>) -> bool {
    forall|i: int| 0 <= i < name.len() ==> '0' <= #[trigger] name[i] <= '9'
}

impl ProcessCollector {
    pub closed spec fn interval_spec(&self) -> u64 {
        self.interval
    }

    pub fn new(config: &ProcessCollectorConfig) -> (r: ProcessCollector)
        ensures
            r.interval_spec() == config.interval_secs,
    {
        ProcessCollector {
            interval: config.interval_secs,
            track_patterns: crate::network::clone_names(&config.track_patterns),
            track_top_n: config.track_top_n,
        }
    }

    pub fn name(&self) -> (r: &'static str)
        ensures
            r@ == "process"@,
    {
        "process"
    }

    pub fn interval_secs(&self) -> (r: u64)
        ensures
            r == self.interval_spec(),
    {
        self.interval
    }

    pub fn is_process_entry(name: &str) -> (r: bool)
        ensures
            r == is_pid_name(name@),
    {
        let n = name.unicode_len();
        let mut i: usize = 0;
        while i < n
            invariant
                n == name@.len(),
                i <= n,
                forall|j: int| 0 <= j < i ==> '0' <= #[trigger] name@[j] <= '9',
            decreases n - i,
        {
            let c = name.get_char(i);
            if !('0' <= c && c <= '9') {
                return false;
            }
            i += 1;
        }
        true
    }

    /// The process-count sample for `count` processes at `now`.
    pub fn count_sample(count: u64, now: i64) -> (r: MetricSample)
        ensures
            r@ == (SampleView { timestamp: now, metric: MetricId::ProcCount, value: milli(count as int), labels: Seq::empty() }),
    {
        let v = count as u128 * 1000;
        MetricSample::unlabelled(now, MetricId::ProcCount, if v > i64::MAX as u128 { i64::MAX } else { v as i64 })
    }
}

/// The collectors the agent runs.
pub enum Collector {
    Cpu(CpuCollector),
    Memory(MemoryCollector),
    Disk(DiskCollector),
    Network(NetworkCollector),
    Process(ProcessCollector),
    Fd(FdCollector),
}

impl Collector {
    pub fn name(&self) -> (r: &'static str)
        ensures
            r@ == match self {
                Collector::Cpu(_) => "cpu"@,
                Collector::Memory(_) => "memory"@,
                Collector::Disk(_) => "disk"@,
                Collector::Network(_) => "network"@,
                Collector::Process(_) => "process"@,
                Collector::Fd(_) => "fd"@,
            },
    {
        match self {
            Collector::Cpu(c) => c.name(),
            Collector::Memory(c) => c.name(),
            Collector::Disk(c) => c.name(),
            Collector::Network(c) => c.name(),
            Collector::Process(c) => c.name(),
            Collector::Fd(c) => c.name(),
        }
    }

    pub fn interval_secs(&self) -> (r: u64)
        ensures
            r == match self {
                Collector::Cpu(c) => c.interval_spec(),
                Collector::Memory(c) => c.interval_spec(),
                Collector::Disk(c) => c.interval_spec(),
                Collector::Network(c) => c.interval_spec(),
                Collector::Process(c) => c.interval_spec(),
                Collector::Fd(_) => 30,
            },
    {
        match self {
            Collector::Cpu(c) => c.interval_secs(),
            Collector::Memory(c) => c.interval_secs(),
            Collector::Disk(c) => c.interval_secs(),
            Collector::Network(c) => c.interval_secs(),
            Collector::Process(c) => c.interval_secs(),
            Collector::Fd(c) => c.interval_secs(),
        }
    }
}

/// Kind of a collector, in the order they are created.
pub open spec fn collector_rank(c: Collector) -> nat {
    match c {
        Collector::Cpu(_) => 0,
        Collector::Memory(_) => 1,
        Collector::Disk(_) => 2,
        Collector::Network(_) => 3,
        Collector::Process(_) => 4,
        Collector::Fd(_) => 5,
    }
}

pub open spec fn enabled_ranks(config: Config) -> Seq<nat> {
    (if config.collector.cpu.enabled { seq![0nat] } else { Seq::empty() })
        + (if config.collector.memory.enabled { seq![1nat] } else { Seq::empty() })
        + (if config.collector.disk.enabled { seq![2nat] } else { Seq::empty() })
        + (if config.collector.network.enabled { seq![3nat] } else { Seq::empty() })
        + (if config.collector.process.enabled { seq![4nat] } else { Seq::empty() })
        + seq![5nat]
}

/// A collector set up from the agent configuration, with nothing read yet.
pub open spec fn configured(c: Collector, config: Config) -> bool {
    let cc = config.collector;
    match c {
        Collector::Cpu(x) => x.interval_spec() == cc.cpu.interval_secs && x.spec_per_core()
            == cc.cpu.per_core && x.baseline().len() == 0,
        Collector::Memory(x) => x.interval_spec() == cc.memory.interval_secs,
        Collector::Disk(x) => x.interval_spec() == cc.disk.interval_secs && x.fstypes() == names_view(
            cc.disk.exclude_fstypes@,
        ) && x.mountpoints() == names_view(cc.disk.exclude_mountpoints@),
        Collector::Network(x) => x.interval_spec() == cc.network.interval_secs && x.excluded_names()
            == names_view(cc.network.exclude_interfaces@) && x.previous().len() == 0,
        Collector::Process(x) => x.interval_spec() == cc.process.interval_secs,
        Collector::Fd(_) => true,
    }
}

/// One collector per enabled kind, in the order cpu, memory, disk, network,
/// process; the FD collector always comes last.
pub fn create_collectors(config: &Config) -> (r: Vec<Collector>)
    ensures
        r@.map_values(|c: Collector| collector_rank(c)) == enabled_ranks(*config),
        forall|i: int| 0 <= i < r@.len() ==> configured(#[trigger] r@[i], *config),
{
    let mut r: Vec<Collector> = Vec::new();
    let ghost c = config.collector;
    if config.collector.cpu.enabled {
        r.push(Collector::Cpu(CpuCollector::new(&config.collector.cpu)));
    }
    assert(forall|i: int| 0 <= i < r@.len() ==> configured(#[trigger] r@[i], *config));
    let ghost a = r@.map_values(|c: Collector| collector_rank(c));
    assert(a =~= (if c.cpu.enabled { seq![0nat] } else { Seq::empty() }));
    if config.collector.memory.enabled {
        r.push(Collector::Memory(MemoryCollector::new(&config.collector.memory)));
    }
    assert(forall|i: int| 0 <= i < r@.len() ==> configured(#[trigger] r@[i], *config));
    let ghost b = r@.map_values(|c: Collector| collector_rank(c));
    assert(b =~= a + (if c.memory.enabled { seq![1nat] } else { Seq::empty() }));
    if config.collector.disk.enabled {
        r.push(Collector::Disk(DiskCollector::new(&config.collector.disk)));
    }
    assert(forall|i: int| 0 <= i < r@.len() ==> configured(#[trigger] r@[i], *config));
    let ghost d = r@.map_values(|c: Collector| collector_rank(c));
    assert(d =~= b + (if c.disk.enabled { seq![2nat] } else { Seq::empty() }));
    if config.collector.network.enabled {
        r.push(Collector::Network(NetworkCollector::new(&config.collector.network)));
    }
    assert(forall|i: int| 0 <= i < r@.len() ==> configured(#[trigger] r@[i], *config));
    let ghost e = r@.map_values(|c: Collector| collector_rank(c));
    assert(e =~= d + (if c.network.enabled { seq![3nat] } else { Seq::empty() }));
    if config.collector.process.enabled {
        r.push(Collector::Process(ProcessCollector::new(&config.collector.process)));
    }
    assert(forall|i: int| 0 <= i < r@.len() ==> configured(#[trigger] r@[i], *config));
    let ghost f = r@.map_values(|c: Collector| collector_rank(c));
    assert(f =~= e + (if c.process.enabled { seq![4nat] } else { Seq::empty() }));
    r.push(Collector::Fd(FdCollector::new()));
    assert(forall|i: int| 0 <= i < r@.len() ==> configured(#[trigger] r@[i], *config));
    assert(r@.map_values(|c: Collector| collector_rank(c)) =~= f + seq![5nat]);
    r
}

} // verus!
