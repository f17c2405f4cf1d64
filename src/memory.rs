use vstd::prelude::*;

use crate::config::MemoryCollectorConfig;
use crate::cpu::{capped, share};
use crate::ring::samples_view;
use crate::text::{bytes_equal, bytes_view, lines, parse_u64, parsed_u64, split_lines, split_words, utf8, words};
use crate::types::{MetricId, MetricSample, SampleView};

verus! {

/// The `/proc/meminfo` fields the collector reads, in kB.
#[derive(Debug, Clone, Copy, PartialEq, Eq, Structural)]
pub struct MemInfo {
    pub total: u64,
    pub available: u64,
    pub free: u64,
    pub buffers: u64,
    pub cached: u64,
    pub swap_total: u64,
    pub swap_free: u64,
    pub has_available: bool,
}

pub open spec fn empty_meminfo() -> MemInfo {
    MemInfo {
        total: 0,
        available: 0,
        free: 0,
        buffers: 0,
        cached: 0,
        swap_total: 0,
        swap_free: 0,
        has_available: false,
    }
}

/// The value of a line: its second word as a number, else zero.
pub open spec fn meminfo_value(ws: Seq<Seq<u8>>) -> u64 {
    match parsed_u64(ws[1]) {
        Some(v) => v,
        None => 0,
    }
}

/// One line of `/proc/meminfo`: `Key: value kB`. Lines with fewer than two
/// words and unknown keys change nothing; a later line wins.
pub open spec fn meminfo_line(m: MemInfo, line: Seq<u8>) -> MemInfo {
    let ws = words(line);
    if ws.len() < 2 {
        m
    } else {
        let v = meminfo_value(ws);
        let k = ws[0];
        if k == utf8("MemTotal:"@) {
            MemInfo { total: v, ..m }
        } else if k == utf8("MemAvailable:"@) {
            MemInfo { available: v, has_available: true, ..m }
        } else if k == utf8("MemFree:"@) {
            MemInfo { free: v, ..m }
        } else if k == utf8("Buffers:"@) {
            MemInfo { buffers: v, ..m }
        } else if k == utf8("Cached:"@) {
            MemInfo { cached: v, ..m }
        } else if k == utf8("SwapTotal:"@) {
            MemInfo { swap_total: v, ..m }
        } else if k == utf8("SwapFree:"@) {
            MemInfo { swap_free: v, ..m }
        } else {
            m
        }
    }
}

pub open spec fn meminfo_lines(ls: Seq<Seq<u8>>) -> MemInfo
    decreases ls.len(),
{
    if ls.len() == 0 {
        empty_meminfo()
    } else {
        meminfo_line(meminfo_lines(ls.drop_last()), ls.last())
    }
}

/// Available memory: `MemAvailable` where the kernel reports it, else
/// `MemFree + Buffers + Cached`.
pub open spec fn available_kb(m: MemInfo) -> u64 {
    if m.has_available {
        m.available
    } else {
        capped(m.free + m.buffers + m.cached)
    }
}

/// A byte count in thousandths, capped at the largest `i64`.
pub open spec fn kb_as_milli_bytes(kb: u64) -> i64 {
    if kb * 1_024_000 > i64::MAX {
        i64::MAX
    } else {
        (kb * 1_024_000) as i64
    }
}

/// Samples from parsed meminfo: usage and available bytes when the total is
/// known, swap usage when there is swap.
pub open spec fn meminfo_samples(m: MemInfo, now: i64) -> Seq<SampleView> {
    let avail = available_kb(m);
    let mem = if m.total > 0 {
        seq![
            SampleView {
                timestamp: now,
                metric: MetricId::MemUsage,
                value: share((m.total - (if avail > m.total { m.total } else { avail })) as nat, m.total as nat) as i64,
                labels: Seq::empty(),
            },
            SampleView {
                timestamp: now,
                metric: MetricId::MemAvailable,
                value: kb_as_milli_bytes(avail),
                labels: Seq::empty(),
            },
        ]
    } else {
        Seq::empty()
    };
    let swap = if m.swap_total > 0 {
        seq![
            SampleView {
                timestamp: now,
                metric: MetricId::MemSwapUsage,
                value: share((m.swap_total - (if m.swap_free > m.swap_total { m.swap_total } else { m.swap_free })) as nat, m.swap_total as nat) as i64,
                labels: Seq::empty(),
            },
        ]
    } else {
        Seq::empty()
    };
    mem + swap
}

/// Memory and swap usage from `/proc/meminfo`.
pub struct MemoryCollector {
    interval: u64,
}

impl MemoryCollector {
    pub fn new(config: &MemoryCollectorConfig) -> (r: MemoryCollector)
        ensures
            r.interval_spec() == config.interval_secs,
    {
        MemoryCollector { interval: config.interval_secs }
    }

    pub closed spec fn interval_spec(&self) -> u64 {
        self.interval
    }

    pub fn name(&self) -> (r: &'static str)
        ensures
            r@ == "memory"@,
    {
        "memory"
    }

    pub fn interval_secs(&self) -> (r: u64)
        ensures
            r == self.interval_spec(),
    {
        self.interval
    }

    /// Samples from the content of `/proc/meminfo`, taken at `now`.
    pub fn parse_meminfo(&self, content: &[u8], now: i64) -> (r: Vec<MetricSample>)
        ensures
            samples_view(r@) == meminfo_samples(meminfo_lines(lines(content@)), now),
    {
        let m = read_meminfo(content);
        let mut out: Vec<MetricSample> = Vec::new();
        let avail = if m.has_available {
            m.available
        } else {
            m.free.saturating_add(m.buffers).saturating_add(m.cached)
        };
        if m.total > 0 {
            let used = m.total - if avail > m.total { m.total } else { avail };
            out.push(MetricSample::unlabelled(now, MetricId::MemUsage, percent_of(used, m.total)));
            let bytes: i64 = if avail as u128 * 1_024_000 > i64::MAX as u128 {
                i64::MAX
            } else {
                (avail as u128 * 1_024_000) as i64
            };
            out.push(MetricSample::unlabelled(now, MetricId::MemAvailable, bytes));
        }
        if m.swap_total > 0 {
            let used = m.swap_total - if m.swap_free > m.swap_total { m.swap_total } else { m.swap_free };
            out.push(
                MetricSample::unlabelled(now, MetricId::MemSwapUsage, percent_of(used, m.swap_total)),
            );
        }
        assert(samples_view(out@) =~= meminfo_samples(m, now));
        out
    }
}

/// `part` (at most `whole`) in thousandths of a percent of `whole`.
fn percent_of(part: u64, whole: u64) -> (r: i64)
    requires
        whole > 0,
        part <= whole,
    ensures
        r == share(part as nat, whole as nat),
{
    assert(0 <= 100_000 * (part as int) / (whole as int) <= 100_000) by (nonlinear_arith)
        requires
            part <= whole,
            whole > 0,
    ;
    ((100_000u128 * part as u128) / whole as u128) as i64
}

fn read_meminfo(content: &[u8]) -> (r: MemInfo)
    ensures
        r == meminfo_lines(lines(content@)),
{
    let ls = split_lines(content);
    let ghost lsv = bytes_view(ls@);
    let mut m = MemInfo {
        total: 0,
        available: 0,
        free: 0,
        buffers: 0,
        cached: 0,
        swap_total: 0,
        swap_free: 0,
        has_available: false,
    };
    let mut i: usize = 0;
    while i < ls.len()
        invariant
            i <= ls@.len(),
            lsv == bytes_view(ls@),
            m == meminfo_lines(lsv.subrange(0, i as int)),
        decreases ls@.len() - i,
    {
        assert(lsv.subrange(0, i + 1).drop_last() =~= lsv.subrange(0, i as int));
        assert(lsv[i as int] == ls@[i as int]@);
        let ws = split_words(ls[i].as_slice());
        if ws.len() >= 2 {
            let ghost wv = bytes_view(ws@);
            assert(wv[0] == ws@[0]@ && wv[1] == ws@[1]@);
            let v = match parse_u64(ws[1].as_slice()) {
                Some(v) => v,
                None => 0,
            };
            let k = ws[0].as_slice();
            if bytes_equal(k, "MemTotal:".as_bytes()) {
                m.total = v;
            } else if bytes_equal(k, "MemAvailable:".as_bytes()) {
                m.available = v;
                m.has_available = true;
            } else if bytes_equal(k, "MemFree:".as_bytes()) {
                m.free = v;
            } else if bytes_equal(k, "Buffers:".as_bytes()) {
                m.buffers = v;
            } else if bytes_equal(k, "Cached:".as_bytes()) {
                m.cached = v;
            } else if bytes_equal(k, "SwapTotal:".as_bytes()) {
                m.swap_total = v;
            } else if bytes_equal(k, "SwapFree:".as_bytes()) {
                m.swap_free = v;
            }
        }
        i += 1;
    }
    assert(lsv.subrange(0, i as int) =~= lsv);
    m
}

} // verus!
