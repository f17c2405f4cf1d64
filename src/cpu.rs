use vstd::prelude::*;

use crate::analyzer::present;
use crate::config::CpuCollectorConfig;
use crate::ring::samples_view;
use crate::text::{
    bytes_view, decimal, decimal_text, lines, parse_milli, parse_u64, parsed_milli, parsed_u64,
    split_lines, split_words, words,
};
use crate::types::{labels_view, Label, LabelList, MetricId, MetricSample, SampleView};

verus! {

/// Cumulative jiffy counters of one `cpu` line of `/proc/stat`.
#[derive(Debug, Clone, Copy, PartialEq, Eq, Structural)]
pub struct CpuCounters {
    pub total: u64,
    pub idle: u64,
    pub iowait: u64,
    pub steal: u64,
}

/// `a + b`, or `u64::MAX` where the sum does not fit.
pub open spec fn capped(x: int) -> u64 {
    if x > u64::MAX {
        u64::MAX
    } else {
        x as u64
    }
}

pub open spec fn sum_u64(f: Seq<u64>) -> int
    decreases f.len(),
{
    if f.len() == 0 {
        0
    } else {
        sum_u64(f.drop_last()) + f.last()
    }
}

/// Counters of a line whose numeric fields are `f` (at least seven):
/// total is their sum, idle is idle + iowait, steal is the eighth field if
/// any. Sums that do not fit in 64 bits are capped.
pub open spec fn counters_of(f: Seq<u64>) -> CpuCounters {
    CpuCounters {
        total: capped(sum_u64(f)),
        idle: capped(f[3] + f[4]),
        iowait: f[4],
        steal: if f.len() > 7 {
            f[7]
        } else {
            0
        },
    }
}

/// The numbers among the words after the first, in order; words that are
/// not numbers are skipped.
pub open spec fn line_numbers(line: Seq<u8>) -> Seq<u64> {
    let ws = words(line);
    if ws.len() == 0 {
        Seq::empty()
    } else {
        present(ws.drop_first().map_values(|w: Seq<u8>| parsed_u64(w)))
    }
}

/// Lines that start with `cpu`.
pub open spec fn is_cpu_line(line: Seq<u8>) -> bool {
    line.len() >= 3 && line[0] == 99 && line[1] == 112 && line[2] == 117
}

/// The aggregate line starts with `cpu ` (a space after the prefix).
pub open spec fn is_total_line(line: Seq<u8>) -> bool {
    line.len() >= 4 && is_cpu_line(line) && line[3] == 32
}

/// Increase of a counter, or zero where it went down.
pub open spec fn delta(now: u64, before: u64) -> nat {
    if now > before {
        (now - before) as nat
    } else {
        0
    }
}

/// `part` as thousandths of a percent of `whole` (positive), with `part`
/// capped at `whole`, truncated.
pub open spec fn share(part: nat, whole: nat) -> int {
    let p = if part > whole {
        whole
    } else {
        part
    };
    (100_000 * (p as int)) / (whole as int)
}

/// CPU usage in thousandths of a percent between two snapshots of one line:
/// `100 × (1 − Δidle / Δtotal)`, idle time capped at the elapsed total.
pub open spec fn cpu_usage(prev: CpuCounters, cur: CpuCounters) -> int {
    let dt = delta(cur.total, prev.total);
    let di = delta(cur.idle, prev.idle);
    share((dt - (if di > dt {
        dt
    } else {
        di
    })) as nat, dt)
}

/// What a scan of one `/proc/stat` snapshot has built so far: the counters
/// of each slot it has read (slot 0 the aggregate, slot k + 1 core k), in
/// the order read, the slot of the next core line and the samples emitted.
pub struct CpuScan {
    pub updates: Seq<(nat, CpuCounters)>,
    pub core: nat,
    pub out: Seq<SampleView>,
}

/// Whether the snapshot already gave counters for `slot`.
pub open spec fn updated(ups: Seq<(nat, CpuCounters)>, slot: nat) -> bool {
    exists|j: int| 0 <= j < ups.len() && #[trigger] ups[j].0 == slot
}

/// The previous call's counters of `slot`, if any.
pub open spec fn base_at(base: Seq<Option<CpuCounters>>, slot: nat) -> Option<CpuCounters> {
    if slot < base.len() {
        base[slot as int]
    } else {
        None
    }
}

/// The counters kept for the next call: those of the previous call, with
/// each slot the snapshot read set to what it read.
pub open spec fn apply_updates(base: Seq<Option<CpuCounters>>, ups: Seq<(nat, CpuCounters)>) -> Seq<
    Option<CpuCounters>,
>
    decreases ups.len(),
{
    if ups.len() == 0 {
        base
    } else {
        let b = apply_updates(base, ups.drop_last());
        padded(b, ups.last().0).update(ups.last().0 as int, Some(ups.last().1))
    }
}

pub open spec fn padded(prev: Seq<Option<CpuCounters>>, idx: nat) -> Seq<Option<CpuCounters>> {
    if prev.len() > idx {
        prev
    } else {
        prev + Seq::new((idx + 1 - prev.len()) as nat, |i: int| None::<CpuCounters>)
    }
}

pub open spec fn plain(now: i64, m: MetricId, v: int) -> SampleView {
    SampleView { timestamp: now, metric: m, value: v as i64, labels: Seq::empty() }
}

/// Samples of one `cpu` line given its previous counters.
pub open spec fn line_samples(
    prev: Option<CpuCounters>,
    cur: CpuCounters,
    is_total: bool,
    per_core: bool,
    slot: nat,
    now: i64,
) -> Seq<SampleView> {
    match prev {
        None => Seq::empty(),
        Some(p) => {
            let dt = delta(cur.total, p.total);
            if dt == 0 {
                Seq::empty()
            } else if is_total {
                seq![
                    plain(now, MetricId::CpuUsage, cpu_usage(p, cur)),
                    plain(now, MetricId::CpuIoWait, share(delta(cur.iowait, p.iowait), dt)),
                    plain(now, MetricId::CpuSteal, share(delta(cur.steal, p.steal), dt)),
                ]
            } else if per_core {
                seq![
                    SampleView {
                        timestamp: now,
                        metric: MetricId::CpuUsagePerCore,
                        value: cpu_usage(p, cur) as i64,
                        labels: seq![("core"@, decimal((slot - 1) as nat))],
                    },
                ]
            } else {
                Seq::empty()
            }
        },
    }
}

/// One line of the scan, compared with the previous call's counters
/// `base`. Lines that do not start with `cpu`, or with fewer than seven
/// numbers, change nothing; a slot already read in this snapshot is not
/// read again.
pub open spec fn scan_line(
    base: Seq<Option<CpuCounters>>,
    st: CpuScan,
    line: Seq<u8>,
    per_core: bool,
    now: i64,
) -> CpuScan {
    let f = line_numbers(line);
    if !is_cpu_line(line) || f.len() < 7 {
        st
    } else {
        let is_total = is_total_line(line);
        let slot: nat = if is_total {
            0
        } else {
            st.core
        };
        let core: nat = if is_total {
            1
        } else {
            st.core + 1
        };
        if updated(st.updates, slot) {
            CpuScan { updates: st.updates, core, out: st.out }
        } else {
            let cur = counters_of(f);
            CpuScan {
                updates: st.updates.push((slot, cur)),
                core,
                out: st.out + line_samples(base_at(base, slot), cur, is_total, per_core, slot, now),
            }
        }
    }
}

pub open spec fn scan_lines(
    base: Seq<Option<CpuCounters>>,
    ls: Seq<Seq<u8>>,
    per_core: bool,
    now: i64,
) -> CpuScan
    decreases ls.len(),
{
    if ls.len() == 0 {
        CpuScan { updates: Seq::empty(), core: 1, out: Seq::empty() }
    } else {
        scan_line(base, scan_lines(base, ls.drop_last(), per_core, now), ls.last(), per_core, now)
    }
}

/// Without counters from a previous call, a snapshot yields no sample.
pub proof fn lemma_first_snapshot_is_silent(
    base: Seq<Option<CpuCounters>>,
    ls: Seq<Seq<u8>>,
    per_core: bool,
    now: i64,
)
    requires
        forall|i: int| 0 <= i < base.len() ==> #[trigger] base[i] is None,
    ensures
        scan_lines(base, ls, per_core, now).out.len() == 0,
    decreases ls.len(),
{
    if ls.len() > 0 {
        lemma_first_snapshot_is_silent(base, ls.drop_last(), per_core, now);
        let st = scan_lines(base, ls.drop_last(), per_core, now);
        let line = ls.last();
        if is_cpu_line(line) && line_numbers(line).len() >= 7 {
            let slot: nat = if is_total_line(line) {
                0
            } else {
                st.core
            };
            assert(base_at(base, slot) is None);
            assert(st.out + Seq::<SampleView>::empty() =~= st.out);
        }
    }
}

/// A load-average sample for the word `w`, where it is a number.
pub open spec fn load_sample(w: Seq<u8>, m: MetricId, now: i64) -> Seq<SampleView> {
    match parsed_milli(w) {
        Some(v) => seq![plain(now, m, v as int)],
        None => Seq::empty(),
    }
}

/// The 1, 5 and 15 minute load averages from `/proc/loadavg`, each where
/// it is a number; nothing with fewer than three words.
pub open spec fn loadavg_samples(content: Seq<u8>, now: i64) -> Seq<SampleView> {
    let ws = words(content);
    if ws.len() < 3 {
        Seq::empty()
    } else {
        load_sample(ws[0], MetricId::CpuLoad1m, now) + load_sample(ws[1], MetricId::CpuLoad5m, now)
            + load_sample(ws[2], MetricId::CpuLoad15m, now)
    }
}

/// CPU usage from `/proc/stat`: per-line jiffy deltas since the previous
/// call, load averages come separately.
pub struct CpuCollector {
    interval: u64,
    per_core: bool,
    prev: Vec<Option<CpuCounters>>,
}

impl CpuCollector {
    pub closed spec fn spec_per_core(&self) -> bool {
        self.per_core
    }

    /// Counters of the previous call, by slot.
    pub closed spec fn baseline(&self) -> Seq<Option<CpuCounters>> {
        self.prev@
    }

    pub closed spec fn interval_spec(&self) -> u64 {
        self.interval
    }

    pub fn new(config: &CpuCollectorConfig) -> (r: CpuCollector)
        ensures
            r.interval_spec() == config.interval_secs,
            r.spec_per_core() == config.per_core,
            r.baseline().len() == 0,
    {
        CpuCollector { interval: config.interval_secs, per_core: config.per_core, prev: Vec::new() }
    }

    pub fn name(&self) -> (r: &'static str)
        ensures
            r@ == "cpu"@,
    {
        "cpu"
    }

    pub fn interval_secs(&self) -> (r: u64)
        ensures
            r == self.interval_spec(),
    {
        self.interval
    }

    /// Usage, iowait and steal samples from the content of `/proc/stat`,
    /// taken at `now` (Unix seconds), each line compared with the previous
    /// call's counters; the counters read are kept for the next call.
    pub fn parse_stat(&mut self, content: &[u8], now: i64) -> (r: Vec<MetricSample>)
        ensures
            ({
                let st = scan_lines(old(self).baseline(), lines(content@), old(self).spec_per_core(), now);
                &&& samples_view(r@) == st.out
                &&& final(self).baseline() == apply_updates(old(self).baseline(), st.updates)
                &&& final(self).spec_per_core() == old(self).spec_per_core()
                &&& final(self).interval_spec() == old(self).interval_spec()
            }),
            // the first call after startup has no baseline and yields nothing
            (forall|i: int| 0 <= i < old(self).baseline().len() ==> #[trigger] old(self).baseline()[i] is None)
                ==> r@.len() == 0,
    {
        let ls = split_lines(content);
        let ghost lsv = bytes_view(ls@);
        let ghost base = self.prev@;
        let mut out: Vec<MetricSample> = Vec::new();
        let mut updates: Vec<(usize, CpuCounters)> = Vec::new();
        let mut core: u128 = 1;
        let mut i: usize = 0;
        while i < ls.len()
            invariant
                i <= ls@.len(),
                lsv == bytes_view(ls@),
                lsv == lines(content@),
                base == self.prev@,
                self.prev@ == old(self).prev@,
                self.per_core == old(self).per_core,
                self.interval == old(self).interval,
                1 <= core <= i + 1,
                ({
                    let st = scan_lines(base, lsv.subrange(0, i as int), self.per_core, now);
                    &&& st.updates == ups_view(updates@)
                    &&& st.core == core
                    &&& st.out == samples_view(out@)
                }),
            decreases ls@.len() - i,
        {
            assert(lsv.subrange(0, i + 1).drop_last() =~= lsv.subrange(0, i as int));
            assert(lsv[i as int] == ls@[i as int]@);
            core = self.scan_one(ls[i].as_slice(), core, now, &mut updates, &mut out);
            i += 1;
        }
        assert(lsv.subrange(0, i as int) =~= lsv);
        proof {
            if forall|j: int| 0 <= j < base.len() ==> #[trigger] base[j] is None {
                lemma_first_snapshot_is_silent(base, lsv, self.per_core, now);
                assert(samples_view(out@).len() == out@.len());
            }
        }
        let ghost ups = ups_view(updates@);
        let mut k: usize = 0;
        while k < updates.len()
            invariant
                k <= updates@.len(),
                ups == ups_view(updates@),
                self.prev@ == apply_updates(base, ups.subrange(0, k as int)),
                base == old(self).prev@,
                (forall|j: int| 0 <= j < base.len() ==> #[trigger] base[j] is None) ==> out@.len()
                    == 0,
                self.per_core == old(self).per_core,
                self.interval == old(self).interval,
            decreases updates@.len() - k,
        {
            let (slot, cur) = updates[k];
            assert(ups.subrange(0, k + 1).drop_last() =~= ups.subrange(0, k as int));
            assert(ups[k as int] == (slot as nat, cur));
            let ghost old_prev = self.prev@;
            if self.prev.len() <= slot {
                while self.prev.len() <= slot
                    invariant
                        self.prev@.len() <= slot + 1,
                        self.per_core == old(self).per_core,
                        self.interval == old(self).interval,
                        self.prev@ == old_prev + Seq::new(
                            (self.prev@.len() - old_prev.len()) as nat,
                            |i: int| None::<CpuCounters>,
                        ),
                        old_prev.len() <= self.prev@.len(),
                    decreases slot + 1 - self.prev@.len(),
                {
                    self.prev.push(None);
                    assert(self.prev@ =~= old_prev + Seq::new(
                        (self.prev@.len() - old_prev.len()) as nat,
                        |i: int| None::<CpuCounters>,
                    ));
                }
            }
            assert(self.prev@ =~= padded(old_prev, slot as nat));
            self.prev.set(slot, Some(cur));
            k += 1;
        }
        assert(ups.subrange(0, k as int) =~= ups);
        proof {
            if forall|m: int|
                0 <= m < old(self).baseline().len() ==> #[trigger] old(self).baseline()[m] is None {
                assert forall|j: int| 0 <= j < base.len() implies #[trigger] base[j] is None by {
                    assert(old(self).baseline()[j] is None);
                }
            }
        }
        out
    }

    /// Load-average samples from the content of `/proc/loadavg`, at `now`.
    pub fn parse_loadavg(&self, content: &[u8], now: i64) -> (r: Vec<MetricSample>)
        ensures
            samples_view(r@) == loadavg_samples(content@, now),
    {
        let ws = split_words(content);
        let mut out: Vec<MetricSample> = Vec::new();
        if ws.len() < 3 {
            assert(samples_view(out@) =~= loadavg_samples(content@, now));
            return out;
        }
        let ghost wv = bytes_view(ws@);
        assert(wv[0] == ws@[0]@ && wv[1] == ws@[1]@ && wv[2] == ws@[2]@);
        push_load(ws[0].as_slice(), MetricId::CpuLoad1m, now, &mut out);
        push_load(ws[1].as_slice(), MetricId::CpuLoad5m, now, &mut out);
        push_load(ws[2].as_slice(), MetricId::CpuLoad15m, now, &mut out);
        assert(samples_view(out@) =~= loadavg_samples(content@, now));
        out
    }

    /// Whether `updates` already holds counters for `slot`.
    fn already_read(updates: &Vec<(usize, CpuCounters)>, slot: usize) -> (r: bool)
        ensures
            r == updated(ups_view(updates@), slot as nat),
    {
        let mut j: usize = 0;
        while j < updates.len()
            invariant
                j <= updates@.len(),
                forall|m: int| 0 <= m < j ==> updates@[m].0 != slot,
            decreases updates@.len() - j,
        {
            if updates[j].0 == slot {
                assert(ups_view(updates@)[j as int].0 == slot as nat);
                return true;
            }
            j += 1;
        }
        assert forall|m: int| 0 <= m < ups_view(updates@).len() implies #[trigger] ups_view(
            updates@,
        )[m].0 != slot as nat by {
            assert(ups_view(updates@)[m].0 == updates@[m].0 as nat);
        }
        false
    }

    fn scan_one(
        &self,
        line: &[u8],
        core: u128,
        now: i64,
        updates: &mut Vec<(usize, CpuCounters)>,
        out: &mut Vec<MetricSample>,
    ) -> (r: u128)
        requires
            1 <= core <= usize::MAX,
        ensures
            ({
                let st = scan_line(
                    self.prev@,
                    CpuScan {
                        updates: ups_view(old(updates)@),
                        core: core as nat,
                        out: samples_view(old(out)@),
                    },
                    line@,
                    self.per_core,
                    now,
                );
                &&& st.updates == ups_view(final(updates)@)
                &&& st.core == r
                &&& st.out == samples_view(final(out)@)
                &&& r >= 1
                &&& r <= core + 1
            }),
    {
        if !(line.len() >= 3 && line[0] == 99 && line[1] == 112 && line[2] == 117) {
            return core;
        }
        let ws = split_words(line);
        let f = numbers_after_first(&ws);
        if f.len() < 7 {
            return core;
        }
        let is_total = line.len() >= 4 && line[3] == 32;
        let slot: usize = if is_total { 0 } else { core as usize };
        let next: u128 = if is_total { 1 } else { core + 1 };
        if Self::already_read(updates, slot) {
            return next;
        }
        let cur = counters(&f);
        let before = if slot < self.prev.len() { self.prev[slot] } else { None };
        self.emit(before, cur, is_total, slot, now, out);
        let ghost prev_ups = ups_view(updates@);
        updates.push((slot, cur));
        assert(ups_view(updates@) =~= prev_ups.push((slot as nat, cur)));
        next
    }

    fn emit(
        &self,
        before: Option<CpuCounters>,
        cur: CpuCounters,
        is_total: bool,
        slot: usize,
        now: i64,
        out: &mut Vec<MetricSample>,
    )
        requires
            is_total || slot >= 1,
        ensures
            samples_view(final(out)@) == samples_view(old(out)@) + line_samples(
                before,
                cur,
                is_total,
                self.per_core,
                slot as nat,
                now,
            ),
    {
        let ghost out0 = out@;
        let p = match before {
            Some(p) => p,
            None => {
                assert(samples_view(out@) =~= samples_view(out0) + Seq::empty());
                return;
            },
        };
        let dt = if cur.total > p.total { cur.total - p.total } else { 0 };
        if dt == 0 {
            assert(samples_view(out@) =~= samples_view(out0) + Seq::empty());
            return;
        }
        let di = if cur.idle > p.idle { cur.idle - p.idle } else { 0 };
        let usage = share_of(dt - if di > dt { dt } else { di }, dt);
        if is_total {
            let dio = if cur.iowait > p.iowait { cur.iowait - p.iowait } else { 0 };
            let dst = if cur.steal > p.steal { cur.steal - p.steal } else { 0 };
            out.push(MetricSample::unlabelled(now, MetricId::CpuUsage, usage));
            out.push(MetricSample::unlabelled(now, MetricId::CpuIoWait, share_of(dio, dt)));
            out.push(MetricSample::unlabelled(now, MetricId::CpuSteal, share_of(dst, dt)));
            assert(samples_view(out@) =~= samples_view(out0) + line_samples(
                before,
                cur,
                is_total,
                self.per_core,
                slot as nat,
                now,
            ));
        } else if self.per_core {
            let mut labels = LabelList::new();
            labels.push(Label { key: "core".to_owned(), value: decimal_text((slot - 1) as u64) });
            assert(labels_view(labels) =~= seq![("core"@, decimal((slot - 1) as nat))]);
            out.push(
                MetricSample {
                    timestamp: now,
                    metric: MetricId::CpuUsagePerCore,
                    value: usage,
                    labels,
                },
            );
            assert(samples_view(out@) =~= samples_view(out0) + line_samples(
                before,
                cur,
                is_total,
                self.per_core,
                slot as nat,
                now,
            ));
        } else {
            assert(samples_view(out@) =~= samples_view(out0) + Seq::empty());
        }
    }
}

fn push_load(w: &[u8], m: MetricId, now: i64, out: &mut Vec<MetricSample>)
    ensures
        samples_view(final(out)@) == samples_view(old(out)@) + load_sample(w@, m, now),
{
    let ghost before = samples_view(out@);
    match parse_milli(w) {
        Some(v) => {
            out.push(MetricSample::unlabelled(now, m, v));
        },
        None => {},
    }
    assert(samples_view(out@) =~= before + load_sample(w@, m, now));
}

pub open spec fn ups_view(v: Seq<(usize, CpuCounters)>) -> Seq<(nat, CpuCounters)> {
    v.map_values(|u: (usize, CpuCounters)| (u.0 as nat, u.1))
}

/// `part` in thousandths of a percent of `whole`.
fn share_of(part: u64, whole: u64) -> (r: i64)
    requires
        whole > 0,
    ensures
        r == share(part as nat, whole as nat),
        0 <= r <= 100_000,
{
    let p = if part > whole { whole } else { part };
    assert(100_000 * (p as int) / (whole as int) <= 100_000) by (nonlinear_arith)
        requires
            p <= whole,
            whole > 0,
    ;
    assert(100_000 * (p as int) / (whole as int) >= 0) by (nonlinear_arith)
        requires
            p >= 0,
            whole > 0,
    ;
    ((100_000u128 * p as u128) / whole as u128) as i64
}

/// The numbers among `ws[1..]`, in order.
fn numbers_after_first(ws: &Vec<Vec<u8>>) -> (r: Vec<u64>)
    ensures
        bytes_view(ws@).len() == 0 ==> r@.len() == 0,
        bytes_view(ws@).len() > 0 ==> r@ == present(
            bytes_view(ws@).drop_first().map_values(|w: Seq<u8>| parsed_u64(w)),
        ),
{
    let ghost parsed = if ws@.len() > 0 {
        bytes_view(ws@).drop_first().map_values(|w: Seq<u8>| parsed_u64(w))
    } else {
        Seq::empty()
    };
    let mut out: Vec<u64> = Vec::new();
    if ws.len() == 0 {
        return out;
    }
    let mut i: usize = 1;
    while i < ws.len()
        invariant
            1 <= i <= ws@.len(),
            parsed == bytes_view(ws@).drop_first().map_values(|w: Seq<u8>| parsed_u64(w)),
            out@ == present(parsed.subrange(0, i - 1)),
        decreases ws@.len() - i,
    {
        let v = parse_u64(ws[i].as_slice());
        assert(parsed[i - 1] == parsed_u64(ws@[i as int]@));
        assert(parsed.subrange(0, i as int).drop_last() =~= parsed.subrange(0, i - 1));
        match v {
            Some(x) => out.push(x),
            None => {},
        }
        i += 1;
    }
    assert(parsed.subrange(0, i - 1) =~= parsed);
    out
}

/// Counters of a line with numeric fields `f` (at least seven).
fn counters(f: &Vec<u64>) -> (r: CpuCounters)
    requires
        f@.len() >= 7,
    ensures
        r == counters_of(f@),
{
    let mut total: u64 = 0;
    let mut i: usize = 0;
    while i < f.len()
        invariant
            i <= f@.len(),
            total == capped(sum_u64(f@.subrange(0, i as int))),
            sum_u64(f@.subrange(0, i as int)) >= 0,
        decreases f@.len() - i,
    {
        assert(f@.subrange(0, i + 1).drop_last() =~= f@.subrange(0, i as int));
        total = total.saturating_add(f[i]);
        i += 1;
    }
    assert(f@.subrange(0, i as int) =~= f@);
    CpuCounters {
        total,
        idle: f[3].saturating_add(f[4]),
        iowait: f[4],
        steal: if f.len() > 7 { f[7] } else { 0 },
    }
}

/// CPU usage between two snapshots of a line is between 0 and 100%.
pub proof fn lemma_cpu_usage_in_range(prev: CpuCounters, cur: CpuCounters)
    requires
        delta(cur.total, prev.total) > 0,
    ensures
        0 <= cpu_usage(prev, cur) <= 100_000,
{
    let dt = delta(cur.total, prev.total);
    let di = delta(cur.idle, prev.idle);
    let busy: nat = (dt - (if di > dt {
        dt
    } else {
        di
    })) as nat;
    assert(0 <= 100_000 * (busy as int) / (dt as int) <= 100_000) by (nonlinear_arith)
        requires
            busy <= dt,
            dt > 0,
    ;
}

} // verus!
