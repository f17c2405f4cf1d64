use vstd::prelude::*;

use crate::config::NetworkCollectorConfig;
use crate::ring::samples_view;
use crate::text::{
    bytes_equal, bytes_view, lines, lossy_text, parse_u64, parsed_u64, split_lines, split_words,
    text_of, utf8, words,
};
use crate::types::{labels_view, Label, LabelList, MetricId, MetricSample, SampleView};

verus! {

/// The counter at word `i`, or zero where it is not a number.
pub open spec fn counter_at(ws: Seq<Seq<u8>>, i: int) -> u64 {
    match parsed_u64(ws[i]) {
        Some(v) => v,
        None => 0,
    }
}

/// `s` without its trailing colons.
pub open spec fn trim_colons(s: Seq<u8>) -> Seq<u8>
    decreases s.len(),
{
    if s.len() > 0 && s.last() == 58 {
        trim_colons(s.drop_last())
    } else {
        s
    }
}

/// Position of the entry for `name`, searching from the newest.
pub open spec fn position(prev: Seq<(Seq<u8>, u64, u64)>, name: Seq<u8>) -> Option<int>
    decreases prev.len(),
{
    if prev.len() == 0 {
        None
    } else if prev.last().0 == name {
        Some(prev.len() - 1)
    } else {
        position(prev.drop_last(), name)
    }
}

proof fn lemma_position(prev: Seq<(Seq<u8>, u64, u64)>, name: Seq<u8>)
    ensures
        position(prev, name) matches Some(i) ==> 0 <= i < prev.len() && prev[i].0 == name,
    decreases prev.len(),
{
    if prev.len() > 0 && prev.last().0 != name {
        lemma_position(prev.drop_last(), name);
    }
}

/// The previous (rx, tx) byte counters recorded for `name`, if any.
pub open spec fn lookup(prev: Seq<(Seq<u8>, u64, u64)>, name: Seq<u8>) -> Option<(u64, u64)> {
    match position(prev, name) {
        Some(i) => Some((prev[i].1, prev[i].2)),
        None => None,
    }
}

/// `prev` with the counters of `name` set to `(rx, tx)`.
pub open spec fn record(prev: Seq<(Seq<u8>, u64, u64)>, name: Seq<u8>, rx: u64, tx: u64) -> Seq<
    (Seq<u8>, u64, u64),
> {
    match position(prev, name) {
        Some(i) => prev.update(i, (name, rx, tx)),
        None => prev.push((name, rx, tx)),
    }
}

/// `count` thousandths, capped at the largest `i64`.
pub open spec fn milli(count: int) -> i64 {
    if count * 1000 > i64::MAX {
        i64::MAX
    } else {
        (count * 1000) as i64
    }
}

/// A byte rate in thousandths of a byte per second over `interval`
/// seconds (a zero interval counts as one second), capped.
pub open spec fn rate_milli(delta: nat, interval: u64) -> i64 {
    let secs: int = if interval == 0 {
        1
    } else {
        interval as int
    };
    let r = (delta as int) * 1000 / secs;
    if r > i64::MAX {
        i64::MAX
    } else {
        r as i64
    }
}

pub open spec fn sat_delta(now: u64, before: u64) -> nat {
    if now > before {
        (now - before) as nat
    } else {
        0
    }
}

pub open spec fn iface_sample(now: i64, m: MetricId, v: i64, name: Seq<u8>) -> SampleView {
    SampleView {
        timestamp: now,
        metric: m,
        value: v,
        labels: seq![("interface"@, lossy_text(name))],
    }
}

pub open spec fn excluded(exclude: Seq<Seq<char>>, name: Seq<u8>) -> bool {
    exists|i: int| 0 <= i < exclude.len() && utf8(#[trigger] exclude[i]) == name
}

/// One interface line of `/proc/net/dev`, compared with the previous
/// call's counters `base`: the samples it gives, and the counters read are
/// appended to `ups`. Lines with fewer than 17 words and excluded
/// interfaces give nothing and read nothing.
pub open spec fn dev_line(
    base: Seq<(Seq<u8>, u64, u64)>,
    ups: Seq<(Seq<u8>, u64, u64)>,
    line: Seq<u8>,
    exclude: Seq<Seq<char>>,
    interval: u64,
    now: i64,
) -> (Seq<(Seq<u8>, u64, u64)>, Seq<SampleView>) {
    let ws = words(line);
    if ws.len() < 17 {
        (ups, Seq::empty())
    } else {
        let name = trim_colons(ws[0]);
        if excluded(exclude, name) {
            (ups, Seq::empty())
        } else {
            let rx = counter_at(ws, 1);
            let tx = counter_at(ws, 9);
            let rx_err = counter_at(ws, 3);
            let tx_err = counter_at(ws, 11);
            let rates = match lookup(base, name) {
                Some((prx, ptx)) => seq![
                    iface_sample(now, MetricId::NetRxRate, rate_milli(sat_delta(rx, prx), interval), name),
                    iface_sample(now, MetricId::NetTxRate, rate_milli(sat_delta(tx, ptx), interval), name),
                ],
                None => Seq::empty(),
            };
            let rx_e = if rx_err > 0 {
                seq![iface_sample(now, MetricId::NetRxErrors, milli(rx_err as int), name)]
            } else {
                Seq::empty()
            };
            let tx_e = if tx_err > 0 {
                seq![iface_sample(now, MetricId::NetTxErrors, milli(tx_err as int), name)]
            } else {
                Seq::empty()
            };
            (ups.push((name, rx, tx)), rates + rx_e + tx_e)
        }
    }
}

pub open spec fn dev_lines(
    base: Seq<(Seq<u8>, u64, u64)>,
    ls: Seq<Seq<u8>>,
    exclude: Seq<Seq<char>>,
    interval: u64,
    now: i64,
) -> (Seq<(Seq<u8>, u64, u64)>, Seq<SampleView>)
    decreases ls.len(),
{
    if ls.len() == 0 {
        (Seq::empty(), Seq::empty())
    } else {
        let (u, out) = dev_lines(base, ls.drop_last(), exclude, interval, now);
        let (u2, more) = dev_line(base, u, ls.last(), exclude, interval, now);
        (u2, out + more)
    }
}

/// The counters kept for the next call: `prev` with each reading of `ups`
/// recorded in turn.
pub open spec fn apply_records(prev: Seq<(Seq<u8>, u64, u64)>, ups: Seq<(Seq<u8>, u64, u64)>) -> Seq<
    (Seq<u8>, u64, u64),
>
    decreases ups.len(),
{
    if ups.len() == 0 {
        prev
    } else {
        let p = apply_records(prev, ups.drop_last());
        record(p, ups.last().0, ups.last().1, ups.last().2)
    }
}

pub open spec fn is_rate(m: MetricId) -> bool {
    m == MetricId::NetRxRate || m == MetricId::NetTxRate
}

/// Without counters from a previous call, a snapshot yields no rate.
pub proof fn lemma_first_snapshot_has_no_rates(
    ls: Seq<Seq<u8>>,
    exclude: Seq<Seq<char>>,
    interval: u64,
    now: i64,
)
    ensures
        forall|i: int|
            0 <= i < dev_lines(Seq::empty(), ls, exclude, interval, now).1.len() ==> !is_rate(
                #[trigger] dev_lines(Seq::empty(), ls, exclude, interval, now).1[i].metric,
            ),
    decreases ls.len(),
{
    if ls.len() > 0 {
        lemma_first_snapshot_has_no_rates(ls.drop_last(), exclude, interval, now);
        let (u, out) = dev_lines(Seq::empty(), ls.drop_last(), exclude, interval, now);
        let (u2, more) = dev_line(Seq::empty(), u, ls.last(), exclude, interval, now);
        let ws = words(ls.last());
        if ws.len() >= 17 {
            assert(lookup(Seq::empty(), trim_colons(ws[0])) is None);
        }
        assert forall|i: int| 0 <= i < more.len() implies !is_rate(#[trigger] more[i].metric) by {}
        let all = out + more;
        assert forall|i: int| 0 <= i < all.len() implies !is_rate(#[trigger] all[i].metric) by {
            if i >= out.len() {
                assert(all[i] == more[i - out.len()]);
            }
        }
    }
}

/// The interface lines of `/proc/net/dev`: all but the two header lines.
pub open spec fn interface_lines(content: Seq<u8>) -> Seq<Seq<u8>> {
    let ls = lines(content);
    if ls.len() <= 2 {
        Seq::empty()
    } else {
        ls.subrange(2, ls.len() as int)
    }
}

pub open spec fn names_view(v: Seq<String>) -> Seq<Seq<char>> {
    v.map_values(|s: String| s@)
}

/// Per-interface byte rates and error counters from `/proc/net/dev`.
pub struct NetworkCollector {
    interval: u64,
    exclude_interfaces: Vec<String>,
    prev_values: Vec<(Vec<u8>, u64, u64)>,
}

impl NetworkCollector {
    pub closed spec fn interval_spec(&self) -> u64 {
        self.interval
    }

    pub closed spec fn excluded_names(&self) -> Seq<Seq<char>> {
        names_view(self.exclude_interfaces@)
    }

    /// Counters of the previous calls, latest record of a name last.
    pub closed spec fn previous(&self) -> Seq<(Seq<u8>, u64, u64)> {
        self.prev_values@.map_values(|e: (Vec<u8>, u64, u64)| (e.0@, e.1, e.2))
    }

    pub fn new(config: &NetworkCollectorConfig) -> (r: NetworkCollector)
        ensures
            r.interval_spec() == config.interval_secs,
            r.excluded_names() == names_view(config.exclude_interfaces@),
            r.previous().len() == 0,
    {
        let r = NetworkCollector {
            interval: config.interval_secs,
            exclude_interfaces: clone_names(&config.exclude_interfaces),
            prev_values: Vec::new(),
        };
        assert(r.previous() =~= Seq::empty());
        r
    }

    pub fn name(&self) -> (r: &'static str)
        ensures
            r@ == "network"@,
    {
        "network"
    }

    pub fn interval_secs(&self) -> (r: u64)
        ensures
            r == self.interval_spec(),
    {
        self.interval
    }

    /// Samples from the content of `/proc/net/dev`, taken at `now`, each
    /// interface compared with the previous call's counters; the counters
    /// read are kept for the next call.
    pub fn parse_dev(&mut self, content: &[u8], now: i64) -> (r: Vec<MetricSample>)
        ensures
            ({
                let (ups, out) = dev_lines(
                    old(self).previous(),
                    interface_lines(content@),
                    old(self).excluded_names(),
                    old(self).interval_spec(),
                    now,
                );
                &&& samples_view(r@) == out
                &&& final(self).previous() == apply_records(old(self).previous(), ups)
                &&& final(self).excluded_names() == old(self).excluded_names()
                &&& final(self).interval_spec() == old(self).interval_spec()
            }),
            // rates start on the second call
            old(self).previous().len() == 0 ==> forall|i: int|
                0 <= i < r@.len() ==> !is_rate(#[trigger] r@[i].metric),
    {
        let ls = split_lines(content);
        let ghost all = bytes_view(ls@);
        let ghost lsv = interface_lines(content@);
        let ghost p0 = self.previous();
        let mut out: Vec<MetricSample> = Vec::new();
        let mut updates: Vec<(Vec<u8>, u64, u64)> = Vec::new();
        if ls.len() <= 2 {
            assert(samples_view(out@) =~= Seq::empty());
            assert(records_view(updates@) =~= Seq::empty());
            return out;
        }
        assert(lsv =~= all.subrange(2, all.len() as int));
        let mut i: usize = 2;
        while i < ls.len()
            invariant
                2 <= i <= ls@.len(),
                all == bytes_view(ls@),
                lsv == all.subrange(2, all.len() as int),
                self.interval == old(self).interval,
                self.exclude_interfaces@ == old(self).exclude_interfaces@,
                self.prev_values@ == old(self).prev_values@,
                p0 == old(self).previous(),
                ({
                    let (u, o) = dev_lines(
                        p0,
                        lsv.subrange(0, i - 2),
                        self.excluded_names(),
                        self.interval,
                        now,
                    );
                    &&& u == records_view(updates@)
                    &&& o == samples_view(out@)
                }),
            decreases ls@.len() - i,
        {
            assert(lsv.subrange(0, i - 1).drop_last() =~= lsv.subrange(0, i - 2));
            assert(lsv.subrange(0, i - 1).last() == ls@[i as int]@);
            self.scan_line(ls[i].as_slice(), now, &mut updates, &mut out);
            i += 1;
        }
        assert(lsv.subrange(0, i - 2) =~= lsv);
        let ghost ups = records_view(updates@);
        let mut k: usize = 0;
        while k < updates.len()
            invariant
                k <= updates@.len(),
                ups == records_view(updates@),
                self.previous() == apply_records(p0, ups.subrange(0, k as int)),
                p0 == old(self).previous(),
                lsv == interface_lines(content@),
                samples_view(out@) == dev_lines(p0, lsv, old(self).excluded_names(), old(self).interval, now).1,
                self.interval == old(self).interval,
                self.exclude_interfaces@ == old(self).exclude_interfaces@,
            decreases updates@.len() - k,
        {
            assert(ups.subrange(0, k + 1).drop_last() =~= ups.subrange(0, k as int));
            let name = copy_bytes(&updates[k].0);
            let rx = updates[k].1;
            let tx = updates[k].2;
            assert(ups[k as int] == (name@, rx, tx));
            self.store(name, rx, tx);
            k += 1;
        }
        assert(ups.subrange(0, k as int) =~= ups);
        proof {
            if p0.len() == 0 {
                assert(p0 =~= Seq::empty());
                lemma_first_snapshot_has_no_rates(lsv, old(self).excluded_names(), old(self).interval, now);
                assert forall|i: int| 0 <= i < out@.len() implies !is_rate(#[trigger] out@[i].metric) by {
                    assert(samples_view(out@)[i].metric == out@[i].metric);
                }
            }
        }
        out
    }

    /// Records the counters of one interface.
    fn store(&mut self, name: Vec<u8>, rx: u64, tx: u64)
        ensures
            final(self).previous() == record(old(self).previous(), name@, rx, tx),
            final(self).interval == old(self).interval,
            final(self).exclude_interfaces@ == old(self).exclude_interfaces@,
    {
        let at = self.find(name.as_slice());
        proof {
            lemma_position(self.previous(), name@);
        }
        let ghost nm = name@;
        let ghost pv = self.previous();
        match at {
            Some(k) => {
                self.prev_values.set(k, (name, rx, tx));
            },
            None => {
                self.prev_values.push((name, rx, tx));
            },
        }
        assert(self.previous() =~= record(pv, nm, rx, tx));
    }

    fn is_excluded(&self, name: &[u8]) -> (r: bool)
        ensures
            r == excluded(self.excluded_names(), name@),
    {
        let mut i: usize = 0;
        while i < self.exclude_interfaces.len()
            invariant
                i <= self.exclude_interfaces@.len(),
                forall|j: int|
                    0 <= j < i ==> utf8(#[trigger] self.excluded_names()[j]) != name@,
            decreases self.exclude_interfaces@.len() - i,
        {
            let e = self.exclude_interfaces[i].as_str().as_bytes();
            assert(self.excluded_names()[i as int] == self.exclude_interfaces@[i as int]@);
            if bytes_equal(e, name) {
                return true;
            }
            i += 1;
        }
        false
    }

    fn find(&self, name: &[u8]) -> (r: Option<usize>)
        ensures
            r matches Some(i) ==> position(self.previous(), name@) == Some(i as int) && i
                < self.prev_values@.len(),
            r is None ==> position(self.previous(), name@) is None,
    {
        let ghost pv = self.previous();
        let mut i: usize = self.prev_values.len();
        assert(pv.subrange(0, i as int) =~= pv);
        while i > 0
            invariant
                i <= self.prev_values@.len(),
                pv == self.previous(),
                position(pv, name@) == position(pv.subrange(0, i as int), name@),
            decreases i,
        {
            let e = &self.prev_values[i - 1];
            let ghost sub = pv.subrange(0, i as int);
            assert(sub.last() == pv[i - 1]);
            assert(sub.drop_last() =~= pv.subrange(0, i - 1));
            if bytes_equal(e.0.as_slice(), name) {
                return Some(i - 1);
            }
            i -= 1;
        }
        None
    }

    fn scan_line(
        &self,
        line: &[u8],
        now: i64,
        updates: &mut Vec<(Vec<u8>, u64, u64)>,
        out: &mut Vec<MetricSample>,
    )
        ensures
            ({
                let (u, more) = dev_line(
                    self.previous(),
                    records_view(old(updates)@),
                    line@,
                    self.excluded_names(),
                    self.interval,
                    now,
                );
                &&& records_view(final(updates)@) == u
                &&& samples_view(final(out)@) == samples_view(old(out)@) + more
            }),
    {
        let ghost out0 = samples_view(out@);
        let ghost u0 = records_view(updates@);
        let ws = split_words(line);
        let ghost wv = bytes_view(ws@);
        if ws.len() < 17 {
            assert(samples_view(out@) =~= out0 + Seq::empty());
            return;
        }
        let name = trim_trailing_colons(ws[0].as_slice());
        assert(wv[0] == ws@[0]@);
        if self.is_excluded(name.as_slice()) {
            assert(samples_view(out@) =~= out0 + Seq::empty());
            return;
        }
        let rx = counter(&ws, 1);
        let tx = counter(&ws, 9);
        let rx_err = counter(&ws, 3);
        let tx_err = counter(&ws, 11);
        let at = self.find(name.as_slice());
        proof {
            lemma_position(self.previous(), name@);
        }
        let found = match at {
            Some(k) => Some((self.prev_values[k].1, self.prev_values[k].2)),
            None => None,
        };
        match found {
            Some((prx, ptx)) => {
                let drx = if rx > prx { rx - prx } else { 0 };
                let dtx = if tx > ptx { tx - ptx } else { 0 };
                out.push(self.sample(now, MetricId::NetRxRate, rate(drx, self.interval), &name));
                out.push(self.sample(now, MetricId::NetTxRate, rate(dtx, self.interval), &name));
            },
            None => {},
        }
        if rx_err > 0 {
            out.push(self.sample(now, MetricId::NetRxErrors, capped_milli(rx_err), &name));
        }
        if tx_err > 0 {
            out.push(self.sample(now, MetricId::NetTxErrors, capped_milli(tx_err), &name));
        }
        let ghost nm = name@;
        updates.push((name, rx, tx));
        proof {
            assert(records_view(updates@) =~= u0.push((nm, rx, tx)));
            let (u, more) = dev_line(
                self.previous(),
                u0,
                line@,
                self.excluded_names(),
                self.interval,
                now,
            );
            assert(samples_view(out@) =~= out0 + more);
        }
    }

    fn sample(&self, now: i64, metric: MetricId, value: i64, name: &Vec<u8>) -> (r: MetricSample)
        ensures
            r@ == iface_sample(now, metric, value, name@),
    {
        let mut labels = LabelList::new();
        labels.push(Label { key: "interface".to_owned(), value: text_of(name.as_slice()) });
        let r = MetricSample { timestamp: now, metric, value, labels };
        assert(labels_view(r.labels) =~= seq![("interface"@, lossy_text(name@))]);
        r
    }
}

pub open spec fn records_view(v: Seq<(Vec<u8>, u64, u64)>) -> Seq<(Seq<u8>, u64, u64)> {
    v.map_values(|e: (Vec<u8>, u64, u64)| (e.0@, e.1, e.2))
}

fn copy_bytes(v: &Vec<u8>) -> (r: Vec<u8>)
    ensures
        r@ == v@,
{
    let mut out: Vec<u8> = Vec::new();
    let mut i: usize = 0;
    while i < v.len()
        invariant
            i <= v@.len(),
            out@ == v@.subrange(0, i as int),
        decreases v@.len() - i,
    {
        out.push(v[i]);
        i += 1;
        assert(out@ =~= v@.subrange(0, i as int));
    }
    assert(out@ =~= v@);
    out
}

pub fn clone_names(v: &Vec<String>) -> (r: Vec<String>)
    ensures
        names_view(r@) == names_view(v@),
{
    let mut out: Vec<String> = Vec::new();
    let mut i: usize = 0;
    while i < v.len()
        invariant
            i <= v@.len(),
            out@.len() == i,
            forall|j: int| 0 <= j < i ==> out@[j]@ == v@[j]@,
        decreases v@.len() - i,
    {
        out.push(v[i].clone());
        i += 1;
    }
    assert(names_view(out@) =~= names_view(v@));
    out
}

fn trim_trailing_colons(s: &[u8]) -> (r: Vec<u8>)
    ensures
        r@ == trim_colons(s@),
{
    let mut end: usize = s.len();
    assert(s@.subrange(0, end as int) =~= s@);
    while end > 0 && s[end - 1] == 58
        invariant
            end <= s@.len(),
            trim_colons(s@) == trim_colons(s@.subrange(0, end as int)),
        decreases end,
    {
        assert(s@.subrange(0, end as int).drop_last() =~= s@.subrange(0, end - 1));
        end -= 1;
    }
    let mut out: Vec<u8> = Vec::new();
    let mut i: usize = 0;
    while i < end
        invariant
            i <= end <= s@.len(),
            out@ == s@.subrange(0, i as int),
        decreases end - i,
    {
        out.push(s[i]);
        i += 1;
        assert(out@ =~= s@.subrange(0, i as int));
    }
    let ghost t = s@.subrange(0, end as int);
    assert(!(t.len() > 0 && t.last() == 58));
    out
}

fn counter(ws: &Vec<Vec<u8>>, i: usize) -> (r: u64)
    requires
        i < ws@.len(),
    ensures
        r == counter_at(bytes_view(ws@), i as int),
{
    assert(bytes_view(ws@)[i as int] == ws@[i as int]@);
    match parse_u64(ws[i].as_slice()) {
        Some(v) => v,
        None => 0,
    }
}

fn rate(delta: u64, interval: u64) -> (r: i64)
    ensures
        r == rate_milli(delta as nat, interval),
{
    let secs: u128 = if interval == 0 { 1 } else { interval as u128 };
    let v = (delta as u128 * 1000) / secs;
    if v > i64::MAX as u128 {
        i64::MAX
    } else {
        v as i64
    }
}

fn capped_milli(count: u64) -> (r: i64)
    ensures
        r == milli(count as int),
{
    let v = count as u128 * 1000;
    if v > i64::MAX as u128 {
        i64::MAX
    } else {
        v as i64
    }
}

} // verus!
