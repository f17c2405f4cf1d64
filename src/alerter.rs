use vstd::prelude::*;
use vstd::string::StringExecFns;
use std::collections::HashMap;

use crate::config::{AlertingConfig, DiscordConfig};
use crate::rate_limit::RateLimiter;
use crate::types::{severity_text, str_equal, Alert, MetricId, Severity};

verus! {

broadcast use vstd::std_specs::hash::group_hash_axioms;

/// The delivery endpoints an alert manager fans out to.
#[derive(Debug, Clone, Copy, PartialEq, Eq, Structural)]
pub enum ChannelKind {
    Discord,
    Slack,
    Webhook,
}

impl ChannelKind {
    pub fn name(&self) -> (r: &'static str)
        ensures
            r@ == channel_name(*self),
    {
        match self {
            ChannelKind::Discord => "discord",
            ChannelKind::Slack => "slack",
            ChannelKind::Webhook => "webhook",
        }
    }
}

pub open spec fn channel_name(k: ChannelKind) -> Seq<char> {
    match k {
        ChannelKind::Discord => "discord"@,
        ChannelKind::Slack => "slack"@,
        ChannelKind::Webhook => "webhook"@,
    }
}

/// The severity a lower-case configuration word names, if any.
pub open spec fn severity_named(s: Seq<char>) -> Option<Severity> {
    if s == "info"@ {
        Some(Severity::Info)
    } else if s == "warn"@ {
        Some(Severity::Warn)
    } else if s == "critical"@ {
        Some(Severity::Critical)
    } else if s == "emergency"@ {
        Some(Severity::Emergency)
    } else {
        None
    }
}

pub fn parse_severity(s: &str) -> (r: Option<Severity>)
    ensures
        r == severity_named(s@),
{
    if str_equal(s, "info") {
        Some(Severity::Info)
    } else if str_equal(s, "warn") {
        Some(Severity::Warn)
    } else if str_equal(s, "critical") {
        Some(Severity::Critical)
    } else if str_equal(s, "emergency") {
        Some(Severity::Emergency)
    } else {
        None
    }
}

/// The severities named in a channel's filter, in order; unknown words are
/// skipped.
pub open spec fn filter_of(words: Seq<Seq<char>>) -> Seq<Severity>
    decreases words.len(),
{
    if words.len() == 0 {
        Seq::empty()
    } else {
        let prev = filter_of(words.drop_last());
        match severity_named(words.last()) {
            Some(s) => prev.push(s),
            None => prev,
        }
    }
}

pub fn parse_severity_filter(words: &Vec<String>) -> (r: Vec<Severity>)
    ensures
        r@ == filter_of(words_view(words@)),
{
    let ghost ws = words_view(words@);
    let mut out: Vec<Severity> = Vec::new();
    let mut i: usize = 0;
    while i < words.len()
        invariant
            i <= words.len(),
            ws == words_view(words@),
            out@ == filter_of(ws.subrange(0, i as int)),
        decreases words.len() - i,
    {
        let parsed = parse_severity(words[i].as_str());
        assert(ws.subrange(0, i + 1 as int).drop_last() =~= ws.subrange(0, i as int));
        match parsed {
            Some(s) => out.push(s),
            None => {},
        }
        i += 1;
    }
    assert(ws.subrange(0, i as int) =~= ws);
    out
}

/// A channel accepts every severity when its filter is empty, else only
/// the severities listed.
pub open spec fn accepts(filter: Seq<Severity>, s: Severity) -> bool {
    filter.len() == 0 || filter.contains(s)
}

pub fn accepts_severity(filter: &Vec<Severity>, s: Severity) -> (r: bool)
    ensures
        r == accepts(filter@, s),
{
    if filter.len() == 0 {
        return true;
    }
    let mut i: usize = 0;
    while i < filter.len()
        invariant
            i <= filter.len(),
            forall|j: int| 0 <= j < i ==> filter@[j] != s,
        decreases filter.len() - i,
    {
        if filter[i] == s {
            return true;
        }
        i += 1;
    }
    false
}

/// Display colour of a severity in chat embeds, as a 24-bit RGB value.
pub fn severity_color(s: Severity) -> (r: u32)
    ensures
        r == match s {
            Severity::Info => 0x2ECC71u32,
            Severity::Warn => 0xF39C12u32,
            Severity::Critical => 0xE74C3Cu32,
            Severity::Emergency => 0x9B59B6u32,
        },
{
    match s {
        Severity::Info => 0x2ECC71,
        Severity::Warn => 0xF39C12,
        Severity::Critical => 0xE74C3C,
        Severity::Emergency => 0x9B59B6,
    }
}

/// Colour of a severity in attachment-style payloads, as `#rrggbb`.
pub fn severity_hex_color(s: Severity) -> (r: &'static str)
    ensures
        r@ == match s {
            Severity::Info => "#2ecc71"@,
            Severity::Warn => "#f39c12"@,
            Severity::Critical => "#e74c3c"@,
            Severity::Emergency => "#9b59b6"@,
        },
{
    match s {
        Severity::Info => "#2ecc71",
        Severity::Warn => "#f39c12",
        Severity::Critical => "#e74c3c",
        Severity::Emergency => "#9b59b6",
    }
}

/// Title line of a chat notification: `[SEVERITY] message`.
pub fn alert_title(alert: &Alert) -> (r: String)
    ensures
        r@ == "["@ + severity_text(alert.severity) + "] "@ + alert.message@,
{
    let mut t = String::from_str("[");
    t.append(alert.severity.as_str());
    t.append("] ");
    t.append(alert.message.as_str());
    t
}

/// Sender name of a chat notification: the configured one, else
/// `SysOps Agent`.
pub fn discord_username(config: &DiscordConfig) -> (r: String)
    ensures
        match config.username {
            Some(u) => r@ == u@,
            None => r@ == "SysOps Agent"@,
        },
{
    match &config.username {
        Some(u) => u.clone(),
        None => String::from_str("SysOps Agent"),
    }
}

pub open spec fn words_view(v: Seq<String>) -> Seq<Seq<char>> {
    v.map_values(|w: String| w@)
}

/// The channels an alerting configuration enables, in fan-out order
/// (Discord, Slack, webhook), each with the severities its filter names.
pub open spec fn channel_plan(config: AlertingConfig) -> Seq<(ChannelKind, Seq<Severity>)> {
    (match config.discord {
        Some(d) => if d.enabled {
            seq![(ChannelKind::Discord, filter_of(words_view(d.severity_filter@)))]
        } else {
            Seq::empty()
        },
        None => Seq::empty(),
    }) + (match config.slack {
        Some(c) => if c.enabled {
            seq![(ChannelKind::Slack, filter_of(words_view(c.severity_filter@)))]
        } else {
            Seq::empty()
        },
        None => Seq::empty(),
    }) + (match config.webhook {
        Some(w) => if w.enabled {
            seq![(ChannelKind::Webhook, filter_of(words_view(w.severity_filter@)))]
        } else {
            Seq::empty()
        },
        None => Seq::empty(),
    })
}

pub open spec fn plan_view(v: Seq<(ChannelKind, Vec<Severity>)>) -> Seq<(ChannelKind, Seq<Severity>)> {
    v.map_values(|c: (ChannelKind, Vec<Severity>)| (c.0, c.1@))
}

/// The channels an alerting configuration enables, in fan-out order, each
/// with its severity filter.
pub fn enabled_channels(config: &AlertingConfig) -> (r: Vec<(ChannelKind, Vec<Severity>)>)
    ensures
        plan_view(r@) == channel_plan(*config),
{
    let mut out: Vec<(ChannelKind, Vec<Severity>)> = Vec::new();
    if let Some(d) = &config.discord {
        if d.enabled {
            out.push((ChannelKind::Discord, parse_severity_filter(&d.severity_filter)));
        }
    }
    let ghost a = plan_view(out@);
    if let Some(s) = &config.slack {
        if s.enabled {
            out.push((ChannelKind::Slack, parse_severity_filter(&s.severity_filter)));
        }
    }
    let ghost b = plan_view(out@);
    if let Some(w) = &config.webhook {
        if w.enabled {
            out.push((ChannelKind::Webhook, parse_severity_filter(&w.severity_filter)));
        }
    }
    proof {
        let c = *config;
        let pa = match c.discord {
            Some(d) => if d.enabled {
                seq![(ChannelKind::Discord, filter_of(words_view(d.severity_filter@)))]
            } else {
                Seq::empty()
            },
            None => Seq::empty(),
        };
        let pb = match c.slack {
            Some(x) => if x.enabled {
                seq![(ChannelKind::Slack, filter_of(words_view(x.severity_filter@)))]
            } else {
                Seq::empty()
            },
            None => Seq::empty(),
        };
        assert(a =~= pa);
        assert(b =~= pa + pb);
        assert(plan_view(out@) =~= channel_plan(c));
    }
    out
}

/// Dedup key of a (metric, severity) pair.
pub open spec fn dedup_key(m: MetricId, s: Severity) -> u64 {
    (m.spec_index() * 4 + s.rank()) as u64
}

/// When an alert for a key was last delivered (monotonic milliseconds) and
/// how many alerts for it arrived since.
#[derive(Debug, Clone, Copy, PartialEq, Eq, Structural)]
pub struct DedupEntry {
    pub last_sent: u64,
    pub count: u32,
}

/// Whole seconds from `last` to `now`; none when the clock reads earlier.
pub open spec fn elapsed_secs(last: u64, now: u64) -> int {
    if now > last {
        (now - last) / 1000
    } else {
        0
    }
}

/// What the manager did with one alert.
#[derive(Debug, Clone, PartialEq, Eq)]
pub enum DispatchOutcome {
    /// Dropped: the same (metric, severity) was delivered within the window.
    Suppressed,
    /// Dropped: the token bucket was empty.
    RateLimited,
    /// To be sent to these channels, by position, in order.
    Delivered(Vec<usize>),
}

/// Deduplicates and rate-limits alerts and picks the channels each one
/// goes to. Times are monotonic milliseconds.
pub struct AlertManager {
    channels: Vec<(ChannelKind, Vec<Severity>)>,
    dedup_map: HashMap<u64, DedupEntry>,
    dedup_window_secs: u64,
    rate_limiter: RateLimiter,
}

impl AlertManager {
    pub closed spec fn entries(&self) -> Map<u64, DedupEntry> {
        self.dedup_map@
    }

    pub closed spec fn window(&self) -> u64 {
        self.dedup_window_secs
    }

    pub closed spec fn limiter(&self) -> RateLimiter {
        self.rate_limiter
    }

    /// Each channel with its severity filter, in fan-out order.
    pub closed spec fn plan(&self) -> Seq<(ChannelKind, Seq<Severity>)> {
        plan_view(self.channels@)
    }

    /// Severity filter of each channel, in fan-out order.
    pub open spec fn filters(&self) -> Seq<Seq<Severity>> {
        self.plan().map_values(|c: (ChannelKind, Seq<Severity>)| c.1)
    }

    pub closed spec fn wf(&self) -> bool {
        self.rate_limiter.wf()
    }

    /// An alert is suppressed when it is below Emergency and its key was
    /// delivered less than the window ago.
    pub open spec fn suppresses(&self, m: MetricId, s: Severity, now: u64) -> bool {
        let k = dedup_key(m, s);
        &&& s.rank() < Severity::Emergency.rank()
        &&& self.entries().contains_key(k)
        &&& elapsed_secs(self.entries()[k].last_sent, now) < self.window()
    }

    pub fn new(config: &AlertingConfig, now: u64) -> (r: AlertManager)
        ensures
            r.wf(),
            r.entries() == Map::<u64, DedupEntry>::empty(),
            r.window() == config.dedup_window_secs,
            r.limiter().capacity() == config.rate_limit_per_minute * crate::rate_limit::TOKEN_SCALE,
            r.limiter().level() == r.limiter().capacity(),
            r.limiter().rate() == config.rate_limit_per_minute,
            r.limiter().last() == now,
            r.plan() == channel_plan(*config),
    {
        AlertManager {
            channels: enabled_channels(config),
            dedup_map: HashMap::new(),
            dedup_window_secs: config.dedup_window_secs,
            rate_limiter: RateLimiter::new(config.rate_limit_per_minute, now),
        }
    }

    /// The kind of each channel, in fan-out order.
    pub fn channel_kinds(&self) -> (r: Vec<ChannelKind>)
        ensures
            r@ == self.plan().map_values(|c: (ChannelKind, Seq<Severity>)| c.0),
    {
        let mut out: Vec<ChannelKind> = Vec::new();
        let mut i: usize = 0;
        while i < self.channels.len()
            invariant
                i <= self.channels.len(),
                out@.len() == i,
                forall|j: int| 0 <= j < i ==> out@[j] == self.channels@[j].0,
            decreases self.channels.len() - i,
        {
            out.push(self.channels[i].0);
            i += 1;
        }
        assert(out@ =~= self.plan().map_values(|c: (ChannelKind, Seq<Severity>)| c.0));
        out
    }

    /// How many alerts arrived for the key since its last delivery.
    pub fn dedup_count(&self, metric: MetricId, severity: Severity) -> (r: Option<u32>)
        ensures
            match r {
                Some(c) => self.entries().contains_key(dedup_key(metric, severity)) && c
                    == self.entries()[dedup_key(metric, severity)].count,
                None => !self.entries().contains_key(dedup_key(metric, severity)),
            },
    {
        let key = (metric.index() * 4 + severity.level() as usize) as u64;
        match self.dedup_map.get(&key) {
            Some(e) => Some(e.count),
            None => None,
        }
    }

    /// Positions of the channels that accept `s`, in increasing order.
    fn targets(&self, s: Severity) -> (r: Vec<usize>)
        ensures
            forall|i: int, j: int| 0 <= i < j < r@.len() ==> r@[i] < r@[j],
            forall|i: int| 0 <= i < r@.len() ==> r@[i] < self.filters().len(),
            forall|c: usize|
                c < self.filters().len() ==> (r@.contains(c) <==> accepts(self.filters()[c as int], s)),
    {
        let mut out: Vec<usize> = Vec::new();
        let mut i: usize = 0;
        while i < self.channels.len()
            invariant
                i <= self.channels.len(),
                self.filters().len() == self.channels@.len(),
                forall|a: int, b: int| 0 <= a < b < out@.len() ==> out@[a] < out@[b],
                forall|a: int| 0 <= a < out@.len() ==> out@[a] < i,
                forall|c: usize|
                    c < i ==> (out@.contains(c) <==> accepts(self.filters()[c as int], s)),
            decreases self.channels.len() - i,
        {
            let ok = accepts_severity(&self.channels[i].1, s);
            assert(self.filters()[i as int] == self.channels@[i as int].1@);
            let ghost prev = out@;
            if ok {
                out.push(i);
            }
            proof {
                assert forall|c: usize| c < i + 1 implies (out@.contains(c) <==> accepts(
                    self.filters()[c as int],
                    s,
                )) by {
                    if out@.contains(c) {
                        let k = choose|k: int| 0 <= k < out@.len() && out@[k] == c;
                        if k < prev.len() {
                            assert(prev[k] == c);
                        }
                    }
                    if c < i && prev.contains(c) {
                        let k = choose|k: int| 0 <= k < prev.len() && prev[k] == c;
                        assert(out@[k] == c);
                    }
                    if c == i && ok {
                        assert(out@[prev.len() as int] == c);
                    }
                }
            }
            i += 1;
        }
        out
    }

    /// Applies dedup and rate limit to one alert received at `now`.
    ///
    /// A sub-Emergency alert whose (metric, severity) was delivered less than
    /// the window ago is suppressed and its count goes up. Otherwise a
    /// sub-Emergency alert takes a token, and is dropped if there is none.
    /// Emergency alerts bypass both. A delivered alert goes to every channel
    /// whose filter accepts its severity, and its key is refreshed to `now`
    /// with a count of one.
    pub fn dispatch(&mut self, alert: &Alert, now: u64) -> (r: DispatchOutcome)
        requires
            old(self).wf(),
        ensures
            final(self).wf(),
            final(self).window() == old(self).window(),
            final(self).plan() == old(self).plan(),
            ({
                let k = dedup_key(alert.metric, alert.severity);
                if old(self).suppresses(alert.metric, alert.severity, now) {
                    let e = old(self).entries()[k];
                    &&& r == DispatchOutcome::Suppressed
                    &&& final(self).limiter() == old(self).limiter()
                    &&& final(self).entries() == old(self).entries().insert(
                        k,
                        DedupEntry {
                            last_sent: e.last_sent,
                            count: if e.count < u32::MAX {
                                (e.count + 1) as u32
                            } else {
                                e.count
                            },
                        },
                    )
                } else if alert.severity != Severity::Emergency && !old(self).limiter().grants(
                    now,
                ) {
                    &&& r == DispatchOutcome::RateLimited
                    &&& final(self).limiter() == old(self).limiter().after(now)
                    &&& final(self).entries() == old(self).entries()
                } else {
                    &&& r matches DispatchOutcome::Delivered(ts) && (forall|c: usize|
                        c < old(self).filters().len() ==> (ts@.contains(c) <==> accepts(
                            old(self).filters()[c as int],
                            alert.severity,
                        ))) && (forall|i: int| 0 <= i < ts@.len() ==> ts@[i] < old(
                        self,
                    ).filters().len()) && (forall|i: int, j: int|
                        0 <= i < j < ts@.len() ==> ts@[i] < ts@[j])
                    &&& final(self).limiter() == (if alert.severity == Severity::Emergency {
                        old(self).limiter()
                    } else {
                        old(self).limiter().after(now)
                    })
                    &&& final(self).entries() == old(self).entries().insert(
                        k,
                        DedupEntry { last_sent: now, count: 1 },
                    )
                }
            }),
            // never delivered while its key is cooling, unless Emergency
            old(self).suppresses(alert.metric, alert.severity, now) ==> r
                == DispatchOutcome::Suppressed,
            // Emergency alerts are always delivered
            alert.severity == Severity::Emergency ==> r is Delivered,
            // a delivered sub-Emergency alert takes exactly one token
            alert.severity != Severity::Emergency && r is Delivered ==> final(self).limiter().level()
                == old(self).limiter().refilled(now) - crate::rate_limit::TOKEN_SCALE,
            final(self).limiter().capacity() == old(self).limiter().capacity(),
            final(self).limiter().rate() == old(self).limiter().rate(),
    {
        let key = (alert.metric.index() * 4 + alert.severity.level() as usize) as u64;
        let below_emergency = alert.severity.is_below(&Severity::Emergency);
        proof {
            crate::rate_limit::lemma_after_state(self.rate_limiter, now);
        }
        match self.dedup_map.get(&key) {
            Some(e) => {
                let entry = *e;
                let elapsed = if now > entry.last_sent {
                    (now - entry.last_sent) / 1000
                } else {
                    0
                };
                if elapsed < self.dedup_window_secs && below_emergency {
                    let count = if entry.count < u32::MAX {
                        entry.count + 1
                    } else {
                        entry.count
                    };
                    self.dedup_map.insert(key, DedupEntry { last_sent: entry.last_sent, count });
                    return DispatchOutcome::Suppressed;
                }
            },
            None => {},
        }
        if below_emergency && !self.rate_limiter.try_acquire(now) {
            return DispatchOutcome::RateLimited;
        }
        let targets = self.targets(alert.severity);
        self.dedup_map.insert(key, DedupEntry { last_sent: now, count: 1 });
        DispatchOutcome::Delivered(targets)
    }
}

} // verus!
