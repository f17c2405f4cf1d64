use vstd::prelude::*;
use vstd::string::StringExecFns;

use crate::alerter::{parse_severity, severity_named};
use crate::config::{Config, CustomPattern};
use crate::text::{bytes_view, is_space, lines, lossy_text, split_lines, text_of};
use crate::types::{labels_view, Alert, LabelList, MetricId, Severity};

verus! {

/// `regex::Regex`, carried as an opaque value.
#[verifier::external_type_specification]
#[verifier::external_body]
pub struct ExRegex(regex::Regex);

/// `regex::Error`, what a pattern that does not compile gives.
#[verifier::external_type_specification]
#[verifier::external_body]
pub struct ExRegexError(regex::Error);

/// Whether `regex::Regex::new` accepts `pattern` (its syntax, within the
/// default size limit).
pub uninterp spec fn regex_compiles(pattern: Seq<char>) -> bool;

/// Whether the regex of `pattern` matches somewhere in `text`.
pub uninterp spec fn regex_finds(pattern: Seq<char>, text: Seq<char>) -> bool;

/// A pattern together with the regex compiled from it; only `compile`
/// builds one.
pub struct CompiledPattern {
    source: String,
    re: regex::Regex,
}

impl CompiledPattern {
    pub closed spec fn source_view(&self) -> Seq<char> {
        self.source@
    }
}

/// Relies on `regex::Regex::new`: it fails exactly on the patterns it
/// rejects.
#[verifier::external_body]
fn compile(pattern: &str) -> (r: Result<CompiledPattern, regex::Error>)
    ensures
        r is Ok <==> regex_compiles(pattern@),
        r matches Ok(c) ==> c.source_view() == pattern@,
{
    match regex::Regex::new(pattern) {
        Ok(re) => Ok(CompiledPattern { source: pattern.to_string(), re }),
        Err(e) => Err(e),
    }
}

/// Relies on `regex::Regex::is_match`: whether the regex matches anywhere in
/// `text`.
#[verifier::external_body]
fn finds(p: &CompiledPattern, text: &str) -> (r: bool)
    ensures
        r == regex_finds(p.source_view(), text@),
{
    p.re.is_match(text)
}

/// A named kernel-log pattern and the severity of what it finds.
pub struct LogPattern {
    name: String,
    pattern: CompiledPattern,
    severity: Severity,
}

/// Name, pattern text and severity of a log pattern.
pub closed spec fn pattern_view(p: LogPattern) -> (Seq<char>, Seq<char>, Severity) {
    (p.name@, p.pattern.source_view(), p.severity)
}

/// The patterns every agent scans for.
pub open spec fn builtin_patterns() -> Seq<(Seq<char>, Seq<char>, Severity)> {
    seq![
        ("OOM Kill"@, "Out of memory: Killed process (\\d+) \\((.+)\\)"@, Severity::Critical),
        (
            "Hardware Error"@,
            "(?i)(Hardware Error|Machine check|MCE|ECC|EDAC|uncorrectable error)"@,
            Severity::Critical,
        ),
        (
            "Filesystem Error"@,
            "(?i)(EXT4-fs error|XFS.*error|Remounting filesystem read-only|I/O error)"@,
            Severity::Critical,
        ),
        ("Hung Task"@, "task .+ blocked for more than \\d+ seconds"@, Severity::Critical),
        ("Network Down"@, "(?i)(link is not ready|NIC Link is Down|carrier lost)"@, Severity::Warn),
    ]
}

/// Severity of a configured pattern: the one its word names, else Warn.
pub open spec fn custom_severity(word: Seq<char>) -> Severity {
    match severity_named(word) {
        Some(s) => s,
        None => Severity::Warn,
    }
}

pub open spec fn custom_view(c: Seq<CustomPattern>) -> Seq<(Seq<char>, Seq<char>, Severity)> {
    c.map_values(|p: CustomPattern| (p.name@, p.pattern@, custom_severity(p.severity@)))
}

/// All patterns of a configuration: the built-in ones, then the custom
/// ones in order.
pub open spec fn configured_patterns(config: Config) -> Seq<(Seq<char>, Seq<char>, Severity)> {
    builtin_patterns() + custom_view(config.collector.log.custom_patterns@)
}

/// `s` without leading ASCII whitespace.
pub open spec fn trim_start(s: Seq<u8>) -> Seq<u8>
    decreases s.len(),
{
    if s.len() > 0 && is_space(s[0]) {
        trim_start(s.drop_first())
    } else {
        s
    }
}

/// `s` without trailing ASCII whitespace.
pub open spec fn trim_end(s: Seq<u8>) -> Seq<u8>
    decreases s.len(),
{
    if s.len() > 0 && is_space(s.last()) {
        trim_end(s.drop_last())
    } else {
        s
    }
}

/// Severity and message of each pattern that finds something in `line`,
/// in pattern order.
pub open spec fn line_hits(pats: Seq<(Seq<char>, Seq<char>, Severity)>, line: Seq<u8>) -> Seq<
    (Severity, Seq<char>),
>
    decreases pats.len(),
{
    if pats.len() == 0 {
        Seq::empty()
    } else {
        let p = pats.last();
        line_hits(pats.drop_last(), line) + (if regex_finds(p.1, lossy_text(line)) {
            seq![(p.2, p.0 + ": "@ + lossy_text(trim_end(trim_start(line))))]
        } else {
            Seq::empty()
        })
    }
}

/// The hits of every line, line by line.
pub open spec fn log_hits(pats: Seq<(Seq<char>, Seq<char>, Severity)>, ls: Seq<Seq<u8>>) -> Seq<
    (Severity, Seq<char>),
>
    decreases ls.len(),
{
    if ls.len() == 0 {
        Seq::empty()
    } else {
        log_hits(pats, ls.drop_last()) + line_hits(pats, ls.last())
    }
}

pub open spec fn hits_of(alerts: Seq<Alert>) -> Seq<(Severity, Seq<char>)> {
    alerts.map_values(|a: Alert| (a.severity, a.message@))
}

/// `line` without leading or trailing ASCII whitespace.
fn trim(line: &[u8]) -> (r: Vec<u8>)
    ensures
        r@ == trim_end(trim_start(line@)),
{
    let n = line.len();
    let mut start: usize = 0;
    assert(line@.subrange(0, n as int) =~= line@);
    while start < n && (line[start] == 9 || line[start] == 10 || line[start] == 11
        || line[start] == 12 || line[start] == 13 || line[start] == 32)
        invariant
            start <= n == line@.len(),
            trim_start(line@) == trim_start(line@.subrange(start as int, n as int)),
        decreases n - start,
    {
        assert(line@.subrange(start as int, n as int).drop_first() =~= line@.subrange(
            start + 1,
            n as int,
        ));
        start += 1;
    }
    let ghost head = line@.subrange(start as int, n as int);
    assert(trim_start(head) == head);
    let mut end: usize = n;
    assert(head.subrange(0, (end - start) as int) =~= head);
    while end > start && (line[end - 1] == 9 || line[end - 1] == 10 || line[end - 1] == 11
        || line[end - 1] == 12 || line[end - 1] == 13 || line[end - 1] == 32)
        invariant
            start <= end <= n == line@.len(),
            head == line@.subrange(start as int, n as int),
            trim_end(head) == trim_end(line@.subrange(start as int, end as int)),
        decreases end,
    {
        assert(line@.subrange(start as int, end as int).drop_last() =~= line@.subrange(
            start as int,
            end - 1,
        ));
        end -= 1;
    }
    let mut out: Vec<u8> = Vec::new();
    let mut i: usize = start;
    while i < end
        invariant
            start <= i <= end <= line@.len(),
            out@ == line@.subrange(start as int, i as int),
        decreases end - i,
    {
        out.push(line[i]);
        i += 1;
        assert(out@ =~= line@.subrange(start as int, i as int));
    }
    out
}

/// Scans kernel log output for critical events.
pub struct LogAnalyzer {
    patterns: Vec<LogPattern>,
    hostname: String,
}

impl LogAnalyzer {
    pub closed spec fn patterns_view(&self) -> Seq<(Seq<char>, Seq<char>, Severity)> {
        self.patterns@.map_values(|p: LogPattern| pattern_view(p))
    }

    pub closed spec fn host(&self) -> Seq<char> {
        self.hostname@
    }

    /// Compiles the built-in and the configured patterns; fails when one of
    /// them does not compile.
    pub fn new(config: &Config) -> (r: Result<LogAnalyzer, regex::Error>)
        ensures
            r is Ok <==> (forall|i: int|
                0 <= i < configured_patterns(*config).len() ==> regex_compiles(
                    #[trigger] configured_patterns(*config)[i].1,
                )),
            r matches Ok(a) ==> a.patterns_view() == configured_patterns(*config) && a.host()
                == config.agent.hostname@,
    {
        let mut words: Vec<(&str, &str, Severity)> = Vec::new();
        words.push(("OOM Kill", "Out of memory: Killed process (\\d+) \\((.+)\\)", Severity::Critical));
        words.push(
            (
                "Hardware Error",
                "(?i)(Hardware Error|Machine check|MCE|ECC|EDAC|uncorrectable error)",
                Severity::Critical,
            ),
        );
        words.push(
            (
                "Filesystem Error",
                "(?i)(EXT4-fs error|XFS.*error|Remounting filesystem read-only|I/O error)",
                Severity::Critical,
            ),
        );
        words.push(("Hung Task", "task .+ blocked for more than \\d+ seconds", Severity::Critical));
        words.push(
            ("Network Down", "(?i)(link is not ready|NIC Link is Down|carrier lost)", Severity::Warn),
        );
        let ghost all = configured_patterns(*config);
        let ghost builtin = builtin_patterns();
        assert(words@.map_values(|w: (&str, &str, Severity)| (w.0@, w.1@, w.2)) =~= builtin);
        let mut patterns: Vec<LogPattern> = Vec::new();
        let mut i: usize = 0;
        while i < words.len()
            invariant
                i <= words@.len(),
                words@.len() == 5,
                all == configured_patterns(*config),
                builtin == builtin_patterns(),
                words@.map_values(|w: (&str, &str, Severity)| (w.0@, w.1@, w.2)) == builtin,
                patterns@.map_values(|p: LogPattern| pattern_view(p)) == all.subrange(0, i as int),
                forall|j: int| 0 <= j < i ==> regex_compiles(#[trigger] all[j].1),
            decreases words@.len() - i,
        {
            let (name, source, severity) = words[i];
            assert(all[i as int] == builtin[i as int]);
            assert(builtin[i as int] == (name@, source@, severity));
            let pattern = match compile(source) {
                Ok(p) => p,
                Err(e) => {
                    assert(!regex_compiles(all[i as int].1));
                    return Err(e);
                },
            };
            let ghost prev = patterns@.map_values(|p: LogPattern| pattern_view(p));
            patterns.push(
                LogPattern { name: name.to_owned(), pattern, severity },
            );
            assert(patterns@.map_values(|p: LogPattern| pattern_view(p)) =~= prev.push(
                all[i as int],
            ));
            assert(all.subrange(0, i + 1) =~= all.subrange(0, i as int).push(all[i as int]));
            i += 1;
        }
        let custom = &config.collector.log.custom_patterns;
        let ghost cv = custom_view(custom@);
        let mut k: usize = 0;
        while k < custom.len()
            invariant
                k <= custom@.len(),
                all == configured_patterns(*config),
                cv == custom_view(custom@),
                *custom == config.collector.log.custom_patterns,
                all == builtin_patterns() + cv,
                builtin_patterns().len() == 5,
                patterns@.map_values(|p: LogPattern| pattern_view(p)) == all.subrange(0, 5 + k),
                forall|j: int| 0 <= j < 5 + k ==> regex_compiles(#[trigger] all[j].1),
            decreases custom@.len() - k,
        {
            let cp = &custom[k];
            assert(all[5 + k] == cv[k as int]);
            let severity = match parse_severity(cp.severity.as_str()) {
                Some(s) => s,
                None => Severity::Warn,
            };
            let pattern = match compile(cp.pattern.as_str()) {
                Ok(p) => p,
                Err(e) => {
                    assert(!regex_compiles(all[5 + k].1));
                    return Err(e);
                },
            };
            let ghost prev = patterns@.map_values(|p: LogPattern| pattern_view(p));
            patterns.push(
                LogPattern { name: cp.name.clone(), pattern, severity },
            );
            assert(patterns@.map_values(|p: LogPattern| pattern_view(p)) =~= prev.push(
                all[5 + k],
            ));
            assert(all.subrange(0, 5 + k + 1) =~= all.subrange(0, 5 + k).push(all[5 + k]));
            k += 1;
        }
        assert(all.subrange(0, 5 + k) =~= all);
        Ok(LogAnalyzer { patterns, hostname: config.agent.hostname.clone() })
    }

    /// One alert per (line, pattern) match in `output`, line by line and in
    /// pattern order, stamped `now`; the message is the pattern's name and
    /// the trimmed line.
    pub fn scan(&self, output: &[u8], now: i64) -> (r: Vec<Alert>)
        ensures
            hits_of(r@) == log_hits(self.patterns_view(), lines(output@)),
            forall|i: int|
                0 <= i < r@.len() ==> {
                    &&& r@[i].timestamp == now
                    &&& r@[i].metric == MetricId::KernelEntropy
                    &&& r@[i].value == 1000
                    &&& r@[i].threshold is None
                    &&& labels_view(r@[i].labels).len() == 0
                    &&& r@[i].hostname@ == self.host()
                },
    {
        let ls = split_lines(output);
        let ghost lsv = bytes_view(ls@);
        let mut out: Vec<Alert> = Vec::new();
        let mut i: usize = 0;
        while i < ls.len()
            invariant
                i <= ls@.len(),
                lsv == bytes_view(ls@),
                lsv == lines(output@),
                hits_of(out@) == log_hits(self.patterns_view(), lsv.subrange(0, i as int)),
                forall|j: int|
                    0 <= j < out@.len() ==> {
                        &&& out@[j].timestamp == now
                        &&& out@[j].metric == MetricId::KernelEntropy
                        &&& out@[j].value == 1000
                        &&& out@[j].threshold is None
                        &&& labels_view(out@[j].labels).len() == 0
                        &&& out@[j].hostname@ == self.host()
                    },
            decreases ls@.len() - i,
        {
            assert(lsv.subrange(0, i + 1).drop_last() =~= lsv.subrange(0, i as int));
            assert(lsv[i as int] == ls@[i as int]@);
            self.scan_line(ls[i].as_slice(), now, &mut out);
            i += 1;
        }
        assert(lsv.subrange(0, i as int) =~= lsv);
        out
    }

    fn scan_line(&self, line: &[u8], now: i64, out: &mut Vec<Alert>)
        ensures
            hits_of(final(out)@) == hits_of(old(out)@) + line_hits(self.patterns_view(), line@),
            final(out)@.len() >= old(out)@.len(),
            forall|j: int| 0 <= j < old(out)@.len() ==> final(out)@[j] == old(out)@[j],
            forall|j: int|
                old(out)@.len() <= j < final(out)@.len() ==> {
                    &&& final(out)@[j].timestamp == now
                    &&& final(out)@[j].metric == MetricId::KernelEntropy
                    &&& final(out)@[j].value == 1000
                    &&& final(out)@[j].threshold is None
                    &&& labels_view(final(out)@[j].labels).len() == 0
                    &&& final(out)@[j].hostname@ == self.host()
                },
    {
        let text = text_of(line);
        let trimmed = text_of(trim(line).as_slice());
        let ghost pv = self.patterns_view();
        let ghost base = hits_of(out@);
        let ghost out0 = out@;
        let mut k: usize = 0;
        while k < self.patterns.len()
            invariant
                k <= self.patterns@.len(),
                pv == self.patterns_view(),
                text@ == lossy_text(line@),
                trimmed@ == lossy_text(trim_end(trim_start(line@))),
                hits_of(out@) == base + line_hits(pv.subrange(0, k as int), line@),
                base == hits_of(out0),
                out@.len() >= out0.len(),
                forall|j: int| 0 <= j < out0.len() ==> out@[j] == out0[j],
                forall|j: int|
                    out0.len() <= j < out@.len() ==> {
                        &&& out@[j].timestamp == now
                        &&& out@[j].metric == MetricId::KernelEntropy
                        &&& out@[j].value == 1000
                        &&& out@[j].threshold is None
                        &&& labels_view(out@[j].labels).len() == 0
                        &&& out@[j].hostname@ == self.host()
                    },
            decreases self.patterns@.len() - k,
        {
            let p = &self.patterns[k];
            assert(pv[k as int] == pattern_view(*p));
            assert(pv.subrange(0, k + 1).drop_last() =~= pv.subrange(0, k as int));
            let ghost before = hits_of(out@);
            if finds(&p.pattern, text.as_str()) {
                let mut message = p.name.clone();
                message.append(": ");
                message.append(trimmed.as_str());
                let ghost hit = (p.severity, message@);
                out.push(
                    Alert {
                        timestamp: now,
                        severity: p.severity,
                        metric: MetricId::KernelEntropy,
                        value: 1000,
                        threshold: None,
                        message,
                        labels: LabelList::new(),
                        hostname: self.hostname.clone(),
                    },
                );
                assert(hits_of(out@) =~= before.push(hit));
            }
            k += 1;
        }
        assert(pv.subrange(0, k as int) =~= pv);
    }
}

} // verus!
