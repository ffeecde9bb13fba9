//! Built-in trigger rules deciding when recent activity deserves analysis.
use vstd::prelude::*;
use crate::events::{MemoryPressure, MessageType, Severity};
use crate::logline::LogEvent;
use crate::text::{lower_of, to_lowercase};

verus! {

/// Fires when more than `threshold` errors or faults fall within the last
/// `window_seconds`.
#[derive(Clone, Debug)]
pub struct ErrorFrequencyRule {
    pub threshold: usize,
    pub window_seconds: i64,
    pub severity: Severity,
}

/// Fires when a reading reaches `threshold` memory pressure.
#[derive(Clone, Debug)]
pub struct MemoryPressureRule {
    pub threshold: MemoryPressure,
    pub severity: Severity,
}

/// Fires when an error or fault message mentions a crash keyword, in any
/// letter case.
#[derive(Clone, Debug)]
pub struct CrashDetectionRule {
    pub crash_keywords: Vec<String>,
    pub severity: Severity,
}

/// Counts of events in an analysis context.
#[derive(Clone, Copy, Debug, PartialEq, Eq, Structural)]
pub struct EventSummary {
    pub total_log_events: usize,
    pub total_metrics_events: usize,
    pub total_disk_events: usize,
    pub error_count: usize,
    pub fault_count: usize,
    pub info_count: usize,
    pub debug_count: usize,
}

/// Errors and faults among `events` at or after `cutoff`.
pub open spec fn recent_error_count(events: Seq<LogEvent>, cutoff: int) -> nat
    decreases events.len(),
{
    if events.len() == 0 {
        0
    } else {
        recent_error_count(events.drop_last(), cutoff) + if events.last().timestamp >= cutoff
            && events.last().message_type.is_error_like_spec() {
            1nat
        } else {
            0nat
        }
    }
}

impl ErrorFrequencyRule {
    /// The rule's name.
    pub fn name(&self) -> (r: &'static str)
        ensures
            r@ == "ErrorFrequencyRule"@,
    {
        "ErrorFrequencyRule"
    }

    /// The severity assigned when the rule fires.
    pub fn severity(&self) -> (r: Severity)
        ensures
            r == self.severity,
    {
        self.severity
    }

    pub fn new(threshold: usize, window_seconds: i64, severity: Severity) -> (r: Self)
        ensures
            r.threshold == threshold,
            r.window_seconds == window_seconds,
            r.severity == severity,
    {
        ErrorFrequencyRule { threshold, window_seconds, severity }
    }

    /// Five errors in sixty seconds, a warning.
    pub fn with_defaults() -> (r: Self)
        ensures
            r.threshold == 5,
            r.window_seconds == 60,
            r.severity == Severity::Warning,
    {
        Self::new(5, 60, Severity::Warning)
    }

    /// The earliest timestamp, in milliseconds, inside the window ending at
    /// `now_ms`.
    pub open spec fn cutoff(self, now_ms: i64) -> int {
        now_ms - self.window_seconds * 1000
    }

    /// Whether more than `threshold` errors or faults fall inside the window
    /// ending at `now_ms` (milliseconds since the Unix epoch).
    pub fn evaluate(&self, log_events: &[LogEvent], now_ms: i64) -> (r: bool)
        ensures
            r == (recent_error_count(log_events@, self.cutoff(now_ms)) > self.threshold),
    {
        let ghost cutoff = self.cutoff(now_ms);
        let wide_cutoff: i128 = now_ms as i128 - (self.window_seconds as i128) * 1000;
        let mut count: usize = 0;
        let mut i: usize = 0;
        while i < log_events.len()
            invariant
                0 <= i <= log_events@.len(),
                wide_cutoff == cutoff,
                count == recent_error_count(log_events@.subrange(0, i as int), cutoff),
                count <= i,
            decreases log_events@.len() - i,
        {
            assert(log_events@.subrange(0, i + 1).drop_last() =~= log_events@.subrange(0, i as int));
            let e = &log_events[i];
            if e.timestamp as i128 >= wide_cutoff && e.message_type.is_error_like() {
                count = count + 1;
            }
            i = i + 1;
        }
        assert(log_events@.subrange(0, log_events@.len() as int) =~= log_events@);
        count > self.threshold
    }
}

impl MemoryPressureRule {
    /// The rule's name.
    pub fn name(&self) -> (r: &'static str)
        ensures
            r@ == "MemoryPressureRule"@,
    {
        "MemoryPressureRule"
    }

    /// The severity assigned when the rule fires.
    pub fn severity(&self) -> (r: Severity)
        ensures
            r == self.severity,
    {
        self.severity
    }

    pub fn new(threshold: MemoryPressure, severity: Severity) -> (r: Self)
        ensures
            r.threshold == threshold,
            r.severity == severity,
    {
        MemoryPressureRule { threshold, severity }
    }

    /// Warning pressure, a warning.
    pub fn with_defaults() -> (r: Self)
        ensures
            r.threshold == MemoryPressure::Warning,
            r.severity == Severity::Warning,
    {
        Self::new(MemoryPressure::Warning, Severity::Warning)
    }

    /// Critical pressure, a critical alert.
    pub fn critical() -> (r: Self)
        ensures
            r.threshold == MemoryPressure::Critical,
            r.severity == Severity::Critical,
    {
        Self::new(MemoryPressure::Critical, Severity::Critical)
    }

    /// Whether any reading reaches the threshold.
    pub fn evaluate(&self, readings: &[MemoryPressure]) -> (r: bool)
        ensures
            r == exists|i: int|
                0 <= i < readings@.len() && #[trigger] readings@[i].rank() >= self.threshold.rank(),
    {
        let mut i: usize = 0;
        while i < readings.len()
            invariant
                0 <= i <= readings@.len(),
                forall|k: int| 0 <= k < i ==> #[trigger] readings@[k].rank() < self.threshold.rank(),
            decreases readings@.len() - i,
        {
            if readings[i].at_least(self.threshold) {
                return true;
            }
            i = i + 1;
        }
        false
    }
}

/// Whether `needle` occurs in `hay` at position `i`.
pub open spec fn occurs_at(hay: Seq<char>, needle: Seq<char>, i: int) -> bool {
    0 <= i && i + needle.len() <= hay.len() && hay.subrange(i, i + needle.len()) == needle
}

pub open spec fn contains_spec(hay: Seq<char>, needle: Seq<char>) -> bool {
    exists|i: int| occurs_at(hay, needle, i)
}

/// Whether `needle` occurs in `hay`.
pub fn contains(hay: &str, needle: &str) -> (r: bool)
    ensures
        r == contains_spec(hay@, needle@),
{
    let n = hay.unicode_len();
    let m = needle.unicode_len();
    if m > n {
        return false;
    }
    let mut i: usize = 0;
    while i <= n - m
        invariant
            n == hay@.len(),
            m == needle@.len(),
            m <= n,
            0 <= i <= n - m + 1,
            forall|k: int| 0 <= k < i ==> !#[trigger] occurs_at(hay@, needle@, k),
        decreases n - m + 1 - i,
    {
        let mut j: usize = 0;
        let mut same = true;
        while j < m && same
            invariant
                n == hay@.len(),
                m == needle@.len(),
                i + m <= n,
                0 <= j <= m,
                same ==> forall|t: int| 0 <= t < j ==> hay@[i + t] == needle@[t],
                !same ==> exists|t: int| 0 <= t < m && hay@[i + t] != needle@[t],
            decreases m - j + if same { 1int } else { 0int },
        {
            if hay.get_char(i + j) != needle.get_char(j) {
                same = false;
            } else {
                j = j + 1;
            }
        }
        if same {
            assert(hay@.subrange(i as int, i + m) =~= needle@);
            assert(occurs_at(hay@, needle@, i as int));
            return true;
        }
        proof {
            let t = choose|t: int| 0 <= t < m && hay@[i + t] != needle@[t];
            assert(hay@.subrange(i as int, i + m)[t] == hay@[i + t]);
        }
        i = i + 1;
    }
    assert forall|k: int| !occurs_at(hay@, needle@, k) by {
        if 0 <= k && k + m <= n {
            assert(k < i);
        }
    }
    false
}

/// Whether a message mentions one of `keywords`, both lower-cased.
pub open spec fn mentions_any(message: Seq<char>, keywords: Seq<String>) -> bool {
    exists|k: int|
        0 <= k < keywords.len() && contains_spec(lower_of(message), lower_of(#[trigger] keywords[k]@))
}

/// Whether an event is an error or fault that mentions a keyword.
pub open spec fn crash_indicated(e: LogEvent, keywords: Seq<String>) -> bool {
    e.message_type.is_error_like_spec() && mentions_any(e.message@, keywords)
}

impl CrashDetectionRule {
    /// The rule's name.
    pub fn name(&self) -> (r: &'static str)
        ensures
            r@ == "CrashDetectionRule"@,
    {
        "CrashDetectionRule"
    }

    /// The severity assigned when the rule fires.
    pub fn severity(&self) -> (r: Severity)
        ensures
            r == self.severity,
    {
        self.severity
    }

    pub fn new(crash_keywords: Vec<String>, severity: Severity) -> (r: Self)
        ensures
            r.keywords() == crash_keywords@,
            r.severity == severity,
    {
        CrashDetectionRule { crash_keywords, severity }
    }

    pub open spec fn keywords(self) -> Seq<String> {
        self.crash_keywords@
    }

    /// Common crash indicators, critical.
    pub fn with_defaults() -> (r: Self)
        ensures
            r.keywords().len() == 15,
            r.severity == Severity::Critical,
    {
        let mut keywords: Vec<String> = Vec::new();
        keywords.push(String::from_str("crash"));
        keywords.push(String::from_str("crashed"));
        keywords.push(String::from_str("segmentation fault"));
        keywords.push(String::from_str("segfault"));
        keywords.push(String::from_str("kernel panic"));
        keywords.push(String::from_str("panic"));
        keywords.push(String::from_str("abort"));
        keywords.push(String::from_str("terminated unexpectedly"));
        keywords.push(String::from_str("signal 11"));
        keywords.push(String::from_str("signal 9"));
        keywords.push(String::from_str("SIGKILL"));
        keywords.push(String::from_str("SIGSEGV"));
        keywords.push(String::from_str("SIGABRT"));
        keywords.push(String::from_str("exception"));
        keywords.push(String::from_str("fatal error"));
        Self::new(keywords, Severity::Critical)
    }

    /// Whether any error or fault mentions a crash keyword, in any letter
    /// case.
    pub fn evaluate(&self, log_events: &[LogEvent]) -> (r: bool)
        ensures
            r == exists|i: int|
                0 <= i < log_events@.len() && #[trigger] crash_indicated(
                    log_events@[i],
                    self.keywords(),
                ),
    {
        let mut i: usize = 0;
        while i < log_events.len()
            invariant
                0 <= i <= log_events@.len(),
                forall|k: int|
                    0 <= k < i ==> !#[trigger] crash_indicated(log_events@[k], self.keywords()),
            decreases log_events@.len() - i,
        {
            let e = &log_events[i];
            if e.message_type.is_error_like() {
                let message = to_lowercase(e.message.as_str());
                let mut k: usize = 0;
                while k < self.crash_keywords.len()
                    invariant
                        0 <= k <= self.crash_keywords@.len(),
                        0 <= i < log_events@.len(),
                        e.message_type.is_error_like_spec(),
                        message@ == lower_of(e.message@),
                        e == log_events@[i as int],
                        forall|q: int|
                            0 <= q < k ==> !contains_spec(
                                lower_of(e.message@),
                                lower_of(#[trigger] self.crash_keywords@[q]@),
                            ),
                    decreases self.crash_keywords@.len() - k,
                {
                    let keyword = to_lowercase(self.crash_keywords[k].as_str());
                    if contains(message.as_str(), keyword.as_str()) {
                        assert(contains_spec(
                            lower_of(e.message@),
                            lower_of(self.crash_keywords@[k as int]@),
                        ));
                        assert(mentions_any(e.message@, self.keywords()));
                        assert(crash_indicated(log_events@[i as int], self.keywords()));
                        return true;
                    }
                    k = k + 1;
                }
                assert(!mentions_any(e.message@, self.keywords()));
            }
            i = i + 1;
        }
        false
    }
}

impl EventSummary {
    /// Counts the events of an analysis context by kind.
    pub fn from_events(
        log_events: &[LogEvent],
        total_metrics_events: usize,
        total_disk_events: usize,
    ) -> (r: EventSummary)
        ensures
            r.total_log_events == log_events@.len(),
            r.total_metrics_events == total_metrics_events,
            r.total_disk_events == total_disk_events,
            r.error_count + r.fault_count + r.info_count + r.debug_count == log_events@.len(),
            r.error_count == count_of(log_events@, MessageType::Error),
            r.fault_count == count_of(log_events@, MessageType::Fault),
            r.info_count == count_of(log_events@, MessageType::Info),
            r.debug_count == count_of(log_events@, MessageType::Debug),
    {
        let mut s = EventSummary {
            total_log_events: log_events.len(),
            total_metrics_events,
            total_disk_events,
            error_count: 0,
            fault_count: 0,
            info_count: 0,
            debug_count: 0,
        };
        let mut i: usize = 0;
        while i < log_events.len()
            invariant
                0 <= i <= log_events@.len(),
                s.total_log_events == log_events@.len(),
                s.total_metrics_events == total_metrics_events,
                s.total_disk_events == total_disk_events,
                s.error_count + s.fault_count + s.info_count + s.debug_count == i,
                s.error_count == count_of(log_events@.subrange(0, i as int), MessageType::Error),
                s.fault_count == count_of(log_events@.subrange(0, i as int), MessageType::Fault),
                s.info_count == count_of(log_events@.subrange(0, i as int), MessageType::Info),
                s.debug_count == count_of(log_events@.subrange(0, i as int), MessageType::Debug),
            decreases log_events@.len() - i,
        {
            assert(log_events@.subrange(0, i + 1).drop_last() =~= log_events@.subrange(0, i as int));
            match log_events[i].message_type {
                MessageType::Error => s.error_count = s.error_count + 1,
                MessageType::Fault => s.fault_count = s.fault_count + 1,
                MessageType::Info => s.info_count = s.info_count + 1,
                MessageType::Debug => s.debug_count = s.debug_count + 1,
            }
            i = i + 1;
        }
        assert(log_events@.subrange(0, log_events@.len() as int) =~= log_events@);
        s
    }
}

/// Events of type `t` among `events`.
pub open spec fn count_of(events: Seq<LogEvent>, t: MessageType) -> nat
    decreases events.len(),
{
    if events.len() == 0 {
        0
    } else {
        count_of(events.drop_last(), t) + if events.last().message_type == t {
            1nat
        } else {
            0nat
        }
    }
}

} // verus!
