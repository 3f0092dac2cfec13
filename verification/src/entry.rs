//! One line of the keystroke log.
use vstd::prelude::*;
use crate::text::decimal;

verus! {

/// A logged key press: when it happened, which key, and the interval since
/// the previous key press of the same session.
#[derive(Debug, Clone)]
pub struct LogEntry {
    /// Local time of day, `HH:MM:SS.mmm`.
    pub timestamp: String,
    /// How the key is shown: `'a'`, `Space`, `Enter`, `<Up>`, ...
    pub key: String,
    /// Whole milliseconds since the previous key press; `None` for the first
    /// key press of a session.
    pub latency_ms: Option<u64>,
    /// `+Nms`, or `First` for the first key press of a session.
    pub latency_str: String,
}

/// The contents of a [`LogEntry`] as plain values.
#[verifier::ext_equal]
pub struct LogEntryView {
    pub timestamp: Seq<char>,
    pub key: Seq<char>,
    pub latency_ms: Option<u64>,
    pub latency_str: Seq<char>,
}

impl View for LogEntry {
    type V = LogEntryView;

    open spec fn view(&self) -> LogEntryView {
        LogEntryView {
            timestamp: self.timestamp@,
            key: self.key@,
            latency_ms: self.latency_ms,
            latency_str: self.latency_str@,
        }
    }
}

/// The interval column of a timed entry: `+` then the milliseconds then `ms`.
pub open spec fn latency_text(ms: nat) -> Seq<char> {
    seq!['+'] + decimal(ms) + seq!['m', 's']
}

/// The interval column of the first entry of a session.
pub open spec fn first_text() -> Seq<char> {
    seq!['F', 'i', 'r', 's', 't']
}

/// The entry for the first key press of a session.
pub open spec fn first_entry(stamp: Seq<char>, key: Seq<char>) -> LogEntryView {
    LogEntryView { timestamp: stamp, key, latency_ms: None, latency_str: first_text() }
}

/// The entry for a key press `gap_ns` nanoseconds after the previous one: the
/// interval is counted in whole milliseconds, rounded down.
pub open spec fn timed_entry(stamp: Seq<char>, key: Seq<char>, gap_ns: nat) -> LogEntryView {
    LogEntryView {
        timestamp: stamp,
        key,
        latency_ms: Some((gap_ns / 1_000_000) as u64),
        latency_str: latency_text(gap_ns / 1_000_000),
    }
}

/// The log's entries as plain values.
pub open spec fn entries_view(logs: Seq<LogEntry>) -> Seq<LogEntryView> {
    logs.map_values(|e: LogEntry| e@)
}

} // verus!
