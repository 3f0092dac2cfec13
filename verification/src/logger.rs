//! The notepad logger's state: the editor text, the keystroke log of the
//! current typing session and its statistics, and how key presses, clearing
//! and exporting change them.
use vstd::prelude::*;
use crate::clock::{ClockTime, clock_stamp, timestamp_text};
use crate::entry::{
    LogEntry, LogEntryView, entries_view, first_entry, first_text, latency_text, timed_entry,
};
use crate::display::{LatencyClass, average_latency_class, class_of_average, counts_line, counts_text};
use crate::export::{csv_document, csv_document_text};
use crate::keys::{InputEvent, events_key_names, keys_from_events};
use crate::text::{
    count_chars, count_words, push_decimal, string_of, strings_view, word_count_of,
};

verus! {

/// A pause of this many nanoseconds (1.5 s) or more between two key presses
/// starts a new session: the log is cleared before the key is recorded.
pub const RESET_GAP_NS: u64 = 1_500_000_000;

/// Nanoseconds per millisecond.
pub const NS_PER_MS: u64 = 1_000_000;

/// The logger's state as plain values. Times are readings, in nanoseconds,
/// of a monotonic clock.
#[verifier::ext_equal]
pub struct AppState {
    pub editor_text: Seq<char>,
    pub last_keypress_ns: Option<u64>,
    pub logs: Seq<LogEntryView>,
    pub total_keys: nat,
    pub total_latency_ns: nat,
    pub latency_count: nat,
    pub scroll_to_bottom: bool,
    pub request_focus_editor: bool,
    pub status_message: Option<(Seq<char>, u64)>,
}

/// Nanoseconds from `last` to `now`; zero if the clock reads earlier.
pub open spec fn elapsed_ns(last: u64, now: u64) -> nat {
    if now >= last {
        (now - last) as nat
    } else {
        0
    }
}

/// The sum of the logged intervals, in whole milliseconds.
pub open spec fn latency_sum_ms(logs: Seq<LogEntryView>) -> nat
    decreases logs.len(),
{
    if logs.len() == 0 {
        0
    } else {
        latency_sum_ms(logs.drop_last()) + match logs.last().latency_ms {
            Some(ms) => ms as nat,
            None => 0,
        }
    }
}

/// An entry after the first of a session: an interval below the reset pause,
/// shown as `+Nms`.
pub open spec fn is_timed_entry(e: LogEntryView) -> bool {
    &&& e.latency_ms is Some
    &&& e.latency_ms->0 < 1500
    &&& e.latency_str == latency_text(e.latency_ms->0 as nat)
}

impl AppState {
    /// A fresh logger: nothing typed, nothing logged, the editor asking for focus.
    pub open spec fn initial() -> AppState {
        AppState {
            editor_text: Seq::empty(),
            last_keypress_ns: None,
            logs: Seq::empty(),
            total_keys: 0,
            total_latency_ns: 0,
            latency_count: 0,
            scroll_to_bottom: false,
            request_focus_editor: true,
            status_message: None,
        }
    }

    /// What the logger keeps true in every state it reaches:
    /// - the key counter is the number of logged keys;
    /// - a previous key press is known exactly when the log is not empty;
    /// - the first entry is marked `First`, every later one carries an
    ///   interval below 1500 ms, and these intervals are what was counted;
    /// - the summed interval lies within one millisecond per interval of the
    ///   logged milliseconds (which are rounded down).
    pub open spec fn valid(self) -> bool {
        &&& self.total_keys == self.logs.len()
        &&& (self.last_keypress_ns is None <==> self.logs.len() == 0)
        &&& self.latency_count == if self.logs.len() == 0 {
            0
        } else {
            (self.logs.len() - 1) as nat
        }
        &&& (self.logs.len() > 0 ==> self.logs[0] == first_entry(
            self.logs[0].timestamp,
            self.logs[0].key,
        ))
        &&& forall|i: int| 1 <= i < self.logs.len() ==> is_timed_entry(#[trigger] self.logs[i])
        &&& latency_sum_ms(self.logs) * 1_000_000 <= self.total_latency_ns
        &&& self.total_latency_ns <= latency_sum_ms(self.logs) * 1_000_000 + self.latency_count
            * 999_999
    }

    /// The state with the log and its statistics reset.
    pub open spec fn with_log_cleared(self) -> AppState {
        AppState {
            logs: Seq::empty(),
            total_keys: 0,
            total_latency_ns: 0,
            latency_count: 0,
            last_keypress_ns: None,
            ..self
        }
    }

    /// The state with the editor emptied, the log reset and the editor asking for focus.
    pub open spec fn with_all_cleared(self) -> AppState {
        AppState { editor_text: Seq::empty(), request_focus_editor: true, ..self.with_log_cleared() }
    }

    /// Whether a key pressed at `now` comes after a pause that ends the session.
    pub open spec fn is_reset_by(self, now: u64) -> bool {
        &&& self.last_keypress_ns is Some
        &&& elapsed_ns(self.last_keypress_ns->0, now) >= RESET_GAP_NS
    }

    /// The state after the key `key` is pressed at monotonic time `now`, at the
    /// local time of day `stamp`.
    pub open spec fn after_keypress(self, key: Seq<char>, now: u64, stamp: Seq<char>) -> AppState {
        if self.is_reset_by(now) {
            AppState {
                logs: seq![first_entry(stamp, key)],
                total_keys: 1,
                last_keypress_ns: Some(now),
                scroll_to_bottom: true,
                ..self.with_log_cleared()
            }
        } else {
            match self.last_keypress_ns {
                Some(last) => AppState {
                    logs: self.logs.push(timed_entry(stamp, key, elapsed_ns(last, now))),
                    total_keys: self.total_keys + 1,
                    total_latency_ns: self.total_latency_ns + elapsed_ns(last, now),
                    latency_count: self.latency_count + 1,
                    last_keypress_ns: Some(now),
                    scroll_to_bottom: true,
                    ..self
                },
                None => AppState {
                    logs: self.logs.push(first_entry(stamp, key)),
                    total_keys: self.total_keys + 1,
                    last_keypress_ns: Some(now),
                    scroll_to_bottom: true,
                    ..self
                },
            }
        }
    }

    /// The state after the keys `keys` are pressed in order, all at `now` and `stamp`.
    pub open spec fn after_keypresses(self, keys: Seq<Seq<char>>, now: u64, stamp: Seq<char>) -> AppState
        decreases keys.len(),
    {
        if keys.len() == 0 {
            self
        } else {
            self.after_keypresses(keys.drop_last(), now, stamp).after_keypress(
                keys.last(),
                now,
                stamp,
            )
        }
    }
}

/// The logged milliseconds of a session add up to less than 1500 per interval.
pub proof fn lemma_latency_sum_bound(logs: Seq<LogEntryView>)
    requires
        logs.len() > 0,
        logs[0].latency_ms is None,
        forall|i: int| 1 <= i < logs.len() ==> is_timed_entry(#[trigger] logs[i]),
    ensures
        latency_sum_ms(logs) <= 1499 * (logs.len() - 1),
    decreases logs.len(),
{
    if logs.len() > 1 {
        let p = logs.drop_last();
        assert forall|i: int| 1 <= i < p.len() implies is_timed_entry(#[trigger] p[i]) by {
            assert(p[i] == logs[i]);
        }
        assert(p[0] == logs[0]);
        lemma_latency_sum_bound(p);
        assert(is_timed_entry(logs[logs.len() - 1]));
        assert(logs.last() == logs[logs.len() - 1]);
        assert(latency_sum_ms(logs) == latency_sum_ms(p) + logs.last().latency_ms->0);
    } else {
        assert(logs.drop_last().len() == 0);
        assert(latency_sum_ms(logs.drop_last()) == 0);
        assert(logs.last() == logs[0]);
    }
}

/// Every state the logger reaches has an average interval below the reset
/// pause: the summed interval is less than 1.5 s per interval.
pub proof fn lemma_average_below_reset_gap(s: AppState)
    requires
        s.valid(),
        s.latency_count > 0,
    ensures
        s.total_latency_ns < RESET_GAP_NS * s.latency_count,
{
    lemma_latency_sum_bound(s.logs);
}

/// A key press keeps the logger's invariant.
pub proof fn lemma_keypress_keeps_valid(s: AppState, key: Seq<char>, now: u64, stamp: Seq<char>)
    requires
        s.valid(),
    ensures
        s.after_keypress(key, now, stamp).valid(),
{
    let t = s.after_keypress(key, now, stamp);
    if s.is_reset_by(now) {
        assert(t.logs.drop_last() =~= Seq::<LogEntryView>::empty());
        assert(latency_sum_ms(t.logs.drop_last()) == 0);
        assert(t.logs.last().latency_ms is None);
        assert(latency_sum_ms(t.logs) == 0);
    } else {
        match s.last_keypress_ns {
            Some(last) => {
                let gap = elapsed_ns(last, now);
                let e = timed_entry(stamp, key, gap);
                assert(t.logs.drop_last() =~= s.logs);
                assert(latency_sum_ms(t.logs) == latency_sum_ms(s.logs) + gap / 1_000_000);
                assert(gap / 1_000_000 * 1_000_000 <= gap <= gap / 1_000_000 * 1_000_000 + 999_999);
                assert(gap / 1_000_000 < 1500);
                assert(is_timed_entry(e));
                assert forall|i: int| 1 <= i < t.logs.len() implies is_timed_entry(
                    #[trigger] t.logs[i],
                ) by {
                    if i < s.logs.len() {
                        assert(t.logs[i] == s.logs[i]);
                    }
                }
            },
            None => {
                assert(t.logs.drop_last() =~= s.logs);
                assert(t.logs =~= seq![first_entry(stamp, key)]);
            },
        }
    }
}

/// After a pause of 1.5 s or more, a key press starts a new session: the result
/// is the same as pressing the key on a cleared log.
pub proof fn lemma_pause_starts_new_session(s: AppState, key: Seq<char>, now: u64, stamp: Seq<char>)
    requires
        s.valid(),
        s.is_reset_by(now),
    ensures
        s.after_keypress(key, now, stamp) == s.with_log_cleared().after_keypress(key, now, stamp),
        s.after_keypress(key, now, stamp).logs == seq![first_entry(stamp, key)],
        s.after_keypress(key, now, stamp).total_keys == 1,
        s.after_keypress(key, now, stamp).latency_count == 0,
{
    let c = s.with_log_cleared();
    assert(c.logs.push(first_entry(stamp, key)) =~= seq![first_entry(stamp, key)]);
    assert(s.after_keypress(key, now, stamp) =~= c.after_keypress(key, now, stamp));
}

/// Within a session a key press appends exactly one entry, keeps the earlier
/// ones, and counts one more key and one more interval.
pub proof fn lemma_keypress_within_session(s: AppState, key: Seq<char>, now: u64, stamp: Seq<char>)
    requires
        s.valid(),
        s.last_keypress_ns is Some,
        !s.is_reset_by(now),
    ensures
        s.after_keypress(key, now, stamp).logs.drop_last() == s.logs,
        s.after_keypress(key, now, stamp).logs.last() == timed_entry(
            stamp,
            key,
            elapsed_ns(s.last_keypress_ns->0, now),
        ),
        s.after_keypress(key, now, stamp).total_keys == s.total_keys + 1,
        s.after_keypress(key, now, stamp).latency_count == s.latency_count + 1,
        s.after_keypress(key, now, stamp).editor_text == s.editor_text,
{
    assert(s.after_keypress(key, now, stamp).logs.drop_last() =~= s.logs);
}

/// The first key press on an empty log is logged as `First` and counts no interval.
pub proof fn lemma_first_keypress(s: AppState, key: Seq<char>, now: u64, stamp: Seq<char>)
    requires
        s.valid(),
        s.logs.len() == 0,
    ensures
        s.after_keypress(key, now, stamp).logs == seq![first_entry(stamp, key)],
        s.after_keypress(key, now, stamp).total_keys == 1,
        s.after_keypress(key, now, stamp).latency_count == 0,
        s.after_keypress(key, now, stamp).total_latency_ns == 0,
{
    assert(s.logs.push(first_entry(stamp, key)) =~= seq![first_entry(stamp, key)]);
}

/// Clearing the log twice is the same as clearing it once, and a cleared log
/// is a valid, empty session.
pub proof fn lemma_clear_log_idempotent(s: AppState)
    ensures
        s.with_log_cleared().with_log_cleared() == s.with_log_cleared(),
        s.with_log_cleared().valid(),
        s.with_log_cleared().logs.len() == 0,
{
    assert(s.with_log_cleared().with_log_cleared() =~= s.with_log_cleared());
}

/// Clearing everything leaves a valid, empty session, an empty editor and a
/// request for the editor's focus.
pub proof fn lemma_clear_all(s: AppState)
    ensures
        s.with_all_cleared().valid(),
        s.with_all_cleared().logs.len() == 0,
        s.with_all_cleared().editor_text.len() == 0,
        s.with_all_cleared().request_focus_editor,
{
}

/// Any sequence of key presses keeps the logger's invariant.
pub proof fn lemma_keypresses_keep_valid(
    s: AppState,
    keys: Seq<Seq<char>>,
    now: u64,
    stamp: Seq<char>,
)
    requires
        s.valid(),
    ensures
        s.after_keypresses(keys, now, stamp).valid(),
    decreases keys.len(),
{
    if keys.len() > 0 {
        lemma_keypresses_keep_valid(s, keys.drop_last(), now, stamp);
        lemma_keypress_keeps_valid(
            s.after_keypresses(keys.drop_last(), now, stamp),
            keys.last(),
            now,
            stamp,
        );
    }
}

/// A key press leaves the editor, the status message and the focus request as
/// they were and asks the log to scroll to its end; unless the pause ends the
/// session, the earlier entries stay as they were, in order, and one entry follows.
pub proof fn lemma_keypress_keeps_the_rest(s: AppState, key: Seq<char>, now: u64, stamp: Seq<char>)
    ensures
        s.after_keypress(key, now, stamp).editor_text == s.editor_text,
        s.after_keypress(key, now, stamp).status_message == s.status_message,
        s.after_keypress(key, now, stamp).request_focus_editor == s.request_focus_editor,
        s.after_keypress(key, now, stamp).scroll_to_bottom,
        s.after_keypress(key, now, stamp).last_keypress_ns == Some(now),
        !s.is_reset_by(now) ==> s.after_keypress(key, now, stamp).logs.len() == s.logs.len() + 1
            && s.after_keypress(key, now, stamp).logs.take(s.logs.len() as int) == s.logs,
{
    if !s.is_reset_by(now) {
        assert(s.after_keypress(key, now, stamp).logs.take(s.logs.len() as int) =~= s.logs);
    }
}

/// Frames whose events log no key leave the logger as it was.
pub proof fn lemma_no_logged_keys_no_change(
    s: AppState,
    events: Seq<InputEvent>,
    now: u64,
    stamp: Seq<char>,
)
    requires
        events_key_names(events).len() == 0,
    ensures
        s.after_keypresses(events_key_names(events), now, stamp) == s,
{
}

/// A fresh logger is valid.
pub proof fn lemma_initial_valid()
    ensures
        AppState::initial().valid(),
{
}


/// The notepad logger: the editor text, the keystroke log of the current
/// session and its statistics, and the flags and message the window shows.
pub struct KeySpeedApp {
    editor_text: String,
    last_keypress_ns: Option<u64>,
    logs: Vec<LogEntry>,
    total_keys: usize,
    total_latency_ns: u128,
    latency_count: usize,
    scroll_to_bottom: bool,
    request_focus_editor: bool,
    status_message: Option<(String, u64)>,
}

impl View for KeySpeedApp {
    type V = AppState;

    closed spec fn view(&self) -> AppState {
        AppState {
            editor_text: self.editor_text@,
            last_keypress_ns: self.last_keypress_ns,
            logs: entries_view(self.logs@),
            total_keys: self.total_keys as nat,
            total_latency_ns: self.total_latency_ns as nat,
            latency_count: self.latency_count as nat,
            scroll_to_bottom: self.scroll_to_bottom,
            request_focus_editor: self.request_focus_editor,
            status_message: match self.status_message {
                Some(m) => Some((m.0@, m.1)),
                None => None,
            },
        }
    }
}

impl Default for KeySpeedApp {
    fn default() -> (app: Self)
        ensures
            app@ == AppState::initial(),
    {
        let app = KeySpeedApp {
            editor_text: String::new(),
            last_keypress_ns: None,
            logs: Vec::new(),
            total_keys: 0,
            total_latency_ns: 0,
            latency_count: 0,
            scroll_to_bottom: false,
            request_focus_editor: true,
            status_message: None,
        };
        assert(app@ =~= AppState::initial());
        app
    }
}

impl KeySpeedApp {
    /// A fresh logger.
    pub fn new() -> (app: Self)
        ensures
            app@ == AppState::initial(),
            app@.valid(),
    {
        Self::default()
    }

    /// The mean interval between key presses of the session, in whole
    /// nanoseconds (rounded down); 0 while no interval was measured.
    pub fn avg_latency(&self) -> (avg: u64)
        requires
            self@.valid(),
        ensures
            avg == if self@.latency_count == 0 {
                0
            } else {
                self@.total_latency_ns / self@.latency_count
            },
            avg < RESET_GAP_NS,
    {
        if self.latency_count == 0 {
            0
        } else {
            proof {
                lemma_average_below_reset_gap(self@);
            }
            let count = self.latency_count as u128;
            let avg = self.total_latency_ns / count;
            assert(avg < RESET_GAP_NS) by (nonlinear_arith)
                requires
                    self.total_latency_ns < RESET_GAP_NS * count,
                    count > 0,
                    avg == self.total_latency_ns / count,
            ;
            avg as u64
        }
    }

    /// Number of characters in the editor.
    pub fn char_count(&self) -> (n: usize)
        ensures
            n == self@.editor_text.len(),
    {
        count_chars(self.editor_text.as_str())
    }

    /// Number of whitespace-separated words in the editor.
    pub fn word_count(&self) -> (n: usize)
        ensures
            n == word_count_of(self@.editor_text),
    {
        count_words(self.editor_text.as_str())
    }

    /// Resets the log and its statistics.
    pub fn clear_log(&mut self)
        ensures
            final(self)@ == old(self)@.with_log_cleared(),
            final(self)@.valid(),
    {
        self.logs.clear();
        self.total_keys = 0;
        self.total_latency_ns = 0;
        self.latency_count = 0;
        self.last_keypress_ns = None;
        proof {
            assert(self@ =~= old(self)@.with_log_cleared());
        }
    }

    /// Empties the editor, resets the log and asks for the editor's focus.
    pub fn clear_all(&mut self)
        ensures
            final(self)@ == old(self)@.with_all_cleared(),
            final(self)@.valid(),
    {
        self.editor_text = String::new();
        self.clear_log();
        self.request_focus_editor = true;
        proof {
            assert(self@ =~= old(self)@.with_all_cleared());
        }
    }

    /// Records the key `key_display` pressed at monotonic time `now_ns`
    /// (nanoseconds) and local time of day `clock`. After a pause of 1.5 s or
    /// more the log is cleared first and the key starts a new session.
    pub fn record_keypress(&mut self, key_display: String, now_ns: u64, clock: &ClockTime)
        requires
            old(self)@.valid(),
            clock.is_valid(),
        ensures
            final(self)@ == old(self)@.after_keypress(
                key_display@,
                now_ns,
                clock_stamp(
                    clock.hour as nat,
                    clock.minute as nat,
                    clock.second as nat,
                    clock.nanosecond as nat,
                ),
            ),
            final(self)@.valid(),
    {
        let ghost pre = self@;
        let ghost stamp = clock_stamp(
            clock.hour as nat,
            clock.minute as nat,
            clock.second as nat,
            clock.nanosecond as nat,
        );
        proof {
            lemma_keypress_keeps_valid(pre, key_display@, now_ns, stamp);
        }
        let timestamp = timestamp_text(clock);
        let mut timed: Option<u64> = None;
        match self.last_keypress_ns {
            Some(last) => {
                let gap: u64 = if now_ns >= last {
                    now_ns - last
                } else {
                    0
                };
                if gap >= RESET_GAP_NS {
                    self.clear_log();
                } else {
                    timed = Some(gap);
                }
            },
            None => {},
        }
        let ghost mid = self@;
        let entry = match timed {
            Some(gap) => {
                let ms = gap / NS_PER_MS;
                let mut text = String::new();
                push_plus(&mut text);
                push_decimal(&mut text, ms);
                push_ms(&mut text);
                proof {
                    lemma_average_below_reset_gap_or_empty(pre);
                }
                self.total_latency_ns = self.total_latency_ns + gap as u128;
                self.latency_count = self.latency_count + 1;
                LogEntry { timestamp, key: key_display, latency_ms: Some(ms), latency_str: text }
            },
            None => {
                LogEntry { timestamp, key: key_display, latency_ms: None, latency_str: first_string() }
            },
        };
        self.last_keypress_ns = Some(now_ns);
        self.logs.push(entry);
        self.total_keys = self.logs.len();
        self.scroll_to_bottom = true;
        proof {
            assert(entries_view(self.logs@) =~= mid.logs.push(entry@));
            assert(self@ =~= pre.after_keypress(key_display@, now_ns, stamp));
        }
    }
}

impl KeySpeedApp {
    /// Records the keys `keys` in order, all pressed at `now_ns` and `clock`.
    pub fn record_keys(&mut self, keys: &Vec<String>, now_ns: u64, clock: &ClockTime)
        requires
            old(self)@.valid(),
            clock.is_valid(),
        ensures
            final(self)@ == old(self)@.after_keypresses(
                strings_view(keys@),
                now_ns,
                clock_stamp(
                    clock.hour as nat,
                    clock.minute as nat,
                    clock.second as nat,
                    clock.nanosecond as nat,
                ),
            ),
            final(self)@.valid(),
    {
        let ghost stamp = clock_stamp(
            clock.hour as nat,
            clock.minute as nat,
            clock.second as nat,
            clock.nanosecond as nat,
        );
        let ghost start = self@;
        let ghost names = strings_view(keys@);
        for i in 0..keys.len()
            invariant
                self@.valid(),
                clock.is_valid(),
                names == strings_view(keys@),
                stamp == clock_stamp(
                    clock.hour as nat,
                    clock.minute as nat,
                    clock.second as nat,
                    clock.nanosecond as nat,
                ),
                self@ == start.after_keypresses(names.take(i as int), now_ns, stamp),
        {
            proof {
                let p = names.take(i + 1);
                assert(p.drop_last() =~= names.take(i as int));
                assert(p.last() == keys@[i as int]@);
            }
            self.record_keypress(keys[i].clone(), now_ns, clock);
        }
        proof {
            assert(names.take(keys@.len() as int) =~= names);
        }
    }

    /// Records the keys of a frame's input events, in order, all pressed at
    /// `now_ns` and `clock`; events that log no key change nothing.
    pub fn record_events(&mut self, events: &Vec<InputEvent>, now_ns: u64, clock: &ClockTime)
        requires
            old(self)@.valid(),
            clock.is_valid(),
        ensures
            final(self)@ == old(self)@.after_keypresses(
                events_key_names(events@),
                now_ns,
                clock_stamp(
                    clock.hour as nat,
                    clock.minute as nat,
                    clock.second as nat,
                    clock.nanosecond as nat,
                ),
            ),
            final(self)@.valid(),
    {
        let keys = keys_from_events(events);
        self.record_keys(&keys, now_ns, clock);
    }

    /// The log of the current session.
    pub fn logs(&self) -> (logs: &Vec<LogEntry>)
        ensures
            entries_view(logs@) == self@.logs,
    {
        &self.logs
    }

    /// The number of keys logged in the current session.
    pub fn total_keys(&self) -> (n: usize)
        ensures
            n == self@.total_keys,
    {
        self.total_keys
    }

    /// The number of intervals measured in the current session.
    pub fn latency_count(&self) -> (n: usize)
        ensures
            n == self@.latency_count,
    {
        self.latency_count
    }

    /// The sum of the measured intervals, in nanoseconds.
    pub fn total_latency_ns(&self) -> (t: u128)
        ensures
            t == self@.total_latency_ns,
    {
        self.total_latency_ns
    }

    /// The monotonic time of the last logged key press, if any.
    pub fn last_keypress_ns(&self) -> (t: Option<u64>)
        ensures
            t == self@.last_keypress_ns,
    {
        self.last_keypress_ns
    }

    /// The editor's text.
    pub fn editor_text(&self) -> (t: &String)
        ensures
            t@ == self@.editor_text,
    {
        &self.editor_text
    }

    /// Replaces the editor's text (after the user edited it).
    pub fn set_editor_text(&mut self, text: String)
        ensures
            final(self)@ == (AppState { editor_text: text@, ..old(self)@ }),
    {
        self.editor_text = text;
        proof {
            assert(self@ =~= (AppState { editor_text: text@, ..old(self)@ }));
        }
    }

    /// Whether the log should scroll to its end; the request is consumed.
    pub fn take_scroll_request(&mut self) -> (b: bool)
        ensures
            b == old(self)@.scroll_to_bottom,
            final(self)@ == (AppState { scroll_to_bottom: false, ..old(self)@ }),
    {
        let b = self.scroll_to_bottom;
        self.scroll_to_bottom = false;
        proof {
            assert(self@ =~= (AppState { scroll_to_bottom: false, ..old(self)@ }));
        }
        b
    }

    /// Whether the editor should take the focus; the request is consumed.
    pub fn take_focus_request(&mut self) -> (b: bool)
        ensures
            b == old(self)@.request_focus_editor,
            final(self)@ == (AppState { request_focus_editor: false, ..old(self)@ }),
    {
        let b = self.request_focus_editor;
        self.request_focus_editor = false;
        proof {
            assert(self@ =~= (AppState { request_focus_editor: false, ..old(self)@ }));
        }
        b
    }

    /// The latency class of the session's average interval.
    pub fn avg_latency_class(&self) -> (c: LatencyClass)
        ensures
            c == class_of_average(self@.total_latency_ns, self@.latency_count),
    {
        average_latency_class(self.total_latency_ns, self.latency_count)
    }

    /// The status bar's `Chars: C | Words: W` for the editor's text.
    pub fn status_bar_text(&self) -> (s: String)
        ensures
            s@ == counts_text(self@.editor_text.len(), word_count_of(self@.editor_text)),
    {
        let c = self.char_count();
        let w = self.word_count();
        proof {
            crate::text::lemma_word_count_at_most_chars(self@.editor_text);
        }
        counts_line(c as u64, w as u64)
    }

    /// The status message, while it is younger than four whole seconds at `now_ns`.
    pub fn visible_status(&self, now_ns: u64) -> (m: Option<&String>)
        ensures
            m matches Some(t) ==> self@.status_message matches Some(sm) && t@ == sm.0,
            m is Some <==> (self@.status_message matches Some(sm) && elapsed_ns(sm.1, now_ns)
                < STATUS_LIFETIME_NS),
    {
        match &self.status_message {
            Some(sm) => {
                let created = sm.1;
                let age: u64 = if now_ns >= created {
                    now_ns - created
                } else {
                    0
                };
                if age < STATUS_LIFETIME_NS {
                    Some(&sm.0)
                } else {
                    None
                }
            },
            None => None,
        }
    }

    /// Starts an export of the log at `now_ns`. An empty log is not exported:
    /// the status says so. Otherwise the CSV document is handed back for
    /// saving, and nothing changes.
    pub fn export_csv(&mut self, now_ns: u64) -> (plan: ExportPlan)
        requires
            old(self)@.valid(),
        ensures
            old(self)@.logs.len() == 0 ==> plan is NothingToExport && final(self)@ == (AppState {
                status_message: Some((empty_log_message(), now_ns)),
                ..old(self)@
            }),
            old(self)@.logs.len() > 0 ==> plan is Document && final(self)@ == old(self)@,
            plan matches ExportPlan::Document(d) ==> d@ == csv_document(old(self)@.logs),
            final(self)@.valid(),
    {
        if self.logs.len() == 0 {
            self.status_message = Some((empty_log_string(), now_ns));
            proof {
                assert(self@ =~= (AppState {
                    status_message: Some((empty_log_message(), now_ns)),
                    ..old(self)@
                }));
            }
            return ExportPlan::NothingToExport;
        }
        ExportPlan::Document(csv_document_text(&self.logs).unwrap())
    }

    /// Records at `now_ns` how saving the exported document ended: the saved
    /// path or the error is shown in the status; a cancelled dialog changes nothing.
    pub fn finish_export(&mut self, outcome: ExportOutcome, now_ns: u64)
        ensures
            final(self)@ == match outcome {
                ExportOutcome::Cancelled => old(self)@,
                ExportOutcome::Saved(path) => AppState {
                    status_message: Some((saved_message(path@), now_ns)),
                    ..old(self)@
                },
                ExportOutcome::Failed(err) => AppState {
                    status_message: Some((failed_message(err@), now_ns)),
                    ..old(self)@
                },
            },
    {
        match outcome {
            ExportOutcome::Cancelled => {},
            ExportOutcome::Saved(path) => {
                let mut m = string_of(
                    &['E', 'x', 'p', 'o', 'r', 't', 'e', 'd', ' ', 't', 'o', ' '],
                );
                m.append(path.as_str());
                self.status_message = Some((m, now_ns));
                proof {
                    assert(self@ =~= (AppState {
                        status_message: Some((saved_message(path@), now_ns)),
                        ..old(self)@
                    }));
                }
            },
            ExportOutcome::Failed(err) => {
                let mut m = string_of(
                    &[
                        'F',
                        'a',
                        'i',
                        'l',
                        'e',
                        'd',
                        ' ',
                        't',
                        'o',
                        ' ',
                        'e',
                        'x',
                        'p',
                        'o',
                        'r',
                        't',
                        ' ',
                        'C',
                        'S',
                        'V',
                        ':',
                        ' ',
                    ],
                );
                m.append(err.as_str());
                self.status_message = Some((m, now_ns));
                proof {
                    assert(self@ =~= (AppState {
                        status_message: Some((failed_message(err@), now_ns)),
                        ..old(self)@
                    }));
                }
            },
        }
    }
}

/// A status message stays visible for this many nanoseconds (four whole seconds).
pub const STATUS_LIFETIME_NS: u64 = 4_000_000_000;

/// What starting an export gives.
pub enum ExportPlan {
    /// The log is empty; the status says so.
    NothingToExport,
    /// The CSV document to save.
    Document(String),
}

/// How saving an exported document ended.
pub enum ExportOutcome {
    /// The save dialog was dismissed.
    Cancelled,
    /// The document was written to the file shown as the given path.
    Saved(String),
    /// Writing failed with the given error text.
    Failed(String),
}

/// `Log is empty. Nothing to export.`
pub open spec fn empty_log_message() -> Seq<char> {
    seq![
        'L', 'o', 'g', ' ', 'i', 's', ' ', 'e', 'm', 'p', 't', 'y', '.', ' ', 'N', 'o', 't', 'h',
        'i', 'n', 'g', ' ', 't', 'o', ' ', 'e', 'x', 'p', 'o', 'r', 't', '.'
    ]
}

/// `Exported to ` then the path.
pub open spec fn saved_message(path: Seq<char>) -> Seq<char> {
    seq!['E', 'x', 'p', 'o', 'r', 't', 'e', 'd', ' ', 't', 'o', ' '] + path
}

/// `Failed to export CSV: ` then the error.
pub open spec fn failed_message(err: Seq<char>) -> Seq<char> {
    seq![
        'F', 'a', 'i', 'l', 'e', 'd', ' ', 't', 'o', ' ', 'e', 'x', 'p', 'o', 'r', 't', ' ', 'C',
        'S', 'V', ':', ' '
    ] + err
}

fn empty_log_string() -> (s: String)
    ensures
        s@ == empty_log_message(),
{
    string_of(
        &[
            'L',
            'o',
            'g',
            ' ',
            'i',
            's',
            ' ',
            'e',
            'm',
            'p',
            't',
            'y',
            '.',
            ' ',
            'N',
            'o',
            't',
            'h',
            'i',
            'n',
            'g',
            ' ',
            't',
            'o',
            ' ',
            'e',
            'x',
            'p',
            'o',
            'r',
            't',
            '.',
        ],
    )
}

/// Bound on the summed interval of a valid state, used to rule out overflow.
proof fn lemma_average_below_reset_gap_or_empty(s: AppState)
    requires
        s.valid(),
    ensures
        s.total_latency_ns <= RESET_GAP_NS * s.latency_count,
{
    if s.latency_count > 0 {
        lemma_average_below_reset_gap(s);
    } else if s.logs.len() > 0 {
        lemma_latency_sum_bound(s.logs);
    }
}

/// Appends `+` to `s`.
fn push_plus(s: &mut String)
    ensures
        final(s)@ == old(s)@ + seq!['+'],
{
    crate::text::push_char(s, '+');
}

/// Appends `ms` to `s`.
fn push_ms(s: &mut String)
    ensures
        final(s)@ == old(s)@ + seq!['m', 's'],
{
    crate::text::push_char(s, 'm');
    crate::text::push_char(s, 's');
    assert(old(s)@.push('m').push('s') =~= old(s)@ + seq!['m', 's']);
}

/// The text `First`.
fn first_string() -> (s: String)
    ensures
        s@ == first_text(),
{
    let mut s = String::new();
    crate::text::push_char(&mut s, 'F');
    crate::text::push_char(&mut s, 'i');
    crate::text::push_char(&mut s, 'r');
    crate::text::push_char(&mut s, 's');
    crate::text::push_char(&mut s, 't');
    assert(s@ =~= first_text());
    s
}

/// The interval between two clock readings is their difference whenever the
/// clock did not go back, whatever its size.
pub proof fn lemma_elapsed_is_difference(last: u64, now: u64)
    requires
        last <= now,
    ensures
        elapsed_ns(last, now) == now - last,
{
}

/// A key press 1.5 s or more after the previous one leaves a log of exactly one
/// entry: the new key at its time, marked `First`, with one key counted and no
/// interval.
pub proof fn lemma_long_pause_leaves_one_entry(
    s: AppState,
    key: Seq<char>,
    now: u64,
    stamp: Seq<char>,
)
    requires
        s.valid(),
        s.last_keypress_ns is Some,
        now >= s.last_keypress_ns->0 + 1_500_000_000,
    ensures
        s.after_keypress(key, now, stamp).logs == seq![
            LogEntryView {
                timestamp: stamp,
                key,
                latency_ms: None,
                latency_str: seq!['F', 'i', 'r', 's', 't'],
            },
        ],
        s.after_keypress(key, now, stamp).total_keys == 1,
        s.after_keypress(key, now, stamp).latency_count == 0,
        s.after_keypress(key, now, stamp).total_latency_ns == 0,
{
}

/// A key press less than 1.5 s after the previous one is logged after the
/// earlier entries with the whole milliseconds between the two presses, counts
/// one more key and one more interval, and adds the interval to the total.
pub proof fn lemma_short_pause_logs_interval(
    s: AppState,
    key: Seq<char>,
    now: u64,
    stamp: Seq<char>,
)
    requires
        s.valid(),
        s.last_keypress_ns is Some,
        s.last_keypress_ns->0 <= now,
        now < s.last_keypress_ns->0 + 1_500_000_000,
    ensures
        s.after_keypress(key, now, stamp).logs.len() == s.logs.len() + 1,
        s.after_keypress(key, now, stamp).logs.take(s.logs.len() as int) == s.logs,
        s.after_keypress(key, now, stamp).logs.last().timestamp == stamp,
        s.after_keypress(key, now, stamp).logs.last().key == key,
        s.after_keypress(key, now, stamp).logs.last().latency_ms == Some(
            ((now - s.last_keypress_ns->0) / 1_000_000) as u64,
        ),
        s.after_keypress(key, now, stamp).total_keys == s.total_keys + 1,
        s.after_keypress(key, now, stamp).latency_count == s.latency_count + 1,
        s.after_keypress(key, now, stamp).total_latency_ns == s.total_latency_ns + (now
            - s.last_keypress_ns->0),
{
    assert(s.after_keypress(key, now, stamp).logs.take(s.logs.len() as int) =~= s.logs);
}

/// The interval text of every entry after the first reads back, between its
/// leading `+` and trailing `ms`, as the entry's milliseconds.
pub proof fn lemma_interval_text_reads_back(s: AppState, i: int)
    requires
        s.valid(),
        1 <= i < s.logs.len(),
    ensures
        s.logs[i].latency_ms is Some,
        s.logs[i].latency_ms->0 < 1500,
        s.logs[i].latency_str[0] == '+',
        crate::text::decimal_value(
            s.logs[i].latency_str.subrange(1, s.logs[i].latency_str.len() - 2),
        ) == s.logs[i].latency_ms->0,
        s.logs[i].latency_str.subrange(
            s.logs[i].latency_str.len() - 2,
            s.logs[i].latency_str.len() as int,
        ) == seq!['m', 's'],
{
    let e = s.logs[i];
    assert(is_timed_entry(e));
    let ms = e.latency_ms->0 as nat;
    crate::text::lemma_decimal_value(ms);
    assert(e.latency_str.subrange(1, e.latency_str.len() - 2) =~= crate::text::decimal(ms));
    assert(e.latency_str.subrange(e.latency_str.len() - 2, e.latency_str.len() as int)
        =~= seq!['m', 's']);
}

} // verus!
