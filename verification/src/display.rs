//! What the window shows beside the raw log: latency colour classes and the
//! texts of the log lines, the header and the status bar.
use vstd::prelude::*;
use crate::text::{decimal, push_char, push_decimal, string_of};

verus! {

/// How fast a latency is: below 250 ms fast, from 250 ms up to 600 ms medium,
/// above 600 ms slow.
#[derive(Debug, Clone, Copy, PartialEq, Eq)]
pub enum LatencyClass {
    Fast,
    Medium,
    Slow,
}

/// The class of a latency of `ms` milliseconds.
pub open spec fn class_of_ms(ms: nat) -> LatencyClass {
    if ms < 250 {
        LatencyClass::Fast
    } else if ms <= 600 {
        LatencyClass::Medium
    } else {
        LatencyClass::Slow
    }
}

/// The class of a log entry's interval; `None` for the first entry of a
/// session, which is shown muted.
pub fn entry_latency_class(latency_ms: Option<u64>) -> (c: Option<LatencyClass>)
    ensures
        c == match latency_ms {
            Some(ms) => Some(class_of_ms(ms as nat)),
            None => None::<LatencyClass>,
        },
{
    match latency_ms {
        Some(ms) => {
            if ms < 250 {
                Some(LatencyClass::Fast)
            } else if ms <= 600 {
                Some(LatencyClass::Medium)
            } else {
                Some(LatencyClass::Slow)
            }
        },
        None => None,
    }
}

/// The class of an average latency of `total_ns / count` nanoseconds; an
/// average over no interval counts as 0 ms.
pub open spec fn class_of_average(total_ns: nat, count: nat) -> LatencyClass {
    if total_ns < 250_000_000 * count || count == 0 {
        LatencyClass::Fast
    } else if total_ns <= 600_000_000 * count {
        LatencyClass::Medium
    } else {
        LatencyClass::Slow
    }
}

/// The class of the average of `count` intervals summing to `total_ns` nanoseconds.
pub fn average_latency_class(total_ns: u128, count: usize) -> (c: LatencyClass)
    ensures
        c == class_of_average(total_ns as nat, count as nat),
{
    let n = count as u128;
    if count == 0 || total_ns < 250_000_000 * n {
        LatencyClass::Fast
    } else if total_ns <= 600_000_000 * n {
        LatencyClass::Medium
    } else {
        LatencyClass::Slow
    }
}

/// `n` spaces.
pub open spec fn spaces(n: nat) -> Seq<char> {
    Seq::new(n, |i: int| ' ')
}

/// `key` left-aligned in a column ten characters wide (longer keys are kept whole).
pub open spec fn padded_key_text(key: Seq<char>) -> Seq<char> {
    if key.len() < 10 {
        key + spaces((10 - key.len()) as nat)
    } else {
        key
    }
}

/// `key` left-aligned in a column ten characters wide, as the log shows it.
pub fn padded_key(key: &str) -> (s: String)
    ensures
        s@ == padded_key_text(key@),
{
    let n = crate::text::count_chars(key);
    let mut s = key.to_owned();
    let mut i = n;
    while i < 10
        invariant
            n == key@.len(),
            n <= i,
            i <= 10 || i == n,
            s@ == key@ + spaces((i - n) as nat),
        decreases 10 - i,
    {
        push_char(&mut s, ' ');
        assert(s@ =~= key@ + spaces((i + 1 - n) as nat));
        i = i + 1;
    }
    if n >= 10 {
        assert(s@ =~= key@);
    }
    s
}

/// The timestamp between square brackets, as the log shows it.
pub open spec fn bracketed_text(t: Seq<char>) -> Seq<char> {
    seq!['['] + t + seq![']']
}

/// `t` between square brackets.
pub fn bracketed(t: &str) -> (s: String)
    ensures
        s@ == bracketed_text(t@),
{
    let mut s = String::new();
    push_char(&mut s, '[');
    s.append(t);
    push_char(&mut s, ']');
    assert(s@ =~= bracketed_text(t@));
    s
}

/// `Target: ` then the platform's name, as the header shows it.
pub open spec fn target_banner_text(platform: Seq<char>) -> Seq<char> {
    seq!['T', 'a', 'r', 'g', 'e', 't', ':', ' '] + platform
}

/// The header's platform label.
pub fn target_banner(platform: &str) -> (s: String)
    ensures
        s@ == target_banner_text(platform@),
{
    let mut s = string_of(&['T', 'a', 'r', 'g', 'e', 't', ':', ' ']);
    s.append(platform);
    s
}

/// `Chars: C | Words: W`, as the status bar shows it.
pub open spec fn counts_text(chars: nat, words: nat) -> Seq<char> {
    seq!['C', 'h', 'a', 'r', 's', ':', ' '] + decimal(chars) + seq![' ', '|', ' ', 'W', 'o', 'r', 'd', 's', ':', ' ']
        + decimal(words)
}

/// The status bar's counts.
pub fn counts_line(chars: u64, words: u64) -> (s: String)
    ensures
        s@ == counts_text(chars as nat, words as nat),
{
    let mut s = string_of(&['C', 'h', 'a', 'r', 's', ':', ' ']);
    push_decimal(&mut s, chars);
    let sep = string_of(&[' ', '|', ' ', 'W', 'o', 'r', 'd', 's', ':', ' ']);
    s.append(sep.as_str());
    push_decimal(&mut s, words);
    s
}

/// The average of a single interval of whole milliseconds has that interval's class.
pub proof fn lemma_single_interval_average_class(ms: nat)
    ensures
        class_of_average(ms * 1_000_000, 1) == class_of_ms(ms),
{
}

/// An interval below 250 ms is fast, one from 250 ms to 600 ms is medium, and
/// one above 600 ms is slow.
pub proof fn lemma_interval_class_thresholds(ms: nat)
    ensures
        ms < 250 ==> class_of_ms(ms) == LatencyClass::Fast,
        250 <= ms <= 600 ==> class_of_ms(ms) == LatencyClass::Medium,
        ms > 600 ==> class_of_ms(ms) == LatencyClass::Slow,
{
}

/// An average below 250 ms is fast, one from 250 ms to 600 ms is medium, and
/// one above 600 ms is slow; no interval at all counts as fast.
pub proof fn lemma_average_class_thresholds(total_ns: nat, count: nat)
    ensures
        count == 0 ==> class_of_average(total_ns, count) == LatencyClass::Fast,
        total_ns < 250_000_000 * count ==> class_of_average(total_ns, count)
            == LatencyClass::Fast,
        count > 0 && 250_000_000 * count <= total_ns <= 600_000_000 * count ==> class_of_average(
            total_ns,
            count,
        ) == LatencyClass::Medium,
        count > 0 && total_ns > 600_000_000 * count ==> class_of_average(total_ns, count)
            == LatencyClass::Slow,
{
}

} // verus!
