//! The wall-clock time of day at which a key was pressed, and its
//! `HH:MM:SS.mmm` rendering in the log.
use vstd::prelude::*;
use crate::text::{decimal_value, digit_char, lemma_digit_char_code};

verus! {

/// A local time of day, as the system clock reports it. The nanosecond part
/// may reach into a second second during a leap second (`second == 59`).
pub struct ClockTime {
    pub hour: u32,
    pub minute: u32,
    pub second: u32,
    pub nanosecond: u32,
}

impl ClockTime {
    /// The times of day that exist: hours below 24, minutes and seconds below 60,
    /// and a nanosecond part below one second, or below two during a leap second.
    pub open spec fn is_valid(&self) -> bool {
        &&& self.hour < 24
        &&& self.minute < 60
        &&& self.second < 60
        &&& self.nanosecond < 2_000_000_000
        &&& (self.nanosecond >= 1_000_000_000 ==> self.second == 59)
    }
}

/// `v` with two digits, zero-padded (`v < 100`).
pub open spec fn two_digits(v: nat) -> Seq<char> {
    seq![digit_char(v / 10), digit_char(v % 10)]
}

/// `v` with three digits, zero-padded (`v < 1000`).
pub open spec fn three_digits(v: nat) -> Seq<char> {
    seq![digit_char(v / 100), digit_char((v / 10) % 10), digit_char(v % 10)]
}

/// The log's timestamp for a time of day: hours, minutes and seconds with two
/// digits each and the milliseconds with three, as `HH:MM:SS.mmm`. A leap
/// second shows as second 60.
pub open spec fn clock_stamp(hour: nat, minute: nat, second: nat, nanosecond: nat) -> Seq<char> {
    two_digits(hour) + seq![':'] + two_digits(minute) + seq![':'] + two_digits(
        second + nanosecond / 1_000_000_000,
    ) + seq!['.'] + three_digits((nanosecond / 1_000_000) % 1000)
}

/// Formats a time of day with chrono: `NaiveTime::from_hms_nano_opt` followed by
/// `format("%H:%M:%S.%3f")`. The claim is that chrono accepts exactly the valid
/// times of day and renders `%H`, `%M` and `%S` as two zero-padded digits (the
/// second plus one during a leap second) and `%3f` as the milliseconds with three
/// zero-padded digits.
#[verifier::external_body]
fn format_time_of_day(hour: u32, minute: u32, second: u32, nanosecond: u32) -> (r: Option<String>)
    ensures
        r is Some <==> (ClockTime { hour, minute, second, nanosecond }).is_valid(),
        r matches Some(s) ==> s@ == clock_stamp(
            hour as nat,
            minute as nat,
            second as nat,
            nanosecond as nat,
        ),
{
    match chrono::NaiveTime::from_hms_nano_opt(hour, minute, second, nanosecond) {
        Some(t) => Some(t.format("%H:%M:%S.%3f").to_string()),
        None => None,
    }
}

/// The `HH:MM:SS.mmm` timestamp of a valid time of day.
pub fn timestamp_text(clock: &ClockTime) -> (s: String)
    requires
        clock.is_valid(),
    ensures
        s@ == clock_stamp(
            clock.hour as nat,
            clock.minute as nat,
            clock.second as nat,
            clock.nanosecond as nat,
        ),
{
    let r = format_time_of_day(clock.hour, clock.minute, clock.second, clock.nanosecond);
    r.unwrap()
}

/// A timestamp is twelve characters: hours, minutes and seconds of two digits
/// each separated by colons, a dot, and the milliseconds in three digits; each
/// part reads back as the time's own value.
pub proof fn lemma_clock_stamp_reads_back(clock: ClockTime)
    requires
        clock.is_valid(),
        clock.nanosecond < 1_000_000_000,
    ensures
        ({
            let s = clock_stamp(
                clock.hour as nat,
                clock.minute as nat,
                clock.second as nat,
                clock.nanosecond as nat,
            );
            &&& s.len() == 12
            &&& s[2] == ':' && s[5] == ':' && s[8] == '.'
            &&& decimal_value(s.subrange(0, 2)) == clock.hour
            &&& decimal_value(s.subrange(3, 5)) == clock.minute
            &&& decimal_value(s.subrange(6, 8)) == clock.second
            &&& decimal_value(s.subrange(9, 12)) == clock.nanosecond / 1_000_000
        }),
{
    let s = clock_stamp(
        clock.hour as nat,
        clock.minute as nat,
        clock.second as nat,
        clock.nanosecond as nat,
    );
    lemma_two_digits_read_back(clock.hour as nat);
    lemma_two_digits_read_back(clock.minute as nat);
    lemma_two_digits_read_back(clock.second as nat);
    let ms = (clock.nanosecond / 1_000_000) as nat;
    assert(ms < 1000);
    assert(ms % 1000 == ms);
    lemma_three_digits_read_back(ms);
    assert(s.subrange(0, 2) =~= two_digits(clock.hour as nat));
    assert(s.subrange(3, 5) =~= two_digits(clock.minute as nat));
    assert(s.subrange(6, 8) =~= two_digits(clock.second as nat));
    assert(s.subrange(9, 12) =~= three_digits(ms));
}

/// Two zero-padded digits read back as the number.
pub proof fn lemma_two_digits_read_back(v: nat)
    requires
        v < 100,
    ensures
        decimal_value(two_digits(v)) == v,
{
    let t = two_digits(v);
    lemma_digit_char_code(v / 10);
    lemma_digit_char_code(v % 10);
    assert(t.drop_last() =~= seq![digit_char(v / 10)]);
    let a = seq![digit_char(v / 10)];
    assert(a.drop_last() =~= Seq::<char>::empty());
    assert(decimal_value(a.drop_last()) == 0);
    assert(a.last() == digit_char(v / 10));
    assert(decimal_value(a) == v / 10);
    assert(t.last() == digit_char(v % 10));
    assert(v == (v / 10) * 10 + v % 10);
}

/// Three zero-padded digits read back as the number.
pub proof fn lemma_three_digits_read_back(v: nat)
    requires
        v < 1000,
    ensures
        decimal_value(three_digits(v)) == v,
{
    let t = three_digits(v);
    lemma_digit_char_code(v / 100);
    lemma_digit_char_code((v / 10) % 10);
    lemma_digit_char_code(v % 10);
    let a = seq![digit_char(v / 100)];
    let b = seq![digit_char(v / 100), digit_char((v / 10) % 10)];
    assert(t.drop_last() =~= b);
    assert(b.drop_last() =~= a);
    assert(a.drop_last() =~= Seq::<char>::empty());
    assert(decimal_value(a.drop_last()) == 0);
    assert(a.last() == digit_char(v / 100));
    assert(decimal_value(a) == v / 100);
    assert(b.last() == digit_char((v / 10) % 10));
    assert(t.last() == digit_char(v % 10));
    assert(decimal_value(b) == (v / 100) * 10 + (v / 10) % 10);
    assert(v == ((v / 100) * 10 + (v / 10) % 10) * 10 + v % 10);
}

} // verus!
