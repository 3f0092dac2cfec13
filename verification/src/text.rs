//! Character classes, counting and decimal rendering of the editor's text
//! and of the numbers the logger shows.
use vstd::prelude::*;

verus! {

/// Unicode general category `Cc`: U+0000..U+001F and U+007F..U+009F.
pub open spec fn is_control_char(c: char) -> bool {
    (c as u32) <= 0x1F || (0x7F <= (c as u32) && (c as u32) <= 0x9F)
}

/// Printable ASCII other than the space: U+0021..U+007E.
pub open spec fn is_ascii_graphic_char(c: char) -> bool {
    0x21 <= (c as u32) && (c as u32) <= 0x7E
}

/// The Unicode `White_Space` property.
pub open spec fn is_whitespace_char(c: char) -> bool {
    let u = c as u32;
    ||| 0x09 <= u && u <= 0x0D
    ||| u == 0x20
    ||| u == 0x85
    ||| u == 0xA0
    ||| u == 0x1680
    ||| 0x2000 <= u && u <= 0x200A
    ||| u == 0x2028
    ||| u == 0x2029
    ||| u == 0x202F
    ||| u == 0x205F
    ||| u == 0x3000
}

/// Whether `c` is a control character (as `char::is_control`).
pub fn is_control(c: char) -> (b: bool)
    ensures
        b == is_control_char(c),
{
    let u = c as u32;
    u <= 0x1F || (0x7F <= u && u <= 0x9F)
}

/// Whether `c` is printable ASCII other than the space (as `char::is_ascii_graphic`).
pub fn is_ascii_graphic(c: char) -> (b: bool)
    ensures
        b == is_ascii_graphic_char(c),
{
    let u = c as u32;
    0x21 <= u && u <= 0x7E
}

/// Whether `c` is white space (as `char::is_whitespace`).
pub fn is_whitespace(c: char) -> (b: bool)
    ensures
        b == is_whitespace_char(c),
{
    let u = c as u32;
    (0x09 <= u && u <= 0x0D) || u == 0x20 || u == 0x85 || u == 0xA0 || u == 0x1680 || (0x2000
        <= u && u <= 0x200A) || u == 0x2028 || u == 0x2029 || u == 0x202F || u == 0x205F || u
        == 0x3000
}

/// Whether position `i` of `s` starts a word: a character that is not white space
/// and is the first one or follows white space.
pub open spec fn starts_word(s: Seq<char>, i: int) -> bool {
    &&& 0 <= i < s.len()
    &&& !is_whitespace_char(s[i])
    &&& (i == 0 || is_whitespace_char(s[i - 1]))
}

/// The number of words of `s`: the maximal runs of characters that are not
/// white space, as `str::split_whitespace` yields them.
pub open spec fn word_count_of(s: Seq<char>) -> nat
    decreases s.len(),
{
    if s.len() == 0 {
        0
    } else {
        word_count_of(s.drop_last()) + if starts_word(s, s.len() - 1) {
            1nat
        } else {
            0nat
        }
    }
}

/// UTF-8 takes at least one byte per character.
proof fn lemma_utf8_at_least_one_byte_per_char(chars: Seq<char>)
    ensures
        vstd::utf8::encode_utf8(chars).len() >= chars.len(),
    decreases chars.len(),
{
    if chars.len() > 0 {
        lemma_utf8_at_least_one_byte_per_char(chars.drop_first());
    }
}

/// A text in memory has at most `usize::MAX` characters: no more than its bytes.
fn chars_fit_usize(s: &str)
    ensures
        s@.len() <= usize::MAX,
{
    let bytes = s.as_bytes();
    let _n = bytes.len();
    proof {
        lemma_utf8_at_least_one_byte_per_char(s@);
    }
}

/// Number of characters of `s`.
pub fn count_chars(s: &str) -> (n: usize)
    ensures
        n == s@.len(),
{
    chars_fit_usize(s);
    let mut n: usize = 0;
    for c in it: s.chars()
        invariant
            n == it.index(),
            it.seq() == s@,
            s@.len() <= usize::MAX,
    {
        n = n + 1;
    }
    n
}

proof fn lemma_word_count_step(s: Seq<char>, i: int)
    requires
        0 <= i < s.len(),
    ensures
        word_count_of(s.take(i + 1)) == word_count_of(s.take(i)) + if starts_word(s, i) {
            1nat
        } else {
            0nat
        },
{
    let t = s.take(i + 1);
    assert(t.drop_last() =~= s.take(i));
    assert(starts_word(t, i) == starts_word(s, i));
}

/// Number of whitespace-separated words of `s`.
pub fn count_words(s: &str) -> (n: usize)
    ensures
        n == word_count_of(s@),
{
    chars_fit_usize(s);
    let mut n: usize = 0;
    let mut after_space = true;
    let ghost text = s@;
    for c in it: s.chars()
        invariant
            it.seq() == text,
            text == s@,
            text.len() <= usize::MAX,
            0 <= it.index() <= text.len(),
            n == word_count_of(text.take(it.index())),
            n <= it.index(),
            after_space == (it.index() == 0 || is_whitespace_char(text[it.index() - 1])),
    {
        let ghost i = it.index();
        proof {
            lemma_word_count_step(text, i);
        }
        let ws = is_whitespace(c);
        if !ws && after_space {
            n = n + 1;
        }
        after_space = ws;
    }
    proof {
        assert(text.take(text.len() as int) =~= text);
    }
    n
}

/// A word count never exceeds the number of characters.
pub proof fn lemma_word_count_at_most_chars(s: Seq<char>)
    ensures
        word_count_of(s) <= s.len(),
    decreases s.len(),
{
    if s.len() > 0 {
        lemma_word_count_at_most_chars(s.drop_last());
    }
}

proof fn lemma_starts_word_in_suffix(a: Seq<char>, b: Seq<char>, i: int)
    requires
        0 <= i < b.len(),
        a.len() > 0,
        is_whitespace_char(a.last()),
    ensures
        starts_word(a + b, a.len() + i) == starts_word(b, i),
{
    let s = a + b;
    assert(s[a.len() + i] == b[i]);
    if i == 0 {
        assert(s[a.len() + i - 1] == a.last());
    } else {
        assert(s[a.len() + i - 1] == b[i - 1]);
    }
}

/// Joining two texts with white space between them adds up their words.
pub proof fn lemma_word_count_concat(a: Seq<char>, b: Seq<char>)
    requires
        a.len() > 0,
        is_whitespace_char(a.last()),
    ensures
        word_count_of(a + b) == word_count_of(a) + word_count_of(b),
    decreases b.len(),
{
    if b.len() == 0 {
        assert(a + b =~= a);
    } else {
        lemma_word_count_concat(a, b.drop_last());
        assert((a + b).drop_last() =~= a + b.drop_last());
        lemma_starts_word_in_suffix(a, b, b.len() - 1);
    }
}

/// The character for a decimal digit.
pub open spec fn digit_char(d: nat) -> char {
    if d == 0 {
        '0'
    } else if d == 1 {
        '1'
    } else if d == 2 {
        '2'
    } else if d == 3 {
        '3'
    } else if d == 4 {
        '4'
    } else if d == 5 {
        '5'
    } else if d == 6 {
        '6'
    } else if d == 7 {
        '7'
    } else if d == 8 {
        '8'
    } else {
        '9'
    }
}

/// The value of a digit character.
pub open spec fn digit_value(c: char) -> nat {
    if c == '0' {
        0
    } else if c == '1' {
        1
    } else if c == '2' {
        2
    } else if c == '3' {
        3
    } else if c == '4' {
        4
    } else if c == '5' {
        5
    } else if c == '6' {
        6
    } else if c == '7' {
        7
    } else if c == '8' {
        8
    } else {
        9
    }
}

/// The decimal notation of `n`, without sign or leading zeros.
pub open spec fn decimal(n: nat) -> Seq<char>
    decreases n,
{
    if n < 10 {
        seq![digit_char(n)]
    } else {
        decimal(n / 10).push(digit_char(n % 10))
    }
}

/// The number that a sequence of digit characters denotes.
pub open spec fn decimal_value(s: Seq<char>) -> nat
    decreases s.len(),
{
    if s.len() == 0 {
        0
    } else {
        decimal_value(s.drop_last()) * 10 + digit_value(s.last())
    }
}

/// Reading back the decimal notation of `n` gives `n`.
pub proof fn lemma_decimal_value(n: nat)
    ensures
        decimal_value(decimal(n)) == n,
        decimal(n).len() > 0,
    decreases n,
{
    let d = decimal(n);
    if n >= 10 {
        lemma_decimal_value(n / 10);
        assert(d.drop_last() =~= decimal(n / 10));
        assert(digit_value(d.last()) == n % 10);
        assert(n == (n / 10) * 10 + n % 10);
        assert(decimal_value(d) == decimal_value(d.drop_last()) * 10 + digit_value(d.last()));
    } else {
        assert(d.drop_last() =~= Seq::<char>::empty());
        assert(digit_value(d.last()) == n);
        assert(decimal_value(d) == decimal_value(d.drop_last()) * 10 + digit_value(d.last()));
    }
}

/// Different numbers have different decimal notations.
pub proof fn lemma_decimal_injective(a: nat, b: nat)
    requires
        decimal(a) == decimal(b),
    ensures
        a == b,
{
    lemma_decimal_value(a);
    lemma_decimal_value(b);
}

/// Appends `c` to `s`.
#[verifier::external_body]
pub(crate) fn push_char(s: &mut String, c: char)
    ensures
        final(s)@ == old(s)@.push(c),
{
    s.push(c);
}

/// The digit character for `d < 10`.
pub fn digit(d: u64) -> (c: char)
    requires
        d < 10,
    ensures
        c == digit_char(d as nat),
{
    if d == 0 {
        '0'
    } else if d == 1 {
        '1'
    } else if d == 2 {
        '2'
    } else if d == 3 {
        '3'
    } else if d == 4 {
        '4'
    } else if d == 5 {
        '5'
    } else if d == 6 {
        '6'
    } else if d == 7 {
        '7'
    } else if d == 8 {
        '8'
    } else {
        '9'
    }
}

/// Appends the decimal notation of `n` to `s`.
pub fn push_decimal(s: &mut String, n: u64)
    ensures
        final(s)@ == old(s)@ + decimal(n as nat),
    decreases n,
{
    if n >= 10 {
        push_decimal(s, n / 10);
    }
    push_char(s, digit(n % 10));
    proof {
        if n >= 10 {
            assert(decimal(n as nat) == decimal((n / 10) as nat).push(digit_char((n % 10) as nat)));
        }
    }
}

/// The decimal notation of `n` (as `n.to_string()`).
pub fn decimal_string(n: u64) -> (s: String)
    ensures
        s@ == decimal(n as nat),
{
    let mut s = String::new();
    push_decimal(&mut s, n);
    s
}

/// A string made of the given characters.
pub fn string_of(chars: &[char]) -> (s: String)
    ensures
        s@ == chars@,
{
    let mut s = String::new();
    for i in 0..chars.len()
        invariant
            s@ == chars@.take(i as int),
    {
        push_char(&mut s, chars[i]);
        assert(chars@.take(i as int).push(chars@[i as int]) =~= chars@.take(i + 1));
    }
    assert(chars@.take(chars@.len() as int) =~= chars@);
    s
}

/// The texts of a list of strings.
pub open spec fn strings_view(v: Seq<String>) -> Seq<Seq<char>> {
    v.map_values(|s: String| s@)
}

/// A text that is not empty and holds no white space is one word.
pub proof fn lemma_no_whitespace_one_word(s: Seq<char>)
    requires
        s.len() > 0,
        forall|i: int| 0 <= i < s.len() ==> !is_whitespace_char(#[trigger] s[i]),
    ensures
        word_count_of(s) == 1,
    decreases s.len(),
{
    let p = s.drop_last();
    if p.len() > 0 {
        assert forall|i: int| 0 <= i < p.len() implies !is_whitespace_char(#[trigger] p[i]) by {
            assert(p[i] == s[i]);
        }
        lemma_no_whitespace_one_word(p);
        assert(!is_whitespace_char(s[s.len() - 2]));
        assert(!starts_word(s, s.len() - 1));
    } else {
        assert(word_count_of(p) == 0);
        assert(starts_word(s, 0));
    }
}

/// A text made only of white space has no words.
pub proof fn lemma_only_whitespace_no_words(s: Seq<char>)
    requires
        forall|i: int| 0 <= i < s.len() ==> is_whitespace_char(#[trigger] s[i]),
    ensures
        word_count_of(s) == 0,
    decreases s.len(),
{
    if s.len() > 0 {
        let p = s.drop_last();
        assert forall|i: int| 0 <= i < p.len() implies is_whitespace_char(#[trigger] p[i]) by {
            assert(p[i] == s[i]);
        }
        lemma_only_whitespace_no_words(p);
        assert(is_whitespace_char(s[s.len() - 1]));
    }
}

/// A digit character is the character `0` advanced by the digit's value, and
/// reads back as that value.
pub proof fn lemma_digit_char_code(d: nat)
    requires
        d < 10,
    ensures
        digit_char(d) as u32 == 0x30 + d,
        digit_value(digit_char(d)) == d,
{
}

/// A number's decimal notation has no leading zero, except for zero itself.
pub proof fn lemma_decimal_no_leading_zero(n: nat)
    ensures
        decimal(n).len() > 0,
        decimal(n)[0] == '0' <==> n == 0,
    decreases n,
{
    if n >= 10 {
        lemma_decimal_no_leading_zero(n / 10);
        assert(decimal(n)[0] == decimal(n / 10)[0]);
    }
}

} // verus!
