//! Which input events count as key presses, and how each key is shown.
use vstd::prelude::*;
use crate::text::{
    is_ascii_graphic, is_ascii_graphic_char, is_control, is_control_char, push_char, string_of, strings_view,
};

verus! {

/// The keys that are logged by name when pressed.
#[derive(Debug, Clone, Copy, PartialEq, Eq)]
pub enum NamedKey {
    Space,
    Enter,
    Backspace,
    Tab,
    Escape,
    Delete,
    ArrowUp,
    ArrowDown,
    ArrowLeft,
    ArrowRight,
}

/// An input event of the window, reduced to what the logger reads.
pub enum InputEvent {
    /// A key went down or up; `key` is `None` for keys that are not logged by name.
    Key { key: Option<NamedKey>, pressed: bool },
    /// Text was typed.
    Text(String),
    /// Anything else.
    Other,
}

/// How a named key is shown in the log.
pub open spec fn named_key_text(k: NamedKey) -> Seq<char> {
    match k {
        NamedKey::Space => seq!['S', 'p', 'a', 'c', 'e'],
        NamedKey::Enter => seq!['E', 'n', 't', 'e', 'r'],
        NamedKey::Backspace => seq!['B', 'a', 'c', 'k', 's', 'p', 'a', 'c', 'e'],
        NamedKey::Tab => seq!['T', 'a', 'b'],
        NamedKey::Escape => seq!['<', 'E', 's', 'c', 'a', 'p', 'e', '>'],
        NamedKey::Delete => seq!['<', 'D', 'e', 'l', 'e', 't', 'e', '>'],
        NamedKey::ArrowUp => seq!['<', 'U', 'p', '>'],
        NamedKey::ArrowDown => seq!['<', 'D', 'o', 'w', 'n', '>'],
        NamedKey::ArrowLeft => seq!['<', 'L', 'e', 'f', 't', '>'],
        NamedKey::ArrowRight => seq!['<', 'R', 'i', 'g', 'h', 't', '>'],
    }
}

/// How a typed character is shown in the log: between single quotes.
pub open spec fn char_key_text(c: char) -> Seq<char> {
    seq!['\'', c, '\'']
}

/// Whether a typed character is logged: not the space (the space key is logged
/// by name) and printable ASCII or not a control character.
pub open spec fn is_logged_char(c: char) -> bool {
    c != ' ' && (is_ascii_graphic_char(c) || !is_control_char(c))
}

/// The keys logged for typed text, in order.
pub open spec fn text_key_names(t: Seq<char>) -> Seq<Seq<char>>
    decreases t.len(),
{
    if t.len() == 0 {
        Seq::empty()
    } else {
        text_key_names(t.drop_last()) + if is_logged_char(t.last()) {
            seq![char_key_text(t.last())]
        } else {
            Seq::empty()
        }
    }
}

/// The keys logged for one event.
pub open spec fn event_key_names(e: InputEvent) -> Seq<Seq<char>> {
    match e {
        InputEvent::Key { key: Some(k), pressed: true } => seq![named_key_text(k)],
        InputEvent::Text(t) => text_key_names(t@),
        _ => Seq::empty(),
    }
}

/// The keys logged for a sequence of events, in order.
pub open spec fn events_key_names(es: Seq<InputEvent>) -> Seq<Seq<char>>
    decreases es.len(),
{
    if es.len() == 0 {
        Seq::empty()
    } else {
        events_key_names(es.drop_last()) + event_key_names(es.last())
    }
}

/// The name under which a named key is logged.
pub fn key_name(k: NamedKey) -> (s: String)
    ensures
        s@ == named_key_text(k),
{
    let s = match k {
        NamedKey::Space => string_of(&['S', 'p', 'a', 'c', 'e']),
        NamedKey::Enter => string_of(&['E', 'n', 't', 'e', 'r']),
        NamedKey::Backspace => string_of(&['B', 'a', 'c', 'k', 's', 'p', 'a', 'c', 'e']),
        NamedKey::Tab => string_of(&['T', 'a', 'b']),
        NamedKey::Escape => string_of(&['<', 'E', 's', 'c', 'a', 'p', 'e', '>']),
        NamedKey::Delete => string_of(&['<', 'D', 'e', 'l', 'e', 't', 'e', '>']),
        NamedKey::ArrowUp => string_of(&['<', 'U', 'p', '>']),
        NamedKey::ArrowDown => string_of(&['<', 'D', 'o', 'w', 'n', '>']),
        NamedKey::ArrowLeft => string_of(&['<', 'L', 'e', 'f', 't', '>']),
        NamedKey::ArrowRight => string_of(&['<', 'R', 'i', 'g', 'h', 't', '>']),
    };
    proof {
        assert(s@ =~= named_key_text(k));
    }
    s
}

/// The name under which a typed character is logged: `'c'`.
pub fn char_key_name(c: char) -> (s: String)
    ensures
        s@ == char_key_text(c),
{
    let mut s = String::new();
    push_char(&mut s, '\'');
    push_char(&mut s, c);
    push_char(&mut s, '\'');
    assert(s@ =~= char_key_text(c));
    s
}

/// Appends to `out` the keys logged for typed text `t`.
fn push_text_keys(out: &mut Vec<String>, t: &str)
    ensures
        strings_view(final(out)@) == strings_view(old(out)@) + text_key_names(t@),
{
    let ghost text = t@;
    let ghost start = strings_view(out@);
    for c in it: t.chars()
        invariant
            it.seq() == text,
            text == t@,
            0 <= it.index() <= text.len(),
            strings_view(out@) == start + text_key_names(text.take(it.index())),
    {
        let ghost i = it.index();
        let ghost prev = out@;
        proof {
            let p = text.take(i + 1);
            assert(p.drop_last() =~= text.take(i));
            assert(p.last() == c);
        }
        if c != ' ' && (is_ascii_graphic(c) || !is_control(c)) {
            out.push(char_key_name(c));
            proof {
                assert(strings_view(out@) =~= strings_view(prev) + seq![char_key_text(c)]);
            }
        }
        proof {
            assert(strings_view(out@) =~= start + text_key_names(text.take(i + 1)));
        }
    }
    proof {
        assert(text.take(text.len() as int) =~= text);
    }
}

/// The keys to log for a frame's input events, in order: a pressed named key
/// by its name, and each typed character other than the space that is
/// printable ASCII or not a control character, between single quotes.
pub fn keys_from_events(events: &Vec<InputEvent>) -> (keys: Vec<String>)
    ensures
        strings_view(keys@) == events_key_names(events@),
{
    let mut keys: Vec<String> = Vec::new();
    for i in 0..events.len()
        invariant
            strings_view(keys@) == events_key_names(events@.take(i as int)),
    {
        let ghost prev = keys@;
        proof {
            let p = events@.take(i + 1);
            assert(p.drop_last() =~= events@.take(i as int));
            assert(p.last() == events@[i as int]);
        }
        match &events[i] {
            InputEvent::Key { key, pressed } => {
                if *pressed {
                    match key {
                        Some(k) => {
                            keys.push(key_name(*k));
                            proof {
                                assert(strings_view(keys@) =~= strings_view(prev) + seq![
                                    named_key_text(*k),
                                ]);
                            }
                        },
                        None => {
                            assert(strings_view(keys@) =~= strings_view(prev) + Seq::<
                                Seq<char>,
                            >::empty());
                        },
                    }
                } else {
                    assert(strings_view(keys@) =~= strings_view(prev) + Seq::<
                        Seq<char>,
                    >::empty());
                }
            },
            InputEvent::Text(t) => {
                push_text_keys(&mut keys, t.as_str());
            },
            InputEvent::Other => {
                assert(strings_view(keys@) =~= strings_view(prev) + Seq::<Seq<char>>::empty());
            },
        }
    }
    proof {
        assert(events@.take(events@.len() as int) =~= events@);
    }
    keys
}

/// The keys logged for two texts typed one after the other are those of the
/// first followed by those of the second.
pub proof fn lemma_text_keys_concat(a: Seq<char>, b: Seq<char>)
    ensures
        text_key_names(a + b) == text_key_names(a) + text_key_names(b),
    decreases b.len(),
{
    if b.len() == 0 {
        assert(a + b =~= a);
        assert(text_key_names(a) + text_key_names(b) =~= text_key_names(a));
    } else {
        lemma_text_keys_concat(a, b.drop_last());
        assert((a + b).drop_last() =~= a + b.drop_last());
        assert((a + b).last() == b.last());
        let extra = if is_logged_char(b.last()) {
            seq![char_key_text(b.last())]
        } else {
            Seq::empty()
        };
        assert(text_key_names(a) + text_key_names(b.drop_last()) + extra =~= text_key_names(a)
            + (text_key_names(b.drop_last()) + extra));
    }
}

/// A single typed character is logged as itself between single quotes exactly
/// when it is not the space and is printable ASCII (U+0021..U+007E) or lies
/// outside the control ranges U+0000..U+001F and U+007F..U+009F; otherwise it
/// logs nothing.
pub proof fn lemma_typed_char_key(c: char)
    ensures
        (c != ' ' && ((0x21 <= (c as u32) && (c as u32) <= 0x7E) || !((c as u32) <= 0x1F || (
        0x7F <= (c as u32) && (c as u32) <= 0x9F)))) ==> text_key_names(seq![c]) == seq![
            seq!['\'', c, '\''],
        ],
        (c == ' ' || ((c as u32) <= 0x1F || (0x7F <= (c as u32) && (c as u32) <= 0x9F)))
            ==> text_key_names(seq![c]).len() == 0,
{
    let t = seq![c];
    assert(t.drop_last() =~= Seq::<char>::empty());
    assert(text_key_names(t.drop_last()) == Seq::<Seq<char>>::empty());
    assert(t.last() == c);
    assert(Seq::<Seq<char>>::empty() + seq![seq!['\'', c, '\'']] =~= seq![seq!['\'', c, '\'']]);
    assert(Seq::<Seq<char>>::empty() + Seq::<Seq<char>>::empty() =~= Seq::<Seq<char>>::empty());
    if is_logged_char(c) {
        assert(text_key_names(t) == seq![char_key_text(c)]);
    } else {
        assert(text_key_names(t) =~= Seq::<Seq<char>>::empty());
    }
}

/// Every printable ASCII character other than the space, digits and
/// punctuation included, is logged when typed.
pub proof fn lemma_printable_ascii_logged(c: char)
    requires
        0x21 <= (c as u32) <= 0x7E,
    ensures
        text_key_names(seq![c]) == seq![seq!['\'', c, '\'']],
{
    lemma_typed_char_key(c);
}

} // verus!
