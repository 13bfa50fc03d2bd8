//! Synthetic input: keys and chords, the path of a drag, and the sequences of calls
//! that an action is.
//!
//! A sequence that presses something lifts it again, however it ends: everything
//! that was pressed is released in reverse order after the last call and after any
//! failure, and a clipboard that was borrowed is given back.

use serde_json::Value;
use vstd::prelude::*;

use crate::json;
use crate::json::Json;
use crate::text;
use crate::wire;
use crate::wire::{Failure, FailureView};

verus! {

/// A key.
#[derive(Clone, Copy, Debug, PartialEq, Eq, Structural)]
pub enum Key {
    Unicode(char),
    Return,
    Tab,
    Escape,
    Space,
    Backspace,
    Delete,
    UpArrow,
    DownArrow,
    LeftArrow,
    RightArrow,
    Home,
    End,
    PageUp,
    PageDown,
    F1,
    F2,
    F3,
    F4,
    F5,
    F6,
    F7,
    F8,
    F9,
    F10,
    F11,
    F12,
    Meta,
    Control,
    Alt,
    Shift,
}

/// A pointer button.
#[derive(Clone, Copy, Debug, PartialEq, Eq, Structural)]
pub enum Button {
    Left,
    Right,
}

/// What is done to a key or a button.
#[derive(Clone, Copy, Debug, PartialEq, Eq, Structural)]
pub enum Direction {
    Press,
    Release,
    Click,
}

/// The axis a scroll runs along.
#[derive(Clone, Copy, Debug, PartialEq, Eq, Structural)]
pub enum Axis {
    Horizontal,
    Vertical,
}

// --- names --------------------------------------------------------------------

/// The modifier a name stands for.
pub open spec fn modifier_named(name: Seq<char>) -> Option<Key> {
    if name == "cmd"@ || name == "meta"@ || name == "super"@ {
        Some(Key::Meta)
    } else if name == "ctrl"@ || name == "control"@ {
        Some(Key::Control)
    } else if name == "alt"@ || name == "option"@ {
        Some(Key::Alt)
    } else if name == "shift"@ {
        Some(Key::Shift)
    } else {
        None
    }
}

/// The modifier a name stands for.
pub fn modifier_key(name: &str) -> (r: Option<Key>)
    ensures
        r == modifier_named(name@),
{
    if text::same(name, "cmd") || text::same(name, "meta") || text::same(name, "super") {
        Some(Key::Meta)
    } else if text::same(name, "ctrl") || text::same(name, "control") {
        Some(Key::Control)
    } else if text::same(name, "alt") || text::same(name, "option") {
        Some(Key::Alt)
    } else if text::same(name, "shift") {
        Some(Key::Shift)
    } else {
        None
    }
}

/// What a text is in lower case.
pub uninterp spec fn lower_case(text: Seq<char>) -> Seq<char>;

/// `str::to_lowercase`: the text in lower case, by the Unicode tables and whatever
/// the locale.
#[verifier::external_body]
fn to_lower(text: &str) -> (r: String)
    ensures
        r@ == lower_case(text@),
{
    text.to_lowercase()
}

/// The key a lower-case name stands for.
pub open spec fn key_named(lower: Seq<char>) -> Option<Key> {
    if lower == "enter"@ || lower == "return"@ {
        Some(Key::Return)
    } else if lower == "tab"@ {
        Some(Key::Tab)
    } else if lower == "esc"@ || lower == "escape"@ {
        Some(Key::Escape)
    } else if lower == "space"@ {
        Some(Key::Space)
    } else if lower == "backspace"@ {
        Some(Key::Backspace)
    } else if lower == "delete"@ || lower == "del"@ {
        Some(Key::Delete)
    } else if lower == "up"@ {
        Some(Key::UpArrow)
    } else if lower == "down"@ {
        Some(Key::DownArrow)
    } else if lower == "left"@ {
        Some(Key::LeftArrow)
    } else if lower == "right"@ {
        Some(Key::RightArrow)
    } else if lower == "home"@ {
        Some(Key::Home)
    } else if lower == "end"@ {
        Some(Key::End)
    } else if lower == "pageup"@ {
        Some(Key::PageUp)
    } else if lower == "pagedown"@ {
        Some(Key::PageDown)
    } else if lower == "f1"@ {
        Some(Key::F1)
    } else if lower == "f2"@ {
        Some(Key::F2)
    } else if lower == "f3"@ {
        Some(Key::F3)
    } else if lower == "f4"@ {
        Some(Key::F4)
    } else if lower == "f5"@ {
        Some(Key::F5)
    } else if lower == "f6"@ {
        Some(Key::F6)
    } else if lower == "f7"@ {
        Some(Key::F7)
    } else if lower == "f8"@ {
        Some(Key::F8)
    } else if lower == "f9"@ {
        Some(Key::F9)
    } else if lower == "f10"@ {
        Some(Key::F10)
    } else if lower == "f11"@ {
        Some(Key::F11)
    } else if lower == "f12"@ {
        Some(Key::F12)
    } else {
        None
    }
}

/// The key a chord's token stands for, given the token in lower case: a named key,
/// or else the one character the token is.
pub open spec fn key_of(token: Seq<char>, lower: Seq<char>) -> Option<Key> {
    match key_named(lower) {
        Some(key) => Some(key),
        None => if token.len() == 1 {
            Some(Key::Unicode(token[0]))
        } else {
            None
        },
    }
}

/// Each name stands for the key that is called so.
pub proof fn a_key_is_called_by_its_name()
    ensures
        key_named("enter"@) == Some(Key::Return),
        key_named("return"@) == Some(Key::Return),
        key_named("tab"@) == Some(Key::Tab),
        key_named("esc"@) == Some(Key::Escape),
        key_named("escape"@) == Some(Key::Escape),
        key_named("space"@) == Some(Key::Space),
        key_named("backspace"@) == Some(Key::Backspace),
        key_named("delete"@) == Some(Key::Delete),
        key_named("del"@) == Some(Key::Delete),
        key_named("up"@) == Some(Key::UpArrow),
        key_named("down"@) == Some(Key::DownArrow),
        key_named("left"@) == Some(Key::LeftArrow),
        key_named("right"@) == Some(Key::RightArrow),
        key_named("home"@) == Some(Key::Home),
        key_named("end"@) == Some(Key::End),
        key_named("pageup"@) == Some(Key::PageUp),
        key_named("pagedown"@) == Some(Key::PageDown),
        key_named("f1"@) == Some(Key::F1),
        key_named("f2"@) == Some(Key::F2),
        key_named("f3"@) == Some(Key::F3),
        key_named("f4"@) == Some(Key::F4),
        key_named("f5"@) == Some(Key::F5),
        key_named("f6"@) == Some(Key::F6),
        key_named("f7"@) == Some(Key::F7),
        key_named("f8"@) == Some(Key::F8),
        key_named("f9"@) == Some(Key::F9),
        key_named("f10"@) == Some(Key::F10),
        key_named("f11"@) == Some(Key::F11),
        key_named("f12"@) == Some(Key::F12),
{
    reveal_strlit("enter");
    reveal_strlit("return");
    reveal_strlit("tab");
    reveal_strlit("esc");
    reveal_strlit("escape");
    reveal_strlit("space");
    reveal_strlit("backspace");
    reveal_strlit("delete");
    reveal_strlit("del");
    reveal_strlit("up");
    reveal_strlit("down");
    reveal_strlit("left");
    reveal_strlit("right");
    reveal_strlit("home");
    reveal_strlit("end");
    reveal_strlit("pageup");
    reveal_strlit("pagedown");
    reveal_strlit("f1");
    reveal_strlit("f2");
    reveal_strlit("f3");
    reveal_strlit("f4");
    reveal_strlit("f5");
    reveal_strlit("f6");
    reveal_strlit("f7");
    reveal_strlit("f8");
    reveal_strlit("f9");
    reveal_strlit("f10");
    reveal_strlit("f11");
    reveal_strlit("f12");
    assert("enter"@.len() == 5 && "enter"@[0] == 'e');
    assert("return"@.len() == 6 && "return"@[0] == 'r');
    assert("tab"@.len() == 3 && "tab"@[0] == 't');
    assert("esc"@.len() == 3 && "esc"@[0] == 'e' && "esc"@[1] == 's');
    assert("escape"@.len() == 6 && "escape"@[0] == 'e');
    assert("space"@.len() == 5 && "space"@[0] == 's');
    assert("backspace"@.len() == 9);
    assert("delete"@.len() == 6 && "delete"@[0] == 'd');
    assert("del"@.len() == 3 && "del"@[0] == 'd');
    assert("up"@.len() == 2 && "up"@[0] == 'u');
    assert("down"@.len() == 4 && "down"@[0] == 'd');
    assert("left"@.len() == 4 && "left"@[0] == 'l');
    assert("right"@.len() == 5 && "right"@[0] == 'r');
    assert("home"@.len() == 4 && "home"@[0] == 'h');
    assert("end"@.len() == 3 && "end"@[0] == 'e' && "end"@[1] == 'n');
    assert("pageup"@.len() == 6 && "pageup"@[0] == 'p');
    assert("pagedown"@.len() == 8);
    assert("f1"@.len() == 2 && "f1"@[0] == 'f' && "f1"@[1] == '1');
    assert("f2"@.len() == 2 && "f2"@[0] == 'f' && "f2"@[1] == '2');
    assert("f3"@.len() == 2 && "f3"@[0] == 'f' && "f3"@[1] == '3');
    assert("f4"@.len() == 2 && "f4"@[0] == 'f' && "f4"@[1] == '4');
    assert("f5"@.len() == 2 && "f5"@[0] == 'f' && "f5"@[1] == '5');
    assert("f6"@.len() == 2 && "f6"@[0] == 'f' && "f6"@[1] == '6');
    assert("f7"@.len() == 2 && "f7"@[0] == 'f' && "f7"@[1] == '7');
    assert("f8"@.len() == 2 && "f8"@[0] == 'f' && "f8"@[1] == '8');
    assert("f9"@.len() == 2 && "f9"@[0] == 'f' && "f9"@[1] == '9');
    assert("f10"@.len() == 3 && "f10"@[0] == 'f' && "f10"@[2] == '0');
    assert("f11"@.len() == 3 && "f11"@[0] == 'f' && "f11"@[2] == '1');
    assert("f12"@.len() == 3 && "f12"@[0] == 'f' && "f12"@[2] == '2');
}

/// Two names stand for one key only where both are its names: Return, Escape and
/// Delete have two names each, and every other key has one.
pub proof fn no_two_keys_share_a_name(a: Seq<char>, b: Seq<char>)
    requires
        key_named(a) is Some,
        key_named(a) == key_named(b),
    ensures
        ({
            ||| a == b
            ||| (a == "enter"@ || a == "return"@) && (b == "enter"@ || b == "return"@)
            ||| (a == "esc"@ || a == "escape"@) && (b == "esc"@ || b == "escape"@)
            ||| (a == "delete"@ || a == "del"@) && (b == "delete"@ || b == "del"@)
        }),
{
}

/// A name stands for a key that is neither a modifier nor a character, and every such
/// key has a name.
pub proof fn every_other_key_has_a_name(key: Key)
    ensures
        (exists|name: Seq<char>| #[trigger] key_named(name) == Some(key)) <==> !(key is Unicode
            || key == Key::Meta || key == Key::Control || key == Key::Alt || key == Key::Shift),
{
    a_key_is_called_by_its_name();
}

/// A token that is no name is the one character it is, in its own case; a name is
/// never taken for a character, and anything longer that is no name is no key.
pub proof fn a_token_is_a_name_or_a_character(token: Seq<char>, lower: Seq<char>, c: char)
    ensures
        key_named(lower) is Some ==> key_of(token, lower) == key_named(lower),
        key_named(lower) is None ==> (key_of(token, lower) is Some <==> token.len() == 1),
        key_of(token, lower) == Some(Key::Unicode(c)) <==> key_named(lower) is None && token
            == seq![c],
{
    if token.len() == 1 && token[0] == c {
        assert(token =~= seq![c]);
    }
}

/// Each modifier's names stand for it.
pub proof fn a_modifier_is_called_by_its_names()
    ensures
        modifier_named("cmd"@) == Some(Key::Meta),
        modifier_named("meta"@) == Some(Key::Meta),
        modifier_named("super"@) == Some(Key::Meta),
        modifier_named("ctrl"@) == Some(Key::Control),
        modifier_named("control"@) == Some(Key::Control),
        modifier_named("alt"@) == Some(Key::Alt),
        modifier_named("option"@) == Some(Key::Alt),
        modifier_named("shift"@) == Some(Key::Shift),
{
    reveal_strlit("cmd");
    reveal_strlit("meta");
    reveal_strlit("super");
    reveal_strlit("ctrl");
    reveal_strlit("control");
    reveal_strlit("alt");
    reveal_strlit("option");
    reveal_strlit("shift");
    assert("cmd"@.len() == 3 && "cmd"@[0] == 'c');
    assert("meta"@.len() == 4 && "meta"@[0] == 'm');
    assert("super"@.len() == 5 && "super"@[1] == 'u');
    assert("ctrl"@.len() == 4 && "ctrl"@[0] == 'c');
    assert("control"@.len() == 7);
    assert("alt"@.len() == 3 && "alt"@[0] == 'a');
    assert("option"@.len() == 6);
    assert("shift"@.len() == 5 && "shift"@[1] == 'h');
}

/// What names a modifier is one of its names, and names no other.
pub proof fn a_modifier_has_only_its_names(name: Seq<char>)
    ensures
        modifier_named(name) == Some(Key::Meta) <==> name == "cmd"@ || name == "meta"@ || name
            == "super"@,
        modifier_named(name) == Some(Key::Control) <==> name == "ctrl"@ || name == "control"@,
        modifier_named(name) == Some(Key::Alt) <==> name == "alt"@ || name == "option"@,
        modifier_named(name) == Some(Key::Shift) <==> name == "shift"@,
        modifier_named(name) matches Some(key) ==> key == Key::Meta || key == Key::Control || key
            == Key::Alt || key == Key::Shift,
{
    a_modifier_is_called_by_its_names();
}

fn key_by_name(lower: &str) -> (r: Option<Key>)
    ensures
        r == key_named(lower@),
{
    if text::same(lower, "enter") || text::same(lower, "return") {
        Some(Key::Return)
    } else if text::same(lower, "tab") {
        Some(Key::Tab)
    } else if text::same(lower, "esc") || text::same(lower, "escape") {
        Some(Key::Escape)
    } else if text::same(lower, "space") {
        Some(Key::Space)
    } else if text::same(lower, "backspace") {
        Some(Key::Backspace)
    } else if text::same(lower, "delete") || text::same(lower, "del") {
        Some(Key::Delete)
    } else if text::same(lower, "up") {
        Some(Key::UpArrow)
    } else if text::same(lower, "down") {
        Some(Key::DownArrow)
    } else if text::same(lower, "left") {
        Some(Key::LeftArrow)
    } else if text::same(lower, "right") {
        Some(Key::RightArrow)
    } else if text::same(lower, "home") {
        Some(Key::Home)
    } else if text::same(lower, "end") {
        Some(Key::End)
    } else if text::same(lower, "pageup") {
        Some(Key::PageUp)
    } else if text::same(lower, "pagedown") {
        Some(Key::PageDown)
    } else if text::same(lower, "f1") {
        Some(Key::F1)
    } else if text::same(lower, "f2") {
        Some(Key::F2)
    } else if text::same(lower, "f3") {
        Some(Key::F3)
    } else if text::same(lower, "f4") {
        Some(Key::F4)
    } else if text::same(lower, "f5") {
        Some(Key::F5)
    } else if text::same(lower, "f6") {
        Some(Key::F6)
    } else if text::same(lower, "f7") {
        Some(Key::F7)
    } else if text::same(lower, "f8") {
        Some(Key::F8)
    } else if text::same(lower, "f9") {
        Some(Key::F9)
    } else if text::same(lower, "f10") {
        Some(Key::F10)
    } else if text::same(lower, "f11") {
        Some(Key::F11)
    } else if text::same(lower, "f12") {
        Some(Key::F12)
    } else {
        None
    }
}

/// The key a chord's token stands for, given the token in lower case.
pub fn key_for(token: &str, lower: &str) -> (r: Option<Key>)
    ensures
        r == key_of(token@, lower@),
{
    match key_by_name(lower) {
        Some(key) => Some(key),
        None => if token.unicode_len() == 1 {
            Some(Key::Unicode(token.get_char(0)))
        } else {
            None
        },
    }
}

/// The key a chord's token stands for: a named key in any case, or the one character
/// the token is.
pub fn named_key(name: &str) -> (r: Option<Key>)
    ensures
        r == key_of(name@, lower_case(name@)),
{
    key_for(name, to_lower(name).as_str())
}

/// The modifiers a request names, in order; a name that is no modifier is passed
/// over.
pub open spec fn modifiers_of(names: Seq<Json>) -> Seq<Key>
    decreases names.len(),
{
    if names.len() == 0 {
        Seq::empty()
    } else {
        let before = modifiers_of(names.drop_last());
        match names.last() {
            Json::Text(name) => match modifier_named(name) {
                Some(key) => before.push(key),
                None => before,
            },
            _ => before,
        }
    }
}

/// The modifiers of a request: those of its list, and none where it has no list.
pub open spec fn request_modifiers(body: Json) -> Seq<Key> {
    match json::field(body, "modifiers"@) {
        Some(Json::List(names)) => modifiers_of(names),
        _ => Seq::empty(),
    }
}

/// The modifiers a request names.
pub fn modifiers(req: &Value) -> (r: Vec<Key>)
    ensures
        r@ == request_modifiers(json::json_of(*req)),
{
    let mut out: Vec<Key> = Vec::new();
    let list = match json::member(req, "modifiers") {
        Some(list) => list,
        None => return out,
    };
    let names = match list.as_array() {
        Some(names) => names,
        None => return out,
    };
    let ghost said = json::json_list(names@);
    let mut i: usize = 0;
    while i < names.len()
        invariant
            i <= names@.len(),
            said == json::json_list(names@),
            out@ == modifiers_of(said.take(i as int)),
        decreases names@.len() - i,
    {
        assert(said.take(i as int + 1).drop_last() =~= said.take(i as int));
        assert(said.take(i as int + 1).last() == json::json_of(names@[i as int]));
        if let Some(name) = names[i].as_str() {
            if let Some(key) = modifier_key(name) {
                out.push(key);
            }
        }
        i += 1;
    }
    assert(said.take(i as int) =~= said);
    out
}

/// The modifiers of a list and then of another are those of the one and then those of
/// the other, and an entry that is no text names none.
pub proof fn listed_modifiers_keep_their_order(names: Seq<Json>, more: Seq<Json>)
    ensures
        modifiers_of(names + more) == modifiers_of(names) + modifiers_of(more),
        forall|name: Seq<char>| #[trigger]
            modifiers_of(seq![Json::Text(name)]) == match modifier_named(name) {
                Some(key) => seq![key],
                None => Seq::empty(),
            },
        forall|entry: Json|
            !(entry is Text) ==> #[trigger] modifiers_of(seq![entry]) == Seq::<Key>::empty(),
    decreases more.len(),
{
    reveal_with_fuel(modifiers_of, 2);
    assert forall|name: Seq<char>| #[trigger]
        modifiers_of(seq![Json::Text(name)]) == match modifier_named(name) {
            Some(key) => seq![key],
            None => Seq::empty(),
        } by {
        assert(seq![Json::Text(name)].drop_last() =~= Seq::empty());
    }
    assert forall|entry: Json| !(entry is Text) implies #[trigger] modifiers_of(seq![entry])
        == Seq::<Key>::empty() by {
        assert(seq![entry].drop_last() =~= Seq::empty());
    }
    if more.len() == 0 {
        assert(names + more =~= names);
        assert(modifiers_of(names) + modifiers_of(more) =~= modifiers_of(names));
    } else {
        listed_modifiers_keep_their_order(names, more.drop_last());
        assert((names + more).drop_last() =~= names + more.drop_last());
        assert((names + more).last() == more.last());
        assert(modifiers_of(names + more) =~= modifiers_of(names) + modifiers_of(more));
    }
}

// --- chords -------------------------------------------------------------------

/// Whether a character is white space: one that Unicode gives the property.
pub open spec fn white_space(c: char) -> bool {
    let code = c as u32;
    ||| 0x09 <= code <= 0x0D
    ||| code == 0x20 || code == 0x85 || code == 0xA0 || code == 0x1680
    ||| 0x2000 <= code <= 0x200A
    ||| code == 0x2028 || code == 0x2029 || code == 0x202F || code == 0x205F || code == 0x3000
}

/// `char::is_whitespace`: whether the character has the Unicode property `White_Space`,
/// which the listed characters have and no other.
#[verifier::external_body]
fn is_white(c: char) -> (r: bool)
    ensures
        r == white_space(c),
{
    c.is_whitespace()
}

/// A text without the white space before it.
pub open spec fn trim_start(text: Seq<char>) -> Seq<char>
    decreases text.len(),
{
    if text.len() > 0 && white_space(text[0]) {
        trim_start(text.skip(1))
    } else {
        text
    }
}

/// A text without the white space after it.
pub open spec fn trim_end(text: Seq<char>) -> Seq<char>
    decreases text.len(),
{
    if text.len() > 0 && white_space(text.last()) {
        trim_end(text.drop_last())
    } else {
        text
    }
}

/// A text without the white space around it.
pub open spec fn trimmed(text: Seq<char>) -> Seq<char> {
    trim_end(trim_start(text))
}

fn trim(text: &str) -> (r: String)
    ensures
        r@ == trimmed(text@),
{
    let size: usize = text.unicode_len();
    let mut start: usize = 0;
    assert(text@.skip(0) =~= text@);
    while start < size && is_white(text.get_char(start))
        invariant
            start <= size,
            size == text@.len(),
            trim_start(text@) == trim_start(text@.skip(start as int)),
        ensures
            start <= size,
            trim_start(text@) == text@.skip(start as int),
        decreases size - start,
    {
        assert(text@.skip(start as int)[0] == text@[start as int]);
        assert(text@.skip(start as int).skip(1) =~= text@.skip(start as int + 1));
        start += 1;
    }
    let mut end: usize = size;
    let ghost rest = text@.skip(start as int);
    assert(text@.subrange(start as int, size as int) =~= rest);
    while end > start && is_white(text.get_char(end - 1))
        invariant
            start <= end <= size,
            size == text@.len(),
            rest == text@.skip(start as int),
            trim_end(rest) == trim_end(text@.subrange(start as int, end as int)),
        ensures
            start <= end <= size,
            trim_end(rest) == text@.subrange(start as int, end as int),
        decreases end,
    {
        let ghost now = text@.subrange(start as int, end as int);
        assert(now.last() == text@[end as int - 1]);
        assert(now.drop_last() =~= text@.subrange(start as int, end as int - 1));
        end -= 1;
    }
    text.substring_char(start, end).to_owned()
}

/// The parts of a chord: what stands between its plus signs, without the white space
/// around each.
pub open spec fn chord_parts(chord: Seq<char>) -> Seq<Seq<char>>
    decreases chord.len(),
{
    let i = first_plus(chord) as int;
    if i < chord.len() {
        seq![trimmed(chord.take(i))] + chord_parts(chord.skip(i + 1))
    } else {
        seq![trimmed(chord)]
    }
}

/// Where the first plus sign of a text is, or its length.
pub open spec fn first_plus(chord: Seq<char>) -> nat
    decreases chord.len(),
{
    if chord.len() == 0 || chord[0] == '+' {
        0
    } else {
        1 + first_plus(chord.skip(1))
    }
}

proof fn plus_found(chord: Seq<char>, i: int)
    requires
        0 <= i <= chord.len(),
        forall|j: int| 0 <= j < i ==> chord[j] != '+',
        i < chord.len() ==> chord[i] == '+',
    ensures
        first_plus(chord) == i,
    decreases chord.len(),
{
    if chord.len() > 0 && chord[0] != '+' {
        let rest = chord.skip(1);
        assert forall|j: int| 0 <= j < i - 1 implies rest[j] != '+' by {
            assert(rest[j] == chord[j + 1]);
        }
        plus_found(rest, i - 1);
    }
}

fn split_chord(chord: &str) -> (r: Vec<String>)
    ensures
        text::texts(r@) == chord_parts(chord@),
        r@.len() > 0,
{
    let size: usize = chord.unicode_len();
    let mut out: Vec<String> = Vec::new();
    let mut start: usize = 0;
    let mut i: usize = 0;
    proof {
        assert(chord@.skip(0) =~= chord@);
        assert(text::texts(out@) + chord_parts(chord@) =~= chord_parts(chord@));
    }
    while i < size
        invariant
            start <= i <= size,
            size == chord@.len(),
            forall|j: int| start <= j < i ==> chord@[j] != '+',
            chord_parts(chord@) == text::texts(out@) + chord_parts(chord@.skip(start as int)),
        decreases size - i,
    {
        if chord.get_char(i) == '+' {
            let ghost rest = chord@.skip(start as int);
            let ghost had = text::texts(out@);
            let part = chord.substring_char(start, i);
            out.push(trim(part));
            proof {
                assert(rest[i - start] == chord@[i as int]);
                assert forall|j: int| 0 <= j < i - start implies rest[j] != '+' by {
                    assert(rest[j] == chord@[j + start]);
                }
                plus_found(rest, i - start);
                assert(part@ =~= rest.take(i - start));
                assert(rest.skip(i - start + 1) =~= chord@.skip(i as int + 1));
                assert(text::texts(out@) =~= had.push(trimmed(part@)));
                assert(had + (seq![trimmed(part@)] + chord_parts(chord@.skip(i as int + 1)))
                    =~= text::texts(out@) + chord_parts(chord@.skip(i as int + 1)));
            }
            start = i + 1;
        }
        i += 1;
    }
    let last = chord.substring_char(start, size);
    let ghost had = text::texts(out@);
    out.push(trim(last));
    proof {
        let rest = chord@.skip(start as int);
        assert(last@ =~= rest);
        assert forall|j: int| 0 <= j < rest.len() implies rest[j] != '+' by {
            assert(rest[j] == chord@[j + start]);
        }
        plus_found(rest, rest.len() as int);
        assert(text::texts(out@) =~= had.push(trimmed(last@)));
        assert(chord_parts(rest) =~= seq![trimmed(rest)]);
        assert(had + seq![trimmed(rest)] =~= had.push(trimmed(rest)));
    }
    out
}

/// The modifiers some names stand for, in order; a name that is none is passed over.
pub open spec fn modifiers_named(names: Seq<Seq<char>>) -> Seq<Key>
    decreases names.len(),
{
    if names.len() == 0 {
        Seq::empty()
    } else {
        let before = modifiers_named(names.drop_last());
        match modifier_named(names.last()) {
            Some(key) => before.push(key),
            None => before,
        }
    }
}

/// A chord: what is held down, and the key that is struck.
#[derive(Debug)]
pub struct Chord {
    pub held: Vec<Key>,
    pub key: Key,
}

/// The chord a text's parts spell, given the last of them in lower case too.
pub open spec fn chord_said(parts: Seq<Seq<char>>, lower: Seq<char>) -> Result<
    (Seq<Key>, Key),
    FailureView,
> {
    match key_of(parts.last(), lower) {
        Some(key) => Ok((modifiers_named(parts.drop_last()), key)),
        None => Err(wire::coded("unknown key: "@ + parts.last())),
    }
}

/// The chord a text spells, given its last part in lower case.
pub open spec fn chord_of(chord: Seq<char>, lower: Seq<char>) -> Result<(Seq<Key>, Key), FailureView> {
    chord_said(chord_parts(chord), lower)
}

/// A chord, as its modifiers and its key.
pub open spec fn chord_told(r: Result<Chord, Failure>) -> Result<(Seq<Key>, Key), FailureView> {
    match r {
        Ok(chord) => Ok((chord.held@, chord.key)),
        Err(failure) => Err(failure@),
    }
}

/// Reads a chord from its parts, given the last of them in lower case too.
pub fn chord_for(parts: &Vec<String>, lower: &str) -> (r: Result<Chord, Failure>)
    requires
        parts@.len() > 0,
    ensures
        chord_told(r) == chord_said(text::texts(parts@), lower@),
{
    let ghost said = text::texts(parts@);
    let last: usize = parts.len() - 1;
    let mut held: Vec<Key> = Vec::new();
    let mut i: usize = 0;
    assert(said.take(0) =~= Seq::empty());
    while i < last
        invariant
            i <= last,
            last == parts@.len() - 1,
            said == text::texts(parts@),
            held@ == modifiers_named(said.take(i as int)),
        decreases last - i,
    {
        assert(said.take(i as int + 1).drop_last() =~= said.take(i as int));
        assert(said.take(i as int + 1).last() == parts@[i as int]@);
        if let Some(key) = modifier_key(parts[i].as_str()) {
            held.push(key);
        }
        i += 1;
    }
    assert(said.take(last as int) =~= said.drop_last());
    assert(said.last() == parts@[last as int]@);
    match key_for(parts[last].as_str(), lower) {
        Some(key) => Ok(Chord { held, key }),
        None => {
            let mut code = "unknown key: ".to_owned();
            code.append(parts[last].as_str());
            Err(Failure { code, detail: None })
        },
    }
}

/// Reads a chord such as `cmd+shift+t`: the last part names the key, the ones before
/// it the modifiers.
pub fn parse_chord(chord: &str) -> (r: Result<Chord, Failure>)
    ensures
        chord_told(r) == chord_of(chord@, lower_case(chord_parts(chord@).last())),
{
    let parts = split_chord(chord);
    let last: usize = parts.len() - 1;
    assert(text::texts(parts@).last() == parts@[last as int]@);
    let lower = to_lower(parts[last].as_str());
    chord_for(&parts, lower.as_str())
}

/// What a key request asks for: the chord it spells.
pub fn key_chord(req: &Value) -> (r: Result<Chord, Failure>)
    ensures
        match json::field_text(json::json_of(*req), "chord"@) {
            Some(chord) => chord_told(r) == chord_of(
                chord,
                lower_case(chord_parts(chord).last()),
            ),
            None => chord_told(r) == Err::<(Seq<Key>, Key), FailureView>(
                wire::coded("missing chord"@),
            ),
        },
{
    match json::text_at(req, "chord") {
        Some(chord) => parse_chord(chord),
        None => Err(Failure::coded("missing chord")),
    }
}

/// The modifiers of some names and then of some more are those of the first and then
/// those of the rest: none is lost, doubled or moved.
pub proof fn modifiers_keep_their_order(names: Seq<Seq<char>>, more: Seq<Seq<char>>)
    ensures
        modifiers_named(names + more) == modifiers_named(names) + modifiers_named(more),
    decreases more.len(),
{
    if more.len() == 0 {
        assert(names + more =~= names);
        assert(modifiers_named(names) + modifiers_named(more) =~= modifiers_named(names));
    } else {
        modifiers_keep_their_order(names, more.drop_last());
        assert((names + more).drop_last() =~= names + more.drop_last());
        assert((names + more).last() == more.last());
        assert(modifiers_named(names + more) =~= modifiers_named(names) + modifiers_named(more));
    }
}

/// A chord whose parts are modifiers and then a key holds exactly those, each where
/// its name stands, and strikes that key.
pub proof fn a_chord_holds_what_it_names(parts: Seq<Seq<char>>, lower: Seq<char>)
    requires
        parts.len() > 0,
        forall|i: int|
            0 <= i < parts.len() - 1 ==> modifier_named(#[trigger] parts[i]) is Some,
        key_of(parts.last(), lower) is Some,
    ensures
        chord_said(parts, lower) matches Ok((held, key)) && {
            &&& held.len() == parts.len() - 1
            &&& forall|i: int|
                0 <= i < held.len() ==> Some(#[trigger] held[i]) == modifier_named(parts[i])
            &&& Some(key) == key_of(parts.last(), lower)
        },
{
    all_are_modifiers(parts.drop_last());
}

proof fn all_are_modifiers(names: Seq<Seq<char>>)
    requires
        forall|i: int| 0 <= i < names.len() ==> modifier_named(#[trigger] names[i]) is Some,
    ensures
        modifiers_named(names).len() == names.len(),
        forall|i: int|
            0 <= i < names.len() ==> Some(#[trigger] modifiers_named(names)[i]) == modifier_named(
                names[i],
            ),
    decreases names.len(),
{
    if names.len() > 0 {
        let before = names.drop_last();
        assert forall|i: int| 0 <= i < before.len() implies modifier_named(
            #[trigger] before[i],
        ) is Some by {
            assert(before[i] == names[i]);
        }
        all_are_modifiers(before);
        assert forall|i: int| 0 <= i < names.len() implies Some(
            #[trigger] modifiers_named(names)[i],
        ) == modifier_named(names[i]) by {
            if i < before.len() {
                assert(modifiers_named(names)[i] == modifiers_named(before)[i]);
                assert(before[i] == names[i]);
            }
        }
    }
}

/// A chord is read at its plus signs: what stands before the first is its first part,
/// without the white space around it, and the rest is read alike.
pub proof fn a_chord_is_read_at_its_plus_signs(first: Seq<char>, rest: Seq<char>)
    requires
        !first.contains('+'),
    ensures
        chord_parts(first) == seq![trimmed(first)],
        chord_parts(first + seq!['+'] + rest) == seq![trimmed(first)] + chord_parts(rest),
{
    let chord = first + seq!['+'] + rest;
    no_plus_before(first, seq!['+'] + rest);
    no_plus_before(first, Seq::empty());
    assert(first + Seq::<char>::empty() =~= first);
    assert(first + (seq!['+'] + rest) =~= chord);
    assert((seq!['+'] + rest)[0] == '+');
    assert(chord.take(first.len() as int) =~= first);
    assert(chord.skip(first.len() as int + 1) =~= rest);
}

proof fn no_plus_before(first: Seq<char>, rest: Seq<char>)
    requires
        !first.contains('+'),
        rest.len() == 0 || rest[0] == '+',
    ensures
        first_plus(first + rest) == first.len(),
    decreases first.len(),
{
    if first.len() == 0 {
        assert(first + rest =~= rest);
    } else {
        assert((first + rest)[0] == first[0]);
        assert(first.contains(first[0]));
        assert((first + rest).skip(1) =~= first.skip(1) + rest);
        assert forall|c: char| first.skip(1).contains(c) implies first.contains(c) by {
            let i = choose|i: int| 0 <= i < first.skip(1).len() && first.skip(1)[i] == c;
            assert(first[i + 1] == c);
        }
        no_plus_before(first.skip(1), rest);
    }
}

/// Trimming takes away the white space around a text and nothing else.
pub proof fn trimming_takes_only_white_space(before: Seq<char>, core: Seq<char>, after: Seq<char>)
    requires
        forall|i: int| 0 <= i < before.len() ==> white_space(#[trigger] before[i]),
        forall|i: int| 0 <= i < after.len() ==> white_space(#[trigger] after[i]),
        core.len() > 0 ==> !white_space(core[0]) && !white_space(core.last()),
    ensures
        trimmed(before + core + after) == core,
{
    white_space_before(before, core + after);
    assert(before + core + after =~= before + (core + after));
    if core.len() > 0 {
        assert((core + after)[0] == core[0]);
    } else {
        white_space_before(after, Seq::empty());
        assert(core + after =~= after + Seq::<char>::empty());
        assert(trim_start(core + after) =~= Seq::empty());
    }
    white_space_after(core, after);
}

proof fn white_space_before(before: Seq<char>, rest: Seq<char>)
    requires
        forall|i: int| 0 <= i < before.len() ==> white_space(#[trigger] before[i]),
    ensures
        trim_start(before + rest) == trim_start(rest),
    decreases before.len(),
{
    if before.len() == 0 {
        assert(before + rest =~= rest);
    } else {
        assert((before + rest)[0] == before[0]);
        assert((before + rest).skip(1) =~= before.skip(1) + rest);
        white_space_before(before.skip(1), rest);
    }
}

proof fn white_space_after(rest: Seq<char>, after: Seq<char>)
    requires
        forall|i: int| 0 <= i < after.len() ==> white_space(#[trigger] after[i]),
    ensures
        trim_end(rest + after) == trim_end(rest),
    decreases after.len(),
{
    if after.len() == 0 {
        assert(rest + after =~= rest);
    } else {
        assert((rest + after).last() == after.last());
        assert((rest + after).drop_last() =~= rest + after.drop_last());
        white_space_after(rest, after.drop_last());
    }
}

// --- scrolling ----------------------------------------------------------------

/// How a text looks with quotes around it and its special characters escaped.
pub uninterp spec fn quoted(text: Seq<char>) -> Seq<char>;

/// `<str as Debug>::fmt`, through `format!`: the text quoted and escaped.
#[verifier::external_body]
fn write_quoted(text: &str) -> (r: String)
    ensures
        r@ == quoted(text@),
{
    format!("{text:?}")
}

/// The low 32 bits of a number, as a signed number.
pub open spec fn low_i32(n: int) -> int {
    let low = n % 0x1_0000_0000;
    if low >= 0x8000_0000 {
        low - 0x1_0000_0000
    } else {
        low
    }
}

/// The negative of a 32-bit number; the least of them has none and stays.
pub open spec fn negated(n: int) -> int {
    if n == -0x8000_0000 {
        n
    } else {
        -n
    }
}

/// How far a scroll goes: three notches unless the request says otherwise.
pub open spec fn scroll_amount(body: Json) -> int {
    match json::field(body, "amount"@) {
        Some(number) => match json::integer_of(number) {
            Some(n) => low_i32(n as int),
            None => 3,
        },
        None => 3,
    }
}

/// The axis and the signed length of a scroll.
pub open spec fn scroll_of(body: Json) -> Result<(Axis, int), FailureView> {
    let amount = scroll_amount(body);
    match json::field_text(body, "direction"@) {
        Some(direction) => if direction == "up"@ {
            Ok((Axis::Vertical, negated(amount)))
        } else if direction == "down"@ {
            Ok((Axis::Vertical, amount))
        } else if direction == "left"@ {
            Ok((Axis::Horizontal, negated(amount)))
        } else if direction == "right"@ {
            Ok((Axis::Horizontal, amount))
        } else {
            Err(wire::coded("bad scroll direction: Some("@ + quoted(direction) + ")"@))
        },
        None => Err(wire::coded("bad scroll direction: None"@)),
    }
}

/// A number that fits keeps its value; one that does not keeps its low 32 bits.
pub proof fn the_low_bits_are_kept(n: int)
    ensures
        -0x8000_0000 <= low_i32(n) <= 0x7fff_ffff,
        (n - low_i32(n)) % 0x1_0000_0000 == 0,
        -0x8000_0000 <= n <= 0x7fff_ffff ==> low_i32(n) == n,
{
}

/// A scroll goes the way it names by as much as it names, three notches where it
/// names none: down and right are counted up, up and left down, so opposite
/// directions undo each other. No other direction is one.
pub proof fn a_scroll_goes_where_it_says(body: Json, n: int)
    requires
        -0x8000_0000 < n <= 0x7fff_ffff,
        match json::field(body, "amount"@) {
            Some(number) => match json::integer_of(number) {
                Some(amount) => amount == n,
                None => n == 3,
            },
            None => n == 3,
        },
    ensures
        json::field_text(body, "direction"@) == Some("down"@) ==> scroll_of(body) == Ok::<
            (Axis, int),
            FailureView,
        >((Axis::Vertical, n)),
        json::field_text(body, "direction"@) == Some("up"@) ==> scroll_of(body) == Ok::<
            (Axis, int),
            FailureView,
        >((Axis::Vertical, -n)),
        json::field_text(body, "direction"@) == Some("right"@) ==> scroll_of(body) == Ok::<
            (Axis, int),
            FailureView,
        >((Axis::Horizontal, n)),
        json::field_text(body, "direction"@) == Some("left"@) ==> scroll_of(body) == Ok::<
            (Axis, int),
            FailureView,
        >((Axis::Horizontal, -n)),
        scroll_of(body) is Ok <==> {
            ||| json::field_text(body, "direction"@) == Some("down"@)
            ||| json::field_text(body, "direction"@) == Some("up"@)
            ||| json::field_text(body, "direction"@) == Some("right"@)
            ||| json::field_text(body, "direction"@) == Some("left"@)
        },
{
    reveal_strlit("up");
    reveal_strlit("down");
    reveal_strlit("left");
    reveal_strlit("right");
    assert("up"@.len() == 2);
    assert("down"@.len() == 4 && "down"@[0] == 'd');
    assert("left"@.len() == 4 && "left"@[0] == 'l');
    assert("right"@.len() == 5);
}

fn truncated(n: i64) -> (r: i32)
    ensures
        r == low_i32(n as int),
{
    let low: i128 = (n as i128 + 0x1_0000_0000_0000_0000) % 0x1_0000_0000;
    assert((n + 0x1_0000_0000_0000_0000) % 0x1_0000_0000 == n % 0x1_0000_0000);
    if low >= 0x8000_0000 {
        (low - 0x1_0000_0000) as i32
    } else {
        low as i32
    }
}

/// What a scroll request asks for: the axis and the signed length.
pub fn parse_scroll(req: &Value) -> (r: Result<(Axis, i32), Failure>)
    ensures
        match r {
            Ok((axis, length)) => scroll_of(json::json_of(*req)) == Ok::<(Axis, int), FailureView>(
                (axis, length as int),
            ),
            Err(failure) => scroll_of(json::json_of(*req)) == Err::<(Axis, int), FailureView>(
                failure@,
            ),
        },
{
    let amount: i32 = match json::member(req, "amount") {
        Some(number) => match number.as_i64() {
            Some(n) => truncated(n),
            None => 3,
        },
        None => 3,
    };
    let back: i32 = if amount == i32::MIN {
        amount
    } else {
        -amount
    };
    match json::text_at(req, "direction") {
        Some(direction) => if text::same(direction, "up") {
            Ok((Axis::Vertical, back))
        } else if text::same(direction, "down") {
            Ok((Axis::Vertical, amount))
        } else if text::same(direction, "left") {
            Ok((Axis::Horizontal, back))
        } else if text::same(direction, "right") {
            Ok((Axis::Horizontal, amount))
        } else {
            let mut code = "bad scroll direction: Some(".to_owned();
            code.append(write_quoted(direction).as_str());
            code.append(")");
            Err(Failure { code, detail: None })
        },
        None => Err(Failure::coded("bad scroll direction: None")),
    }
}

// --- the path of a drag -------------------------------------------------------

/// How many points a drag is walked through, and the dwell at each.
pub const DRAG_STEPS: u32 = 10;

pub const DRAG_STEP_MS: u64 = 20;

/// The dwell after the press, so the target arms its drag.
pub const DRAG_GRAB_MS: u64 = 60;

/// The dwell at the destination, so the drop is observed where it happens.
pub const DRAG_DROP_MS: u64 = 50;

/// A quotient to the nearest whole number, halves away from zero.
pub open spec fn nearest(n: int, d: int) -> int {
    if n >= 0 {
        (2 * n + d) / (2 * d)
    } else {
        -((d - 2 * n) / (2 * d))
    }
}

/// The place `i` of `steps` of the way from one place to another.
pub open spec fn along(from: int, to: int, i: int, steps: int) -> int {
    nearest(from * steps + (to - from) * i, steps)
}

proof fn nearest_grows(a: int, b: int, d: int)
    requires
        a <= b,
        0 < d,
    ensures
        nearest(a, d) <= nearest(b, d),
{
    if a >= 0 {
        vstd::arithmetic::div_mod::lemma_div_is_ordered(2 * a + d, 2 * b + d, 2 * d);
    } else if b < 0 {
        vstd::arithmetic::div_mod::lemma_div_is_ordered(d - 2 * b, d - 2 * a, 2 * d);
    } else {
        vstd::arithmetic::div_mod::lemma_div_pos_is_pos(2 * b + d, 2 * d);
        vstd::arithmetic::div_mod::lemma_div_pos_is_pos(d - 2 * a, 2 * d);
    }
}

proof fn nearest_whole(a: int, d: int)
    requires
        0 < d,
    ensures
        nearest(a * d, d) == a,
{
    let doubled = 2 * d;
    if a >= 0 {
        assert(a * d >= 0) by (nonlinear_arith)
            requires
                a >= 0,
                d > 0,
        ;
        assert(2 * (a * d) + d == doubled * a + d) by (nonlinear_arith)
            requires
                doubled == 2 * d,
        ;
        vstd::arithmetic::div_mod::lemma_fundamental_div_mod_converse(
            2 * (a * d) + d,
            doubled,
            a,
            d,
        );
    } else {
        assert(a * d < 0) by (nonlinear_arith)
            requires
                a < 0,
                d > 0,
        ;
        assert(d - 2 * (a * d) == doubled * (-a) + d) by (nonlinear_arith)
            requires
                doubled == 2 * d,
        ;
        vstd::arithmetic::div_mod::lemma_fundamental_div_mod_converse(
            d - 2 * (a * d),
            doubled,
            -a,
            d,
        );
    }
}

/// A point of a drag lies between its ends, the last is the destination itself, and
/// the way never doubles back.
pub proof fn a_drag_never_doubles_back(from: int, to: int, steps: int, i: int, j: int)
    requires
        0 < steps,
        0 <= i <= j <= steps,
    ensures
        along(from, to, 0, steps) == from,
        along(from, to, steps, steps) == to,
        from <= to ==> from <= along(from, to, i, steps) <= along(from, to, j, steps) <= to,
        from >= to ==> from >= along(from, to, i, steps) >= along(from, to, j, steps) >= to,
{
    assert(from * steps + (to - from) * 0 == from * steps) by (nonlinear_arith);
    assert(from * steps + (to - from) * steps == to * steps) by (nonlinear_arith);
    nearest_whole(from, steps);
    nearest_whole(to, steps);
    let start = from * steps;
    let a = from * steps + (to - from) * i;
    let b = from * steps + (to - from) * j;
    let end = to * steps;
    if from <= to {
        assert(start <= a <= b <= end) by (nonlinear_arith)
            requires
                start == from * steps,
                a == from * steps + (to - from) * i,
                b == from * steps + (to - from) * j,
                end == to * steps,
                0 <= i <= j <= steps,
                from <= to,
        ;
        nearest_grows(start, a, steps);
        nearest_grows(a, b, steps);
        nearest_grows(b, end, steps);
    }
    if from >= to {
        assert(start >= a >= b >= end) by (nonlinear_arith)
            requires
                start == from * steps,
                a == from * steps + (to - from) * i,
                b == from * steps + (to - from) * j,
                end == to * steps,
                0 <= i <= j <= steps,
                from >= to,
        ;
        nearest_grows(end, b, steps);
        nearest_grows(b, a, steps);
        nearest_grows(a, start, steps);
    }
}

/// A drag is evenly spaced: `k` of `steps` of the way, its point is the whole number
/// nearest to the straight line between its ends, and a half goes away from zero.
pub proof fn a_drag_is_evenly_spaced(from: int, to: int, steps: int, k: int)
    requires
        0 < steps,
        0 <= k <= steps,
    ensures
        -steps <= 2 * (steps * along(from, to, k, steps) - (from * steps + (to - from) * k))
            <= steps,
        from * steps + (to - from) * k >= 0 ==> -steps < 2 * (steps * along(from, to, k, steps) - (
        from * steps + (to - from) * k)),
        from * steps + (to - from) * k < 0 ==> 2 * (steps * along(from, to, k, steps) - (from
            * steps + (to - from) * k)) < steps,
{
    let n = from * steps + (to - from) * k;
    let size = if n >= 0 {
        2 * n + steps
    } else {
        steps - 2 * n
    };
    vstd::arithmetic::div_mod::lemma_fundamental_div_mod(size, 2 * steps);
    vstd::arithmetic::div_mod::lemma_mod_bound(size, 2 * steps);
    let whole = size / (2 * steps);
    let rest = size % (2 * steps);
    assert(2 * (steps * whole) == size - rest) by (nonlinear_arith)
        requires
            size == (2 * steps) * whole + rest,
    ;
    assert(steps * (-whole) == -(steps * whole)) by (nonlinear_arith);
}

fn place_along(from: i32, to: i32, i: u32, steps: u32) -> (r: i32)
    requires
        i <= steps,
        0 < steps,
    ensures
        r == along(from as int, to as int, i as int, steps as int),
        -steps <= 2 * (steps * r - (from * steps + (to - from) * i)) <= steps,
{
    proof {
        a_drag_is_evenly_spaced(from as int, to as int, steps as int, i as int);
        a_drag_never_doubles_back(from as int, to as int, steps as int, i as int, i as int);
    }
    let d: i128 = steps as i128;
    assert(-0x8000_0000 * 0xffff_ffff <= from * steps <= 0x7fff_ffff * 0xffff_ffff)
        by (nonlinear_arith)
        requires
            -0x8000_0000 <= from <= 0x7fff_ffff,
            0 <= steps <= 0xffff_ffff,
    ;
    assert(-0xffff_ffff * 0xffff_ffff <= (to - from) * i <= 0xffff_ffff * 0xffff_ffff)
        by (nonlinear_arith)
        requires
            -0x8000_0000 <= from <= 0x7fff_ffff,
            -0x8000_0000 <= to <= 0x7fff_ffff,
            0 <= i <= 0xffff_ffff,
    ;
    let n: i128 = from as i128 * d + (to as i128 - from as i128) * i as i128;
    if n >= 0 {
        ((2 * n + d) / (2 * d)) as i32
    } else {
        let size: i128 = (d - 2 * n) / (2 * d);
        (-size) as i32
    }
}

/// The pointer path of a drag: that many evenly spaced points, the last of which is
/// the destination itself.
pub fn drag_path(fx: i32, fy: i32, tx: i32, ty: i32, steps: u32) -> (r: Vec<(i32, i32)>)
    ensures
        r@.len() == steps,
        forall|k: int|
            0 <= k < steps ==> {
                &&& (#[trigger] r@[k]).0 == along(fx as int, tx as int, k + 1, steps as int)
                &&& r@[k].1 == along(fy as int, ty as int, k + 1, steps as int)
            },
        forall|k: int|
            0 <= k < steps ==> {
                &&& -steps <= 2 * (steps * (#[trigger] r@[k]).0 - (fx * steps + (tx - fx) * (k
                    + 1))) <= steps
                &&& -steps <= 2 * (steps * r@[k].1 - (fy * steps + (ty - fy) * (k + 1))) <= steps
            },
        0 < steps ==> r@[steps - 1] == (tx, ty),
{
    let mut out: Vec<(i32, i32)> = Vec::new();
    let mut i: u32 = 0;
    while i < steps
        invariant
            i <= steps,
            out@.len() == i,
            forall|k: int|
                0 <= k < i ==> {
                    &&& (#[trigger] out@[k]).0 == along(fx as int, tx as int, k + 1, steps as int)
                    &&& out@[k].1 == along(fy as int, ty as int, k + 1, steps as int)
                },
            forall|k: int|
                0 <= k < i ==> {
                    &&& -steps <= 2 * (steps * (#[trigger] out@[k]).0 - (fx * steps + (tx - fx) * (
                    k + 1))) <= steps
                    &&& -steps <= 2 * (steps * out@[k].1 - (fy * steps + (ty - fy) * (k + 1)))
                        <= steps
                },
        decreases steps - i,
    {
        i += 1;
        out.push((place_along(fx, tx, i, steps), place_along(fy, ty, i, steps)));
    }
    proof {
        if 0 < steps {
            let whole = steps as int;
            a_drag_never_doubles_back(fx as int, tx as int, whole, whole, whole);
            a_drag_never_doubles_back(fy as int, ty as int, whole, whole, whole);
        }
    }
    out
}

/// A modifier before a chord is held before what the chord holds, and changes nothing else
/// about it.
pub proof fn a_modifier_comes_before_its_chord(
    first: Seq<char>,
    rest: Seq<char>,
    lower: Seq<char>,
    modifier: Key,
)
    requires
        !first.contains('+'),
        modifier_named(trimmed(first)) == Some(modifier),
    ensures
        match chord_of(rest, lower) {
            Ok((held, key)) => chord_of(first + seq!['+'] + rest, lower) == Ok::<
                (Seq<Key>, Key),
                FailureView,
            >((seq![modifier] + held, key)),
            Err(failure) => chord_of(first + seq!['+'] + rest, lower) == Err::<
                (Seq<Key>, Key),
                FailureView,
            >(failure),
        },
{
    a_chord_is_read_at_its_plus_signs(first, rest);
    let parts = chord_parts(rest);
    let all = chord_parts(first + seq!['+'] + rest);
    a_chord_has_a_part(rest);
    assert(all.last() == parts.last());
    assert(all.drop_last() =~= seq![trimmed(first)] + parts.drop_last());
    modifiers_keep_their_order(seq![trimmed(first)], parts.drop_last());
    reveal_with_fuel(modifiers_named, 2);
    assert(seq![trimmed(first)].drop_last() =~= Seq::empty());
    assert(modifiers_named(seq![trimmed(first)]) =~= seq![modifier]);
}

proof fn a_chord_has_a_part(chord: Seq<char>)
    ensures
        chord_parts(chord).len() > 0,
{
}

/// A text without a plus sign is a chord of its one key, with nothing held.
pub proof fn a_key_alone_is_a_chord(chord: Seq<char>, lower: Seq<char>)
    requires
        !chord.contains('+'),
    ensures
        match key_of(trimmed(chord), lower) {
            Some(key) => chord_of(chord, lower) == Ok::<(Seq<Key>, Key), FailureView>(
                (Seq::empty(), key),
            ),
            None => chord_of(chord, lower) matches Err(failure) && failure.code
                == "unknown key: "@ + trimmed(chord),
        },
{
    a_chord_is_read_at_its_plus_signs(chord, Seq::empty());
    assert(chord_parts(chord).drop_last() =~= Seq::empty());
}

/// The modifiers of a request are those its list names, and none where it has no list.
pub proof fn a_request_names_its_modifiers(body: Json)
    ensures
        request_modifiers(body) == (match json::field(body, "modifiers"@) {
            Some(Json::List(names)) => modifiers_of(names),
            _ => Seq::empty(),
        }),
{
}

} // verus!
