use serde_json::Value;

use compux::input::{
    chord_for, drag_path, key_chord, modifier_key, modifiers, named_key, parse_chord, parse_scroll,
    Axis, Key, DRAG_STEPS,
};

fn json(text: &str) -> Value {
    serde_json::from_str(text).expect("a JSON text")
}

// The last point must be the destination, the step count fixed, and each axis
// monotonic so the pointer never doubles back mid-drag.
#[test]
fn drag_path_ends_exactly_at_the_destination() {
    let path = drag_path(10, 20, 313, 207, DRAG_STEPS);
    assert_eq!(path.len(), DRAG_STEPS as usize);
    assert_eq!(*path.last().unwrap(), (313, 207));
}

#[test]
fn drag_path_is_monotonic_on_both_axes() {
    let path = drag_path(300, 400, 20, 40, DRAG_STEPS);
    let mut prev = (300, 400);
    for &(x, y) in &path {
        assert!(x <= prev.0, "x doubled back: {x} after {}", prev.0);
        assert!(y <= prev.1, "y doubled back: {y} after {}", prev.1);
        prev = (x, y);
    }
    assert_eq!(prev, (20, 40));
}

#[test]
fn drag_path_handles_a_zero_length_drag() {
    let path = drag_path(50, 60, 50, 60, DRAG_STEPS);
    assert!(path.iter().all(|&p| p == (50, 60)));
}

// Every point of a path, halves away from zero.
#[test]
fn a_path_is_evenly_spaced() {
    assert_eq!(
        drag_path(0, 0, 10, -5, 4),
        vec![(3, -1), (5, -3), (8, -4), (10, -5)]
    );
    assert!(drag_path(1, 2, 3, 4, 0).is_empty());
    let far = drag_path(-2_000_000_000, 0, 147_483_647, 0, 2);
    assert_eq!(far.len(), 2);
    assert_eq!(far[1], (147_483_647, 0));
}

#[test]
fn every_spelling_of_a_modifier_names_it() {
    for name in ["cmd", "meta", "super"] {
        assert_eq!(modifier_key(name), Some(Key::Meta));
    }
    assert_eq!(modifier_key("ctrl"), Some(Key::Control));
    assert_eq!(modifier_key("control"), Some(Key::Control));
    assert_eq!(modifier_key("alt"), Some(Key::Alt));
    assert_eq!(modifier_key("option"), Some(Key::Alt));
    assert_eq!(modifier_key("shift"), Some(Key::Shift));
    assert_eq!(modifier_key("Shift"), None, "a modifier is spelled exactly");
    assert_eq!(modifier_key("hyper"), None);
}

// A name is read without regard to case, and a single character is itself.
#[test]
fn a_key_is_named_or_is_one_character() {
    assert_eq!(named_key("ENTER"), Some(Key::Return));
    assert_eq!(named_key("Return"), Some(Key::Return));
    assert_eq!(named_key("PageDown"), Some(Key::PageDown));
    assert_eq!(named_key("F12"), Some(Key::F12));
    assert_eq!(named_key("A"), Some(Key::Unicode('A')));
    assert_eq!(named_key("é"), Some(Key::Unicode('é')));
    assert_eq!(named_key("nope"), None);
    assert_eq!(named_key(""), None);
}

#[test]
fn a_chord_is_modifiers_and_a_key() {
    let chord = parse_chord("cmd + Shift+ shift +T").expect("a chord");
    assert_eq!(chord.held, vec![Key::Meta, Key::Shift]);
    assert_eq!(chord.key, Key::Unicode('T'));

    let plain = parse_chord(" esc ").expect("a key alone");
    assert!(plain.held.is_empty());
    assert_eq!(plain.key, Key::Escape);

    assert_eq!(parse_chord("cmd+nope").unwrap_err().code, "unknown key: nope");
    assert_eq!(parse_chord("").unwrap_err().code, "unknown key: ");
    assert_eq!(parse_chord("cmd+").unwrap_err().code, "unknown key: ");
}

#[test]
fn the_modifiers_of_a_request_are_the_ones_it_spells() {
    let body = json(r#"{"modifiers": ["cmd", 7, "nope", "shift"]}"#);
    assert_eq!(modifiers(&body), vec![Key::Meta, Key::Shift]);
    assert!(modifiers(&json(r#"{"modifiers": "cmd"}"#)).is_empty());
    assert!(modifiers(&json("{}")).is_empty());
}

#[test]
fn a_scroll_has_a_direction_and_a_length() {
    let scroll = |text: &str| parse_scroll(&json(text));
    assert_eq!(
        scroll(r#"{"direction": "up"}"#),
        Ok((Axis::Vertical, -3)),
        "three notches unless it says otherwise"
    );
    assert_eq!(
        scroll(r#"{"direction": "down", "amount": 7}"#),
        Ok((Axis::Vertical, 7))
    );
    assert_eq!(
        scroll(r#"{"direction": "left", "amount": -2}"#),
        Ok((Axis::Horizontal, 2))
    );
    assert_eq!(
        scroll(r#"{"direction": "right", "amount": 1.5}"#),
        Ok((Axis::Horizontal, 3))
    );
    assert_eq!(
        scroll(r#"{"direction": "side\nways"}"#).unwrap_err().code,
        "bad scroll direction: Some(\"side\\nways\")"
    );
    assert_eq!(
        scroll("{}").unwrap_err().code,
        "bad scroll direction: None"
    );
}

#[test]
fn a_chord_is_its_modifiers_and_its_last_part() {
    let parts = vec!["shift".to_string(), "Home".to_string()];
    let chord = chord_for(&parts, "home").expect("a chord");
    assert_eq!(chord.held, vec![Key::Shift]);
    assert_eq!(chord.key, Key::Home);
    assert_eq!(
        chord_for(&parts, "nowhere").unwrap_err().code,
        "unknown key: Home"
    );
}

#[test]
fn a_key_request_spells_its_chord() {
    let chord = key_chord(&json(r#"{"chord":"ctrl+F5"}"#)).expect("a chord");
    assert_eq!(chord.held, vec![Key::Control]);
    assert_eq!(chord.key, Key::F5);
    assert_eq!(key_chord(&json("{}")).unwrap_err().code, "missing chord");
    assert_eq!(
        key_chord(&json(r#"{"chord":7}"#)).unwrap_err().code,
        "missing chord"
    );
}

#[test]
fn a_chord_is_trimmed_of_every_white_space() {
    for space in [' ', '\t', '\u{85}', '\u{a0}', '\u{1680}', '\u{200a}', '\u{2029}', '\u{3000}'] {
        let chord = parse_chord(&format!("cmd{space}+{space}tab{space}")).expect("a chord");
        assert_eq!(chord.key, Key::Tab, "{space:?}");
        assert_eq!(chord.held, vec![Key::Meta]);
    }
    // A zero-width space is none.
    assert!(parse_chord("cmd+\u{200b}tab").is_err());
}
