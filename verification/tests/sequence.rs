use compux::input::{
    drag_path, Axis, Button, Direction, Key, DRAG_DROP_MS, DRAG_GRAB_MS, DRAG_STEPS, DRAG_STEP_MS,
};
use compux::sequence::{
    click_seq, drag_seq, key_chord_seq, move_seq, paste_seq, scroll_seq, text_seq, Answer, Call,
    Held, Sequence, PASTE_SETTLE_MS,
};
use compux::serve::{receipt, reply, Dispatched};
use compux::wire::{Dispatch, Envelope, Failure, Receipt};

const DWELL_MS: u64 = 120;

/// A platform that writes down what it is asked for, and refuses one call.
struct Recorder {
    calls: Vec<Call>,
    down: Vec<Held>,
    clipboard: Option<String>,
    refuses: Option<usize>,
    reason: String,
}

impl Recorder {
    fn new(clipboard: Option<&str>) -> Recorder {
        Recorder {
            calls: Vec::new(),
            down: Vec::new(),
            clipboard: clipboard.map(str::to_string),
            refuses: None,
            reason: "refused".to_string(),
        }
    }

    fn refusing(clipboard: Option<&str>, at: usize, reason: &str) -> Recorder {
        let mut recorder = Recorder::new(clipboard);
        recorder.refuses = Some(at);
        recorder.reason = reason.to_string();
        recorder
    }

    fn answer(&mut self, call: &Call) -> Answer {
        let nth = self.calls.len();
        self.calls.push(call.clone());
        if self.refuses == Some(nth) {
            return Answer::Refused(self.reason.clone());
        }
        match call {
            Call::Key(key, Direction::Press) => self.down.push(Held::Key(*key)),
            Call::Button(button, Direction::Press) => self.down.push(Held::Button(*button)),
            Call::Key(key, Direction::Release) => {
                let lifted = Held::Key(*key);
                self.down.retain(|held| *held != lifted);
            }
            Call::Button(button, Direction::Release) => {
                let lifted = Held::Button(*button);
                self.down.retain(|held| *held != lifted);
            }
            Call::ClipboardRead => return Answer::Clipboard(self.clipboard.clone()),
            Call::ClipboardWrite(text) => self.clipboard = Some(text.clone()),
            _ => {}
        }
        Answer::Done
    }

    fn run(&mut self, mut sequence: Sequence) -> Result<(), String> {
        while let Some(call) = sequence.due() {
            let answer = self.answer(&call);
            sequence.answered(answer);
        }
        sequence.outcome()
    }
}

/// Refuses every call of a sequence in turn and demands that nothing is left held and
/// that the clipboard reads as it did before.
fn sweep_injected_failures(clipboard: Option<&str>, sequence: impl Fn() -> Sequence) {
    let mut clean = Recorder::new(clipboard);
    clean.run(sequence()).expect("nothing in its way");
    assert!(clean.down.is_empty());
    assert_eq!(clean.clipboard.as_deref(), clipboard);

    for at in 0..clean.calls.len() {
        let mut platform = Recorder::refusing(clipboard, at, "refused");
        let _ = platform.run(sequence());
        assert!(
            platform.down.is_empty(),
            "call {at} refused left {:?} held",
            platform.down
        );
        assert_eq!(
            platform.clipboard.as_deref(),
            clipboard,
            "call {at} refused kept the clipboard"
        );
    }
}

#[test]
fn click_posts_the_event_sequence_it_always_has() {
    let mut platform = Recorder::new(None);
    platform
        .run(click_seq(120, 240, Button::Left, 2, &[Key::Meta, Key::Shift]))
        .unwrap();

    assert_eq!(
        platform.calls,
        vec![
            Call::MoveMouse(120, 240),
            Call::Settle(120, 240),
            Call::Key(Key::Meta, Direction::Press),
            Call::Key(Key::Shift, Direction::Press),
            Call::Button(Button::Left, Direction::Click),
            Call::Button(Button::Left, Direction::Click),
            Call::Key(Key::Shift, Direction::Release),
            Call::Key(Key::Meta, Direction::Release),
        ]
    );
}

#[test]
fn click_releases_its_modifiers_however_it_fails() {
    sweep_injected_failures(None, || {
        click_seq(12, 34, Button::Right, 2, &[Key::Meta, Key::Shift])
    });
}

#[test]
fn drag_posts_the_event_sequence_it_always_has() {
    let mut platform = Recorder::new(None);
    platform.run(drag_seq(10, 20, 50, 60)).unwrap();

    let mut expected = vec![
        Call::MoveMouse(10, 20),
        Call::Settle(10, 20),
        Call::Button(Button::Left, Direction::Press),
        Call::Sleep(DRAG_GRAB_MS),
    ];
    for &(x, y) in &drag_path(10, 20, 50, 60, DRAG_STEPS) {
        expected.push(Call::DragStep(x, y));
        expected.push(Call::Sleep(DRAG_STEP_MS));
    }
    expected.push(Call::Settle(50, 60));
    expected.push(Call::Sleep(DRAG_DROP_MS));
    expected.push(Call::Button(Button::Left, Direction::Release));

    assert_eq!(platform.calls, expected);
}

#[test]
fn drag_releases_the_button_however_it_fails() {
    sweep_injected_failures(None, || drag_seq(10, 20, 50, 60));
}

#[test]
fn paste_posts_the_event_sequence_it_always_has() {
    let mut platform = Recorder::new(Some("the user's own text"));
    platform
        .run(paste_seq("pasted", Key::Control, DWELL_MS))
        .unwrap();

    assert_eq!(
        platform.calls,
        vec![
            Call::ClipboardRead,
            Call::ClipboardWrite("pasted".to_string()),
            Call::Sleep(PASTE_SETTLE_MS),
            Call::Key(Key::Control, Direction::Press),
            Call::Key(Key::Unicode('v'), Direction::Click),
            Call::Key(Key::Control, Direction::Release),
            Call::Sleep(DWELL_MS),
            Call::ClipboardWrite("the user's own text".to_string()),
        ]
    );
    assert_eq!(platform.clipboard.as_deref(), Some("the user's own text"));
}

#[test]
fn paste_releases_and_restores_the_clipboard_however_it_fails() {
    sweep_injected_failures(Some("the user's own text"), || {
        paste_seq("pasted", Key::Control, DWELL_MS)
    });
}

#[test]
fn key_chord_posts_the_event_sequence_it_always_has() {
    let mut platform = Recorder::new(None);
    platform
        .run(key_chord_seq(&[Key::Meta], Key::Unicode('c')))
        .unwrap();

    assert_eq!(
        platform.calls,
        vec![
            Call::Key(Key::Meta, Direction::Press),
            Call::Key(Key::Unicode('c'), Direction::Click),
            Call::Key(Key::Meta, Direction::Release),
        ]
    );
}

#[test]
fn key_chord_releases_its_modifiers_however_it_fails() {
    sweep_injected_failures(None, || {
        key_chord_seq(&[Key::Meta, Key::Shift, Key::Alt], Key::Tab)
    });
}

// A cancellation that lands inside a drag stops it part way, and the left button
// comes back up.
#[test]
fn a_pause_part_way_through_a_drag_stops_it_and_releases_the_button() {
    // The pointer, the settle, the press, the grab, then a step and its dwell twice.
    let mut platform = Recorder::refusing(None, 7, "cancelled");
    let outcome = platform.run(drag_seq(10, 20, 50, 60));

    assert_eq!(outcome, Err("cancelled".to_string()));
    let presses = platform
        .calls
        .iter()
        .filter(|call| matches!(call, Call::Button(_, Direction::Press)))
        .count();
    let releases = platform
        .calls
        .iter()
        .filter(|call| matches!(call, Call::Button(_, Direction::Release)))
        .count();
    let steps = platform
        .calls
        .iter()
        .filter(|call| matches!(call, Call::DragStep(..)))
        .count();

    assert_eq!(presses, 1);
    assert_eq!(releases, 1, "the left button must not be left down");
    assert!(
        steps > 0 && steps < DRAG_STEPS as usize,
        "the drag must stop part way: {steps}"
    );

    // What the caller is told: input was dispatched and the action did not finish.
    let mut done = Dispatched::nothing();
    done.posted = presses + steps > 0;
    done.cancelled = true;
    let told = receipt("left_click_drag", None, &done, None).expect("a mutation earns one");
    assert_eq!(told.dispatch, Dispatch::Partial);
    let derived = Receipt::derive(done.posted, false, false, done.timings);
    assert_eq!(derived.dispatch, Dispatch::Partial);
}

// A cancelled paste has two things to put back.
#[test]
fn a_pause_during_a_paste_releases_the_modifier_and_restores_the_clipboard() {
    let mut platform = Recorder::refusing(Some("the owner clipboard"), 2, "cancelled");
    let outcome = platform.run(paste_seq("pasted by compux", Key::Control, DWELL_MS));

    assert_eq!(outcome, Err("cancelled".to_string()));
    assert_eq!(
        platform.clipboard.as_deref(),
        Some("the owner clipboard"),
        "a cancelled paste must not keep the user's clipboard"
    );
    assert!(platform.down.is_empty(), "nothing may be left held");

    let mut done = Dispatched::nothing();
    done.cancelled = true;
    let envelope = Envelope {
        sidecar_generation: "boot-1".to_string(),
        session_generation: 1,
    };
    let failure = Failure::coded(&outcome.unwrap_err());
    let frame = reply(&envelope, "r1", "paste", None, Err(failure), &done);
    assert_eq!(frame["error"], serde_json::Value::from("cancelled"));
}

// An empty clipboard has nothing to be given back.
#[test]
fn a_paste_over_an_empty_clipboard_writes_once() {
    let mut platform = Recorder::new(None);
    platform
        .run(paste_seq("pasted", Key::Meta, DWELL_MS))
        .unwrap();
    let writes = platform
        .calls
        .iter()
        .filter(|call| matches!(call, Call::ClipboardWrite(_)))
        .count();
    assert_eq!(writes, 1);
}

#[test]
fn the_actions_without_a_press_are_what_they_say() {
    let mut platform = Recorder::new(None);
    platform.run(move_seq(-3, 4)).unwrap();
    platform
        .run(scroll_seq(1, 2, -7, Axis::Horizontal))
        .unwrap();
    platform.run(text_seq("héllo")).unwrap();
    assert_eq!(
        platform.calls,
        vec![
            Call::MoveMouse(-3, 4),
            Call::Settle(-3, 4),
            Call::MoveMouse(1, 2),
            Call::Settle(1, 2),
            Call::Scroll(-7, Axis::Horizontal),
            Call::Text("héllo".to_string()),
        ]
    );
}

// A release that is refused is asked for once more and then given up: the rest is
// still lifted.
#[test]
fn a_release_refused_twice_strands_nothing_else() {
    let mut sequence = key_chord_seq(&[Key::Meta, Key::Shift], Key::Tab);
    let mut asked = Vec::new();
    while let Some(call) = sequence.due() {
        let refused = call == Call::Key(Key::Shift, Direction::Release);
        asked.push(call);
        sequence.answered(if refused {
            Answer::Refused("no".to_string())
        } else {
            Answer::Done
        });
    }
    assert_eq!(
        asked[3..],
        [
            Call::Key(Key::Shift, Direction::Release),
            Call::Key(Key::Shift, Direction::Release),
            Call::Key(Key::Meta, Direction::Release),
        ]
    );
    assert_eq!(sequence.outcome(), Ok(()));
}
