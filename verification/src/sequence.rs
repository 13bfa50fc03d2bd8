//! The calls an action makes to the input platform, one at a time, and what is left
//! to do when one of them fails.
//!
//! A press counts as held from the moment its call is due, whatever the platform
//! answers, so a failed press is lifted too. When the calls are over, or one of them
//! is refused, everything that is held is released in reverse order and a clipboard
//! that was borrowed is given back. A release that is refused is asked for once more.

use vstd::multiset::Multiset;
use vstd::prelude::*;

use crate::input;
use crate::input::{Axis, Button, Direction, Key, DRAG_DROP_MS, DRAG_GRAB_MS, DRAG_STEPS, DRAG_STEP_MS};
use crate::text;

verus! {

/// Lets a clipboard write settle before the paste keystroke.
pub const PASTE_SETTLE_MS: u64 = 50;

/// One call to the input platform.
#[derive(Clone, Debug, PartialEq, Eq)]
pub enum Call {
    MoveMouse(i32, i32),
    Settle(i32, i32),
    Key(Key, Direction),
    Button(Button, Direction),
    DragStep(i32, i32),
    Scroll(i32, Axis),
    Text(String),
    Sleep(u64),
    ClipboardRead,
    ClipboardWrite(String),
}

/// What a call says.
pub enum CallView {
    MoveMouse(i32, i32),
    Settle(i32, i32),
    Key(Key, Direction),
    Button(Button, Direction),
    DragStep(i32, i32),
    Scroll(i32, Axis),
    Text(Seq<char>),
    Sleep(u64),
    ClipboardRead,
    ClipboardWrite(Seq<char>),
}

impl View for Call {
    type V = CallView;

    open spec fn view(&self) -> CallView {
        match self {
            Call::MoveMouse(x, y) => CallView::MoveMouse(*x, *y),
            Call::Settle(x, y) => CallView::Settle(*x, *y),
            Call::Key(key, direction) => CallView::Key(*key, *direction),
            Call::Button(button, direction) => CallView::Button(*button, *direction),
            Call::DragStep(x, y) => CallView::DragStep(*x, *y),
            Call::Scroll(length, axis) => CallView::Scroll(*length, *axis),
            Call::Text(text) => CallView::Text(text@),
            Call::Sleep(ms) => CallView::Sleep(*ms),
            Call::ClipboardRead => CallView::ClipboardRead,
            Call::ClipboardWrite(text) => CallView::ClipboardWrite(text@),
        }
    }
}

impl Call {
    fn copy(&self) -> (r: Call)
        ensures
            r@ == self@,
    {
        match self {
            Call::MoveMouse(x, y) => Call::MoveMouse(*x, *y),
            Call::Settle(x, y) => Call::Settle(*x, *y),
            Call::Key(key, direction) => Call::Key(*key, *direction),
            Call::Button(button, direction) => Call::Button(*button, *direction),
            Call::DragStep(x, y) => Call::DragStep(*x, *y),
            Call::Scroll(length, axis) => Call::Scroll(*length, *axis),
            Call::Text(text) => Call::Text(text.clone()),
            Call::Sleep(ms) => Call::Sleep(*ms),
            Call::ClipboardRead => Call::ClipboardRead,
            Call::ClipboardWrite(text) => Call::ClipboardWrite(text.clone()),
        }
    }
}

/// Something that is held down.
#[derive(Clone, Copy, Debug, PartialEq, Eq, Structural)]
pub enum Held {
    Key(Key),
    Button(Button),
}

/// The call that lifts what is held.
pub open spec fn release(held: Held) -> CallView {
    match held {
        Held::Key(key) => CallView::Key(key, Direction::Release),
        Held::Button(button) => CallView::Button(button, Direction::Release),
    }
}

/// What a call presses, if it is a press.
pub open spec fn pressed(call: CallView) -> Option<Held> {
    match call {
        CallView::Key(key, Direction::Press) => Some(Held::Key(key)),
        CallView::Button(button, Direction::Press) => Some(Held::Button(button)),
        _ => None,
    }
}

/// What a call lifts, if it is a release.
pub open spec fn lifted(call: CallView) -> Option<Held> {
    match call {
        CallView::Key(key, Direction::Release) => Some(Held::Key(key)),
        CallView::Button(button, Direction::Release) => Some(Held::Button(button)),
        _ => None,
    }
}

/// What the platform answered to a call.
#[derive(Clone, Debug, PartialEq, Eq)]
pub enum Answer {
    Done,
    /// What the clipboard held when it was read, where it held text.
    Clipboard(Option<String>),
    Refused(String),
}

/// What an answer says.
pub enum AnswerView {
    Done,
    Clipboard(Option<Seq<char>>),
    Refused(Seq<char>),
}

impl View for Answer {
    type V = AnswerView;

    open spec fn view(&self) -> AnswerView {
        match self {
            Answer::Done => AnswerView::Done,
            Answer::Clipboard(held) => AnswerView::Clipboard(text::text_of(*held)),
            Answer::Refused(reason) => AnswerView::Refused(reason@),
        }
    }
}

/// How far the clipboard's return has come.
#[derive(Clone, Copy, Debug, PartialEq, Eq, Structural)]
pub enum Restore {
    /// The dwell before it is next, so what was pasted has been read.
    Dwell,
    /// The write is next.
    Write,
    /// It was given back.
    Back,
    /// It was refused twice.
    Lost,
}

/// An action's calls, and how far they have come.
#[derive(Debug)]
pub struct Sequence {
    plan: Vec<Call>,
    at: usize,
    failure: Option<String>,
    held: Vec<Held>,
    stuck: Vec<Held>,
    saved: Option<String>,
    restore: Restore,
    retrying: bool,
    dwell_ms: u64,
}

/// What a sequence holds.
#[verifier::ext_equal]
pub struct SequenceView {
    /// The calls of the action itself.
    pub plan: Seq<CallView>,
    /// How many of them were made.
    pub at: nat,
    /// Why the action stopped short, if it did.
    pub failure: Option<Seq<char>>,
    /// What is held down and still to be lifted, in the order it was pressed.
    pub held: Seq<Held>,
    /// What could not be lifted.
    pub stuck: Seq<Held>,
    /// What the clipboard held before it was borrowed.
    pub saved: Option<Seq<char>>,
    pub restore: Restore,
    /// Whether the last release or write was refused and is asked for again.
    pub retrying: bool,
    /// The dwell before the clipboard is given back.
    pub dwell_ms: u64,
}

/// What every call of a list says.
pub open spec fn calls(plan: Seq<Call>) -> Seq<CallView> {
    plan.map_values(|call: Call| call@)
}

impl View for Sequence {
    type V = SequenceView;

    closed spec fn view(&self) -> SequenceView {
        SequenceView {
            plan: calls(self.plan@),
            at: self.at as nat,
            failure: text::text_of(self.failure),
            held: self.held@,
            stuck: self.stuck@,
            saved: text::text_of(self.saved),
            restore: self.restore,
            retrying: self.retrying,
            dwell_ms: self.dwell_ms,
        }
    }
}

/// A sequence at its start.
pub open spec fn fresh(plan: Seq<CallView>, dwell_ms: u64) -> SequenceView {
    SequenceView {
        plan,
        at: 0,
        failure: None,
        held: Seq::empty(),
        stuck: Seq::empty(),
        saved: None,
        restore: Restore::Dwell,
        retrying: false,
        dwell_ms,
    }
}

impl SequenceView {
    /// Whether the action's own calls go on.
    pub open spec fn running(self) -> bool {
        self.failure is None && self.at < self.plan.len()
    }

    /// The call that is due, if any is left.
    pub open spec fn due(self) -> Option<CallView> {
        if self.running() {
            Some(self.plan[self.at as int])
        } else if self.held.len() > 0 {
            Some(release(self.held.last()))
        } else {
            match self.saved {
                None => None,
                Some(saved) => match self.restore {
                    Restore::Dwell => Some(CallView::Sleep(self.dwell_ms)),
                    Restore::Write => Some(CallView::ClipboardWrite(saved)),
                    _ => None,
                },
            }
        }
    }

    /// The sequence after the call that was due was answered.
    pub open spec fn answered(self, answer: AnswerView) -> SequenceView {
        if self.running() {
            let call = self.plan[self.at as int];
            SequenceView {
                at: self.at + 1,
                held: match pressed(call) {
                    Some(held) => self.held.push(held),
                    None => self.held,
                },
                failure: match answer {
                    AnswerView::Refused(reason) => Some(reason),
                    _ => None,
                },
                saved: match (call, answer) {
                    (CallView::ClipboardRead, AnswerView::Clipboard(Some(text))) => Some(text),
                    _ => self.saved,
                },
                ..self
            }
        } else if self.held.len() > 0 {
            if answer is Refused && !self.retrying {
                SequenceView { retrying: true, ..self }
            } else {
                SequenceView {
                    held: self.held.drop_last(),
                    stuck: if answer is Refused {
                        self.stuck.push(self.held.last())
                    } else {
                        self.stuck
                    },
                    retrying: false,
                    ..self
                }
            }
        } else if self.saved is Some && self.restore == Restore::Dwell {
            SequenceView { restore: Restore::Write, ..self }
        } else if self.saved is Some && self.restore == Restore::Write {
            if answer is Refused && !self.retrying {
                SequenceView { retrying: true, ..self }
            } else {
                SequenceView {
                    restore: if answer is Refused {
                        Restore::Lost
                    } else {
                        Restore::Back
                    },
                    retrying: false,
                    ..self
                }
            }
        } else {
            self
        }
    }

    /// How many answers at most until nothing is due.
    pub open spec fn left(self) -> nat {
        let to_make: nat = if self.running() {
            (self.plan.len() - self.at) as nat
        } else {
            0
        };
        let to_restore: nat = match self.restore {
            Restore::Dwell => 3,
            Restore::Write => 2,
            _ => 0,
        };
        let twice: nat = if self.retrying {
            0
        } else {
            1
        };
        3 * to_make + 2 * self.held.len() + 2 * to_restore + twice
    }
}

impl Sequence {
    fn new(plan: Vec<Call>, dwell_ms: u64) -> (r: Sequence)
        ensures
            r@ == fresh(calls(plan@), dwell_ms),
    {
        Sequence {
            plan,
            at: 0,
            failure: None,
            held: Vec::new(),
            stuck: Vec::new(),
            saved: None,
            restore: Restore::Dwell,
            retrying: false,
            dwell_ms,
        }
    }

    /// The call to make next. None is left when the sequence is over.
    pub fn due(&self) -> (r: Option<Call>)
        ensures
            match self@.due() {
                Some(call) => r is Some && r->0@ == call,
                None => r is None,
            },
    {
        if self.failure.is_none() && self.at < self.plan.len() {
            return Some(self.plan[self.at].copy());
        }
        if self.held.len() > 0 {
            return Some(
                match self.held[self.held.len() - 1] {
                    Held::Key(key) => Call::Key(key, Direction::Release),
                    Held::Button(button) => Call::Button(button, Direction::Release),
                },
            );
        }
        match &self.saved {
            None => None,
            Some(saved) => match self.restore {
                Restore::Dwell => Some(Call::Sleep(self.dwell_ms)),
                Restore::Write => Some(Call::ClipboardWrite(saved.clone())),
                _ => None,
            },
        }
    }

    /// What the platform answered to the call that was due.
    pub fn answered(&mut self, answer: Answer)
        ensures
            final(self)@ == old(self)@.answered(answer@),
    {
        if self.failure.is_none() && self.at < self.plan.len() {
            match &self.plan[self.at] {
                Call::Key(key, Direction::Press) => {
                    self.held.push(Held::Key(*key));
                },
                Call::Button(button, Direction::Press) => {
                    self.held.push(Held::Button(*button));
                },
                Call::ClipboardRead => {
                    if let Answer::Clipboard(Some(text)) = &answer {
                        self.saved = Some(text.clone());
                    }
                },
                _ => {},
            }
            self.at = self.at + 1;
            if let Answer::Refused(reason) = answer {
                self.failure = Some(reason);
            }
            return;
        }
        let refused = match answer {
            Answer::Refused(_) => true,
            _ => false,
        };
        if self.held.len() > 0 {
            if refused && !self.retrying {
                self.retrying = true;
                return;
            }
            let held = self.held.pop();
            if refused {
                if let Some(held) = held {
                    self.stuck.push(held);
                }
            }
            self.retrying = false;
            return;
        }
        if self.saved.is_none() {
            return;
        }
        match self.restore {
            Restore::Dwell => {
                self.restore = Restore::Write;
            },
            Restore::Write => {
                if refused && !self.retrying {
                    self.retrying = true;
                    return;
                }
                self.restore = if refused {
                    Restore::Lost
                } else {
                    Restore::Back
                };
                self.retrying = false;
            },
            _ => {},
        }
    }

    /// Whether the action ran to its own end, or why it did not.
    pub fn outcome(&self) -> (r: Result<(), String>)
        ensures
            match self@.failure {
                None => r is Ok,
                Some(reason) => r is Err && r->Err_0@ == reason,
            },
    {
        match &self.failure {
            None => Ok(()),
            Some(reason) => Err(reason.clone()),
        }
    }
}

// --- the actions --------------------------------------------------------------

/// The presses of some keys, in order.
pub open spec fn key_presses(keys: Seq<Key>) -> Seq<CallView> {
    keys.map_values(|key: Key| CallView::Key(key, Direction::Press))
}

/// A pointer move: to the point, and there before anything else happens.
pub open spec fn move_plan(x: i32, y: i32) -> Seq<CallView> {
    seq![CallView::MoveMouse(x, y), CallView::Settle(x, y)]
}

/// A click: the pointer there, the modifiers down, and the button as often as asked.
pub open spec fn click_plan(x: i32, y: i32, button: Button, count: nat, mods: Seq<Key>) -> Seq<
    CallView,
> {
    move_plan(x, y) + key_presses(mods) + Seq::new(
        count,
        |i: int| CallView::Button(button, Direction::Click),
    )
}

/// The steps of a drag along its path, with a dwell at each.
pub open spec fn drag_steps(fx: int, fy: int, tx: int, ty: int, count: nat) -> Seq<CallView>
    decreases count,
{
    if count == 0 {
        Seq::empty()
    } else {
        drag_steps(fx, fy, tx, ty, (count - 1) as nat) + seq![
            CallView::DragStep(
                input::along(fx, tx, count as int, DRAG_STEPS as int) as i32,
                input::along(fy, ty, count as int, DRAG_STEPS as int) as i32,
            ),
            CallView::Sleep(DRAG_STEP_MS),
        ]
    }
}

/// A drag: the button down, a dwell, the path, and a dwell where it drops.
pub open spec fn drag_plan(fx: i32, fy: i32, tx: i32, ty: i32) -> Seq<CallView> {
    move_plan(fx, fy) + seq![
        CallView::Button(Button::Left, Direction::Press),
        CallView::Sleep(DRAG_GRAB_MS),
    ] + drag_steps(fx as int, fy as int, tx as int, ty as int, DRAG_STEPS as nat) + seq![
        CallView::Settle(tx, ty),
        CallView::Sleep(DRAG_DROP_MS),
    ]
}

/// A chord: the modifiers down and the key struck.
pub open spec fn chord_plan(mods: Seq<Key>, key: Key) -> Seq<CallView> {
    key_presses(mods).push(CallView::Key(key, Direction::Click))
}

/// A paste: the clipboard borrowed, and the platform's paste chord.
pub open spec fn paste_plan(text: Seq<char>, modifier: Key) -> Seq<CallView> {
    seq![
        CallView::ClipboardRead,
        CallView::ClipboardWrite(text),
        CallView::Sleep(PASTE_SETTLE_MS),
        CallView::Key(modifier, Direction::Press),
        CallView::Key(Key::Unicode('v'), Direction::Click),
    ]
}

fn press_keys(plan: &mut Vec<Call>, mods: &[Key])
    ensures
        calls(final(plan)@) == calls(old(plan)@) + key_presses(mods@),
{
    let ghost before = calls(plan@);
    let mut i: usize = 0;
    assert(calls(plan@) =~= before + key_presses(mods@.take(0)));
    while i < mods.len()
        invariant
            i <= mods@.len(),
            calls(plan@) == before + key_presses(mods@.take(i as int)),
        decreases mods@.len() - i,
    {
        let ghost had = calls(plan@);
        plan.push(Call::Key(mods[i], Direction::Press));
        assert(calls(plan@) =~= had.push(CallView::Key(mods@[i as int], Direction::Press)));
        assert(key_presses(mods@.take(i as int + 1)) =~= key_presses(mods@.take(i as int)).push(
            CallView::Key(mods@[i as int], Direction::Press),
        ));
        assert(calls(plan@) =~= before + key_presses(mods@.take(i as int + 1)));
        i += 1;
    }
    assert(mods@.take(i as int) =~= mods@);
}

fn start_at(x: i32, y: i32) -> (r: Vec<Call>)
    ensures
        calls(r@) == move_plan(x, y),
{
    let mut plan: Vec<Call> = Vec::new();
    plan.push(Call::MoveMouse(x, y));
    plan.push(Call::Settle(x, y));
    assert(calls(plan@) =~= move_plan(x, y));
    plan
}

/// Moves the pointer to a point.
pub fn move_seq(x: i32, y: i32) -> (r: Sequence)
    ensures
        r@ == fresh(move_plan(x, y), 0),
{
    Sequence::new(start_at(x, y), 0)
}

/// Clicks at a point with modifiers held.
pub fn click_seq(lx: i32, ly: i32, button: Button, count: u32, mods: &[Key]) -> (r: Sequence)
    ensures
        r@ == fresh(click_plan(lx, ly, button, count as nat, mods@), 0),
{
    let mut plan = start_at(lx, ly);
    press_keys(&mut plan, mods);
    let ghost held = move_plan(lx, ly) + key_presses(mods@);
    let mut i: u32 = 0;
    assert(calls(plan@) =~= held + Seq::new(
        0,
        |j: int| CallView::Button(button, Direction::Click),
    ));
    while i < count
        invariant
            i <= count,
            calls(plan@) == held + Seq::new(
                i as nat,
                |j: int| CallView::Button(button, Direction::Click),
            ),
        decreases count - i,
    {
        let ghost had = calls(plan@);
        plan.push(Call::Button(button, Direction::Click));
        assert(calls(plan@) =~= had.push(CallView::Button(button, Direction::Click)));
        i += 1;
        assert(calls(plan@) =~= held + Seq::new(
            i as nat,
            |j: int| CallView::Button(button, Direction::Click),
        ));
    }
    Sequence::new(plan, 0)
}

/// Drags from one point to another.
pub fn drag_seq(fx: i32, fy: i32, tx: i32, ty: i32) -> (r: Sequence)
    ensures
        r@ == fresh(drag_plan(fx, fy, tx, ty), 0),
{
    let mut plan = start_at(fx, fy);
    plan.push(Call::Button(Button::Left, Direction::Press));
    plan.push(Call::Sleep(DRAG_GRAB_MS));
    let ghost grabbed = move_plan(fx, fy) + seq![
        CallView::Button(Button::Left, Direction::Press),
        CallView::Sleep(DRAG_GRAB_MS),
    ];
    assert(calls(plan@) =~= grabbed);
    let path = input::drag_path(fx, fy, tx, ty, DRAG_STEPS);
    let mut i: usize = 0;
    assert(calls(plan@) =~= grabbed + drag_steps(fx as int, fy as int, tx as int, ty as int, 0));
    while i < path.len()
        invariant
            i <= path@.len(),
            path@.len() == DRAG_STEPS,
            forall|k: int|
                0 <= k < DRAG_STEPS ==> {
                    &&& (#[trigger] path@[k]).0 == input::along(
                        fx as int,
                        tx as int,
                        k + 1,
                        DRAG_STEPS as int,
                    )
                    &&& path@[k].1 == input::along(fy as int, ty as int, k + 1, DRAG_STEPS as int)
                },
            calls(plan@) == grabbed + drag_steps(
                fx as int,
                fy as int,
                tx as int,
                ty as int,
                i as nat,
            ),
        decreases path@.len() - i,
    {
        let ghost had = calls(plan@);
        let (x, y) = path[i];
        plan.push(Call::DragStep(x, y));
        plan.push(Call::Sleep(DRAG_STEP_MS));
        assert(calls(plan@) =~= had + seq![
            CallView::DragStep(x, y),
            CallView::Sleep(DRAG_STEP_MS),
        ]);
        i += 1;
        assert(calls(plan@) =~= grabbed + drag_steps(
            fx as int,
            fy as int,
            tx as int,
            ty as int,
            i as nat,
        ));
    }
    let ghost had = calls(plan@);
    plan.push(Call::Settle(tx, ty));
    plan.push(Call::Sleep(DRAG_DROP_MS));
    assert(calls(plan@) =~= had + seq![CallView::Settle(tx, ty), CallView::Sleep(DRAG_DROP_MS)]);
    Sequence::new(plan, 0)
}

/// Scrolls at a point.
pub fn scroll_seq(lx: i32, ly: i32, length: i32, axis: Axis) -> (r: Sequence)
    ensures
        r@ == fresh(move_plan(lx, ly).push(CallView::Scroll(length, axis)), 0),
{
    let mut plan = start_at(lx, ly);
    let ghost had = calls(plan@);
    plan.push(Call::Scroll(length, axis));
    assert(calls(plan@) =~= had.push(CallView::Scroll(length, axis)));
    Sequence::new(plan, 0)
}

/// Types a text at the focus.
pub fn text_seq(text: &str) -> (r: Sequence)
    ensures
        r@ == fresh(seq![CallView::Text(text@)], 0),
{
    let mut plan: Vec<Call> = Vec::new();
    plan.push(Call::Text(text.to_owned()));
    assert(calls(plan@) =~= seq![CallView::Text(text@)]);
    Sequence::new(plan, 0)
}

/// Strikes a chord.
pub fn key_chord_seq(mods: &[Key], main: Key) -> (r: Sequence)
    ensures
        r@ == fresh(chord_plan(mods@, main), 0),
{
    let mut plan: Vec<Call> = Vec::new();
    press_keys(&mut plan, mods);
    let ghost had = calls(plan@);
    assert(had =~= key_presses(mods@));
    plan.push(Call::Key(main, Direction::Click));
    assert(calls(plan@) =~= had.push(CallView::Key(main, Direction::Click)));
    Sequence::new(plan, 0)
}

/// Pastes a text through the clipboard, which is given back after the dwell.
pub fn paste_seq(text: &str, modifier: Key, dwell_ms: u64) -> (r: Sequence)
    ensures
        r@ == fresh(paste_plan(text@, modifier), dwell_ms),
{
    let mut plan: Vec<Call> = Vec::new();
    plan.push(Call::ClipboardRead);
    plan.push(Call::ClipboardWrite(text.to_owned()));
    plan.push(Call::Sleep(PASTE_SETTLE_MS));
    plan.push(Call::Key(modifier, Direction::Press));
    plan.push(Call::Key(Key::Unicode('v'), Direction::Click));
    assert(calls(plan@) =~= paste_plan(text@, modifier));
    Sequence::new(plan, dwell_ms)
}

// --- laws ---------------------------------------------------------------------

/// A sequence after some answers, each to the call that was due.
pub open spec fn after(sequence: SequenceView, answers: Seq<AnswerView>) -> SequenceView
    decreases answers.len(),
{
    if answers.len() == 0 {
        sequence
    } else {
        after(sequence, answers.drop_last()).answered(answers.last())
    }
}

/// What is down after a call: a press puts it down even when it is refused, a release
/// lifts it only when it is not.
pub open spec fn down_after(down: Multiset<Held>, call: CallView, refused: bool) -> Multiset<Held> {
    match (pressed(call), lifted(call)) {
        (Some(held), _) => down.insert(held),
        (None, Some(held)) => if refused {
            down
        } else {
            down.remove(held)
        },
        _ => down,
    }
}

/// What is down on the platform after a sequence's answers, if nothing was before.
pub open spec fn down(sequence: SequenceView, answers: Seq<AnswerView>) -> Multiset<Held>
    decreases answers.len(),
{
    if answers.len() == 0 {
        Multiset::empty()
    } else {
        let before = down(sequence, answers.drop_last());
        match after(sequence, answers.drop_last()).due() {
            Some(call) => down_after(before, call, answers.last() is Refused),
            None => before,
        }
    }
}

/// Whether an action lifts nothing of its own: what it presses is lifted after it.
pub open spec fn lifts_nothing(plan: Seq<CallView>) -> bool {
    forall|i: int| 0 <= i < plan.len() ==> lifted(#[trigger] plan[i]) is None
}

proof fn the_plan_stays(sequence: SequenceView, answers: Seq<AnswerView>)
    ensures
        after(sequence, answers).plan == sequence.plan,
    decreases answers.len(),
{
    if answers.len() > 0 {
        the_plan_stays(sequence, answers.drop_last());
    }
}

/// What is down is always exactly what is still to be lifted and what could not be,
/// whatever the platform answered.
pub proof fn what_is_down_is_known(plan: Seq<CallView>, dwell_ms: u64, answers: Seq<AnswerView>)
    requires
        lifts_nothing(plan),
    ensures
        ({
            let now = after(fresh(plan, dwell_ms), answers);
            down(fresh(plan, dwell_ms), answers) =~= now.held.to_multiset().add(
                now.stuck.to_multiset(),
            )
        }),
    decreases answers.len(),
{
    broadcast use vstd::seq_lib::group_to_multiset_ensures;

    let start = fresh(plan, dwell_ms);
    if answers.len() > 0 {
        let before = after(start, answers.drop_last());
        what_is_down_is_known(plan, dwell_ms, answers.drop_last());
        the_plan_stays(start, answers.drop_last());
        if before.running() {
            assert(lifted(before.plan[before.at as int]) is None);
        } else if before.held.len() > 0 {
            assert(before.held =~= before.held.drop_last().push(before.held.last()));
        }
    }
}

/// When nothing is left to do, nothing is left down but what was refused twice: a
/// sequence that was stopped at any call, by any failure, leaves nothing held.
pub proof fn nothing_is_left_held(plan: Seq<CallView>, dwell_ms: u64, answers: Seq<AnswerView>)
    requires
        lifts_nothing(plan),
        after(fresh(plan, dwell_ms), answers).due() is None,
        after(fresh(plan, dwell_ms), answers).stuck.len() == 0,
    ensures
        down(fresh(plan, dwell_ms), answers) =~= Multiset::empty(),
{
    broadcast use vstd::seq_lib::group_to_multiset_ensures;

    what_is_down_is_known(plan, dwell_ms, answers);
    let now = after(fresh(plan, dwell_ms), answers);
    assert(now.held =~= Seq::empty());
    assert(now.stuck =~= Seq::empty());
}

/// Every answer to a call that was due brings the sequence nearer its end.
pub proof fn a_sequence_ends(sequence: SequenceView, answer: AnswerView)
    requires
        sequence.due() is Some,
    ensures
        sequence.answered(answer).left() < sequence.left(),
{
}

/// Only a call that was refused twice is ever given up on: while every refusal is
/// answered by a success, nothing gets stuck.
pub proof fn one_refusal_strands_nothing(sequence: SequenceView, answer: AnswerView)
    requires
        sequence.due() is Some,
        !(answer is Refused && sequence.retrying),
    ensures
        sequence.answered(answer).stuck == sequence.stuck,
        sequence.restore != Restore::Lost ==> sequence.answered(answer).restore != Restore::Lost,
{
}

/// What the clipboard holds after a sequence's answers.
pub open spec fn clipboard(
    sequence: SequenceView,
    answers: Seq<AnswerView>,
    at_first: Option<Seq<char>>,
) -> Option<Seq<char>>
    decreases answers.len(),
{
    if answers.len() == 0 {
        at_first
    } else {
        let before = clipboard(sequence, answers.drop_last(), at_first);
        match after(sequence, answers.drop_last()).due() {
            Some(CallView::ClipboardWrite(text)) => if answers.last() is Refused {
                before
            } else {
                Some(text)
            },
            _ => before,
        }
    }
}

/// Whether the clipboard's contents were answered truly when they were read.
pub open spec fn read_truly(
    sequence: SequenceView,
    answers: Seq<AnswerView>,
    at_first: Option<Seq<char>>,
) -> bool
    decreases answers.len(),
{
    answers.len() == 0 || {
        &&& read_truly(sequence, answers.drop_last(), at_first)
        &&& after(sequence, answers.drop_last()).due() == Some(CallView::ClipboardRead) ==> {
            ||| answers.last() is Refused
            ||| answers.last() == AnswerView::Clipboard(
                clipboard(sequence, answers.drop_last(), at_first),
            )
        }
    }
}

proof fn a_paste_keeps_what_it_found(
    text: Seq<char>,
    modifier: Key,
    dwell_ms: u64,
    answers: Seq<AnswerView>,
    at_first: Option<Seq<char>>,
)
    requires
        read_truly(fresh(paste_plan(text, modifier), dwell_ms), answers, at_first),
    ensures
        ({
            let start = fresh(paste_plan(text, modifier), dwell_ms);
            let now = after(start, answers);
            let held = clipboard(start, answers, at_first);
            &&& now.at <= 5
            &&& now.saved matches Some(saved) ==> at_first == Some(saved)
            &&& now.at <= 1 ==> held == at_first
            &&& now.at >= 1 && now.saved is None ==> now.failure is Some || at_first is None
            &&& now.at >= 2 && now.saved is None ==> at_first is None
            &&& now.restore == Restore::Back ==> now.saved is Some && held == now.saved
            &&& now.running() || now.held.len() > 0 ==> now.restore == Restore::Dwell
        }),
    decreases answers.len(),
{
    let start = fresh(paste_plan(text, modifier), dwell_ms);
    if answers.len() > 0 {
        a_paste_keeps_what_it_found(text, modifier, dwell_ms, answers.drop_last(), at_first);
        the_plan_stays(start, answers.drop_last());
        let before = after(start, answers.drop_last());
        assert(before.plan[0] == CallView::ClipboardRead);
    }
}

/// A paste gives the clipboard back as it found it: when nothing is left to do and
/// the write was not refused twice, it holds what it held before, however the paste
/// was stopped.
pub proof fn the_clipboard_is_given_back(
    text: Seq<char>,
    modifier: Key,
    dwell_ms: u64,
    answers: Seq<AnswerView>,
    saved: Seq<char>,
)
    requires
        read_truly(fresh(paste_plan(text, modifier), dwell_ms), answers, Some(saved)),
        after(fresh(paste_plan(text, modifier), dwell_ms), answers).due() is None,
        after(fresh(paste_plan(text, modifier), dwell_ms), answers).restore != Restore::Lost,
    ensures
        clipboard(fresh(paste_plan(text, modifier), dwell_ms), answers, Some(saved)) == Some(saved),
{
    let start = fresh(paste_plan(text, modifier), dwell_ms);
    a_paste_keeps_what_it_found(text, modifier, dwell_ms, answers, Some(saved));
    the_plan_stays(start, answers);
}

/// Every action of this module lifts nothing of its own, so all of them leave
/// nothing held.
pub proof fn the_actions_lift_nothing_of_their_own(
    x: i32,
    y: i32,
    tx: i32,
    ty: i32,
    button: Button,
    count: nat,
    mods: Seq<Key>,
    key: Key,
    text: Seq<char>,
)
    ensures
        lifts_nothing(move_plan(x, y)),
        lifts_nothing(click_plan(x, y, button, count, mods)),
        lifts_nothing(drag_plan(x, y, tx, ty)),
        lifts_nothing(chord_plan(mods, key)),
        lifts_nothing(paste_plan(text, key)),
{
    drag_steps_lift_nothing(x as int, y as int, tx as int, ty as int, DRAG_STEPS as nat);
}

proof fn drag_steps_lift_nothing(fx: int, fy: int, tx: int, ty: int, count: nat)
    ensures
        lifts_nothing(drag_steps(fx, fy, tx, ty, count)),
    decreases count,
{
    if count > 0 {
        drag_steps_lift_nothing(fx, fy, tx, ty, (count - 1) as nat);
    }
}

/// A plan is carried out call by call, in its order, as long as nothing is refused: each
/// answer makes the next call due, and none is left out or made twice.
pub proof fn a_plan_is_made_in_order(
    plan: Seq<CallView>,
    dwell_ms: u64,
    answers: Seq<AnswerView>,
)
    requires
        answers.len() <= plan.len(),
        forall|i: int| 0 <= i < answers.len() ==> !(#[trigger] answers[i] is Refused),
    ensures
        ({
            let now = after(fresh(plan, dwell_ms), answers);
            &&& now.failure is None
            &&& now.plan == plan
            &&& now.at == answers.len()
            &&& now.stuck.len() == 0
            &&& answers.len() < plan.len() ==> now.due() == Some(plan[answers.len() as int])
        }),
    decreases answers.len(),
{
    if answers.len() > 0 {
        let before = answers.drop_last();
        assert forall|i: int| 0 <= i < before.len() implies !(#[trigger] before[i] is Refused) by {
            assert(before[i] == answers[i]);
        }
        a_plan_is_made_in_order(plan, dwell_ms, before);
        assert(answers.last() == answers[answers.len() - 1]);
    }
}

/// A call that is refused ends the plan: the refusal is what the sequence reports, and
/// from then on nothing is due but what lifts what is down and gives the clipboard back.
pub proof fn a_refusal_ends_the_plan(sequence: SequenceView, reason: Seq<char>, answer: AnswerView)
    requires
        sequence.running(),
    ensures
        ({
            let now = sequence.answered(AnswerView::Refused(reason));
            &&& now.failure == Some(reason)
            &&& !now.running()
            &&& now.answered(answer).failure == Some(reason)
            &&& !now.answered(answer).running()
        }),
{
}

/// What is due once the plan is over lifts what was pressed last, or gives the clipboard
/// back: nothing is moved, typed or pressed any more.
pub proof fn the_last_pressed_is_lifted_first(sequence: SequenceView, answer: AnswerView)
    requires
        !sequence.running(),
    ensures
        !sequence.answered(answer).running(),
        sequence.held.len() > 0 ==> sequence.due() == Some(
            match sequence.held.last() {
                Held::Key(key) => CallView::Key(key, Direction::Release),
                Held::Button(button) => CallView::Button(button, Direction::Release),
            },
        ),
        sequence.held.len() > 0 && !(answer is Refused) ==> sequence.answered(answer).held
            == sequence.held.take(sequence.held.len() - 1),
        sequence.held.len() == 0 ==> {
            ||| sequence.due() is None
            ||| sequence.due() == Some(CallView::Sleep(sequence.dwell_ms))
            ||| sequence.saved is Some && sequence.due() == Some(
                CallView::ClipboardWrite(sequence.saved->0),
            )
        },
        sequence.held.len() == 0 && sequence.saved is None ==> sequence.due() is None,
{
    if sequence.held.len() > 0 {
        assert(sequence.held.drop_last() =~= sequence.held.take(sequence.held.len() - 1));
    }
}

/// A press is what puts a key or a button down, a release is what lifts it, and a click
/// leaves nothing down.
pub proof fn only_a_press_holds(key: Key, button: Button, call: CallView)
    ensures
        pressed(call) == Some(Held::Key(key)) <==> call == CallView::Key(key, Direction::Press),
        pressed(call) == Some(Held::Button(button)) <==> call == CallView::Button(
            button,
            Direction::Press,
        ),
        lifted(call) == Some(Held::Key(key)) <==> call == CallView::Key(key, Direction::Release),
        lifted(call) == Some(Held::Button(button)) <==> call == CallView::Button(
            button,
            Direction::Release,
        ),
        pressed(release(Held::Key(key))) is None,
        lifted(release(Held::Key(key))) == Some(Held::Key(key)),
        lifted(release(Held::Button(button))) == Some(Held::Button(button)),
{
}

/// A click goes to its point and is there before anything is pressed; then every
/// modifier is pressed in the order it was named in, and then the button is clicked as
/// often as was asked, and nothing else happens.
pub proof fn a_click_is_at_its_point(
    x: i32,
    y: i32,
    button: Button,
    count: nat,
    mods: Seq<Key>,
    i: int,
)
    ensures
        ({
            let plan = click_plan(x, y, button, count, mods);
            &&& plan.len() == 2 + mods.len() + count
            &&& plan[0] == CallView::MoveMouse(x, y)
            &&& plan[1] == CallView::Settle(x, y)
            &&& 0 <= i < mods.len() ==> plan[2 + i] == CallView::Key(mods[i], Direction::Press)
            &&& 0 <= i < count ==> plan[2 + mods.len() + i] == CallView::Button(
                button,
                Direction::Click,
            )
        }),
{
}

/// A move goes to its point and waits to be there, and does nothing else.
pub proof fn a_move_is_to_its_point(x: i32, y: i32)
    ensures
        move_plan(x, y).len() == 2,
        move_plan(x, y)[0] == CallView::MoveMouse(x, y),
        move_plan(x, y)[1] == CallView::Settle(x, y),
{
}

proof fn drag_steps_lie_on_the_line(fx: int, fy: int, tx: int, ty: int, count: nat, k: int)
    requires
        1 <= k <= count,
    ensures
        drag_steps(fx, fy, tx, ty, count).len() == 2 * count,
        drag_steps(fx, fy, tx, ty, count)[2 * k - 2] == CallView::DragStep(
            input::along(fx, tx, k, DRAG_STEPS as int) as i32,
            input::along(fy, ty, k, DRAG_STEPS as int) as i32,
        ),
        drag_steps(fx, fy, tx, ty, count)[2 * k - 1] == CallView::Sleep(DRAG_STEP_MS),
    decreases count,
{
    let before = drag_steps(fx, fy, tx, ty, (count - 1) as nat);
    if count == 1 {
        assert(drag_steps(fx, fy, tx, ty, 0).len() == 0);
    } else if k < count {
        drag_steps_lie_on_the_line(fx, fy, tx, ty, (count - 1) as nat, k);
        assert(drag_steps(fx, fy, tx, ty, count)[2 * k - 2] == before[2 * k - 2]);
        assert(drag_steps(fx, fy, tx, ty, count)[2 * k - 1] == before[2 * k - 1]);
    } else {
        drag_steps_lie_on_the_line(fx, fy, tx, ty, (count - 1) as nat, k - 1);
    }
}

/// A drag presses the left button at its start, and nowhere else; then the pointer is
/// walked along the straight line to the destination in ten even steps, with a dwell at
/// each, and is there before the button is lifted.
pub proof fn a_drag_walks_the_straight_line(fx: i32, fy: i32, tx: i32, ty: i32, k: int)
    requires
        1 <= k <= 10,
    ensures
        ({
            let plan = drag_plan(fx, fy, tx, ty);
            &&& plan.len() == 26
            &&& plan[0] == CallView::MoveMouse(fx, fy)
            &&& plan[1] == CallView::Settle(fx, fy)
            &&& plan[2] == CallView::Button(Button::Left, Direction::Press)
            &&& plan[3] == CallView::Sleep(60)
            &&& plan[2 * k + 2] matches CallView::DragStep(x, y) && {
                &&& -10 <= 2 * (10 * x - (10 * fx + (tx - fx) * k)) <= 10
                &&& -10 <= 2 * (10 * y - (10 * fy + (ty - fy) * k)) <= 10
                &&& k == 10 ==> x == tx && y == ty
            }
            &&& plan[2 * k + 3] == CallView::Sleep(20)
            &&& plan[24] == CallView::Settle(tx, ty)
            &&& plan[25] == CallView::Sleep(50)
        }),
{
    drag_steps_lie_on_the_line(fx as int, fy as int, tx as int, ty as int, 10, k);
    input::a_drag_is_evenly_spaced(fx as int, tx as int, 10, k);
    input::a_drag_is_evenly_spaced(fy as int, ty as int, 10, k);
    input::a_drag_never_doubles_back(fx as int, tx as int, 10, k, 10);
    input::a_drag_never_doubles_back(fy as int, ty as int, 10, k, 10);
    let steps = drag_steps(fx as int, fy as int, tx as int, ty as int, 10);
    let plan = drag_plan(fx, fy, tx, ty);
    assert(plan[2 * k + 2] == steps[2 * k - 2]);
    assert(plan[2 * k + 3] == steps[2 * k - 1]);
}

/// A chord presses its modifiers in order and strikes its key with all of them down.
pub proof fn a_chord_is_struck_with_its_modifiers(mods: Seq<Key>, key: Key, i: int)
    ensures
        ({
            let plan = chord_plan(mods, key);
            &&& plan.len() == mods.len() + 1
            &&& 0 <= i < mods.len() ==> plan[i] == CallView::Key(mods[i], Direction::Press)
            &&& plan[mods.len() as int] == CallView::Key(key, Direction::Click)
        }),
{
}

/// A paste reads the clipboard before it writes its text there, writes it before the
/// chord is struck, and strikes the paste chord with the modifier down.
pub proof fn a_paste_borrows_the_clipboard_first(text: Seq<char>, modifier: Key)
    ensures
        ({
            let plan = paste_plan(text, modifier);
            &&& plan.len() == 5
            &&& plan[0] == CallView::ClipboardRead
            &&& plan[1] == CallView::ClipboardWrite(text)
            &&& plan[2] == CallView::Sleep(50)
            &&& plan[3] == CallView::Key(modifier, Direction::Press)
            &&& plan[4] == CallView::Key(Key::Unicode('v'), Direction::Click)
        }),
{
}

} // verus!
