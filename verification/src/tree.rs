//! Reading the controls of one application: a first walk, and where that finds no
//! tree at all one request to build it and a few more walks.

use vstd::prelude::*;

use crate::desktop::{TargetApp, TargetAppView};
use crate::elements::{Node, ViewNode, Viewed};
use crate::geometry::Region;
use crate::text;

verus! {

/// How long between two walks of a tree that may still be being built.
pub const AX_SETTLE_POLL_MS: u64 = 300;

/// How many walks follow the first.
pub const AX_SETTLE_POLLS: u64 = 5;

/// One walk of one application: the controls inside the view, how many it saw in all,
/// and why it stopped early if it did.
#[derive(Debug)]
pub struct Walk {
    pub found: Vec<ViewNode>,
    pub total: usize,
    pub truncated: Option<String>,
}

/// One control a walk found: its bounds in the pixels of the image the reply names, and
/// the point of that image its middle maps to, where it is inside the view.
#[derive(Debug)]
pub struct Walked {
    pub node: Node,
    pub point: Option<(i32, i32)>,
    pub bounds: Region,
}

/// The controls of a walk whose middle is inside the view, in walk order, each with its
/// point.
pub open spec fn seen_in(walked: Seq<Walked>) -> Seq<ViewNode>
    decreases walked.len(),
{
    if walked.len() == 0 {
        Seq::empty()
    } else {
        let rest = seen_in(walked.skip(1));
        match walked[0].point {
            Some(point) => seq![
                ViewNode { node: walked[0].node, point, bounds: walked[0].bounds },
            ] + rest,
            None => rest,
        }
    }
}

/// Keeps the controls of a walk that are inside the view, and counts them all.
pub fn in_view(walked: Vec<Walked>, truncated: Option<String>) -> (r: Walk)
    ensures
        r.found@ == seen_in(walked@),
        r.total == walked@.len(),
        r.truncated == truncated,
{
    let total: usize = walked.len();
    let ghost all = walked@;
    let mut left = walked;
    let mut backwards: Vec<ViewNode> = Vec::new();
    assert(all.skip(total as int) =~= Seq::empty());
    assert(left@ =~= all.take(total as int));
    assert(backwards@.reverse() =~= seen_in(all.skip(total as int)));
    let mut n: usize = total;
    while n > 0
        invariant
            n <= total,
            total == all.len(),
            left@ == all.take(n as int),
            backwards@.reverse() == seen_in(all.skip(n as int)),
        decreases n,
    {
        let ghost rest = all.skip(n as int - 1);
        assert(rest[0] == all[n as int - 1]);
        assert(rest.skip(1) =~= all.skip(n as int));
        let ghost had = backwards@.reverse();
        if let Some(last) = left.pop() {
            assert(last == all[n as int - 1]);
            if let Some(point) = last.point {
                let node = ViewNode { node: last.node, point, bounds: last.bounds };
                backwards.push(node);
                assert(backwards@.reverse() =~= seq![node] + had);
            }
        }
        n -= 1;
        assert(left@ =~= all.take(n as int));
    }
    assert(all.skip(0) =~= all);
    let ghost seen = seen_in(all);
    let mut found: Vec<ViewNode> = Vec::new();
    assert(found@ + backwards@.reverse() =~= seen);
    while backwards.len() > 0
        invariant
            found@ + backwards@.reverse() == seen,
        decreases backwards@.len(),
    {
        let ghost held = found@;
        let ghost rest = backwards@;
        if let Some(node) = backwards.pop() {
            found.push(node);
            assert(rest.reverse() =~= seq![node] + backwards@.reverse());
            assert(found@ + backwards@.reverse() =~= held + rest.reverse());
        }
    }
    assert(found@ =~= seen);
    Walk { found, total, truncated }
}

/// What asking an application for its tree did: the attribute that took, or why none
/// did.
pub open spec fn attempted(attempt: Result<Seq<char>, Seq<char>>) -> Seq<char> {
    match attempt {
        Ok(attribute) => attribute + " activated"@,
        Err(reason) => "activation refused: "@ + reason,
    }
}

/// What an attempt says.
pub open spec fn attempt_of(attempt: Result<String, String>) -> Result<Seq<char>, Seq<char>> {
    match attempt {
        Ok(attribute) => Ok(attribute@),
        Err(reason) => Err(reason@),
    }
}

/// What asking an application for its tree did, in words.
pub fn attempt_note(attempt: &Result<String, String>) -> (r: String)
    ensures
        r@ == attempted(attempt_of(*attempt)),
{
    match attempt {
        Ok(attribute) => {
            let mut note = attribute.clone();
            note.append(" activated");
            note
        },
        Err(reason) => {
            let mut note = "activation refused: ".to_owned();
            note.append(reason.as_str());
            note
        },
    }
}

/// What to do next about one application's tree.
#[derive(Debug)]
pub enum Next {
    /// Ask the application to build its tree.
    Activate,
    /// Wait that many milliseconds, then walk again.
    Wait(u64),
    /// The read is over.
    Done(Viewed),
}

/// The reading of one application's tree.
#[derive(Debug)]
pub struct Reading {
    target: TargetApp,
    owner: Option<(i32, u64)>,
    attempt: Result<String, String>,
    /// Which walk after the first is the next; none before the tree was asked for.
    poll: u64,
}

/// Where a reading is.
#[verifier::ext_equal]
pub struct ReadingView {
    pub target: TargetAppView,
    pub owner: Option<(i32, u64)>,
    pub attempt: Result<Seq<char>, Seq<char>>,
    pub poll: nat,
}

impl View for Reading {
    type V = ReadingView;

    closed spec fn view(&self) -> ReadingView {
        ReadingView {
            target: self.target@,
            owner: self.owner,
            attempt: attempt_of(self.attempt),
            poll: self.poll as nat,
        }
    }
}

impl ReadingView {
    /// How long the tree has been waited for.
    pub open spec fn waited(self) -> nat {
        self.poll * AX_SETTLE_POLL_MS as nat
    }

    /// How a tree that came after it was asked for is described.
    pub open spec fn appeared(self) -> Seq<char> {
        self.target.app + ": tree appeared after "@ + text::decimal(self.waited()) + "ms ("@
            + attempted(self.attempt) + ")"@
    }

    /// The note of a walk that found controls in the view.
    pub open spec fn found_note(self) -> Seq<char> {
        if self.poll == 0 {
            "read "@ + self.target.app
        } else {
            self.appeared()
        }
    }

    /// The note of a walk that found controls, and none of them in the view.
    pub open spec fn elsewhere_note(self, total: nat) -> Seq<char> {
        if self.poll == 0 {
            self.target.app + ": "@ + text::decimal(total)
                + " interactive element(s) in the app, none inside this view"@
        } else {
            self.appeared() + ", but its "@ + text::decimal(total)
                + " element(s) are outside this view"@
        }
    }

    /// The note of a tree that never came.
    pub open spec fn empty_note(self) -> Seq<char> {
        self.target.app + ": no accessibility elements — "@ + attempted(self.attempt)
            + "; tree still empty after "@ + text::decimal(self.waited()) + "ms"@
    }

    /// Whether the reading may go on.
    pub open spec fn valid(self) -> bool {
        self.poll <= AX_SETTLE_POLLS
    }

    /// Whether a walk's answer is the right next step: a read with the controls it
    /// found, a read of nothing where the application has some but not here, and
    /// otherwise the activation, another walk, or the end.
    pub open spec fn follows(self, walk: Walk, next: Next) -> bool {
        if walk.found@.len() > 0 {
            next matches Next::Done(viewed) && viewed.nodes@ == walk.found@ && viewed.owner
                == self.owner && text::text_of(viewed.truncated) == text::text_of(walk.truncated)
                && text::text_of(viewed.note) == Some(self.found_note())
        } else if walk.total > 0 {
            next matches Next::Done(viewed) && viewed.is_nothing(
                self.elsewhere_note(walk.total as nat),
            )
        } else if self.poll == 0 {
            next is Activate
        } else if self.poll < AX_SETTLE_POLLS {
            next == Next::Wait(AX_SETTLE_POLL_MS)
        } else {
            next matches Next::Done(viewed) && viewed.is_nothing(self.empty_note())
        }
    }
}

impl Reading {
    /// Starts reading an application. `started_at` is when its process started, where
    /// that could be read.
    pub fn new(target: TargetApp, started_at: Option<u64>) -> (r: Reading)
        ensures
            r@.target == target@,
            r@.owner == (match started_at {
                Some(at) => Some((target.pid, at)),
                None => None,
            }),
            r@.poll == 0,
            r@.valid(),
    {
        let owner = match started_at {
            Some(at) => Some((target.pid, at)),
            None => None,
        };
        Reading { target, owner, attempt: Err(String::new()), poll: 0 }
    }

    fn appeared(&self) -> (r: String)
        requires
            self@.valid(),
        ensures
            r@ == self@.appeared(),
    {
        let mut note = self.target.app.clone();
        note.append(": tree appeared after ");
        note.append(text::write_decimal(self.poll * AX_SETTLE_POLL_MS).as_str());
        note.append("ms (");
        note.append(attempt_note(&self.attempt).as_str());
        note.append(")");
        note
    }

    /// Takes in one walk, and says what comes next.
    pub fn walked(&mut self, walk: Walk) -> (r: Next)
        requires
            old(self)@.valid(),
        ensures
            old(self)@.follows(walk, r),
            final(self)@ == (ReadingView {
                poll: if r is Wait {
                    old(self)@.poll + 1
                } else {
                    old(self)@.poll
                },
                ..old(self)@
            }),
            final(self)@.valid(),
    {
        if walk.found.len() > 0 {
            let note = if self.poll == 0 {
                let mut note = "read ".to_owned();
                note.append(self.target.app.as_str());
                note
            } else {
                self.appeared()
            };
            return Next::Done(
                Viewed {
                    nodes: walk.found,
                    owner: self.owner,
                    truncated: walk.truncated,
                    note: Some(note),
                },
            );
        }
        if walk.total > 0 {
            let note = if self.poll == 0 {
                let mut note = self.target.app.clone();
                note.append(": ");
                note.append(text::write_decimal(walk.total as u64).as_str());
                note.append(" interactive element(s) in the app, none inside this view");
                note
            } else {
                let mut note = self.appeared();
                note.append(", but its ");
                note.append(text::write_decimal(walk.total as u64).as_str());
                note.append(" element(s) are outside this view");
                note
            };
            return Next::Done(Viewed::nothing(note));
        }
        if self.poll == 0 {
            return Next::Activate;
        }
        if self.poll < AX_SETTLE_POLLS {
            self.poll = self.poll + 1;
            return Next::Wait(AX_SETTLE_POLL_MS);
        }
        let mut note = self.target.app.clone();
        note.append(": no accessibility elements — ");
        note.append(attempt_note(&self.attempt).as_str());
        note.append("; tree still empty after ");
        note.append(text::write_decimal(self.poll * AX_SETTLE_POLL_MS).as_str());
        note.append("ms");
        Next::Done(Viewed::nothing(note))
    }

    /// Takes in what asking for the tree did. There is a wait before the next walk.
    pub fn activated(&mut self, attempt: Result<String, String>) -> (r: Next)
        requires
            old(self)@.poll == 0,
        ensures
            r == Next::Wait(AX_SETTLE_POLL_MS),
            final(self)@ == (ReadingView { attempt: attempt_of(attempt), poll: 1, ..old(self)@ }),
            final(self)@.valid(),
    {
        self.attempt = attempt;
        self.poll = 1;
        Next::Wait(AX_SETTLE_POLL_MS)
    }

    /// The end of a reading whose wait was cancelled.
    pub fn cancelled(self) -> (r: Viewed)
        ensures
            r.is_nothing(self@.target.app + ": cancelled while the tree settled"@),
    {
        let mut note = self.target.app.clone();
        note.append(": cancelled while the tree settled");
        Viewed::nothing(note)
    }
}

/// A reading ends: the walk after the last wait answers, whatever it saw, and an
/// application is asked for its tree only after a walk that saw nothing at all.
pub proof fn a_reading_ends(reading: ReadingView, walk: Walk, next: Next)
    requires
        reading.valid(),
        reading.follows(walk, next),
    ensures
        reading.poll == AX_SETTLE_POLLS ==> next is Done,
        next is Activate ==> reading.poll == 0 && walk.total == 0 && walk.found@.len() == 0,
        walk.found@.len() > 0 || walk.total > 0 ==> next is Done,
{
}

proof fn what_is_seen_was_walked(walked: Seq<Walked>)
    ensures
        seen_in(walked).len() <= walked.len(),
        forall|k: int|
            0 <= k < seen_in(walked).len() ==> exists|i: int|
                k <= i < walked.len() && (#[trigger] walked[i]).node == (
                #[trigger] seen_in(walked)[k]).node && walked[i].point == Some(
                    seen_in(walked)[k].point,
                ) && walked[i].bounds == seen_in(walked)[k].bounds,
        forall|i: int|
            0 <= i < walked.len() && (#[trigger] walked[i]).point is Some ==> exists|k: int|
                0 <= k < seen_in(walked).len() && (#[trigger] seen_in(walked)[k]).node
                    == walked[i].node && Some(seen_in(walked)[k].point) == walked[i].point,
    decreases walked.len(),
{
    if walked.len() > 0 {
        let rest = walked.skip(1);
        what_is_seen_was_walked(rest);
        let all = seen_in(walked);
        let tail = seen_in(rest);
        let ahead: int = if walked[0].point is Some {
            1
        } else {
            0
        };
        assert forall|k: int| 0 <= k < all.len() implies exists|i: int|
            k <= i < walked.len() && (#[trigger] walked[i]).node == (#[trigger] all[k]).node
                && walked[i].point == Some(all[k].point) && walked[i].bounds == all[k].bounds by {
            if k < ahead {
                assert(walked[0].node == all[k].node);
            } else {
                assert(all[k] == tail[k - ahead]);
                let i = choose|i: int|
                    k - ahead <= i < rest.len() && (#[trigger] rest[i]).node == tail[k
                        - ahead].node && rest[i].point == Some(tail[k - ahead].point)
                        && rest[i].bounds == tail[k - ahead].bounds;
                assert(walked[i + 1] == rest[i]);
            }
        }
        assert forall|i: int| 0 <= i < walked.len() && (#[trigger] walked[i]).point is Some implies
            exists|k: int|
            0 <= k < all.len() && (#[trigger] all[k]).node == walked[i].node && Some(all[k].point)
                == walked[i].point by {
            if i == 0 {
                assert(all[0].node == walked[0].node);
            } else {
                assert(rest[i - 1] == walked[i]);
                let k = choose|k: int|
                    0 <= k < tail.len() && (#[trigger] tail[k]).node == rest[i - 1].node && Some(
                        tail[k].point,
                    ) == rest[i - 1].point;
                assert(all[k + ahead] == tail[k]);
            }
        }
    }
}

/// An application whose walk saw any control at all is never asked for its tree, and
/// never waited for: the read is over, with exactly the controls that have a point in the
/// view, and with none of them, no owner and the count of all that were seen where none
/// does.
pub proof fn what_is_listed_is_what_was_walked(
    reading: ReadingView,
    walked: Seq<Walked>,
    walk: Walk,
    next: Next,
)
    requires
        walked.len() > 0,
        walk.found@ == seen_in(walked),
        walk.total == walked.len(),
        reading.follows(walk, next),
    ensures
        next matches Next::Done(viewed) && {
            &&& viewed.nodes@ == seen_in(walked)
            &&& forall|i: int|
                0 <= i < walked.len() && (#[trigger] walked[i]).point is Some ==> exists|k: int|
                    0 <= k < viewed.nodes@.len() && (#[trigger] viewed.nodes@[k]).node
                        == walked[i].node && Some(viewed.nodes@[k].point) == walked[i].point
            &&& forall|k: int|
                0 <= k < viewed.nodes@.len() ==> exists|i: int|
                    k <= i < walked.len() && (#[trigger] walked[i]).node == (
                    #[trigger] viewed.nodes@[k]).node && walked[i].point == Some(
                        viewed.nodes@[k].point,
                    )
            &&& (forall|i: int| 0 <= i < walked.len() ==> (#[trigger] walked[i]).point is None)
                ==> viewed.is_nothing(reading.elsewhere_note(walked.len()))
        },
{
    what_is_seen_was_walked(walked);
    let found = seen_in(walked);
    if found.len() > 0 {
        assert(found[0] == found[0]);
        let i = choose|i: int|
            0 <= i < walked.len() && (#[trigger] walked[i]).node == found[0].node
                && walked[i].point == Some(found[0].point) && walked[i].bounds == found[0].bounds;
        assert(walked[i].point is Some);
    } else if let Next::Done(viewed) = next {
        assert(viewed.nodes@ =~= found);
    }
}

/// What is seen of a walk keeps the walk's order: that of its first part, and then
/// that of the rest.
pub proof fn what_is_seen_keeps_its_order(walked: Seq<Walked>, more: Seq<Walked>)
    ensures
        seen_in(walked + more) == seen_in(walked) + seen_in(more),
    decreases walked.len(),
{
    if walked.len() == 0 {
        assert(walked + more =~= more);
        assert(seen_in(walked) + seen_in(more) =~= seen_in(more));
    } else {
        what_is_seen_keeps_its_order(walked.skip(1), more);
        assert((walked + more).skip(1) =~= walked.skip(1) + more);
        assert((walked + more)[0] == walked[0]);
        assert(seen_in(walked + more) =~= seen_in(walked) + seen_in(more));
    }
}

/// A read that lists controls says whose they are and how its walk was cut short; one
/// that lists none names no owner, and every read says how it went.
pub proof fn a_read_says_whose_it_is(reading: ReadingView, walk: Walk, next: Next)
    requires
        reading.follows(walk, next),
    ensures
        next matches Next::Done(viewed) ==> {
            &&& viewed.note is Some
            &&& viewed.nodes@.len() == walk.found@.len()
            &&& viewed.nodes@.len() > 0 ==> viewed.owner == reading.owner && text::text_of(
                viewed.truncated,
            ) == text::text_of(walk.truncated)
            &&& viewed.nodes@.len() == 0 ==> viewed.owner is None && viewed.truncated is None
        },
        next is Wait ==> walk.total == 0 && 0 < reading.poll < AX_SETTLE_POLLS,
{
}

/// A reading has waited three tenths of a second for each time it was told to, a second and a
/// half at most.
pub proof fn a_reading_waits_a_second_and_a_half(reading: ReadingView)
    requires
        reading.valid(),
    ensures
        reading.waited() == 300 * reading.poll,
        reading.waited() <= 1_500,
{
}

/// What a reading says of itself names the application, and the time and the count that it
/// speaks of.
pub proof fn a_note_says_what_was_read(reading: ReadingView, total: nat)
    ensures
        text::holds(reading.found_note(), reading.target.app),
        text::holds(reading.elsewhere_note(total), reading.target.app),
        text::holds(reading.elsewhere_note(total), text::decimal(total)),
        text::holds(reading.empty_note(), reading.target.app),
        text::holds(reading.empty_note(), text::decimal(reading.waited())),
        text::holds(reading.empty_note(), attempted(reading.attempt)),
        reading.poll > 0 ==> text::holds(reading.found_note(), text::decimal(reading.waited()))
            && text::holds(reading.found_note(), attempted(reading.attempt)),
{
    let app = reading.target.app;
    let empty = Seq::<char>::empty();
    let time = text::decimal(reading.waited());
    let tried = attempted(reading.attempt);
    let number = text::decimal(total);
    let after = ": tree appeared after "@ + time + "ms ("@ + tried + ")"@;
    text::a_text_holds_its_parts(empty, app, after);
    assert(reading.appeared() =~= empty + app + after);
    text::a_text_holds_its_parts(
        app + ": tree appeared after "@,
        time,
        "ms ("@ + tried + ")"@,
    );
    assert(reading.appeared() =~= app + ": tree appeared after "@ + time + ("ms ("@ + tried + ")"@));
    text::a_text_holds_its_parts(app + ": tree appeared after "@ + time + "ms ("@, tried, ")"@);
    assert(reading.appeared() =~= app + ": tree appeared after "@ + time + "ms ("@ + tried + ")"@);
    if reading.poll == 0 {
        text::a_text_holds_its_parts("read "@, app, empty);
        assert(reading.found_note() =~= "read "@ + app + empty);
        let rest = " interactive element(s) in the app, none inside this view"@;
        text::a_text_holds_its_parts(app + ": "@, number, rest);
        text::a_text_holds_its_parts(empty, app, ": "@ + number + rest);
        assert(reading.elsewhere_note(total) =~= empty + app + (": "@ + number + rest));
        assert(reading.elsewhere_note(total) =~= app + ": "@ + number + rest);
    } else {
        let rest = " element(s) are outside this view"@;
        let but = ", but its "@ + number + rest;
        text::what_is_held_is_held_further(reading.appeared(), app, but);
        assert(reading.elsewhere_note(total) =~= reading.appeared() + but);
        text::a_text_holds_its_parts(reading.appeared() + ", but its "@, number, rest);
        assert(reading.elsewhere_note(total) =~= reading.appeared() + ", but its "@ + number + rest);
    }
    let none = ": no accessibility elements — "@;
    let still = "; tree still empty after "@;
    let note = reading.empty_note();
    text::a_text_holds_its_parts(empty, app, none + tried + still + time + "ms"@);
    assert(note =~= empty + app + (none + tried + still + time + "ms"@));
    text::a_text_holds_its_parts(app + none, tried, still + time + "ms"@);
    assert(note =~= app + none + tried + (still + time + "ms"@));
    text::a_text_holds_its_parts(app + none + tried + still, time, "ms"@);
    assert(note =~= app + none + tried + still + time + "ms"@);
}

/// Asking for a tree is said with the attribute that took first, or with why none did last.
pub proof fn an_attempt_says_how_it_went(attribute: Seq<char>, reason: Seq<char>)
    ensures
        attempted(Ok(attribute)).take(attribute.len() as int) == attribute,
        attempted(Ok(attribute)).skip(attribute.len() as int) == " activated"@,
        attempted(Err(reason)).take("activation refused: "@.len() as int)
            == "activation refused: "@,
        attempted(Err(reason)).skip("activation refused: "@.len() as int) == reason,
{
    let taken = attempted(Ok(attribute));
    let refused = attempted(Err(reason));
    assert(taken.take(attribute.len() as int) =~= attribute);
    assert(taken.skip(attribute.len() as int) =~= " activated"@);
    assert(refused.take("activation refused: "@.len() as int) =~= "activation refused: "@);
    assert(refused.skip("activation refused: "@.len() as int) =~= reason);
}

} // verus!
