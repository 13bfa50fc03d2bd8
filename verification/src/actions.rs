//! Actions on a control, by name: what has to be true before one is sent, and what it
//! leaves behind.

use vstd::prelude::*;

use crate::address;
use crate::elements::{self, AxRefusal, Capability, ControlNow, ElementsView, Entry, EntryView};
use crate::observation::{Observations, ObservationsView};
use crate::serve::Dispatched;
use crate::target;
use crate::text;
use crate::wire::{self, Dispatch, Effect, Failure, FailureView, InputMethod};

verus! {

/// The control an action by name is sent to, or why nothing is sent: the reference has
/// to be listed, and what it names has to be there still, take input, and say that it
/// can do this.
pub open spec fn ready(
    elements: Option<ElementsView>,
    element_ref: Option<Seq<char>>,
    started_at: Option<u64>,
    role: Option<Seq<char>>,
    enabled: bool,
    want: Capability,
    actions: Seq<Seq<char>>,
    settable: bool,
) -> Result<EntryView, FailureView> {
    match elements::addressed(elements, element_ref) {
        Err(failure) => Err(failure),
        Ok(entry) => match elements::presence(elements, entry, started_at, role, enabled) {
            Err(failure) => Err(failure),
            Ok(()) => if elements::capable(want, actions, settable) {
                Ok(entry)
            } else {
                Err(wire::failed("ax_action_unsupported"@, elements::incapable(want)))
            },
        },
    }
}

/// The control an action by name is sent to, or why nothing is sent: the image it was
/// listed in has to be held still, and the reference is looked up in that image's own
/// table.
pub open spec fn prepared(
    observation_id: Option<Seq<char>>,
    table: ObservationsView,
    now_ms: u64,
    element_ref: Option<Seq<char>>,
    started_at: Option<u64>,
    role: Option<Seq<char>>,
    enabled: bool,
    want: Capability,
    actions: Seq<Seq<char>>,
    settable: bool,
) -> Result<EntryView, FailureView> {
    match address::image_required(observation_id, table, now_ms) {
        Err(failure) => Err(failure),
        Ok(named) => ready(
            named.elements,
            element_ref,
            started_at,
            role,
            enabled,
            want,
            actions,
            settable,
        ),
    }
}

/// The control an action by name is sent to. `now`, `actions` and `settable` are what
/// the platform says of the control the reference names.
pub fn prepare<'a>(
    observations: &'a Observations,
    observation_id: Option<&str>,
    element_ref: Option<&str>,
    now_ms: u64,
    now: &ControlNow,
    want: Capability,
    actions: &Vec<String>,
    settable: bool,
) -> (r: Result<&'a Entry, Failure>)
    ensures
        elements::found(r) == prepared(
            text::slice_of(observation_id),
            observations@,
            now_ms,
            text::slice_of(element_ref),
            now.started_at,
            text::text_of(now.role),
            now.enabled,
            want,
            text::texts(actions@),
            settable,
        ),
{
    let named = match address::held(observation_id, observations, now_ms) {
        Ok(named) => named,
        Err(failure) => return Err(failure),
    };
    let entry = match elements::element_in(named, element_ref) {
        Ok(entry) => entry,
        Err(failure) => return Err(failure),
    };
    match elements::revalidate(named, entry, now, want, actions, settable) {
        Ok(()) => Ok(entry),
        Err(failure) => Err(failure),
    }
}

/// Whether an accessibility message left the process.
pub open spec fn left(outcome: Result<(), AxRefusal>) -> bool {
    match outcome {
        Ok(()) => true,
        Err(refusal) => refusal.sent,
    }
}

/// What a message that failed is reported as.
pub open spec fn message_failure(outcome: Result<(), AxRefusal>) -> Result<(), FailureView> {
    match outcome {
        Ok(()) => Ok(()),
        Err(refusal) => Err(
            wire::failed(
                if refusal.sent {
                    "ax_timed_out"@
                } else {
                    "ax_action_failed"@
                },
                refusal.detail@,
            ),
        ),
    }
}

/// An action after its one message was tried: whether it went out is what the
/// platform says, and the foreground is noted only where it was read both before and
/// after.
pub open spec fn messaged(
    done: Dispatched,
    outcome: Result<(), AxRefusal>,
    before: Option<i32>,
    after: Option<i32>,
) -> Dispatched {
    Dispatched {
        posted: done.posted || left(outcome),
        input_complete: true,
        input_method: InputMethod::Ax,
        foreground_changed: match (before, after) {
            (Some(before), Some(after)) => Some(before != after),
            _ => done.foreground_changed,
        },
        ..done
    }
}

fn message(
    done: &mut Dispatched,
    outcome: Result<(), AxRefusal>,
    before: Option<i32>,
    after: Option<i32>,
) -> (r: Result<(), Failure>)
    ensures
        *final(done) == messaged(*old(done), outcome, before, after),
        target::told(r) == message_failure(outcome),
{
    if elements::went_out(&outcome) {
        done.posted = true;
    }
    done.input_complete = true;
    done.input_method = InputMethod::Ax;
    if let Some(moved) = elements::foreground_moved(before, after) {
        done.foreground_changed = Some(moved);
    }
    match outcome {
        Ok(()) => Ok(()),
        Err(refusal) => Err(elements::ax_failure(refusal)),
    }
}

/// A press after its message was tried. A clean return is that the message was sent
/// and no more: what the control did with it was not observed.
pub fn press(
    done: &mut Dispatched,
    outcome: Result<(), AxRefusal>,
    before: Option<i32>,
    after: Option<i32>,
) -> (r: Result<(), Failure>)
    ensures
        target::told(r) == message_failure(outcome),
        *final(done) == (Dispatched {
            effect: if outcome is Ok {
                Some(Effect::NotObserved)
            } else {
                old(done).effect
            },
            ..messaged(*old(done), outcome, before, after)
        }),
{
    match message(done, outcome, before, after) {
        Ok(()) => {
            done.effect = Some(Effect::NotObserved);
            Ok(())
        },
        Err(failure) => Err(failure),
    }
}

/// A value after its message was tried and, where that went well, the field was read
/// back. Only a value that reads back the same is verified.
pub fn set_value(
    done: &mut Dispatched,
    outcome: Result<(), AxRefusal>,
    before: Option<i32>,
    after: Option<i32>,
    secure: bool,
    read_back: Option<&str>,
    value: &str,
) -> (r: Result<bool, Failure>)
    ensures
        target::told(r) == (match message_failure(outcome) {
            Ok(()) => Ok(elements::verifies(secure, text::slice_of(read_back), value@)),
            Err(failure) => Err(failure),
        }),
        r matches Ok(verified) ==> (verified <==> !secure && (read_back matches Some(held) && held@
            == value@)),
        *final(done) == (Dispatched {
            effect: if outcome is Err {
                old(done).effect
            } else if elements::verifies(secure, text::slice_of(read_back), value@) {
                Some(Effect::Verified)
            } else {
                Some(Effect::NotObserved)
            },
            ..messaged(*old(done), outcome, before, after)
        }),
{
    match message(done, outcome, before, after) {
        Ok(()) => {
            let effect = elements::value_effect(secure, read_back, value);
            done.effect = Some(effect);
            Ok(effect == Effect::Verified)
        },
        Err(failure) => Err(failure),
    }
}

/// A message the platform says never left is never reported as sent, and one that
/// went out always is, however it ended.
pub proof fn a_message_is_sent_when_it_left(
    outcome: Result<(), AxRefusal>,
    done: Dispatched,
    before: Option<i32>,
    after: Option<i32>,
)
    requires
        !done.posted,
    ensures
        ({
            let now = messaged(done, outcome, before, after);
            wire::dispatched(now.posted, now.input_complete) == (if left(outcome) {
                Dispatch::Sent
            } else {
                Dispatch::NotSent
            })
        }),
{
}

/// A secure field never verifies.
pub proof fn a_secure_field_never_verifies(read_back: Option<Seq<char>>, value: Seq<char>)
    ensures
        !elements::verifies(true, read_back, value),
{
}

/// A refused action is refused before anything is sent, and always by one of four
/// codes.
pub proof fn a_refusal_names_itself(
    elements: Option<ElementsView>,
    element_ref: Option<Seq<char>>,
    started_at: Option<u64>,
    role: Option<Seq<char>>,
    enabled: bool,
    want: Capability,
    actions: Seq<Seq<char>>,
    settable: bool,
)
    ensures
        match ready(elements, element_ref, started_at, role, enabled, want, actions, settable) {
            Ok(entry) => elements is Some && enabled && role == Some(entry.role)
                && elements::capable(want, actions, settable),
            Err(failure) => failure.code == "element_required"@ || failure.code
                == "stale_element"@ || failure.code == "element_disabled"@ || failure.code
                == "ax_action_unsupported"@,
        },
{
}

/// An action by name is sent exactly where its image is held, the reference is listed there,
/// and what it names is still there, takes input and says that it can do this; it is then
/// sent to that control.
pub proof fn an_action_is_sent_to_the_control_it_names(
    observation_id: Option<Seq<char>>,
    table: ObservationsView,
    now_ms: u64,
    element_ref: Option<Seq<char>>,
    started_at: Option<u64>,
    role: Option<Seq<char>>,
    enabled: bool,
    want: Capability,
    actions: Seq<Seq<char>>,
    settable: bool,
    entry: EntryView,
)
    ensures
        prepared(
            observation_id,
            table,
            now_ms,
            element_ref,
            started_at,
            role,
            enabled,
            want,
            actions,
            settable,
        ) == Ok::<EntryView, FailureView>(entry) <==> {
            &&& observation_id is Some
            &&& table.named(observation_id->0, now_ms) is Ok
            &&& table.named(observation_id->0, now_ms)->Ok_0.elements matches Some(listed) && {
                &&& element_ref is Some
                &&& elements::entry_for(listed.entries, element_ref->0) == Some(entry)
                &&& started_at == Some(listed.started_at)
                &&& role == Some(entry.role)
                &&& enabled
                &&& match want {
                    Capability::Press => actions.contains("AXPress"@),
                    Capability::SetValue => settable,
                }
            }
        },
{
}

/// A message is posted where it left, marks the action as made through accessibility, and
/// notes whether the foreground moved only where it was read both before and after.
pub proof fn a_message_is_noted_as_it_went(
    done: Dispatched,
    outcome: Result<(), AxRefusal>,
    before: Option<i32>,
    after: Option<i32>,
)
    ensures
        ({
            let now = messaged(done, outcome, before, after);
            &&& now.posted <==> done.posted || outcome is Ok || outcome->Err_0.sent
            &&& now.input_complete
            &&& now.input_method == InputMethod::Ax
            &&& before is Some && after is Some ==> now.foreground_changed == Some(
                before->0 != after->0,
            )
            &&& before is None || after is None ==> now.foreground_changed
                == done.foreground_changed
            &&& now.cancelled == done.cancelled && now.timings == done.timings
            &&& now.check == done.check && now.effect == done.effect
        }),
        message_failure(outcome) is Ok <==> outcome is Ok,
        outcome matches Err(refusal) ==> (message_failure(outcome) matches Err(failure)
            && failure.code == (if refusal.sent {
            "ax_timed_out"@
        } else {
            "ax_action_failed"@
        }) && failure.detail == Some(refusal.detail@)),
{
}

} // verus!
