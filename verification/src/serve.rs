//! Answering a request: which action it asks for, what the action brought back, and
//! the reply that reports it.

use serde_json::Value;
use vstd::prelude::*;

use crate::geometry::Region;
use crate::json::{self, Json};
use crate::measure;
use crate::observation::{self, Observation, ViewHash};
use crate::text;
use crate::view;
use crate::waiting;
use crate::wire::{
    self, Check, Checked, Dispatch, Effect, Envelope, Failure, FailureView, InputMethod, Receipt,
    Settle, Timings,
};

verus! {

/// The version of the wire, told in the handshake and in every capture
/// acknowledgement.
pub const PROTOCOL_VERSION: u64 = 10;

/// The status a process ends with whose capture backend is stuck, and nothing else.
pub const EXIT_CAPTURE_STALLED: i32 = 75;

/// The statuses a process ends with that could not take responsibility for itself,
/// one for each step that can fail.
pub const NO_SETDISCLAIM_SYMBOL: i32 = 70;

pub const SETDISCLAIM_REFUSED: i32 = 71;

pub const REEXEC_FAILED: i32 = 72;

pub const NO_CURRENT_EXE: i32 = 73;

pub const ATTR_INIT_FAILED: i32 = 74;

pub const NUL_IN_ARGV: i32 = 76;

pub const SETFLAGS_FAILED: i32 = 77;

/// Every status of a process that could not take responsibility for itself. None of
/// them is the one that says the capture backend is stuck.
pub fn disclaim_exit_codes() -> (r: Vec<i32>)
    ensures
        r@ == seq![
            NO_SETDISCLAIM_SYMBOL,
            SETDISCLAIM_REFUSED,
            REEXEC_FAILED,
            NO_CURRENT_EXE,
            ATTR_INIT_FAILED,
            NUL_IN_ARGV,
            SETFLAGS_FAILED,
        ],
        !r@.contains(EXIT_CAPTURE_STALLED),
{
    vec![
        NO_SETDISCLAIM_SYMBOL,
        SETDISCLAIM_REFUSED,
        REEXEC_FAILED,
        NO_CURRENT_EXE,
        ATTR_INIT_FAILED,
        NUL_IN_ARGV,
        SETFLAGS_FAILED,
    ]
}

/// The identity of one boot: a process number alone is used again.
pub fn boot_generation(pid: u32, now_ms: u64) -> (r: String)
    ensures
        r@ == "boot-"@ + text::decimal(pid as nat) + "-"@ + text::decimal(now_ms as nat),
{
    let mut out = "boot-".to_owned();
    out.append(text::write_decimal(pid as u64).as_str());
    out.append("-");
    out.append(text::write_decimal(now_ms).as_str());
    out
}

/// An action a request can ask for.
#[derive(Clone, Copy, Debug, PartialEq, Eq, Structural)]
pub enum Verb {
    Hello,
    Probe,
    IdleMs,
    WaitForIdle,
    RequestPermissions,
    ObserveStart,
    ObserveStop,
    Screenshot,
    MouseMove,
    LeftClick,
    RightClick,
    DoubleClick,
    LeftClickDrag,
    Scroll,
    Type,
    Key,
    Wait,
    Inspect,
    WaitForChange,
    Paste,
    Elements,
    Windows,
    Press,
    SetValue,
}

/// The name an action has on the wire.
pub open spec fn verb_name(verb: Verb) -> Seq<char> {
    match verb {
        Verb::Hello => "hello"@,
        Verb::Probe => "probe"@,
        Verb::IdleMs => "idle_ms"@,
        Verb::WaitForIdle => "wait_for_idle"@,
        Verb::RequestPermissions => "request_permissions"@,
        Verb::ObserveStart => "observe_start"@,
        Verb::ObserveStop => "observe_stop"@,
        Verb::Screenshot => "screenshot"@,
        Verb::MouseMove => "mouse_move"@,
        Verb::LeftClick => "left_click"@,
        Verb::RightClick => "right_click"@,
        Verb::DoubleClick => "double_click"@,
        Verb::LeftClickDrag => "left_click_drag"@,
        Verb::Scroll => "scroll"@,
        Verb::Type => "type"@,
        Verb::Key => "key"@,
        Verb::Wait => "wait"@,
        Verb::Inspect => "inspect"@,
        Verb::WaitForChange => "wait_for_change"@,
        Verb::Paste => "paste"@,
        Verb::Elements => "elements"@,
        Verb::Windows => "windows"@,
        Verb::Press => "press"@,
        Verb::SetValue => "set_value"@,
    }
}

/// Whether an action has this name.
pub open spec fn is_known(action: Seq<char>) -> bool {
    exists|verb: Verb| action == #[trigger] verb_name(verb)
}

fn named(action: &str, verb: Verb, name: &str) -> (r: bool)
    requires
        name@ == verb_name(verb),
    ensures
        r == (action@ == verb_name(verb)),
{
    text::same(action, name)
}

/// The action a request asks for, or the failure of one there is none of.
pub fn verb_of(action: &str) -> (r: Result<Verb, Failure>)
    ensures
        match r {
            Ok(verb) => action@ == verb_name(verb),
            Err(failure) => !is_known(action@) && failure@ == wire::coded(
                "unknown action: "@ + action@,
            ),
        },
{
    if named(action, Verb::Hello, "hello") {
        Ok(Verb::Hello)
    } else if named(action, Verb::Probe, "probe") {
        Ok(Verb::Probe)
    } else if named(action, Verb::IdleMs, "idle_ms") {
        Ok(Verb::IdleMs)
    } else if named(action, Verb::WaitForIdle, "wait_for_idle") {
        Ok(Verb::WaitForIdle)
    } else if named(action, Verb::RequestPermissions, "request_permissions") {
        Ok(Verb::RequestPermissions)
    } else if named(action, Verb::ObserveStart, "observe_start") {
        Ok(Verb::ObserveStart)
    } else if named(action, Verb::ObserveStop, "observe_stop") {
        Ok(Verb::ObserveStop)
    } else if named(action, Verb::Screenshot, "screenshot") {
        Ok(Verb::Screenshot)
    } else if named(action, Verb::MouseMove, "mouse_move") {
        Ok(Verb::MouseMove)
    } else if named(action, Verb::LeftClick, "left_click") {
        Ok(Verb::LeftClick)
    } else if named(action, Verb::RightClick, "right_click") {
        Ok(Verb::RightClick)
    } else if named(action, Verb::DoubleClick, "double_click") {
        Ok(Verb::DoubleClick)
    } else if named(action, Verb::LeftClickDrag, "left_click_drag") {
        Ok(Verb::LeftClickDrag)
    } else if named(action, Verb::Scroll, "scroll") {
        Ok(Verb::Scroll)
    } else if named(action, Verb::Type, "type") {
        Ok(Verb::Type)
    } else if named(action, Verb::Key, "key") {
        Ok(Verb::Key)
    } else if named(action, Verb::Wait, "wait") {
        Ok(Verb::Wait)
    } else if named(action, Verb::Inspect, "inspect") {
        Ok(Verb::Inspect)
    } else if named(action, Verb::WaitForChange, "wait_for_change") {
        Ok(Verb::WaitForChange)
    } else if named(action, Verb::Paste, "paste") {
        Ok(Verb::Paste)
    } else if named(action, Verb::Elements, "elements") {
        Ok(Verb::Elements)
    } else if named(action, Verb::Windows, "windows") {
        Ok(Verb::Windows)
    } else if named(action, Verb::Press, "press") {
        Ok(Verb::Press)
    } else if named(action, Verb::SetValue, "set_value") {
        Ok(Verb::SetValue)
    } else {
        let mut code = "unknown action: ".to_owned();
        code.append(action);
        Err(Failure { code, detail: None })
    }
}

/// What one action let through and brought back.
#[derive(Clone, Copy, Debug)]
pub struct Dispatched {
    /// Whether at least one input call was let through.
    pub posted: bool,
    /// Whether the action's own input ran to its end.
    pub input_complete: bool,
    pub cancelled: bool,
    pub timings: Timings,
    pub input_method: InputMethod,
    pub check: Option<Checked>,
    /// What the action saw of its own effect, where it looked.
    pub effect: Option<Effect>,
    pub foreground_changed: Option<bool>,
}

/// An action that did nothing at all.
pub open spec fn nothing_done() -> Dispatched {
    Dispatched {
        posted: false,
        input_complete: false,
        cancelled: false,
        timings: Timings { input_ms: 0, settle_ms: 0, capture_ms: 0, encode_ms: 0 },
        input_method: InputMethod::ForegroundHid,
        check: None,
        effect: None,
        foreground_changed: None,
    }
}

impl Dispatched {
    /// An action that did nothing at all.
    pub fn nothing() -> (r: Dispatched)
        ensures
            r == nothing_done(),
    {
        Dispatched {
            posted: false,
            input_complete: false,
            cancelled: false,
            timings: Timings { input_ms: 0, settle_ms: 0, capture_ms: 0, encode_ms: 0 },
            input_method: InputMethod::ForegroundHid,
            check: None,
            effect: None,
            foreground_changed: None,
        }
    }
}

/// What is known of an action's effect: what it saw itself, or that there is a
/// picture for the caller to judge by, or nothing.
pub open spec fn effect_of(done: Dispatched) -> Effect {
    match done.effect {
        Some(effect) => effect,
        None => match done.check {
            Some(check) => if check.kind == Check::Image {
                Effect::NotObserved
            } else {
                Effect::Unknown
            },
            None => Effect::Unknown,
        },
    }
}

/// Whether a receipt is the one an action earned: none for an action that changes
/// nothing, and for any other what it let through and brought back.
pub open spec fn earned(
    action: Seq<char>,
    observation_id: Option<Seq<char>>,
    done: Dispatched,
    after: Option<Seq<char>>,
    receipt: Option<Receipt>,
) -> bool {
    match receipt {
        None => wire::read_only_action(action),
        Some(receipt) => {
            &&& !wire::read_only_action(action)
            &&& receipt.dispatch == wire::dispatched(done.posted, done.input_complete)
            &&& receipt.effect == effect_of(done)
            &&& receipt.timings == done.timings
            &&& receipt.input_method == done.input_method
            &&& receipt.check == done.check
            &&& receipt.foreground_changed == done.foreground_changed
            &&& text::text_of(receipt.observation_id_before) == observation_id
            &&& text::text_of(receipt.observation_id_after) == after
        },
    }
}

/// The receipt an action earned. It rides every action that is not read-only,
/// refusals too: that no input was sent is what a caller needs to know before it
/// tries again.
pub fn receipt(action: &str, observation_id: Option<&str>, done: &Dispatched, after: Option<&str>)
    -> (r: Option<Receipt>)
    ensures
        earned(action@, text::slice_of(observation_id), *done, text::slice_of(after), r),
{
    if !wire::carries_mutation_seq(action) {
        return None;
    }
    let after_image = match done.check {
        Some(check) => check.kind == Check::Image,
        None => false,
    };
    let mut receipt = Receipt::derive(done.posted, done.input_complete, after_image, done.timings);
    if let Some(effect) = done.effect {
        receipt.effect = effect;
    }
    receipt.input_method = done.input_method;
    receipt.check = done.check;
    receipt.foreground_changed = done.foreground_changed;
    receipt.observation_id_before = text::own_text(observation_id);
    receipt.observation_id_after = text::own_text(after);
    Some(receipt)
}

/// The members of a capture acknowledgement.
pub open spec fn ack_json(action: Seq<char>, ok: bool, error: Option<Seq<char>>) -> Json {
    let plain = Map::<Seq<char>, Json>::empty().insert("type"@, Json::Text("ack"@)).insert(
        "action"@,
        Json::Text(action),
    ).insert("ok"@, Json::Bool(ok)).insert(
        "protocol_version"@,
        Json::Unsigned(PROTOCOL_VERSION),
    );
    Json::Object(
        match error {
            Some(error) => plain.insert("error"@, Json::Text(error)),
            None => plain,
        },
    )
}

/// A capture acknowledgement: it answers in a family of its own, with no envelope and
/// no id.
pub fn observe_ack(action: &str, ok: bool, error: Option<&str>) -> (r: Value)
    ensures
        json::json_of(r) == ack_json(action@, ok, text::slice_of(error)),
{
    let mut ack = json::object();
    json::insert(&mut ack, "type", json::string("ack"));
    json::insert(&mut ack, "action", json::string(action));
    json::insert(&mut ack, "ok", json::boolean(ok));
    json::insert(&mut ack, "protocol_version", json::unsigned(PROTOCOL_VERSION));
    if let Some(error) = error {
        json::insert(&mut ack, "error", json::string(error));
    }
    ack
}

/// What a failed action is reported as: a cancelled one says so, with its own code
/// beside it unless that says the same.
pub open spec fn reported(done: Dispatched, failure: FailureView) -> FailureView {
    if done.cancelled {
        FailureView {
            code: "cancelled"@,
            detail: if failure.code == "cancelled"@ {
                None
            } else {
                Some(failure.code)
            },
        }
    } else {
        failure
    }
}

/// What an action came back with, with what it says in place of what it holds.
pub open spec fn outcome_of(outcome: Result<Value, Failure>) -> Result<Json, FailureView> {
    match outcome {
        Ok(payload) => Ok(json::json_of(payload)),
        Err(failure) => Err(failure@),
    }
}

/// Whether a frame is the reply to an action that came back with this.
pub open spec fn replies(
    envelope: Envelope,
    request_id: Seq<char>,
    action: Seq<char>,
    observation_id: Option<Seq<char>>,
    outcome: Result<Json, FailureView>,
    done: Dispatched,
    frame: Json,
) -> bool {
    if wire::ack_action(action) {
        frame == (match outcome {
            Ok(ack) => ack,
            Err(failure) => ack_json(action, false, Some(failure.code)),
        })
    } else {
        match outcome {
            Ok(payload) => exists|receipt: Option<Receipt>|
                {
                    &&& #[trigger] earned(
                        action,
                        observation_id,
                        done,
                        json::field_text(payload, "observation_id"@),
                        receipt,
                    )
                    &&& frame == Json::Object(
                        wire::response_members(envelope, request_id, payload, receipt),
                    )
                },
            Err(failure) => exists|receipt: Option<Receipt>|
                {
                    &&& #[trigger] earned(action, observation_id, done, None, receipt)
                    &&& frame == Json::Object(
                        wire::error_members(
                            envelope,
                            request_id,
                            reported(done, failure).code,
                            reported(done, failure).detail,
                            receipt,
                        ),
                    )
                },
        }
    }
}

/// Turns what an action did into the frame that reports it.
pub fn reply(
    envelope: &Envelope,
    request_id: &str,
    action: &str,
    observation_id: Option<&str>,
    outcome: Result<Value, Failure>,
    done: &Dispatched,
) -> (r: Value)
    ensures
        replies(
            *envelope,
            request_id@,
            action@,
            text::slice_of(observation_id),
            outcome_of(outcome),
            *done,
            json::json_of(r),
        ),
{
    if wire::answers_with_ack(action) {
        return match outcome {
            Ok(ack) => ack,
            Err(failure) => observe_ack(action, false, Some(failure.code.as_str())),
        };
    }
    match outcome {
        Ok(payload) => {
            let after = text::own_text(json::text_at(&payload, "observation_id"));
            let after_id = match &after {
                Some(id) => Some(id.as_str()),
                None => None,
            };
            let receipt = receipt(action, observation_id, done, after_id);
            wire::response(envelope, request_id, payload, receipt)
        },
        Err(failure) => {
            let receipt = receipt(action, observation_id, done, None);
            if done.cancelled {
                let detail = if text::same(failure.code.as_str(), "cancelled") {
                    None
                } else {
                    Some(failure.code)
                };
                wire::error_response(envelope, request_id, "cancelled", detail, receipt)
            } else {
                wire::error_response(
                    envelope,
                    request_id,
                    failure.code.as_str(),
                    failure.detail,
                    receipt,
                )
            }
        },
    }
}

/// The reply to a request that was refused before anything ran: whatever the refusal,
/// nothing was sent.
pub fn refusal(
    envelope: &Envelope,
    request_id: &str,
    action: &str,
    observation_id: Option<&str>,
    code: &str,
    detail: &str,
) -> (r: Value)
    ensures
        exists|receipt: Option<Receipt>|
            {
                &&& #[trigger] earned(
                    action@,
                    text::slice_of(observation_id),
                    nothing_done(),
                    None,
                    receipt,
                )
                &&& json::json_of(r) == Json::Object(
                    wire::error_members(
                        *envelope,
                        request_id@,
                        code@,
                        Some(detail@),
                        receipt,
                    ),
                )
            },
{
    let done = Dispatched::nothing();
    let receipt = receipt(action, observation_id, &done, None);
    assert(earned(action@, text::slice_of(observation_id), done, None, receipt));
    wire::error_response(envelope, request_id, code, Some(detail.to_owned()), receipt)
}

/// Evidence that could not be obtained never changes what was sent: whether an action
/// succeeded, what its check brought back and how it ended play no part in what its
/// receipt says was dispatched.
pub proof fn what_was_sent_is_not_what_was_seen(
    action: Seq<char>,
    observation_id: Option<Seq<char>>,
    one: Dispatched,
    other: Dispatched,
    after: Option<Seq<char>>,
    later: Option<Seq<char>>,
    first: Receipt,
    second: Receipt,
)
    requires
        one.posted == other.posted,
        one.input_complete == other.input_complete,
        earned(action, observation_id, one, after, Some(first)),
        earned(action, observation_id, other, later, Some(second)),
    ensures
        first.dispatch == second.dispatch,
{
}

/// Nothing that was not let through is ever reported as sent, and a receipt claims an
/// effect only where the action looked for one.
pub proof fn a_receipt_claims_only_what_happened(
    action: Seq<char>,
    observation_id: Option<Seq<char>>,
    done: Dispatched,
    after: Option<Seq<char>>,
    receipt: Receipt,
)
    requires
        earned(action, observation_id, done, after, Some(receipt)),
    ensures
        !done.posted <==> receipt.dispatch == Dispatch::NotSent,
        receipt.dispatch == Dispatch::Sent <==> done.posted && done.input_complete,
        receipt.effect == Effect::Verified ==> done.effect == Some(Effect::Verified),
        receipt.check == done.check,
{
}

/// The evidence a request asks for.
pub open spec fn check_asked(req: Json) -> Check {
    if json::field_text(req, "check"@) == Some("image"@) {
        Check::Image
    } else if json::field_text(req, "check"@) == Some("semantic"@) {
        Check::Semantic
    } else {
        Check::Nothing
    }
}

/// The evidence a request asks for.
pub fn check_of(req: &Value) -> (r: Check)
    ensures
        r == check_asked(json::json_of(*req)),
{
    match json::text_at(req, "check") {
        Some(name) => if text::same(name, "image") {
            Check::Image
        } else if text::same(name, "semantic") {
            Check::Semantic
        } else {
            Check::Nothing
        },
        None => Check::Nothing,
    }
}

/// The evidence of an action that asked for none: the receipt alone, which says so.
pub fn receipt_only() -> (r: (Value, Checked))
    ensures
        json::json_of(r.0) == waiting::done_json(),
        r.1 == (Checked { kind: Check::Nothing, settle: None, changed: None }),
{
    (waiting::done(), Checked { kind: Check::Nothing, settle: None, changed: None })
}

/// The evidence of a picture: how its view settled, and whether it changed since the
/// image that was acted in, where that is known.
pub fn image_checked(settle: Settle, before: Option<ViewHash>, after: ViewHash) -> (r: Checked)
    ensures
        r == (Checked {
            kind: Check::Image,
            settle: Some(settle),
            changed: view::change_since(before, after),
        }),
{
    Checked {
        kind: Check::Image,
        settle: Some(settle),
        changed: view::changed_since(before, after),
    }
}

/// The rectangle a check picture covers, in the pixels of the image the action was
/// aimed in: the whole of it. Nothing for an action that named none, whose check is
/// the display.
pub fn check_view(named: Option<&Observation>) -> (r: Option<Region>)
    ensures
        r == (match named {
            Some(observation) => Some(
                Region {
                    x: 0,
                    y: 0,
                    w: (observation.sent_w * measure::UNIT) as i64,
                    h: (observation.sent_h * measure::UNIT) as i64,
                },
            ),
            None => None,
        }),
{
    match named {
        Some(observation) => Some(
            Region {
                x: 0,
                y: 0,
                w: observation.sent_w as i64 * measure::UNIT,
                h: observation.sent_h as i64 * measure::UNIT,
            },
        ),
        None => None,
    }
}

/// Adds to the picture a wait ended on whether it ended in a change.
pub fn report_change(payload: &mut Value, changed: bool)
    requires
        json::json_of(*old(payload)) is Object,
    ensures
        json::json_of(*final(payload)) == Json::Object(
            json::json_of(*old(payload))->Object_0.insert("changed"@, Json::Bool(changed)),
        ),
{
    json::insert(payload, "changed", json::boolean(changed));
}

/// The actions a caller is offered.
pub open spec fn offered() -> Seq<Seq<char>> {
    seq![
        "screenshot"@,
        "left_click"@,
        "right_click"@,
        "double_click"@,
        "mouse_move"@,
        "left_click_drag"@,
        "scroll"@,
        "type"@,
        "key"@,
        "wait"@,
        "inspect"@,
        "wait_for_change"@,
        "paste"@,
        "elements"@,
        "windows"@,
        "press"@,
        "set_value"@,
    ]
}

/// Whether an action is the helper's own business and no one else's: the handshake,
/// the probes, the permissions, the idle clock and the capture rail.
pub open spec fn operational(verb: Verb) -> bool {
    verb == Verb::Hello || verb == Verb::Probe || verb == Verb::IdleMs || verb == Verb::WaitForIdle
        || verb == Verb::RequestPermissions || verb == Verb::ObserveStart || verb
        == Verb::ObserveStop
}

/// Every action that is offered is one there is, and the operational ones are never
/// offered.
pub proof fn only_model_actions_are_offered(verb: Verb)
    ensures
        offered().contains(verb_name(verb)) <==> !operational(verb),
        forall|i: int| 0 <= i < offered().len() ==> is_known(#[trigger] offered()[i]),
{
    reveal_strlit("screenshot");
    reveal_strlit("left_click");
    reveal_strlit("right_click");
    reveal_strlit("double_click");
    reveal_strlit("mouse_move");
    reveal_strlit("left_click_drag");
    reveal_strlit("scroll");
    reveal_strlit("type");
    reveal_strlit("key");
    reveal_strlit("wait");
    reveal_strlit("inspect");
    reveal_strlit("wait_for_change");
    reveal_strlit("paste");
    reveal_strlit("elements");
    reveal_strlit("windows");
    reveal_strlit("press");
    reveal_strlit("set_value");
    reveal_strlit("hello");
    reveal_strlit("probe");
    reveal_strlit("idle_ms");
    reveal_strlit("wait_for_idle");
    reveal_strlit("request_permissions");
    reveal_strlit("observe_start");
    reveal_strlit("observe_stop");
    assert("screenshot"@.len() == 10);
    assert("left_click"@.len() == 10);
    assert("right_click"@.len() == 11);
    assert("double_click"@.len() == 12);
    assert("mouse_move"@.len() == 10);
    assert("left_click_drag"@.len() == 15);
    assert("scroll"@.len() == 6);
    assert("type"@.len() == 4);
    assert("key"@.len() == 3);
    assert("wait"@.len() == 4);
    assert("inspect"@.len() == 7);
    assert("wait_for_change"@.len() == 15);
    assert("paste"@.len() == 5);
    assert("elements"@.len() == 8);
    assert("windows"@.len() == 7);
    assert("press"@.len() == 5);
    assert("set_value"@.len() == 9);
    assert("hello"@.len() == 5);
    assert("probe"@.len() == 5);
    assert("idle_ms"@.len() == 7);
    assert("wait_for_idle"@.len() == 13);
    assert("request_permissions"@.len() == 19);
    assert("observe_start"@.len() == 13);
    assert("observe_stop"@.len() == 12);
    assert("hello"@[0] == 'h' && "paste"@[0] == 'p');
    assert("hello"@[0] == 'h' && "press"@[0] == 'p');
    assert("probe"@[1] == 'r' && "paste"@[1] == 'a');
    assert("probe"@[2] == 'o' && "press"@[2] == 'e');
    assert("idle_ms"@[1] == 'd' && "inspect"@[1] == 'n');
    assert("idle_ms"@[0] == 'i' && "windows"@[0] == 'w');
    assert("observe_stop"@[0] == 'o' && "double_click"@[0] == 'd');
    let all = offered();
    assert(all[0] == verb_name(Verb::Screenshot));
    assert(all[1] == verb_name(Verb::LeftClick));
    assert(all[2] == verb_name(Verb::RightClick));
    assert(all[3] == verb_name(Verb::DoubleClick));
    assert(all[4] == verb_name(Verb::MouseMove));
    assert(all[5] == verb_name(Verb::LeftClickDrag));
    assert(all[6] == verb_name(Verb::Scroll));
    assert(all[7] == verb_name(Verb::Type));
    assert(all[8] == verb_name(Verb::Key));
    assert(all[9] == verb_name(Verb::Wait));
    assert(all[10] == verb_name(Verb::Inspect));
    assert(all[11] == verb_name(Verb::WaitForChange));
    assert(all[12] == verb_name(Verb::Paste));
    assert(all[13] == verb_name(Verb::Elements));
    assert(all[14] == verb_name(Verb::Windows));
    assert(all[15] == verb_name(Verb::Press));
    assert(all[16] == verb_name(Verb::SetValue));
    if operational(verb) && all.contains(verb_name(verb)) {
        let i = choose|i: int| 0 <= i < all.len() && all[i] == verb_name(verb);
        assert(0 <= i < 17);
        assert(all[i].len() == verb_name(verb).len());
        assert(false);
    }
}

/// Names as a list of strings.
pub open spec fn names_json(names: Seq<Seq<char>>) -> Json {
    Json::List(names.map_values(|name: Seq<char>| Json::Text(name)))
}

fn names_value(names: &Vec<&'static str>) -> (r: Value)
    ensures
        json::json_of(r) == names_json(names@.map_values(|name: &'static str| name@)),
{
    let mut items: Vec<Value> = Vec::new();
    let mut i: usize = 0;
    while i < names.len()
        invariant
            i <= names@.len(),
            items@.len() == i,
            forall|k: int|
                0 <= k < i ==> json::json_of(#[trigger] items@[k]) == Json::Text(names@[k]@),
        decreases names@.len() - i,
    {
        items.push(json::string(names[i]));
        i += 1;
    }
    assert(json::json_list(items@) =~= names@.map_values(|name: &'static str| name@).map_values(
        |name: Seq<char>| Json::Text(name),
    ));
    json::list(items)
}

/// The members of a handshake.
pub open spec fn hello_json(version: Seq<char>) -> Json {
    let bounds = Map::<Seq<char>, Json>::empty().insert(
        "max"@,
        Json::Unsigned(observation::MAX_OBSERVATIONS as u64),
    ).insert("ttl_ms"@, Json::Unsigned(observation::TTL_MS));
    let capabilities = Map::<Seq<char>, Json>::empty().insert(
        "input_methods"@,
        names_json(seq!["foreground_hid"@, "ax"@]),
    ).insert("controls"@, names_json(seq!["pause"@, "resume"@, "release"@])).insert(
        "observations"@,
        Json::Object(bounds),
    );
    Json::Object(
        Map::<Seq<char>, Json>::empty().insert("ok"@, Json::Bool(true)).insert(
            "protocol_version"@,
            Json::Unsigned(PROTOCOL_VERSION),
        ).insert("compux_version"@, Json::Text(version)).insert(
            "actions"@,
            names_json(offered()),
        ).insert("capabilities"@, Json::Object(capabilities)),
    )
}

/// The handshake: the version of the wire, the actions a caller is offered, and what
/// this build can do.
pub fn hello(version: &str) -> (r: Value)
    ensures
        json::json_of(r) == hello_json(version@),
{
    let actions: Vec<&'static str> = vec![
        "screenshot",
        "left_click",
        "right_click",
        "double_click",
        "mouse_move",
        "left_click_drag",
        "scroll",
        "type",
        "key",
        "wait",
        "inspect",
        "wait_for_change",
        "paste",
        "elements",
        "windows",
        "press",
        "set_value",
    ];
    assert(actions@.map_values(|name: &'static str| name@) =~= offered());
    let methods: Vec<&'static str> = vec!["foreground_hid", "ax"];
    assert(methods@.map_values(|name: &'static str| name@) =~= seq!["foreground_hid"@, "ax"@]);
    let controls: Vec<&'static str> = vec!["pause", "resume", "release"];
    assert(controls@.map_values(|name: &'static str| name@) =~= seq![
        "pause"@,
        "resume"@,
        "release"@,
    ]);
    let mut bounds = json::object();
    json::insert(&mut bounds, "max", json::unsigned(observation::MAX_OBSERVATIONS as u64));
    json::insert(&mut bounds, "ttl_ms", json::unsigned(observation::TTL_MS));
    let mut capabilities = json::object();
    json::insert(&mut capabilities, "input_methods", names_value(&methods));
    json::insert(&mut capabilities, "controls", names_value(&controls));
    json::insert(&mut capabilities, "observations", bounds);
    let mut payload = json::object();
    json::insert(&mut payload, "ok", json::boolean(true));
    json::insert(&mut payload, "protocol_version", json::unsigned(PROTOCOL_VERSION));
    json::insert(&mut payload, "compux_version", json::string(version));
    json::insert(&mut payload, "actions", names_value(&actions));
    json::insert(&mut payload, "capabilities", capabilities);
    payload
}

/// The display server of a system without one of its own: what its environment says
/// is there.
pub fn display_server(wayland: bool, x11: bool) -> (r: &'static str)
    ensures
        r@ == (if wayland {
            "wayland"@
        } else if x11 {
            "x11"@
        } else {
            "none"@
        }),
{
    if wayland {
        "wayland"
    } else if x11 {
        "x11"
    } else {
        "none"
    }
}

/// Whether a display server lets a client capture and inject: X11 does, and no other.
pub fn is_permissive(server: &str) -> (r: bool)
    ensures
        r == (server@ == "x11"@),
{
    text::same(server, "x11")
}

/// The members of a probe.
pub open spec fn probe_json(
    platform: Seq<char>,
    display_server: Seq<char>,
    screen_capture: bool,
    input_control: bool,
) -> Json {
    Json::Object(
        Map::<Seq<char>, Json>::empty().insert("ok"@, Json::Bool(true)).insert(
            "platform"@,
            Json::Text(platform),
        ).insert("display_server"@, Json::Text(display_server)).insert(
            "screen_capture"@,
            Json::Bool(screen_capture),
        ).insert("input_control"@, Json::Bool(input_control)),
    )
}

/// Reports whether capture and input are available.
pub fn probe(platform: &str, display_server: &str, screen_capture: bool, input_control: bool) -> (r:
    Value)
    ensures
        json::json_of(r) == probe_json(
            platform@,
            display_server@,
            screen_capture,
            input_control,
        ),
{
    let mut payload = json::object();
    json::insert(&mut payload, "ok", json::boolean(true));
    json::insert(&mut payload, "platform", json::string(platform));
    json::insert(&mut payload, "display_server", json::string(display_server));
    json::insert(&mut payload, "screen_capture", json::boolean(screen_capture));
    json::insert(&mut payload, "input_control", json::boolean(input_control));
    payload
}

/// The members of an answer to asking for permission.
pub open spec fn permissions_json(
    platform: Seq<char>,
    screen_capture: bool,
    input_control: bool,
) -> Json {
    Json::Object(
        Map::<Seq<char>, Json>::empty().insert("ok"@, Json::Bool(true)).insert(
            "platform"@,
            Json::Text(platform),
        ).insert("screen_capture"@, Json::Bool(screen_capture)).insert(
            "input_control"@,
            Json::Bool(input_control),
        ),
    )
}

/// Reports what asking for permission came to.
pub fn request_permissions(platform: &str, screen_capture: bool, input_control: bool) -> (r: Value)
    ensures
        json::json_of(r) == permissions_json(platform@, screen_capture, input_control),
{
    let mut payload = json::object();
    json::insert(&mut payload, "ok", json::boolean(true));
    json::insert(&mut payload, "platform", json::string(platform));
    json::insert(&mut payload, "screen_capture", json::boolean(screen_capture));
    json::insert(&mut payload, "input_control", json::boolean(input_control));
    payload
}

/// What is under a point.
#[derive(Debug)]
pub struct Inspected {
    pub role: Option<String>,
    pub title: Option<String>,
    pub description: Option<String>,
    pub value: Option<String>,
}

/// A text, or null where there is none.
pub open spec fn text_or_null(text: Option<String>) -> Json {
    match text {
        Some(text) => Json::Text(text@),
        None => Json::Null,
    }
}

fn text_value(text: &Option<String>) -> (r: Value)
    ensures
        json::json_of(r) == text_or_null(*text),
{
    match text {
        Some(text) => json::string(text.as_str()),
        None => json::null(),
    }
}

/// The members of a report of what is under a point.
pub open spec fn inspect_json(found: Option<Inspected>) -> Json {
    let plain = Map::<Seq<char>, Json>::empty().insert("ok"@, Json::Bool(true)).insert(
        "found"@,
        Json::Bool(found is Some),
    );
    Json::Object(
        match found {
            Some(seen) => plain.insert("role"@, text_or_null(seen.role)).insert(
                "title"@,
                text_or_null(seen.title),
            ).insert("description"@, text_or_null(seen.description)).insert(
                "value"@,
                text_or_null(seen.value),
            ),
            None => plain,
        },
    )
}

/// Reports what is under a point.
pub fn inspect_at(found: &Option<Inspected>) -> (r: Value)
    ensures
        json::json_of(r) == inspect_json(*found),
{
    let mut payload = json::object();
    json::insert(&mut payload, "ok", json::boolean(true));
    json::insert(&mut payload, "found", json::boolean(found.is_some()));
    if let Some(seen) = found {
        json::insert(&mut payload, "role", text_value(&seen.role));
        json::insert(&mut payload, "title", text_value(&seen.title));
        json::insert(&mut payload, "description", text_value(&seen.description));
        json::insert(&mut payload, "value", text_value(&seen.value));
    }
    payload
}

/// The refusal where the system has nothing to ask what is under a point.
pub fn inspect_unsupported() -> (r: Failure)
    ensures
        r@ == wire::coded("element inspection is only supported on macOS"@),
{
    Failure::coded("element inspection is only supported on macOS")
}

/// The text a request gives to be typed or pasted.
pub fn text_to_send(req: &Value) -> (r: Result<String, Failure>)
    ensures
        (match r {
            Ok(text) => Ok(text@),
            Err(failure) => Err(failure@),
        }) == (match json::field_text(json::json_of(*req), "text"@) {
            Some(text) => Ok(text),
            None => Err(wire::coded("missing text"@)),
        }),
{
    match json::text_at(req, "text") {
        Some(text) => Ok(text.to_owned()),
        None => Err(Failure::coded("missing text")),
    }
}

proof fn member_names_differ()
    ensures
        "type"@.len() == 4 && "type"@[0] == 't',
        "action"@.len() == 6 && "action"@[0] == 'a',
        "ok"@.len() == 2,
        "protocol_version"@.len() == 16,
        "error"@.len() == 5 && "error"@[0] == 'e',
        "compux_version"@.len() == 14 && "compux_version"@[0] == 'c',
        "actions"@.len() == 7,
        "capabilities"@.len() == 12 && "capabilities"@[0] == 'c',
        "platform"@.len() == 8 && "platform"@[0] == 'p',
        "display_server"@.len() == 14 && "display_server"@[0] == 'd',
        "screen_capture"@.len() == 14 && "screen_capture"@[0] == 's',
        "input_control"@.len() == 13 && "input_control"@[6] == 'c',
        "found"@.len() == 5 && "found"@[0] == 'f',
        "role"@.len() == 4 && "role"@[0] == 'r',
        "title"@.len() == 5 && "title"@[0] == 't',
        "description"@.len() == 11,
        "value"@.len() == 5 && "value"@[0] == 'v',
        "max"@.len() == 3,
        "ttl_ms"@.len() == 6 && "ttl_ms"@[0] == 't',
        "input_methods"@.len() == 13 && "input_methods"@[6] == 'm',
        "controls"@.len() == 8 && "controls"@[0] == 'c',
        "observations"@.len() == 12 && "observations"@[0] == 'o',
{
    reveal_strlit("type");
    reveal_strlit("action");
    reveal_strlit("ok");
    reveal_strlit("protocol_version");
    reveal_strlit("error");
    reveal_strlit("compux_version");
    reveal_strlit("actions");
    reveal_strlit("capabilities");
    reveal_strlit("platform");
    reveal_strlit("display_server");
    reveal_strlit("screen_capture");
    reveal_strlit("input_control");
    reveal_strlit("found");
    reveal_strlit("role");
    reveal_strlit("title");
    reveal_strlit("description");
    reveal_strlit("value");
    reveal_strlit("max");
    reveal_strlit("ttl_ms");
    reveal_strlit("input_methods");
    reveal_strlit("controls");
    reveal_strlit("observations");
}

/// Each action is asked for by its own name, and no two by one.
pub proof fn an_action_is_asked_for_by_its_name(a: Verb, b: Verb)
    ensures
        verb_name(Verb::Hello) == "hello"@,
        verb_name(Verb::Probe) == "probe"@,
        verb_name(Verb::IdleMs) == "idle_ms"@,
        verb_name(Verb::WaitForIdle) == "wait_for_idle"@,
        verb_name(Verb::RequestPermissions) == "request_permissions"@,
        verb_name(Verb::ObserveStart) == "observe_start"@,
        verb_name(Verb::ObserveStop) == "observe_stop"@,
        verb_name(Verb::Screenshot) == "screenshot"@,
        verb_name(Verb::MouseMove) == "mouse_move"@,
        verb_name(Verb::LeftClick) == "left_click"@,
        verb_name(Verb::RightClick) == "right_click"@,
        verb_name(Verb::DoubleClick) == "double_click"@,
        verb_name(Verb::LeftClickDrag) == "left_click_drag"@,
        verb_name(Verb::Scroll) == "scroll"@,
        verb_name(Verb::Type) == "type"@,
        verb_name(Verb::Key) == "key"@,
        verb_name(Verb::Wait) == "wait"@,
        verb_name(Verb::Inspect) == "inspect"@,
        verb_name(Verb::WaitForChange) == "wait_for_change"@,
        verb_name(Verb::Paste) == "paste"@,
        verb_name(Verb::Elements) == "elements"@,
        verb_name(Verb::Windows) == "windows"@,
        verb_name(Verb::Press) == "press"@,
        verb_name(Verb::SetValue) == "set_value"@,
        verb_name(a) == verb_name(b) ==> a == b,
{
    reveal_strlit("hello");
    reveal_strlit("probe");
    reveal_strlit("idle_ms");
    reveal_strlit("wait_for_idle");
    reveal_strlit("request_permissions");
    reveal_strlit("observe_start");
    reveal_strlit("observe_stop");
    reveal_strlit("screenshot");
    reveal_strlit("mouse_move");
    reveal_strlit("left_click");
    reveal_strlit("right_click");
    reveal_strlit("double_click");
    reveal_strlit("left_click_drag");
    reveal_strlit("scroll");
    reveal_strlit("type");
    reveal_strlit("key");
    reveal_strlit("wait");
    reveal_strlit("inspect");
    reveal_strlit("wait_for_change");
    reveal_strlit("paste");
    reveal_strlit("elements");
    reveal_strlit("windows");
    reveal_strlit("press");
    reveal_strlit("set_value");
    assert("hello"@.len() == 5 && "hello"@[0] == 'h');
    assert("probe"@.len() == 5 && "probe"@[0] == 'p' && "probe"@[1] == 'r' && "probe"@[2] == 'o');
    assert("idle_ms"@.len() == 7 && "idle_ms"@[0] == 'i' && "idle_ms"@[1] == 'd');
    assert("wait_for_idle"@.len() == 13 && "wait_for_idle"@[0] == 'w');
    assert("request_permissions"@.len() == 19);
    assert("observe_start"@.len() == 13 && "observe_start"@[0] == 'o');
    assert("observe_stop"@.len() == 12 && "observe_stop"@[0] == 'o');
    assert("screenshot"@.len() == 10 && "screenshot"@[0] == 's');
    assert("mouse_move"@.len() == 10 && "mouse_move"@[0] == 'm');
    assert("left_click"@.len() == 10 && "left_click"@[0] == 'l');
    assert("right_click"@.len() == 11);
    assert("double_click"@.len() == 12 && "double_click"@[0] == 'd');
    assert("left_click_drag"@.len() == 15 && "left_click_drag"@[0] == 'l');
    assert("scroll"@.len() == 6);
    assert("type"@.len() == 4 && "type"@[0] == 't');
    assert("key"@.len() == 3);
    assert("wait"@.len() == 4 && "wait"@[0] == 'w');
    assert("inspect"@.len() == 7 && "inspect"@[0] == 'i' && "inspect"@[1] == 'n');
    assert("wait_for_change"@.len() == 15 && "wait_for_change"@[0] == 'w');
    assert("paste"@.len() == 5 && "paste"@[0] == 'p' && "paste"@[1] == 'a');
    assert("elements"@.len() == 8);
    assert("windows"@.len() == 7 && "windows"@[0] == 'w');
    assert("press"@.len() == 5 && "press"@[0] == 'p' && "press"@[1] == 'r' && "press"@[2] == 'e');
    assert("set_value"@.len() == 9);
}

/// An effect is what the action saw itself; where it looked at nothing itself, a picture is
/// for the caller to judge by, and without one nothing is known.
pub proof fn an_effect_is_what_was_seen(done: Dispatched)
    ensures
        done.effect matches Some(effect) ==> effect_of(done) == effect,
        done.effect is None && done.check is Some && done.check->0.kind == Check::Image
            ==> effect_of(done) == Effect::NotObserved,
        done.effect is None && !(done.check is Some && done.check->0.kind == Check::Image)
            ==> effect_of(done) == Effect::Unknown,
{
}

/// An action earns a receipt exactly where it is not read-only, and the receipt says what
/// was done, how long it took, and which images it lies between.
pub proof fn a_receipt_says_what_was_done(
    action: Seq<char>,
    observation_id: Option<Seq<char>>,
    done: Dispatched,
    after: Option<Seq<char>>,
    receipt: Option<Receipt>,
)
    requires
        earned(action, observation_id, done, after, receipt),
    ensures
        receipt is Some <==> !wire::read_only_action(action),
        receipt matches Some(told) ==> {
            &&& told.dispatch == Dispatch::Partial <==> done.posted && !done.input_complete
            &&& told.effect == effect_of(done)
            &&& told.timings == done.timings
            &&& told.input_method == done.input_method
            &&& told.check == done.check
            &&& told.foreground_changed == done.foreground_changed
            &&& text::text_of(told.observation_id_before) == observation_id
            &&& text::text_of(told.observation_id_after) == after
        },
{
}

/// An action that did nothing sent nothing, took no time and saw nothing.
pub proof fn nothing_done_is_nothing(
    action: Seq<char>,
    observation_id: Option<Seq<char>>,
    receipt: Receipt,
)
    requires
        earned(action, observation_id, nothing_done(), None, Some(receipt)),
    ensures
        receipt.dispatch == Dispatch::NotSent,
        receipt.effect == Effect::Unknown,
        receipt.check is None,
        receipt.foreground_changed is None,
        receipt.timings.input_ms == 0 && receipt.timings.settle_ms == 0,
        receipt.timings.capture_ms == 0 && receipt.timings.encode_ms == 0,
{
}

/// A failure is reported as it is, and a cancelled action as cancelled, with what it failed
/// of beside it where that is something else.
pub proof fn a_cancelled_action_says_so(done: Dispatched, failure: FailureView)
    ensures
        !done.cancelled ==> reported(done, failure) == failure,
        done.cancelled ==> reported(done, failure).code == "cancelled"@,
        done.cancelled && failure.code != "cancelled"@ ==> reported(done, failure).detail == Some(
            failure.code,
        ),
        done.cancelled && failure.code == "cancelled"@ ==> reported(done, failure).detail is None,
{
}

/// The reply to an action answers its request: by its id, with success exactly where the
/// action came back with a payload, and with the code it failed by otherwise.
pub proof fn a_reply_answers_its_request(
    envelope: Envelope,
    request_id: Seq<char>,
    action: Seq<char>,
    observation_id: Option<Seq<char>>,
    outcome: Result<Json, FailureView>,
    done: Dispatched,
    frame: Json,
)
    requires
        replies(envelope, request_id, action, observation_id, outcome, done, frame),
        !wire::ack_action(action),
    ensures
        json::field_text(frame, "type"@) == Some("response"@),
        json::field_text(frame, "request_id"@) == Some(request_id),
        json::field_bool(frame, "ok"@) == Some(outcome is Ok),
        outcome matches Err(failure) ==> json::field_text(frame, "error"@) == Some(
            if done.cancelled {
                "cancelled"@
            } else {
                failure.code
            },
        ),
        json::field_text(frame, "sidecar_generation"@) == Some(envelope.sidecar_generation@),
        json::field_u64(frame, "session_generation"@) == Some(envelope.session_generation),
{
    match outcome {
        Ok(payload) => {
            let after = json::field_text(payload, "observation_id"@);
            let receipt = choose|receipt: Option<Receipt>|
                {
                    &&& #[trigger] earned(action, observation_id, done, after, receipt)
                    &&& frame == Json::Object(
                        wire::response_members(envelope, request_id, payload, receipt),
                    )
                };
            wire::a_response_reads_back(envelope, request_id, payload, receipt);
        },
        Err(failure) => {
            let told = reported(done, failure);
            let receipt = choose|receipt: Option<Receipt>|
                {
                    &&& #[trigger] earned(action, observation_id, done, None, receipt)
                    &&& frame == Json::Object(
                        wire::error_members(
                            envelope,
                            request_id,
                            told.code,
                            told.detail,
                            receipt,
                        ),
                    )
                };
            wire::a_failure_reads_back(envelope, request_id, told.code, told.detail, receipt);
        },
    }
}

/// The evidence that is asked for is the one that is named, and none where none of the two
/// is.
pub proof fn a_check_is_asked_for_by_name(req: Json)
    ensures
        check_asked(req) == Check::Image <==> json::field_text(req, "check"@) == Some("image"@),
        check_asked(req) == Check::Semantic <==> json::field_text(req, "check"@) == Some(
            "semantic"@,
        ),
{
    reveal_strlit("image");
    reveal_strlit("semantic");
    assert("image"@.len() == 5);
    assert("semantic"@.len() == 8);
}

/// An acknowledgement says what it acknowledges, whether it was done, and if not why.
pub proof fn an_acknowledgement_reads_back(action: Seq<char>, ok: bool, error: Option<Seq<char>>)
    ensures
        json::field_text(ack_json(action, ok, error), "type"@) == Some("ack"@),
        json::field_text(ack_json(action, ok, error), "action"@) == Some(action),
        json::field_bool(ack_json(action, ok, error), "ok"@) == Some(ok),
        json::field_u64(ack_json(action, ok, error), "protocol_version"@) == Some(10u64),
        json::field_text(ack_json(action, ok, error), "error"@) == error,
{
    member_names_differ();
}

/// A greeting says the protocol, the version, every action that is offered, and how many
/// images are kept for how long.
pub proof fn a_greeting_reads_back(version: Seq<char>)
    ensures
        json::field_bool(hello_json(version), "ok"@) == Some(true),
        json::field_u64(hello_json(version), "protocol_version"@) == Some(10u64),
        json::field_text(hello_json(version), "compux_version"@) == Some(version),
        json::field(hello_json(version), "actions"@) matches Some(Json::List(actions))
            && actions.len() == offered().len() && (forall|i: int|
            0 <= i < actions.len() ==> #[trigger] actions[i] == Json::Text(offered()[i])),
        json::field(hello_json(version), "capabilities"@) matches Some(capabilities)
            && json::field(capabilities, "observations"@) matches Some(bounds) && json::field_u64(
            bounds,
            "max"@,
        ) == Some(3u64) && json::field_u64(bounds, "ttl_ms"@) == Some(30_000u64),
{
    member_names_differ();
}

/// A probe and an answer to asking for permission say what they were given.
pub proof fn permissions_read_back(
    platform: Seq<char>,
    display_server: Seq<char>,
    screen_capture: bool,
    input_control: bool,
)
    ensures
        ({
            let probed = probe_json(platform, display_server, screen_capture, input_control);
            let answered = permissions_json(platform, screen_capture, input_control);
            &&& json::field_bool(probed, "ok"@) == Some(true)
            &&& json::field_text(probed, "platform"@) == Some(platform)
            &&& json::field_text(probed, "display_server"@) == Some(display_server)
            &&& json::field_bool(probed, "screen_capture"@) == Some(screen_capture)
            &&& json::field_bool(probed, "input_control"@) == Some(input_control)
            &&& json::field_bool(answered, "ok"@) == Some(true)
            &&& json::field_text(answered, "platform"@) == Some(platform)
            &&& json::field_bool(answered, "screen_capture"@) == Some(screen_capture)
            &&& json::field_bool(answered, "input_control"@) == Some(input_control)
        }),
{
    member_names_differ();
}

/// A report of what is under a point says whether anything is, and what it says of itself.
pub proof fn what_is_under_a_point_reads_back(found: Option<Inspected>)
    ensures
        json::field_bool(inspect_json(found), "ok"@) == Some(true),
        json::field_bool(inspect_json(found), "found"@) == Some(found is Some),
        found matches Some(seen) ==> {
            &&& json::field_text(inspect_json(found), "role"@) == text::text_of(seen.role)
            &&& json::field_text(inspect_json(found), "title"@) == text::text_of(seen.title)
            &&& json::field_text(inspect_json(found), "description"@) == text::text_of(
                seen.description,
            )
            &&& json::field_text(inspect_json(found), "value"@) == text::text_of(seen.value)
        },
{
    member_names_differ();
}

/// A greeting names the two ways input is sent and the three controls.
pub proof fn a_greeting_names_what_it_can(version: Seq<char>)
    ensures
        json::field(hello_json(version), "capabilities"@) matches Some(capabilities) && {
            &&& json::field(capabilities, "input_methods"@) matches Some(Json::List(methods))
                && methods.len() == 2 && methods[0] == Json::Text("foreground_hid"@) && methods[1]
                == Json::Text("ax"@)
            &&& json::field(capabilities, "controls"@) matches Some(Json::List(controls))
                && controls.len() == 3 && controls[0] == Json::Text("pause"@) && controls[1]
                == Json::Text("resume"@) && controls[2] == Json::Text("release"@)
        },
{
    member_names_differ();
}

} // verus!
