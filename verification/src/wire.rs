//! The frames of the action wire, as types. Nothing here reads or writes a pipe.
//!
//! Every line is one JSON object carrying a `type`. A request carries a
//! `request_id` its response echoes and, after the handshake, the generations it
//! belongs to, so a late frame can never be taken for the answer to another
//! question. `observe_start` and `observe_stop` answer with an `ack`, everything
//! else with a `response`.
//!
//! A line with no type is refused, never served. When it names an action the
//! refusal goes out as an `ack`, the one family such a client can read.

use serde_json::Value;
use vstd::prelude::*;

use crate::json;
use crate::json::Json;
use crate::text;

verus! {

/// One request line the sidecar will read.
pub const MAX_REQUEST_BYTES: usize = 65_536;

const MAX_REQUEST_ID_BYTES: usize = 64;

/// The actions a client may send with no handshake behind it. They carry no
/// generations and no sequence number, and they dispatch no input.
pub const UNGATED_ACTIONS: [&'static str; 3] = ["hello", "observe_start", "observe_stop"];

/// Actions that dispatch synthetic input. Not the complement of the read-only
/// ones: `mouse_move` changes nothing a caller can read back, yet it moves the
/// person's pointer, so a pause must stop it.
pub open spec fn input_action(action: Seq<char>) -> bool {
    ||| action == "mouse_move"@
    ||| action == "left_click"@
    ||| action == "right_click"@
    ||| action == "double_click"@
    ||| action == "left_click_drag"@
    ||| action == "scroll"@
    ||| action == "type"@
    ||| action == "key"@
    ||| action == "paste"@
    ||| action == "press"@
    ||| action == "set_value"@
}

/// Actions that carry no sequence number and earn no receipt.
pub open spec fn read_only_action(action: Seq<char>) -> bool {
    ||| action == "screenshot"@
    ||| action == "mouse_move"@
    ||| action == "wait"@
    ||| action == "inspect"@
    ||| action == "wait_for_change"@
    ||| action == "elements"@
    ||| action == "windows"@
    ||| action == "probe"@
    ||| action == "idle_ms"@
    ||| action == "wait_for_idle"@
    ||| action == "hello"@
}

/// Actions that may be sent before any handshake.
pub open spec fn ungated_action(action: Seq<char>) -> bool {
    ||| action == "hello"@
    ||| action == "observe_start"@
    ||| action == "observe_stop"@
}

/// Actions whose reply is an `ack` rather than a `response`.
pub open spec fn ack_action(action: Seq<char>) -> bool {
    action == "observe_start"@ || action == "observe_stop"@
}

/// Does a pause have to stop this action?
pub fn touches_input(action: &str) -> (r: bool)
    ensures
        r == input_action(action@),
{
    text::same(action, "mouse_move") || text::same(action, "left_click") || text::same(
        action,
        "right_click",
    ) || text::same(action, "double_click") || text::same(action, "left_click_drag") || text::same(
        action,
        "scroll",
    ) || text::same(action, "type") || text::same(action, "key") || text::same(action, "paste")
        || text::same(action, "press") || text::same(action, "set_value")
}

/// Does this action carry a `mutation_seq` and earn a receipt?
pub fn carries_mutation_seq(action: &str) -> (r: bool)
    ensures
        r == !read_only_action(action@),
{
    !(text::same(action, "screenshot") || text::same(action, "mouse_move") || text::same(
        action,
        "wait",
    ) || text::same(action, "inspect") || text::same(action, "wait_for_change") || text::same(
        action,
        "elements",
    ) || text::same(action, "windows") || text::same(action, "probe") || text::same(
        action,
        "idle_ms",
    ) || text::same(action, "wait_for_idle") || text::same(action, "hello"))
}

/// Does this action answer with the `ack` family rather than a `response`?
pub fn answers_with_ack(action: &str) -> (r: bool)
    ensures
        r == ack_action(action@),
{
    text::same(action, "observe_start") || text::same(action, "observe_stop")
}

/// The generations every frame this process writes is stamped with. One per boot.
#[derive(Clone, Debug)]
pub struct Envelope {
    pub sidecar_generation: String,
    pub session_generation: u64,
}

/// The members of a frame with the generations of its envelope on it.
pub open spec fn stamped(
    members: Map<Seq<char>, Json>,
    envelope: Envelope,
) -> Map<Seq<char>, Json> {
    members.insert("sidecar_generation"@, Json::Text(envelope.sidecar_generation@)).insert(
        "session_generation"@,
        Json::Unsigned(envelope.session_generation),
    )
}

impl Envelope {
    fn stamp(&self, frame: &mut Value)
        requires
            json::json_of(*old(frame)) is Object,
        ensures
            json::json_of(*final(frame)) == Json::Object(
                stamped(json::json_of(*old(frame))->Object_0, *self),
            ),
    {
        json::insert(frame, "sidecar_generation", json::string(self.sidecar_generation.as_str()));
        json::insert(frame, "session_generation", json::unsigned(self.session_generation));
    }
}

/// A control verb.
#[derive(Clone, Copy, Debug, PartialEq, Eq, Structural)]
pub enum ControlAction {
    Pause,
    Resume,
    Release,
}

/// The name a control verb has on the wire.
pub open spec fn control_name(action: ControlAction) -> Seq<char> {
    match action {
        ControlAction::Pause => "pause"@,
        ControlAction::Resume => "resume"@,
        ControlAction::Release => "release"@,
    }
}

/// The control verb a name stands for.
pub open spec fn control_named(name: Seq<char>) -> Option<ControlAction> {
    if name == "pause"@ {
        Some(ControlAction::Pause)
    } else if name == "resume"@ {
        Some(ControlAction::Resume)
    } else if name == "release"@ {
        Some(ControlAction::Release)
    } else {
        None
    }
}

impl ControlAction {
    pub fn as_str(self) -> (r: &'static str)
        ensures
            r@ == control_name(self),
    {
        match self {
            ControlAction::Pause => "pause",
            ControlAction::Resume => "resume",
            ControlAction::Release => "release",
        }
    }

    /// The control verb a name stands for: the verb that writes that name, and nothing
    /// for any other name.
    pub fn parse(name: &str) -> (r: Option<ControlAction>)
        ensures
            r == control_named(name@),
            r matches Some(action) ==> name@ == control_name(action),
            r is None ==> forall|action: ControlAction| name@ != #[trigger] control_name(action),
    {
        if text::same(name, "pause") {
            Some(ControlAction::Pause)
        } else if text::same(name, "resume") {
            Some(ControlAction::Resume)
        } else if text::same(name, "release") {
            Some(ControlAction::Release)
        } else {
            None
        }
    }
}

/// An action request. `body` is the whole object, so every action reads its own
/// arguments out of it; the envelope fields sit beside them.
#[derive(Clone, Debug)]
pub struct Request {
    pub request_id: String,
    pub action: String,
    pub body: Value,
    pub sidecar_generation: Option<String>,
    pub session_generation: Option<u64>,
    pub authorization_generation: Option<u64>,
    pub mutation_seq: Option<u64>,
}

/// What a request says.
#[verifier::ext_equal]
pub struct RequestView {
    pub request_id: Seq<char>,
    pub action: Seq<char>,
    pub body: Json,
    pub sidecar_generation: Option<Seq<char>>,
    pub session_generation: Option<u64>,
    pub authorization_generation: Option<u64>,
    pub mutation_seq: Option<u64>,
}

impl View for Request {
    type V = RequestView;

    open spec fn view(&self) -> RequestView {
        RequestView {
            request_id: self.request_id@,
            action: self.action@,
            body: json::json_of(self.body),
            sidecar_generation: text::text_of(self.sidecar_generation),
            session_generation: self.session_generation,
            authorization_generation: self.authorization_generation,
            mutation_seq: self.mutation_seq,
        }
    }
}

/// A control.
#[derive(Clone, Debug)]
pub struct Control {
    pub request_id: String,
    pub action: ControlAction,
    pub authorization_generation: Option<u64>,
}

/// What one inbound line turned out to be.
#[derive(Clone, Debug)]
pub enum Inbound {
    Request(Request),
    Control(Control),
}

/// What an inbound frame says.
pub enum InboundView {
    Request(RequestView),
    Control {
        request_id: Seq<char>,
        action: ControlAction,
        authorization_generation: Option<u64>,
    },
}

impl View for Inbound {
    type V = InboundView;

    open spec fn view(&self) -> InboundView {
        match self {
            Inbound::Request(request) => InboundView::Request(request@),
            Inbound::Control(control) => InboundView::Control {
                request_id: control.request_id@,
                action: control.action,
                authorization_generation: control.authorization_generation,
            },
        }
    }
}

/// How a refused line may be answered. A reply is only ever written against
/// something the caller sent: an id it minted, or an action it named.
#[derive(Clone, Debug, PartialEq, Eq)]
pub enum Reply {
    /// Answer a `response` frame naming this request id.
    Response(String),
    /// Answer an `ack` frame naming this action.
    CaptureAck(String),
    /// Nothing correlatable. Stderr is the whole report.
    Silence,
}

/// What a reply names.
pub enum ReplyView {
    Response(Seq<char>),
    CaptureAck(Seq<char>),
    Silence,
}

impl View for Reply {
    type V = ReplyView;

    open spec fn view(&self) -> ReplyView {
        match self {
            Reply::Response(id) => ReplyView::Response(id@),
            Reply::CaptureAck(action) => ReplyView::CaptureAck(action@),
            Reply::Silence => ReplyView::Silence,
        }
    }
}

/// A line that could not be turned into a frame.
#[derive(Clone, Debug, PartialEq, Eq)]
pub struct ParseFailure {
    pub error: &'static str,
    pub detail: String,
    pub reply: Reply,
    /// The action, when the line named one, so a refused mutation still earns the
    /// receipt that says no input was sent.
    pub action: Option<String>,
}

/// What a parse failure says.
pub struct ParseFailureView {
    pub error: Seq<char>,
    pub detail: Seq<char>,
    pub reply: ReplyView,
    pub action: Option<Seq<char>>,
}

impl View for ParseFailure {
    type V = ParseFailureView;

    open spec fn view(&self) -> ParseFailureView {
        ParseFailureView {
            error: self.error@,
            detail: self.detail@,
            reply: self.reply@,
            action: text::text_of(self.action),
        }
    }
}

/// A failure that answers nobody.
pub open spec fn silent_failure(error: Seq<char>, detail: Seq<char>) -> ParseFailureView {
    ParseFailureView { error, detail, reply: ReplyView::Silence, action: None }
}

impl ParseFailure {
    fn silent(error: &'static str, detail: String) -> (r: ParseFailure)
        ensures
            r@ == silent_failure(error@, detail@),
    {
        ParseFailure { error, detail, reply: Reply::Silence, action: None }
    }
}

/// A parse, with what it says in place of what it holds.
pub open spec fn outcome(r: Result<Inbound, ParseFailure>) -> Result<
    InboundView,
    ParseFailureView,
> {
    match r {
        Ok(inbound) => Ok(inbound@),
        Err(failure) => Err(failure@),
    }
}

/// An id a reply can be correlated by: 1 to 64 printable ASCII characters.
pub open spec fn correlatable(id: Seq<char>) -> bool {
    &&& 1 <= id.len() <= 64
    &&& forall|i: int| 0 <= i < id.len() ==> ' ' <= #[trigger] id[i] <= '~'
}

/// The id of a frame, where it has one that can be correlated.
pub open spec fn frame_id(frame: Json) -> Option<Seq<char>> {
    match json::field_text(frame, "request_id"@) {
        Some(id) => if correlatable(id) {
            Some(id)
        } else {
            None
        },
        None => None,
    }
}

/// The first field of a request that is reserved, if it carries one.
pub open spec fn reserved_field(frame: Json) -> Option<Seq<char>> {
    if json::field(frame, "observation_id"@) is Some {
        Some("observation_id"@)
    } else if json::field(frame, "target_id"@) is Some {
        Some("target_id"@)
    } else if json::field(frame, "element_ref"@) is Some {
        Some("element_ref"@)
    } else {
        None
    }
}

/// The failure of a frame whose id cannot be correlated.
pub open spec fn bad_id() -> ParseFailureView {
    silent_failure("malformed_frame"@, "request_id must be 1 to 64 printable ASCII bytes"@)
}

/// What a frame tagged `request` is.
pub open spec fn request_of(frame: Json) -> Result<InboundView, ParseFailureView> {
    match frame_id(frame) {
        None => Err(bad_id()),
        Some(id) => match json::field_text(frame, "action"@) {
            None => Err(
                ParseFailureView {
                    error: "malformed_frame"@,
                    detail: "a request needs a non-empty action"@,
                    reply: ReplyView::Response(id),
                    action: None,
                },
            ),
            Some(action) => match reserved_field(frame) {
                Some(name) => Err(
                    ParseFailureView {
                        error: "unknown_field"@,
                        detail: name + " is reserved for a later slice"@,
                        reply: ReplyView::Response(id),
                        action: Some(action),
                    },
                ),
                None => Ok(
                    InboundView::Request(
                        RequestView {
                            request_id: id,
                            action,
                            body: frame,
                            sidecar_generation: json::field_text(frame, "sidecar_generation"@),
                            session_generation: json::field_u64(frame, "session_generation"@),
                            authorization_generation: json::field_u64(
                                frame,
                                "authorization_generation"@,
                            ),
                            mutation_seq: json::field_u64(frame, "mutation_seq"@),
                        },
                    ),
                ),
            },
        },
    }
}

/// What a frame tagged `control` is.
pub open spec fn control_of(frame: Json) -> Result<InboundView, ParseFailureView> {
    let name = match json::field_text(frame, "action"@) {
        Some(name) => name,
        None => ""@,
    };
    match frame_id(frame) {
        None => Err(bad_id()),
        Some(id) => match control_named(name) {
            None => Err(
                ParseFailureView {
                    error: "malformed_frame"@,
                    detail: "unknown control action "@ + name,
                    reply: ReplyView::Response(id),
                    action: None,
                },
            ),
            Some(action) => Ok(
                InboundView::Control {
                    request_id: id,
                    action,
                    authorization_generation: json::field_u64(frame, "authorization_generation"@),
                },
            ),
        },
    }
}

/// The refusal of a frame with no type.
pub open spec fn untagged_failure(frame: Json) -> ParseFailureView {
    let detail = "protocol 7 needs a tagged frame; this line has no type"@;
    match json::field_text(frame, "action"@) {
        Some(action) => ParseFailureView {
            error: "untagged_frame"@,
            detail,
            reply: ReplyView::CaptureAck(action),
            action: Some(action),
        },
        None => silent_failure("untagged_frame"@, detail),
    }
}

/// What a JSON value is, as a frame.
pub open spec fn frame_of(frame: Json) -> Result<InboundView, ParseFailureView> {
    if !(frame is Object) {
        Err(silent_failure("malformed_frame"@, "a frame must be a JSON object"@))
    } else {
        match json::field_text(frame, "type"@) {
            None => Err(untagged_failure(frame)),
            Some(tag) => if tag == "request"@ {
                request_of(frame)
            } else if tag == "control"@ {
                control_of(frame)
            } else {
                Err(silent_failure("unknown_frame_type"@, "unknown frame type "@ + tag))
            },
        }
    }
}

/// What a line is. One over the cap is refused before it is read as JSON.
pub open spec fn line_of(line: Seq<char>) -> Result<InboundView, ParseFailureView> {
    let size = vstd::utf8::encode_utf8(line).len();
    if size > MAX_REQUEST_BYTES {
        Err(
            silent_failure(
                "request_too_large"@,
                text::decimal(size) + " bytes, the cap is "@ + text::decimal(
                    MAX_REQUEST_BYTES as nat,
                ),
            ),
        )
    } else {
        match json::json_text(line) {
            Err(sentence) => Err(
                silent_failure("malformed_frame"@, "invalid JSON: "@ + sentence),
            ),
            Ok(frame) => frame_of(frame),
        }
    }
}

/// Parses one line.
pub fn parse(line: &str) -> (r: Result<Inbound, ParseFailure>)
    ensures
        outcome(r) == line_of(line@),
{
    let size: usize = line.as_bytes().len();
    if size > MAX_REQUEST_BYTES {
        let mut detail = text::write_decimal(size as u64);
        detail.append(" bytes, the cap is ");
        detail.append(text::write_decimal(MAX_REQUEST_BYTES as u64).as_str());
        return Err(ParseFailure::silent("request_too_large", detail));
    }
    match json::from_text(line) {
        Err(sentence) => {
            let mut detail = "invalid JSON: ".to_owned();
            detail.append(sentence.as_str());
            Err(ParseFailure::silent("malformed_frame", detail))
        },
        Ok(value) => parse_frame(&value),
    }
}

/// Turns one JSON value into a frame.
pub fn parse_frame(value: &Value) -> (r: Result<Inbound, ParseFailure>)
    ensures
        outcome(r) == frame_of(json::json_of(*value)),
{
    if !value.is_object() {
        return Err(
            ParseFailure::silent("malformed_frame", "a frame must be a JSON object".to_owned()),
        );
    }
    match json::text_at(value, "type") {
        None => Err(untagged(value)),
        Some(tag) => if text::same(tag, "request") {
            parse_request(value)
        } else if text::same(tag, "control") {
            parse_control(value)
        } else {
            let mut detail = "unknown frame type ".to_owned();
            detail.append(tag);
            Err(ParseFailure::silent("unknown_frame_type", detail))
        },
    }
}

/// Refuses a line with no type. When it names an action the answer goes out in
/// the `ack` family, so its sender reads a refusal rather than waiting for one.
fn untagged(value: &Value) -> (r: ParseFailure)
    ensures
        r@ == untagged_failure(json::json_of(*value)),
{
    let detail = "protocol 7 needs a tagged frame; this line has no type".to_owned();
    match json::text_at(value, "action") {
        Some(action) => ParseFailure {
            error: "untagged_frame",
            detail,
            reply: Reply::CaptureAck(action.to_owned()),
            action: Some(action.to_owned()),
        },
        None => ParseFailure::silent("untagged_frame", detail),
    }
}

fn reserved(value: &Value) -> (r: Option<&'static str>)
    ensures
        text::slice_of(r) == reserved_field(json::json_of(*value)),
{
    if json::member(value, "observation_id").is_some() {
        Some("observation_id")
    } else if json::member(value, "target_id").is_some() {
        Some("target_id")
    } else if json::member(value, "element_ref").is_some() {
        Some("element_ref")
    } else {
        None
    }
}

fn parse_request(value: &Value) -> (r: Result<Inbound, ParseFailure>)
    ensures
        outcome(r) == request_of(json::json_of(*value)),
{
    let request_id = match request_id(value) {
        Ok(id) => id,
        Err(failure) => return Err(failure),
    };
    let action = match json::text_at(value, "action") {
        Some(action) => action.to_owned(),
        None => return Err(
            ParseFailure {
                error: "malformed_frame",
                detail: "a request needs a non-empty action".to_owned(),
                reply: Reply::Response(request_id),
                action: None,
            },
        ),
    };
    if let Some(field) = reserved(value) {
        let mut detail = field.to_owned();
        detail.append(" is reserved for a later slice");
        return Err(
            ParseFailure {
                error: "unknown_field",
                detail,
                reply: Reply::Response(request_id),
                action: Some(action),
            },
        );
    }
    Ok(
        Inbound::Request(
            Request {
                request_id,
                action,
                sidecar_generation: text::own_text(json::text_at(value, "sidecar_generation")),
                session_generation: json::u64_at(value, "session_generation"),
                authorization_generation: json::u64_at(value, "authorization_generation"),
                mutation_seq: json::u64_at(value, "mutation_seq"),
                body: value.clone(),
            },
        ),
    )
}

fn parse_control(value: &Value) -> (r: Result<Inbound, ParseFailure>)
    ensures
        outcome(r) == control_of(json::json_of(*value)),
{
    let request_id = match request_id(value) {
        Ok(id) => id,
        Err(failure) => return Err(failure),
    };
    let name = match json::text_at(value, "action") {
        Some(name) => name,
        None => "",
    };
    match ControlAction::parse(name) {
        None => {
            let mut detail = "unknown control action ".to_owned();
            detail.append(name);
            Err(
                ParseFailure {
                    error: "malformed_frame",
                    detail,
                    reply: Reply::Response(request_id),
                    action: None,
                },
            )
        },
        Some(action) => Ok(
            Inbound::Control(
                Control {
                    request_id,
                    action,
                    authorization_generation: json::u64_at(value, "authorization_generation"),
                },
            ),
        ),
    }
}

/// Whether an id is 1 to 64 printable ASCII bytes.
fn printable(id: &str) -> (r: bool)
    ensures
        r == correlatable(id@),
{
    if !id.is_ascii() {
        return false;
    }
    let bytes = id.as_bytes();
    proof {
        vstd::utf8::is_ascii_chars_encode_utf8(id@);
    }
    if bytes.len() == 0 || bytes.len() > MAX_REQUEST_ID_BYTES {
        return false;
    }
    let mut i: usize = 0;
    while i < bytes.len()
        invariant
            i <= bytes@.len(),
            bytes@.len() == id@.len(),
            1 <= id@.len() <= 64,
            forall|j: int| 0 <= j < id@.len() ==> id@[j] as u8 == #[trigger] bytes@[j],
            vstd::utf8::is_ascii_chars(id@),
            forall|j: int| 0 <= j < i ==> ' ' <= #[trigger] id@[j] <= '~',
        decreases bytes@.len() - i,
    {
        let b: u8 = bytes[i];
        proof {
            let c = id@[i as int];
            vstd::utf8::is_ascii_chars_nat_bound(id@);
            assert(c as nat <= 0x7f);
            assert(c as u8 == b);
            assert(c as int == b as int);
        }
        if b < 0x20 || b > 0x7e {
            return false;
        }
        i += 1;
    }
    true
}

/// The id of a frame. One outside the bound is not correlatable, so the failure
/// carries none.
fn request_id(value: &Value) -> (r: Result<String, ParseFailure>)
    ensures
        match frame_id(json::json_of(*value)) {
            Some(id) => r is Ok && r->Ok_0@ == id,
            None => r is Err && r->Err_0@ == bad_id(),
        },
{
    if let Some(id) = json::text_at(value, "request_id") {
        if printable(id) {
            return Ok(id.to_owned());
        }
    }
    Err(
        ParseFailure::silent(
            "malformed_frame",
            "request_id must be 1 to 64 printable ASCII bytes".to_owned(),
        ),
    )
}

/// Why an action did not do what it was asked: a code, and the sentence a person
/// needs beside it.
#[derive(Debug, PartialEq, Eq)]
pub struct Failure {
    pub code: String,
    pub detail: Option<String>,
}

/// What a failure says.
pub struct FailureView {
    pub code: Seq<char>,
    pub detail: Option<Seq<char>>,
}

impl View for Failure {
    type V = FailureView;

    open spec fn view(&self) -> FailureView {
        FailureView { code: self.code@, detail: text::text_of(self.detail) }
    }
}

/// A failure with a code and a sentence.
pub open spec fn failed(code: Seq<char>, detail: Seq<char>) -> FailureView {
    FailureView { code, detail: Some(detail) }
}

/// A failure with a code alone.
pub open spec fn coded(code: Seq<char>) -> FailureView {
    FailureView { code, detail: None }
}

impl Failure {
    pub fn new(code: &str, detail: String) -> (r: Failure)
        ensures
            r@ == failed(code@, detail@),
    {
        Failure { code: code.to_owned(), detail: Some(detail) }
    }

    pub fn coded(code: &str) -> (r: Failure)
        ensures
            r@ == coded(code@),
    {
        Failure { code: code.to_owned(), detail: None }
    }
}

/// Whether synthetic input reached the screen. Derived from what was let through,
/// never inferred from the action's name.
#[derive(Clone, Copy, Debug, PartialEq, Eq, Structural)]
pub enum Dispatch {
    NotSent,
    Sent,
    Partial,
}

/// The name a dispatch has on the wire.
pub open spec fn dispatch_name(dispatch: Dispatch) -> Seq<char> {
    match dispatch {
        Dispatch::NotSent => "not_sent"@,
        Dispatch::Sent => "sent"@,
        Dispatch::Partial => "partial"@,
    }
}

impl Dispatch {
    fn as_str(self) -> (r: &'static str)
        ensures
            r@ == dispatch_name(self),
    {
        match self {
            Dispatch::NotSent => "not_sent",
            Dispatch::Sent => "sent",
            Dispatch::Partial => "partial",
        }
    }
}

/// What is known about the effect. A changed picture is evidence for the caller
/// to assess and verifies nothing; only a read-back that matches is `Verified`.
#[derive(Clone, Copy, Debug, PartialEq, Eq, Structural)]
pub enum Effect {
    NotObserved,
    Unknown,
    Verified,
}

/// The name an effect has on the wire.
pub open spec fn effect_name(effect: Effect) -> Seq<char> {
    match effect {
        Effect::NotObserved => "not_observed"@,
        Effect::Unknown => "unknown"@,
        Effect::Verified => "verified"@,
    }
}

impl Effect {
    fn as_str(self) -> (r: &'static str)
        ensures
            r@ == effect_name(self),
    {
        match self {
            Effect::NotObserved => "not_observed",
            Effect::Unknown => "unknown",
            Effect::Verified => "verified",
        }
    }
}

/// Which method carried an action.
#[derive(Clone, Copy, Debug, PartialEq, Eq, Structural)]
pub enum InputMethod {
    ForegroundHid,
    Ax,
}

/// The name an input method has on the wire.
pub open spec fn method_name(method: InputMethod) -> Seq<char> {
    match method {
        InputMethod::ForegroundHid => "foreground_hid"@,
        InputMethod::Ax => "ax"@,
    }
}

impl InputMethod {
    fn as_str(self) -> (r: &'static str)
        ensures
            r@ == method_name(self),
    {
        match self {
            InputMethod::ForegroundHid => "foreground_hid",
            InputMethod::Ax => "ax",
        }
    }
}

/// The evidence an action is to bring back.
#[derive(Clone, Copy, Debug, PartialEq, Eq, Structural)]
pub enum Check {
    Image,
    Semantic,
    Nothing,
}

/// The name a check has on the wire.
pub open spec fn check_name(check: Check) -> Seq<char> {
    match check {
        Check::Image => "image"@,
        Check::Semantic => "semantic"@,
        Check::Nothing => "none"@,
    }
}

impl Check {
    fn as_str(self) -> (r: &'static str)
        ensures
            r@ == check_name(self),
    {
        match self {
            Check::Image => "image",
            Check::Semantic => "semantic",
            Check::Nothing => "none",
        }
    }
}

/// How a wait for a view to stop moving ended.
#[derive(Clone, Copy, Debug, PartialEq, Eq, Structural)]
pub enum Settle {
    Stable,
    Timeout,
}

/// The name a settle has on the wire.
pub open spec fn settle_name(settle: Settle) -> Seq<char> {
    match settle {
        Settle::Stable => "stable"@,
        Settle::Timeout => "timeout"@,
    }
}

impl Settle {
    fn as_str(self) -> (r: &'static str)
        ensures
            r@ == settle_name(self),
    {
        match self {
            Settle::Stable => "stable",
            Settle::Timeout => "timeout",
        }
    }
}

/// The evidence an action really came back with. `changed` is absent where there
/// was no picture to compare against.
#[derive(Clone, Copy, Debug, PartialEq, Eq, Structural)]
pub struct Checked {
    pub kind: Check,
    pub settle: Option<Settle>,
    pub changed: Option<bool>,
}

/// The members a check reports.
pub open spec fn checked_json(check: Checked) -> Json {
    let kind = Map::<Seq<char>, Json>::empty().insert("kind"@, Json::Text(check_name(check.kind)));
    let settled = match check.settle {
        Some(settle) => kind.insert("settle"@, Json::Text(settle_name(settle))),
        None => kind,
    };
    Json::Object(
        match check.changed {
            Some(changed) => settled.insert("changed"@, Json::Bool(changed)),
            None => settled,
        },
    )
}

impl Checked {
    fn to_value(self) -> (r: Value)
        ensures
            json::json_of(r) == checked_json(self),
    {
        let mut members = json::object();
        json::insert(&mut members, "kind", json::string(self.kind.as_str()));
        if let Some(settle) = self.settle {
            json::insert(&mut members, "settle", json::string(settle.as_str()));
        }
        if let Some(changed) = self.changed {
            json::insert(&mut members, "changed", json::boolean(changed));
        }
        members
    }
}

/// Measured, never estimated. A phase that did not run is 0.
#[derive(Clone, Copy, Debug, PartialEq, Eq, Structural)]
pub struct Timings {
    pub input_ms: u64,
    pub settle_ms: u64,
    pub capture_ms: u64,
    pub encode_ms: u64,
}

impl Default for Timings {
    fn default() -> (r: Timings)
        ensures
            r == (Timings { input_ms: 0, settle_ms: 0, capture_ms: 0, encode_ms: 0 }),
    {
        Timings { input_ms: 0, settle_ms: 0, capture_ms: 0, encode_ms: 0 }
    }
}

/// A part of an action that is timed.
#[derive(Clone, Copy, Debug, PartialEq, Eq, Structural)]
pub enum Phase {
    Input,
    Settle,
    Capture,
    Encode,
}

/// The longest a phase is reported to have taken: no honest action comes near an
/// hour, and a clock that jumped must not put an absurd number on the wire.
pub const MAX_TIMING_MS: u64 = 3_600_000;

/// A phase's time with more of it added, and never past the ceiling.
pub open spec fn lengthened(ms: u64, more: u64) -> u64 {
    if ms + more <= MAX_TIMING_MS {
        (ms + more) as u64
    } else {
        MAX_TIMING_MS
    }
}

fn lengthen(ms: u64, more: u64) -> (r: u64)
    ensures
        r == lengthened(ms, more),
{
    if more > MAX_TIMING_MS || ms > MAX_TIMING_MS - more {
        MAX_TIMING_MS
    } else {
        ms + more
    }
}

impl Timings {
    /// Adds to what a phase has taken.
    pub fn record(&mut self, phase: Phase, ms: u64)
        ensures
            *final(self) == (match phase {
                Phase::Input => Timings {
                    input_ms: lengthened(old(self).input_ms, ms),
                    ..*old(self)
                },
                Phase::Settle => Timings {
                    settle_ms: lengthened(old(self).settle_ms, ms),
                    ..*old(self)
                },
                Phase::Capture => Timings {
                    capture_ms: lengthened(old(self).capture_ms, ms),
                    ..*old(self)
                },
                Phase::Encode => Timings {
                    encode_ms: lengthened(old(self).encode_ms, ms),
                    ..*old(self)
                },
            }),
    {
        match phase {
            Phase::Input => {
                self.input_ms = lengthen(self.input_ms, ms);
            },
            Phase::Settle => {
                self.settle_ms = lengthen(self.settle_ms, ms);
            },
            Phase::Capture => {
                self.capture_ms = lengthen(self.capture_ms, ms);
            },
            Phase::Encode => {
                self.encode_ms = lengthen(self.encode_ms, ms);
            },
        }
    }
}

/// The members a receipt's timings report.
pub open spec fn timings_json(timings: Timings) -> Json {
    Json::Object(
        Map::<Seq<char>, Json>::empty().insert("input"@, Json::Unsigned(timings.input_ms)).insert(
            "settle"@,
            Json::Unsigned(timings.settle_ms),
        ).insert("capture"@, Json::Unsigned(timings.capture_ms)).insert(
            "encode"@,
            Json::Unsigned(timings.encode_ms),
        ),
    )
}

impl Timings {
    fn to_value(self) -> (r: Value)
        ensures
            json::json_of(r) == timings_json(self),
    {
        let mut members = json::object();
        json::insert(&mut members, "input", json::unsigned(self.input_ms));
        json::insert(&mut members, "settle", json::unsigned(self.settle_ms));
        json::insert(&mut members, "capture", json::unsigned(self.capture_ms));
        json::insert(&mut members, "encode", json::unsigned(self.encode_ms));
        members
    }
}

/// What an action did, as its reply reports it.
#[derive(Debug, PartialEq, Eq)]
pub struct Receipt {
    pub dispatch: Dispatch,
    pub effect: Effect,
    pub timings: Timings,
    pub input_method: InputMethod,
    pub check: Option<Checked>,
    pub foreground_changed: Option<bool>,
    pub observation_id_before: Option<String>,
    pub observation_id_after: Option<String>,
}

/// What was dispatched, of an action that posted or did not and ran to its own
/// end or did not.
pub open spec fn dispatched(posted: bool, completed: bool) -> Dispatch {
    if !posted {
        Dispatch::NotSent
    } else if completed {
        Dispatch::Sent
    } else {
        Dispatch::Partial
    }
}

/// A member that is there where its value is.
pub open spec fn with_text(
    members: Map<Seq<char>, Json>,
    key: Seq<char>,
    value: Option<String>,
) -> Map<Seq<char>, Json> {
    match value {
        Some(t) => members.insert(key, Json::Text(t@)),
        None => members,
    }
}

/// The members a receipt reports.
pub open spec fn receipt_json(receipt: Receipt) -> Json {
    let always = Map::<Seq<char>, Json>::empty().insert(
        "dispatch"@,
        Json::Text(dispatch_name(receipt.dispatch)),
    ).insert("effect"@, Json::Text(effect_name(receipt.effect))).insert(
        "input_method"@,
        Json::Text(method_name(receipt.input_method)),
    ).insert("timings_ms"@, timings_json(receipt.timings));
    let checked = match receipt.check {
        Some(check) => always.insert("check"@, checked_json(check)),
        None => always,
    };
    let noted = match receipt.foreground_changed {
        Some(changed) => checked.insert("foreground_changed"@, Json::Bool(changed)),
        None => checked,
    };
    Json::Object(
        with_text(
            with_text(noted, "observation_id_before"@, receipt.observation_id_before),
            "observation_id_after"@,
            receipt.observation_id_after,
        ),
    )
}

impl Receipt {
    /// The one derivation. `posted` is whether at least one input call was let
    /// through, `completed` whether the action ran to its own end. An after-image
    /// is evidence for the caller to assess; with none, nothing is known.
    pub fn derive(posted: bool, completed: bool, after_image: bool, timings: Timings) -> (r:
        Receipt)
        ensures
            r.dispatch == dispatched(posted, completed),
            r.effect == (if after_image {
                Effect::NotObserved
            } else {
                Effect::Unknown
            }),
            r.timings == timings,
            r.input_method == InputMethod::ForegroundHid,
            r.check is None,
            r.foreground_changed is None,
            r.observation_id_before is None,
            r.observation_id_after is None,
    {
        let dispatch = if !posted {
            Dispatch::NotSent
        } else if completed {
            Dispatch::Sent
        } else {
            Dispatch::Partial
        };
        Receipt {
            dispatch,
            effect: if after_image {
                Effect::NotObserved
            } else {
                Effect::Unknown
            },
            timings,
            input_method: InputMethod::ForegroundHid,
            check: None,
            foreground_changed: None,
            observation_id_before: None,
            observation_id_after: None,
        }
    }

    fn to_value(&self) -> (r: Value)
        ensures
            json::json_of(r) == receipt_json(*self),
    {
        let mut members = json::object();
        json::insert(&mut members, "dispatch", json::string(self.dispatch.as_str()));
        json::insert(&mut members, "effect", json::string(self.effect.as_str()));
        json::insert(&mut members, "input_method", json::string(self.input_method.as_str()));
        json::insert(&mut members, "timings_ms", self.timings.to_value());
        if let Some(check) = self.check {
            json::insert(&mut members, "check", check.to_value());
        }
        if let Some(changed) = self.foreground_changed {
            json::insert(&mut members, "foreground_changed", json::boolean(changed));
        }
        if let Some(id) = &self.observation_id_before {
            json::insert(&mut members, "observation_id_before", json::string(id.as_str()));
        }
        if let Some(id) = &self.observation_id_after {
            json::insert(&mut members, "observation_id_after", json::string(id.as_str()));
        }
        members
    }
}

/// The members of a payload that goes out in a frame: its own where it is an
/// object, else itself under `payload`.
pub open spec fn payload_members(payload: Json) -> Map<Seq<char>, Json> {
    match payload {
        Json::Object(members) => members,
        other => Map::<Seq<char>, Json>::empty().insert("payload"@, other),
    }
}

/// A frame with the receipt on it, where there is one.
pub open spec fn receipted(
    members: Map<Seq<char>, Json>,
    receipt: Option<Receipt>,
) -> Map<Seq<char>, Json> {
    match receipt {
        Some(receipt) => members.insert("receipt"@, receipt_json(receipt)),
        None => members,
    }
}

/// The members of a successful response.
pub open spec fn response_members(
    envelope: Envelope,
    request_id: Seq<char>,
    payload: Json,
    receipt: Option<Receipt>,
) -> Map<Seq<char>, Json> {
    receipted(
        stamped(
            payload_members(payload).insert("type"@, Json::Text("response"@)).insert(
                "request_id"@,
                Json::Text(request_id),
            ).insert("ok"@, Json::Bool(true)),
            envelope,
        ),
        receipt,
    )
}

/// A successful action response: the action's own payload wrapped in the envelope.
/// The protocol version belongs to `hello` alone and is not stamped here.
pub fn response(
    envelope: &Envelope,
    request_id: &str,
    payload: Value,
    receipt: Option<Receipt>,
) -> (r: Value)
    ensures
        json::json_of(r) == Json::Object(
            response_members(*envelope, request_id@, json::json_of(payload), receipt),
        ),
{
    let mut frame = if payload.is_object() {
        payload
    } else {
        let mut members = json::object();
        json::insert(&mut members, "payload", payload);
        members
    };
    json::insert(&mut frame, "type", json::string("response"));
    json::insert(&mut frame, "request_id", json::string(request_id));
    json::insert(&mut frame, "ok", json::boolean(true));
    envelope.stamp(&mut frame);
    if let Some(receipt) = receipt {
        json::insert(&mut frame, "receipt", receipt.to_value());
    }
    frame
}

/// The members of a failed response.
pub open spec fn error_members(
    envelope: Envelope,
    request_id: Seq<char>,
    error: Seq<char>,
    detail: Option<Seq<char>>,
    receipt: Option<Receipt>,
) -> Map<Seq<char>, Json> {
    let base = stamped(
        Map::<Seq<char>, Json>::empty().insert("type"@, Json::Text("response"@)).insert(
            "request_id"@,
            Json::Text(request_id),
        ).insert("ok"@, Json::Bool(false)).insert("error"@, Json::Text(error)),
        envelope,
    );
    let told = match detail {
        Some(d) => if d.len() == 0 {
            base
        } else {
            base.insert("detail"@, Json::Text(d))
        },
        None => base,
    };
    receipted(told, receipt)
}

/// A failed action response. `error` is the code; `detail` carries the sentence a
/// person needs beside it, and an empty one is left out.
pub fn error_response(
    envelope: &Envelope,
    request_id: &str,
    error: &str,
    detail: Option<String>,
    receipt: Option<Receipt>,
) -> (r: Value)
    ensures
        json::json_of(r) == Json::Object(
            error_members(*envelope, request_id@, error@, text::text_of(detail), receipt),
        ),
{
    let mut frame = json::object();
    json::insert(&mut frame, "type", json::string("response"));
    json::insert(&mut frame, "request_id", json::string(request_id));
    json::insert(&mut frame, "ok", json::boolean(false));
    json::insert(&mut frame, "error", json::string(error));
    envelope.stamp(&mut frame);
    if let Some(detail) = detail {
        if !detail.as_str().is_empty() {
            json::insert(&mut frame, "detail", json::string(detail.as_str()));
        }
    }
    if let Some(receipt) = receipt {
        json::insert(&mut frame, "receipt", receipt.to_value());
    }
    frame
}

/// The members of the answer to a control.
pub open spec fn control_ack_members(
    envelope: Envelope,
    request_id: Seq<char>,
    action: ControlAction,
    ok: bool,
    authorization_generation: u64,
    in_flight_request_id: Option<Seq<char>>,
) -> Map<Seq<char>, Json> {
    stamped(
        Map::<Seq<char>, Json>::empty().insert("type"@, Json::Text("control_ack"@)).insert(
            "request_id"@,
            Json::Text(request_id),
        ).insert("action"@, Json::Text(control_name(action))).insert("ok"@, Json::Bool(ok)).insert(
            "authorization_generation"@,
            Json::Unsigned(authorization_generation),
        ).insert(
            "in_flight_request_id"@,
            match in_flight_request_id {
                Some(id) => Json::Text(id),
                None => Json::Null,
            },
        ),
        envelope,
    )
}

/// The answer to a control. A pause installs at once, but a call already under way
/// still finishes, and `in_flight_request_id` names it.
pub fn control_ack(
    envelope: &Envelope,
    request_id: &str,
    action: ControlAction,
    ok: bool,
    authorization_generation: u64,
    in_flight_request_id: Option<String>,
) -> (r: Value)
    ensures
        json::json_of(r) == Json::Object(
            control_ack_members(
                *envelope,
                request_id@,
                action,
                ok,
                authorization_generation,
                text::text_of(in_flight_request_id),
            ),
        ),
{
    let mut frame = json::object();
    json::insert(&mut frame, "type", json::string("control_ack"));
    json::insert(&mut frame, "request_id", json::string(request_id));
    json::insert(&mut frame, "action", json::string(action.as_str()));
    json::insert(&mut frame, "ok", json::boolean(ok));
    json::insert(
        &mut frame,
        "authorization_generation",
        json::unsigned(authorization_generation),
    );
    let in_flight = match in_flight_request_id {
        Some(id) => json::string(id.as_str()),
        None => json::null(),
    };
    json::insert(&mut frame, "in_flight_request_id", in_flight);
    envelope.stamp(&mut frame);
    frame
}

/// A reply is only ever written against something the caller sent: a `response`
/// names a correlatable id the frame carried, an `ack` the action it named.
pub proof fn a_reply_is_never_guessed(frame: Json)
    ensures
        frame_of(frame) matches Err(failure) ==> match failure.reply {
            ReplyView::Response(id) => json::field_text(frame, "request_id"@) == Some(id)
                && correlatable(id),
            ReplyView::CaptureAck(action) => json::field_text(frame, "action"@) == Some(action),
            ReplyView::Silence => true,
        },
{
}

/// A frame that is understood carries the id its answer will echo, and a request
/// keeps the whole frame as its body.
pub proof fn a_frame_keeps_what_it_carried(frame: Json)
    ensures
        frame_of(frame) matches Ok(InboundView::Request(request)) ==> {
            &&& request.body == frame
            &&& json::field_text(frame, "request_id"@) == Some(request.request_id)
            &&& correlatable(request.request_id)
            &&& json::field_text(frame, "action"@) == Some(request.action)
        },
        frame_of(frame) matches Ok(InboundView::Control { request_id, action, .. }) ==> {
            &&& json::field_text(frame, "request_id"@) == Some(request_id)
            &&& correlatable(request_id)
            &&& json::field_text(frame, "action"@) == Some(control_name(action))
        },
{
    reveal_strlit("pause");
    reveal_strlit("resume");
    reveal_strlit("release");
    reveal_strlit("");
}

/// A request that carries a reserved field is never run without it: it is refused.
pub proof fn a_reserved_field_is_refused(frame: Json)
    requires
        reserved_field(frame) is Some,
        json::field_text(frame, "type"@) == Some("request"@),
    ensures
        frame_of(frame) is Err,
{
}

/// A line past the cap is refused whatever it says.
pub proof fn an_over_long_line_is_refused(line: Seq<char>)
    requires
        vstd::utf8::encode_utf8(line).len() > MAX_REQUEST_BYTES,
    ensures
        line_of(line) matches Err(failure) && failure.reply is Silence,
{
}

/// A name parses to the verb that writes it, and every verb's name parses back: exactly
/// the three names parse, each to its own verb.
pub proof fn control_names_round_trip(action: ControlAction, name: Seq<char>)
    ensures
        control_named(control_name(action)) == Some(action),
        control_named(name) == Some(action) <==> name == control_name(action),
        control_named(name) is None <==> name != "pause"@ && name != "resume"@ && name
            != "release"@,
{
    reveal_strlit("pause");
    reveal_strlit("resume");
    reveal_strlit("release");
    assert("pause"@.len() == 5 && "resume"@.len() == 6 && "release"@.len() == 7);
}

/// `mouse_move` is the one action that dispatches input and is still read-only on
/// the wire.
pub proof fn only_the_pointer_moves_unsequenced(action: Seq<char>)
    requires
        input_action(action),
        read_only_action(action),
    ensures
        action == "mouse_move"@,
{
    reveal_strlit("left_click");
    reveal_strlit("right_click");
    reveal_strlit("double_click");
    reveal_strlit("left_click_drag");
    reveal_strlit("scroll");
    reveal_strlit("type");
    reveal_strlit("key");
    reveal_strlit("paste");
    reveal_strlit("press");
    reveal_strlit("set_value");
    reveal_strlit("screenshot");
    reveal_strlit("wait");
    reveal_strlit("inspect");
    reveal_strlit("wait_for_change");
    reveal_strlit("elements");
    reveal_strlit("windows");
    reveal_strlit("probe");
    reveal_strlit("idle_ms");
    reveal_strlit("wait_for_idle");
    reveal_strlit("hello");
    assert(action.len() >= 3 ==> action[0] == action[0] && action[2] == action[2]);
    assert("left_click"@.len() == 10 && "screenshot"@.len() == 10);
    assert("left_click"@[0] == 'l' && "screenshot"@[0] == 's');
    assert("left_click_drag"@.len() == 15 && "left_click_drag"@[0] == 'l');
    assert("wait_for_change"@.len() == 15 && "wait_for_change"@[0] == 'w');
    assert("type"@.len() == 4 && "type"@[0] == 't');
    assert("wait"@.len() == 4 && "wait"@[0] == 'w');
    assert("paste"@.len() == 5 && "paste"@[2] == 's');
    assert("press"@.len() == 5 && "press"@[2] == 'e');
    assert("probe"@.len() == 5 && "probe"@[2] == 'o');
    assert("hello"@.len() == 5 && "hello"@[2] == 'l');
    assert("right_click"@.len() == 11 && "double_click"@.len() == 12);
    assert("scroll"@.len() == 6 && "key"@.len() == 3 && "set_value"@.len() == 9);
    assert("inspect"@.len() == 7 && "elements"@.len() == 8 && "windows"@.len() == 7);
    assert("idle_ms"@.len() == 7 && "wait_for_idle"@.len() == 13);
}

/// What a client may send with no handshake behind it dispatches no input.
pub proof fn an_ungated_action_is_no_input(action: Seq<char>)
    requires
        ungated_action(action),
    ensures
        !input_action(action),
{
    reveal_strlit("mouse_move");
    reveal_strlit("left_click");
    reveal_strlit("right_click");
    reveal_strlit("double_click");
    reveal_strlit("left_click_drag");
    reveal_strlit("scroll");
    reveal_strlit("type");
    reveal_strlit("key");
    reveal_strlit("paste");
    reveal_strlit("press");
    reveal_strlit("set_value");
    reveal_strlit("hello");
    reveal_strlit("observe_start");
    reveal_strlit("observe_stop");
    assert(action.len() == 5 || action.len() == 12 || action.len() == 13);
    assert("hello"@[0] == 'h' && "paste"@[0] == 'p' && "press"@[0] == 'p');
    assert("double_click"@[0] == 'd' && "observe_stop"@[0] == 'o');
    assert("mouse_move"@.len() == 10 && "left_click"@.len() == 10 && "right_click"@.len() == 11);
    assert("left_click_drag"@.len() == 15 && "scroll"@.len() == 6 && "type"@.len() == 4);
    assert("key"@.len() == 3 && "set_value"@.len() == 9);
}

/// The payload of a response goes out unchanged, but for the members the envelope
/// owns.
pub proof fn a_response_keeps_the_payload(
    envelope: Envelope,
    request_id: Seq<char>,
    payload: Map<Seq<char>, Json>,
    receipt: Option<Receipt>,
    key: Seq<char>,
)
    requires
        key != "type"@,
        key != "request_id"@,
        key != "ok"@,
        key != "sidecar_generation"@,
        key != "session_generation"@,
        receipt is Some ==> key != "receipt"@,
    ensures
        ({
            let frame = response_members(envelope, request_id, Json::Object(payload), receipt);
            &&& frame.contains_key(key) == payload.contains_key(key)
            &&& payload.contains_key(key) ==> frame[key] == payload[key]
        }),
{
}

proof fn member_names_differ()
    ensures
        "type"@.len() == 4 && "type"@[0] == 't',
        "request_id"@.len() == 10 && "request_id"@[0] == 'r',
        "ok"@.len() == 2,
        "sidecar_generation"@.len() == 18 && "sidecar_generation"@[0] == 's' && "sidecar_generation"@[1] == 'i',
        "session_generation"@.len() == 18 && "session_generation"@[0] == 's' && "session_generation"@[1] == 'e',
        "receipt"@.len() == 7 && "receipt"@[0] == 'r',
        "error"@.len() == 5 && "error"@[0] == 'e',
        "detail"@.len() == 6 && "detail"@[0] == 'd',
        "action"@.len() == 6 && "action"@[0] == 'a',
        "authorization_generation"@.len() == 24,
        "in_flight_request_id"@.len() == 20 && "in_flight_request_id"@[0] == 'i',
        "dispatch"@.len() == 8,
        "effect"@.len() == 6 && "effect"@[0] == 'e' && "effect"@[1] == 'f',
        "input_method"@.len() == 12,
        "timings_ms"@.len() == 10 && "timings_ms"@[0] == 't',
        "check"@.len() == 5 && "check"@[0] == 'c',
        "foreground_changed"@.len() == 18 && "foreground_changed"@[0] == 'f',
        "observation_id_before"@.len() == 21,
        "observation_id_after"@.len() == 20 && "observation_id_after"@[0] == 'o',
        "kind"@.len() == 4 && "kind"@[0] == 'k',
        "settle"@.len() == 6 && "settle"@[0] == 's',
        "changed"@.len() == 7 && "changed"@[0] == 'c' && "changed"@[1] == 'h',
        "input"@.len() == 5 && "input"@[0] == 'i',
        "capture"@.len() == 7 && "capture"@[0] == 'c' && "capture"@[1] == 'a',
        "encode"@.len() == 6 && "encode"@[0] == 'e' && "encode"@[1] == 'n',
        "payload"@.len() == 7 && "payload"@[0] == 'p',
{
    reveal_strlit("type");
    reveal_strlit("request_id");
    reveal_strlit("ok");
    reveal_strlit("sidecar_generation");
    reveal_strlit("session_generation");
    reveal_strlit("receipt");
    reveal_strlit("error");
    reveal_strlit("detail");
    reveal_strlit("action");
    reveal_strlit("authorization_generation");
    reveal_strlit("in_flight_request_id");
    reveal_strlit("dispatch");
    reveal_strlit("effect");
    reveal_strlit("input_method");
    reveal_strlit("timings_ms");
    reveal_strlit("check");
    reveal_strlit("foreground_changed");
    reveal_strlit("observation_id_before");
    reveal_strlit("observation_id_after");
    reveal_strlit("kind");
    reveal_strlit("settle");
    reveal_strlit("changed");
    reveal_strlit("input");
    reveal_strlit("capture");
    reveal_strlit("encode");
    reveal_strlit("payload");
}

/// What dispatches input is what moves the pointer, presses, types, scrolls or sets a
/// value; what only looks or waits does not.
pub proof fn what_acts_touches_input()
    ensures
        input_action("mouse_move"@),
        input_action("left_click"@),
        input_action("right_click"@),
        input_action("double_click"@),
        input_action("left_click_drag"@),
        input_action("scroll"@),
        input_action("type"@),
        input_action("key"@),
        input_action("paste"@),
        input_action("press"@),
        input_action("set_value"@),
        !input_action("screenshot"@),
        !input_action("wait"@),
        !input_action("inspect"@),
        !input_action("wait_for_change"@),
        !input_action("elements"@),
        !input_action("windows"@),
        !input_action("probe"@),
        !input_action("idle_ms"@),
        !input_action("wait_for_idle"@),
        !input_action("hello"@),
        !input_action("hello"@),
        !input_action("observe_start"@),
        !input_action("observe_stop"@),
{
    reveal_strlit("mouse_move");
    reveal_strlit("left_click");
    reveal_strlit("right_click");
    reveal_strlit("double_click");
    reveal_strlit("left_click_drag");
    reveal_strlit("scroll");
    reveal_strlit("type");
    reveal_strlit("key");
    reveal_strlit("paste");
    reveal_strlit("press");
    reveal_strlit("set_value");
    reveal_strlit("screenshot");
    reveal_strlit("wait");
    reveal_strlit("inspect");
    reveal_strlit("wait_for_change");
    reveal_strlit("elements");
    reveal_strlit("windows");
    reveal_strlit("probe");
    reveal_strlit("idle_ms");
    reveal_strlit("wait_for_idle");
    reveal_strlit("hello");
    reveal_strlit("observe_start");
    reveal_strlit("observe_stop");
    reveal_strlit("select_target");
    reveal_strlit("release_target");
    assert("mouse_move"@.len() == 10 && "mouse_move"@[0] == 'm');
    assert("left_click"@.len() == 10 && "left_click"@[0] == 'l');
    assert("right_click"@.len() == 11);
    assert("double_click"@.len() == 12 && "double_click"@[0] == 'd');
    assert("left_click_drag"@.len() == 15 && "left_click_drag"@[0] == 'l');
    assert("scroll"@.len() == 6);
    assert("type"@.len() == 4 && "type"@[0] == 't');
    assert("key"@.len() == 3);
    assert("paste"@.len() == 5 && "paste"@[0] == 'p' && "paste"@[1] == 'a');
    assert("press"@.len() == 5 && "press"@[0] == 'p' && "press"@[1] == 'r' && "press"@[2] == 'e');
    assert("set_value"@.len() == 9);
    assert("screenshot"@.len() == 10 && "screenshot"@[0] == 's');
    assert("wait"@.len() == 4 && "wait"@[0] == 'w');
    assert("inspect"@.len() == 7 && "inspect"@[0] == 'i' && "inspect"@[1] == 'n');
    assert("wait_for_change"@.len() == 15 && "wait_for_change"@[0] == 'w');
    assert("elements"@.len() == 8);
    assert("windows"@.len() == 7 && "windows"@[0] == 'w');
    assert("probe"@.len() == 5 && "probe"@[0] == 'p' && "probe"@[1] == 'r' && "probe"@[2] == 'o');
    assert("idle_ms"@.len() == 7 && "idle_ms"@[0] == 'i' && "idle_ms"@[1] == 'd');
    assert("wait_for_idle"@.len() == 13 && "wait_for_idle"@[0] == 'w');
    assert("hello"@.len() == 5 && "hello"@[0] == 'h');
    assert("observe_start"@.len() == 13 && "observe_start"@[0] == 'o');
    assert("observe_stop"@.len() == 12 && "observe_stop"@[0] == 'o');
    assert("select_target"@.len() == 13 && "select_target"@[0] == 's');
    assert("release_target"@.len() == 14);
}

/// What looks or waits carries no number, and what acts does, all but moving the pointer.
pub proof fn what_looks_is_read_only()
    ensures
        read_only_action("screenshot"@),
        read_only_action("mouse_move"@),
        read_only_action("wait"@),
        read_only_action("inspect"@),
        read_only_action("wait_for_change"@),
        read_only_action("elements"@),
        read_only_action("windows"@),
        read_only_action("probe"@),
        read_only_action("idle_ms"@),
        read_only_action("wait_for_idle"@),
        read_only_action("hello"@),
        !read_only_action("left_click"@),
        !read_only_action("right_click"@),
        !read_only_action("double_click"@),
        !read_only_action("left_click_drag"@),
        !read_only_action("scroll"@),
        !read_only_action("type"@),
        !read_only_action("key"@),
        !read_only_action("paste"@),
        !read_only_action("press"@),
        !read_only_action("set_value"@),
        !read_only_action("observe_start"@),
        !read_only_action("observe_stop"@),
{
    reveal_strlit("mouse_move");
    reveal_strlit("left_click");
    reveal_strlit("right_click");
    reveal_strlit("double_click");
    reveal_strlit("left_click_drag");
    reveal_strlit("scroll");
    reveal_strlit("type");
    reveal_strlit("key");
    reveal_strlit("paste");
    reveal_strlit("press");
    reveal_strlit("set_value");
    reveal_strlit("screenshot");
    reveal_strlit("wait");
    reveal_strlit("inspect");
    reveal_strlit("wait_for_change");
    reveal_strlit("elements");
    reveal_strlit("windows");
    reveal_strlit("probe");
    reveal_strlit("idle_ms");
    reveal_strlit("wait_for_idle");
    reveal_strlit("hello");
    reveal_strlit("observe_start");
    reveal_strlit("observe_stop");
    reveal_strlit("select_target");
    reveal_strlit("release_target");
    assert("mouse_move"@.len() == 10 && "mouse_move"@[0] == 'm');
    assert("left_click"@.len() == 10 && "left_click"@[0] == 'l');
    assert("right_click"@.len() == 11);
    assert("double_click"@.len() == 12 && "double_click"@[0] == 'd');
    assert("left_click_drag"@.len() == 15 && "left_click_drag"@[0] == 'l');
    assert("scroll"@.len() == 6);
    assert("type"@.len() == 4 && "type"@[0] == 't');
    assert("key"@.len() == 3);
    assert("paste"@.len() == 5 && "paste"@[0] == 'p' && "paste"@[1] == 'a');
    assert("press"@.len() == 5 && "press"@[0] == 'p' && "press"@[1] == 'r' && "press"@[2] == 'e');
    assert("set_value"@.len() == 9);
    assert("screenshot"@.len() == 10 && "screenshot"@[0] == 's');
    assert("wait"@.len() == 4 && "wait"@[0] == 'w');
    assert("inspect"@.len() == 7 && "inspect"@[0] == 'i' && "inspect"@[1] == 'n');
    assert("wait_for_change"@.len() == 15 && "wait_for_change"@[0] == 'w');
    assert("elements"@.len() == 8);
    assert("windows"@.len() == 7 && "windows"@[0] == 'w');
    assert("probe"@.len() == 5 && "probe"@[0] == 'p' && "probe"@[1] == 'r' && "probe"@[2] == 'o');
    assert("idle_ms"@.len() == 7 && "idle_ms"@[0] == 'i' && "idle_ms"@[1] == 'd');
    assert("wait_for_idle"@.len() == 13 && "wait_for_idle"@[0] == 'w');
    assert("hello"@.len() == 5 && "hello"@[0] == 'h');
    assert("observe_start"@.len() == 13 && "observe_start"@[0] == 'o');
    assert("observe_stop"@.len() == 12 && "observe_stop"@[0] == 'o');
    assert("select_target"@.len() == 13 && "select_target"@[0] == 's');
    assert("release_target"@.len() == 14);
}

/// Only a greeting and the two that start and stop observing may come before a handshake,
/// and only those two are answered by an acknowledgement.
pub proof fn only_a_greeting_comes_first(action: Seq<char>)
    ensures
        ungated_action(action) <==> action == "hello"@ || ack_action(action),
        ack_action("observe_start"@),
        ack_action("observe_stop"@),
        !ack_action("hello"@),
        input_action(action) ==> !ungated_action(action) && !ack_action(action),
{
    reveal_strlit("mouse_move");
    reveal_strlit("left_click");
    reveal_strlit("right_click");
    reveal_strlit("double_click");
    reveal_strlit("left_click_drag");
    reveal_strlit("scroll");
    reveal_strlit("type");
    reveal_strlit("key");
    reveal_strlit("paste");
    reveal_strlit("press");
    reveal_strlit("set_value");
    reveal_strlit("screenshot");
    reveal_strlit("wait");
    reveal_strlit("inspect");
    reveal_strlit("wait_for_change");
    reveal_strlit("elements");
    reveal_strlit("windows");
    reveal_strlit("probe");
    reveal_strlit("idle_ms");
    reveal_strlit("wait_for_idle");
    reveal_strlit("hello");
    reveal_strlit("observe_start");
    reveal_strlit("observe_stop");
    reveal_strlit("select_target");
    reveal_strlit("release_target");
    assert("mouse_move"@.len() == 10 && "mouse_move"@[0] == 'm');
    assert("left_click"@.len() == 10 && "left_click"@[0] == 'l');
    assert("right_click"@.len() == 11);
    assert("double_click"@.len() == 12 && "double_click"@[0] == 'd');
    assert("left_click_drag"@.len() == 15 && "left_click_drag"@[0] == 'l');
    assert("scroll"@.len() == 6);
    assert("type"@.len() == 4 && "type"@[0] == 't');
    assert("key"@.len() == 3);
    assert("paste"@.len() == 5 && "paste"@[0] == 'p' && "paste"@[1] == 'a');
    assert("press"@.len() == 5 && "press"@[0] == 'p' && "press"@[1] == 'r' && "press"@[2] == 'e');
    assert("set_value"@.len() == 9);
    assert("screenshot"@.len() == 10 && "screenshot"@[0] == 's');
    assert("wait"@.len() == 4 && "wait"@[0] == 'w');
    assert("inspect"@.len() == 7 && "inspect"@[0] == 'i' && "inspect"@[1] == 'n');
    assert("wait_for_change"@.len() == 15 && "wait_for_change"@[0] == 'w');
    assert("elements"@.len() == 8);
    assert("windows"@.len() == 7 && "windows"@[0] == 'w');
    assert("probe"@.len() == 5 && "probe"@[0] == 'p' && "probe"@[1] == 'r' && "probe"@[2] == 'o');
    assert("idle_ms"@.len() == 7 && "idle_ms"@[0] == 'i' && "idle_ms"@[1] == 'd');
    assert("wait_for_idle"@.len() == 13 && "wait_for_idle"@[0] == 'w');
    assert("hello"@.len() == 5 && "hello"@[0] == 'h');
    assert("observe_start"@.len() == 13 && "observe_start"@[0] == 'o');
    assert("observe_stop"@.len() == 12 && "observe_stop"@[0] == 'o');
    assert("select_target"@.len() == 13 && "select_target"@[0] == 's');
    assert("release_target"@.len() == 14);
}

/// An id can be correlated exactly where it is one to sixty-four characters, each of them
/// printable ASCII.
pub proof fn an_id_is_printable_and_short(id: Seq<char>)
    ensures
        correlatable(id) <==> 1 <= id.len() <= 64 && forall|i: int|
            0 <= i < id.len() ==> 0x20 <= (#[trigger] id[i]) as int <= 0x7e,
{
    assert(' ' as int == 0x20 && '~' as int == 0x7e);
}

/// A request says what generations it was made under and what number it has, each under
/// its own name, and so does a control of its authorization.
pub proof fn a_frame_keeps_its_generations(frame: Json)
    ensures
        frame_of(frame) matches Ok(InboundView::Request(request)) ==> {
            &&& request.sidecar_generation == json::field_text(frame, "sidecar_generation"@)
            &&& request.session_generation == json::field_u64(frame, "session_generation"@)
            &&& request.authorization_generation == json::field_u64(
                frame,
                "authorization_generation"@,
            )
            &&& request.mutation_seq == json::field_u64(frame, "mutation_seq"@)
        },
        frame_of(frame) matches Ok(InboundView::Control { authorization_generation, .. })
            ==> authorization_generation == json::field_u64(frame, "authorization_generation"@),
{
}

/// A frame is understood exactly where it is an object with a known type, an id that can be
/// correlated and an action: for a request any that carries nothing reserved, for a control
/// one of the three.
pub proof fn a_frame_is_understood_where_it_is_one(frame: Json)
    ensures
        frame_of(frame) matches Ok(InboundView::Request(_)) <==> {
            &&& frame is Object
            &&& json::field_text(frame, "type"@) == Some("request"@)
            &&& json::field_text(frame, "request_id"@) matches Some(id) && correlatable(id)
            &&& json::field_text(frame, "action"@) is Some
            &&& json::field(frame, "observation_id"@) is None
            &&& json::field(frame, "target_id"@) is None
            &&& json::field(frame, "element_ref"@) is None
        },
        frame_of(frame) matches Ok(InboundView::Control { .. }) <==> {
            &&& frame is Object
            &&& json::field_text(frame, "type"@) == Some("control"@)
            &&& json::field_text(frame, "request_id"@) matches Some(id) && correlatable(id)
            &&& json::field_text(frame, "action"@) == Some("pause"@) || json::field_text(
                frame,
                "action"@,
            ) == Some("resume"@) || json::field_text(frame, "action"@) == Some("release"@)
        },
{
    reveal_strlit("request");
    reveal_strlit("control");
    reveal_strlit("pause");
    reveal_strlit("resume");
    reveal_strlit("release");
    reveal_strlit("");
    assert("request"@.len() == 7 && "request"@[0] == 'r' && "request"@[2] == 'q');
    assert("control"@.len() == 7 && "control"@[0] == 'c');
    assert("pause"@.len() == 5);
    assert("resume"@.len() == 6);
    assert("release"@.len() == 7 && "release"@[0] == 'r' && "release"@[2] == 'l');
    assert(""@.len() == 0);
}

/// A line is read where it is no more than 65536 bytes, and as the frame its JSON is.
pub proof fn a_line_is_read_to_its_cap(line: Seq<char>)
    ensures
        vstd::utf8::encode_utf8(line).len() > 65_536 ==> (line_of(line) matches Err(failure)
            && failure.error == "request_too_large"@ && failure.reply is Silence),
        vstd::utf8::encode_utf8(line).len() <= 65_536 ==> match json::json_text(line) {
            Ok(frame) => line_of(line) == frame_of(frame),
            Err(_) => line_of(line) matches Err(failure) && failure.error == "malformed_frame"@
                && failure.reply is Silence,
        },
{
}

/// A response says whose it is and that it went well, and carries its receipt; a payload
/// that is no object goes under its own name.
pub proof fn a_response_reads_back(
    envelope: Envelope,
    request_id: Seq<char>,
    payload: Json,
    receipt: Option<Receipt>,
)
    ensures
        ({
            let frame = Json::Object(response_members(envelope, request_id, payload, receipt));
            &&& json::field_text(frame, "type"@) == Some("response"@)
            &&& json::field_text(frame, "request_id"@) == Some(request_id)
            &&& json::field_bool(frame, "ok"@) == Some(true)
            &&& json::field_text(frame, "sidecar_generation"@) == Some(
                envelope.sidecar_generation@,
            )
            &&& json::field_u64(frame, "session_generation"@) == Some(envelope.session_generation)
            &&& receipt matches Some(told) ==> json::field(frame, "receipt"@) == Some(
                receipt_json(told),
            )
            &&& !(payload is Object) ==> json::field(frame, "payload"@) == Some(payload)
            &&& !(payload is Object) && receipt is None ==> json::field(frame, "receipt"@) is None
        }),
{
    member_names_differ();
}

/// A failed response says whose it is, that it did not go well and why, and carries its
/// receipt; an empty detail is none.
pub proof fn a_failure_reads_back(
    envelope: Envelope,
    request_id: Seq<char>,
    error: Seq<char>,
    detail: Option<Seq<char>>,
    receipt: Option<Receipt>,
)
    ensures
        ({
            let frame = Json::Object(
                error_members(envelope, request_id, error, detail, receipt),
            );
            &&& json::field_text(frame, "type"@) == Some("response"@)
            &&& json::field_text(frame, "request_id"@) == Some(request_id)
            &&& json::field_bool(frame, "ok"@) == Some(false)
            &&& json::field_text(frame, "error"@) == Some(error)
            &&& json::field_text(frame, "sidecar_generation"@) == Some(
                envelope.sidecar_generation@,
            )
            &&& json::field_u64(frame, "session_generation"@) == Some(envelope.session_generation)
            &&& detail is Some && detail->0.len() > 0 ==> json::field_text(frame, "detail"@)
                == detail
            &&& detail is None || detail->0.len() == 0 ==> json::field(frame, "detail"@) is None
            &&& json::field(frame, "receipt"@) == (match receipt {
                Some(told) => Some(receipt_json(told)),
                None => None,
            })
        }),
{
    member_names_differ();
}

/// The answer to a control says which it answers, whether it was taken, under which
/// authorization, and what was being done.
pub proof fn a_control_ack_reads_back(
    envelope: Envelope,
    request_id: Seq<char>,
    action: ControlAction,
    ok: bool,
    authorization_generation: u64,
    in_flight_request_id: Option<Seq<char>>,
)
    ensures
        ({
            let frame = Json::Object(
                control_ack_members(
                    envelope,
                    request_id,
                    action,
                    ok,
                    authorization_generation,
                    in_flight_request_id,
                ),
            );
            &&& json::field_text(frame, "type"@) == Some("control_ack"@)
            &&& json::field_text(frame, "request_id"@) == Some(request_id)
            &&& json::field_text(frame, "action"@) == Some(control_name(action))
            &&& json::field_bool(frame, "ok"@) == Some(ok)
            &&& json::field_u64(frame, "authorization_generation"@) == Some(
                authorization_generation,
            )
            &&& json::field_text(frame, "in_flight_request_id"@) == in_flight_request_id
            &&& json::field(frame, "in_flight_request_id"@) is Some
            &&& json::field_text(frame, "sidecar_generation"@) == Some(
                envelope.sidecar_generation@,
            )
            &&& json::field_u64(frame, "session_generation"@) == Some(envelope.session_generation)
        }),
{
    member_names_differ();
}

/// A receipt on the wire says what it holds, and leaves out what it does not.
pub proof fn a_receipt_reads_back(receipt: Receipt)
    ensures
        ({
            let told = receipt_json(receipt);
            &&& json::field_text(told, "dispatch"@) == Some(dispatch_name(receipt.dispatch))
            &&& json::field_text(told, "effect"@) == Some(effect_name(receipt.effect))
            &&& json::field_text(told, "input_method"@) == Some(method_name(receipt.input_method))
            &&& json::field(told, "timings_ms"@) == Some(timings_json(receipt.timings))
            &&& json::field(told, "check"@) == (match receipt.check {
                Some(check) => Some(checked_json(check)),
                None => None,
            })
            &&& json::field_bool(told, "foreground_changed"@) == receipt.foreground_changed
            &&& json::field_text(told, "observation_id_before"@) == text::text_of(
                receipt.observation_id_before,
            )
            &&& json::field_text(told, "observation_id_after"@) == text::text_of(
                receipt.observation_id_after,
            )
        }),
{
    member_names_differ();
}

/// Timings on the wire say the time of each phase, and a check its kind, how it settled and
/// whether anything changed.
pub proof fn timings_and_checks_read_back(timings: Timings, check: Checked)
    ensures
        json::field_u64(timings_json(timings), "input"@) == Some(timings.input_ms),
        json::field_u64(timings_json(timings), "settle"@) == Some(timings.settle_ms),
        json::field_u64(timings_json(timings), "capture"@) == Some(timings.capture_ms),
        json::field_u64(timings_json(timings), "encode"@) == Some(timings.encode_ms),
        json::field_text(checked_json(check), "kind"@) == Some(check_name(check.kind)),
        json::field_text(checked_json(check), "settle"@) == (match check.settle {
            Some(settle) => Some(settle_name(settle)),
            None => None,
        }),
        json::field_bool(checked_json(check), "changed"@) == check.changed,
{
    member_names_differ();
}

/// A phase's time grows by what is added to it, up to an hour.
pub proof fn a_time_grows_by_what_is_added(ms: u64, more: u64)
    ensures
        ms + more <= 3_600_000 ==> lengthened(ms, more) == ms + more,
        ms + more > 3_600_000 ==> lengthened(ms, more) == 3_600_000,
{
}

/// Nothing was sent exactly where nothing was let through; what was let through and did not
/// run to its end was sent in part.
pub proof fn a_dispatch_is_what_was_let_through(posted: bool, completed: bool)
    ensures
        dispatched(posted, completed) == Dispatch::NotSent <==> !posted,
        dispatched(posted, completed) == Dispatch::Sent <==> posted && completed,
        dispatched(posted, completed) == Dispatch::Partial <==> posted && !completed,
{
}

/// What a receipt says of itself has one name each.
pub proof fn receipts_are_said_in_their_own_words()
    ensures
        dispatch_name(Dispatch::NotSent) == "not_sent"@,
        dispatch_name(Dispatch::Sent) == "sent"@,
        dispatch_name(Dispatch::Partial) == "partial"@,
        effect_name(Effect::NotObserved) == "not_observed"@,
        effect_name(Effect::Unknown) == "unknown"@,
        effect_name(Effect::Verified) == "verified"@,
        method_name(InputMethod::ForegroundHid) == "foreground_hid"@,
        method_name(InputMethod::Ax) == "ax"@,
        check_name(Check::Image) == "image"@,
        check_name(Check::Semantic) == "semantic"@,
        check_name(Check::Nothing) == "none"@,
        settle_name(Settle::Stable) == "stable"@,
        settle_name(Settle::Timeout) == "timeout"@,
        control_name(ControlAction::Pause) == "pause"@,
        control_name(ControlAction::Resume) == "resume"@,
        control_name(ControlAction::Release) == "release"@,
{
}

/// A failure says the code and the sentence it was made of.
pub proof fn a_failure_says_its_code(code: Seq<char>, detail: Seq<char>)
    ensures
        failed(code, detail).code == code,
        failed(code, detail).detail == Some(detail),
        coded(code).code == code,
        coded(code).detail is None,
{
}

/// A frame that is not understood is refused by what is wrong with it, and answered where it
/// carries something an answer can be told by: an id for a response, and an action alone for
/// an acknowledgement.
pub proof fn a_bad_frame_is_refused_by_what_is_wrong(frame: Json)
    ensures
        !(frame is Object) ==> (frame_of(frame) matches Err(failure) && failure.error
            == "malformed_frame"@ && failure.reply is Silence),
        frame is Object && json::field_text(frame, "type"@) is None ==> (frame_of(
            frame,
        ) matches Err(failure) && failure.error == "untagged_frame"@ && (failure.reply
            is CaptureAck <==> json::field_text(frame, "action"@) is Some) && failure.action
            == json::field_text(frame, "action"@)),
        frame is Object && json::field_text(frame, "type"@) is Some && json::field_text(
            frame,
            "type"@,
        ) != Some("request"@) && json::field_text(frame, "type"@) != Some("control"@) ==> (frame_of(
            frame,
        ) matches Err(failure) && failure.error == "unknown_frame_type"@ && failure.reply
            is Silence),
        frame is Object && json::field_text(frame, "type"@) == Some("request"@) && frame_of(frame)
            is Err ==> (frame_of(frame) matches Err(failure) && {
            &&& failure.reply is Response <==> (json::field_text(frame, "request_id"@) matches Some(
                id,
            ) && correlatable(id))
            &&& failure.error == "unknown_field"@ ==> failure.reply is Response && json::field_text(
                frame,
                "action"@,
            ) is Some && failure.action == json::field_text(frame, "action"@)
            &&& json::field_text(frame, "action"@) is None ==> failure.error == "malformed_frame"@
        }),
        frame is Object && json::field_text(frame, "type"@) == Some("control"@) && frame_of(frame)
            is Err ==> (frame_of(frame) matches Err(failure) && failure.error == "malformed_frame"@
            && (failure.reply is Response <==> (json::field_text(frame, "request_id"@) matches Some(
            id,
        ) && correlatable(id)))),
{
    reveal_strlit("request");
    reveal_strlit("control");
    reveal_strlit("unknown_field");
    reveal_strlit("malformed_frame");
    assert("request"@.len() == 7 && "request"@[0] == 'r');
    assert("control"@.len() == 7 && "control"@[0] == 'c');
    assert("unknown_field"@.len() == 13);
    assert("malformed_frame"@.len() == 15);
}

} // verus!
