use compux::wire::{
    answers_with_ack, carries_mutation_seq, control_ack, error_response, parse, response,
    touches_input, Check, Checked, ControlAction, Dispatch, Effect, Envelope, Failure, Inbound,
    InputMethod, Phase, Receipt, Reply, Settle, Timings, MAX_REQUEST_BYTES, MAX_TIMING_MS,
    UNGATED_ACTIONS,
};
use serde_json::Value;

fn envelope() -> Envelope {
    Envelope {
        sidecar_generation: "boot-1".to_string(),
        session_generation: 1,
    }
}

fn object(members: Vec<(&str, Value)>) -> Value {
    let mut map = serde_json::Map::new();
    for (key, value) in members {
        map.insert(key.to_string(), value);
    }
    Value::Object(map)
}

#[test]
fn a_request_keeps_its_own_arguments_in_the_body() {
    let line = r#"{"type":"request","request_id":"r7","action":"left_click","x":4,"y":9,
        "deadline_ms":30000,"sidecar_generation":"boot-1","session_generation":1,
        "authorization_generation":3,"mutation_seq":12}"#;

    let Ok(Inbound::Request(request)) = parse(line) else {
        panic!("not a request");
    };
    assert_eq!(request.request_id, "r7");
    assert_eq!(request.action, "left_click");
    assert_eq!(request.mutation_seq, Some(12));
    assert_eq!(request.authorization_generation, Some(3));
    assert_eq!(request.sidecar_generation.as_deref(), Some("boot-1"));
    // The action functions read their arguments straight off the body.
    assert_eq!(request.body["x"], Value::from(4));
}

#[test]
fn hello_carries_a_protocol_version_and_no_generations() {
    let line = r#"{"type":"request","request_id":"r1","action":"hello",
        "protocol_version":7,"deadline_ms":10000}"#;

    let Ok(Inbound::Request(request)) = parse(line) else {
        panic!("not a request");
    };
    assert_eq!(request.sidecar_generation, None);
    assert_eq!(request.mutation_seq, None);
}

#[test]
fn a_control_parses_its_three_verbs_and_nothing_else() {
    for (name, expected) in [
        ("pause", ControlAction::Pause),
        ("resume", ControlAction::Resume),
        ("release", ControlAction::Release),
    ] {
        let line = format!(r#"{{"type":"control","request_id":"c1","action":"{name}"}}"#);
        let Ok(Inbound::Control(control)) = parse(&line) else {
            panic!("not a control");
        };
        assert_eq!(control.action, expected);
        assert_eq!(control.action.as_str(), name);
    }

    let line = r#"{"type":"control","request_id":"c1","action":"stop"}"#;
    let failure = parse(line).expect_err("stop is not a control verb");
    assert_eq!(failure.reply, Reply::Response("c1".to_string()));
    assert_eq!(failure.error, "malformed_frame");
}

// A reserved field means the caller is asking for targeting this build cannot
// do. Running the action anyway would act on the wrong thing while looking
// like it obeyed.
#[test]
fn a_reserved_slice_three_field_is_refused_by_name() {
    for field in ["observation_id", "target_id", "element_ref"] {
        let line = format!(
            r#"{{"type":"request","request_id":"r1","action":"left_click","{field}":"x"}}"#
        );
        let failure = parse(&line).expect_err("a reserved field must be refused");
        assert_eq!(failure.error, "unknown_field");
        assert_eq!(failure.reply, Reply::Response("r1".to_string()));
        assert_eq!(failure.action.as_deref(), Some("left_click"));
        assert!(failure.detail.contains(field), "{}", failure.detail);
    }
}

#[test]
fn an_unknown_tag_is_refused_and_cannot_be_correlated() {
    let failure = parse(r#"{"type":"response","request_id":"r1","ok":true}"#)
        .expect_err("a response is not an inbound frame");
    assert_eq!(failure.error, "unknown_frame_type");
    assert_eq!(
        failure.reply,
        Reply::Silence,
        "a reply must never be guessed"
    );
}

#[test]
fn a_malformed_line_carries_no_request_id() {
    for line in [
        "{not json",
        "[1,2,3]",
        r#"{"type":"request","action":"wait"}"#,
    ] {
        let failure = parse(line).expect_err("must not parse");
        assert_eq!(failure.reply, Reply::Silence, "{line}");
    }
}

#[test]
fn a_request_id_outside_the_bound_is_not_correlatable() {
    for id in ["", &"x".repeat(65), "no\ttabs"] {
        let line = format!(r#"{{"type":"request","request_id":"{id}","action":"wait"}}"#);
        let failure = parse(&line).expect_err("an id outside the bound");
        assert_eq!(failure.reply, Reply::Silence);
    }
    let ok = format!(
        r#"{{"type":"request","request_id":"{}","action":"wait"}}"#,
        "x".repeat(64)
    );
    assert!(parse(&ok).is_ok(), "64 bytes is the boundary, not past it");
}

#[test]
fn an_over_long_line_is_refused_before_it_is_parsed() {
    let line = format!(
        r#"{{"type":"request","request_id":"r1","action":"type","text":"{}"}}"#,
        "x".repeat(MAX_REQUEST_BYTES)
    );
    let failure = parse(&line).expect_err("over the cap");
    assert_eq!(failure.error, "request_too_large");
    assert_eq!(
        failure.detail,
        format!("{} bytes, the cap is 65536", line.len())
    );
}

// Computer history sends a tagged request like everything else; only its reply
// family differs, and it carries no generations because it never says hello.
#[test]
fn a_capture_verb_is_an_ordinary_request_that_answers_with_an_ack() {
    let line = r#"{"type":"request","request_id":"o1","action":"observe_start",
        "params":{"apps":["com.apple.Notes"]}}"#;

    let Ok(Inbound::Request(request)) = parse(line) else {
        panic!("not a request");
    };
    assert_eq!(request.action, "observe_start");
    assert_eq!(request.sidecar_generation, None);
    assert_eq!(request.mutation_seq, None);
    assert!(answers_with_ack(&request.action));
    assert!(answers_with_ack("observe_stop"));
    assert!(!answers_with_ack("left_click"));
    assert!(UNGATED_ACTIONS.contains(&"observe_start"));
}

// A typeless line is refused in the one vocabulary its only sender can read.
#[test]
fn a_typeless_line_is_refused_in_the_ack_family_its_sender_reads() {
    let failure = parse(r#"{"action":"observe_start","params":{}}"#)
        .expect_err("a typeless line is not served");
    assert_eq!(failure.error, "untagged_frame");
    assert_eq!(
        failure.reply,
        Reply::CaptureAck("observe_start".to_string())
    );

    let nameless = parse(r#"{"params":{}}"#).expect_err("nothing to answer and nothing to name");
    assert_eq!(nameless.reply, Reply::Silence);
}

// The two lists answer different questions and a reader will assume they are
// the same one. `mouse_move` is the case that proves they are not.
#[test]
fn mouse_move_is_read_only_on_the_wire_and_still_input() {
    assert!(carries_mutation_seq("left_click"));
    assert!(touches_input("left_click"));

    // Read-only to the wire — no sequence number, no receipt — and still the
    // human's pointer, so a pause has to stop it.
    assert!(!carries_mutation_seq("mouse_move"));
    assert!(touches_input("mouse_move"));

    // The mirror image: a mutation on the wire that dispatches no input.
    assert!(carries_mutation_seq("request_permissions"));
    assert!(!touches_input("request_permissions"));

    assert!(!carries_mutation_seq("screenshot"));
    assert!(!touches_input("screenshot"));
}

#[test]
fn a_response_carries_the_envelope_and_the_payload_unchanged() {
    let frame = response(
        &envelope(),
        "r7",
        object(vec![
            ("ok", Value::from(true)),
            ("width", Value::from(1366)),
            ("data", Value::from("abc")),
        ]),
        None,
    );

    assert_eq!(frame["type"], Value::from("response"));
    assert_eq!(frame["request_id"], Value::from("r7"));
    assert_eq!(frame["ok"], Value::from(true));
    assert_eq!(frame["sidecar_generation"], Value::from("boot-1"));
    assert_eq!(frame["session_generation"], Value::from(1));
    assert_eq!(frame["width"], Value::from(1366));
    assert_eq!(frame["data"], Value::from("abc"));
    assert!(frame.get("receipt").is_none());
    assert!(
        frame.get("protocol_version").is_none(),
        "only hello answers with a version"
    );
}

#[test]
fn a_payload_that_is_no_object_rides_under_its_own_name() {
    let frame = response(&envelope(), "r7", Value::from(vec![1, 2]), None);
    assert_eq!(frame["payload"], Value::from(vec![1, 2]));
    assert_eq!(frame["ok"], Value::from(true));
}

#[test]
fn a_failure_carries_a_code_and_may_carry_a_receipt() {
    let receipt = Receipt::derive(false, false, false, Timings::default());
    let frame = error_response(
        &envelope(),
        "r7",
        "paused",
        Some("a pause is installed".to_string()),
        Some(receipt),
    );

    assert_eq!(frame["ok"], Value::from(false));
    assert_eq!(frame["error"], Value::from("paused"));
    assert_eq!(frame["detail"], Value::from("a pause is installed"));
    assert_eq!(frame["receipt"]["dispatch"], Value::from("not_sent"));
    assert_eq!(
        frame["receipt"]["input_method"],
        Value::from("foreground_hid")
    );
}

#[test]
fn an_empty_detail_is_left_out() {
    let frame = error_response(&envelope(), "r7", "paused", Some(String::new()), None);
    assert!(frame.get("detail").is_none());
    let bare = error_response(&envelope(), "r7", "paused", None, None);
    assert!(bare.get("detail").is_none());
    assert!(bare.get("receipt").is_none());
}

#[test]
fn a_control_ack_names_what_is_still_running() {
    let frame = control_ack(
        &envelope(),
        "c3",
        ControlAction::Pause,
        true,
        4,
        Some("r9".to_string()),
    );

    assert_eq!(frame["type"], Value::from("control_ack"));
    assert_eq!(frame["action"], Value::from("pause"));
    assert_eq!(frame["authorization_generation"], Value::from(4));
    assert_eq!(frame["in_flight_request_id"], Value::from("r9"));

    let idle = control_ack(&envelope(), "c4", ControlAction::Resume, true, 5, None);
    assert_eq!(idle["in_flight_request_id"], Value::Null);
}

// The derivation is the whole receipt. Every combination, stated once.
#[test]
fn a_receipt_reports_what_the_gate_let_through() {
    let t = Timings::default();
    assert_eq!(
        Receipt::derive(false, false, false, t).dispatch,
        Dispatch::NotSent
    );
    assert_eq!(
        Receipt::derive(false, true, false, t).dispatch,
        Dispatch::NotSent,
        "a completed action that posted nothing still sent nothing"
    );
    assert_eq!(
        Receipt::derive(true, true, false, t).dispatch,
        Dispatch::Sent
    );
    assert_eq!(
        Receipt::derive(true, false, false, t).dispatch,
        Dispatch::Partial
    );
    assert_eq!(
        Receipt::derive(true, true, true, t).effect,
        Effect::NotObserved
    );
    assert_eq!(
        Receipt::derive(true, true, false, t).effect,
        Effect::Unknown
    );
}

#[test]
fn timings_reach_the_frame_as_measured() {
    let receipt = Receipt::derive(
        true,
        true,
        true,
        Timings {
            input_ms: 12,
            settle_ms: 80,
            capture_ms: 140,
            encode_ms: 7,
        },
    );
    let frame = response(
        &envelope(),
        "r1",
        object(vec![("ok", Value::from(true))]),
        Some(receipt),
    );

    assert_eq!(frame["receipt"]["timings_ms"]["input"], Value::from(12));
    assert_eq!(frame["receipt"]["timings_ms"]["settle"], Value::from(80));
    assert_eq!(frame["receipt"]["timings_ms"]["capture"], Value::from(140));
    assert_eq!(frame["receipt"]["timings_ms"]["encode"], Value::from(7));
}

#[test]
fn a_receipt_says_which_evidence_and_which_method() {
    let mut receipt = Receipt::derive(true, true, true, Timings::default());
    receipt.check = Some(Checked {
        kind: Check::Image,
        settle: Some(Settle::Stable),
        changed: Some(false),
    });
    receipt.effect = Effect::Verified;
    receipt.input_method = InputMethod::Ax;
    receipt.foreground_changed = Some(true);
    receipt.observation_id_before = Some("7c1e-1".to_string());
    receipt.observation_id_after = Some("7c1e-2".to_string());
    let frame = response(&envelope(), "r1", object(vec![]), Some(receipt));
    let told = &frame["receipt"];

    assert_eq!(told["check"]["kind"], Value::from("image"));
    assert_eq!(told["check"]["settle"], Value::from("stable"));
    assert_eq!(told["check"]["changed"], Value::from(false));
    assert_eq!(told["effect"], Value::from("verified"));
    assert_eq!(told["input_method"], Value::from("ax"));
    assert_eq!(told["foreground_changed"], Value::from(true));
    assert_eq!(told["observation_id_before"], Value::from("7c1e-1"));
    assert_eq!(told["observation_id_after"], Value::from("7c1e-2"));
}

#[test]
fn a_failure_is_a_code_and_may_be_a_sentence() {
    assert_eq!(Failure::coded("cancelled").detail, None);
    assert_eq!(
        Failure::new("stale_element", "gone".to_string())
            .detail
            .as_deref(),
        Some("gone")
    );
}

#[test]
fn the_sentence_of_a_json_failure_reaches_the_detail() {
    let failure = parse("{not json").expect_err("not JSON");
    assert_eq!(failure.error, "malformed_frame");
    assert!(
        failure.detail.starts_with("invalid JSON: key must be a string"),
        "{}",
        failure.detail
    );
}

// A clock that jumped must not put an absurd number on the wire.
#[test]
fn a_phase_is_clamped_to_a_ceiling_no_honest_action_reaches() {
    let mut timings = Timings::default();

    timings.record(Phase::Capture, u64::MAX);
    timings.record(Phase::Capture, 5);

    assert_eq!(timings.capture_ms, MAX_TIMING_MS);
}

#[test]
fn a_phase_is_added_to_and_the_others_are_not() {
    let mut timings = Timings::default();
    timings.record(Phase::Input, 3);
    timings.record(Phase::Settle, 150);
    timings.record(Phase::Settle, 25);
    timings.record(Phase::Encode, 0);
    assert_eq!(timings.input_ms, 3);
    assert_eq!(timings.settle_ms, 175);
    assert_eq!(timings.capture_ms, 0);
    assert_eq!(timings.encode_ms, 0);
}

#[test]
fn a_control_name_is_its_verbs_and_no_other_is() {
    for action in [
        ControlAction::Pause,
        ControlAction::Resume,
        ControlAction::Release,
    ] {
        assert_eq!(ControlAction::parse(action.as_str()), Some(action));
    }
    for name in ["stop", "", "Pause", "pause "] {
        assert_eq!(ControlAction::parse(name), None, "{name:?}");
    }
}
