use serde_json::Value;

use compux::address::{
    coords, display_for, named_observation, observed, parse_point, point_in, same_display, Aim,
};
use compux::capture::Display;
use compux::desktop::windows;
use compux::elements::ControlNow;
use compux::geometry::{Geometry, MonitorFacts, Region};
use compux::observation::{Kind, Observation, Observations, ViewHash, MAX_OBSERVATIONS, TTL_MS};
use compux::serve::{
    boot_generation, check_of, disclaim_exit_codes, display_server, hello, image_checked,
    inspect_at, inspect_unsupported, is_permissive, observe_ack, probe, receipt, receipt_only,
    refusal, reply, report_change, request_permissions, text_to_send, verb_of, Dispatched,
    Inspected, Verb, EXIT_CAPTURE_STALLED, PROTOCOL_VERSION,
};
use compux::waiting::{
    change_polling, idle_ms, idle_polling, idle_reading, idle_target, idle_unsupported, wait_for_idle,
    wait_ms, Polling, MAX_WAIT_FOR_IDLE_MS,
};
use compux::wire::{
    Check, Checked, Dispatch, Effect, Envelope, Failure, InputMethod, Settle, Timings,
};

fn json(text: &str) -> Value {
    serde_json::from_str(text).expect("a JSON text")
}

fn px(n: f64) -> i64 {
    (n * 1_000_000.0).round() as i64
}

fn envelope() -> Envelope {
    Envelope {
        sidecar_generation: "boot-1".to_string(),
        session_generation: 1,
    }
}

fn coded(code: &str) -> Failure {
    Failure {
        code: code.to_string(),
        detail: None,
    }
}

/// An action that posted its input and ran to its end.
fn sent() -> Dispatched {
    let mut done = Dispatched::nothing();
    done.posted = true;
    done.input_complete = true;
    done
}

#[test]
fn hello_reports_the_protocol_version_and_verbs() {
    let v = hello("0.1.0");
    assert_eq!(v["ok"], Value::from(true));
    assert_eq!(v["protocol_version"], Value::from(PROTOCOL_VERSION));
    assert!(v["compux_version"].is_string());
    assert!(v["actions"]
        .as_array()
        .unwrap()
        .iter()
        .any(|a| a == "screenshot"));
    assert_eq!(
        v["capabilities"]["observations"]["max"],
        Value::from(MAX_OBSERVATIONS)
    );
    assert_eq!(
        v["capabilities"]["observations"]["ttl_ms"],
        Value::from(TTL_MS)
    );
}

#[test]
fn idle_verbs_are_not_advertised_model_actions() {
    let hello = hello("0.1.0");
    let actions = hello["actions"].as_array().unwrap();
    assert!(!actions.iter().any(|a| a == "idle_ms"));
    assert!(!actions.iter().any(|a| a == "wait_for_idle"));
}

#[test]
fn observe_verbs_are_not_advertised_model_actions() {
    let hello = hello("0.1.0");
    let actions = hello["actions"].as_array().unwrap();
    assert!(!actions.iter().any(|a| a == "observe_start"));
    assert!(!actions.iter().any(|a| a == "observe_stop"));
}

// Every action that is offered is one there is.
#[test]
fn every_offered_action_is_known() {
    let hello = hello("0.1.0");
    let actions = hello["actions"].as_array().unwrap();
    assert_eq!(actions.len(), 17);
    for action in actions {
        assert!(verb_of(action.as_str().unwrap()).is_ok(), "{action}");
    }
    assert_eq!(verb_of("set_value"), Ok(Verb::SetValue));
    assert_eq!(verb_of("observe_stop"), Ok(Verb::ObserveStop));
    assert_eq!(verb_of("fly").unwrap_err().code, "unknown action: fly");
    assert_eq!(verb_of("").unwrap_err().code, "unknown action: ");
}

// The dispatch is what this pins: the listing of windows is an action there is.
#[test]
fn handle_dispatches_windows() {
    assert_eq!(verb_of("windows"), Ok(Verb::Windows));
    let response = reply(
        &envelope(),
        "r1",
        "windows",
        None,
        Ok(windows(Vec::new())),
        &Dispatched::nothing(),
    );
    let unknown = response["error"]
        .as_str()
        .map(|e| e.contains("unknown action"))
        .unwrap_or(false);
    assert!(!unknown, "windows must reach its handler: {response}");
    assert!(response["windows"].is_array(), "a window list: {response}");
    assert_eq!(response["ok"], Value::from(true));
}

#[test]
fn handle_dispatches_idle_ms() {
    assert_eq!(verb_of("idle_ms"), Ok(Verb::IdleMs));
    let v = idle_ms(1_234);
    assert_eq!(v["ok"], Value::from(true));
    assert_eq!(v["idle_ms"].as_u64(), Some(1_234));
}

#[test]
fn observe_stop_returns_an_ack_frame() {
    let ack = observe_ack("observe_stop", true, None);
    assert_eq!(ack["type"], Value::from("ack"));
    assert_eq!(ack["action"], Value::from("observe_stop"));
    assert_eq!(ack["ok"], Value::from(true));
    assert_eq!(ack["protocol_version"], Value::from(PROTOCOL_VERSION));
    assert!(ack.get("error").is_none());
}

#[test]
fn a_capture_verb_answers_in_the_ack_family_at_this_version() {
    let ack = observe_ack("observe_stop", true, None);
    let frame = reply(
        &envelope(),
        "r1",
        "observe_stop",
        None,
        Ok(ack),
        &Dispatched::nothing(),
    );
    assert_eq!(frame["type"], Value::from("ack"));
    assert_eq!(frame["action"], Value::from("observe_stop"));
    assert_eq!(frame["ok"], Value::from(true));
    assert_eq!(frame["protocol_version"], Value::from(PROTOCOL_VERSION));
    assert!(frame.get("request_id").is_none());
    assert!(frame.get("sidecar_generation").is_none());
    assert!(frame.get("receipt").is_none());

    // A refusal answers in the same family.
    let refused = reply(
        &envelope(),
        "r1",
        "observe_start",
        None,
        Err(coded("no grant")),
        &Dispatched::nothing(),
    );
    assert_eq!(refused["type"], Value::from("ack"));
    assert_eq!(refused["ok"], Value::from(false));
    assert_eq!(refused["error"], Value::from("no grant"));
}

#[test]
fn the_handshake_answers_with_this_boot_and_this_version() {
    let boot = Envelope {
        sidecar_generation: "boot-xyz".to_string(),
        session_generation: 1,
    };
    let frame = reply(
        &boot,
        "r1",
        "hello",
        None,
        Ok(hello("0.1.0")),
        &Dispatched::nothing(),
    );
    assert_eq!(frame["ok"], Value::from(true));
    assert_eq!(frame["protocol_version"], Value::from(PROTOCOL_VERSION));
    assert_eq!(frame["sidecar_generation"], Value::from("boot-xyz"));
    assert_eq!(frame["session_generation"], Value::from(1));
    assert_eq!(frame["compux_version"], Value::from("0.1.0"));
    assert!(frame["actions"].is_array());
    assert_eq!(
        frame["capabilities"]["input_methods"],
        json(r#"["foreground_hid", "ax"]"#)
    );
    assert_eq!(
        frame["capabilities"]["controls"],
        json(r#"["pause", "resume", "release"]"#)
    );
    assert!(frame.get("authorization_generation").is_none());
    assert!(
        frame.get("receipt").is_none(),
        "hello is read-only and earns no receipt"
    );
}

#[test]
fn a_paused_click_is_refused_with_a_receipt_that_says_nothing_was_sent() {
    let frame = refusal(
        &envelope(),
        "r1",
        "left_click",
        Some("7c1e-1"),
        "paused",
        "a pause is installed",
    );
    assert_eq!(frame["type"], Value::from("response"));
    assert_eq!(frame["request_id"], Value::from("r1"));
    assert_eq!(frame["ok"], Value::from(false));
    assert_eq!(frame["error"], Value::from("paused"));
    assert_eq!(frame["receipt"]["dispatch"], Value::from("not_sent"));
    assert_eq!(frame["sidecar_generation"], Value::from("boot-1"));
    assert_eq!(frame["session_generation"], Value::from(1));
}

// The input landed; only the check did not.
#[test]
fn a_click_whose_own_check_image_failed_still_reports_the_input_as_sent() {
    let frame = reply(
        &envelope(),
        "r1",
        "left_click",
        Some("7c1e-1"),
        Err(coded("capture_stalled")),
        &sent(),
    );
    assert_eq!(frame["ok"], Value::from(false));
    assert_eq!(frame["error"], Value::from("capture_stalled"));
    assert_eq!(
        frame["receipt"]["dispatch"],
        Value::from("sent"),
        "the input landed; only the check did not"
    );
}

#[test]
fn a_geometry_mismatch_on_the_check_image_still_reports_the_click_as_sent() {
    let failure = Failure {
        code: "capture_geometry_mismatch".to_string(),
        detail: Some(
            "frame 2268x1473, display 1512x982 points, mode scale 2.0000: 1.5000 across and \
             1.5000 down"
                .to_string(),
        ),
    };
    let frame = reply(&envelope(), "r1", "left_click", None, Err(failure), &sent());
    assert_eq!(frame["ok"], Value::from(false));
    assert_eq!(frame["error"], Value::from("capture_geometry_mismatch"));
    assert_eq!(frame["receipt"]["dispatch"], Value::from("sent"));
    let detail = frame["detail"].as_str().expect("the numbers");
    assert!(detail.contains("frame 2268x1473"), "{detail}");
    assert!(detail.contains("display 1512x982 points"), "{detail}");
    assert!(detail.contains("mode scale 2.0000"), "{detail}");
    assert!(detail.contains("1.5000 across"), "{detail}");
}

#[test]
fn a_click_that_stopped_part_way_still_reports_partial() {
    let mut done = sent();
    done.input_complete = false;
    let frame = reply(
        &envelope(),
        "r1",
        "left_click",
        None,
        Err(coded("click: refused")),
        &done,
    );
    assert_eq!(frame["receipt"]["dispatch"], Value::from("partial"));
}

// A pause during a settle: the input did go out, and the evidence did not.
#[test]
fn a_pause_during_a_settle_returns_at_once_with_the_input_still_sent() {
    let mut done = sent();
    done.cancelled = true;
    let earned = receipt("left_click", None, &done, None).expect("a mutation earns one");
    assert_eq!(earned.dispatch, Dispatch::Sent, "the input went out");
    assert_eq!(earned.effect, Effect::Unknown);
    assert!(
        earned.check.is_none(),
        "evidence that could not be obtained is claimed by nobody"
    );

    let frame = reply(
        &envelope(),
        "r1",
        "left_click",
        None,
        Err(coded("cancelled")),
        &done,
    );
    assert_eq!(frame["error"], Value::from("cancelled"));
    assert!(
        frame.get("detail").is_none(),
        "a detail that repeats the code says nothing"
    );
    let frame = reply(
        &envelope(),
        "r1",
        "left_click",
        None,
        Err(coded("capture_stalled")),
        &done,
    );
    assert_eq!(frame["error"], Value::from("cancelled"));
    assert_eq!(frame["detail"], Value::from("capture_stalled"));
}

#[test]
fn a_check_of_none_is_the_receipt_alone_and_still_says_so() {
    let (payload, checked) = receipt_only();
    assert_eq!(payload, json(r#"{ "ok": true }"#));
    assert_eq!(checked.kind, Check::Nothing);
    assert_eq!(checked.settle, None);

    let mut done = sent();
    done.check = Some(checked);
    let earned = receipt("type", None, &done, None).expect("a mutation earns one");
    assert_eq!(earned.effect, Effect::Unknown, "nothing was observed");
    assert_eq!(earned.check, Some(checked));
}

fn hashed(pixels: u64) -> ViewHash {
    ViewHash {
        pixels,
        rect: (0, 0, 4, 4),
        frame: (4, 4),
    }
}

#[test]
fn a_view_read_from_a_listing_claims_nothing_about_changing() {
    let checked = image_checked(Settle::Timeout, None, hashed(10));
    assert_eq!(checked.changed, None);
    assert_eq!(checked.settle, Some(Settle::Timeout));
}

// A picture is evidence for the caller to judge by; what the action saw itself comes
// first.
#[test]
fn a_receipt_says_what_is_known() {
    let mut done = sent();
    done.check = Some(image_checked(Settle::Stable, None, hashed(1)));
    done.timings = Timings {
        input_ms: 1,
        settle_ms: 2,
        capture_ms: 3,
        encode_ms: 4,
    };
    let earned = receipt("left_click", Some("a-1"), &done, Some("a-2")).unwrap();
    assert_eq!(earned.effect, Effect::NotObserved);
    assert_eq!(earned.input_method, InputMethod::ForegroundHid);
    assert_eq!(earned.observation_id_before.as_deref(), Some("a-1"));
    assert_eq!(earned.observation_id_after.as_deref(), Some("a-2"));
    assert_eq!(earned.timings, done.timings);

    done.effect = Some(Effect::Verified);
    done.foreground_changed = Some(true);
    let earned = receipt("set_value", None, &done, None).unwrap();
    assert_eq!(earned.effect, Effect::Verified);
    assert_eq!(earned.foreground_changed, Some(true));

    assert!(
        receipt("screenshot", None, &sent(), None).is_none(),
        "an action that changes nothing earns none"
    );

    // The image an action handed back is read off its payload.
    let frame = reply(
        &envelope(),
        "r1",
        "left_click",
        Some("a-1"),
        Ok(json(r#"{"ok": true, "observation_id": "a-2"}"#)),
        &sent(),
    );
    assert_eq!(frame["receipt"]["observation_id_after"], Value::from("a-2"));
}

#[test]
fn no_disclaim_exit_code_collides_with_the_capture_stall() {
    let codes = disclaim_exit_codes();
    assert!(!codes.contains(&EXIT_CAPTURE_STALLED));
    for (i, code) in codes.iter().enumerate() {
        assert!(
            !codes[i + 1..].contains(code),
            "two disclaim failures share exit code {code}"
        );
    }
}

#[test]
fn a_boot_has_a_name_of_its_own() {
    assert_eq!(boot_generation(42, 1_700), "boot-42-1700");
    assert_ne!(boot_generation(42, 1_700), boot_generation(42, 1_701));
}

#[test]
fn the_evidence_is_the_one_asked_for() {
    assert_eq!(check_of(&json(r#"{"check": "image"}"#)), Check::Image);
    assert_eq!(check_of(&json(r#"{"check": "semantic"}"#)), Check::Semantic);
    assert_eq!(check_of(&json(r#"{"check": "none"}"#)), Check::Nothing);
    assert_eq!(check_of(&json("{}")), Check::Nothing);
}

#[test]
fn a_wait_says_whether_it_ended_in_a_change() {
    let mut payload = json(r#"{"ok": true}"#);
    report_change(&mut payload, true);
    assert_eq!(payload, json(r#"{"ok": true, "changed": true}"#));
}

#[test]
fn a_probe_reports_what_it_was_told() {
    assert_eq!(
        probe("linux", "x11", true, false),
        json(
            r#"{"ok": true, "platform": "linux", "display_server": "x11",
                "screen_capture": true, "input_control": false}"#
        )
    );
    assert_eq!(
        request_permissions("macos", false, true),
        json(
            r#"{"ok": true, "platform": "macos", "screen_capture": false,
                "input_control": true}"#
        )
    );
    assert_eq!(display_server(true, true), "wayland");
    assert_eq!(display_server(false, true), "x11");
    assert_eq!(display_server(false, false), "none");
    assert!(is_permissive("x11"));
    assert!(!is_permissive("wayland"));
}

#[test]
fn what_is_under_a_point_is_reported() {
    assert_eq!(inspect_at(&None), json(r#"{"ok": true, "found": false}"#));
    let found = inspect_at(&Some(Inspected {
        role: Some("AXButton".to_string()),
        title: None,
        description: Some("Save".to_string()),
        value: None,
    }));
    assert_eq!(
        found,
        json(
            r#"{"ok": true, "found": true, "role": "AXButton", "title": null,
                "description": "Save", "value": null}"#
        )
    );
    assert_eq!(
        inspect_unsupported().code,
        "element inspection is only supported on macOS"
    );
    assert_eq!(text_to_send(&json(r#"{"text": "hi"}"#)).unwrap(), "hi");
    assert_eq!(
        text_to_send(&json("{}")).unwrap_err().code,
        "missing text"
    );
}

#[test]
fn a_wait_is_bounded() {
    assert_eq!(wait_ms(&json(r#"{"ms": 20000}"#)), 20_000);
    assert_eq!(wait_ms(&json(r#"{"ms": 90000}"#)), MAX_WAIT_FOR_IDLE_MS);
    assert_eq!(wait_ms(&json("{}")), 0);
    assert_eq!(
        change_polling(&json("{}")),
        Polling {
            timeout_ms: 10_000,
            poll_ms: 250,
        }
    );
    assert_eq!(
        change_polling(&json(r#"{"timeout_ms": 99999, "poll_ms": 0}"#)),
        Polling {
            timeout_ms: MAX_WAIT_FOR_IDLE_MS,
            poll_ms: 1,
        }
    );
    assert_eq!(
        idle_polling(&json("{}")),
        Polling {
            timeout_ms: 3_000,
            poll_ms: 100,
        }
    );
    assert_eq!(idle_target(&json("{}")), 1_000);
}

// Idle for at least nothing is always reached.
#[test]
fn wait_for_idle_zero_target_returns_immediately_idle() {
    let req = json(r#"{"idle_ms": 0, "timeout_ms": 500}"#);
    let v = wait_for_idle(0, idle_target(&req), 0, idle_polling(&req).timeout_ms).unwrap();
    assert_eq!(v["ok"], Value::from(true));
    assert_eq!(v["idle"], Value::from(true));
}

#[test]
fn wait_for_idle_times_out_when_target_unreachable() {
    let req = json(r#"{"idle_ms": 9000000000000, "timeout_ms": 50, "poll_ms": 10}"#);
    let deadline = idle_polling(&req).timeout_ms;
    let mut now = 0;
    let v = loop {
        if let Some(v) = wait_for_idle(7_777, idle_target(&req), now, deadline) {
            break v;
        }
        now += idle_polling(&req).nap(now, deadline);
    };
    assert_eq!(now, 50);
    assert_eq!(v["ok"], Value::from(true));
    assert_eq!(v["idle"], Value::from(false));
    assert_eq!(v["idle_ms"], Value::from(7_777));
}

#[test]
fn idle_ms_reports_a_nonnegative_value() {
    let reading = |seconds: f64| idle_reading(seconds.to_bits());
    assert_eq!(reading(1.2345), Ok(1_235));
    assert_eq!(reading(0.0), Ok(0));
    assert_eq!(reading(-0.0), Ok(0));
    assert_eq!(reading(86_400.0), Ok(86_400_000));
    for invalid in [-1.0, f64::NAN, f64::INFINITY, f64::NEG_INFINITY, -1e-300] {
        assert_eq!(
            reading(invalid).unwrap_err().code,
            "idle query returned an invalid interval"
        );
    }
}

#[test]
fn idle_detection_is_macos_only_off_macos() {
    assert_eq!(
        idle_unsupported().code,
        "idle detection is only supported on macOS"
    );
    for action in ["idle_ms", "wait_for_idle"] {
        let frame = reply(
            &envelope(),
            "r1",
            action,
            None,
            Err(idle_unsupported()),
            &Dispatched::nothing(),
        );
        assert_eq!(frame["ok"], Value::from(false), "{action}");
    }
}

fn holding_an_image(table: &mut Observations) -> Observation {
    table.mint(
        Kind::Image,
        424_242,
        facts(),
        Geometry {
            phys_w: 3024,
            phys_h: 1964,
            logical_w: px(1512.0),
            logical_h: px(982.0),
            origin_x: 0,
            origin_y: 0,
            scale_factor: 2_000_000,
        },
        Region {
            x: 0,
            y: 0,
            w: px(1271.0),
            h: px(825.0),
        },
        (1271, 825),
        None,
        0,
        0,
    )
}

fn facts() -> MonitorFacts {
    MonitorFacts {
        x: 0,
        y: 0,
        width: 1512,
        height: 982,
        scale_factor: 2_000_000,
    }
}

#[test]
fn a_click_that_names_no_image_this_process_holds_is_refused_and_sends_nothing() {
    let mut table = Observations::new("boot-1");
    let observation = holding_an_image(&mut table);

    let refused = observed(Some("nobody-1"), &table, 1).expect_err("nobody minted it");
    let frame = reply(
        &envelope(),
        "r1",
        "left_click",
        Some("nobody-1"),
        Err(refused),
        &Dispatched::nothing(),
    );
    assert_eq!(frame["error"], Value::from("unknown_observation"));
    assert_eq!(frame["receipt"]["dispatch"], Value::from("not_sent"));
    assert_eq!(
        frame["receipt"]["observation_id_before"],
        Value::from("nobody-1")
    );
    assert!(frame["detail"].as_str().unwrap().contains("fresh screenshot"));

    // A point past the edge of the image it does hold.
    let outside = point_in(
        &observation,
        observation.sent_w as i64 * 1_000_000,
        px(10.0),
    )
    .expect_err("one pixel past the right edge");
    assert_eq!(outside.code, "point_outside_observation");
    assert!(outside
        .detail
        .unwrap()
        .contains(&format!("{}x{}", observation.sent_w, observation.sent_h)));

    // And the last pixel inside it maps.
    assert!(point_in(
        &observation,
        (observation.sent_w as i64 - 1) * 1_000_000,
        0
    )
    .is_ok());

    assert_eq!(
        observed(None, &table, 1).unwrap_err().code,
        "observation_required"
    );
    assert!(named_observation(None, &table, 1).unwrap().is_none());
    assert_eq!(
        observed(Some(observation.id.as_str()), &table, TTL_MS)
            .unwrap_err()
            .code,
        "expired_observation"
    );
}

#[test]
fn a_display_that_changed_is_not_the_one_it_was() {
    let mut table = Observations::new("boot-1");
    let observation = holding_an_image(&mut table);
    let there = Display {
        facts: facts(),
        id: 424_242,
    };
    let mut moved = there;
    moved.facts.x = 1;

    assert_eq!(same_display(&observation, there), Ok(there));
    assert_eq!(
        same_display(&observation, moved).unwrap_err().code,
        "stale_observation"
    );
    assert!(display_for(false, &observation, moved).is_err());
    assert_eq!(
        display_for(true, &observation, moved),
        Ok(moved),
        "a control is where it is, whatever the display did"
    );
}

#[test]
fn a_point_is_two_numbers() {
    assert_eq!(
        coords(&json(r#"{"x": 4, "y": 9.25}"#)),
        Ok((px(4.0), px(9.25)))
    );
    assert_eq!(coords(&json(r#"{"y": 9}"#)).unwrap_err().code, "missing x");
    assert_eq!(
        coords(&json(r#"{"x": 4, "y": "9"}"#)).unwrap_err().code,
        "missing y"
    );
    let body = json(r#"{"from": {"x": 1, "y": 2, "z": 3}, "to": [3, 4.5], "bad": [1, 2, 3]}"#);
    assert_eq!(parse_point(&body, "from"), Ok((px(1.0), px(2.0))));
    assert_eq!(parse_point(&body, "to"), Ok((px(3.0), px(4.5))));
    assert_eq!(
        parse_point(&body, "bad").unwrap_err().code,
        "bad bad point"
    );
    assert_eq!(
        parse_point(&body, "missing").unwrap_err().code,
        "bad missing point"
    );
}

#[test]
fn a_pointer_action_without_a_control_aims_in_its_image() {
    let mut table = Observations::new("boot-1");
    let observation = holding_an_image(&mut table);
    let nothing = ControlNow {
        started_at: None,
        role: None,
        enabled: false,
    };
    let aimed = |text: &str| {
        compux::address::aim(&json(text), &observation, None, &nothing, None)
    };
    assert_eq!(
        aimed(r#"{"x": 4, "y": 9}"#),
        Ok(Aim::InImage(px(4.0), px(9.0)))
    );
    assert_eq!(
        aimed(r#"{"x": -1, "y": 9}"#).unwrap_err().code,
        "point_outside_observation"
    );
    assert_eq!(aimed("{}").unwrap_err().code, "missing x");
}
