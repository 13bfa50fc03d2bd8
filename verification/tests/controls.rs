use std::cell::RefCell;

use serde_json::Value;

use compux::actions;
use compux::address::{aim, element_named, Aim};
use compux::capture::Display;
use compux::elements::{
    self, addressed_element, attribute_rejected, element_after, element_in, foreground_moved,
    read_back_of, reference_for, reread_of, value_to_set, AxRefusal, Capability, ControlNow, Entry,
    Node, Reread, ViewNode, Viewed,
};
use compux::geometry::{Geometry, MonitorFacts, Region};
use compux::listing::{self, collect_marks, element_value, elements_for, MAX_MARKS};
use compux::observation::{Kind, Observation, Observations, TTL_MS};
use compux::picture::Picture;
use compux::serve::{self, Dispatched};
use compux::tree::{
    attempt_note, in_view, Next, Reading, Walk, Walked, AX_SETTLE_POLLS, AX_SETTLE_POLL_MS,
};
use compux::wire::{Check, Envelope, Failure};

const FIXTURE_PID: i32 = 4711;
const STARTED_AT: u64 = 1_700_000_000;

fn json(text: &str) -> Value {
    serde_json::from_str(text).expect("a JSON text")
}

fn px(n: f64) -> i64 {
    (n * 1_000_000.0).round() as i64
}

/// One control of a scripted application.
struct Scripted {
    role: String,
    label: String,
    value: Option<String>,
    enabled: bool,
    settable: bool,
    actions: Vec<String>,
    secure: bool,
    frame: (f64, f64),
}

/// An application a test writes down.
struct App {
    controls: Vec<Scripted>,
    started_at: Option<u64>,
    frontmost: Option<i32>,
    frontmost_after: Option<Option<i32>>,
    fail_next: Option<(bool, String)>,
    writes_instead: Option<String>,
    performed: Vec<(usize, String)>,
    /// The controls whose value was asked for.
    asked: RefCell<Vec<u64>>,
}

/// One listing of an application, in the table that keeps it.
struct Listing {
    table: Observations,
    id: String,
}

impl Listing {
    fn observation(&self) -> &Observation {
        self.table.resolve(&self.id, 0).expect("a listing that is held")
    }

    fn entry(&self, reference: &str) -> &Entry {
        element_named(&self.table, &self.id, Some(reference), 0).expect("a listed control")
    }
}

fn display() -> Display {
    Display {
        facts: MonitorFacts {
            x: 0,
            y: 0,
            width: 1512,
            height: 982,
            scale_factor: 2_000_000,
        },
        id: 424_242,
    }
}

fn geometry() -> Geometry {
    Geometry {
        phys_w: 3024,
        phys_h: 1964,
        logical_w: px(1512.0),
        logical_h: px(982.0),
        origin_x: 0,
        origin_y: 0,
        scale_factor: 2_000_000,
    }
}

fn region() -> Region {
    Region {
        x: 0,
        y: 0,
        w: px(1512.0),
        h: px(982.0),
    }
}

/// A pressable button and a settable field.
fn fixture_app() -> App {
    App {
        controls: vec![
            Scripted {
                role: "AXButton".to_string(),
                label: "Save".to_string(),
                value: None,
                enabled: true,
                settable: false,
                actions: vec![elements::PRESS.to_string()],
                secure: false,
                frame: (100.0, 200.0),
            },
            Scripted {
                role: "AXTextField".to_string(),
                label: "Name".to_string(),
                value: Some("ada".to_string()),
                enabled: true,
                settable: true,
                actions: Vec::new(),
                secure: false,
                frame: (100.0, 260.0),
            },
        ],
        started_at: Some(STARTED_AT),
        frontmost: Some(1),
        frontmost_after: None,
        fail_next: None,
        writes_instead: None,
        performed: Vec::new(),
        asked: RefCell::new(Vec::new()),
    }
}

impl App {
    fn nodes(&self) -> Vec<ViewNode> {
        self.controls
            .iter()
            .enumerate()
            .map(|(index, control)| ViewNode {
                node: Node {
                    role: control.role.clone(),
                    label: Some(control.label.clone()),
                    value: if control.secure {
                        None
                    } else {
                        control.value.clone()
                    },
                    enabled: control.enabled,
                    settable: control.settable,
                    press: control.actions.iter().any(|name| name == elements::PRESS),
                    secure: control.secure,
                    path: Vec::new(),
                    handle: index as u64,
                },
                point: (control.frame.0 as i32 + 40, control.frame.1 as i32 + 12),
                bounds: Region {
                    x: px(control.frame.0),
                    y: px(control.frame.1),
                    w: px(80.0),
                    h: px(24.0),
                },
            })
            .collect()
    }

    fn viewed(&self) -> Viewed {
        Viewed {
            nodes: self.nodes(),
            owner: self.started_at.map(|at| (FIXTURE_PID, at)),
            truncated: None,
            note: Some("read Fixture".to_string()),
        }
    }

    /// One listing of it.
    fn listing(&self) -> Listing {
        let mut table = Observations::new("boot-1");
        let payload = listing::elements(
            &self.viewed(),
            &display(),
            geometry(),
            region(),
            (1512, 982),
            &mut table,
            0,
            0,
        );
        let id = payload["observation_id"].as_str().expect("a name").to_string();
        Listing { table, id }
    }

    /// What a control holds, asked for.
    fn value(&self, handle: u64) -> Option<String> {
        self.asked.borrow_mut().push(handle);
        self.controls[handle as usize].value.clone()
    }

    fn now(&self, entry: Option<&Entry>) -> ControlNow {
        let control = entry.and_then(|entry| self.controls.get(entry.handle as usize));
        ControlNow {
            started_at: self.started_at,
            role: control.map(|control| control.role.clone()),
            enabled: control.map(|control| control.enabled).unwrap_or(false),
        }
    }

    fn centre(&self, entry: &Entry) -> Option<(i64, i64)> {
        self.controls
            .get(entry.handle as usize)
            .map(|control| (px(control.frame.0 + 40.0), px(control.frame.1 + 12.0)))
    }

    fn send(&mut self, handle: usize, what: &str) -> Result<(), AxRefusal> {
        if let Some((sent, detail)) = self.fail_next.take() {
            return Err(AxRefusal { sent, detail });
        }
        self.performed.push((handle, what.to_string()));
        if let Some(front) = self.frontmost_after.take() {
            self.frontmost = front;
        }
        Ok(())
    }
}

fn envelope() -> Envelope {
    Envelope {
        sidecar_generation: "boot-1".to_string(),
        session_generation: 1,
    }
}

fn reported(
    action: &str,
    observation_id: &str,
    outcome: Result<Value, Failure>,
    done: &Dispatched,
) -> Value {
    serve::reply(&envelope(), "r1", action, Some(observation_id), outcome, done)
}

/// A press of a control, from the request to the frame that reports it.
fn press(app: &mut App, listing: &Listing, reference: &str) -> Value {
    press_in(app, &listing.table, &listing.id, reference)
}

fn press_in(app: &mut App, table: &Observations, id: &str, reference: &str) -> Value {
    let mut done = Dispatched::nothing();
    let outcome = press_outcome(app, table, id, reference, &mut done);
    reported("press", id, outcome, &done)
}

fn press_outcome(
    app: &mut App,
    table: &Observations,
    id: &str,
    reference: &str,
    done: &mut Dispatched,
) -> Result<Value, Failure> {
    let named = element_named(table, id, Some(reference), 0).ok();
    let now = app.now(named);
    let control = named.and_then(|entry| app.controls.get(entry.handle as usize));
    let names = control
        .map(|control| control.actions.clone())
        .unwrap_or_default();
    let settable = control.map(|control| control.settable).unwrap_or(false);
    let entry = actions::prepare(
        table,
        Some(id),
        Some(reference),
        0,
        &now,
        Capability::Press,
        &names,
        settable,
    )?;
    let before = app.frontmost;
    let outcome = app.send(entry.handle as usize, elements::PRESS);
    actions::press(done, outcome, before, app.frontmost)?;
    let (payload, check) = serve::receipt_only();
    done.check = Some(check);
    Ok(payload)
}

/// A value set on a control, from the request to the frame that reports it.
fn set_value(app: &mut App, listing: &Listing, reference: &str, value: &str) -> Value {
    let mut done = Dispatched::nothing();
    let outcome = set_value_outcome(app, listing, reference, value, &mut done);
    reported("set_value", &listing.id, outcome, &done)
}

fn set_value_outcome(
    app: &mut App,
    listing: &Listing,
    reference: &str,
    value: &str,
    done: &mut Dispatched,
) -> Result<Value, Failure> {
    let named = element_named(&listing.table, &listing.id, Some(reference), 0).ok();
    let now = app.now(named);
    let control = named.and_then(|entry| app.controls.get(entry.handle as usize));
    let settable = control.map(|control| control.settable).unwrap_or(false);
    let entry = actions::prepare(
        &listing.table,
        Some(&listing.id),
        Some(reference),
        0,
        &now,
        Capability::SetValue,
        &Vec::new(),
        settable,
    )?;
    let before = app.frontmost;
    let handle = entry.handle as usize;
    let outcome = app.send(handle, "set");
    if outcome.is_ok() {
        let written = app.writes_instead.clone().unwrap_or(value.to_string());
        app.controls[handle].value = Some(written);
    }
    let read_back = read_back_of(entry, &outcome).and_then(|handle| app.value(handle));
    let verified = actions::set_value(
        done,
        outcome,
        before,
        app.frontmost,
        entry.secure,
        read_back.as_deref(),
        value,
    )?;
    let (mut payload, check) = serve::receipt_only();
    done.check = Some(check);
    elements::answer_value(&mut payload, entry.secure, verified, read_back.as_deref());
    Ok(payload)
}

fn detail(frame: &Value) -> String {
    frame["detail"].as_str().expect("a detail").to_string()
}

#[test]
fn a_press_reaches_the_named_control_without_taking_the_foreground() {
    let mut app = fixture_app();
    let listing = app.listing();

    let frame = press(&mut app, &listing, "e1");

    assert_eq!(frame["ok"], Value::from(true));
    assert_eq!(frame["receipt"]["dispatch"], Value::from("sent"));
    assert_eq!(frame["receipt"]["input_method"], Value::from("ax"));
    assert_eq!(
        frame["receipt"]["effect"],
        Value::from("not_observed"),
        "a clean accessibility return is a dispatch result, not an effect"
    );
    assert_eq!(frame["receipt"]["foreground_changed"], Value::from(false));
    assert_eq!(
        frame["receipt"]["observation_id_before"],
        Value::from(listing.id.as_str())
    );
    let performed = &app.performed;
    assert_eq!(performed.len(), 1, "exactly one press: {performed:?}");
    assert_eq!(performed[0], (0, elements::PRESS.to_string()));
}

// A press that is refused before it runs reaches no control.
#[test]
fn a_paused_press_is_refused_with_nothing_sent() {
    let app = fixture_app();
    let listing = app.listing();
    let frame = serve::refusal(
        &envelope(),
        "r1",
        "press",
        Some(&listing.id),
        "paused",
        "a pause is installed",
    );
    assert_eq!(frame["error"], Value::from("paused"));
    assert_eq!(frame["receipt"]["dispatch"], Value::from("not_sent"));
    assert!(app.performed.is_empty());
}

#[test]
fn a_press_that_moved_the_foreground_says_so() {
    let mut app = fixture_app();
    let listing = app.listing();

    // Another application takes the front while the press runs.
    app.frontmost_after = Some(Some(FIXTURE_PID + 1));
    let frame = press(&mut app, &listing, "e1");
    assert_eq!(frame["ok"], Value::from(true));
    assert_eq!(frame["receipt"]["foreground_changed"], Value::from(true));

    // A platform that will not say leaves the field off the wire.
    app.frontmost = None;
    let frame = press(&mut app, &listing, "e1");
    assert!(
        frame["receipt"].get("foreground_changed").is_none(),
        "an unanswered question is not a false: {}",
        frame["receipt"]
    );
    assert_eq!(foreground_moved(None, Some(1)), None);
}

#[test]
fn a_message_the_platform_never_sent_reports_nothing_sent() {
    for (label, refusal) in [
        ("the accessibility API is disabled", "AXError -25211"),
        ("the element is gone", "AXError -25202"),
        (
            "no accessibility API at all",
            "not supported on this platform",
        ),
    ] {
        let mut app = fixture_app();
        let listing = app.listing();
        app.fail_next = Some((false, refusal.to_string()));

        let frame = press(&mut app, &listing, "e1");

        assert_eq!(frame["error"], Value::from("ax_action_failed"), "{label}");
        assert_eq!(
            frame["receipt"]["dispatch"],
            Value::from("not_sent"),
            "{label}: the platform says nothing left this process"
        );
        assert_eq!(frame["receipt"]["effect"], Value::from("unknown"), "{label}");
    }
}

#[test]
fn a_message_that_did_go_out_reports_sent_however_it_ended() {
    let mut app = fixture_app();
    let listing = app.listing();

    app.fail_next = Some((true, "AXError -25204".to_string()));
    let timed_out = press(&mut app, &listing, "e1");
    assert_eq!(timed_out["receipt"]["dispatch"], Value::from("sent"));

    let landed = press(&mut app, &listing, "e1");
    assert_eq!(landed["receipt"]["dispatch"], Value::from("sent"));
    assert_eq!(landed["ok"], Value::from(true));
}

#[test]
fn a_control_that_cannot_be_pressed_is_refused_and_never_clicked_instead() {
    let mut app = fixture_app();
    let listing = app.listing();

    // e2 is the text field: settable, and it lists no press action.
    let frame = press(&mut app, &listing, "e2");

    assert_eq!(frame["error"], Value::from("ax_action_unsupported"));
    assert_eq!(frame["receipt"]["dispatch"], Value::from("not_sent"));
    assert!(
        detail(&frame).contains("click it"),
        "the sentence must name the next move: {}",
        frame["detail"]
    );
    assert!(app.performed.is_empty(), "nothing may have been sent");
}

#[test]
fn a_disabled_control_is_refused_by_name() {
    let mut app = fixture_app();
    let listing = app.listing();
    app.controls[0].enabled = false;

    let frame = press(&mut app, &listing, "e1");

    assert_eq!(frame["error"], Value::from("element_disabled"));
    assert_eq!(frame["receipt"]["dispatch"], Value::from("not_sent"));
    assert!(app.performed.is_empty());
}

#[test]
fn a_reference_that_no_longer_names_what_it_named_is_stale() {
    // The application quit.
    let mut app = fixture_app();
    let listing = app.listing();
    app.started_at = None;
    let frame = press(&mut app, &listing, "e1");
    assert_eq!(frame["error"], Value::from("stale_element"));
    assert_eq!(frame["receipt"]["dispatch"], Value::from("not_sent"));

    // The pid was reused by another process: alive, and a different start time.
    let mut app = fixture_app();
    let listing = app.listing();
    app.started_at = Some(9_999_000_000);
    let frame = press(&mut app, &listing, "e1");
    assert_eq!(frame["error"], Value::from("stale_element"));

    // The reference now answers a different role.
    let mut app = fixture_app();
    let listing = app.listing();
    app.controls[0].role = "AXTextField".to_string();
    let frame = press(&mut app, &listing, "e1");
    assert_eq!(frame["error"], Value::from("stale_element"));
    assert!(detail(&frame).contains("AXTextField"));

    // The control does not answer at all.
    app.controls.clear();
    let frame = press(&mut app, &listing, "e1");
    assert_eq!(frame["error"], Value::from("stale_element"));
    assert!(detail(&frame).contains("no longer there"));

    assert!(app.performed.is_empty(), "none of these sent anything");
}

#[test]
fn a_reference_this_observation_never_listed_is_refused() {
    let mut app = fixture_app();
    let mut listing = app.listing();

    let frame = press(&mut app, &listing, "e9");
    assert_eq!(frame["error"], Value::from("stale_element"));
    assert!(detail(&frame).contains("2 controls"));

    // A plain picture lists no controls, so it holds no references: minted into the
    // same table, so it is a second observation and not the first under another name.
    let image = listing.table.mint(
        Kind::Image,
        display().id,
        display().facts,
        geometry(),
        region(),
        (1512, 982),
        None,
        0,
        0,
    );
    assert_ne!(image.id, listing.id);
    let frame = press_in(&mut app, &listing.table, &image.id, "e1");
    assert_eq!(frame["error"], Value::from("stale_element"));
    assert!(detail(&frame).contains("listed no controls"));

    // And a request that names none at all.
    assert_eq!(
        element_in(listing.observation(), None).unwrap_err().code,
        "element_required"
    );
    assert!(addressed_element(listing.observation(), None).unwrap().is_none());
    let named = addressed_element(listing.observation(), Some("e2")).unwrap();
    assert_eq!(named.unwrap().role, "AXTextField");
}

// A reference means nothing but with the observation that listed it, and dies with it.
#[test]
fn a_reference_lives_and_dies_with_its_observation() {
    let mut app = fixture_app();
    let mut listing = app.listing();
    assert_eq!(listing.entry("e2").handle, 1);

    // Another listing in the same table has its own "e1".
    app.controls.remove(0);
    let payload = listing::elements(
        &app.viewed(),
        &display(),
        geometry(),
        region(),
        (1512, 982),
        &mut listing.table,
        10,
        10_000_000,
    );
    let other = payload["observation_id"].as_str().expect("a name");
    assert_eq!(payload["observation_kind"], Value::from("semantic"));
    let named = |id: &str, reference: &str, now: u64| {
        element_named(&listing.table, id, Some(reference), now).map(|entry| entry.role.clone())
    };
    assert_eq!(named(&listing.id, "e1", 10), Ok("AXButton".to_string()));
    assert_eq!(named(other, "e1", 10), Ok("AXTextField".to_string()));
    assert_eq!(named(other, "e2", 10).unwrap_err().code, "stale_element");

    // The first expires while the second is still good.
    assert_eq!(
        named(&listing.id, "e1", TTL_MS).unwrap_err().code,
        "expired_observation"
    );
    assert_eq!(named(other, "e1", TTL_MS), Ok("AXTextField".to_string()));

    // Letting go of the table lets go of every reference in it.
    let other = other.to_string();
    listing.table.clear();
    let gone = element_named(&listing.table, &other, Some("e1"), 10).unwrap_err();
    assert_eq!(gone.code, "unknown_observation");
    let mut done = Dispatched::nothing();
    let refused = press_outcome(&mut app, &listing.table, &other, "e1", &mut done).unwrap_err();
    assert_eq!(refused.code, "unknown_observation");
    assert!(app.performed.is_empty());
}

#[test]
fn a_set_value_verifies_only_when_the_read_back_matches() {
    let mut app = fixture_app();
    let listing = app.listing();

    let frame = set_value(&mut app, &listing, "e2", "grace");

    assert_eq!(frame["ok"], Value::from(true));
    assert_eq!(frame["receipt"]["effect"], Value::from("verified"));
    assert_eq!(frame["receipt"]["input_method"], Value::from("ax"));
    assert_eq!(frame["verified"], Value::from(true));
    assert_eq!(frame["value"], Value::from("grace"), "what the field holds now");
    assert_eq!(*app.asked.borrow(), vec![1], "read back once");
}

#[test]
fn a_set_value_the_field_changed_is_not_verified() {
    let mut app = fixture_app();
    let listing = app.listing();
    app.writes_instead = Some("GRACE".to_string());

    let frame = set_value(&mut app, &listing, "e2", "grace");

    assert_eq!(frame["ok"], Value::from(true));
    assert_eq!(frame["receipt"]["effect"], Value::from("not_observed"));
    assert_eq!(frame["verified"], Value::from(false));
    assert_eq!(frame["value"], Value::from("GRACE"));
}

#[test]
fn a_secure_field_never_verifies_and_never_reports_its_value() {
    let mut app = fixture_app();
    app.controls[1].secure = true;
    let listing = app.listing();

    let frame = set_value(&mut app, &listing, "e2", "hunter2");

    assert_eq!(frame["ok"], Value::from(true));
    assert_eq!(frame["receipt"]["effect"], Value::from("not_observed"));
    assert_eq!(frame["verified"], Value::from(false));
    assert!(
        frame.get("value").is_none(),
        "a secure field's value never reaches the wire"
    );
    assert!(app.asked.borrow().is_empty(), "and is never asked for");

    // Nor is a field whose message failed.
    let refused = Err(AxRefusal {
        sent: true,
        detail: "AXError -25204".to_string(),
    });
    let mut open = fixture_app();
    assert_eq!(read_back_of(open.listing().entry("e2"), &refused), None);
    assert_eq!(read_back_of(open.listing().entry("e2"), &Ok(())), Some(1));
    open.controls[1].secure = true;
    assert_eq!(read_back_of(open.listing().entry("e2"), &Ok(())), None);

    let mut payload = json(r#"{"ok": true}"#);
    elements::answer_value(&mut payload, true, false, Some("hunter2"));
    assert_eq!(payload, json(r#"{"ok": true, "verified": false}"#));
}

#[test]
fn a_control_whose_value_is_not_settable_is_refused() {
    let mut app = fixture_app();
    let listing = app.listing();

    // e1 is the button: pressable, and its value is not settable.
    let frame = set_value(&mut app, &listing, "e1", "nope");

    assert_eq!(frame["error"], Value::from("ax_action_unsupported"));
    assert_eq!(frame["receipt"]["dispatch"], Value::from("not_sent"));
    assert!(detail(&frame).contains("type or paste"));
}

#[test]
fn an_accessibility_call_that_timed_out_reports_sent_and_unknown() {
    let mut app = fixture_app();
    let listing = app.listing();
    app.fail_next = Some((true, "AXError -25204".to_string()));

    let frame = press(&mut app, &listing, "e1");

    assert_eq!(frame["error"], Value::from("ax_timed_out"));
    assert_eq!(frame["receipt"]["dispatch"], Value::from("sent"));
    assert_eq!(frame["receipt"]["effect"], Value::from("unknown"));
    assert_eq!(frame["receipt"]["input_method"], Value::from("ax"));
}

#[test]
fn an_application_that_refused_the_message_is_not_reported_as_stale() {
    let mut app = fixture_app();
    let listing = app.listing();
    app.fail_next = Some((false, "AXError -25200".to_string()));

    let frame = press(&mut app, &listing, "e1");

    assert_eq!(frame["error"], Value::from("ax_action_failed"));
    assert!(detail(&frame).contains("-25200"));
}

#[test]
fn a_set_value_without_a_text_is_refused() {
    assert_eq!(value_to_set(&json(r#"{"value": "x"}"#)).unwrap(), "x");
    let refused = value_to_set(&json(r#"{"value": 7}"#)).unwrap_err();
    assert_eq!(refused.code, "invalid_argument");
    assert_eq!(
        refused.detail.unwrap(),
        "set_value needs a string value: the text to put in the control"
    );
}

// The bounds are read again at the moment an action acts.
#[test]
fn a_click_by_reference_reads_the_bounds_again_at_the_moment_it_acts() {
    let mut app = fixture_app();
    let listing = app.listing();
    let body = json(r#"{"action": "left_click"}"#);
    let entry = listing.entry("e1");

    let aimed = |app: &App| {
        aim(
            &body,
            listing.observation(),
            Some("e1"),
            &app.now(Some(entry)),
            app.centre(entry),
        )
    };
    assert_eq!(aimed(&app), Ok(Aim::At(140, 212)), "the centre of the listed frame");

    app.controls[0].frame = (500.0, 600.0);
    assert_eq!(aimed(&app), Ok(Aim::At(540, 612)), "the centre of where it is now");

    // A control that will not say where it is has nowhere to be clicked.
    let nowhere = aim(
        &body,
        listing.observation(),
        Some("e1"),
        &app.now(Some(entry)),
        None,
    );
    assert_eq!(nowhere.unwrap_err().code, "stale_element");
}

#[test]
fn a_click_by_reference_on_a_gone_control_is_refused_rather_than_aimed() {
    let mut app = fixture_app();
    let listing = app.listing();
    app.started_at = None;
    let entry = listing.entry("e1");
    let refused = aim(
        &json("{}"),
        listing.observation(),
        Some("e1"),
        &app.now(Some(entry)),
        app.centre(entry),
    )
    .unwrap_err();

    let frame = reported("left_click", &listing.id, Err(refused), &Dispatched::nothing());
    assert_eq!(frame["error"], Value::from("stale_element"));
    assert_eq!(frame["receipt"]["dispatch"], Value::from("not_sent"));
    assert_eq!(
        frame["receipt"]["input_method"],
        Value::from("foreground_hid"),
        "a click by reference is still the pointer"
    );
}

#[test]
fn an_element_is_published_with_everything_needed_to_name_and_judge_it() {
    let app = fixture_app();
    let mut nodes = app.nodes();
    nodes[0].node.path = vec!["Document".to_string(), "Toolbar".to_string()];

    let button = element_value(&nodes[0], Some("e1"));
    let field = element_value(&nodes[1], Some("e2"));

    assert_eq!(
        button,
        json(
            r#"{
                "element_ref": "e1",
                "role": "AXButton",
                "label": "Save",
                "enabled": true,
                "actions": ["press"],
                "settable": false,
                "bounds": { "x": 100, "y": 200, "w": 80, "h": 24 },
                "path": ["Document", "Toolbar"],
                "x": 140,
                "y": 212
            }"#
        )
    );

    assert_eq!(field["actions"], json("[]"), "it lists no press of its own");
    assert_eq!(field["settable"], Value::from(true));
    assert_eq!(field["value"], Value::from("ada"));
    assert!(
        field.get("path").is_none(),
        "an element with no ancestry carries no path"
    );

    // A reply that cannot resolve references offers none.
    let unnamed = element_value(&nodes[0], None);
    assert!(unnamed.get("element_ref").is_none());
    assert!(
        unnamed.get("actions").is_none(),
        "nothing may be offered on a control that cannot be named"
    );
    assert_eq!(unnamed["role"], Value::from("AXButton"), "it is still listed");
    assert_eq!(
        unnamed["x"],
        Value::from(140),
        "with the point it can be clicked at"
    );
}

#[test]
fn a_truncated_walk_is_named_on_the_reply() {
    let viewed = Viewed {
        nodes: Vec::new(),
        owner: None,
        truncated: Some("time".to_string()),
        note: Some("read Fixture".to_string()),
    };
    let (payload, listed) = elements_for(&viewed);
    assert_eq!(payload["truncated"], Value::from("time"));
    assert_eq!(payload["ax_activation"], Value::from("read Fixture"));
    assert_eq!(payload["elements"], json("[]"));
    assert!(listed.is_none(), "an empty table is a promise of controls");
}

// Every reference that is published resolves to the control it was published for,
// and without a process to check them against none is.
#[test]
fn what_is_listed_can_be_named() {
    let app = fixture_app();
    let (payload, listed) = elements_for(&app.viewed());
    let listed = listed.expect("a table");
    for (i, item) in payload["elements"].as_array().unwrap().iter().enumerate() {
        let reference = item["element_ref"].as_str().expect("a reference");
        assert_eq!(reference, reference_for(i));
        let entry = listed.get(reference).expect("it resolves");
        assert_eq!(entry.handle, i as u64);
    }

    let mut unknown = app.viewed();
    unknown.owner = None;
    let (payload, listed) = elements_for(&unknown);
    assert!(listed.is_none());
    assert!(payload["elements"][0].get("element_ref").is_none());
}

#[test]
fn a_semantic_check_reads_the_control_again_and_never_a_secure_value() {
    let mut app = fixture_app();
    app.controls = vec![
        Scripted {
            role: "AXTextField".to_string(),
            label: "Name".to_string(),
            value: Some("ada".to_string()),
            enabled: true,
            settable: true,
            actions: Vec::new(),
            secure: false,
            frame: (100.0, 200.0),
        },
        Scripted {
            role: "AXTextField".to_string(),
            label: "Password".to_string(),
            value: Some("hunter2".to_string()),
            enabled: true,
            settable: true,
            actions: Vec::new(),
            secure: true,
            frame: (100.0, 260.0),
        },
    ];
    let listing = app.listing();

    for (reference, label, expected) in [("e1", "Name", Some("ada")), ("e2", "Password", None)] {
        let entry = listing.entry(reference);
        let control = &app.controls[entry.handle as usize];
        let value = reread_of(entry, &Some(control.role.clone()));
        let seen = Some(Reread {
            role: control.role.clone(),
            enabled: control.enabled,
            label: Some(control.label.clone()),
            value: value.and_then(|handle| app.value(handle)),
        });
        let (payload, checked) = element_after(Some(entry), &seen).expect("a semantic check");

        let after = &payload["element_after"];
        assert_eq!(after["present"], Value::from(true));
        assert_eq!(after["role"], Value::from("AXTextField"));
        assert_eq!(after["enabled"], Value::from(true));
        assert_eq!(after["label"], Value::from(label));
        assert_eq!(
            after.get("value").and_then(Value::as_str),
            expected,
            "{reference}: a secure field's value is never read back"
        );
        assert_eq!(checked.kind, Check::Semantic);
        assert_eq!(checked.settle, None, "nothing was watched");
    }

    assert_eq!(*app.asked.borrow(), vec![0], "the secure field was not asked");
    assert_eq!(reread_of(listing.entry("e1"), &None), None);

    let refused = element_after(None, &None).unwrap_err();
    assert_eq!(refused.code, "check_unsupported");
}

#[test]
fn a_semantic_check_of_a_control_that_went_away_says_so() {
    let app = fixture_app();
    let listing = app.listing();
    let entry = listing.entry("e1");
    let (payload, _) = element_after(Some(entry), &None).expect("a control that is gone");
    assert_eq!(payload["element_after"], json(r#"{ "present": false }"#));
}

// The two typed rejections fall through to the second attribute; every other error is
// terminal.
#[test]
fn attribute_rejection_codes() {
    assert!(attribute_rejected(-25205));
    assert!(attribute_rejected(-25208));
    assert!(!attribute_rejected(-25204));
    assert!(!attribute_rejected(0));
}

#[test]
fn a_point_is_marked_only_where_there_is_a_picture() {
    let centre = Some((px(140.5), px(-2.5)));
    assert_eq!(elements::aimed_point(Check::Image, centre), Some((141, -3)));
    assert_eq!(elements::aimed_point(Check::Semantic, centre), None);
    assert_eq!(elements::aimed_point(Check::Image, None), None);
    assert!(elements::wants_aimed_point(Check::Image));
    assert!(!elements::wants_aimed_point(Check::Nothing));
}

fn blank() -> Picture {
    Picture::new(200, 100, vec![20; 200 * 100 * 4]).expect("a picture")
}

#[test]
fn marks_are_badges_and_a_table() {
    let app = fixture_app();
    let mut viewed = app.viewed();
    viewed.nodes[0].point = (60, 40);
    viewed.nodes[1].point = (150, 40);
    let mut img = blank();
    let info = collect_marks(&Ok(viewed), &mut img);

    assert_eq!(info.entries.len(), 2);
    assert_eq!(
        info.entries[0],
        json(r#"{"id": 1, "role": "AXButton", "x": 60, "y": 40, "element_ref": "e1", "label": "Save"}"#)
    );
    assert_eq!(info.truncated, 0);
    assert!(info.elements.expect("references").get("e2").is_some());
    let pixel = |x: usize, y: usize| img.bytes()[4 * (y * 200 + x)];
    assert_eq!(pixel(52, 40), 230, "a badge on the first");
    assert_eq!(pixel(142, 40), 230, "and on the second");

    // Where there is nothing to read nothing is drawn, and the code says why.
    let mut untouched = blank();
    let none = collect_marks(
        &Err(compux::desktop::elements_unsupported()),
        &mut untouched,
    );
    assert!(none.entries.is_empty());
    assert_eq!(
        none.ax_activation.as_deref(),
        Some("element enumeration is only supported on macOS")
    );
    assert_eq!(untouched.bytes(), blank().bytes());
}

#[test]
fn a_picture_carries_only_so_many_badges() {
    let app = fixture_app();
    let mut viewed = app.viewed();
    viewed.nodes = (0..70).flat_map(|_| app.nodes().into_iter().take(1)).collect();
    let info = collect_marks(&Ok(viewed), &mut blank());
    assert_eq!(info.entries.len(), MAX_MARKS);
    assert_eq!(info.truncated, 10);
    assert!(info.elements.expect("references").get("e61").is_none());
}

fn reading() -> Reading {
    Reading::new(
        compux::desktop::TargetApp {
            pid: FIXTURE_PID,
            app: "Fixture".to_string(),
        },
        Some(STARTED_AT),
    )
}

fn walk(found: Vec<ViewNode>, total: usize) -> Walk {
    Walk {
        found,
        total,
        truncated: None,
    }
}

#[test]
fn a_walk_keeps_the_controls_inside_the_view_in_order() {
    let walked = |points: &[Option<(i32, i32)>]| {
        points
            .iter()
            .enumerate()
            .map(|(i, point)| {
                let listed = fixture_app().nodes().remove(0);
                Walked {
                    node: Node {
                        handle: i as u64,
                        ..listed.node
                    },
                    point: *point,
                    bounds: listed.bounds,
                }
            })
            .collect::<Vec<_>>()
    };
    let walk = in_view(
        walked(&[None, Some((9, 8)), None, Some((1, 2)), Some((5, 5))]),
        Some("time".to_string()),
    );
    assert_eq!(walk.total, 5);
    assert_eq!(walk.truncated.as_deref(), Some("time"));
    let kept: Vec<_> = walk.found.iter().map(|n| (n.node.handle, n.point)).collect();
    assert_eq!(kept, vec![(1, (9, 8)), (3, (1, 2)), (4, (5, 5))]);

    // Controls that are all elsewhere are counted, and nothing is activated.
    match reading().walked(in_view(walked(&[None, None]), None)) {
        Next::Done(viewed) => {
            assert!(viewed.nodes.is_empty());
            assert_eq!(viewed.owner, None);
            assert_eq!(
                viewed.note.as_deref(),
                Some("Fixture: 2 interactive element(s) in the app, none inside this view")
            );
        }
        other => panic!("{other:?}"),
    }
    assert!(matches!(
        reading().walked(in_view(Vec::new(), None)),
        Next::Activate
    ));
}

#[test]
fn a_tree_that_is_there_is_read_once() {
    match reading().walked(walk(fixture_app().nodes(), 2)) {
        Next::Done(viewed) => {
            assert_eq!(viewed.nodes.len(), 2);
            assert_eq!(viewed.owner, Some((FIXTURE_PID, STARTED_AT)));
            assert_eq!(viewed.note.as_deref(), Some("read Fixture"));
        }
        other => panic!("{other:?}"),
    }
    match reading().walked(walk(Vec::new(), 3)) {
        Next::Done(viewed) => {
            assert!(viewed.nodes.is_empty());
            assert_eq!(
                viewed.note.as_deref(),
                Some("Fixture: 3 interactive element(s) in the app, none inside this view")
            );
        }
        other => panic!("{other:?}"),
    }
}

#[test]
fn a_tree_that_comes_late_is_waited_for() {
    let mut late = reading();
    assert!(matches!(late.walked(walk(Vec::new(), 0)), Next::Activate));
    assert!(matches!(
        late.activated(Ok("AXManualAccessibility".to_string())),
        Next::Wait(AX_SETTLE_POLL_MS)
    ));
    assert!(matches!(
        late.walked(walk(Vec::new(), 0)),
        Next::Wait(AX_SETTLE_POLL_MS)
    ));
    match late.walked(walk(fixture_app().nodes(), 2)) {
        Next::Done(viewed) => assert_eq!(
            viewed.note.as_deref(),
            Some("Fixture: tree appeared after 600ms (AXManualAccessibility activated)")
        ),
        other => panic!("{other:?}"),
    }
    match late.walked(walk(Vec::new(), 4)) {
        Next::Done(viewed) => assert_eq!(
            viewed.note.as_deref(),
            Some(
                "Fixture: tree appeared after 600ms (AXManualAccessibility activated), but its \
                 4 element(s) are outside this view"
            )
        ),
        other => panic!("{other:?}"),
    }
}

#[test]
fn a_tree_that_never_comes_is_given_up() {
    let mut never = reading();
    let mut next = never.walked(walk(Vec::new(), 0));
    let mut waits = 0;
    loop {
        match next {
            Next::Activate => next = never.activated(Err("AXError -25205".to_string())),
            Next::Wait(ms) => {
                assert_eq!(ms, AX_SETTLE_POLL_MS);
                waits += 1;
                next = never.walked(walk(Vec::new(), 0));
            }
            Next::Done(viewed) => {
                assert_eq!(
                    viewed.note.as_deref(),
                    Some(
                        "Fixture: no accessibility elements — activation refused: AXError \
                         -25205; tree still empty after 1500ms"
                    )
                );
                break;
            }
        }
    }
    assert_eq!(waits, AX_SETTLE_POLLS);
    assert_eq!(
        reading().cancelled().note.as_deref(),
        Some("Fixture: cancelled while the tree settled")
    );
    assert_eq!(attempt_note(&Err("no".to_string())), "activation refused: no");
}
