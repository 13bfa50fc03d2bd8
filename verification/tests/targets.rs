use compux::geometry::{Geometry, MonitorFacts, Region};
use compux::observation::{Kind, Observation};
use compux::target::{
    as_failure, ax_root, bind_accessibility, children, control_surface, first_frame,
    front_is_target, live, methods, needs_control_surface, restarted, select, selected_payload,
    transform, unmoved, unobstructed, AxBinding, AxWindow, Badge, FirstLook, Heard, Live,
    LiveHeard, LiveQuestion, Liveness, Look, Question, Selecting, Selection, Surface, Target,
    TargetFrames,
};
use compux::window_frames::{FrameError, Health, StreamWindow, WindowFrame};
use compux::window_server::{Bounds, WindowFacts};
use serde_json::Value;

fn points(n: f64) -> i64 {
    (n * 1_000_000.0).round() as i64
}

fn at(x: f64, y: f64, w: f64, h: f64) -> Bounds {
    Bounds {
        x: points(x),
        y: points(y),
        w: points(w),
        h: points(h),
    }
}

fn window(id: u32, pid: i32, bounds: Bounds) -> WindowFacts {
    WindowFacts {
        id,
        pid,
        app: format!("App{pid}"),
        title: format!("Window {id}"),
        bounds,
        layer: 0,
        on_screen: true,
    }
}

fn facts() -> MonitorFacts {
    MonitorFacts {
        x: 0,
        y: 0,
        width: 1920,
        height: 1080,
        scale_factor: points(2.0),
    }
}

/// A frame of a window `w` x `h` points, captured at `scale` pixels a point.
fn frame(w: f64, h: f64, scale: f32, seq: u64) -> WindowFrame {
    WindowFrame {
        pixels: Vec::new(),
        width: (w * f64::from(scale)) as u32,
        height: (h * f64::from(scale)) as u32,
        stride: (w * f64::from(scale)) as usize * 4,
        captured_at_ns: 0,
        display_time_mach: Some(0),
        seq,
        content_rect: Some(at(0.0, 0.0, w, h)),
        reported_scale: Some(points(f64::from(scale))),
        status: Health::Live,
    }
}

fn windows_at(bounds: Bounds) -> Vec<WindowFacts> {
    vec![
        window(10, 100, at(1_500.0, 800.0, 200.0, 100.0)),
        window(20, 200, bounds),
    ]
}

fn live_at(bounds: Bounds, scale: f32) -> Live {
    let w = bounds.w as f64 / 1_000_000.0;
    let h = bounds.h as f64 / 1_000_000.0;
    Live {
        window_id: 20,
        geometry: transform(&frame(w, h, scale, 1), &bounds).expect("a frame of that window"),
        display_id: 7,
        facts: facts(),
        seq: 1,
    }
}

fn observation_of(live: &Live) -> Observation {
    Observation {
        id: "7c1e-1".to_string(),
        kind: Kind::Image,
        display_id: live.display_id,
        facts: live.facts,
        geometry: live.geometry,
        region: Region {
            x: 0,
            y: 0,
            w: points(f64::from(live.geometry.phys_w)),
            h: points(f64::from(live.geometry.phys_h)),
        },
        sent_w: 100,
        sent_h: 50,
        captured_at_monotonic_ns: 0,
        frame_seq: Some(1),
        elements: None,
        view_hash: None,
    }
}

fn bound_target(started_at: u64) -> Target {
    Target {
        id: "t1".to_string(),
        generation: 1,
        window_id: 20,
        pid: 200,
        started_at,
        app: "App200".to_string(),
        title: "Window 20".to_string(),
        ax_binding: AxBinding::Unavailable,
        ax_window: None,
        siblings: vec![20],
        display_id: 7,
        facts: facts(),
        restarts: 0,
    }
}

fn heard(started_at: Option<u64>, listed: Vec<WindowFacts>) -> LiveHeard {
    let mut first = frame(800.0, 600.0, 2.0, 1);
    first.content_rect = None;
    LiveHeard {
        started_at: Some(started_at),
        listing: Some(Ok(listed)),
        frame: Some(Ok(first)),
    }
}

fn alive(answer: Liveness) -> Live {
    match answer {
        Liveness::Live(live) => live,
        other => panic!("{other:?}"),
    }
}

fn refused(answer: Liveness) -> String {
    match answer {
        Liveness::Refused(failure) => failure.code,
        other => panic!("{other:?}"),
    }
}

#[test]
fn a_window_is_mapped_from_its_own_corner() {
    let bounds = at(400.0, 300.0, 800.0, 600.0);
    let geometry = transform(&frame(800.0, 600.0, 2.0, 1), &bounds).expect("one window");
    assert_eq!(
        geometry,
        Geometry {
            phys_w: 1600,
            phys_h: 1200,
            logical_w: points(800.0),
            logical_h: points(600.0),
            origin_x: points(400.0),
            origin_y: points(300.0),
            scale_factor: points(2.0),
        }
    );
}

// The scale is measured against the frame that arrived, never read off the
// attachment that reports the display's factor.
#[test]
fn the_scale_is_measured_from_the_frame_and_not_read_off_the_attachment() {
    let bounds = at(0.0, 0.0, 800.0, 600.0);

    for scale in [1.0_f32, 2.0] {
        let mut frame = frame(800.0, 600.0, scale, 1);
        // Whatever the display claims, the surface is what it is.
        frame.reported_scale = Some(points(2.0));

        let geometry = transform(&frame, &bounds).expect("one window");
        assert_eq!(
            geometry.scale_factor,
            points(f64::from(scale)),
            "at {scale}x"
        );
        assert_eq!(geometry.phys_w, (800.0 * f64::from(scale)) as u32);
        assert_eq!(geometry.logical_w, points(800.0));
    }
}

#[test]
fn a_window_on_a_second_display_keeps_its_own_negative_origin() {
    let bounds = at(-1_920.0, -200.0, 600.0, 400.0);
    let geometry = transform(&frame(600.0, 400.0, 2.0, 1), &bounds).expect("one window");
    assert_eq!(geometry.origin_x, points(-1_920.0));
    assert_eq!(geometry.origin_y, points(-200.0));
}

// A surface whose shape is not this window's is refused with the numbers.
#[test]
fn a_surface_that_does_not_describe_the_window_is_refused_with_its_numbers() {
    let bounds = at(0.0, 0.0, 800.0, 600.0);
    let mut squashed = frame(800.0, 600.0, 2.0, 1);
    squashed.height = 900; // 2x across, 1.5x down

    let refusal = transform(&squashed, &bounds).expect_err("two scales");
    assert_eq!(refusal.code, "capture_geometry_mismatch");
    let detail = refusal.detail.unwrap_or_default();
    assert!(detail.contains("1600"), "{detail}");
    assert!(detail.contains("900"), "{detail}");
    assert_eq!(
        detail,
        "the frame is 1600x900 pixels for a window 800x600 points, which is 2.0000 pixels a \
         point across and 1.5000 down; a picture of this window cannot have two scales (the \
         display reports 2 pixels a point)"
    );
}

// A letterboxed surface maps every coordinate wrong by the size of its border.
#[test]
fn a_surface_the_content_does_not_fill_is_refused() {
    let bounds = at(0.0, 0.0, 800.0, 600.0);
    let mut inset = frame(800.0, 600.0, 2.0, 1);
    inset.content_rect = Some(at(20.0, 0.0, 760.0, 600.0));

    let refusal = transform(&inset, &bounds).expect_err("inset inside the surface");
    assert_eq!(refusal.code, "capture_geometry_mismatch");
    assert_eq!(
        refusal.detail.as_deref(),
        Some(
            "the window's content covers 760.0x600.0 points at (20.0, 0.0) of a 1600x1200 pixel \
             surface, so the picture is inset inside it and every coordinate read in it would be \
             off by that border"
        )
    );

    // A point of rounding is the same picture and is not refused.
    let mut rounded = frame(800.0, 600.0, 2.0, 1);
    rounded.content_rect = Some(at(0.0, 0.0, 799.5, 600.0));
    assert!(transform(&rounded, &bounds).is_ok());
}

#[test]
fn a_window_of_nothing_has_no_picture() {
    let refusal = transform(&frame(800.0, 600.0, 2.0, 1), &at(0.0, 0.0, 0.0, 600.0))
        .expect_err("no width");
    assert_eq!(refusal.code, "capture_geometry_mismatch");
    let empty = WindowFrame {
        width: 0,
        ..frame(800.0, 600.0, 2.0, 1)
    };
    assert!(transform(&empty, &at(0.0, 0.0, 800.0, 600.0)).is_err());
}

// The frame is the truth about its own size.
#[test]
fn the_transform_takes_its_physical_size_from_the_frame_itself() {
    let geometry = transform(&frame(801.0, 601.0, 2.0, 1), &at(0.0, 0.0, 801.0, 601.0))
        .expect("one window");

    assert_eq!(geometry.phys_w, 1602);
    assert_eq!(geometry.phys_h, 1202);
    assert_eq!(geometry.scale_factor, points(2.0));
}

// A window that moved between the screenshot and the click is never clicked
// where it used to be.
#[test]
fn a_window_that_moved_makes_the_image_it_was_read_in_stale() {
    let live = live_at(at(400.0, 300.0, 800.0, 600.0), 2.0);
    let observation = observation_of(&live);

    assert!(unmoved(&observation, &live).is_ok());

    let moved = live_at(at(420.0, 300.0, 800.0, 600.0), 2.0);
    let refusal = unmoved(&observation, &moved).expect_err("it moved");
    assert_eq!(refusal.code, "stale_observation");
    assert_eq!(refusal.detail.as_deref(), Some("geometry_changed"));
}

#[test]
fn a_moved_window_makes_a_real_request_stale_through_live() {
    let target = bound_target(77);
    let was = alive(live(
        Some(&target),
        "t1",
        &heard(Some(77), windows_at(at(0.0, 0.0, 800.0, 600.0))),
    ));
    let observation = observation_of(&was);

    let now = alive(live(
        Some(&target),
        "t1",
        &heard(Some(77), windows_at(at(300.0, 120.0, 800.0, 600.0))),
    ));
    assert_eq!(now.geometry.origin_x, points(300.0));
    assert_eq!(
        unmoved(&observation, &now).expect_err("it moved").code,
        "stale_observation"
    );
}

#[test]
fn a_window_that_resized_or_changed_scale_is_stale_too() {
    let live = live_at(at(400.0, 300.0, 800.0, 600.0), 2.0);
    let observation = observation_of(&live);

    for changed in [
        live_at(at(400.0, 300.0, 900.0, 600.0), 2.0),
        live_at(at(400.0, 300.0, 800.0, 600.0), 1.0),
        live_at(at(400.0, 300.0, 800.0, 600.0), 1.5),
    ] {
        assert!(unmoved(&observation, &changed).is_err());
    }

    // A tenth of a point is two readings of one number, not a window that moved.
    let jittered = live_at(at(400.1, 300.0, 800.0, 600.0), 2.0);
    assert!(unmoved(&observation, &jittered).is_ok());

    // Nor is a width read a tenth of a point longer over the same surface, though the
    // scale that is measured from it is another number.
    let mut wider = live_at(at(400.0, 300.0, 800.0, 600.0), 2.0);
    wider.geometry = transform(
        &frame(800.0, 600.0, 2.0, 1),
        &at(400.0, 300.0, 800.1, 600.0),
    )
    .expect("a frame of that window");
    assert_ne!(wider.geometry.scale_factor, live.geometry.scale_factor);
    assert!(unmoved(&observation, &wider).is_ok());
}

// The rule that keeps a click off somebody else's window.
#[test]
fn a_covered_point_is_refused_and_says_what_is_in_front() {
    let live = live_at(at(0.0, 0.0, 800.0, 600.0), 2.0);
    let windows = Ok(windows_at(at(0.0, 0.0, 800.0, 600.0)));

    assert!(unobstructed(&live, &windows, 400, 400).is_ok());

    let covering = Ok(vec![
        window(10, 100, at(300.0, 300.0, 200.0, 100.0)),
        window(20, 200, at(0.0, 0.0, 800.0, 600.0)),
    ]);
    let refusal = unobstructed(&live, &covering, 350, 350).expect_err("covered");
    assert_eq!(refusal.code, "target_obstructed");
    assert!(
        refusal.detail.unwrap().contains("Window 10"),
        "the refusal must name what is in front"
    );

    let elsewhere = Ok(vec![window(10, 100, at(300.0, 300.0, 200.0, 100.0))]);
    assert_eq!(
        unobstructed(&live, &elsewhere, 350, 350)
            .expect_err("gone")
            .code,
        "target_unavailable"
    );
}

// A window server that will not answer is the target being unusable.
#[test]
fn a_window_server_that_refuses_never_reads_as_nothing_in_the_way() {
    let live = live_at(at(0.0, 0.0, 800.0, 600.0), 2.0);
    let refusal = unobstructed(&live, &Err("the window server refused".to_string()), 400, 400)
        .expect_err("nothing is known");
    assert_eq!(refusal.code, "target_unavailable");
}

// A reference into a process that has quit names nothing.
#[test]
fn a_reused_pid_never_revives_a_target() {
    let target = bound_target(77);
    let desk = || windows_at(at(0.0, 0.0, 800.0, 600.0));

    alive(live(Some(&target), "t1", &heard(Some(77), desk())));
    assert_eq!(
        refused(live(Some(&target), "t1", &heard(Some(999_999), desk()))),
        "target_unavailable"
    );
    assert_eq!(
        refused(live(Some(&target), "t1", &heard(None, desk()))),
        "target_unavailable"
    );
}

#[test]
fn a_minimized_target_says_so_rather_than_answering_an_old_frame() {
    let mut listed = windows_at(at(0.0, 0.0, 800.0, 600.0));
    listed[1].on_screen = false;
    assert_eq!(
        refused(live(
            Some(&bound_target(77)),
            "t1",
            &heard(Some(77), listed)
        )),
        "target_minimized"
    );
}

#[test]
fn a_target_id_nobody_bound_is_refused_by_name() {
    let desk = || windows_at(at(0.0, 0.0, 800.0, 600.0));
    assert_eq!(
        refused(live(None, "t1", &heard(Some(77), desk()))),
        "target_unavailable"
    );
    assert_eq!(
        refused(live(
            Some(&bound_target(77)),
            "t9",
            &heard(Some(77), desk())
        )),
        "target_unavailable"
    );
}

#[test]
fn a_request_asks_for_one_thing_at_a_time() {
    let target = bound_target(77);
    let mut known = LiveHeard {
        started_at: None,
        listing: None,
        frame: None,
    };
    assert!(matches!(
        live(Some(&target), "t1", &known),
        Liveness::Ask(LiveQuestion::ProcessStart(200))
    ));
    known.started_at = Some(Some(77));
    assert!(matches!(
        live(Some(&target), "t1", &known),
        Liveness::Ask(LiveQuestion::Windows)
    ));
    known.listing = Some(Ok(windows_at(at(0.0, 0.0, 800.0, 600.0))));
    assert!(matches!(
        live(Some(&target), "t1", &known),
        Liveness::Ask(LiveQuestion::Frame)
    ));
    known.frame = Some(Err(FrameError::NotYet));
    assert_eq!(
        refused(live(Some(&target), "t1", &known)),
        "capture_unavailable"
    );
}

// Reported, never guessed at.
#[test]
fn a_sheet_the_application_opened_since_selection_is_reported_as_a_child() {
    let target = bound_target(1);
    let windows = Ok(vec![
        window(21, 200, at(100.0, 100.0, 300.0, 200.0)),
        window(20, 200, at(0.0, 0.0, 800.0, 600.0)),
        window(10, 100, at(0.0, 0.0, 200.0, 100.0)),
    ]);

    let children = children(&target, &windows).expect("the window server answered");
    assert_eq!(children.len(), 1);
    assert_eq!(children[0]["window_id"], Value::from(21));
    assert_eq!(children[0]["title"], Value::from("Window 21"));
}

#[test]
fn a_window_server_that_refuses_is_never_reported_as_no_children() {
    let target = bound_target(1);
    let refusal = children(&target, &Err("the window server refused".to_string()))
        .expect_err("nothing is known");
    assert_eq!(refusal.code, "target_unavailable");
    assert_eq!(
        refusal.detail.as_deref(),
        Some("the window server would not say what windows exist: the window server refused")
    );
}

#[test]
fn methods_offer_accessibility_only_where_a_window_was_bound() {
    assert_eq!(methods(AxBinding::Bound), vec!["foreground_hid", "ax"]);
    assert_eq!(methods(AxBinding::Ambiguous), vec!["foreground_hid"]);
    assert_eq!(methods(AxBinding::Unavailable), vec!["foreground_hid"]);
}

#[test]
fn elements_on_an_unbound_target_refuses_rather_than_walking_the_application() {
    let refusal = ax_root(&bound_target(1)).expect_err("nothing to walk from");
    assert_eq!(refusal.code, "ax_binding_unavailable");

    let mut bound = bound_target(1);
    bound.ax_window = Some(44);
    assert_eq!(ax_root(&bound).ok(), Some(44));
}

#[test]
fn front_is_target_tells_this_application_from_another() {
    let target = bound_target(1);
    let windows = Ok(vec![
        window(20, 200, at(0.0, 0.0, 800.0, 600.0)),
        window(10, 100, at(0.0, 0.0, 200.0, 100.0)),
    ]);
    assert_eq!(front_is_target(&target, &windows), Some(true));

    let elsewhere = Ok(vec![
        window(10, 100, at(0.0, 0.0, 200.0, 100.0)),
        window(20, 200, at(0.0, 0.0, 800.0, 600.0)),
    ]);
    assert_eq!(front_is_target(&target, &elsewhere), Some(false));
    assert_eq!(front_is_target(&target, &Err("no".to_string())), None);
    assert_eq!(front_is_target(&target, &Ok(vec![])), None);
}

fn ax_window(handle: u64, label: &str, bounds: Bounds) -> AxWindow {
    AxWindow {
        handle,
        label: Some(label.to_string()),
        frame: Some(bounds),
    }
}

// Exactly one of the application's windows matching, by title and frame, is
// what earns an accessibility binding.
#[test]
fn one_matching_accessibility_window_is_bound_and_offers_ax() {
    let bounds = at(0.0, 0.0, 800.0, 600.0);
    let (binding, bound) = bind_accessibility(
        &[
            ax_window(1, "Other", at(900.0, 0.0, 400.0, 300.0)),
            ax_window(2, "Window 20", bounds),
        ],
        &window(20, 200, bounds),
    );

    assert_eq!(binding, AxBinding::Bound);
    assert_eq!(bound, Some(2));
    assert_eq!(methods(binding), vec!["foreground_hid", "ax"]);
}

#[test]
fn two_identical_windows_are_ambiguous_and_offer_no_ax() {
    let bounds = at(0.0, 0.0, 800.0, 600.0);
    let (binding, bound) = bind_accessibility(
        &[
            ax_window(1, "Window 20", bounds),
            ax_window(2, "Window 20", bounds),
        ],
        &window(20, 200, bounds),
    );

    assert_eq!(binding, AxBinding::Ambiguous);
    assert!(bound.is_none());
    assert_eq!(methods(binding), vec!["foreground_hid"]);
}

#[test]
fn a_window_that_matches_by_title_alone_is_not_bound() {
    let bounds = at(0.0, 0.0, 800.0, 600.0);
    let (binding, bound) = bind_accessibility(
        &[ax_window(1, "Window 20", at(40.0, 0.0, 800.0, 600.0))],
        &window(20, 200, bounds),
    );

    assert_eq!(binding, AxBinding::Unavailable);
    assert!(bound.is_none());

    // Two points of disagreement is two readings of one rectangle, and is bound.
    assert_eq!(
        bind_accessibility(
            &[ax_window(1, "Window 20", at(1.5, 0.0, 800.0, 600.0))],
            &window(20, 200, bounds)
        )
        .0,
        AxBinding::Bound
    );
    assert_eq!(
        bind_accessibility(&[], &window(20, 200, bounds)),
        (AxBinding::Unavailable, None)
    );
}

// No badge, no working in somebody's window — and exactly one restart, after
// which the refusal stands until the target is reselected.
#[test]
fn a_badge_that_never_came_up_refuses_every_mutation_and_is_restarted_once() {
    let mut target = bound_target(1);

    // No badge at all: refused, and one restart attempted.
    assert!(matches!(
        control_surface(&mut target, Badge::Missing),
        Surface::Restart
    ));
    assert_eq!(target.restarts, 1);
    let refusal = restarted(&target, Ok(()));
    assert_eq!(refusal.code, "control_surface_unavailable");

    // Still not ready, and the refusal now stands: no second restart.
    for badge in [Badge::Starting, Badge::Gone] {
        match control_surface(&mut target, badge) {
            Surface::Refused(refusal) => {
                assert_eq!(refusal.code, "control_surface_unavailable")
            }
            other => panic!("{other:?}"),
        }
        assert_eq!(target.restarts, 1);
    }

    // Once it says it is up, the same request is admitted.
    assert!(matches!(
        control_surface(&mut target, Badge::Ready),
        Surface::Ready
    ));
}

#[test]
fn a_badge_that_would_not_come_back_says_why() {
    let refusal = restarted(&bound_target(1), Err("no such file".to_string()));
    assert!(refusal
        .detail
        .unwrap()
        .contains("inside App200 — Window 20 (no such file). Tell the user"));
}

// Only a mutation needs the badge.
#[test]
fn only_a_mutating_action_needs_the_badge() {
    for action in [
        "left_click",
        "type",
        "press",
        "set_value",
        "scroll",
        "mouse_move",
    ] {
        assert!(needs_control_surface(action), "{action}");
    }
    for action in ["screenshot", "elements", "inspect"] {
        assert!(!needs_control_surface(action), "{action}");
    }
}

fn selecting() -> Selecting {
    Selecting {
        window_id: 20,
        generation: 3,
        id: "t3".to_string(),
        display_id: 7,
        facts: facts(),
    }
}

fn nothing_heard() -> Heard {
    Heard {
        listing: None,
        started_at: None,
        stream: None,
        first: None,
        indicator: None,
        accessibility: None,
    }
}

#[test]
fn a_selection_asks_in_the_order_a_failure_costs_least() {
    let bounds = at(0.0, 0.0, 800.0, 600.0);
    let mut known = nothing_heard();
    let asked = |known: &Heard| match select(&selecting(), known) {
        Selection::Ask(question) => question,
        other => panic!("{other:?}"),
    };

    assert_eq!(asked(&known), Question::Windows);
    known.listing = Some(Ok(windows_at(bounds)));
    assert_eq!(asked(&known), Question::ProcessStart(200));
    known.started_at = Some(Some(77));
    assert_eq!(
        asked(&known),
        Question::Stream(StreamWindow {
            id: 20,
            width: 1600,
            height: 1200
        })
    );
    known.stream = Some(Ok(()));
    assert_eq!(asked(&known), Question::FirstFrame);
    known.first = Some(Ok(frame(800.0, 600.0, 2.0, 1)));
    assert_eq!(asked(&known), Question::Indicator);
    known.indicator = Some(Ok(()));
    assert_eq!(asked(&known), Question::AccessibilityWindows(200));
    known.accessibility = Some(vec![ax_window(5, "Window 20", bounds)]);

    let Selection::Bound(target, geometry) = select(&selecting(), &known) else {
        panic!("everything is known");
    };
    assert_eq!(target.id, "t3");
    assert_eq!(target.pid, 200);
    assert_eq!(target.started_at, 77);
    assert_eq!(target.siblings, vec![20]);
    assert_eq!(target.ax_binding, AxBinding::Bound);
    assert_eq!(target.ax_window, Some(5));
    assert_eq!(target.restarts, 0);
    assert_eq!(geometry.scale_factor, points(2.0));

    let payload = selected_payload(&target);
    assert_eq!(payload["ok"], Value::from(true));
    assert_eq!(payload["target_id"], Value::from("t3"));
    assert_eq!(payload["target_generation"], Value::from(3));
    assert_eq!(payload["window_id"], Value::from(20));
    assert_eq!(payload["methods"], Value::from(vec!["foreground_hid", "ax"]));
    assert_eq!(payload["ax_binding"], Value::from("bound"));
}

#[test]
fn a_selection_that_is_refused_says_which_part_refused_it() {
    let code = |known: &Heard| match select(&selecting(), known) {
        Selection::Refused(failure) => failure.code,
        other => panic!("{other:?}"),
    };
    let bounds = at(0.0, 0.0, 800.0, 600.0);

    let mut known = nothing_heard();
    known.listing = Some(Err("refused".to_string()));
    assert_eq!(code(&known), "target_unavailable");
    known.listing = Some(Ok(vec![]));
    assert_eq!(code(&known), "target_unavailable");
    let mut minimized = windows_at(bounds);
    minimized[1].on_screen = false;
    known.listing = Some(Ok(minimized));
    assert_eq!(code(&known), "target_minimized");

    known.listing = Some(Ok(windows_at(bounds)));
    known.started_at = Some(None);
    assert_eq!(code(&known), "target_unavailable");
    known.started_at = Some(Some(77));
    known.stream = Some(Err(FrameError::Denied("no grant".to_string())));
    assert_eq!(code(&known), "screen_recording_not_granted");
    known.stream = Some(Ok(()));
    known.first = Some(Err(as_failure(FrameError::NotYet)));
    assert_eq!(code(&known), "capture_unavailable");
    known.first = Some(Ok(frame(400.0, 600.0, 2.0, 1)));
    assert_eq!(code(&known), "capture_geometry_mismatch");
    known.first = Some(Ok(frame(800.0, 600.0, 2.0, 1)));
    known.indicator = Some(Err("no binary".to_string()));
    assert!(known.accessibility.is_none(), "no accessibility window was read");
    assert_eq!(code(&known), "control_surface_unavailable");
}

#[test]
fn a_surface_is_asked_for_at_no_pixel_less_than_the_window_covers() {
    let mut known = nothing_heard();
    known.listing = Some(Ok(windows_at(at(0.0, 0.0, 100.25, 0.0))));
    known.started_at = Some(Some(1));
    let Selection::Ask(Question::Stream(asked)) = select(&selecting(), &known) else {
        panic!("the stream is next");
    };
    assert_eq!((asked.width, asked.height), (201, 1));

    let unscaled = Selecting {
        facts: MonitorFacts {
            scale_factor: 0,
            ..facts()
        },
        ..selecting()
    };
    let Selection::Ask(Question::Stream(asked)) = select(&unscaled, &known) else {
        panic!("the stream is next");
    };
    assert_eq!(asked.width, 101, "a display with no scale is taken at one");
}

#[test]
fn a_wait_for_a_frame_is_bounded() {
    let deadline = TargetFrames::deadline(1_000);
    assert_eq!(deadline, 1_400);
    assert!(matches!(
        TargetFrames::newest(Err(FrameError::NotYet), 1_399, deadline),
        Look::Again(10)
    ));
    assert!(matches!(
        TargetFrames::newest(Err(FrameError::NotYet), 1_400, deadline),
        Look::Answer(Err(FrameError::NotYet))
    ));
    assert!(matches!(
        TargetFrames::newest(Ok(frame(8.0, 6.0, 1.0, 4)), 1_000, deadline),
        Look::Answer(Ok(_))
    ));

    assert!(matches!(
        first_frame(Ok(frame(8.0, 6.0, 1.0, 4)), 0, 10),
        FirstLook::Frame(_)
    ));
    assert!(matches!(
        first_frame(Err(FrameError::NotYet), 9, 10),
        FirstLook::Again(10)
    ));
    match first_frame(Err(FrameError::NotYet), 10, 10) {
        FirstLook::Refused(failure) => assert_eq!(failure.code, "capture_unavailable"),
        other => panic!("{other:?}"),
    }
    match first_frame(Err(FrameError::Minimized("away".to_string())), 0, 10) {
        FirstLook::Refused(failure) => assert_eq!(failure.code, "target_minimized"),
        other => panic!("{other:?}"),
    }
}

#[test]
fn a_fence_is_armed_and_disarmed() {
    let mut frames = TargetFrames::new();
    assert!(frames.fence.is_none());
    frames.arm(500, 3);
    assert_eq!(
        frames.fence.map(|fence| (fence.after_mach, fence.beyond_seq)),
        Some((500, 3))
    );
    frames.disarm();
    assert!(frames.fence.is_none());
}
