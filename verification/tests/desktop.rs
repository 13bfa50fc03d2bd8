use compux::desktop::{
    elements_unsupported, front_to_back, logical_bounds_to_region, overlap_area, select_target,
    view_target, window_candidates, window_entries, windows, Candidate, TargetApp, WindowReading,
    MAX_WINDOWS,
};
use compux::geometry::{Geometry, Region};
use serde_json::Value;

fn px(n: f64) -> i64 {
    (n * 1_000_000.0).round() as i64
}

fn rect(x: f64, y: f64, w: f64, h: f64) -> Region {
    Region {
        x: px(x),
        y: px(y),
        w: px(w),
        h: px(h),
    }
}

/// The display the window listing exists for: 3840x1080 at 1x.
fn ultrawide_geom() -> Geometry {
    Geometry {
        phys_w: 3840,
        phys_h: 1080,
        logical_w: px(3840.0),
        logical_h: px(1080.0),
        origin_x: 0,
        origin_y: 0,
        scale_factor: 1_000_000,
    }
}

/// Sent pixels to the point of that display's whole picture, 1931x543.
const SENT_SCALE: i64 = 502_844;

fn full_of_ultrawide() -> Region {
    rect(0.0, 0.0, 1931.0, 543.0)
}

fn points(region: &Region) -> (f64, f64, f64, f64) {
    (
        region.x as f64 / 1e6,
        region.y as f64 / 1e6,
        region.w as f64 / 1e6,
        region.h as f64 / 1e6,
    )
}

#[test]
fn window_bounds_become_a_region_in_sent_space() {
    let g = ultrawide_geom();
    let full = full_of_ultrawide();
    let r = logical_bounds_to_region(&g, &full, SENT_SCALE, &rect(400.0, 60.0, 1600.0, 1000.0))
        .expect("on screen");

    let k = SENT_SCALE as f64 / 1e6;
    let (x, y, w, h) = points(&r);
    assert!((x - 400.0 * k).abs() < 1.0, "x: {x}");
    assert!((y - 60.0 * k).abs() < 1.0, "y: {y}");
    assert!((w - 1600.0 * k).abs() < 1.0, "w: {w}");
    assert!((h - 1000.0 * k).abs() < 1.0, "h: {h}");
    assert_eq!(r.x, 201_137_600, "exact to the millionth");
}

#[test]
fn a_window_is_clipped_to_the_display_it_overlaps() {
    let g = ultrawide_geom();
    let full = full_of_ultrawide();
    // Straddles the left edge: half of it lies off this display.
    let r = logical_bounds_to_region(&g, &full, SENT_SCALE, &rect(-500.0, 0.0, 1000.0, 400.0))
        .expect("overlaps");

    assert!(r.x >= full.x, "clipped left edge: {}", r.x);
    assert!(r.x + r.w <= full.x + full.w + 1_000_000, "within the sent image");
    let w = r.w as f64 / 1e6;
    assert!((w - 500.0 * SENT_SCALE as f64 / 1e6).abs() < 1.0, "w: {w}");
}

#[test]
fn an_offscreen_or_degenerate_window_is_not_listed() {
    let g = ultrawide_geom();
    let full = full_of_ultrawide();

    assert!(
        logical_bounds_to_region(&g, &full, SENT_SCALE, &rect(0.0, 0.0, 0.0, 500.0)).is_none(),
        "zero-width window"
    );
    assert!(
        logical_bounds_to_region(&g, &full, SENT_SCALE, &rect(9000.0, 0.0, 800.0, 600.0)).is_none(),
        "entirely to the right of this display"
    );
}

fn candidate(x: f64, y: f64, w: f64, h: f64, pid: i32, app: &str) -> Candidate {
    Candidate {
        bounds: rect(x, y, w, h),
        target: TargetApp {
            pid,
            app: app.to_string(),
        },
    }
}

// Stacking decides between windows that cover enough, and a small panel is never
// enough.
#[test]
fn select_target_prefers_the_frontmost_substantial_window() {
    let full = rect(0.0, 0.0, 1931.0, 543.0);
    // Front to back: tiny voice panel, focused Chrome, maximized Slack.
    let candidates = vec![
        candidate(1700.0, 400.0, 120.0, 90.0, 10, "FermixPet"),
        candidate(0.0, 16.0, 823.0, 481.0, 20, "Google Chrome"),
        candidate(0.0, 0.0, 1931.0, 543.0, 30, "Slack"),
    ];

    let chosen = select_target(&candidates, &full).expect("a target");
    assert_eq!(chosen.app, "Google Chrome");
}

#[test]
fn select_target_ignores_a_small_panel_over_the_region() {
    let request = rect(0.0, 16.0, 823.0, 481.0);
    let candidates = vec![
        candidate(600.0, 300.0, 120.0, 90.0, 10, "FermixPet"),
        candidate(0.0, 16.0, 823.0, 481.0, 20, "Google Chrome"),
    ];

    let chosen = select_target(&candidates, &request).expect("a target");
    assert_eq!(chosen.app, "Google Chrome");
}

#[test]
fn select_target_falls_to_max_overlap_below_the_floor() {
    let full = rect(0.0, 0.0, 1931.0, 543.0);
    let candidates = vec![
        candidate(100.0, 100.0, 80.0, 60.0, 10, "Tiny"),
        candidate(400.0, 200.0, 300.0, 150.0, 20, "MiniPlayer"),
    ];
    let chosen = select_target(&candidates, &full).expect("a target");
    assert_eq!(chosen.app, "MiniPlayer");

    let tied = vec![
        candidate(0.0, 0.0, 100.0, 100.0, 1, "Front"),
        candidate(500.0, 0.0, 100.0, 100.0, 2, "Back"),
    ];
    let chosen = select_target(&tied, &full).expect("a target");
    assert_eq!(chosen.app, "Front", "an exact tie keeps the frontmost");
}

#[test]
fn select_target_is_none_without_overlap() {
    let request = rect(0.0, 0.0, 400.0, 300.0);
    let candidates = vec![candidate(1500.0, 400.0, 200.0, 100.0, 10, "Elsewhere")];
    assert!(select_target(&candidates, &request).is_none());
    assert!(select_target(&Vec::new(), &request).is_none());
}

/// An area in whole pixels.
const PIXEL: i128 = 1_000_000_000_000;

#[test]
fn overlap_area_geometry() {
    let a = rect(0.0, 0.0, 10.0, 10.0);
    let inside = rect(2.0, 2.0, 4.0, 4.0);
    let disjoint = rect(20.0, 0.0, 5.0, 5.0);
    let partial = rect(5.0, 5.0, 10.0, 10.0);

    assert_eq!(overlap_area(&a, &inside), 16 * PIXEL);
    assert_eq!(overlap_area(&a, &disjoint), 0);
    assert_eq!(overlap_area(&a, &partial), 25 * PIXEL);
}

// A tenth of the view is enough, and a millionth of a pixel less is not.
#[test]
fn a_tenth_of_the_view_is_enough() {
    let view = rect(0.0, 0.0, 100.0, 100.0);
    let behind = || candidate(0.0, 0.0, 100.0, 100.0, 2, "Behind");
    let enough = vec![candidate(0.0, 0.0, 10.0, 100.0, 1, "Front"), behind()];
    assert_eq!(select_target(&enough, &view).unwrap().app, "Front");
    let mut short = vec![candidate(0.0, 0.0, 10.0, 100.0, 1, "Front"), behind()];
    short[0].bounds.w -= 1;
    assert_eq!(select_target(&short, &view).unwrap().app, "Behind");
}

#[test]
fn a_view_without_a_target_says_why() {
    let view = rect(0.0, 0.0, 400.0, 300.0);
    assert_eq!(
        view_target(&Ok(Vec::new()), &view).unwrap_err(),
        "no application window to target for accessibility"
    );
    assert_eq!(
        view_target(&Err("window layer listing failed".to_string()), &view).unwrap_err(),
        "window layer listing failed"
    );
    let found = view_target(&Ok(vec![candidate(0.0, 0.0, 400.0, 300.0, 7, "App")]), &view);
    assert_eq!(found.unwrap().pid, 7);
    assert_eq!(
        elements_unsupported().code,
        "element enumeration is only supported on macOS"
    );
}

fn reading(id: u32, z: i32, x: f64, w: f64) -> WindowReading {
    WindowReading {
        id: Some(id),
        z,
        minimized: false,
        focused: id == 1,
        app: format!("App{id}"),
        title: format!("Window {id}"),
        pid: Some(100 + id),
        bounds: Some(rect(x, 0.0, w, 500.0)),
    }
}

fn listed(windows: Vec<WindowReading>, normal: Option<&Vec<u32>>) -> Vec<Value> {
    window_entries(
        windows,
        normal,
        &ultrawide_geom(),
        &full_of_ultrawide(),
        SENT_SCALE,
    )
}

fn ids(entries: &[Value]) -> Vec<u64> {
    entries
        .iter()
        .map(|entry| entry["id"].as_u64().expect("an id"))
        .collect()
}

// Front to back, and of two equally far to the front the first one listed.
#[test]
fn windows_are_listed_from_the_front() {
    let sorted = front_to_back(vec![
        reading(1, 2, 0.0, 100.0),
        reading(2, 5, 0.0, 100.0),
        reading(3, 2, 0.0, 100.0),
        reading(4, -1, 0.0, 100.0),
        reading(5, 9, 0.0, 100.0),
    ]);
    let order: Vec<u32> = sorted.iter().map(|w| w.id.unwrap()).collect();
    assert_eq!(order, vec![5, 2, 1, 3, 4]);
}

#[test]
fn a_window_nobody_works_in_is_not_listed() {
    let mut minimized = reading(1, 9, 0.0, 100.0);
    minimized.minimized = true;
    let mut unplaced = reading(2, 8, 0.0, 100.0);
    unplaced.bounds = None;
    let elsewhere = reading(3, 7, 9_000.0, 100.0);
    let dock = reading(4, 6, 0.0, 3840.0);
    let mut unnamed = reading(5, 5, 0.0, 100.0);
    unnamed.id = None;
    let kept = reading(6, 4, 0.0, 100.0);
    let all = || {
        vec![
            reading(4, 6, 0.0, 3840.0),
            reading(6, 4, 0.0, 100.0),
            reading(7, 3, 0.0, 100.0),
        ]
    };

    let entries = listed(
        vec![minimized, unplaced, elsewhere, dock, unnamed, kept],
        Some(&vec![1, 2, 3, 6]),
    );
    assert_eq!(ids(&entries), vec![0, 6], "the one with no id cannot be told apart");
    assert_eq!(ids(&listed(all(), None)), vec![4, 6, 7]);

    let mut nameless = all();
    nameless[1].pid = None;
    let found = window_candidates(
        nameless,
        None,
        &ultrawide_geom(),
        &full_of_ultrawide(),
        SENT_SCALE,
    );
    let pids: Vec<i32> = found.iter().map(|c| c.target.pid).collect();
    assert_eq!(pids, vec![104, 107]);
}

#[test]
fn a_listed_window_says_where_it_is() {
    let entries = listed(vec![reading(1, 0, 400.0, 1600.0)], None);
    assert_eq!(entries[0]["app"], Value::from("App1"));
    assert_eq!(entries[0]["title"], Value::from("Window 1"));
    assert_eq!(entries[0]["focused"], Value::from(true));
    assert_eq!(entries[0]["region"]["x"], Value::from(201));
    assert_eq!(entries[0]["region"]["y"], Value::from(0));
    assert_eq!(entries[0]["region"]["w"], Value::from(805));
    assert_eq!(entries[0]["region"]["h"], Value::from(251));
}

#[test]
fn a_listing_has_a_cap() {
    let many: Vec<WindowReading> = (0..50).map(|i| reading(i, -(i as i32), 0.0, 100.0)).collect();
    let payload = windows(listed(many, None));
    assert_eq!(payload["ok"], Value::from(true));
    let kept = payload["windows"].as_array().expect("a list");
    assert_eq!(kept.len(), MAX_WINDOWS);
    assert_eq!(ids(kept)[39], 39);
}
