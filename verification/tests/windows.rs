use std::sync::atomic::{AtomicUsize, Ordering};
use std::sync::Mutex;

use compux::window_server::{
    children_of, find, front_window, ids_of, obstruction_at, obstruction_in, read_bounds,
    read_window, Bounds, Real, TargetMissing, WindowFacts, WindowRecord, Windows,
};

/// A length in points, in millionths.
fn points(n: f64) -> i64 {
    (n * 1_000_000.0).round() as i64
}

fn at(x: f64, y: f64, w: f64, h: f64) -> Bounds {
    Bounds {
        x: points(x),
        y: points(y),
        w: points(w),
        h: points(h),
    }
}

fn window(id: u32, pid: i32, bounds: Bounds) -> WindowFacts {
    WindowFacts {
        id,
        pid,
        app: format!("App{pid}"),
        title: format!("Window {id}"),
        bounds,
        layer: 0,
        on_screen: true,
    }
}

/// A window server a test writes down, front to back.
struct Recorder {
    listed: Mutex<Result<Vec<WindowFacts>, String>>,
    calls: AtomicUsize,
}

impl Windows for Recorder {
    fn list(&self) -> Result<Vec<WindowFacts>, String> {
        self.calls.fetch_add(1, Ordering::SeqCst);
        self.listed.lock().unwrap().clone()
    }
}

/// A desktop, front to back: a small panel in front, the target under it, and
/// a big background window under both.
fn desktop() -> Vec<WindowFacts> {
    vec![
        window(10, 100, at(200.0, 200.0, 100.0, 60.0)),
        window(20, 200, at(0.0, 0.0, 800.0, 600.0)),
        window(30, 300, at(0.0, 0.0, 1920.0, 1080.0)),
    ]
}

#[test]
fn a_point_the_target_owns_is_not_obstructed() {
    let listed = desktop();
    assert_eq!(
        obstruction_at(&listed, 20, points(400.0), points(400.0)),
        Ok(None)
    );
}

// The whole rule, at the point that proves it: a window in front of the target
// covering the place the click would land.
#[test]
fn a_window_in_front_at_that_point_obstructs_and_is_named() {
    let listed = desktop();
    let covering = obstruction_at(&listed, 20, points(250.0), points(230.0))
        .expect("the target is listed")
        .expect("the panel is in front");
    assert_eq!(covering.id, 10);
}

// Behind is not in front. The big background window contains every point the
// target does, and it obstructs none of them.
#[test]
fn a_window_behind_the_target_never_obstructs() {
    let listed = desktop();
    assert_eq!(
        obstruction_at(&listed, 20, points(10.0), points(10.0)),
        Ok(None)
    );
    assert_eq!(
        obstruction_at(&listed, 20, points(799.0), points(599.0)),
        Ok(None)
    );
}

// A target that is not in the listing is a target that is gone.
#[test]
fn a_target_that_is_not_listed_is_missing_and_never_clear() {
    let mut listed = desktop();
    listed.retain(|window| window.id != 20);

    assert_eq!(
        obstruction_at(&listed, 20, points(400.0), points(400.0)),
        Err(TargetMissing)
    );
    // The point the panel covers, which a walk to the end would have reported
    // as an ordinary obstruction rather than as a window that is gone.
    assert_eq!(
        obstruction_at(&listed, 20, points(250.0), points(230.0)),
        Err(TargetMissing)
    );

    // Off screen is the same fact: nothing can be in front of a window nobody
    // can see.
    let mut minimized = desktop();
    minimized[1].on_screen = false;
    assert_eq!(
        obstruction_at(&minimized, 20, points(400.0), points(400.0)),
        Err(TargetMissing)
    );
}

// A window that is not on screen is not in front of anything, whatever the
// list order says: a minimized panel cannot catch a click.
#[test]
fn an_off_screen_window_is_not_an_obstruction() {
    let mut listed = desktop();
    listed[0].on_screen = false;
    assert_eq!(
        obstruction_at(&listed, 20, points(250.0), points(230.0)),
        Ok(None)
    );
}

// The Dock and the menu bar are in front and a click under them lands on them,
// so they obstruct like anything else.
#[test]
fn a_shell_window_in_front_obstructs_like_any_other() {
    let mut listed = desktop();
    listed[0].layer = 20;
    let covering = obstruction_at(&listed, 20, points(250.0), points(230.0))
        .expect("the target is listed")
        .expect("the Dock is in front");
    assert_eq!(covering.layer, 20);
}

// The badge's area, not one corner point — and the badge's own windows are not
// an obstruction of the window the badge is about.
#[test]
fn an_area_hit_test_ignores_the_watcher_own_windows() {
    let mut listed = desktop();
    // The badge itself, over the target's top left, owned by pid 999.
    listed.insert(0, window(90, 999, at(0.0, -34.0, 180.0, 28.0)));

    let area = at(0.0, -34.0, 180.0, 114.0);
    assert_eq!(obstruction_in(&listed, 20, &area, Some(999)), Ok(None));

    // Without the exclusion the badge reports the window it sits on as covered.
    assert_eq!(
        obstruction_in(&listed, 20, &area, None)
            .expect("listed")
            .map(|window| window.id),
        Some(90)
    );

    // Somebody else's window over the same place is an obstruction either way.
    listed.insert(0, window(11, 400, at(100.0, 0.0, 300.0, 200.0)));
    assert_eq!(
        obstruction_in(&listed, 20, &area, Some(999))
            .expect("listed")
            .map(|window| window.id),
        Some(11)
    );
}

// A window behind the target does not cover the badge, however much of the
// badge's area it contains.
#[test]
fn a_window_behind_the_target_never_covers_the_badge_area() {
    let listed = desktop();
    let area = at(0.0, -34.0, 180.0, 114.0);

    assert_eq!(obstruction_in(&listed, 20, &area, None), Ok(None));
}

#[test]
fn two_rectangles_overlap_only_where_they_really_do() {
    let bounds = at(10.0, 20.0, 100.0, 50.0);

    assert!(bounds.intersects(&at(100.0, 60.0, 40.0, 40.0)));
    assert!(bounds.intersects(&at(0.0, 0.0, 1000.0, 1000.0)));
    // Edge to edge is not overlapping, on the same half-open rule `contains` has.
    assert!(!bounds.intersects(&at(110.0, 20.0, 10.0, 10.0)));
    assert!(!bounds.intersects(&at(10.0, 70.0, 10.0, 10.0)));
}

// Half-open, so two windows edge to edge never both own the same point.
#[test]
fn a_rectangle_owns_its_left_and_top_edges_and_not_the_others() {
    let bounds = at(10.0, 20.0, 100.0, 50.0);
    assert!(bounds.contains(points(10.0), points(20.0)));
    assert!(bounds.contains(points(109.999), points(69.999)));
    assert!(!bounds.contains(points(110.0), points(40.0)));
    assert!(!bounds.contains(points(40.0), points(70.0)));
    assert!(!bounds.contains(points(9.999), points(40.0)));
}

#[test]
fn a_frame_matches_within_the_tolerance_and_not_past_it() {
    let bounds = at(10.0, 20.0, 100.0, 50.0);
    assert!(bounds.matches(&at(11.5, 21.0, 99.0, 51.0), points(2.0)));
    assert!(!bounds.matches(&at(13.0, 20.0, 100.0, 50.0), points(2.0)));
    assert!(!bounds.matches(&at(10.0, 20.0, 104.0, 50.0), points(2.0)));
}

// A window the same application opened since the target was selected. The ones
// that were already there are not news, and the target is not its own child.
#[test]
fn a_child_is_a_window_of_the_same_application_that_appeared_since() {
    let mut listed = desktop();
    listed.insert(0, window(11, 200, at(300.0, 300.0, 200.0, 100.0)));

    let at_selection = ids_of(&desktop(), 200);
    let children = children_of(&listed, 200, 20, &at_selection);

    assert_eq!(children.len(), 1);
    assert_eq!(children[0].id, 11);

    // Another application's new window is not this target's child.
    assert!(children_of(&listed, 200, 20, &ids_of(&listed, 200)).is_empty());
}

#[test]
fn the_front_window_is_the_frontmost_ordinary_one() {
    let mut listed = desktop();
    listed.insert(
        0,
        WindowFacts {
            layer: 25,
            ..window(99, 400, at(0.0, 0.0, 1920.0, 24.0))
        },
    );

    let front = front_window(&listed).expect("something is in front");
    assert_eq!(
        front.id, 10,
        "the menu bar is not what anyone is working in"
    );
}

#[test]
fn a_refusal_is_not_an_empty_desktop() {
    let recorder = Recorder {
        listed: Mutex::new(Ok(desktop())),
        calls: AtomicUsize::new(0),
    };
    assert_eq!(recorder.list().map(|listed| listed.len()), Ok(3));

    *recorder.listed.lock().unwrap() =
        Err("the window server refused the window listing".to_string());
    assert!(recorder.list().is_err());
    assert_eq!(recorder.calls.load(Ordering::SeqCst), 2);

    assert_eq!(
        Real::new().list(),
        Err("window targeting is only supported on macOS".to_string())
    );
}

#[test]
fn a_window_is_found_by_its_own_id_and_nothing_else() {
    let listed = desktop();
    assert_eq!(find(&listed, 20).map(|window| window.pid), Some(200));
    assert_eq!(find(&listed, 21), None);
}

#[test]
fn the_farthest_corners_of_the_range_do_not_wrap() {
    let edge = Bounds {
        x: i64::MAX - 1,
        y: i64::MIN,
        w: i64::MAX,
        h: i64::MAX,
    };
    assert!(edge.contains(i64::MAX, -2));
    assert!(!edge.contains(i64::MAX, -1));
    assert!(edge.intersects(&edge));
    assert!(!edge.matches(&at(0.0, 0.0, 1.0, 1.0), i64::MAX));
}

#[test]
fn a_window_without_a_number_or_a_place_is_not_listed() {
    let record = WindowRecord {
        number: Some(71),
        pid: Some(400),
        owner: "Notes".to_string(),
        name: "Monday".to_string(),
        bounds: Some(at(10.0, 20.0, 300.0, 200.0)),
        layer: None,
        on_screen: true,
    };
    let read = read_window(record.clone()).unwrap();
    assert_eq!(read.id, 71);
    assert_eq!(read.pid, 400);
    assert_eq!(read.app, "Notes");
    assert_eq!(read.title, "Monday");
    assert_eq!(read.bounds, at(10.0, 20.0, 300.0, 200.0));
    assert_eq!(read.layer, 0);
    assert!(read.on_screen);

    let mut no_number = record.clone();
    no_number.number = None;
    assert!(read_window(no_number).is_none());
    let mut no_place = record;
    no_place.bounds = None;
    assert!(read_window(no_place).is_none());
}

#[test]
fn a_rectangle_is_read_whole_or_not_at_all() {
    let bits = |n: f64| Some(n.to_bits());
    assert_eq!(
        read_bounds(bits(-8.5), bits(24.0), bits(640.25), bits(480.0)),
        Some(at(-8.5, 24.0, 640.25, 480.0))
    );
    assert_eq!(read_bounds(None, bits(0.0), bits(1.0), bits(1.0)), None);
    assert_eq!(read_bounds(bits(0.0), bits(0.0), bits(0.0), bits(1.0)), None);
    assert_eq!(read_bounds(bits(0.0), bits(0.0), bits(1.0), bits(-0.0)), None);
    assert_eq!(read_bounds(bits(0.0), bits(0.0), bits(-1.0), bits(1.0)), None);
    assert_eq!(
        read_bounds(bits(0.0), bits(0.0), bits(f64::NAN), bits(1.0)),
        None
    );
}
