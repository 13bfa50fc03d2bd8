use compux::geometry::{CropRect, Geometry, MonitorFacts, Region};
use compux::observation::{Kind, Observation, ViewHash};
use compux::picture::Picture;
use compux::view::{
    changed_since, check_quality, crop_bounds, crop_out, same_rect, stored_baseline, view_hash,
    Settling, Waiting, CHECK_JPEG_QUALITY, MAX_SETTLE_SAMPLES, SETTLE_CAP_MS, SETTLE_MIN_POLL_MS,
    SETTLE_POLL_MS, SETTLE_QUIET_MS,
};
use compux::waiting::{change_polling, Polling, MAX_WAIT_FOR_IDLE_MS};
use compux::wire::Settle;

const CHECK_DISPLAY_W: u32 = 400;
const CHECK_DISPLAY_H: u32 = 300;

fn px(n: f64) -> i64 {
    (n * 1_000_000.0).round() as i64
}

fn shaded_size(shade: u8, w: u32, h: u32) -> Picture {
    let mut bytes = Vec::new();
    for _ in 0..w * h {
        bytes.extend_from_slice(&[shade, shade, shade, 255]);
    }
    Picture::new(w, h, bytes).expect("four bytes a pixel")
}

/// The whole display, in one shade.
fn shaded(shade: u8) -> Picture {
    shaded_size(shade, CHECK_DISPLAY_W, CHECK_DISPLAY_H)
}

fn shade_at(img: &Picture, x: u32, y: u32) -> u8 {
    img.bytes()[4 * (y as usize * img.width() as usize + x as usize)]
}

/// On a one-to-one display a rectangle of the sent picture is that rectangle of the
/// captured one.
fn crop_of(x: f64, y: f64, w: f64, h: f64) -> CropRect {
    CropRect {
        left_phys: px(x),
        top_phys: px(y),
        w_phys: px(w),
        h_phys: px(h),
    }
}

fn full() -> CropRect {
    crop_of(0.0, 0.0, CHECK_DISPLAY_W as f64, CHECK_DISPLAY_H as f64)
}

fn region(x: f64, y: f64, w: f64, h: f64) -> Region {
    Region {
        x: px(x),
        y: px(y),
        w: px(w),
        h: px(h),
    }
}

/// A clock and a screen a test writes down, frame by frame: each look answers the next
/// shade and the last one repeats, and each costs the clock what a real one would.
struct ScriptedScreen {
    shades: Vec<u8>,
    taken: usize,
    cost_ms: u64,
    now: u64,
    slept: u64,
}

impl ScriptedScreen {
    fn new(shades: &[u8], cost_ms: u64) -> ScriptedScreen {
        ScriptedScreen {
            shades: shades.to_vec(),
            taken: 0,
            cost_ms,
            now: 0,
            slept: 0,
        }
    }

    fn capture(&mut self) -> Picture {
        let shade = self.shades[self.taken.min(self.shades.len() - 1)];
        self.taken += 1;
        self.now += self.cost_ms;
        shaded(shade)
    }

    /// Watches until the view settles: the frame it stopped on, its hash, and how.
    fn settle(
        &mut self,
        input_completed_at: Option<u64>,
        before: Option<ViewHash>,
    ) -> (Picture, ViewHash, Settle) {
        let mut settling = Settling::new(self.now, input_completed_at, before);
        loop {
            if let Some(ms) = settling.pause(self.now) {
                self.now += ms;
                self.slept += ms;
            }
            settling.look(self.now);
            let frame = self.capture();
            let hash = view_hash(&frame, &full());
            if let Some(settle) = settling.judge(hash, self.now) {
                return (frame, hash, settle);
            }
        }
    }
}

// The sample that proved the view stable is the one that is kept, and nothing is
// captured after it.
#[test]
fn a_settle_keeps_the_frame_that_proved_the_view_stable() {
    // Moving, moving, then two looks that agree.
    let mut screen = ScriptedScreen::new(&[10, 20, 30, 30, 40], 0);
    let (frame, _, settle) = screen.settle(None, None);

    assert_eq!(settle, Settle::Stable);
    assert_eq!(screen.taken, 4, "it stopped on the look that agreed");
    assert_eq!(
        shade_at(&frame, 1, 1),
        30,
        "the frame kept is the one that proved it, not a fresh one"
    );
}

#[test]
fn a_view_that_never_settles_ends_at_the_sample_cap() {
    let shades: Vec<u8> = (0..60).collect();
    let mut screen = ScriptedScreen::new(&shades, 0);
    let (_, _, settle) = screen.settle(None, None);

    assert_eq!(settle, Settle::Timeout);
    assert_eq!(screen.taken, MAX_SETTLE_SAMPLES as usize);
}

// Both caps bind.
#[test]
fn a_settle_whose_looks_are_slow_ends_at_the_wall_clock_cap() {
    let shades: Vec<u8> = (0..60).collect();
    let mut screen = ScriptedScreen::new(&shades, 400);
    let (_, _, settle) = screen.settle(None, None);

    assert_eq!(settle, Settle::Timeout);
    assert!(
        screen.taken < MAX_SETTLE_SAMPLES as usize,
        "the clock ran out first, after {} looks",
        screen.taken
    );
    assert!(screen.now >= SETTLE_CAP_MS);
}

// The floor between two looks is not a delay added to each: a slow look is not slept
// on top of.
#[test]
fn a_slow_look_is_not_slept_on_top_of() {
    for (cost, expected) in [(0, SETTLE_POLL_MS), (400, SETTLE_MIN_POLL_MS)] {
        let mut screen = ScriptedScreen::new(&[10, 20, 20], cost);
        screen.settle(Some(0), None);

        assert_eq!(screen.taken, 3, "cost {cost}");
        assert_eq!(screen.slept, 2 * expected, "cost {cost}: two gaps");
    }

    let mut settling = Settling::new(0, None, None);
    assert_eq!(settling.pause(0), None, "nothing before the first look");
    settling.look(0);
    assert_eq!(settling.pause(0), Some(SETTLE_POLL_MS));
    assert_eq!(settling.pause(30), Some(20));
    assert_eq!(settling.pause(200), Some(SETTLE_MIN_POLL_MS));
    settling.look(1_000);
    assert_eq!(settling.pause(999), Some(SETTLE_POLL_MS), "a clock that went back");
}

// An application that only starts repainting a look or two later hands back two equal
// samples of the view as it was before: equality alone does not settle it.
#[test]
fn a_repaint_that_starts_late_is_still_the_frame_that_comes_back() {
    let before = view_hash(&shaded(10), &full());
    // Two looks at the view as it was, then the repaint.
    let mut screen = ScriptedScreen::new(&[10, 10, 200, 200], 0);
    let (frame, hash, settle) = screen.settle(Some(0), Some(before));

    assert_eq!(
        shade_at(&frame, 1, 1),
        200,
        "the repainted view, not the old one"
    );
    assert_eq!(screen.taken, 4);
    assert_eq!(settle, Settle::Stable);
    assert_eq!(changed_since(Some(before), hash), Some(true));
}

#[test]
fn a_change_already_seen_settles_without_waiting_out_the_quiet_window() {
    let before = view_hash(&shaded(10), &full());
    let mut screen = ScriptedScreen::new(&[200, 200], 0);
    let (_, _, settle) = screen.settle(Some(0), Some(before));

    assert_eq!(settle, Settle::Stable);
    assert_eq!(screen.taken, 2);
    assert!(screen.now < SETTLE_QUIET_MS);
}

#[test]
fn a_view_that_never_changes_is_quiet_before_it_is_called_stable() {
    let before = view_hash(&shaded(10), &full());
    let mut screen = ScriptedScreen::new(&[10, 10, 10, 10, 10, 10, 10, 10], 0);
    let (_, hash, settle) = screen.settle(Some(0), Some(before));

    assert_eq!(settle, Settle::Stable);
    assert!(screen.now >= SETTLE_QUIET_MS, "after {} ms", screen.now);
    assert_eq!(changed_since(Some(before), hash), Some(false));
}

// A settle measures from the picture that was acted in only where the two can be
// compared; a listing has no picture at all.
#[test]
fn a_view_that_cannot_be_compared_is_measured_from_its_first_look() {
    let elsewhere = view_hash(&shaded(200), &crop_of(0.0, 0.0, 120.0, 90.0));
    let mut screen = ScriptedScreen::new(&[10, 10], 0);
    let (_, hash, _) = screen.settle(Some(0), Some(elsewhere));
    assert!(screen.now >= SETTLE_QUIET_MS, "no change was seen");
    assert_eq!(changed_since(Some(elsewhere), hash), None);
    assert_eq!(changed_since(None, hash), None);
}

/// Waits for the view to change: the frame it ended on, and whether it changed.
fn wait_for_change(
    screen: &mut ScriptedScreen,
    baseline: Option<ViewHash>,
    timeout_ms: u64,
    poll_ms: u64,
) -> (Picture, bool) {
    let baseline = match baseline {
        Some(hash) => hash,
        None => view_hash(&screen.capture(), &full()),
    };
    let polling = Polling {
        timeout_ms,
        poll_ms,
    };
    let waiting = Waiting::new(baseline, screen.now, polling);
    loop {
        screen.now += waiting.nap(screen.now);
        let frame = screen.capture();
        if let Some(changed) = waiting.polled(view_hash(&frame, &full()), screen.now) {
            return (frame, changed);
        }
    }
}

#[test]
fn a_wait_returns_the_frame_whose_hash_differed_and_takes_no_third_look() {
    let mut screen = ScriptedScreen::new(&[10, 10, 200, 90], 0);
    let (frame, changed) = wait_for_change(&mut screen, None, 10_000, 50);

    assert!(changed);
    assert_eq!(
        screen.taken, 3,
        "the baseline, one look, and the one that differed"
    );
    assert_eq!(shade_at(&frame, 1, 1), 200, "the frame that satisfied the wait");
}

#[test]
fn a_wait_that_times_out_returns_its_last_sample() {
    let mut screen = ScriptedScreen::new(&[10], 0);
    let (frame, changed) = wait_for_change(&mut screen, None, 1, 50);

    assert!(!changed);
    assert_eq!(shade_at(&frame, 1, 1), 10);
}

fn image_of(shade: u8, region: Region) -> Observation {
    Observation {
        id: "7c1e-1".to_string(),
        kind: Kind::Image,
        display_id: 424_242,
        facts: MonitorFacts {
            x: 0,
            y: 0,
            width: CHECK_DISPLAY_W,
            height: CHECK_DISPLAY_H,
            scale_factor: 1_000_000,
        },
        geometry: Geometry {
            phys_w: CHECK_DISPLAY_W,
            phys_h: CHECK_DISPLAY_H,
            logical_w: px(CHECK_DISPLAY_W as f64),
            logical_h: px(CHECK_DISPLAY_H as f64),
            origin_x: 0,
            origin_y: 0,
            scale_factor: 1_000_000,
        },
        region,
        sent_w: CHECK_DISPLAY_W,
        sent_h: CHECK_DISPLAY_H,
        captured_at_monotonic_ns: 0,
        frame_seq: Some(1),
        elements: None,
        view_hash: Some(view_hash(&shaded(shade), &full())),
    }
}

// The baseline is the hash kept with the image the caller named.
#[test]
fn a_wait_compares_against_the_image_the_caller_named() {
    let whole = region(0.0, 0.0, 400.0, 300.0);
    let seen = image_of(10, whole);
    let baseline = stored_baseline(Some(&seen), &whole);
    assert_eq!(baseline, seen.view_hash);

    let mut screen = ScriptedScreen::new(&[200], 0);
    let (_, changed) = wait_for_change(&mut screen, baseline, 10_000, 50);
    assert!(changed);
    assert_eq!(
        screen.taken, 1,
        "the remembered hash is the baseline: one look answered the wait"
    );

    // Another rectangle of it is another question, and so is no image at all.
    let other = region(0.0, 0.0, 200.0, 300.0);
    assert_eq!(stored_baseline(Some(&seen), &other), None);
    assert_eq!(stored_baseline(None, &whole), None);
}

#[test]
fn one_pixel_flips_the_hash_and_an_identical_frame_does_not() {
    let frame = shaded(10);
    let crop = full();
    assert_eq!(view_hash(&frame, &crop), view_hash(&shaded(10), &crop));

    let mut nudged = shaded(10);
    nudged.put(213, 117, [11, 10, 10, 255]);
    assert_ne!(
        view_hash(&frame, &crop).pixels,
        view_hash(&nudged, &crop).pixels
    );
}

#[test]
fn a_hash_reads_its_own_rectangle_and_nothing_around_it() {
    let crop = crop_of(100.0, 60.0, 120.0, 90.0);
    let frame = shaded(10);

    let mut outside = shaded(10);
    outside.put(99, 60, [200, 0, 0, 255]);
    outside.put(220, 100, [200, 0, 0, 255]);
    outside.put(150, 150, [200, 0, 0, 255]);
    assert_eq!(view_hash(&frame, &crop), view_hash(&outside, &crop));

    let mut inside = shaded(10);
    inside.put(219, 149, [200, 0, 0, 255]);
    assert_ne!(
        view_hash(&frame, &crop).pixels,
        view_hash(&inside, &crop).pixels
    );
}

// Two hashes of different rectangles, or of pictures of different sizes, say nothing
// about each other.
#[test]
fn hashes_of_different_rectangles_are_not_comparable() {
    let frame = shaded(10);
    let whole = view_hash(&frame, &full());
    let part = view_hash(&frame, &crop_of(0.0, 0.0, 120.0, 90.0));
    assert_eq!(part.changed_from(&whole), None);
    assert_eq!(whole.changed_from(&whole), Some(false));
    assert_eq!(
        view_hash(&shaded(11), &full()).changed_from(&whole),
        Some(true)
    );

    let larger = shaded_size(10, CHECK_DISPLAY_W * 2, CHECK_DISPLAY_H * 2);
    let rescaled = view_hash(&larger, &full());
    assert_eq!(rescaled.changed_from(&whole), None);

    // To a wait, what cannot be compared has changed.
    let polling = Polling {
        timeout_ms: 1_000,
        poll_ms: 250,
    };
    let waiting = Waiting::new(whole, 0, polling);
    assert_eq!(waiting.polled(rescaled, 1), Some(true));
    assert_eq!(waiting.polled(whole, 999), None);
    assert_eq!(waiting.polled(whole, 1_000), Some(false));
}

#[test]
fn a_crop_is_whole_pixels_inside_the_picture() {
    let frame = shaded(10);
    assert_eq!(
        crop_bounds(&frame, &crop_of(10.4, 20.5, 30.5, 0.2)),
        (10, 21, 31, 1)
    );
    assert_eq!(
        crop_bounds(&frame, &crop_of(-5.0, -5.0, 1_000.0, 1_000.0)),
        (0, 0, 400, 300)
    );
    assert_eq!(
        crop_bounds(&frame, &crop_of(9_000.0, 9_000.0, 5.0, 5.0)),
        (399, 299, 1, 1)
    );
    let nothing = Picture::new(0, 0, Vec::new()).expect("a picture of nothing");
    assert_eq!(crop_bounds(&nothing, &full()), (0, 0, 0, 0));
}

#[test]
fn a_cut_shows_what_was_there() {
    let mut frame = shaded(10);
    frame.put(100, 60, [1, 2, 3, 4]);
    frame.put(219, 149, [5, 6, 7, 8]);
    let cut = crop_out(&frame, &crop_of(100.0, 60.0, 120.0, 90.0));
    assert_eq!((cut.width(), cut.height()), (120, 90));
    assert_eq!(cut.bytes()[..4], [1, 2, 3, 4]);
    assert_eq!(cut.bytes()[cut.bytes().len() - 4..], [5, 6, 7, 8]);
    assert_eq!(shade_at(&cut, 1, 0), 10);
}

#[test]
fn the_whole_display_is_kept_without_loss() {
    let whole = region(0.0, 0.0, 400.0, 300.0);
    assert_eq!(check_quality(&region(0.4, -0.4, 399.6, 300.4), &whole), None);
    assert_eq!(
        check_quality(&region(100.0, 60.0, 120.0, 90.0), &whole),
        Some(CHECK_JPEG_QUALITY)
    );
    assert_eq!(CHECK_JPEG_QUALITY, 85);
    assert!(!same_rect(&whole, &region(0.0, 0.0, 400.5, 300.0)));
}

// No one argument holds a wait past its bound, however long it asks to sleep.
#[test]
fn a_wait_never_naps_past_its_deadline() {
    let req: serde_json::Value =
        serde_json::from_str(r#"{"timeout_ms": 1, "poll_ms": 600000}"#).expect("a JSON text");
    let polling = change_polling(&req);
    let waiting = Waiting::new(view_hash(&shaded(10), &full()), 500, polling);
    assert_eq!(waiting.nap(500), 1);
    assert_eq!(waiting.nap(501), 0);

    let req: serde_json::Value =
        serde_json::from_str(r#"{"timeout_ms": 90000, "poll_ms": 9000}"#).expect("a JSON text");
    let polling = change_polling(&req);
    let baseline = view_hash(&shaded(10), &full());
    let waiting = Waiting::new(baseline, 0, polling);
    let (mut now, mut slept) = (0, 0);
    while waiting.polled(baseline, now).is_none() {
        slept += waiting.nap(now);
        now += waiting.nap(now) + 3;
    }
    assert!(slept <= MAX_WAIT_FOR_IDLE_MS, "{slept}");
    assert_eq!(slept, 9_000 + 9_000 + 25_000 - 18_006);
}
