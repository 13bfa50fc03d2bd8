use compux::overlay;
use compux::picture::Picture;

fn blank(w: u32, h: u32) -> Picture {
    let mut bytes = Vec::new();
    for _ in 0..w * h {
        bytes.extend_from_slice(&[20, 20, 20, 255]);
    }
    Picture::new(w, h, bytes).expect("four bytes a pixel")
}

fn pixel(img: &Picture, x: u32, y: u32) -> [u8; 4] {
    let k = 4 * (y as usize * img.width() as usize + x as usize);
    let b = img.bytes();
    [b[k], b[k + 1], b[k + 2], b[k + 3]]
}

fn changed_pixels(img: &Picture) -> usize {
    img.bytes()
        .chunks(4)
        .filter(|p| *p != [20, 20, 20, 255])
        .count()
}

// The executed-point marker must draw at the point, clip at edges, and leave the
// picture otherwise untouched.
#[test]
fn executed_point_marker_draws_at_the_point_and_clips_at_edges() {
    let mut img = blank(200, 120);
    overlay::executed_point(&mut img, 60, 40);
    assert!(changed_pixels(&img) > 50, "marker must be visible");
    // A ring pixel at radius ~7 on the horizontal axis.
    assert_ne!(pixel(&img, 67, 40), [20, 20, 20, 255]);

    // Clipping: a marker at the corner must not panic and still draws.
    let mut corner = blank(40, 30);
    overlay::executed_point(&mut corner, 0, 0);
    assert!(changed_pixels(&corner) > 0);
}

// Rulers tick every 100 pixels on the top and left edges; a small picture gets no
// ticks at all.
#[test]
fn rulers_tick_every_100_pixels() {
    let mut img = blank(350, 250);
    overlay::rulers(&mut img);
    // Vertical ticks at x=100/200/300 on the top edge; horizontal at y=100/200.
    for x in [100u32, 200, 300] {
        assert_eq!(pixel(&img, x, 0), [0, 0, 0, 255], "tick at x={x}");
    }
    for y in [100u32, 200] {
        assert_eq!(pixel(&img, 0, y), [0, 0, 0, 255], "tick at y={y}");
    }

    let mut small = blank(90, 60);
    overlay::rulers(&mut small);
    assert_eq!(
        changed_pixels(&small),
        0,
        "no tick fits an image under 100px"
    );
}

// A badge paints its red pill centered on the mark point.
#[test]
fn badge_is_centered_on_the_mark_point() {
    let mut img = blank(120, 80);
    overlay::badge(&mut img, 60, 40, 7);
    assert_eq!(pixel(&img, 52, 40), [230, 40, 40, 255], "red pill body");
    assert!(changed_pixels(&img) > 80, "badge must be prominent");
}

// What a mark does not cover stays as it was.
#[test]
fn a_mark_leaves_the_rest_of_the_picture_alone() {
    let mut img = blank(400, 300);
    overlay::executed_point(&mut img, 60, 40);
    assert_eq!(pixel(&img, 390, 290), [20, 20, 20, 255]);
    assert_eq!(pixel(&img, 0, 299), [20, 20, 20, 255]);
    assert_eq!(img.width(), 400);
    assert_eq!(img.height(), 300);
}

// Marks far outside a picture draw nothing, and the farthest there are do no harm.
#[test]
fn a_mark_outside_the_picture_is_not_there() {
    for (x, y) in [(i32::MIN, i32::MIN), (i32::MAX, i32::MAX), (5_000, -5_000)] {
        let mut img = blank(40, 30);
        overlay::badge(&mut img, x, y, usize::MAX);
        assert_eq!(changed_pixels(&img), 0, "({x}, {y})");
    }
}
