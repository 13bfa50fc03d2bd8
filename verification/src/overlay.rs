//! Marker, ruler and badge drawing on a picture, in its own pixel space.
//!
//! The only text needed is digits and three symbols, covered by a 5x7 bitmap atlas.
//! Every write is bounds-checked, so a marker near an edge clips.

use vstd::prelude::*;

use crate::picture;
use crate::picture::{Picture, PictureView};
use crate::text;

verus! {

const BLACK: [u8; 4] = [0, 0, 0, 255];

const WHITE: [u8; 4] = [255, 255, 255, 255];

const RED: [u8; 4] = [230, 40, 40, 255];

/// Opaque black.
pub open spec fn black() -> Seq<u8> {
    seq![0u8, 0, 0, 255]
}

/// Opaque white.
pub open spec fn white() -> Seq<u8> {
    seq![255u8, 255, 255, 255]
}

/// Opaque red.
pub open spec fn red() -> Seq<u8> {
    seq![230u8, 40, 40, 255]
}

/// What a drawing puts at each place; nothing where it leaves the picture alone.
pub type Paint = spec_fn(int, int) -> Option<Seq<u8>>;

/// Whether a picture is another with a drawing on it: inside the picture every pixel
/// the drawing has is the drawing's and every other is untouched.
pub open spec fn shows(before: PictureView, after: PictureView, paint: Paint) -> bool {
    &&& after.width == before.width
    &&& after.height == before.height
    &&& after.whole()
    &&& forall|x: int, y: int| #[trigger]
        after.has(x, y) ==> after.pixel(x, y) == (match paint(x, y) {
            Some(color) => color,
            None => before.pixel(x, y),
        })
}

/// A drawing of nothing.
pub open spec fn blank() -> Paint {
    |x: int, y: int| None
}

/// One drawing over another.
pub open spec fn over(top: Paint, bottom: Paint) -> Paint {
    |x: int, y: int|
        match top(x, y) {
            Some(color) => Some(color),
            None => bottom(x, y),
        }
}

/// One pixel.
pub open spec fn dot(at_x: int, at_y: int, color: Seq<u8>) -> Paint {
    |x: int, y: int|
        if x == at_x && y == at_y {
            Some(color)
        } else {
            None
        }
}

/// A filled rectangle.
pub open spec fn block(x0: int, y0: int, w: int, h: int, color: Seq<u8>) -> Paint {
    |x: int, y: int|
        if x0 <= x < x0 + w && y0 <= y < y0 + h {
            Some(color)
        } else {
            None
        }
}

/// A ring: everything past `r` of the centre and within `r + thickness` of it.
pub open spec fn circle(cx: int, cy: int, r: int, thickness: int, color: Seq<u8>) -> Paint {
    |x: int, y: int|
        {
            let d2 = (x - cx) * (x - cx) + (y - cy) * (y - cy);
            if r * r < d2 <= (r + thickness) * (r + thickness) {
                Some(color)
            } else {
                None
            }
        }
}

/// The rows of a glyph from the top, five low bits each, the highest leftmost.
pub open spec fn glyph_rows(c: char) -> Option<Seq<u8>> {
    if c == '0' {
        Some(seq![0x0Eu8, 0x11, 0x13, 0x15, 0x19, 0x11, 0x0E])
    } else if c == '1' {
        Some(seq![0x04u8, 0x0C, 0x04, 0x04, 0x04, 0x04, 0x0E])
    } else if c == '2' {
        Some(seq![0x0Eu8, 0x11, 0x01, 0x02, 0x04, 0x08, 0x1F])
    } else if c == '3' {
        Some(seq![0x1Fu8, 0x02, 0x04, 0x02, 0x01, 0x11, 0x0E])
    } else if c == '4' {
        Some(seq![0x02u8, 0x06, 0x0A, 0x12, 0x1F, 0x02, 0x02])
    } else if c == '5' {
        Some(seq![0x1Fu8, 0x10, 0x1E, 0x01, 0x01, 0x11, 0x0E])
    } else if c == '6' {
        Some(seq![0x06u8, 0x08, 0x10, 0x1E, 0x11, 0x11, 0x0E])
    } else if c == '7' {
        Some(seq![0x1Fu8, 0x01, 0x02, 0x04, 0x08, 0x08, 0x08])
    } else if c == '8' {
        Some(seq![0x0Eu8, 0x11, 0x11, 0x0E, 0x11, 0x11, 0x0E])
    } else if c == '9' {
        Some(seq![0x0Eu8, 0x11, 0x11, 0x0F, 0x01, 0x02, 0x0C])
    } else if c == '(' {
        Some(seq![0x02u8, 0x04, 0x08, 0x08, 0x08, 0x04, 0x02])
    } else if c == ')' {
        Some(seq![0x08u8, 0x04, 0x02, 0x02, 0x02, 0x04, 0x08])
    } else if c == ',' {
        Some(seq![0x00u8, 0x00, 0x00, 0x00, 0x0C, 0x04, 0x08])
    } else {
        None
    }
}

fn glyph(c: char) -> (r: Option<[u8; 7]>)
    ensures
        match glyph_rows(c) {
            Some(rows) => r is Some && r->0@ == rows,
            None => r is None,
        },
{
    let rows: [u8; 7] = if c == '0' {
        [0x0E, 0x11, 0x13, 0x15, 0x19, 0x11, 0x0E]
    } else if c == '1' {
        [0x04, 0x0C, 0x04, 0x04, 0x04, 0x04, 0x0E]
    } else if c == '2' {
        [0x0E, 0x11, 0x01, 0x02, 0x04, 0x08, 0x1F]
    } else if c == '3' {
        [0x1F, 0x02, 0x04, 0x02, 0x01, 0x11, 0x0E]
    } else if c == '4' {
        [0x02, 0x06, 0x0A, 0x12, 0x1F, 0x02, 0x02]
    } else if c == '5' {
        [0x1F, 0x10, 0x1E, 0x01, 0x01, 0x11, 0x0E]
    } else if c == '6' {
        [0x06, 0x08, 0x10, 0x1E, 0x11, 0x11, 0x0E]
    } else if c == '7' {
        [0x1F, 0x01, 0x02, 0x04, 0x08, 0x08, 0x08]
    } else if c == '8' {
        [0x0E, 0x11, 0x11, 0x0E, 0x11, 0x11, 0x0E]
    } else if c == '9' {
        [0x0E, 0x11, 0x11, 0x0F, 0x01, 0x02, 0x0C]
    } else if c == '(' {
        [0x02, 0x04, 0x08, 0x08, 0x08, 0x04, 0x02]
    } else if c == ')' {
        [0x08, 0x04, 0x02, 0x02, 0x02, 0x04, 0x08]
    } else if c == ',' {
        [0x00, 0x00, 0x00, 0x00, 0x0C, 0x04, 0x08]
    } else {
        return None;
    };
    assert(rows@ =~= glyph_rows(c)->0);
    Some(rows)
}

/// Whether a row of a glyph has ink in a column, counted from the left.
pub open spec fn inked(row: u8, column: int) -> bool {
    row & (0x10u8 >> (column as u8)) != 0
}

/// Whether a glyph has ink at a place inside its cell.
pub open spec fn lit(c: char, column: int, line: int) -> bool {
    &&& 0 <= column < 5
    &&& 0 <= line < 7
    &&& glyph_rows(c) matches Some(rows) && inked(rows[line], column)
}

/// How wide a label of that many characters is: five pixels each and one between.
pub open spec fn label_width(characters: int) -> int {
    if characters == 0 {
        0
    } else {
        6 * characters - 1
    }
}

/// The ink of a text whose top left corner is at a place.
pub open spec fn ink(x0: int, y0: int, label: Seq<char>) -> Paint {
    |x: int, y: int|
        if x0 <= x < x0 + 6 * label.len() && lit(
            label[(x - x0) / 6],
            (x - x0) % 6,
            y - y0,
        ) {
            Some(black())
        } else {
            None
        }
}

/// Black text on a white plate with a pixel of padding.
pub open spec fn plate(x0: int, y0: int, label: Seq<char>) -> Paint {
    over(
        ink(x0, y0, label),
        block(x0 - 1, y0 - 1, label_width(label.len() as int) + 2, 9, white()),
    )
}

/// Where a span starts so that it lies inside a limit, as far as it fits.
pub open spec fn kept_inside(start: int, span: int, limit: int) -> int {
    let held = if start <= limit - span {
        start
    } else {
        limit - span
    };
    if held >= 0 {
        held
    } else {
        0
    }
}

proof fn dotted(before: PictureView, middle: PictureView, paint: Paint, x: int, y: int, color: Seq<u8>)
    requires
        shows(before, middle, paint),
        middle.has(x, y),
        color.len() == 4,
    ensures
        shows(before, middle.painted(x, y, color), over(dot(x, y, color), paint)),
{
    let after = middle.painted(x, y, color);
    picture::painting_changes_one_pixel(middle, x, y, color, x, y);
    assert forall|a: int, b: int| #[trigger] after.has(a, b) implies after.pixel(a, b) == (
    match over(dot(x, y, color), paint)(a, b) {
        Some(c) => c,
        None => before.pixel(a, b),
    }) by {
        assert(middle.has(a, b));
        picture::painting_changes_one_pixel(middle, x, y, color, a, b);
    }
}

proof fn same_paint(before: PictureView, after: PictureView, paint: Paint, other: Paint)
    requires
        shows(before, after, paint),
        forall|x: int, y: int| #[trigger] after.has(x, y) ==> paint(x, y) == other(x, y),
    ensures
        shows(before, after, other),
{
}

/// A drawing and then another is one drawing: the second over the first.
pub proof fn painted_over(
    before: PictureView,
    middle: PictureView,
    after: PictureView,
    bottom: Paint,
    top: Paint,
)
    requires
        shows(before, middle, bottom),
        shows(middle, after, top),
    ensures
        shows(before, after, over(top, bottom)),
{
    assert forall|x: int, y: int| #[trigger] after.has(x, y) implies after.pixel(x, y) == (
    match over(top, bottom)(x, y) {
        Some(c) => c,
        None => before.pixel(x, y),
    }) by {
        assert(middle.has(x, y));
    }
}

fn put(img: &mut Picture, x: i64, y: i64, color: [u8; 4])
    ensures
        shows(old(img)@, final(img)@, dot(x as int, y as int, color@)),
{
    let ghost before = img@;
    let width: u32 = img.width();
    let height: u32 = img.height();
    assert(shows(before, before, blank()));
    if x >= 0 && y >= 0 && x < width as i64 && y < height as i64 {
        img.put(x as u32, y as u32, color);
        proof {
            dotted(before, before, blank(), x as int, y as int, color@);
            same_paint(
                before,
                img@,
                over(dot(x as int, y as int, color@), blank()),
                dot(x as int, y as int, color@),
            );
        }
    } else {
        proof {
            same_paint(before, img@, blank(), dot(x as int, y as int, color@));
        }
    }
}

fn fill_rect(img: &mut Picture, x0: i64, y0: i64, w: i64, h: i64, color: [u8; 4])
    requires
        -0x1_0000_0000 <= x0 <= 0x2_0000_0000,
        -0x1_0000_0000 <= y0 <= 0x2_0000_0000,
        0 <= w <= 0x1_0000_0000,
        0 <= h <= 0x1_0000_0000,
    ensures
        shows(
            old(img)@,
            final(img)@,
            block(x0 as int, y0 as int, w as int, h as int, color@),
        ),
{
    let ghost before = img@;
    let _ = img.width();
    let mut row: i64 = 0;
    proof {
        assert(shows(before, img@, blank()));
        same_paint(before, img@, blank(), block(x0 as int, y0 as int, w as int, 0, color@));
    }
    while row < h
        invariant
            0 <= row <= h,
            0 <= w <= 0x1_0000_0000,
            0 <= h <= 0x1_0000_0000,
            -0x1_0000_0000 <= x0 <= 0x2_0000_0000,
            -0x1_0000_0000 <= y0 <= 0x2_0000_0000,
            shows(before, img@, block(x0 as int, y0 as int, w as int, row as int, color@)),
        decreases h - row,
    {
        let ghost above = block(x0 as int, y0 as int, w as int, row as int, color@);
        let mut column: i64 = 0;
        proof {
            same_paint(
                before,
                img@,
                above,
                over(block(x0 as int, y0 + row, 0, 1, color@), above),
            );
        }
        while column < w
            invariant
                0 <= column <= w,
                0 <= row < h,
                0 <= w <= 0x1_0000_0000,
                0 <= h <= 0x1_0000_0000,
                -0x1_0000_0000 <= x0 <= 0x2_0000_0000,
                -0x1_0000_0000 <= y0 <= 0x2_0000_0000,
                shows(
                    before,
                    img@,
                    over(block(x0 as int, y0 + row, column as int, 1, color@), above),
                ),
            decreases w - column,
        {
            let ghost middle = img@;
            let ghost had = over(block(x0 as int, y0 + row, column as int, 1, color@), above);
            put(img, x0 + column, y0 + row, color);
            proof {
                let point = dot(x0 + column, y0 + row, color@);
                painted_over(before, middle, img@, had, point);
                same_paint(
                    before,
                    img@,
                    over(point, had),
                    over(block(x0 as int, y0 + row, column + 1, 1, color@), above),
                );
            }
            column += 1;
        }
        proof {
            same_paint(
                before,
                img@,
                over(block(x0 as int, y0 + row, w as int, 1, color@), above),
                block(x0 as int, y0 as int, w as int, row + 1, color@),
            );
        }
        row += 1;
    }
}

fn ring(img: &mut Picture, cx: i64, cy: i64, r: i64, thickness: i64, color: [u8; 4])
    requires
        -0x8000_0000 <= cx <= 0x7fff_ffff,
        -0x8000_0000 <= cy <= 0x7fff_ffff,
        0 <= r <= 100,
        0 <= thickness <= 100,
    ensures
        shows(
            old(img)@,
            final(img)@,
            circle(cx as int, cy as int, r as int, thickness as int, color@),
        ),
{
    let ghost before = img@;
    let _ = img.width();
    let outer: i64 = r + thickness;
    let ghost full = circle(cx as int, cy as int, r as int, thickness as int, color@);
    let ghost done = |upto_x: int, upto_y: int|
        (|x: int, y: int|
            if y - cy < upto_y || (y - cy == upto_y && x - cx < upto_x) {
                full(x, y)
            } else {
                None
            });
    let mut dy: i64 = -outer;
    proof {
        assert(shows(before, img@, blank()));
        assert forall|x: int, y: int| #[trigger] img@.has(x, y) implies blank()(x, y) == done(
            -outer,
            -outer,
        )(x, y) by {
            far_is_outside(x - cx, y - cy, r as int, outer as int);
        }
        same_paint(before, img@, blank(), done(-outer, -outer));
    }
    while dy <= outer
        invariant
            -0x8000_0000 <= cx <= 0x7fff_ffff,
            -0x8000_0000 <= cy <= 0x7fff_ffff,
            0 <= r <= 100,
            0 <= thickness <= 100,
            outer == r + thickness,
            -outer <= dy <= outer + 1,
            full == circle(cx as int, cy as int, r as int, thickness as int, color@),
            done == (|upto_x: int, upto_y: int|
                (|x: int, y: int|
                    if y - cy < upto_y || (y - cy == upto_y && x - cx < upto_x) {
                        full(x, y)
                    } else {
                        None
                    })),
            shows(before, img@, done(-outer, dy as int)),
        decreases outer + 1 - dy,
    {
        let mut dx: i64 = -outer;
        while dx <= outer
            invariant
                -0x8000_0000 <= cx <= 0x7fff_ffff,
                -0x8000_0000 <= cy <= 0x7fff_ffff,
                0 <= r <= 100,
                0 <= thickness <= 100,
                outer == r + thickness,
                -outer <= dy <= outer,
                -outer <= dx <= outer + 1,
                full == circle(cx as int, cy as int, r as int, thickness as int, color@),
                done == (|upto_x: int, upto_y: int|
                    (|x: int, y: int|
                        if y - cy < upto_y || (y - cy == upto_y && x - cx < upto_x) {
                            full(x, y)
                        } else {
                            None
                        })),
                shows(before, img@, done(dx as int, dy as int)),
            decreases outer + 1 - dx,
        {
            assert(0 <= dx * dx <= 40_000 && 0 <= dy * dy <= 40_000) by (nonlinear_arith)
                requires
                    -200 <= dx <= 200,
                    -200 <= dy <= 200,
            ;
            assert(0 <= outer * outer <= 40_000 && 0 <= r * r <= 40_000) by (nonlinear_arith)
                requires
                    0 <= outer <= 200,
                    0 <= r <= 200,
            ;
            let d2: i64 = dx * dx + dy * dy;
            let ghost middle = img@;
            if d2 <= outer * outer && d2 > r * r {
                put(img, cx + dx, cy + dy, color);
                proof {
                    let point = dot(cx + dx, cy + dy, color@);
                    painted_over(before, middle, img@, done(dx as int, dy as int), point);
                    same_paint(
                        before,
                        img@,
                        over(point, done(dx as int, dy as int)),
                        done(dx + 1, dy as int),
                    );
                }
            } else {
                proof {
                    same_paint(before, img@, done(dx as int, dy as int), done(dx + 1, dy as int));
                }
            }
            dx += 1;
        }
        proof {
            assert forall|x: int, y: int| #[trigger] img@.has(x, y) implies done(
                outer + 1,
                dy as int,
            )(x, y) == done(-outer, dy + 1)(x, y) by {
                far_is_outside(x - cx, y - cy, r as int, outer as int);
            }
            same_paint(before, img@, done(outer + 1, dy as int), done(-outer, dy + 1));
        }
        dy += 1;
    }
    proof {
        assert forall|x: int, y: int| #[trigger] img@.has(x, y) implies done(-outer, outer + 1)(
            x,
            y,
        ) == full(x, y) by {
            far_is_outside(x - cx, y - cy, r as int, outer as int);
        }
        same_paint(before, img@, done(-outer, outer + 1), full);
    }
}

proof fn far_is_outside(dx: int, dy: int, r: int, outer: int)
    requires
        0 <= r <= outer,
    ensures
        dx < -outer || dx > outer || dy < -outer || dy > outer ==> dx * dx + dy * dy > outer
            * outer,
{
    assert(dx * dx >= 0 && dy * dy >= 0) by (nonlinear_arith);
    if dx < -outer || dx > outer {
        assert(dx * dx > outer * outer) by (nonlinear_arith)
            requires
                dx < -outer || dx > outer,
                0 <= outer,
        ;
    }
    if dy < -outer || dy > outer {
        assert(dy * dy > outer * outer) by (nonlinear_arith)
            requires
                dy < -outer || dy > outer,
                0 <= outer,
        ;
    }
}

/// One character, with its top left corner at a place.
pub open spec fn stamp(x0: int, y0: int, c: char) -> Paint {
    |x: int, y: int|
        if lit(c, x - x0, y - y0) {
            Some(black())
        } else {
            None
        }
}

fn draw_glyph(img: &mut Picture, x0: i64, y0: i64, c: char)
    requires
        -0x1_0000_0000 <= x0 <= 0x3_0000_0000,
        -0x1_0000_0000 <= y0 <= 0x3_0000_0000,
    ensures
        shows(old(img)@, final(img)@, stamp(x0 as int, y0 as int, c)),
{
    let ghost before = img@;
    let _ = img.width();
    let ghost full = stamp(x0 as int, y0 as int, c);
    assert(shows(before, img@, blank()));
    let rows = match glyph(c) {
        Some(rows) => rows,
        None => {
            proof {
                same_paint(before, img@, blank(), full);
            }
            return;
        },
    };
    let ghost done = |columns: int, lines: int|
        (|x: int, y: int|
            if y - y0 < lines || (y - y0 == lines && x - x0 < columns) {
                full(x, y)
            } else {
                None
            });
    let mut line: usize = 0;
    proof {
        same_paint(before, img@, blank(), done(0, 0));
    }
    while line < 7
        invariant
            line <= 7,
            -0x1_0000_0000 <= x0 <= 0x3_0000_0000,
            -0x1_0000_0000 <= y0 <= 0x3_0000_0000,
            glyph_rows(c) == Some(rows@),
            full == stamp(x0 as int, y0 as int, c),
            done == (|columns: int, lines: int|
                (|x: int, y: int|
                    if y - y0 < lines || (y - y0 == lines && x - x0 < columns) {
                        full(x, y)
                    } else {
                        None
                    })),
            shows(before, img@, done(0, line as int)),
        decreases 7 - line,
    {
        let row: u8 = rows[line];
        let mut column: u8 = 0;
        while column < 5
            invariant
                column <= 5,
                line < 7,
                -0x1_0000_0000 <= x0 <= 0x3_0000_0000,
                -0x1_0000_0000 <= y0 <= 0x3_0000_0000,
                glyph_rows(c) == Some(rows@),
                row == rows@[line as int],
                full == stamp(x0 as int, y0 as int, c),
                done == (|columns: int, lines: int|
                    (|x: int, y: int|
                        if y - y0 < lines || (y - y0 == lines && x - x0 < columns) {
                            full(x, y)
                        } else {
                            None
                        })),
                shows(before, img@, done(column as int, line as int)),
            decreases 5 - column,
        {
            let ghost middle = img@;
            if row & (0x10u8 >> column) != 0 {
                put(img, x0 + column as i64, y0 + line as i64, BLACK);
                proof {
                    assert(BLACK@ =~= black());
                    assert(inked(row, column as int));
                    let point = dot(x0 + column, y0 + line, black());
                    painted_over(before, middle, img@, done(column as int, line as int), point);
                    same_paint(
                        before,
                        img@,
                        over(point, done(column as int, line as int)),
                        done(column + 1, line as int),
                    );
                }
            } else {
                proof {
                    assert(!inked(row, column as int));
                    same_paint(
                        before,
                        img@,
                        done(column as int, line as int),
                        done(column + 1, line as int),
                    );
                }
            }
            column += 1;
        }
        proof {
            same_paint(before, img@, done(5, line as int), done(0, line + 1));
        }
        line += 1;
    }
    proof {
        same_paint(before, img@, done(0, 7), full);
    }
}

/// Black text on a white plate: readable on any background.
fn draw_label(img: &mut Picture, x0: i64, y0: i64, label: &str)
    requires
        -0xffff_ffff <= x0 <= 0x1_ffff_ffff,
        -0xffff_ffff <= y0 <= 0x1_ffff_ffff,
        label@.len() <= 100,
    ensures
        shows(old(img)@, final(img)@, plate(x0 as int, y0 as int, label@)),
{
    let ghost before = img@;
    let count: usize = label.unicode_len();
    fill_rect(img, x0 - 1, y0 - 1, text_width(count) + 2, 9, WHITE);
    let ghost under = block(
        x0 - 1,
        y0 - 1,
        label_width(label@.len() as int) + 2,
        9,
        white(),
    );
    proof {
        assert(WHITE@ =~= white());
        same_paint(before, img@, under, over(ink(x0 as int, y0 as int, label@.take(0)), under));
    }
    let mut i: usize = 0;
    while i < count
        invariant
            i <= count,
            count == label@.len(),
            count <= 100,
            -0xffff_ffff <= x0 <= 0x1_ffff_ffff,
            -0xffff_ffff <= y0 <= 0x1_ffff_ffff,
            shows(before, img@, over(ink(x0 as int, y0 as int, label@.take(i as int)), under)),
        decreases count - i,
    {
        let ghost middle = img@;
        let ghost written = ink(x0 as int, y0 as int, label@.take(i as int));
        let ghost more = ink(x0 as int, y0 as int, label@.take(i as int + 1));
        let c = label.get_char(i);
        draw_glyph(img, x0 + 6 * i as i64, y0, c);
        proof {
            let one = stamp(x0 + 6 * i, y0 as int, c);
            painted_over(before, middle, img@, over(written, under), one);
            assert forall|x: int, y: int| #[trigger] img@.has(x, y) implies over(
                one,
                over(written, under),
            )(x, y) == over(more, under)(x, y) by {
                let k = (x - x0) / 6;
                if x0 <= x < x0 + 6 * (i + 1) {
                    assert(0 <= k <= i);
                    assert(label@.take(i as int + 1)[k] == label@[k]);
                    if k < i {
                        assert(label@.take(i as int)[k] == label@[k]);
                    }
                }
            }
            same_paint(before, img@, over(one, over(written, under)), over(more, under));
        }
        i += 1;
    }
    assert(label@.take(count as int) =~= label@);
}

/// Rendered width of a label of that many characters.
fn text_width(characters: usize) -> (r: i64)
    requires
        characters <= 100,
    ensures
        r == label_width(characters as int),
{
    if characters == 0 {
        0
    } else {
        6 * characters as i64 - 1
    }
}

/// Keeps an element that wide inside a limit, as far as it fits.
fn clamp_span(start: i64, span: i64, limit: i64) -> (r: i64)
    requires
        -0x1_0000_0000 <= span <= 0x1_0000_0000,
        0 <= limit <= 0x1_0000_0000,
    ensures
        r == kept_inside(start as int, span as int, limit as int),
{
    let held: i64 = if start <= limit - span {
        start
    } else {
        limit - span
    };
    if held >= 0 {
        held
    } else {
        0
    }
}

/// The arms of a cross from three pixels of the centre to as far as they reach;
/// every pixel of them, or every other.
pub open spec fn arms(cx: int, cy: int, reach: int, every_other: bool, color: Seq<u8>) -> Paint {
    |x: int, y: int|
        {
            let d = if y == cy {
                if x >= cx {
                    x - cx
                } else {
                    cx - x
                }
            } else if x == cx {
                if y >= cy {
                    y - cy
                } else {
                    cy - y
                }
            } else {
                0
            };
            if 3 <= d <= reach && (!every_other || d % 2 == 0) {
                Some(color)
            } else {
                None
            }
        }
}

fn cross(img: &mut Picture, cx: i64, cy: i64, reach: i64, every_other: bool, color: [u8; 4])
    requires
        -0x8000_0000 <= cx <= 0x7fff_ffff,
        -0x8000_0000 <= cy <= 0x7fff_ffff,
        3 <= reach <= 100,
    ensures
        shows(
            old(img)@,
            final(img)@,
            arms(cx as int, cy as int, reach as int, every_other, color@),
        ),
{
    let ghost before = img@;
    let _ = img.width();
    let mut d: i64 = 3;
    proof {
        assert(shows(before, img@, blank()));
        same_paint(
            before,
            img@,
            blank(),
            arms(cx as int, cy as int, 2, every_other, color@),
        );
    }
    while d <= reach
        invariant
            3 <= d <= reach + 1,
            3 <= reach <= 100,
            -0x8000_0000 <= cx <= 0x7fff_ffff,
            -0x8000_0000 <= cy <= 0x7fff_ffff,
            shows(before, img@, arms(cx as int, cy as int, d - 1, every_other, color@)),
        decreases reach + 1 - d,
    {
        let ghost had = arms(cx as int, cy as int, d - 1, every_other, color@);
        let ghost next = arms(cx as int, cy as int, d as int, every_other, color@);
        if !every_other || d % 2 == 0 {
            let ghost start = img@;
            put(img, cx + d, cy, color);
            let ghost right = img@;
            put(img, cx - d, cy, color);
            let ghost left = img@;
            put(img, cx, cy + d, color);
            let ghost below = img@;
            put(img, cx, cy - d, color);
            proof {
                let e = dot(cx + d, cy as int, color@);
                let w = dot(cx - d, cy as int, color@);
                let s = dot(cx as int, cy + d, color@);
                let n = dot(cx as int, cy - d, color@);
                painted_over(before, start, right, had, e);
                painted_over(before, right, left, over(e, had), w);
                painted_over(before, left, below, over(w, over(e, had)), s);
                painted_over(before, below, img@, over(s, over(w, over(e, had))), n);
                same_paint(before, img@, over(n, over(s, over(w, over(e, had)))), next);
            }
        } else {
            proof {
                same_paint(before, img@, had, next);
            }
        }
        d += 1;
    }
}

/// A point, written out.
pub open spec fn point_label(x: int, y: int) -> Seq<char> {
    "("@ + text::signed_decimal(x) + ","@ + text::signed_decimal(y) + ")"@
}

/// The mark of an executed point in a picture of a size: a ring, a cross, and the
/// coordinate beside them.
pub open spec fn executed_mark(width: int, height: int, x: int, y: int) -> Paint {
    let label = point_label(x, y);
    over(
        plate(
            kept_inside(x + 12, label_width(label.len() as int), width),
            kept_inside(y + 10, 7, height),
            label,
        ),
        over(
            arms(x, y, 13, true, black()),
            over(
                arms(x, y, 14, false, white()),
                over(circle(x, y, 6, 2, red()), circle(x, y, 8, 2, white())),
            ),
        ),
    )
}

proof fn a_point_label_is_short(x: int, y: int)
    requires
        -0x8000_0000 <= x <= 0x7fff_ffff,
        -0x8000_0000 <= y <= 0x7fff_ffff,
    ensures
        point_label(x, y).len() <= 50,
{
    reveal_strlit("(");
    reveal_strlit(",");
    reveal_strlit(")");
    reveal_strlit("-");
    let size_x = if x < 0 {
        (-x) as nat
    } else {
        x as nat
    };
    let size_y = if y < 0 {
        (-y) as nat
    } else {
        y as nat
    };
    text::a_decimal_of_64_bits_is_short(size_x);
    text::a_decimal_of_64_bits_is_short(size_y);
}

/// Marks an executed point, so a caller sees where its click landed.
pub fn executed_point(img: &mut Picture, x: i32, y: i32)
    ensures
        shows(
            old(img)@,
            final(img)@,
            executed_mark(
                old(img)@.width as int,
                old(img)@.height as int,
                x as int,
                y as int,
            ),
        ),
{
    let ghost start = img@;
    let width: u32 = img.width();
    let height: u32 = img.height();
    let cx: i64 = x as i64;
    let cy: i64 = y as i64;
    ring(img, cx, cy, 8, 2, WHITE);
    let ghost outer = img@;
    ring(img, cx, cy, 6, 2, RED);
    let ghost inner = img@;
    cross(img, cx, cy, 14, false, WHITE);
    let ghost light = img@;
    cross(img, cx, cy, 13, true, BLACK);
    let ghost dark = img@;
    let mut label = "(".to_owned();
    label.append(text::write_signed(cx).as_str());
    label.append(",");
    label.append(text::write_signed(cy).as_str());
    label.append(")");
    proof {
        a_point_label_is_short(x as int, y as int);
    }
    let count: usize = label.as_str().unicode_len();
    let lx: i64 = clamp_span(cx + 12, text_width(count), width as i64);
    let ly: i64 = clamp_span(cy + 10, 7, height as i64);
    draw_label(img, lx, ly, label.as_str());
    proof {
        assert(WHITE@ =~= white());
        assert(RED@ =~= red());
        assert(BLACK@ =~= black());
        let a = circle(x as int, y as int, 8, 2, white());
        let b = circle(x as int, y as int, 6, 2, red());
        let c = arms(x as int, y as int, 14, false, white());
        let d = arms(x as int, y as int, 13, true, black());
        let e = plate(lx as int, ly as int, label@);
        painted_over(start, outer, inner, a, b);
        painted_over(start, inner, light, over(b, a), c);
        painted_over(start, light, dark, over(c, over(b, a)), d);
        painted_over(start, dark, img@, over(d, over(c, over(b, a))), e);
    }
}

/// The tick of a ruler across the top at a column: black with a white shadow, and a
/// label at every other one.
pub open spec fn column_tick(width: int, x: int) -> Paint {
    let label = text::decimal(x as nat);
    let tick = over(block(x + 1, 0, 1, 7, white()), block(x, 0, 1, 7, black()));
    if x % 200 == 0 {
        over(plate(kept_inside(x + 3, label_width(label.len() as int), width), 9, label), tick)
    } else {
        tick
    }
}

/// The tick of a ruler down the left at a row.
pub open spec fn row_tick(height: int, y: int) -> Paint {
    let label = text::decimal(y as nat);
    let tick = over(block(0, y + 1, 7, 1, white()), block(0, y, 7, 1, black()));
    if y % 200 == 0 {
        over(plate(9, kept_inside(y + 3, 7, height), label), tick)
    } else {
        tick
    }
}

/// The ticks across the top at the first so many hundreds, each over those before.
pub open spec fn column_ticks(width: int, count: nat) -> Paint
    decreases count,
{
    if count == 0 {
        blank()
    } else {
        over(column_tick(width, 100 * count as int), column_ticks(width, (count - 1) as nat))
    }
}

/// The ticks down the left at the first so many hundreds, each over those before.
pub open spec fn row_ticks(height: int, count: nat) -> Paint
    decreases count,
{
    if count == 0 {
        blank()
    } else {
        over(row_tick(height, 100 * count as int), row_ticks(height, (count - 1) as nat))
    }
}

/// How many hundreds lie inside a side.
pub open spec fn hundreds(side: nat) -> nat {
    if side == 0 {
        0
    } else {
        ((side - 1) / 100) as nat
    }
}

/// Edge rulers in a picture of a size: ticks every hundred pixels, labels every two
/// hundred.
pub open spec fn ruled(width: nat, height: nat) -> Paint {
    over(
        row_ticks(height as int, hundreds(height)),
        column_ticks(width as int, hundreds(width)),
    )
}

fn column_mark(img: &mut Picture, width: i64, x: i64)
    requires
        0 <= width <= 0xffff_ffff,
        0 < x < width,
    ensures
        shows(old(img)@, final(img)@, column_tick(width as int, x as int)),
{
    let ghost start = img@;
    fill_rect(img, x, 0, 1, 7, BLACK);
    let ghost dark = img@;
    fill_rect(img, x + 1, 0, 1, 7, WHITE);
    let ghost tick = over(block(x + 1, 0, 1, 7, white()), block(x as int, 0, 1, 7, black()));
    proof {
        assert(WHITE@ =~= white());
        assert(BLACK@ =~= black());
        painted_over(
            start,
            dark,
            img@,
            block(x as int, 0, 1, 7, black()),
            block(x + 1, 0, 1, 7, white()),
        );
    }
    if x % 200 == 0 {
        let ghost marked = img@;
        let label = text::write_decimal(x as u64);
        proof {
            text::a_decimal_of_64_bits_is_short(x as nat);
        }
        let count: usize = label.as_str().unicode_len();
        let lx: i64 = clamp_span(x + 3, text_width(count), width);
        draw_label(img, lx, 9, label.as_str());
        proof {
            painted_over(start, marked, img@, tick, plate(lx as int, 9, label@));
        }
    }
}

fn row_mark(img: &mut Picture, height: i64, y: i64)
    requires
        0 <= height <= 0xffff_ffff,
        0 < y < height,
    ensures
        shows(old(img)@, final(img)@, row_tick(height as int, y as int)),
{
    let ghost start = img@;
    fill_rect(img, 0, y, 7, 1, BLACK);
    let ghost dark = img@;
    fill_rect(img, 0, y + 1, 7, 1, WHITE);
    let ghost tick = over(block(0, y + 1, 7, 1, white()), block(0, y as int, 7, 1, black()));
    proof {
        assert(WHITE@ =~= white());
        assert(BLACK@ =~= black());
        painted_over(
            start,
            dark,
            img@,
            block(0, y as int, 7, 1, black()),
            block(0, y + 1, 7, 1, white()),
        );
    }
    if y % 200 == 0 {
        let ghost marked = img@;
        let label = text::write_decimal(y as u64);
        proof {
            text::a_decimal_of_64_bits_is_short(y as nat);
        }
        let ly: i64 = clamp_span(y + 3, 7, height);
        draw_label(img, 9, ly, label.as_str());
        proof {
            painted_over(start, marked, img@, tick, plate(9, ly as int, label@));
        }
    }
}

/// Draws edge rulers in the picture's own pixel space, so the grid a caller answers
/// in is visible in the picture itself.
pub fn rulers(img: &mut Picture)
    ensures
        shows(old(img)@, final(img)@, ruled(old(img)@.width, old(img)@.height)),
{
    let ghost start = img@;
    let width: i64 = img.width() as i64;
    let height: i64 = img.height() as i64;
    assert(shows(start, img@, blank()));
    let mut x: i64 = 100;
    let ghost mut columns: nat = 0;
    while x < width
        invariant
            0 <= width <= 0xffff_ffff,
            width == start.width,
            x == 100 * (columns + 1),
            columns > 0 ==> 100 * columns < width,
            shows(start, img@, column_ticks(width as int, columns)),
        decreases width + 100 - x,
    {
        let ghost middle = img@;
        column_mark(img, width, x);
        proof {
            painted_over(
                start,
                middle,
                img@,
                column_ticks(width as int, columns),
                column_tick(width as int, x as int),
            );
            columns = columns + 1;
        }
        x += 100;
    }
    assert(columns == hundreds(start.width));
    let ghost across = img@;
    let ghost top = column_ticks(width as int, columns);
    assert(shows(across, img@, blank()));
    let mut y: i64 = 100;
    let ghost mut lines: nat = 0;
    while y < height
        invariant
            0 <= height <= 0xffff_ffff,
            height == start.height,
            y == 100 * (lines + 1),
            lines > 0 ==> 100 * lines < height,
            shows(across, img@, row_ticks(height as int, lines)),
        decreases height + 100 - y,
    {
        let ghost middle = img@;
        row_mark(img, height, y);
        proof {
            painted_over(
                across,
                middle,
                img@,
                row_ticks(height as int, lines),
                row_tick(height as int, y as int),
            );
            lines = lines + 1;
        }
        y += 100;
    }
    proof {
        assert(lines == hundreds(start.height));
        painted_over(start, across, img@, top, row_ticks(height as int, lines));
    }
}

/// Half the width of a badge for a label of that many characters.
pub open spec fn badge_half(characters: int) -> int {
    let half = label_width(characters) / 2 + 4;
    if half >= 8 {
        half
    } else {
        8
    }
}

/// A numbered badge centred on a place: a red plate with a black edge, and the
/// number on its own plate.
pub open spec fn badge_mark(x: int, y: int, n: nat) -> Paint {
    let label = text::decimal(n);
    let half = badge_half(label.len() as int);
    over(
        plate(x - label_width(label.len() as int) / 2, y - 3, label),
        over(
            block(x - half, y - 6, 2 * half, 12, red()),
            block(x - half - 1, y - 7, 2 * half + 2, 14, black()),
        ),
    )
}

/// Draws a numbered badge at a control's click point. A caller answers with the
/// number, and no pixel is estimated at all.
pub fn badge(img: &mut Picture, x: i32, y: i32, n: usize)
    ensures
        shows(old(img)@, final(img)@, badge_mark(x as int, y as int, n as nat)),
{
    let ghost start = img@;
    let label = text::write_decimal(n as u64);
    proof {
        text::a_decimal_of_64_bits_is_short(n as nat);
    }
    let count: usize = label.as_str().unicode_len();
    let span: i64 = text_width(count);
    let wide: i64 = span / 2 + 4;
    let half: i64 = if wide >= 8 {
        wide
    } else {
        8
    };
    let cx: i64 = x as i64;
    let cy: i64 = y as i64;
    fill_rect(img, cx - half - 1, cy - 7, 2 * half + 2, 14, BLACK);
    let ghost edged = img@;
    fill_rect(img, cx - half, cy - 6, 2 * half, 12, RED);
    let ghost plated = img@;
    draw_label(img, cx - span / 2, cy - 3, label.as_str());
    proof {
        assert(RED@ =~= red());
        assert(BLACK@ =~= black());
        let a = block(x - half - 1, y - 7, 2 * half + 2, 14, black());
        let b = block(x - half, y - 6, 2 * half, 12, red());
        painted_over(start, edged, plated, a, b);
        painted_over(start, plated, img@, over(b, a), plate(x - span / 2, y - 3, label@));
    }
}

/// A drawing on a picture is one picture: what it shows says every byte of it.
pub proof fn a_drawing_is_one_picture(
    before: PictureView,
    one: PictureView,
    other: PictureView,
    paint: Paint,
)
    requires
        shows(before, one, paint),
        shows(before, other, paint),
    ensures
        one == other,
{
    let w = one.width as int;
    let h = one.height as int;
    assert forall|i: int| 0 <= i < one.bytes.len() implies one.bytes[i] == other.bytes[i] by {
        let p = i / 4;
        assert(4 * w * h == 4 * (w * h)) by (nonlinear_arith);
        assert(0 <= p < w * h);
        assert(w > 0) by (nonlinear_arith)
            requires
                0 <= p < w * h,
                0 <= w,
                0 <= h,
        ;
        let x = p % w;
        let y = p / w;
        vstd::arithmetic::div_mod::lemma_fundamental_div_mod(p, w);
        vstd::arithmetic::div_mod::lemma_mod_bound(p, w);
        assert(w * y == y * w) by (nonlinear_arith);
        assert(0 <= y < h) by (nonlinear_arith)
            requires
                p == w * y + x,
                0 <= p < w * h,
                0 <= x < w,
                w > 0,
        ;
        assert(one.has(x, y) && other.has(x, y));
        let k = picture::pixel_start(one.width, x, y);
        assert(k == 4 * p);
        let a = one.pixel(x, y);
        let b = other.pixel(x, y);
        assert(a == b);
        assert(one.bytes[i] == a[i - k]);
        assert(other.bytes[i] == b[i - k]);
    }
    assert(one.bytes =~= other.bytes);
}

/// A mark changes nothing away from the point it marks: no pixel farther from it
/// than the cross reaches, but for the label's plate.
pub proof fn a_mark_is_local(width: int, height: int, x: int, y: int, a: int, b: int)
    requires
        a < x - 14 || a > x + 14 || b < y - 14 || b > y + 14,
        plate(
            kept_inside(x + 12, label_width(point_label(x, y).len() as int), width),
            kept_inside(y + 10, 7, height),
            point_label(x, y),
        )(a, b) is None,
    ensures
        executed_mark(width, height, x, y)(a, b) is None,
{
    far_is_outside(a - x, b - y, 8, 10);
    far_is_outside(a - x, b - y, 6, 8);
}

/// A row of a glyph has ink in a column exactly where the bit for it is set, counted
/// from the highest of five.
pub proof fn ink_is_a_bit(row: u8)
    ensures
        inked(row, 0) <==> row / 16 % 2 == 1,
        inked(row, 1) <==> row / 8 % 2 == 1,
        inked(row, 2) <==> row / 4 % 2 == 1,
        inked(row, 3) <==> row / 2 % 2 == 1,
        inked(row, 4) <==> row % 2 == 1,
{
    assert(row & (0x10u8 >> 0u8) != 0 <==> row / 16 % 2 == 1) by (bit_vector);
    assert(row & (0x10u8 >> 1u8) != 0 <==> row / 8 % 2 == 1) by (bit_vector);
    assert(row & (0x10u8 >> 2u8) != 0 <==> row / 4 % 2 == 1) by (bit_vector);
    assert(row & (0x10u8 >> 3u8) != 0 <==> row / 2 % 2 == 1) by (bit_vector);
    assert(row & (0x10u8 >> 4u8) != 0 <==> row % 2 == 1) by (bit_vector);
}

/// Every character a coordinate or a number is written with has a glyph, seven rows of
/// five columns, and no two look the same.
pub proof fn no_two_glyphs_look_the_same(a: char, b: char)
    ensures
        glyph_rows(a) is Some <==> '0' as nat <= a as nat <= '9' as nat || a == '(' || a == ')' || a
            == ',',
        glyph_rows(a) matches Some(rows) ==> rows.len() == 7 && forall|i: int|
            0 <= i < 7 ==> #[trigger] rows[i] < 32,
        glyph_rows(a) is Some && glyph_rows(a) == glyph_rows(b) ==> a == b,
{
    assert('0' as nat == 48 && '1' as nat == 49 && '2' as nat == 50 && '3' as nat == 51);
    assert('4' as nat == 52 && '5' as nat == 53 && '6' as nat == 54 && '7' as nat == 55);
    assert('8' as nat == 56 && '9' as nat == 57);
    if glyph_rows(a) is Some && glyph_rows(a) == glyph_rows(b) {
        let one = glyph_rows(a)->0;
        let other = glyph_rows(b)->0;
        assert(one[0] == other[0] && one[1] == other[1] && one[2] == other[2] && one[3] == other[3]);
        assert(one[4] == other[4] && one[5] == other[5] && one[6] == other[6]);
    }
}

/// What is kept inside a limit does not stick out of it where it fits, begins at its
/// start otherwise, and is not moved where it is inside already.
pub proof fn what_is_kept_inside_is_inside(start: int, span: int, limit: int)
    requires
        0 <= span,
    ensures
        kept_inside(start, span, limit) >= 0,
        span <= limit ==> kept_inside(start, span, limit) + span <= limit,
        0 <= start && start + span <= limit ==> kept_inside(start, span, limit) == start,
        span > limit ==> kept_inside(start, span, limit) == 0,
        start < 0 && span <= limit ==> kept_inside(start, span, limit) == 0,
        start + span > limit && span <= limit ==> kept_inside(start, span, limit) == limit - span,
{
}

/// A point's mark moves with the point: but for the label beside it, the mark of
/// another point is the same mark there.
pub proof fn a_mark_moves_with_its_point(
    width: int,
    height: int,
    x: int,
    y: int,
    to_x: int,
    to_y: int,
    a: int,
    b: int,
)
    requires
        plate(
            kept_inside(x + 12, label_width(point_label(x, y).len() as int), width),
            kept_inside(y + 10, 7, height),
            point_label(x, y),
        )(x + a, y + b) is None,
        plate(
            kept_inside(to_x + 12, label_width(point_label(to_x, to_y).len() as int), width),
            kept_inside(to_y + 10, 7, height),
            point_label(to_x, to_y),
        )(to_x + a, to_y + b) is None,
    ensures
        executed_mark(width, height, x, y)(x + a, y + b) == executed_mark(
            width,
            height,
            to_x,
            to_y,
        )(to_x + a, to_y + b),
        executed_mark(width, height, x, y)(x + a, y + b) == (if (a == 0 || b == 0) && (3 <= a <= 14
            || 3 <= -a <= 14 || 3 <= b <= 14 || 3 <= -b <= 14) {
            if (a + b) % 2 == 0 && a + b <= 13 && a + b >= -13 {
                Some(black())
            } else {
                Some(white())
            }
        } else if 36 < a * a + b * b <= 64 {
            Some(red())
        } else if 64 < a * a + b * b <= 100 {
            Some(white())
        } else {
            None
        }),
{
    assert(x + a - x == a && y + b - y == b);
    assert(to_x + a - to_x == a && to_y + b - to_y == b);
}

proof fn column_ticks_are_every_hundred(width: int, count: nat, x: int, y: int)
    requires
        0 <= y < 7,
        0 <= x,
    ensures
        column_ticks(width, count)(x, y) == (if x % 100 == 0 && 1 <= x / 100 <= count {
            Some(black())
        } else if x % 100 == 1 && 1 <= x / 100 <= count {
            Some(white())
        } else {
            None
        }),
    decreases count,
{
    if count > 0 {
        column_ticks_are_every_hundred(width, (count - 1) as nat, x, y);
        let at = 100 * count as int;
        assert(column_tick(width, at)(x, y) == (if x == at + 1 {
            Some(white())
        } else if x == at {
            Some(black())
        } else {
            None
        }));
    }
}

proof fn row_ticks_are_every_hundred(height: int, count: nat, x: int, y: int)
    requires
        0 <= x < 7,
        0 <= y,
    ensures
        row_ticks(height, count)(x, y) == (if y % 100 == 0 && 1 <= y / 100 <= count {
            Some(black())
        } else if y % 100 == 1 && 1 <= y / 100 <= count {
            Some(white())
        } else {
            None
        }),
    decreases count,
{
    if count > 0 {
        row_ticks_are_every_hundred(height, (count - 1) as nat, x, y);
        let at = 100 * count as int;
        assert(row_tick(height, at)(x, y) == (if y == at + 1 {
            Some(white())
        } else if y == at {
            Some(black())
        } else {
            None
        }));
    }
}

proof fn row_ticks_leave_the_top(height: int, count: nat, x: int, y: int)
    requires
        y < 7 <= x,
        100 * count < height || count == 0,
    ensures
        row_ticks(height, count)(x, y) is None,
    decreases count,
{
    if count > 0 {
        row_ticks_leave_the_top(height, (count - 1) as nat, x, y);
        let at = 100 * count as int;
        assert(kept_inside(at + 3, 7, height) >= 90);
        assert(row_tick(height, at)(x, y) is None);
    }
}

proof fn column_ticks_leave_the_left(width: int, count: nat, x: int, y: int)
    requires
        x < 7 <= y,
        100 * count < width || count == 0,
        width <= u32::MAX,
    ensures
        column_ticks(width, count)(x, y) is None,
    decreases count,
{
    if count > 0 {
        column_ticks_leave_the_left(width, (count - 1) as nat, x, y);
        let at = 100 * count as int;
        let label = text::decimal(at as nat);
        reveal_with_fuel(text::ten_to, 11);
        text::a_decimal_is_short(at as nat, 10);
        assert(kept_inside(at + 3, label_width(label.len() as int), width) >= 8);
        assert(column_tick(width, at)(x, y) is None);
    }
}

/// Rulers tick at every hundredth pixel of the top and of the left edge that the picture
/// has, in black with a white shadow, and draw nothing else along those edges.
pub proof fn rulers_tick_every_hundred(width: u32, height: u32, x: int, y: int)
    requires
        0 <= x < width,
        0 <= y < height,
    ensures
        y < 7 <= x ==> ruled(width as nat, height as nat)(x, y) == (if x % 100 == 0 && x >= 100 {
            Some(black())
        } else if x % 100 == 1 && x > 100 {
            Some(white())
        } else {
            None
        }),
        x < 7 <= y ==> ruled(width as nat, height as nat)(x, y) == (if y % 100 == 0 && y >= 100 {
            Some(black())
        } else if y % 100 == 1 && y > 100 {
            Some(white())
        } else {
            None
        }),
{
    let across = hundreds(width as nat);
    let down = hundreds(height as nat);
    if y < 7 <= x {
        column_ticks_are_every_hundred(width as int, across, x, y);
        row_ticks_leave_the_top(height as int, down, x, y);
    }
    if x < 7 <= y {
        row_ticks_are_every_hundred(height as int, down, x, y);
        column_ticks_leave_the_left(width as int, across, x, y);
    }
}

/// A badge is centred on its place and moves with it; it reaches seven pixels up and
/// down, and to the sides at least nine and always past its number.
pub proof fn a_badge_is_centred_on_its_place(x: int, y: int, n: nat, a: int, b: int)
    ensures
        badge_mark(x, y, n)(x + a, y + b) == badge_mark(0, 0, n)(a, b),
        badge_half(text::decimal(n).len() as int) >= 8,
        2 * badge_half(text::decimal(n).len() as int) >= label_width(text::decimal(n).len() as int)
            + 7,
        badge_mark(x, y, n)(x + a, y + b) is Some <==> {
            &&& -badge_half(text::decimal(n).len() as int) - 1 <= a < badge_half(
                text::decimal(n).len() as int,
            ) + 1
            &&& -7 <= b < 7
        },
        badge_mark(x, y, n)(x + a, y + b) == Some(red()) <==> {
            &&& -badge_half(text::decimal(n).len() as int) <= a < badge_half(
                text::decimal(n).len() as int,
            )
            &&& -6 <= b < 6
            &&& !(-(label_width(text::decimal(n).len() as int) / 2) - 1 <= a < -(label_width(
                text::decimal(n).len() as int,
            ) / 2) + label_width(text::decimal(n).len() as int) + 1 && -4 <= b < 5)
        },
{
    let label = text::decimal(n);
    text::a_decimal_reads_back(n);
    let left = label_width(label.len() as int) / 2;
    colors_differ();
    assert(x + a - (x - left) == a - (0 - left));
    assert(y + b - (y - 3) == b - (0 - 3));
    assert(plate(x - left, y - 3, label)(x + a, y + b) == plate(0 - left, 0 - 3, label)(a, b));
}

proof fn colors_differ()
    ensures
        black() != white(),
        black() != red(),
        white() != red(),
{
    assert(black()[0] == 0 && white()[0] == 255 && red()[0] == 230);
}

/// The characters of a label stand side by side, six pixels apart, each with the ink of
/// its glyph; the plate behind them reaches one pixel past the label on every side.
pub proof fn a_label_is_its_characters(x: int, y: int, label: Seq<char>, a: int, b: int)
    requires
        label.len() > 0,
    ensures
        plate(x, y, label)(x + a, y + b) == Some(black()) <==> 0 <= a < 6 * label.len() && lit(
            label[a / 6],
            a % 6,
            b,
        ),
        plate(x, y, label)(x + a, y + b) is Some <==> -1 <= a <= 6 * label.len() - 1 && -1 <= b < 8
            || 0 <= a < 6 * label.len() && lit(label[a / 6], a % 6, b),
        lit(label[0], a, b) ==> 0 <= a < 5 && 0 <= b < 7,
{
    colors_differ();
    assert(x + a - x == a && y + b - y == b);
}

/// Every color that is drawn hides what is under it: black is no light at all, white all of
/// it, and red mostly red.
pub proof fn colors_are_opaque()
    ensures
        forall|i: int| 0 <= i < 3 ==> #[trigger] black()[i] == 0 && white()[i] == 255,
        black()[3] == 255 && white()[3] == 255 && red()[3] == 255,
        red()[0] == 230 && red()[1] == 40 && red()[2] == 40,
        black().len() == 4 && white().len() == 4 && red().len() == 4,
{
}

/// A badge is four pixels wider than half its number on either side, and eight at the least.
pub proof fn a_badge_is_as_wide_as_its_number(characters: int)
    requires
        characters >= 0,
    ensures
        badge_half(characters) >= 8,
        badge_half(characters) >= label_width(characters) / 2 + 4,
        badge_half(characters) == 8 || badge_half(characters) == label_width(characters) / 2 + 4,
        characters > 0 ==> label_width(characters) == 6 * characters - 1,
        label_width(0) == 0,
{
}

} // verus!
