//! The windows of a desktop: which are listed and where, and which application a view
//! is about.

use serde_json::Value;
use vstd::prelude::*;

use crate::geometry::{Geometry, Region};
use crate::json::{self, Json};
use crate::listing;
use crate::measure;
use crate::view;
use crate::wire::{self, Failure};

verus! {

/// How many windows a listing reports.
pub const MAX_WINDOWS: usize = 40;

/// A window, as the system describes it. What it does not say is absent, and its
/// place and size are in millionths of a point.
#[derive(Debug)]
pub struct WindowReading {
    pub id: Option<u32>,
    /// How far to the front it is.
    pub z: i32,
    pub minimized: bool,
    pub focused: bool,
    pub app: String,
    pub title: String,
    pub pid: Option<u32>,
    pub bounds: Option<Region>,
}

/// Where a window goes among windows that are already in order: behind every one
/// that is no further back.
pub open spec fn placed(sorted: Seq<WindowReading>, window: WindowReading) -> Seq<WindowReading>
    decreases sorted.len(),
{
    if sorted.len() == 0 || sorted.last().z >= window.z {
        sorted.push(window)
    } else {
        placed(sorted.drop_last(), window).push(sorted.last())
    }
}

/// Windows from the front to the back; of two equally far to the front, the one that
/// was listed first.
pub open spec fn from_the_front(windows: Seq<WindowReading>) -> Seq<WindowReading>
    decreases windows.len(),
{
    if windows.len() == 0 {
        windows
    } else {
        placed(from_the_front(windows.drop_last()), windows.last())
    }
}

/// Whether windows stand from the front to the back.
pub open spec fn ordered(windows: Seq<WindowReading>) -> bool {
    forall|i: int, j: int| 0 <= i < j < windows.len() ==> windows[i].z >= windows[j].z
}

proof fn placing_keeps_order(sorted: Seq<WindowReading>, window: WindowReading)
    requires
        ordered(sorted),
    ensures
        ordered(placed(sorted, window)),
        placed(sorted, window).len() == sorted.len() + 1,
        placed(sorted, window).to_multiset() == sorted.to_multiset().insert(window),
    decreases sorted.len(),
{
    broadcast use vstd::seq_lib::group_to_multiset_ensures;

    if sorted.len() == 0 || sorted.last().z >= window.z {
        let r = sorted.push(window);
        assert(ordered(r));
    } else {
        let front = sorted.drop_last();
        assert(ordered(front));
        placing_keeps_order(front, window);
        let inner = placed(front, window);
        let r = inner.push(sorted.last());
        assert(sorted =~= front.push(sorted.last()));
        everything_placed_is_in_front(front, window, sorted.last().z as int);
        assert(ordered(r));
    }
}

proof fn everything_placed_is_in_front(sorted: Seq<WindowReading>, window: WindowReading, z: int)
    requires
        window.z >= z,
        forall|i: int| 0 <= i < sorted.len() ==> (#[trigger] sorted[i]).z >= z,
    ensures
        forall|i: int|
            0 <= i < placed(sorted, window).len() ==> (#[trigger] placed(sorted, window)[i]).z >= z,
    decreases sorted.len(),
{
    if sorted.len() > 0 && sorted.last().z < window.z {
        everything_placed_is_in_front(sorted.drop_last(), window, z);
    }
}

/// Putting windows in order keeps every one of them, and the one further to the front
/// comes first.
pub proof fn the_front_comes_first(windows: Seq<WindowReading>)
    ensures
        ordered(from_the_front(windows)),
        from_the_front(windows).to_multiset() == windows.to_multiset(),
        from_the_front(windows).len() == windows.len(),
    decreases windows.len(),
{
    broadcast use vstd::seq_lib::group_to_multiset_ensures;

    if windows.len() > 0 {
        the_front_comes_first(windows.drop_last());
        placing_keeps_order(from_the_front(windows.drop_last()), windows.last());
        assert(windows =~= windows.drop_last().push(windows.last()));
    }
}

/// The windows of a list that stand that far to the front, in its order.
pub open spec fn standing_at(windows: Seq<WindowReading>, z: i32) -> Seq<WindowReading> {
    windows.filter(|window: WindowReading| window.z == z)
}

/// Windows equally far to the front keep the order in which they were listed.
pub proof fn equals_keep_their_order(windows: Seq<WindowReading>, z: i32)
    ensures
        standing_at(from_the_front(windows), z) == standing_at(windows, z),
    decreases windows.len(),
{
    if windows.len() > 0 {
        the_front_comes_first(windows.drop_last());
        equals_keep_their_order(windows.drop_last(), z);
        placing_comes_after_equals(from_the_front(windows.drop_last()), windows.last(), z);
        windows.drop_last().lemma_filter_push(windows.last(), |w: WindowReading| w.z == z);
        assert(windows =~= windows.drop_last().push(windows.last()));
    }
}

proof fn placing_comes_after_equals(sorted: Seq<WindowReading>, window: WindowReading, z: i32)
    requires
        ordered(sorted),
    ensures
        standing_at(placed(sorted, window), z) == (if window.z == z {
            standing_at(sorted, z).push(window)
        } else {
            standing_at(sorted, z)
        }),
    decreases sorted.len(),
{
    let same = |w: WindowReading| w.z == z;
    if sorted.len() == 0 || sorted.last().z >= window.z {
        sorted.lemma_filter_push(window, same);
    } else {
        let front = sorted.drop_last();
        placing_comes_after_equals(front, window, z);
        placed(front, window).lemma_filter_push(sorted.last(), same);
        assert(sorted =~= front.push(sorted.last()));
        front.lemma_filter_push(sorted.last(), same);
        if window.z == z {
            assert(sorted.last().z != z);
        }
    }
}

fn place(sorted: &mut Vec<WindowReading>, window: WindowReading)
    ensures
        final(sorted)@ == placed(old(sorted)@, window),
{
    let ghost all = sorted@;
    let mut at: usize = sorted.len();
    assert(all.take(at as int) =~= all);
    assert(placed(all, window) =~= placed(all.take(at as int), window) + all.skip(at as int));
    while at > 0 && sorted[at - 1].z < window.z
        invariant
            at <= sorted@.len(),
            sorted@ == all,
            placed(all, window) == placed(all.take(at as int), window) + all.skip(at as int),
        decreases at,
    {
        proof {
            let head = all.take(at as int);
            assert(head.drop_last() =~= all.take(at - 1));
            assert(head.last() == all[at - 1]);
            assert(placed(head, window) + all.skip(at as int) =~= placed(all.take(at - 1), window)
                + all.skip(at - 1));
        }
        at -= 1;
    }
    proof {
        let head = all.take(at as int);
        if at > 0 {
            assert(head.last() == all[at - 1]);
        }
        assert(placed(head, window) == head.push(window));
        assert(head.push(window) + all.skip(at as int) =~= all.insert(at as int, window));
    }
    sorted.insert(at, window);
}

/// Puts windows in order from the front to the back.
pub fn front_to_back(windows: Vec<WindowReading>) -> (r: Vec<WindowReading>)
    ensures
        r@ == from_the_front(windows@),
{
    let ghost all = windows@;
    let mut rest = windows;
    let mut sorted: Vec<WindowReading> = Vec::new();
    let ghost mut done: int = 0;
    assert(all.take(0) =~= Seq::empty());
    while rest.len() > 0
        invariant
            0 <= done <= all.len(),
            rest@ == all.skip(done),
            sorted@ == from_the_front(all.take(done)),
        decreases rest@.len(),
    {
        let window = rest.remove(0);
        place(&mut sorted, window);
        proof {
            assert(all.take(done + 1).drop_last() =~= all.take(done));
            assert(all.take(done + 1).last() == all[done]);
            assert(rest@ =~= all.skip(done + 1));
            done = done + 1;
        }
    }
    assert(all.take(done) =~= all);
    sorted
}

/// Whether a window is one a person works in: it is not minimized and, where the
/// system says which windows are on the ordinary layer, it is one of those.
pub open spec fn workable(window: WindowReading, normal: Option<Seq<u32>>) -> bool {
    &&& !window.minimized
    &&& match (normal, window.id) {
        (Some(normal), Some(id)) => normal.contains(id),
        _ => true,
    }
}

/// The identifiers of an optional list.
pub open spec fn layer_of(normal: Option<&Vec<u32>>) -> Option<Seq<u32>> {
    match normal {
        Some(normal) => Some(normal@),
        None => None,
    }
}

fn holds(ids: &Vec<u32>, id: u32) -> (r: bool)
    ensures
        r == ids@.contains(id),
{
    let mut i: usize = 0;
    while i < ids.len()
        invariant
            i <= ids@.len(),
            forall|k: int| 0 <= k < i ==> ids@[k] != id,
        decreases ids@.len() - i,
    {
        if ids[i] == id {
            assert(ids@[i as int] == id);
            return true;
        }
        i += 1;
    }
    false
}

fn is_workable(window: &WindowReading, normal: Option<&Vec<u32>>) -> (r: bool)
    ensures
        r == workable(*window, layer_of(normal)),
{
    if window.minimized {
        return false;
    }
    match (normal, window.id) {
        (Some(normal), Some(id)) => holds(normal, id),
        _ => true,
    }
}

/// A length in points as pixels of the picture that would be sent, `scale` millionths
/// of one to the point.
pub open spec fn scaled(length: int, scale: int) -> int {
    measure::rounded(length * scale)
}

/// Bounds in logical points as a rectangle of the picture of the whole display,
/// clipped to it; nothing for bounds without a size and for what is left of them
/// where that is less than a pixel.
pub open spec fn sent_region(geom: Geometry, full: Region, scale: int, bounds: Region) -> Option<
    Region,
> {
    let left = scaled(bounds.x - geom.origin_x, scale);
    let top = scaled(bounds.y - geom.origin_y, scale);
    let x0 = view::most(left, full.x as int);
    let y0 = view::most(top, full.y as int);
    let x1 = view::least(left + scaled(bounds.w as int, scale), full.x + full.w);
    let y1 = view::least(top + scaled(bounds.h as int, scale), full.y + full.h);
    if bounds.w <= 0 || bounds.h <= 0 || x1 - x0 < measure::UNIT || y1 - y0 < measure::UNIT {
        None
    } else {
        Some(Region { x: x0 as i64, y: y0 as i64, w: (x1 - x0) as i64, h: (y1 - y0) as i64 })
    }
}

fn scale_length(length: i128, scale: i64) -> (r: i128)
    requires
        -0x1_0000_0000_0000_0000 <= length <= 0x1_0000_0000_0000_0000,
        0 < scale <= 1_000_000_000_000,
    ensures
        r == scaled(length as int, scale as int),
        -0x100_0000_0000_0000_0000_0000 <= r <= 0x100_0000_0000_0000_0000_0000,
{
    proof {
        assert(-0x1_0000_0000_0000_0000 * 1_000_000_000_000 <= length * scale
            <= 0x1_0000_0000_0000_0000 * 1_000_000_000_000) by (nonlinear_arith)
            requires
                -0x1_0000_0000_0000_0000 <= length <= 0x1_0000_0000_0000_0000,
                0 < scale <= 1_000_000_000_000,
        ;
    }
    let wide: i128 = length * scale as i128;
    if wide >= 0 {
        (wide + 500_000) / 1_000_000
    } else {
        let size: i128 = (500_000 - wide) / 1_000_000;
        -size
    }
}

/// Converts bounds in logical points to a rectangle of the picture of the whole
/// display. `scale` is how many millionths of a sent pixel a point is.
pub fn logical_bounds_to_region(geom: &Geometry, full: &Region, scale: i64, bounds: &Region) -> (r:
    Option<Region>)
    requires
        0 < scale <= 1_000_000_000_000,
        full.x + full.w <= i64::MAX,
        full.y + full.h <= i64::MAX,
        full.x >= 0,
        full.y >= 0,
    ensures
        r == sent_region(*geom, *full, scale as int, *bounds),
        r matches Some(region) ==> full.x <= region.x && region.x + region.w <= full.x + full.w
            && full.y <= region.y && region.y + region.h <= full.y + full.h,
{
    if bounds.w <= 0 || bounds.h <= 0 {
        return None;
    }
    let left: i128 = scale_length(bounds.x as i128 - geom.origin_x as i128, scale);
    let top: i128 = scale_length(bounds.y as i128 - geom.origin_y as i128, scale);
    let right: i128 = left + scale_length(bounds.w as i128, scale);
    let bottom: i128 = top + scale_length(bounds.h as i128, scale);
    let x0: i128 = if left >= full.x as i128 {
        left
    } else {
        full.x as i128
    };
    let y0: i128 = if top >= full.y as i128 {
        top
    } else {
        full.y as i128
    };
    let far_x: i128 = full.x as i128 + full.w as i128;
    let far_y: i128 = full.y as i128 + full.h as i128;
    let x1: i128 = if right <= far_x {
        right
    } else {
        far_x
    };
    let y1: i128 = if bottom <= far_y {
        bottom
    } else {
        far_y
    };
    if x1 - x0 < 1_000_000 || y1 - y0 < 1_000_000 {
        return None;
    }
    Some(Region { x: x0 as i64, y: y0 as i64, w: (x1 - x0) as i64, h: (y1 - y0) as i64 })
}

/// Only where bounds lie on their display counts: a display that stands elsewhere on
/// the desktop, and what is on it, give the same rectangle.
pub proof fn a_display_carries_its_windows(
    geom: Geometry,
    moved: Geometry,
    full: Region,
    scale: int,
    bounds: Region,
    carried: Region,
)
    requires
        carried.x - bounds.x == moved.origin_x - geom.origin_x,
        carried.y - bounds.y == moved.origin_y - geom.origin_y,
        carried.w == bounds.w,
        carried.h == bounds.h,
    ensures
        sent_region(moved, full, scale, carried) == sent_region(geom, full, scale, bounds),
{
    assert(carried.x - moved.origin_x == bounds.x - geom.origin_x);
    assert(carried.y - moved.origin_y == bounds.y - geom.origin_y);
}

/// Bounds that begin at the corner of their display and have its size are the whole
/// picture of it, wherever the display stands.
pub proof fn a_display_fills_its_picture(geom: Geometry, full: Region, scale: int, bounds: Region)
    requires
        bounds.x == geom.origin_x,
        bounds.y == geom.origin_y,
        bounds.w > 0 && bounds.h > 0,
        full.x == 0 && full.y == 0,
        full.w >= measure::UNIT && full.h >= measure::UNIT,
        -measure::UNIT < 2 * (full.w * measure::UNIT - bounds.w * scale) < measure::UNIT,
        -measure::UNIT < 2 * (full.h * measure::UNIT - bounds.h * scale) < measure::UNIT,
    ensures
        sent_region(geom, full, scale, bounds) == Some(full),
{
    assert((bounds.x - geom.origin_x) * scale == 0) by (nonlinear_arith)
        requires
            bounds.x == geom.origin_x,
    ;
    assert((bounds.y - geom.origin_y) * scale == 0) by (nonlinear_arith)
        requires
            bounds.y == geom.origin_y,
    ;
    measure::a_length_rounds_to_the_nearest(bounds.w * scale);
    measure::a_length_rounds_to_the_nearest(bounds.h * scale);
}

/// A side of a rectangle lies where the scale puts the ends of the bounds, each to
/// within a millionth of a pixel, unless the display ends before that. `from` and
/// `length` are of the bounds, as the scale takes them, `start` and `size` of the
/// rectangle, and `first` and `last` are where the display begins and ends.
pub open spec fn to_scale(
    from: int,
    length: int,
    start: int,
    size: int,
    first: int,
    last: int,
) -> bool {
    &&& first <= start && start + size <= last
    &&& -measure::UNIT <= 2 * (start * measure::UNIT - from) <= measure::UNIT || (start == first
        && from <= first * measure::UNIT + measure::UNIT)
    &&& measure::distance((start + size) * measure::UNIT, from + length) <= measure::UNIT || (start
        + size == last && from + length >= last * measure::UNIT - measure::UNIT)
}

/// How much of the bounds a display shows along one side, as the scale takes them.
pub open spec fn shown(from: int, length: int, first: int, last: int) -> int {
    view::least(from + length, last * measure::UNIT) - view::most(from, first * measure::UNIT)
}

/// A rectangle is its bounds to scale, counted from the corner of the display and cut
/// off at its edges. What shows at least a pixel of itself both ways has one, and what
/// shows less has none, to within two millionths of a pixel.
pub proof fn a_region_is_its_bounds_to_scale(
    geom: Geometry,
    full: Region,
    scale: int,
    bounds: Region,
)
    requires
        0 < scale <= 1_000_000_000_000,
        full.x >= 0 && full.y >= 0,
        full.x + full.w <= i64::MAX,
        full.y + full.h <= i64::MAX,
    ensures
        ({
            let across = (bounds.x - geom.origin_x) * scale;
            let down = (bounds.y - geom.origin_y) * scale;
            let wide = shown(across, bounds.w * scale, full.x as int, full.x + full.w);
            let high = shown(down, bounds.h * scale, full.y as int, full.y + full.h);
            let pixel = measure::UNIT * measure::UNIT;
            &&& sent_region(geom, full, scale, bounds) matches Some(region) ==> {
                &&& bounds.w > 0 && bounds.h > 0
                &&& to_scale(
                    across,
                    bounds.w * scale,
                    region.x as int,
                    region.w as int,
                    full.x as int,
                    full.x + full.w,
                )
                &&& to_scale(
                    down,
                    bounds.h * scale,
                    region.y as int,
                    region.h as int,
                    full.y as int,
                    full.y + full.h,
                )
            }
            &&& wide >= pixel + 2 * measure::UNIT && high >= pixel + 2 * measure::UNIT
                ==> sent_region(geom, full, scale, bounds) is Some
            &&& wide <= pixel - 2 * measure::UNIT || high <= pixel - 2 * measure::UNIT
                ==> sent_region(geom, full, scale, bounds) is None
        }),
{
    measure::a_length_rounds_to_the_nearest((bounds.x - geom.origin_x) * scale);
    measure::a_length_rounds_to_the_nearest((bounds.y - geom.origin_y) * scale);
    measure::a_length_rounds_to_the_nearest(bounds.w * scale);
    measure::a_length_rounds_to_the_nearest(bounds.h * scale);
    assert(bounds.w <= 0 ==> bounds.w * scale <= 0) by (nonlinear_arith)
        requires
            0 < scale,
    ;
    assert(bounds.h <= 0 ==> bounds.h * scale <= 0) by (nonlinear_arith)
        requires
            0 < scale,
    ;
}

/// Where a window is in the picture of the whole display; nothing for one that does
/// not say, and for one that is not on it.
pub open spec fn region_of(window: WindowReading, geom: Geometry, full: Region, scale: int) -> Option<
    Region,
> {
    match window.bounds {
        Some(bounds) => sent_region(geom, full, scale, bounds),
        None => None,
    }
}

/// Whether a window is listed.
pub open spec fn is_listed(
    window: WindowReading,
    normal: Option<Seq<u32>>,
    geom: Geometry,
    full: Region,
    scale: int,
) -> bool {
    workable(window, normal) && region_of(window, geom, full, scale) is Some
}

/// One window, as a listing reports it.
pub open spec fn window_json(window: WindowReading, region: Region) -> Json {
    Json::Object(
        Map::<Seq<char>, Json>::empty().insert(
            "id"@,
            Json::Unsigned(
                match window.id {
                    Some(id) => id as u64,
                    None => 0,
                },
            ),
        ).insert("app"@, Json::Text(window.app@)).insert("title"@, Json::Text(window.title@)).insert(
            "focused"@,
            Json::Bool(window.focused),
        ).insert("region"@, listing::region_json(region)),
    )
}

/// The windows a listing reports, from the front to the back.
pub open spec fn listed_windows(
    windows: Seq<WindowReading>,
    normal: Option<Seq<u32>>,
    geom: Geometry,
    full: Region,
    scale: int,
) -> Seq<Json>
    decreases windows.len(),
{
    if windows.len() == 0 {
        Seq::empty()
    } else {
        let before = listed_windows(windows.drop_last(), normal, geom, full, scale);
        let window = windows.last();
        if is_listed(window, normal, geom, full, scale) {
            before.push(window_json(window, region_of(window, geom, full, scale)->0))
        } else {
            before
        }
    }
}

fn window_value(window: &WindowReading, region: &Region) -> (r: Value)
    ensures
        json::json_of(r) == window_json(*window, *region),
{
    let id: u64 = match window.id {
        Some(id) => id as u64,
        None => 0,
    };
    let mut entry = json::object();
    json::insert(&mut entry, "id", json::unsigned(id));
    json::insert(&mut entry, "app", json::string(window.app.as_str()));
    json::insert(&mut entry, "title", json::string(window.title.as_str()));
    json::insert(&mut entry, "focused", json::boolean(window.focused));
    json::insert(&mut entry, "region", listing::region_value(region));
    entry
}

/// Every window of a display, from the front to the back, each with the rectangle of
/// the whole picture it covers.
pub fn window_entries(
    windows: Vec<WindowReading>,
    normal: Option<&Vec<u32>>,
    geom: &Geometry,
    full: &Region,
    scale: i64,
) -> (r: Vec<Value>)
    requires
        0 < scale <= 1_000_000_000_000,
        full.x + full.w <= i64::MAX,
        full.y + full.h <= i64::MAX,
        full.x >= 0,
        full.y >= 0,
    ensures
        json::json_list(r@) == listed_windows(
            from_the_front(windows@),
            layer_of(normal),
            *geom,
            *full,
            scale as int,
        ),
{
    let sorted = front_to_back(windows);
    let ghost layer = layer_of(normal);
    let mut entries: Vec<Value> = Vec::new();
    let mut i: usize = 0;
    assert(json::json_list(entries@) =~= listed_windows(
        sorted@.take(0),
        layer,
        *geom,
        *full,
        scale as int,
    ));
    while i < sorted.len()
        invariant
            i <= sorted@.len(),
            layer == layer_of(normal),
            0 < scale <= 1_000_000_000_000,
            full.x + full.w <= i64::MAX,
            full.y + full.h <= i64::MAX,
            full.x >= 0,
            full.y >= 0,
            json::json_list(entries@) == listed_windows(
                sorted@.take(i as int),
                layer,
                *geom,
                *full,
                scale as int,
            ),
        decreases sorted@.len() - i,
    {
        let window = &sorted[i];
        proof {
            assert(sorted@.take(i as int + 1).drop_last() =~= sorted@.take(i as int));
            assert(sorted@.take(i as int + 1).last() == *window);
        }
        if is_workable(window, normal) {
            if let Some(bounds) = &window.bounds {
                if let Some(region) = logical_bounds_to_region(geom, full, scale, bounds) {
                    let ghost held = json::json_list(entries@);
                    entries.push(window_value(window, &region));
                    assert(json::json_list(entries@) =~= held.push(window_json(*window, region)));
                }
            }
        }
        i += 1;
    }
    assert(sorted@.take(i as int) =~= sorted@);
    entries
}

/// A listing of some windows and then of more is that of the first and then that of
/// the rest, so the windows stand in it in their order.
pub proof fn windows_are_listed_in_order(
    windows: Seq<WindowReading>,
    more: Seq<WindowReading>,
    normal: Option<Seq<u32>>,
    geom: Geometry,
    full: Region,
    scale: int,
)
    ensures
        listed_windows(windows + more, normal, geom, full, scale) == listed_windows(
            windows,
            normal,
            geom,
            full,
            scale,
        ) + listed_windows(more, normal, geom, full, scale),
    decreases more.len(),
{
    let listed = |of: Seq<WindowReading>| listed_windows(of, normal, geom, full, scale);
    if more.len() == 0 {
        assert(windows + more =~= windows);
        assert(listed(windows) + listed(more) =~= listed(windows));
    } else {
        windows_are_listed_in_order(windows, more.drop_last(), normal, geom, full, scale);
        assert((windows + more).drop_last() =~= windows + more.drop_last());
        assert((windows + more).last() == more.last());
        assert(listed(windows + more) =~= listed(windows) + listed(more));
    }
}

/// A window is listed exactly where it is not minimized, is not known to stand on
/// another layer, and shows on the display; and what is listed of it is what it says
/// of itself, at the rectangle it shows in.
pub proof fn a_window_is_listed_as_it_is(
    window: WindowReading,
    normal: Option<Seq<u32>>,
    geom: Geometry,
    full: Region,
    scale: int,
)
    ensures
        ({
            let listed = listed_windows(seq![window], normal, geom, full, scale);
            let shows = window.bounds is Some && sent_region(
                geom,
                full,
                scale,
                window.bounds->0,
            ) is Some;
            let elsewhere = normal is Some && window.id is Some && !normal->0.contains(
                window.id->0,
            );
            &&& listed.len() == (if !window.minimized && !elsewhere && shows {
                1nat
            } else {
                0nat
            })
            &&& listed.len() == 1 ==> {
                &&& json::field_text(listed[0], "app"@) == Some(window.app@)
                &&& json::field_text(listed[0], "title"@) == Some(window.title@)
                &&& json::field_bool(listed[0], "focused"@) == Some(window.focused)
                &&& json::field_u64(listed[0], "id"@) == Some(
                    match window.id {
                        Some(id) => id as u64,
                        None => 0,
                    },
                )
                &&& json::field(listed[0], "region"@) == Some(
                    listing::region_json(sent_region(geom, full, scale, window.bounds->0)->0),
                )
            }
        }),
{
    reveal_strlit("app");
    reveal_strlit("title");
    reveal_strlit("focused");
    reveal_strlit("id");
    reveal_strlit("region");
    assert("app"@.len() == 3);
    assert("title"@.len() == 5);
    assert("focused"@.len() == 7);
    assert("id"@.len() == 2);
    assert("region"@.len() == 6);
    reveal_with_fuel(listed_windows, 2);
    assert(seq![window].drop_last() =~= Seq::empty());
}

/// The members of a window listing: the windows nearest the front, as many as are
/// reported.
pub open spec fn windows_json(listed: Seq<Json>) -> Json {
    Json::Object(
        Map::<Seq<char>, Json>::empty().insert("ok"@, Json::Bool(true)).insert(
            "windows"@,
            Json::List(
                if listed.len() > MAX_WINDOWS {
                    listed.take(MAX_WINDOWS as int)
                } else {
                    listed
                },
            ),
        ),
    )
}

/// A listing reports the windows nearest the front, forty at most, and leaves out none
/// that it has room for.
pub proof fn the_nearest_windows_are_reported(listed: Seq<Json>)
    ensures
        json::field(windows_json(listed), "windows"@) matches Some(Json::List(reported)) && {
            &&& reported.len() == view::least(listed.len() as int, 40)
            &&& forall|i: int| 0 <= i < reported.len() ==> #[trigger] reported[i] == listed[i]
        },
        json::field_bool(windows_json(listed), "ok"@) == Some(true),
{
    reveal_strlit("ok");
    reveal_strlit("windows");
    assert("ok"@.len() == 2);
    assert("windows"@.len() == 7);
}

/// The windows of a display, as a listing reports them.
pub fn windows(listed: Vec<Value>) -> (r: Value)
    ensures
        json::json_of(r) == windows_json(json::json_list(listed@)),
{
    let ghost all = json::json_list(listed@);
    let mut listed = listed;
    if listed.len() > MAX_WINDOWS {
        listed.truncate(MAX_WINDOWS);
        assert(json::json_list(listed@) =~= all.take(MAX_WINDOWS as int));
    }
    let mut payload = json::object();
    json::insert(&mut payload, "ok", json::boolean(true));
    json::insert(&mut payload, "windows", json::list(listed));
    payload
}

/// The application a window belongs to.
#[derive(Debug)]
pub struct TargetApp {
    pub pid: i32,
    pub app: String,
}

/// What names an application.
#[verifier::ext_equal]
pub struct TargetAppView {
    pub pid: i32,
    pub app: Seq<char>,
}

impl View for TargetApp {
    type V = TargetAppView;

    open spec fn view(&self) -> TargetAppView {
        TargetAppView { pid: self.pid, app: self.app@ }
    }
}

/// A window that may be the one a view is about: where it is, and whose it is.
#[derive(Debug)]
pub struct Candidate {
    pub bounds: Region,
    pub target: TargetApp,
}

/// What a candidate says.
#[verifier::ext_equal]
pub struct CandidateView {
    pub bounds: Region,
    pub target: TargetAppView,
}

impl View for Candidate {
    type V = CandidateView;

    open spec fn view(&self) -> CandidateView {
        CandidateView { bounds: self.bounds, target: self.target@ }
    }
}

/// What every candidate of a list says.
pub open spec fn candidate_views(candidates: Seq<Candidate>) -> Seq<CandidateView> {
    candidates.map_values(|candidate: Candidate| candidate@)
}

/// The windows that may be the one a view is about, from the front to the back: those
/// that are listed and say whose they are.
pub open spec fn candidates_of(
    windows: Seq<WindowReading>,
    normal: Option<Seq<u32>>,
    geom: Geometry,
    full: Region,
    scale: int,
) -> Seq<CandidateView>
    decreases windows.len(),
{
    if windows.len() == 0 {
        Seq::empty()
    } else {
        let before = candidates_of(windows.drop_last(), normal, geom, full, scale);
        let window = windows.last();
        match window.pid {
            Some(pid) => if is_listed(window, normal, geom, full, scale) {
                before.push(
                    CandidateView {
                        bounds: region_of(window, geom, full, scale)->0,
                        target: TargetAppView { pid: pid_of(pid), app: window.app@ },
                    },
                )
            } else {
                before
            },
            None => before,
        }
    }
}

/// A process number as the platform's calls take it.
pub open spec fn pid_of(pid: u32) -> i32 {
    if pid <= i32::MAX {
        pid as i32
    } else {
        (pid - 0x1_0000_0000) as i32
    }
}

/// A process number keeps its low 32 bits, and its value where that fits.
pub proof fn a_process_keeps_its_number(pid: u32)
    ensures
        pid <= i32::MAX ==> pid_of(pid) == pid,
        (pid - pid_of(pid)) % 0x1_0000_0000 == 0,
{
}

/// Candidates stand in the order of their windows.
pub proof fn candidates_stand_in_order(
    windows: Seq<WindowReading>,
    more: Seq<WindowReading>,
    normal: Option<Seq<u32>>,
    geom: Geometry,
    full: Region,
    scale: int,
)
    ensures
        candidates_of(windows + more, normal, geom, full, scale) == candidates_of(
            windows,
            normal,
            geom,
            full,
            scale,
        ) + candidates_of(more, normal, geom, full, scale),
    decreases more.len(),
{
    let found = |of: Seq<WindowReading>| candidates_of(of, normal, geom, full, scale);
    if more.len() == 0 {
        assert(windows + more =~= windows);
        assert(found(windows) + found(more) =~= found(windows));
    } else {
        candidates_stand_in_order(windows, more.drop_last(), normal, geom, full, scale);
        assert((windows + more).drop_last() =~= windows + more.drop_last());
        assert((windows + more).last() == more.last());
        assert(found(windows + more) =~= found(windows) + found(more));
    }
}

/// A window may be what a view is about exactly where it would be listed and says
/// whose it is; the candidate is its rectangle and its application.
pub proof fn a_candidate_is_a_listed_window(
    window: WindowReading,
    normal: Option<Seq<u32>>,
    geom: Geometry,
    full: Region,
    scale: int,
)
    ensures
        ({
            let found = candidates_of(seq![window], normal, geom, full, scale);
            let listed = listed_windows(seq![window], normal, geom, full, scale);
            &&& found.len() == (if window.pid is Some {
                listed.len()
            } else {
                0
            })
            &&& found.len() == 1 ==> {
                &&& Some(found[0].bounds) == sent_region(geom, full, scale, window.bounds->0)
                &&& found[0].target.app == window.app@
                &&& found[0].target.pid == pid_of(window.pid->0)
            }
        }),
{
    reveal_with_fuel(listed_windows, 2);
    reveal_with_fuel(candidates_of, 2);
    assert(seq![window].drop_last() =~= Seq::empty());
}

fn to_pid(pid: u32) -> (r: i32)
    ensures
        r == pid_of(pid),
{
    if pid <= i32::MAX as u32 {
        pid as i32
    } else {
        (pid as i64 - 0x1_0000_0000) as i32
    }
}

/// The windows that may be the one a view is about, from the front to the back.
pub fn window_candidates(
    windows: Vec<WindowReading>,
    normal: Option<&Vec<u32>>,
    geom: &Geometry,
    full: &Region,
    scale: i64,
) -> (r: Vec<Candidate>)
    requires
        0 < scale <= 1_000_000_000_000,
        full.x + full.w <= i64::MAX,
        full.y + full.h <= i64::MAX,
        full.x >= 0,
        full.y >= 0,
    ensures
        candidate_views(r@) == candidates_of(
            from_the_front(windows@),
            layer_of(normal),
            *geom,
            *full,
            scale as int,
        ),
{
    let sorted = front_to_back(windows);
    let ghost layer = layer_of(normal);
    let mut found: Vec<Candidate> = Vec::new();
    let mut i: usize = 0;
    assert(candidate_views(found@) =~= candidates_of(
        sorted@.take(0),
        layer,
        *geom,
        *full,
        scale as int,
    ));
    while i < sorted.len()
        invariant
            i <= sorted@.len(),
            layer == layer_of(normal),
            0 < scale <= 1_000_000_000_000,
            full.x + full.w <= i64::MAX,
            full.y + full.h <= i64::MAX,
            full.x >= 0,
            full.y >= 0,
            candidate_views(found@) == candidates_of(
                sorted@.take(i as int),
                layer,
                *geom,
                *full,
                scale as int,
            ),
        decreases sorted@.len() - i,
    {
        let window = &sorted[i];
        proof {
            assert(sorted@.take(i as int + 1).drop_last() =~= sorted@.take(i as int));
            assert(sorted@.take(i as int + 1).last() == *window);
        }
        if is_workable(window, normal) {
            if let Some(bounds) = &window.bounds {
                if let Some(region) = logical_bounds_to_region(geom, full, scale, bounds) {
                    if let Some(pid) = window.pid {
                        let ghost held = candidate_views(found@);
                        let candidate = Candidate {
                            bounds: region,
                            target: TargetApp { pid: to_pid(pid), app: window.app.clone() },
                        };
                        let ghost said = candidate@;
                        found.push(candidate);
                        assert(candidate_views(found@) =~= held.push(said));
                    }
                }
            }
        }
        i += 1;
    }
    assert(sorted@.take(i as int) =~= sorted@);
    found
}

/// How long two spans of a line overlap, given where each starts and how long it is;
/// not above zero where they do not.
pub open spec fn shared(a: int, a_length: int, b: int, b_length: int) -> int {
    view::least(a + a_length, b + b_length) - view::most(a, b)
}

/// The area two rectangles share, in millionths of millionths of a pixel; none where
/// they are apart.
pub open spec fn shared_area(a: Region, b: Region) -> int {
    let w = shared(a.x as int, a.w as int, b.x as int, b.w as int);
    let h = shared(a.y as int, a.h as int, b.y as int, b.h as int);
    if w <= 0 || h <= 0 {
        0
    } else {
        w * h
    }
}

/// Two spans overlap in the places that are in both: as long a run of them as is said,
/// from the later of the two starts.
pub proof fn spans_share_what_is_in_both(a: int, a_length: int, b: int, b_length: int, at: int)
    ensures
        a <= at < a + a_length && b <= at < b + b_length <==> a <= at && b <= at && (at < a
            + shared(a, a_length, b, b_length) || at < b + shared(a, a_length, b, b_length)),
        shared(a, a_length, b, b_length) == shared(b, b_length, a, a_length),
        a <= b && b + b_length <= a + a_length ==> shared(a, a_length, b, b_length) == b_length,
{
}

/// The area two rectangles share is that of the rectangle that is in both: none where
/// they are apart, the whole of one that lies inside the other, and the same whichever
/// is named first.
pub proof fn rectangles_share_what_is_in_both(a: Region, b: Region)
    ensures
        shared_area(a, b) == shared_area(b, a),
        shared_area(a, b) >= 0,
        a.x + a.w <= b.x || a.y + a.h <= b.y || b.x + b.w <= a.x || b.y + b.h <= a.y
            ==> shared_area(a, b) == 0,
        0 < b.w && 0 < b.h && a.x <= b.x && a.y <= b.y && b.x + b.w <= a.x + a.w && b.y + b.h <= a.y
            + a.h ==> shared_area(a, b) == b.w * b.h,
        forall|x: int, y: int, w: int, h: int|
            #![trigger w * h, x + w, y + h]
            0 < w && 0 < h && x >= a.x && x >= b.x && (x == a.x || x == b.x) && y >= a.y && y >= b.y
                && (y == a.y || y == b.y) && x + w <= a.x + a.w && x + w <= b.x + b.w && (x + w
                == a.x + a.w || x + w == b.x + b.w) && y + h <= a.y + a.h && y + h <= b.y + b.h && (
            y + h == a.y + a.h || y + h == b.y + b.h) ==> shared_area(a, b) == w * h,
{
    let w = shared(a.x as int, a.w as int, b.x as int, b.w as int);
    let h = shared(a.y as int, a.h as int, b.y as int, b.h as int);
    assert(w > 0 && h > 0 ==> w * h > 0) by (nonlinear_arith);
}

fn overlap(a: i64, a_length: i64, b: i64, b_length: i64) -> (r: i128)
    ensures
        r == shared(a as int, a_length as int, b as int, b_length as int),
        r <= i64::MAX,
{
    let end_a: i128 = a as i128 + a_length as i128;
    let end_b: i128 = b as i128 + b_length as i128;
    let end: i128 = if end_a <= end_b {
        end_a
    } else {
        end_b
    };
    let start: i128 = if a >= b {
        a as i128
    } else {
        b as i128
    };
    end - start
}

/// The area two rectangles share, in millionths of millionths of a pixel.
pub fn overlap_area(a: &Region, b: &Region) -> (r: i128)
    ensures
        r == shared_area(*a, *b),
{
    let w: i128 = overlap(a.x, a.w, b.x, b.w);
    let h: i128 = overlap(a.y, a.h, b.y, b.h);
    if w <= 0 || h <= 0 {
        0
    } else {
        assert(0 < w * h <= i64::MAX * i64::MAX) by (nonlinear_arith)
            requires
                0 < w <= i64::MAX,
                0 < h <= i64::MAX,
        ;
        w * h
    }
}

/// The area a view is taken to have: its own, and never less than a pixel's.
pub open spec fn view_area(region: Region) -> int {
    view::most(region.w * region.h, 1_000_000_000_000)
}

/// Whether a window covers so much of a view, a tenth of it, that being in front
/// decides.
pub open spec fn substantial(bounds: Region, region: Region) -> bool {
    10 * shared_area(bounds, region) >= view_area(region)
}

/// The place of the candidate a view is about, from a place in the list on: the first
/// that covers enough of it and, where none does, the one that covers most, the first
/// of equals. `best` is the one that covers most before.
pub open spec fn chosen_from(
    candidates: Seq<CandidateView>,
    region: Region,
    from: int,
    best: Option<int>,
) -> Option<int>
    decreases candidates.len() - from,
{
    if from >= candidates.len() {
        best
    } else {
        let area = shared_area(candidates[from].bounds, region);
        if area <= 0 {
            chosen_from(candidates, region, from + 1, best)
        } else if substantial(candidates[from].bounds, region) {
            Some(from)
        } else {
            let better = match best {
                Some(b) => area > shared_area(candidates[b].bounds, region),
                None => true,
            };
            chosen_from(
                candidates,
                region,
                from + 1,
                if better {
                    Some(from)
                } else {
                    best
                },
            )
        }
    }
}

/// The candidate a view is about.
pub open spec fn chosen(candidates: Seq<CandidateView>, region: Region) -> Option<TargetAppView> {
    match chosen_from(candidates, region, 0, None) {
        Some(i) => Some(candidates[i].target),
        None => None,
    }
}

/// What an optional application is.
pub open spec fn app_of(target: Option<TargetApp>) -> Option<TargetAppView> {
    match target {
        Some(target) => Some(target@),
        None => None,
    }
}

fn covers_enough(area: i128, region: &Region) -> (r: bool)
    requires
        area >= 0,
    ensures
        r == (10 * area >= view_area(*region)),
{
    assert(-(0x8000_0000_0000_0000 * 0x8000_0000_0000_0000) <= region.w * region.h
        <= 0x8000_0000_0000_0000 * 0x8000_0000_0000_0000) by (nonlinear_arith)
        requires
            -0x8000_0000_0000_0000 <= region.w <= 0x8000_0000_0000_0000,
            -0x8000_0000_0000_0000 <= region.h <= 0x8000_0000_0000_0000,
    ;
    let own: i128 = region.w as i128 * region.h as i128;
    let whole: i128 = if own >= 1_000_000_000_000 {
        own
    } else {
        1_000_000_000_000
    };
    area >= whole / 10 + (if whole % 10 == 0 {
        0
    } else {
        1
    })
}

/// Picks the application a view is about, from candidates that stand from the front to
/// the back.
pub fn select_target(candidates: &Vec<Candidate>, region: &Region) -> (r: Option<TargetApp>)
    ensures
        app_of(r) == chosen(candidate_views(candidates@), *region),
{
    let ghost all = candidate_views(candidates@);
    let mut best: Option<usize> = None;
    let mut most: i128 = 0;
    let mut i: usize = 0;
    while i < candidates.len()
        invariant
            i <= candidates@.len(),
            all == candidate_views(candidates@),
            match best {
                Some(b) => b < i && most == shared_area(candidates@[b as int].bounds, *region),
                None => true,
            },
            chosen_from(all, *region, 0, None) == chosen_from(
                all,
                *region,
                i as int,
                match best {
                    Some(b) => Some(b as int),
                    None => None,
                },
            ),
        decreases candidates@.len() - i,
    {
        let candidate = &candidates[i];
        assert(all[i as int] == candidate@);
        let area: i128 = overlap_area(&candidate.bounds, region);
        if area > 0 {
            if covers_enough(area, region) {
                return Some(
                    TargetApp { pid: candidate.target.pid, app: candidate.target.app.clone() },
                );
            }
            let better = match best {
                Some(b) => {
                    assert(all[b as int] == candidates@[b as int]@);
                    area > most
                },
                None => true,
            };
            if better {
                best = Some(i);
                most = area;
            }
        }
        i += 1;
    }
    match best {
        Some(b) => {
            let target = &candidates[b].target;
            assert(all[b as int] == candidates@[b as int]@);
            Some(TargetApp { pid: target.pid, app: target.app.clone() })
        },
        None => None,
    }
}

/// A window in front that covers enough of a view is the one it is about, whatever is
/// behind it: stacking decides, as it does on the screen.
pub proof fn what_is_in_front_is_what_is_read(
    candidates: Seq<CandidateView>,
    region: Region,
    i: int,
)
    requires
        0 <= i < candidates.len(),
        substantial(candidates[i].bounds, region),
        forall|k: int|
            0 <= k < i ==> !substantial((#[trigger] candidates[k]).bounds, region),
    ensures
        chosen(candidates, region) == Some(candidates[i].target),
{
    the_first_substantial_is_chosen(candidates, region, i, 0, None);
}

proof fn the_first_substantial_is_chosen(
    candidates: Seq<CandidateView>,
    region: Region,
    i: int,
    from: int,
    best: Option<int>,
)
    requires
        0 <= from <= i < candidates.len(),
        substantial(candidates[i].bounds, region),
        forall|k: int|
            0 <= k < i ==> !substantial((#[trigger] candidates[k]).bounds, region),
    ensures
        chosen_from(candidates, region, from, best) == Some(i),
    decreases i - from,
{
    if from < i {
        assert(!substantial(candidates[from].bounds, region));
        let area = shared_area(candidates[from].bounds, region);
        let better = match best {
            Some(b) => area > shared_area(candidates[b].bounds, region),
            None => true,
        };
        the_first_substantial_is_chosen(candidates, region, i, from + 1, best);
        the_first_substantial_is_chosen(candidates, region, i, from + 1, Some(from));
    }
}

/// Covering a tenth of a view, and a tenth of a pixel, is enough to be what it is about
/// where nothing in front covers as much.
pub proof fn a_tenth_of_a_view_is_enough(candidates: Seq<CandidateView>, region: Region, i: int)
    requires
        0 <= i < candidates.len(),
        10 * shared_area(candidates[i].bounds, region) >= region.w * region.h,
        10 * shared_area(candidates[i].bounds, region) >= measure::UNIT * measure::UNIT,
        forall|k: int|
            0 <= k < i ==> {
                ||| 10 * shared_area((#[trigger] candidates[k]).bounds, region) < region.w
                    * region.h
                ||| 10 * shared_area(candidates[k].bounds, region) < measure::UNIT * measure::UNIT
            },
    ensures
        chosen(candidates, region) == Some(candidates[i].target),
{
    the_first_substantial_is_chosen(candidates, region, i, 0, None);
}

/// Whether a candidate is the one that covers most of a view among the first so many,
/// the first of equals; none where none of them covers any of it.
pub open spec fn covers_most(
    candidates: Seq<CandidateView>,
    region: Region,
    upto: int,
    best: Option<int>,
) -> bool {
    match best {
        None => forall|k: int|
            0 <= k < upto ==> shared_area((#[trigger] candidates[k]).bounds, region) <= 0,
        Some(b) => {
            &&& 0 <= b < upto
            &&& shared_area(candidates[b].bounds, region) > 0
            &&& forall|k: int|
                0 <= k < upto ==> shared_area((#[trigger] candidates[k]).bounds, region)
                    <= shared_area(candidates[b].bounds, region)
            &&& forall|k: int|
                0 <= k < b ==> shared_area((#[trigger] candidates[k]).bounds, region)
                    < shared_area(candidates[b].bounds, region)
        },
    }
}

/// Where no window covers a tenth of a view, the one that covers most of it is what it
/// is about, and of equals the one in front.
pub proof fn otherwise_the_largest_overlap_is_read(
    candidates: Seq<CandidateView>,
    region: Region,
    i: int,
)
    requires
        0 <= i < candidates.len(),
        forall|k: int|
            0 <= k < candidates.len() ==> 10 * shared_area(
                (#[trigger] candidates[k]).bounds,
                region,
            ) < region.w * region.h,
        covers_most(candidates, region, candidates.len() as int, Some(i)),
    ensures
        chosen(candidates, region) == Some(candidates[i].target),
{
    the_largest_is_chosen(candidates, region, 0, None);
    let found = chosen_from(candidates, region, 0, None);
    if found != Some(i) {
        assert(shared_area(candidates[i].bounds, region) > 0);
        if found is Some {
            let j = found->0;
            assert(shared_area(candidates[j].bounds, region) <= shared_area(
                candidates[i].bounds,
                region,
            ));
            assert(shared_area(candidates[i].bounds, region) <= shared_area(
                candidates[j].bounds,
                region,
            ));
        }
    }
}

proof fn the_largest_is_chosen(
    candidates: Seq<CandidateView>,
    region: Region,
    from: int,
    best: Option<int>,
)
    requires
        0 <= from <= candidates.len(),
        forall|k: int|
            0 <= k < candidates.len() ==> 10 * shared_area(
                (#[trigger] candidates[k]).bounds,
                region,
            ) < region.w * region.h,
        covers_most(candidates, region, from, best),
    ensures
        covers_most(
            candidates,
            region,
            candidates.len() as int,
            chosen_from(candidates, region, from, best),
        ),
    decreases candidates.len() - from,
{
    if from < candidates.len() {
        let area = shared_area(candidates[from].bounds, region);
        let better = match best {
            Some(b) => area > shared_area(candidates[b].bounds, region),
            None => true,
        };
        if area > 0 && better {
            the_largest_is_chosen(candidates, region, from + 1, Some(from));
        } else {
            the_largest_is_chosen(candidates, region, from + 1, best);
        }
    }
}

/// A view that no window reaches is about no application.
pub proof fn nothing_is_read_without_overlap(candidates: Seq<CandidateView>, region: Region)
    requires
        forall|k: int|
            0 <= k < candidates.len() ==> shared_area((#[trigger] candidates[k]).bounds, region)
                <= 0,
    ensures
        chosen(candidates, region) is None,
{
    nothing_is_chosen(candidates, region, 0);
}

proof fn nothing_is_chosen(candidates: Seq<CandidateView>, region: Region, from: int)
    requires
        0 <= from,
        forall|k: int|
            0 <= k < candidates.len() ==> shared_area((#[trigger] candidates[k]).bounds, region)
                <= 0,
    ensures
        chosen_from(candidates, region, from, None) is None,
    decreases candidates.len() - from,
{
    if from < candidates.len() {
        assert(shared_area(candidates[from].bounds, region) <= 0);
        nothing_is_chosen(candidates, region, from + 1);
    }
}

/// Which application a view is about, or a note saying why there is none.
pub fn view_target(candidates: &Result<Vec<Candidate>, String>, region: &Region) -> (r: Result<
    TargetApp,
    String,
>)
    ensures
        (match r {
            Ok(target) => Ok(target@),
            Err(note) => Err(note@),
        }) == (match *candidates {
            Err(reason) => Err(reason@),
            Ok(candidates) => match chosen(candidate_views(candidates@), *region) {
                Some(target) => Ok(target),
                None => Err("no application window to target for accessibility"@),
            },
        }),
{
    match candidates {
        Err(reason) => Err(reason.clone()),
        Ok(candidates) => match select_target(candidates, region) {
            Some(target) => Ok(target),
            None => Err("no application window to target for accessibility".to_owned()),
        },
    }
}

/// The refusal where the system has no accessibility to read.
pub fn elements_unsupported() -> (r: Failure)
    ensures
        r@ == wire::coded("element enumeration is only supported on macOS"@),
{
    Failure::coded("element enumeration is only supported on macOS")
}

} // verus!
