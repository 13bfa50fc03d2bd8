//! What the window server says about the windows on this machine.
//!
//! A bound target lives or dies by facts only the window server has: whether that
//! window is still listed, where it is now, and what is in front of it at a point.
//! Each is decided here from one listing, because two listings can disagree about
//! a window that moved between them.

use vstd::prelude::*;

use crate::measure;

verus! {

/// A rectangle in the global logical points the desktop lays its displays out in,
/// in millionths of a point.
#[derive(Clone, Copy, Debug, PartialEq, Eq, Structural)]
pub struct Bounds {
    pub x: i64,
    pub y: i64,
    pub w: i64,
    pub h: i64,
}

impl Bounds {
    /// Whether the rectangle owns a point. Half-open: the left and top edges belong
    /// to it and the right and bottom edges to whatever is next to it.
    pub open spec fn owns(self, x: int, y: int) -> bool {
        &&& self.x <= x < self.x + self.w
        &&& self.y <= y < self.y + self.h
    }

    /// Whether two rectangles overlap.
    pub open spec fn overlaps(self, other: Bounds) -> bool {
        &&& self.x < other.x + other.w
        &&& other.x < self.x + self.w
        &&& self.y < other.y + other.h
        &&& other.y < self.y + self.h
    }

    /// Whether two rectangles describe the same place to within a tolerance.
    pub open spec fn near(self, other: Bounds, tolerance: int) -> bool {
        &&& measure::distance(self.x as int, other.x as int) <= tolerance
        &&& measure::distance(self.y as int, other.y as int) <= tolerance
        &&& measure::distance(self.w as int, other.w as int) <= tolerance
        &&& measure::distance(self.h as int, other.h as int) <= tolerance
    }

    /// Is this point inside the rectangle?
    pub fn contains(&self, x: i64, y: i64) -> (r: bool)
        ensures
            r == self.owns(x as int, y as int),
    {
        x >= self.x && y >= self.y && (x as i128) < self.x as i128 + self.w as i128 && (y as i128)
            < self.y as i128 + self.h as i128
    }

    /// Do two rectangles describe the same place, to within the tolerance the
    /// accessibility binding is allowed?
    pub fn matches(&self, other: &Bounds, tolerance: i64) -> (r: bool)
        ensures
            r == self.near(*other, tolerance as int),
    {
        within(self.x, other.x, tolerance) && within(self.y, other.y, tolerance) && within(
            self.w,
            other.w,
            tolerance,
        ) && within(self.h, other.h, tolerance)
    }

    /// Do two rectangles overlap at all? Two that merely touch do not.
    pub fn intersects(&self, other: &Bounds) -> (r: bool)
        ensures
            r == self.overlaps(*other),
    {
        (self.x as i128) < other.x as i128 + other.w as i128 && (other.x as i128) < self.x as i128
            + self.w as i128 && (self.y as i128) < other.y as i128 + other.h as i128
            && (other.y as i128) < self.y as i128 + self.h as i128
    }
}

fn within(a: i64, b: i64, tolerance: i64) -> (r: bool)
    ensures
        r == (measure::distance(a as int, b as int) <= tolerance),
{
    let apart: i128 = if a >= b {
        a as i128 - b as i128
    } else {
        b as i128 - a as i128
    };
    apart <= tolerance as i128
}

/// The target was not in the listing at all. Its own type rather than "nothing is
/// in the way": a hit test that cannot find the target has no idea what a click
/// would reach.
#[derive(Clone, Copy, Debug, PartialEq, Eq, Structural)]
pub struct TargetMissing;

/// One window, as the window server describes it.
#[derive(Clone, Debug, PartialEq)]
pub struct WindowFacts {
    pub id: u32,
    pub pid: i32,
    pub app: String,
    pub title: String,
    pub bounds: Bounds,
    /// Zero is a window a person works in; the Dock, the menu bar and floating
    /// panels live above it.
    pub layer: i64,
    /// A minimized window, and one on another desktop, are listed and off screen.
    pub on_screen: bool,
}

/// The window server, as this build reads it.
pub trait Windows: Send + Sync {
    /// Every window, front to back among the ones on screen. `Err` when the system
    /// refuses the listing, which is a different fact from an empty desktop.
    fn list(&self) -> Result<Vec<WindowFacts>, String>;
}

/// A host with no window server this build reads.
#[derive(Clone, Copy, Debug)]
pub struct Real;

impl Real {
    pub fn new() -> (r: Real)
        ensures
            r == Real,
    {
        Real
    }
}

impl Windows for Real {
    fn list(&self) -> (r: Result<Vec<WindowFacts>, String>)
        ensures
            r is Err && r->Err_0@ == "window targeting is only supported on macOS"@,
    {
        Err("window targeting is only supported on macOS".to_owned())
    }
}

/// Whether the double with these bits is greater than zero.
pub open spec fn is_positive(bits: u64) -> bool {
    0 < bits <= 0x7FF0_0000_0000_0000
}

/// The rectangle four readings of it give, each a double by its bits: nothing where
/// one was not read, or where a side is not greater than zero.
pub open spec fn bounds_of(
    x: Option<u64>,
    y: Option<u64>,
    w: Option<u64>,
    h: Option<u64>,
) -> Option<Bounds> {
    match (x, y, w, h) {
        (Some(x), Some(y), Some(w), Some(h)) => if is_positive(w) && is_positive(h) {
            Some(
                Bounds {
                    x: measure::millionths(x) as i64,
                    y: measure::millionths(y) as i64,
                    w: measure::millionths(w) as i64,
                    h: measure::millionths(h) as i64,
                },
            )
        } else {
            None
        },
        _ => None,
    }
}

/// Reads a rectangle from the four doubles it is kept as, each given by its bits.
pub fn read_bounds(x: Option<u64>, y: Option<u64>, w: Option<u64>, h: Option<u64>) -> (r: Option<
    Bounds,
>)
    ensures
        r == bounds_of(x, y, w, h),
{
    match (x, y, w, h) {
        (Some(x), Some(y), Some(w), Some(h)) => {
            if w == 0 || w > 0x7FF0_0000_0000_0000 || h == 0 || h > 0x7FF0_0000_0000_0000 {
                return None;
            }
            Some(
                Bounds {
                    x: measure::from_double(x),
                    y: measure::from_double(y),
                    w: measure::from_double(w),
                    h: measure::from_double(h),
                },
            )
        },
        _ => None,
    }
}

/// What the window server's record of one window holds, as far as it could be read.
#[derive(Clone, Debug)]
pub struct WindowRecord {
    pub number: Option<i64>,
    pub pid: Option<i64>,
    pub owner: String,
    pub name: String,
    pub bounds: Option<Bounds>,
    pub layer: Option<i64>,
    pub on_screen: bool,
}

/// One window of a listing; nothing without the two facts a window is useless
/// without: which it is, and where it is.
pub fn read_window(record: WindowRecord) -> (r: Option<WindowFacts>)
    ensures
        r is Some <==> record.number is Some && record.bounds is Some,
        r matches Some(window) ==> {
            &&& window.id == record.number->Some_0 as u32
            &&& window.pid == (if record.pid is Some {
                record.pid->Some_0 as i32
            } else {
                0
            })
            &&& window.app == record.owner
            &&& window.title == record.name
            &&& window.bounds == record.bounds->Some_0
            &&& window.layer == (if record.layer is Some {
                record.layer->Some_0
            } else {
                0
            })
            &&& window.on_screen == record.on_screen
        },
{
    match (record.number, record.bounds) {
        (Some(number), Some(bounds)) => {
            let pid: i64 = match record.pid {
                Some(pid) => pid,
                None => 0,
            };
            let layer: i64 = match record.layer {
                Some(layer) => layer,
                None => 0,
            };
            Some(
                WindowFacts {
                    id: #[verifier::truncate]
                    (number as u32),
                    pid: #[verifier::truncate]
                    (pid as i32),
                    app: record.owner,
                    title: record.name,
                    bounds,
                    layer,
                    on_screen: record.on_screen,
                },
            )
        },
        _ => None,
    }
}

/// The first window of a list that a test accepts.
pub open spec fn first(
    listed: Seq<WindowFacts>,
    accepts: spec_fn(WindowFacts) -> bool,
) -> Option<WindowFacts>
    decreases listed.len(),
{
    if listed.len() == 0 {
        None
    } else if accepts(listed[0]) {
        Some(listed[0])
    } else {
        first(listed.skip(1), accepts)
    }
}

/// The on-screen windows in front of a target, front to back: those listed before
/// it. Where no on-screen window has that id they are all of the desktop.
pub open spec fn ahead(listed: Seq<WindowFacts>, target_id: u32) -> Seq<WindowFacts>
    decreases listed.len(),
{
    if listed.len() == 0 {
        Seq::empty()
    } else if !listed[0].on_screen {
        ahead(listed.skip(1), target_id)
    } else if listed[0].id == target_id {
        Seq::empty()
    } else {
        seq![listed[0]] + ahead(listed.skip(1), target_id)
    }
}

/// Whether a window is on screen.
pub open spec fn shown(listed: Seq<WindowFacts>, target_id: u32) -> bool {
    exists|i: int| 0 <= i < listed.len() && (#[trigger] listed[i]).on_screen && listed[i].id
        == target_id
}

/// What a hit test asks of a window: whether it owns a point, or whether it
/// overlaps an area and does not belong to one process.
#[derive(Clone, Copy, Debug)]
pub enum Probe {
    Point { x: i64, y: i64 },
    Area { area: Bounds, ignoring: Option<i32> },
}

impl Probe {
    /// Whether the test accepts a window.
    pub open spec fn accepts(self, window: WindowFacts) -> bool {
        match self {
            Probe::Point { x, y } => window.bounds.owns(x as int, y as int),
            Probe::Area { area, ignoring } => Some(window.pid) != ignoring
                && window.bounds.overlaps(area),
        }
    }

    fn hits(&self, window: &WindowFacts) -> (r: bool)
        ensures
            r == self.accepts(*window),
    {
        match self {
            Probe::Point { x, y } => window.bounds.contains(*x, *y),
            Probe::Area { area, ignoring } => {
                let ignored = match ignoring {
                    Some(pid) => *pid == window.pid,
                    None => false,
                };
                !ignored && window.bounds.intersects(area)
            },
        }
    }
}

/// The frontmost on-screen window ahead of the target that a test accepts; a
/// target that is not on screen is missing.
pub open spec fn obstruction(
    listed: Seq<WindowFacts>,
    target_id: u32,
    probe: Probe,
) -> Result<Option<WindowFacts>, TargetMissing> {
    if shown(listed, target_id) {
        Ok(first(ahead(listed, target_id), |window: WindowFacts| probe.accepts(window)))
    } else {
        Err(TargetMissing)
    }
}

/// An answer about windows, without the borrow.
pub open spec fn told(r: Result<Option<&WindowFacts>, TargetMissing>) -> Result<
    Option<WindowFacts>,
    TargetMissing,
> {
    match r {
        Ok(Some(window)) => Ok(Some(*window)),
        Ok(None) => Ok(None),
        Err(missing) => Err(missing),
    }
}

/// The window a given id names, out of one listing.
pub fn find(listed: &[WindowFacts], id: u32) -> (r: Option<&WindowFacts>)
    ensures
        match first(listed@, |window: WindowFacts| window.id == id) {
            Some(window) => r is Some && *r->0 == window,
            None => r is None,
        },
{
    let mut i: usize = 0;
    let ghost named = |window: WindowFacts| window.id == id;
    assert(listed@.skip(0) =~= listed@);
    while i < listed.len()
        invariant
            i <= listed@.len(),
            named == (|window: WindowFacts| window.id == id),
            first(listed@, named) == first(listed@.skip(i as int), named),
        decreases listed@.len() - i,
    {
        assert(listed@.skip(i as int)[0] == listed@[i as int]);
        assert(listed@.skip(i as int).skip(1) =~= listed@.skip(i as int + 1));
        if listed[i].id == id {
            return Some(&listed[i]);
        }
        i += 1;
    }
    None
}

/// What covers the target at this point, if anything.
///
/// Every layer counts: a click under the Dock or the menu bar lands on them.
pub fn obstruction_at(listed: &[WindowFacts], target_id: u32, x: i64, y: i64) -> (r: Result<
    Option<&WindowFacts>,
    TargetMissing,
>)
    ensures
        told(r) == obstruction(listed@, target_id, (Probe::Point { x, y })),
{
    covering(listed, target_id, &Probe::Point { x, y })
}

/// What covers the target inside this rectangle, ignoring one process's own
/// windows: the badge sits over the target's corner by design and must not be
/// reported as covering the window it is about.
pub fn obstruction_in<'a>(
    listed: &'a [WindowFacts],
    target_id: u32,
    area: &Bounds,
    ignoring: Option<i32>,
) -> (r: Result<Option<&'a WindowFacts>, TargetMissing>)
    ensures
        told(r) == obstruction(listed@, target_id, (Probe::Area { area: *area, ignoring })),
{
    covering(listed, target_id, &Probe::Area { area: *area, ignoring })
}

/// The frontmost on-screen window ahead of the target that the test accepts.
fn covering<'a>(listed: &'a [WindowFacts], target_id: u32, probe: &Probe) -> (r: Result<
    Option<&'a WindowFacts>,
    TargetMissing,
>)
    ensures
        told(r) == obstruction(listed@, target_id, *probe),
{
    let ghost test = |window: WindowFacts| probe.accepts(window);
    let mut hit: Option<&WindowFacts> = None;
    let mut i: usize = 0;
    assert(listed@.skip(0) =~= listed@);
    while i < listed.len()
        invariant
            i <= listed@.len(),
            test == (|window: WindowFacts| probe.accepts(window)),
            forall|j: int|
                0 <= j < i ==> !((#[trigger] listed@[j]).on_screen && listed@[j].id == target_id),
            first(ahead(listed@, target_id), test) == (match hit {
                Some(window) => Some(*window),
                None => first(ahead(listed@.skip(i as int), target_id), test),
            }),
        decreases listed@.len() - i,
    {
        let window = &listed[i];
        let ghost rest = listed@.skip(i as int);
        let ghost behind = ahead(listed@.skip(i as int + 1), target_id);
        assert(rest[0] == *window);
        assert(rest.skip(1) =~= listed@.skip(i as int + 1));
        if window.on_screen {
            if window.id == target_id {
                assert(shown(listed@, target_id));
                return Ok(hit);
            }
            proof {
                let now = seq![*window] + behind;
                assert(now[0] == *window);
                assert(now.skip(1) =~= behind);
                assert(first(now, test) == (if test(*window) {
                    Some(*window)
                } else {
                    first(behind, test)
                }));
            }
            if hit.is_none() && probe.hits(window) {
                hit = Some(window);
            }
        }
        i += 1;
    }
    Err(TargetMissing)
}

/// Whether a window is one that the same application opened since.
pub open spec fn is_child(
    window: WindowFacts,
    pid: i32,
    target_id: u32,
    at_selection: Seq<u32>,
) -> bool {
    &&& window.on_screen
    &&& window.pid == pid
    &&& window.id != target_id
    &&& !at_selection.contains(window.id)
}

fn holds(ids: &[u32], id: u32) -> (r: bool)
    ensures
        r == ids@.contains(id),
{
    let mut i: usize = 0;
    while i < ids.len()
        invariant
            i <= ids@.len(),
            forall|j: int| 0 <= j < i ==> ids@[j] != id,
        decreases ids@.len() - i,
    {
        if ids[i] == id {
            return true;
        }
        i += 1;
    }
    false
}

/// The same application's other on-screen windows that were not there when the
/// target was selected, front to back. Reported, never guessed at.
pub fn children_of<'a>(
    listed: &'a [WindowFacts],
    pid: i32,
    target_id: u32,
    at_selection: &[u32],
) -> (r: Vec<&'a WindowFacts>)
    ensures
        r@.map_values(|window: &WindowFacts| *window) == listed@.filter(
            |window: WindowFacts| is_child(window, pid, target_id, at_selection@),
        ),
{
    let ghost test = |window: WindowFacts| is_child(window, pid, target_id, at_selection@);
    let mut out: Vec<&WindowFacts> = Vec::new();
    let mut i: usize = 0;
    proof {
        reveal(Seq::filter);
    }
    assert(out@.map_values(|window: &WindowFacts| *window) =~= listed@.take(0).filter(test));
    while i < listed.len()
        invariant
            i <= listed@.len(),
            test == (|window: WindowFacts| is_child(window, pid, target_id, at_selection@)),
            out@.map_values(|window: &WindowFacts| *window) == listed@.take(i as int).filter(test),
        decreases listed@.len() - i,
    {
        let window = &listed[i];
        proof {
            reveal(Seq::filter);
            assert(listed@.take(i as int + 1).drop_last() =~= listed@.take(i as int));
        }
        if window.on_screen && window.pid == pid && window.id != target_id && !holds(
            at_selection,
            window.id,
        ) {
            let ghost before = out@;
            out.push(window);
            assert(out@.map_values(|window: &WindowFacts| *window) =~= before.map_values(
                |window: &WindowFacts| *window,
            ).push(*window));
        }
        i += 1;
    }
    assert(listed@.take(i as int) =~= listed@);
    out
}

/// The ids of one application's on-screen windows right now, front to back.
pub fn ids_of(listed: &[WindowFacts], pid: i32) -> (r: Vec<u32>)
    ensures
        r@ == listed@.filter(
            |window: WindowFacts| window.on_screen && window.pid == pid,
        ).map_values(|window: WindowFacts| window.id),
{
    let ghost test = |window: WindowFacts| window.on_screen && window.pid == pid;
    let mut out: Vec<u32> = Vec::new();
    let mut i: usize = 0;
    proof {
        reveal(Seq::filter);
    }
    assert(out@ =~= listed@.take(0).filter(test).map_values(|window: WindowFacts| window.id));
    while i < listed.len()
        invariant
            i <= listed@.len(),
            test == (|window: WindowFacts| window.on_screen && window.pid == pid),
            out@ == listed@.take(i as int).filter(test).map_values(
                |window: WindowFacts| window.id,
            ),
        decreases listed@.len() - i,
    {
        let window = &listed[i];
        let ghost kept = listed@.take(i as int).filter(test);
        proof {
            reveal(Seq::filter);
            assert(listed@.take(i as int + 1).drop_last() =~= listed@.take(i as int));
        }
        if window.on_screen && window.pid == pid {
            out.push(window.id);
            assert(out@ =~= kept.push(*window).map_values(|window: WindowFacts| window.id));
        }
        i += 1;
    }
    assert(listed@.take(i as int) =~= listed@);
    out
}

/// The frontmost on-screen window at the ordinary window layer: the Dock and the
/// menu bar are above everything and are not what a person is working in.
pub fn front_window(listed: &[WindowFacts]) -> (r: Option<&WindowFacts>)
    ensures
        match first(listed@, |window: WindowFacts| window.on_screen && window.layer == 0) {
            Some(window) => r is Some && *r->0 == window,
            None => r is None,
        },
{
    let mut i: usize = 0;
    let ghost ordinary = |window: WindowFacts| window.on_screen && window.layer == 0;
    assert(listed@.skip(0) =~= listed@);
    while i < listed.len()
        invariant
            i <= listed@.len(),
            ordinary == (|window: WindowFacts| window.on_screen && window.layer == 0),
            first(listed@, ordinary) == first(listed@.skip(i as int), ordinary),
        decreases listed@.len() - i,
    {
        assert(listed@.skip(i as int)[0] == listed@[i as int]);
        assert(listed@.skip(i as int).skip(1) =~= listed@.skip(i as int + 1));
        if listed[i].on_screen && listed[i].layer == 0 {
            return Some(&listed[i]);
        }
        i += 1;
    }
    None
}

/// Overlap is mutual.
pub proof fn overlap_is_mutual(a: Bounds, b: Bounds)
    ensures
        a.overlaps(b) == b.overlaps(a),
{
}

/// Two rectangles that own a common point overlap, so two that touch edge to edge
/// never both own the same point.
pub proof fn a_shared_point_is_an_overlap(a: Bounds, b: Bounds, x: int, y: int)
    requires
        a.owns(x, y),
        b.owns(x, y),
    ensures
        a.overlaps(b),
{
}

/// Two rectangles that overlap, and are not empty, own a common point.
pub proof fn an_overlap_shares_a_point(a: Bounds, b: Bounds)
    requires
        a.overlaps(b),
        a.w > 0 && a.h > 0 && b.w > 0 && b.h > 0,
    ensures
        exists|x: int, y: int| #[trigger] a.owns(x, y) && b.owns(x, y),
{
    let x = if a.x >= b.x {
        a.x as int
    } else {
        b.x as int
    };
    let y = if a.y >= b.y {
        a.y as int
    } else {
        b.y as int
    };
    assert(a.owns(x, y) && b.owns(x, y));
}

proof fn first_is_accepted(listed: Seq<WindowFacts>, accepts: spec_fn(WindowFacts) -> bool)
    ensures
        match first(listed, accepts) {
            Some(window) => accepts(window) && listed.contains(window),
            None => forall|i: int| 0 <= i < listed.len() ==> !accepts(#[trigger] listed[i]),
        },
    decreases listed.len(),
{
    if listed.len() > 0 && !accepts(listed[0]) {
        let rest = listed.skip(1);
        first_is_accepted(rest, accepts);
        match first(rest, accepts) {
            Some(window) => {
                let i = choose|i: int| 0 <= i < rest.len() && rest[i] == window;
                assert(listed[i + 1] == window);
            },
            None => {
                assert forall|i: int| 0 <= i < listed.len() implies !accepts(
                    #[trigger] listed[i],
                ) by {
                    if i > 0 {
                        assert(rest[i - 1] == listed[i]);
                    }
                }
            },
        }
    }
}

/// The first window of a list that a test accepts is one of the list, and there is none
/// only where it accepts none.
pub proof fn the_first_is_one_of_them(
    listed: Seq<WindowFacts>,
    accepts: spec_fn(WindowFacts) -> bool,
)
    ensures
        match first(listed, accepts) {
            Some(window) => accepts(window) && listed.contains(window),
            None => forall|i: int| 0 <= i < listed.len() ==> !accepts(#[trigger] listed[i]),
        },
{
    first_is_accepted(listed, accepts);
}

proof fn ahead_is_in_front(listed: Seq<WindowFacts>, target_id: u32)
    ensures
        forall|window: WindowFacts| #[trigger]
            ahead(listed, target_id).contains(window) ==> {
                &&& window.on_screen
                &&& window.id != target_id
                &&& exists|i: int|
                    {
                        &&& 0 <= i < listed.len()
                        &&& #[trigger] listed[i] == window
                        &&& forall|j: int|
                            0 <= j <= i ==> !((#[trigger] listed[j]).on_screen && listed[j].id
                                == target_id)
                    }
            },
    decreases listed.len(),
{
    if listed.len() > 0 {
        let rest = listed.skip(1);
        ahead_is_in_front(rest, target_id);
        assert forall|window: WindowFacts| #[trigger]
            ahead(listed, target_id).contains(window) implies {
            &&& window.on_screen
            &&& window.id != target_id
            &&& exists|i: int|
                {
                    &&& 0 <= i < listed.len()
                    &&& #[trigger] listed[i] == window
                    &&& forall|j: int|
                        0 <= j <= i ==> !((#[trigger] listed[j]).on_screen && listed[j].id
                            == target_id)
                }
        } by {
            let all = ahead(listed, target_id);
            let k = choose|k: int| 0 <= k < all.len() && all[k] == window;
            let skipped = !listed[0].on_screen;
            if !skipped && k == 0 {
                assert(listed[0] == window);
            } else {
                let behind = ahead(rest, target_id);
                assert(behind.contains(window)) by {
                    if skipped {
                        assert(behind[k] == window);
                    } else {
                        assert(behind[k - 1] == window);
                    }
                }
                let i = choose|i: int|
                    {
                        &&& 0 <= i < rest.len()
                        &&& #[trigger] rest[i] == window
                        &&& forall|j: int|
                            0 <= j <= i ==> !((#[trigger] rest[j]).on_screen && rest[j].id
                                == target_id)
                    };
                assert(listed[i + 1] == window);
                assert forall|j: int| 0 <= j <= i + 1 implies !((
                #[trigger] listed[j]).on_screen && listed[j].id == target_id) by {
                    if j > 0 {
                        assert(rest[j - 1] == listed[j]);
                    }
                }
            }
        }
    }
}

/// What is reported as covering the target is on screen, is not the target, is
/// listed before every on-screen window with the target's id, and is what the
/// test asks for.
pub proof fn an_obstruction_is_really_in_front(
    listed: Seq<WindowFacts>,
    target_id: u32,
    probe: Probe,
)
    ensures
        obstruction(listed, target_id, probe) matches Ok(Some(window)) ==> {
            &&& probe.accepts(window)
            &&& window.on_screen
            &&& window.id != target_id
            &&& exists|i: int|
                {
                    &&& 0 <= i < listed.len()
                    &&& #[trigger] listed[i] == window
                    &&& forall|j: int|
                        0 <= j <= i ==> !((#[trigger] listed[j]).on_screen && listed[j].id
                            == target_id)
                }
        },
{
    first_is_accepted(
        ahead(listed, target_id),
        |window: WindowFacts| probe.accepts(window),
    );
    ahead_is_in_front(listed, target_id);
}

proof fn in_front_is_ahead(listed: Seq<WindowFacts>, target_id: u32, i: int)
    requires
        0 <= i < listed.len(),
        listed[i].on_screen,
        forall|j: int|
            0 <= j <= i ==> !((#[trigger] listed[j]).on_screen && listed[j].id == target_id),
    ensures
        ahead(listed, target_id).contains(listed[i]),
    decreases listed.len(),
{
    let rest = listed.skip(1);
    let all = ahead(listed, target_id);
    assert(listed[0] == listed[0]);
    if i == 0 {
        assert(all[0] == listed[0]);
    } else {
        assert forall|j: int| 0 <= j <= i - 1 implies !((#[trigger] rest[j]).on_screen && rest[j].id
            == target_id) by {
            assert(rest[j] == listed[j + 1]);
        }
        in_front_is_ahead(rest, target_id, i - 1);
        let behind = ahead(rest, target_id);
        let k = choose|k: int| 0 <= k < behind.len() && behind[k] == rest[i - 1];
        if listed[0].on_screen {
            assert(all[k + 1] == listed[i]);
        } else {
            assert(all[k] == listed[i]);
        }
    }
}

/// A clear answer is one about a target that is there: every on-screen window in
/// front of it was asked, and none was hit.
pub proof fn a_clear_target_is_listed_and_uncovered(
    listed: Seq<WindowFacts>,
    target_id: u32,
    probe: Probe,
    i: int,
)
    requires
        obstruction(listed, target_id, probe) == Ok::<Option<WindowFacts>, TargetMissing>(None),
        0 <= i < listed.len(),
        listed[i].on_screen,
        forall|j: int|
            0 <= j <= i ==> !((#[trigger] listed[j]).on_screen && listed[j].id == target_id),
    ensures
        shown(listed, target_id),
        !probe.accepts(listed[i]),
{
    let test = |window: WindowFacts| probe.accepts(window);
    let front = ahead(listed, target_id);
    first_is_accepted(front, test);
    in_front_is_ahead(listed, target_id, i);
    let k = choose|k: int| 0 <= k < front.len() && front[k] == listed[i];
    assert(!test(front[k]));
}

proof fn filtered_is_listed(listed: Seq<WindowFacts>, test: spec_fn(WindowFacts) -> bool, i: int)
    requires
        0 <= i < listed.filter(test).len(),
    ensures
        test(listed.filter(test)[i]),
        listed.contains(listed.filter(test)[i]),
    decreases listed.len(),
{
    reveal(Seq::filter);
    let before = listed.drop_last();
    let kept = before.filter(test);
    if i < kept.len() {
        filtered_is_listed(before, test, i);
        let k = choose|k: int| 0 <= k < before.len() && before[k] == kept[i];
        assert(listed[k] == kept[i]);
    } else {
        assert(listed[listed.len() - 1] == listed.last());
    }
}

/// A window that was open when the target was selected is never its child, and
/// neither is the target.
pub proof fn a_child_is_new(
    listed: Seq<WindowFacts>,
    pid: i32,
    target_id: u32,
    at_selection: Seq<u32>,
    window: WindowFacts,
)
    requires
        listed.filter(|w: WindowFacts| is_child(w, pid, target_id, at_selection)).contains(window),
    ensures
        listed.contains(window),
        window.pid == pid,
        window.id != target_id,
        !at_selection.contains(window.id),
{
    let test = |w: WindowFacts| is_child(w, pid, target_id, at_selection);
    let kept = listed.filter(test);
    let i = choose|i: int| 0 <= i < kept.len() && kept[i] == window;
    filtered_is_listed(listed, test, i);
}

/// A rectangle owns its own corner and none of the points just past its far edges, and two
/// that it is cut into own together what it owned, no point twice.
pub proof fn a_cut_rectangle_owns_each_point_once(
    whole: Bounds,
    left: Bounds,
    right: Bounds,
    x: int,
    y: int,
)
    requires
        left.x == whole.x && left.y == whole.y && left.h == whole.h,
        right.x == left.x + left.w && right.y == whole.y && right.h == whole.h,
        left.w > 0 && right.w > 0 && whole.w == left.w + right.w,
    ensures
        whole.owns(x, y) <==> left.owns(x, y) || right.owns(x, y),
        !(left.owns(x, y) && right.owns(x, y)),
        whole.h > 0 ==> whole.owns(whole.x as int, whole.y as int),
        !whole.owns(whole.x + whole.w, y),
        !whole.owns(x, whole.y + whole.h),
        whole.owns(x, y) ==> 0 <= x - whole.x < whole.w && 0 <= y - whole.y < whole.h,
{
}

/// Two rectangles are near exactly where no side of one is further from that of the other
/// than the tolerance.
pub proof fn near_is_near_on_every_side(a: Bounds, b: Bounds, tolerance: int)
    ensures
        a.near(b, tolerance) <==> {
            &&& -tolerance <= a.x - b.x <= tolerance
            &&& -tolerance <= a.y - b.y <= tolerance
            &&& -tolerance <= a.w - b.w <= tolerance
            &&& -tolerance <= a.h - b.h <= tolerance
        },
{
}

/// A double is greater than zero exactly where its sign is clear, it is not zero and it is
/// a number.
pub proof fn a_positive_double_is_a_number(bits: u64, sign: int, exponent: int, low: int)
    requires
        0 <= sign <= 1,
        0 <= exponent < 2048,
        0 <= low < 0x10_0000_0000_0000,
        bits == sign * 0x8000_0000_0000_0000 + exponent * 0x10_0000_0000_0000 + low,
    ensures
        is_positive(bits) <==> sign == 0 && (exponent > 0 || low > 0) && (exponent < 2047 || low
            == 0),
{
}

/// A rectangle is read from four readings exactly where all of them were made and neither
/// side is nothing; each reading is its own side.
pub proof fn bounds_are_read_side_by_side(
    x: Option<u64>,
    y: Option<u64>,
    w: Option<u64>,
    h: Option<u64>,
)
    ensures
        bounds_of(x, y, w, h) is Some <==> x is Some && y is Some && w is Some && h is Some
            && is_positive(w->0) && is_positive(h->0),
        bounds_of(x, y, w, h) matches Some(bounds) ==> {
            &&& bounds.x == measure::millionths(x->0)
            &&& bounds.y == measure::millionths(y->0)
            &&& bounds.w == measure::millionths(w->0)
            &&& bounds.h == measure::millionths(h->0)
        },
{
}

/// The first window of a list that a test accepts is one it accepts with none before it
/// that it accepts too.
pub proof fn the_first_comes_before_the_others(
    listed: Seq<WindowFacts>,
    accepts: spec_fn(WindowFacts) -> bool,
    i: int,
)
    requires
        0 <= i < listed.len(),
        accepts(listed[i]),
        forall|j: int| 0 <= j < i ==> !accepts(#[trigger] listed[j]),
    ensures
        first(listed, accepts) == Some(listed[i]),
    decreases i,
{
    if i > 0 {
        assert(!accepts(listed[0]));
        let rest = listed.skip(1);
        assert forall|j: int| 0 <= j < i - 1 implies !accepts(#[trigger] rest[j]) by {
            assert(rest[j] == listed[j + 1]);
        }
        the_first_comes_before_the_others(rest, accepts, i - 1);
    }
}

/// What is in the way is the frontmost of what is: the first on-screen window of the list
/// that is in front of the target and that the test accepts.
pub proof fn the_frontmost_obstruction_is_named(
    listed: Seq<WindowFacts>,
    target_id: u32,
    probe: Probe,
    i: int,
)
    requires
        shown(listed, target_id),
        0 <= i < listed.len(),
        listed[i].on_screen,
        probe.accepts(listed[i]),
        forall|j: int|
            0 <= j <= i ==> !((#[trigger] listed[j]).on_screen && listed[j].id == target_id),
        forall|j: int|
            0 <= j < i ==> !((#[trigger] listed[j]).on_screen && probe.accepts(listed[j])),
    ensures
        obstruction(listed, target_id, probe) == Ok::<Option<WindowFacts>, TargetMissing>(
            Some(listed[i]),
        ),
{
    the_first_ahead_is_named(listed, target_id, probe, i);
}

proof fn the_first_ahead_is_named(
    listed: Seq<WindowFacts>,
    target_id: u32,
    probe: Probe,
    i: int,
)
    requires
        0 <= i < listed.len(),
        listed[i].on_screen,
        probe.accepts(listed[i]),
        forall|j: int|
            0 <= j <= i ==> !((#[trigger] listed[j]).on_screen && listed[j].id == target_id),
        forall|j: int|
            0 <= j < i ==> !((#[trigger] listed[j]).on_screen && probe.accepts(listed[j])),
    ensures
        first(ahead(listed, target_id), |window: WindowFacts| probe.accepts(window)) == Some(
            listed[i],
        ),
    decreases i,
{
    let test = |window: WindowFacts| probe.accepts(window);
    let rest = listed.skip(1);
    assert(listed[0] == listed[0]);
    if i == 0 {
        assert(ahead(listed, target_id)[0] == listed[0]);
    } else {
        assert forall|j: int| 0 <= j <= i - 1 implies !((#[trigger] rest[j]).on_screen && rest[j].id
            == target_id) by {
            assert(rest[j] == listed[j + 1]);
        }
        assert forall|j: int| 0 <= j < i - 1 implies !((#[trigger] rest[j]).on_screen
            && probe.accepts(rest[j])) by {
            assert(rest[j] == listed[j + 1]);
        }
        the_first_ahead_is_named(rest, target_id, probe, i - 1);
        if listed[0].on_screen {
            assert(ahead(listed, target_id).skip(1) =~= ahead(rest, target_id));
            assert(ahead(listed, target_id)[0] == listed[0]);
            assert(!test(listed[0]));
        }
    }
}

/// What covers a point owns it, and what covers an area overlaps it and belongs to no
/// process that is to be ignored.
pub proof fn a_probe_asks_what_it_says(window: WindowFacts, x: i64, y: i64, area: Bounds, pid: i32)
    ensures
        (Probe::Point { x, y }).accepts(window) <==> window.bounds.x <= x < window.bounds.x
            + window.bounds.w && window.bounds.y <= y < window.bounds.y + window.bounds.h,
        (Probe::Area { area, ignoring: None }).accepts(window) <==> window.bounds.overlaps(area),
        (Probe::Area { area, ignoring: Some(pid) }).accepts(window) <==> window.pid != pid
            && window.bounds.overlaps(area),
{
}

/// Every on-screen window of the target's application that is not the target and was not
/// open when it was selected is its child, in the order of the list.
pub proof fn every_new_window_is_a_child(
    listed: Seq<WindowFacts>,
    pid: i32,
    target_id: u32,
    at_selection: Seq<u32>,
    i: int,
)
    requires
        0 <= i < listed.len(),
        listed[i].on_screen,
        listed[i].pid == pid,
        listed[i].id != target_id,
        !at_selection.contains(listed[i].id),
    ensures
        listed.filter(|w: WindowFacts| is_child(w, pid, target_id, at_selection)).contains(
            listed[i],
        ),
{
    listed.lemma_filter_contains(|w: WindowFacts| is_child(w, pid, target_id, at_selection), i);
}

} // verus!
