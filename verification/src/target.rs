//! One bound window: what it is, whether it is still there, and what may be done
//! inside it.
//!
//! A target is a promise with four halves. It is still the same window: the pid,
//! that process's start time and the window's id together. It is where the caller
//! last saw it, or the image is stale. A pixel really reaches it, or the action is
//! refused and names what is in front. And the person can see it happening: no
//! ready indicator, no change to the target.
//!
//! Nothing here reads the system. What has to be read is asked for, and each
//! function says what follows from the answers it has.

use serde_json::Value;
use vstd::prelude::*;

use crate::geometry::{Geometry, MonitorFacts};
use crate::json;
use crate::json::Json;
use crate::measure;
use crate::observation::{Observation, ObservationView};
use crate::text;
use crate::window_frames;
use crate::window_frames::{
    Fence, FrameError, FrameErrorView, StreamWindow, WindowFrame, WindowFrameView,
};
use crate::window_server;
use crate::window_server::{Bounds, Probe, WindowFacts};
use crate::wire;
use crate::wire::{Failure, FailureView};

verus! {

/// How closely one of the application's accessibility windows must match the window
/// the caller named before it is bound to it: two points, in millionths.
pub const AX_MATCH_TOLERANCE: i64 = 2_000_000;

/// How far a window may move before the image a caller acted in is stale: half a
/// point, in millionths.
pub const GEOMETRY_TOLERANCE: i64 = 500_000;

/// How long a selection waits for the stream's first frame.
pub const FIRST_FRAME_MS: u64 = 3_000;

/// How long a look waits for a frame that passes the fence.
pub const FENCE_WAIT_MS: u64 = 400;

/// The interval between two looks at the slot while waiting for one of those.
pub const SLOT_POLL_MS: u64 = 10;

/// How the accessibility half of a target came out.
#[derive(Clone, Copy, Debug, PartialEq, Eq, Structural)]
pub enum AxBinding {
    /// Exactly one of the application's windows is this one.
    Bound,
    /// More than one looks like it, so naming a control inside it would be a guess.
    Ambiguous,
    /// None could be matched.
    Unavailable,
}

/// The name a binding has on the wire.
pub open spec fn binding_name(binding: AxBinding) -> Seq<char> {
    match binding {
        AxBinding::Bound => "bound"@,
        AxBinding::Ambiguous => "ambiguous"@,
        AxBinding::Unavailable => "unavailable"@,
    }
}

impl AxBinding {
    fn as_str(self) -> (r: &'static str)
        ensures
            r@ == binding_name(self),
    {
        match self {
            AxBinding::Bound => "bound",
            AxBinding::Ambiguous => "ambiguous",
            AxBinding::Unavailable => "unavailable",
        }
    }
}

/// The window this helper is bound to.
#[derive(Debug)]
pub struct Target {
    pub id: String,
    /// Bumped on every reselect, so a reply can say which binding it is about.
    pub generation: u64,
    pub window_id: u32,
    pub pid: i32,
    /// The owning process's start time: pids are reused, so a target is only itself
    /// while this still answers what it answered at selection.
    pub started_at: u64,
    pub app: String,
    pub title: String,
    pub ax_binding: AxBinding,
    /// The bound accessibility window, when exactly one matched.
    pub ax_window: Option<u64>,
    /// The application's on-screen windows at the moment of selection.
    pub siblings: Vec<u32>,
    pub display_id: u32,
    pub facts: MonitorFacts,
    /// How many times the badge has been restarted for this target.
    pub restarts: u32,
}

/// What a target holds.
#[verifier::ext_equal]
pub struct TargetView {
    pub id: Seq<char>,
    pub generation: u64,
    pub window_id: u32,
    pub pid: i32,
    pub started_at: u64,
    pub app: Seq<char>,
    pub title: Seq<char>,
    pub ax_binding: AxBinding,
    pub ax_window: Option<u64>,
    pub siblings: Seq<u32>,
    pub display_id: u32,
    pub facts: MonitorFacts,
    pub restarts: u32,
}

impl View for Target {
    type V = TargetView;

    open spec fn view(&self) -> TargetView {
        TargetView {
            id: self.id@,
            generation: self.generation,
            window_id: self.window_id,
            pid: self.pid,
            started_at: self.started_at,
            app: self.app@,
            title: self.title@,
            ax_binding: self.ax_binding,
            ax_window: self.ax_window,
            siblings: self.siblings@,
            display_id: self.display_id,
            facts: self.facts,
            restarts: self.restarts,
        }
    }
}

/// The bound window as one request sees it: checked alive, its mapping built from
/// the newest frame. Built once per request, so every part of one action agrees
/// about where the window was.
#[derive(Clone, Copy, Debug, PartialEq, Eq, Structural)]
pub struct Live {
    pub window_id: u32,
    pub geometry: Geometry,
    pub display_id: u32,
    pub facts: MonitorFacts,
    /// The sequence a later fence is measured against.
    pub seq: u64,
}

// --- the transform ------------------------------------------------------------

/// A quotient of positive numbers to four decimal places, halves up.
pub open spec fn written4(a: int, b: int) -> Seq<char> {
    let q = ((a * 10_000 + b / 2) / b) as nat;
    text::decimal(q / 10_000) + "."@ + measure::padded(q % 10_000, 4)
}

/// A length to one decimal place, halves away from zero.
pub open spec fn written1(length: int) -> Seq<char> {
    let size = if length < 0 {
        (-length) as nat
    } else {
        length as nat
    };
    let q = (size + 50_000) / 100_000;
    let sign = if length < 0 {
        "-"@
    } else {
        ""@
    };
    sign + text::decimal(q / 10) + "."@ + text::decimal(q % 10)
}

/// What the frame claimed its scale was, for a mismatch a person has to diagnose.
pub open spec fn reported(frame: WindowFrameView) -> Seq<char> {
    match frame.reported_scale {
        Some(scale) => " (the display reports "@ + measure::written(scale as int)
            + " pixels a point)"@,
        None => ""@,
    }
}

/// A surface that does not describe the window.
pub open spec fn mismatch(detail: Seq<char>) -> FailureView {
    wire::failed("capture_geometry_mismatch"@, detail)
}

/// Whether both the window and the frame have an area.
pub open spec fn has_area(frame: WindowFrameView, bounds: Bounds) -> bool {
    bounds.w > 0 && bounds.h > 0 && frame.width > 0 && frame.height > 0
}

/// Whether the scale across and the scale down agree to within one pixel over the
/// whole window.
pub open spec fn scales_agree(frame: WindowFrameView, bounds: Bounds) -> bool {
    measure::distance(bounds.h * frame.width, bounds.w * frame.height) <= bounds.w
}

/// Whether the content fills the surface to within two pixels on every side.
pub open spec fn fills(frame: WindowFrameView, bounds: Bounds, content: Bounds) -> bool {
    &&& measure::distance(content.x * frame.width, 0) <= 2 * bounds.w
    &&& measure::distance(content.y * frame.height, 0) <= 2 * bounds.h
    &&& measure::distance(bounds.w * frame.width, content.w * frame.width) <= 2 * bounds.w
    &&& measure::distance(bounds.h * frame.height, content.h * frame.height) <= 2 * bounds.h
}

/// The measured pixels per point, in millionths, halves up, and no more than can
/// be held.
pub open spec fn measured_scale(frame: WindowFrameView, bounds: Bounds) -> int {
    let scale = (frame.width * 1_000_000_000_000 + bounds.w as int / 2) / bounds.w as int;
    if scale > i64::MAX {
        i64::MAX as int
    } else {
        scale
    }
}

/// The mapping of one window's image: pixels of the frame to the global logical
/// points the window server says the window covers.
pub open spec fn mapping(frame: WindowFrameView, bounds: Bounds) -> Result<Geometry, FailureView> {
    if !has_area(frame, bounds) {
        Err(
            mismatch(
                "the window is "@ + measure::written(bounds.w as int) + "x"@ + measure::written(
                    bounds.h as int,
                ) + " points and its frame is "@ + text::decimal(frame.width as nat) + "x"@
                    + text::decimal(frame.height as nat)
                    + " pixels, and neither a window nor a picture of one can have a side of nothing"@,
            ),
        )
    } else if !scales_agree(frame, bounds) {
        Err(
            mismatch(
                "the frame is "@ + text::decimal(frame.width as nat) + "x"@ + text::decimal(
                    frame.height as nat,
                ) + " pixels for a window "@ + measure::written(bounds.w as int) + "x"@
                    + measure::written(bounds.h as int) + " points, which is "@ + written4(
                    frame.width * 1_000_000,
                    bounds.w as int,
                ) + " pixels a point across and "@ + written4(
                    frame.height * 1_000_000,
                    bounds.h as int,
                ) + " down; a picture of this window cannot have two scales"@ + reported(frame),
            ),
        )
    } else if frame.content_rect is Some && !fills(frame, bounds, frame.content_rect->0) {
        let content = frame.content_rect->0;
        Err(
            mismatch(
                "the window's content covers "@ + written1(content.w as int) + "x"@ + written1(
                    content.h as int,
                ) + " points at ("@ + written1(content.x as int) + ", "@ + written1(
                    content.y as int,
                ) + ") of a "@ + text::decimal(frame.width as nat) + "x"@ + text::decimal(
                    frame.height as nat,
                )
                    + " pixel surface, so the picture is inset inside it and every coordinate read in it would be off by that border"@,
            ),
        )
    } else {
        Ok(
            Geometry {
                phys_w: frame.width,
                phys_h: frame.height,
                logical_w: bounds.w,
                logical_h: bounds.h,
                origin_x: bounds.x,
                origin_y: bounds.y,
                scale_factor: measured_scale(frame, bounds) as i64,
            },
        )
    }
}

/// A result, with what its failure says in place of what it holds.
pub open spec fn told<T>(r: Result<T, Failure>) -> Result<T, FailureView> {
    match r {
        Ok(value) => Ok(value),
        Err(failure) => Err(failure@),
    }
}

fn write4(a: u128, b: u128) -> (r: String)
    requires
        0 < b,
        a * 10_000 + b / 2 <= u128::MAX,
    ensures
        r@ == written4(a as int, b as int),
{
    let q: u128 = (a * 10_000 + b / 2) / b;
    let mut out = text::write_decimal_wide(q / 10_000);
    out.append(".");
    out.append(measure::write_padded((q % 10_000) as u64, 4).as_str());
    out
}

fn write1(length: i64) -> (r: String)
    ensures
        r@ == written1(length as int),
{
    let size: u128 = if length < 0 {
        (-(length as i128)) as u128
    } else {
        length as u128
    };
    let q: u64 = ((size + 50_000) / 100_000) as u64;
    let mut out = if length < 0 {
        "-".to_owned()
    } else {
        "".to_owned()
    };
    out.append(text::write_decimal(q / 10).as_str());
    out.append(".");
    out.append(text::write_decimal(q % 10).as_str());
    out
}

fn apart(a: i128, b: i128) -> (r: i128)
    requires
        -0x4000_0000_0000_0000_0000_0000_0000_0000 <= a <= 0x3fff_ffff_ffff_ffff_ffff_ffff_ffff_ffff,
        -0x4000_0000_0000_0000_0000_0000_0000_0000 <= b <= 0x3fff_ffff_ffff_ffff_ffff_ffff_ffff_ffff,
    ensures
        r == measure::distance(a as int, b as int),
{
    if a >= b {
        a - b
    } else {
        b - a
    }
}

fn product(a: i64, b: u32) -> (r: i128)
    ensures
        r == a * b,
        -0x4000_0000_0000_0000_0000_0000_0000_0000 <= r <= 0x3fff_ffff_ffff_ffff_ffff_ffff_ffff_ffff,
{
    assert(-0x8000_0000_0000_0000 * 0xffff_ffff <= a * b <= 0x7fff_ffff_ffff_ffff * 0xffff_ffff)
        by (nonlinear_arith)
        requires
            -0x8000_0000_0000_0000 <= a <= 0x7fff_ffff_ffff_ffff,
            0 <= b <= 0xffff_ffff,
    ;
    a as i128 * b as i128
}

fn mismatched(detail: String) -> (r: Failure)
    ensures
        r@ == mismatch(detail@),
{
    Failure::new("capture_geometry_mismatch", detail)
}

fn write_reported(frame: &WindowFrame) -> (r: String)
    ensures
        r@ == reported(frame@),
{
    match frame.reported_scale {
        Some(scale) => {
            let mut out = " (the display reports ".to_owned();
            out.append(measure::write(scale).as_str());
            out.append(" pixels a point)");
            out
        },
        None => "".to_owned(),
    }
}

fn agrees(frame: &WindowFrame, bounds: &Bounds) -> (r: bool)
    ensures
        r == scales_agree(frame@, *bounds),
{
    apart(product(bounds.h, frame.width), product(bounds.w, frame.height)) <= bounds.w as i128
}

fn filled(frame: &WindowFrame, bounds: &Bounds, content: &Bounds) -> (r: bool)
    ensures
        r == fills(frame@, *bounds, *content),
{
    apart(product(content.x, frame.width), 0) <= 2 * bounds.w as i128 && apart(
        product(content.y, frame.height),
        0,
    ) <= 2 * bounds.h as i128 && apart(
        product(bounds.w, frame.width),
        product(content.w, frame.width),
    ) <= 2 * bounds.w as i128 && apart(
        product(bounds.h, frame.height),
        product(content.h, frame.height),
    ) <= 2 * bounds.h as i128
}


/// The mapping for one window: image pixels to the global logical points the input
/// path takes. The window's place and size come from the window server, the scale is
/// measured, and the physical size is the frame's own. A surface whose shape does not
/// describe the window is refused with the numbers rather than mapped.
pub fn transform(frame: &WindowFrame, bounds: &Bounds) -> (r: Result<Geometry, Failure>)
    ensures
        told(r) == mapping(frame@, *bounds),
{
    if bounds.w <= 0 || bounds.h <= 0 || frame.width == 0 || frame.height == 0 {
        let mut detail = "the window is ".to_owned();
        detail.append(measure::write(bounds.w).as_str());
        detail.append("x");
        detail.append(measure::write(bounds.h).as_str());
        detail.append(" points and its frame is ");
        detail.append(text::write_decimal(frame.width as u64).as_str());
        detail.append("x");
        detail.append(text::write_decimal(frame.height as u64).as_str());
        detail.append(
            " pixels, and neither a window nor a picture of one can have a side of nothing",
        );
        return Err(mismatched(detail));
    }
    if !agrees(frame, bounds) {
        let mut detail = "the frame is ".to_owned();
        detail.append(text::write_decimal(frame.width as u64).as_str());
        detail.append("x");
        detail.append(text::write_decimal(frame.height as u64).as_str());
        detail.append(" pixels for a window ");
        detail.append(measure::write(bounds.w).as_str());
        detail.append("x");
        detail.append(measure::write(bounds.h).as_str());
        detail.append(" points, which is ");
        detail.append(write4(frame.width as u128 * 1_000_000, bounds.w as u128).as_str());
        detail.append(" pixels a point across and ");
        detail.append(write4(frame.height as u128 * 1_000_000, bounds.h as u128).as_str());
        detail.append(" down; a picture of this window cannot have two scales");
        detail.append(write_reported(frame).as_str());
        return Err(mismatched(detail));
    }
    if let Some(content) = frame.content_rect {
        if !filled(frame, bounds, &content) {
            let mut detail = "the window's content covers ".to_owned();
            detail.append(write1(content.w).as_str());
            detail.append("x");
            detail.append(write1(content.h).as_str());
            detail.append(" points at (");
            detail.append(write1(content.x).as_str());
            detail.append(", ");
            detail.append(write1(content.y).as_str());
            detail.append(") of a ");
            detail.append(text::write_decimal(frame.width as u64).as_str());
            detail.append("x");
            detail.append(text::write_decimal(frame.height as u64).as_str());
            detail.append(
                " pixel surface, so the picture is inset inside it and every coordinate read in it would be off by that border",
            );
            return Err(mismatched(detail));
        }
    }
    let scale: u128 = (frame.width as u128 * 1_000_000_000_000 + bounds.w as u128 / 2)
        / bounds.w as u128;
    let scale_factor: i64 = if scale > i64::MAX as u128 {
        i64::MAX
    } else {
        scale as i64
    };
    Ok(
        Geometry {
            phys_w: frame.width,
            phys_h: frame.height,
            logical_w: bounds.w,
            logical_h: bounds.h,
            origin_x: bounds.x,
            origin_y: bounds.y,
            scale_factor,
        },
    )
}

/// Whether two readings are of one number.
pub open spec fn same_reading(a: i64, b: i64) -> bool {
    measure::distance(a as int, b as int) <= GEOMETRY_TOLERANCE
}

fn near(a: i64, b: i64) -> (r: bool)
    ensures
        r == same_reading(a, b),
{
    apart(a as i128, b as i128) <= GEOMETRY_TOLERANCE as i128
}

/// Whether two mappings are of windows rendered at one scale. A scale is measured from a
/// width, so two readings of one width give two scales: over one and the same surface
/// they are still one.
pub open spec fn same_scale(was: Geometry, now: Geometry) -> bool {
    ||| was.scale_factor == now.scale_factor
    ||| was.phys_w == now.phys_w && was.phys_h == now.phys_h
}

/// Whether an observation still describes the window as it is now: where it is and
/// how big it is, to within the tolerance bounds are read to, what scale it was
/// rendered at, and on which display.
pub open spec fn still_there(observation: ObservationView, live: Live) -> bool {
    let was = observation.geometry;
    let now = live.geometry;
    &&& same_reading(was.origin_x, now.origin_x)
    &&& same_reading(was.origin_y, now.origin_y)
    &&& same_reading(was.logical_w, now.logical_w)
    &&& same_reading(was.logical_h, now.logical_h)
    &&& same_scale(was, now)
    &&& observation.display_id == live.display_id
}

/// Is this observation still describing the window as it is now? A difference means
/// a coordinate read in that image maps somewhere nobody chose.
pub fn unmoved(observation: &Observation, live: &Live) -> (r: Result<(), Failure>)
    ensures
        told(r) == (if still_there(observation@, *live) {
            Ok(())
        } else {
            Err(wire::failed("stale_observation"@, "geometry_changed"@))
        }),
{
    let was = &observation.geometry;
    let now = &live.geometry;
    let same_scale = was.scale_factor == now.scale_factor || (was.phys_w == now.phys_w
        && was.phys_h == now.phys_h);
    if near(was.origin_x, now.origin_x) && near(was.origin_y, now.origin_y) && near(
        was.logical_w,
        now.logical_w,
    ) && near(was.logical_h, now.logical_h) && same_scale && observation.display_id == live.display_id {
        Ok(())
    } else {
        Err(Failure::new("stale_observation", "geometry_changed".to_owned()))
    }
}

// --- the frames seam ----------------------------------------------------------

/// A bound window's frames, and the fence every look of one check is held to. Armed
/// the instant the input is complete and disarmed when the action ends.
#[derive(Debug)]
pub struct TargetFrames {
    pub fence: Option<Fence>,
}

/// What to do about one look that was waited on.
#[derive(Debug)]
pub enum Look {
    /// Look again after this many milliseconds.
    Again(u64),
    /// This is the answer.
    Answer(Result<WindowFrame, FrameError>),
}

impl TargetFrames {
    pub fn new() -> (r: TargetFrames)
        ensures
            r.fence is None,
    {
        TargetFrames { fence: None }
    }

    /// From here on, only a frame the window server displayed after `at_mach` and
    /// whose sequence is beyond `seq`.
    pub fn arm(&mut self, at_mach: u64, seq: u64)
        ensures
            final(self).fence == Some(Fence { after_mach: at_mach, beyond_seq: seq }),
    {
        self.fence = Some(Fence { after_mach: at_mach, beyond_seq: seq });
    }

    pub fn disarm(&mut self)
        ensures
            final(self).fence is None,
    {
        self.fence = None;
    }

    /// When a wait that starts now has to answer.
    pub fn deadline(now_ms: u64) -> (r: u64)
        requires
            now_ms + FENCE_WAIT_MS <= u64::MAX,
        ensures
            r == now_ms + FENCE_WAIT_MS,
    {
        now_ms + FENCE_WAIT_MS
    }

    /// What a look that answered this, at this time, means for a wait that has to
    /// answer by a deadline: nothing yet is looked for again until then, and
    /// everything else is the answer.
    pub fn newest(
        latest: Result<WindowFrame, FrameError>,
        now_ms: u64,
        deadline_ms: u64,
    ) -> (r: Look)
        ensures
            match r {
                Look::Again(ms) => {
                    &&& ms == SLOT_POLL_MS
                    &&& now_ms < deadline_ms
                    &&& latest is Err && latest->Err_0 is NotYet
                },
                Look::Answer(answer) => {
                    &&& answer == latest
                    &&& now_ms >= deadline_ms || !(latest is Err && latest->Err_0 is NotYet)
                },
            },
    {
        match latest {
            Err(FrameError::NotYet) => if now_ms < deadline_ms {
                Look::Again(SLOT_POLL_MS)
            } else {
                Look::Answer(Err(FrameError::NotYet))
            },
            answer => Look::Answer(answer),
        }
    }
}

/// A frame error as the wire reports it.
pub open spec fn frame_failure(error: FrameErrorView) -> FailureView {
    wire::failed(
        window_frames::frame_error_code(error),
        window_frames::frame_error_detail(error),
    )
}

/// A frame error as the wire reports it.
pub fn as_failure(error: FrameError) -> (r: Failure)
    ensures
        r@ == frame_failure(error@),
{
    Failure::new(error.code(), error.detail())
}

// --- selection ----------------------------------------------------------------

/// A window server that would not answer: the target is unusable, which is not an
/// empty desktop.
pub open spec fn server_refused(reason: Seq<char>) -> FailureView {
    wire::failed(
        "target_unavailable"@,
        "the window server would not say what windows exist: "@ + reason,
    )
}

fn unavailable(reason: &str) -> (r: Failure)
    ensures
        r@ == server_refused(reason@),
{
    let mut detail = "the window server would not say what windows exist: ".to_owned();
    detail.append(reason);
    Failure::new("target_unavailable", detail)
}

/// A window's side in points as a surface side in real pixels, rounded up, so a
/// window at a fractional size is never asked for at a pixel less than it covers.
pub open spec fn pixels_for(points: i64, scale: i64) -> u32 {
    let by = if scale > 0 {
        scale as int
    } else {
        1_000_000
    };
    let pixels = (points * by + 999_999_999_999) / 1_000_000_000_000;
    if pixels < 1 {
        1
    } else if pixels > u32::MAX {
        u32::MAX
    } else {
        pixels as u32
    }
}

fn surface_pixels(points: i64, scale: i64) -> (r: u32)
    ensures
        r == pixels_for(points, scale),
{
    let by: i64 = if scale > 0 {
        scale
    } else {
        1_000_000
    };
    if points <= 0 {
        assert(points * by <= 0) by (nonlinear_arith)
            requires
                points <= 0,
                by > 0,
        ;
        return 1;
    }
    assert(0 < points * by <= 0x7fff_ffff_ffff_ffff * 0x7fff_ffff_ffff_ffff) by (nonlinear_arith)
        requires
            0 < points <= 0x7fff_ffff_ffff_ffff,
            0 < by <= 0x7fff_ffff_ffff_ffff,
    ;
    let pixels: u128 = (points as u128 * by as u128 + 999_999_999_999) / 1_000_000_000_000;
    if pixels < 1 {
        1
    } else if pixels > u32::MAX as u128 {
        u32::MAX
    } else {
        pixels as u32
    }
}

/// One of an application's accessibility windows: a reference to it, what it is
/// labelled, and where it says it is.
#[derive(Debug)]
pub struct AxWindow {
    pub handle: u64,
    pub label: Option<String>,
    pub frame: Option<Bounds>,
}

/// Whether an accessibility window is a window of the window server's: the same
/// title, and the same place to within the tolerance. One with no label has an
/// empty title.
pub open spec fn is_window(candidate: AxWindow, window: WindowFacts) -> bool {
    let label = match candidate.label {
        Some(label) => label@,
        None => ""@,
    };
    &&& label == window.title@
    &&& candidate.frame matches Some(frame) && frame.near(
        window.bounds,
        AX_MATCH_TOLERANCE as int,
    )
}

/// The accessibility window that is this window, when exactly one is.
pub open spec fn accessibility_of(candidates: Seq<AxWindow>, window: WindowFacts) -> (
    AxBinding,
    Option<u64>,
) {
    let matching = candidates.filter(|candidate: AxWindow| is_window(candidate, window));
    if matching.len() == 1 {
        (AxBinding::Bound, Some(matching[0].handle))
    } else if matching.len() == 0 {
        (AxBinding::Unavailable, None)
    } else {
        (AxBinding::Ambiguous, None)
    }
}

fn matches_window(candidate: &AxWindow, window: &WindowFacts) -> (r: bool)
    ensures
        r == is_window(*candidate, *window),
{
    let titled = match &candidate.label {
        Some(label) => text::same(label.as_str(), window.title.as_str()),
        None => text::same("", window.title.as_str()),
    };
    let placed = match &candidate.frame {
        Some(frame) => frame.matches(&window.bounds, AX_MATCH_TOLERANCE),
        None => false,
    };
    titled && placed
}

/// The application's accessibility window that is this window, when exactly one of
/// them is. Two that look the same are ambiguous and neither is bound.
pub fn bind_accessibility(candidates: &[AxWindow], window: &WindowFacts) -> (r: (
    AxBinding,
    Option<u64>,
))
    ensures
        r == accessibility_of(candidates@, *window),
{
    let ghost test = |candidate: AxWindow| is_window(candidate, *window);
    let mut first: Option<u64> = None;
    let mut count: usize = 0;
    let mut i: usize = 0;
    proof {
        reveal(Seq::filter);
    }
    while i < candidates.len()
        invariant
            i <= candidates@.len(),
            count <= i,
            test == (|candidate: AxWindow| is_window(candidate, *window)),
            count == candidates@.take(i as int).filter(test).len(),
            count > 0 ==> first == Some(candidates@.take(i as int).filter(test)[0].handle),
        decreases candidates@.len() - i,
    {
        proof {
            reveal(Seq::filter);
            assert(candidates@.take(i as int + 1).drop_last() =~= candidates@.take(i as int));
        }
        if matches_window(&candidates[i], window) {
            if count == 0 {
                first = Some(candidates[i].handle);
            }
            count += 1;
        }
        i += 1;
    }
    assert(candidates@.take(i as int) =~= candidates@);
    if count == 1 {
        (AxBinding::Bound, first)
    } else if count == 0 {
        (AxBinding::Unavailable, None)
    } else {
        (AxBinding::Ambiguous, None)
    }
}

/// The names of the methods a binding offers.
pub open spec fn method_names(binding: AxBinding) -> Seq<Seq<char>> {
    if binding == AxBinding::Bound {
        seq!["foreground_hid"@, "ax"@]
    } else {
        seq!["foreground_hid"@]
    }
}

/// The methods this binding really offers. `ax` only where an accessibility window
/// was bound.
pub fn methods(binding: AxBinding) -> (r: Vec<&'static str>)
    ensures
        r@.map_values(|name: &'static str| name@) == method_names(binding),
{
    let mut out: Vec<&'static str> = Vec::new();
    out.push("foreground_hid");
    if binding == AxBinding::Bound {
        out.push("ax");
    }
    assert(out@.map_values(|name: &'static str| name@) =~= method_names(binding));
    out
}

/// What a selection binds.
#[derive(Debug)]
pub struct Selecting {
    pub window_id: u32,
    pub generation: u64,
    pub id: String,
    pub display_id: u32,
    pub facts: MonitorFacts,
}

/// What has been read for a selection so far.
#[derive(Debug)]
pub struct Heard {
    /// The window server's listing.
    pub listing: Option<Result<Vec<WindowFacts>, String>>,
    /// When the process that owns the window started.
    pub started_at: Option<Option<u64>>,
    /// Whether the stream opened.
    pub stream: Option<Result<(), FrameError>>,
    /// The stream's first frame.
    pub first: Option<Result<WindowFrame, Failure>>,
    /// Whether the badge is up.
    pub indicator: Option<Result<(), String>>,
    /// The application's accessibility windows.
    pub accessibility: Option<Vec<AxWindow>>,
}

/// What a selection needs read next.
#[derive(Clone, Copy, Debug, PartialEq, Eq, Structural)]
pub enum Question {
    /// The window server's listing.
    Windows,
    /// When this process started.
    ProcessStart(i32),
    /// Open a stream of this window.
    Stream(StreamWindow),
    /// The stream's first frame.
    FirstFrame,
    /// Put up the badge.
    Indicator,
    /// This process's accessibility windows.
    AccessibilityWindows(i32),
}

/// How far a selection has come.
#[derive(Debug)]
pub enum Selection {
    /// It cannot go on before this is answered.
    Ask(Question),
    /// The window is bound, and this is the mapping of its first frame.
    Bound(Target, Geometry),
    Refused(Failure),
}

/// How far a selection has come, as what it says.
pub enum SelectionView {
    Ask(Question),
    Bound(TargetView, Geometry),
    Refused(FailureView),
}

impl View for Selection {
    type V = SelectionView;

    open spec fn view(&self) -> SelectionView {
        match self {
            Selection::Ask(question) => SelectionView::Ask(*question),
            Selection::Bound(target, geometry) => SelectionView::Bound(target@, *geometry),
            Selection::Refused(failure) => SelectionView::Refused(failure@),
        }
    }
}

/// An application's window, named as a person would.
pub open spec fn named_window(app: Seq<char>, title: Seq<char>) -> Seq<char> {
    app + " — "@ + title
}

fn write_named(app: &str, title: &str) -> (r: String)
    ensures
        r@ == named_window(app@, title@),
{
    let mut out = app.to_owned();
    out.append(" — ");
    out.append(title);
    out
}

/// The window to bind, out of a listing: one that is there and on screen.
pub open spec fn chosen(
    listing: Result<Vec<WindowFacts>, String>,
    window_id: u32,
) -> Result<WindowFacts, FailureView> {
    match listing {
        Err(reason) => Err(server_refused(reason@)),
        Ok(listed) => match window_server::first(
            listed@,
            |window: WindowFacts| window.id == window_id,
        ) {
            None => Err(
                wire::failed(
                    "target_unavailable"@,
                    "window "@ + text::decimal(window_id as nat)
                        + " is not one this machine has; take `windows` again"@,
                ),
            ),
            Some(window) => if window.on_screen {
                Ok(window)
            } else {
                Err(
                    wire::failed(
                        "target_minimized"@,
                        named_window(window.app@, window.title@)
                            + " is minimized or on another desktop, so there is nothing to see or act in; ask the user to bring it back"@,
                    ),
                )
            },
        },
    }
}

fn choose_window(listing: &Result<Vec<WindowFacts>, String>, window_id: u32) -> (r: Result<
    &WindowFacts,
    Failure,
>)
    ensures
        match r {
            Ok(window) => chosen(*listing, window_id) == Ok::<WindowFacts, FailureView>(*window),
            Err(failure) => chosen(*listing, window_id) == Err::<WindowFacts, FailureView>(
                failure@,
            ),
        },
{
    let listed = match listing {
        Ok(listed) => listed,
        Err(reason) => return Err(unavailable(reason.as_str())),
    };
    let window = match window_server::find(listed.as_slice(), window_id) {
        Some(window) => window,
        None => {
            let mut detail = "window ".to_owned();
            detail.append(text::write_decimal(window_id as u64).as_str());
            detail.append(" is not one this machine has; take `windows` again");
            return Err(Failure::new("target_unavailable", detail));
        },
    };
    if !window.on_screen {
        let mut detail = write_named(window.app.as_str(), window.title.as_str());
        detail.append(
            " is minimized or on another desktop, so there is nothing to see or act in; ask the user to bring it back",
        );
        return Err(Failure::new("target_minimized", detail));
    }
    Ok(window)
}

/// The failure of an application that will not say when it started.
pub open spec fn no_start_time() -> FailureView {
    wire::failed(
        "target_unavailable"@,
        "the application that owns that window would not say when it started, so a binding to it could not be told apart from a later process that reuses its id"@,
    )
}

/// The surface a stream of a window is asked for at.
pub open spec fn surface_of(window: WindowFacts, window_id: u32, facts: MonitorFacts) -> StreamWindow {
    StreamWindow {
        id: window_id,
        width: pixels_for(window.bounds.w, facts.scale_factor),
        height: pixels_for(window.bounds.h, facts.scale_factor),
    }
}

/// What a binding holds.
pub open spec fn bound_target(
    selecting: Selecting,
    window: WindowFacts,
    listed: Seq<WindowFacts>,
    started_at: u64,
    accessibility: (AxBinding, Option<u64>),
) -> TargetView {
    TargetView {
        id: selecting.id@,
        generation: selecting.generation,
        window_id: selecting.window_id,
        pid: window.pid,
        started_at,
        app: window.app@,
        title: window.title@,
        ax_binding: accessibility.0,
        ax_window: accessibility.1,
        siblings: listed.filter(
            |other: WindowFacts| other.on_screen && other.pid == window.pid,
        ).map_values(|other: WindowFacts| other.id),
        display_id: selecting.display_id,
        facts: selecting.facts,
        restarts: 0,
    }
}

/// Where a selection stands with what has been read: the window, then the
/// application, then the stream and its first frame, then the badge, and the
/// accessibility window last. Nothing is asked for before everything ahead of it is
/// known.
pub open spec fn selection(selecting: Selecting, heard: Heard) -> SelectionView {
    match heard.listing {
        None => SelectionView::Ask(Question::Windows),
        Some(listing) => match chosen(listing, selecting.window_id) {
            Err(failure) => SelectionView::Refused(failure),
            Ok(window) => match heard.started_at {
                None => SelectionView::Ask(Question::ProcessStart(window.pid)),
                Some(None) => SelectionView::Refused(no_start_time()),
                Some(Some(started_at)) => match heard.stream {
                    None => SelectionView::Ask(
                        Question::Stream(surface_of(window, selecting.window_id, selecting.facts)),
                    ),
                    Some(Err(error)) => SelectionView::Refused(frame_failure(error@)),
                    Some(Ok(_)) => match heard.first {
                        None => SelectionView::Ask(Question::FirstFrame),
                        Some(Err(failure)) => SelectionView::Refused(failure@),
                        Some(Ok(first)) => match mapping(first@, window.bounds) {
                            Err(failure) => SelectionView::Refused(failure),
                            Ok(geometry) => match heard.indicator {
                                None => SelectionView::Ask(Question::Indicator),
                                Some(Err(reason)) => SelectionView::Refused(
                                    wire::failed("control_surface_unavailable"@, reason@),
                                ),
                                Some(Ok(_)) => match heard.accessibility {
                                    None => SelectionView::Ask(
                                        Question::AccessibilityWindows(window.pid),
                                    ),
                                    Some(candidates) => SelectionView::Bound(
                                        bound_target(
                                            selecting,
                                            window,
                                            listing->Ok_0@,
                                            started_at,
                                            accessibility_of(candidates@, window),
                                        ),
                                        geometry,
                                    ),
                                },
                            },
                        },
                    },
                },
            },
        },
    }
}

fn copy_failure(failure: &Failure) -> (r: Failure)
    ensures
        r@ == failure@,
{
    Failure { code: failure.code.clone(), detail: text::copy_text(&failure.detail) }
}

/// Binds one window and answers what was bound, or what has to be read before it can
/// go on. The order is the one in which a failure costs least, and the accessibility
/// window is the one part a target is still useful without.
pub fn select(selecting: &Selecting, heard: &Heard) -> (r: Selection)
    ensures
        r@ == selection(*selecting, *heard),
        r matches Selection::Ask(Question::AccessibilityWindows(_)) ==> heard.indicator matches Some(
            Ok(_),
        ),
{
    let listing = match &heard.listing {
        Some(listing) => listing,
        None => return Selection::Ask(Question::Windows),
    };
    let window = match choose_window(listing, selecting.window_id) {
        Ok(window) => window,
        Err(failure) => return Selection::Refused(failure),
    };
    let started_at: u64 = match &heard.started_at {
        None => return Selection::Ask(Question::ProcessStart(window.pid)),
        Some(None) => {
            return Selection::Refused(
                Failure::new(
                    "target_unavailable",
                    "the application that owns that window would not say when it started, so a binding to it could not be told apart from a later process that reuses its id".to_owned(),
                ),
            );
        },
        Some(Some(started_at)) => *started_at,
    };
    match &heard.stream {
        None => {
            return Selection::Ask(
                Question::Stream(
                    StreamWindow {
                        id: selecting.window_id,
                        width: surface_pixels(window.bounds.w, selecting.facts.scale_factor),
                        height: surface_pixels(window.bounds.h, selecting.facts.scale_factor),
                    },
                ),
            );
        },
        Some(Err(error)) => {
            return Selection::Refused(Failure::new(error.code(), error.detail()));
        },
        Some(Ok(_)) => {},
    }
    let first = match &heard.first {
        None => return Selection::Ask(Question::FirstFrame),
        Some(Err(failure)) => return Selection::Refused(copy_failure(failure)),
        Some(Ok(first)) => first,
    };
    let geometry = match transform(first, &window.bounds) {
        Ok(geometry) => geometry,
        Err(failure) => return Selection::Refused(failure),
    };
    match &heard.indicator {
        None => return Selection::Ask(Question::Indicator),
        Some(Err(reason)) => {
            return Selection::Refused(
                Failure::new("control_surface_unavailable", reason.clone()),
            );
        },
        Some(Ok(_)) => {},
    }
    let candidates = match &heard.accessibility {
        None => return Selection::Ask(Question::AccessibilityWindows(window.pid)),
        Some(candidates) => candidates,
    };
    let (ax_binding, ax_window) = bind_accessibility(candidates.as_slice(), window);
    let siblings = match listing {
        Ok(listed) => window_server::ids_of(listed.as_slice(), window.pid),
        Err(_) => Vec::new(),
    };
    Selection::Bound(
        Target {
            id: selecting.id.clone(),
            generation: selecting.generation,
            window_id: selecting.window_id,
            pid: window.pid,
            started_at,
            app: window.app.clone(),
            title: window.title.clone(),
            ax_binding,
            ax_window,
            siblings,
            display_id: selecting.display_id,
            facts: selecting.facts,
            restarts: 0,
        },
        geometry,
    )
}

/// What to do about one look for a stream's first frame.
#[derive(Debug)]
pub enum FirstLook {
    /// This is it.
    Frame(WindowFrame),
    /// Look again after this many milliseconds.
    Again(u64),
    Refused(Failure),
}

/// The failure of a stream that started and sent nothing.
pub open spec fn no_first_frame() -> FailureView {
    wire::failed(
        "capture_unavailable"@,
        "the window capture started and sent no frame; the window may be on another desktop, or Screen Recording may not be granted"@,
    )
}

/// What a look for the stream's first frame means at this time, for a wait that ends
/// at a deadline.
pub fn first_frame(
    latest: Result<WindowFrame, FrameError>,
    now_ms: u64,
    deadline_ms: u64,
) -> (r: FirstLook)
    ensures
        match latest {
            Ok(frame) => r == FirstLook::Frame(frame),
            Err(error) => if error is NotYet {
                if now_ms < deadline_ms {
                    r == FirstLook::Again(SLOT_POLL_MS)
                } else {
                    r is Refused && r->Refused_0@ == no_first_frame()
                }
            } else {
                r is Refused && r->Refused_0@ == frame_failure(error@)
            },
        },
{
    match latest {
        Ok(frame) => FirstLook::Frame(frame),
        Err(FrameError::NotYet) => if now_ms < deadline_ms {
            FirstLook::Again(SLOT_POLL_MS)
        } else {
            FirstLook::Refused(
                Failure::new(
                    "capture_unavailable",
                    "the window capture started and sent no frame; the window may be on another desktop, or Screen Recording may not be granted".to_owned(),
                ),
            )
        },
        Err(other) => FirstLook::Refused(as_failure(other)),
    }
}

/// The members of the reply a selection answers with.
pub open spec fn selected_members(target: TargetView) -> Map<Seq<char>, Json> {
    Map::<Seq<char>, Json>::empty().insert("ok"@, Json::Bool(true)).insert(
        "target_id"@,
        Json::Text(target.id),
    ).insert("target_generation"@, Json::Unsigned(target.generation)).insert(
        "window_id"@,
        Json::Unsigned(target.window_id as u64),
    ).insert("app"@, Json::Text(target.app)).insert("title"@, Json::Text(target.title)).insert(
        "methods"@,
        Json::List(method_names(target.ax_binding).map_values(|name: Seq<char>| Json::Text(name))),
    ).insert("ax_binding"@, Json::Text(binding_name(target.ax_binding)))
}

/// The reply a selection answers with, less the observation the caller's next
/// coordinates are in.
pub fn selected_payload(target: &Target) -> (r: Value)
    ensures
        json::json_of(r) == Json::Object(selected_members(target@)),
{
    let mut out = json::object();
    json::insert(&mut out, "ok", json::boolean(true));
    json::insert(&mut out, "target_id", json::string(target.id.as_str()));
    json::insert(&mut out, "target_generation", json::unsigned(target.generation));
    json::insert(&mut out, "window_id", json::unsigned(target.window_id as u64));
    json::insert(&mut out, "app", json::string(target.app.as_str()));
    json::insert(&mut out, "title", json::string(target.title.as_str()));
    let names = methods(target.ax_binding);
    let ghost said = names@.map_values(|name: &'static str| name@);
    assert(said.len() == names@.len() && said == method_names(target.ax_binding));
    let mut listed: Vec<Value> = Vec::new();
    listed.push(json::string(names[0]));
    if names.len() > 1 {
        listed.push(json::string(names[1]));
    }
    proof {
        assert(said[0] == names@[0]@);
        if names@.len() > 1 {
            assert(said[1] == names@[1]@);
        }
        assert(json::json_list(listed@) =~= method_names(target.ax_binding).map_values(
            |name: Seq<char>| Json::Text(name),
        ));
    }
    json::insert(&mut out, "methods", json::list(listed));
    json::insert(&mut out, "ax_binding", json::string(target.ax_binding.as_str()));
    out
}

// --- using one ----------------------------------------------------------------

/// What has been read about a bound window for one request so far.
#[derive(Debug)]
pub struct LiveHeard {
    pub started_at: Option<Option<u64>>,
    pub listing: Option<Result<Vec<WindowFacts>, String>>,
    pub frame: Option<Result<WindowFrame, FrameError>>,
}

/// What a request naming a bound window needs read next.
#[derive(Clone, Copy, Debug, PartialEq, Eq, Structural)]
pub enum LiveQuestion {
    ProcessStart(i32),
    Windows,
    Frame,
}

/// How far a request naming a bound window has come.
#[derive(Debug)]
pub enum Liveness {
    Ask(LiveQuestion),
    Live(Live),
    Refused(Failure),
}

/// How far a request naming a bound window has come, as what it says.
pub enum LivenessView {
    Ask(LiveQuestion),
    Live(Live),
    Refused(FailureView),
}

impl View for Liveness {
    type V = LivenessView;

    open spec fn view(&self) -> LivenessView {
        match self {
            Liveness::Ask(question) => LivenessView::Ask(*question),
            Liveness::Live(live) => LivenessView::Live(*live),
            Liveness::Refused(failure) => LivenessView::Refused(failure@),
        }
    }
}

/// The bound window's own listing, or why nothing can be done in it.
pub open spec fn listed_target(
    target: TargetView,
    listing: Result<Vec<WindowFacts>, String>,
) -> Result<WindowFacts, FailureView> {
    match listing {
        Err(reason) => Err(server_refused(reason@)),
        Ok(listed) => match window_server::first(
            listed@,
            |window: WindowFacts| window.id == target.window_id,
        ) {
            None => Err(
                wire::failed(
                    "target_unavailable"@,
                    named_window(target.app, target.title)
                        + " is gone; take `windows` and select another"@,
                ),
            ),
            Some(window) => if window.on_screen {
                Ok(window)
            } else {
                Err(
                    wire::failed(
                        "target_minimized"@,
                        named_window(target.app, target.title)
                            + " is minimized or on another desktop, so nothing can be seen or done in it; ask the user to bring it back"@,
                    ),
                )
            },
        },
    }
}

/// Where a request naming a window stands with what has been read: whether it is
/// this helper's target at all, whether the application is still the one that was
/// bound, whether the window is still listed and on screen, and only then the frame
/// the mapping is built from.
pub open spec fn liveness(
    target: Option<TargetView>,
    named: Seq<char>,
    heard: LiveHeard,
) -> LivenessView {
    match target {
        None => LivenessView::Refused(
            wire::failed(
                "target_unavailable"@,
                named
                    + " is not a window this helper is bound to; `select_target` binds one and answers the id to use"@,
            ),
        ),
        Some(target) => if target.id != named {
            LivenessView::Refused(
                wire::failed(
                    "target_unavailable"@,
                    named + " is not the window this helper is bound to; it is bound to "@
                        + target.id
                        + ", so take `windows` and select again if you meant another one"@,
                ),
            )
        } else {
            match heard.started_at {
                None => LivenessView::Ask(LiveQuestion::ProcessStart(target.pid)),
                Some(started_at) => if started_at != Some(target.started_at) {
                    LivenessView::Refused(
                        wire::failed(
                            "target_unavailable"@,
                            "the application that owned "@ + target.app + " — "@ + target.title
                                + " — is no longer running; select a window of the one that is"@,
                        ),
                    )
                } else {
                    match heard.listing {
                        None => LivenessView::Ask(LiveQuestion::Windows),
                        Some(listing) => match listed_target(target, listing) {
                            Err(failure) => LivenessView::Refused(failure),
                            Ok(window) => match heard.frame {
                                None => LivenessView::Ask(LiveQuestion::Frame),
                                Some(Err(error)) => LivenessView::Refused(frame_failure(error@)),
                                Some(Ok(frame)) => match mapping(frame@, window.bounds) {
                                    Err(failure) => LivenessView::Refused(failure),
                                    Ok(geometry) => LivenessView::Live(
                                        Live {
                                            window_id: target.window_id,
                                            geometry,
                                            display_id: target.display_id,
                                            facts: target.facts,
                                            seq: frame.seq,
                                        },
                                    ),
                                },
                            },
                        },
                    }
                },
            }
        },
    }
}

/// What a bound target is, where there is one.
pub open spec fn target_of(target: Option<&Target>) -> Option<TargetView> {
    match target {
        Some(target) => Some(target@),
        None => None,
    }
}

fn find_target<'a>(
    target: &Target,
    listing: &'a Result<Vec<WindowFacts>, String>,
) -> (r: Result<&'a WindowFacts, Failure>)
    ensures
        match r {
            Ok(window) => listed_target(target@, *listing) == Ok::<WindowFacts, FailureView>(
                *window,
            ),
            Err(failure) => listed_target(target@, *listing) == Err::<WindowFacts, FailureView>(
                failure@,
            ),
        },
{
    let listed = match listing {
        Ok(listed) => listed,
        Err(reason) => return Err(unavailable(reason.as_str())),
    };
    let window = match window_server::find(listed.as_slice(), target.window_id) {
        Some(window) => window,
        None => {
            let mut detail = write_named(target.app.as_str(), target.title.as_str());
            detail.append(" is gone; take `windows` and select another");
            return Err(Failure::new("target_unavailable", detail));
        },
    };
    if !window.on_screen {
        let mut detail = write_named(target.app.as_str(), target.title.as_str());
        detail.append(
            " is minimized or on another desktop, so nothing can be seen or done in it; ask the user to bring it back",
        );
        return Err(Failure::new("target_minimized", detail));
    }
    Ok(window)
}

/// The bound window a request names, checked and ready to act in, or what has to be
/// read before that can be said.
pub fn live(target: Option<&Target>, named: &str, heard: &LiveHeard) -> (r: Liveness)
    ensures
        r@ == liveness(target_of(target), named@, *heard),
{
    let target = match target {
        Some(target) => target,
        None => {
            let mut detail = named.to_owned();
            detail.append(
                " is not a window this helper is bound to; `select_target` binds one and answers the id to use",
            );
            return Liveness::Refused(Failure::new("target_unavailable", detail));
        },
    };
    if !text::same(target.id.as_str(), named) {
        let mut detail = named.to_owned();
        detail.append(" is not the window this helper is bound to; it is bound to ");
        detail.append(target.id.as_str());
        detail.append(", so take `windows` and select again if you meant another one");
        return Liveness::Refused(Failure::new("target_unavailable", detail));
    }
    let started_at = match heard.started_at {
        None => return Liveness::Ask(LiveQuestion::ProcessStart(target.pid)),
        Some(started_at) => started_at,
    };
    let same_process = match started_at {
        Some(at) => at == target.started_at,
        None => false,
    };
    if !same_process {
        let mut detail = "the application that owned ".to_owned();
        detail.append(target.app.as_str());
        detail.append(" — ");
        detail.append(target.title.as_str());
        detail.append(" — is no longer running; select a window of the one that is");
        return Liveness::Refused(Failure::new("target_unavailable", detail));
    }
    let listing = match &heard.listing {
        None => return Liveness::Ask(LiveQuestion::Windows),
        Some(listing) => listing,
    };
    let window = match find_target(target, listing) {
        Ok(window) => window,
        Err(failure) => return Liveness::Refused(failure),
    };
    let frame = match &heard.frame {
        None => return Liveness::Ask(LiveQuestion::Frame),
        Some(Err(error)) => {
            return Liveness::Refused(Failure::new(error.code(), error.detail()));
        },
        Some(Ok(frame)) => frame,
    };
    match transform(frame, &window.bounds) {
        Err(failure) => Liveness::Refused(failure),
        Ok(geometry) => Liveness::Live(
            Live {
                window_id: target.window_id,
                geometry,
                display_id: target.display_id,
                facts: target.facts,
                seq: frame.seq,
            },
        ),
    }
}

/// The badge as its supervisor sees it.
#[derive(Clone, Copy, Debug, PartialEq, Eq, Structural)]
pub enum Badge {
    /// There is none.
    Missing,
    /// It has not said it is up.
    Starting,
    /// It is up and can take a press.
    Ready,
    /// It has exited.
    Gone,
}

/// Whether a mutating request may go on.
#[derive(Debug)]
pub enum Surface {
    /// The badge is up.
    Ready,
    /// The one restart this binding has: drop the old badge, start another, and
    /// answer what `restarted` says.
    Restart,
    Refused(Failure),
}

/// The refusal of a mutating request with no badge up.
pub open spec fn no_surface(target: TargetView, why: Option<Seq<char>>) -> FailureView {
    wire::failed(
        "control_surface_unavailable"@,
        "the indicator that shows the user their window is being worked in is not up, so nothing may be done inside "@
            + named_window(target.app, target.title) + (match why {
            Some(reason) => " ("@ + reason + ")"@,
            None => ""@,
        })
            + ". Tell the user computer use needs restarting, or work at the display level instead"@,
    )
}

fn surface_failure(target: &Target, why: Option<&str>) -> (r: Failure)
    ensures
        r@ == no_surface(target@, text::slice_of(why)),
{
    let mut detail =
        "the indicator that shows the user their window is being worked in is not up, so nothing may be done inside ".to_owned();
    detail.append(write_named(target.app.as_str(), target.title.as_str()).as_str());
    let reason = match why {
        Some(reason) => {
            let mut told = " (".to_owned();
            told.append(reason);
            told.append(")");
            told
        },
        None => "".to_owned(),
    };
    detail.append(reason.as_str());
    detail.append(
        ". Tell the user computer use needs restarting, or work at the display level instead",
    );
    Failure::new("control_surface_unavailable", detail)
}

/// The badge is up, or this mutating request is refused. One restart, and only for a
/// badge that is gone: restarting a starting one would be this helper racing itself.
pub fn control_surface(target: &mut Target, badge: Badge) -> (r: Surface)
    ensures
        match badge {
            Badge::Ready => r is Ready && final(target)@ == old(target)@,
            Badge::Starting => {
                &&& r is Refused && r->Refused_0@ == no_surface(old(target)@, None)
                &&& final(target)@ == old(target)@
            },
            _ => if old(target).restarts == 0 {
                &&& r is Restart
                &&& final(target)@ == (TargetView { restarts: 1, ..old(target)@ })
            } else {
                &&& r is Refused && r->Refused_0@ == no_surface(old(target)@, None)
                &&& final(target)@ == old(target)@
            },
        },
{
    match badge {
        Badge::Ready => Surface::Ready,
        Badge::Starting => Surface::Refused(surface_failure(target, None)),
        Badge::Missing | Badge::Gone => if target.restarts == 0 {
            target.restarts = 1;
            Surface::Restart
        } else {
            Surface::Refused(surface_failure(target, None))
        },
    }
}

/// The refusal of the request that restarted the badge. A badge that has only just
/// been started is not up yet; one that would not start says why.
pub fn restarted(target: &Target, started: Result<(), String>) -> (r: Failure)
    ensures
        r@ == no_surface(
            target@,
            match started {
                Ok(_) => None,
                Err(reason) => Some(reason@),
            },
        ),
{
    match started {
        Ok(_) => surface_failure(target, None),
        Err(reason) => surface_failure(target, Some(reason.as_str())),
    }
}

/// What stands between a pixel action and the target at a point.
pub open spec fn in_the_way(
    listing: Result<Vec<WindowFacts>, String>,
    window_id: u32,
    x: i64,
    y: i64,
) -> Result<(), FailureView> {
    match listing {
        Err(reason) => Err(server_refused(reason@)),
        Ok(listed) => match window_server::obstruction(
            listed@,
            window_id,
            Probe::Point { x, y },
        ) {
            Err(_) => Err(
                wire::failed(
                    "target_unavailable"@,
                    "the window is no longer one the window server lists, so nothing can be clicked in it; take `windows` and select another"@,
                ),
            ),
            Ok(None) => Ok(()),
            Ok(Some(covering)) => Err(
                wire::failed(
                    "target_obstructed"@,
                    named_window(covering.app@, covering.title@)
                        + " is in front of the target window at that point, so a click there would reach it instead. Act on a control by name, aim somewhere the target is not covered, or ask the user to move it"@,
                ),
            ),
        },
    }
}

/// A pixel action needs the target to be topmost at the logical point it is aiming
/// at. Nothing raises the window and nothing activates it.
pub fn unobstructed(
    live: &Live,
    listing: &Result<Vec<WindowFacts>, String>,
    lx: i32,
    ly: i32,
) -> (r: Result<(), Failure>)
    ensures
        told(r) == in_the_way(
            *listing,
            live.window_id,
            (lx * measure::UNIT) as i64,
            (ly * measure::UNIT) as i64,
        ),
{
    let listed = match listing {
        Ok(listed) => listed,
        Err(reason) => return Err(unavailable(reason.as_str())),
    };
    let x: i64 = lx as i64 * measure::UNIT;
    let y: i64 = ly as i64 * measure::UNIT;
    match window_server::obstruction_at(listed.as_slice(), live.window_id, x, y) {
        Err(_) => Err(
            Failure::new(
                "target_unavailable",
                "the window is no longer one the window server lists, so nothing can be clicked in it; take `windows` and select another".to_owned(),
            ),
        ),
        Ok(None) => Ok(()),
        Ok(Some(covering)) => {
            let mut detail = write_named(covering.app.as_str(), covering.title.as_str());
            detail.append(
                " is in front of the target window at that point, so a click there would reach it instead. Act on a control by name, aim somewhere the target is not covered, or ask the user to move it",
            );
            Err(Failure::new("target_obstructed", detail))
        },
    }
}

/// A window as a reply lists it.
pub open spec fn child_json(window: WindowFacts) -> Json {
    Json::Object(
        Map::<Seq<char>, Json>::empty().insert(
            "window_id"@,
            Json::Unsigned(window.id as u64),
        ).insert("app"@, Json::Text(window.app@)).insert("title"@, Json::Text(window.title@)),
    )
}

/// The windows a reply lists as the target's children.
pub open spec fn child_list(target: TargetView, listed: Seq<WindowFacts>) -> Seq<Json> {
    listed.filter(
        |window: WindowFacts|
            window_server::is_child(window, target.pid, target.window_id, target.siblings),
    ).map_values(|window: WindowFacts| child_json(window))
}

/// The same application's windows that appeared since this target was bound. A window
/// server that will not answer is not an empty list of children.
pub fn children(target: &Target, listing: &Result<Vec<WindowFacts>, String>) -> (r: Result<
    Vec<Value>,
    Failure,
>)
    ensures
        match listing {
            Err(reason) => r is Err && r->Err_0@ == server_refused(reason@),
            Ok(listed) => r is Ok && json::json_list(r->Ok_0@) == child_list(target@, listed@),
        },
{
    let listed = match listing {
        Ok(listed) => listed,
        Err(reason) => return Err(unavailable(reason.as_str())),
    };
    let found = window_server::children_of(
        listed.as_slice(),
        target.pid,
        target.window_id,
        target.siblings.as_slice(),
    );
    let ghost windows = found@.map_values(|window: &WindowFacts| *window);
    let mut out: Vec<Value> = Vec::new();
    let mut i: usize = 0;
    while i < found.len()
        invariant
            i <= found@.len(),
            windows == found@.map_values(|window: &WindowFacts| *window),
            out@.len() == i,
            forall|j: int| 0 <= j < i ==> json::json_of(#[trigger] out@[j]) == child_json(windows[j]),
        decreases found@.len() - i,
    {
        let window = found[i];
        assert(windows[i as int] == *window);
        let mut child = json::object();
        json::insert(&mut child, "window_id", json::unsigned(window.id as u64));
        json::insert(&mut child, "app", json::string(window.app.as_str()));
        json::insert(&mut child, "title", json::string(window.title.as_str()));
        out.push(child);
        i += 1;
    }
    assert(json::json_list(out@) =~= windows.map_values(|window: WindowFacts| child_json(window)));
    Ok(out)
}

/// Is the window the person is working in the target's? Nothing where the window
/// server will not answer or no ordinary window is on screen.
pub fn front_is_target(target: &Target, listing: &Result<Vec<WindowFacts>, String>) -> (r: Option<
    bool,
>)
    ensures
        r == (match listing {
            Err(_) => None,
            Ok(listed) => match window_server::first(
                listed@,
                |window: WindowFacts| window.on_screen && window.layer == 0,
            ) {
                None => None,
                Some(front) => Some(front.id == target.window_id),
            },
        }),
{
    match listing {
        Err(_) => None,
        Ok(listed) => match window_server::front_window(listed.as_slice()) {
            None => None,
            Some(front) => Some(front.id == target.window_id),
        },
    }
}

/// The accessibility window a listing of controls walks from. Without one there is
/// nothing to walk from, and walking the whole application would answer controls of
/// windows the caller did not name.
pub fn ax_root(target: &Target) -> (r: Result<u64, Failure>)
    ensures
        told(r) == (match target.ax_window {
            Some(handle) => Ok(handle),
            None => Err(
                wire::failed(
                    "ax_binding_unavailable"@,
                    "no accessibility window of "@ + target.app@
                        + " could be matched to this one ("@ + binding_name(target.ax_binding)
                        + "), so its controls cannot be listed by name; work in the image instead"@,
                ),
            ),
        }),
{
    match target.ax_window {
        Some(handle) => Ok(handle),
        None => {
            let mut detail = "no accessibility window of ".to_owned();
            detail.append(target.app.as_str());
            detail.append(" could be matched to this one (");
            detail.append(target.ax_binding.as_str());
            detail.append(
                "), so its controls cannot be listed by name; work in the image instead",
            );
            Err(Failure::new("ax_binding_unavailable", detail))
        },
    }
}

/// Does this action have to be refused when the badge is not up? Mutating ones only:
/// refusing a look would leave a caller unable to see why it was refused.
pub fn needs_control_surface(action: &str) -> (r: bool)
    ensures
        r == wire::input_action(action@),
{
    wire::touches_input(action)
}

// --- laws ---------------------------------------------------------------------

/// A window that has not moved is never called stale: the image a request read of a
/// window still describes it while the window stays where it was.
pub proof fn a_window_that_stayed_is_unmoved(observation: ObservationView, live: Live)
    requires
        observation.geometry == live.geometry,
        observation.display_id == live.display_id,
    ensures
        still_there(observation, live),
{
}

/// A window that moved or resized by more than half a point is stale, whichever way
/// it went.
pub proof fn a_window_that_moved_is_stale(
    frame: WindowFrameView,
    was: Bounds,
    now: Bounds,
    observation: ObservationView,
    live: Live,
)
    requires
        mapping(frame, was) == Ok::<Geometry, FailureView>(observation.geometry),
        mapping(frame, now) == Ok::<Geometry, FailureView>(live.geometry),
        !was.near(now, GEOMETRY_TOLERANCE as int),
    ensures
        !still_there(observation, live),
{
}

/// Two readings of one window within the tolerance are of a window that stayed: the frame
/// it was measured from is of one size, and what its bounds are read as plays no part.
pub proof fn a_window_within_the_tolerance_is_unmoved(
    one: WindowFrameView,
    other: WindowFrameView,
    was: Bounds,
    now: Bounds,
    observation: ObservationView,
    live: Live,
)
    requires
        one.width == other.width && one.height == other.height,
        mapping(one, was) == Ok::<Geometry, FailureView>(observation.geometry),
        mapping(other, now) == Ok::<Geometry, FailureView>(live.geometry),
        was.near(now, GEOMETRY_TOLERANCE as int),
        observation.display_id == live.display_id,
    ensures
        still_there(observation, live),
{
}

/// A window that is rendered at another scale, onto another surface, or that is on
/// another display, is stale wherever it is.
pub proof fn another_scale_is_stale(observation: ObservationView, live: Live)
    requires
        !same_scale(observation.geometry, live.geometry) || observation.display_id
            != live.display_id,
    ensures
        !still_there(observation, live),
{
}

/// The physical size of a mapping is the frame's own, and its place and logical size
/// are the window server's.
pub proof fn a_mapping_takes_each_fact_from_its_owner(frame: WindowFrameView, bounds: Bounds)
    ensures
        mapping(frame, bounds) matches Ok(geometry) ==> {
            &&& geometry.phys_w == frame.width && geometry.phys_h == frame.height
            &&& geometry.origin_x == bounds.x && geometry.origin_y == bounds.y
            &&& geometry.logical_w == bounds.w && geometry.logical_h == bounds.h
        },
{
}

/// What the frame claims its scale is never reaches a mapping.
pub proof fn a_reported_scale_is_never_trusted(
    frame: WindowFrameView,
    claimed: Option<i64>,
    bounds: Bounds,
)
    ensures
        mapping(frame, bounds) is Ok <==> mapping(
            WindowFrameView { reported_scale: claimed, ..frame },
            bounds,
        ) is Ok,
        mapping(frame, bounds) matches Ok(geometry) ==> mapping(
            WindowFrameView { reported_scale: claimed, ..frame },
            bounds,
        ) == Ok::<Geometry, FailureView>(geometry),
{
    let other = WindowFrameView { reported_scale: claimed, ..frame };
    assert(has_area(frame, bounds) == has_area(other, bounds));
    assert(scales_agree(frame, bounds) == scales_agree(other, bounds));
    if let Some(content) = frame.content_rect {
        assert(fills(frame, bounds, content) == fills(other, bounds, content));
    }
}

/// A target answers only to its own id, only while the process that owned it is the
/// one that was bound, and only while its window is on screen: a reused pid or a
/// reused window number never revives one.
pub proof fn a_live_target_is_the_one_that_was_bound(
    target: Option<TargetView>,
    named: Seq<char>,
    heard: LiveHeard,
)
    ensures
        liveness(target, named, heard) matches LivenessView::Live(live) ==> {
            &&& target matches Some(bound) && {
                &&& bound.id == named
                &&& heard.started_at == Some(Some(bound.started_at))
                &&& live.window_id == bound.window_id
                &&& live.display_id == bound.display_id
                &&& heard.listing matches Some(Ok(listed)) && window_server::first(
                    listed@,
                    |window: WindowFacts| window.id == bound.window_id,
                ) matches Some(window) && window.on_screen && window.bounds.x
                    == live.geometry.origin_x && window.bounds.y == live.geometry.origin_y
            }
        },
{
}

/// A window is bound only with a badge up, a stream open and a first frame that
/// describes it; with any of them refused the selection is refused.
pub proof fn nothing_is_bound_unseen(selecting: Selecting, heard: Heard)
    ensures
        selection(selecting, heard) matches SelectionView::Bound(target, geometry) ==> {
            &&& heard.indicator matches Some(Ok(_))
            &&& heard.stream matches Some(Ok(_))
            &&& heard.first matches Some(Ok(first)) && geometry.phys_w == first.width
            &&& heard.started_at == Some(Some(target.started_at))
            &&& target.ax_binding == AxBinding::Bound <==> target.ax_window is Some
        },
{
}

/// The badge comes before the accessibility window: no accessibility window is asked
/// for before the badge is up, and where the badge is refused, what the application
/// would have answered makes no difference.
pub proof fn the_badge_comes_before_the_controls(
    selecting: Selecting,
    heard: Heard,
    accessibility: Option<Vec<AxWindow>>,
)
    ensures
        selection(selecting, heard) matches SelectionView::Ask(Question::AccessibilityWindows(_))
            ==> heard.indicator matches Some(Ok(_)),
        heard.indicator matches Some(Err(_)) ==> selection(
            selecting,
            Heard { accessibility, ..heard },
        ) == selection(selecting, heard),
{
}

/// A window server that will not answer never reads as nothing in the way, and
/// neither does a target it does not list.
pub proof fn silence_is_never_clear(
    listing: Result<Vec<WindowFacts>, String>,
    window_id: u32,
    x: i64,
    y: i64,
)
    ensures
        in_the_way(listing, window_id, x, y) is Ok ==> {
            &&& listing matches Ok(listed) && window_server::shown(listed@, window_id)
        },
{
}

/// A mapping is made exactly where the window and its frame have an area, the scale across
/// gives the frame's height to within a pixel, and the content, where the frame says where
/// it is, lies within two pixels of every edge of the surface.
pub proof fn a_mapping_is_made_of_one_scale(frame: WindowFrameView, bounds: Bounds)
    ensures
        mapping(frame, bounds) is Ok <==> {
            &&& bounds.w > 0 && bounds.h > 0 && frame.width > 0 && frame.height > 0
            &&& -bounds.w <= bounds.h * frame.width - bounds.w * frame.height <= bounds.w
            &&& frame.content_rect matches Some(content) ==> {
                &&& -2 * bounds.w <= content.x * frame.width <= 2 * bounds.w
                &&& -2 * bounds.h <= content.y * frame.height <= 2 * bounds.h
                &&& -2 * bounds.w <= bounds.w * frame.width - content.w * frame.width <= 2
                    * bounds.w
                &&& -2 * bounds.h <= bounds.h * frame.height - content.h * frame.height <= 2
                    * bounds.h
            }
        },
        mapping(frame, bounds) matches Err(failure) ==> failure.code
            == "capture_geometry_mismatch"@,
{
    if let Some(content) = frame.content_rect {
        assert(content.x * frame.width - 0 == content.x * frame.width);
    }
}

/// The scale of a mapping is the millionths of a pixel to the point nearest to the frame's
/// width over the window's.
pub proof fn a_scale_is_what_was_measured(frame: WindowFrameView, bounds: Bounds)
    ensures
        mapping(frame, bounds) matches Ok(geometry) ==> {
            &&& geometry.scale_factor < i64::MAX ==> -bounds.w <= 2 * (geometry.scale_factor
                * bounds.w - frame.width * 1_000_000_000_000) <= bounds.w
            &&& geometry.scale_factor == i64::MAX ==> 2 * (i64::MAX * bounds.w - frame.width
                * 1_000_000_000_000) <= bounds.w
        },
{
    if mapping(frame, bounds) is Ok {
        let w = bounds.w as int;
        let wide = frame.width * 1_000_000_000_000 + w / 2;
        vstd::arithmetic::div_mod::lemma_fundamental_div_mod(wide, w);
        vstd::arithmetic::div_mod::lemma_mod_bound(wide, w);
        let scale = wide / w;
        let rest = wide % w;
        assert(scale * w == wide - rest) by (nonlinear_arith)
            requires
                wide == w * scale + rest,
        ;
        assert(scale >= 0) by (nonlinear_arith)
            requires
                scale * w == wide - rest,
                wide >= 0,
                rest < w,
                w > 0,
        ;
        if scale > i64::MAX {
            assert(i64::MAX * w <= scale * w) by (nonlinear_arith)
                requires
                    scale > i64::MAX,
                    w > 0,
            ;
        }
    }
}

/// A window is where it was exactly where no side of it is half a point further than it
/// was, its scale or its surface is the one it had, and it is on the same display.
pub proof fn a_window_is_where_it_was(observation: ObservationView, live: Live)
    ensures
        ({
            let was = observation.geometry;
            let now = live.geometry;
            still_there(observation, live) <==> {
                &&& -500_000 <= was.origin_x - now.origin_x <= 500_000
                &&& -500_000 <= was.origin_y - now.origin_y <= 500_000
                &&& -500_000 <= was.logical_w - now.logical_w <= 500_000
                &&& -500_000 <= was.logical_h - now.logical_h <= 500_000
                &&& was.scale_factor == now.scale_factor || (was.phys_w == now.phys_w && was.phys_h
                    == now.phys_h)
                &&& observation.display_id == live.display_id
            }
        }),
{
}

/// A surface side is the fewest whole pixels that cover the window's side, and never none.
pub proof fn a_surface_covers_its_window(points: i64, scale: i64)
    requires
        scale > 0,
    ensures
        1 <= pixels_for(points, scale),
        pixels_for(points, scale) < u32::MAX ==> points * scale <= pixels_for(points, scale)
            * 1_000_000_000_000,
        pixels_for(points, scale) > 1 ==> (pixels_for(points, scale) - 1) * 1_000_000_000_000
            < points * scale,
{
}

/// A stream is asked for at the window's own number and size: across for its width, and
/// down for its height.
pub proof fn a_surface_is_the_windows_own(window: WindowFacts, window_id: u32, facts: MonitorFacts)
    ensures
        surface_of(window, window_id, facts).id == window_id,
        surface_of(window, window_id, facts).width == pixels_for(
            window.bounds.w,
            facts.scale_factor,
        ),
        surface_of(window, window_id, facts).height == pixels_for(
            window.bounds.h,
            facts.scale_factor,
        ),
{
}

/// An accessibility window is a window of the window server's exactly where its label is
/// that window's title, no label being an empty one, and it lies within two points of it
/// on every side.
pub proof fn an_accessibility_window_is_told_by_title_and_place(
    candidate: AxWindow,
    window: WindowFacts,
)
    ensures
        is_window(candidate, window) <==> {
            &&& match candidate.label {
                Some(label) => label@ == window.title@,
                None => window.title@.len() == 0,
            }
            &&& candidate.frame matches Some(frame) && {
                &&& -2_000_000 <= frame.x - window.bounds.x <= 2_000_000
                &&& -2_000_000 <= frame.y - window.bounds.y <= 2_000_000
                &&& -2_000_000 <= frame.w - window.bounds.w <= 2_000_000
                &&& -2_000_000 <= frame.h - window.bounds.h <= 2_000_000
            }
        },
{
    reveal_strlit("");
    if window.title@.len() == 0 {
        assert(""@ =~= window.title@);
    }
}

proof fn matching_is_counted(
    candidates: Seq<AxWindow>,
    test: spec_fn(AxWindow) -> bool,
    i: int,
    j: int,
)
    requires
        0 <= i < j < candidates.len(),
        test(candidates[i]),
        test(candidates[j]),
    ensures
        candidates.filter(test).len() >= 2,
{
    let before = candidates.take(j);
    let rest = candidates.skip(j);
    assert(candidates =~= before + rest);
    Seq::filter_distributes_over_add(before, rest, test);
    before.lemma_filter_contains(test, i);
    rest.lemma_filter_contains(test, 0);
    assert(before.filter(test).len() > 0);
    assert(rest.filter(test).len() > 0);
}

/// An accessibility window is bound only where it alone is this window: where none is,
/// none is, and where two are, neither is.
pub proof fn only_the_one_window_is_bound(
    candidates: Seq<AxWindow>,
    window: WindowFacts,
    i: int,
    j: int,
)
    ensures
        accessibility_of(candidates, window) == (AxBinding::Unavailable, None::<u64>) <==> forall|
            k: int,
        |
            0 <= k < candidates.len() ==> !is_window(#[trigger] candidates[k], window),
        0 <= i < j < candidates.len() && is_window(candidates[i], window) && is_window(
            candidates[j],
            window,
        ) ==> accessibility_of(candidates, window) == (AxBinding::Ambiguous, None::<u64>),
        0 <= i < candidates.len() && is_window(candidates[i], window) && (forall|k: int|
            0 <= k < candidates.len() && k != i ==> !is_window(#[trigger] candidates[k], window))
            ==> accessibility_of(candidates, window) == (
            AxBinding::Bound,
            Some(candidates[i].handle),
        ),
{
    let test = |candidate: AxWindow| is_window(candidate, window);
    let matching = candidates.filter(test);
    if 0 <= i < j < candidates.len() && is_window(candidates[i], window) && is_window(
        candidates[j],
        window,
    ) {
        matching_is_counted(candidates, test, i, j);
    }
    if forall|k: int| 0 <= k < candidates.len() ==> !is_window(#[trigger] candidates[k], window) {
        candidates.lemma_all_neg_filter_empty(test);
    } else {
        let k = choose|k: int|
            0 <= k < candidates.len() && is_window(#[trigger] candidates[k], window);
        candidates.lemma_filter_contains(test, k);
        assert(matching.contains(candidates[k]));
    }
    if 0 <= i < candidates.len() && is_window(candidates[i], window) && (forall|k: int|
        0 <= k < candidates.len() && k != i ==> !is_window(#[trigger] candidates[k], window)) {
        let before = candidates.take(i);
        let after = candidates.skip(i + 1);
        assert(candidates =~= before + seq![candidates[i]] + after);
        Seq::filter_distributes_over_add(before + seq![candidates[i]], after, test);
        Seq::filter_distributes_over_add(before, seq![candidates[i]], test);
        assert forall|k: int| 0 <= k < before.len() implies !test(#[trigger] before[k]) by {
            assert(before[k] == candidates[k]);
        }
        before.lemma_all_neg_filter_empty(test);
        assert forall|k: int| 0 <= k < after.len() implies !test(#[trigger] after[k]) by {
            assert(after[k] == candidates[k + i + 1]);
        }
        after.lemma_all_neg_filter_empty(test);
        reveal_with_fuel(Seq::filter, 2);
        assert(seq![candidates[i]].drop_last() =~= Seq::empty());
        assert(seq![candidates[i]].filter(test) =~= seq![candidates[i]]);
        assert(matching =~= seq![candidates[i]]);
    }
}

/// The window that is bound is the one that was asked for, and it is on screen; one that
/// is not listed and one that is not on screen are refused, each by its own code.
pub proof fn the_window_asked_for_is_chosen(
    listing: Result<Vec<WindowFacts>, String>,
    window_id: u32,
)
    ensures
        match chosen(listing, window_id) {
            Ok(window) => {
                &&& window.id == window_id
                &&& window.on_screen
                &&& listing matches Ok(listed) && listed@.contains(window)
            },
            Err(failure) => {
                ||| failure.code == "target_unavailable"@ && (listing matches Ok(listed)
                    ==> forall|i: int|
                    0 <= i < listed@.len() ==> (#[trigger] listed@[i]).id != window_id)
                ||| failure.code == "target_minimized"@ && (listing matches Ok(listed) && exists|
                    i: int,
                |
                    0 <= i < listed@.len() && (#[trigger] listed@[i]).id == window_id
                        && !listed@[i].on_screen)
            },
        },
{
    if let Ok(listed) = listing {
        let test = |window: WindowFacts| window.id == window_id;
        window_server::the_first_is_one_of_them(listed@, test);
        if let Some(window) = window_server::first(listed@, test) {
            let i = choose|i: int| 0 <= i < listed@.len() && listed@[i] == window;
            assert(listed@[i].id == window_id);
        } else {
            assert forall|i: int| 0 <= i < listed@.len() implies (#[trigger] listed@[i]).id
                != window_id by {
                assert(!test(listed@[i]));
            }
        }
    }
}

/// A binding holds what the window server and the application said of the window that was
/// chosen, under the names it was asked for with.
pub proof fn a_binding_is_of_the_window_chosen(selecting: Selecting, heard: Heard)
    ensures
        selection(selecting, heard) matches SelectionView::Bound(target, geometry) ==> {
            &&& target.id == selecting.id@
            &&& target.generation == selecting.generation
            &&& target.window_id == selecting.window_id
            &&& target.display_id == selecting.display_id
            &&& target.facts == selecting.facts
            &&& target.restarts == 0
            &&& heard.listing matches Some(listing) && chosen(listing, selecting.window_id) matches Ok(
                window,
            ) && {
                &&& target.pid == window.pid
                &&& target.app == window.app@
                &&& target.title == window.title@
                &&& geometry.origin_x == window.bounds.x && geometry.origin_y == window.bounds.y
                &&& geometry.logical_w == window.bounds.w && geometry.logical_h == window.bounds.h
            }
        },
{
}

/// The windows that were open when a target was selected are those of its application that
/// were on screen.
pub proof fn the_siblings_are_the_applications_windows(
    selecting: Selecting,
    window: WindowFacts,
    listed: Seq<WindowFacts>,
    started_at: u64,
    accessibility: (AxBinding, Option<u64>),
    i: int,
)
    requires
        0 <= i < listed.len(),
        listed[i].on_screen,
        listed[i].pid == window.pid,
    ensures
        bound_target(selecting, window, listed, started_at, accessibility).siblings.contains(
            listed[i].id,
        ),
{
    let test = |other: WindowFacts| other.on_screen && other.pid == window.pid;
    listed.lemma_filter_contains(test, i);
    let kept = listed.filter(test);
    let k = choose|k: int| 0 <= k < kept.len() && kept[k] == listed[i];
    let ids = kept.map_values(|other: WindowFacts| other.id);
    assert(ids[k] == listed[i].id);
}

/// A target that is bound, runs as it did, is listed and on screen, and has a frame that
/// describes it, is live: at the window's place now, and at that frame.
pub proof fn a_target_that_is_there_is_live(
    target: TargetView,
    heard: LiveHeard,
    window: WindowFacts,
    frame: WindowFrame,
    geometry: Geometry,
)
    requires
        heard.started_at == Some(Some(target.started_at)),
        heard.listing matches Some(listing) && listed_target(target, listing) == Ok::<
            WindowFacts,
            FailureView,
        >(window),
        heard.frame == Some(Ok::<WindowFrame, FrameError>(frame)),
        mapping(frame@, window.bounds) == Ok::<Geometry, FailureView>(geometry),
    ensures
        liveness(Some(target), target.id, heard) == LivenessView::Live(
            (Live {
                window_id: target.window_id,
                geometry,
                display_id: target.display_id,
                facts: target.facts,
                seq: frame.seq,
            }),
        ),
{
}

/// The bound window is found in a listing by its own number, and only on screen.
pub proof fn the_bound_window_is_found_by_its_number(
    target: TargetView,
    listing: Result<Vec<WindowFacts>, String>,
)
    ensures
        listed_target(target, listing) matches Ok(window) ==> {
            &&& window.id == target.window_id
            &&& window.on_screen
            &&& listing matches Ok(listed) && listed@.contains(window)
        },
{
    if let Ok(listed) = listing {
        window_server::the_first_is_one_of_them(
            listed@,
            |window: WindowFacts| window.id == target.window_id,
        );
    }
}

/// A point is free exactly where the window server answered, lists the target on screen,
/// and has no window in front of it there; what is in front is an obstruction, and a
/// target that is not listed is unavailable.
pub proof fn a_point_is_free_where_nothing_is_in_front(
    listing: Result<Vec<WindowFacts>, String>,
    window_id: u32,
    x: i64,
    y: i64,
)
    ensures
        match in_the_way(listing, window_id, x, y) {
            Ok(()) => listing matches Ok(listed) && window_server::obstruction(
                listed@,
                window_id,
                (Probe::Point { x, y }),
            ) == Ok::<Option<WindowFacts>, window_server::TargetMissing>(None),
            Err(failure) => {
                ||| failure.code == "target_obstructed"@ && (listing matches Ok(listed)
                    && window_server::obstruction(
                    listed@,
                    window_id,
                    (Probe::Point { x, y }),
                ) matches Ok(Some(_)))
                ||| failure.code == "target_unavailable"@ && (listing matches Ok(listed)
                    ==> !window_server::shown(listed@, window_id))
            },
        },
{
}

/// A binding offers its accessibility window only where it has one, and always the pointer;
/// each binding has a name of its own.
pub proof fn a_binding_offers_what_it_has(binding: AxBinding)
    ensures
        method_names(binding).contains("foreground_hid"@),
        method_names(binding).contains("ax"@) <==> binding == AxBinding::Bound,
        binding_name(AxBinding::Bound) == "bound"@,
        binding_name(AxBinding::Ambiguous) == "ambiguous"@,
        binding_name(AxBinding::Unavailable) == "unavailable"@,
{
    reveal_strlit("foreground_hid");
    reveal_strlit("ax");
    assert("foreground_hid"@.len() == 14);
    assert("ax"@.len() == 2);
    assert(method_names(binding)[0] == "foreground_hid"@);
    if binding == AxBinding::Bound {
        assert(method_names(binding)[1] == "ax"@);
    }
}

/// The reply of a selection says what was bound.
pub proof fn a_selection_reads_back(target: TargetView)
    ensures
        ({
            let reply = Json::Object(selected_members(target));
            &&& json::field_bool(reply, "ok"@) == Some(true)
            &&& json::field_text(reply, "target_id"@) == Some(target.id)
            &&& json::field_u64(reply, "target_generation"@) == Some(target.generation)
            &&& json::field_u64(reply, "window_id"@) == Some(target.window_id as u64)
            &&& json::field_text(reply, "app"@) == Some(target.app)
            &&& json::field_text(reply, "title"@) == Some(target.title)
            &&& json::field_text(reply, "ax_binding"@) == Some(binding_name(target.ax_binding))
            &&& json::field(reply, "methods"@) matches Some(Json::List(methods)) && methods.len()
                == method_names(target.ax_binding).len()
        }),
{
    reveal_strlit("ok");
    reveal_strlit("target_id");
    reveal_strlit("target_generation");
    reveal_strlit("window_id");
    reveal_strlit("app");
    reveal_strlit("title");
    reveal_strlit("methods");
    reveal_strlit("ax_binding");
    assert("ok"@.len() == 2);
    assert("target_id"@.len() == 9 && "target_id"@[0] == 't');
    assert("target_generation"@.len() == 17);
    assert("window_id"@.len() == 9 && "window_id"@[0] == 'w');
    assert("app"@.len() == 3);
    assert("title"@.len() == 5);
    assert("methods"@.len() == 7);
    assert("ax_binding"@.len() == 10);
}

/// A child on the wire is the window it is.
pub proof fn a_child_reads_back(window: WindowFacts)
    ensures
        json::field_u64(child_json(window), "window_id"@) == Some(window.id as u64),
        json::field_text(child_json(window), "app"@) == Some(window.app@),
        json::field_text(child_json(window), "title"@) == Some(window.title@),
{
    reveal_strlit("window_id");
    reveal_strlit("app");
    reveal_strlit("title");
    assert("window_id"@.len() == 9);
    assert("app"@.len() == 3);
    assert("title"@.len() == 5);
}

/// A frame that was refused is reported by its own code and sentence, a window server that
/// would not answer as a target that cannot be had, and a missing badge by that.
pub proof fn refusals_carry_their_codes(
    error: FrameErrorView,
    reason: Seq<char>,
    target: TargetView,
    why: Option<Seq<char>>,
)
    ensures
        frame_failure(error).code == window_frames::frame_error_code(error),
        frame_failure(error).detail == Some(window_frames::frame_error_detail(error)),
        server_refused(reason).code == "target_unavailable"@,
        server_refused(reason).detail matches Some(said) && text::holds(said, reason),
        no_surface(target, why).code == "control_surface_unavailable"@,
        no_surface(target, why).detail matches Some(said) && text::holds(
            said,
            named_window(target.app, target.title),
        ),
        no_start_time().code == "target_unavailable"@,
        no_first_frame().code == "capture_unavailable"@,
{
    let server = "the window server would not say what windows exist: "@;
    let empty = Seq::<char>::empty();
    text::a_text_holds_its_parts(server, reason, empty);
    assert(server + reason =~= server + reason + empty);
    let before =
        "the indicator that shows the user their window is being worked in is not up, so nothing may be done inside "@;
    let named = named_window(target.app, target.title);
    let reasoned = match why {
        Some(reason) => " ("@ + reason + ")"@,
        None => ""@,
    };
    let after =
        ". Tell the user computer use needs restarting, or work at the display level instead"@;
    text::a_text_holds_its_parts(before, named, reasoned + after);
    assert(before + named + reasoned + after =~= before + named + (reasoned + after));
}

/// A window is named by its application and then by its title.
pub proof fn a_window_is_named_by_its_application_first(app: Seq<char>, title: Seq<char>)
    ensures
        named_window(app, title).take(app.len() as int) == app,
        named_window(app, title).skip(named_window(app, title).len() - title.len()) == title,
{
    assert(named_window(app, title).take(app.len() as int) =~= app);
    assert(named_window(app, title).skip(named_window(app, title).len() - title.len()) =~= title);
}

/// Every child of a target that is listed is in the reply, as itself, and nothing else is.
pub proof fn every_child_is_listed(target: TargetView, listed: Seq<WindowFacts>, i: int)
    ensures
        0 <= i < listed.len() && listed[i].on_screen && listed[i].pid == target.pid && listed[i].id
            != target.window_id && !target.siblings.contains(listed[i].id) ==> child_list(
            target,
            listed,
        ).contains(child_json(listed[i])),
        0 <= i < child_list(target, listed).len() ==> exists|k: int|
            0 <= k < listed.len() && window_server::is_child(
                #[trigger] listed[k],
                target.pid,
                target.window_id,
                target.siblings,
            ) && child_list(target, listed)[i] == child_json(listed[k]),
{
    let test = |window: WindowFacts|
        window_server::is_child(window, target.pid, target.window_id, target.siblings);
    let kept = listed.filter(test);
    let told = child_list(target, listed);
    if 0 <= i < listed.len() && test(listed[i]) {
        listed.lemma_filter_contains(test, i);
        let k = choose|k: int| 0 <= k < kept.len() && kept[k] == listed[i];
        assert(told[k] == child_json(listed[i]));
    }
    if 0 <= i < told.len() {
        listed.lemma_filter_pred(test, i);
        assert(kept.contains(kept[i]));
        listed.lemma_filter_contains_rev(test, kept[i]);
        let k = choose|k: int| 0 <= k < listed.len() && listed[k] == kept[i];
        assert(test(listed[k]));
        assert(told[i] == child_json(listed[k]));
    }
}

/// A quotient to four places is the ten-thousandths nearest to it, and a length to one place
/// the tenth nearest.
pub proof fn written_numbers_are_the_nearest(a: int, b: int, length: int)
    requires
        0 <= a,
        0 < b,
    ensures
        exists|q: int|
            {
                &&& 0 <= q
                &&& written4(a, b) == text::decimal((q / 10_000) as nat) + "."@
                    + #[trigger] measure::padded((q % 10_000) as nat, 4)
                &&& -b <= 2 * (q * b - a * 10_000) <= b
            },
        exists|q: int|
            {
                &&& 0 <= q
                &&& #[trigger] text::decimal((q % 10) as nat).len() > 0
                &&& written1(length) == (if length < 0 {
                    "-"@
                } else {
                    ""@
                }) + text::decimal((q / 10) as nat) + "."@ + text::decimal((q % 10) as nat)
                &&& length >= 0 ==> -100_000 <= 2 * (q * 100_000 - length) <= 100_000
                &&& length < 0 ==> -100_000 <= 2 * (q * 100_000 + length) <= 100_000
            },
{
    let wide = a * 10_000 + b / 2;
    vstd::arithmetic::div_mod::lemma_fundamental_div_mod(wide, b);
    vstd::arithmetic::div_mod::lemma_mod_bound(wide, b);
    let q = wide / b;
    let rest = wide % b;
    assert(q * b == wide - rest) by (nonlinear_arith)
        requires
            wide == b * q + rest,
    ;
    vstd::arithmetic::div_mod::lemma_div_pos_is_pos(wide, b);
    assert(written4(a, b) == text::decimal((q / 10_000) as nat) + "."@ + measure::padded(
        (q % 10_000) as nat,
        4,
    ));
    let size = if length < 0 {
        -length
    } else {
        length
    };
    let tenths = (size + 50_000) / 100_000;
    text::a_decimal_reads_back((tenths % 10) as nat);
    assert(text::decimal((tenths % 10) as nat).len() > 0);
}

} // verus!
