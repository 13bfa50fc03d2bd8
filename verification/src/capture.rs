//! Pictures of a display: which display, which rectangle of it, what is drawn on it,
//! and the reply that carries it.

use serde_json::Value;
use vstd::prelude::*;

use crate::elements::{self, Elements, ElementsView, Viewed};
use crate::encoding;
use crate::geometry::{CropRect, Geometry, MonitorFacts, Region};
use crate::json::{self, Json};
use crate::listing::{self, MarksInfo};
use crate::measure;
use crate::observation::{
    self, Kind, Observation, ObservationView, Observations, ObservationsView, Refusal, ViewHash,
};
use crate::overlay::{self, Paint};
use crate::picture::{self, Picture, PictureView};
use crate::target;
use crate::text;
use crate::view;
use crate::wire::{self, Failure, FailureView};

verus! {

/// A display, as the system describes it.
#[derive(Clone, Copy, Debug, PartialEq, Eq, Structural)]
pub struct Display {
    pub facts: MonitorFacts,
    pub id: u32,
}

/// The display a request asks for.
pub fn display_index(req: &Value) -> (r: u64)
    ensures
        r == (match json::field_u64(json::json_of(*req), "display"@) {
            Some(index) => index,
            None => 0,
        }),
{
    match json::u64_at(req, "display") {
        Some(index) => index,
        None => 0,
    }
}

/// Picks the requested monitor, and tells apart that no display can be captured at
/// all from an index no display has.
pub fn select_monitor<T>(monitors: Vec<T>, index: usize) -> (r: Result<T, String>)
    ensures
        match r {
            Ok(monitor) => index < monitors@.len() && monitor == monitors@[index as int],
            Err(said) => index >= monitors@.len() && said@ == (if monitors@.len() == 0 {
                "no_active_display"@
            } else {
                "display "@ + text::decimal(index as nat) + " not found"@
            }),
        },
{
    let mut monitors = monitors;
    if monitors.len() == 0 {
        return Err("no_active_display".to_owned());
    }
    if index < monitors.len() {
        return Ok(monitors.remove(index));
    }
    let mut said = "display ".to_owned();
    said.append(text::write_decimal(index as u64).as_str());
    said.append(" not found");
    Err(said)
}

/// What a monitor answers when it is asked about itself, each answer on its own.
#[derive(Debug)]
pub struct MonitorReading {
    pub x: Result<i32, String>,
    pub y: Result<i32, String>,
    pub width: Result<u32, String>,
    pub height: Result<u32, String>,
    /// Pixels per point of the display mode, in millionths.
    pub scale_factor: Result<i64, String>,
    pub id: Result<u32, String>,
}

/// A failed answer, with what was being asked in front of it.
pub open spec fn unread(what: Seq<char>, why: Seq<char>) -> FailureView {
    wire::coded(what + why)
}

fn cannot_read(what: &str, why: &String) -> (r: Failure)
    ensures
        r@ == unread(what@, why@),
{
    let mut code = what.to_owned();
    code.append(why.as_str());
    Failure { code, detail: None }
}

/// A display from what its monitor answered: the first answer that failed is the
/// failure, and a display mode has at least one pixel to the point.
pub open spec fn display_of(reading: MonitorReading) -> Result<Display, FailureView> {
    match (reading.x, reading.y, reading.width, reading.height, reading.scale_factor, reading.id) {
        (Err(e), _, _, _, _, _) => Err(unread("display origin x: "@, e@)),
        (Ok(_), Err(e), _, _, _, _) => Err(unread("display origin y: "@, e@)),
        (Ok(_), Ok(_), Err(e), _, _, _) => Err(unread("display width: "@, e@)),
        (Ok(_), Ok(_), Ok(_), Err(e), _, _) => Err(unread("display height: "@, e@)),
        (Ok(_), Ok(_), Ok(_), Ok(_), Err(e), _) => Err(unread("scale_factor: "@, e@)),
        (Ok(_), Ok(_), Ok(_), Ok(_), Ok(_), Err(e)) => Err(unread("display id: "@, e@)),
        (Ok(x), Ok(y), Ok(width), Ok(height), Ok(scale), Ok(id)) => Ok(
            Display {
                facts: MonitorFacts {
                    x,
                    y,
                    width,
                    height,
                    scale_factor: view::most(scale as int, measure::UNIT as int) as i64,
                },
                id,
            },
        ),
    }
}

/// The display a monitor's answers describe.
pub fn read_display(reading: &MonitorReading) -> (r: Result<Display, Failure>)
    ensures
        target::told(r) == display_of(*reading),
{
    let x: i32 = match &reading.x {
        Ok(x) => *x,
        Err(e) => return Err(cannot_read("display origin x: ", e)),
    };
    let y: i32 = match &reading.y {
        Ok(y) => *y,
        Err(e) => return Err(cannot_read("display origin y: ", e)),
    };
    let width: u32 = match &reading.width {
        Ok(width) => *width,
        Err(e) => return Err(cannot_read("display width: ", e)),
    };
    let height: u32 = match &reading.height {
        Ok(height) => *height,
        Err(e) => return Err(cannot_read("display height: ", e)),
    };
    let scale: i64 = match &reading.scale_factor {
        Ok(scale) => *scale,
        Err(e) => return Err(cannot_read("scale_factor: ", e)),
    };
    let id: u32 = match &reading.id {
        Ok(id) => *id,
        Err(e) => return Err(cannot_read("display id: ", e)),
    };
    let scale_factor: i64 = if scale >= measure::UNIT {
        scale
    } else {
        measure::UNIT
    };
    Ok(Display { facts: MonitorFacts { x, y, width, height, scale_factor }, id })
}

/// How long one capture may take before it is given up as stuck.
pub const CAPTURE_STALL_MS: u64 = 5_000;

/// How a capture ended that brought no picture back.
#[derive(Clone, Copy, Debug, PartialEq, Eq, Structural)]
pub enum CaptureEnd {
    /// There was no worker to run it on.
    NotStarted,
    /// It took longer than it may. Its worker is still stuck.
    TimedOut,
    /// Its worker ended without an answer.
    Died,
}

/// What a capture that brought no picture back is reported as, and whether the
/// capture backend is stuck, so that the process has to end once it has answered.
pub fn capture_failure(end: CaptureEnd) -> (r: (Failure, bool))
    ensures
        r.0@ == wire::coded(
            match end {
                CaptureEnd::NotStarted => "capture failed: could not spawn capture worker"@,
                CaptureEnd::TimedOut => "capture_stalled"@,
                CaptureEnd::Died => "capture failed: capture worker exited without a result"@,
            },
        ),
        r.1 == (end == CaptureEnd::TimedOut),
{
    match end {
        CaptureEnd::NotStarted => (
            Failure::coded("capture failed: could not spawn capture worker"),
            false,
        ),
        CaptureEnd::TimedOut => (Failure::coded("capture_stalled"), true),
        CaptureEnd::Died => (
            Failure::coded("capture failed: capture worker exited without a result"),
            false,
        ),
    }
}

/// The place of the monitor with an id among the monitors that are there now, each
/// with the id it answers, where it answers one.
pub fn find_monitor(ids: &Vec<Option<u32>>, wanted: u32) -> (r: Result<usize, Failure>)
    ensures
        match r {
            Ok(i) => i < ids@.len() && ids@[i as int] == Some(wanted) && (forall|k: int|
                0 <= k < i ==> ids@[k] != Some(wanted)),
            Err(failure) => failure@ == wire::coded("display_disconnected"@) && (forall|k: int|
                0 <= k < ids@.len() ==> ids@[k] != Some(wanted)),
        },
{
    let mut i: usize = 0;
    while i < ids.len()
        invariant
            i <= ids@.len(),
            forall|k: int| 0 <= k < i ==> ids@[k] != Some(wanted),
        decreases ids@.len() - i,
    {
        if let Some(id) = ids[i] {
            if id == wanted {
                return Ok(i);
            }
        }
        i += 1;
    }
    Err(Failure::coded("display_disconnected"))
}

/// One side of a requested rectangle.
pub open spec fn region_side(value: Json, key: Seq<char>) -> Result<i64, Seq<char>> {
    match json::field_length(value, key) {
        Some(length) => Ok(length),
        None => Err("region."@ + key + " is missing or not a number"@),
    }
}

fn region_field(value: &Value, key: &str) -> (r: Result<i64, String>)
    ensures
        (match r {
            Ok(length) => Ok(length),
            Err(said) => Err(said@),
        }) == region_side(json::json_of(*value), key@),
{
    match json::length_at(value, key) {
        Some(length) => Ok(length),
        None => {
            let mut said = "region.".to_owned();
            said.append(key);
            said.append(" is missing or not a number");
            Err(said)
        },
    }
}

/// The rectangle a value describes.
pub open spec fn region_in(value: Json) -> Result<Region, Seq<char>> {
    match (
        region_side(value, "x"@),
        region_side(value, "y"@),
        region_side(value, "w"@),
        region_side(value, "h"@),
    ) {
        (Err(said), _, _, _) => Err(said),
        (Ok(_), Err(said), _, _) => Err(said),
        (Ok(_), Ok(_), Err(said), _) => Err(said),
        (Ok(_), Ok(_), Ok(_), Err(said)) => Err(said),
        (Ok(x), Ok(y), Ok(w), Ok(h)) => if w <= 0 || h <= 0 {
            Err("region.w and region.h must be > 0"@)
        } else {
            Ok(Region { x, y, w, h })
        },
    }
}

/// The rectangle a request asks for, where it asks for one.
pub open spec fn asked_region(req: Json) -> Result<Option<Region>, Seq<char>> {
    match json::field(req, "region"@) {
        None => Ok(None),
        Some(Json::Null) => Ok(None),
        Some(value) => match region_in(value) {
            Ok(region) => Ok(Some(region)),
            Err(said) => Err(said),
        },
    }
}

/// The rectangle a request asks for, where it asks for one. Its sides are lengths, so
/// one thinner than half a millionth of a pixel has none.
pub fn parse_region(req: &Value) -> (r: Result<Option<Region>, String>)
    ensures
        (match r {
            Ok(region) => Ok(region),
            Err(said) => Err(said@),
        }) == asked_region(json::json_of(*req)),
{
    let value = match json::member(req, "region") {
        Some(value) => value,
        None => return Ok(None),
    };
    if value.is_null() {
        return Ok(None);
    }
    let x: i64 = match region_field(value, "x") {
        Ok(x) => x,
        Err(said) => return Err(said),
    };
    let y: i64 = match region_field(value, "y") {
        Ok(y) => y,
        Err(said) => return Err(said),
    };
    let w: i64 = match region_field(value, "w") {
        Ok(w) => w,
        Err(said) => return Err(said),
    };
    let h: i64 = match region_field(value, "h") {
        Ok(h) => h,
        Err(said) => return Err(said),
    };
    if w <= 0 || h <= 0 {
        return Err("region.w and region.h must be > 0".to_owned());
    }
    Ok(Some(Region { x, y, w, h }))
}

/// A refusal of an observation, as an action's failure.
pub open spec fn refused_view(refusal: Refusal) -> FailureView {
    wire::failed(observation::refusal_code(refusal), observation::refusal_detail(refusal))
}

/// A refusal of an observation, as an action's failure.
pub fn refused(refusal: Refusal) -> (r: Failure)
    ensures
        r@ == refused_view(refusal),
{
    Failure::new(refusal.code(), refusal.detail())
}

/// The rectangle a viewing action is about.
#[derive(Debug)]
pub enum Viewing {
    /// The whole display.
    Full,
    /// A rectangle of the picture of the whole display.
    Display(Region),
    /// A rectangle of the image that is named, to be mapped through the mapping that
    /// image was made with.
    Through(Region, Observation),
}

/// What a viewing action is about, with what it names in place of what it holds.
#[verifier::ext_equal]
pub enum ViewingView {
    Full,
    Display(Region),
    Through(Region, ObservationView),
}

impl View for Viewing {
    type V = ViewingView;

    open spec fn view(&self) -> ViewingView {
        match *self {
            Viewing::Full => ViewingView::Full,
            Viewing::Display(region) => ViewingView::Display(region),
            Viewing::Through(region, observation) => ViewingView::Through(region, observation@),
        }
    }
}

/// The rectangle a viewing action asks for: without one the whole display, and an
/// image named beside none has nothing to qualify; with one and no image named, a
/// rectangle of the picture of the whole display; with both, a rectangle of that
/// image.
pub open spec fn viewing_of(
    req: Json,
    observation_id: Option<Seq<char>>,
    table: ObservationsView,
    now_ms: u64,
) -> Result<ViewingView, FailureView> {
    match asked_region(req) {
        Err(said) => Err(wire::coded(said)),
        Ok(None) => Ok(ViewingView::Full),
        Ok(Some(rect)) => match observation_id {
            None => Ok(ViewingView::Display(rect)),
            Some(id) => match table.named(id, now_ms) {
                Ok(named) => Ok(ViewingView::Through(rect, named)),
                Err(refusal) => Err(refused_view(refusal)),
            },
        },
    }
}

/// The rectangle a viewing action asks for.
pub fn viewing_region(
    req: &Value,
    observation_id: Option<&str>,
    observations: &Observations,
    now_ms: u64,
) -> (r: Result<Viewing, Failure>)
    ensures
        (match r {
            Ok(viewing) => Ok(viewing@),
            Err(failure) => Err(failure@),
        }) == viewing_of(
            json::json_of(*req),
            text::slice_of(observation_id),
            observations@,
            now_ms,
        ),
{
    let rect = match parse_region(req) {
        Ok(Some(rect)) => rect,
        Ok(None) => return Ok(Viewing::Full),
        Err(said) => return Err(Failure { code: said, detail: None }),
    };
    match observation_id {
        None => Ok(Viewing::Display(rect)),
        Some(id) => match observations.resolve(id, now_ms) {
            Ok(named) => Ok(Viewing::Through(rect, named.copy())),
            Err(refusal) => Err(refused(refusal)),
        },
    }
}

/// What is drawn on a picture that was asked for.
#[derive(Clone, Copy, Debug, PartialEq)]
pub struct Overlays {
    pub rulers: bool,
    pub marks: bool,
    /// A point of the picture itself to mark.
    pub annotate: Option<(i32, i32)>,
}

/// A truth under a key, false where there is none.
pub open spec fn flag(req: Json, key: Seq<char>) -> bool {
    json::field_bool(req, key) == Some(true)
}

fn flag_at(req: &Value, key: &str) -> (r: bool)
    ensures
        r == flag(json::json_of(*req), key@),
{
    match json::bool_at(req, key) {
        Some(set) => set,
        None => false,
    }
}

/// The point a request asks to be marked, where it asks for one.
pub open spec fn asked_annotation(req: Json) -> Result<Option<(i32, i32)>, Seq<char>> {
    match json::field(req, "annotate_point"@) {
        None => Ok(None),
        Some(Json::Null) => Ok(None),
        Some(value) => match (json::field_length(value, "x"@), json::field_length(value, "y"@)) {
            (None, _) => Err("annotate_point.x is missing or not a number"@),
            (Some(_), None) => Err("annotate_point.y is missing or not a number"@),
            (Some(x), Some(y)) => Ok(
                Some((elements::pointed(x as int), elements::pointed(y as int))),
            ),
        },
    }
}

fn parse_annotation(req: &Value) -> (r: Result<Option<(i32, i32)>, String>)
    ensures
        (match r {
            Ok(point) => Ok(point),
            Err(said) => Err(said@),
        }) == asked_annotation(json::json_of(*req)),
{
    let value = match json::member(req, "annotate_point") {
        Some(value) => value,
        None => return Ok(None),
    };
    if value.is_null() {
        return Ok(None);
    }
    let x: i64 = match json::length_at(value, "x") {
        Some(x) => x,
        None => return Err("annotate_point.x is missing or not a number".to_owned()),
    };
    let y: i64 = match json::length_at(value, "y") {
        Some(y) => y,
        None => return Err("annotate_point.y is missing or not a number".to_owned()),
    };
    Ok(Some((elements::to_point(x), elements::to_point(y))))
}

/// What a request asks to have drawn.
pub fn parse_overlays(req: &Value) -> (r: Result<Overlays, String>)
    ensures
        match (r, asked_annotation(json::json_of(*req))) {
            (Ok(overlays), Ok(annotate)) => overlays == (Overlays {
                rulers: flag(json::json_of(*req), "rulers"@),
                marks: flag(json::json_of(*req), "marks"@),
                annotate,
            }),
            (Err(said), Err(why)) => said@ == why,
            _ => false,
        },
{
    let rulers = flag_at(req, "rulers");
    let marks = flag_at(req, "marks");
    match parse_annotation(req) {
        Ok(annotate) => Ok(Overlays { rulers, marks, annotate }),
        Err(said) => Err(said),
    }
}

/// The JPEG quality a request asks for, where it asks for one.
pub open spec fn asked_quality(req: Json) -> Result<Option<u8>, Seq<char>> {
    match json::field(req, "jpeg_quality"@) {
        None => Ok(None),
        Some(Json::Null) => Ok(None),
        Some(Json::Unsigned(q)) => if 1 <= q <= 100 {
            Ok(Some(q as u8))
        } else {
            Err("jpeg_quality must be an integer 1-100"@)
        },
        Some(_) => Err("jpeg_quality must be an integer 1-100"@),
    }
}

/// The JPEG quality a request asks for; nothing is PNG, which loses nothing.
pub fn parse_jpeg_quality(req: &Value) -> (r: Result<Option<u8>, String>)
    ensures
        (match r {
            Ok(quality) => Ok(quality),
            Err(said) => Err(said@),
        }) == asked_quality(json::json_of(*req)),
{
    let value = match json::member(req, "jpeg_quality") {
        Some(value) => value,
        None => return Ok(None),
    };
    if value.is_null() {
        return Ok(None);
    }
    match value.as_u64() {
        Some(q) => if 1 <= q && q <= 100 {
            Ok(Some(q as u8))
        } else {
            Err("jpeg_quality must be an integer 1-100".to_owned())
        },
        None => Err("jpeg_quality must be an integer 1-100".to_owned()),
    }
}

/// One picture to be sent: of which display, which rectangle of it, how large, and
/// what is drawn on it and said beside it.
#[derive(Clone, Copy, Debug)]
pub struct Shot {
    pub display: Display,
    pub geometry: Geometry,
    pub region: Region,
    /// The rectangle of the captured picture that is cut out.
    pub crop: CropRect,
    /// The size the cut is sent in.
    pub sent: (u32, u32),
    pub jpeg_quality: Option<u8>,
    pub rulers: bool,
    /// The point of the sent picture to mark.
    pub annotate: Option<(i32, i32)>,
    /// Where the pointer is in the sent picture.
    pub cursor: Option<(i32, i32)>,
}

/// The cut of a captured picture, in the size it is sent in, before anything is drawn
/// on it.
pub open spec fn bare(frame: PictureView, shot: Shot) -> PictureView {
    picture::resized_to(view::cropped(frame, shot.crop), shot.sent.0, shot.sent.1)
}

/// What is drawn on a picture, from the bottom to the top: the rulers, the badges of
/// the controls in it, and the executed point, which is never covered.
pub open spec fn drawing(shot: Shot, marks: Option<Result<Viewed, Failure>>) -> Paint {
    let width = shot.sent.0;
    let height = shot.sent.1;
    let rulers = if shot.rulers {
        overlay::ruled(width as nat, height as nat)
    } else {
        overlay::blank()
    };
    let badged = match marks {
        Some(Ok(viewed)) => overlay::over(
            listing::badges(viewed.nodes@, listing::marked(viewed.nodes@)),
            rulers,
        ),
        _ => rulers,
    };
    match shot.annotate {
        Some((x, y)) => overlay::over(
            overlay::executed_mark(width as int, height as int, x as int, y as int),
            badged,
        ),
        None => badged,
    }
}

/// Whether the marks of a picture are what was asked for.
pub open spec fn marks_told(
    marks: Option<Result<Viewed, Failure>>,
    info: Option<MarksInfo>,
) -> bool {
    match (marks, info) {
        (Some(Ok(viewed)), Some(info)) => listing::marks_of(viewed, info),
        (Some(Err(unsupported)), Some(info)) => listing::unmarked(unsupported.code@, info),
        (None, None) => true,
        _ => false,
    }
}

/// Whether a shot of a captured picture can be taken: its cut can be resampled.
pub open spec fn takeable(frame: PictureView, shot: Shot) -> bool {
    Picture::resizable(view::cropped(frame, shot.crop), shot.sent.0, shot.sent.1)
}

/// Draws on a picture in the size it is sent in: the rulers, the badges of the
/// controls, and the executed point last.
pub fn draw(sent: &mut Picture, shot: &Shot, marks: &Option<Result<Viewed, Failure>>) -> (r: Option<
    MarksInfo,
>)
    requires
        old(sent)@.width == shot.sent.0,
        old(sent)@.height == shot.sent.1,
    ensures
        overlay::shows(old(sent)@, final(sent)@, drawing(*shot, *marks)),
        marks_told(*marks, r),
{
    let ghost start = sent@;
    let _ = sent.bytes();
    assert(overlay::shows(start, sent@, overlay::blank()));
    if shot.rulers {
        overlay::rulers(sent);
    }
    let ghost rulers = if shot.rulers {
        overlay::ruled(shot.sent.0 as nat, shot.sent.1 as nat)
    } else {
        overlay::blank()
    };
    let ghost ruled = sent@;
    assert(overlay::shows(start, ruled, rulers));
    let info = match marks {
        Some(viewed) => Some(listing::collect_marks(viewed, sent)),
        None => None,
    };
    let ghost badged = match marks {
        Some(Ok(viewed)) => overlay::over(
            listing::badges(viewed.nodes@, listing::marked(viewed.nodes@)),
            rulers,
        ),
        _ => rulers,
    };
    let ghost marked = sent@;
    proof {
        if let Some(Ok(viewed)) = marks {
            overlay::painted_over(
                start,
                ruled,
                marked,
                rulers,
                listing::badges(viewed.nodes@, listing::marked(viewed.nodes@)),
            );
        }
        assert(overlay::shows(start, marked, badged));
    }
    if let Some((x, y)) = shot.annotate {
        overlay::executed_point(sent, x, y);
        proof {
            overlay::painted_over(
                start,
                marked,
                sent@,
                badged,
                overlay::executed_mark(
                    shot.sent.0 as int,
                    shot.sent.1 as int,
                    x as int,
                    y as int,
                ),
            );
        }
    }
    info
}

/// Cuts a shot out of a captured picture, resamples it, and draws on it.
pub fn compose(frame: &Picture, shot: &Shot, marks: &Option<Result<Viewed, Failure>>) -> (r: (
    Picture,
    Option<MarksInfo>,
))
    requires
        takeable(frame@, *shot),
    ensures
        overlay::shows(bare(frame@, *shot), r.0@, drawing(*shot, *marks)),
        marks_told(*marks, r.1),
{
    let cropped = view::crop_out(frame, &shot.crop);
    let mut sent = cropped.resize(shot.sent.0, shot.sent.1);
    let info = draw(&mut sent, shot, marks);
    (sent, info)
}

/// The picture a drawing makes of another.
pub open spec fn with_drawing(before: PictureView, paint: Paint) -> PictureView {
    choose|after: PictureView| overlay::shows(before, after, paint)
}

/// The picture a shot sends.
pub open spec fn sent_picture(
    frame: PictureView,
    shot: Shot,
    marks: Option<Result<Viewed, Failure>>,
) -> PictureView {
    with_drawing(bare(frame, shot), drawing(shot, marks))
}

/// A point in whole pixels or points.
pub open spec fn point_json(x: int, y: int) -> Json {
    Json::Object(
        Map::<Seq<char>, Json>::empty().insert("x"@, json::integer(x)).insert(
            "y"@,
            json::integer(y),
        ),
    )
}

fn point_value(x: i32, y: i32) -> (r: Value)
    ensures
        json::json_of(r) == point_json(x as int, y as int),
{
    let mut point = json::object();
    json::insert(&mut point, "x", json::signed(x as i64));
    json::insert(&mut point, "y", json::signed(y as i64));
    point
}

/// A size in whole pixels.
pub open spec fn size_json(width: u32, height: u32) -> Json {
    Json::Object(
        Map::<Seq<char>, Json>::empty().insert("width"@, Json::Unsigned(width as u64)).insert(
            "height"@,
            Json::Unsigned(height as u64),
        ),
    )
}

fn size_value(width: u32, height: u32) -> (r: Value)
    ensures
        json::json_of(r) == size_json(width, height),
{
    let mut size = json::object();
    json::insert(&mut size, "width", json::unsigned(width as u64));
    json::insert(&mut size, "height", json::unsigned(height as u64));
    size
}

/// The members of a reply that every picture has.
pub open spec fn picture_members(shot: Shot, data: Seq<char>) -> Map<Seq<char>, Json> {
    let plain = Map::<Seq<char>, Json>::empty().insert("ok"@, Json::Bool(true)).insert(
        "mime"@,
        Json::Text(encoding::mime_of(shot.jpeg_quality)),
    ).insert("width"@, Json::Unsigned(shot.sent.0 as u64)).insert(
        "height"@,
        Json::Unsigned(shot.sent.1 as u64),
    ).insert("scale"@, json::length_json(shot.geometry.scale_factor as int)).insert(
        "origin"@,
        point_json(
            elements::pointed(shot.geometry.origin_x as int) as int,
            elements::pointed(shot.geometry.origin_y as int) as int,
        ),
    ).insert("physical"@, size_json(shot.geometry.phys_w, shot.geometry.phys_h)).insert(
        "region"@,
        listing::region_json(shot.region),
    ).insert("data"@, Json::Text(data));
    match shot.cursor {
        Some((x, y)) => plain.insert("cursor"@, point_json(x as int, y as int)),
        None => plain,
    }
}

fn picture_value(shot: &Shot, data: &str) -> (r: Value)
    ensures
        json::json_of(r) == Json::Object(picture_members(*shot, data@)),
{
    let mime = match shot.jpeg_quality {
        Some(_) => "image/jpeg",
        None => "image/png",
    };
    let mut payload = json::object();
    json::insert(&mut payload, "ok", json::boolean(true));
    json::insert(&mut payload, "mime", json::string(mime));
    json::insert(&mut payload, "width", json::unsigned(shot.sent.0 as u64));
    json::insert(&mut payload, "height", json::unsigned(shot.sent.1 as u64));
    json::insert(&mut payload, "scale", json::length_value(shot.geometry.scale_factor));
    json::insert(
        &mut payload,
        "origin",
        point_value(
            elements::to_point(shot.geometry.origin_x),
            elements::to_point(shot.geometry.origin_y),
        ),
    );
    json::insert(&mut payload, "physical", size_value(shot.geometry.phys_w, shot.geometry.phys_h));
    json::insert(&mut payload, "region", listing::region_value(&shot.region));
    json::insert(&mut payload, "data", json::string(data));
    if let Some((x, y)) = shot.cursor {
        json::insert(&mut payload, "cursor", point_value(x, y));
    }
    payload
}

/// The members of a reply with those of its marks, which are there, empty or not,
/// whenever marks were asked for.
pub open spec fn with_marks(members: Map<Seq<char>, Json>, info: Option<MarksInfo>) -> Map<
    Seq<char>,
    Json,
> {
    match info {
        None => members,
        Some(info) => {
            let listed = members.insert("marks"@, Json::List(json::json_list(info.entries@)));
            let noted = match info.ax_activation {
                Some(note) => listed.insert("ax_activation"@, Json::Text(note@)),
                None => listed,
            };
            let counted = if info.truncated > 0 {
                noted.insert("marks_truncated"@, Json::Unsigned(info.truncated as u64))
            } else {
                noted
            };
            match info.truncated_walk {
                Some(truncation) => counted.insert("truncated"@, Json::Text(truncation@)),
                None => counted,
            }
        },
    }
}

/// The references behind the marks of a picture.
pub open spec fn marks_table(info: Option<MarksInfo>) -> Option<ElementsView> {
    match info {
        Some(info) => elements::table(info.elements),
        None => None,
    }
}

/// The references behind what a picture is marked with: none where nothing could be
/// read.
pub open spec fn marked_table(marks: Option<Result<Viewed, Failure>>) -> Option<ElementsView> {
    match marks {
        Some(Ok(viewed)) => elements::kept(
            viewed.owner,
            listing::entries_of(viewed.nodes@, listing::marked(viewed.nodes@)),
        ),
        _ => None,
    }
}

fn add_marks(payload: &mut Value, info: Option<MarksInfo>) -> (r: Option<Elements>)
    requires
        json::json_of(*old(payload)) is Object,
    ensures
        json::json_of(*final(payload)) == Json::Object(
            with_marks(json::json_of(*old(payload))->Object_0, info),
        ),
        elements::table(r) == marks_table(info),
{
    match info {
        None => None,
        Some(info) => {
            json::insert(payload, "marks", json::list(info.entries));
            if let Some(note) = &info.ax_activation {
                json::insert(payload, "ax_activation", json::string(note.as_str()));
            }
            if info.truncated > 0 {
                json::insert(payload, "marks_truncated", json::unsigned(info.truncated as u64));
            }
            if let Some(truncation) = &info.truncated_walk {
                json::insert(payload, "truncated", json::string(truncation.as_str()));
            }
            info.elements
        },
    }
}

/// The members of a reply with the name of the image its coordinates are in.
pub open spec fn with_name(members: Map<Seq<char>, Json>, named: ObservationView) -> Map<
    Seq<char>,
    Json,
> {
    let said = members.insert("observation_id"@, Json::Text(named.id)).insert(
        "observation_kind"@,
        Json::Text(observation::kind_name(named.kind)),
    ).insert(
        "captured_at_monotonic_ns"@,
        Json::Unsigned(named.captured_at_monotonic_ns as u64),
    );
    match named.frame_seq {
        Some(seq) => said.insert("frame_seq"@, Json::Unsigned(seq)),
        None => said,
    }
}

/// Says which image a reply's coordinates are in. A reply that is no object has no
/// place for it.
pub fn name_observation(payload: &mut Value, observation: &Observation)
    requires
        observation.captured_at_monotonic_ns <= u64::MAX,
    ensures
        json::json_of(*final(payload)) == (match json::json_of(*old(payload)) {
            Json::Object(members) => Json::Object(with_name(members, observation@)),
            other => other,
        }),
{
    if !payload.is_object() {
        return;
    }
    json::insert(payload, "observation_id", json::string(observation.id.as_str()));
    json::insert(payload, "observation_kind", json::string(observation.kind.as_str()));
    json::insert(
        payload,
        "captured_at_monotonic_ns",
        json::unsigned(observation.captured_at_monotonic_ns as u64),
    );
    if let Some(seq) = observation.frame_seq {
        json::insert(payload, "frame_seq", json::unsigned(seq));
    }
}

/// Why a picture could not be put in a reply, where its base64 would be longer than a
/// text can be.
pub open spec fn sendable(file: Seq<u8>) -> Result<Seq<char>, FailureView> {
    if encoding::base64_length(file.len()) <= isize::MAX {
        Ok(encoding::base64_text(file))
    } else {
        Err(wire::coded("the encoded picture is too large to send"@))
    }
}

/// The text a sent picture is carried in.
pub open spec fn picture_data(sent: PictureView, jpeg_quality: Option<u8>) -> Result<
    Seq<char>,
    FailureView,
> {
    match encoding::encoded(sent, jpeg_quality) {
        Ok(file) => sendable(file),
        Err(failure) => Err(failure),
    }
}

fn encode_data(sent: &Picture, jpeg_quality: Option<u8>) -> (r: Result<String, Failure>)
    ensures
        (match r {
            Ok(data) => Ok(data@),
            Err(failure) => Err(failure@),
        }) == picture_data(sent@, jpeg_quality),
{
    let file = match encoding::encode_image(sent, jpeg_quality) {
        Ok((file, _)) => file,
        Err(failure) => return Err(failure),
    };
    match encoding::to_base64(&file) {
        Some(data) => Ok(data),
        None => Err(Failure::coded("the encoded picture is too large to send")),
    }
}

/// The observation a shot is named by.
pub open spec fn shot_observation(
    table: ObservationsView,
    shot: Shot,
    elements: Option<ElementsView>,
    now_ns: u128,
) -> ObservationView {
    table.next_observation(
        Kind::Image,
        shot.display.id,
        shot.display.facts,
        shot.geometry,
        shot.region,
        shot.sent,
        elements,
        now_ns,
    )
}

/// The table after a shot: the picture minted with the references behind its marks, and
/// with the hash of its own view beside it.
pub open spec fn table_after(
    table: ObservationsView,
    frame: PictureView,
    shot: Shot,
    elements: Option<ElementsView>,
    now_ms: u64,
    now_ns: u128,
) -> ObservationsView {
    let named = shot_observation(table, shot, elements, now_ns);
    table.with(named, now_ms).with_view(named.id, view::hash_of(frame, shot.crop))
}

/// The reply that carries a picture, given the text its file is carried in, the marks
/// on it and the hash of its view. It is minted and named before it leaves, so that it
/// is the space the next coordinates are read in, with the references behind its marks.
pub fn picture_reply(
    shot: &Shot,
    data: &str,
    info: Option<MarksInfo>,
    hash: ViewHash,
    observations: &mut Observations,
    now_ms: u64,
    now_ns: u128,
) -> (r: Value)
    requires
        old(observations)@.valid(),
        old(observations)@.counter < u64::MAX,
        old(observations)@.frame_seq < u64::MAX,
        now_ns <= u64::MAX,
    ensures
        final(observations)@.valid(),
        ({
            let named = shot_observation(old(observations)@, *shot, marks_table(info), now_ns);
            &&& final(observations)@ == old(observations)@.with(named, now_ms).with_view(
                named.id,
                hash,
            )
            &&& json::json_of(r) == Json::Object(
                with_name(with_marks(picture_members(*shot, data@), info), named),
            )
        }),
{
    let mut payload = picture_value(shot, data);
    let listed = add_marks(&mut payload, info);
    let named = observations.mint(
        Kind::Image,
        shot.display.id,
        shot.display.facts,
        shot.geometry,
        shot.region,
        shot.sent,
        listed,
        now_ms,
        now_ns,
    );
    observations.keep_view(named.id.as_str(), hash);
    name_observation(&mut payload, &named);
    payload
}

/// Whether a reply and the table after it are those of a shot: its picture could be
/// encoded, the reply carries it with its marks and its name, and the table holds it with
/// the references behind the marks and the hash of its view.
pub open spec fn captured(
    before: ObservationsView,
    frame: PictureView,
    shot: Shot,
    marks: Option<Result<Viewed, Failure>>,
    now_ms: u64,
    now_ns: u128,
    payload: Json,
    after: ObservationsView,
) -> bool {
    match picture_data(sent_picture(frame, shot, marks), shot.jpeg_quality) {
        Ok(data) => {
            &&& after == table_after(before, frame, shot, marked_table(marks), now_ms, now_ns)
            &&& exists|info: Option<MarksInfo>|
                {
                    &&& #[trigger] marks_told(marks, info)
                    &&& payload == Json::Object(
                        with_name(
                            with_marks(picture_members(shot, data), info),
                            shot_observation(before, shot, marked_table(marks), now_ns),
                        ),
                    )
                }
        },
        Err(_) => false,
    }
}

/// The reply that carries a picture: cut, resampled, drawn on, encoded, and named
/// before it leaves, so that it is the space the next coordinates are read in, with the
/// references behind its marks. A picture that cannot be encoded mints nothing.
pub fn capture_payload(
    frame: &Picture,
    shot: &Shot,
    marks: &Option<Result<Viewed, Failure>>,
    observations: &mut Observations,
    now_ms: u64,
    now_ns: u128,
) -> (r: Result<Value, Failure>)
    requires
        takeable(frame@, *shot),
        old(observations)@.valid(),
        old(observations)@.counter < u64::MAX,
        old(observations)@.frame_seq < u64::MAX,
        now_ns <= u64::MAX,
    ensures
        final(observations)@.valid(),
        match r {
            Ok(payload) => captured(
                old(observations)@,
                frame@,
                *shot,
                *marks,
                now_ms,
                now_ns,
                json::json_of(payload),
                final(observations)@,
            ),
            Err(failure) => {
                &&& picture_data(sent_picture(frame@, *shot, *marks), shot.jpeg_quality) == Err::<
                    Seq<char>,
                    FailureView,
                >(failure@)
                &&& final(observations)@ == old(observations)@
            },
        },
{
    let (sent, info) = compose(frame, shot, marks);
    proof {
        let paint = drawing(*shot, *marks);
        let before = bare(frame@, *shot);
        overlay::a_drawing_is_one_picture(
            before,
            sent@,
            sent_picture(frame@, *shot, *marks),
            paint,
        );
    }
    let data = match encode_data(&sent, shot.jpeg_quality) {
        Ok(data) => data,
        Err(failure) => return Err(failure),
    };
    assert(marks_told(*marks, info));
    let hash = view::view_hash(frame, &shot.crop);
    Ok(picture_reply(shot, data.as_str(), info, hash, observations, now_ms, now_ns))
}

/// Nothing drawn on a picture covers the executed point: whatever else is on it, the
/// mark is what is seen.
pub proof fn the_executed_point_is_never_covered(
    shot: Shot,
    marks: Option<Result<Viewed, Failure>>,
    x: i32,
    y: i32,
    at_x: int,
    at_y: int,
)
    requires
        shot.annotate == Some((x, y)),
        overlay::executed_mark(
            shot.sent.0 as int,
            shot.sent.1 as int,
            x as int,
            y as int,
        )(at_x, at_y) is Some,
    ensures
        drawing(shot, marks)(at_x, at_y) == overlay::executed_mark(
            shot.sent.0 as int,
            shot.sent.1 as int,
            x as int,
            y as int,
        )(at_x, at_y),
{
}

/// Whether a member of a reply is part of where its picture is, or of how big.
pub open spec fn is_placing(key: Seq<char>) -> bool {
    ||| key == "width"@
    ||| key == "height"@
    ||| key == "scale"@
    ||| key == "origin"@
    ||| key == "physical"@
    ||| key == "region"@
}

/// Where a picture is and how big it is are what the shot says: its format, its data,
/// its marks and its name put nothing over them.
proof fn placing_is_the_shots(
    shot: Shot,
    data: Seq<char>,
    info: Option<MarksInfo>,
    named: ObservationView,
)
    ensures
        ({
            let members = with_name(with_marks(picture_members(shot, data), info), named);
            &&& members.contains_key("width"@) && members["width"@] == Json::Unsigned(
                shot.sent.0 as u64,
            )
            &&& members.contains_key("height"@) && members["height"@] == Json::Unsigned(
                shot.sent.1 as u64,
            )
            &&& members.contains_key("scale"@) && members["scale"@] == json::length_json(
                shot.geometry.scale_factor as int,
            )
            &&& members.contains_key("origin"@) && members["origin"@] == point_json(
                elements::pointed(shot.geometry.origin_x as int) as int,
                elements::pointed(shot.geometry.origin_y as int) as int,
            )
            &&& members.contains_key("physical"@) && members["physical"@] == size_json(
                shot.geometry.phys_w,
                shot.geometry.phys_h,
            )
            &&& members.contains_key("region"@) && members["region"@] == listing::region_json(
                shot.region,
            )
            &&& members.contains_key("mime"@) && members["mime"@] == Json::Text(
                encoding::mime_of(shot.jpeg_quality),
            )
        }),
{
    reveal_strlit("ok");
    reveal_strlit("mime");
    reveal_strlit("width");
    reveal_strlit("height");
    reveal_strlit("scale");
    reveal_strlit("origin");
    reveal_strlit("physical");
    reveal_strlit("region");
    reveal_strlit("data");
    reveal_strlit("cursor");
    reveal_strlit("marks");
    reveal_strlit("ax_activation");
    reveal_strlit("marks_truncated");
    reveal_strlit("truncated");
    reveal_strlit("observation_id");
    reveal_strlit("observation_kind");
    reveal_strlit("captured_at_monotonic_ns");
    reveal_strlit("frame_seq");
    assert("ok"@.len() == 2 && "mime"@.len() == 4 && "width"@.len() == 5 && "height"@.len() == 6);
    assert("scale"@.len() == 5 && "origin"@.len() == 6 && "physical"@.len() == 8);
    assert("region"@.len() == 6 && "data"@.len() == 4 && "cursor"@.len() == 6);
    assert("marks"@.len() == 5 && "ax_activation"@.len() == 13 && "marks_truncated"@.len() == 15);
    assert("truncated"@.len() == 9 && "observation_id"@.len() == 14);
    assert("observation_kind"@.len() == 16 && "captured_at_monotonic_ns"@.len() == 24);
    assert("frame_seq"@.len() == 9);
    assert("mime"@[0] == 'm' && "data"@[0] == 'd');
    assert("width"@[0] == 'w' && "scale"@[0] == 's' && "marks"@[0] == 'm');
    assert("height"@[0] == 'h' && "origin"@[0] == 'o' && "region"@[0] == 'r');
    assert("cursor"@[0] == 'c');
}

/// Neither compression nor anything drawn on a picture moves a coordinate or changes the
/// hash that is kept: two replies from one table, of one rectangle of one frame, that
/// differ only in their quality and in what is drawn on them, say the same of where the
/// picture is and how big; what they mint has the same name, mapping, rectangle and size,
/// and is kept with the same hash. Only the format follows the quality.
pub proof fn compression_and_drawing_move_nothing(
    table: ObservationsView,
    frame: PictureView,
    one: Shot,
    other: Shot,
    one_marks: Option<Result<Viewed, Failure>>,
    other_marks: Option<Result<Viewed, Failure>>,
    minted_at_ms: u64,
    now_ns: u128,
    one_payload: Json,
    other_payload: Json,
    one_table: ObservationsView,
    other_table: ObservationsView,
    id: Seq<char>,
    now_ms: u64,
)
    requires
        table.valid(),
        one.display == other.display,
        one.geometry == other.geometry,
        one.region == other.region,
        one.crop == other.crop,
        one.sent == other.sent,
        captured(table, frame, one, one_marks, minted_at_ms, now_ns, one_payload, one_table),
        captured(
            table,
            frame,
            other,
            other_marks,
            minted_at_ms,
            now_ns,
            other_payload,
            other_table,
        ),
        id == shot_observation(table, one, marked_table(one_marks), now_ns).id,
    ensures
        forall|key: Seq<char>|
            is_placing(key) ==> (#[trigger] json::field(one_payload, key)) is Some && json::field(
                one_payload,
                key,
            ) == json::field(other_payload, key),
        json::field(one_payload, "mime"@) == Some(
            Json::Text(
                if one.jpeg_quality is Some {
                    "image/jpeg"@
                } else {
                    "image/png"@
                },
            ),
        ),
        json::field(one_payload, "mime"@) == Some(Json::Text("image/jpeg"@))
            <==> one.jpeg_quality is Some,
        match (one_table.named(id, now_ms), other_table.named(id, now_ms)) {
            (Ok(a), Ok(b)) => {
                &&& a.id == b.id && a.region == b.region && a.geometry == b.geometry
                &&& a.sent_w == b.sent_w && a.sent_h == b.sent_h
                &&& a.display_id == b.display_id && a.facts == b.facts
                &&& a.view_hash == b.view_hash && a.view_hash == Some(
                    view::hash_of(frame, one.crop),
                )
            },
            (Err(a), Err(b)) => a == b,
            _ => false,
        },
{
    let one_named = shot_observation(table, one, marked_table(one_marks), now_ns);
    let other_named = shot_observation(table, other, marked_table(other_marks), now_ns);
    let one_data = picture_data(sent_picture(frame, one, one_marks), one.jpeg_quality)->Ok_0;
    let other_data = picture_data(
        sent_picture(frame, other, other_marks),
        other.jpeg_quality,
    )->Ok_0;
    let one_info = choose|info: Option<MarksInfo>|
        {
            &&& #[trigger] marks_told(one_marks, info)
            &&& one_payload == Json::Object(
                with_name(with_marks(picture_members(one, one_data), info), one_named),
            )
        };
    let other_info = choose|info: Option<MarksInfo>|
        {
            &&& #[trigger] marks_told(other_marks, info)
            &&& other_payload == Json::Object(
                with_name(with_marks(picture_members(other, other_data), info), other_named),
            )
        };
    placing_is_the_shots(one, one_data, one_info, one_named);
    placing_is_the_shots(other, other_data, other_info, other_named);
    reveal_strlit("image/jpeg");
    reveal_strlit("image/png");
    assert("image/jpeg"@.len() == 10 && "image/png"@.len() == 9);
    let hash = view::hash_of(frame, one.crop);
    observation::what_was_minted_is_what_is_named(table, one_named, minted_at_ms, now_ms);
    observation::what_was_minted_is_what_is_named(table, other_named, minted_at_ms, now_ms);
    observation::a_kept_view_is_found(
        table.with(one_named, minted_at_ms),
        id,
        hash,
        id,
        now_ms,
    );
    observation::a_kept_view_is_found(
        table.with(other_named, minted_at_ms),
        id,
        hash,
        id,
        now_ms,
    );
}

proof fn reply_names_differ()
    ensures
        "ok"@.len() == 2,
        "mime"@.len() == 4 && "mime"@[0] == 'm',
        "width"@.len() == 5 && "width"@[0] == 'w',
        "height"@.len() == 6 && "height"@[0] == 'h',
        "scale"@.len() == 5 && "scale"@[0] == 's',
        "origin"@.len() == 6 && "origin"@[0] == 'o',
        "physical"@.len() == 8,
        "region"@.len() == 6 && "region"@[0] == 'r',
        "data"@.len() == 4 && "data"@[0] == 'd',
        "cursor"@.len() == 6 && "cursor"@[0] == 'c',
        "marks"@.len() == 5 && "marks"@[0] == 'm',
        "ax_activation"@.len() == 13,
        "marks_truncated"@.len() == 15,
        "truncated"@.len() == 9 && "truncated"@[0] == 't',
        "observation_id"@.len() == 14,
        "observation_kind"@.len() == 16,
        "captured_at_monotonic_ns"@.len() == 24,
        "frame_seq"@.len() == 9 && "frame_seq"@[0] == 'f',
        "x"@.len() == 1 && "x"@[0] == 'x',
        "y"@.len() == 1 && "y"@[0] == 'y',
        "w"@.len() == 1 && "w"@[0] == 'w',
        "h"@.len() == 1 && "h"@[0] == 'h',
{
    reveal_strlit("ok");
    reveal_strlit("mime");
    reveal_strlit("width");
    reveal_strlit("height");
    reveal_strlit("scale");
    reveal_strlit("origin");
    reveal_strlit("physical");
    reveal_strlit("region");
    reveal_strlit("data");
    reveal_strlit("cursor");
    reveal_strlit("marks");
    reveal_strlit("ax_activation");
    reveal_strlit("marks_truncated");
    reveal_strlit("truncated");
    reveal_strlit("observation_id");
    reveal_strlit("observation_kind");
    reveal_strlit("captured_at_monotonic_ns");
    reveal_strlit("frame_seq");
    reveal_strlit("x");
    reveal_strlit("y");
    reveal_strlit("w");
    reveal_strlit("h");
}

/// A display is exactly what its monitor answered, where it answered everything; only a
/// scale below one pixel to the point is taken for one.
pub proof fn a_display_is_what_its_monitor_said(reading: MonitorReading)
    ensures
        display_of(reading) is Ok <==> reading.x is Ok && reading.y is Ok && reading.width is Ok
            && reading.height is Ok && reading.scale_factor is Ok && reading.id is Ok,
        display_of(reading) matches Ok(display) ==> {
            &&& Ok::<i32, String>(display.facts.x) == reading.x
            &&& Ok::<i32, String>(display.facts.y) == reading.y
            &&& Ok::<u32, String>(display.facts.width) == reading.width
            &&& Ok::<u32, String>(display.facts.height) == reading.height
            &&& Ok::<u32, String>(display.id) == reading.id
            &&& display.facts.scale_factor >= measure::UNIT
            &&& display.facts.scale_factor == reading.scale_factor->Ok_0
                || reading.scale_factor->Ok_0 < measure::UNIT && display.facts.scale_factor
                == measure::UNIT
        },
{
}

/// A rectangle that is read is the one that was written: each side the number under its
/// own name, and neither size nothing. Anything else that is there is refused, and what
/// is not there asks for none.
pub proof fn a_region_is_read_as_written(req: Json)
    ensures
        json::field(req, "region"@) is None || json::field(req, "region"@) == Some(Json::Null)
            ==> asked_region(req) == Ok::<Option<Region>, Seq<char>>(None),
        json::field(req, "region"@) matches Some(said) ==> said != Json::Null ==> {
            let x = json::field_length(said, "x"@);
            let y = json::field_length(said, "y"@);
            let w = json::field_length(said, "w"@);
            let h = json::field_length(said, "h"@);
            &&& asked_region(req) is Ok <==> x is Some && y is Some && w is Some && h is Some
                && w->0 > 0 && h->0 > 0
            &&& asked_region(req) matches Ok(asked) ==> asked matches Some(region) && Some(region.x)
                == x && Some(region.y) == y && Some(region.w) == w && Some(region.h) == h
        },
{
}

/// A point that is asked to be marked is the whole pixel nearest to the numbers that
/// were written, each under its own name.
pub proof fn an_annotation_is_read_as_written(req: Json)
    ensures
        json::field(req, "annotate_point"@) is None || json::field(req, "annotate_point"@) == Some(
            Json::Null,
        ) ==> asked_annotation(req) == Ok::<Option<(i32, i32)>, Seq<char>>(None),
        json::field(req, "annotate_point"@) matches Some(said) ==> said != Json::Null ==> {
            let x = json::field_length(said, "x"@);
            let y = json::field_length(said, "y"@);
            &&& asked_annotation(req) is Ok <==> x is Some && y is Some
            &&& asked_annotation(req) matches Ok(asked) ==> asked matches Some((px, py)) && {
                &&& i32::MIN * measure::UNIT <= x->0 <= i32::MAX * measure::UNIT ==> -measure::UNIT
                    <= 2 * (px * measure::UNIT - x->0) <= measure::UNIT
                &&& i32::MIN * measure::UNIT <= y->0 <= i32::MAX * measure::UNIT ==> -measure::UNIT
                    <= 2 * (py * measure::UNIT - y->0) <= measure::UNIT
            }
        },
{
    if let Some(said) = json::field(req, "annotate_point"@) {
        if let Some(x) = json::field_length(said, "x"@) {
            elements::a_middle_is_aimed_at(x as int);
        }
        if let Some(y) = json::field_length(said, "y"@) {
            elements::a_middle_is_aimed_at(y as int);
        }
    }
}

/// A quality is the whole number from one to a hundred that was written, and nothing
/// else is one.
pub proof fn a_quality_is_read_as_written(req: Json, quality: u8)
    ensures
        asked_quality(req) == Ok::<Option<u8>, Seq<char>>(Some(quality)) <==> 1 <= quality <= 100
            && json::field(req, "jpeg_quality"@) == Some(Json::Unsigned(quality as u64)),
        asked_quality(req) == Ok::<Option<u8>, Seq<char>>(None) <==> json::field(
            req,
            "jpeg_quality"@,
        ) is None || json::field(req, "jpeg_quality"@) == Some(Json::Null),
{
}

/// Only a rectangle that is asked for is mapped through an image: an image that is named
/// beside none has nothing to say, and one that is named beside one has to be known.
pub proof fn a_rectangle_is_viewed_through_its_image(
    req: Json,
    observation_id: Option<Seq<char>>,
    table: ObservationsView,
    now_ms: u64,
)
    ensures
        viewing_of(req, observation_id, table, now_ms) == Ok::<ViewingView, FailureView>(
            ViewingView::Full,
        ) <==> asked_region(req) == Ok::<Option<Region>, Seq<char>>(None),
        forall|rect: Region| #[trigger]
            asked_region(req) == Ok::<Option<Region>, Seq<char>>(Some(rect)) ==> {
                &&& observation_id is None ==> viewing_of(req, observation_id, table, now_ms) == Ok::<
                    ViewingView,
                    FailureView,
                >(ViewingView::Display(rect))
                &&& observation_id matches Some(id) ==> match table.named(id, now_ms) {
                    Ok(named) => viewing_of(req, observation_id, table, now_ms) == Ok::<
                        ViewingView,
                        FailureView,
                    >(ViewingView::Through(rect, named)),
                    Err(refusal) => viewing_of(req, observation_id, table, now_ms) == Err::<
                        ViewingView,
                        FailureView,
                    >(refused_view(refusal)),
                }
            },
{
}

/// What is drawn lies over the picture in one order: the executed point over the badges,
/// and the badges over the rulers. What was not asked for is not drawn.
pub proof fn drawings_lie_in_order(
    shot: Shot,
    marks: Option<Result<Viewed, Failure>>,
    x: int,
    y: int,
)
    ensures
        ({
            let (width, height) = (shot.sent.0 as int, shot.sent.1 as int);
            let point = match shot.annotate {
                Some((px, py)) => overlay::executed_mark(width, height, px as int, py as int)(x, y),
                None => None,
            };
            let badge = match marks {
                Some(Ok(viewed)) => listing::badges(
                    viewed.nodes@,
                    view::least(viewed.nodes@.len() as int, 60) as nat,
                )(x, y),
                _ => None,
            };
            let ruler = if shot.rulers {
                overlay::ruled(width as nat, height as nat)(x, y)
            } else {
                None
            };
            drawing(shot, marks)(x, y) == (if point is Some {
                point
            } else if badge is Some {
                badge
            } else {
                ruler
            })
        }),
{
}

/// A point on the wire says its own coordinates, and a size its own sides.
pub proof fn points_and_sizes_read_back(x: int, y: int, width: u32, height: u32)
    ensures
        json::field(point_json(x, y), "x"@) == Some(json::integer(x)),
        json::field(point_json(x, y), "y"@) == Some(json::integer(y)),
        json::field_u64(size_json(width, height), "width"@) == Some(width as u64),
        json::field_u64(size_json(width, height), "height"@) == Some(height as u64),
{
    reply_names_differ();
}

/// A reply carries its picture's data and its pointer, the marks that were made, and the
/// name its coordinates are to be read under.
pub proof fn a_reply_says_what_it_carries(
    shot: Shot,
    data: Seq<char>,
    info: Option<MarksInfo>,
    named: ObservationView,
)
    ensures
        ({
            let reply = Json::Object(
                with_name(with_marks(picture_members(shot, data), info), named),
            );
            &&& json::field_bool(reply, "ok"@) == Some(true)
            &&& json::field_text(reply, "data"@) == Some(data)
            &&& json::field(reply, "cursor"@) == (match shot.cursor {
                Some((x, y)) => Some(point_json(x as int, y as int)),
                None => None,
            })
            &&& json::field_text(reply, "observation_id"@) == Some(named.id)
            &&& json::field_text(reply, "observation_kind"@) == Some(
                observation::kind_name(named.kind),
            )
            &&& json::field_u64(reply, "captured_at_monotonic_ns"@) == Some(
                named.captured_at_monotonic_ns as u64,
            )
            &&& json::field_u64(reply, "frame_seq"@) == named.frame_seq
            &&& info is None ==> json::field(reply, "marks"@) is None
            &&& info matches Some(told) ==> {
                &&& json::field(reply, "marks"@) == Some(
                    Json::List(json::json_list(told.entries@)),
                )
                &&& json::field_text(reply, "ax_activation"@) == text::text_of(told.ax_activation)
                &&& json::field_text(reply, "truncated"@) == text::text_of(told.truncated_walk)
                &&& json::field_u64(reply, "marks_truncated"@) == (if told.truncated > 0 {
                    Some(told.truncated as u64)
                } else {
                    None
                })
            }
        }),
{
    reply_names_differ();
}

/// A picture is sent as its rectangle of the frame and nothing else, resampled to the size it
/// is sent in.
pub proof fn what_is_sent_is_the_rectangle(frame: PictureView, shot: Shot)
    ensures
        ({
            let (left, top, w, h) = view::bounds_in(frame, shot.crop);
            let cut = frame.cut(left as nat, top as nat, w as nat, h as nat);
            let sent = bare(frame, shot);
            &&& sent.width == shot.sent.0
            &&& sent.height == shot.sent.1
            &&& sent.bytes == picture::resampled(
                cut.bytes,
                cut.width as u32,
                cut.height as u32,
                shot.sent.0,
                shot.sent.1,
            )
        }),
{
}

/// A picture that is drawn on keeps every pixel that nothing is drawn on, and where something
/// is, it is what is seen.
pub proof fn only_what_is_drawn_on_changes(
    frame: PictureView,
    shot: Shot,
    marks: Option<Result<Viewed, Failure>>,
    sent: PictureView,
    x: int,
    y: int,
)
    requires
        overlay::shows(bare(frame, shot), sent, drawing(shot, marks)),
        0 <= x < shot.sent.0 && 0 <= y < shot.sent.1,
    ensures
        sent.width == shot.sent.0 && sent.height == shot.sent.1,
        drawing(shot, marks)(x, y) is None ==> sent.pixel(x, y) == bare(frame, shot).pixel(x, y),
        drawing(shot, marks)(x, y) matches Some(color) ==> sent.pixel(x, y) == color,
{
    assert(sent.has(x, y));
}

/// The text a picture is carried in says exactly the bytes of its file, and a picture that
/// cannot be encoded is carried in none.
pub proof fn a_picture_is_carried_whole(sent: PictureView, jpeg_quality: Option<u8>)
    ensures
        match encoding::encoded(sent, jpeg_quality) {
            Ok(file) => {
                &&& picture_data(sent, jpeg_quality) matches Ok(data) ==> encoding::decoded(data)
                    == file
                &&& picture_data(sent, jpeg_quality) is Ok <==> (file.len() + 2) / 3 * 4
                    <= isize::MAX
            },
            Err(failure) => picture_data(sent, jpeg_quality) == Err::<Seq<char>, FailureView>(
                failure,
            ),
        },
{
    if let Ok(file) = encoding::encoded(sent, jpeg_quality) {
        encoding::base64_reads_back(file);
    }
}

/// A monitor that will not answer is named by the first thing it would not say.
pub proof fn a_silent_monitor_is_named_by_what_it_will_not_say(reading: MonitorReading)
    ensures
        reading.x matches Err(why) ==> (display_of(reading) matches Err(failure) && failure.code
            == "display origin x: "@ + why@),
        reading.x is Ok ==> (reading.y matches Err(why) ==> (display_of(reading) matches Err(failure)
            && failure.code == "display origin y: "@ + why@)),
        reading.x is Ok && reading.y is Ok ==> (reading.width matches Err(why) ==> (display_of(
            reading,
        ) matches Err(failure) && failure.code == "display width: "@ + why@)),
        reading.x is Ok && reading.y is Ok && reading.width is Ok ==> (reading.height matches Err(why)
            ==> (display_of(reading) matches Err(failure) && failure.code == "display height: "@
            + why@)),
        reading.x is Ok && reading.y is Ok && reading.width is Ok && reading.height is Ok ==> (
        reading.scale_factor matches Err(why) ==> (display_of(reading) matches Err(failure)
            && failure.code == "scale_factor: "@ + why@)),
        reading.x is Ok && reading.y is Ok && reading.width is Ok && reading.height is Ok
            && reading.scale_factor is Ok ==> (reading.id matches Err(why) ==> (display_of(
            reading,
        ) matches Err(failure) && failure.code == "display id: "@ + why@)),
{
}

/// A rectangle with a side missing is refused by the first that is, and one without a size by
/// that.
pub proof fn a_bad_region_is_refused_by_its_side(value: Json)
    ensures
        json::field_length(value, "x"@) is None ==> region_in(value) == Err::<Region, Seq<char>>(
            "region."@ + "x"@ + " is missing or not a number"@,
        ),
        json::field_length(value, "x"@) is Some && json::field_length(value, "y"@) is None
            ==> region_in(value) == Err::<Region, Seq<char>>(
            "region."@ + "y"@ + " is missing or not a number"@,
        ),
        json::field_length(value, "x"@) is Some && json::field_length(value, "y"@) is Some
            && json::field_length(value, "w"@) is None ==> region_in(value) == Err::<
            Region,
            Seq<char>,
        >("region."@ + "w"@ + " is missing or not a number"@),
        json::field_length(value, "x"@) is Some && json::field_length(value, "y"@) is Some
            && json::field_length(value, "w"@) is Some && json::field_length(value, "h"@) is None
            ==> region_in(value) == Err::<Region, Seq<char>>(
            "region."@ + "h"@ + " is missing or not a number"@,
        ),
{
}

/// What is drawn is what was asked for by name, and only where the answer was yes.
pub proof fn a_flag_is_set_by_a_yes(req: Json, key: Seq<char>)
    ensures
        flag(req, key) <==> json::field(req, key) == Some(Json::Bool(true)),
{
}

/// A picture that could not be marked says why and carries no mark and no reference; one that
/// was marked keeps the references of its marks, and one that was not asked for any none.
pub proof fn marks_are_told_as_they_were_made(
    marks: Option<Result<Viewed, Failure>>,
    info: Option<MarksInfo>,
)
    requires
        marks_told(marks, info),
    ensures
        info is Some <==> marks is Some,
        marks_table(info) == marked_table(marks),
        marks matches Some(Err(why)) ==> (info matches Some(told) && {
            &&& told.entries@.len() == 0
            &&& text::text_of(told.ax_activation) == Some(why.code@)
            &&& told.truncated == 0
            &&& told.elements is None
        }),
        marks matches Some(Ok(viewed)) ==> (info matches Some(told) && told.entries@.len()
            == view::least(viewed.nodes@.len() as int, 60)),
{
    if let (Some(Ok(viewed)), Some(told)) = (marks, info) {
        listing::no_badge_is_left_out(viewed, told);
    }
}

} // verus!
