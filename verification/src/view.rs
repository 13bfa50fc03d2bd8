//! Watching a rectangle of the screen: which pixels it is, what they hash to, when
//! it has stopped moving, and when it has changed.

use std::collections::hash_map::DefaultHasher;
use std::hash::Hasher;

use vstd::prelude::*;

use crate::geometry::{CropRect, Region};
use crate::measure;
use crate::observation::{Observation, ViewHash};
use crate::picture::{self, Picture, PictureView};
use crate::waiting::Polling;
use crate::wire::Settle;

verus! {

/// The smaller of two numbers.
pub open spec fn least(a: int, b: int) -> int {
    if a <= b {
        a
    } else {
        b
    }
}

/// The larger of two numbers.
pub open spec fn most(a: int, b: int) -> int {
    if a >= b {
        a
    } else {
        b
    }
}

/// Where a crop starts along one side of a picture: rounded, and never outside.
pub open spec fn crop_start(place: int, size: int) -> int {
    least(most(measure::rounded(place), 0), most(size - 1, 0))
}

/// How many pixels of one side a crop covers: at least one, and none that is not
/// there.
pub open spec fn crop_length(length: int, start: int, size: int) -> int {
    least(most(measure::rounded(length), 1), size - start)
}

fn start_along(place: i64, size: u32) -> (r: u32)
    ensures
        r == crop_start(place as int, size as int),
        r <= size,
{
    let whole: i64 = measure::round(place);
    let last: i64 = if size == 0 {
        0
    } else {
        size as i64 - 1
    };
    if whole <= 0 {
        0
    } else if whole >= last {
        last as u32
    } else {
        whole as u32
    }
}

fn length_along(length: i64, start: u32, size: u32) -> (r: u32)
    requires
        start <= size,
    ensures
        r == crop_length(length as int, start as int, size as int),
        start + r <= size,
{
    let whole: i64 = measure::round(length);
    let room: i64 = size as i64 - start as i64;
    let wanted: i64 = if whole < 1 {
        1
    } else {
        whole
    };
    if wanted <= room {
        wanted as u32
    } else {
        room as u32
    }
}

/// A crop's whole pixels inside a picture: left, top, width and height.
pub open spec fn bounds_in(picture: PictureView, crop: CropRect) -> (int, int, int, int) {
    let left = crop_start(crop.left_phys as int, picture.width as int);
    let top = crop_start(crop.top_phys as int, picture.height as int);
    (
        left,
        top,
        crop_length(crop.w_phys as int, left, picture.width as int),
        crop_length(crop.h_phys as int, top, picture.height as int),
    )
}

/// Whether a whole number is the nearest of a range to a length.
pub open spec fn nearest_of(n: int, length: int, from: int, to: int) -> bool {
    &&& from <= n <= to
    &&& forall|m: int|
        from <= m <= to ==> measure::distance(n * measure::UNIT, length)
            <= #[trigger] measure::distance(m * measure::UNIT, length)
}

/// A crop starts at the pixel of the picture nearest to where it says, and is as many
/// pixels wide and high as are nearest to what it says, of those that are there: never
/// none, and none outside.
pub proof fn a_crop_is_the_nearest_pixels(picture: PictureView, crop: CropRect)
    requires
        picture.width > 0,
        picture.height > 0,
    ensures
        ({
            let (left, top, w, h) = bounds_in(picture, crop);
            &&& nearest_of(left, crop.left_phys as int, 0, picture.width - 1)
            &&& nearest_of(top, crop.top_phys as int, 0, picture.height - 1)
            &&& nearest_of(w, crop.w_phys as int, 1, picture.width - left)
            &&& nearest_of(h, crop.h_phys as int, 1, picture.height - top)
        }),
{
}

/// A crop's whole pixels inside a picture: rounded, and clamped to the picture so a
/// rectangle that runs past an edge indexes nothing that is not there. The one
/// reader, so what is hashed and what is encoded are the same rectangle.
pub fn crop_bounds(picture: &Picture, crop: &CropRect) -> (r: (u32, u32, u32, u32))
    ensures
        (r.0 as int, r.1 as int, r.2 as int, r.3 as int) == bounds_in(picture@, *crop),
        r.0 + r.2 <= picture@.width,
        r.1 + r.3 <= picture@.height,
{
    let left: u32 = start_along(crop.left_phys, picture.width());
    let top: u32 = start_along(crop.top_phys, picture.height());
    let w: u32 = length_along(crop.w_phys, left, picture.width());
    let h: u32 = length_along(crop.h_phys, top, picture.height());
    (left, top, w, h)
}

/// The picture a crop cuts out of a picture.
pub open spec fn cropped(picture: PictureView, crop: CropRect) -> PictureView {
    let bounds = bounds_in(picture, crop);
    picture.cut(bounds.0 as nat, bounds.1 as nat, bounds.2 as nat, bounds.3 as nat)
}

/// The rectangle of one picture, at full resolution.
pub fn crop_out(picture: &Picture, crop: &CropRect) -> (r: Picture)
    ensures
        r@ == cropped(picture@, *crop),
        r@.whole(),
{
    let (left, top, w, h) = crop_bounds(picture, crop);
    picture.cut(left, top, w, h)
}

/// One run of a picture's bytes: `w` pixels of a row.
pub open spec fn run_of(picture: PictureView, left: int, row: int, w: int) -> Seq<u8> {
    let start = picture::pixel_start(picture.width, left, row);
    picture.bytes.subrange(start, start + 4 * w)
}

/// The rows of a rectangle, from the top.
pub open spec fn rows_of(picture: PictureView, left: int, top: int, w: int, h: int) -> Seq<
    Seq<u8>,
> {
    Seq::new(h as nat, |r: int| run_of(picture, left, top + r, w))
}

/// What a fresh hasher makes of a list of writes.
pub open spec fn digest(writes: Seq<Seq<u8>>) -> u64 {
    <DefaultHasher as vstd::std_specs::hash::DefaultHasherAdditionalSpecFns>::spec_finish(writes)
}

/// What the hasher is fed of a crop of a picture: every row of it.
pub open spec fn fed(picture: PictureView, crop: CropRect) -> Seq<Seq<u8>> {
    let (left, top, w, h) = bounds_in(picture, crop);
    rows_of(picture, left, top, w, h)
}

/// What a crop of a picture hashes to: every pixel of it, row by row.
pub open spec fn hash_of(picture: PictureView, crop: CropRect) -> ViewHash {
    let (left, top, w, h) = bounds_in(picture, crop);
    ViewHash {
        pixels: digest(fed(picture, crop)),
        rect: (left as u32, top as u32, w as u32, h as u32),
        frame: (picture.width as u32, picture.height as u32),
    }
}

proof fn a_run_is_inside(picture: PictureView, left: int, row: int, w: int)
    requires
        picture.whole(),
        0 <= left && 0 <= w && left + w <= picture.width,
        0 <= row < picture.height,
    ensures
        0 <= picture::pixel_start(picture.width, left, row),
        picture::pixel_start(picture.width, left, row) + 4 * w <= picture.bytes.len(),
{
    let width = picture.width as int;
    let height = picture.height as int;
    assert(row * width + width <= height * width) by (nonlinear_arith)
        requires
            row + 1 <= height,
            0 <= width,
    ;
    assert(0 <= row * width) by (nonlinear_arith)
        requires
            0 <= row,
            0 <= width,
    ;
    assert(4 * picture.width * picture.height == 4 * (height * width)) by (nonlinear_arith)
        requires
            width == picture.width,
            height == picture.height,
    ;
}

/// Hashes every pixel of a rectangle, read in place out of the picture it lives in:
/// one contiguous run per row.
pub fn view_hash(picture: &Picture, crop: &CropRect) -> (r: ViewHash)
    ensures
        r == hash_of(picture@, *crop),
{
    let (left, top, w, h) = crop_bounds(picture, crop);
    let width: u32 = picture.width();
    let raw = picture.bytes();
    let size: usize = raw.len();
    let mut hasher = DefaultHasher::new();
    let mut row: u32 = 0;
    assert(hasher@ =~= rows_of(picture@, left as int, top as int, w as int, 0));
    while row < h
        invariant
            row <= h,
            raw@ == picture@.bytes,
            size == raw@.len(),
            picture@.whole(),
            width == picture@.width,
            left + w <= picture@.width,
            top + h <= picture@.height,
            hasher@ == rows_of(picture@, left as int, top as int, w as int, row as int),
        decreases h - row,
    {
        proof {
            a_run_is_inside(picture@, left as int, top + row, w as int);
            assert((top + row) * width <= u32::MAX * u32::MAX) by (nonlinear_arith)
                requires
                    0 <= top + row <= u32::MAX,
                    0 <= width <= u32::MAX,
            ;
        }
        let start: u128 = 4 * ((top + row) as u128 * width as u128 + left as u128);
        let end: u128 = start + 4 * w as u128;
        hasher.write(vstd::slice::slice_subrange(raw.as_slice(), start as usize, end as usize));
        assert(hasher@ =~= rows_of(picture@, left as int, top as int, w as int, row + 1));
        row += 1;
    }
    ViewHash { pixels: hasher.finish(), rect: (left, top, w, h), frame: (width, picture.height()) }
}

/// A hash reads its own rectangle and nothing around it: pictures of one size that
/// hold the same rows there hash alike.
pub proof fn a_hash_reads_only_its_rectangle(a: PictureView, b: PictureView, crop: CropRect)
    requires
        a.width == b.width,
        a.height == b.height,
        ({
            let (left, top, w, h) = bounds_in(a, crop);
            forall|r: int|
                top <= r < top + h ==> #[trigger] run_of(a, left, r, w) == run_of(b, left, r, w)
        }),
    ensures
        hash_of(a, crop) == hash_of(b, crop),
{
    let (left, top, w, h) = bounds_in(a, crop);
    assert(rows_of(a, left, top, w, h) =~= rows_of(b, left, top, w, h));
}

proof fn rows_are_a_cut(picture: PictureView, left: nat, top: nat, w: nat, h: nat)
    requires
        picture.whole(),
        0 < w,
        left + w <= picture.width,
        top + h <= picture.height,
    ensures
        rows_of(picture, left as int, top as int, w as int, h as int).flatten() == picture.cut(
            left,
            top,
            w,
            h,
        ).bytes,
    decreases h,
{
    let rows = rows_of(picture, left as int, top as int, w as int, h as int);
    let cut = picture.cut(left, top, w, h).bytes;
    if h == 0 {
        assert(4 * w * h == 0) by (nonlinear_arith)
            requires
                h == 0,
        ;
        assert(rows =~= Seq::empty());
        assert(rows.flatten() =~= cut);
    } else {
        let n = (h - 1) as nat;
        let above = rows_of(picture, left as int, top as int, w as int, n as int);
        let last = run_of(picture, left as int, (top + n) as int, w as int);
        rows_are_a_cut(picture, left, top, w, n);
        a_run_is_inside(picture, left as int, (top + n) as int, w as int);
        assert(rows =~= above.push(last));
        above.lemma_flatten_push(last);
        let before = 4 * w * n;
        assert(before == 4 * (n * w)) by (nonlinear_arith)
            requires
                before == 4 * w * n,
        ;
        assert(4 * w * h == before + 4 * w) by (nonlinear_arith)
            requires
                before == 4 * w * n,
                h == n + 1,
        ;
        assert forall|k: int| 0 <= k < 4 * w * h implies #[trigger] rows.flatten()[k] == cut[k] by {
            if k < before {
                assert(rows.flatten()[k] == above.flatten()[k]);
            } else {
                let j = k - before;
                assert(rows.flatten()[k] == last[j]);
                assert(k / 4 == n * w + j / 4);
                vstd::arithmetic::div_mod::lemma_fundamental_div_mod_converse(
                    k / 4,
                    w as int,
                    n as int,
                    j / 4,
                );
            }
        }
        assert(rows.flatten() =~= cut);
    }
}

/// What is hashed is the crop's rectangle, all of it: put together, what the hasher is
/// fed is four bytes for each of its pixels, from its first row to its last and from
/// left to right in each.
pub proof fn every_pixel_of_a_crop_is_hashed(picture: PictureView, crop: CropRect)
    requires
        picture.whole(),
        0 < picture.width <= u32::MAX,
        0 < picture.height <= u32::MAX,
    ensures
        hash_of(picture, crop).frame.0 == picture.width,
        hash_of(picture, crop).frame.1 == picture.height,
        ({
            let rect = hash_of(picture, crop).rect;
            (rect.0 as int, rect.1 as int, rect.2 as int, rect.3 as int) == bounds_in(
                picture,
                crop,
            )
        }),
        hash_of(picture, crop).pixels
            == <DefaultHasher as vstd::std_specs::hash::DefaultHasherAdditionalSpecFns>::spec_finish(
            fed(picture, crop),
        ),
        ({
            let (left, top, w, h) = bounds_in(picture, crop);
            &&& fed(picture, crop).flatten().len() == 4 * w * h
            &&& forall|x: int, y: int, c: int|
                left <= x < left + w && top <= y < top + h && 0 <= c < 4
                    ==> #[trigger] picture.pixel(x, y)[c] == fed(picture, crop).flatten()[4 * ((y
                    - top) * w + (x - left)) + c]
        }),
{
    let (left, top, w, h) = bounds_in(picture, crop);
    rows_are_a_cut(picture, left as nat, top as nat, w as nat, h as nat);
    let cut = picture.cut(left as nat, top as nat, w as nat, h as nat);
    assert forall|x: int, y: int, c: int|
        left <= x < left + w && top <= y < top + h && 0 <= c < 4 implies #[trigger] picture.pixel(
        x,
        y,
    )[c] == fed(picture, crop).flatten()[4 * ((y - top) * w + (x - left)) + c] by {
        picture::a_cut_keeps_its_pixels(
            picture,
            left as nat,
            top as nat,
            w as nat,
            h as nat,
            x - left,
            y - top,
        );
        assert(cut.pixel(x - left, y - top)[c] == picture.pixel(x, y)[c]);
        assert(cut.pixel(x - left, y - top)[c] == cut.bytes[picture::pixel_start(
            w as nat,
            x - left,
            y - top,
        ) + c]);
    }
}

/// A change of any byte of any pixel inside the crop changes what the hasher is fed.
pub proof fn a_changed_pixel_is_hashed(
    a: PictureView,
    b: PictureView,
    crop: CropRect,
    x: int,
    y: int,
)
    requires
        a.whole() && b.whole(),
        a.width == b.width && a.height == b.height,
        0 < a.width <= u32::MAX && 0 < a.height <= u32::MAX,
        ({
            let (left, top, w, h) = bounds_in(a, crop);
            left <= x < left + w && top <= y < top + h
        }),
        a.pixel(x, y) != b.pixel(x, y),
    ensures
        fed(a, crop) != fed(b, crop),
        fed(a, crop).flatten() != fed(b, crop).flatten(),
{
    every_pixel_of_a_crop_is_hashed(a, crop);
    every_pixel_of_a_crop_is_hashed(b, crop);
    if fed(a, crop).flatten() == fed(b, crop).flatten() {
        assert forall|c: int| 0 <= c < 4 implies a.pixel(x, y)[c] == b.pixel(x, y)[c] by {
        }
        assert(a.pixel(x, y) =~= b.pixel(x, y));
    }
}

/// A rectangle as the whole pixels it is drawn in.
pub open spec fn drawn(region: Region) -> (int, int, int, int) {
    (
        measure::rounded(region.x as int),
        measure::rounded(region.y as int),
        measure::rounded(region.w as int),
        measure::rounded(region.h as int),
    )
}

/// Whether two rectangles are the same whole pixels.
pub fn same_rect(a: &Region, b: &Region) -> (r: bool)
    ensures
        r == (drawn(*a) == drawn(*b)),
{
    measure::round(a.x) == measure::round(b.x) && measure::round(a.y) == measure::round(b.y)
        && measure::round(a.w) == measure::round(b.w) && measure::round(a.h) == measure::round(b.h)
}

/// The encoding of a check picture of a crop.
pub const CHECK_JPEG_QUALITY: u8 = 85;

/// Nothing for the whole display, which is kept without loss, and a quality for a
/// crop of it: decided by the rectangle itself.
pub fn check_quality(region: &Region, full: &Region) -> (r: Option<u8>)
    ensures
        r == (if drawn(*region) == drawn(*full) {
            None
        } else {
            Some(CHECK_JPEG_QUALITY)
        }),
{
    if same_rect(region, full) {
        None
    } else {
        Some(CHECK_JPEG_QUALITY)
    }
}

/// The hash kept with the image a request named, when that image's own view is what
/// is being watched; nothing where there is none to compare against.
pub fn stored_baseline(named: Option<&Observation>, region: &Region) -> (r: Option<ViewHash>)
    ensures
        r == (match named {
            Some(observation) => if drawn(observation.region) == drawn(*region) {
                observation.view_hash
            } else {
                None
            },
            None => None,
        }),
{
    match named {
        Some(observation) => if same_rect(&observation.region, region) {
            observation.view_hash
        } else {
            None
        },
        None => None,
    }
}

/// How long a settle may go on.
pub const SETTLE_CAP_MS: u64 = 1_500;

/// How many looks a settle may take.
pub const MAX_SETTLE_SAMPLES: u32 = 30;

/// The least time between the start of one look and the start of the next.
pub const SETTLE_POLL_MS: u64 = 50;

/// The shortest pause between two looks.
pub const SETTLE_MIN_POLL_MS: u64 = 5;

/// How long after the input a view has to be quiet before it is believed that it
/// did not move.
pub const SETTLE_QUIET_MS: u64 = 300;

/// A view being watched until it stops moving: look, then judge what was seen, over
/// and over.
#[derive(Clone, Copy, Debug)]
pub struct Settling {
    /// When the watching began.
    pub started: u64,
    /// From when on a view that did not move is believed.
    pub quiet_until: u64,
    /// The hash kept with the picture the action was aimed in.
    pub before: Option<ViewHash>,
    /// What a change is measured from, once the first look has decided it.
    pub baseline: Option<ViewHash>,
    /// The look before.
    pub previous: Option<ViewHash>,
    pub seen_change: bool,
    pub samples: u32,
    pub looked_at: u64,
}

impl Settling {
    /// Whether nothing has been looked at yet.
    pub open spec fn fresh(self) -> bool {
        &&& self.baseline is None
        &&& self.previous is None
        &&& !self.seen_change
        &&& self.samples == 0
    }

    /// What a change is measured from: the picture that was acted in where this look
    /// can be compared with it, and the first look otherwise.
    pub open spec fn base(self, hash: ViewHash) -> ViewHash {
        match self.baseline {
            Some(base) => base,
            None => match self.before {
                Some(before) => if hash.change(before) is Some {
                    before
                } else {
                    hash
                },
                None => hash,
            },
        }
    }

    /// Watching, with one more look begun.
    pub open spec fn looking(self, now_ms: u64) -> Settling {
        Settling { samples: (self.samples + 1) as u32, looked_at: now_ms, ..self }
    }

    /// Watching, with what the look saw taken in.
    pub open spec fn judged(self, hash: ViewHash) -> Settling {
        Settling {
            baseline: Some(self.base(hash)),
            previous: Some(hash),
            seen_change: self.seen_change || hash.change(self.base(hash)) == Some(true),
            ..self
        }
    }

    /// What a look decides: two in a row agree and either a change was seen or the
    /// view has been quiet long enough; or one of the caps is reached; or neither,
    /// and there is another look to take.
    pub open spec fn verdict(self, hash: ViewHash, now_ms: u64) -> Option<Settle> {
        if self.previous == Some(hash) && (self.judged(hash).seen_change || now_ms
            >= self.quiet_until) {
            Some(Settle::Stable)
        } else if now_ms - self.started >= SETTLE_CAP_MS || self.samples >= MAX_SETTLE_SAMPLES {
            Some(Settle::Timeout)
        } else {
            None
        }
    }

    /// Starts watching. The quiet window counts from the completed input, and from
    /// here where nothing was sent.
    pub fn new(started: u64, input_completed_at: Option<u64>, before: Option<ViewHash>) -> (r:
        Settling)
        requires
            started <= u64::MAX - SETTLE_QUIET_MS,
            input_completed_at matches Some(at) ==> at <= u64::MAX - SETTLE_QUIET_MS,
        ensures
            r.fresh(),
            r.started == started,
            r.before == before,
            r.looked_at == started,
            r.quiet_until == SETTLE_QUIET_MS + (match input_completed_at {
                Some(at) => at,
                None => started,
            }),
    {
        let from: u64 = match input_completed_at {
            Some(at) => at,
            None => started,
        };
        Settling {
            started,
            quiet_until: from + SETTLE_QUIET_MS,
            before,
            baseline: None,
            previous: None,
            seen_change: false,
            samples: 0,
            looked_at: started,
        }
    }

    /// How long to wait before the next look: nothing before the first, and then only
    /// what the look itself did not already take.
    pub fn pause(&self, now_ms: u64) -> (r: Option<u64>)
        ensures
            r == (if self.samples == 0 {
                None
            } else {
                Some(
                    most(
                        SETTLE_POLL_MS - most(now_ms - self.looked_at, 0),
                        SETTLE_MIN_POLL_MS as int,
                    ) as u64,
                )
            }),
            r matches Some(ms) ==> SETTLE_MIN_POLL_MS <= ms <= SETTLE_POLL_MS,
    {
        if self.samples == 0 {
            return None;
        }
        let since: u64 = if now_ms >= self.looked_at {
            now_ms - self.looked_at
        } else {
            0
        };
        let short: u64 = if since >= SETTLE_POLL_MS {
            0
        } else {
            SETTLE_POLL_MS - since
        };
        Some(
            if short < SETTLE_MIN_POLL_MS {
                SETTLE_MIN_POLL_MS
            } else {
                short
            },
        )
    }

    /// Begins a look.
    pub fn look(&mut self, now_ms: u64)
        requires
            old(self).samples < MAX_SETTLE_SAMPLES,
        ensures
            *final(self) == old(self).looking(now_ms),
    {
        self.samples = self.samples + 1;
        self.looked_at = now_ms;
    }

    /// Takes in what a look saw, and says whether the watching is over.
    pub fn judge(&mut self, hash: ViewHash, now_ms: u64) -> (r: Option<Settle>)
        ensures
            *final(self) == old(self).judged(hash),
            r == old(self).verdict(hash, now_ms),
    {
        let base = match self.baseline {
            Some(base) => base,
            None => match self.before {
                Some(before) => match hash.changed_from(&before) {
                    Some(_) => before,
                    None => hash,
                },
                None => hash,
            },
        };
        let agreed = match self.previous {
            Some(previous) => previous.agrees(&hash),
            None => false,
        };
        self.baseline = Some(base);
        self.previous = Some(hash);
        if let Some(true) = hash.changed_from(&base) {
            self.seen_change = true;
        }
        if agreed && (self.seen_change || now_ms >= self.quiet_until) {
            Some(Settle::Stable)
        } else if (now_ms >= self.started && now_ms - self.started >= SETTLE_CAP_MS) || self.samples
            >= MAX_SETTLE_SAMPLES {
            Some(Settle::Timeout)
        } else {
            None
        }
    }
}

/// One look: when it began, what it saw, and when that was judged.
pub struct Look {
    pub at: u64,
    pub hash: ViewHash,
    pub judged_at: u64,
}

/// Watching after a run of looks.
pub open spec fn watched(settling: Settling, looks: Seq<Look>) -> Settling
    decreases looks.len(),
{
    if looks.len() == 0 {
        settling
    } else {
        watched(settling, looks.drop_last()).looking(looks.last().at).judged(looks.last().hash)
    }
}

/// What the last of a run of looks decided.
pub open spec fn decided(settling: Settling, looks: Seq<Look>) -> Option<Settle> {
    watched(settling, looks.drop_last()).looking(looks.last().at).verdict(
        looks.last().hash,
        looks.last().judged_at,
    )
}

/// Whether some look of a run differed from what a change is measured from.
pub open spec fn moved(settling: Settling, looks: Seq<Look>) -> bool {
    exists|i: int|
        0 <= i < looks.len() && (#[trigger] looks[i]).hash.change(settling.base(looks[0].hash))
            == Some(true)
}

proof fn watching_remembers(settling: Settling, looks: Seq<Look>)
    requires
        settling.fresh(),
        looks.len() <= MAX_SETTLE_SAMPLES,
    ensures
        watched(settling, looks).samples == looks.len(),
        watched(settling, looks).started == settling.started,
        watched(settling, looks).quiet_until == settling.quiet_until,
        watched(settling, looks).before == settling.before,
        looks.len() > 0 ==> {
            &&& watched(settling, looks).previous == Some(looks.last().hash)
            &&& watched(settling, looks).baseline == Some(settling.base(looks[0].hash))
        },
        looks.len() == 0 ==> watched(settling, looks) == settling,
        watched(settling, looks).seen_change == moved(settling, looks),
    decreases looks.len(),
{
    if looks.len() > 0 {
        let first = looks.drop_last();
        watching_remembers(settling, first);
        let base = settling.base(looks[0].hash);
        let last = looks.len() - 1;
        assert(looks.last() == looks[last]);
        if first.len() > 0 {
            assert(first[0] == looks[0]);
        }
        if moved(settling, first) {
            let i = choose|i: int|
                0 <= i < first.len() && (#[trigger] first[i]).hash.change(
                    settling.base(first[0].hash),
                ) == Some(true);
            assert(looks[i].hash.change(base) == Some(true));
        }
        if moved(settling, looks) && looks.last().hash.change(base) != Some(true) {
            let i = choose|i: int|
                0 <= i < looks.len() && (#[trigger] looks[i]).hash.change(base) == Some(true);
            assert(first[i].hash.change(base) == Some(true));
        }
    }
}

/// A view is called stable exactly when the last two looks saw the same and either
/// some look differed from what was there before, or the input has been out for the
/// whole quiet window: two looks at a screen that has not begun to repaint are not
/// enough.
pub proof fn a_stable_view_was_seen_twice(settling: Settling, looks: Seq<Look>)
    requires
        settling.fresh(),
        0 < looks.len() <= MAX_SETTLE_SAMPLES,
    ensures
        decided(settling, looks) == Some(Settle::Stable) <==> {
            &&& looks.len() >= 2
            &&& looks[looks.len() - 2].hash == looks.last().hash
            &&& moved(settling, looks) || looks.last().judged_at >= settling.quiet_until
        },
{
    watching_remembers(settling, looks.drop_last());
    watching_remembers(settling, looks);
    if looks.len() >= 2 {
        assert(looks.drop_last().last() == looks[looks.len() - 2]);
    }
}

/// A settle ends: by its last look at the latest, and at the first look judged after
/// its time is up.
pub proof fn a_settle_ends(settling: Settling, looks: Seq<Look>)
    requires
        settling.fresh(),
        0 < looks.len() <= MAX_SETTLE_SAMPLES,
        looks.len() == MAX_SETTLE_SAMPLES || looks.last().judged_at >= settling.started
            + SETTLE_CAP_MS,
    ensures
        decided(settling, looks) is Some,
{
    watching_remembers(settling, looks.drop_last());
}

/// A settle is given up on only at its last look or once its time is up: before that,
/// a view that is not stable is looked at again.
pub proof fn a_settle_is_given_its_time(settling: Settling, looks: Seq<Look>)
    requires
        settling.fresh(),
        0 < looks.len() <= MAX_SETTLE_SAMPLES,
        decided(settling, looks) == Some(Settle::Timeout),
    ensures
        looks.len() == MAX_SETTLE_SAMPLES || looks.last().judged_at >= settling.started
            + SETTLE_CAP_MS,
{
    watching_remembers(settling, looks.drop_last());
}

/// A change is measured from the picture that was acted in where the first look covers
/// the same pixels of a picture of the same size, and from the first look otherwise;
/// no later look moves it.
pub proof fn a_change_is_measured_from_one_view(settling: Settling, looks: Seq<Look>)
    requires
        settling.fresh(),
        0 < looks.len() <= MAX_SETTLE_SAMPLES,
    ensures
        watched(settling, looks).baseline == (match settling.before {
            Some(before) => if looks[0].hash.rect == before.rect && looks[0].hash.frame
                == before.frame {
                Some(before)
            } else {
                Some(looks[0].hash)
            },
            None => Some(looks[0].hash),
        }),
{
    watching_remembers(settling, looks);
}

/// A wait for a view to change.
#[derive(Clone, Copy, Debug)]
pub struct Waiting {
    pub baseline: ViewHash,
    pub polling: Polling,
    pub deadline: u64,
}

impl Waiting {
    /// Whether a look shows a change. A look that cannot be compared at all is one:
    /// whatever was being watched, it is not what is there now.
    pub open spec fn shows_change(self, hash: ViewHash) -> bool {
        hash.change(self.baseline) != Some(false)
    }

    /// Starts waiting.
    pub fn new(baseline: ViewHash, now_ms: u64, polling: Polling) -> (r: Waiting)
        requires
            now_ms <= u64::MAX - polling.timeout_ms,
        ensures
            r == (Waiting { baseline, polling, deadline: (now_ms + polling.timeout_ms) as u64 }),
    {
        Waiting { baseline, polling, deadline: now_ms + polling.timeout_ms }
    }

    /// How long to sleep before the next look: never past the deadline.
    pub fn nap(&self, now_ms: u64) -> (r: u64)
        ensures
            r == self.polling.pause(now_ms, self.deadline),
            r <= self.polling.poll_ms,
            now_ms <= self.deadline ==> now_ms + r <= self.deadline,
    {
        self.polling.nap(now_ms, self.deadline)
    }

    /// Whether a look ends the wait, and if so whether it ended in a change.
    pub fn polled(&self, hash: ViewHash, now_ms: u64) -> (r: Option<bool>)
        ensures
            r == (if self.shows_change(hash) {
                Some(true)
            } else if now_ms >= self.deadline {
                Some(false)
            } else {
                None
            }),
    {
        let changed = match hash.changed_from(&self.baseline) {
            Some(changed) => changed,
            None => true,
        };
        if changed || now_ms >= self.deadline {
            Some(changed)
        } else {
            None
        }
    }
}

/// A wait goes on exactly while what is seen is what it began with, in every part, and
/// there is time left; it ends in no change only where the last look saw none.
pub proof fn only_the_same_view_is_waited_on(waiting: Waiting, hash: ViewHash)
    ensures
        waiting.shows_change(hash) <==> {
            ||| hash.pixels != waiting.baseline.pixels
            ||| hash.rect != waiting.baseline.rect
            ||| hash.frame != waiting.baseline.frame
        },
{
}

/// What a check says about the view it ended on: whether it changed since the image
/// the action was aimed in, where that image kept a hash that can be compared.
pub open spec fn change_since(before: Option<ViewHash>, after: ViewHash) -> Option<bool> {
    match before {
        Some(before) => after.change(before),
        None => None,
    }
}

/// Whether the view changed since the image the action was aimed in.
pub fn changed_since(before: Option<ViewHash>, after: ViewHash) -> (r: Option<bool>)
    ensures
        r == change_since(before, after),
        r is Some <==> (before matches Some(image) && image.rect == after.rect && image.frame
            == after.frame),
        r matches Some(changed) ==> (changed <==> before->0.pixels != after.pixels),
{
    match before {
        Some(before) => after.changed_from(&before),
        None => None,
    }
}

/// Watching counts its looks and remembers when the last began.
pub proof fn watching_counts_its_looks(settling: Settling, looks: Seq<Look>)
    requires
        settling.fresh(),
        0 < looks.len() <= MAX_SETTLE_SAMPLES,
    ensures
        watched(settling, looks).samples == looks.len(),
        watched(settling, looks).looked_at == looks.last().at,
        watched(settling, looks).previous == Some(looks.last().hash),
        watched(settling, looks).seen_change <==> moved(settling, looks),
        watched(settling, looks).started == settling.started,
        watched(settling, looks).quiet_until == settling.quiet_until,
{
    watching_remembers(settling, looks);
}

/// A settle takes at most thirty looks, and none after one that was judged a second and a
/// half after it began.
pub proof fn a_settle_is_short(settling: Settling, looks: Seq<Look>)
    requires
        settling.fresh(),
        0 < looks.len() <= 30,
    ensures
        looks.len() == 30 || looks.last().judged_at - settling.started >= 1_500 ==> decided(
            settling,
            looks,
        ) is Some,
        looks.len() < 30 && looks.last().judged_at - settling.started < 1_500 && decided(
            settling,
            looks,
        ) is Some ==> decided(settling, looks) == Some(Settle::Stable),
{
    watching_remembers(settling, looks.drop_last());
}

/// A rectangle is drawn in the whole pixels nearest to its sides.
pub proof fn a_rectangle_is_drawn_in_whole_pixels(region: Region)
    ensures
        ({
            let (x, y, w, h) = drawn(region);
            &&& -measure::UNIT <= 2 * (x * measure::UNIT - region.x) <= measure::UNIT
            &&& -measure::UNIT <= 2 * (y * measure::UNIT - region.y) <= measure::UNIT
            &&& -measure::UNIT <= 2 * (w * measure::UNIT - region.w) <= measure::UNIT
            &&& -measure::UNIT <= 2 * (h * measure::UNIT - region.h) <= measure::UNIT
        }),
{
    measure::a_length_rounds_to_the_nearest(region.x as int);
    measure::a_length_rounds_to_the_nearest(region.y as int);
    measure::a_length_rounds_to_the_nearest(region.w as int);
    measure::a_length_rounds_to_the_nearest(region.h as int);
}

/// A change since an image is known exactly where the image kept a hash of the same pixels of
/// a picture of the same size, and is that the pixels differ.
pub proof fn a_change_since_an_image_is_of_its_pixels(before: Option<ViewHash>, after: ViewHash)
    ensures
        change_since(before, after) is Some <==> before is Some && before->0.rect == after.rect
            && before->0.frame == after.frame,
        change_since(before, after) matches Some(changed) ==> (changed <==> before->0.pixels
            != after.pixels),
{
}

} // verus!
