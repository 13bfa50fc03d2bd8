//! One window's frames: what a sample is, what an after-action look will accept,
//! and the one picture that is kept.
//!
//! An idle sample is the window server saying "unchanged": it carries no pixels,
//! and the picture it is unchanged from is still the answer.

use vstd::prelude::*;

use crate::measure;
use crate::picture;
use crate::picture::Picture;
use crate::picture::PictureView;
use crate::text;
use crate::window_server::{self, Bounds};

verus! {

/// The pixel format every frame arrives in: BGRA, each row `stride` bytes, and
/// `stride` at least four times the width because a surface pads its rows.
pub const BYTES_PER_PIXEL: usize = 4;

/// At most ten frames a second.
pub const MAX_FRAMES_PER_SECOND: i32 = 10;

/// The native buffers the stream's own queue may hold.
pub const QUEUE_DEPTH: isize = 3;

/// How many frames' worth of memory one bound window may cost: the native buffers
/// plus the one copy the slot keeps.
pub const FRAMES_IN_FLIGHT: usize = 4;

/// The ceiling on that, 512 MiB.
pub const MAX_CAPTURE_BYTES: usize = 536_870_912;

/// How long a stream may say nothing at all before a look stops trusting the
/// picture it is holding.
pub const SILENCE_LIMIT_MS: u64 = 5_000;

/// What the window server says about the content of one frame.
#[derive(Clone, Copy, Debug, PartialEq, Eq, Structural)]
pub enum Health {
    /// A complete frame of the window.
    Live,
    /// The window has not changed, so the server sent no new pixels.
    Idle,
    /// The window is minimized or otherwise off screen.
    Minimized,
    /// The stream ended.
    Disconnected,
}

/// The status the window server attaches to a frame: 0 complete, 1 idle, 2 blank,
/// 3 suspended, 4 started, 5 stopped. One that cannot be read is not a picture.
pub open spec fn health_of(status: Option<i32>) -> Health {
    match status {
        Some(n) => if n == 0 || n == 4 {
            Health::Live
        } else if n == 1 {
            Health::Idle
        } else if n == 2 || n == 3 {
            Health::Minimized
        } else {
            Health::Disconnected
        },
        None => Health::Disconnected,
    }
}

/// One sample that is not a picture: everything it carries except pixels.
#[derive(Clone, Copy, Debug, PartialEq, Eq, Structural)]
pub struct Sample {
    pub status: Health,
    pub seq: u64,
    /// When the sample reached this process, on the monotonic clock.
    pub captured_at_ns: u128,
    /// When the window server displayed it, on the mach absolute time base.
    pub display_time_mach: Option<u64>,
}

/// One frame of one window.
#[derive(Debug)]
pub struct WindowFrame {
    /// BGRA, `stride` bytes per row.
    pub pixels: Vec<u8>,
    pub width: u32,
    pub height: u32,
    pub stride: usize,
    /// When this frame reached this process. Used for the silence bound, never for
    /// the fence.
    pub captured_at_ns: u128,
    /// When the window server displayed it: the fence's time half. A sample with
    /// none is never admitted rather than guessed at.
    pub display_time_mach: Option<u64>,
    /// One counter per stream, increasing: the fence's hard half.
    pub seq: u64,
    /// Where the content sits inside the surface, in millionths of a point. Read
    /// only to detect a surface its content does not fill.
    pub content_rect: Option<Bounds>,
    /// The display's pixels per point as it was reported, in millionths. Recorded
    /// for the diagnosis in a mismatch refusal and used for nothing else.
    pub reported_scale: Option<i64>,
    pub status: Health,
}

/// What a frame holds.
#[verifier::ext_equal]
pub struct WindowFrameView {
    pub pixels: Seq<u8>,
    pub width: u32,
    pub height: u32,
    pub stride: usize,
    pub captured_at_ns: u128,
    pub display_time_mach: Option<u64>,
    pub seq: u64,
    pub content_rect: Option<Bounds>,
    pub reported_scale: Option<i64>,
    pub status: Health,
}

impl View for WindowFrame {
    type V = WindowFrameView;

    open spec fn view(&self) -> WindowFrameView {
        WindowFrameView {
            pixels: self.pixels@,
            width: self.width,
            height: self.height,
            stride: self.stride,
            captured_at_ns: self.captured_at_ns,
            display_time_mach: self.display_time_mach,
            seq: self.seq,
            content_rect: self.content_rect,
            reported_scale: self.reported_scale,
            status: self.status,
        }
    }
}

/// A sample that is not a picture, as a frame with no pixels.
pub open spec fn blank_frame(sample: Sample) -> WindowFrameView {
    WindowFrameView {
        pixels: Seq::empty(),
        width: 0,
        height: 0,
        stride: 0,
        captured_at_ns: sample.captured_at_ns,
        display_time_mach: sample.display_time_mach,
        seq: sample.seq,
        content_rect: None,
        reported_scale: None,
        status: sample.status,
    }
}

/// Why a look could not answer with a picture.
#[derive(Debug, PartialEq, Eq)]
pub enum FrameError {
    /// The stream cannot answer at all, and will not without being restarted.
    Unavailable(String),
    /// The window is minimized or off screen: the remedy is to ask the person to
    /// bring it back.
    Minimized(String),
    /// Screen Recording was refused: an operator action, nothing to retry.
    Denied(String),
    /// A frame of this shape is more memory than a bound window may have.
    BudgetExceeded(String),
    /// No frame has passed the fence yet. Not a failure: the caller asks again.
    NotYet,
}

/// What a frame error says.
pub enum FrameErrorView {
    Unavailable(Seq<char>),
    Minimized(Seq<char>),
    Denied(Seq<char>),
    BudgetExceeded(Seq<char>),
    NotYet,
}

impl View for FrameError {
    type V = FrameErrorView;

    open spec fn view(&self) -> FrameErrorView {
        match self {
            FrameError::Unavailable(detail) => FrameErrorView::Unavailable(detail@),
            FrameError::Minimized(detail) => FrameErrorView::Minimized(detail@),
            FrameError::Denied(detail) => FrameErrorView::Denied(detail@),
            FrameError::BudgetExceeded(detail) => FrameErrorView::BudgetExceeded(detail@),
            FrameError::NotYet => FrameErrorView::NotYet,
        }
    }
}

/// The code of a frame error.
pub open spec fn frame_error_code(error: FrameErrorView) -> Seq<char> {
    match error {
        FrameErrorView::Unavailable(_) => "capture_unavailable"@,
        FrameErrorView::Minimized(_) => "target_minimized"@,
        FrameErrorView::Denied(_) => "screen_recording_not_granted"@,
        FrameErrorView::BudgetExceeded(_) => "capture_budget_exceeded"@,
        FrameErrorView::NotYet => "capture_unavailable"@,
    }
}

/// The sentence of a frame error.
pub open spec fn frame_error_detail(error: FrameErrorView) -> Seq<char> {
    match error {
        FrameErrorView::Unavailable(detail) => detail,
        FrameErrorView::Minimized(detail) => detail,
        FrameErrorView::Denied(detail) => detail,
        FrameErrorView::BudgetExceeded(detail) => detail,
        FrameErrorView::NotYet =>
            "no frame of that window arrived after the action was dispatched"@,
    }
}

impl FrameError {
    /// The wire code.
    pub fn code(&self) -> (r: &'static str)
        ensures
            r@ == frame_error_code(self@),
    {
        match self {
            FrameError::Unavailable(_) => "capture_unavailable",
            FrameError::Minimized(_) => "target_minimized",
            FrameError::Denied(_) => "screen_recording_not_granted",
            FrameError::BudgetExceeded(_) => "capture_budget_exceeded",
            FrameError::NotYet => "capture_unavailable",
        }
    }

    /// The sentence beside it.
    pub fn detail(&self) -> (r: String)
        ensures
            r@ == frame_error_detail(self@),
    {
        match self {
            FrameError::Unavailable(detail) => detail.clone(),
            FrameError::Minimized(detail) => detail.clone(),
            FrameError::Denied(detail) => detail.clone(),
            FrameError::BudgetExceeded(detail) => detail.clone(),
            FrameError::NotYet =>
                "no frame of that window arrived after the action was dispatched".to_owned(),
        }
    }

    fn copy(&self) -> (r: FrameError)
        ensures
            r@ == self@,
    {
        match self {
            FrameError::Unavailable(detail) => FrameError::Unavailable(detail.clone()),
            FrameError::Minimized(detail) => FrameError::Minimized(detail.clone()),
            FrameError::Denied(detail) => FrameError::Denied(detail.clone()),
            FrameError::BudgetExceeded(detail) => FrameError::BudgetExceeded(detail.clone()),
            FrameError::NotYet => FrameError::NotYet,
        }
    }
}

/// A failure of the capture service as this process reports it. A refused grant is
/// the one that earns its own code: its remedy is a trip to System Settings.
pub open spec fn classified(declined: bool, what: Seq<char>, error: Seq<char>) -> FrameErrorView {
    if declined {
        FrameErrorView::Denied(
            "Screen Recording is not granted to this helper, so no window can be captured. The user grants it in System Settings, Privacy & Security, Screen Recording, and computer use has to be restarted afterwards"@,
        )
    } else {
        FrameErrorView::Unavailable(what + ": "@ + error)
    }
}

/// A failure of the capture service: whether it was the grant, what was being
/// done, and how the service describes it.
pub fn classify(declined: bool, what: &str, error: &str) -> (r: FrameError)
    ensures
        r@ == classified(declined, what@, error@),
{
    if declined {
        FrameError::Denied(
            "Screen Recording is not granted to this helper, so no window can be captured. The user grants it in System Settings, Privacy & Security, Screen Recording, and computer use has to be restarted afterwards".to_owned(),
        )
    } else {
        let mut detail = what.to_owned();
        detail.append(": ");
        detail.append(error);
        FrameError::Unavailable(detail)
    }
}

/// The refusal a sample in this state answers with; none where the picture that is
/// held is still what the window looks like.
pub open spec fn health_refusal(health: Health) -> Option<FrameErrorView> {
    match health {
        Health::Live => None,
        Health::Idle => None,
        Health::Minimized => Some(
            FrameErrorView::Minimized(
                "the window is minimized or on another desktop, so there is nothing to see in it"@,
            ),
        ),
        Health::Disconnected => Some(
            FrameErrorView::Unavailable(
                "the window server stopped sending frames of that window"@,
            ),
        ),
    }
}

impl Health {
    /// Reads the status the window server attached to a frame.
    pub fn of_status(status: Option<i32>) -> (r: Health)
        ensures
            r == health_of(status),
    {
        match status {
            Some(n) => if n == 0 || n == 4 {
                Health::Live
            } else if n == 1 {
                Health::Idle
            } else if n == 2 || n == 3 {
                Health::Minimized
            } else {
                Health::Disconnected
            },
            None => Health::Disconnected,
        }
    }

    fn refusal(self) -> (r: Option<FrameError>)
        ensures
            match health_refusal(self) {
                Some(error) => r is Some && r->0@ == error,
                None => r is None,
            },
    {
        match self {
            Health::Live | Health::Idle => None,
            Health::Minimized => Some(
                FrameError::Minimized(
                    "the window is minimized or on another desktop, so there is nothing to see in it".to_owned(),
                ),
            ),
            Health::Disconnected => Some(
                FrameError::Unavailable(
                    "the window server stopped sending frames of that window".to_owned(),
                ),
            ),
        }
    }
}

/// A number that fits, or the largest that does.
pub open spec fn capped(n: int) -> nat {
    if n > usize::MAX {
        usize::MAX as nat
    } else {
        n as nat
    }
}

/// The sentence a frame past the budget is refused with.
pub open spec fn over_budget(stride: usize, height: u32) -> Seq<char> {
    let bytes = capped(stride * height);
    "one frame of this window is "@ + text::decimal(bytes) + " bytes ("@ + text::decimal(
        stride as nat,
    ) + " per row x "@ + text::decimal(height as nat) + " rows), and "@ + text::decimal(4)
        + " of them are "@ + text::decimal(capped(4 * bytes as int)) + ", past the "@ + text::decimal(
        MAX_CAPTURE_BYTES as nat,
    ) + " byte budget one bound window may have"@
}

/// A budget, with what it says in place of what it holds.
pub open spec fn budgeted(r: Result<usize, FrameError>) -> Result<usize, FrameErrorView> {
    match r {
        Ok(bytes) => Ok(bytes),
        Err(error) => Err(error@),
    }
}

/// The bytes of the pixels of one row, from where it starts, put in RGBA order.
pub open spec fn tight_row(pixels: Seq<u8>, start: int, width: nat) -> Seq<u8>
    decreases width,
{
    if width == 0 {
        Seq::empty()
    } else {
        let k = start + 4 * (width - 1);
        tight_row(pixels, start, (width - 1) as nat) + seq![
            pixels[k + 2],
            pixels[k + 1],
            pixels[k],
            pixels[k + 3],
        ]
    }
}

/// The rows of a padded BGRA surface as tight RGBA rows.
pub open spec fn tight_rows(pixels: Seq<u8>, stride: nat, width: nat, rows: nat) -> Seq<u8>
    decreases rows,
{
    if rows == 0 {
        Seq::empty()
    } else {
        tight_rows(pixels, stride, width, (rows - 1) as nat) + tight_row(
            pixels,
            (rows - 1) * stride,
            width,
        )
    }
}

/// Whether a frame's numbers describe a picture.
pub open spec fn describes_a_picture(frame: WindowFrameView) -> bool {
    &&& frame.width > 0
    &&& frame.stride >= 4 * frame.width
    &&& frame.pixels.len() >= frame.stride * frame.height
}

/// The refusal of a frame whose numbers do not describe a picture.
pub open spec fn no_picture(frame: WindowFrameView) -> FrameErrorView {
    FrameErrorView::Unavailable(
        "the frame does not describe a picture: "@ + text::decimal(frame.width as nat) + "x"@
            + text::decimal(frame.height as nat) + " at "@ + text::decimal(frame.stride as nat)
            + " bytes a row in "@ + text::decimal(frame.pixels.len()) + " bytes"@,
    )
}

proof fn tight_rows_len(pixels: Seq<u8>, stride: nat, width: nat, rows: nat)
    ensures
        tight_rows(pixels, stride, width, rows).len() == 4 * width * rows,
    decreases rows,
{
    if rows > 0 {
        let above = (rows - 1) as nat;
        tight_rows_len(pixels, stride, width, above);
        tight_row_len(pixels, (rows - 1) * stride, width);
        assert(4 * width * rows == 4 * width * above + 4 * width) by (nonlinear_arith)
            requires
                rows == above + 1,
        ;
    } else {
        assert(4 * width * rows == 0) by (nonlinear_arith)
            requires
                rows == 0,
        ;
    }
}

proof fn tight_row_len(pixels: Seq<u8>, start: int, width: nat)
    ensures
        tight_row(pixels, start, width).len() == 4 * width,
    decreases width,
{
    if width > 0 {
        tight_row_len(pixels, start, (width - 1) as nat);
    }
}

impl WindowFrame {
    /// The bytes one frame of this shape costs, and the refusal when that is more
    /// than a bound window may have. Asked before anything is allocated.
    pub fn budget(stride: usize, height: u32) -> (r: Result<usize, FrameError>)
        ensures
            budgeted(r) == (if 4 * (stride * height) <= MAX_CAPTURE_BYTES {
                Ok((stride * height) as usize)
            } else {
                Err(FrameErrorView::BudgetExceeded(over_budget(stride, height)))
            }),
    {
        assert(0 <= stride * height <= usize::MAX * u32::MAX) by (nonlinear_arith)
            requires
                0 <= stride <= usize::MAX,
                0 <= height <= u32::MAX,
        ;
        let product: u128 = stride as u128 * height as u128;
        let bytes: usize = if product > usize::MAX as u128 {
            usize::MAX
        } else {
            product as usize
        };
        let fourfold: u128 = bytes as u128 * 4;
        let total: usize = if fourfold > usize::MAX as u128 {
            usize::MAX
        } else {
            fourfold as usize
        };
        if total > MAX_CAPTURE_BYTES {
            let mut detail = "one frame of this window is ".to_owned();
            detail.append(text::write_decimal(bytes as u64).as_str());
            detail.append(" bytes (");
            detail.append(text::write_decimal(stride as u64).as_str());
            detail.append(" per row x ");
            detail.append(text::write_decimal(height as u64).as_str());
            detail.append(" rows), and ");
            detail.append(text::write_decimal(FRAMES_IN_FLIGHT as u64).as_str());
            detail.append(" of them are ");
            detail.append(text::write_decimal(total as u64).as_str());
            detail.append(", past the ");
            detail.append(text::write_decimal(MAX_CAPTURE_BYTES as u64).as_str());
            detail.append(" byte budget one bound window may have");
            return Err(FrameError::BudgetExceeded(detail));
        }
        Ok(bytes)
    }

    /// A sample that is not a picture, kept as a frame so it can be reported when
    /// there are no pixels to keep instead.
    pub fn without_pixels(sample: Sample) -> (r: WindowFrame)
        ensures
            r@ == blank_frame(sample),
    {
        WindowFrame {
            pixels: Vec::new(),
            width: 0,
            height: 0,
            stride: 0,
            captured_at_ns: sample.captured_at_ns,
            display_time_mach: sample.display_time_mach,
            seq: sample.seq,
            content_rect: None,
            reported_scale: None,
            status: sample.status,
        }
    }

    /// A copy of the frame.
    pub fn copy(&self) -> (r: WindowFrame)
        ensures
            r@ == self@,
    {
        let pixels = self.pixels.clone();
        assert(pixels@ =~= self.pixels@);
        WindowFrame {
            pixels,
            width: self.width,
            height: self.height,
            stride: self.stride,
            captured_at_ns: self.captured_at_ns,
            display_time_mach: self.display_time_mach,
            seq: self.seq,
            content_rect: self.content_rect,
            reported_scale: self.reported_scale,
            status: self.status,
        }
    }

    /// The frame's pixels as tight RGBA rows: row padding dropped and the channels
    /// put in order.
    pub fn to_rgba(&self) -> (r: Result<Picture, FrameError>)
        ensures
            r is Ok <==> describes_a_picture(self@),
            r is Ok <==> self.width > 0 && self.stride >= 4 * self.width && self.pixels@.len()
                >= self.stride * self.height,
            r matches Ok(picture) ==> picture@ == (PictureView {
                width: self.width as nat,
                height: self.height as nat,
                bytes: tight_rows(
                    self.pixels@,
                    self.stride as nat,
                    self.width as nat,
                    self.height as nat,
                ),
            }) && picture@.whole(),
            r matches Err(error) ==> error@ == no_picture(self@),
    {
        let needed: u64 = self.width as u64 * 4;
        assert(0 <= self.stride * self.height <= usize::MAX * u32::MAX) by (nonlinear_arith)
            requires
                0 <= self.stride <= usize::MAX,
                0 <= self.height <= u32::MAX,
        ;
        let surface: u128 = self.stride as u128 * self.height as u128;
        if self.width == 0 || (self.stride as u64) < needed || (self.pixels.len() as u128)
            < surface {
            let mut detail = "the frame does not describe a picture: ".to_owned();
            detail.append(text::write_decimal(self.width as u64).as_str());
            detail.append("x");
            detail.append(text::write_decimal(self.height as u64).as_str());
            detail.append(" at ");
            detail.append(text::write_decimal(self.stride as u64).as_str());
            detail.append(" bytes a row in ");
            detail.append(text::write_decimal(self.pixels.len() as u64).as_str());
            detail.append(" bytes");
            return Err(FrameError::Unavailable(detail));
        }
        let width: usize = self.width as usize;
        let size: usize = self.pixels.len();
        let mut out: Vec<u8> = Vec::new();
        let mut row: u32 = 0;
        let mut start: usize = 0;
        while row < self.height
            invariant
                row <= self.height,
                width == self.width,
                start == row * self.stride,
                size == self.pixels@.len(),
                self.stride * self.height <= size,
                4 * self.width <= self.stride,
                out@ == tight_rows(
                    self.pixels@,
                    self.stride as nat,
                    self.width as nat,
                    row as nat,
                ),
            decreases self.height - row,
        {
            assert(row * self.stride + self.stride == (row + 1) * self.stride) by (nonlinear_arith);
            assert((row + 1) * self.stride <= self.height * self.stride) by (nonlinear_arith)
                requires
                    row + 1 <= self.height,
                    0 <= self.stride,
            ;
            assert(self.height * self.stride == self.stride * self.height) by (nonlinear_arith);
            let mut column: usize = 0;
            let mut at: usize = start;
            let ghost above = out@;
            assert(out@ =~= above + tight_row(self.pixels@, start as int, 0));
            while column < width
                invariant
                    column <= width,
                    width == self.width,
                    4 * self.width <= self.stride,
                    size == self.pixels@.len(),
                    start + self.stride <= size,
                    at == start + 4 * column,
                    out@ == above + tight_row(self.pixels@, start as int, column as nat),
                decreases width - column,
            {
                out.push(self.pixels[at + 2]);
                out.push(self.pixels[at + 1]);
                out.push(self.pixels[at]);
                out.push(self.pixels[at + 3]);
                assert(out@ =~= above + tight_row(
                    self.pixels@,
                    start as int,
                    (column + 1) as nat,
                ));
                column += 1;
                at += 4;
            }
            row += 1;
            start += self.stride;
        }
        proof {
            tight_rows_len(
                self.pixels@,
                self.stride as nat,
                self.width as nat,
                self.height as nat,
            );
        }
        let made = Picture::new(self.width, self.height, out);
        match made {
            Some(picture) => Ok(picture),
            None => Err(
                FrameError::Unavailable("the converted frame is not a whole image".to_owned()),
            ),
        }
    }
}

/// What an after-action look will accept.
#[derive(Clone, Copy, Debug, PartialEq, Eq, Structural)]
pub struct Fence {
    /// The instant the input was dispatched, on the mach absolute time base: the
    /// base a frame's display time arrives on.
    pub after_mach: u64,
    /// The sequence of the frame the action was aimed in.
    pub beyond_seq: u64,
}

impl Fence {
    /// Whether a frame is newer than the picture the action was aimed in and was
    /// displayed after the action. One with no display time is never taken for
    /// one that was.
    pub open spec fn passes(self, frame: WindowFrameView) -> bool {
        &&& frame.seq > self.beyond_seq
        &&& frame.display_time_mach matches Some(shown) && shown > self.after_mach
    }

    /// Does this frame answer the question the fence is guarding?
    pub fn admits(&self, frame: &WindowFrame) -> (r: bool)
        ensures
            r == self.passes(frame@),
    {
        let shown_after = match frame.display_time_mach {
            Some(shown) => shown > self.after_mach,
            None => false,
        };
        frame.seq > self.beyond_seq && shown_after
    }
}

/// The window a stream is opened on, and the surface it is opened at, in real
/// pixels. The size is a request, never a promise.
#[derive(Clone, Copy, Debug, PartialEq, Eq, Structural)]
pub struct StreamWindow {
    pub id: u32,
    pub width: u32,
    pub height: u32,
}

/// One window's frames.
pub trait WindowFrames {
    /// Opens the stream. `Err` is a start that failed, and nothing is left running.
    fn start(&self, window: StreamWindow) -> Result<(), FrameError>;

    /// The newest frame, or why there is not one. `after` is the fence an
    /// after-action look is held to; a look with none takes whatever is there.
    fn latest(&self, after: Option<Fence>) -> Result<WindowFrame, FrameError>;

    /// Closes the stream and lets go of every buffer. Safe to call twice.
    fn stop(&self);
}

/// A host with no window capture this build speaks. A typed refusal rather than an
/// empty stream.
#[derive(Clone, Copy, Debug)]
pub struct Unsupported;

/// The refusal of a host with no window capture.
pub open spec fn unsupported() -> FrameErrorView {
    FrameErrorView::Unavailable("window capture is only supported on macOS"@)
}

impl WindowFrames for Unsupported {
    fn start(&self, window: StreamWindow) -> (r: Result<(), FrameError>)
        ensures
            r is Err && r->Err_0@ == unsupported(),
    {
        Err(FrameError::Unavailable("window capture is only supported on macOS".to_owned()))
    }

    fn latest(&self, after: Option<Fence>) -> (r: Result<WindowFrame, FrameError>)
        ensures
            r is Err && r->Err_0@ == unsupported(),
    {
        Err(FrameError::Unavailable("window capture is only supported on macOS".to_owned()))
    }

    fn stop(&self) {
    }
}

/// The one picture kept, the counter that stamps every sample, and any standing
/// fault the delivery side recorded.
#[derive(Debug)]
pub struct Slot {
    held: Option<WindowFrame>,
    /// Whether a picture was ever kept, and what is held is therefore one.
    pictured: bool,
    seq: u64,
    condition: Option<FrameError>,
}

/// What a slot holds.
#[verifier::ext_equal]
pub struct SlotView {
    pub held: Option<WindowFrameView>,
    pub pictured: bool,
    pub seq: u64,
    pub condition: Option<FrameErrorView>,
}

impl View for Slot {
    type V = SlotView;

    closed spec fn view(&self) -> SlotView {
        SlotView {
            held: match self.held {
                Some(frame) => Some(frame@),
                None => None,
            },
            pictured: self.pictured,
            seq: self.seq,
            condition: match self.condition {
                Some(error) => Some(error@),
                None => None,
            },
        }
    }
}

/// What is held after a sample that carried no pixels. The picture is kept and only
/// the sample's own facts move on. With nothing held, an idle sample is about a
/// picture nobody has; any other is a standing fact.
pub open spec fn noted(held: Option<WindowFrameView>, sample: Sample) -> Option<WindowFrameView> {
    match held {
        Some(frame) => Some(
            WindowFrameView {
                status: sample.status,
                seq: sample.seq,
                captured_at_ns: sample.captured_at_ns,
                display_time_mach: sample.display_time_mach,
                ..frame
            },
        ),
        None => if sample.status == Health::Idle {
            None
        } else {
            Some(blank_frame(sample))
        },
    }
}

/// The fault that stands after another was recorded: the first, because it is the
/// cause.
pub open spec fn faulted(
    condition: Option<FrameErrorView>,
    error: FrameErrorView,
) -> Option<FrameErrorView> {
    match condition {
        Some(first) => Some(first),
        None => Some(error),
    }
}

/// How long a stream has said nothing.
pub open spec fn silence(frame: WindowFrameView, now_ns: u128) -> int {
    if now_ns >= frame.captured_at_ns {
        now_ns - frame.captured_at_ns
    } else {
        0
    }
}

/// The refusal of a stream that has said nothing for too long.
pub open spec fn gone_silent(silent_ns: int) -> FrameErrorView {
    FrameErrorView::Unavailable(
        "the window capture has sent nothing for "@ + text::decimal((silent_ns / 1_000_000) as nat)
            + " ms, past the "@ + text::decimal(SILENCE_LIMIT_MS as nat)
            + " ms this build waits before it stops trusting the last frame"@,
    )
}

/// What a look at a slot answers: the standing fault, that there is nothing yet,
/// what the last sample refuses, that no picture was ever kept that the sample could be
/// about, that the stream went silent, that nothing passed the fence, and else the picture.
pub open spec fn looked(
    slot: SlotView,
    after: Option<Fence>,
    now_ns: u128,
) -> Result<WindowFrameView, FrameErrorView> {
    match slot.condition {
        Some(error) => Err(error),
        None => match slot.held {
            None => Err(FrameErrorView::NotYet),
            Some(frame) => match health_refusal(frame.status) {
                Some(error) => Err(error),
                None => if !slot.pictured {
                    Err(FrameErrorView::NotYet)
                } else if silence(frame, now_ns) > SILENCE_LIMIT_MS * 1_000_000 {
                    Err(gone_silent(silence(frame, now_ns)))
                } else {
                    match after {
                        Some(fence) => if fence.passes(frame) {
                            Ok(frame)
                        } else {
                            Err(FrameErrorView::NotYet)
                        },
                        None => Ok(frame),
                    }
                },
            },
        },
    }
}

/// A look, with what it says in place of what it holds.
pub open spec fn look_of(r: Result<WindowFrame, FrameError>) -> Result<
    WindowFrameView,
    FrameErrorView,
> {
    match r {
        Ok(frame) => Ok(frame@),
        Err(error) => Err(error@),
    }
}

/// What the window server attached to one sample.
#[derive(Clone, Copy, Debug)]
pub struct FrameInfo {
    pub status: Health,
    pub display_time_mach: Option<u64>,
    pub content_rect: Option<Bounds>,
    pub scale: Option<i64>,
}

/// What the window server attached to a frame, as it was read: a status, the moment
/// the frame was shown, the rectangle the content covers and the display's scale, the
/// last two as doubles given by their bits.
#[derive(Clone, Copy, Debug)]
pub struct Attachment {
    pub status: Option<i32>,
    pub display_time: Option<i64>,
    pub content_rect: Option<(u64, u64, u64, u64)>,
    pub scale: Option<u64>,
}

/// What an attachment says of its frame. A frame with none readable is no picture.
pub open spec fn frame_info_of(attachment: Option<Attachment>) -> FrameInfo {
    match attachment {
        None => FrameInfo {
            status: Health::Disconnected,
            display_time_mach: None,
            content_rect: None,
            scale: None,
        },
        Some(read) => FrameInfo {
            status: health_of(read.status),
            display_time_mach: match read.display_time {
                Some(shown) => if shown >= 0 {
                    Some(shown as u64)
                } else {
                    None
                },
                None => None,
            },
            content_rect: match read.content_rect {
                Some((x, y, w, h)) => window_server::bounds_of(
                    Some(x),
                    Some(y),
                    Some(w),
                    Some(h),
                ),
                None => None,
            },
            scale: match read.scale {
                Some(scale) => if 0 < scale < 0x7FF0_0000_0000_0000 {
                    Some(measure::millionths(scale) as i64)
                } else {
                    None
                },
                None => None,
            },
        },
    }
}

/// Reads what the window server attached to a frame.
pub fn frame_info(attachment: Option<Attachment>) -> (r: FrameInfo)
    ensures
        r == frame_info_of(attachment),
{
    match attachment {
        None => FrameInfo {
            status: Health::Disconnected,
            display_time_mach: None,
            content_rect: None,
            scale: None,
        },
        Some(read) => {
            let display_time_mach: Option<u64> = match read.display_time {
                Some(shown) => if shown >= 0 {
                    Some(shown as u64)
                } else {
                    None
                },
                None => None,
            };
            let content_rect = match read.content_rect {
                Some((x, y, w, h)) => window_server::read_bounds(Some(x), Some(y), Some(w), Some(h)),
                None => None,
            };
            let scale: Option<i64> = match read.scale {
                Some(scale) => if 0 < scale && scale < 0x7FF0_0000_0000_0000 {
                    Some(measure::from_double(scale))
                } else {
                    None
                },
                None => None,
            };
            FrameInfo {
                status: Health::of_status(read.status),
                display_time_mach,
                content_rect,
                scale,
            }
        },
    }
}

/// A sample stamped with its place in the stream and the moment it arrived.
pub open spec fn stamped_sample(info: FrameInfo, seq: u64, at_ns: u128) -> Sample {
    Sample {
        status: info.status,
        seq,
        captured_at_ns: at_ns,
        display_time_mach: info.display_time_mach,
    }
}

impl Slot {
    pub fn new() -> (r: Slot)
        ensures
            r@ == (SlotView { held: None, pictured: false, seq: 0, condition: None }),
    {
        Slot { held: None, pictured: false, seq: 0, condition: None }
    }

    /// The next sequence number: the stream's own count of samples delivered,
    /// whatever happens to the sample afterwards.
    pub fn next_seq(&mut self) -> (r: u64)
        requires
            old(self)@.seq < u64::MAX,
        ensures
            r == old(self)@.seq + 1,
            final(self)@ == (SlotView { seq: r, ..old(self)@ }),
    {
        self.seq = self.seq + 1;
        self.seq
    }

    /// Whether there is a number left to stamp a sample with.
    pub fn can_count(&self) -> (r: bool)
        ensures
            r == (self@.seq < u64::MAX),
    {
        self.seq < u64::MAX
    }

    /// Keeps this picture, dropping whatever was there.
    pub fn offer(&mut self, frame: WindowFrame)
        ensures
            final(self)@ == (SlotView { held: Some(frame@), pictured: true, ..old(self)@ }),
    {
        self.held = Some(frame);
        self.pictured = true;
    }

    /// A sample that carried no pixels.
    pub fn note(&mut self, sample: Sample)
        ensures
            final(self)@ == (SlotView { held: noted(old(self)@.held, sample), ..old(self)@ }),
    {
        let held = self.held.take();
        match held {
            Some(frame) => {
                let mut moved = frame;
                moved.status = sample.status;
                moved.seq = sample.seq;
                moved.captured_at_ns = sample.captured_at_ns;
                moved.display_time_mach = sample.display_time_mach;
                self.held = Some(moved);
            },
            None => {
                if sample.status != Health::Idle {
                    self.held = Some(WindowFrame::without_pixels(sample));
                }
            },
        }
    }

    /// Records a fault the delivery side could not answer from. The first stands.
    pub fn fault(&mut self, error: FrameError)
        ensures
            final(self)@ == (SlotView {
                condition: faulted(old(self)@.condition, error@),
                ..old(self)@
            }),
    {
        if self.condition.is_none() {
            self.condition = Some(error);
        }
    }

    /// The frame the slot holds, if there is nothing standing against it and it
    /// satisfies the fence. A copy, so a view that has stopped changing keeps
    /// answering the same picture.
    pub fn peek(&self, after: Option<Fence>, now_ns: u128) -> (r: Result<WindowFrame, FrameError>)
        ensures
            look_of(r) == looked(self@, after, now_ns),
    {
        if let Some(condition) = &self.condition {
            return Err(condition.copy());
        }
        let frame = match &self.held {
            Some(frame) => frame,
            None => return Err(FrameError::NotYet),
        };
        if let Some(refusal) = frame.status.refusal() {
            return Err(refusal);
        }
        if !self.pictured {
            return Err(FrameError::NotYet);
        }
        let silent_ns: u128 = if now_ns >= frame.captured_at_ns {
            now_ns - frame.captured_at_ns
        } else {
            0
        };
        if silent_ns > SILENCE_LIMIT_MS as u128 * 1_000_000 {
            let mut detail = "the window capture has sent nothing for ".to_owned();
            detail.append(text::write_decimal_wide(silent_ns / 1_000_000).as_str());
            detail.append(" ms, past the ");
            detail.append(text::write_decimal(SILENCE_LIMIT_MS).as_str());
            detail.append(" ms this build waits before it stops trusting the last frame");
            return Err(FrameError::Unavailable(detail));
        }
        match after {
            Some(fence) => if fence.admits(frame) {
                Ok(frame.copy())
            } else {
                Err(FrameError::NotYet)
            },
            None => Ok(frame.copy()),
        }
    }

    /// Lets go of the frame and of any standing fault, so a released target holds
    /// no pixels and a restarted stream is not refused for the one before it.
    pub fn clear(&mut self)
        ensures
            final(self)@ == (SlotView {
                held: None,
                pictured: false,
                condition: None,
                ..old(self)@
            }),
    {
        self.held = None;
        self.pictured = false;
        self.condition = None;
    }

    /// A sample has arrived. One that is no picture is noted and done with; of one
    /// that is, the stamp its pixels are to be kept under comes back.
    pub fn take_sample(&mut self, info: &FrameInfo, at_ns: u128) -> (r: Option<Sample>)
        requires
            old(self)@.seq < u64::MAX,
        ensures
            ({
                let seq = (old(self)@.seq + 1) as u64;
                let sample = stamped_sample(*info, seq, at_ns);
                if info.status == Health::Live {
                    &&& r == Some(sample)
                    &&& final(self)@ == (SlotView { seq, ..old(self)@ })
                } else {
                    &&& r is None
                    &&& final(self)@ == (SlotView {
                        seq,
                        held: noted(old(self)@.held, sample),
                        ..old(self)@
                    })
                }
            }),
    {
        let sample = Sample {
            status: info.status,
            seq: self.next_seq(),
            captured_at_ns: at_ns,
            display_time_mach: info.display_time_mach,
        };
        if info.status != Health::Live {
            self.note(sample);
            return None;
        }
        Some(sample)
    }

    /// How many bytes to copy out of a surface of this shape. One past the budget
    /// is recorded as the fault it is and nothing is copied.
    pub fn make_room(&mut self, stride: usize, height: u32) -> (r: Option<usize>)
        ensures
            4 * (stride * height) <= MAX_CAPTURE_BYTES ==> r == Some((stride * height) as usize)
                && final(self)@ == old(self)@,
            4 * (stride * height) > MAX_CAPTURE_BYTES ==> r is None && final(self)@ == (SlotView {
                condition: faulted(
                    old(self)@.condition,
                    FrameErrorView::BudgetExceeded(over_budget(stride, height)),
                ),
                ..old(self)@
            }),
    {
        match WindowFrame::budget(stride, height) {
            Ok(bytes) => Some(bytes),
            Err(over) => {
                self.fault(over);
                None
            },
        }
    }

    /// The pixels of a sample, kept under its stamp.
    pub fn keep_picture(
        &mut self,
        sample: Sample,
        info: &FrameInfo,
        pixels: Vec<u8>,
        width: u32,
        height: u32,
        stride: usize,
    )
        ensures
            final(self)@ == (SlotView {
                held: Some(
                    WindowFrameView {
                        pixels: pixels@,
                        width,
                        height,
                        stride,
                        captured_at_ns: sample.captured_at_ns,
                        display_time_mach: sample.display_time_mach,
                        seq: sample.seq,
                        content_rect: info.content_rect,
                        reported_scale: info.scale,
                        status: Health::Live,
                    },
                ),
                pictured: true,
                ..old(self)@
            }),
    {
        self.offer(
            WindowFrame {
                pixels,
                width,
                height,
                stride,
                captured_at_ns: sample.captured_at_ns,
                display_time_mach: sample.display_time_mach,
                seq: sample.seq,
                content_rect: info.content_rect,
                reported_scale: info.scale,
                status: Health::Live,
            },
        );
    }
}

/// A stream of one window: its slot, and whether the server is delivering into it.
#[derive(Debug)]
pub struct Stream {
    pub slot: Slot,
    pub running: bool,
}

/// A step of opening a stream that the window server answers.
#[derive(Debug)]
pub enum Opened {
    /// The server is delivering.
    Started,
    /// A step was refused.
    Refused(FrameError),
    /// The server did not answer in time.
    Silent,
}

/// What a start answers, of how the server took it.
pub open spec fn start_answer(opened: Opened) -> Result<(), FrameErrorView> {
    match opened {
        Opened::Started => Ok(()),
        Opened::Refused(error) => Err(error@),
        Opened::Silent => Err(
            FrameErrorView::Unavailable("the window capture did not start in time"@),
        ),
    }
}

impl Stream {
    pub fn new() -> (r: Stream)
        ensures
            !r.running,
            r.slot@ == (SlotView { held: None, pictured: false, seq: 0, condition: None }),
    {
        Stream { slot: Slot::new(), running: false }
    }

    /// How the server took a start that was asked of it after any stream before it
    /// was stopped. Only one it answered leaves anything running.
    pub fn start(&mut self, opened: Opened) -> (r: Result<(), FrameError>)
        ensures
            match r {
                Ok(()) => start_answer(opened) == Ok::<(), FrameErrorView>(()),
                Err(error) => start_answer(opened) == Err::<(), FrameErrorView>(error@),
            },
            r is Ok <==> opened is Started,
            final(self).running == (opened is Started),
            final(self).slot == old(self).slot,
    {
        self.running = false;
        match opened {
            Opened::Started => {
                self.running = true;
                Ok(())
            },
            Opened::Refused(error) => Err(error),
            Opened::Silent => Err(
                FrameError::Unavailable("the window capture did not start in time".to_owned()),
            ),
        }
    }

    /// The newest frame. A stream that is not running answers nothing.
    pub fn latest(&self, after: Option<Fence>, now_ns: u128) -> (r: Result<
        WindowFrame,
        FrameError,
    >)
        ensures
            look_of(r) == (if self.running {
                looked(self.slot@, after, now_ns)
            } else {
                Err(FrameErrorView::Unavailable("no window capture is running"@))
            }),
    {
        if !self.running {
            return Err(FrameError::Unavailable("no window capture is running".to_owned()));
        }
        self.slot.peek(after, now_ns)
    }

    /// The stream is closed and every buffer let go of. Safe to call twice.
    pub fn stop(&mut self)
        ensures
            !final(self).running,
            final(self).slot@ == (SlotView {
                held: None,
                pictured: false,
                condition: None,
                ..old(self).slot@
            }),
    {
        self.running = false;
        self.slot.clear();
    }
}

/// A frame from before the action never passes the fence, whichever half catches
/// it, and neither does one that carries no display time.
pub proof fn a_frame_from_before_never_passes(fence: Fence, frame: WindowFrameView)
    ensures
        frame.seq <= fence.beyond_seq ==> !fence.passes(frame),
        frame.display_time_mach matches Some(shown) && shown <= fence.after_mach ==> !fence.passes(
            frame,
        ),
        frame.display_time_mach is None ==> !fence.passes(frame),
{
}

/// A sample with no pixels never costs the picture that is held: its pixels and its
/// shape stay, and only the sample's own facts move on.
pub proof fn a_sample_keeps_the_picture(frame: WindowFrameView, sample: Sample)
    ensures
        noted(Some(frame), sample) matches Some(after) && {
            &&& after.pixels == frame.pixels
            &&& after.width == frame.width
            &&& after.height == frame.height
            &&& after.stride == frame.stride
            &&& after.content_rect == frame.content_rect
            &&& after.reported_scale == frame.reported_scale
            &&& after.seq == sample.seq
            &&& after.status == sample.status
        },
{
}

/// An unchanged window is an answer, not a timeout: an idle sample displayed after
/// the action passes the fence, and the look answers the picture it says is
/// unchanged.
pub proof fn an_idle_sample_answers_the_fence(
    slot: SlotView,
    frame: WindowFrameView,
    sample: Sample,
    fence: Fence,
    now_ns: u128,
)
    requires
        slot.condition is None,
        slot.held == Some(frame),
        slot.pictured,
        sample.status == Health::Idle,
        sample.seq > fence.beyond_seq,
        sample.display_time_mach matches Some(shown) && shown > fence.after_mach,
        sample.captured_at_ns <= now_ns,
        now_ns - sample.captured_at_ns <= SILENCE_LIMIT_MS * 1_000_000,
    ensures
        looked(
            SlotView { held: noted(slot.held, sample), ..slot },
            Some(fence),
            now_ns,
        ) == Ok::<WindowFrameView, FrameErrorView>(
            WindowFrameView {
                status: sample.status,
                seq: sample.seq,
                captured_at_ns: sample.captured_at_ns,
                display_time_mach: sample.display_time_mach,
                ..frame
            },
        ),
{
}

/// A picture that was kept live is answered as it was kept, whatever its size, once
/// nothing stands against it: only a fault, the silence of the stream and the fence
/// decide.
pub proof fn a_live_picture_is_answered(
    slot: SlotView,
    frame: WindowFrameView,
    after: Option<Fence>,
    now_ns: u128,
)
    requires
        slot.condition is None,
        frame.status == Health::Live,
        silence(frame, now_ns) <= SILENCE_LIMIT_MS * 1_000_000,
        after matches Some(fence) ==> fence.passes(frame),
    ensures
        looked(SlotView { held: Some(frame), pictured: true, ..slot }, after, now_ns) == Ok::<
            WindowFrameView,
            FrameErrorView,
        >(frame),
{
}

/// The first fault stands, whatever is recorded after it, and no look answers a
/// picture past it.
pub proof fn the_first_fault_stands(
    slot: SlotView,
    first: FrameErrorView,
    later: FrameErrorView,
    after: Option<Fence>,
    now_ns: u128,
)
    requires
        slot.condition is None,
    ensures
        faulted(faulted(slot.condition, first), later) == Some(first),
        looked(
            SlotView { condition: faulted(faulted(slot.condition, first), later), ..slot },
            after,
            now_ns,
        ) == Err::<WindowFrameView, FrameErrorView>(first),
{
}

/// A picture that is answered is one the window still looks like: it was kept as a
/// picture, the last sample was live or idle, the stream has not gone silent, and it
/// passed the fence.
pub proof fn an_answer_is_present_and_fenced(slot: SlotView, after: Option<Fence>, now_ns: u128)
    ensures
        looked(slot, after, now_ns) matches Ok(frame) ==> {
            &&& slot.held == Some(frame)
            &&& slot.condition is None
            &&& slot.pictured
            &&& frame.status == Health::Live || frame.status == Health::Idle
            &&& silence(frame, now_ns) <= SILENCE_LIMIT_MS * 1_000_000
            &&& after matches Some(fence) ==> fence.passes(frame)
        },
{
}

/// What is held after a run of samples that carried no pixels.
pub open spec fn all_noted(held: Option<WindowFrameView>, samples: Seq<Sample>) -> Option<
    WindowFrameView,
>
    decreases samples.len(),
{
    if samples.len() == 0 {
        held
    } else {
        noted(all_noted(held, samples.drop_last()), samples.last())
    }
}

/// Samples without pixels never make a picture: a stream that has delivered nothing
/// else is never answered with one, whatever they said and in whatever order.
pub proof fn no_picture_without_pixels(
    slot: SlotView,
    samples: Seq<Sample>,
    after: Option<Fence>,
    now_ns: u128,
)
    requires
        slot.held is None,
        !slot.pictured,
    ensures
        looked(
            SlotView { held: all_noted(slot.held, samples), ..slot },
            after,
            now_ns,
        ) is Err,
        slot.condition is None && samples.len() > 0 && samples.last().status == Health::Idle
            ==> looked(
            SlotView { held: all_noted(slot.held, samples), ..slot },
            after,
            now_ns,
        ) == Err::<WindowFrameView, FrameErrorView>(FrameErrorView::NotYet),
{
    nothing_kept(samples);
}

proof fn nothing_kept(samples: Seq<Sample>)
    ensures
        all_noted(None, samples) matches Some(frame) ==> {
            &&& samples.len() > 0
            &&& frame.status == samples.last().status
        },
    decreases samples.len(),
{
    if samples.len() > 0 {
        nothing_kept(samples.drop_last());
    }
}

proof fn tight_row_pixel(pixels: Seq<u8>, start: int, width: nat, x: int)
    requires
        0 <= x < width,
    ensures
        ({
            let row = tight_row(pixels, start, width);
            let k = start + 4 * x;
            &&& row.len() == 4 * width
            &&& row[4 * x] == pixels[k + 2]
            &&& row[4 * x + 1] == pixels[k + 1]
            &&& row[4 * x + 2] == pixels[k]
            &&& row[4 * x + 3] == pixels[k + 3]
        }),
    decreases width,
{
    tight_row_len(pixels, start, (width - 1) as nat);
    tight_row_len(pixels, start, width);
    if x < width - 1 {
        tight_row_pixel(pixels, start, (width - 1) as nat, x);
    }
}

/// A pixel of the converted picture is the pixel the surface has in that place, its
/// channels put in order, whatever the rows are padded to.
pub proof fn a_pixel_keeps_its_place(
    pixels: Seq<u8>,
    stride: nat,
    width: nat,
    rows: nat,
    x: int,
    y: int,
)
    requires
        0 <= x < width,
        0 <= y < rows,
    ensures
        ({
            let out = PictureView {
                width,
                height: rows,
                bytes: tight_rows(pixels, stride, width, rows),
            };
            let k = y * stride + 4 * x;
            out.pixel(x, y) == seq![pixels[k + 2], pixels[k + 1], pixels[k], pixels[k + 3]]
        }),
    decreases rows,
{
    let above = (rows - 1) as nat;
    tight_rows_len(pixels, stride, width, above);
    tight_row_len(pixels, (above * stride) as int, width);
    let upper = tight_rows(pixels, stride, width, above);
    let last = tight_row(pixels, (above * stride) as int, width);
    assert(tight_rows(pixels, stride, width, rows) == upper + last);
    assert(4 * (y * width + x) == 4 * width * y + 4 * x) by (nonlinear_arith);
    if y < above {
        a_pixel_keeps_its_place(pixels, stride, width, above, x, y);
        assert(4 * width * y + 4 * width <= 4 * width * above) by (nonlinear_arith)
            requires
                y + 1 <= above,
                0 <= width,
        ;
        let k = picture::pixel_start(width, x, y);
        assert(0 <= 4 * width * y) by (nonlinear_arith)
            requires
                0 <= y,
                0 <= width,
        ;
        assert((upper + last)[k] == upper[k]);
        assert((upper + last)[k + 1] == upper[k + 1]);
        assert((upper + last)[k + 2] == upper[k + 2]);
        assert((upper + last)[k + 3] == upper[k + 3]);
        let small = PictureView { width, height: above, bytes: upper };
        let out = PictureView { width, height: rows, bytes: upper + last };
        assert(out.pixel(x, y) =~= small.pixel(x, y));
    } else {
        tight_row_pixel(pixels, (above * stride) as int, width, x);
    }
}

/// A status says what the window server means by it: complete and started samples carry a
/// picture, an idle one says that the last still holds, a blank and a suspended one that
/// there is nothing to see, and everything else that there is no stream.
pub proof fn a_status_says_what_it_means(status: Option<i32>)
    ensures
        health_of(status) == Health::Live <==> status == Some(0i32) || status == Some(4i32),
        health_of(status) == Health::Idle <==> status == Some(1i32),
        health_of(status) == Health::Minimized <==> status == Some(2i32) || status == Some(3i32),
        health_of(status) == Health::Disconnected <==> status is None || status->0 < 0 || status->0
            > 4,
{
}

/// Only a picture that still holds is not refused: a window that shows nothing is called
/// minimized, and one without a stream unavailable.
pub proof fn a_refusal_says_what_is_wrong(health: Health)
    ensures
        health_refusal(health) is None <==> health == Health::Live || health == Health::Idle,
        health_refusal(health) matches Some(FrameErrorView::Minimized(_)) <==> health
            == Health::Minimized,
        health_refusal(health) matches Some(FrameErrorView::Unavailable(_)) <==> health
            == Health::Disconnected,
{
}

/// A refused grant has a code of its own, and so do a minimized window and a budget that
/// was passed; everything else is that there is no capture.
pub proof fn a_frame_error_has_its_code(error: FrameErrorView)
    ensures
        frame_error_code(error) == "screen_recording_not_granted"@ <==> error is Denied,
        frame_error_code(error) == "target_minimized"@ <==> error is Minimized,
        frame_error_code(error) == "capture_budget_exceeded"@ <==> error is BudgetExceeded,
        frame_error_code(error) == "capture_unavailable"@ <==> error is Unavailable
            || error is NotYet,
{
    reveal_strlit("screen_recording_not_granted");
    reveal_strlit("target_minimized");
    reveal_strlit("capture_budget_exceeded");
    reveal_strlit("capture_unavailable");
    assert("screen_recording_not_granted"@.len() == 28);
    assert("target_minimized"@.len() == 16);
    assert("capture_budget_exceeded"@.len() == 23);
    assert("capture_unavailable"@.len() == 19);
}

/// A failure is called a refused grant exactly where the grant was refused; any other is
/// said in its own words, after what was being done.
pub proof fn a_failure_is_classified_by_the_grant(
    declined: bool,
    what: Seq<char>,
    error: Seq<char>,
)
    ensures
        classified(declined, what, error) is Denied <==> declined,
        classified(declined, what, error) is Unavailable <==> !declined,
        !declined ==> frame_error_detail(classified(declined, what, error)).take(what.len() as int)
            == what && frame_error_detail(classified(declined, what, error)).skip(
            what.len() as int + 2,
        ) == error,
{
    if !declined {
        reveal_strlit(": ");
        let said = what + ": "@ + error;
        assert(said.take(what.len() as int) =~= what);
        assert(said.skip(what.len() as int + 2) =~= error);
    }
}

/// A picture is trusted for five seconds after the last sample and not a moment longer.
pub proof fn a_silent_stream_is_not_trusted(
    slot: SlotView,
    frame: WindowFrameView,
    now_ns: u128,
)
    requires
        slot.condition is None,
        slot.held == Some(frame),
        slot.pictured,
        frame.status == Health::Live || frame.status == Health::Idle,
    ensures
        now_ns <= frame.captured_at_ns + 5_000_000_000 ==> looked(slot, None, now_ns) == Ok::<
            WindowFrameView,
            FrameErrorView,
        >(frame),
        now_ns > frame.captured_at_ns + 5_000_000_000 ==> looked(slot, None, now_ns) matches Err(
            FrameErrorView::Unavailable(_),
        ),
{
}

/// A frame passes a fence exactly where it is a later one than the picture the action was
/// aimed in and was displayed after the action.
pub proof fn a_later_frame_passes(fence: Fence, frame: WindowFrameView)
    ensures
        fence.passes(frame) <==> frame.seq > fence.beyond_seq && frame.display_time_mach is Some
            && frame.display_time_mach->0 > fence.after_mach,
{
}

/// A sample that carried no pixels moves on what is known of the stream: its status, its
/// number, when it came and when it was displayed. With no picture held it is a standing
/// fact, unless it only says that nothing changed.
pub proof fn a_sample_moves_the_stream_on(held: Option<WindowFrameView>, sample: Sample)
    ensures
        noted(held, sample) is None <==> held is None && sample.status == Health::Idle,
        noted(held, sample) matches Some(now) ==> {
            &&& now.status == sample.status
            &&& now.seq == sample.seq
            &&& now.captured_at_ns == sample.captured_at_ns
            &&& now.display_time_mach == sample.display_time_mach
            &&& held is None ==> now.pixels.len() == 0 && now.width == 0 && now.height == 0
        },
{
}

/// What an attachment says is read part by part, and what cannot be read is not made up: a
/// time below zero, a rectangle without a size and a scale that is no finite number above
/// zero are nothing.
pub proof fn an_attachment_is_read_part_by_part(read: Attachment)
    ensures
        ({
            let info = frame_info_of(Some(read));
            &&& info.status == health_of(read.status)
            &&& info.display_time_mach is Some <==> read.display_time is Some && read.display_time->0
                >= 0
            &&& info.display_time_mach matches Some(shown) ==> shown == read.display_time->0
            &&& info.content_rect matches Some(rect) ==> read.content_rect matches Some(
                (x, y, w, h),
            ) && {
                &&& rect.x == measure::millionths(x)
                &&& rect.y == measure::millionths(y)
                &&& rect.w == measure::millionths(w)
                &&& rect.h == measure::millionths(h)
            }
            &&& info.scale matches Some(scale) ==> read.scale is Some && scale
                == measure::millionths(read.scale->0)
            &&& read.scale is Some && read.scale->0 >= 0x7FF0_0000_0000_0000 ==> info.scale is None
            &&& read.scale is None || read.scale->0 == 0 ==> info.scale is None
            &&& read.content_rect is None ==> info.content_rect is None
            &&& read.content_rect matches Some((x, y, w, h)) ==> (info.content_rect is Some
                <==> 0 < w <= 0x7FF0_0000_0000_0000 && 0 < h <= 0x7FF0_0000_0000_0000)
            &&& read.scale is Some && 0 < read.scale->0 < 0x7FF0_0000_0000_0000 ==> info.scale is Some
        }),
        frame_info_of(None).status == Health::Disconnected,
        frame_info_of(None).display_time_mach is None,
        frame_info_of(None).content_rect is None,
        frame_info_of(None).scale is None,
{
}

/// A sample is stamped with what it says, its number and when it came.
pub proof fn a_sample_is_stamped_as_it_came(info: FrameInfo, seq: u64, at_ns: u128)
    ensures
        stamped_sample(info, seq, at_ns).status == info.status,
        stamped_sample(info, seq, at_ns).seq == seq,
        stamped_sample(info, seq, at_ns).captured_at_ns == at_ns,
        stamped_sample(info, seq, at_ns).display_time_mach == info.display_time_mach,
{
}

/// A frame past the budget is said with its bytes, and with the rows they are of; a stream
/// that went silent with how long it has been; and a frame that is no picture with its
/// numbers.
pub proof fn a_refused_frame_is_said_with_its_numbers(
    stride: usize,
    height: u32,
    silent_ns: int,
    frame: WindowFrameView,
)
    requires
        stride * height <= usize::MAX,
    ensures
        text::holds(over_budget(stride, height), text::decimal((stride * height) as nat)),
        text::holds(
            over_budget(stride, height),
            text::decimal(stride as nat) + " per row x "@ + text::decimal(height as nat),
        ),
        text::holds(
            frame_error_detail(gone_silent(silent_ns)),
            text::decimal((silent_ns / 1_000_000) as nat),
        ),
        text::holds(
            frame_error_detail(no_picture(frame)),
            text::decimal(frame.width as nat) + "x"@ + text::decimal(frame.height as nat),
        ),
{
    let bytes = text::decimal(capped(stride * height));
    let first = "one frame of this window is "@;
    let rows = text::decimal(stride as nat) + " per row x "@ + text::decimal(height as nat);
    let after = " rows), and "@ + text::decimal(4) + " of them are "@ + text::decimal(
        capped(4 * capped(stride * height) as int),
    ) + ", past the "@ + text::decimal(MAX_CAPTURE_BYTES as nat)
        + " byte budget one bound window may have"@;
    let said = over_budget(stride, height);
    assert(0 <= stride * height) by (nonlinear_arith);
    text::a_text_holds_its_parts(first, bytes, " bytes ("@ + rows + after);
    assert(said =~= first + bytes + (" bytes ("@ + rows + after));
    text::a_text_holds_its_parts(first + bytes + " bytes ("@, rows, after);
    assert(said =~= first + bytes + " bytes ("@ + rows + after);
    let silent = text::decimal((silent_ns / 1_000_000) as nat);
    let rest = " ms, past the "@ + text::decimal(SILENCE_LIMIT_MS as nat)
        + " ms this build waits before it stops trusting the last frame"@;
    text::a_text_holds_its_parts("the window capture has sent nothing for "@, silent, rest);
    assert(frame_error_detail(gone_silent(silent_ns))
        =~= "the window capture has sent nothing for "@ + silent + rest);
    let size = text::decimal(frame.width as nat) + "x"@ + text::decimal(frame.height as nat);
    let more = " at "@ + text::decimal(frame.stride as nat) + " bytes a row in "@ + text::decimal(
        frame.pixels.len(),
    ) + " bytes"@;
    text::a_text_holds_its_parts("the frame does not describe a picture: "@, size, more);
    assert(frame_error_detail(no_picture(frame)) =~= "the frame does not describe a picture: "@
        + size + more);
}

/// A start that was refused answers the refusal, and one that was not answered at all that
/// there is no capture.
pub proof fn a_start_answers_how_it_was_taken(opened: Opened)
    ensures
        start_answer(opened) is Ok <==> opened is Started,
        opened matches Opened::Refused(error) ==> start_answer(opened) == Err::<
            (),
            FrameErrorView,
        >(error@),
        opened is Silent ==> (start_answer(opened) matches Err(error) && error is Unavailable),
{
}

} // verus!
