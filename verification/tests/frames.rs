use std::cell::{Cell, RefCell};
use std::rc::Rc;

use compux::window_frames::{
    classify, frame_info, Attachment, Fence, FrameError, FrameInfo, Health, Opened, Sample, Slot,
    Stream, StreamWindow, Unsupported, WindowFrame, WindowFrames, FRAMES_IN_FLIGHT,
    MAX_CAPTURE_BYTES, SILENCE_LIMIT_MS,
};

/// A window's frames, written down by a test. An idle sample carries no pixels and
/// goes through `Slot::note`, exactly as one does on a real machine.
struct Recorder {
    stream: RefCell<Stream>,
    started: RefCell<Vec<StreamWindow>>,
    stops: Cell<usize>,
    refuse_start: RefCell<Option<FrameError>>,
    now_ns: Cell<u128>,
}

impl Recorder {
    fn new() -> Rc<Recorder> {
        Rc::new(Recorder {
            stream: RefCell::new(Stream::new()),
            started: RefCell::new(Vec::new()),
            stops: Cell::new(0),
            refuse_start: RefCell::new(None),
            now_ns: Cell::new(0),
        })
    }

    fn deliver(&self, at_ns: u128, status: Health) -> u64 {
        self.deliver_sized(at_ns, status, 4, 2, 16)
    }

    fn deliver_sized(
        &self,
        at_ns: u128,
        status: Health,
        width: u32,
        height: u32,
        stride: usize,
    ) -> u64 {
        self.deliver_dated(at_ns, status, width, height, stride, Some(at_ns as u64))
    }

    fn deliver_dated(
        &self,
        at_ns: u128,
        status: Health,
        width: u32,
        height: u32,
        stride: usize,
        shown: Option<u64>,
    ) -> u64 {
        let mut stream = self.stream.borrow_mut();
        self.now_ns.set(at_ns);
        let info = FrameInfo {
            status,
            display_time_mach: shown,
            content_rect: None,
            scale: None,
        };
        let Some(sample) = stream.slot.take_sample(&info, at_ns) else {
            return 0;
        };
        let Some(bytes) = stream.slot.make_room(stride, height) else {
            return sample.seq;
        };
        let pixels = (0..bytes).map(|byte| byte as u8).collect();
        stream
            .slot
            .keep_picture(sample, &info, pixels, width, height, stride);
        sample.seq
    }

    fn goes_silent_for(&self, ms: u64) {
        self.now_ns
            .set(self.now_ns.get() + u128::from(ms) * 1_000_000);
    }

    fn faults(&self, error: FrameError) {
        self.stream.borrow_mut().slot.fault(error);
    }

    fn refuses_to_start(&self, error: FrameError) {
        *self.refuse_start.borrow_mut() = Some(error);
    }

    fn running(&self) -> bool {
        self.stream.borrow().running
    }
}

impl WindowFrames for Recorder {
    fn start(&self, window: StreamWindow) -> Result<(), FrameError> {
        let opened = match self.refuse_start.borrow_mut().take() {
            Some(refusal) => Opened::Refused(refusal),
            None => {
                self.started.borrow_mut().push(window);
                Opened::Started
            }
        };
        self.stream.borrow_mut().start(opened)
    }

    fn latest(&self, after: Option<Fence>) -> Result<WindowFrame, FrameError> {
        self.stream.borrow().latest(after, self.now_ns.get())
    }

    fn stop(&self) {
        self.stops.set(self.stops.get() + 1);
        self.stream.borrow_mut().stop();
    }
}

fn frames() -> Rc<Recorder> {
    let recorder = Recorder::new();
    recorder.start(window(7)).unwrap();
    recorder
}

fn window(id: u32) -> StreamWindow {
    StreamWindow {
        id,
        width: 8,
        height: 4,
    }
}

#[test]
fn a_look_with_no_fence_takes_whatever_is_there() {
    let recorder = frames();
    recorder.deliver(1_000, Health::Live);

    let frame = recorder.latest(None).expect("a frame is there");
    assert_eq!(frame.seq, 1);
    assert_eq!(frame.width, 4);
}

#[test]
fn a_stream_that_has_delivered_nothing_answers_not_yet() {
    let recorder = frames();
    assert_eq!(recorder.latest(None).err(), Some(FrameError::NotYet));
}

// A frame from before the action must never become the after-image, whichever
// half of the fence catches it.
#[test]
fn a_frame_from_before_the_action_never_passes_the_fence() {
    let recorder = frames();
    let before = recorder.deliver(1_000, Health::Live);

    let fence = Fence {
        after_mach: 2_000,
        beyond_seq: before,
    };
    assert_eq!(recorder.latest(Some(fence)).err(), Some(FrameError::NotYet));

    // A newer sequence that was displayed before the dispatch is still not
    // after it.
    recorder.deliver(1_500, Health::Live);
    assert_eq!(recorder.latest(Some(fence)).err(), Some(FrameError::NotYet));

    // And a frame displayed after the dispatch, with a newer sequence, is.
    recorder.deliver(2_500, Health::Live);
    assert_eq!(recorder.latest(Some(fence)).map(|f| f.seq), Ok(3));
}

// Absent is not "probably after".
#[test]
fn a_sample_with_no_display_time_is_never_admitted() {
    let recorder = frames();
    let before = recorder.deliver(1_000, Health::Live);
    recorder.deliver_dated(2_500, Health::Live, 4, 2, 16, None);

    let fence = Fence {
        after_mach: 2_000,
        beyond_seq: before,
    };
    assert_eq!(recorder.latest(Some(fence)).err(), Some(FrameError::NotYet));
}

// An idle sample is the normal state of an unchanged window, and it carries no
// pixels. The picture must survive it.
#[test]
fn an_idle_sample_keeps_the_picture_it_says_is_unchanged() {
    let recorder = frames();
    recorder.deliver_sized(1_000, Health::Live, 4, 2, 16);

    for tick in 1..=5 {
        recorder.deliver(1_000 + tick * 100, Health::Idle);
    }

    let frame = recorder.latest(None).expect("the picture is still there");
    assert_eq!(frame.width, 4, "the pixels are the live frame's");
    assert_eq!(frame.height, 2);
    assert!(frame.to_rgba().is_ok(), "and it is still a picture");
    assert_eq!(frame.seq, 6, "with the newest sample's sequence");
}

// An idle sample after the dispatch satisfies the fence, because it is the window
// server stating that nothing changed since then.
#[test]
fn an_idle_sample_after_the_action_answers_stable_and_unchanged() {
    let recorder = frames();
    let aimed = recorder.deliver(1_000, Health::Live);

    let fence = Fence {
        after_mach: 1_500,
        beyond_seq: aimed,
    };
    assert_eq!(recorder.latest(Some(fence)).err(), Some(FrameError::NotYet));

    recorder.deliver(2_000, Health::Idle);

    let frame = recorder
        .latest(Some(fence))
        .expect("an idle sample answers the fence");
    assert_eq!(frame.width, 4, "and it answers with the unchanged picture");
}

// Before any picture exists there is nothing an idle sample can be about.
#[test]
fn an_idle_sample_before_the_first_picture_is_not_yet() {
    let recorder = frames();
    recorder.deliver(1_000, Health::Idle);

    assert_eq!(recorder.latest(None).err(), Some(FrameError::NotYet));

    recorder.deliver(1_100, Health::Live);
    assert!(recorder.latest(None).is_ok());
}

#[test]
fn a_healthy_unchanged_stream_keeps_answering_the_same_frame() {
    let recorder = frames();
    recorder.deliver(1_000, Health::Live);

    for _ in 0..5 {
        assert_eq!(recorder.latest(None).map(|frame| frame.seq), Ok(1));
    }
}

#[test]
fn only_the_newest_frame_is_kept() {
    let recorder = frames();
    recorder.deliver(1_000, Health::Live);
    recorder.deliver(2_000, Health::Live);
    recorder.deliver(3_000, Health::Live);

    assert_eq!(recorder.latest(None).map(|frame| frame.seq), Ok(3));
}

// A window that cannot be seen says so in its own words.
#[test]
fn a_minimized_window_answers_its_own_code_and_not_a_flattened_one() {
    let recorder = frames();
    recorder.deliver(1_000, Health::Live);
    recorder.deliver(2_000, Health::Minimized);

    let refusal = recorder.latest(None).expect_err("nothing to see");
    assert_eq!(refusal.code(), "target_minimized");

    let recorder = frames();
    recorder.deliver(1_000, Health::Live);
    recorder.deliver(2_000, Health::Disconnected);
    assert_eq!(
        recorder.latest(None).expect_err("stopped").code(),
        "capture_unavailable"
    );
}

#[test]
fn a_window_minimized_before_its_first_picture_says_so() {
    let recorder = frames();
    recorder.deliver(1_000, Health::Minimized);
    assert_eq!(
        recorder.latest(None).expect_err("nothing to see").code(),
        "target_minimized"
    );
}

// A stream that says nothing at all must not keep answering its last picture.
#[test]
fn a_stream_that_went_silent_stops_being_trusted() {
    let recorder = frames();
    recorder.deliver(1_000, Health::Live);
    assert!(recorder.latest(None).is_ok());

    recorder.goes_silent_for(SILENCE_LIMIT_MS);
    assert!(recorder.latest(None).is_ok(), "the limit itself is not past it");
    recorder.goes_silent_for(1);

    let refusal = recorder.latest(None).expect_err("nothing for too long");
    assert_eq!(refusal.code(), "capture_unavailable");
    assert!(
        refusal.detail().contains("sent nothing"),
        "{}",
        refusal.detail()
    );
    assert_eq!(
        refusal.detail(),
        "the window capture has sent nothing for 5001 ms, past the 5000 ms this build waits \
         before it stops trusting the last frame"
    );
}

#[test]
fn a_stopped_stream_answers_nothing_and_holds_no_pixels() {
    let recorder = frames();
    recorder.deliver(1_000, Health::Live);

    recorder.stop();

    assert_eq!(recorder.stops.get(), 1);
    assert!(!recorder.running());
    assert!(matches!(
        recorder.latest(None),
        Err(FrameError::Unavailable(_))
    ));
}

// A fault the delivery side recorded has to reach the caller.
#[test]
fn a_fault_the_callback_recorded_is_what_the_next_look_answers() {
    let recorder = frames();
    recorder.deliver(1_000, Health::Live);
    recorder.faults(FrameError::BudgetExceeded("too big".to_string()));

    let refusal = recorder.latest(None).expect_err("the fault stands");
    assert_eq!(refusal.code(), "capture_budget_exceeded");

    // And the first fault stands, because the ones after it are its consequences.
    recorder.faults(FrameError::Unavailable("and then this".to_string()));
    assert_eq!(
        recorder.latest(None).expect_err("still the first").code(),
        "capture_budget_exceeded"
    );

    // A restarted stream is not refused for the stream before it.
    recorder.stop();
    recorder.start(window(7)).unwrap();
    recorder.deliver(2_000, Health::Live);
    assert!(recorder.latest(None).is_ok());
}

#[test]
fn a_refused_grant_is_its_own_code_and_not_a_sentence_inside_another() {
    let denied = FrameError::Denied("Screen Recording is not granted".to_string());
    assert_eq!(denied.code(), "screen_recording_not_granted");

    let recorder = Recorder::new();
    recorder.refuses_to_start(denied);
    assert_eq!(
        recorder.start(window(7)).expect_err("refused").code(),
        "screen_recording_not_granted"
    );

    assert_eq!(
        classify(true, "the window capture did not start", "declined").code(),
        "screen_recording_not_granted"
    );
    assert_eq!(
        classify(false, "the window capture did not start", "no such window"),
        FrameError::Unavailable("the window capture did not start: no such window".to_string())
    );
}

// Refused before anything is allocated.
#[test]
fn a_frame_larger_than_one_window_may_have_is_refused_by_the_budget() {
    assert!(WindowFrame::budget(4 * 3840, 2160).is_ok());

    let refusal = WindowFrame::budget(4 * 16_384, 16_384).expect_err("far past the budget");
    assert_eq!(refusal.code(), "capture_budget_exceeded");
    assert!(refusal.detail().contains("budget"), "{}", refusal.detail());
    assert_eq!(
        refusal.detail(),
        "one frame of this window is 1073741824 bytes (65536 per row x 16384 rows), and 4 of \
         them are 4294967296, past the 536870912 byte budget one bound window may have"
    );

    // The four frames in flight are what the ceiling is about, so a frame just
    // over a quarter of it is refused and one just under is not.
    let quarter = MAX_CAPTURE_BYTES / FRAMES_IN_FLIGHT;
    assert!(WindowFrame::budget(quarter, 1).is_ok());
    assert!(WindowFrame::budget(quarter + 1, 1).is_err());
    assert!(WindowFrame::budget(usize::MAX, u32::MAX).is_err());
}

#[test]
fn an_over_budget_surface_is_recorded_and_not_copied() {
    let mut slot = Slot::new();
    assert_eq!(slot.make_room(16, 2), Some(32));
    assert_eq!(slot.make_room(usize::MAX, 2), None);
    assert_eq!(
        slot.peek(None, 0).expect_err("the fault stands").code(),
        "capture_budget_exceeded"
    );
}

// A padded BGRA surface read as tight RGBA is a hash of the padding and a picture
// with its colours swapped.
#[test]
fn row_padding_is_dropped_and_the_channels_are_put_in_order() {
    let frame = WindowFrame {
        // Two rows of two BGRA pixels, padded to 12 bytes a row.
        pixels: vec![
            1, 2, 3, 4, 5, 6, 7, 8, 0xEE, 0xEE, 0xEE, 0xEE, //
            9, 10, 11, 12, 13, 14, 15, 16, 0xEE, 0xEE, 0xEE, 0xEE,
        ],
        width: 2,
        height: 2,
        stride: 12,
        captured_at_ns: 1,
        display_time_mach: Some(1),
        seq: 1,
        content_rect: None,
        reported_scale: None,
        status: Health::Live,
    };

    let image = frame.to_rgba().expect("a whole picture");
    assert_eq!((image.width(), image.height()), (2, 2));
    assert_eq!(
        image.bytes(),
        // BGRA -> RGBA, and not one byte of the 0xEE padding.
        &vec![3, 2, 1, 4, 7, 6, 5, 8, 11, 10, 9, 12, 15, 14, 13, 16]
    );
}

#[test]
fn a_frame_that_does_not_describe_a_picture_is_refused_not_guessed_at() {
    let short = WindowFrame {
        pixels: vec![0; 4],
        width: 4,
        height: 2,
        stride: 16,
        captured_at_ns: 1,
        display_time_mach: Some(1),
        seq: 1,
        content_rect: None,
        reported_scale: None,
        status: Health::Live,
    };

    let refusal = match short.to_rgba() {
        Ok(_) => panic!("not enough bytes for those rows"),
        Err(refusal) => refusal,
    };
    assert_eq!(refusal.code(), "capture_unavailable");
    assert_eq!(
        refusal.detail(),
        "the frame does not describe a picture: 4x2 at 16 bytes a row in 4 bytes"
    );
}

#[test]
fn a_stream_is_replaced_by_stopping_it_first() {
    let recorder = Recorder::new();
    recorder.start(window(7)).unwrap();
    recorder.stop();
    recorder.start(window(9)).unwrap();

    assert_eq!(*recorder.started.borrow(), vec![window(7), window(9)]);
    assert_eq!(recorder.stops.get(), 1);
}

#[test]
fn a_start_that_failed_leaves_nothing_running() {
    let recorder = Recorder::new();
    recorder.refuses_to_start(FrameError::Unavailable(
        "the window server refused".to_string(),
    ));

    assert!(recorder.start(window(7)).is_err());
    assert!(!recorder.running());
    assert!(matches!(
        recorder.latest(None),
        Err(FrameError::Unavailable(_))
    ));
}

#[test]
fn a_start_nobody_answered_is_a_refusal() {
    let mut stream = Stream::new();
    let refusal = stream.start(Opened::Silent).expect_err("no answer");
    assert_eq!(refusal.detail(), "the window capture did not start in time");
    assert!(!stream.running);
}

#[test]
fn a_host_with_no_window_capture_says_so() {
    let refusal = Unsupported.start(window(7)).expect_err("unsupported");
    assert_eq!(refusal.detail(), "window capture is only supported on macOS");
    assert_eq!(
        Unsupported.latest(None).expect_err("unsupported").code(),
        "capture_unavailable"
    );
    Unsupported.stop();
}

#[test]
fn a_status_that_cannot_be_read_is_not_a_picture() {
    assert_eq!(Health::of_status(Some(0)), Health::Live);
    assert_eq!(Health::of_status(Some(4)), Health::Live);
    assert_eq!(Health::of_status(Some(1)), Health::Idle);
    assert_eq!(Health::of_status(Some(2)), Health::Minimized);
    assert_eq!(Health::of_status(Some(3)), Health::Minimized);
    assert_eq!(Health::of_status(Some(5)), Health::Disconnected);
    assert_eq!(Health::of_status(None), Health::Disconnected);
}

#[test]
fn a_sample_without_pixels_carries_its_own_facts() {
    let sample = Sample {
        status: Health::Minimized,
        seq: 9,
        captured_at_ns: 5,
        display_time_mach: Some(6),
    };
    let frame = WindowFrame::without_pixels(sample);
    assert_eq!((frame.width, frame.height, frame.stride), (0, 0, 0));
    assert_eq!((frame.seq, frame.captured_at_ns), (9, 5));
    assert!(frame.pixels.is_empty());
}

#[test]
fn nothing_passing_the_fence_has_its_own_sentence() {
    assert_eq!(
        FrameError::NotYet.detail(),
        "no frame of that window arrived after the action was dispatched"
    );
    assert_eq!(FrameError::NotYet.code(), "capture_unavailable");
}

#[test]
fn an_unreadable_attachment_is_no_picture() {
    let info = frame_info(None);
    assert_eq!(info.status, Health::Disconnected);
    assert_eq!(info.display_time_mach, None);
    assert_eq!(info.content_rect, None);
    assert_eq!(info.scale, None);
}

#[test]
fn an_attachment_is_read_field_by_field() {
    let attachment = Attachment {
        status: Some(0),
        display_time: Some(12_345),
        content_rect: Some((
            0.0f64.to_bits(),
            1.5f64.to_bits(),
            640.0f64.to_bits(),
            480.0f64.to_bits(),
        )),
        scale: Some(2.0f64.to_bits()),
    };
    let info = frame_info(Some(attachment));
    assert_eq!(info.status, Health::Live);
    assert_eq!(info.display_time_mach, Some(12_345));
    let rect = info.content_rect.unwrap();
    assert_eq!((rect.x, rect.y), (0, 1_500_000));
    assert_eq!((rect.w, rect.h), (640_000_000, 480_000_000));
    assert_eq!(info.scale, Some(2_000_000));

    let odd = frame_info(Some(Attachment {
        status: Some(1),
        display_time: Some(-1),
        content_rect: Some((0, 0, 0, 1.0f64.to_bits())),
        scale: Some(f64::INFINITY.to_bits()),
    }));
    assert_eq!(odd.status, Health::Idle);
    assert_eq!(odd.display_time_mach, None);
    assert_eq!(odd.content_rect, None);
    assert_eq!(odd.scale, None);
}

#[test]
fn an_idle_sample_after_a_minimized_one_is_still_about_no_picture() {
    let sample = |status: Health, seq: u64, at: u64| Sample {
        status,
        seq,
        captured_at_ns: u128::from(at),
        display_time_mach: Some(at),
    };
    let mut slot = Slot::new();
    slot.note(sample(Health::Minimized, 1, 1_000));
    assert_eq!(
        slot.peek(None, 1_000).expect_err("nothing to see").code(),
        "target_minimized"
    );
    slot.note(sample(Health::Idle, 2, 1_100));
    assert_eq!(slot.peek(None, 1_100).err(), Some(FrameError::NotYet));
    let fence = Fence {
        after_mach: 1_050,
        beyond_seq: 1,
    };
    assert_eq!(slot.peek(Some(fence), 1_100).err(), Some(FrameError::NotYet));
}

// A surface with no rows is a picture, and is refused where it is read and by name.
#[test]
fn a_live_frame_without_pixels_is_answered_as_it_was_kept() {
    let info = FrameInfo {
        status: Health::Live,
        display_time_mach: Some(1_000),
        content_rect: None,
        scale: None,
    };
    let mut slot = Slot::new();
    let sample = slot.take_sample(&info, 1_000).expect("a picture");
    assert_eq!(slot.make_room(16, 0), Some(0));
    slot.keep_picture(sample, &info, Vec::new(), 4, 0, 16);
    assert_eq!(slot.peek(None, 1_000).map(|f| (f.width, f.height, f.seq)), Ok((4, 0, 1)));

    let idle = FrameInfo {
        status: Health::Idle,
        display_time_mach: Some(2_000),
        ..info
    };
    assert!(slot.take_sample(&idle, 2_000).is_none());
    let fence = Fence {
        after_mach: 1_500,
        beyond_seq: 1,
    };
    let answer = slot.peek(Some(fence), 2_000).expect("what it is unchanged from");
    assert_eq!((answer.width, answer.height, answer.seq), (4, 0, 2));
    assert_eq!(answer.status, Health::Idle);

    // Once the slot is cleared there is no picture again.
    slot.clear();
    slot.note(Sample {
        status: Health::Minimized,
        seq: 3,
        captured_at_ns: 3_000,
        display_time_mach: None,
    });
    assert!(slot.take_sample(&idle, 3_000).is_none());
    assert_eq!(slot.peek(None, 3_000).err(), Some(FrameError::NotYet));
}
