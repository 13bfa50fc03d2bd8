use base64::Engine;
use serde_json::Value;

use compux::address::element_named;
use compux::capture::{
    capture_failure, capture_payload, display_index, draw, find_monitor, name_observation,
    parse_jpeg_quality, parse_overlays, parse_region, picture_reply, read_display, select_monitor,
    viewing_region, CaptureEnd, Display, MonitorReading, Overlays, Shot, Viewing, CAPTURE_STALL_MS,
};
use compux::elements::{Node, ViewNode, Viewed};
use compux::encoding::{encode_image, encoded_as, to_base64};
use compux::geometry::{CropRect, Geometry, MonitorFacts, Region};
use compux::observation::{Kind, Observations};
use compux::picture::Picture;
use compux::serve::{check_view, image_checked};
use compux::view::{check_quality, view_hash};
use compux::wire::{Check, Checked, Settle};

const W: u32 = 400;
const H: u32 = 300;

fn json(text: &str) -> Value {
    serde_json::from_str(text).expect("a JSON text")
}

fn px(n: f64) -> i64 {
    (n * 1_000_000.0).round() as i64
}

fn rect(x: f64, y: f64, w: f64, h: f64) -> Region {
    Region {
        x: px(x),
        y: px(y),
        w: px(w),
        h: px(h),
    }
}

fn shaded(shade: u8) -> Picture {
    let mut bytes = Vec::new();
    for _ in 0..W * H {
        bytes.extend_from_slice(&[shade, shade, shade, 255]);
    }
    Picture::new(W, H, bytes).expect("four bytes a pixel")
}

fn display() -> Display {
    Display {
        facts: MonitorFacts {
            x: 0,
            y: 0,
            width: W,
            height: H,
            scale_factor: 1_000_000,
        },
        id: 424_242,
    }
}

fn geometry() -> Geometry {
    Geometry {
        phys_w: W,
        phys_h: H,
        logical_w: px(W as f64),
        logical_h: px(H as f64),
        origin_x: px(-1920.4),
        origin_y: px(25.5),
        scale_factor: 1_500_000,
    }
}

/// A shot of a one-to-one display: a rectangle of the sent picture is that rectangle
/// of the captured one.
fn shot(region: Region) -> Shot {
    Shot {
        display: display(),
        geometry: geometry(),
        region,
        crop: CropRect {
            left_phys: region.x,
            top_phys: region.y,
            w_phys: region.w,
            h_phys: region.h,
        },
        sent: ((region.w / 1_000_000) as u32, (region.h / 1_000_000) as u32),
        jpeg_quality: None,
        rulers: false,
        annotate: None,
        cursor: None,
    }
}

fn whole() -> Region {
    rect(0.0, 0.0, W as f64, H as f64)
}

/// The picture a reply carries, decoded from the bytes it really sent.
fn decoded(payload: &Value) -> image::RgbaImage {
    let data = payload["data"].as_str().expect("an image");
    let bytes = base64::engine::general_purpose::STANDARD
        .decode(data)
        .expect("base64");
    image::load_from_memory(&bytes)
        .expect("an image this build encoded")
        .to_rgba8()
}

fn taken(frame: &Picture, shot: &Shot, table: &mut Observations) -> Value {
    capture_payload(frame, shot, &None, table, 5, 5_000_000)
        .expect("a picture")
}

// The space the reply names, and everything said beside it.
#[test]
fn an_image_check_answers_the_whole_display_when_the_action_named_none() {
    assert_eq!(check_view(None), None);
    let mut table = Observations::new("boot-1");
    let mut shot = shot(whole());
    shot.jpeg_quality = check_quality(&whole(), &whole());
    let payload = taken(&shaded(10), &shot, &mut table);

    assert_eq!(
        payload["mime"],
        Value::from("image/png"),
        "the display is lossless"
    );
    assert_eq!(payload["width"], Value::from(W));
    assert_eq!(payload["height"], Value::from(H));
    assert_eq!(payload["observation_kind"], Value::from("image"));
    assert!(payload["observation_id"].is_string(), "the check is a view");
    assert_eq!(payload["ok"], Value::from(true));
    assert_eq!(payload["scale"], Value::from(1.5));
    assert_eq!(payload["origin"], json(r#"{"x": -1920, "y": 26}"#));
    assert_eq!(payload["physical"], json(r#"{"width": 400, "height": 300}"#));
    assert_eq!(payload["captured_at_monotonic_ns"], Value::from(5_000_000));
    assert_eq!(payload["frame_seq"], Value::from(1));
    assert!(payload.get("cursor").is_none());
    assert!(payload.get("marks").is_none(), "none were asked for");
    assert_eq!(decoded(&payload).get_pixel(399, 299).0, [10, 10, 10, 255]);
}

// The whole of an image of the whole display is that display, so the check of an
// unzoomed action is the display, losslessly.
#[test]
fn a_check_says_whether_the_view_changed_since_the_image_acted_on() {
    for (after, changed) in [(10, false), (200, true)] {
        let mut table = Observations::new("boot-1");
        let seen = taken(&shaded(10), &shot(whole()), &mut table);
        let id = seen["observation_id"].as_str().expect("an image to act in");
        let acted_in = table.resolve(id, 5).expect("it is held");
        let before = acted_in.view_hash;

        let view = check_view(Some(acted_in)).expect("the whole of that image");
        assert_eq!(view, whole());
        let mut check = shot(view);
        check.jpeg_quality = check_quality(&view, &whole());
        let frame = shaded(after);
        let payload = taken(&frame, &check, &mut table);

        assert_eq!(payload["mime"], Value::from("image/png"));
        assert_eq!(
            payload["region"],
            json(r#"{ "x": 0, "y": 0, "w": 400, "h": 300 }"#)
        );
        let checked = image_checked(Settle::Stable, before, view_hash(&frame, &check.crop));
        assert_eq!(
            checked,
            Checked {
                kind: Check::Image,
                settle: Some(Settle::Stable),
                changed: Some(changed),
            },
            "shade {after}"
        );
    }
}

#[test]
fn an_image_check_of_a_crop_is_that_crop() {
    let mut table = Observations::new("boot-1");
    let region = rect(100.0, 60.0, 120.0, 90.0);
    let mut shot = shot(region);
    shot.jpeg_quality = check_quality(&region, &whole());
    shot.annotate = Some((50, 30));
    let payload = taken(&shaded(10), &shot, &mut table);

    assert_eq!(
        payload["mime"],
        Value::from("image/jpeg"),
        "a crop is compressed"
    );
    assert_eq!(
        payload["region"],
        json(r#"{ "x": 100, "y": 60, "w": 120, "h": 90 }"#)
    );
    assert_eq!(payload["width"], Value::from(120));
    let sent = decoded(&payload);
    assert_eq!(sent.dimensions(), (120, 90));
    assert!(sent.get_pixel(2, 2).0[0] < 40, "still the shade it was");
    assert!(sent.get_pixel(55, 35).0[0] > 100, "the executed point is marked");
}

// A reply's picture is minted with the hash of its own view, so a later check can say
// whether that view changed.
#[test]
fn a_picture_is_kept_with_the_hash_of_its_view() {
    let mut table = Observations::new("boot-1");
    let shot = shot(rect(100.0, 60.0, 120.0, 90.0));
    let frame = shaded(10);
    let payload = taken(&frame, &shot, &mut table);
    let id = payload["observation_id"].as_str().unwrap();
    let named = table.resolve(id, 6).expect("just minted");

    assert_eq!(named.view_hash, Some(view_hash(&frame, &shot.crop)));
    assert_eq!(named.region, shot.region);
    assert_eq!((named.sent_w, named.sent_h), (120, 90));
    assert_eq!(named.display_id, 424_242);
    let view = check_view(Some(named)).expect("the whole of it");
    assert_eq!(view, rect(0.0, 0.0, 120.0, 90.0));

    let again = taken(&frame, &shot, &mut table);
    assert_eq!(again["frame_seq"], Value::from(2));
    assert_ne!(again["observation_id"], payload["observation_id"]);
}

// A picture that cannot be encoded hands out nothing and mints nothing.
#[test]
fn a_picture_that_cannot_be_encoded_mints_nothing() {
    let mut table = Observations::new("boot-1");
    let mut empty = shot(whole());
    empty.sent = (0, 0);
    let refused = capture_payload(&shaded(10), &empty, &None, &mut table, 5, 5)
        .expect_err("a picture of nothing");
    assert!(refused.code.starts_with("encode png: "), "{}", refused.code);

    empty.jpeg_quality = Some(50);
    let refused = capture_payload(&shaded(10), &empty, &None, &mut table, 5, 5)
        .expect_err("a picture of nothing");
    assert!(refused.code.starts_with("encode jpeg: "), "{}", refused.code);

    let payload = taken(&shaded(10), &shot(whole()), &mut table);
    assert_eq!(payload["frame_seq"], Value::from(1), "the first that was minted");
}

// A cut is resampled to the size it is sent in, and one of its own size is itself.
#[test]
fn a_cut_is_sent_in_its_size() {
    let mut frame = shaded(0);
    for x in 0..W {
        for y in 0..H {
            if x % 2 == 0 {
                frame.put(x, y, [200, 100, 50, 255]);
            }
        }
    }
    let mut table = Observations::new("boot-1");
    let same = decoded(&taken(&frame, &shot(whole()), &mut table));
    assert_eq!(same.as_raw(), frame.bytes());

    let mut half = shot(whole());
    half.sent = (200, 150);
    let sent = decoded(&taken(&frame, &half, &mut table));
    assert_eq!(sent.dimensions(), (200, 150));
    let middle = sent.get_pixel(100, 75).0;
    assert!(
        middle[0] > 60 && middle[0] < 140,
        "an average of the two: {middle:?}"
    );
}

#[test]
fn rulers_and_the_cursor_are_there_when_asked_for() {
    let mut table = Observations::new("boot-1");
    let mut shot = shot(whole());
    shot.rulers = true;
    shot.cursor = Some((12, 34));
    let payload = taken(&shaded(10), &shot, &mut table);
    assert_eq!(payload["cursor"], json(r#"{"x": 12, "y": 34}"#));
    assert_eq!(decoded(&payload).get_pixel(100, 0).0, [0, 0, 0, 255]);
}

fn button(x: i32) -> ViewNode {
    ViewNode {
        node: Node {
            role: "AXButton".to_string(),
            label: None,
            value: None,
            enabled: true,
            settable: false,
            press: true,
            secure: false,
            path: Vec::new(),
            handle: x as u64,
        },
        point: (x, 50),
        bounds: rect(0.0, 0.0, 1.0, 1.0),
    }
}

// The mark table is there, empty or not, whenever marks were asked for, and the
// executed point is drawn over the badges.
#[test]
fn marks_ride_with_the_picture() {
    let mut table = Observations::new("boot-1");
    let mut marked = shot(whole());
    marked.annotate = Some((60, 50));
    let viewed = Viewed {
        nodes: vec![button(60), button(200)],
        owner: Some((7, 9)),
        truncated: Some("time".to_string()),
        note: Some("read App".to_string()),
    };
    let payload =
        capture_payload(&shaded(10), &marked, &Some(Ok(viewed)), &mut table, 5, 5).unwrap();
    assert_eq!(payload["marks"].as_array().unwrap().len(), 2);
    assert_eq!(payload["ax_activation"], Value::from("read App"));
    assert_eq!(payload["truncated"], Value::from("time"));
    assert!(payload.get("marks_truncated").is_none());
    let id = payload["observation_id"].as_str().expect("a name");
    let named = element_named(&table, id, Some("e2"), 6).expect("a mark can be named");
    assert_eq!(named.handle, 200);
    let listed = table.resolve(id, 6).unwrap().elements.as_ref().expect("references");
    assert_eq!((listed.pid, listed.started_at), (7, 9));
    let sent = decoded(&payload);
    assert_eq!(sent.get_pixel(192, 50).0, [230, 40, 40, 255], "a badge");
    assert_eq!(
        sent.get_pixel(67, 56).0,
        [255, 255, 255, 255],
        "the ring of the executed point, over the badge"
    );

    let unsupported = compux::desktop::elements_unsupported();
    let payload =
        capture_payload(&shaded(10), &marked, &Some(Err(unsupported)), &mut table, 6, 6).unwrap();
    assert_eq!(payload["marks"], json("[]"));
    let id = payload["observation_id"].as_str().expect("a name");
    assert!(table.resolve(id, 6).unwrap().elements.is_none());
}

#[test]
fn an_encoded_picture_reads_back() {
    let mut picture = shaded(10);
    picture.put(3, 4, [1, 2, 3, 4]);
    let (png, mime) = encode_image(&picture, None).expect("a PNG");
    assert_eq!(mime, "image/png");
    let back = image::load_from_memory(&png).unwrap().to_rgba8();
    assert_eq!(back.as_raw(), picture.bytes(), "nothing is lost");

    let (jpeg, mime) = encode_image(&picture, Some(80)).expect("a JPEG");
    assert_eq!(mime, "image/jpeg");
    assert_eq!(jpeg[..3], [0xff, 0xd8, 0xff]);
    let (small, _) = encode_image(&picture, Some(1)).expect("a JPEG");
    assert_ne!(small, jpeg, "the quality is the one asked for");
    assert_eq!(
        image::load_from_memory(&jpeg).unwrap().to_rgb8().dimensions(),
        (W, H)
    );
}

#[test]
fn base64_is_padded_and_standard() {
    let text = |bytes: &[u8]| to_base64(&bytes.to_vec()).expect("short enough");
    assert_eq!(text(b""), "");
    assert_eq!(text(b"f"), "Zg==");
    assert_eq!(text(b"fo"), "Zm8=");
    assert_eq!(text(b"foo"), "Zm9v");
    assert_eq!(text(b"foobar"), "Zm9vYmFy");
    assert_eq!(text(&[0xfb, 0xff, 0xfe]), "+//+");
}

#[test]
fn empty_monitor_list_is_no_active_display_for_any_index() {
    assert_eq!(
        select_monitor(Vec::<u8>::new(), 0).err(),
        Some("no_active_display".to_string())
    );
    assert_eq!(
        select_monitor(Vec::<u8>::new(), 4).err(),
        Some("no_active_display".to_string())
    );
    // A display that is there is a different matter.
    assert_eq!(select_monitor(vec!["a", "b"], 1), Ok("b"));
    assert_eq!(
        select_monitor(vec!["a", "b"], 2),
        Err("display 2 not found".to_string())
    );
    assert_eq!(display_index(&json("{}")), 0);
    assert_eq!(display_index(&json(r#"{"display": 3}"#)), 3);
    assert_eq!(display_index(&json(r#"{"display": "3"}"#)), 0);
}

fn monitor() -> MonitorReading {
    MonitorReading {
        x: Ok(-5),
        y: Ok(6),
        width: Ok(1512),
        height: Ok(982),
        scale_factor: Ok(2_000_000),
        id: Ok(77),
    }
}

#[test]
fn a_monitor_that_does_not_answer_is_a_failure() {
    let display = read_display(&monitor()).expect("a display");
    assert_eq!(display.id, 77);
    assert_eq!(display.facts.x, -5);
    assert_eq!(display.facts.scale_factor, 2_000_000);

    let mut coarse = monitor();
    coarse.scale_factor = Ok(400_000);
    assert_eq!(
        read_display(&coarse).unwrap().facts.scale_factor,
        1_000_000,
        "never less than a pixel to the point"
    );

    let mut silent = monitor();
    silent.height = Err("gone".to_string());
    silent.id = Err("gone".to_string());
    assert_eq!(read_display(&silent).unwrap_err().code, "display height: gone");
    silent.x = Err("no".to_string());
    assert_eq!(read_display(&silent).unwrap_err().code, "display origin x: no");
    let mut unnamed = monitor();
    unnamed.id = Err("gone".to_string());
    assert_eq!(read_display(&unnamed).unwrap_err().code, "display id: gone");
}

#[test]
fn a_capture_without_a_picture_says_how_it_ended() {
    let (stalled, wedged) = capture_failure(CaptureEnd::TimedOut);
    assert_eq!(stalled.code, "capture_stalled");
    assert!(wedged);
    let (died, wedged) = capture_failure(CaptureEnd::Died);
    assert_eq!(
        died.code,
        "capture failed: capture worker exited without a result"
    );
    assert!(!wedged);
    let (idle, _) = capture_failure(CaptureEnd::NotStarted);
    assert_eq!(idle.code, "capture failed: could not spawn capture worker");
    assert_eq!(CAPTURE_STALL_MS, 5_000);

    let ids = vec![None, Some(4), Some(9), Some(4)];
    assert_eq!(find_monitor(&ids, 4), Ok(1));
    assert_eq!(
        find_monitor(&ids, 5).unwrap_err().code,
        "display_disconnected"
    );
}

#[test]
fn parse_region_rejects_nonpositive_dimensions() {
    let req = json(r#"{"region": {"x": 0, "y": 0, "w": 0, "h": 10}}"#);
    assert!(parse_region(&req).is_err());
}

#[test]
fn a_region_is_four_numbers() {
    assert_eq!(parse_region(&json("{}")), Ok(None));
    assert_eq!(parse_region(&json(r#"{"region": null}"#)), Ok(None));
    assert_eq!(
        parse_region(&json(r#"{"region": {"x": -1.5, "y": 2, "w": 3.25, "h": 1e2}}"#)),
        Ok(Some(rect(-1.5, 2.0, 3.25, 100.0)))
    );
    assert_eq!(
        parse_region(&json(r#"{"region": {"x": 1, "y": "2", "w": 3, "h": 4}}"#)),
        Err("region.y is missing or not a number".to_string())
    );
    assert_eq!(
        parse_region(&json(r#"{"region": {"x": 1, "y": 2, "w": -3, "h": 4}}"#)),
        Err("region.w and region.h must be > 0".to_string())
    );
    assert_eq!(
        parse_region(&json(r#"{"region": 7}"#)),
        Err("region.x is missing or not a number".to_string())
    );
}

#[test]
fn a_rectangle_is_read_in_the_image_it_names() {
    let mut table = Observations::new("boot-1");
    let seen = table.mint(
        Kind::Image,
        1,
        display().facts,
        geometry(),
        whole(),
        (W, H),
        None,
        0,
        0,
    );
    let asked = json(r#"{"region": {"x": 1, "y": 2, "w": 3, "h": 4}}"#);
    let viewing = |req: &Value, id: Option<&str>| viewing_region(req, id, &table, 1);

    assert!(matches!(
        viewing(&json("{}"), Some("nobody-1")),
        Ok(Viewing::Full)
    ));
    match viewing(&asked, None) {
        Ok(Viewing::Display(region)) => assert_eq!(region, rect(1.0, 2.0, 3.0, 4.0)),
        other => panic!("{other:?}"),
    }
    match viewing(&asked, Some(seen.id.as_str())) {
        Ok(Viewing::Through(region, named)) => {
            assert_eq!(region, rect(1.0, 2.0, 3.0, 4.0));
            assert_eq!(named.id, seen.id);
        }
        other => panic!("{other:?}"),
    }
    assert_eq!(
        viewing(&asked, Some("nobody-1")).unwrap_err().code,
        "unknown_observation"
    );
    assert_eq!(
        viewing(&json(r#"{"region": {}}"#), None).unwrap_err().code,
        "region.x is missing or not a number"
    );
}

// An image that is not held is refused before anything is watched.
#[test]
fn a_wait_watches_what_it_names() {
    let mut table = Observations::new("boot-1");
    let seen = table.mint(
        Kind::Image,
        1,
        display().facts,
        geometry(),
        whole(),
        (W, H),
        None,
        0,
        0,
    );
    let asked = json(
        r#"{"region": {"x": 1, "y": 2, "w": 3, "h": 4}, "poll_ms": 50, "rulers": true}"#,
    );
    let watch = compux::waiting::watch(&asked, Some(seen.id.as_str()), &table, 1).unwrap();
    assert_eq!(watch.named.expect("the image").id, seen.id);
    assert!(matches!(watch.viewing, Viewing::Through(..)));
    assert_eq!((watch.polling.timeout_ms, watch.polling.poll_ms), (10_000, 50));
    assert!(watch.rulers);

    let unnamed = compux::waiting::watch(&json("{}"), None, &table, 1).unwrap();
    assert!(unnamed.named.is_none());
    assert!(matches!(unnamed.viewing, Viewing::Full));
    assert!(!unnamed.rulers);

    for (req, id, code) in [
        ("{}", Some("nobody-1"), "unknown_observation"),
        (r#"{"region": {}}"#, None, "region.x is missing or not a number"),
    ] {
        assert_eq!(
            compux::waiting::watch(&json(req), id, &table, 1).unwrap_err().code,
            code
        );
    }
}

#[test]
fn overlays_are_what_a_request_asks_for() {
    assert_eq!(
        parse_overlays(&json("{}")),
        Ok(Overlays {
            rulers: false,
            marks: false,
            annotate: None,
        })
    );
    assert_eq!(
        parse_overlays(&json(
            r#"{"rulers": true, "marks": true, "annotate_point": {"x": 10.5, "y": -2.4}}"#
        )),
        Ok(Overlays {
            rulers: true,
            marks: true,
            annotate: Some((11, -2)),
        })
    );
    assert_eq!(
        parse_overlays(&json(r#"{"annotate_point": {"y": 1}}"#)),
        Err("annotate_point.x is missing or not a number".to_string())
    );
    assert_eq!(
        parse_overlays(&json(r#"{"annotate_point": {"x": 1e300}}"#)),
        Err("annotate_point.y is missing or not a number".to_string())
    );
    assert_eq!(
        parse_overlays(&json(r#"{"annotate_point": {"x": 1e300, "y": -1e300}}"#))
            .unwrap()
            .annotate,
        Some((i32::MAX, i32::MIN))
    );
}

#[test]
fn a_jpeg_quality_is_a_hundred_at_most() {
    let quality = |text: &str| parse_jpeg_quality(&json(text));
    assert_eq!(quality("{}"), Ok(None));
    assert_eq!(quality(r#"{"jpeg_quality": null}"#), Ok(None));
    assert_eq!(quality(r#"{"jpeg_quality": 1}"#), Ok(Some(1)));
    assert_eq!(quality(r#"{"jpeg_quality": 100}"#), Ok(Some(100)));
    for bad in ["0", "101", "50.0", "\"50\"", "-1"] {
        assert_eq!(
            quality(&format!("{{\"jpeg_quality\": {bad}}}")),
            Err("jpeg_quality must be an integer 1-100".to_string()),
            "{bad}"
        );
    }
}

#[test]
fn a_reply_that_is_no_object_is_not_named() {
    let mut table = Observations::new("boot-1");
    let seen = table.mint(
        Kind::Semantic,
        1,
        display().facts,
        geometry(),
        whole(),
        (W, H),
        None,
        3,
        3_000_000,
    );
    let mut list = json("[1]");
    name_observation(&mut list, &seen);
    assert_eq!(list, json("[1]"));

    let mut reply = json(r#"{"ok": true}"#);
    name_observation(&mut reply, &seen);
    assert_eq!(reply["observation_id"], Value::from(seen.id.as_str()));
    assert_eq!(reply["observation_kind"], Value::from("semantic"));
    assert_eq!(reply["captured_at_monotonic_ns"], Value::from(3_000_000));
    assert!(reply.get("frame_seq").is_none(), "it is no picture");
}

#[test]
fn an_encoder_is_named_by_its_format() {
    let (file, mime) = encoded_as(Some(80), Ok(vec![1, 2, 3])).expect("a file");
    assert_eq!(file, vec![1, 2, 3]);
    assert_eq!(mime, "image/jpeg");
    assert_eq!(encoded_as(None, Ok(vec![])).expect("a file").1, "image/png");
    assert_eq!(
        encoded_as(None, Err("no room".to_string())).unwrap_err().code,
        "encode png: no room"
    );
    assert_eq!(
        encoded_as(Some(1), Err("no room".to_string())).unwrap_err().code,
        "encode jpeg: no room"
    );
}

#[test]
fn a_reply_carries_its_text_and_its_name() {
    let mut table = Observations::keyed(0xABCD);
    let hash = view_hash(&shaded(7), &shot(whole()).crop);
    let mut asked = shot(whole());
    asked.cursor = Some((3, 4));
    let payload = picture_reply(&asked, "QUJD", None, hash, &mut table, 5, 5_000_000);
    assert_eq!(payload["ok"], json("true"));
    assert_eq!(payload["mime"], json("\"image/png\""));
    assert_eq!(payload["data"], json("\"QUJD\""));
    assert_eq!(payload["width"], json("400"));
    assert_eq!(payload["height"], json("300"));
    assert_eq!(payload["scale"], json("1.5"));
    assert_eq!(payload["origin"], json(r#"{"x":-1920,"y":26}"#));
    assert_eq!(payload["cursor"], json(r#"{"x":3,"y":4}"#));
    assert_eq!(payload["captured_at_monotonic_ns"], json("5000000"));
    assert!(payload.get("marks").is_none());

    let id = payload["observation_id"].as_str().expect("a name");
    assert!(id.contains("abcd"), "{id}");
    let kept = table.resolve(id, 6).expect("what was named");
    assert!(kept.view_hash.expect("its view").agrees(&hash));
}

#[test]
fn a_drawing_leaves_what_it_does_not_touch() {
    let mut plain = shaded(90);
    assert!(draw(&mut plain, &shot(whole()), &None).is_none());
    assert_eq!(plain.bytes(), shaded(90).bytes());

    let mut asked = shot(whole());
    asked.annotate = Some((200, 150));
    let mut marked = shaded(90);
    draw(&mut marked, &asked, &None);
    assert_ne!(marked.bytes(), shaded(90).bytes());
    assert_eq!(marked.bytes()[..4], [90, 90, 90, 255]);
}

// What is drawn on a picture and how it is compressed move nothing.
#[test]
fn compression_and_drawing_leave_the_place_and_the_hash() {
    let frame = shaded(77);
    let plain = shot(rect(40.0, 30.0, 200.0, 100.0));
    let mut drawn = shot(rect(40.0, 30.0, 200.0, 100.0));
    drawn.jpeg_quality = Some(40);
    drawn.rulers = true;
    drawn.annotate = Some((20, 20));
    let viewed = Viewed {
        nodes: vec![button(60)],
        owner: Some((7, 9)),
        truncated: None,
        note: None,
    };
    let mut one = Observations::new("boot-1");
    let mut other = Observations::new("boot-1");
    let p = taken(&frame, &plain, &mut one);
    let q = capture_payload(&frame, &drawn, &Some(Ok(viewed)), &mut other, 5, 5_000_000).unwrap();
    assert_eq!(p["mime"], json("\"image/png\""));
    assert_eq!(q["mime"], json("\"image/jpeg\""));
    for key in ["width", "height", "scale", "origin", "physical", "region"] {
        assert_eq!(p[key], q[key], "{key}");
    }
    assert_eq!(p["observation_id"], q["observation_id"]);
    let id = p["observation_id"].as_str().expect("a name");
    let (a, b) = (one.resolve(id, 6).unwrap(), other.resolve(id, 6).unwrap());
    assert_eq!((a.sent_w, a.sent_h), (b.sent_w, b.sent_h));
    assert_eq!(a.region, b.region);
    assert_eq!(a.geometry, b.geometry);
    assert_eq!(a.view_hash, b.view_hash);
    assert!(a.view_hash.is_some());
}
