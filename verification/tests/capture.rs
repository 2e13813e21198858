use cliche::capture::{
    choose_primary, crop, encode_bmp, encode_png, Frame, BMP_HEADER_BYTES, BYTES_PER_PIXEL, MARK_CAPTURE,
    MARK_ENCODE_PNG,
};
use cliche::geometry::PhysicalRect;
use cliche::timing::Timings;
use image::{ImageFormat, RgbaImage};

const PNG_SIGNATURE: [u8; 8] = [0x89, b'P', b'N', b'G', 0x0d, 0x0a, 0x1a, 0x0a];

fn known_frame() -> Frame {
    let pixels = vec![
        1, 2, 3, 4, //
        5, 6, 7, 8, //
        9, 10, 11, 12, //
        250, 200, 150, 100, //
        0, 0, 0, 0, //
        255, 255, 255, 255, //
    ];

    Frame::new(3, 2, pixels).expect("the hand-written frame must be consistent")
}

#[test]
fn a_frame_refuses_a_buffer_whose_length_contradicts_its_dimensions() {
    let too_short = Frame::new(2, 2, vec![0u8; 15]);
    let too_long = Frame::new(2, 2, vec![0u8; 17]);

    assert!(too_short.is_err(), "a short buffer would panic the encoder");
    assert!(too_long.is_err());
    assert!(
        Frame::new(2, 2, vec![0u8; 16]).is_ok(),
        "the exact length must be accepted, or the check is just refusing everything"
    );
}

#[test]
fn a_frame_error_says_both_lengths_so_it_can_be_acted_on() {
    let message = Frame::new(2, 2, vec![0u8; 15]).err().expect("15 != 16");

    assert!(
        message.contains("15") && message.contains("16"),
        "a mismatch message that names neither length is unusable: {message}"
    );
    assert_eq!(message, "capture buffer is 15 byte(s) but 2x2 RGBA needs 16");
}

#[test]
fn a_zero_sized_capture_is_an_error_not_an_empty_image() {
    assert!(Frame::new(0, 1080, Vec::new()).is_err());
    assert!(Frame::new(1920, 0, Vec::new()).is_err());
    assert!(
        Frame::new(0, 0, Vec::new()).is_err(),
        "PNG forbids a zero dimension, and a zero-sized grab is a failure, not a result"
    );
    assert_eq!(
        Frame::new(0, 1080, Vec::new()).err().unwrap(),
        "a capture of 0x1080 has no pixels; the grab failed without reporting it"
    );
}

#[test]
fn a_frame_hands_its_buffer_over_without_altering_it() {
    let frame = known_frame();
    let borrowed = frame.pixels().to_vec();

    assert_eq!(frame.into_pixels(), borrowed);
}

#[test]
fn a_debug_line_shows_the_shape_and_not_the_pixels() {
    let rendered = known_frame().describe();

    assert!(rendered.contains("width: 3"), "unexpected: {rendered}");
    assert!(rendered.contains("bytes: 24"), "unexpected: {rendered}");
    assert!(!rendered.contains("250"), "the pixel values must not be in the debug output: {rendered}");
}

#[test]
fn an_encoded_frame_really_is_a_png_file() {
    let png = encode_png(&known_frame()).expect("encoding a 3x2 frame must succeed");

    assert!(
        png.starts_with(&PNG_SIGNATURE),
        "the encoder produced {} byte(s) that do not begin with the PNG signature",
        png.len()
    );
}

#[test]
fn a_png_round_trip_returns_the_same_dimensions_and_the_same_pixels() {
    let frame = known_frame();
    let expected = frame.pixels().to_vec();

    let png = encode_png(&frame).expect("encoding must succeed");
    let decoded = image::load_from_memory_with_format(&png, ImageFormat::Png)
        .expect("what we just encoded must decode")
        .into_rgba8();

    assert_eq!(decoded.dimensions(), (3, 2), "3 wide and 2 high, not 2x3");
    assert_eq!(decoded.into_raw(), expected, "every channel of every pixel must survive the round trip");
}

#[test]
fn the_decoder_rejects_nonsense_so_the_round_trip_is_not_vacuous() {
    assert!(image::load_from_memory_with_format(b"not a png", ImageFormat::Png).is_err());
    assert!(image::load_from_memory_with_format(b"", ImageFormat::Png).is_err());
    assert!(image::load_from_memory_with_format(&PNG_SIGNATURE, ImageFormat::Png).is_err());
}

#[test]
fn a_single_pixel_frame_encodes_and_comes_back() {
    let frame = Frame::new(1, 1, vec![7, 8, 9, 10]).expect("1x1 RGBA is 4 bytes");

    let png = encode_png(&frame).expect("a 1x1 PNG is legal");
    let decoded = image::load_from_memory_with_format(&png, ImageFormat::Png)
        .expect("must decode")
        .into_rgba8();

    assert_eq!(decoded.dimensions(), (1, 1));
    assert_eq!(decoded.into_raw(), vec![7, 8, 9, 10]);
}

#[test]
fn a_frame_adopts_an_image_buffer_without_changing_its_bytes() {
    let mut buffer = RgbaImage::new(3, 2);
    buffer.put_pixel(2, 1, image::Rgba([11u8, 22, 33, 44]));
    let (width, height) = buffer.dimensions();

    let frame = Frame::new(width, height, buffer.into_raw()).expect("a fresh RgbaImage is consistent");

    assert_eq!((frame.width(), frame.height()), (3, 2));
    assert_eq!(&frame.pixels()[20..24], &[11, 22, 33, 44]);
}

fn mire(width: u32, height: u32) -> Frame {
    assert!(width <= 20 && height <= 12, "the mire's channel arithmetic only holds up to 20 x 12");

    let mut pixels = Vec::with_capacity(width as usize * height as usize * BYTES_PER_PIXEL);

    for row in 0..height {
        for column in 0..width {
            let serial = (row * width + column + 1) as u8;
            pixels.push(10 * (column as u8 + 1));
            pixels.push(100 + 10 * row as u8);
            pixels.push(serial);
            pixels.push(255 - serial);
        }
    }

    Frame::new(width, height, pixels).expect("the mire must match its own dimensions")
}

fn rect(x: u32, y: u32, width: u32, height: u32) -> PhysicalRect {
    PhysicalRect::new(x, y, width, height).expect("the test rectangle must have an area")
}

#[test]
fn the_mire_is_the_image_this_module_thinks_it_is() {
    let frame = mire(5, 4);

    assert_eq!(frame.pixels().len(), 5 * 4 * 4);
    assert_eq!(&frame.pixels()[0..4], &[10, 100, 1, 254]);
    assert_eq!(&frame.pixels()[24..28], &[20, 110, 7, 248]);
    assert_eq!(&frame.pixels()[56..60], &[50, 120, 15, 240]);
    assert_eq!(&frame.pixels()[76..80], &[50, 130, 20, 235]);
}

#[test]
fn a_crop_is_exact_to_the_byte() {
    let frame = mire(5, 4);

    let cut = crop(&frame, rect(1, 1, 3, 2)).expect("3x2 at (1, 1) fits inside 5x4");

    let expected: Vec<u8> = vec![
        20, 110, 7, 248, 30, 110, 8, 247, 40, 110, 9, 246, //
        20, 120, 12, 243, 30, 120, 13, 242, 40, 120, 14, 241,
    ];

    assert_eq!((cut.width(), cut.height()), (3, 2), "3 wide and 2 high, not 2x3");
    assert_eq!(cut.pixels(), &expected[..], "the cut must be exact to the byte");
}

#[test]
fn shifting_that_crop_by_one_pixel_changes_the_bytes_in_every_direction() {
    let frame = mire(5, 4);
    let reference = crop(&frame, rect(1, 1, 3, 2)).expect("the reference rectangle fits").into_pixels();

    for (direction, shifted) in [
        ("one column left", rect(0, 1, 3, 2)),
        ("one column right", rect(2, 1, 3, 2)),
        ("one row up", rect(1, 0, 3, 2)),
        ("one row down", rect(1, 2, 3, 2)),
    ] {
        let moved = crop(&frame, shifted).expect("every shifted rectangle still fits inside 5x4").into_pixels();

        assert_ne!(
            moved, reference,
            "moving the rectangle {direction} produced the same bytes; an off-by-one in `crop` would go undetected"
        );
    }
}

#[test]
fn a_crop_of_the_whole_image_returns_the_image_unchanged() {
    let frame = mire(5, 4);
    let expected = frame.pixels().to_vec();

    let cut = crop(&frame, rect(0, 0, 5, 4)).expect("the whole image is a legal selection");

    assert_eq!((cut.width(), cut.height()), (5, 4));
    assert_eq!(cut.into_pixels(), expected);
}

#[test]
fn a_single_pixel_crop_returns_that_one_pixel() {
    let frame = mire(5, 4);

    let cut = crop(&frame, rect(4, 3, 1, 1)).expect("the last pixel is inside the image");

    assert_eq!((cut.width(), cut.height()), (1, 1));
    assert_eq!(cut.pixels(), &[50, 130, 20, 235]);
}

#[test]
fn a_rectangle_that_leaves_the_image_is_refused_and_not_clamped() {
    let frame = mire(5, 4);

    assert!(crop(&frame, rect(3, 0, 3, 1)).is_err(), "one column too far");
    assert!(crop(&frame, rect(0, 3, 1, 2)).is_err(), "one row too far");
    assert!(crop(&frame, rect(5, 0, 1, 1)).is_err(), "origin past the right edge");
    assert!(
        crop(&frame, rect(4, 3, 1, 1)).is_ok(),
        "the last pixel must still be reachable, or the check is off by one itself"
    );

    let message = crop(&frame, rect(3, 0, 3, 1)).err().expect("3 + 3 > 5");
    assert!(
        message.contains("5x4") && message.contains("3x1"),
        "the message must name both rectangles to be actionable: {message}"
    );
    assert_eq!(
        message,
        "a selection of 3x1 at (3, 0) reaches (6, 1), which is outside a 5x4 capture"
    );
}

#[test]
fn a_crop_can_be_encoded_like_any_other_frame() {
    let frame = mire(5, 4);
    let cut = crop(&frame, rect(1, 1, 3, 2)).expect("must cut");
    let expected = cut.pixels().to_vec();

    let png = encode_png(&cut).expect("a 3x2 frame encodes");
    let decoded = image::load_from_memory_with_format(&png, ImageFormat::Png)
        .expect("what we just encoded must decode")
        .into_rgba8();

    assert_eq!(decoded.dimensions(), (3, 2));
    assert_eq!(decoded.into_raw(), expected);
}

#[derive(Clone, Copy, Debug)]
enum Grip {
    Nw,
    N,
    Ne,
    W,
    E,
    Sw,
    S,
    Se,
}

#[derive(Clone, Copy, Debug, PartialEq)]
struct Drag {
    anchor: (f64, f64),
    pointer: (f64, f64),
}

impl Drag {
    fn new(anchor: (f64, f64), pointer: (f64, f64)) -> Self {
        Self { anchor, pointer }
    }

    fn left(self) -> f64 {
        self.anchor.0.min(self.pointer.0)
    }

    fn right(self) -> f64 {
        self.anchor.0.max(self.pointer.0)
    }

    fn top(self) -> f64 {
        self.anchor.1.min(self.pointer.1)
    }

    fn bottom(self) -> f64 {
        self.anchor.1.max(self.pointer.1)
    }

    fn grab(self, grip: Grip, to: (f64, f64)) -> Self {
        match grip {
            Grip::Nw => Self::new((self.right(), self.bottom()), to),
            Grip::Ne => Self::new((self.left(), self.bottom()), to),
            Grip::Sw => Self::new((self.right(), self.top()), to),
            Grip::Se => Self::new((self.left(), self.top()), to),
            Grip::N => Self::new((self.left(), self.bottom()), (self.right(), to.1)),
            Grip::S => Self::new((self.left(), self.top()), (self.right(), to.1)),
            Grip::W => Self::new((self.right(), self.top()), (to.0, self.bottom())),
            Grip::E => Self::new((self.left(), self.top()), (to.0, self.bottom())),
        }
    }
}

#[test]
fn every_grip_anchors_on_the_side_it_is_not_moving() {
    let start = Drag::new((10.0, 20.0), (30.0, 40.0));

    assert_eq!(start.grab(Grip::Se, (35.0, 45.0)).anchor, (10.0, 20.0));
    assert_eq!(start.grab(Grip::Nw, (5.0, 15.0)).anchor, (30.0, 40.0));
    assert_eq!(start.grab(Grip::Ne, (35.0, 15.0)).anchor, (10.0, 40.0));
    assert_eq!(start.grab(Grip::Sw, (5.0, 45.0)).anchor, (30.0, 20.0));

    let north = start.grab(Grip::N, (999.0, 12.0));
    assert_eq!((north.left(), north.right()), (10.0, 30.0));
    assert_eq!((north.top(), north.bottom()), (12.0, 40.0));

    let south = start.grab(Grip::S, (999.0, 50.0));
    assert_eq!((south.left(), south.right()), (10.0, 30.0));
    assert_eq!((south.top(), south.bottom()), (20.0, 50.0));

    let west = start.grab(Grip::W, (4.0, 999.0));
    assert_eq!((west.left(), west.right()), (4.0, 30.0));
    assert_eq!((west.top(), west.bottom()), (20.0, 40.0));

    let east = start.grab(Grip::E, (44.0, 999.0));
    assert_eq!((east.left(), east.right()), (10.0, 44.0));
    assert_eq!((east.top(), east.bottom()), (20.0, 40.0));
}

fn le_i32(bytes: &[u8], offset: usize) -> i32 {
    let field: [u8; 4] = bytes
        .get(offset..offset + 4)
        .and_then(|slice| slice.try_into().ok())
        .unwrap_or_else(|| panic!("no 4 bytes at offset {offset} of a {}-byte file", bytes.len()));
    i32::from_le_bytes(field)
}

fn le_u32(bytes: &[u8], offset: usize) -> u32 {
    le_i32(bytes, offset) as u32
}

fn le_u16(bytes: &[u8], offset: usize) -> u16 {
    let field: [u8; 2] = bytes
        .get(offset..offset + 2)
        .and_then(|slice| slice.try_into().ok())
        .unwrap_or_else(|| panic!("no 2 bytes at offset {offset}"));
    u16::from_le_bytes(field)
}

#[test]
fn a_bmp_is_a_66_byte_header_followed_by_the_pixels_unchanged() {
    let frame = known_frame();
    let expected = frame.pixels().to_vec();

    let bmp = encode_bmp(&frame).expect("a 3x2 frame must encode");

    assert_eq!(bmp.len(), BMP_HEADER_BYTES + expected.len());
    assert_eq!(&bmp[..2], b"BM", "every BMP starts with 'BM'");
    assert_eq!(&bmp[BMP_HEADER_BYTES..], &expected[..]);
}

#[test]
fn the_bmp_header_declares_top_down_rows_and_bitfields_in_rgb_byte_order() {
    let bmp = encode_bmp(&known_frame()).expect("must encode");

    assert_eq!(le_u32(&bmp, 2), bmp.len() as u32, "bfSize is the whole file");
    assert_eq!(le_u32(&bmp, 10), 66, "bfOffBits must clear header AND masks");
    assert_eq!(le_u32(&bmp, 14), 40, "biSize: BITMAPINFOHEADER");
    assert_eq!(le_i32(&bmp, 18), 3, "biWidth");
    assert_eq!(le_i32(&bmp, 22), -2, "biHeight must be NEGATIVE");
    assert_eq!(le_u16(&bmp, 26), 1, "biPlanes");
    assert_eq!(le_u16(&bmp, 28), 32, "biBitCount");
    assert_eq!(le_u32(&bmp, 30), 3, "biCompression must be BI_BITFIELDS");
    assert_eq!(le_u32(&bmp, 34), 24, "biSizeImage: 3x2x4");

    assert_eq!(le_u32(&bmp, 54), 0x0000_00FF, "red is the FIRST byte");
    assert_eq!(le_u32(&bmp, 58), 0x0000_FF00, "green is the second");
    assert_eq!(le_u32(&bmp, 62), 0x00FF_0000, "blue is the third");
}

#[test]
fn a_bmp_round_trips_through_an_independent_decoder() {
    let frame = known_frame();
    let expected = frame.pixels().to_vec();

    let bmp = encode_bmp(&frame).expect("must encode");
    let decoded = image::load_from_memory_with_format(&bmp, ImageFormat::Bmp)
        .expect("what we just encoded must decode")
        .into_rgba8();

    assert_eq!(decoded.dimensions(), (3, 2), "3 wide and 2 high, not 2x3");

    let actual = decoded.into_raw();
    for (index, (got, want)) in actual.chunks_exact(4).zip(expected.chunks_exact(4)).enumerate() {
        assert_eq!(
            &got[..3],
            &want[..3],
            "pixel {index}: R,G,B must survive the round trip (alpha is not carried, by design)"
        );
    }
    assert_eq!(actual.len(), expected.len());
}

#[test]
fn the_bmp_decoder_rejects_nonsense_so_the_round_trip_is_not_vacuous() {
    assert!(image::load_from_memory_with_format(b"not a bmp", ImageFormat::Bmp).is_err());
    assert!(image::load_from_memory_with_format(b"BM", ImageFormat::Bmp).is_err());
}

#[test]
fn a_bmp_costs_the_raw_size_and_a_png_does_not_which_is_the_whole_trade() {
    let frame = known_frame();

    let bmp = encode_bmp(&frame).expect("must encode");

    assert_eq!(
        bmp.len() - BMP_HEADER_BYTES,
        frame.pixels().len(),
        "a BMP that is not exactly the raw pixels means work is being done per pixel"
    );
}

#[test]
fn the_two_timing_labels_are_distinct_and_stable() {
    assert_ne!(MARK_CAPTURE, MARK_ENCODE_PNG);
    assert_eq!(MARK_CAPTURE, "capture");
    assert_eq!(MARK_ENCODE_PNG, "encode_png");
}

#[test]
fn the_primary_monitor_is_the_one_that_says_so_not_the_first_one() {
    let answers = vec![Ok(false), Ok(true), Ok(true)];

    assert_eq!(choose_primary(&answers), Ok(1));
}

#[test]
fn no_monitor_at_all_is_an_error_of_its_own() {
    assert_eq!(choose_primary(&Vec::new()), Err("no monitor at all was enumerated".to_owned()));
}

#[test]
fn a_monitor_that_could_not_be_asked_is_told_apart_from_none_being_primary() {
    let unasked = vec![Ok(false), Err("access denied".to_owned()), Err("second".to_owned())];
    assert_eq!(
        choose_primary(&unasked),
        Err("could not tell which monitor is primary: access denied".to_owned())
    );

    let none = vec![Ok(false), Ok(false)];
    assert_eq!(choose_primary(&none), Err("no monitor reports itself as the primary one".to_owned()));

    let found_after_a_failure = vec![Err("flaky".to_owned()), Ok(true)];
    assert_eq!(choose_primary(&found_after_a_failure), Ok(1));
}

#[test]
fn capture_and_encode_marks_both_steps_and_keeps_the_frame() {
    let mut timings = Timings::new();
    timings.begin_run();

    let shot = cliche::capture::capture_and_encode(&mut timings, Ok(known_frame())).expect("must encode");
    timings.finish_run();

    assert_eq!(shot.frame().pixels(), known_frame().pixels());
    assert!(shot.png().starts_with(&PNG_SIGNATURE));
    let report = timings.report();
    assert_eq!(report.steps.len(), 2);
    assert_eq!(report.steps[0].label, MARK_CAPTURE);
    assert_eq!(report.steps[1].label, MARK_ENCODE_PNG);
}

#[test]
fn a_failed_grab_is_handed_back_untouched_and_marks_nothing() {
    let mut timings = Timings::new();
    timings.begin_run();

    let failed = cliche::capture::capture_and_encode(&mut timings, Err("no screen".to_owned()));
    timings.finish_run();

    assert_eq!(failed.err(), Some("no screen".to_owned()));
    assert_eq!(timings.report().runs, 0);
    assert_eq!(timings.report().discarded_runs, 1);
}

#[test]
fn a_bmp_header_is_exact_to_the_byte() {
    let bmp = encode_bmp(&known_frame()).expect("must encode");

    let expected_header: Vec<u8> = vec![
        66, 77, 90, 0, 0, 0, 0, 0, 0, 0, 66, 0, 0, 0, //
        40, 0, 0, 0, 3, 0, 0, 0, 254, 255, 255, 255, 1, 0, 32, 0, 3, 0, 0, 0, 24, 0, 0, 0, //
        0, 0, 0, 0, 0, 0, 0, 0, 0, 0, 0, 0, 0, 0, 0, 0, //
        255, 0, 0, 0, 0, 255, 0, 0, 0, 0, 255, 0,
    ];
    assert_eq!(&bmp[..BMP_HEADER_BYTES], &expected_header[..]);
}
