//! Frames, their cuts, and the two encodings that carry them: PNG through the
//! `image` crate, and a hand-written BMP that is a header and the pixels.
use vstd::prelude::*;
use image::ImageEncoder;
use vstd::string::*;
use crate::geometry::PhysicalRect;
use crate::text::{decimal, push_decimal};
use crate::timing::{marked, Timings};

verus! {

/// Timing label for the grab itself.
pub const MARK_CAPTURE: &'static str = "capture";

/// Timing label for the PNG encode.
pub const MARK_ENCODE_PNG: &'static str = "encode_png";

/// Bytes per pixel in RGBA8.
pub const BYTES_PER_PIXEL: usize = 4;

/// Size of the BMP header this module writes: file header (14), info header
/// (40) and three channel masks (12).
pub const BMP_HEADER_BYTES: usize = 66;

/// The byte count RGBA8 needs for a `width` x `height` image.
pub open spec fn rgba_len(width: nat, height: nat) -> nat {
    width * height * 4
}

/// What a frame holds: its dimensions and its RGBA8 bytes, row-major from the
/// top-left, no padding.
pub struct FrameView {
    pub width: u32,
    pub height: u32,
    pub pixels: Seq<u8>,
}

/// One captured frame. Its length always agrees with its dimensions, and
/// neither dimension is zero.
#[derive(PartialEq, Eq)]
pub struct Frame {
    width: u32,
    height: u32,
    pixels: Vec<u8>,
}

impl View for Frame {
    type V = FrameView;

    closed spec fn view(&self) -> FrameView {
        FrameView { width: self.width, height: self.height, pixels: self.pixels@ }
    }
}

/// Why a zero-sized capture is refused.
pub open spec fn zero_frame_message(width: u32, height: u32) -> Seq<char> {
    "a capture of "@ + decimal(width as nat) + "x"@ + decimal(height as nat)
        + " has no pixels; the grab failed without reporting it"@
}

/// Why a buffer whose length contradicts its dimensions is refused.
pub open spec fn length_mismatch_message(actual: nat, width: u32, height: u32) -> Seq<char> {
    "capture buffer is "@ + decimal(actual) + " byte(s) but "@ + decimal(width as nat) + "x"@
        + decimal(height as nat) + " RGBA needs "@ + decimal(rgba_len(width as nat, height as nat))
}

/// Why a frame too large for memory is refused.
pub open spec fn oversized_message(width: u32, height: u32) -> Seq<char> {
    "a capture of "@ + decimal(width as nat) + "x"@ + decimal(height as nat) + " does not fit in memory"@
}

impl Frame {
    #[verifier::type_invariant]
    spec fn consistent(self) -> bool {
        &&& self.width > 0
        &&& self.height > 0
        &&& self.pixels@.len() == rgba_len(self.width as nat, self.height as nat)
    }

    /// Builds a frame, refusing a zero dimension and any length that
    /// contradicts the dimensions.
    pub fn new(width: u32, height: u32, pixels: Vec<u8>) -> (frame: Result<Self, String>)
        ensures
            match frame {
                Ok(f) => {
                    &&& width > 0 && height > 0
                    &&& pixels@.len() == rgba_len(width as nat, height as nat)
                    &&& f@ == (FrameView { width, height, pixels: pixels@ })
                },
                Err(message) => {
                    if width == 0 || height == 0 {
                        message@ == zero_frame_message(width, height)
                    } else if rgba_len(width as nat, height as nat) > usize::MAX {
                        message@ == oversized_message(width, height)
                    } else {
                        &&& pixels@.len() != rgba_len(width as nat, height as nat)
                        &&& message@ == length_mismatch_message(pixels@.len(), width, height)
                    }
                },
            },
    {
        if width == 0 || height == 0 {
            let mut message = String::from_str("a capture of ");
            push_decimal(&mut message, width as u64);
            message.append("x");
            push_decimal(&mut message, height as u64);
            message.append(" has no pixels; the grab failed without reporting it");
            return Err(message);
        }
        let w = width as u128;
        let h = height as u128;
        assert(w * h * 4 <= 0xffff_ffffu128 * 0xffff_ffffu128 * 4) by (nonlinear_arith)
            requires
                w <= 0xffff_ffffu128,
                h <= 0xffff_ffffu128,
        ;
        let wide: u128 = w * h * 4;
        if wide > usize::MAX as u128 {
            let mut message = String::from_str("a capture of ");
            push_decimal(&mut message, width as u64);
            message.append("x");
            push_decimal(&mut message, height as u64);
            message.append(" does not fit in memory");
            return Err(message);
        }
        let expected = wide as usize;
        if pixels.len() != expected {
            let mut message = String::from_str("capture buffer is ");
            push_decimal(&mut message, pixels.len() as u64);
            message.append(" byte(s) but ");
            push_decimal(&mut message, width as u64);
            message.append("x");
            push_decimal(&mut message, height as u64);
            message.append(" RGBA needs ");
            push_decimal(&mut message, expected as u64);
            return Err(message);
        }
        Ok(Frame { width, height, pixels })
    }

    pub fn width(&self) -> (width: u32)
        ensures
            width == self@.width,
            width > 0,
    {
        proof {
            use_type_invariant(self);
        }
        self.width
    }

    pub fn height(&self) -> (height: u32)
        ensures
            height == self@.height,
            height > 0,
    {
        proof {
            use_type_invariant(self);
        }
        self.height
    }

    /// Borrows the RGBA bytes.
    pub fn pixels(&self) -> (pixels: &[u8])
        ensures
            pixels@ == self@.pixels,
            pixels@.len() == rgba_len(self@.width as nat, self@.height as nat),
    {
        proof {
            use_type_invariant(self);
        }
        self.pixels.as_slice()
    }

    /// The shape of the frame, never its bytes: a log line must not dump a
    /// whole screenshot into the terminal.
    pub fn describe(&self) -> (line: String)
        ensures
            line@ == "Frame { width: "@ + decimal(self@.width as nat) + ", height: "@ + decimal(
                self@.height as nat,
            ) + ", bytes: "@ + decimal(self@.pixels.len()) + " }"@,
    {
        let mut line = String::from_str("Frame { width: ");
        push_decimal(&mut line, self.width as u64);
        line.append(", height: ");
        push_decimal(&mut line, self.height as u64);
        line.append(", bytes: ");
        push_decimal(&mut line, self.pixels.len() as u64);
        line.append(" }");
        line
    }

    /// Hands the buffer over, without copying it.
    pub fn into_pixels(self) -> (pixels: Vec<u8>)
        ensures
            pixels@ == self@.pixels,
    {
        self.pixels
    }
}

/// Where row `row` of a cut at (`x`, `y`) starts in a frame `frame_width` wide.
pub open spec fn row_start(frame_width: nat, x: nat, y: nat, row: nat) -> nat {
    ((y + row) * frame_width + x) * 4
}

/// The first `rows` rows of the cut: each one `width` pixels of the frame's
/// row `y + row`, starting at column `x`, one after the other.
pub open spec fn cropped_rows(pixels: Seq<u8>, frame_width: nat, x: nat, y: nat, width: nat, rows: nat) -> Seq<u8>
    decreases rows,
{
    if rows == 0 {
        Seq::empty()
    } else {
        let start = row_start(frame_width, x, y, (rows - 1) as nat);
        cropped_rows(pixels, frame_width, x, y, width, (rows - 1) as nat) + pixels.subrange(
            start as int,
            (start + width * 4) as int,
        )
    }
}

/// Whether a rectangle lies inside a frame.
pub open spec fn fits_inside(x: nat, y: nat, width: nat, height: nat, frame_width: nat, frame_height: nat) -> bool {
    x + width <= frame_width && y + height <= frame_height
}

/// Why a rectangle that leaves the frame is refused.
pub open spec fn outside_message(x: nat, y: nat, width: nat, height: nat, frame_width: nat, frame_height: nat) -> Seq<char> {
    "a selection of "@ + decimal(width) + "x"@ + decimal(height) + " at ("@ + decimal(x) + ", "@ + decimal(y)
        + ") reaches ("@ + decimal(x + width) + ", "@ + decimal(y + height) + "), which is outside a "@
        + decimal(frame_width) + "x"@ + decimal(frame_height) + " capture"@
}

proof fn lemma_row_in_bounds(frame_width: nat, frame_height: nat, x: nat, y: nat, width: nat, row: nat)
    requires
        x + width <= frame_width,
        y + row < frame_height,
    ensures
        row_start(frame_width, x, y, row) + width * 4 <= frame_width * frame_height * 4,
        (y + row) * frame_width <= frame_width * frame_height,
        width * 4 <= frame_width * frame_height * 4,
{
    assert(width * 4 <= frame_width * frame_height * 4) by (nonlinear_arith)
        requires
            width <= frame_width,
            1 <= frame_height,
    ;
    assert((y + row) * frame_width + x + width <= (y + row + 1) * frame_width) by (nonlinear_arith)
        requires
            x + width <= frame_width,
    ;
    assert((y + row + 1) * frame_width <= frame_height * frame_width) by (nonlinear_arith)
        requires
            y + row + 1 <= frame_height,
    ;
    assert(frame_height * frame_width == frame_width * frame_height) by (nonlinear_arith);
}

proof fn lemma_cropped_len(pixels: Seq<u8>, frame_width: nat, frame_height: nat, x: nat, y: nat, width: nat, rows: nat)
    requires
        x + width <= frame_width,
        y + rows <= frame_height,
        pixels.len() == frame_width * frame_height * 4,
    ensures
        cropped_rows(pixels, frame_width, x, y, width, rows).len() == rows * width * 4,
    decreases rows,
{
    if rows > 0 {
        let before: nat = (rows - 1) as nat;
        lemma_cropped_len(pixels, frame_width, frame_height, x, y, width, before);
        lemma_row_in_bounds(frame_width, frame_height, x, y, width, before);
        let start = row_start(frame_width, x, y, before);
        let piece = pixels.subrange(start as int, (start + width * 4) as int);
        assert(piece.len() == width * 4);
        assert(cropped_rows(pixels, frame_width, x, y, width, rows) == cropped_rows(pixels, frame_width, x, y, width, before) + piece);
        assert(before * width * 4 + width * 4 == rows * width * 4) by (nonlinear_arith)
            requires
                before + 1 == rows,
        ;
    } else {
        assert(0 * width * 4 == 0) by (nonlinear_arith);
    }
}

/// Cuts a rectangle out of a frame. A rectangle that leaves the frame is an
/// error, never a clamp.
pub fn crop(frame: &Frame, rect: PhysicalRect) -> (cut: Result<Frame, String>)
    ensures
        ({
            let f = frame@;
            let r = rect@;
            let inside = fits_inside(r.x as nat, r.y as nat, r.width as nat, r.height as nat, f.width as nat, f.height as nat);
            match cut {
                Ok(c) => inside && c@ == (FrameView {
                    width: r.width,
                    height: r.height,
                    pixels: cropped_rows(f.pixels, f.width as nat, r.x as nat, r.y as nat, r.width as nat, r.height as nat),
                }),
                Err(message) => !inside && message@ == outside_message(
                    r.x as nat, r.y as nat, r.width as nat, r.height as nat, f.width as nat, f.height as nat,
                ),
            }
        }),
{
    let frame_width = frame.width();
    let frame_height = frame.height();
    let x = rect.x();
    let y = rect.y();
    let width = rect.width();
    let height = rect.height();
    let right: u64 = x as u64 + width as u64;
    let bottom: u64 = y as u64 + height as u64;
    if right > frame_width as u64 || bottom > frame_height as u64 {
        let mut message = String::from_str("a selection of ");
        push_decimal(&mut message, width as u64);
        message.append("x");
        push_decimal(&mut message, height as u64);
        message.append(" at (");
        push_decimal(&mut message, x as u64);
        message.append(", ");
        push_decimal(&mut message, y as u64);
        message.append(") reaches (");
        push_decimal(&mut message, right);
        message.append(", ");
        push_decimal(&mut message, bottom);
        message.append("), which is outside a ");
        push_decimal(&mut message, frame_width as u64);
        message.append("x");
        push_decimal(&mut message, frame_height as u64);
        message.append(" capture");
        return Err(message);
    }
    let source = frame.pixels();
    let total: usize = source.len();
    let ghost src = source@;
    let ghost fw = frame_width as nat;
    let ghost fh = frame_height as nat;
    proof {
        lemma_row_in_bounds(fw, fh, x as nat, y as nat, width as nat, 0);
        assert(width * 4 <= total);
    }
    let row_bytes: usize = width as usize * BYTES_PER_PIXEL;
    let mut pixels: Vec<u8> = Vec::new();
    let mut row: u32 = 0;
    while row < height
        invariant
            row <= height,
            src == source@,
            src.len() == fw * fh * 4,
            total == src.len(),
            fw == frame_width as nat,
            fh == frame_height as nat,
            x + width <= frame_width,
            y + height <= frame_height,
            row_bytes == width * 4,
            pixels@ == cropped_rows(src, fw, x as nat, y as nat, width as nat, row as nat),
        decreases height - row,
    {
        proof {
            lemma_row_in_bounds(fw, fh, x as nat, y as nat, width as nat, row as nat);
        }
        assert((y + row) * frame_width <= total);
        assert(row_start(fw, x as nat, y as nat, row as nat) <= total);
        let line: usize = (y as usize + row as usize) * frame_width as usize;
        let start: usize = (line + x as usize) * BYTES_PER_PIXEL;
        let ghost before = pixels@;
        let mut k: usize = 0;
        while k < row_bytes
            invariant
                k <= row_bytes,
                row_bytes == width * 4,
                src == source@,
                start == row_start(fw, x as nat, y as nat, row as nat),
                start + row_bytes <= src.len(),
                start + row_bytes <= source.len(),
                pixels@ == before + src.subrange(start as int, start + k),
            decreases row_bytes - k,
        {
            pixels.push(source[start + k]);
            k = k + 1;
            assert(pixels@ =~= before + src.subrange(start as int, start + k));
        }
        row = row + 1;
    }
    proof {
        lemma_cropped_len(src, fw, fh, x as nat, y as nat, width as nat, height as nat);
        assert(height as nat * width as nat * 4 == width as nat * height as nat * 4) by (nonlinear_arith);
    }
    let produced: usize = pixels.len();
    assert(produced == rgba_len(width as nat, height as nat));
    let cut = Frame::new(width, height, pixels);
    match cut {
        Ok(c) => Ok(c),
        Err(message) => {
            assert(false);
            Err(message)
        },
    }
}

/// `value` as two little-endian bytes.
pub open spec fn le16(value: nat) -> Seq<u8> {
    seq![(value % 256) as u8, ((value / 256) % 256) as u8]
}

/// `value` as four little-endian bytes.
pub open spec fn le32(value: nat) -> Seq<u8> {
    seq![
        (value % 256) as u8,
        ((value / 256) % 256) as u8,
        ((value / 65536) % 256) as u8,
        ((value / 16777216) % 256) as u8,
    ]
}

/// The 66-byte header of a top-down, 32-bit, `BI_BITFIELDS` BMP whose masks
/// read the bytes as R, G, B in that order: `biHeight` is the negative height,
/// written as its 32-bit two's complement.
pub open spec fn bmp_header(width: nat, height: nat, payload: nat) -> Seq<u8> {
    seq![66u8, 77u8] + le32(66 + payload) + le16(0) + le16(0) + le32(66) + le32(40) + le32(width)
        + le32((4294967296 - height) as nat) + le16(1) + le16(32) + le32(3) + le32(payload) + le32(0)
        + le32(0) + le32(0) + le32(0) + le32(255) + le32(65280) + le32(16711680)
}

/// Appends `value` as two little-endian bytes.
fn push_le16(bytes: &mut Vec<u8>, value: u16)
    ensures
        final(bytes)@ == old(bytes)@ + le16(value as nat),
{
    bytes.push((value % 256) as u8);
    bytes.push(((value / 256) % 256) as u8);
    assert(bytes@ =~= old(bytes)@ + le16(value as nat));
}

/// Appends `value` as four little-endian bytes.
fn push_le32(bytes: &mut Vec<u8>, value: u32)
    ensures
        final(bytes)@ == old(bytes)@ + le32(value as nat),
{
    bytes.push((value % 256) as u8);
    bytes.push(((value / 256) % 256) as u8);
    bytes.push(((value / 65536) % 256) as u8);
    bytes.push(((value / 16777216) % 256) as u8);
    assert(bytes@ =~= old(bytes)@ + le32(value as nat));
}

/// Why a dimension that does not fit a signed 32-bit BMP field is refused.
pub open spec fn bmp_dimension_message(name: Seq<char>, value: nat) -> Seq<char> {
    "a "@ + name + " of "@ + decimal(value) + " does not fit a BMP header"@
}

/// Why a payload larger than 32 bits can count is refused.
pub open spec fn bmp_payload_message(bytes: nat) -> Seq<char> {
    "a payload of "@ + decimal(bytes) + " byte(s) does not fit a BMP header"@
}

/// Largest value of a signed 32-bit field.
pub const I32_LIMIT: u32 = 2147483647;

/// Largest value of an unsigned 32-bit field.
pub const U32_LIMIT: usize = 4294967295;

/// Why a frame cannot be written as a BMP, if it cannot: a dimension past a
/// signed 32-bit field, or a payload or file size past 32 bits.
pub open spec fn bmp_refusal(f: FrameView) -> Option<Seq<char>> {
    let payload = f.pixels.len();
    if f.width > I32_LIMIT {
        Some(bmp_dimension_message("width"@, f.width as nat))
    } else if f.height > I32_LIMIT {
        Some(bmp_dimension_message("height"@, f.height as nat))
    } else if payload > U32_LIMIT {
        Some(bmp_payload_message(payload))
    } else if payload + 66 > U32_LIMIT {
        Some("the BMP file size does not fit in 32 bits"@)
    } else {
        None
    }
}

/// Wraps a frame in a BMP header, in memory, without touching the pixels: the
/// file is the 66-byte header followed by the RGBA bytes unchanged.
pub fn encode_bmp(frame: &Frame) -> (bmp: Result<Vec<u8>, String>)
    ensures
        match bmp {
            Ok(bytes) => bmp_refusal(frame@) is None && bytes@ == bmp_header(
                frame@.width as nat,
                frame@.height as nat,
                frame@.pixels.len(),
            ) + frame@.pixels,
            Err(message) => bmp_refusal(frame@) == Some(message@),
        },
{
    let pixels = frame.pixels();
    let width = frame.width();
    let height = frame.height();
    if width > I32_LIMIT {
        let mut message = String::from_str("a ");
        message.append("width");
        message.append(" of ");
        push_decimal(&mut message, width as u64);
        message.append(" does not fit a BMP header");
        return Err(message);
    }
    if height > I32_LIMIT {
        let mut message = String::from_str("a ");
        message.append("height");
        message.append(" of ");
        push_decimal(&mut message, height as u64);
        message.append(" does not fit a BMP header");
        return Err(message);
    }
    let payload_len = pixels.len();
    if payload_len > U32_LIMIT {
        let mut message = String::from_str("a payload of ");
        push_decimal(&mut message, payload_len as u64);
        message.append(" byte(s) does not fit a BMP header");
        return Err(message);
    }
    if payload_len > U32_LIMIT - BMP_HEADER_BYTES {
        return Err(String::from_str("the BMP file size does not fit in 32 bits"));
    }
    let payload = payload_len as u32;
    let mut bmp: Vec<u8> = Vec::new();
    bmp.push(66u8);
    bmp.push(77u8);
    push_le32(&mut bmp, 66 + payload);
    push_le16(&mut bmp, 0);
    push_le16(&mut bmp, 0);
    push_le32(&mut bmp, 66);
    push_le32(&mut bmp, 40);
    push_le32(&mut bmp, width);
    push_le32(&mut bmp, (4294967296u64 - height as u64) as u32);
    push_le16(&mut bmp, 1);
    push_le16(&mut bmp, 32);
    push_le32(&mut bmp, 3);
    push_le32(&mut bmp, payload);
    push_le32(&mut bmp, 0);
    push_le32(&mut bmp, 0);
    push_le32(&mut bmp, 0);
    push_le32(&mut bmp, 0);
    push_le32(&mut bmp, 255);
    push_le32(&mut bmp, 65280);
    push_le32(&mut bmp, 16711680);
    let ghost header = bmp@;
    assert(header =~= bmp_header(width as nat, height as nat, payload_len as nat));
    let mut i: usize = 0;
    while i < payload_len
        invariant
            i <= payload_len,
            payload_len == pixels@.len(),
            bmp@ == header + pixels@.subrange(0, i as int),
        decreases payload_len - i,
    {
        bmp.push(pixels[i]);
        i = i + 1;
        assert(bmp@ =~= header + pixels@.subrange(0, i as int));
    }
    assert(pixels@.subrange(0, payload_len as int) =~= pixels@);
    Ok(bmp)
}

/// The PNG file signature, the eight bytes every PNG file starts with.
pub open spec fn png_signature() -> Seq<u8> {
    seq![0x89u8, 0x50u8, 0x4eu8, 0x47u8, 0x0du8, 0x0au8, 0x1au8, 0x0au8]
}

/// The PNG the `image` crate writes for an RGBA8 image at `Fast` compression
/// with the `Adaptive` filter, or `None` when it refuses the image.
pub uninterp spec fn png_encoding(width: u32, height: u32, rgba: Seq<u8>) -> Option<Seq<u8>>;

/// Encodes RGBA8 bytes as PNG with `image::codecs::png::PngEncoder`
/// (`new_with_quality(Fast, Adaptive)`, then `write_image` with `Rgba8`).
///
/// Claimed of it: the output is a function of the dimensions and the bytes
/// (named `png_encoding`), a success is a file that begins with the PNG
/// signature, and a failure is reported with the encoder's own message. The
/// encoder panics when the buffer length contradicts the dimensions, which
/// the `requires` rules out.
#[verifier::external_body]
fn write_png(rgba: &[u8], width: u32, height: u32) -> (png: Result<Vec<u8>, String>)
    requires
        rgba@.len() == rgba_len(width as nat, height as nat),
    ensures
        match png {
            Ok(bytes) => png_encoding(width, height, rgba@) == Some(bytes@)
                && bytes@.len() >= 8 && bytes@.subrange(0, 8) == png_signature(),
            Err(_) => png_encoding(width, height, rgba@) is None,
        },
{
    let mut png = Vec::new();
    match image::codecs::png::PngEncoder::new_with_quality(
        &mut png,
        image::codecs::png::CompressionType::Fast,
        image::codecs::png::FilterType::Adaptive,
    ).write_image(rgba, width, height, image::ExtendedColorType::Rgba8) {
        Ok(()) => Ok(png),
        Err(error) => Err(error.to_string()),
    }
}

/// Encodes a frame as PNG, in memory.
pub fn encode_png(frame: &Frame) -> (png: Result<Vec<u8>, String>)
    ensures
        match png {
            Ok(bytes) => png_encoding(frame@.width, frame@.height, frame@.pixels) == Some(bytes@)
                && bytes@.subrange(0, 8) == png_signature(),
            Err(message) => png_encoding(frame@.width, frame@.height, frame@.pixels) is None
                && exists|reason: Seq<char>| message@ == "could not encode the capture as PNG: "@ + reason,
        },
{
    let pixels = frame.pixels();
    match write_png(pixels, frame.width(), frame.height()) {
        Ok(bytes) => Ok(bytes),
        Err(reason) => {
            let mut message = String::from_str("could not encode the capture as PNG: ");
            message.append(reason.as_str());
            assert(message@ == "could not encode the capture as PNG: "@ + reason@);
            Err(message)
        },
    }
}

/// A capture and its PNG, kept together.
pub struct Shot {
    frame: Frame,
    png: Vec<u8>,
}

impl Shot {
    /// The frame of this shot.
    pub closed spec fn frame_view(&self) -> FrameView {
        self.frame@
    }

    /// The PNG bytes of this shot.
    pub closed spec fn png_view(&self) -> Seq<u8> {
        self.png@
    }

    pub fn frame(&self) -> (frame: &Frame)
        ensures
            frame@ == self.frame_view(),
    {
        &self.frame
    }

    pub fn png(&self) -> (png: &[u8])
        ensures
            png@ == self.png_view(),
    {
        self.png.as_slice()
    }

    pub fn into_parts(self) -> (parts: (Frame, Vec<u8>))
        ensures
            parts.0@ == self.frame_view(),
            parts.1@ == self.png_view(),
    {
        (self.frame, self.png)
    }
}

/// Encodes a grabbed frame, timestamping each step on the run the caller has
/// already opened. A grab that failed is handed back untouched and marks
/// nothing; a failed encode keeps the capture mark only.
pub fn capture_and_encode(timings: &mut Timings, grabbed: Result<Frame, String>) -> (shot: Result<Shot, String>)
    ensures
        match grabbed {
            Err(reason) => shot == Err::<Shot, String>(reason) && *final(timings) == *old(timings),
            Ok(frame) => match shot {
                Ok(s) => {
                    &&& s.frame_view() == frame@
                    &&& png_encoding(frame@.width, frame@.height, frame@.pixels) == Some(s.png_view())
                    &&& exists|middle: Timings| marked(*old(timings), middle, MARK_CAPTURE@)
                        && marked(middle, *final(timings), MARK_ENCODE_PNG@)
                },
                Err(message) => {
                    &&& png_encoding(frame@.width, frame@.height, frame@.pixels) is None
                    &&& exists|reason: Seq<char>| message@ == "could not encode the capture as PNG: "@ + reason
                    &&& marked(*old(timings), *final(timings), MARK_CAPTURE@)
                },
            },
        },
{
    let frame = match grabbed {
        Ok(frame) => frame,
        Err(reason) => return Err(reason),
    };
    timings.mark(MARK_CAPTURE);
    let ghost middle = *timings;
    let png = match encode_png(&frame) {
        Ok(png) => png,
        Err(reason) => return Err(reason),
    };
    timings.mark(MARK_ENCODE_PNG);
    Ok(Shot { frame, png })
}

/// Why no monitor could be chosen when the list came back empty.
pub open spec fn no_monitor_message() -> Seq<char> {
    "no monitor at all was enumerated"@
}

/// Why no monitor could be chosen when none says it is the primary one.
pub open spec fn no_primary_message() -> Seq<char> {
    "no monitor reports itself as the primary one"@
}

/// Why no monitor could be chosen when some could not be asked.
pub open spec fn unanswered_message(reason: Seq<char>) -> Seq<char> {
    "could not tell which monitor is primary: "@ + reason
}

/// The first monitor, in enumeration order, that answered that it is primary.
pub open spec fn first_primary(answers: Seq<Result<bool, String>>) -> Option<int>
    decreases answers.len(),
{
    if answers.len() == 0 {
        None
    } else {
        match first_primary(answers.drop_last()) {
            Some(i) => Some(i),
            None => if answers.last() == Ok::<bool, String>(true) {
                Some(answers.len() - 1)
            } else {
                None
            },
        }
    }
}

/// The reason given by the first monitor, in enumeration order, that could not
/// be asked.
pub open spec fn first_failure(answers: Seq<Result<bool, String>>) -> Option<Seq<char>>
    decreases answers.len(),
{
    if answers.len() == 0 {
        None
    } else {
        match first_failure(answers.drop_last()) {
            Some(reason) => Some(reason),
            None => match answers.last() {
                Err(reason) => Some(reason@),
                Ok(_) => None,
            },
        }
    }
}

proof fn lemma_first_primary_step(answers: Seq<Result<bool, String>>, i: int)
    requires
        0 <= i < answers.len(),
        first_primary(answers.subrange(0, i)) is None,
    ensures
        first_primary(answers.subrange(0, i + 1)) == if answers[i] == Ok::<bool, String>(true) {
            Some(i)
        } else {
            None::<int>
        },
{
    assert(answers.subrange(0, i + 1).drop_last() =~= answers.subrange(0, i));
}

proof fn lemma_first_failure_step(answers: Seq<Result<bool, String>>, i: int)
    requires
        0 <= i < answers.len(),
    ensures
        first_failure(answers.subrange(0, i + 1)) == match first_failure(answers.subrange(0, i)) {
            Some(reason) => Some(reason),
            None => match answers[i] {
                Err(reason) => Some(reason@),
                Ok(_) => None::<Seq<char>>,
            },
        },
{
    assert(answers.subrange(0, i + 1).drop_last() =~= answers.subrange(0, i));
}

/// Picks the monitor that says it is primary, from what each monitor answered
/// when asked, in enumeration order. Never the first one by default: when none
/// claims it, the answer is an error, and it tells "none is primary" apart
/// from "some could not be asked", naming the first reason given.
pub fn choose_primary(answers: &Vec<Result<bool, String>>) -> (chosen: Result<usize, String>)
    ensures
        match chosen {
            Ok(index) => first_primary(answers@) == Some(index as int),
            Err(message) => {
                &&& first_primary(answers@) is None
                &&& message@ == if answers@.len() == 0 {
                    no_monitor_message()
                } else {
                    match first_failure(answers@) {
                        Some(reason) => unanswered_message(reason),
                        None => no_primary_message(),
                    }
                }
            },
        },
{
    if answers.len() == 0 {
        return Err(String::from_str("no monitor at all was enumerated"));
    }
    let mut first_error: Option<String> = None;
    let mut i: usize = 0;
    while i < answers.len()
        invariant
            i <= answers@.len(),
            first_primary(answers@.subrange(0, i as int)) is None,
            match first_error {
                Some(reason) => first_failure(answers@.subrange(0, i as int)) == Some(reason@),
                None => first_failure(answers@.subrange(0, i as int)) is None,
            },
        decreases answers.len() - i,
    {
        proof {
            lemma_first_primary_step(answers@, i as int);
            lemma_first_failure_step(answers@, i as int);
        }
        match &answers[i] {
            Ok(true) => {
                proof {
                    lemma_first_primary_extends(answers@, i as int + 1);
                }
                return Ok(i);
            },
            Ok(false) => {},
            Err(reason) => {
                if first_error.is_none() {
                    first_error = Some(reason.clone());
                }
            },
        }
        i = i + 1;
    }
    assert(answers@.subrange(0, answers@.len() as int) =~= answers@);
    match first_error {
        Some(reason) => {
            let mut message = String::from_str("could not tell which monitor is primary: ");
            message.append(reason.as_str());
            Err(message)
        },
        None => Err(String::from_str("no monitor reports itself as the primary one")),
    }
}

/// Once a prefix holds a primary monitor, every longer list finds that same one.
proof fn lemma_first_primary_extends(answers: Seq<Result<bool, String>>, k: int)
    requires
        0 <= k <= answers.len(),
        first_primary(answers.subrange(0, k)) is Some,
    ensures
        first_primary(answers) == first_primary(answers.subrange(0, k)),
    decreases answers.len() - k,
{
    if k < answers.len() {
        assert(answers.subrange(0, k + 1).drop_last() =~= answers.subrange(0, k));
        lemma_first_primary_extends(answers, k + 1);
    } else {
        assert(answers.subrange(0, k) =~= answers);
    }
}

proof fn lemma_whole_rows(pixels: Seq<u8>, width: nat, height: nat, rows: nat)
    requires
        pixels.len() == width * height * 4,
        rows <= height,
    ensures
        rows * width * 4 <= pixels.len(),
        cropped_rows(pixels, width, 0, 0, width, rows) == pixels.subrange(0, (rows * width * 4) as int),
    decreases rows,
{
    assert(rows * width * 4 <= height * width * 4) by (nonlinear_arith)
        requires
            rows <= height,
    ;
    assert(height * width * 4 == width * height * 4) by (nonlinear_arith);
    if rows > 0 {
        let before = (rows - 1) as nat;
        lemma_whole_rows(pixels, width, height, before);
        assert(row_start(width, 0, 0, before) == before * width * 4) by (nonlinear_arith);
        assert(before * width * 4 + width * 4 == rows * width * 4) by (nonlinear_arith)
            requires
                before + 1 == rows,
        ;
        assert(pixels.subrange(0, (before * width * 4) as int) + pixels.subrange(
            (before * width * 4) as int,
            (before * width * 4 + width * 4) as int,
        ) =~= pixels.subrange(0, (rows * width * 4) as int));
    } else {
        assert(0 * width * 4 == 0) by (nonlinear_arith);
        assert(pixels.subrange(0, 0) =~= Seq::<u8>::empty());
    }
}

/// A crop of the whole image is the image itself, byte for byte: whatever
/// the stride, the rows come out in order and nothing is left over.
pub proof fn law_whole_crop_is_the_image(pixels: Seq<u8>, width: nat, height: nat)
    requires
        pixels.len() == rgba_len(width, height),
    ensures
        fits_inside(0, 0, width, height, width, height),
        cropped_rows(pixels, width, 0, 0, width, height) == pixels,
{
    lemma_whole_rows(pixels, width, height, height);
    assert(height * width * 4 == width * height * 4) by (nonlinear_arith);
    assert(pixels.subrange(0, (height * width * 4) as int) =~= pixels);
}

} // verus!
