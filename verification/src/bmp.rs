//! The bitmap encoder: a 14-byte file header, a 40-byte info header and the
//! pixel rows, last row first, each row padded with zero bytes to a multiple
//! of four bytes.

use crate::error::EncodeError;
use crate::image::{Frame, Image};
use crate::pixel::Rgb;
use vstd::arithmetic::div_mod::lemma_fundamental_div_mod_converse;
use vstd::prelude::*;

verus! {

/// The length of the two headers together.
pub const BMP_HEADER_LEN: usize = 54;

/// The letters `BM`, read as a little-endian number.
pub const BMP_SIGNATURE: u16 = 0x4d42;

/// The value of the file-size field. It is the same for every image:
/// readers work the size out from the dimensions.
pub const BMP_FILE_SIZE: u32 = 58;

/// The length of the info header.
pub const BMP_INFO_SIZE: u32 = 40;

/// The number of colour planes.
pub const BMP_PLANES: u16 = 1;

/// The number of bits per pixel.
pub const BMP_BITS_PER_PIXEL: u16 = 24;

/// The resolution in pixels per metre, horizontal and vertical.
pub const BMP_RESOLUTION: u32 = 11811;

/// The largest width or height that the header can express.
pub const BMP_MAX_DIMENSION: u32 = 0xffff;

/// The file header and the info header of a bitmap, field by field in the
/// order in which they are written. Every field is little-endian.
#[derive(Clone, Copy, Debug, PartialEq, Eq, Structural)]
pub struct BmpHeader {
    pub signature: u16,
    pub file_size: u32,
    pub reserved: u32,
    pub data_offset: u32,
    pub info_size: u32,
    pub width: u32,
    pub height: u32,
    pub planes: u16,
    pub bits_per_pixel: u16,
    pub compression: u32,
    pub image_size: u32,
    pub x_resolution: u32,
    pub y_resolution: u32,
    pub palette_colors: u32,
    pub important_colors: u32,
}

/// The two bytes of `x`, low byte first.
pub open spec fn le_bytes16(x: u16) -> Seq<u8> {
    seq![(x % 256) as u8, (x / 256) as u8]
}

/// The four bytes of `x`, low byte first.
pub open spec fn le_bytes32(x: u32) -> Seq<u8> {
    seq![
        (x % 256) as u8,
        (x / 256 % 256) as u8,
        (x / 65536 % 256) as u8,
        (x / 16777216) as u8,
    ]
}

/// The header of an uncompressed 24-bit bitmap of the given dimensions.
pub open spec fn bmp_header(width: u16, height: u16) -> BmpHeader {
    BmpHeader {
        signature: BMP_SIGNATURE,
        file_size: BMP_FILE_SIZE,
        reserved: 0,
        data_offset: BMP_HEADER_LEN as u32,
        info_size: BMP_INFO_SIZE,
        width: width as u32,
        height: height as u32,
        planes: BMP_PLANES,
        bits_per_pixel: BMP_BITS_PER_PIXEL,
        compression: 0,
        image_size: 0,
        x_resolution: BMP_RESOLUTION,
        y_resolution: BMP_RESOLUTION,
        palette_colors: 0,
        important_colors: 0,
    }
}

impl BmpHeader {
    /// The header as it stands in the file.
    pub open spec fn bytes(self) -> Seq<u8> {
        le_bytes16(self.signature) + le_bytes32(self.file_size) + le_bytes32(self.reserved)
            + le_bytes32(self.data_offset) + le_bytes32(self.info_size) + le_bytes32(self.width)
            + le_bytes32(self.height) + le_bytes16(self.planes) + le_bytes16(self.bits_per_pixel)
            + le_bytes32(self.compression) + le_bytes32(self.image_size) + le_bytes32(
            self.x_resolution,
        ) + le_bytes32(self.y_resolution) + le_bytes32(self.palette_colors) + le_bytes32(
            self.important_colors,
        )
    }

    /// The header of an uncompressed 24-bit bitmap of the given dimensions.
    pub fn new(width: u16, height: u16) -> (header: BmpHeader)
        ensures
            header == bmp_header(width, height),
    {
        BmpHeader {
            signature: BMP_SIGNATURE,
            file_size: BMP_FILE_SIZE,
            reserved: 0,
            data_offset: BMP_HEADER_LEN as u32,
            info_size: BMP_INFO_SIZE,
            width: width as u32,
            height: height as u32,
            planes: BMP_PLANES,
            bits_per_pixel: BMP_BITS_PER_PIXEL,
            compression: 0,
            image_size: 0,
            x_resolution: BMP_RESOLUTION,
            y_resolution: BMP_RESOLUTION,
            palette_colors: 0,
            important_colors: 0,
        }
    }

    /// Serialises the header, field after field.
    pub fn to_bytes(&self) -> (out: Vec<u8>)
        ensures
            out@ == self.bytes(),
            out.len() == BMP_HEADER_LEN,
    {
        let mut out: Vec<u8> = Vec::new();
        push_u16_le(&mut out, self.signature);
        push_u32_le(&mut out, self.file_size);
        push_u32_le(&mut out, self.reserved);
        push_u32_le(&mut out, self.data_offset);
        push_u32_le(&mut out, self.info_size);
        push_u32_le(&mut out, self.width);
        push_u32_le(&mut out, self.height);
        push_u16_le(&mut out, self.planes);
        push_u16_le(&mut out, self.bits_per_pixel);
        push_u32_le(&mut out, self.compression);
        push_u32_le(&mut out, self.image_size);
        push_u32_le(&mut out, self.x_resolution);
        push_u32_le(&mut out, self.y_resolution);
        push_u32_le(&mut out, self.palette_colors);
        push_u32_le(&mut out, self.important_colors);
        assert(out@ =~= self.bytes());
        out
    }
}

/// The header byte by byte: everything but the low two bytes of the width
/// and of the height is the same for every image.
pub proof fn lemma_header_layout(width: u16, height: u16)
    ensures
        bmp_header(width, height).bytes().len() == BMP_HEADER_LEN,
        bmp_header(width, height).bytes() == seq![
            0x42u8, 0x4d,
            0x3a, 0x00, 0x00, 0x00,
            0x00, 0x00, 0x00, 0x00,
            0x36, 0x00, 0x00, 0x00,
            0x28, 0x00, 0x00, 0x00,
            (width % 256) as u8, (width / 256) as u8, 0x00, 0x00,
            (height % 256) as u8, (height / 256) as u8, 0x00, 0x00,
            0x01, 0x00,
            0x18, 0x00,
            0x00, 0x00, 0x00, 0x00,
            0x00, 0x00, 0x00, 0x00,
            0x23, 0x2e, 0x00, 0x00,
            0x23, 0x2e, 0x00, 0x00,
            0x00, 0x00, 0x00, 0x00,
            0x00, 0x00, 0x00, 0x00,
        ],
{
    let w = width as u32;
    let h = height as u32;
    assert(le_bytes32(w) =~= seq![(width % 256) as u8, (width / 256) as u8, 0x00, 0x00]);
    assert(le_bytes32(h) =~= seq![(height % 256) as u8, (height / 256) as u8, 0x00, 0x00]);
    assert(le_bytes16(BMP_SIGNATURE) =~= seq![0x42u8, 0x4d]);
    assert(le_bytes32(BMP_FILE_SIZE) =~= seq![0x3au8, 0, 0, 0]);
    assert(le_bytes32(0) =~= seq![0u8, 0, 0, 0]);
    assert(le_bytes32(BMP_HEADER_LEN as u32) =~= seq![0x36u8, 0, 0, 0]);
    assert(le_bytes32(BMP_INFO_SIZE) =~= seq![0x28u8, 0, 0, 0]);
    assert(le_bytes16(BMP_PLANES) =~= seq![1u8, 0]);
    assert(le_bytes16(BMP_BITS_PER_PIXEL) =~= seq![0x18u8, 0]);
    assert(le_bytes32(BMP_RESOLUTION) =~= seq![0x23u8, 0x2e, 0, 0]);
}

/// Appends the two bytes of `x`, low byte first.
fn push_u16_le(out: &mut Vec<u8>, x: u16)
    ensures
        final(out)@ == old(out)@ + le_bytes16(x),
{
    assert(x & 0xff == x % 256 && x >> 8 == x / 256) by (bit_vector);
    out.push((x & 0xff) as u8);
    out.push((x >> 8) as u8);
    assert(out@ =~= old(out)@ + le_bytes16(x));
}

/// Appends the four bytes of `x`, low byte first.
fn push_u32_le(out: &mut Vec<u8>, x: u32)
    ensures
        final(out)@ == old(out)@ + le_bytes32(x),
{
    assert(x & 0xff == x % 256 && (x >> 8) & 0xff == x / 256 % 256 && (x >> 16) & 0xff == x / 65536
        % 256 && x >> 24 == x / 16777216) by (bit_vector);
    out.push((x & 0xff) as u8);
    out.push(((x >> 8) & 0xff) as u8);
    out.push(((x >> 16) & 0xff) as u8);
    out.push((x >> 24) as u8);
    assert(out@ =~= old(out)@ + le_bytes32(x));
}

/// The number of bytes that one row of `width` pixels takes in the file:
/// three bytes per pixel, rounded up to a multiple of four.
pub open spec fn row_stride(width: nat) -> nat {
    (3 * width + 3) / 4 * 4
}

/// The channel of `pixel` that stands at place `k` of its three bytes: blue,
/// then green, then red.
pub open spec fn channel_byte(pixel: Rgb, k: int) -> u8 {
    if k == 0 {
        pixel.b
    } else if k == 1 {
        pixel.g
    } else {
        pixel.r
    }
}

/// Row `r` of the frame as it stands in the file: the pixels from left to
/// right, then zero bytes up to the row stride.
pub open spec fn padded_row(frame: Frame, r: int) -> Seq<u8> {
    Seq::new(
        row_stride(frame.width),
        |c: int|
            if c < 3 * frame.width {
                channel_byte(frame.pixels[r * frame.width + c / 3], c % 3)
            } else {
                0u8
            },
    )
}

/// The pixel data of the file: the padded rows of the frame from the last
/// row to the first.
pub open spec fn bmp_body(frame: Frame) -> Seq<u8> {
    let stride = row_stride(frame.width) as int;
    Seq::new(
        frame.height * row_stride(frame.width),
        |k: int| padded_row(frame, frame.height - 1 - k / stride)[k % stride],
    )
}

/// The whole file for a frame whose dimensions fit the header.
pub open spec fn bmp_file(frame: Frame) -> Seq<u8> {
    bmp_header(frame.width as u16, frame.height as u16).bytes() + bmp_body(frame)
}

/// Row `r` of the frame is row `height - 1 - r` of the pixel data: the
/// first row of the frame comes last in the file and the last row first.
pub proof fn lemma_rows_bottom_up(frame: Frame, r: int)
    requires
        0 <= r < frame.height,
    ensures
        0 <= (frame.height - 1 - r) * row_stride(frame.width) <= (frame.height - r) * row_stride(
            frame.width,
        ) <= bmp_body(frame).len(),
        bmp_body(frame).subrange(
            (frame.height - 1 - r) * row_stride(frame.width),
            (frame.height - r) * row_stride(frame.width),
        ) == padded_row(frame, r),
{
    let stride = row_stride(frame.width) as int;
    let h = frame.height as int;
    let lo = (h - 1 - r) * stride;
    let hi = (h - r) * stride;
    assert(0 <= lo && hi == lo + stride && hi <= h * stride) by (nonlinear_arith)
        requires
            0 <= r < h,
            0 <= stride,
            lo == (h - 1 - r) * stride,
            hi == (h - r) * stride,
    ;
    let piece = bmp_body(frame).subrange(lo, hi);
    assert forall|c: int| 0 <= c < stride implies piece[c] == padded_row(frame, r)[c] by {
        lemma_fundamental_div_mod_converse(lo + c, stride, h - 1 - r, c);
    }
    assert(piece =~= padded_row(frame, r));
}

/// The whole file is the header followed by the rows of the frame from the
/// last to the first: row `r` of the frame is row `height - 1 - r` of the
/// pixel data, so row 0 of the frame comes last.
pub proof fn lemma_file_rows(frame: Frame, r: int)
    requires
        0 <= r < frame.height,
    ensures
        bmp_file(frame).len() == BMP_HEADER_LEN + frame.height * row_stride(frame.width),
        BMP_HEADER_LEN + (frame.height - r) * row_stride(frame.width) <= bmp_file(frame).len(),
        bmp_file(frame).subrange(
            BMP_HEADER_LEN + (frame.height - 1 - r) * row_stride(frame.width),
            BMP_HEADER_LEN + (frame.height - r) * row_stride(frame.width),
        ) == padded_row(frame, r),
{
    lemma_rows_bottom_up(frame, r);
    let header = bmp_header(frame.width as u16, frame.height as u16).bytes();
    let lo = (frame.height - 1 - r) * row_stride(frame.width);
    let hi = (frame.height - r) * row_stride(frame.width);
    assert(header.len() == BMP_HEADER_LEN);
    assert(bmp_file(frame).subrange(BMP_HEADER_LEN + lo, BMP_HEADER_LEN + hi) =~= bmp_body(
        frame,
    ).subrange(lo, hi));
}

/// Appends row `r` of the frame, padded to the row stride.
fn push_row(out: &mut Vec<u8>, image: &Image, r: u32)
    requires
        image@.is_complete(),
        image@.width <= BMP_MAX_DIMENSION,
        r < image@.height,
    ensures
        final(out)@ == old(out)@ + padded_row(image@, r as int),
{
    let pixels = image.pixels();
    let total = pixels.len();
    let width = image.width();
    let ghost row = padded_row(image@, r as int);
    assert(0 <= r * width && r * width + width <= image@.width * image@.height) by (nonlinear_arith)
        requires
            0 <= r < image@.height,
            width == image@.width,
    ;
    let first: usize = (r as usize) * (width as usize);
    let mut col: u32 = 0;
    while col < width
        invariant
            col <= width,
            width == image@.width,
            pixels@ == image@.pixels,
            first == r * width,
            first + width <= pixels@.len() == total,
            row == padded_row(image@, r as int),
            out@ == old(out)@ + row.take(3 * col),
        decreases width - col,
    {
        let pixel = pixels[first + col as usize];
        out.push(pixel.b);
        out.push(pixel.g);
        out.push(pixel.r);
        col = col + 1;
        assert(out@ =~= old(out)@ + row.take(3 * col));
    }
    let mut filled: u32 = 3 * width;
    while filled % 4 != 0
        invariant
            3 * width <= filled <= row_stride(width as nat),
            width == image@.width <= BMP_MAX_DIMENSION,
            row == padded_row(image@, r as int),
            out@ == old(out)@ + row.take(filled as int),
        decreases row_stride(width as nat) - filled,
    {
        out.push(0);
        filled = filled + 1;
        assert(out@ =~= old(out)@ + row.take(filled as int));
    }
    assert(row.take(filled as int) =~= row);
}

/// Serialises a finished frame as an uncompressed 24-bit bitmap.
///
/// The rows are written bottom-up: the last row of the frame comes first.
/// Each pixel is written as blue, green, red, and each row is padded with
/// zero bytes to a multiple of four bytes. A frame whose dimensions do not
/// fit the header, or that does not hold exactly `width * height` pixels,
/// is refused.
pub fn encode_bmp(image: &Image) -> (res: Result<Vec<u8>, EncodeError>)
    ensures
        res is Ok <==> image@.width <= BMP_MAX_DIMENSION && image@.height <= BMP_MAX_DIMENSION
            && image@.is_complete(),
        res matches Ok(bytes) ==> bytes@ == bmp_file(image@),
        res matches Ok(bytes) ==> bytes@.len() == BMP_HEADER_LEN + image@.height * row_stride(
            image@.width,
        ),
        res matches Ok(bytes) ==> forall|r: int|
            0 <= r < image@.height ==> bytes@.subrange(
                BMP_HEADER_LEN + (image@.height - 1 - r) * row_stride(image@.width),
                BMP_HEADER_LEN + (image@.height - r) * row_stride(image@.width),
            ) == #[trigger] padded_row(image@, r),
        res matches Err(e) ==> e == if image@.width > BMP_MAX_DIMENSION || image@.height
            > BMP_MAX_DIMENSION {
            EncodeError::DimensionTooLarge
        } else {
            EncodeError::FrameNotComplete
        },
{
    let width = image.width();
    let height = image.height();
    if width > BMP_MAX_DIMENSION || height > BMP_MAX_DIMENSION {
        return Err(EncodeError::DimensionTooLarge);
    }
    if !image.is_complete() {
        return Err(EncodeError::FrameNotComplete);
    }
    let mut out = BmpHeader::new(width as u16, height as u16).to_bytes();
    let ghost header = out@;
    let ghost body = bmp_body(image@);
    let ghost stride = row_stride(width as nat) as int;
    let mut written: u32 = 0;
    while written < height
        invariant
            written <= height,
            width == image@.width <= BMP_MAX_DIMENSION,
            height == image@.height,
            image@.is_complete(),
            body == bmp_body(image@),
            stride == row_stride(width as nat),
            0 <= written * stride <= body.len(),
            out@ == header + body.take(written * stride),
        decreases height - written,
    {
        let r = height - 1 - written;
        proof {
            lemma_rows_bottom_up(image@, r as int);
            assert((written + 1) * stride == written * stride + stride) by (nonlinear_arith);
            assert(body.take((written + 1) * stride) =~= body.take(written * stride)
                + body.subrange(written * stride, (written + 1) * stride));
        }
        push_row(&mut out, image, r);
        written = written + 1;
    }
    assert(body.take(height * stride) =~= body);
    assert forall|r: int| 0 <= r < image@.height implies out@.subrange(
        BMP_HEADER_LEN + (image@.height - 1 - r) * row_stride(image@.width),
        BMP_HEADER_LEN + (image@.height - r) * row_stride(image@.width),
    ) == #[trigger] padded_row(image@, r) by {
        lemma_file_rows(image@, r);
    }
    Ok(out)
}

} // verus!
