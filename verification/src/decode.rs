//! The TGX decoder: an 8-byte header followed by a stream of opcodes.
//!
//! | Offset | Size | Meaning                        |
//! |--------|------|--------------------------------|
//! | 0      | 2    | width, little-endian           |
//! | 2      | 2    | reserved, not read             |
//! | 4      | 2    | height, little-endian          |
//! | 6      | 2    | reserved, not read             |
//! | 8      | ..   | opcodes, each one control byte and its colour bytes |

use crate::error::DecodeError;
use crate::image::{Frame, Image};
use crate::opcode::{count_of, opcode_of, Opcode};
use crate::pixel::{black, parse_pixel, unpack, PixelLayout, Rgb};
use vstd::prelude::*;

verus! {

/// The number of bytes before the first opcode.
pub const HEADER_LEN: usize = 8;

/// The dimensions that a TGX file declares.
#[derive(Clone, Copy, Debug, PartialEq, Eq, Structural)]
pub struct TgxHeader {
    pub width: u16,
    pub height: u16,
}

/// The 16-bit value whose low byte is `lo` and whose high byte is `hi`.
pub open spec fn le16(lo: u8, hi: u8) -> u16 {
    (lo + 256 * hi) as u16
}

/// The packed colour stored at `input[at]` and `input[at + 1]`.
pub open spec fn color_at(input: Seq<u8>, at: int) -> u16 {
    le16(input[at], input[at + 1])
}

/// The header of an input of at least [`HEADER_LEN`] bytes.
pub open spec fn header_of(input: Seq<u8>) -> TgxHeader {
    TgxHeader { width: le16(input[0], input[1]), height: le16(input[4], input[5]) }
}

/// The pixels of a literal run: `count` colours stored back to back from
/// `input[start]` on.
pub open spec fn literal_run(input: Seq<u8>, start: int, count: nat, layout: PixelLayout) -> Seq<
    Rgb,
> {
    Seq::new(count, |i: int| unpack(color_at(input, start + 2 * i), layout))
}

/// Whether the pixels that `op` writes stay inside the grid of `frame`: a
/// run must end in the row it began in, and no pixel may land below the
/// last row.
pub open spec fn admits(frame: Frame, op: Opcode) -> bool {
    match op {
        Opcode::NewLine => frame.has_room_for(frame.padding()),
        Opcode::LiteralRun { count } | Opcode::RepeatColor { count } | Opcode::RepeatBlack {
            count,
        } => frame.cursor + count <= frame.width && frame.has_room_for(count as nat),
    }
}

/// The frame after `op`, whose control byte is `input[at]`, was carried out.
pub open spec fn apply(frame: Frame, op: Opcode, input: Seq<u8>, at: int, layout: PixelLayout)
    -> Frame {
    match op {
        Opcode::NewLine => frame.with_newline(),
        Opcode::LiteralRun { count } => frame.with_pixels(
            literal_run(input, at + 1, count as nat, layout),
        ),
        Opcode::RepeatColor { count } => frame.with_run(
            count as nat,
            unpack(color_at(input, at + 1), layout),
        ),
        Opcode::RepeatBlack { count } => frame.with_run(count as nat, black()),
    }
}

/// What decoding the opcode at `input[at]` gives: the position of the next
/// control byte and the new frame, or the reason why the opcode is refused.
///
/// The checks come in a fixed order: the tag must select an opcode, then the
/// colour bytes of the opcode must all be present, then the pixels must fit
/// the grid.
pub open spec fn spec_step(input: Seq<u8>, at: nat, frame: Frame, layout: PixelLayout) -> Result<
    (nat, Frame),
    DecodeError,
> {
    if at >= input.len() {
        Err(DecodeError::TruncatedOpcode)
    } else {
        match opcode_of(input[at as int]) {
            None => Err(DecodeError::UnrecognizedOpcode),
            Some(op) => if at + 1 + op.payload_len() > input.len() {
                Err(DecodeError::TruncatedOpcode)
            } else if !admits(frame, op) {
                Err(DecodeError::OpcodeOverrun)
            } else {
                Ok((at + 1 + op.payload_len(), apply(frame, op, input, at as int, layout)))
            },
        }
    }
}

/// What decoding every opcode from `input[at]` to the end of the input
/// gives, starting from `frame`.
pub open spec fn spec_run(input: Seq<u8>, at: nat, frame: Frame, layout: PixelLayout) -> Result<
    Frame,
    DecodeError,
>
    decreases input.len() - at,
{
    if at >= input.len() {
        Ok(frame)
    } else {
        match spec_step(input, at, frame, layout) {
            Err(e) => Err(e),
            Ok((next, after)) => spec_run(input, next, after, layout),
        }
    }
}

/// What decoding a whole TGX file gives.
pub open spec fn spec_decode(input: Seq<u8>, layout: PixelLayout) -> Result<Frame, DecodeError> {
    if input.len() < HEADER_LEN {
        Err(DecodeError::TruncatedHeader)
    } else {
        let header = header_of(input);
        let start = Frame::empty(header.width as nat, header.height as nat);
        match spec_run(input, HEADER_LEN as nat, start, layout) {
            Err(e) => Err(e),
            Ok(frame) => if frame.is_complete() {
                Ok(frame)
            } else {
                Err(DecodeError::IncompleteFrame)
            },
        }
    }
}

/// Reads the little-endian 16-bit value at `input[at]`.
fn read_u16_le(input: &[u8], at: usize) -> (value: u16)
    requires
        at + 1 < input.len(),
    ensures
        value == color_at(input@, at as int),
{
    let lo: u16 = input[at] as u16;
    let hi: u16 = input[at + 1] as u16;
    assert(lo | (hi << 8) == lo + 256 * hi) by (bit_vector)
        requires
            lo < 256,
            hi < 256,
    ;
    lo | (hi << 8)
}

/// Reads the dimensions from the first eight bytes of a file.
pub fn parse_header(input: &[u8]) -> (res: Result<TgxHeader, DecodeError>)
    ensures
        res == if input.len() < HEADER_LEN {
            Err::<TgxHeader, DecodeError>(DecodeError::TruncatedHeader)
        } else {
            Ok::<TgxHeader, DecodeError>(header_of(input@))
        },
{
    if input.len() < HEADER_LEN {
        return Err(DecodeError::TruncatedHeader);
    }
    Ok(TgxHeader { width: read_u16_le(input, 0), height: read_u16_le(input, 4) })
}

/// Decodes the opcode whose control byte is `input[at]` into `image` and
/// returns the frame together with the position of the next control byte.
///
/// An opcode is carried out whole or not at all: the frame comes back only
/// when every pixel of the opcode was written.
pub fn decode_step(image: Image, input: &[u8], at: usize, layout: PixelLayout) -> (res: Result<
    (Image, usize),
    DecodeError,
>)
    requires
        image.wf(),
    ensures
        match spec_step(input@, at as nat, image@, layout) {
            Ok((next, frame)) => res matches Ok((after, position)) && after@ == frame && after.wf()
                && position == next,
            Err(e) => res matches Err(reason) && reason == e,
        },
{
    if at >= input.len() {
        return Err(DecodeError::TruncatedOpcode);
    }
    let op = match Opcode::from_byte(input[at]) {
        Some(op) => op,
        None => {
            return Err(DecodeError::UnrecognizedOpcode);
        },
    };
    let rest: usize = input.len() - at - 1;
    let mut current = image;
    match op {
        Opcode::NewLine => {
            if !current.has_room_for(current.padding()) {
                return Err(DecodeError::OpcodeOverrun);
            }
            current.add_newline();
            Ok((current, at + 1))
        },
        Opcode::RepeatBlack { count } => {
            if !current.has_room_for(count as u32) {
                return Err(DecodeError::OpcodeOverrun);
            }
            match current.add_repeat(count, 0, 0, 0) {
                Ok(()) => Ok((current, at + 1)),
                Err(e) => Err(e),
            }
        },
        Opcode::RepeatColor { count } => {
            if rest < 2 {
                return Err(DecodeError::TruncatedOpcode);
            }
            if !current.has_room_for(count as u32) {
                return Err(DecodeError::OpcodeOverrun);
            }
            let color = parse_pixel(read_u16_le(input, at + 1), layout);
            match current.add_repeat(count, color.r, color.g, color.b) {
                Ok(()) => Ok((current, at + 3)),
                Err(e) => Err(e),
            }
        },
        Opcode::LiteralRun { count } => {
            if rest < 2 * (count as usize) {
                return Err(DecodeError::TruncatedOpcode);
            }
            if !current.has_room_for(count as u32) {
                return Err(DecodeError::OpcodeOverrun);
            }
            let ghost run = literal_run(input@, at + 1, count as nat, layout);
            let mut done: u8 = 0;
            while done < count
                invariant
                    done <= count,
                    at + 1 + 2 * count <= input.len(),
                    opcode_of(input@[at as int]) == Some(op),
                    op == (Opcode::LiteralRun { count }),
                    image@.has_room_for(count as nat),
                    current.wf(),
                    run == literal_run(input@, at + 1, count as nat, layout),
                    current@ == image@.with_pixels(run.take(done as int)),
                decreases count - done,
            {
                let color = parse_pixel(read_u16_le(input, at + 1 + 2 * (done as usize)), layout);
                match current.add_repeat(1, color.r, color.g, color.b) {
                    Ok(()) => {},
                    Err(e) => {
                        return Err(e);
                    },
                }
                done = done + 1;
                assert(current@.pixels =~= image@.with_pixels(run.take(done as int)).pixels);
            }
            assert(run.take(count as int) =~= run);
            Ok((current, at + 1 + 2 * (count as usize)))
        },
    }
}

/// Decodes a whole TGX file into a finished frame.
///
/// The result is a frame exactly when the header is complete, every opcode
/// of the stream is accepted in turn, and the pixels they produce fill the
/// grid that the header declares. Otherwise the first fault found decides
/// the error.
pub fn decode(input: &[u8], layout: PixelLayout) -> (res: Result<Image, DecodeError>)
    ensures
        match spec_decode(input@, layout) {
            Ok(frame) => res matches Ok(image) && image@ == frame && image.wf(),
            Err(e) => res matches Err(reason) && reason == e,
        },
        res matches Ok(image) ==> image@.width == header_of(input@).width && image@.height
            == header_of(input@).height && image@.is_complete(),
{
    let header = match parse_header(input) {
        Ok(header) => header,
        Err(e) => {
            return Err(e);
        },
    };
    let mut image = Image::new(header.width as u32, header.height as u32);
    let ghost start = image@;
    let mut at: usize = HEADER_LEN;
    while at < input.len()
        invariant
            input.len() >= HEADER_LEN,
            start == Frame::empty(header_of(input@).width as nat, header_of(input@).height as nat),
            image.wf(),
            image@.width == start.width,
            image@.height == start.height,
            spec_run(input@, at as nat, image@, layout) == spec_run(
                input@,
                HEADER_LEN as nat,
                start,
                layout,
            ),
        decreases input.len() - at,
    {
        match decode_step(image, input, at, layout) {
            Ok((after, next)) => {
                image = after;
                at = next;
            },
            Err(e) => {
                return Err(e);
            },
        }
    }
    if image.is_complete() {
        Ok(image)
    } else {
        Err(DecodeError::IncompleteFrame)
    }
}

/// The state of the decoder after the first `n` opcodes of the stream were
/// carried out: the position of the next control byte and the frame, or the
/// fault that one of those opcodes ran into.
pub open spec fn state_after(input: Seq<u8>, layout: PixelLayout, n: nat) -> Result<
    (nat, Frame),
    DecodeError,
>
    decreases n,
{
    if n == 0 {
        let header = header_of(input);
        Ok((HEADER_LEN as nat, Frame::empty(header.width as nat, header.height as nat)))
    } else {
        match state_after(input, layout, (n - 1) as nat) {
            Err(e) => Err(e),
            Ok((at, frame)) => spec_step(input, at, frame, layout),
        }
    }
}

/// A repeat-black opcode with count `c` that fits the grid appends exactly
/// `c` black pixels, moves the cursor `c` columns on, and consumes the
/// control byte alone.
pub proof fn lemma_repeat_black_appends(
    input: Seq<u8>,
    at: nat,
    frame: Frame,
    layout: PixelLayout,
)
    requires
        at < input.len(),
        input[at as int] / 32 == 1,
        admits(frame, Opcode::RepeatBlack { count: count_of(input[at as int]) }),
    ensures
        spec_step(input, at, frame, layout) == Ok::<(nat, Frame), DecodeError>(
            (
                at + 1,
                Frame {
                    cursor: frame.cursor + count_of(input[at as int]) as nat,
                    pixels: frame.pixels + Seq::new(
                        count_of(input[at as int]) as nat,
                        |i: int| Rgb { r: 0, g: 0, b: 0 },
                    ),
                    ..frame
                },
            ),
        ),
{
    let c = count_of(input[at as int]) as nat;
    assert(Seq::new(c, |i: int| black()) =~= Seq::new(c, |i: int| Rgb { r: 0, g: 0, b: 0 }));
}

/// A newline opcode that fits the grid appends exactly `width - cursor`
/// black pixels, which is none when the row is full, and moves the cursor
/// back to column 0. It consumes the control byte alone.
pub proof fn lemma_newline_pads(input: Seq<u8>, at: nat, frame: Frame, layout: PixelLayout)
    requires
        at < input.len(),
        input[at as int] / 32 == 4,
        frame.wf(),
        admits(frame, Opcode::NewLine),
    ensures
        spec_step(input, at, frame, layout) == Ok::<(nat, Frame), DecodeError>(
            (
                at + 1,
                Frame {
                    cursor: 0,
                    pixels: frame.pixels + Seq::new(
                        (frame.width - frame.cursor) as nat,
                        |i: int| Rgb { r: 0, g: 0, b: 0 },
                    ),
                    ..frame
                },
            ),
        ),
        frame.cursor == frame.width ==> spec_step(input, at, frame, layout) == Ok::<
            (nat, Frame),
            DecodeError,
        >((at + 1, Frame { cursor: 0, ..frame })),
{
    let k = (frame.width - frame.cursor) as nat;
    assert(Seq::new(k, |i: int| black()) =~= Seq::new(k, |i: int| Rgb { r: 0, g: 0, b: 0 }));
    if frame.cursor == frame.width {
        assert(frame.pixels + Seq::new(k, |i: int| black()) =~= frame.pixels);
    }
}

/// An accepted opcode keeps the dimensions, leaves the cursor inside the
/// row and keeps the number of pixels within the grid.
pub proof fn lemma_step_stays_in_grid(input: Seq<u8>, at: nat, frame: Frame, layout: PixelLayout)
    requires
        frame.wf(),
        spec_step(input, at, frame, layout) is Ok,
    ensures
        ({
            let (next, after) = spec_step(input, at, frame, layout)->Ok_0;
            &&& at < next <= input.len()
            &&& after.width == frame.width
            &&& after.height == frame.height
            &&& after.wf()
            &&& after.pixels.len() <= after.capacity()
        }),
{
}

/// A stream that is accepted to its end gives a frame of the dimensions it
/// began with, whose cursor is inside the row and whose pixels are no more
/// than the grid holds.
pub proof fn lemma_run_stays_in_grid(input: Seq<u8>, at: nat, frame: Frame, layout: PixelLayout)
    requires
        frame.wf(),
        frame.pixels.len() <= frame.capacity(),
        spec_run(input, at, frame, layout) is Ok,
    ensures
        ({
            let last = spec_run(input, at, frame, layout)->Ok_0;
            &&& last.width == frame.width
            &&& last.height == frame.height
            &&& last.wf()
            &&& last.pixels.len() <= last.capacity()
        }),
    decreases input.len() - at,
{
    if at < input.len() {
        lemma_step_stays_in_grid(input, at, frame, layout);
        let (next, after) = spec_step(input, at, frame, layout)->Ok_0;
        lemma_run_stays_in_grid(input, next, after, layout);
    }
}

/// A decoded frame has the width and the height that the header declares,
/// and holds exactly `width * height` pixels.
pub proof fn lemma_decoded_dimensions(input: Seq<u8>, layout: PixelLayout)
    requires
        spec_decode(input, layout) is Ok,
    ensures
        input.len() >= HEADER_LEN,
        spec_decode(input, layout)->Ok_0.width == header_of(input).width,
        spec_decode(input, layout)->Ok_0.height == header_of(input).height,
        spec_decode(input, layout)->Ok_0.pixels.len() == header_of(input).width * header_of(
            input,
        ).height,
        spec_decode(input, layout)->Ok_0.wf(),
{
    let header = header_of(input);
    let start = Frame::empty(header.width as nat, header.height as nat);
    lemma_run_stays_in_grid(input, HEADER_LEN as nat, start, layout);
}

/// A stream that is accepted to its end but leaves the frame short of
/// `width * height` pixels is the one case of `IncompleteFrame`.
pub proof fn lemma_incomplete_frame(input: Seq<u8>, layout: PixelLayout)
    requires
        input.len() >= HEADER_LEN,
    ensures
        ({
            let header = header_of(input);
            let start = Frame::empty(header.width as nat, header.height as nat);
            let run = spec_run(input, HEADER_LEN as nat, start, layout);
            spec_decode(input, layout) == Err::<Frame, DecodeError>(DecodeError::IncompleteFrame)
                <==> run is Ok && run->Ok_0.pixels.len() < header.width * header.height
        }),
{
    let header = header_of(input);
    let start = Frame::empty(header.width as nat, header.height as nat);
    let run = spec_run(input, HEADER_LEN as nat, start, layout);
    if run is Ok {
        lemma_run_stays_in_grid(input, HEADER_LEN as nat, start, layout);
    } else {
        lemma_run_never_incomplete(input, HEADER_LEN as nat, start, layout);
    }
}

/// No opcode fails with `IncompleteFrame`.
proof fn lemma_run_never_incomplete(input: Seq<u8>, at: nat, frame: Frame, layout: PixelLayout)
    ensures
        spec_run(input, at, frame, layout) != Err::<Frame, DecodeError>(
            DecodeError::IncompleteFrame,
        ),
    decreases input.len() - at,
{
    if at < input.len() {
        match spec_step(input, at, frame, layout) {
            Err(e) => {},
            Ok((next, after)) => {
                lemma_run_never_incomplete(input, next, after, layout);
            },
        }
    }
}

/// Decoding the stream from its start gives what decoding it from any
/// state that the decoder passes through gives.
pub proof fn lemma_run_from_state(input: Seq<u8>, layout: PixelLayout, n: nat)
    requires
        state_after(input, layout, n) is Ok,
    ensures
        ({
            let (at, frame) = state_after(input, layout, n)->Ok_0;
            let (first, start) = state_after(input, layout, 0)->Ok_0;
            spec_run(input, first, start, layout) == spec_run(input, at, frame, layout)
        }),
    decreases n,
{
    if n > 0 {
        lemma_run_from_state(input, layout, (n - 1) as nat);
    }
}

/// The first opcode that is refused decides the result: when the decoder
/// has carried out `n` opcodes and the next one fails, decoding the file
/// fails with the same error.
pub proof fn lemma_first_fault_decides(input: Seq<u8>, layout: PixelLayout, n: nat)
    requires
        input.len() >= HEADER_LEN,
        state_after(input, layout, n) is Ok,
        state_after(input, layout, n)->Ok_0.0 < input.len(),
        state_after(input, layout, n + 1) is Err,
    ensures
        spec_decode(input, layout) == Err::<Frame, DecodeError>(
            state_after(input, layout, n + 1)->Err_0,
        ),
{
    lemma_run_from_state(input, layout, n);
}

/// A control byte whose tag is `011`, `101`, `110` or `111` makes decoding
/// fail with `UnrecognizedOpcode`, whatever the decoder has produced up to
/// that byte.
pub proof fn lemma_unrecognized_tag_fails(input: Seq<u8>, layout: PixelLayout, n: nat)
    requires
        input.len() >= HEADER_LEN,
        state_after(input, layout, n) is Ok,
        state_after(input, layout, n)->Ok_0.0 < input.len(),
        ({
            let tag = input[state_after(input, layout, n)->Ok_0.0 as int] / 32;
            tag == 3 || tag == 5 || tag == 6 || tag == 7
        }),
    ensures
        spec_decode(input, layout) == Err::<Frame, DecodeError>(DecodeError::UnrecognizedOpcode),
{
    lemma_first_fault_decides(input, layout, n);
}

/// A literal run that declares more colours than the rest of the input
/// holds makes decoding fail with `TruncatedOpcode`, whatever the decoder
/// has produced up to its control byte.
pub proof fn lemma_truncated_literal_fails(input: Seq<u8>, layout: PixelLayout, n: nat)
    requires
        input.len() >= HEADER_LEN,
        state_after(input, layout, n) is Ok,
        state_after(input, layout, n)->Ok_0.0 < input.len(),
        ({
            let at = state_after(input, layout, n)->Ok_0.0;
            input[at as int] / 32 == 0 && input.len() - (at + 1) < 2 * count_of(input[at as int])
        }),
    ensures
        spec_decode(input, layout) == Err::<Frame, DecodeError>(DecodeError::TruncatedOpcode),
{
    lemma_first_fault_decides(input, layout, n);
}

} // verus!
