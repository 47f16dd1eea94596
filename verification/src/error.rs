//! The ways in which decoding and encoding fail.

use vstd::prelude::*;

verus! {

/// Why a TGX byte stream was rejected.
#[derive(Clone, Copy, Debug, PartialEq, Eq, Structural)]
pub enum DecodeError {
    /// The input is shorter than the 8-byte header.
    TruncatedHeader,
    /// A control byte, or the colour bytes that its opcode needs, lie past
    /// the end of the input.
    TruncatedOpcode,
    /// The top three bits of a control byte select no opcode.
    UnrecognizedOpcode,
    /// An opcode would write outside the pixel grid: a run would cross the
    /// end of its row, or pixels would land below the last row.
    OpcodeOverrun,
    /// The stream ended before `width * height` pixels were produced.
    IncompleteFrame,
}

/// Why a frame was not written out as a bitmap.
#[derive(Clone, Copy, Debug, PartialEq, Eq, Structural)]
pub enum EncodeError {
    /// The width or the height does not fit the 16 bits that the bitmap
    /// header gives it.
    DimensionTooLarge,
    /// The frame does not hold exactly `width * height` pixels.
    FrameNotComplete,
}

} // verus!
