//! Unpacking of 16-bit packed colours into 8-bit channels.

use vstd::prelude::*;

verus! {

/// One pixel as three 8-bit channels.
#[derive(Clone, Copy, Debug, PartialEq, Eq, Structural)]
pub struct Rgb {
    pub r: u8,
    pub g: u8,
    pub b: u8,
}

/// How the bits of a packed colour are assigned to channels.
///
/// A packed colour holds three fields that start at bits 1, 6 and 11; bit 0
/// belongs to no field. The two layouts disagree on how wide a field is and
/// on the channel each field feeds, so the same file decodes to different
/// colours under each, and a bitmap made with one cannot be compared byte
/// for byte with a bitmap made with the other. Every function that unpacks
/// colours takes the layout as an argument: none is the default.
#[derive(Clone, Copy, Debug, PartialEq, Eq, Structural)]
pub enum PixelLayout {
    /// Fields are 4 bits wide. The field at bit 11 becomes red and the field
    /// at bit 6 becomes green. The field at bit 1 reaches no channel, and
    /// blue is always 0. Bits 0, 5, 10 and 15 are ignored.
    RedGreen4,
    /// Fields are 5 bits wide: bits 1..=5 are red, bits 6..=10 are green and
    /// bits 11..=15 are blue.
    Rgb555,
}

/// The black pixel that pads short rows.
pub open spec fn black() -> Rgb {
    Rgb { r: 0, g: 0, b: 0 }
}

/// The 4-bit field of `pixel` that starts at the bit whose place value is
/// `unit`, scaled to the top of an 8-bit channel.
pub open spec fn channel4(pixel: u16, unit: int) -> u8 {
    ((pixel as int / unit) % 16 * 8) as u8
}

/// The 5-bit field of `pixel` that starts at the bit whose place value is
/// `unit`, scaled to the top of an 8-bit channel.
pub open spec fn channel5(pixel: u16, unit: int) -> u8 {
    ((pixel as int / unit) % 32 * 8) as u8
}

/// The channels that `pixel` unpacks to under `layout`.
pub open spec fn unpack(pixel: u16, layout: PixelLayout) -> Rgb {
    match layout {
        PixelLayout::RedGreen4 => Rgb { r: channel4(pixel, 2048), g: channel4(pixel, 64), b: 0 },
        PixelLayout::Rgb555 => Rgb {
            r: channel5(pixel, 2),
            g: channel5(pixel, 64),
            b: channel5(pixel, 2048),
        },
    }
}

/// Expands one packed colour into its red, green and blue channels.
pub fn parse_pixel(pixel: u16, layout: PixelLayout) -> (rgb: Rgb)
    ensures
        rgb == unpack(pixel, layout),
{
    match layout {
        PixelLayout::RedGreen4 => {
            let r: u16 = ((pixel >> 11) & 0b1111) << 3;
            let g: u16 = ((pixel >> 6) & 0b1111) << 3;
            assert(((pixel >> 11) & 0b1111) << 3 == (pixel / 2048) % 16 * 8) by (bit_vector);
            assert(((pixel >> 6) & 0b1111) << 3 == (pixel / 64) % 16 * 8) by (bit_vector);
            Rgb { r: r as u8, g: g as u8, b: 0 }
        },
        PixelLayout::Rgb555 => {
            let r: u16 = ((pixel >> 1) & 0b11111) << 3;
            let g: u16 = ((pixel >> 6) & 0b11111) << 3;
            let b: u16 = ((pixel >> 11) & 0b11111) << 3;
            assert(((pixel >> 1) & 0b11111) << 3 == (pixel / 2) % 32 * 8) by (bit_vector);
            assert(((pixel >> 6) & 0b11111) << 3 == (pixel / 64) % 32 * 8) by (bit_vector);
            assert(((pixel >> 11) & 0b11111) << 3 == (pixel / 2048) % 32 * 8) by (bit_vector);
            Rgb { r: r as u8, g: g as u8, b: b as u8 }
        },
    }
}

} // verus!
