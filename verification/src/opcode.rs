//! The control bytes of the opcode stream.

use vstd::prelude::*;

verus! {

/// One decoded control byte.
///
/// The top three bits of the byte select the variant. The low five bits hold
/// the count minus one, so a count lies in `1..=32`.
#[derive(Clone, Copy, Debug, PartialEq, Eq, Structural)]
pub enum Opcode {
    /// Tag `000`: `count` packed colours follow, one per pixel.
    LiteralRun { count: u8 },
    /// Tag `100`: the rest of the row is padded with black and a new row
    /// begins. The low five bits carry no meaning.
    NewLine,
    /// Tag `010`: one packed colour follows and is written `count` times.
    RepeatColor { count: u8 },
    /// Tag `001`: `count` black pixels; no colour follows.
    RepeatBlack { count: u8 },
}

/// The count that a control byte carries: its low five bits plus one.
pub open spec fn count_of(control: u8) -> u8 {
    (control % 32 + 1) as u8
}

/// The opcode that a control byte stands for, if its tag selects one.
pub open spec fn opcode_of(control: u8) -> Option<Opcode> {
    let tag = control / 32;
    if tag == 0 {
        Some(Opcode::LiteralRun { count: count_of(control) })
    } else if tag == 1 {
        Some(Opcode::RepeatBlack { count: count_of(control) })
    } else if tag == 2 {
        Some(Opcode::RepeatColor { count: count_of(control) })
    } else if tag == 4 {
        Some(Opcode::NewLine)
    } else {
        None
    }
}

impl Opcode {
    /// The number of colour bytes that follow the control byte.
    pub open spec fn payload_len(self) -> nat {
        match self {
            Opcode::LiteralRun { count } => 2 * count as nat,
            Opcode::RepeatColor { .. } => 2,
            Opcode::NewLine | Opcode::RepeatBlack { .. } => 0,
        }
    }

    /// Splits a control byte into tag and count. `None` means that the tag
    /// is none of `000`, `001`, `010` and `100`.
    pub fn from_byte(control: u8) -> (op: Option<Opcode>)
        ensures
            op == opcode_of(control),
            op is None <==> control / 32 == 3 || control / 32 >= 5,
    {
        assert(control >> 5 == control / 32) by (bit_vector);
        assert(control & 0b11111 == control % 32) by (bit_vector);
        let tag: u8 = control >> 5;
        let count: u8 = (control & 0b11111) + 1;
        if tag == 0b000 {
            Some(Opcode::LiteralRun { count })
        } else if tag == 0b001 {
            Some(Opcode::RepeatBlack { count })
        } else if tag == 0b010 {
            Some(Opcode::RepeatColor { count })
        } else if tag == 0b100 {
            Some(Opcode::NewLine)
        } else {
            None
        }
    }
}

} // verus!
