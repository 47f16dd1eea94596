use tgx::opcode::Opcode;

#[test]
fn tag_000_is_a_literal_run() {
    assert_eq!(Opcode::from_byte(0b0000_0000), Some(Opcode::LiteralRun { count: 1 }));
    assert_eq!(Opcode::from_byte(0b0000_0100), Some(Opcode::LiteralRun { count: 5 }));
    assert_eq!(Opcode::from_byte(0b0001_1111), Some(Opcode::LiteralRun { count: 32 }));
}

#[test]
fn tag_001_is_repeat_black() {
    assert_eq!(Opcode::from_byte(0b0010_0001), Some(Opcode::RepeatBlack { count: 2 }));
    assert_eq!(Opcode::from_byte(0b0011_1111), Some(Opcode::RepeatBlack { count: 32 }));
}

#[test]
fn tag_010_is_repeat_color() {
    assert_eq!(Opcode::from_byte(0b0100_0000), Some(Opcode::RepeatColor { count: 1 }));
    assert_eq!(Opcode::from_byte(0b0100_1001), Some(Opcode::RepeatColor { count: 10 }));
}

#[test]
fn tag_100_is_newline_whatever_the_low_bits() {
    for low in 0..32u8 {
        assert_eq!(Opcode::from_byte(0b1000_0000 | low), Some(Opcode::NewLine));
    }
}

#[test]
fn other_tags_select_no_opcode() {
    for tag in [0b011u8, 0b101, 0b110, 0b111] {
        for low in 0..32u8 {
            assert_eq!(Opcode::from_byte((tag << 5) | low), None);
        }
    }
}

#[test]
fn count_is_the_low_five_bits_plus_one() {
    for low in 0..32u8 {
        assert_eq!(Opcode::from_byte(low), Some(Opcode::LiteralRun { count: low + 1 }));
        assert_eq!(Opcode::from_byte(0b0010_0000 | low), Some(Opcode::RepeatBlack { count: low + 1 }));
        assert_eq!(Opcode::from_byte(0b0100_0000 | low), Some(Opcode::RepeatColor { count: low + 1 }));
    }
}

#[test]
fn exactly_128_bytes_select_an_opcode() {
    let recognized = (0..=255u8).filter(|b| Opcode::from_byte(*b).is_some()).count();
    assert_eq!(recognized, 128);
}
