use chip8::opcode::OpCode;

#[test]
fn decode_clear_screen() {
    assert_eq!(OpCode::decode(0x00, 0xE0), OpCode::Cls);
}

#[test]
fn decode_return() {
    assert_eq!(OpCode::decode(0x00, 0xEE), OpCode::Ret);
}

#[test]
fn decode_family_zero_goes_by_the_last_nibble() {
    assert_eq!(OpCode::decode(0x01, 0x20), OpCode::Cls);
    assert_eq!(OpCode::decode(0x0F, 0xFE), OpCode::Ret);
    assert_eq!(OpCode::decode(0x00, 0x00), OpCode::Cls);
}

#[test]
fn decode_jump() {
    assert_eq!(OpCode::decode(0x10, 0x00), OpCode::Jp(0x000));
    assert_eq!(OpCode::decode(0x1F, 0xFF), OpCode::Jp(0xFFF));
    assert_eq!(OpCode::decode(0x12, 0x34), OpCode::Jp(0x234));
}

#[test]
fn decode_call() {
    assert_eq!(OpCode::decode(0x20, 0x00), OpCode::Call(0x000));
    assert_eq!(OpCode::decode(0x2F, 0xFF), OpCode::Call(0xFFF));
}

#[test]
fn decode_skip_if_register_equals_byte() {
    assert_eq!(OpCode::decode(0x30, 0x00), OpCode::SeVx(0x0, 0x00));
    assert_eq!(OpCode::decode(0x3F, 0xFF), OpCode::SeVx(0xF, 0xFF));
}

#[test]
fn decode_skip_if_register_differs_from_byte() {
    assert_eq!(OpCode::decode(0x40, 0x00), OpCode::SNeVx(0x0, 0x00));
    assert_eq!(OpCode::decode(0x4F, 0xFF), OpCode::SNeVx(0xF, 0xFF));
}

#[test]
fn decode_skip_if_registers_equal() {
    assert_eq!(OpCode::decode(0x50, 0x00), OpCode::SeVxVy(0x0, 0x0));
    assert_eq!(OpCode::decode(0x5F, 0xF0), OpCode::SeVxVy(0xF, 0xF));
    assert_eq!(OpCode::decode(0x50, 0xF0), OpCode::SeVxVy(0x0, 0xF));
}

#[test]
fn decode_load_byte() {
    assert_eq!(OpCode::decode(0x60, 0x00), OpCode::LdVx(0x0, 0x00));
    assert_eq!(OpCode::decode(0x6F, 0xFF), OpCode::LdVx(0xF, 0xFF));
}

#[test]
fn decode_add_byte() {
    assert_eq!(OpCode::decode(0x70, 0x00), OpCode::AddVx(0x0, 0x00));
    assert_eq!(OpCode::decode(0x7F, 0xFF), OpCode::AddVx(0xF, 0xFF));
}

#[test]
fn decode_load_register() {
    assert_eq!(OpCode::decode(0x80, 0x00), OpCode::LdVxVy(0x0, 0x0));
    assert_eq!(OpCode::decode(0x8F, 0xF0), OpCode::LdVxVy(0xF, 0xF));
}

#[test]
fn decode_or() {
    assert_eq!(OpCode::decode(0x80, 0x01), OpCode::Or(0x0, 0x0));
    assert_eq!(OpCode::decode(0x8F, 0xF1), OpCode::Or(0xF, 0xF));
}

#[test]
fn decode_and() {
    assert_eq!(OpCode::decode(0x80, 0x02), OpCode::And(0x0, 0x0));
    assert_eq!(OpCode::decode(0x8F, 0xF2), OpCode::And(0xF, 0xF));
}

#[test]
fn decode_xor() {
    assert_eq!(OpCode::decode(0x80, 0x03), OpCode::Xor(0x0, 0x0));
    assert_eq!(OpCode::decode(0x8F, 0xF3), OpCode::Xor(0xF, 0xF));
}

#[test]
fn decode_add_register() {
    assert_eq!(OpCode::decode(0x80, 0x04), OpCode::Add(0x0, 0x0));
    assert_eq!(OpCode::decode(0x8F, 0xF4), OpCode::Add(0xF, 0xF));
}

#[test]
fn decode_subtract_register() {
    assert_eq!(OpCode::decode(0x80, 0x05), OpCode::Sub(0x0, 0x0));
    assert_eq!(OpCode::decode(0x8F, 0xF5), OpCode::Sub(0xF, 0xF));
}

#[test]
fn decode_shift_right() {
    assert_eq!(OpCode::decode(0x80, 0x06), OpCode::Shr(0x0));
    assert_eq!(OpCode::decode(0x8F, 0xF6), OpCode::Shr(0xF));
}

#[test]
fn decode_subtract_reversed() {
    assert_eq!(OpCode::decode(0x80, 0x07), OpCode::SubN(0x0, 0x0));
    assert_eq!(OpCode::decode(0x8F, 0xF7), OpCode::SubN(0xF, 0xF));
}

#[test]
fn decode_shift_left() {
    assert_eq!(OpCode::decode(0x80, 0x0E), OpCode::Shl(0x0));
    assert_eq!(OpCode::decode(0x8F, 0xFE), OpCode::Shl(0xF));
}

#[test]
fn decode_skip_if_registers_differ() {
    assert_eq!(OpCode::decode(0x90, 0x00), OpCode::SeNeVxVy(0x0, 0x0));
    assert_eq!(OpCode::decode(0x9F, 0xF0), OpCode::SeNeVxVy(0xF, 0xF));
}

#[test]
fn decode_load_index() {
    assert_eq!(OpCode::decode(0xA0, 0x00), OpCode::LdI(0x000));
    assert_eq!(OpCode::decode(0xAF, 0xFF), OpCode::LdI(0xFFF));
}

#[test]
fn decode_jump_with_offset() {
    assert_eq!(OpCode::decode(0xB0, 0x00), OpCode::JpV0(0x000));
    assert_eq!(OpCode::decode(0xBF, 0xFF), OpCode::JpV0(0xFFF));
}

#[test]
fn decode_random() {
    assert_eq!(OpCode::decode(0xC0, 0x00), OpCode::Rnd(0x0, 0x00));
    assert_eq!(OpCode::decode(0xCF, 0xFF), OpCode::Rnd(0xF, 0xFF));
}

#[test]
fn decode_draw() {
    assert_eq!(OpCode::decode(0xD0, 0x00), OpCode::Drw(0x0, 0x0, 0x0));
    assert_eq!(OpCode::decode(0xDF, 0xFF), OpCode::Drw(0xF, 0xF, 0xF));
    assert_eq!(OpCode::decode(0xD1, 0x25), OpCode::Drw(0x1, 0x2, 0x5));
}

#[test]
fn decode_skip_if_key_down() {
    assert_eq!(OpCode::decode(0xE0, 0x9E), OpCode::Skp(0x0));
    assert_eq!(OpCode::decode(0xEF, 0x9E), OpCode::Skp(0xF));
}

#[test]
fn decode_skip_if_key_up() {
    assert_eq!(OpCode::decode(0xE0, 0xA1), OpCode::SkNp(0x0));
    assert_eq!(OpCode::decode(0xEF, 0xA1), OpCode::SkNp(0xF));
}

#[test]
fn decode_load_delay_timer() {
    assert_eq!(OpCode::decode(0xF0, 0x07), OpCode::LdVxDt(0x0));
    assert_eq!(OpCode::decode(0xFF, 0x07), OpCode::LdVxDt(0xF));
}

#[test]
fn decode_wait_for_key() {
    assert_eq!(OpCode::decode(0xF0, 0x0A), OpCode::LdVxK(0x0));
    assert_eq!(OpCode::decode(0xFF, 0x0A), OpCode::LdVxK(0xF));
}

#[test]
fn decode_set_delay_timer() {
    assert_eq!(OpCode::decode(0xF0, 0x15), OpCode::LdDtVx(0x0));
    assert_eq!(OpCode::decode(0xFF, 0x15), OpCode::LdDtVx(0xF));
}

#[test]
fn decode_set_sound_timer() {
    assert_eq!(OpCode::decode(0xF0, 0x18), OpCode::LdStVx(0x0));
    assert_eq!(OpCode::decode(0xFF, 0x18), OpCode::LdStVx(0xF));
}

#[test]
fn decode_add_to_index() {
    assert_eq!(OpCode::decode(0xF0, 0x1E), OpCode::AddIVx(0x0));
    assert_eq!(OpCode::decode(0xFF, 0x1E), OpCode::AddIVx(0xF));
}

#[test]
fn decode_load_glyph_address() {
    assert_eq!(OpCode::decode(0xF0, 0x29), OpCode::LdFVx(0x0));
    assert_eq!(OpCode::decode(0xFF, 0x29), OpCode::LdFVx(0xF));
}

#[test]
fn decode_store_digits() {
    assert_eq!(OpCode::decode(0xF0, 0x33), OpCode::LdBVx(0x0));
    assert_eq!(OpCode::decode(0xFF, 0x33), OpCode::LdBVx(0xF));
}

#[test]
fn decode_store_registers() {
    assert_eq!(OpCode::decode(0xF0, 0x55), OpCode::LdIVx(0x0));
    assert_eq!(OpCode::decode(0xFF, 0x55), OpCode::LdIVx(0xF));
}

#[test]
fn decode_load_registers() {
    assert_eq!(OpCode::decode(0xF0, 0x65), OpCode::LdVxI(0x0));
    assert_eq!(OpCode::decode(0xFF, 0x65), OpCode::LdVxI(0xF));
}

#[test]
fn decode_invalid_in_family_zero() {
    assert_eq!(OpCode::decode(0x00, 0x01), OpCode::Invalid(0x0001));
    assert_eq!(OpCode::decode(0x0A, 0xBF), OpCode::Invalid(0x0ABF));
}

#[test]
fn decode_invalid_in_family_eight() {
    assert_eq!(OpCode::decode(0x81, 0x28), OpCode::Invalid(0x8128));
    assert_eq!(OpCode::decode(0x81, 0x2D), OpCode::Invalid(0x812D));
    assert_eq!(OpCode::decode(0x8F, 0xFF), OpCode::Invalid(0x8FFF));
}

#[test]
fn decode_invalid_in_family_e() {
    assert_eq!(OpCode::decode(0xE0, 0x00), OpCode::Invalid(0xE000));
    assert_eq!(OpCode::decode(0xE1, 0x9F), OpCode::Invalid(0xE19F));
    assert_eq!(OpCode::decode(0xEF, 0xFF), OpCode::Invalid(0xEFFF));
}

#[test]
fn decode_invalid_in_family_f() {
    assert_eq!(OpCode::decode(0xF0, 0x00), OpCode::Invalid(0xF000));
    assert_eq!(OpCode::decode(0xF1, 0x66), OpCode::Invalid(0xF166));
    assert_eq!(OpCode::decode(0xFF, 0xFF), OpCode::Invalid(0xFFFF));
}

#[test]
fn decode_never_panics_and_keeps_the_word_of_an_invalid_encoding() {
    let mut invalid: usize = 0;
    for hi in 0..=255u8 {
        for lo in 0..=255u8 {
            if let OpCode::Invalid(raw) = OpCode::decode(hi, lo) {
                assert_eq!(raw, (hi as u16) << 8 | lo as u16);
                invalid += 1;
            }
        }
    }
    // family 0: 14 of 16 last nibbles; family 8: 7 of 16;
    // family E: 254 of 256 low bytes; family F: 247 of 256.
    assert_eq!(invalid, 14 * 256 + 7 * 256 + 254 * 16 + 247 * 16);
}
