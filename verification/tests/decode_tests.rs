//! Golden vectors for the connection decoder, hand-derived from the
//! hardware packing formula: id = high + ((low & 0x80) << 1), weight =
//! sign-adjusted low 7 bits of the low byte.

use connectome::decode::parse_rom_word;

#[test]
fn decode_plain_id_zero_weight() {
    // low = 0x00, high = 0x05: id = 5, weight bits 0 -> weight 0.
    let c = parse_rom_word(0x0500);
    assert_eq!(c.id, 5);
    assert_eq!(c.weight, 0);
}

#[test]
fn decode_high_bit_negative_weight() {
    // low = 0xC0, high = 0x00: weight_bits = 0x40, plus (0x40 & 0x40) << 1
    // = 0xC0 -> signed -64; id = 0 + (1 << 8) = 256 from the low byte's
    // top bit.
    let c = parse_rom_word(0x00C0);
    assert_eq!(c.id, 256);
    assert_eq!(c.weight, -64);
}

#[test]
fn decode_word_00c3() {
    // low = 0xC3, high = 0x00: weight_bits = 0x43, merged = 0x43 + 0x80 =
    // 0xC3 -> signed -61; id = 256.
    let c = parse_rom_word(0x00C3);
    assert_eq!(c.id, 256);
    assert_eq!(c.weight, -61);
}

#[test]
fn decode_positive_weight() {
    // low = 0x32, high = 0x01: weight 50, id 1.
    let c = parse_rom_word(0x0132);
    assert_eq!(c.id, 1);
    assert_eq!(c.weight, 50);
}

#[test]
fn decode_max_positive_weight() {
    // low = 0x3F, high = 0x03: weight bits 0x3F, bit 6 clear -> +63; id 3.
    let c = parse_rom_word(0x033F);
    assert_eq!(c.id, 3);
    assert_eq!(c.weight, 63);
}

#[test]
fn decode_minus_one_weight() {
    // low = 0x7F, high = 0x00: merged = 0x7F + 0x80 = 0xFF -> -1; id 0.
    let c = parse_rom_word(0x007F);
    assert_eq!(c.id, 0);
    assert_eq!(c.weight, -1);
}

#[test]
fn decode_all_bits_set() {
    // low = 0xFF, high = 0xFF: id = 255 + 256 = 511; weight bits 0x7F ->
    // -1. The decoder is total over all 16-bit words.
    let c = parse_rom_word(0xFFFF);
    assert_eq!(c.id, 511);
    assert_eq!(c.weight, -1);
}
