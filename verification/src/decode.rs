//! The connection decoder: a pure function from one packed 16-bit ROM word
//! to a (target id, signed weight) pair.
//!
//! The packing mirrors the source hardware's byte layout exactly: the low
//! byte's top bit becomes bit 8 of the target id, the high byte is the low
//! 8 bits of the id, and the weight is the low byte's low 7 bits with bit 6
//! replicated into bit 7 before reinterpretation as a signed 8-bit value.

use vstd::prelude::*;

verus! {

/// One decoded connection record: the entity it targets and the signed
/// weight added to that entity's next state.
#[derive(Copy, Clone)]
pub struct NeuronConnection {
    pub id: u16,
    pub weight: i8,
}

/// Low byte of a ROM word (little-endian byte order).
pub open spec fn word_low(w: u16) -> u16 {
    w & 0xff
}

/// High byte of a ROM word.
pub open spec fn word_high(w: u16) -> u16 {
    w >> 8
}

/// The decoded target id: the high byte plus the low byte's top bit
/// promoted to bit 8.
pub open spec fn decode_id(w: u16) -> u16 {
    (word_high(w) + ((word_low(w) & 0x80) << 1)) as u16
}

/// The weight bits after replicating bit 6 into bit 7, as an unsigned
/// value in [0, 255].
pub open spec fn weight_merged(w: u16) -> int {
    (word_low(w) & 0x7f) + 2 * (word_low(w) & 0x40)
}

/// The decoded weight: the merged weight byte reinterpreted as a signed
/// 8-bit value.
pub open spec fn decode_weight(w: u16) -> i8 {
    if weight_merged(w) < 128 {
        weight_merged(w) as i8
    } else {
        (weight_merged(w) - 256) as i8
    }
}

proof fn lemma_word_parts_bounds(w: u16)
    ensures
        word_low(w) < 256,
        word_high(w) < 256,
        word_low(w) & 0x80 <= 0x80,
        word_low(w) & 0x7f <= 0x7f,
        word_low(w) & 0x40 <= 0x40,
{
    assert(w & 0xff < 256) by (bit_vector);
    assert(w >> 8 < 256) by (bit_vector);
    assert((w & 0xff) & 0x80 <= 0x80) by (bit_vector);
    assert((w & 0xff) & 0x7f <= 0x7f) by (bit_vector);
    assert((w & 0xff) & 0x40 <= 0x40) by (bit_vector);
}

/// The decoded id always fits in 9 bits, and the decoded weight is a
/// signed byte.
pub proof fn lemma_decode_ranges(w: u16)
    ensures
        decode_id(w) < 512,
        0 <= weight_merged(w) < 256,
        -128 <= decode_weight(w) <= 127,
{
    lemma_word_parts_bounds(w);
    assert(((w & 0xff) & 0x80) << 1 <= 0x100) by (bit_vector);
}

/// Parse one packed ROM word into its target id and signed weight.
pub fn parse_rom_word(rom_word: u16) -> (r: NeuronConnection)
    ensures
        r.id == decode_id(rom_word),
        r.weight == decode_weight(rom_word),
        r.id < 512,
{
    proof {
        lemma_word_parts_bounds(rom_word);
        lemma_decode_ranges(rom_word);
    }
    let low: u8 = (rom_word & 0xff) as u8;
    let high: u8 = (rom_word >> 8) as u8;

    assert((((low & 0x80) as u16) << 1) <= 0x100) by (bit_vector);
    let id: u16 = high as u16 + (((low & 0x80) as u16) << 1);
    assert(id == decode_id(rom_word)) by {
        assert(low as u16 == word_low(rom_word));
        assert((low & 0x80) as u16 == word_low(rom_word) & 0x80) by (bit_vector)
            requires low == (rom_word & 0xff) as u8;
        assert(((low & 0x80) as u16) << 1 <= 0x100) by (bit_vector);
    }

    let weight_bits: u8 = low & 0x7f;
    assert((((weight_bits & 0x40) as u16) << 1) <= 0x80) by (bit_vector);
    let merged: u16 = weight_bits as u16 + (((weight_bits & 0x40) as u16) << 1);
    assert(merged == weight_merged(rom_word)) by {
        assert((low & 0x7f) as u16 == word_low(rom_word) & 0x7f) by (bit_vector)
            requires low == (rom_word & 0xff) as u8;
        assert(((low & 0x7f) & 0x40) as u16 == word_low(rom_word) & 0x40) by (bit_vector)
            requires low == (rom_word & 0xff) as u8;
        assert((((low & 0x7f) & 0x40) as u16) << 1 == 2 * (((low & 0x7f) & 0x40) as u16))
            by (bit_vector);
    }

    let weight: i8 = if merged >= 128 {
        (merged as i16 - 256) as i8
    } else {
        merged as i8
    };

    NeuronConnection { id, weight }
}

} // verus!
