//! Facts about the bit operations that pack header fields into bytes.
use vstd::prelude::*;

verus! {

/// The masks and shifts on a byte that read and write its bit fields agree
/// with division and remainder by powers of two.
pub proof fn lemma_u8_bits(b: u8, v: u8)
    by (bit_vector)
    ensures
        (b & 0xF0) >> 4 == b / 16,
        b >> 4 == b / 16,
        b & 0x0F == b % 16,
        (b & 0xFC) >> 2 == b / 4,
        b & 0x03 == b % 4,
        (b & 0xE0) >> 5 == b / 32,
        b & 0x1F == b % 32,
        (b & !0xF0u8) | (v << 4) == ((v % 16) * 16 + b % 16) as u8,
        (b & 0x0F) | (v << 4) == ((v % 16) * 16 + b % 16) as u8,
        (b & !0x0Fu8) | (v & 0x0F) == ((b / 16) * 16 + v % 16) as u8,
        (b & !0xFCu8) | (v << 2) == ((v % 64) * 4 + b % 4) as u8,
        (b & !0x03u8) | (v & 0x03) == ((b / 4) * 4 + v % 4) as u8,
        (b & 0x1F) | (v << 5) == ((v % 8) * 32 + b % 32) as u8,
        ((b & 0x01) > 0) == (b % 2 == 1),
        ((b & 0x02) > 0) == ((b / 2) % 2 == 1),
        ((b & 0xE0) == 0xE0) == (b >= 0xE0),
        ((b & 0xF0) == 0xF0) == (b >= 0xF0),
{
}

/// Bit `i` of a 16 bit field.
pub open spec fn spec_bit(f: u16, i: u16) -> bool {
    (f >> i) & 1 == 1
}

/// A 16 bit field with bit `i` set to `enabled`.
pub open spec fn spec_set_bit(f: u16, i: u16, enabled: bool) -> u16 {
    if enabled {
        f | (1u16 << i)
    } else {
        f & !(1u16 << i)
    }
}

/// Testing, setting and clearing one bit of a 16 bit field.
pub proof fn lemma_u16_bits(f: u16, i: u16, j: u16, enabled: bool)
    by (bit_vector)
    requires
        i < 16,
        j < 16,
    ensures
        ((f & (1u16 << i)) != 0) == spec_bit(f, i),
        spec_bit(spec_set_bit(f, i, enabled), i) == enabled,
        i != j ==> spec_bit(spec_set_bit(f, i, enabled), j) == spec_bit(f, j),
        i < 12 ==> spec_set_bit(f, i, enabled) >> 12u16 == f >> 12u16,
        i < 8 ==> spec_set_bit(f, i, enabled) >> 8u16 == f >> 8u16,
        f >> 12u16 == f / 4096,
        f >> 8u16 == f / 256,
        i < 9 ==> (spec_set_bit(f, i, enabled) >> 9u16) & 7 == (f >> 9u16) & 7,
        (f >> 9u16) & 7 == (f / 512) % 8,
{
}

} // verus!
