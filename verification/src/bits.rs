//! Bit-level spec helpers shared by the shift primitives and the decoders.

use vstd::prelude::*;

verus! {

/// The low `n` bits of a byte; for `n >= 8` the whole byte.
pub open spec fn low8(x: u8, n: u8) -> u8 {
    if n >= 8 {
        x
    } else {
        x & (((1u8 << n) - 1) as u8)
    }
}

/// The low `n` bits of a word; for `n >= 32` the whole word.
pub open spec fn low32(x: u32, n: u32) -> u32 {
    if n >= 32 {
        x
    } else {
        x & (((1u32 << n) - 1) as u32)
    }
}

/// Bit `i` of a byte, LSB first; false outside the byte.
pub open spec fn bit8(x: u8, i: int) -> bool {
    0 <= i < 8 && (x >> (i as u8)) & 1 == 1
}

/// Bit `i` of a word, LSB first; false outside the word.
pub open spec fn bit32(x: u32, i: int) -> bool {
    0 <= i < 32 && (x >> (i as u32)) & 1 == 1
}

/// A byte taken out of the middle of a word sees the word's bits at an offset.
pub proof fn lemma_byte_of_shifted_word(data: u32, done: u32, j: int)
    requires
        done < 32,
        0 <= j < 8,
    ensures
        bit8((data >> done) as u8, j) == bit32(data, done + j),
{
    let ju = j as u8;
    assert(j as u8 == ju);
    if done + j < 32 {
        assert((((data >> done) as u8) >> ju) & 1 == (data >> ((done + ju) as u32)) & 1)
            by (bit_vector)
            requires
                done < 32,
                ju < 8,
                done + ju < 32,
        ;
    } else {
        assert((((data >> done) as u8) >> ju) & 1 == 0) by (bit_vector)
            requires
                done < 32,
                ju < 8,
                done + ju >= 32,
        ;
    }
}

} // verus!
