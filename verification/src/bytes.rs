//! Byte-sequence helpers shared by the frame codecs and the EEPROM decoder.

use vstd::prelude::*;

verus! {

/// Copies `src[from..to]` into a new vector.
pub fn copy_range(src: &[u8], from: usize, to: usize) -> (out: Vec<u8>)
    requires
        from <= to <= src@.len(),
    ensures
        out@ == src@.subrange(from as int, to as int),
{
    let mut out: Vec<u8> = Vec::new();
    let mut i = from;
    while i < to
        invariant
            from <= i <= to <= src@.len(),
            out@ == src@.subrange(from as int, i as int),
        decreases to - i,
    {
        out.push(src[i]);
        i = i + 1;
    }
    out
}

/// Little-endian 16-bit value of two bytes.
pub open spec fn le_u16_spec(lo: u8, hi: u8) -> u16 {
    (lo as int + 256 * (hi as int)) as u16
}

/// Combines a low and a high byte into a little-endian `u16`.
pub fn le_u16(lo: u8, hi: u8) -> (v: u16)
    ensures
        v == le_u16_spec(lo, hi),
        v as int == lo as int + 256 * (hi as int),
{
    lo as u16 + (hi as u16) * 256
}

} // verus!
