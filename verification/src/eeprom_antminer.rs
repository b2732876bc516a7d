//! Decoder for the Antminer hashboard EEPROM image (layout versions 4, 5
//! and 6): the header selects the cipher and key, the record regions are
//! deciphered in place, and the board identity and test fields are read
//! from the deciphered image.

use vstd::prelude::*;

use crate::bytes::{copy_range, le_u16, le_u16_spec};
use crate::text::{decimal_spec, hex_byte_spec, push_char, push_decimal, push_hex_byte, string_from};

verus! {

pub const EEPROM_SIZE: usize = 256;
pub const REGION1_START: usize = 2;
pub const REGION1_SIZE: usize = 96;
pub const REGION1_CRC_POS: usize = 97;
pub const REGION1_CRC_BITS: usize = 776;
pub const REGION2_START: usize = 98;
pub const REGION2_SIZE: usize = 16;
pub const REGION2_CRC_POS: usize = 113;
pub const REGION3_START: usize = 114;
pub const REGION3_SIZE: usize = 136;
pub const DELTA: u32 = 0x9E37_79B9;

/// XXTEA keys; the first, third and fourth are the ASCII texts
/// "ilijnaiaayuxnixo", "uohzoahzuhidkgna" and "uileynimdpfnangr".
pub const KEY_LARGE: [[u8; 16]; 4] = [
    [0x69, 0x6C, 0x69, 0x6A, 0x6E, 0x61, 0x69, 0x61, 0x61, 0x79, 0x75, 0x78, 0x6E, 0x69, 0x78, 0x6F],
    [0x74, 0x51, 0xED, 0x7C, 0x7B, 0x5C, 0xD8, 0x72, 0x17, 0x4F, 0xE0, 0x79, 0x0A, 0x15, 0xE4, 0xF5],
    [0x75, 0x6F, 0x68, 0x7A, 0x6F, 0x61, 0x68, 0x7A, 0x75, 0x68, 0x69, 0x64, 0x6B, 0x67, 0x6E, 0x61],
    [0x75, 0x69, 0x6C, 0x65, 0x79, 0x6E, 0x69, 0x6D, 0x64, 0x70, 0x66, 0x6E, 0x61, 0x6E, 0x67, 0x72],
];

pub const KEY_SMALL: [u32; 4] = [0xBABE_FACE, 0xFEED_CAFE, 0xDEAD_BEEF, 0xABCD_55AA];

pub const CRC5_LOOKUP: [u8; 256] = [
    0x00, 0x28, 0x50, 0x78, 0xA0, 0x88, 0xF0, 0xD8, 0x68, 0x40, 0x38, 0x10, 0xC8, 0xE0, 0x98, 0xB0,
    0xD0, 0xF8, 0x80, 0xA8, 0x70, 0x58, 0x20, 0x08, 0xB8, 0x90, 0xE8, 0xC0, 0x18, 0x30, 0x48, 0x60,
    0x88, 0xA0, 0xD8, 0xF0, 0x28, 0x00, 0x78, 0x50, 0xE0, 0xC8, 0xB0, 0x98, 0x40, 0x68, 0x10, 0x38,
    0x58, 0x70, 0x08, 0x20, 0xF8, 0xD0, 0xA8, 0x80, 0x30, 0x18, 0x60, 0x48, 0x90, 0xB8, 0xC0, 0xE8,
    0x38, 0x10, 0x68, 0x40, 0x98, 0xB0, 0xC8, 0xE0, 0x50, 0x78, 0x00, 0x28, 0xF0, 0xD8, 0xA0, 0x88,
    0xE8, 0xC0, 0xB8, 0x90, 0x48, 0x60, 0x18, 0x30, 0x80, 0xA8, 0xD0, 0xF8, 0x20, 0x08, 0x70, 0x58,
    0xB0, 0x98, 0xE0, 0xC8, 0x10, 0x38, 0x40, 0x68, 0xD8, 0xF0, 0x88, 0xA0, 0x78, 0x50, 0x28, 0x00,
    0x60, 0x48, 0x30, 0x18, 0xC0, 0xE8, 0x90, 0xB8, 0x08, 0x20, 0x58, 0x70, 0xA8, 0x80, 0xF8, 0xD0,
    0x70, 0x58, 0x20, 0x08, 0xD0, 0xF8, 0x80, 0xA8, 0x18, 0x30, 0x48, 0x60, 0xB8, 0x90, 0xE8, 0xC0,
    0xA0, 0x88, 0xF0, 0xD8, 0x00, 0x28, 0x50, 0x78, 0xC8, 0xE0, 0x98, 0xB0, 0x68, 0x40, 0x38, 0x10,
    0xF8, 0xD0, 0xA8, 0x80, 0x58, 0x70, 0x08, 0x20, 0x90, 0xB8, 0xC0, 0xE8, 0x30, 0x18, 0x60, 0x48,
    0x28, 0x00, 0x78, 0x50, 0x88, 0xA0, 0xD8, 0xF0, 0x40, 0x68, 0x10, 0x38, 0xE0, 0xC8, 0xB0, 0x98,
    0x48, 0x60, 0x18, 0x30, 0xE8, 0xC0, 0xB8, 0x90, 0x20, 0x08, 0x70, 0x58, 0x80, 0xA8, 0xD0, 0xF8,
    0x98, 0xB0, 0xC8, 0xE0, 0x38, 0x10, 0x68, 0x40, 0xF0, 0xD8, 0xA0, 0x88, 0x50, 0x78, 0x00, 0x28,
    0xC0, 0xE8, 0x90, 0xB8, 0x60, 0x48, 0x30, 0x18, 0xA8, 0x80, 0xF8, 0xD0, 0x08, 0x20, 0x58, 0x70,
    0x10, 0x38, 0x40, 0x68, 0xB0, 0x98, 0xE0, 0xC8, 0x78, 0x50, 0x28, 0x00, 0xD8, 0xF0, 0x88, 0xA0,
];

#[derive(Debug, Clone, Copy, PartialEq, Eq, Structural)]
pub enum AntminerEepromVersion {
    V4,
    V5,
    V6,
}

#[derive(Debug, Clone, Copy, PartialEq, Eq, Structural)]
pub enum AntminerEepromAlgorithm {
    Xxtea,
    Xor,
    Unknown(u8),
}

/// The display name of a cipher.
pub open spec fn algorithm_name_spec(algorithm: AntminerEepromAlgorithm) -> Seq<char> {
    match algorithm {
        AntminerEepromAlgorithm::Xxtea => "XXTEA"@,
        AntminerEepromAlgorithm::Xor => "XOR"@,
        AntminerEepromAlgorithm::Unknown(_) => "unknown"@,
    }
}

impl AntminerEepromAlgorithm {
    pub fn name(self) -> (s: &'static str)
        ensures
            s@ == algorithm_name_spec(self),
    {
        match self {
            AntminerEepromAlgorithm::Xxtea => "XXTEA",
            AntminerEepromAlgorithm::Xor => "XOR",
            AntminerEepromAlgorithm::Unknown(_) => "unknown",
        }
    }
}

/// Index of the first `b` in `s` at or after `i`, or `s.len()`.
pub open spec fn position_from(s: Seq<u8>, b: u8, i: int) -> int
    decreases s.len() - i,
{
    if i < 0 || i >= s.len() {
        s.len() as int
    } else if s[i] == b {
        i
    } else {
        position_from(s, b, i + 1)
    }
}

/// Index of the first `b` in `s`, or `s.len()` when there is none.
pub open spec fn first_index_of(s: Seq<u8>, b: u8) -> int {
    position_from(s, b, 0)
}

/// Finds the first `b` in `s`.
fn find_byte(s: &[u8], b: u8) -> (pos: usize)
    ensures
        pos == first_index_of(s@, b),
        pos <= s@.len(),
{
    let mut i: usize = 0;
    while i < s.len()
        invariant
            i <= s@.len(),
            position_from(s@, b, 0) == position_from(s@, b, i as int),
        decreases s@.len() - i,
    {
        if s[i] == b {
            return i;
        }
        i = i + 1;
    }
    i
}

/// Number of bytes of `s` from index `i` on that differ from `0xFF`.
pub open spec fn count_non_ff_from(s: Seq<u8>, i: int) -> int
    decreases s.len() - i,
{
    if i < 0 || i >= s.len() {
        0
    } else {
        (if s[i] != 0xFF {
            1int
        } else {
            0int
        }) + count_non_ff_from(s, i + 1)
    }
}

proof fn lemma_count_non_ff_bound(s: Seq<u8>, i: int)
    requires
        0 <= i <= s.len(),
    ensures
        0 <= count_non_ff_from(s, i) <= s.len() - i,
    decreases s.len() - i,
{
    if i < s.len() {
        lemma_count_non_ff_bound(s, i + 1);
    }
}

fn count_non_ff(s: &[u8]) -> (count: usize)
    ensures
        count == count_non_ff_from(s@, 0),
{
    let mut count: usize = 0;
    let mut i: usize = 0;
    while i < s.len()
        invariant
            i <= s@.len(),
            count <= i,
            count + count_non_ff_from(s@, i as int) == count_non_ff_from(s@, 0),
        decreases s@.len() - i,
    {
        if s[i] != 0xFF {
            count = count + 1;
        }
        i = i + 1;
    }
    count
}

/// The character shown for an EEPROM text byte: printable ASCII (space
/// through `~`) as itself, anything else as `?`.
pub open spec fn shown_char(b: u8) -> char {
    if 0x20 <= b <= 0x7E {
        b as char
    } else {
        '?'
    }
}

/// Index of the first non-space character of `s` at or after `i`.
pub open spec fn skip_spaces_from(s: Seq<char>, i: int) -> int
    decreases s.len() - i,
{
    if 0 <= i < s.len() && s[i] == ' ' {
        skip_spaces_from(s, i + 1)
    } else {
        i
    }
}

/// The end of `s[lo..j]` once trailing spaces are removed.
pub open spec fn trim_end_from(s: Seq<char>, lo: int, j: int) -> int
    decreases j - lo,
{
    if lo < j && 0 < j <= s.len() && s[j - 1] == ' ' {
        trim_end_from(s, lo, j - 1)
    } else {
        j
    }
}

/// `s` without leading and trailing spaces.
pub open spec fn trim_spaces(s: Seq<char>) -> Seq<char> {
    let lo = skip_spaces_from(s, 0);
    s.subrange(lo, trim_end_from(s, lo, s.len() as int))
}

/// An EEPROM text field: the bytes up to the first NUL, shown as
/// characters, with surrounding spaces removed.
pub open spec fn decode_string_spec(bytes: Seq<u8>) -> Seq<char> {
    trim_spaces(bytes.take(first_index_of(bytes, 0)).map_values(|b: u8| shown_char(b)))
}

fn shown(b: u8) -> (c: char)
    ensures
        c == shown_char(b),
{
    if 0x20 <= b && b <= 0x7E {
        b as char
    } else {
        '?'
    }
}

fn decode_string(bytes: &[u8]) -> (s: String)
    ensures
        s@ == decode_string_spec(bytes@),
{
    let end = find_byte(bytes, 0);
    let ghost text = bytes@.take(end as int).map_values(|b: u8| shown_char(b));
    let mut lo: usize = 0;
    while lo < end && shown(bytes[lo]) == ' '
        invariant
            lo <= end <= bytes@.len(),
            text.len() == end,
            text == bytes@.take(end as int).map_values(|b: u8| shown_char(b)),
            skip_spaces_from(text, 0) == skip_spaces_from(text, lo as int),
        decreases end - lo,
    {
        lo = lo + 1;
    }
    let mut hi: usize = end;
    while hi > lo && shown(bytes[hi - 1]) == ' '
        invariant
            lo <= hi <= end <= bytes@.len(),
            text.len() == end,
            text == bytes@.take(end as int).map_values(|b: u8| shown_char(b)),
            skip_spaces_from(text, 0) == lo,
            trim_end_from(text, lo as int, end as int) == trim_end_from(text, lo as int, hi as int),
        decreases hi - lo,
    {
        hi = hi - 1;
    }
    let mut s = String::new();
    let mut i: usize = lo;
    while i < hi
        invariant
            lo <= i <= hi <= end <= bytes@.len(),
            text.len() == end,
            text == bytes@.take(end as int).map_values(|b: u8| shown_char(b)),
            s@ == text.subrange(lo as int, i as int),
        decreases hi - i,
    {
        push_char(&mut s, shown(bytes[i]));
        i = i + 1;
        proof {
            assert(s@ =~= text.subrange(lo as int, i as int));
        }
    }
    s
}

/// The CRC register after feeding the first `n` bytes of `bytes`.
pub open spec fn crc_after(bytes: Seq<u8>, n: int) -> u8
    decreases n,
{
    if n <= 0 {
        0xF8u8
    } else {
        CRC5_LOOKUP@[(crc_after(bytes, n - 1) ^ bytes[n - 1]) as int]
    }
}

/// The 5-bit CRC of the first `bits` bits of `bytes` (table driven, with
/// the trailing partial byte folded in when there is one).
pub open spec fn crc_spec(bytes: Seq<u8>, bits: usize) -> u8 {
    let byte_count = bits >> 3usize;
    let crc = crc_after(bytes, byte_count as int);
    let trailing_bits = bits & 7usize;
    let last = if trailing_bits != 0 && byte_count < bytes.len() {
        (crc << trailing_bits) ^ CRC5_LOOKUP@[((crc ^ bytes[byte_count as int]) >> (8usize
            - trailing_bits)) as int]
    } else {
        crc
    };
    last >> 3usize
}

fn calculate_crc(bytes: &[u8], bits: usize) -> (crc: u8)
    requires
        (bits >> 3usize) <= bytes@.len(),
    ensures
        crc == crc_spec(bytes@, bits),
{
    let mut crc: u8 = 0xF8;
    let mut index: usize = 0;
    let byte_count = bits >> 3;
    while index < byte_count
        invariant
            index <= byte_count <= bytes@.len(),
            byte_count == bits >> 3usize,
            crc == crc_after(bytes@, index as int),
        decreases byte_count - index,
    {
        crc = CRC5_LOOKUP[(crc ^ bytes[index]) as usize];
        index = index + 1;
    }
    let trailing_bits = bits & 7;
    assert(trailing_bits <= 7) by (bit_vector)
        requires
            trailing_bits == bits & 7usize,
    ;
    if trailing_bits != 0 && index < bytes.len() {
        crc = (crc << trailing_bits) ^ CRC5_LOOKUP[((crc ^ bytes[index]) >> (8 - trailing_bits))
            as usize];
    }
    crc >> 3
}

/// One step of the bitwise CRC-5 with polynomial 0x05 (x^5 + x^2 + 1) on a
/// 5-bit register: the register shifts left by one, and the polynomial is
/// XORed in where the bit shifted out differs from the incoming `bit` (0 or 1).
pub open spec fn crc5_step(reg: u8, bit: u8) -> u8 {
    let shifted = (reg << 1u8) & 0x1Fu8;
    if (reg >> 4u8) & 1u8 != bit {
        shifted ^ 0x05u8
    } else {
        shifted
    }
}

/// Bit `k` (0 or 1) of the bit stream of `bytes`, each byte most
/// significant bit first.
pub open spec fn stream_bit(bytes: Seq<u8>, k: int) -> u8 {
    (bytes[k / 8] >> ((7 - k % 8) as u8)) & 1u8
}

/// The bitwise CRC-5 register after the first `n` bits of `bytes`, from
/// the initial value 0x1F.
pub open spec fn crc5_bits(bytes: Seq<u8>, n: nat) -> u8
    decreases n,
{
    if n == 0 {
        0x1Fu8
    } else {
        crc5_step(crc5_bits(bytes, (n - 1) as nat), stream_bit(bytes, n - 1))
    }
}

/// The register after feeding the `t` (at most 8) leading bits of `b`.
#[verifier::opaque]
spec fn feed_bits(reg: u8, b: u8, t: u8) -> u8 {
    let r1 = crc5_step(reg, (b >> 7u8) & 1u8);
    let r2 = crc5_step(r1, (b >> 6u8) & 1u8);
    let r3 = crc5_step(r2, (b >> 5u8) & 1u8);
    let r4 = crc5_step(r3, (b >> 4u8) & 1u8);
    let r5 = crc5_step(r4, (b >> 3u8) & 1u8);
    let r6 = crc5_step(r5, (b >> 2u8) & 1u8);
    let r7 = crc5_step(r6, (b >> 1u8) & 1u8);
    let r8 = crc5_step(r7, b & 1u8);
    if t == 0 {
        reg
    } else if t == 1 {
        r1
    } else if t == 2 {
        r2
    } else if t == 3 {
        r3
    } else if t == 4 {
        r4
    } else if t == 5 {
        r5
    } else if t == 6 {
        r6
    } else if t == 7 {
        r7
    } else {
        r8
    }
}

/// The bitwise CRC-5 of each byte from a zero register, in the top five
/// bits.
proof fn lemma_table_values()
    by (bit_vector)
    ensures
        feed_bits(0, 0, 8) << 3u8 == 0x00 && feed_bits(0, 1, 8) << 3u8 == 0x28 && feed_bits(0, 2, 8) << 3u8 == 0x50 &&
        feed_bits(0, 3, 8) << 3u8 == 0x78 && feed_bits(0, 4, 8) << 3u8 == 0xA0 && feed_bits(0, 5, 8) << 3u8 == 0x88 &&
        feed_bits(0, 6, 8) << 3u8 == 0xF0 && feed_bits(0, 7, 8) << 3u8 == 0xD8 && feed_bits(0, 8, 8) << 3u8 == 0x68 &&
        feed_bits(0, 9, 8) << 3u8 == 0x40 && feed_bits(0, 10, 8) << 3u8 == 0x38 && feed_bits(0, 11, 8) << 3u8 == 0x10 &&
        feed_bits(0, 12, 8) << 3u8 == 0xC8 && feed_bits(0, 13, 8) << 3u8 == 0xE0 && feed_bits(0, 14, 8) << 3u8 == 0x98 &&
        feed_bits(0, 15, 8) << 3u8 == 0xB0 && feed_bits(0, 16, 8) << 3u8 == 0xD0 && feed_bits(0, 17, 8) << 3u8 == 0xF8 &&
        feed_bits(0, 18, 8) << 3u8 == 0x80 && feed_bits(0, 19, 8) << 3u8 == 0xA8 && feed_bits(0, 20, 8) << 3u8 == 0x70 &&
        feed_bits(0, 21, 8) << 3u8 == 0x58 && feed_bits(0, 22, 8) << 3u8 == 0x20 && feed_bits(0, 23, 8) << 3u8 == 0x08 &&
        feed_bits(0, 24, 8) << 3u8 == 0xB8 && feed_bits(0, 25, 8) << 3u8 == 0x90 && feed_bits(0, 26, 8) << 3u8 == 0xE8 &&
        feed_bits(0, 27, 8) << 3u8 == 0xC0 && feed_bits(0, 28, 8) << 3u8 == 0x18 && feed_bits(0, 29, 8) << 3u8 == 0x30 &&
        feed_bits(0, 30, 8) << 3u8 == 0x48 && feed_bits(0, 31, 8) << 3u8 == 0x60 && feed_bits(0, 32, 8) << 3u8 == 0x88 &&
        feed_bits(0, 33, 8) << 3u8 == 0xA0 && feed_bits(0, 34, 8) << 3u8 == 0xD8 && feed_bits(0, 35, 8) << 3u8 == 0xF0 &&
        feed_bits(0, 36, 8) << 3u8 == 0x28 && feed_bits(0, 37, 8) << 3u8 == 0x00 && feed_bits(0, 38, 8) << 3u8 == 0x78 &&
        feed_bits(0, 39, 8) << 3u8 == 0x50 && feed_bits(0, 40, 8) << 3u8 == 0xE0 && feed_bits(0, 41, 8) << 3u8 == 0xC8 &&
        feed_bits(0, 42, 8) << 3u8 == 0xB0 && feed_bits(0, 43, 8) << 3u8 == 0x98 && feed_bits(0, 44, 8) << 3u8 == 0x40 &&
        feed_bits(0, 45, 8) << 3u8 == 0x68 && feed_bits(0, 46, 8) << 3u8 == 0x10 && feed_bits(0, 47, 8) << 3u8 == 0x38 &&
        feed_bits(0, 48, 8) << 3u8 == 0x58 && feed_bits(0, 49, 8) << 3u8 == 0x70 && feed_bits(0, 50, 8) << 3u8 == 0x08 &&
        feed_bits(0, 51, 8) << 3u8 == 0x20 && feed_bits(0, 52, 8) << 3u8 == 0xF8 && feed_bits(0, 53, 8) << 3u8 == 0xD0 &&
        feed_bits(0, 54, 8) << 3u8 == 0xA8 && feed_bits(0, 55, 8) << 3u8 == 0x80 && feed_bits(0, 56, 8) << 3u8 == 0x30 &&
        feed_bits(0, 57, 8) << 3u8 == 0x18 && feed_bits(0, 58, 8) << 3u8 == 0x60 && feed_bits(0, 59, 8) << 3u8 == 0x48 &&
        feed_bits(0, 60, 8) << 3u8 == 0x90 && feed_bits(0, 61, 8) << 3u8 == 0xB8 && feed_bits(0, 62, 8) << 3u8 == 0xC0 &&
        feed_bits(0, 63, 8) << 3u8 == 0xE8 && feed_bits(0, 64, 8) << 3u8 == 0x38 && feed_bits(0, 65, 8) << 3u8 == 0x10 &&
        feed_bits(0, 66, 8) << 3u8 == 0x68 && feed_bits(0, 67, 8) << 3u8 == 0x40 && feed_bits(0, 68, 8) << 3u8 == 0x98 &&
        feed_bits(0, 69, 8) << 3u8 == 0xB0 && feed_bits(0, 70, 8) << 3u8 == 0xC8 && feed_bits(0, 71, 8) << 3u8 == 0xE0 &&
        feed_bits(0, 72, 8) << 3u8 == 0x50 && feed_bits(0, 73, 8) << 3u8 == 0x78 && feed_bits(0, 74, 8) << 3u8 == 0x00 &&
        feed_bits(0, 75, 8) << 3u8 == 0x28 && feed_bits(0, 76, 8) << 3u8 == 0xF0 && feed_bits(0, 77, 8) << 3u8 == 0xD8 &&
        feed_bits(0, 78, 8) << 3u8 == 0xA0 && feed_bits(0, 79, 8) << 3u8 == 0x88 && feed_bits(0, 80, 8) << 3u8 == 0xE8 &&
        feed_bits(0, 81, 8) << 3u8 == 0xC0 && feed_bits(0, 82, 8) << 3u8 == 0xB8 && feed_bits(0, 83, 8) << 3u8 == 0x90 &&
        feed_bits(0, 84, 8) << 3u8 == 0x48 && feed_bits(0, 85, 8) << 3u8 == 0x60 && feed_bits(0, 86, 8) << 3u8 == 0x18 &&
        feed_bits(0, 87, 8) << 3u8 == 0x30 && feed_bits(0, 88, 8) << 3u8 == 0x80 && feed_bits(0, 89, 8) << 3u8 == 0xA8 &&
        feed_bits(0, 90, 8) << 3u8 == 0xD0 && feed_bits(0, 91, 8) << 3u8 == 0xF8 && feed_bits(0, 92, 8) << 3u8 == 0x20 &&
        feed_bits(0, 93, 8) << 3u8 == 0x08 && feed_bits(0, 94, 8) << 3u8 == 0x70 && feed_bits(0, 95, 8) << 3u8 == 0x58 &&
        feed_bits(0, 96, 8) << 3u8 == 0xB0 && feed_bits(0, 97, 8) << 3u8 == 0x98 && feed_bits(0, 98, 8) << 3u8 == 0xE0 &&
        feed_bits(0, 99, 8) << 3u8 == 0xC8 && feed_bits(0, 100, 8) << 3u8 == 0x10 && feed_bits(0, 101, 8) << 3u8 == 0x38 &&
        feed_bits(0, 102, 8) << 3u8 == 0x40 && feed_bits(0, 103, 8) << 3u8 == 0x68 && feed_bits(0, 104, 8) << 3u8 == 0xD8 &&
        feed_bits(0, 105, 8) << 3u8 == 0xF0 && feed_bits(0, 106, 8) << 3u8 == 0x88 && feed_bits(0, 107, 8) << 3u8 == 0xA0 &&
        feed_bits(0, 108, 8) << 3u8 == 0x78 && feed_bits(0, 109, 8) << 3u8 == 0x50 && feed_bits(0, 110, 8) << 3u8 == 0x28 &&
        feed_bits(0, 111, 8) << 3u8 == 0x00 && feed_bits(0, 112, 8) << 3u8 == 0x60 && feed_bits(0, 113, 8) << 3u8 == 0x48 &&
        feed_bits(0, 114, 8) << 3u8 == 0x30 && feed_bits(0, 115, 8) << 3u8 == 0x18 && feed_bits(0, 116, 8) << 3u8 == 0xC0 &&
        feed_bits(0, 117, 8) << 3u8 == 0xE8 && feed_bits(0, 118, 8) << 3u8 == 0x90 && feed_bits(0, 119, 8) << 3u8 == 0xB8 &&
        feed_bits(0, 120, 8) << 3u8 == 0x08 && feed_bits(0, 121, 8) << 3u8 == 0x20 && feed_bits(0, 122, 8) << 3u8 == 0x58 &&
        feed_bits(0, 123, 8) << 3u8 == 0x70 && feed_bits(0, 124, 8) << 3u8 == 0xA8 && feed_bits(0, 125, 8) << 3u8 == 0x80 &&
        feed_bits(0, 126, 8) << 3u8 == 0xF8 && feed_bits(0, 127, 8) << 3u8 == 0xD0 && feed_bits(0, 128, 8) << 3u8 == 0x70 &&
        feed_bits(0, 129, 8) << 3u8 == 0x58 && feed_bits(0, 130, 8) << 3u8 == 0x20 && feed_bits(0, 131, 8) << 3u8 == 0x08 &&
        feed_bits(0, 132, 8) << 3u8 == 0xD0 && feed_bits(0, 133, 8) << 3u8 == 0xF8 && feed_bits(0, 134, 8) << 3u8 == 0x80 &&
        feed_bits(0, 135, 8) << 3u8 == 0xA8 && feed_bits(0, 136, 8) << 3u8 == 0x18 && feed_bits(0, 137, 8) << 3u8 == 0x30 &&
        feed_bits(0, 138, 8) << 3u8 == 0x48 && feed_bits(0, 139, 8) << 3u8 == 0x60 && feed_bits(0, 140, 8) << 3u8 == 0xB8 &&
        feed_bits(0, 141, 8) << 3u8 == 0x90 && feed_bits(0, 142, 8) << 3u8 == 0xE8 && feed_bits(0, 143, 8) << 3u8 == 0xC0 &&
        feed_bits(0, 144, 8) << 3u8 == 0xA0 && feed_bits(0, 145, 8) << 3u8 == 0x88 && feed_bits(0, 146, 8) << 3u8 == 0xF0 &&
        feed_bits(0, 147, 8) << 3u8 == 0xD8 && feed_bits(0, 148, 8) << 3u8 == 0x00 && feed_bits(0, 149, 8) << 3u8 == 0x28 &&
        feed_bits(0, 150, 8) << 3u8 == 0x50 && feed_bits(0, 151, 8) << 3u8 == 0x78 && feed_bits(0, 152, 8) << 3u8 == 0xC8 &&
        feed_bits(0, 153, 8) << 3u8 == 0xE0 && feed_bits(0, 154, 8) << 3u8 == 0x98 && feed_bits(0, 155, 8) << 3u8 == 0xB0 &&
        feed_bits(0, 156, 8) << 3u8 == 0x68 && feed_bits(0, 157, 8) << 3u8 == 0x40 && feed_bits(0, 158, 8) << 3u8 == 0x38 &&
        feed_bits(0, 159, 8) << 3u8 == 0x10 && feed_bits(0, 160, 8) << 3u8 == 0xF8 && feed_bits(0, 161, 8) << 3u8 == 0xD0 &&
        feed_bits(0, 162, 8) << 3u8 == 0xA8 && feed_bits(0, 163, 8) << 3u8 == 0x80 && feed_bits(0, 164, 8) << 3u8 == 0x58 &&
        feed_bits(0, 165, 8) << 3u8 == 0x70 && feed_bits(0, 166, 8) << 3u8 == 0x08 && feed_bits(0, 167, 8) << 3u8 == 0x20 &&
        feed_bits(0, 168, 8) << 3u8 == 0x90 && feed_bits(0, 169, 8) << 3u8 == 0xB8 && feed_bits(0, 170, 8) << 3u8 == 0xC0 &&
        feed_bits(0, 171, 8) << 3u8 == 0xE8 && feed_bits(0, 172, 8) << 3u8 == 0x30 && feed_bits(0, 173, 8) << 3u8 == 0x18 &&
        feed_bits(0, 174, 8) << 3u8 == 0x60 && feed_bits(0, 175, 8) << 3u8 == 0x48 && feed_bits(0, 176, 8) << 3u8 == 0x28 &&
        feed_bits(0, 177, 8) << 3u8 == 0x00 && feed_bits(0, 178, 8) << 3u8 == 0x78 && feed_bits(0, 179, 8) << 3u8 == 0x50 &&
        feed_bits(0, 180, 8) << 3u8 == 0x88 && feed_bits(0, 181, 8) << 3u8 == 0xA0 && feed_bits(0, 182, 8) << 3u8 == 0xD8 &&
        feed_bits(0, 183, 8) << 3u8 == 0xF0 && feed_bits(0, 184, 8) << 3u8 == 0x40 && feed_bits(0, 185, 8) << 3u8 == 0x68 &&
        feed_bits(0, 186, 8) << 3u8 == 0x10 && feed_bits(0, 187, 8) << 3u8 == 0x38 && feed_bits(0, 188, 8) << 3u8 == 0xE0 &&
        feed_bits(0, 189, 8) << 3u8 == 0xC8 && feed_bits(0, 190, 8) << 3u8 == 0xB0 && feed_bits(0, 191, 8) << 3u8 == 0x98 &&
        feed_bits(0, 192, 8) << 3u8 == 0x48 && feed_bits(0, 193, 8) << 3u8 == 0x60 && feed_bits(0, 194, 8) << 3u8 == 0x18 &&
        feed_bits(0, 195, 8) << 3u8 == 0x30 && feed_bits(0, 196, 8) << 3u8 == 0xE8 && feed_bits(0, 197, 8) << 3u8 == 0xC0 &&
        feed_bits(0, 198, 8) << 3u8 == 0xB8 && feed_bits(0, 199, 8) << 3u8 == 0x90 && feed_bits(0, 200, 8) << 3u8 == 0x20 &&
        feed_bits(0, 201, 8) << 3u8 == 0x08 && feed_bits(0, 202, 8) << 3u8 == 0x70 && feed_bits(0, 203, 8) << 3u8 == 0x58 &&
        feed_bits(0, 204, 8) << 3u8 == 0x80 && feed_bits(0, 205, 8) << 3u8 == 0xA8 && feed_bits(0, 206, 8) << 3u8 == 0xD0 &&
        feed_bits(0, 207, 8) << 3u8 == 0xF8 && feed_bits(0, 208, 8) << 3u8 == 0x98 && feed_bits(0, 209, 8) << 3u8 == 0xB0 &&
        feed_bits(0, 210, 8) << 3u8 == 0xC8 && feed_bits(0, 211, 8) << 3u8 == 0xE0 && feed_bits(0, 212, 8) << 3u8 == 0x38 &&
        feed_bits(0, 213, 8) << 3u8 == 0x10 && feed_bits(0, 214, 8) << 3u8 == 0x68 && feed_bits(0, 215, 8) << 3u8 == 0x40 &&
        feed_bits(0, 216, 8) << 3u8 == 0xF0 && feed_bits(0, 217, 8) << 3u8 == 0xD8 && feed_bits(0, 218, 8) << 3u8 == 0xA0 &&
        feed_bits(0, 219, 8) << 3u8 == 0x88 && feed_bits(0, 220, 8) << 3u8 == 0x50 && feed_bits(0, 221, 8) << 3u8 == 0x78 &&
        feed_bits(0, 222, 8) << 3u8 == 0x00 && feed_bits(0, 223, 8) << 3u8 == 0x28 && feed_bits(0, 224, 8) << 3u8 == 0xC0 &&
        feed_bits(0, 225, 8) << 3u8 == 0xE8 && feed_bits(0, 226, 8) << 3u8 == 0x90 && feed_bits(0, 227, 8) << 3u8 == 0xB8 &&
        feed_bits(0, 228, 8) << 3u8 == 0x60 && feed_bits(0, 229, 8) << 3u8 == 0x48 && feed_bits(0, 230, 8) << 3u8 == 0x30 &&
        feed_bits(0, 231, 8) << 3u8 == 0x18 && feed_bits(0, 232, 8) << 3u8 == 0xA8 && feed_bits(0, 233, 8) << 3u8 == 0x80 &&
        feed_bits(0, 234, 8) << 3u8 == 0xF8 && feed_bits(0, 235, 8) << 3u8 == 0xD0 && feed_bits(0, 236, 8) << 3u8 == 0x08 &&
        feed_bits(0, 237, 8) << 3u8 == 0x20 && feed_bits(0, 238, 8) << 3u8 == 0x58 && feed_bits(0, 239, 8) << 3u8 == 0x70 &&
        feed_bits(0, 240, 8) << 3u8 == 0x10 && feed_bits(0, 241, 8) << 3u8 == 0x38 && feed_bits(0, 242, 8) << 3u8 == 0x40 &&
        feed_bits(0, 243, 8) << 3u8 == 0x68 && feed_bits(0, 244, 8) << 3u8 == 0xB0 && feed_bits(0, 245, 8) << 3u8 == 0x98 &&
        feed_bits(0, 246, 8) << 3u8 == 0xE0 && feed_bits(0, 247, 8) << 3u8 == 0xC8 && feed_bits(0, 248, 8) << 3u8 == 0x78 &&
        feed_bits(0, 249, 8) << 3u8 == 0x50 && feed_bits(0, 250, 8) << 3u8 == 0x28 && feed_bits(0, 251, 8) << 3u8 == 0x00 &&
        feed_bits(0, 252, 8) << 3u8 == 0xD8 && feed_bits(0, 253, 8) << 3u8 == 0xF0 && feed_bits(0, 254, 8) << 3u8 == 0x88 &&
        feed_bits(0, 255, 8) << 3u8 == 0xA0,
{
}

/// Each entry of the lookup table is the bitwise CRC-5 of its index from a
/// zero register, held in the top five bits.
proof fn lemma_crc_table(x: u8)
    ensures
        CRC5_LOOKUP@[x as int] == feed_bits(0, x, 8) << 3u8,
{
    lemma_table_values();
    assert(
        x == 0 || x == 1 || x == 2 || x == 3 || x == 4 || x == 5 || x == 6 || x == 7 || x == 8 || x == 9 || x == 10 || x == 11 ||
        x == 12 || x == 13 || x == 14 || x == 15 || x == 16 || x == 17 || x == 18 || x == 19 || x == 20 || x == 21 || x == 22 || x == 23 ||
        x == 24 || x == 25 || x == 26 || x == 27 || x == 28 || x == 29 || x == 30 || x == 31 || x == 32 || x == 33 || x == 34 || x == 35 ||
        x == 36 || x == 37 || x == 38 || x == 39 || x == 40 || x == 41 || x == 42 || x == 43 || x == 44 || x == 45 || x == 46 || x == 47 ||
        x == 48 || x == 49 || x == 50 || x == 51 || x == 52 || x == 53 || x == 54 || x == 55 || x == 56 || x == 57 || x == 58 || x == 59 ||
        x == 60 || x == 61 || x == 62 || x == 63 || x == 64 || x == 65 || x == 66 || x == 67 || x == 68 || x == 69 || x == 70 || x == 71 ||
        x == 72 || x == 73 || x == 74 || x == 75 || x == 76 || x == 77 || x == 78 || x == 79 || x == 80 || x == 81 || x == 82 || x == 83 ||
        x == 84 || x == 85 || x == 86 || x == 87 || x == 88 || x == 89 || x == 90 || x == 91 || x == 92 || x == 93 || x == 94 || x == 95 ||
        x == 96 || x == 97 || x == 98 || x == 99 || x == 100 || x == 101 || x == 102 || x == 103 || x == 104 || x == 105 || x == 106 || x == 107 ||
        x == 108 || x == 109 || x == 110 || x == 111 || x == 112 || x == 113 || x == 114 || x == 115 || x == 116 || x == 117 || x == 118 || x == 119 ||
        x == 120 || x == 121 || x == 122 || x == 123 || x == 124 || x == 125 || x == 126 || x == 127 || x == 128 || x == 129 || x == 130 || x == 131 ||
        x == 132 || x == 133 || x == 134 || x == 135 || x == 136 || x == 137 || x == 138 || x == 139 || x == 140 || x == 141 || x == 142 || x == 143 ||
        x == 144 || x == 145 || x == 146 || x == 147 || x == 148 || x == 149 || x == 150 || x == 151 || x == 152 || x == 153 || x == 154 || x == 155 ||
        x == 156 || x == 157 || x == 158 || x == 159 || x == 160 || x == 161 || x == 162 || x == 163 || x == 164 || x == 165 || x == 166 || x == 167 ||
        x == 168 || x == 169 || x == 170 || x == 171 || x == 172 || x == 173 || x == 174 || x == 175 || x == 176 || x == 177 || x == 178 || x == 179 ||
        x == 180 || x == 181 || x == 182 || x == 183 || x == 184 || x == 185 || x == 186 || x == 187 || x == 188 || x == 189 || x == 190 || x == 191 ||
        x == 192 || x == 193 || x == 194 || x == 195 || x == 196 || x == 197 || x == 198 || x == 199 || x == 200 || x == 201 || x == 202 || x == 203 ||
        x == 204 || x == 205 || x == 206 || x == 207 || x == 208 || x == 209 || x == 210 || x == 211 || x == 212 || x == 213 || x == 214 || x == 215 ||
        x == 216 || x == 217 || x == 218 || x == 219 || x == 220 || x == 221 || x == 222 || x == 223 || x == 224 || x == 225 || x == 226 || x == 227 ||
        x == 228 || x == 229 || x == 230 || x == 231 || x == 232 || x == 233 || x == 234 || x == 235 || x == 236 || x == 237 || x == 238 || x == 239 ||
        x == 240 || x == 241 || x == 242 || x == 243 || x == 244 || x == 245 || x == 246 || x == 247 || x == 248 || x == 249 || x == 250 || x == 251 ||
        x == 252 || x == 253 || x == 254 || x == 255
    );
}

/// Feeding a whole byte `b` into the register `reg` is feeding `b` with
/// the register folded into its top five bits into a zero register.
proof fn lemma_feed_byte(reg: u8, b: u8)
    by (bit_vector)
    requires
        reg < 32,
    ensures
        feed_bits(reg, b, 8) == feed_bits(0, (reg << 3u8) ^ b, 8),
{
}

/// Feeding the `t` leading bits of `b`, as the table does it.
proof fn lemma_feed_partial(reg: u8, b: u8, t: usize)
    by (bit_vector)
    requires
        reg < 32,
        1 <= t <= 7,
    ensures
        (((reg << 3u8) << t) ^ (feed_bits(0, ((reg << 3u8) ^ b) >> ((8usize - t) as usize), 8) << 3u8))
            >> 3usize == feed_bits(reg, b, t as u8),
{
}

/// Feeding one more leading bit of `b` is one more step of the register.
proof fn lemma_feed_next(reg: u8, b: u8, i: u8)
    by (bit_vector)
    requires
        i < 8,
    ensures
        feed_bits(reg, b, (i + 1) as u8) == crc5_step(feed_bits(reg, b, i), (b >> ((7 - i) as u8))
            & 1u8),
        feed_bits(reg, b, 0) == reg,
{
}

proof fn lemma_step_small(reg: u8, bit: u8)
    by (bit_vector)
    ensures
        crc5_step(reg, bit) < 32,
{
}

proof fn lemma_crc5_small(bytes: Seq<u8>, n: nat)
    ensures
        crc5_bits(bytes, n) < 32,
    decreases n,
{
    if n > 0 {
        lemma_step_small(crc5_bits(bytes, (n - 1) as nat), stream_bit(bytes, n - 1));
    }
}

/// Within byte `k`, the bitwise register after `i` more bits is the
/// register at the byte's start fed the `i` leading bits of the byte.
proof fn lemma_crc5_in_byte(bytes: Seq<u8>, k: nat, i: nat)
    requires
        k < bytes.len(),
        i <= 8,
    ensures
        crc5_bits(bytes, 8 * k + i) == feed_bits(crc5_bits(bytes, 8 * k), bytes[k as int], i as u8),
    decreases i,
{
    let c = crc5_bits(bytes, 8 * k);
    let b = bytes[k as int];
    if i == 0 {
        lemma_feed_next(c, b, 0);
    } else {
        let j = (i - 1) as nat;
        lemma_crc5_in_byte(bytes, k, j);
        lemma_feed_next(c, b, j as u8);
        let n = 8 * k + j;
        assert(n / 8 == k && n % 8 == j) by (nonlinear_arith)
            requires
                n == 8 * k + j,
                j < 8,
        ;
        assert(crc5_bits(bytes, 8 * k + i) == crc5_step(crc5_bits(bytes, n), stream_bit(bytes, n as int)));
    }
}

/// The table-driven register after `k` whole bytes is the bitwise CRC-5
/// register after `8 * k` bits, held in the top five bits.
proof fn lemma_crc_after_bitwise(bytes: Seq<u8>, k: nat)
    requires
        k <= bytes.len(),
    ensures
        crc_after(bytes, k as int) == crc5_bits(bytes, 8 * k) << 3u8,
    decreases k,
{
    if k > 0 {
        let j = (k - 1) as nat;
        lemma_crc_after_bitwise(bytes, j);
        let c = crc5_bits(bytes, 8 * j);
        let b = bytes[j as int];
        lemma_crc5_small(bytes, 8 * j);
        lemma_crc_table((c << 3u8) ^ b);
        lemma_feed_byte(c, b);
        lemma_crc5_in_byte(bytes, j, 8);
        assert(8 * j + 8 == 8 * k);
        assert(crc_after(bytes, k as int) == CRC5_LOOKUP@[((c << 3u8) ^ b) as int]);
    } else {
        assert(0x1Fu8 << 3u8 == 0xF8u8) by (bit_vector);
    }
}

/// The table-driven CRC of the first `bits` bits of `bytes` is the bitwise
/// CRC-5 (polynomial 0x05, initial value 0x1F, most significant bit first)
/// of those bits.
pub proof fn lemma_crc_bitwise(bytes: Seq<u8>, bits: usize)
    requires
        bits <= 8 * bytes.len(),
    ensures
        crc_spec(bytes, bits) == crc5_bits(bytes, bits as nat),
{
    let bc = bits >> 3usize;
    let t = bits & 7usize;
    assert(bc == bits / 8 && t == bits % 8) by (bit_vector)
        requires
            bc == bits >> 3usize,
            t == bits & 7usize,
    ;
    let c = crc5_bits(bytes, 8 * (bc as nat));
    lemma_crc5_small(bytes, 8 * (bc as nat));
    lemma_crc_after_bitwise(bytes, bc as nat);
    let crc = crc_after(bytes, bc as int);
    assert(crc == c << 3u8);
    if t != 0 && bc < bytes.len() {
        let b = bytes[bc as int];
        lemma_feed_partial(c, b, t);
        lemma_crc_table(((crc ^ b) >> (8usize - t)) as u8);
        lemma_crc5_in_byte(bytes, bc as nat, t as nat);
        assert(8 * (bc as nat) + t as nat == bits as nat);
    } else {
        assert(t == 0);
        assert((c << 3u8) >> 3usize == c) by (bit_vector)
            requires
                c < 32,
        ;
        assert(8 * (bc as nat) == bits as nat);
    }
}

/// Byte `j` (`j < 4`, little-endian order) of `key`.
pub open spec fn key_byte(key: u32, j: int) -> u8 {
    if j == 0 {
        (key % 0x100) as u8
    } else if j == 1 {
        ((key / 0x100) % 0x100) as u8
    } else if j == 2 {
        ((key / 0x1_0000) % 0x100) as u8
    } else {
        (key / 0x100_0000) as u8
    }
}

/// XOR deciphering: every byte of each whole 4-byte word is XORed with the
/// matching little-endian byte of `key`; a trailing partial word is kept.
pub open spec fn xor_decode_spec(data: Seq<u8>, key: u32) -> Seq<u8> {
    Seq::new(
        data.len(),
        |i: int|
            if i < 4 * (data.len() / 4) {
                data[i] ^ key_byte(key, i % 4)
            } else {
                data[i]
            },
    )
}

/// XOR deciphering undoes itself: deciphering twice with one key gives
/// back the bytes, so the same operation also enciphers.
pub proof fn lemma_xor_involution(data: Seq<u8>, key: u32)
    ensures
        xor_decode_spec(xor_decode_spec(data, key), key) == data,
{
    let once = xor_decode_spec(data, key);
    let twice = xor_decode_spec(once, key);
    assert forall|i: int| 0 <= i < data.len() implies twice[i] == data[i] by {
        if i < 4 * (data.len() / 4) {
            let b = data[i];
            let k = key_byte(key, i % 4);
            assert((b ^ k) ^ k == b) by (bit_vector);
        }
    }
    assert(twice =~= data);
}

/// Byte-wise XOR with the key's little-endian bytes is word-wise XOR with
/// the key: every whole 4-byte word of the deciphered bytes, read
/// little-endian, is the original word XOR `key`; a trailing partial word
/// is kept as it was.
pub proof fn lemma_xor_words(data: Seq<u8>, key: u32)
    ensures
        xor_decode_spec(data, key).len() == data.len(),
        forall|i: int| 0 <= i < data.len() / 4 ==> #[trigger] le_word(xor_decode_spec(data, key), i)
            == le_word(data, i) ^ key,
        forall|i: int| 4 * (data.len() / 4) <= i < data.len() ==> #[trigger] xor_decode_spec(data, key)[i]
            == data[i],
{
    let x = xor_decode_spec(data, key);
    assert forall|i: int| 0 <= i < data.len() / 4 implies #[trigger] le_word(x, i) == le_word(data, i)
        ^ key by {
        assert(4 * i + 3 < 4 * (data.len() / 4));
        let b0 = data[4 * i];
        let b1 = data[4 * i + 1];
        let b2 = data[4 * i + 2];
        let b3 = data[4 * i + 3];
        assert((4 * i) % 4 == 0 && (4 * i + 1) % 4 == 1 && (4 * i + 2) % 4 == 2 && (4 * i + 3) % 4 == 3);
        let k0 = key_byte(key, 0);
        let k1 = key_byte(key, 1);
        let k2 = key_byte(key, 2);
        let k3 = key_byte(key, 3);
        assert(x[4 * i] == b0 ^ k0 && x[4 * i + 1] == b1 ^ k1 && x[4 * i + 2] == b2 ^ k2 && x[4 * i + 3]
            == b3 ^ k3);
        lemma_word_xor(b0, b1, b2, b3, key);
    }
}

proof fn lemma_word_xor(b0: u8, b1: u8, b2: u8, b3: u8, key: u32)
    ensures
        ((b0 ^ key_byte(key, 0)) as int + 0x100 * ((b1 ^ key_byte(key, 1)) as int) + 0x1_0000 * ((b2
            ^ key_byte(key, 2)) as int) + 0x100_0000 * ((b3 ^ key_byte(key, 3)) as int)) as u32
            == ((b0 as int + 0x100 * (b1 as int) + 0x1_0000 * (b2 as int) + 0x100_0000 * (b3 as int)) as u32)
            ^ key,
{
    let k0 = key_byte(key, 0);
    let k1 = key_byte(key, 1);
    let k2 = key_byte(key, 2);
    let k3 = key_byte(key, 3);
    assert(key % 0x100u32 == key & 0xffu32 && (key / 0x100u32) % 0x100u32 == (key >> 8u32) & 0xffu32
        && (key / 0x1_0000u32) % 0x100u32 == (key >> 16u32) & 0xffu32 && key / 0x100_0000u32 == key
        >> 24u32 && key >> 24u32 < 256) by (bit_vector);
    assert(k0 as u32 == key & 0xffu32 && k1 as u32 == (key >> 8u32) & 0xffu32 && k2 as u32 == (key
        >> 16u32) & 0xffu32 && k3 as u32 == key >> 24u32);
    let (w0, w1, w2, w3) = (b0 as u32, b1 as u32, b2 as u32, b3 as u32);
    let (x0, x1, x2, x3) = ((b0 ^ k0) as u32, (b1 ^ k1) as u32, (b2 ^ k2) as u32, (b3 ^ k3) as u32);
    assert(x0 == w0 ^ (k0 as u32) && x1 == w1 ^ (k1 as u32) && x2 == w2 ^ (k2 as u32) && x3 == w3 ^ (
    k3 as u32)) by (bit_vector)
        requires
            x0 == (b0 ^ k0) as u32,
            x1 == (b1 ^ k1) as u32,
            x2 == (b2 ^ k2) as u32,
            x3 == (b3 ^ k3) as u32,
            w0 == b0 as u32,
            w1 == b1 as u32,
            w2 == b2 as u32,
            w3 == b3 as u32,
    ;
    assert(w0 + w1 * 256 + w2 * 65536 + w3 * 16777216 == (w0 | (w1 << 8u32) | (w2 << 16u32) | (w3
        << 24u32))) by (bit_vector)
        requires
            w0 < 256,
            w1 < 256,
            w2 < 256,
            w3 < 256,
    ;
    assert(x0 + x1 * 256 + x2 * 65536 + x3 * 16777216 == (x0 | (x1 << 8u32) | (x2 << 16u32) | (x3
        << 24u32))) by (bit_vector)
        requires
            x0 < 256,
            x1 < 256,
            x2 < 256,
            x3 < 256,
    ;
    assert((x0 | (x1 << 8u32) | (x2 << 16u32) | (x3 << 24u32)) == (w0 | (w1 << 8u32) | (w2 << 16u32)
        | (w3 << 24u32)) ^ key) by (bit_vector)
        requires
            w0 < 256,
            w1 < 256,
            w2 < 256,
            w3 < 256,
            x0 == w0 ^ (key & 0xffu32),
            x1 == w1 ^ ((key >> 8u32) & 0xffu32),
            x2 == w2 ^ ((key >> 16u32) & 0xffu32),
            x3 == w3 ^ (key >> 24u32),
    ;
}

pub fn xor_decode(data: &[u8], key: u32) -> (out: Vec<u8>)
    ensures
        out@ == xor_decode_spec(data@, key),
{
    let kb: [u8; 4] = [
        (key % 0x100) as u8,
        ((key / 0x100) % 0x100) as u8,
        ((key / 0x1_0000) % 0x100) as u8,
        (key / 0x100_0000) as u8,
    ];
    let whole = data.len() / 4 * 4;
    let mut out: Vec<u8> = Vec::new();
    let mut i: usize = 0;
    while i < data.len()
        invariant
            i <= data@.len(),
            whole == 4 * (data@.len() / 4),
            forall|j: int| 0 <= j < 4 ==> #[trigger] kb@[j] == key_byte(key, j),
            out@ == xor_decode_spec(data@, key).take(i as int),
        decreases data@.len() - i,
    {
        let b = if i < whole {
            data[i] ^ kb[i % 4]
        } else {
            data[i]
        };
        out.push(b);
        i = i + 1;
        proof {
            assert(out@ =~= xor_decode_spec(data@, key).take(i as int));
        }
    }
    proof {
        assert(out@ =~= xor_decode_spec(data@, key));
    }
    out
}

} // verus!

verus! {

/// The little-endian 32-bit word at word index `i` of `b`.
pub open spec fn le_word(b: Seq<u8>, i: int) -> u32 {
    (b[4 * i] as int + 0x100 * (b[4 * i + 1] as int) + 0x1_0000 * (b[4 * i + 2] as int)
        + 0x100_0000 * (b[4 * i + 3] as int)) as u32
}

/// The first `n` little-endian words of `b`.
pub open spec fn le_words(b: Seq<u8>, n: int) -> Seq<u32> {
    Seq::new(n as nat, |i: int| le_word(b, i))
}

/// The four little-endian bytes of `w`.
pub open spec fn word_bytes(w: u32) -> Seq<u8> {
    seq![
        (w % 0x100) as u8,
        ((w / 0x100) % 0x100) as u8,
        ((w / 0x1_0000) % 0x100) as u8,
        (w / 0x100_0000) as u8,
    ]
}

/// The little-endian bytes of a word sequence.
pub open spec fn bytes_of_words(ws: Seq<u32>) -> Seq<u8>
    decreases ws.len(),
{
    if ws.len() == 0 {
        Seq::empty()
    } else {
        bytes_of_words(ws.drop_last()) + word_bytes(ws.last())
    }
}

/// The XXTEA mixing function.
pub open spec fn mx_spec(sum: u32, y: u32, z: u32, p: u32, e: u32, key: Seq<u32>) -> u32 {
    (((z >> 5u32) ^ (y << 2u32)).wrapping_add((y >> 3u32) ^ (z << 4u32))) ^ ((sum ^ y).wrapping_add(
        key[((p & 3u32) ^ e) as int] ^ z,
    ))
}

/// One deciphering pass over words `p` down to 1: each word is reduced by
/// the mix of its left neighbour and the word deciphered just before it.
pub open spec fn pass_spec(v: Seq<u32>, y: u32, sum: u32, e: u32, key: Seq<u32>, p: int) -> (Seq<u32>, u32)
    decreases p,
{
    if p < 1 {
        (v, y)
    } else {
        let ny = v[p].wrapping_sub(mx_spec(sum, y, v[p - 1], p as u32, e, key));
        pass_spec(v.update(p, ny), ny, sum, e, key, p - 1)
    }
}

/// One XXTEA deciphering round at round constant `sum`.
pub open spec fn round_spec(v: Seq<u32>, y: u32, sum: u32, key: Seq<u32>) -> (Seq<u32>, u32) {
    let e = (sum >> 2u32) & 3u32;
    let n = v.len() as int;
    let (v1, y1) = pass_spec(v, y, sum, e, key, n - 1);
    let y2 = v1[0].wrapping_sub(mx_spec(sum, y1, v1[n - 1], 0, e, key));
    (v1.update(0, y2), y2)
}

/// `r` deciphering rounds, the round constant stepping down by `DELTA`.
pub open spec fn rounds_spec(v: Seq<u32>, y: u32, sum: u32, key: Seq<u32>, r: nat) -> Seq<u32>
    decreases r,
{
    if r == 0 {
        v
    } else {
        let (v1, y1) = round_spec(v, y, sum, key);
        rounds_spec(v1, y1, sum.wrapping_sub(DELTA), key, (r - 1) as nat)
    }
}

/// XXTEA deciphering of the whole words of `data` with the 16-byte key
/// `key`; regions of fewer than two words, and a trailing partial word,
/// are left as they are.
pub open spec fn xxtea_decode_spec(data: Seq<u8>, key: Seq<u8>) -> Seq<u8> {
    let n = data.len() / 4;
    if n < 2 {
        data
    } else {
        let rounds: nat = 6nat + 52nat / n;
        let v = le_words(data, n as int);
        bytes_of_words(
            rounds_spec(v, v[0], (rounds as u32).wrapping_mul(DELTA), le_words(key, 4), rounds),
        ) + data.skip(4 * n as int)
    }
}

fn le_u32(b: &[u8], i: usize) -> (w: u32)
    requires
        4 * i + 3 < b@.len(),
    ensures
        w == le_word(b@, i as int),
{
    let len = b.len();
    let j = 4 * i;
    b[j] as u32 + 0x100 * (b[j + 1] as u32) + 0x1_0000 * (b[j + 2] as u32) + 0x100_0000 * (
    b[j + 3] as u32)
}

fn mx(sum: u32, y: u32, z: u32, p: u32, e: u32, key: &[u32; 4]) -> (r: u32)
    requires
        e < 4,
    ensures
        r == mx_spec(sum, y, z, p, e, key@),
{
    let idx = (p & 3) ^ e;
    assert(idx < 4) by (bit_vector)
        requires
            idx == (p & 3u32) ^ e,
            e < 4,
    ;
    ((z >> 5 ^ y << 2).wrapping_add(y >> 3 ^ z << 4)) ^ ((sum ^ y).wrapping_add(key[idx as usize] ^ z))
}

/// Multiples of `DELTA` vanish modulo 2^32 only at zero, for the round
/// counts used here.
proof fn lemma_round_constant(r: int)
    requires
        0 <= r <= 32,
    ensures
        (r * DELTA as int) % 0x1_0000_0000 == 0 <==> r == 0,
        r > 0 ==> ((((r * DELTA as int) % 0x1_0000_0000) as u32).wrapping_sub(DELTA)) as int == ((
        (r - 1) * DELTA as int) % 0x1_0000_0000),
{
}

/// The first `n` little-endian words of `data`.
fn read_words(data: &[u8], n: usize) -> (v: Vec<u32>)
    requires
        4 * n <= data@.len(),
    ensures
        v@ == le_words(data@, n as int),
{
    let mut v: Vec<u32> = Vec::new();
    let mut i: usize = 0;
    while i < n
        invariant
            i <= n,
            4 * n <= data@.len(),
            v@ == le_words(data@, n as int).take(i as int),
        decreases n - i,
    {
        v.push(le_u32(data, i));
        i = i + 1;
        proof {
            assert(v@ =~= le_words(data@, n as int).take(i as int));
        }
    }
    proof {
        assert(v@ =~= le_words(data@, n as int));
    }
    v
}

/// One deciphering round over `v` (at least two words).
fn xxtea_round(v: &mut Vec<u32>, y: u32, sum: u32, k: &[u32; 4]) -> (y_out: u32)
    requires
        old(v)@.len() >= 2,
    ensures
        (final(v)@, y_out) == round_spec(old(v)@, y, sum, k@),
        final(v)@.len() == old(v)@.len(),
{
    let n = v.len();
    let e = (sum >> 2) & 3;
    assert(e < 4) by (bit_vector)
        requires
            e == (sum >> 2u32) & 3u32,
    ;
    let ghost v0 = v@;
    let mut y = y;
    let ghost y0 = y;
    let mut p = n - 1;
    while p >= 1
        invariant
            2 <= n,
            p < n,
            v@.len() == n,
            v0.len() == n,
            e == (sum >> 2u32) & 3u32,
            e < 4,
            pass_spec(v0, y0, sum, e, k@, n - 1) == pass_spec(v@, y, sum, e, k@, p as int),
        decreases p,
    {
        let z = v[p - 1];
        y = v[p].wrapping_sub(mx(sum, y, z, #[verifier::truncate] (p as u32), e, k));
        v.set(p, y);
        p = p - 1;
    }
    let z = v[n - 1];
    y = v[0].wrapping_sub(mx(sum, y, z, 0, e, k));
    v.set(0, y);
    y
}

/// The little-endian bytes of the words of `v`.
fn write_words(v: &Vec<u32>) -> (out: Vec<u8>)
    ensures
        out@ == bytes_of_words(v@),
{
    let mut out: Vec<u8> = Vec::new();
    let mut i: usize = 0;
    while i < v.len()
        invariant
            i <= v@.len(),
            out@ == bytes_of_words(v@.take(i as int)),
        decreases v@.len() - i,
    {
        let w = v[i];
        out.push((w % 0x100) as u8);
        out.push(((w / 0x100) % 0x100) as u8);
        out.push(((w / 0x1_0000) % 0x100) as u8);
        out.push((w / 0x100_0000) as u8);
        proof {
            assert(v@.take(i + 1).drop_last() =~= v@.take(i as int));
            assert(out@ =~= bytes_of_words(v@.take(i + 1)));
        }
        i = i + 1;
    }
    proof {
        assert(v@.take(i as int) =~= v@);
    }
    out
}

fn xxtea_decode(data: &[u8], key_bytes: &[u8; 16]) -> (out: Vec<u8>)
    ensures
        out@ == xxtea_decode_spec(data@, key_bytes@),
{
    let n = data.len() / 4;
    if n < 2 {
        return copy_range(data, 0, data.len());
    }
    let mut v = read_words(data, n);
    let k: [u32; 4] = [
        le_u32(key_bytes, 0),
        le_u32(key_bytes, 1),
        le_u32(key_bytes, 2),
        le_u32(key_bytes, 3),
    ];
    assert(k@ =~= le_words(key_bytes@, 4));
    let q = 52 / n;
    assert(q <= 26) by (nonlinear_arith)
        requires
            q == 52usize / n,
            n >= 2,
    ;
    let rounds: u32 = 6 + q as u32;
    let mut sum = rounds.wrapping_mul(DELTA);
    let mut y = v[0];
    let ghost target = rounds_spec(v@, y, sum, k@, rounds as nat);
    let ghost r: int = rounds as int;
    while sum != 0
        invariant
            v@.len() == n,
            n >= 2,
            0 <= r <= 32,
            sum as int == (r * DELTA as int) % 0x1_0000_0000,
            rounds_spec(v@, y, sum, k@, r as nat) == target,
        decreases r,
    {
        proof {
            lemma_round_constant(r);
        }
        y = xxtea_round(&mut v, y, sum, &k);
        sum = sum.wrapping_sub(DELTA);
        proof {
            r = r - 1;
        }
    }
    proof {
        lemma_round_constant(r);
    }
    let mut out = write_words(&v);
    let mut j: usize = 4 * n;
    while j < data.len()
        invariant
            4 * n <= j <= data@.len(),
            n == data@.len() / 4,
            out@ == bytes_of_words(v@) + data@.subrange(4 * n as int, j as int),
        decreases data@.len() - j,
    {
        out.push(data[j]);
        j = j + 1;
        proof {
            assert(out@ =~= bytes_of_words(v@) + data@.subrange(4 * n as int, j as int));
        }
    }
    proof {
        assert(data@.subrange(4 * n as int, j as int) =~= data@.skip(4 * n as int));
    }
    out
}

/// Deciphering leaves the length of a region unchanged.
proof fn lemma_pass_len(v: Seq<u32>, y: u32, sum: u32, e: u32, key: Seq<u32>, p: int)
    requires
        p < v.len(),
    ensures
        pass_spec(v, y, sum, e, key, p).0.len() == v.len(),
    decreases p,
{
    if p >= 1 {
        let ny = v[p].wrapping_sub(mx_spec(sum, y, v[p - 1], p as u32, e, key));
        lemma_pass_len(v.update(p, ny), ny, sum, e, key, p - 1);
    }
}

proof fn lemma_rounds_len(v: Seq<u32>, y: u32, sum: u32, key: Seq<u32>, r: nat)
    requires
        v.len() >= 2,
    ensures
        rounds_spec(v, y, sum, key, r).len() == v.len(),
    decreases r,
{
    if r > 0 {
        let e = (sum >> 2u32) & 3u32;
        lemma_pass_len(v, y, sum, e, key, v.len() - 1);
        let (v1, y1) = round_spec(v, y, sum, key);
        lemma_rounds_len(v1, y1, sum.wrapping_sub(DELTA), key, (r - 1) as nat);
    }
}

proof fn lemma_bytes_of_words_len(ws: Seq<u32>)
    ensures
        bytes_of_words(ws).len() == 4 * ws.len(),
    decreases ws.len(),
{
    if ws.len() > 0 {
        lemma_bytes_of_words_len(ws.drop_last());
    }
}

/// The layout version named by the first EEPROM byte.
pub open spec fn version_of(b: u8) -> Option<AntminerEepromVersion> {
    if b == 4 {
        Some(AntminerEepromVersion::V4)
    } else if b == 5 {
        Some(AntminerEepromVersion::V5)
    } else if b == 6 {
        Some(AntminerEepromVersion::V6)
    } else {
        None
    }
}

/// The cipher named by the high nibble of the second EEPROM byte.
pub open spec fn algorithm_of(raw: u8) -> AntminerEepromAlgorithm {
    if raw == 1 {
        AntminerEepromAlgorithm::Xxtea
    } else if raw == 2 {
        AntminerEepromAlgorithm::Xor
    } else {
        AntminerEepromAlgorithm::Unknown(raw)
    }
}

/// A region deciphered with the given cipher and key index.
pub open spec fn region_spec(algorithm: AntminerEepromAlgorithm, key_index: u8, r: Seq<u8>) -> Seq<u8> {
    match algorithm {
        AntminerEepromAlgorithm::Xxtea => xxtea_decode_spec(r, KEY_LARGE@[key_index as int]@),
        AntminerEepromAlgorithm::Xor => xor_decode_spec(r, KEY_SMALL@[key_index as int]),
        AntminerEepromAlgorithm::Unknown(_) => r,
    }
}

/// `d` with the bytes `start..start + size` deciphered in place.
pub open spec fn with_region(
    d: Seq<u8>,
    start: int,
    size: int,
    algorithm: AntminerEepromAlgorithm,
    key_index: u8,
) -> Seq<u8> {
    d.take(start) + region_spec(algorithm, key_index, d.subrange(start, start + size)) + d.skip(
        start + size,
    )
}

/// The deciphered EEPROM image: regions 1 and 2 always, region 3 for
/// layouts 5 and 6.
pub open spec fn eeprom_image(data: Seq<u8>) -> Seq<u8> {
    let algorithm = algorithm_of(data[1] >> 4u8);
    let key_index = data[1] & 0x0Fu8;
    let d1 = with_region(data, 2, 96, algorithm, key_index);
    let d2 = with_region(d1, 98, 16, algorithm, key_index);
    if data[0] == 5 || data[0] == 6 {
        with_region(d2, 114, 136, algorithm, key_index)
    } else {
        d2
    }
}

proof fn lemma_region_len(algorithm: AntminerEepromAlgorithm, key_index: u8, r: Seq<u8>)
    requires
        key_index < 4,
    ensures
        region_spec(algorithm, key_index, r).len() == r.len(),
{
    if let AntminerEepromAlgorithm::Xxtea = algorithm {
        let n = r.len() / 4;
        if n >= 2 {
            let rounds: nat = 6nat + 52nat / n;
            let v = le_words(r, n as int);
            let k = le_words(KEY_LARGE@[key_index as int]@, 4);
            lemma_rounds_len(v, v[0], (rounds as u32).wrapping_mul(DELTA), k, rounds);
            lemma_bytes_of_words_len(rounds_spec(v, v[0], (rounds as u32).wrapping_mul(DELTA), k, rounds));
        }
    }
}

/// Overwrites `d[start..start + new.len()]` with `new`.
fn replace_range(d: &mut Vec<u8>, start: usize, new: &Vec<u8>)
    requires
        start + new@.len() <= old(d)@.len(),
    ensures
        final(d)@ == old(d)@.take(start as int) + new@ + old(d)@.skip(start + new@.len()),
{
    let len = d.len();
    let mut i: usize = 0;
    while i < new.len()
        invariant
            i <= new@.len(),
            d@.len() == len,
            len == old(d)@.len(),
            start + new@.len() <= len,
            d@ == old(d)@.take(start as int) + new@.take(i as int) + old(d)@.skip(start + i),
        decreases new@.len() - i,
    {
        d.set(start + i, new[i]);
        i = i + 1;
        proof {
            assert(d@ =~= old(d)@.take(start as int) + new@.take(i as int) + old(d)@.skip(start + i));
        }
    }
    proof {
        assert(new@.take(i as int) =~= new@);
    }
}

fn decode_region(
    decoded: &mut Vec<u8>,
    start: usize,
    size: usize,
    algorithm: AntminerEepromAlgorithm,
    key_index: u8,
) -> (r: Result<(), String>)
    requires
        start + size <= old(decoded)@.len(),
        key_index < 4,
    ensures
        r is Ok <==> !(algorithm is Unknown),
        r is Ok ==> final(decoded)@ == with_region(
            old(decoded)@,
            start as int,
            size as int,
            algorithm,
            key_index,
        ),
        r matches Err(e) ==> (algorithm matches AntminerEepromAlgorithm::Unknown(v) && e@
            == "unsupported EEPROM algorithm: "@ + decimal_spec(v as nat)),
{
    let len = decoded.len();
    let region = copy_range(decoded.as_slice(), start, start + size);
    let plain = match algorithm {
        AntminerEepromAlgorithm::Xxtea => xxtea_decode(region.as_slice(), &KEY_LARGE[key_index as usize]),
        AntminerEepromAlgorithm::Xor => xor_decode(region.as_slice(), KEY_SMALL[key_index as usize]),
        AntminerEepromAlgorithm::Unknown(value) => {
            let mut e = string_from("unsupported EEPROM algorithm: ");
            push_decimal(&mut e, value as u64);
            return Err(e);
        },
    };
    proof {
        lemma_region_len(algorithm, key_index, region@);
    }
    replace_range(decoded, start, &plain);
    Ok(())
}

/// The fields of a decoded EEPROM.
#[derive(Debug, Clone)]
pub struct DecodedAntminerEeprom {
    pub version: AntminerEepromVersion,
    pub algorithm: AntminerEepromAlgorithm,
    pub key_index: u8,
    pub decoded_bytes: Vec<u8>,
    pub board_serial: String,
    pub chip_die: String,
    pub chip_marking: String,
    pub chip_bin: u8,
    pub ft_version: String,
    pub pcb_version: u16,
    pub bom_version: u16,
    pub asic_sensor_type: u8,
    pub asic_sensor_addr: [u8; 4],
    pub pic_sensor_type: u8,
    pub pic_sensor_addr: u8,
    pub chip_tech: String,
    pub board_name: String,
    pub factory_job: String,
    pub pt1_result: u8,
    pub pt1_count: u8,
    pub pt1_crc_stored: u8,
    pub pt1_crc_calculated: u8,
    pub voltage_cv: u16,
    pub frequency_mhz: u16,
    pub nonce_rate: u16,
    pub pcb_temp_in_c: i8,
    pub pcb_temp_out_c: i8,
    pub test_version: u8,
    pub test_standard: u8,
    pub pt2_result: u8,
    pub pt2_count: u8,
    pub pt2_crc_stored: u8,
    pub pt2_crc_calculated_tool: u8,
    pub pt2_crc_calculated_region: u8,
    pub sweep_hashrate: Option<u16>,
    pub sweep_freq_base: Option<u16>,
    pub sweep_freq_step: Option<u8>,
    pub sweep_result: Option<u8>,
    pub sweep_non_ff: usize,
    pub sweep_prefix: Vec<u8>,
}

/// The identity and test fields read from a deciphered image `img`.
pub open spec fn image_fields_match(d: DecodedAntminerEeprom, img: Seq<u8>) -> bool {
    &&& d.decoded_bytes@ == img
    &&& d.board_serial@ == decode_string_spec(img.subrange(2, 20))
    &&& d.chip_die@ == decode_string_spec(img.subrange(20, 23))
    &&& d.chip_marking@ == decode_string_spec(img.subrange(23, 37))
    &&& d.chip_bin == img[37]
    &&& d.ft_version@ == decode_string_spec(img.subrange(38, 48))
    &&& d.pcb_version == le_u16_spec(img[48], img[49])
    &&& d.bom_version == le_u16_spec(img[50], img[51])
    &&& d.asic_sensor_type == img[52]
    &&& d.asic_sensor_addr@ == img.subrange(53, 57)
    &&& d.pic_sensor_type == img[57]
    &&& d.pic_sensor_addr == img[58]
    &&& d.chip_tech@ == decode_string_spec(img.subrange(59, 62))
    &&& d.board_name@ == decode_string_spec(img.subrange(62, 71))
    &&& d.factory_job@ == decode_string_spec(img.subrange(71, 95))
    &&& d.pt1_result == img[95]
    &&& d.pt1_count == img[96]
    &&& d.pt1_crc_stored == img[97]
    &&& d.pt1_crc_calculated == crc_spec(img.take(97), 776)
    &&& d.voltage_cv == le_u16_spec(img[98], img[99])
    &&& d.frequency_mhz == le_u16_spec(img[100], img[101])
    &&& d.nonce_rate == le_u16_spec(img[102], img[103])
    &&& d.pcb_temp_in_c == img[104] as i8
    &&& d.pcb_temp_out_c == img[105] as i8
    &&& d.test_version == img[106]
    &&& d.test_standard == img[107]
    &&& d.pt2_result == img[108]
    &&& d.pt2_count == img[109]
    &&& d.pt2_crc_stored == img[113]
    &&& d.pt2_crc_calculated_tool == crc_spec(img.take(15), 120)
    &&& d.pt2_crc_calculated_region == crc_spec(img.subrange(98, 113), 120)
    &&& d.sweep_non_ff == count_non_ff_from(img.skip(114), 0)
    &&& d.sweep_prefix@ == img.skip(114).take(first_index_of(img.skip(114), 0xFF))
}

/// The sweep fields, present from layout version 5 on.
pub open spec fn sweep_fields_match(d: DecodedAntminerEeprom, img: Seq<u8>) -> bool {
    if d.version == AntminerEepromVersion::V4 {
        &&& d.sweep_hashrate is None
        &&& d.sweep_freq_base is None
        &&& d.sweep_freq_step is None
        &&& d.sweep_result is None
    } else {
        &&& d.sweep_hashrate == Some(le_u16_spec(img[114], img[115]))
        &&& d.sweep_freq_base == Some(le_u16_spec(img[116], img[117]))
        &&& d.sweep_freq_step == Some(img[118])
        &&& d.sweep_result == Some(img[247])
    }
}

/// What [`decode_antminer_eeprom`] returns for a 256-byte image that it
/// accepts.
pub open spec fn decoded_matches(d: DecodedAntminerEeprom, data: Seq<u8>) -> bool {
    &&& version_of(data[0]) == Some(d.version)
    &&& d.algorithm == algorithm_of(data[1] >> 4u8)
    &&& d.key_index == data[1] & 0x0Fu8
    &&& image_fields_match(d, eeprom_image(data))
    &&& sweep_fields_match(d, eeprom_image(data))
}

/// A decoded image is the dump with each record region deciphered in place
/// by the header's cipher and key: region 1 (bytes 2..98) and region 2
/// (98..114) always, region 3 (114..250) for layouts 5 and 6 only, whose
/// sweep fields are then read from the deciphered region 3. The header and
/// the bytes after region 3 are kept, and so is region 3 of a layout-4 dump.
pub proof fn lemma_decoded_regions(d: DecodedAntminerEeprom, data: Seq<u8>)
    requires
        data.len() == EEPROM_SIZE,
        (data[1] & 0x0Fu8) < 4,
        decoded_matches(d, data),
    ensures
        d.decoded_bytes@.len() == EEPROM_SIZE,
        d.decoded_bytes@.take(2) == data.take(2),
        d.decoded_bytes@.subrange(2, 98) == region_spec(
            d.algorithm,
            d.key_index,
            data.subrange(2, 98),
        ),
        d.decoded_bytes@.subrange(98, 114) == region_spec(
            d.algorithm,
            d.key_index,
            data.subrange(98, 114),
        ),
        data[0] == 5 || data[0] == 6 ==> d.decoded_bytes@.subrange(114, 250) == region_spec(
            d.algorithm,
            d.key_index,
            data.subrange(114, 250),
        ),
        data[0] == 4 ==> d.decoded_bytes@.subrange(114, 250) == data.subrange(114, 250),
        d.decoded_bytes@.skip(250) == data.skip(250),
        data[0] == 5 || data[0] == 6 ==> ({
            let r3 = region_spec(d.algorithm, d.key_index, data.subrange(114, 250));
            &&& d.sweep_hashrate == Some(le_u16_spec(r3[0], r3[1]))
            &&& d.sweep_freq_base == Some(le_u16_spec(r3[2], r3[3]))
            &&& d.sweep_freq_step == Some(r3[4])
            &&& d.sweep_result == Some(r3[133])
        }),
{
    let alg = d.algorithm;
    let k = d.key_index;
    let d1 = with_region(data, 2, 96, alg, k);
    lemma_region_len(alg, k, data.subrange(2, 98));
    assert(d1.subrange(2, 98) =~= region_spec(alg, k, data.subrange(2, 98)));
    assert(d1.subrange(98, 114) =~= data.subrange(98, 114));
    assert(d1.subrange(114, 250) =~= data.subrange(114, 250));
    let d2 = with_region(d1, 98, 16, alg, k);
    lemma_region_len(alg, k, d1.subrange(98, 114));
    assert(d2.take(2) =~= data.take(2));
    assert(d2.subrange(2, 98) =~= d1.subrange(2, 98));
    assert(d2.subrange(98, 114) =~= region_spec(alg, k, data.subrange(98, 114)));
    assert(d2.subrange(114, 250) =~= data.subrange(114, 250));
    assert(d2.skip(250) =~= data.skip(250));
    let img = d.decoded_bytes@;
    if data[0] != 4 {
        let d3 = with_region(d2, 114, 136, alg, k);
        lemma_region_len(alg, k, d2.subrange(114, 250));
        assert(img == d3);
        assert(d3.take(2) =~= data.take(2));
        assert(d3.subrange(2, 98) =~= d2.subrange(2, 98));
        assert(d3.subrange(98, 114) =~= d2.subrange(98, 114));
        assert(d3.subrange(114, 250) =~= region_spec(alg, k, data.subrange(114, 250)));
        assert(d3.skip(250) =~= data.skip(250));
        let r3 = region_spec(alg, k, data.subrange(114, 250));
        assert(img[114] == r3[0] && img[115] == r3[1] && img[116] == r3[2] && img[117] == r3[3]
            && img[118] == r3[4] && img[247] == r3[133]);
    } else {
        assert(img == d2);
    }
}

/// Decodes a 256-byte Antminer hashboard EEPROM image.
///
/// Fails, in this order, on a wrong size, a layout version other than 4, 5
/// or 6, a key index above 3 and a cipher other than XXTEA (1) or XOR (2);
/// otherwise deciphers the regions and reads every field.
pub fn decode_antminer_eeprom(data: &[u8]) -> (r: Result<DecodedAntminerEeprom, String>)
    ensures
        data@.len() != EEPROM_SIZE ==> (r matches Err(e) && e@ == "expected 256 bytes, got "@
            + decimal_spec(data@.len())),
        data@.len() == EEPROM_SIZE && version_of(data@[0]) is None ==> (r matches Err(e) && e@
            == "unsupported Antminer EEPROM version: 0x"@ + hex_byte_spec(data@[0])),
        data@.len() == EEPROM_SIZE && version_of(data@[0]) is Some && (data@[1] & 0x0Fu8) >= 4
            ==> (r matches Err(e) && e@ == "unsupported EEPROM key index: "@ + decimal_spec(
            (data@[1] & 0x0Fu8) as nat,
        )),
        data@.len() == EEPROM_SIZE && version_of(data@[0]) is Some && (data@[1] & 0x0Fu8) < 4
            && algorithm_of(data@[1] >> 4u8) is Unknown ==> (r matches Err(e) && e@
            == "unsupported EEPROM algorithm: "@ + decimal_spec((data@[1] >> 4u8) as nat)),
        r is Ok <==> (data@.len() == EEPROM_SIZE && version_of(data@[0]) is Some && (data@[1]
            & 0x0Fu8) < 4 && !(algorithm_of(data@[1] >> 4u8) is Unknown)),
        r matches Ok(d) ==> decoded_matches(d, data@),
{
    if data.len() != EEPROM_SIZE {
        let mut e = string_from("expected 256 bytes, got ");
        push_decimal(&mut e, data.len() as u64);
        return Err(e);
    }
    let version = match data[0] {
        4 => AntminerEepromVersion::V4,
        5 => AntminerEepromVersion::V5,
        6 => AntminerEepromVersion::V6,
        other => {
            let mut e = string_from("unsupported Antminer EEPROM version: 0x");
            push_hex_byte(&mut e, other);
            return Err(e);
        },
    };
    let algorithm_raw = data[1] >> 4;
    let key_index = data[1] & 0x0F;
    let algorithm = match algorithm_raw {
        1 => AntminerEepromAlgorithm::Xxtea,
        2 => AntminerEepromAlgorithm::Xor,
        other => AntminerEepromAlgorithm::Unknown(other),
    };
    if key_index as usize >= KEY_LARGE.len() {
        let mut e = string_from("unsupported EEPROM key index: ");
        push_decimal(&mut e, key_index as u64);
        return Err(e);
    }
    let mut decoded = copy_range(data, 0, data.len());
    let ghost d0 = decoded@;
    decode_region(&mut decoded, REGION1_START, REGION1_SIZE, algorithm, key_index)?;
    proof {
        lemma_region_len(algorithm, key_index, d0.subrange(2, 98));
    }
    let ghost d1 = decoded@;
    decode_region(&mut decoded, REGION2_START, REGION2_SIZE, algorithm, key_index)?;
    proof {
        lemma_region_len(algorithm, key_index, d1.subrange(98, 114));
    }
    let ghost d2 = decoded@;
    if version == AntminerEepromVersion::V5 || version == AntminerEepromVersion::V6 {
        decode_region(&mut decoded, REGION3_START, REGION3_SIZE, algorithm, key_index)?;
        proof {
            lemma_region_len(algorithm, key_index, d2.subrange(114, 250));
        }
    }
    proof {
        assert(d0 =~= data@);
        assert(decoded@ == eeprom_image(data@));
        assert(decoded@.len() == 256);
    }
    decode_fields(version, algorithm, key_index, decoded)
}

/// Reads every field from a deciphered 256-byte image.
fn decode_fields(
    version: AntminerEepromVersion,
    algorithm: AntminerEepromAlgorithm,
    key_index: u8,
    decoded: Vec<u8>,
) -> (r: Result<DecodedAntminerEeprom, String>)
    requires
        decoded@.len() == 256,
    ensures
        r matches Ok(d) && d.version == version && d.algorithm == algorithm && d.key_index
            == key_index && image_fields_match(d, decoded@) && sweep_fields_match(d, decoded@),
{
    let board_serial = decode_string(copy_range(decoded.as_slice(), 2, 20).as_slice());
    let chip_die = decode_string(copy_range(decoded.as_slice(), 20, 23).as_slice());
    let chip_marking = decode_string(copy_range(decoded.as_slice(), 23, 37).as_slice());
    let chip_bin = decoded[37];
    let ft_version = decode_string(copy_range(decoded.as_slice(), 38, 48).as_slice());
    let pcb_version = le_u16(decoded[48], decoded[49]);
    let bom_version = le_u16(decoded[50], decoded[51]);
    let asic_sensor_type = decoded[52];
    let asic_sensor_addr = [decoded[53], decoded[54], decoded[55], decoded[56]];
    let pic_sensor_type = decoded[57];
    let pic_sensor_addr = decoded[58];
    let chip_tech = decode_string(copy_range(decoded.as_slice(), 59, 62).as_slice());
    let board_name = decode_string(copy_range(decoded.as_slice(), 62, 71).as_slice());
    let factory_job = decode_string(copy_range(decoded.as_slice(), 71, 95).as_slice());
    let pt1_result = decoded[95];
    let pt1_count = decoded[96];
    let pt1_crc_stored = decoded[97];
    assert(776usize >> 3usize == 97usize) by (bit_vector);
    assert(120usize >> 3usize == 15usize) by (bit_vector);
    let pt1_crc_calculated = calculate_crc(
        copy_range(decoded.as_slice(), 0, REGION1_CRC_POS).as_slice(),
        REGION1_CRC_BITS,
    );
    let voltage_cv = le_u16(decoded[98], decoded[99]);
    let frequency_mhz = le_u16(decoded[100], decoded[101]);
    let nonce_rate = le_u16(decoded[102], decoded[103]);
    let pcb_temp_in_c = #[verifier::truncate] (decoded[104] as i8);
    let pcb_temp_out_c = #[verifier::truncate] (decoded[105] as i8);
    let test_version = decoded[106];
    let test_standard = decoded[107];
    let pt2_result = decoded[108];
    let pt2_count = decoded[109];
    let pt2_crc_stored = decoded[113];
    let pt2_crc_calculated_tool = calculate_crc(copy_range(decoded.as_slice(), 0, 15).as_slice(), 120);
    let pt2_crc_calculated_region = calculate_crc(
        copy_range(decoded.as_slice(), REGION2_START, REGION2_CRC_POS).as_slice(),
        120,
    );
    let (sweep_hashrate, sweep_freq_base, sweep_freq_step, sweep_result) = match version {
        AntminerEepromVersion::V4 => (None, None, None, None),
        _ => (
            Some(le_u16(decoded[114], decoded[115])),
            Some(le_u16(decoded[116], decoded[117])),
            Some(decoded[118]),
            Some(decoded[247]),
        ),
    };
    let sweep_slice = copy_range(decoded.as_slice(), REGION3_START, decoded.len());
    let sweep_non_ff = count_non_ff(sweep_slice.as_slice());
    let sweep_prefix_len = find_byte(sweep_slice.as_slice(), 0xFF);
    let sweep_prefix = copy_range(sweep_slice.as_slice(), 0, sweep_prefix_len);
    proof {
        assert(sweep_slice@ =~= decoded@.skip(114));
        assert(sweep_prefix@ =~= decoded@.skip(114).take(sweep_prefix_len as int));
        assert(asic_sensor_addr@ =~= decoded@.subrange(53, 57));
    }
    Ok(
        DecodedAntminerEeprom {
            version,
            algorithm,
            key_index,
            decoded_bytes: decoded,
            board_serial,
            chip_die,
            chip_marking,
            chip_bin,
            ft_version,
            pcb_version,
            bom_version,
            asic_sensor_type,
            asic_sensor_addr,
            pic_sensor_type,
            pic_sensor_addr,
            chip_tech,
            board_name,
            factory_job,
            pt1_result,
            pt1_count,
            pt1_crc_stored,
            pt1_crc_calculated,
            voltage_cv,
            frequency_mhz,
            nonce_rate,
            pcb_temp_in_c,
            pcb_temp_out_c,
            test_version,
            test_standard,
            pt2_result,
            pt2_count,
            pt2_crc_stored,
            pt2_crc_calculated_tool,
            pt2_crc_calculated_region,
            sweep_hashrate,
            sweep_freq_base,
            sweep_freq_step,
            sweep_result,
            sweep_non_ff,
            sweep_prefix,
        },
    )
}

} // verus!
