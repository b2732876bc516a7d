//! APW12 power-supply frame codec and temperature decoding.
//!
//! A frame is `[0x55, 0xAA, length, command, payload..., cs_lo, cs_hi]`,
//! where `length` counts the bytes from `length` through the checksum's low
//! byte and the checksum is `length + command + sum(payload)`.

use vstd::prelude::*;

use crate::bytes::copy_range;
use crate::text::{
    decimal_spec, format_hex_list, hex_byte_spec, hex_list_spec, push_decimal, push_hex_byte,
    string_from,
};

verus! {

pub const PREAMBLE_LSB: u8 = 0x55;
pub const PREAMBLE_MSB: u8 = 0xAA;
pub const NAK_BYTE: u8 = 0xF5;
pub const DEFAULT_PSU_ADDRESS: u16 = 0x10;
pub const DEFAULT_PSU_WRITE_REGISTER: u8 = 0x11;

pub const CMD_GET_FW_VERSION: u8 = 0x01;
pub const CMD_GET_HW_VERSION: u8 = 0x02;
pub const CMD_GET_VOLTAGE: u8 = 0x03;
pub const CMD_MEASURE_VOLTAGE: u8 = 0x04;
pub const CMD_READ_STATE: u8 = 0x05;
pub const CMD_READ_CAL: u8 = 0x06;
/// Read the PSU's internal temperature sensor. Responds with a 2-byte
/// little-endian raw NTC/ADC code; decode with [`decode_temperature_c`].
pub const CMD_READ_TEMPERATURE: u8 = 0x09;
pub const CMD_WATCHDOG: u8 = 0x81;
pub const CMD_SET_VOLTAGE: u8 = 0x83;
pub const CMD_WRITE_CAL: u8 = 0x86;

/// Why a received byte sequence is not an acceptable frame.
#[derive(Debug)]
pub enum ProtocolError {
    EmptyResponse,
    Nak,
    InvalidPreamble(Vec<u8>),
    InvalidLength { declared: usize, actual: usize },
    InvalidChecksum { expected: u8, actual: u8 },
}

/// A frame accepted by [`parse_frame`].
#[derive(Debug, Clone)]
pub struct Frame {
    pub command: u8,
    pub payload: Vec<u8>,
    pub raw: Vec<u8>,
}

/// Sum of the bytes of `s`.
pub open spec fn sum_bytes(s: Seq<u8>) -> nat
    decreases s.len(),
{
    if s.len() == 0 {
        0
    } else {
        sum_bytes(s.drop_last()) + s.last() as nat
    }
}

/// The frame checksum: `length + command + sum(payload)`.
pub open spec fn checksum_spec(length: u8, command: u8, payload: Seq<u8>) -> int {
    length as int + command as int + sum_bytes(payload) as int
}

/// A prefix never sums to more than the whole sequence.
pub proof fn lemma_sum_bytes_prefix(s: Seq<u8>, i: int)
    requires
        0 <= i <= s.len(),
    ensures
        sum_bytes(s.take(i)) <= sum_bytes(s),
    decreases s.len(),
{
    if i < s.len() {
        assert(s.drop_last().take(i) =~= s.take(i));
        lemma_sum_bytes_prefix(s.drop_last(), i);
    } else {
        assert(s.take(i) =~= s);
    }
}

/// Each byte adds at most 255 to the sum.
pub proof fn lemma_sum_bytes_bound(s: Seq<u8>)
    ensures
        sum_bytes(s) <= 255 * s.len(),
    decreases s.len(),
{
    if s.len() > 0 {
        lemma_sum_bytes_bound(s.drop_last());
    }
}

/// Computes the frame checksum `length + command + sum(payload)`.
pub fn checksum(length: u8, command: u8, payload: &[u8]) -> (sum: u16)
    requires
        checksum_spec(length, command, payload@) <= u16::MAX,
    ensures
        sum as int == checksum_spec(length, command, payload@),
{
    let mut sum: u16 = length as u16 + command as u16;
    let mut i: usize = 0;
    while i < payload.len()
        invariant
            i <= payload@.len(),
            checksum_spec(length, command, payload@) <= u16::MAX,
            sum as int == length as int + command as int + sum_bytes(payload@.take(i as int)),
        decreases payload@.len() - i,
    {
        proof {
            assert(payload@.take(i + 1).drop_last() =~= payload@.take(i as int));
            lemma_sum_bytes_prefix(payload@, i + 1);
        }
        sum = sum + payload[i] as u16;
        i = i + 1;
    }
    proof {
        assert(payload@.take(i as int) =~= payload@);
    }
    sum
}

/// The length byte of a frame carrying `payload_len` payload bytes.
pub open spec fn frame_length_byte(payload_len: nat) -> u8 {
    ((payload_len + 4) % 256) as u8
}

/// The bytes of the frame that [`build_frame`] produces.
pub open spec fn build_frame_spec(command: u8, payload: Seq<u8>) -> Seq<u8> {
    let length = frame_length_byte(payload.len());
    let cs = checksum_spec(length, command, payload);
    seq![PREAMBLE_LSB, PREAMBLE_MSB, length, command] + payload + seq![
        (cs % 256) as u8,
        (cs / 256) as u8,
    ]
}

/// Builds `[0x55, 0xAA, length, command, payload..., cs_lo, cs_hi]`.
/// The checksum must fit in 16 bits (any payload of at most 255 bytes does).
pub fn build_frame(command: u8, payload: &[u8]) -> (frame: Vec<u8>)
    requires
        checksum_spec(frame_length_byte(payload@.len()), command, payload@) <= u16::MAX,
    ensures
        frame@ == build_frame_spec(command, payload@),
{
    let length = ((payload.len() % 256 + 4) % 256) as u8;
    let checksum = checksum(length, command, payload);
    let mut frame: Vec<u8> = Vec::new();
    frame.push(PREAMBLE_LSB);
    frame.push(PREAMBLE_MSB);
    frame.push(length);
    frame.push(command);
    let mut i: usize = 0;
    while i < payload.len()
        invariant
            i <= payload@.len(),
            frame@ == seq![PREAMBLE_LSB, PREAMBLE_MSB, length, command] + payload@.take(i as int),
        decreases payload@.len() - i,
    {
        frame.push(payload[i]);
        i = i + 1;
        proof {
            assert(payload@.take(i as int) =~= payload@.take(i - 1).push(payload@[i - 1]));
        }
    }
    frame.push((checksum % 256) as u8);
    frame.push((checksum / 256) as u8);
    proof {
        assert(payload@.take(i as int) =~= payload@);
        assert(frame@ =~= build_frame_spec(command, payload@));
    }
    frame
}

/// The checksum byte that a frame `raw` (of at least six bytes) must carry
/// just before its last byte.
pub open spec fn expected_checksum_byte(raw: Seq<u8>) -> u8 {
    (checksum_spec(raw[2], raw[3], raw.subrange(4, raw.len() - 2)) % 256) as u8
}

/// `raw` has the preamble, a length byte that matches its size, and a
/// matching checksum low byte (the high byte is not checked).
pub open spec fn frame_accepted(raw: Seq<u8>) -> bool {
    &&& raw.len() >= 6
    &&& raw[0] == PREAMBLE_LSB
    &&& raw[1] == PREAMBLE_MSB
    &&& raw[2] as int == raw.len() - 2
    &&& raw[raw.len() - 2] == expected_checksum_byte(raw)
}

/// Parses a received frame, checking, in this order: emptiness, a lone NAK
/// byte, a minimum of six bytes, the preamble, the length byte and the
/// checksum's low byte.
pub fn parse_frame(raw: &[u8]) -> (r: Result<Frame, ProtocolError>)
    ensures
        raw@.len() == 0 ==> r matches Err(ProtocolError::EmptyResponse),
        raw@ == seq![NAK_BYTE] ==> r matches Err(ProtocolError::Nak),
        (1 <= raw@.len() < 6 && raw@ != seq![NAK_BYTE]) ==> (r matches Err(
            ProtocolError::InvalidLength { declared, actual },
        ) && declared == (if raw@.len() > 2 {
            raw@[2] as usize
        } else {
            0usize
        }) && actual == raw@.len()),
        (raw@.len() >= 6 && (raw@[0] != PREAMBLE_LSB || raw@[1] != PREAMBLE_MSB)) ==> (r matches Err(
            ProtocolError::InvalidPreamble(bytes),
        ) && bytes@ == raw@.take(2)),
        (raw@.len() >= 6 && raw@[0] == PREAMBLE_LSB && raw@[1] == PREAMBLE_MSB && raw@[2] as int
            != raw@.len() - 2) ==> (r matches Err(ProtocolError::InvalidLength { declared, actual })
            && declared == raw@[2] as usize && actual == raw@.len() - 2),
        (raw@.len() >= 6 && raw@[0] == PREAMBLE_LSB && raw@[1] == PREAMBLE_MSB && raw@[2] as int
            == raw@.len() - 2 && raw@[raw@.len() - 2] != expected_checksum_byte(raw@)) ==> (r matches Err(
            ProtocolError::InvalidChecksum { expected, actual },
        ) && expected == expected_checksum_byte(raw@) && actual == raw@[raw@.len() - 2]),
        r is Ok <==> frame_accepted(raw@),
        r matches Ok(f) ==> f.command == raw@[3] && f.payload@ == raw@.subrange(
            4,
            raw@.len() - 2,
        ) && f.raw@ == raw@,
{
    if raw.len() == 0 {
        return Err(ProtocolError::EmptyResponse);
    }
    if raw.len() == 1 && raw[0] == NAK_BYTE {
        proof {
            assert(raw@ =~= seq![NAK_BYTE]);
        }
        return Err(ProtocolError::Nak);
    }
    if raw.len() < 6 {
        proof {
            if raw@.len() == 1 {
                assert(raw@ != seq![NAK_BYTE]) by {
                    assert(seq![NAK_BYTE][0] == NAK_BYTE);
                }
            }
        }
        let declared: usize = if raw.len() > 2 {
            raw[2] as usize
        } else {
            0
        };
        return Err(ProtocolError::InvalidLength { declared, actual: raw.len() });
    }
    proof {
        assert(raw@.len() != seq![NAK_BYTE].len());
    }
    if raw[0] != PREAMBLE_LSB || raw[1] != PREAMBLE_MSB {
        return Err(ProtocolError::InvalidPreamble(copy_range(raw, 0, 2)));
    }
    let declared_len = raw[2] as usize;
    let actual_len_from_length = raw.len() - 2;
    if declared_len != actual_len_from_length {
        return Err(
            ProtocolError::InvalidLength {
                declared: declared_len,
                actual: actual_len_from_length,
            },
        );
    }
    let command = raw[3];
    let checksum_index = raw.len() - 2;
    let payload = copy_range(raw, 4, checksum_index);
    let actual_checksum = raw[checksum_index];
    proof {
        lemma_sum_bytes_bound(payload@);
    }
    let expected_checksum = (checksum(raw[2], command, payload.as_slice()) % 256) as u8;
    if actual_checksum != expected_checksum {
        return Err(
            ProtocolError::InvalidChecksum { expected: expected_checksum, actual: actual_checksum },
        );
    }
    Ok(Frame { command, payload, raw: copy_range(raw, 0, raw.len()) })
}

/// The message shown for each protocol error.
pub open spec fn protocol_error_text(e: ProtocolError) -> Seq<char> {
    match e {
        ProtocolError::EmptyResponse => "empty response"@,
        ProtocolError::Nak => "PSU returned NAK (0xF5)"@,
        ProtocolError::InvalidPreamble(bytes) => "invalid preamble: "@ + hex_list_spec(bytes@, true),
        ProtocolError::InvalidLength { declared, actual } => "invalid frame length: declared "@
            + decimal_spec(declared as nat) + ", actual "@ + decimal_spec(actual as nat),
        ProtocolError::InvalidChecksum { expected, actual } => "invalid checksum: expected 0x"@
            + hex_byte_spec(expected) + ", got 0x"@ + hex_byte_spec(actual),
    }
}

impl ProtocolError {
    /// The error as a sentence.
    pub fn message(&self) -> (m: String)
        ensures
            m@ == protocol_error_text(*self),
    {
        match self {
            ProtocolError::EmptyResponse => string_from("empty response"),
            ProtocolError::Nak => string_from("PSU returned NAK (0xF5)"),
            ProtocolError::InvalidPreamble(bytes) => {
                let mut m = string_from("invalid preamble: ");
                let list = format_hex_list(bytes.as_slice(), true);
                m.append(list.as_str());
                m
            },
            ProtocolError::InvalidLength { declared, actual } => {
                let mut m = string_from("invalid frame length: declared ");
                push_decimal(&mut m, *declared as u64);
                m.append(", actual ");
                push_decimal(&mut m, *actual as u64);
                m
            },
            ProtocolError::InvalidChecksum { expected, actual } => {
                let mut m = string_from("invalid checksum: expected 0x");
                push_hex_byte(&mut m, *expected);
                m.append(", got 0x");
                push_hex_byte(&mut m, *actual);
                m
            },
        }
    }
}

/// Breakpoint table `(breakpoint_raw, delta)` of the PSU's on-board
/// temperature sensor, as the PSU vendor's firmware tools decode it.
///
/// Command 0x09 returns a raw NTC/ADC code, NOT degrees. Temperature is
/// `-30 + sum(delta for every breakpoint <= raw)`, saturating at
/// [`TEMPERATURE_SATURATED_C`] once the table is exhausted. The deltas sum to
/// 155, so the table's own end point is `-30 + 155 = 125`, consistent with the
/// saturation value.
pub const TEMPERATURE_TABLE: [(u16, i8); 151] = [
    (12, 1), (12, 1), (13, 1), (14, 1), (15, 1), (16, 1), (17, 1), (18, 1),
    (19, 1), (20, 1), (21, 1), (23, 1), (25, 1), (25, 1), (27, 1), (28, 1),
    (30, 1), (32, 1), (34, 1), (35, 1), (37, 1), (39, 1), (42, 1), (44, 1),
    (46, 1), (49, 1), (51, 1), (54, 1), (57, 1), (60, 1), (63, 1), (66, 1),
    (69, 1), (73, 1), (77, 1), (80, 1), (84, 1), (88, 1), (93, 1), (97, 1),
    (102, 1), (106, 1), (111, 1), (117, 1), (122, 1), (127, 1), (133, 1), (139, 1),
    (145, 1), (151, 1), (158, 1), (164, 1), (172, 1), (179, 1), (186, 1), (194, 1),
    (201, 1), (209, 1), (218, 1), (227, 1), (235, 1), (244, 1), (253, 1), (263, 1),
    (272, 1), (283, 1), (293, 1), (303, 1), (314, 1), (325, 1), (336, 1), (347, 1),
    (359, 1), (371, 1), (383, 1), (396, 1), (408, 1), (421, 1), (433, 1), (447, 1),
    (461, 1), (474, 1), (488, 1), (501, 1), (517, 1), (530, 1), (546, 1), (561, 1),
    (575, 1), (590, 1), (605, 1), (620, 1), (635, 1), (652, 1), (666, 1), (684, 1),
    (698, 1), (715, 1), (731, 1), (747, 1), (763, 1), (781, 1), (796, 1), (812, 1),
    (828, 1), (845, 1), (863, 1), (878, 1), (893, 1), (909, 1), (926, 1), (943, 1),
    (961, 1), (974, 1), (993, 1), (1008, 1), (1023, 1), (1039, 1), (1055, 1), (1071, 1),
    (1088, 1), (1106, 1), (1118, 1), (1137, 1), (1149, 1), (1163, 1), (1176, 1), (1196, 1),
    (1211, 1), (1225, 1), (1240, 1), (1248, 1), (1263, 1), (1279, 1), (1295, 1), (1303, 1),
    (1320, 1), (1329, 1), (1346, 1), (1355, 1), (1373, 1), (1382, 1), (1392, 1), (1411, 1),
    (1421, 1), (1431, 1), (1441, 1), (1451, 1), (1461, 1), (1472, 1), (1527, 5),
];

/// Result once `raw` reaches the end of [`TEMPERATURE_TABLE`].
pub const TEMPERATURE_SATURATED_C: i16 = 125;

/// Temperature reported for a raw code below every breakpoint.
pub const TEMPERATURE_FLOOR_C: i16 = -30;

/// Sum of the deltas of the first `n` table entries whose breakpoint is at
/// most `raw`.
pub open spec fn delta_sum_below(raw: u16, n: int) -> int
    decreases n,
{
    if n <= 0 {
        0
    } else {
        delta_sum_below(raw, n - 1) + (if TEMPERATURE_TABLE@[n - 1].0 <= raw {
            TEMPERATURE_TABLE@[n - 1].1 as int
        } else {
            0
        })
    }
}

/// Degrees Celsius for a raw code: `-30 + sum(delta for every breakpoint <= raw)`.
pub open spec fn temperature_spec(raw: u16) -> int {
    -30 + delta_sum_below(raw, 151)
}

/// Facts about the table: breakpoints never decrease, every delta but the
/// last is 1 and the last is 5.
proof fn lemma_table_shape()
    ensures
        forall|j: int, k: int|
            0 <= j <= k < 151 ==> #[trigger] TEMPERATURE_TABLE@[j].0 <= #[trigger] TEMPERATURE_TABLE@[k].0,
        forall|j: int| 0 <= j < 150 ==> #[trigger] TEMPERATURE_TABLE@[j].1 == 1,
        TEMPERATURE_TABLE@[150] == (1527u16, 5i8),
        TEMPERATURE_TABLE@[0].0 == 12,
{
}

/// With every breakpoint of the first `n` entries at most `raw`, the sum is
/// `n` for `n <= 150` (each delta there is 1).
proof fn lemma_all_below(raw: u16, n: int)
    requires
        0 <= n <= 151,
        forall|j: int| 0 <= j < n ==> #[trigger] TEMPERATURE_TABLE@[j].0 <= raw,
    ensures
        delta_sum_below(raw, n) == (if n <= 150 {
            n
        } else {
            155
        }),
    decreases n,
{
    lemma_table_shape();
    if n > 0 {
        lemma_all_below(raw, n - 1);
    }
}

/// Entries whose breakpoint exceeds `raw` add nothing.
proof fn lemma_none_above(raw: u16, i: int, n: int)
    requires
        0 <= i <= n <= 151,
        forall|j: int| i <= j < n ==> #[trigger] TEMPERATURE_TABLE@[j].0 > raw,
    ensures
        delta_sum_below(raw, n) == delta_sum_below(raw, i),
    decreases n - i,
{
    if n > i {
        lemma_none_above(raw, i, n - 1);
    }
}

/// Partial sums stay between 0 and the number of entries counted (plus 4
/// once the last entry is counted).
proof fn lemma_delta_sum_range(raw: u16, n: int)
    requires
        0 <= n <= 151,
    ensures
        0 <= delta_sum_below(raw, n) <= (if n <= 150 {
            n
        } else {
            155
        }),
    decreases n,
{
    lemma_table_shape();
    if n > 0 {
        lemma_delta_sum_range(raw, n - 1);
    }
}

/// Decodes a [`CMD_READ_TEMPERATURE`] payload (2 bytes, little-endian) to
/// degrees Celsius.
pub fn decode_temperature_c(raw: u16) -> (celsius: i16)
    ensures
        celsius as int == temperature_spec(raw),
{
    proof {
        lemma_table_shape();
    }
    let mut celsius: i16 = TEMPERATURE_FLOOR_C;
    let mut i: usize = 0;
    while i < TEMPERATURE_TABLE.len()
        invariant
            i <= 151,
            forall|j: int| 0 <= j < i ==> #[trigger] TEMPERATURE_TABLE@[j].0 <= raw,
            celsius as int == -30 + delta_sum_below(raw, i as int),
            delta_sum_below(raw, i as int) == i,
            i <= 150,
        decreases 151 - i,
    {
        let (breakpoint, delta) = TEMPERATURE_TABLE[i];
        if raw < breakpoint {
            proof {
                assert forall|j: int| i <= j < 151 implies #[trigger] TEMPERATURE_TABLE@[j].0 > raw by {
                    assert(TEMPERATURE_TABLE@[i as int].0 <= TEMPERATURE_TABLE@[j].0);
                }
                lemma_none_above(raw, i as int, 151);
            }
            return celsius;
        }
        if i == 150 {
            proof {
                lemma_all_below(raw, 151);
            }
            return TEMPERATURE_SATURATED_C;
        }
        celsius = celsius + delta as i16;
        i = i + 1;
    }
    TEMPERATURE_SATURATED_C
}

/// A warmer sensor reading never decodes to a lower temperature: the decode
/// is monotone in the raw code.
pub proof fn lemma_temperature_monotone(raw1: u16, raw2: u16)
    requires
        raw1 <= raw2,
    ensures
        temperature_spec(raw1) <= temperature_spec(raw2),
{
    lemma_monotone_prefix(raw1, raw2, 151);
}

proof fn lemma_monotone_prefix(raw1: u16, raw2: u16, n: int)
    requires
        raw1 <= raw2,
        0 <= n <= 151,
    ensures
        delta_sum_below(raw1, n) <= delta_sum_below(raw2, n),
    decreases n,
{
    lemma_table_shape();
    if n > 0 {
        lemma_monotone_prefix(raw1, raw2, n - 1);
    }
}

/// Every decoded temperature lies between the floor, -30 C, and the
/// saturation value, 125 C.
pub proof fn lemma_temperature_range(raw: u16)
    ensures
        TEMPERATURE_FLOOR_C <= temperature_spec(raw) <= TEMPERATURE_SATURATED_C,
{
    lemma_delta_sum_range(raw, 151);
}

/// Codes at or past the last breakpoint saturate at 125 C, and codes below
/// the first breakpoint give the floor, -30 C.
pub proof fn lemma_temperature_ends(raw: u16)
    ensures
        raw >= 1527 ==> temperature_spec(raw) == TEMPERATURE_SATURATED_C,
        raw < 12 ==> temperature_spec(raw) == TEMPERATURE_FLOOR_C,
{
    lemma_table_shape();
    if raw >= 1527 {
        assert forall|j: int| 0 <= j < 151 implies #[trigger] TEMPERATURE_TABLE@[j].0 <= raw by {
            assert(TEMPERATURE_TABLE@[j].0 <= TEMPERATURE_TABLE@[150].0);
        }
        lemma_all_below(raw, 151);
    }
    if raw < 12 {
        assert forall|j: int| 0 <= j < 151 implies #[trigger] TEMPERATURE_TABLE@[j].0 > raw by {
            assert(TEMPERATURE_TABLE@[0].0 <= TEMPERATURE_TABLE@[j].0);
        }
        lemma_none_above(raw, 0, 151);
    }
}

/// The deltas of the whole table add up to the saturation span:
/// `-30 + sum(deltas) == 125`.
pub proof fn lemma_table_total()
    ensures
        TEMPERATURE_FLOOR_C + delta_sum_below(u16::MAX, 151) == TEMPERATURE_SATURATED_C,
{
    lemma_temperature_ends(u16::MAX);
}

/// A frame built from a payload of at most 251 bytes is accepted by the
/// parser, which gives back the same command and payload.
pub proof fn lemma_build_then_parse(command: u8, payload: Seq<u8>)
    requires
        payload.len() <= 251,
    ensures
        checksum_spec(frame_length_byte(payload.len()), command, payload) <= u16::MAX,
        frame_accepted(build_frame_spec(command, payload)),
        build_frame_spec(command, payload)[3] == command,
        build_frame_spec(command, payload).subrange(
            4,
            build_frame_spec(command, payload).len() - 2,
        ) == payload,
{
    lemma_sum_bytes_bound(payload);
    let raw = build_frame_spec(command, payload);
    assert(raw.subrange(4, raw.len() - 2) =~= payload);
}

/// Every frame the parser accepts is, up to its last byte (the checksum's
/// high byte, which is not checked), the frame that [`build_frame`] makes
/// from its command and payload.
pub proof fn lemma_accepted_is_built(raw: Seq<u8>)
    requires
        frame_accepted(raw),
    ensures
        build_frame_spec(raw[3], raw.subrange(4, raw.len() - 2)).drop_last() == raw.drop_last(),
{
    let payload = raw.subrange(4, raw.len() - 2);
    lemma_sum_bytes_bound(payload);
    assert(build_frame_spec(raw[3], payload).drop_last() =~= raw.drop_last());
}

} // verus!
