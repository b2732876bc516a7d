//! The S19j Pro hashboard checks: board wiring, ASIC reply framing, sensor
//! and EEPROM addresses, and the command line of the hashboard tool.

use vstd::prelude::*;

use crate::bytes::copy_range;
use crate::tally::{entry_views, has_key, keys_increasing, sum_counts, tally_map, Tally};
use crate::text::{
    arg_views, concat, concat_decimal, decimal_spec, hex_byte_spec, int_error_message,
    int_error_text, is_help_word, help_word, parse_uint, parse_uint_spec, push_hex_byte,
    result_view, str_eq, string_from, format_hex, hex_spaced_spec, hex_pad2_spec, push_hex_pad2,
};

verus! {

/// Chip-initialisation frame sent after a reset.
pub const INIT_FRAME: [u8; 11] = [0x55, 0xAA, 0x51, 0x09, 0x00, 0xA4, 0x90, 0x00, 0xFF, 0xFF, 0x1C];
/// Ping frame that asks every ASIC on the chain to answer.
pub const PING_FRAME: [u8; 7] = [0x55, 0xAA, 0x52, 0x05, 0x00, 0x00, 0x0A];
pub const TMP75_I2C_DEVICE: &'static str = "/dev/i2c-0";
pub const TMP75_TEMP_REG: u8 = 0x00;
pub const EEPROM_I2C_DEVICE: &'static str = "/dev/i2c-0";
pub const SERIAL_BAUD: u32 = 115_200;
pub const SERIAL_TIMEOUT_MS: u32 = 250;
/// Length of one ASIC reply.
pub const RESPONSE_SIZE: usize = 11;
pub const READ_CHUNK_SIZE: usize = 256;
pub const EEPROM_LEN: usize = 256;
/// Number of hashboard slots.
pub const HASHBOARD_COUNT: usize = 3;

/// The wiring of one hashboard slot.
#[derive(Debug, Clone, Copy)]
pub struct HashboardConfig {
    pub index: usize,
    pub serial_path: &'static str,
    pub reset_gpio: u32,
    pub detect_gpio: u32,
}

/// Reset and detect GPIOs of slot `index`.
pub open spec fn board_gpios(index: int) -> (u32, u32) {
    if index == 0 {
        (454, 439)
    } else if index == 1 {
        (455, 440)
    } else {
        (456, 441)
    }
}

/// UART device of slot `index`.
pub open spec fn board_serial_path(index: int) -> Seq<char> {
    if index == 0 {
        "/dev/ttyS3"@
    } else if index == 1 {
        "/dev/ttyS2"@
    } else {
        "/dev/ttyS1"@
    }
}

/// The wiring of hashboard slot `index`: HB0 on `/dev/ttyS3` with reset
/// GPIO 454 and detect GPIO 439, HB1 on `/dev/ttyS2` (455, 440), HB2 on
/// `/dev/ttyS1` (456, 441).
pub fn hashboard(index: usize) -> (b: HashboardConfig)
    requires
        index < HASHBOARD_COUNT,
    ensures
        b.index == index,
        b.serial_path@ == board_serial_path(index as int),
        (b.reset_gpio, b.detect_gpio) == board_gpios(index as int),
{
    if index == 0 {
        HashboardConfig { index: 0, serial_path: "/dev/ttyS3", reset_gpio: 454, detect_gpio: 439 }
    } else if index == 1 {
        HashboardConfig { index: 1, serial_path: "/dev/ttyS2", reset_gpio: 455, detect_gpio: 440 }
    } else {
        HashboardConfig { index: 2, serial_path: "/dev/ttyS1", reset_gpio: 456, detect_gpio: 441 }
    }
}

/// Each slot has its own wiring: slot `i` talks over `/dev/ttyS(3 - i)`,
/// is reset through GPIO `454 + i` and detected on GPIO `439 + i`, so no
/// two slots share a UART, a reset line or a detect line.
pub proof fn lemma_board_wiring(i: int, j: int)
    requires
        0 <= i < 3,
        0 <= j < 3,
    ensures
        board_serial_path(i) == "/dev/ttyS"@.push(((3 - i) + '0' as int) as char),
        board_gpios(i) == ((454 + i) as u32, (439 + i) as u32),
        i != j ==> board_serial_path(i) != board_serial_path(j),
        i != j ==> board_gpios(i).0 != board_gpios(j).0 && board_gpios(i).1 != board_gpios(j).1,
{
    reveal_strlit("/dev/ttyS");
    reveal_strlit("/dev/ttyS1");
    reveal_strlit("/dev/ttyS2");
    reveal_strlit("/dev/ttyS3");
    assert(board_serial_path(i) =~= "/dev/ttyS"@.push(((3 - i) + '0' as int) as char));
    if i != j {
        assert(board_serial_path(i)[9] != board_serial_path(j)[9]);
    }
}

/// The message for an index outside 0..=2.
pub open spec fn invalid_index_text(index: nat) -> Seq<char> {
    "invalid hashboard index: "@ + decimal_spec(index)
}

/// TMP75 sensor addresses of each slot: HB0 0x48/0x4C, HB1 0x4D/0x49,
/// HB2 0x4E/0x4A.
pub fn tmp75_addresses(board_index: usize) -> (r: Result<[u8; 2], String>)
    ensures
        board_index == 0 ==> (r matches Ok(a) && a@ == seq![0x48u8, 0x4Cu8]),
        board_index == 1 ==> (r matches Ok(a) && a@ == seq![0x4Du8, 0x49u8]),
        board_index == 2 ==> (r matches Ok(a) && a@ == seq![0x4Eu8, 0x4Au8]),
        board_index > 2 ==> (r matches Err(e) && e@ == invalid_index_text(board_index as nat)),
{
    let a: [u8; 2] = if board_index == 0 {
        [0x48, 0x4C]
    } else if board_index == 1 {
        [0x4D, 0x49]
    } else if board_index == 2 {
        [0x4E, 0x4A]
    } else {
        return Err(concat_decimal("invalid hashboard index: ", board_index as u64));
    };
    proof {
        if board_index == 0 {
            assert(a@ =~= seq![0x48u8, 0x4Cu8]);
        } else if board_index == 1 {
            assert(a@ =~= seq![0x4Du8, 0x49u8]);
        } else {
            assert(a@ =~= seq![0x4Eu8, 0x4Au8]);
        }
    }
    Ok(a)
}

/// EEPROM address of each slot: 0x50 + index.
pub fn eeprom_address(board_index: usize) -> (r: Result<u8, String>)
    ensures
        board_index <= 2 ==> r == Ok::<u8, String>((0x50 + board_index) as u8),
        board_index > 2 ==> (r matches Err(e) && e@ == invalid_index_text(board_index as nat)),
{
    if board_index == 0 {
        Ok(0x50)
    } else if board_index == 1 {
        Ok(0x51)
    } else if board_index == 2 {
        Ok(0x52)
    } else {
        Err(concat_decimal("invalid hashboard index: ", board_index as u64))
    }
}

/// The name of the ASIC that sent a reply: "BM" and bytes 2 and 3 in
/// hex, or "unknown" for replies shorter than four bytes.
pub open spec fn asic_model_spec(frame: Seq<u8>) -> Seq<char> {
    if frame.len() < 4 {
        "unknown"@
    } else {
        "BM"@ + hex_byte_spec(frame[2]) + hex_byte_spec(frame[3])
    }
}

pub fn asic_model_name(frame: &[u8]) -> (name: String)
    ensures
        name@ == asic_model_spec(frame@),
{
    if frame.len() < 4 {
        return string_from("unknown");
    }
    let mut s = string_from("BM");
    push_hex_byte(&mut s, frame[2]);
    push_hex_byte(&mut s, frame[3]);
    s
}

/// Index of the first reply preamble `AA 55` at or after `i`, if any.
pub open spec fn preamble_from(s: Seq<u8>, i: int) -> Option<int>
    decreases s.len() - i,
{
    if i < 0 || i + 1 >= s.len() {
        None
    } else if s[i] == 0xAA && s[i + 1] == 0x55 {
        Some(i)
    } else {
        preamble_from(s, i + 1)
    }
}

proof fn lemma_preamble_from_range(s: Seq<u8>, i: int)
    requires
        0 <= i,
    ensures
        preamble_from(s, i) matches Some(p) ==> i <= p && p + 1 < s.len() && s[p] == 0xAA
            && s[p + 1] == 0x55,
    decreases s.len() - i,
{
    if i + 1 < s.len() && !(s[i] == 0xAA && s[i + 1] == 0x55) {
        lemma_preamble_from_range(s, i + 1);
    }
}

fn find_preamble_from(buffer: &[u8], from: usize) -> (r: Option<usize>)
    ensures
        r matches Some(p) ==> preamble_from(buffer@, from as int) == Some(p as int),
        r is None ==> preamble_from(buffer@, from as int) is None,
{
    let n = buffer.len();
    if n < 2 {
        return None;
    }
    let mut i = from;
    while i < n - 1
        invariant
            n == buffer@.len(),
            n >= 2,
            from <= i,
            preamble_from(buffer@, from as int) == preamble_from(buffer@, i as int),
        decreases buffer@.len() - i,
    {
        if buffer[i] == 0xAA && buffer[i + 1] == 0x55 {
            return Some(i);
        }
        i = i + 1;
    }
    None
}

/// Position of the first reply preamble `AA 55` in `buffer`.
pub fn find_preamble(buffer: &[u8]) -> (r: Option<usize>)
    ensures
        r matches Some(p) ==> preamble_from(buffer@, 0) == Some(p as int),
        r is None ==> preamble_from(buffer@, 0) is None,
{
    find_preamble_from(buffer, 0)
}

/// The whole replies found in `buf`, and what is kept for later: bytes
/// before a preamble are dropped, each preamble starts an 11-byte reply,
/// an incomplete reply is kept, and with no preamble left only the last
/// byte is kept (it may begin one).
pub open spec fn extract_spec(buf: Seq<u8>) -> (Seq<Seq<u8>>, Seq<u8>)
    decreases buf.len(),
{
    match preamble_from(buf, 0) {
        None => (Seq::empty(), if buf.len() == 0 {
            Seq::empty()
        } else {
            seq![buf.last()]
        }),
        Some(p) => {
            if p < 0 || p > buf.len() || buf.len() - p < RESPONSE_SIZE {
                (Seq::empty(), buf.skip(p))
            } else {
                let rest = extract_spec(buf.skip(p + RESPONSE_SIZE as int));
                (seq![buf.subrange(p, p + RESPONSE_SIZE as int)] + rest.0, rest.1)
            }
        },
    }
}

proof fn lemma_preamble_shift(s: Seq<u8>, c: int, i: int)
    requires
        0 <= c <= i,
        c <= s.len(),
    ensures
        preamble_from(s.skip(c), i - c) == (match preamble_from(s, i) {
            Some(p) => Some(p - c),
            None => None::<int>,
        }),
    decreases s.len() - i,
{
    if i + 1 < s.len() && !(s[i] == 0xAA && s[i + 1] == 0x55) {
        lemma_preamble_shift(s, c, i + 1);
    }
}

/// The contents of a list of byte vectors.
pub open spec fn frame_views(frames: Seq<Vec<u8>>) -> Seq<Seq<u8>> {
    frames.map_values(|f: Vec<u8>| f@)
}

/// Takes the whole 11-byte replies out of `buffer`, leaving what may
/// still become one.
pub fn extract_reply_frames(buffer: &mut Vec<u8>) -> (frames: Vec<Vec<u8>>)
    ensures
        frame_views(frames@) == extract_spec(old(buffer)@).0,
        final(buffer)@ == extract_spec(old(buffer)@).1,
{
    let data = copy_range(buffer.as_slice(), 0, buffer.len());
    assert(data@ =~= old(buffer)@);
    let mut frames: Vec<Vec<u8>> = Vec::new();
    let mut cur: usize = 0;
    loop
        invariant
            cur <= data@.len(),
            data@ == old(buffer)@,
            extract_spec(data@).0 == frame_views(frames@) + extract_spec(data@.skip(cur as int)).0,
            extract_spec(data@).1 == extract_spec(data@.skip(cur as int)).1,
        decreases data@.len() - cur,
    {
        let ghost rest = data@.skip(cur as int);
        proof {
            lemma_preamble_shift(data@, cur as int, cur as int);
            lemma_preamble_from_range(data@, cur as int);
        }
        match find_preamble_from(data.as_slice(), cur) {
            None => {
                let kept = if cur == data.len() {
                    Vec::new()
                } else {
                    let mut v = Vec::new();
                    v.push(data[data.len() - 1]);
                    v
                };
                proof {
                    if cur == data@.len() {
                        assert(kept@ =~= Seq::<u8>::empty());
                    } else {
                        assert(kept@ =~= seq![rest.last()]);
                    }
                }
                *buffer = kept;
                return frames;
            },
            Some(start) => {
                if data.len() - start < RESPONSE_SIZE {
                    let kept = copy_range(data.as_slice(), start, data.len());
                    assert(kept@ =~= rest.skip(start - cur));
                    *buffer = kept;
                    return frames;
                }
                let frame = copy_range(data.as_slice(), start, start + RESPONSE_SIZE);
                let ghost before = frame_views(frames@);
                frames.push(frame);
                proof {
                    assert(frame@ =~= rest.subrange(start - cur, start - cur + RESPONSE_SIZE as int));
                    assert(rest.skip(start - cur + RESPONSE_SIZE as int) =~= data@.skip(
                        start + RESPONSE_SIZE as int,
                    ));
                    assert(frame_views(frames@) =~= before.push(frame@));
                    assert(before.push(frame@) + extract_spec(data@.skip(start + RESPONSE_SIZE as int)).0
                        =~= before + (seq![frame@] + extract_spec(data@.skip(start + RESPONSE_SIZE as int)).0));
                }
                cur = start + RESPONSE_SIZE;
            },
        }
    }
}

/// A preamble found within `a` is still the first one once more bytes
/// follow.
proof fn lemma_preamble_prefix(a: Seq<u8>, b: Seq<u8>, i: int)
    requires
        0 <= i,
        preamble_from(a, i) is Some,
    ensures
        preamble_from(a + b, i) == preamble_from(a, i),
    decreases a.len() - i,
{
    if i + 1 < a.len() && !(a[i] == 0xAA && a[i + 1] == 0x55) {
        lemma_preamble_prefix(a, b, i + 1);
    }
}

/// With no preamble within `a` from `i` on, the search in `a + b` goes on
/// from the last byte of `a`.
proof fn lemma_preamble_none_prefix(a: Seq<u8>, b: Seq<u8>, i: int)
    requires
        0 <= i <= a.len() - 1,
        preamble_from(a, i) is None,
    ensures
        preamble_from(a + b, i) == preamble_from(a + b, a.len() - 1),
    decreases a.len() - i,
{
    if i < a.len() - 1 {
        assert((a + b)[i] == a[i] && (a + b)[i + 1] == a[i + 1]);
        lemma_preamble_none_prefix(a, b, i + 1);
    }
}

/// Dropping bytes that come before the first preamble changes nothing.
proof fn lemma_extract_skip(s: Seq<u8>, k: int)
    requires
        0 <= k < s.len(),
        preamble_from(s, 0) == preamble_from(s, k),
    ensures
        extract_spec(s) == extract_spec(s.skip(k)),
{
    lemma_preamble_shift(s, k, k);
    lemma_preamble_from_range(s, k);
    let t = s.skip(k);
    assert(t.skip(0) =~= t);
    match preamble_from(s, 0) {
        None => {
            assert(t.last() == s.last());
        },
        Some(p) => {
            assert(t.skip(p - k) =~= s.skip(p));
            if s.len() - p >= RESPONSE_SIZE {
                assert(t.subrange(p - k, p - k + RESPONSE_SIZE as int) =~= s.subrange(
                    p,
                    p + RESPONSE_SIZE as int,
                ));
                assert(t.skip(p - k + RESPONSE_SIZE as int) =~= s.skip(p + RESPONSE_SIZE as int));
            }
        },
    }
}

/// Every reply taken out of a buffer is 11 bytes long and starts with the
/// preamble `AA 55`.
pub proof fn lemma_extracted_frames_shape(buf: Seq<u8>)
    ensures
        forall|i: int|
            0 <= i < extract_spec(buf).0.len() ==> #[trigger] extract_spec(buf).0[i].len()
                == RESPONSE_SIZE && extract_spec(buf).0[i][0] == 0xAA && extract_spec(buf).0[i][1]
                == 0x55,
    decreases buf.len(),
{
    lemma_preamble_from_range(buf, 0);
    if let Some(p) = preamble_from(buf, 0) {
        if buf.len() - p >= RESPONSE_SIZE {
            let rest = buf.skip(p + RESPONSE_SIZE as int);
            lemma_extracted_frames_shape(rest);
            let frames = extract_spec(buf).0;
            assert forall|i: int| 0 <= i < frames.len() implies #[trigger] frames[i].len()
                == RESPONSE_SIZE && frames[i][0] == 0xAA && frames[i][1] == 0x55 by {
                if i > 0 {
                    assert(frames[i] == extract_spec(rest).0[i - 1]);
                }
            }
        }
    }
}

/// Reading the serial link in chunks finds the same replies as reading it
/// all at once: extracting from `a` and then from what was kept followed
/// by `b` gives the replies, and the kept bytes, of extracting from `a + b`.
pub proof fn lemma_extract_streaming(a: Seq<u8>, b: Seq<u8>)
    ensures
        extract_spec(a + b).0 == extract_spec(a).0 + extract_spec(extract_spec(a).1 + b).0,
        extract_spec(a + b).1 == extract_spec(extract_spec(a).1 + b).1,
    decreases a.len(),
{
    if a.len() == 0 {
        assert(a + b =~= b);
        assert(extract_spec(a).1 + b =~= b);
        assert(extract_spec(a).0 =~= Seq::<Seq<u8>>::empty());
        assert(Seq::<Seq<u8>>::empty() + extract_spec(b).0 =~= extract_spec(b).0);
        return;
    }
    let s = a + b;
    lemma_preamble_from_range(a, 0);
    match preamble_from(a, 0) {
        Some(p) => {
            lemma_preamble_prefix(a, b, 0);
            if a.len() - p >= RESPONSE_SIZE {
                let a2 = a.skip(p + RESPONSE_SIZE as int);
                assert(s.skip(p + RESPONSE_SIZE as int) =~= a2 + b);
                assert(s.subrange(p, p + RESPONSE_SIZE as int) =~= a.subrange(
                    p,
                    p + RESPONSE_SIZE as int,
                ));
                lemma_extract_streaming(a2, b);
                let f = a.subrange(p, p + RESPONSE_SIZE as int);
                assert(seq![f] + extract_spec(a2 + b).0 =~= seq![f] + extract_spec(a2).0
                    + extract_spec(extract_spec(a2).1 + b).0);
            } else {
                lemma_preamble_from_range(a, 0);
                assert(preamble_from(s, p) == Some(p));
                lemma_extract_skip(s, p);
                assert(s.skip(p) =~= a.skip(p) + b);
                assert(Seq::<Seq<u8>>::empty() + extract_spec(a.skip(p) + b).0 =~= extract_spec(
                    a.skip(p) + b,
                ).0);
            }
        },
        None => {
            let k = a.len() - 1;
            lemma_preamble_none_prefix(a, b, 0);
            lemma_preamble_from_range(s, k);
            if preamble_from(s, k) is Some {
                assert(preamble_from(s, k) == Some(preamble_from(s, k)->0));
            }
            lemma_extract_skip(s, k);
            assert(s.skip(k) =~= seq![a.last()] + b);
            assert(Seq::<Seq<u8>>::empty() + extract_spec(seq![a.last()] + b).0 =~= extract_spec(
                seq![a.last()] + b,
            ).0);
        },
    }
}

/// What the hashboard tool was asked to do.
#[derive(Debug, Clone, Copy, PartialEq, Eq, Structural)]
pub enum Command {
    Help,
    CheckAll,
    CheckOne(usize),
    Temps(usize),
    Eeprom(usize),
}

/// A hashboard index given on the command line: a decimal `usize` below 3.
pub open spec fn board_index_spec(s: Seq<char>) -> Result<usize, Seq<char>> {
    match parse_uint_spec(s, 10, usize::MAX as nat) {
        Err(k) => Err(int_error_text(k)),
        Ok(v) => if v >= HASHBOARD_COUNT {
            Err(invalid_index_text(v))
        } else {
            Ok(v as usize)
        },
    }
}

/// The command that a list of arguments asks for, or the message that
/// refuses it.
pub open spec fn command_spec(args: Seq<Seq<char>>) -> Result<Command, Seq<char>> {
    if args.len() == 0 || is_help_word(args[0]) {
        Ok(Command::Help)
    } else if args[0] == "check"@ {
        if args.len() < 2 {
            Ok(Command::CheckAll)
        } else {
            match board_index_spec(args[1]) {
                Ok(i) => Ok(Command::CheckOne(i)),
                Err(e) => Err(e),
            }
        }
    } else if args[0] == "temps"@ {
        if args.len() < 2 {
            Err("missing hashboard index for temps"@)
        } else {
            match board_index_spec(args[1]) {
                Ok(i) => Ok(Command::Temps(i)),
                Err(e) => Err(e),
            }
        }
    } else if args[0] == "eeprom"@ {
        if args.len() < 2 {
            Err("missing hashboard index for eeprom"@)
        } else {
            match board_index_spec(args[1]) {
                Ok(i) => Ok(Command::Eeprom(i)),
                Err(e) => Err(e),
            }
        }
    } else {
        Err("unknown command: "@ + args[0])
    }
}

/// Parses a hashboard index.
pub fn board_index(s: &str) -> (r: Result<usize, String>)
    ensures
        result_view(r) == board_index_spec(s@),
{
    match parse_uint(s, 10, usize::MAX as u64) {
        Err(k) => Err(int_error_message(k)),
        Ok(v) => {
            if v >= HASHBOARD_COUNT as u64 {
                Err(concat_decimal("invalid hashboard index: ", v))
            } else {
                Ok(v as usize)
            }
        },
    }
}

/// Reads the hashboard tool's command line (without the program name).
pub fn parse_args(args: Vec<String>) -> (r: Result<Command, String>)
    ensures
        result_view(r) == command_spec(arg_views(args@)),
{
    let ghost a = arg_views(args@);
    if args.len() == 0 {
        return Ok(Command::Help);
    }
    let first = args[0].as_str();
    assert(first@ == a[0]);
    if help_word(first) {
        return Ok(Command::Help);
    }
    if str_eq(first, "check") {
        if args.len() < 2 {
            return Ok(Command::CheckAll);
        }
        assert(args[1]@ == a[1]);
        match board_index(args[1].as_str()) {
            Ok(i) => Ok(Command::CheckOne(i)),
            Err(e) => Err(e),
        }
    } else if str_eq(first, "temps") {
        if args.len() < 2 {
            return Err(string_from("missing hashboard index for temps"));
        }
        assert(args[1]@ == a[1]);
        match board_index(args[1].as_str()) {
            Ok(i) => Ok(Command::Temps(i)),
            Err(e) => Err(e),
        }
    } else if str_eq(first, "eeprom") {
        if args.len() < 2 {
            return Err(string_from("missing hashboard index for eeprom"));
        }
        assert(args[1]@ == a[1]);
        match board_index(args[1].as_str()) {
            Ok(i) => Ok(Command::Eeprom(i)),
            Err(e) => Err(e),
        }
    } else {
        Err(concat("unknown command: ", first))
    }
}

/// The message for a slot whose presence-detect line reads low.
pub open spec fn not_present_text(index: nat) -> Seq<char> {
    "hashboard "@ + decimal_spec(index) + " is not present"@
}

pub fn not_present_message(index: usize) -> (m: String)
    ensures
        m@ == not_present_text(index as nat),
{
    let mut m = concat_decimal("hashboard ", index as u64);
    m.append(" is not present");
    m
}

/// How a presence-detect level reads.
pub fn presence_label(present: u8) -> (label: &'static str)
    ensures
        present == 0 ==> label@ == "not-present-or-low"@,
        present != 0 ==> label@ == "present-or-high"@,
{
    if present == 0 {
        "not-present-or-low"
    } else {
        "present-or-high"
    }
}

/// The ASCII bytes of the name of the ASIC that sent a reply.
pub open spec fn model_bytes_spec(frame: Seq<u8>) -> Seq<u8> {
    asic_model_spec(frame).map_values(|c: char| c as u8)
}

fn hex_digit_byte(n: u8) -> (b: u8)
    requires
        n < 16,
    ensures
        b as char == crate::text::hex_digit_spec(n as int),
        b == crate::text::hex_digit_spec(n as int) as u8,
{
    if n < 10 {
        48 + n
    } else {
        55 + n
    }
}

/// The name of the ASIC that sent a reply, as ASCII bytes.
pub fn asic_model_bytes(frame: &[u8]) -> (name: Vec<u8>)
    ensures
        name@ == model_bytes_spec(frame@),
        name@.map_values(|b: u8| b as char) == asic_model_spec(frame@),
{
    let mut v: Vec<u8> = Vec::new();
    if frame.len() < 4 {
        v.push(117);
        v.push(110);
        v.push(107);
        v.push(110);
        v.push(111);
        v.push(119);
        v.push(110);
        proof {
            reveal_strlit("unknown");
            assert(v@ =~= model_bytes_spec(frame@));
            assert(v@.map_values(|b: u8| b as char) =~= asic_model_spec(frame@));
        }
    } else {
        v.push(66);
        v.push(77);
        v.push(hex_digit_byte(frame[2] / 16));
        v.push(hex_digit_byte(frame[2] % 16));
        v.push(hex_digit_byte(frame[3] / 16));
        v.push(hex_digit_byte(frame[3] % 16));
        proof {
            reveal_strlit("BM");
            let m = asic_model_spec(frame@);
            assert(m =~= seq!['B', 'M'] + hex_byte_spec(frame@[2]) + hex_byte_spec(frame@[3]));
            assert(v@ =~= model_bytes_spec(frame@));
            assert(v@.map_values(|b: u8| b as char) =~= m);
        }
    }
    v
}

/// The replies of one check of a hashboard: how many came, and how often
/// each distinct reply and each ASIC model was seen.
pub struct ReplyLog {
    replies: Tally,
    models: Tally,
    count: usize,
}

impl ReplyLog {
    #[verifier::type_invariant]
    spec fn counts_agree(self) -> bool {
        &&& self.replies.total_spec() == self.count
        &&& self.models.total_spec() == self.count
    }

    /// How many replies were recorded.
    pub closed spec fn count_spec(&self) -> nat {
        self.count as nat
    }

    /// Each distinct reply with its count, in dictionary order.
    pub closed spec fn replies_spec(&self) -> Seq<(Seq<u8>, usize)> {
        self.replies.entries_spec()
    }

    /// Each ASIC model name (as ASCII bytes) with its count, in order.
    pub closed spec fn models_spec(&self) -> Seq<(Seq<u8>, usize)> {
        self.models.entries_spec()
    }

    /// A log of no replies.
    pub fn new() -> (log: Self)
        ensures
            log.count_spec() == 0,
            log.replies_spec().len() == 0,
            log.models_spec().len() == 0,
    {
        ReplyLog { replies: Tally::new(), models: Tally::new(), count: 0 }
    }

    /// How many replies were recorded.
    pub fn count(&self) -> (n: usize)
        ensures
            n == self.count_spec(),
    {
        self.count
    }

    /// Records one reply: one more reply, one more of this reply, one more
    /// of its ASIC model.
    pub fn record(&mut self, frame: &[u8])
        requires
            old(self).count_spec() < usize::MAX,
        ensures
            final(self).count_spec() == old(self).count_spec() + 1,
            tally_map(final(self).replies_spec()) == tally_map(old(self).replies_spec()).insert(
                frame@,
                if has_key(old(self).replies_spec(), frame@) {
                    (tally_map(old(self).replies_spec())[frame@] + 1) as usize
                } else {
                    1usize
                },
            ),
            tally_map(final(self).models_spec()) == tally_map(old(self).models_spec()).insert(
                model_bytes_spec(frame@),
                if has_key(old(self).models_spec(), model_bytes_spec(frame@)) {
                    (tally_map(old(self).models_spec())[model_bytes_spec(frame@)] + 1) as usize
                } else {
                    1usize
                },
            ),
    {
        proof {
            use_type_invariant(&*self);
        }
        let mut taken = ReplyLog::new();
        std::mem::swap(&mut taken, self);
        let ReplyLog { mut replies, mut models, count } = taken;
        replies.record(copy_range(frame, 0, frame.len()));
        models.record(asic_model_bytes(frame));
        proof {
            assert(frame@.subrange(0, frame@.len() as int) =~= frame@);
        }
        *self = ReplyLog { replies, models, count: count + 1 };
    }

    /// Each distinct reply with its count, in dictionary order; the counts
    /// add up to the number of replies.
    pub fn unique_replies(&self) -> (out: Vec<(Vec<u8>, usize)>)
        ensures
            entry_views(out@) == self.replies_spec(),
            keys_increasing(self.replies_spec()),
            sum_counts(self.replies_spec()) == self.count_spec(),
    {
        proof {
            use_type_invariant(self);
        }
        self.replies.entries()
    }

    /// Each ASIC model seen with its count, ordered by name; the counts add
    /// up to the number of replies.
    pub fn model_counts(&self) -> (out: Vec<(String, usize)>)
        ensures
            out@.len() == self.models_spec().len(),
            forall|i: int|
                0 <= i < out@.len() ==> (#[trigger] out@[i]).0@ == self.models_spec()[i].0.map_values(
                    |b: u8| b as char,
                ) && out@[i].1 == self.models_spec()[i].1,
            keys_increasing(self.models_spec()),
            sum_counts(self.models_spec()) == self.count_spec(),
    {
        proof {
            use_type_invariant(self);
        }
        let entries = self.models.entries();
        let mut out: Vec<(String, usize)> = Vec::new();
        let mut i: usize = 0;
        while i < entries.len()
            invariant
                i <= entries@.len(),
                entry_views(entries@) == self.models_spec(),
                out@.len() == i,
                forall|j: int|
                    0 <= j < i ==> (#[trigger] out@[j]).0@ == self.models_spec()[j].0.map_values(
                        |b: u8| b as char,
                    ) && out@[j].1 == self.models_spec()[j].1,
            decreases entries@.len() - i,
        {
            let name = ascii_string(entries[i].0.as_slice());
            out.push((name, entries[i].1));
            i = i + 1;
        }
        out
    }
}

/// The characters of ASCII bytes.
pub fn ascii_string(bytes: &[u8]) -> (s: String)
    ensures
        s@ == bytes@.map_values(|b: u8| b as char),
{
    let mut s = String::new();
    let mut i: usize = 0;
    while i < bytes.len()
        invariant
            i <= bytes@.len(),
            s@ == bytes@.take(i as int).map_values(|b: u8| b as char),
        decreases bytes@.len() - i,
    {
        crate::text::push_char(&mut s, bytes[i] as char);
        i = i + 1;
        proof {
            assert(s@ =~= bytes@.take(i as int).map_values(|b: u8| b as char));
        }
    }
    proof {
        assert(bytes@.take(i as int) =~= bytes@);
    }
    s
}

/// The TMP75 temperature register as read: the SMBus word read returns
/// the register's bytes swapped, so they are swapped back.
pub fn tmp75_raw(word: u16) -> (raw: u16)
    ensures
        raw as int == (word as int % 256) * 256 + word as int / 256,
{
    (word % 256) * 256 + word / 256
}

/// A 16-bit register read as two's complement.
pub open spec fn signed16(raw: u16) -> int {
    if raw < 0x8000 {
        raw as int
    } else {
        raw as int - 0x10000
    }
}

/// The TMP75 reading in sixteenths of a degree: the register's top twelve
/// bits, signed (an arithmetic shift right by four).
pub fn tmp75_sixteenths(raw: u16) -> (t: i16)
    ensures
        t as int == signed16(raw) / 16,
        -2048 <= t < 2048,
{
    let v = raw as i16;
    let t = v >> 4u32;
    assert(raw < 0x8000 ==> v as int == raw as int) by (bit_vector)
        requires
            v == raw as i16,
    ;
    assert(raw >= 0x8000 ==> v as int == raw as int - 0x10000) by (bit_vector)
        requires
            v == raw as i16,
    ;
    assert(v >= 0 ==> t == v / 16) by (bit_vector)
        requires
            t == v >> 4u32,
    ;
    assert(v < 0 ==> t == -((-(v as int) + 15) / 16)) by (bit_vector)
        requires
            t == v >> 4u32,
    ;
    assert(-2048 <= t < 2048) by (bit_vector)
        requires
            t == v >> 4u32,
    ;
    t
}

/// One line of a hex dump: the offset of line `k` (sixteen bytes a line)
/// and the line's bytes.
pub open spec fn dump_line_spec(data: Seq<u8>, k: int) -> Seq<char> {
    let start = 16 * k;
    let end = if start + 16 <= data.len() {
        start + 16
    } else {
        data.len() as int
    };
    hex_pad2_spec(start as nat, true) + seq![':', ' '] + hex_spaced_spec(data.subrange(start, end))
}

/// The number of lines of a hex dump of `n` bytes.
pub open spec fn dump_line_count(n: nat) -> nat {
    (n + 15) / 16
}

/// A hex dump: sixteen bytes a line, each line led by its offset.
pub fn hex_dump_lines(data: &[u8]) -> (lines: Vec<String>)
    ensures
        lines@.len() == dump_line_count(data@.len()),
        forall|k: int| 0 <= k < lines@.len() ==> (#[trigger] lines@[k])@ == dump_line_spec(data@, k),
{
    let mut lines: Vec<String> = Vec::new();
    let count: usize = data.len() / 16 + if data.len() % 16 != 0 {
        1
    } else {
        0
    };
    assert(count == dump_line_count(data@.len()));
    let mut k: usize = 0;
    while k < count
        invariant
            count == dump_line_count(data@.len()),
            k <= count,
            k == lines@.len(),
            forall|j: int| 0 <= j < k ==> (#[trigger] lines@[j])@ == dump_line_spec(data@, j),
        decreases count - k,
    {
        let n = data.len();
        assert(16 * k < n) by (nonlinear_arith)
            requires
                k < (n + 15) / 16,
        ;
        let start = 16 * k;
        let end = if data.len() - start >= 16 {
            start + 16
        } else {
            data.len()
        };
        let mut line = String::new();
        push_hex_pad2(&mut line, start as u64, true);
        crate::text::push_char(&mut line, ':');
        crate::text::push_char(&mut line, ' ');
        let chunk = copy_range(data, start, end);
        let hex = format_hex(chunk.as_slice());
        line.append(hex.as_str());
        proof {
            assert(line@ =~= dump_line_spec(data@, k as int));
        }
        lines.push(line);
        k = k + 1;
    }
    lines
}

} // verus!
