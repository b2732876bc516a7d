//! Antminer hashboard PIC microcontroller protocol (PIC16F1704 on
//! BHB42601 / S19j Pro boards and family).
//!
//! Request frame: `[0x55, 0xAA, length, opcode, payload..., crc]`, where
//! `length` counts the bytes from `length` through `crc` and
//! `crc = (length + opcode + sum(payload)) & 0xFF`. The PIC answers one
//! byte at a time; each command's reply has a fixed length and shape.
//!
//! Bring-up sequence: reset, start the application, read the firmware
//! version, disable the DC-DC regulators, heartbeat, read the temperature
//! registers 0x48..0x4b, enable the DC-DC regulators, then heartbeat about
//! every 1.5 s.

use vstd::prelude::*;

use crate::bytes::{le_u16, le_u16_spec};
use crate::protocol::{lemma_sum_bytes_prefix, sum_bytes};
use crate::text::{
    format_hex_list, hex_byte_case_spec, hex_list_spec, hex_pad2_spec, push_hex_byte_case,
    push_hex_pad2, string_from,
};

verus! {

/// Default I2C bus of the hashboard PICs on the Amlogic A113D control board.
pub const DEFAULT_I2C_DEVICE: &'static str = "/dev/i2c-0";

pub const PREAMBLE_0: u8 = 0x55;
pub const PREAMBLE_1: u8 = 0xAA;

pub const OP_START_APP: u8 = 0x06;
pub const OP_RESET: u8 = 0x07;
pub const OP_SET_DC_DC: u8 = 0x15;
pub const OP_HEARTBEAT: u8 = 0x16;
pub const OP_VERSION: u8 = 0x17;
pub const OP_READ_REG: u8 = 0x3c;

/// Pause between the single-byte reads of a reply.
pub const READ_BYTE_GAP_MS: u64 = 30;
/// Pause between a request and its reply.
pub const POST_WRITE_DELAY_MS: u64 = 300;
/// Pause between a heartbeat request and its reply.
pub const HEARTBEAT_WRITE_DELAY_MS: u64 = 10;
/// Settling time after a reset.
pub const POST_RESET_DELAY_MS: u64 = 500;
/// Settling time after the application starts.
pub const POST_START_APP_DELAY_MS: u64 = 300;

/// Reply lengths of the commands.
pub const RESET_REPLY_LEN: usize = 2;
pub const START_APP_REPLY_LEN: usize = 2;
pub const VERSION_REPLY_LEN: usize = 5;
pub const HEARTBEAT_REPLY_LEN: usize = 6;
pub const SET_DC_DC_REPLY_LEN: usize = 2;
pub const READ_REG_REPLY_LEN: usize = 7;

/// `std::io::Error`, carried unopened inside [`PicError::Io`].
#[verifier::external_type_specification]
#[verifier::external_body]
pub struct ExIoError(std::io::Error);

/// A failed PIC exchange.
#[derive(Debug)]
pub enum PicError {
    Io { addr: u16, source: std::io::Error },
    UnexpectedResponse { addr: u16, opcode: u8, raw: Vec<u8> },
}

/// `std::io::Error`'s `Display`: the text of an I/O error, which comes
/// from the operating system; nothing is stated of it.
#[verifier::external_body]
fn io_error_text(e: &std::io::Error) -> String {
    e.to_string()
}

/// How an I/O failure message starts: the PIC's address in hex.
pub open spec fn io_error_prefix(addr: u16) -> Seq<char> {
    "I/O error talking to PIC at 0x"@ + hex_pad2_spec(addr as nat, false) + ": "@
}

/// The message for a reply of the wrong shape.
pub open spec fn unexpected_response_text(addr: u16, opcode: u8, raw: Seq<u8>) -> Seq<char> {
    "unexpected PIC response at 0x"@ + hex_pad2_spec(addr as nat, false) + " for opcode 0x"@
        + hex_byte_case_spec(opcode, false) + ": "@ + hex_list_spec(raw, false)
}

impl PicError {
    /// The error as a sentence; an I/O failure ends with the system's text
    /// for it.
    pub fn message(&self) -> (m: String)
        ensures
            self matches PicError::UnexpectedResponse { addr, opcode, raw } ==> m@
                == unexpected_response_text(*addr, *opcode, raw@),
            self matches PicError::Io { addr, .. } ==> m@.len() >= io_error_prefix(*addr).len()
                && m@.take(io_error_prefix(*addr).len() as int) == io_error_prefix(*addr),
    {
        match self {
            PicError::Io { addr, source } => {
                let mut m = string_from("I/O error talking to PIC at 0x");
                push_hex_pad2(&mut m, *addr as u64, false);
                m.append(": ");
                let ghost prefix = m@;
                let t = io_error_text(source);
                m.append(t.as_str());
                proof {
                    assert(m@.take(prefix.len() as int) =~= prefix);
                }
                m
            },
            PicError::UnexpectedResponse { addr, opcode, raw } => {
                let mut m = string_from("unexpected PIC response at 0x");
                push_hex_pad2(&mut m, *addr as u64, false);
                m.append(" for opcode 0x");
                push_hex_byte_case(&mut m, *opcode, false);
                m.append(": ");
                let list = format_hex_list(raw.as_slice(), false);
                m.append(list.as_str());
                m
            },
        }
    }
}

/// PIC I2C address of hashboard slot `slot`: HB0 is 0x20, HB1 0x21, HB2 0x22.
pub fn pic_address_for_slot(slot: u8) -> (addr: u16)
    ensures
        addr == 0x20 + slot,
{
    0x20 + slot as u16
}

/// The length byte of a request with `payload_len` payload bytes.
pub open spec fn pic_length_byte(payload_len: nat) -> u8 {
    ((payload_len + 3) % 256) as u8
}

/// The request frame for `opcode` and `payload`.
pub open spec fn pic_frame_spec(opcode: u8, payload: Seq<u8>) -> Seq<u8> {
    let length = pic_length_byte(payload.len());
    seq![PREAMBLE_0, PREAMBLE_1, length, opcode] + payload + seq![
        ((length as int + opcode as int + sum_bytes(payload)) % 256) as u8,
    ]
}

/// Builds the request frame `[0x55, 0xAA, length, opcode, payload..., crc]`.
pub fn pic_frame(opcode: u8, payload: &[u8]) -> (frame: Vec<u8>)
    requires
        sum_bytes(payload@) + 510 <= u32::MAX,
    ensures
        frame@ == pic_frame_spec(opcode, payload@),
{
    let length = ((payload.len() % 256 + 3) % 256) as u8;
    let mut frame: Vec<u8> = Vec::new();
    frame.push(PREAMBLE_0);
    frame.push(PREAMBLE_1);
    frame.push(length);
    frame.push(opcode);
    let mut sum: u32 = 0;
    let mut i: usize = 0;
    while i < payload.len()
        invariant
            i <= payload@.len(),
            sum_bytes(payload@) + 510 <= u32::MAX,
            sum == sum_bytes(payload@.take(i as int)),
            frame@ == seq![PREAMBLE_0, PREAMBLE_1, length, opcode] + payload@.take(i as int),
        decreases payload@.len() - i,
    {
        proof {
            assert(payload@.take(i + 1).drop_last() =~= payload@.take(i as int));
            lemma_sum_bytes_prefix(payload@, i + 1);
        }
        frame.push(payload[i]);
        sum = sum + payload[i] as u32;
        i = i + 1;
        proof {
            assert(payload@.take(i as int) =~= payload@.take(i - 1).push(payload@[i - 1]));
        }
    }
    proof {
        assert(payload@.take(i as int) =~= payload@);
    }
    let total: u32 = length as u32 + opcode as u32 + sum;
    frame.push((total % 256) as u8);
    proof {
        assert(frame@ =~= pic_frame_spec(opcode, payload@));
    }
    frame
}

/// `resp` is exactly the two bytes `a, b`.
pub open spec fn is_pair(resp: Seq<u8>, a: u8, b: u8) -> bool {
    resp.len() == 2 && resp[0] == a && resp[1] == b
}

/// The error for an unexpected reply to `opcode`.
pub open spec fn is_unexpected(e: PicError, addr: u16, opcode: u8, resp: Seq<u8>) -> bool {
    e matches PicError::UnexpectedResponse { addr: a, opcode: o, raw } && a == addr && o == opcode
        && raw@ == resp
}

/// Checks a two-byte acknowledgement `[a, b]` to `opcode`.
fn expect_pair(addr: u16, opcode: u8, resp: Vec<u8>, a: u8, b: u8) -> (r: Result<(), PicError>)
    ensures
        r is Ok <==> is_pair(resp@, a, b),
        r matches Err(e) ==> is_unexpected(e, addr, opcode, resp@),
{
    if resp.len() == 2 && resp[0] == a && resp[1] == b {
        Ok(())
    } else {
        Err(PicError::UnexpectedResponse { addr, opcode, raw: resp })
    }
}

/// The reply to a reset must be `[0x07, 0x01]`.
pub fn reset_reply(addr: u16, resp: Vec<u8>) -> (r: Result<(), PicError>)
    ensures
        r is Ok <==> is_pair(resp@, 0x07, 0x01),
        r matches Err(e) ==> is_unexpected(e, addr, OP_RESET, resp@),
{
    expect_pair(addr, OP_RESET, resp, 0x07, 0x01)
}

/// The reply to an application start must be `[0x06, 0x01]`.
pub fn start_app_reply(addr: u16, resp: Vec<u8>) -> (r: Result<(), PicError>)
    ensures
        r is Ok <==> is_pair(resp@, 0x06, 0x01),
        r matches Err(e) ==> is_unexpected(e, addr, OP_START_APP, resp@),
{
    expect_pair(addr, OP_START_APP, resp, 0x06, 0x01)
}

/// The reply to a DC-DC switch must be `[0x15, 0x01]`.
pub fn set_dc_dc_reply(addr: u16, resp: Vec<u8>) -> (r: Result<(), PicError>)
    ensures
        r is Ok <==> is_pair(resp@, 0x15, 0x01),
        r matches Err(e) ==> is_unexpected(e, addr, OP_SET_DC_DC, resp@),
{
    expect_pair(addr, OP_SET_DC_DC, resp, 0x15, 0x01)
}

/// The payload that switches the DC-DC regulators on or off.
pub fn set_dc_dc_payload(enable: bool) -> (p: [u8; 2])
    ensures
        p@ == seq![if enable { 0x01u8 } else { 0x00u8 }, 0x00u8],
{
    let p = [if enable {
        0x01
    } else {
        0x00
    }, 0x00];
    assert(p@ =~= seq![if enable { 0x01u8 } else { 0x00u8 }, 0x00u8]);
    p
}

/// The firmware version from the reply `[0x05, 0x17, version, _, crc]`.
pub fn sw_version_reply(addr: u16, resp: Vec<u8>) -> (r: Result<u8, PicError>)
    ensures
        r is Ok <==> (resp@.len() == 5 && resp@[0] == 0x05 && resp@[1] == 0x17),
        r matches Ok(v) ==> v == resp@[2],
        r matches Err(e) ==> is_unexpected(e, addr, OP_VERSION, resp@),
{
    if resp.len() == 5 && resp[0] == 0x05 && resp[1] == 0x17 {
        Ok(resp[2])
    } else {
        Err(PicError::UnexpectedResponse { addr, opcode: OP_VERSION, raw: resp })
    }
}

/// A heartbeat is answered `[0x06, 0x16, 0x01, 0x00, 0x00, crc]`; the
/// length and bytes 1 and 2 are checked.
pub fn heartbeat_reply(addr: u16, resp: Vec<u8>) -> (r: Result<(), PicError>)
    ensures
        r is Ok <==> (resp@.len() == 6 && resp@[1] == 0x16 && resp@[2] == 0x01),
        r matches Err(e) ==> is_unexpected(e, addr, OP_HEARTBEAT, resp@),
{
    if resp.len() == 6 && resp[1] == 0x16 && resp[2] == 0x01 {
        Ok(())
    } else {
        Err(PicError::UnexpectedResponse { addr, opcode: OP_HEARTBEAT, raw: resp })
    }
}

/// The payload that reads the 16-bit register `reg`.
pub fn read_reg_payload(reg: u8) -> (p: [u8; 3])
    ensures
        p@ == seq![reg, 0x02u8, 0x00u8],
{
    let p = [reg, 0x02, 0x00];
    assert(p@ =~= seq![reg, 0x02u8, 0x00u8]);
    p
}

/// The register value from the reply `[0x07, 0x3c, 0x01, lo, hi, 0x00, crc]`;
/// the length and bytes 1 and 2 are checked.
pub fn read_reg_reply(addr: u16, resp: Vec<u8>) -> (r: Result<u16, PicError>)
    ensures
        r is Ok <==> (resp@.len() == 7 && resp@[1] == OP_READ_REG && resp@[2] == 0x01),
        r matches Ok(v) ==> v == le_u16_spec(resp@[3], resp@[4]),
        r matches Err(e) ==> is_unexpected(e, addr, OP_READ_REG, resp@),
{
    if resp.len() == 7 && resp[1] == OP_READ_REG && resp[2] == 0x01 {
        Ok(le_u16(resp[3], resp[4]))
    } else {
        Err(PicError::UnexpectedResponse { addr, opcode: OP_READ_REG, raw: resp })
    }
}

/// Whole degrees Celsius of a temperature register: its low byte.
pub fn temperature_register_degrees(raw: u16) -> (deg: u8)
    ensures
        deg == raw % 256,
{
    (raw % 256) as u8
}

} // verus!
