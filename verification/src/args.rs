//! Numbers given on the command lines of the tools: bytes and addresses
//! in hex (after `0x`/`0X`) or decimal, and plain decimal counts.

use vstd::prelude::*;

use crate::text::{
    int_error_message, int_error_text, parse_prefixed, parse_prefixed_spec, parse_uint,
    parse_uint_spec, result_view,
};

verus! {

/// A byte written in hex after `0x`/`0X`, otherwise in decimal; a failure
/// reads as the integer parser's message.
pub open spec fn u8_arg_spec(s: Seq<char>) -> Result<u8, Seq<char>> {
    match parse_prefixed_spec(s, 255) {
        Ok(v) => Ok(v as u8),
        Err(k) => Err(int_error_text(k)),
    }
}

/// A 16-bit value written as `u8_arg_spec` writes a byte.
pub open spec fn u16_arg_spec(s: Seq<char>) -> Result<u16, Seq<char>> {
    match parse_prefixed_spec(s, 65535) {
        Ok(v) => Ok(v as u16),
        Err(k) => Err(int_error_text(k)),
    }
}

/// A decimal value of at most `max`.
pub open spec fn decimal_arg_spec(s: Seq<char>, max: nat) -> Result<nat, Seq<char>> {
    match parse_uint_spec(s, 10, max) {
        Ok(v) => Ok(v),
        Err(k) => Err(int_error_text(k)),
    }
}

pub proof fn lemma_prefixed_bound(s: Seq<char>, max: nat)
    ensures
        parse_prefixed_spec(s, max) matches Ok(v) ==> v <= max,
        parse_uint_spec(s, 10, max) matches Ok(v) ==> v <= max,
        parse_uint_spec(s, 16, max) matches Ok(v) ==> v <= max,
{
}

/// Parses a byte argument.
pub fn parse_u8(value: &str) -> (r: Result<u8, String>)
    ensures
        result_view(r) == u8_arg_spec(value@),
{
    proof {
        lemma_prefixed_bound(value@, 255);
        lemma_prefixed_bound(value@.skip(2), 255);
    }
    match parse_prefixed(value, 255) {
        Ok(v) => Ok(v as u8),
        Err(k) => Err(int_error_message(k)),
    }
}

/// Parses a 16-bit argument.
pub fn parse_u16(value: &str) -> (r: Result<u16, String>)
    ensures
        result_view(r) == u16_arg_spec(value@),
{
    proof {
        lemma_prefixed_bound(value@, 65535);
        lemma_prefixed_bound(value@.skip(2), 65535);
    }
    match parse_prefixed(value, 65535) {
        Ok(v) => Ok(v as u16),
        Err(k) => Err(int_error_message(k)),
    }
}

/// Parses a decimal argument of at most `max`.
pub fn parse_decimal(value: &str, max: u64) -> (r: Result<u64, String>)
    ensures
        r matches Ok(v) ==> v <= max && decimal_arg_spec(value@, max as nat) == Ok::<nat, Seq<char>>(
            v as nat,
        ),
        r matches Err(e) ==> decimal_arg_spec(value@, max as nat) == Err::<nat, Seq<char>>(e@),
{
    proof {
        lemma_prefixed_bound(value@, max as nat);
    }
    match parse_uint(value, 10, max) {
        Ok(v) => Ok(v),
        Err(k) => Err(int_error_message(k)),
    }
}

} // verus!
