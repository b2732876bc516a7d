//! Serial-port settings of the hashboard UART links.

use vstd::prelude::*;

verus! {

/// The baud rates the ports can be set to.
pub open spec fn supported_baud_spec(baud: u32) -> bool {
    baud == 115200 || baud == 57600 || baud == 38400 || baud == 19200 || baud == 9600
}

/// Whether `baud` is one of 115200, 57600, 38400, 19200 or 9600.
pub fn supported_baud(baud: u32) -> (ok: bool)
    ensures
        ok == supported_baud_spec(baud),
{
    baud == 115200 || baud == 57600 || baud == 38400 || baud == 19200 || baud == 9600
}

/// The read timeout in tenths of a second: `timeout_ms` rounded up to a
/// tenth, at least 1 and at most 255.
pub fn timeout_deciseconds(timeout_ms: u32) -> (d: u8)
    ensures
        d as int == (if timeout_ms == 0 {
            1
        } else if (timeout_ms + 99) / 100 > 255 {
            255
        } else {
            (timeout_ms + 99) / 100
        }),
{
    let tenths = timeout_ms / 100 + if timeout_ms % 100 != 0 {
        1
    } else {
        0
    };
    if tenths < 1 {
        1
    } else if tenths > 255 {
        255
    } else {
        tenths as u8
    }
}

} // verus!
