//! Fan tachometer inputs read through sysfs GPIO edges.

use vstd::prelude::*;

use crate::gpio::gpio_root_spec;
use crate::text::{push_decimal, string_from};

verus! {

/// A tachometer input on a sysfs GPIO.
#[derive(Debug, Clone)]
pub struct SysfsTachometer {
    gpio: u32,
    gpio_root: String,
}

impl View for SysfsTachometer {
    type V = (u32, Seq<char>);

    /// The GPIO number and its sysfs directory.
    closed spec fn view(&self) -> (u32, Seq<char>) {
        (self.gpio, self.gpio_root@)
    }
}

impl SysfsTachometer {
    pub fn new(gpio: u32) -> (t: Self)
        ensures
            t@ == (gpio, gpio_root_spec(gpio)),
    {
        let mut gpio_root = string_from("/sys/class/gpio/gpio");
        push_decimal(&mut gpio_root, gpio as u64);
        SysfsTachometer { gpio, gpio_root }
    }

    pub fn gpio(&self) -> (g: u32)
        ensures
            g == self@.0,
    {
        self.gpio
    }

    /// The path of attribute `name` (such as `edge` or `value`) of the input.
    pub fn attribute_path(&self, name: &str) -> (p: String)
        ensures
            p@ == self@.1 + "/"@ + name@,
    {
        let mut p = self.gpio_root.clone();
        p.append("/");
        p.append(name);
        p
    }
}

/// Pulses counted in a measurement window and the speed derived from them.
#[derive(Debug, Clone, Copy, PartialEq, Eq, Structural)]
pub struct TachReading {
    pub pulses: u32,
    pub rpm: u32,
}

/// The `poll` timeout for the time left in a measurement window: the
/// remaining milliseconds, at least 1 and at most `i32::MAX`.
pub fn poll_timeout_ms(remaining_ms: u128) -> (t: i32)
    ensures
        t as int == (if remaining_ms < 1 {
            1
        } else if remaining_ms > i32::MAX {
            i32::MAX as int
        } else {
            remaining_ms as int
        }),
{
    if remaining_ms < 1 {
        1
    } else if remaining_ms > 0x7FFF_FFFF {
        0x7FFF_FFFF
    } else {
        remaining_ms as i32
    }
}

} // verus!
