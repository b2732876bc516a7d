//! Sysfs PWM channels (`/sys/class/pwm`): paths, duty-cycle arithmetic and
//! the reading of a channel's state.

use vstd::prelude::*;

use crate::text::{decimal_spec, parse_uint, parse_uint_spec, push_decimal, str_eq, string_from, trim_spec, trimmed};

verus! {

/// The sysfs directory of PWM chip `chip`.
pub open spec fn pwm_chip_root_spec(chip: u32) -> Seq<char> {
    "/sys/class/pwm/pwmchip"@ + decimal_spec(chip as nat)
}

/// The sysfs directory of channel `channel` of PWM chip `chip`.
pub open spec fn pwm_root_spec(chip: u32, channel: u32) -> Seq<char> {
    pwm_chip_root_spec(chip) + "/pwm"@ + decimal_spec(channel as nat)
}

/// One PWM channel driven through sysfs.
#[derive(Debug, Clone)]
pub struct SysfsPwm {
    chip: u32,
    channel: u32,
    chip_root: String,
    pwm_root: String,
}

impl View for SysfsPwm {
    type V = (u32, u32, Seq<char>, Seq<char>);

    /// Chip, channel, chip directory and channel directory.
    closed spec fn view(&self) -> (u32, u32, Seq<char>, Seq<char>) {
        (self.chip, self.channel, self.chip_root@, self.pwm_root@)
    }
}

impl SysfsPwm {
    pub fn new(chip: u32, channel: u32) -> (p: Self)
        ensures
            p@ == (chip, channel, pwm_chip_root_spec(chip), pwm_root_spec(chip, channel)),
    {
        let mut chip_root = string_from("/sys/class/pwm/pwmchip");
        push_decimal(&mut chip_root, chip as u64);
        let mut pwm_root = chip_root.clone();
        pwm_root.append("/pwm");
        push_decimal(&mut pwm_root, channel as u64);
        SysfsPwm { chip, channel, chip_root, pwm_root }
    }

    pub fn chip(&self) -> (c: u32)
        ensures
            c == self@.0,
    {
        self.chip
    }

    pub fn channel(&self) -> (c: u32)
        ensures
            c == self@.1,
    {
        self.channel
    }

    /// The path of attribute `name` (such as `export`) of the chip.
    pub fn chip_attribute_path(&self, name: &str) -> (p: String)
        ensures
            p@ == self@.2 + "/"@ + name@,
    {
        let mut p = self.chip_root.clone();
        p.append("/");
        p.append(name);
        p
    }

    /// The path of attribute `name` (such as `period`) of the channel.
    pub fn attribute_path(&self, name: &str) -> (p: String)
        ensures
            p@ == self@.3 + "/"@ + name@,
    {
        let mut p = self.pwm_root.clone();
        p.append("/");
        p.append(name);
        p
    }

    /// The channel directory.
    pub fn pwm_root(&self) -> (r: &str)
        ensures
            r@ == self@.3,
    {
        self.pwm_root.as_str()
    }
}

/// The high time, in nanoseconds, of `percent` (capped at 100) of a period.
pub open spec fn duty_ns_spec(period_ns: u32, percent: u8) -> int {
    let p = if percent > 100 {
        100
    } else {
        percent as int
    };
    (period_ns as int * p) / 100
}

/// The duty-cycle register value for `percent` of `period_ns`; percentages
/// above 100 count as 100.
pub fn duty_ns(period_ns: u32, percent: u8) -> (d: u32)
    ensures
        d as int == duty_ns_spec(period_ns, percent),
        d <= period_ns,
{
    let percent = if percent > 100 {
        100
    } else {
        percent
    };
    assert((period_ns as u64) * (percent as u64) <= 0xFFFF_FFFFu64 * 100) by (nonlinear_arith)
        requires
            percent <= 100,
    ;
    let prod = (period_ns as u64) * (percent as u64);
    assert(prod / 100 <= period_ns) by (nonlinear_arith)
        requires
            prod == (period_ns as u64) * (percent as u64),
            percent <= 100,
    ;
    (prod / 100) as u32
}

/// A number read from a sysfs attribute: the trimmed text as a decimal
/// `u32`, or 0 when it is not one.
pub open spec fn sysfs_u32_spec(text: Seq<char>) -> u32 {
    match parse_uint_spec(trim_spec(text), 10, u32::MAX as nat) {
        Ok(v) => v as u32,
        Err(_) => 0,
    }
}

/// Reads a decimal attribute value, 0 when the text is not a `u32`.
pub fn parse_sysfs_u32(text: &str) -> (v: u32)
    ensures
        v == sysfs_u32_spec(text@),
{
    let t = trimmed(text);
    match parse_uint(t.as_str(), 10, 0xFFFF_FFFF) {
        Ok(v) => v as u32,
        Err(_) => 0,
    }
}

/// A channel's configuration as sysfs reports it.
#[derive(Debug, Clone)]
pub struct PwmState {
    pub chip: u32,
    pub channel: u32,
    pub period_ns: u32,
    pub duty_cycle_ns: u32,
    pub enabled: bool,
    pub polarity: String,
}

impl PwmState {
    /// The state from the text of the `period`, `duty_cycle`, `enable` and
    /// `polarity` attributes.
    pub fn from_attributes(
        chip: u32,
        channel: u32,
        period: &str,
        duty_cycle: &str,
        enable: &str,
        polarity: &str,
    ) -> (s: PwmState)
        ensures
            s.chip == chip,
            s.channel == channel,
            s.period_ns == sysfs_u32_spec(period@),
            s.duty_cycle_ns == sysfs_u32_spec(duty_cycle@),
            s.enabled == (trim_spec(enable@) == "1"@),
            s.polarity@ == trim_spec(polarity@),
    {
        let enable_text = trimmed(enable);
        PwmState {
            chip,
            channel,
            period_ns: parse_sysfs_u32(period),
            duty_cycle_ns: parse_sysfs_u32(duty_cycle),
            enabled: str_eq(enable_text.as_str(), "1"),
            polarity: trimmed(polarity),
        }
    }
}

} // verus!
