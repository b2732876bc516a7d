//! The fan tool: its command line and the PWM channels and tachometer
//! inputs that each target stands for.

use vstd::prelude::*;

use crate::args::{decimal_arg_spec, parse_decimal};
use crate::text::{
    arg_views, ascii_lower_spec, ascii_lowercase, concat, concat_decimal, decimal_spec,
    help_word, is_help_word, result_view, str_eq, string_from,
};

verus! {

pub const FAN_PWM_CHIP: u32 = 0;
/// 100 kHz.
pub const FAN_PWM_PERIOD_NS: u32 = 10_000;
pub const FAN_TACH_PULSES_PER_REV: u32 = 2;
pub const DEFAULT_MEASURE_MILLIS: u64 = 1_000;
/// The fan PWM channels of pwmchip0.
pub const PWM_CHANNELS: [u32; 2] = [0, 1];
/// Tachometer GPIO of each fan.
pub const FAN_GPIO_MAP: [u32; 4] = [447, 448, 449, 450];

/// Which PWM outputs a command drives.
#[derive(Debug, Clone, Copy, PartialEq, Eq, Structural)]
pub enum PwmTarget {
    All,
    Channel(u32),
}

/// Which fans a command reads.
#[derive(Debug, Clone, Copy, PartialEq, Eq, Structural)]
pub enum FanTarget {
    All,
    Fan(usize),
}

/// What the fan tool was asked to do.
#[derive(Debug, Clone, Copy, PartialEq, Eq, Structural)]
pub enum Command {
    Help,
    GetPwm,
    SetPercent(u8),
    SetPwm { target: PwmTarget, percent: u8 },
    ReadRpm { target: FanTarget, duration_ms: u64 },
}

/// `s` is `all` in any case.
pub open spec fn is_all(s: Seq<char>) -> bool {
    s.map_values(|c: char| ascii_lower_spec(c)) == "all"@
}

fn all_word(s: &str) -> (b: bool)
    ensures
        b == is_all(s@),
{
    let lower = ascii_lowercase(s);
    str_eq(lower.as_str(), "all")
}

/// A PWM target: `all`, or channel 0 or 1 in decimal.
pub open spec fn pwm_target_spec(s: Seq<char>) -> Result<PwmTarget, Seq<char>> {
    if is_all(s) {
        Ok(PwmTarget::All)
    } else {
        match decimal_arg_spec(s, u32::MAX as nat) {
            Err(e) => Err(e),
            Ok(c) => if c == 0 || c == 1 {
                Ok(PwmTarget::Channel(c as u32))
            } else {
                Err("unsupported pwm channel: "@ + decimal_spec(c))
            },
        }
    }
}

/// A fan target: `all`, or a fan index 0..=3 in decimal.
pub open spec fn fan_target_spec(s: Seq<char>) -> Result<FanTarget, Seq<char>> {
    if is_all(s) {
        Ok(FanTarget::All)
    } else {
        match decimal_arg_spec(s, usize::MAX as nat) {
            Err(e) => Err(e),
            Ok(i) => if i < 4 {
                Ok(FanTarget::Fan(i as usize))
            } else {
                Err("unsupported fan index: "@ + decimal_spec(i))
            },
        }
    }
}

/// A duty cycle in percent, 0..=100.
pub open spec fn percent_spec(s: Seq<char>) -> Result<u8, Seq<char>> {
    match decimal_arg_spec(s, 255) {
        Err(e) => Err(e),
        Ok(p) => if p > 100 {
            Err("percent must be in 0..=100"@)
        } else {
            Ok(p as u8)
        },
    }
}

pub fn parse_pwm_target(value: &str) -> (r: Result<PwmTarget, String>)
    ensures
        result_view(r) == pwm_target_spec(value@),
{
    if all_word(value) {
        return Ok(PwmTarget::All);
    }
    let channel = match parse_decimal(value, u32::MAX as u64) {
        Ok(v) => v,
        Err(e) => return Err(e),
    };
    if channel == 0 || channel == 1 {
        Ok(PwmTarget::Channel(channel as u32))
    } else {
        Err(concat_decimal("unsupported pwm channel: ", channel))
    }
}

pub fn parse_fan_target(value: &str) -> (r: Result<FanTarget, String>)
    ensures
        result_view(r) == fan_target_spec(value@),
{
    if all_word(value) {
        return Ok(FanTarget::All);
    }
    let index = match parse_decimal(value, usize::MAX as u64) {
        Ok(v) => v,
        Err(e) => return Err(e),
    };
    if index < 4 {
        Ok(FanTarget::Fan(index as usize))
    } else {
        Err(concat_decimal("unsupported fan index: ", index))
    }
}

pub fn parse_percent(value: &str) -> (r: Result<u8, String>)
    ensures
        result_view(r) == percent_spec(value@),
{
    let percent = match parse_decimal(value, 255) {
        Ok(v) => v,
        Err(e) => return Err(e),
    };
    if percent > 100 {
        Err(string_from("percent must be in 0..=100"))
    } else {
        Ok(percent as u8)
    }
}

/// The command a list of arguments asks for.
pub open spec fn command_spec(args: Seq<Seq<char>>) -> Result<Command, Seq<char>> {
    if args.len() == 0 || is_help_word(args[0]) {
        Ok(Command::Help)
    } else if args[0] == "get-pwm"@ {
        Ok(Command::GetPwm)
    } else if args[0] == "set-percent"@ {
        if args.len() < 2 {
            Err("missing percent"@)
        } else {
            match percent_spec(args[1]) {
                Err(e) => Err(e),
                Ok(p) => Ok(Command::SetPercent(p)),
            }
        }
    } else if args[0] == "set-pwm"@ {
        if args.len() < 2 {
            Err("missing pwm target"@)
        } else {
            match pwm_target_spec(args[1]) {
                Err(e) => Err(e),
                Ok(target) => if args.len() < 3 {
                    Err("missing percent"@)
                } else {
                    match percent_spec(args[2]) {
                        Err(e) => Err(e),
                        Ok(percent) => Ok(Command::SetPwm { target, percent }),
                    }
                },
            }
        }
    } else if args[0] == "read-rpm"@ {
        let target = if args.len() < 2 {
            Ok(FanTarget::All)
        } else {
            fan_target_spec(args[1])
        };
        match target {
            Err(e) => Err(e),
            Ok(target) => {
                let duration = if args.len() < 3 {
                    Ok(DEFAULT_MEASURE_MILLIS as nat)
                } else {
                    decimal_arg_spec(args[2], u64::MAX as nat)
                };
                match duration {
                    Err(e) => Err(e),
                    Ok(d) => Ok(Command::ReadRpm { target, duration_ms: d as u64 }),
                }
            },
        }
    } else {
        Err("unknown command: "@ + args[0])
    }
}

/// Reads the fan tool's command line (without the program name).
pub fn parse_args(args: Vec<String>) -> (r: Result<Command, String>)
    ensures
        result_view(r) == command_spec(arg_views(args@)),
{
    if args.len() == 0 {
        return Ok(Command::Help);
    }
    let first = args[0].as_str();
    if help_word(first) {
        Ok(Command::Help)
    } else if str_eq(first, "get-pwm") {
        Ok(Command::GetPwm)
    } else if str_eq(first, "set-percent") {
        if args.len() < 2 {
            return Err(string_from("missing percent"));
        }
        match parse_percent(args[1].as_str()) {
            Ok(p) => Ok(Command::SetPercent(p)),
            Err(e) => Err(e),
        }
    } else if str_eq(first, "set-pwm") {
        if args.len() < 2 {
            return Err(string_from("missing pwm target"));
        }
        let target = match parse_pwm_target(args[1].as_str()) {
            Ok(t) => t,
            Err(e) => return Err(e),
        };
        if args.len() < 3 {
            return Err(string_from("missing percent"));
        }
        match parse_percent(args[2].as_str()) {
            Ok(percent) => Ok(Command::SetPwm { target, percent }),
            Err(e) => Err(e),
        }
    } else if str_eq(first, "read-rpm") {
        let target = if args.len() < 2 {
            FanTarget::All
        } else {
            match parse_fan_target(args[1].as_str()) {
                Ok(t) => t,
                Err(e) => return Err(e),
            }
        };
        let duration_ms = if args.len() < 3 {
            DEFAULT_MEASURE_MILLIS
        } else {
            match parse_decimal(args[2].as_str(), u64::MAX) {
                Ok(d) => d,
                Err(e) => return Err(e),
            }
        };
        Ok(Command::ReadRpm { target, duration_ms })
    } else {
        Err(concat("unknown command: ", first))
    }
}

/// The PWM channels a target drives.
pub open spec fn pwm_channels_spec(target: PwmTarget) -> Seq<u32> {
    match target {
        PwmTarget::All => seq![0u32, 1u32],
        PwmTarget::Channel(c) => seq![c],
    }
}

pub fn pwm_channels(target: PwmTarget) -> (v: Vec<u32>)
    ensures
        v@ == pwm_channels_spec(target),
{
    let mut v = Vec::new();
    match target {
        PwmTarget::All => {
            v.push(PWM_CHANNELS[0]);
            v.push(PWM_CHANNELS[1]);
        },
        PwmTarget::Channel(c) => {
            v.push(c);
        },
    }
    proof {
        assert(v@ =~= pwm_channels_spec(target));
    }
    v
}

/// The fans a target reads, each with its index and tachometer GPIO.
pub open spec fn fans_spec(target: FanTarget) -> Seq<(usize, u32)> {
    match target {
        FanTarget::All => seq![(0usize, 447u32), (1usize, 448u32), (2usize, 449u32), (3usize, 450u32)],
        FanTarget::Fan(i) => seq![(i, (447 + i) as u32)],
    }
}

pub fn fans(target: FanTarget) -> (v: Vec<(usize, u32)>)
    requires
        target matches FanTarget::Fan(i) ==> i < 4,
    ensures
        v@ == fans_spec(target),
{
    let mut v = Vec::new();
    match target {
        FanTarget::All => {
            let mut i: usize = 0;
            while i < 4
                invariant
                    i <= 4,
                    v@ == fans_spec(FanTarget::All).take(i as int),
                decreases 4 - i,
            {
                v.push((i, FAN_GPIO_MAP[i]));
                i = i + 1;
                proof {
                    assert(v@ =~= fans_spec(FanTarget::All).take(i as int));
                }
            }
            proof {
                assert(fans_spec(FanTarget::All).take(4) =~= fans_spec(FanTarget::All));
            }
        },
        FanTarget::Fan(i) => {
            v.push((i, FAN_GPIO_MAP[i]));
            proof {
                assert(v@ =~= fans_spec(target));
            }
        },
    }
    v
}

} // verus!
