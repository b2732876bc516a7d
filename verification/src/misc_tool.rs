//! The control-board LED and button tool: its command line, the LEDs each
//! target stands for, and the level a toggle drives.

use vstd::prelude::*;

use crate::text::{
    arg_views, ascii_lower_spec, ascii_lowercase, concat, help_word, is_help_word, result_view,
    str_eq, string_from,
};

verus! {

pub const GREEN_LED_GPIO: u32 = 453;
pub const RED_LED_GPIO: u32 = 438;
pub const IP_REPORT_BUTTON_GPIO: u32 = 445;

/// An LED: its name and GPIO.
#[derive(Debug, Clone, Copy)]
pub struct LedConfig {
    pub name: &'static str,
    pub gpio: u32,
}

/// Which LEDs a command acts on.
#[derive(Debug, Clone, Copy, PartialEq, Eq, Structural)]
pub enum LedTarget {
    Green,
    Red,
    All,
}

/// A GPIO output level.
#[derive(Debug, Clone, Copy, PartialEq, Eq, Structural)]
pub enum OutputLevel {
    Low,
    High,
}

impl OutputLevel {
    /// `low` or `high`.
    pub fn as_str(self) -> (s: &'static str)
        ensures
            self == OutputLevel::Low ==> s@ == "low"@,
            self == OutputLevel::High ==> s@ == "high"@,
    {
        match self {
            OutputLevel::Low => "low",
            OutputLevel::High => "high",
        }
    }
}

/// What the LED tool was asked to do.
#[derive(Debug, Clone, Copy, PartialEq, Eq, Structural)]
pub enum Command {
    Help,
    Status,
    SetLevel { target: LedTarget, level: OutputLevel },
    Toggle { target: LedTarget },
}

/// The LEDs of a target, by name and GPIO: green is GPIO 453, red 438.
pub open spec fn target_leds_spec(target: LedTarget) -> Seq<(Seq<char>, u32)> {
    match target {
        LedTarget::Green => seq![("green"@, GREEN_LED_GPIO)],
        LedTarget::Red => seq![("red"@, RED_LED_GPIO)],
        LedTarget::All => seq![("green"@, GREEN_LED_GPIO), ("red"@, RED_LED_GPIO)],
    }
}

/// The LEDs as plain values.
pub open spec fn led_views(leds: Seq<LedConfig>) -> Seq<(Seq<char>, u32)> {
    leds.map_values(|l: LedConfig| (l.name@, l.gpio))
}

pub fn target_leds(target: LedTarget) -> (leds: Vec<LedConfig>)
    ensures
        led_views(leds@) == target_leds_spec(target),
{
    let green = LedConfig { name: "green", gpio: GREEN_LED_GPIO };
    let red = LedConfig { name: "red", gpio: RED_LED_GPIO };
    let mut leds = Vec::new();
    match target {
        LedTarget::Green => leds.push(green),
        LedTarget::Red => leds.push(red),
        LedTarget::All => {
            leds.push(green);
            leds.push(red);
        },
    }
    proof {
        assert(led_views(leds@) =~= target_leds_spec(target));
    }
    leds
}

/// The LEDs of a target are those its word names: `green` gives just the
/// LED named green, on GPIO 453; `red` just the one named red, on GPIO 438;
/// `all` both, green first. Every LED's name, read back as a target word,
/// gives a target whose LEDs include it.
pub proof fn lemma_target_leds(t: LedTarget)
    ensures
        t == LedTarget::Green ==> target_leds_spec(t) == seq![("green"@, 453u32)],
        t == LedTarget::Red ==> target_leds_spec(t) == seq![("red"@, 438u32)],
        t == LedTarget::All ==> target_leds_spec(t) == target_leds_spec(LedTarget::Green)
            + target_leds_spec(LedTarget::Red),
        t != LedTarget::All ==> target_leds_spec(t).len() == 1 && target_spec(
            target_leds_spec(t)[0].0,
        ) == Ok::<LedTarget, Seq<char>>(t),
{
    reveal_strlit("green");
    reveal_strlit("red");
    assert(lower("green"@) =~= "green"@);
    assert(lower("red"@) =~= "red"@);
    assert(target_leds_spec(LedTarget::All) =~= target_leds_spec(LedTarget::Green)
        + target_leds_spec(LedTarget::Red));
}

/// `s` in ASCII lower case.
pub open spec fn lower(s: Seq<char>) -> Seq<char> {
    s.map_values(|c: char| ascii_lower_spec(c))
}

/// An LED target, in any case.
pub open spec fn target_spec(s: Seq<char>) -> Result<LedTarget, Seq<char>> {
    if lower(s) == "green"@ {
        Ok(LedTarget::Green)
    } else if lower(s) == "red"@ {
        Ok(LedTarget::Red)
    } else if lower(s) == "all"@ {
        Ok(LedTarget::All)
    } else {
        Err("unsupported LED target: "@ + s)
    }
}

/// An output level, in any case: `0`, `low`, `off` or `1`, `high`, `on`.
pub open spec fn level_spec(s: Seq<char>) -> Result<OutputLevel, Seq<char>> {
    let l = lower(s);
    if l == "0"@ || l == "low"@ || l == "off"@ {
        Ok(OutputLevel::Low)
    } else if l == "1"@ || l == "high"@ || l == "on"@ {
        Ok(OutputLevel::High)
    } else {
        Err("unsupported output level: "@ + s)
    }
}

pub fn parse_target(value: &str) -> (r: Result<LedTarget, String>)
    ensures
        result_view(r) == target_spec(value@),
{
    let l = ascii_lowercase(value);
    if str_eq(l.as_str(), "green") {
        Ok(LedTarget::Green)
    } else if str_eq(l.as_str(), "red") {
        Ok(LedTarget::Red)
    } else if str_eq(l.as_str(), "all") {
        Ok(LedTarget::All)
    } else {
        Err(concat("unsupported LED target: ", value))
    }
}

pub fn parse_level(value: &str) -> (r: Result<OutputLevel, String>)
    ensures
        result_view(r) == level_spec(value@),
{
    let l = ascii_lowercase(value);
    let s = l.as_str();
    if str_eq(s, "0") || str_eq(s, "low") || str_eq(s, "off") {
        Ok(OutputLevel::Low)
    } else if str_eq(s, "1") || str_eq(s, "high") || str_eq(s, "on") {
        Ok(OutputLevel::High)
    } else {
        Err(concat("unsupported output level: ", value))
    }
}

/// The command a list of arguments asks for.
pub open spec fn command_spec(args: Seq<Seq<char>>) -> Result<Command, Seq<char>> {
    if args.len() == 0 || is_help_word(args[0]) {
        Ok(Command::Help)
    } else if args[0] == "status"@ {
        Ok(Command::Status)
    } else if args[0] == "set"@ {
        if args.len() < 2 {
            Err("missing LED target"@)
        } else {
            match target_spec(args[1]) {
                Err(e) => Err(e),
                Ok(target) => if args.len() < 3 {
                    Err("missing output level"@)
                } else {
                    match level_spec(args[2]) {
                        Err(e) => Err(e),
                        Ok(level) => Ok(Command::SetLevel { target, level }),
                    }
                },
            }
        }
    } else if args[0] == "toggle"@ {
        if args.len() < 2 {
            Ok(Command::Toggle { target: LedTarget::All })
        } else {
            match target_spec(args[1]) {
                Err(e) => Err(e),
                Ok(target) => Ok(Command::Toggle { target }),
            }
        }
    } else {
        Err("unknown command: "@ + args[0])
    }
}

/// Reads the LED tool's command line (without the program name).
pub fn parse_args(args: Vec<String>) -> (r: Result<Command, String>)
    ensures
        result_view(r) == command_spec(arg_views(args@)),
{
    if args.len() == 0 {
        return Ok(Command::Help);
    }
    let first = args[0].as_str();
    if help_word(first) {
        Ok(Command::Help)
    } else if str_eq(first, "status") {
        Ok(Command::Status)
    } else if str_eq(first, "set") {
        if args.len() < 2 {
            return Err(string_from("missing LED target"));
        }
        let target = match parse_target(args[1].as_str()) {
            Ok(t) => t,
            Err(e) => return Err(e),
        };
        if args.len() < 3 {
            return Err(string_from("missing output level"));
        }
        match parse_level(args[2].as_str()) {
            Ok(level) => Ok(Command::SetLevel { target, level }),
            Err(e) => Err(e),
        }
    } else if str_eq(first, "toggle") {
        if args.len() < 2 {
            return Ok(Command::Toggle { target: LedTarget::All });
        }
        match parse_target(args[1].as_str()) {
            Ok(target) => Ok(Command::Toggle { target }),
            Err(e) => Err(e),
        }
    } else {
        Err(concat("unknown command: ", first))
    }
}

/// The level a toggle drives: high when the LED reads low, low otherwise.
pub fn toggled_level(value: u8) -> (level: OutputLevel)
    ensures
        value == 0 ==> level == OutputLevel::High,
        value != 0 ==> level == OutputLevel::Low,
{
    if value == 0 {
        OutputLevel::High
    } else {
        OutputLevel::Low
    }
}

/// How an LED's level reads.
pub fn led_state_label(value: u8) -> (s: &'static str)
    ensures
        value == 0 ==> s@ == "low"@,
        value != 0 ==> s@ == "high"@,
{
    if value == 0 {
        "low"
    } else {
        "high"
    }
}

/// How the IP-report button's level reads (it pulls the line low).
pub fn button_state_label(value: u8) -> (s: &'static str)
    ensures
        value == 0 ==> s@ == "pressed-or-low"@,
        value != 0 ==> s@ == "released-or-high"@,
{
    if value == 0 {
        "pressed-or-low"
    } else {
        "released-or-high"
    }
}

} // verus!
