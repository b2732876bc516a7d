//! The I2C probe tool: its command line.

use vstd::prelude::*;

use crate::args::{parse_u16, u16_arg_spec};
use crate::text::{arg_views, concat, help_word, is_help_word, result_view, str_eq, string_from};

verus! {

pub const DEFAULT_I2C_DEVICE: &'static str = "/dev/i2c-0";
/// The 7-bit address range a scan covers when none is given.
pub const DEFAULT_SCAN_START: u16 = 0x03;
pub const DEFAULT_SCAN_END: u16 = 0x77;

/// The bus to probe.
#[derive(Debug, Clone)]
pub struct Config {
    pub i2c_device: String,
}

impl Default for Config {
    fn default() -> (c: Self)
        ensures
            c.i2c_device@ == DEFAULT_I2C_DEVICE@,
    {
        Config { i2c_device: string_from(DEFAULT_I2C_DEVICE) }
    }
}

/// What the probe tool was asked to do.
#[derive(Debug, Clone, Copy, PartialEq, Eq, Structural)]
pub enum Command {
    Help,
    Scan { start: u16, end: u16 },
    Probe { address: u16 },
}

/// The device path and the positional arguments, reading `--device` and
/// its value from `i` on.
pub open spec fn options_spec(args: Seq<Seq<char>>, i: int, device: Seq<char>, pos: Seq<Seq<char>>) -> Result<
    (Seq<char>, Seq<Seq<char>>),
    Seq<char>,
>
    decreases args.len() - i,
{
    if i < 0 || i >= args.len() {
        Ok((device, pos))
    } else if args[i] == "--device"@ {
        if i + 1 >= args.len() {
            Err("missing value for --device"@)
        } else {
            options_spec(args, i + 2, args[i + 1], pos)
        }
    } else {
        options_spec(args, i + 1, device, pos.push(args[i]))
    }
}

/// The command named by the positional arguments.
pub open spec fn command_spec(pos: Seq<Seq<char>>) -> Result<Command, Seq<char>> {
    if pos.len() == 0 || is_help_word(pos[0]) {
        Ok(Command::Help)
    } else if pos[0] == "scan"@ {
        let start = if pos.len() > 1 {
            u16_arg_spec(pos[1])
        } else {
            Ok(DEFAULT_SCAN_START)
        };
        match start {
            Err(e) => Err(e),
            Ok(start) => {
                let end = if pos.len() > 2 {
                    u16_arg_spec(pos[2])
                } else {
                    Ok(DEFAULT_SCAN_END)
                };
                match end {
                    Err(e) => Err(e),
                    Ok(end) => Ok(Command::Scan { start, end }),
                }
            },
        }
    } else if pos[0] == "probe"@ {
        if pos.len() < 2 {
            Err("missing address"@)
        } else {
            match u16_arg_spec(pos[1]) {
                Err(e) => Err(e),
                Ok(address) => Ok(Command::Probe { address }),
            }
        }
    } else {
        Err("unknown command: "@ + pos[0])
    }
}

/// What a whole command line gives: the device, then the command.
pub open spec fn parse_args_spec(args: Seq<Seq<char>>) -> Result<(Seq<char>, Command), Seq<char>> {
    match options_spec(args, 0, DEFAULT_I2C_DEVICE@, Seq::empty()) {
        Err(e) => Err(e),
        Ok((device, pos)) => match command_spec(pos) {
            Err(e) => Err(e),
            Ok(c) => Ok((device, c)),
        },
    }
}

fn command_of(pos: &Vec<String>) -> (r: Result<Command, String>)
    ensures
        result_view(r) == command_spec(arg_views(pos@)),
{
    if pos.len() == 0 {
        return Ok(Command::Help);
    }
    let first = pos[0].as_str();
    if help_word(first) {
        Ok(Command::Help)
    } else if str_eq(first, "scan") {
        let start = if pos.len() > 1 {
            match parse_u16(pos[1].as_str()) {
                Ok(v) => v,
                Err(e) => return Err(e),
            }
        } else {
            DEFAULT_SCAN_START
        };
        let end = if pos.len() > 2 {
            match parse_u16(pos[2].as_str()) {
                Ok(v) => v,
                Err(e) => return Err(e),
            }
        } else {
            DEFAULT_SCAN_END
        };
        Ok(Command::Scan { start, end })
    } else if str_eq(first, "probe") {
        if pos.len() < 2 {
            return Err(string_from("missing address"));
        }
        match parse_u16(pos[1].as_str()) {
            Ok(address) => Ok(Command::Probe { address }),
            Err(e) => Err(e),
        }
    } else {
        Err(concat("unknown command: ", first))
    }
}

/// Reads the probe tool's command line (without the program name).
pub fn parse_args(args: Vec<String>) -> (r: Result<(Config, Command), String>)
    ensures
        (match r {
            Ok((c, cmd)) => parse_args_spec(arg_views(args@)) == Ok::<(Seq<char>, Command), Seq<char>>(
                (c.i2c_device@, cmd),
            ),
            Err(e) => parse_args_spec(arg_views(args@)) == Err::<(Seq<char>, Command), Seq<char>>(e@),
        }),
{
    let ghost a = arg_views(args@);
    let mut config = Config::default();
    let mut positionals: Vec<String> = Vec::new();
    let mut i: usize = 0;
    proof {
        assert(arg_views(positionals@) =~= Seq::<Seq<char>>::empty());
    }
    while i < args.len()
        invariant
            i <= args.len(),
            a == arg_views(args@),
            options_spec(a, 0, DEFAULT_I2C_DEVICE@, Seq::empty()) == options_spec(
                a,
                i as int,
                config.i2c_device@,
                arg_views(positionals@),
            ),
        decreases args.len() - i,
    {
        let arg = args[i].as_str();
        if str_eq(arg, "--device") {
            if i + 1 >= args.len() {
                return Err(string_from("missing value for --device"));
            }
            config.i2c_device = string_from(args[i + 1].as_str());
            i = i + 2;
        } else {
            let ghost before = arg_views(positionals@);
            positionals.push(string_from(arg));
            proof {
                assert(arg_views(positionals@) =~= before.push(a[i as int]));
            }
            i = i + 1;
        }
    }
    match command_of(&positionals) {
        Ok(c) => Ok((config, c)),
        Err(e) => Err(e),
    }
}

} // verus!
