//! The APW12 power-supply tool: its command line, the request each
//! command sends, the byte-by-byte reading of a reply, and what is made
//! of a reply.

use vstd::prelude::*;

use crate::args::{
    decimal_arg_spec, parse_decimal, parse_u16, parse_u8, u16_arg_spec, u8_arg_spec,
};
use crate::bytes::{le_u16, le_u16_spec};
use crate::protocol::{
    build_frame_spec, frame_length_byte, parse_frame, protocol_error_text, Frame, ProtocolError,
    CMD_GET_FW_VERSION, CMD_GET_HW_VERSION, CMD_GET_VOLTAGE, CMD_MEASURE_VOLTAGE, CMD_READ_CAL,
    CMD_READ_STATE, CMD_SET_VOLTAGE, CMD_WATCHDOG, DEFAULT_PSU_ADDRESS,
    DEFAULT_PSU_WRITE_REGISTER, NAK_BYTE, PREAMBLE_LSB, PREAMBLE_MSB,
};
use crate::text::{
    arg_views, concat, help_word, hex_byte_spec, is_help_word, push_hex_byte, result_view,
    str_eq, string_from,
};

verus! {

pub const DEFAULT_I2C_DEVICE: &'static str = "/dev/i2c-1";
pub const DEFAULT_PSU_ENABLE_GPIO: u32 = 437;
pub const DEFAULT_SETTLE_SECONDS: u64 = 2;
pub const RESPONSE_DELAY_MILLIS: u64 = 500;
pub const MAX_RESPONSE_ATTEMPTS: usize = 3;
/// First and last address of a scan when none is given.
pub const DEFAULT_SCAN_START: u16 = 0x50;
pub const DEFAULT_SCAN_END: u16 = 0x5F;
/// Watchdog payload of `enable-watchdog` when none is given.
pub const DEFAULT_WATCHDOG_VALUE: u8 = 0x0E;

/// Where the PSU is reached and how it is enabled.
#[derive(Debug, Clone)]
pub struct Config {
    pub i2c_device: String,
    pub address: u16,
    pub write_register: u8,
    pub psu_enable_gpio: u32,
}

/// A configuration as plain values: device path, address, write register
/// and enable GPIO.
pub type ConfigModel = (Seq<char>, u16, u8, u32);

impl View for Config {
    type V = ConfigModel;

    open spec fn view(&self) -> ConfigModel {
        (self.i2c_device@, self.address, self.write_register, self.psu_enable_gpio)
    }
}

/// `/dev/i2c-1`, address 0x10, register 0x11, enable GPIO 437.
pub open spec fn default_config() -> ConfigModel {
    (DEFAULT_I2C_DEVICE@, DEFAULT_PSU_ADDRESS, DEFAULT_PSU_WRITE_REGISTER, DEFAULT_PSU_ENABLE_GPIO)
}

impl Default for Config {
    fn default() -> (c: Self)
        ensures
            c@ == default_config(),
    {
        Config {
            i2c_device: string_from(DEFAULT_I2C_DEVICE),
            address: DEFAULT_PSU_ADDRESS,
            write_register: DEFAULT_PSU_WRITE_REGISTER,
            psu_enable_gpio: DEFAULT_PSU_ENABLE_GPIO,
        }
    }
}

/// What the PSU tool was asked to do. A target voltage is kept as it was
/// written.
#[derive(Debug, Clone)]
pub enum Command {
    Help,
    PrepareBoard,
    OutputOn,
    OutputOff,
    Scan { start: u16, end: u16 },
    GetFw,
    GetHw,
    GetVoltage,
    MeasureVoltage,
    ReadState,
    DisableWatchdog,
    EnableWatchdog(u8),
    SetDac(u8),
    SetVoltage(String),
    ReadCal { page: u8, count: u8 },
    Raw { command: u8, payload: Vec<u8> },
}

/// A command as plain values.
pub enum CommandModel {
    Help,
    PrepareBoard,
    OutputOn,
    OutputOff,
    Scan { start: u16, end: u16 },
    GetFw,
    GetHw,
    GetVoltage,
    MeasureVoltage,
    ReadState,
    DisableWatchdog,
    EnableWatchdog(u8),
    SetDac(u8),
    SetVoltage(Seq<char>),
    ReadCal { page: u8, count: u8 },
    Raw { command: u8, payload: Seq<u8> },
}

impl View for Command {
    type V = CommandModel;

    open spec fn view(&self) -> CommandModel {
        match self {
            Command::Help => CommandModel::Help,
            Command::PrepareBoard => CommandModel::PrepareBoard,
            Command::OutputOn => CommandModel::OutputOn,
            Command::OutputOff => CommandModel::OutputOff,
            Command::Scan { start, end } => CommandModel::Scan { start: *start, end: *end },
            Command::GetFw => CommandModel::GetFw,
            Command::GetHw => CommandModel::GetHw,
            Command::GetVoltage => CommandModel::GetVoltage,
            Command::MeasureVoltage => CommandModel::MeasureVoltage,
            Command::ReadState => CommandModel::ReadState,
            Command::DisableWatchdog => CommandModel::DisableWatchdog,
            Command::EnableWatchdog(v) => CommandModel::EnableWatchdog(*v),
            Command::SetDac(v) => CommandModel::SetDac(*v),
            Command::SetVoltage(s) => CommandModel::SetVoltage(s@),
            Command::ReadCal { page, count } => CommandModel::ReadCal { page: *page, count: *count },
            Command::Raw { command, payload } => CommandModel::Raw {
                command: *command,
                payload: payload@,
            },
        }
    }
}

/// The global options read from `i` on, over the configuration so far and
/// the positional arguments met so far; each option takes the argument
/// after it.
pub open spec fn options_spec(
    args: Seq<Seq<char>>,
    i: int,
    cfg: ConfigModel,
    pos: Seq<Seq<char>>,
) -> Result<(ConfigModel, Seq<Seq<char>>), Seq<char>>
    decreases args.len() - i,
{
    if i < 0 || i >= args.len() {
        Ok((cfg, pos))
    } else if args[i] == "--device"@ {
        if i + 1 >= args.len() {
            Err("missing value for --device"@)
        } else {
            options_spec(args, i + 2, (args[i + 1], cfg.1, cfg.2, cfg.3), pos)
        }
    } else if args[i] == "--address"@ {
        if i + 1 >= args.len() {
            Err("missing value for --address"@)
        } else {
            match u16_arg_spec(args[i + 1]) {
                Ok(a) => options_spec(args, i + 2, (cfg.0, a, cfg.2, cfg.3), pos),
                Err(e) => Err(e),
            }
        }
    } else if args[i] == "--psu-enable-gpio"@ {
        if i + 1 >= args.len() {
            Err("missing value for --psu-enable-gpio"@)
        } else {
            match decimal_arg_spec(args[i + 1], u32::MAX as nat) {
                Ok(g) => options_spec(args, i + 2, (cfg.0, cfg.1, cfg.2, g as u32), pos),
                Err(e) => Err(e),
            }
        }
    } else if args[i] == "--register"@ {
        if i + 1 >= args.len() {
            Err("missing value for --register"@)
        } else {
            match u8_arg_spec(args[i + 1]) {
                Ok(r) => options_spec(args, i + 2, (cfg.0, cfg.1, r, cfg.3), pos),
                Err(e) => Err(e),
            }
        }
    } else {
        options_spec(args, i + 1, cfg, pos.push(args[i]))
    }
}

/// The payload bytes written as arguments from `i` on; the first that is
/// not a byte gives the error.
pub open spec fn bytes_from(s: Seq<Seq<char>>, i: int) -> Result<Seq<u8>, Seq<char>>
    decreases s.len() - i,
{
    if i < 0 || i >= s.len() {
        Ok(Seq::empty())
    } else {
        match u8_arg_spec(s[i]) {
            Err(e) => Err(e),
            Ok(b) => match bytes_from(s, i + 1) {
                Err(e) => Err(e),
                Ok(rest) => Ok(seq![b] + rest),
            },
        }
    }
}

/// An optional byte argument at `i`, with its default.
pub open spec fn optional_u8(pos: Seq<Seq<char>>, i: int, default: u8) -> Result<u8, Seq<char>> {
    if i < pos.len() {
        u8_arg_spec(pos[i])
    } else {
        Ok(default)
    }
}

/// An optional 16-bit argument at `i`, with its default.
pub open spec fn optional_u16(pos: Seq<Seq<char>>, i: int, default: u16) -> Result<u16, Seq<char>> {
    if i < pos.len() {
        u16_arg_spec(pos[i])
    } else {
        Ok(default)
    }
}

/// A required byte argument at `i`, with the message for its absence.
pub open spec fn required_u8(pos: Seq<Seq<char>>, i: int, missing: Seq<char>) -> Result<u8, Seq<char>> {
    if i < pos.len() {
        u8_arg_spec(pos[i])
    } else {
        Err(missing)
    }
}

/// The command named by the positional arguments.
pub open spec fn command_spec(pos: Seq<Seq<char>>) -> Result<CommandModel, Seq<char>> {
    if pos.len() == 0 || is_help_word(pos[0]) {
        Ok(CommandModel::Help)
    } else if pos[0] == "prepare-board"@ {
        Ok(CommandModel::PrepareBoard)
    } else if pos[0] == "output-on"@ {
        Ok(CommandModel::OutputOn)
    } else if pos[0] == "output-off"@ {
        Ok(CommandModel::OutputOff)
    } else if pos[0] == "scan"@ {
        match optional_u16(pos, 1, DEFAULT_SCAN_START) {
            Err(e) => Err(e),
            Ok(start) => match optional_u16(pos, 2, DEFAULT_SCAN_END) {
                Err(e) => Err(e),
                Ok(end) => Ok(CommandModel::Scan { start, end }),
            },
        }
    } else if pos[0] == "get-fw"@ {
        Ok(CommandModel::GetFw)
    } else if pos[0] == "get-hw"@ {
        Ok(CommandModel::GetHw)
    } else if pos[0] == "get-voltage"@ {
        Ok(CommandModel::GetVoltage)
    } else if pos[0] == "measure-voltage"@ {
        Ok(CommandModel::MeasureVoltage)
    } else if pos[0] == "read-state"@ {
        Ok(CommandModel::ReadState)
    } else if pos[0] == "disable-watchdog"@ {
        Ok(CommandModel::DisableWatchdog)
    } else if pos[0] == "enable-watchdog"@ {
        match optional_u8(pos, 1, DEFAULT_WATCHDOG_VALUE) {
            Err(e) => Err(e),
            Ok(v) => Ok(CommandModel::EnableWatchdog(v)),
        }
    } else if pos[0] == "set-dac"@ {
        match required_u8(pos, 1, "missing DAC value"@) {
            Err(e) => Err(e),
            Ok(v) => Ok(CommandModel::SetDac(v)),
        }
    } else if pos[0] == "set-voltage"@ {
        if pos.len() < 2 {
            Err("missing target voltage"@)
        } else {
            Ok(CommandModel::SetVoltage(pos[1]))
        }
    } else if pos[0] == "read-cal"@ {
        match required_u8(pos, 1, "missing page value"@) {
            Err(e) => Err(e),
            Ok(page) => match required_u8(pos, 2, "missing count value"@) {
                Err(e) => Err(e),
                Ok(count) => Ok(CommandModel::ReadCal { page, count }),
            },
        }
    } else if pos[0] == "raw"@ {
        match required_u8(pos, 1, "missing raw command byte"@) {
            Err(e) => Err(e),
            Ok(command) => match bytes_from(pos, 2) {
                Err(e) => Err(e),
                Ok(payload) => Ok(CommandModel::Raw { command, payload }),
            },
        }
    } else {
        Err("unknown command: "@ + pos[0])
    }
}

/// What a whole command line gives: the options first, then the command
/// named by what is left.
pub open spec fn parse_args_spec(args: Seq<Seq<char>>) -> Result<(ConfigModel, CommandModel), Seq<char>> {
    match options_spec(args, 0, default_config(), Seq::empty()) {
        Err(e) => Err(e),
        Ok((cfg, pos)) => match command_spec(pos) {
            Err(e) => Err(e),
            Ok(c) => Ok((cfg, c)),
        },
    }
}

/// A list of bytes, or an error message, as plain values.
pub open spec fn bytes_view(r: Result<Vec<u8>, String>) -> Result<Seq<u8>, Seq<char>> {
    match r {
        Ok(v) => Ok(v@),
        Err(e) => Err(e@),
    }
}

fn optional_u16_arg(pos: &Vec<String>, i: usize, default: u16) -> (r: Result<u16, String>)
    ensures
        result_view(r) == optional_u16(arg_views(pos@), i as int, default),
{
    if i < pos.len() {
        parse_u16(pos[i].as_str())
    } else {
        Ok(default)
    }
}

fn optional_u8_arg(pos: &Vec<String>, i: usize, default: u8) -> (r: Result<u8, String>)
    ensures
        result_view(r) == optional_u8(arg_views(pos@), i as int, default),
{
    if i < pos.len() {
        parse_u8(pos[i].as_str())
    } else {
        Ok(default)
    }
}

fn required_u8_arg(pos: &Vec<String>, i: usize, missing: &str) -> (r: Result<u8, String>)
    ensures
        result_view(r) == required_u8(arg_views(pos@), i as int, missing@),
{
    if i < pos.len() {
        parse_u8(pos[i].as_str())
    } else {
        Err(string_from(missing))
    }
}

/// Parses the payload bytes written from position `from` on.
fn parse_bytes(pos: &Vec<String>, from: usize) -> (r: Result<Vec<u8>, String>)
    requires
        from <= pos.len(),
    ensures
        bytes_view(r) == bytes_from(arg_views(pos@), from as int),
{
    let ghost a = arg_views(pos@);
    let mut out: Vec<u8> = Vec::new();
    let mut i = from;
    while i < pos.len()
        invariant
            from <= i <= pos.len(),
            a == arg_views(pos@),
            bytes_from(a, from as int) == (match bytes_from(a, i as int) {
                Ok(rest) => Ok(out@ + rest),
                Err(e) => Err(e),
            }),
        decreases pos.len() - i,
    {
        match parse_u8(pos[i].as_str()) {
            Err(e) => {
                return Err(e);
            },
            Ok(b) => {
                let ghost before = out@;
                out.push(b);
                proof {
                    if let Ok(rest) = bytes_from(a, i + 1) {
                        assert(before + (seq![b] + rest) =~= out@ + rest);
                    }
                }
                i = i + 1;
            },
        }
    }
    proof {
        assert(out@ + Seq::<u8>::empty() =~= out@);
    }
    Ok(out)
}

/// The command named by the positional arguments.
pub fn command_of(pos: &Vec<String>) -> (r: Result<Command, String>)
    ensures
        (match r {
            Ok(c) => command_spec(arg_views(pos@)) == Ok::<CommandModel, Seq<char>>(c@),
            Err(e) => command_spec(arg_views(pos@)) == Err::<CommandModel, Seq<char>>(e@),
        }),
{
    if pos.len() == 0 {
        return Ok(Command::Help);
    }
    let first = pos[0].as_str();
    if help_word(first) {
        Ok(Command::Help)
    } else if str_eq(first, "prepare-board") {
        Ok(Command::PrepareBoard)
    } else if str_eq(first, "output-on") {
        Ok(Command::OutputOn)
    } else if str_eq(first, "output-off") {
        Ok(Command::OutputOff)
    } else if str_eq(first, "scan") {
        let start = match optional_u16_arg(pos, 1, DEFAULT_SCAN_START) {
            Ok(v) => v,
            Err(e) => return Err(e),
        };
        let end = match optional_u16_arg(pos, 2, DEFAULT_SCAN_END) {
            Ok(v) => v,
            Err(e) => return Err(e),
        };
        Ok(Command::Scan { start, end })
    } else if str_eq(first, "get-fw") {
        Ok(Command::GetFw)
    } else if str_eq(first, "get-hw") {
        Ok(Command::GetHw)
    } else if str_eq(first, "get-voltage") {
        Ok(Command::GetVoltage)
    } else if str_eq(first, "measure-voltage") {
        Ok(Command::MeasureVoltage)
    } else if str_eq(first, "read-state") {
        Ok(Command::ReadState)
    } else if str_eq(first, "disable-watchdog") {
        Ok(Command::DisableWatchdog)
    } else if str_eq(first, "enable-watchdog") {
        match optional_u8_arg(pos, 1, DEFAULT_WATCHDOG_VALUE) {
            Ok(v) => Ok(Command::EnableWatchdog(v)),
            Err(e) => Err(e),
        }
    } else if str_eq(first, "set-dac") {
        match required_u8_arg(pos, 1, "missing DAC value") {
            Ok(v) => Ok(Command::SetDac(v)),
            Err(e) => Err(e),
        }
    } else if str_eq(first, "set-voltage") {
        if pos.len() < 2 {
            Err(string_from("missing target voltage"))
        } else {
            Ok(Command::SetVoltage(string_from(pos[1].as_str())))
        }
    } else if str_eq(first, "read-cal") {
        let page = match required_u8_arg(pos, 1, "missing page value") {
            Ok(v) => v,
            Err(e) => return Err(e),
        };
        let count = match required_u8_arg(pos, 2, "missing count value") {
            Ok(v) => v,
            Err(e) => return Err(e),
        };
        Ok(Command::ReadCal { page, count })
    } else if str_eq(first, "raw") {
        let command = match required_u8_arg(pos, 1, "missing raw command byte") {
            Ok(v) => v,
            Err(e) => return Err(e),
        };
        match parse_bytes(pos, 2) {
            Ok(payload) => Ok(Command::Raw { command, payload }),
            Err(e) => Err(e),
        }
    } else {
        Err(concat("unknown command: ", first))
    }
}

/// Reads the PSU tool's command line (without the program name): global
/// options anywhere, then a command and its arguments.
pub fn parse_args(args: Vec<String>) -> (r: Result<(Config, Command), String>)
    ensures
        (match r {
            Ok((c, cmd)) => parse_args_spec(arg_views(args@)) == Ok::<
                (ConfigModel, CommandModel),
                Seq<char>,
            >((c@, cmd@)),
            Err(e) => parse_args_spec(arg_views(args@)) == Err::<
                (ConfigModel, CommandModel),
                Seq<char>,
            >(e@),
        }),
{
    let ghost a = arg_views(args@);
    let mut config = Config::default();
    let mut positionals: Vec<String> = Vec::new();
    let mut i: usize = 0;
    proof {
        assert(arg_views(positionals@) =~= Seq::<Seq<char>>::empty());
    }
    while i < args.len()
        invariant
            i <= args.len(),
            a == arg_views(args@),
            options_spec(a, 0, default_config(), Seq::empty()) == options_spec(
                a,
                i as int,
                config@,
                arg_views(positionals@),
            ),
        decreases args.len() - i,
    {
        let arg = args[i].as_str();
        if str_eq(arg, "--device") {
            if i + 1 >= args.len() {
                return Err(string_from("missing value for --device"));
            }
            config.i2c_device = string_from(args[i + 1].as_str());
            i = i + 2;
        } else if str_eq(arg, "--address") {
            if i + 1 >= args.len() {
                return Err(string_from("missing value for --address"));
            }
            match parse_u16(args[i + 1].as_str()) {
                Ok(v) => {
                    config.address = v;
                },
                Err(e) => {
                    return Err(e);
                },
            }
            i = i + 2;
        } else if str_eq(arg, "--psu-enable-gpio") {
            if i + 1 >= args.len() {
                return Err(string_from("missing value for --psu-enable-gpio"));
            }
            match parse_decimal(args[i + 1].as_str(), u32::MAX as u64) {
                Ok(v) => {
                    config.psu_enable_gpio = v as u32;
                },
                Err(e) => {
                    return Err(e);
                },
            }
            i = i + 2;
        } else if str_eq(arg, "--register") {
            if i + 1 >= args.len() {
                return Err(string_from("missing value for --register"));
            }
            match parse_u8(args[i + 1].as_str()) {
                Ok(v) => {
                    config.write_register = v;
                },
                Err(e) => {
                    return Err(e);
                },
            }
            i = i + 2;
        } else {
            let ghost before = arg_views(positionals@);
            positionals.push(string_from(arg));
            proof {
                assert(arg_views(positionals@) =~= before.push(a[i as int]));
            }
            i = i + 1;
        }
    }
    match command_of(&positionals) {
        Ok(c) => Ok((config, c)),
        Err(e) => Err(e),
    }
}


/// Where the byte-by-byte reading of a reply stands: waiting for the
/// first preamble byte (or a NAK), for the second preamble byte, for the
/// length byte, or for the rest of the reply.
pub enum ReplyReader {
    Hunting,
    Preamble,
    Length,
    Body { response: Vec<u8>, remaining: usize },
}

/// What one more byte does to the reading.
pub enum ReaderStep {
    More(ReplyReader),
    Done(Vec<u8>),
    Failed(String),
}

/// A reading state as plain values.
pub enum ReaderModel {
    Hunting,
    Preamble,
    Length,
    Body { response: Seq<u8>, remaining: nat },
}

/// A reading step as plain values.
pub enum StepModel {
    More(ReaderModel),
    Done(Seq<u8>),
    Failed(Seq<char>),
}

impl View for ReplyReader {
    type V = ReaderModel;

    open spec fn view(&self) -> ReaderModel {
        match self {
            ReplyReader::Hunting => ReaderModel::Hunting,
            ReplyReader::Preamble => ReaderModel::Preamble,
            ReplyReader::Length => ReaderModel::Length,
            ReplyReader::Body { response, remaining } => ReaderModel::Body {
                response: response@,
                remaining: *remaining as nat,
            },
        }
    }
}

impl View for ReaderStep {
    type V = StepModel;

    open spec fn view(&self) -> StepModel {
        match self {
            ReaderStep::More(r) => StepModel::More(r@),
            ReaderStep::Done(v) => StepModel::Done(v@),
            ReaderStep::Failed(e) => StepModel::Failed(e@),
        }
    }
}

/// A reply being read starts with the preamble and its length byte, and
/// what it still waits for makes it `length + 2` bytes long.
pub open spec fn reader_wf(st: ReaderModel) -> bool {
    match st {
        ReaderModel::Body { response, remaining } => {
            &&& response.len() >= 3
            &&& response[0] == PREAMBLE_LSB
            &&& response[1] == PREAMBLE_MSB
            &&& remaining >= 1
            &&& response.len() + remaining == response[2] + 2
        },
        _ => true,
    }
}

/// The message for a second byte that does not continue the preamble.
pub open spec fn bad_continuation_text(b: u8) -> Seq<char> {
    "invalid preamble continuation: 0x"@ + hex_byte_spec(b)
}

/// One byte of a reply: bytes before `0x55` are skipped and a NAK there
/// is a reply of its own; `0x55` must be followed by `0xAA`; a length
/// byte of 0 is refused; a length `L` asks for `L - 1` more bytes.
pub open spec fn step_spec(st: ReaderModel, b: u8) -> StepModel {
    match st {
        ReaderModel::Hunting => if b == NAK_BYTE {
            StepModel::Done(seq![NAK_BYTE])
        } else if b == PREAMBLE_LSB {
            StepModel::More(ReaderModel::Preamble)
        } else {
            StepModel::More(ReaderModel::Hunting)
        },
        ReaderModel::Preamble => if b == PREAMBLE_MSB {
            StepModel::More(ReaderModel::Length)
        } else {
            StepModel::Failed(bad_continuation_text(b))
        },
        ReaderModel::Length => if b == 0 {
            StepModel::Failed("response length underflow"@)
        } else if b == 1 {
            StepModel::Done(seq![PREAMBLE_LSB, PREAMBLE_MSB, 1u8])
        } else {
            StepModel::More(
                ReaderModel::Body {
                    response: seq![PREAMBLE_LSB, PREAMBLE_MSB, b],
                    remaining: (b - 1) as nat,
                },
            )
        },
        ReaderModel::Body { response, remaining } => if remaining <= 1 {
            StepModel::Done(response.push(b))
        } else {
            StepModel::More(
                ReaderModel::Body { response: response.push(b), remaining: (remaining - 1) as nat },
            )
        },
    }
}

/// Feeds one received byte to the reading of a reply.
pub fn read_step(state: ReplyReader, byte: u8) -> (step: ReaderStep)
    requires
        reader_wf(state@),
    ensures
        step@ == step_spec(state@, byte),
        step@ matches StepModel::More(next) ==> reader_wf(next),
{
    match state {
        ReplyReader::Hunting => {
            if byte == NAK_BYTE {
                let mut v = Vec::new();
                v.push(NAK_BYTE);
                proof {
                    assert(v@ =~= seq![NAK_BYTE]);
                }
                ReaderStep::Done(v)
            } else if byte == PREAMBLE_LSB {
                ReaderStep::More(ReplyReader::Preamble)
            } else {
                ReaderStep::More(ReplyReader::Hunting)
            }
        },
        ReplyReader::Preamble => {
            if byte == PREAMBLE_MSB {
                ReaderStep::More(ReplyReader::Length)
            } else {
                let mut m = string_from("invalid preamble continuation: 0x");
                push_hex_byte(&mut m, byte);
                ReaderStep::Failed(m)
            }
        },
        ReplyReader::Length => {
            if byte == 0 {
                ReaderStep::Failed(string_from("response length underflow"))
            } else {
                let mut v = Vec::new();
                v.push(PREAMBLE_LSB);
                v.push(PREAMBLE_MSB);
                v.push(byte);
                proof {
                    assert(v@ =~= seq![PREAMBLE_LSB, PREAMBLE_MSB, byte]);
                }
                if byte == 1 {
                    ReaderStep::Done(v)
                } else {
                    ReaderStep::More(ReplyReader::Body { response: v, remaining: (byte - 1) as usize })
                }
            }
        },
        ReplyReader::Body { response, remaining } => {
            let mut response = response;
            response.push(byte);
            if remaining <= 1 {
                ReaderStep::Done(response)
            } else {
                ReaderStep::More(ReplyReader::Body { response, remaining: remaining - 1 })
            }
        },
    }
}

/// The outcome of feeding `bytes` one by one, from state `st`, until a
/// reply is done or refused; `More` when the bytes run out first.
pub open spec fn run_spec(st: ReaderModel, bytes: Seq<u8>) -> StepModel
    decreases bytes.len(),
{
    if bytes.len() == 0 {
        StepModel::More(st)
    } else {
        match step_spec(st, bytes[0]) {
            StepModel::More(next) => run_spec(next, bytes.drop_first()),
            other => other,
        }
    }
}

/// Every reply that the reader completes is a lone NAK, or the preamble,
/// a length byte `L` and `L - 1` further bytes: `L + 2` bytes in all, the
/// size that the frame parser's length check asks for.
pub proof fn lemma_reader_reply_shape(st: ReaderModel, bytes: Seq<u8>)
    requires
        reader_wf(st),
    ensures
        run_spec(st, bytes) matches StepModel::Done(r) ==> (r == seq![NAK_BYTE] || (r.len() >= 3
            && r[0] == PREAMBLE_LSB && r[1] == PREAMBLE_MSB && r.len() == r[2] + 2)),
    decreases bytes.len(),
{
    if bytes.len() > 0 {
        let b = bytes[0];
        match step_spec(st, b) {
            StepModel::More(next) => {
                lemma_reader_reply_shape(next, bytes.drop_first());
            },
            _ => {
            },
        }
    }
}

/// Once the preamble and length are in, the reader collects exactly the
/// bytes it still waits for.
proof fn lemma_body_collects(response: Seq<u8>, remaining: nat, bytes: Seq<u8>)
    requires
        remaining >= 1,
        bytes.len() >= remaining,
    ensures
        run_spec(ReaderModel::Body { response, remaining }, bytes) == StepModel::Done(
            response + bytes.take(remaining as int),
        ),
    decreases remaining,
{
    let b = bytes[0];
    if remaining <= 1 {
        assert(response.push(b) =~= response + bytes.take(remaining as int));
    } else {
        lemma_body_collects(response.push(b), (remaining - 1) as nat, bytes.drop_first());
        assert(response.push(b) + bytes.drop_first().take(remaining - 1) =~= response + bytes.take(
            remaining as int,
        ));
    }
}

/// Reading the bytes of a frame that `build_frame` made gives back that
/// frame, whatever bytes follow it.
pub proof fn lemma_reader_reads_built_frame(command: u8, payload: Seq<u8>, rest: Seq<u8>)
    requires
        payload.len() <= 251,
    ensures
        run_spec(ReaderModel::Hunting, build_frame_spec(command, payload) + rest)
            == StepModel::Done(build_frame_spec(command, payload)),
{
    let f = build_frame_spec(command, payload);
    let s = f + rest;
    let len = frame_length_byte(payload.len());
    assert(len == payload.len() + 4);
    assert(s[0] == PREAMBLE_LSB && s[1] == PREAMBLE_MSB && s[2] == len);
    let s1 = s.drop_first();
    let s2 = s1.drop_first();
    let s3 = s2.drop_first();
    assert(s1[0] == PREAMBLE_MSB);
    assert(s2[0] == len);
    let head = seq![PREAMBLE_LSB, PREAMBLE_MSB, len];
    assert(run_spec(ReaderModel::Hunting, s) == run_spec(ReaderModel::Preamble, s1));
    assert(run_spec(ReaderModel::Preamble, s1) == run_spec(ReaderModel::Length, s2));
    assert(run_spec(ReaderModel::Length, s2) == run_spec(
        ReaderModel::Body { response: head, remaining: (len - 1) as nat },
        s3,
    ));
    lemma_body_collects(head, (len - 1) as nat, s3);
    assert(head + s3.take(len - 1) =~= f);
}

/// A reply that the PSU frames for the command asked for is read back
/// whole by the reader and then accepted by [`judge_reply`], with its
/// payload: the reader's output is a frame that the parser accepts, of
/// that command.
pub proof fn lemma_built_reply_is_accepted(command: u8, payload: Seq<u8>, rest: Seq<u8>)
    requires
        payload.len() <= 251,
    ensures
        run_spec(ReaderModel::Hunting, build_frame_spec(command, payload) + rest)
            == StepModel::Done(build_frame_spec(command, payload)),
        crate::protocol::frame_accepted(build_frame_spec(command, payload)),
        build_frame_spec(command, payload)[3] == command,
        build_frame_spec(command, payload).subrange(4, build_frame_spec(command, payload).len() - 2)
            == payload,
{
    lemma_reader_reads_built_frame(command, payload, rest);
    crate::protocol::lemma_build_then_parse(command, payload);
}

/// What an exchange makes of one reply.
pub enum Verdict {
    Accept(Frame),
    Retry(String),
}

/// The message for a valid reply to another command.
pub open spec fn unexpected_command_text(got: u8, want: u8) -> Seq<char> {
    "unexpected response command 0x"@ + hex_byte_spec(got) + " for request 0x"@ + hex_byte_spec(
        want,
    )
}

/// The message of the error that the frame parser gives for `raw`.
pub open spec fn parse_error_text(raw: Seq<u8>) -> Seq<char> {
    if raw.len() == 0 {
        protocol_error_text(ProtocolError::EmptyResponse)
    } else if raw == seq![NAK_BYTE] {
        protocol_error_text(ProtocolError::Nak)
    } else if raw.len() < 6 {
        protocol_error_text(
            ProtocolError::InvalidLength {
                declared: if raw.len() > 2 {
                    raw[2] as usize
                } else {
                    0usize
                },
                actual: raw.len() as usize,
            },
        )
    } else if raw[0] != PREAMBLE_LSB || raw[1] != PREAMBLE_MSB {
        "invalid preamble: "@ + crate::text::hex_list_spec(raw.take(2), true)
    } else if raw[2] as int != raw.len() - 2 {
        protocol_error_text(
            ProtocolError::InvalidLength {
                declared: raw[2] as usize,
                actual: (raw.len() - 2) as usize,
            },
        )
    } else {
        protocol_error_text(
            ProtocolError::InvalidChecksum {
                expected: crate::protocol::expected_checksum_byte(raw),
                actual: raw[raw.len() - 2],
            },
        )
    }
}

/// Judges one reply to `command`: a NAK, a reply that does not parse, or
/// a valid reply to another command asks for another try, with the
/// reason; a valid reply to `command` is accepted.
pub fn judge_reply(response: &[u8], command: u8) -> (v: Verdict)
    ensures
        response@ == seq![NAK_BYTE] ==> (v matches Verdict::Retry(e) && e@
            == "PSU returned NAK (0xF5)"@),
        response@ != seq![NAK_BYTE] && !crate::protocol::frame_accepted(response@) ==> (
        v matches Verdict::Retry(e) && e@ == parse_error_text(response@)),
        crate::protocol::frame_accepted(response@) && response@[3] != command ==> (
        v matches Verdict::Retry(e) && e@ == unexpected_command_text(response@[3], command)),
        crate::protocol::frame_accepted(response@) && response@[3] == command ==> (
        v matches Verdict::Accept(f) && f.command == command && f.payload@ == response@.subrange(
            4,
            response@.len() - 2,
        ) && f.raw@ == response@),
{
    if response.len() == 1 && response[0] == NAK_BYTE {
        proof {
            assert(response@ =~= seq![NAK_BYTE]);
        }
        return Verdict::Retry(string_from("PSU returned NAK (0xF5)"));
    }
    proof {
        if response@ == seq![NAK_BYTE] {
            assert(response@.len() == 1 && response@[0] == NAK_BYTE);
        }
    }
    match parse_frame(response) {
        Ok(frame) => {
            if frame.command == command {
                Verdict::Accept(frame)
            } else {
                let mut m = string_from("unexpected response command 0x");
                push_hex_byte(&mut m, frame.command);
                m.append(" for request 0x");
                push_hex_byte(&mut m, command);
                Verdict::Retry(m)
            }
        },
        Err(err) => {
            let m = err.message();
            proof {
                if response@.len() >= 6 && (response@[0] != PREAMBLE_LSB || response@[1] != PREAMBLE_MSB) {
                    assert(protocol_error_text(err) == parse_error_text(response@));
                }
            }
            Verdict::Retry(m)
        },
    }
}

/// The command byte and payload that each bus command sends; the other
/// commands (help, GPIO and scan commands, and a target voltage, which is
/// first turned into a DAC code) send none of their own.
pub open spec fn request_spec(c: CommandModel) -> Option<(u8, Seq<u8>)> {
    match c {
        CommandModel::GetFw => Some((CMD_GET_FW_VERSION, Seq::empty())),
        CommandModel::GetHw => Some((CMD_GET_HW_VERSION, Seq::empty())),
        CommandModel::GetVoltage => Some((CMD_GET_VOLTAGE, Seq::empty())),
        CommandModel::MeasureVoltage => Some((CMD_MEASURE_VOLTAGE, Seq::empty())),
        CommandModel::ReadState => Some((CMD_READ_STATE, Seq::empty())),
        CommandModel::DisableWatchdog => Some((CMD_WATCHDOG, seq![0u8, 0u8])),
        CommandModel::EnableWatchdog(v) => Some((CMD_WATCHDOG, seq![v, 0u8])),
        CommandModel::SetDac(dac) => Some((CMD_SET_VOLTAGE, seq![dac, 0u8])),
        CommandModel::ReadCal { page, count } => Some((CMD_READ_CAL, seq![page, count])),
        CommandModel::Raw { command, payload } => Some((command, payload)),
        _ => None,
    }
}

/// Each bus command carries its own command byte of the APW12 protocol:
/// firmware 0x01, hardware 0x02, DAC setpoint 0x03, measured voltage 0x04,
/// state 0x05, calibration page 0x06, watchdog 0x81 and DAC write 0x83.
/// The read-only queries send no payload, a watchdog or DAC write sends its
/// byte followed by zero, a calibration read sends page and count, and a
/// raw request sends what it was given; the board and scan commands and a
/// target voltage send no request of their own. Two different fixed
/// queries never send the same request.
pub proof fn lemma_request_bytes(c: CommandModel, d: CommandModel)
    ensures
        c is GetFw ==> request_spec(c) == Some((0x01u8, Seq::<u8>::empty())),
        c is GetHw ==> request_spec(c) == Some((0x02u8, Seq::<u8>::empty())),
        c is GetVoltage ==> request_spec(c) == Some((0x03u8, Seq::<u8>::empty())),
        c is MeasureVoltage ==> request_spec(c) == Some((0x04u8, Seq::<u8>::empty())),
        c is ReadState ==> request_spec(c) == Some((0x05u8, Seq::<u8>::empty())),
        c matches CommandModel::ReadCal { page, count } ==> request_spec(c) == Some(
            (0x06u8, seq![page, count]),
        ),
        c is DisableWatchdog ==> request_spec(c) == Some((0x81u8, seq![0u8, 0u8])),
        c matches CommandModel::EnableWatchdog(v) ==> request_spec(c) == Some(
            (0x81u8, seq![v, 0u8]),
        ),
        c matches CommandModel::SetDac(v) ==> request_spec(c) == Some((0x83u8, seq![v, 0u8])),
        c matches CommandModel::Raw { command, payload } ==> request_spec(c) == Some(
            (command, payload),
        ),
        c is Help || c is PrepareBoard || c is OutputOn || c is OutputOff || c is Scan
            || c is SetVoltage ==> request_spec(c) is None,
        (c is GetFw || c is GetHw || c is GetVoltage || c is MeasureVoltage || c is ReadState)
            && (d is GetFw || d is GetHw || d is GetVoltage || d is MeasureVoltage || d is ReadState)
            && c != d ==> request_spec(c) != request_spec(d),
{
}

fn pair(a: u8, b: u8) -> (v: Vec<u8>)
    ensures
        v@ == seq![a, b],
{
    let mut v = Vec::new();
    v.push(a);
    v.push(b);
    proof {
        assert(v@ =~= seq![a, b]);
    }
    v
}

/// The request a bus command sends.
pub fn request_of(command: &Command) -> (r: Option<(u8, Vec<u8>)>)
    ensures
        r matches Some((c, p)) ==> request_spec(command@) == Some((c, p@)),
        r is None ==> request_spec(command@) is None,
{
    match command {
        Command::GetFw => Some((CMD_GET_FW_VERSION, Vec::new())),
        Command::GetHw => Some((CMD_GET_HW_VERSION, Vec::new())),
        Command::GetVoltage => Some((CMD_GET_VOLTAGE, Vec::new())),
        Command::MeasureVoltage => Some((CMD_MEASURE_VOLTAGE, Vec::new())),
        Command::ReadState => Some((CMD_READ_STATE, Vec::new())),
        Command::DisableWatchdog => Some((CMD_WATCHDOG, pair(0, 0))),
        Command::EnableWatchdog(v) => Some((CMD_WATCHDOG, pair(*v, 0))),
        Command::SetDac(dac) => Some((CMD_SET_VOLTAGE, set_voltage_payload(*dac))),
        Command::ReadCal { page, count } => Some((CMD_READ_CAL, pair(*page, *count))),
        Command::Raw { command, payload } => {
            let mut p = Vec::new();
            let mut i: usize = 0;
            while i < payload.len()
                invariant
                    i <= payload@.len(),
                    p@ == payload@.take(i as int),
                decreases payload@.len() - i,
            {
                p.push(payload[i]);
                i = i + 1;
                proof {
                    assert(p@ =~= payload@.take(i as int));
                }
            }
            proof {
                assert(payload@.take(i as int) =~= payload@);
            }
            Some((*command, p))
        },
        _ => None,
    }
}

/// The payload that sets the output to DAC code `dac`.
pub fn set_voltage_payload(dac: u8) -> (p: Vec<u8>)
    ensures
        p@ == seq![dac, 0u8],
{
    pair(dac, 0)
}

/// How a set-voltage request went: accepted by its echo, or, when the
/// echo was lost while the PSU moved to the new setpoint, confirmed by
/// reading the setpoint back.
#[derive(Debug, Clone)]
pub struct SetVoltageOutcome {
    pub frame: Frame,
    pub verified_by_readback: bool,
    pub response_issue: Option<String>,
}

/// A set-voltage request answered by its own echo.
pub fn echo_outcome(frame: Frame) -> (o: SetVoltageOutcome)
    ensures
        o.frame == frame,
        !o.verified_by_readback,
        o.response_issue is None,
{
    SetVoltageOutcome { frame, verified_by_readback: false, response_issue: None }
}

/// After a set-voltage exchange failed with `err`, decides from the
/// readback frame `verify`: a readback equal to `dac` confirms the
/// setpoint (the outcome carries the request and the readback's raw
/// bytes); another readback keeps the first error; a readback without
/// payload is an error of its own.
pub fn readback_outcome(dac: u8, verify: Frame, err: String) -> (r: Result<SetVoltageOutcome, String>)
    ensures
        verify.payload@.len() == 0 ==> (r matches Err(e) && e@
            == "missing DAC payload during set verification"@),
        verify.payload@.len() > 0 && verify.payload@[0] == dac ==> (r matches Ok(o)
            && o.frame.command == CMD_SET_VOLTAGE && o.frame.payload@ == seq![dac, 0u8]
            && o.frame.raw@ == verify.raw@ && o.verified_by_readback && (o.response_issue matches Some(
            i,
        ) && i@ == err@)),
        verify.payload@.len() > 0 && verify.payload@[0] != dac ==> (r matches Err(e) && e@ == err@),
{
    if verify.payload.len() == 0 {
        return Err(string_from("missing DAC payload during set verification"));
    }
    let readback = verify.payload[0];
    if readback == dac {
        Ok(
            SetVoltageOutcome {
                frame: Frame {
                    command: CMD_SET_VOLTAGE,
                    payload: set_voltage_payload(dac),
                    raw: verify.raw,
                },
                verified_by_readback: true,
                response_issue: Some(err),
            },
        )
    } else {
        Err(err)
    }
}

/// The error of an exchange that ran out of tries: the last reason
/// recorded, if any.
pub fn exchange_failure(last_error: Option<String>) -> (e: String)
    ensures
        last_error matches Some(l) ==> e@ == l@,
        last_error is None ==> e@ == "no valid PSU response received"@,
{
    match last_error {
        Some(l) => l,
        None => string_from("no valid PSU response received"),
    }
}

/// An exchange waiting for the reply to `command`: how many replies were
/// read so far and why the last one was not taken.
pub struct Exchange {
    pub command: u8,
    pub tries: usize,
    pub last_error: Option<String>,
}

/// What one more reply does to an exchange.
pub enum ExchangeStep {
    Done(Frame),
    TryAgain(Exchange),
    Failed(String),
}

impl Exchange {
    /// An exchange for `command` that has read no reply yet.
    pub fn new(command: u8) -> (x: Self)
        ensures
            x.command == command,
            x.tries == 0,
            x.last_error is None,
    {
        Exchange { command, tries: 0, last_error: None }
    }

    /// Takes one reply: an accepted one ends the exchange with its frame;
    /// otherwise the reason is kept and, once three replies were read, it
    /// is the exchange's error.
    pub fn on_reply(self, response: &[u8]) -> (step: ExchangeStep)
        requires
            self.tries < MAX_RESPONSE_ATTEMPTS,
        ensures
            crate::protocol::frame_accepted(response@) && response@[3] == self.command ==> (
            step matches ExchangeStep::Done(f) && f.command == self.command && f.payload@
                == response@.subrange(4, response@.len() - 2) && f.raw@ == response@),
            !(crate::protocol::frame_accepted(response@) && response@[3] == self.command) ==> (
            match step {
                ExchangeStep::TryAgain(next) => self.tries + 1 < MAX_RESPONSE_ATTEMPTS
                    && next.command == self.command && next.tries == self.tries + 1 && (
                next.last_error matches Some(e) && e@ == retry_reason(response@, self.command)),
                ExchangeStep::Failed(e) => self.tries + 1 == MAX_RESPONSE_ATTEMPTS && e@
                    == retry_reason(response@, self.command),
                ExchangeStep::Done(_) => false,
            }),
    {
        match judge_reply(response, self.command) {
            Verdict::Accept(frame) => ExchangeStep::Done(frame),
            Verdict::Retry(reason) => {
                if self.tries + 1 < MAX_RESPONSE_ATTEMPTS {
                    ExchangeStep::TryAgain(
                        Exchange { command: self.command, tries: self.tries + 1, last_error: Some(reason) },
                    )
                } else {
                    ExchangeStep::Failed(exchange_failure(Some(reason)))
                }
            },
        }
    }
}

/// Why a reply to `command` is not taken.
pub open spec fn retry_reason(response: Seq<u8>, command: u8) -> Seq<char> {
    if response == seq![NAK_BYTE] {
        "PSU returned NAK (0xF5)"@
    } else if !crate::protocol::frame_accepted(response) {
        parse_error_text(response)
    } else {
        unexpected_command_text(response[3], command)
    }
}

/// The DAC code in a get-voltage reply: its first payload byte.
pub fn dac_code(payload: &[u8]) -> (r: Result<u8, String>)
    ensures
        payload@.len() > 0 ==> r == Ok::<u8, String>(payload@[0]),
        payload@.len() == 0 ==> (r matches Err(e) && e@ == "missing DAC payload"@),
{
    if payload.len() == 0 {
        Err(string_from("missing DAC payload"))
    } else {
        Ok(payload[0])
    }
}

/// The ADC bytes of a measure-voltage reply, low byte first.
pub fn adc_bytes(payload: &[u8]) -> (r: Result<(u8, u8), String>)
    ensures
        payload@.len() >= 2 ==> r == Ok::<(u8, u8), String>((payload@[0], payload@[1])),
        payload@.len() < 2 ==> (r matches Err(e) && e@ == "missing ADC payload"@),
{
    if payload.len() < 2 {
        Err(string_from("missing ADC payload"))
    } else {
        Ok((payload[0], payload[1]))
    }
}

/// The output state in a read-state reply: its first two payload bytes,
/// little-endian.
pub fn output_state(payload: &[u8]) -> (r: Result<u16, String>)
    ensures
        payload@.len() >= 2 ==> r == Ok::<u16, String>(le_u16_spec(payload@[0], payload@[1])),
        payload@.len() < 2 ==> (r matches Err(e) && e@ == "missing state payload"@),
{
    if payload.len() < 2 {
        Err(string_from("missing state payload"))
    } else {
        Ok(le_u16(payload[0], payload[1]))
    }
}

/// `ON` for state 1, `OFF` for any other.
pub fn state_label(state: u16) -> (label: &'static str)
    ensures
        state == 1 ==> label@ == "ON"@,
        state != 1 ==> label@ == "OFF"@,
{
    if state == 1 {
        "ON"
    } else {
        "OFF"
    }
}

/// The addresses a scan visits, lowest first: the two bounds in either
/// order.
pub fn scan_bounds(start: u16, end: u16) -> (r: (u16, u16))
    ensures
        start <= end ==> r == (start, end),
        start > end ==> r == (end, start),
{
    if start <= end {
        (start, end)
    } else {
        (end, start)
    }
}

} // verus!
