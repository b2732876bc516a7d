//! The hashboard PIC tool: its command line and the guard on commands
//! that change the PIC's state.

use vstd::prelude::*;

use crate::pic::DEFAULT_I2C_DEVICE;
use crate::text::{
    arg_views, concat, int_error_message, int_error_text, parse_prefixed, parse_prefixed_spec,
    str_eq, string_from, has_hex_prefix,
};

verus! {

/// Address used when none is given (hashboard 0).
pub const DEFAULT_PIC_ADDRESS: u16 = 0x20;

/// How the PIC is reached, and the tool's switches.
#[derive(Debug, Clone)]
pub struct PicConfig {
    pub device: String,
    pub address: u16,
    pub confirm_state_change: bool,
    pub verbose: bool,
}

/// Device path, address, state-change consent and verbosity.
pub type PicConfigModel = (Seq<char>, u16, bool, bool);

impl View for PicConfig {
    type V = PicConfigModel;

    open spec fn view(&self) -> PicConfigModel {
        (self.device@, self.address, self.confirm_state_change, self.verbose)
    }
}

pub open spec fn default_pic_config() -> PicConfigModel {
    (DEFAULT_I2C_DEVICE@, DEFAULT_PIC_ADDRESS, false, false)
}

/// The tool's defaults: `/dev/i2c-0`, address 0x20, no consent, quiet.
pub fn default_pic_config_value() -> (c: PicConfig)
    ensures
        c@ == default_pic_config(),
{
    PicConfig {
        device: string_from(DEFAULT_I2C_DEVICE),
        address: DEFAULT_PIC_ADDRESS,
        confirm_state_change: false,
        verbose: false,
    }
}

/// A PIC command.
#[derive(Debug, Clone, Copy, PartialEq, Eq, Structural)]
pub enum PicCommand {
    Version,
    Heartbeat,
    Reset,
    StartApp,
    SetDcDc(bool),
    Handshake,
    ReadReg(u8),
}

/// What a command line comes to: help (exit 0); a usage error, shown with
/// the help (exit 2); no command at all (help, exit 2); a bad address
/// (exit 2); a command that cannot run (exit 1); or a command to run.
pub enum PicInvocation {
    Help,
    Usage(String),
    MissingCommand,
    BadAddress(String),
    Failed(String),
    Run(PicConfig, PicCommand),
}

/// An invocation as plain values.
pub enum PicInvocationModel {
    Help,
    Usage(Seq<char>),
    MissingCommand,
    BadAddress(Seq<char>),
    Failed(Seq<char>),
    Run(PicConfigModel, PicCommand),
}

impl View for PicInvocation {
    type V = PicInvocationModel;

    open spec fn view(&self) -> PicInvocationModel {
        match self {
            PicInvocation::Help => PicInvocationModel::Help,
            PicInvocation::Usage(m) => PicInvocationModel::Usage(m@),
            PicInvocation::MissingCommand => PicInvocationModel::MissingCommand,
            PicInvocation::BadAddress(m) => PicInvocationModel::BadAddress(m@),
            PicInvocation::Failed(m) => PicInvocationModel::Failed(m@),
            PicInvocation::Run(c, cmd) => PicInvocationModel::Run(c@, *cmd),
        }
    }
}

/// An address in hex after `0x`/`0X`, otherwise in decimal; the message
/// quotes the argument.
pub open spec fn addr_spec(s: Seq<char>) -> Result<u16, Seq<char>> {
    match parse_prefixed_spec(s, 65535) {
        Ok(v) => Ok(v as u16),
        Err(k) => Err(
            if has_hex_prefix(s) {
                "bad hex address '"@
            } else {
                "bad address '"@
            } + s + "': "@ + int_error_text(k),
        ),
    }
}

/// A register byte in hex after `0x`/`0X`, otherwise in decimal.
pub open spec fn byte_spec(s: Seq<char>) -> Result<u8, Seq<char>> {
    match parse_prefixed_spec(s, 255) {
        Ok(v) => Ok(v as u8),
        Err(k) => Err(
            if has_hex_prefix(s) {
                "bad hex byte '"@
            } else {
                "bad byte '"@
            } + s + "': "@ + int_error_text(k),
        ),
    }
}

fn bad_number(hex: bool, hex_text: &str, dec_text: &str, s: &str, k: crate::text::IntErrorKind) -> (m: String)
    ensures
        m@ == (if hex {
            hex_text@
        } else {
            dec_text@
        }) + s@ + "': "@ + int_error_text(k),
{
    let mut m = if hex {
        string_from(hex_text)
    } else {
        string_from(dec_text)
    };
    m.append(s);
    m.append("': ");
    let e = int_error_message(k);
    m.append(e.as_str());
    m
}

fn hex_prefixed(s: &str) -> (b: bool)
    ensures
        b == has_hex_prefix(s@),
{
    let n = s.unicode_len();
    n >= 2 && s.get_char(0) == '0' && (s.get_char(1) == 'x' || s.get_char(1) == 'X')
}

/// Parses a PIC address.
pub fn parse_addr(s: &str) -> (r: Result<u16, String>)
    ensures
        crate::text::result_view(r) == addr_spec(s@),
{
    proof {
        crate::args::lemma_prefixed_bound(s@, 65535);
    }
    match parse_prefixed(s, 65535) {
        Ok(v) => Ok(v as u16),
        Err(k) => Err(bad_number(hex_prefixed(s), "bad hex address '", "bad address '", s, k)),
    }
}

/// Parses a register byte.
pub fn parse_u8(s: &str) -> (r: Result<u8, String>)
    ensures
        crate::text::result_view(r) == byte_spec(s@),
{
    proof {
        crate::args::lemma_prefixed_bound(s@, 255);
    }
    match parse_prefixed(s, 255) {
        Ok(v) => Ok(v as u8),
        Err(k) => Err(bad_number(hex_prefixed(s), "bad hex byte '", "bad byte '", s, k)),
    }
}

/// `s` starts with `--`.
pub open spec fn is_long_option(s: Seq<char>) -> bool {
    s.len() >= 2 && s[0] == '-' && s[1] == '-'
}

/// How the scan of the arguments ends: with the options, the command
/// word and the other positional arguments, or early.
pub enum ScanModel {
    Done(PicConfigModel, Option<Seq<char>>, Seq<Seq<char>>),
    Early(PicInvocationModel),
}

/// The arguments read from `i` on: `--device` and `--address` take the
/// next argument (an empty one when there is none), the switches take
/// none, a help word stops everything, the first word is the command and
/// later words are its arguments, and any other `--` option is refused.
pub open spec fn scan_spec(
    args: Seq<Seq<char>>,
    i: int,
    cfg: PicConfigModel,
    command: Option<Seq<char>>,
    pos: Seq<Seq<char>>,
) -> ScanModel
    decreases args.len() - i,
{
    if i < 0 || i >= args.len() {
        ScanModel::Done(cfg, command, pos)
    } else {
        let a = args[i];
        let next = if i + 1 < args.len() {
            args[i + 1]
        } else {
            Seq::empty()
        };
        let after = if i + 1 < args.len() {
            i + 2
        } else {
            args.len() as int
        };
        if a == "--device"@ {
            scan_spec(args, after, (next, cfg.1, cfg.2, cfg.3), command, pos)
        } else if a == "--address"@ {
            match addr_spec(next) {
                Ok(v) => scan_spec(args, after, (cfg.0, v, cfg.2, cfg.3), command, pos),
                Err(e) => ScanModel::Early(PicInvocationModel::BadAddress(e)),
            }
        } else if a == "--confirm-state-change"@ {
            scan_spec(args, i + 1, (cfg.0, cfg.1, true, cfg.3), command, pos)
        } else if a == "--verbose"@ {
            scan_spec(args, i + 1, (cfg.0, cfg.1, cfg.2, true), command, pos)
        } else if a == "--help"@ || a == "-h"@ || a == "help"@ {
            ScanModel::Early(PicInvocationModel::Help)
        } else if !is_long_option(a) && command is None {
            scan_spec(args, i + 1, cfg, Some(a), pos)
        } else if !is_long_option(a) {
            scan_spec(args, i + 1, cfg, command, pos.push(a))
        } else {
            ScanModel::Early(PicInvocationModel::Usage("unknown arg '"@ + a + "'"@))
        }
    }
}

/// The command a command word names, given the arguments after it.
pub open spec fn command_spec(cfg: PicConfigModel, name: Seq<char>, pos: Seq<Seq<char>>) -> PicInvocationModel {
    if name == "version"@ {
        PicInvocationModel::Run(cfg, PicCommand::Version)
    } else if name == "heartbeat"@ {
        PicInvocationModel::Run(cfg, PicCommand::Heartbeat)
    } else if name == "reset"@ {
        PicInvocationModel::Run(cfg, PicCommand::Reset)
    } else if name == "start-app"@ {
        PicInvocationModel::Run(cfg, PicCommand::StartApp)
    } else if name == "enable-dc-dc"@ {
        PicInvocationModel::Run(cfg, PicCommand::SetDcDc(true))
    } else if name == "disable-dc-dc"@ {
        PicInvocationModel::Run(cfg, PicCommand::SetDcDc(false))
    } else if name == "handshake"@ {
        PicInvocationModel::Run(cfg, PicCommand::Handshake)
    } else if name == "read-reg"@ {
        if pos.len() == 0 {
            PicInvocationModel::Failed("read-reg requires a register address (e.g. 0x48)"@)
        } else {
            match byte_spec(pos[0]) {
                Ok(reg) => PicInvocationModel::Run(cfg, PicCommand::ReadReg(reg)),
                Err(e) => PicInvocationModel::Failed(e),
            }
        }
    } else {
        PicInvocationModel::Usage("unknown command '"@ + name + "'"@)
    }
}

/// What a whole command line comes to.
pub open spec fn invocation_spec(args: Seq<Seq<char>>) -> PicInvocationModel {
    match scan_spec(args, 0, default_pic_config(), None, Seq::empty()) {
        ScanModel::Early(inv) => inv,
        ScanModel::Done(cfg, command, pos) => match command {
            None => PicInvocationModel::MissingCommand,
            Some(name) => command_spec(cfg, name, pos),
        },
    }
}

fn is_long_option_exec(s: &str) -> (b: bool)
    ensures
        b == is_long_option(s@),
{
    let n = s.unicode_len();
    n >= 2 && s.get_char(0) == '-' && s.get_char(1) == '-'
}

fn command_of(cfg: PicConfig, name: &str, pos: &Vec<String>) -> (inv: PicInvocation)
    ensures
        inv@ == command_spec(cfg@, name@, arg_views(pos@)),
{
    if str_eq(name, "version") {
        PicInvocation::Run(cfg, PicCommand::Version)
    } else if str_eq(name, "heartbeat") {
        PicInvocation::Run(cfg, PicCommand::Heartbeat)
    } else if str_eq(name, "reset") {
        PicInvocation::Run(cfg, PicCommand::Reset)
    } else if str_eq(name, "start-app") {
        PicInvocation::Run(cfg, PicCommand::StartApp)
    } else if str_eq(name, "enable-dc-dc") {
        PicInvocation::Run(cfg, PicCommand::SetDcDc(true))
    } else if str_eq(name, "disable-dc-dc") {
        PicInvocation::Run(cfg, PicCommand::SetDcDc(false))
    } else if str_eq(name, "handshake") {
        PicInvocation::Run(cfg, PicCommand::Handshake)
    } else if str_eq(name, "read-reg") {
        if pos.len() == 0 {
            PicInvocation::Failed(string_from("read-reg requires a register address (e.g. 0x48)"))
        } else {
            match parse_u8(pos[0].as_str()) {
                Ok(reg) => PicInvocation::Run(cfg, PicCommand::ReadReg(reg)),
                Err(e) => PicInvocation::Failed(e),
            }
        }
    } else {
        let mut m = concat("unknown command '", name);
        m.append("'");
        PicInvocation::Usage(m)
    }
}

/// Reads the PIC tool's command line (without the program name).
pub fn parse_invocation(args: Vec<String>) -> (inv: PicInvocation)
    ensures
        inv@ == invocation_spec(arg_views(args@)),
{
    let ghost a = arg_views(args@);
    let mut cfg = default_pic_config_value();
    let mut command: Option<String> = None;
    let mut positional: Vec<String> = Vec::new();
    let mut i: usize = 0;
    proof {
        assert(arg_views(positional@) =~= Seq::<Seq<char>>::empty());
    }
    while i < args.len()
        invariant
            i <= args.len(),
            a == arg_views(args@),
            scan_spec(a, 0, default_pic_config(), None, Seq::empty()) == scan_spec(
                a,
                i as int,
                cfg@,
                match command {
                    Some(c) => Some(c@),
                    None => None,
                },
                arg_views(positional@),
            ),
        decreases args.len() - i,
    {
        let arg = args[i].as_str();
        let next = if i + 1 < args.len() {
            string_from(args[i + 1].as_str())
        } else {
            String::new()
        };
        if str_eq(arg, "--device") {
            cfg.device = next;
            i = if i + 1 < args.len() { i + 2 } else { args.len() };
        } else if str_eq(arg, "--address") {
            match parse_addr(next.as_str()) {
                Ok(v) => {
                    cfg.address = v;
                },
                Err(e) => {
                    return PicInvocation::BadAddress(e);
                },
            }
            i = if i + 1 < args.len() { i + 2 } else { args.len() };
        } else if str_eq(arg, "--confirm-state-change") {
            cfg.confirm_state_change = true;
            i = i + 1;
        } else if str_eq(arg, "--verbose") {
            cfg.verbose = true;
            i = i + 1;
        } else if str_eq(arg, "--help") || str_eq(arg, "-h") || str_eq(arg, "help") {
            return PicInvocation::Help;
        } else if !is_long_option_exec(arg) && command.is_none() {
            command = Some(string_from(arg));
            i = i + 1;
        } else if !is_long_option_exec(arg) {
            let ghost before = arg_views(positional@);
            positional.push(string_from(arg));
            proof {
                assert(arg_views(positional@) =~= before.push(a[i as int]));
            }
            i = i + 1;
        } else {
            let mut m = concat("unknown arg '", arg);
            m.append("'");
            return PicInvocation::Usage(m);
        }
    }
    match command {
        None => PicInvocation::MissingCommand,
        Some(name) => command_of(cfg, name.as_str(), &positional),
    }
}

/// The name under which a command that changes the PIC's state is
/// refused without consent; `None` for the read-only commands.
pub open spec fn state_change_name_spec(cmd: PicCommand) -> Option<Seq<char>> {
    match cmd {
        PicCommand::Reset => Some("reset"@),
        PicCommand::StartApp => Some("start-app"@),
        PicCommand::SetDcDc(true) => Some("enable-dc-dc"@),
        PicCommand::SetDcDc(false) => Some("disable-dc-dc"@),
        PicCommand::Handshake => Some("handshake"@),
        _ => None,
    }
}

/// Only the read-only commands (version, heartbeat and register reads)
/// run without consent: every command that changes the PIC's state has a
/// state-change name, and that name is the very command word that asks for
/// it on the command line.
pub proof fn lemma_state_change_names(cmd: PicCommand, cfg: PicConfigModel, pos: Seq<Seq<char>>)
    ensures
        state_change_name_spec(cmd) is None <==> (cmd is Version || cmd is Heartbeat
            || cmd is ReadReg),
        state_change_name_spec(cmd) matches Some(n) ==> command_spec(cfg, n, pos)
            == PicInvocationModel::Run(cfg, cmd),
{
    reveal_strlit("version");
    reveal_strlit("heartbeat");
    reveal_strlit("reset");
    reveal_strlit("start-app");
    reveal_strlit("enable-dc-dc");
    reveal_strlit("disable-dc-dc");
    reveal_strlit("handshake");
    assert("version"@.len() != "reset"@.len());
    assert("heartbeat"@ != "start-app"@) by {
        assert("heartbeat"@[0] != "start-app"@[0]);
    }
    assert("heartbeat"@ != "handshake"@) by {
        assert("heartbeat"@[1] != "handshake"@[1]);
    }
    assert("start-app"@ != "handshake"@) by {
        assert("start-app"@[0] != "handshake"@[0]);
    }
    assert("enable-dc-dc"@.len() != "disable-dc-dc"@.len());
}

pub fn state_change_name(cmd: PicCommand) -> (r: Option<&'static str>)
    ensures
        r matches Some(n) ==> state_change_name_spec(cmd) == Some(n@),
        r is None ==> state_change_name_spec(cmd) is None,
{
    match cmd {
        PicCommand::Reset => Some("reset"),
        PicCommand::StartApp => Some("start-app"),
        PicCommand::SetDcDc(true) => Some("enable-dc-dc"),
        PicCommand::SetDcDc(false) => Some("disable-dc-dc"),
        PicCommand::Handshake => Some("handshake"),
        _ => None,
    }
}

/// A state-changing command runs only with `--confirm-state-change`.
pub fn require_state_change(cfg: &PicConfig, name: &str) -> (r: Result<(), String>)
    ensures
        cfg.confirm_state_change ==> r is Ok,
        !cfg.confirm_state_change ==> (r matches Err(e) && e@ == "command '"@ + name@
            + "' changes PIC state; rerun with --confirm-state-change"@),
{
    if cfg.confirm_state_change {
        Ok(())
    } else {
        let mut m = concat("command '", name);
        m.append("' changes PIC state; rerun with --confirm-state-change");
        Err(m)
    }
}

} // verus!
