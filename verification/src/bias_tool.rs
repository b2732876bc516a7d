//! The GPIO bias tool: its command line, GPIO names, where each GPIO's
//! pull bits live, how a bias reads from them and which bits a new bias
//! writes.

use vstd::prelude::*;

use crate::args::{decimal_arg_spec, parse_decimal};
use crate::gpio::{
    bank_descs, bank_index, bank_index_from, bank_table, bit_of, in_bank, lemma_bank_index_found,
    reg_of, BankDesc, BankKind,
};
use crate::text::{
    arg_views, chars_of, concat, concat_decimal, decimal_spec, help_word, is_help_word,
    push_decimal, result_view, str_eq, string_from, string_of_chars, trim_spec, trimmed,
};

verus! {

/// The most GPIOs one invocation handles.
pub const MAX_GPIOS: usize = 3;
/// The GPIO numbers the tool accepts.
pub const FIRST_SUPPORTED_GPIO: u32 = 411;
pub const LAST_SUPPORTED_GPIO: u32 = 511;

/// A pull bias.
#[derive(Debug, Clone, Copy, PartialEq, Eq, Structural)]
pub enum BiasMode {
    Disable,
    PullUp,
    PullDown,
}

/// What the bias tool was asked to do, with up to three GPIOs (the first
/// `count` of `gpios`).
#[derive(Debug, Clone, Copy)]
pub enum Command {
    Help,
    Show { gpios: [u32; 3], count: usize },
    SetBias { mode: BiasMode, gpios: [u32; 3], count: usize },
}

/// A command as plain values.
pub enum CommandModel {
    Help,
    Show(Seq<u32>),
    SetBias(BiasMode, Seq<u32>),
}

impl View for Command {
    type V = CommandModel;

    open spec fn view(&self) -> CommandModel {
        match self {
            Command::Help => CommandModel::Help,
            Command::Show { gpios, count } => CommandModel::Show(gpios@.take(*count as int)),
            Command::SetBias { mode, gpios, count } => CommandModel::SetBias(
                *mode,
                gpios@.take(*count as int),
            ),
        }
    }
}

/// A bias mode by any of its names.
pub open spec fn bias_mode_spec(s: Seq<char>) -> Result<BiasMode, Seq<char>> {
    if s == "disable"@ || s == "none"@ || s == "no-pull"@ {
        Ok(BiasMode::Disable)
    } else if s == "pull-up"@ || s == "up"@ {
        Ok(BiasMode::PullUp)
    } else if s == "pull-down"@ || s == "down"@ {
        Ok(BiasMode::PullDown)
    } else {
        Err("unknown bias mode: "@ + s)
    }
}

pub fn parse_bias_mode(value: &str) -> (r: Result<BiasMode, String>)
    ensures
        result_view(r) == bias_mode_spec(value@),
{
    if str_eq(value, "disable") || str_eq(value, "none") || str_eq(value, "no-pull") {
        Ok(BiasMode::Disable)
    } else if str_eq(value, "pull-up") || str_eq(value, "up") {
        Ok(BiasMode::PullUp)
    } else if str_eq(value, "pull-down") || str_eq(value, "down") {
        Ok(BiasMode::PullDown)
    } else {
        Err(concat("unknown bias mode: ", value))
    }
}

/// The pieces of `s` between commas (`str::split(',')`): one more than
/// there are commas, possibly empty.
pub open spec fn split_commas(s: Seq<char>) -> Seq<Seq<char>>
    decreases s.len(),
{
    if s.len() == 0 {
        seq![Seq::empty()]
    } else {
        let rest = split_commas(s.drop_last());
        if s.last() == ',' {
            rest.push(Seq::empty())
        } else {
            rest.update(rest.len() - 1, rest.last().push(s.last()))
        }
    }
}

/// The views of a list of character vectors.
pub open spec fn char_views(v: Seq<Vec<char>>) -> Seq<Seq<char>> {
    v.map_values(|p: Vec<char>| p@)
}

fn split_at_commas(s: &str) -> (parts: Vec<Vec<char>>)
    ensures
        char_views(parts@) == split_commas(s@),
{
    let chars = chars_of(s);
    let mut parts: Vec<Vec<char>> = Vec::new();
    let mut cur: Vec<char> = Vec::new();
    let mut i: usize = 0;
    proof {
        assert(s@.take(0) =~= Seq::<char>::empty());
        assert(char_views(parts@).push(cur@) =~= seq![Seq::<char>::empty()]);
    }
    while i < chars.len()
        invariant
            i <= chars@.len(),
            chars@ == s@,
            split_commas(s@.take(i as int)) == char_views(parts@).push(cur@),
        decreases chars@.len() - i,
    {
        let c = chars[i];
        let ghost before_parts = char_views(parts@);
        let ghost before_cur = cur@;
        proof {
            assert(s@.take(i + 1).drop_last() =~= s@.take(i as int));
        }
        if c == ',' {
            parts.push(cur);
            cur = Vec::new();
            proof {
                assert(char_views(parts@) =~= before_parts.push(before_cur));
                assert(char_views(parts@).push(cur@) =~= before_parts.push(before_cur).push(
                    Seq::empty(),
                ));
            }
        } else {
            cur.push(c);
            proof {
                assert(char_views(parts@).push(cur@) =~= before_parts.push(before_cur).update(
                    before_parts.len() as int,
                    before_cur.push(c),
                ));
            }
        }
        i = i + 1;
    }
    let ghost before_parts = char_views(parts@);
    let ghost last = cur@;
    parts.push(cur);
    proof {
        assert(s@.take(i as int) =~= s@);
        assert(char_views(parts@) =~= before_parts.push(last));
    }
    parts
}

/// A GPIO the tool accepts: 411..=511.
pub open spec fn supported_gpio(g: nat) -> bool {
    FIRST_SUPPORTED_GPIO <= g <= LAST_SUPPORTED_GPIO
}

/// The GPIOs of the pieces from `j` on, after those already read
/// (`acc`): pieces are trimmed and empty ones skipped; a fourth GPIO, a
/// piece that is not a decimal `u32`, or a GPIO outside 411..=511 is
/// refused; no GPIO at all is refused too.
pub open spec fn gpio_list_from(parts: Seq<Seq<char>>, j: int, acc: Seq<u32>) -> Result<Seq<u32>, Seq<char>>
    decreases parts.len() - j,
{
    if j < 0 || j >= parts.len() {
        if acc.len() == 0 {
            Err("GPIO list is empty"@)
        } else {
            Ok(acc)
        }
    } else {
        let t = trim_spec(parts[j]);
        if t.len() == 0 {
            gpio_list_from(parts, j + 1, acc)
        } else if acc.len() >= MAX_GPIOS {
            Err("too many GPIOs; maximum is 3 per invocation"@)
        } else {
            match decimal_arg_spec(t, u32::MAX as nat) {
                Err(e) => Err(e),
                Ok(g) => if !supported_gpio(g) {
                    Err("GPIO out of supported range: "@ + decimal_spec(g))
                } else {
                    gpio_list_from(parts, j + 1, acc.push(g as u32))
                },
            }
        }
    }
}

/// The GPIOs of a comma-separated list.
pub open spec fn gpio_list_spec(s: Seq<char>) -> Result<Seq<u32>, Seq<char>> {
    gpio_list_from(split_commas(s), 0, Seq::empty())
}

/// Refuses a GPIO outside 411..=511.
pub fn validate_gpio(gpio: u32) -> (r: Result<(), String>)
    ensures
        supported_gpio(gpio as nat) ==> r is Ok,
        !supported_gpio(gpio as nat) ==> (r matches Err(e) && e@ == "GPIO out of supported range: "@
            + decimal_spec(gpio as nat)),
{
    if gpio < FIRST_SUPPORTED_GPIO || gpio > LAST_SUPPORTED_GPIO {
        Err(concat_decimal("GPIO out of supported range: ", gpio as u64))
    } else {
        Ok(())
    }
}

/// Parses a comma-separated list of up to three GPIOs; they come back in
/// the first `count` places of the array, the rest of which is zero.
pub fn parse_gpio_list(value: Option<&String>) -> (r: Result<([u32; 3], usize), String>)
    ensures
        value is None ==> (r matches Err(e) && e@ == "missing GPIO list"@),
        r matches Ok((gpios, count)) ==> 1 <= count <= 3,
        value matches Some(v) ==> (match r {
            Ok((gpios, count)) => count <= 3 && gpio_list_spec(v@) == Ok::<Seq<u32>, Seq<char>>(
                gpios@.take(count as int),
            ) && (forall|k: int| count <= k < 3 ==> gpios@[k] == 0),
            Err(e) => gpio_list_spec(v@) == Err::<Seq<u32>, Seq<char>>(e@),
        }),
{
    let raw = match value {
        None => return Err(string_from("missing GPIO list")),
        Some(v) => v,
    };
    let parts = split_at_commas(raw.as_str());
    let ghost ps = split_commas(raw@);
    let mut gpios: [u32; 3] = [0, 0, 0];
    let mut count: usize = 0;
    let mut j: usize = 0;
    proof {
        assert(gpios@.take(0) =~= Seq::<u32>::empty());
    }
    while j < parts.len()
        invariant
            j <= parts@.len(),
            value == Some(raw),
            char_views(parts@) == ps,
            ps == split_commas(raw@),
            count <= 3,
            forall|k: int| count <= k < 3 ==> gpios@[k] == 0,
            gpio_list_from(ps, 0, Seq::empty()) == gpio_list_from(
                ps,
                j as int,
                gpios@.take(count as int),
            ),
        decreases parts@.len() - j,
    {
        let piece = string_of_chars(&parts[j]);
        let t = trimmed(piece.as_str());
        proof {
            assert(piece@ == ps[j as int]);
        }
        if t.unicode_len() != 0 {
            if count >= MAX_GPIOS {
                proof {
                    assert(t@.len() > 0);
                    assert(gpios@.take(count as int).len() >= 3);
                    assert(gpio_list_from(ps, j as int, gpios@.take(count as int)) == Err::<Seq<u32>, Seq<char>>(
                        "too many GPIOs; maximum is 3 per invocation"@));
                }
                return Err(string_from("too many GPIOs; maximum is 3 per invocation"));
            }
            let gpio = match parse_decimal(t.as_str(), u32::MAX as u64) {
                Ok(g) => g as u32,
                Err(e) => return Err(e),
            };
            match validate_gpio(gpio) {
                Ok(()) => {},
                Err(e) => return Err(e),
            }
            let ghost before = gpios@.take(count as int);
            gpios[count] = gpio;
            count = count + 1;
            proof {
                assert(gpios@.take(count as int) =~= before.push(gpio));
            }
        }
        j = j + 1;
    }
    if count == 0 {
        return Err(string_from("GPIO list is empty"));
    }
    Ok((gpios, count))
}

/// The command a list of arguments asks for.
pub open spec fn command_spec(args: Seq<Seq<char>>) -> Result<CommandModel, Seq<char>> {
    if args.len() == 0 || is_help_word(args[0]) {
        Ok(CommandModel::Help)
    } else if args[0] == "show"@ {
        if args.len() < 2 {
            Err("missing GPIO list"@)
        } else {
            match gpio_list_spec(args[1]) {
                Err(e) => Err(e),
                Ok(g) => Ok(CommandModel::Show(g)),
            }
        }
    } else if args[0] == "set"@ {
        if args.len() < 2 {
            Err("missing bias mode"@)
        } else {
            match bias_mode_spec(args[1]) {
                Err(e) => Err(e),
                Ok(mode) => if args.len() < 3 {
                    Err("missing GPIO list"@)
                } else {
                    match gpio_list_spec(args[2]) {
                        Err(e) => Err(e),
                        Ok(g) => Ok(CommandModel::SetBias(mode, g)),
                    }
                },
            }
        }
    } else {
        Err("unknown command: "@ + args[0])
    }
}

/// Reads the bias tool's command line (without the program name).
pub fn parse_args(args: Vec<String>) -> (r: Result<Command, String>)
    ensures
        (match r {
            Ok(c) => command_spec(arg_views(args@)) == Ok::<CommandModel, Seq<char>>(c@),
            Err(e) => command_spec(arg_views(args@)) == Err::<CommandModel, Seq<char>>(e@),
        }),
        r matches Ok(Command::Show { count, .. }) ==> 1 <= count <= 3,
        r matches Ok(Command::SetBias { count, .. }) ==> 1 <= count <= 3,
{
    if args.len() == 0 {
        return Ok(Command::Help);
    }
    let first = args[0].as_str();
    if help_word(first) {
        Ok(Command::Help)
    } else if str_eq(first, "show") {
        let list = if args.len() < 2 {
            None
        } else {
            Some(&args[1])
        };
        match parse_gpio_list(list) {
            Ok((gpios, count)) => Ok(Command::Show { gpios, count }),
            Err(e) => Err(e),
        }
    } else if str_eq(first, "set") {
        if args.len() < 2 {
            return Err(string_from("missing bias mode"));
        }
        let mode = match parse_bias_mode(args[1].as_str()) {
            Ok(m) => m,
            Err(e) => return Err(e),
        };
        let list = if args.len() < 3 {
            None
        } else {
            Some(&args[2])
        };
        match parse_gpio_list(list) {
            Ok((gpios, count)) => Ok(Command::SetBias { mode, gpios, count }),
            Err(e) => Err(e),
        }
    } else {
        Err(concat("unknown command: ", first))
    }
}

/// The pin name of a GPIO: its bank and index in the bank.
pub open spec fn gpio_name_spec(g: u32) -> Seq<char> {
    if 411 <= g <= 421 {
        "GPIOZ_"@ + decimal_spec((g - 411) as nat)
    } else if 422 <= g <= 436 {
        "BOOT_"@ + decimal_spec((g - 422) as nat)
    } else if 437 <= g <= 457 {
        "GPIOA_"@ + decimal_spec((g - 437) as nat)
    } else if 458 <= g <= 480 {
        "GPIOX_"@ + decimal_spec((g - 458) as nat)
    } else if 481 <= g <= 496 {
        "GPIOY_"@ + decimal_spec((g - 481) as nat)
    } else if 497 <= g <= 510 {
        "GPIOAO_"@ + decimal_spec((g - 497) as nat)
    } else if g == 511 {
        "GPIO_TEST_N"@
    } else {
        "GPIO_"@ + decimal_spec(g as nat)
    }
}

pub fn gpio_name(gpio: u32) -> (name: String)
    ensures
        name@ == gpio_name_spec(gpio),
{
    if 411 <= gpio && gpio <= 421 {
        concat_decimal("GPIOZ_", (gpio - 411) as u64)
    } else if 422 <= gpio && gpio <= 436 {
        concat_decimal("BOOT_", (gpio - 422) as u64)
    } else if 437 <= gpio && gpio <= 457 {
        concat_decimal("GPIOA_", (gpio - 437) as u64)
    } else if 458 <= gpio && gpio <= 480 {
        concat_decimal("GPIOX_", (gpio - 458) as u64)
    } else if 481 <= gpio && gpio <= 496 {
        concat_decimal("GPIOY_", (gpio - 481) as u64)
    } else if 497 <= gpio && gpio <= 510 {
        concat_decimal("GPIOAO_", (gpio - 497) as u64)
    } else if gpio == 511 {
        string_from("GPIO_TEST_N")
    } else {
        concat_decimal("GPIO_", gpio as u64)
    }
}

/// Where a GPIO's pull-select and pull-enable bits live.
#[derive(Debug, Clone, Copy, PartialEq, Eq, Structural)]
pub struct PullLocation {
    pub kind: BankKind,
    pub pull_reg: usize,
    pub pull_bit: u32,
    pub pullen_reg: usize,
    pub pullen_bit: u32,
}

/// The pull bits of `gpio` in `bank`.
pub open spec fn pull_location(bank: BankDesc, gpio: u32) -> PullLocation {
    let offset = gpio - bank.linux_first;
    PullLocation {
        kind: bank.kind,
        pull_reg: reg_of(bank.pull_reg, bank.pull_bit, offset),
        pull_bit: bit_of(bank.pull_bit, offset),
        pullen_reg: reg_of(bank.pullen_reg, bank.pullen_bit, offset),
        pullen_bit: bit_of(bank.pullen_bit, offset),
    }
}

/// Finds the pull bits of `gpio`; GPIOs outside every bank are refused.
pub fn locate_bias(gpio: u32) -> (r: Result<PullLocation, String>)
    ensures
        bank_index(gpio) < 6 ==> r == Ok::<PullLocation, String>(
            pull_location(bank_table()[bank_index(gpio)], gpio),
        ),
        bank_index(gpio) == 6 ==> (r matches Err(e) && e@ == "unsupported GPIO: "@ + decimal_spec(
            gpio as nat,
        )),
        r matches Ok(loc) ==> loc.pull_bit < 32 && loc.pullen_bit < 32,
{
    let banks = bank_descs();
    let mut i: usize = 0;
    while i < 6
        invariant
            i <= 6,
            banks@ == bank_table(),
            bank_index_from(gpio, 0) == bank_index_from(gpio, i as int),
        decreases 6 - i,
    {
        let bank = banks[i];
        if gpio >= bank.linux_first && gpio < bank.linux_first + bank.count {
            let bit_offset = gpio - bank.linux_first;
            return Ok(
                PullLocation {
                    kind: bank.kind,
                    pull_reg: bank.pull_reg + ((bank.pull_bit + bit_offset) / 32) as usize,
                    pull_bit: (bank.pull_bit + bit_offset) % 32,
                    pullen_reg: bank.pullen_reg + ((bank.pullen_bit + bit_offset) / 32) as usize,
                    pullen_bit: (bank.pullen_bit + bit_offset) % 32,
                },
            );
        }
        i = i + 1;
    }
    let mut e = string_from("unsupported GPIO: ");
    push_decimal(&mut e, gpio as u64);
    Err(e)
}

/// Bit `bit` of `word` is set.
pub open spec fn bit_set(word: u32, bit: u32) -> bool {
    (word >> bit) & 1u32 != 0
}

/// How a bias reads from its two words: disabled when the enable bit is
/// clear, otherwise pull-up or pull-down by the select bit.
pub open spec fn bias_label_spec(pull_word: u32, pullen_word: u32, loc: PullLocation) -> Seq<char> {
    if !bit_set(pullen_word, loc.pullen_bit) {
        "disabled"@
    } else if bit_set(pull_word, loc.pull_bit) {
        "pull-up"@
    } else {
        "pull-down"@
    }
}

/// How a bias reads. (The AO bank keeps both bits in one word, which is
/// then passed twice.)
pub fn bias_label(pull_word: u32, pullen_word: u32, loc: PullLocation) -> (label: &'static str)
    requires
        loc.pull_bit < 32,
        loc.pullen_bit < 32,
    ensures
        label@ == bias_label_spec(pull_word, pullen_word, loc),
{
    let enabled = ((pullen_word >> loc.pullen_bit) & 1) != 0;
    let pull_up = ((pull_word >> loc.pull_bit) & 1) != 0;
    if !enabled {
        "disabled"
    } else if pull_up {
        "pull-up"
    } else {
        "pull-down"
    }
}

/// The register blocks that hold pull bits.
#[derive(Debug, Clone, Copy, PartialEq, Eq, Hash, Structural)]
pub enum RegisterBlock {
    PeriphsPull,
    PeriphsPullen,
    AoPull,
}

/// One bit to set or clear in a register of a block.
#[derive(Debug, Clone, Copy, PartialEq, Eq, Structural)]
pub struct BitUpdate {
    pub block: RegisterBlock,
    pub reg: usize,
    pub bit: u32,
    pub set: bool,
}

/// The bits a bias change writes, in order: disabling clears the enable
/// bit; a pull-up or pull-down first sets or clears the select bit, then
/// sets the enable bit. The AO bank keeps both in its one pull register.
pub open spec fn bias_updates_spec(loc: PullLocation, mode: BiasMode) -> Seq<BitUpdate> {
    let (pull_block, pullen_block) = match loc.kind {
        BankKind::Periphs => (RegisterBlock::PeriphsPull, RegisterBlock::PeriphsPullen),
        BankKind::Ao => (RegisterBlock::AoPull, RegisterBlock::AoPull),
    };
    let enable = |set: bool| BitUpdate { block: pullen_block, reg: loc.pullen_reg, bit: loc.pullen_bit, set };
    let select = |set: bool| BitUpdate { block: pull_block, reg: loc.pull_reg, bit: loc.pull_bit, set };
    match mode {
        BiasMode::Disable => seq![enable(false)],
        BiasMode::PullUp => seq![select(true), enable(true)],
        BiasMode::PullDown => seq![select(false), enable(true)],
    }
}

pub fn bias_updates(loc: PullLocation, mode: BiasMode) -> (v: Vec<BitUpdate>)
    ensures
        v@ == bias_updates_spec(loc, mode),
{
    let (pull_block, pullen_block) = match loc.kind {
        BankKind::Periphs => (RegisterBlock::PeriphsPull, RegisterBlock::PeriphsPullen),
        BankKind::Ao => (RegisterBlock::AoPull, RegisterBlock::AoPull),
    };
    let mut v = Vec::new();
    match mode {
        BiasMode::Disable => {},
        BiasMode::PullUp => {
            v.push(BitUpdate { block: pull_block, reg: loc.pull_reg, bit: loc.pull_bit, set: true });
        },
        BiasMode::PullDown => {
            v.push(BitUpdate { block: pull_block, reg: loc.pull_reg, bit: loc.pull_bit, set: false });
        },
    }
    let enable = match mode {
        BiasMode::Disable => false,
        _ => true,
    };
    v.push(BitUpdate { block: pullen_block, reg: loc.pullen_reg, bit: loc.pullen_bit, set: enable });
    proof {
        assert(v@ =~= bias_updates_spec(loc, mode));
    }
    v
}

/// The name under which a mode reads back.
pub open spec fn mode_label(mode: BiasMode) -> Seq<char> {
    match mode {
        BiasMode::Disable => "disabled"@,
        BiasMode::PullUp => "pull-up"@,
        BiasMode::PullDown => "pull-down"@,
    }
}

/// `word` with bit `bit` set or cleared.
pub open spec fn with_bit_spec(word: u32, bit: u32, set: bool) -> u32 {
    if set {
        word | (1u32 << bit)
    } else {
        word & !(1u32 << bit)
    }
}

/// The registers of the three blocks, by block and word index.
pub open spec fn apply_update(
    regs: spec_fn((RegisterBlock, usize)) -> u32,
    u: BitUpdate,
) -> spec_fn((RegisterBlock, usize)) -> u32 {
    |k: (RegisterBlock, usize)|
        if k == (u.block, u.reg) {
            with_bit_spec(regs(k), u.bit, u.set)
        } else {
            regs(k)
        }
}

/// The registers after a list of bit updates, applied in order.
pub open spec fn apply_updates(
    regs: spec_fn((RegisterBlock, usize)) -> u32,
    us: Seq<BitUpdate>,
) -> spec_fn((RegisterBlock, usize)) -> u32
    decreases us.len(),
{
    if us.len() == 0 {
        regs
    } else {
        apply_updates(apply_update(regs, us[0]), us.drop_first())
    }
}

/// The two words a bias is read from: the select and enable registers of
/// the peripheral blocks, or the one AO pull register twice.
pub open spec fn read_bias_words(regs: spec_fn((RegisterBlock, usize)) -> u32, loc: PullLocation) -> (u32, u32) {
    match loc.kind {
        BankKind::Periphs => (
            regs((RegisterBlock::PeriphsPull, loc.pull_reg)),
            regs((RegisterBlock::PeriphsPullen, loc.pullen_reg)),
        ),
        BankKind::Ao => (regs((RegisterBlock::AoPull, 0usize)), regs((RegisterBlock::AoPull, 0usize))),
    }
}

proof fn lemma_with_bit(word: u32, bit: u32, set: bool, other: u32)
    requires
        bit < 32,
        other < 32,
    ensures
        bit_set(with_bit_spec(word, bit, set), bit) == set,
        other != bit ==> bit_set(with_bit_spec(word, bit, set), other) == bit_set(word, other),
{
    assert(bit_set(word | (1u32 << bit), bit) && !bit_set(word & !(1u32 << bit), bit)) by (bit_vector)
        requires
            bit < 32,
    ;
    assert(other != bit ==> (bit_set(word | (1u32 << bit), other) == bit_set(word, other)
        && bit_set(word & !(1u32 << bit), other) == bit_set(word, other))) by (bit_vector)
        requires
            bit < 32,
            other < 32,
    ;
}

/// Setting a GPIO's bias and then reading it gives back the mode that was
/// set, whatever the registers held before.
pub proof fn lemma_set_then_read(gpio: u32, mode: BiasMode, regs: spec_fn((RegisterBlock, usize)) -> u32)
    requires
        bank_index(gpio) < 6,
    ensures
        ({
            let loc = pull_location(bank_table()[bank_index(gpio)], gpio);
            let words = read_bias_words(apply_updates(regs, bias_updates_spec(loc, mode)), loc);
            bias_label_spec(words.0, words.1, loc) == mode_label(mode)
        }),
{
    let i = bank_index(gpio);
    assert(bank_index_from(gpio, 0) == i);
    assert(0 <= i < 6 && in_bank(bank_table()[i], gpio)) by {
        lemma_bank_index_found(gpio, 0);
    }
    let bank = bank_table()[i];
    let loc = pull_location(bank, gpio);
    let us = bias_updates_spec(loc, mode);
    assert(loc.pull_bit < 32 && loc.pullen_bit < 32);
    if loc.kind == BankKind::Ao {
        assert(i == 5);
        assert(loc.pull_reg == 0 && loc.pullen_reg == 0 && loc.pull_bit != loc.pullen_bit);
    }
    let pull_key = match loc.kind {
        BankKind::Periphs => (RegisterBlock::PeriphsPull, loc.pull_reg),
        BankKind::Ao => (RegisterBlock::AoPull, 0usize),
    };
    let pullen_key = match loc.kind {
        BankKind::Periphs => (RegisterBlock::PeriphsPullen, loc.pullen_reg),
        BankKind::Ao => (RegisterBlock::AoPull, 0usize),
    };
    match mode {
        BiasMode::Disable => {
            let r1 = apply_update(regs, us[0]);
            assert(us.drop_first().len() == 0);
            assert(apply_updates(regs, us) == apply_updates(r1, us.drop_first()));
            lemma_with_bit(regs(pullen_key), loc.pullen_bit, false, loc.pullen_bit);
            assert(r1(pullen_key) == with_bit_spec(regs(pullen_key), loc.pullen_bit, false));
        },
        _ => {
            let set = mode == BiasMode::PullUp;
            let r1 = apply_update(regs, us[0]);
            let r2 = apply_update(r1, us[1]);
            assert(us.drop_first() =~= seq![us[1]]);
            assert(apply_updates(regs, us) == apply_updates(r1, seq![us[1]]));
            assert(apply_updates(r1, seq![us[1]]) == apply_updates(r2, seq![us[1]].drop_first()));
            assert(seq![us[1]].drop_first().len() == 0);
            lemma_with_bit(regs(pull_key), loc.pull_bit, set, loc.pull_bit);
            assert(r1(pull_key) == with_bit_spec(regs(pull_key), loc.pull_bit, set));
            lemma_with_bit(r1(pullen_key), loc.pullen_bit, true, loc.pull_bit);
            assert(r2(pullen_key) == with_bit_spec(r1(pullen_key), loc.pullen_bit, true));
            if loc.kind == BankKind::Periphs {
                assert(r2(pull_key) == r1(pull_key));
            } else {
                assert(pull_key == pullen_key);
                assert(bit_set(r2(pull_key), loc.pull_bit) == bit_set(r1(pull_key), loc.pull_bit));
            }
        },
    }
}

/// The register, word and bit that hold a GPIO's pull-select bit.
pub open spec fn pull_slot(loc: PullLocation) -> (RegisterBlock, usize, u32) {
    match loc.kind {
        BankKind::Periphs => (RegisterBlock::PeriphsPull, loc.pull_reg, loc.pull_bit),
        BankKind::Ao => (RegisterBlock::AoPull, 0usize, loc.pull_bit),
    }
}

/// The register, word and bit that hold a GPIO's pull-enable bit.
pub open spec fn pullen_slot(loc: PullLocation) -> (RegisterBlock, usize, u32) {
    match loc.kind {
        BankKind::Periphs => (RegisterBlock::PeriphsPullen, loc.pullen_reg, loc.pullen_bit),
        BankKind::Ao => (RegisterBlock::AoPull, 0usize, loc.pullen_bit),
    }
}

/// Bit `b` of word `k` is the same after the updates `us`, none of which
/// writes that bit.
proof fn lemma_updates_keep_bit(
    regs: spec_fn((RegisterBlock, usize)) -> u32,
    us: Seq<BitUpdate>,
    k: (RegisterBlock, usize),
    b: u32,
)
    requires
        b < 32,
        forall|i: int| 0 <= i < us.len() ==> (#[trigger] us[i]).bit < 32 && (us[i].block, us[i].reg, us[i].bit) != (k.0, k.1, b),
    ensures
        bit_set(apply_updates(regs, us)(k), b) == bit_set(regs(k), b),
    decreases us.len(),
{
    if us.len() > 0 {
        let u = us[0];
        let r1 = apply_update(regs, u);
        lemma_with_bit(regs(k), u.bit, u.set, b);
        assert(bit_set(r1(k), b) == bit_set(regs(k), b));
        assert forall|i: int| 0 <= i < us.drop_first().len() implies (#[trigger] us.drop_first()[i]).bit
            < 32 && (us.drop_first()[i].block, us.drop_first()[i].reg, us.drop_first()[i].bit) != (
            k.0,
            k.1,
            b,
        ) by {
            assert(us.drop_first()[i] == us[i + 1]);
        }
        lemma_updates_keep_bit(r1, us.drop_first(), k, b);
    }
}

/// Two different GPIOs have their pull bits in different places, and no
/// GPIO's select bit is another's enable bit.
proof fn lemma_slots_distinct(gpio: u32, g2: u32)
    requires
        bank_index(gpio) < 6,
        bank_index(g2) < 6,
        gpio != g2,
    ensures
        ({
            let a = pull_location(bank_table()[bank_index(gpio)], gpio);
            let b = pull_location(bank_table()[bank_index(g2)], g2);
            &&& pull_slot(a) != pull_slot(b)
            &&& pull_slot(a) != pullen_slot(b)
            &&& pullen_slot(a) != pull_slot(b)
            &&& pullen_slot(a) != pullen_slot(b)
            &&& a.pull_bit < 32 && a.pullen_bit < 32 && b.pull_bit < 32 && b.pullen_bit < 32
            &&& (a.kind == BankKind::Ao ==> a.pull_reg == 0 && a.pullen_reg == 0)
        }),
{
    lemma_bank_index_found(gpio, 0);
    lemma_bank_index_found(g2, 0);
    let i = bank_index(gpio);
    let j = bank_index(g2);
    assert(bank_index_from(gpio, 0) == i && bank_index_from(g2, 0) == j);
}

/// Setting one GPIO's bias leaves the bias that every other GPIO reads
/// as it was, whatever the registers held.
pub proof fn lemma_set_keeps_others(
    gpio: u32,
    g2: u32,
    mode: BiasMode,
    regs: spec_fn((RegisterBlock, usize)) -> u32,
)
    requires
        bank_index(gpio) < 6,
        bank_index(g2) < 6,
        gpio != g2,
    ensures
        ({
            let loc = pull_location(bank_table()[bank_index(gpio)], gpio);
            let loc2 = pull_location(bank_table()[bank_index(g2)], g2);
            let after = read_bias_words(apply_updates(regs, bias_updates_spec(loc, mode)), loc2);
            let before = read_bias_words(regs, loc2);
            bias_label_spec(after.0, after.1, loc2) == bias_label_spec(before.0, before.1, loc2)
        }),
{
    let loc = pull_location(bank_table()[bank_index(gpio)], gpio);
    let loc2 = pull_location(bank_table()[bank_index(g2)], g2);
    lemma_slots_distinct(gpio, g2);
    let us = bias_updates_spec(loc, mode);
    assert forall|i: int| 0 <= i < us.len() implies (#[trigger] us[i]).bit < 32 && (
        (us[i].block, us[i].reg, us[i].bit) == pull_slot(loc) || (us[i].block, us[i].reg, us[i].bit)
            == pullen_slot(loc)) by {}
    let ps = pull_slot(loc2);
    let es = pullen_slot(loc2);
    lemma_updates_keep_bit(regs, us, (ps.0, ps.1), ps.2);
    lemma_updates_keep_bit(regs, us, (es.0, es.1), es.2);
}

} // verus!
