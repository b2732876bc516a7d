//! Sysfs GPIO handles and the pull-bias register map of the AXG GPIO
//! banks (GPIOZ, BOOT, GPIOA, GPIOX, GPIOY and GPIOAO).

use vstd::prelude::*;

use crate::text::{decimal_spec, push_decimal, string_from, trim_spec, trimmed, str_eq};

verus! {

pub const PERIPHS_PULL_PHYS: usize = 0xff6344e8;
pub const PERIPHS_PULLEN_PHYS: usize = 0xff634520;
pub const AO_PULL_PHYS: usize = 0xff800024;

pub const PERIPHS_PULL_WORDS: usize = 5;
pub const AO_PULL_WORDS: usize = 1;

/// Which register block holds a bank's pull bits.
#[derive(Debug, Clone, Copy, PartialEq, Eq, Structural)]
pub enum BankKind {
    Periphs,
    Ao,
}

/// A GPIO bank: its Linux GPIO numbers and where its pull-select and
/// pull-enable bits start.
#[derive(Debug, Clone, Copy, PartialEq, Eq, Structural)]
pub struct BankDesc {
    pub linux_first: u32,
    pub count: u32,
    pub pull_reg: usize,
    pub pull_bit: u32,
    pub pullen_reg: usize,
    pub pullen_bit: u32,
    pub kind: BankKind,
}

/// The banks of the AXG SoC as Linux numbers them.
pub open spec fn bank_table() -> Seq<BankDesc> {
    seq![
        BankDesc { linux_first: 411, count: 11, pull_reg: 3, pull_bit: 0, pullen_reg: 3, pullen_bit: 0, kind: BankKind::Periphs },
        BankDesc { linux_first: 422, count: 15, pull_reg: 4, pull_bit: 0, pullen_reg: 4, pullen_bit: 0, kind: BankKind::Periphs },
        BankDesc { linux_first: 437, count: 21, pull_reg: 0, pull_bit: 0, pullen_reg: 0, pullen_bit: 0, kind: BankKind::Periphs },
        BankDesc { linux_first: 458, count: 23, pull_reg: 2, pull_bit: 0, pullen_reg: 2, pullen_bit: 0, kind: BankKind::Periphs },
        BankDesc { linux_first: 481, count: 16, pull_reg: 1, pull_bit: 0, pullen_reg: 1, pullen_bit: 0, kind: BankKind::Periphs },
        BankDesc { linux_first: 497, count: 15, pull_reg: 0, pull_bit: 0, pullen_reg: 0, pullen_bit: 16, kind: BankKind::Ao },
    ]
}

/// The bank table.
pub fn bank_descs() -> (banks: [BankDesc; 6])
    ensures
        banks@ == bank_table(),
{
    let banks = [
        BankDesc { linux_first: 411, count: 11, pull_reg: 3, pull_bit: 0, pullen_reg: 3, pullen_bit: 0, kind: BankKind::Periphs },
        BankDesc { linux_first: 422, count: 15, pull_reg: 4, pull_bit: 0, pullen_reg: 4, pullen_bit: 0, kind: BankKind::Periphs },
        BankDesc { linux_first: 437, count: 21, pull_reg: 0, pull_bit: 0, pullen_reg: 0, pullen_bit: 0, kind: BankKind::Periphs },
        BankDesc { linux_first: 458, count: 23, pull_reg: 2, pull_bit: 0, pullen_reg: 2, pullen_bit: 0, kind: BankKind::Periphs },
        BankDesc { linux_first: 481, count: 16, pull_reg: 1, pull_bit: 0, pullen_reg: 1, pullen_bit: 0, kind: BankKind::Periphs },
        BankDesc { linux_first: 497, count: 15, pull_reg: 0, pull_bit: 0, pullen_reg: 0, pullen_bit: 16, kind: BankKind::Ao },
    ];
    assert(banks@ =~= bank_table());
    banks
}

/// `gpio` belongs to `bank`.
pub open spec fn in_bank(bank: BankDesc, gpio: u32) -> bool {
    bank.linux_first <= gpio < bank.linux_first + bank.count
}

/// Index of the first bank at or after `i` that holds `gpio`, or 6.
pub open spec fn bank_index_from(gpio: u32, i: int) -> int
    decreases 6 - i,
{
    if i < 0 || i >= 6 {
        6
    } else if in_bank(bank_table()[i], gpio) {
        i
    } else {
        bank_index_from(gpio, i + 1)
    }
}

/// A bank index found from `i` on lies there and holds `gpio`.
pub proof fn lemma_bank_index_found(gpio: u32, i: int)
    requires
        0 <= i,
        bank_index_from(gpio, i) < 6,
    ensures
        i <= bank_index_from(gpio, i) < 6,
        in_bank(bank_table()[bank_index_from(gpio, i)], gpio),
    decreases 6 - i,
{
    if i < 6 && !in_bank(bank_table()[i], gpio) {
        lemma_bank_index_found(gpio, i + 1);
    }
}

/// Index of the bank that holds `gpio`, or 6 when none does.
pub open spec fn bank_index(gpio: u32) -> int {
    bank_index_from(gpio, 0)
}

/// Register index and bit of bit number `first_bit + (gpio - first)`
/// counted from register `first_reg`.
pub open spec fn reg_of(first_reg: usize, first_bit: u32, offset: int) -> usize {
    (first_reg + (first_bit + offset) / 32) as usize
}

pub open spec fn bit_of(first_bit: u32, offset: int) -> u32 {
    ((first_bit + offset) % 32) as u32
}

/// Where a GPIO's pull-enable bit lives.
#[derive(Debug, Clone, Copy, PartialEq, Eq, Structural)]
pub struct BiasLocation {
    pub kind: BankKind,
    pub pullen_reg: usize,
    pub pullen_bit: u32,
}

/// The pull-enable location of `gpio` in `bank`.
pub open spec fn pullen_location(bank: BankDesc, gpio: u32) -> BiasLocation {
    let offset = gpio - bank.linux_first;
    BiasLocation {
        kind: bank.kind,
        pullen_reg: reg_of(bank.pullen_reg, bank.pullen_bit, offset),
        pullen_bit: bit_of(bank.pullen_bit, offset),
    }
}

/// Finds the pull-enable bit of `gpio`; GPIOs outside every bank are
/// refused.
pub fn locate_bias(gpio: u32) -> (r: Result<BiasLocation, String>)
    ensures
        bank_index(gpio) < 6 ==> r == Ok::<BiasLocation, String>(
            pullen_location(bank_table()[bank_index(gpio)], gpio),
        ),
        bank_index(gpio) == 6 ==> (r matches Err(e) && e@ == "unsupported GPIO for bias control: "@
            + decimal_spec(gpio as nat)),
{
    let banks = bank_descs();
    let mut i: usize = 0;
    while i < 6
        invariant
            i <= 6,
            banks@ == bank_table(),
            bank_index_from(gpio, 0) == bank_index_from(gpio, i as int),
        decreases 6 - i,
    {
        let bank = banks[i];
        if gpio >= bank.linux_first && gpio < bank.linux_first + bank.count {
            let bit_offset = gpio - bank.linux_first;
            return Ok(
                BiasLocation {
                    kind: bank.kind,
                    pullen_reg: bank.pullen_reg + ((bank.pullen_bit + bit_offset) / 32) as usize,
                    pullen_bit: (bank.pullen_bit + bit_offset) % 32,
                },
            );
        }
        i = i + 1;
    }
    let mut e = string_from("unsupported GPIO for bias control: ");
    push_decimal(&mut e, gpio as u64);
    Err(e)
}

/// `value` with bit `bit` set or cleared.
pub fn with_bit(value: u32, bit: u32, set: bool) -> (r: u32)
    requires
        bit < 32,
    ensures
        set ==> r == value | (1u32 << bit),
        !set ==> r == value & !(1u32 << bit),
        ((r >> bit) & 1u32 == 1u32) == set,
        forall|j: u32| j < 32 && j != bit ==> (#[trigger] (r >> j) & 1u32) == ((value >> j) & 1u32),
{
    let r = if set {
        value | (1u32 << bit)
    } else {
        value & !(1u32 << bit)
    };
    assert(((r >> bit) & 1u32 == 1u32) == set && forall|j: u32|
        j < 32 && j != bit ==> (#[trigger] (r >> j) & 1u32) == ((value >> j) & 1u32)) by (bit_vector)
        requires
            bit < 32,
            set ==> r == value | (1u32 << bit),
            !set ==> r == value & !(1u32 << bit),
    ;
    r
}

/// Rounds `value` up to a multiple of the power of two `alignment`: the
/// result has no bit of `alignment - 1` set and lies in
/// `value..value + alignment`.
pub fn align_up(value: usize, alignment: usize) -> (r: usize)
    requires
        alignment > 0,
        value + alignment - 1 <= usize::MAX,
    ensures
        r == ((value + alignment - 1) as usize) & !((alignment - 1) as usize),
        r & ((alignment - 1) as usize) == 0,
        value <= r,
        r < value + alignment,
{
    let m = alignment - 1;
    let v2 = value + m;
    let r = v2 & !m;
    assert(r & m == 0 && r <= v2 && v2 - r <= m) by (bit_vector)
        requires
            r == v2 & !m,
    ;
    r
}

/// The page-aligned mapping that covers `words` 32-bit registers at
/// `phys_base`.
#[derive(Debug, Clone, Copy, PartialEq, Eq, Structural)]
pub struct MapWindow {
    pub map_base: usize,
    pub page_offset: usize,
    pub map_len: usize,
}

/// Computes where to map `words` registers at `phys_base` with pages of
/// `page_size` bytes: the page-aligned base, the offset of the registers in
/// the mapping, and the mapping length rounded up to whole pages.
pub fn map_window(phys_base: usize, words: usize, page_size: usize) -> (w: MapWindow)
    requires
        page_size > 0,
        4 * words + page_size - 1 <= usize::MAX,
        (phys_base & ((page_size - 1) as usize)) + 4 * words + page_size - 1 <= usize::MAX,
    ensures
        w.map_base == phys_base & !((page_size - 1) as usize),
        w.page_offset == phys_base - w.map_base,
        w.map_len == ((w.page_offset + 4 * words + page_size - 1) as usize) & !((page_size
            - 1) as usize),
        w.map_base <= phys_base,
        w.page_offset + 4 * words <= w.map_len,
{
    let byte_len = words * 4;
    let m = page_size - 1;
    let map_base = phys_base & !m;
    assert(map_base <= phys_base && phys_base - map_base == phys_base & m) by (bit_vector)
        requires
            map_base == phys_base & !m,
    ;
    let page_offset = phys_base - map_base;
    let map_len = align_up(page_offset + byte_len, page_size);
    MapWindow { map_base, page_offset, map_len }
}

/// The sysfs directory of GPIO `number`.
pub open spec fn gpio_root_spec(number: u32) -> Seq<char> {
    "/sys/class/gpio/gpio"@ + decimal_spec(number as nat)
}

/// A GPIO line driven through `/sys/class/gpio`.
#[derive(Debug, Clone)]
pub struct SysfsGpio {
    number: u32,
    root: String,
}

impl View for SysfsGpio {
    type V = (u32, Seq<char>);

    /// The GPIO number and its sysfs directory.
    closed spec fn view(&self) -> (u32, Seq<char>) {
        (self.number, self.root@)
    }
}

impl SysfsGpio {
    pub fn new(number: u32) -> (g: Self)
        ensures
            g@ == (number, gpio_root_spec(number)),
    {
        let mut root = string_from("/sys/class/gpio/gpio");
        push_decimal(&mut root, number as u64);
        SysfsGpio { number, root }
    }

    /// The GPIO number.
    pub fn number(&self) -> (n: u32)
        ensures
            n == self@.0,
    {
        self.number
    }

    /// The sysfs directory of this GPIO.
    pub fn root(&self) -> (r: &str)
        ensures
            r@ == self@.1,
    {
        self.root.as_str()
    }

    /// The path of attribute `name` (such as `direction` or `value`) of this GPIO.
    pub fn attribute_path(&self, name: &str) -> (p: String)
        ensures
            p@ == self@.1 + "/"@ + name@,
    {
        let mut p = self.root.clone();
        p.append("/");
        p.append(name);
        p
    }
}

/// The level read from a sysfs `value` file: 0 when the text is `0` once
/// surrounding whitespace is removed, 1 otherwise.
pub fn level_from_text(text: &str) -> (level: u8)
    ensures
        level == (if trim_spec(text@) == "0"@ {
            0u8
        } else {
            1u8
        }),
{
    let t = trimmed(text);
    if str_eq(t.as_str(), "0") {
        0
    } else {
        1
    }
}

} // verus!
