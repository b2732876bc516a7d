use amlogic_cb_tools::bias_tool::{
    bias_label, bias_updates, gpio_name, locate_bias as locate_pull, parse_bias_mode, validate_gpio,
    BiasMode, BitUpdate, RegisterBlock,
};
use amlogic_cb_tools::gpio::{
    align_up, locate_bias, map_window, level_from_text, with_bit, BankKind, SysfsGpio,
    AO_PULL_PHYS, PERIPHS_PULL_WORDS,
};
use amlogic_cb_tools::pwm::{duty_ns, parse_sysfs_u32, PwmState, SysfsPwm};
use amlogic_cb_tools::serial::{supported_baud, timeout_deciseconds};
use amlogic_cb_tools::tach::{poll_timeout_ms, SysfsTachometer};
use std::collections::HashMap;

#[test]
fn gpio_paths() {
    let g = SysfsGpio::new(453);
    assert_eq!(g.number(), 453);
    assert_eq!(g.root(), "/sys/class/gpio/gpio453");
    assert_eq!(g.attribute_path("value"), "/sys/class/gpio/gpio453/value");
    assert_eq!(level_from_text("0\n"), 0);
    assert_eq!(level_from_text(" 1 "), 1);
    assert_eq!(level_from_text("garbage"), 1);
}

#[test]
fn pullen_locations() {
    let loc = locate_bias(439).unwrap();
    assert_eq!(loc.kind, BankKind::Periphs);
    assert_eq!((loc.pullen_reg, loc.pullen_bit), (0, 2));
    let ao = locate_bias(500).unwrap();
    assert_eq!(ao.kind, BankKind::Ao);
    assert_eq!((ao.pullen_reg, ao.pullen_bit), (0, 19));
    assert_eq!(locate_bias(410).unwrap_err(), "unsupported GPIO for bias control: 410");
    assert_eq!(locate_bias(512).unwrap_err(), "unsupported GPIO for bias control: 512");
}

#[test]
fn pull_locations_of_the_bias_tool() {
    let loc = locate_pull(470).unwrap();
    assert_eq!(loc.kind, BankKind::Periphs);
    assert_eq!((loc.pull_reg, loc.pull_bit, loc.pullen_reg, loc.pullen_bit), (2, 12, 2, 12));
    let ao = locate_pull(511).unwrap();
    assert_eq!((ao.pull_reg, ao.pull_bit, ao.pullen_reg, ao.pullen_bit), (0, 14, 0, 30));
    assert_eq!(locate_pull(100).unwrap_err(), "unsupported GPIO: 100");
}

#[test]
fn gpio_names() {
    assert_eq!(gpio_name(411), "GPIOZ_0");
    assert_eq!(gpio_name(436), "BOOT_14");
    assert_eq!(gpio_name(439), "GPIOA_2");
    assert_eq!(gpio_name(480), "GPIOX_22");
    assert_eq!(gpio_name(481), "GPIOY_0");
    assert_eq!(gpio_name(510), "GPIOAO_13");
    assert_eq!(gpio_name(511), "GPIO_TEST_N");
    assert_eq!(gpio_name(7), "GPIO_7");
}

#[test]
fn bias_modes_and_range() {
    assert_eq!(parse_bias_mode("no-pull"), Ok(BiasMode::Disable));
    assert_eq!(parse_bias_mode("up"), Ok(BiasMode::PullUp));
    assert_eq!(parse_bias_mode("down"), Ok(BiasMode::PullDown));
    assert_eq!(parse_bias_mode("UP"), Err("unknown bias mode: UP".to_string()));
    assert_eq!(validate_gpio(411), Ok(()));
    assert_eq!(validate_gpio(512), Err("GPIO out of supported range: 512".to_string()));
}

/// Applies bit updates to a register file, as the register blocks do.
fn apply(regs: &mut HashMap<(RegisterBlock, usize), u32>, updates: &[BitUpdate]) {
    for u in updates {
        let word = regs.entry((u.block, u.reg)).or_insert(0);
        *word = with_bit(*word, u.bit, u.set);
    }
}

fn read_back(regs: &HashMap<(RegisterBlock, usize), u32>, gpio: u32) -> &'static str {
    let loc = locate_pull(gpio).unwrap();
    let get = |k: (RegisterBlock, usize)| *regs.get(&k).unwrap_or(&0);
    let (pull, pullen) = match loc.kind {
        BankKind::Periphs => (get((RegisterBlock::PeriphsPull, loc.pull_reg)), get((RegisterBlock::PeriphsPullen, loc.pullen_reg))),
        BankKind::Ao => (get((RegisterBlock::AoPull, 0)), get((RegisterBlock::AoPull, 0))),
    };
    bias_label(pull, pullen, loc)
}

#[test]
fn setting_a_bias_reads_back() {
    for gpio in [411u32, 439, 470, 496, 497, 505, 510] {
        let mut regs = HashMap::new();
        regs.insert((RegisterBlock::PeriphsPull, 0), 0xFFFF_FFFF);
        regs.insert((RegisterBlock::AoPull, 0), 0xA5A5_A5A5);
        for (mode, label) in [
            (BiasMode::PullUp, "pull-up"),
            (BiasMode::PullDown, "pull-down"),
            (BiasMode::Disable, "disabled"),
            (BiasMode::PullUp, "pull-up"),
        ] {
            let loc = locate_pull(gpio).unwrap();
            apply(&mut regs, &bias_updates(loc, mode));
            assert_eq!(read_back(&regs, gpio), label, "gpio {gpio}");
        }
    }
}

#[test]
fn bias_update_plans() {
    let loc = locate_pull(505).unwrap();
    let up = bias_updates(loc, BiasMode::PullUp);
    assert_eq!(up.len(), 2);
    assert_eq!((up[0].block, up[0].reg, up[0].bit, up[0].set), (RegisterBlock::AoPull, 0, 8, true));
    assert_eq!((up[1].block, up[1].reg, up[1].bit, up[1].set), (RegisterBlock::AoPull, 0, 24, true));
    let off = bias_updates(locate_pull(440).unwrap(), BiasMode::Disable);
    assert_eq!(off.len(), 1);
    assert_eq!((off[0].block, off[0].bit, off[0].set), (RegisterBlock::PeriphsPullen, 3, false));
}

#[test]
fn bits_and_windows() {
    assert_eq!(with_bit(0, 31, true), 0x8000_0000);
    assert_eq!(with_bit(0xFFFF_FFFF, 0, false), 0xFFFF_FFFE);
    assert_eq!(align_up(0x4E8 + 20, 4096), 4096);
    assert_eq!(align_up(4096, 4096), 4096);
    let w = map_window(AO_PULL_PHYS, PERIPHS_PULL_WORDS, 4096);
    assert_eq!(w.map_base, 0xff80_0000);
    assert_eq!(w.page_offset, 0x24);
    assert_eq!(w.map_len, 4096);
    let w = map_window(0xff63_4ff8, 5, 4096);
    assert_eq!(w.map_len, 8192);
}

#[test]
fn pwm_paths_and_duty() {
    let p = SysfsPwm::new(0, 1);
    assert_eq!(p.chip(), 0);
    assert_eq!(p.channel(), 1);
    assert_eq!(p.pwm_root(), "/sys/class/pwm/pwmchip0/pwm1");
    assert_eq!(p.chip_attribute_path("export"), "/sys/class/pwm/pwmchip0/export");
    assert_eq!(p.attribute_path("enable"), "/sys/class/pwm/pwmchip0/pwm1/enable");
    assert_eq!(duty_ns(10_000, 15), 1_500);
    assert_eq!(duty_ns(10_000, 100), 10_000);
    assert_eq!(duty_ns(10_000, 250), 10_000);
    assert_eq!(duty_ns(u32::MAX, 100), u32::MAX);
    assert_eq!(parse_sysfs_u32(" 10000\n"), 10_000);
    assert_eq!(parse_sysfs_u32("junk"), 0);
}

#[test]
fn pwm_state_from_sysfs_text() {
    let s = PwmState::from_attributes(0, 1, "10000\n", "1500\n", "1\n", "normal\n");
    assert_eq!((s.chip, s.channel, s.period_ns, s.duty_cycle_ns), (0, 1, 10_000, 1_500));
    assert!(s.enabled);
    assert_eq!(s.polarity, "normal");
    let s = PwmState::from_attributes(0, 0, "", "x", "0", "inversed");
    assert_eq!((s.period_ns, s.duty_cycle_ns, s.enabled), (0, 0, false));
}

#[test]
fn tach_and_serial_settings() {
    let t = SysfsTachometer::new(447);
    assert_eq!(t.gpio(), 447);
    assert_eq!(t.attribute_path("edge"), "/sys/class/gpio/gpio447/edge");
    assert_eq!(poll_timeout_ms(0), 1);
    assert_eq!(poll_timeout_ms(250), 250);
    assert_eq!(poll_timeout_ms(u128::MAX), i32::MAX);
    assert!(supported_baud(115_200));
    assert!(!supported_baud(1_000_000));
    assert_eq!(timeout_deciseconds(250), 3);
    assert_eq!(timeout_deciseconds(0), 1);
    assert_eq!(timeout_deciseconds(100_000), 255);
}

#[test]
fn board_pin_names() {
    // UART, reset, detect and sensor-bus pins of the board.
    let pins = [
        (501, "GPIOAO_4"),
        (502, "GPIOAO_5"),
        (413, "GPIOZ_2"),
        (414, "GPIOZ_3"),
        (466, "GPIOX_8"),
        (467, "GPIOX_9"),
        (454, "GPIOA_17"),
        (456, "GPIOA_19"),
        (441, "GPIOA_4"),
        (507, "GPIOAO_10"),
        (508, "GPIOAO_11"),
    ];
    for (gpio, name) in pins {
        assert_eq!(gpio_name(gpio), name);
    }
}

#[test]
fn setting_a_bias_leaves_other_gpios_alone() {
    let gpios = [411u32, 412, 439, 440, 470, 496, 497, 505, 510];
    for gpio in gpios {
        for mode in [BiasMode::PullUp, BiasMode::PullDown, BiasMode::Disable] {
            let mut regs = HashMap::new();
            regs.insert((RegisterBlock::PeriphsPull, 0), 0x5A5A_A5A5);
            regs.insert((RegisterBlock::PeriphsPullen, 0), 0x0F0F_F0F0);
            regs.insert((RegisterBlock::AoPull, 0), 0xA5A5_3C3C);
            let before: Vec<&str> = gpios.iter().map(|g| read_back(&regs, *g)).collect();
            apply(&mut regs, &bias_updates(locate_pull(gpio).unwrap(), mode));
            for (k, other) in gpios.iter().enumerate() {
                if *other != gpio {
                    assert_eq!(read_back(&regs, *other), before[k], "gpio {gpio} then {other}");
                }
            }
        }
    }
}
