use amlogic_cb_tools::bias_tool;
use amlogic_cb_tools::fan_tool;
use amlogic_cb_tools::hashboard;
use amlogic_cb_tools::misc_tool;
use amlogic_cb_tools::oled_tool;
use amlogic_cb_tools::pic_tool;
use amlogic_cb_tools::probe_tool;
use amlogic_cb_tools::psu_tool;

fn args(list: &[&str]) -> Vec<String> {
    list.iter().map(|s| s.to_string()).collect()
}

#[test]
fn hashboard_commands() {
    assert_eq!(hashboard::parse_args(args(&[])), Ok(hashboard::Command::Help));
    assert_eq!(hashboard::parse_args(args(&["-h"])), Ok(hashboard::Command::Help));
    assert_eq!(hashboard::parse_args(args(&["check"])), Ok(hashboard::Command::CheckAll));
    assert_eq!(hashboard::parse_args(args(&["check", "2"])), Ok(hashboard::Command::CheckOne(2)));
    assert_eq!(hashboard::parse_args(args(&["temps", "0"])), Ok(hashboard::Command::Temps(0)));
    assert_eq!(hashboard::parse_args(args(&["eeprom", "1"])), Ok(hashboard::Command::Eeprom(1)));
}

#[test]
fn hashboard_command_errors() {
    assert_eq!(hashboard::parse_args(args(&["check", "3"])), Err("invalid hashboard index: 3".to_string()));
    assert_eq!(hashboard::parse_args(args(&["temps"])), Err("missing hashboard index for temps".to_string()));
    assert_eq!(hashboard::parse_args(args(&["eeprom"])), Err("missing hashboard index for eeprom".to_string()));
    assert_eq!(hashboard::parse_args(args(&["eeprom", "x"])), Err("invalid digit found in string".to_string()));
    assert_eq!(hashboard::parse_args(args(&["eeprom", ""])), Err("cannot parse integer from empty string".to_string()));
    assert_eq!(
        hashboard::parse_args(args(&["check", "99999999999999999999999"])),
        Err("number too large to fit in target type".to_string())
    );
    assert_eq!(hashboard::parse_args(args(&["reboot"])), Err("unknown command: reboot".to_string()));
}

#[test]
fn psu_defaults_and_options() {
    let (config, command) = psu_tool::parse_args(args(&[])).unwrap();
    assert_eq!(config.i2c_device, "/dev/i2c-1");
    assert_eq!(config.address, 0x10);
    assert_eq!(config.write_register, 0x11);
    assert_eq!(config.psu_enable_gpio, 437);
    assert!(matches!(command, psu_tool::Command::Help));

    let (config, command) = psu_tool::parse_args(args(&[
        "get-fw", "--device", "/dev/i2c-3", "--address", "0x58", "--register", "17", "--psu-enable-gpio", "440",
    ]))
    .unwrap();
    assert_eq!(config.i2c_device, "/dev/i2c-3");
    assert_eq!(config.address, 0x58);
    assert_eq!(config.write_register, 17);
    assert_eq!(config.psu_enable_gpio, 440);
    assert!(matches!(command, psu_tool::Command::GetFw));
}

#[test]
fn psu_commands() {
    let cmd = |list: &[&str]| psu_tool::parse_args(args(list)).unwrap().1;
    assert!(matches!(cmd(&["scan"]), psu_tool::Command::Scan { start: 0x50, end: 0x5F }));
    assert!(matches!(cmd(&["scan", "0x10", "32"]), psu_tool::Command::Scan { start: 0x10, end: 32 }));
    assert!(matches!(cmd(&["enable-watchdog"]), psu_tool::Command::EnableWatchdog(0x0E)));
    assert!(matches!(cmd(&["enable-watchdog", "0X20"]), psu_tool::Command::EnableWatchdog(0x20)));
    assert!(matches!(cmd(&["set-dac", "0x55"]), psu_tool::Command::SetDac(0x55)));
    assert!(matches!(cmd(&["read-cal", "0x40", "0x21"]), psu_tool::Command::ReadCal { page: 0x40, count: 0x21 }));
    assert!(matches!(cmd(&["prepare-board"]), psu_tool::Command::PrepareBoard));
    assert!(matches!(cmd(&["output-on"]), psu_tool::Command::OutputOn));
    assert!(matches!(cmd(&["output-off"]), psu_tool::Command::OutputOff));
    match cmd(&["set-voltage", "12.6"]) {
        psu_tool::Command::SetVoltage(text) => assert_eq!(text, "12.6"),
        _ => panic!("expected set-voltage"),
    }
    match cmd(&["raw", "0x83", "0x55", "0"]) {
        psu_tool::Command::Raw { command, payload } => {
            assert_eq!(command, 0x83);
            assert_eq!(payload, vec![0x55, 0x00]);
        }
        _ => panic!("expected raw"),
    }
}

#[test]
fn psu_command_errors() {
    let err = |list: &[&str]| psu_tool::parse_args(args(list)).unwrap_err();
    assert_eq!(err(&["--device"]), "missing value for --device");
    assert_eq!(err(&["--address"]), "missing value for --address");
    assert_eq!(err(&["--register"]), "missing value for --register");
    assert_eq!(err(&["--psu-enable-gpio"]), "missing value for --psu-enable-gpio");
    assert_eq!(err(&["--address", "0x10000"]), "number too large to fit in target type");
    assert_eq!(err(&["--psu-enable-gpio", "0x10"]), "invalid digit found in string");
    assert_eq!(err(&["set-dac"]), "missing DAC value");
    assert_eq!(err(&["set-dac", "256"]), "number too large to fit in target type");
    assert_eq!(err(&["set-voltage"]), "missing target voltage");
    assert_eq!(err(&["read-cal", "1"]), "missing count value");
    assert_eq!(err(&["read-cal"]), "missing page value");
    assert_eq!(err(&["raw"]), "missing raw command byte");
    assert_eq!(err(&["raw", "1", "2", "zz"]), "invalid digit found in string");
    assert_eq!(err(&["scan", "x"]), "invalid digit found in string");
    assert_eq!(err(&["frobnicate"]), "unknown command: frobnicate");
}

#[test]
fn pic_invocations() {
    match pic_tool::parse_invocation(args(&["--address", "0x21", "--confirm-state-change", "handshake"])) {
        pic_tool::PicInvocation::Run(cfg, cmd) => {
            assert_eq!(cfg.address, 0x21);
            assert!(cfg.confirm_state_change);
            assert!(!cfg.verbose);
            assert_eq!(cfg.device, "/dev/i2c-0");
            assert_eq!(cmd, pic_tool::PicCommand::Handshake);
        }
        _ => panic!("expected a command"),
    }
    match pic_tool::parse_invocation(args(&["read-reg", "0x48", "--verbose"])) {
        pic_tool::PicInvocation::Run(cfg, cmd) => {
            assert!(cfg.verbose);
            assert_eq!(cfg.address, 0x20);
            assert_eq!(cmd, pic_tool::PicCommand::ReadReg(0x48));
        }
        _ => panic!("expected a command"),
    }
    assert!(matches!(pic_tool::parse_invocation(args(&["enable-dc-dc"])), pic_tool::PicInvocation::Run(_, pic_tool::PicCommand::SetDcDc(true))));
    assert!(matches!(pic_tool::parse_invocation(args(&["version", "--help"])), pic_tool::PicInvocation::Help));
    assert!(matches!(pic_tool::parse_invocation(args(&[])), pic_tool::PicInvocation::MissingCommand));
    match pic_tool::parse_invocation(args(&["--device"])) {
        pic_tool::PicInvocation::MissingCommand => {}
        _ => panic!("a trailing --device leaves no command"),
    }
}

#[test]
fn pic_invocation_errors() {
    match pic_tool::parse_invocation(args(&["--address", "0xZZ", "version"])) {
        pic_tool::PicInvocation::BadAddress(m) => assert_eq!(m, "bad hex address '0xZZ': invalid digit found in string"),
        _ => panic!("expected a bad address"),
    }
    match pic_tool::parse_invocation(args(&["--address", "70000"])) {
        pic_tool::PicInvocation::BadAddress(m) => assert_eq!(m, "bad address '70000': number too large to fit in target type"),
        _ => panic!("expected a bad address"),
    }
    match pic_tool::parse_invocation(args(&["--bogus"])) {
        pic_tool::PicInvocation::Usage(m) => assert_eq!(m, "unknown arg '--bogus'"),
        _ => panic!("expected a usage error"),
    }
    match pic_tool::parse_invocation(args(&["dance"])) {
        pic_tool::PicInvocation::Usage(m) => assert_eq!(m, "unknown command 'dance'"),
        _ => panic!("expected a usage error"),
    }
    match pic_tool::parse_invocation(args(&["read-reg"])) {
        pic_tool::PicInvocation::Failed(m) => assert_eq!(m, "read-reg requires a register address (e.g. 0x48)"),
        _ => panic!("expected a failure"),
    }
    match pic_tool::parse_invocation(args(&["read-reg", "0x100"])) {
        pic_tool::PicInvocation::Failed(m) => assert_eq!(m, "bad hex byte '0x100': number too large to fit in target type"),
        _ => panic!("expected a failure"),
    }
}

#[test]
fn pic_state_change_guard() {
    let mut cfg = pic_tool::default_pic_config_value();
    assert_eq!(
        pic_tool::require_state_change(&cfg, "reset"),
        Err("command 'reset' changes PIC state; rerun with --confirm-state-change".to_string())
    );
    cfg.confirm_state_change = true;
    assert_eq!(pic_tool::require_state_change(&cfg, "reset"), Ok(()));
    assert_eq!(pic_tool::state_change_name(pic_tool::PicCommand::SetDcDc(false)), Some("disable-dc-dc"));
    assert_eq!(pic_tool::state_change_name(pic_tool::PicCommand::Version), None);
    assert_eq!(pic_tool::state_change_name(pic_tool::PicCommand::ReadReg(1)), None);
}

#[test]
fn fan_commands() {
    assert_eq!(fan_tool::parse_args(args(&["get-pwm"])), Ok(fan_tool::Command::GetPwm));
    assert_eq!(fan_tool::parse_args(args(&["set-percent", "15"])), Ok(fan_tool::Command::SetPercent(15)));
    assert_eq!(
        fan_tool::parse_args(args(&["set-pwm", "ALL", "100"])),
        Ok(fan_tool::Command::SetPwm { target: fan_tool::PwmTarget::All, percent: 100 })
    );
    assert_eq!(
        fan_tool::parse_args(args(&["set-pwm", "1", "65"])),
        Ok(fan_tool::Command::SetPwm { target: fan_tool::PwmTarget::Channel(1), percent: 65 })
    );
    assert_eq!(
        fan_tool::parse_args(args(&["read-rpm"])),
        Ok(fan_tool::Command::ReadRpm { target: fan_tool::FanTarget::All, duration_ms: 1000 })
    );
    assert_eq!(
        fan_tool::parse_args(args(&["read-rpm", "3", "250"])),
        Ok(fan_tool::Command::ReadRpm { target: fan_tool::FanTarget::Fan(3), duration_ms: 250 })
    );
}

#[test]
fn fan_command_errors() {
    let err = |list: &[&str]| fan_tool::parse_args(args(list)).unwrap_err();
    assert_eq!(err(&["set-percent"]), "missing percent");
    assert_eq!(err(&["set-percent", "101"]), "percent must be in 0..=100");
    assert_eq!(err(&["set-percent", "300"]), "number too large to fit in target type");
    assert_eq!(err(&["set-pwm"]), "missing pwm target");
    assert_eq!(err(&["set-pwm", "2", "5"]), "unsupported pwm channel: 2");
    assert_eq!(err(&["set-pwm", "0"]), "missing percent");
    assert_eq!(err(&["read-rpm", "4"]), "unsupported fan index: 4");
    assert_eq!(err(&["read-rpm", "all", "-1"]), "invalid digit found in string");
    assert_eq!(err(&["spin"]), "unknown command: spin");
}

#[test]
fn fan_targets_expand() {
    assert_eq!(fan_tool::pwm_channels(fan_tool::PwmTarget::All), vec![0, 1]);
    assert_eq!(fan_tool::pwm_channels(fan_tool::PwmTarget::Channel(1)), vec![1]);
    assert_eq!(fan_tool::fans(fan_tool::FanTarget::All), vec![(0, 447), (1, 448), (2, 449), (3, 450)]);
    assert_eq!(fan_tool::fans(fan_tool::FanTarget::Fan(2)), vec![(2, 449)]);
}

#[test]
fn led_commands() {
    assert_eq!(misc_tool::parse_args(args(&["status"])), Ok(misc_tool::Command::Status));
    assert_eq!(
        misc_tool::parse_args(args(&["set", "Green", "ON"])),
        Ok(misc_tool::Command::SetLevel { target: misc_tool::LedTarget::Green, level: misc_tool::OutputLevel::High })
    );
    assert_eq!(
        misc_tool::parse_args(args(&["set", "red", "0"])),
        Ok(misc_tool::Command::SetLevel { target: misc_tool::LedTarget::Red, level: misc_tool::OutputLevel::Low })
    );
    assert_eq!(misc_tool::parse_args(args(&["toggle"])), Ok(misc_tool::Command::Toggle { target: misc_tool::LedTarget::All }));
    assert_eq!(misc_tool::parse_args(args(&["toggle", "RED"])), Ok(misc_tool::Command::Toggle { target: misc_tool::LedTarget::Red }));
}

#[test]
fn led_command_errors() {
    let err = |list: &[&str]| misc_tool::parse_args(args(list)).unwrap_err();
    assert_eq!(err(&["set"]), "missing LED target");
    assert_eq!(err(&["set", "Blue"]), "unsupported LED target: Blue");
    assert_eq!(err(&["set", "green"]), "missing output level");
    assert_eq!(err(&["set", "green", "dim"]), "unsupported output level: dim");
    assert_eq!(err(&["blink"]), "unknown command: blink");
}

#[test]
fn led_targets_and_levels() {
    let all: Vec<(&str, u32)> = misc_tool::target_leds(misc_tool::LedTarget::All).iter().map(|l| (l.name, l.gpio)).collect();
    assert_eq!(all, vec![("green", 453), ("red", 438)]);
    assert_eq!(misc_tool::target_leds(misc_tool::LedTarget::Red)[0].gpio, 438);
    assert_eq!(misc_tool::toggled_level(0), misc_tool::OutputLevel::High);
    assert_eq!(misc_tool::toggled_level(1), misc_tool::OutputLevel::Low);
    assert_eq!(misc_tool::OutputLevel::High.as_str(), "high");
    assert_eq!(misc_tool::OutputLevel::Low.as_str(), "low");
}

#[test]
fn bias_commands() {
    match bias_tool::parse_args(args(&["show", "439, 440,,441"])).unwrap() {
        bias_tool::Command::Show { gpios, count } => {
            assert_eq!(count, 3);
            assert_eq!(gpios, [439, 440, 441]);
        }
        _ => panic!("expected show"),
    }
    match bias_tool::parse_args(args(&["set", "pull-down", "500"])).unwrap() {
        bias_tool::Command::SetBias { mode, gpios, count } => {
            assert_eq!(mode, bias_tool::BiasMode::PullDown);
            assert_eq!(count, 1);
            assert_eq!(gpios, [500, 0, 0]);
        }
        _ => panic!("expected set"),
    }
    assert!(matches!(bias_tool::parse_args(args(&["help"])).unwrap(), bias_tool::Command::Help));
}

#[test]
fn bias_command_errors() {
    let err = |list: &[&str]| bias_tool::parse_args(args(list)).err().unwrap();
    assert_eq!(err(&["show"]), "missing GPIO list");
    assert_eq!(err(&["show", " , "]), "GPIO list is empty");
    assert_eq!(err(&["show", "411,412,413,414"]), "too many GPIOs; maximum is 3 per invocation");
    assert_eq!(err(&["show", "410"]), "GPIO out of supported range: 410");
    assert_eq!(err(&["show", "4x1"]), "invalid digit found in string");
    assert_eq!(err(&["set"]), "missing bias mode");
    assert_eq!(err(&["set", "sideways", "440"]), "unknown bias mode: sideways");
    assert_eq!(err(&["set", "up"]), "missing GPIO list");
    assert_eq!(err(&["flip"]), "unknown command: flip");
}

#[test]
fn probe_commands() {
    let (config, command) = probe_tool::parse_args(args(&[])).unwrap();
    assert_eq!(config.i2c_device, "/dev/i2c-0");
    assert_eq!(command, probe_tool::Command::Help);
    let (config, command) = probe_tool::parse_args(args(&["--device", "/dev/i2c-2", "scan", "0x03", "0x77"])).unwrap();
    assert_eq!(config.i2c_device, "/dev/i2c-2");
    assert_eq!(command, probe_tool::Command::Scan { start: 3, end: 0x77 });
    assert_eq!(probe_tool::parse_args(args(&["scan"])).unwrap().1, probe_tool::Command::Scan { start: 3, end: 0x77 });
    assert_eq!(probe_tool::parse_args(args(&["probe", "0x49"])).unwrap().1, probe_tool::Command::Probe { address: 0x49 });
    assert_eq!(probe_tool::parse_args(args(&["probe"])).unwrap_err(), "missing address");
    assert_eq!(probe_tool::parse_args(args(&["--device"])).unwrap_err(), "missing value for --device");
    assert_eq!(probe_tool::parse_args(args(&["ping"])).unwrap_err(), "unknown command: ping");
}

#[test]
fn oled_invocations() {
    match oled_tool::parse_args(args(&[])).unwrap() {
        oled_tool::OledInvocation::Draw(cfg) => {
            assert_eq!(cfg.i2c_device, "/dev/i2c-2");
            assert_eq!(cfg.address, 0x3C);
            assert_eq!(cfg.lines, vec!["Hello world".to_string()]);
        }
        oled_tool::OledInvocation::Help => panic!("expected a drawing"),
    }
    match oled_tool::parse_args(args(&["--address", "0x3D", "HB0 OK", "PSU 12.3V"])).unwrap() {
        oled_tool::OledInvocation::Draw(cfg) => {
            assert_eq!(cfg.address, 0x3D);
            assert_eq!(cfg.lines, vec!["HB0 OK".to_string(), "PSU 12.3V".to_string()]);
        }
        oled_tool::OledInvocation::Help => panic!("expected a drawing"),
    }
    assert!(matches!(oled_tool::parse_args(args(&["a", "-h"])).unwrap(), oled_tool::OledInvocation::Help));
    assert_eq!(oled_tool::parse_args(args(&["a", "b", "c", "d"])).err().unwrap(), "too many lines: got 4, max is 3");
    assert_eq!(oled_tool::parse_args(args(&["--device"])).err().unwrap(), "missing value for --device");
}

#[test]
fn oled_layout_centres_lines() {
    let lines = vec!["Hash OK".to_string(), "Fan 4200".to_string()];
    let placed = oled_tool::layout_lines(&lines);
    assert_eq!(placed.len(), 2);
    assert_eq!(placed[0].text, "HASH OK");
    assert_eq!((placed[0].x, placed[0].y), ((128 - 42) / 2, 6));
    assert_eq!(placed[1].text, "FAN 4200");
    assert_eq!((placed[1].x, placed[1].y), ((128 - 48) / 2, 16));
    let wide = vec!["x".repeat(30)];
    let placed = oled_tool::layout_lines(&wide);
    assert_eq!((placed[0].x, placed[0].y), (0, 11));
    let four = vec!["a".to_string(); 4];
    assert_eq!(oled_tool::layout_lines(&four)[0].y, -4);
}
