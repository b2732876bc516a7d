use amlogic_cb_tools::hashboard::{
    asic_model_name, eeprom_address, extract_reply_frames, find_preamble, hashboard,
    hex_dump_lines, not_present_message, presence_label, tmp75_addresses, tmp75_raw,
    tmp75_sixteenths, ReplyLog, INIT_FRAME, PING_FRAME, RESPONSE_SIZE,
};
use amlogic_cb_tools::text::format_hex;

fn reply(chip: u8, tail: u8) -> Vec<u8> {
    vec![0xAA, 0x55, 0x13, chip, 0x00, 0x00, 0x00, 0x00, 0x00, 0x00, tail]
}

#[test]
fn wiring_of_the_slots() {
    let hb0 = hashboard(0);
    assert_eq!((hb0.serial_path, hb0.reset_gpio, hb0.detect_gpio), ("/dev/ttyS3", 454, 439));
    let hb2 = hashboard(2);
    assert_eq!((hb2.serial_path, hb2.reset_gpio, hb2.detect_gpio), ("/dev/ttyS1", 456, 441));
    assert_eq!(tmp75_addresses(1), Ok([0x4D, 0x49]));
    assert_eq!(tmp75_addresses(3), Err("invalid hashboard index: 3".to_string()));
    assert_eq!(eeprom_address(2), Ok(0x52));
    assert_eq!(eeprom_address(7), Err("invalid hashboard index: 7".to_string()));
}

#[test]
fn fixed_frames() {
    assert_eq!(format_hex(&INIT_FRAME), "55 AA 51 09 00 A4 90 00 FF FF 1C");
    assert_eq!(format_hex(&PING_FRAME), "55 AA 52 05 00 00 0A");
    assert_eq!(format_hex(&[]), "");
}

#[test]
fn model_names() {
    assert_eq!(asic_model_name(&reply(0x62, 0)), "BM1362");
    assert_eq!(asic_model_name(&[0xAA, 0x55, 0x13]), "unknown");
    assert_eq!(asic_model_name(&[0, 0, 0xab, 0x0c]), "BMAB0C");
}

#[test]
fn preamble_search() {
    assert_eq!(find_preamble(&[0x00, 0xAA, 0x55]), Some(1));
    assert_eq!(find_preamble(&[0x55, 0xAA]), None);
    assert_eq!(find_preamble(&[]), None);
}

#[test]
fn frames_are_taken_out_of_the_buffer() {
    let mut buffer = vec![0x01, 0x02];
    buffer.extend(reply(0x62, 1));
    buffer.extend(reply(0x62, 2));
    buffer.extend_from_slice(&[0xAA, 0x55, 0x13]);
    let frames = extract_reply_frames(&mut buffer);
    assert_eq!(frames, vec![reply(0x62, 1), reply(0x62, 2)]);
    assert_eq!(buffer, vec![0xAA, 0x55, 0x13]);
}

#[test]
fn without_preamble_only_the_last_byte_is_kept() {
    let mut buffer = vec![0x10, 0x20, 0xAA];
    assert!(extract_reply_frames(&mut buffer).is_empty());
    assert_eq!(buffer, vec![0xAA]);
    let mut empty: Vec<u8> = vec![];
    assert!(extract_reply_frames(&mut empty).is_empty());
    assert!(empty.is_empty());
}

#[test]
fn chunked_reading_finds_the_same_frames() {
    let mut stream = vec![0x00];
    for i in 0..5u8 {
        stream.extend(reply(0x60 + i, i));
    }
    let mut all = stream.clone();
    let at_once = extract_reply_frames(&mut all);
    for chunk in [1usize, 3, 7, 11, 13] {
        let mut buffer = Vec::new();
        let mut found = Vec::new();
        for piece in stream.chunks(chunk) {
            buffer.extend_from_slice(piece);
            found.extend(extract_reply_frames(&mut buffer));
        }
        assert_eq!(found, at_once);
        assert_eq!(buffer, all);
    }
    assert!(at_once.iter().all(|f| f.len() == RESPONSE_SIZE && f[0] == 0xAA && f[1] == 0x55));
}

#[test]
fn reply_log_counts_in_order() {
    let mut log = ReplyLog::new();
    log.record(&reply(0x62, 9));
    log.record(&reply(0x62, 1));
    log.record(&reply(0x62, 9));
    log.record(&reply(0x60, 5));
    assert_eq!(log.count(), 4);
    let replies = log.unique_replies();
    assert_eq!(replies, vec![(reply(0x60, 5), 1), (reply(0x62, 1), 1), (reply(0x62, 9), 2)]);
    let models = log.model_counts();
    assert_eq!(models, vec![("BM1360".to_string(), 1), ("BM1362".to_string(), 3)]);
    let total: usize = replies.iter().map(|(_, c)| c).sum();
    assert_eq!(total, log.count());
}

#[test]
fn reply_log_orders_like_a_dictionary() {
    let mut log = ReplyLog::new();
    log.record(&[0xAA, 0x55, 0x01]);
    log.record(&[0xAA, 0x55]);
    log.record(&[0xAA, 0x54, 0xFF, 0xFF]);
    let keys: Vec<Vec<u8>> = log.unique_replies().into_iter().map(|(k, _)| k).collect();
    assert_eq!(keys, vec![vec![0xAA, 0x54, 0xFF, 0xFF], vec![0xAA, 0x55], vec![0xAA, 0x55, 0x01]]);
    let models = log.model_counts();
    assert_eq!(models, vec![("BMFFFF".to_string(), 1), ("unknown".to_string(), 2)]);
}

#[test]
fn hex_dump_has_offsets() {
    let data: Vec<u8> = (0u8..20).collect();
    let lines = hex_dump_lines(&data);
    assert_eq!(lines.len(), 2);
    assert_eq!(lines[0], "00: 00 01 02 03 04 05 06 07 08 09 0A 0B 0C 0D 0E 0F");
    assert_eq!(lines[1], "10: 10 11 12 13");
    let big = vec![0xEE; 300];
    let lines = hex_dump_lines(&big);
    assert_eq!(lines.len(), 19);
    assert!(lines[16].starts_with("100: EE"));
    assert!(hex_dump_lines(&[]).is_empty());
}

#[test]
fn tmp75_readings() {
    assert_eq!(tmp75_raw(0x0019), 0x1900);
    // 25.0 C is 0x1900: 400 sixteenths.
    assert_eq!(tmp75_sixteenths(0x1900), 400);
    assert_eq!(tmp75_sixteenths(0x7FF0), 2047);
    // -0.0625 C is 0xFFF0 and -25 C is 0xE700.
    assert_eq!(tmp75_sixteenths(0xFFF0), -1);
    assert_eq!(tmp75_sixteenths(0xE700), -400);
    assert_eq!(tmp75_sixteenths(0x8000), -2048);
}

#[test]
fn presence_texts() {
    assert_eq!(presence_label(0), "not-present-or-low");
    assert_eq!(presence_label(1), "present-or-high");
    assert_eq!(not_present_message(2), "hashboard 2 is not present");
}
