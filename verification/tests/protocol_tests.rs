use amlogic_cb_tools::protocol::{
    build_frame, checksum, decode_temperature_c, parse_frame, Frame, ProtocolError,
    TEMPERATURE_SATURATED_C, TEMPERATURE_TABLE,
};

#[test]
fn matches_epic_reference_capture() {
    // wire read `55 AA 06 09 9E 01 AE 00` -> raw 0x019E (414) -> 47 C.
    assert_eq!(decode_temperature_c(0x019E), 47);
    for raw in 412..=419 {
        assert_eq!(decode_temperature_c(raw), 47);
    }
}

#[test]
fn matches_idle_capture_on_140() {
    // output off, about 22 C ambient: payload [9D, 00] -> raw 157 -> 20 C.
    assert_eq!(decode_temperature_c(157), 20);
}

#[test]
fn saturates_past_the_table() {
    assert_eq!(decode_temperature_c(u16::MAX), TEMPERATURE_SATURATED_C);
    // The deltas must sum to exactly the saturation span.
    let total: i16 = TEMPERATURE_TABLE.iter().map(|&(_, d)| i16::from(d)).sum();
    assert_eq!(-30 + total, TEMPERATURE_SATURATED_C);
}

#[test]
fn below_the_table_is_the_floor() {
    assert_eq!(decode_temperature_c(0), -30);
}

#[test]
fn temperature_never_decreases_with_raw() {
    let mut last = decode_temperature_c(0);
    for raw in 1..=u16::MAX {
        let t = decode_temperature_c(raw);
        assert!(t >= last);
        assert!((-30..=125).contains(&t));
        last = t;
    }
}

#[test]
fn temperature_ends_of_the_table() {
    assert_eq!(decode_temperature_c(11), -30);
    assert_eq!(decode_temperature_c(1527), 125);
    assert_eq!(decode_temperature_c(40000), 125);
}

#[test]
fn checksum_adds_length_command_and_payload() {
    assert_eq!(checksum(6, 0x83, &[0x55, 0x00]), 6 + 0x83 + 0x55);
    assert_eq!(checksum(4, 0x01, &[]), 5);
    assert_eq!(checksum(255, 255, &[255; 4]), 255 * 6);
}

#[test]
fn builds_set_voltage_frame() {
    let frame = build_frame(0x83, &[0x55, 0x00]);
    assert_eq!(frame, vec![0x55, 0xAA, 0x06, 0x83, 0x55, 0x00, 0xDE, 0x00]);
}

#[test]
fn builds_empty_payload_frame() {
    assert_eq!(build_frame(0x01, &[]), vec![0x55, 0xAA, 0x04, 0x01, 0x05, 0x00]);
}

#[test]
fn checksum_high_byte_is_carried() {
    let frame = build_frame(0xFF, &[0xFF, 0xFF]);
    // 6 + 0xFF * 3 = 0x303
    assert_eq!(frame[frame.len() - 2], 0x03);
    assert_eq!(frame[frame.len() - 1], 0x03);
}

#[test]
fn built_frames_parse_back() {
    let payloads: [&[u8]; 4] = [&[], &[0x12], &[0x40, 0x21], &[0xAB; 40]];
    for payload in payloads {
        let raw = build_frame(0x06, payload);
        let frame: Frame = parse_frame(&raw).expect("built frame parses");
        assert_eq!(frame.command, 0x06);
        assert_eq!(frame.payload, payload.to_vec());
        assert_eq!(frame.raw, raw);
    }
}

#[test]
fn parse_rejects_empty() {
    assert!(matches!(parse_frame(&[]), Err(ProtocolError::EmptyResponse)));
    assert_eq!(ProtocolError::EmptyResponse.message(), "empty response");
}

#[test]
fn parse_rejects_nak() {
    assert!(matches!(parse_frame(&[0xF5]), Err(ProtocolError::Nak)));
    assert_eq!(ProtocolError::Nak.message(), "PSU returned NAK (0xF5)");
}

#[test]
fn parse_rejects_short_frames() {
    match parse_frame(&[0x55, 0xAA, 0x09]) {
        Err(ProtocolError::InvalidLength { declared, actual }) => {
            assert_eq!(declared, 9);
            assert_eq!(actual, 3);
        }
        other => panic!("unexpected {:?}", other),
    }
    match parse_frame(&[0x55, 0xAA]) {
        Err(ProtocolError::InvalidLength { declared, actual }) => {
            assert_eq!(declared, 0);
            assert_eq!(actual, 2);
        }
        other => panic!("unexpected {:?}", other),
    }
}

#[test]
fn parse_rejects_bad_preamble() {
    let err = parse_frame(&[0x55, 0xAB, 0x04, 0x01, 0x05, 0x00]).unwrap_err();
    assert!(matches!(&err, ProtocolError::InvalidPreamble(b) if b == &vec![0x55, 0xAB]));
    assert_eq!(err.message(), "invalid preamble: [55, AB]");
}

#[test]
fn parse_rejects_wrong_length_byte() {
    let err = parse_frame(&[0x55, 0xAA, 0x05, 0x01, 0x05, 0x00]).unwrap_err();
    assert!(matches!(err, ProtocolError::InvalidLength { declared: 5, actual: 4 }));
    assert_eq!(err.message(), "invalid frame length: declared 5, actual 4");
}

#[test]
fn parse_rejects_bad_checksum() {
    let err = parse_frame(&[0x55, 0xAA, 0x04, 0x01, 0x06, 0x00]).unwrap_err();
    assert!(matches!(err, ProtocolError::InvalidChecksum { expected: 0x05, actual: 0x06 }));
    assert_eq!(err.message(), "invalid checksum: expected 0x05, got 0x06");
}

#[test]
fn parse_ignores_checksum_high_byte() {
    let frame = parse_frame(&[0x55, 0xAA, 0x04, 0x01, 0x05, 0x7F]).unwrap();
    assert_eq!(frame.command, 0x01);
    assert!(frame.payload.is_empty());
}

#[test]
fn accepted_frames_are_built_frames() {
    let raw = [0x55, 0xAA, 0x06, 0x09, 0x9E, 0x01, 0xAE, 0x77];
    let frame = parse_frame(&raw).unwrap();
    let rebuilt = build_frame(frame.command, &frame.payload);
    assert_eq!(rebuilt[..rebuilt.len() - 1], raw[..raw.len() - 1]);
    assert_eq!(rebuilt[rebuilt.len() - 1], 0x00);
}
