use amlogic_cb_tools::protocol::{build_frame, parse_frame};
use amlogic_cb_tools::psu_tool::{
    adc_bytes, dac_code, echo_outcome, exchange_failure, judge_reply, Exchange, ExchangeStep, output_state, read_step,
    readback_outcome, request_of, scan_bounds, set_voltage_payload, state_label, Command,
    ReaderStep, ReplyReader, Verdict,
};

/// Feeds bytes to the reply reader until it finishes.
fn read_all(bytes: &[u8]) -> Result<(Vec<u8>, usize), String> {
    let mut state = ReplyReader::Hunting;
    for (i, b) in bytes.iter().enumerate() {
        match read_step(state, *b) {
            ReaderStep::More(next) => state = next,
            ReaderStep::Done(reply) => return Ok((reply, i + 1)),
            ReaderStep::Failed(e) => return Err(e),
        }
    }
    Err("ran out of bytes".to_string())
}

#[test]
fn reader_skips_noise_and_reads_a_frame() {
    let frame = build_frame(0x03, &[0x55]);
    let mut stream = vec![0x00, 0x13, 0xFF];
    stream.extend_from_slice(&frame);
    stream.extend_from_slice(&[0x99, 0x98]);
    let (reply, used) = read_all(&stream).unwrap();
    assert_eq!(reply, frame);
    assert_eq!(used, 3 + frame.len());
}

#[test]
fn reader_returns_a_lone_nak() {
    let (reply, used) = read_all(&[0x01, 0xF5, 0x55]).unwrap();
    assert_eq!(reply, vec![0xF5]);
    assert_eq!(used, 2);
}

#[test]
fn reader_refuses_a_broken_preamble() {
    assert_eq!(read_all(&[0x55, 0x12]).unwrap_err(), "invalid preamble continuation: 0x12");
}

#[test]
fn reader_refuses_a_zero_length() {
    assert_eq!(read_all(&[0x55, 0xAA, 0x00]).unwrap_err(), "response length underflow");
}

#[test]
fn reader_length_one_is_three_bytes() {
    assert_eq!(read_all(&[0x55, 0xAA, 0x01, 0x77]).unwrap(), (vec![0x55, 0xAA, 0x01], 3));
}

#[test]
fn judge_accepts_the_matching_reply() {
    let raw = build_frame(0x01, &[0x31, 0x2E, 0x30]);
    match judge_reply(&raw, 0x01) {
        Verdict::Accept(frame) => {
            assert_eq!(frame.payload, vec![0x31, 0x2E, 0x30]);
            assert_eq!(frame.raw, raw);
        }
        Verdict::Retry(e) => panic!("unexpected retry: {e}"),
    }
}

#[test]
fn judge_retries_with_a_reason() {
    let retry = |raw: &[u8], command: u8| match judge_reply(raw, command) {
        Verdict::Retry(e) => e,
        Verdict::Accept(_) => panic!("unexpected accept"),
    };
    assert_eq!(retry(&[0xF5], 0x01), "PSU returned NAK (0xF5)");
    assert_eq!(
        retry(&build_frame(0x02, &[]), 0x01),
        "unexpected response command 0x02 for request 0x01"
    );
    assert_eq!(retry(&[0x55, 0xAA, 0x04, 0x01, 0x00, 0x00], 0x01), "invalid checksum: expected 0x05, got 0x00");
    assert_eq!(retry(&[], 0x01), "empty response");
}

#[test]
fn requests_of_bus_commands() {
    assert_eq!(request_of(&Command::GetFw), Some((0x01, vec![])));
    assert_eq!(request_of(&Command::MeasureVoltage), Some((0x04, vec![])));
    assert_eq!(request_of(&Command::DisableWatchdog), Some((0x81, vec![0, 0])));
    assert_eq!(request_of(&Command::EnableWatchdog(0x0E)), Some((0x81, vec![0x0E, 0])));
    assert_eq!(request_of(&Command::SetDac(0x40)), Some((0x83, vec![0x40, 0])));
    assert_eq!(request_of(&Command::ReadCal { page: 0x40, count: 0x21 }), Some((0x06, vec![0x40, 0x21])));
    assert_eq!(
        request_of(&Command::Raw { command: 0x09, payload: vec![1, 2] }),
        Some((0x09, vec![1, 2]))
    );
    assert_eq!(request_of(&Command::Help), None);
    assert_eq!(request_of(&Command::SetVoltage("12".to_string())), None);
    assert_eq!(set_voltage_payload(0x7F), vec![0x7F, 0x00]);
}

#[test]
fn readback_confirms_the_setpoint() {
    let verify = parse_frame(&build_frame(0x03, &[0x40])).unwrap();
    let outcome = readback_outcome(0x40, verify.clone(), "timeout".to_string()).unwrap();
    assert!(outcome.verified_by_readback);
    assert_eq!(outcome.response_issue.as_deref(), Some("timeout"));
    assert_eq!(outcome.frame.command, 0x83);
    assert_eq!(outcome.frame.payload, vec![0x40, 0x00]);
    assert_eq!(outcome.frame.raw, verify.raw);

    assert_eq!(readback_outcome(0x41, verify, "timeout".to_string()).unwrap_err(), "timeout");
    let empty = parse_frame(&build_frame(0x03, &[])).unwrap();
    assert_eq!(
        readback_outcome(0x40, empty, "timeout".to_string()).unwrap_err(),
        "missing DAC payload during set verification"
    );
}

#[test]
fn echo_is_not_a_readback() {
    let frame = parse_frame(&build_frame(0x83, &[0x40, 0x00])).unwrap();
    let outcome = echo_outcome(frame);
    assert!(!outcome.verified_by_readback);
    assert!(outcome.response_issue.is_none());
}

#[test]
fn reply_payloads() {
    assert_eq!(dac_code(&[0x5A, 0x00]), Ok(0x5A));
    assert_eq!(dac_code(&[]), Err("missing DAC payload".to_string()));
    assert_eq!(adc_bytes(&[0x34, 0x12]), Ok((0x34, 0x12)));
    assert_eq!(adc_bytes(&[0x34]), Err("missing ADC payload".to_string()));
    assert_eq!(output_state(&[0x01, 0x00]), Ok(1));
    assert_eq!(output_state(&[0x00, 0x01]), Ok(0x0100));
    assert_eq!(output_state(&[]), Err("missing state payload".to_string()));
    assert_eq!(state_label(1), "ON");
    assert_eq!(state_label(0x0100), "OFF");
}

#[test]
fn exchange_failure_reason() {
    assert_eq!(exchange_failure(Some("x".to_string())), "x");
    assert_eq!(exchange_failure(None), "no valid PSU response received");
}

#[test]
fn scan_bounds_are_ordered() {
    assert_eq!(scan_bounds(0x50, 0x5F), (0x50, 0x5F));
    assert_eq!(scan_bounds(0x5F, 0x50), (0x50, 0x5F));
}

#[test]
fn exchange_gives_up_after_three_replies() {
    let mut pending = Exchange::new(0x01);
    let mut steps = 0;
    loop {
        steps += 1;
        match pending.on_reply(&[0xF5]) {
            ExchangeStep::TryAgain(next) => {
                assert_eq!(next.last_error.as_deref(), Some("PSU returned NAK (0xF5)"));
                pending = next;
            }
            ExchangeStep::Failed(reason) => {
                assert_eq!(reason, "PSU returned NAK (0xF5)");
                break;
            }
            ExchangeStep::Done(_) => panic!("a NAK is never accepted"),
        }
    }
    assert_eq!(steps, 3);
}

#[test]
fn exchange_takes_a_good_reply_after_a_bad_one() {
    let first = Exchange::new(0x04).on_reply(&build_frame(0x05, &[1, 0]));
    let pending = match first {
        ExchangeStep::TryAgain(next) => {
            assert_eq!(next.tries, 1);
            assert_eq!(next.last_error.as_deref(), Some("unexpected response command 0x05 for request 0x04"));
            next
        }
        _ => panic!("expected another try"),
    };
    match pending.on_reply(&build_frame(0x04, &[0x40, 0x03])) {
        ExchangeStep::Done(frame) => assert_eq!(frame.payload, vec![0x40, 0x03]),
        _ => panic!("expected the reply"),
    }
}
