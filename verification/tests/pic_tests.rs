use amlogic_cb_tools::pic::{
    heartbeat_reply, pic_address_for_slot, pic_frame, read_reg_payload, read_reg_reply,
    reset_reply, set_dc_dc_payload, set_dc_dc_reply, start_app_reply, sw_version_reply,
    temperature_register_degrees, PicError, OP_READ_REG, OP_RESET, OP_VERSION,
};

#[test]
fn slot_addresses() {
    assert_eq!(pic_address_for_slot(0), 0x20);
    assert_eq!(pic_address_for_slot(2), 0x22);
}

#[test]
fn request_frames() {
    assert_eq!(pic_frame(0x07, &[0x00]), vec![0x55, 0xAA, 0x04, 0x07, 0x00, 0x0B]);
    assert_eq!(pic_frame(0x3c, &read_reg_payload(0x48)), vec![0x55, 0xAA, 0x06, 0x3c, 0x48, 0x02, 0x00, 0x8C]);
    assert_eq!(pic_frame(0x15, &set_dc_dc_payload(true)), vec![0x55, 0xAA, 0x05, 0x15, 0x01, 0x00, 0x1B]);
    assert_eq!(set_dc_dc_payload(false), [0x00, 0x00]);
    // The checksum wraps at one byte.
    assert_eq!(pic_frame(0xFF, &[0xFF]), vec![0x55, 0xAA, 0x04, 0xFF, 0xFF, 0x02]);
}

#[test]
fn acknowledgements() {
    assert!(reset_reply(0x20, vec![0x07, 0x01]).is_ok());
    assert!(start_app_reply(0x20, vec![0x06, 0x01]).is_ok());
    assert!(set_dc_dc_reply(0x20, vec![0x15, 0x01]).is_ok());
    match reset_reply(0x21, vec![0x07, 0x00]) {
        Err(PicError::UnexpectedResponse { addr, opcode, raw }) => {
            assert_eq!((addr, opcode, raw), (0x21, OP_RESET, vec![0x07, 0x00]));
        }
        _ => panic!("expected an unexpected response"),
    }
    assert!(start_app_reply(0x20, vec![0x06, 0x01, 0x00]).is_err());
}

#[test]
fn version_and_registers() {
    assert_eq!(sw_version_reply(0x20, vec![0x05, 0x17, 0x89, 0x00, 0xAB]).unwrap(), 0x89);
    match sw_version_reply(0x20, vec![0x05, 0x18, 0x89, 0x00, 0xAB]) {
        Err(PicError::UnexpectedResponse { opcode, .. }) => assert_eq!(opcode, OP_VERSION),
        _ => panic!("expected an unexpected response"),
    }
    assert!(heartbeat_reply(0x20, vec![0x06, 0x16, 0x01, 0x00, 0x00, 0x1D]).is_ok());
    assert!(heartbeat_reply(0x20, vec![0x06, 0x16, 0x00, 0x00, 0x00, 0x1D]).is_err());
    assert_eq!(read_reg_reply(0x20, vec![0x07, 0x3c, 0x01, 0x2A, 0x81, 0x00, 0x00]).unwrap(), 0x812A);
    match read_reg_reply(0x20, vec![0x07, 0x3c, 0x02]) {
        Err(PicError::UnexpectedResponse { opcode, raw, .. }) => {
            assert_eq!(opcode, OP_READ_REG);
            assert_eq!(raw, vec![0x07, 0x3c, 0x02]);
        }
        _ => panic!("expected an unexpected response"),
    }
    assert_eq!(temperature_register_degrees(0x812A), 42);
}

#[test]
fn pic_error_messages() {
    let e = PicError::UnexpectedResponse { addr: 0x20, opcode: 0x3c, raw: vec![0x07, 0xAB] };
    assert_eq!(e.message(), "unexpected PIC response at 0x20 for opcode 0x3c: [07, ab]");
    let e = PicError::UnexpectedResponse { addr: 0x120, opcode: 0x07, raw: vec![] };
    assert_eq!(e.message(), "unexpected PIC response at 0x120 for opcode 0x07: []");
    let io = std::io::Error::new(std::io::ErrorKind::Other, "bus stuck");
    let e = PicError::Io { addr: 0x0a, source: io };
    assert_eq!(e.message(), "I/O error talking to PIC at 0x0a: bus stuck");
}
