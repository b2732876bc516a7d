use amlogic_cb_tools::eeprom_antminer::{
    decode_antminer_eeprom, xor_decode, AntminerEepromAlgorithm, AntminerEepromVersion,
    DecodedAntminerEeprom, EEPROM_SIZE,
};

fn decode(hex_data: &str) -> DecodedAntminerEeprom {
    let mut bytes = hex::decode(hex_data).unwrap();
    bytes.resize(EEPROM_SIZE, 0xFF);
    decode_antminer_eeprom(&bytes).unwrap()
}

const HB0: &str = "0411193af9a05572cae5d54209b90d41a09dee5608bf7d1cb123a247acdf1470b5f4450d43fd5efdec34d0c929f37d011e273692691d4613fa11933628472f326f541c861792e5899787b1d1f84f1c42c443681e8869445556805019c862f54876f9c2712bbe0af4eb97df0126f5650b30baffffffffffffffffffffffffffffffffffffffffffffffffffffffffffffffffffffffffffffffffffffffffffffffffffffffffffffffffffffffffffffffffffffffffffffffffffffffffffffffffffffffffffffffffffffffffffffffffffffffffffffffff5a";

#[test]
fn decodes_hb0_sample() {
    let decoded = decode(HB0);
    assert_eq!(decoded.board_serial, "KPMIYNRBBJDBH1985");
    assert_eq!(decoded.board_name, "BHB42603");
    assert_eq!(decoded.factory_job, "KPMI20220401001");
    assert_eq!(decoded.frequency_mhz, 525);
    assert_eq!(decoded.voltage_cv, 1380);
    assert_eq!(decoded.nonce_rate, 9989);
}

#[test]
fn decodes_hb1_sample() {
    let decoded = decode("041179627d9cd881437f5d219879af1217a74af3af9178824400638bc6a9cf2d37d4ad326faaddc2b7888dda33fef1387ad04717099204598304192cee201125510b0624523e135d8752e2d31341ad0b6cf9a78cf26ca843c61d61635ac936a0bf8a0e27e60d533e06bd63d84d4bc267e554ffffffffffffffffffffffffffffffffffffffffffffffffffffffffffffffffffffffffffffffffffffffffffffffffffffffffffffffffffffffffffffffffffffffffffffffffffffffffffffffffffffffffffffffffffffffffffffffffffffffffffffffff5a");
    assert_eq!(decoded.board_serial, "KPMIYNRBBJDBI0792");
    assert_eq!(decoded.chip_bin, 2);
    assert_eq!(decoded.nonce_rate, 9998);
}

#[test]
fn decodes_hb2_sample() {
    let decoded = decode("04115ac38425641a12ee2611b311e2e3612708350201d57f5034c11ef7c4ba42c6bb59cf422630546ed11aede669f53c58bc2b4fae17980cd3fdf26ff739f82097d06a5e12fccdcaac2e91df886e68c4bcb26e755436ee609bcec3f93bd8a6c640d1ff8fed56f44bf110495e1f6d39a4bcb1ffffffffffffffffffffffffffffffffffffffffffffffffffffffffffffffffffffffffffffffffffffffffffffffffffffffffffffffffffffffffffffffffffffffffffffffffffffffffffffffffffffffffffffffffffffffffffffffffffffffffffffffff5a");
    assert_eq!(decoded.board_serial, "KPMIYNRBBJDAE0701");
    assert_eq!(decoded.voltage_cv, 1360);
    assert_eq!(decoded.pcb_temp_in_c, 25);
    assert_eq!(decoded.pcb_temp_out_c, 28);
}

#[test]
fn hb0_header_fields() {
    let decoded = decode(HB0);
    assert_eq!(decoded.version, AntminerEepromVersion::V4);
    assert_eq!(decoded.algorithm, AntminerEepromAlgorithm::Xxtea);
    assert_eq!(decoded.key_index, 1);
    assert_eq!(decoded.algorithm.name(), "XXTEA");
    assert_eq!(decoded.decoded_bytes.len(), EEPROM_SIZE);
    assert!(decoded.sweep_hashrate.is_none());
}

#[test]
fn rejects_short_dump() {
    let err = decode_antminer_eeprom(&[0x04; 100]).unwrap_err();
    assert_eq!(err, "expected 256 bytes, got 100");
}

#[test]
fn rejects_unknown_version() {
    let mut bytes = hex::decode(HB0).unwrap();
    bytes.resize(EEPROM_SIZE, 0xFF);
    bytes[0] = 0x07;
    let err = decode_antminer_eeprom(&bytes).unwrap_err();
    assert_eq!(err, "unsupported Antminer EEPROM version: 0x07");
}

#[test]
fn rejects_unknown_algorithm() {
    let mut bytes = vec![0xFFu8; EEPROM_SIZE];
    bytes[0] = 0x05;
    bytes[1] = 0x31;
    let err = decode_antminer_eeprom(&bytes).unwrap_err();
    assert_eq!(err, "unsupported EEPROM algorithm: 3");
    assert_eq!(AntminerEepromAlgorithm::Unknown(3).name(), "unknown");
}

#[test]
fn rejects_key_index_past_the_table() {
    let mut bytes = vec![0xFFu8; EEPROM_SIZE];
    bytes[0] = 0x06;
    bytes[1] = 0x14;
    let err = decode_antminer_eeprom(&bytes).unwrap_err();
    assert_eq!(err, "unsupported EEPROM key index: 4");
}

#[test]
fn xor_region_is_undone() {
    // The XOR key of key index 0 is 0xBABEFACE: encode a serial with it,
    // and decoding gives it back.
    let key: u32 = 0xBABE_FACE;
    let mut bytes = vec![0xFFu8; EEPROM_SIZE];
    bytes[0] = 0x04;
    bytes[1] = 0x20;
    let mut plain = vec![0u8; 96];
    plain[..8].copy_from_slice(b"ABCD1234");
    for (i, chunk) in plain.chunks(4).enumerate() {
        let v = u32::from_le_bytes([chunk[0], chunk[1], chunk[2], chunk[3]]) ^ key;
        bytes[2 + 4 * i..6 + 4 * i].copy_from_slice(&v.to_le_bytes());
    }
    let decoded = decode_antminer_eeprom(&bytes).unwrap();
    assert_eq!(decoded.algorithm, AntminerEepromAlgorithm::Xor);
    assert_eq!(decoded.board_serial, "ABCD1234");
    assert_eq!(&decoded.decoded_bytes[2..98], &plain[..]);
}

#[test]
fn xor_decode_words_and_tail() {
    let data: Vec<u8> = vec![0x01, 0x02, 0x03, 0x04, 0x10, 0x20, 0x30, 0x40, 0xAA, 0xBB, 0xCC];
    let key: u32 = 0x1122_3344;
    let out = xor_decode(&data, key);
    assert_eq!(out.len(), data.len());
    for i in 0..data.len() / 4 {
        let w = u32::from_le_bytes([data[4 * i], data[4 * i + 1], data[4 * i + 2], data[4 * i + 3]]);
        assert_eq!(&out[4 * i..4 * i + 4], &(w ^ key).to_le_bytes()[..]);
    }
    assert_eq!(&out[8..], &[0xAA, 0xBB, 0xCC]);
    assert_eq!(&out[..8], &[0x45, 0x31, 0x21, 0x15, 0x54, 0x13, 0x12, 0x51]);
    assert_eq!(xor_decode(&out, key), data);
}

/// Bit-at-a-time CRC-5 (polynomial 0x05, initial value 0x1F, most
/// significant bit first) of the first `bits` bits of `bytes`.
fn bitwise_crc5(bytes: &[u8], bits: usize) -> u8 {
    let mut reg: u8 = 0x1F;
    for k in 0..bits {
        let bit = (bytes[k / 8] >> (7 - k % 8)) & 1;
        let out = (reg >> 4) & 1;
        reg = (reg << 1) & 0x1F;
        if out != bit {
            reg ^= 0x05;
        }
    }
    reg
}

#[test]
fn region_crcs_are_bitwise_crc5() {
    let decoded = decode(HB0);
    let img = &decoded.decoded_bytes;
    assert_eq!(decoded.pt1_crc_calculated, bitwise_crc5(&img[..97], 776));
    assert_eq!(decoded.pt2_crc_calculated_region, bitwise_crc5(&img[98..113], 120));
}
