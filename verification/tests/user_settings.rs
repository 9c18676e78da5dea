use nds_core::user_settings::crc16;

#[test]
fn crc16_modbus_canonical_vector() {
    assert_eq!(crc16(b"123456789"), 0x4B37);
}

