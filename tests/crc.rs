use hid_over_ip::discovery::crc::Crc8;

#[test]
fn test_9b() {
    let crc8_9b = Crc8::create(0x9b);
    // CDMA2000
    assert_eq!(crc8_9b.calc(b"123456789", 9, 0xFF), 0xDA);
    assert_eq!(crc8_9b.calc(b"987654321", 9, 0xFF), 0x58);
    // LTE
    assert_eq!(crc8_9b.calc(b"123456789", 9, 0x00), 0xEA);
    assert_eq!(crc8_9b.calc(b"987654321", 9, 0x00), 0x68);
}

#[test]
fn crc_of_prefix_only() {
    let crc8_9b = Crc8::create(0x9b);
    // only the first `len` bytes count
    assert_eq!(crc8_9b.calc(b"123456789xyz", 9, 0xFF), 0xDA);
    assert_eq!(crc8_9b.calc(b"", 0, 0x5A), 0x5A);
}

#[test]
fn crc_single_bytes_are_table_entries() {
    let crc8_9b = Crc8::create(0x9b);
    assert_eq!(crc8_9b.calc(&[0x00], 1, 0), 0x00);
    assert_eq!(crc8_9b.calc(&[0x01], 1, 0), 0x9b);
    assert_eq!(crc8_9b.calc(&[0x80], 1, 0), 0x0b);
    assert_eq!(crc8_9b.calc(&[0x02], 1, 0), 0xad);
}
