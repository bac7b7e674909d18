use rv32sim::serial::Serial;

#[test]
fn serial_write_emits_little_endian_bytes() {
    let mut serial = Serial::new();
    serial.write(0x01020304);
    assert_eq!(vec![0x04, 0x03, 0x02, 0x01], serial.output);
}

#[test]
fn serial_read_assembles_little_endian_word() {
    let mut serial = Serial::new();
    serial.input = vec![0x04, 0x03, 0x02, 0x01];
    assert_eq!(0x01020304, serial.read());
    assert!(serial.input.is_empty());
}

#[test]
fn serial_short_read_zero_fills() {
    let mut serial = Serial::new();
    serial.input = vec![0x04, 0x03];
    assert_eq!(0x0304, serial.read());
    assert!(serial.input.is_empty());
    assert_eq!(0, serial.read());
}

#[test]
fn serial_word_round_trip() {
    // Bytes written by one device read back as the same word on another.
    let mut sender = Serial::new();
    sender.write(0xdeadbeef);
    let mut receiver = Serial::new();
    receiver.input = sender.output.clone();
    assert_eq!(0xdeadbeef, receiver.read());
}
