use heatmon::codec::{decode_payload, decode_reading};

#[test]
fn short_payloads_are_rejected() {
    assert_eq!(decode_payload(&vec![]), None);
    assert_eq!(decode_payload(&vec![0xE8]), None);
    assert_eq!(decode_payload(&vec![1, 2]), None);
    assert_eq!(decode_payload(&vec![1, 2, 3]), None);
    assert_eq!(decode_payload(&vec![1, 2, 3, 4]), None);
    assert_eq!(decode_payload(&vec![0xFF, 0xFF, 0xFF, 0xFF, 0xFF]), None);
}

#[test]
fn example_payload_decodes() {
    // 0x00E8 = 232 tenths of a degree = 23.2 degrees Celsius, humidity 44%.
    let payload = vec![0, 0, 0, 0xE8, 0x00, 0x2C];
    assert_eq!(decode_payload(&payload), Some((232, 44)));
}

#[test]
fn negative_temperature_decodes() {
    // 0xFFF6 as a signed 16-bit little-endian value is -10 (-1.0 degrees).
    let payload = vec![0, 0, 0, 0xF6, 0xFF, 10];
    assert_eq!(decode_payload(&payload), Some((-10, 10)));
}

#[test]
fn longer_payloads_use_fixed_offsets() {
    let payload = vec![9, 9, 9, 0x2A, 0x00, 81, 7, 7];
    assert_eq!(decode_payload(&payload), Some((42, 81)));
}

#[test]
fn reading_carries_the_device_address() {
    let address = String::from("10:76:36:76:66:1E");
    let payload = vec![0, 0, 0, 0xE8, 0x00, 0x2C];
    let reading = decode_reading(&address, &payload).unwrap();
    assert_eq!(reading.address, "10:76:36:76:66:1E");
    assert_eq!(reading.temperature, 232);
    assert_eq!(reading.humidity, 44);
    assert_eq!(decode_reading(&address, &vec![1, 2, 3]), None);
}
