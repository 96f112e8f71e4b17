use genos::ramfs::RamFs;
use genos::rtc::{bcd_to_binary, decode, RtcTime};

#[test]
fn bcd_registers_decode_to_binary() {
    assert_eq!(bcd_to_binary(0x59), 59);
    assert_eq!(bcd_to_binary(0x00), 0);
    assert_eq!(bcd_to_binary(0x12), 12);
}

#[test]
fn twelve_hour_bcd_clock_becomes_24_hour() {
    // 11:05:09 PM on 2024-03-07, BCD, 12-hour clock.
    let t = decode(0x09, 0x05, 0x80 | 0x11, 0x07, 0x03, 0x24, 0x00);
    assert_eq!(t, RtcTime { year: 2024, month: 3, day: 7, hour: 23, minute: 5, second: 9 });
    // 12 AM is midnight.
    let t = decode(0x00, 0x00, 0x12, 0x01, 0x01, 0x00, 0x00);
    assert_eq!(t.hour, 0);
    // Binary 24-hour values pass through.
    let t = decode(30, 15, 18, 2, 11, 25, 0x06);
    assert_eq!(t, RtcTime { year: 2025, month: 11, day: 2, hour: 18, minute: 15, second: 30 });
}

#[test]
fn clock_and_date_format_with_two_digits() {
    let t = RtcTime { year: 2024, month: 3, day: 7, hour: 9, minute: 5, second: 0 };
    assert_eq!(t.format_clock().as_str(), "09:05:00");
    assert_eq!(t.format_date_time().as_str(), "rtc 2024-03-07 09:05:00");
}

fn image() -> Vec<u8> {
    let mut bytes = b"GRD1".to_vec();
    bytes.extend_from_slice(&2u32.to_le_bytes());
    bytes.extend_from_slice(&3u16.to_le_bytes());
    bytes.extend_from_slice(&2u32.to_le_bytes());
    bytes.extend_from_slice(b"abcxy");
    bytes.extend_from_slice(&1u16.to_le_bytes());
    bytes.extend_from_slice(&0u32.to_le_bytes());
    bytes.extend_from_slice(b"z");
    bytes
}

#[test]
fn ramdisk_files_are_read_in_order() {
    let bytes = image();
    let fs = RamFs::from_image(&bytes);
    assert_eq!(fs.count(), 2);
    let mut files = fs.iter();
    let first = files.next().unwrap();
    assert_eq!(first.name, "abc");
    assert_eq!(first.data, b"xy");
    let second = files.next().unwrap();
    assert_eq!(second.name, "z");
    assert!(second.data.is_empty());
    assert!(files.next().is_none());
}

#[test]
fn bad_magic_or_truncated_entries_hold_nothing() {
    let mut bytes = image();
    bytes[0] = b'X';
    assert_eq!(RamFs::from_image(&bytes).count(), 0);
    let bytes = image();
    let fs = RamFs::from_image(&bytes[..bytes.len() - 1]);
    let mut files = fs.iter();
    assert!(files.next().is_some());
    assert!(files.next().is_none());
    assert_eq!(RamFs::from_image(b"GRD").count(), 0);
}

#[test]
fn ramdisk_accepts_utf8_names_and_stops_at_invalid_ones() {
    let name = "café".as_bytes();
    let mut bytes = b"GRD1".to_vec();
    bytes.extend_from_slice(&2u32.to_le_bytes());
    bytes.extend_from_slice(&(name.len() as u16).to_le_bytes());
    bytes.extend_from_slice(&1u32.to_le_bytes());
    bytes.extend_from_slice(name);
    bytes.push(b'!');
    bytes.extend_from_slice(&1u16.to_le_bytes());
    bytes.extend_from_slice(&0u32.to_le_bytes());
    bytes.push(0xff);
    let fs = RamFs::from_image(&bytes);
    let mut files = fs.iter();
    let first = files.next().unwrap();
    assert_eq!(first.name, "café");
    assert_eq!(first.data, b"!");
    assert!(files.next().is_none());
}
