use chrono::{DateTime, TimeZone, Utc};
use copper_core::clock::{CuDuration, CuTime, RobotClockMock};
use copper_core::livox::{
    hex2, i32_endianness, parse_frame, u16_endianness, u32_endianness, u64_endianness,
    CommandFrame, LidarFrame, LivoxError, PointType2, DATA_FRAME_TYPE2_SIZE,
};

fn tele15_packet() -> [u8; 1362] {
    let packet_data: [u8; 1362] = [
        0x05, 0x01, 0x01, 0x00, 0x40, 0x68, 0x00, 0x40, 0x01, 0x02, 0x8B, 0x06, 0xAE, 0xE5,
        0xB4, 0x12, 0xF6, 0x17, 0xF6, 0x5C, 0x00, 0x00, 0x08, 0x08, 0x00, 0x00, 0xAB, 0x05,
        0x00, 0x00, 0x0F, 0x10, 0xFE, 0x5C, 0x00, 0x00, 0x0E, 0x08, 0x00, 0x00, 0x27, 0x05,
        0x00, 0x00, 0x0E, 0x10, 0xE8, 0x5C, 0x00, 0x00, 0x11, 0x08, 0x00, 0x00, 0xA0, 0x04,
        0x00, 0x00, 0x24, 0x10, 0x17, 0x5D, 0x00, 0x00, 0x1A, 0x08, 0x00, 0x00, 0x1B, 0x04,
        0x00, 0x00, 0x0C, 0x10, 0xBD, 0x59, 0x00, 0x00, 0xD4, 0x07, 0x00, 0x00, 0x74, 0x03,
        0x00, 0x00, 0x16, 0x10, 0xDD, 0x58, 0x00, 0x00, 0xC6, 0x07, 0x00, 0x00, 0xED, 0x02,
        0x00, 0x00, 0x09, 0x10, 0xE3, 0x5C, 0x00, 0x00, 0x2D, 0x08, 0x00, 0x00, 0xA7, 0x05,
        0x00, 0x00, 0x0A, 0x10, 0xDE, 0x5C, 0x00, 0x00, 0x31, 0x08, 0x00, 0x00, 0x22, 0x05,
        0x00, 0x00, 0x09, 0x10, 0xE0, 0x5C, 0x00, 0x00, 0x37, 0x08, 0x00, 0x00, 0x9D, 0x04,
        0x00, 0x00, 0x1D, 0x10, 0x32, 0x5C, 0x00, 0x00, 0x2C, 0x08, 0x00, 0x00, 0x0D, 0x04,
        0x00, 0x00, 0x07, 0x10, 0x27, 0x59, 0x00, 0x00, 0xEC, 0x07, 0x00, 0x00, 0x6B, 0x03,
        0x00, 0x00, 0x0E, 0x10, 0x67, 0x54, 0x00, 0x00, 0x84, 0x07, 0x00, 0x00, 0xC4, 0x02,
        0x00, 0x00, 0x1A, 0x10, 0xD5, 0x5C, 0x00, 0x00, 0x52, 0x08, 0x00, 0x00, 0xA3, 0x05,
        0x00, 0x00, 0x0F, 0x10, 0xFA, 0x5C, 0x00, 0x00, 0x5A, 0x08, 0x00, 0x00, 0x1F, 0x05,
        0x00, 0x00, 0x0B, 0x10, 0xAD, 0x5B, 0x00, 0x00, 0x41, 0x08, 0x00, 0x00, 0x89, 0x04,
        0x00, 0x00, 0x04, 0x10, 0x0D, 0x5C, 0x00, 0x00, 0x4E, 0x08, 0x00, 0x00, 0x07, 0x04,
        0x00, 0x00, 0x07, 0x10, 0xDD, 0x59, 0x00, 0x00, 0x21, 0x08, 0x00, 0x00, 0x6E, 0x03,
        0x00, 0x00, 0x13, 0x10, 0x55, 0x54, 0x00, 0x00, 0xA5, 0x07, 0x00, 0x00, 0xBF, 0x02,
        0x00, 0x00, 0x18, 0x10, 0xC4, 0x5B, 0x00, 0x00, 0x5E, 0x08, 0x00, 0x00, 0x8D, 0x05,
        0x00, 0x00, 0x64, 0x10, 0xC1, 0x5A, 0x00, 0x00, 0x4B, 0x08, 0x00, 0x00, 0xFB, 0x04,
        0x00, 0x00, 0x04, 0x10, 0xA4, 0x5B, 0x00, 0x00, 0x65, 0x08, 0x00, 0x00, 0x84, 0x04,
        0x00, 0x00, 0x10, 0x10, 0x2C, 0x5C, 0x00, 0x00, 0x76, 0x08, 0x00, 0x00, 0x04, 0x04,
        0x00, 0x00, 0x14, 0x10, 0xAD, 0x56, 0x00, 0x00, 0xF9, 0x07, 0x00, 0x00, 0x4A, 0x03,
        0x00, 0x00, 0x04, 0x10, 0x37, 0x54, 0x00, 0x00, 0xC4, 0x07, 0x00, 0x00, 0xB9, 0x02,
        0x00, 0x00, 0x18, 0x10, 0xE4, 0x59, 0x00, 0x00, 0x56, 0x08, 0x00, 0x00, 0x6B, 0x05,
        0x00, 0x00, 0x04, 0x10, 0xA4, 0x5B, 0x00, 0x00, 0x84, 0x08, 0x00, 0x00, 0x02, 0x05,
        0x00, 0x00, 0x0C, 0x10, 0xB4, 0x5B, 0x00, 0x00, 0x8A, 0x08, 0x00, 0x00, 0x7F, 0x04,
        0x00, 0x00, 0x13, 0x10, 0xC8, 0x5B, 0x00, 0x00, 0x91, 0x08, 0x00, 0x00, 0xF9, 0x03,
        0x00, 0x00, 0x0D, 0x10, 0xF6, 0x58, 0x00, 0x00, 0x52, 0x08, 0x00, 0x00, 0x5A, 0x03,
        0x00, 0x00, 0x0E, 0x10, 0x6E, 0x52, 0x00, 0x00, 0xBA, 0x07, 0x00, 0x00, 0xA5, 0x02,
        0x00, 0x00, 0x13, 0x10, 0x00, 0x5B, 0x00, 0x00, 0x95, 0x08, 0x00, 0x00, 0x76, 0x05,
        0x00, 0x00, 0x0B, 0x10, 0x21, 0x5B, 0x00, 0x00, 0x9C, 0x08, 0x00, 0x00, 0xF4, 0x04,
        0x00, 0x00, 0x11, 0x10, 0xAB, 0x5A, 0x00, 0x00, 0x95, 0x08, 0x00, 0x00, 0x6B, 0x04,
        0x00, 0x00, 0x12, 0x10, 0xC1, 0x5A, 0x00, 0x00, 0x9B, 0x08, 0x00, 0x00, 0xE7, 0x03,
        0x00, 0x00, 0x0B, 0x10, 0x14, 0x58, 0x00, 0x00, 0x5F, 0x08, 0x00, 0x00, 0x4B, 0x03,
        0x00, 0x00, 0x0E, 0x10, 0x92, 0x52, 0x00, 0x00, 0xDD, 0x07, 0x00, 0x00, 0xA0, 0x02,
        0x00, 0x00, 0x10, 0x10, 0x4A, 0x5A, 0x00, 0x00, 0xA6, 0x08, 0x00, 0x00, 0x64, 0x05,
        0x00, 0x00, 0x0E, 0x10, 0x10, 0x5A, 0x00, 0x00, 0xA4, 0x08, 0x00, 0x00, 0xDE, 0x04,
        0x00, 0x00, 0x12, 0x10, 0xAE, 0x59, 0x00, 0x00, 0x9F, 0x08, 0x00, 0x00, 0x57, 0x04,
        0x00, 0x00, 0x13, 0x10, 0x92, 0x59, 0x00, 0x00, 0xA1, 0x08, 0x00, 0x00, 0xD3, 0x03,
        0x00, 0x00, 0x0A, 0x10, 0x13, 0x57, 0x00, 0x00, 0x68, 0x08, 0x00, 0x00, 0x3A, 0x03,
        0x00, 0x00, 0x0D, 0x10, 0x4B, 0x4F, 0x00, 0x00, 0xAB, 0x07, 0x00, 0x00, 0x7E, 0x02,
        0x00, 0x00, 0x11, 0x10, 0x51, 0x59, 0x00, 0x00, 0xB0, 0x08, 0x00, 0x00, 0x4D, 0x05,
        0x00, 0x00, 0x0D, 0x10, 0x14, 0x59, 0x00, 0x00, 0xAE, 0x08, 0x00, 0x00, 0xC8, 0x04,
        0x00, 0x00, 0x12, 0x10, 0xBE, 0x58, 0x00, 0x00, 0xAA, 0x08, 0x00, 0x00, 0x43, 0x04,
        0x00, 0x00, 0x12, 0x10, 0x89, 0x58, 0x00, 0x00, 0xA9, 0x08, 0x00, 0x00, 0xBF, 0x03,
        0x00, 0x00, 0x0B, 0x10, 0x3C, 0x56, 0x00, 0x00, 0x74, 0x08, 0x00, 0x00, 0x2A, 0x03,
        0x00, 0x00, 0x0E, 0x10, 0xB2, 0x4E, 0x00, 0x00, 0xBA, 0x07, 0x00, 0x00, 0x71, 0x02,
        0x00, 0x00, 0x08, 0x10, 0x5E, 0x58, 0x00, 0x00, 0xBA, 0x08, 0x00, 0x00, 0x35, 0x05,
        0x00, 0x00, 0x0C, 0x10, 0x21, 0x58, 0x00, 0x00, 0xB8, 0x08, 0x00, 0x00, 0xB2, 0x04,
        0x00, 0x00, 0x12, 0x10, 0xD0, 0x57, 0x00, 0x00, 0xB3, 0x08, 0x00, 0x00, 0x2F, 0x04,
        0x00, 0x00, 0x12, 0x10, 0x89, 0x57, 0x00, 0x00, 0xB0, 0x08, 0x00, 0x00, 0xAB, 0x03,
        0x00, 0x00, 0x0E, 0x10, 0x34, 0x55, 0x00, 0x00, 0x79, 0x08, 0x00, 0x00, 0x17, 0x03,
        0x00, 0x00, 0x0E, 0x10, 0x06, 0x4E, 0x00, 0x00, 0xC6, 0x07, 0x00, 0x00, 0x64, 0x02,
        0x00, 0x00, 0x11, 0x10, 0x6C, 0x57, 0x00, 0x00, 0xC2, 0x08, 0x00, 0x00, 0x1E, 0x05,
        0x00, 0x00, 0x0D, 0x10, 0x35, 0x57, 0x00, 0x00, 0xC0, 0x08, 0x00, 0x00, 0x9C, 0x04,
        0x00, 0x00, 0x12, 0x10, 0xEB, 0x56, 0x00, 0x00, 0xBC, 0x08, 0x00, 0x00, 0x1B, 0x04,
        0x00, 0x00, 0x12, 0x10, 0xB3, 0x56, 0x00, 0x00, 0xBA, 0x08, 0x00, 0x00, 0x98, 0x03,
        0x00, 0x00, 0x0D, 0x10, 0x27, 0x54, 0x00, 0x00, 0x7C, 0x08, 0x00, 0x00, 0x04, 0x03,
        0x00, 0x00, 0x0E, 0x10, 0x64, 0x4D, 0x00, 0x00, 0xD1, 0x07, 0x00, 0x00, 0x56, 0x02,
        0x00, 0x00, 0x16, 0x10, 0x81, 0x56, 0x00, 0x00, 0xC9, 0x08, 0x00, 0x00, 0x06, 0x05,
        0x00, 0x00, 0x0E, 0x10, 0x58, 0x56, 0x00, 0x00, 0xC8, 0x08, 0x00, 0x00, 0x87, 0x04,
        0x00, 0x00, 0x12, 0x10, 0x18, 0x56, 0x00, 0x00, 0xC5, 0x08, 0x00, 0x00, 0x07, 0x04,
        0x00, 0x00, 0x10, 0x10, 0xF6, 0x55, 0x00, 0x00, 0xC5, 0x08, 0x00, 0x00, 0x86, 0x03,
        0x00, 0x00, 0x0A, 0x10, 0x81, 0x4A, 0x00, 0x00, 0x9D, 0x07, 0x00, 0x00, 0xA2, 0x02,
        0x00, 0x00, 0x00, 0x10, 0x64, 0x4A, 0x00, 0x00, 0x9D, 0x07, 0x00, 0x00, 0x36, 0x02,
        0x00, 0x00, 0x25, 0x10, 0xA5, 0x55, 0x00, 0x00, 0xD0, 0x08, 0x00, 0x00, 0xEF, 0x04,
        0x00, 0x00, 0x0E, 0x10, 0x80, 0x55, 0x00, 0x00, 0xD0, 0x08, 0x00, 0x00, 0x71, 0x04,
        0x00, 0x00, 0x11, 0x10, 0x4A, 0x55, 0x00, 0x00, 0xCE, 0x08, 0x00, 0x00, 0xF2, 0x03,
        0x00, 0x00, 0x0E, 0x10, 0x36, 0x55, 0x00, 0x00, 0xCF, 0x08, 0x00, 0x00, 0x74, 0x03,
        0x00, 0x00, 0x09, 0x10, 0x8F, 0x4A, 0x00, 0x00, 0xB8, 0x07, 0x00, 0x00, 0x99, 0x02,
        0x00, 0x00, 0x03, 0x10, 0x10, 0x4A, 0x00, 0x00, 0xAE, 0x07, 0x00, 0x00, 0x2A, 0x02,
        0x00, 0x00, 0x23, 0x10, 0xB1, 0x54, 0x00, 0x00, 0xD4, 0x08, 0x00, 0x00, 0xD5, 0x04,
        0x00, 0x00, 0x0E, 0x10, 0xA7, 0x54, 0x00, 0x00, 0xD6, 0x08, 0x00, 0x00, 0x5A, 0x04,
        0x00, 0x00, 0x0E, 0x10, 0x91, 0x54, 0x00, 0x00, 0xD7, 0x08, 0x00, 0x00, 0xDE, 0x03,
        0x00, 0x00, 0x0B, 0x10, 0x7E, 0x54, 0x00, 0x00, 0xD8, 0x08, 0x00, 0x00, 0x61, 0x03,
        0x00, 0x00, 0x09, 0x10, 0x8F, 0x4A, 0x00, 0x00, 0xD1, 0x07, 0x00, 0x00, 0x8F, 0x02,
        0x00, 0x00, 0x07, 0x10, 0x6E, 0x49, 0x00, 0x00, 0xB6, 0x07, 0x00, 0x00, 0x1B, 0x02,
        0x00, 0x00, 0x1D, 0x10, 0xDD, 0x53, 0x00, 0x00, 0xDA, 0x08, 0x00, 0x00, 0xBD, 0x04,
        0x00, 0x00, 0x0E, 0x10, 0xD9, 0x53, 0x00, 0x00, 0xDD, 0x08, 0x00, 0x00, 0x43, 0x04,
        0x00, 0x00, 0x0B, 0x10, 0xC9, 0x53, 0x00, 0x00, 0xDE, 0x08, 0x00, 0x00, 0xC9, 0x03,
        0x00, 0x00, 0x0B, 0x10, 0xDE, 0x53, 0x00, 0x00, 0xE4, 0x08, 0x00, 0x00, 0x4E, 0x03,
        0x00, 0x00, 0x08, 0x10, 0x8D, 0x4B, 0x00, 0x00, 0x05, 0x08, 0x00, 0x00, 0x8C, 0x02,
        0x00, 0x00, 0x09, 0x10, 0x1E, 0x49, 0x00, 0x00, 0xC6, 0x07, 0x00, 0x00, 0x0E, 0x02,
        0x00, 0x00, 0x14, 0x10, 0x24, 0x53, 0x00, 0x00, 0xE1, 0x08, 0x00, 0x00, 0xA6, 0x04,
        0x00, 0x00, 0x0E, 0x10, 0x21, 0x53, 0x00, 0x00, 0xE4, 0x08, 0x00, 0x00, 0x2D, 0x04,
        0x00, 0x00, 0x0A, 0x10, 0x16, 0x53, 0x00, 0x00, 0xE6, 0x08, 0x00, 0x00, 0xB4, 0x03,
        0x00, 0x00, 0x0B, 0x10, 0x32, 0x53, 0x00, 0x00, 0xEC, 0x08, 0x00, 0x00, 0x3B, 0x03,
        0x00, 0x00, 0x08, 0x10, 0x1E, 0x4B, 0x00, 0x00, 0x11, 0x08, 0x00, 0x00, 0x7D, 0x02,
        0x00, 0x00, 0x11, 0x10, 0x81, 0x48, 0x00, 0x00, 0xCC, 0x07, 0x00, 0x00, 0xFE, 0x01,
        0x00, 0x00, 0x16, 0x10, 0x7E, 0x52, 0x00, 0x00, 0xEA, 0x08, 0x00, 0x00, 0x90, 0x04,
        0x00, 0x00, 0x0B, 0x10, 0x6F, 0x52, 0x00, 0x00, 0xEB, 0x08, 0x00, 0x00, 0x17, 0x04,
        0x00, 0x00, 0x0B, 0x10, 0x67, 0x52, 0x00, 0x00, 0xED, 0x08, 0x00, 0x00, 0x9F, 0x03,
        0x00, 0x00, 0x0A, 0x10, 0x8C, 0x52, 0x00, 0x00, 0xF4, 0x08, 0x00, 0x00, 0x27, 0x03,
        0x00, 0x00, 0x08, 0x10, 0xA9, 0x4A, 0x00, 0x00, 0x1C, 0x08, 0x00, 0x00, 0x6D, 0x02,
        0x00, 0x00, 0x11, 0x10, 0x85, 0x48, 0x00, 0x00, 0xE3, 0x07, 0x00, 0x00, 0xF2, 0x01,
        0x00, 0x00, 0x15, 0x10,
    ];
    packet_data
}

#[test]
fn test_tele15_packet() {
    let mut robot_clock = RobotClockMock::new();
    // push the time by 1s because the first emulated test packet could end up in negative time.
    robot_clock.increment(CuDuration(1_000_000_000));

    let packet_data = tele15_packet();

    if packet_data.len() < DATA_FRAME_TYPE2_SIZE {
        panic!("Packet too short: {}", packet_data.len());
    }

    let packet: LidarFrame = parse_frame(&packet_data).unwrap();

    let datetime = Utc.with_ymd_and_hms(1970, 1, 1, 0, 0, 0).unwrap();
    let _rt: (DateTime<Utc>, CuTime) = (datetime, robot_clock.now());
    let timestamp = packet.header.timestamp;
    println!("Tov: {timestamp}");
}

#[test]
fn tele15_packet_fields() {
    let packet = parse_frame(&tele15_packet()).unwrap();
    assert_eq!(packet.header.version, 5);
    assert_eq!(packet.header.slot_id, 1);
    assert_eq!(packet.header.lidar_id, 1);
    assert_eq!(packet.header.status_code, 0x4000_6840);
    assert_eq!(packet.header.timestamp_type, 1);
    assert_eq!(packet.header.data_type, 2);
    assert_eq!(packet.header.timestamp, 0x17F6_12B4_E5AE_068B);
    assert_eq!(packet.header.timestamp(), CuDuration(0x17F6_12B4_E5AE_068B));
    assert_eq!(packet.points.len(), 96);
    let first: PointType2 = packet.points[0];
    assert_eq!(first.x(), 0x5CF6);
    assert_eq!(first.y(), 0x0808);
    assert_eq!(first.z(), 0x05AB);
    assert_eq!(first.reflectivity, 0x0F);
    assert_eq!(first.tag, 0x10);
    let last = packet.points[95];
    assert_eq!(last.x(), 0x4885);
    assert_eq!(last.y(), 0x07E3);
    assert_eq!(last.z(), 0x01F2);
    assert_eq!(last.reflectivity, 0x15);
    assert_eq!(last.tag, 0x10);
    assert!(last.check_invariants().is_ok());
}

fn invalid_frame(data: &[u8]) -> String {
    match parse_frame(data) {
        Err(LivoxError::InvalidFrame(msg)) => msg,
        other => panic!("expected an invalid frame, got {:?}", other),
    }
}

#[test]
fn frame_with_wrong_version_is_rejected() {
    let mut data = tele15_packet();
    data[0] = 0x0A;
    assert_eq!(invalid_frame(&data), "Not a Livox SDK protocol V1 frame:  A");
    data[0] = 0xAB;
    assert_eq!(invalid_frame(&data), "Not a Livox SDK protocol V1 frame: AB");
    // the version is looked at before the length
    assert_eq!(invalid_frame(&data[..3]), "Not a Livox SDK protocol V1 frame: AB");
}

#[test]
fn frame_of_wrong_length_is_rejected() {
    let data = tele15_packet();
    assert_eq!(invalid_frame(&data[..1361]), "Frame too short: 1361 < 1362");
    assert_eq!(invalid_frame(&[]), "Frame too short: 0 < 1362");
    let mut long = data.to_vec();
    long.push(0);
    assert_eq!(invalid_frame(&long), "Frame too long: 1363 > 1362");
}

#[test]
fn frame_of_wrong_data_type_is_rejected() {
    let mut data = tele15_packet();
    data[9] = 0x03;
    assert_eq!(invalid_frame(&data), "Point Cloud Data Type 2 expected, received :  3");
}

#[test]
fn error_text_names_the_kind() {
    let e = LivoxError::InvalidFrame(String::from("x"));
    assert_eq!(e.message(), "Invalid frame: x");
    let e = LivoxError::InvalidTimestamp(String::from("y"));
    assert_eq!(e.message(), "Invalid timestamp: y");
}

#[test]
fn little_endian_words_are_read() {
    let data = [0x01u8, 0x02, 0x03, 0x04, 0x05, 0x06, 0x07, 0x08, 0xFF, 0xFF, 0xFF, 0xFF];
    assert_eq!(u16_endianness(&data, 0), 0x0201);
    assert_eq!(u32_endianness(&data, 1), 0x0504_0302);
    assert_eq!(u64_endianness(&data, 0), 0x0807_0605_0403_0201);
    assert_eq!(i32_endianness(&data, 8), -1);
    assert_eq!(i32_endianness(&data, 7), -248);
}

#[test]
fn negative_coordinates_are_read() {
    let mut data = tele15_packet();
    data[18..22].copy_from_slice(&(-1500i32).to_le_bytes());
    let packet = parse_frame(&data).unwrap();
    assert_eq!(packet.points[0].x(), -1500);
    assert_eq!(
        packet.points[0].debug_string(),
        "Point: (-1500, 2056, 1451) reflectivity  F tag  10"
    );
}

#[test]
fn headers_are_described() {
    let packet = parse_frame(&tele15_packet()).unwrap();
    assert_eq!(
        packet.header.debug_string(),
        format!(
            "Version:  5 slot_id:  1 lidar_id:  1 Status: {}, ts_type 1, data_type 2, timestamp{}",
            0x4000_6840u32, 0x17F6_12B4_E5AE_068Bu64
        )
    );
    let frame = CommandFrame::from_bytes(&[
        0xAA, 0x01, 0x0F, 0x00, 0x02, 0x07, 0x34, 0x12, 0x09, 0x78, 0x56, 0x34, 0x12,
    ])
    .unwrap();
    assert_eq!(frame.header.length, 15);
    assert_eq!(frame.header.crc_16, 0x1234);
    assert_eq!(frame.date, 9);
    assert_eq!(frame.crc_32, 0x1234_5678);
    assert_eq!(frame.header.debug_string(), "Magic: AA 1Frame: length 15, cmd_type 2");
    assert!(CommandFrame::from_bytes(&[0xAA, 0x01]).is_none());
}

#[test]
fn hex_is_two_wide_and_upper_case() {
    assert_eq!(hex2(0), " 0");
    assert_eq!(hex2(0x0F), " F");
    assert_eq!(hex2(0x10), "10");
    assert_eq!(hex2(0xFF), "FF");
    assert_eq!(hex2(0xAB), format!("{:2X}", 0xABu8));
    assert_eq!(hex2(0x07), format!("{:2X}", 0x07u8));
}

#[test]
fn mock_clock_moves_only_when_told() {
    let mut clock = RobotClockMock::new();
    assert_eq!(clock.now(), CuDuration(0));
    clock.increment(CuDuration(1_000_000_000));
    clock.increment(CuDuration(5));
    assert_eq!(clock.now().as_nanos(), 1_000_000_005);
    let start = clock.now();
    clock.set(CuDuration(3_000_000_000));
    assert_eq!(clock.now(), CuDuration(3_000_000_000));
    assert_eq!(
        clock.now().elapsed_since(start),
        CuDuration(1_999_999_995)
    );
    assert_eq!(clock.now().elapsed_since(clock.now()), CuDuration(0));
}
