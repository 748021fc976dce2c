use mavlink::common::{
    MavAutopilot, MavMessage, MavModeFlag, MavState, MavType, HEARTBEAT_DATA,
    NAMED_VALUE_FLOAT_DATA,
};
use mavlink::{MavHeader, Message};
use metec_sensor::crc::checksum;
use metec_sensor::error::EncodeError;
use metec_sensor::frame::{
    announced_len, compute_frame_crc, encode_frame, locate_marker, Header, CHECKSUM_LEN,
    HEADER_LEN, MARKER, MAX_PAYLOAD, SIGNATURE_LEN, SIGNED_FLAG,
};

const HEARTBEAT_PAYLOAD: [u8; 9] = [0, 0, 0, 0, 18, 8, 0, 3, 3];
const HEARTBEAT_SEED: u8 = 50;

fn header(sequence: u8, system_id: u8, component_id: u8) -> Header {
    Header { sequence, system_id, component_id }
}

fn heartbeat() -> MavMessage {
    MavMessage::HEARTBEAT(HEARTBEAT_DATA {
        custom_mode: 0,
        mavtype: MavType::MAV_TYPE_ONBOARD_CONTROLLER,
        autopilot: MavAutopilot::MAV_AUTOPILOT_INVALID,
        base_mode: MavModeFlag::empty(),
        system_status: MavState::MAV_STATE_STANDBY,
        mavlink_version: 3,
    })
}

fn written_by_catalog_crate(header: MavHeader, message: &MavMessage) -> Vec<u8> {
    let mut out: Vec<u8> = Vec::new();
    mavlink::write_v2_msg(&mut out, header, message).unwrap();
    out
}

#[test]
fn constants_of_the_wire_format() {
    assert_eq!(MARKER, 0xFD);
    assert_eq!(MARKER, mavlink::MAV_STX_V2);
    assert_eq!(HEADER_LEN, 10);
    assert_eq!(CHECKSUM_LEN, 2);
    assert_eq!(SIGNATURE_LEN, 13);
    assert_eq!(MAX_PAYLOAD, 255);
    assert_eq!(SIGNED_FLAG, 0x01);
}

#[test]
fn heartbeat_frame_example() {
    let frame = encode_frame(header(5, 1, 1), 0, &HEARTBEAT_PAYLOAD, HEARTBEAT_SEED).unwrap();
    assert_eq!(
        frame,
        vec![
            0xFD, 0x09, 0x00, 0x00, 0x05, 0x01, 0x01, 0x00, 0x00, 0x00, 0x00, 0x00, 0x00, 0x00,
            0x12, 0x08, 0x00, 0x03, 0x03, 0x61, 0xF8
        ]
    );
    assert_eq!(frame.len(), 21);
    assert_eq!(&frame[..10], &[0xFD, 0x09, 0x00, 0x00, 0x05, 0x01, 0x01, 0x00, 0x00, 0x00]);
    assert_eq!(&frame[10..19], &HEARTBEAT_PAYLOAD);
    let mut covered = frame[1..19].to_vec();
    covered.push(HEARTBEAT_SEED);
    let crc = checksum(&covered);
    assert_eq!(crc, 0xF861);
    assert_eq!(frame[19], (crc & 0xFF) as u8);
    assert_eq!(frame[20], (crc >> 8) as u8);
}

#[test]
fn heartbeat_frame_equals_catalog_crate_output() {
    let ours = encode_frame(header(5, 1, 1), 0, &HEARTBEAT_PAYLOAD, HEARTBEAT_SEED).unwrap();
    let theirs = written_by_catalog_crate(
        MavHeader { sequence: 5, system_id: 1, component_id: 1 },
        &heartbeat(),
    );
    assert_eq!(ours, theirs);
}

#[test]
fn named_value_frame_equals_catalog_crate_output() {
    let message = MavMessage::NAMED_VALUE_FLOAT(NAMED_VALUE_FLOAT_DATA {
        time_boot_ms: 123_456,
        value: 2.14587,
        name: *b"CH4A\0\0\0\0\0\0",
    });
    let mut buffer = [0u8; 255];
    let written = message.ser(mavlink::MavlinkVersion::V2, &mut buffer);
    let id = message.message_id();
    let seed = MavMessage::extra_crc(id);
    assert_eq!(id, 251);
    assert_eq!(seed, 170);
    let ours = encode_frame(header(200, 42, 7), id, &buffer[..written], seed).unwrap();
    let theirs = written_by_catalog_crate(
        MavHeader { sequence: 200, system_id: 42, component_id: 7 },
        &message,
    );
    assert_eq!(ours, theirs);
}

#[test]
fn empty_payload_frame() {
    let frame = encode_frame(header(0, 0, 0), 0x010203, &[], 0).unwrap();
    assert_eq!(frame.len(), 12);
    assert_eq!(&frame[..10], &[0xFD, 0, 0, 0, 0, 0, 0, 0x03, 0x02, 0x01]);
    let crc = checksum(&[0, 0, 0, 0, 0, 0, 0x03, 0x02, 0x01, 0]);
    assert_eq!(frame[10], (crc & 0xFF) as u8);
    assert_eq!(frame[11], (crc >> 8) as u8);
}

#[test]
fn message_id_goes_out_in_three_bytes_little_endian() {
    let frame = encode_frame(header(1, 2, 3), 0x00AB_CDEF, &[1, 2, 3], 0).unwrap();
    assert_eq!(
        frame,
        vec![0xFD, 0x03, 0, 0, 1, 2, 3, 0xEF, 0xCD, 0xAB, 1, 2, 3, 0x6D, 0x24]
    );
}

#[test]
fn message_id_loses_its_top_byte() {
    let wide = encode_frame(header(1, 2, 3), 0x7700_0021, &[1], 9).unwrap();
    let narrow = encode_frame(header(1, 2, 3), 0x0000_0021, &[1], 9).unwrap();
    assert_eq!(wide, narrow);
}

#[test]
fn largest_payload_is_framed() {
    let payload = vec![0xA5u8; 255];
    let frame = encode_frame(header(9, 8, 7), 33, &payload, 104).unwrap();
    assert_eq!(frame.len(), 10 + 255 + 2);
    assert_eq!(frame[1], 255);
    assert_eq!(&frame[10..265], payload.as_slice());
}

#[test]
fn payload_too_large_is_refused() {
    let payload = vec![0u8; 256];
    assert_eq!(
        encode_frame(header(0, 1, 1), 0, &payload, 50),
        Err(EncodeError::PayloadTooLarge)
    );
    let larger = vec![0u8; 1000];
    assert_eq!(
        encode_frame(header(0, 1, 1), 0, &larger, 50),
        Err(EncodeError::PayloadTooLarge)
    );
}

#[test]
fn seed_changes_the_checksum() {
    let a = encode_frame(header(5, 1, 1), 0, &HEARTBEAT_PAYLOAD, 50).unwrap();
    let b = encode_frame(header(5, 1, 1), 0, &HEARTBEAT_PAYLOAD, 51).unwrap();
    assert_eq!(a[..19], b[..19]);
    assert_ne!(a[19..], b[19..]);
}

#[test]
fn compute_frame_crc_is_checksum_with_seed_appended() {
    let covered = [9u8, 0, 0, 5, 1, 1, 0, 0, 0, 0, 0, 0, 0, 18, 8, 0, 3, 3];
    assert_eq!(compute_frame_crc(&covered, 50), 0xF861);
    assert_eq!(compute_frame_crc(&covered, 50), mavlink::calculate_crc(&covered, 50));
    assert_eq!(compute_frame_crc(&[], 7), checksum(&[7]));
}

#[test]
fn locate_marker_finds_the_first() {
    assert_eq!(locate_marker(&[]), 0);
    assert_eq!(locate_marker(&[0xFD]), 0);
    assert_eq!(locate_marker(&[1, 2, 3]), 3);
    assert_eq!(locate_marker(&[1, 2, 0xFD, 4, 0xFD]), 2);
    assert_eq!(locate_marker(&[0xFE, 0xFC, 0xFD]), 2);
}

#[test]
fn announced_len_counts_header_payload_checksum_and_signature() {
    assert_eq!(announced_len(0, 0), 12);
    assert_eq!(announced_len(9, 0), 21);
    assert_eq!(announced_len(255, 0), 267);
    assert_eq!(announced_len(0, 1), 25);
    assert_eq!(announced_len(9, 1), 34);
    assert_eq!(announced_len(255, 1), 280);
    assert_eq!(announced_len(255, 1), mavlink::MAX_FRAME_SIZE);
    // Only bit 0 of the flags announces a signature.
    assert_eq!(announced_len(9, 0xFE), 21);
    assert_eq!(announced_len(9, 0xFF), 34);
}
