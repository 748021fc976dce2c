use mavlink::common::{
    MavAutopilot, MavMessage, MavModeFlag, MavState, MavType, GLOBAL_POSITION_INT_DATA,
    HEARTBEAT_DATA, NAMED_VALUE_FLOAT_DATA,
};
use metec_sensor::codec::Outcome;
use metec_sensor::error::RejectReason;
use metec_sensor::frame::{encode_frame, Header};
use metec_sensor::heartbeat::{
    Heartbeat, HeartbeatTicker, DEFAULT_PERIOD_MS, HEARTBEAT_MAVLINK_VERSION,
    MAV_AUTOPILOT_INVALID, MAV_STATE_STANDBY, MAV_TYPE_ONBOARD_CONTROLLER,
};
use metec_sensor::telem::{NamedValue, Telem, NAME_LEN};

fn expected_heartbeat() -> MavMessage {
    MavMessage::HEARTBEAT(HEARTBEAT_DATA {
        custom_mode: 0,
        mavtype: MavType::MAV_TYPE_ONBOARD_CONTROLLER,
        autopilot: MavAutopilot::MAV_AUTOPILOT_INVALID,
        base_mode: MavModeFlag::empty(),
        system_status: MavState::MAV_STATE_STANDBY,
        mavlink_version: 3,
    })
}

fn position(hdg: u16) -> MavMessage {
    MavMessage::GLOBAL_POSITION_INT(GLOBAL_POSITION_INT_DATA {
        time_boot_ms: 5,
        lat: 1,
        lon: -1,
        alt: 2,
        relative_alt: 3,
        vx: 0,
        vy: 0,
        vz: 0,
        hdg,
    })
}

#[test]
fn heartbeat_has_its_fixed_fields() {
    assert_eq!(
        Heartbeat::onboard(),
        Heartbeat {
            custom_mode: 0,
            mavtype: 18,
            autopilot: 8,
            base_mode: 0,
            system_status: 3,
            mavlink_version: 3,
        }
    );
    assert_eq!(MAV_TYPE_ONBOARD_CONTROLLER, 18);
    assert_eq!(MAV_AUTOPILOT_INVALID, 8);
    assert_eq!(MAV_STATE_STANDBY, 3);
    assert_eq!(HEARTBEAT_MAVLINK_VERSION, 3);
}

#[test]
fn heartbeat_numbers_are_the_catalogs() {
    assert_eq!(MAV_TYPE_ONBOARD_CONTROLLER as u32, MavType::MAV_TYPE_ONBOARD_CONTROLLER as u32);
    assert_eq!(MAV_AUTOPILOT_INVALID as u32, MavAutopilot::MAV_AUTOPILOT_INVALID as u32);
    assert_eq!(MAV_STATE_STANDBY as u32, MavState::MAV_STATE_STANDBY as u32);
    assert_eq!(0, MavModeFlag::empty().bits());
}

#[test]
fn heartbeat_message_is_the_catalogs_heartbeat() {
    let telem = Telem::new(1, 1);
    assert_eq!(telem.heartbeat_message(), Some(expected_heartbeat()));
    assert_eq!(Heartbeat::onboard().to_message(), Some(expected_heartbeat()));
}

#[test]
fn heartbeat_with_other_fields_becomes_a_message() {
    let fields = Heartbeat {
        custom_mode: 0xDEAD_BEEF,
        mavtype: 2,
        autopilot: 3,
        base_mode: 0x81,
        system_status: 4,
        mavlink_version: 3,
    };
    assert_eq!(
        fields.to_message(),
        Some(MavMessage::HEARTBEAT(HEARTBEAT_DATA {
            custom_mode: 0xDEAD_BEEF,
            mavtype: MavType::MAV_TYPE_QUADROTOR,
            autopilot: MavAutopilot::MAV_AUTOPILOT_ARDUPILOTMEGA,
            base_mode: MavModeFlag::MAV_MODE_FLAG_SAFETY_ARMED
                | MavModeFlag::MAV_MODE_FLAG_CUSTOM_MODE_ENABLED,
            system_status: MavState::MAV_STATE_ACTIVE,
            mavlink_version: 3,
        }))
    );
}

#[test]
fn heartbeat_with_numbers_unknown_to_the_catalog_has_no_message() {
    let good = Heartbeat::onboard();
    assert_eq!(Heartbeat { mavtype: 250, ..good }.to_message(), None);
    assert_eq!(Heartbeat { autopilot: 250, ..good }.to_message(), None);
    assert_eq!(Heartbeat { system_status: 250, ..good }.to_message(), None);
}

#[test]
fn heartbeat_survives_the_wire() {
    let mut sender = Telem::new(1, 1);
    let message = sender.heartbeat_message().unwrap();
    let frame = sender.send(&message).unwrap();
    let mut receiver = Telem::new(255, 0);
    receiver.feed(&frame);
    match receiver.recv() {
        Some((header, MavMessage::HEARTBEAT(data))) => {
            assert_eq!(header, Header { sequence: 0, system_id: 1, component_id: 1 });
            assert_eq!(data.mavtype, MavType::MAV_TYPE_ONBOARD_CONTROLLER);
            assert_eq!(data.autopilot, MavAutopilot::MAV_AUTOPILOT_INVALID);
            assert_eq!(data.base_mode, MavModeFlag::empty());
            assert_eq!(data.system_status, MavState::MAV_STATE_STANDBY);
            assert_eq!(data.mavlink_version, 3);
            assert_eq!(data.custom_mode, 0);
        }
        other => panic!("unexpected: {:?}", other),
    }
    assert_eq!(receiver.recv(), None);
}

#[test]
fn heartbeat_frame_example_from_a_session() {
    let mut telem = Telem::new(1, 1);
    let message = telem.heartbeat_message().unwrap();
    for _ in 0..5 {
        telem.send(&message).unwrap();
    }
    let frame = telem.send(&message).unwrap();
    assert_eq!(
        frame,
        vec![
            0xFD, 0x09, 0x00, 0x00, 0x05, 0x01, 0x01, 0x00, 0x00, 0x00, 0x00, 0x00, 0x00, 0x00,
            0x12, 0x08, 0x00, 0x03, 0x03, 0x61, 0xF8
        ]
    );
}

#[test]
fn sequence_numbers_count_up_and_wrap() {
    let mut telem = Telem::new(42, 7);
    let message = position(0);
    for n in 0..600u32 {
        let frame = telem.send(&message).unwrap();
        assert_eq!(frame[4], (n % 256) as u8);
        assert_eq!(frame[5], 42);
        assert_eq!(frame[6], 7);
    }
}

#[test]
fn sequence_numbers_do_not_repeat_before_wraparound() {
    let mut telem = Telem::new(1, 1);
    let message = position(0);
    let mut seen = [false; 256];
    for _ in 0..256 {
        let frame = telem.send(&message).unwrap();
        assert!(!seen[frame[4] as usize]);
        seen[frame[4] as usize] = true;
    }
    assert!(seen.iter().all(|s| *s));
    assert_eq!(telem.send(&message).unwrap()[4], 0);
}

#[test]
fn sessions_count_independently() {
    let mut a = Telem::new(1, 1);
    let mut b = Telem::new(2, 2);
    let message = position(0);
    assert_eq!(a.send(&message).unwrap()[4], 0);
    assert_eq!(a.send(&message).unwrap()[4], 1);
    assert_eq!(b.send(&message).unwrap()[4], 0);
    assert_eq!(a.send(&message).unwrap()[4], 2);
}

#[test]
fn recv_keeps_the_sequence_of_the_sender() {
    let mut sender = Telem::new(9, 8);
    let mut receiver = Telem::new(1, 1);
    for n in 0..300u32 {
        let frame = sender.send(&position(n as u16)).unwrap();
        receiver.feed(&frame);
        assert_eq!(
            receiver.recv(),
            Some((
                Header { sequence: (n % 256) as u8, system_id: 9, component_id: 8 },
                position(n as u16)
            ))
        );
    }
    // The receiver has sent nothing: its own sequence is untouched.
    assert_eq!(receiver.send(&position(0)).unwrap()[4], 0);
}

#[test]
fn recv_needs_the_whole_frame() {
    let mut sender = Telem::new(1, 1);
    let frame = sender.send(&position(7)).unwrap();
    let mut receiver = Telem::new(2, 2);
    assert_eq!(receiver.recv(), None);
    for byte in &frame[..frame.len() - 1] {
        receiver.feed(&[*byte]);
        assert_eq!(receiver.recv(), None);
    }
    receiver.feed(&frame[frame.len() - 1..]);
    assert_eq!(
        receiver.recv(),
        Some((Header { sequence: 0, system_id: 1, component_id: 1 }, position(7)))
    );
    assert_eq!(receiver.recv(), None);
}

#[test]
fn recv_drops_rejected_frames() {
    let mut sender = Telem::new(1, 1);
    let mut damaged = sender.send(&position(1)).unwrap();
    damaged[11] ^= 0x04;
    let unknown = encode_frame(
        Header { sequence: 0, system_id: 1, component_id: 1 },
        0x00AB_CDEF,
        &[1, 2, 3],
        0,
    )
    .unwrap();
    let good = sender.send(&position(2)).unwrap();
    let later = sender.send(&position(3)).unwrap();
    let mut receiver = Telem::new(2, 2);
    receiver.feed(&damaged);
    receiver.feed(&unknown);
    receiver.feed(&good);
    receiver.feed(&later);
    assert_eq!(
        receiver.recv(),
        Some((Header { sequence: 1, system_id: 1, component_id: 1 }, position(2)))
    );
    assert_eq!(
        receiver.recv(),
        Some((Header { sequence: 2, system_id: 1, component_id: 1 }, position(3)))
    );
    assert_eq!(receiver.recv(), None);
}

#[test]
fn recv_on_noise_reports_nothing() {
    let mut receiver = Telem::new(2, 2);
    receiver.feed(&[0, 1, 2, 3, 4, 5, 6, 7, 8, 9, 10, 11, 12, 13, 14, 15]);
    assert_eq!(receiver.recv(), None);
}

#[test]
fn named_value_pads_short_names() {
    let telem = Telem::new(1, 1);
    assert_eq!(
        telem.named_value("CH4A", 1_500),
        NamedValue { time_boot_ms: 1_500, name: *b"CH4A\0\0\0\0\0\0" }
    );
    assert_eq!(NAME_LEN, 10);
}

#[test]
fn named_value_cuts_long_names() {
    let telem = Telem::new(1, 1);
    assert_eq!(
        telem.named_value("C2H6sensorB", 0),
        NamedValue { time_boot_ms: 0, name: *b"C2H6sensor" }
    );
}

#[test]
fn named_value_time_wraps_at_32_bits() {
    let telem = Telem::new(1, 1);
    assert_eq!(telem.named_value("x", 0xFFFF_FFFF).time_boot_ms, 0xFFFF_FFFF);
    assert_eq!(telem.named_value("x", 0x1_0000_0000).time_boot_ms, 0);
    assert_eq!(telem.named_value("x", 0x1_0000_0007).time_boot_ms, 7);
    assert_eq!(telem.named_value("x", u128::MAX).time_boot_ms, 0xFFFF_FFFF);
}

#[test]
fn named_value_survives_the_wire() {
    let mut sender = Telem::new(3, 4);
    let fields = sender.named_value("C2H6sensorB", 86_400_123);
    let message = MavMessage::NAMED_VALUE_FLOAT(NAMED_VALUE_FLOAT_DATA {
        time_boot_ms: fields.time_boot_ms,
        value: 8.58853,
        name: fields.name,
    });
    let frame = sender.send(&message).unwrap();
    let mut receiver = Telem::new(1, 1);
    receiver.feed(&frame);
    match receiver.recv() {
        Some((header, MavMessage::NAMED_VALUE_FLOAT(data))) => {
            assert_eq!(header, Header { sequence: 0, system_id: 3, component_id: 4 });
            assert_eq!(data.time_boot_ms, 86_400_123);
            assert_eq!(data.value, 8.58853);
            assert_eq!(&data.name, b"C2H6sensor");
        }
        other => panic!("unexpected: {:?}", other),
    }
}

#[test]
fn ticker_first_fires_after_one_full_period() {
    let mut ticker = HeartbeatTicker::new(10_000, DEFAULT_PERIOD_MS);
    assert_eq!(DEFAULT_PERIOD_MS, 1000);
    assert!(!ticker.tick(10_000));
    assert!(!ticker.tick(10_500));
    assert!(!ticker.tick(10_999));
    assert!(ticker.tick(11_000));
    assert!(!ticker.tick(11_000));
    assert!(!ticker.tick(11_999));
    assert!(ticker.tick(12_000));
}

#[test]
fn ticker_keeps_to_its_grid_when_polled_late() {
    let mut ticker = HeartbeatTicker::new(0, 1000);
    assert!(ticker.tick(1_250));
    assert!(!ticker.tick(1_999));
    assert!(ticker.tick(2_000));
}

#[test]
fn ticker_coalesces_missed_periods() {
    let mut ticker = HeartbeatTicker::new(0, 1000);
    // Five periods went by: one trigger, no backlog.
    assert!(ticker.tick(5_300));
    assert!(!ticker.tick(5_301));
    assert!(!ticker.tick(5_999));
    assert!(ticker.tick(6_000));
    assert!(!ticker.tick(6_000));
}

#[test]
fn ticker_with_period_of_one_millisecond() {
    let mut ticker = HeartbeatTicker::new(0, 1);
    assert!(!ticker.tick(0));
    assert!(ticker.tick(1));
    assert!(!ticker.tick(1));
    assert!(ticker.tick(2));
    assert!(ticker.tick(100));
    assert!(!ticker.tick(100));
    assert!(ticker.tick(101));
}

#[test]
fn ticker_at_the_end_of_time() {
    let mut ticker = HeartbeatTicker::new(u64::MAX - 10, 1000);
    assert!(!ticker.tick(u64::MAX - 1));
    assert!(ticker.tick(u64::MAX));
    assert!(ticker.tick(u64::MAX));
}

#[test]
fn recv_outcome_shows_rejections() {
    let mut sender = Telem::new(1, 1);
    let mut damaged = sender.send(&position(1)).unwrap();
    damaged[11] ^= 0x04;
    assert!(!damaged[1..].contains(&0xFD));
    let good = sender.send(&position(2)).unwrap();
    let mut receiver = Telem::new(2, 2);
    assert_eq!(receiver.recv_outcome(), None);
    receiver.feed(&damaged);
    receiver.feed(&good);
    assert_eq!(
        receiver.recv_outcome(),
        Some(Outcome::Rejected(RejectReason::ChecksumMismatch))
    );
    assert_eq!(
        receiver.recv_outcome(),
        Some(Outcome::Accepted(
            Header { sequence: 1, system_id: 1, component_id: 1 },
            position(2)
        ))
    );
    assert_eq!(receiver.recv_outcome(), None);
}
