use waveshare_scservo::frame::FrameReader;
use waveshare_scservo::registers::sts_device::{PROTECTION_CURRENT, TARGET_POSITION_READBACK};
use waveshare_scservo::{
    ProtocolError, ScsclBus, ScsclMotorCommand, ScsclPositionMove, SerialLink, ServoMode,
    SmsPositionMove, SmsSpeedCommand, SmsStsBus, SmsStsOperatingMode, SmsTorqueLimitCommand,
    SyncWriteData, TorqueMode, TorqueModeCommand,
};

struct MockInterface<I> {
    #[allow(dead_code)]
    inner: I,
}

impl<I> SerialLink for MockInterface<I> {
    type Error = embedded_io::ErrorKind;

    fn write_all(&mut self, _data: &[u8]) -> Result<(), Self::Error> {
        Ok(())
    }

    fn flush(&mut self) -> Result<(), Self::Error> {
        Ok(())
    }

    fn receive(&mut self, _reader: &mut FrameReader) -> Result<(), Self::Error> {
        Ok(())
    }
}

struct ScriptedInterface {
    rx: Vec<u8>,
    tx: Vec<u8>,
}

impl SerialLink for ScriptedInterface {
    type Error = embedded_io::ErrorKind;

    fn write_all(&mut self, data: &[u8]) -> Result<(), Self::Error> {
        self.tx.extend_from_slice(data);
        Ok(())
    }

    fn flush(&mut self) -> Result<(), Self::Error> {
        Ok(())
    }

    fn receive(&mut self, reader: &mut FrameReader) -> Result<(), Self::Error> {
        while !reader.is_complete() && !self.rx.is_empty() {
            let byte = self.rx.remove(0);
            reader.feed(byte);
        }
        Ok(())
    }
}

/// `0xFF 0xFF id length code params checksum`.
fn frame(id: u8, code: u8, params: &[u8]) -> Vec<u8> {
    let length = params.len() as u8 + 2;
    let mut sum = u32::from(id) + u32::from(length) + u32::from(code);
    for &p in params {
        sum += u32::from(p);
    }
    let mut out = vec![0xFF, 0xFF, id, length, code];
    out.extend_from_slice(params);
    out.push(!(sum as u8));
    out
}

fn write_request(id: u8, address: u8, data: &[u8]) -> Vec<u8> {
    let mut params = vec![address];
    params.extend_from_slice(data);
    frame(id, 0x03, &params)
}

fn read_request(id: u8, address: u8, len: u8) -> Vec<u8> {
    frame(id, 0x02, &[address, len])
}

fn ok(id: u8) -> Vec<u8> {
    frame(id, 0, &[])
}

fn replies(parts: &[Vec<u8>]) -> Vec<u8> {
    parts.concat()
}

fn scscl(rx: Vec<u8>) -> ScsclBus<ScriptedInterface> {
    ScsclBus::new(ScriptedInterface { rx, tx: Vec::new() })
}

fn sms(rx: Vec<u8>) -> SmsStsBus<ScriptedInterface> {
    SmsStsBus::new(ScriptedInterface { rx, tx: Vec::new() })
}

fn scscl_tx(bus: &mut ScsclBus<ScriptedInterface>) -> Vec<u8> {
    bus.inner_mut().interface.transport().tx.clone()
}

fn sms_tx(bus: &mut SmsStsBus<ScriptedInterface>) -> Vec<u8> {
    bus.inner_mut().interface.transport().tx.clone()
}

#[test]
fn test_scscl_bus_creation() {
    let _bus = ScsclBus::new(MockInterface { inner: () });
}

#[test]
fn test_sms_sts_bus_creation() {
    let _bus = SmsStsBus::new(MockInterface { inner: () });
}

#[test]
fn scscl_position_is_big_endian_and_bounded() {
    let mut bus = scscl(ok(1));
    bus.blocking_write_position(1, 512).unwrap();
    assert_eq!(scscl_tx(&mut bus), write_request(1, 0x2A, &[0x02, 0x00]));

    let mut bus = scscl(Vec::new());
    assert!(matches!(
        bus.blocking_write_position(1, 1024),
        Err(ProtocolError::InvalidSetting)
    ));
    assert!(scscl_tx(&mut bus).is_empty());
    assert_eq!(bus.inner_mut().interface.busid(), None);
}

#[test]
fn scscl_reads_decode_big_endian_words() {
    let mut bus = scscl(replies(&[
        frame(1, 0, &[0x02, 0x00]),
        frame(1, 0, &[0x80, 0x64]),
        frame(1, 0, &[0x04, 0x64]),
        frame(1, 0, &[0x80, 0x0A]),
    ]));
    assert_eq!(bus.blocking_read_position(1).unwrap(), 512);
    assert_eq!(bus.blocking_read_speed(1).unwrap(), -100);
    assert_eq!(bus.blocking_read_load(1).unwrap(), -100);
    assert_eq!(bus.blocking_read_current(1).unwrap(), -10);
    assert_eq!(
        scscl_tx(&mut bus),
        replies(&[
            read_request(1, 0x38, 2),
            read_request(1, 0x3A, 2),
            read_request(1, 0x3C, 2),
            read_request(1, 0x45, 2),
        ])
    );
}

#[test]
fn scscl_angle_limits_unlock_write_and_lock() {
    let mut bus = scscl(replies(&[ok(1), ok(1), ok(1), ok(1)]));
    bus.blocking_set_angle_limits(1, 10, 1000).unwrap();
    assert_eq!(
        scscl_tx(&mut bus),
        replies(&[
            write_request(1, 0x30, &[0]),
            write_request(1, 0x09, &[0x00, 0x0A]),
            write_request(1, 0x0B, &[0x03, 0xE8]),
            write_request(1, 0x30, &[1]),
        ])
    );

    let mut bus = scscl(Vec::new());
    assert!(matches!(
        bus.blocking_set_angle_limits(1, 500, 500),
        Err(ProtocolError::InvalidSetting)
    ));
    assert!(matches!(
        bus.blocking_set_angle_limits(1, 0, 1024),
        Err(ProtocolError::InvalidSetting)
    ));
    assert!(scscl_tx(&mut bus).is_empty());
}

#[test]
fn eeprom_is_locked_again_after_a_failed_write() {
    let mut bus = scscl(replies(&[ok(1), frame(1, 0x08, &[]), ok(1)]));
    assert!(matches!(
        bus.blocking_set_max_temperature_limit(1, 70),
        Err(ProtocolError::ServoError(0x08))
    ));
    assert_eq!(
        scscl_tx(&mut bus),
        replies(&[
            write_request(1, 0x30, &[0]),
            write_request(1, 0x0D, &[70]),
            write_request(1, 0x30, &[1]),
        ])
    );
}

#[test]
fn eeprom_lock_failure_is_reported_after_a_good_write() {
    let mut bus = scscl(replies(&[ok(1), ok(1), frame(1, 0x01, &[])]));
    assert!(matches!(
        bus.blocking_set_max_torque(1, 800),
        Err(ProtocolError::ServoError(0x01))
    ));
}

#[test]
fn failed_unlock_sends_nothing_more() {
    let mut bus = scscl(frame(1, 0x04, &[]));
    assert!(matches!(
        bus.blocking_set_voltage_limits(1, 60, 120),
        Err(ProtocolError::ServoError(0x04))
    ));
    assert_eq!(scscl_tx(&mut bus), write_request(1, 0x30, &[0]));
}

#[test]
fn set_id_locks_at_the_new_id() {
    let mut bus = scscl(replies(&[ok(1), ok(1), ok(7)]));
    bus.blocking_set_id(1, 7).unwrap();
    assert_eq!(
        scscl_tx(&mut bus),
        replies(&[
            write_request(1, 0x30, &[0]),
            write_request(1, 0x05, &[7]),
            write_request(7, 0x30, &[1]),
        ])
    );
    let mut bus = scscl(Vec::new());
    assert!(matches!(bus.blocking_set_id(1, 0xFE), Err(ProtocolError::InvalidId)));
    assert!(scscl_tx(&mut bus).is_empty());
}

#[test]
fn scscl_mode_follows_the_angle_limits() {
    let mut bus = scscl(replies(&[
        frame(1, 0, &[0, 0]),
        frame(1, 0, &[0, 0]),
        frame(1, 0, &[0, 0]),
        frame(1, 0, &[0x03, 0xFF]),
    ]));
    assert_eq!(bus.blocking_read_mode(1).unwrap(), ServoMode::Wheel);
    assert_eq!(bus.blocking_read_mode(1).unwrap(), ServoMode::Position);

    let mut bus = scscl(replies(&[ok(1), ok(1), ok(1), ok(1)]));
    bus.blocking_set_operating_mode(1, ServoMode::Position).unwrap();
    assert_eq!(
        scscl_tx(&mut bus),
        replies(&[
            write_request(1, 0x30, &[0]),
            write_request(1, 0x09, &[0, 0]),
            write_request(1, 0x0B, &[0x03, 0xFF]),
            write_request(1, 0x30, &[1]),
        ])
    );
}

#[test]
fn scscl_motor_output_goes_to_goal_time() {
    let mut bus = scscl(ok(2));
    bus.blocking_write_motor(2, -100).unwrap();
    assert_eq!(scscl_tx(&mut bus), write_request(2, 0x2C, &[0x04, 0x64]));
    assert!(matches!(
        bus.blocking_write_motor(2, 1024),
        Err(ProtocolError::InvalidSetting)
    ));
}

#[test]
fn scscl_pid_has_no_integral_term() {
    let mut bus = scscl(Vec::new());
    assert!(matches!(
        bus.blocking_set_pid_coefficients(1, 10, 10, 1),
        Err(ProtocolError::InvalidSetting)
    ));
    let mut bus = scscl(replies(&[ok(1), ok(1), ok(1), ok(1)]));
    bus.blocking_set_pid_coefficients(1, 32, 16, 0).unwrap();
    assert_eq!(
        scscl_tx(&mut bus),
        replies(&[
            write_request(1, 0x30, &[0]),
            write_request(1, 0x15, &[32]),
            write_request(1, 0x16, &[16]),
            write_request(1, 0x30, &[1]),
        ])
    );
}

#[test]
fn scscl_status_and_version() {
    let mut bus = scscl(replies(&[
        frame(1, 0, &[0b0010_0101]),
        frame(1, 0, &[3]),
        frame(1, 0, &[10]),
        frame(1, 0, &[5]),
        frame(1, 0, &[1]),
    ]));
    let status = bus.blocking_read_status(1).unwrap();
    assert!(status.voltage_error && status.temperature_error && status.overload_error);
    assert!(!status.magnetic_error && !status.current_error);
    let version = bus.blocking_read_version(1).unwrap();
    assert_eq!(
        (version.firmware_major, version.firmware_minor, version.servo_major, version.servo_minor),
        (3, 10, 5, 1)
    );
}

#[test]
fn scscl_state_read_covers_six_registers() {
    let mut bus = scscl(replies(&[
        frame(1, 0, &[0x01, 0x00]),
        frame(1, 0, &[0x00, 0x20]),
        frame(1, 0, &[0x04, 0x0A]),
        frame(1, 0, &[120]),
        frame(1, 0, &[35]),
        frame(1, 0, &[1]),
    ]));
    let state = bus.blocking_read_state(1).unwrap();
    assert_eq!(state.position(), 256);
    assert_eq!(state.speed(), 32);
    assert_eq!(state.load_raw, -10);
    assert_eq!(state.voltage_raw, 120);
    assert_eq!(state.temperature(), 35);
    assert_eq!(state.current_raw, None);
    assert!(state.moving);
}

#[test]
fn scscl_sync_writes_pack_entries() {
    let mut bus = scscl(Vec::new());
    let moves = [
        ScsclPositionMove { id: 1, position: 512, time: 0, speed: 1000 },
        ScsclPositionMove { id: 2, position: 100, time: 5, speed: 0 },
    ];
    bus.blocking_sync_write_position(&moves).unwrap();
    let motors = [ScsclMotorCommand { id: 3, output: -5 }];
    bus.blocking_sync_write_motor(&motors).unwrap();
    let torques = [TorqueModeCommand { id: 4, mode: TorqueMode::Enable }];
    bus.blocking_sync_write_torque_mode(&torques).unwrap();
    let raw = [SyncWriteData { id: 5, data: [9u8, 8] }];
    bus.blocking_sync_write(0x2E, &raw).unwrap();
    assert_eq!(
        scscl_tx(&mut bus),
        replies(&[
            frame(0xFE, 0x83, &[0x2A, 6, 1, 0x02, 0x00, 0, 0, 0x03, 0xE8, 2, 0, 100, 0, 5, 0, 0]),
            frame(0xFE, 0x83, &[0x2C, 2, 3, 0x04, 0x05]),
            frame(0xFE, 0x83, &[0x28, 1, 4, 1]),
            frame(0xFE, 0x83, &[0x2E, 2, 5, 9, 8]),
        ])
    );

    let bad = [ScsclPositionMove { id: 1, position: 2000, time: 0, speed: 0 }];
    assert!(matches!(
        bus.blocking_sync_write_position(&bad),
        Err(ProtocolError::InvalidSetting)
    ));
    let empty: [SyncWriteData<300>; 0] = [];
    assert!(matches!(
        bus.blocking_sync_write(0x2E, &empty),
        Err(ProtocolError::InvalidLength)
    ));
}

#[test]
fn scscl_reg_write_then_action() {
    let mut bus = scscl(replies(&[ok(1), ok(1)]));
    bus.blocking_reg_write_position(1, 300, 20, 50).unwrap();
    bus.blocking_action(1).unwrap();
    assert_eq!(
        scscl_tx(&mut bus),
        replies(&[
            frame(1, 0x04, &[0x2A, 0x01, 0x2C, 0, 20, 0, 50]),
            frame(1, 0x05, &[]),
        ])
    );
    assert!(matches!(
        bus.blocking_reg_write_position(1, 1024, 0, 0),
        Err(ProtocolError::InvalidSetting)
    ));
}

#[test]
fn scscl_sync_read_state_decodes_each_chunk() {
    let mut bus = scscl(replies(&[
        frame(1, 0, &[0x01, 0x00, 0x80, 0x05, 0x04, 0x01, 70, 30]),
        frame(2, 0, &[0x00, 0x10, 0x00, 0x00, 0x00, 0x02, 71, 31]),
    ]));
    let states = bus.blocking_sync_read_state(&[1, 2]).unwrap();
    assert_eq!(states[0].id, 1);
    assert_eq!(states[0].position(), 256);
    assert_eq!(states[0].speed(), -5);
    assert_eq!(states[0].load_raw, -1);
    assert_eq!(states[1].position_raw, 16);
    assert_eq!(states[1].temperature(), 31);

    let mut bus = scscl(Vec::new());
    assert!(matches!(
        bus.blocking_sync_read_state(&[1u8; 33]),
        Err(ProtocolError::InvalidLength)
    ));
    assert!(scscl_tx(&mut bus).is_empty());
}

#[test]
fn scscl_ping_refuses_broadcast() {
    let mut bus = scscl(ok(1));
    bus.blocking_ping(1).unwrap();
    assert!(matches!(bus.blocking_ping(0xFE), Err(ProtocolError::InvalidId)));
}

#[test]
fn sms_position_is_signed_little_endian() {
    let mut bus = sms(replies(&[ok(1), frame(1, 0, &[0x7B, 0x80])]));
    bus.blocking_write_position(1, -123).unwrap();
    assert_eq!(bus.blocking_read_position(1).unwrap(), -123);
    assert_eq!(
        sms_tx(&mut bus),
        replies(&[write_request(1, 0x2A, &[0x7B, 0x80]), read_request(1, 0x38, 2)])
    );
    assert!(matches!(
        bus.blocking_write_position(1, i16::MIN),
        Err(ProtocolError::InvalidSetting)
    ));
}

#[test]
fn sms_eeprom_uses_its_own_lock_register() {
    let mut bus = sms(replies(&[ok(1), ok(1), ok(1), ok(1), ok(1)]));
    bus.blocking_set_pid_coefficients(1, 32, 16, 4).unwrap();
    assert_eq!(
        sms_tx(&mut bus),
        replies(&[
            write_request(1, 0x37, &[0]),
            write_request(1, 0x15, &[32]),
            write_request(1, 0x16, &[16]),
            write_request(1, 0x17, &[4]),
            write_request(1, 0x37, &[1]),
        ])
    );
    assert!(matches!(
        bus.blocking_set_pid_coefficients(1, 32, 16, 255),
        Err(ProtocolError::InvalidSetting)
    ));
}

#[test]
fn sms_operating_modes() {
    let mut bus = sms(replies(&[
        frame(1, 0, &[1]),
        frame(1, 0, &[2]),
        frame(1, 0, &[9]),
    ]));
    assert_eq!(bus.blocking_read_mode(1).unwrap(), ServoMode::Wheel);
    assert!(matches!(bus.blocking_read_mode(1), Err(ProtocolError::InvalidSetting)));
    assert!(matches!(
        bus.blocking_read_operating_mode(1),
        Err(ProtocolError::InvalidSetting)
    ));

    let mut bus = sms(replies(&[ok(1), ok(1), ok(1)]));
    bus.blocking_set_sms_sts_operating_mode(1, SmsStsOperatingMode::Step).unwrap();
    assert_eq!(
        sms_tx(&mut bus),
        replies(&[
            write_request(1, 0x37, &[0]),
            write_request(1, 0x21, &[3]),
            write_request(1, 0x37, &[1]),
        ])
    );
    let mut bus = sms(replies(&[ok(1), ok(1), ok(1)]));
    bus.blocking_set_operating_mode(1, ServoMode::Wheel).unwrap();
    assert_eq!(
        sms_tx(&mut bus),
        replies(&[
            write_request(1, 0x37, &[0]),
            write_request(1, 0x21, &[1]),
            write_request(1, 0x37, &[1]),
        ])
    );
}

#[test]
fn sms_offset_and_calibration() {
    let mut bus = sms(replies(&[frame(1, 0, &[0x02, 0x18]), frame(1, 0, &[0x00, 0x20])]));
    assert_eq!(bus.blocking_read_offset(1).unwrap(), -2050);
    assert!(matches!(bus.blocking_read_offset(1), Err(ProtocolError::InvalidSetting)));

    let mut bus = sms(replies(&[ok(1), ok(1), ok(1), ok(1)]));
    bus.blocking_set_offset(1, -5).unwrap();
    bus.blocking_calibrate(1).unwrap();
    assert_eq!(
        sms_tx(&mut bus),
        replies(&[
            write_request(1, 0x37, &[0]),
            write_request(1, 0x1F, &[0x05, 0x08]),
            write_request(1, 0x37, &[1]),
            write_request(1, 0x28, &[128]),
        ])
    );
    assert!(matches!(
        bus.blocking_set_offset(1, 5000),
        Err(ProtocolError::InvalidSetting)
    ));
    assert_eq!(bus.inner_mut().interface.busid(), None);
}

#[test]
fn sms_status_reports_magnetic_and_current_faults() {
    let mut bus = sms(frame(1, 0, &[0b0000_1010]));
    let status = bus.blocking_read_status(1).unwrap();
    assert!(status.magnetic_error && status.current_error);
    assert!(!status.voltage_error && !status.temperature_error && !status.overload_error);
}

#[test]
fn sms_state_read_includes_current() {
    let mut bus = sms(replies(&[
        frame(1, 0, &[0x10, 0x80]),
        frame(1, 0, &[0x20, 0x00]),
        frame(1, 0, &[0x05, 0x04]),
        frame(1, 0, &[121]),
        frame(1, 0, &[36]),
        frame(1, 0, &[0]),
        frame(1, 0, &[0x64, 0x00]),
    ]));
    let state = bus.blocking_read_state(1).unwrap();
    assert_eq!(state.position(), -16);
    assert_eq!(state.speed(), 32);
    assert_eq!(state.load_raw, -5);
    assert_eq!(state.current_raw, Some(100));
    assert!(!state.moving);
    assert_eq!(
        sms_tx(&mut bus)[sms_tx(&mut bus).len() - 8..],
        read_request(1, 0x45, 2)[..]
    );
}

#[test]
fn sms_sync_writes_pack_entries() {
    let mut bus = sms(Vec::new());
    let moves = [SmsPositionMove { id: 1, position: -2, time: 99, speed: 300 }];
    bus.blocking_sync_write_position(&moves).unwrap();
    let speeds = [SmsSpeedCommand { id: 2, speed: 500, acceleration: 20 }];
    bus.blocking_sync_write_speed(&speeds).unwrap();
    let limits = [SmsTorqueLimitCommand { id: 3, limit: 1000 }];
    bus.blocking_sync_write_torque_limit(&limits).unwrap();
    let raw = [SyncWriteData { id: 4, data: [1u8] }];
    bus.blocking_sync_write_raw(0x28, &raw).unwrap();
    assert_eq!(
        sms_tx(&mut bus),
        replies(&[
            frame(0xFE, 0x83, &[0x2A, 6, 1, 0x02, 0x80, 0, 0, 0x2C, 0x01]),
            frame(0xFE, 0x83, &[0x29, 7, 2, 20, 0, 0, 0, 0, 0xF4, 0x01]),
            frame(0xFE, 0x83, &[0x30, 2, 3, 0xE8, 0x03]),
            frame(0xFE, 0x83, &[0x28, 1, 4, 1]),
        ])
    );
    let bad = [SmsTorqueLimitCommand { id: 3, limit: 1001 }];
    assert!(matches!(
        bus.blocking_sync_write_torque_limit(&bad),
        Err(ProtocolError::InvalidSetting)
    ));
}

#[test]
fn sms_sync_read_state_decodes_signed_positions() {
    let mut bus = sms(frame(1, 0, &[0x05, 0x80, 0x0A, 0x00, 0x00, 0x00, 75, 40]));
    let states = bus.blocking_sync_read_state(&[1]).unwrap();
    assert_eq!(states[0].position(), -5);
    assert_eq!(states[0].speed(), 10);
    assert_eq!(states[0].voltage_raw, 75);
    assert_eq!(
        sms_tx(&mut bus),
        frame(0xFE, 0x82, &[0x38, 8, 1])
    );
}

#[test]
fn response_level_zero_sends_writes_without_waiting() {
    let mut bus = sms(Vec::new());
    bus.set_response_status_level(false);
    bus.blocking_set_torque_mode(1, TorqueMode::Free).unwrap();
    assert_eq!(sms_tx(&mut bus), write_request(1, 0x28, &[2]));
}

#[test]
fn scscl_mode_set_then_read_back() {
    for (mode, max) in [(ServoMode::Wheel, [0u8, 0]), (ServoMode::Position, [0x03, 0xFF])] {
        let mut bus = scscl(replies(&[
            ok(1),
            ok(1),
            ok(1),
            ok(1),
            frame(1, 0, &[0, 0]),
            frame(1, 0, &max),
        ]));
        bus.blocking_set_operating_mode(1, mode).unwrap();
        assert_eq!(bus.blocking_read_mode(1).unwrap(), mode);
    }
}

#[test]
fn sms_mode_set_then_read_back() {
    for (mode, raw) in [(ServoMode::Wheel, 1u8), (ServoMode::Position, 0)] {
        let mut bus = sms(replies(&[ok(1), ok(1), ok(1), frame(1, 0, &[raw])]));
        bus.blocking_set_operating_mode(1, mode).unwrap();
        assert_eq!(bus.blocking_read_mode(1).unwrap(), mode);
    }
}

#[test]
fn every_register_of_the_map_is_reachable() {
    let mut bus = sms(replies(&[frame(1, 0, &[0x34, 0x12]), ok(1)]));
    let uart = &mut bus.inner_mut().interface;
    uart.set_busid(1);
    let mut data = [0u8; 2];
    uart.read_register(TARGET_POSITION_READBACK, &mut data).unwrap();
    assert_eq!(data, [0x34, 0x12]);
    uart.write_register(PROTECTION_CURRENT, &[0xF4, 0x01]).unwrap();
    assert_eq!(
        uart.transport().tx,
        replies(&[read_request(1, 0x43, 2), write_request(1, 0x1C, &[0xF4, 0x01])])
    );
}
