use waveshare_scservo::registers::sts_device::OperatingMode;
use waveshare_scservo::sms_sts::{
    decode_offset, decode_signed_position, encode_offset, encode_position_payload,
    encode_signed_position, encode_signed_speed, fill_sync_position_ex_payload,
    fill_sync_position_payload, fill_sync_speed_payload, fill_sync_torque_limit_payload,
    from_register_operating_mode, to_register_operating_mode,
};
use waveshare_scservo::{
    decode_current, decode_load, decode_speed, encode_signed_pwm, BaudRate, ProtocolError,
    SmsPositionMove, SmsPositionMoveEx, SmsSpeedCommand, SmsStsOperatingMode,
    SmsTorqueLimitCommand, TorqueMode,
};

#[test]
fn test_decode_speed() {
    assert_eq!(decode_speed(100), 100);
    assert_eq!(decode_speed(0x8064), -100);
    assert_eq!(decode_speed(0), 0);
}

#[test]
fn test_decode_load() {
    assert_eq!(decode_load(100), 100);
    assert_eq!(decode_load(0x0464), -100);
    assert_eq!(decode_load(0), 0);
}

#[test]
fn test_decode_current() {
    assert_eq!(decode_current(100), 100);
    assert_eq!(decode_current(0x8064), -100);
    assert_eq!(decode_current(0), 0);
}

#[test]
fn test_encode_pwm() {
    assert_eq!(encode_signed_pwm(100), Some(100));
    assert_eq!(encode_signed_pwm(-100), Some(0x0464));
    assert_eq!(encode_signed_pwm(1023), Some(1023));
    assert_eq!(encode_signed_pwm(-1023), Some(0x07FF));
    assert_eq!(encode_signed_pwm(1024), None);
    assert_eq!(encode_signed_pwm(i16::MIN), None);
}

#[test]
fn test_signed_position_encoding() {
    assert_eq!(encode_signed_position(0), Some(0x0000));
    assert_eq!(encode_signed_position(100), Some(100));
    assert_eq!(encode_signed_position(4095), Some(4095));

    assert_eq!(encode_signed_position(-1), Some(0x8001));
    assert_eq!(encode_signed_position(-100), Some(0x8064));
    assert_eq!(encode_signed_position(-2048), Some(0x8800));
    assert_eq!(encode_signed_position(4095), Some(4095));
    assert_eq!(encode_signed_position(-4095), Some(0x8FFF));
    assert_eq!(encode_signed_position(i16::MAX), Some(32767));
    assert_eq!(encode_signed_position(-32767), Some(0xFFFF));
    assert_eq!(encode_signed_position(-32768), None);

    for val in [-4095, -2048, -1000, -1, 0, 1, 1000, 2047, 4095] {
        let encoded = encode_signed_position(val).unwrap();
        let decoded = decode_signed_position(encoded);
        assert_eq!(decoded, val, "Round-trip failed for {val}");
    }

    assert_eq!(encode_signed_position(-1).unwrap() & 0x8000, 0x8000);
    assert_eq!(encode_signed_position(1).unwrap() & 0x8000, 0x0000);
    assert_eq!(encode_signed_position(i16::MIN), None);
    assert_eq!(encode_signed_speed(i16::MIN), None);
}

#[test]
fn test_position_commands_zero_goal_time() {
    assert_eq!(
        encode_position_payload(123, u16::MAX, 456),
        Some([123, 0, 0, 0, 200, 1])
    );

    let moves = [SmsPositionMove {
        id: 1,
        position: -123,
        time: u16::MAX,
        speed: 456,
    }];
    let mut payload = [0u8; 256];
    let (data_len, payload_len) = fill_sync_position_payload::<()>(&moves, &mut payload).unwrap();
    assert_eq!(data_len, 6);
    assert_eq!(&payload[..payload_len], &[1, 123, 128, 0, 0, 200, 1]);

    let moves = [SmsPositionMoveEx {
        id: 2,
        acceleration: 7,
        position: 123,
        time: u16::MAX,
        speed: 456,
    }];
    let mut payload = [0u8; 256];
    let (data_len, payload_len) =
        fill_sync_position_ex_payload::<()>(&moves, &mut payload).unwrap();
    assert_eq!(data_len, 7);
    assert_eq!(&payload[..payload_len], &[2, 7, 123, 0, 0, 0, 200, 1]);
}

#[test]
fn test_offset_encoding_round_trips() {
    for value in [-4095, -2048, -2047, -1, 0, 1, 2047, 2048, 4095] {
        let raw = encode_offset(value).unwrap();
        assert_eq!(
            decode_offset(raw),
            Some(value),
            "Round-trip failed for {value}"
        );
    }
    assert_eq!(encode_offset(-4096), None);
    assert_eq!(encode_offset(4096), None);
    assert_eq!(decode_offset(0x2000), None);
}

#[test]
fn test_operating_mode_mapping() {
    assert_eq!(
        from_register_operating_mode(OperatingMode::Position),
        Some(SmsStsOperatingMode::Position)
    );
    assert_eq!(
        from_register_operating_mode(OperatingMode::Wheel),
        Some(SmsStsOperatingMode::Wheel)
    );
    assert_eq!(
        from_register_operating_mode(OperatingMode::PwmOpenLoop),
        Some(SmsStsOperatingMode::PwmOpenLoop)
    );
    assert_eq!(
        from_register_operating_mode(OperatingMode::Step),
        Some(SmsStsOperatingMode::Step)
    );
    assert_eq!(from_register_operating_mode(OperatingMode::Unknown(4)), None);

    assert_eq!(
        to_register_operating_mode(SmsStsOperatingMode::PwmOpenLoop),
        OperatingMode::PwmOpenLoop
    );
    assert_eq!(
        to_register_operating_mode(SmsStsOperatingMode::Step),
        OperatingMode::Step
    );
}

#[test]
fn offset_words_carry_sign_and_high_half() {
    assert_eq!(encode_offset(5), Some(5));
    assert_eq!(encode_offset(-5), Some(0x0805));
    assert_eq!(encode_offset(2050), Some(0x1002));
    assert_eq!(encode_offset(-2050), Some(0x1802));
    assert_eq!(decode_offset(0x1FFF), Some(-4095));
    assert_eq!(decode_offset(0x0800), Some(0));
}

#[test]
fn pwm_words_decode_back_as_load() {
    for value in [-1023, -512, -1, 0, 1, 700, 1023] {
        assert_eq!(decode_load(encode_signed_pwm(value).unwrap()), value);
    }
}

#[test]
fn speed_words_decode_back() {
    for value in [-32767, -1000, -1, 0, 1, 1000, 32767] {
        assert_eq!(decode_speed(encode_signed_speed(value).unwrap()), value);
    }
    assert_eq!(encode_signed_speed(-1000), Some(0x83E8));
}

#[test]
fn operating_modes_round_trip_through_the_register() {
    for mode in [
        SmsStsOperatingMode::Position,
        SmsStsOperatingMode::Wheel,
        SmsStsOperatingMode::PwmOpenLoop,
        SmsStsOperatingMode::Step,
    ] {
        let register = to_register_operating_mode(mode);
        assert_eq!(
            from_register_operating_mode(OperatingMode::from_raw(register.raw())),
            Some(mode)
        );
    }
    assert_eq!(OperatingMode::from_raw(7), OperatingMode::Unknown(7));
}

#[test]
fn baud_rates_and_torque_modes_round_trip() {
    for raw in 0u8..=11 {
        let rate = BaudRate::from_raw(raw).unwrap();
        assert_eq!(rate.raw(), raw);
    }
    assert_eq!(BaudRate::from_raw(12), None);
    assert_eq!(BaudRate::Baud115200.to_bps(), 115_200);
    assert_eq!(BaudRate::from_raw(0).unwrap().to_bps(), 1_000_000);
    assert_eq!(TorqueMode::from_raw(2), Some(TorqueMode::Free));
    assert_eq!(TorqueMode::from_raw(3), None);
    assert_eq!(u8::from(TorqueMode::Enable), 1);
    assert_eq!(TorqueMode::try_from(5u8), Err(5));
}

#[test]
fn sync_payload_settings_are_checked_per_entry() {
    let mut payload = [0u8; 256];
    let moves = [SmsPositionMoveEx {
        id: 1,
        acceleration: 255,
        position: 0,
        time: 0,
        speed: 0,
    }];
    assert!(matches!(
        fill_sync_position_ex_payload::<()>(&moves, &mut payload),
        Err(ProtocolError::InvalidSetting)
    ));

    let commands = [SmsSpeedCommand {
        id: 3,
        speed: -1000,
        acceleration: 10,
    }];
    let (data_len, len) = fill_sync_speed_payload::<()>(&commands, &mut payload).unwrap();
    assert_eq!(data_len, 7);
    assert_eq!(&payload[..len], &[3, 10, 0, 0, 0, 0, 0xE8, 0x83]);

    let limits = [
        SmsTorqueLimitCommand { id: 1, limit: 500 },
        SmsTorqueLimitCommand { id: 2, limit: 1001 },
    ];
    assert!(matches!(
        fill_sync_torque_limit_payload::<()>(&limits, &mut payload),
        Err(ProtocolError::InvalidSetting)
    ));
    let (data_len, len) = fill_sync_torque_limit_payload::<()>(&limits[..1], &mut payload).unwrap();
    assert_eq!(data_len, 2);
    assert_eq!(&payload[..len], &[1, 0xF4, 0x01]);
}

#[test]
fn sync_payloads_beyond_the_buffer_are_refused() {
    let mut payload = [0u8; 256];
    let moves = [SmsPositionMove {
        id: 1,
        position: 10,
        time: 0,
        speed: 0,
    }; 37];
    assert!(matches!(
        fill_sync_position_payload::<()>(&moves, &mut payload),
        Err(ProtocolError::InvalidLength)
    ));
    let (_, len) = fill_sync_position_payload::<()>(&moves[..36], &mut payload).unwrap();
    assert_eq!(len, 252);
}
