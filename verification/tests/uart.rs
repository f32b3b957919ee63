use waveshare_scservo::frame::FrameReader;
use waveshare_scservo::types::Instruction;
use waveshare_scservo::{ProtocolError, SerialLink, UartBusInterface, BROADCAST_ID};

struct ScriptedInterface {
    rx: Vec<u8>,
    tx: Vec<u8>,
    flushes: usize,
}

impl SerialLink for ScriptedInterface {
    type Error = embedded_io::ErrorKind;

    fn write_all(&mut self, data: &[u8]) -> Result<(), Self::Error> {
        self.tx.extend_from_slice(data);
        Ok(())
    }

    fn flush(&mut self) -> Result<(), Self::Error> {
        self.flushes += 1;
        Ok(())
    }

    fn receive(&mut self, reader: &mut FrameReader) -> Result<(), Self::Error> {
        while !reader.is_complete() && !self.rx.is_empty() {
            let byte = self.rx.remove(0);
            reader.feed(byte);
        }
        Ok(())
    }
}

fn scripted(rx: Vec<u8>) -> ScriptedInterface {
    ScriptedInterface {
        rx,
        tx: Vec::new(),
        flushes: 0,
    }
}

#[test]
fn documented_read_packet_round_trips() {
    let interface = scripted(vec![0xFF, 0xFF, 0x01, 0x04, 0x00, 0x18, 0x05, 0xDD]);
    let mut uart = UartBusInterface::new(interface);
    let mut response = [0u8; 2];

    let length = uart
        .blocking_transfer(1, Instruction::Read, &[0x38, 0x02], &mut response)
        .unwrap();

    assert_eq!(length, 2);
    assert_eq!(response, [0x18, 0x05]);
    assert_eq!(
        uart.transport().tx,
        [0xFF, 0xFF, 0x01, 0x04, 0x02, 0x38, 0x02, 0xBE]
    );
    assert_eq!(uart.transport().flushes, 1);
}

#[test]
fn documented_sync_write_packet_round_trips() {
    let interface = scripted(Vec::new());
    let mut uart = UartBusInterface::new(interface);
    let payload = [
        1, 0x00, 0x08, 0x00, 0x00, 0xE8, 0x03, 2, 0x00, 0x08, 0x00, 0x00, 0xE8, 0x03, 3, 0x00,
        0x08, 0x00, 0x00, 0xE8, 0x03, 4, 0x00, 0x08, 0x00, 0x00, 0xE8, 0x03,
    ];

    uart.blocking_sync_write(0x2A, 6, &payload).unwrap();

    assert_eq!(
        uart.transport().tx,
        [
            0xFF, 0xFF, 0xFE, 0x20, 0x83, 0x2A, 0x06, 1, 0x00, 0x08, 0x00, 0x00, 0xE8, 0x03, 2,
            0x00, 0x08, 0x00, 0x00, 0xE8, 0x03, 3, 0x00, 0x08, 0x00, 0x00, 0xE8, 0x03, 4, 0x00,
            0x08, 0x00, 0x00, 0xE8, 0x03, 0x58,
        ]
    );
    assert_eq!(uart.transport().flushes, 1);
}

#[test]
fn response_length_must_match_destination() {
    let interface = scripted(vec![0xFF, 0xFF, 0x01, 0x03, 0x00, 0x18, 0xE3]);
    let mut uart = UartBusInterface::new(interface);
    let mut response = [0u8; 2];

    assert!(matches!(
        uart.blocking_read_response(1, &mut response),
        Err(ProtocolError::InvalidLength)
    ));
}

#[test]
fn mismatched_response_is_consumed_before_error() {
    let interface = scripted(vec![0xFF, 0xFF, 0x02, 0x02, 0x00, 0xFB]);
    let mut uart = UartBusInterface::new(interface);
    let mut response = [];

    assert!(matches!(
        uart.blocking_read_response(1, &mut response),
        Err(ProtocolError::InvalidId)
    ));
    assert!(uart.transport().rx.is_empty());
}

#[test]
fn sync_write_rejects_misaligned_payload_without_transmitting() {
    let interface = scripted(Vec::new());
    let mut uart = UartBusInterface::new(interface);

    assert!(matches!(
        uart.blocking_sync_write(0x2A, 6, &[1, 0]),
        Err(ProtocolError::InvalidLength)
    ));
    assert!(uart.transport().tx.is_empty());
}

#[test]
fn register_access_without_bus_id_is_an_error() {
    let interface = scripted(Vec::new());
    let mut uart = UartBusInterface::new(interface);
    let mut data = [0u8; 1];

    assert!(matches!(
        uart.read_register(0x38, &mut data),
        Err(ProtocolError::InvalidId)
    ));
}

#[test]
fn broadcast_transfer_cannot_claim_a_response() {
    let interface = scripted(Vec::new());
    let mut uart = UartBusInterface::new(interface);
    let mut response = [0u8; 1];

    assert!(matches!(
        uart.blocking_transfer(BROADCAST_ID, Instruction::Read, &[], &mut response),
        Err(ProtocolError::InvalidId)
    ));
    assert!(uart.transport().tx.is_empty());
}

#[test]
fn response_level_zero_skips_write_ack() {
    let interface = scripted(Vec::new());
    let mut uart = UartBusInterface::new(interface);
    uart.set_response_status_level(false);

    uart.blocking_transfer(1, Instruction::Write, &[0x28, 1], &mut [])
        .unwrap();

    assert_eq!(uart.transport().tx, [0xFF, 0xFF, 1, 4, 0x03, 0x28, 1, 0xCE]);
    assert_eq!(uart.transport().flushes, 1);
}

#[test]
fn checksum_complements_the_byte_sum() {
    assert_eq!(
        UartBusInterface::<ScriptedInterface>::calculate_checksum(1, 4, 2, &[0x38, 0x02]),
        0xBE
    );
    assert_eq!(
        UartBusInterface::<ScriptedInterface>::calculate_checksum(0xFE, 0xFF, 0xFF, &[0xFF; 8]),
        !((0xFEu32 + 0xFF + 0xFF + 8 * 0xFF) as u8)
    );
}

#[test]
fn built_packets_carry_length_and_checksum() {
    let packet = UartBusInterface::<ScriptedInterface>::build_packet(1, 0x03, &[0x28, 1]);
    assert_eq!(packet, vec![0xFF, 0xFF, 1, 4, 0x03, 0x28, 1, 0xCE]);
}

#[test]
fn frame_reader_skips_noise_and_stops_after_one_frame() {
    let mut reader = FrameReader::new();
    for byte in [0x00, 0xFF, 0x12, 0xFF, 0xFF, 0x07, 0x02, 0x00, 0xF6, 0xAA] {
        reader.feed(byte);
    }
    assert!(reader.is_complete());
    assert!(reader.has_frame());
    assert_eq!(reader.frame_id(), 0x07);
    assert_eq!(reader.frame_length(), 2);
    assert_eq!(reader.frame_body(), &vec![0x00, 0xF6]);
}

#[test]
fn short_length_byte_stops_the_reader() {
    let interface = scripted(vec![0xFF, 0xFF, 0x01, 0x01, 0x00, 0x00]);
    let mut uart = UartBusInterface::new(interface);
    let mut response = [];
    assert!(matches!(
        uart.blocking_read_response(1, &mut response),
        Err(ProtocolError::InvalidLength)
    ));
    assert_eq!(uart.transport().rx, vec![0x00, 0x00]);
}

#[test]
fn truncated_response_is_an_invalid_length() {
    let interface = scripted(vec![0xFF, 0xFF, 0x01, 0x04, 0x00, 0x18]);
    let mut uart = UartBusInterface::new(interface);
    let mut response = [0u8; 2];
    assert!(matches!(
        uart.blocking_read_response(1, &mut response),
        Err(ProtocolError::InvalidLength)
    ));
}

#[test]
fn corrupted_checksum_is_reported() {
    let interface = scripted(vec![0xFF, 0xFF, 0x01, 0x04, 0x00, 0x18, 0x05, 0xDE]);
    let mut uart = UartBusInterface::new(interface);
    let mut response = [0u8; 2];
    assert!(matches!(
        uart.blocking_read_response(1, &mut response),
        Err(ProtocolError::Checksum)
    ));
    assert_eq!(response, [0, 0]);
}

#[test]
fn servo_error_byte_is_reported() {
    // Error byte 0x20 (overload); checksum !(1 + 2 + 0x20) = 0xDC.
    let interface = scripted(vec![0xFF, 0xFF, 0x01, 0x02, 0x20, 0xDC]);
    let mut uart = UartBusInterface::new(interface);
    let mut response = [];
    assert!(matches!(
        uart.blocking_read_response(1, &mut response),
        Err(ProtocolError::ServoError(0x20))
    ));
}

#[test]
fn broadcast_expected_id_is_refused_before_reading() {
    let interface = scripted(vec![0xFF, 0xFF, 0xFE, 0x02, 0x00, 0xFF]);
    let mut uart = UartBusInterface::new(interface);
    let mut response = [];
    assert!(matches!(
        uart.blocking_read_response(BROADCAST_ID, &mut response),
        Err(ProtocolError::InvalidId)
    ));
    assert_eq!(uart.transport().rx.len(), 6);
}

#[test]
fn ping_awaits_the_status_packet() {
    let interface = scripted(vec![0xFF, 0xFF, 0x01, 0x02, 0x00, 0xFC]);
    let mut uart = UartBusInterface::new(interface);
    uart.blocking_ping(1).unwrap();
    assert_eq!(uart.transport().tx, [0xFF, 0xFF, 0x01, 0x02, 0x01, 0xFB]);
    assert!(matches!(uart.blocking_ping(BROADCAST_ID), Err(ProtocolError::InvalidId)));
}

#[test]
fn broadcast_reset_and_action_send_without_reading() {
    let interface = scripted(Vec::new());
    let mut uart = UartBusInterface::new(interface);
    uart.blocking_action(BROADCAST_ID).unwrap();
    uart.blocking_reset(BROADCAST_ID).unwrap();
    assert_eq!(
        uart.transport().tx,
        [0xFF, 0xFF, 0xFE, 0x02, 0x05, 0xFA, 0xFF, 0xFF, 0xFE, 0x02, 0x06, 0xF9]
    );
}

#[test]
fn reg_write_frames_address_and_data() {
    let interface = scripted(vec![0xFF, 0xFF, 0x01, 0x02, 0x00, 0xFC]);
    let mut uart = UartBusInterface::new(interface);
    uart.blocking_reg_write(1, 0x2A, &[0x00, 0x02]).unwrap();
    assert_eq!(
        uart.transport().tx,
        [0xFF, 0xFF, 0x01, 0x05, 0x04, 0x2A, 0x00, 0x02, 0xC9]
    );
    assert!(matches!(
        uart.blocking_reg_write(1, 0x2A, &[]),
        Err(ProtocolError::InvalidLength)
    ));
}

#[test]
fn sync_write_refuses_broadcast_entries() {
    let interface = scripted(Vec::new());
    let mut uart = UartBusInterface::new(interface);
    assert!(matches!(
        uart.blocking_sync_write(0x28, 1, &[1, 1, 0xFE, 1]),
        Err(ProtocolError::InvalidId)
    ));
    assert!(matches!(
        uart.blocking_sync_write(0x28, 0, &[1]),
        Err(ProtocolError::InvalidLength)
    ));
    assert!(uart.transport().tx.is_empty());
}

#[test]
fn sync_read_fills_chunks_in_id_order() {
    let interface = scripted(vec![
        0xFF, 0xFF, 0x01, 0x04, 0x00, 0x10, 0x20, 0xCA, 0xFF, 0xFF, 0x02, 0x04, 0x00, 0x30,
        0x40, 0x89,
    ]);
    let mut uart = UartBusInterface::new(interface);
    let mut output = [0u8; 4];
    uart.blocking_sync_read(0x38, 2, &[1, 2], &mut output).unwrap();
    assert_eq!(output, [0x10, 0x20, 0x30, 0x40]);
    assert_eq!(
        uart.transport().tx,
        [0xFF, 0xFF, 0xFE, 0x06, 0x82, 0x38, 0x02, 0x01, 0x02, 0x3C]
    );
}

#[test]
fn sync_read_stops_at_the_first_missing_response() {
    let interface = scripted(vec![0xFF, 0xFF, 0x01, 0x04, 0x00, 0x10, 0x20, 0xCA]);
    let mut uart = UartBusInterface::new(interface);
    let mut output = [0u8; 4];
    assert!(matches!(
        uart.blocking_sync_read(0x38, 2, &[1, 2], &mut output),
        Err(ProtocolError::InvalidLength)
    ));
    assert_eq!(output, [0x10, 0x20, 0, 0]);
}

#[test]
fn sync_read_checks_its_arguments_before_sending() {
    let interface = scripted(Vec::new());
    let mut uart = UartBusInterface::new(interface);
    let mut small = [0u8; 3];
    assert!(matches!(
        uart.blocking_sync_read(0x38, 2, &[1, 2], &mut small),
        Err(ProtocolError::InvalidLength)
    ));
    let mut output = [0u8; 4];
    assert!(matches!(
        uart.blocking_sync_read(0x38, 2, &[1, 0xFE], &mut output),
        Err(ProtocolError::InvalidId)
    ));
    assert!(matches!(
        uart.blocking_send_sync_read_request(0x38, 0, &[1]),
        Err(ProtocolError::InvalidLength)
    ));
    assert!(uart.transport().tx.is_empty());
}

#[test]
fn register_write_uses_the_bus_id() {
    let interface = scripted(vec![0xFF, 0xFF, 0x03, 0x02, 0x00, 0xFA]);
    let mut uart = UartBusInterface::new(interface);
    uart.set_busid(3);
    assert_eq!(uart.busid(), Some(3));
    uart.write_register(0x28, &[1]).unwrap();
    assert_eq!(uart.transport().tx, [0xFF, 0xFF, 0x03, 0x04, 0x03, 0x28, 0x01, 0xCC]);
    uart.clear_busid();
    assert_eq!(uart.busid(), None);
    assert!(matches!(
        uart.write_register(0x28, &[1]),
        Err(ProtocolError::InvalidId)
    ));
}

#[test]
fn validation_helpers_match_the_protocol_limits() {
    assert!(UartBusInterface::<ScriptedInterface>::validate_id::<()>(0xFD, false).is_ok());
    assert!(UartBusInterface::<ScriptedInterface>::validate_id::<()>(0xFE, false).is_err());
    assert!(UartBusInterface::<ScriptedInterface>::validate_id::<()>(0xFE, true).is_ok());
    assert!(UartBusInterface::<ScriptedInterface>::validate_id::<()>(0xFF, true).is_err());
    assert!(UartBusInterface::<ScriptedInterface>::validate_sync_write::<()>(1, &[1, 5, 2, 6]).is_ok());
    assert!(matches!(
        UartBusInterface::<ScriptedInterface>::validate_sync_write::<()>(1, &[1, 5, 2]),
        Err(ProtocolError::InvalidLength)
    ));
    assert!(matches!(
        UartBusInterface::<ScriptedInterface>::validate_sync_read::<()>(1, &[]),
        Err(ProtocolError::InvalidLength)
    ));
    let mut params = [0u8; 256];
    assert_eq!(
        UartBusInterface::<ScriptedInterface>::copy_reg_write_params::<()>(&mut params, 0x2A, &[7, 8])
            .unwrap(),
        3
    );
    assert_eq!(&params[..3], &[0x2A, 7, 8]);
    assert!(matches!(
        UartBusInterface::<ScriptedInterface>::copy_reg_write_params::<()>(&mut params, 0x2A, &[0; 256]),
        Err(ProtocolError::InvalidLength)
    ));
}

#[test]
fn built_packets_scan_back_whole() {
    let params = [0x2A, 0x00, 0x02, 0x00, 0x00, 0xE8, 0x03];
    let packet = UartBusInterface::<ScriptedInterface>::build_packet(0x11, 0x00, &params);
    let mut reader = FrameReader::new();
    for (i, &byte) in packet.iter().enumerate() {
        assert!(!reader.is_complete(), "stopped before byte {i}");
        reader.feed(byte);
    }
    assert!(reader.has_frame());
    assert_eq!(reader.frame_id(), 0x11);
    assert_eq!(reader.frame_length(), params.len() as u8 + 2);
    let mut body = vec![0x00];
    body.extend_from_slice(&params);
    body.push(packet[packet.len() - 1]);
    assert_eq!(reader.frame_body(), &body);

    let interface = scripted(packet.clone());
    let mut uart = UartBusInterface::new(interface);
    let mut response = [0u8; 7];
    assert_eq!(uart.blocking_read_response(0x11, &mut response).unwrap(), 7);
    assert_eq!(response, params);
}
