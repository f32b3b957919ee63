//! What the register-level operations of the two servo series mean, stated
//! over the bytes on the wire: which register each value comes from or goes
//! to, its byte order, and where its sign and flags sit.
//!
//! Each law speaks of the spec functions the operations' contracts use
//! (`state_of`, `telemetry_of`, `status_of`, ...) and fixes them against
//! plain arithmetic on the bytes, so that the contracts say what the
//! operations are for and not only what their code computes.

use vstd::prelude::*;

use crate::access::{read_access, write_access};
use crate::registers::TorqueMode;
use crate::series::ServoMode;
use crate::types::{
    Instruction, ScsclMotorCommand, ScsclPositionMove, SmsPositionMove, SmsPositionMoveEx, SmsSpeedCommand,
    SmsStsOperatingMode, SmsTorqueLimitCommand,
};
use crate::wire::{be16, bit, from_be16, from_le16, le16};
use crate::{current_of, load_of, magnitude, sign15_value, speed_of};
use crate::error::ProtocolError;
use crate::uart::{byte_sum, packet};

verus! {

/// Speed, current and position words (here high byte `hi`, low byte `lo`)
/// carry their sign in bit 15 and their magnitude in the low 15 bits.
pub proof fn lemma_sign15_bytes(hi: u8, lo: u8)
    ensures
        sign15_value((hi * 256 + lo) as u16) == if hi >= 128 {
            -((hi - 128) * 256 + lo)
        } else {
            hi * 256 + lo
        },
        speed_of((hi * 256 + lo) as u16) as int == sign15_value((hi * 256 + lo) as u16),
        current_of((hi * 256 + lo) as u16) as int == sign15_value((hi * 256 + lo) as u16),
{
}

/// A load word (here high byte `hi`, low byte `lo`) carries its sign in
/// bit 10 and its magnitude in the low 10 bits; without bit 10 the word is
/// read as a two's-complement value.
pub proof fn lemma_load_bytes(hi: u8, lo: u8)
    ensures
        load_of((hi * 256 + lo) as u16) as int == if (hi / 4) % 2 == 1 {
            -((hi % 4) * 256 + lo)
        } else if hi < 128 {
            hi * 256 + lo
        } else {
            hi * 256 + lo - 65536
        },
{
    let w: int = hi * 256 + lo;
    assert(w / 1024 == hi / 4 && w % 1024 == (hi % 4) * 256 + lo) by (nonlinear_arith)
        requires
            w == hi * 256 + lo,
            0 <= hi < 256,
            0 <= lo < 256,
    ;
}

/// The bit flags of a status byte.
proof fn lemma_bit_values(b: u8)
    ensures
        bit(b, 0) == (b % 2 == 1),
        bit(b, 1) == ((b / 2) % 2 == 1),
        bit(b, 2) == ((b / 4) % 2 == 1),
        bit(b, 3) == ((b / 8) % 2 == 1),
        bit(b, 5) == ((b / 32) % 2 == 1),
{
    assert(((b >> 0u8) & 1 == 1) == (b % 2 == 1)) by (bit_vector);
    assert(((b >> 1u8) & 1 == 1) == ((b / 2) % 2 == 1)) by (bit_vector);
    assert(((b >> 2u8) & 1 == 1) == ((b / 4) % 2 == 1)) by (bit_vector);
    assert(((b >> 3u8) & 1 == 1) == ((b / 8) % 2 == 1)) by (bit_vector);
    assert(((b >> 5u8) & 1 == 1) == ((b / 32) % 2 == 1)) by (bit_vector);
}

/// Words on the SCSCL wire are big-endian (high byte first) and on the
/// SMS/STS wire little-endian (low byte first).
pub proof fn lemma_byte_orders(v: u16, hi: u8, lo: u8)
    ensures
        be16(v) == seq![(v / 256) as u8, (v % 256) as u8],
        le16(v) == seq![(v % 256) as u8, (v / 256) as u8],
        from_be16(seq![hi, lo]) == hi * 256 + lo,
        from_le16(seq![lo, hi]) == hi * 256 + lo,
{
}

/// SMS/STS position offset (register 0x1F, low byte first): bits 0..11 hold
/// the magnitude below 2048, bit 12 adds 2048 and bit 11 is the sign; a word
/// above 0x1FFF read back is an invalid setting. An offset is written as the
/// word with that layout, for magnitudes up to 4095.
pub proof fn lemma_sms_offset<E>(v: i16, lo: u8, hi: u8)
    ensures
        crate::sms_sts::offset_result::<E>(Ok(seq![seq![lo, hi]])) == if hi >= 0x20 {
            Err(ProtocolError::<E>::InvalidSetting)
        } else {
            let mag: int = (hi % 8) * 256 + lo + if (hi / 16) % 2 == 1 { 2048int } else { 0int };
            Ok((if (hi / 8) % 2 == 1 { -mag } else { mag }) as i16)
        },
        magnitude(v) > 4095 ==> crate::sms_sts::offset_word(v) is None,
        magnitude(v) <= 4095 ==> (crate::sms_sts::offset_word(v) matches Some(w) && w < 0x2000 && w % 2048
            == magnitude(v) % 2048 && ((w / 2048) % 2 == 1) == (v < 0) && ((w / 4096) % 2 == 1) == (magnitude(v)
            >= 2048)),
{
    let raw: int = hi * 256 + lo;
    assert(from_le16(seq![lo, hi]) == raw);
    assert(raw % 2048 == (hi % 8) * 256 + lo && (raw / 0x1000) % 2 == (hi / 16) % 2 && (raw / 0x0800) % 2 == (hi
        / 8) % 2 && (raw > 0x1FFF <==> hi >= 0x20)) by (nonlinear_arith)
        requires
            raw == hi * 256 + lo,
            0 <= hi < 256,
            0 <= lo < 256,
    ;
    if magnitude(v) <= 4095 {
        let m = magnitude(v);
        let w: int = (if m >= 2048 { 0x1000int } else { 0int }) + (if v < 0 { 0x0800int } else { 0int }) + m % 2048;
        assert(w % 2048 == m % 2048 && ((w / 2048) % 2 == 1) == (v < 0) && ((w / 4096) % 2 == 1) == (m >= 2048)
            && w < 0x2000) by (nonlinear_arith)
            requires
                w == (if m >= 2048 { 0x1000int } else { 0int }) + (if v < 0 { 0x0800int } else { 0int }) + m % 2048,
                m <= 4095,
        ;
    }
}

/// A packet is `0xFF 0xFF id length code params checksum`, where the length
/// counts the parameters plus 2 and the checksum makes the bytes from the ID
/// on sum to 255 modulo 256.
pub proof fn lemma_packet_layout(id: u8, code: u8, params: Seq<u8>)
    requires
        params.len() <= 253,
    ensures
        packet(id, code, params).len() == params.len() + 6,
        packet(id, code, params)[0] == 0xFF,
        packet(id, code, params)[1] == 0xFF,
        packet(id, code, params)[2] == id,
        packet(id, code, params)[3] == params.len() + 2,
        packet(id, code, params)[4] == code,
        forall|i: int| 0 <= i < params.len() ==> packet(id, code, params)[5 + i] == params[i],
        byte_sum(packet(id, code, params).subrange(2, params.len() + 6int)) % 256 == 255,
{
    let p = packet(id, code, params);
    let body = seq![id, (params.len() + 2) as u8, code] + params;
    let cs = crate::uart::checksum_of(body);
    assert(p.subrange(2, params.len() + 6int) =~= body.push(cs));
    assert(body.push(cs).drop_last() =~= body);
    let t = byte_sum(body);
    assert((t + (255 - t % 256)) % 256 == 255) by (nonlinear_arith)
        requires
            t >= 0,
    ;
}

// ---------------------------------------------------------------- SCSCL

/// SCSCL sync-read chunk: bytes 0..2 are the position, 2..4 the speed
/// (bit 15 sign), 4..6 the load (bit 10 sign), all high byte first; byte 6
/// the voltage and byte 7 the temperature.
pub proof fn lemma_scscl_sync_state(id: u8, c: Seq<u8>)
    requires
        c.len() >= 8,
    ensures
        crate::scscl::state_of(id, c).id == id,
        crate::scscl::state_of(id, c).position_raw == c[0] * 256 + c[1],
        crate::scscl::state_of(id, c).speed_raw as int == if c[2] >= 128 {
            -((c[2] - 128) * 256 + c[3])
        } else {
            c[2] * 256 + c[3]
        },
        crate::scscl::state_of(id, c).load_raw as int == if (c[4] / 4) % 2 == 1 {
            -((c[4] % 4) * 256 + c[5])
        } else if c[4] < 128 {
            c[4] * 256 + c[5]
        } else {
            c[4] * 256 + c[5] - 65536
        },
        crate::scscl::state_of(id, c).voltage_raw == c[6],
        crate::scscl::state_of(id, c).temperature_raw == c[7],
{
    assert(c.subrange(0, 2) =~= seq![c[0], c[1]]);
    assert(c.subrange(2, 4) =~= seq![c[2], c[3]]);
    assert(c.subrange(4, 6) =~= seq![c[4], c[5]]);
    lemma_sign15_bytes(c[2], c[3]);
    lemma_load_bytes(c[4], c[5]);
}

/// SCSCL state read: position (0x38), speed (0x3A), load (0x3C), voltage
/// (0x3E), temperature (0x3F) and move flag (0x42), in that order; each field
/// of the telemetry is decoded from the bytes of its own register, high
/// byte first. SCSCL servos report no current.
pub proof fn lemma_scscl_telemetry(vs: Seq<Seq<u8>>)
    requires
        vs.len() == 6,
        vs[0].len() == 2,
        vs[1].len() == 2,
        vs[2].len() == 2,
        vs[3].len() == 1,
        vs[4].len() == 1,
        vs[5].len() == 1,
    ensures
        crate::scscl::state_accesses() == seq![
            read_access(0x38, 2),
            read_access(0x3A, 2),
            read_access(0x3C, 2),
            read_access(0x3E, 1),
            read_access(0x3F, 1),
            read_access(0x42, 1),
        ],
        crate::scscl::telemetry_of(vs).position_raw as int == if vs[0][0] < 128 {
            vs[0][0] * 256 + vs[0][1]
        } else {
            vs[0][0] * 256 + vs[0][1] - 65536
        },
        crate::scscl::telemetry_of(vs).speed_raw as int == if vs[1][0] >= 128 {
            -((vs[1][0] - 128) * 256 + vs[1][1])
        } else {
            vs[1][0] * 256 + vs[1][1]
        },
        crate::scscl::telemetry_of(vs).load_raw as int == if (vs[2][0] / 4) % 2 == 1 {
            -((vs[2][0] % 4) * 256 + vs[2][1])
        } else if vs[2][0] < 128 {
            vs[2][0] * 256 + vs[2][1]
        } else {
            vs[2][0] * 256 + vs[2][1] - 65536
        },
        crate::scscl::telemetry_of(vs).voltage_raw == vs[3][0],
        crate::scscl::telemetry_of(vs).temperature_raw == vs[4][0],
        crate::scscl::telemetry_of(vs).moving == (vs[5][0] % 2 == 1),
        crate::scscl::telemetry_of(vs).current_raw is None,
{
    assert(vs[0] =~= seq![vs[0][0], vs[0][1]]);
    assert(vs[1] =~= seq![vs[1][0], vs[1][1]]);
    assert(vs[2] =~= seq![vs[2][0], vs[2][1]]);
    lemma_sign15_bytes(vs[1][0], vs[1][1]);
    lemma_load_bytes(vs[2][0], vs[2][1]);
    lemma_bit_values(vs[5][0]);
    let w = from_be16(vs[0]);
    assert(w == vs[0][0] * 256 + vs[0][1]);
    assert((w as i16) as int == if w < 32768 { w as int } else { w - 65536 }) by (bit_vector);
}

/// SCSCL status byte (register 0x41): voltage error is bit 0, temperature
/// error bit 2, overload bit 5; SCSCL servos have no magnetic or current flag.
pub proof fn lemma_scscl_status(id: u8, b: u8)
    ensures
        crate::registers::sc_device::SERVO_STATUS == 0x41,
        crate::scscl::status_of(id, b).id == id,
        crate::scscl::status_of(id, b).voltage_error == (b % 2 == 1),
        crate::scscl::status_of(id, b).temperature_error == ((b / 4) % 2 == 1),
        crate::scscl::status_of(id, b).overload_error == ((b / 32) % 2 == 1),
        !crate::scscl::status_of(id, b).magnetic_error,
        !crate::scscl::status_of(id, b).current_error,
{
    lemma_bit_values(b);
}

/// SCSCL mode read: the angle limits (0x09, 0x0B) are read, and the servo is
/// in wheel mode exactly when both are zero.
pub proof fn lemma_scscl_mode(vs: Seq<Seq<u8>>, min: u16, max: u16)
    requires
        vs.len() == 2,
        vs[0].len() == 2,
        vs[1].len() == 2,
    ensures
        crate::scscl::mode_accesses() == seq![read_access(0x09, 2), read_access(0x0B, 2)],
        (crate::scscl::mode_of(vs) == ServoMode::Wheel) <==> (vs[0][0] == 0 && vs[0][1] == 0 && vs[1][0] == 0
            && vs[1][1] == 0),
        (crate::scscl::mode_of(seq![be16(min), be16(max)]) == ServoMode::Wheel) <==> (min == 0 && max == 0),
{
    assert(vs[0] =~= seq![vs[0][0], vs[0][1]]);
    assert(vs[1] =~= seq![vs[1][0], vs[1][1]]);
}

/// SCSCL angle limits: accepted when both are zero (wheel mode) or when
/// `min < max <= 1023`; written to 0x09 and 0x0B high byte first.
pub proof fn lemma_scscl_angle_limits(min: u16, max: u16)
    ensures
        crate::scscl::angle_limits_valid(min, max) <==> ((min == 0 && max == 0) || (min < max && max <= 1023)),
        crate::scscl::angle_limit_accesses(min, max) == seq![
            write_access(0x09, seq![(min / 256) as u8, (min % 256) as u8]),
            write_access(0x0B, seq![(max / 256) as u8, (max % 256) as u8]),
        ],
        from_be16(crate::scscl::angle_limit_accesses(min, max)[0]->Write_data) == min,
        from_be16(crate::scscl::angle_limit_accesses(min, max)[1]->Write_data) == max,
        crate::scscl::mode_limits(ServoMode::Wheel) == (0u16, 0u16),
        crate::scscl::mode_limits(ServoMode::Position) == (0u16, 1023u16),
{
}

/// SCSCL version read: registers 0x00, 0x01, 0x03 and 0x04, one byte each,
/// are the firmware major and minor and the servo major and minor versions.
pub proof fn lemma_scscl_version(vs: Seq<Seq<u8>>)
    ensures
        crate::scscl::version_accesses() == seq![
            read_access(0x00, 1),
            read_access(0x01, 1),
            read_access(0x03, 1),
            read_access(0x04, 1),
        ],
        crate::scscl::version_of(vs).firmware_major == vs[0][0],
        crate::scscl::version_of(vs).firmware_minor == vs[1][0],
        crate::scscl::version_of(vs).servo_major == vs[2][0],
        crate::scscl::version_of(vs).servo_minor == vs[3][0],
{
}

/// SCSCL position command: position, goal time and speed, high byte first;
/// a sync-write entry is the servo ID followed by those 6 bytes, refused
/// for positions above 1023.
pub proof fn lemma_scscl_position_command(m: ScsclPositionMove)
    ensures
        crate::scscl::position_data(m.position, m.time, m.speed) == seq![
            (m.position / 256) as u8,
            (m.position % 256) as u8,
            (m.time / 256) as u8,
            (m.time % 256) as u8,
            (m.speed / 256) as u8,
            (m.speed % 256) as u8,
        ],
        crate::scscl::position_entry(m) == if m.position > 1023 {
            None
        } else {
            Some(seq![m.id] + crate::scscl::position_data(m.position, m.time, m.speed))
        },
{
}

/// SCSCL motor command: the output's magnitude (at most 1023) with bit 10
/// set for negative outputs, high byte first after the servo ID.
pub proof fn lemma_scscl_motor_command(c: ScsclMotorCommand)
    ensures
        (c.output < -1023 || c.output > 1023) ==> crate::scscl::motor_entry(c) is None,
        -1023 <= c.output <= 1023 ==> {
            let w: int = if c.output < 0 { 1024 - c.output } else { c.output as int };
            crate::scscl::motor_entry(c) == Some(seq![c.id, (w / 256) as u8, (w % 256) as u8])
        },
{
}

// -------------------------------------------------------------- SMS/STS

/// SMS/STS sync-read chunk: bytes 0..2 are the position and 2..4 the speed
/// (bit 15 sign each), 4..6 the load (bit 10 sign), all low byte first;
/// byte 6 the voltage and byte 7 the temperature.
pub proof fn lemma_sms_sync_state(id: u8, c: Seq<u8>)
    requires
        c.len() >= 8,
    ensures
        crate::sms_sts::state_of(id, c).id == id,
        crate::sms_sts::state_of(id, c).position_raw as int == if c[1] >= 128 {
            -((c[1] - 128) * 256 + c[0])
        } else {
            c[1] * 256 + c[0]
        },
        crate::sms_sts::state_of(id, c).speed_raw as int == if c[3] >= 128 {
            -((c[3] - 128) * 256 + c[2])
        } else {
            c[3] * 256 + c[2]
        },
        crate::sms_sts::state_of(id, c).load_raw as int == if (c[5] / 4) % 2 == 1 {
            -((c[5] % 4) * 256 + c[4])
        } else if c[5] < 128 {
            c[5] * 256 + c[4]
        } else {
            c[5] * 256 + c[4] - 65536
        },
        crate::sms_sts::state_of(id, c).voltage_raw == c[6],
        crate::sms_sts::state_of(id, c).temperature_raw == c[7],
{
    assert(c.subrange(0, 2) =~= seq![c[0], c[1]]);
    assert(c.subrange(2, 4) =~= seq![c[2], c[3]]);
    assert(c.subrange(4, 6) =~= seq![c[4], c[5]]);
    lemma_sign15_bytes(c[1], c[0]);
    lemma_sign15_bytes(c[3], c[2]);
    lemma_load_bytes(c[5], c[4]);
}

/// SMS/STS state read: position (0x38), speed (0x3A), load (0x3C), voltage
/// (0x3E), temperature (0x3F), move flag (0x42) and current (0x45), in that
/// order; each field of the telemetry is decoded from the bytes of its own
/// register, low byte first.
pub proof fn lemma_sms_telemetry(vs: Seq<Seq<u8>>)
    requires
        vs.len() == 7,
        vs[0].len() == 2,
        vs[1].len() == 2,
        vs[2].len() == 2,
        vs[3].len() == 1,
        vs[4].len() == 1,
        vs[5].len() == 1,
        vs[6].len() == 2,
    ensures
        crate::sms_sts::state_accesses() == seq![
            read_access(0x38, 2),
            read_access(0x3A, 2),
            read_access(0x3C, 2),
            read_access(0x3E, 1),
            read_access(0x3F, 1),
            read_access(0x42, 1),
            read_access(0x45, 2),
        ],
        crate::sms_sts::telemetry_of(vs).position_raw as int == if vs[0][1] >= 128 {
            -((vs[0][1] - 128) * 256 + vs[0][0])
        } else {
            vs[0][1] * 256 + vs[0][0]
        },
        crate::sms_sts::telemetry_of(vs).speed_raw as int == if vs[1][1] >= 128 {
            -((vs[1][1] - 128) * 256 + vs[1][0])
        } else {
            vs[1][1] * 256 + vs[1][0]
        },
        crate::sms_sts::telemetry_of(vs).load_raw as int == if (vs[2][1] / 4) % 2 == 1 {
            -((vs[2][1] % 4) * 256 + vs[2][0])
        } else if vs[2][1] < 128 {
            vs[2][1] * 256 + vs[2][0]
        } else {
            vs[2][1] * 256 + vs[2][0] - 65536
        },
        crate::sms_sts::telemetry_of(vs).voltage_raw == vs[3][0],
        crate::sms_sts::telemetry_of(vs).temperature_raw == vs[4][0],
        crate::sms_sts::telemetry_of(vs).moving == (vs[5][0] % 2 == 1),
        crate::sms_sts::telemetry_of(vs).current_raw matches Some(current) && current as int == if vs[6][1]
            >= 128 {
            -((vs[6][1] - 128) * 256 + vs[6][0])
        } else {
            vs[6][1] * 256 + vs[6][0]
        },
{
    assert(vs[0] =~= seq![vs[0][0], vs[0][1]]);
    assert(vs[1] =~= seq![vs[1][0], vs[1][1]]);
    assert(vs[2] =~= seq![vs[2][0], vs[2][1]]);
    assert(vs[6] =~= seq![vs[6][0], vs[6][1]]);
    lemma_sign15_bytes(vs[0][1], vs[0][0]);
    lemma_sign15_bytes(vs[1][1], vs[1][0]);
    lemma_load_bytes(vs[2][1], vs[2][0]);
    lemma_sign15_bytes(vs[6][1], vs[6][0]);
    lemma_bit_values(vs[5][0]);
}

/// SMS/STS status byte (register 0x41): voltage error is bit 0, magnetic
/// encoder error bit 1, temperature error bit 2, current error bit 3,
/// overload bit 5.
pub proof fn lemma_sms_status(id: u8, b: u8)
    ensures
        crate::registers::sts_device::SERVO_STATUS == 0x41,
        crate::sms_sts::status_of(id, b).id == id,
        crate::sms_sts::status_of(id, b).voltage_error == (b % 2 == 1),
        crate::sms_sts::status_of(id, b).magnetic_error == ((b / 2) % 2 == 1),
        crate::sms_sts::status_of(id, b).temperature_error == ((b / 4) % 2 == 1),
        crate::sms_sts::status_of(id, b).current_error == ((b / 8) % 2 == 1),
        crate::sms_sts::status_of(id, b).overload_error == ((b / 32) % 2 == 1),
{
    lemma_bit_values(b);
}

/// SMS/STS angle limits: accepted when both are zero or when
/// `min < max <= 4095`; written to 0x09 and 0x0B low byte first.
pub proof fn lemma_sms_angle_limits(min: u16, max: u16)
    ensures
        crate::sms_sts::angle_limits_valid(min, max) <==> ((min == 0 && max == 0) || (min < max && max <= 4095)),
        crate::sms_sts::angle_limit_accesses(min, max) == seq![
            write_access(0x09, seq![(min % 256) as u8, (min / 256) as u8]),
            write_access(0x0B, seq![(max % 256) as u8, (max / 256) as u8]),
        ],
        from_le16(crate::sms_sts::angle_limit_accesses(min, max)[0]->Write_data) == min,
        from_le16(crate::sms_sts::angle_limit_accesses(min, max)[1]->Write_data) == max,
{
}

/// SMS/STS operating mode: written to and read from register 0x21 as
/// 0 (position), 1 (wheel), 2 (open-loop PWM) or 3 (step); any other value
/// read is an invalid setting, and only position and wheel are servo modes.
pub proof fn lemma_sms_mode<E>(mode: SmsStsOperatingMode, b: u8)
    ensures
        crate::sms_sts::mode_accesses(mode) == seq![
            write_access(
                0x21,
                seq![
                    match mode {
                        SmsStsOperatingMode::Position => 0u8,
                        SmsStsOperatingMode::Wheel => 1u8,
                        SmsStsOperatingMode::PwmOpenLoop => 2u8,
                        SmsStsOperatingMode::Step => 3u8,
                    },
                ],
            ),
        ],
        crate::sms_sts::operating_mode_result::<E>(Ok(seq![seq![b]])) == match b {
            0 => Ok(SmsStsOperatingMode::Position),
            1 => Ok(SmsStsOperatingMode::Wheel),
            2 => Ok(SmsStsOperatingMode::PwmOpenLoop),
            3 => Ok(SmsStsOperatingMode::Step),
            _ => Err(crate::error::ProtocolError::<E>::InvalidSetting),
        },
        crate::sms_sts::servo_mode_result::<E>(crate::sms_sts::operating_mode_result::<E>(Ok(seq![seq![b]])))
            == match b {
            0 => Ok(ServoMode::Position),
            1 => Ok(ServoMode::Wheel),
            _ => Err(crate::error::ProtocolError::<E>::InvalidSetting),
        },
        crate::sms_sts::series_mode_of(ServoMode::Wheel) == SmsStsOperatingMode::Wheel,
        crate::sms_sts::series_mode_of(ServoMode::Position) == SmsStsOperatingMode::Position,
{
}

/// SMS/STS version read: registers 0x00, 0x01, 0x03 and 0x04, one byte each.
pub proof fn lemma_sms_version(vs: Seq<Seq<u8>>)
    ensures
        crate::sms_sts::version_accesses() == seq![
            read_access(0x00, 1),
            read_access(0x01, 1),
            read_access(0x03, 1),
            read_access(0x04, 1),
        ],
        crate::sms_sts::version_of(vs).firmware_major == vs[0][0],
        crate::sms_sts::version_of(vs).firmware_minor == vs[1][0],
        crate::sms_sts::version_of(vs).servo_major == vs[2][0],
        crate::sms_sts::version_of(vs).servo_minor == vs[3][0],
{
}

/// SMS/STS position command: the position as a bit-15 sign-and-magnitude
/// word, a goal time of 0, and the speed, all low byte first; `-32768` has
/// no word.
pub proof fn lemma_sms_position_command(position: i16, speed: u16)
    ensures
        position == -32768 ==> crate::sms_sts::position_payload(position, speed) is None,
        position != -32768 ==> {
            let w: int = if position < 0 { 32768 - position } else { position as int };
            crate::sms_sts::position_payload(position, speed) == Some(
                seq![(w % 256) as u8, (w / 256) as u8, 0u8, 0u8, (speed % 256) as u8, (speed / 256) as u8],
            )
        },
{
}

/// SMS/STS sync-write entries: the servo ID, then (with acceleration, at
/// most 254) the acceleration, then the data of the command; settings out of
/// range have no entry.
pub proof fn lemma_sms_sync_entries(
    m: SmsPositionMove,
    x: SmsPositionMoveEx,
    s: SmsSpeedCommand,
    t: SmsTorqueLimitCommand,
)
    ensures
        crate::sms_sts::position_entry(m) == match crate::sms_sts::position_payload(m.position, m.speed) {
            Some(d) => Some(seq![m.id] + d),
            None => None,
        },
        crate::sms_sts::position_ex_entry(x) == if x.acceleration > 254 {
            None
        } else {
            match crate::sms_sts::position_payload(x.position, x.speed) {
                Some(d) => Some(seq![x.id, x.acceleration] + d),
                None => None,
            }
        },
        s.acceleration > 254 || s.speed == -32768 ==> crate::sms_sts::speed_entry(s) is None,
        s.acceleration <= 254 && s.speed != -32768 ==> {
            let w: int = if s.speed < 0 { 32768 - s.speed } else { s.speed as int };
            crate::sms_sts::speed_entry(s) == Some(
                seq![s.id, s.acceleration, 0u8, 0u8, 0u8, 0u8, (w % 256) as u8, (w / 256) as u8],
            )
        },
        crate::sms_sts::torque_limit_entry(t) == if t.limit > 1000 {
            None
        } else {
            Some(seq![t.id, (t.limit % 256) as u8, (t.limit / 256) as u8])
        },
{
}

// ------------------------------------------------------------ both series

/// A torque-mode sync-write entry is the servo ID and the mode's register
/// value: 0 disable, 1 enable, 2 free.
pub proof fn lemma_torque_mode_entry(c: crate::types::TorqueModeCommand)
    ensures
        crate::sync::torque_mode_entry(c) == Some(
            seq![
                c.id,
                match c.mode {
                    TorqueMode::Disable => 0u8,
                    TorqueMode::Enable => 1u8,
                    TorqueMode::Free => 2u8,
                },
            ],
        ),
{
}

/// Instruction bytes of the protocol.
pub proof fn lemma_instruction_codes()
    ensures
        Instruction::Ping.spec_code() == 0x01,
        Instruction::Read.spec_code() == 0x02,
        Instruction::Write.spec_code() == 0x03,
        Instruction::RegWrite.spec_code() == 0x04,
        Instruction::RegAction.spec_code() == 0x05,
        Instruction::Reset.spec_code() == 0x06,
        Instruction::SyncRead.spec_code() == 0x82,
        Instruction::SyncWrite.spec_code() == 0x83,
{
}

/// Registers the operations of the two series address.
pub proof fn lemma_register_addresses()
    ensures
        crate::registers::sc_device::ID == 0x05,
        crate::registers::sc_device::MAXIMUM_TEMPERATURE == 0x0D,
        crate::registers::sc_device::MAXIMUM_INPUT_VOLTAGE == 0x0E,
        crate::registers::sc_device::MINIMUM_INPUT_VOLTAGE == 0x0F,
        crate::registers::sc_device::MAXIMUM_TORQUE == 0x10,
        crate::registers::sc_device::P_COEFFICIENT == 0x15,
        crate::registers::sc_device::D_COEFFICIENT == 0x16,
        crate::registers::sc_device::TORQUE_SWITCH == 0x28,
        crate::registers::sc_device::TARGET_POSITION == 0x2A,
        crate::registers::sc_device::GOAL_TIME == 0x2C,
        crate::registers::sc_device::LOCK_FLAG == 0x30,
        crate::registers::sc_device::CURRENT_POSITION == 0x38,
        crate::registers::sc_device::CURRENT_SPEED == 0x3A,
        crate::registers::sc_device::CURRENT_LOAD == 0x3C,
        crate::registers::sc_device::CURRENT_VOLTAGE == 0x3E,
        crate::registers::sc_device::CURRENT_TEMPERATURE == 0x3F,
        crate::registers::sc_device::MOVE_FLAG == 0x42,
        crate::registers::sc_device::CURRENT_CURRENT == 0x45,
        crate::registers::sts_device::ID == 0x05,
        crate::registers::sts_device::MAXIMUM_TEMPERATURE == 0x0D,
        crate::registers::sts_device::MAXIMUM_INPUT_VOLTAGE == 0x0E,
        crate::registers::sts_device::MINIMUM_INPUT_VOLTAGE == 0x0F,
        crate::registers::sts_device::MAXIMUM_TORQUE == 0x10,
        crate::registers::sts_device::P_COEFFICIENT == 0x15,
        crate::registers::sts_device::D_COEFFICIENT == 0x16,
        crate::registers::sts_device::I_COEFFICIENT == 0x17,
        crate::registers::sts_device::OFFSET == 0x1F,
        crate::registers::sts_device::MODE == 0x21,
        crate::registers::sts_device::TORQUE_SWITCH == 0x28,
        crate::registers::sts_device::ACCELERATION == 0x29,
        crate::registers::sts_device::TARGET_POSITION == 0x2A,
        crate::registers::sts_device::TORQUE_LIMIT == 0x30,
        crate::registers::sts_device::LOCK_FLAG == 0x37,
        crate::registers::sts_device::CURRENT_POSITION == 0x38,
        crate::registers::sts_device::CURRENT_SPEED == 0x3A,
        crate::registers::sts_device::CURRENT_LOAD == 0x3C,
        crate::registers::sts_device::CURRENT_VOLTAGE == 0x3E,
        crate::registers::sts_device::CURRENT_TEMPERATURE == 0x3F,
        crate::registers::sts_device::MOVE_FLAG == 0x42,
        crate::registers::sts_device::CURRENT_CURRENT == 0x45,
        crate::registers::addr::TARGET_POSITION == 0x2A,
        crate::registers::addr::CURRENT_POSITION == 0x38,
{
}

} // verus!
