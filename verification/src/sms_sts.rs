//! SMS/STS series servo bus (STS3215, etc.).
//!
//! Magnetic encoder servos using little-endian wire format.
//!
//! Positions and speeds are sign-and-magnitude words with the sign at bit 15;
//! the position offset keeps its sign at bit 11 and adds 2048 with bit 12.

use vstd::prelude::*;

use crate::access::{
    access_views, chain_done, chain_outcome, eeprom_done, eeprom_outcome, mapped, read_access, write_access, Access,
    RegisterAccess,
};
use crate::error::ProtocolError;
use crate::registers::sts_device::{
    OperatingMode, SmsStsDevice, TorqueMode as SmsTorqueMode, ACCELERATION, CURRENT_CURRENT, CURRENT_LOAD,
    CURRENT_POSITION, CURRENT_SPEED, CURRENT_TEMPERATURE, CURRENT_VOLTAGE, D_COEFFICIENT, FW_MAJOR_VERSION,
    FW_MINOR_VERSION, ID, I_COEFFICIENT, LOCK_FLAG, MAXIMUM_ANGLE, MAXIMUM_INPUT_VOLTAGE, MAXIMUM_TEMPERATURE,
    MAXIMUM_TORQUE, MINIMUM_ANGLE, MINIMUM_INPUT_VOLTAGE, MODE, MOVE_FLAG, OFFSET, P_COEFFICIENT,
    SERVO_MAJOR_VERSION, SERVO_MINOR_VERSION, SERVO_STATUS, TARGET_POSITION, TORQUE_LIMIT, TORQUE_SWITCH,
};
use crate::registers::{addr, TorqueMode};
use crate::series::{ServoMode, ServoTelemetry};
use crate::sms_sts_constants::SMS_STS_MAX_POSITION_STEPS;
use crate::sync::{
    entry_view, entry_views, fill_sync_raw_payload, fill_sync_torque_mode_payload, pack_entries, packed,
    packed_sync_write_done, raw_entry, torque_mode_entry, PAYLOAD_CAPACITY,
};
use crate::types::{
    Instruction, ScsStatus, SmsPositionMove, SmsPositionMoveEx, SmsServoState, SmsSpeedCommand, SmsStsOperatingMode,
    SmsTorqueLimitCommand, SyncWriteData, TorqueModeCommand,
};
use crate::uart::{
    added, extends, is_unicast, spans, sync_read_effect, transfer_effect, unit_of, LinkEvent, SerialLink,
    UartBusInterface, VersionInformation,
};
use crate::wire::{bit, bit_of, from_le16, le16, u16_from_le, u16_to_le};
use crate::{
    current_of, decode_current, decode_load, decode_speed, load_of, magnitude, sign15_value, sign_magnitude,
    speed_of, unsigned_magnitude, BROADCAST_ID, MAX_SERVO_ID, MAX_TORQUE_VALUE,
};

verus! {

/// Sign flag of positions and speeds.
const BIT_15_SIGN: u16 = 0x8000;

/// Magnitude mask of positions and speeds.
const BIT_15_VALUE: u16 = 0x7FFF;

/// A position or speed as a sign-and-magnitude word (bit 15 = sign); `None`
/// for `-32768`, whose magnitude does not fit.
pub open spec fn signed15_word(v: i16) -> Option<u16> {
    sign_magnitude(v, 0x7FFF, 0x8000)
}

/// The signed position of a bit-15 sign-and-magnitude word.
pub open spec fn position_of(raw: u16) -> i16 {
    sign15_value(raw) as i16
}

/// The offset register word of `v`: bit 11 is the sign, bit 12 adds 2048 to
/// the magnitude in the low 11 bits; `None` when `|v| > 4095`.
pub open spec fn offset_word(v: i16) -> Option<u16> {
    if magnitude(v) > 4095 {
        None
    } else {
        let m = magnitude(v);
        let high: nat = if m >= 2048 { 0x1000 } else { 0 };
        let sign: nat = if v < 0 { 0x0800 } else { 0 };
        Some((high + sign + m % 2048) as u16)
    }
}

/// The offset an offset register word denotes; `None` above `0x1FFF`.
pub open spec fn offset_value(raw: u16) -> Option<i16> {
    if raw > 0x1FFF {
        None
    } else {
        let low = raw % 2048;
        let mag: int = if (raw / 0x1000) % 2 == 1 { low + 2048 } else { low as int };
        Some((if (raw / 0x0800) % 2 == 1 { -mag } else { mag }) as i16)
    }
}

/// The 6 data bytes of a position command, from the target position on:
/// position, goal time (always 0), speed; `None` when the position does not fit.
pub open spec fn position_payload(position: i16, speed: u16) -> Option<Seq<u8>> {
    match signed15_word(position) {
        Some(p) => Some(le16(p) + seq![0u8, 0u8] + le16(speed)),
        None => None,
    }
}

/// The sync-write entry of a position move.
pub open spec fn position_entry(m: SmsPositionMove) -> Option<Seq<u8>> {
    match position_payload(m.position, m.speed) {
        Some(d) => Some(seq![m.id] + d),
        None => None,
    }
}

/// The sync-write entry of a position move with acceleration, from the
/// acceleration register on; `None` when a setting is out of range.
pub open spec fn position_ex_entry(m: SmsPositionMoveEx) -> Option<Seq<u8>> {
    if m.acceleration > 254 {
        None
    } else {
        match position_payload(m.position, m.speed) {
            Some(d) => Some(seq![m.id, m.acceleration] + d),
            None => None,
        }
    }
}

/// The sync-write entry of a wheel-mode speed command, from the acceleration
/// register on: acceleration, position and time (both 0), speed.
pub open spec fn speed_entry(c: SmsSpeedCommand) -> Option<Seq<u8>> {
    if c.acceleration > 254 {
        None
    } else {
        match signed15_word(c.speed) {
            Some(s) => Some(seq![c.id, c.acceleration, 0u8, 0u8, 0u8, 0u8] + le16(s)),
            None => None,
        }
    }
}

/// The sync-write entry of a torque-limit command; `None` above 1000.
pub open spec fn torque_limit_entry(c: SmsTorqueLimitCommand) -> Option<Seq<u8>> {
    if c.limit > MAX_TORQUE_VALUE {
        None
    } else {
        Some(seq![c.id] + le16(c.limit))
    }
}

/// The series mode a register mode denotes; `None` for unknown values.
pub open spec fn series_mode(mode: OperatingMode) -> Option<SmsStsOperatingMode> {
    match mode {
        OperatingMode::Position => Some(SmsStsOperatingMode::Position),
        OperatingMode::Wheel => Some(SmsStsOperatingMode::Wheel),
        OperatingMode::PwmOpenLoop => Some(SmsStsOperatingMode::PwmOpenLoop),
        OperatingMode::Step => Some(SmsStsOperatingMode::Step),
        OperatingMode::Unknown(_) => None,
    }
}

/// The register mode of a series mode.
pub open spec fn register_mode(mode: SmsStsOperatingMode) -> OperatingMode {
    match mode {
        SmsStsOperatingMode::Position => OperatingMode::Position,
        SmsStsOperatingMode::Wheel => OperatingMode::Wheel,
        SmsStsOperatingMode::PwmOpenLoop => OperatingMode::PwmOpenLoop,
        SmsStsOperatingMode::Step => OperatingMode::Step,
    }
}

/// The servo state in the 8 bytes of a sync-read chunk, from the current position on.
pub open spec fn state_of(id: u8, c: Seq<u8>) -> SmsServoState {
    SmsServoState {
        id,
        position_raw: position_of(from_le16(c.subrange(0, 2))),
        speed_raw: speed_of(from_le16(c.subrange(2, 4))),
        load_raw: load_of(from_le16(c.subrange(4, 6))),
        voltage_raw: c[6],
        temperature_raw: c[7],
    }
}

/// The version registers read, in order.
pub open spec fn version_accesses() -> Seq<RegisterAccess> {
    seq![
        read_access(FW_MAJOR_VERSION, 1),
        read_access(FW_MINOR_VERSION, 1),
        read_access(SERVO_MAJOR_VERSION, 1),
        read_access(SERVO_MINOR_VERSION, 1),
    ]
}

/// The version bytes read by [`version_accesses`].
pub open spec fn version_of(vs: Seq<Seq<u8>>) -> VersionInformation {
    VersionInformation {
        firmware_major: vs[0][0],
        firmware_minor: vs[1][0],
        servo_major: vs[2][0],
        servo_minor: vs[3][0],
    }
}

/// Angle limits are valid: both zero, or `min < max <= 4095`.
pub open spec fn angle_limits_valid(min: u16, max: u16) -> bool {
    (min == 0 && max == 0) || (min < max && max <= SMS_STS_MAX_POSITION_STEPS)
}

/// The EEPROM writes of an angle-limit change.
pub open spec fn angle_limit_accesses(min: u16, max: u16) -> Seq<RegisterAccess> {
    seq![write_access(MINIMUM_ANGLE, le16(min)), write_access(MAXIMUM_ANGLE, le16(max))]
}

/// The EEPROM write that selects operating mode `mode`.
pub open spec fn mode_accesses(mode: SmsStsOperatingMode) -> Seq<RegisterAccess> {
    seq![write_access(MODE, seq![register_mode(mode).spec_raw()])]
}

/// The series mode of a servo mode.
pub open spec fn series_mode_of(mode: ServoMode) -> SmsStsOperatingMode {
    match mode {
        ServoMode::Wheel => SmsStsOperatingMode::Wheel,
        ServoMode::Position => SmsStsOperatingMode::Position,
    }
}

/// The result of reading the operating-mode register: an unknown value is an
/// invalid setting.
pub open spec fn operating_mode_result<E>(o: Result<Seq<Seq<u8>>, ProtocolError<E>>) -> Result<
    SmsStsOperatingMode,
    ProtocolError<E>,
> {
    match o {
        Err(e) => Err(e),
        Ok(vs) => match series_mode(OperatingMode::spec_from_raw(vs[0][0])) {
            Some(m) => Ok(m),
            None => Err(ProtocolError::InvalidSetting),
        },
    }
}

/// A series mode as a servo mode: open-loop PWM and step modes are an invalid setting.
pub open spec fn servo_mode_result<E>(r: Result<SmsStsOperatingMode, ProtocolError<E>>) -> Result<
    ServoMode,
    ProtocolError<E>,
> {
    match r {
        Err(e) => Err(e),
        Ok(SmsStsOperatingMode::Wheel) => Ok(ServoMode::Wheel),
        Ok(SmsStsOperatingMode::Position) => Ok(ServoMode::Position),
        Ok(_) => Err(ProtocolError::InvalidSetting),
    }
}

/// The result of reading the offset register: a word above `0x1FFF` is an invalid setting.
pub open spec fn offset_result<E>(o: Result<Seq<Seq<u8>>, ProtocolError<E>>) -> Result<i16, ProtocolError<E>> {
    match o {
        Err(e) => Err(e),
        Ok(vs) => match offset_value(from_le16(vs[0])) {
            Some(v) => Ok(v),
            None => Err(ProtocolError::InvalidSetting),
        },
    }
}

/// Setting a servo mode and reading it back gives that mode: the value that
/// [`SmsStsBus::blocking_set_operating_mode`] writes to the mode register (see
/// [`mode_accesses`]) is read by [`SmsStsBus::blocking_read_mode`] as the same
/// mode, when the servo still holds it.
pub proof fn lemma_mode_round_trip<E>(mode: ServoMode)
    ensures
        servo_mode_result(
            operating_mode_result::<E>(Ok(seq![mode_accesses(series_mode_of(mode))[0]->Write_data])),
        ) == Ok::<ServoMode, ProtocolError<E>>(mode),
{
    let d = mode_accesses(series_mode_of(mode))[0]->Write_data;
    assert(seq![d][0][0] == register_mode(series_mode_of(mode)).spec_raw());
}

/// The registers a full state read covers, in order.
pub open spec fn state_accesses() -> Seq<RegisterAccess> {
    seq![
        read_access(CURRENT_POSITION, 2),
        read_access(CURRENT_SPEED, 2),
        read_access(CURRENT_LOAD, 2),
        read_access(CURRENT_VOLTAGE, 1),
        read_access(CURRENT_TEMPERATURE, 1),
        read_access(MOVE_FLAG, 1),
        read_access(CURRENT_CURRENT, 2),
    ]
}

/// The telemetry the registers of [`state_accesses`] hold.
pub open spec fn telemetry_of(vs: Seq<Seq<u8>>) -> ServoTelemetry {
    ServoTelemetry {
        position_raw: position_of(from_le16(vs[0])),
        speed_raw: speed_of(from_le16(vs[1])),
        load_raw: load_of(from_le16(vs[2])),
        voltage_raw: vs[3][0],
        temperature_raw: vs[4][0],
        current_raw: Some(current_of(from_le16(vs[6]))),
        moving: bit(vs[5][0], 0),
    }
}

/// The status flags of status byte `b` of servo `id`.
pub open spec fn status_of(id: u8, b: u8) -> ScsStatus {
    ScsStatus {
        id,
        voltage_error: bit(b, 0),
        temperature_error: bit(b, 2),
        overload_error: bit(b, 5),
        magnetic_error: bit(b, 1),
        current_error: bit(b, 3),
    }
}

/// Servo bus for SMS_STS series (STS3215, etc.).
///
/// Uses little-endian wire format.
pub struct SmsStsBus<L: SerialLink> {
    device: SmsStsDevice<L>,
}

/// Encode signed position to hardware format (bit 15 = sign).
///
/// Positive: `0x0000..=0x7FFF`; negative: `0x8001..=0xFFFF`; `None` for `-32768`.
pub fn encode_signed_position(position: i16) -> (r: Option<u16>)
    ensures
        r == signed15_word(position),
{
    let magnitude = unsigned_magnitude(position);
    if magnitude > BIT_15_VALUE {
        return None;
    }
    if position < 0 {
        assert(magnitude <= 0x7FFF ==> 0x8000u16 | magnitude == 0x8000 + magnitude) by (bit_vector);
        Some(BIT_15_SIGN | magnitude)
    } else {
        Some(magnitude)
    }
}

/// Encode signed speed to hardware format (bit 15 = sign); `None` for `-32768`.
pub fn encode_signed_speed(speed: i16) -> (r: Option<u16>)
    ensures
        r == signed15_word(speed),
{
    let magnitude = unsigned_magnitude(speed);
    if magnitude > BIT_15_VALUE {
        return None;
    }
    if speed < 0 {
        assert(magnitude <= 0x7FFF ==> 0x8000u16 | magnitude == 0x8000 + magnitude) by (bit_vector);
        Some(BIT_15_SIGN | magnitude)
    } else {
        Some(magnitude)
    }
}

/// Decode signed position from hardware format (bit 15 = sign).
pub fn decode_signed_position(pos_raw: u16) -> (p: i16)
    ensures
        p as int == sign15_value(pos_raw),
        p == position_of(pos_raw),
{
    if pos_raw & BIT_15_SIGN != 0 {
        assert(pos_raw & 0x8000 != 0 ==> pos_raw >= 0x8000 && (pos_raw & 0x7FFF) == pos_raw - 0x8000) by (bit_vector);
        -((pos_raw & BIT_15_VALUE) as i16)
    } else {
        assert(pos_raw & 0x8000 == 0 ==> pos_raw < 0x8000) by (bit_vector);
        pos_raw as i16
    }
}

/// Encode a position offset (see [`offset_word`]); `None` when `|offset| > 4095`.
pub fn encode_offset(offset: i16) -> (r: Option<u16>)
    ensures
        r == offset_word(offset),
{
    let magnitude = unsigned_magnitude(offset);
    if magnitude > 4095 {
        return None;
    }
    if offset >= 0 {
        if magnitude < 2048 {
            Some(magnitude)
        } else {
            let low = magnitude - 2048;
            assert(low < 2048 ==> 0x1000u16 | low == 0x1000 + low) by (bit_vector);
            Some(0x1000 | low)
        }
    } else if magnitude < 2048 {
        assert(magnitude < 2048 ==> 0x0800u16 | magnitude == 0x0800 + magnitude) by (bit_vector);
        Some(0x0800 | magnitude)
    } else {
        let low = magnitude - 2048;
        assert(low < 2048 ==> 0x1800u16 | low == 0x1800 + low) by (bit_vector);
        Some(0x1800 | low)
    }
}

/// Decode a position offset (see [`offset_value`]); `None` above `0x1FFF`.
pub fn decode_offset(raw: u16) -> (r: Option<i16>)
    ensures
        r == offset_value(raw),
{
    if raw > 0x1FFF {
        return None;
    }
    let magnitude = raw & 0x07FF;
    let kind = raw & 0x1800;
    assert(magnitude == raw % 2048 && magnitude < 2048) by (bit_vector)
        requires
            magnitude == raw & 0x07FF,
    ;
    assert(raw <= 0x1FFF ==> (kind == 0 <==> ((raw / 0x1000) % 2 == 0 && (raw / 0x0800) % 2 == 0))) by (bit_vector)
        requires
            kind == raw & 0x1800,
    ;
    assert(raw <= 0x1FFF ==> (kind == 0x0800 <==> ((raw / 0x1000) % 2 == 0 && (raw / 0x0800) % 2 == 1))) by (bit_vector)
        requires
            kind == raw & 0x1800,
    ;
    assert(raw <= 0x1FFF ==> (kind == 0x1000 <==> ((raw / 0x1000) % 2 == 1 && (raw / 0x0800) % 2 == 0))) by (bit_vector)
        requires
            kind == raw & 0x1800,
    ;
    if kind == 0x0000 {
        Some(magnitude as i16)
    } else if kind == 0x0800 {
        Some(-(magnitude as i16))
    } else if kind == 0x1000 {
        Some((magnitude + 2048) as i16)
    } else {
        Some(-((magnitude + 2048) as i16))
    }
}

/// Encoding and decoding a position are inverse: every position but
/// `-32768` comes back from its word.
pub proof fn lemma_position_round_trip(v: i16)
    requires
        signed15_word(v) is Some,
    ensures
        position_of(signed15_word(v).unwrap()) == v,
{
}

/// Every position word but `0x8000` (a negative zero) is the encoding of the
/// position it denotes.
pub proof fn lemma_position_word_round_trip(raw: u16)
    requires
        raw != 0x8000,
    ensures
        signed15_word(position_of(raw)) == Some(raw),
{
}

/// Encoding and decoding an offset are inverse for every offset in range.
pub proof fn lemma_offset_round_trip(v: i16)
    requires
        offset_word(v) is Some,
    ensures
        offset_value(offset_word(v).unwrap()) == Some(v),
{
}

/// Every offset word up to `0x1FFF` but `0x0800` (a negative zero) is the
/// encoding of the offset it denotes.
pub proof fn lemma_offset_word_round_trip(raw: u16)
    requires
        raw <= 0x1FFF,
        raw != 0x0800,
    ensures
        offset_value(raw) matches Some(v) && offset_word(v) == Some(raw),
{
}

/// Maps the operating-mode register to the series modes; `None` for unknown values.
pub fn from_register_operating_mode(mode: OperatingMode) -> (r: Option<SmsStsOperatingMode>)
    ensures
        r == series_mode(mode),
{
    match mode {
        OperatingMode::Position => Some(SmsStsOperatingMode::Position),
        OperatingMode::Wheel => Some(SmsStsOperatingMode::Wheel),
        OperatingMode::PwmOpenLoop => Some(SmsStsOperatingMode::PwmOpenLoop),
        OperatingMode::Step => Some(SmsStsOperatingMode::Step),
        OperatingMode::Unknown(_) => None,
    }
}

/// Maps a series mode to its operating-mode register value.
pub fn to_register_operating_mode(mode: SmsStsOperatingMode) -> (r: OperatingMode)
    ensures
        r == register_mode(mode),
{
    match mode {
        SmsStsOperatingMode::Position => OperatingMode::Position,
        SmsStsOperatingMode::Wheel => OperatingMode::Wheel,
        SmsStsOperatingMode::PwmOpenLoop => OperatingMode::PwmOpenLoop,
        SmsStsOperatingMode::Step => OperatingMode::Step,
    }
}

/// Every series mode comes back from its register value, and every known
/// register value from its series mode.
pub proof fn lemma_operating_mode_round_trip(mode: SmsStsOperatingMode, raw: u8)
    ensures
        series_mode(register_mode(mode)) == Some(mode),
        series_mode(OperatingMode::spec_from_raw(register_mode(mode).spec_raw())) == Some(mode),
        series_mode(OperatingMode::spec_from_raw(raw)) matches Some(m) ==> register_mode(m).spec_raw() == raw,
{
}

/// The data bytes of a position command: position, goal time (always 0),
/// speed, little-endian; `None` when the position does not fit.
pub fn encode_position_payload(position: i16, _time: u16, speed: u16) -> (r: Option<[u8; 6]>)
    ensures
        match position_payload(position, speed) {
            Some(d) => r is Some && r->0@ == d,
            None => r is None,
        },
{
    let p = match encode_signed_position(position) {
        Some(p) => u16_to_le(p),
        None => {
            return None;
        },
    };
    let s = u16_to_le(speed);
    let b = [p[0], p[1], 0, 0, s[0], s[1]];
    proof {
        assert(b@ =~= le16(signed15_word(position).unwrap()) + seq![0u8, 0u8] + le16(speed));
    }
    Some(b)
}

/// Packs the position moves of a sync write; returns the data length per
/// servo and the payload length.
pub fn fill_sync_position_payload<E>(moves: &[SmsPositionMove], payload: &mut [u8; 256]) -> (r: Result<(u8, usize), ProtocolError<E>>)
    ensures
        packed(moves@.map_values(|m: SmsPositionMove| position_entry(m)), 7, true, 6, r, final(payload)@),
{
    let mut entries: Vec<Option<Vec<u8>>> = Vec::new();
    let mut i: usize = 0;
    while i < moves.len()
        invariant
            i <= moves@.len(),
            entry_views(entries@) == moves@.take(i as int).map_values(|m: SmsPositionMove| position_entry(m)),
            forall|k: int| 0 <= k < entries@.len() && (#[trigger] entries@[k]) is Some ==> entries@[k]->0@.len() == 7,
        decreases moves@.len() - i,
    {
        let m = moves[i];
        let entry = match encode_position_payload(m.position, m.time, m.speed) {
            Some(d) => {
                let prefix = [m.id];
                proof {
                    assert(prefix@ + d@ =~= seq![m.id] + d@);
                }
                Some(entry_from(prefix.as_slice(), d.as_slice()))
            },
            None => None,
        };
        let ghost old_entries = entries@;
        proof {
            assert(entry_view(entry) == position_entry(m));
        }
        entries.push(entry);
        proof {
            assert(moves@.take(i + 1) =~= moves@.take(i as int).push(m));
            assert(entry_views(entries@) =~= entry_views(old_entries).push(position_entry(m)));
            assert(entry_views(entries@) =~= moves@.take(i + 1).map_values(|m: SmsPositionMove| position_entry(m)));
        }
        i = i + 1;
    }
    proof {
        assert(moves@.take(i as int) =~= moves@);
    }
    match pack_entries::<E>(entries.as_slice(), 7, true, payload) {
        Ok(len) => Ok((6, len)),
        Err(e) => Err(e),
    }
}

/// Packs the position moves with acceleration of a sync write; returns the
/// data length per servo and the payload length.
pub fn fill_sync_position_ex_payload<E>(moves: &[SmsPositionMoveEx], payload: &mut [u8; 256]) -> (r: Result<(u8, usize), ProtocolError<E>>)
    ensures
        packed(moves@.map_values(|m: SmsPositionMoveEx| position_ex_entry(m)), 8, true, 7, r, final(payload)@),
{
    let mut entries: Vec<Option<Vec<u8>>> = Vec::new();
    let mut i: usize = 0;
    while i < moves.len()
        invariant
            i <= moves@.len(),
            entry_views(entries@) == moves@.take(i as int).map_values(|m: SmsPositionMoveEx| position_ex_entry(m)),
            forall|k: int| 0 <= k < entries@.len() && (#[trigger] entries@[k]) is Some ==> entries@[k]->0@.len() == 8,
        decreases moves@.len() - i,
    {
        let m = moves[i];
        let entry = if m.acceleration > 254 {
            None
        } else {
            match encode_position_payload(m.position, m.time, m.speed) {
                Some(d) => {
                    let prefix = [m.id, m.acceleration];
                    proof {
                        assert(prefix@ + d@ =~= seq![m.id, m.acceleration] + d@);
                    }
                    Some(entry_from(prefix.as_slice(), d.as_slice()))
                },
                None => None,
            }
        };
        let ghost old_entries = entries@;
        proof {
            assert(entry_view(entry) == position_ex_entry(m));
        }
        entries.push(entry);
        proof {
            assert(moves@.take(i + 1) =~= moves@.take(i as int).push(m));
            assert(entry_views(entries@) =~= entry_views(old_entries).push(position_ex_entry(m)));
            assert(entry_views(entries@) =~= moves@.take(i + 1).map_values(|m: SmsPositionMoveEx| position_ex_entry(m)));
        }
        i = i + 1;
    }
    proof {
        assert(moves@.take(i as int) =~= moves@);
    }
    match pack_entries::<E>(entries.as_slice(), 8, true, payload) {
        Ok(len) => Ok((7, len)),
        Err(e) => Err(e),
    }
}

/// Packs the wheel-mode speed commands of a sync write; returns the data
/// length per servo and the payload length.
pub fn fill_sync_speed_payload<E>(commands: &[SmsSpeedCommand], payload: &mut [u8; 256]) -> (r: Result<(u8, usize), ProtocolError<E>>)
    ensures
        packed(commands@.map_values(|c: SmsSpeedCommand| speed_entry(c)), 8, true, 7, r, final(payload)@),
{
    let mut entries: Vec<Option<Vec<u8>>> = Vec::new();
    let mut i: usize = 0;
    while i < commands.len()
        invariant
            i <= commands@.len(),
            entry_views(entries@) == commands@.take(i as int).map_values(|c: SmsSpeedCommand| speed_entry(c)),
            forall|k: int| 0 <= k < entries@.len() && (#[trigger] entries@[k]) is Some ==> entries@[k]->0@.len() == 8,
        decreases commands@.len() - i,
    {
        let c = commands[i];
        let entry = if c.acceleration > 254 {
            None
        } else {
            match encode_signed_speed(c.speed) {
                Some(w) => {
                    let prefix = [c.id, c.acceleration, 0, 0, 0, 0];
                    let bytes = u16_to_le(w);
                    proof {
                        assert(prefix@ + bytes@ =~= seq![c.id, c.acceleration, 0u8, 0u8, 0u8, 0u8] + le16(w));
                    }
                    Some(entry_from(prefix.as_slice(), bytes.as_slice()))
                },
                None => None,
            }
        };
        let ghost old_entries = entries@;
        proof {
            assert(entry_view(entry) == speed_entry(c));
        }
        entries.push(entry);
        proof {
            assert(commands@.take(i + 1) =~= commands@.take(i as int).push(c));
            assert(entry_views(entries@) =~= entry_views(old_entries).push(speed_entry(c)));
            assert(entry_views(entries@) =~= commands@.take(i + 1).map_values(|c: SmsSpeedCommand| speed_entry(c)));
        }
        i = i + 1;
    }
    proof {
        assert(commands@.take(i as int) =~= commands@);
    }
    match pack_entries::<E>(entries.as_slice(), 8, true, payload) {
        Ok(len) => Ok((7, len)),
        Err(e) => Err(e),
    }
}

/// Packs the torque-limit commands of a sync write; returns the data length
/// per servo and the payload length.
pub fn fill_sync_torque_limit_payload<E>(commands: &[SmsTorqueLimitCommand], payload: &mut [u8; 256]) -> (r: Result<(u8, usize), ProtocolError<E>>)
    ensures
        packed(commands@.map_values(|c: SmsTorqueLimitCommand| torque_limit_entry(c)), 3, true, 2, r, final(payload)@),
{
    let mut entries: Vec<Option<Vec<u8>>> = Vec::new();
    let mut i: usize = 0;
    while i < commands.len()
        invariant
            i <= commands@.len(),
            entry_views(entries@) == commands@.take(i as int).map_values(|c: SmsTorqueLimitCommand| torque_limit_entry(c)),
            forall|k: int| 0 <= k < entries@.len() && (#[trigger] entries@[k]) is Some ==> entries@[k]->0@.len() == 3,
        decreases commands@.len() - i,
    {
        let c = commands[i];
        let entry = if c.limit > MAX_TORQUE_VALUE {
            None
        } else {
            let prefix = [c.id];
            let bytes = u16_to_le(c.limit);
            proof {
                assert(prefix@ + bytes@ =~= seq![c.id] + le16(c.limit));
            }
            Some(entry_from(prefix.as_slice(), bytes.as_slice()))
        };
        let ghost old_entries = entries@;
        proof {
            assert(entry_view(entry) == torque_limit_entry(c));
        }
        entries.push(entry);
        proof {
            assert(commands@.take(i + 1) =~= commands@.take(i as int).push(c));
            assert(entry_views(entries@) =~= entry_views(old_entries).push(torque_limit_entry(c)));
            assert(entry_views(entries@) =~= commands@.take(i + 1).map_values(|c: SmsTorqueLimitCommand| torque_limit_entry(c)));
        }
        i = i + 1;
    }
    proof {
        assert(commands@.take(i as int) =~= commands@);
    }
    match pack_entries::<E>(entries.as_slice(), 3, true, payload) {
        Ok(len) => Ok((2, len)),
        Err(e) => Err(e),
    }
}

/// Decodes an 8-byte sync-read chunk (position, speed, load, voltage, temperature).
pub fn parse_state_chunk(id: u8, chunk: &[u8]) -> (s: SmsServoState)
    requires
        chunk@.len() >= 8,
    ensures
        s == state_of(id, chunk@),
{
    let position_raw = u16_from_le(chunk[0], chunk[1]);
    let speed_raw = u16_from_le(chunk[2], chunk[3]);
    let load_raw = u16_from_le(chunk[4], chunk[5]);
    proof {
        assert(chunk@.subrange(0, 2) =~= seq![chunk@[0], chunk@[1]]);
        assert(chunk@.subrange(2, 4) =~= seq![chunk@[2], chunk@[3]]);
        assert(chunk@.subrange(4, 6) =~= seq![chunk@[4], chunk@[5]]);
    }
    SmsServoState {
        id,
        position_raw: decode_signed_position(position_raw),
        speed_raw: decode_speed(speed_raw),
        load_raw: decode_load(load_raw),
        voltage_raw: chunk[6],
        temperature_raw: chunk[7],
    }
}

/// Copies `bytes` after `prefix` into a new entry.
fn entry_from(prefix: &[u8], bytes: &[u8]) -> (e: Vec<u8>)
    ensures
        e@ == prefix@ + bytes@,
{
    let mut e: Vec<u8> = Vec::new();
    let mut i: usize = 0;
    while i < prefix.len()
        invariant
            i <= prefix@.len(),
            e@ == prefix@.take(i as int),
        decreases prefix@.len() - i,
    {
        proof {
            assert(prefix@.take(i + 1) =~= prefix@.take(i as int).push(prefix@[i as int]));
        }
        e.push(prefix[i]);
        i = i + 1;
    }
    let mut j: usize = 0;
    proof {
        assert(prefix@.take(i as int) =~= prefix@);
    }
    while j < bytes.len()
        invariant
            j <= bytes@.len(),
            e@ == prefix@ + bytes@.take(j as int),
        decreases bytes@.len() - j,
    {
        proof {
            assert(bytes@.take(j + 1) =~= bytes@.take(j as int).push(bytes@[j as int]));
        }
        e.push(bytes[j]);
        j = j + 1;
    }
    proof {
        assert(bytes@.take(j as int) =~= bytes@);
    }
    e
}

/// The little-endian word in the 2 bytes of `v`.
fn le_word(v: &Vec<u8>) -> (w: u16)
    requires
        v@.len() == 2,
    ensures
        w == from_le16(v@),
{
    proof {
        assert(v@ =~= seq![v@[0], v@[1]]);
    }
    u16_from_le(v[0], v[1])
}

impl<L: SerialLink> SmsStsBus<L> {
    /// The packet layer under this bus.
    pub closed spec fn uart(&self) -> UartBusInterface<L> {
        self.device.interface
    }

    /// The register map under this bus.
    pub closed spec fn device_state(&self) -> SmsStsDevice<L> {
        self.device
    }

    pub fn new(interface: L) -> (bus: Self)
        ensures
            bus.uart().link() == interface,
            bus.uart().bus_id() is None,
            bus.uart().status_level(),
            bus.uart().history() == Seq::<LinkEvent<L::Error>>::empty(),
    {
        let uart = UartBusInterface::new(interface);
        let device = SmsStsDevice::new(uart);
        SmsStsBus { device }
    }

    /// The register map under this bus.
    pub fn inner_mut(&mut self) -> (d: &mut SmsStsDevice<L>)
        ensures
            *d == old(self).device_state(),
            final(self).device_state() == *final(d),
    {
        &mut self.device
    }

    pub fn set_response_status_level(&mut self, enabled: bool)
        ensures
            final(self).uart().status_level() == enabled,
            final(self).uart().bus_id() == old(self).uart().bus_id(),
            final(self).uart().history() == old(self).uart().history(),
            final(self).uart().link() == old(self).uart().link(),
    {
        self.device.interface.set_response_status_level(enabled);
    }

    /// Reads the firmware and servo version bytes of servo `id`.
    pub fn blocking_read_version(&mut self, id: u8) -> (r: Result<VersionInformation, ProtocolError<L::Error>>)
        ensures
            chain_done(final(self).uart(), old(self).uart(), id, version_accesses()),
            r == mapped(
                chain_outcome(final(self).uart(), old(self).uart(), id, version_accesses()),
                |vs: Seq<Seq<u8>>| version_of(vs),
            ),
    {
        let accesses = [
            Access::read(FW_MAJOR_VERSION, 1),
            Access::read(FW_MINOR_VERSION, 1),
            Access::read(SERVO_MAJOR_VERSION, 1),
            Access::read(SERVO_MINOR_VERSION, 1),
        ];
        proof {
            assert(access_views(accesses@) =~= version_accesses());
        }
        let vs = match self.device.interface.run_chain_on(id, accesses.as_slice()) {
            Ok(vs) => vs,
            Err(e) => {
                return Err(e);
            },
        };
        proof {
            assert(version_accesses()[0] is Read);
            assert(version_accesses()[1] is Read);
            assert(version_accesses()[2] is Read);
            assert(version_accesses()[3] is Read);
        }
        Ok(VersionInformation {
            firmware_major: vs[0][0],
            firmware_minor: vs[1][0],
            servo_major: vs[2][0],
            servo_minor: vs[3][0],
        })
    }

    pub fn blocking_ping(&mut self, id: u8) -> (r: Result<(), ProtocolError<L::Error>>)
        ensures
            final(self).uart().same_config(&old(self).uart()),
            extends(old(self).uart().history(), final(self).uart().history()),
            ({
                let ev = added(old(self).uart().history(), final(self).uart().history());
                if !is_unicast(id) {
                    ev.len() == 0 && r == Err::<(), ProtocolError<L::Error>>(ProtocolError::InvalidId)
                } else {
                    let eff = transfer_effect(old(self).uart().status_level(), id, Instruction::Ping, Seq::empty(), 0, ev);
                    spans(eff, ev.len()) && r == unit_of(eff.unwrap().0)
                }
            }),
    {
        if id == BROADCAST_ID {
            proof {
                crate::uart::lemma_extends_refl(self.device.interface.history());
            }
            return Err(ProtocolError::InvalidId);
        }
        self.device.interface.blocking_ping(id)
    }

    pub fn blocking_reset(&mut self, id: u8) -> (r: Result<(), ProtocolError<L::Error>>)
        ensures
            final(self).uart().same_config(&old(self).uart()),
            extends(old(self).uart().history(), final(self).uart().history()),
            ({
                let ev = added(old(self).uart().history(), final(self).uart().history());
                let eff = transfer_effect(old(self).uart().status_level(), id, Instruction::Reset, Seq::empty(), 0, ev);
                spans(eff, ev.len()) && r == unit_of(eff.unwrap().0)
            }),
    {
        self.device.interface.blocking_reset(id)
    }

    /// Changes the ID of servo `current_id` to `new_id`; the EEPROM is locked
    /// again at the new ID.
    pub fn blocking_set_id(&mut self, current_id: u8, new_id: u8) -> (r: Result<(), ProtocolError<L::Error>>)
        ensures
            !(is_unicast(current_id) && is_unicast(new_id)) ==> r == Err::<(), ProtocolError<L::Error>>(
                ProtocolError::InvalidId,
            ) && *final(self) == *old(self),
            is_unicast(current_id) && is_unicast(new_id) ==> {
                let ev = added(old(self).uart().history(), final(self).uart().history());
                let eff = crate::access::set_id_effect(old(self).uart().status_level(), current_id, new_id, LOCK_FLAG, ID, ev);
                &&& final(self).uart().status_level() == old(self).uart().status_level()
                &&& final(self).uart().bus_id() is None
                &&& extends(old(self).uart().history(), final(self).uart().history())
                &&& spans(eff, ev.len())
                &&& r == eff.unwrap().0
            },
    {
        if current_id > MAX_SERVO_ID || new_id > MAX_SERVO_ID {
            return Err(ProtocolError::InvalidId);
        }
        self.device.interface.run_set_id(current_id, new_id, LOCK_FLAG, ID)
    }

    /// Sets the torque switch: disable, enable, or free.
    pub fn blocking_set_torque_mode(&mut self, id: u8, mode: TorqueMode) -> (r: Result<(), ProtocolError<L::Error>>)
        ensures
            chain_done(final(self).uart(), old(self).uart(), id, seq![write_access(TORQUE_SWITCH, seq![mode.spec_raw()])]),
            r == unit_of(chain_outcome(final(self).uart(), old(self).uart(), id, seq![write_access(TORQUE_SWITCH, seq![mode.spec_raw()])])),
    {
        let sms_mode = match mode {
            TorqueMode::Disable => SmsTorqueMode::Disable,
            TorqueMode::Enable => SmsTorqueMode::Enable,
            TorqueMode::Free => SmsTorqueMode::Free,
        };
        let value = [sms_mode.raw()];
        let accesses = [Access::write(TORQUE_SWITCH, value.as_slice())];
        proof {
            assert(value@ =~= seq![mode.spec_raw()]);
            assert(access_views(accesses@) =~= seq![write_access(TORQUE_SWITCH, seq![mode.spec_raw()])]);
        }
        match self.device.interface.run_chain_on(id, accesses.as_slice()) {
            Ok(_) => Ok(()),
            Err(e) => Err(e),
        }
    }

    /// Sets the angle limits (EEPROM); `0, 0` selects wheel mode.
    pub fn blocking_set_angle_limits(&mut self, id: u8, min: u16, max: u16) -> (r: Result<(), ProtocolError<L::Error>>)
        ensures
            !angle_limits_valid(min, max) ==> r == Err::<(), ProtocolError<L::Error>>(
                ProtocolError::InvalidSetting,
            ) && *final(self) == *old(self),
            angle_limits_valid(min, max) ==> eeprom_done(final(self).uart(), old(self).uart(), id, LOCK_FLAG, angle_limit_accesses(min, max))
                && r == unit_of(eeprom_outcome(final(self).uart(), old(self).uart(), id, LOCK_FLAG, angle_limit_accesses(min, max))),
    {
        if (min != 0 || max != 0) && (min >= max || max > SMS_STS_MAX_POSITION_STEPS) {
            return Err(ProtocolError::InvalidSetting);
        }
        let lo = u16_to_le(min);
        let hi = u16_to_le(max);
        let accesses = [Access::write(MINIMUM_ANGLE, lo.as_slice()), Access::write(MAXIMUM_ANGLE, hi.as_slice())];
        proof {
            assert(access_views(accesses@) =~= angle_limit_accesses(min, max));
        }
        match self.device.interface.run_eeprom_on(id, LOCK_FLAG, accesses.as_slice()) {
            Ok(_) => Ok(()),
            Err(e) => Err(e),
        }
    }

    /// Sets the input voltage limits in 0.1 V units (EEPROM).
    pub fn blocking_set_voltage_limits(&mut self, id: u8, min_voltage: u8, max_voltage: u8) -> (r: Result<(), ProtocolError<L::Error>>)
        ensures
            (min_voltage > 254 || max_voltage > 254 || min_voltage > max_voltage) ==> r == Err::<(), ProtocolError<L::Error>>(
                ProtocolError::InvalidSetting,
            ) && *final(self) == *old(self),
            !(min_voltage > 254 || max_voltage > 254 || min_voltage > max_voltage) ==> {
                let accs = seq![write_access(MINIMUM_INPUT_VOLTAGE, seq![min_voltage]), write_access(MAXIMUM_INPUT_VOLTAGE, seq![max_voltage])];
                eeprom_done(final(self).uart(), old(self).uart(), id, LOCK_FLAG, accs)
                    && r == unit_of(eeprom_outcome(final(self).uart(), old(self).uart(), id, LOCK_FLAG, accs))
            },
    {
        if min_voltage > 254 || max_voltage > 254 || min_voltage > max_voltage {
            return Err(ProtocolError::InvalidSetting);
        }
        let lo = [min_voltage];
        let hi = [max_voltage];
        let accesses = [Access::write(MINIMUM_INPUT_VOLTAGE, lo.as_slice()), Access::write(MAXIMUM_INPUT_VOLTAGE, hi.as_slice())];
        proof {
            assert(lo@ =~= seq![min_voltage]);
            assert(hi@ =~= seq![max_voltage]);
            assert(access_views(accesses@) =~= seq![write_access(MINIMUM_INPUT_VOLTAGE, seq![min_voltage]), write_access(MAXIMUM_INPUT_VOLTAGE, seq![max_voltage])]);
        }
        match self.device.interface.run_eeprom_on(id, LOCK_FLAG, accesses.as_slice()) {
            Ok(_) => Ok(()),
            Err(e) => Err(e),
        }
    }

    /// Sets the temperature limit in °C (EEPROM).
    pub fn blocking_set_max_temperature_limit(&mut self, id: u8, max_temp: u8) -> (r: Result<(), ProtocolError<L::Error>>)
        ensures
            max_temp > 100 ==> r == Err::<(), ProtocolError<L::Error>>(ProtocolError::InvalidSetting) && *final(self) == *old(self),
            max_temp <= 100 ==> eeprom_done(final(self).uart(), old(self).uart(), id, LOCK_FLAG, seq![write_access(MAXIMUM_TEMPERATURE, seq![max_temp])])
                && r == unit_of(eeprom_outcome(final(self).uart(), old(self).uart(), id, LOCK_FLAG, seq![write_access(MAXIMUM_TEMPERATURE, seq![max_temp])])),
    {
        if max_temp > 100 {
            return Err(ProtocolError::InvalidSetting);
        }
        let value = [max_temp];
        let accesses = [Access::write(MAXIMUM_TEMPERATURE, value.as_slice())];
        proof {
            assert(value@ =~= seq![max_temp]);
            assert(access_views(accesses@) =~= seq![write_access(MAXIMUM_TEMPERATURE, seq![max_temp])]);
        }
        match self.device.interface.run_eeprom_on(id, LOCK_FLAG, accesses.as_slice()) {
            Ok(_) => Ok(()),
            Err(e) => Err(e),
        }
    }

    /// Sets the torque limit in 0.1% units (EEPROM).
    pub fn blocking_set_max_torque(&mut self, id: u8, max_torque: u16) -> (r: Result<(), ProtocolError<L::Error>>)
        ensures
            max_torque > MAX_TORQUE_VALUE ==> r == Err::<(), ProtocolError<L::Error>>(ProtocolError::InvalidSetting) && *final(self) == *old(self),
            max_torque <= MAX_TORQUE_VALUE ==> eeprom_done(final(self).uart(), old(self).uart(), id, LOCK_FLAG, seq![write_access(MAXIMUM_TORQUE, le16(max_torque))])
                && r == unit_of(eeprom_outcome(final(self).uart(), old(self).uart(), id, LOCK_FLAG, seq![write_access(MAXIMUM_TORQUE, le16(max_torque))])),
    {
        if max_torque > MAX_TORQUE_VALUE {
            return Err(ProtocolError::InvalidSetting);
        }
        let value = u16_to_le(max_torque);
        let accesses = [Access::write(MAXIMUM_TORQUE, value.as_slice())];
        proof {
            assert(access_views(accesses@) =~= seq![write_access(MAXIMUM_TORQUE, le16(max_torque))]);
        }
        match self.device.interface.run_eeprom_on(id, LOCK_FLAG, accesses.as_slice()) {
            Ok(_) => Ok(()),
            Err(e) => Err(e),
        }
    }

    /// Sets the P, D and I coefficients (EEPROM), each at most 254.
    pub fn blocking_set_pid_coefficients(&mut self, id: u8, kp: u8, kd: u8, ki: u8) -> (r: Result<(), ProtocolError<L::Error>>)
        ensures
            (kp > 254 || kd > 254 || ki > 254) ==> r == Err::<(), ProtocolError<L::Error>>(ProtocolError::InvalidSetting) && *final(self) == *old(self),
            !(kp > 254 || kd > 254 || ki > 254) ==> {
                let accs = seq![write_access(P_COEFFICIENT, seq![kp]), write_access(D_COEFFICIENT, seq![kd]), write_access(I_COEFFICIENT, seq![ki])];
                eeprom_done(final(self).uart(), old(self).uart(), id, LOCK_FLAG, accs)
                    && r == unit_of(eeprom_outcome(final(self).uart(), old(self).uart(), id, LOCK_FLAG, accs))
            },
    {
        if kp > 254 || kd > 254 || ki > 254 {
            return Err(ProtocolError::InvalidSetting);
        }
        let p = [kp];
        let d = [kd];
        let i = [ki];
        let accesses = [
            Access::write(P_COEFFICIENT, p.as_slice()),
            Access::write(D_COEFFICIENT, d.as_slice()),
            Access::write(I_COEFFICIENT, i.as_slice()),
        ];
        proof {
            assert(p@ =~= seq![kp]);
            assert(d@ =~= seq![kd]);
            assert(i@ =~= seq![ki]);
            assert(access_views(accesses@) =~= seq![write_access(P_COEFFICIENT, seq![kp]), write_access(D_COEFFICIENT, seq![kd]), write_access(I_COEFFICIENT, seq![ki])]);
        }
        match self.device.interface.run_eeprom_on(id, LOCK_FLAG, accesses.as_slice()) {
            Ok(_) => Ok(()),
            Err(e) => Err(e),
        }
    }

    /// Moves servo `id` to the signed position `position`.
    pub fn blocking_write_position(&mut self, id: u8, position: i16) -> (r: Result<(), ProtocolError<L::Error>>)
        ensures
            signed15_word(position) is None ==> r == Err::<(), ProtocolError<L::Error>>(ProtocolError::InvalidSetting) && *final(self) == *old(self),
            signed15_word(position) matches Some(w) ==> chain_done(final(self).uart(), old(self).uart(), id, seq![write_access(TARGET_POSITION, le16(w))])
                && r == unit_of(chain_outcome(final(self).uart(), old(self).uart(), id, seq![write_access(TARGET_POSITION, le16(w))])),
    {
        let encoded = match encode_signed_position(position) {
            Some(w) => w,
            None => {
                return Err(ProtocolError::InvalidSetting);
            },
        };
        let value = u16_to_le(encoded);
        let accesses = [Access::write(TARGET_POSITION, value.as_slice())];
        proof {
            assert(access_views(accesses@) =~= seq![write_access(TARGET_POSITION, le16(encoded))]);
        }
        match self.device.interface.run_chain_on(id, accesses.as_slice()) {
            Ok(_) => Ok(()),
            Err(e) => Err(e),
        }
    }

    /// Reads one register of `len` bytes of servo `id`.
    fn read_one(&mut self, id: u8, address: u8, len: usize) -> (r: Result<Vec<u8>, ProtocolError<L::Error>>)
        ensures
            chain_done(final(self).uart(), old(self).uart(), id, seq![read_access(address, len as nat)]),
            match chain_outcome(final(self).uart(), old(self).uart(), id, seq![read_access(address, len as nat)]) {
                Ok(vs) => r is Ok && r->Ok_0@ == vs[0] && r->Ok_0@.len() == len,
                Err(e) => r == Err::<Vec<u8>, ProtocolError<L::Error>>(e),
            },
    {
        let accesses = [Access::read(address, len)];
        proof {
            assert(access_views(accesses@) =~= seq![read_access(address, len as nat)]);
        }
        match self.device.interface.run_chain_on(id, accesses.as_slice()) {
            Ok(vs) => {
                proof {
                    assert(seq![read_access(address, len as nat)][0] is Read);
                }
                let mut vs = vs;
                let v = vs.remove(0);
                Ok(v)
            },
            Err(e) => Err(e),
        }
    }

    /// Reads the current signed position in steps.
    pub fn blocking_read_position(&mut self, id: u8) -> (r: Result<i16, ProtocolError<L::Error>>)
        ensures
            chain_done(final(self).uart(), old(self).uart(), id, seq![read_access(CURRENT_POSITION, 2)]),
            r == mapped(chain_outcome(final(self).uart(), old(self).uart(), id, seq![read_access(CURRENT_POSITION, 2)]), |vs: Seq<Seq<u8>>| position_of(from_le16(vs[0]))),
    {
        match self.read_one(id, CURRENT_POSITION, 2) {
            Ok(v) => Ok(decode_signed_position(le_word(&v))),
            Err(e) => Err(e),
        }
    }

    /// Reads the current speed in steps/second (negative = CCW).
    pub fn blocking_read_speed(&mut self, id: u8) -> (r: Result<i16, ProtocolError<L::Error>>)
        ensures
            chain_done(final(self).uart(), old(self).uart(), id, seq![read_access(CURRENT_SPEED, 2)]),
            r == mapped(chain_outcome(final(self).uart(), old(self).uart(), id, seq![read_access(CURRENT_SPEED, 2)]), |vs: Seq<Seq<u8>>| speed_of(from_le16(vs[0]))),
    {
        match self.read_one(id, CURRENT_SPEED, 2) {
            Ok(v) => Ok(decode_speed(le_word(&v))),
            Err(e) => Err(e),
        }
    }

    /// Reads the supply voltage in 0.1 V units.
    pub fn blocking_read_voltage(&mut self, id: u8) -> (r: Result<u8, ProtocolError<L::Error>>)
        ensures
            chain_done(final(self).uart(), old(self).uart(), id, seq![read_access(CURRENT_VOLTAGE, 1)]),
            r == mapped(chain_outcome(final(self).uart(), old(self).uart(), id, seq![read_access(CURRENT_VOLTAGE, 1)]), |vs: Seq<Seq<u8>>| vs[0][0]),
    {
        match self.read_one(id, CURRENT_VOLTAGE, 1) {
            Ok(v) => Ok(v[0]),
            Err(e) => Err(e),
        }
    }

    /// Reads the temperature in °C.
    pub fn blocking_read_temperature(&mut self, id: u8) -> (r: Result<u8, ProtocolError<L::Error>>)
        ensures
            chain_done(final(self).uart(), old(self).uart(), id, seq![read_access(CURRENT_TEMPERATURE, 1)]),
            r == mapped(chain_outcome(final(self).uart(), old(self).uart(), id, seq![read_access(CURRENT_TEMPERATURE, 1)]), |vs: Seq<Seq<u8>>| vs[0][0]),
    {
        match self.read_one(id, CURRENT_TEMPERATURE, 1) {
            Ok(v) => Ok(v[0]),
            Err(e) => Err(e),
        }
    }

    /// Reads the load in 0.1% units (negative = CCW).
    pub fn blocking_read_load(&mut self, id: u8) -> (r: Result<i16, ProtocolError<L::Error>>)
        ensures
            chain_done(final(self).uart(), old(self).uart(), id, seq![read_access(CURRENT_LOAD, 2)]),
            r == mapped(chain_outcome(final(self).uart(), old(self).uart(), id, seq![read_access(CURRENT_LOAD, 2)]), |vs: Seq<Seq<u8>>| load_of(from_le16(vs[0]))),
    {
        match self.read_one(id, CURRENT_LOAD, 2) {
            Ok(v) => Ok(decode_load(le_word(&v))),
            Err(e) => Err(e),
        }
    }

    /// Reads the current draw in raw units.
    pub fn blocking_read_current(&mut self, id: u8) -> (r: Result<i16, ProtocolError<L::Error>>)
        ensures
            chain_done(final(self).uart(), old(self).uart(), id, seq![read_access(CURRENT_CURRENT, 2)]),
            r == mapped(chain_outcome(final(self).uart(), old(self).uart(), id, seq![read_access(CURRENT_CURRENT, 2)]), |vs: Seq<Seq<u8>>| current_of(from_le16(vs[0]))),
    {
        match self.read_one(id, CURRENT_CURRENT, 2) {
            Ok(v) => Ok(decode_current(le_word(&v))),
            Err(e) => Err(e),
        }
    }

    /// Reads the error flags.
    pub fn blocking_read_status(&mut self, id: u8) -> (r: Result<ScsStatus, ProtocolError<L::Error>>)
        ensures
            chain_done(final(self).uart(), old(self).uart(), id, seq![read_access(SERVO_STATUS, 1)]),
            r == mapped(chain_outcome(final(self).uart(), old(self).uart(), id, seq![read_access(SERVO_STATUS, 1)]), |vs: Seq<Seq<u8>>| status_of(id, vs[0][0])),
    {
        match self.read_one(id, SERVO_STATUS, 1) {
            Ok(v) => {
                let b = v[0];
                Ok(ScsStatus {
                    id,
                    voltage_error: bit_of(b, 0),
                    temperature_error: bit_of(b, 2),
                    overload_error: bit_of(b, 5),
                    magnetic_error: bit_of(b, 1),
                    current_error: bit_of(b, 3),
                })
            },
            Err(e) => Err(e),
        }
    }

    /// Reads whether the servo is moving.
    pub fn blocking_is_moving(&mut self, id: u8) -> (r: Result<bool, ProtocolError<L::Error>>)
        ensures
            chain_done(final(self).uart(), old(self).uart(), id, seq![read_access(MOVE_FLAG, 1)]),
            r == mapped(chain_outcome(final(self).uart(), old(self).uart(), id, seq![read_access(MOVE_FLAG, 1)]), |vs: Seq<Seq<u8>>| bit(vs[0][0], 0)),
    {
        match self.read_one(id, MOVE_FLAG, 1) {
            Ok(v) => Ok(bit_of(v[0], 0)),
            Err(e) => Err(e),
        }
    }

    /// Reads the operating mode as a servo mode; open-loop PWM and step modes
    /// have none.
    pub fn blocking_read_mode(&mut self, id: u8) -> (r: Result<ServoMode, ProtocolError<L::Error>>)
        ensures
            chain_done(final(self).uart(), old(self).uart(), id, seq![read_access(MODE, 1)]),
            r == servo_mode_result(operating_mode_result(chain_outcome(final(self).uart(), old(self).uart(), id, seq![read_access(MODE, 1)]))),
    {
        match self.blocking_read_operating_mode(id) {
            Ok(SmsStsOperatingMode::Wheel) => Ok(ServoMode::Wheel),
            Ok(SmsStsOperatingMode::Position) => Ok(ServoMode::Position),
            Ok(SmsStsOperatingMode::PwmOpenLoop) | Ok(SmsStsOperatingMode::Step) => Err(ProtocolError::InvalidSetting),
            Err(e) => Err(e),
        }
    }

    /// Reads the operating-mode register; unknown values are an invalid setting.
    pub fn blocking_read_operating_mode(&mut self, id: u8) -> (r: Result<SmsStsOperatingMode, ProtocolError<L::Error>>)
        ensures
            chain_done(final(self).uart(), old(self).uart(), id, seq![read_access(MODE, 1)]),
            r == operating_mode_result(chain_outcome(final(self).uart(), old(self).uart(), id, seq![read_access(MODE, 1)])),
    {
        match self.read_one(id, MODE, 1) {
            Ok(v) => match from_register_operating_mode(OperatingMode::from_raw(v[0])) {
                Some(m) => Ok(m),
                None => Err(ProtocolError::InvalidSetting),
            },
            Err(e) => Err(e),
        }
    }

    /// Writes the operating-mode register (EEPROM).
    pub fn blocking_set_sms_sts_operating_mode(&mut self, id: u8, mode: SmsStsOperatingMode) -> (r: Result<(), ProtocolError<L::Error>>)
        ensures
            eeprom_done(final(self).uart(), old(self).uart(), id, LOCK_FLAG, mode_accesses(mode)),
            r == unit_of(eeprom_outcome(final(self).uart(), old(self).uart(), id, LOCK_FLAG, mode_accesses(mode))),
    {
        let register = to_register_operating_mode(mode);
        let value = [register.raw()];
        let accesses = [Access::write(MODE, value.as_slice())];
        proof {
            assert(value@ =~= seq![register_mode(mode).spec_raw()]);
            assert(access_views(accesses@) =~= mode_accesses(mode));
        }
        match self.device.interface.run_eeprom_on(id, LOCK_FLAG, accesses.as_slice()) {
            Ok(_) => Ok(()),
            Err(e) => Err(e),
        }
    }

    /// Selects wheel or position mode (EEPROM).
    pub fn blocking_set_operating_mode(&mut self, id: u8, mode: ServoMode) -> (r: Result<(), ProtocolError<L::Error>>)
        ensures
            eeprom_done(final(self).uart(), old(self).uart(), id, LOCK_FLAG, mode_accesses(series_mode_of(mode))),
            r == unit_of(eeprom_outcome(final(self).uart(), old(self).uart(), id, LOCK_FLAG, mode_accesses(series_mode_of(mode)))),
    {
        self.blocking_set_sms_sts_operating_mode(
            id,
            match mode {
                ServoMode::Wheel => SmsStsOperatingMode::Wheel,
                ServoMode::Position => SmsStsOperatingMode::Position,
            },
        )
    }

    /// Makes the current position the middle position (torque switch 128).
    pub fn blocking_calibrate(&mut self, id: u8) -> (r: Result<(), ProtocolError<L::Error>>)
        ensures
            chain_done(final(self).uart(), old(self).uart(), id, seq![write_access(TORQUE_SWITCH, seq![128u8])]),
            r == unit_of(chain_outcome(final(self).uart(), old(self).uart(), id, seq![write_access(TORQUE_SWITCH, seq![128u8])])),
    {
        let value = [SmsTorqueMode::Calibration.raw()];
        let accesses = [Access::write(TORQUE_SWITCH, value.as_slice())];
        proof {
            assert(value@ =~= seq![128u8]);
            assert(access_views(accesses@) =~= seq![write_access(TORQUE_SWITCH, seq![128u8])]);
        }
        match self.device.interface.run_chain_on(id, accesses.as_slice()) {
            Ok(_) => Ok(()),
            Err(e) => Err(e),
        }
    }

    /// Reads the position offset; a word above `0x1FFF` is an invalid setting.
    pub fn blocking_read_offset(&mut self, id: u8) -> (r: Result<i16, ProtocolError<L::Error>>)
        ensures
            chain_done(final(self).uart(), old(self).uart(), id, seq![read_access(OFFSET, 2)]),
            r == offset_result(chain_outcome(final(self).uart(), old(self).uart(), id, seq![read_access(OFFSET, 2)])),
    {
        match self.read_one(id, OFFSET, 2) {
            Ok(v) => match decode_offset(le_word(&v)) {
                Some(offset) => Ok(offset),
                None => Err(ProtocolError::InvalidSetting),
            },
            Err(e) => Err(e),
        }
    }

    /// Writes the position offset (EEPROM); `|offset|` must be at most 4095.
    /// The servo is addressed for the whole operation, also when the offset
    /// is refused.
    pub fn blocking_set_offset(&mut self, id: u8, offset: i16) -> (r: Result<(), ProtocolError<L::Error>>)
        ensures
            offset_word(offset) is None ==> {
                &&& r == Err::<(), ProtocolError<L::Error>>(ProtocolError::InvalidSetting)
                &&& final(self).uart().history() == old(self).uart().history()
                &&& final(self).uart().status_level() == old(self).uart().status_level()
                &&& final(self).uart().bus_id() is None
                &&& final(self).uart().link() == old(self).uart().link()
            },
            offset_word(offset) matches Some(w) ==> eeprom_done(final(self).uart(), old(self).uart(), id, LOCK_FLAG, seq![write_access(OFFSET, le16(w))])
                && r == unit_of(eeprom_outcome(final(self).uart(), old(self).uart(), id, LOCK_FLAG, seq![write_access(OFFSET, le16(w))])),
    {
        let encoded = match encode_offset(offset) {
            Some(w) => w,
            None => {
                self.device.interface.set_busid(id);
                self.device.interface.clear_busid();
                return Err(ProtocolError::InvalidSetting);
            },
        };
        let value = u16_to_le(encoded);
        let accesses = [Access::write(OFFSET, value.as_slice())];
        proof {
            assert(access_views(accesses@) =~= seq![write_access(OFFSET, le16(encoded))]);
        }
        match self.device.interface.run_eeprom_on(id, LOCK_FLAG, accesses.as_slice()) {
            Ok(_) => Ok(()),
            Err(e) => Err(e),
        }
    }

    /// ACTION: applies the writes registered with REG WRITE.
    pub fn blocking_action(&mut self, id: u8) -> (r: Result<(), ProtocolError<L::Error>>)
        ensures
            final(self).uart().same_config(&old(self).uart()),
            extends(old(self).uart().history(), final(self).uart().history()),
            ({
                let ev = added(old(self).uart().history(), final(self).uart().history());
                let eff = transfer_effect(old(self).uart().status_level(), id, Instruction::RegAction, Seq::empty(), 0, ev);
                spans(eff, ev.len()) && r == unit_of(eff.unwrap().0)
            }),
    {
        self.device.interface.blocking_action(id)
    }

    /// REG WRITE of a position command (goal time 0), applied on the next ACTION.
    pub fn blocking_reg_write_position(&mut self, id: u8, position: i16, _time: u16, speed: u16) -> (r: Result<(), ProtocolError<L::Error>>)
        ensures
            position_payload(position, speed) is None ==> r == Err::<(), ProtocolError<L::Error>>(ProtocolError::InvalidSetting) && *final(self) == *old(self),
            position_payload(position, speed) matches Some(data) ==> {
                let ev = added(old(self).uart().history(), final(self).uart().history());
                let eff = transfer_effect(
                    old(self).uart().status_level(),
                    id,
                    Instruction::RegWrite,
                    seq![addr::TARGET_POSITION] + data,
                    0,
                    ev,
                );
                &&& final(self).uart().same_config(&old(self).uart())
                &&& extends(old(self).uart().history(), final(self).uart().history())
                &&& spans(eff, ev.len())
                &&& r == unit_of(eff.unwrap().0)
            },
    {
        let data = match encode_position_payload(position, 0, speed) {
            Some(d) => d,
            None => {
                return Err(ProtocolError::InvalidSetting);
            },
        };
        self.device.interface.blocking_reg_write(id, addr::TARGET_POSITION, data.as_slice())
    }

    /// Broadcasts position moves to several servos in one SYNC WRITE.
    pub fn blocking_sync_write_position<const SIZE: usize>(&mut self, moves: &[SmsPositionMove; SIZE]) -> (r: Result<(), ProtocolError<L::Error>>)
        ensures
            packed_sync_write_done(final(self).uart(), old(self).uart(), addr::TARGET_POSITION, 6,
                moves@.map_values(|x: SmsPositionMove| position_entry(x)), 7, true, r),
    {
        let mut payload = [0u8; 256];
        let (data_len, offset) = match fill_sync_position_payload::<L::Error>(moves.as_slice(), &mut payload) {
            Ok(x) => x,
            Err(e) => {
                return Err(e);
            },
        };
        let slice = payload.as_slice();
        let body = &slice[0..offset];
        proof {
            assert(body@ =~= payload@.take(offset as int));
        }
        self.device.interface.blocking_sync_write(addr::TARGET_POSITION, data_len, body)
    }

    /// Broadcasts position moves with acceleration in one SYNC WRITE.
    pub fn blocking_sync_write_position_ex<const SIZE: usize>(&mut self, moves: &[SmsPositionMoveEx; SIZE]) -> (r: Result<(), ProtocolError<L::Error>>)
        ensures
            packed_sync_write_done(final(self).uart(), old(self).uart(), ACCELERATION, 7,
                moves@.map_values(|x: SmsPositionMoveEx| position_ex_entry(x)), 8, true, r),
    {
        let mut payload = [0u8; 256];
        let (data_len, offset) = match fill_sync_position_ex_payload::<L::Error>(moves.as_slice(), &mut payload) {
            Ok(x) => x,
            Err(e) => {
                return Err(e);
            },
        };
        let slice = payload.as_slice();
        let body = &slice[0..offset];
        proof {
            assert(body@ =~= payload@.take(offset as int));
        }
        self.device.interface.blocking_sync_write(ACCELERATION, data_len, body)
    }

    /// Broadcasts wheel-mode speeds with acceleration in one SYNC WRITE.
    pub fn blocking_sync_write_speed<const SIZE: usize>(&mut self, commands: &[SmsSpeedCommand; SIZE]) -> (r: Result<(), ProtocolError<L::Error>>)
        ensures
            packed_sync_write_done(final(self).uart(), old(self).uart(), ACCELERATION, 7,
                commands@.map_values(|x: SmsSpeedCommand| speed_entry(x)), 8, true, r),
    {
        let mut payload = [0u8; 256];
        let (data_len, offset) = match fill_sync_speed_payload::<L::Error>(commands.as_slice(), &mut payload) {
            Ok(x) => x,
            Err(e) => {
                return Err(e);
            },
        };
        let slice = payload.as_slice();
        let body = &slice[0..offset];
        proof {
            assert(body@ =~= payload@.take(offset as int));
        }
        self.device.interface.blocking_sync_write(ACCELERATION, data_len, body)
    }

    /// Broadcasts torque modes to several servos in one SYNC WRITE.
    pub fn blocking_sync_write_torque_mode<const SIZE: usize>(&mut self, commands: &[TorqueModeCommand; SIZE]) -> (r: Result<(), ProtocolError<L::Error>>)
        ensures
            packed_sync_write_done(final(self).uart(), old(self).uart(), TORQUE_SWITCH, 1,
                commands@.map_values(|c: TorqueModeCommand| torque_mode_entry(c)), 2, true, r),
    {
        let mut payload = [0u8; 256];
        let (data_len, offset) = match fill_sync_torque_mode_payload::<L::Error>(commands.as_slice(), &mut payload) {
            Ok(x) => x,
            Err(e) => {
                return Err(e);
            },
        };
        let slice = payload.as_slice();
        let body = &slice[0..offset];
        proof {
            assert(body@ =~= payload@.take(offset as int));
        }
        self.device.interface.blocking_sync_write(TORQUE_SWITCH, data_len, body)
    }

    /// Broadcasts runtime torque limits in one SYNC WRITE.
    pub fn blocking_sync_write_torque_limit<const SIZE: usize>(&mut self, commands: &[SmsTorqueLimitCommand; SIZE]) -> (r: Result<(), ProtocolError<L::Error>>)
        ensures
            packed_sync_write_done(final(self).uart(), old(self).uart(), TORQUE_LIMIT, 2,
                commands@.map_values(|x: SmsTorqueLimitCommand| torque_limit_entry(x)), 3, true, r),
    {
        let mut payload = [0u8; 256];
        let (data_len, offset) = match fill_sync_torque_limit_payload::<L::Error>(commands.as_slice(), &mut payload) {
            Ok(x) => x,
            Err(e) => {
                return Err(e);
            },
        };
        let slice = payload.as_slice();
        let body = &slice[0..offset];
        proof {
            assert(body@ =~= payload@.take(offset as int));
        }
        self.device.interface.blocking_sync_write(TORQUE_LIMIT, data_len, body)
    }

    /// Broadcasts `DATA_LEN` raw bytes per servo, for the registers from
    /// `address` on, in one SYNC WRITE.
    pub fn blocking_sync_write_raw<const DATA_LEN: usize, const SIZE: usize>(
        &mut self,
        address: u8,
        commands: &[SyncWriteData<DATA_LEN>; SIZE],
    ) -> (r: Result<(), ProtocolError<L::Error>>)
        ensures
            DATA_LEN > 255 ==> r == Err::<(), ProtocolError<L::Error>>(ProtocolError::InvalidLength) && *final(self) == *old(self),
            DATA_LEN <= 255 ==> packed_sync_write_done(final(self).uart(), old(self).uart(), address, DATA_LEN as u8,
                commands@.map_values(|c: SyncWriteData<DATA_LEN>| raw_entry(c)), (DATA_LEN + 1) as nat, true, r),
    {
        if DATA_LEN > 255 {
            return Err(ProtocolError::InvalidLength);
        }
        let mut payload = [0u8; 256];
        let offset = match fill_sync_raw_payload::<DATA_LEN, L::Error>(commands.as_slice(), &mut payload) {
            Ok(len) => len,
            Err(e) => {
                return Err(e);
            },
        };
        let slice = payload.as_slice();
        let body = &slice[0..offset];
        proof {
            assert(body@ =~= payload@.take(offset as int));
        }
        self.device.interface.blocking_sync_write(address, DATA_LEN as u8, body)
    }

    /// Reads position, speed, load, voltage and temperature of several servos
    /// in one SYNC READ (8 bytes from the current position on).
    pub fn blocking_sync_read_state<const SIZE: usize>(&mut self, ids: &[u8; SIZE]) -> (r: Result<
        [SmsServoState; SIZE],
        ProtocolError<L::Error>,
    >)
        ensures
            SIZE * 8 > PAYLOAD_CAPACITY ==> r == Err::<[SmsServoState; SIZE], ProtocolError<L::Error>>(ProtocolError::InvalidLength)
                && *final(self) == *old(self),
            SIZE * 8 <= PAYLOAD_CAPACITY ==> {
                let ev = added(old(self).uart().history(), final(self).uart().history());
                let eff = sync_read_effect(addr::CURRENT_POSITION, 8, ids@, (SIZE * 8) as nat, ev);
                &&& final(self).uart().same_config(&old(self).uart())
                &&& extends(old(self).uart().history(), final(self).uart().history())
                &&& spans(eff, ev.len())
                &&& match eff.unwrap().0 {
                    Ok(rs) => r is Ok && forall|i: int| 0 <= i < SIZE ==> #[trigger] r->Ok_0@[i] == state_of(ids@[i], rs[i]),
                    Err(e) => r == Err::<[SmsServoState; SIZE], ProtocolError<L::Error>>(e),
                }
            },
    {
        let total: usize = match SIZE.checked_mul(8) {
            Some(t) => t,
            None => {
                return Err(ProtocolError::InvalidLength);
            },
        };
        if total > PAYLOAD_CAPACITY {
            return Err(ProtocolError::InvalidLength);
        }
        let mut output: Vec<u8> = vec![0u8; total];
        let ghost h0 = self.device.interface.history();
        match self.device.interface.blocking_sync_read(addr::CURRENT_POSITION, 8, ids.as_slice(), output.as_mut_slice()) {
            Ok(()) => {},
            Err(e) => {
                return Err(e);
            },
        }
        let ghost rs = sync_read_effect(
            addr::CURRENT_POSITION,
            8,
            ids@,
            (SIZE * 8) as nat,
            added(h0, self.device.interface.history()),
        ).unwrap().0->Ok_0;
        let d = SmsServoState::default();
        let mut states: [SmsServoState; SIZE] = [d; SIZE];
        let out = output.as_slice();
        let mut i: usize = 0;
        while i < SIZE
            invariant
                i <= SIZE,
                SIZE * 8 <= PAYLOAD_CAPACITY,
                ids@.len() == SIZE,
                out@.len() == SIZE * 8,
                rs.len() == SIZE,
                forall|k: int| 0 <= k < SIZE ==> (#[trigger] rs[k]).len() == 8,
                forall|k: int, t: int| 0 <= k < rs.len() && 0 <= t < 8 ==> out@[k * 8 + t] == #[trigger] rs[k][t],
                states@.len() == SIZE,
                forall|k: int| 0 <= k < i ==> #[trigger] states@[k] == state_of(ids@[k], rs[k]),
            decreases SIZE - i,
        {
            let start = i * 8;
            let chunk = &out[start..start + 8];
            proof {
                assert forall|t: int| 0 <= t < 8 implies chunk@[t] == rs[i as int][t] by {
                    assert(out@[i * 8 + t] == rs[i as int][t]);
                }
                assert(chunk@ =~= rs[i as int]);
            }
            states[i] = parse_state_chunk(ids[i], chunk);
            i = i + 1;
        }
        Ok(states)
    }

    /// Reads position, speed, load, voltage, temperature, the move flag and
    /// the current draw of servo `id`.
    pub fn blocking_read_state(&mut self, id: u8) -> (r: Result<ServoTelemetry, ProtocolError<L::Error>>)
        ensures
            chain_done(final(self).uart(), old(self).uart(), id, state_accesses()),
            r == mapped(chain_outcome(final(self).uart(), old(self).uart(), id, state_accesses()), |vs: Seq<Seq<u8>>| telemetry_of(vs)),
    {
        let accesses = [
            Access::read(CURRENT_POSITION, 2),
            Access::read(CURRENT_SPEED, 2),
            Access::read(CURRENT_LOAD, 2),
            Access::read(CURRENT_VOLTAGE, 1),
            Access::read(CURRENT_TEMPERATURE, 1),
            Access::read(MOVE_FLAG, 1),
            Access::read(CURRENT_CURRENT, 2),
        ];
        proof {
            assert(access_views(accesses@) =~= state_accesses());
        }
        let vs = match self.device.interface.run_chain_on(id, accesses.as_slice()) {
            Ok(vs) => vs,
            Err(e) => {
                return Err(e);
            },
        };
        proof {
            assert(state_accesses()[0] is Read);
            assert(state_accesses()[1] is Read);
            assert(state_accesses()[2] is Read);
            assert(state_accesses()[3] is Read);
            assert(state_accesses()[4] is Read);
            assert(state_accesses()[5] is Read);
            assert(state_accesses()[6] is Read);
        }
        let position = le_word(&vs[0]);
        let speed = le_word(&vs[1]);
        let load = le_word(&vs[2]);
        let current = le_word(&vs[6]);
        Ok(ServoTelemetry {
            position_raw: decode_signed_position(position),
            speed_raw: decode_speed(speed),
            load_raw: decode_load(load),
            voltage_raw: vs[3][0],
            temperature_raw: vs[4][0],
            current_raw: Some(decode_current(current)),
            moving: bit_of(vs[5][0], 0),
        })
    }
}



} // verus!
