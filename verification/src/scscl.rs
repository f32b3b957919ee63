//! SCSCL series servo bus (SC09, SC15, etc.).
//!
//! Potentiometer-based servos using big-endian wire format.
//!
//! Every register operation addresses one servo for its duration and
//! releases it afterwards; its contract gives the register accesses it
//! performs and its result as a function of what the link reported.

use vstd::prelude::*;

use crate::access::{
    access_views, chain_done, chain_outcome, eeprom_done, eeprom_outcome, mapped, read_access,
    write_access, Access, RegisterAccess,
};
use crate::error::ProtocolError;
use crate::registers::sc_device::{
    ScsclDevice, CURRENT_CURRENT, CURRENT_LOAD, CURRENT_POSITION, CURRENT_SPEED,
    CURRENT_TEMPERATURE, CURRENT_VOLTAGE, D_COEFFICIENT, FW_MAJOR_VERSION, FW_MINOR_VERSION,
    GOAL_TIME, ID, LOCK_FLAG, MAXIMUM_ANGLE, MAXIMUM_INPUT_VOLTAGE, MAXIMUM_TEMPERATURE,
    MAXIMUM_TORQUE, MINIMUM_ANGLE, MINIMUM_INPUT_VOLTAGE, MOVE_FLAG, P_COEFFICIENT,
    SERVO_MAJOR_VERSION, SERVO_MINOR_VERSION, SERVO_STATUS, TARGET_POSITION, TORQUE_SWITCH,
};
use crate::registers::{addr, TorqueMode};
use crate::scscl_constants::SCSCL_MAX_POSITION_STEPS;
use crate::series::{ServoMode, ServoTelemetry};
use crate::sync::{
    entry_view, entry_views, fill_sync_raw_payload, fill_sync_torque_mode_payload, pack_entries, packed,
    packed_sync_write_done, raw_entry, torque_mode_entry, PAYLOAD_CAPACITY,
};
use crate::types::{
    Instruction, ScsStatus, ScsclMotorCommand, ScsclPositionMove, ScsclServoState, SyncWriteData,
    TorqueModeCommand,
};
use crate::uart::{
    added, extends, is_unicast, spans, sync_read_effect, transfer_effect, unit_of, LinkEvent, SerialLink,
    UartBusInterface, VersionInformation,
};
use crate::wire::{be16, bit, bit_of, from_be16, lemma_be16_round_trip, u16_from_be, u16_to_be};
use crate::{
    current_of, decode_current, decode_load, decode_speed, encode_signed_pwm, load_of,
    sign_magnitude, speed_of, BROADCAST_ID, MAX_SERVO_ID, MAX_TORQUE_VALUE,
};

verus! {

/// The version registers read, in order.
pub open spec fn version_accesses() -> Seq<RegisterAccess> {
    seq![
        read_access(FW_MAJOR_VERSION, 1),
        read_access(FW_MINOR_VERSION, 1),
        read_access(SERVO_MAJOR_VERSION, 1),
        read_access(SERVO_MINOR_VERSION, 1),
    ]
}

/// The version bytes read by [`version_accesses`].
pub open spec fn version_of(vs: Seq<Seq<u8>>) -> VersionInformation {
    VersionInformation {
        firmware_major: vs[0][0],
        firmware_minor: vs[1][0],
        servo_major: vs[2][0],
        servo_minor: vs[3][0],
    }
}

/// Angle limits are valid: both zero (wheel mode), or `min < max <= 1023`.
pub open spec fn angle_limits_valid(min: u16, max: u16) -> bool {
    (min == 0 && max == 0) || (min < max && max <= SCSCL_MAX_POSITION_STEPS)
}

/// The EEPROM writes of an angle-limit change.
pub open spec fn angle_limit_accesses(min: u16, max: u16) -> Seq<RegisterAccess> {
    seq![write_access(MINIMUM_ANGLE, be16(min)), write_access(MAXIMUM_ANGLE, be16(max))]
}

/// The angle limits that select a mode: `0, 0` for wheel, `0, 1023` for position.
pub open spec fn mode_limits(mode: ServoMode) -> (u16, u16) {
    match mode {
        ServoMode::Wheel => (0, 0),
        ServoMode::Position => (0, SCSCL_MAX_POSITION_STEPS),
    }
}

/// The angle-limit registers a mode read covers, in order.
pub open spec fn mode_accesses() -> Seq<RegisterAccess> {
    seq![read_access(MINIMUM_ANGLE, 2), read_access(MAXIMUM_ANGLE, 2)]
}

/// The mode the angle limits read by [`mode_accesses`] select: wheel when both are zero.
pub open spec fn mode_of(vs: Seq<Seq<u8>>) -> ServoMode {
    if from_be16(vs[0]) == 0 && from_be16(vs[1]) == 0 {
        ServoMode::Wheel
    } else {
        ServoMode::Position
    }
}

/// Setting a mode and reading it back gives that mode: the angle limits that
/// [`ScsclBus::blocking_set_operating_mode`] writes (see [`angle_limit_accesses`])
/// are read by [`ScsclBus::blocking_read_mode`] as the same mode, when the servo
/// still holds them.
pub proof fn lemma_mode_round_trip(mode: ServoMode)
    ensures
        mode_of(
            seq![
                angle_limit_accesses(mode_limits(mode).0, mode_limits(mode).1)[0]->Write_data,
                angle_limit_accesses(mode_limits(mode).0, mode_limits(mode).1)[1]->Write_data,
            ],
        ) == mode,
        mode_of(seq![be16(mode_limits(mode).0), be16(mode_limits(mode).1)]) == mode,
{
    lemma_be16_round_trip(mode_limits(mode).0);
    lemma_be16_round_trip(mode_limits(mode).1);
}

/// The registers a full state read covers, in order.
pub open spec fn state_accesses() -> Seq<RegisterAccess> {
    seq![
        read_access(CURRENT_POSITION, 2),
        read_access(CURRENT_SPEED, 2),
        read_access(CURRENT_LOAD, 2),
        read_access(CURRENT_VOLTAGE, 1),
        read_access(CURRENT_TEMPERATURE, 1),
        read_access(MOVE_FLAG, 1),
    ]
}

/// The telemetry the registers of [`state_accesses`] hold.
pub open spec fn telemetry_of(vs: Seq<Seq<u8>>) -> ServoTelemetry {
    ServoTelemetry {
        position_raw: from_be16(vs[0]) as i16,
        speed_raw: speed_of(from_be16(vs[1])),
        load_raw: load_of(from_be16(vs[2])),
        voltage_raw: vs[3][0],
        temperature_raw: vs[4][0],
        current_raw: None,
        moving: bit(vs[5][0], 0),
    }
}

/// The status flags of status byte `b` of servo `id`.
pub open spec fn status_of(id: u8, b: u8) -> ScsStatus {
    ScsStatus {
        id,
        voltage_error: bit(b, 0),
        temperature_error: bit(b, 2),
        overload_error: bit(b, 5),
        magnetic_error: false,
        current_error: false,
    }
}

/// The servo state in the 8 bytes of a sync-read chunk, from the current position on.
pub open spec fn state_of(id: u8, c: Seq<u8>) -> ScsclServoState {
    ScsclServoState {
        id,
        position_raw: from_be16(c.subrange(0, 2)),
        speed_raw: speed_of(from_be16(c.subrange(2, 4))),
        load_raw: load_of(from_be16(c.subrange(4, 6))),
        voltage_raw: c[6],
        temperature_raw: c[7],
    }
}

/// The 6 data bytes of a position command: position, time, speed.
pub open spec fn position_data(position: u16, time: u16, speed: u16) -> Seq<u8> {
    be16(position) + be16(time) + be16(speed)
}

/// The sync-write entry of a position move; `None` when the position is out of range.
pub open spec fn position_entry(m: ScsclPositionMove) -> Option<Seq<u8>> {
    if m.position > SCSCL_MAX_POSITION_STEPS {
        None
    } else {
        Some(seq![m.id] + position_data(m.position, m.time, m.speed))
    }
}

/// The sync-write entry of a motor command; `None` when the output does not fit.
pub open spec fn motor_entry(c: ScsclMotorCommand) -> Option<Seq<u8>> {
    match sign_magnitude(c.output, 0x03FF, 0x0400) {
        Some(w) => Some(seq![c.id] + be16(w)),
        None => None,
    }
}

/// Servo bus for SCSCL series (SC09, SC15, etc.).
///
/// Uses big-endian wire format.
pub struct ScsclBus<L: SerialLink> {
    device: ScsclDevice<L>,
}

/// Writes the 6 data bytes of a position command: position, time, speed (big-endian).
pub fn encode_position_payload(position: u16, time: u16, speed: u16) -> (b: [u8; 6])
    ensures
        b@ == position_data(position, time, speed),
{
    let p = u16_to_be(position);
    let t = u16_to_be(time);
    let s = u16_to_be(speed);
    let b = [p[0], p[1], t[0], t[1], s[0], s[1]];
    proof {
        assert(b@ =~= position_data(position, time, speed));
    }
    b
}

/// Packs the position moves of a sync write; returns the data length per
/// servo and the payload length.
pub fn fill_sync_position_payload<E>(moves: &[ScsclPositionMove], payload: &mut [u8; 256]) -> (r: Result<
    (u8, usize),
    ProtocolError<E>,
>)
    ensures
        packed(moves@.map_values(|m: ScsclPositionMove| position_entry(m)), 7, true, 6, r, final(payload)@),
{
    let mut entries: Vec<Option<Vec<u8>>> = Vec::new();
    let mut i: usize = 0;
    while i < moves.len()
        invariant
            i <= moves@.len(),
            entry_views(entries@) == moves@.take(i as int).map_values(|m: ScsclPositionMove| position_entry(m)),
            forall|k: int| 0 <= k < entries@.len() && (#[trigger] entries@[k]) is Some ==> entries@[k]->0@.len() == 7,
        decreases moves@.len() - i,
    {
        let m = moves[i];
        let entry = if m.position > SCSCL_MAX_POSITION_STEPS {
            None
        } else {
            let data = encode_position_payload(m.position, m.time, m.speed);
            let mut e: Vec<u8> = Vec::new();
            e.push(m.id);
            let mut t: usize = 0;
            while t < 6
                invariant
                    t <= 6,
                    e@ == seq![m.id] + data@.take(t as int),
                decreases 6 - t,
            {
                proof {
                    assert(data@.take(t + 1) =~= data@.take(t as int).push(data@[t as int]));
                }
                e.push(data[t]);
                t = t + 1;
            }
            proof {
                assert(data@.take(6) =~= data@);
            }
            Some(e)
        };
        let ghost old_entries = entries@;
        proof {
            assert(entry_view(entry) == position_entry(m));
        }
        entries.push(entry);
        proof {
            assert(moves@.take(i + 1) =~= moves@.take(i as int).push(m));
            assert(entries@ =~= old_entries.push(entry));
            assert(entry_views(entries@) =~= entry_views(old_entries).push(position_entry(m)));
            assert(entry_views(entries@) =~= moves@.take(i + 1).map_values(
                |m: ScsclPositionMove| position_entry(m),
            ));
        }
        i = i + 1;
    }
    proof {
        assert(moves@.take(i as int) =~= moves@);
    }
    match pack_entries::<E>(entries.as_slice(), 7, true, payload) {
        Ok(len) => Ok((6, len)),
        Err(e) => Err(e),
    }
}

/// The big-endian word in the 2 bytes of `v`.
fn be_word(v: &Vec<u8>) -> (w: u16)
    requires
        v@.len() == 2,
    ensures
        w == from_be16(v@),
{
    proof {
        assert(v@ =~= seq![v@[0], v@[1]]);
    }
    u16_from_be(v[0], v[1])
}

/// Packs the motor commands of a sync write; returns the data length per
/// servo and the payload length.
pub fn fill_sync_motor_payload<E>(commands: &[ScsclMotorCommand], payload: &mut [u8; 256]) -> (r: Result<
    (u8, usize),
    ProtocolError<E>,
>)
    ensures
        packed(commands@.map_values(|c: ScsclMotorCommand| motor_entry(c)), 3, false, 2, r, final(payload)@),
{
    let mut entries: Vec<Option<Vec<u8>>> = Vec::new();
    let mut i: usize = 0;
    while i < commands.len()
        invariant
            i <= commands@.len(),
            entry_views(entries@) == commands@.take(i as int).map_values(|c: ScsclMotorCommand| motor_entry(c)),
            forall|k: int| 0 <= k < entries@.len() && (#[trigger] entries@[k]) is Some ==> entries@[k]->0@.len() == 3,
        decreases commands@.len() - i,
    {
        let c = commands[i];
        let entry = match encode_signed_pwm(c.output) {
            Some(w) => {
                let b = u16_to_be(w);
                let mut e: Vec<u8> = Vec::new();
                e.push(c.id);
                e.push(b[0]);
                e.push(b[1]);
                proof {
                    assert(e@ =~= seq![c.id] + be16(w));
                }
                Some(e)
            },
            None => None,
        };
        let ghost old_entries = entries@;
        proof {
            assert(entry_view(entry) == motor_entry(c));
        }
        entries.push(entry);
        proof {
            assert(commands@.take(i + 1) =~= commands@.take(i as int).push(c));
            assert(entry_views(entries@) =~= entry_views(old_entries).push(motor_entry(c)));
            assert(entry_views(entries@) =~= commands@.take(i + 1).map_values(
                |c: ScsclMotorCommand| motor_entry(c),
            ));
        }
        i = i + 1;
    }
    proof {
        assert(commands@.take(i as int) =~= commands@);
    }
    match pack_entries::<E>(entries.as_slice(), 3, false, payload) {
        Ok(len) => Ok((2, len)),
        Err(e) => Err(e),
    }
}

/// Decodes an 8-byte sync-read chunk (position, speed, load, voltage, temperature).
pub fn parse_state_chunk(id: u8, chunk: &[u8]) -> (s: ScsclServoState)
    requires
        chunk@.len() >= 8,
    ensures
        s == state_of(id, chunk@),
{
    let position = u16_from_be(chunk[0], chunk[1]);
    let speed_raw = u16_from_be(chunk[2], chunk[3]);
    let load_raw = u16_from_be(chunk[4], chunk[5]);
    proof {
        assert(chunk@.subrange(0, 2) =~= seq![chunk@[0], chunk@[1]]);
        assert(chunk@.subrange(2, 4) =~= seq![chunk@[2], chunk@[3]]);
        assert(chunk@.subrange(4, 6) =~= seq![chunk@[4], chunk@[5]]);
    }
    ScsclServoState {
        id,
        position_raw: position,
        speed_raw: decode_speed(speed_raw),
        load_raw: decode_load(load_raw),
        voltage_raw: chunk[6],
        temperature_raw: chunk[7],
    }
}

impl<L: SerialLink> ScsclBus<L> {
    /// The packet layer under this bus.
    pub closed spec fn uart(&self) -> UartBusInterface<L> {
        self.device.interface
    }

    /// The register map under this bus.
    pub closed spec fn device_state(&self) -> ScsclDevice<L> {
        self.device
    }

    pub fn new(interface: L) -> (bus: Self)
        ensures
            bus.uart().link() == interface,
            bus.uart().bus_id() is None,
            bus.uart().status_level(),
            bus.uart().history() == Seq::<LinkEvent<L::Error>>::empty(),
    {
        let uart = UartBusInterface::new(interface);
        let device = ScsclDevice::new(uart);
        ScsclBus { device }
    }

    /// The register map under this bus.
    pub fn inner_mut(&mut self) -> (d: &mut ScsclDevice<L>)
        ensures
            *d == old(self).device_state(),
            final(self).device_state() == *final(d),
    {
        &mut self.device
    }

    pub fn set_response_status_level(&mut self, enabled: bool)
        ensures
            final(self).uart().status_level() == enabled,
            final(self).uart().bus_id() == old(self).uart().bus_id(),
            final(self).uart().history() == old(self).uart().history(),
            final(self).uart().link() == old(self).uart().link(),
    {
        self.device.interface.set_response_status_level(enabled);
    }

    /// Reads the firmware and servo version bytes of servo `id`.
    pub fn blocking_read_version(&mut self, id: u8) -> (r: Result<VersionInformation, ProtocolError<L::Error>>)
        ensures
            chain_done(final(self).uart(), old(self).uart(), id, version_accesses()),
            r == mapped(
                chain_outcome(final(self).uart(), old(self).uart(), id, version_accesses()),
                |vs: Seq<Seq<u8>>| version_of(vs),
            ),
    {
        let accesses = [
            Access::read(FW_MAJOR_VERSION, 1),
            Access::read(FW_MINOR_VERSION, 1),
            Access::read(SERVO_MAJOR_VERSION, 1),
            Access::read(SERVO_MINOR_VERSION, 1),
        ];
        proof {
            assert(access_views(accesses@) =~= version_accesses());
        }
        let vs = match self.device.interface.run_chain_on(id, accesses.as_slice()) {
            Ok(vs) => vs,
            Err(e) => {
                return Err(e);
            },
        };
        proof {
            assert(version_accesses()[0] is Read);
            assert(version_accesses()[1] is Read);
            assert(version_accesses()[2] is Read);
            assert(version_accesses()[3] is Read);
        }
        Ok(VersionInformation {
            firmware_major: vs[0][0],
            firmware_minor: vs[1][0],
            servo_major: vs[2][0],
            servo_minor: vs[3][0],
        })
    }

    pub fn blocking_ping(&mut self, id: u8) -> (r: Result<(), ProtocolError<L::Error>>)
        ensures
            final(self).uart().same_config(&old(self).uart()),
            extends(old(self).uart().history(), final(self).uart().history()),
            ({
                let ev = added(old(self).uart().history(), final(self).uart().history());
                if !is_unicast(id) {
                    ev.len() == 0 && r == Err::<(), ProtocolError<L::Error>>(ProtocolError::InvalidId)
                } else {
                    let eff = transfer_effect(old(self).uart().status_level(), id, Instruction::Ping, Seq::empty(), 0, ev);
                    spans(eff, ev.len()) && r == unit_of(eff.unwrap().0)
                }
            }),
    {
        if id == BROADCAST_ID {
            proof {
                crate::uart::lemma_extends_refl(self.device.interface.history());
            }
            return Err(ProtocolError::InvalidId);
        }
        self.device.interface.blocking_ping(id)
    }

    pub fn blocking_reset(&mut self, id: u8) -> (r: Result<(), ProtocolError<L::Error>>)
        ensures
            final(self).uart().same_config(&old(self).uart()),
            extends(old(self).uart().history(), final(self).uart().history()),
            ({
                let ev = added(old(self).uart().history(), final(self).uart().history());
                let eff = transfer_effect(old(self).uart().status_level(), id, Instruction::Reset, Seq::empty(), 0, ev);
                spans(eff, ev.len()) && r == unit_of(eff.unwrap().0)
            }),
    {
        self.device.interface.blocking_reset(id)
    }

    /// Changes the ID of servo `current_id` to `new_id`; the EEPROM is locked
    /// again at the new ID.
    pub fn blocking_set_id(&mut self, current_id: u8, new_id: u8) -> (r: Result<(), ProtocolError<L::Error>>)
        ensures
            !(is_unicast(current_id) && is_unicast(new_id)) ==> r == Err::<(), ProtocolError<L::Error>>(
                ProtocolError::InvalidId,
            ) && *final(self) == *old(self),
            is_unicast(current_id) && is_unicast(new_id) ==> {
                let ev = added(old(self).uart().history(), final(self).uart().history());
                let eff = crate::access::set_id_effect(old(self).uart().status_level(), current_id, new_id, LOCK_FLAG, ID, ev);
                &&& final(self).uart().status_level() == old(self).uart().status_level()
                &&& final(self).uart().bus_id() is None
                &&& extends(old(self).uart().history(), final(self).uart().history())
                &&& spans(eff, ev.len())
                &&& r == eff.unwrap().0
            },
    {
        if current_id > MAX_SERVO_ID || new_id > MAX_SERVO_ID {
            return Err(ProtocolError::InvalidId);
        }
        self.device.interface.run_set_id(current_id, new_id, LOCK_FLAG, ID)
    }

    pub fn blocking_set_torque_mode(&mut self, id: u8, mode: TorqueMode) -> (r: Result<(), ProtocolError<L::Error>>)
        ensures
            chain_done(final(self).uart(), old(self).uart(), id, seq![write_access(TORQUE_SWITCH, seq![mode.spec_raw()])]),
            r == unit_of(chain_outcome(final(self).uart(), old(self).uart(), id, seq![write_access(TORQUE_SWITCH, seq![mode.spec_raw()])])),
    {
        let value = [mode.raw()];
        let accesses = [Access::write(TORQUE_SWITCH, value.as_slice())];
        proof {
            assert(value@ =~= seq![mode.spec_raw()]);
            assert(access_views(accesses@) =~= seq![write_access(TORQUE_SWITCH, seq![mode.spec_raw()])]);
        }
        match self.device.interface.run_chain_on(id, accesses.as_slice()) {
            Ok(_) => Ok(()),
            Err(e) => Err(e),
        }
    }

    /// Sets the angle limits (EEPROM); `0, 0` selects wheel mode.
    pub fn blocking_set_angle_limits(&mut self, id: u8, min: u16, max: u16) -> (r: Result<(), ProtocolError<L::Error>>)
        ensures
            !angle_limits_valid(min, max) ==> r == Err::<(), ProtocolError<L::Error>>(
                ProtocolError::InvalidSetting,
            ) && *final(self) == *old(self),
            angle_limits_valid(min, max) ==> eeprom_done(final(self).uart(), old(self).uart(), id, LOCK_FLAG, angle_limit_accesses(min, max))
                && r == unit_of(eeprom_outcome(final(self).uart(), old(self).uart(), id, LOCK_FLAG, angle_limit_accesses(min, max))),
    {
        if (min != 0 || max != 0) && (min >= max || max > SCSCL_MAX_POSITION_STEPS) {
            return Err(ProtocolError::InvalidSetting);
        }
        let lo = u16_to_be(min);
        let hi = u16_to_be(max);
        let accesses = [Access::write(MINIMUM_ANGLE, lo.as_slice()), Access::write(MAXIMUM_ANGLE, hi.as_slice())];
        proof {
            assert(access_views(accesses@) =~= angle_limit_accesses(min, max));
        }
        match self.device.interface.run_eeprom_on(id, LOCK_FLAG, accesses.as_slice()) {
            Ok(_) => Ok(()),
            Err(e) => Err(e),
        }
    }

    /// Sets the input voltage limits in 0.1 V units (EEPROM).
    pub fn blocking_set_voltage_limits(&mut self, id: u8, min_voltage: u8, max_voltage: u8) -> (r: Result<(), ProtocolError<L::Error>>)
        ensures
            (min_voltage > 254 || max_voltage > 254 || min_voltage > max_voltage) ==> r == Err::<(), ProtocolError<L::Error>>(
                ProtocolError::InvalidSetting,
            ) && *final(self) == *old(self),
            !(min_voltage > 254 || max_voltage > 254 || min_voltage > max_voltage) ==> {
                let accs = seq![write_access(MINIMUM_INPUT_VOLTAGE, seq![min_voltage]), write_access(MAXIMUM_INPUT_VOLTAGE, seq![max_voltage])];
                eeprom_done(final(self).uart(), old(self).uart(), id, LOCK_FLAG, accs)
                    && r == unit_of(eeprom_outcome(final(self).uart(), old(self).uart(), id, LOCK_FLAG, accs))
            },
    {
        if min_voltage > 254 || max_voltage > 254 || min_voltage > max_voltage {
            return Err(ProtocolError::InvalidSetting);
        }
        let lo = [min_voltage];
        let hi = [max_voltage];
        let accesses = [Access::write(MINIMUM_INPUT_VOLTAGE, lo.as_slice()), Access::write(MAXIMUM_INPUT_VOLTAGE, hi.as_slice())];
        proof {
            assert(lo@ =~= seq![min_voltage]);
            assert(hi@ =~= seq![max_voltage]);
            assert(access_views(accesses@) =~= seq![write_access(MINIMUM_INPUT_VOLTAGE, seq![min_voltage]), write_access(MAXIMUM_INPUT_VOLTAGE, seq![max_voltage])]);
        }
        match self.device.interface.run_eeprom_on(id, LOCK_FLAG, accesses.as_slice()) {
            Ok(_) => Ok(()),
            Err(e) => Err(e),
        }
    }

    /// Sets the temperature limit in °C (EEPROM).
    pub fn blocking_set_max_temperature_limit(&mut self, id: u8, max_temp: u8) -> (r: Result<(), ProtocolError<L::Error>>)
        ensures
            max_temp > 100 ==> r == Err::<(), ProtocolError<L::Error>>(ProtocolError::InvalidSetting) && *final(self) == *old(self),
            max_temp <= 100 ==> eeprom_done(final(self).uart(), old(self).uart(), id, LOCK_FLAG, seq![write_access(MAXIMUM_TEMPERATURE, seq![max_temp])])
                && r == unit_of(eeprom_outcome(final(self).uart(), old(self).uart(), id, LOCK_FLAG, seq![write_access(MAXIMUM_TEMPERATURE, seq![max_temp])])),
    {
        if max_temp > 100 {
            return Err(ProtocolError::InvalidSetting);
        }
        let value = [max_temp];
        let accesses = [Access::write(MAXIMUM_TEMPERATURE, value.as_slice())];
        proof {
            assert(value@ =~= seq![max_temp]);
            assert(access_views(accesses@) =~= seq![write_access(MAXIMUM_TEMPERATURE, seq![max_temp])]);
        }
        match self.device.interface.run_eeprom_on(id, LOCK_FLAG, accesses.as_slice()) {
            Ok(_) => Ok(()),
            Err(e) => Err(e),
        }
    }

    /// Sets the torque limit in 0.1% units (EEPROM).
    pub fn blocking_set_max_torque(&mut self, id: u8, max_torque: u16) -> (r: Result<(), ProtocolError<L::Error>>)
        ensures
            max_torque > MAX_TORQUE_VALUE ==> r == Err::<(), ProtocolError<L::Error>>(ProtocolError::InvalidSetting) && *final(self) == *old(self),
            max_torque <= MAX_TORQUE_VALUE ==> eeprom_done(final(self).uart(), old(self).uart(), id, LOCK_FLAG, seq![write_access(MAXIMUM_TORQUE, be16(max_torque))])
                && r == unit_of(eeprom_outcome(final(self).uart(), old(self).uart(), id, LOCK_FLAG, seq![write_access(MAXIMUM_TORQUE, be16(max_torque))])),
    {
        if max_torque > MAX_TORQUE_VALUE {
            return Err(ProtocolError::InvalidSetting);
        }
        let value = u16_to_be(max_torque);
        let accesses = [Access::write(MAXIMUM_TORQUE, value.as_slice())];
        proof {
            assert(access_views(accesses@) =~= seq![write_access(MAXIMUM_TORQUE, be16(max_torque))]);
        }
        match self.device.interface.run_eeprom_on(id, LOCK_FLAG, accesses.as_slice()) {
            Ok(_) => Ok(()),
            Err(e) => Err(e),
        }
    }

    /// Sets the P and D coefficients (EEPROM); SCSCL servos have no I term, so `ki` must be 0.
    pub fn blocking_set_pid_coefficients(&mut self, id: u8, kp: u8, kd: u8, ki: u8) -> (r: Result<(), ProtocolError<L::Error>>)
        ensures
            (kp > 254 || kd > 254 || ki != 0) ==> r == Err::<(), ProtocolError<L::Error>>(ProtocolError::InvalidSetting) && *final(self) == *old(self),
            !(kp > 254 || kd > 254 || ki != 0) ==> {
                let accs = seq![write_access(P_COEFFICIENT, seq![kp]), write_access(D_COEFFICIENT, seq![kd])];
                eeprom_done(final(self).uart(), old(self).uart(), id, LOCK_FLAG, accs)
                    && r == unit_of(eeprom_outcome(final(self).uart(), old(self).uart(), id, LOCK_FLAG, accs))
            },
    {
        if kp > 254 || kd > 254 || ki != 0 {
            return Err(ProtocolError::InvalidSetting);
        }
        let p = [kp];
        let d = [kd];
        let accesses = [Access::write(P_COEFFICIENT, p.as_slice()), Access::write(D_COEFFICIENT, d.as_slice())];
        proof {
            assert(p@ =~= seq![kp]);
            assert(d@ =~= seq![kd]);
            assert(access_views(accesses@) =~= seq![write_access(P_COEFFICIENT, seq![kp]), write_access(D_COEFFICIENT, seq![kd])]);
        }
        match self.device.interface.run_eeprom_on(id, LOCK_FLAG, accesses.as_slice()) {
            Ok(_) => Ok(()),
            Err(e) => Err(e),
        }
    }

    /// Moves servo `id` to position `steps` (0-1023).
    pub fn blocking_write_position(&mut self, id: u8, steps: u16) -> (r: Result<(), ProtocolError<L::Error>>)
        ensures
            steps > SCSCL_MAX_POSITION_STEPS ==> r == Err::<(), ProtocolError<L::Error>>(ProtocolError::InvalidSetting) && *final(self) == *old(self),
            steps <= SCSCL_MAX_POSITION_STEPS ==> chain_done(final(self).uart(), old(self).uart(), id, seq![write_access(TARGET_POSITION, be16(steps))])
                && r == unit_of(chain_outcome(final(self).uart(), old(self).uart(), id, seq![write_access(TARGET_POSITION, be16(steps))])),
    {
        if steps > SCSCL_MAX_POSITION_STEPS {
            return Err(ProtocolError::InvalidSetting);
        }
        let value = u16_to_be(steps);
        let accesses = [Access::write(TARGET_POSITION, value.as_slice())];
        proof {
            assert(access_views(accesses@) =~= seq![write_access(TARGET_POSITION, be16(steps))]);
        }
        match self.device.interface.run_chain_on(id, accesses.as_slice()) {
            Ok(_) => Ok(()),
            Err(e) => Err(e),
        }
    }

    /// Reads one register of `len` bytes of servo `id`.
    fn read_one(&mut self, id: u8, address: u8, len: usize) -> (r: Result<Vec<u8>, ProtocolError<L::Error>>)
        ensures
            chain_done(final(self).uart(), old(self).uart(), id, seq![read_access(address, len as nat)]),
            match chain_outcome(final(self).uart(), old(self).uart(), id, seq![read_access(address, len as nat)]) {
                Ok(vs) => r is Ok && r->Ok_0@ == vs[0] && r->Ok_0@.len() == len,
                Err(e) => r == Err::<Vec<u8>, ProtocolError<L::Error>>(e),
            },
    {
        let accesses = [Access::read(address, len)];
        proof {
            assert(access_views(accesses@) =~= seq![read_access(address, len as nat)]);
        }
        match self.device.interface.run_chain_on(id, accesses.as_slice()) {
            Ok(vs) => {
                proof {
                    assert(seq![read_access(address, len as nat)][0] is Read);
                }
                let mut vs = vs;
                let v = vs.remove(0);
                Ok(v)
            },
            Err(e) => Err(e),
        }
    }

    /// Reads the current position in steps.
    pub fn blocking_read_position(&mut self, id: u8) -> (r: Result<u16, ProtocolError<L::Error>>)
        ensures
            chain_done(final(self).uart(), old(self).uart(), id, seq![read_access(CURRENT_POSITION, 2)]),
            r == mapped(chain_outcome(final(self).uart(), old(self).uart(), id, seq![read_access(CURRENT_POSITION, 2)]), |vs: Seq<Seq<u8>>| from_be16(vs[0])),
    {
        match self.read_one(id, CURRENT_POSITION, 2) {
            Ok(v) => Ok(be_word(&v)),
            Err(e) => Err(e),
        }
    }

    /// Reads the current speed in steps/second (negative = CCW).
    pub fn blocking_read_speed(&mut self, id: u8) -> (r: Result<i16, ProtocolError<L::Error>>)
        ensures
            chain_done(final(self).uart(), old(self).uart(), id, seq![read_access(CURRENT_SPEED, 2)]),
            r == mapped(chain_outcome(final(self).uart(), old(self).uart(), id, seq![read_access(CURRENT_SPEED, 2)]), |vs: Seq<Seq<u8>>| speed_of(from_be16(vs[0]))),
    {
        match self.read_one(id, CURRENT_SPEED, 2) {
            Ok(v) => Ok(decode_speed(be_word(&v))),
            Err(e) => Err(e),
        }
    }

    /// Reads the supply voltage in 0.1 V units.
    pub fn blocking_read_voltage(&mut self, id: u8) -> (r: Result<u8, ProtocolError<L::Error>>)
        ensures
            chain_done(final(self).uart(), old(self).uart(), id, seq![read_access(CURRENT_VOLTAGE, 1)]),
            r == mapped(chain_outcome(final(self).uart(), old(self).uart(), id, seq![read_access(CURRENT_VOLTAGE, 1)]), |vs: Seq<Seq<u8>>| vs[0][0]),
    {
        match self.read_one(id, CURRENT_VOLTAGE, 1) {
            Ok(v) => Ok(v[0]),
            Err(e) => Err(e),
        }
    }

    /// Reads the temperature in °C.
    pub fn blocking_read_temperature(&mut self, id: u8) -> (r: Result<u8, ProtocolError<L::Error>>)
        ensures
            chain_done(final(self).uart(), old(self).uart(), id, seq![read_access(CURRENT_TEMPERATURE, 1)]),
            r == mapped(chain_outcome(final(self).uart(), old(self).uart(), id, seq![read_access(CURRENT_TEMPERATURE, 1)]), |vs: Seq<Seq<u8>>| vs[0][0]),
    {
        match self.read_one(id, CURRENT_TEMPERATURE, 1) {
            Ok(v) => Ok(v[0]),
            Err(e) => Err(e),
        }
    }

    /// Reads the load in 0.1% units (negative = CCW).
    pub fn blocking_read_load(&mut self, id: u8) -> (r: Result<i16, ProtocolError<L::Error>>)
        ensures
            chain_done(final(self).uart(), old(self).uart(), id, seq![read_access(CURRENT_LOAD, 2)]),
            r == mapped(chain_outcome(final(self).uart(), old(self).uart(), id, seq![read_access(CURRENT_LOAD, 2)]), |vs: Seq<Seq<u8>>| load_of(from_be16(vs[0]))),
    {
        match self.read_one(id, CURRENT_LOAD, 2) {
            Ok(v) => Ok(decode_load(be_word(&v))),
            Err(e) => Err(e),
        }
    }

    /// Reads the current draw in raw units.
    pub fn blocking_read_current(&mut self, id: u8) -> (r: Result<i16, ProtocolError<L::Error>>)
        ensures
            chain_done(final(self).uart(), old(self).uart(), id, seq![read_access(CURRENT_CURRENT, 2)]),
            r == mapped(chain_outcome(final(self).uart(), old(self).uart(), id, seq![read_access(CURRENT_CURRENT, 2)]), |vs: Seq<Seq<u8>>| current_of(from_be16(vs[0]))),
    {
        match self.read_one(id, CURRENT_CURRENT, 2) {
            Ok(v) => Ok(decode_current(be_word(&v))),
            Err(e) => Err(e),
        }
    }

    /// Reads the error flags.
    pub fn blocking_read_status(&mut self, id: u8) -> (r: Result<ScsStatus, ProtocolError<L::Error>>)
        ensures
            chain_done(final(self).uart(), old(self).uart(), id, seq![read_access(SERVO_STATUS, 1)]),
            r == mapped(chain_outcome(final(self).uart(), old(self).uart(), id, seq![read_access(SERVO_STATUS, 1)]), |vs: Seq<Seq<u8>>| status_of(id, vs[0][0])),
    {
        match self.read_one(id, SERVO_STATUS, 1) {
            Ok(v) => {
                let b = v[0];
                Ok(ScsStatus {
                    id,
                    voltage_error: bit_of(b, 0),
                    temperature_error: bit_of(b, 2),
                    overload_error: bit_of(b, 5),
                    magnetic_error: false,
                    current_error: false,
                })
            },
            Err(e) => Err(e),
        }
    }

    /// Reads whether the servo is moving.
    pub fn blocking_is_moving(&mut self, id: u8) -> (r: Result<bool, ProtocolError<L::Error>>)
        ensures
            chain_done(final(self).uart(), old(self).uart(), id, seq![read_access(MOVE_FLAG, 1)]),
            r == mapped(chain_outcome(final(self).uart(), old(self).uart(), id, seq![read_access(MOVE_FLAG, 1)]), |vs: Seq<Seq<u8>>| bit(vs[0][0], 0)),
    {
        match self.read_one(id, MOVE_FLAG, 1) {
            Ok(v) => Ok(bit_of(v[0], 0)),
            Err(e) => Err(e),
        }
    }

    /// Reads the operating mode: wheel when both angle limits are zero.
    pub fn blocking_read_mode(&mut self, id: u8) -> (r: Result<ServoMode, ProtocolError<L::Error>>)
        ensures
            chain_done(final(self).uart(), old(self).uart(), id, mode_accesses()),
            r == mapped(chain_outcome(final(self).uart(), old(self).uart(), id, mode_accesses()), |vs: Seq<Seq<u8>>| mode_of(vs)),
    {
        let accesses = [Access::read(MINIMUM_ANGLE, 2), Access::read(MAXIMUM_ANGLE, 2)];
        proof {
            assert(access_views(accesses@) =~= mode_accesses());
        }
        let vs = match self.device.interface.run_chain_on(id, accesses.as_slice()) {
            Ok(vs) => vs,
            Err(e) => {
                return Err(e);
            },
        };
        proof {
            assert(mode_accesses()[0] is Read);
            assert(mode_accesses()[1] is Read);
        }
        let min = be_word(&vs[0]);
        let max = be_word(&vs[1]);
        if min == 0 && max == 0 {
            Ok(ServoMode::Wheel)
        } else {
            Ok(ServoMode::Position)
        }
    }

    /// Selects wheel mode (angle limits `0, 0`) or position mode (`0, 1023`).
    pub fn blocking_set_operating_mode(&mut self, id: u8, mode: ServoMode) -> (r: Result<(), ProtocolError<L::Error>>)
        ensures
            eeprom_done(final(self).uart(), old(self).uart(), id, LOCK_FLAG, angle_limit_accesses(mode_limits(mode).0, mode_limits(mode).1)),
            r == unit_of(eeprom_outcome(final(self).uart(), old(self).uart(), id, LOCK_FLAG, angle_limit_accesses(mode_limits(mode).0, mode_limits(mode).1))),
    {
        match mode {
            ServoMode::Wheel => self.blocking_set_angle_limits(id, 0, 0),
            ServoMode::Position => self.blocking_set_angle_limits(id, 0, SCSCL_MAX_POSITION_STEPS),
        }
    }

    /// Drives servo `id` in wheel mode with signed PWM `output` (bit 10 is the sign).
    pub fn blocking_write_motor(&mut self, id: u8, output: i16) -> (r: Result<(), ProtocolError<L::Error>>)
        ensures
            sign_magnitude(output, 0x03FF, 0x0400) is None ==> r == Err::<(), ProtocolError<L::Error>>(ProtocolError::InvalidSetting) && *final(self) == *old(self),
            sign_magnitude(output, 0x03FF, 0x0400) matches Some(w) ==> chain_done(final(self).uart(), old(self).uart(), id, seq![write_access(GOAL_TIME, be16(w))])
                && r == unit_of(chain_outcome(final(self).uart(), old(self).uart(), id, seq![write_access(GOAL_TIME, be16(w))])),
    {
        let encoded = match encode_signed_pwm(output) {
            Some(w) => w,
            None => {
                return Err(ProtocolError::InvalidSetting);
            },
        };
        let value = u16_to_be(encoded);
        let accesses = [Access::write(GOAL_TIME, value.as_slice())];
        proof {
            assert(access_views(accesses@) =~= seq![write_access(GOAL_TIME, be16(encoded))]);
        }
        match self.device.interface.run_chain_on(id, accesses.as_slice()) {
            Ok(_) => Ok(()),
            Err(e) => Err(e),
        }
    }

    /// ACTION: applies the writes registered with REG WRITE.
    pub fn blocking_action(&mut self, id: u8) -> (r: Result<(), ProtocolError<L::Error>>)
        ensures
            final(self).uart().same_config(&old(self).uart()),
            extends(old(self).uart().history(), final(self).uart().history()),
            ({
                let ev = added(old(self).uart().history(), final(self).uart().history());
                let eff = transfer_effect(old(self).uart().status_level(), id, Instruction::RegAction, Seq::empty(), 0, ev);
                spans(eff, ev.len()) && r == unit_of(eff.unwrap().0)
            }),
    {
        self.device.interface.blocking_action(id)
    }

    /// REG WRITE of a position command, applied on the next ACTION.
    pub fn blocking_reg_write_position(&mut self, id: u8, position: u16, time: u16, speed: u16) -> (r: Result<(), ProtocolError<L::Error>>)
        ensures
            position > SCSCL_MAX_POSITION_STEPS ==> r == Err::<(), ProtocolError<L::Error>>(ProtocolError::InvalidSetting) && *final(self) == *old(self),
            position <= SCSCL_MAX_POSITION_STEPS ==> {
                let ev = added(old(self).uart().history(), final(self).uart().history());
                let eff = transfer_effect(
                    old(self).uart().status_level(),
                    id,
                    Instruction::RegWrite,
                    seq![addr::TARGET_POSITION] + position_data(position, time, speed),
                    0,
                    ev,
                );
                &&& final(self).uart().same_config(&old(self).uart())
                &&& extends(old(self).uart().history(), final(self).uart().history())
                &&& spans(eff, ev.len())
                &&& r == unit_of(eff.unwrap().0)
            },
    {
        if position > SCSCL_MAX_POSITION_STEPS {
            return Err(ProtocolError::InvalidSetting);
        }
        let data = encode_position_payload(position, time, speed);
        self.device.interface.blocking_reg_write(id, addr::TARGET_POSITION, data.as_slice())
    }

    /// Broadcasts position moves to several servos in one SYNC WRITE.
    pub fn blocking_sync_write_position<const SIZE: usize>(&mut self, moves: &[ScsclPositionMove; SIZE]) -> (r: Result<(), ProtocolError<L::Error>>)
        ensures
            packed_sync_write_done(final(self).uart(), old(self).uart(), addr::TARGET_POSITION, 6,
                moves@.map_values(|m: ScsclPositionMove| position_entry(m)), 7, true, r),
    {
        let mut payload = [0u8; 256];
        let (data_len, offset) = match fill_sync_position_payload::<L::Error>(moves.as_slice(), &mut payload) {
            Ok(x) => x,
            Err(e) => {
                return Err(e);
            },
        };
        let slice = payload.as_slice();
        let body = &slice[0..offset];
        proof {
            assert(body@ =~= payload@.take(offset as int));
        }
        self.device.interface.blocking_sync_write(addr::TARGET_POSITION, data_len, body)
    }

    /// Broadcasts torque modes to several servos in one SYNC WRITE.
    pub fn blocking_sync_write_torque_mode<const SIZE: usize>(&mut self, commands: &[TorqueModeCommand; SIZE]) -> (r: Result<(), ProtocolError<L::Error>>)
        ensures
            packed_sync_write_done(final(self).uart(), old(self).uart(), TORQUE_SWITCH, 1,
                commands@.map_values(|c: TorqueModeCommand| torque_mode_entry(c)), 2, true, r),
    {
        let mut payload = [0u8; 256];
        let (data_len, offset) = match fill_sync_torque_mode_payload::<L::Error>(commands.as_slice(), &mut payload) {
            Ok(x) => x,
            Err(e) => {
                return Err(e);
            },
        };
        let slice = payload.as_slice();
        let body = &slice[0..offset];
        proof {
            assert(body@ =~= payload@.take(offset as int));
        }
        self.device.interface.blocking_sync_write(TORQUE_SWITCH, data_len, body)
    }

    /// Broadcasts wheel-mode motor outputs to several servos in one SYNC WRITE.
    pub fn blocking_sync_write_motor<const SIZE: usize>(&mut self, commands: &[ScsclMotorCommand; SIZE]) -> (r: Result<(), ProtocolError<L::Error>>)
        ensures
            packed_sync_write_done(final(self).uart(), old(self).uart(), GOAL_TIME, 2,
                commands@.map_values(|c: ScsclMotorCommand| motor_entry(c)), 3, false, r),
    {
        let mut payload = [0u8; 256];
        let (data_len, offset) = match fill_sync_motor_payload::<L::Error>(commands.as_slice(), &mut payload) {
            Ok(x) => x,
            Err(e) => {
                return Err(e);
            },
        };
        let slice = payload.as_slice();
        let body = &slice[0..offset];
        proof {
            assert(body@ =~= payload@.take(offset as int));
        }
        self.device.interface.blocking_sync_write(GOAL_TIME, data_len, body)
    }

    /// Broadcasts `DATA_LEN` raw bytes per servo, for the registers from
    /// `address` on, in one SYNC WRITE.
    pub fn blocking_sync_write<const DATA_LEN: usize, const SIZE: usize>(
        &mut self,
        address: u8,
        commands: &[SyncWriteData<DATA_LEN>; SIZE],
    ) -> (r: Result<(), ProtocolError<L::Error>>)
        ensures
            DATA_LEN > 255 ==> r == Err::<(), ProtocolError<L::Error>>(ProtocolError::InvalidLength) && *final(self) == *old(self),
            DATA_LEN <= 255 ==> packed_sync_write_done(final(self).uart(), old(self).uart(), address, DATA_LEN as u8,
                commands@.map_values(|c: SyncWriteData<DATA_LEN>| raw_entry(c)), (DATA_LEN + 1) as nat, true, r),
    {
        if DATA_LEN > 255 {
            return Err(ProtocolError::InvalidLength);
        }
        let mut payload = [0u8; 256];
        let offset = match fill_sync_raw_payload::<DATA_LEN, L::Error>(commands.as_slice(), &mut payload) {
            Ok(len) => len,
            Err(e) => {
                return Err(e);
            },
        };
        let slice = payload.as_slice();
        let body = &slice[0..offset];
        proof {
            assert(body@ =~= payload@.take(offset as int));
        }
        self.device.interface.blocking_sync_write(address, DATA_LEN as u8, body)
    }

    /// Reads position, speed, load, voltage and temperature of several servos
    /// in one SYNC READ (8 bytes from the current position on).
    pub fn blocking_sync_read_state<const SIZE: usize>(&mut self, ids: &[u8; SIZE]) -> (r: Result<
        [ScsclServoState; SIZE],
        ProtocolError<L::Error>,
    >)
        ensures
            SIZE * 8 > PAYLOAD_CAPACITY ==> r == Err::<[ScsclServoState; SIZE], ProtocolError<L::Error>>(ProtocolError::InvalidLength)
                && *final(self) == *old(self),
            SIZE * 8 <= PAYLOAD_CAPACITY ==> {
                let ev = added(old(self).uart().history(), final(self).uart().history());
                let eff = sync_read_effect(addr::CURRENT_POSITION, 8, ids@, (SIZE * 8) as nat, ev);
                &&& final(self).uart().same_config(&old(self).uart())
                &&& extends(old(self).uart().history(), final(self).uart().history())
                &&& spans(eff, ev.len())
                &&& match eff.unwrap().0 {
                    Ok(rs) => r is Ok && forall|i: int| 0 <= i < SIZE ==> #[trigger] r->Ok_0@[i] == state_of(ids@[i], rs[i]),
                    Err(e) => r == Err::<[ScsclServoState; SIZE], ProtocolError<L::Error>>(e),
                }
            },
    {
        let total: usize = match SIZE.checked_mul(8) {
            Some(t) => t,
            None => {
                return Err(ProtocolError::InvalidLength);
            },
        };
        if total > PAYLOAD_CAPACITY {
            return Err(ProtocolError::InvalidLength);
        }
        let mut output: Vec<u8> = vec![0u8; total];
        let ghost h0 = self.device.interface.history();
        match self.device.interface.blocking_sync_read(addr::CURRENT_POSITION, 8, ids.as_slice(), output.as_mut_slice()) {
            Ok(()) => {},
            Err(e) => {
                return Err(e);
            },
        }
        let ghost rs = sync_read_effect(
            addr::CURRENT_POSITION,
            8,
            ids@,
            (SIZE * 8) as nat,
            added(h0, self.device.interface.history()),
        ).unwrap().0->Ok_0;
        let d = ScsclServoState::default();
        let mut states: [ScsclServoState; SIZE] = [d; SIZE];
        let out = output.as_slice();
        let mut i: usize = 0;
        while i < SIZE
            invariant
                i <= SIZE,
                SIZE * 8 <= PAYLOAD_CAPACITY,
                ids@.len() == SIZE,
                out@.len() == SIZE * 8,
                rs.len() == SIZE,
                forall|k: int| 0 <= k < SIZE ==> (#[trigger] rs[k]).len() == 8,
                forall|k: int, t: int| 0 <= k < rs.len() && 0 <= t < 8 ==> out@[k * 8 + t] == #[trigger] rs[k][t],
                states@.len() == SIZE,
                forall|k: int| 0 <= k < i ==> #[trigger] states@[k] == state_of(ids@[k], rs[k]),
            decreases SIZE - i,
        {
            let start = i * 8;
            let chunk = &out[start..start + 8];
            proof {
                assert forall|t: int| 0 <= t < 8 implies chunk@[t] == rs[i as int][t] by {
                    assert(out@[i * 8 + t] == rs[i as int][t]);
                }
                assert(chunk@ =~= rs[i as int]);
            }
            states[i] = parse_state_chunk(ids[i], chunk);
            i = i + 1;
        }
        Ok(states)
    }

    /// Reads position, speed, load, voltage, temperature and the move flag of servo `id`.
    pub fn blocking_read_state(&mut self, id: u8) -> (r: Result<ServoTelemetry, ProtocolError<L::Error>>)
        ensures
            chain_done(final(self).uart(), old(self).uart(), id, state_accesses()),
            r == mapped(chain_outcome(final(self).uart(), old(self).uart(), id, state_accesses()), |vs: Seq<Seq<u8>>| telemetry_of(vs)),
    {
        let accesses = [
            Access::read(CURRENT_POSITION, 2),
            Access::read(CURRENT_SPEED, 2),
            Access::read(CURRENT_LOAD, 2),
            Access::read(CURRENT_VOLTAGE, 1),
            Access::read(CURRENT_TEMPERATURE, 1),
            Access::read(MOVE_FLAG, 1),
        ];
        proof {
            assert(access_views(accesses@) =~= state_accesses());
        }
        let vs = match self.device.interface.run_chain_on(id, accesses.as_slice()) {
            Ok(vs) => vs,
            Err(e) => {
                return Err(e);
            },
        };
        proof {
            assert(state_accesses()[0] is Read);
            assert(state_accesses()[1] is Read);
            assert(state_accesses()[2] is Read);
            assert(state_accesses()[3] is Read);
            assert(state_accesses()[4] is Read);
            assert(state_accesses()[5] is Read);
        }
        let position = be_word(&vs[0]);
        let speed = be_word(&vs[1]);
        let load = be_word(&vs[2]);
        Ok(ServoTelemetry {
            position_raw: position as i16,
            speed_raw: decode_speed(speed),
            load_raw: decode_load(load),
            voltage_raw: vs[3][0],
            temperature_raw: vs[4][0],
            current_raw: None,
            moving: bit_of(vs[5][0], 0),
        })
    }
}

} // verus!
