//! SMS/STS series registers (STS3215, SMS_STS, etc.).
//!
//! These servos use little-endian wire format and a magnetic encoder.

use vstd::prelude::*;

use crate::access::{access_effect, lock_access};
use crate::error::ProtocolError;
use crate::uart::{added, extends, spans, SerialLink, UartBusInterface};

verus! {

/// Firmware major version (EPROM, read-only).
pub const FW_MAJOR_VERSION: u8 = 0x00;

/// Firmware minor version (EPROM, read-only).
pub const FW_MINOR_VERSION: u8 = 0x01;

/// Endianness indicator (`0` = little-endian; EPROM, read-only).
pub const ENDIANNESS: u8 = 0x02;

/// Servo major version (EPROM, read-only).
pub const SERVO_MAJOR_VERSION: u8 = 0x03;

/// Servo minor version (EPROM, read-only).
pub const SERVO_MINOR_VERSION: u8 = 0x04;

/// Servo ID (EPROM, `0..=253`; `0xFE` is broadcast).
pub const ID: u8 = 0x05;

/// Baud-rate setting (EPROM).
pub const BAUDRATE: u8 = 0x06;

/// Response status level (EPROM).
pub const RESPONSE_STATUS_LEVEL: u8 = 0x08;

/// Minimum angle limit in steps, 2 bytes (EPROM).
pub const MINIMUM_ANGLE: u8 = 0x09;

/// Maximum angle limit in steps, 2 bytes (EPROM).
pub const MAXIMUM_ANGLE: u8 = 0x0B;

/// Maximum temperature limit in °C (EPROM).
pub const MAXIMUM_TEMPERATURE: u8 = 0x0D;

/// Maximum input voltage in `0.1V` units (EPROM).
pub const MAXIMUM_INPUT_VOLTAGE: u8 = 0x0E;

/// Minimum input voltage in `0.1V` units (EPROM).
pub const MINIMUM_INPUT_VOLTAGE: u8 = 0x0F;

/// Maximum torque in `0.1%` units, 2 bytes (EPROM).
pub const MAXIMUM_TORQUE: u8 = 0x10;

/// Phase (special-function byte, EPROM).
pub const PHASE: u8 = 0x12;

/// Unloading/protection conditions (EPROM).
pub const UNLOADING_CONDITIONS: u8 = 0x13;

/// LED alarm conditions (EPROM).
pub const LED_ALARM_CONDITION: u8 = 0x14;

/// P (proportional) coefficient (EPROM).
pub const P_COEFFICIENT: u8 = 0x15;

/// D (derivative) coefficient (EPROM).
pub const D_COEFFICIENT: u8 = 0x16;

/// I (integral) coefficient (EPROM).
pub const I_COEFFICIENT: u8 = 0x17;

/// Minimum starting force in `0.1%` units (EPROM, `0..=254`).
pub const MINIMUM_STARTING_FORCE: u8 = 0x18;

/// Position-loop integral limit (EPROM, `0..=254`).
pub const INTEGRAL_LIMIT: u8 = 0x19;

/// Clockwise insensitive zone in steps (EPROM, `0..=16`, default `1`).
pub const CLOCKWISE_INSENSITIVE_ZONE: u8 = 0x1A;

/// Anticlockwise insensitive zone in steps (EPROM, `0..=16`, default `1`).
pub const ANTICLOCKWISE_INSENSITIVE_ZONE: u8 = 0x1B;

/// Protection current in 6.5 mA units (EPROM, `0..=2047`, 2 bytes).
pub const PROTECTION_CURRENT: u8 = 0x1C;

/// Angular resolution multiplier (EPROM, `1..=128`).
pub const ANGLE_RESOLUTION: u8 = 0x1E;

/// Position offset, 2 bytes (EPROM): bit 11 is the sign of the low 11
/// bits, bit 12 adds 2048 to the magnitude.
pub const OFFSET: u8 = 0x1F;

/// Operating mode (EPROM; `0` position, `1` wheel, `2` open-loop PWM, `3` step).
pub const MODE: u8 = 0x21;

/// Holding torque after overload protection in `1%` units (EPROM, `0..=254`, default `20`).
pub const HOLDING_TORQUE: u8 = 0x22;

/// Overload protection time in 10 ms units (EPROM, `0..=254`, default `200`/2 s).
pub const PROTECTION_TIME: u8 = 0x23;

/// Overload torque threshold in `1%` units (EPROM, `0..=254`, default `80`).
pub const OVERLOAD_TORQUE: u8 = 0x24;

/// Velocity-loop proportional coefficient (EPROM, `0..=254`).
pub const VELOCITY_LOOP_P_COEFFICIENT: u8 = 0x25;

/// Over-current protection time in 10 ms units (EPROM, `0..=254`, default `200`/2 s).
pub const OVERCURRENT_PROTECTION_TIME: u8 = 0x26;

/// Velocity-loop integral coefficient (EPROM, `0..=254`).
pub const VELOCITY_LOOP_I_COEFFICIENT: u8 = 0x27;

/// Torque switch (SRAM; `0` disable, `1` enable, `2` free, `128` calibrate the middle position).
pub const TORQUE_SWITCH: u8 = 0x28;

/// Acceleration (SRAM).
pub const ACCELERATION: u8 = 0x29;

/// Target position in signed steps (bit 15 is the sign), 2 bytes (SRAM).
pub const TARGET_POSITION: u8 = 0x2A;

/// Goal time, 2 bytes (SRAM).
pub const GOAL_TIME: u8 = 0x2C;

/// Goal speed in steps/s, 2 bytes (SRAM).
pub const GOAL_SPEED: u8 = 0x2E;

/// Runtime torque limit in `0.1%` units, 2 bytes (SRAM).
pub const TORQUE_LIMIT: u8 = 0x30;

/// EEPROM lock flag (SRAM; `0` = unlocked, `1` = locked).
pub const LOCK_FLAG: u8 = 0x37;

/// Current position in signed steps (bit 15 is the sign), 2 bytes (SRAM, read-only).
pub const CURRENT_POSITION: u8 = 0x38;

/// Current speed in signed steps/s (bit 15 is the sign), 2 bytes (SRAM, read-only).
pub const CURRENT_SPEED: u8 = 0x3A;

/// Current load in signed `0.1%` units (bit 10 is the sign), 2 bytes (SRAM, read-only).
pub const CURRENT_LOAD: u8 = 0x3C;

/// Current voltage in `0.1V` units (SRAM, read-only).
pub const CURRENT_VOLTAGE: u8 = 0x3E;

/// Current temperature in °C (SRAM, read-only).
pub const CURRENT_TEMPERATURE: u8 = 0x3F;

/// Asynchronous-write flag (SRAM, read-only).
pub const ASYNCHRONOUS_WRITE_FLAG: u8 = 0x40;

/// Servo status error flags: voltage bit 0, magnetic bit 1, temperature bit 2,
/// current bit 3, overload bit 5 (SRAM, read-only).
pub const SERVO_STATUS: u8 = 0x41;

/// Move flag, bit 0 (SRAM, read-only; `1` = moving).
pub const MOVE_FLAG: u8 = 0x42;

/// Current target position in signed steps (bit 15 is sign; SRAM, read-only, 2 bytes).
pub const TARGET_POSITION_READBACK: u8 = 0x43;

/// Current draw in signed 6.5 mA units (bit 15 is sign), 2 bytes (SRAM, read-only).
pub const CURRENT_CURRENT: u8 = 0x45;

/// Operating mode register values.
#[derive(Debug, Clone, Copy, PartialEq, Eq, Structural)]
pub enum OperatingMode {
    Position,
    Wheel,
    PwmOpenLoop,
    Step,
    /// Any other register value.
    Unknown(u8),
}

impl OperatingMode {
    /// The mode a register value denotes.
    pub open spec fn spec_from_raw(value: u8) -> OperatingMode {
        match value {
            0 => OperatingMode::Position,
            1 => OperatingMode::Wheel,
            2 => OperatingMode::PwmOpenLoop,
            3 => OperatingMode::Step,
            _ => OperatingMode::Unknown(value),
        }
    }

    /// The register value of a mode.
    pub open spec fn spec_raw(self) -> u8 {
        match self {
            OperatingMode::Position => 0,
            OperatingMode::Wheel => 1,
            OperatingMode::PwmOpenLoop => 2,
            OperatingMode::Step => 3,
            OperatingMode::Unknown(v) => v,
        }
    }

    pub fn from_raw(value: u8) -> (m: OperatingMode)
        ensures
            m == Self::spec_from_raw(value),
    {
        match value {
            0 => OperatingMode::Position,
            1 => OperatingMode::Wheel,
            2 => OperatingMode::PwmOpenLoop,
            3 => OperatingMode::Step,
            _ => OperatingMode::Unknown(value),
        }
    }

    pub fn raw(self) -> (v: u8)
        ensures
            v == self.spec_raw(),
    {
        match self {
            OperatingMode::Position => 0,
            OperatingMode::Wheel => 1,
            OperatingMode::PwmOpenLoop => 2,
            OperatingMode::Step => 3,
            OperatingMode::Unknown(v) => v,
        }
    }
}

/// Torque switch register values of the SMS/STS series.
#[derive(Debug, Clone, Copy, PartialEq, Eq, Structural)]
pub enum TorqueMode {
    Disable,
    Enable,
    Free,
    /// Sets the current position as the middle position (2048).
    Calibration,
    /// Any other register value.
    Unknown(u8),
}

impl TorqueMode {
    /// The register value of a mode.
    pub open spec fn spec_raw(self) -> u8 {
        match self {
            TorqueMode::Disable => 0,
            TorqueMode::Enable => 1,
            TorqueMode::Free => 2,
            TorqueMode::Calibration => 128,
            TorqueMode::Unknown(v) => v,
        }
    }

    pub fn raw(self) -> (v: u8)
        ensures
            v == self.spec_raw(),
    {
        match self {
            TorqueMode::Disable => 0,
            TorqueMode::Enable => 1,
            TorqueMode::Free => 2,
            TorqueMode::Calibration => 128,
            TorqueMode::Unknown(v) => v,
        }
    }
}

/// The SMS/STS register map on a packet interface.
pub struct SmsStsDevice<L: SerialLink> {
    pub interface: UartBusInterface<L>,
}

impl<L: SerialLink> SmsStsDevice<L> {
    pub fn new(interface: UartBusInterface<L>) -> (d: Self)
        ensures
            d.interface == interface,
    {
        SmsStsDevice { interface }
    }

    /// Lock EEPROM (prevent writes from being saved).
    pub fn blocking_lock_eeprom(&mut self) -> (r: Result<(), ProtocolError<L::Error>>)
        ensures
            final(self).interface.same_config(&old(self).interface),
            extends(old(self).interface.history(), final(self).interface.history()),
            ({
                let ev = added(old(self).interface.history(), final(self).interface.history());
                let eff = access_effect(
                    old(self).interface.status_level(),
                    old(self).interface.bus_id(),
                    lock_access(LOCK_FLAG, true),
                    ev,
                );
                &&& spans(eff, ev.len())
                &&& match eff.unwrap().0 {
                    Ok(_) => r is Ok,
                    Err(e) => r == Err::<(), ProtocolError<L::Error>>(e),
                }
            }),
    {
        self.interface.write_lock_flag(LOCK_FLAG, true)
    }

    /// Unlock EEPROM (allow writes to be saved).
    pub fn blocking_unlock_eeprom(&mut self) -> (r: Result<(), ProtocolError<L::Error>>)
        ensures
            final(self).interface.same_config(&old(self).interface),
            extends(old(self).interface.history(), final(self).interface.history()),
            ({
                let ev = added(old(self).interface.history(), final(self).interface.history());
                let eff = access_effect(
                    old(self).interface.status_level(),
                    old(self).interface.bus_id(),
                    lock_access(LOCK_FLAG, false),
                    ev,
                );
                &&& spans(eff, ev.len())
                &&& match eff.unwrap().0 {
                    Ok(_) => r is Ok,
                    Err(e) => r == Err::<(), ProtocolError<L::Error>>(e),
                }
            }),
    {
        self.interface.write_lock_flag(LOCK_FLAG, false)
    }
}

} // verus!
