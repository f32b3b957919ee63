//! SCSCL series registers (SC09, SC15, etc.).
//!
//! These servos use big-endian wire format and potentiometer-based position sensing.

use vstd::prelude::*;

use crate::access::{access_effect, lock_access};
use crate::error::ProtocolError;
use crate::uart::{added, extends, spans, SerialLink, UartBusInterface};

verus! {

/// Firmware major version (EPROM, read-only).
pub const FW_MAJOR_VERSION: u8 = 0x00;

/// Firmware minor version (EPROM, read-only).
pub const FW_MINOR_VERSION: u8 = 0x01;

/// Endianness indicator (`1` = big-endian; EPROM, read-only).
pub const ENDIANNESS: u8 = 0x02;

/// Servo major version (EPROM, read-only).
pub const SERVO_MAJOR_VERSION: u8 = 0x03;

/// Servo minor version (EPROM, read-only).
pub const SERVO_MINOR_VERSION: u8 = 0x04;

/// Servo ID (EPROM, `0..=253`; `0xFE` is broadcast).
pub const ID: u8 = 0x05;

/// Baud-rate setting (EPROM).
pub const BAUDRATE: u8 = 0x06;

/// Response status level (EPROM; `0` = READ/PING only, `1` = all commands).
pub const RESPONSE_STATUS_LEVEL: u8 = 0x08;

/// Minimum angle limit in steps, 2 bytes (EPROM; `0` selects wheel/PWM mode).
pub const MINIMUM_ANGLE: u8 = 0x09;

/// Maximum angle limit in steps, 2 bytes (EPROM; `0` selects wheel/PWM mode).
pub const MAXIMUM_ANGLE: u8 = 0x0B;

/// Maximum temperature limit in °C (EPROM).
pub const MAXIMUM_TEMPERATURE: u8 = 0x0D;

/// Maximum input voltage in `0.1V` units (EPROM).
pub const MAXIMUM_INPUT_VOLTAGE: u8 = 0x0E;

/// Minimum input voltage in `0.1V` units (EPROM).
pub const MINIMUM_INPUT_VOLTAGE: u8 = 0x0F;

/// Maximum torque in `0.1%` units, 2 bytes (EPROM).
pub const MAXIMUM_TORQUE: u8 = 0x10;

/// Phase (special-function byte, EPROM).
pub const PHASE: u8 = 0x12;

/// Unloading/protection conditions (EPROM).
pub const UNLOADING_CONDITIONS: u8 = 0x13;

/// LED alarm conditions (EPROM).
pub const LED_ALARM_CONDITION: u8 = 0x14;

/// P (proportional) coefficient (EPROM).
pub const P_COEFFICIENT: u8 = 0x15;

/// D (derivative) coefficient (EPROM).
pub const D_COEFFICIENT: u8 = 0x16;

/// Minimum starting force in `0.1%` units (EPROM, `0..=1000`, 2 bytes).
pub const MINIMUM_STARTING_FORCE: u8 = 0x18;

/// Clockwise insensitive zone in steps (EPROM, `0..=16`, default `1`).
pub const CLOCKWISE_INSENSITIVE_ZONE: u8 = 0x1A;

/// Anticlockwise insensitive zone in steps (EPROM, `0..=16`, default `1`).
pub const ANTICLOCKWISE_INSENSITIVE_ZONE: u8 = 0x1B;

/// Protection torque in `1%` units (EPROM, `0..=254`, default `20`).
pub const PROTECTION_TORQUE: u8 = 0x25;

/// Protection time in 10 ms units (EPROM, `0..=254`, default `200`/2 s).
pub const PROTECTION_TIME: u8 = 0x26;

/// Overload torque threshold in `1%` units (EPROM, `0..=254`, default `80`).
pub const OVERLOAD_TORQUE: u8 = 0x27;

/// Torque switch (SRAM; `0` = free, `1` = enabled, `2` = damping).
pub const TORQUE_SWITCH: u8 = 0x28;

/// Target position in steps, 2 bytes (SRAM).
pub const TARGET_POSITION: u8 = 0x2A;

/// Goal time in milliseconds in position mode; signed PWM output (bit 10 is
/// the sign) in wheel mode; 2 bytes (SRAM).
pub const GOAL_TIME: u8 = 0x2C;

/// Goal speed in steps/s, 2 bytes (SRAM).
pub const GOAL_SPEED: u8 = 0x2E;

/// EEPROM lock flag (SRAM; `0` = unlocked, `1` = locked).
pub const LOCK_FLAG: u8 = 0x30;

/// Current position in steps, 2 bytes (SRAM, read-only).
pub const CURRENT_POSITION: u8 = 0x38;

/// Current speed in signed steps/s (bit 15 is the sign), 2 bytes (SRAM, read-only).
pub const CURRENT_SPEED: u8 = 0x3A;

/// Current load in signed `0.1%` units (bit 10 is the sign), 2 bytes (SRAM, read-only).
pub const CURRENT_LOAD: u8 = 0x3C;

/// Current voltage in `0.1V` units (SRAM, read-only).
pub const CURRENT_VOLTAGE: u8 = 0x3E;

/// Current temperature in °C (SRAM, read-only).
pub const CURRENT_TEMPERATURE: u8 = 0x3F;

/// Asynchronous-write flag (SRAM, read-only).
pub const ASYNCHRONOUS_WRITE_FLAG: u8 = 0x40;

/// Servo status error flags: voltage bit 0, temperature bit 2, overload bit 5 (SRAM, read-only).
pub const SERVO_STATUS: u8 = 0x41;

/// Move flag, bit 0 (SRAM, read-only; `1` = moving).
pub const MOVE_FLAG: u8 = 0x42;

/// Current draw as a signed raw value (bit 15 is sign), 2 bytes (read-only).
pub const CURRENT_CURRENT: u8 = 0x45;

/// The SCSCL register map on a packet interface.
pub struct ScsclDevice<L: SerialLink> {
    pub interface: UartBusInterface<L>,
}

impl<L: SerialLink> ScsclDevice<L> {
    pub fn new(interface: UartBusInterface<L>) -> (d: Self)
        ensures
            d.interface == interface,
    {
        ScsclDevice { interface }
    }

    /// Lock EEPROM (prevent writes from being saved).
    pub fn blocking_lock_eeprom(&mut self) -> (r: Result<(), ProtocolError<L::Error>>)
        ensures
            final(self).interface.same_config(&old(self).interface),
            extends(old(self).interface.history(), final(self).interface.history()),
            ({
                let ev = added(old(self).interface.history(), final(self).interface.history());
                let eff = access_effect(
                    old(self).interface.status_level(),
                    old(self).interface.bus_id(),
                    lock_access(LOCK_FLAG, true),
                    ev,
                );
                &&& spans(eff, ev.len())
                &&& match eff.unwrap().0 {
                    Ok(_) => r is Ok,
                    Err(e) => r == Err::<(), ProtocolError<L::Error>>(e),
                }
            }),
    {
        self.interface.write_lock_flag(LOCK_FLAG, true)
    }

    /// Unlock EEPROM (allow writes to be saved).
    pub fn blocking_unlock_eeprom(&mut self) -> (r: Result<(), ProtocolError<L::Error>>)
        ensures
            final(self).interface.same_config(&old(self).interface),
            extends(old(self).interface.history(), final(self).interface.history()),
            ({
                let ev = added(old(self).interface.history(), final(self).interface.history());
                let eff = access_effect(
                    old(self).interface.status_level(),
                    old(self).interface.bus_id(),
                    lock_access(LOCK_FLAG, false),
                    ev,
                );
                &&& spans(eff, ev.len())
                &&& match eff.unwrap().0 {
                    Ok(_) => r is Ok,
                    Err(e) => r == Err::<(), ProtocolError<L::Error>>(e),
                }
            }),
    {
        self.interface.write_lock_flag(LOCK_FLAG, false)
    }
}

} // verus!
