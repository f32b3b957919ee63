//! Common types shared across servo series.

use vstd::prelude::*;

verus! {

/// Servo mode (position vs wheel/motor).
#[derive(Debug, Clone, Copy, PartialEq, Eq, Structural)]
pub enum ServoMode {
    /// Position control mode (servo mode).
    Position,
    /// Wheel/motor mode (continuous rotation).
    Wheel,
}

/// Servo telemetry in native hardware units.
#[derive(Debug, Clone, Copy, PartialEq, Eq, Structural)]
pub struct ServoTelemetry {
    /// Current position in steps; unsigned for SCSCL and signed for SMS_STS.
    pub position_raw: i16,
    /// Current speed in `steps/second` (signed, negative = CCW).
    pub speed_raw: i16,
    /// Current load in signed `0.1%` units (`-1000..=1000`).
    pub load_raw: i16,
    /// Supply voltage in `0.1V` units (`0..=255`).
    pub voltage_raw: u8,
    /// Temperature in °C.
    pub temperature_raw: u8,
    /// Current draw in device-specific raw units (only available on some servos).
    pub current_raw: Option<i16>,
    /// Whether the servo is currently moving.
    pub moving: bool,
}

impl ServoTelemetry {
    /// Get position in steps.
    pub fn position(&self) -> (p: i16)
        ensures
            p == self.position_raw,
    {
        self.position_raw
    }

    /// Get speed in steps/second (signed, negative = CCW).
    pub fn speed(&self) -> (s: i16)
        ensures
            s == self.speed_raw,
    {
        self.speed_raw
    }

    /// Get temperature in degrees Celsius.
    pub fn temperature(&self) -> (t: u8)
        ensures
            t == self.temperature_raw,
    {
        self.temperature_raw
    }
}

} // verus!
