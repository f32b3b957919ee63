//! Command and state types shared by the servo series.

use vstd::prelude::*;

verus! {

/// SCServo protocol instruction types.
#[derive(Debug, Clone, Copy, PartialEq, Eq, Structural)]
pub enum Instruction {
    Ping,
    Read,
    Write,
    RegWrite,
    RegAction,
    Reset,
    SyncRead,
    SyncWrite,
}

impl Instruction {
    /// The instruction byte on the wire.
    pub open spec fn spec_code(self) -> u8 {
        match self {
            Instruction::Ping => 0x01,
            Instruction::Read => 0x02,
            Instruction::Write => 0x03,
            Instruction::RegWrite => 0x04,
            Instruction::RegAction => 0x05,
            Instruction::Reset => 0x06,
            Instruction::SyncRead => 0x82,
            Instruction::SyncWrite => 0x83,
        }
    }

    /// The instruction byte on the wire.
    pub fn code(self) -> (c: u8)
        ensures
            c == self.spec_code(),
    {
        match self {
            Instruction::Ping => 0x01,
            Instruction::Read => 0x02,
            Instruction::Write => 0x03,
            Instruction::RegWrite => 0x04,
            Instruction::RegAction => 0x05,
            Instruction::Reset => 0x06,
            Instruction::SyncRead => 0x82,
            Instruction::SyncWrite => 0x83,
        }
    }
}

/// Position move command for SCSCL sync writes.
#[derive(Debug, Clone, Copy, PartialEq, Eq, Structural)]
pub struct ScsclPositionMove {
    /// Servo ID.
    pub id: u8,
    /// Target position in `steps` (0-1023 for SCSCL).
    pub position: u16,
    /// Movement time in `milliseconds` (0 = use speed parameter).
    pub time: u16,
    /// Movement speed in `steps/second`.
    pub speed: u16,
}

/// Position move command for SMS_STS sync writes.
#[derive(Debug, Clone, Copy, PartialEq, Eq, Structural)]
pub struct SmsPositionMove {
    /// Servo ID.
    pub id: u8,
    /// Target position in signed protocol steps (`-32767..=32767`).
    /// The effective mechanical range depends on the servo model and mode.
    pub position: i16,
    /// Retained for source compatibility. SMS/ST position commands write zero
    /// to address `0x2C`; PWM output uses a raw register write in PWM mode.
    pub time: u16,
    /// Movement speed in `steps/second`.
    pub speed: u16,
}

/// SMS_STS position move command with acceleration.
///
/// Writes the seven-byte layout beginning at `ACCELERATION` (`0x29`).
#[derive(Debug, Clone, Copy, PartialEq, Eq, Structural)]
pub struct SmsPositionMoveEx {
    /// Servo ID.
    pub id: u8,
    /// Acceleration value (0-254).
    pub acceleration: u8,
    /// Target position in signed protocol steps (`-32767..=32767`).
    /// The effective mechanical range depends on the servo model and mode.
    pub position: i16,
    /// Retained for source compatibility. SMS/ST position commands write zero
    /// to address `0x2C`; PWM output uses a raw register write in PWM mode.
    pub time: u16,
    /// Movement speed in `steps/second`.
    pub speed: u16,
}

/// Operating modes supported by SMS/ST servos.
#[derive(Debug, Clone, Copy, PartialEq, Eq, Structural)]
pub enum SmsStsOperatingMode {
    /// Closed-loop position control.
    Position,
    /// Continuous-rotation wheel/motor control.
    Wheel,
    /// Open-loop PWM control.
    PwmOpenLoop,
    /// Step control.
    Step,
}

/// SMS_STS wheel-mode speed command.
#[derive(Debug, Clone, Copy, PartialEq, Eq, Structural)]
pub struct SmsSpeedCommand {
    /// Servo ID.
    pub id: u8,
    /// Speed in `steps/second` (signed: positive = CW, negative = CCW).
    pub speed: i16,
    /// Acceleration value (0-254).
    pub acceleration: u8,
}

/// Torque mode command for sync writes.
#[derive(Debug, Clone, Copy, PartialEq, Eq, Structural)]
pub struct TorqueModeCommand {
    /// Servo ID.
    pub id: u8,
    /// Torque mode (Enable/Disable/Free-or-damping, raw values 1/0/2).
    pub mode: crate::registers::TorqueMode,
}

/// SCSCL wheel-mode motor output command.
#[derive(Debug, Clone, Copy, PartialEq, Eq, Structural)]
pub struct ScsclMotorCommand {
    /// Servo ID.
    pub id: u8,
    /// Motor output (signed PWM: positive = CW, negative = CCW).
    /// Range depends on servo model, typically -1000 to 1000.
    pub output: i16,
}

/// SMS_STS runtime torque-limit command.
#[derive(Debug, Clone, Copy, PartialEq, Eq, Structural)]
pub struct SmsTorqueLimitCommand {
    /// Servo ID.
    pub id: u8,
    /// Torque limit in `0.1%` units (500 = 50.0%, max 1000 = 100%).
    pub limit: u16,
}

/// Generic sync-write command with fixed-size data.
///
/// `DATA_LEN` specifies the number of bytes written per servo.
#[derive(Debug, Clone, Copy, PartialEq)]
pub struct SyncWriteData<const DATA_LEN: usize> {
    /// Servo ID.
    pub id: u8,
    /// Data bytes to write (length determined by const generic).
    pub data: [u8; DATA_LEN],
}

/// Servo status flags returned by the series-specific status methods.
#[derive(Debug, Clone, Copy, PartialEq, Eq, Structural)]
pub struct ScsStatus {
    /// Servo ID.
    pub id: u8,
    /// Voltage is outside configured limits.
    pub voltage_error: bool,
    /// Temperature exceeds configured limit.
    pub temperature_error: bool,
    /// Load exceeds configured torque limit.
    pub overload_error: bool,
    /// Magnetic encoder fault; always false for SCSCL.
    pub magnetic_error: bool,
    /// Over-current fault; always false for SCSCL.
    pub current_error: bool,
}

/// SCSCL servo state from a sync read, in native hardware units.
#[derive(Debug, Clone, Copy, PartialEq, Eq, Structural)]
pub struct ScsclServoState {
    /// Servo ID.
    pub id: u8,
    /// Current position in `steps` (0-1023 for SCSCL).
    pub position_raw: u16,
    /// Current speed in `steps/second` (signed, negative = CCW).
    pub speed_raw: i16,
    /// Current load in `0.1%` units (signed, negative = CCW).
    /// Range: -1000 to +1000 representing -100% to +100%.
    pub load_raw: i16,
    /// Supply voltage in `0.1V` units (0-255 = 0.0V to 25.5V).
    pub voltage_raw: u8,
    /// Temperature in `°C` (direct value).
    pub temperature_raw: u8,
}

impl Default for ScsclServoState {
    fn default() -> (s: Self)
        ensures
            s == (ScsclServoState {
                id: 0,
                position_raw: 0,
                speed_raw: 0,
                load_raw: 0,
                voltage_raw: 0,
                temperature_raw: 0,
            }),
    {
        ScsclServoState { id: 0, position_raw: 0, speed_raw: 0, load_raw: 0, voltage_raw: 0, temperature_raw: 0 }
    }
}

impl ScsclServoState {
    /// Get position in steps (0-1023 for SCSCL).
    pub fn position(&self) -> (p: u16)
        ensures
            p == self.position_raw,
    {
        self.position_raw
    }

    /// Get speed in steps/second (signed, negative = CCW).
    pub fn speed(&self) -> (s: i16)
        ensures
            s == self.speed_raw,
    {
        self.speed_raw
    }

    /// Get temperature in degrees Celsius.
    pub fn temperature(&self) -> (t: u8)
        ensures
            t == self.temperature_raw,
    {
        self.temperature_raw
    }
}

/// SMS_STS servo state from a sync read, in native hardware units.
#[derive(Debug, Clone, Copy, PartialEq, Eq, Structural)]
pub struct SmsServoState {
    /// Servo ID.
    pub id: u8,
    /// Current position in signed protocol steps.
    pub position_raw: i16,
    /// Current speed in `steps/second` (signed, negative = CCW).
    pub speed_raw: i16,
    /// Current load in `0.1%` units (signed, negative = CCW).
    /// Range: -1000 to +1000 representing -100% to +100%.
    pub load_raw: i16,
    /// Supply voltage in `0.1V` units (0-255 = 0.0V to 25.5V).
    pub voltage_raw: u8,
    /// Temperature in `°C` (direct value).
    pub temperature_raw: u8,
}

impl Default for SmsServoState {
    fn default() -> (s: Self)
        ensures
            s == (SmsServoState {
                id: 0,
                position_raw: 0,
                speed_raw: 0,
                load_raw: 0,
                voltage_raw: 0,
                temperature_raw: 0,
            }),
    {
        SmsServoState { id: 0, position_raw: 0, speed_raw: 0, load_raw: 0, voltage_raw: 0, temperature_raw: 0 }
    }
}

impl SmsServoState {
    /// Get position in signed protocol steps.
    pub fn position(&self) -> (p: i16)
        ensures
            p == self.position_raw,
    {
        self.position_raw
    }

    /// Get speed in steps/second (signed, negative = CCW).
    pub fn speed(&self) -> (s: i16)
        ensures
            s == self.speed_raw,
    {
        self.speed_raw
    }

    /// Get temperature in degrees Celsius.
    pub fn temperature(&self) -> (t: u8)
        ensures
            t == self.temperature_raw,
    {
        self.temperature_raw
    }
}

} // verus!
