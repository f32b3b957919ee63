//! Driver for Waveshare SCServo motors (SCSCL and SMS/STS series).
//!
//! The protocol logic (packet framing, response decoding, register layout,
//! value encodings and the command sequences of each servo series) is
//! verified; the byte transport is supplied by the user through
//! [`uart::SerialLink`].

use vstd::prelude::*;

pub mod access;
pub mod registers;
pub mod scscl;
pub mod scscl_constants;
pub mod series;
pub mod sms_sts;
pub mod sms_sts_constants;
pub mod sync;
pub mod wire;
pub mod error;
pub mod frame;
pub mod laws;
pub mod link;
pub mod types;
pub mod uart;

pub use error::ProtocolError;
pub use registers::{BaudRate, TorqueMode};
pub use scscl::ScsclBus;
pub use series::{ServoMode, ServoTelemetry};
pub use sms_sts::SmsStsBus;
pub use types::{
    ScsStatus, ScsclMotorCommand, ScsclPositionMove, ScsclServoState, SmsPositionMove, SmsPositionMoveEx,
    SmsServoState, SmsSpeedCommand, SmsStsOperatingMode, SmsTorqueLimitCommand, SyncWriteData, TorqueModeCommand,
};
pub use uart::{SerialLink, UartBusInterface, VersionInformation};

verus! {

/// Broadcast ID (0xFE): commands sent to this ID reach all servos.
pub const BROADCAST_ID: u8 = 0xFE;

/// Highest valid unicast servo ID.
pub const MAX_SERVO_ID: u8 = 0xFD;

/// Default servo ID.
pub const DEFAULT_ID: u8 = 1;

/// Maximum torque value (0.1% units).
pub const MAX_TORQUE_VALUE: u16 = 1000;

/// Value of a 16-bit word whose bit 15 is a sign flag and whose low 15 bits are a magnitude.
pub open spec fn sign15_value(raw: u16) -> int {
    if raw >= 0x8000 {
        -(raw - 0x8000)
    } else {
        raw as int
    }
}

/// Value of a 16-bit load word: bit 10 is a sign flag over the low 10 bits;
/// without the flag the word is read as a two's-complement `i16`.
pub open spec fn load_value(raw: u16) -> int {
    if (raw / 0x0400) % 2 == 1 {
        -(raw % 0x0400)
    } else if raw < 0x8000 {
        raw as int
    } else {
        raw - 0x1_0000
    }
}

/// A speed word decoded (bit 15 = sign).
pub open spec fn speed_of(raw: u16) -> i16 {
    sign15_value(raw) as i16
}

/// A load word decoded (bit 10 = sign).
pub open spec fn load_of(raw: u16) -> i16 {
    load_value(raw) as i16
}

/// A current word decoded (bit 15 = sign).
pub open spec fn current_of(raw: u16) -> i16 {
    sign15_value(raw) as i16
}

/// Absolute value of a signed 16-bit quantity, as a natural number.
pub open spec fn magnitude(v: i16) -> nat {
    if v < 0 {
        (-v) as nat
    } else {
        v as nat
    }
}

/// The sign-and-magnitude word with the sign at bit `sign_bit` for `v`,
/// or `None` when the magnitude does not fit below `limit`.
pub open spec fn sign_magnitude(v: i16, limit: nat, sign_flag: nat) -> Option<u16> {
    if magnitude(v) > limit {
        None
    } else if v < 0 {
        Some((sign_flag + magnitude(v)) as u16)
    } else {
        Some(v as u16)
    }
}

/// Decode signed speed (bit 15 = sign), in steps/second.
pub fn decode_speed(speed_raw: u16) -> (speed: i16)
    ensures
        speed as int == sign15_value(speed_raw),
        speed == speed_of(speed_raw),
{
    if speed_raw & 0x8000 != 0 {
        assert(speed_raw & 0x8000 != 0 ==> speed_raw >= 0x8000 && (speed_raw & 0x7FFF) == speed_raw - 0x8000) by (bit_vector);
        -((speed_raw & 0x7FFF) as i16)
    } else {
        assert(speed_raw & 0x8000 == 0 ==> speed_raw < 0x8000) by (bit_vector);
        speed_raw as i16
    }
}

/// Decode signed load (bit 10 = sign), in 0.1% units.
pub fn decode_load(load_raw: u16) -> (load: i16)
    ensures
        load as int == load_value(load_raw),
        load == load_of(load_raw),
{
    assert((load_raw & 0x0400 != 0) == ((load_raw / 0x0400) % 2 == 1)) by (bit_vector);
    assert(load_raw & 0x03FF == load_raw % 0x0400) by (bit_vector);
    if load_raw & 0x0400 != 0 {
        -((load_raw & 0x03FF) as i16)
    } else {
        assert(load_raw >= 0x8000 ==> (load_raw as i16) as int == load_raw as int - 0x1_0000) by (bit_vector);
        #[verifier::truncate]
        (load_raw as i16)
    }
}

/// Decode signed current (bit 15 = sign), in device-specific units.
pub fn decode_current(current_raw: u16) -> (current: i16)
    ensures
        current as int == sign15_value(current_raw),
        current == current_of(current_raw),
{
    if current_raw & 0x8000 != 0 {
        assert(current_raw & 0x8000 != 0 ==> current_raw >= 0x8000 && (current_raw & 0x7FFF) == current_raw - 0x8000) by (bit_vector);
        -((current_raw & 0x7FFF) as i16)
    } else {
        assert(current_raw & 0x8000 == 0 ==> current_raw < 0x8000) by (bit_vector);
        current_raw as i16
    }
}

/// Magnitude of `v` as an unsigned 16-bit value (32768 for `i16::MIN`).
pub fn unsigned_magnitude(v: i16) -> (m: u16)
    ensures
        m as nat == magnitude(v),
{
    if v < 0 {
        (0i32 - v as i32) as u16
    } else {
        v as u16
    }
}

/// Encode signed PWM (bit 10 = sign); `None` when the magnitude exceeds 1023.
pub fn encode_signed_pwm(pwm: i16) -> (encoded: Option<u16>)
    ensures
        encoded == sign_magnitude(pwm, 0x03FF, 0x0400),
{
    let m = unsigned_magnitude(pwm);
    if m > 0x03FF {
        None
    } else if pwm < 0 {
        assert(m <= 0x03FF ==> m | 0x0400 == 0x0400 + m) by (bit_vector);
        Some(m | 0x0400)
    } else {
        Some(m)
    }
}

/// A PWM output encoded for the goal-time register reads back as the same
/// value through the load decoding (bit 10 = sign), for every output whose
/// magnitude fits in 10 bits.
pub proof fn lemma_pwm_round_trip(pwm: i16)
    requires
        sign_magnitude(pwm, 0x03FF, 0x0400) is Some,
    ensures
        load_of(sign_magnitude(pwm, 0x03FF, 0x0400).unwrap()) == pwm,
{
}

/// A speed decoded from a bit-15 sign-and-magnitude word is encoded back to
/// the same word, but for the negative zero `0x8000`; every speed but
/// `-32768` decodes from its own word.
pub proof fn lemma_speed_round_trip(speed: i16, raw: u16)
    ensures
        sign_magnitude(speed, 0x7FFF, 0x8000) matches Some(w) ==> speed_of(w) == speed,
        raw != 0x8000 ==> sign_magnitude(speed_of(raw), 0x7FFF, 0x8000) == Some(raw),
{
}

} // verus!
