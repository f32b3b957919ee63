//! Register definitions for SCServo motors.
//!
//! - [`sc_device`]: SCSCL/SC series (potentiometer, big-endian)
//! - [`sts_device`]: SMS/STS series (magnetic encoder, little-endian)

use vstd::prelude::*;

pub mod addr;
pub mod sc_device;
pub mod sts_device;

pub use sc_device::ScsclDevice;
pub use sts_device::SmsStsDevice;

verus! {

/// Baud rate setting.
#[derive(Debug, Clone, Copy, PartialEq, Eq, Structural)]
pub enum BaudRate {
    Baud1000000,
    Baud500000,
    Baud250000,
    Baud128000,
    Baud115200,
    Baud76800,
    Baud57600,
    Baud38400,
    Baud19200,
    Baud14400,
    Baud9600,
    Baud4800,
}

impl BaudRate {
    /// The register value of this setting.
    pub open spec fn spec_raw(self) -> u8 {
        match self {
            BaudRate::Baud1000000 => 0,
            BaudRate::Baud500000 => 1,
            BaudRate::Baud250000 => 2,
            BaudRate::Baud128000 => 3,
            BaudRate::Baud115200 => 4,
            BaudRate::Baud76800 => 5,
            BaudRate::Baud57600 => 6,
            BaudRate::Baud38400 => 7,
            BaudRate::Baud19200 => 8,
            BaudRate::Baud14400 => 9,
            BaudRate::Baud9600 => 10,
            BaudRate::Baud4800 => 11,
        }
    }

    /// The line speed of this setting in bits per second.
    pub open spec fn spec_bps(self) -> u32 {
        match self {
            BaudRate::Baud1000000 => 1_000_000,
            BaudRate::Baud500000 => 500_000,
            BaudRate::Baud250000 => 250_000,
            BaudRate::Baud128000 => 128_000,
            BaudRate::Baud115200 => 115_200,
            BaudRate::Baud76800 => 76_800,
            BaudRate::Baud57600 => 57_600,
            BaudRate::Baud38400 => 38_400,
            BaudRate::Baud19200 => 19_200,
            BaudRate::Baud14400 => 14_400,
            BaudRate::Baud9600 => 9_600,
            BaudRate::Baud4800 => 4_800,
        }
    }

    /// The setting with register value `value`, if any.
    pub open spec fn spec_from_raw(value: u8) -> Option<Self> {
        match value {
            0 => Some(BaudRate::Baud1000000),
            1 => Some(BaudRate::Baud500000),
            2 => Some(BaudRate::Baud250000),
            3 => Some(BaudRate::Baud128000),
            4 => Some(BaudRate::Baud115200),
            5 => Some(BaudRate::Baud76800),
            6 => Some(BaudRate::Baud57600),
            7 => Some(BaudRate::Baud38400),
            8 => Some(BaudRate::Baud19200),
            9 => Some(BaudRate::Baud14400),
            10 => Some(BaudRate::Baud9600),
            11 => Some(BaudRate::Baud4800),
            _ => None,
        }
    }

    pub fn to_bps(self) -> (bps: u32)
        ensures
            bps == self.spec_bps(),
    {
        match self {
            BaudRate::Baud1000000 => 1_000_000,
            BaudRate::Baud500000 => 500_000,
            BaudRate::Baud250000 => 250_000,
            BaudRate::Baud128000 => 128_000,
            BaudRate::Baud115200 => 115_200,
            BaudRate::Baud76800 => 76_800,
            BaudRate::Baud57600 => 57_600,
            BaudRate::Baud38400 => 38_400,
            BaudRate::Baud19200 => 19_200,
            BaudRate::Baud14400 => 14_400,
            BaudRate::Baud9600 => 9_600,
            BaudRate::Baud4800 => 4_800,
        }
    }

    /// The register value of this setting.
    pub fn raw(self) -> (value: u8)
        ensures
            value == self.spec_raw(),
    {
        match self {
            BaudRate::Baud1000000 => 0,
            BaudRate::Baud500000 => 1,
            BaudRate::Baud250000 => 2,
            BaudRate::Baud128000 => 3,
            BaudRate::Baud115200 => 4,
            BaudRate::Baud76800 => 5,
            BaudRate::Baud57600 => 6,
            BaudRate::Baud38400 => 7,
            BaudRate::Baud19200 => 8,
            BaudRate::Baud14400 => 9,
            BaudRate::Baud9600 => 10,
            BaudRate::Baud4800 => 11,
        }
    }

    /// The setting with register value `value`, if any.
    pub fn from_raw(value: u8) -> (b: Option<Self>)
        ensures
            b == Self::spec_from_raw(value),
            b is Some <==> value <= 11,
            b matches Some(rate) ==> rate.spec_raw() == value,
    {
        match value {
            0 => Some(BaudRate::Baud1000000),
            1 => Some(BaudRate::Baud500000),
            2 => Some(BaudRate::Baud250000),
            3 => Some(BaudRate::Baud128000),
            4 => Some(BaudRate::Baud115200),
            5 => Some(BaudRate::Baud76800),
            6 => Some(BaudRate::Baud57600),
            7 => Some(BaudRate::Baud38400),
            8 => Some(BaudRate::Baud19200),
            9 => Some(BaudRate::Baud14400),
            10 => Some(BaudRate::Baud9600),
            11 => Some(BaudRate::Baud4800),
            _ => None,
        }
    }
}

/// Each baud-rate setting has its own register value, and reads back from it.
pub proof fn lemma_baud_rate_raw_injective(a: BaudRate, b: BaudRate)
    ensures
        a.spec_raw() == b.spec_raw() ==> a == b,
        a.spec_raw() <= 11,
        BaudRate::spec_from_raw(a.spec_raw()) == Some(a),
{
}

impl From<BaudRate> for u8 {
    fn from(br: BaudRate) -> (v: u8) {
        br.raw()
    }
}

impl vstd::std_specs::convert::FromSpecImpl<BaudRate> for u8 {
    open spec fn obeys_from_spec() -> bool {
        true
    }

    open spec fn from_spec(br: BaudRate) -> u8 {
        br.spec_raw()
    }
}

impl vstd::std_specs::convert::TryFromSpecImpl<u8> for BaudRate {
    open spec fn obeys_try_from_spec() -> bool {
        true
    }

    open spec fn try_from_spec(value: u8) -> Result<Self, u8> {
        match Self::spec_from_raw(value) {
            Some(v) => Ok(v),
            None => Err(value),
        }
    }
}

impl TryFrom<u8> for BaudRate {
    type Error = u8;

    fn try_from(value: u8) -> (r: Result<Self, Self::Error>) {
        match Self::from_raw(value) {
            Some(rate) => Ok(rate),
            None => Err(value),
        }
    }
}

/// Torque/enable mode.
#[derive(Debug, Clone, Copy, PartialEq, Eq, Structural)]
pub enum TorqueMode {
    Disable,
    Enable,
    Free,
}

impl TorqueMode {
    /// The register value of this mode.
    pub open spec fn spec_raw(self) -> u8 {
        match self {
            TorqueMode::Disable => 0,
            TorqueMode::Enable => 1,
            TorqueMode::Free => 2,
        }
    }

    /// The mode with register value `value`, if any.
    pub open spec fn spec_from_raw(value: u8) -> Option<Self> {
        match value {
            0 => Some(TorqueMode::Disable),
            1 => Some(TorqueMode::Enable),
            2 => Some(TorqueMode::Free),
            _ => None,
        }
    }

    /// The register value of this mode.
    pub fn raw(self) -> (value: u8)
        ensures
            value == self.spec_raw(),
    {
        match self {
            TorqueMode::Disable => 0,
            TorqueMode::Enable => 1,
            TorqueMode::Free => 2,
        }
    }

    /// The mode with register value `value`, if any.
    pub fn from_raw(value: u8) -> (m: Option<Self>)
        ensures
            m == Self::spec_from_raw(value),
            m is Some <==> value <= 2,
            m matches Some(mode) ==> mode.spec_raw() == value,
    {
        match value {
            0 => Some(TorqueMode::Disable),
            1 => Some(TorqueMode::Enable),
            2 => Some(TorqueMode::Free),
            _ => None,
        }
    }
}

/// Each torque mode has its own register value, and reads back from it.
pub proof fn lemma_torque_mode_raw_injective(a: TorqueMode, b: TorqueMode)
    ensures
        a.spec_raw() == b.spec_raw() ==> a == b,
        a.spec_raw() <= 2,
        TorqueMode::spec_from_raw(a.spec_raw()) == Some(a),
{
}

impl From<TorqueMode> for u8 {
    fn from(mode: TorqueMode) -> (v: u8) {
        mode.raw()
    }
}

impl vstd::std_specs::convert::FromSpecImpl<TorqueMode> for u8 {
    open spec fn obeys_from_spec() -> bool {
        true
    }

    open spec fn from_spec(mode: TorqueMode) -> u8 {
        mode.spec_raw()
    }
}

impl vstd::std_specs::convert::TryFromSpecImpl<u8> for TorqueMode {
    open spec fn obeys_try_from_spec() -> bool {
        true
    }

    open spec fn try_from_spec(value: u8) -> Result<Self, u8> {
        match Self::spec_from_raw(value) {
            Some(v) => Ok(v),
            None => Err(value),
        }
    }
}

impl TryFrom<u8> for TorqueMode {
    type Error = u8;

    fn try_from(value: u8) -> (r: Result<Self, Self::Error>) {
        match Self::from_raw(value) {
            Some(mode) => Ok(mode),
            None => Err(value),
        }
    }
}

} // verus!
