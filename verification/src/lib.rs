//! A Wireless M-Bus (EN 13757-4) protocol engine for metering radio
//! frames in Modes C and T: a stacked frame codec over the physical,
//! data-link, extended-link and application sub-layers, and a receive
//! state machine that assembles frames byte by byte.

use vstd::prelude::*;

pub mod address;
pub mod bits;
pub mod ctrl;
pub mod modet;
pub mod stack;

pub use address::WMBusAddress;

verus! {

/// Manufacturer codes this crate knows by name.
#[derive(Clone, Copy, Debug, PartialEq, Eq, Structural)]
pub enum ManufacturerCode {
    /// Apator
    APT,
    /// Diehl
    DME,
    /// Carlo Gavazzi
    GAV,
    /// Hydrometer
    HYD,
    /// Kamstrup
    KAM,
    /// Landis+Gyr GmbH
    LUG,
    /// Sontex
    SON,
    /// Techem
    TCH,
}

pub open spec fn spec_manufacturer_code_value(m: ManufacturerCode) -> u16 {
    match m {
        ManufacturerCode::APT => 0x8614,
        ManufacturerCode::DME => 0x11A5,
        ManufacturerCode::GAV => 0x1C36,
        ManufacturerCode::HYD => 0x2324,
        ManufacturerCode::KAM => 0x2C2D,
        ManufacturerCode::LUG => 0x32A7,
        ManufacturerCode::SON => 0x4DEE,
        ManufacturerCode::TCH => 0x5068,
    }
}

pub open spec fn spec_manufacturer_code_from(v: u16) -> Option<ManufacturerCode> {
    if v == 0x8614 {
        Some(ManufacturerCode::APT)
    } else if v == 0x11A5 {
        Some(ManufacturerCode::DME)
    } else if v == 0x1C36 {
        Some(ManufacturerCode::GAV)
    } else if v == 0x2324 {
        Some(ManufacturerCode::HYD)
    } else if v == 0x2C2D {
        Some(ManufacturerCode::KAM)
    } else if v == 0x32A7 {
        Some(ManufacturerCode::LUG)
    } else if v == 0x4DEE {
        Some(ManufacturerCode::SON)
    } else if v == 0x5068 {
        Some(ManufacturerCode::TCH)
    } else {
        None
    }
}

impl ManufacturerCode {
    /// The two-byte code of this manufacturer on the wire.
    pub fn code(self) -> (r: u16)
        ensures
            r == spec_manufacturer_code_value(self),
    {
        match self {
            ManufacturerCode::APT => 0x8614,
            ManufacturerCode::DME => 0x11A5,
            ManufacturerCode::GAV => 0x1C36,
            ManufacturerCode::HYD => 0x2324,
            ManufacturerCode::KAM => 0x2C2D,
            ManufacturerCode::LUG => 0x32A7,
            ManufacturerCode::SON => 0x4DEE,
            ManufacturerCode::TCH => 0x5068,
        }
    }

    /// Look a manufacturer up by its two-byte code.
    pub fn from_code(v: u16) -> (r: Option<ManufacturerCode>)
        ensures
            r == spec_manufacturer_code_from(v),
    {
        if v == 0x8614 {
            Some(ManufacturerCode::APT)
        } else if v == 0x11A5 {
            Some(ManufacturerCode::DME)
        } else if v == 0x1C36 {
            Some(ManufacturerCode::GAV)
        } else if v == 0x2324 {
            Some(ManufacturerCode::HYD)
        } else if v == 0x2C2D {
            Some(ManufacturerCode::KAM)
        } else if v == 0x32A7 {
            Some(ManufacturerCode::LUG)
        } else if v == 0x4DEE {
            Some(ManufacturerCode::SON)
        } else if v == 0x5068 {
            Some(ManufacturerCode::TCH)
        } else {
            None
        }
    }
}

/// Metering device types this crate knows by name.
#[derive(Clone, Copy, Debug, PartialEq, Eq, Structural)]
pub enum DeviceType {
    Other,
    Electricity,
    Heat,
    WarmWater,
    Water,
    Cooling,
    CoolingInlet,
    HeatInlet,
    HeatCooling,
    Unknown,
    ColdWater,
    Repeater,
}

pub open spec fn spec_device_type_value(d: DeviceType) -> u8 {
    match d {
        DeviceType::Other => 0x00,
        DeviceType::Electricity => 0x02,
        DeviceType::Heat => 0x04,
        DeviceType::WarmWater => 0x06,
        DeviceType::Water => 0x07,
        DeviceType::Cooling => 0x0A,
        DeviceType::CoolingInlet => 0x0B,
        DeviceType::HeatInlet => 0x0C,
        DeviceType::HeatCooling => 0x0D,
        DeviceType::Unknown => 0x0F,
        DeviceType::ColdWater => 0x16,
        DeviceType::Repeater => 0x32,
    }
}

pub open spec fn spec_device_type_from(v: u8) -> Option<DeviceType> {
    if v == 0x00 {
        Some(DeviceType::Other)
    } else if v == 0x02 {
        Some(DeviceType::Electricity)
    } else if v == 0x04 {
        Some(DeviceType::Heat)
    } else if v == 0x06 {
        Some(DeviceType::WarmWater)
    } else if v == 0x07 {
        Some(DeviceType::Water)
    } else if v == 0x0A {
        Some(DeviceType::Cooling)
    } else if v == 0x0B {
        Some(DeviceType::CoolingInlet)
    } else if v == 0x0C {
        Some(DeviceType::HeatInlet)
    } else if v == 0x0D {
        Some(DeviceType::HeatCooling)
    } else if v == 0x0F {
        Some(DeviceType::Unknown)
    } else if v == 0x16 {
        Some(DeviceType::ColdWater)
    } else if v == 0x32 {
        Some(DeviceType::Repeater)
    } else {
        None
    }
}

impl DeviceType {
    /// The one-byte code of this device type on the wire.
    pub fn code(self) -> (r: u8)
        ensures
            r == spec_device_type_value(self),
    {
        match self {
            DeviceType::Other => 0x00,
            DeviceType::Electricity => 0x02,
            DeviceType::Heat => 0x04,
            DeviceType::WarmWater => 0x06,
            DeviceType::Water => 0x07,
            DeviceType::Cooling => 0x0A,
            DeviceType::CoolingInlet => 0x0B,
            DeviceType::HeatInlet => 0x0C,
            DeviceType::HeatCooling => 0x0D,
            DeviceType::Unknown => 0x0F,
            DeviceType::ColdWater => 0x16,
            DeviceType::Repeater => 0x32,
        }
    }

    /// Look a device type up by its one-byte code.
    pub fn from_code(v: u8) -> (r: Option<DeviceType>)
        ensures
            r == spec_device_type_from(v),
    {
        if v == 0x00 {
            Some(DeviceType::Other)
        } else if v == 0x02 {
            Some(DeviceType::Electricity)
        } else if v == 0x04 {
            Some(DeviceType::Heat)
        } else if v == 0x06 {
            Some(DeviceType::WarmWater)
        } else if v == 0x07 {
            Some(DeviceType::Water)
        } else if v == 0x0A {
            Some(DeviceType::Cooling)
        } else if v == 0x0B {
            Some(DeviceType::CoolingInlet)
        } else if v == 0x0C {
            Some(DeviceType::HeatInlet)
        } else if v == 0x0D {
            Some(DeviceType::HeatCooling)
        } else if v == 0x0F {
            Some(DeviceType::Unknown)
        } else if v == 0x16 {
            Some(DeviceType::ColdWater)
        } else if v == 0x32 {
            Some(DeviceType::Repeater)
        } else {
            None
        }
    }
}

} // verus!
