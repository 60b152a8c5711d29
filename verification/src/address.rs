//! The eight-byte Wireless M-Bus address: manufacturer code, BCD serial
//! number, version and device type.
//!
//! Two wire layouts exist. The EN 13757 default puts the serial number at
//! bytes 2..6; some Diehl-built meters put version and device type there
//! and the serial number at bytes 4..8. The Diehl layout carries no wire
//! flag and is recognized by a fingerprint of manufacturer, device type,
//! version and serial range.

use vstd::prelude::*;

use crate::{spec_device_type_from, spec_manufacturer_code_from, DeviceType, ManufacturerCode};

verus! {

/// A little-endian byte pair as an integer.
pub open spec fn le16(b0: u8, b1: u8) -> int {
    b0 + 256 * b1
}

/// The two decimal digits packed in one BCD byte, tens in the high nibble.
pub open spec fn bcd_pair(b: u8) -> int {
    (b / 16) * 10 + b % 16
}

/// Both nibbles of a BCD byte are decimal digits.
pub open spec fn bcd_pair_valid(b: u8) -> bool {
    b / 16 <= 9 && b % 16 <= 9
}

/// All four bytes of a packed BCD number are valid.
pub open spec fn bcd4_le_valid(b: Seq<u8>) -> bool
    recommends
        b.len() == 4,
{
    bcd_pair_valid(b[0]) && bcd_pair_valid(b[1]) && bcd_pair_valid(b[2]) && bcd_pair_valid(b[3])
}

/// The decimal value of four BCD bytes, least significant byte first.
pub open spec fn bcd4_le_value(b: Seq<u8>) -> int
    recommends
        b.len() == 4,
{
    bcd_pair(b[0]) + 100 * bcd_pair(b[1]) + 10000 * bcd_pair(b[2]) + 1000000 * bcd_pair(b[3])
}

/// The four BCD bytes of a decimal value, least significant byte first.
pub open spec fn spec_bcd4_le_bytes(v: int) -> Seq<u8> {
    seq![
        (((v / 10) % 10) * 16 + v % 10) as u8,
        (((v / 1000) % 10) * 16 + (v / 100) % 10) as u8,
        (((v / 100000) % 10) * 16 + (v / 10000) % 10) as u8,
        (((v / 10000000) % 10) * 16 + (v / 1000000) % 10) as u8,
    ]
}

#[derive(Clone, Debug, Hash, PartialEq, Eq, Structural)]
pub struct WMBusAddress {
    pub manufacturer_code: u16,
    /// The decimal value of the packed BCD serial number, 0 to 99 999 999.
    pub serial_number: u32,
    pub version: u8,
    pub device_type: u8,
}

#[derive(Debug, PartialEq, Eq, Structural)]
pub enum WMBusAddressError {
    SerialNumberBcd,
}

/// The wire layout of the serial, version and device type fields.
#[derive(Debug, PartialEq, Eq, Structural)]
pub enum FieldLayout {
    /// EN 13757: manufacturer, serial number, version, device type.
    Default,
    /// Used by Diehl on some meters: manufacturer, version, device type,
    /// serial number.
    Diehl,
}

/// The fingerprint that recognizes the Diehl field layout.
pub open spec fn spec_is_diehl_layout(v: Seq<u8>) -> bool
    recommends
        v.len() == 8,
{
    let m = le16(v[0], v[1]);
    let version = v[2];
    let device_type = v[3];
    if m == 0x2324 {
        ||| ((device_type == 0x04 || device_type == 0x0C) && version == 0x20 && bcd4_le_valid(
            v.subrange(4, 8),
        ) && {
            let sn = bcd4_le_value(v.subrange(4, 8));
            (44000000 <= sn < 48350000) || (51200000 <= sn < 51273000)
        })
        ||| (device_type == 0x04 && (version == 0x2A || version == 0x2B || version == 0x2E
            || version == 0x2F))
        ||| (device_type == 0x06 && version == 0x8B)
        ||| (device_type == 0x07 && (version == 0x85 || version == 0x86 || version == 0x8B))
        ||| (device_type == 0x0C && (version == 0x2E || version == 0x2F || version == 0x53))
        ||| (device_type == 0x16 && version == 0x25)
    } else if m == 0x11A5 {
        device_type == 0x07 && version == 0x78
    } else {
        false
    }
}

/// What parsing eight address bytes yields.
pub open spec fn spec_from_bytes(v: Seq<u8>) -> Result<WMBusAddress, WMBusAddressError>
    recommends
        v.len() == 8,
{
    let diehl = spec_is_diehl_layout(v);
    let sb = if diehl {
        v.subrange(4, 8)
    } else {
        v.subrange(2, 6)
    };
    if bcd4_le_valid(sb) {
        Ok(
            WMBusAddress {
                manufacturer_code: le16(v[0], v[1]) as u16,
                serial_number: bcd4_le_value(sb) as u32,
                version: if diehl {
                    v[2]
                } else {
                    v[6]
                },
                device_type: if diehl {
                    v[3]
                } else {
                    v[7]
                },
            },
        )
    } else {
        Err(WMBusAddressError::SerialNumberBcd)
    }
}

/// The eight bytes an address encodes to: always the EN 13757 default
/// layout, whatever layout it was parsed from.
pub open spec fn spec_address_bytes(a: WMBusAddress) -> Seq<u8> {
    seq![(a.manufacturer_code % 256) as u8, (a.manufacturer_code / 256) as u8] + spec_bcd4_le_bytes(
        a.serial_number as int,
    ) + seq![a.version, a.device_type]
}

impl WMBusAddress {
    /// The serial number fits in eight decimal digits.
    pub open spec fn wf(self) -> bool {
        self.serial_number <= 99_999_999
    }

    pub fn new(
        manufacturer_code: ManufacturerCode,
        serial_number: u32,
        version: u8,
        device_type: DeviceType,
    ) -> (r: WMBusAddress)
        requires
            serial_number <= 99_999_999,
        ensures
            r == (WMBusAddress {
                manufacturer_code: crate::spec_manufacturer_code_value(manufacturer_code),
                serial_number,
                version,
                device_type: crate::spec_device_type_value(device_type),
            }),
            r.wf(),
    {
        WMBusAddress {
            manufacturer_code: manufacturer_code.code(),
            serial_number,
            version,
            device_type: device_type.code(),
        }
    }

    /// Parse eight wire bytes, picking the layout by fingerprint.
    pub fn from_bytes(value: [u8; 8]) -> (r: Result<WMBusAddress, WMBusAddressError>)
        ensures
            r == spec_from_bytes(value@),
            r matches Ok(a) ==> a.wf(),
    {
        let layout = get_layout(&value);
        match layout {
            FieldLayout::Default => match parse_bcd_le(&value[2..6]) {
                Some(serial_number) => Ok(
                    WMBusAddress {
                        manufacturer_code: value[0] as u16 + 256 * (value[1] as u16),
                        serial_number,
                        version: value[6],
                        device_type: value[7],
                    },
                ),
                None => Err(WMBusAddressError::SerialNumberBcd),
            },
            FieldLayout::Diehl => match parse_bcd_le(&value[4..8]) {
                Some(serial_number) => Ok(
                    WMBusAddress {
                        manufacturer_code: value[0] as u16 + 256 * (value[1] as u16),
                        serial_number,
                        version: value[2],
                        device_type: value[3],
                    },
                ),
                None => Err(WMBusAddressError::SerialNumberBcd),
            },
        }
    }

    /// The named manufacturer, where the code is known.
    pub fn manufacturer_code(&self) -> (r: Option<ManufacturerCode>)
        ensures
            r == spec_manufacturer_code_from(self.manufacturer_code),
    {
        ManufacturerCode::from_code(self.manufacturer_code)
    }

    /// The decimal value of the serial number.
    pub fn serial_number(&self) -> (r: u32)
        ensures
            r == self.serial_number,
    {
        self.serial_number
    }

    pub fn version(&self) -> (r: u8)
        ensures
            r == self.version,
    {
        self.version
    }

    /// The named device type, where the code is known.
    pub fn device_type(&self) -> (r: Option<DeviceType>)
        ensures
            r == spec_device_type_from(self.device_type),
    {
        DeviceType::from_code(self.device_type)
    }

    /// Encode to wire bytes. This always writes the EN 13757 default
    /// layout: the Diehl layout is a read-time heuristic, and encoding is
    /// deliberately lossy for addresses parsed from it.
    pub fn get_bytes(&self) -> (r: [u8; 8])
        requires
            self.wf(),
        ensures
            r@ == spec_address_bytes(*self),
    {
        let sn = self.serial_number;
        let bytes: [u8; 8] = [
            (self.manufacturer_code % 256) as u8,
            (self.manufacturer_code / 256) as u8,
            (((sn / 10) % 10) * 16 + sn % 10) as u8,
            (((sn / 1000) % 10) * 16 + (sn / 100) % 10) as u8,
            (((sn / 100000) % 10) * 16 + (sn / 10000) % 10) as u8,
            (((sn / 10000000) % 10) * 16 + (sn / 1000000) % 10) as u8,
            self.version,
            self.device_type,
        ];
        proof {
            assert(bytes@ =~= spec_address_bytes(*self));
        }
        bytes
    }
}

/// Pick the field layout of eight wire bytes by the Diehl fingerprint.
pub fn get_layout(value: &[u8; 8]) -> (r: FieldLayout)
    ensures
        r == (if spec_is_diehl_layout(value@) {
            FieldLayout::Diehl
        } else {
            FieldLayout::Default
        }),
{
    let manufacturer_code = value[0] as u16 + 256 * (value[1] as u16);
    if manufacturer_code == 0x2324 {
        // These indexes are not correct according to the standard, but are
        // used by Diehl.
        let version = value[2];
        let device_type = value[3];

        if (device_type == 0x04 || device_type == 0x0C) && version == 0x20 {
            // Sharky 775
            if let Some(serial_number) = parse_bcd_le(&value[4..8]) {
                if (44000000 <= serial_number && serial_number < 48350000) || (51200000
                    <= serial_number && serial_number < 51273000) {
                    return FieldLayout::Diehl;
                }
            }
        } else if device_type == 0x04 && (version == 0x2A || version == 0x2B || version == 0x2E
            || version == 0x2F) {
            return FieldLayout::Diehl;
        } else if device_type == 0x06 && version == 0x8B {
            return FieldLayout::Diehl;
        } else if device_type == 0x07 && (version == 0x85 || version == 0x86 || version == 0x8B) {
            return FieldLayout::Diehl;
        } else if device_type == 0x0C && (version == 0x2E || version == 0x2F || version == 0x53) {
            return FieldLayout::Diehl;
        } else if device_type == 0x16 && version == 0x25 {
            return FieldLayout::Diehl;
        }
    } else if manufacturer_code == 0x11A5 {
        let version = value[2];
        let device_type = value[3];

        if device_type == 0x07 && version == 0x78 {
            return FieldLayout::Diehl;
        }
    }

    FieldLayout::Default
}

/// Parse four packed BCD bytes, least significant first, to their decimal
/// value; `None` if any nibble is not a decimal digit.
pub fn parse_bcd_le(bytes: &[u8]) -> (r: Option<u32>)
    requires
        bytes@.len() == 4,
    ensures
        match r {
            Some(v) => bcd4_le_valid(bytes@) && v == bcd4_le_value(bytes@) && v <= 99_999_999,
            None => !bcd4_le_valid(bytes@),
        },
{
    let b0 = bytes[0];
    let b1 = bytes[1];
    let b2 = bytes[2];
    let b3 = bytes[3];
    if b0 / 16 > 9 || b0 % 16 > 9 || b1 / 16 > 9 || b1 % 16 > 9 || b2 / 16 > 9 || b2 % 16 > 9 || b3
        / 16 > 9 || b3 % 16 > 9 {
        return None;
    }
    let p0 = (b0 / 16) as u32 * 10 + (b0 % 16) as u32;
    let p1 = (b1 / 16) as u32 * 10 + (b1 % 16) as u32;
    let p2 = (b2 / 16) as u32 * 10 + (b2 % 16) as u32;
    let p3 = (b3 / 16) as u32 * 10 + (b3 % 16) as u32;
    Some(p0 + 100 * p1 + 10000 * p2 + 1000000 * p3)
}

/// Digits written to BCD bytes read back as the same value.
pub proof fn lemma_bcd4_le_bytes_value(v: int)
    requires
        0 <= v <= 99_999_999,
    ensures
        bcd4_le_valid(spec_bcd4_le_bytes(v)),
        bcd4_le_value(spec_bcd4_le_bytes(v)) == v,
{
    let b = spec_bcd4_le_bytes(v);
    lemma_bcd_byte(v % 10, (v / 10) % 10, b[0]);
    lemma_bcd_byte((v / 100) % 10, (v / 1000) % 10, b[1]);
    lemma_bcd_byte((v / 10000) % 10, (v / 100000) % 10, b[2]);
    lemma_bcd_byte((v / 1000000) % 10, (v / 10000000) % 10, b[3]);
    assert(v / 10 / 10 == v / 100 && v / 100 / 10 == v / 1000 && v / 1000 / 10 == v / 10000 && v
        / 10000 / 10 == v / 100000 && v / 100000 / 10 == v / 1000000 && v / 1000000 / 10 == v
        / 10000000) by (nonlinear_arith)
        requires
            v >= 0,
    ;
    assert(v / 10000000 <= 9);
}

/// A byte packed from two digits unpacks to the same digits.
proof fn lemma_bcd_byte(lo: int, hi: int, b: u8)
    requires
        0 <= lo <= 9,
        0 <= hi <= 9,
        b == hi * 16 + lo,
    ensures
        b / 16 == hi,
        b % 16 == lo,
        bcd_pair_valid(b),
        bcd_pair(b) == hi * 10 + lo,
{
    assert(b / 16 == hi && b % 16 == lo) by (nonlinear_arith)
        requires
            0 <= lo <= 9,
            0 <= hi <= 9,
            b == hi * 16 + lo,
    ;
}

/// Re-parsing an encoded address recovers it, for every address whose
/// encoding does not match the Diehl fingerprint. An address parsed from
/// a Diehl-layout input re-encodes to different bytes by design.
pub proof fn lemma_address_round_trip(a: WMBusAddress)
    requires
        a.wf(),
        !spec_is_diehl_layout(spec_address_bytes(a)),
    ensures
        spec_from_bytes(spec_address_bytes(a)) == Ok::<WMBusAddress, WMBusAddressError>(a),
{
    let bytes = spec_address_bytes(a);
    assert(bytes.subrange(2, 6) =~= spec_bcd4_le_bytes(a.serial_number as int));
    lemma_bcd4_le_bytes_value(a.serial_number as int);
    let m = a.manufacturer_code;
    assert(le16((m % 256) as u8, (m / 256) as u8) == m) by (nonlinear_arith);
    assert(spec_from_bytes(bytes) matches Ok(b) && b == a);
}

} // verus!
