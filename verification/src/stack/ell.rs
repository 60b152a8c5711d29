//! Extended link layer: an optional variant header keyed by the CI byte.

use vstd::prelude::*;

use crate::address::{spec_from_bytes, WMBusAddress};
use crate::stack::{Packet, PacketView, ReadError};

verus! {

pub struct Ell;

#[derive(Clone, Debug, PartialEq)]
pub enum EllFields {
    /// CI 0x8C: 3 header bytes.
    Short { cc: u8, acc: u8 },
    /// CI 0x8D: 9 header bytes.
    Long { cc: u8, acc: u8, sn: u32, payload_crc: Option<u16> },
    /// CI 0x8E: 11 header bytes.
    ShortDest { cc: u8, acc: u8, dest: WMBusAddress },
    /// CI 0x8F: 17 header bytes.
    LongDest { cc: u8, acc: u8, dest: WMBusAddress, sn: u32, payload_crc: Option<u16> },
}

#[derive(Debug, PartialEq, Eq, Structural)]
pub enum Error {
    Incomplete,
    BcdConversion,
}

impl EllFields {
    /// The CI byte that announces this variant on the wire.
    pub fn ci(&self) -> (r: u8)
        ensures
            r == spec_ci(*self),
    {
        match self {
            EllFields::Short { .. } => 0x8C,
            EllFields::Long { .. } => 0x8D,
            EllFields::ShortDest { .. } => 0x8E,
            EllFields::LongDest { .. } => 0x8F,
        }
    }
}

pub open spec fn spec_ci(f: EllFields) -> u8 {
    match f {
        EllFields::Short { .. } => 0x8C,
        EllFields::Long { .. } => 0x8D,
        EllFields::ShortDest { .. } => 0x8E,
        EllFields::LongDest { .. } => 0x8F,
    }
}

/// Header length for a CI byte, `None` when the byte opens no extended
/// link layer header.
pub open spec fn spec_header_length(ci: u8) -> Option<usize> {
    if ci == 0x8C {
        Some(3usize)
    } else if ci == 0x8D {
        Some(9usize)
    } else if ci == 0x8E {
        Some(11usize)
    } else if ci == 0x8F {
        Some(17usize)
    } else {
        None
    }
}

/// Four little-endian bytes as an integer.
pub open spec fn le32(b0: u8, b1: u8, b2: u8, b3: u8) -> int {
    b0 + 256 * b1 + 65536 * b2 + 16777216 * b3
}

/// Two little-endian bytes as an integer.
pub open spec fn spec_le16(b0: u8, b1: u8) -> int {
    b0 + 256 * b1
}

/// What reading the optional extended link layer header yields: the
/// fields, if a header is present, and the bytes consumed.
pub open spec fn spec_ell_read(b: Seq<u8>) -> Result<(Option<EllFields>, int), ReadError> {
    if b.len() == 0 {
        Ok((None, 0))
    } else {
        match spec_header_length(b[0]) {
            None => Ok((None, 0)),
            Some(hl) => {
                if b.len() < hl {
                    Err(ReadError::Incomplete)
                } else if b[0] == 0x8C {
                    Ok((Some(EllFields::Short { cc: b[1], acc: b[2] }), 3))
                } else if b[0] == 0x8D {
                    Ok(
                        (
                            Some(
                                EllFields::Long {
                                    cc: b[1],
                                    acc: b[2],
                                    sn: le32(b[3], b[4], b[5], b[6]) as u32,
                                    payload_crc: Some(spec_le16(b[7], b[8]) as u16),
                                },
                            ),
                            9,
                        ),
                    )
                } else if b[0] == 0x8E {
                    match spec_from_bytes(b.subrange(3, 11)) {
                        Ok(dest) => Ok(
                            (Some(EllFields::ShortDest { cc: b[1], acc: b[2], dest }), 11),
                        ),
                        Err(_) => Err(ReadError::Ell(Error::BcdConversion)),
                    }
                } else {
                    match spec_from_bytes(b.subrange(3, 11)) {
                        Ok(dest) => Ok(
                            (
                                Some(
                                    EllFields::LongDest {
                                        cc: b[1],
                                        acc: b[2],
                                        dest,
                                        sn: le32(b[11], b[12], b[13], b[14]) as u32,
                                        payload_crc: Some(spec_le16(b[15], b[16]) as u16),
                                    },
                                ),
                                17,
                            ),
                        ),
                        Err(_) => Err(ReadError::Ell(Error::BcdConversion)),
                    }
                }
            },
        }
    }
}

impl Ell {
    /// Read the optional header, record its fields in the packet, and
    /// return how many bytes it consumed (0 when absent).
    pub fn read<const N: usize>(packet: &mut Packet<N>, buffer: &[u8]) -> (r: Result<
        usize,
        ReadError,
    >)
        ensures
            match r {
                Ok(n) => {
                    &&& spec_ell_read(buffer@) matches Ok((fields, consumed))
                    &&& n == consumed
                    &&& final(packet)@ == (PacketView {
                        ell: if fields is Some {
                            fields
                        } else {
                            old(packet)@.ell
                        },
                        ..old(packet)@
                    })
                },
                Err(e) => spec_ell_read(buffer@) == Err::<(Option<EllFields>, int), ReadError>(e)
                    && *final(packet) == *old(packet),
            },
            final(packet)@.apl == old(packet)@.apl,
            final(packet)@.dll == old(packet)@.dll,
    {
        if buffer.len() == 0 {
            return Ok(0);
        }
        let ci = buffer[0];
        let hl = match header_length(ci) {
            Some(hl) => hl,
            None => {
                return Ok(0);
            },
        };
        if buffer.len() < hl {
            return Err(ReadError::Incomplete);
        }
        if ci == 0x8C {
            packet.ell = Some(EllFields::Short { cc: buffer[1], acc: buffer[2] });
            Ok(3)
        } else if ci == 0x8D {
            let sn = buffer[3] as u32 + 256 * (buffer[4] as u32) + 65536 * (buffer[5] as u32)
                + 16777216 * (buffer[6] as u32);
            let payload_crc = buffer[7] as u16 + 256 * (buffer[8] as u16);
            packet.ell = Some(
                EllFields::Long { cc: buffer[1], acc: buffer[2], sn, payload_crc: Some(payload_crc) },
            );
            Ok(9)
        } else if ci == 0x8E {
            let dest = match read_dest(buffer) {
                Ok(dest) => dest,
                Err(e) => {
                    return Err(e);
                },
            };
            packet.ell = Some(EllFields::ShortDest { cc: buffer[1], acc: buffer[2], dest });
            Ok(11)
        } else {
            let dest = match read_dest(buffer) {
                Ok(dest) => dest,
                Err(e) => {
                    return Err(e);
                },
            };
            let sn = buffer[11] as u32 + 256 * (buffer[12] as u32) + 65536 * (buffer[13] as u32)
                + 16777216 * (buffer[14] as u32);
            let payload_crc = buffer[15] as u16 + 256 * (buffer[16] as u16);
            packet.ell = Some(
                EllFields::LongDest {
                    cc: buffer[1],
                    acc: buffer[2],
                    dest,
                    sn,
                    payload_crc: Some(payload_crc),
                },
            );
            Ok(17)
        }
    }
}

/// Parse the destination address at bytes 3..11 of the header.
fn read_dest(buffer: &[u8]) -> (r: Result<WMBusAddress, ReadError>)
    requires
        buffer@.len() >= 11,
    ensures
        match r {
            Ok(dest) => spec_from_bytes(buffer@.subrange(3, 11)) == Ok::<
                WMBusAddress,
                crate::address::WMBusAddressError,
            >(dest),
            Err(e) => spec_from_bytes(buffer@.subrange(3, 11)) is Err && e == ReadError::Ell(
                Error::BcdConversion,
            ),
        },
{
    let address_bytes: [u8; 8] = [
        buffer[3],
        buffer[4],
        buffer[5],
        buffer[6],
        buffer[7],
        buffer[8],
        buffer[9],
        buffer[10],
    ];
    proof {
        assert(address_bytes@ =~= buffer@.subrange(3, 11));
    }
    match WMBusAddress::from_bytes(address_bytes) {
        Ok(dest) => Ok(dest),
        Err(_) => Err(ReadError::Ell(Error::BcdConversion)),
    }
}

/// Header length for a CI byte, `None` when the byte opens no extended
/// link layer header.
pub fn header_length(ci: u8) -> (r: Option<usize>)
    ensures
        r == spec_header_length(ci),
{
    if ci == 0x8C {
        Some(3)
    } else if ci == 0x8D {
        Some(9)
    } else if ci == 0x8E {
        Some(11)
    } else if ci == 0x8F {
        Some(17)
    } else {
        None
    }
}

} // verus!
