//! Data-link layer: a fixed 10-byte header of L, C and the 8-byte
//! address. The L field is consumed by the physical layer; this layer
//! reads the control byte and the address.

use vstd::prelude::*;

use crate::address::{spec_address_bytes, spec_from_bytes, WMBusAddress};
use crate::stack::{Packet, PacketView, ReadError};

verus! {

/// Header bytes this layer consumes: L + C + A.
pub const HEADER_LENGTH: usize = 10;

/// Data-Link Layer
pub struct Dll;

#[derive(Clone, Debug, PartialEq, Eq, Structural)]
pub struct DllFields {
    pub control: u8,
    pub address: WMBusAddress,
}

#[derive(Debug, PartialEq, Eq, Structural)]
pub enum Error {
    Incomplete,
    BcdConversion,
}

/// What reading the data-link header of a payload yields.
pub open spec fn spec_dll_read(b: Seq<u8>) -> Result<DllFields, ReadError> {
    if b.len() < 10 {
        Err(ReadError::Incomplete)
    } else {
        match spec_from_bytes(b.subrange(2, 10)) {
            Ok(address) => Ok(DllFields { control: b[1], address }),
            Err(_) => Err(ReadError::Dll(Error::BcdConversion)),
        }
    }
}

/// The bytes the data-link layer and the payload write: the control byte,
/// the address in default layout, then the payload verbatim.
pub open spec fn spec_dll_bytes(p: PacketView) -> Seq<u8>
    recommends
        p.dll is Some,
{
    seq![p.dll.unwrap().control] + spec_address_bytes(p.dll.unwrap().address) + p.apl
}

impl Dll {
    /// Read the control byte and address, and record them in the packet.
    /// Returns how many payload bytes the header consumed.
    pub fn read<const N: usize>(packet: &mut Packet<N>, buffer: &[u8]) -> (r: Result<
        usize,
        ReadError,
    >)
        ensures
            match r {
                Ok(n) => {
                    &&& n == 10
                    &&& spec_dll_read(buffer@) matches Ok(fields)
                    &&& final(packet)@ == (PacketView { dll: Some(fields), ..old(packet)@ })
                },
                Err(e) => spec_dll_read(buffer@) == Err::<DllFields, ReadError>(e)
                    && *final(packet) == *old(packet),
            },
            final(packet)@.apl == old(packet)@.apl,
    {
        if buffer.len() < HEADER_LENGTH {
            return Err(ReadError::Incomplete);
        }

        let address_bytes: [u8; 8] = [
            buffer[2],
            buffer[3],
            buffer[4],
            buffer[5],
            buffer[6],
            buffer[7],
            buffer[8],
            buffer[9],
        ];
        proof {
            assert(address_bytes@ =~= buffer@.subrange(2, 10));
        }
        match WMBusAddress::from_bytes(address_bytes) {
            Ok(address) => {
                packet.dll = Some(DllFields { control: buffer[1], address });
                Ok(HEADER_LENGTH)
            },
            Err(_) => Err(ReadError::Dll(Error::BcdConversion)),
        }
    }

    /// Write the control byte and the address in default layout.
    pub fn write<const N: usize>(writer: &mut Vec<u8>, packet: &Packet<N>)
        requires
            packet@.dll is Some,
            packet@.dll.unwrap().address.wf(),
        ensures
            final(writer)@ == old(writer)@ + seq![packet@.dll.unwrap().control]
                + spec_address_bytes(packet@.dll.unwrap().address),
    {
        let fields = packet.dll.as_ref().unwrap();
        writer.push(fields.control);
        let bytes = fields.address.get_bytes();
        writer.extend_from_slice(bytes.as_slice());
    }
}

} // verus!
