//! Application layer: the payload passes through verbatim.

use vstd::prelude::*;

use crate::stack::{Packet, PacketView, ReadError};

verus! {

/// Application Layer
pub struct Apl;

impl Apl {
    pub fn new() -> (r: Apl) {
        Apl {  }
    }

    /// Copy the remaining bytes into the packet's payload; fails with
    /// `Capacity` when they exceed the packet's payload capacity.
    pub fn read<const N: usize>(packet: &mut Packet<N>, buffer: &[u8]) -> (r: Result<
        (),
        ReadError,
    >)
        ensures
            match r {
                Ok(()) => buffer@.len() <= N && final(packet)@ == (PacketView {
                    apl: buffer@,
                    ..old(packet)@
                }) && final(packet).wf(),
                Err(e) => e == ReadError::Capacity && buffer@.len() > N && *final(packet) == *old(packet),
            },
    {
        if buffer.len() > N {
            return Err(ReadError::Capacity);
        }
        packet.apl = vstd::slice::slice_to_vec(buffer);
        Ok(())
    }

    /// Append the packet's payload to the writer.
    pub fn write<const N: usize>(writer: &mut Vec<u8>, packet: &Packet<N>)
        ensures
            final(writer)@ == old(writer)@ + packet@.apl,
    {
        writer.extend_from_slice(packet.apl.as_slice());
    }
}

} // verus!
