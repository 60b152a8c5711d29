//! Frame format B: at most two blocks. A frame of up to 128 bytes is one
//! block; a longer frame has a first block of 126 data bytes and a second
//! block with the remainder, each closed by a two-byte CRC.

use vstd::prelude::*;

use crate::stack::phl::{crc_matches, is_valid_crc, Error};

verus! {

/// Data bytes of the fixed header: L + C + M (2) + A (6).
pub const FIRST_BLOCK_DATA_LENGTH: usize = 10;

/// Most further data bytes that still fit in the first block.
pub const SECOND_BLOCK_MAX_DATA_LENGTH: usize = 116;

/// Least valid frame: header, CI field and one CRC.
pub const MIN_FRAME_LENGTH: usize = 13;

/// Largest frame: the L field counts at most 255 + 1.
pub const FRAME_MAX: usize = 256;

/// Most data bytes in a frame: the frame minus two CRCs.
pub const DATA_MAX: usize = 252;

/// Most application-layer bytes: the data minus the fixed header.
pub const APL_MAX: usize = 242;

/// Total frame length from the L field: the L field counts every frame
/// byte but itself.
pub open spec fn spec_frame_length(buffer: Seq<u8>) -> int {
    1 + buffer[0]
}

/// The data bytes of a frame of length `fl`, CRCs stripped.
pub open spec fn spec_data(buffer: Seq<u8>, fl: int) -> Seq<u8> {
    if fl <= 128 {
        buffer.subrange(0, fl - 2)
    } else {
        buffer.subrange(0, 126) + buffer.subrange(128, fl - 2)
    }
}

/// Number of blocks of a frame of length `fl`.
pub open spec fn spec_block_count(fl: int) -> int {
    if fl <= 128 {
        1
    } else {
        2
    }
}

/// Block `k` of a frame of length `fl` passes its CRC check.
pub open spec fn spec_block_ok(buffer: Seq<u8>, fl: int, k: int) -> bool {
    if k == 0 {
        crc_matches(buffer.subrange(0, if fl <= 128 {
            fl
        } else {
            128
        }))
    } else {
        crc_matches(buffer.subrange(128, fl))
    }
}

/// What trimming the CRCs off a frame format B frame yields. A length
/// field of exactly 128 announces a second block with no room for its
/// checksum and is rejected as an invalid length.
pub open spec fn spec_trim(buffer: Seq<u8>) -> Result<Seq<u8>, Error> {
    if buffer.len() == 0 {
        Err(Error::Incomplete)
    } else {
        let fl = spec_frame_length(buffer);
        if fl < 13 {
            Err(Error::InvalidLength)
        } else if buffer.len() < fl {
            Err(Error::Incomplete)
        } else if fl == 129 {
            Err(Error::InvalidLength)
        } else if !spec_block_ok(buffer, fl, 0) {
            Err(Error::Crc(0))
        } else if fl > 128 && !spec_block_ok(buffer, fl, 1) {
            Err(Error::Crc(1))
        } else {
            Ok(spec_data(buffer, fl))
        }
    }
}

pub struct FFB;

impl FFB {
    /// Derive the total frame length from the L field of the first byte.
    pub fn get_frame_length(buffer: &[u8]) -> (r: Result<usize, Error>)
        ensures
            match r {
                Ok(n) => buffer@.len() > 0 && n == spec_frame_length(buffer@) && n >= 13,
                Err(Error::Incomplete) => buffer@.len() == 0,
                Err(Error::InvalidLength) => buffer@.len() > 0 && spec_frame_length(buffer@) < 13,
                Err(_) => false,
            },
    {
        if buffer.len() == 0 {
            return Err(Error::Incomplete);
        }
        let frame_length = 1 + buffer[0] as usize;
        if frame_length < MIN_FRAME_LENGTH {
            return Err(Error::InvalidLength);
        }
        Ok(frame_length)
    }

    /// Validate each block's CRC and concatenate the data portions.
    /// A length field of exactly 128 announces a second block with no room
    /// for its checksum and is rejected as an invalid length.
    pub fn trim_crc(buffer: &[u8]) -> (r: Result<Vec<u8>, Error>)
        ensures
            match r {
                Ok(data) => spec_trim(buffer@) == Ok::<Seq<u8>, Error>(data@),
                Err(e) => spec_trim(buffer@) == Err::<Seq<u8>, Error>(e),
            },
    {
        let frame_length = match Self::get_frame_length(buffer) {
            Ok(n) => n,
            Err(e) => {
                return Err(e);
            },
        };
        if buffer.len() < frame_length {
            return Err(Error::Incomplete);
        }

        let mut data: Vec<u8> = Vec::new();
        if frame_length <= 128 {
            if !is_valid_crc(&buffer[0..frame_length]) {
                return Err(Error::Crc(0));
            }
            data.extend_from_slice(&buffer[0..frame_length - 2]);
            proof {
                assert(data@ =~= spec_data(buffer@, frame_length as int));
            }
        } else {
            if frame_length == 129 {
                return Err(Error::InvalidLength);
            }
            if !is_valid_crc(&buffer[0..128]) {
                return Err(Error::Crc(0));
            }
            if !is_valid_crc(&buffer[128..frame_length]) {
                return Err(Error::Crc(1));
            }
            data.extend_from_slice(&buffer[0..126]);
            data.extend_from_slice(&buffer[128..frame_length - 2]);
            proof {
                assert(data@ =~= spec_data(buffer@, frame_length as int));
            }
        }
        Ok(data)
    }
}

} // verus!
