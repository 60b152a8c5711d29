//! Physical layer: CRC block validation, syncword handling, mode
//! disambiguation and dispatch to the frame formats.

use vstd::prelude::*;

use crate::modet::threeoutofsix;
use crate::modet::threeoutofsix::{
    decoded_byte_at, nibble_of_symbol, symbol_at, symbols_valid, ThreeOutOfSix,
};
use crate::stack::{ffa, ffb, spec_read_error_from_phl, Mode, Packet, PacketView, ReadError,
    WriteError};
use crate::stack::apl::Apl;
use crate::stack::dll;
use crate::stack::dll::Dll;
use crate::stack::ffa::FFA;
use crate::stack::ffb::FFB;

verus! {

/// Fewest raw bytes from which a frame length can be derived.
pub const DERIVE_FRAME_LENGTH_MIN: usize = 3;

pub const APL_MAX: usize = crate::stack::ffa::APL_MAX;

pub const DATA_MAX: usize = crate::stack::ffa::DATA_MAX;

pub const FRAME_MAX: usize = crate::stack::ffa::FRAME_MAX;

/// Marker for physical-layer fields of a packet; the layer keeps no data.
#[derive(Clone, Debug)]
pub struct PhlFields {

}

#[derive(Debug, PartialEq, Eq, Structural)]
pub enum Error {
    /// Not enough bytes yet; feed more.
    Incomplete,
    /// Unexpected syncword byte.
    Syncword,
    /// Three-of-six decoding failed.
    ThreeOutOfSix(threeoutofsix::Error),
    /// The length field is too small for a frame.
    InvalidLength,
    /// The block with this index failed its CRC check.
    Crc(usize),
}

/// The CRC-16/EN-13757 checksum of a byte sequence (polynomial 0x3D65,
/// initial value 0, no reflection, output XOR 0xFFFF).
pub uninterp spec fn crc16_en13757(data: Seq<u8>) -> u16;

/// A big-endian byte pair as an integer.
pub open spec fn be16(hi: u8, lo: u8) -> int {
    hi * 256 + lo
}

/// The last two bytes of a block hold the big-endian CRC-16/EN-13757
/// checksum of the bytes before them.
pub open spec fn crc_matches(block: Seq<u8>) -> bool
    recommends
        block.len() >= 2,
{
    be16(block[block.len() - 2], block[block.len() - 1]) == crc16_en13757(
        block.take(block.len() - 2),
    ) as int
}

/// Relies on `crc::Crc::<u16>::checksum` with the `CRC_16_EN_13757`
/// algorithm of the crc catalog: the checksum is a pure function of the
/// input bytes alone.
#[verifier::external_body]
fn crc16(data: &[u8]) -> (r: u16)
    ensures
        r == crc16_en13757(data@),
{
    crc::Crc::<u16>::new(&crc::CRC_16_EN_13757).checksum(data)
}

/// Check the trailing big-endian CRC of one block.
pub fn is_valid_crc(block: &[u8]) -> (r: bool)
    requires
        block@.len() >= 2,
    ensures
        r == crc_matches(block@),
{
    let index = block.len() - 2;
    let actual = crc16(&block[0..index]);
    let expected = (block[index] as u16) * 256 + (block[index + 1] as u16);
    proof {
        assert(block@.take(index as int) =~= block@.subrange(0, index as int));
    }
    actual == expected
}

/// The big-endian bytes of the checksum of `s`.
pub open spec fn spec_crc_be(s: Seq<u8>) -> Seq<u8> {
    seq![(crc16_en13757(s) / 256) as u8, (crc16_en13757(s) % 256) as u8]
}

/// Number of 1-bits of a 6-bit value.
pub open spec fn spec_popcount6(v: u8) -> int {
    (v / 32) % 2 + (v / 16) % 2 + (v / 8) % 2 + (v / 4) % 2 + (v / 2) % 2 + v % 2
}

/// Both the 6-bit symbol in the top bits of `b0` and the symbol straddling
/// `b0` and `b1` have the weight of a valid three-of-six symbol.
pub open spec fn spec_modet_candidate(b0: u8, b1: u8) -> bool {
    spec_popcount6(b0 / 4) == 3 && spec_popcount6(((b0 % 4) * 16 + b1 / 16) as u8) == 3
}

/// The first invalid symbol with index in `[k, n)`, if any.
pub open spec fn spec_first_invalid_symbol(b: Seq<u8>, k: int, n: int) -> Option<int>
    decreases n - k,
{
    if k >= n {
        None
    } else if nibble_of_symbol(symbol_at(b, k)) is None {
        Some(k)
    } else {
        spec_first_invalid_symbol(b, k + 1, n)
    }
}

proof fn lemma_first_invalid_symbol_some(b: Seq<u8>, j: int, k: int, n: int)
    requires
        0 <= j <= k < n,
        nibble_of_symbol(symbol_at(b, k)) is None,
        forall|i: int| j <= i < k ==> (#[trigger] nibble_of_symbol(symbol_at(b, i))) is Some,
    ensures
        spec_first_invalid_symbol(b, j, n) == Some(k),
    decreases k - j,
{
    if j < k {
        lemma_first_invalid_symbol_some(b, j + 1, k, n);
    }
}

proof fn lemma_first_invalid_symbol_none(b: Seq<u8>, j: int, n: int)
    requires
        0 <= j,
        forall|i: int| j <= i < n ==> (#[trigger] nibble_of_symbol(symbol_at(b, i))) is Some,
    ensures
        spec_first_invalid_symbol(b, j, n) is None,
    decreases n - j,
{
    if j < n {
        lemma_first_invalid_symbol_none(b, j + 1, n);
    }
}

/// The first `n` bytes that the bit stream of `b` decodes to.
pub open spec fn spec_decoded(b: Seq<u8>, n: int) -> Seq<u8> {
    Seq::new(n as nat, |i: int| decoded_byte_at(b, i))
}

#[derive(Debug, PartialEq, Eq, Structural)]
pub struct FrameMetadata {
    pub mode: Mode,
    pub frame_offset: usize,
    /// The total frame length including CRCs, but excluding the
    /// three-of-six encoding.
    pub frame_length: usize,
}

/// Metadata of a frame format A frame whose L field is `l`.
pub open spec fn spec_meta_ffa(l: u8, mode: Mode, offset: usize) -> Result<FrameMetadata, Error> {
    if 1 + l < 11 {
        Err(Error::InvalidLength)
    } else {
        Ok(
            FrameMetadata {
                mode,
                frame_offset: offset,
                frame_length: ffa::spec_frame_length(1 + l) as usize,
            },
        )
    }
}

/// Metadata of a frame format B frame whose L field is `l`.
pub open spec fn spec_meta_ffb(l: u8, offset: usize) -> Result<FrameMetadata, Error> {
    if 1 + l < 13 {
        Err(Error::InvalidLength)
    } else {
        Ok(
            FrameMetadata {
                mode: Mode::ModeCFFB,
                frame_offset: offset,
                frame_length: (1 + l) as usize,
            },
        )
    }
}

/// Mode detection behind a leading 0x54 syncword byte.
pub open spec fn spec_decode_modec(b: Seq<u8>) -> Result<FrameMetadata, Error> {
    if b[1] == 0xCD {
        spec_meta_ffa(b[2], Mode::ModeCFFA, 2)
    } else if b[1] == 0x3D {
        spec_meta_ffb(b[2], 2)
    } else {
        Err(Error::Syncword)
    }
}

/// The first frame format A block (12 bytes) decoded from the first 144
/// bits of `b`.
pub open spec fn spec_first_block(b: Seq<u8>) -> Seq<u8> {
    spec_decoded(b, 12)
}

/// The tie-break for an ambiguous 0x44 second byte: decode what would be
/// the three-of-six encoded first block and check its CRC.
pub open spec fn spec_try_first_block(b: Seq<u8>) -> Result<Option<FrameMetadata>, Error> {
    if b.len() < 18 {
        Err(Error::Incomplete)
    } else if symbols_valid(b, 24) && crc_matches(spec_first_block(b)) {
        match spec_meta_ffa(spec_first_block(b)[0], Mode::ModeTMTO, 0) {
            Ok(m) => Ok(Some(m)),
            Err(e) => Err(e),
        }
    } else {
        Ok(None)
    }
}

/// Mode detection for a stream that must be three-of-six encoded: the
/// first two symbols give the L field.
pub open spec fn spec_decode_modet(b: Seq<u8>) -> Result<FrameMetadata, Error> {
    if nibble_of_symbol(symbol_at(b, 0)) is None {
        Err(Error::ThreeOutOfSix(threeoutofsix::Error::Symbol(0)))
    } else if nibble_of_symbol(symbol_at(b, 1)) is None {
        Err(Error::ThreeOutOfSix(threeoutofsix::Error::Symbol(1)))
    } else {
        spec_meta_ffa(decoded_byte_at(b, 0), Mode::ModeTMTO, 0)
    }
}

/// What mode detection yields on a raw byte prefix.
pub open spec fn spec_metadata(b: Seq<u8>) -> Result<FrameMetadata, Error> {
    if b.len() < 3 {
        Err(Error::Incomplete)
    } else if b[0] == 0x54 {
        spec_decode_modec(b)
    } else if b[1] == 0x44 {
        if spec_modet_candidate(b[0], b[1]) {
            match spec_try_first_block(b) {
                Err(e) => Err(e),
                Ok(Some(m)) => Ok(m),
                Ok(None) => spec_meta_ffb(b[0], 0),
            }
        } else {
            spec_meta_ffb(b[0], 0)
        }
    } else {
        spec_decode_modet(b)
    }
}

/// Mode disambiguation is deterministic: it is a pure function of the
/// bytes, with no other input.
pub proof fn lemma_metadata_deterministic(b1: Seq<u8>, b2: Seq<u8>)
    requires
        b1 == b2,
    ensures
        spec_metadata(b1) == spec_metadata(b2),
{
}

fn popcount6(v: u8) -> (r: u8)
    requires
        v < 64,
    ensures
        r as int == spec_popcount6(v),
{
    (v / 32) % 2 + (v / 16) % 2 + (v / 8) % 2 + (v / 4) % 2 + (v / 2) % 2 + v % 2
}

impl FrameMetadata {
    /// Identify the mode and frame length of an incoming byte stream from
    /// its first bytes.
    pub fn read(buffer: &[u8]) -> (r: Result<FrameMetadata, Error>)
        ensures
            r == spec_metadata(buffer@),
    {
        if buffer.len() < DERIVE_FRAME_LENGTH_MIN {
            return Err(Error::Incomplete);
        }

        if buffer[0] == 0x54 {
            Self::decode_modec(buffer)
        } else if buffer[1] == 0x44 {
            // Very likely a Mode C frame format B frame where the receiver
            // synchronized on the trailing 16 bits of the double syncword,
            // leaving the SND-NR C-field 0x44 in second position. But 0x44
            // can also sit inside valid three-of-six symbols, so tie-break.
            let first_is_3oo6 = popcount6(buffer[0] / 4) == 3;
            let second_is_3oo6 = popcount6((buffer[0] % 4) * 16 + buffer[1] / 16) == 3;

            if first_is_3oo6 && second_is_3oo6 {
                match Self::try_decode_first_modet_block(buffer) {
                    Err(e) => {
                        return Err(e);
                    },
                    Ok(Some(result)) => {
                        return Ok(result);
                    },
                    Ok(None) => {},
                }
            }

            // Invalid three-of-six or invalid first block CRC: take the
            // prefix for Mode C frame format B.
            let frame_length = match FFB::get_frame_length(buffer) {
                Ok(n) => n,
                Err(e) => {
                    return Err(e);
                },
            };
            Ok(FrameMetadata { mode: Mode::ModeCFFB, frame_offset: 0, frame_length })
        } else {
            Self::decode_modet(buffer)
        }
    }

    fn decode_modec(buffer: &[u8]) -> (r: Result<FrameMetadata, Error>)
        requires
            buffer@.len() >= 3,
            buffer@[0] == 0x54,
        ensures
            r == spec_decode_modec(buffer@),
    {
        match buffer[1] {
            // Frame format A
            0xCD => {
                let frame_length = match FFA::get_frame_length(&buffer[2..buffer.len()]) {
                    Ok(n) => n,
                    Err(e) => {
                        return Err(e);
                    },
                };
                Ok(FrameMetadata { mode: Mode::ModeCFFA, frame_offset: 2, frame_length })
            },
            // Frame format B
            0x3D => {
                let frame_length = match FFB::get_frame_length(&buffer[2..buffer.len()]) {
                    Ok(n) => n,
                    Err(e) => {
                        return Err(e);
                    },
                };
                Ok(FrameMetadata { mode: Mode::ModeCFFB, frame_offset: 2, frame_length })
            },
            _ => Err(Error::Syncword),
        }
    }

    /// Decode what would be the first block of a three-of-six encoded
    /// frame format A frame (12 bytes, so 144 bits from 18 raw bytes) and
    /// check its CRC; on a pass the stream is Mode T.
    fn try_decode_first_modet_block(buffer: &[u8]) -> (r: Result<Option<FrameMetadata>, Error>)
        requires
            buffer@.len() >= 3,
        ensures
            r == spec_try_first_block(buffer@),
    {
        if buffer.len() < 18 {
            return Err(Error::Incomplete);
        }

        let mut block: Vec<u8> = vec![0u8; 12];
        match ThreeOutOfSix::decode(&mut block, buffer, 144) {
            Err(_) => Ok(None),
            Ok(_) => {
                proof {
                    assert(block@ =~= spec_first_block(buffer@));
                }
                if is_valid_crc(block.as_slice()) {
                    let l = block[0];
                    let frame_length = match ffa::get_frame_length_from_data_length(
                        1 + l as usize,
                    ) {
                        Ok(n) => n,
                        Err(e) => {
                            return Err(e);
                        },
                    };
                    Ok(
                        Some(
                            FrameMetadata {
                                mode: Mode::ModeTMTO,
                                frame_offset: 0,
                                frame_length,
                            },
                        ),
                    )
                } else {
                    Ok(None)
                }
            },
        }
    }

    fn decode_modet(buffer: &[u8]) -> (r: Result<FrameMetadata, Error>)
        requires
            buffer@.len() >= 3,
        ensures
            r == spec_decode_modet(buffer@),
    {
        let mut l_field: Vec<u8> = vec![0u8; 1];
        match ThreeOutOfSix::decode(&mut l_field, buffer, 12) {
            Err(e) => Err(Error::ThreeOutOfSix(e)),
            Ok(_) => {
                let l = l_field[0];
                let frame_length = match ffa::get_frame_length_from_data_length(1 + l as usize) {
                    Ok(n) => n,
                    Err(e) => {
                        return Err(e);
                    },
                };
                Ok(FrameMetadata { mode: Mode::ModeTMTO, frame_offset: 0, frame_length })
            },
        }
    }
}

/// Map a frame-format result to the stack's error space.
pub open spec fn spec_payload_result(r: Result<Seq<u8>, Error>) -> Result<Seq<u8>, ReadError> {
    match r {
        Ok(d) => Ok(d),
        Err(e) => Err(spec_read_error_from_phl(e)),
    }
}

/// The largest even number of whole 6-bit symbols in `len` raw bytes.
pub open spec fn spec_even_symbols(len: int) -> int {
    let s = (len * 8) / 6;
    s - s % 2
}

/// What physical-layer decoding of a raw buffer yields for a mode: the
/// concatenated data bytes of all blocks, CRCs stripped, syncword and
/// three-of-six encoding removed.
pub open spec fn spec_phl_payload(b: Seq<u8>, mode: Mode) -> Result<Seq<u8>, ReadError> {
    match mode {
        Mode::ModeTMTO => {
            let symbols = spec_even_symbols(b.len() as int);
            match spec_first_invalid_symbol(b, 0, symbols) {
                Some(k) => Err(
                    ReadError::Phl(Error::ThreeOutOfSix(threeoutofsix::Error::Symbol(k as usize))),
                ),
                None => spec_payload_result(ffa::spec_trim(spec_decoded(b, symbols / 2))),
            }
        },
        Mode::ModeCFFA => {
            let off: int = if b.len() >= 2 && b[0] == 0x54 && b[1] == 0xCD {
                2
            } else {
                0
            };
            spec_payload_result(ffa::spec_trim(b.skip(off)))
        },
        Mode::ModeCFFB => {
            let off: int = if b.len() >= 2 && b[0] == 0x54 && b[1] == 0x3D {
                2
            } else {
                0
            };
            spec_payload_result(ffb::spec_trim(b.skip(off)))
        },
    }
}

/// The wire bytes of a frame format B frame for a packet: an L field,
/// the data-link bytes and the payload, in one block with its CRC when
/// they fit, else split at 126 content bytes into two blocks.
pub open spec fn spec_frame_bytes(p: PacketView) -> Seq<u8>
    recommends
        p.dll is Some,
{
    let body = dll::spec_dll_bytes(p);
    let content_len = 1 + body.len() as int;
    if content_len <= 126 {
        let content = seq![(content_len + 1) as u8] + body;
        content + spec_crc_be(content)
    } else {
        let content = seq![(content_len + 3) as u8] + body;
        content.take(126) + spec_crc_be(content.take(126)) + content.skip(126) + spec_crc_be(
            content.skip(126),
        )
    }
}

/// Every block the frame encoder emits carries a checksum that verifies:
/// the whole frame for a single-block frame, and each of the two blocks
/// for a split frame.
pub proof fn lemma_encoded_blocks_crc_valid(p: PacketView)
    requires
        p.dll is Some,
    ensures
        ({
            let frame = spec_frame_bytes(p);
            if 10 + p.apl.len() <= 126 {
                crc_matches(frame)
            } else {
                crc_matches(frame.subrange(0, 128)) && crc_matches(
                    frame.subrange(128, frame.len() as int),
                )
            }
        }),
{
    let body = dll::spec_dll_bytes(p);
    let content_len = 1 + body.len() as int;
    let frame = spec_frame_bytes(p);
    if content_len <= 126 {
        let content = seq![(content_len + 1) as u8] + body;
        let c = crc16_en13757(content);
        assert(frame.take(frame.len() - 2) =~= content);
        assert((c / 256) * 256 + c % 256 == c) by (nonlinear_arith);
        assert(frame[frame.len() - 2] == (c / 256) as u8 && frame[frame.len() - 1] == (c
            % 256) as u8);
    } else {
        let content = seq![(content_len + 3) as u8] + body;
        let first = content.take(126);
        let second = content.skip(126);
        let c1 = crc16_en13757(first);
        let c2 = crc16_en13757(second);
        assert((c1 / 256) * 256 + c1 % 256 == c1) by (nonlinear_arith);
        assert((c2 / 256) * 256 + c2 % 256 == c2) by (nonlinear_arith);
        let b0 = frame.subrange(0, 128);
        assert(b0.take(126) =~= first);
        assert(b0[126] == (c1 / 256) as u8 && b0[127] == (c1 % 256) as u8);
        let b1 = frame.subrange(128, frame.len() as int);
        assert(b1.take(b1.len() - 2) =~= second);
        assert(b1[b1.len() - 2] == (c2 / 256) as u8 && b1[b1.len() - 1] == (c2 % 256) as u8);
    }
}

pub struct Phl;

impl Phl {
    /// Decode a raw buffer for the given mode down to the concatenated
    /// block data.
    #[verifier::rlimit(60)]
    pub fn read(buffer: &[u8], mode: Mode) -> (r: Result<Vec<u8>, ReadError>)
        requires
            buffer@.len() * 8 <= usize::MAX,
        ensures
            match r {
                Ok(data) => spec_phl_payload(buffer@, mode) == Ok::<Seq<u8>, ReadError>(data@),
                Err(e) => spec_phl_payload(buffer@, mode) == Err::<Seq<u8>, ReadError>(e),
            },
    {
        match mode {
            Mode::ModeTMTO => {
                let mut symbols = (buffer.len() * 8) / 6;
                symbols = symbols - symbols % 2;
                proof {
                    assert(6 * symbols <= buffer@.len() * 8 && 6 * symbols % 6 == 0 && (6 * symbols
                        / 6) == symbols && 6 * symbols / 12 == symbols / 2) by (nonlinear_arith)
                        requires
                            symbols == ((buffer@.len() * 8) / 6) - ((buffer@.len() * 8) / 6) % 2,
                    ;
                }
                let bits = 6 * symbols;
                let n = bits / 12;
                let mut decode_buf: Vec<u8> = vec![0u8; n];
                match ThreeOutOfSix::decode(&mut decode_buf, buffer, bits) {
                    Err(e) => {
                        match e {
                            threeoutofsix::Error::Symbol(k) => {
                                proof {
                                    lemma_first_invalid_symbol_some(
                                        buffer@,
                                        0,
                                        k as int,
                                        symbols as int,
                                    );
                                }
                                Err(ReadError::Phl(Error::ThreeOutOfSix(
                                    threeoutofsix::Error::Symbol(k),
                                )))
                            },
                            _ => {
                                proof {
                                    assert(false);
                                }
                                Err(ReadError::Incomplete)
                            },
                        }
                    },
                    Ok(_) => {
                        proof {
                            lemma_first_invalid_symbol_none(buffer@, 0, symbols as int);
                            assert(decode_buf@ =~= spec_decoded(buffer@, symbols as int / 2));
                        }
                        match FFA::trim_crc(decode_buf.as_slice()) {
                            Ok(data) => Ok(data),
                            Err(e) => Err(ReadError::from(e)),
                        }
                    },
                }
            },
            Mode::ModeCFFA => {
                let off: usize = if buffer.len() >= 2 && buffer[0] == 0x54 && buffer[1] == 0xCD {
                    2
                } else {
                    0
                };
                proof {
                    assert(buffer@.subrange(off as int, buffer@.len() as int) =~= buffer@.skip(
                        off as int,
                    ));
                }
                match FFA::trim_crc(&buffer[off..buffer.len()]) {
                    Ok(data) => Ok(data),
                    Err(e) => Err(ReadError::from(e)),
                }
            },
            Mode::ModeCFFB => {
                let off: usize = if buffer.len() >= 2 && buffer[0] == 0x54 && buffer[1] == 0x3D {
                    2
                } else {
                    0
                };
                proof {
                    assert(buffer@.subrange(off as int, buffer@.len() as int) =~= buffer@.skip(
                        off as int,
                    ));
                }
                match FFB::trim_crc(&buffer[off..buffer.len()]) {
                    Ok(data) => Ok(data),
                    Err(e) => Err(ReadError::from(e)),
                }
            },
        }
    }

    /// Build the frame format B wire bytes for a packet: reserve the L
    /// field, emit the layers above, then set L and interleave the CRCs.
    pub fn write<const N: usize>(writer: &mut Vec<u8>, packet: &Packet<N>) -> (r: Result<
        (),
        WriteError,
    >)
        requires
            packet@.dll is Some,
            packet@.dll.unwrap().address.wf(),
            packet@.apl.len() <= 240,
        ensures
            r is Ok,
            final(writer)@ == old(writer)@ + spec_frame_bytes(packet@),
    {
        let ghost body = dll::spec_dll_bytes(packet@);
        let mut content: Vec<u8> = Vec::new();
        content.push(0);  // placeholder for the L field
        Dll::write(&mut content, packet);
        Apl::write(&mut content, packet);
        let len = content.len();
        proof {
            assert(content@ =~= seq![0u8] + body);
        }

        if len <= ffb::FIRST_BLOCK_DATA_LENGTH + ffb::SECOND_BLOCK_MAX_DATA_LENGTH {
            content[0] = (len + 1) as u8;
            proof {
                assert(content@ =~= seq![(len + 1) as u8] + body);
            }
            let c = crc16(content.as_slice());
            writer.append(&mut content);
            writer.push((c / 256) as u8);
            writer.push((c % 256) as u8);
            proof {
                assert(writer@ =~= old(writer)@ + spec_frame_bytes(packet@));
            }
        } else {
            content[0] = (len + 3) as u8;
            let ghost full = seq![(len + 3) as u8] + body;
            proof {
                assert(content@ =~= full);
                assert(content@.subrange(0, 126) =~= full.take(126));
                assert(content@.subrange(126, len as int) =~= full.skip(126));
            }
            let c1 = crc16(&content.as_slice()[0..126]);
            let c2 = crc16(&content.as_slice()[126..len]);
            writer.extend_from_slice(&content.as_slice()[0..126]);
            writer.push((c1 / 256) as u8);
            writer.push((c1 % 256) as u8);
            writer.extend_from_slice(&content.as_slice()[126..len]);
            writer.push((c2 / 256) as u8);
            writer.push((c2 % 256) as u8);
            proof {
                assert(writer@ =~= old(writer)@ + spec_frame_bytes(packet@));
            }
        }
        Ok(())
    }
}

} // verus!
