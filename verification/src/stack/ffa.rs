//! Frame format A: a 10-data-byte first block, then blocks of up to 16
//! data bytes, each block closed by a two-byte CRC.

use vstd::prelude::*;

use crate::stack::phl::{crc_matches, is_valid_crc, Error};

verus! {

/// Data bytes in the first block: L + C + M (2) + A (6).
pub const FIRST_BLOCK_DATA_LENGTH: usize = 10;

/// Most data bytes in any later block.
pub const OTHER_BLOCK_MAX_DATA_LENGTH: usize = 16;

/// Least valid data length: the first block plus the CI field.
pub const MIN_DATA_LENGTH: usize = 11;

/// Most data bytes in a frame: the L field counts at most 255 + 1.
pub const DATA_MAX: usize = 256;

/// Most application-layer bytes: the data minus the first block.
pub const APL_MAX: usize = 246;

/// Largest frame: 256 data bytes plus two CRC bytes for each of 17 blocks.
pub const FRAME_MAX: usize = 290;

/// Total frame length (data plus CRCs) for a data length `d >= 11`.
pub open spec fn spec_frame_length(d: int) -> int {
    12 + 18 * ((d - 10) / 16) + if (d - 10) % 16 > 0 {
        (d - 10) % 16 + 2
    } else {
        0
    }
}

/// Number of blocks of a frame with data length `d >= 11`.
pub open spec fn spec_block_count(d: int) -> int {
    1 + (d - 10 + 15) / 16
}

/// Offset of block `k` in the frame.
pub open spec fn spec_block_start(k: int) -> int {
    if k == 0 {
        0
    } else {
        12 + 18 * (k - 1)
    }
}

/// Data bytes carried by block `k` of a frame with data length `d`.
pub open spec fn spec_block_data_len(d: int, k: int) -> int {
    if k == 0 {
        10
    } else if d - 10 - 16 * (k - 1) >= 16 {
        16
    } else {
        d - 10 - 16 * (k - 1)
    }
}

/// Block `k` of the frame passes its CRC check.
pub open spec fn spec_block_ok(buffer: Seq<u8>, d: int, k: int) -> bool {
    crc_matches(
        buffer.subrange(spec_block_start(k), spec_block_start(k) + spec_block_data_len(d, k) + 2),
    )
}

/// The first `n` blocks all pass their CRC checks.
pub open spec fn spec_blocks_ok(buffer: Seq<u8>, d: int, n: int) -> bool {
    forall|k: int| 0 <= k < n ==> #[trigger] spec_block_ok(buffer, d, k)
}

/// Offset in the frame of data byte `i`.
pub open spec fn spec_data_pos(i: int) -> int {
    if i < 10 {
        i
    } else {
        12 + 18 * ((i - 10) / 16) + (i - 10) % 16
    }
}

/// The first block with index at least `k` that fails its CRC, if any.
pub open spec fn spec_first_bad_block(buffer: Seq<u8>, d: int, k: int, n: int) -> Option<int>
    decreases n - k,
{
    if k >= n {
        None
    } else if !spec_block_ok(buffer, d, k) {
        Some(k)
    } else {
        spec_first_bad_block(buffer, d, k + 1, n)
    }
}

/// What trimming the CRCs off a frame format A frame yields.
pub open spec fn spec_trim(buffer: Seq<u8>) -> Result<Seq<u8>, Error> {
    if buffer.len() == 0 {
        Err(Error::Incomplete)
    } else {
        let d = 1 + buffer[0];
        if d < 11 {
            Err(Error::InvalidLength)
        } else if buffer.len() < spec_frame_length(d) {
            Err(Error::Incomplete)
        } else {
            match spec_first_bad_block(buffer, d, 0, spec_block_count(d)) {
                Some(k) => Err(Error::Crc(k as usize)),
                None => Ok(Seq::new(d as nat, |i: int| buffer[spec_data_pos(i)])),
            }
        }
    }
}

/// When the first `k` blocks pass and block `k` fails, `k` is the first
/// bad block.
proof fn lemma_first_bad_block_some(buffer: Seq<u8>, d: int, j: int, k: int, n: int)
    requires
        0 <= j <= k < n,
        !spec_block_ok(buffer, d, k),
        forall|i: int| j <= i < k ==> #[trigger] spec_block_ok(buffer, d, i),
    ensures
        spec_first_bad_block(buffer, d, j, n) == Some(k),
    decreases k - j,
{
    if j < k {
        lemma_first_bad_block_some(buffer, d, j + 1, k, n);
    }
}

/// When every block passes, there is no first bad block.
proof fn lemma_first_bad_block_none(buffer: Seq<u8>, d: int, j: int, n: int)
    requires
        0 <= j,
        forall|i: int| j <= i < n ==> #[trigger] spec_block_ok(buffer, d, i),
    ensures
        spec_first_bad_block(buffer, d, j, n) is None,
    decreases n - j,
{
    if j < n {
        lemma_first_bad_block_none(buffer, d, j + 1, n);
    }
}

/// A valid data length never yields a frame longer than `FRAME_MAX`.
pub proof fn lemma_frame_length_bounded(d: int)
    requires
        11 <= d <= 256,
    ensures
        d + 2 <= spec_frame_length(d) <= 290,
{
    let r = d - 10;
    let q = r / 16;
    let rem = r % 16;
    assert(r == 16 * q + rem && 0 <= rem < 16 && 0 <= q) by (nonlinear_arith)
        requires
            1 <= r,
            q == r / 16,
            rem == r % 16,
    ;
    assert(q <= 15) by (nonlinear_arith)
        requires
            r <= 246,
            r == 16 * q + rem,
            0 <= rem,
    ;
    if rem > 0 && q == 15 {
        assert(rem <= 6);
    }
}

/// The frame length is monotone in the data length.
pub proof fn lemma_frame_length_monotone(d1: int, d2: int)
    requires
        11 <= d1 <= d2 <= 256,
    ensures
        spec_frame_length(d1) <= spec_frame_length(d2),
    decreases d2 - d1,
{
    if d1 < d2 {
        lemma_frame_length_step(d2 - 1);
        lemma_frame_length_monotone(d1, d2 - 1);
    }
}

proof fn lemma_frame_length_step(d: int)
    requires
        11 <= d <= 255,
    ensures
        spec_frame_length(d) <= spec_frame_length(d + 1),
{
    let r = d - 10;
    assert((r + 1) / 16 == if r % 16 == 15 {
        r / 16 + 1
    } else {
        r / 16
    } && (r + 1) % 16 == if r % 16 == 15 {
        0int
    } else {
        r % 16 + 1
    }) by (nonlinear_arith)
        requires
            1 <= r,
    ;
}

pub struct FFA;

impl FFA {
    /// Derive the total frame length from the L field of the first byte.
    pub fn get_frame_length(buffer: &[u8]) -> (r: Result<usize, Error>)
        ensures
            match r {
                Ok(n) => buffer@.len() > 0 && 1 + buffer@[0] >= 11 && n == spec_frame_length(
                    1 + buffer@[0],
                ),
                Err(Error::Incomplete) => buffer@.len() == 0,
                Err(Error::InvalidLength) => buffer@.len() > 0 && 1 + buffer@[0] < 11,
                Err(_) => false,
            },
    {
        if buffer.len() == 0 {
            return Err(Error::Incomplete);
        }
        let data_length = 1 + buffer[0] as usize;
        get_frame_length_from_data_length(data_length)
    }

    /// Validate each block's CRC and concatenate the data portions.
    pub fn trim_crc(buffer: &[u8]) -> (r: Result<Vec<u8>, Error>)
        ensures
            match r {
                Ok(data) => spec_trim(buffer@) == Ok::<Seq<u8>, Error>(data@),
                Err(e) => spec_trim(buffer@) == Err::<Seq<u8>, Error>(e),
            },
    {
        let frame_length = match Self::get_frame_length(buffer) {
            Ok(n) => n,
            Err(e) => {
                return Err(e);
            },
        };
        if buffer.len() < frame_length {
            return Err(Error::Incomplete);
        }
        let d = 1 + buffer[0] as usize;
        proof {
            lemma_frame_length_bounded(d as int);
        }

        if !is_valid_crc(&buffer[0..12]) {
            proof {
                assert(buffer@.subrange(0, 12) =~= buffer@.subrange(
                    spec_block_start(0),
                    spec_block_start(0) + spec_block_data_len(d as int, 0) + 2,
                ));
                lemma_first_bad_block_some(buffer@, d as int, 0, 0, spec_block_count(d as int));
            }
            return Err(Error::Crc(0));
        }
        proof {
            assert(buffer@.subrange(0, 12) =~= buffer@.subrange(
                spec_block_start(0),
                spec_block_start(0) + spec_block_data_len(d as int, 0) + 2,
            ));
        }
        let mut data: Vec<u8> = Vec::new();
        data.extend_from_slice(&buffer[0..10]);

        let mut k: usize = 1;
        let mut pos: usize = 12;
        let mut rem: usize = d - 10;
        proof {
            let r = d - 10;
            assert(12 + r + 2 * ((r + 15) / 16) == spec_frame_length(d as int)) by (nonlinear_arith)
                requires
                    1 <= r <= 246,
                    d == r + 10,
            ;
        }
        while rem > 0
            invariant
                1 <= k,
                11 <= d <= 256,
                rem > 0 ==> rem + 16 * (k - 1) == d - 10,
                rem == 0 ==> k == spec_block_count(d as int),
                rem > 0 ==> pos == spec_block_start(k as int),
                pos + rem + 2 * ((rem + 15) / 16) == spec_frame_length(d as int),
                buffer@.len() >= spec_frame_length(d as int),
                d == 1 + buffer@[0],
                spec_blocks_ok(buffer@, d as int, k as int),
                data@.len() == d - rem,
                forall|i: int|
                    0 <= i < data@.len() ==> data@[i] == buffer@[#[trigger] spec_data_pos(i)],
            decreases rem,
        {
            let block_len: usize = if rem >= 16 {
                16
            } else {
                rem
            };
            assert(pos + block_len + 2 <= spec_frame_length(d as int)) by (nonlinear_arith)
                requires
                    rem > 0,
                    block_len == if rem >= 16 {
                        16int
                    } else {
                        rem as int
                    },
                    pos + rem + 2 * ((rem + 15) / 16) == spec_frame_length(d as int),
            ;
            assert(block_len == spec_block_data_len(d as int, k as int));
            if !is_valid_crc(&buffer[pos..pos + block_len + 2]) {
                proof {
                    assert(buffer@.subrange(pos as int, pos + block_len + 2) =~= buffer@.subrange(
                        spec_block_start(k as int),
                        spec_block_start(k as int) + spec_block_data_len(d as int, k as int) + 2,
                    ));
                    assert(k < spec_block_count(d as int)) by (nonlinear_arith)
                        requires
                            rem + 16 * (k - 1) == d - 10,
                            rem >= 1,
                            k >= 1,
                    ;
                    lemma_first_bad_block_some(
                        buffer@,
                        d as int,
                        0,
                        k as int,
                        spec_block_count(d as int),
                    );
                }
                return Err(Error::Crc(k));
            }
            assert(buffer@.subrange(pos as int, pos + block_len + 2) =~= buffer@.subrange(
                spec_block_start(k as int),
                spec_block_start(k as int) + spec_block_data_len(d as int, k as int) + 2,
            ));
            let ghost old_len = data@.len();
            data.extend_from_slice(&buffer[pos..pos + block_len]);
            proof {
                assert forall|i: int| 0 <= i < data@.len() implies data@[i]
                    == buffer@[#[trigger] spec_data_pos(i)] by {
                    if i >= old_len {
                        let off = i - old_len;
                        assert((i - 10) / 16 == k - 1 && (i - 10) % 16 == off) by (nonlinear_arith)
                            requires
                                old_len == d - rem,
                                rem + 16 * (k - 1) == d - 10,
                                i == old_len + off,
                                0 <= off < block_len,
                                block_len == if rem >= 16 {
                                    16int
                                } else {
                                    rem as int
                                },
                                rem > 0,
                        ;
                        assert(data@[i] == buffer@.subrange(pos as int, pos + block_len)[off]);
                    }
                }
            }
            let next_rem = rem - block_len;
            proof {
                assert((next_rem + 15) / 16 == (rem + 15) / 16 - 1) by (nonlinear_arith)
                    requires
                        next_rem == rem - (if rem >= 16 {
                            16int
                        } else {
                            rem as int
                        }),
                        rem > 0,
                ;
                if next_rem == 0 {
                    assert(k + 1 == spec_block_count(d as int)) by (nonlinear_arith)
                        requires
                            rem + 16 * (k - 1) == d - 10,
                            0 < rem <= 16,
                            k >= 1,
                    ;
                }
            }
            pos = pos + block_len + 2;
            rem = next_rem;
            k = k + 1;
        }
        proof {
            lemma_first_bad_block_none(buffer@, d as int, 0, spec_block_count(d as int));
            assert(data@ =~= Seq::new(d as nat, |i: int| buffer@[spec_data_pos(i)]));
        }
        Ok(data)
    }
}

/// Derive the total frame length (data plus CRCs) from the data length.
pub fn get_frame_length_from_data_length(data_length: usize) -> (r: Result<usize, Error>)
    requires
        data_length <= 256,
    ensures
        match r {
            Ok(n) => data_length >= 11 && n == spec_frame_length(data_length as int) && n <= 290,
            Err(Error::InvalidLength) => data_length < 11,
            Err(_) => false,
        },
{
    if data_length < MIN_DATA_LENGTH {
        return Err(Error::InvalidLength);
    }

    let other_data_length = data_length - FIRST_BLOCK_DATA_LENGTH;
    let full_block_count = other_data_length / OTHER_BLOCK_MAX_DATA_LENGTH;
    let last_block_data_length = other_data_length % OTHER_BLOCK_MAX_DATA_LENGTH;

    let last_block_frame_length = if last_block_data_length > 0 {
        last_block_data_length + 2
    } else {
        0
    };

    proof {
        lemma_frame_length_bounded(data_length as int);
    }
    Ok(FIRST_BLOCK_DATA_LENGTH + 2 + full_block_count * (OTHER_BLOCK_MAX_DATA_LENGTH + 2)
        + last_block_frame_length)
}

} // verus!
