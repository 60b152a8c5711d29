//! Bit-level access to byte buffers, MSB-first within each byte.
//!
//! The three-of-six line code and the physical layer both treat byte
//! buffers as bit streams where bit 0 is the most significant bit of
//! byte 0. This module gives that view a specification and verified
//! accessors.

use vstd::prelude::*;

verus! {

/// Bit `i` of a byte sequence, MSB-first: bit 0 is the top bit of byte 0.
pub open spec fn seq_bit(bytes: Seq<u8>, i: int) -> bool
    recommends
        0 <= i < bytes.len() * 8,
{
    (bytes[i / 8] >> ((7 - i % 8) as u8)) & 1 == 1
}

/// Read bit `i` of a byte slice.
pub fn get_bit(bytes: &[u8], i: usize) -> (r: bool)
    requires
        i < bytes@.len() * 8,
    ensures
        r == seq_bit(bytes@, i as int),
{
    let b = bytes[i / 8];
    let sh: u8 = (7 - i % 8) as u8;
    ((b >> sh) & 1) == 1
}

/// After writing bit `sk` (counting from the most significant bit), every
/// other bit of the byte is unchanged and bit `sk` holds the new value.
/// `sk` and `sj` are shift amounts, i.e. 7 minus the bit position.
proof fn lemma_byte_bit_update(b: u8, sk: u8, sj: u8, v: bool)
    by (bit_vector)
    requires
        sk < 8,
        sj < 8,
    ensures
        ({
            let nb = if v {
                b | (1u8 << sk)
            } else {
                b & !(1u8 << sk)
            };
            &&& (sj != sk ==> ((nb >> sj) & 1) == ((b >> sj) & 1))
            &&& ((nb >> sk) & 1) == (if v {
                1u8
            } else {
                0u8
            })
        }),
{
}

/// Write bit `i` of a byte vector, leaving every other bit unchanged.
pub fn set_bit(bytes: &mut Vec<u8>, i: usize, v: bool)
    requires
        i < old(bytes)@.len() * 8,
    ensures
        final(bytes)@.len() == old(bytes)@.len(),
        seq_bit(final(bytes)@, i as int) == v,
        forall|j: int|
            0 <= j < old(bytes)@.len() * 8 && j != i ==> seq_bit(final(bytes)@, j) == seq_bit(
                old(bytes)@,
                j,
            ),
{
    let idx = i / 8;
    let sh: u8 = (7 - i % 8) as u8;
    let b = bytes[idx];
    let nb = if v {
        b | (1u8 << sh)
    } else {
        b & !(1u8 << sh)
    };
    bytes[idx] = nb;
    proof {
        assert forall|j: int| 0 <= j < old(bytes)@.len() * 8 && j != i implies seq_bit(
            final(bytes)@,
            j,
        ) == seq_bit(old(bytes)@, j) by {
            if j / 8 == i / 8 {
                assert(j % 8 != i % 8);
                lemma_byte_bit_update(b, sh, (7 - j % 8) as u8, v);
            }
        }
        lemma_byte_bit_update(b, sh, sh, v);
    }
}

} // verus!
