//! The "three out of six" line code of EN 13757-4.
//!
//! Each 4-bit nibble maps to a 6-bit symbol with exactly three 1-bits,
//! which keeps the line DC-balanced and lets a receiver reject corrupted
//! symbols by weight. A byte becomes twelve bits: the symbol of its high
//! nibble followed by the symbol of its low nibble, MSB-first.

use vstd::prelude::*;

use crate::bits::{get_bit, seq_bit, set_bit};

verus! {

/// The 6-bit symbol that encodes nibble `n`.
pub open spec fn symbol_of_nibble(n: int) -> u8 {
    if n == 0 {
        22
    } else if n == 1 {
        13
    } else if n == 2 {
        14
    } else if n == 3 {
        11
    } else if n == 4 {
        28
    } else if n == 5 {
        25
    } else if n == 6 {
        26
    } else if n == 7 {
        19
    } else if n == 8 {
        44
    } else if n == 9 {
        37
    } else if n == 10 {
        38
    } else if n == 11 {
        35
    } else if n == 12 {
        52
    } else if n == 13 {
        49
    } else if n == 14 {
        50
    } else {
        41
    }
}

/// The nibble a 6-bit symbol decodes to, or `None` for an invalid symbol.
pub open spec fn nibble_of_symbol(v: int) -> Option<u8> {
    if v == 22 {
        Some(0u8)
    } else if v == 13 {
        Some(1u8)
    } else if v == 14 {
        Some(2u8)
    } else if v == 11 {
        Some(3u8)
    } else if v == 28 {
        Some(4u8)
    } else if v == 25 {
        Some(5u8)
    } else if v == 26 {
        Some(6u8)
    } else if v == 19 {
        Some(7u8)
    } else if v == 44 {
        Some(8u8)
    } else if v == 37 {
        Some(9u8)
    } else if v == 38 {
        Some(10u8)
    } else if v == 35 {
        Some(11u8)
    } else if v == 52 {
        Some(12u8)
    } else if v == 49 {
        Some(13u8)
    } else if v == 50 {
        Some(14u8)
    } else if v == 41 {
        Some(15u8)
    } else {
        None
    }
}

/// Bit `j` (MSB-first, `0 <= j < 6`) of a 6-bit symbol.
pub open spec fn symbol_bit(sym: u8, j: int) -> bool {
    (sym as int / (if j == 0 {
        32int
    } else if j == 1 {
        16
    } else if j == 2 {
        8
    } else if j == 3 {
        4
    } else if j == 4 {
        2
    } else {
        1
    })) % 2 == 1
}

/// Nibble `k` of a byte sequence: high nibble of byte `k/2` for even `k`,
/// low nibble for odd `k`.
pub open spec fn source_nibble(s: Seq<u8>, k: int) -> u8 {
    if k % 2 == 0 {
        s[k / 2] / 16
    } else {
        s[k / 2] % 16
    }
}

/// Bit `i` of the encoded bit stream of `s`, for `0 <= i < 12 * |s|`.
pub open spec fn encoded_bit(s: Seq<u8>, i: int) -> bool {
    symbol_bit(symbol_of_nibble(source_nibble(s, i / 6) as int), i % 6)
}

pub open spec fn bool_val(b: bool) -> int {
    if b {
        1
    } else {
        0
    }
}

/// The value of the `k`-th 6-bit symbol in the bit stream of `bytes`.
pub open spec fn symbol_at(bytes: Seq<u8>, k: int) -> int {
    32 * bool_val(seq_bit(bytes, 6 * k)) + 16 * bool_val(seq_bit(bytes, 6 * k + 1)) + 8 * bool_val(
        seq_bit(bytes, 6 * k + 2),
    ) + 4 * bool_val(seq_bit(bytes, 6 * k + 3)) + 2 * bool_val(seq_bit(bytes, 6 * k + 4))
        + bool_val(seq_bit(bytes, 6 * k + 5))
}

/// The first `n` symbols of the bit stream of `bytes` are all valid.
pub open spec fn symbols_valid(bytes: Seq<u8>, n: int) -> bool {
    forall|k: int| 0 <= k < n ==> (#[trigger] nibble_of_symbol(symbol_at(bytes, k))) is Some
}

/// Byte `i` of the decoded output: symbols `2i` and `2i + 1` packed high-first.
pub open spec fn decoded_byte_at(bytes: Seq<u8>, i: int) -> u8 {
    (nibble_of_symbol(symbol_at(bytes, 2 * i)).unwrap() * 16 + nibble_of_symbol(
        symbol_at(bytes, 2 * i + 1),
    ).unwrap()) as u8
}

/// The number of 1-bits in a 6-bit symbol.
pub open spec fn symbol_weight(sym: u8) -> int {
    bool_val(symbol_bit(sym, 0)) + bool_val(symbol_bit(sym, 1)) + bool_val(symbol_bit(sym, 2))
        + bool_val(symbol_bit(sym, 3)) + bool_val(symbol_bit(sym, 4)) + bool_val(
        symbol_bit(sym, 5),
    )
}

/// Every symbol of the encode table has exactly three 1-bits.
pub proof fn lemma_symbol_weight_three(n: int)
    requires
        0 <= n < 16,
    ensures
        symbol_weight(symbol_of_nibble(n)) == 3,
{
}

/// Decoding inverts encoding on the symbol tables.
proof fn lemma_table_inverse(n: u8)
    requires
        n < 16,
    ensures
        nibble_of_symbol(symbol_of_nibble(n as int) as int) == Some(n),
        symbol_of_nibble(n as int) < 64,
{
}

/// A 6-bit value is the weighted sum of its bits.
proof fn lemma_symbol_recompose(sym: u8)
    requires
        sym < 64,
    ensures
        sym as int == 32 * bool_val(symbol_bit(sym, 0)) + 16 * bool_val(symbol_bit(sym, 1)) + 8
            * bool_val(symbol_bit(sym, 2)) + 4 * bool_val(symbol_bit(sym, 3)) + 2 * bool_val(
            symbol_bit(sym, 4),
        ) + bool_val(symbol_bit(sym, 5)),
{
    let s = sym as int;
    assert(s == 32 * (s / 32 % 2) + 16 * (s / 16 % 2) + 8 * (s / 8 % 2) + 4 * (s / 4 % 2) + 2 * (s
        / 2 % 2) + s % 2) by (nonlinear_arith)
        requires
            0 <= s < 64,
    ;
}

/// Round trip: a bit stream that carries the encoding of `s` decodes back
/// to `s`, symbol by symbol. The stream may extend past the encoded bits.
#[verifier::rlimit(100)]
#[verifier::spinoff_prover]
pub proof fn lemma_decode_inverts_encode(enc: Seq<u8>, s: Seq<u8>)
    requires
        forall|i: int| 0 <= i < 12 * s.len() ==> #[trigger] seq_bit(enc, i) == encoded_bit(s, i),
    ensures
        symbols_valid(enc, 2 * s.len() as int),
        forall|i: int| 0 <= i < s.len() ==> #[trigger] decoded_byte_at(enc, i) == s[i],
{
    assert forall|k: int| 0 <= k < 2 * s.len() implies (#[trigger] nibble_of_symbol(
        symbol_at(enc, k),
    )) is Some by {
        lemma_symbol_at_encoded(enc, s, k);
    }
    assert forall|i: int| 0 <= i < s.len() implies #[trigger] decoded_byte_at(enc, i) == s[i] by {
        lemma_symbol_at_encoded(enc, s, 2 * i);
        lemma_symbol_at_encoded(enc, s, 2 * i + 1);
        let b = s[i];
        assert(b / 16 < 16 && b % 16 < 16);
        assert((b / 16) * 16 + b % 16 == b) by (nonlinear_arith);
    }
}

/// Symbol `k` of an encoded stream is the table symbol of nibble `k`.
#[verifier::rlimit(100)]
#[verifier::spinoff_prover]
proof fn lemma_symbol_at_encoded(enc: Seq<u8>, s: Seq<u8>, k: int)
    requires
        forall|i: int| 0 <= i < 12 * s.len() ==> #[trigger] seq_bit(enc, i) == encoded_bit(s, i),
        0 <= k < 2 * s.len(),
    ensures
        symbol_at(enc, k) == symbol_of_nibble(source_nibble(s, k) as int),
        nibble_of_symbol(symbol_at(enc, k)) == Some(source_nibble(s, k)),
{
    let sym = symbol_of_nibble(source_nibble(s, k) as int);
    assert forall|j: int| 0 <= j < 6 implies #[trigger] seq_bit(enc, 6 * k + j) == symbol_bit(
        sym,
        j,
    ) by {
        assert((6 * k + j) / 6 == k && (6 * k + j) % 6 == j) by (nonlinear_arith)
            requires
                0 <= j < 6,
        ;
        assert(seq_bit(enc, 6 * k + j) == encoded_bit(s, 6 * k + j));
    }
    assert(symbol_of_nibble(source_nibble(s, k) as int) < 64);
    lemma_symbol_recompose(sym);
    assert(source_nibble(s, k) < 16);
    lemma_table_inverse(source_nibble(s, k));
}

#[derive(Clone, Copy, Debug, PartialEq, Eq, Structural)]
pub enum Error {
    /// The provided buffer is too small to hold the result.
    Capacity,
    /// The input length is not a whole, even number of symbols.
    InputLength,
    /// The symbol at this index does not decode.
    Symbol(usize),
}

pub struct ThreeOutOfSix;

/// The table symbol for a nibble.
fn encode_symbol(n: u8) -> (r: u8)
    requires
        n < 16,
    ensures
        r == symbol_of_nibble(n as int),
        r < 64,
{
    if n == 0 {
        22
    } else if n == 1 {
        13
    } else if n == 2 {
        14
    } else if n == 3 {
        11
    } else if n == 4 {
        28
    } else if n == 5 {
        25
    } else if n == 6 {
        26
    } else if n == 7 {
        19
    } else if n == 8 {
        44
    } else if n == 9 {
        37
    } else if n == 10 {
        38
    } else if n == 11 {
        35
    } else if n == 12 {
        52
    } else if n == 13 {
        49
    } else if n == 14 {
        50
    } else {
        41
    }
}

/// The nibble for a symbol, or `None` if the symbol is invalid.
fn decode_symbol(v: u8) -> (r: Option<u8>)
    ensures
        r == nibble_of_symbol(v as int),
{
    if v == 22 {
        Some(0)
    } else if v == 13 {
        Some(1)
    } else if v == 14 {
        Some(2)
    } else if v == 11 {
        Some(3)
    } else if v == 28 {
        Some(4)
    } else if v == 25 {
        Some(5)
    } else if v == 26 {
        Some(6)
    } else if v == 19 {
        Some(7)
    } else if v == 44 {
        Some(8)
    } else if v == 37 {
        Some(9)
    } else if v == 38 {
        Some(10)
    } else if v == 35 {
        Some(11)
    } else if v == 52 {
        Some(12)
    } else if v == 49 {
        Some(13)
    } else if v == 50 {
        Some(14)
    } else if v == 41 {
        Some(15)
    } else {
        None
    }
}

/// Write the six bits of `sym` at bit positions `pos..pos + 6`.
fn write_symbol(buffer: &mut Vec<u8>, pos: usize, sym: u8)
    requires
        sym < 64,
        pos + 6 <= usize::MAX,
        pos + 6 <= old(buffer)@.len() * 8,
    ensures
        final(buffer)@.len() == old(buffer)@.len(),
        forall|j: int| 0 <= j < 6 ==> seq_bit(final(buffer)@, pos + j) == symbol_bit(sym, j),
        forall|i: int|
            0 <= i < old(buffer)@.len() * 8 && !(pos <= i < pos + 6) ==> seq_bit(final(buffer)@, i)
                == seq_bit(old(buffer)@, i),
{
    set_bit(buffer, pos, (sym / 32) % 2 == 1);
    set_bit(buffer, pos + 1, (sym / 16) % 2 == 1);
    set_bit(buffer, pos + 2, (sym / 8) % 2 == 1);
    set_bit(buffer, pos + 3, (sym / 4) % 2 == 1);
    set_bit(buffer, pos + 4, (sym / 2) % 2 == 1);
    set_bit(buffer, pos + 5, sym % 2 == 1);
}

/// Read the `k`-th 6-bit symbol of the bit stream of `input`.
fn read_symbol(input: &[u8], k: usize) -> (v: u8)
    requires
        6 * k + 6 <= usize::MAX,
        6 * k + 6 <= input@.len() * 8,
    ensures
        v as int == symbol_at(input@, k as int),
        v < 64,
{
    let base = 6 * k;
    let b0: u8 = if get_bit(input, base) {
        32
    } else {
        0
    };
    let b1: u8 = if get_bit(input, base + 1) {
        16
    } else {
        0
    };
    let b2: u8 = if get_bit(input, base + 2) {
        8
    } else {
        0
    };
    let b3: u8 = if get_bit(input, base + 3) {
        4
    } else {
        0
    };
    let b4: u8 = if get_bit(input, base + 4) {
        2
    } else {
        0
    };
    let b5: u8 = if get_bit(input, base + 5) {
        1
    } else {
        0
    };
    b0 + b1 + b2 + b3 + b4 + b5
}

impl ThreeOutOfSix {
    /// Encode `source` into the bit positions `0..12 * source.len()` of
    /// `buffer` and return the number of bits written. Bits past the
    /// encoding are left unchanged. Fails with `Capacity` when the buffer
    /// cannot hold twelve bits per source byte.
    pub fn encode(buffer: &mut Vec<u8>, source: &[u8]) -> (r: Result<usize, Error>)
        requires
            source@.len() * 12 + 7 <= usize::MAX,
        ensures
            final(buffer)@.len() == old(buffer)@.len(),
            r is Err <==> old(buffer)@.len() * 8 < source@.len() * 12,
            match r {
                Ok(n) => {
                    &&& n == source@.len() * 12
                    &&& forall|i: int|
                        0 <= i < n ==> #[trigger] seq_bit(final(buffer)@, i) == encoded_bit(
                            source@,
                            i,
                        )
                    &&& forall|i: int|
                        n <= i < old(buffer)@.len() * 8 ==> #[trigger] seq_bit(final(buffer)@, i)
                            == seq_bit(old(buffer)@, i)
                },
                Err(e) => e == Error::Capacity && final(buffer)@ == old(buffer)@,
            },
    {
        let needed_bits = source.len() * 12;
        if buffer.len() < (needed_bits + 7) / 8 {
            return Err(Error::Capacity);
        }
        let mut written: usize = 0;
        let mut bi: usize = 0;
        while bi < source.len()
            invariant
                bi <= source@.len(),
                written == bi * 12,
                source@.len() * 12 + 7 <= usize::MAX,
                source@.len() * 12 <= buffer@.len() * 8,
                buffer@.len() == old(buffer)@.len(),
                forall|i: int|
                    0 <= i < written ==> #[trigger] seq_bit(buffer@, i) == encoded_bit(source@, i),
                forall|i: int|
                    written <= i < buffer@.len() * 8 ==> #[trigger] seq_bit(buffer@, i) == seq_bit(
                        old(buffer)@,
                        i,
                    ),
            decreases source@.len() - bi,
        {
            let byte = source[bi];
            let ghost pre = buffer@;
            write_symbol(buffer, written, encode_symbol(byte / 16));
            write_symbol(buffer, written + 6, encode_symbol(byte % 16));
            proof {
                assert forall|i: int| 0 <= i < written + 12 implies #[trigger] seq_bit(buffer@, i)
                    == encoded_bit(source@, i) by {
                    if i >= written {
                        let j = i - written;
                        assert(i / 6 == if j < 6 {
                            2 * bi
                        } else {
                            2 * bi + 1
                        } && i % 6 == if j < 6 {
                            j
                        } else {
                            j - 6
                        }) by (nonlinear_arith)
                            requires
                                i == written + j,
                                written == 12 * bi,
                                0 <= j < 12,
                        ;
                        assert(source_nibble(source@, i / 6) == if j < 6 {
                            byte / 16
                        } else {
                            byte % 16
                        });
                    } else {
                        assert(seq_bit(buffer@, i) == seq_bit(pre, i));
                    }
                }
            }
            written = written + 12;
            bi = bi + 1;
        }
        Ok(written)
    }

    /// Decode `bits` bits of `input` into the first `bits / 12` bytes of
    /// `buffer` and return that count. The bit count must be a whole, even
    /// number of symbols; an invalid symbol fails with its index.
    pub fn decode(buffer: &mut Vec<u8>, input: &[u8], bits: usize) -> (r: Result<usize, Error>)
        requires
            bits <= input@.len() * 8,
            old(buffer)@.len() >= bits / 12,
        ensures
            final(buffer)@.len() == old(buffer)@.len(),
            forall|i: int|
                bits / 12 <= i < old(buffer)@.len() ==> final(buffer)@[i] == old(buffer)@[i],
            match r {
                Ok(n) => {
                    &&& bits % 6 == 0
                    &&& (bits / 6) % 2 == 0
                    &&& n == bits / 12
                    &&& symbols_valid(input@, bits as int / 6)
                    &&& forall|i: int|
                        0 <= i < n ==> final(buffer)@[i] == #[trigger] decoded_byte_at(input@, i)
                },
                Err(Error::InputLength) => {
                    &&& (bits % 6 != 0 || (bits / 6) % 2 != 0)
                    &&& final(buffer)@ == old(buffer)@
                },
                Err(Error::Symbol(k)) => {
                    &&& bits % 6 == 0
                    &&& (bits / 6) % 2 == 0
                    &&& 0 <= k < bits / 6
                    &&& symbols_valid(input@, k as int)
                    &&& nibble_of_symbol(symbol_at(input@, k as int)) is None
                },
                Err(Error::Capacity) => false,
            },
    {
        if bits % 6 != 0 || (bits / 6) % 2 != 0 {
            return Err(Error::InputLength);
        }
        let n_sym = bits / 6;
        let mut k: usize = 0;
        let mut carry: u8 = 0;
        while k < n_sym
            invariant
                k <= n_sym,
                n_sym == bits / 6,
                bits % 6 == 0,
                n_sym % 2 == 0,
                bits <= input@.len() * 8,
                buffer@.len() == old(buffer)@.len(),
                buffer@.len() >= bits / 12,
                symbols_valid(input@, k as int),
                k % 2 == 1 ==> carry == nibble_of_symbol(symbol_at(input@, k - 1)).unwrap()
                    && carry < 16,
                forall|i: int|
                    0 <= i < k / 2 ==> buffer@[i] == #[trigger] decoded_byte_at(input@, i),
                forall|i: int| k / 2 <= i < buffer@.len() ==> buffer@[i] == old(buffer)@[i],
            decreases n_sym - k,
        {
            assert(6 * k + 6 <= bits) by (nonlinear_arith)
                requires
                    k < n_sym,
                    n_sym == bits / 6,
                    bits % 6 == 0,
            ;
            let v = read_symbol(input, k);
            match decode_symbol(v) {
                None => {
                    return Err(Error::Symbol(k));
                },
                Some(nib) => {
                    if k % 2 == 0 {
                        carry = nib;
                    } else {
                        buffer[k / 2] = carry * 16 + nib;
                        assert(buffer@[k as int / 2] == decoded_byte_at(input@, k as int / 2));
                    }
                },
            }
            k = k + 1;
        }
        assert(n_sym / 2 == bits / 12) by (nonlinear_arith)
            requires
                n_sym == bits / 6,
                bits % 6 == 0,
        ;
        Ok(n_sym / 2)
    }
}

} // verus!
