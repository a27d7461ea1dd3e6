//! The difficulty predicate: does a digest start with a given number of
//! zero bits?

use vstd::prelude::*;

verus! {

/// Bit `j` of byte `b`, counting from the most significant bit (`j == 0`)
/// down to the least significant one (`j == 7`).
pub open spec fn bit_of(b: u8, j: int) -> bool {
    (b >> ((7 - j) as u8)) & 1u8 == 1u8
}

/// The first `k` bits of `d` are zero, reading each byte from its most
/// significant bit down. Bit `j` of byte `i` is bit number `8 * i + j` of the
/// digest; bits past the end of `d` do not exist and constrain nothing.
pub open spec fn first_bits_zero(d: Seq<u8>, k: int) -> bool {
    forall|i: int, j: int|
        0 <= i < d.len() && 0 <= j < 8 && 8 * i + j < k ==> !#[trigger] bit_of(d[i], j)
}

/// A byte is zero exactly when none of its eight bits is set.
proof fn lemma_zero_byte(b: u8)
    ensures
        b == 0 <==> (!bit_of(b, 0) && !bit_of(b, 1) && !bit_of(b, 2) && !bit_of(b, 3)
            && !bit_of(b, 4) && !bit_of(b, 5) && !bit_of(b, 6) && !bit_of(b, 7)),
{
    assert(b == 0u8 <==> ((b >> 7u8) & 1u8 != 1u8 && (b >> 6u8) & 1u8 != 1u8 && (b >> 5u8)
        & 1u8 != 1u8 && (b >> 4u8) & 1u8 != 1u8 && (b >> 3u8) & 1u8 != 1u8 && (b >> 2u8) & 1u8
        != 1u8 && (b >> 1u8) & 1u8 != 1u8 && (b >> 0u8) & 1u8 != 1u8)) by (bit_vector);
}

/// Masking a byte with its top `r` bits gives zero exactly when those `r`
/// bits are all clear.
proof fn lemma_top_bits_mask(b: u8, r: u32)
    requires
        1 <= r <= 7,
    ensures
        (b & (0xFFu8 << ((8 - r) as u8))) == 0 <==> (forall|j: int|
            0 <= j < r ==> !#[trigger] bit_of(b, j)),
{
    let s = (8 - r) as u8;
    assert(1 <= s <= 7);
    assert((b & (0xFFu8 << s)) == 0 <==> (((s <= 7 ==> (b >> 7u8) & 1u8 != 1u8) && (s <= 6 ==> (
    b >> 6u8) & 1u8 != 1u8) && (s <= 5 ==> (b >> 5u8) & 1u8 != 1u8) && (s <= 4 ==> (b >> 4u8)
        & 1u8 != 1u8) && (s <= 3 ==> (b >> 3u8) & 1u8 != 1u8) && (s <= 2 ==> (b >> 2u8) & 1u8
        != 1u8) && (s <= 1 ==> (b >> 1u8) & 1u8 != 1u8)))) by (bit_vector)
        requires
            1 <= s <= 7,
    ;
    if (b & (0xFFu8 << s)) == 0 {
        assert forall|j: int| 0 <= j < r implies !#[trigger] bit_of(b, j) by {
            assert(0 <= j <= 6);
        }
    } else {
        assert(exists|j: int| 0 <= j < r && #[trigger] bit_of(b, j)) by {
            if bit_of(b, 0) {
                assert(bit_of(b, 0));
            } else if s <= 6 && bit_of(b, 1) {
                assert(bit_of(b, 1));
            } else if s <= 5 && bit_of(b, 2) {
                assert(bit_of(b, 2));
            } else if s <= 4 && bit_of(b, 3) {
                assert(bit_of(b, 3));
            } else if s <= 3 && bit_of(b, 4) {
                assert(bit_of(b, 4));
            } else if s <= 2 && bit_of(b, 5) {
                assert(bit_of(b, 5));
            } else {
                assert(bit_of(b, 6));
            }
        }
    }
}

/// Whether `hash` starts with `difficulty` zero bits. Whole zero bytes are
/// consumed eight bits at a time; a final partial byte is masked down to the
/// bits that still count. A difficulty beyond the digest's width asks for
/// every bit of the digest to be zero.
pub fn validate(hash: &[u8], difficulty: u32) -> (r: bool)
    ensures
        r == first_bits_zero(hash@, difficulty as int),
{
    let mut remaining: u32 = difficulty;
    let mut i: usize = 0;
    while i < hash.len()
        invariant
            i <= hash.len(),
            remaining as int == difficulty as int - 8 * i,
            forall|a: int, j: int|
                0 <= a < i && 0 <= j < 8 ==> !#[trigger] bit_of(hash@[a], j),
        decreases hash.len() - i,
    {
        if remaining == 0 {
            return true;
        }
        let byte = hash[i];
        if remaining >= 8 {
            if byte != 0 {
                proof {
                    lemma_zero_byte(byte);
                }
                return false;
            }
            proof {
                lemma_zero_byte(byte);
            }
            remaining -= 8;
        } else {
            let mask: u8 = 0xFF << ((8 - remaining) as u8);
            proof {
                lemma_top_bits_mask(byte, remaining);
            }
            return (byte & mask) == 0;
        }
        i += 1;
    }
    true
}

/// A difficulty of zero is met by every digest.
pub proof fn lemma_zero_difficulty(d: Seq<u8>)
    ensures
        first_bits_zero(d, 0),
{
}

} // verus!
