//! Hash derivation: the challenge bytes followed by the nonce as four bytes,
//! hashed with SHA-256. The nonce's byte order is picked by the challenge
//! itself: little-endian when its last byte has the high bit set, big-endian
//! otherwise.

use sha2::Digest;
use vstd::prelude::*;

verus! {

/// Width in bytes of a derived digest.
pub const DIGEST_SIZE: usize = 32;

/// The SHA-256 digest of `data`.
pub uninterp spec fn sha256_of(data: Seq<u8>) -> Seq<u8>;

/// Relies on `sha2::Sha256::digest` (via the `Digest` trait): the SHA-256
/// digest of the input, 32 bytes, depending on the input bytes alone.
#[verifier::external_body]
fn sha256(data: &[u8]) -> (r: [u8; 32])
    ensures
        r@ == sha256_of(data@),
{
    sha2::Sha256::digest(data).into()
}

/// `n` as four bytes, least significant first.
pub open spec fn le_bytes(n: u32) -> Seq<u8> {
    seq![n as u8, (n >> 8u32) as u8, (n >> 16u32) as u8, (n >> 24u32) as u8]
}

/// `n` as four bytes, most significant first.
pub open spec fn be_bytes(n: u32) -> Seq<u8> {
    seq![(n >> 24u32) as u8, (n >> 16u32) as u8, (n >> 8u32) as u8, n as u8]
}

/// The nonce is written little-endian exactly when the challenge's last byte
/// is 0x80 or more.
pub open spec fn uses_little_endian(challenge: Seq<u8>) -> bool {
    challenge.last() >= 0x80
}

/// What is hashed for `nonce` under `challenge`.
pub open spec fn hash_input_of(challenge: Seq<u8>, nonce: u32) -> Seq<u8> {
    challenge + if uses_little_endian(challenge) {
        le_bytes(nonce)
    } else {
        be_bytes(nonce)
    }
}

/// The digest derived for `nonce` under `challenge`.
pub open spec fn derived_digest(challenge: Seq<u8>, nonce: u32) -> Seq<u8> {
    sha256_of(hash_input_of(challenge, nonce))
}

/// Builds the bytes that are hashed for `nonce`: a copy of the challenge with
/// the nonce appended in the byte order the challenge selects.
pub fn hash_input(challenge: &[u8], nonce: u32) -> (r: Vec<u8>)
    requires
        challenge@.len() > 0,
        challenge@.len() + 4 <= usize::MAX,
    ensures
        r@ == hash_input_of(challenge@, nonce),
{
    let len = challenge.len();
    let mut input: Vec<u8> = Vec::with_capacity(len + 4);
    let mut i: usize = 0;
    while i < len
        invariant
            len == challenge@.len(),
            i <= len,
            input@ == challenge@.subrange(0, i as int),
        decreases len - i,
    {
        input.push(challenge[i]);
        i += 1;
    }
    let b0 = nonce as u8;
    let b1 = (nonce >> 8u32) as u8;
    let b2 = (nonce >> 16u32) as u8;
    let b3 = (nonce >> 24u32) as u8;
    if challenge[len - 1] >= 0x80 {
        input.push(b0);
        input.push(b1);
        input.push(b2);
        input.push(b3);
    } else {
        input.push(b3);
        input.push(b2);
        input.push(b1);
        input.push(b0);
    }
    proof {
        assert(challenge@.subrange(0, len as int) =~= challenge@);
        assert(input@ =~= hash_input_of(challenge@, nonce));
    }
    input
}

/// The digest for `nonce` under `challenge`. An empty challenge has no last
/// byte to pick a byte order from, and is refused by the precondition.
pub fn compute_hash(challenge: &[u8], nonce: u32) -> (r: [u8; 32])
    requires
        challenge@.len() > 0,
        challenge@.len() + 4 <= usize::MAX,
    ensures
        r@ == derived_digest(challenge@, nonce),
{
    let input = hash_input(challenge, nonce);
    sha256(input.as_slice())
}

/// The byte order of the nonce in what is hashed follows the challenge's last
/// byte: at 0x80 or above the four bytes after the challenge are the nonce
/// least significant first, at 0x7F or below most significant first.
pub proof fn lemma_nonce_byte_order(challenge: Seq<u8>, nonce: u32)
    requires
        challenge.len() > 0,
    ensures
        hash_input_of(challenge, nonce).subrange(0, challenge.len() as int) == challenge,
        challenge.last() >= 0x80 ==> hash_input_of(challenge, nonce).subrange(
            challenge.len() as int,
            challenge.len() + 4int,
        ) == seq![nonce as u8, (nonce >> 8u32) as u8, (nonce >> 16u32) as u8, (nonce >> 24u32) as u8],
        challenge.last() <= 0x7F ==> hash_input_of(challenge, nonce).subrange(
            challenge.len() as int,
            challenge.len() + 4int,
        ) == seq![(nonce >> 24u32) as u8, (nonce >> 16u32) as u8, (nonce >> 8u32) as u8, nonce as u8],
{
    let n = challenge.len() as int;
    let input = hash_input_of(challenge, nonce);
    assert(input.subrange(0, n) =~= challenge);
    if challenge.last() >= 0x80 {
        assert(input.subrange(n, n + 4) =~= le_bytes(nonce));
    } else {
        assert(input.subrange(n, n + 4) =~= be_bytes(nonce));
    }
}

} // verus!
