//! The identifier that the off-chain worker gives a weather proposal: the
//! BLAKE2b-256 digest of the SCALE encoding of a random seed and a nonce.

use parity_scale_codec::Encode;
use vstd::prelude::*;

use crate::types::ProposalHash;

verus! {

/// The eight little-endian bytes of `n`, as SCALE encodes a `u64`.
pub open spec fn u64_le_bytes(n: u64) -> Seq<u8> {
    Seq::new(8, |i: int| ((n >> ((8 * i) as u64)) & 0xffu64) as u8)
}

/// What `sp_crypto_hashing::blake2_256` returns for `data`.
pub uninterp spec fn blake2_256_of(data: Seq<u8>) -> Seq<u8>;

/// SCALE-encodes the pair `(seed, nonce)` with `parity_scale_codec`: a fixed-size
/// byte array is written as its bytes, a `u64` as its eight little-endian bytes,
/// and a tuple as its parts one after the other.
#[verifier::external_body]
fn encode_seed_and_nonce(seed: &[u8; 32], nonce: u64) -> (bytes: Vec<u8>)
    ensures
        bytes@ == seed@ + u64_le_bytes(nonce),
{
    (seed, &nonce).encode()
}

/// The BLAKE2b-256 digest of `data`, by `sp_crypto_hashing::blake2_256`. The
/// digest is named, not described.
#[verifier::external_body]
fn blake2_256(data: &[u8]) -> (digest: [u8; 32])
    ensures
        digest@ == blake2_256_of(data@),
{
    sp_crypto_hashing::blake2_256(data)
}

/// The identifier of the proposal made with `seed` and `nonce`.
pub open spec fn proposal_hash_of(seed: Seq<u8>, nonce: u64) -> Seq<u8> {
    blake2_256_of(seed + u64_le_bytes(nonce))
}

/// The identifier of the proposal made with `seed` and `nonce`.
pub fn proposal_hash(seed: &[u8; 32], nonce: u64) -> (hash: ProposalHash)
    ensures
        hash@ == proposal_hash_of(seed@, nonce),
{
    let encoded = encode_seed_and_nonce(seed, nonce);
    blake2_256(encoded.as_slice())
}

} // verus!
