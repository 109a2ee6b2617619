//! Hashing and SCALE encoding of the entropy payload that seeds kitty DNA.

use vstd::prelude::*;
use parity_scale_codec::Encode;

verus! {

/// What the 128-bit Blake2b hash of `sp_io::hashing::blake2_128` gives for the bytes `data`.
pub uninterp spec fn blake2_128_digest(data: Seq<u8>) -> Seq<u8>;

/// Calls `sp_io::hashing::blake2_128`. The contract claims only that the
/// result is the 128-bit Blake2b digest of the bytes handed in, by name: the
/// digest function itself is not stated.
#[verifier::external_body]
fn blake2_128(data: &[u8]) -> (digest: [u8; 16])
    ensures
        digest@ == blake2_128_digest(data@),
{
    sp_io::hashing::blake2_128(data)
}

/// The `n` least significant bytes of `x`, least significant first.
pub open spec fn le_bytes(x: nat, n: nat) -> Seq<u8>
    decreases n,
{
    if n == 0 {
        Seq::empty()
    } else {
        seq![(x % 256) as u8] + le_bytes(x / 256, (n - 1) as nat)
    }
}

/// SCALE encoding of an `Option<u32>`: a tag byte, then the little-endian value.
pub open spec fn scale_option_u32(v: Option<u32>) -> Seq<u8> {
    match v {
        Some(x) => seq![1u8] + le_bytes(x as nat, 4),
        None => seq![0u8],
    }
}

/// SCALE encoding of the tuple `(seed, account, extrinsic_index)`: the 32 seed
/// bytes as they stand, the account as 8 little-endian bytes, then the index.
pub open spec fn entropy_payload(seed: Seq<u8>, account: u64, extrinsic_index: Option<u32>) -> Seq<u8> {
    seed + le_bytes(account as nat, 8) + scale_option_u32(extrinsic_index)
}

/// Calls `Encode::encode` of `parity_scale_codec` on the tuple
/// `(seed, account, extrinsic_index)`. The contract claims the SCALE layout
/// that the crate's impls for fixed arrays, `u64`, `Option` and tuples write:
/// array bytes verbatim, integers little-endian, an option's tag byte, and the
/// fields one after another.
#[verifier::external_body]
fn scale_encode_entropy(seed: [u8; 32], account: u64, extrinsic_index: Option<u32>) -> (bytes: Vec<u8>)
    ensures
        bytes@ == entropy_payload(seed@, account, extrinsic_index),
{
    (seed, account, extrinsic_index).encode()
}

/// The 16 pseudo-random bytes that seed a kitty: the Blake2-128 digest of the
/// SCALE-encoded `(seed, account, extrinsic_index)`.
pub open spec fn spec_random_value(seed: Seq<u8>, account: u64, extrinsic_index: Option<u32>) -> Seq<u8> {
    blake2_128_digest(entropy_payload(seed, account, extrinsic_index))
}

/// Hashes the randomness seed, the account and the extrinsic index into 16 bytes.
pub fn random_value(seed: [u8; 32], account: u64, extrinsic_index: Option<u32>) -> (r: [u8; 16])
    ensures
        r@ == spec_random_value(seed@, account, extrinsic_index),
{
    let payload = scale_encode_entropy(seed, account, extrinsic_index);
    blake2_128(payload.as_slice())
}

} // verus!
