//! The SCALE binary encoding of the values this crate stores or hashes, and
//! the Blake2 hash that payloads are derived with.
use vstd::prelude::*;
use parity_scale_codec::{Decode, Encode};

verus! {

/// Little-endian bytes of a `u32`.
pub open spec fn u32_le(x: u32) -> Seq<u8> {
    seq![x as u8, (x >> 8u32) as u8, (x >> 16u32) as u8, (x >> 24u32) as u8]
}

/// Little-endian bytes of a `u64`.
pub open spec fn u64_le(x: u64) -> Seq<u8> {
    seq![
        x as u8, (x >> 8u64) as u8, (x >> 16u64) as u8, (x >> 24u64) as u8,
        (x >> 32u64) as u8, (x >> 40u64) as u8, (x >> 48u64) as u8, (x >> 56u64) as u8,
    ]
}

/// Encoding of an optional `u32`: a 0 byte for `None`, a 1 byte and the
/// value for `Some`.
pub open spec fn option_u32_encoding(x: Option<u32>) -> Seq<u8> {
    match x {
        Some(v) => seq![1u8] + u32_le(v),
        None => seq![0u8],
    }
}

/// Encoding of the triple that a random payload is derived from: the seed as
/// raw bytes, then the account and the position of the call in its batch.
pub open spec fn seed_material(seed: Seq<u8>, who: u64, index: Option<u32>) -> Seq<u8> {
    seed + u64_le(who) + option_u32_encoding(index)
}

/// Encoding of an entity record: the payload, then the name, both as raw
/// bytes.
pub open spec fn record_encoding(dna: Seq<u8>, name: Seq<u8>) -> Seq<u8> {
    dna + name
}

/// The 128-bit Blake2b digest of a byte string.
pub uninterp spec fn blake2_128_of(data: Seq<u8>) -> Seq<u8>;

/// Relies on the SCALE `Encode` impls of `[u8; 32]`, `u64`, `Option<u32>`
/// and of a tuple, which concatenates its fields.
#[verifier::external_body]
pub(crate) fn encode_seed_material(seed: &[u8; 32], who: u64, index: Option<u32>) -> (r: Vec<u8>)
    ensures
        r@ == seed_material(seed@, who, index),
{
    (seed, who, index).encode()
}

/// Relies on the SCALE `Encode` impls of byte arrays and of a tuple: the
/// bytes of the payload, then those of the name.
#[verifier::external_body]
pub(crate) fn encode_record<const M: usize>(dna: &[u8; 16], name: &[u8; M]) -> (r: Vec<u8>)
    ensures
        r@ == record_encoding(dna@, name@),
{
    (dna, name).encode()
}

/// Relies on the SCALE `Decode` impl of `[u8; N]` read from a byte slice: it
/// takes the first `N` bytes and fails when there are fewer.
#[verifier::external_body]
pub(crate) fn decode_array<const N: usize>(input: &[u8]) -> (r: Option<[u8; N]>)
    ensures
        r is Some <==> input@.len() >= N,
        r is Some ==> r->0@ == input@.subrange(0, N as int),
{
    let mut cursor: &[u8] = input;
    <[u8; N]>::decode(&mut cursor).ok()
}

/// Relies on sp_crypto_hashing::blake2_128: a 16-byte Blake2b digest that
/// depends on the input bytes alone.
#[verifier::external_body]
pub(crate) fn blake2_128(data: &[u8]) -> (r: [u8; 16])
    ensures
        r@ == blake2_128_of(data@),
{
    sp_crypto_hashing::blake2_128(data)
}

} // verus!
