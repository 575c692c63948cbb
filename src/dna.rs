//! Genetic payloads: random derivation and bitwise crossover.
use vstd::prelude::*;
use crate::scale::{blake2_128, blake2_128_of, encode_seed_material, seed_material};
use crate::AccountId;

verus! {

/// Number of bytes in a genetic payload.
pub const DNA_LEN: usize = 16;

/// One byte of a crossover: the bits of `a` where `selector` is set, the bits
/// of `b` elsewhere.
pub open spec fn cross_byte(a: u8, b: u8, selector: u8) -> u8 {
    (a & selector) | (b & !selector)
}

/// The child payload of a crossover, byte by byte.
pub open spec fn cross_spec(a: Seq<u8>, b: Seq<u8>, selector: Seq<u8>) -> Seq<u8> {
    Seq::new(a.len(), |i: int| cross_byte(a[i], b[i], selector[i]))
}

/// Crosses two parent payloads under a selector mask: each bit of the child
/// comes from `a` where the selector bit is 1 and from `b` where it is 0.
pub fn cross(a: &[u8; 16], b: &[u8; 16], selector: &[u8; 16]) -> (r: [u8; 16])
    ensures
        r@ == cross_spec(a@, b@, selector@),
{
    let mut data: [u8; 16] = [0u8; 16];
    let mut i: usize = 0;
    while i < DNA_LEN
        invariant
            i <= DNA_LEN,
            forall|j: int| 0 <= j < i ==> data@[j] == cross_byte(a@[j], b@[j], selector@[j]),
        decreases DNA_LEN - i,
    {
        data[i] = (a[i] & selector[i]) | (b[i] & !selector[i]);
        i = i + 1;
    }
    assert(data@ =~= cross_spec(a@, b@, selector@));
    data
}

/// The payload derived from a randomness seed, an account and the position
/// of the call in its batch: the Blake2-128 digest of their encoding.
pub open spec fn random_value_spec(seed: Seq<u8>, who: AccountId, index: Option<u32>) -> Seq<u8> {
    blake2_128_of(seed_material(seed, who, index))
}

/// Derives a 16-byte payload from a randomness seed, the requesting account
/// and the position of the call in its batch, so that two calls in one batch
/// get different payloads.
pub fn random_value(seed: &[u8; 32], who: AccountId, index: Option<u32>) -> (r: [u8; 16])
    ensures
        r@ == random_value_spec(seed@, who, index),
{
    let material = encode_seed_material(seed, who, index);
    blake2_128(material.as_slice())
}

/// Crossing a byte with itself gives the byte back, whatever the selector.
pub proof fn lemma_cross_byte_same(a: u8, selector: u8)
    ensures
        cross_byte(a, a, selector) == a,
{
    assert((a & selector) | (a & !selector) == a) by (bit_vector);
}

/// Crossing a payload with itself gives the payload back, whatever the
/// selector.
pub proof fn lemma_cross_self(p: Seq<u8>, selector: Seq<u8>)
    ensures
        cross_spec(p, p, selector) == p,
{
    assert forall|i: int| 0 <= i < p.len() implies #[trigger] cross_spec(p, p, selector)[i]
        == p[i] by {
        lemma_cross_byte_same(p[i], selector[i]);
    }
    assert(cross_spec(p, p, selector) =~= p);
}

} // verus!
