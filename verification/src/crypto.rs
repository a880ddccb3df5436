//! Hashing through the Soroban host.
use vstd::prelude::*;
use soroban_sdk::Env;
use crate::common::{Bytes32, extend_bytes32};

verus! {

#[verifier::external_type_specification]
#[verifier::external_body]
pub struct ExEnv(soroban_sdk::Env);

/// SHA-256 of a byte string, as the host computes it.
pub uninterp spec fn sha256_spec(data: Seq<u8>) -> Seq<u8>;

/// Calls `soroban_sdk::crypto::Crypto::sha256` on `data`. Trusted: the result
/// is the 32-byte digest named `sha256_spec(data)`; it depends on the bytes only.
#[verifier::external_body]
pub(crate) fn host_sha256(env: &Env, data: &[u8]) -> (r: [u8; 32])
    ensures
        r@ == sha256_spec(data@),
{
    env.crypto().sha256(&soroban_sdk::Bytes::from_slice(env, data)).to_array()
}

/// The commitment of a secret under a blinding factor: `sha256(secret || blinding)`.
pub open spec fn commitment_of(secret: Seq<u8>, blinding: Seq<u8>) -> Seq<u8> {
    sha256_spec(secret + blinding)
}

/// `sha256(a || b)` of two 32-byte values.
pub fn hash_pair(env: &Env, a: &Bytes32, b: &Bytes32) -> (r: Bytes32)
    ensures
        r@ == sha256_spec(a@ + b@),
{
    let mut buf: Vec<u8> = Vec::new();
    extend_bytes32(&mut buf, a);
    extend_bytes32(&mut buf, b);
    host_sha256(env, buf.as_slice())
}

/// The Pedersen-style commitment hash `sha256(secret || blinding_factor)`
/// under which an IP is registered.
pub fn create_commitment_hash(env: &Env, secret: &Bytes32, blinding_factor: &Bytes32) -> (r: Bytes32)
    ensures
        r@ == commitment_of(secret@, blinding_factor@),
{
    hash_pair(env, secret, blinding_factor)
}

/// The concatenation of a list of byte strings.
pub open spec fn concat_all(hs: Seq<Seq<u8>>) -> Seq<u8>
    decreases hs.len(),
{
    if hs.len() == 0 {
        Seq::empty()
    } else {
        concat_all(hs.drop_last()) + hs.last()
    }
}

/// The bytes of each 32-byte value of a list.
pub open spec fn bytes_of_all(hs: Seq<Bytes32>) -> Seq<Seq<u8>> {
    hs.map_values(|h: Bytes32| h@)
}

/// `sha256(h_0 || h_1 || ...)` of a list of 32-byte values.
pub fn hash_concat(env: &Env, hs: &Vec<Bytes32>) -> (r: Bytes32)
    ensures
        r@ == sha256_spec(concat_all(bytes_of_all(hs@))),
{
    let mut buf: Vec<u8> = Vec::new();
    let mut i: usize = 0;
    while i < hs.len()
        invariant
            0 <= i <= hs@.len(),
            buf@ == concat_all(bytes_of_all(hs@.subrange(0, i as int))),
        decreases hs@.len() - i,
    {
        extend_bytes32(&mut buf, &hs[i]);
        assert(bytes_of_all(hs@.subrange(0, (i + 1) as int)).drop_last() =~= bytes_of_all(
            hs@.subrange(0, i as int),
        ));
        i = i + 1;
    }
    assert(hs@.subrange(0, hs@.len() as int) =~= hs@);
    host_sha256(env, buf.as_slice())
}

} // verus!
