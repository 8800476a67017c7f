//! SHA-256 hashing through the Soroban host, and the commit-reveal preimages
//! built on it.
use vstd::prelude::*;
use soroban_sdk::Env;
use crate::bytes::append_bytes;

verus! {

#[verifier::external_type_specification]
#[verifier::external_body]
pub struct ExEnv(soroban_sdk::Env);

/// The SHA-256 digest of `data`.
pub uninterp spec fn sha256_digest(data: Seq<u8>) -> Seq<u8>;

/// Hashes `data` with `soroban_sdk::crypto::Crypto::sha256`.
///
/// Claimed: the digest depends on `data` alone and is 32 bytes long; the
/// host meters each call against the environment's budget and traps once it
/// is exhausted, which depends on earlier use of `env` and is left unsaid.
#[verifier::external_body]
pub(crate) fn sha256(env: &Env, data: &[u8]) -> (digest: [u8; 32])
    ensures
        digest@ == sha256_digest(data@),
{
    env.crypto().sha256(&soroban_sdk::Bytes::from_slice(env, data)).to_array()
}

/// Build the SHA-256 commitment for a commit-reveal scheme:
/// `SHA-256(secret || salt)`.
pub fn commit_hash(env: &Env, secret: &[u8; 32], salt: &[u8; 32]) -> (h: [u8; 32])
    ensures
        h@ == sha256_digest(secret@ + salt@),
{
    let mut preimage: Vec<u8> = Vec::new();
    append_bytes(&mut preimage, secret);
    append_bytes(&mut preimage, salt);
    assert(preimage@ =~= secret@ + salt@);
    sha256(env, &preimage)
}

/// The entropy input for winner selection: `SHA-256(secret || salt || extra)`.
pub fn entropy_hash(env: &Env, secret: &[u8; 32], salt: &[u8; 32], extra: &[u8]) -> (h: [u8; 32])
    ensures
        h@ == sha256_digest(secret@ + salt@ + extra@),
{
    let mut input: Vec<u8> = Vec::new();
    append_bytes(&mut input, secret);
    append_bytes(&mut input, salt);
    append_bytes(&mut input, extra);
    assert(input@ =~= secret@ + salt@ + extra@);
    sha256(env, &input)
}

} // verus!
