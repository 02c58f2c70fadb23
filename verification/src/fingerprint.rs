//! The fingerprint of a signer's RSA public key: the SHA-256 digest of its
//! modulus followed by its public exponent.

use vstd::prelude::*;

verus! {

/// The SHA-256 digest of `data` (FIPS 180-4), as OpenSSL computes it.
pub uninterp spec fn sha256_digest(data: Seq<u8>) -> Seq<u8>;

/// Calls `openssl::sha::sha256`. Not verified; the contract claims only that
/// the 32 bytes it returns are a function of `data`, which `sha256_digest`
/// names.
#[verifier::external_body]
fn sha256(data: &[u8]) -> (hash: [u8; 32])
    ensures
        hash@ == sha256_digest(data@),
{
    openssl::sha::sha256(data)
}

/// The bytes that are hashed for the fingerprint of the key with modulus `n`
/// and public exponent `e`, each given as big-endian bytes: `n`, then `e`.
pub fn public_key_material(n: &[u8], e: &[u8]) -> (material: Vec<u8>)
    ensures
        material@ == n@ + e@,
{
    let mut material: Vec<u8> = Vec::with_capacity(n.len());
    let mut i: usize = 0;
    while i < n.len()
        invariant
            i <= n@.len(),
            material@ == n@.take(i as int),
        decreases n@.len() - i,
    {
        material.push(n[i]);
        assert(n@.take(i as int).push(n@[i as int]) =~= n@.take(i + 1));
        i = i + 1;
    }
    assert(n@.take(n@.len() as int) =~= n@);
    let mut j: usize = 0;
    while j < e.len()
        invariant
            j <= e@.len(),
            material@ == n@ + e@.take(j as int),
        decreases e@.len() - j,
    {
        material.push(e[j]);
        assert((n@ + e@.take(j as int)).push(e@[j as int]) =~= n@ + e@.take(j + 1));
        j = j + 1;
    }
    assert(e@.take(e@.len() as int) =~= e@);
    material
}

/// The fingerprint of the key with modulus `n` and public exponent `e`, each
/// given as big-endian bytes: the SHA-256 digest of `n` followed by `e`.
pub fn signer_public_key_hash(n: &[u8], e: &[u8]) -> (hash: Vec<u8>)
    ensures
        hash@ == sha256_digest(n@ + e@),
        hash@.len() == 32,
{
    let material = public_key_material(n, e);
    let digest: [u8; 32] = sha256(material.as_slice());
    let mut hash: Vec<u8> = Vec::with_capacity(32);
    let mut i: usize = 0;
    while i < 32
        invariant
            i <= 32,
            hash@ == digest@.take(i as int),
        decreases 32 - i,
    {
        hash.push(digest[i]);
        assert(digest@.take(i as int).push(digest@[i as int]) =~= digest@.take(i + 1));
        i = i + 1;
    }
    assert(digest@.take(32) =~= digest@);
    hash
}

} // verus!
