//! Cryptographic primitives behind the signature check.
//!
//! The digest and the two signature algorithms are computed by outside
//! crates; each result is named by an uninterpreted spec function of the
//! input bytes alone, and the rest of the security manager is verified
//! against those names.

use vstd::prelude::*;

verus! {

/// The SHA-256 digest of a byte string, as the sha2 crate computes it.
pub uninterp spec fn sha256_of(data: Seq<u8>) -> Seq<u8>;

/// Whether `sig` is a valid RSA PKCS#1 v1.5 signature over a SHA-256
/// `digest` under the public key that `key` encodes (PKCS#1 DER), as the
/// rsa crate decides it. Bytes that encode no key validate nothing.
pub uninterp spec fn rsa_pkcs1_sha256_valid(key: Seq<u8>, digest: Seq<u8>, sig: Seq<u8>) -> bool;

/// Whether `sig` is a valid ECDSA P-256 signature (64 bytes, fixed
/// encoding) over a SHA-256 `digest` under the public key that `key`
/// encodes (SEC1), as the p256 crate decides it. Bytes that encode no key
/// or no signature validate nothing.
pub uninterp spec fn ecdsa_p256_sha256_valid(key: Seq<u8>, digest: Seq<u8>, sig: Seq<u8>) -> bool;

/// Relies on sha2::Sha256::digest: a 32-byte digest that depends on the
/// input bytes alone.
#[verifier::external_body]
pub fn sha256(data: &[u8]) -> (r: Vec<u8>)
    ensures
        r@ == sha256_of(data@),
        r@.len() == 32,
{
    <sha2::Sha256 as sha2::Digest>::digest(data).to_vec()
}

/// Relies on rsa::RsaPublicKey::from_pkcs1_der and RsaPublicKey::verify
/// with the Pkcs1v15Sign scheme over SHA-256: both are deterministic in the
/// key, digest and signature bytes; a key that does not decode, or a
/// signature the scheme rejects, answers false.
#[verifier::external_body]
pub fn rsa_verify(key: &[u8], digest: &[u8], sig: &[u8]) -> (r: bool)
    ensures
        r == rsa_pkcs1_sha256_valid(key@, digest@, sig@),
{
    match <rsa::RsaPublicKey as rsa::pkcs1::DecodeRsaPublicKey>::from_pkcs1_der(key) {
        Ok(k) => k.verify(rsa::Pkcs1v15Sign::new::<sha2::Sha256>(), digest, sig).is_ok(),
        Err(_) => false,
    }
}

/// Relies on p256::ecdsa::VerifyingKey::from_sec1_bytes,
/// Signature::from_slice and PrehashVerifier::verify_prehash: all are
/// deterministic in the key, digest and signature bytes; a key or a
/// signature that does not decode, or a signature the curve rejects,
/// answers false.
#[verifier::external_body]
pub fn ecdsa_verify(key: &[u8], digest: &[u8], sig: &[u8]) -> (r: bool)
    ensures
        r == ecdsa_p256_sha256_valid(key@, digest@, sig@),
{
    let vk = match p256::ecdsa::VerifyingKey::from_sec1_bytes(key) {
        Ok(k) => k,
        Err(_) => return false,
    };
    let s = match p256::ecdsa::Signature::from_slice(sig) {
        Ok(s) => s,
        Err(_) => return false,
    };
    p256::ecdsa::signature::hazmat::PrehashVerifier::verify_prehash(&vk, digest, &s).is_ok()
}

} // verus!
