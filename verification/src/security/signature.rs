//! Signature envelopes and the trusted key store.
//!
//! A signature sidecar carries a fixed envelope: the magic tag `LSIG`, one
//! algorithm byte (1 for RSA PKCS#1 v1.5 with SHA-256, 2 for ECDSA P-256
//! with SHA-256), an eight-byte key-id hint, a two-byte little-endian
//! signature length, and the signature bytes. A sidecar is accepted when
//! the envelope is well-formed, its hint names a stored key, and the
//! signature bytes verify over the SHA-256 digest of the data under that
//! key's material.

use vstd::prelude::*;
use super::SecurityError;
use super::crypto::ecdsa_p256_sha256_valid;
use super::crypto::rsa_pkcs1_sha256_valid;
use super::crypto::sha256_of;
use crate::util::le16_at;
use crate::util::le64_at;
use crate::util::read_le16;
use crate::util::read_le64;

verus! {

/// Algorithm tag for RSA PKCS#1 v1.5 with SHA-256.
pub const SIG_ALG_RSA_PKCS1_SHA256: u8 = 1;

/// Algorithm tag for ECDSA P-256 with SHA-256.
pub const SIG_ALG_ECDSA_P256_SHA256: u8 = 2;

/// A parsed signature envelope.
#[derive(Clone, Copy, PartialEq, Eq, Structural, Debug)]
pub struct SignatureEnvelope {
    pub algorithm: u8,
    pub key_id: u64,
    pub signature_len: u16,
}

/// The envelope-parsing rule: magic, a known algorithm byte, and a declared
/// length that matches the bytes that follow.
pub open spec fn spec_parse_envelope(s: Seq<u8>) -> Option<SignatureEnvelope> {
    if s.len() < 15 {
        None
    } else if !(s[0] == 0x4C && s[1] == 0x53 && s[2] == 0x49 && s[3] == 0x47) {
        None
    } else if s[4] != SIG_ALG_RSA_PKCS1_SHA256 && s[4] != SIG_ALG_ECDSA_P256_SHA256 {
        None
    } else if le16_at(s, 13) != s.len() - 15 {
        None
    } else if le16_at(s, 13) == 0 {
        None
    } else {
        Some(
            SignatureEnvelope { algorithm: s[4], key_id: le64_at(s, 5), signature_len: le16_at(s, 13) },
        )
    }
}

/// One trusted public key: its id, the algorithm it is for, and its
/// encoded material (PKCS#1 DER for RSA, SEC1 for ECDSA P-256).
pub struct TrustedKey {
    pub key_id: u64,
    pub algorithm: u8,
    pub material: Vec<u8>,
}

/// The mathematical shape of a trusted key.
#[verifier::ext_equal]
pub struct TrustedKeyRep {
    pub key_id: u64,
    pub algorithm: u8,
    pub material: Seq<u8>,
}

impl View for TrustedKey {
    type V = TrustedKeyRep;

    open spec fn view(&self) -> TrustedKeyRep {
        TrustedKeyRep { key_id: self.key_id, algorithm: self.algorithm, material: self.material@ }
    }
}

/// A key's id: the first eight bytes of the SHA-256 fingerprint of its
/// material, read little-endian.
pub open spec fn spec_key_id(material: Seq<u8>) -> u64 {
    le64_at(sha256_of(material), 0)
}

/// The first stored key with the given id, by position.
pub open spec fn spec_find_key_from(keys: Seq<TrustedKeyRep>, id: u64, i: int) -> Option<int>
    decreases keys.len() - i,
{
    if !(0 <= i < keys.len()) {
        None
    } else if keys[i].key_id == id {
        Some(i)
    } else {
        spec_find_key_from(keys, id, i + 1)
    }
}

/// The stored key a key-id hint selects.
pub open spec fn spec_find_key(keys: Seq<TrustedKeyRep>, id: u64) -> Option<TrustedKeyRep> {
    match spec_find_key_from(keys, id, 0) {
        Some(i) => Some(keys[i]),
        None => None,
    }
}

/// A store of trusted public keys, looked up by the first eight bytes of
/// each key's SHA-256 fingerprint.
pub struct KeyStore {
    pub keys: Vec<TrustedKey>,
}

impl KeyStore {
    /// The trusted keys, in insertion order.
    pub open spec fn spec_keys(&self) -> Seq<TrustedKeyRep> {
        Seq::new(self.keys@.len(), |i: int| self.keys@[i]@)
    }

    /// Creates an empty store.
    pub fn new() -> (r: KeyStore)
        ensures
            r.spec_keys() == Seq::<TrustedKeyRep>::empty(),
    {
        let r = KeyStore { keys: Vec::new() };
        proof {
            assert(r.spec_keys() =~= Seq::<TrustedKeyRep>::empty());
        }
        r
    }

    /// Trusts one more key, returning the id under which it is stored.
    pub fn add_key(&mut self, algorithm: u8, material: Vec<u8>) -> (r: u64)
        ensures
            r == spec_key_id(material@),
            final(self).spec_keys() == old(self).spec_keys().push(
                TrustedKeyRep { key_id: spec_key_id(material@), algorithm, material: material@ },
            ),
    {
        let digest = super::crypto::sha256(material.as_slice());
        let key_id = read_le64(digest.as_slice(), 0);
        let ghost before = self.spec_keys();
        self.keys.push(TrustedKey { key_id, algorithm, material });
        proof {
            assert(self.spec_keys() =~= before.push(self.keys@.last()@));
        }
        key_id
    }

    /// Looks up the first trusted key with the given id, by position.
    pub fn find_key(&self, key_id: u64) -> (r: Option<usize>)
        ensures
            match r {
                Some(i) => i < self.spec_keys().len() && spec_find_key(self.spec_keys(), key_id)
                    == Some(self.spec_keys()[i as int]),
                None => spec_find_key(self.spec_keys(), key_id) is None,
            },
    {
        let n = self.keys.len();
        let mut i: usize = 0;
        while i < n
            invariant
                i <= n,
                n == self.spec_keys().len(),
                spec_find_key_from(self.spec_keys(), key_id, 0) == spec_find_key_from(
                    self.spec_keys(),
                    key_id,
                    i as int,
                ),
            decreases n - i,
        {
            if self.keys[i].key_id == key_id {
                proof {
                    assert(self.spec_keys()[i as int].key_id == key_id);
                }
                return Some(i);
            }
            proof {
                assert(self.spec_keys()[i as int].key_id != key_id);
            }
            i = i + 1;
        }
        None
    }
}

/// Whether a signature under `alg` over `digest` is valid for `key`.
pub open spec fn spec_sig_valid(alg: u8, key: Seq<u8>, digest: Seq<u8>, sig: Seq<u8>) -> bool {
    if alg == SIG_ALG_RSA_PKCS1_SHA256 {
        rsa_pkcs1_sha256_valid(key, digest, sig)
    } else {
        ecdsa_p256_sha256_valid(key, digest, sig)
    }
}

/// Whether a signature sidecar is accepted for the given data under the
/// given trusted keys: the envelope is well-formed, its hint names a stored
/// key, and the signature bytes verify over the SHA-256 digest of the data.
pub open spec fn spec_signature_accepted(
    data: Seq<u8>,
    sig: Seq<u8>,
    keys: Seq<TrustedKeyRep>,
) -> bool {
    match spec_parse_envelope(sig) {
        Some(env) => match spec_find_key(keys, env.key_id) {
            Some(k) => spec_sig_valid(
                env.algorithm,
                k.material,
                sha256_of(data),
                sig.subrange(15, sig.len() as int),
            ),
            None => false,
        },
        None => false,
    }
}

/// Parses a signature envelope.
pub fn parse_envelope(s: &[u8]) -> (r: Option<SignatureEnvelope>)
    ensures
        r == spec_parse_envelope(s@),
{
    let n = s.len();
    if n < 15 {
        return None;
    }
    if !(s[0] == 0x4C && s[1] == 0x53 && s[2] == 0x49 && s[3] == 0x47) {
        return None;
    }
    if s[4] != SIG_ALG_RSA_PKCS1_SHA256 && s[4] != SIG_ALG_ECDSA_P256_SHA256 {
        return None;
    }
    let declared = read_le16(s, 13);
    if declared as usize != n - 15 {
        return None;
    }
    if declared == 0 {
        return None;
    }
    Some(SignatureEnvelope { algorithm: s[4], key_id: read_le64(s, 5), signature_len: declared })
}

/// Verifies a signature sidecar against data and the trusted key store.
/// `Ok(true)` exactly when the sidecar is accepted; a well-formed envelope
/// under a stored key whose signature does not verify answers `Ok(false)`;
/// a malformed envelope and an untrusted key-id hint each name their own
/// failure.
pub fn verify_signature(data: &[u8], signature_data: &[u8], keystore: &KeyStore) -> (r: Result<
    bool,
    SecurityError,
>)
    ensures
        match r {
            Ok(b) => {
                &&& spec_parse_envelope(signature_data@) matches Some(env) && spec_find_key(
                    keystore.spec_keys(),
                    env.key_id,
                ) is Some
                &&& b == spec_signature_accepted(data@, signature_data@, keystore.spec_keys())
            },
            Err(e) => match spec_parse_envelope(signature_data@) {
                None => e@ == super::SecurityErrorRep::SignatureVerificationFailed(
                    "malformed signature envelope"@,
                ),
                Some(env) => spec_find_key(keystore.spec_keys(), env.key_id) is None && e@
                    == super::SecurityErrorRep::KeyNotFound("untrusted key id"@),
            },
        },
{
    let env = match parse_envelope(signature_data) {
        Some(env) => env,
        None => {
            return Err(
                SecurityError::SignatureVerificationFailed(
                    ("malformed signature envelope").to_owned(),
                ),
            );
        },
    };
    let ki = match keystore.find_key(env.key_id) {
        Some(i) => i,
        None => {
            return Err(SecurityError::KeyNotFound(("untrusted key id").to_owned()));
        },
    };
    let digest = super::crypto::sha256(data);
    let sig_bytes = vstd::slice::slice_subrange(signature_data, 15, signature_data.len());
    let valid = if env.algorithm == SIG_ALG_RSA_PKCS1_SHA256 {
        super::crypto::rsa_verify(
            keystore.keys[ki].material.as_slice(),
            digest.as_slice(),
            sig_bytes,
        )
    } else {
        super::crypto::ecdsa_verify(
            keystore.keys[ki].material.as_slice(),
            digest.as_slice(),
            sig_bytes,
        )
    };
    Ok(valid)
}

} // verus!
