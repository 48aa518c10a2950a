//! Security manager: boot-entry verification, the trusted key store, and
//! the TPM measurement log.

use vstd::prelude::*;

pub mod crypto;
pub mod signature;
pub mod tpm;

use crate::config::schema_types::BootEntry;
use crate::fs::interface::FsErrorRep;
use crate::fs::manager::FilesystemManager;
use crate::fs::manager::spec_instance_read;
use crate::fs::manager::spec_path_rejected;
use crate::fs::manager::spec_find_volume;
use crate::hal::HalServices;
use signature::KeyStore;
use signature::TrustedKeyRep;
use signature::spec_find_key;
use signature::spec_sig_valid;
use tpm::TpmLog;
use vstd::string::StringSliceAdditionalSpecFns;
use vstd::utf8::encode_utf8;

verus! {

/// Errors of security operations.
#[derive(Debug)]
pub enum SecurityError {
    TpmError(String),
    SignatureVerificationFailed(String),
    HashMismatch(String),
    KeyNotFound(String),
    MeasurementFailed(String),
    Filesystem(crate::fs::interface::FilesystemError),
    ConfigError(String),
    Other(String),
}

/// The mathematical shape of a security error.
#[verifier::ext_equal]
pub enum SecurityErrorRep {
    TpmError(Seq<char>),
    SignatureVerificationFailed(Seq<char>),
    HashMismatch(Seq<char>),
    KeyNotFound(Seq<char>),
    MeasurementFailed(Seq<char>),
    Filesystem(FsErrorRep),
    ConfigError(Seq<char>),
    Other(Seq<char>),
}

impl View for SecurityError {
    type V = SecurityErrorRep;

    open spec fn view(&self) -> SecurityErrorRep {
        match self {
            SecurityError::TpmError(s) => SecurityErrorRep::TpmError(s@),
            SecurityError::SignatureVerificationFailed(s) => SecurityErrorRep::SignatureVerificationFailed(
                s@,
            ),
            SecurityError::HashMismatch(s) => SecurityErrorRep::HashMismatch(s@),
            SecurityError::KeyNotFound(s) => SecurityErrorRep::KeyNotFound(s@),
            SecurityError::MeasurementFailed(s) => SecurityErrorRep::MeasurementFailed(s@),
            SecurityError::Filesystem(e) => SecurityErrorRep::Filesystem(e@),
            SecurityError::ConfigError(s) => SecurityErrorRep::ConfigError(s@),
            SecurityError::Other(s) => SecurityErrorRep::Other(s@),
        }
    }
}

/// What the mount manager answers for a read of `path` on volume `v`.
pub open spec fn spec_vol_read(m: FilesystemManager, v: int, path: Seq<char>) -> Result<
    Seq<u8>,
    FsErrorRep,
> {
    let pb = encode_utf8(path);
    if spec_path_rejected(pb) {
        Err(FsErrorRep::InvalidInput)
    } else {
        spec_instance_read(m.spec_mounted()[v].instance, pb)
    }
}

/// The first volume, in mount order, on which `path` reads successfully.
pub open spec fn spec_first_vol_with(m: FilesystemManager, path: Seq<char>, v: int) -> Option<int>
    decreases m.spec_mounted().len() - v,
{
    if !(0 <= v < m.spec_mounted().len()) {
        None
    } else if spec_vol_read(m, v, path) is Ok {
        Some(v)
    } else {
        spec_first_vol_with(m, path, v + 1)
    }
}

/// The per-volume verification rule: the signature sidecar `<kernel>.sig`
/// must be readable on the same volume as the kernel, its envelope must be
/// well-formed, its key-id hint must name a stored key, and the signature
/// bytes must verify over the SHA-256 digest of the kernel under that key.
pub open spec fn spec_verify_at(
    m: FilesystemManager,
    keys: Seq<TrustedKeyRep>,
    kernel: Seq<char>,
    v: int,
) -> Result<(), SecurityErrorRep> {
    match spec_vol_read(m, v, kernel + ".sig"@) {
        Err(_) => Err(SecurityErrorRep::SignatureVerificationFailed(kernel)),
        Ok(sig) => match spec_vol_read(m, v, kernel) {
            Err(_) => Err(SecurityErrorRep::ConfigError("kernel file not found"@)),
            Ok(data) => match signature::spec_parse_envelope(sig) {
                None => Err(SecurityErrorRep::SignatureVerificationFailed(kernel)),
                Some(env) => match spec_find_key(keys, env.key_id) {
                    None => Err(SecurityErrorRep::KeyNotFound(kernel)),
                    Some(k) => if spec_sig_valid(
                        env.algorithm,
                        k.material,
                        crypto::sha256_of(data),
                        sig.subrange(15, sig.len() as int),
                    ) {
                        Ok(())
                    } else {
                        Err(SecurityErrorRep::SignatureVerificationFailed(kernel))
                    },
                },
            },
        },
    }
}

/// The verification rule for a boot entry, volume by volume.
pub open spec fn spec_verify_entry(
    m: FilesystemManager,
    keys: Seq<TrustedKeyRep>,
    secure: bool,
    kernel: Seq<char>,
) -> Result<(), SecurityErrorRep> {
    if !secure {
        Ok(())
    } else {
        match spec_first_vol_with(m, kernel, 0) {
            None => Err(SecurityErrorRep::ConfigError("kernel file not found"@)),
            Some(v) => spec_verify_at(m, keys, kernel, v),
        }
    }
}

/// Manages signature verification and TPM measurement.
pub struct SecurityManager {
    pub tpm_available: bool,
    pub key_store: KeyStore,
    pub tpm_log: TpmLog,
}

impl SecurityManager {
    pub open spec fn wf(&self) -> bool {
        self.tpm_log.wf()
    }

    /// Initializes the manager: probes for a TPM and starts with an empty
    /// key store and measurement log.
    pub fn new(hal: &HalServices) -> (r: SecurityManager)
        ensures
            r.wf(),
            r.tpm_available == hal.spec_tpm_present(),
            r.key_store.spec_keys() == Seq::<TrustedKeyRep>::empty(),
            r.tpm_log.events@.len() == 0,
    {
        let tpm_available = tpm::is_tpm2_available(hal);
        SecurityManager { tpm_available, key_store: KeyStore::new(), tpm_log: TpmLog::new() }
    }

    /// Whether a TPM was found at initialization.
    pub fn is_tpm_available(&self) -> (r: bool)
        ensures
            r == self.tpm_available,
    {
        self.tpm_available
    }

    /// Trusts one more public key, returning the id under which it is
    /// stored: the first eight bytes of its SHA-256 fingerprint.
    pub fn add_trusted_key(&mut self, algorithm: u8, material: Vec<u8>) -> (r: u64)
        requires
            old(self).wf(),
        ensures
            final(self).wf(),
            r == signature::spec_key_id(material@),
            final(self).key_store.spec_keys() == old(self).key_store.spec_keys().push(
                TrustedKeyRep {
                    key_id: signature::spec_key_id(material@),
                    algorithm,
                    material: material@,
                },
            ),
            final(self).tpm_available == old(self).tpm_available,
            final(self).tpm_log == old(self).tpm_log,
    {
        self.key_store.add_key(algorithm, material)
    }

    /// Verifies a boot entry against the trusted keys, per the verification
    /// rule.
    #[verifier::rlimit(60)]
    pub fn verify_boot_entry(
        &self,
        _hal: &HalServices,
        fs_manager: &FilesystemManager,
        entry: &BootEntry,
    ) -> (r: Result<(), SecurityError>)
        requires
            fs_manager.wf(),
        ensures
            match r {
                Ok(_) => spec_verify_entry(
                    *fs_manager,
                    self.key_store.spec_keys(),
                    entry.secure,
                    entry.kernel@,
                ) is Ok,
                Err(e) => spec_verify_entry(
                    *fs_manager,
                    self.key_store.spec_keys(),
                    entry.secure,
                    entry.kernel@,
                ) == Err::<(), SecurityErrorRep>(e@),
            },
    {
        if !entry.secure {
            return Ok(());
        }
        let n = fs_manager.mounted_volumes.len();
        let mut v: usize = 0;
        while v < n
            invariant
                v <= n,
                n == fs_manager.spec_mounted().len(),
                fs_manager.wf(),
                entry.secure,
                spec_first_vol_with(*fs_manager, entry.kernel@, 0) == spec_first_vol_with(
                    *fs_manager,
                    entry.kernel@,
                    v as int,
                ),
            decreases n - v,
        {
            let volume_id = &fs_manager.mounted_volumes[v].lbl_volume_info.id;
            proof {
                fs_manager.lemma_find_of_mounted(v as int);
            }
            match fs_manager.read_file(volume_id.as_str(), entry.kernel.as_str()) {
                Ok(data) => {
                    proof {
                        assert(spec_vol_read(*fs_manager, v as int, entry.kernel@) == Ok::<
                            Seq<u8>,
                            FsErrorRep,
                        >(data@));
                        assert(spec_first_vol_with(*fs_manager, entry.kernel@, v as int) == Some(
                            v as int,
                        ));
                    }
                    return self.verify_on_volume(fs_manager, volume_id.as_str(), v, entry);
                },
                Err(_) => {
                    proof {
                        assert(spec_vol_read(*fs_manager, v as int, entry.kernel@) is Err);
                    }
                },
            }
            v = v + 1;
        }
        Err(SecurityError::ConfigError(("kernel file not found").to_owned()))
    }

    /// Checks the signature sidecar beside the kernel on one volume.
    fn verify_on_volume(
        &self,
        fs_manager: &FilesystemManager,
        volume_id: &str,
        v: usize,
        entry: &BootEntry,
    ) -> (r: Result<(), SecurityError>)
        requires
            fs_manager.wf(),
            0 <= v < fs_manager.spec_mounted().len(),
            spec_find_volume(fs_manager.spec_mounted(), volume_id@) == Some(v as int),
        ensures
            match r {
                Ok(_) => spec_verify_at(
                    *fs_manager,
                    self.key_store.spec_keys(),
                    entry.kernel@,
                    v as int,
                ) is Ok,
                Err(e) => spec_verify_at(
                    *fs_manager,
                    self.key_store.spec_keys(),
                    entry.kernel@,
                    v as int,
                ) == Err::<(), SecurityErrorRep>(e@),
            },
    {
        let sig_path = entry.kernel.clone().concat(".sig");
        let sig = match fs_manager.read_file(volume_id, sig_path.as_str()) {
            Ok(sig) => sig,
            Err(_) => {
                return Err(SecurityError::SignatureVerificationFailed(entry.kernel.clone()));
            },
        };
        let data = match fs_manager.read_file(volume_id, entry.kernel.as_str()) {
            Ok(data) => data,
            Err(_) => {
                return Err(SecurityError::ConfigError(("kernel file not found").to_owned()));
            },
        };
        let env = match signature::parse_envelope(sig.as_slice()) {
            None => {
                return Err(SecurityError::SignatureVerificationFailed(entry.kernel.clone()));
            },
            Some(env) => env,
        };
        let ki = match self.key_store.find_key(env.key_id) {
            None => {
                return Err(SecurityError::KeyNotFound(entry.kernel.clone()));
            },
            Some(i) => i,
        };
        let digest = crypto::sha256(data.as_slice());
        let sig_bytes = vstd::slice::slice_subrange(sig.as_slice(), 15, sig.len());
        let valid = if env.algorithm == signature::SIG_ALG_RSA_PKCS1_SHA256 {
            crypto::rsa_verify(
                self.key_store.keys[ki].material.as_slice(),
                digest.as_slice(),
                sig_bytes,
            )
        } else {
            crypto::ecdsa_verify(
                self.key_store.keys[ki].material.as_slice(),
                digest.as_slice(),
                sig_bytes,
            )
        };
        if valid {
            Ok(())
        } else {
            Err(SecurityError::SignatureVerificationFailed(entry.kernel.clone()))
        }
    }
}

} // verus!
