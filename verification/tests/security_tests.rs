use lionbootloader_core::config::schema_types::ArchitectureType;
use lionbootloader_core::config::schema_types::BootEntry;
use lionbootloader_core::config::schema_types::BootEntryType;
use lionbootloader_core::fs::initialize_manager;
use lionbootloader_core::fs::mount_all_volumes;
use lionbootloader_core::hal::Device;
use lionbootloader_core::hal::DeviceType;
use lionbootloader_core::hal::EfiMemoryDescriptorRaw;
use lionbootloader_core::hal::HalServices;
use lionbootloader_core::hal::LBL_BOOT_INFO_MAGIC;
use lionbootloader_core::hal::LBL_BOOT_INFO_VERSION;
use lionbootloader_core::hal::LblBootInfoRaw;
use lionbootloader_core::hal::initialize;
use lionbootloader_core::security::SecurityError;
use lionbootloader_core::security::SecurityManager;
use lionbootloader_core::security::signature::KeyStore;
use lionbootloader_core::security::signature::parse_envelope;
use lionbootloader_core::security::signature::verify_signature;
use lionbootloader_core::security::tpm::TpmLog;
use lionbootloader_core::security::tpm::get_tcg_event_log;
use lionbootloader_core::security::tpm::initialize_tpm_interaction;
use lionbootloader_core::security::tpm::is_tpm2_available;
use lionbootloader_core::security::tpm::measure_data_into_tpm_pcr;

fn hal(tpm: bool) -> HalServices {
    let raw = LblBootInfoRaw {
        magic: LBL_BOOT_INFO_MAGIC,
        version: LBL_BOOT_INFO_VERSION,
        header_size: 128,
        total_size: 128,
        core_load_addr: 0x10_0000,
        core_size: 0x8_0000,
        core_entry_offset: 0,
        memory_map_ptr: 0x2000,
        memory_map_size: 48,
        memory_map_key: 7,
        memory_descriptor_size: 48,
        memory_descriptor_version: 1,
        framebuffer_addr: 0xE000_0000,
        framebuffer_size: 0x7E9000,
        framebuffer_width: 1024,
        framebuffer_height: 768,
        framebuffer_pitch: 4096,
        framebuffer_bpp: 32,
        framebuffer_pixel_format_info: 0,
        reserved_graphics: 0,
        acpi_rsdp_ptr: 0,
        efi_system_table_ptr: 0,
        reserved1: 0,
        reserved2: 0,
    };
    let map = vec![EfiMemoryDescriptorRaw {
        descriptor_type: 7,
        physical_start: 0,
        virtual_start: 0,
        number_of_pages: 0x8000,
        attribute: 0xF,
    }];
    initialize(Some(raw), map, tpm).expect("valid handoff")
}

/// A well-formed signature sidecar for the given key id.
fn envelope(alg: u8, key_id: u64, sig: &[u8]) -> Vec<u8> {
    let mut v = Vec::new();
    v.extend_from_slice(b"LSIG");
    v.push(alg);
    v.extend_from_slice(&key_id.to_le_bytes());
    v.extend_from_slice(&(sig.len() as u16).to_le_bytes());
    v.extend_from_slice(sig);
    v
}

fn sha(data: &[u8]) -> Vec<u8> {
    <sha2::Sha256 as sha2::Digest>::digest(data).to_vec()
}

/// A deterministic ECDSA P-256 key pair: the signing key and the public
/// SEC1 bytes.
fn ecdsa_keypair() -> (p256::ecdsa::SigningKey, Vec<u8>) {
    let sk = p256::ecdsa::SigningKey::from_slice(&[7u8; 32]).expect("a valid scalar");
    let vk = sk.verifying_key().to_sec1_bytes().to_vec();
    (sk, vk)
}

fn ecdsa_sign(sk: &p256::ecdsa::SigningKey, data: &[u8]) -> Vec<u8> {
    let sig: p256::ecdsa::Signature =
        p256::ecdsa::signature::hazmat::PrehashSigner::sign_prehash(sk, &sha(data))
            .expect("signs");
    sig.to_bytes().to_vec()
}

#[test]
fn envelopes_parse_exactly() {
    let e = envelope(1, 0x1122_3344_5566_7788, &[0xAB; 64]);
    let env = parse_envelope(&e).expect("well-formed");
    assert_eq!(env.algorithm, 1);
    assert_eq!(env.key_id, 0x1122_3344_5566_7788);
    assert_eq!(env.signature_len, 64);

    let mut bad_magic = e.clone();
    bad_magic[0] = b'X';
    assert!(parse_envelope(&bad_magic).is_none());

    let mut bad_alg = e.clone();
    bad_alg[4] = 9;
    assert!(parse_envelope(&bad_alg).is_none());

    let mut truncated = e.clone();
    truncated.pop();
    assert!(parse_envelope(&truncated).is_none());

    assert!(parse_envelope(&envelope(2, 1, &[])).is_none()); // no signature bytes
    assert!(parse_envelope(b"LSIG").is_none());
}

#[test]
fn signatures_are_accepted_only_under_trusted_keys() {
    let mut keys = KeyStore::new();
    let (sk, vk) = ecdsa_keypair();
    let id = keys.add_key(2, vk);
    let data = b"artifact";
    let good = envelope(2, id, &ecdsa_sign(&sk, data));
    // the id is the first eight bytes of the key's SHA-256 fingerprint
    let (_, vk_again) = ecdsa_keypair();
    let fp = sha(&vk_again);
    assert_eq!(id, u64::from_le_bytes(fp[0..8].try_into().unwrap()));
    assert!(matches!(verify_signature(data, &good, &keys), Ok(true)));
    // a flipped signature byte is well-formed but does not verify
    let mut corrupted = good.clone();
    let last = corrupted.len() - 1;
    corrupted[last] ^= 1;
    assert!(matches!(verify_signature(data, &corrupted, &keys), Ok(false)));
    // a signature over other data does not cover this data
    assert!(matches!(verify_signature(b"other", &good, &keys), Ok(false)));
    // an unknown key-id hint is refused
    let unknown = envelope(2, id ^ 1, &ecdsa_sign(&sk, data));
    assert!(matches!(
        verify_signature(data, &unknown, &keys),
        Err(SecurityError::KeyNotFound(_))
    ));
    // a broken envelope is refused
    let mut bad_magic = good.clone();
    bad_magic[0] = b'X';
    assert!(matches!(
        verify_signature(data, &bad_magic, &keys),
        Err(SecurityError::SignatureVerificationFailed(_))
    ));
    assert!(matches!(
        verify_signature(data, &[], &keys),
        Err(SecurityError::SignatureVerificationFailed(_))
    ));
}

#[test]
fn rsa_signatures_verify_end_to_end() {
    let sk = rsa::RsaPrivateKey::new(&mut rand::thread_rng(), 1024).expect("generates");
    let vk = rsa::pkcs1::EncodeRsaPublicKey::to_pkcs1_der(&sk.to_public_key())
        .expect("encodes")
        .as_bytes()
        .to_vec();
    let data = b"kernel image";
    let sig = sk
        .sign(rsa::Pkcs1v15Sign::new::<sha2::Sha256>(), &sha(data))
        .expect("signs");
    let mut keys = KeyStore::new();
    let id = keys.add_key(1, vk);
    let good = envelope(1, id, &sig);
    assert!(matches!(verify_signature(data, &good, &keys), Ok(true)));
    let mut corrupted = good.clone();
    corrupted[20] ^= 0x40;
    assert!(matches!(verify_signature(data, &corrupted, &keys), Ok(false)));
    assert!(matches!(verify_signature(b"other", &good, &keys), Ok(false)));
}

fn fat32_image(files: &[(&str, &[u8])]) -> Vec<u8> {
    let mut bytes = vec![0u8; 512 * 128];
    bytes[12] = 0x02;
    bytes[13] = 1;
    bytes[14] = 1;
    bytes[16] = 1;
    bytes[36] = 1;
    bytes[44] = 2;
    bytes[82..90].copy_from_slice(b"FAT32   ");
    bytes[510] = 0x55;
    bytes[511] = 0xAA;
    let set_fat = |bytes: &mut Vec<u8>, c: u32, v: u32| {
        let off = 512 + 4 * c as usize;
        bytes[off..off + 4].copy_from_slice(&v.to_le_bytes());
    };
    set_fat(&mut bytes, 2, 0x0FFF_FFFF);
    let mut next_cluster = 3u32;
    let mut slot = 0usize;
    for (name, content) in files {
        let dir = 1024 + 32 * slot;
        bytes[dir] = 0x41;
        bytes[dir + 11] = 0x0F;
        let positions = [1, 3, 5, 7, 9, 14, 16, 18, 20, 22, 24, 28, 30];
        let units: Vec<u16> = name.chars().map(|c| c as u16).collect();
        assert!(units.len() <= 13);
        for (k, pos) in positions.iter().enumerate() {
            let u: u16 = if k < units.len() {
                units[k]
            } else if k == units.len() {
                0
            } else {
                0xFFFF
            };
            bytes[dir + pos..dir + pos + 2].copy_from_slice(&u.to_le_bytes());
        }
        let short = 1024 + 32 * (slot + 1);
        bytes[short..short + 11].copy_from_slice(b"FILE    BIN");
        bytes[short + 11] = 0x20;
        bytes[short + 26..short + 28].copy_from_slice(&(next_cluster as u16).to_le_bytes());
        bytes[short + 28..short + 32].copy_from_slice(&(content.len() as u32).to_le_bytes());
        let mut rest: &[u8] = content;
        loop {
            let take = rest.len().min(512);
            let off = 1024 + 512 * (next_cluster as usize - 2);
            bytes[off..off + take].copy_from_slice(&rest[..take]);
            rest = &rest[take..];
            if rest.is_empty() {
                set_fat(&mut bytes, next_cluster, 0x0FFF_FFFF);
                next_cluster += 1;
                break;
            }
            set_fat(&mut bytes, next_cluster, next_cluster + 1);
            next_cluster += 1;
        }
        slot += 2;
    }
    bytes
}

fn secure_entry() -> BootEntry {
    BootEntry {
        id: "linux".to_string(),
        title: "Linux".to_string(),
        kernel: "/vmlinuz".to_string(),
        initrd: None,
        cmdline: String::new(),
        order: None,
        secure: true,
        icon: None,
        entry_type: BootEntryType::KernelDirect,
        volume_id: None,
        architecture: Some(ArchitectureType::Any),
    }
}

#[test]
fn a_corrupted_sidecar_fails_verification() {
    let (sk, vk) = ecdsa_keypair();
    let mut keys_probe = KeyStore::new();
    let id = keys_probe.add_key(2, vk.clone());
    // a sidecar whose signature byte was flipped after signing
    let mut corrupted = envelope(2, id, &ecdsa_sign(&sk, b"kernel-bytes"));
    let last = corrupted.len() - 1;
    corrupted[last] ^= 1;
    let mut hal = hal(false);
    let mut fsm = initialize_manager(&hal);
    hal.device_manager.add_device(Device {
        id: 0,
        name: "sata0".to_string(),
        device_type: DeviceType::Storage,
        content: fat32_image(&[("vmlinuz", b"kernel-bytes"), ("vmlinuz.sig", &corrupted)]),
    });
    mount_all_volumes(&mut fsm, &hal);
    let mut security = SecurityManager::new(&hal);
    security.add_trusted_key(2, vk);
    match security.verify_boot_entry(&hal, &fsm, &secure_entry()) {
        Err(SecurityError::SignatureVerificationFailed(m)) => assert_eq!(m, "/vmlinuz"),
        _ => panic!("expected the verification failure"),
    }
}

#[test]
fn verification_passes_with_a_trusted_valid_sidecar() {
    let (sk, vk) = ecdsa_keypair();
    let mut keys_probe = KeyStore::new();
    let id = keys_probe.add_key(2, vk.clone());
    let sig = envelope(2, id, &ecdsa_sign(&sk, b"kernel-bytes"));
    let mut hal = hal(false);
    let mut fsm = initialize_manager(&hal);
    hal.device_manager.add_device(Device {
        id: 0,
        name: "sata0".to_string(),
        device_type: DeviceType::Storage,
        content: fat32_image(&[("vmlinuz", b"kernel-bytes"), ("vmlinuz.sig", &sig)]),
    });
    mount_all_volumes(&mut fsm, &hal);
    let mut security = SecurityManager::new(&hal);
    security.add_trusted_key(2, vk);
    assert!(security.verify_boot_entry(&hal, &fsm, &secure_entry()).is_ok());
    // an untrusted hint is refused
    let empty_keys = SecurityManager::new(&hal);
    match empty_keys.verify_boot_entry(&hal, &fsm, &secure_entry()) {
        Err(SecurityError::KeyNotFound(m)) => assert_eq!(m, "/vmlinuz"),
        _ => panic!("expected the key refusal"),
    }
    // an entry that is not secure asks for nothing
    let mut open = secure_entry();
    open.secure = false;
    assert!(empty_keys.verify_boot_entry(&hal, &fsm, &open).is_ok());
}

#[test]
fn tpm_presence_is_taken_from_the_platform_probe() {
    let with = hal(true);
    let without = hal(false);
    assert!(is_tpm2_available(&with));
    assert!(!is_tpm2_available(&without));
    assert!(initialize_tpm_interaction(&with).is_ok());
    assert!(matches!(
        initialize_tpm_interaction(&without),
        Err(SecurityError::TpmError(_))
    ));
    assert!(SecurityManager::new(&with).is_tpm_available());
    assert!(!SecurityManager::new(&without).is_tpm_available());
}

#[test]
fn measurements_append_to_the_event_log() {
    let mut log = TpmLog::new();
    measure_data_into_tpm_pcr(&mut log, b"kernel", 10, "KernelImage").expect("measures");
    measure_data_into_tpm_pcr(&mut log, b"initrd", 9, "InitrdImage").expect("measures");
    measure_data_into_tpm_pcr(&mut log, b"", 8, "Empty").expect("empty data is skipped");
    let events = get_tcg_event_log(&log);
    assert_eq!(events.len(), 2);
    assert_eq!(events[0].pcr_index, 10);
    assert_eq!(events[0].description, "KernelImage");
    assert_eq!(events[0].data_len, 6);
    // each event records the SHA-256 digest of what was measured
    assert_eq!(events[0].digest, sha(b"kernel"));
    assert_eq!(events[1].digest, sha(b"initrd"));
    assert_eq!(events[1].pcr_index, 9);
    assert_eq!(log.pcr_extend_counts[10], 1);
    assert_eq!(log.pcr_extend_counts[9], 1);
    assert_eq!(log.pcr_extend_counts[8], 0);
}
