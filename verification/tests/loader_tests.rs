use lionbootloader_core::config::schema_types::ArchitectureType;
use lionbootloader_core::config::schema_types::BootEntry;
use lionbootloader_core::config::schema_types::BootEntryType;
use lionbootloader_core::fs::initialize_manager;
use lionbootloader_core::fs::mount_all_volumes;
use lionbootloader_core::hal::Device;
use lionbootloader_core::hal::DeviceType;
use lionbootloader_core::hal::EfiMemoryDescriptorRaw;
use lionbootloader_core::hal::HalServices;
use lionbootloader_core::hal::LBL_BOOT_INFO_MAGIC;
use lionbootloader_core::hal::LBL_BOOT_INFO_VERSION;
use lionbootloader_core::hal::LblBootInfoRaw;
use lionbootloader_core::hal::initialize;
use lionbootloader_core::loader::BootAction;
use lionbootloader_core::loader::BootExecuteError;
use lionbootloader_core::loader::arch_adapter::ArchPlan;
use lionbootloader_core::loader::arch_adapter::EbsOutcome;
use lionbootloader_core::loader::arch_adapter::EbsState;
use lionbootloader_core::loader::arch_adapter::ebs_init;
use lionbootloader_core::loader::arch_adapter::ebs_step;
use lionbootloader_core::loader::execute_boot;
use lionbootloader_core::loader::kernel_formats::LoadError;
use lionbootloader_core::loader::kernel_formats::is_elf64;
use lionbootloader_core::loader::kernel_formats::load_initrd;
use lionbootloader_core::loader::kernel_formats::load_kernel;
use lionbootloader_core::security::SecurityManager;

fn hal() -> HalServices {
    let raw = LblBootInfoRaw {
        magic: LBL_BOOT_INFO_MAGIC,
        version: LBL_BOOT_INFO_VERSION,
        header_size: 128,
        total_size: 128,
        core_load_addr: 0x10_0000,
        core_size: 0x8_0000,
        core_entry_offset: 0,
        memory_map_ptr: 0x2000,
        memory_map_size: 48,
        memory_map_key: 7,
        memory_descriptor_size: 48,
        memory_descriptor_version: 1,
        framebuffer_addr: 0xE000_0000,
        framebuffer_size: 0x7E9000,
        framebuffer_width: 1024,
        framebuffer_height: 768,
        framebuffer_pitch: 4096,
        framebuffer_bpp: 32,
        framebuffer_pixel_format_info: 0,
        reserved_graphics: 0,
        acpi_rsdp_ptr: 0,
        efi_system_table_ptr: 0,
        reserved1: 0,
        reserved2: 0,
    };
    let map = vec![EfiMemoryDescriptorRaw {
        descriptor_type: 7,
        physical_start: 0,
        virtual_start: 0,
        number_of_pages: 0x8000,
        attribute: 0xF,
    }];
    initialize(Some(raw), map, false).expect("valid handoff")
}

struct Segment {
    vaddr: u64,
    offset: u64,
    filesz: u64,
    memsz: u64,
    ptype: u32,
}

fn elf64(entry: u64, segs: &[Segment], total: usize) -> Vec<u8> {
    let mut d = vec![0u8; total];
    d[0] = 0x7f;
    d[1..4].copy_from_slice(b"ELF");
    d[4] = 2; // 64-bit
    d[5] = 1; // little-endian
    d[24..32].copy_from_slice(&entry.to_le_bytes());
    d[32..40].copy_from_slice(&64u64.to_le_bytes()); // program headers at 64
    d[54..56].copy_from_slice(&56u16.to_le_bytes());
    d[56..58].copy_from_slice(&(segs.len() as u16).to_le_bytes());
    for (i, s) in segs.iter().enumerate() {
        let off = 64 + 56 * i;
        d[off..off + 4].copy_from_slice(&s.ptype.to_le_bytes());
        d[off + 8..off + 16].copy_from_slice(&s.offset.to_le_bytes());
        d[off + 16..off + 24].copy_from_slice(&s.vaddr.to_le_bytes());
        d[off + 32..off + 40].copy_from_slice(&s.filesz.to_le_bytes());
        d[off + 40..off + 48].copy_from_slice(&s.memsz.to_le_bytes());
    }
    d
}

#[test]
fn elf64_placement_copies_then_zero_fills_each_load_segment() {
    let segs = [
        Segment { vaddr: 0x100000, offset: 0x1000, filesz: 0x1000, memsz: 0x2000, ptype: 1 },
        Segment { vaddr: 0x200000, offset: 0, filesz: 0, memsz: 0x1000, ptype: 1 },
    ];
    let mut data = elf64(0x100040, &segs, 0x2000);
    for i in 0..0x1000usize {
        data[0x1000 + i] = (i % 249) as u8;
    }
    let mut hal = hal();
    let (info, places) = load_kernel(&mut hal, &data).expect("a well-formed image loads");
    assert_eq!(info.entry_point, 0x100040);
    assert_eq!(info.load_address, 0x100000);
    assert_eq!(info.size, 0x101000);
    assert!(info.stack_ptr.is_none());
    assert_eq!(places.len(), 2);
    assert_eq!(places[0].dest, 0x100000);
    assert_eq!(places[0].bytes.len(), 0x2000);
    assert_eq!(&places[0].bytes[..0x1000], &data[0x1000..0x2000]);
    assert!(places[0].bytes[0x1000..].iter().all(|b| *b == 0));
    assert_eq!(places[1].dest, 0x200000);
    assert_eq!(places[1].bytes.len(), 0x1000);
    assert!(places[1].bytes.iter().all(|b| *b == 0));
    // both regions were reserved for the kernel
    assert_eq!(hal.reservations().len(), 2);
    assert_eq!(hal.reservations()[0].base, 0x100000);
    assert_eq!(hal.reservations()[0].size, 0x2000);
}

#[test]
fn elf_without_load_segments_is_refused() {
    let segs = [Segment { vaddr: 0, offset: 0, filesz: 0, memsz: 0x1000, ptype: 4 }];
    let data = elf64(0x1000, &segs, 0x1000);
    let mut hal = hal();
    match load_kernel(&mut hal, &data) {
        Err(LoadError::InvalidFormat(m)) => assert_eq!(m, "no loadable segments"),
        _ => panic!("expected the no-loadable-segments refusal"),
    }
    assert_eq!(hal.reservations().len(), 0);
}

#[test]
fn non_elf_data_is_an_unsupported_format() {
    let mut hal = hal();
    assert!(!is_elf64(b"MZ\x90\x00\x03"));
    assert!(matches!(
        load_kernel(&mut hal, b"MZ\x90\x00\x03\x00"),
        Err(LoadError::UnsupportedFormat(_))
    ));
}

#[test]
fn initrd_staging_is_sixteen_byte_aligned_and_exactly_sized() {
    let mut hal = hal();
    let info = load_initrd(&mut hal, &[9u8; 1000]).expect("stages");
    assert_eq!(info.size, 1000);
    assert_eq!(info.load_address % 16, 0);
    let info2 = load_initrd(&mut hal, &[7u8; 50]).expect("stages");
    assert!(info2.load_address >= info.load_address + 1000);
    // an empty file stages as a zero-size record with nothing reserved
    let reserved_before = hal.reservations().len();
    let empty = load_initrd(&mut hal, &[]).expect("stages trivially");
    assert_eq!(empty.size, 0);
    assert_eq!(hal.reservations().len(), reserved_before);
}

#[test]
fn a_stale_key_costs_exactly_one_retry() {
    let hal = hal();
    let mut attempts = 0;
    let mut state = ebs_init(&hal);
    assert!(matches!(state, EbsState::FirstAttempt { key: 7 }));
    // the harness invalidates the key between fetch and call
    attempts += 1;
    state = ebs_step(state, EbsOutcome::StaleKey, 42);
    assert!(matches!(state, EbsState::Retrying { key: 42 }));
    // the retry runs with the fresh key and succeeds
    attempts += 1;
    state = ebs_step(state, EbsOutcome::Success, 43);
    assert!(matches!(state, EbsState::Done));
    assert_eq!(attempts, 2);
    // a second stale answer instead would have ended the boot
    let failed = ebs_step(EbsState::Retrying { key: 42 }, EbsOutcome::StaleKey, 44);
    assert!(matches!(failed, EbsState::Failed));
    // and a fresh key never retries at all
    assert!(matches!(
        ebs_step(EbsState::FirstAttempt { key: 7 }, EbsOutcome::Success, 0),
        EbsState::Done
    ));
}

// A FAT32 volume with the given root files.
fn fat32_image(files: &[(&str, &[u8])]) -> Vec<u8> {
    let mut bytes = vec![0u8; 512 * 256];
    bytes[12] = 0x02;
    bytes[13] = 1;
    bytes[14] = 1;
    bytes[16] = 1;
    bytes[36] = 1;
    bytes[44] = 2;
    bytes[82..90].copy_from_slice(b"FAT32   ");
    bytes[510] = 0x55;
    bytes[511] = 0xAA;
    let set_fat = |bytes: &mut Vec<u8>, c: u32, v: u32| {
        let off = 512 + 4 * c as usize;
        bytes[off..off + 4].copy_from_slice(&v.to_le_bytes());
    };
    set_fat(&mut bytes, 2, 0x0FFF_FFFF);
    let mut next_cluster = 3u32;
    let mut slot = 0usize;
    for (name, content) in files {
        let dir = 1024 + 32 * slot;
        bytes[dir] = 0x41;
        bytes[dir + 11] = 0x0F;
        let positions = [1, 3, 5, 7, 9, 14, 16, 18, 20, 22, 24, 28, 30];
        let units: Vec<u16> = name.chars().map(|c| c as u16).collect();
        assert!(units.len() <= 13);
        for (k, pos) in positions.iter().enumerate() {
            let u: u16 = if k < units.len() {
                units[k]
            } else if k == units.len() {
                0
            } else {
                0xFFFF
            };
            bytes[dir + pos..dir + pos + 2].copy_from_slice(&u.to_le_bytes());
        }
        let short = 1024 + 32 * (slot + 1);
        bytes[short..short + 11].copy_from_slice(b"FILE    BIN");
        bytes[short + 11] = 0x20;
        bytes[short + 26..short + 28].copy_from_slice(&(next_cluster as u16).to_le_bytes());
        bytes[short + 28..short + 32].copy_from_slice(&(content.len() as u32).to_le_bytes());
        let mut rest: &[u8] = content;
        loop {
            let take = rest.len().min(512);
            let off = 1024 + 512 * (next_cluster as usize - 2);
            bytes[off..off + take].copy_from_slice(&rest[..take]);
            rest = &rest[take..];
            if rest.is_empty() {
                set_fat(&mut bytes, next_cluster, 0x0FFF_FFFF);
                next_cluster += 1;
                break;
            }
            set_fat(&mut bytes, next_cluster, next_cluster + 1);
            next_cluster += 1;
        }
        slot += 2;
    }
    bytes
}

fn entry(kernel: &str) -> BootEntry {
    BootEntry {
        id: "linux".to_string(),
        title: "Linux".to_string(),
        kernel: kernel.to_string(),
        initrd: None,
        cmdline: String::new(),
        order: None,
        secure: false,
        icon: None,
        entry_type: BootEntryType::KernelDirect,
        volume_id: None,
        architecture: Some(ArchitectureType::Any),
    }
}

#[test]
fn golden_path_prepares_a_jump_plan() {
    let segs = [Segment { vaddr: 0x100000, offset: 0x400, filesz: 0x100, memsz: 0x200, ptype: 1 }];
    let kernel = elf64(0x100000, &segs, 0x800);
    let initrd_file = vec![5u8; 777];
    let mut hal = hal();
    let mut fsm = initialize_manager(&hal);
    hal.device_manager.add_device(Device {
        id: 0,
        name: "sata0".to_string(),
        device_type: DeviceType::Storage,
        content: fat32_image(&[("vmlinuz", &kernel), ("initrd.img", &initrd_file)]),
    });
    mount_all_volumes(&mut fsm, &hal);
    let mut security = SecurityManager::new(&hal);
    let mut e = entry("/vmlinuz");
    e.initrd = Some("/initrd.img".to_string());
    e.cmdline = "root=/dev/sda2".to_string();
    match execute_boot(&mut hal, &fsm, &mut security, &e) {
        Ok(BootAction::JumpKernel { kernel, placements, initrd, initrd_bytes, cmdline, plan, ebs }) => {
            assert_eq!(kernel.entry_point, 0x100000);
            assert_eq!(kernel.load_address, 0x100000);
            assert_eq!(kernel.size, 0x200);
            assert_eq!(placements.len(), 1);
            assert_eq!(cmdline, "root=/dev/sda2");
            let ird = initrd.expect("the initial RAM disk was staged");
            assert_eq!(ird.size, 777);
            assert_eq!(ird.load_address % 16, 0);
            assert_eq!(initrd_bytes, initrd_file);
            match plan {
                ArchPlan::X86_64 { entry, params } => {
                    assert_eq!(entry, 0x100000);
                    assert_eq!(params.kernel_entry, 0x100000);
                    assert_eq!(params.initrd_size, 777);
                    assert_eq!(params.cmdline_len, 14);
                    assert_eq!(params.framebuffer_width, 1024);
                },
                _ => panic!("expected the reference ISA plan"),
            }
            assert!(matches!(ebs, EbsState::FirstAttempt { key: 7 }));
        },
        _ => panic!("expected a prepared jump"),
    }
}

#[test]
fn a_missing_signature_stops_the_entry_before_any_placement() {
    let segs = [Segment { vaddr: 0x100000, offset: 0x400, filesz: 0x100, memsz: 0x200, ptype: 1 }];
    let kernel = elf64(0x100000, &segs, 0x800);
    let mut hal = hal();
    let mut fsm = initialize_manager(&hal);
    hal.device_manager.add_device(Device {
        id: 0,
        name: "sata0".to_string(),
        device_type: DeviceType::Storage,
        content: fat32_image(&[("vmlinuz", &kernel)]),
    });
    mount_all_volumes(&mut fsm, &hal);
    let mut security = SecurityManager::new(&hal);
    let mut e = entry("/vmlinuz");
    e.secure = true;
    match execute_boot(&mut hal, &fsm, &mut security, &e) {
        Err(BootExecuteError::SignatureVerificationFailed(m)) => assert_eq!(m, "/vmlinuz"),
        _ => panic!("expected the verification failure"),
    }
    // the kernel loader was never invoked: nothing was reserved
    assert_eq!(hal.reservations().len(), 0);
}

#[test]
fn a_kernel_that_no_volume_carries_is_not_found() {
    let mut hal = hal();
    let mut fsm = initialize_manager(&hal);
    hal.device_manager.add_device(Device {
        id: 0,
        name: "sata0".to_string(),
        device_type: DeviceType::Storage,
        content: fat32_image(&[]),
    });
    mount_all_volumes(&mut fsm, &hal);
    let mut security = SecurityManager::new(&hal);
    match execute_boot(&mut hal, &fsm, &mut security, &entry("/vmlinuz")) {
        Err(BootExecuteError::KernelNotFound(m)) => assert_eq!(m, "/vmlinuz"),
        _ => panic!("expected the kernel-not-found failure"),
    }
}

#[test]
fn chainload_entries_hand_the_image_back() {
    let mut hal = hal();
    let mut fsm = initialize_manager(&hal);
    hal.device_manager.add_device(Device {
        id: 0,
        name: "sata0".to_string(),
        device_type: DeviceType::Storage,
        content: fat32_image(&[("shim.efi", b"PE-image")]),
    });
    mount_all_volumes(&mut fsm, &hal);
    let mut security = SecurityManager::new(&hal);
    let mut e = entry("/shim.efi");
    e.entry_type = BootEntryType::UefiChainload;
    match execute_boot(&mut hal, &fsm, &mut security, &e) {
        Ok(BootAction::Chainload { image }) => assert_eq!(image, b"PE-image"),
        _ => panic!("expected the chainload action"),
    }
}

#[test]
fn internal_tools_dispatch_by_name() {
    let mut hal = hal();
    let fsm = initialize_manager(&hal);
    let mut security = SecurityManager::new(&hal);
    let mut e = entry("internal://lbl_shell");
    e.entry_type = BootEntryType::InternalTool;
    match execute_boot(&mut hal, &fsm, &mut security, &e) {
        Ok(BootAction::InternalTool { name }) => assert_eq!(name, "internal://lbl_shell"),
        _ => panic!("expected the internal-tool action"),
    }
}
