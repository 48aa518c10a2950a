use lionbootloader_core::hal::Device;
use lionbootloader_core::hal::DeviceType;
use lionbootloader_core::hal::EfiMemoryDescriptorRaw;
use lionbootloader_core::hal::HalError;
use lionbootloader_core::hal::LBL_BOOT_INFO_MAGIC;
use lionbootloader_core::hal::LBL_BOOT_INFO_VERSION;
use lionbootloader_core::hal::LblBootInfoRaw;
use lionbootloader_core::hal::device_manager::DeviceManager;
use lionbootloader_core::hal::initialize;
use lionbootloader_core::hal::probe::ProbeOutcome;
use lionbootloader_core::hal::start_async_device_probes;

pub fn handoff() -> LblBootInfoRaw {
    LblBootInfoRaw {
        magic: LBL_BOOT_INFO_MAGIC,
        version: LBL_BOOT_INFO_VERSION,
        header_size: 128,
        total_size: 128,
        core_load_addr: 0x10_0000,
        core_size: 0x8_0000,
        core_entry_offset: 0,
        memory_map_ptr: 0x2000,
        memory_map_size: 48,
        memory_map_key: 7,
        memory_descriptor_size: 48,
        memory_descriptor_version: 1,
        framebuffer_addr: 0xE000_0000,
        framebuffer_size: 0x7E9000,
        framebuffer_width: 1920,
        framebuffer_height: 1080,
        framebuffer_pitch: 7680,
        framebuffer_bpp: 32,
        framebuffer_pixel_format_info: 0,
        reserved_graphics: 0,
        acpi_rsdp_ptr: 0x0009_F000,
        efi_system_table_ptr: 0x7F00_0000,
        reserved1: 0,
        reserved2: 0,
    }
}

pub fn memory_map() -> Vec<EfiMemoryDescriptorRaw> {
    vec![EfiMemoryDescriptorRaw {
        descriptor_type: 7,
        physical_start: 0,
        virtual_start: 0,
        number_of_pages: 0x8000,
        attribute: 0xF,
    }]
}

#[test]
fn initialize_accepts_a_valid_handoff() {
    let hal = initialize(Some(handoff()), memory_map(), false).expect("a valid handoff");
    assert_eq!(hal.boot_info().magic, LBL_BOOT_INFO_MAGIC);
    assert_eq!(hal.memory_map_key(), 7);
    assert_eq!(hal.memory_map().len(), 1);
    assert!(!hal.tpm_present());
}

#[test]
fn initialize_refuses_bad_handoffs_with_the_exact_reason() {
    assert!(matches!(
        initialize(None, memory_map(), false),
        Err(HalError::NullBootInfo)
    ));

    let mut bad_magic = handoff();
    bad_magic.magic = 0xDEAD;
    assert!(matches!(
        initialize(Some(bad_magic), memory_map(), false),
        Err(HalError::InvalidBootInfoMagic)
    ));

    let mut bad_version = handoff();
    bad_version.version = 99;
    assert!(matches!(
        initialize(Some(bad_version), memory_map(), false),
        Err(HalError::InvalidBootInfoMagic)
    ));

    let mut bad_map = handoff();
    bad_map.memory_map_size = 47;
    assert!(matches!(
        initialize(Some(bad_map), memory_map(), false),
        Err(HalError::MemoryMapParsingFailed)
    ));

    assert!(matches!(
        initialize(Some(handoff()), Vec::new(), false),
        Err(HalError::MemoryMapParsingFailed)
    ));

    let mut far_acpi = handoff();
    far_acpi.acpi_rsdp_ptr = 0xFFFF_FFFF_0000;
    assert!(matches!(
        initialize(Some(far_acpi), memory_map(), false),
        Err(HalError::AcpiInitializationFailed)
    ));
}

#[test]
fn clock_never_goes_backwards() {
    let mut hal = initialize(Some(handoff()), memory_map(), false).expect("valid");
    let t1 = hal.get_current_time_ms(100);
    let t2 = hal.get_current_time_ms(50); // the raw timer jumped backwards
    let t3 = hal.get_current_time_ms(160);
    assert!(t2 >= t1);
    assert!(t3 >= t2);
    assert_eq!(t1, 100);
    assert_eq!(t2, 100);
    assert_eq!(t3, 160);
}

#[test]
fn reservations_are_aligned_and_disjoint() {
    let mut hal = initialize(Some(handoff()), memory_map(), false).expect("valid");
    let a = hal.reserve_region(100, 16).expect("fits");
    let b = hal.reserve_region(50, 16).expect("fits");
    assert_eq!(a % 16, 0);
    assert_eq!(b % 16, 0);
    assert!(b >= a + 100);
    assert!(hal.reserve_fixed_region(0x10_0000, 0x1000));
    assert!(!hal.reserve_fixed_region(0x10_0800, 0x1000)); // overlaps the fixed region
    assert_eq!(hal.reservations().len(), 3);
}

#[test]
fn device_inventory_assigns_unique_ids() {
    let mut dm = DeviceManager::new();
    let a = dm.add_device(Device {
        id: 0,
        name: "sata0".to_string(),
        device_type: DeviceType::Storage,
        content: Vec::new(),
    });
    let b = dm.add_device(Device {
        id: 0,
        name: "nvme0".to_string(),
        device_type: DeviceType::Storage,
        content: Vec::new(),
    });
    let c = dm.add_device(Device {
        id: 0,
        name: "eth0".to_string(),
        device_type: DeviceType::Network,
        content: Vec::new(),
    });
    assert_ne!(a, b);
    assert_ne!(b, c);
    assert_ne!(a, c);
    assert_eq!(dm.get_device_by_id(a).expect("present").name, "sata0");
    assert!(dm.get_device_by_id(999).is_none());
    let storage = dm.get_devices_by_type(DeviceType::Storage);
    assert_eq!(storage.len(), 2);
    assert_eq!(storage[0].name, "sata0");
    assert_eq!(storage[1].name, "nvme0");
    assert_eq!(dm.len(), 3);
}

#[test]
fn replacing_a_published_id_keeps_the_inventory_size() {
    let mut dm = DeviceManager::new();
    let id = dm.add_device(Device {
        id: 5,
        name: "old".to_string(),
        device_type: DeviceType::Other,
        content: Vec::new(),
    });
    assert_eq!(id, 5);
    dm.add_device(Device {
        id: 5,
        name: "new".to_string(),
        device_type: DeviceType::Other,
        content: Vec::new(),
    });
    assert_eq!(dm.len(), 1);
    assert_eq!(dm.get_device_by_id(5).expect("present").name, "new");
}

#[test]
fn probe_progress_counts_tasks_and_honours_cancellation() {
    let mut hal = initialize(Some(handoff()), memory_map(), false).expect("valid");
    let mut probes = start_async_device_probes(&mut hal);
    assert_eq!(probes.get_progress_percent(), 0);
    assert!(!probes.is_complete());

    let found = vec![Device {
        id: 0,
        name: "sata0".to_string(),
        device_type: DeviceType::Storage,
        content: Vec::new(),
    }];
    probes.poll_progress(&mut hal.device_manager, ProbeOutcome::Found(found));
    assert_eq!(probes.get_progress_percent(), 25);
    assert_eq!(hal.device_manager.len(), 1);

    probes.cancel();
    probes.poll_progress(&mut hal.device_manager, ProbeOutcome::Found(Vec::new()));
    probes.poll_progress(&mut hal.device_manager, ProbeOutcome::Found(Vec::new()));
    let done = probes.poll_progress(&mut hal.device_manager, ProbeOutcome::Found(Vec::new()));
    assert!(done);
    assert!(probes.is_complete());
    assert_eq!(probes.get_progress_percent(), 100);
    // nothing was published after the cancellation
    assert_eq!(hal.device_manager.len(), 1);
}
