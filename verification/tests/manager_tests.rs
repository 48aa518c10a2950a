use lionbootloader_core::config::ConfigError;
use lionbootloader_core::config::load_configuration;
use lionbootloader_core::fs::initialize_manager;
use lionbootloader_core::fs::list_directory;
use lionbootloader_core::fs::mount_all_volumes;
use lionbootloader_core::fs::read_file_to_vec;
use lionbootloader_core::fs::interface::FilesystemError;
use lionbootloader_core::hal::Device;
use lionbootloader_core::hal::DeviceType;
use lionbootloader_core::hal::EfiMemoryDescriptorRaw;
use lionbootloader_core::hal::HalServices;
use lionbootloader_core::hal::LBL_BOOT_INFO_MAGIC;
use lionbootloader_core::hal::LBL_BOOT_INFO_VERSION;
use lionbootloader_core::hal::LblBootInfoRaw;
use lionbootloader_core::hal::initialize;

fn hal() -> HalServices {
    let raw = LblBootInfoRaw {
        magic: LBL_BOOT_INFO_MAGIC,
        version: LBL_BOOT_INFO_VERSION,
        header_size: 128,
        total_size: 128,
        core_load_addr: 0x10_0000,
        core_size: 0x8_0000,
        core_entry_offset: 0,
        memory_map_ptr: 0x2000,
        memory_map_size: 48,
        memory_map_key: 7,
        memory_descriptor_size: 48,
        memory_descriptor_version: 1,
        framebuffer_addr: 0xE000_0000,
        framebuffer_size: 0x7E9000,
        framebuffer_width: 1024,
        framebuffer_height: 768,
        framebuffer_pitch: 4096,
        framebuffer_bpp: 32,
        framebuffer_pixel_format_info: 0,
        reserved_graphics: 0,
        acpi_rsdp_ptr: 0,
        efi_system_table_ptr: 0,
        reserved1: 0,
        reserved2: 0,
    };
    let map = vec![EfiMemoryDescriptorRaw {
        descriptor_type: 7,
        physical_start: 0,
        virtual_start: 0,
        number_of_pages: 0x8000,
        attribute: 0xF,
    }];
    initialize(Some(raw), map, false).expect("valid handoff")
}

// A minimal FAT32 volume: 512-byte sectors, one per cluster, one reserved
// sector, one FAT sector; `files` are (path-in-root, content) pairs.
fn fat32_image(files: &[(&str, &[u8])]) -> Vec<u8> {
    let mut bytes = vec![0u8; 512 * 128];
    bytes[12] = 0x02;
    bytes[13] = 1;
    bytes[14] = 1;
    bytes[16] = 1;
    bytes[36] = 1;
    bytes[44] = 2;
    bytes[82..90].copy_from_slice(b"FAT32   ");
    bytes[510] = 0x55;
    bytes[511] = 0xAA;
    let set_fat = |bytes: &mut Vec<u8>, c: u32, v: u32| {
        let off = 512 + 4 * c as usize;
        bytes[off..off + 4].copy_from_slice(&v.to_le_bytes());
    };
    set_fat(&mut bytes, 2, 0x0FFF_FFFF);
    let mut next_cluster = 3u32;
    let mut slot = 0usize;
    for (name, content) in files {
        // long-name record then the short record
        let dir = 1024 + 32 * slot;
        bytes[dir] = 0x41;
        bytes[dir + 11] = 0x0F;
        let positions = [1, 3, 5, 7, 9, 14, 16, 18, 20, 22, 24, 28, 30];
        let units: Vec<u16> = name.chars().map(|c| c as u16).collect();
        assert!(units.len() <= 13, "name too long for one long record");
        for (k, pos) in positions.iter().enumerate() {
            let u: u16 = if k < units.len() {
                units[k]
            } else if k == units.len() {
                0
            } else {
                0xFFFF
            };
            bytes[dir + pos..dir + pos + 2].copy_from_slice(&u.to_le_bytes());
        }
        let short = 1024 + 32 * (slot + 1);
        bytes[short..short + 11].copy_from_slice(b"FILE    BIN");
        bytes[short + 11] = 0x20;
        let hi = (next_cluster >> 16) as u16;
        let lo = (next_cluster & 0xFFFF) as u16;
        bytes[short + 20..short + 22].copy_from_slice(&hi.to_le_bytes());
        bytes[short + 26..short + 28].copy_from_slice(&lo.to_le_bytes());
        bytes[short + 28..short + 32].copy_from_slice(&(content.len() as u32).to_le_bytes());
        let mut rest: &[u8] = content;
        loop {
            let take = rest.len().min(512);
            let off = 1024 + 512 * (next_cluster as usize - 2);
            bytes[off..off + take].copy_from_slice(&rest[..take]);
            rest = &rest[take..];
            if rest.is_empty() {
                set_fat(&mut bytes, next_cluster, 0x0FFF_FFFF);
                next_cluster += 1;
                break;
            }
            set_fat(&mut bytes, next_cluster, next_cluster + 1);
            next_cluster += 1;
        }
        slot += 2;
    }
    bytes
}

fn storage(id: u64, name: &str, image: Vec<u8>) -> Device {
    Device { id, name: name.to_string(), device_type: DeviceType::Storage, content: image }
}

#[test]
fn volume_ids_are_pairwise_distinct() {
    let mut hal = hal();
    let mut fsm = initialize_manager(&hal);
    hal.device_manager.add_device(storage(0, "sata0", fat32_image(&[])));
    hal.device_manager.add_device(storage(0, "sata0", fat32_image(&[])));
    hal.device_manager.add_device(storage(0, "nvme0", fat32_image(&[])));
    mount_all_volumes(&mut fsm, &hal);
    let volumes = fsm.list_mounted_volumes();
    assert_eq!(volumes.len(), 3);
    for i in 0..volumes.len() {
        for j in 0..volumes.len() {
            if i != j {
                assert_ne!(volumes[i].id, volumes[j].id);
            }
        }
    }
    assert_eq!(volumes[0].id, "vol-1-sata0-fat32");
    assert_eq!(volumes[1].id, "vol-2-sata0-fat32");
    assert_eq!(volumes[2].id, "vol-3-nvme0-fat32");
    assert_eq!(volumes[0].fs_type, "FAT32");
    assert!(volumes[0].is_read_only);
}

#[test]
fn unrecognized_media_are_unsupported_and_unlisted() {
    let mut hal = hal();
    let mut fsm = initialize_manager(&hal);
    let blank = storage(0, "blank0", vec![0u8; 4096]);
    let r = fsm.mount_volume_from_device(&blank);
    assert!(matches!(r, Err(FilesystemError::Unsupported)));
    assert_eq!(fsm.list_mounted_volumes().len(), 0);
}

#[test]
fn reads_go_to_the_right_volume() {
    let mut hal = hal();
    let mut fsm = initialize_manager(&hal);
    hal.device_manager.add_device(storage(0, "a", fat32_image(&[("one.txt", b"first")])));
    hal.device_manager.add_device(storage(0, "b", fat32_image(&[("two.txt", b"second")])));
    mount_all_volumes(&mut fsm, &hal);
    let vols = fsm.list_mounted_volumes();
    assert_eq!(read_file_to_vec(&fsm, &vols[0].id, "/one.txt").expect("reads"), b"first");
    assert_eq!(read_file_to_vec(&fsm, &vols[1].id, "/two.txt").expect("reads"), b"second");
    assert!(matches!(
        read_file_to_vec(&fsm, &vols[0].id, "/two.txt"),
        Err(FilesystemError::NotFound)
    ));
    assert!(matches!(
        read_file_to_vec(&fsm, "vol-9-z-fat32", "/one.txt"),
        Err(FilesystemError::VolumeNotMounted(_))
    ));
    assert!(matches!(
        read_file_to_vec(&fsm, &vols[0].id, "/../one.txt"),
        Err(FilesystemError::InvalidInput)
    ));
    let listing = list_directory(&fsm, &vols[0].id, "/").expect("lists");
    assert_eq!(listing.len(), 1);
    assert_eq!(listing[0].name, "one.txt");
}

#[test]
fn config_search_prefers_earlier_volumes_and_paths() {
    // config only at /config.json on the second volume: that one is taken
    let mut hal = hal();
    let mut fsm = initialize_manager(&hal);
    let cfg2 = b"{\"timeout_ms\":2222,\"entries\":[{\"id\":\"b\",\"title\":\"B\",\"kernel\":\"/k\"}]}";
    hal.device_manager.add_device(storage(0, "v1", fat32_image(&[])));
    hal.device_manager.add_device(storage(0, "v2", fat32_image(&[("config.json", cfg2)])));
    mount_all_volumes(&mut fsm, &hal);
    let c = load_configuration(&fsm).expect("finds the configuration on the second volume");
    assert_eq!(c.timeout_ms, 2222);
    assert_eq!(c.entries[0].id, "b");
}

#[test]
fn config_in_the_primary_path_on_an_earlier_volume_wins() {
    // V1 carries /LBL/config.json, V2 carries /config.json: V1's is taken
    let mut image1 = fat32_image(&[]);
    let cfg1 = b"{\"timeout_ms\":1111,\"entries\":[{\"id\":\"a\",\"title\":\"A\",\"kernel\":\"/k\"}]}";
    {
        // root entry: directory LBL at cluster 20
        let dir = 1024;
        image1[dir..dir + 11].copy_from_slice(b"LBL        ");
        image1[dir + 11] = 0x10;
        image1[dir + 26..dir + 28].copy_from_slice(&20u16.to_le_bytes());
        let set_fat = |bytes: &mut Vec<u8>, c: u32, v: u32| {
            let off = 512 + 4 * c as usize;
            bytes[off..off + 4].copy_from_slice(&v.to_le_bytes());
        };
        set_fat(&mut image1, 20, 0x0FFF_FFFF);
        set_fat(&mut image1, 21, 0x0FFF_FFFF);
        // /LBL/config.json at cluster 21, named by a long record
        let d = 1024 + 512 * (20 - 2);
        image1[d] = 0x41;
        image1[d + 11] = 0x0F;
        let positions = [1, 3, 5, 7, 9, 14, 16, 18, 20, 22, 24, 28, 30];
        let units: Vec<u16> = "config.json".chars().map(|c| c as u16).collect();
        for (k, pos) in positions.iter().enumerate() {
            let u: u16 = if k < units.len() {
                units[k]
            } else if k == units.len() {
                0
            } else {
                0xFFFF
            };
            image1[d + pos..d + pos + 2].copy_from_slice(&u.to_le_bytes());
        }
        let s = d + 32;
        image1[s..s + 11].copy_from_slice(b"CONFIG  JSO");
        image1[s + 11] = 0x20;
        image1[s + 26..s + 28].copy_from_slice(&21u16.to_le_bytes());
        image1[s + 28..s + 32].copy_from_slice(&(cfg1.len() as u32).to_le_bytes());
        let c = 1024 + 512 * (21 - 2);
        image1[c..c + cfg1.len()].copy_from_slice(cfg1);
    }
    let cfg2 = b"{\"timeout_ms\":2222,\"entries\":[{\"id\":\"b\",\"title\":\"B\",\"kernel\":\"/k\"}]}";
    let mut hal = hal();
    let mut fsm = initialize_manager(&hal);
    hal.device_manager.add_device(storage(0, "v1", image1));
    hal.device_manager.add_device(storage(0, "v2", fat32_image(&[("config.json", cfg2)])));
    mount_all_volumes(&mut fsm, &hal);
    let c = load_configuration(&fsm).expect("finds the primary path on the first volume");
    assert_eq!(c.timeout_ms, 1111);
    assert_eq!(c.entries[0].id, "a");
}

#[test]
fn config_text_is_decoded_as_utf8_and_invalid_text_is_refused() {
    // a title with a two-byte character decodes
    let cfg = "{\"entries\":[{\"id\":\"a\",\"title\":\"caf\u{e9}\",\"kernel\":\"/k\"}]}";
    let mut hal = hal();
    let mut fsm = initialize_manager(&hal);
    hal.device_manager.add_device(storage(0, "v1", fat32_image(&[("config.json", cfg.as_bytes())])));
    mount_all_volumes(&mut fsm, &hal);
    let c = load_configuration(&fsm).expect("the configuration parses");
    assert_eq!(c.entries[0].title, "caf\u{e9}");

    // a file that is not valid UTF-8 names the encoding as the reason
    let mut bad = Vec::new();
    bad.extend_from_slice(b"{\"entries\":[{\"id\":\"a\",\"title\":\"");
    bad.push(0xC3); // truncated scalar
    bad.extend_from_slice(b"\",\"kernel\":\"/k\"}]}");
    let mut hal = self::hal();
    let mut fsm = initialize_manager(&hal);
    hal.device_manager.add_device(storage(0, "v1", fat32_image(&[("config.json", &bad)])));
    mount_all_volumes(&mut fsm, &hal);
    match load_configuration(&fsm) {
        Err(ConfigError::InvalidFormat(m)) => assert_eq!(m, "utf-8"),
        _ => panic!("expected the encoding refusal"),
    }
}

#[test]
fn config_loading_without_volumes_or_files_names_the_reason() {
    let hal = hal();
    let fsm = initialize_manager(&hal);
    assert!(matches!(load_configuration(&fsm), Err(ConfigError::NoVolumesMounted)));

    let mut hal = self::hal();
    let mut fsm = initialize_manager(&hal);
    hal.device_manager.add_device(storage(0, "v1", fat32_image(&[])));
    mount_all_volumes(&mut fsm, &hal);
    assert!(matches!(load_configuration(&fsm), Err(ConfigError::FileNotFound)));
}
