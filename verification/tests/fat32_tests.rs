use lionbootloader_core::fs::fat32::Fat32Driver;
use lionbootloader_core::fs::interface::EntryType;
use lionbootloader_core::fs::interface::FileSystemInstance;
use lionbootloader_core::fs::interface::FilesystemError;
use lionbootloader_core::hal::Device;
use lionbootloader_core::hal::DeviceType;

// Builds a small FAT32 volume: 512-byte sectors, one sector per cluster,
// one reserved sector, one FAT sector, data from cluster 2.
pub struct ImageBuilder {
    pub bytes: Vec<u8>,
}

impl ImageBuilder {
    pub fn new(total_sectors: usize) -> ImageBuilder {
        let mut bytes = vec![0u8; 512 * total_sectors];
        bytes[11] = 0x00;
        bytes[12] = 0x02; // 512 bytes per sector
        bytes[13] = 1; // sectors per cluster
        bytes[14] = 1; // reserved sectors
        bytes[16] = 1; // number of FATs
        bytes[36] = 1; // FAT size in sectors
        bytes[44] = 2; // root directory cluster
        bytes[82..90].copy_from_slice(b"FAT32   ");
        bytes[510] = 0x55;
        bytes[511] = 0xAA;
        // root chain: single cluster
        let mut b = ImageBuilder { bytes };
        b.set_fat(2, 0x0FFF_FFFF);
        b
    }

    pub fn set_fat(&mut self, cluster: u32, value: u32) {
        let off = 512 + 4 * cluster as usize;
        self.bytes[off..off + 4].copy_from_slice(&value.to_le_bytes());
    }

    fn cluster_off(&self, cluster: u32) -> usize {
        1024 + 512 * (cluster as usize - 2)
    }

    pub fn write_cluster(&mut self, cluster: u32, data: &[u8]) {
        let off = self.cluster_off(cluster);
        self.bytes[off..off + data.len()].copy_from_slice(data);
    }

    /// Appends a short 8.3 record to a directory cluster at slot `slot`.
    pub fn add_short_entry(
        &mut self,
        dir_cluster: u32,
        slot: usize,
        name83: &[u8; 11],
        attr: u8,
        first_cluster: u32,
        size: u32,
    ) {
        let off = self.cluster_off(dir_cluster) + 32 * slot;
        self.bytes[off..off + 11].copy_from_slice(name83);
        self.bytes[off + 11] = attr;
        let hi = (first_cluster >> 16) as u16;
        let lo = (first_cluster & 0xFFFF) as u16;
        self.bytes[off + 20..off + 22].copy_from_slice(&hi.to_le_bytes());
        self.bytes[off + 26..off + 28].copy_from_slice(&lo.to_le_bytes());
        self.bytes[off + 28..off + 32].copy_from_slice(&size.to_le_bytes());
    }

    /// Appends one long-name record carrying up to 13 characters.
    pub fn add_lfn_entry(&mut self, dir_cluster: u32, slot: usize, order: u8, name: &str) {
        let off = self.cluster_off(dir_cluster) + 32 * slot;
        self.bytes[off] = order;
        self.bytes[off + 11] = 0x0F;
        let positions = [1, 3, 5, 7, 9, 14, 16, 18, 20, 22, 24, 28, 30];
        let units: Vec<u16> = name.chars().map(|c| c as u16).collect();
        for (k, pos) in positions.iter().enumerate() {
            let u: u16 = if k < units.len() {
                units[k]
            } else if k == units.len() {
                0
            } else {
                0xFFFF
            };
            self.bytes[off + pos..off + pos + 2].copy_from_slice(&u.to_le_bytes());
        }
    }

    pub fn device(self, id: u64, name: &str) -> Device {
        Device { id, name: name.to_string(), device_type: DeviceType::Storage, content: self.bytes }
    }
}

pub fn image_with_file(path_name: &str, content: &[u8]) -> ImageBuilder {
    // the file lives in the root directory under a long name
    let mut b = ImageBuilder::new(64);
    b.add_lfn_entry(2, 0, 0x41, path_name);
    b.add_short_entry(2, 1, b"FILE    BIN", 0x20, 3, content.len() as u32);
    let mut cluster = 3u32;
    let mut rest = content;
    loop {
        let take = rest.len().min(512);
        b.write_cluster(cluster, &rest[..take]);
        rest = &rest[take..];
        if rest.is_empty() {
            b.set_fat(cluster, 0x0FFF_FFFF);
            break;
        }
        b.set_fat(cluster, cluster + 1);
        cluster += 1;
    }
    b
}

#[test]
fn detect_accepts_a_sane_boot_sector_and_refuses_flipped_signatures() {
    let driver = Fat32Driver::new();
    let good = ImageBuilder::new(8).device(1, "disk0");
    assert!(driver.detect_fat32(&good));

    let mut flipped_low = ImageBuilder::new(8);
    flipped_low.bytes[510] = 0x54;
    assert!(!driver.detect_fat32(&flipped_low.device(2, "disk1")));

    let mut flipped_high = ImageBuilder::new(8);
    flipped_high.bytes[511] = 0xAB;
    assert!(!driver.detect_fat32(&flipped_high.device(3, "disk2")));

    let mut wrong_type = ImageBuilder::new(8);
    wrong_type.bytes[82..90].copy_from_slice(b"FAT16   ");
    assert!(!driver.detect_fat32(&wrong_type.device(4, "disk3")));

    let mut bad_bps = ImageBuilder::new(8);
    bad_bps.bytes[11] = 0x34;
    bad_bps.bytes[12] = 0x12;
    assert!(!driver.detect_fat32(&bad_bps.device(5, "disk4")));

    let mut bad_spc = ImageBuilder::new(8);
    bad_spc.bytes[13] = 3;
    assert!(!driver.detect_fat32(&bad_spc.device(6, "disk5")));
}

#[test]
fn read_file_concatenates_the_cluster_chain_up_to_the_size() {
    let driver = Fat32Driver::new();
    let mut content = Vec::new();
    for i in 0..1300usize {
        content.push((i % 251) as u8);
    }
    let dev = image_with_file("kernel.elf", &content).device(1, "disk0");
    let inst = driver.mount_fat32(&dev, "vol-1-disk0-fat32", true).expect("mounts");
    let data = inst.read_file_bytes("/kernel.elf").expect("reads");
    assert_eq!(data, content);
    // case-insensitive match through the long name
    assert!(inst.read_file_bytes("/KERNEL.ELF").is_ok());
    // the long name shadows the 8.3 record of the same entry
    assert!(matches!(inst.read_file_bytes("/file.bin"), Err(FilesystemError::NotFound)));
    assert!(matches!(inst.read_file_bytes("/missing"), Err(FilesystemError::NotFound)));
}

#[test]
fn long_names_carry_utf8_text() {
    let driver = Fat32Driver::new();
    let dev = image_with_file("caf\u{e9}.txt", b"au lait").device(1, "disk0");
    let inst = driver.mount_fat32(&dev, "v", true).expect("mounts");
    assert_eq!(inst.read_file_bytes("/caf\u{e9}.txt").expect("reads"), b"au lait");
    let entries = inst.list_directory_entries("/").expect("lists");
    assert_eq!(entries[0].name, "caf\u{e9}.txt");
}

#[test]
fn subdirectories_resolve_component_by_component() {
    let driver = Fat32Driver::new();
    let mut b = ImageBuilder::new(64);
    // /LBL directory at cluster 3, config at cluster 4
    b.add_short_entry(2, 0, b"LBL        ", 0x10, 3, 0);
    b.set_fat(3, 0x0FFF_FFFF);
    b.add_lfn_entry(3, 0, 0x41, "config.json");
    b.add_short_entry(3, 1, b"CONFIG  JSO", 0x20, 4, 2);
    b.set_fat(4, 0x0FFF_FFFF);
    b.write_cluster(4, b"{}");
    let dev = b.device(1, "disk0");
    let inst = driver.mount_fat32(&dev, "vol-1-disk0-fat32", true).expect("mounts");
    assert_eq!(inst.read_file_bytes("/LBL/config.json").expect("reads"), b"{}");
    assert!(matches!(
        inst.read_file_bytes("/LBL"),
        Err(FilesystemError::NotAFile)
    ));
    assert!(matches!(
        inst.read_file_bytes("/LBL/config.json/extra"),
        Err(FilesystemError::NotADirectory)
    ));
}

#[test]
fn list_directory_collapses_long_name_runs() {
    let driver = Fat32Driver::new();
    let mut b = ImageBuilder::new(64);
    b.add_lfn_entry(2, 0, 0x41, "config.json");
    b.add_short_entry(2, 1, b"CONFIG  JSO", 0x20, 3, 2);
    b.add_short_entry(2, 2, b"BOOT       ", 0x10, 4, 0);
    b.set_fat(3, 0x0FFF_FFFF);
    b.write_cluster(3, b"{}");
    let dev = b.device(1, "disk0");
    let inst = driver.mount_fat32(&dev, "vol-1-disk0-fat32", true).expect("mounts");
    let entries = inst.list_directory_entries("/").expect("lists");
    assert_eq!(entries.len(), 2);
    assert_eq!(entries[0].name, "config.json");
    assert_eq!(entries[0].entry_type, EntryType::File);
    assert_eq!(entries[1].name, "BOOT");
    assert_eq!(entries[1].entry_type, EntryType::Directory);
}

#[test]
fn metadata_reports_size_and_kind() {
    let driver = Fat32Driver::new();
    let dev = image_with_file("a.bin", &[1, 2, 3]).device(1, "disk0");
    let inst = driver.mount_fat32(&dev, "v", true).expect("mounts");
    let m = inst.metadata_of("/a.bin").expect("stats");
    assert_eq!(m.size, 3);
    assert_eq!(m.entry_type, EntryType::File);
    let root = inst.metadata_of("/").expect("stats the root");
    assert_eq!(root.entry_type, EntryType::Directory);
    assert!(matches!(inst.exists_path("/a.bin"), Ok(true)));
    assert!(matches!(inst.exists_path("/b.bin"), Ok(false)));
    assert!(inst.is_read_only());
}

#[test]
fn mount_refuses_unrecognized_and_implausible_media() {
    let driver = Fat32Driver::new();
    let empty = Device {
        id: 1,
        name: "null0".to_string(),
        device_type: DeviceType::Storage,
        content: vec![0; 4096],
    };
    assert!(matches!(
        driver.mount_fat32(&empty, "v", true),
        Err(FilesystemError::Unsupported)
    ));
    let mut bad_root = ImageBuilder::new(8);
    bad_root.bytes[44] = 0; // root cluster below 2
    assert!(matches!(
        driver.mount_fat32(&bad_root.device(2, "disk1"), "v", true),
        Err(FilesystemError::CorruptedFs)
    ));
}
