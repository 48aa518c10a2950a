use lionbootloader_core::config::parser::parse_config_json;
use lionbootloader_core::menu::MenuState;
use lionbootloader_core::menu::compute_display_order;
use lionbootloader_core::plugins::PluginError;
use lionbootloader_core::plugins::PluginManager;
use lionbootloader_core::plugins::PluginType;
use lionbootloader_core::fs::initialize_manager;
use lionbootloader_core::hal::EfiMemoryDescriptorRaw;
use lionbootloader_core::hal::HalServices;
use lionbootloader_core::hal::LBL_BOOT_INFO_MAGIC;
use lionbootloader_core::hal::LBL_BOOT_INFO_VERSION;
use lionbootloader_core::hal::LblBootInfoRaw;
use lionbootloader_core::hal::initialize;

fn hal() -> HalServices {
    let raw = LblBootInfoRaw {
        magic: LBL_BOOT_INFO_MAGIC,
        version: LBL_BOOT_INFO_VERSION,
        header_size: 128,
        total_size: 128,
        core_load_addr: 0x10_0000,
        core_size: 0x8_0000,
        core_entry_offset: 0,
        memory_map_ptr: 0x2000,
        memory_map_size: 48,
        memory_map_key: 7,
        memory_descriptor_size: 48,
        memory_descriptor_version: 1,
        framebuffer_addr: 0xE000_0000,
        framebuffer_size: 0x7E9000,
        framebuffer_width: 1024,
        framebuffer_height: 768,
        framebuffer_pitch: 4096,
        framebuffer_bpp: 32,
        framebuffer_pixel_format_info: 0,
        reserved_graphics: 0,
        acpi_rsdp_ptr: 0,
        efi_system_table_ptr: 0,
        reserved1: 0,
        reserved2: 0,
    };
    let map = vec![EfiMemoryDescriptorRaw {
        descriptor_type: 7,
        physical_start: 0,
        virtual_start: 0,
        number_of_pages: 0x8000,
        attribute: 0xF,
    }];
    initialize(Some(raw), map, false).expect("valid handoff")
}

#[test]
fn timeout_boots_the_default_entry() {
    let c = parse_config_json(
        "{\"timeout_ms\":1000,\"entries\":[{\"id\":\"unsafe\",\"title\":\"U\",\"kernel\":\"/u\"},{\"id\":\"safe\",\"title\":\"S\",\"kernel\":\"/s\"}],\"advanced\":{\"default_boot_entry_id\":\"safe\"}}",
    )
    .expect("parses");
    let menu = MenuState::new(&c, 0);
    assert!(menu.tick(999).is_none());
    let chosen = menu.tick(1000).expect("the countdown elapsed");
    assert_eq!(c.entries[chosen].id, "safe");
    let chosen_later = menu.tick(5000).expect("still elapsed");
    assert_eq!(c.entries[chosen_later].id, "safe");
}

#[test]
fn navigation_cancels_the_countdown() {
    let c = parse_config_json(
        "{\"timeout_ms\":1000,\"entries\":[{\"id\":\"a\",\"title\":\"A\",\"kernel\":\"/a\"},{\"id\":\"b\",\"title\":\"B\",\"kernel\":\"/b\"}]}",
    )
    .expect("parses");
    let mut menu = MenuState::new(&c, 0);
    menu.select_next();
    assert!(menu.tick(10_000).is_none());
    assert_eq!(c.entries[menu.current_entry()].id, "b");
    menu.select_prev();
    assert_eq!(c.entries[menu.current_entry()].id, "a");
}

#[test]
fn a_disabled_countdown_never_fires() {
    let c = parse_config_json(
        "{\"entries\":[{\"id\":\"a\",\"title\":\"A\",\"kernel\":\"/a\"}],\"advanced\":{\"show_countdown\":false}}",
    )
    .expect("parses");
    let menu = MenuState::new(&c, 0);
    assert!(menu.tick(u64::MAX).is_none());
}

#[test]
fn display_order_honours_order_values_then_ids() {
    let c = parse_config_json(
        "{\"entries\":[\
            {\"id\":\"zeta\",\"title\":\"Z\",\"kernel\":\"/z\",\"order\":5},\
            {\"id\":\"beta\",\"title\":\"B\",\"kernel\":\"/b\",\"order\":1},\
            {\"id\":\"alpha\",\"title\":\"A\",\"kernel\":\"/a\",\"order\":1}\
        ]}",
    )
    .expect("parses");
    let order = compute_display_order(&c.entries);
    let ids: Vec<&str> = order.iter().map(|i| c.entries[*i].id.as_str()).collect();
    assert_eq!(ids, vec!["alpha", "beta", "zeta"]);
}

#[test]
fn order_less_entries_keep_the_file_order() {
    let c = parse_config_json(
        "{\"entries\":[\
            {\"id\":\"zeta\",\"title\":\"Z\",\"kernel\":\"/z\"},\
            {\"id\":\"beta\",\"title\":\"B\",\"kernel\":\"/b\"},\
            {\"id\":\"alpha\",\"title\":\"A\",\"kernel\":\"/a\"}\
        ]}",
    )
    .expect("parses");
    let order = compute_display_order(&c.entries);
    let ids: Vec<&str> = order.iter().map(|i| c.entries[*i].id.as_str()).collect();
    // without order values the menu shows the configuration file's order
    assert_eq!(ids, vec!["zeta", "beta", "alpha"]);
}

#[test]
fn an_explicit_order_value_overrides_the_file_order() {
    let c = parse_config_json(
        "{\"entries\":[\
            {\"id\":\"late\",\"title\":\"L\",\"kernel\":\"/l\"},\
            {\"id\":\"early\",\"title\":\"E\",\"kernel\":\"/e\",\"order\":0}\
        ]}",
    )
    .expect("parses");
    let order = compute_display_order(&c.entries);
    let ids: Vec<&str> = order.iter().map(|i| c.entries[*i].id.as_str()).collect();
    assert_eq!(ids, vec!["early", "late"]);
}

#[test]
fn plugins_activate_known_drivers_and_refuse_the_rest() {
    let hal = hal();
    let reader = initialize_manager(&hal);
    let mut target = initialize_manager(&hal);
    let mut plugins = PluginManager::new();
    let name = plugins
        .load_plugin_from_path("lblfs_fat32.lblfs", &reader, &mut target)
        .expect("the built-in driver activates");
    assert_eq!(name, "lblfs_fat32_driver");
    assert_eq!(plugins.list_loaded_plugins().len(), 1);
    assert_eq!(plugins.list_loaded_plugins()[0].plugin_type, PluginType::Filesystem);
    assert_eq!(plugins.list_loaded_plugins()[0].version, "0.1.0");

    match plugins.load_plugin_from_path("lblfs_zfs.lblfs", &reader, &mut target) {
        Err(PluginError::NotFound(n)) => assert_eq!(n, "lblfs_zfs_driver"),
        _ => panic!("expected the unknown plugin to be refused"),
    }
    match plugins.load_plugin_from_path("theme.bin", &reader, &mut target) {
        Err(PluginError::UnsupportedType(n)) => assert_eq!(n, "theme.bin"),
        _ => panic!("expected the unsupported extension to be refused"),
    }
    assert_eq!(plugins.list_loaded_plugins().len(), 1);
}
