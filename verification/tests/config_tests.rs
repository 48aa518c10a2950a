use lionbootloader_core::config::ConfigError;
use lionbootloader_core::config::parser::parse_config_json;
use lionbootloader_core::config::parser::validate_parsed_config;
use lionbootloader_core::config::schema_types::ArchitectureType;
use lionbootloader_core::config::schema_types::BootEntryType;
use lionbootloader_core::config::schema_types::LogLevel;
use lionbootloader_core::config::schema_types::ProgressBarVisualStyle;

#[test]
fn minimal_config_takes_every_documented_default() {
    let c = parse_config_json("{\"entries\":[{\"id\":\"a\",\"title\":\"A\",\"kernel\":\"/k\"}]}")
        .expect("the minimal configuration parses");
    assert_eq!(c.timeout_ms, 5000);
    assert_eq!(c.advanced.log_level, LogLevel::Info);
    assert!(c.advanced.enable_mouse);
    assert!(c.advanced.show_countdown);
    assert!(!c.advanced.debug_shell);
    assert!(!c.advanced.enable_network_boot);
    assert!(!c.advanced.enable_touch);
    assert_eq!(c.advanced.resolution, "auto");
    assert_eq!(c.advanced.progress_bar_style, ProgressBarVisualStyle::Modern);
    assert!(c.advanced.default_boot_entry_id.is_none());
    assert_eq!(c.plugins.len(), 0);
    assert_eq!(c.entries.len(), 1);
    let e = &c.entries[0];
    assert_eq!(e.id, "a");
    assert_eq!(e.title, "A");
    assert_eq!(e.kernel, "/k");
    assert_eq!(e.cmdline, "");
    assert!(!e.secure);
    assert_eq!(e.entry_type, BootEntryType::KernelDirect);
    assert_eq!(e.architecture, Some(ArchitectureType::Any));
    assert!(e.initrd.is_none());
    assert!(e.order.is_none());
}

#[test]
fn duplicate_entry_ids_fail_with_the_duplicate_named() {
    let r = parse_config_json(
        "{\"entries\":[{\"id\":\"a\",\"title\":\"A\",\"kernel\":\"/k\"},{\"id\":\"a\",\"title\":\"B\",\"kernel\":\"/k2\"}]}",
    );
    match r {
        Err(ConfigError::LogicError(m)) => assert_eq!(m, "duplicate id: a"),
        _ => panic!("expected a logic error naming the duplicate id"),
    }
}

#[test]
fn unresolved_default_entry_fails_as_logic() {
    let r = parse_config_json(
        "{\"entries\":[{\"id\":\"a\",\"title\":\"A\",\"kernel\":\"/k\"}],\"advanced\":{\"default_boot_entry_id\":\"x\"}}",
    );
    match r {
        Err(ConfigError::LogicError(m)) => assert_eq!(m, "unknown default boot entry id: x"),
        _ => panic!("expected a logic error naming the unknown default id"),
    }
}

#[test]
fn empty_entry_list_is_a_logic_error() {
    match parse_config_json("{\"entries\":[]}") {
        Err(ConfigError::LogicError(m)) => assert_eq!(m, "no boot entries"),
        _ => panic!("expected a logic error for an empty entry list"),
    }
}

#[test]
fn malformed_json_is_an_invalid_format_error() {
    match parse_config_json("{\"entries\":") {
        Err(ConfigError::InvalidFormat(m)) => assert_eq!(m, "json"),
        _ => panic!("expected an invalid-format error"),
    }
}

#[test]
fn missing_entries_field_is_a_validation_error() {
    match parse_config_json("{}") {
        Err(ConfigError::ValidationError(m)) => assert_eq!(m, "entries"),
        _ => panic!("expected a validation error for the entry list"),
    }
}

#[test]
fn colors_must_be_hex_strings() {
    let bad = parse_config_json(
        "{\"theme\":{\"background\":\"red\",\"accent\":\"#FFFFFF\"},\"entries\":[{\"id\":\"a\",\"title\":\"A\",\"kernel\":\"/k\"}]}",
    );
    match bad {
        Err(ConfigError::LogicError(m)) => assert_eq!(m, "invalid color: red"),
        _ => panic!("expected a color complaint"),
    }
    let ok = parse_config_json(
        "{\"theme\":{\"background\":\"#11223344\",\"accent\":\"#FFFFFF\"},\"entries\":[{\"id\":\"a\",\"title\":\"A\",\"kernel\":\"/k\"}]}",
    );
    assert!(ok.is_ok());
}

#[test]
fn fields_are_decoded_exactly() {
    let c = parse_config_json(
        "{\"timeout_ms\":1000,\"entries\":[{\"id\":\"safe\",\"title\":\"Safe\",\"kernel\":\"/vmlinuz\",\"initrd\":\"/initrd.img\",\"cmdline\":\"root=/dev/sda2\",\"order\":2,\"secure\":true,\"type\":\"uefi_chainload\",\"architecture\":\"riscv64\"}],\"plugins\":[\"lblfs_fat32.lblfs\"],\"advanced\":{\"log_level\":\"trace\",\"progress_bar_style\":\"dots\",\"default_boot_entry_id\":\"safe\",\"show_countdown\":false}}",
    )
    .expect("the full configuration parses");
    assert_eq!(c.timeout_ms, 1000);
    let e = &c.entries[0];
    assert_eq!(e.initrd.as_deref(), Some("/initrd.img"));
    assert_eq!(e.cmdline, "root=/dev/sda2");
    assert_eq!(e.order, Some(2));
    assert!(e.secure);
    assert_eq!(e.entry_type, BootEntryType::UefiChainload);
    assert_eq!(e.architecture, Some(ArchitectureType::Riscv64));
    assert_eq!(c.plugins, vec!["lblfs_fat32.lblfs".to_string()]);
    assert_eq!(c.advanced.log_level, LogLevel::Trace);
    assert_eq!(c.advanced.progress_bar_style, ProgressBarVisualStyle::Dots);
    assert_eq!(c.advanced.default_boot_entry_id.as_deref(), Some("safe"));
    assert!(!c.advanced.show_countdown);
}

#[test]
fn wrong_field_types_are_validation_errors() {
    match parse_config_json("{\"timeout_ms\":\"soon\",\"entries\":[]}") {
        Err(ConfigError::ValidationError(m)) => assert_eq!(m, "timeout_ms"),
        _ => panic!("expected a validation error for the timeout"),
    }
    match parse_config_json(
        "{\"entries\":[{\"id\":\"a\",\"title\":\"A\",\"kernel\":\"/k\",\"type\":\"magic\"}]}",
    ) {
        Err(ConfigError::ValidationError(m)) => assert_eq!(m, "type"),
        _ => panic!("expected a validation error for the entry type"),
    }
}

#[test]
fn empty_kernel_path_on_direct_entry_is_refused() {
    match parse_config_json("{\"entries\":[{\"id\":\"a\",\"title\":\"A\",\"kernel\":\"\"}]}") {
        Err(ConfigError::LogicError(m)) => assert_eq!(m, "empty kernel path: a"),
        _ => panic!("expected a logic error for the empty kernel path"),
    }
}

#[test]
fn validate_accepts_a_decoded_config() {
    let c = parse_config_json("{\"entries\":[{\"id\":\"a\",\"title\":\"A\",\"kernel\":\"/k\"}]}")
        .expect("parses");
    assert!(validate_parsed_config(&c).is_ok());
}
