//! Decoding a JSON document into an [`LblConfig`] and validating it.
//!
//! The shape rules (which fields exist, their types, the default for each
//! absent field) and the logical rules (entries non-empty, ids unique, the
//! default entry resolves, kernel paths non-empty, colors well-formed) are
//! each stated once as specification functions; the executable decoder is
//! proved to return exactly their verdict.

use vstd::prelude::*;
use super::ConfigError;
use super::ConfigErrorRep;
use super::schema_types::AdvancedRep;
use super::schema_types::AdvancedSettings;
use super::schema_types::ArchitectureType;
use super::schema_types::BootEntry;
use super::schema_types::BootEntryType;
use super::schema_types::ConfigRep;
use super::schema_types::EntryRep;
use super::schema_types::LblConfig;
use super::schema_types::LogLevel;
use super::schema_types::ProgressBarVisualStyle;
use super::schema_types::Theme;
use super::schema_types::ThemeRep;
use super::schema_types::default_theme;
use super::schema_types::spec_default_advanced;
use super::schema_types::spec_default_theme;
use crate::json::JsonRep;
use crate::json::JsonValue;
use crate::json::get_member;
use crate::json::member_reps_of;
use crate::json::obj_get;
use crate::json::reps_of;
use crate::json::lemma_reps_of;
use crate::json::spec_parse_json;
use crate::json::parse_json;
use crate::util::str_eq;
use vstd::string::StringSliceAdditionalSpecFns;

verus! {

/// A required string field: present with a string value, or refused under
/// the field's name.
pub open spec fn spec_req_str(ms: Seq<(Seq<char>, JsonRep)>, key: Seq<char>) -> Result<
    Seq<char>,
    ConfigErrorRep,
> {
    match obj_get(ms, key) {
        Some(JsonRep::Str(s)) => Ok(s),
        _ => Err(ConfigErrorRep::ValidationError(key)),
    }
}

/// An optional string field: absent or null means none.
pub open spec fn spec_opt_str(ms: Seq<(Seq<char>, JsonRep)>, key: Seq<char>) -> Result<
    Option<Seq<char>>,
    ConfigErrorRep,
> {
    match obj_get(ms, key) {
        None => Ok(None),
        Some(JsonRep::Null) => Ok(None),
        Some(JsonRep::Str(s)) => Ok(Some(s)),
        Some(_) => Err(ConfigErrorRep::ValidationError(key)),
    }
}

/// A string field with a default for an absent one.
pub open spec fn spec_str_or(
    ms: Seq<(Seq<char>, JsonRep)>,
    key: Seq<char>,
    dflt: Seq<char>,
) -> Result<Seq<char>, ConfigErrorRep> {
    match obj_get(ms, key) {
        None => Ok(dflt),
        Some(JsonRep::Str(s)) => Ok(s),
        Some(_) => Err(ConfigErrorRep::ValidationError(key)),
    }
}

/// A boolean field with a default for an absent one.
pub open spec fn spec_bool_or(ms: Seq<(Seq<char>, JsonRep)>, key: Seq<char>, dflt: bool) -> Result<
    bool,
    ConfigErrorRep,
> {
    match obj_get(ms, key) {
        None => Ok(dflt),
        Some(JsonRep::Bool(b)) => Ok(b),
        Some(_) => Err(ConfigErrorRep::ValidationError(key)),
    }
}

/// An unsigned 32-bit field with a default for an absent one.
pub open spec fn spec_u32_or(ms: Seq<(Seq<char>, JsonRep)>, key: Seq<char>, dflt: u32) -> Result<
    u32,
    ConfigErrorRep,
> {
    match obj_get(ms, key) {
        None => Ok(dflt),
        Some(JsonRep::Int(n)) => if 0 <= n <= u32::MAX {
            Ok(n as u32)
        } else {
            Err(ConfigErrorRep::ValidationError(key))
        },
        Some(_) => Err(ConfigErrorRep::ValidationError(key)),
    }
}

/// An optional signed 32-bit field.
pub open spec fn spec_opt_i32(ms: Seq<(Seq<char>, JsonRep)>, key: Seq<char>) -> Result<
    Option<int>,
    ConfigErrorRep,
> {
    match obj_get(ms, key) {
        None => Ok(None),
        Some(JsonRep::Null) => Ok(None),
        Some(JsonRep::Int(n)) => if i32::MIN <= n <= i32::MAX {
            Ok(Some(n))
        } else {
            Err(ConfigErrorRep::ValidationError(key))
        },
        Some(_) => Err(ConfigErrorRep::ValidationError(key)),
    }
}

/// The boot entry type a tag names.
pub open spec fn spec_entry_type_of(s: Seq<char>) -> Option<BootEntryType> {
    if s == "kernel_direct"@ {
        Some(BootEntryType::KernelDirect)
    } else if s == "uefi_chainload"@ {
        Some(BootEntryType::UefiChainload)
    } else if s == "uefi_application"@ {
        Some(BootEntryType::UefiApplication)
    } else if s == "internal_tool"@ {
        Some(BootEntryType::InternalTool)
    } else {
        None
    }
}

/// The architecture a tag names.
pub open spec fn spec_arch_of(s: Seq<char>) -> Option<ArchitectureType> {
    if s == "x86"@ {
        Some(ArchitectureType::X86)
    } else if s == "x86_64"@ {
        Some(ArchitectureType::X86_64)
    } else if s == "arm"@ {
        Some(ArchitectureType::Arm)
    } else if s == "aarch64"@ {
        Some(ArchitectureType::Aarch64)
    } else if s == "riscv32"@ {
        Some(ArchitectureType::Riscv32)
    } else if s == "riscv64"@ {
        Some(ArchitectureType::Riscv64)
    } else if s == "powerpc"@ {
        Some(ArchitectureType::Powerpc)
    } else if s == "mips"@ {
        Some(ArchitectureType::Mips)
    } else if s == "any"@ {
        Some(ArchitectureType::Any)
    } else {
        None
    }
}

/// The log level a tag names.
pub open spec fn spec_log_level_of(s: Seq<char>) -> Option<LogLevel> {
    if s == "none"@ {
        Some(LogLevel::Off)
    } else if s == "error"@ {
        Some(LogLevel::Error)
    } else if s == "warn"@ {
        Some(LogLevel::Warn)
    } else if s == "info"@ {
        Some(LogLevel::Info)
    } else if s == "debug"@ {
        Some(LogLevel::Debug)
    } else if s == "trace"@ {
        Some(LogLevel::Trace)
    } else {
        None
    }
}

/// The progress bar style a tag names.
pub open spec fn spec_style_of(s: Seq<char>) -> Option<ProgressBarVisualStyle> {
    if s == "classic"@ {
        Some(ProgressBarVisualStyle::Classic)
    } else if s == "modern"@ {
        Some(ProgressBarVisualStyle::Modern)
    } else if s == "minimal"@ {
        Some(ProgressBarVisualStyle::Minimal)
    } else if s == "dots"@ {
        Some(ProgressBarVisualStyle::Dots)
    } else {
        None
    }
}

/// Decodes one boot entry object.
pub open spec fn spec_decode_entry(r: JsonRep) -> Result<EntryRep, ConfigErrorRep> {
    match r {
        JsonRep::Obj(ms) => match spec_req_str(ms, "id"@) {
            Err(e) => Err(e),
            Ok(id) => match spec_req_str(ms, "title"@) {
                Err(e) => Err(e),
                Ok(title) => match spec_req_str(ms, "kernel"@) {
                    Err(e) => Err(e),
                    Ok(kernel) => match spec_opt_str(ms, "initrd"@) {
                        Err(e) => Err(e),
                        Ok(initrd) => match spec_str_or(ms, "cmdline"@, ""@) {
                            Err(e) => Err(e),
                            Ok(cmdline) => match spec_opt_i32(ms, "order"@) {
                                Err(e) => Err(e),
                                Ok(order) => match spec_bool_or(ms, "secure"@, false) {
                                    Err(e) => Err(e),
                                    Ok(secure) => match spec_opt_str(ms, "icon"@) {
                                        Err(e) => Err(e),
                                        Ok(icon) => match spec_entry_type_field(ms) {
                                            Err(e) => Err(e),
                                            Ok(entry_type) => match spec_opt_str(
                                                ms,
                                                "volume_id"@,
                                            ) {
                                                Err(e) => Err(e),
                                                Ok(volume_id) => match spec_arch_field(ms) {
                                                    Err(e) => Err(e),
                                                    Ok(architecture) => Ok(
                                                        EntryRep {
                                                            id,
                                                            title,
                                                            kernel,
                                                            initrd,
                                                            cmdline,
                                                            order,
                                                            secure,
                                                            icon,
                                                            entry_type,
                                                            volume_id,
                                                            architecture,
                                                        },
                                                    ),
                                                },
                                            },
                                        },
                                    },
                                },
                            },
                        },
                    },
                },
            },
        },
        _ => Err(ConfigErrorRep::ValidationError("entry"@)),
    }
}

/// The `type` field of an entry; absent means kernel-direct.
pub open spec fn spec_entry_type_field(ms: Seq<(Seq<char>, JsonRep)>) -> Result<
    BootEntryType,
    ConfigErrorRep,
> {
    match obj_get(ms, "type"@) {
        None => Ok(BootEntryType::KernelDirect),
        Some(JsonRep::Str(s)) => match spec_entry_type_of(s) {
            Some(t) => Ok(t),
            None => Err(ConfigErrorRep::ValidationError("type"@)),
        },
        Some(_) => Err(ConfigErrorRep::ValidationError("type"@)),
    }
}

/// The `architecture` field of an entry; absent means any, null means no
/// constraint recorded.
pub open spec fn spec_arch_field(ms: Seq<(Seq<char>, JsonRep)>) -> Result<
    Option<ArchitectureType>,
    ConfigErrorRep,
> {
    match obj_get(ms, "architecture"@) {
        None => Ok(Some(ArchitectureType::Any)),
        Some(JsonRep::Null) => Ok(None),
        Some(JsonRep::Str(s)) => match spec_arch_of(s) {
            Some(a) => Ok(Some(a)),
            None => Err(ConfigErrorRep::ValidationError("architecture"@)),
        },
        Some(_) => Err(ConfigErrorRep::ValidationError("architecture"@)),
    }
}

/// Decodes the entry list elementwise, first error wins.
pub open spec fn spec_decode_entries(items: Seq<JsonRep>) -> Result<Seq<EntryRep>, ConfigErrorRep>
    decreases items.len(),
{
    if items.len() == 0 {
        Ok(Seq::empty())
    } else {
        match spec_decode_entry(items[0]) {
            Err(e) => Err(e),
            Ok(r) => match spec_decode_entries(items.drop_first()) {
                Err(e) => Err(e),
                Ok(rs) => Ok(seq![r] + rs),
            },
        }
    }
}

/// Decodes the plugin list: an array of strings.
pub open spec fn spec_decode_plugin_items(items: Seq<JsonRep>) -> Result<
    Seq<Seq<char>>,
    ConfigErrorRep,
>
    decreases items.len(),
{
    if items.len() == 0 {
        Ok(Seq::empty())
    } else {
        match items[0] {
            JsonRep::Str(s) => match spec_decode_plugin_items(items.drop_first()) {
                Err(e) => Err(e),
                Ok(rs) => Ok(seq![s] + rs),
            },
            _ => Err(ConfigErrorRep::ValidationError("plugins"@)),
        }
    }
}

/// Decodes the custom-properties object: every value a string.
pub open spec fn spec_decode_prop_members(ms: Seq<(Seq<char>, JsonRep)>) -> Result<
    Seq<(Seq<char>, Seq<char>)>,
    ConfigErrorRep,
>
    decreases ms.len(),
{
    if ms.len() == 0 {
        Ok(Seq::empty())
    } else {
        match ms[0].1 {
            JsonRep::Str(s) => match spec_decode_prop_members(ms.drop_first()) {
                Err(e) => Err(e),
                Ok(rs) => Ok(seq![(ms[0].0, s)] + rs),
            },
            _ => Err(ConfigErrorRep::ValidationError("custom_properties"@)),
        }
    }
}

/// Decodes the theme; an absent theme takes the default.
pub open spec fn spec_decode_theme(o: Option<JsonRep>) -> Result<ThemeRep, ConfigErrorRep> {
    match o {
        None => Ok(spec_default_theme()),
        Some(JsonRep::Obj(ms)) => match spec_req_str(ms, "background"@) {
            Err(e) => Err(e),
            Ok(background) => match spec_req_str(ms, "accent"@) {
                Err(e) => Err(e),
                Ok(accent) => match spec_opt_str(ms, "font"@) {
                    Err(e) => Err(e),
                    Ok(font) => match obj_get(ms, "custom_properties"@) {
                        None => Ok(
                            ThemeRep { background, accent, font, custom_properties: Seq::empty() },
                        ),
                        Some(JsonRep::Obj(pms)) => match spec_decode_prop_members(pms) {
                            Err(e) => Err(e),
                            Ok(props) => Ok(
                                ThemeRep { background, accent, font, custom_properties: props },
                            ),
                        },
                        Some(_) => Err(ConfigErrorRep::ValidationError("custom_properties"@)),
                    },
                },
            },
        },
        Some(_) => Err(ConfigErrorRep::ValidationError("theme"@)),
    }
}

/// Decodes the advanced block; an absent block takes the defaults.
pub open spec fn spec_decode_advanced(o: Option<JsonRep>) -> Result<AdvancedRep, ConfigErrorRep> {
    match o {
        None => Ok(spec_default_advanced()),
        Some(JsonRep::Obj(ms)) => match spec_bool_or(ms, "debug_shell"@, false) {
            Err(e) => Err(e),
            Ok(debug_shell) => match spec_log_level_field(ms) {
                Err(e) => Err(e),
                Ok(log_level) => match spec_bool_or(ms, "enable_network_boot"@, false) {
                    Err(e) => Err(e),
                    Ok(enable_network_boot) => match spec_opt_str(ms, "default_boot_entry_id"@) {
                        Err(e) => Err(e),
                        Ok(default_boot_entry_id) => match spec_str_or(
                            ms,
                            "resolution"@,
                            "auto"@,
                        ) {
                            Err(e) => Err(e),
                            Ok(resolution) => match spec_bool_or(ms, "show_countdown"@, true) {
                                Err(e) => Err(e),
                                Ok(show_countdown) => match spec_style_field(ms) {
                                    Err(e) => Err(e),
                                    Ok(progress_bar_style) => match spec_bool_or(
                                        ms,
                                        "enable_mouse"@,
                                        true,
                                    ) {
                                        Err(e) => Err(e),
                                        Ok(enable_mouse) => match spec_bool_or(
                                            ms,
                                            "enable_touch"@,
                                            false,
                                        ) {
                                            Err(e) => Err(e),
                                            Ok(enable_touch) => Ok(
                                                AdvancedRep {
                                                    debug_shell,
                                                    log_level,
                                                    enable_network_boot,
                                                    default_boot_entry_id,
                                                    resolution,
                                                    show_countdown,
                                                    progress_bar_style,
                                                    enable_mouse,
                                                    enable_touch,
                                                },
                                            ),
                                        },
                                    },
                                },
                            },
                        },
                    },
                },
            },
        },
        Some(_) => Err(ConfigErrorRep::ValidationError("advanced"@)),
    }
}

/// The `log_level` field; absent means info.
pub open spec fn spec_log_level_field(ms: Seq<(Seq<char>, JsonRep)>) -> Result<
    LogLevel,
    ConfigErrorRep,
> {
    match obj_get(ms, "log_level"@) {
        None => Ok(LogLevel::Info),
        Some(JsonRep::Str(s)) => match spec_log_level_of(s) {
            Some(l) => Ok(l),
            None => Err(ConfigErrorRep::ValidationError("log_level"@)),
        },
        Some(_) => Err(ConfigErrorRep::ValidationError("log_level"@)),
    }
}

/// The `progress_bar_style` field; absent means modern.
pub open spec fn spec_style_field(ms: Seq<(Seq<char>, JsonRep)>) -> Result<
    ProgressBarVisualStyle,
    ConfigErrorRep,
> {
    match obj_get(ms, "progress_bar_style"@) {
        None => Ok(ProgressBarVisualStyle::Modern),
        Some(JsonRep::Str(s)) => match spec_style_of(s) {
            Some(l) => Ok(l),
            None => Err(ConfigErrorRep::ValidationError("progress_bar_style"@)),
        },
        Some(_) => Err(ConfigErrorRep::ValidationError("progress_bar_style"@)),
    }
}

/// Decodes the root object of a configuration document.
pub open spec fn spec_decode_config(r: JsonRep) -> Result<ConfigRep, ConfigErrorRep> {
    match r {
        JsonRep::Obj(ms) => match spec_u32_or(ms, "timeout_ms"@, 5000) {
            Err(e) => Err(e),
            Ok(timeout_ms) => match spec_decode_theme(obj_get(ms, "theme"@)) {
                Err(e) => Err(e),
                Ok(theme) => match obj_get(ms, "entries"@) {
                    Some(JsonRep::Arr(items)) => match spec_decode_entries(items) {
                        Err(e) => Err(e),
                        Ok(entries) => match spec_decode_plugins(obj_get(ms, "plugins"@)) {
                            Err(e) => Err(e),
                            Ok(plugins) => match spec_decode_advanced(obj_get(ms, "advanced"@)) {
                                Err(e) => Err(e),
                                Ok(advanced) => Ok(
                                    ConfigRep { timeout_ms, theme, entries, plugins, advanced },
                                ),
                            },
                        },
                    },
                    _ => Err(ConfigErrorRep::ValidationError("entries"@)),
                },
            },
        },
        _ => Err(ConfigErrorRep::ValidationError("config"@)),
    }
}

/// Decodes the plugin list; an absent one is empty.
pub open spec fn spec_decode_plugins(o: Option<JsonRep>) -> Result<Seq<Seq<char>>, ConfigErrorRep> {
    match o {
        None => Ok(Seq::empty()),
        Some(JsonRep::Arr(items)) => spec_decode_plugin_items(items),
        Some(_) => Err(ConfigErrorRep::ValidationError("plugins"@)),
    }
}

/// The ids of a list of entries, in order.
pub open spec fn entry_ids(es: Seq<EntryRep>) -> Seq<Seq<char>> {
    es.map(|i: int, e: EntryRep| e.id)
}

/// The first id (scanning left to right) that repeats an earlier one.
pub open spec fn spec_first_dup(ids: Seq<Seq<char>>, j: int) -> Option<Seq<char>>
    decreases ids.len() - j,
{
    if !(0 <= j < ids.len()) {
        None
    } else if exists|i: int| 0 <= i < j && ids[i] == ids[j] {
        Some(ids[j])
    } else {
        spec_first_dup(ids, j + 1)
    }
}

/// A hexadecimal digit character.
pub open spec fn is_hex_char(c: char) -> bool {
    (0x30 <= c as u32 <= 0x39) || (0x61 <= c as u32 <= 0x66) || (0x41 <= c as u32 <= 0x46)
}

/// A color string: `#` followed by six or eight hexadecimal digits.
pub open spec fn spec_is_color(s: Seq<char>) -> bool {
    &&& (s.len() == 7 || s.len() == 9)
    &&& s[0] == '#'
    &&& forall|k: int| 1 <= k < s.len() ==> is_hex_char(#[trigger] s[k])
}

/// The id of the first kernel-direct entry (from `j` on) with an empty
/// kernel path.
pub open spec fn spec_first_empty_kernel(es: Seq<EntryRep>, j: int) -> Option<Seq<char>>
    decreases es.len() - j,
{
    if !(0 <= j < es.len()) {
        None
    } else if es[j].entry_type == BootEntryType::KernelDirect && es[j].kernel.len() == 0 {
        Some(es[j].id)
    } else {
        spec_first_empty_kernel(es, j + 1)
    }
}

/// The whole logical validation rule, in evaluation order: entries present,
/// ids unique, the default entry resolves, kernel paths non-empty for
/// kernel-direct entries, theme colors well-formed.
pub open spec fn spec_validate(c: ConfigRep) -> Option<ConfigErrorRep> {
    if c.entries.len() == 0 {
        Some(ConfigErrorRep::LogicError("no boot entries"@))
    } else {
        match spec_first_dup(entry_ids(c.entries), 0) {
            Some(id) => Some(ConfigErrorRep::LogicError("duplicate id: "@ + id)),
            None => match c.advanced.default_boot_entry_id {
                Some(d) => if !entry_ids(c.entries).contains(d) {
                    Some(ConfigErrorRep::LogicError("unknown default boot entry id: "@ + d))
                } else {
                    spec_validate_rest(c)
                },
                None => spec_validate_rest(c),
            },
        }
    }
}

/// The tail of the validation rule: kernel paths, then colors.
pub open spec fn spec_validate_rest(c: ConfigRep) -> Option<ConfigErrorRep> {
    match spec_first_empty_kernel(c.entries, 0) {
        Some(id) => Some(ConfigErrorRep::LogicError("empty kernel path: "@ + id)),
        None => if !spec_is_color(c.theme.background) {
            Some(ConfigErrorRep::LogicError("invalid color: "@ + c.theme.background))
        } else if !spec_is_color(c.theme.accent) {
            Some(ConfigErrorRep::LogicError("invalid color: "@ + c.theme.accent))
        } else {
            None
        },
    }
}

/// A run with no duplicate found from `j` on means the ids from `j` on
/// repeat nothing earlier.
proof fn lemma_no_dup_from(ids: Seq<Seq<char>>, j: int)
    requires
        0 <= j,
        spec_first_dup(ids, j) is None,
    ensures
        forall|p: int, q: int| 0 <= p < q < ids.len() && q >= j ==> ids[p] != ids[q],
    decreases ids.len() - j,
{
    if j < ids.len() {
        lemma_no_dup_from(ids, j + 1);
    }
}

/// A run with no empty kernel found from `j` on means every kernel-direct
/// entry from `j` on names a kernel.
proof fn lemma_no_empty_kernel_from(es: Seq<EntryRep>, j: int)
    requires
        0 <= j,
        spec_first_empty_kernel(es, j) is None,
    ensures
        forall|k: int|
            j <= k < es.len() && (#[trigger] es[k]).entry_type == BootEntryType::KernelDirect
                ==> es[k].kernel.len() > 0,
    decreases es.len() - j,
{
    if j < es.len() {
        lemma_no_empty_kernel_from(es, j + 1);
    }
}

/// What passing validation guarantees: the entry list is non-empty, entry
/// ids are pairwise distinct, a named default entry resolves to an entry,
/// every kernel-direct entry names a kernel, and both theme colors are
/// well-formed.
pub proof fn lemma_validated_config_is_coherent(c: ConfigRep)
    requires
        spec_validate(c) is None,
    ensures
        c.entries.len() > 0,
        forall|p: int, q: int|
            0 <= p < q < c.entries.len() ==> (#[trigger] c.entries[p]).id != (
            #[trigger] c.entries[q]).id,
        c.advanced.default_boot_entry_id matches Some(d) ==> exists|k: int|
            0 <= k < c.entries.len() && (#[trigger] c.entries[k]).id == d,
        forall|k: int|
            0 <= k < c.entries.len() && (#[trigger] c.entries[k]).entry_type
                == BootEntryType::KernelDirect ==> c.entries[k].kernel.len() > 0,
        spec_is_color(c.theme.background),
        spec_is_color(c.theme.accent),
{
    let ids = entry_ids(c.entries);
    lemma_no_dup_from(ids, 0);
    assert forall|p: int, q: int|
        0 <= p < q < c.entries.len() implies (#[trigger] c.entries[p]).id != (
    #[trigger] c.entries[q]).id by {
        assert(ids[p] == c.entries[p].id);
        assert(ids[q] == c.entries[q].id);
    }
    match c.advanced.default_boot_entry_id {
        Some(d) => {
            assert(ids.contains(d));
            let k = choose|k: int| 0 <= k < ids.len() && ids[k] == d;
            assert(c.entries[k].id == d);
        },
        None => {},
    }
    lemma_no_empty_kernel_from(c.entries, 0);
}

/// The defaulting rule, named: a document object that leaves a field out
/// receives the documented default when it decodes at all.
pub proof fn lemma_decode_defaults(ms: Seq<(Seq<char>, JsonRep)>, c: ConfigRep)
    requires
        spec_decode_config(JsonRep::Obj(ms)) == Ok::<ConfigRep, ConfigErrorRep>(c),
    ensures
        obj_get(ms, "timeout_ms"@) is None ==> c.timeout_ms == 5000,
        obj_get(ms, "theme"@) is None ==> c.theme == spec_default_theme(),
        obj_get(ms, "plugins"@) is None ==> c.plugins == Seq::<Seq<char>>::empty(),
        obj_get(ms, "advanced"@) is None ==> c.advanced == spec_default_advanced(),
{
}

/// The whole pipeline from document text: parse, decode, validate.
pub open spec fn spec_parse_config(bytes: Seq<u8>) -> Result<ConfigRep, ConfigErrorRep> {
    match spec_parse_json(bytes) {
        None => Err(ConfigErrorRep::InvalidFormat("json"@)),
        Some(rep) => match spec_decode_config(rep) {
            Err(e) => Err(e),
            Ok(c) => match spec_validate(c) {
                Some(e) => Err(e),
                None => Ok(c),
            },
        },
    }
}

/// The shape of an optional reference to a decoded value.
pub open spec fn opt_rep(o: Option<&JsonValue>) -> Option<JsonRep> {
    match o {
        Some(v) => Some(v.rep()),
        None => None,
    }
}

/// The shapes of decoded entries, elementwise.
pub open spec fn entry_views(es: Seq<BootEntry>) -> Seq<EntryRep> {
    Seq::new(es.len(), |i: int| es[i]@)
}

/// The texts of a list of strings, elementwise.
pub open spec fn string_views(ss: Seq<String>) -> Seq<Seq<char>> {
    Seq::new(ss.len(), |i: int| ss[i]@)
}

/// The texts of a list of string pairs, elementwise.
pub open spec fn pair_views(ps: Seq<(String, String)>) -> Seq<(Seq<char>, Seq<char>)> {
    Seq::new(ps.len(), |i: int| (ps[i].0@, ps[i].1@))
}

fn validation_err(key: &str) -> (r: ConfigError)
    ensures
        r@ == ConfigErrorRep::ValidationError(key@),
{
    ConfigError::ValidationError(key.to_owned())
}

fn req_str_field(ms: &Vec<(String, JsonValue)>, key: &str) -> (r: Result<String, ConfigError>)
    ensures
        match r {
            Ok(s) => spec_req_str(member_reps_of(ms@), key@) == Ok::<Seq<char>, ConfigErrorRep>(
                s@,
            ),
            Err(e) => spec_req_str(member_reps_of(ms@), key@) == Err::<Seq<char>, ConfigErrorRep>(
                e@,
            ),
        },
{
    match get_member(ms, key) {
        Some(v) => match v {
            JsonValue::Str(s) => Ok(s.clone()),
            _ => Err(validation_err(key)),
        },
        None => Err(validation_err(key)),
    }
}

fn opt_str_field(ms: &Vec<(String, JsonValue)>, key: &str) -> (r: Result<
    Option<String>,
    ConfigError,
>)
    ensures
        match r {
            Ok(s) => spec_opt_str(member_reps_of(ms@), key@) == Ok::<
                Option<Seq<char>>,
                ConfigErrorRep,
            >(opt_str_view_local(s)),
            Err(e) => spec_opt_str(member_reps_of(ms@), key@) == Err::<
                Option<Seq<char>>,
                ConfigErrorRep,
            >(e@),
        },
{
    match get_member(ms, key) {
        None => Ok(None),
        Some(v) => match v {
            JsonValue::Null => Ok(None),
            JsonValue::Str(s) => Ok(Some(s.clone())),
            _ => Err(validation_err(key)),
        },
    }
}

/// View of an optional string value.
pub open spec fn opt_str_view_local(o: Option<String>) -> Option<Seq<char>> {
    match o {
        Some(s) => Some(s@),
        None => None,
    }
}

fn str_or_field(ms: &Vec<(String, JsonValue)>, key: &str, dflt: &str) -> (r: Result<
    String,
    ConfigError,
>)
    ensures
        match r {
            Ok(s) => spec_str_or(member_reps_of(ms@), key@, dflt@) == Ok::<
                Seq<char>,
                ConfigErrorRep,
            >(s@),
            Err(e) => spec_str_or(member_reps_of(ms@), key@, dflt@) == Err::<
                Seq<char>,
                ConfigErrorRep,
            >(e@),
        },
{
    match get_member(ms, key) {
        None => Ok(dflt.to_owned()),
        Some(v) => match v {
            JsonValue::Str(s) => Ok(s.clone()),
            _ => Err(validation_err(key)),
        },
    }
}

fn bool_or_field(ms: &Vec<(String, JsonValue)>, key: &str, dflt: bool) -> (r: Result<
    bool,
    ConfigError,
>)
    ensures
        match r {
            Ok(b) => spec_bool_or(member_reps_of(ms@), key@, dflt) == Ok::<bool, ConfigErrorRep>(
                b,
            ),
            Err(e) => spec_bool_or(member_reps_of(ms@), key@, dflt) == Err::<bool, ConfigErrorRep>(
                e@,
            ),
        },
{
    match get_member(ms, key) {
        None => Ok(dflt),
        Some(v) => match v {
            JsonValue::Bool(b) => Ok(*b),
            _ => Err(validation_err(key)),
        },
    }
}

fn u32_or_field(ms: &Vec<(String, JsonValue)>, key: &str, dflt: u32) -> (r: Result<
    u32,
    ConfigError,
>)
    ensures
        match r {
            Ok(n) => spec_u32_or(member_reps_of(ms@), key@, dflt) == Ok::<u32, ConfigErrorRep>(n),
            Err(e) => spec_u32_or(member_reps_of(ms@), key@, dflt) == Err::<u32, ConfigErrorRep>(
                e@,
            ),
        },
{
    match get_member(ms, key) {
        None => Ok(dflt),
        Some(v) => match v {
            JsonValue::Int(n) => {
                if 0 <= *n && *n <= u32::MAX as i64 {
                    Ok(*n as u32)
                } else {
                    Err(validation_err(key))
                }
            },
            _ => Err(validation_err(key)),
        },
    }
}

fn opt_i32_field(ms: &Vec<(String, JsonValue)>, key: &str) -> (r: Result<Option<i32>, ConfigError>)
    ensures
        match r {
            Ok(n) => spec_opt_i32(member_reps_of(ms@), key@) == Ok::<Option<int>, ConfigErrorRep>(
                match n {
                    Some(x) => Some(x as int),
                    None => None,
                },
            ),
            Err(e) => spec_opt_i32(member_reps_of(ms@), key@) == Err::<Option<int>, ConfigErrorRep>(
                e@,
            ),
        },
{
    match get_member(ms, key) {
        None => Ok(None),
        Some(v) => match v {
            JsonValue::Null => Ok(None),
            JsonValue::Int(n) => {
                if i32::MIN as i64 <= *n && *n <= i32::MAX as i64 {
                    Ok(Some(*n as i32))
                } else {
                    Err(validation_err(key))
                }
            },
            _ => Err(validation_err(key)),
        },
    }
}

fn entry_type_field(ms: &Vec<(String, JsonValue)>) -> (r: Result<BootEntryType, ConfigError>)
    ensures
        match r {
            Ok(t) => spec_entry_type_field(member_reps_of(ms@)) == Ok::<
                BootEntryType,
                ConfigErrorRep,
            >(t),
            Err(e) => spec_entry_type_field(member_reps_of(ms@)) == Err::<
                BootEntryType,
                ConfigErrorRep,
            >(e@),
        },
{
    match get_member(ms, "type") {
        None => Ok(BootEntryType::KernelDirect),
        Some(v) => match v {
            JsonValue::Str(s) => {
                if str_eq(s.as_str(), "kernel_direct") {
                    Ok(BootEntryType::KernelDirect)
                } else if str_eq(s.as_str(), "uefi_chainload") {
                    Ok(BootEntryType::UefiChainload)
                } else if str_eq(s.as_str(), "uefi_application") {
                    Ok(BootEntryType::UefiApplication)
                } else if str_eq(s.as_str(), "internal_tool") {
                    Ok(BootEntryType::InternalTool)
                } else {
                    Err(validation_err("type"))
                }
            },
            _ => Err(validation_err("type")),
        },
    }
}

fn arch_field(ms: &Vec<(String, JsonValue)>) -> (r: Result<Option<ArchitectureType>, ConfigError>)
    ensures
        match r {
            Ok(t) => spec_arch_field(member_reps_of(ms@)) == Ok::<
                Option<ArchitectureType>,
                ConfigErrorRep,
            >(t),
            Err(e) => spec_arch_field(member_reps_of(ms@)) == Err::<
                Option<ArchitectureType>,
                ConfigErrorRep,
            >(e@),
        },
{
    match get_member(ms, "architecture") {
        None => Ok(Some(ArchitectureType::Any)),
        Some(v) => match v {
            JsonValue::Null => Ok(None),
            JsonValue::Str(s) => {
                if str_eq(s.as_str(), "x86") {
                    Ok(Some(ArchitectureType::X86))
                } else if str_eq(s.as_str(), "x86_64") {
                    Ok(Some(ArchitectureType::X86_64))
                } else if str_eq(s.as_str(), "arm") {
                    Ok(Some(ArchitectureType::Arm))
                } else if str_eq(s.as_str(), "aarch64") {
                    Ok(Some(ArchitectureType::Aarch64))
                } else if str_eq(s.as_str(), "riscv32") {
                    Ok(Some(ArchitectureType::Riscv32))
                } else if str_eq(s.as_str(), "riscv64") {
                    Ok(Some(ArchitectureType::Riscv64))
                } else if str_eq(s.as_str(), "powerpc") {
                    Ok(Some(ArchitectureType::Powerpc))
                } else if str_eq(s.as_str(), "mips") {
                    Ok(Some(ArchitectureType::Mips))
                } else if str_eq(s.as_str(), "any") {
                    Ok(Some(ArchitectureType::Any))
                } else {
                    Err(validation_err("architecture"))
                }
            },
            _ => Err(validation_err("architecture")),
        },
    }
}

/// Decodes one boot entry.
fn decode_entry(v: &JsonValue) -> (r: Result<BootEntry, ConfigError>)
    ensures
        match r {
            Ok(b) => spec_decode_entry(v.rep()) == Ok::<EntryRep, ConfigErrorRep>(b@),
            Err(e) => spec_decode_entry(v.rep()) == Err::<EntryRep, ConfigErrorRep>(e@),
        },
{
    let ms = match v {
        JsonValue::Obj(ms) => ms,
        _ => {
            return Err(validation_err("entry"));
        },
    };
    let id = match req_str_field(ms, "id") {
        Ok(s) => s,
        Err(e) => {
            return Err(e);
        },
    };
    let title = match req_str_field(ms, "title") {
        Ok(s) => s,
        Err(e) => {
            return Err(e);
        },
    };
    let kernel = match req_str_field(ms, "kernel") {
        Ok(s) => s,
        Err(e) => {
            return Err(e);
        },
    };
    let initrd = match opt_str_field(ms, "initrd") {
        Ok(s) => s,
        Err(e) => {
            return Err(e);
        },
    };
    let cmdline = match str_or_field(ms, "cmdline", "") {
        Ok(s) => s,
        Err(e) => {
            return Err(e);
        },
    };
    let order = match opt_i32_field(ms, "order") {
        Ok(s) => s,
        Err(e) => {
            return Err(e);
        },
    };
    let secure = match bool_or_field(ms, "secure", false) {
        Ok(s) => s,
        Err(e) => {
            return Err(e);
        },
    };
    let icon = match opt_str_field(ms, "icon") {
        Ok(s) => s,
        Err(e) => {
            return Err(e);
        },
    };
    let entry_type = match entry_type_field(ms) {
        Ok(s) => s,
        Err(e) => {
            return Err(e);
        },
    };
    let volume_id = match opt_str_field(ms, "volume_id") {
        Ok(s) => s,
        Err(e) => {
            return Err(e);
        },
    };
    let architecture = match arch_field(ms) {
        Ok(s) => s,
        Err(e) => {
            return Err(e);
        },
    };
    let b = BootEntry {
        id,
        title,
        kernel,
        initrd,
        cmdline,
        order,
        secure,
        icon,
        entry_type,
        volume_id,
        architecture,
    };
    Ok(b)
}

/// Decodes the entry array.
fn decode_entries(items: &Vec<JsonValue>) -> (r: Result<Vec<BootEntry>, ConfigError>)
    ensures
        match r {
            Ok(es) => spec_decode_entries(reps_of(items@)) == Ok::<Seq<EntryRep>, ConfigErrorRep>(
                entry_views(es@),
            ),
            Err(e) => spec_decode_entries(reps_of(items@)) == Err::<Seq<EntryRep>, ConfigErrorRep>(
                e@,
            ),
        },
{
    let n = items.len();
    let mut acc: Vec<BootEntry> = Vec::new();
    let mut i: usize = 0;
    proof {
        lemma_reps_of(items@);
        assert(reps_of(items@).skip(0) =~= reps_of(items@));
    }
    while i < n
        invariant
            i <= n,
            n == items@.len(),
            reps_of(items@).len() == n,
            forall|k: int| 0 <= k < n ==> reps_of(items@)[k] == #[trigger] items@[k].rep(),
            acc@.len() == i,
            spec_decode_entries(reps_of(items@)) == (match spec_decode_entries(
                reps_of(items@).skip(i as int),
            ) {
                Ok(rs) => Ok::<Seq<EntryRep>, ConfigErrorRep>(entry_views(acc@) + rs),
                Err(e) => Err::<Seq<EntryRep>, ConfigErrorRep>(e),
            }),
        decreases n - i,
    {
        proof {
            assert(reps_of(items@).skip(i as int).len() == n - i);
            assert(reps_of(items@).skip(i as int)[0] == reps_of(items@)[i as int]);
            assert(reps_of(items@).skip(i as int).drop_first() =~= reps_of(items@).skip(
                i as int + 1,
            ));
        }
        match decode_entry(&items[i]) {
            Ok(b) => {
                let ghost acc0 = acc@;
                acc.push(b);
                proof {
                    assert(entry_views(acc@) =~= entry_views(acc0).push(b@));
                    if let Ok(rs) = spec_decode_entries(reps_of(items@).skip(i as int + 1)) {
                        assert(entry_views(acc0) + (seq![b@] + rs) =~= entry_views(acc@) + rs);
                    }
                }
            },
            Err(e) => {
                return Err(e);
            },
        }
        i = i + 1;
    }
    proof {
        assert(reps_of(items@).skip(n as int) =~= Seq::<JsonRep>::empty());
        assert(entry_views(acc@) + Seq::<EntryRep>::empty() =~= entry_views(acc@));
    }
    Ok(acc)
}

/// Decodes the plugin array.
fn decode_plugin_items(items: &Vec<JsonValue>) -> (r: Result<Vec<String>, ConfigError>)
    ensures
        match r {
            Ok(ss) => spec_decode_plugin_items(reps_of(items@)) == Ok::<
                Seq<Seq<char>>,
                ConfigErrorRep,
            >(string_views(ss@)),
            Err(e) => spec_decode_plugin_items(reps_of(items@)) == Err::<
                Seq<Seq<char>>,
                ConfigErrorRep,
            >(e@),
        },
{
    let n = items.len();
    let mut acc: Vec<String> = Vec::new();
    let mut i: usize = 0;
    proof {
        lemma_reps_of(items@);
        assert(reps_of(items@).skip(0) =~= reps_of(items@));
    }
    while i < n
        invariant
            i <= n,
            n == items@.len(),
            reps_of(items@).len() == n,
            forall|k: int| 0 <= k < n ==> reps_of(items@)[k] == #[trigger] items@[k].rep(),
            acc@.len() == i,
            spec_decode_plugin_items(reps_of(items@)) == (match spec_decode_plugin_items(
                reps_of(items@).skip(i as int),
            ) {
                Ok(rs) => Ok::<Seq<Seq<char>>, ConfigErrorRep>(string_views(acc@) + rs),
                Err(e) => Err::<Seq<Seq<char>>, ConfigErrorRep>(e),
            }),
        decreases n - i,
    {
        proof {
            assert(reps_of(items@).skip(i as int).len() == n - i);
            assert(reps_of(items@).skip(i as int)[0] == reps_of(items@)[i as int]);
            assert(reps_of(items@).skip(i as int).drop_first() =~= reps_of(items@).skip(
                i as int + 1,
            ));
        }
        let it = &items[i];
        proof {
            assert(*it == items@[i as int]);
        }
        match it {
            JsonValue::Str(s) => {
                proof {
                    assert(items@[i as int].rep() == JsonRep::Str(s@));
                }
                let ghost acc0 = acc@;
                acc.push(s.clone());
                proof {
                    assert(string_views(acc@) =~= string_views(acc0).push(s@));
                    if let Ok(rs) = spec_decode_plugin_items(reps_of(items@).skip(i as int + 1)) {
                        assert(string_views(acc0) + (seq![s@] + rs) =~= string_views(acc@) + rs);
                    }
                }
            },
            _ => {
                proof {
                    assert(!(items@[i as int].rep() is Str));
                }
                return Err(validation_err("plugins"));
            },
        }
        i = i + 1;
    }
    proof {
        assert(reps_of(items@).skip(n as int) =~= Seq::<JsonRep>::empty());
        assert(string_views(acc@) + Seq::<Seq<char>>::empty() =~= string_views(acc@));
    }
    Ok(acc)
}

/// Decodes the custom-properties object.
fn decode_props(pms: &Vec<(String, JsonValue)>) -> (r: Result<Vec<(String, String)>, ConfigError>)
    ensures
        match r {
            Ok(ps) => spec_decode_prop_members(member_reps_of(pms@)) == Ok::<
                Seq<(Seq<char>, Seq<char>)>,
                ConfigErrorRep,
            >(pair_views(ps@)),
            Err(e) => spec_decode_prop_members(member_reps_of(pms@)) == Err::<
                Seq<(Seq<char>, Seq<char>)>,
                ConfigErrorRep,
            >(e@),
        },
{
    let n = pms.len();
    let mut acc: Vec<(String, String)> = Vec::new();
    let mut i: usize = 0;
    proof {
        crate::json::lemma_member_reps_of(pms@);
        assert(member_reps_of(pms@).skip(0) =~= member_reps_of(pms@));
    }
    while i < n
        invariant
            i <= n,
            n == pms@.len(),
            member_reps_of(pms@).len() == n,
            forall|k: int|
                0 <= k < n ==> member_reps_of(pms@)[k] == (#[trigger] pms@[k].0@, pms@[k].1.rep()),
            acc@.len() == i,
            spec_decode_prop_members(member_reps_of(pms@)) == (match spec_decode_prop_members(
                member_reps_of(pms@).skip(i as int),
            ) {
                Ok(rs) => Ok::<Seq<(Seq<char>, Seq<char>)>, ConfigErrorRep>(pair_views(acc@) + rs),
                Err(e) => Err::<Seq<(Seq<char>, Seq<char>)>, ConfigErrorRep>(e),
            }),
        decreases n - i,
    {
        proof {
            assert(member_reps_of(pms@).skip(i as int).len() == n - i);
            assert(member_reps_of(pms@).skip(i as int)[0] == member_reps_of(pms@)[i as int]);
            assert(member_reps_of(pms@).skip(i as int).drop_first() =~= member_reps_of(pms@).skip(
                i as int + 1,
            ));
        }
        let p = &pms[i];
        proof {
            assert(*p == pms@[i as int]);
        }
        match &p.1 {
            JsonValue::Str(s) => {
                proof {
                    assert(pms@[i as int].1.rep() == JsonRep::Str(s@));
                }
                let ghost acc0 = acc@;
                let key = pms[i].0.clone();
                acc.push((key, s.clone()));
                proof {
                    assert(pair_views(acc@) =~= pair_views(acc0).push((pms@[i as int].0@, s@)));
                    if let Ok(rs) = spec_decode_prop_members(
                        member_reps_of(pms@).skip(i as int + 1),
                    ) {
                        assert(pair_views(acc0) + (seq![(pms@[i as int].0@, s@)] + rs)
                            =~= pair_views(acc@) + rs);
                    }
                }
            },
            _ => {
                proof {
                    assert(!(pms@[i as int].1.rep() is Str));
                    assert(member_reps_of(pms@)[i as int] == (
                        pms@[i as int].0@,
                        pms@[i as int].1.rep(),
                    ));
                    assert(member_reps_of(pms@).skip(i as int)[0].1 == pms@[i as int].1.rep());
                    assert(spec_decode_prop_members(member_reps_of(pms@).skip(i as int)) == Err::<
                        Seq<(Seq<char>, Seq<char>)>,
                        ConfigErrorRep,
                    >(ConfigErrorRep::ValidationError("custom_properties"@)));
                    assert(spec_decode_prop_members(member_reps_of(pms@)) == Err::<
                        Seq<(Seq<char>, Seq<char>)>,
                        ConfigErrorRep,
                    >(ConfigErrorRep::ValidationError("custom_properties"@)));
                }
                return Err(validation_err("custom_properties"));
            },
        }
        i = i + 1;
    }
    proof {
        assert(member_reps_of(pms@).skip(n as int) =~= Seq::<(Seq<char>, JsonRep)>::empty());
        assert(pair_views(acc@) + Seq::<(Seq<char>, Seq<char>)>::empty() =~= pair_views(acc@));
    }
    Ok(acc)
}

/// Decodes the theme.
fn decode_theme(o: Option<&JsonValue>) -> (r: Result<Theme, ConfigError>)
    ensures
        match r {
            Ok(t) => spec_decode_theme(opt_rep(o)) == Ok::<ThemeRep, ConfigErrorRep>(t@),
            Err(e) => spec_decode_theme(opt_rep(o)) == Err::<ThemeRep, ConfigErrorRep>(e@),
        },
{
    let v = match o {
        None => {
            return Ok(default_theme());
        },
        Some(v) => v,
    };
    let ms = match v {
        JsonValue::Obj(ms) => ms,
        _ => {
            return Err(validation_err("theme"));
        },
    };
    let background = match req_str_field(ms, "background") {
        Ok(s) => s,
        Err(e) => {
            return Err(e);
        },
    };
    let accent = match req_str_field(ms, "accent") {
        Ok(s) => s,
        Err(e) => {
            return Err(e);
        },
    };
    let font = match opt_str_field(ms, "font") {
        Ok(s) => s,
        Err(e) => {
            return Err(e);
        },
    };
    let custom_properties = match get_member(ms, "custom_properties") {
        None => Vec::new(),
        Some(pv) => match pv {
            JsonValue::Obj(pms) => match decode_props(pms) {
                Ok(ps) => ps,
                Err(e) => {
                    return Err(e);
                },
            },
            _ => {
                return Err(validation_err("custom_properties"));
            },
        },
    };
    let t = Theme { background, accent, font, custom_properties };
    proof {
        if t.custom_properties@.len() == 0 {
            assert(pair_views(t.custom_properties@) =~= Seq::<(Seq<char>, Seq<char>)>::empty());
        }
        assert(t@.custom_properties =~= pair_views(t.custom_properties@));
        assert(t@ =~= ThemeRep {
            background: t.background@,
            accent: t.accent@,
            font: opt_str_view_local(t.font),
            custom_properties: pair_views(t.custom_properties@),
        });
    }
    Ok(t)
}

/// Decodes the advanced block.
fn decode_advanced(o: Option<&JsonValue>) -> (r: Result<AdvancedSettings, ConfigError>)
    ensures
        match r {
            Ok(a) => spec_decode_advanced(opt_rep(o)) == Ok::<AdvancedRep, ConfigErrorRep>(a@),
            Err(e) => spec_decode_advanced(opt_rep(o)) == Err::<AdvancedRep, ConfigErrorRep>(e@),
        },
{
    let v = match o {
        None => {
            return Ok(AdvancedSettings::default());
        },
        Some(v) => v,
    };
    let ms = match v {
        JsonValue::Obj(ms) => ms,
        _ => {
            return Err(validation_err("advanced"));
        },
    };
    let debug_shell = match bool_or_field(ms, "debug_shell", false) {
        Ok(b) => b,
        Err(e) => {
            return Err(e);
        },
    };
    let log_level = match get_member(ms, "log_level") {
        None => LogLevel::Info,
        Some(lv) => match lv {
            JsonValue::Str(s) => {
                if str_eq(s.as_str(), "none") {
                    LogLevel::Off
                } else if str_eq(s.as_str(), "error") {
                    LogLevel::Error
                } else if str_eq(s.as_str(), "warn") {
                    LogLevel::Warn
                } else if str_eq(s.as_str(), "info") {
                    LogLevel::Info
                } else if str_eq(s.as_str(), "debug") {
                    LogLevel::Debug
                } else if str_eq(s.as_str(), "trace") {
                    LogLevel::Trace
                } else {
                    return Err(validation_err("log_level"));
                }
            },
            _ => {
                return Err(validation_err("log_level"));
            },
        },
    };
    let enable_network_boot = match bool_or_field(ms, "enable_network_boot", false) {
        Ok(b) => b,
        Err(e) => {
            return Err(e);
        },
    };
    let default_boot_entry_id = match opt_str_field(ms, "default_boot_entry_id") {
        Ok(s) => s,
        Err(e) => {
            return Err(e);
        },
    };
    let resolution = match str_or_field(ms, "resolution", "auto") {
        Ok(s) => s,
        Err(e) => {
            return Err(e);
        },
    };
    let show_countdown = match bool_or_field(ms, "show_countdown", true) {
        Ok(b) => b,
        Err(e) => {
            return Err(e);
        },
    };
    let progress_bar_style = match get_member(ms, "progress_bar_style") {
        None => ProgressBarVisualStyle::Modern,
        Some(lv) => match lv {
            JsonValue::Str(s) => {
                if str_eq(s.as_str(), "classic") {
                    ProgressBarVisualStyle::Classic
                } else if str_eq(s.as_str(), "modern") {
                    ProgressBarVisualStyle::Modern
                } else if str_eq(s.as_str(), "minimal") {
                    ProgressBarVisualStyle::Minimal
                } else if str_eq(s.as_str(), "dots") {
                    ProgressBarVisualStyle::Dots
                } else {
                    return Err(validation_err("progress_bar_style"));
                }
            },
            _ => {
                return Err(validation_err("progress_bar_style"));
            },
        },
    };
    let enable_mouse = match bool_or_field(ms, "enable_mouse", true) {
        Ok(b) => b,
        Err(e) => {
            return Err(e);
        },
    };
    let enable_touch = match bool_or_field(ms, "enable_touch", false) {
        Ok(b) => b,
        Err(e) => {
            return Err(e);
        },
    };
    Ok(
        AdvancedSettings {
            debug_shell,
            log_level,
            enable_network_boot,
            default_boot_entry_id,
            resolution,
            show_countdown,
            progress_bar_style,
            enable_mouse,
            enable_touch,
        },
    )
}

/// Decodes a whole configuration document value.
fn decode_config(v: &JsonValue) -> (r: Result<LblConfig, ConfigError>)
    ensures
        match r {
            Ok(c) => spec_decode_config(v.rep()) == Ok::<ConfigRep, ConfigErrorRep>(c@),
            Err(e) => spec_decode_config(v.rep()) == Err::<ConfigRep, ConfigErrorRep>(e@),
        },
{
    let ms = match v {
        JsonValue::Obj(ms) => ms,
        _ => {
            return Err(validation_err("config"));
        },
    };
    let timeout_ms = match u32_or_field(ms, "timeout_ms", 5000) {
        Ok(n) => n,
        Err(e) => {
            return Err(e);
        },
    };
    let theme = match decode_theme(get_member(ms, "theme")) {
        Ok(t) => t,
        Err(e) => {
            return Err(e);
        },
    };
    let entries = match get_member(ms, "entries") {
        Some(ev) => match ev {
            JsonValue::Arr(items) => match decode_entries(items) {
                Ok(es) => es,
                Err(e) => {
                    return Err(e);
                },
            },
            _ => {
                return Err(validation_err("entries"));
            },
        },
        None => {
            return Err(validation_err("entries"));
        },
    };
    let plugins = match get_member(ms, "plugins") {
        None => Vec::new(),
        Some(pv) => match pv {
            JsonValue::Arr(items) => match decode_plugin_items(items) {
                Ok(ps) => ps,
                Err(e) => {
                    return Err(e);
                },
            },
            _ => {
                return Err(validation_err("plugins"));
            },
        },
    };
    let advanced = match decode_advanced(get_member(ms, "advanced")) {
        Ok(a) => a,
        Err(e) => {
            return Err(e);
        },
    };
    let c = LblConfig { timeout_ms, theme, entries, plugins, advanced };
    proof {
        if c.plugins@.len() == 0 {
            assert(string_views(c.plugins@) =~= Seq::<Seq<char>>::empty());
        }
        assert(c@.entries =~= entry_views(c.entries@));
        assert(c@.plugins =~= string_views(c.plugins@));
        assert(c@ =~= ConfigRep {
            timeout_ms: c.timeout_ms,
            theme: c.theme@,
            entries: entry_views(c.entries@),
            plugins: string_views(c.plugins@),
            advanced: c.advanced@,
        });
    }
    Ok(c)
}

/// Checks whether a string is a well-formed color.
fn is_color(s: &str) -> (r: bool)
    ensures
        r == spec_is_color(s@),
{
    let n = s.unicode_len();
    if n != 7 && n != 9 {
        return false;
    }
    if s.get_char(0) != '#' {
        return false;
    }
    let mut k: usize = 1;
    while k < n
        invariant
            1 <= k <= n,
            n == s@.len(),
            forall|j: int| 1 <= j < k ==> is_hex_char(#[trigger] s@[j]),
        decreases n - k,
    {
        let c = s.get_char(k) as u32;
        if !((0x30 <= c && c <= 0x39) || (0x61 <= c && c <= 0x66) || (0x41 <= c && c <= 0x46)) {
            return false;
        }
        k = k + 1;
    }
    true
}

/// Performs the logical validation of a decoded configuration: entries
/// non-empty, entry ids pairwise unique, a named default entry resolves,
/// kernel-direct entries name a kernel, theme colors well-formed.
pub fn validate_parsed_config(config: &LblConfig) -> (r: Result<(), ConfigError>)
    ensures
        match r {
            Ok(_) => spec_validate(config@) is None,
            Err(e) => spec_validate(config@) == Some(e@),
        },
{
    let n = config.entries.len();
    proof {
        assert(entry_ids(config@.entries).len() == n);
        assert(forall|k: int|
            0 <= k < n ==> entry_ids(config@.entries)[k] == #[trigger] config.entries@[k].id@);
    }
    if n == 0 {
        return Err(ConfigError::LogicError(("no boot entries").to_owned()));
    }
    // first duplicated id
    let ghost ids = entry_ids(config@.entries);
    let mut j: usize = 0;
    while j < n
        invariant
            j <= n,
            n == config.entries@.len(),
            ids == entry_ids(config@.entries),
            ids.len() == n,
            forall|k: int| 0 <= k < n ==> ids[k] == #[trigger] config.entries@[k].id@,
            spec_first_dup(ids, 0) == spec_first_dup(ids, j as int),
        decreases n - j,
    {
        let mut i: usize = 0;
        while i < j
            invariant
                i <= j < n,
                n == config.entries@.len(),
                n > 0,
                ids == entry_ids(config@.entries),
                ids.len() == n,
                forall|k: int| 0 <= k < n ==> ids[k] == #[trigger] config.entries@[k].id@,
                forall|k: int| 0 <= k < i ==> ids[k] != ids[j as int],
                spec_first_dup(ids, 0) == spec_first_dup(ids, j as int),
                config@.entries.len() == n,
            decreases j - i,
        {
            if str_eq(config.entries[i].id.as_str(), config.entries[j].id.as_str()) {
                let mut msg = ("duplicate id: ").to_owned();
                msg.append(config.entries[j].id.as_str());
                proof {
                    assert(spec_first_dup(ids, j as int) == Some(ids[j as int]));
                }
                return Err(ConfigError::LogicError(msg));
            }
            i = i + 1;
        }
        j = j + 1;
    }
    proof {
        assert(spec_first_dup(ids, n as int) is None);
    }
    // the default entry must exist
    match &config.advanced.default_boot_entry_id {
        Some(d) => {
            let mut found = false;
            let mut i: usize = 0;
            while i < n
                invariant
                    i <= n,
                    n == config.entries@.len(),
                    ids == entry_ids(config@.entries),
                    ids.len() == n,
                    forall|k: int| 0 <= k < n ==> ids[k] == #[trigger] config.entries@[k].id@,
                    !found ==> forall|k: int| 0 <= k < i ==> ids[k] != d@,
                    found ==> ids.contains(d@),
                decreases n - i,
            {
                if str_eq(config.entries[i].id.as_str(), d.as_str()) {
                    found = true;
                    proof {
                        assert(ids[i as int] == d@);
                    }
                }
                i = i + 1;
            }
            if !found {
                let mut msg = ("unknown default boot entry id: ").to_owned();
                msg.append(d.as_str());
                proof {
                    assert(forall|k: int| 0 <= k < ids.len() ==> ids[k] != d@);
                    assert(!ids.contains(d@));
                }
                return Err(ConfigError::LogicError(msg));
            }
        },
        None => {},
    }
    // kernel paths of kernel-direct entries
    proof {
        assert(spec_validate(config@) == spec_validate_rest(config@));
    }
    let mut j: usize = 0;
    while j < n
        invariant
            j <= n,
            n == config.entries@.len(),
            spec_validate(config@) == spec_validate_rest(config@),
            spec_first_empty_kernel(config@.entries, 0) == spec_first_empty_kernel(
                config@.entries,
                j as int,
            ),
            config@.entries.len() == n,
            forall|k: int| 0 <= k < n ==> config@.entries[k] == #[trigger] config.entries@[k]@,
        decreases n - j,
    {
        let is_kd = match config.entries[j].entry_type {
            BootEntryType::KernelDirect => true,
            _ => false,
        };
        if is_kd && config.entries[j].kernel.as_str().is_empty() {
            let mut msg = ("empty kernel path: ").to_owned();
            msg.append(config.entries[j].id.as_str());
            return Err(ConfigError::LogicError(msg));
        }
        j = j + 1;
    }
    // colors
    if !is_color(config.theme.background.as_str()) {
        let mut msg = ("invalid color: ").to_owned();
        msg.append(config.theme.background.as_str());
        return Err(ConfigError::LogicError(msg));
    }
    if !is_color(config.theme.accent.as_str()) {
        let mut msg = ("invalid color: ").to_owned();
        msg.append(config.theme.accent.as_str());
        return Err(ConfigError::LogicError(msg));
    }
    Ok(())
}

/// Parses a configuration document: JSON text in, a decoded and validated
/// configuration out, or the exact reason it was refused.
pub fn parse_config_json(json_string: &str) -> (r: Result<LblConfig, ConfigError>)
    ensures
        match r {
            Ok(c) => spec_parse_config(json_string.spec_bytes()) == Ok::<ConfigRep, ConfigErrorRep>(
                c@,
            ),
            Err(e) => spec_parse_config(json_string.spec_bytes()) == Err::<
                ConfigRep,
                ConfigErrorRep,
            >(e@),
        },
{
    match parse_json(json_string.as_bytes()) {
        None => Err(ConfigError::InvalidFormat(("json").to_owned())),
        Some(v) => match decode_config(&v) {
            Err(e) => Err(e),
            Ok(c) => match validate_parsed_config(&c) {
                Err(e) => Err(e),
                Ok(_) => Ok(c),
            },
        },
    }
}

} // verus!
