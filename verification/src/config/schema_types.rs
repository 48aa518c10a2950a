//! The configuration data model: the structures a configuration file decodes
//! into, their mathematical shapes, and the documented default for every
//! field a file may leave out.

use vstd::prelude::*;

verus! {

/// Root configuration structure.
pub struct LblConfig {
    pub timeout_ms: u32,
    pub theme: Theme,
    pub entries: Vec<BootEntry>,
    pub plugins: Vec<String>,
    pub advanced: AdvancedSettings,
}

/// Theme configuration. Colors are `#RRGGBB` or `#RRGGBBAA` strings.
pub struct Theme {
    pub background: String,
    pub accent: String,
    pub font: Option<String>,
    pub custom_properties: Vec<(String, String)>,
}

/// A single boot entry.
pub struct BootEntry {
    pub id: String,
    pub title: String,
    pub kernel: String,
    pub initrd: Option<String>,
    pub cmdline: String,
    pub order: Option<i32>,
    pub secure: bool,
    pub icon: Option<String>,
    pub entry_type: BootEntryType,
    pub volume_id: Option<String>,
    pub architecture: Option<ArchitectureType>,
}

/// Type of boot entry.
#[derive(Clone, Copy, PartialEq, Eq, Structural, Debug)]
pub enum BootEntryType {
    KernelDirect,
    UefiChainload,
    UefiApplication,
    InternalTool,
}

/// CPU architecture type.
#[derive(Clone, Copy, PartialEq, Eq, Structural, Debug)]
pub enum ArchitectureType {
    X86,
    X86_64,
    Arm,
    Aarch64,
    Riscv32,
    Riscv64,
    Powerpc,
    Mips,
    Any,
}

/// Advanced settings.
pub struct AdvancedSettings {
    pub debug_shell: bool,
    pub log_level: LogLevel,
    pub enable_network_boot: bool,
    pub default_boot_entry_id: Option<String>,
    pub resolution: String,
    pub show_countdown: bool,
    pub progress_bar_style: ProgressBarVisualStyle,
    pub enable_mouse: bool,
    pub enable_touch: bool,
}

/// Log verbosity named by the configuration.
#[derive(Clone, Copy, PartialEq, Eq, Structural, Debug)]
pub enum LogLevel {
    Off,
    Error,
    Warn,
    Info,
    Debug,
    Trace,
}

/// Progress bar visual style.
#[derive(Clone, Copy, PartialEq, Eq, Structural, Debug)]
pub enum ProgressBarVisualStyle {
    Classic,
    Modern,
    Minimal,
    Dots,
}

/// Shape of a theme.
#[verifier::ext_equal]
pub struct ThemeRep {
    pub background: Seq<char>,
    pub accent: Seq<char>,
    pub font: Option<Seq<char>>,
    pub custom_properties: Seq<(Seq<char>, Seq<char>)>,
}

/// Shape of a boot entry.
#[verifier::ext_equal]
pub struct EntryRep {
    pub id: Seq<char>,
    pub title: Seq<char>,
    pub kernel: Seq<char>,
    pub initrd: Option<Seq<char>>,
    pub cmdline: Seq<char>,
    pub order: Option<int>,
    pub secure: bool,
    pub icon: Option<Seq<char>>,
    pub entry_type: BootEntryType,
    pub volume_id: Option<Seq<char>>,
    pub architecture: Option<ArchitectureType>,
}

/// Shape of the advanced settings.
#[verifier::ext_equal]
pub struct AdvancedRep {
    pub debug_shell: bool,
    pub log_level: LogLevel,
    pub enable_network_boot: bool,
    pub default_boot_entry_id: Option<Seq<char>>,
    pub resolution: Seq<char>,
    pub show_countdown: bool,
    pub progress_bar_style: ProgressBarVisualStyle,
    pub enable_mouse: bool,
    pub enable_touch: bool,
}

/// Shape of a whole configuration.
#[verifier::ext_equal]
pub struct ConfigRep {
    pub timeout_ms: u32,
    pub theme: ThemeRep,
    pub entries: Seq<EntryRep>,
    pub plugins: Seq<Seq<char>>,
    pub advanced: AdvancedRep,
}

/// View of an optional string.
pub open spec fn opt_str_view(o: Option<String>) -> Option<Seq<char>> {
    match o {
        Some(s) => Some(s@),
        None => None,
    }
}

impl View for Theme {
    type V = ThemeRep;

    open spec fn view(&self) -> ThemeRep {
        ThemeRep {
            background: self.background@,
            accent: self.accent@,
            font: opt_str_view(self.font),
            custom_properties: Seq::new(
                self.custom_properties@.len(),
                |i: int| (self.custom_properties@[i].0@, self.custom_properties@[i].1@),
            ),
        }
    }
}

impl View for BootEntry {
    type V = EntryRep;

    open spec fn view(&self) -> EntryRep {
        EntryRep {
            id: self.id@,
            title: self.title@,
            kernel: self.kernel@,
            initrd: opt_str_view(self.initrd),
            cmdline: self.cmdline@,
            order: match self.order {
                Some(n) => Some(n as int),
                None => None,
            },
            secure: self.secure,
            icon: opt_str_view(self.icon),
            entry_type: self.entry_type,
            volume_id: opt_str_view(self.volume_id),
            architecture: self.architecture,
        }
    }
}

impl View for AdvancedSettings {
    type V = AdvancedRep;

    open spec fn view(&self) -> AdvancedRep {
        AdvancedRep {
            debug_shell: self.debug_shell,
            log_level: self.log_level,
            enable_network_boot: self.enable_network_boot,
            default_boot_entry_id: opt_str_view(self.default_boot_entry_id),
            resolution: self.resolution@,
            show_countdown: self.show_countdown,
            progress_bar_style: self.progress_bar_style,
            enable_mouse: self.enable_mouse,
            enable_touch: self.enable_touch,
        }
    }
}

impl View for LblConfig {
    type V = ConfigRep;

    open spec fn view(&self) -> ConfigRep {
        ConfigRep {
            timeout_ms: self.timeout_ms,
            theme: self.theme@,
            entries: Seq::new(self.entries@.len(), |i: int| self.entries@[i]@),
            plugins: Seq::new(self.plugins@.len(), |i: int| self.plugins@[i]@),
            advanced: self.advanced@,
        }
    }
}

/// Default boot-menu timeout in milliseconds.
pub fn default_timeout_ms() -> (r: u32)
    ensures
        r == 5000,
{
    5000
}

/// Entries are not verified unless they ask for it.
pub fn default_secure_false() -> (r: bool)
    ensures
        r == false,
{
    false
}

/// Entries boot a kernel directly unless they say otherwise.
pub fn default_boot_entry_type() -> (r: BootEntryType)
    ensures
        r == BootEntryType::KernelDirect,
{
    BootEntryType::KernelDirect
}

/// An entry without a constraint runs on any architecture.
pub fn default_architecture() -> (r: Option<ArchitectureType>)
    ensures
        r == Some(ArchitectureType::Any),
{
    Some(ArchitectureType::Any)
}

/// Default for switches that are off unless asked for.
pub fn default_false() -> (r: bool)
    ensures
        r == false,
{
    false
}

/// Default for switches that are on unless switched off.
pub fn default_true() -> (r: bool)
    ensures
        r == true,
{
    true
}

/// The debug shell stays closed by default.
pub fn default_debug_shell_false() -> (r: bool)
    ensures
        r == false,
{
    false
}

/// Default log verbosity.
pub fn default_log_level_info() -> (r: LogLevel)
    ensures
        r == LogLevel::Info,
{
    LogLevel::Info
}

/// Default display resolution selector.
pub fn default_resolution_auto() -> (r: String)
    ensures
        r@ == "auto"@,
{
    "auto".to_owned()
}

/// Default progress bar style.
pub fn default_progress_bar_style_modern() -> (r: ProgressBarVisualStyle)
    ensures
        r == ProgressBarVisualStyle::Modern,
{
    ProgressBarVisualStyle::Modern
}

/// The advanced settings a file that leaves the whole block out receives.
pub open spec fn spec_default_advanced() -> AdvancedRep {
    AdvancedRep {
        debug_shell: false,
        log_level: LogLevel::Info,
        enable_network_boot: false,
        default_boot_entry_id: None,
        resolution: "auto"@,
        show_countdown: true,
        progress_bar_style: ProgressBarVisualStyle::Modern,
        enable_mouse: true,
        enable_touch: false,
    }
}

impl Default for AdvancedSettings {
    /// The documented defaults for every advanced field.
    fn default() -> (r: AdvancedSettings)
        ensures
            r@ == spec_default_advanced(),
    {
        AdvancedSettings {
            debug_shell: default_debug_shell_false(),
            log_level: default_log_level_info(),
            enable_network_boot: default_false(),
            default_boot_entry_id: None,
            resolution: default_resolution_auto(),
            show_countdown: default_true(),
            progress_bar_style: default_progress_bar_style_modern(),
            enable_mouse: default_true(),
            enable_touch: default_false(),
        }
    }
}

/// The theme a file without one receives: black background, white accent.
pub open spec fn spec_default_theme() -> ThemeRep {
    ThemeRep {
        background: "#000000"@,
        accent: "#FFFFFF"@,
        font: None,
        custom_properties: Seq::empty(),
    }
}

/// Builds the default theme.
pub fn default_theme() -> (r: Theme)
    ensures
        r@ == spec_default_theme(),
{
    let r = Theme {
        background: "#000000".to_owned(),
        accent: "#FFFFFF".to_owned(),
        font: None,
        custom_properties: Vec::new(),
    };
    proof {
        assert(r@.custom_properties =~= Seq::<(Seq<char>, Seq<char>)>::empty());
        assert(r@ =~= spec_default_theme());
    }
    r
}

} // verus!
