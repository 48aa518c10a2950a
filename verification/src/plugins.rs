//! Plugin activation.
//!
//! The plugin surface is a set of statically registered drivers keyed by
//! filename: a configuration may list `<name>.lblfs` files, and a name that
//! matches a built-in driver activates it on the filesystem manager. No
//! foreign code is ever loaded.

use vstd::prelude::*;
use crate::fs::fat32::Fat32Driver;
use crate::fs::manager::AnyDriver;
use crate::fs::manager::FilesystemManager;
use vstd::string::StringSliceAdditionalSpecFns;
use vstd::string::StrSliceExecFns;

verus! {

/// A loaded plugin.
pub struct Plugin {
    pub name: String,
    pub version: String,
    pub plugin_type: PluginType,
}

/// The mathematical shape of a plugin record.
#[verifier::ext_equal]
pub struct PluginRep {
    pub name: Seq<char>,
    pub version: Seq<char>,
    pub plugin_type: PluginType,
}

impl View for Plugin {
    type V = PluginRep;

    open spec fn view(&self) -> PluginRep {
        PluginRep { name: self.name@, version: self.version@, plugin_type: self.plugin_type }
    }
}

/// Kind of plugin.
#[derive(Clone, Copy, PartialEq, Eq, Structural, Debug)]
pub enum PluginType {
    Filesystem,
    Driver,
    Theme,
    Security,
    Other,
}

/// Errors of plugin activation.
#[derive(Debug)]
pub enum PluginError {
    NotFound(String),
    LoadFailed(String),
    InvalidFormat(String),
    InitFailed(String),
    UnsupportedType(String),
    DependencyMissing(String),
}

/// The mathematical shape of a plugin error.
#[verifier::ext_equal]
pub enum PluginErrorRep {
    NotFound(Seq<char>),
    LoadFailed(Seq<char>),
    InvalidFormat(Seq<char>),
    InitFailed(Seq<char>),
    UnsupportedType(Seq<char>),
    DependencyMissing(Seq<char>),
}

impl View for PluginError {
    type V = PluginErrorRep;

    open spec fn view(&self) -> PluginErrorRep {
        match self {
            PluginError::NotFound(s) => PluginErrorRep::NotFound(s@),
            PluginError::LoadFailed(s) => PluginErrorRep::LoadFailed(s@),
            PluginError::InvalidFormat(s) => PluginErrorRep::InvalidFormat(s@),
            PluginError::InitFailed(s) => PluginErrorRep::InitFailed(s@),
            PluginError::UnsupportedType(s) => PluginErrorRep::UnsupportedType(s@),
            PluginError::DependencyMissing(s) => PluginErrorRep::DependencyMissing(s@),
        }
    }
}

/// The activation rule for one plugin path: the name must end in `.lblfs`,
/// and its stem must be a built-in driver staged as a plugin. The activated
/// plugin is recorded as `<stem>_driver`.
pub open spec fn spec_load_plugin(p: Seq<char>) -> Result<Seq<char>, PluginErrorRep> {
    if !(p.len() >= 6 && p.subrange(p.len() - 6, p.len() as int) == ".lblfs"@) {
        Err(PluginErrorRep::UnsupportedType(p))
    } else {
        let stem = p.subrange(0, p.len() - 6);
        if stem == "lblfs_fat32"@ {
            Ok(stem + "_driver"@)
        } else {
            Err(PluginErrorRep::NotFound(stem + "_driver"@))
        }
    }
}

/// Manages the loading and registration of plugins.
pub struct PluginManager {
    pub loaded_plugins: Vec<Plugin>,
}

/// The views of the loaded plugins.
pub open spec fn plugin_views(ps: Seq<Plugin>) -> Seq<PluginRep> {
    Seq::new(ps.len(), |i: int| ps[i]@)
}

/// The texts of the listed plugin names.
pub open spec fn name_views(ns: Seq<String>) -> Seq<Seq<char>> {
    Seq::new(ns.len(), |i: int| ns[i]@)
}

/// The plugin record an activation of `name` adds.
pub open spec fn spec_plugin_record(name: Seq<char>) -> PluginRep {
    PluginRep { name, version: "0.1.0"@, plugin_type: PluginType::Filesystem }
}

/// The plugin list after every listed name is tried in order: a recognized
/// name appends its record, anything else changes nothing.
pub open spec fn spec_plugins_after(names: Seq<Seq<char>>, ps: Seq<PluginRep>) -> Seq<PluginRep>
    decreases names.len(),
{
    if names.len() == 0 {
        ps
    } else {
        let ps1 = match spec_load_plugin(names[0]) {
            Ok(n) => ps.push(spec_plugin_record(n)),
            Err(_) => ps,
        };
        spec_plugins_after(names.drop_first(), ps1)
    }
}

/// The driver registry after every listed name is tried in order.
pub open spec fn spec_drivers_after(names: Seq<Seq<char>>, ds: Seq<AnyDriver>) -> Seq<AnyDriver>
    decreases names.len(),
{
    if names.len() == 0 {
        ds
    } else {
        let ds1 = match spec_load_plugin(names[0]) {
            Ok(_) => ds.push(AnyDriver::Fat32(Fat32Driver)),
            Err(_) => ds,
        };
        spec_drivers_after(names.drop_first(), ds1)
    }
}

impl PluginManager {
    /// Creates a manager with nothing loaded.
    pub fn new() -> (r: PluginManager)
        ensures
            r.loaded_plugins@.len() == 0,
    {
        PluginManager { loaded_plugins: Vec::new() }
    }

    /// Activates one plugin by path: a recognized filesystem plugin
    /// registers its driver on `target_fs_manager` and is recorded.
    pub fn load_plugin_from_path(
        &mut self,
        plugin_path_str: &str,
        _fs_reader: &FilesystemManager,
        target_fs_manager: &mut FilesystemManager,
    ) -> (r: Result<String, PluginError>)
        requires
            old(target_fs_manager).wf(),
        ensures
            final(target_fs_manager).wf(),
            final(target_fs_manager).spec_mounted() == old(target_fs_manager).spec_mounted(),
            match r {
                Ok(name) => {
                    &&& spec_load_plugin(plugin_path_str@) == Ok::<Seq<char>, PluginErrorRep>(
                        name@,
                    )
                    &&& plugin_views(final(self).loaded_plugins@) == plugin_views(
                        old(self).loaded_plugins@,
                    ).push(
                        PluginRep {
                            name: name@,
                            version: "0.1.0"@,
                            plugin_type: PluginType::Filesystem,
                        },
                    )
                    &&& final(target_fs_manager).drivers@ == old(
                        target_fs_manager,
                    ).drivers@.push(AnyDriver::Fat32(Fat32Driver))
                    &&& final(self).loaded_plugins@.len() == old(self).loaded_plugins@.len() + 1
                },
                Err(e) => {
                    &&& spec_load_plugin(plugin_path_str@) == Err::<Seq<char>, PluginErrorRep>(e@)
                    &&& *final(self) == *old(self)
                    &&& *final(target_fs_manager) == *old(target_fs_manager)
                },
            },
    {
        let n = plugin_path_str.unicode_len();
        if n < 6 {
            proof {
                assert(!(plugin_path_str@.len() >= 6));
            }
            return Err(PluginError::UnsupportedType(plugin_path_str.to_owned()));
        }
        let suffix = plugin_path_str.substring_char(n - 6, n);
        if !crate::util::str_eq(suffix, ".lblfs") {
            return Err(PluginError::UnsupportedType(plugin_path_str.to_owned()));
        }
        let stem = plugin_path_str.substring_char(0, n - 6);
        if crate::util::str_eq(stem, "lblfs_fat32") {
            target_fs_manager.register_driver(AnyDriver::Fat32(Fat32Driver::new()));
            let name = stem.to_owned().concat("_driver");
            let ghost ps0 = self.loaded_plugins@;
            self.loaded_plugins.push(
                Plugin {
                    name: name.clone(),
                    version: ("0.1.0").to_owned(),
                    plugin_type: PluginType::Filesystem,
                },
            );
            proof {
                assert(plugin_views(self.loaded_plugins@) =~= plugin_views(ps0).push(
                    PluginRep {
                        name: name@,
                        version: "0.1.0"@,
                        plugin_type: PluginType::Filesystem,
                    },
                ));
            }
            Ok(name)
        } else {
            let name = stem.to_owned().concat("_driver");
            Err(PluginError::NotFound(name))
        }
    }

    /// Activates every plugin a configuration lists, in order: each
    /// recognized name registers its driver and is recorded; a name that
    /// fails is skipped and the rest are still tried.
    pub fn load_configured_plugins(
        &mut self,
        plugin_names_or_paths: &Vec<String>,
        fs_reader: &FilesystemManager,
        target_fs_manager: &mut FilesystemManager,
    )
        requires
            old(target_fs_manager).wf(),
        ensures
            final(target_fs_manager).wf(),
            final(target_fs_manager).spec_mounted() == old(target_fs_manager).spec_mounted(),
            plugin_views(final(self).loaded_plugins@) == spec_plugins_after(
                name_views(plugin_names_or_paths@),
                plugin_views(old(self).loaded_plugins@),
            ),
            final(target_fs_manager).drivers@ == spec_drivers_after(
                name_views(plugin_names_or_paths@),
                old(target_fs_manager).drivers@,
            ),
    {
        let n = plugin_names_or_paths.len();
        let ghost names = name_views(plugin_names_or_paths@);
        let mut i: usize = 0;
        proof {
            assert(names.skip(0) =~= names);
        }
        while i < n
            invariant
                i <= n,
                n == plugin_names_or_paths@.len(),
                names == name_views(plugin_names_or_paths@),
                names.len() == n,
                forall|k: int| 0 <= k < n ==> names[k] == #[trigger] plugin_names_or_paths@[k]@,
                target_fs_manager.wf(),
                target_fs_manager.spec_mounted() == old(target_fs_manager).spec_mounted(),
                spec_plugins_after(names, plugin_views(old(self).loaded_plugins@))
                    == spec_plugins_after(
                    names.skip(i as int),
                    plugin_views(self.loaded_plugins@),
                ),
                spec_drivers_after(names, old(target_fs_manager).drivers@) == spec_drivers_after(
                    names.skip(i as int),
                    target_fs_manager.drivers@,
                ),
            decreases n - i,
        {
            proof {
                assert(names.skip(i as int).len() == n - i);
                assert(names.skip(i as int)[0] == names[i as int]);
                assert(names.skip(i as int).drop_first() =~= names.skip(i as int + 1));
            }
            let _ = self.load_plugin_from_path(
                plugin_names_or_paths[i].as_str(),
                fs_reader,
                target_fs_manager,
            );
            i = i + 1;
        }
        proof {
            assert(names.skip(n as int) =~= Seq::<Seq<char>>::empty());
        }
    }

    /// The loaded plugins, in activation order.
    pub fn list_loaded_plugins(&self) -> (r: &Vec<Plugin>)
        ensures
            r@ == self.loaded_plugins@,
    {
        &self.loaded_plugins
    }
}

} // verus!
