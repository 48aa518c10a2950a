//! Configuration loading: locate the file on the mounted volumes, decode the
//! JSON, check the shape, and validate the cross-references.

use vstd::prelude::*;
use crate::fs::interface::{FilesystemError, FsErrorRep};
use crate::fs::manager::FilesystemManager;
use crate::fs::manager::spec_find_volume;
use crate::fs::manager::spec_instance_read;
use crate::fs::manager::spec_path_rejected;
use vstd::string::StringSliceAdditionalSpecFns;
use vstd::utf8::encode_utf8;

pub mod parser;
pub mod schema_types;

verus! {

/// Errors of configuration loading.
#[derive(Debug)]
pub enum ConfigError {
    FileNotFound,
    NoVolumesMounted,
    ReadError(String),
    InvalidFormat(String),
    ValidationError(String),
    LogicError(String),
    Filesystem(FilesystemError),
}

/// The mathematical shape of a configuration error.
#[verifier::ext_equal]
pub enum ConfigErrorRep {
    FileNotFound,
    NoVolumesMounted,
    ReadError(Seq<char>),
    InvalidFormat(Seq<char>),
    ValidationError(Seq<char>),
    LogicError(Seq<char>),
    Filesystem(FsErrorRep),
}

impl View for ConfigError {
    type V = ConfigErrorRep;

    open spec fn view(&self) -> ConfigErrorRep {
        match self {
            ConfigError::FileNotFound => ConfigErrorRep::FileNotFound,
            ConfigError::NoVolumesMounted => ConfigErrorRep::NoVolumesMounted,
            ConfigError::ReadError(s) => ConfigErrorRep::ReadError(s@),
            ConfigError::InvalidFormat(s) => ConfigErrorRep::InvalidFormat(s@),
            ConfigError::ValidationError(s) => ConfigErrorRep::ValidationError(s@),
            ConfigError::LogicError(s) => ConfigErrorRep::LogicError(s@),
            ConfigError::Filesystem(e) => ConfigErrorRep::Filesystem(e@),
        }
    }
}

/// The configuration search paths, most specific first.
pub open spec fn spec_search_path(p: int) -> Seq<char> {
    if p == 0 {
        "/LBL/config.json"@
    } else if p == 1 {
        "/boot/lbl/config.json"@
    } else {
        "/config.json"@
    }
}

/// What the mount manager answers for a read of search path `p` on the
/// volume at index `v`.
pub open spec fn spec_probe_read(m: FilesystemManager, v: int, p: int) -> Result<
    Seq<u8>,
    FsErrorRep,
> {
    let pb = encode_utf8(spec_search_path(p));
    if spec_path_rejected(pb) {
        Err(FsErrorRep::InvalidInput)
    } else {
        spec_instance_read(m.spec_mounted()[v].instance, pb)
    }
}

/// The first (volume, path) pair, volumes outermost, whose read succeeds.
pub open spec fn spec_first_hit(m: FilesystemManager, v: int, p: int) -> Option<(int, int)>
    decreases m.spec_mounted().len() - v, 3 - p,
{
    if !(0 <= v < m.spec_mounted().len()) {
        None
    } else if !(0 <= p < 3) {
        spec_first_hit(m, v + 1, 0)
    } else if spec_probe_read(m, v, p) is Ok {
        Some((v, p))
    } else {
        spec_first_hit(m, v, p + 1)
    }
}

/// The whole load rule: no volumes is its own error; the first hit in
/// search order is decoded; text that is not valid UTF-8 is refused as a
/// text-encoding failure; otherwise the parser's verdict stands.
pub open spec fn spec_load_configuration(m: FilesystemManager) -> Result<
    crate::config::schema_types::ConfigRep,
    ConfigErrorRep,
> {
    if m.spec_mounted().len() == 0 {
        Err(ConfigErrorRep::NoVolumesMounted)
    } else {
        match spec_first_hit(m, 0, 0) {
            None => Err(ConfigErrorRep::FileNotFound),
            Some((v, p)) => match spec_probe_read(m, v, p) {
                Ok(bytes) => if !vstd::utf8::valid_utf8(bytes) {
                    Err(ConfigErrorRep::InvalidFormat("utf-8"@))
                } else {
                    crate::config::parser::spec_parse_config(bytes)
                },
                Err(_) => Err(ConfigErrorRep::FileNotFound),
            },
        }
    }
}

/// The search path at index `p`.
fn search_path(p: usize) -> (r: &'static str)
    requires
        p < 3,
    ensures
        r@ == spec_search_path(p as int),
{
    if p == 0 {
        "/LBL/config.json"
    } else if p == 1 {
        "/boot/lbl/config.json"
    } else {
        "/config.json"
    }
}

/// Loads the configuration: searches every mounted volume, in mount order,
/// for the first readable file among the well-known paths, and decodes it.
pub fn load_configuration(fs_manager: &FilesystemManager) -> (r: Result<
    crate::config::schema_types::LblConfig,
    ConfigError,
>)
    requires
        fs_manager.wf(),
    ensures
        match r {
            Ok(c) => spec_load_configuration(*fs_manager) == Ok::<
                crate::config::schema_types::ConfigRep,
                ConfigErrorRep,
            >(c@),
            Err(e) => spec_load_configuration(*fs_manager) == Err::<
                crate::config::schema_types::ConfigRep,
                ConfigErrorRep,
            >(e@),
        },
{
    let n = fs_manager.mounted_volumes.len();
    if n == 0 {
        return Err(ConfigError::NoVolumesMounted);
    }
    let mut v: usize = 0;
    while v < n
        invariant
            v <= n,
            n == fs_manager.spec_mounted().len(),
            fs_manager.wf(),
            spec_first_hit(*fs_manager, 0, 0) == spec_first_hit(*fs_manager, v as int, 0),
        decreases n - v,
    {
        let mut p: usize = 0;
        while p < 3
            invariant
                v < n,
                p <= 3,
                n == fs_manager.spec_mounted().len(),
                fs_manager.wf(),
                spec_first_hit(*fs_manager, 0, 0) == spec_first_hit(
                    *fs_manager,
                    v as int,
                    p as int,
                ),
            decreases 3 - p,
        {
            let volume_id = &fs_manager.mounted_volumes[v].lbl_volume_info.id;
            proof {
                fs_manager.lemma_find_of_mounted(v as int);
            }
            let path = search_path(p);
            match fs_manager.read_file(volume_id.as_str(), path) {
                Ok(bytes) => {
                    proof {
                        assert(spec_probe_read(*fs_manager, v as int, p as int) == Ok::<
                            Seq<u8>,
                            FsErrorRep,
                        >(bytes@));
                        assert(spec_first_hit(*fs_manager, v as int, p as int) == Some(
                            (v as int, p as int),
                        ));
                    }
                    if !crate::util::validate_utf8(bytes.as_slice()) {
                        return Err(ConfigError::InvalidFormat(("utf-8").to_owned()));
                    }
                    let ghost gbytes = bytes@;
                    let text = crate::util::utf8_to_string(bytes);
                    proof {
                        assert(encode_utf8(text@) == gbytes);
                    }
                    return crate::config::parser::parse_config_json(text.as_str());
                },
                Err(_) => {
                    proof {
                        assert(spec_probe_read(*fs_manager, v as int, p as int) is Err);
                    }
                },
            }
            p = p + 1;
        }
        v = v + 1;
    }
    Err(ConfigError::FileNotFound)
}

/// The embedded JSON schema used as a reference for the file format.
pub fn get_embedded_schema_string() -> (r: &'static str) {
    "{\n  \"type\": \"object\",\n  \"properties\": {\n    \"timeout_ms\": {\"type\": \"integer\"}\n  },\n  \"required\": []\n}"
}

} // verus!
