//! Boot execution: verify the selected entry, resolve its volume, read and
//! place the kernel, stage the initial RAM disk, measure the artifacts, and
//! hand an architecture plan to the unverified shell that performs the
//! final jump.
//!
//! A verification failure is fatal for the entry: the executor returns to
//! the menu with the failure and touches no memory — in particular the
//! kernel loader is never invoked, which the contract states as the
//! reservation record staying exactly as it was.

use vstd::prelude::*;

pub mod arch_adapter;

pub mod kernel_formats;

use crate::config::schema_types::ArchitectureType;
use crate::config::schema_types::BootEntry;
use crate::config::schema_types::BootEntryType;
use crate::fs::interface::FilesystemError;
use crate::fs::interface::FsErrorRep;
use crate::fs::manager::FilesystemManager;
use crate::fs::manager::spec_find_volume;
use crate::fs::manager::spec_instance_stat;
use crate::fs::manager::spec_path_rejected;
use crate::hal::HalServices;
use crate::security::SecurityManager;
use crate::security::spec_verify_entry;
use crate::security::spec_vol_read;
use arch_adapter::ArchPlan;
use arch_adapter::EbsState;
use arch_adapter::spec_arch_plan;
use kernel_formats::KernelInfo;
use kernel_formats::LoadedImageInfo;
use kernel_formats::SegmentPlacement;
use kernel_formats::placements_views;
use kernel_formats::spec_load_kernel;
use kernel_formats::spec_placements_reservable;
use vstd::string::StringSliceAdditionalSpecFns;
use vstd::utf8::encode_utf8;

verus! {

/// Errors of the boot execution phase.
#[derive(Debug)]
pub enum BootExecuteError {
    KernelNotFound(String),
    InitrdNotFound(String),
    FilesystemError(FilesystemError),
    UnsupportedKernelFormat(String),
    KernelLoadFailed(String),
    InitrdLoadFailed(String),
    SignatureVerificationFailed(String),
    ArchitectureAdaptationFailed(String),
    InvalidBootEntryType,
    InternalError(String),
    FirmwareError(String),
}

/// The mathematical shape of a boot execution error.
#[verifier::ext_equal]
pub enum BootExecuteErrorRep {
    KernelNotFound(Seq<char>),
    InitrdNotFound(Seq<char>),
    FilesystemError(FsErrorRep),
    UnsupportedKernelFormat(Seq<char>),
    KernelLoadFailed(Seq<char>),
    InitrdLoadFailed(Seq<char>),
    SignatureVerificationFailed(Seq<char>),
    ArchitectureAdaptationFailed(Seq<char>),
    InvalidBootEntryType,
    InternalError(Seq<char>),
    FirmwareError(Seq<char>),
}

impl View for BootExecuteError {
    type V = BootExecuteErrorRep;

    open spec fn view(&self) -> BootExecuteErrorRep {
        match self {
            BootExecuteError::KernelNotFound(s) => BootExecuteErrorRep::KernelNotFound(s@),
            BootExecuteError::InitrdNotFound(s) => BootExecuteErrorRep::InitrdNotFound(s@),
            BootExecuteError::FilesystemError(e) => BootExecuteErrorRep::FilesystemError(e@),
            BootExecuteError::UnsupportedKernelFormat(s) => BootExecuteErrorRep::UnsupportedKernelFormat(
                s@,
            ),
            BootExecuteError::KernelLoadFailed(s) => BootExecuteErrorRep::KernelLoadFailed(s@),
            BootExecuteError::InitrdLoadFailed(s) => BootExecuteErrorRep::InitrdLoadFailed(s@),
            BootExecuteError::SignatureVerificationFailed(s) => BootExecuteErrorRep::SignatureVerificationFailed(
                s@,
            ),
            BootExecuteError::ArchitectureAdaptationFailed(s) => BootExecuteErrorRep::ArchitectureAdaptationFailed(
                s@,
            ),
            BootExecuteError::InvalidBootEntryType => BootExecuteErrorRep::InvalidBootEntryType,
            BootExecuteError::InternalError(s) => BootExecuteErrorRep::InternalError(s@),
            BootExecuteError::FirmwareError(s) => BootExecuteErrorRep::FirmwareError(s@),
        }
    }
}

/// What the shell must do for a successfully prepared entry.
pub enum BootAction {
    /// Copy each placement to its destination, copy `initrd_bytes` to the
    /// staged initrd region, place the command line, drive the
    /// ExitBootServices schedule, load the plan's registers and jump.
    JumpKernel {
        kernel: KernelInfo,
        placements: Vec<SegmentPlacement>,
        initrd: Option<LoadedImageInfo>,
        initrd_bytes: Vec<u8>,
        cmdline: String,
        plan: ArchPlan,
        ebs: EbsState,
    },
    /// Hand the image to the firmware's LoadImage and StartImage services.
    Chainload { image: Vec<u8> },
    /// Dispatch to the named built-in tool.
    InternalTool { name: String },
}

/// What the mount manager answers for a stat of `path` on volume `v`.
pub open spec fn spec_vol_stat(m: FilesystemManager, v: int, path: Seq<char>) -> Result<
    (u8, u32, u32),
    FsErrorRep,
> {
    let pb = encode_utf8(path);
    if spec_path_rejected(pb) {
        Err(FsErrorRep::InvalidInput)
    } else {
        spec_instance_stat(m.spec_mounted()[v].instance, pb)
    }
}

/// The first volume, in mount order, on which `path` exists.
pub open spec fn spec_first_vol_stat(m: FilesystemManager, path: Seq<char>, v: int) -> Option<int>
    decreases m.spec_mounted().len() - v,
{
    if !(0 <= v < m.spec_mounted().len()) {
        None
    } else if spec_vol_stat(m, v, path) is Ok {
        Some(v)
    } else {
        spec_first_vol_stat(m, path, v + 1)
    }
}

/// The volume an entry boots from: the explicitly bound volume wins,
/// otherwise the first volume on which the kernel path exists.
pub open spec fn spec_resolve_volume(
    m: FilesystemManager,
    volume_id: Option<Seq<char>>,
    kernel: Seq<char>,
) -> Option<int> {
    match volume_id {
        Some(id) => spec_find_volume(m.spec_mounted(), id),
        None => spec_first_vol_stat(m, kernel, 0),
    }
}

/// Resolves the volume an entry boots from. Returns the mount index and
/// the volume id.
fn resolve_volume(fs_manager: &FilesystemManager, entry: &BootEntry) -> (r: Option<(usize, String)>)
    requires
        fs_manager.wf(),
    ensures
        match r {
            Some((v, id)) => spec_resolve_volume(
                *fs_manager,
                crate::config::schema_types::opt_str_view(entry.volume_id),
                entry.kernel@,
            ) == Some(v as int) && v < fs_manager.spec_mounted().len() && id@
                == fs_manager.spec_mounted()[v as int].lbl_volume_info.id@,
            None => spec_resolve_volume(
                *fs_manager,
                crate::config::schema_types::opt_str_view(entry.volume_id),
                entry.kernel@,
            ) is None,
        },
{
    let n = fs_manager.mounted_volumes.len();
    match &entry.volume_id {
        Some(vid) => {
            let mut v: usize = 0;
            proof {
                assert(fs_manager.spec_mounted().skip(0) =~= fs_manager.spec_mounted());
            }
            while v < n
                invariant
                    v <= n,
                    n == fs_manager.spec_mounted().len(),
                    fs_manager.wf(),
                    entry.volume_id matches Some(q) && q == vid,
                    spec_find_volume(fs_manager.spec_mounted(), vid@) == (match spec_find_volume(
                        fs_manager.spec_mounted().skip(v as int),
                        vid@,
                    ) {
                        Some(k) => Some(k + v),
                        None => None::<int>,
                    }),
                decreases n - v,
            {
                proof {
                    assert(fs_manager.spec_mounted().skip(v as int).len() == n - v);
                    assert(fs_manager.spec_mounted().skip(v as int)[0]
                        == fs_manager.spec_mounted()[v as int]);
                    assert(fs_manager.spec_mounted().skip(v as int).drop_first()
                        =~= fs_manager.spec_mounted().skip(v as int + 1));
                }
                if crate::util::str_eq(
                    fs_manager.mounted_volumes[v].lbl_volume_info.id.as_str(),
                    vid.as_str(),
                ) {
                    return Some((v, fs_manager.mounted_volumes[v].lbl_volume_info.id.clone()));
                }
                v = v + 1;
            }
            proof {
                assert(fs_manager.spec_mounted().skip(n as int)
                    =~= Seq::<crate::fs::manager::MountedVolumeInfo>::empty());
            }
            None
        },
        None => {
            let mut v: usize = 0;
            while v < n
                invariant
                    v <= n,
                    n == fs_manager.spec_mounted().len(),
                    fs_manager.wf(),
                    entry.volume_id is None,
                    spec_first_vol_stat(*fs_manager, entry.kernel@, 0) == spec_first_vol_stat(
                        *fs_manager,
                        entry.kernel@,
                        v as int,
                    ),
                decreases n - v,
            {
                let volume_id = &fs_manager.mounted_volumes[v].lbl_volume_info.id;
                proof {
                    fs_manager.lemma_find_of_mounted(v as int);
                }
                match fs_manager.path_exists(volume_id.as_str(), entry.kernel.as_str()) {
                    Ok(true) => {
                        proof {
                            assert(spec_vol_stat(*fs_manager, v as int, entry.kernel@) is Ok);
                        }
                        return Some((v, volume_id.clone()));
                    },
                    _ => {
                        proof {
                            assert(spec_vol_stat(*fs_manager, v as int, entry.kernel@) is Err);
                        }
                    },
                }
                v = v + 1;
            }
            None
        },
    }
}

/// The architecture an entry selects; an unconstrained entry takes the
/// reference ISA.
pub open spec fn spec_selected_arch(a: Option<ArchitectureType>) -> ArchitectureType {
    match a {
        Some(a) => a,
        None => ArchitectureType::Any,
    }
}

/// Whether the entry's initial RAM disk can be staged on volume `v` once
/// the kernel placements have moved the bump pointer: no disk named, an
/// empty name, an empty file, or a readable file that fits a fresh aligned
/// region.
pub open spec fn spec_initrd_ready(
    m: FilesystemManager,
    v: int,
    next0: u64,
    ps: Seq<(u64, Seq<u8>)>,
    initrd: Option<Seq<char>>,
) -> bool {
    match initrd {
        None => true,
        Some(ip) => ip.len() == 0 || (spec_vol_read(m, v, ip) matches Ok(ib) && (ib.len() == 0 || (
        ib.len() <= u64::MAX && crate::hal::spec_reserve_base(
            kernel_formats::spec_next_after_placements(next0, ps) as u64,
            ib.len() as u64,
            16,
        ) is Some))),
    }
}

/// Everything a kernel-direct entry needs to reach the point of no return:
/// verification succeeds, the volume resolves, the kernel reads and parses,
/// its placements fit beside the existing reservations, and the initial RAM
/// disk (if named) stages.
pub open spec fn spec_kernel_direct_ready(
    m: FilesystemManager,
    keys: Seq<crate::security::signature::TrustedKeyRep>,
    hal0: HalServices,
    entry: BootEntry,
) -> bool {
    &&& entry.entry_type == BootEntryType::KernelDirect
    &&& (entry.secure ==> spec_verify_entry(m, keys, true, entry.kernel@) is Ok)
    &&& spec_resolve_volume(
        m,
        crate::config::schema_types::opt_str_view(entry.volume_id),
        entry.kernel@,
    ) matches Some(v) && (spec_vol_read(m, v, entry.kernel@) matches Ok(kb) && (spec_load_kernel(
        kb,
    ) matches Ok(p) && spec_placements_reservable(p.1, hal0.spec_reservations())
        && spec_initrd_ready(
        m,
        v,
        hal0.spec_alloc_next(),
        p.1,
        crate::config::schema_types::opt_str_view(entry.initrd),
    )))
}

/// Executes a boot entry up to the point of no return.
///
/// A secure entry is verified first; on failure the executor reports and
/// leaves every reservation untouched, so nothing of the entry reaches
/// memory. A kernel-direct entry is then read from its resolved volume,
/// placed, its initial RAM disk staged, its artifacts measured when a TPM
/// is present, and its architecture plan prepared. Chainload entries hand
/// their image back for the firmware; internal tools dispatch by name.
#[verifier::rlimit(100)]
pub fn execute_boot(
    hal: &mut HalServices,
    fs_manager: &FilesystemManager,
    security_manager: &mut SecurityManager,
    entry: &BootEntry,
) -> (r: Result<BootAction, BootExecuteError>)
    requires
        old(hal).wf(),
        old(security_manager).wf(),
        fs_manager.wf(),
    ensures
        final(hal).wf(),
        final(security_manager).wf(),
        final(security_manager).key_store.spec_keys() == old(
            security_manager,
        ).key_store.spec_keys(),
        entry.secure && spec_verify_entry(
            *fs_manager,
            old(security_manager).key_store.spec_keys(),
            true,
            entry.kernel@,
        ) is Err ==> (r matches Err(e) && e@
            == BootExecuteErrorRep::SignatureVerificationFailed(entry.kernel@) && *final(hal)
            == *old(hal) && *final(security_manager) == *old(security_manager)),
        spec_kernel_direct_ready(
            *fs_manager,
            old(security_manager).key_store.spec_keys(),
            *old(hal),
            *entry,
        ) ==> r is Ok,
        entry.entry_type == BootEntryType::InternalTool && (entry.secure ==> spec_verify_entry(
            *fs_manager,
            old(security_manager).key_store.spec_keys(),
            true,
            entry.kernel@,
        ) is Ok) ==> r is Ok,
        ((entry.entry_type == BootEntryType::UefiChainload || entry.entry_type
            == BootEntryType::UefiApplication) && (entry.secure ==> spec_verify_entry(
            *fs_manager,
            old(security_manager).key_store.spec_keys(),
            true,
            entry.kernel@,
        ) is Ok) && (spec_resolve_volume(
            *fs_manager,
            crate::config::schema_types::opt_str_view(entry.volume_id),
            entry.kernel@,
        ) matches Some(v) && spec_vol_read(*fs_manager, v, entry.kernel@) is Ok)) ==> r is Ok,
        r matches Ok(a) ==> {
            &&& (entry.secure ==> spec_verify_entry(
                *fs_manager,
                old(security_manager).key_store.spec_keys(),
                true,
                entry.kernel@,
            ) is Ok)
            &&& match a {
                BootAction::JumpKernel { kernel, placements, initrd, initrd_bytes, cmdline, plan, ebs } => {
                    &&& entry.entry_type == BootEntryType::KernelDirect
                    &&& cmdline@ == entry.cmdline@
                    &&& spec_resolve_volume(
                        *fs_manager,
                        crate::config::schema_types::opt_str_view(entry.volume_id),
                        entry.kernel@,
                    ) matches Some(v) && (exists|kb: Seq<u8>|
                        spec_vol_read(*fs_manager, v, entry.kernel@) == Ok::<Seq<u8>, FsErrorRep>(
                            kb,
                        ) && #[trigger] spec_load_kernel(kb) == Ok::<
                            (KernelInfo, Seq<(u64, Seq<u8>)>),
                            LoadErrorRepAlias,
                        >((kernel, placements_views(placements@)))) && (match initrd {
                        Some(info) => crate::config::schema_types::opt_str_view(entry.initrd)
                            matches Some(ip) && spec_vol_read(*fs_manager, v, ip) == Ok::<
                            Seq<u8>,
                            FsErrorRep,
                        >(initrd_bytes@) && info.size == initrd_bytes@.len(),
                        None => initrd_bytes@.len() == 0,
                    })
                    &&& (match initrd {
                        Some(info) => info.load_address % 16 == 0,
                        None => true,
                    })
                    &&& plan == spec_arch_plan(
                        *final(hal),
                        kernel,
                        initrd,
                        entry.cmdline@.len() as u64,
                        spec_selected_arch(entry.architecture),
                    )
                    &&& ebs == (EbsState::FirstAttempt {
                        key: final(hal).spec_boot_info().memory_map_key,
                    })
                },
                BootAction::Chainload { image } => {
                    &&& (entry.entry_type == BootEntryType::UefiChainload || entry.entry_type
                        == BootEntryType::UefiApplication)
                    &&& spec_resolve_volume(
                        *fs_manager,
                        crate::config::schema_types::opt_str_view(entry.volume_id),
                        entry.kernel@,
                    ) matches Some(v) && spec_vol_read(*fs_manager, v, entry.kernel@) == Ok::<
                        Seq<u8>,
                        FsErrorRep,
                    >(image@)
                },
                BootAction::InternalTool { name } => {
                    &&& entry.entry_type == BootEntryType::InternalTool
                    &&& name@ == entry.kernel@
                },
            }
        },
{
    // verification gate
    if entry.secure {
        match security_manager.verify_boot_entry(hal, fs_manager, entry) {
            Ok(_) => {},
            Err(_) => {
                return Err(BootExecuteError::SignatureVerificationFailed(entry.kernel.clone()));
            },
        }
    }
    match entry.entry_type {
        BootEntryType::InternalTool => {
            return Ok(BootAction::InternalTool { name: entry.kernel.clone() });
        },
        _ => {},
    }
    // resolve the volume
    let (v, volume_id) = match resolve_volume(fs_manager, entry) {
        Some(p) => p,
        None => {
            return Err(BootExecuteError::KernelNotFound(entry.kernel.clone()));
        },
    };
    proof {
        fs_manager.lemma_find_of_mounted(v as int);
    }
    // read the image
    let kernel_data = match fs_manager.read_file(volume_id.as_str(), entry.kernel.as_str()) {
        Ok(d) => d,
        Err(e) => {
            return Err(BootExecuteError::FilesystemError(e));
        },
    };
    match entry.entry_type {
        BootEntryType::UefiChainload | BootEntryType::UefiApplication => {
            return Ok(BootAction::Chainload { image: kernel_data });
        },
        _ => {},
    }
    prepare_kernel_jump(hal, fs_manager, security_manager, entry, Ghost(v as int), &volume_id, kernel_data)
}

/// Places a kernel-direct entry: loads the image, stages the initial RAM
/// disk, measures the artifacts, and prepares the architecture handoff.
#[verifier::rlimit(100)]
fn prepare_kernel_jump(
    hal: &mut HalServices,
    fs_manager: &FilesystemManager,
    security_manager: &mut SecurityManager,
    entry: &BootEntry,
    Ghost(v): Ghost<int>,
    volume_id: &String,
    kernel_data: Vec<u8>,
) -> (r: Result<BootAction, BootExecuteError>)
    requires
        old(hal).wf(),
        old(security_manager).wf(),
        fs_manager.wf(),
        entry.entry_type == BootEntryType::KernelDirect,
        spec_resolve_volume(
            *fs_manager,
            crate::config::schema_types::opt_str_view(entry.volume_id),
            entry.kernel@,
        ) == Some(v),
        0 <= v < fs_manager.spec_mounted().len(),
        spec_find_volume(fs_manager.spec_mounted(), volume_id@) == Some(v),
        spec_vol_read(*fs_manager, v, entry.kernel@) == Ok::<Seq<u8>, FsErrorRep>(kernel_data@),
    ensures
        final(hal).wf(),
        final(security_manager).wf(),
        final(security_manager).key_store.spec_keys() == old(
            security_manager,
        ).key_store.spec_keys(),
        (spec_load_kernel(kernel_data@) matches Ok(p) && spec_placements_reservable(
            p.1,
            old(hal).spec_reservations(),
        ) && spec_initrd_ready(
            *fs_manager,
            v,
            old(hal).spec_alloc_next(),
            p.1,
            crate::config::schema_types::opt_str_view(entry.initrd),
        )) ==> r is Ok,
        r matches Ok(a) ==> match a {
            BootAction::JumpKernel { kernel, placements, initrd, initrd_bytes, cmdline, plan, ebs } => {
                &&& entry.entry_type == BootEntryType::KernelDirect
                &&& cmdline@ == entry.cmdline@
                &&& spec_resolve_volume(
                    *fs_manager,
                    crate::config::schema_types::opt_str_view(entry.volume_id),
                    entry.kernel@,
                ) matches Some(v2) && (exists|kb: Seq<u8>|
                    spec_vol_read(*fs_manager, v2, entry.kernel@) == Ok::<Seq<u8>, FsErrorRep>(
                        kb,
                    ) && #[trigger] spec_load_kernel(kb) == Ok::<
                        (KernelInfo, Seq<(u64, Seq<u8>)>),
                        LoadErrorRepAlias,
                    >((kernel, placements_views(placements@)))) && (match initrd {
                    Some(info) => crate::config::schema_types::opt_str_view(entry.initrd)
                        matches Some(ip) && spec_vol_read(*fs_manager, v2, ip) == Ok::<
                        Seq<u8>,
                        FsErrorRep,
                    >(initrd_bytes@) && info.size == initrd_bytes@.len(),
                    None => initrd_bytes@.len() == 0,
                })
                &&& (match initrd {
                    Some(info) => info.load_address % 16 == 0,
                    None => true,
                })
                &&& plan == spec_arch_plan(
                    *final(hal),
                    kernel,
                    initrd,
                    entry.cmdline@.len() as u64,
                    spec_selected_arch(entry.architecture),
                )
                &&& ebs == (EbsState::FirstAttempt {
                    key: final(hal).spec_boot_info().memory_map_key,
                })
            },
            _ => false,
        },
{
    // place the kernel
    let (kernel_info, placements) = match kernel_formats::load_kernel(hal, kernel_data.as_slice()) {
        Ok(p) => p,
        Err(e) => {
            return Err(map_load_error(e));
        },
    };
    // stage the initial RAM disk
    let mut initrd_info: Option<LoadedImageInfo> = None;
    let mut initrd_data: Vec<u8> = Vec::new();
    match &entry.initrd {
        Some(initrd_path) => {
            if !initrd_path.as_str().is_empty() {
                let data = match fs_manager.read_file(volume_id.as_str(), initrd_path.as_str()) {
                    Ok(d) => d,
                    Err(_) => {
                        return Err(BootExecuteError::InitrdNotFound(initrd_path.clone()));
                    },
                };
                match kernel_formats::load_initrd(hal, data.as_slice()) {
                    Ok(info) => {
                        initrd_info = Some(info);
                        initrd_data = data;
                    },
                    Err(e) => {
                        return Err(map_load_error(e));
                    },
                }
            }
        },
        None => {},
    }
    // measure the artifacts
    if entry.secure && security_manager.is_tpm_available() {
        let _ = crate::security::tpm::measure_data_into_tpm_pcr(
            &mut security_manager.tpm_log,
            kernel_data.as_slice(),
            10,
            "KernelImage",
        );
        if initrd_data.len() > 0 {
            let _ = crate::security::tpm::measure_data_into_tpm_pcr(
                &mut security_manager.tpm_log,
                initrd_data.as_slice(),
                9,
                "InitrdImage",
            );
        }
        let _ = crate::security::tpm::measure_data_into_tpm_pcr(
            &mut security_manager.tpm_log,
            entry.cmdline.as_str().as_bytes(),
            8,
            "KernelCommandLine",
        );
    }
    // prepare the architecture handoff
    let arch = match entry.architecture {
        Some(a) => a,
        None => ArchitectureType::Any,
    };
    let (plan, ebs) = arch_adapter::prepare_and_jump_to_kernel(
        hal,
        kernel_info,
        initrd_info,
        entry.cmdline.as_str(),
        arch,
    );
    let ghost kb = kernel_data@;
    proof {
        assert(spec_vol_read(*fs_manager, v, entry.kernel@) == Ok::<Seq<u8>, FsErrorRep>(kb));
        assert(spec_load_kernel(kb) == Ok::<(KernelInfo, Seq<(u64, Seq<u8>)>), LoadErrorRepAlias>(
            (kernel_info, placements_views(placements@)),
        ));
    }
    Ok(
        BootAction::JumpKernel {
            kernel: kernel_info,
            placements,
            initrd: initrd_info,
            initrd_bytes: initrd_data,
            cmdline: entry.cmdline.clone(),
            plan,
            ebs,
        },
    )
}

/// Shorthand for the kernel loader's error shape.
pub type LoadErrorRepAlias = kernel_formats::LoadErrorRep;

/// Maps a loader error into the executor's taxonomy.
fn map_load_error(e: kernel_formats::LoadError) -> (r: BootExecuteError)
    ensures
        e@ is UnsupportedFormat ==> r@ is UnsupportedKernelFormat,
        e@ is InitrdLoadFailed ==> r@ is InitrdLoadFailed,
{
    match e {
        kernel_formats::LoadError::InvalidFormat(m) => BootExecuteError::KernelLoadFailed(m),
        kernel_formats::LoadError::UnsupportedFormat(m) => BootExecuteError::UnsupportedKernelFormat(
            m,
        ),
        kernel_formats::LoadError::MemoryAllocationFailed(m) => BootExecuteError::KernelLoadFailed(
            m,
        ),
        kernel_formats::LoadError::SegmentLoadFailed(m) => BootExecuteError::KernelLoadFailed(m),
        kernel_formats::LoadError::InitrdLoadFailed(m) => BootExecuteError::InitrdLoadFailed(m),
        kernel_formats::LoadError::Internal(m) => BootExecuteError::InternalError(m),
    }
}

} // verus!
