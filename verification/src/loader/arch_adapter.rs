//! Architecture adapter: lays out the per-ISA handoff.
//!
//! The adapter computes everything a jump needs as plain data — the
//! boot-params block for x86-64, the register assignments for the other
//! ISAs — and the ExitBootServices schedule. The unverified shell loads the
//! registers and performs the jump; it drives the ExitBootServices state
//! machine with the firmware's answers, which retries exactly once with a
//! freshly fetched memory-map key.

use vstd::prelude::*;
use crate::config::schema_types::ArchitectureType;
use crate::hal::HalServices;
use crate::loader::kernel_formats::KernelInfo;
use crate::loader::kernel_formats::LoadedImageInfo;
use vstd::string::StringSliceAdditionalSpecFns;

verus! {

/// Magic tag at the head of the x86-64 boot-params block.
pub const LBL_BOOT_MAGIC_X86_64: u64 = 0x4C42_4C38_3642_5421;

/// Version of the boot-params layout.
pub const LBL_BOOT_PARAMS_VERSION: u32 = 1;

/// Fixed-layout boot-params block handed to an x86-64 kernel.
#[derive(Clone, Copy, PartialEq, Eq, Structural, Debug)]
pub struct BootParamsX86_64 {
    pub magic: u64,
    pub version: u32,
    pub kernel_entry: u64,
    pub kernel_base: u64,
    pub kernel_size: u64,
    pub initrd_base: u64,
    pub initrd_size: u64,
    pub cmdline_len: u64,
    pub memory_map_ptr: u64,
    pub memory_map_entries: u64,
    pub framebuffer_addr: u64,
    pub framebuffer_width: u32,
    pub framebuffer_height: u32,
    pub framebuffer_pitch: u32,
    pub framebuffer_bpp: u8,
    pub acpi_rsdp_ptr: u64,
}

/// The register assignments of a prepared jump, by ISA.
#[derive(Clone, Copy, PartialEq, Eq, Structural, Debug)]
pub enum ArchPlan {
    /// Interrupts off, boot-params pointer in the first integer-argument
    /// register, jump to the entry.
    X86_64 { entry: u64, params: BootParamsX86_64 },
    /// Multiboot-style info pointer in the conventional register, magic in
    /// the accumulator.
    X86 { entry: u64, info_ptr: u64, magic: u32 },
    /// Device-tree address in the first register, next three cleared,
    /// exceptions masked.
    Aarch64 { entry: u64, dtb_ptr: u64 },
    /// Device-tree or board-tag pointer per board convention, SVC mode.
    Arm { entry: u64, dtb_ptr: u64 },
    /// Hart id in the first argument register, device-tree address in the
    /// second, supervisor interrupts cleared.
    Riscv { entry: u64, hart_id: u64, dtb_ptr: u64, rv64: bool },
}

/// State of the ExitBootServices schedule.
#[derive(Clone, Copy, PartialEq, Eq, Structural, Debug)]
pub enum EbsState {
    /// About to call with the key fetched at handoff.
    FirstAttempt { key: usize },
    /// The first call found the key stale; about to call once more with a
    /// freshly fetched key.
    Retrying { key: usize },
    /// The firmware accepted a call; boot services are gone.
    Done,
    /// The retry found the key stale as well; the boot cannot proceed.
    Failed,
}

/// What the firmware answered one ExitBootServices call.
#[derive(Clone, Copy, PartialEq, Eq, Structural, Debug)]
pub enum EbsOutcome {
    Success,
    StaleKey,
}

/// The transition rule of the ExitBootServices schedule.
pub open spec fn spec_ebs_step(state: EbsState, outcome: EbsOutcome, fresh_key: usize) -> EbsState {
    match state {
        EbsState::FirstAttempt { key: _ } => match outcome {
            EbsOutcome::Success => EbsState::Done,
            EbsOutcome::StaleKey => EbsState::Retrying { key: fresh_key },
        },
        EbsState::Retrying { key: _ } => match outcome {
            EbsOutcome::Success => EbsState::Done,
            EbsOutcome::StaleKey => EbsState::Failed,
        },
        EbsState::Done => EbsState::Done,
        EbsState::Failed => EbsState::Failed,
    }
}

/// The schedule starts with the key the handoff carried.
pub fn ebs_init(hal: &HalServices) -> (r: EbsState)
    ensures
        r == (EbsState::FirstAttempt { key: hal.spec_boot_info().memory_map_key }),
{
    EbsState::FirstAttempt { key: hal.memory_map_key() }
}

/// Advances the schedule by one firmware answer. On a stale key the next
/// call uses `fresh_key`, the key of a freshly fetched memory map.
pub fn ebs_step(state: EbsState, outcome: EbsOutcome, fresh_key: usize) -> (r: EbsState)
    ensures
        r == spec_ebs_step(state, outcome, fresh_key),
{
    match state {
        EbsState::FirstAttempt { key: _ } => match outcome {
            EbsOutcome::Success => EbsState::Done,
            EbsOutcome::StaleKey => EbsState::Retrying { key: fresh_key },
        },
        EbsState::Retrying { key: _ } => match outcome {
            EbsOutcome::Success => EbsState::Done,
            EbsOutcome::StaleKey => EbsState::Failed,
        },
        EbsState::Done => EbsState::Done,
        EbsState::Failed => EbsState::Failed,
    }
}

/// A key invalidated between fetch and call costs exactly one retry, made
/// with the fresh key, and the retry's success ends the schedule.
pub proof fn lemma_ebs_one_retry(key: usize, fresh_key: usize, later_key: usize)
    ensures
        spec_ebs_step(EbsState::FirstAttempt { key }, EbsOutcome::StaleKey, fresh_key)
            == (EbsState::Retrying { key: fresh_key }),
        spec_ebs_step(
            spec_ebs_step(EbsState::FirstAttempt { key }, EbsOutcome::StaleKey, fresh_key),
            EbsOutcome::Success,
            later_key,
        ) == EbsState::Done,
        spec_ebs_step(
            spec_ebs_step(EbsState::FirstAttempt { key }, EbsOutcome::StaleKey, fresh_key),
            EbsOutcome::StaleKey,
            later_key,
        ) == EbsState::Failed,
{
}

/// A successful first call never retries.
pub proof fn lemma_ebs_no_retry_on_success(key: usize, fresh_key: usize)
    ensures
        spec_ebs_step(EbsState::FirstAttempt { key }, EbsOutcome::Success, fresh_key)
            == EbsState::Done,
{
}

/// The boot-params block for a prepared x86-64 jump.
pub open spec fn spec_boot_params(
    hal: HalServices,
    kernel_info: KernelInfo,
    initrd_info: Option<LoadedImageInfo>,
    cmdline_len: u64,
) -> BootParamsX86_64 {
    BootParamsX86_64 {
        magic: LBL_BOOT_MAGIC_X86_64,
        version: LBL_BOOT_PARAMS_VERSION,
        kernel_entry: kernel_info.entry_point,
        kernel_base: kernel_info.load_address,
        kernel_size: kernel_info.size,
        initrd_base: match initrd_info {
            Some(i) => i.load_address,
            None => 0,
        },
        initrd_size: match initrd_info {
            Some(i) => i.size,
            None => 0,
        },
        cmdline_len,
        memory_map_ptr: hal.spec_boot_info().memory_map_ptr,
        memory_map_entries: hal.spec_memory_map().len() as u64,
        framebuffer_addr: hal.spec_boot_info().framebuffer_addr,
        framebuffer_width: hal.spec_boot_info().framebuffer_width,
        framebuffer_height: hal.spec_boot_info().framebuffer_height,
        framebuffer_pitch: hal.spec_boot_info().framebuffer_pitch,
        framebuffer_bpp: hal.spec_boot_info().framebuffer_bpp,
        acpi_rsdp_ptr: hal.spec_boot_info().acpi_rsdp_ptr,
    }
}

/// The register plan the selected architecture requires.
pub open spec fn spec_arch_plan(
    hal: HalServices,
    kernel_info: KernelInfo,
    initrd_info: Option<LoadedImageInfo>,
    cmdline_len: u64,
    arch: ArchitectureType,
) -> ArchPlan {
    match arch {
        ArchitectureType::X86 => ArchPlan::X86 {
            entry: kernel_info.entry_point,
            info_ptr: 0,
            magic: 0x2BADB002,
        },
        ArchitectureType::Arm => ArchPlan::Arm {
            entry: kernel_info.entry_point,
            dtb_ptr: hal.spec_boot_info().acpi_rsdp_ptr,
        },
        ArchitectureType::Aarch64 => ArchPlan::Aarch64 {
            entry: kernel_info.entry_point,
            dtb_ptr: hal.spec_boot_info().acpi_rsdp_ptr,
        },
        ArchitectureType::Riscv32 => ArchPlan::Riscv {
            entry: kernel_info.entry_point,
            hart_id: 0,
            dtb_ptr: hal.spec_boot_info().acpi_rsdp_ptr,
            rv64: false,
        },
        ArchitectureType::Riscv64 => ArchPlan::Riscv {
            entry: kernel_info.entry_point,
            hart_id: 0,
            dtb_ptr: hal.spec_boot_info().acpi_rsdp_ptr,
            rv64: true,
        },
        _ => ArchPlan::X86_64 {
            entry: kernel_info.entry_point,
            params: spec_boot_params(hal, kernel_info, initrd_info, cmdline_len),
        },
    }
}

/// Prepares the architecture-specific handoff: the register plan of the
/// selected ISA and the ExitBootServices schedule the shell must drive to
/// completion immediately before the jump.
pub fn prepare_and_jump_to_kernel(
    hal: &HalServices,
    kernel_info: KernelInfo,
    initrd_info: Option<LoadedImageInfo>,
    cmdline: &str,
    arch: ArchitectureType,
) -> (r: (ArchPlan, EbsState))
    ensures
        r.0 == spec_arch_plan(*hal, kernel_info, initrd_info, cmdline@.len() as u64, arch),
        r.1 == (EbsState::FirstAttempt { key: hal.spec_boot_info().memory_map_key }),
{
    let cmdline_len = cmdline.unicode_len() as u64;
    let bi = hal.boot_info();
    let plan = match arch {
        ArchitectureType::X86 => ArchPlan::X86 {
            entry: kernel_info.entry_point,
            info_ptr: 0,
            magic: 0x2BADB002,
        },
        ArchitectureType::Arm => ArchPlan::Arm {
            entry: kernel_info.entry_point,
            dtb_ptr: hal.boot_info.acpi_rsdp_ptr,
        },
        ArchitectureType::Aarch64 => ArchPlan::Aarch64 {
            entry: kernel_info.entry_point,
            dtb_ptr: hal.boot_info.acpi_rsdp_ptr,
        },
        ArchitectureType::Riscv32 => ArchPlan::Riscv {
            entry: kernel_info.entry_point,
            hart_id: 0,
            dtb_ptr: hal.boot_info.acpi_rsdp_ptr,
            rv64: false,
        },
        ArchitectureType::Riscv64 => ArchPlan::Riscv {
            entry: kernel_info.entry_point,
            hart_id: 0,
            dtb_ptr: hal.boot_info.acpi_rsdp_ptr,
            rv64: true,
        },
        _ => {
            let params = BootParamsX86_64 {
                magic: LBL_BOOT_MAGIC_X86_64,
                version: LBL_BOOT_PARAMS_VERSION,
                kernel_entry: kernel_info.entry_point,
                kernel_base: kernel_info.load_address,
                kernel_size: kernel_info.size,
                initrd_base: match &initrd_info {
                    Some(i) => i.load_address,
                    None => 0,
                },
                initrd_size: match &initrd_info {
                    Some(i) => i.size,
                    None => 0,
                },
                cmdline_len,
                memory_map_ptr: hal.boot_info.memory_map_ptr,
                memory_map_entries: bi.memory_map_entries,
                framebuffer_addr: hal.boot_info.framebuffer_addr,
                framebuffer_width: hal.boot_info.framebuffer_width,
                framebuffer_height: hal.boot_info.framebuffer_height,
                framebuffer_pitch: hal.boot_info.framebuffer_pitch,
                framebuffer_bpp: hal.boot_info.framebuffer_bpp,
                acpi_rsdp_ptr: hal.boot_info.acpi_rsdp_ptr,
            };
            ArchPlan::X86_64 { entry: kernel_info.entry_point, params }
        },
    };
    (plan, ebs_init(hal))
}

} // verus!
