//! Hardware abstraction layer.
//!
//! Validates the handoff record of the first-stage loader, freezes it as the
//! engine's view of the machine, and offers the services the rest of the
//! engine needs: the device inventory, a monotonic millisecond clock, and a
//! bump reservation service over the handoff memory map. Reading the record
//! and the map out of raw memory, and the platform timer tick, belong to the
//! unverified shell; everything handed in here is plain data.

use vstd::prelude::*;

pub mod device_manager;
pub mod probe;

verus! {

/// Magic tag that the first stage writes at the head of the handoff record.
pub const LBL_BOOT_INFO_MAGIC: u64 = 0x4C42_4C5F_4249_4D47;

/// Handoff record version this engine understands.
pub const LBL_BOOT_INFO_VERSION: u32 = 1;

/// First physical address the bump reservation service hands out.
pub const RESERVATION_BASE: u64 = 0x0200_0000;

/// Condensed summary of the handoff record.
#[derive(Clone, Copy, PartialEq, Eq, Structural, Debug)]
pub struct BootInfo {
    pub magic: u64,
    pub version: u32,
    pub memory_map_addr: u64,
    pub memory_map_entries: u64,
    pub framebuffer_addr: u64,
    pub framebuffer_width: u32,
    pub framebuffer_height: u32,
    pub framebuffer_pitch: u32,
    pub framebuffer_bpp: u8,
}

/// The handoff record exactly as the first stage lays it out, little-endian,
/// with pointers carried as plain addresses.
#[derive(Clone, Copy, PartialEq, Eq, Structural, Debug)]
pub struct LblBootInfoRaw {
    pub magic: u64,
    pub version: u32,
    pub header_size: u32,
    pub total_size: u32,
    pub core_load_addr: u64,
    pub core_size: u64,
    pub core_entry_offset: u64,
    pub memory_map_ptr: u64,
    pub memory_map_size: usize,
    pub memory_map_key: usize,
    pub memory_descriptor_size: usize,
    pub memory_descriptor_version: u32,
    pub framebuffer_addr: u64,
    pub framebuffer_size: u64,
    pub framebuffer_width: u32,
    pub framebuffer_height: u32,
    pub framebuffer_pitch: u32,
    pub framebuffer_bpp: u8,
    pub framebuffer_pixel_format_info: u8,
    pub reserved_graphics: u16,
    pub acpi_rsdp_ptr: u64,
    pub efi_system_table_ptr: u64,
    pub reserved1: u64,
    pub reserved2: u64,
}

/// One entry of the firmware memory map, in the firmware's native layout.
#[derive(Clone, Copy, PartialEq, Eq, Structural, Debug)]
pub struct EfiMemoryDescriptorRaw {
    pub descriptor_type: u32,
    pub physical_start: u64,
    pub virtual_start: u64,
    pub number_of_pages: u64,
    pub attribute: u64,
}

/// Reasons the handoff cannot be accepted.
#[derive(Clone, Copy, PartialEq, Eq, Structural, Debug)]
pub enum HalError {
    NullBootInfo,
    InvalidBootInfoMagic,
    MemoryMapParsingFailed,
    AcpiInitializationFailed,
}

/// A kind of discovered hardware endpoint.
#[derive(Clone, Copy, PartialEq, Eq, Structural, Debug)]
pub enum DeviceType {
    Storage,
    Network,
    Gpu,
    InputKeyboard,
    InputMouse,
    InputTouch,
    InputGamepad,
    SerialPort,
    UsbController,
    PciBridge,
    Other,
}

/// A discovered hardware endpoint. For storage devices `content` carries a
/// snapshot of the backing medium's bytes, handed over by the probe; for
/// every other kind it is empty.
pub struct Device {
    pub id: u64,
    pub name: String,
    pub device_type: DeviceType,
    pub content: Vec<u8>,
}

/// A physical region handed out by the reservation service, recorded so the
/// map passed on to a kernel shows it as bootloader-reclaimable.
#[derive(Clone, Copy, PartialEq, Eq, Structural, Debug)]
pub struct MemoryReservation {
    pub base: u64,
    pub size: u64,
}

/// True when `addr` lies inside a region of the memory map.
pub open spec fn map_covers(map: Seq<EfiMemoryDescriptorRaw>, addr: u64) -> bool {
    exists|i: int|
        0 <= i < map.len() && #[trigger] map[i].physical_start <= addr && (addr as int) < map[i].physical_start
            + map[i].number_of_pages * 4096
}

/// The whole validation rule for a handoff record, in evaluation order.
pub open spec fn spec_validate_handoff(
    raw_opt: Option<LblBootInfoRaw>,
    map: Seq<EfiMemoryDescriptorRaw>,
) -> Result<(), HalError> {
    match raw_opt {
        None => Err(HalError::NullBootInfo),
        Some(raw) => if raw.magic != LBL_BOOT_INFO_MAGIC {
            Err(HalError::InvalidBootInfoMagic)
        } else if raw.version != LBL_BOOT_INFO_VERSION {
            Err(HalError::InvalidBootInfoMagic)
        } else if raw.memory_map_ptr == 0 || raw.memory_descriptor_size == 0 || map.len() == 0
            || raw.memory_map_size != map.len() * raw.memory_descriptor_size {
            Err(HalError::MemoryMapParsingFailed)
        } else if raw.acpi_rsdp_ptr != 0 && !map_covers(map, raw.acpi_rsdp_ptr) {
            Err(HalError::AcpiInitializationFailed)
        } else {
            Ok(())
        },
    }
}

/// Two reservations do not overlap.
pub open spec fn reservations_disjoint(a: MemoryReservation, b: MemoryReservation) -> bool {
    a.base + a.size <= b.base || b.base + b.size <= a.base
}

/// The base a bump reservation of `size` bytes aligned to `align` would get
/// from bump pointer `next`, or nothing when the address space runs out.
pub open spec fn spec_reserve_base(next: u64, size: u64, align: u64) -> Option<u64>
    recommends
        align >= 1,
{
    let rem = next % align;
    let pad = if rem == 0 {
        0int
    } else {
        align - rem
    };
    if next + pad + size > u64::MAX {
        None
    } else {
        Some((next + pad) as u64)
    }
}

/// The live services of the machine, frozen from a validated handoff.
pub struct HalServices {
    pub boot_info: LblBootInfoRaw,
    pub memory_map: Vec<EfiMemoryDescriptorRaw>,
    pub device_manager: device_manager::DeviceManager,
    pub last_time_ms: u64,
    pub alloc_next: u64,
    pub reservations: Vec<MemoryReservation>,
    pub tpm_present: bool,
}

impl HalServices {
    /// The validated handoff record.
    pub open spec fn spec_boot_info(&self) -> LblBootInfoRaw {
        self.boot_info
    }

    /// The firmware memory map.
    pub open spec fn spec_memory_map(&self) -> Seq<EfiMemoryDescriptorRaw> {
        self.memory_map@
    }

    /// The last value the monotonic clock returned.
    pub open spec fn spec_last_time(&self) -> u64 {
        self.last_time_ms
    }

    /// Lowest address the reservation service would hand out next.
    pub open spec fn spec_alloc_next(&self) -> u64 {
        self.alloc_next
    }

    /// Every region handed out so far, in order.
    pub open spec fn spec_reservations(&self) -> Seq<MemoryReservation> {
        self.reservations@
    }

    /// Whether a TPM 2.0 device was found when the platform was probed.
    pub open spec fn spec_tpm_present(&self) -> bool {
        self.tpm_present
    }

    /// Reservations are pairwise disjoint and lie below the bump pointer.
    pub open spec fn wf(&self) -> bool {
        &&& self.device_manager.wf()
        &&& forall|i: int|
            0 <= i < self.spec_reservations().len() ==> #[trigger] self.spec_reservations()[i].base
                + self.spec_reservations()[i].size <= self.spec_alloc_next()
        &&& forall|i: int, j: int|
            0 <= i < j < self.spec_reservations().len() ==> reservations_disjoint(
                #[trigger] self.spec_reservations()[i],
                #[trigger] self.spec_reservations()[j],
            )
    }

    /// The condensed handoff summary.
    pub fn boot_info(&self) -> (r: BootInfo)
        ensures
            r.magic == self.spec_boot_info().magic,
            r.version == self.spec_boot_info().version,
            r.memory_map_addr == self.spec_boot_info().memory_map_ptr,
            r.memory_map_entries == self.spec_memory_map().len(),
            r.framebuffer_addr == self.spec_boot_info().framebuffer_addr,
            r.framebuffer_width == self.spec_boot_info().framebuffer_width,
            r.framebuffer_height == self.spec_boot_info().framebuffer_height,
            r.framebuffer_pitch == self.spec_boot_info().framebuffer_pitch,
            r.framebuffer_bpp == self.spec_boot_info().framebuffer_bpp,
    {
        BootInfo {
            magic: self.boot_info.magic,
            version: self.boot_info.version,
            memory_map_addr: self.boot_info.memory_map_ptr,
            memory_map_entries: self.memory_map.len() as u64,
            framebuffer_addr: self.boot_info.framebuffer_addr,
            framebuffer_width: self.boot_info.framebuffer_width,
            framebuffer_height: self.boot_info.framebuffer_height,
            framebuffer_pitch: self.boot_info.framebuffer_pitch,
            framebuffer_bpp: self.boot_info.framebuffer_bpp,
        }
    }

    /// The memory-map key the firmware handed over.
    pub fn memory_map_key(&self) -> (r: usize)
        ensures
            r == self.spec_boot_info().memory_map_key,
    {
        self.boot_info.memory_map_key
    }

    /// Read access to the memory map.
    pub fn memory_map(&self) -> (r: &Vec<EfiMemoryDescriptorRaw>)
        ensures
            r@ == self.spec_memory_map(),
    {
        &self.memory_map
    }

    /// Read access to the reservation record.
    pub fn reservations(&self) -> (r: &Vec<MemoryReservation>)
        ensures
            r@ == self.spec_reservations(),
    {
        &self.reservations
    }

    /// Whether a TPM 2.0 device was found when the platform was probed.
    pub fn tpm_present(&self) -> (r: bool)
        ensures
            r == self.spec_tpm_present(),
    {
        self.tpm_present
    }

    /// Monotonic time in milliseconds. `raw_tick` is the platform timer's
    /// reading; the result never goes backwards, whatever the timer does.
    pub fn get_current_time_ms(&mut self, raw_tick: u64) -> (r: u64)
        ensures
            r >= old(self).spec_last_time(),
            r == spec_clock_next(old(self).spec_last_time(), raw_tick),
            final(self).spec_last_time() == r,
            *final(self) == (HalServices { last_time_ms: r, ..*old(self) }),
    {
        if raw_tick >= self.last_time_ms {
            self.last_time_ms = raw_tick;
        }
        self.last_time_ms
    }

    /// Reserves `size` bytes aligned to `align` from the bump region and
    /// records the region. Returns its base address, exactly when the
    /// aligned region still fits the address space.
    pub fn reserve_region(&mut self, size: u64, align: u64) -> (r: Option<u64>)
        requires
            old(self).wf(),
            align >= 1,
            size >= 1,
        ensures
            final(self).wf(),
            r == spec_reserve_base(old(self).spec_alloc_next(), size, align),
            match r {
                Some(base) => {
                    &&& base % align == 0
                    &&& base >= old(self).spec_alloc_next()
                    &&& base + size <= u64::MAX
                    &&& final(self).spec_alloc_next() == base + size
                    &&& final(self).spec_reservations() == old(self).spec_reservations().push(
                        MemoryReservation { base, size },
                    )
                    &&& *final(self) == (HalServices {
                        alloc_next: final(self).spec_alloc_next(),
                        reservations: final(self).reservations,
                        ..*old(self)
                    })
                },
                None => *final(self) == *old(self),
            },
    {
        let next = self.alloc_next;
        let rem = next % align;
        let pad = if rem == 0 {
            0u64
        } else {
            align - rem
        };
        if next > u64::MAX - pad {
            return None;
        }
        let base = next + pad;
        if base > u64::MAX - size {
            return None;
        }
        proof {
            assert(base % align == 0) by (nonlinear_arith)
                requires
                    align >= 1,
                    rem == next % align,
                    pad == if rem == 0 {
                        0u64
                    } else {
                        (align - rem) as u64
                    },
                    base == next + pad,
            ;
        }
        self.alloc_next = base + size;
        self.reservations.push(MemoryReservation { base, size });
        proof {
            let res = self.spec_reservations();
            let oldres = old(self).spec_reservations();
            let k = res.len() - 1;
            assert forall|i: int| 0 <= i < res.len() implies #[trigger] res[i].base + res[i].size
                <= self.spec_alloc_next() by {
                if i < k {
                    assert(res[i] == oldres[i]);
                    assert(oldres[i].base + oldres[i].size <= old(self).spec_alloc_next());
                }
            }
            assert forall|i: int, j: int| 0 <= i < j < res.len() implies reservations_disjoint(
                #[trigger] res[i],
                #[trigger] res[j],
            ) by {
                assert(res[i] == oldres[i]);
                if j < k {
                    assert(res[j] == oldres[j]);
                    assert(reservations_disjoint(oldres[i], oldres[j]));
                } else {
                    assert(oldres[i].base + oldres[i].size <= old(self).spec_alloc_next());
                }
            }
        }
        Some(base)
    }

    /// Records a reservation at a caller-chosen physical address, as the
    /// kernel loader needs for LOAD segments. Fails exactly when the region
    /// would overlap one already handed out.
    pub fn reserve_fixed_region(&mut self, base: u64, size: u64) -> (r: bool)
        requires
            old(self).wf(),
            size >= 1,
            base + size <= u64::MAX,
        ensures
            final(self).wf(),
            r == (forall|i: int|
                0 <= i < old(self).spec_reservations().len() ==> reservations_disjoint(
                    #[trigger] old(self).spec_reservations()[i],
                    MemoryReservation { base, size },
                )),
            r ==> {
                &&& final(self).spec_reservations() == old(self).spec_reservations().push(
                    MemoryReservation { base, size },
                )
                &&& final(self).spec_alloc_next() == if base + size
                    > old(self).spec_alloc_next() {
                    (base + size) as u64
                } else {
                    old(self).spec_alloc_next()
                }
                &&& *final(self) == (HalServices {
                    alloc_next: final(self).spec_alloc_next(),
                    reservations: final(self).reservations,
                    ..*old(self)
                })
            },
            !r ==> *final(self) == *old(self),
    {
        let n = self.reservations.len();
        let mut i: usize = 0;
        while i < n
            invariant
                n == self.reservations@.len(),
                i <= n,
                forall|k: int|
                    0 <= k < i ==> reservations_disjoint(
                        #[trigger] self.reservations@[k],
                        MemoryReservation { base, size },
                    ),
                base + size <= u64::MAX,
                self == old(self),
                self.wf(),
            decreases n - i,
        {
            let e = self.reservations[i];
            if !(e.base + e.size <= base || base + size <= e.base) {
                return false;
            }
            i = i + 1;
        }
        if base + size > self.alloc_next {
            self.alloc_next = base + size;
        }
        self.reservations.push(MemoryReservation { base, size });
        true
    }
}

/// The clock transition: a reading never drops below the last one.
pub open spec fn spec_clock_next(last: u64, raw_tick: u64) -> u64 {
    if raw_tick >= last {
        raw_tick
    } else {
        last
    }
}

/// Monotonic time: of any two successive readings, the second is at least
/// the first, whatever the raw timer reported in between.
pub proof fn lemma_clock_monotone(last: u64, t1: u64, t2: u64)
    ensures
        spec_clock_next(spec_clock_next(last, t1), t2) >= spec_clock_next(last, t1),
        spec_clock_next(last, t1) >= last,
{
}

/// Validates the handoff record and the memory map read beside it, and
/// freezes them into the engine's service context. The device inventory
/// starts empty; probes fill it. `tpm_present` is the platform probe's
/// answer for a TPM 2.0 device.
pub fn initialize(
    raw_opt: Option<LblBootInfoRaw>,
    memory_map: Vec<EfiMemoryDescriptorRaw>,
    tpm_present: bool,
) -> (r: Result<HalServices, HalError>)
    ensures
        match r {
            Ok(h) => {
                &&& spec_validate_handoff(raw_opt, memory_map@) == Ok::<(), HalError>(())
                &&& h.wf()
                &&& h.spec_boot_info() == raw_opt.unwrap()
                &&& h.spec_memory_map() == memory_map@
                &&& h.device_manager.spec_devices() == Seq::<Device>::empty()
                &&& h.spec_last_time() == 0u64
                &&& h.spec_alloc_next() == RESERVATION_BASE
                &&& h.spec_reservations() == Seq::<MemoryReservation>::empty()
                &&& h.spec_tpm_present() == tpm_present
            },
            Err(e) => spec_validate_handoff(raw_opt, memory_map@) == Err::<(), HalError>(e),
        },
{
    let raw = match raw_opt {
        None => {
            return Err(HalError::NullBootInfo);
        },
        Some(raw) => raw,
    };
    if raw.magic != LBL_BOOT_INFO_MAGIC {
        return Err(HalError::InvalidBootInfoMagic);
    }
    if raw.version != LBL_BOOT_INFO_VERSION {
        return Err(HalError::InvalidBootInfoMagic);
    }
    if raw.memory_map_ptr == 0 || raw.memory_descriptor_size == 0 || memory_map.len() == 0 {
        return Err(HalError::MemoryMapParsingFailed);
    }
    let entries = memory_map.len() as u128;
    let stride = raw.memory_descriptor_size as u128;
    proof {
        assert(entries * stride <= u128::MAX) by (nonlinear_arith)
            requires
                entries < 0x1_0000_0000_0000_0000,
                stride < 0x1_0000_0000_0000_0000,
        ;
    }
    if raw.memory_map_size as u128 != entries * stride {
        return Err(HalError::MemoryMapParsingFailed);
    }
    if raw.acpi_rsdp_ptr != 0 && !exec_map_covers(&memory_map, raw.acpi_rsdp_ptr) {
        return Err(HalError::AcpiInitializationFailed);
    }
    let h = HalServices {
        boot_info: raw,
        memory_map,
        device_manager: device_manager::DeviceManager::new(),
        last_time_ms: 0,
        alloc_next: RESERVATION_BASE,
        reservations: Vec::new(),
        tpm_present,
    };
    proof {
        assert(h.spec_reservations() =~= Seq::<MemoryReservation>::empty());
    }
    Ok(h)
}

/// Checks whether `addr` lies inside a region of the memory map.
fn exec_map_covers(map: &Vec<EfiMemoryDescriptorRaw>, addr: u64) -> (r: bool)
    ensures
        r == map_covers(map@, addr),
{
    let n = map.len();
    let mut i: usize = 0;
    while i < n
        invariant
            n == map@.len(),
            i <= n,
            forall|k: int|
                0 <= k < i ==> !(#[trigger] map@[k].physical_start <= addr && (addr as int)
                    < map@[k].physical_start + map@[k].number_of_pages * 4096),
        decreases n - i,
    {
        let e = map[i];
        let end: u128 = e.physical_start as u128 + e.number_of_pages as u128 * 4096;
        if e.physical_start <= addr && (addr as u128) < end {
            return true;
        }
        i = i + 1;
    }
    false
}

/// Starts the cooperative device-probe tasks.
pub fn start_async_device_probes(hal: &mut HalServices) -> (r: probe::ProbeHandle)
    ensures
        *final(hal) == *old(hal),
        r.wf(),
        r.spec_completed() == 0,
        r.spec_total() == probe::PROBE_TASK_COUNT,
        !r.spec_cancelled(),
{
    probe::start_probes()
}

} // verus!
