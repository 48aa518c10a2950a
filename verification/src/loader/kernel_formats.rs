//! Kernel image loading.
//!
//! ELF64 is the mandatory format: every LOAD segment with a nonzero memory
//! size is given a reserved physical region at its virtual address; the
//! placement holds the segment's file bytes followed by zero fill up to its
//! memory size. The kernel base is the lowest LOAD address, the span reaches
//! to the end of the highest segment, and the entry point is taken verbatim
//! from the header. The placements are returned as plain bytes; the
//! unverified shell performs the physical copies. Initial RAM disks are
//! staged verbatim in a fresh 16-byte-aligned region.

use vstd::prelude::*;
use crate::hal::HalServices;
use crate::hal::MemoryReservation;
use crate::hal::reservations_disjoint;
use crate::util::le16_at;
use crate::util::le64_at;
use crate::util::read_le16;
use crate::util::read_le32;
use crate::util::read_le64;

verus! {

/// Information about a loaded kernel image.
#[derive(Clone, Copy, PartialEq, Eq, Structural, Debug)]
pub struct KernelInfo {
    pub entry_point: u64,
    pub load_address: u64,
    pub size: u64,
    pub stack_ptr: Option<u64>,
}

/// Staging record of a loaded flat image such as an initial RAM disk.
#[derive(Clone, Copy, PartialEq, Eq, Structural, Debug)]
pub struct LoadedImageInfo {
    pub load_address: u64,
    pub size: u64,
}

/// Errors of kernel and image loading.
#[derive(Debug)]
pub enum LoadError {
    InvalidFormat(String),
    UnsupportedFormat(String),
    MemoryAllocationFailed(String),
    SegmentLoadFailed(String),
    InitrdLoadFailed(String),
    Internal(String),
}

/// The mathematical shape of a load error.
#[verifier::ext_equal]
pub enum LoadErrorRep {
    InvalidFormat(Seq<char>),
    UnsupportedFormat(Seq<char>),
    MemoryAllocationFailed(Seq<char>),
    SegmentLoadFailed(Seq<char>),
    InitrdLoadFailed(Seq<char>),
    Internal(Seq<char>),
}

impl View for LoadError {
    type V = LoadErrorRep;

    open spec fn view(&self) -> LoadErrorRep {
        match self {
            LoadError::InvalidFormat(s) => LoadErrorRep::InvalidFormat(s@),
            LoadError::UnsupportedFormat(s) => LoadErrorRep::UnsupportedFormat(s@),
            LoadError::MemoryAllocationFailed(s) => LoadErrorRep::MemoryAllocationFailed(s@),
            LoadError::SegmentLoadFailed(s) => LoadErrorRep::SegmentLoadFailed(s@),
            LoadError::InitrdLoadFailed(s) => LoadErrorRep::InitrdLoadFailed(s@),
            LoadError::Internal(s) => LoadErrorRep::Internal(s@),
        }
    }
}

/// One program header of interest.
#[derive(Clone, Copy, PartialEq, Eq, Structural, Debug)]
pub struct SegRep {
    pub vaddr: u64,
    pub offset: u64,
    pub filesz: u64,
    pub memsz: u64,
}

/// Whether the bytes look like an ELF64 image: magic and 64-bit class.
pub open spec fn spec_is_elf64(d: Seq<u8>) -> bool {
    d.len() > 4 && d[0] == 0x7f && d[1] == 0x45 && d[2] == 0x4c && d[3] == 0x46 && d[4] == 2
}

/// Entry point from the ELF header.
pub open spec fn spec_elf_entry(d: Seq<u8>) -> u64 {
    le64_at(d, 24)
}

/// Program-header table offset from the ELF header.
pub open spec fn spec_elf_phoff(d: Seq<u8>) -> u64 {
    le64_at(d, 32)
}

/// Program-header entry size from the ELF header.
pub open spec fn spec_elf_phentsize(d: Seq<u8>) -> u16 {
    le16_at(d, 54)
}

/// Program-header count from the ELF header.
pub open spec fn spec_elf_phnum(d: Seq<u8>) -> u16 {
    le16_at(d, 56)
}

/// The program header at index `i`.
pub open spec fn spec_ph(d: Seq<u8>, i: int) -> SegRep {
    let off = spec_elf_phoff(d) + i * spec_elf_phentsize(d);
    SegRep {
        vaddr: le64_at(d, off + 16),
        offset: le64_at(d, off + 8),
        filesz: le64_at(d, off + 32),
        memsz: le64_at(d, off + 40),
    }
}

/// The type tag of the program header at index `i`; LOAD is 1.
pub open spec fn spec_ph_type(d: Seq<u8>, i: int) -> u32 {
    crate::util::le32_at(d, spec_elf_phoff(d) + i * spec_elf_phentsize(d))
}

/// Collects the LOAD segments with a nonzero memory footprint from index
/// `i` on, in table order, checking each: file size within memory size,
/// file data within the image, and an address range that fits.
pub open spec fn spec_collect_segs(d: Seq<u8>, i: int, n: int) -> Result<Seq<SegRep>, LoadErrorRep>
    decreases n - i,
{
    if !(0 <= i < n) {
        Ok(Seq::empty())
    } else {
        let s = spec_ph(d, i);
        if spec_ph_type(d, i) != 1 || s.memsz == 0 {
            spec_collect_segs(d, i + 1, n)
        } else if s.filesz > s.memsz {
            Err(LoadErrorRep::InvalidFormat("segment sizes"@))
        } else if s.offset + s.filesz > d.len() {
            Err(LoadErrorRep::SegmentLoadFailed("segment data out of bounds"@))
        } else if s.vaddr + s.memsz > u64::MAX {
            Err(LoadErrorRep::InvalidFormat("segment range"@))
        } else {
            match spec_collect_segs(d, i + 1, n) {
                Ok(rest) => Ok(seq![s] + rest),
                Err(e) => Err(e),
            }
        }
    }
}

/// The memory image of a segment: its file bytes, zero-filled to its memory
/// size.
pub open spec fn spec_seg_bytes(d: Seq<u8>, s: SegRep) -> Seq<u8> {
    d.subrange(s.offset as int, s.offset + s.filesz) + Seq::new(
        (s.memsz - s.filesz) as nat,
        |i: int| 0u8,
    )
}

/// Lowest LOAD address.
pub open spec fn spec_segs_base(segs: Seq<SegRep>) -> int
    decreases segs.len(),
{
    if segs.len() == 0 {
        0
    } else if segs.len() == 1 {
        segs[0].vaddr as int
    } else {
        let rest = spec_segs_base(segs.drop_first());
        if segs[0].vaddr <= rest {
            segs[0].vaddr as int
        } else {
            rest
        }
    }
}

/// End of the highest LOAD segment.
pub open spec fn spec_segs_top(segs: Seq<SegRep>) -> int
    decreases segs.len(),
{
    if segs.len() == 0 {
        0
    } else {
        let first = segs[0].vaddr + segs[0].memsz;
        let rest = spec_segs_top(segs.drop_first());
        if first >= rest {
            first
        } else {
            rest
        }
    }
}

/// The whole ELF64 load rule: what is placed where, and the kernel record.
pub open spec fn spec_load_kernel(d: Seq<u8>) -> Result<
    (KernelInfo, Seq<(u64, Seq<u8>)>),
    LoadErrorRep,
> {
    if !spec_is_elf64(d) {
        Err(LoadErrorRep::UnsupportedFormat("kernel image format not recognized"@))
    } else if d.len() < 64 {
        Err(LoadErrorRep::InvalidFormat("header"@))
    } else if spec_elf_phentsize(d) < 56 {
        Err(LoadErrorRep::InvalidFormat("program header size"@))
    } else if spec_elf_phoff(d) + spec_elf_phnum(d) * spec_elf_phentsize(d) > d.len() {
        Err(LoadErrorRep::InvalidFormat("program header table"@))
    } else {
        match spec_collect_segs(d, 0, spec_elf_phnum(d) as int) {
            Err(e) => Err(e),
            Ok(segs) => if segs.len() == 0 {
                Err(LoadErrorRep::InvalidFormat("no loadable segments"@))
            } else {
                let base = spec_segs_base(segs);
                let top = spec_segs_top(segs);
                let info = KernelInfo {
                    entry_point: spec_elf_entry(d),
                    load_address: base as u64,
                    size: (top - base) as u64,
                    stack_ptr: None,
                };
                Ok((info, Seq::new(segs.len(), |i: int| (segs[i].vaddr, spec_seg_bytes(d, segs[i])))))
            },
        }
    }
}

/// Whether every placement can be reserved against the given prior record:
/// each fits the machine, avoids every prior reservation, and avoids every
/// earlier placement.
pub open spec fn spec_placements_reservable(
    ps: Seq<(u64, Seq<u8>)>,
    res0: Seq<MemoryReservation>,
) -> bool {
    forall|i: int|
        0 <= i < ps.len() ==> {
            let r = MemoryReservation {
                base: (#[trigger] ps[i]).0,
                size: ps[i].1.len() as u64,
            };
            &&& ps[i].1.len() <= usize::MAX
            &&& (forall|j: int|
                0 <= j < res0.len() ==> reservations_disjoint(#[trigger] res0[j], r))
            &&& (forall|j: int|
                0 <= j < i ==> reservations_disjoint(
                    MemoryReservation {
                        base: (#[trigger] ps[j]).0,
                        size: ps[j].1.len() as u64,
                    },
                    r,
                ))
        }
}

/// The bump pointer after the placements' regions are recorded.
pub open spec fn spec_next_after_placements(next0: u64, ps: Seq<(u64, Seq<u8>)>) -> int
    decreases ps.len(),
{
    if ps.len() == 0 {
        next0 as int
    } else {
        let prev = spec_next_after_placements(next0, ps.drop_last());
        let end = ps.last().0 + ps.last().1.len();
        if end > prev {
            end
        } else {
            prev
        }
    }
}

/// One segment placement: the physical destination and the exact bytes.
pub struct SegmentPlacement {
    pub dest: u64,
    pub bytes: Vec<u8>,
}

/// The views of a list of placements.
pub open spec fn placements_views(ps: Seq<SegmentPlacement>) -> Seq<(u64, Seq<u8>)> {
    Seq::new(ps.len(), |i: int| (ps[i].dest, ps[i].bytes@))
}

/// Whether the bytes look like an ELF64 image.
pub fn is_elf64(data: &[u8]) -> (r: bool)
    ensures
        r == spec_is_elf64(data@),
{
    data.len() > 4 && data[0] == 0x7f && data[1] == 0x45 && data[2] == 0x4c && data[3] == 0x46
        && data[4] == 2
}

/// Appends `d[off .. off + len)` to `acc`.
fn push_range(acc: &mut Vec<u8>, d: &[u8], off: usize, len: usize)
    requires
        off + len <= d@.len(),
    ensures
        final(acc)@ == old(acc)@ + d@.subrange(off as int, off as int + len as int),
{
    let n = d.len();
    let mut k: usize = 0;
    while k < len
        invariant
            k <= len,
            n == d@.len(),
            off + len <= n,
            acc@ == old(acc)@ + d@.subrange(off as int, off as int + k as int),
        decreases len - k,
    {
        proof {
            assert(d@.subrange(off as int, off as int + k as int).push(d@[off + k as int])
                =~= d@.subrange(off as int, off as int + (k + 1) as int));
        }
        acc.push(d[off + k]);
        k = k + 1;
    }
    proof {
        assert(acc@ =~= old(acc)@ + d@.subrange(off as int, off as int + len as int));
    }
}

/// Lowest LOAD address of the segments from `i` on.
fn segs_base(segs: &Vec<SegRep>, i: usize) -> (r: u64)
    requires
        i + 1 <= segs@.len(),
    ensures
        r == spec_segs_base(segs@.skip(i as int)),
    decreases segs@.len() - i,
{
    let n = segs.len();
    proof {
        assert(segs@.skip(i as int)[0] == segs@[i as int]);
    }
    if i + 1 == n {
        proof {
            assert(segs@.skip(i as int).len() == 1);
        }
        segs[i].vaddr
    } else {
        proof {
            assert(segs@.skip(i as int).drop_first() =~= segs@.skip(i as int + 1));
        }
        let rest = segs_base(segs, i + 1);
        if segs[i].vaddr <= rest {
            segs[i].vaddr
        } else {
            rest
        }
    }
}

/// End of the highest LOAD segment from `i` on.
fn segs_top(segs: &Vec<SegRep>, i: usize) -> (r: u64)
    requires
        i < segs@.len(),
        forall|k: int|
            0 <= k < segs@.len() ==> (#[trigger] segs@[k]).vaddr + segs@[k].memsz <= u64::MAX,
    ensures
        r == spec_segs_top(segs@.skip(i as int)),
    decreases segs@.len() - i,
{
    let n = segs.len();
    proof {
        assert(segs@.skip(i as int)[0] == segs@[i as int]);
        assert(segs@.skip(i as int).drop_first() =~= segs@.skip(i as int + 1));
    }
    let first = segs[i].vaddr + segs[i].memsz;
    if i + 1 == n {
        proof {
            assert(segs@.skip(i as int).len() == 1);
            assert(spec_segs_top(segs@.skip(i as int).drop_first()) == 0);
        }
        first
    } else {
        let rest = segs_top(segs, i + 1);
        if first >= rest {
            first
        } else {
            rest
        }
    }
}

/// The lowest address never exceeds the highest end.
proof fn lemma_base_le_top(segs: Seq<SegRep>)
    requires
        segs.len() >= 1,
        forall|k: int| 0 <= k < segs.len() ==> (#[trigger] segs[k]).memsz >= 1,
    ensures
        0 <= spec_segs_base(segs) <= spec_segs_top(segs),
    decreases segs.len(),
{
    if segs.len() > 1 {
        assert forall|k: int| 0 <= k < segs.drop_first().len() implies (
        #[trigger] segs.drop_first()[k]).memsz >= 1 by {
            assert(segs.drop_first()[k] == segs[k + 1]);
        }
        lemma_base_le_top(segs.drop_first());
    }
}

/// Loads a kernel image: detects the format, and for ELF64 reserves every
/// LOAD segment's region and returns the placements beside the kernel
/// record. The shell copies the placement bytes to their destinations.
pub fn load_kernel(hal: &mut HalServices, kernel_data: &[u8]) -> (r: Result<
    (KernelInfo, Vec<SegmentPlacement>),
    LoadError,
>)
    requires
        old(hal).wf(),
    ensures
        final(hal).wf(),
        match r {
            Ok((info, places)) => {
                &&& spec_load_kernel(kernel_data@) == Ok::<
                    (KernelInfo, Seq<(u64, Seq<u8>)>),
                    LoadErrorRep,
                >((info, placements_views(places@)))
                &&& final(hal).spec_reservations().len() == old(hal).spec_reservations().len()
                    + places@.len()
                &&& final(hal).spec_reservations().take(old(hal).spec_reservations().len() as int)
                    == old(hal).spec_reservations()
                &&& forall|i: int|
                    0 <= i < places@.len() ==> final(hal).spec_reservations()[old(
                        hal,
                    ).spec_reservations().len() + i] == (MemoryReservation {
                        base: (#[trigger] places@[i]).dest,
                        size: places@[i].bytes@.len() as u64,
                    })
                &&& final(hal).spec_alloc_next() == spec_next_after_placements(
                    old(hal).spec_alloc_next(),
                    placements_views(places@),
                )
                &&& *final(hal) == (HalServices {
                    alloc_next: final(hal).alloc_next,
                    reservations: final(hal).reservations,
                    ..*old(hal)
                })
            },
            Err(e) => {
                &&& ((spec_load_kernel(kernel_data@) == Err::<
                    (KernelInfo, Seq<(u64, Seq<u8>)>),
                    LoadErrorRep,
                >(e@) && *final(hal) == *old(hal)) || (e@ is MemoryAllocationFailed
                    && (spec_load_kernel(kernel_data@) matches Ok(p)
                    && !spec_placements_reservable(p.1, old(hal).spec_reservations()))))
                &&& final(hal).spec_reservations().take(old(hal).spec_reservations().len() as int)
                    == old(hal).spec_reservations()
                &&& (spec_load_kernel(kernel_data@) matches Ok(p) ==> exists|j: int|
                    #![trigger p.1.subrange(0, j)]
                    0 <= j <= p.1.len() && final(hal).spec_reservations() =~= old(
                        hal,
                    ).spec_reservations() + Seq::new(
                        j as nat,
                        |k: int| MemoryReservation {
                            base: p.1[k].0,
                            size: p.1[k].1.len() as u64,
                        },
                    ))
            },
        },
        spec_load_kernel(kernel_data@) matches Ok(p) && spec_placements_reservable(
            p.1,
            old(hal).spec_reservations(),
        ) ==> r is Ok,
{
    let d = kernel_data;
    let n = d.len();
    if !is_elf64(d) {
        return Err(LoadError::UnsupportedFormat(("kernel image format not recognized").to_owned()));
    }
    if n < 64 {
        return Err(LoadError::InvalidFormat(("header").to_owned()));
    }
    let phoff = read_le64(d, 32);
    let phentsize = read_le16(d, 54);
    let phnum = read_le16(d, 56);
    if phentsize < 56 {
        return Err(LoadError::InvalidFormat(("program header size").to_owned()));
    }
    proof {
        let pn = phnum as int;
        let pe = phentsize as int;
        assert(pn * pe <= 0xFFFF * 0xFFFF) by (nonlinear_arith)
            requires
                0 <= pn <= 0xFFFF,
                0 <= pe <= 0xFFFF,
        ;
    }
    if phoff as u128 + phnum as u128 * phentsize as u128 > n as u128 {
        return Err(LoadError::InvalidFormat(("program header table").to_owned()));
    }
    // collect the LOAD segments
    let mut segs: Vec<SegRep> = Vec::new();
    let mut i: usize = 0;
    let ghost total = phnum as int;
    proof {
        assert(Seq::<SegRep>::empty() + segs@ =~= segs@);
    }
    while i < phnum as usize
        invariant
            i <= phnum as usize,
            n == d@.len(),
            n >= 64,
            phoff == spec_elf_phoff(d@),
            phentsize == spec_elf_phentsize(d@),
            phnum == spec_elf_phnum(d@),
            phentsize >= 56,
            phoff + phnum * phentsize <= n,
            total == phnum as int,
            d@ == kernel_data@,
            *hal == *old(hal),
            hal.wf(),
            spec_is_elf64(d@),
            spec_collect_segs(d@, 0, total) == (match spec_collect_segs(d@, i as int, total) {
                Ok(rest) => Ok::<Seq<SegRep>, LoadErrorRep>(segs@ + rest),
                Err(e) => Err::<Seq<SegRep>, LoadErrorRep>(e),
            }),
            forall|k: int|
                0 <= k < segs@.len() ==> {
                    let s = #[trigger] segs@[k];
                    &&& s.memsz >= 1
                    &&& s.filesz <= s.memsz
                    &&& s.offset + s.filesz <= n
                    &&& s.vaddr + s.memsz <= u64::MAX
                },
        decreases phnum as usize - i,
    {
        proof {
            let ii = i as int;
            let pn = phnum as int;
            let pe = phentsize as int;
            let po = phoff as int;
            assert(po + ii * pe + pe <= po + pn * pe) by (nonlinear_arith)
                requires
                    0 <= ii < pn,
                    pe >= 0,
            ;
            assert(ii * pe >= 0) by (nonlinear_arith)
                requires
                    ii >= 0,
                    pe >= 0,
            ;
        }
        let off128: u128 = phoff as u128 + i as u128 * phentsize as u128;
        let off = off128 as usize;
        let ptype = read_le32(d, off);
        let s = SegRep {
            vaddr: read_le64(d, off + 16),
            offset: read_le64(d, off + 8),
            filesz: read_le64(d, off + 32),
            memsz: read_le64(d, off + 40),
        };
        proof {
            assert(off as int == spec_elf_phoff(d@) + (i as int) * spec_elf_phentsize(d@));
            assert(s == spec_ph(d@, i as int));
            assert(ptype == spec_ph_type(d@, i as int));
        }
        if ptype == 1 && s.memsz != 0 {
            if s.filesz > s.memsz {
                proof {
                    assert(spec_collect_segs(d@, i as int, total) == Err::<
                        Seq<SegRep>,
                        LoadErrorRep,
                    >(LoadErrorRep::InvalidFormat("segment sizes"@)));
                    assert(spec_load_kernel(kernel_data@) == Err::<
                        (KernelInfo, Seq<(u64, Seq<u8>)>),
                        LoadErrorRep,
                    >(LoadErrorRep::InvalidFormat("segment sizes"@)));
                }
                return Err(LoadError::InvalidFormat(("segment sizes").to_owned()));
            }
            if s.offset as u128 + s.filesz as u128 > n as u128 {
                return Err(LoadError::SegmentLoadFailed(("segment data out of bounds").to_owned()));
            }
            if s.vaddr as u128 + s.memsz as u128 > u64::MAX as u128 {
                return Err(LoadError::InvalidFormat(("segment range").to_owned()));
            }
            let ghost segs0 = segs@;
            segs.push(s);
            proof {
                if let Ok(rest) = spec_collect_segs(d@, i as int + 1, total) {
                    assert(segs0 + (seq![s] + rest) =~= segs@ + rest);
                }
            }
        }
        i = i + 1;
    }
    proof {
        assert(spec_collect_segs(d@, total, total) == Ok::<Seq<SegRep>, LoadErrorRep>(
            Seq::empty(),
        ));
        assert(segs@ + Seq::<SegRep>::empty() =~= segs@);
        assert(spec_collect_segs(d@, 0, total) == Ok::<Seq<SegRep>, LoadErrorRep>(segs@));
    }
    if segs.len() == 0 {
        return Err(LoadError::InvalidFormat(("no loadable segments").to_owned()));
    }
    proof {
        assert(segs@.skip(0) =~= segs@);
        lemma_base_le_top(segs@);
    }
    let base = segs_base(&segs, 0);
    let top = segs_top(&segs, 0);
    let info = KernelInfo {
        entry_point: read_le64(d, 24),
        load_address: base,
        size: top - base,
        stack_ptr: None,
    };
    // reserve and build the placements
    let ghost psv = Seq::new(segs@.len(), |q: int| (segs@[q].vaddr, spec_seg_bytes(d@, segs@[q])));
    let ghost expected = Ok::<(KernelInfo, Seq<(u64, Seq<u8>)>), LoadErrorRep>((info, psv));
    proof {
        assert(spec_load_kernel(d@) == expected);
        assert forall|q: int| 0 <= q < segs@.len() implies (#[trigger] psv[q]).1.len()
            == segs@[q].memsz by {
            assert(segs@[q].filesz <= segs@[q].memsz);
            assert(spec_seg_bytes(d@, segs@[q]).len() == segs@[q].memsz);
        }
    }
    let m = segs.len();
    let mut places: Vec<SegmentPlacement> = Vec::new();
    let mut j: usize = 0;
    let ghost res0 = hal.spec_reservations();
    while j < m
        invariant
            j <= m,
            m == segs@.len(),
            n == d@.len(),
            d@ == kernel_data@,
            hal.wf(),
            res0 == old(hal).spec_reservations(),
            spec_load_kernel(d@) == expected,
            expected == Ok::<(KernelInfo, Seq<(u64, Seq<u8>)>), LoadErrorRep>(
                (
                    info,
                    Seq::new(segs@.len(), |q: int| (segs@[q].vaddr, spec_seg_bytes(d@, segs@[q]))),
                ),
            ),
            forall|k: int|
                0 <= k < segs@.len() ==> {
                    let s = #[trigger] segs@[k];
                    &&& s.memsz >= 1
                    &&& s.filesz <= s.memsz
                    &&& s.offset + s.filesz <= n
                    &&& s.vaddr + s.memsz <= u64::MAX
                },
            places@.len() == j,
            forall|k: int|
                0 <= k < j ==> (#[trigger] places@[k]).dest == segs@[k].vaddr
                    && places@[k].bytes@ == spec_seg_bytes(d@, segs@[k]),
            hal.spec_reservations().len() == res0.len() + j,
            hal.spec_reservations().take(res0.len() as int) == res0,
            forall|k: int|
                0 <= k < j ==> hal.spec_reservations()[res0.len() + k] == (MemoryReservation {
                    base: (#[trigger] segs@[k]).vaddr,
                    size: segs@[k].memsz,
                }),
            psv == Seq::new(
                segs@.len(),
                |q: int| (segs@[q].vaddr, spec_seg_bytes(d@, segs@[q])),
            ),
            forall|q: int| 0 <= q < segs@.len() ==> (#[trigger] psv[q]).1.len() == segs@[q].memsz,
            *hal == (HalServices {
                alloc_next: hal.alloc_next,
                reservations: hal.reservations,
                ..*old(hal)
            }),
            hal.spec_alloc_next() == spec_next_after_placements(
                old(hal).spec_alloc_next(),
                placements_views(places@),
            ),
        decreases m - j,
    {
        let s = segs[j];
        proof {
            // the added reservations so far are exactly the placement prefix
            assert(hal.spec_reservations() =~= res0 + Seq::new(
                j as nat,
                |k: int| MemoryReservation { base: psv[k].0, size: psv[k].1.len() as u64 },
            ));
        }
        if s.memsz > usize::MAX as u64 {
            proof {
                assert(psv[j as int].1.len() > usize::MAX);
                assert(!spec_placements_reservable(psv, res0));
                assert(psv.subrange(0, j as int).len() == j as int);
                assert(hal.spec_reservations().take(res0.len() as int) =~= res0);
            }
            return Err(LoadError::MemoryAllocationFailed(("segment too large").to_owned()));
        }
        let ghost hal_before = hal.spec_reservations();
        let ok = hal.reserve_fixed_region(s.vaddr, s.memsz);
        if !ok {
            proof {
                let newr = MemoryReservation { base: s.vaddr, size: s.memsz };
                assert(!(forall|i: int|
                    0 <= i < hal_before.len() ==> reservations_disjoint(
                        #[trigger] hal_before[i],
                        newr,
                    )));
                let w = choose|i: int|
                    0 <= i < hal_before.len() && !reservations_disjoint(
                        #[trigger] hal_before[i],
                        newr,
                    );
                assert(newr == (MemoryReservation {
                    base: psv[j as int].0,
                    size: psv[j as int].1.len() as u64,
                }));
                if w < res0.len() {
                    assert(hal_before[w] == res0[w]);
                    assert(!spec_placements_reservable(psv, res0));
                } else {
                    let pidx = w - res0.len();
                    assert(hal_before[w] == (MemoryReservation {
                        base: psv[pidx].0,
                        size: psv[pidx].1.len() as u64,
                    }));
                    assert(!spec_placements_reservable(psv, res0));
                }
                assert(hal.spec_reservations() =~= res0 + Seq::new(
                    j as nat,
                    |k: int| MemoryReservation { base: psv[k].0, size: psv[k].1.len() as u64 },
                ));
                assert(psv.subrange(0, j as int).len() == j as int);
                assert(hal.spec_reservations().take(res0.len() as int) =~= res0);
                assert(spec_load_kernel(kernel_data@) matches Ok(p) && !spec_placements_reservable(
                    p.1,
                    res0,
                ));
            }
            return Err(LoadError::MemoryAllocationFailed(("segment region overlap").to_owned()));
        }
        proof {
            assert(hal.spec_reservations().take(res0.len() as int) =~= res0);
        }
        let mut bytes: Vec<u8> = Vec::new();
        push_range(&mut bytes, d, s.offset as usize, s.filesz as usize);
        proof {
            assert(Seq::<u8>::empty() + d@.subrange(s.offset as int, s.offset + s.filesz)
                =~= d@.subrange(s.offset as int, s.offset + s.filesz));
        }
        let fill = (s.memsz - s.filesz) as usize;
        let mut z: usize = 0;
        while z < fill
            invariant
                z <= fill,
                n == d@.len(),
                s.offset + s.filesz <= n,
                s.filesz <= s.memsz <= usize::MAX,
                fill == s.memsz - s.filesz,
                bytes@ == d@.subrange(s.offset as int, s.offset + s.filesz) + Seq::new(
                    z as nat,
                    |q: int| 0u8,
                ),
            decreases fill - z,
        {
            proof {
                assert(Seq::new(z as nat, |q: int| 0u8).push(0u8) =~= Seq::new(
                    (z + 1) as nat,
                    |q: int| 0u8,
                ));
                assert((d@.subrange(s.offset as int, s.offset + s.filesz) + Seq::new(
                    z as nat,
                    |q: int| 0u8,
                )).push(0u8) =~= d@.subrange(s.offset as int, s.offset + s.filesz) + Seq::new(
                    (z + 1) as nat,
                    |q: int| 0u8,
                ));
            }
            bytes.push(0u8);
            z = z + 1;
        }
        proof {
            assert(bytes@ == spec_seg_bytes(d@, s));
            assert(bytes@.len() == s.memsz);
        }
        let ghost pv_old = placements_views(places@);
        places.push(SegmentPlacement { dest: s.vaddr, bytes });
        proof {
            let pv_new = placements_views(places@);
            assert(pv_new.drop_last() =~= pv_old);
            assert(pv_new.last() == (s.vaddr, spec_seg_bytes(d@, s)));
            assert(pv_new.last().1.len() == s.memsz);
            assert(spec_next_after_placements(old(hal).spec_alloc_next(), pv_new) == {
                let prev = spec_next_after_placements(old(hal).spec_alloc_next(), pv_old);
                let end = s.vaddr + s.memsz;
                if end > prev {
                    end
                } else {
                    prev
                }
            });
        }
        j = j + 1;
    }
    proof {
        assert(placements_views(places@) =~= psv);
        assert forall|i: int| 0 <= i < places@.len() implies hal.spec_reservations()[res0.len()
            + i] == (MemoryReservation {
            base: (#[trigger] places@[i]).dest,
            size: places@[i].bytes@.len() as u64,
        }) by {
            assert(places@[i].dest == segs@[i].vaddr);
            assert(places@[i].bytes@.len() == segs@[i].memsz);
        }
    }
    Ok((info, places))
}

/// Stages an initial RAM disk: reserves a fresh 16-byte-aligned region
/// sized exactly to the file. The shell copies the file bytes there
/// verbatim. An empty file stages as a zero-size record with nothing
/// reserved. Fails exactly when the file exceeds the machine's addressing
/// or the bump region is exhausted.
pub fn load_initrd(hal: &mut HalServices, initrd_data: &[u8]) -> (r: Result<
    LoadedImageInfo,
    LoadError,
>)
    requires
        old(hal).wf(),
    ensures
        final(hal).wf(),
        r is Ok <==> (initrd_data@.len() == 0 || (initrd_data@.len() <= u64::MAX
            && crate::hal::spec_reserve_base(
            old(hal).spec_alloc_next(),
            initrd_data@.len() as u64,
            16,
        ) is Some)),
        match r {
            Ok(info) => {
                &&& info.size == initrd_data@.len()
                &&& info.load_address % 16 == 0
                &&& initrd_data@.len() == 0 ==> info.load_address == 0 && *final(hal) == *old(hal)
                &&& initrd_data@.len() > 0 ==> {
                    &&& Some(info.load_address) == crate::hal::spec_reserve_base(
                        old(hal).spec_alloc_next(),
                        initrd_data@.len() as u64,
                        16,
                    )
                    &&& final(hal).spec_reservations() == old(hal).spec_reservations().push(
                        MemoryReservation { base: info.load_address, size: info.size },
                    )
                    &&& *final(hal) == (HalServices {
                        alloc_next: final(hal).alloc_next,
                        reservations: final(hal).reservations,
                        ..*old(hal)
                    })
                }
            },
            Err(e) => e@ is InitrdLoadFailed && *final(hal) == *old(hal),
        },
{
    let n = initrd_data.len();
    if n == 0 {
        return Ok(LoadedImageInfo { load_address: 0, size: 0 });
    }
    if n as u128 > u64::MAX as u128 {
        return Err(LoadError::InitrdLoadFailed(("initial RAM disk too large").to_owned()));
    }
    match hal.reserve_region(n as u64, 16) {
        Some(base) => Ok(LoadedImageInfo { load_address: base, size: n as u64 }),
        None => Err(LoadError::InitrdLoadFailed(("initrd memory allocation").to_owned())),
    }
}

} // verus!
