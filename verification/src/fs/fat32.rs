//! Read-only FAT32 driver.
//!
//! The driver works on a byte snapshot of the medium. Detection checks the
//! boot-sector signature, the filesystem-type tag and the BPB sanity rules;
//! mount fixes the geometry; reads walk directories (long names included)
//! and cluster chains. Every rule is stated once as a specification function
//! over the raw bytes, and the executable code is proved to follow it.

use vstd::prelude::*;
use crate::fs::interface::DirectoryEntry;
use crate::fs::interface::EntryType;
use crate::fs::interface::FileMetadata;
use crate::fs::interface::FileSystemDriver;
use crate::fs::interface::FileSystemInstance;
use crate::fs::interface::FilesystemError;
use crate::fs::interface::FsErrorRep;
use crate::hal::Device as HalDevice;
use crate::util::all_ascii;
use crate::util::ascii_to_string;
use crate::util::le16_at;
use crate::util::le32_at;
use crate::util::read_le16;
use crate::util::read_le32;
use vstd::slice::slice_to_vec;
use vstd::string::StringSliceAdditionalSpecFns;

verus! {

/// Boot-sector signature `0x55 0xAA` at bytes 510 and 511.
pub open spec fn spec_sig_ok(d: Seq<u8>) -> bool {
    d.len() >= 512 && d[510] == 0x55 && d[511] == 0xAA
}

/// Filesystem-type field at offset 82 reads `FAT32   `.
pub open spec fn spec_fstype_ok(d: Seq<u8>) -> bool {
    &&& d.len() >= 512
    &&& d[82] == 0x46
    &&& d[83] == 0x41
    &&& d[84] == 0x54
    &&& d[85] == 0x33
    &&& d[86] == 0x32
    &&& d[87] == 0x20
    &&& d[88] == 0x20
    &&& d[89] == 0x20
}

/// BPB sanity: sector size, cluster size, reserved sectors, FAT count.
pub open spec fn spec_bpb_ok(d: Seq<u8>) -> bool {
    let bps = le16_at(d, 11);
    let spc = d[13];
    let reserved = le16_at(d, 14);
    let nfats = d[16];
    &&& d.len() >= 512
    &&& (bps == 512 || bps == 1024 || bps == 2048 || bps == 4096)
    &&& (spc == 1 || spc == 2 || spc == 4 || spc == 8 || spc == 16 || spc == 32 || spc == 64
        || spc == 128)
    &&& reserved >= 1
    &&& nfats >= 1
}

/// The whole detection rule.
pub open spec fn fat32_detect(d: Seq<u8>) -> bool {
    spec_sig_ok(d) && spec_fstype_ok(d) && spec_bpb_ok(d)
}

/// Geometry fixed at mount: where the FAT and the data region sit.
#[derive(Clone, Copy, PartialEq, Eq, Structural, Debug)]
pub struct Fat32Geometry {
    pub bytes_per_sector: u64,
    pub sectors_per_cluster: u64,
    pub reserved_sectors: u64,
    pub num_fats: u64,
    pub fat_size_sectors: u64,
    pub root_cluster: u64,
    pub fat_start: u64,
    pub data_start: u64,
    pub cluster_bytes: u64,
}

/// The geometry a detected volume's BPB describes.
pub open spec fn spec_geometry(d: Seq<u8>) -> Fat32Geometry {
    let bps = le16_at(d, 11) as int;
    let spc = d[13] as int;
    let reserved = le16_at(d, 14) as int;
    let nfats = d[16] as int;
    let fat_size = le32_at(d, 36) as int;
    let root = le32_at(d, 44) as int;
    Fat32Geometry {
        bytes_per_sector: bps as u64,
        sectors_per_cluster: spc as u64,
        reserved_sectors: reserved as u64,
        num_fats: nfats as u64,
        fat_size_sectors: fat_size as u64,
        root_cluster: root as u64,
        fat_start: (reserved * bps) as u64,
        data_start: ((reserved + nfats * fat_size) * bps) as u64,
        cluster_bytes: (spc * bps) as u64,
    }
}

/// The geometry of a mountable volume: detected, with a nonzero FAT and a
/// plausible root cluster.
pub open spec fn spec_mount_geo(d: Seq<u8>) -> Option<Fat32Geometry> {
    if fat32_detect(d) && le32_at(d, 36) >= 1 && le32_at(d, 44) >= 2 {
        Some(spec_geometry(d))
    } else {
        None
    }
}

/// The FAT entry of cluster `c`, masked to 28 bits; `None` when it lies
/// outside the medium.
pub open spec fn spec_fat_entry(d: Seq<u8>, g: Fat32Geometry, c: u64) -> Option<u32> {
    if g.fat_start + 4 * c + 4 <= d.len() {
        Some(le32_at(d, g.fat_start + 4 * c) & 0x0FFF_FFFF)
    } else {
        None
    }
}

/// Reads `remaining` bytes of a file from the cluster chain starting at `c`.
pub open spec fn spec_file_bytes(
    d: Seq<u8>,
    g: Fat32Geometry,
    c: u64,
    remaining: u64,
    fuel: nat,
) -> Result<Seq<u8>, ()>
    decreases fuel,
{
    if remaining == 0 {
        Ok(Seq::empty())
    } else if fuel == 0 {
        Err(())
    } else if !(2 <= c && c < 0x0FFF_FFF6) {
        Err(())
    } else {
        let off = g.data_start + (c - 2) * g.cluster_bytes;
        if off + g.cluster_bytes > d.len() {
            Err(())
        } else {
            let take = if remaining < g.cluster_bytes {
                remaining as int
            } else {
                g.cluster_bytes as int
            };
            let piece = d.subrange(off as int, off + take);
            if remaining <= g.cluster_bytes {
                Ok(piece)
            } else {
                match spec_fat_entry(d, g, c) {
                    None => Err(()),
                    Some(next) => match spec_file_bytes(
                        d,
                        g,
                        next as u64,
                        (remaining - g.cluster_bytes) as u64,
                        (fuel - 1) as nat,
                    ) {
                        Ok(rest) => Ok(piece + rest),
                        Err(e) => Err(e),
                    },
                }
            }
        }
    }
}

/// Reads the whole cluster chain starting at `c` (as directories need).
pub open spec fn spec_chain_bytes(d: Seq<u8>, g: Fat32Geometry, c: u64, fuel: nat) -> Result<
    Seq<u8>,
    (),
>
    decreases fuel,
{
    if fuel == 0 {
        Err(())
    } else if !(2 <= c && c < 0x0FFF_FFF6) {
        Err(())
    } else {
        let off = g.data_start + (c - 2) * g.cluster_bytes;
        if off + g.cluster_bytes > d.len() {
            Err(())
        } else {
            let piece = d.subrange(off as int, off + g.cluster_bytes);
            match spec_fat_entry(d, g, c) {
                None => Err(()),
                Some(next) => if next >= 0x0FFF_FFF8 {
                    Ok(piece)
                } else {
                    match spec_chain_bytes(d, g, next as u64, (fuel - 1) as nat) {
                        Ok(rest) => Ok(piece + rest),
                        Err(e) => Err(e),
                    }
                },
            }
        }
    }
}

/// ASCII upper-casing of one byte.
pub open spec fn upper_byte(b: u8) -> u8 {
    if 0x61 <= b <= 0x7a {
        (b - 0x20) as u8
    } else {
        b
    }
}

/// ASCII upper-casing of a byte string.
pub open spec fn upper_bytes(s: Seq<u8>) -> Seq<u8> {
    Seq::new(s.len(), |i: int| upper_byte(s[i]))
}

/// Drops trailing spaces.
pub open spec fn trim_spaces(s: Seq<u8>) -> Seq<u8>
    decreases s.len(),
{
    if s.len() > 0 && s.last() == 0x20 {
        trim_spaces(s.drop_last())
    } else {
        s
    }
}

/// The display name an 8.3 directory record denotes.
pub open spec fn spec_short_name(d: Seq<u8>, off: int) -> Seq<u8> {
    let base = trim_spaces(d.subrange(off, off + 8));
    let ext = trim_spaces(d.subrange(off + 8, off + 11));
    if ext.len() == 0 {
        base
    } else {
        base + seq![0x2Eu8] + ext
    }
}

/// Offset of the `k`th name unit inside a long-name record.
pub open spec fn lfn_pos(k: int) -> int {
    if k < 5 {
        1 + 2 * k
    } else if k < 11 {
        14 + 2 * (k - 5)
    } else {
        28 + 2 * (k - 11)
    }
}

/// The UTF-8 bytes a long-name UTF-16 unit is read as: basic-plane units
/// are encoded as themselves; an unpaired surrogate becomes an underscore.
pub open spec fn lfn_unit_bytes(u: u16) -> Seq<u8> {
    if u < 0x80 {
        seq![u as u8]
    } else if 0xD800 <= u <= 0xDFFF {
        seq![0x5Fu8]
    } else if u < 0x800 {
        seq![0xC0u8 | ((u >> 6u16) as u8), 0x80u8 | ((u as u8) & 0x3Fu8)]
    } else {
        seq![
            0xE0u8 | ((u >> 12u16) as u8),
            0x80u8 | (((u >> 6u16) as u8) & 0x3Fu8),
            0x80u8 | ((u as u8) & 0x3Fu8),
        ]
    }
}

/// The name bytes of one long-name record, ended by a zero unit.
pub open spec fn collect_lfn(d: Seq<u8>, off: int, k: int) -> Seq<u8>
    decreases 13 - k,
{
    if !(0 <= k < 13) {
        Seq::empty()
    } else {
        let u = le16_at(d, off + lfn_pos(k));
        if u == 0 || u == 0xFFFF {
            Seq::empty()
        } else {
            lfn_unit_bytes(u) + collect_lfn(d, off, k + 1)
        }
    }
}

/// First cluster number a directory record names.
pub open spec fn spec_entry_cluster(d: Seq<u8>, off: int) -> u32 {
    (le16_at(d, off + 20) as u32 * 0x1_0000 + le16_at(d, off + 26) as u32) as u32
}

/// Looks `name_u` (already upper-cased) up in raw directory bytes, walking
/// records from `off` with `pending` long-name text collected so far.
/// Returns attribute byte, first cluster and size of the matching record.
pub open spec fn spec_dir_lookup(
    d: Seq<u8>,
    name_u: Seq<u8>,
    off: int,
    pending: Seq<u8>,
) -> Option<(u8, u32, u32)>
    decreases d.len() - off,
{
    if !(0 <= off) || off + 32 > d.len() {
        None
    } else {
        let b0 = d[off];
        if b0 == 0 {
            None
        } else if b0 == 0xE5 {
            spec_dir_lookup(d, name_u, off + 32, Seq::empty())
        } else {
            let attr = d[off + 11];
            if attr == 0x0F {
                spec_dir_lookup(d, name_u, off + 32, collect_lfn(d, off, 0) + pending)
            } else if attr & 0x08 != 0 {
                spec_dir_lookup(d, name_u, off + 32, Seq::empty())
            } else {
                let nm = if pending.len() > 0 {
                    pending
                } else {
                    spec_short_name(d, off)
                };
                if upper_bytes(nm) == name_u {
                    Some((attr, spec_entry_cluster(d, off), le32_at(d, off + 28)))
                } else {
                    spec_dir_lookup(d, name_u, off + 32, Seq::empty())
                }
            }
        }
    }
}

/// Collects the logical entries of raw directory bytes: one (name bytes,
/// attribute) pair per file or subdirectory, long-name runs collapsed.
pub open spec fn spec_dir_list(d: Seq<u8>, off: int, pending: Seq<u8>) -> Seq<(Seq<u8>, u8)>
    decreases d.len() - off,
{
    if !(0 <= off) || off + 32 > d.len() {
        Seq::empty()
    } else {
        let b0 = d[off];
        if b0 == 0 {
            Seq::empty()
        } else if b0 == 0xE5 {
            spec_dir_list(d, off + 32, Seq::empty())
        } else {
            let attr = d[off + 11];
            if attr == 0x0F {
                spec_dir_list(d, off + 32, collect_lfn(d, off, 0) + pending)
            } else if attr & 0x08 != 0 {
                spec_dir_list(d, off + 32, Seq::empty())
            } else {
                let nm = if pending.len() > 0 {
                    pending
                } else {
                    spec_short_name(d, off)
                };
                seq![(nm, attr)] + spec_dir_list(d, off + 32, Seq::empty())
            }
        }
    }
}

/// Index of the first separator at or after `i`.
pub open spec fn spec_first_sep(p: Seq<u8>, i: int) -> int
    decreases p.len() - i,
{
    if 0 <= i < p.len() && p[i] != 0x2F {
        spec_first_sep(p, i + 1)
    } else {
        i
    }
}

/// The path components of `p`: forward-slash separated, empty segments
/// dropped.
pub open spec fn spec_components(p: Seq<u8>) -> Seq<Seq<u8>>
    decreases p.len(),
{
    if p.len() == 0 {
        Seq::empty()
    } else if p[0] == 0x2F {
        spec_components(p.drop_first())
    } else {
        let k = spec_first_sep(p, 0);
        if k < 1 || k > p.len() {
            Seq::empty()
        } else {
            seq![p.subrange(0, k)] + spec_components(p.subrange(k, p.len() as int))
        }
    }
}

/// Generous bound on the number of clusters any chain can have.
pub open spec fn spec_fuel(d: Seq<u8>, g: Fat32Geometry) -> nat {
    (d.len() + 2) as nat
}

/// Walks the path components from directory cluster `c`; returns the
/// attribute, first cluster and size of the record the last component
/// names.
pub open spec fn spec_walk(
    d: Seq<u8>,
    g: Fat32Geometry,
    c: u64,
    comps: Seq<Seq<u8>>,
    i: int,
) -> Result<(u8, u32, u32), FsErrorRep>
    decreases comps.len() - i,
{
    if !(0 <= i < comps.len()) {
        Err(FsErrorRep::NotFound)
    } else {
        match spec_chain_bytes(d, g, c, spec_fuel(d, g)) {
            Err(_) => Err(FsErrorRep::CorruptedFs),
            Ok(dirbytes) => match spec_dir_lookup(
                dirbytes,
                upper_bytes(comps[i]),
                0,
                Seq::empty(),
            ) {
                None => Err(FsErrorRep::NotFound),
                Some((attr, cl, size)) => if i == comps.len() - 1 {
                    Ok((attr, cl, size))
                } else if attr & 0x10 != 0 {
                    spec_walk(d, g, cl as u64, comps, i + 1)
                } else {
                    Err(FsErrorRep::NotADirectory)
                },
            },
        }
    }
}

/// The whole read-file rule on a raw medium.
pub open spec fn spec_fat32_read_file(d: Seq<u8>, p: Seq<u8>) -> Result<Seq<u8>, FsErrorRep> {
    match spec_mount_geo(d) {
        None => Err(FsErrorRep::CorruptedFs),
        Some(g) => {
            let comps = spec_components(p);
            if comps.len() == 0 {
                Err(FsErrorRep::NotAFile)
            } else {
                match spec_walk(d, g, g.root_cluster, comps, 0) {
                    Err(e) => Err(e),
                    Ok((attr, cl, size)) => if attr & 0x10 != 0 {
                        Err(FsErrorRep::NotAFile)
                    } else if size == 0 {
                        Ok(Seq::empty())
                    } else {
                        match spec_file_bytes(d, g, cl as u64, size as u64, spec_fuel(d, g)) {
                            Ok(bs) => Ok(bs),
                            Err(_) => Err(FsErrorRep::CorruptedFs),
                        }
                    },
                }
            }
        },
    }
}

/// The record (attribute, cluster, size) a path names; the root directory
/// itself is reported as a directory with the root cluster and size zero.
pub open spec fn spec_fat32_stat(d: Seq<u8>, p: Seq<u8>) -> Result<(u8, u32, u32), FsErrorRep> {
    match spec_mount_geo(d) {
        None => Err(FsErrorRep::CorruptedFs),
        Some(g) => {
            let comps = spec_components(p);
            if comps.len() == 0 {
                Ok((0x10u8, g.root_cluster as u32, 0u32))
            } else {
                spec_walk(d, g, g.root_cluster, comps, 0)
            }
        },
    }
}

/// The whole list-directory rule: the (name, attribute) pairs of the
/// directory a path names.
pub open spec fn spec_fat32_list(d: Seq<u8>, p: Seq<u8>) -> Result<Seq<(Seq<u8>, u8)>, FsErrorRep> {
    match spec_mount_geo(d) {
        None => Err(FsErrorRep::CorruptedFs),
        Some(g) => {
            let comps = spec_components(p);
            let cluster_or = if comps.len() == 0 {
                Ok((0x10u8, g.root_cluster as u32, 0u32))
            } else {
                spec_walk(d, g, g.root_cluster, comps, 0)
            };
            match cluster_or {
                Err(e) => Err(e),
                Ok((attr, cl, _size)) => if attr & 0x10 == 0 {
                    Err(FsErrorRep::NotADirectory)
                } else {
                    match spec_chain_bytes(d, g, cl as u64, spec_fuel(d, g)) {
                        Err(_) => Err(FsErrorRep::CorruptedFs),
                        Ok(dirbytes) => Ok(spec_dir_list(dirbytes, 0, Seq::empty())),
                    }
                },
            }
        },
    }
}

/// The reference driver for FAT32 volumes.
pub struct Fat32Driver;

impl Fat32Driver {
    /// Creates the driver.
    pub fn new() -> (r: Fat32Driver) {
        Fat32Driver
    }

    /// Whether the device snapshot holds a FAT32 filesystem: boot signature
    /// present, filesystem-type tag reads `FAT32   `, BPB sane.
    pub fn detect_fat32(&self, device: &HalDevice) -> (r: bool)
        ensures
            r == fat32_detect(device.content@),
    {
        let d = &device.content;
        if d.len() < 512 {
            return false;
        }
        if !(d[510] == 0x55 && d[511] == 0xAA) {
            return false;
        }
        if !(d[82] == 0x46 && d[83] == 0x41 && d[84] == 0x54 && d[85] == 0x33 && d[86] == 0x32
            && d[87] == 0x20 && d[88] == 0x20 && d[89] == 0x20) {
            return false;
        }
        let bps = read_le16(d.as_slice(), 11);
        let spc = d[13];
        let reserved = read_le16(d.as_slice(), 14);
        let nfats = d[16];
        if !(bps == 512 || bps == 1024 || bps == 2048 || bps == 4096) {
            return false;
        }
        if !(spc == 1 || spc == 2 || spc == 4 || spc == 8 || spc == 16 || spc == 32 || spc == 64
            || spc == 128) {
            return false;
        }
        if reserved < 1 {
            return false;
        }
        if nfats < 1 {
            return false;
        }
        true
    }

    /// Mounts the volume read-only: fixes the geometry from the BPB and
    /// takes a snapshot of the medium. Refuses media the driver does not
    /// detect as `Unsupported`, and a detected BPB whose FAT size or root
    /// cluster is implausible as `CorruptedFs`.
    pub fn mount_fat32(&self, device: &HalDevice, volume_id: &str, _read_only: bool) -> (r: Result<
        Fat32Instance,
        FilesystemError,
    >)
        ensures
            match r {
                Ok(inst) => {
                    &&& spec_mount_geo(device.content@) is Some
                    &&& inst.disk@ == device.content@
                    &&& inst.volume_id@ == volume_id@
                    &&& inst.read_only == true
                },
                Err(e) => {
                    &&& spec_mount_geo(device.content@) is None
                    &&& e@ == (if fat32_detect(device.content@) {
                        FsErrorRep::CorruptedFs
                    } else {
                        FsErrorRep::Unsupported
                    })
                },
            },
    {
        if !self.detect_fat32(device) {
            return Err(FilesystemError::Unsupported);
        }
        let d = &device.content;
        let fat_size = read_le32(d.as_slice(), 36);
        let root = read_le32(d.as_slice(), 44);
        if fat_size < 1 || root < 2 {
            return Err(FilesystemError::CorruptedFs);
        }
        Ok(
            Fat32Instance {
                volume_id: volume_id.to_owned(),
                disk: slice_to_vec(d.as_slice()),
                read_only: true,
            },
        )
    }
}

/// A mounted FAT32 volume: a snapshot of the medium and the id the manager
/// assigned.
pub struct Fat32Instance {
    pub volume_id: String,
    pub disk: Vec<u8>,
    pub read_only: bool,
}

/// Appends `d[off .. off + len)` to `acc`.
fn push_range(acc: &mut Vec<u8>, d: &[u8], off: usize, len: usize)
    requires
        off + len <= d@.len(),
    ensures
        final(acc)@ == old(acc)@ + d@.subrange(off as int, off as int + len as int),
{
    let n = d.len();
    let mut k: usize = 0;
    while k < len
        invariant
            k <= len,
            n == d@.len(),
            off + len <= n,
            acc@ == old(acc)@ + d@.subrange(off as int, off as int + k as int),
        decreases len - k,
    {
        proof {
            assert(d@.subrange(off as int, off as int + k as int).push(d@[off + k as int])
                =~= d@.subrange(off as int, off as int + (k + 1) as int));
        }
        acc.push(d[off + k]);
        k = k + 1;
    }
    proof {
        assert(acc@ =~= old(acc)@ + d@.subrange(off as int, off as int + len as int));
    }
}

/// Reads one FAT entry.
fn exec_fat_entry(d: &[u8], g: &Fat32Geometry, c: u64) -> (r: Option<u32>)
    ensures
        r == spec_fat_entry(d@, *g, c),
{
    let n = d.len();
    let pos: u128 = g.fat_start as u128 + 4u128 * c as u128;
    if pos + 4 > n as u128 {
        return None;
    }
    let off = pos as usize;
    Some(read_le32(d, off) & 0x0FFF_FFFF)
}

/// Reads `size` bytes of a file from the chain starting at `c0`.
fn exec_file_bytes(d: &[u8], g: &Fat32Geometry, c0: u64, size: u64, fuel0: u128) -> (r: Option<
    Vec<u8>,
>)
    ensures
        match r {
            Some(v) => spec_file_bytes(d@, *g, c0, size, fuel0 as nat) == Ok::<Seq<u8>, ()>(v@),
            None => spec_file_bytes(d@, *g, c0, size, fuel0 as nat) is Err,
        },
{
    let mut acc: Vec<u8> = Vec::new();
    let mut cur = c0;
    let mut remaining = size;
    let mut fuel = fuel0;
    proof {
        assert(acc@ =~= Seq::<u8>::empty());
    }
    loop
        invariant
            spec_file_bytes(d@, *g, c0, size, fuel0 as nat) == (match spec_file_bytes(
                d@,
                *g,
                cur,
                remaining,
                fuel as nat,
            ) {
                Ok(rest) => Ok::<Seq<u8>, ()>(acc@ + rest),
                Err(e) => Err::<Seq<u8>, ()>(e),
            }),
        decreases fuel,
    {
        if remaining == 0 {
            proof {
                assert(acc@ + Seq::<u8>::empty() =~= acc@);
            }
            return Some(acc);
        }
        if fuel == 0 {
            return None;
        }
        if !(2 <= cur && cur < 0x0FFF_FFF6) {
            return None;
        }
        proof {
            assert((cur as u128 - 2) * (g.cluster_bytes as u128)
                < 0x1000_0000_0000_0000_0000_0000u128) by (nonlinear_arith)
                requires
                    2 <= cur < 0x0FFF_FFF6,
                    g.cluster_bytes <= 0xFFFF_FFFF_FFFF_FFFFu64,
            ;
        }
        let n = d.len();
        let off128: u128 = g.data_start as u128 + (cur as u128 - 2) * g.cluster_bytes as u128;
        if off128 + g.cluster_bytes as u128 > n as u128 {
            return None;
        }
        let off = off128 as usize;
        let take: u64 = if remaining < g.cluster_bytes {
            remaining
        } else {
            g.cluster_bytes
        };
        let ghost acc0 = acc@;
        push_range(&mut acc, d, off, take as usize);
        if remaining <= g.cluster_bytes {
            return Some(acc);
        }
        match exec_fat_entry(d, g, cur) {
            None => {
                return None;
            },
            Some(next) => {
                proof {
                    let inner = spec_file_bytes(
                        d@,
                        *g,
                        next as u64,
                        (remaining - g.cluster_bytes) as u64,
                        (fuel - 1) as nat,
                    );
                    let piece = d@.subrange(off as int, off as int + g.cluster_bytes as int);
                    match inner {
                        Ok(rest) => {
                            assert(acc0 + (piece + rest) =~= (acc0 + piece) + rest);
                        },
                        Err(_) => {},
                    }
                }
                cur = next as u64;
                remaining = remaining - g.cluster_bytes;
                fuel = fuel - 1;
            },
        }
    }
}

/// Reads the whole chain starting at `c0`.
fn exec_chain_bytes(d: &[u8], g: &Fat32Geometry, c0: u64, fuel0: u128) -> (r: Option<Vec<u8>>)
    ensures
        match r {
            Some(v) => spec_chain_bytes(d@, *g, c0, fuel0 as nat) == Ok::<Seq<u8>, ()>(v@),
            None => spec_chain_bytes(d@, *g, c0, fuel0 as nat) is Err,
        },
{
    let mut acc: Vec<u8> = Vec::new();
    let mut cur = c0;
    let mut fuel = fuel0;
    proof {
        assert(acc@ =~= Seq::<u8>::empty());
    }
    loop
        invariant
            spec_chain_bytes(d@, *g, c0, fuel0 as nat) == (match spec_chain_bytes(
                d@,
                *g,
                cur,
                fuel as nat,
            ) {
                Ok(rest) => Ok::<Seq<u8>, ()>(acc@ + rest),
                Err(e) => Err::<Seq<u8>, ()>(e),
            }),
        decreases fuel,
    {
        if fuel == 0 {
            return None;
        }
        if !(2 <= cur && cur < 0x0FFF_FFF6) {
            return None;
        }
        proof {
            assert((cur as u128 - 2) * (g.cluster_bytes as u128)
                < 0x1000_0000_0000_0000_0000_0000u128) by (nonlinear_arith)
                requires
                    2 <= cur < 0x0FFF_FFF6,
                    g.cluster_bytes <= 0xFFFF_FFFF_FFFF_FFFFu64,
            ;
        }
        let n = d.len();
        let off128: u128 = g.data_start as u128 + (cur as u128 - 2) * g.cluster_bytes as u128;
        if off128 + g.cluster_bytes as u128 > n as u128 {
            return None;
        }
        let off = off128 as usize;
        let ghost acc0 = acc@;
        push_range(&mut acc, d, off, g.cluster_bytes as usize);
        match exec_fat_entry(d, g, cur) {
            None => {
                return None;
            },
            Some(next) => {
                if next >= 0x0FFF_FFF8 {
                    return Some(acc);
                }
                proof {
                    let inner = spec_chain_bytes(d@, *g, next as u64, (fuel - 1) as nat);
                    let piece = d@.subrange(off as int, off as int + g.cluster_bytes as int);
                    match inner {
                        Ok(rest) => {
                            assert(acc0 + (piece + rest) =~= (acc0 + piece) + rest);
                        },
                        Err(_) => {},
                    }
                }
                cur = next as u64;
                fuel = fuel - 1;
            },
        }
    }
}

/// Upper-cases a byte string.
fn to_upper(v: &[u8]) -> (r: Vec<u8>)
    ensures
        r@ =~= upper_bytes(v@),
{
    let n = v.len();
    let mut acc: Vec<u8> = Vec::new();
    let mut i: usize = 0;
    while i < n
        invariant
            i <= n,
            n == v@.len(),
            acc@.len() == i,
            forall|k: int| 0 <= k < i ==> acc@[k] == upper_byte(#[trigger] v@[k]),
        decreases n - i,
    {
        let b = v[i];
        if 0x61 <= b && b <= 0x7a {
            acc.push(b - 0x20);
        } else {
            acc.push(b);
        }
        i = i + 1;
    }
    acc
}

/// Compares two byte strings.
fn bytes_eq_local(a: &[u8], b: &[u8]) -> (r: bool)
    ensures
        r == (a@ == b@),
{
    crate::util::bytes_eq(a, b)
}

/// Collects the name bytes of a long-name record.
fn exec_collect_lfn(d: &[u8], off: usize) -> (r: Vec<u8>)
    requires
        off + 32 <= d@.len(),
    ensures
        r@ == collect_lfn(d@, off as int, 0),
{
    let n = d.len();
    let mut acc: Vec<u8> = Vec::new();
    let mut k: usize = 0;
    proof {
        assert(acc@ + collect_lfn(d@, off as int, 0) =~= collect_lfn(d@, off as int, 0));
    }
    while k < 13
        invariant
            k <= 13,
            n == d@.len(),
            off + 32 <= n,
            collect_lfn(d@, off as int, 0) == acc@ + collect_lfn(d@, off as int, k as int),
        decreases 13 - k,
    {
        let pos: usize = if k < 5 {
            1 + 2 * k
        } else if k < 11 {
            14 + 2 * (k - 5)
        } else {
            28 + 2 * (k - 11)
        };
        let u = read_le16(d, off + pos);
        if u == 0 || u == 0xFFFF {
            proof {
                assert(collect_lfn(d@, off as int, k as int) =~= Seq::<u8>::empty());
                assert(acc@ + Seq::<u8>::empty() =~= acc@);
            }
            return acc;
        }
        let ghost acc0 = acc@;
        let ghost ub = lfn_unit_bytes(u);
        if u < 0x80 {
            acc.push(u as u8);
        } else if 0xD800 <= u && u <= 0xDFFF {
            acc.push(0x5F);
        } else if u < 0x800 {
            acc.push(0xC0u8 | ((u >> 6u16) as u8));
            acc.push(0x80u8 | ((u as u8) & 0x3Fu8));
        } else {
            acc.push(0xE0u8 | ((u >> 12u16) as u8));
            acc.push(0x80u8 | (((u >> 6u16) as u8) & 0x3Fu8));
            acc.push(0x80u8 | ((u as u8) & 0x3Fu8));
        }
        proof {
            assert(acc@ =~= acc0 + ub);
            assert(acc0 + (ub + collect_lfn(d@, off as int, k as int + 1)) =~= acc@
                + collect_lfn(d@, off as int, k as int + 1));
        }
        k = k + 1;
    }
    proof {
        assert(collect_lfn(d@, off as int, 13) =~= Seq::<u8>::empty());
        assert(acc@ + Seq::<u8>::empty() =~= acc@);
    }
    acc
}

/// Drops trailing spaces in place.
fn exec_trim_spaces(v: &mut Vec<u8>)
    ensures
        final(v)@ == trim_spaces(old(v)@),
{
    loop
        invariant
            trim_spaces(v@) == trim_spaces(old(v)@),
        decreases v@.len(),
    {
        let n = v.len();
        if n == 0 {
            return ;
        }
        if v[n - 1] != 0x20 {
            return ;
        }
        v.pop();
    }
}

/// Builds the display name of an 8.3 record.
fn exec_short_name(d: &[u8], off: usize) -> (r: Vec<u8>)
    requires
        off + 32 <= d@.len(),
    ensures
        r@ == spec_short_name(d@, off as int),
{
    let n = d.len();
    let mut base: Vec<u8> = Vec::new();
    push_range(&mut base, d, off, 8);
    exec_trim_spaces(&mut base);
    let mut ext: Vec<u8> = Vec::new();
    push_range(&mut ext, d, off + 8, 3);
    proof {
        assert(Seq::<u8>::empty() + d@.subrange(off as int, off as int + 8) =~= d@.subrange(
            off as int,
            off as int + 8,
        ));
        assert(Seq::<u8>::empty() + d@.subrange(off + 8 as int, off + 8 as int + 3) =~= d@.subrange(
            off + 8 as int,
            off + 11 as int,
        ));
    }
    exec_trim_spaces(&mut ext);
    if ext.len() == 0 {
        proof {
            assert(spec_short_name(d@, off as int) == base@);
        }
        return base;
    }
    let ghost base0 = base@;
    base.push(0x2E);
    let mut e = ext;
    base.append(&mut e);
    proof {
        assert(base@ =~= base0 + seq![0x2Eu8] + trim_spaces(
            d@.subrange(off + 8 as int, off + 11 as int),
        ));
    }
    base
}

/// Looks a name up among raw directory records.
fn exec_dir_lookup(d: &[u8], name_u: &[u8], off: usize, pending: Vec<u8>) -> (r: Option<
    (u8, u32, u32),
>)
    ensures
        r == spec_dir_lookup(d@, name_u@, off as int, pending@),
    decreases d@.len() - off,
{
    let n = d.len();
    if off >= n || n - off < 32 {
        return None;
    }
    let b0 = d[off];
    if b0 == 0 {
        return None;
    }
    if b0 == 0xE5 {
        return exec_dir_lookup(d, name_u, off + 32, Vec::new());
    }
    let attr = d[off + 11];
    if attr == 0x0F {
        let mut lfn = exec_collect_lfn(d, off);
        let mut p = pending;
        lfn.append(&mut p);
        return exec_dir_lookup(d, name_u, off + 32, lfn);
    }
    if attr & 0x08 != 0 {
        return exec_dir_lookup(d, name_u, off + 32, Vec::new());
    }
    let nm: Vec<u8> = if pending.len() > 0 {
        pending
    } else {
        exec_short_name(d, off)
    };
    let up = to_upper(nm.as_slice());
    if bytes_eq_local(up.as_slice(), name_u) {
        let hi = read_le16(d, off + 20) as u32;
        let lo = read_le16(d, off + 26) as u32;
        let size = read_le32(d, off + 28);
        return Some((attr, hi * 0x1_0000 + lo, size));
    }
    exec_dir_lookup(d, name_u, off + 32, Vec::new())
}

/// One collected directory listing record.
pub struct RawListEntry {
    pub name: Vec<u8>,
    pub attr: u8,
}

/// The views of collected listing records.
pub open spec fn raw_list_views(rs: Seq<RawListEntry>) -> Seq<(Seq<u8>, u8)> {
    Seq::new(rs.len(), |i: int| (rs[i].name@, rs[i].attr))
}

/// Collects the logical entries of raw directory bytes.
fn exec_dir_list(d: &[u8]) -> (r: Vec<RawListEntry>)
    ensures
        raw_list_views(r@) == spec_dir_list(d@, 0, Seq::<u8>::empty()),
{
    let n = d.len();
    let mut acc: Vec<RawListEntry> = Vec::new();
    let mut off: usize = 0;
    let mut pending: Vec<u8> = Vec::new();
    proof {
        assert(raw_list_views(acc@) =~= Seq::<(Seq<u8>, u8)>::empty());
        assert(raw_list_views(acc@) + spec_dir_list(d@, 0, pending@) =~= spec_dir_list(
            d@,
            0,
            pending@,
        ));
        assert(pending@ =~= Seq::<u8>::empty());
    }
    loop
        invariant
            spec_dir_list(d@, 0, Seq::<u8>::empty()) == raw_list_views(acc@) + spec_dir_list(
                d@,
                off as int,
                pending@,
            ),
            n == d@.len(),
        decreases n - off,
    {
        if off >= n || n - off < 32 {
            proof {
                assert(spec_dir_list(d@, off as int, pending@) =~= Seq::<(Seq<u8>, u8)>::empty());
                assert(raw_list_views(acc@) + Seq::<(Seq<u8>, u8)>::empty() =~= raw_list_views(
                    acc@,
                ));
            }
            return acc;
        }
        let b0 = d[off];
        if b0 == 0 {
            proof {
                assert(spec_dir_list(d@, off as int, pending@) =~= Seq::<(Seq<u8>, u8)>::empty());
                assert(raw_list_views(acc@) + Seq::<(Seq<u8>, u8)>::empty() =~= raw_list_views(
                    acc@,
                ));
            }
            return acc;
        }
        let attr = d[off + 11];
        if b0 == 0xE5 {
            pending = Vec::new();
            proof {
                assert(pending@ =~= Seq::<u8>::empty());
            }
        } else if attr == 0x0F {
            let mut lfn = exec_collect_lfn(d, off);
            let mut p = pending;
            lfn.append(&mut p);
            pending = lfn;
        } else if attr & 0x08 != 0 {
            pending = Vec::new();
            proof {
                assert(pending@ =~= Seq::<u8>::empty());
            }
        } else {
            let nm: Vec<u8> = if pending.len() > 0 {
                pending
            } else {
                exec_short_name(d, off)
            };
            pending = Vec::new();
            let ghost acc0 = acc@;
            let ghost nmv = nm@;
            acc.push(RawListEntry { name: nm, attr });
            proof {
                assert(raw_list_views(acc@) =~= raw_list_views(acc0).push((nmv, attr)));
                assert(raw_list_views(acc0) + (seq![(nmv, attr)] + spec_dir_list(
                    d@,
                    off + 32 as int,
                    Seq::<u8>::empty(),
                )) =~= raw_list_views(acc@) + spec_dir_list(
                    d@,
                    off + 32 as int,
                    Seq::<u8>::empty(),
                ));
                assert(pending@ =~= Seq::<u8>::empty());
            }
        }
        off = off + 32;
    }
}

/// First separator index at or after `j`, all bytes before it non-separator.
proof fn lemma_first_sep_eq(p: Seq<u8>, i: int, j: int)
    requires
        0 <= i <= j <= p.len(),
        forall|m: int| i <= m < j ==> p[m] != 0x2F,
        j < p.len() ==> p[j] == 0x2F,
    ensures
        spec_first_sep(p, i) == j,
    decreases j - i,
{
    if i < j {
        lemma_first_sep_eq(p, i + 1, j);
    }
}

/// The views of a list of byte strings.
pub open spec fn vecs_views(vs: Seq<Vec<u8>>) -> Seq<Seq<u8>> {
    Seq::new(vs.len(), |i: int| vs[i]@)
}

/// Splits a path into its components.
pub fn exec_components(p: &[u8]) -> (r: Vec<Vec<u8>>)
    ensures
        vecs_views(r@) == spec_components(p@),
{
    let n = p.len();
    let mut acc: Vec<Vec<u8>> = Vec::new();
    let mut pos: usize = 0;
    proof {
        assert(p@.skip(0) =~= p@);
        assert(vecs_views(acc@) + spec_components(p@.skip(0)) =~= spec_components(p@));
    }
    while pos < n
        invariant
            pos <= n,
            n == p@.len(),
            spec_components(p@) == vecs_views(acc@) + spec_components(p@.skip(pos as int)),
        decreases n - pos,
    {
        if p[pos] == 0x2F {
            proof {
                assert(p@.skip(pos as int).drop_first() =~= p@.skip(pos as int + 1));
            }
            pos = pos + 1;
        } else {
            let mut scan = pos;
            while scan < n && p[scan] != 0x2F
                invariant
                    pos <= scan <= n,
                    n == p@.len(),
                    forall|m: int| pos <= m < scan ==> p@[m] != 0x2F,
                decreases n - scan,
            {
                scan = scan + 1;
            }
            let ghost suffix = p@.skip(pos as int);
            proof {
                assert forall|m: int| 0 <= m < scan - pos implies suffix[m] != 0x2F by {
                    assert(suffix[m] == p@[pos + m]);
                }
                if (scan as int) - (pos as int) < suffix.len() {
                    assert(suffix[scan - pos] == p@[scan as int]);
                }
                lemma_first_sep_eq(suffix, 0, scan as int - pos as int);
                assert(suffix.subrange(0, scan - pos as int) =~= p@.subrange(
                    pos as int,
                    scan as int,
                ));
                assert(suffix.subrange(scan - pos as int, suffix.len() as int) =~= p@.skip(
                    scan as int,
                ));
            }
            let mut comp: Vec<u8> = Vec::new();
            push_range(&mut comp, p, pos, scan - pos);
            proof {
                assert(comp@ =~= p@.subrange(pos as int, scan as int));
            }
            let ghost acc0 = acc@;
            let ghost compv = comp@;
            acc.push(comp);
            proof {
                assert(vecs_views(acc@) =~= vecs_views(acc0).push(compv));
                assert(vecs_views(acc0) + (seq![compv] + spec_components(p@.skip(scan as int)))
                    =~= vecs_views(acc@) + spec_components(p@.skip(scan as int)));
            }
            pos = scan;
        }
    }
    proof {
        assert(p@.skip(n as int) =~= Seq::<u8>::empty());
        assert(spec_components(Seq::<u8>::empty()) =~= Seq::<Seq<u8>>::empty());
        assert(vecs_views(acc@) + Seq::<Seq<u8>>::empty() =~= vecs_views(acc@));
    }
    acc
}

/// The fuel bound used by the walkers.
fn exec_fuel(d: &[u8], g: &Fat32Geometry) -> (r: u128)
    ensures
        r as nat == spec_fuel(d@, *g),
{
    d.len() as u128 + 2
}

/// Walks path components from cluster `c`.
fn exec_walk(d: &[u8], g: &Fat32Geometry, c: u64, comps: &Vec<Vec<u8>>, i: usize) -> (r: Result<
    (u8, u32, u32),
    FilesystemError,
>)
    requires
        i <= comps@.len(),
    ensures
        match r {
            Ok(e) => spec_walk(d@, *g, c, vecs_views(comps@), i as int) == Ok::<
                (u8, u32, u32),
                FsErrorRep,
            >(e),
            Err(e) => spec_walk(d@, *g, c, vecs_views(comps@), i as int) == Err::<
                (u8, u32, u32),
                FsErrorRep,
            >(e@),
        },
    decreases comps@.len() - i,
{
    if i >= comps.len() {
        return Err(FilesystemError::NotFound);
    }
    let fuel = exec_fuel(d, g);
    let dirbytes = match exec_chain_bytes(d, g, c, fuel) {
        None => {
            return Err(FilesystemError::CorruptedFs);
        },
        Some(v) => v,
    };
    let name_u = to_upper(comps[i].as_slice());
    proof {
        assert(name_u@ =~= upper_bytes(vecs_views(comps@)[i as int]));
    }
    match exec_dir_lookup(dirbytes.as_slice(), name_u.as_slice(), 0, Vec::new()) {
        None => Err(FilesystemError::NotFound),
        Some((attr, cl, size)) => {
            if i == comps.len() - 1 {
                Ok((attr, cl, size))
            } else if attr & 0x10 != 0 {
                exec_walk(d, g, cl as u64, comps, i + 1)
            } else {
                Err(FilesystemError::NotADirectory)
            }
        },
    }
}

/// Maps a raw name byte to the character the listing reports: ASCII bytes
/// stand for themselves, anything else becomes an underscore.
pub open spec fn sanitize_byte(b: u8) -> u8 {
    if b < 0x80 {
        b
    } else {
        0x5F
    }
}

/// Sanitized raw name bytes.
pub open spec fn sanitize_bytes(s: Seq<u8>) -> Seq<u8> {
    Seq::new(s.len(), |i: int| sanitize_byte(s[i]))
}

/// The `k`th reported entry matches the `k`th collected record.
pub open spec fn list_entry_ok(out: Seq<DirectoryEntry>, ls: Seq<(Seq<u8>, u8)>, k: int) -> bool {
    &&& (out[k].name)@ == spec_name_chars(ls[k].0)
    &&& (out[k].entry_type == EntryType::Directory <==> ls[k].1 & 0x10 != 0)
}

/// The characters a raw name is reported as: UTF-8 text decodes; anything
/// else is shown with its non-ASCII bytes as underscores.
pub open spec fn spec_name_chars(v: Seq<u8>) -> Seq<char> {
    if vstd::utf8::valid_utf8(v) {
        vstd::utf8::decode_utf8(v)
    } else {
        crate::util::ascii_chars_of(sanitize_bytes(v))
    }
}

/// The listing prefix built so far matches the collected records.
pub open spec fn list_prefix_ok(out: Seq<DirectoryEntry>, ls: Seq<(Seq<u8>, u8)>, i: int) -> bool {
    forall|k: int| 0 <= k < i ==> #[trigger] list_entry_ok(out, ls, k)
}

/// Builds the reported string for raw name bytes.
fn sanitize_to_string(v: &[u8]) -> (r: String)
    ensures
        r@ == spec_name_chars(v@),
{
    if crate::util::validate_utf8(v) {
        return crate::util::utf8_to_string(slice_to_vec(v));
    }
    let n = v.len();
    let mut acc: Vec<u8> = Vec::new();
    let mut i: usize = 0;
    while i < n
        invariant
            i <= n,
            n == v@.len(),
            acc@.len() == i,
            forall|k: int| 0 <= k < i ==> acc@[k] == sanitize_byte(#[trigger] v@[k]),
        decreases n - i,
    {
        let b = v[i];
        if b < 0x80 {
            acc.push(b);
        } else {
            acc.push(0x5F);
        }
        i = i + 1;
    }
    proof {
        assert(acc@ =~= sanitize_bytes(v@));
    }
    ascii_to_string(acc)
}

impl Fat32Instance {
    /// Reads a whole file rooted at the volume root.
    pub fn read_file_bytes(&self, path: &str) -> (r: Result<Vec<u8>, FilesystemError>)
        ensures
            match r {
                Ok(v) => spec_fat32_read_file(self.disk@, path.spec_bytes()) == Ok::<
                    Seq<u8>,
                    FsErrorRep,
                >(v@),
                Err(e) => spec_fat32_read_file(self.disk@, path.spec_bytes()) == Err::<
                    Seq<u8>,
                    FsErrorRep,
                >(e@),
            },
    {
        let d = self.disk.as_slice();
        let g = match exec_mount_geo(d) {
            None => {
                return Err(FilesystemError::CorruptedFs);
            },
            Some(g) => g,
        };
        let comps = exec_components(path.as_bytes());
        if comps.len() == 0 {
            return Err(FilesystemError::NotAFile);
        }
        match exec_walk(d, &g, g.root_cluster, &comps, 0) {
            Err(e) => Err(e),
            Ok((attr, cl, size)) => {
                if attr & 0x10 != 0 {
                    return Err(FilesystemError::NotAFile);
                }
                if size == 0 {
                    let v: Vec<u8> = Vec::new();
                    proof {
                        assert(v@ =~= Seq::<u8>::empty());
                    }
                    return Ok(v);
                }
                let fuel = exec_fuel(d, &g);
                match exec_file_bytes(d, &g, cl as u64, size as u64, fuel) {
                    Some(v) => Ok(v),
                    None => Err(FilesystemError::CorruptedFs),
                }
            },
        }
    }

    /// Metadata of the file or directory a path names.
    pub fn metadata_of(&self, path: &str) -> (r: Result<FileMetadata, FilesystemError>)
        ensures
            match r {
                Ok(m) => spec_fat32_stat(self.disk@, path.spec_bytes()) matches Ok(e) && m.size
                    == e.2 && (m.entry_type == EntryType::Directory <==> e.0 & 0x10 != 0) && (
                m.entry_type == EntryType::File <==> e.0 & 0x10 == 0),
                Err(e) => spec_fat32_stat(self.disk@, path.spec_bytes()) == Err::<
                    (u8, u32, u32),
                    FsErrorRep,
                >(e@),
            },
    {
        let d = self.disk.as_slice();
        let g = match exec_mount_geo(d) {
            None => {
                return Err(FilesystemError::CorruptedFs);
            },
            Some(g) => g,
        };
        let comps = exec_components(path.as_bytes());
        if comps.len() == 0 {
            proof {
                assert(0x10u8 & 0x10u8 == 0x10u8) by (bit_vector);
            }
            return Ok(
                FileMetadata {
                    name: sanitize_to_string(&[]),
                    entry_type: EntryType::Directory,
                    size: 0,
                    created_time: None,
                    modified_time: None,
                    accessed_time: None,
                },
            );
        }
        match exec_walk(d, &g, g.root_cluster, &comps, 0) {
            Err(e) => Err(e),
            Ok((attr, _cl, size)) => {
                let name = sanitize_to_string(comps[comps.len() - 1].as_slice());
                Ok(
                    FileMetadata {
                        name,
                        entry_type: if attr & 0x10 != 0 {
                            EntryType::Directory
                        } else {
                            EntryType::File
                        },
                        size: size as u64,
                        created_time: None,
                        modified_time: None,
                        accessed_time: None,
                    },
                )
            },
        }
    }

    /// Lists the directory a path names.
    pub fn list_directory_entries(&self, path: &str) -> (r: Result<
        Vec<DirectoryEntry>,
        FilesystemError,
    >)
        ensures
            match r {
                Ok(es) => spec_fat32_list(self.disk@, path.spec_bytes()) matches Ok(ls) && es@.len()
                    == ls.len() && list_prefix_ok(es@, ls, ls.len() as int),
                Err(e) => spec_fat32_list(self.disk@, path.spec_bytes()) == Err::<
                    Seq<(Seq<u8>, u8)>,
                    FsErrorRep,
                >(e@),
            },
    {
        let d = self.disk.as_slice();
        let g = match exec_mount_geo(d) {
            None => {
                return Err(FilesystemError::CorruptedFs);
            },
            Some(g) => g,
        };
        let comps = exec_components(path.as_bytes());
        proof {
            assert(0x10u8 & 0x10u8 == 0x10u8) by (bit_vector);
        }
        let target: (u8, u32, u32) = if comps.len() == 0 {
            (0x10u8, g.root_cluster as u32, 0u32)
        } else {
            match exec_walk(d, &g, g.root_cluster, &comps, 0) {
                Err(e) => {
                    return Err(e);
                },
                Ok(t) => t,
            }
        };
        let (attr, cl, _size) = target;
        if attr & 0x10 == 0 {
            return Err(FilesystemError::NotADirectory);
        }
        let fuel = exec_fuel(d, &g);
        let dirbytes = match exec_chain_bytes(d, &g, cl as u64, fuel) {
            None => {
                return Err(FilesystemError::CorruptedFs);
            },
            Some(v) => v,
        };
        let raw = exec_dir_list(dirbytes.as_slice());
        let ghost ls = spec_dir_list(dirbytes@, 0, Seq::<u8>::empty());
        let mut out: Vec<DirectoryEntry> = Vec::new();
        let n = raw.len();
        let mut i: usize = 0;
        while i < n
            invariant
                i <= n,
                n == raw@.len(),
                ls == raw_list_views(raw@),
                ls.len() == n,
                out@.len() == i,
                list_prefix_ok(out@, ls, i as int),
            decreases n - i,
        {
            proof {
                assert(ls[i as int] == (raw@[i as int].name@, raw@[i as int].attr));
            }
            let ghost out0 = out@;
            let name = sanitize_to_string(raw[i].name.as_slice());
            let entry_type = if raw[i].attr & 0x10 != 0 {
                EntryType::Directory
            } else {
                EntryType::File
            };
            out.push(DirectoryEntry { name, entry_type });
            proof {
                assert forall|k: int| 0 <= k < i + 1 implies #[trigger] list_entry_ok(
                    out@,
                    ls,
                    k,
                ) by {
                    if k < i {
                        assert(list_entry_ok(out0, ls, k));
                        assert(out@[k] == out0[k]);
                    } else {
                        assert(out@[k].name@ == spec_name_chars(ls[k].0));
                    }
                }
                assert(list_prefix_ok(out@, ls, i + 1));
            }
            i = i + 1;
        }
        proof {
            assert(spec_fat32_list(self.disk@, path.spec_bytes()) == Ok::<
                Seq<(Seq<u8>, u8)>,
                FsErrorRep,
            >(ls));
            assert(list_prefix_ok(out@, ls, n as int));
        }
        Ok(out)
    }

    /// Whether a path exists on the volume: yes when it resolves, no when
    /// the lookup ends in not-found, and any other failure is passed on.
    pub fn exists_path(&self, path: &str) -> (r: Result<bool, FilesystemError>)
        ensures
            match r {
                Ok(b) => b == (spec_fat32_stat(self.disk@, path.spec_bytes()) is Ok) && (!b
                    ==> spec_fat32_stat(self.disk@, path.spec_bytes()) == Err::<
                    (u8, u32, u32),
                    FsErrorRep,
                >(FsErrorRep::NotFound)),
                Err(e) => spec_fat32_stat(self.disk@, path.spec_bytes()) == Err::<
                    (u8, u32, u32),
                    FsErrorRep,
                >(e@) && e@ != FsErrorRep::NotFound,
            },
    {
        match self.metadata_of(path) {
            Ok(_) => Ok(true),
            Err(e) => {
                let is_nf = match &e {
                    FilesystemError::NotFound => true,
                    _ => false,
                };
                if is_nf {
                    Ok(false)
                } else {
                    Err(e)
                }
            },
        }
    }
}

/// Parses the geometry of a mountable volume.
fn exec_mount_geo(d: &[u8]) -> (r: Option<Fat32Geometry>)
    ensures
        r == spec_mount_geo(d@),
{
    if d.len() < 512 {
        return None;
    }
    if !(d[510] == 0x55 && d[511] == 0xAA) {
        return None;
    }
    if !(d[82] == 0x46 && d[83] == 0x41 && d[84] == 0x54 && d[85] == 0x33 && d[86] == 0x32 && d[87]
        == 0x20 && d[88] == 0x20 && d[89] == 0x20) {
        return None;
    }
    let bps = read_le16(d, 11) as u64;
    let spc = d[13] as u64;
    let reserved = read_le16(d, 14) as u64;
    let nfats = d[16] as u64;
    if !(bps == 512 || bps == 1024 || bps == 2048 || bps == 4096) {
        return None;
    }
    if !(spc == 1 || spc == 2 || spc == 4 || spc == 8 || spc == 16 || spc == 32 || spc == 64 || spc
        == 128) {
        return None;
    }
    if reserved < 1 || nfats < 1 {
        return None;
    }
    let fat_size = read_le32(d, 36) as u64;
    let root = read_le32(d, 44) as u64;
    if fat_size < 1 || root < 2 {
        return None;
    }
    proof {
        assert(reserved * bps <= 0xFFFF * 4096) by (nonlinear_arith)
            requires
                reserved <= 0xFFFF,
                bps <= 4096,
        ;
        assert(nfats * fat_size <= 0xFF * 0xFFFF_FFFF) by (nonlinear_arith)
            requires
                nfats <= 0xFF,
                fat_size <= 0xFFFF_FFFF,
        ;
        assert((reserved + nfats * fat_size) * bps <= (0xFFFF + 0xFF * 0xFFFF_FFFF) * 4096)
            by (nonlinear_arith)
            requires
                reserved + nfats * fat_size <= 0xFFFF + 0xFF * 0xFFFF_FFFF,
                bps <= 4096,
        ;
        assert(spc * bps <= 128 * 4096) by (nonlinear_arith)
            requires
                spc <= 128,
                bps <= 4096,
        ;
    }
    Some(
        Fat32Geometry {
            bytes_per_sector: bps,
            sectors_per_cluster: spc,
            reserved_sectors: reserved,
            num_fats: nfats,
            fat_size_sectors: fat_size,
            root_cluster: root,
            fat_start: reserved * bps,
            data_start: (reserved + nfats * fat_size) * bps,
            cluster_bytes: spc * bps,
        },
    )
}

impl FileSystemDriver for Fat32Driver {
    type Instance = Fat32Instance;

    fn name(&self) -> String {
        ("FAT32").to_owned()
    }

    fn detect(&self, device: &HalDevice) -> bool {
        self.detect_fat32(device)
    }

    fn mount(&self, device: &HalDevice, volume_id: &str, read_only: bool) -> Result<
        Fat32Instance,
        FilesystemError,
    > {
        self.mount_fat32(device, volume_id, read_only)
    }
}

impl FileSystemInstance for Fat32Instance {
    fn volume_id(&self) -> &str {
        self.volume_id.as_str()
    }

    fn read_file(&self, path: &str) -> Result<Vec<u8>, FilesystemError> {
        self.read_file_bytes(path)
    }

    fn list_directory(&self, path: &str) -> Result<Vec<DirectoryEntry>, FilesystemError> {
        self.list_directory_entries(path)
    }

    fn metadata(&self, path: &str) -> Result<FileMetadata, FilesystemError> {
        self.metadata_of(path)
    }

    fn path_exists(&self, path: &str) -> Result<bool, FilesystemError> {
        self.exists_path(path)
    }

    fn is_read_only(&self) -> bool {
        self.read_only
    }
}

} // verus!
