//! Mount management: the driver registry, the mount table, and the unified
//! read/list/stat entry points.
//!
//! Volume ids have the shape `vol-<n>-<device>-<fstype>` with a counter that
//! is monotonic for the boot; ids in the table are proved pairwise distinct.

use vstd::prelude::*;
use crate::fs::Volume;
use crate::fs::fat32::Fat32Driver;
use crate::fs::fat32::Fat32Instance;
use crate::fs::fat32::fat32_detect;
use crate::fs::fat32::spec_mount_geo;
use crate::fs::fat32::spec_fat32_read_file;
use crate::fs::fat32::spec_fat32_stat;
use crate::fs::fat32::spec_fat32_list;
use crate::fs::fat32::list_prefix_ok;
use crate::fs::interface::DirectoryEntry;
use crate::fs::interface::FileMetadata;
use crate::fs::interface::EntryType;
use crate::fs::interface::FilesystemError;
use crate::fs::interface::FsErrorRep;
use crate::hal::Device as HalDevice;
use crate::util::all_ascii;
use crate::util::ascii_chars_of;
use crate::util::ascii_to_string;
use vstd::string::StringSliceAdditionalSpecFns;

verus! {

/// A registered filesystem driver.
pub enum AnyDriver {
    Fat32(Fat32Driver),
}

/// A live driver instance backing a mounted volume.
pub enum AnyInstance {
    Fat32(Fat32Instance),
}

/// Whether a registered driver recognizes the device.
pub open spec fn spec_driver_detects(d: AnyDriver, dev_content: Seq<u8>) -> bool {
    match d {
        AnyDriver::Fat32(_) => fat32_detect(dev_content),
    }
}

/// Whether a registered driver would both recognize and mount the device.
pub open spec fn spec_driver_mountable(d: AnyDriver, dev_content: Seq<u8>) -> bool {
    match d {
        AnyDriver::Fat32(_) => spec_mount_geo(dev_content) is Some,
    }
}

/// The name of a registered driver.
pub open spec fn spec_driver_name(d: AnyDriver) -> Seq<char> {
    match d {
        AnyDriver::Fat32(_) => "FAT32"@,
    }
}

/// The medium snapshot behind an instance.
pub open spec fn spec_instance_disk(inst: AnyInstance) -> Seq<u8> {
    match inst {
        AnyInstance::Fat32(f) => f.disk@,
    }
}

/// Index of the first registered driver that would mount the device.
pub open spec fn spec_first_mountable(ds: Seq<AnyDriver>, dev_content: Seq<u8>) -> Option<int>
    decreases ds.len(),
{
    if ds.len() == 0 {
        None
    } else if spec_driver_mountable(ds[0], dev_content) {
        Some(0)
    } else {
        match spec_first_mountable(ds.drop_first(), dev_content) {
            Some(i) => Some(i + 1),
            None => None,
        }
    }
}

/// One mounted volume: its driver instance, its public record, and the
/// counter value its id embeds.
pub struct MountedVolumeInfo {
    pub instance: AnyInstance,
    pub lbl_volume_info: Volume,
    pub volume_num: u32,
}

/// Decimal digits of `n`.
pub open spec fn spec_digits(n: u32) -> Seq<u8>
    decreases n,
{
    if n < 10 {
        seq![(0x30 + n) as u8]
    } else {
        spec_digits(n / 10).push((0x30 + n % 10) as u8)
    }
}

/// Every byte of a decimal representation is a digit.
pub proof fn lemma_digits_are_digits(n: u32)
    ensures
        spec_digits(n).len() >= 1,
        forall|i: int| 0 <= i < spec_digits(n).len() ==> 0x30 <= #[trigger] spec_digits(n)[i]
            <= 0x39,
    decreases n,
{
    if n >= 10 {
        lemma_digits_are_digits(n / 10);
    }
}

/// Decimal representation is injective.
pub proof fn lemma_digits_injective(a: u32, b: u32)
    requires
        spec_digits(a) == spec_digits(b),
    ensures
        a == b,
    decreases a,
{
    lemma_digits_are_digits(a);
    lemma_digits_are_digits(b);
    if a < 10 && b < 10 {
        assert(spec_digits(a)[0] == 0x30 + a);
        assert(spec_digits(b)[0] == 0x30 + b);
    } else if a < 10 {
        assert(spec_digits(b).len() >= 2) by {
            lemma_digits_are_digits(b / 10);
        }
    } else if b < 10 {
        assert(spec_digits(a).len() >= 2) by {
            lemma_digits_are_digits(a / 10);
        }
    } else {
        assert(spec_digits(a).drop_last() =~= spec_digits(a / 10));
        assert(spec_digits(b).drop_last() =~= spec_digits(b / 10));
        lemma_digits_injective(a / 10, b / 10);
        assert(spec_digits(a).last() == 0x30 + a % 10);
        assert(spec_digits(b).last() == 0x30 + b % 10);
        assert(a == 10 * (a / 10) + a % 10);
        assert(b == 10 * (b / 10) + b % 10);
    }
}

/// The bytes `vol-`.
pub open spec fn vol_prefix() -> Seq<u8> {
    seq![0x76u8, 0x6Fu8, 0x6Cu8, 0x2Du8]
}

/// How one device-name byte enters a volume id: path separators and
/// non-ASCII bytes become underscores.
pub open spec fn spec_sanitize_device_byte(b: u8) -> u8 {
    if b == 0x2F || b >= 0x80 {
        0x5F
    } else {
        b
    }
}

/// The sanitized device-name bytes of a volume id.
pub open spec fn spec_sanitize_device(s: Seq<u8>) -> Seq<u8> {
    Seq::new(s.len(), |i: int| spec_sanitize_device_byte(s[i]))
}

/// How one filesystem-type byte enters a volume id: ASCII letters are
/// lower-cased, non-ASCII bytes become underscores.
pub open spec fn spec_lower_byte(b: u8) -> u8 {
    if 0x41 <= b <= 0x5A {
        (b + 0x20) as u8
    } else if b >= 0x80 {
        0x5F
    } else {
        b
    }
}

/// The lower-cased filesystem-type bytes of a volume id.
pub open spec fn spec_lower(s: Seq<u8>) -> Seq<u8> {
    Seq::new(s.len(), |i: int| spec_lower_byte(s[i]))
}

/// The whole text of a generated volume id:
/// `vol-<counter>-<sanitized device>-<lower-cased filesystem type>`.
pub open spec fn spec_volume_id_bytes(num: u32, dev: Seq<u8>, fs: Seq<u8>) -> Seq<u8> {
    vol_prefix() + spec_digits(num) + seq![0x2Du8] + spec_sanitize_device(dev) + seq![0x2Du8]
        + spec_lower(fs)
}

/// The byte shape of a generated volume id: `vol-`, the counter digits,
/// `-`, then the rest.
pub open spec fn spec_id_shape(id: Seq<char>, num: u32) -> bool {
    exists|rest: Seq<u8>|
        id == #[trigger] ascii_chars_of(
            vol_prefix() + spec_digits(num) + seq![0x2Du8] + rest,
        )
}

/// Index of the first non-digit byte at or after `i`.
pub open spec fn spec_first_nondigit(s: Seq<u8>, i: int) -> int
    decreases s.len() - i,
{
    if 0 <= i < s.len() && 0x30 <= s[i] <= 0x39 {
        spec_first_nondigit(s, i + 1)
    } else {
        i
    }
}

proof fn lemma_first_nondigit_of_shape(d: Seq<u8>, rest: Seq<u8>)
    requires
        d.len() >= 1,
        forall|i: int| 0 <= i < d.len() ==> 0x30 <= #[trigger] d[i] <= 0x39,
    ensures
        ({
            let s = vol_prefix() + d + seq![0x2Du8] + rest;
            spec_first_nondigit(s, 4) == 4 + d.len()
        }),
{
    let s = vol_prefix() + d + seq![0x2Du8] + rest;
    assert(s.len() == 4 + d.len() + 1 + rest.len());
    assert forall|i: int| 4 <= i < 4 + d.len() implies 0x30 <= #[trigger] s[i] <= 0x39 by {
        assert(s[i] == d[i - 4]);
    }
    assert(s[4 + d.len() as int] == 0x2Du8);
    lemma_first_nondigit_run(s, 4, 4 + d.len() as int);
    assert(4 + d.len() as int == 4 + d.len());
}

proof fn lemma_first_nondigit_run(s: Seq<u8>, i: int, j: int)
    requires
        0 <= i <= j <= s.len(),
        forall|m: int| i <= m < j ==> 0x30 <= #[trigger] s[m] <= 0x39,
        j < s.len() ==> !(0x30 <= s[j] <= 0x39),
    ensures
        spec_first_nondigit(s, i) == j,
    decreases j - i,
{
    if i < j {
        lemma_first_nondigit_run(s, i + 1, j);
    }
}

/// Two generated ids with different counter values differ, whatever the
/// device and filesystem parts are.
pub proof fn lemma_volume_id_shape_injective(id1: Seq<char>, n1: u32, id2: Seq<char>, n2: u32)
    requires
        spec_id_shape(id1, n1),
        spec_id_shape(id2, n2),
        n1 != n2,
    ensures
        id1 != id2,
{
    let prefix = vol_prefix();
    let rest1 = choose|rest: Seq<u8>|
        id1 == #[trigger] ascii_chars_of(prefix + spec_digits(n1) + seq![0x2Du8] + rest);
    let rest2 = choose|rest: Seq<u8>|
        id2 == #[trigger] ascii_chars_of(prefix + spec_digits(n2) + seq![0x2Du8] + rest);
    let s1 = prefix + spec_digits(n1) + seq![0x2Du8] + rest1;
    let s2 = prefix + spec_digits(n2) + seq![0x2Du8] + rest2;
    lemma_digits_are_digits(n1);
    lemma_digits_are_digits(n2);
    if id1 == id2 {
        // equal char views force equal byte strings, hence equal digit runs
        assert(ascii_chars_of(s1) == ascii_chars_of(s2));
        assert(s1.len() == s2.len());
        assert forall|i: int| 0 <= i < s1.len() implies s1[i] == s2[i] by {
            assert(ascii_chars_of(s1)[i] == ascii_chars_of(s2)[i]);
            let b1 = s1[i];
            let b2 = s2[i];
            assert(b1 as char == b2 as char);
            assert(b1 as char as u32 == b1 as u32);
            assert(b2 as char as u32 == b2 as u32);
        }
        assert(s1 =~= s2);
        lemma_first_nondigit_of_shape(spec_digits(n1), rest1);
        lemma_first_nondigit_of_shape(spec_digits(n2), rest2);
        assert(4 + spec_digits(n1).len() == 4 + spec_digits(n2).len());
        assert(spec_digits(n1) =~= spec_digits(n2)) by {
            assert forall|i: int| 0 <= i < spec_digits(n1).len() implies spec_digits(n1)[i]
                == spec_digits(n2)[i] by {
                assert(s1[4 + i] == spec_digits(n1)[i]);
                assert(s2[4 + i] == spec_digits(n2)[i]);
            }
        }
        lemma_digits_injective(n1, n2);
        assert(false);
    }
}

/// Manages registered drivers and the mount table.
pub struct FilesystemManager {
    pub drivers: Vec<AnyDriver>,
    pub mounted_volumes: Vec<MountedVolumeInfo>,
    pub next_volume_numeric_id: u32,
}

impl FilesystemManager {
    /// The mount table, in mount order.
    pub open spec fn spec_mounted(&self) -> Seq<MountedVolumeInfo> {
        self.mounted_volumes@
    }

    /// The media snapshots behind the mount table, in mount order.
    pub open spec fn spec_mounted_disks(&self) -> Seq<Seq<u8>> {
        Seq::new(self.spec_mounted().len(), |i: int| spec_instance_disk(self.spec_mounted()[i].instance))
    }

    /// Well-formedness: every id has the generated shape with its stored
    /// counter value, counter values are below the counter and pairwise
    /// distinct.
    pub open spec fn wf(&self) -> bool {
        &&& forall|i: int|
            0 <= i < self.spec_mounted().len() ==> spec_id_shape(
                (#[trigger] self.spec_mounted()[i]).lbl_volume_info.id@,
                self.spec_mounted()[i].volume_num,
            )
        &&& forall|i: int|
            0 <= i < self.spec_mounted().len() ==> (#[trigger] self.spec_mounted()[i]).volume_num
                < self.next_volume_numeric_id
        &&& forall|i: int, j: int|
            0 <= i < j < self.spec_mounted().len() ==> (#[trigger] self.spec_mounted()[i]).volume_num
                != (#[trigger] self.spec_mounted()[j]).volume_num
    }

    /// Creates a manager with no drivers and an empty mount table.
    pub fn new(_hal_services: &crate::hal::HalServices) -> (r: FilesystemManager)
        ensures
            r.wf(),
            r.spec_mounted() == Seq::<MountedVolumeInfo>::empty(),
            r.drivers@ == Seq::<AnyDriver>::empty(),
            r.next_volume_numeric_id == 1,
    {
        let r = FilesystemManager {
            drivers: Vec::new(),
            mounted_volumes: Vec::new(),
            next_volume_numeric_id: 1,
        };
        proof {
            assert(r.spec_mounted() =~= Seq::<MountedVolumeInfo>::empty());
            assert(r.drivers@ =~= Seq::<AnyDriver>::empty());
        }
        r
    }

    /// Registers a driver at the end of the probe order.
    pub fn register_driver(&mut self, driver: AnyDriver)
        requires
            old(self).wf(),
        ensures
            final(self).wf(),
            final(self).drivers@ == old(self).drivers@.push(driver),
            final(self).spec_mounted() == old(self).spec_mounted(),
            final(self).next_volume_numeric_id == old(self).next_volume_numeric_id,
    {
        self.drivers.push(driver);
    }

    /// Ids in a well-formed mount table are pairwise distinct.
    pub proof fn lemma_volume_ids_unique(&self, i: int, j: int)
        requires
            self.wf(),
            0 <= i < self.spec_mounted().len(),
            0 <= j < self.spec_mounted().len(),
            i != j,
        ensures
            self.spec_mounted()[i].lbl_volume_info.id@
                != self.spec_mounted()[j].lbl_volume_info.id@,
    {
        lemma_volume_id_shape_injective(
            self.spec_mounted()[i].lbl_volume_info.id@,
            self.spec_mounted()[i].volume_num,
            self.spec_mounted()[j].lbl_volume_info.id@,
            self.spec_mounted()[j].volume_num,
        );
    }
}

/// Builds the decimal digits of `n`.
fn u32_digits(n: u32) -> (r: Vec<u8>)
    ensures
        r@ == spec_digits(n),
    decreases n,
{
    if n < 10 {
        let mut v: Vec<u8> = Vec::new();
        v.push(0x30 + n as u8);
        proof {
            assert(v@ =~= spec_digits(n));
        }
        v
    } else {
        let mut v = u32_digits(n / 10);
        v.push(0x30 + (n % 10) as u8);
        v
    }
}

/// Replaces path separators and non-ASCII bytes in a device name so the id
/// stays one path-free ASCII token.
fn sanitize_name(s: &str) -> (r: Vec<u8>)
    ensures
        all_ascii(r@),
        r@ == spec_sanitize_device(s.spec_bytes()),
{
    let bs = s.as_bytes();
    let n = bs.len();
    let mut acc: Vec<u8> = Vec::new();
    let mut i: usize = 0;
    while i < n
        invariant
            i <= n,
            n == bs@.len(),
            bs@ == s.spec_bytes(),
            all_ascii(acc@),
            acc@.len() == i,
            forall|k: int| 0 <= k < i ==> acc@[k] == spec_sanitize_device_byte(#[trigger] bs@[k]),
        decreases n - i,
    {
        let b = bs[i];
        if b == 0x2F || b >= 0x80 {
            acc.push(0x5F);
        } else {
            acc.push(b);
        }
        i = i + 1;
    }
    proof {
        assert(acc@ =~= spec_sanitize_device(s.spec_bytes()));
    }
    acc
}

/// ASCII lower-casing of one byte string.
fn to_lower(s: &str) -> (r: Vec<u8>)
    ensures
        all_ascii(r@),
        r@ == spec_lower(s.spec_bytes()),
{
    let bs = s.as_bytes();
    let n = bs.len();
    let mut acc: Vec<u8> = Vec::new();
    let mut i: usize = 0;
    while i < n
        invariant
            i <= n,
            n == bs@.len(),
            bs@ == s.spec_bytes(),
            all_ascii(acc@),
            acc@.len() == i,
            forall|k: int| 0 <= k < i ==> acc@[k] == spec_lower_byte(#[trigger] bs@[k]),
        decreases n - i,
    {
        let b = bs[i];
        if 0x41 <= b && b <= 0x5A {
            acc.push(b + 0x20);
        } else if b >= 0x80 {
            acc.push(0x5F);
        } else {
            acc.push(b);
        }
        i = i + 1;
    }
    proof {
        assert(acc@ =~= spec_lower(s.spec_bytes()));
    }
    acc
}

impl FilesystemManager {
    /// Generates the next volume id, `vol-<n>-<device>-<fstype>`, and moves
    /// the counter.
    fn generate_volume_id(&mut self, device_name: &str, fs_type_name: &str) -> (r: (String, u32))
        requires
            old(self).next_volume_numeric_id < u32::MAX,
        ensures
            final(self).next_volume_numeric_id == old(self).next_volume_numeric_id + 1,
            final(self).drivers@ == old(self).drivers@,
            final(self).spec_mounted() == old(self).spec_mounted(),
            spec_id_shape(r.0@, r.1),
            r.0@ == ascii_chars_of(
                spec_volume_id_bytes(r.1, device_name.spec_bytes(), fs_type_name.spec_bytes()),
            ),
            r.1 == old(self).next_volume_numeric_id,
    {
        let id_num = self.next_volume_numeric_id;
        self.next_volume_numeric_id = self.next_volume_numeric_id + 1;
        let mut bytes: Vec<u8> = Vec::new();
        bytes.push(0x76);  // v
        bytes.push(0x6F);  // o
        bytes.push(0x6C);  // l
        bytes.push(0x2D);  // -
        let mut digits = u32_digits(id_num);
        bytes.append(&mut digits);
        bytes.push(0x2D);
        let mut dev = sanitize_name(device_name);
        bytes.append(&mut dev);
        bytes.push(0x2D);
        let mut fs = to_lower(fs_type_name);
        bytes.append(&mut fs);
        proof {
            lemma_digits_are_digits(id_num);
            let prefix = vol_prefix();
            assert(prefix.len() == 4);
            assert(prefix[0] == 0x76 && prefix[1] == 0x6F && prefix[2] == 0x6C && prefix[3]
                == 0x2D);
            assert(bytes@ =~= prefix + spec_digits(id_num) + seq![0x2Du8] + bytes@.skip(
                4 + spec_digits(id_num).len() as int + 1,
            ));
        }
        let ghost num = id_num;
        proof {
            assert(all_ascii(bytes@)) by {
                lemma_digits_are_digits(id_num);
            }
        }
        let s = ascii_to_string(bytes);
        proof {
            assert(spec_id_shape(s@, num));
        }
        (s, id_num)
    }
}

/// In a table with pairwise distinct ids, the id at `v` is found at `v`.
proof fn lemma_find_index(ms: Seq<MountedVolumeInfo>, v: int)
    requires
        0 <= v < ms.len(),
        forall|p: int, q: int|
            0 <= p < q < ms.len() ==> (#[trigger] ms[p]).lbl_volume_info.id@ != (
            #[trigger] ms[q]).lbl_volume_info.id@,
    ensures
        spec_find_volume(ms, ms[v].lbl_volume_info.id@) == Some(v),
    decreases v,
{
    if v == 0 {
    } else {
        assert(ms[0].lbl_volume_info.id@ != ms[v].lbl_volume_info.id@);
        assert(ms.drop_first()[v - 1] == ms[v]);
        lemma_find_index(ms.drop_first(), v - 1);
    }
}

/// A filtered sequence is never longer than its source.
pub proof fn lemma_filter_len_le(s: Seq<crate::hal::Device>, f: Seq<crate::hal::Device>)
    requires
        f == s.filter(|d: crate::hal::Device| d.device_type == crate::hal::DeviceType::Storage),
    ensures
        f.len() <= s.len(),
{
    s.lemma_filter_len(|d: crate::hal::Device| d.device_type == crate::hal::DeviceType::Storage);
}

/// The result the instance behind a mount would give for a whole-file read.
pub open spec fn spec_instance_read(inst: AnyInstance, path: Seq<u8>) -> Result<
    Seq<u8>,
    FsErrorRep,
> {
    match inst {
        AnyInstance::Fat32(f) => spec_fat32_read_file(f.disk@, path),
    }
}

/// The record the instance behind a mount would report for a path.
pub open spec fn spec_instance_stat(inst: AnyInstance, path: Seq<u8>) -> Result<
    (u8, u32, u32),
    FsErrorRep,
> {
    match inst {
        AnyInstance::Fat32(f) => spec_fat32_stat(f.disk@, path),
    }
}

/// The listing the instance behind a mount would give for a path.
pub open spec fn spec_instance_list(inst: AnyInstance, path: Seq<u8>) -> Result<
    Seq<(Seq<u8>, u8)>,
    FsErrorRep,
> {
    match inst {
        AnyInstance::Fat32(f) => spec_fat32_list(f.disk@, path),
    }
}

/// Index of the first mounted volume with the given id.
pub open spec fn spec_find_volume(ms: Seq<MountedVolumeInfo>, id: Seq<char>) -> Option<int>
    decreases ms.len(),
{
    if ms.len() == 0 {
        None
    } else if ms[0].lbl_volume_info.id@ == id {
        Some(0)
    } else {
        match spec_find_volume(ms.drop_first(), id) {
            Some(i) => Some(i + 1),
            None => None,
        }
    }
}

/// A path is refused when any component is `.` or `..`.
pub open spec fn spec_path_rejected(p: Seq<u8>) -> bool {
    exists|i: int|
        0 <= i < crate::fs::fat32::spec_components(p).len() && (
        #[trigger] crate::fs::fat32::spec_components(p)[i] == seq![0x2Eu8]
            || crate::fs::fat32::spec_components(p)[i] == seq![0x2Eu8, 0x2Eu8])
}

/// Checks a path for `.` or `..` components, which the manager refuses.
fn path_rejected(path: &str) -> (r: bool)
    ensures
        r == spec_path_rejected(path.spec_bytes()),
{
    let comps = crate::fs::fat32::exec_components(path.as_bytes());
    let ghost cs = crate::fs::fat32::spec_components(path.spec_bytes());
    let n = comps.len();
    let mut i: usize = 0;
    proof {
        assert(cs == crate::fs::fat32::vecs_views(comps@));
    }
    while i < n
        invariant
            i <= n,
            n == comps@.len(),
            cs == crate::fs::fat32::vecs_views(comps@),
            cs == crate::fs::fat32::spec_components(path.spec_bytes()),
            cs.len() == n,
            forall|k: int| 0 <= k < n ==> cs[k] == #[trigger] comps@[k]@,
            forall|k: int| 0 <= k < i ==> #[trigger] cs[k] != seq![0x2Eu8] && cs[k] != seq![
                0x2Eu8,
                0x2Eu8,
            ],
        decreases n - i,
    {
        let c = &comps[i];
        if c.len() == 1 && c[0] == 0x2E {
            proof {
                assert(cs[i as int] =~= seq![0x2Eu8]);
                assert(crate::fs::fat32::spec_components(path.spec_bytes())[i as int] == seq![
                    0x2Eu8,
                ]);
                assert(spec_path_rejected(path.spec_bytes()));
            }
            return true;
        }
        if c.len() == 2 && c[0] == 0x2E && c[1] == 0x2E {
            proof {
                assert(cs[i as int] =~= seq![0x2Eu8, 0x2Eu8]);
                assert(crate::fs::fat32::spec_components(path.spec_bytes())[i as int] == seq![
                    0x2Eu8,
                    0x2Eu8,
                ]);
                assert(spec_path_rejected(path.spec_bytes()));
            }
            return true;
        }
        proof {
            if cs[i as int] == seq![0x2Eu8] {
                assert(comps@[i as int]@.len() == 1 && comps@[i as int]@[0] == 0x2E);
                assert(false);
            }
            if cs[i as int] == seq![0x2Eu8, 0x2Eu8] {
                assert(comps@[i as int]@.len() == 2 && comps@[i as int]@[0] == 0x2E
                    && comps@[i as int]@[1] == 0x2E);
                assert(false);
            }
        }
        i = i + 1;
    }
    false
}

impl FilesystemManager {
    /// Mounts a filesystem from the device: drivers are tried in
    /// registration order, the first that recognizes the medium attempts
    /// the mount, and a successful mount enters the table under a fresh id.
    /// When every driver passes or fails, the device is `Unsupported`.
    pub fn mount_volume_from_device(&mut self, device: &HalDevice) -> (r: Result<
        Volume,
        FilesystemError,
    >)
        requires
            old(self).wf(),
            old(self).next_volume_numeric_id + old(self).drivers@.len() <= u32::MAX,
        ensures
            final(self).wf(),
            final(self).drivers@ == old(self).drivers@,
            final(self).next_volume_numeric_id <= old(self).next_volume_numeric_id + old(
                self,
            ).drivers@.len(),
            match r {
                Ok(vol) => {
                    let k = spec_first_mountable(old(self).drivers@, device.content@);
                    &&& k is Some
                    &&& final(self).spec_mounted().len() == old(self).spec_mounted().len() + 1
                    &&& final(self).spec_mounted().take(old(self).spec_mounted().len() as int)
                        == old(self).spec_mounted()
                    &&& spec_instance_disk(final(self).spec_mounted().last().instance)
                        == device.content@
                    &&& final(self).spec_mounted().last().lbl_volume_info@ == vol@
                    &&& vol@.fs_type == spec_driver_name(old(self).drivers@[k.unwrap()])
                    &&& vol@.device_path == device.name@
                    &&& vol@.id == ascii_chars_of(
                        spec_volume_id_bytes(
                            old(self).next_volume_numeric_id,
                            vstd::utf8::encode_utf8(device.name@),
                            vstd::utf8::encode_utf8(spec_driver_name(old(self).drivers@[k.unwrap()])),
                        ),
                    )
                    &&& vol@.is_read_only == true
                },
                Err(e) => {
                    &&& e@ == FsErrorRep::Unsupported
                    &&& spec_first_mountable(old(self).drivers@, device.content@) is None
                    &&& final(self).spec_mounted() == old(self).spec_mounted()
                },
            },
    {
        let n = self.drivers.len();
        let mut i: usize = 0;
        proof {
            assert(old(self).drivers@.skip(0) =~= old(self).drivers@);
        }
        while i < n
            invariant
                i <= n,
                self.wf(),
                n == self.drivers@.len(),
                self.drivers@ == old(self).drivers@,
                self.spec_mounted() == old(self).spec_mounted(),
                self.next_volume_numeric_id >= old(self).next_volume_numeric_id,
                self.next_volume_numeric_id <= old(self).next_volume_numeric_id + i,
                old(self).next_volume_numeric_id + n <= u32::MAX,
                spec_first_mountable(old(self).drivers@, device.content@) == (
                match spec_first_mountable(old(self).drivers@.skip(i as int), device.content@) {
                    Some(k) => Some(k + i),
                    None => None::<int>,
                }),
            decreases n - i,
        {
            proof {
                assert(old(self).drivers@.skip(i as int).len() == n - i);
                assert(old(self).drivers@.skip(i as int)[0] == old(self).drivers@[i as int]);
                assert(old(self).drivers@.skip(i as int).drop_first() =~= old(
                    self,
                ).drivers@.skip(i as int + 1));
            }
            let found = match &self.drivers[i] {
                AnyDriver::Fat32(drv) => drv.detect_fat32(device),
            };
            if found {
                let (id, num) = self.generate_volume_id(device.name.as_str(), "FAT32");
                let outcome = match &self.drivers[i] {
                    AnyDriver::Fat32(drv) => drv.mount_fat32(device, id.as_str(), true),
                };
                match outcome {
                    Ok(inst) => {
                        let vol = Volume {
                            id,
                            fs_type: ("FAT32").to_owned(),
                            label: None,
                            device_path: device.name.clone(),
                            mount_point: None,
                            capacity_bytes: device.content.len() as u64,
                            free_space_bytes: 0,
                            is_read_only: inst.read_only,
                        };
                        let public_copy = crate::fs::clone_volume(&vol);
                        let ghost before = self.spec_mounted();
                        self.mounted_volumes.push(
                            MountedVolumeInfo {
                                instance: AnyInstance::Fat32(inst),
                                lbl_volume_info: vol,
                                volume_num: num,
                            },
                        );
                        proof {
                            assert(self.spec_mounted().take(before.len() as int) =~= before);
                            assert(self.spec_mounted().last().volume_num == num);
                            assert forall|p: int, q: int|
                                0 <= p < q < self.spec_mounted().len() implies (
                            #[trigger] self.spec_mounted()[p]).volume_num != (
                            #[trigger] self.spec_mounted()[q]).volume_num by {
                                if q < before.len() {
                                    assert(self.spec_mounted()[p] == before[p]);
                                    assert(self.spec_mounted()[q] == before[q]);
                                } else {
                                    assert(self.spec_mounted()[p] == before[p]);
                                    assert(before[p].volume_num < num);
                                }
                            }
                        }
                        return Ok(public_copy);
                    },
                    Err(_) => {
                        // this driver refused the medium after all: record
                        // nothing and let the remaining drivers try
                    },
                }
            }
            i = i + 1;
        }
        proof {
            assert(old(self).drivers@.skip(n as int) =~= Seq::<AnyDriver>::empty());
        }
        Err(FilesystemError::Unsupported)
    }

    /// The mounted instance a volume id names.
    fn get_instance(&self, volume_id: &str) -> (r: Result<&AnyInstance, FilesystemError>)
        ensures
            match r {
                Ok(inst) => spec_find_volume(self.spec_mounted(), volume_id@) matches Some(k)
                    && *inst == self.spec_mounted()[k].instance,
                Err(e) => spec_find_volume(self.spec_mounted(), volume_id@) is None && e@
                    == FsErrorRep::VolumeNotMounted(volume_id@),
            },
    {
        let n = self.mounted_volumes.len();
        let mut i: usize = 0;
        proof {
            assert(self.spec_mounted().skip(0) =~= self.spec_mounted());
        }
        while i < n
            invariant
                i <= n,
                n == self.spec_mounted().len(),
                spec_find_volume(self.spec_mounted(), volume_id@) == (match spec_find_volume(
                    self.spec_mounted().skip(i as int),
                    volume_id@,
                ) {
                    Some(k) => Some(k + i),
                    None => None::<int>,
                }),
            decreases n - i,
        {
            proof {
                assert(self.spec_mounted().skip(i as int).len() == n - i);
                assert(self.spec_mounted().skip(i as int)[0] == self.spec_mounted()[i as int]);
                assert(self.spec_mounted().skip(i as int).drop_first() =~= self.spec_mounted().skip(
                    i as int + 1,
                ));
            }
            if crate::util::str_eq(self.mounted_volumes[i].lbl_volume_info.id.as_str(), volume_id) {
                return Ok(&self.mounted_volumes[i].instance);
            }
            i = i + 1;
        }
        proof {
            assert(self.spec_mounted().skip(n as int) =~= Seq::<MountedVolumeInfo>::empty());
        }
        Err(FilesystemError::VolumeNotMounted(volume_id.to_owned()))
    }

    /// Reads a whole file from a mounted volume.
    pub fn read_file(&self, volume_id: &str, path: &str) -> (r: Result<Vec<u8>, FilesystemError>)
        ensures
            match spec_find_volume(self.spec_mounted(), volume_id@) {
                None => r matches Err(e) && e@ == FsErrorRep::VolumeNotMounted(volume_id@),
                Some(k) => if spec_path_rejected(path.spec_bytes()) {
                    r matches Err(e) && e@ == FsErrorRep::InvalidInput
                } else {
                    match r {
                        Ok(v) => spec_instance_read(
                            self.spec_mounted()[k].instance,
                            path.spec_bytes(),
                        ) == Ok::<Seq<u8>, FsErrorRep>(v@),
                        Err(e) => spec_instance_read(
                            self.spec_mounted()[k].instance,
                            path.spec_bytes(),
                        ) == Err::<Seq<u8>, FsErrorRep>(e@),
                    }
                },
            },
    {
        let inst = match self.get_instance(volume_id) {
            Ok(inst) => inst,
            Err(e) => {
                return Err(e);
            },
        };
        if path_rejected(path) {
            return Err(FilesystemError::InvalidInput);
        }
        match inst {
            AnyInstance::Fat32(f) => f.read_file_bytes(path),
        }
    }

    /// Lists a directory on a mounted volume.
    pub fn list_directory(&self, volume_id: &str, path: &str) -> (r: Result<
        Vec<DirectoryEntry>,
        FilesystemError,
    >)
        ensures
            match spec_find_volume(self.spec_mounted(), volume_id@) {
                None => r matches Err(e) && e@ == FsErrorRep::VolumeNotMounted(volume_id@),
                Some(k) => if spec_path_rejected(path.spec_bytes()) {
                    r matches Err(e) && e@ == FsErrorRep::InvalidInput
                } else {
                    match r {
                        Ok(es) => spec_instance_list(
                            self.spec_mounted()[k].instance,
                            path.spec_bytes(),
                        ) matches Ok(ls) && es@.len() == ls.len() && list_prefix_ok(
                            es@,
                            ls,
                            ls.len() as int,
                        ),
                        Err(e) => spec_instance_list(
                            self.spec_mounted()[k].instance,
                            path.spec_bytes(),
                        ) == Err::<Seq<(Seq<u8>, u8)>, FsErrorRep>(e@),
                    }
                },
            },
    {
        let inst = match self.get_instance(volume_id) {
            Ok(inst) => inst,
            Err(e) => {
                return Err(e);
            },
        };
        if path_rejected(path) {
            return Err(FilesystemError::InvalidInput);
        }
        match inst {
            AnyInstance::Fat32(f) => f.list_directory_entries(path),
        }
    }

    /// Metadata of a path on a mounted volume.
    pub fn metadata(&self, volume_id: &str, path: &str) -> (r: Result<
        FileMetadata,
        FilesystemError,
    >)
        ensures
            match spec_find_volume(self.spec_mounted(), volume_id@) {
                None => r matches Err(e) && e@ == FsErrorRep::VolumeNotMounted(volume_id@),
                Some(k) => if spec_path_rejected(path.spec_bytes()) {
                    r matches Err(e) && e@ == FsErrorRep::InvalidInput
                } else {
                    match r {
                        Ok(m) => spec_instance_stat(
                            self.spec_mounted()[k].instance,
                            path.spec_bytes(),
                        ) matches Ok(e) && m.size == e.2 && (m.entry_type == EntryType::Directory
                            <==> e.0 & 0x10 != 0),
                        Err(e) => spec_instance_stat(
                            self.spec_mounted()[k].instance,
                            path.spec_bytes(),
                        ) == Err::<(u8, u32, u32), FsErrorRep>(e@),
                    }
                },
            },
    {
        let inst = match self.get_instance(volume_id) {
            Ok(inst) => inst,
            Err(e) => {
                return Err(e);
            },
        };
        if path_rejected(path) {
            return Err(FilesystemError::InvalidInput);
        }
        match inst {
            AnyInstance::Fat32(f) => f.metadata_of(path),
        }
    }

    /// Whether a path exists on a mounted volume.
    pub fn path_exists(&self, volume_id: &str, path: &str) -> (r: Result<bool, FilesystemError>)
        ensures
            match spec_find_volume(self.spec_mounted(), volume_id@) {
                None => r matches Err(e) && e@ == FsErrorRep::VolumeNotMounted(volume_id@),
                Some(k) => if spec_path_rejected(path.spec_bytes()) {
                    r matches Err(e) && e@ == FsErrorRep::InvalidInput
                } else {
                    match r {
                        Ok(b) => b == (spec_instance_stat(
                            self.spec_mounted()[k].instance,
                            path.spec_bytes(),
                        ) is Ok) && (!b ==> spec_instance_stat(
                            self.spec_mounted()[k].instance,
                            path.spec_bytes(),
                        ) == Err::<(u8, u32, u32), FsErrorRep>(FsErrorRep::NotFound)),
                        Err(e) => spec_instance_stat(
                            self.spec_mounted()[k].instance,
                            path.spec_bytes(),
                        ) == Err::<(u8, u32, u32), FsErrorRep>(e@) && e@ != FsErrorRep::NotFound,
                    }
                },
            },
    {
        let inst = match self.get_instance(volume_id) {
            Ok(inst) => inst,
            Err(e) => {
                return Err(e);
            },
        };
        if path_rejected(path) {
            return Err(FilesystemError::InvalidInput);
        }
        match inst {
            AnyInstance::Fat32(f) => f.exists_path(path),
        }
    }

    /// Looking a well-formed table's own id up finds exactly that mount.
    pub proof fn lemma_find_of_mounted(&self, v: int)
        requires
            self.wf(),
            0 <= v < self.spec_mounted().len(),
        ensures
            spec_find_volume(self.spec_mounted(), self.spec_mounted()[v].lbl_volume_info.id@)
                == Some(v),
    {
        assert forall|p: int, q: int|
            0 <= p < q < self.spec_mounted().len() implies (
        #[trigger] self.spec_mounted()[p]).lbl_volume_info.id@ != (
        #[trigger] self.spec_mounted()[q]).lbl_volume_info.id@ by {
            self.lemma_volume_ids_unique(p, q);
        }
        lemma_find_index(self.spec_mounted(), v);
    }

    /// The public records of all mounted volumes, in mount order.
    pub fn list_mounted_volumes(&self) -> (r: Vec<Volume>)
        ensures
            r@.len() == self.spec_mounted().len(),
            forall|i: int|
                0 <= i < r@.len() ==> #[trigger] r@[i]@ == self.spec_mounted()[i].lbl_volume_info@,
    {
        let n = self.mounted_volumes.len();
        let mut out: Vec<Volume> = Vec::new();
        let mut i: usize = 0;
        while i < n
            invariant
                i <= n,
                n == self.spec_mounted().len(),
                out@.len() == i,
                forall|k: int|
                    0 <= k < i ==> #[trigger] out@[k]@
                        == self.spec_mounted()[k].lbl_volume_info@,
            decreases n - i,
        {
            let v = crate::fs::clone_volume(&self.mounted_volumes[i].lbl_volume_info);
            out.push(v);
            i = i + 1;
        }
        out
    }
}

} // verus!
