//! Filesystem subsystem: the volume record, driver registration and the
//! mount-all convenience entry points.

use vstd::prelude::*;
use vstd::string::StringSliceAdditionalSpecFns;

pub mod interface;

pub mod fat32;

pub mod manager;

verus! {

/// A mounted filesystem volume.
pub struct Volume {
    pub id: String,
    pub fs_type: String,
    pub label: Option<String>,
    pub device_path: String,
    pub mount_point: Option<String>,
    pub capacity_bytes: u64,
    pub free_space_bytes: u64,
    pub is_read_only: bool,
}

/// The mathematical shape of a volume record.
#[verifier::ext_equal]
pub struct VolumeRep {
    pub id: Seq<char>,
    pub fs_type: Seq<char>,
    pub label: Option<Seq<char>>,
    pub device_path: Seq<char>,
    pub mount_point: Option<Seq<char>>,
    pub capacity_bytes: u64,
    pub free_space_bytes: u64,
    pub is_read_only: bool,
}

/// View of an optional string.
pub open spec fn opt_string_view(o: Option<String>) -> Option<Seq<char>> {
    match o {
        Some(s) => Some(s@),
        None => None,
    }
}

impl View for Volume {
    type V = VolumeRep;

    open spec fn view(&self) -> VolumeRep {
        VolumeRep {
            id: self.id@,
            fs_type: self.fs_type@,
            label: opt_string_view(self.label),
            device_path: self.device_path@,
            mount_point: opt_string_view(self.mount_point),
            capacity_bytes: self.capacity_bytes,
            free_space_bytes: self.free_space_bytes,
            is_read_only: self.is_read_only,
        }
    }
}

/// Copies a volume record.
pub fn clone_volume(v: &Volume) -> (r: Volume)
    ensures
        r@ == v@,
{
    let r = Volume {
        id: v.id.clone(),
        fs_type: v.fs_type.clone(),
        label: match &v.label {
            Some(s) => Some(s.clone()),
            None => None,
        },
        device_path: v.device_path.clone(),
        mount_point: match &v.mount_point {
            Some(s) => Some(s.clone()),
            None => None,
        },
        capacity_bytes: v.capacity_bytes,
        free_space_bytes: v.free_space_bytes,
        is_read_only: v.is_read_only,
    };
    proof {
        assert(r@ =~= v@);
    }
    r
}

/// Creates the filesystem manager with the built-in drivers registered, the
/// reference FAT32 driver first.
pub fn initialize_manager(hal_services: &crate::hal::HalServices) -> (r: manager::FilesystemManager)
    ensures
        r.wf(),
        r.spec_mounted() == Seq::<manager::MountedVolumeInfo>::empty(),
        r.drivers@.len() == 1,
        r.drivers@[0] is Fat32,
        r.next_volume_numeric_id == 1,
{
    let mut m = manager::FilesystemManager::new(hal_services);
    m.register_driver(manager::AnyDriver::Fat32(fat32::Fat32Driver::new()));
    m
}

/// The storage devices, in inventory order, that some registered driver
/// would mount.
pub open spec fn spec_mountable_list(ds: Seq<manager::AnyDriver>, devs: Seq<crate::hal::Device>) -> Seq<
    crate::hal::Device,
>
    decreases devs.len(),
{
    if devs.len() == 0 {
        Seq::empty()
    } else {
        let rest = spec_mountable_list(ds, devs.drop_first());
        if manager::spec_first_mountable(ds, devs[0].content@) is Some {
            seq![devs[0]] + rest
        } else {
            rest
        }
    }
}

/// Mounts every storage device of the inventory that a registered driver
/// accepts, one attempt per device in device order; devices no driver
/// recognizes are skipped. The table afterwards is the old table extended
/// by exactly one volume per mountable storage device, each backed by that
/// device's snapshot.
pub fn mount_all_volumes(
    fs_manager: &mut manager::FilesystemManager,
    hal_services: &crate::hal::HalServices,
)
    requires
        old(fs_manager).wf(),
        old(fs_manager).next_volume_numeric_id + hal_services.device_manager.spec_devices().len()
            * old(fs_manager).drivers@.len() <= u32::MAX,
    ensures
        final(fs_manager).wf(),
        final(fs_manager).drivers@ == old(fs_manager).drivers@,
        final(fs_manager).spec_mounted().take(old(fs_manager).spec_mounted().len() as int) == old(
            fs_manager,
        ).spec_mounted(),
        ({
            let f = hal_services.device_manager.spec_devices().filter(
                |d: crate::hal::Device| d.device_type == crate::hal::DeviceType::Storage,
            );
            let mlist = spec_mountable_list(old(fs_manager).drivers@, f);
            let lo = old(fs_manager).spec_mounted().len() as int;
            let ms = final(fs_manager).spec_mounted();
            &&& ms.len() == lo + mlist.len()
            &&& forall|j: int|
                0 <= j < mlist.len() ==> (#[trigger] ms[lo + j]).lbl_volume_info@.device_path
                    == mlist[j].name@ && crate::fs::manager::spec_instance_disk(ms[lo + j].instance)
                    == mlist[j].content@
        }),
{
    let ghost f = hal_services.device_manager.spec_devices().filter(
        |d: crate::hal::Device| d.device_type == crate::hal::DeviceType::Storage,
    );
    let ghost mlist = spec_mountable_list(old(fs_manager).drivers@, f);
    let ghost lo = old(fs_manager).spec_mounted().len() as int;
    let ghost dn = old(fs_manager).drivers@.len() as int;
    let storage = hal_services.device_manager.get_devices_by_type(crate::hal::DeviceType::Storage);
    let n = storage.len();
    let mut i: usize = 0;
    let ghost mut taken: Seq<crate::hal::Device> = Seq::empty();
    proof {
        assert(fs_manager.spec_mounted().take(lo) =~= old(fs_manager).spec_mounted());
        assert(f.skip(0) =~= f);
        assert(taken + spec_mountable_list(old(fs_manager).drivers@, f.skip(0)) =~= mlist);
        crate::fs::manager::lemma_filter_len_le(hal_services.device_manager.spec_devices(), f);
        assert((n as int) * dn <= hal_services.device_manager.spec_devices().len() * dn)
            by (nonlinear_arith)
            requires
                n as int <= hal_services.device_manager.spec_devices().len(),
                dn >= 0,
        ;
    }
    while i < n
        invariant
            i <= n,
            n == storage@.len(),
            n == f.len(),
            f == hal_services.device_manager.spec_devices().filter(
                |d: crate::hal::Device| d.device_type == crate::hal::DeviceType::Storage,
            ),
            mlist == spec_mountable_list(old(fs_manager).drivers@, f),
            lo == old(fs_manager).spec_mounted().len() as int,
            dn == old(fs_manager).drivers@.len() as int,
            forall|j: int| 0 <= j < n ==> *#[trigger] storage@[j] == f[j],
            fs_manager.wf(),
            fs_manager.drivers@ == old(fs_manager).drivers@,
            fs_manager.spec_mounted().take(lo) == old(fs_manager).spec_mounted(),
            mlist == taken + spec_mountable_list(old(fs_manager).drivers@, f.skip(i as int)),
            fs_manager.spec_mounted().len() == lo + taken.len(),
            forall|j: int|
                0 <= j < taken.len() ==> (#[trigger] fs_manager.spec_mounted()[lo
                    + j]).lbl_volume_info@.device_path == taken[j].name@
                    && crate::fs::manager::spec_instance_disk(
                    fs_manager.spec_mounted()[lo + j].instance,
                ) == taken[j].content@,
            fs_manager.next_volume_numeric_id <= old(fs_manager).next_volume_numeric_id + i * dn,
            old(fs_manager).next_volume_numeric_id + (n as int) * dn <= u32::MAX,
        decreases n - i,
    {
        proof {
            assert(f.skip(i as int).len() == n - i);
            assert(f.skip(i as int)[0] == f[i as int]);
            assert(f.skip(i as int).drop_first() =~= f.skip(i as int + 1));
            assert((i as int) * dn + dn == (i as int + 1) * dn) by (nonlinear_arith);
            assert((i as int + 1) * dn <= (n as int) * dn) by (nonlinear_arith)
                requires
                    i as int + 1 <= n as int,
                    dn >= 0,
            ;
        }
        let ghost before = fs_manager.spec_mounted();
        let outcome = fs_manager.mount_volume_from_device(storage[i]);
        proof {
            assert(before.take(lo) == old(fs_manager).spec_mounted());
            assert(*storage@[i as int] == f[i as int]);
            match outcome {
                Ok(_) => {
                    taken = taken.push(f[i as int]);
                    assert(fs_manager.spec_mounted().take(before.len() as int) == before);
                    assert(fs_manager.spec_mounted().take(lo) =~= old(fs_manager).spec_mounted());
                    assert(taken + spec_mountable_list(
                        old(fs_manager).drivers@,
                        f.skip(i as int + 1),
                    ) =~= mlist);
                    assert forall|j: int|
                        0 <= j < taken.len() implies (#[trigger] fs_manager.spec_mounted()[lo
                        + j]).lbl_volume_info@.device_path == taken[j].name@
                        && crate::fs::manager::spec_instance_disk(
                        fs_manager.spec_mounted()[lo + j].instance,
                    ) == taken[j].content@ by {
                        if j < taken.len() - 1 {
                            assert(fs_manager.spec_mounted()[lo + j] == before[lo + j]);
                        } else {
                            assert(fs_manager.spec_mounted()[lo + j]
                                == fs_manager.spec_mounted().last());
                        }
                    }
                },
                Err(_) => {
                    assert(spec_mountable_list(old(fs_manager).drivers@, f.skip(i as int))
                        =~= spec_mountable_list(old(fs_manager).drivers@, f.skip(i as int + 1)));
                },
            }
        }
        i = i + 1;
    }
    proof {
        assert(f.skip(n as int) =~= Seq::<crate::hal::Device>::empty());
        assert(spec_mountable_list(old(fs_manager).drivers@, f.skip(n as int))
            =~= Seq::<crate::hal::Device>::empty());
        assert(taken + Seq::<crate::hal::Device>::empty() =~= taken);
        assert(taken =~= mlist);
    }
}

/// Reads a whole file from a mounted volume.
pub fn read_file_to_vec(
    fs_manager: &manager::FilesystemManager,
    volume_id: &str,
    path: &str,
) -> (r: Result<Vec<u8>, interface::FilesystemError>)
    ensures
        match manager::spec_find_volume(fs_manager.spec_mounted(), volume_id@) {
            None => r matches Err(e) && e@ == interface::FsErrorRep::VolumeNotMounted(volume_id@),
            Some(k) => if manager::spec_path_rejected(path.spec_bytes()) {
                r matches Err(e) && e@ == interface::FsErrorRep::InvalidInput
            } else {
                match r {
                    Ok(v) => manager::spec_instance_read(
                        fs_manager.spec_mounted()[k].instance,
                        path.spec_bytes(),
                    ) == Ok::<Seq<u8>, interface::FsErrorRep>(v@),
                    Err(e) => manager::spec_instance_read(
                        fs_manager.spec_mounted()[k].instance,
                        path.spec_bytes(),
                    ) == Err::<Seq<u8>, interface::FsErrorRep>(e@),
                }
            },
        },
{
    fs_manager.read_file(volume_id, path)
}

/// Reads a whole file into a caller-supplied buffer; returns the byte count.
pub fn read_file_to_buffer(
    fs_manager: &manager::FilesystemManager,
    volume_id: &str,
    path: &str,
    buffer: &mut Vec<u8>,
) -> (r: Result<usize, interface::FilesystemError>)
    ensures
        match manager::spec_find_volume(fs_manager.spec_mounted(), volume_id@) {
            None => r matches Err(e) && e@ == interface::FsErrorRep::VolumeNotMounted(volume_id@)
                && final(buffer)@ == old(buffer)@,
            Some(k) => if manager::spec_path_rejected(path.spec_bytes()) {
                r matches Err(e) && e@ == interface::FsErrorRep::InvalidInput && final(buffer)@
                    == old(buffer)@
            } else {
                match r {
                    Ok(nread) => manager::spec_instance_read(
                        fs_manager.spec_mounted()[k].instance,
                        path.spec_bytes(),
                    ) == Ok::<Seq<u8>, interface::FsErrorRep>(final(buffer)@) && nread
                        == final(buffer)@.len(),
                    Err(e) => manager::spec_instance_read(
                        fs_manager.spec_mounted()[k].instance,
                        path.spec_bytes(),
                    ) == Err::<Seq<u8>, interface::FsErrorRep>(e@) && final(buffer)@ == old(
                        buffer,
                    )@,
                }
            },
        },
{
    match fs_manager.read_file(volume_id, path) {
        Ok(data) => {
            let n = data.len();
            *buffer = data;
            Ok(n)
        },
        Err(e) => Err(e),
    }
}

/// Lists a directory on a mounted volume.
pub fn list_directory(
    fs_manager: &manager::FilesystemManager,
    volume_id: &str,
    path: &str,
) -> (r: Result<Vec<interface::DirectoryEntry>, interface::FilesystemError>)
    ensures
        match manager::spec_find_volume(fs_manager.spec_mounted(), volume_id@) {
            None => r matches Err(e) && e@ == interface::FsErrorRep::VolumeNotMounted(volume_id@),
            Some(k) => if manager::spec_path_rejected(path.spec_bytes()) {
                r matches Err(e) && e@ == interface::FsErrorRep::InvalidInput
            } else {
                match r {
                    Ok(es) => manager::spec_instance_list(
                        fs_manager.spec_mounted()[k].instance,
                        path.spec_bytes(),
                    ) matches Ok(ls) && es@.len() == ls.len() && fat32::list_prefix_ok(
                        es@,
                        ls,
                        ls.len() as int,
                    ),
                    Err(e) => manager::spec_instance_list(
                        fs_manager.spec_mounted()[k].instance,
                        path.spec_bytes(),
                    ) == Err::<Seq<(Seq<u8>, u8)>, interface::FsErrorRep>(e@),
                }
            },
        },
{
    fs_manager.list_directory(volume_id, path)
}

} // verus!
