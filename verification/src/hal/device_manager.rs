//! Inventory of discovered hardware devices.
//!
//! The inventory is append-only: probe tasks publish devices, nothing removes
//! them. Every published device carries an id that is unique within the boot.

use vstd::prelude::*;
use crate::hal::{Device, DeviceType};

verus! {

/// Append-only table of discovered devices with unique ids.
pub struct DeviceManager {
    devices: Vec<Device>,
    next_device_id: u64,
}

impl DeviceManager {
    /// The published devices, in publication order.
    pub closed spec fn spec_devices(&self) -> Seq<Device> {
        self.devices@
    }

    /// The next id that would be handed to a device published without one.
    pub closed spec fn spec_next_id(&self) -> u64 {
        self.next_device_id
    }

    /// Well-formedness: ids are nonzero, pairwise distinct and below the
    /// id counter.
    pub open spec fn wf(&self) -> bool {
        &&& self.spec_next_id() >= 1
        &&& forall|i: int|
            0 <= i < self.spec_devices().len() ==> 0 < #[trigger] self.spec_devices()[i].id
                < self.spec_next_id()
        &&& forall|i: int, j: int|
            0 <= i < j < self.spec_devices().len() ==> #[trigger] self.spec_devices()[i].id
                != #[trigger] self.spec_devices()[j].id
    }

    /// Creates an empty inventory.
    pub fn new() -> (r: DeviceManager)
        ensures
            r.wf(),
            r.spec_devices() == Seq::<Device>::empty(),
            r.spec_next_id() == 1u64,
    {
        let r = DeviceManager { devices: Vec::new(), next_device_id: 1 };
        proof {
            assert(r.spec_devices() =~= Seq::<Device>::empty());
        }
        r
    }

    /// The value of the id counter, so a caller can check headroom before
    /// publishing.
    pub fn peek_next_id(&self) -> (r: u64)
        ensures
            r == self.spec_next_id(),
    {
        self.next_device_id
    }

    /// Takes the next fresh id.
    fn generate_id(&mut self) -> (r: u64)
        requires
            old(self).spec_next_id() < u64::MAX,
        ensures
            r == old(self).spec_next_id(),
            final(self).spec_next_id() == old(self).spec_next_id() + 1,
            final(self).spec_devices() == old(self).spec_devices(),
    {
        let id = self.next_device_id;
        self.next_device_id = self.next_device_id + 1;
        id
    }

    /// Publishes a device. A device handed in with id 0 receives a fresh id;
    /// a device that arrives with the id of an already published device
    /// replaces it; any other preassigned id is published as given and the
    /// id counter moves past it.
    ///
    /// Returns the id under which the device is published.
    pub fn add_device(&mut self, device: Device) -> (id: u64)
        requires
            old(self).wf(),
            old(self).spec_next_id() < u64::MAX,
            device.id < u64::MAX,
        ensures
            final(self).wf(),
            id != 0,
            device.id != 0 ==> id == device.id,
            exists|i: int|
                0 <= i < final(self).spec_devices().len() && final(self).spec_devices()[i]
                    == (Device { id, ..device }),
            final(self).spec_devices().len() >= old(self).spec_devices().len(),
            device.id == 0 ==> {
                &&& id == old(self).spec_next_id()
                &&& final(self).spec_next_id() == old(self).spec_next_id() + 1
                &&& final(self).spec_devices() == old(self).spec_devices().push(
                    Device { id, ..device },
                )
            },
    {
        if device.id == 0 {
            let fresh = self.generate_id();
            let dev = Device {
                id: fresh,
                name: device.name,
                device_type: device.device_type,
                content: device.content,
            };
            let ghost n = self.devices@.len() as int;
            self.devices.push(dev);
            proof {
                assert(self.spec_devices()[n] == (Device { id: fresh, ..device }));
            }
            return fresh;
        }
        if device.id >= self.next_device_id {
            self.next_device_id = device.id + 1;
        }
        let id = device.id;
        // Replace a previously published device that carries the same id.
        let n = self.devices.len();
        let mut i: usize = 0;
        while i < n
            invariant
                n == self.devices@.len(),
                i <= n,
                forall|k: int| 0 <= k < i ==> #[trigger] self.devices@[k].id != id,
                self.devices@ == old(self).spec_devices(),
                self.next_device_id == if old(self).spec_next_id() > id {
                    old(self).spec_next_id()
                } else {
                    (id + 1) as u64
                },
                id == device.id,
                id != 0,
                id < self.next_device_id,
                self.next_device_id >= 1,
                forall|k: int|
                    0 <= k < n ==> 0 < #[trigger] self.devices@[k].id < self.next_device_id,
                forall|p: int, q: int|
                    0 <= p < q < n ==> #[trigger] self.devices@[p].id != #[trigger] self.devices@[q].id,
            decreases n - i,
        {
            if self.devices[i].id == id {
                let dev = Device {
                    id,
                    name: device.name,
                    device_type: device.device_type,
                    content: device.content,
                };
                self.devices.set(i, dev);
                proof {
                    assert forall|p: int, q: int|
                        0 <= p < q < self.devices@.len() implies #[trigger] self.devices@[p].id
                        != #[trigger] self.devices@[q].id by {
                        assert(old(self).spec_devices()[p].id != old(self).spec_devices()[q].id);
                    }
                }
                proof {
                    assert(self.spec_devices()[i as int] == (Device { id, ..device }));
                }
                return id;
            }
            i = i + 1;
        }
        let ghost m = self.devices@.len() as int;
        self.devices.push(device);
        proof {
            assert(self.spec_devices()[m] == (Device { id, ..device }));
        }
        id
    }

    /// Looks a device up by id.
    pub fn get_device_by_id(&self, id: u64) -> (r: Option<&Device>)
        ensures
            match r {
                Some(d) => exists|i: int|
                    0 <= i < self.spec_devices().len() && self.spec_devices()[i] == *d && d.id
                        == id,
                None => forall|i: int|
                    0 <= i < self.spec_devices().len() ==> #[trigger] self.spec_devices()[i].id
                        != id,
            },
    {
        let n = self.devices.len();
        let mut i: usize = 0;
        while i < n
            invariant
                n == self.devices@.len(),
                i <= n,
                forall|k: int| 0 <= k < i ==> #[trigger] self.devices@[k].id != id,
            decreases n - i,
        {
            if self.devices[i].id == id {
                return Some(&self.devices[i]);
            }
            i = i + 1;
        }
        None
    }

    /// All published devices of the given kind, in publication order.
    pub fn get_devices_by_type<'a>(&'a self, device_type: DeviceType) -> (r: Vec<&'a Device>)
        ensures
            ({
                let f = self.spec_devices().filter(|d: Device| d.device_type == device_type);
                &&& r@.len() == f.len()
                &&& forall|i: int| 0 <= i < f.len() ==> *#[trigger] r@[i] == f[i]
            }),
    {
        let ghost pred = |d: Device| d.device_type == device_type;
        let mut result: Vec<&'a Device> = Vec::new();
        let n = self.devices.len();
        let mut i: usize = 0;
        proof {
            assert(self.devices@.take(0) =~= Seq::<Device>::empty());
            reveal_with_fuel(Seq::<_>::filter, 1);
        }
        while i < n
            invariant
                n == self.devices@.len(),
                i <= n,
                result@.len() == self.devices@.take(i as int).filter(pred).len(),
                forall|k: int|
                    0 <= k < result@.len() ==> *#[trigger] result@[k] == self.devices@.take(
                        i as int,
                    ).filter(pred)[k],
                pred == (|d: Device| d.device_type == device_type),
            decreases n - i,
        {
            let ghost prefix = self.devices@.take(i as int);
            let ghost prefix1 = self.devices@.take(i as int + 1);
            proof {
                assert(prefix1.drop_last() =~= prefix);
                assert(prefix1.last() == self.devices@[i as int]);
                reveal(Seq::<_>::filter);
            }
            if devices_type_eq(self.devices[i].device_type, device_type) {
                result.push(&self.devices[i]);
            }
            i = i + 1;
        }
        proof {
            assert(self.devices@.take(n as int) =~= self.devices@);
        }
        result
    }

    /// Read access to the whole inventory.
    pub fn iter_devices(&self) -> (r: &Vec<Device>)
        ensures
            r@ == self.spec_devices(),
    {
        &self.devices
    }

    /// Number of published devices.
    pub fn len(&self) -> (r: usize)
        ensures
            r == self.spec_devices().len(),
    {
        self.devices.len()
    }
}

/// Device ids are pairwise distinct in a well-formed inventory.
pub proof fn lemma_device_ids_distinct(m: &DeviceManager, i: int, j: int)
    requires
        m.wf(),
        0 <= i < m.spec_devices().len(),
        0 <= j < m.spec_devices().len(),
        i != j,
    ensures
        m.spec_devices()[i].id != m.spec_devices()[j].id,
{
}

/// Equality test on device kinds.
fn devices_type_eq(a: DeviceType, b: DeviceType) -> (r: bool)
    ensures
        r == (a == b),
{
    a == b
}

} // verus!
