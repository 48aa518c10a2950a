//! Cooperative device-probe orchestrator.
//!
//! One task per device class (storage, network, gpu, input) runs to
//! completion under a round-robin poller that the menu loop ticks. The
//! hardware scan itself is outside work: each poll hands in whatever the
//! platform scan of the current class reported, and this module publishes it
//! to the inventory and accounts for progress. A process-wide cancel flag is
//! honoured at every poll.

use vstd::prelude::*;
use crate::hal::Device;
use crate::hal::DeviceType;
use crate::hal::device_manager::DeviceManager;

verus! {

/// Number of probe tasks: storage, network, gpu, input.
pub const PROBE_TASK_COUNT: usize = 4;

/// Why a probe task gave up.
#[derive(Debug)]
pub enum ProbeError {
    InitFailed,
    DetectionFailed(DeviceType),
    Other(String),
}

/// What one poll of the platform scan reported for the current class.
pub enum ProbeOutcome {
    Found(Vec<Device>),
    Failed(ProbeError),
}

/// The devices an outcome carries.
pub open spec fn outcome_devices(o: ProbeOutcome) -> Seq<Device> {
    match o {
        ProbeOutcome::Found(ds) => ds@,
        ProbeOutcome::Failed(_) => Seq::<Device>::empty(),
    }
}

/// Handle on the in-flight probe tasks.
pub struct ProbeHandle {
    completed: usize,
    cancelled: bool,
    failures: Vec<ProbeError>,
}

impl ProbeHandle {
    /// Tasks finished so far.
    pub closed spec fn spec_completed(&self) -> usize {
        self.completed
    }

    /// Number of tasks fixed at probe start.
    pub open spec fn spec_total(&self) -> usize {
        PROBE_TASK_COUNT
    }

    /// Whether cancellation was requested.
    pub closed spec fn spec_cancelled(&self) -> bool {
        self.cancelled
    }

    /// Failures recorded so far.
    pub closed spec fn spec_failures(&self) -> Seq<ProbeError> {
        self.failures@
    }

    pub open spec fn wf(&self) -> bool {
        self.spec_completed() <= self.spec_total()
    }

    /// Requests cancellation; it takes effect at the next poll.
    pub fn cancel(&mut self)
        ensures
            final(self).spec_cancelled(),
            final(self).spec_completed() == old(self).spec_completed(),
            final(self).spec_failures() == old(self).spec_failures(),
    {
        self.cancelled = true;
    }

    /// Polls the next unfinished task. `outcome` is what the platform scan
    /// of that task's device class reported; discovered devices are
    /// published to `devices`, in the reported order, each under the next
    /// fresh id; a reported failure is recorded instead. After cancellation
    /// the task is retired without publishing. Returns true when every task
    /// is done.
    pub fn poll_progress(&mut self, devices: &mut DeviceManager, outcome: ProbeOutcome) -> (done:
        bool)
        requires
            old(self).wf(),
            old(devices).wf(),
            forall|i: int|
                0 <= i < outcome_devices(outcome).len() ==> #[trigger] outcome_devices(
                    outcome,
                )[i].id == 0,
            old(devices).spec_next_id() + outcome_devices(outcome).len() < u64::MAX,
        ensures
            final(self).wf(),
            final(devices).wf(),
            done == (final(self).spec_completed() == final(self).spec_total()),
            final(self).spec_completed() == if old(self).spec_completed() < old(self).spec_total() {
                old(self).spec_completed() + 1
            } else {
                old(self).spec_completed() as int
            },
            final(self).spec_cancelled() == old(self).spec_cancelled(),
            old(self).spec_cancelled() || old(self).spec_completed() == old(self).spec_total()
                ==> *final(devices) == *old(devices) && final(self).spec_failures() == old(
                self,
            ).spec_failures(),
            !old(self).spec_cancelled() && old(self).spec_completed() < old(self).spec_total()
                ==> match outcome {
                ProbeOutcome::Found(ds) => {
                    &&& final(devices).spec_devices() == old(devices).spec_devices() + Seq::new(
                        ds@.len(),
                        |i: int| Device {
                            id: (old(devices).spec_next_id() + i) as u64,
                            ..ds@[i]
                        },
                    )
                    &&& final(devices).spec_next_id() == old(devices).spec_next_id() + ds@.len()
                    &&& final(self).spec_failures() == old(self).spec_failures()
                },
                ProbeOutcome::Failed(e) => *final(devices) == *old(devices)
                    && final(self).spec_failures() == old(self).spec_failures().push(e),
            },
    {
        if self.completed >= PROBE_TASK_COUNT {
            return true;
        }
        if self.cancelled {
            self.completed = self.completed + 1;
            return self.completed == PROBE_TASK_COUNT;
        }
        match outcome {
            ProbeOutcome::Found(found) => {
                let mut found = found;
                let ghost ds0 = found@;
                let ghost dev0 = devices.spec_devices();
                let ghost next0 = devices.spec_next_id();
                proof {
                    assert(devices.spec_devices() =~= dev0 + Seq::new(
                        (ds0.len() - found@.len()) as nat,
                        |i: int| Device { id: (next0 + i) as u64, ..ds0[i] },
                    ));
                }
                while found.len() > 0
                    invariant
                        devices.wf(),
                        found@.len() <= ds0.len(),
                        found@ == ds0.skip(ds0.len() - found@.len()),
                        forall|i: int| 0 <= i < ds0.len() ==> #[trigger] ds0[i].id == 0,
                        next0 + ds0.len() < u64::MAX,
                        devices.spec_next_id() == next0 + ds0.len() - found@.len(),
                        devices.spec_devices() == dev0 + Seq::new(
                            (ds0.len() - found@.len()) as nat,
                            |i: int| Device { id: (next0 + i) as u64, ..ds0[i] },
                        ),
                    decreases found@.len(),
                {
                    let ghost k = ds0.len() - found@.len();
                    proof {
                        assert(found@[0] == ds0.skip(k as int)[0]);
                        assert(ds0.skip(k as int)[0] == ds0[k as int]);
                    }
                    let d = found.remove(0);
                    let ghost before = devices.spec_devices();
                    devices.add_device(d);
                    proof {
                        assert(found@ =~= ds0.skip(ds0.len() - found@.len()));
                        assert(devices.spec_devices() =~= dev0 + Seq::new(
                            (ds0.len() - found@.len()) as nat,
                            |i: int| Device { id: (next0 + i) as u64, ..ds0[i] },
                        ));
                    }
                }
                proof {
                    assert(devices.spec_devices() =~= dev0 + Seq::new(
                        ds0.len(),
                        |i: int| Device { id: (next0 + i) as u64, ..ds0[i] },
                    ));
                }
            },
            ProbeOutcome::Failed(e) => {
                self.failures.push(e);
            },
        }
        self.completed = self.completed + 1;
        self.completed == PROBE_TASK_COUNT
    }

    /// Progress of the probe phase as a percentage.
    pub fn get_progress_percent(&self) -> (r: usize)
        requires
            self.wf(),
        ensures
            r == self.spec_completed() * 100 / (self.spec_total() as int),
            r <= 100,
    {
        self.completed * 100 / PROBE_TASK_COUNT
    }

    /// True when every task has signalled done.
    pub fn is_complete(&self) -> (r: bool)
        ensures
            r == (self.spec_completed() == self.spec_total()),
    {
        self.completed == PROBE_TASK_COUNT
    }

    /// The failures recorded so far.
    pub fn failures(&self) -> (r: &Vec<ProbeError>)
        ensures
            r@ == self.spec_failures(),
    {
        &self.failures
    }
}

/// Starts one probe task per device class.
pub fn start_probes() -> (r: ProbeHandle)
    ensures
        r.wf(),
        r.spec_completed() == 0,
        r.spec_total() == PROBE_TASK_COUNT,
        !r.spec_cancelled(),
        r.spec_failures() == Seq::<ProbeError>::empty(),
{
    let r = ProbeHandle { completed: 0, cancelled: false, failures: Vec::new() };
    proof {
        assert(r.spec_failures() =~= Seq::<ProbeError>::empty());
    }
    r
}

} // verus!
