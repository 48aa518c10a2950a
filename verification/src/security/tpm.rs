//! TPM 2.0 measurement model.
//!
//! The engine records its measurements as a TCG-style event log beside a
//! per-PCR extension counter. The platform transport that carries the PCR
//! extensions to a physical TPM belongs to the unverified shell; what is
//! proved here is the bookkeeping: which PCR was extended, with which
//! artifact, in which order.

use vstd::prelude::*;
use super::SecurityError;
use crate::hal::HalServices;

verus! {

/// Number of platform configuration registers.
pub const PCR_COUNT: usize = 24;

/// Algorithm id recorded per event; SHA-256 in TCG numbering.
pub const TPM_ALG_SHA256: u16 = 0x000B;

/// One entry of the TCG event log.
pub struct TcgEvent {
    pub pcr_index: u32,
    pub algorithm_id: u16,
    pub digest: Vec<u8>,
    pub data_len: u64,
    pub description: String,
}

/// The mathematical shape of an event.
#[verifier::ext_equal]
pub struct TcgEventRep {
    pub pcr_index: u32,
    pub algorithm_id: u16,
    pub digest: Seq<u8>,
    pub data_len: u64,
    pub description: Seq<char>,
}

impl View for TcgEvent {
    type V = TcgEventRep;

    open spec fn view(&self) -> TcgEventRep {
        TcgEventRep {
            pcr_index: self.pcr_index,
            algorithm_id: self.algorithm_id,
            digest: self.digest@,
            data_len: self.data_len,
            description: self.description@,
        }
    }
}

/// The measurement log: events in extension order and a per-PCR counter.
pub struct TpmLog {
    pub events: Vec<TcgEvent>,
    pub pcr_extend_counts: Vec<u64>,
}

/// The views of the events.
pub open spec fn events_views(es: Seq<TcgEvent>) -> Seq<TcgEventRep> {
    Seq::new(es.len(), |i: int| es[i]@)
}

impl TpmLog {
    /// One counter per PCR.
    pub open spec fn wf(&self) -> bool {
        self.pcr_extend_counts@.len() == PCR_COUNT
    }

    /// Creates an empty log.
    pub fn new() -> (r: TpmLog)
        ensures
            r.wf(),
            r.events@.len() == 0,
            forall|i: int| 0 <= i < PCR_COUNT ==> r.pcr_extend_counts@[i] == 0,
    {
        let mut counts: Vec<u64> = Vec::new();
        let mut i: usize = 0;
        while i < PCR_COUNT
            invariant
                i <= PCR_COUNT,
                counts@.len() == i,
                forall|k: int| 0 <= k < i ==> counts@[k] == 0,
            decreases PCR_COUNT - i,
        {
            counts.push(0);
            i = i + 1;
        }
        TpmLog { events: Vec::new(), pcr_extend_counts: counts }
    }
}

/// Whether a TPM 2.0 device was found when the platform was probed.
pub fn is_tpm2_available(hal: &HalServices) -> (r: bool)
    ensures
        r == hal.spec_tpm_present(),
{
    hal.tpm_present()
}

/// Prepares TPM interaction; fails exactly when no TPM is present.
pub fn initialize_tpm_interaction(hal: &HalServices) -> (r: Result<(), SecurityError>)
    ensures
        match r {
            Ok(_) => hal.spec_tpm_present(),
            Err(e) => !hal.spec_tpm_present() && e@ == super::SecurityErrorRep::TpmError(
                "TPM not available for initialization"@,
            ),
        },
{
    if !is_tpm2_available(hal) {
        return Err(SecurityError::TpmError(("TPM not available for initialization").to_owned()));
    }
    Ok(())
}

/// Extends a PCR with an artifact and appends the event-log entry, with
/// the artifact's SHA-256 digest recorded in it. Empty data is skipped
/// without an event, as nothing was measured.
pub fn measure_data_into_tpm_pcr(
    log: &mut TpmLog,
    data_to_measure: &[u8],
    pcr_index: u32,
    event_description: &str,
) -> (r: Result<(), SecurityError>)
    requires
        old(log).wf(),
        pcr_index < PCR_COUNT as u32,
    ensures
        final(log).wf(),
        r is Ok,
        data_to_measure@.len() == 0 || data_to_measure@.len() > u64::MAX ==> *final(log) == *old(
            log,
        ),
        0 < data_to_measure@.len() <= u64::MAX ==> {
            &&& events_views(final(log).events@) == events_views(old(log).events@).push(
                TcgEventRep {
                    pcr_index,
                    algorithm_id: TPM_ALG_SHA256,
                    digest: super::crypto::sha256_of(data_to_measure@),
                    data_len: data_to_measure@.len() as u64,
                    description: event_description@,
                },
            )
            &&& final(log).pcr_extend_counts@ == old(log).pcr_extend_counts@.update(
                pcr_index as int,
                (if old(log).pcr_extend_counts@[pcr_index as int] == u64::MAX {
                    u64::MAX
                } else {
                    (old(log).pcr_extend_counts@[pcr_index as int] + 1) as u64
                }),
            )
        },
{
    let n = data_to_measure.len();
    if n == 0 {
        return Ok(());
    }
    if n as u128 > u64::MAX as u128 {
        return Ok(());
    }
    let ghost ev0 = log.events@;
    let digest = super::crypto::sha256(data_to_measure);
    log.events.push(
        TcgEvent {
            pcr_index,
            algorithm_id: TPM_ALG_SHA256,
            digest,
            data_len: n as u64,
            description: event_description.to_owned(),
        },
    );
    let old_count = log.pcr_extend_counts[pcr_index as usize];
    let bumped: u64 = if old_count == u64::MAX {
        u64::MAX
    } else {
        old_count + 1
    };
    log.pcr_extend_counts.set(pcr_index as usize, bumped);
    proof {
        assert(events_views(log.events@) =~= events_views(ev0).push(
            TcgEventRep {
                pcr_index,
                algorithm_id: TPM_ALG_SHA256,
                digest: super::crypto::sha256_of(data_to_measure@),
                data_len: n as u64,
                description: event_description@,
            },
        ));
    }
    Ok(())
}

/// Read access to the recorded event log.
pub fn get_tcg_event_log(log: &TpmLog) -> (r: &Vec<TcgEvent>)
    ensures
        r@ == log.events@,
{
    &log.events
}

} // verus!
