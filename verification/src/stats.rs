//! The statistics aggregate: counters, trigger and link inventories,
//! filled once per RDH and rendered into the end-of-processing report.

use vstd::prelude::*;
use crate::rdh::{spec_layer_of_fee, spec_stave_of_fee, Rdh};

verus! {

/// A timestamp of the platform clock; only taken and compared by the
/// program around the library.
#[verifier::external_type_specification]
#[verifier::external_body]
pub struct ExInstant(std::time::Instant);

/// Relies on std::time::Instant::now: an opaque timestamp of the
/// platform clock; nothing is assumed of its value.
#[verifier::external_body]
fn instant_now() -> std::time::Instant {
    std::time::Instant::now()
}

/// The filter-pass counters, with the moment counting began.
pub struct Stats {
    /// RDHs seen in the input.
    pub rdhs_seen: u64,
    /// RDHs that passed the filter.
    pub rdhs_filtered: u64,
    /// Payload bytes seen.
    pub payload_size: u64,
    /// The links observed, in order of first sight.
    pub links_observed: Vec<u8>,
    /// When counting began.
    pub processing_time: std::time::Instant,
}

impl Stats {
    /// Fresh counters, all zero, starting the clock now.
    pub fn new() -> (r: Stats)
        ensures
            r.rdhs_seen == 0,
            r.rdhs_filtered == 0,
            r.payload_size == 0,
            r.links_observed@ == Seq::<u8>::empty(),
    {
        Stats {
            rdhs_seen: 0,
            rdhs_filtered: 0,
            payload_size: 0,
            links_observed: Vec::new(),
            processing_time: instant_now(),
        }
    }
}

/// Append a value to an inventory unless it is already there.
pub fn push_unique_u8(v: &mut Vec<u8>, x: u8)
    ensures
        final(v)@ == if old(v)@.contains(x) {
            old(v)@
        } else {
            old(v)@.push(x)
        },
{
    let n = v.len();
    let mut i: usize = 0;
    while i < n
        invariant
            n == v@.len(),
            i <= n,
            v@ == old(v)@,
            forall|j: int| 0 <= j < i ==> v@[j] != x,
        decreases n - i,
    {
        if v[i] == x {
            return ;
        }
        i = i + 1;
    }
    v.push(x);
}

/// Append a value to an inventory unless it is already there.
pub fn push_unique_u16(v: &mut Vec<u16>, x: u16)
    ensures
        final(v)@ == if old(v)@.contains(x) {
            old(v)@
        } else {
            old(v)@.push(x)
        },
{
    let n = v.len();
    let mut i: usize = 0;
    while i < n
        invariant
            n == v@.len(),
            i <= n,
            v@ == old(v)@,
            forall|j: int| 0 <= j < i ==> v@[j] != x,
        decreases n - i,
    {
        if v[i] == x {
            return ;
        }
        i = i + 1;
    }
    v.push(x);
}

/// Append a layer-and-stave pair to an inventory unless it is there.
pub fn push_unique_pair(v: &mut Vec<(u8, u8)>, x: (u8, u8))
    ensures
        final(v)@ == if old(v)@.contains(x) {
            old(v)@
        } else {
            old(v)@.push(x)
        },
{
    let n = v.len();
    let mut i: usize = 0;
    while i < n
        invariant
            n == v@.len(),
            i <= n,
            v@ == old(v)@,
            forall|j: int| 0 <= j < i ==> v@[j] != x,
        decreases n - i,
    {
        let (a, b) = v[i];
        if a == x.0 && b == x.1 {
            assert(v@[i as int] == x);
            return ;
        }
        i = i + 1;
    }
    v.push(x);
}

/// The running aggregate of a whole run: counters, the trigger bits
/// seen, and the link, FEE and layer/stave inventories.
pub struct StatsCollector {
    /// The version of the first RDH of the run.
    pub rdh_version: u8,
    /// RDHs seen.
    pub rdhs_seen: u64,
    /// RDHs that passed the filter.
    pub rdhs_filtered: u64,
    /// Payload bytes seen (saturating).
    pub payload_bytes: u64,
    /// Heartbeat frames completed: stop pages seen (saturating).
    pub hbfs: u32,
    /// CDPs completed: stop pages seen (saturating).
    pub cdps: u32,
    /// Validation errors recorded.
    pub err_count: u64,
    /// The trigger type of the first RDH, once one was seen.
    pub first_trigger: Option<u32>,
    /// The union of all trigger bits seen.
    pub trigger_union: u32,
    /// The links observed, in order of first sight.
    pub links_observed: Vec<u8>,
    /// The FEE IDs observed, in order of first sight.
    pub fee_ids_observed: Vec<u16>,
    /// The layers and staves observed, in order of first sight.
    pub layer_staves: Vec<(u8, u8)>,
    /// ALPIDE chips validated cleanly.
    pub chips_validated: u64,
    /// Lanes that failed ALPIDE validation.
    pub lanes_with_errors: u64,
}

impl StatsCollector {
    /// A fresh aggregate: every counter zero, every inventory empty.
    pub fn new() -> (r: StatsCollector)
        ensures
            r.rdh_version == 0,
            r.rdhs_seen == 0,
            r.rdhs_filtered == 0,
            r.payload_bytes == 0,
            r.hbfs == 0,
            r.cdps == 0,
            r.err_count == 0,
            r.first_trigger is None,
            r.trigger_union == 0,
            r.links_observed@ == Seq::<u8>::empty(),
            r.fee_ids_observed@ == Seq::<u16>::empty(),
            r.layer_staves@ == Seq::<(u8, u8)>::empty(),
            r.chips_validated == 0,
            r.lanes_with_errors == 0,
    {
        StatsCollector {
            rdh_version: 0,
            rdhs_seen: 0,
            rdhs_filtered: 0,
            payload_bytes: 0,
            hbfs: 0,
            cdps: 0,
            err_count: 0,
            first_trigger: None,
            trigger_union: 0,
            links_observed: Vec::new(),
            fee_ids_observed: Vec::new(),
            layer_staves: Vec::new(),
            chips_validated: 0,
            lanes_with_errors: 0,
        }
    }

    /// Count one RDH: the run's version and first trigger are fixed on
    /// the first one; the stop bit closes an HBF and a CDP; the trigger
    /// bits, the link, the FEE ID and its layer and stave are recorded;
    /// the payload bytes are added, saturating.
    pub fn record_rdh(&mut self, r: &Rdh)
        requires
            old(self).rdhs_seen < u64::MAX,
        ensures
            final(self).rdhs_seen == old(self).rdhs_seen + 1,
            final(self).rdh_version == (if old(self).rdhs_seen == 0 {
                r.header_id
            } else {
                old(self).rdh_version
            }),
            final(self).first_trigger == (if old(self).first_trigger is None {
                Some(r.trigger_type)
            } else {
                old(self).first_trigger
            }),
            final(self).trigger_union == (old(self).trigger_union | r.trigger_type),
            final(self).hbfs == (if r.stop_bit == 1 && old(self).hbfs < u32::MAX {
                old(self).hbfs + 1
            } else {
                old(self).hbfs as int
            }),
            final(self).cdps == (if r.stop_bit == 1 && old(self).cdps < u32::MAX {
                old(self).cdps + 1
            } else {
                old(self).cdps as int
            }),
            final(self).payload_bytes == (if r.memory_size >= 64 && old(self).payload_bytes + (
            r.memory_size - 64) <= u64::MAX {
                old(self).payload_bytes + (r.memory_size - 64)
            } else {
                old(self).payload_bytes as int
            }),
            final(self).links_observed@ == (if old(self).links_observed@.contains(r.link_id) {
                old(self).links_observed@
            } else {
                old(self).links_observed@.push(r.link_id)
            }),
            final(self).fee_ids_observed@ == (if old(self).fee_ids_observed@.contains(r.fee_id) {
                old(self).fee_ids_observed@
            } else {
                old(self).fee_ids_observed@.push(r.fee_id)
            }),
            final(self).layer_staves@ == (if old(self).layer_staves@.contains(
                (spec_layer_of_fee(r.fee_id), spec_stave_of_fee(r.fee_id)),
            ) {
                old(self).layer_staves@
            } else {
                old(self).layer_staves@.push(
                    (spec_layer_of_fee(r.fee_id), spec_stave_of_fee(r.fee_id)),
                )
            }),
            final(self).rdhs_filtered == old(self).rdhs_filtered,
            final(self).err_count == old(self).err_count,
            final(self).chips_validated == old(self).chips_validated,
            final(self).lanes_with_errors == old(self).lanes_with_errors,
    {
        if self.rdhs_seen == 0 {
            self.rdh_version = r.header_id;
        }
        self.rdhs_seen = self.rdhs_seen + 1;
        if self.first_trigger.is_none() {
            self.first_trigger = Some(r.trigger_type);
        }
        self.trigger_union = self.trigger_union | r.trigger_type;
        if r.stop_bit == 1 {
            if self.hbfs < u32::MAX {
                self.hbfs = self.hbfs + 1;
            }
            if self.cdps < u32::MAX {
                self.cdps = self.cdps + 1;
            }
        }
        if r.memory_size >= 64 {
            let pay = (r.memory_size - 64) as u64;
            if self.payload_bytes <= u64::MAX - pay {
                self.payload_bytes = self.payload_bytes + pay;
            }
        }
        push_unique_u8(&mut self.links_observed, r.link_id);
        push_unique_u16(&mut self.fee_ids_observed, r.fee_id);
        let layer = crate::rdh::layer_of_fee(r.fee_id);
        let stave = crate::rdh::stave_of_fee(r.fee_id);
        push_unique_pair(&mut self.layer_staves, (layer, stave));
    }

    /// Count validation errors, saturating.
    pub fn count_errors(&mut self, n: usize)
        ensures
            final(self).err_count == (if old(self).err_count + n <= u64::MAX {
                old(self).err_count + n
            } else {
                old(self).err_count as int
            }),
            final(self).rdhs_seen == old(self).rdhs_seen,
            final(self).chips_validated == old(self).chips_validated,
            final(self).lanes_with_errors == old(self).lanes_with_errors,
            final(self).rdhs_filtered == old(self).rdhs_filtered,
            final(self).rdh_version == old(self).rdh_version,
            final(self).first_trigger == old(self).first_trigger,
            final(self).trigger_union == old(self).trigger_union,
            final(self).hbfs == old(self).hbfs,
            final(self).cdps == old(self).cdps,
            final(self).payload_bytes == old(self).payload_bytes,
            final(self).links_observed == old(self).links_observed,
            final(self).fee_ids_observed == old(self).fee_ids_observed,
            final(self).layer_staves == old(self).layer_staves,
    {
        if self.err_count <= u64::MAX - n as u64 {
            self.err_count = self.err_count + n as u64;
        }
    }
}

} // verus!
