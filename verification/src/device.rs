//! Immutable device descriptor: identity, group, scan interval, the
//! user-configured tags, and the register map the device is polled through.
//! Built once by the configuration loader, read-only afterwards.

use vstd::prelude::*;
use crate::encode::{dec_rep, pairs_view, push_dec};
use crate::registers::RegisterMap;

verus! {

/// The key of the group tag: `group`.
pub open spec fn group_key() -> Seq<u8> {
    seq![103u8, 114u8, 111u8, 117u8, 112u8]
}

/// The key of the device-id tag: `id`.
pub open spec fn id_key() -> Seq<u8> {
    seq![105u8, 100u8]
}

/// The key of the register-address tag: `register`.
pub open spec fn register_key() -> Seq<u8> {
    seq![114u8, 101u8, 103u8, 105u8, 115u8, 116u8, 101u8, 114u8]
}

/// Copy a byte vector.
pub fn copy_bytes(src: &Vec<u8>) -> (r: Vec<u8>)
    ensures
        r@ =~= src@,
{
    let mut r: Vec<u8> = Vec::new();
    let mut i: usize = 0;
    while i < src.len()
        invariant
            0 <= i <= src@.len(),
            r@ =~= src@.take(i as int),
        decreases src@.len() - i,
    {
        proof {
            assert(src@.take(i + 1) =~= src@.take(i as int).push(src@[i as int]));
        }
        r.push(src[i]);
        i = i + 1;
    }
    proof {
        assert(src@.take(src@.len() as int) =~= src@);
    }
    r
}

/// One device (or sensor group) as configured: immutable for the process
/// lifetime.
pub struct Device {
    /// Numeric device identity on the bus.
    pub id: u64,
    /// Group name, carried on every emitted line.
    pub group: Vec<u8>,
    /// Scan interval in nanoseconds; the poller's inter-cycle delay.
    pub scan_interval_ns: u64,
    /// User-configured tag pairs, in configuration order.
    pub tags: Vec<(Vec<u8>, Vec<u8>)>,
    /// Address-to-name lookup for the registers this device is polled for.
    pub registers: RegisterMap,
}

impl Device {
    /// Well-formedness: a positive scan interval and a consistent, non-empty
    /// register map.
    pub open spec fn wf(self) -> bool {
        &&& self.scan_interval_ns > 0
        &&& self.registers.wf()
        &&& self.registers.entries@.len() > 0
    }

    /// The full tag list of one line for register `addr`: the group name, the
    /// device id and the register address in decimal, then the
    /// user-configured tags, in that order.
    pub open spec fn spec_line_tags(self, addr: u16) -> Seq<(Seq<u8>, Seq<u8>)> {
        seq![
            (group_key(), self.group@),
            (id_key(), dec_rep(self.id as nat)),
            (register_key(), dec_rep(addr as nat)),
        ] + pairs_view(self.tags@)
    }

    /// Construct a device descriptor.
    pub fn new(
        id: u64,
        group: Vec<u8>,
        scan_interval_ns: u64,
        tags: Vec<(Vec<u8>, Vec<u8>)>,
        registers: RegisterMap,
    ) -> (d: Device)
        requires
            scan_interval_ns > 0,
            registers.wf(),
            registers.entries@.len() > 0,
        ensures
            d.wf(),
            d.id == id,
            d.group@ == group@,
            d.scan_interval_ns == scan_interval_ns,
            d.tags@ == tags@,
            d.registers == registers,
    {
        Device { id, group, scan_interval_ns, tags, registers }
    }

    /// Build the tag list of one line for register `addr`.
    pub fn tags_for(&self, addr: u16) -> (tags: Vec<(Vec<u8>, Vec<u8>)>)
        ensures
            pairs_view(tags@) =~= self.spec_line_tags(addr),
    {
        let mut tags: Vec<(Vec<u8>, Vec<u8>)> = Vec::new();
        let gk: Vec<u8> = vec![103u8, 114u8, 111u8, 117u8, 112u8];
        tags.push((gk, copy_bytes(&self.group)));
        let ik: Vec<u8> = vec![105u8, 100u8];
        let mut idv: Vec<u8> = Vec::new();
        push_dec(&mut idv, self.id);
        tags.push((ik, idv));
        let rk: Vec<u8> = vec![114u8, 101u8, 103u8, 105u8, 115u8, 116u8, 101u8, 114u8];
        let mut av: Vec<u8> = Vec::new();
        push_dec(&mut av, addr as u64);
        tags.push((rk, av));
        proof {
            assert(pairs_view(tags@) =~= self.spec_line_tags(addr).take(3));
        }
        let mut i: usize = 0;
        while i < self.tags.len()
            invariant
                0 <= i <= self.tags@.len(),
                tags@.len() == 3 + i,
                pairs_view(tags@) =~= self.spec_line_tags(addr).take(3 + i as int),
            decreases self.tags@.len() - i,
        {
            proof {
                assert(self.spec_line_tags(addr).take(3 + i + 1) =~= self.spec_line_tags(
                    addr,
                ).take(3 + i as int).push(
                    (self.tags@[i as int].0@, self.tags@[i as int].1@),
                ));
            }
            let pair = (copy_bytes(&self.tags[i].0), copy_bytes(&self.tags[i].1));
            tags.push(pair);
            proof {
                assert(pairs_view(tags@) =~= pairs_view(tags@.drop_last()).push(
                    (tags@.last().0@, tags@.last().1@),
                ));
            }
            i = i + 1;
        }
        proof {
            assert(self.spec_line_tags(addr).take(3 + self.tags@.len() as int)
                =~= self.spec_line_tags(addr));
        }
        tags
    }
}

} // verus!
