//! Handles to configured network ports and their statistics.
//!
//! When the hardware supports in-place statistics reset, counters read from
//! it are already deltas.  Otherwise the handle keeps a software baseline
//! and every reported value is the difference against it.

use vstd::prelude::*;
use crate::cap::{CapState, PortHw};
use crate::ids::SocketId;
use crate::stats::{stat_delta, stat_le, zero_stat, PortStat};

verus! {

/// Handle to one configured port.
#[derive(Clone, Copy, Debug)]
pub struct Port {
    /// Numeric identifier assigned by the capability layer.
    pub port_id: u16,
    /// Index of the port in the capability layer's port table.
    pub port_idx: usize,
    /// The NUMA node the port is attached to.
    pub socket: SocketId,
    /// Owner tag recorded for this process during setup.
    pub owner_id: u64,
    /// Whether the hardware supports in-place statistics reset.
    pub has_stats_reset: bool,
    /// Software baseline for emulated deltas, used when it does not.
    pub prev_stat: PortStat,
}

impl Port {
    /// The handle agrees with the port table of the given state.
    pub open spec fn valid(self, cap: CapState) -> bool {
        &&& self.port_idx < cap.ports@.len()
        &&& cap.ports@[self.port_idx as int].port_id == self.port_id
        &&& cap.ports@[self.port_idx as int].socket == self.socket
    }

    /// What `get_stat` reports for raw hardware counters `raw`: the raw
    /// value when the hardware resets in place, else the delta against the
    /// software baseline.
    pub open spec fn stat_view(self, raw: PortStat) -> PortStat {
        if self.has_stats_reset {
            raw
        } else {
            stat_delta(raw, self.prev_stat)
        }
    }

    /// The port's numeric identifier.
    pub fn port_id(&self) -> (r: u16)
        ensures
            r == self.port_id,
    {
        self.port_id
    }

    /// The NUMA node of this port.
    pub fn socket_id(&self) -> (r: SocketId)
        ensures
            r == self.socket,
    {
        self.socket
    }

    /// The port's hardware address.
    pub fn mac_addr(&self, cap: &CapState) -> (r: [u8; 6])
        requires
            self.port_idx < cap.ports@.len(),
        ensures
            r == cap.ports@[self.port_idx as int].mac,
    {
        cap.ports[self.port_idx].mac
    }

    /// Whether the link is up.
    pub fn is_link_up(&self, cap: &CapState) -> (r: bool)
        requires
            self.port_idx < cap.ports@.len(),
        ensures
            r == cap.ports@[self.port_idx as int].link_up,
    {
        cap.ports[self.port_idx].link_up
    }

    /// Statistics since the last reset, real or emulated.
    pub fn get_stat(&self, cap: &CapState) -> (r: PortStat)
        requires
            self.port_idx < cap.ports@.len(),
            !self.has_stats_reset ==> stat_le(
                self.prev_stat,
                cap.ports@[self.port_idx as int].raw_stat,
            ),
        ensures
            r == self.stat_view(cap.ports@[self.port_idx as int].raw_stat),
    {
        let raw = cap.ports[self.port_idx].raw_stat;
        if self.has_stats_reset {
            raw
        } else {
            raw.delta(&self.prev_stat)
        }
    }

    /// Reset the statistics baseline.
    ///
    /// With hardware support the raw counters are cleared in place; without
    /// it the software baseline is overwritten with the current raw values.
    pub fn reset_stat(&mut self, cap: &mut CapState)
        requires
            old(cap).wf(),
            old(self).port_idx < old(cap).ports@.len(),
        ensures
            final(cap).wf(),
            old(self).has_stats_reset ==> {
                &&& final(cap).ports@ == old(cap).ports@.update(
                    old(self).port_idx as int,
                    PortHw {
                        raw_stat: zero_stat(),
                        ..old(cap).ports@[old(self).port_idx as int]
                    },
                )
                &&& *final(self) == *old(self)
            },
            !old(self).has_stats_reset ==> {
                &&& final(cap).ports@ == old(cap).ports@
                &&& *final(self) == (Port {
                    prev_stat: old(cap).ports@[old(self).port_idx as int].raw_stat,
                    ..*old(self)
                })
            },
            final(cap).cores == old(cap).cores,
            final(cap).pools == old(cap).pools,
            final(cap).next_owner == old(cap).next_owner,
    {
        let i = self.port_idx;
        if self.has_stats_reset {
            cap.ports[i].raw_stat = PortStat::zeroed();
            assert(cap.ports@ =~= old(cap).ports@.update(
                i as int,
                PortHw { raw_stat: zero_stat(), ..old(cap).ports@[i as int] },
            ));
        } else {
            self.prev_stat = cap.ports[i].raw_stat;
        }
    }

    /// Release the port: unset its owner tag and stop and close the device.
    pub fn close(self, cap: &mut CapState)
        requires
            old(cap).wf(),
            self.port_idx < old(cap).ports@.len(),
            old(cap).ports@[self.port_idx as int].owner == Some(self.owner_id),
        ensures
            final(cap).wf(),
            final(cap).ports@ == old(cap).ports@.update(
                self.port_idx as int,
                PortHw {
                    owner: None,
                    started: false,
                    configured: false,
                    ..old(cap).ports@[self.port_idx as int]
                },
            ),
            final(cap).cores == old(cap).cores,
            final(cap).pools == old(cap).pools,
            final(cap).next_owner == old(cap).next_owner,
    {
        let i = self.port_idx;
        cap.ports[i].owner = None;
        cap.ports[i].started = false;
        cap.ports[i].configured = false;
        assert(cap.ports@ =~= old(cap).ports@.update(
            i as int,
            PortHw {
                owner: None,
                started: false,
                configured: false,
                ..old(cap).ports@[i as int]
            },
        ));
    }
}

/// With the software-emulated fallback, a statistics read straight after a
/// reset — with no traffic in between — reports all-zero deltas.
pub proof fn lemma_stat_zero_after_reset(p: Port, raw: PortStat)
    requires
        !p.has_stats_reset,
        p.prev_stat == raw,
    ensures
        p.stat_view(raw) == zero_stat(),
{
    crate::stats::lemma_delta_self_zero(raw);
}

} // verus!
