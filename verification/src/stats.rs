//! Port statistics counters and delta arithmetic.

use vstd::prelude::*;

verus! {

/// Inbound/outbound packet, byte and error counters of one port.
///
/// A value handed to a caller is always a delta since the last reset,
/// real or software-emulated.
#[derive(Clone, Copy, Debug, PartialEq, Eq, Structural)]
pub struct PortStat {
    /// Packets received.
    pub ipackets: u64,
    /// Packets transmitted.
    pub opackets: u64,
    /// Bytes received.
    pub ibytes: u64,
    /// Bytes transmitted.
    pub obytes: u64,
    /// Erroneous received packets.
    pub ierrors: u64,
    /// Failed transmitted packets.
    pub oerrors: u64,
    /// Packets dropped by the hardware for lack of ring space.
    pub imissed: u64,
    /// Receive-side allocation failures.
    pub rx_nombuf: u64,
}

/// The all-zero counter value.
pub open spec fn zero_stat() -> PortStat {
    PortStat {
        ipackets: 0,
        opackets: 0,
        ibytes: 0,
        obytes: 0,
        ierrors: 0,
        oerrors: 0,
        imissed: 0,
        rx_nombuf: 0,
    }
}

/// Field-wise `a <= b`: `b` is a later snapshot of the same counters.
pub open spec fn stat_le(a: PortStat, b: PortStat) -> bool {
    &&& a.ipackets <= b.ipackets
    &&& a.opackets <= b.opackets
    &&& a.ibytes <= b.ibytes
    &&& a.obytes <= b.obytes
    &&& a.ierrors <= b.ierrors
    &&& a.oerrors <= b.oerrors
    &&& a.imissed <= b.imissed
    &&& a.rx_nombuf <= b.rx_nombuf
}

/// Field-wise difference `cur - base`.
pub open spec fn stat_delta(cur: PortStat, base: PortStat) -> PortStat {
    PortStat {
        ipackets: (cur.ipackets - base.ipackets) as u64,
        opackets: (cur.opackets - base.opackets) as u64,
        ibytes: (cur.ibytes - base.ibytes) as u64,
        obytes: (cur.obytes - base.obytes) as u64,
        ierrors: (cur.ierrors - base.ierrors) as u64,
        oerrors: (cur.oerrors - base.oerrors) as u64,
        imissed: (cur.imissed - base.imissed) as u64,
        rx_nombuf: (cur.rx_nombuf - base.rx_nombuf) as u64,
    }
}

/// Addition that stops at the counter's maximum instead of wrapping.
pub open spec fn sat_add(a: u64, b: u64) -> u64 {
    if a + b <= u64::MAX {
        (a + b) as u64
    } else {
        u64::MAX
    }
}

/// The delta of a snapshot against itself is all zero.
pub proof fn lemma_delta_self_zero(s: PortStat)
    ensures
        stat_delta(s, s) == zero_stat(),
{
}

impl PortStat {
    /// The all-zero counter value.
    pub fn zeroed() -> (r: PortStat)
        ensures
            r == zero_stat(),
    {
        PortStat {
            ipackets: 0,
            opackets: 0,
            ibytes: 0,
            obytes: 0,
            ierrors: 0,
            oerrors: 0,
            imissed: 0,
            rx_nombuf: 0,
        }
    }

    /// Compute the delta of this snapshot against a baseline.
    pub fn delta(&self, base: &PortStat) -> (r: PortStat)
        requires
            stat_le(*base, *self),
        ensures
            r == stat_delta(*self, *base),
    {
        PortStat {
            ipackets: self.ipackets - base.ipackets,
            opackets: self.opackets - base.opackets,
            ibytes: self.ibytes - base.ibytes,
            obytes: self.obytes - base.obytes,
            ierrors: self.ierrors - base.ierrors,
            oerrors: self.oerrors - base.oerrors,
            imissed: self.imissed - base.imissed,
            rx_nombuf: self.rx_nombuf - base.rx_nombuf,
        }
    }

    /// Raise the received-packet counter by `n`, stopping at the maximum.
    pub fn count_rx(&mut self, n: u64)
        ensures
            *final(self) == (PortStat { ipackets: sat_add(old(self).ipackets, n), ..*old(self) }),
    {
        if self.ipackets <= u64::MAX - n {
            self.ipackets = self.ipackets + n;
        } else {
            self.ipackets = u64::MAX;
        }
    }

    /// Raise the transmitted-packet counter by `n`, stopping at the maximum.
    pub fn count_tx(&mut self, n: u64)
        ensures
            *final(self) == (PortStat { opackets: sat_add(old(self).opackets, n), ..*old(self) }),
    {
        if self.opackets <= u64::MAX - n {
            self.opackets = self.opackets + n;
        } else {
            self.opackets = u64::MAX;
        }
    }
}

impl Default for PortStat {
    /// All counters start at zero.
    fn default() -> (r: PortStat)
        ensures
            r == zero_stat(),
    {
        PortStat::zeroed()
    }
}

} // verus!
