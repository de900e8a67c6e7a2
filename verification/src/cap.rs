//! The capability layer's observable state, modeled explicitly.
//!
//! The native layer offers no reference counting or borrow checking of its
//! own: a pool can be freed regardless of outstanding allocations.  This
//! module states what the manager may assume of that layer — pools with
//! outstanding-buffer counts, ports with counters and a frame queue — and
//! every operation on it preserves the safety invariant that a pool's
//! resource is never released while buffers drawn from it are outstanding.

use vstd::prelude::*;
use crate::ids::{LCoreId, SocketId};
use crate::packet::Packet;
use crate::stats::PortStat;
use crate::{DEFAULT_HEADROOM, MAX_FRAME_LEN};

verus! {

/// One logical core as discovered by the capability layer.
#[derive(Clone, Copy, Debug)]
pub struct CoreHw {
    /// The core's identifier.
    pub lcore: LCoreId,
    /// The NUMA node the core belongs to.
    pub socket: SocketId,
    /// Whether the core was reported enabled.
    pub enabled: bool,
}

/// Bounds and alignment of a queue's descriptor ring.
#[derive(Clone, Copy, Debug)]
pub struct DescLimits {
    /// Largest supported descriptor count.
    pub nb_max: u16,
    /// Smallest supported descriptor count.
    pub nb_min: u16,
    /// Required alignment of the descriptor count.
    pub nb_align: u16,
}

/// One hardware port: its static description and its runtime state.
#[derive(Debug)]
pub struct PortHw {
    /// Numeric identifier assigned by the capability layer.
    pub port_id: u16,
    /// The NUMA node the port is attached to.
    pub socket: SocketId,
    /// The port's hardware address.
    pub mac: [u8; 6],
    /// Hardware limit on receive queues.
    pub max_rx_queues: u16,
    /// Hardware limit on transmit queues.
    pub max_tx_queues: u16,
    /// Receive descriptor ring bounds.
    pub rx_desc_lim: DescLimits,
    /// Transmit descriptor ring bounds.
    pub tx_desc_lim: DescLimits,
    /// Advertised receive offload capabilities.
    pub rx_offload_capa: u64,
    /// Advertised transmit offload capabilities.
    pub tx_offload_capa: u64,
    /// Whether the hardware supports in-place statistics reset.
    pub stats_reset_supported: bool,
    /// Whether the link is up.
    pub link_up: bool,
    /// Owner tag taken during setup, if any.
    pub owner: Option<u64>,
    /// Whether the port's hardware configuration was applied.
    pub configured: bool,
    /// Whether the port was started.
    pub started: bool,
    /// Whether promiscuous mode is on.
    pub promiscuous: bool,
    /// Whether receive-side scaling was enabled.
    pub rss_enabled: bool,
    /// Number of receive queues configured.
    pub n_rxq: u16,
    /// Number of transmit queues configured.
    pub n_txq: u16,
    /// Receive offload flags actually enabled.
    pub rx_offloads: u64,
    /// Transmit offload flags actually enabled.
    pub tx_offloads: u64,
    /// Raw hardware counters since device start or last hardware reset.
    pub raw_stat: PortStat,
    /// Frames waiting to be received on this port, oldest first.
    pub inbound: Vec<Vec<u8>>,
    /// How many packets the transmit rings will still accept.
    pub tx_budget: usize,
}

impl PortHw {
    /// Describe a freshly discovered, not yet configured port.
    pub fn discovered(
        port_id: u16,
        socket: SocketId,
        mac: [u8; 6],
        max_rx_queues: u16,
        max_tx_queues: u16,
        rx_desc_lim: DescLimits,
        tx_desc_lim: DescLimits,
        rx_offload_capa: u64,
        tx_offload_capa: u64,
        stats_reset_supported: bool,
    ) -> (r: PortHw)
        ensures
            r.port_id == port_id,
            r.socket == socket,
            r.mac == mac,
            r.max_rx_queues == max_rx_queues,
            r.max_tx_queues == max_tx_queues,
            r.rx_desc_lim == rx_desc_lim,
            r.tx_desc_lim == tx_desc_lim,
            r.rx_offload_capa == rx_offload_capa,
            r.tx_offload_capa == tx_offload_capa,
            r.stats_reset_supported == stats_reset_supported,
            r.link_up == false,
            r.owner is None,
            !r.configured && !r.started && !r.promiscuous && !r.rss_enabled,
            r.n_rxq == 0 && r.n_txq == 0,
            r.rx_offloads == 0 && r.tx_offloads == 0,
            r.raw_stat == crate::stats::zero_stat(),
            r.inbound@.len() == 0,
            r.tx_budget == 0,
    {
        PortHw {
            port_id,
            socket,
            mac,
            max_rx_queues,
            max_tx_queues,
            rx_desc_lim,
            tx_desc_lim,
            rx_offload_capa,
            tx_offload_capa,
            stats_reset_supported,
            link_up: false,
            owner: None,
            configured: false,
            started: false,
            promiscuous: false,
            rss_enabled: false,
            n_rxq: 0,
            n_txq: 0,
            rx_offloads: 0,
            tx_offloads: 0,
            raw_stat: PortStat::zeroed(),
            inbound: Vec::new(),
            tx_budget: 0,
        }
    }

    /// All waiting frames fit the configured maximum frame length.
    pub open spec fn wire_wf(self) -> bool {
        forall|i: int|
            0 <= i < self.inbound@.len() ==> (#[trigger] self.inbound@[i])@.len()
                <= MAX_FRAME_LEN
    }
}

/// One buffer arena in the native layer.
#[derive(Clone, Copy, Debug)]
pub struct PoolNative {
    /// Name of the arena in the native layer's global namespace.
    pub tag: u64,
    /// Number of buffers in the arena.
    pub capacity: usize,
    /// Size of the per-core object cache.
    pub cache_size: usize,
    /// Size of each buffer's data room, headroom included.
    pub data_room: usize,
    /// NUMA node the arena's memory was reserved on, if constrained.
    pub socket: Option<SocketId>,
    /// Buffers currently drawn from the arena's free list.
    pub outstanding: usize,
    /// Whether the arena's memory has been returned to the native layer.
    pub released: bool,
}

impl PoolNative {
    /// No more buffers are out than exist; a released arena is drained;
    /// every buffer has room for the default headroom.
    pub open spec fn wf(self) -> bool {
        &&& self.outstanding <= self.capacity
        &&& self.data_room >= DEFAULT_HEADROOM
        &&& (self.released ==> self.outstanding == 0)
    }
}

/// Everything the manager can observe of the capability layer.
#[derive(Debug)]
pub struct CapState {
    /// Logical cores, in discovery order.
    pub cores: Vec<CoreHw>,
    /// Valid hardware ports, in discovery order.
    pub ports: Vec<PortHw>,
    /// Buffer arenas, in creation order; released ones keep their slot.
    pub pools: Vec<PoolNative>,
    /// Next unused port-owner tag.
    pub next_owner: u64,
}

impl CapState {
    /// The safety invariant over the whole native state.
    pub open spec fn wf(self) -> bool {
        &&& forall|i: int| 0 <= i < self.pools@.len() ==> (#[trigger] self.pools@[i]).wf()
        &&& forall|i: int| 0 <= i < self.ports@.len() ==> (#[trigger] self.ports@[i]).wire_wf()
    }

    /// No existing pool uses this name.
    pub open spec fn tag_free(self, tag: u64) -> bool {
        forall|i: int| 0 <= i < self.pools@.len() ==> (#[trigger] self.pools@[i]).tag != tag
    }

    /// Assemble the state as discovered at initialization time.
    pub fn discovered(cores: Vec<CoreHw>, ports: Vec<PortHw>) -> (r: CapState)
        requires
            forall|i: int| 0 <= i < ports@.len() ==> (#[trigger] ports@[i]).wire_wf(),
        ensures
            r.cores == cores,
            r.ports == ports,
            r.pools@.len() == 0,
            r.next_owner == 0,
            r.wf(),
    {
        CapState { cores, ports, pools: Vec::new(), next_owner: 0 }
    }

    /// Whether a pool with this name already exists.
    pub fn tag_in_use(&self, tag: u64) -> (r: bool)
        ensures
            r == !self.tag_free(tag),
    {
        let n = self.pools.len();
        let mut i: usize = 0;
        while i < n
            invariant
                i <= n,
                n == self.pools@.len(),
                forall|j: int| 0 <= j < i ==> (#[trigger] self.pools@[j]).tag != tag,
            decreases n - i,
        {
            if self.pools[i].tag == tag {
                return true;
            }
            i = i + 1;
        }
        false
    }

    /// The NUMA node of a discovered core, or `None` for an unknown core.
    pub fn lcore_socket(&self, lc: LCoreId) -> (r: Option<SocketId>)
        ensures
            (r is Some) <==> exists|i: int|
                0 <= i < self.cores@.len() && (#[trigger] self.cores@[i]).lcore == lc,
            r matches Some(s) ==> exists|i: int|
                0 <= i < self.cores@.len() && (#[trigger] self.cores@[i]).lcore == lc
                    && self.cores@[i].socket == s,
    {
        let n = self.cores.len();
        let mut i: usize = 0;
        while i < n
            invariant
                i <= n,
                n == self.cores@.len(),
                forall|j: int| 0 <= j < i ==> (#[trigger] self.cores@[j]).lcore != lc,
            decreases n - i,
        {
            if self.cores[i].lcore == lc {
                return Some(self.cores[i].socket);
            }
            i = i + 1;
        }
        None
    }

    /// Whether a core was reported enabled by the capability layer.
    pub fn lcore_is_enabled(&self, lc: LCoreId) -> (r: bool)
        ensures
            r == crate::plan::is_enabled_core(self.cores@, lc),
    {
        let n = self.cores.len();
        let mut i: usize = 0;
        while i < n
            invariant
                i <= n,
                n == self.cores@.len(),
                forall|j: int|
                    0 <= j < i ==> !((#[trigger] self.cores@[j]).enabled && self.cores@[j].lcore
                        == lc),
            decreases n - i,
        {
            if self.cores[i].enabled && self.cores[i].lcore == lc {
                return true;
            }
            i = i + 1;
        }
        false
    }

    /// Reserve a new arena in the native layer.
    ///
    /// A name collision in the native namespace is a programmer error and is
    /// ruled out by precondition rather than recovered from.
    pub fn create_pool(
        &mut self,
        tag: u64,
        n: usize,
        cache_size: usize,
        data_room: usize,
        socket: Option<SocketId>,
    ) -> (idx: usize)
        requires
            old(self).wf(),
            old(self).tag_free(tag),
            data_room >= DEFAULT_HEADROOM,
        ensures
            idx == old(self).pools@.len(),
            final(self).pools@ == old(self).pools@.push(
                PoolNative {
                    tag,
                    capacity: n,
                    cache_size,
                    data_room,
                    socket,
                    outstanding: 0,
                    released: false,
                },
            ),
            final(self).cores == old(self).cores,
            final(self).ports == old(self).ports,
            final(self).next_owner == old(self).next_owner,
            final(self).wf(),
    {
        let idx = self.pools.len();
        self.pools.push(PoolNative {
            tag,
            capacity: n,
            cache_size,
            data_room,
            socket,
            outstanding: 0,
            released: false,
        });
        idx
    }

    /// Return one buffer to its arena's native free list.
    ///
    /// Consuming the `Packet` value is what destruction means: the buffer
    /// reference cannot be used again.
    pub fn free_packet(&mut self, pkt: Packet)
        requires
            old(self).wf(),
            pkt.pool < old(self).pools@.len(),
            !old(self).pools@[pkt.pool as int].released,
            old(self).pools@[pkt.pool as int].outstanding > 0,
        ensures
            final(self).pools@ == old(self).pools@.update(
                pkt.pool as int,
                PoolNative {
                    outstanding: (old(self).pools@[pkt.pool as int].outstanding - 1) as usize,
                    ..old(self).pools@[pkt.pool as int]
                },
            ),
            final(self).cores == old(self).cores,
            final(self).ports == old(self).ports,
            final(self).next_owner == old(self).next_owner,
            final(self).wf(),
    {
        let i = pkt.pool;
        let mut p = self.pools[i];
        p.outstanding = p.outstanding - 1;
        self.pools.set(i, p);
        assert(self.pools@ =~= old(self).pools@.update(
            pkt.pool as int,
            PoolNative {
                outstanding: (old(self).pools@[pkt.pool as int].outstanding - 1) as usize,
                ..old(self).pools@[pkt.pool as int]
            },
        ));
    }

    /// Try to release an arena's memory; succeeds only when every buffer
    /// has been returned.
    pub fn try_release_pool(&mut self, i: usize) -> (r: bool)
        requires
            old(self).wf(),
            i < old(self).pools@.len(),
            !old(self).pools@[i as int].released,
        ensures
            r == (old(self).pools@[i as int].outstanding == 0),
            final(self).pools@ == old(self).pools@.update(
                i as int,
                PoolNative { released: r, ..old(self).pools@[i as int] },
            ),
            final(self).cores == old(self).cores,
            final(self).ports == old(self).ports,
            final(self).next_owner == old(self).next_owner,
            final(self).wf(),
    {
        let full = self.pools[i].outstanding == 0;
        if full {
            let mut p = self.pools[i];
            p.released = true;
            self.pools.set(i, p);
        }
        assert(self.pools@ =~= old(self).pools@.update(
            i as int,
            PoolNative { released: full, ..old(self).pools@[i as int] },
        ));
        full
    }

    /// Put a frame on a port's wire, as outside traffic would.
    pub fn inject_frame(&mut self, port: usize, frame: Vec<u8>)
        requires
            old(self).wf(),
            port < old(self).ports@.len(),
            frame@.len() <= MAX_FRAME_LEN,
        ensures
            final(self).ports@ == old(self).ports@.update(
                port as int,
                PortHw {
                    inbound: final(self).ports@[port as int].inbound,
                    ..old(self).ports@[port as int]
                },
            ),
            final(self).ports@[port as int].inbound@ == old(self).ports@[
                port as int
            ].inbound@.push(frame),
            final(self).cores == old(self).cores,
            final(self).pools == old(self).pools,
            final(self).next_owner == old(self).next_owner,
            final(self).wf(),
    {
        self.ports[port].inbound.push(frame);
        assert(self.ports@ =~= old(self).ports@.update(
            port as int,
            PortHw {
                inbound: self.ports@[port as int].inbound,
                ..old(self).ports@[port as int]
            },
        ));
    }

    /// Let the transmit rings of a port accept `n` more packets.
    pub fn grant_tx(&mut self, port: usize, n: usize)
        requires
            old(self).wf(),
            port < old(self).ports@.len(),
            old(self).ports@[port as int].tx_budget + n <= usize::MAX,
        ensures
            final(self).ports@ == old(self).ports@.update(
                port as int,
                PortHw {
                    tx_budget: (old(self).ports@[port as int].tx_budget + n) as usize,
                    ..old(self).ports@[port as int]
                },
            ),
            final(self).cores == old(self).cores,
            final(self).pools == old(self).pools,
            final(self).next_owner == old(self).next_owner,
            final(self).wf(),
    {
        let b = self.ports[port].tx_budget;
        self.ports[port].tx_budget = b + n;
        assert(self.ports@ =~= old(self).ports@.update(
            port as int,
            PortHw {
                tx_budget: self.ports@[port as int].tx_budget,
                ..old(self).ports@[port as int]
            },
        ));
    }

    /// Raise or lower a port's link.
    pub fn set_link(&mut self, port: usize, up: bool)
        requires
            old(self).wf(),
            port < old(self).ports@.len(),
        ensures
            final(self).ports@ == old(self).ports@.update(
                port as int,
                PortHw { link_up: up, ..old(self).ports@[port as int] },
            ),
            final(self).cores == old(self).cores,
            final(self).pools == old(self).pools,
            final(self).next_owner == old(self).next_owner,
            final(self).wf(),
    {
        self.ports[port].link_up = up;
        assert(self.ports@ =~= old(self).ports@.update(
            port as int,
            PortHw { link_up: up, ..old(self).ports@[port as int] },
        ));
    }
}

/// A pool's native resource is never released while buffers drawn from it
/// are still outstanding.
pub proof fn lemma_release_only_when_drained(cap: CapState, i: int)
    requires
        cap.wf(),
        0 <= i < cap.pools@.len(),
        cap.pools@[i].outstanding > 0,
    ensures
        !cap.pools@[i].released,
{
    assert(cap.pools@[i].wf());
}

} // verus!
