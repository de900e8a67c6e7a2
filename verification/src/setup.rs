//! Queue and port setup: the one-shot orchestration of the affinity plan.
//!
//! `setup` walks every valid port, takes ownership of it, applies its
//! hardware configuration, creates one dedicated pool per receive queue,
//! and distributes the queues over the candidate cores the planner picked.
//! The returned mapping is stable: the Nth candidate core of a port, in
//! discovery order, receives queue index N.

use vstd::prelude::*;
use crate::cap::{CapState, CoreHw, PoolNative, PortHw};
use crate::eal::Eal;
use crate::error::ErrorCode;
use crate::ids::LCoreId;
use crate::plan::{candidate_cores, is_enabled_core, lemma_candidates_sound, Affinity};
use crate::pool::MPool;
use crate::port::Port;
use crate::queue::{RxQ, TxQ};
use crate::stats::{zero_stat, PortStat};
use crate::{
    DEDICATED_POOL_TAG_BASE, DEFAULT_PACKET_DATA_LENGTH, DEFAULT_PROMISC,
    DEFAULT_RX_PER_CORE_CACHE, DEFAULT_RX_POOL_SIZE, RX_OFFLOAD_CHECKSUM, TX_OFFLOAD_IPV4_CKSUM,
    TX_OFFLOAD_TCP_CKSUM, TX_OFFLOAD_UDP_CKSUM,
};

verus! {

/// One entry of the returned mapping: a core with its receive and
/// transmit queues.
pub type CoreQueues = (LCoreId, Vec<RxQ>, Vec<TxQ>);

/// The receive offload flags setup enables, given advertised capabilities.
pub open spec fn spec_rx_offloads(capa: u64) -> u64 {
    if capa & RX_OFFLOAD_CHECKSUM != 0 {
        RX_OFFLOAD_CHECKSUM
    } else {
        0
    }
}

/// The transmit offload flags setup enables, given advertised capabilities.
pub open spec fn spec_tx_offloads(capa: u64) -> u64 {
    (if capa & TX_OFFLOAD_IPV4_CKSUM != 0 {
        TX_OFFLOAD_IPV4_CKSUM
    } else {
        0
    }) | (if capa & TX_OFFLOAD_UDP_CKSUM != 0 {
        TX_OFFLOAD_UDP_CKSUM
    } else {
        0
    }) | (if capa & TX_OFFLOAD_TCP_CKSUM != 0 {
        TX_OFFLOAD_TCP_CKSUM
    } else {
        0
    })
}

/// What setup leaves of a port it configured: owned, configured, started,
/// with scaling and offloads decided by the plan and the advertised
/// capabilities, and hardware counters cleared where the device can.
pub open spec fn configured_port(
    p: PortHw,
    cores: Seq<CoreHw>,
    rx_aff: Affinity,
    tx_aff: Affinity,
    owner: u64,
) -> PortHw {
    PortHw {
        owner: Some(owner),
        configured: true,
        started: true,
        promiscuous: DEFAULT_PROMISC,
        rss_enabled: candidate_cores(cores, rx_aff, p.socket).len() > 1,
        n_rxq: candidate_cores(cores, rx_aff, p.socket).len() as u16,
        n_txq: candidate_cores(cores, tx_aff, p.socket).len() as u16,
        rx_offloads: spec_rx_offloads(p.rx_offload_capa),
        tx_offloads: spec_tx_offloads(p.tx_offload_capa),
        raw_stat: if p.stats_reset_supported {
            zero_stat()
        } else {
            p.raw_stat
        },
        ..p
    }
}

/// Total number of receive queues the plan creates over all ports.
pub open spec fn rx_queue_total(cores: Seq<CoreHw>, ports: Seq<PortHw>, rx_aff: Affinity) -> nat
    decreases ports.len(),
{
    if ports.len() == 0 {
        0
    } else {
        rx_queue_total(cores, ports.drop_last(), rx_aff) + candidate_cores(
            cores,
            rx_aff,
            ports.last().socket,
        ).len()
    }
}

/// The queue counts and descriptor ring defaults fit this port's hardware
/// limits.  A violation is a deployment error the caller must fix ahead of
/// time, so setup requires this rather than reporting it.
pub open spec fn port_setup_ok(
    cores: Seq<CoreHw>,
    p: PortHw,
    rx_aff: Affinity,
    tx_aff: Affinity,
) -> bool {
    &&& candidate_cores(cores, rx_aff, p.socket).len() <= p.max_rx_queues
    &&& candidate_cores(cores, tx_aff, p.socket).len() <= p.max_tx_queues
    &&& p.rx_desc_lim.nb_min <= crate::DEFAULT_RX_DESC <= p.rx_desc_lim.nb_max
    &&& p.rx_desc_lim.nb_align > 0
    &&& crate::DEFAULT_RX_DESC as int % p.rx_desc_lim.nb_align as int == 0
    &&& p.tx_desc_lim.nb_min <= crate::DEFAULT_TX_DESC <= p.tx_desc_lim.nb_max
    &&& p.tx_desc_lim.nb_align > 0
    &&& crate::DEFAULT_TX_DESC as int % p.tx_desc_lim.nb_align as int == 0
}

/// Everything setup demands of the state it starts from.
pub open spec fn setup_ok(cap: CapState, rx_aff: Affinity, tx_aff: Affinity) -> bool {
    &&& forall|i: int|
        0 <= i < cap.ports@.len() ==> port_setup_ok(
            cap.cores@,
            #[trigger] cap.ports@[i],
            rx_aff,
            tx_aff,
        )
    &&& forall|i: int, j: int|
        0 <= i < j < cap.ports@.len() ==> (#[trigger] cap.ports@[i]).port_id != (
        #[trigger] cap.ports@[j]).port_id
    &&& forall|i: int|
        0 <= i < cap.pools@.len() ==> (#[trigger] cap.pools@[i]).tag < DEDICATED_POOL_TAG_BASE
    &&& cap.next_owner + cap.ports@.len() <= u64::MAX
    &&& cap.pools@.len() + rx_queue_total(cap.cores@, cap.ports@, rx_aff)
        < DEDICATED_POOL_TAG_BASE
}

/// A receive-queue handle as setup hands it out for core `lc`: the stable
/// assignment of one port, whose `queue_id`-th candidate core is `lc`,
/// backed by a dedicated fresh pool on the port's own node.
pub open spec fn rx_entry_ok(
    old_cap: CapState,
    new_pools: Seq<PoolNative>,
    rx_aff: Affinity,
    rxq: RxQ,
    lc: LCoreId,
) -> bool {
    &&& rxq.port.port_idx < old_cap.ports@.len()
    &&& {
        let p = old_cap.ports@[rxq.port.port_idx as int];
        let cand = candidate_cores(old_cap.cores@, rx_aff, p.socket);
        &&& rxq.port.port_id == p.port_id
        &&& rxq.port.socket == p.socket
        &&& rxq.port.owner_id == old_cap.next_owner + rxq.port.port_idx
        &&& rxq.port.has_stats_reset == p.stats_reset_supported
        &&& rxq.port.prev_stat == zero_stat()
        &&& (rxq.queue_id as int) < cand.len()
        &&& cand[rxq.queue_id as int].lcore == lc
        &&& old_cap.pools@.len() <= rxq.pool.pool < new_pools.len()
        &&& new_pools[rxq.pool.pool as int] == (PoolNative {
            tag: (DEDICATED_POOL_TAG_BASE + rxq.pool.pool) as u64,
            capacity: DEFAULT_RX_POOL_SIZE,
            cache_size: DEFAULT_RX_PER_CORE_CACHE,
            data_room: DEFAULT_PACKET_DATA_LENGTH,
            socket: Some(p.socket),
            outstanding: 0,
            released: false,
        })
    }
}

/// A transmit-queue handle as setup hands it out for core `lc`.
pub open spec fn tx_entry_ok(old_cap: CapState, tx_aff: Affinity, txq: TxQ, lc: LCoreId) -> bool {
    &&& txq.port.port_idx < old_cap.ports@.len()
    &&& {
        let p = old_cap.ports@[txq.port.port_idx as int];
        let cand = candidate_cores(old_cap.cores@, tx_aff, p.socket);
        &&& txq.port.port_id == p.port_id
        &&& txq.port.socket == p.socket
        &&& txq.port.owner_id == old_cap.next_owner + txq.port.port_idx
        &&& txq.port.has_stats_reset == p.stats_reset_supported
        &&& txq.port.prev_stat == zero_stat()
        &&& (txq.queue_id as int) < cand.len()
        &&& cand[txq.queue_id as int].lcore == lc
    }
}

/// The mapping holds a receive queue with index `q` of port `pi`.
pub open spec fn has_rx_queue(m: Seq<CoreQueues>, pi: int, q: int) -> bool {
    exists|e: int, j: int|
        0 <= e < m.len() && 0 <= j < m[e].1@.len() && m[e].1@[j].port.port_idx == pi
            && m[e].1@[j].queue_id == q
}

/// The mapping holds a transmit queue with index `q` of port `pi`.
pub open spec fn has_tx_queue(m: Seq<CoreQueues>, pi: int, q: int) -> bool {
    exists|e: int, j: int|
        0 <= e < m.len() && 0 <= j < m[e].2@.len() && m[e].2@[j].port.port_idx == pi
            && m[e].2@[j].queue_id == q
}

/// Everything the returned mapping promises: distinct cores, only enabled
/// ones, every queue a stable assignment of some port, and every planned
/// queue present exactly as planned.
pub open spec fn setup_result_ok(
    m: Seq<CoreQueues>,
    old_cap: CapState,
    new_pools: Seq<PoolNative>,
    rx_aff: Affinity,
    tx_aff: Affinity,
) -> bool {
    &&& forall|e1: int, e2: int|
        0 <= e1 < e2 < m.len() ==> (#[trigger] m[e1]).0 != (#[trigger] m[e2]).0
    &&& forall|e: int| 0 <= e < m.len() ==> is_enabled_core(old_cap.cores@, (#[trigger] m[e]).0)
    &&& forall|e: int, j: int|
        0 <= e < m.len() && 0 <= j < m[e].1@.len() ==> rx_entry_ok(
            old_cap,
            new_pools,
            rx_aff,
            #[trigger] m[e].1@[j],
            m[e].0,
        )
    &&& forall|e: int, j: int|
        0 <= e < m.len() && 0 <= j < m[e].2@.len() ==> tx_entry_ok(
            old_cap,
            tx_aff,
            #[trigger] m[e].2@[j],
            m[e].0,
        )
    &&& forall|pi: int, q: int|
        0 <= pi < old_cap.ports@.len() && 0 <= q < candidate_cores(
            old_cap.cores@,
            rx_aff,
            old_cap.ports@[pi].socket,
        ).len() ==> #[trigger] has_rx_queue(m, pi, q)
    &&& forall|pi: int, q: int|
        0 <= pi < old_cap.ports@.len() && 0 <= q < candidate_cores(
            old_cap.cores@,
            tx_aff,
            old_cap.ports@[pi].socket,
        ).len() ==> #[trigger] has_tx_queue(m, pi, q)
}

/// Append a receive queue to `lc`'s entry, creating the entry if needed.
fn map_push_rx(m: &mut Vec<CoreQueues>, lc: LCoreId, rxq: RxQ)
    requires
        forall|e1: int, e2: int|
            0 <= e1 < e2 < old(m)@.len() ==> (#[trigger] old(m)@[e1]).0 != (
            #[trigger] old(m)@[e2]).0,
    ensures
        (exists|e: int| 0 <= e < old(m)@.len() && (#[trigger] old(m)@[e]).0 == lc) ==> {
            &&& final(m)@.len() == old(m)@.len()
            &&& forall|e: int|
                0 <= e < old(m)@.len() ==> {
                    &&& (#[trigger] final(m)@[e]).0 == old(m)@[e].0
                    &&& final(m)@[e].2 == old(m)@[e].2
                    &&& (old(m)@[e].0 == lc ==> final(m)@[e].1@ == old(m)@[e].1@.push(rxq))
                    &&& (old(m)@[e].0 != lc ==> final(m)@[e].1 == old(m)@[e].1)
                }
        },
        !(exists|e: int| 0 <= e < old(m)@.len() && (#[trigger] old(m)@[e]).0 == lc) ==> {
            &&& final(m)@.len() == old(m)@.len() + 1
            &&& final(m)@.subrange(0, old(m)@.len() as int) == old(m)@
            &&& final(m)@.last().0 == lc
            &&& final(m)@.last().1@ == seq![rxq]
            &&& final(m)@.last().2@.len() == 0
        },
{
    let n = m.len();
    let mut found: usize = n;
    let mut e: usize = 0;
    while e < n
        invariant
            e <= n,
            n == m@.len(),
            m@ == old(m)@,
            found == n || (found < e && m@[found as int].0 == lc),
            forall|t: int| 0 <= t < e && m@[t].0 == lc ==> found < n,
        decreases n - e,
    {
        if found == n && m[e].0 == lc {
            found = e;
        }
        e = e + 1;
    }
    if found < n {
        let (k, mut rxs, txs) = m.remove(found);
        rxs.push(rxq);
        m.insert(found, (k, rxs, txs));
        proof {
            assert(m@.len() == old(m)@.len());
            assert forall|t: int|
                0 <= t < old(m)@.len() && t != found implies #[trigger] m@[t] == old(m)@[t] by {
                if t > found {
                    assert(m@[t] == old(m)@.remove(found as int)[t - 1]);
                }
            }
            assert(m@[found as int].0 == old(m)@[found as int].0);
            assert(m@[found as int].1@ == old(m)@[found as int].1@.push(rxq));
            assert(m@[found as int].2 == old(m)@[found as int].2);
        }
    } else {
        let mut rxs: Vec<RxQ> = Vec::new();
        rxs.push(rxq);
        let txs: Vec<TxQ> = Vec::new();
        m.push((lc, rxs, txs));
        proof {
            assert(m@.subrange(0, old(m)@.len() as int) =~= old(m)@);
            assert(m@.last().1@ =~= seq![rxq]);
        }
    }
}

/// Append a transmit queue to `lc`'s entry, creating the entry if needed.
fn map_push_tx(m: &mut Vec<CoreQueues>, lc: LCoreId, txq: TxQ)
    requires
        forall|e1: int, e2: int|
            0 <= e1 < e2 < old(m)@.len() ==> (#[trigger] old(m)@[e1]).0 != (
            #[trigger] old(m)@[e2]).0,
    ensures
        (exists|e: int| 0 <= e < old(m)@.len() && (#[trigger] old(m)@[e]).0 == lc) ==> {
            &&& final(m)@.len() == old(m)@.len()
            &&& forall|e: int|
                0 <= e < old(m)@.len() ==> {
                    &&& (#[trigger] final(m)@[e]).0 == old(m)@[e].0
                    &&& final(m)@[e].1 == old(m)@[e].1
                    &&& (old(m)@[e].0 == lc ==> final(m)@[e].2@ == old(m)@[e].2@.push(txq))
                    &&& (old(m)@[e].0 != lc ==> final(m)@[e].2 == old(m)@[e].2)
                }
        },
        !(exists|e: int| 0 <= e < old(m)@.len() && (#[trigger] old(m)@[e]).0 == lc) ==> {
            &&& final(m)@.len() == old(m)@.len() + 1
            &&& final(m)@.subrange(0, old(m)@.len() as int) == old(m)@
            &&& final(m)@.last().0 == lc
            &&& final(m)@.last().1@.len() == 0
            &&& final(m)@.last().2@ == seq![txq]
        },
{
    let n = m.len();
    let mut found: usize = n;
    let mut e: usize = 0;
    while e < n
        invariant
            e <= n,
            n == m@.len(),
            m@ == old(m)@,
            found == n || (found < e && m@[found as int].0 == lc),
            forall|t: int| 0 <= t < e && m@[t].0 == lc ==> found < n,
        decreases n - e,
    {
        if found == n && m[e].0 == lc {
            found = e;
        }
        e = e + 1;
    }
    if found < n {
        let (k, rxs, mut txs) = m.remove(found);
        txs.push(txq);
        m.insert(found, (k, rxs, txs));
        proof {
            assert(m@.len() == old(m)@.len());
            assert forall|t: int|
                0 <= t < old(m)@.len() && t != found implies #[trigger] m@[t] == old(m)@[t] by {
                if t > found {
                    assert(m@[t] == old(m)@.remove(found as int)[t - 1]);
                }
            }
            assert(m@[found as int].0 == old(m)@[found as int].0);
            assert(m@[found as int].2@ == old(m)@[found as int].2@.push(txq));
            assert(m@[found as int].1 == old(m)@[found as int].1);
        }
    } else {
        let rxs: Vec<RxQ> = Vec::new();
        let mut txs: Vec<TxQ> = Vec::new();
        txs.push(txq);
        m.push((lc, rxs, txs));
        proof {
            assert(m@.subrange(0, old(m)@.len() as int) =~= old(m)@);
            assert(m@.last().2@ =~= seq![txq]);
        }
    }
}

/// Adding queues keeps every planned queue that was already present.
proof fn lemma_queue_presence_monotone(pre: Seq<CoreQueues>, post: Seq<CoreQueues>)
    requires
        pre.len() <= post.len(),
        forall|e: int|
            0 <= e < pre.len() ==> {
                &&& (#[trigger] post[e]).1@.len() >= pre[e].1@.len()
                &&& (#[trigger] post[e]).2@.len() >= pre[e].2@.len()
                &&& forall|j: int| 0 <= j < pre[e].1@.len() ==> post[e].1@[j] == pre[e].1@[j]
                &&& forall|j: int| 0 <= j < pre[e].2@.len() ==> post[e].2@[j] == pre[e].2@[j]
            },
    ensures
        forall|pi: int, q: int| has_rx_queue(pre, pi, q) ==> #[trigger] has_rx_queue(post, pi, q),
        forall|pi: int, q: int| has_tx_queue(pre, pi, q) ==> #[trigger] has_tx_queue(post, pi, q),
{
    assert forall|pi: int, q: int| has_rx_queue(pre, pi, q) implies #[trigger] has_rx_queue(
        post,
        pi,
        q,
    ) by {
        let (e, j) = choose|e: int, j: int|
            0 <= e < pre.len() && 0 <= j < pre[e].1@.len() && pre[e].1@[j].port.port_idx == pi
                && pre[e].1@[j].queue_id == q;
        assert(post[e].1@[j] == pre[e].1@[j]);
        assert(0 <= e < post.len() && 0 <= j < post[e].1@.len() && post[e].1@[j].port.port_idx
            == pi && post[e].1@[j].queue_id == q);
    }
    assert forall|pi: int, q: int| has_tx_queue(pre, pi, q) implies #[trigger] has_tx_queue(
        post,
        pi,
        q,
    ) by {
        let (e, j) = choose|e: int, j: int|
            0 <= e < pre.len() && 0 <= j < pre[e].2@.len() && pre[e].2@[j].port.port_idx == pi
                && pre[e].2@[j].queue_id == q;
        assert(post[e].2@[j] == pre[e].2@[j]);
        assert(0 <= e < post.len() && 0 <= j < post[e].2@.len() && post[e].2@[j].port.port_idx
            == pi && post[e].2@[j].queue_id == q);
    }
}

/// For all affinity policies, the cores of the returned mapping — the
/// union of all receive and transmit assignments — were all reported
/// enabled at the time of the call.
pub proof fn lemma_setup_cores_enabled(
    m: Seq<CoreQueues>,
    old_cap: CapState,
    new_pools: Seq<PoolNative>,
    rx_aff: Affinity,
    tx_aff: Affinity,
)
    requires
        setup_result_ok(m, old_cap, new_pools, rx_aff, tx_aff),
    ensures
        forall|e: int| 0 <= e < m.len() ==> is_enabled_core(old_cap.cores@, (#[trigger] m[e]).0),
{
}

/// Under `Numa` affinity, every queue assigned to a core belongs to a port
/// whose NUMA node equals that core's NUMA node.
pub proof fn lemma_numa_assignment_local(
    m: Seq<CoreQueues>,
    old_cap: CapState,
    new_pools: Seq<PoolNative>,
)
    requires
        setup_result_ok(m, old_cap, new_pools, Affinity::Numa, Affinity::Numa),
        forall|c1: int, c2: int|
            0 <= c1 < c2 < old_cap.cores@.len() ==> (#[trigger] old_cap.cores@[c1]).lcore != (
            #[trigger] old_cap.cores@[c2]).lcore,
    ensures
        forall|e: int, j: int, c: int|
            0 <= e < m.len() && 0 <= j < m[e].1@.len() && 0 <= c < old_cap.cores@.len()
                && (#[trigger] old_cap.cores@[c]).lcore == (#[trigger] m[e]).0
                ==> old_cap.cores@[c].socket == old_cap.ports@[(#[trigger] m[e].1@[j]).port.port_idx as int].socket,
        forall|e: int, j: int, c: int|
            0 <= e < m.len() && 0 <= j < m[e].2@.len() && 0 <= c < old_cap.cores@.len()
                && (#[trigger] old_cap.cores@[c]).lcore == (#[trigger] m[e]).0
                ==> old_cap.cores@[c].socket == old_cap.ports@[(#[trigger] m[e].2@[j]).port.port_idx as int].socket,
{
    assert forall|e: int, j: int, c: int|
        0 <= e < m.len() && 0 <= j < m[e].1@.len() && 0 <= c < old_cap.cores@.len()
            && (#[trigger] old_cap.cores@[c]).lcore == (#[trigger] m[e]).0 implies
        old_cap.cores@[c].socket == old_cap.ports@[(#[trigger] m[e].1@[j]).port.port_idx as int].socket by {
        let rxq = m[e].1@[j];
        assert(rx_entry_ok(old_cap, new_pools, Affinity::Numa, rxq, m[e].0));
        let p = old_cap.ports@[rxq.port.port_idx as int];
        lemma_candidates_sound(old_cap.cores@, Affinity::Numa, p.socket);
        let cand = candidate_cores(old_cap.cores@, Affinity::Numa, p.socket);
        let cc = cand[rxq.queue_id as int];
        let i = choose|i: int| 0 <= i < old_cap.cores@.len() && old_cap.cores@[i] == cc;
        assert(old_cap.cores@[i].lcore == m[e].0);
        if i != c {
            assert(old_cap.cores@[i].lcore != old_cap.cores@[c].lcore);
        }
    }
    assert forall|e: int, j: int, c: int|
        0 <= e < m.len() && 0 <= j < m[e].2@.len() && 0 <= c < old_cap.cores@.len()
            && (#[trigger] old_cap.cores@[c]).lcore == (#[trigger] m[e]).0 implies
        old_cap.cores@[c].socket == old_cap.ports@[(#[trigger] m[e].2@[j]).port.port_idx as int].socket by {
        let txq = m[e].2@[j];
        assert(tx_entry_ok(old_cap, Affinity::Numa, txq, m[e].0));
        let p = old_cap.ports@[txq.port.port_idx as int];
        lemma_candidates_sound(old_cap.cores@, Affinity::Numa, p.socket);
        let cand = candidate_cores(old_cap.cores@, Affinity::Numa, p.socket);
        let cc = cand[txq.queue_id as int];
        let i = choose|i: int| 0 <= i < old_cap.cores@.len() && old_cap.cores@[i] == cc;
        assert(old_cap.cores@[i].lcore == m[e].0);
        if i != c {
            assert(old_cap.cores@[i].lcore != old_cap.cores@[c].lcore);
        }
    }
}

/// Processing one more port adds exactly its candidate count of queues.
proof fn lemma_rx_total_step(cores: Seq<CoreHw>, ports: Seq<PortHw>, aff: Affinity, i: int)
    requires
        0 <= i < ports.len(),
    ensures
        rx_queue_total(cores, ports.take(i + 1), aff) == rx_queue_total(
            cores,
            ports.take(i),
            aff,
        ) + candidate_cores(cores, aff, ports[i].socket).len(),
{
    assert(ports.take(i + 1).drop_last() =~= ports.take(i));
    assert(ports.take(i + 1).last() == ports[i]);
}

/// A prefix of the ports never plans more queues than the whole list.
proof fn lemma_rx_total_mono(cores: Seq<CoreHw>, ports: Seq<PortHw>, aff: Affinity, i: int)
    requires
        0 <= i <= ports.len(),
    ensures
        rx_queue_total(cores, ports.take(i), aff) <= rx_queue_total(cores, ports, aff),
    decreases ports.len() - i,
{
    if i < ports.len() {
        lemma_rx_total_step(cores, ports, aff, i);
        lemma_rx_total_mono(cores, ports, aff, i + 1);
    } else {
        assert(ports.take(i) =~= ports);
    }
}

/// Check at run time everything `setup` requires of the state.
///
/// A caller that cannot establish the configuration ahead of time tests it
/// with this and treats a `false` as the deployment error it is.
pub fn setup_supported(cap: &CapState, rx_aff: Affinity, tx_aff: Affinity) -> (r: bool)
    ensures
        r == setup_ok(*cap, rx_aff, tx_aff),
{
    let nports = cap.ports.len();
    if u64::MAX - cap.next_owner < nports as u64 {
        assert(!setup_ok(*cap, rx_aff, tx_aff));
        return false;
    }
    let npools = cap.pools.len();
    let mut i: usize = 0;
    while i < npools
        invariant
            i <= npools,
            npools == cap.pools@.len(),
            forall|t: int|
                0 <= t < i ==> (#[trigger] cap.pools@[t]).tag < DEDICATED_POOL_TAG_BASE,
        decreases npools - i,
    {
        if cap.pools[i].tag >= DEDICATED_POOL_TAG_BASE {
            assert(!setup_ok(*cap, rx_aff, tx_aff));
            return false;
        }
        i = i + 1;
    }
    let mut a: usize = 0;
    while a < nports
        invariant
            a <= nports,
            nports == cap.ports@.len(),
            forall|x: int, y: int|
                0 <= x < y < cap.ports@.len() && x < a ==> (#[trigger] cap.ports@[x]).port_id
                    != (#[trigger] cap.ports@[y]).port_id,
        decreases nports - a,
    {
        let mut b: usize = a + 1;
        while b < nports
            invariant
                a < b <= nports,
                a < nports,
                nports == cap.ports@.len(),
                forall|y: int|
                    a < y < b ==> cap.ports@[a as int].port_id != (
                    #[trigger] cap.ports@[y]).port_id,
            decreases nports - b,
        {
            if cap.ports[a].port_id == cap.ports[b].port_id {
                assert(!setup_ok(*cap, rx_aff, tx_aff));
                return false;
            }
            b = b + 1;
        }
        a = a + 1;
    }
    if npools as u64 >= DEDICATED_POOL_TAG_BASE {
        assert(!setup_ok(*cap, rx_aff, tx_aff));
        return false;
    }
    proof {
        assert(cap.ports@.take(0) =~= Seq::<PortHw>::empty());
    }
    let mut total: u64 = npools as u64;
    let mut pi: usize = 0;
    while pi < nports
        invariant
            pi <= nports,
            nports == cap.ports@.len(),
            npools == cap.pools@.len(),
            forall|j: int|
                0 <= j < pi ==> port_setup_ok(cap.cores@, #[trigger] cap.ports@[j], rx_aff, tx_aff),
            total == cap.pools@.len() + rx_queue_total(
                cap.cores@,
                cap.ports@.take(pi as int),
                rx_aff,
            ),
            total < DEDICATED_POOL_TAG_BASE,
        decreases nports - pi,
    {
        let socket = cap.ports[pi].socket;
        let rx_cand = crate::plan::compute_candidates(&cap.cores, rx_aff, socket);
        let tx_cand = crate::plan::compute_candidates(&cap.cores, tx_aff, socket);
        let limits_hold = rx_cand.len() <= cap.ports[pi].max_rx_queues as usize
            && tx_cand.len() <= cap.ports[pi].max_tx_queues as usize
            && cap.ports[pi].rx_desc_lim.nb_min <= crate::DEFAULT_RX_DESC
            && crate::DEFAULT_RX_DESC <= cap.ports[pi].rx_desc_lim.nb_max
            && cap.ports[pi].rx_desc_lim.nb_align > 0
            && crate::DEFAULT_RX_DESC % cap.ports[pi].rx_desc_lim.nb_align == 0
            && cap.ports[pi].tx_desc_lim.nb_min <= crate::DEFAULT_TX_DESC
            && crate::DEFAULT_TX_DESC <= cap.ports[pi].tx_desc_lim.nb_max
            && cap.ports[pi].tx_desc_lim.nb_align > 0
            && crate::DEFAULT_TX_DESC % cap.ports[pi].tx_desc_lim.nb_align == 0;
        if !limits_hold {
            assert(!port_setup_ok(cap.cores@, cap.ports@[pi as int], rx_aff, tx_aff));
            assert(!setup_ok(*cap, rx_aff, tx_aff));
            return false;
        }
        proof {
            lemma_rx_total_step(cap.cores@, cap.ports@, rx_aff, pi as int);
        }
        let add = rx_cand.len() as u64;
        if add >= DEDICATED_POOL_TAG_BASE - total {
            proof {
                lemma_rx_total_mono(cap.cores@, cap.ports@, rx_aff, pi + 1);
            }
            assert(!setup_ok(*cap, rx_aff, tx_aff));
            return false;
        }
        total = total + add;
        pi = pi + 1;
    }
    proof {
        assert(cap.ports@.take(nports as int) =~= cap.ports@);
    }
    true
}

impl Eal {
    /// Create a new pool.
    ///
    /// The name must be unused in the native namespace — a collision is a
    /// programmer error — and below the range setup reserves for dedicated
    /// receive pools.
    pub fn create_mpool(
        &self,
        cap: &mut CapState,
        tag: u64,
        n: usize,
        cache_size: usize,
        data_room: usize,
        socket_id: Option<crate::ids::SocketId>,
    ) -> (r: MPool)
        requires
            old(cap).wf(),
            old(cap).tag_free(tag),
            data_room >= crate::DEFAULT_HEADROOM,
        ensures
            final(cap).wf(),
            r.pool == old(cap).pools@.len(),
            final(cap).pools@ == old(cap).pools@.push(
                PoolNative {
                    tag,
                    capacity: n,
                    cache_size,
                    data_room,
                    socket: socket_id,
                    outstanding: 0,
                    released: false,
                },
            ),
            r.valid(*final(cap)),
            final(cap).cores == old(cap).cores,
            final(cap).ports == old(cap).ports,
            final(cap).next_owner == old(cap).next_owner,
    {
        let idx = cap.create_pool(tag, n, cache_size, data_room, socket_id);
        MPool { pool: idx }
    }

    /// Set up per-core receive and transmit queues according to the given
    /// affinity policies.
    ///
    /// This must run once for the whole program: a second call returns
    /// `AlreadyInitialized` and performs no hardware configuration.  On
    /// success every valid port is owned, configured and started, each
    /// receive queue has a dedicated fresh pool on its port's node, and the
    /// returned mapping assigns each port's queues to the planner's
    /// candidate cores, the Nth candidate receiving queue index N.
    pub fn setup(
        &mut self,
        cap: &mut CapState,
        rx_affinity: Affinity,
        tx_affinity: Affinity,
    ) -> (r: Result<Vec<CoreQueues>, ErrorCode>)
        requires
            old(cap).wf(),
            !old(self).setup_done ==> setup_ok(*old(cap), rx_affinity, tx_affinity),
        ensures
            final(cap).wf(),
            old(self).setup_done ==> {
                &&& r == Result::<Vec<CoreQueues>, ErrorCode>::Err(ErrorCode::AlreadyInitialized)
                &&& *final(cap) == *old(cap)
                &&& *final(self) == *old(self)
            },
            !old(self).setup_done ==> {
                &&& r is Ok
                &&& final(self).setup_done
                &&& final(self).garbage == old(self).garbage
                &&& final(cap).cores == old(cap).cores
                &&& final(cap).next_owner == old(cap).next_owner + old(cap).ports@.len()
                &&& final(cap).ports@.len() == old(cap).ports@.len()
                &&& forall|j: int|
                    0 <= j < old(cap).ports@.len() ==> #[trigger] final(cap).ports@[j]
                        == configured_port(
                        old(cap).ports@[j],
                        old(cap).cores@,
                        rx_affinity,
                        tx_affinity,
                        (old(cap).next_owner + j) as u64,
                    )
                &&& final(cap).pools@.len() == old(cap).pools@.len() + rx_queue_total(
                    old(cap).cores@,
                    old(cap).ports@,
                    rx_affinity,
                )
                &&& final(cap).pools@.subrange(0, old(cap).pools@.len() as int) == old(cap).pools@
                &&& forall|t: int|
                    old(cap).pools@.len() <= t < final(cap).pools@.len()
                        ==> (#[trigger] final(cap).pools@[t]).outstanding == 0
                        && !final(cap).pools@[t].released
                &&& (r matches Ok(m) ==> setup_result_ok(
                    m@,
                    *old(cap),
                    final(cap).pools@,
                    rx_affinity,
                    tx_affinity,
                ))
            },
    {
        if self.setup_done {
            return Err(ErrorCode::AlreadyInitialized);
        }
        let ghost old_cap = *old(cap);
        let ghost oc = old_cap.cores@;
        let ghost op = old_cap.ports@;
        let ghost old_plen = old_cap.pools@.len() as int;
        let nports = cap.ports.len();
        let mut m: Vec<CoreQueues> = Vec::new();
        proof {
            assert(op.take(0) =~= Seq::<PortHw>::empty());
            assert(cap.pools@.subrange(0, old_plen) =~= old_cap.pools@);
        }
        let mut pi: usize = 0;
        while pi < nports
            invariant
                pi <= nports,
                nports == op.len(),
                old_cap == *old(cap),
                oc == old_cap.cores@,
                op == old_cap.ports@,
                old_plen == old_cap.pools@.len() as int,
                old_cap.wf(),
                setup_ok(old_cap, rx_affinity, tx_affinity),
                *self == *old(self),
                !self.setup_done,
                cap.cores == old_cap.cores,
                cap.next_owner == old_cap.next_owner + pi,
                cap.ports@.len() == op.len(),
                forall|j: int| pi <= j < op.len() ==> #[trigger] cap.ports@[j] == op[j],
                forall|j: int|
                    0 <= j < pi ==> #[trigger] cap.ports@[j] == configured_port(
                        op[j],
                        oc,
                        rx_affinity,
                        tx_affinity,
                        (old_cap.next_owner + j) as u64,
                    ),
                cap.pools@.len() == old_plen + rx_queue_total(oc, op.take(pi as int), rx_affinity),
                cap.pools@.subrange(0, old_plen) == old_cap.pools@,
                forall|t: int|
                    old_plen <= t < cap.pools@.len() ==> {
                        &&& (#[trigger] cap.pools@[t]).tag == DEDICATED_POOL_TAG_BASE + t
                        &&& cap.pools@[t].capacity == DEFAULT_RX_POOL_SIZE
                        &&& cap.pools@[t].cache_size == DEFAULT_RX_PER_CORE_CACHE
                        &&& cap.pools@[t].data_room == DEFAULT_PACKET_DATA_LENGTH
                        &&& cap.pools@[t].outstanding == 0
                        &&& !cap.pools@[t].released
                    },
                forall|e1: int, e2: int|
                    0 <= e1 < e2 < m@.len() ==> (#[trigger] m@[e1]).0 != (#[trigger] m@[e2]).0,
                forall|e: int| 0 <= e < m@.len() ==> is_enabled_core(oc, (#[trigger] m@[e]).0),
                forall|e: int, j: int|
                    0 <= e < m@.len() && 0 <= j < m@[e].1@.len() ==> rx_entry_ok(
                        old_cap,
                        cap.pools@,
                        rx_affinity,
                        #[trigger] m@[e].1@[j],
                        m@[e].0,
                    ),
                forall|e: int, j: int|
                    0 <= e < m@.len() && 0 <= j < m@[e].2@.len() ==> tx_entry_ok(
                        old_cap,
                        tx_affinity,
                        #[trigger] m@[e].2@[j],
                        m@[e].0,
                    ),
                forall|pj: int, q: int|
                    0 <= pj < pi && 0 <= q < candidate_cores(oc, rx_affinity, op[pj].socket).len()
                        ==> #[trigger] has_rx_queue(m@, pj, q),
                forall|pj: int, q: int|
                    0 <= pj < pi && 0 <= q < candidate_cores(oc, tx_affinity, op[pj].socket).len()
                        ==> #[trigger] has_tx_queue(m@, pj, q),
                cap.wf(),
            decreases nports - pi,
        {
            let owner_id = cap.next_owner;
            cap.next_owner = owner_id + 1;
            cap.ports[pi].owner = Some(owner_id);
            let socket = cap.ports[pi].socket;
            let port_id = cap.ports[pi].port_id;
            let rx_cores = crate::plan::compute_candidates(&cap.cores, rx_affinity, socket);
            let tx_cores = crate::plan::compute_candidates(&cap.cores, tx_affinity, socket);
            let n_rx = rx_cores.len();
            let n_tx = tx_cores.len();
            proof {
                assert(port_setup_ok(oc, op[pi as int], rx_affinity, tx_affinity));
                assert(n_rx <= op[pi as int].max_rx_queues);
                assert(n_tx <= op[pi as int].max_tx_queues);
            }
            let rss = n_rx > 1;
            let capa_rx = cap.ports[pi].rx_offload_capa;
            let rxo: u64 = if capa_rx & RX_OFFLOAD_CHECKSUM != 0 {
                RX_OFFLOAD_CHECKSUM
            } else {
                0
            };
            let capa_tx = cap.ports[pi].tx_offload_capa;
            let txo: u64 = (if capa_tx & TX_OFFLOAD_IPV4_CKSUM != 0 {
                TX_OFFLOAD_IPV4_CKSUM
            } else {
                0
            }) | (if capa_tx & TX_OFFLOAD_UDP_CKSUM != 0 {
                TX_OFFLOAD_UDP_CKSUM
            } else {
                0
            }) | (if capa_tx & TX_OFFLOAD_TCP_CKSUM != 0 {
                TX_OFFLOAD_TCP_CKSUM
            } else {
                0
            });
            cap.ports[pi].configured = true;
            cap.ports[pi].rss_enabled = rss;
            cap.ports[pi].n_rxq = n_rx as u16;
            cap.ports[pi].n_txq = n_tx as u16;
            cap.ports[pi].rx_offloads = rxo;
            cap.ports[pi].tx_offloads = txo;
            let ghost mid_port = cap.ports@[pi as int];
            let port = Port {
                port_id,
                port_idx: pi,
                socket,
                owner_id,
                has_stats_reset: cap.ports[pi].stats_reset_supported,
                prev_stat: PortStat::zeroed(),
            };
            proof {
                lemma_candidates_sound(oc, rx_affinity, op[pi as int].socket);
                lemma_candidates_sound(oc, tx_affinity, op[pi as int].socket);
                lemma_rx_total_step(oc, op, rx_affinity, pi as int);
                lemma_rx_total_mono(oc, op, rx_affinity, pi + 1);
            }
            let mut q: usize = 0;
            while q < n_rx
                invariant
                    q <= n_rx,
                    pi < nports,
                    nports == op.len(),
                    old_cap == *old(cap),
                    oc == old_cap.cores@,
                    op == old_cap.ports@,
                    old_plen == old_cap.pools@.len() as int,
                    old_cap.wf(),
                    setup_ok(old_cap, rx_affinity, tx_affinity),
                    *self == *old(self),
                    !self.setup_done,
                    cap.cores == old_cap.cores,
                    cap.next_owner == old_cap.next_owner + pi + 1,
                    cap.ports@.len() == op.len(),
                    forall|j: int| pi < j < op.len() ==> #[trigger] cap.ports@[j] == op[j],
                    forall|j: int|
                        0 <= j < pi ==> #[trigger] cap.ports@[j] == configured_port(
                            op[j],
                            oc,
                            rx_affinity,
                            tx_affinity,
                            (old_cap.next_owner + j) as u64,
                        ),
                    cap.ports@[pi as int] == mid_port,
                    mid_port.socket == op[pi as int].socket,
                    rx_cores@ == candidate_cores(oc, rx_affinity, op[pi as int].socket),
                    tx_cores@ == candidate_cores(oc, tx_affinity, op[pi as int].socket),
                    n_rx == rx_cores@.len(),
                    n_tx == tx_cores@.len(),
                    n_rx <= 0xffff,
                    n_tx <= 0xffff,
                    port.port_id == op[pi as int].port_id,
                    port.port_idx == pi,
                    port.socket == op[pi as int].socket,
                    port.owner_id == old_cap.next_owner + pi,
                    port.has_stats_reset == op[pi as int].stats_reset_supported,
                    port.prev_stat == zero_stat(),
                    socket == op[pi as int].socket,
                    cap.pools@.len() == old_plen + rx_queue_total(
                        oc,
                        op.take(pi as int),
                        rx_affinity,
                    ) + q,
                    cap.pools@.len() + (n_rx - q) <= old_plen + rx_queue_total(
                        oc,
                        op,
                        rx_affinity,
                    ),
                    cap.pools@.subrange(0, old_plen) == old_cap.pools@,
                    forall|t: int|
                        old_plen <= t < cap.pools@.len() ==> {
                            &&& (#[trigger] cap.pools@[t]).tag == DEDICATED_POOL_TAG_BASE + t
                            &&& cap.pools@[t].capacity == DEFAULT_RX_POOL_SIZE
                            &&& cap.pools@[t].cache_size == DEFAULT_RX_PER_CORE_CACHE
                            &&& cap.pools@[t].data_room == DEFAULT_PACKET_DATA_LENGTH
                            &&& cap.pools@[t].outstanding == 0
                            &&& !cap.pools@[t].released
                        },
                    forall|e1: int, e2: int|
                        0 <= e1 < e2 < m@.len() ==> (#[trigger] m@[e1]).0 != (
                        #[trigger] m@[e2]).0,
                    forall|e: int| 0 <= e < m@.len() ==> is_enabled_core(oc, (#[trigger] m@[e]).0),
                    forall|e: int, j: int|
                        0 <= e < m@.len() && 0 <= j < m@[e].1@.len() ==> rx_entry_ok(
                            old_cap,
                            cap.pools@,
                            rx_affinity,
                            #[trigger] m@[e].1@[j],
                            m@[e].0,
                        ),
                    forall|e: int, j: int|
                        0 <= e < m@.len() && 0 <= j < m@[e].2@.len() ==> tx_entry_ok(
                            old_cap,
                            tx_affinity,
                            #[trigger] m@[e].2@[j],
                            m@[e].0,
                        ),
                    forall|pj: int, q2: int|
                        0 <= pj < pi && 0 <= q2 < candidate_cores(
                            oc,
                            rx_affinity,
                            op[pj].socket,
                        ).len() ==> #[trigger] has_rx_queue(m@, pj, q2),
                    forall|pj: int, q2: int|
                        0 <= pj < pi && 0 <= q2 < candidate_cores(
                            oc,
                            tx_affinity,
                            op[pj].socket,
                        ).len() ==> #[trigger] has_tx_queue(m@, pj, q2),
                    forall|q2: int| 0 <= q2 < q ==> #[trigger] has_rx_queue(m@, pi as int, q2),
                    cap.wf(),
                decreases n_rx - q,
            {
                let pool_idx = cap.pools.len();
                proof {
                    assert(pool_idx < DEDICATED_POOL_TAG_BASE);
                    assert forall|t: int|
                        0 <= t < cap.pools@.len() implies (#[trigger] cap.pools@[t]).tag
                        != DEDICATED_POOL_TAG_BASE + pool_idx by {
                        if t < old_plen {
                            assert(cap.pools@[t] == old_cap.pools@[t]);
                        }
                    }
                }
                let tag = DEDICATED_POOL_TAG_BASE + (pool_idx as u64);
                let ghost cap_pre = *cap;
                let ghost m_pre = m@;
                let new_pool = cap.create_pool(
                    tag,
                    DEFAULT_RX_POOL_SIZE,
                    DEFAULT_RX_PER_CORE_CACHE,
                    DEFAULT_PACKET_DATA_LENGTH,
                    Some(socket),
                );
                let rxq = RxQ { queue_id: q as u16, port, pool: MPool { pool: new_pool } };
                let lc = rx_cores[q].lcore;
                proof {
                    assert(rx_entry_ok(old_cap, cap.pools@, rx_affinity, rxq, lc));
                    assert forall|e: int, j: int|
                        0 <= e < m@.len() && 0 <= j < m@[e].1@.len() implies rx_entry_ok(
                        old_cap,
                        cap.pools@,
                        rx_affinity,
                        #[trigger] m@[e].1@[j],
                        m@[e].0,
                    ) by {
                        assert(rx_entry_ok(
                            old_cap,
                            cap_pre.pools@,
                            rx_affinity,
                            m@[e].1@[j],
                            m@[e].0,
                        ));
                        assert(cap.pools@[m@[e].1@[j].pool.pool as int]
                            == cap_pre.pools@[m@[e].1@[j].pool.pool as int]);
                    }
                }
                map_push_rx(&mut m, lc, rxq);
                proof {
                    lemma_candidates_sound(oc, rx_affinity, op[pi as int].socket);
                    let ghost existing = exists|e: int|
                        0 <= e < m_pre.len() && (#[trigger] m_pre[e]).0 == lc;
                    lemma_queue_presence_monotone(m_pre, m@);
                    if existing {
                        let e0 = choose|e0: int|
                            0 <= e0 < m_pre.len() && (#[trigger] m_pre[e0]).0 == lc;
                        assert(m@[e0].1@ == m_pre[e0].1@.push(rxq));
                        assert(m@[e0].1@[m_pre[e0].1@.len() as int] == rxq);
                        assert(has_rx_queue(m@, pi as int, q as int));
                        assert forall|e: int, j: int|
                            0 <= e < m@.len() && 0 <= j < m@[e].1@.len() implies rx_entry_ok(
                            old_cap,
                            cap.pools@,
                            rx_affinity,
                            #[trigger] m@[e].1@[j],
                            m@[e].0,
                        ) by {
                            if m_pre[e].0 == lc && j == m_pre[e].1@.len() {
                                assert(m@[e].1@[j] == rxq);
                            } else {
                                assert(m@[e].1@[j] == m_pre[e].1@[j]);
                            }
                        }
                    } else {
                        assert(m@.last().1@[0] == rxq);
                        assert(has_rx_queue(m@, pi as int, q as int));
                        assert forall|e: int, j: int|
                            0 <= e < m@.len() && 0 <= j < m@[e].1@.len() implies rx_entry_ok(
                            old_cap,
                            cap.pools@,
                            rx_affinity,
                            #[trigger] m@[e].1@[j],
                            m@[e].0,
                        ) by {
                            if e < m_pre.len() {
                                assert(m@[e] == m_pre[e]);
                            } else {
                                assert(m@[e].1@[j] == rxq);
                            }
                        }
                        assert forall|e1: int, e2: int|
                            0 <= e1 < e2 < m@.len() implies (#[trigger] m@[e1]).0 != (
                        #[trigger] m@[e2]).0 by {
                            if e2 == m@.len() - 1 {
                                assert(m@[e1] == m_pre[e1]);
                            } else {
                                assert(m@[e1] == m_pre[e1]);
                                assert(m@[e2] == m_pre[e2]);
                            }
                        }
                    }
                    assert forall|e: int, j: int|
                        0 <= e < m@.len() && 0 <= j < m@[e].2@.len() implies tx_entry_ok(
                        old_cap,
                        tx_affinity,
                        #[trigger] m@[e].2@[j],
                        m@[e].0,
                    ) by {
                        if e < m_pre.len() {
                            assert(m@[e].2 == m_pre[e].2 && m@[e].0 == m_pre[e].0);
                        } else {
                            assert(m@[e].2@.len() == 0);
                        }
                    }
                    assert forall|e: int| 0 <= e < m@.len() implies is_enabled_core(
                        oc,
                        (#[trigger] m@[e]).0,
                    ) by {
                        if e < m_pre.len() {
                            assert(m@[e].0 == m_pre[e].0);
                        } else {
                            assert(m@[e].0 == lc);
                        }
                    }
                }
                q = q + 1;
            }
            let mut q: usize = 0;
            while q < n_tx
                invariant
                    q <= n_tx,
                    pi < nports,
                    nports == op.len(),
                    old_cap == *old(cap),
                    oc == old_cap.cores@,
                    op == old_cap.ports@,
                    old_plen == old_cap.pools@.len() as int,
                    old_cap.wf(),
                    setup_ok(old_cap, rx_affinity, tx_affinity),
                    *self == *old(self),
                    !self.setup_done,
                    cap.cores == old_cap.cores,
                    cap.next_owner == old_cap.next_owner + pi + 1,
                    cap.ports@.len() == op.len(),
                    forall|j: int| pi < j < op.len() ==> #[trigger] cap.ports@[j] == op[j],
                    forall|j: int|
                        0 <= j < pi ==> #[trigger] cap.ports@[j] == configured_port(
                            op[j],
                            oc,
                            rx_affinity,
                            tx_affinity,
                            (old_cap.next_owner + j) as u64,
                        ),
                    cap.ports@[pi as int] == mid_port,
                    mid_port.socket == op[pi as int].socket,
                    tx_cores@ == candidate_cores(oc, tx_affinity, op[pi as int].socket),
                    n_tx == tx_cores@.len(),
                    n_tx <= 0xffff,
                    port.port_id == op[pi as int].port_id,
                    port.port_idx == pi,
                    port.socket == op[pi as int].socket,
                    port.owner_id == old_cap.next_owner + pi,
                    port.has_stats_reset == op[pi as int].stats_reset_supported,
                    port.prev_stat == zero_stat(),
                    cap.pools@.len() == old_plen + rx_queue_total(
                        oc,
                        op.take(pi + 1),
                        rx_affinity,
                    ),
                    cap.pools@.subrange(0, old_plen) == old_cap.pools@,
                    forall|t: int|
                        old_plen <= t < cap.pools@.len() ==> {
                            &&& (#[trigger] cap.pools@[t]).tag == DEDICATED_POOL_TAG_BASE + t
                            &&& cap.pools@[t].capacity == DEFAULT_RX_POOL_SIZE
                            &&& cap.pools@[t].cache_size == DEFAULT_RX_PER_CORE_CACHE
                            &&& cap.pools@[t].data_room == DEFAULT_PACKET_DATA_LENGTH
                            &&& cap.pools@[t].outstanding == 0
                            &&& !cap.pools@[t].released
                        },
                    forall|e1: int, e2: int|
                        0 <= e1 < e2 < m@.len() ==> (#[trigger] m@[e1]).0 != (
                        #[trigger] m@[e2]).0,
                    forall|e: int| 0 <= e < m@.len() ==> is_enabled_core(oc, (#[trigger] m@[e]).0),
                    forall|e: int, j: int|
                        0 <= e < m@.len() && 0 <= j < m@[e].1@.len() ==> rx_entry_ok(
                            old_cap,
                            cap.pools@,
                            rx_affinity,
                            #[trigger] m@[e].1@[j],
                            m@[e].0,
                        ),
                    forall|e: int, j: int|
                        0 <= e < m@.len() && 0 <= j < m@[e].2@.len() ==> tx_entry_ok(
                            old_cap,
                            tx_affinity,
                            #[trigger] m@[e].2@[j],
                            m@[e].0,
                        ),
                    forall|pj: int, q2: int|
                        0 <= pj < pi && 0 <= q2 < candidate_cores(
                            oc,
                            rx_affinity,
                            op[pj].socket,
                        ).len() ==> #[trigger] has_rx_queue(m@, pj, q2),
                    forall|pj: int, q2: int|
                        0 <= pj < pi && 0 <= q2 < candidate_cores(
                            oc,
                            tx_affinity,
                            op[pj].socket,
                        ).len() ==> #[trigger] has_tx_queue(m@, pj, q2),
                    forall|q2: int|
                        0 <= q2 < candidate_cores(oc, rx_affinity, op[pi as int].socket).len()
                            ==> #[trigger] has_rx_queue(m@, pi as int, q2),
                    forall|q2: int| 0 <= q2 < q ==> #[trigger] has_tx_queue(m@, pi as int, q2),
                    cap.wf(),
                decreases n_tx - q,
            {
                let txq = TxQ { queue_id: q as u16, port };
                let lc = tx_cores[q].lcore;
                let ghost m_pre = m@;
                proof {
                    assert(tx_entry_ok(old_cap, tx_affinity, txq, lc));
                }
                map_push_tx(&mut m, lc, txq);
                proof {
                    lemma_candidates_sound(oc, tx_affinity, op[pi as int].socket);
                    let ghost existing = exists|e: int|
                        0 <= e < m_pre.len() && (#[trigger] m_pre[e]).0 == lc;
                    lemma_queue_presence_monotone(m_pre, m@);
                    if existing {
                        let e0 = choose|e0: int|
                            0 <= e0 < m_pre.len() && (#[trigger] m_pre[e0]).0 == lc;
                        assert(m@[e0].2@ == m_pre[e0].2@.push(txq));
                        assert(m@[e0].2@[m_pre[e0].2@.len() as int] == txq);
                        assert(has_tx_queue(m@, pi as int, q as int));
                        assert forall|e: int, j: int|
                            0 <= e < m@.len() && 0 <= j < m@[e].2@.len() implies tx_entry_ok(
                            old_cap,
                            tx_affinity,
                            #[trigger] m@[e].2@[j],
                            m@[e].0,
                        ) by {
                            if m_pre[e].0 == lc && j == m_pre[e].2@.len() {
                                assert(m@[e].2@[j] == txq);
                            } else {
                                assert(m@[e].2@[j] == m_pre[e].2@[j]);
                            }
                        }
                        assert forall|e: int, j: int|
                            0 <= e < m@.len() && 0 <= j < m@[e].1@.len() implies rx_entry_ok(
                            old_cap,
                            cap.pools@,
                            rx_affinity,
                            #[trigger] m@[e].1@[j],
                            m@[e].0,
                        ) by {
                            assert(m@[e].1 == m_pre[e].1 && m@[e].0 == m_pre[e].0);
                        }
                    } else {
                        assert(m@.last().2@[0] == txq);
                        assert(has_tx_queue(m@, pi as int, q as int));
                        assert forall|e: int, j: int|
                            0 <= e < m@.len() && 0 <= j < m@[e].2@.len() implies tx_entry_ok(
                            old_cap,
                            tx_affinity,
                            #[trigger] m@[e].2@[j],
                            m@[e].0,
                        ) by {
                            if e < m_pre.len() {
                                assert(m@[e] == m_pre[e]);
                            } else {
                                assert(m@[e].2@[j] == txq);
                            }
                        }
                        assert forall|e: int, j: int|
                            0 <= e < m@.len() && 0 <= j < m@[e].1@.len() implies rx_entry_ok(
                            old_cap,
                            cap.pools@,
                            rx_affinity,
                            #[trigger] m@[e].1@[j],
                            m@[e].0,
                        ) by {
                            if e < m_pre.len() {
                                assert(m@[e] == m_pre[e]);
                            } else {
                                assert(m@[e].1@.len() == 0);
                            }
                        }
                        assert forall|e1: int, e2: int|
                            0 <= e1 < e2 < m@.len() implies (#[trigger] m@[e1]).0 != (
                        #[trigger] m@[e2]).0 by {
                            if e2 == m@.len() - 1 {
                                assert(m@[e1] == m_pre[e1]);
                            } else {
                                assert(m@[e1] == m_pre[e1]);
                                assert(m@[e2] == m_pre[e2]);
                            }
                        }
                    }
                    assert forall|e: int| 0 <= e < m@.len() implies is_enabled_core(
                        oc,
                        (#[trigger] m@[e]).0,
                    ) by {
                        if e < m_pre.len() {
                            assert(m@[e].0 == m_pre[e].0);
                        } else {
                            assert(m@[e].0 == lc);
                        }
                    }
                }
                q = q + 1;
            }
            cap.ports[pi].promiscuous = DEFAULT_PROMISC;
            cap.ports[pi].started = true;
            if cap.ports[pi].stats_reset_supported {
                cap.ports[pi].raw_stat = PortStat::zeroed();
            }
            proof {
                assert(cap.ports@[pi as int] == configured_port(
                    op[pi as int],
                    oc,
                    rx_affinity,
                    tx_affinity,
                    (old_cap.next_owner + pi) as u64,
                ));
            }
            pi = pi + 1;
        }
        proof {
            assert(op.take(nports as int) =~= op);
        }
        self.setup_done = true;
        Ok(m)
    }
}

} // verus!
