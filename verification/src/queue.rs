//! Receive and transmit queues with burst semantics.
//!
//! A burst call processes up to the buffer's capacity and reports how many
//! packets the hardware actually took; zero is normal backpressure, not an
//! error.  Transmit reconciles the "how many succeeded" answer with
//! per-buffer ownership: accepted packets are consumed by the native layer,
//! the rest are explicitly freed, and the buffer always ends empty.

use vstd::prelude::*;
use crate::burst::Burst;
use crate::cap::{CapState, PoolNative, PortHw};
use crate::eal::Eal;
use crate::packet::Packet;
use crate::pool::MPool;
use crate::port::Port;
use crate::stats::{sat_add, PortStat};
use crate::{DEFAULT_HEADROOM, MAX_FRAME_LEN};

verus! {

/// The smaller of two values.
pub open spec fn spec_min(a: int, b: int) -> int {
    if a < b {
        a
    } else {
        b
    }
}

/// Number of packets in `s` drawn from pool `p`.
pub open spec fn pool_count(s: Seq<Packet>, p: int) -> nat
    decreases s.len(),
{
    if s.len() == 0 {
        0
    } else {
        pool_count(s.drop_first(), p) + (if s[0].pool == p {
            1nat
        } else {
            0nat
        })
    }
}

/// The frames the wire carries when the first `accepted` packets of `s` are
/// transmitted: their data regions, in order, except those larger than the
/// maximum frame length, which the hardware drops.
pub open spec fn sent_frames(s: Seq<Packet>, accepted: int) -> Seq<Seq<u8>>
    decreases s.len(),
{
    if s.len() == 0 || accepted <= 0 {
        Seq::empty()
    } else {
        let rest = sent_frames(s.drop_first(), accepted - 1);
        if s[0].data_len <= MAX_FRAME_LEN {
            seq![s[0].data_spec()] + rest
        } else {
            rest
        }
    }
}

/// The byte sequences of a list of frames.
pub open spec fn frames_view(v: Seq<Vec<u8>>) -> Seq<Seq<u8>> {
    v.map_values(|f: Vec<u8>| f@)
}

/// A packet as the receive path mints it for frame `frame`.
pub open spec fn received_ok(pkt: Packet, pool: int, data_room: int, frame: Seq<u8>) -> bool {
    &&& pkt.pool == pool
    &&& pkt.data_off == DEFAULT_HEADROOM
    &&& pkt.data_len == frame.len()
    &&& pkt.buf@.len() == data_room
    &&& pkt.data_spec() == frame
    &&& pkt.wf()
}

/// A receive queue, bound to one port and queue index; it owns the
/// dedicated pool its packets are allocated from.
#[derive(Debug)]
pub struct RxQ {
    /// The queue index on its port.
    pub queue_id: u16,
    /// The port this queue belongs to.
    pub port: Port,
    /// The dedicated pool backing this queue.
    pub pool: MPool,
}

/// A transmit queue, bound to one port and queue index.  It owns no pool:
/// it transmits buffers allocated elsewhere.
#[derive(Clone, Copy, Debug)]
pub struct TxQ {
    /// The queue index on its port.
    pub queue_id: u16,
    /// The port this queue belongs to.
    pub port: Port,
}

impl RxQ {
    /// The handle agrees with the given state and its pool can hold any
    /// frame the configured hardware lets through.
    pub open spec fn valid(self, cap: CapState) -> bool {
        &&& self.port.valid(cap)
        &&& self.pool.valid(cap)
        &&& cap.pools@[self.pool.pool as int].data_room >= DEFAULT_HEADROOM + MAX_FRAME_LEN
    }

    /// How many packets the next receive call takes: bounded by the
    /// buffer's remaining capacity, the frames waiting on the wire, and the
    /// pool's free buffers.
    pub open spec fn rx_count(self, cap: CapState, b: Burst) -> int {
        spec_min(
            spec_min(
                b.cap - b.items@.len(),
                cap.ports@[self.port.port_idx as int].inbound@.len() as int,
            ),
            cap.pools@[self.pool.pool as int].capacity - cap.pools@[
                self.pool.pool as int
            ].outstanding,
        )
    }

    /// The queue index on its port.
    pub fn queue_id(&self) -> (r: u16)
        ensures
            r == self.queue_id,
    {
        self.queue_id
    }

    /// The port of this queue.
    pub fn port(&self) -> (r: &Port)
        ensures
            *r == self.port,
    {
        &self.port
    }

    /// Receive waiting frames, appending the new packets at the buffer's
    /// current length.
    ///
    /// Receiving nothing is valid: it means no input was ready, the buffer
    /// was full, or the pool was exhausted.
    pub fn rx(&self, cap: &mut CapState, buffer: &mut Burst)
        requires
            old(cap).wf(),
            self.valid(*old(cap)),
            old(buffer).items@.len() <= old(buffer).cap,
        ensures
            final(cap).wf(),
            final(buffer).cap == old(buffer).cap,
            ({
                let k = self.rx_count(*old(cap), *old(buffer));
                let oldp = old(cap).ports@[self.port.port_idx as int];
                let oldpool = old(cap).pools@[self.pool.pool as int];
                &&& final(buffer).items@.len() == old(buffer).items@.len() + k
                &&& final(buffer).items@.subrange(0, old(buffer).items@.len() as int) == old(
                    buffer,
                ).items@
                &&& forall|j: int|
                    0 <= j < k ==> received_ok(
                        #[trigger] final(buffer).items@[old(buffer).items@.len() + j],
                        self.pool.pool as int,
                        oldpool.data_room as int,
                        oldp.inbound@[j]@,
                    )
                &&& final(cap).ports@ == old(cap).ports@.update(
                    self.port.port_idx as int,
                    PortHw {
                        inbound: final(cap).ports@[self.port.port_idx as int].inbound,
                        raw_stat: (PortStat {
                            ipackets: sat_add(oldp.raw_stat.ipackets, k as u64),
                            ..oldp.raw_stat
                        }),
                        ..oldp
                    },
                )
                &&& final(cap).ports@[self.port.port_idx as int].inbound@ == oldp.inbound@.skip(k)
                &&& final(cap).pools@ == old(cap).pools@.update(
                    self.pool.pool as int,
                    PoolNative { outstanding: (oldpool.outstanding + k) as usize, ..oldpool },
                )
            }),
            final(cap).cores == old(cap).cores,
            final(cap).next_owner == old(cap).next_owner,
    {
        let pidx = self.port.port_idx;
        let pl = self.pool.pool;
        let current = buffer.len();
        let remaining = buffer.capacity() - current;
        let avail = cap.ports[pidx].inbound.len();
        let outstanding0 = cap.pools[pl].outstanding;
        let capacity0 = cap.pools[pl].capacity;
        let free = capacity0 - outstanding0;
        let mut k = remaining;
        if avail < k {
            k = avail;
        }
        if free < k {
            k = free;
        }
        assert(k as int == self.rx_count(*old(cap), *old(buffer)));
        let data_room = cap.pools[pl].data_room;
        proof {
            assert(cap.ports@ =~= old(cap).ports@.update(
                pidx as int,
                PortHw {
                    inbound: cap.ports@[pidx as int].inbound,
                    ..old(cap).ports@[pidx as int]
                },
            ));
            assert(cap.ports@[pidx as int].inbound@ =~= old(cap).ports@[
                pidx as int
            ].inbound@.skip(0));
            assert(buffer.items@.subrange(0, current as int) =~= old(buffer).items@);
        }
        let mut made: usize = 0;
        while made < k
            invariant
                old(cap).wf(),
                self.valid(*old(cap)),
                made <= k,
                pidx == self.port.port_idx,
                pl == self.pool.pool,
                pidx < cap.ports@.len(),
                pl < cap.pools@.len(),
                current == old(buffer).items@.len(),
                buffer.cap == old(buffer).cap,
                current + k <= buffer.cap,
                k <= old(cap).ports@[pidx as int].inbound@.len(),
                data_room == old(cap).pools@[pl as int].data_room,
                data_room >= DEFAULT_HEADROOM + MAX_FRAME_LEN,
                buffer.items@.len() == current + made,
                buffer.items@.subrange(0, current as int) == old(buffer).items@,
                forall|j: int|
                    0 <= j < made ==> received_ok(
                        #[trigger] buffer.items@[current + j],
                        pl as int,
                        data_room as int,
                        old(cap).ports@[pidx as int].inbound@[j]@,
                    ),
                cap.pools@ == old(cap).pools@,
                cap.cores == old(cap).cores,
                cap.next_owner == old(cap).next_owner,
                cap.ports@ == old(cap).ports@.update(
                    pidx as int,
                    PortHw {
                        inbound: cap.ports@[pidx as int].inbound,
                        ..old(cap).ports@[pidx as int]
                    },
                ),
                cap.ports@[pidx as int].inbound@ == old(cap).ports@[pidx as int].inbound@.skip(
                    made as int,
                ),
                cap.wf(),
            decreases k - made,
        {
            proof {
                assert(old(cap).ports@[pidx as int].wire_wf());
                assert(cap.ports@[pidx as int].inbound@[0] == old(cap).ports@[
                    pidx as int
                ].inbound@[made as int]);
            }
            let frame = cap.ports[pidx].inbound.remove(0);
            proof {
                assert(frame@.len() <= MAX_FRAME_LEN);
                assert(cap.ports@ =~= old(cap).ports@.update(
                    pidx as int,
                    PortHw {
                        inbound: cap.ports@[pidx as int].inbound,
                        ..old(cap).ports@[pidx as int]
                    },
                ));
                assert(cap.ports@[pidx as int].inbound@ =~= old(cap).ports@[
                    pidx as int
                ].inbound@.skip(made + 1));
            }
            let pkt = Packet::from_frame(pl, data_room, frame);
            buffer.push(pkt);
            proof {
                assert(buffer.items@.subrange(0, current as int) =~= old(buffer).items@);
            }
            made = made + 1;
        }
        let mut p = cap.pools[pl];
        p.outstanding = p.outstanding + k;
        cap.pools.set(pl, p);
        cap.ports[pidx].raw_stat.count_rx(k as u64);
        proof {
            let oldp = old(cap).ports@[pidx as int];
            assert(cap.ports@ =~= old(cap).ports@.update(
                pidx as int,
                PortHw {
                    inbound: cap.ports@[pidx as int].inbound,
                    raw_stat: (PortStat {
                        ipackets: sat_add(oldp.raw_stat.ipackets, k as u64),
                        ..oldp.raw_stat
                    }),
                    ..oldp
                },
            ));
        }
    }

    /// Give the queue up: the hardware queue is stopped (non-fatal if the
    /// driver cannot) and the dedicated pool is disposed.
    pub fn dispose(self, cap: &mut CapState, rt: &mut Eal)
        requires
            old(cap).wf(),
            self.pool.valid(*old(cap)),
        ensures
            final(cap).wf(),
            old(cap).pools@[self.pool.pool as int].outstanding == 0 ==> {
                &&& final(cap).pools@ == old(cap).pools@.update(
                    self.pool.pool as int,
                    PoolNative { released: true, ..old(cap).pools@[self.pool.pool as int] },
                )
                &&& final(rt).garbage@ == old(rt).garbage@
            },
            old(cap).pools@[self.pool.pool as int].outstanding > 0 ==> {
                &&& final(cap).pools@ == old(cap).pools@
                &&& final(rt).garbage@ == old(rt).garbage@.push(self.pool.pool)
            },
            final(rt).setup_done == old(rt).setup_done,
            final(cap).cores == old(cap).cores,
            final(cap).ports == old(cap).ports,
            final(cap).next_owner == old(cap).next_owner,
    {
        let RxQ { queue_id: _, port: _, pool } = self;
        pool.dispose(cap, rt);
    }
}

impl TxQ {
    /// The queue index on its port.
    pub fn queue_id(&self) -> (r: u16)
        ensures
            r == self.queue_id,
    {
        self.queue_id
    }

    /// The port of this queue.
    pub fn port(&self) -> (r: &Port)
        ensures
            *r == self.port,
    {
        &self.port
    }

    /// Transmit the buffer's contents.
    ///
    /// The hardware accepts some prefix and consumes those packets; the
    /// rest are explicitly freed here, so the call always ends with the
    /// buffer empty — every packet is either sent or returned to its pool.
    pub fn tx(&self, cap: &mut CapState, buffer: &mut Burst)
        requires
            old(cap).wf(),
            self.port.valid(*old(cap)),
            forall|j: int|
                0 <= j < old(buffer).items@.len() ==> (#[trigger] old(buffer).items@[j]).wf(),
            forall|j: int|
                0 <= j < old(buffer).items@.len() ==> (#[trigger] old(buffer).items@[j]).pool
                    < old(cap).pools@.len() && !old(cap).pools@[old(
                    buffer,
                ).items@[j].pool as int].released,
            forall|p: int|
                0 <= p < old(cap).pools@.len() ==> (#[trigger] old(cap).pools@[p]).outstanding
                    >= pool_count(old(buffer).items@, p),
        ensures
            final(cap).wf(),
            final(buffer).items@.len() == 0,
            final(buffer).cap == old(buffer).cap,
            ({
                let pidx = self.port.port_idx as int;
                let accepted = spec_min(
                    old(buffer).items@.len() as int,
                    old(cap).ports@[pidx].tx_budget as int,
                );
                let oldp = old(cap).ports@[pidx];
                &&& final(cap).pools@.len() == old(cap).pools@.len()
                &&& forall|p: int|
                    0 <= p < old(cap).pools@.len() ==> {
                        &&& (#[trigger] final(cap).pools@[p]).outstanding + pool_count(
                            old(buffer).items@,
                            p,
                        ) == old(cap).pools@[p].outstanding
                        &&& final(cap).pools@[p] == (PoolNative {
                            outstanding: final(cap).pools@[p].outstanding,
                            ..old(cap).pools@[p]
                        })
                    }
                &&& final(cap).ports@ == old(cap).ports@.update(
                    pidx,
                    PortHw {
                        inbound: final(cap).ports@[pidx].inbound,
                        raw_stat: (PortStat {
                            opackets: sat_add(oldp.raw_stat.opackets, accepted as u64),
                            ..oldp.raw_stat
                        }),
                        tx_budget: (oldp.tx_budget - accepted) as usize,
                        ..oldp
                    },
                )
                &&& frames_view(final(cap).ports@[pidx].inbound@) == frames_view(oldp.inbound@)
                    + sent_frames(old(buffer).items@, accepted)
            }),
            final(cap).cores == old(cap).cores,
            final(cap).next_owner == old(cap).next_owner,
    {
        let pidx = self.port.port_idx;
        let total = buffer.len();
        let budget = cap.ports[pidx].tx_budget;
        let accepted = if total < budget {
            total
        } else {
            budget
        };
        proof {
            assert(cap.ports@ =~= old(cap).ports@.update(
                pidx as int,
                PortHw {
                    inbound: cap.ports@[pidx as int].inbound,
                    ..old(cap).ports@[pidx as int]
                },
            ));
            assert(buffer.items@ =~= old(buffer).items@.skip(0));
        }
        let mut i: usize = 0;
        while i < total
            invariant
                old(cap).wf(),
                self.port.valid(*old(cap)),
                i <= total,
                total == old(buffer).items@.len(),
                pidx == self.port.port_idx,
                pidx < cap.ports@.len(),
                accepted == spec_min(
                    total as int,
                    old(cap).ports@[pidx as int].tx_budget as int,
                ),
                accepted <= total,
                buffer.cap == old(buffer).cap,
                buffer.items@ == old(buffer).items@.skip(i as int),
                forall|j: int|
                    0 <= j < total ==> (#[trigger] old(buffer).items@[j]).wf(),
                forall|j: int|
                    0 <= j < total ==> (#[trigger] old(buffer).items@[j]).pool < old(
                        cap,
                    ).pools@.len() && !old(cap).pools@[old(buffer).items@[j].pool as int].released,
                forall|p: int|
                    0 <= p < old(cap).pools@.len() ==> (#[trigger] old(
                        cap,
                    ).pools@[p]).outstanding >= pool_count(old(buffer).items@, p),
                cap.pools@.len() == old(cap).pools@.len(),
                forall|p: int|
                    0 <= p < old(cap).pools@.len() ==> {
                        &&& (#[trigger] cap.pools@[p]).outstanding + pool_count(
                            old(buffer).items@,
                            p,
                        ) == old(cap).pools@[p].outstanding + pool_count(buffer.items@, p)
                        &&& cap.pools@[p] == (PoolNative {
                            outstanding: cap.pools@[p].outstanding,
                            ..old(cap).pools@[p]
                        })
                    },
                cap.ports@ == old(cap).ports@.update(
                    pidx as int,
                    PortHw {
                        inbound: cap.ports@[pidx as int].inbound,
                        ..old(cap).ports@[pidx as int]
                    },
                ),
                frames_view(cap.ports@[pidx as int].inbound@) + sent_frames(
                    buffer.items@,
                    accepted - i,
                ) == frames_view(old(cap).ports@[pidx as int].inbound@) + sent_frames(
                    old(buffer).items@,
                    accepted as int,
                ),
                cap.cores == old(cap).cores,
                cap.next_owner == old(cap).next_owner,
                cap.wf(),
            decreases total - i,
        {
            let ghost pre = buffer.items@;
            proof {
                assert(pre[0] == old(buffer).items@[i as int]);
                assert(pre.drop_first() =~= old(buffer).items@.skip(i + 1));
            }
            let pkt = buffer.items.remove(0);
            proof {
                assert(buffer.items@ =~= pre.drop_first());
            }
            if i < accepted && pkt.len() <= MAX_FRAME_LEN {
                let f = pkt.data_vec();
                let ghost inb = cap.ports@[pidx as int].inbound@;
                cap.ports[pidx].inbound.push(f);
                proof {
                    assert(cap.ports@ =~= old(cap).ports@.update(
                        pidx as int,
                        PortHw {
                            inbound: cap.ports@[pidx as int].inbound,
                            ..old(cap).ports@[pidx as int]
                        },
                    ));
                    assert(frames_view(cap.ports@[pidx as int].inbound@) =~= frames_view(
                        inb,
                    ).push(pkt.data_spec()));
                    assert(sent_frames(pre, accepted - i) == seq![pre[0].data_spec()]
                        + sent_frames(pre.drop_first(), accepted - i - 1));
                    assert(frames_view(cap.ports@[pidx as int].inbound@) + sent_frames(
                        buffer.items@,
                        accepted - (i + 1),
                    ) =~= frames_view(inb) + sent_frames(pre, accepted - i));
                }
            } else {
                proof {
                    if i < accepted {
                        assert(sent_frames(pre, accepted - i) == sent_frames(
                            pre.drop_first(),
                            accepted - i - 1,
                        ));
                    } else {
                        assert(sent_frames(pre, accepted - i) == Seq::<Seq<u8>>::empty());
                        assert(sent_frames(buffer.items@, accepted - (i + 1)) == Seq::<
                            Seq<u8>,
                        >::empty());
                    }
                }
            }
            proof {
                let q = pkt.pool as int;
                assert(pool_count(pre, q) == pool_count(pre.drop_first(), q) + 1);
                assert(cap.pools@[q].outstanding >= 1) by {
                    assert(cap.pools@[q].outstanding + pool_count(old(buffer).items@, q)
                        == old(cap).pools@[q].outstanding + pool_count(pre, q));
                    assert(old(cap).pools@[q].outstanding >= pool_count(old(buffer).items@, q));
                }
            }
            cap.free_packet(pkt);
            proof {
                assert forall|p: int| 0 <= p < old(cap).pools@.len() implies {
                    &&& (#[trigger] cap.pools@[p]).outstanding + pool_count(
                        old(buffer).items@,
                        p,
                    ) == old(cap).pools@[p].outstanding + pool_count(buffer.items@, p)
                    &&& cap.pools@[p] == (PoolNative {
                        outstanding: cap.pools@[p].outstanding,
                        ..old(cap).pools@[p]
                    })
                } by {
                    assert(pool_count(pre, p) == pool_count(pre.drop_first(), p) + (
                    if pre[0].pool == p {
                        1nat
                    } else {
                        0nat
                    }));
                }
            }
            i = i + 1;
        }
        assert(buffer.items@ =~= Seq::<Packet>::empty());
        assert(sent_frames(buffer.items@, accepted - total as int) == Seq::<Seq<u8>>::empty());
        let b = cap.ports[pidx].tx_budget;
        cap.ports[pidx].tx_budget = b - accepted;
        cap.ports[pidx].raw_stat.count_tx(accepted as u64);
        proof {
            let oldp = old(cap).ports@[pidx as int];
            assert(cap.ports@ =~= old(cap).ports@.update(
                pidx as int,
                PortHw {
                    inbound: cap.ports@[pidx as int].inbound,
                    raw_stat: (PortStat {
                        opackets: sat_add(oldp.raw_stat.opackets, accepted as u64),
                        ..oldp.raw_stat
                    }),
                    tx_budget: (oldp.tx_budget - accepted as int) as usize,
                    ..oldp
                },
            ));
        }
    }

    /// Transmit copies of the buffer's contents, leaving the caller's
    /// buffer intact.
    ///
    /// The native layer consumes the accepted copies; copies it did not
    /// accept are released here, so ownership of the originals never moves.
    pub fn tx_cloned(&self, cap: &mut CapState, buffer: &Burst)
        requires
            old(cap).wf(),
            self.port.valid(*old(cap)),
            forall|j: int|
                0 <= j < buffer.items@.len() ==> (#[trigger] buffer.items@[j]).wf(),
        ensures
            final(cap).wf(),
            ({
                let pidx = self.port.port_idx as int;
                let accepted = spec_min(
                    buffer.items@.len() as int,
                    old(cap).ports@[pidx].tx_budget as int,
                );
                let oldp = old(cap).ports@[pidx];
                &&& final(cap).ports@ == old(cap).ports@.update(
                    pidx,
                    PortHw {
                        inbound: final(cap).ports@[pidx].inbound,
                        raw_stat: (PortStat {
                            opackets: sat_add(oldp.raw_stat.opackets, accepted as u64),
                            ..oldp.raw_stat
                        }),
                        tx_budget: (oldp.tx_budget - accepted) as usize,
                        ..oldp
                    },
                )
                &&& frames_view(final(cap).ports@[pidx].inbound@) == frames_view(oldp.inbound@)
                    + sent_frames(buffer.items@, accepted)
            }),
            final(cap).pools@ == old(cap).pools@,
            final(cap).cores == old(cap).cores,
            final(cap).next_owner == old(cap).next_owner,
    {
        let pidx = self.port.port_idx;
        let total = buffer.len();
        let budget = cap.ports[pidx].tx_budget;
        let accepted = if total < budget {
            total
        } else {
            budget
        };
        proof {
            assert(cap.ports@ =~= old(cap).ports@.update(
                pidx as int,
                PortHw {
                    inbound: cap.ports@[pidx as int].inbound,
                    ..old(cap).ports@[pidx as int]
                },
            ));
            assert(buffer.items@.skip(0) =~= buffer.items@);
        }
        let mut i: usize = 0;
        while i < accepted
            invariant
                old(cap).wf(),
                self.port.valid(*old(cap)),
                i <= accepted,
                total == buffer.items@.len(),
                pidx == self.port.port_idx,
                pidx < cap.ports@.len(),
                accepted == spec_min(
                    total as int,
                    old(cap).ports@[pidx as int].tx_budget as int,
                ),
                accepted <= total,
                forall|j: int|
                    0 <= j < buffer.items@.len() ==> (#[trigger] buffer.items@[j]).wf(),
                cap.pools@ == old(cap).pools@,
                cap.ports@ == old(cap).ports@.update(
                    pidx as int,
                    PortHw {
                        inbound: cap.ports@[pidx as int].inbound,
                        ..old(cap).ports@[pidx as int]
                    },
                ),
                frames_view(cap.ports@[pidx as int].inbound@) + sent_frames(
                    buffer.items@.skip(i as int),
                    accepted - i,
                ) == frames_view(old(cap).ports@[pidx as int].inbound@) + sent_frames(
                    buffer.items@,
                    accepted as int,
                ),
                cap.cores == old(cap).cores,
                cap.next_owner == old(cap).next_owner,
                cap.wf(),
            decreases accepted - i,
        {
            let ghost suffix = buffer.items@.skip(i as int);
            proof {
                assert(suffix[0] == buffer.items@[i as int]);
                assert(suffix.drop_first() =~= buffer.items@.skip(i + 1));
            }
            let pkt = buffer.get(i);
            if pkt.len() <= MAX_FRAME_LEN {
                let f = pkt.data_vec();
                let ghost inb = cap.ports@[pidx as int].inbound@;
                cap.ports[pidx].inbound.push(f);
                proof {
                    assert(cap.ports@ =~= old(cap).ports@.update(
                        pidx as int,
                        PortHw {
                            inbound: cap.ports@[pidx as int].inbound,
                            ..old(cap).ports@[pidx as int]
                        },
                    ));
                    assert(frames_view(cap.ports@[pidx as int].inbound@) =~= frames_view(
                        inb,
                    ).push(pkt.data_spec()));
                    assert(sent_frames(suffix, accepted - i) == seq![suffix[0].data_spec()]
                        + sent_frames(suffix.drop_first(), accepted - i - 1));
                    assert(frames_view(cap.ports@[pidx as int].inbound@) + sent_frames(
                        buffer.items@.skip(i + 1),
                        accepted - (i + 1),
                    ) =~= frames_view(inb) + sent_frames(suffix, accepted - i));
                }
            } else {
                proof {
                    assert(sent_frames(suffix, accepted - i) == sent_frames(
                        suffix.drop_first(),
                        accepted - i - 1,
                    ));
                }
            }
            i = i + 1;
        }
        proof {
            assert(sent_frames(buffer.items@.skip(accepted as int), 0) == Seq::<
                Seq<u8>,
            >::empty());
        }
        let b = cap.ports[pidx].tx_budget;
        cap.ports[pidx].tx_budget = b - accepted;
        cap.ports[pidx].raw_stat.count_tx(accepted as u64);
        proof {
            let oldp = old(cap).ports@[pidx as int];
            assert(cap.ports@ =~= old(cap).ports@.update(
                pidx as int,
                PortHw {
                    inbound: cap.ports@[pidx as int].inbound,
                    raw_stat: (PortStat {
                        opackets: sat_add(oldp.raw_stat.opackets, accepted as u64),
                        ..oldp.raw_stat
                    }),
                    tx_budget: (oldp.tx_budget - accepted as int) as usize,
                    ..oldp
                },
            ));
        }
    }
}

} // verus!
