//! Packet-buffer pool handles and their lifecycle.
//!
//! A pool handle is linear: it is consumed by [`MPool::dispose`], and a
//! `Packet` drawn from a pool is consumed when it is freed or transmitted.
//! Disposal releases the arena at once when every buffer has been returned,
//! and otherwise defers the release into the runtime's garbage list.

use vstd::prelude::*;
use crate::burst::Burst;
use crate::cap::{CapState, PoolNative};
use crate::eal::Eal;
use crate::packet::Packet;
use crate::DEFAULT_HEADROOM;

verus! {

/// A packet freshly drawn from pool `pool`: empty, default headroom, and a
/// zero-filled buffer of the pool's data room.
pub open spec fn fresh_from(pkt: Packet, pool: int, data_room: int) -> bool {
    &&& pkt.pool == pool
    &&& pkt.data_off == DEFAULT_HEADROOM
    &&& pkt.data_len == 0
    &&& pkt.buf@.len() == data_room
    &&& pkt.wf()
}

/// Handle to one packet-buffer arena.
#[derive(Debug)]
pub struct MPool {
    /// Index of the arena in the capability layer's pool table.
    pub pool: usize,
}

impl MPool {
    /// The handle refers to a live arena of the given state.
    pub open spec fn valid(self, cap: CapState) -> bool {
        &&& self.pool < cap.pools@.len()
        &&& !cap.pools@[self.pool as int].released
    }

    /// The arena this handle refers to.
    pub open spec fn native(self, cap: CapState) -> PoolNative {
        cap.pools@[self.pool as int]
    }

    /// Index of the arena in the capability layer's pool table.
    pub fn pool_index(&self) -> (r: usize)
        ensures
            r == self.pool,
    {
        self.pool
    }

    /// Allocate one packet from the pool's native free list.
    ///
    /// `None` means the free list is exhausted; the caller decides whether
    /// to retry.  The returned packet must be freed or transmitted before
    /// the pool is disposed.
    pub fn allocate(&self, cap: &mut CapState) -> (r: Option<Packet>)
        requires
            old(cap).wf(),
            self.valid(*old(cap)),
        ensures
            final(cap).wf(),
            r is Some <==> self.native(*old(cap)).outstanding < self.native(
                *old(cap),
            ).capacity,
            r matches Some(pkt) ==> {
                &&& fresh_from(pkt, self.pool as int, self.native(*old(cap)).data_room as int)
                &&& final(cap).pools@ == old(cap).pools@.update(
                    self.pool as int,
                    PoolNative {
                        outstanding: (self.native(*old(cap)).outstanding + 1) as usize,
                        ..self.native(*old(cap))
                    },
                )
            },
            r is None ==> final(cap).pools@ == old(cap).pools@,
            final(cap).cores == old(cap).cores,
            final(cap).ports == old(cap).ports,
            final(cap).next_owner == old(cap).next_owner,
    {
        let i = self.pool;
        let outstanding = cap.pools[i].outstanding;
        let capacity = cap.pools[i].capacity;
        if outstanding < capacity {
            let data_room = cap.pools[i].data_room;
            let mut p = cap.pools[i];
            p.outstanding = outstanding + 1;
            cap.pools.set(i, p);
            Some(Packet::mint(i, data_room))
        } else {
            None
        }
    }

    /// Allocate packets to fill the remaining capacity of `buffer`.
    ///
    /// The native layer's bulk draw is all-or-nothing: either the buffer is
    /// filled to capacity and `true` is returned, or nothing is changed.
    pub fn alloc_bulk(&self, cap: &mut CapState, buffer: &mut Burst) -> (r: bool)
        requires
            old(cap).wf(),
            self.valid(*old(cap)),
            old(buffer).items@.len() <= old(buffer).cap,
        ensures
            final(cap).wf(),
            r == (self.native(*old(cap)).capacity - self.native(*old(cap)).outstanding
                >= old(buffer).cap - old(buffer).items@.len()),
            r ==> {
                &&& final(buffer).items@.len() == old(buffer).cap
                &&& final(buffer).items@.subrange(0, old(buffer).items@.len() as int) == old(
                    buffer,
                ).items@
                &&& forall|j: int|
                    old(buffer).items@.len() <= j < final(buffer).items@.len()
                        ==> fresh_from(
                        #[trigger] final(buffer).items@[j],
                        self.pool as int,
                        self.native(*old(cap)).data_room as int,
                    )
                &&& final(cap).pools@ == old(cap).pools@.update(
                    self.pool as int,
                    PoolNative {
                        outstanding: (self.native(*old(cap)).outstanding + (old(buffer).cap
                            - old(buffer).items@.len())) as usize,
                        ..self.native(*old(cap))
                    },
                )
            },
            !r ==> {
                &&& final(buffer).items@ == old(buffer).items@
                &&& final(cap).pools@ == old(cap).pools@
            },
            final(buffer).cap == old(buffer).cap,
            final(cap).cores == old(cap).cores,
            final(cap).ports == old(cap).ports,
            final(cap).next_owner == old(cap).next_owner,
    {
        let i = self.pool;
        let outstanding = cap.pools[i].outstanding;
        let capacity = cap.pools[i].capacity;
        let current = buffer.len();
        let remaining = buffer.capacity() - current;
        if capacity - outstanding >= remaining {
            let data_room = cap.pools[i].data_room;
            let mut k: usize = 0;
            while k < remaining
                invariant
                    k <= remaining,
                    current + remaining == buffer.cap,
                    buffer.cap == old(buffer).cap,
                    buffer.items@.len() == current + k,
                    current == old(buffer).items@.len(),
                    buffer.items@.subrange(0, current as int) == old(buffer).items@,
                    forall|j: int|
                        current <= j < buffer.items@.len() ==> fresh_from(
                            #[trigger] buffer.items@[j],
                            i as int,
                            data_room as int,
                        ),
                    i == self.pool,
                    data_room >= DEFAULT_HEADROOM,
                decreases remaining - k,
            {
                buffer.push(Packet::mint(i, data_room));
                assert(buffer.items@.subrange(0, current as int) =~= old(buffer).items@);
                k = k + 1;
            }
            let mut p = cap.pools[i];
            p.outstanding = outstanding + remaining;
            cap.pools.set(i, p);
            true
        } else {
            false
        }
    }

    /// Give the pool up.
    ///
    /// If every buffer has been returned, the arena is released at once;
    /// otherwise the release is deferred into the runtime's garbage list,
    /// to be retried by [`Eal::collect_garbage`] and completed at teardown.
    pub fn dispose(self, cap: &mut CapState, rt: &mut Eal)
        requires
            old(cap).wf(),
            self.valid(*old(cap)),
        ensures
            final(cap).wf(),
            old(cap).pools@[self.pool as int].outstanding == 0 ==> {
                &&& final(cap).pools@ == old(cap).pools@.update(
                    self.pool as int,
                    PoolNative { released: true, ..old(cap).pools@[self.pool as int] },
                )
                &&& final(rt).garbage@ == old(rt).garbage@
            },
            old(cap).pools@[self.pool as int].outstanding > 0 ==> {
                &&& final(cap).pools@ == old(cap).pools@
                &&& final(rt).garbage@ == old(rt).garbage@.push(self.pool)
            },
            final(rt).setup_done == old(rt).setup_done,
            final(cap).cores == old(cap).cores,
            final(cap).ports == old(cap).ports,
            final(cap).next_owner == old(cap).next_owner,
    {
        let i = self.pool;
        let released = cap.try_release_pool(i);
        if !released {
            rt.garbage.push(i);
        }
        if released {
            assert(cap.pools@ =~= old(cap).pools@.update(
                i as int,
                PoolNative { released: true, ..old(cap).pools@[i as int] },
            ));
        } else {
            assert(cap.pools@ =~= old(cap).pools@);
        }
    }
}

} // verus!
