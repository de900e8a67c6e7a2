//! The process-wide runtime handle.
//!
//! The handle owns the one-shot "setup already performed" flag and the list
//! of deferred pool releases.  Teardown drains that list and must fully
//! succeed then: once every packet has been dropped, every deferred release
//! goes through.

use vstd::prelude::*;
use crate::cap::{CapState, PoolNative};
use crate::error::ErrorCode;

verus! {

/// The runtime handle: initialization token, one-shot setup flag, and the
/// deferred garbage-collection list.
#[derive(Debug)]
pub struct Eal {
    /// Whether queue/port setup has already succeeded on this runtime.
    pub setup_done: bool,
    /// Pools whose release was deferred because buffers were outstanding.
    pub garbage: Vec<usize>,
}

/// The garbage list is consistent with the native state: every entry names
/// an existing, not yet released pool, and no pool is listed twice.
pub open spec fn gc_ok(rt: Eal, cap: CapState) -> bool {
    &&& forall|i: int|
        0 <= i < rt.garbage@.len() ==> (#[trigger] rt.garbage@[i]) < cap.pools@.len()
    &&& forall|i: int|
        0 <= i < rt.garbage@.len() ==> !cap.pools@[(#[trigger] rt.garbage@[i]) as int].released
    &&& forall|i: int, j: int|
        0 <= i < j < rt.garbage@.len() ==> rt.garbage@[i] != rt.garbage@[j]
}

/// The garbage entries that stay pending: those whose pool still has
/// outstanding buffers in `pools`.
pub open spec fn still_pending(g: Seq<usize>, pools: Seq<PoolNative>) -> Seq<usize>
    decreases g.len(),
{
    if g.len() == 0 {
        Seq::empty()
    } else {
        let rest = still_pending(g.drop_last(), pools);
        if pools[g.last() as int].outstanding == 0 {
            rest
        } else {
            rest.push(g.last())
        }
    }
}

/// Entry `j` of the pool table is named by `g` and fully drained.
pub open spec fn listed_and_drained(g: Seq<usize>, pools: Seq<PoolNative>, j: int) -> bool {
    exists|t: int| 0 <= t < g.len() && g[t] == j && pools[j].outstanding == 0
}

impl Eal {
    /// Create the runtime handle from the capability layer's initialization
    /// status.
    ///
    /// The status is the signed result of the one-time initialization entry
    /// point: negative reports failure, non-negative is the number of
    /// arguments it consumed.  The consumed prefix is removed from `args`;
    /// the remainder stays for the caller.
    pub fn new(args: &mut Vec<String>, init_status: i32) -> (r: Result<Eal, ErrorCode>)
        requires
            init_status >= 0 ==> init_status <= old(args)@.len(),
            init_status < 0 ==> init_status >= -255,
        ensures
            init_status < 0 ==> {
                &&& r == Result::<Eal, ErrorCode>::Err(
                    ErrorCode::Unknown { code: (-init_status) as u8 },
                )
                &&& final(args)@ == old(args)@
            },
            init_status >= 0 ==> {
                &&& r matches Ok(rt)
                &&& r matches Ok(rt) ==> !rt.setup_done && rt.garbage@.len() == 0
                &&& final(args)@ == old(args)@.skip(init_status as int)
            },
    {
        if init_status < 0 {
            return Err(ErrorCode::Unknown { code: (-init_status) as u8 });
        }
        let consumed = init_status as usize;
        let mut i: usize = 0;
        while i < consumed
            invariant
                i <= consumed,
                consumed <= old(args)@.len(),
                args@ == old(args)@.skip(i as int),
            decreases consumed - i,
        {
            args.remove(0);
            assert(args@ =~= old(args)@.skip(i + 1));
            i = i + 1;
        }
        Ok(Eal { setup_done: false, garbage: Vec::new() })
    }

    /// Retry every deferred pool release; entries whose pool has been fully
    /// returned are released and leave the list.
    pub fn collect_garbage(&mut self, cap: &mut CapState)
        requires
            old(cap).wf(),
            gc_ok(*old(self), *old(cap)),
        ensures
            final(cap).wf(),
            gc_ok(*final(self), *final(cap)),
            final(self).garbage@ == still_pending(old(self).garbage@, old(cap).pools@),
            final(self).setup_done == old(self).setup_done,
            final(cap).pools@.len() == old(cap).pools@.len(),
            forall|j: int|
                0 <= j < old(cap).pools@.len() ==> #[trigger] final(cap).pools@[j] == (
                if listed_and_drained(old(self).garbage@, old(cap).pools@, j) {
                    PoolNative { released: true, ..old(cap).pools@[j] }
                } else {
                    old(cap).pools@[j]
                }),
            final(cap).cores == old(cap).cores,
            final(cap).ports == old(cap).ports,
            final(cap).next_owner == old(cap).next_owner,
    {
        let n = self.garbage.len();
        let mut remaining: Vec<usize> = Vec::new();
        let mut i: usize = 0;
        while i < n
            invariant
                i <= n,
                n == old(self).garbage@.len(),
                self.garbage@ == old(self).garbage@,
                cap.wf(),
                gc_ok(*old(self), *old(cap)),
                remaining@ == still_pending(old(self).garbage@.take(i as int), old(cap).pools@),
                cap.pools@.len() == old(cap).pools@.len(),
                forall|j: int|
                    0 <= j < old(cap).pools@.len() ==> #[trigger] cap.pools@[j] == (
                    if listed_and_drained(
                        old(self).garbage@.take(i as int),
                        old(cap).pools@,
                        j,
                    ) {
                        PoolNative { released: true, ..old(cap).pools@[j] }
                    } else {
                        old(cap).pools@[j]
                    }),
                cap.cores == old(cap).cores,
                cap.ports == old(cap).ports,
                cap.next_owner == old(cap).next_owner,
            decreases n - i,
        {
            let idx = self.garbage[i];
            proof {
                assert forall|t: int| 0 <= t < i implies old(self).garbage@.take(i as int)[t]
                    != idx by {
                    assert(old(self).garbage@[t] != old(self).garbage@[i as int]);
                }
                assert(!listed_and_drained(
                    old(self).garbage@.take(i as int),
                    old(cap).pools@,
                    idx as int,
                ));
                assert(cap.pools@[idx as int] == old(cap).pools@[idx as int]);
            }
            let released = cap.try_release_pool(idx);
            if !released {
                remaining.push(idx);
            }
            proof {
                assert(old(self).garbage@.take(i + 1).drop_last() =~= old(self).garbage@.take(
                    i as int,
                ));
                assert(old(self).garbage@.take(i + 1).last() == old(self).garbage@[i as int]);
                if released {
                    assert(remaining@ =~= still_pending(
                        old(self).garbage@.take(i + 1),
                        old(cap).pools@,
                    ));
                } else {
                    assert(remaining@ =~= still_pending(
                        old(self).garbage@.take(i + 1),
                        old(cap).pools@,
                    ));
                }
                assert forall|j: int| 0 <= j < old(cap).pools@.len() implies #[trigger] cap.pools@[j]
                    == (if listed_and_drained(
                    old(self).garbage@.take(i + 1),
                    old(cap).pools@,
                    j,
                ) {
                    PoolNative { released: true, ..old(cap).pools@[j] }
                } else {
                    old(cap).pools@[j]
                }) by {
                    if j == idx as int {
                        if old(cap).pools@[j].outstanding == 0 {
                            assert(old(self).garbage@.take(i + 1)[i as int] == idx);
                            assert(listed_and_drained(
                                old(self).garbage@.take(i + 1),
                                old(cap).pools@,
                                j,
                            ));
                        }
                    } else {
                        assert(listed_and_drained(
                            old(self).garbage@.take(i + 1),
                            old(cap).pools@,
                            j,
                        ) == listed_and_drained(
                            old(self).garbage@.take(i as int),
                            old(cap).pools@,
                            j,
                        ));
                    }
                }
            }
            i = i + 1;
        }
        assert(old(self).garbage@.take(n as int) =~= old(self).garbage@);
        self.garbage = remaining;
        proof {
            lemma_still_pending_sound(old(self).garbage@, old(cap).pools@);
            lemma_still_pending_distinct(old(self).garbage@, old(cap).pools@);
            assert forall|k: int| 0 <= k < self.garbage@.len() implies (#[trigger] self.garbage@[k])
                < cap.pools@.len() && !cap.pools@[self.garbage@[k] as int].released by {
                let e = self.garbage@[k];
                let t = choose|t: int|
                    0 <= t < old(self).garbage@.len() && old(self).garbage@[t] == e;
                assert(old(self).garbage@[t] == e);
                assert(!listed_and_drained(old(self).garbage@, old(cap).pools@, e as int));
                assert(cap.pools@[e as int] == old(cap).pools@[e as int]);
            }
        }
    }

    /// Tear the runtime down: every deferred release must now succeed,
    /// because no packet can legitimately still be alive.
    pub fn finalize(self, cap: &mut CapState)
        requires
            old(cap).wf(),
            gc_ok(self, *old(cap)),
            forall|t: int|
                0 <= t < self.garbage@.len() ==> old(cap).pools@[(
                #[trigger] self.garbage@[t]) as int].outstanding == 0,
        ensures
            final(cap).wf(),
            final(cap).pools@.len() == old(cap).pools@.len(),
            forall|j: int|
                0 <= j < old(cap).pools@.len() ==> #[trigger] final(cap).pools@[j] == (
                if listed_and_drained(self.garbage@, old(cap).pools@, j) {
                    PoolNative { released: true, ..old(cap).pools@[j] }
                } else {
                    old(cap).pools@[j]
                }),
            final(cap).cores == old(cap).cores,
            final(cap).ports == old(cap).ports,
            final(cap).next_owner == old(cap).next_owner,
    {
        let mut rt = self;
        rt.collect_garbage(cap);
        proof {
            lemma_still_pending_empty(self.garbage@, old(cap).pools@);
        }
    }
}

/// Every entry that `still_pending` keeps appears in the original list and
/// still has outstanding buffers.
proof fn lemma_still_pending_sound(g: Seq<usize>, pools: Seq<PoolNative>)
    ensures
        forall|k: int|
            0 <= k < still_pending(g, pools).len() ==> {
                let e = #[trigger] still_pending(g, pools)[k];
                &&& exists|t: int| 0 <= t < g.len() && g[t] == e
                &&& pools[e as int].outstanding != 0
            },
    decreases g.len(),
{
    if g.len() > 0 {
        lemma_still_pending_sound(g.drop_last(), pools);
        assert forall|k: int| 0 <= k < still_pending(g, pools).len() implies {
            let e = #[trigger] still_pending(g, pools)[k];
            &&& exists|t: int| 0 <= t < g.len() && g[t] == e
            &&& pools[e as int].outstanding != 0
        } by {
            let e = still_pending(g, pools)[k];
            if k < still_pending(g.drop_last(), pools).len() {
                let t = choose|t: int| 0 <= t < g.drop_last().len() && g.drop_last()[t] == e;
                assert(g[t] == e);
            } else {
                assert(e == g.last());
                assert(g[g.len() - 1] == e);
            }
        }
    }
}

/// A list without repeats stays without repeats under `still_pending`.
proof fn lemma_still_pending_distinct(g: Seq<usize>, pools: Seq<PoolNative>)
    requires
        forall|t1: int, t2: int| 0 <= t1 < t2 < g.len() ==> g[t1] != g[t2],
    ensures
        forall|k1: int, k2: int|
            0 <= k1 < k2 < still_pending(g, pools).len() ==> still_pending(g, pools)[k1]
                != still_pending(g, pools)[k2],
    decreases g.len(),
{
    if g.len() > 0 {
        lemma_still_pending_distinct(g.drop_last(), pools);
        lemma_still_pending_sound(g.drop_last(), pools);
        if pools[g.last() as int].outstanding != 0 {
            let p = still_pending(g.drop_last(), pools);
            assert forall|k1: int, k2: int|
                0 <= k1 < k2 < still_pending(g, pools).len() implies still_pending(g, pools)[k1]
                != still_pending(g, pools)[k2] by {
                if k2 == still_pending(g, pools).len() - 1 {
                    let e = still_pending(g, pools)[k1];
                    assert(e == p[k1]);
                    let t = choose|t: int| 0 <= t < g.drop_last().len() && g.drop_last()[t] == e;
                    assert(g[t] == e);
                    assert(g[g.len() - 1] == g.last());
                }
            }
        }
    }
}

/// When every listed pool is drained, nothing stays pending.
proof fn lemma_still_pending_empty(g: Seq<usize>, pools: Seq<PoolNative>)
    requires
        forall|t: int| 0 <= t < g.len() ==> pools[(#[trigger] g[t]) as int].outstanding == 0,
    ensures
        still_pending(g, pools).len() == 0,
    decreases g.len(),
{
    if g.len() > 0 {
        assert(g[g.len() - 1] == g.last());
        lemma_still_pending_empty(g.drop_last(), pools);
    }
}

} // verus!
