//! The affinity planner: which cores host a port's queues.
//!
//! Pure computation over the discovered core table.  Under `Full` affinity
//! every enabled core is a candidate for every port; under `Numa` affinity
//! only enabled cores on the port's own NUMA node are.  The Nth candidate,
//! in discovery order, receives queue index N.

use vstd::prelude::*;
use crate::cap::CoreHw;
use crate::ids::{LCoreId, SocketId};

verus! {

/// How to create NIC queues for the cores, per traffic direction.
#[derive(Clone, Copy, Debug, Hash, PartialEq, Eq, Structural)]
pub enum Affinity {
    /// Every NIC creates queues for every enabled core.
    Full,
    /// NICs create queues only for enabled cores on their own NUMA node.
    Numa,
}

/// The candidate cores of a port with NUMA node `socket` under `aff`, in
/// discovery order.
pub open spec fn candidate_cores(cores: Seq<CoreHw>, aff: Affinity, socket: SocketId) -> Seq<
    CoreHw,
>
    decreases cores.len(),
{
    if cores.len() == 0 {
        Seq::empty()
    } else {
        let rest = candidate_cores(cores.drop_last(), aff, socket);
        let c = cores.last();
        if c.enabled && (aff is Full || c.socket == socket) {
            rest.push(c)
        } else {
            rest
        }
    }
}

/// `id` was reported enabled in the discovered core table.
pub open spec fn is_enabled_core(cores: Seq<CoreHw>, id: LCoreId) -> bool {
    exists|i: int| 0 <= i < cores.len() && cores[i].enabled && cores[i].lcore == id
}

/// Compute a port's candidate core list for one traffic direction.
pub fn compute_candidates(cores: &Vec<CoreHw>, aff: Affinity, socket: SocketId) -> (r: Vec<
    CoreHw,
>)
    ensures
        r@ == candidate_cores(cores@, aff, socket),
{
    let n = cores.len();
    let mut out: Vec<CoreHw> = Vec::new();
    let mut i: usize = 0;
    while i < n
        invariant
            i <= n,
            n == cores@.len(),
            out@ == candidate_cores(cores@.take(i as int), aff, socket),
        decreases n - i,
    {
        let c = cores[i];
        let selected = c.enabled && (match aff {
            Affinity::Full => true,
            Affinity::Numa => c.socket == socket,
        });
        if selected {
            out.push(c);
        }
        proof {
            assert(cores@.take(i + 1).drop_last() =~= cores@.take(i as int));
            assert(cores@.take(i + 1).last() == cores@[i as int]);
        }
        i = i + 1;
    }
    proof {
        assert(cores@.take(n as int) =~= cores@);
    }
    out
}

/// Every candidate is an enabled core of the table, and under `Numa`
/// affinity it sits on the port's own node.
pub proof fn lemma_candidates_sound(cores: Seq<CoreHw>, aff: Affinity, socket: SocketId)
    ensures
        forall|q: int|
            0 <= q < candidate_cores(cores, aff, socket).len() ==> {
                let c = #[trigger] candidate_cores(cores, aff, socket)[q];
                &&& c.enabled
                &&& (aff is Numa ==> c.socket == socket)
                &&& exists|i: int| 0 <= i < cores.len() && cores[i] == c
                &&& is_enabled_core(cores, c.lcore)
            },
    decreases cores.len(),
{
    if cores.len() > 0 {
        lemma_candidates_sound(cores.drop_last(), aff, socket);
        let cand = candidate_cores(cores, aff, socket);
        let prev = candidate_cores(cores.drop_last(), aff, socket);
        assert forall|q: int| 0 <= q < cand.len() implies {
            let c = #[trigger] cand[q];
            &&& c.enabled
            &&& (aff is Numa ==> c.socket == socket)
            &&& exists|i: int| 0 <= i < cores.len() && cores[i] == c
            &&& is_enabled_core(cores, c.lcore)
        } by {
            let c = cand[q];
            if q < prev.len() {
                assert(c == prev[q]);
                let i = choose|i: int| 0 <= i < cores.drop_last().len() && cores.drop_last()[i]
                    == c;
                assert(cores[i] == c);
            } else {
                assert(c == cores.last());
                assert(cores[cores.len() - 1] == c);
            }
        }
    }
}

} // verus!
