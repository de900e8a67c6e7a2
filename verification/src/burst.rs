//! A bounded buffer of packets for burst receive/transmit operations.

use vstd::prelude::*;
use crate::packet::Packet;

verus! {

/// A packet buffer with a fixed capacity, as handed to burst operations.
///
/// Burst operations append received packets at the current length, or drain
/// the current contents for transmission; the capacity bounds how many
/// packets one native burst may process.
#[derive(Debug)]
pub struct Burst {
    /// The packets currently held, oldest first.
    pub items: Vec<Packet>,
    /// The fixed capacity of the buffer.
    pub cap: usize,
}

impl Burst {
    /// The buffer never holds more packets than its capacity, and each
    /// held packet respects its own buffer invariant.
    pub open spec fn wf(self) -> bool {
        &&& self.items@.len() <= self.cap
        &&& forall|i: int| 0 <= i < self.items@.len() ==> #[trigger] self.items@[i].wf()
    }

    /// Create an empty buffer of capacity `cap`.
    pub fn new(cap: usize) -> (r: Burst)
        ensures
            r.items@.len() == 0,
            r.cap == cap,
            r.wf(),
    {
        Burst { items: Vec::new(), cap }
    }

    /// The number of packets currently held.
    pub fn len(&self) -> (r: usize)
        ensures
            r == self.items@.len(),
    {
        self.items.len()
    }

    /// The fixed capacity.
    pub fn capacity(&self) -> (r: usize)
        ensures
            r == self.cap,
    {
        self.cap
    }

    /// How many more packets the buffer can take.
    pub fn remaining(&self) -> (r: usize)
        requires
            self.items@.len() <= self.cap,
        ensures
            r == self.cap - self.items@.len(),
    {
        self.cap - self.items.len()
    }

    /// Whether the buffer holds no packets.
    pub fn is_empty(&self) -> (r: bool)
        ensures
            r == (self.items@.len() == 0),
    {
        self.items.len() == 0
    }

    /// Append one packet at the end.
    pub fn push(&mut self, pkt: Packet)
        requires
            old(self).items@.len() < old(self).cap,
        ensures
            final(self).items@ == old(self).items@.push(pkt),
            final(self).cap == old(self).cap,
            old(self).wf() && pkt.wf() ==> final(self).wf(),
    {
        self.items.push(pkt);
    }

    /// Remove and return the last packet, if any.
    pub fn pop(&mut self) -> (r: Option<Packet>)
        ensures
            old(self).items@.len() == 0 ==> {
                &&& r is None
                &&& final(self).items@ == old(self).items@
                &&& final(self).cap == old(self).cap
            },
            old(self).items@.len() > 0 ==> {
                &&& r == Some(old(self).items@.last())
                &&& final(self).items@ == old(self).items@.drop_last()
                &&& final(self).cap == old(self).cap
            },
    {
        self.items.pop()
    }

    /// A borrow of the packet at index `i`.
    pub fn get(&self, i: usize) -> (r: &Packet)
        requires
            i < self.items@.len(),
        ensures
            *r == self.items@[i as int],
    {
        &self.items[i]
    }

    /// A mutable borrow of the packet at index `i`.
    pub fn get_mut(&mut self, i: usize) -> (r: &mut Packet)
        requires
            i < old(self).items@.len(),
        ensures
            *r == old(self).items@[i as int],
            final(self).items@ == old(self).items@.update(i as int, *final(r)),
            final(self).cap == old(self).cap,
    {
        &mut self.items[i]
    }
}

} // verus!
