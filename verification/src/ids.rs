//! Identifiers for logical cores and NUMA nodes.

use vstd::prelude::*;

verus! {

/// Identifier of one logical execution unit known to the capability layer.
#[derive(Clone, Copy, Debug, Hash, PartialEq, Eq, Structural)]
pub struct LCoreId(pub u32);

impl LCoreId {
    /// Wrap a raw core number reported by the capability layer.
    pub fn new(id: u32) -> (r: LCoreId)
        ensures
            r == (LCoreId(id)),
    {
        LCoreId(id)
    }

    /// The raw core number.
    pub fn raw(&self) -> (r: u32)
        ensures
            r == self.0,
    {
        self.0
    }
}

/// Identifier of one NUMA node; used purely for locality grouping.
#[derive(Clone, Copy, Debug, Hash, PartialEq, Eq, Structural)]
pub struct SocketId(pub u32);

impl SocketId {
    /// Wrap a raw NUMA node number reported by the capability layer.
    pub fn new(id: u32) -> (r: SocketId)
        ensures
            r == (SocketId(id)),
    {
        SocketId(id)
    }

    /// The raw NUMA node number.
    pub fn raw(&self) -> (r: u32)
        ensures
            r == self.0,
    {
        self.0
    }
}

} // verus!
