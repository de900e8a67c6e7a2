//! A single buffer borrowed from a pool.
//!
//! The buffer region `[data_off, data_off + data_len)` always lies within
//! `[0, capacity)`; every length mutation is bounds-checked against that
//! invariant by precondition, so no verified operation can panic.

use vstd::prelude::*;
use crate::DEFAULT_HEADROOM;

verus! {

/// One packet buffer drawn from a pool's native free list.
///
/// A `Packet` value is minted only by an allocation or receive operation and
/// consumed only by a free or transmit operation, so holding one witnesses
/// an outstanding buffer of its pool.
#[derive(Debug)]
pub struct Packet {
    /// Index of the owning pool in the capability layer's pool table.
    pub pool: usize,
    /// Offset of the first data byte within the buffer.
    pub data_off: usize,
    /// Number of data bytes currently considered part of the packet.
    pub data_len: usize,
    /// The backing buffer; its length is the packet's capacity.
    pub buf: Vec<u8>,
}

impl Packet {
    /// The data region lies within the allocated capacity.
    pub open spec fn wf(self) -> bool {
        self.data_off + self.data_len <= self.buf@.len()
    }

    /// The bytes of the current data region.
    pub open spec fn data_spec(self) -> Seq<u8> {
        self.buf@.subrange(self.data_off as int, self.data_off + self.data_len)
    }

    /// Mint a fresh zero-filled packet for a pool; used by allocation paths.
    pub(crate) fn mint(pool: usize, room: usize) -> (r: Packet)
        requires
            room >= DEFAULT_HEADROOM,
        ensures
            r.pool == pool,
            r.data_off == DEFAULT_HEADROOM,
            r.data_len == 0,
            r.buf@ == Seq::<u8>::new(room as nat, |i: int| 0u8),
            r.wf(),
    {
        let buf: Vec<u8> = vec![0u8; room];
        assert(buf@ =~= Seq::<u8>::new(room as nat, |i: int| 0u8));
        Packet { pool, data_off: DEFAULT_HEADROOM, data_len: 0, buf }
    }

    /// Mint a packet for a pool holding the bytes of one received frame;
    /// used by the receive path.
    pub(crate) fn from_frame(pool: usize, room: usize, frame: Vec<u8>) -> (r: Packet)
        requires
            DEFAULT_HEADROOM + frame@.len() <= room,
        ensures
            r.pool == pool,
            r.data_off == DEFAULT_HEADROOM,
            r.data_len == frame@.len(),
            r.buf@.len() == room,
            r.data_spec() == frame@,
            r.wf(),
    {
        let n = frame.len();
        let mut buf: Vec<u8> = vec![0u8; room];
        let mut i: usize = 0;
        while i < n
            invariant
                i <= n,
                n == frame@.len(),
                DEFAULT_HEADROOM + n <= room,
                buf@.len() == room,
                forall|j: int| 0 <= j < i ==> buf@[DEFAULT_HEADROOM + j] == frame@[j],
            decreases n - i,
        {
            buf.set(DEFAULT_HEADROOM + i, frame[i]);
            i = i + 1;
        }
        let r = Packet { pool, data_off: DEFAULT_HEADROOM, data_len: n, buf };
        assert(r.data_spec() =~= frame@);
        r
    }

    /// Copy the current data region out into a fresh byte vector.
    pub fn data_vec(&self) -> (r: Vec<u8>)
        requires
            self.wf(),
        ensures
            r@ == self.data_spec(),
    {
        let _room = self.buf.len();
        let mut out: Vec<u8> = Vec::new();
        let mut i: usize = 0;
        while i < self.data_len
            invariant
                i <= self.data_len,
                self.wf(),
                out@.len() == i,
                forall|j: int| 0 <= j < i ==> out@[j] == self.buf@[self.data_off + j],
            decreases self.data_len - i,
        {
            let _room = self.buf.len();
            out.push(self.buf[self.data_off + i]);
            i = i + 1;
        }
        assert(out@ =~= self.data_spec());
        out
    }

    /// Whether the packet currently holds no data.
    pub fn is_empty(&self) -> (r: bool)
        ensures
            r == (self.data_len == 0),
    {
        self.data_len == 0
    }

    /// The current data length.
    pub fn len(&self) -> (r: usize)
        ensures
            r == self.data_len,
    {
        self.data_len
    }

    /// The total allocated capacity of the buffer.
    pub fn capacity(&self) -> (r: usize)
        ensures
            r == self.buf@.len(),
    {
        self.buf.len()
    }

    /// Set the data length to `size`.
    ///
    /// A length that would push the data region past the capacity is a
    /// consistency bug, ruled out by precondition.
    pub fn set_len(&mut self, size: usize)
        requires
            old(self).data_off + size <= old(self).buf@.len(),
        ensures
            *final(self) == (Packet { data_len: size, ..*old(self) }),
            final(self).wf(),
    {
        self.data_len = size;
    }

    /// Read the byte at index `i` of the data region.
    pub fn data_byte(&self, i: usize) -> (r: u8)
        requires
            self.wf(),
            i < self.data_len,
        ensures
            r == self.data_spec()[i as int],
    {
        let _room = self.buf.len();
        self.buf[self.data_off + i]
    }

    /// Read the byte at index `i` of the buffer, counted from the headroom end.
    pub fn buffer_byte(&self, i: usize) -> (r: u8)
        requires
            self.data_off + i < self.buf@.len(),
        ensures
            r == self.buf@[self.data_off + i],
    {
        let _room = self.buf.len();
        self.buf[self.data_off + i]
    }

    /// Write the byte at index `i` of the buffer, counted from the headroom end.
    pub fn write_byte(&mut self, i: usize, v: u8)
        requires
            old(self).data_off + i < old(self).buf@.len(),
        ensures
            final(self).buf@ == old(self).buf@.update(old(self).data_off + i, v),
            final(self).pool == old(self).pool,
            final(self).data_off == old(self).data_off,
            final(self).data_len == old(self).data_len,
            old(self).wf() ==> final(self).wf(),
    {
        let _room = self.buf.len();
        let idx = self.data_off + i;
        self.buf.set(idx, v);
    }

    /// Skip the first `size` bytes of the data region.
    pub fn trim_head(&mut self, size: usize)
        requires
            old(self).wf(),
            size <= old(self).data_len,
        ensures
            *final(self) == (Packet {
                data_off: (old(self).data_off + size) as usize,
                data_len: (old(self).data_len - size) as usize,
                ..*old(self)
            }),
            final(self).wf(),
    {
        let _room = self.buf.len();
        self.data_off = self.data_off + size;
        self.data_len = self.data_len - size;
    }

    /// Drop the last `size` bytes of the data region.
    pub fn trim_tail(&mut self, size: usize)
        requires
            size <= old(self).data_len,
        ensures
            *final(self) == (Packet {
                data_len: (old(self).data_len - size) as usize,
                ..*old(self)
            }),
            old(self).wf() ==> final(self).wf(),
    {
        self.data_len = self.data_len - size;
    }

    /// Grow the data region to the left into the headroom.
    pub fn prepend(&mut self, size: usize)
        requires
            old(self).wf(),
            size <= old(self).data_off,
        ensures
            *final(self) == (Packet {
                data_off: (old(self).data_off - size) as usize,
                data_len: (old(self).data_len + size) as usize,
                ..*old(self)
            }),
            final(self).wf(),
    {
        let _room = self.buf.len();
        self.data_off = self.data_off - size;
        self.data_len = self.data_len + size;
    }

    /// Grow the data region to the right into the tailroom.
    pub fn append(&mut self, size: usize)
        requires
            old(self).wf(),
            old(self).data_off + old(self).data_len + size <= old(self).buf@.len(),
        ensures
            *final(self) == (Packet {
                data_len: (old(self).data_len + size) as usize,
                ..*old(self)
            }),
            final(self).wf(),
    {
        let _room = self.buf.len();
        self.data_len = self.data_len + size;
    }

    /// Move the data region back to the default headroom offset.
    pub fn reset_headroom(&mut self)
        requires
            old(self).wf(),
            DEFAULT_HEADROOM + old(self).data_len <= old(self).buf@.len(),
        ensures
            *final(self) == (Packet { data_off: DEFAULT_HEADROOM, ..*old(self) }),
            final(self).wf(),
    {
        self.data_off = DEFAULT_HEADROOM;
    }
}

} // verus!
