//! A contiguous byte-addressable memory region with a base offset.
//!
//! A region owns `data.len()` bytes starting at address `start` and
//! admits exactly the accesses that lie inside it: the bus, not the
//! region, is in charge of routing and of faulting on unmapped
//! addresses.

use vstd::prelude::*;

use crate::bits::{le_bytes, le_int, BitSize, DataBus};

verus! {

#[derive(Clone)]
pub struct Memory {
    pub start: usize,
    pub data: Vec<u8>,
}

/// The mathematical value of a region: its base and its bytes.
#[verifier::ext_equal]
pub struct MemModel {
    pub start: int,
    pub bytes: Seq<u8>,
}

impl View for Memory {
    type V = MemModel;

    open spec fn view(&self) -> MemModel {
        MemModel { start: self.start as int, bytes: self.data@ }
    }
}

/// The range `[addr, addr + width)` lies inside the region.
pub open spec fn mem_contains(m: Memory, addr: int, width: nat) -> bool {
    m.start <= addr && addr + width <= m.start + m.data@.len()
}

impl Memory {
    /// A fresh region of `capacity` zero bytes based at `start`.
    pub fn new(start: usize, capacity: usize) -> (r: Memory)
        ensures
            r.start == start,
            r.data@ =~= Seq::new(capacity as nat, |i: int| 0u8),
    {
        let mut data: Vec<u8> = Vec::new();
        let mut i: usize = 0;
        while i < capacity
            invariant
                i <= capacity,
                data@ =~= Seq::new(i as nat, |j: int| 0u8),
            decreases capacity - i,
        {
            data.push(0);
            i = i + 1;
        }
        Memory { start, data }
    }

    fn offset(&self, addr: usize) -> (r: usize)
        requires
            self.start <= addr,
        ensures
            r == addr - self.start,
    {
        addr - self.start
    }
}

impl DataBus for Memory {
    /// A region is always in working order.
    open spec fn bus_ok(self) -> bool {
        true
    }

    /// A region admits exactly the accesses inside it.
    open spec fn access_ok(self, addr: int, w: nat) -> bool {
        mem_contains(self, addr, w)
    }

    /// Reads leave a region as it is.
    open spec fn read_state(self, addr: int, w: nat) -> MemModel {
        self@
    }

    /// A read returns the little-endian value of the `w` bytes at
    /// `addr`.
    open spec fn read_val(self, addr: int, w: nat) -> nat {
        le_int(self.data@.subrange(addr - self.start, addr - self.start + w))
    }

    /// A write replaces the `w` bytes at `addr` with the little-endian
    /// bytes of `v` and touches nothing else.
    open spec fn write_state(self, addr: int, w: nat, v: nat) -> MemModel {
        MemModel {
            start: self.start as int,
            bytes: crate::bits::splice(self.data@, addr - self.start, le_bytes(v, w)),
        }
    }

    fn read<T: BitSize>(&mut self, addr: usize) -> (r: T) {
        let offset = self.offset(addr);
        let n = self.data.len();
        let s = vstd::slice::slice_subrange(self.data.as_slice(), offset, offset + T::size());
        let r = T::from(s);
        proof {
            assert(s@.take(T::width() as int) =~= self.data@.subrange(
                addr - self.start,
                addr - self.start + T::width(),
            ));
        }
        r
    }

    fn write<T: BitSize>(&mut self, addr: usize, value: T) {
        let bytes = value.to_bytes();
        let offset = self.offset(addr);
        let n = self.data.len();
        let w = T::size();
        proof {
            crate::bits::lemma_le_bytes_len(value.as_nat(), T::width());
        }
        let mut i: usize = 0;
        while i < w
            invariant
                i <= w,
                w == T::width(),
                bytes@ == le_bytes(value.as_nat(), T::width()),
                bytes@.len() == w,
                offset == addr - self.start,
                n == self.data@.len(),
                offset + w <= n,
                self.start == old(self).start,
                self.data@.len() == old(self).data@.len(),
                forall|j: int| 0 <= j < i ==> self.data@[offset + j] == bytes@[j],
                forall|j: int|
                    0 <= j < self.data@.len() && !(offset <= j < offset + i) ==> self.data@[j]
                        == old(self).data@[j],
            decreases w - i,
        {
            let b = bytes[i];
            self.data.set(offset + i, b);
            i = i + 1;
        }
        proof {
            assert(self.data@ =~= crate::bits::splice(
                old(self).data@,
                offset as int,
                bytes@,
            )) by {
                assert forall|j: int| 0 <= j < self.data@.len() implies self.data@[j]
                    == crate::bits::splice(old(self).data@, offset as int, bytes@)[j] by {
                    if offset <= j < offset + w {
                        assert(self.data@[offset + (j - offset)] == bytes@[j - offset]);
                    }
                }
            }
            assert(self@ =~= old(self).write_state(addr as int, T::width(), value.as_nat()));
        }
    }
}

} // verus!
