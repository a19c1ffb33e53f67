//! The batch that every chain of stages starts from.
use crate::native::{MBuf, MBufPool, PoolState};
use crate::packet_batch::{Act, Address, ProcessPacketBatch};
use vstd::prelude::*;

verus! {

/// The buffers of a batch of packets, in order. It has no header of its own:
/// the payload of a packet begins where the packet begins.
pub struct PacketBatch {
    array: Vec<MBuf>,
}

impl View for PacketBatch {
    type V = Seq<MBuf>;

    closed spec fn view(&self) -> Seq<MBuf> {
        self.array@
    }
}

impl PacketBatch {
    /// The batch of the packets in these buffers, in this order.
    pub fn new(array: Vec<MBuf>) -> (batch: PacketBatch)
        ensures
            batch@ == array@,
    {
        PacketBatch { array }
    }

    /// The number of packets.
    pub fn len(&self) -> (n: usize)
        ensures
            n == self@.len(),
    {
        self.array.len()
    }
}

/// The root of a chain has nothing to run.
impl Act for PacketBatch {
    open spec fn acts(before: Self, after: Self) -> bool {
        after == before
    }

    fn act(&mut self) -> (r: &mut Self) {
        self
    }
}

impl ProcessPacketBatch for PacketBatch {
    open spec fn spec_start(&self) -> usize {
        0
    }

    open spec fn has_packet(&self, idx: usize) -> bool {
        idx < self@.len()
    }

    open spec fn spec_address(&self, idx: usize) -> Address {
        Address { mbuf: self@[idx as int], offset: 0 }
    }

    open spec fn payload_in_bounds(&self, idx: usize, pool: PoolState) -> bool {
        true
    }

    open spec fn spec_payload(&self, idx: usize, pool: PoolState) -> Address {
        self.spec_address(idx)
    }

    open spec fn spec_next_address(&self, idx: usize) -> Option<(Address, usize)> {
        if self.has_packet(idx) {
            Some((self.spec_address(idx), (idx + 1) as usize))
        } else {
            None
        }
    }

    open spec fn spec_next_payload(&self, idx: usize, pool: PoolState) -> Option<(Address, usize)> {
        self.spec_next_address(idx)
    }

    open spec fn next_payload_in_bounds(&self, idx: usize, pool: PoolState) -> bool {
        true
    }

    fn start(&self) -> (idx: usize) {
        0
    }

    fn payload(&self, idx: usize, pool: &MBufPool) -> (r: Address) {
        Address { mbuf: self.array[idx], offset: 0 }
    }

    fn address(&self, idx: usize) -> (r: Address) {
        Address { mbuf: self.array[idx], offset: 0 }
    }

    fn next_address(&self, idx: usize) -> (r: Option<(Address, usize)>) {
        if idx < self.array.len() {
            Some((self.address(idx), idx + 1))
        } else {
            None
        }
    }

    fn next_payload(&self, idx: usize, pool: &MBufPool) -> (r: Option<(Address, usize)>) {
        if idx < self.array.len() {
            Some((self.payload(idx, pool), idx + 1))
        } else {
            None
        }
    }
}

} // verus!
