//! The stage that lays a header over each packet of the batch it is built on.
use crate::native::{MBufPool, PoolState};
use crate::packet_batch::{
    cast_from_u8, header_in_bounds, spec_cast, Act, Address, ProcessPacketBatch,
};
use crate::packets::EndOffset;
use std::marker::PhantomData;
use vstd::prelude::*;

verus! {

/// A batch seen through a header of type `T`: the payload of a packet begins
/// where the header that lies at the parent's payload ends. The stage holds
/// no packets of its own, only its parent and whether it has run.
pub struct ParsedBatch<'a, T: 'a + EndOffset, V> where V: 'a + ProcessPacketBatch + Act {
    pub parent: &'a mut V,
    pub applied: bool,
    pub phantom: PhantomData<&'a T>,
}

impl<'a, T, V> ParsedBatch<'a, T, V> where T: 'a + EndOffset, V: 'a + ProcessPacketBatch + Act {
    /// The batch that this stage is built on, as it is now.
    pub open spec fn parent(&self) -> V {
        *self.parent
    }

    /// A stage over `parent` that has not run. The parent is borrowed, not
    /// copied: what the stage leaves of it is what the lender gets back.
    pub fn new(parent: &'a mut V) -> (batch: Self)
        ensures
            batch.parent() == *old(parent),
            *final(batch.parent) == *final(parent),
            !batch.applied,
    {
        ParsedBatch { applied: false, parent, phantom: PhantomData }
    }
}

impl<'a, T, V> Act for ParsedBatch<'a, T, V> where
    T: 'a + EndOffset,
    V: 'a + ProcessPacketBatch + Act,
 {
    /// The parent has run, then the stage is marked as run.
    open spec fn acts(before: Self, after: Self) -> bool {
        &&& V::acts(before.parent(), after.parent())
        &&& after.applied
    }

    /// Runs the parent, then marks the stage as run. Whether the stage had
    /// run before makes no difference.
    fn act(&mut self) -> (r: &mut Self)
        ensures
            V::acts(old(self).parent(), r.parent()),
            r.applied,
            *final(r.parent) == *final(old(self).parent),
    {
        self.parent.act();
        self.applied = true;
        self
    }
}

impl<'a, T, V> ProcessPacketBatch for ParsedBatch<'a, T, V> where
    T: 'a + EndOffset,
    V: 'a + ProcessPacketBatch + Act,
 {
    open spec fn spec_start(&self) -> usize {
        self.parent().spec_start()
    }

    open spec fn has_packet(&self, idx: usize) -> bool {
        self.parent().has_packet(idx)
    }

    open spec fn spec_address(&self, idx: usize) -> Address {
        self.parent().spec_address(idx)
    }

    open spec fn payload_in_bounds(&self, idx: usize, pool: PoolState) -> bool {
        &&& self.parent().payload_in_bounds(idx, pool)
        &&& header_in_bounds::<T>(pool, self.parent().spec_payload(idx, pool))
    }

    open spec fn spec_payload(&self, idx: usize, pool: PoolState) -> Address {
        let address = self.parent().spec_payload(idx, pool);
        address.spec_advance(spec_cast::<T>(pool, address).spec_offset())
    }

    open spec fn spec_next_address(&self, idx: usize) -> Option<(Address, usize)> {
        self.parent().spec_next_address(idx)
    }

    open spec fn spec_next_payload(&self, idx: usize, pool: PoolState) -> Option<(Address, usize)> {
        match self.parent().spec_next_payload(idx, pool) {
            Some((packet, next)) => Some(
                (packet.spec_advance(spec_cast::<T>(pool, packet).spec_offset()), next),
            ),
            None => None,
        }
    }

    open spec fn next_payload_in_bounds(&self, idx: usize, pool: PoolState) -> bool {
        &&& self.parent().next_payload_in_bounds(idx, pool)
        &&& self.parent().spec_next_payload(idx, pool) matches Some((packet, next))
            ==> header_in_bounds::<T>(pool, packet)
    }

    /// The first index of the parent.
    fn start(&self) -> (idx: usize)
        ensures
            idx == self.parent().spec_start(),
    {
        self.parent.start()
    }

    /// The parent's payload for `idx`, advanced by the offset that the header
    /// lying there gives.
    fn payload(&self, idx: usize, pool: &MBufPool) -> (r: Address)
        ensures
            r.mbuf == self.parent().spec_payload(idx, pool@).mbuf,
            r.offset == self.parent().spec_payload(idx, pool@).offset + spec_cast::<T>(
                pool@,
                self.parent().spec_payload(idx, pool@),
            ).spec_offset(),
    {
        proof {
            pool.lemma_view_wf();
        }
        let address = self.parent.payload(idx, pool);
        let offset: usize = cast_from_u8::<T>(pool, address).offset();
        address.advance(offset)
    }

    /// The parent's address for `idx`, unchanged.
    fn address(&self, idx: usize) -> (r: Address)
        ensures
            r == self.parent().spec_address(idx),
    {
        self.parent.address(idx)
    }

    /// What the parent's `next_address` answers, unchanged.
    fn next_address(&self, idx: usize) -> (r: Option<(Address, usize)>)
        ensures
            r == self.parent().spec_next_address(idx),
    {
        self.parent.next_address(idx)
    }

    /// What the parent's `next_payload` answers, the place advanced by the
    /// offset that the header lying there gives; nothing where the parent
    /// answers nothing.
    fn next_payload(&self, idx: usize, pool: &MBufPool) -> (r: Option<(Address, usize)>)
        ensures
            r is None <==> self.parent().spec_next_payload(idx, pool@) is None,
            r matches Some((place, next)) ==> {
                let from = self.parent().spec_next_payload(idx, pool@)->0;
                &&& next == from.1
                &&& place.mbuf == from.0.mbuf
                &&& place.offset == from.0.offset + spec_cast::<T>(pool@, from.0).spec_offset()
            },
    {
        proof {
            pool.lemma_view_wf();
        }
        let parent_payload = self.parent.next_payload(idx, pool);
        match parent_payload {
            Some((packet, idx)) => {
                let offset: usize = cast_from_u8::<T>(pool, packet).offset();
                Some((packet.advance(offset), idx))
            },
            None => None,
        }
    }
}

} // verus!
