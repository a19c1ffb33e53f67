//! Batches of packets and the stages that walk them.
//!
//! A stage hands out places in buffers, never bytes: where a packet begins,
//! and where the payload begins that the stage's header leaves.
use crate::native::{MBuf, MBufPool, PoolState};
use crate::packets::{EndOffset, Fixed};
use vstd::prelude::*;
use vstd::slice::slice_subrange;

pub mod base;
pub mod parsed_batch;

verus! {

/// A place in a buffer: what a raw pointer into the packet's bytes stands for.
#[derive(Clone, Copy, Debug, PartialEq, Eq, Structural)]
pub struct Address {
    pub mbuf: MBuf,
    pub offset: usize,
}

impl Address {
    /// The place `count` bytes further on.
    pub open spec fn spec_advance(self, count: usize) -> Address {
        Address { mbuf: self.mbuf, offset: (self.offset + count) as usize }
    }

    /// The place `count` bytes further on.
    pub fn advance(self, count: usize) -> (r: Address)
        requires
            self.offset + count <= usize::MAX,
        ensures
            r == self.spec_advance(count),
    {
        Address { mbuf: self.mbuf, offset: self.offset + count }
    }
}

/// The header of type `T` that the bytes at a place stand for.
pub open spec fn spec_cast<T: EndOffset>(pool: PoolState, address: Address) -> T {
    T::spec_decode(
        pool.data(address.mbuf).subrange(address.offset as int, address.offset + T::spec_size()),
    )
}

/// A header of type `T` at the place, and the payload that it leaves, lie
/// within the bytes of the buffer.
pub open spec fn header_in_bounds<T: EndOffset>(pool: PoolState, address: Address) -> bool {
    &&& address.offset + T::spec_size() <= pool.data(address.mbuf).len()
    &&& address.offset + spec_cast::<T>(pool, address).spec_offset() <= pool.data(
        address.mbuf,
    ).len()
}

/// Reads the bytes at a place as a header of type `T`.
pub fn cast_from_u8<T: EndOffset>(pool: &MBufPool, address: Address) -> (header: T)
    requires
        address.offset + T::spec_size() <= pool@.data(address.mbuf).len(),
    ensures
        header == spec_cast::<T>(pool@, address),
{
    let bytes = slice_subrange(
        pool.data(address.mbuf),
        address.offset,
        address.offset + T::size(),
    );
    T::decode(bytes)
}

/// Whether a header of type `T` at the place, and the payload that it leaves,
/// lie within the bytes of the buffer: what a stage over `T` asks of the place
/// that its parent's payload begins at.
pub fn header_fits<T: EndOffset>(pool: &MBufPool, address: Address) -> (b: bool)
    ensures
        b == header_in_bounds::<T>(pool@, address),
{
    let data_len: usize = pool.data_len(address.mbuf);
    if address.offset > data_len || T::size() > data_len - address.offset {
        return false;
    }
    let offset: usize = cast_from_u8::<T>(pool, address).offset();
    offset <= data_len - address.offset
}

/// The trigger of a stage: running it runs what it is built on first.
pub trait Act: Sized {
    /// `after` is what one `act` makes of `before`.
    spec fn acts(before: Self, after: Self) -> bool;

    /// Runs the stage and hands it back.
    fn act(&mut self) -> (r: &mut Self)
        ensures
            Self::acts(*old(self), *r),
            *final(self) == *final(r),
    ;
}

/// The cursor of a stage over the packets of its batch, by index.
pub trait ProcessPacketBatch: Sized {
    /// The index of the first packet.
    spec fn spec_start(&self) -> usize;

    /// The batch holds a packet at `idx`.
    spec fn has_packet(&self, idx: usize) -> bool;

    /// Where packet `idx` begins.
    spec fn spec_address(&self, idx: usize) -> Address;

    /// Every header that lies before the payload of packet `idx`, and the
    /// payload's first byte, are within the bytes of the packet's buffer.
    spec fn payload_in_bounds(&self, idx: usize, pool: PoolState) -> bool;

    /// Where the payload of packet `idx` begins, after this stage's header.
    spec fn spec_payload(&self, idx: usize, pool: PoolState) -> Address;

    /// What `next_address` answers.
    spec fn spec_next_address(&self, idx: usize) -> Option<(Address, usize)>;

    /// What `next_payload` answers.
    spec fn spec_next_payload(&self, idx: usize, pool: PoolState) -> Option<(Address, usize)>;

    /// Every header that lies before the payload that `next_payload` answers,
    /// and the payload's first byte, are within the bytes of the packet's
    /// buffer.
    spec fn next_payload_in_bounds(&self, idx: usize, pool: PoolState) -> bool;

    /// The index of the first packet.
    fn start(&self) -> (idx: usize)
        ensures
            idx == self.spec_start(),
    ;

    /// Where the payload of packet `idx` begins, after this stage's header.
    /// The caller sees to it that the headers on the way lie within the
    /// packet's bytes.
    fn payload(&self, idx: usize, pool: &MBufPool) -> (r: Address)
        requires
            self.has_packet(idx),
            self.payload_in_bounds(idx, pool@),
        ensures
            r == self.spec_payload(idx, pool@),
    ;

    /// Where packet `idx` begins, before any header.
    fn address(&self, idx: usize) -> (r: Address)
        requires
            self.has_packet(idx),
        ensures
            r == self.spec_address(idx),
    ;

    /// Where the packet at `idx` begins and the index to go on from, or
    /// nothing where the batch is exhausted.
    fn next_address(&self, idx: usize) -> (r: Option<(Address, usize)>)
        ensures
            r == self.spec_next_address(idx),
    ;

    /// Where the payload of the packet at `idx` begins and the index to go
    /// on from, or nothing where the batch is exhausted.
    fn next_payload(&self, idx: usize, pool: &MBufPool) -> (r: Option<(Address, usize)>)
        requires
            self.next_payload_in_bounds(idx, pool@),
        ensures
            r == self.spec_next_payload(idx, pool@),
    ;
}

} // verus!
