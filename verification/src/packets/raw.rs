//! The raw packet: one buffer of the pool, owned or only visited.
use crate::native::{MBuf, MBufPool, PoolState};
use crate::packets::buffer::{
    alloc_at, lemma_with_data_again, overwritten, spec_read_slice, write_slice, BufferError,
};
use crate::packets::{Packet, PacketError};
use vstd::prelude::*;

verus! {

/// A raw packet as contracts see it.
pub struct RawPacketView {
    pub mbuf: MBuf,
    pub owned: bool,
}

/// The raw network packet: a buffer of the pool, and whether this packet is
/// the one to release it.
#[derive(Debug)]
pub struct RawPacket {
    mbuf: MBuf,
    owned: bool,
}

impl View for RawPacket {
    type V = RawPacketView;

    closed spec fn view(&self) -> RawPacketView {
        RawPacketView { mbuf: self.mbuf, owned: self.owned }
    }
}

/// The result of a constructor, with the packet as contracts see it.
pub open spec fn view_of(r: Result<RawPacket, BufferError>) -> Result<RawPacketView, BufferError> {
    match r {
        Ok(packet) => Ok(packet@),
        Err(e) => Err(e),
    }
}

/// What `RawPacket::new` answers and leaves of the pool.
pub open spec fn spec_new(pool: PoolState) -> (Result<RawPacketView, BufferError>, PoolState) {
    match pool.spec_mbuf_alloc() {
        (Some(mbuf), after) => (Ok(RawPacketView { mbuf, owned: true }), after),
        (None, after) => (Err(BufferError::FailAlloc), after),
    }
}

/// What `RawPacket::from_bytes` answers and leaves of the pool.
pub open spec fn spec_from_bytes(pool: PoolState, data: Seq<u8>) -> (
    Result<RawPacketView, BufferError>,
    PoolState,
) {
    match pool.spec_mbuf_alloc() {
        (Some(mbuf), after) => if data.len() <= pool.capacity {
            (Ok(RawPacketView { mbuf, owned: true }), after.with_data(mbuf, data))
        } else {
            (Err(BufferError::NotResized), pool)
        },
        (None, after) => (Err(BufferError::FailAlloc), pool),
    }
}

/// Whether two buffers hold the same bytes: as many, and each the same.
pub open spec fn same_bytes(pool: PoolState, a: MBuf, b: MBuf) -> bool {
    &&& pool.data(a).len() == pool.data(b).len()
    &&& forall|i: int| 0 <= i < pool.data(a).len() ==> pool.data(a)[i] == pool.data(b)[i]
}

/// What dropping a packet leaves of the pool: an owned packet gives up its
/// one reference, another leaves the pool as it is.
pub open spec fn spec_drop(packet: RawPacketView, pool: PoolState) -> PoolState {
    if packet.owned {
        pool.freed(packet.mbuf)
    } else {
        pool
    }
}

impl RawPacket {
    /// Creates a new packet by allocating a new buffer. The packet owns the
    /// buffer, which is empty.
    pub fn new(pool: &mut MBufPool) -> (r: Result<RawPacket, BufferError>)
        ensures
            (view_of(r), final(pool)@) == spec_new(old(pool)@),
            r is Ok <==> old(pool)@.has_free(),
            r matches Ok(packet) ==> old(pool)@.is_first_free(packet@.mbuf.index as int)
                && final(pool)@.data(packet@.mbuf).len() == 0,
    {
        match pool.mbuf_alloc() {
            Some(mbuf) => Ok(RawPacket { mbuf, owned: true }),
            None => Err(BufferError::FailAlloc),
        }
    }

    /// Creates a new packet and fills its buffer with a copy of `data`.
    pub fn from_bytes(pool: &mut MBufPool, data: &[u8]) -> (r: Result<RawPacket, BufferError>)
        ensures
            (view_of(r), final(pool)@) == spec_from_bytes(old(pool)@, data@),
            r is Ok <==> old(pool)@.has_free() && data@.len() <= old(pool)@.capacity,
            r matches Ok(packet) ==> old(pool)@.is_first_free(packet@.mbuf.index as int)
                && final(pool)@.data(packet@.mbuf) == data@,
    {
        proof {
            pool.lemma_view_wf();
        }
        let packet = match RawPacket::new(pool) {
            Ok(packet) => packet,
            Err(e) => {
                return Err(e);
            },
        };
        let ghost fresh = pool@;
        proof {
            lemma_with_data_again(fresh, packet.mbuf, data@, data@);
        }
        match alloc_at(pool, packet.mbuf, 0, data.len()) {
            Ok(()) => {},
            Err(e) => {
                packet.drop(pool);
                assert(final(pool)@ == old(pool)@) by {
                    let slot = packet@.mbuf.index as int;
                    assert(old(pool)@.is_free(slot));
                    assert(old(pool)@.bufs[slot].data =~= Seq::<u8>::empty());
                    assert(final(pool)@.bufs =~= old(pool)@.bufs);
                }
                return Err(e);
            },
        }
        let ghost grown = pool@;
        proof {
            lemma_with_data_again(fresh, packet.mbuf, grown.data(packet.mbuf), data@);
        }
        match write_slice(pool, packet.mbuf, 0, data) {
            Ok(()) => {},
            Err(e) => {
                packet.drop(pool);
                return Err(e);
            },
        }
        assert(overwritten(grown.data(packet.mbuf), 0, data@) =~= data@);
        Ok(packet)
    }

    /// Creates a new packet over a buffer that somebody else holds. The packet
    /// does not own the buffer.
    pub fn from_mbuf(mbuf: MBuf) -> (packet: RawPacket)
        ensures
            packet@ == (RawPacketView { mbuf, owned: false }),
    {
        RawPacket { mbuf, owned: false }
    }

    /// Returns the reference count of the underlying buffer.
    pub fn refcnt(&self, pool: &MBufPool) -> (n: u16)
        ensures
            n == pool@.refcnt(self@.mbuf),
    {
        pool.refcnt(self.mbuf)
    }

    /// Gives up the ownership of the underlying buffer: dropping the packet
    /// will then leave the buffer alone.
    pub fn unown(&mut self)
        ensures
            final(self)@ == (RawPacketView { mbuf: old(self)@.mbuf, owned: false }),
    {
        self.owned = false;
    }

    /// Whether two packets hold the same bytes. The lengths are compared
    /// first, and the bytes only where the lengths agree.
    pub fn eq(&self, other: &RawPacket, pool: &MBufPool) -> (b: bool)
        ensures
            b == same_bytes(pool@, self@.mbuf, other@.mbuf),
            b == (pool@.data(self@.mbuf) == pool@.data(other@.mbuf)),
    {
        if pool.data_len(self.mbuf) != pool.data_len(other.mbuf) {
            false
        } else {
            let len: usize = pool.data_len(self.mbuf);
            let lhs_slice = pool.data(self.mbuf);
            let rhs_slice = pool.data(other.mbuf);
            let mut i: usize = 0;
            while i < len
                invariant
                    i <= len,
                    len == lhs_slice@.len(),
                    len == rhs_slice@.len(),
                    lhs_slice@ == pool@.data(self@.mbuf),
                    rhs_slice@ == pool@.data(other@.mbuf),
                    forall|k: int| 0 <= k < i ==> lhs_slice@[k] == rhs_slice@[k],
                decreases len - i,
            {
                if lhs_slice[i] != rhs_slice[i] {
                    return false;
                }
                i = i + 1;
            }
            assert(lhs_slice@ =~= rhs_slice@);
            true
        }
    }

    /// Ends the packet. An owned packet gives its buffer back to the pool;
    /// one that is not owned leaves the pool as it is.
    pub fn drop(self, pool: &mut MBufPool)
        ensures
            final(pool)@ == spec_drop(self@, old(pool)@),
    {
        if self.owned {
            pool.mbuf_free(self.mbuf);
        }
    }
}

/// The raw packet is the root of every chain of layers: it has no header, it
/// begins at the first byte of its buffer, and it is its own envelope.
impl Packet for RawPacket {
    type Header = ();

    type Envelope = RawPacket;

    open spec fn spec_envelope(&self) -> RawPacket {
        *self
    }

    open spec fn spec_mbuf(&self) -> MBuf {
        self@.mbuf
    }

    open spec fn spec_offset(&self) -> usize {
        0
    }

    open spec fn spec_header_len(&self) -> usize {
        0
    }

    fn envelope(&self) -> (r: &RawPacket) {
        self
    }

    fn envelope_mut(&mut self) -> (r: &mut RawPacket)
        ensures
            *final(self) == *final(r),
    {
        self
    }

    fn mbuf(&self) -> (r: MBuf) {
        self.mbuf
    }

    fn offset(&self) -> (r: usize)
        ensures
            r == 0,
    {
        0
    }

    fn header_len(&self) -> (r: usize)
        ensures
            r == 0,
    {
        0
    }

    fn do_parse(envelope: RawPacket, pool: &MBufPool) -> (r: Result<RawPacket, PacketError>)
        ensures
            r == Ok::<RawPacket, PacketError>(envelope),
    {
        Ok(envelope)
    }

    fn do_push(envelope: RawPacket, pool: &mut MBufPool) -> (r: Result<RawPacket, PacketError>)
        ensures
            r == Ok::<RawPacket, PacketError>(envelope),
            final(pool)@ == old(pool)@,
    {
        Ok(envelope)
    }

    /// Removing the root takes nothing out: it never fails.
    fn remove(self, pool: &mut MBufPool) -> (r: Result<RawPacket, PacketError>)
        ensures
            r == Ok::<RawPacket, PacketError>(self),
            final(pool)@ == old(pool)@,
    {
        Ok(self)
    }

    /// There is nothing above the root to carry a change to.
    fn cascade(&mut self, pool: &mut MBufPool)
        ensures
            *final(self) == *old(self),
            final(pool)@ == old(pool)@,
    {
    }

    fn deparse(self) -> (r: RawPacket) {
        self
    }

    fn reset(self) -> (r: RawPacket)
        ensures
            r == self,
    {
        self
    }
}

/// The bytes that a packet was made from are the bytes that its buffer gives
/// back, whole and in order.
pub proof fn lemma_from_bytes_round_trip(pool: PoolState, data: Seq<u8>)
    ensures
        spec_from_bytes(pool, data) matches (Ok(packet), after) ==> {
            &&& after.data(packet.mbuf) == data
            &&& spec_read_slice(after, packet.mbuf, 0, data.len() as usize) == Ok::<
                Seq<u8>,
                BufferError,
            >(data)
        },
{
    if pool.has_free() && data.len() <= pool.capacity {
        pool.lemma_has_first_free();
        let mbuf = MBuf { index: pool.first_free() as usize };
        let after = pool.taken(mbuf).with_data(mbuf, data);
        assert(after.data(mbuf) == data);
        assert(data.subrange(0, data.len() as int) =~= data);
    }
}

/// Two packets are equal exactly when their buffers hold as many bytes and
/// the same byte at each place, whichever buffers they are; so two packets
/// made from the same bytes are equal, and two of different lengths are not.
pub proof fn lemma_eq_is_same_bytes(pool: PoolState, a: MBuf, b: MBuf)
    ensures
        same_bytes(pool, a, b) <==> pool.data(a) == pool.data(b),
        pool.data(a).len() != pool.data(b).len() ==> !same_bytes(pool, a, b),
        same_bytes(pool, a, a),
        same_bytes(pool, a, b) == same_bytes(pool, b, a),
{
    if same_bytes(pool, a, b) {
        assert(pool.data(a) =~= pool.data(b));
    }
}

/// Two packets made one after the other, each from its own bytes, are equal
/// exactly when the two byte sequences are: as long, and the same at each
/// place.
pub proof fn lemma_eq_of_from_bytes(pool: PoolState, first: Seq<u8>, second: Seq<u8>)
    requires
        pool.wf(),
    ensures
        spec_from_bytes(pool, first) matches (Ok(a), between) ==> (spec_from_bytes(
            between,
            second,
        ) matches (Ok(b), after) ==> {
            &&& a.mbuf != b.mbuf
            &&& after.data(a.mbuf) == first
            &&& after.data(b.mbuf) == second
            &&& same_bytes(after, a.mbuf, b.mbuf) <==> first == second
            &&& first.len() != second.len() ==> !same_bytes(after, a.mbuf, b.mbuf)
        }),
{
    if pool.has_free() && first.len() <= pool.capacity {
        pool.lemma_has_first_free();
        let a = MBuf { index: pool.first_free() as usize };
        let between = pool.taken(a).with_data(a, first);
        if between.has_free() && second.len() <= between.capacity {
            between.lemma_has_first_free();
            let b = MBuf { index: between.first_free() as usize };
            let after = between.taken(b).with_data(b, second);
            assert(!between.is_free(a.index as int));
            assert(after.data(a) == first);
            assert(after.data(b) == second);
            lemma_eq_is_same_bytes(after, a, b);
        }
    }
}

/// A packet that gave up its ownership leaves the pool untouched when it is
/// dropped; an owned packet gives up exactly one reference, and dropping
/// the handle once more, without ownership, gives up none.
pub proof fn lemma_drop_frees_once(packet: RawPacketView, pool: PoolState)
    ensures
        spec_drop(RawPacketView { mbuf: packet.mbuf, owned: false }, pool) == pool,
        packet.owned ==> spec_drop(packet, pool) == pool.freed(packet.mbuf),
        packet.owned && pool.is_live(packet.mbuf) ==> spec_drop(packet, pool).refcnt(packet.mbuf)
            == pool.refcnt(packet.mbuf) - 1,
        forall|other: MBuf|
            other != packet.mbuf ==> #[trigger] spec_drop(packet, pool).refcnt(other)
                == pool.refcnt(other) && spec_drop(packet, pool).data(other) == pool.data(other),
{
}

} // verus!
