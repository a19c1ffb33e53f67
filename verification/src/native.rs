//! The buffer pool: allocation, release, reference counts and the raw bytes.
use vstd::prelude::*;

verus! {

/// Handle of one buffer of a pool: the number of its slot.
#[derive(Clone, Copy, Debug, PartialEq, Eq, Structural)]
pub struct MBuf {
    pub index: usize,
}

/// One buffer as contracts see it.
pub struct MBufState {
    pub data: Seq<u8>,
    pub refcnt: u16,
}

/// A pool as contracts see it: its buffers by slot, and the most bytes that
/// one buffer can hold.
pub struct PoolState {
    pub bufs: Seq<MBufState>,
    pub capacity: usize,
}

impl PoolState {
    /// A pool of `count` buffers, all free.
    pub open spec fn fresh(count: nat, capacity: usize) -> PoolState {
        PoolState {
            bufs: Seq::new(count, |i: int| MBufState { data: Seq::empty(), refcnt: 0 }),
            capacity,
        }
    }

    /// The handle names a slot of this pool.
    pub open spec fn contains(self, mbuf: MBuf) -> bool {
        mbuf.index < self.bufs.len()
    }

    /// The handle names a buffer that is allocated.
    pub open spec fn is_live(self, mbuf: MBuf) -> bool {
        self.contains(mbuf) && self.bufs[mbuf.index as int].refcnt > 0
    }

    /// The bytes of a buffer; a handle that is not live has none.
    pub open spec fn data(self, mbuf: MBuf) -> Seq<u8> {
        if self.is_live(mbuf) {
            self.bufs[mbuf.index as int].data
        } else {
            Seq::empty()
        }
    }

    /// The reference count of a buffer; zero where the handle names no slot.
    pub open spec fn refcnt(self, mbuf: MBuf) -> u16 {
        if self.contains(mbuf) {
            self.bufs[mbuf.index as int].refcnt
        } else {
            0
        }
    }

    /// The bytes that a buffer can still take.
    pub open spec fn room(self, mbuf: MBuf) -> int {
        if self.is_live(mbuf) && self.data(mbuf).len() <= self.capacity {
            self.capacity - self.data(mbuf).len()
        } else {
            0
        }
    }

    /// The pool with the bytes of one live buffer replaced.
    pub open spec fn with_data(self, mbuf: MBuf, data: Seq<u8>) -> PoolState {
        if self.is_live(mbuf) {
            PoolState {
                bufs: self.bufs.update(
                    mbuf.index as int,
                    MBufState { data, refcnt: self.bufs[mbuf.index as int].refcnt },
                ),
                capacity: self.capacity,
            }
        } else {
            self
        }
    }

    /// Slot `i` is free.
    pub open spec fn is_free(self, i: int) -> bool {
        0 <= i < self.bufs.len() && self.bufs[i].refcnt == 0
    }

    /// Slot `i` is free and no slot before it is.
    pub open spec fn is_first_free(self, i: int) -> bool {
        self.is_free(i) && forall|j: int| 0 <= j < i ==> !self.is_free(j)
    }

    /// Some slot is free.
    pub open spec fn has_free(self) -> bool {
        exists|i: int| self.is_free(i)
    }

    /// The first free slot, where there is one.
    pub open spec fn first_free(self) -> int {
        choose|i: int| self.is_first_free(i)
    }

    /// What `mbuf_alloc` answers and leaves of the pool.
    pub open spec fn spec_mbuf_alloc(self) -> (Option<MBuf>, PoolState) {
        if self.has_free() {
            let mbuf = MBuf { index: self.first_free() as usize };
            (Some(mbuf), self.taken(mbuf))
        } else {
            (None, self)
        }
    }

    /// The slots can be counted, a free buffer holds no bytes, and no buffer
    /// holds more bytes than can be counted.
    pub open spec fn wf(self) -> bool {
        &&& self.bufs.len() <= usize::MAX
        &&& forall|i: int| self.is_free(i) ==> (#[trigger] self.bufs[i]).data.len() == 0
        &&& forall|i: int|
            0 <= i < self.bufs.len() ==> (#[trigger] self.bufs[i]).data.len() <= usize::MAX
    }

    /// The pool after the buffer in a slot was handed out: empty, counted once.
    pub open spec fn taken(self, mbuf: MBuf) -> PoolState {
        if self.contains(mbuf) {
            PoolState {
                bufs: self.bufs.update(
                    mbuf.index as int,
                    MBufState { data: Seq::empty(), refcnt: 1 },
                ),
                capacity: self.capacity,
            }
        } else {
            self
        }
    }

    /// The pool after one reference to a buffer was given up. The count of a
    /// live buffer drops by one; at zero the buffer is free and holds nothing.
    /// A handle that is not live changes nothing.
    pub open spec fn freed(self, mbuf: MBuf) -> PoolState {
        if self.is_live(mbuf) {
            let old_buf = self.bufs[mbuf.index as int];
            let new_buf = if old_buf.refcnt == 1 {
                MBufState { data: Seq::empty(), refcnt: 0 }
            } else {
                MBufState { data: old_buf.data, refcnt: (old_buf.refcnt - 1) as u16 }
            };
            PoolState { bufs: self.bufs.update(mbuf.index as int, new_buf), capacity: self.capacity }
        } else {
            self
        }
    }
}

impl PoolState {
    /// There is one first free slot at most, and where there is one some slot
    /// is free.
    pub proof fn lemma_first_free(self, i: int)
        requires
            self.is_first_free(i),
        ensures
            self.has_free(),
            self.first_free() == i,
    {
        let j = self.first_free();
        assert(self.is_first_free(j));
        if j < i {
            assert(!self.is_free(j));
        }
        if i < j {
            assert(!self.is_free(i));
        }
    }

    /// Where some slot is free, one of them is the first.
    pub proof fn lemma_has_first_free(self)
        requires
            self.has_free(),
        ensures
            self.is_first_free(self.first_free()),
            0 <= self.first_free() < self.bufs.len(),
    {
        let k = choose|i: int| self.is_free(i);
        self.lemma_first_free_below(k);
    }

    proof fn lemma_first_free_below(self, k: int)
        requires
            self.is_free(k),
        ensures
            exists|i: int| self.is_first_free(i),
        decreases k,
    {
        if exists|j: int| 0 <= j < k && self.is_free(j) {
            let j = choose|j: int| 0 <= j < k && self.is_free(j);
            self.lemma_first_free_below(j);
        } else {
            assert(self.is_first_free(k));
        }
    }
}

/// `len` zero bytes.
pub open spec fn zeros(len: nat) -> Seq<u8> {
    Seq::new(len, |i: int| 0u8)
}

/// One slot of a pool.
struct Segment {
    data: Vec<u8>,
    refcnt: u16,
}

impl Segment {
    spec fn state(self) -> MBufState {
        MBufState {
            data: if self.refcnt == 0 {
                Seq::empty()
            } else {
                self.data@
            },
            refcnt: self.refcnt,
        }
    }
}

/// A fixed set of buffers of one capacity, handed out and taken back by
/// reference count.
pub struct MBufPool {
    bufs: Vec<Segment>,
    capacity: usize,
}

impl View for MBufPool {
    type V = PoolState;

    closed spec fn view(&self) -> PoolState {
        PoolState {
            bufs: Seq::new(self.bufs@.len(), |i: int| self.bufs@[i].state()),
            capacity: self.capacity,
        }
    }
}

impl MBufPool {
    /// What contracts see of a pool is well formed.
    pub proof fn lemma_view_wf(&self)
        ensures
            self@.wf(),
    {
        assert(self.bufs@.len() == self.bufs.len());
        assert forall|i: int| 0 <= i < self@.bufs.len() implies (#[trigger] self@.bufs[i]).data.len()
            <= usize::MAX by {
            assert(self.bufs@[i].data@.len() == self.bufs@[i].data.len());
        }
    }

    /// A pool of `count` free buffers that hold up to `capacity` bytes each.
    pub fn new(count: usize, capacity: usize) -> (pool: MBufPool)
        ensures
            pool@ == PoolState::fresh(count as nat, capacity),
    {
        let mut bufs: Vec<Segment> = Vec::new();
        let mut i: usize = 0;
        while i < count
            invariant
                i <= count,
                bufs@.len() == i,
                forall|j: int| 0 <= j < i ==> (#[trigger] bufs@[j]).refcnt == 0,
            decreases count - i,
        {
            bufs.push(Segment { data: Vec::new(), refcnt: 0 });
            i = i + 1;
        }
        let pool = MBufPool { bufs, capacity };
        assert(pool@.bufs =~= PoolState::fresh(count as nat, capacity).bufs);
        pool
    }

    /// The number of buffers, free or not.
    pub fn len(&self) -> (n: usize)
        ensures
            n == self@.bufs.len(),
    {
        self.bufs.len()
    }

    /// The most bytes that one buffer holds.
    pub fn capacity(&self) -> (n: usize)
        ensures
            n == self@.capacity,
    {
        self.capacity
    }

    /// Whether the handle names an allocated buffer.
    pub fn is_live(&self, mbuf: MBuf) -> (b: bool)
        ensures
            b == self@.is_live(mbuf),
    {
        mbuf.index < self.bufs.len() && self.bufs[mbuf.index].refcnt > 0
    }

    /// Hands out the first free buffer, emptied and counted once; `None`
    /// where every buffer is taken.
    pub fn mbuf_alloc(&mut self) -> (r: Option<MBuf>)
        ensures
            match r {
                Some(mbuf) => {
                    &&& old(self)@.is_first_free(mbuf.index as int)
                    &&& final(self)@ == old(self)@.taken(mbuf)
                },
                None => !old(self)@.has_free() && final(self)@ == old(self)@,
            },
            (r, final(self)@) == old(self)@.spec_mbuf_alloc(),
    {
        let mut i: usize = 0;
        while i < self.bufs.len()
            invariant
                i <= self.bufs@.len(),
                *self == *old(self),
                forall|j: int| 0 <= j < i ==> !self@.is_free(j),
            decreases self.bufs@.len() - i,
        {
            if self.bufs[i].refcnt == 0 {
                self.bufs[i].data.clear();
                self.bufs[i].refcnt = 1;
                assert(final(self)@.bufs =~= old(self)@.taken(MBuf { index: i }).bufs);
                proof {
                    old(self)@.lemma_first_free(i as int);
                }
                return Some(MBuf { index: i });
            }
            i = i + 1;
        }
        None
    }

    /// Gives up one reference to a buffer; the last one frees it.
    pub fn mbuf_free(&mut self, mbuf: MBuf)
        ensures
            final(self)@ == old(self)@.freed(mbuf),
    {
        if mbuf.index < self.bufs.len() && self.bufs[mbuf.index].refcnt > 0 {
            let count: u16 = self.bufs[mbuf.index].refcnt - 1;
            self.bufs[mbuf.index].refcnt = count;
            if count == 0 {
                self.bufs[mbuf.index].data = Vec::new();
            }
            assert(final(self)@.bufs =~= old(self)@.freed(mbuf).bufs);
        } else {
            assert(final(self)@.bufs =~= old(self)@.bufs);
        }
    }

    /// The number of bytes that a buffer holds.
    pub fn data_len(&self, mbuf: MBuf) -> (n: usize)
        ensures
            n == self@.data(mbuf).len(),
    {
        if self.is_live(mbuf) {
            self.bufs[mbuf.index].data.len()
        } else {
            0
        }
    }

    /// The bytes of a buffer, in place.
    pub fn data(&self, mbuf: MBuf) -> (bytes: &[u8])
        ensures
            bytes@ == self@.data(mbuf),
            bytes@.len() <= usize::MAX,
    {
        let bytes: &[u8] = if self.is_live(mbuf) {
            self.bufs[mbuf.index].data.as_slice()
        } else {
            &[]
        };
        let _ = bytes.len();
        bytes
    }

    /// Grows a buffer by `len` zero bytes at its end and returns `len`; where
    /// the buffer has no room for them, or `len` is zero, changes nothing and
    /// returns zero.
    pub fn add_data_end(&mut self, mbuf: MBuf, len: usize) -> (added: usize)
        ensures
            added == (if 0 < len <= old(self)@.room(mbuf) { len } else { 0 }),
            final(self)@ == (if added == 0 {
                old(self)@
            } else {
                old(self)@.with_data(mbuf, old(self)@.data(mbuf) + zeros(len as nat))
            }),
    {
        if len == 0 || !self.is_live(mbuf) {
            return 0;
        }
        let data_len: usize = self.bufs[mbuf.index].data.len();
        if data_len > self.capacity || len > self.capacity - data_len {
            return 0;
        }
        let mut i: usize = 0;
        while i < len
            invariant
                i <= len,
                mbuf.index < self.bufs@.len(),
                self.capacity == old(self).capacity,
                self.bufs@.len() == old(self).bufs@.len(),
                forall|j: int|
                    0 <= j < self.bufs@.len() && j != mbuf.index ==> self.bufs@[j] == old(
                        self,
                    ).bufs@[j],
                self.bufs@[mbuf.index as int].refcnt == old(self).bufs@[mbuf.index as int].refcnt,
                self.bufs@[mbuf.index as int].data@ == old(self).bufs@[mbuf.index as int].data@
                    + zeros(i as nat),
            decreases len - i,
        {
            self.bufs[mbuf.index].data.push(0);
            assert(zeros(i as nat).push(0u8) =~= zeros((i + 1) as nat));
            i = i + 1;
        }
        assert(final(self)@.bufs =~= old(self)@.with_data(
            mbuf,
            old(self)@.data(mbuf) + zeros(len as nat),
        ).bufs);
        len
    }

    /// Overwrites one byte of a buffer.
    pub(crate) fn set_byte(&mut self, mbuf: MBuf, at: usize, value: u8)
        requires
            at < old(self)@.data(mbuf).len(),
        ensures
            final(self)@ == old(self)@.with_data(
                mbuf,
                old(self)@.data(mbuf).update(at as int, value),
            ),
    {
        self.bufs[mbuf.index].data[at] = value;
        assert(final(self)@.bufs =~= old(self)@.with_data(
            mbuf,
            old(self)@.data(mbuf).update(at as int, value),
        ).bufs);
    }

    /// The reference count of a buffer.
    pub fn refcnt(&self, mbuf: MBuf) -> (n: u16)
        ensures
            n == self@.refcnt(mbuf),
    {
        if mbuf.index < self.bufs.len() {
            self.bufs[mbuf.index].refcnt
        } else {
            0
        }
    }
}

} // verus!
