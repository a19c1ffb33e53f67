//! Bounds-checked reads, writes and growth of a buffer of the pool.
use crate::native::{zeros, MBuf, MBufPool, PoolState};
use crate::packets::Fixed;
use vstd::prelude::*;
use vstd::slice::slice_subrange;

verus! {

/// Why a buffer operation was refused.
#[derive(Clone, Copy, Debug, PartialEq, Eq, Structural)]
pub enum BufferError {
    /// The pool had no free buffer.
    FailAlloc,
    /// The offset, first, lies beyond the buffer's length, second.
    BadOffset(usize, usize),
    /// The buffer has no room for the bytes asked for.
    NotResized,
    /// The size asked for, first, exceeds what the buffer holds from the
    /// offset on, second.
    OutOfBuffer(usize, usize),
}

/// `data` with `len` zero bytes put in at `offset`.
pub open spec fn inserted(data: Seq<u8>, offset: int, len: nat) -> Seq<u8> {
    data.subrange(0, offset) + zeros(len) + data.subrange(offset, data.len() as int)
}

/// `data` with the bytes from `offset` on replaced by `bytes`, as far as
/// `bytes` goes.
pub open spec fn overwritten(data: Seq<u8>, offset: int, bytes: Seq<u8>) -> Seq<u8> {
    data.subrange(0, offset) + bytes + data.subrange(offset + bytes.len(), data.len() as int)
}

/// The error, if any, of reaching `count` bytes at `offset` in a buffer of
/// `data_len` bytes.
pub open spec fn range_error(data_len: nat, offset: usize, count: nat) -> Option<BufferError> {
    if offset > data_len {
        Some(BufferError::BadOffset(offset, data_len as usize))
    } else if count > data_len - offset {
        Some(BufferError::OutOfBuffer(count as usize, (data_len - offset) as usize))
    } else {
        None
    }
}

/// What `alloc_at` answers and leaves of the pool.
pub open spec fn spec_alloc_at(pool: PoolState, mbuf: MBuf, offset: usize, len: usize) -> (
    Result<(), BufferError>,
    PoolState,
) {
    let data = pool.data(mbuf);
    if offset > data.len() {
        (Err(BufferError::BadOffset(offset, data.len() as usize)), pool)
    } else if len > pool.room(mbuf) {
        (Err(BufferError::NotResized), pool)
    } else {
        (Ok(()), pool.with_data(mbuf, inserted(data, offset as int, len as nat)))
    }
}

/// What `read_slice` answers.
pub open spec fn spec_read_slice(pool: PoolState, mbuf: MBuf, offset: usize, count: usize)
    -> Result<Seq<u8>, BufferError> {
    match range_error(pool.data(mbuf).len(), offset, count as nat) {
        Some(e) => Err(e),
        None => Ok(pool.data(mbuf).subrange(offset as int, offset + count)),
    }
}

/// What `write_slice` answers and leaves of the pool.
pub open spec fn spec_write_slice(pool: PoolState, mbuf: MBuf, offset: usize, bytes: Seq<u8>) -> (
    Result<(), BufferError>,
    PoolState,
) {
    match range_error(pool.data(mbuf).len(), offset, bytes.len()) {
        Some(e) => (Err(e), pool),
        None => (Ok(()), pool.with_data(mbuf, overwritten(pool.data(mbuf), offset as int, bytes))),
    }
}

/// Replacing the bytes of a buffer twice leaves the second.
pub proof fn lemma_with_data_again(pool: PoolState, mbuf: MBuf, first: Seq<u8>, second: Seq<u8>)
    ensures
        pool.with_data(mbuf, first).with_data(mbuf, second) == pool.with_data(mbuf, second),
        pool.with_data(mbuf, first).data(mbuf) == (if pool.is_live(mbuf) {
            first
        } else {
            Seq::empty()
        }),
        pool.with_data(mbuf, first).room(mbuf) == (if pool.is_live(mbuf) && first.len()
            <= pool.capacity {
            pool.capacity - first.len()
        } else {
            0
        }),
        pool.with_data(mbuf, pool.data(mbuf)) == pool,
{
    assert(pool.with_data(mbuf, first).with_data(mbuf, second).bufs =~= pool.with_data(
        mbuf,
        second,
    ).bufs);
    assert(pool.with_data(mbuf, pool.data(mbuf)).bufs =~= pool.bufs);
}

/// Makes room for `len` bytes at `offset` in a buffer: what lay at `offset` or
/// after it moves up by `len`, and the gap is zeroed.
pub fn alloc_at(pool: &mut MBufPool, mbuf: MBuf, offset: usize, len: usize) -> (r: Result<
    (),
    BufferError,
>)
    ensures
        (r, final(pool)@) == spec_alloc_at(old(pool)@, mbuf, offset, len),
{
    let data_len: usize = pool.data_len(mbuf);
    if offset > data_len {
        return Err(BufferError::BadOffset(offset, data_len));
    }
    if len == 0 {
        proof {
            lemma_with_data_again(pool@, mbuf, pool@.data(mbuf), pool@.data(mbuf));
            assert(inserted(pool@.data(mbuf), offset as int, 0) =~= pool@.data(mbuf));
        }
        return Ok(());
    }
    if pool.add_data_end(mbuf, len) == 0 {
        return Err(BufferError::NotResized);
    }
    let ghost before = old(pool)@.data(mbuf);
    proof {
        lemma_with_data_again(old(pool)@, mbuf, before + zeros(len as nat), before);
    }
    // Move the tail up, last byte first.
    let mut i: usize = data_len;
    while i > offset
        invariant
            offset <= i <= data_len,
            data_len == before.len(),
            data_len + len <= usize::MAX,
            old(pool)@.is_live(mbuf),
            before == old(pool)@.data(mbuf),
            pool@.data(mbuf).len() == data_len + len,
            pool@ == old(pool)@.with_data(mbuf, pool@.data(mbuf)),
            forall|k: int| 0 <= k < i ==> pool@.data(mbuf)[k] == before[k],
            forall|k: int| i <= k < data_len ==> pool@.data(mbuf)[k + len] == before[k],
        decreases i,
    {
        i = i - 1;
        let ghost cur = pool@.data(mbuf);
        let byte: u8 = pool.data(mbuf)[i];
        pool.set_byte(mbuf, i + len, byte);
        proof {
            lemma_with_data_again(old(pool)@, mbuf, cur, cur.update(i + len, byte));
        }
    }
    // Zero the gap.
    let mut j: usize = offset;
    while j < offset + len
        invariant
            offset <= j <= offset + len,
            offset <= data_len,
            data_len == before.len(),
            data_len + len <= usize::MAX,
            old(pool)@.is_live(mbuf),
            before == old(pool)@.data(mbuf),
            pool@.data(mbuf).len() == data_len + len,
            pool@ == old(pool)@.with_data(mbuf, pool@.data(mbuf)),
            forall|k: int| 0 <= k < offset ==> pool@.data(mbuf)[k] == before[k],
            forall|k: int| offset <= k < j ==> pool@.data(mbuf)[k] == 0,
            forall|k: int| offset <= k < data_len ==> pool@.data(mbuf)[k + len] == before[k],
        decreases offset + len - j,
    {
        let ghost cur = pool@.data(mbuf);
        pool.set_byte(mbuf, j, 0);
        proof {
            lemma_with_data_again(old(pool)@, mbuf, cur, cur.update(j as int, 0u8));
        }
        j = j + 1;
    }
    assert(pool@.data(mbuf) =~= inserted(before, offset as int, len as nat));
    Ok(())
}

/// The `count` bytes of a buffer from `offset` on, in place.
pub fn read_slice(pool: &MBufPool, mbuf: MBuf, offset: usize, count: usize) -> (r: Result<
    &[u8],
    BufferError,
>)
    ensures
        match r {
            Ok(bytes) => spec_read_slice(pool@, mbuf, offset, count) == Ok::<Seq<u8>, BufferError>(
                bytes@,
            ),
            Err(e) => spec_read_slice(pool@, mbuf, offset, count) == Err::<Seq<u8>, BufferError>(e),
        },
{
    let data = pool.data(mbuf);
    if offset > data.len() {
        Err(BufferError::BadOffset(offset, data.len()))
    } else if count > data.len() - offset {
        Err(BufferError::OutOfBuffer(count, data.len() - offset))
    } else {
        Ok(slice_subrange(data, offset, offset + count))
    }
}

/// Copies `bytes` over the bytes of a buffer from `offset` on.
pub fn write_slice(pool: &mut MBufPool, mbuf: MBuf, offset: usize, bytes: &[u8]) -> (r: Result<
    (),
    BufferError,
>)
    ensures
        (r, final(pool)@) == spec_write_slice(old(pool)@, mbuf, offset, bytes@),
{
    let data_len: usize = pool.data_len(mbuf);
    let count: usize = bytes.len();
    if offset > data_len {
        return Err(BufferError::BadOffset(offset, data_len));
    }
    if count > data_len - offset {
        return Err(BufferError::OutOfBuffer(count, data_len - offset));
    }
    let ghost before = old(pool)@.data(mbuf);
    proof {
        lemma_with_data_again(old(pool)@, mbuf, before, before);
    }
    let mut i: usize = 0;
    while i < count
        invariant
            i <= count,
            count == bytes@.len(),
            offset + count <= data_len,
            data_len == before.len(),
            before == old(pool)@.data(mbuf),
            pool@.data(mbuf).len() == data_len,
            pool@ == old(pool)@.with_data(mbuf, pool@.data(mbuf)),
            forall|k: int| 0 <= k < i ==> pool@.data(mbuf)[offset + k] == bytes@[k],
            forall|k: int|
                0 <= k < data_len && !(offset <= k < offset + i) ==> pool@.data(mbuf)[k]
                    == before[k],
        decreases count - i,
    {
        let ghost cur = pool@.data(mbuf);
        pool.set_byte(mbuf, offset + i, bytes[i]);
        proof {
            lemma_with_data_again(old(pool)@, mbuf, cur, cur.update(offset + i, bytes@[i as int]));
        }
        i = i + 1;
    }
    assert(pool@.data(mbuf) =~= overwritten(before, offset as int, bytes@));
    Ok(())
}

/// The value whose wire image lies at `offset` in a buffer.
pub fn read_item<T: Fixed>(pool: &MBufPool, mbuf: MBuf, offset: usize) -> (r: Result<
    T,
    BufferError,
>)
    ensures
        r == spec_read_item::<T>(pool@, mbuf, offset),
{
    match read_slice(pool, mbuf, offset, T::size()) {
        Ok(bytes) => Ok(T::decode(bytes)),
        Err(e) => Err(e),
    }
}

/// What `read_item` answers.
pub open spec fn spec_read_item<T: Fixed>(pool: PoolState, mbuf: MBuf, offset: usize) -> Result<
    T,
    BufferError,
> {
    match spec_read_slice(pool, mbuf, offset, T::spec_size()) {
        Ok(bytes) => Ok(T::spec_decode(bytes)),
        Err(e) => Err(e),
    }
}

/// Writes the wire image of `item` at `offset` in a buffer.
pub fn write_item<T: Fixed>(pool: &mut MBufPool, mbuf: MBuf, offset: usize, item: &T) -> (r: Result<
    (),
    BufferError,
>)
    ensures
        (r, final(pool)@) == spec_write_slice(old(pool)@, mbuf, offset, item.spec_encode()),
{
    let bytes = item.encode();
    write_slice(pool, mbuf, offset, bytes.as_slice())
}

} // verus!
