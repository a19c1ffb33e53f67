use packet_layers::native::{MBuf, MBufPool};
use packet_layers::packets::buffer::{alloc_at, read_slice, write_slice, BufferError};
use packet_layers::packets::raw::RawPacket;
use packet_layers::packets::{Packet, PacketError};

const UDP_PACKET: [u8; 52] = [
    // link layer
    0x00, 0x00, 0x00, 0x00, 0x00, 0x01, 0x00, 0x00, 0x00, 0x00, 0x00, 0x02, 0x08, 0x00,
    // network layer
    0x45, 0x00, 0x00, 0x26, 0xab, 0x49, 0x40, 0x00, 0xff, 0x11, 0xf7, 0x00, 0x8b, 0x85, 0xd9, 0x6e,
    0x8b, 0x85, 0xe9, 0x02,
    // transport layer
    0x99, 0xd0, 0x04, 0x3f, 0x00, 0x12, 0x72, 0x28,
    // payload
    0x68, 0x65, 0x6c, 0x6c, 0x6f, 0x68, 0x65, 0x6c, 0x6c, 0x6f,
];

#[test]
fn new_raw_packet() {
    let mut pool = MBufPool::new(4, 2048);
    assert!(RawPacket::new(&mut pool).is_ok());
}

#[test]
fn raw_packet_from_bytes() {
    let mut pool = MBufPool::new(4, 2048);
    assert!(RawPacket::from_bytes(&mut pool, &UDP_PACKET).is_ok());
}

#[test]
fn new_packet_is_empty_and_counted_once() {
    let mut pool = MBufPool::new(2, 64);
    let packet = RawPacket::new(&mut pool).unwrap();
    assert_eq!(packet.mbuf(), MBuf { index: 0 });
    assert_eq!(pool.data_len(packet.mbuf()), 0);
    assert_eq!(packet.refcnt(&pool), 1);
    let second = RawPacket::new(&mut pool).unwrap();
    assert_eq!(second.mbuf(), MBuf { index: 1 });
}

#[test]
fn new_fails_when_the_pool_is_exhausted() {
    let mut pool = MBufPool::new(1, 64);
    let first = RawPacket::new(&mut pool);
    assert!(first.is_ok());
    let second = RawPacket::new(&mut pool);
    assert_eq!(second.err(), Some(BufferError::FailAlloc));
    let mut none = MBufPool::new(0, 64);
    assert_eq!(RawPacket::new(&mut none).err(), Some(BufferError::FailAlloc));
}

#[test]
fn from_bytes_reads_back_the_same_bytes() {
    let mut pool = MBufPool::new(2, 2048);
    let packet = RawPacket::from_bytes(&mut pool, &UDP_PACKET).unwrap();
    assert_eq!(pool.data_len(packet.mbuf()), UDP_PACKET.len());
    assert_eq!(
        read_slice(&pool, packet.mbuf(), 0, UDP_PACKET.len()),
        Ok(&UDP_PACKET[..])
    );
    assert_eq!(pool.data(packet.mbuf()), &UDP_PACKET[..]);
}

#[test]
fn from_bytes_of_nothing_is_an_empty_packet() {
    let mut pool = MBufPool::new(1, 8);
    let packet = RawPacket::from_bytes(&mut pool, &[]).unwrap();
    assert_eq!(pool.data_len(packet.mbuf()), 0);
    assert_eq!(read_slice(&pool, packet.mbuf(), 0, 0), Ok(&[][..]));
}

#[test]
fn from_bytes_fills_a_buffer_to_its_capacity() {
    let mut pool = MBufPool::new(1, 4);
    let packet = RawPacket::from_bytes(&mut pool, &[1, 2, 3, 4]).unwrap();
    assert_eq!(pool.data(packet.mbuf()), &[1, 2, 3, 4][..]);
}

#[test]
fn from_bytes_fails_when_the_bytes_do_not_fit() {
    let mut pool = MBufPool::new(1, 4);
    let r = RawPacket::from_bytes(&mut pool, &[1, 2, 3, 4, 5]);
    assert_eq!(r.err(), Some(BufferError::NotResized));
    // The buffer that was taken for the attempt is free again.
    assert_eq!(pool.refcnt(MBuf { index: 0 }), 0);
    assert!(RawPacket::from_bytes(&mut pool, &[1, 2, 3]).is_ok());
}

#[test]
fn from_bytes_fails_when_the_pool_is_exhausted() {
    let mut pool = MBufPool::new(1, 4);
    let _held = RawPacket::new(&mut pool).unwrap();
    let r = RawPacket::from_bytes(&mut pool, &[1]);
    assert_eq!(r.err(), Some(BufferError::FailAlloc));
}

#[test]
fn from_mbuf_does_not_own() {
    let mut pool = MBufPool::new(1, 16);
    let mbuf = pool.mbuf_alloc().unwrap();
    let packet = RawPacket::from_mbuf(mbuf);
    assert_eq!(packet.mbuf(), mbuf);
    assert_eq!(packet.refcnt(&pool), 1);
    packet.drop(&mut pool);
    assert_eq!(pool.refcnt(mbuf), 1);
    assert!(pool.is_live(mbuf));
}

#[test]
fn packets_of_the_same_bytes_are_equal() {
    let mut pool = MBufPool::new(4, 64);
    let a = RawPacket::from_bytes(&mut pool, &[1, 2, 3]).unwrap();
    let b = RawPacket::from_bytes(&mut pool, &[1, 2, 3]).unwrap();
    assert_ne!(a.mbuf(), b.mbuf());
    assert!(a.eq(&b, &pool));
    assert!(b.eq(&a, &pool));
    assert!(a.eq(&a, &pool));
}

#[test]
fn packets_of_different_lengths_are_not_equal() {
    let mut pool = MBufPool::new(4, 64);
    let a = RawPacket::from_bytes(&mut pool, &[1, 2, 3]).unwrap();
    let b = RawPacket::from_bytes(&mut pool, &[1, 2, 3, 4]).unwrap();
    let c = RawPacket::from_bytes(&mut pool, &[]).unwrap();
    assert!(!a.eq(&b, &pool));
    assert!(!b.eq(&a, &pool));
    assert!(!a.eq(&c, &pool));
}

#[test]
fn packets_of_different_bytes_are_not_equal() {
    let mut pool = MBufPool::new(4, 64);
    let a = RawPacket::from_bytes(&mut pool, &[1, 2, 3]).unwrap();
    let b = RawPacket::from_bytes(&mut pool, &[1, 2, 4]).unwrap();
    let c = RawPacket::from_bytes(&mut pool, &[9, 2, 3]).unwrap();
    assert!(!a.eq(&b, &pool));
    assert!(!a.eq(&c, &pool));
}

#[test]
fn dropping_an_owned_packet_frees_its_buffer_once() {
    let mut pool = MBufPool::new(2, 64);
    let packet = RawPacket::from_bytes(&mut pool, &[1, 2, 3]).unwrap();
    let other = RawPacket::from_bytes(&mut pool, &[4, 5]).unwrap();
    let mbuf = packet.mbuf();
    assert_eq!(pool.refcnt(mbuf), 1);
    packet.drop(&mut pool);
    assert_eq!(pool.refcnt(mbuf), 0);
    assert!(!pool.is_live(mbuf));
    assert_eq!(pool.data_len(mbuf), 0);
    // The other buffer is untouched.
    assert_eq!(other.refcnt(&pool), 1);
    assert_eq!(pool.data(other.mbuf()), &[4, 5][..]);
    // The freed buffer is the next one handed out.
    let again = RawPacket::new(&mut pool).unwrap();
    assert_eq!(again.mbuf(), mbuf);
}

#[test]
fn dropping_after_unown_leaves_the_buffer() {
    let mut pool = MBufPool::new(1, 64);
    let mut packet = RawPacket::from_bytes(&mut pool, &[1, 2, 3]).unwrap();
    let mbuf = packet.mbuf();
    packet.unown();
    packet.unown();
    packet.drop(&mut pool);
    assert_eq!(pool.refcnt(mbuf), 1);
    assert_eq!(pool.data(mbuf), &[1, 2, 3][..]);
    // The outside owner frees it, once.
    pool.mbuf_free(mbuf);
    assert_eq!(pool.refcnt(mbuf), 0);
    // A second release of the same handle changes nothing.
    pool.mbuf_free(mbuf);
    assert_eq!(pool.refcnt(mbuf), 0);
}

#[test]
fn a_handle_outside_the_pool_has_no_bytes() {
    let mut pool = MBufPool::new(1, 64);
    let stray = MBuf { index: 7 };
    assert_eq!(pool.refcnt(stray), 0);
    assert_eq!(pool.data_len(stray), 0);
    assert!(!pool.is_live(stray));
    pool.mbuf_free(stray);
    assert_eq!(pool.len(), 1);
    assert_eq!(alloc_at(&mut pool, stray, 0, 1), Err(BufferError::NotResized));
    assert_eq!(alloc_at(&mut pool, stray, 0, 0), Ok(()));
    assert_eq!(
        read_slice(&pool, stray, 0, 1),
        Err(BufferError::OutOfBuffer(1, 0))
    );
}

#[test]
fn alloc_at_moves_the_tail_and_zeroes_the_gap() {
    let mut pool = MBufPool::new(1, 8);
    let packet = RawPacket::from_bytes(&mut pool, &[1, 2, 3, 4]).unwrap();
    let mbuf = packet.mbuf();
    assert_eq!(alloc_at(&mut pool, mbuf, 1, 2), Ok(()));
    assert_eq!(pool.data(mbuf), &[1, 0, 0, 2, 3, 4][..]);
    assert_eq!(alloc_at(&mut pool, mbuf, 6, 2), Ok(()));
    assert_eq!(pool.data(mbuf), &[1, 0, 0, 2, 3, 4, 0, 0][..]);
    assert_eq!(alloc_at(&mut pool, mbuf, 0, 1), Err(BufferError::NotResized));
    assert_eq!(alloc_at(&mut pool, mbuf, 9, 0), Err(BufferError::BadOffset(9, 8)));
    assert_eq!(pool.data(mbuf), &[1, 0, 0, 2, 3, 4, 0, 0][..]);
}

#[test]
fn alloc_at_the_front_of_a_buffer() {
    let mut pool = MBufPool::new(1, 8);
    let packet = RawPacket::from_bytes(&mut pool, &[7, 8]).unwrap();
    assert_eq!(alloc_at(&mut pool, packet.mbuf(), 0, 3), Ok(()));
    assert_eq!(pool.data(packet.mbuf()), &[0, 0, 0, 7, 8][..]);
}

#[test]
fn write_slice_overwrites_in_place() {
    let mut pool = MBufPool::new(1, 8);
    let packet = RawPacket::from_bytes(&mut pool, &[1, 2, 3, 4]).unwrap();
    let mbuf = packet.mbuf();
    assert_eq!(write_slice(&mut pool, mbuf, 1, &[9, 8]), Ok(()));
    assert_eq!(pool.data(mbuf), &[1, 9, 8, 4][..]);
    assert_eq!(
        write_slice(&mut pool, mbuf, 3, &[5, 6]),
        Err(BufferError::OutOfBuffer(2, 1))
    );
    assert_eq!(
        write_slice(&mut pool, mbuf, 5, &[5]),
        Err(BufferError::BadOffset(5, 4))
    );
    assert_eq!(pool.data(mbuf), &[1, 9, 8, 4][..]);
}

#[test]
fn read_slice_checks_its_bounds() {
    let mut pool = MBufPool::new(1, 8);
    let packet = RawPacket::from_bytes(&mut pool, &[1, 2, 3, 4]).unwrap();
    let mbuf = packet.mbuf();
    assert_eq!(read_slice(&pool, mbuf, 1, 2), Ok(&[2, 3][..]));
    assert_eq!(read_slice(&pool, mbuf, 4, 0), Ok(&[][..]));
    assert_eq!(
        read_slice(&pool, mbuf, 2, 3),
        Err(BufferError::OutOfBuffer(3, 2))
    );
    assert_eq!(
        read_slice(&pool, mbuf, 5, 0),
        Err(BufferError::BadOffset(5, 4))
    );
    assert_eq!(
        read_slice(&pool, mbuf, 0, usize::MAX),
        Err(BufferError::OutOfBuffer(usize::MAX, 4))
    );
}

#[test]
fn the_raw_packet_is_the_root_of_the_chain() {
    let mut pool = MBufPool::new(1, 8);
    let mut packet = RawPacket::from_bytes(&mut pool, &[1, 2, 3, 4]).unwrap();
    let mbuf = packet.mbuf();
    assert_eq!(packet.offset(), 0);
    assert_eq!(packet.header_len(), 0);
    assert_eq!(packet.envelope().mbuf(), mbuf);
    assert_eq!(packet.envelope_mut().mbuf(), mbuf);
    packet.cascade(&mut pool);
    let packet = packet.deparse();
    let packet = packet.reset();
    let packet: Result<RawPacket, PacketError> = RawPacket::do_parse(packet, &pool);
    let packet = RawPacket::do_push(packet.unwrap(), &mut pool).unwrap();
    let packet = packet.remove(&mut pool).unwrap();
    assert_eq!(packet.mbuf(), mbuf);
    assert_eq!(pool.data(mbuf), &[1, 2, 3, 4][..]);
    assert_eq!(packet.refcnt(&pool), 1);
}
