use packet_layers::native::{MBuf, MBufPool};

#[test]
fn a_new_pool_is_all_free() {
    let pool = MBufPool::new(3, 128);
    assert_eq!(pool.len(), 3);
    assert_eq!(pool.capacity(), 128);
    for index in 0..3 {
        let mbuf = MBuf { index };
        assert!(!pool.is_live(mbuf));
        assert_eq!(pool.refcnt(mbuf), 0);
        assert_eq!(pool.data_len(mbuf), 0);
        assert!(pool.data(mbuf).is_empty());
    }
}

#[test]
fn buffers_are_handed_out_lowest_slot_first() {
    let mut pool = MBufPool::new(3, 128);
    assert_eq!(pool.mbuf_alloc(), Some(MBuf { index: 0 }));
    assert_eq!(pool.mbuf_alloc(), Some(MBuf { index: 1 }));
    pool.mbuf_free(MBuf { index: 0 });
    assert_eq!(pool.mbuf_alloc(), Some(MBuf { index: 0 }));
    assert_eq!(pool.mbuf_alloc(), Some(MBuf { index: 2 }));
    assert_eq!(pool.mbuf_alloc(), None);
    assert_eq!(pool.mbuf_alloc(), None);
    pool.mbuf_free(MBuf { index: 1 });
    assert_eq!(pool.mbuf_alloc(), Some(MBuf { index: 1 }));
}

#[test]
fn a_buffer_handed_out_again_is_empty() {
    let mut pool = MBufPool::new(1, 16);
    let mbuf = pool.mbuf_alloc().unwrap();
    assert_eq!(pool.add_data_end(mbuf, 5), 5);
    assert_eq!(pool.data(mbuf), &[0, 0, 0, 0, 0][..]);
    pool.mbuf_free(mbuf);
    assert_eq!(pool.data_len(mbuf), 0);
    let again = pool.mbuf_alloc().unwrap();
    assert_eq!(again, mbuf);
    assert_eq!(pool.data_len(again), 0);
    assert_eq!(pool.refcnt(again), 1);
}

#[test]
fn add_data_end_grows_within_the_capacity() {
    let mut pool = MBufPool::new(2, 8);
    let mbuf = pool.mbuf_alloc().unwrap();
    assert_eq!(pool.add_data_end(mbuf, 0), 0);
    assert_eq!(pool.add_data_end(mbuf, 3), 3);
    assert_eq!(pool.data_len(mbuf), 3);
    assert_eq!(pool.add_data_end(mbuf, 6), 0);
    assert_eq!(pool.data_len(mbuf), 3);
    assert_eq!(pool.add_data_end(mbuf, 5), 5);
    assert_eq!(pool.data_len(mbuf), 8);
    assert_eq!(pool.add_data_end(mbuf, 1), 0);
    assert_eq!(pool.add_data_end(mbuf, usize::MAX), 0);
    // A buffer that is not handed out takes nothing.
    assert_eq!(pool.add_data_end(MBuf { index: 1 }, 1), 0);
    assert_eq!(pool.add_data_end(MBuf { index: 2 }, 1), 0);
    assert_eq!(pool.data_len(MBuf { index: 1 }), 0);
}
