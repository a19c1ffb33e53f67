use packet_layers::native::{MBuf, MBufPool};
use packet_layers::packets::buffer::{write_slice, BufferError};
use packet_layers::packets::ndp::link_layer_addr::{LinkLayerAddress, LinkLayerAddressFields};
use packet_layers::packets::ndp::{NdpOption, SOURCE_LINK_LAYER_ADDR, TARGET_LINK_LAYER_ADDR};
use packet_layers::packets::raw::RawPacket;
use packet_layers::packets::{Fixed, MacAddr, Packet, PacketError};

#[test]
fn size_of_link_layer_address() {
    assert_eq!(8, LinkLayerAddressFields::size());
}

#[test]
fn default_fields_are_a_source_option_of_one_unit() {
    let fields = LinkLayerAddressFields::default();
    assert_eq!(fields.option_type, 1);
    assert_eq!(fields.length, 1);
    assert_eq!(fields.addr, MacAddr::unspecified());
    assert_eq!(fields.addr.octets, [0, 0, 0, 0, 0, 0]);
    assert_eq!(fields.encode(), vec![1, 1, 0, 0, 0, 0, 0, 0]);
}

#[test]
fn fields_decode_what_they_encode() {
    let fields = LinkLayerAddressFields {
        option_type: 2,
        length: 1,
        addr: MacAddr::new(0x70, 0x3a, 0xcb, 0x1b, 0xf9, 0x7a),
    };
    let bytes = fields.encode();
    assert_eq!(bytes, vec![2, 1, 0x70, 0x3a, 0xcb, 0x1b, 0xf9, 0x7a]);
    let back = LinkLayerAddressFields::decode(&bytes);
    assert_eq!(back.option_type, 2);
    assert_eq!(back.length, 1);
    assert_eq!(back.addr, fields.addr);
}

#[test]
fn type_codes() {
    assert_eq!(SOURCE_LINK_LAYER_ADDR, 1);
    assert_eq!(TARGET_LINK_LAYER_ADDR, 2);
}

#[test]
fn push_appends_the_default_option() {
    let mut pool = MBufPool::new(1, 64);
    let packet = RawPacket::from_bytes(&mut pool, &[0xaa, 0xbb, 0xcc]).unwrap();
    let mbuf = packet.mbuf();
    let option = LinkLayerAddress::do_push(&mut pool, mbuf).unwrap();
    assert_eq!(option.offset(), 3);
    assert_eq!(option.mbuf(), mbuf);
    assert!(option.is_attached(&pool));
    assert_eq!(
        pool.data(mbuf),
        &[0xaa, 0xbb, 0xcc, 1, 1, 0, 0, 0, 0, 0, 0][..]
    );
    assert_eq!(option.option_type(&pool), 1);
    assert_eq!(option.length(&pool), 1);
    assert_eq!(option.addr(&pool), MacAddr::unspecified());
}

#[test]
fn push_then_parse_gives_back_what_was_written() {
    let mut pool = MBufPool::new(1, 64);
    let packet = RawPacket::new(&mut pool).unwrap();
    let mbuf = packet.mbuf();
    let mut option = LinkLayerAddress::do_push(&mut pool, mbuf).unwrap();
    let addr = MacAddr::new(0x00, 0x1b, 0x21, 0x3c, 0x9d, 0xf8);
    option.set_option_type(&mut pool, TARGET_LINK_LAYER_ADDR);
    option.set_addr(&mut pool, addr);
    let offset = option.offset();
    let parsed = LinkLayerAddress::parse(&pool, mbuf, offset).unwrap();
    assert_eq!(parsed.offset(), offset);
    assert_eq!(parsed.length(&pool), 1);
    assert_eq!(parsed.option_type(&pool), 2);
    assert_eq!(parsed.addr(&pool), addr);
    assert_eq!(
        pool.data(mbuf),
        &[2, 1, 0x00, 0x1b, 0x21, 0x3c, 0x9d, 0xf8][..]
    );
}

#[test]
fn two_options_lie_one_after_the_other() {
    let mut pool = MBufPool::new(1, 64);
    let packet = RawPacket::new(&mut pool).unwrap();
    let mbuf = packet.mbuf();
    let mut first = LinkLayerAddress::do_push(&mut pool, mbuf).unwrap();
    let mut second = LinkLayerAddress::do_push(&mut pool, mbuf).unwrap();
    assert_eq!(first.offset(), 0);
    assert_eq!(second.offset(), 8);
    first.set_addr(&mut pool, MacAddr::new(1, 2, 3, 4, 5, 6));
    second.set_option_type(&mut pool, 2);
    assert_eq!(first.option_type(&pool), 1);
    assert_eq!(second.option_type(&pool), 2);
    assert_eq!(first.addr(&pool), MacAddr::new(1, 2, 3, 4, 5, 6));
    assert_eq!(second.addr(&pool), MacAddr::unspecified());
    assert_eq!(
        pool.data(mbuf),
        &[1, 1, 1, 2, 3, 4, 5, 6, 2, 1, 0, 0, 0, 0, 0, 0][..]
    );
}

#[test]
fn push_fails_when_the_buffer_has_no_room() {
    let mut pool = MBufPool::new(1, 10);
    let packet = RawPacket::from_bytes(&mut pool, &[1, 2, 3]).unwrap();
    let mbuf = packet.mbuf();
    let r = LinkLayerAddress::do_push(&mut pool, mbuf);
    assert_eq!(r.err(), Some(BufferError::NotResized));
    assert_eq!(pool.data(mbuf), &[1, 2, 3][..]);
    let stray = LinkLayerAddress::do_push(&mut pool, MBuf { index: 3 });
    assert_eq!(stray.err(), Some(BufferError::NotResized));
}

#[test]
fn push_fills_a_buffer_to_its_capacity() {
    let mut pool = MBufPool::new(1, 8);
    let packet = RawPacket::new(&mut pool).unwrap();
    assert!(LinkLayerAddress::do_push(&mut pool, packet.mbuf()).is_ok());
    assert_eq!(pool.data_len(packet.mbuf()), 8);
}

#[test]
fn parse_rejects_any_length_but_one() {
    let lengths: [u8; 5] = [0, 2, 3, 8, 255];
    for length in lengths {
        let mut pool = MBufPool::new(1, 64);
        let bytes = [1, length, 0, 1, 2, 3, 4, 5];
        let packet = RawPacket::from_bytes(&mut pool, &bytes).unwrap();
        match LinkLayerAddress::parse(&pool, packet.mbuf(), 0) {
            Err(PacketError::Parse(e)) => {
                assert_eq!(e.reason(), "invalid link-layer address option length")
            }
            _ => panic!("length {} was accepted", length),
        }
    }
}

#[test]
fn parse_accepts_length_one_whatever_the_type() {
    let mut pool = MBufPool::new(1, 64);
    let packet = RawPacket::from_bytes(&mut pool, &[9, 9, 77, 1, 10, 11, 12, 13, 14, 15]).unwrap();
    let option = LinkLayerAddress::parse(&pool, packet.mbuf(), 2).unwrap();
    assert_eq!(option.offset(), 2);
    assert_eq!(option.option_type(&pool), 77);
    assert_eq!(option.length(&pool), 1);
    assert_eq!(option.addr(&pool), MacAddr::new(10, 11, 12, 13, 14, 15));
}

#[test]
fn parse_fails_outside_the_buffer() {
    let mut pool = MBufPool::new(1, 64);
    let packet = RawPacket::from_bytes(&mut pool, &[7, 1, 1, 0, 0, 0, 0, 0, 0]).unwrap();
    let mbuf = packet.mbuf();
    assert!(LinkLayerAddress::parse(&pool, mbuf, 1).is_ok());
    assert_eq!(
        LinkLayerAddress::parse(&pool, mbuf, 2).err(),
        Some(PacketError::Buffer(BufferError::OutOfBuffer(8, 7)))
    );
    assert_eq!(
        LinkLayerAddress::parse(&pool, mbuf, 9).err(),
        Some(PacketError::Buffer(BufferError::OutOfBuffer(8, 0)))
    );
    assert_eq!(
        LinkLayerAddress::parse(&pool, mbuf, 10).err(),
        Some(PacketError::Buffer(BufferError::BadOffset(10, 9)))
    );
}

#[test]
fn set_option_type_takes_the_two_type_codes_only() {
    let mut pool = MBufPool::new(1, 64);
    let packet = RawPacket::new(&mut pool).unwrap();
    let mbuf = packet.mbuf();
    let mut option = LinkLayerAddress::do_push(&mut pool, mbuf).unwrap();
    option.set_option_type(&mut pool, 2);
    assert_eq!(option.option_type(&pool), 2);
    option.set_option_type(&mut pool, 1);
    assert_eq!(option.option_type(&pool), 1);
    option.set_option_type(&mut pool, 2);
    let others: [u8; 4] = [0, 3, 128, 255];
    for other in others {
        option.set_option_type(&mut pool, other);
        assert_eq!(option.option_type(&pool), 2);
        assert_eq!(pool.data(mbuf), &[2, 1, 0, 0, 0, 0, 0, 0][..]);
    }
}

#[test]
fn set_addr_changes_the_address_only() {
    let mut pool = MBufPool::new(1, 64);
    let packet = RawPacket::from_bytes(&mut pool, &[0xff, 0xff]).unwrap();
    let mbuf = packet.mbuf();
    let mut option = LinkLayerAddress::do_push(&mut pool, mbuf).unwrap();
    write_slice(&mut pool, mbuf, 10, &[]).unwrap();
    option.set_addr(&mut pool, MacAddr::new(0xde, 0xad, 0xbe, 0xef, 0x00, 0x2a));
    assert_eq!(
        pool.data(mbuf),
        &[0xff, 0xff, 1, 1, 0xde, 0xad, 0xbe, 0xef, 0x00, 0x2a][..]
    );
    assert_eq!(option.option_type(&pool), 1);
    assert_eq!(option.length(&pool), 1);
}

#[test]
fn an_option_reads_what_the_buffer_holds_now() {
    let mut pool = MBufPool::new(1, 64);
    let packet = RawPacket::new(&mut pool).unwrap();
    let mbuf = packet.mbuf();
    let option = LinkLayerAddress::do_push(&mut pool, mbuf).unwrap();
    write_slice(&mut pool, mbuf, 0, &[2, 5]).unwrap();
    assert_eq!(option.option_type(&pool), 2);
    assert_eq!(option.length(&pool), 5);
    let fields = option.fields(&pool);
    assert_eq!(fields.option_type, 2);
    assert_eq!(fields.length, 5);
}

#[test]
fn an_option_is_not_attached_to_a_freed_buffer() {
    let mut pool = MBufPool::new(1, 64);
    let packet = RawPacket::new(&mut pool).unwrap();
    let mbuf = packet.mbuf();
    let option = LinkLayerAddress::do_push(&mut pool, mbuf).unwrap();
    assert!(option.is_attached(&pool));
    packet.drop(&mut pool);
    assert!(!option.is_attached(&pool));
}

#[test]
fn option_as_text() {
    let mut pool = MBufPool::new(1, 64);
    let packet = RawPacket::new(&mut pool).unwrap();
    let mbuf = packet.mbuf();
    let mut option = LinkLayerAddress::do_push(&mut pool, mbuf).unwrap();
    assert_eq!(
        option.to_string(&pool),
        "type: 1, length: 1, addr: 00:00:00:00:00:00"
    );
    option.set_option_type(&mut pool, 2);
    option.set_addr(&mut pool, MacAddr::new(0xde, 0xad, 0xbe, 0xef, 0x00, 0x2a));
    assert_eq!(
        option.to_string(&pool),
        "type: 2, length: 1, addr: de:ad:be:ef:00:2a"
    );
    write_slice(&mut pool, mbuf, 0, &[255, 100]).unwrap();
    assert_eq!(
        option.to_string(&pool),
        "type: 255, length: 100, addr: de:ad:be:ef:00:2a"
    );
    write_slice(&mut pool, mbuf, 0, &[10, 0]).unwrap();
    assert_eq!(
        option.to_string(&pool),
        "type: 10, length: 0, addr: de:ad:be:ef:00:2a"
    );
}

#[test]
fn address_as_text() {
    assert_eq!(MacAddr::unspecified().to_string(), "00:00:00:00:00:00");
    assert_eq!(
        MacAddr::new(0x01, 0x23, 0x45, 0x67, 0x89, 0xab).to_string(),
        "01:23:45:67:89:ab"
    );
    assert_eq!(
        MacAddr::new(0xcd, 0xef, 0xff, 0x0f, 0xf0, 0x10).to_string(),
        "cd:ef:ff:0f:f0:10"
    );
}
