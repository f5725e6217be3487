use basalt_server::messages::{EncodablePacket, RawPayload, ServerOutput, SharedBroadcast};

#[test]
fn packets_keep_id_and_payload() {
    let p = EncodablePacket::new(0x2c, RawPayload(vec![1, 2, 3]));
    assert_eq!(p.id(), 0x2c);
    assert_eq!(*p.payload, vec![1, 2, 3]);
}

#[test]
fn broadcast_encodes_each_packet_once() {
    let b = SharedBroadcast::new(vec![
        EncodablePacket::new(1, RawPayload(vec![9])),
        EncodablePacket::new(2, RawPayload(vec![])),
    ]);
    let pairs = b.get_or_encode();
    assert_eq!(pairs, vec![(1, vec![9]), (2, vec![])]);
    let single = SharedBroadcast::single(7, RawPayload(vec![4, 5]));
    assert_eq!(single.get_or_encode(), vec![(7, vec![4, 5])]);
}

#[test]
fn outputs_wrap_packets() {
    match ServerOutput::plain(3, RawPayload(vec![1])) {
        ServerOutput::Plain(p) => assert_eq!(p.id, 3),
        _ => panic!("expected plain"),
    }
    match ServerOutput::raw_owned(4, vec![8, 8]) {
        ServerOutput::RawBorrowed { id, bytes } => {
            assert_eq!(id, 4);
            assert_eq!(*bytes, vec![8, 8]);
        }
        _ => panic!("expected raw"),
    }
}
