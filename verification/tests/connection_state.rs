use reliable_dgram::connection::Connection;
use reliable_dgram::packet::{DeliveryGuarantee, OrderingGuarantee, Packet};
use reliable_dgram::reliable_header::ReliableHeader;

const PROTO_VERSION: u64 = 1;

fn reliable_packet(packet_id: u16, ack_num: u16, ack_bits: u32) -> Packet {
    Packet {
        payload: Vec::new(),
        fragment_header: None,
        packet_id,
        ordering_guarantee: OrderingGuarantee::Unordered,
        delivery_guarantee: DeliveryGuarantee::Reliable(ReliableHeader { ack_num, ack_bits }),
    }
}

#[test]
fn window_slides_forward_and_backfills() {
    let mut connection = Connection::new();
    connection.ack = 10;
    connection.ack_bits = 0;

    connection.handle_reliable(13, ReliableHeader { ack_num: 0, ack_bits: 0 });
    assert_eq!(connection.ack, 13);
    assert_eq!(connection.ack_bits, 0b100);

    connection.handle_reliable(11, ReliableHeader { ack_num: 0, ack_bits: 0 });
    assert_eq!(connection.ack, 13);
    assert_eq!(connection.ack_bits, 0b110);
}

#[test]
fn window_ignores_ids_older_than_the_window() {
    let mut connection = Connection::new();
    connection.ack = 100;
    connection.ack_bits = 0b1;

    connection.handle_reliable(40, ReliableHeader { ack_num: 0, ack_bits: 0 });
    assert_eq!(connection.ack, 100);
    assert_eq!(connection.ack_bits, 0b1);
}

#[test]
fn window_discards_bits_on_a_long_jump() {
    let mut connection = Connection::new();
    connection.ack = 5;
    connection.ack_bits = 0xffff_ffff;

    connection.handle_reliable(5 + 33, ReliableHeader { ack_num: 0, ack_bits: 0 });
    assert_eq!(connection.ack, 38);
    assert_eq!(connection.ack_bits, 0);
}

#[test]
fn create_reliable_stamps_and_files_the_packet() {
    let mut connection = Connection::new();
    connection.ack = 7;
    connection.ack_bits = 0b11;

    let packet = connection.create_reliable(vec![1, 2, 3]);
    assert_eq!(packet.packet_id, 0);
    assert_eq!(packet.payload, vec![1, 2, 3]);
    assert_eq!(
        packet.delivery_guarantee,
        DeliveryGuarantee::Reliable(ReliableHeader { ack_num: 7, ack_bits: 0b11 })
    );
    assert_eq!(connection.seq, 1);
    assert!(connection.unacked_packets.contains_key(&0));

    let next = connection.create_reliable(Vec::new());
    assert_eq!(next.packet_id, 1);
    assert_eq!(connection.seq, 2);
}

#[test]
fn sequence_counter_wraps_around() {
    let mut connection = Connection::new();
    connection.seq = u16::MAX;
    let packet = connection.create_reliable(Vec::new());
    assert_eq!(packet.packet_id, u16::MAX);
    assert_eq!(connection.seq, 0);
}

#[test]
fn peer_ack_releases_unacked_packet() {
    let mut connection = Connection::new();
    let sent = connection.create_reliable(vec![42]);
    let id = sent.packet_id;
    assert!(connection.unacked_packets.contains_key(&id));

    // The peer reports our id as its latest seen; its ack set contains it.
    let reply = reliable_packet(9, id, 0).serialize(PROTO_VERSION);
    connection.handle_incomming(&reply, PROTO_VERSION);
    assert!(!connection.unacked_packets.contains_key(&id));
}

#[test]
fn garbage_leaves_state_unchanged() {
    let mut connection = Connection::new();
    connection.seq = 3;
    connection.ack = 17;
    connection.ack_bits = 0b1010;

    connection.handle_incomming(&[], PROTO_VERSION);
    connection.handle_incomming(&[0u8; 40], PROTO_VERSION);
    let truncated = &reliable_packet(1, 0, 0).serialize(PROTO_VERSION)[..5];
    connection.handle_incomming(truncated, PROTO_VERSION);

    assert_eq!(connection.seq, 3);
    assert_eq!(connection.ack, 17);
    assert_eq!(connection.ack_bits, 0b1010);
    assert!(connection.unacked_packets.is_empty());
}

#[test]
fn unreliable_packet_needs_no_bookkeeping() {
    let mut connection = Connection::new();
    let unreliable = Packet {
        payload: vec![5, 6],
        fragment_header: None,
        packet_id: 30,
        ordering_guarantee: OrderingGuarantee::Unordered,
        delivery_guarantee: DeliveryGuarantee::Unreliable,
    };
    let bytes = unreliable.serialize(PROTO_VERSION);
    connection.handle_incomming(&bytes, PROTO_VERSION);
    assert_eq!(connection.ack, 0);
    assert_eq!(connection.ack_bits, 0);
    assert!(connection.unacked_packets.is_empty());
}
