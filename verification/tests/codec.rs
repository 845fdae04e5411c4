use reliable_dgram::packet::{
    DeliveryGuarantee, FragmentHeader, OrderingGuarantee, Packet,
};
use reliable_dgram::reliable_header::ReliableHeader;

const PROTO_VERSION: u64 = 1;

pub fn create_simple_packet() -> Packet {
    Packet {
        delivery_guarantee: DeliveryGuarantee::Unreliable,
        fragment_header: None,
        ordering_guarantee: OrderingGuarantee::Unordered,
        packet_id: 1,
        payload: vec![23, 24, 32, 12],
    }
}

pub fn assert_serialized_packet_is_same(packet: Packet, version: u64) {
    let deserialized = Packet::deserialize(&packet.serialize(version), version);
    assert_eq!(deserialized, Ok(packet));
}

#[test]
fn can_serialize_and_deserialize_simple_package() {
    let packet = create_simple_packet();

    let serialized = packet.serialize(PROTO_VERSION);
    let deserialized = Packet::deserialize(&serialized, PROTO_VERSION).unwrap();
    assert_eq!(packet, deserialized);
}

#[test]
fn does_not_accept_corrupt_package() {
    let packet = create_simple_packet();
    let mut serialized = packet.serialize(PROTO_VERSION);

    for replacement_val in 0..(std::mem::size_of::<u8>() * 8) {
        for i in 0..serialized.len() {
            let prev = serialized[i];
            if prev == replacement_val as u8 {
                continue;
            }
            serialized[i] = replacement_val as u8;
            assert!(Packet::deserialize(&serialized, PROTO_VERSION).is_err());
            serialized[i] = prev;
        }
    }
}

#[test]
fn does_not_accept_packet_with_wrong_version() {
    let packet = create_simple_packet();
    let serialized = packet.serialize(PROTO_VERSION);
    assert!(Packet::deserialize(&serialized, PROTO_VERSION + 1).is_err());
}

#[test]
fn can_serialize_and_deserialize_reliable_pack() {
    let mut packet = create_simple_packet();
    packet.delivery_guarantee = DeliveryGuarantee::Reliable(ReliableHeader {
        ack_num: 12,
        ack_bits: 0b00101,
    });

    assert_serialized_packet_is_same(packet, PROTO_VERSION);
}

#[test]
fn can_serialize_and_deserialize_frag_reliable_pack() {
    let mut packet = create_simple_packet();
    packet.delivery_guarantee = DeliveryGuarantee::Reliable(ReliableHeader {
        ack_num: 12,
        ack_bits: 0b00101,
    });
    packet.fragment_header = Some(FragmentHeader {
        frag_count: 23,
        frag_id: 3,
    });

    assert_serialized_packet_is_same(packet, PROTO_VERSION);
}

#[test]
fn wire_layout_matches_specification() {
    let packet = Packet {
        delivery_guarantee: DeliveryGuarantee::Reliable(ReliableHeader {
            ack_num: 0x1234,
            ack_bits: 0xdeadbeef,
        }),
        fragment_header: Some(FragmentHeader {
            frag_count: 7,
            frag_id: 2,
        }),
        ordering_guarantee: OrderingGuarantee::Unordered,
        packet_id: 0xabcd,
        payload: vec![9, 8, 7],
    };
    let serialized = packet.serialize(PROTO_VERSION);

    // packet id, flags (reliable | fragment), ack_num, ack_bits, fragment
    // header, payload; all multi-byte fields little-endian.
    let body: Vec<u8> = vec![
        0xcd, 0xab, 0b101, 0x34, 0x12, 0xef, 0xbe, 0xad, 0xde, 2, 7, 9, 8, 7,
    ];
    let crc = crc::Crc::<u32>::new(&crc::CRC_32_CKSUM);
    let mut digest = crc.digest();
    digest.update(&PROTO_VERSION.to_le_bytes());
    digest.update(&body);
    let checksum = digest.finalize();

    let mut expected = checksum.to_le_bytes().to_vec();
    expected.extend_from_slice(&body);
    assert_eq!(serialized, expected);
}

#[test]
fn serializes_ordered_channel() {
    let mut packet = create_simple_packet();
    packet.ordering_guarantee = OrderingGuarantee::Ordered(
        reliable_dgram::packet::OrderingHeader { channel: 0x0102 },
    );
    let serialized = packet.serialize(PROTO_VERSION);
    // flags byte announces only the ordering header
    assert_eq!(serialized[6], 0b010);
    // the channel follows the flags byte
    assert_eq!(&serialized[7..9], &[0x02, 0x01]);
    assert_serialized_packet_is_same(packet, PROTO_VERSION);
}

#[test]
fn rejects_truncated_buffers() {
    let packet = create_simple_packet();
    let serialized = packet.serialize(PROTO_VERSION);
    for len in 0..serialized.len() {
        assert!(Packet::deserialize(&serialized[..len], PROTO_VERSION).is_err());
    }
    assert!(Packet::deserialize(&[], PROTO_VERSION).is_err());
}
