//! The packet wire codec: a logical packet, its byte-exact wire layout, and
//! serialization and deserialization proved inverse to one another.
//!
//! Wire layout, all multi-byte integers little-endian:
//! a CRC-32 checksum over the protocol version (as 8 bytes) and everything
//! after the checksum field; the packet id; one flags byte announcing which
//! optional headers follow; the reliable, ordering and fragment headers in
//! that fixed order, each present exactly when its flag bit is set; then the
//! payload, running to the end of the datagram.

use vstd::prelude::*;

use crate::checksum::{crc32_cksum, crc32_cksum_of};
use crate::reliable_header::ReliableHeader;
use crate::wire::{
    lemma_u16_le_roundtrip, lemma_u32_from_le_injective, lemma_u32_le_roundtrip, push_u16_le,
    push_u32_le, push_u64_le, read_u16_le, read_u32_le, u16_from_le, u16_le_bytes, u32_from_le,
    u32_le_bytes, u64_le_bytes,
};
use crate::DecodeError;

verus! {

/// Flag bit announcing a fragment header.
pub const FLAG_FRAGMENT: u8 = 1;

/// Flag bit announcing an ordering header.
pub const FLAG_ORDERED: u8 = 2;

/// Flag bit announcing a reliable delivery header.
pub const FLAG_RELIABLE: u8 = 4;

/// A logical packet as handed to and received from the codec.
#[derive(Debug, PartialEq, Eq)]
pub struct Packet {
    pub payload: Vec<u8>,
    pub fragment_header: Option<FragmentHeader>,
    pub packet_id: u16,
    pub ordering_guarantee: OrderingGuarantee,
    pub delivery_guarantee: DeliveryGuarantee,
}

/// Whether the packet must be delivered in order within its channel.
#[derive(Clone, Copy, Debug, PartialEq, Eq, Structural)]
pub enum OrderingGuarantee {
    Ordered(OrderingHeader),
    Unordered,
}

/// Whether the packet's receipt is tracked and acknowledged.
#[derive(Clone, Copy, Debug, PartialEq, Eq, Structural)]
pub enum DeliveryGuarantee {
    Reliable(ReliableHeader),
    Unreliable,
}

/// One piece of a payload split over several datagrams.
#[derive(Clone, Copy, Debug, PartialEq, Eq, Structural)]
pub struct FragmentHeader {
    pub frag_count: u8,
    pub frag_id: u8,
}

/// The ordering stream a packet belongs to.
#[derive(Clone, Copy, Debug, PartialEq, Eq, Structural)]
pub struct OrderingHeader {
    pub channel: u16,
}

/// The mathematical model of a packet: the same fields, with the payload as
/// a byte sequence.
#[verifier::ext_equal]
pub struct PacketView {
    pub payload: Seq<u8>,
    pub fragment_header: Option<FragmentHeader>,
    pub packet_id: u16,
    pub ordering_guarantee: OrderingGuarantee,
    pub delivery_guarantee: DeliveryGuarantee,
}

impl View for Packet {
    type V = PacketView;

    open spec fn view(&self) -> PacketView {
        PacketView {
            payload: self.payload@,
            fragment_header: self.fragment_header,
            packet_id: self.packet_id,
            ordering_guarantee: self.ordering_guarantee,
            delivery_guarantee: self.delivery_guarantee,
        }
    }
}

/// The flags byte: one bit per optional header that is present; the
/// reserved bits are always zero.
pub open spec fn spec_flags(p: PacketView) -> u8 {
    (if p.fragment_header is Some {
        FLAG_FRAGMENT
    } else {
        0u8
    }) | (if p.ordering_guarantee is Ordered {
        FLAG_ORDERED
    } else {
        0u8
    }) | (if p.delivery_guarantee is Reliable {
        FLAG_RELIABLE
    } else {
        0u8
    })
}

/// The bytes of the reliable header, empty when the packet is unreliable.
pub open spec fn reliable_bytes(p: PacketView) -> Seq<u8> {
    match p.delivery_guarantee {
        DeliveryGuarantee::Reliable(h) => u16_le_bytes(h.ack_num) + u32_le_bytes(h.ack_bits),
        DeliveryGuarantee::Unreliable => Seq::<u8>::empty(),
    }
}

/// The bytes of the ordering header, empty when the packet is unordered.
pub open spec fn ordering_bytes(p: PacketView) -> Seq<u8> {
    match p.ordering_guarantee {
        OrderingGuarantee::Ordered(h) => u16_le_bytes(h.channel),
        OrderingGuarantee::Unordered => Seq::<u8>::empty(),
    }
}

/// The bytes of the fragment header, empty when the packet is unfragmented.
pub open spec fn fragment_bytes(p: PacketView) -> Seq<u8> {
    match p.fragment_header {
        Some(f) => seq![f.frag_id, f.frag_count],
        None => Seq::<u8>::empty(),
    }
}

/// Everything on the wire after the checksum field: packet id, flags, the
/// present optional headers in fixed order, then the payload.
pub open spec fn packet_body(p: PacketView) -> Seq<u8> {
    u16_le_bytes(p.packet_id) + seq![spec_flags(p)] + reliable_bytes(p) + ordering_bytes(p)
        + fragment_bytes(p) + p.payload
}

/// The full wire encoding of `p` under protocol version `proto_version`:
/// the CRC-32 of the version bytes followed by the body, then the body.
pub open spec fn spec_serialize(p: PacketView, proto_version: u64) -> Seq<u8> {
    u32_le_bytes(crc32_cksum_of(u64_le_bytes(proto_version) + packet_body(p))) + packet_body(p)
}

/// Parses everything after the checksum field. Fails exactly when the
/// buffer is too short for the headers its flags byte announces. Reserved
/// flag bits are ignored.
pub open spec fn parse_body(rest: Seq<u8>) -> Option<PacketView> {
    if rest.len() < 3 {
        None
    } else {
        let packet_id = u16_from_le(rest[0], rest[1]);
        let flags = rest[2];
        let rel_len: int = if flags & FLAG_RELIABLE != 0 {
            6
        } else {
            0
        };
        let ord_len: int = if flags & FLAG_ORDERED != 0 {
            2
        } else {
            0
        };
        let frag_len: int = if flags & FLAG_FRAGMENT != 0 {
            2
        } else {
            0
        };
        let hlen = 3 + rel_len + ord_len + frag_len;
        if rest.len() < hlen {
            None
        } else {
            let delivery_guarantee = if flags & FLAG_RELIABLE != 0 {
                DeliveryGuarantee::Reliable(
                    ReliableHeader {
                        ack_num: u16_from_le(rest[3], rest[4]),
                        ack_bits: u32_from_le(rest[5], rest[6], rest[7], rest[8]),
                    },
                )
            } else {
                DeliveryGuarantee::Unreliable
            };
            let ordering_guarantee = if flags & FLAG_ORDERED != 0 {
                OrderingGuarantee::Ordered(
                    OrderingHeader { channel: u16_from_le(rest[3 + rel_len], rest[4 + rel_len]) },
                )
            } else {
                OrderingGuarantee::Unordered
            };
            let fragment_header = if flags & FLAG_FRAGMENT != 0 {
                Some(
                    FragmentHeader {
                        frag_id: rest[3 + rel_len + ord_len],
                        frag_count: rest[4 + rel_len + ord_len],
                    },
                )
            } else {
                None
            };
            Some(
                PacketView {
                    payload: rest.skip(hlen),
                    fragment_header,
                    packet_id,
                    ordering_guarantee,
                    delivery_guarantee,
                },
            )
        }
    }
}

/// What deserialization yields on any byte buffer under `proto_version`:
/// `None` exactly on a truncated buffer, a checksum mismatch (which also
/// covers a packet sealed under another version), or a body too short for
/// the headers its flags announce.
pub open spec fn spec_deserialize(bytes: Seq<u8>, proto_version: u64) -> Option<PacketView> {
    if bytes.len() < 4 {
        None
    } else {
        let stored = u32_from_le(bytes[0], bytes[1], bytes[2], bytes[3]);
        let rest = bytes.skip(4);
        if stored != crc32_cksum_of(u64_le_bytes(proto_version) + rest) {
            None
        } else {
            parse_body(rest)
        }
    }
}

impl Packet {
    /// The checksum a packet is sealed with: the CRC-32 of the protocol
    /// version's eight little-endian bytes followed by everything on the
    /// wire after the checksum field.
    pub fn caluclate_checksum(packet_minus_chksum: &[u8], proto_version: u64) -> (r: u32)
        ensures
            r == crc32_cksum_of(u64_le_bytes(proto_version) + packet_minus_chksum@),
    {
        let mut buf: Vec<u8> = Vec::new();
        push_u64_le(&mut buf, proto_version);
        let mut tail = vstd::slice::slice_to_vec(packet_minus_chksum);
        buf.append(&mut tail);
        assert(buf@ =~= u64_le_bytes(proto_version) + packet_minus_chksum@);
        crc32_cksum(buf.as_slice())
    }

    /// The flags byte derived from which optional headers are present.
    pub fn get_flags(&self) -> (r: u8)
        ensures
            r == spec_flags(self@),
    {
        (if self.fragment_header.is_some() {
            FLAG_FRAGMENT
        } else {
            0u8
        }) | (if matches!(self.ordering_guarantee, OrderingGuarantee::Ordered(..)) {
            FLAG_ORDERED
        } else {
            0u8
        }) | (if matches!(self.delivery_guarantee, DeliveryGuarantee::Reliable(..)) {
            FLAG_RELIABLE
        } else {
            0u8
        })
    }

    /// Encodes the packet for the wire under `proto_version`, exactly as
    /// `spec_serialize` lays it out.
    pub fn serialize(&self, proto_version: u64) -> (out: Vec<u8>)
        ensures
            out@ == spec_serialize(self@, proto_version),
    {
        let mut body: Vec<u8> = Vec::new();
        push_u16_le(&mut body, self.packet_id);
        body.push(self.get_flags());

        if let DeliveryGuarantee::Reliable(h) = &self.delivery_guarantee {
            push_u16_le(&mut body, h.ack_num);
            push_u32_le(&mut body, h.ack_bits);
        }
        if let OrderingGuarantee::Ordered(h) = &self.ordering_guarantee {
            push_u16_le(&mut body, h.channel);
        }
        if let Some(f) = &self.fragment_header {
            body.push(f.frag_id);
            body.push(f.frag_count);
        }
        let mut payload_copy = vstd::slice::slice_to_vec(self.payload.as_slice());
        body.append(&mut payload_copy);
        assert(body@ =~= packet_body(self@));

        let checksum = Packet::caluclate_checksum(body.as_slice(), proto_version);
        let mut out: Vec<u8> = Vec::new();
        push_u32_le(&mut out, checksum);
        out.append(&mut body);
        assert(out@ =~= spec_serialize(self@, proto_version));
        out
    }

    /// Decodes a datagram under `proto_version`, returning exactly what
    /// `spec_deserialize` admits and the uniform error on everything else.
    pub fn deserialize(bytes: &[u8], proto_version: u64) -> (r: Result<Packet, DecodeError>)
        ensures
            match r {
                Ok(p) => spec_deserialize(bytes@, proto_version) == Some(p@),
                Err(_) => spec_deserialize(bytes@, proto_version) is None,
            },
    {
        if bytes.len() < 4 {
            return Err(DecodeError);
        }
        let stored = read_u32_le(bytes, 0);
        let rest = vstd::slice::slice_subrange(bytes, 4, bytes.len());
        assert(rest@ =~= bytes@.skip(4));
        let computed = Packet::caluclate_checksum(rest, proto_version);
        if stored != computed {
            return Err(DecodeError);
        }

        if rest.len() < 3 {
            return Err(DecodeError);
        }
        let packet_id = read_u16_le(rest, 0);
        let flags = rest[2];

        let mut pos: usize = 3;
        let mut delivery_guarantee = DeliveryGuarantee::Unreliable;
        let mut ordering_guarantee = OrderingGuarantee::Unordered;
        let mut fragment_header: Option<FragmentHeader> = None;

        if flags & FLAG_RELIABLE != 0 {
            if rest.len() < pos + 6 {
                return Err(DecodeError);
            }
            let ack_num = read_u16_le(rest, pos);
            let ack_bits = read_u32_le(rest, pos + 2);
            delivery_guarantee = DeliveryGuarantee::Reliable(ReliableHeader { ack_num, ack_bits });
            pos = pos + 6;
        }
        if flags & FLAG_ORDERED != 0 {
            if rest.len() < pos + 2 {
                return Err(DecodeError);
            }
            let channel = read_u16_le(rest, pos);
            ordering_guarantee = OrderingGuarantee::Ordered(OrderingHeader { channel });
            pos = pos + 2;
        }
        if flags & FLAG_FRAGMENT != 0 {
            if rest.len() < pos + 2 {
                return Err(DecodeError);
            }
            fragment_header = Some(FragmentHeader { frag_id: rest[pos], frag_count: rest[pos + 1] });
            pos = pos + 2;
        }

        let payload = vstd::slice::slice_to_vec(
            vstd::slice::slice_subrange(rest, pos, rest.len()),
        );
        let packet = Packet { payload, fragment_header, packet_id, ordering_guarantee, delivery_guarantee };
        proof {
            assert(packet@.payload =~= rest@.skip(pos as int));
            assert(spec_deserialize(bytes@, proto_version) == Some(packet@)) by {
                assert(parse_body(rest@) == Some(packet@));
            }
        }
        Ok(packet)
    }
}

/// Each flag bit of the flags byte reports exactly the presence of its
/// optional header.
pub proof fn lemma_flags_bits(p: PacketView)
    ensures
        (spec_flags(p) & FLAG_RELIABLE != 0) == (p.delivery_guarantee is Reliable),
        (spec_flags(p) & FLAG_ORDERED != 0) == (p.ordering_guarantee is Ordered),
        (spec_flags(p) & FLAG_FRAGMENT != 0) == (p.fragment_header is Some),
{
    let a: u8 = if p.fragment_header is Some {
        1
    } else {
        0
    };
    let b: u8 = if p.ordering_guarantee is Ordered {
        2
    } else {
        0
    };
    let c: u8 = if p.delivery_guarantee is Reliable {
        4
    } else {
        0
    };
    assert((((a | b | c) & 4 != 0) == (c == 4)) && (((a | b | c) & 2 != 0) == (b == 2)) && (((a
        | b | c) & 1 != 0) == (a == 1))) by (bit_vector)
        requires
            (a == 0 || a == 1) && (b == 0 || b == 2) && (c == 0 || c == 4),
    ;
}

/// Parsing the body bytes of any packet recovers the packet: the flags byte
/// announces exactly the headers that were written, and every field reads
/// back as it was encoded.
pub proof fn lemma_parse_body(p: PacketView)
    ensures
        parse_body(packet_body(p)) == Some(p),
{
    let body = packet_body(p);
    let f = spec_flags(p);
    lemma_flags_bits(p);
    let rel_len: int = if f & FLAG_RELIABLE != 0 {
        6
    } else {
        0
    };
    let ord_len: int = if f & FLAG_ORDERED != 0 {
        2
    } else {
        0
    };
    let frag_len: int = if f & FLAG_FRAGMENT != 0 {
        2
    } else {
        0
    };
    let hlen = 3 + rel_len + ord_len + frag_len;
    assert(reliable_bytes(p).len() == rel_len);
    assert(ordering_bytes(p).len() == ord_len);
    assert(fragment_bytes(p).len() == frag_len);
    assert(body.len() == hlen + p.payload.len());

    assert(body[0] == u16_le_bytes(p.packet_id)[0]);
    assert(body[1] == u16_le_bytes(p.packet_id)[1]);
    assert(body[2] == f);
    lemma_u16_le_roundtrip(p.packet_id);

    if let DeliveryGuarantee::Reliable(h) = p.delivery_guarantee {
        assert(body[3] == reliable_bytes(p)[0]);
        assert(body[4] == reliable_bytes(p)[1]);
        assert(body[5] == reliable_bytes(p)[2]);
        assert(body[6] == reliable_bytes(p)[3]);
        assert(body[7] == reliable_bytes(p)[4]);
        assert(body[8] == reliable_bytes(p)[5]);
        lemma_u16_le_roundtrip(h.ack_num);
        lemma_u32_le_roundtrip(h.ack_bits);
    }
    if let OrderingGuarantee::Ordered(h) = p.ordering_guarantee {
        assert(body[3 + rel_len] == ordering_bytes(p)[0]);
        assert(body[4 + rel_len] == ordering_bytes(p)[1]);
        lemma_u16_le_roundtrip(h.channel);
    }
    if p.fragment_header is Some {
        assert(body[3 + rel_len + ord_len] == fragment_bytes(p)[0]);
        assert(body[4 + rel_len + ord_len] == fragment_bytes(p)[1]);
    }
    assert(body.skip(hlen) =~= p.payload);
    assert(parse_body(body) matches Some(q) && q =~= p);
}

/// The round-trip law: deserializing a serialized packet under the same
/// protocol version recovers the packet exactly, for every packet and every
/// version.
pub proof fn lemma_round_trip(p: PacketView, proto_version: u64)
    ensures
        spec_deserialize(spec_serialize(p, proto_version), proto_version) == Some(p),
{
    let body = packet_body(p);
    let cks = crc32_cksum_of(u64_le_bytes(proto_version) + body);
    let bytes = spec_serialize(p, proto_version);
    assert(bytes[0] == u32_le_bytes(cks)[0]);
    assert(bytes[1] == u32_le_bytes(cks)[1]);
    assert(bytes[2] == u32_le_bytes(cks)[2]);
    assert(bytes[3] == u32_le_bytes(cks)[3]);
    lemma_u32_le_roundtrip(cks);
    assert(bytes.skip(4) =~= body);
    lemma_parse_body(p);
}

/// Tampering with the body is caught whenever the checksum notices:
/// changing a byte after the checksum field leaves the stored checksum
/// sealing the original body, so deserialization fails whenever the
/// tampered body's digest differs from the original's. What remains is a
/// property of the CRC-32 algorithm itself, which the codec treats as
/// opaque.
pub proof fn lemma_body_tamper(p: PacketView, proto_version: u64, i: int, b: u8)
    requires
        4 <= i < spec_serialize(p, proto_version).len(),
        crc32_cksum_of(u64_le_bytes(proto_version) + spec_serialize(p, proto_version).update(i, b).skip(4))
            != crc32_cksum_of(u64_le_bytes(proto_version) + packet_body(p)),
    ensures
        spec_deserialize(spec_serialize(p, proto_version).update(i, b), proto_version) is None,
{
    let bytes = spec_serialize(p, proto_version);
    let tampered = bytes.update(i, b);
    let body = packet_body(p);
    let cks = crc32_cksum_of(u64_le_bytes(proto_version) + body);
    assert(tampered[0] == u32_le_bytes(cks)[0]);
    assert(tampered[1] == u32_le_bytes(cks)[1]);
    assert(tampered[2] == u32_le_bytes(cks)[2]);
    assert(tampered[3] == u32_le_bytes(cks)[3]);
    lemma_u32_le_roundtrip(cks);
}

/// A version mismatch is caught whenever the checksum notices: a packet
/// sealed under one protocol version fails to deserialize under another
/// whenever the two versions' digests of the same body differ. What remains
/// is a property of the CRC-32 algorithm itself, which the codec treats as
/// opaque.
pub proof fn lemma_version_binding(p: PacketView, proto_version: u64, other_version: u64)
    requires
        crc32_cksum_of(u64_le_bytes(other_version) + packet_body(p)) != crc32_cksum_of(
            u64_le_bytes(proto_version) + packet_body(p),
        ),
    ensures
        spec_deserialize(spec_serialize(p, proto_version), other_version) is None,
{
    let bytes = spec_serialize(p, proto_version);
    let body = packet_body(p);
    let cks = crc32_cksum_of(u64_le_bytes(proto_version) + body);
    assert(bytes[0] == u32_le_bytes(cks)[0]);
    assert(bytes[1] == u32_le_bytes(cks)[1]);
    assert(bytes[2] == u32_le_bytes(cks)[2]);
    assert(bytes[3] == u32_le_bytes(cks)[3]);
    lemma_u32_le_roundtrip(cks);
    assert(bytes.skip(4) =~= body);
}

/// Tampering with the checksum field is always caught: changing any of the
/// first four bytes of a serialized packet to a different value makes
/// deserialization fail.
pub proof fn lemma_checksum_field_tamper(p: PacketView, proto_version: u64, i: int, b: u8)
    requires
        0 <= i < 4,
        b != spec_serialize(p, proto_version)[i],
    ensures
        spec_deserialize(spec_serialize(p, proto_version).update(i, b), proto_version) is None,
{
    let bytes = spec_serialize(p, proto_version);
    let tampered = bytes.update(i, b);
    let body = packet_body(p);
    let cks = crc32_cksum_of(u64_le_bytes(proto_version) + body);
    assert(bytes[0] == u32_le_bytes(cks)[0]);
    assert(bytes[1] == u32_le_bytes(cks)[1]);
    assert(bytes[2] == u32_le_bytes(cks)[2]);
    assert(bytes[3] == u32_le_bytes(cks)[3]);
    lemma_u32_le_roundtrip(cks);
    assert(tampered.skip(4) =~= bytes.skip(4));
    assert(bytes.skip(4) =~= body);
    let stored = u32_from_le(tampered[0], tampered[1], tampered[2], tampered[3]);
    if stored == cks {
        lemma_u32_from_le_injective(
            tampered[0],
            tampered[1],
            tampered[2],
            tampered[3],
            bytes[0],
            bytes[1],
            bytes[2],
            bytes[3],
        );
        assert(tampered[i] == bytes[i]);
        assert(false);
    }
}

} // verus!
