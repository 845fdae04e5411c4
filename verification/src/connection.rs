//! Per-peer connection state: sequence counters, the sliding acknowledgment
//! window over received reliable packet ids, and the table of self-sent
//! reliable packets still awaiting acknowledgment.

use std::collections::HashMap;

use vstd::prelude::*;

use crate::packet::{DeliveryGuarantee, OrderingGuarantee, Packet, PacketView, spec_deserialize};
use crate::reliable_header::{acked_ids, ReliableHeader};

verus! {

broadcast use vstd::std_specs::hash::group_hash_axioms;

/// Per-peer connection state. `ack` is the highest reliable packet id seen
/// from the peer under the circular 16-bit order, and bit `k` of `ack_bits`
/// records that `ack - 1 - k` (mod 2^16) has been seen as well.
pub struct Connection {
    pub id_counter: u16,
    pub unreliable_seq: u16,
    pub unreliable_ack: u16,
    pub seq: u16,
    pub ack: u16,
    pub ack_bits: u32,
    pub unacked_packets: HashMap<u16, Packet>,
}

/// The mathematical model of a connection: its counters and window, and the
/// retransmission table as a map to packet models.
#[verifier::ext_equal]
pub struct ConnectionView {
    pub id_counter: u16,
    pub unreliable_seq: u16,
    pub unreliable_ack: u16,
    pub seq: u16,
    pub ack: u16,
    pub ack_bits: u32,
    pub unacked_packets: Map<u16, PacketView>,
}

impl View for Connection {
    type V = ConnectionView;

    open spec fn view(&self) -> ConnectionView {
        ConnectionView {
            id_counter: self.id_counter,
            unreliable_seq: self.unreliable_seq,
            unreliable_ack: self.unreliable_ack,
            seq: self.seq,
            ack: self.ack,
            ack_bits: self.ack_bits,
            unacked_packets: self.unacked_packets@.map_values(|p: Packet| p@),
        }
    }
}

/// The signed circular distance from `ack` to `p` in the 16-bit sequence
/// ring: how much newer (positive) or older (negative) `p` is than `ack`.
pub open spec fn seq_shift(ack: u16, p: u16) -> int {
    let d = (p - ack) % 0x10000;
    if d < 0x8000 {
        d
    } else {
        d - 0x10000
    }
}

/// The window anchor after observing reliable packet id `p`: it advances to
/// `p` exactly when `p` is newer than the current anchor.
pub open spec fn window_ack_after(ack: u16, ack_bits: u32, p: u16) -> u16 {
    if seq_shift(ack, p) > 0 {
        p
    } else {
        ack
    }
}

/// The recency bitmap after observing reliable packet id `p`: an id inside
/// the trailing window sets its bit; a newer id shifts the bitmap by the
/// distance travelled (bits falling off the window are discarded) and
/// records the previous anchor; an id older than the window, or equal to
/// the anchor, changes nothing.
pub open spec fn window_bits_after(ack: u16, ack_bits: u32, p: u16) -> u32 {
    let shift = seq_shift(ack, p);
    if shift < -32 {
        ack_bits
    } else if shift < 0 {
        ack_bits | (1u32 << ((-shift - 1) as u32))
    } else if shift == 0 {
        ack_bits
    } else if shift < 32 {
        (ack_bits << (shift as u32)) | (1u32 << ((shift - 1) as u32))
    } else if shift == 32 {
        1u32 << 31u32
    } else {
        0u32
    }
}

/// A connection after its receive window has absorbed packet id `p`.
pub open spec fn window_update(c: ConnectionView, p: u16) -> ConnectionView {
    ConnectionView {
        ack: window_ack_after(c.ack, c.ack_bits, p),
        ack_bits: window_bits_after(c.ack, c.ack_bits, p),
        ..c
    }
}

/// A connection after handling an incoming reliable packet: every id the
/// packet's header acknowledges leaves the retransmission table, and the
/// receive window absorbs the packet's own id.
pub open spec fn reliable_update(c: ConnectionView, packet_id: u16, h: ReliableHeader) -> ConnectionView {
    window_update(
        ConnectionView {
            unacked_packets: c.unacked_packets.remove_keys(
                acked_ids(h.ack_num, h.ack_bits).to_set(),
            ),
            ..c
        },
        packet_id,
    )
}

/// A connection after handling an arbitrary incoming datagram: a buffer
/// that does not decode, and a packet without delivery tracking, leave the
/// state untouched; a reliable packet releases what it acknowledges and is
/// recorded in the receive window.
pub open spec fn incoming_update(c: ConnectionView, rx: Seq<u8>, protocol_version: u64) -> ConnectionView {
    match spec_deserialize(rx, protocol_version) {
        Some(pv) => match pv.delivery_guarantee {
            DeliveryGuarantee::Reliable(h) => reliable_update(c, pv.packet_id, h),
            DeliveryGuarantee::Unreliable => c,
        },
        None => c,
    }
}

/// Retransmission-table release: handling a reliable packet whose header's
/// extraction set contains id `n` always removes `n` from the table of
/// packets awaiting acknowledgment.
pub proof fn lemma_ack_release(c: ConnectionView, packet_id: u16, h: ReliableHeader, n: u16)
    requires
        acked_ids(h.ack_num, h.ack_bits).contains(n),
    ensures
        !reliable_update(c, packet_id, h).unacked_packets.dom().contains(n),
{
}

impl Connection {
    /// A fresh connection: all counters at zero, an empty window, and an
    /// empty retransmission table.
    pub fn new() -> (c: Connection)
        ensures
            c@.id_counter == 0,
            c@.unreliable_seq == 0,
            c@.unreliable_ack == 0,
            c@.seq == 0,
            c@.ack == 0,
            c@.ack_bits == 0,
            c@.unacked_packets == Map::<u16, PacketView>::empty(),
    {
        let c = Connection {
            id_counter: 0,
            unreliable_seq: 0,
            unreliable_ack: 0,
            seq: 0,
            ack: 0,
            ack_bits: 0,
            unacked_packets: HashMap::new(),
        };
        proof {
            assert(c@.unacked_packets =~= Map::<u16, PacketView>::empty());
        }
        c
    }

    /// Handles a decoded reliable packet: releases every id acknowledged by
    /// `reliable_header` from the retransmission table, then records the
    /// packet's own id in this side's receive window.
    pub fn handle_reliable(&mut self, packet_id: u16, reliable_header: ReliableHeader)
        ensures
            final(self)@ == reliable_update(old(self)@, packet_id, reliable_header),
            forall|n: u16|
                acked_ids(reliable_header.ack_num, reliable_header.ack_bits).contains(n)
                    ==> !final(self)@.unacked_packets.dom().contains(n),
    {
        let acked = reliable_header.get_acked_packages();
        let ghost orig = self@;
        for i in 0..acked.len()
            invariant
                self.id_counter == orig.id_counter,
                self.unreliable_seq == orig.unreliable_seq,
                self.unreliable_ack == orig.unreliable_ack,
                self.seq == orig.seq,
                self.ack == orig.ack,
                self.ack_bits == orig.ack_bits,
                acked@ == acked_ids(reliable_header.ack_num, reliable_header.ack_bits),
                self@.unacked_packets =~= orig.unacked_packets.remove_keys(
                    acked@.take(i as int).to_set(),
                ),
        {
            let ghost before = self@.unacked_packets;
            self.unacked_packets.remove(&acked[i]);
            proof {
                assert(self@.unacked_packets =~= before.remove(acked@[i as int]));
                let t0 = acked@.take(i as int);
                let t1 = acked@.take(i + 1);
                assert forall|x: u16| #[trigger] t1.contains(x) implies (t0.contains(x) || x
                    == acked@[i as int]) by {
                    let j = t1.index_of(x);
                    assert(0 <= j < t1.len() && t1[j] == x);
                    if j < i {
                        assert(t0[j] == x);
                        assert(t0.contains(x));
                    } else {
                        assert(x == acked@[i as int]);
                    }
                }
                assert forall|x: u16| t0.contains(x) implies #[trigger] t1.contains(x) by {
                    let j = t0.index_of(x);
                    assert(0 <= j < t0.len() && t0[j] == x);
                    assert(t1[j] == x);
                    assert(t1.contains(x));
                }
                assert(t1[i as int] == acked@[i as int]);
                assert(t1.contains(acked@[i as int]));
                assert(self@.unacked_packets =~= orig.unacked_packets.remove_keys(t1.to_set()));
            }
        }
        proof {
            assert(acked@.take(acked@.len() as int) =~= acked@);
        }

        let d: u16 = packet_id.wrapping_sub(self.ack);
        let shift: i32 = if d < 0x8000 {
            d as i32
        } else {
            (d as i32) - 0x10000
        };
        assert(shift == seq_shift(self.ack, packet_id));

        if shift < -32 {
            // older than anything the window can record: dropped
        } else if shift < 0 {
            self.ack_bits = self.ack_bits | (1u32 << (((-shift) - 1) as u32));
        } else if shift == 0 {
            // duplicates the anchor itself: already represented
        } else {
            let s: u32 = d as u32;
            let prev_bits = self.ack_bits;
            self.ack = packet_id;
            let shifted: u32 = if s < 32 {
                prev_bits << s
            } else {
                0u32
            };
            let marker: u32 = if s <= 32 {
                1u32 << (s - 1)
            } else {
                0u32
            };
            self.ack_bits = shifted | marker;
            proof {
                if s == 32 {
                    assert(0u32 | (1u32 << 31u32) == 1u32 << 31u32) by (bit_vector);
                }
                if s > 32 {
                    assert(0u32 | 0u32 == 0u32) by (bit_vector);
                }
            }
        }
        proof {
            assert(final(self)@ =~= reliable_update(orig, packet_id, reliable_header));
        }
    }

    /// Handles one incoming datagram: decodes it under `protocol_version`,
    /// silently drops anything that does not decode, and applies reliable
    /// bookkeeping when the packet carries a reliable header. Garbage never
    /// changes the connection's state.
    pub fn handle_incomming(&mut self, rx: &[u8], protocol_version: u64)
        ensures
            final(self)@ == incoming_update(old(self)@, rx@, protocol_version),
    {
        let packet = match Packet::deserialize(rx, protocol_version) {
            Ok(packet) => packet,
            Err(_) => {
                return;
            },
        };

        match packet.delivery_guarantee {
            DeliveryGuarantee::Reliable(header) => {
                self.handle_reliable(packet.packet_id, header);
            },
            DeliveryGuarantee::Unreliable => {},
        }
    }

    /// Builds the next outgoing reliable packet: stamps it with the next
    /// sequence number and this side's current receive window, and files it
    /// in the retransmission table until the peer acknowledges it.
    pub fn create_reliable(&mut self, payload: Vec<u8>) -> (packet: Packet)
        ensures
            packet@ == (PacketView {
                payload: payload@,
                fragment_header: None,
                packet_id: old(self).seq,
                ordering_guarantee: OrderingGuarantee::Unordered,
                delivery_guarantee: DeliveryGuarantee::Reliable(
                    ReliableHeader { ack_num: old(self).ack, ack_bits: old(self).ack_bits },
                ),
            }),
            final(self)@ == (ConnectionView {
                seq: vstd::wrapping::u16_specs::wrapping_add(old(self).seq, 1),
                unacked_packets: old(self)@.unacked_packets.insert(old(self).seq, packet@),
                ..old(self)@
            }),
    {
        let packet_id = self.seq;
        self.seq = self.seq.wrapping_add(1);
        let header = ReliableHeader { ack_num: self.ack, ack_bits: self.ack_bits };
        let stored = Packet {
            payload: vstd::slice::slice_to_vec(payload.as_slice()),
            fragment_header: None,
            packet_id,
            ordering_guarantee: OrderingGuarantee::Unordered,
            delivery_guarantee: DeliveryGuarantee::Reliable(header),
        };
        let ghost before = self@.unacked_packets;
        self.unacked_packets.insert(packet_id, stored);
        let packet = Packet {
            payload,
            fragment_header: None,
            packet_id,
            ordering_guarantee: OrderingGuarantee::Unordered,
            delivery_guarantee: DeliveryGuarantee::Reliable(header),
        };
        proof {
            assert(self@.unacked_packets =~= before.insert(packet_id, packet@));
            assert(final(self)@ =~= (ConnectionView {
                seq: vstd::wrapping::u16_specs::wrapping_add(old(self).seq, 1),
                unacked_packets: old(self)@.unacked_packets.insert(old(self).seq, packet@),
                ..old(self)@
            }));
        }
        packet
    }
}

} // verus!
