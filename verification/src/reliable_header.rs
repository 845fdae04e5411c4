//! The reliable delivery header: the sender's latest acknowledged packet id
//! and a 32-bit recency bitmap, and the extraction of the full set of packet
//! ids that header acknowledges.

use vstd::prelude::*;

verus! {

/// Acknowledgment state piggy-backed on every reliable packet: `ack_num` is
/// the latest packet id the sender has seen, and bit `k` of `ack_bits` set
/// means `ack_num - 1 - k` (mod 2^16) has been seen as well.
#[derive(Clone, Copy, Debug, PartialEq, Eq, Structural)]
pub struct ReliableHeader {
    pub ack_num: u16,
    pub ack_bits: u32,
}

/// The packet id `ack_num - 1 - k` with 16-bit wraparound.
pub open spec fn ack_window_id(ack_num: u16, k: int) -> u16 {
    (((ack_num - 1 - k) % 0x10000) as u16)
}

/// The acknowledged ids contributed by `ack_num` itself and by the bitmap
/// bits below `n`: `ack_num` first, then one id per set bit in ascending
/// bit order.
pub open spec fn acked_ids_upto(ack_num: u16, ack_bits: u32, n: int) -> Seq<u16>
    decreases n,
{
    if n <= 0 {
        seq![ack_num]
    } else {
        acked_ids_upto(ack_num, ack_bits, n - 1) + (if ack_bits & (1u32 << ((n - 1) as u32))
            != 0 {
            seq![ack_window_id(ack_num, n - 1)]
        } else {
            Seq::<u16>::empty()
        })
    }
}

/// Every id a reliable header acknowledges: the anchor `ack_num`, then
/// `ack_num - 1 - k` (mod 2^16) for each set bit `k` of the 32-bit bitmap,
/// in ascending bit order.
pub open spec fn acked_ids(ack_num: u16, ack_bits: u32) -> Seq<u16> {
    acked_ids_upto(ack_num, ack_bits, 32)
}

impl ReliableHeader {
    /// All packet ids this header acknowledges, anchor first, then the
    /// bitmap's contributions in ascending bit order.
    pub fn get_acked_packages(&self) -> (acked: Vec<u16>)
        ensures
            acked@ == acked_ids(self.ack_num, self.ack_bits),
    {
        let mut acked: Vec<u16> = Vec::with_capacity(33);
        acked.push(self.ack_num);
        assert(acked@ =~= acked_ids_upto(self.ack_num, self.ack_bits, 0));
        for bit_num in 0..32usize
            invariant
                acked@ == acked_ids_upto(self.ack_num, self.ack_bits, bit_num as int),
        {
            let bit_mask: u32 = 1u32 << (bit_num as u32);
            if self.ack_bits & bit_mask != 0 {
                let id = self.ack_num.wrapping_sub(1).wrapping_sub(bit_num as u16);
                proof {
                    lemma_wrapping_back(self.ack_num, bit_num as u16);
                }
                acked.push(id);
            }
            assert(acked@ =~= acked_ids_upto(self.ack_num, self.ack_bits, bit_num + 1));
        }
        acked
    }
}

/// Two wrapping subtractions compute `ack_num - 1 - k` in the 16-bit ring.
proof fn lemma_wrapping_back(ack_num: u16, k: u16)
    ensures
        vstd::wrapping::u16_specs::wrapping_sub(
            vstd::wrapping::u16_specs::wrapping_sub(ack_num, 1),
            k,
        ) == ack_window_id(ack_num, k as int),
{
}

} // verus!
