//! The CRC-32 checksum that seals every packet. The digest itself is
//! computed by an outside library; the codec's contracts refer to it only
//! through an opaque name, so everything proved about the wire format holds
//! for whatever value the digest takes.

use vstd::prelude::*;

verus! {

/// The CRC-32/CKSUM digest of a byte sequence, left opaque: the contracts
/// only ever compare two digests of related inputs.
pub uninterp spec fn crc32_cksum_of(data: Seq<u8>) -> u32;

/// Relies on `crc::Crc::<u32>::checksum` with the catalog's `CRC_32_CKSUM`
/// algorithm: a table-driven `const fn` whose result depends on the input
/// bytes alone.
#[verifier::external_body]
pub(crate) fn crc32_cksum(data: &[u8]) -> (r: u32)
    ensures
        r == crc32_cksum_of(data@),
{
    crc::Crc::<u32>::new(&crc::CRC_32_CKSUM).checksum(data)
}

} // verus!
