use vstd::prelude::*;

verus! {

/// The CRC-16/ARC checksum of `bytes`: polynomial 0x8005, initial value 0,
/// input and output reflected, no final xor. The value is computed by the
/// `crc` crate; the decoder only compares it with what a frame transmits.
pub uninterp spec fn crc16_arc(bytes: Seq<u8>) -> u16;

/// Calls `crc::Crc::<u16>::new(&crc::CRC_16_ARC).checksum`. Believed, not
/// proved: the call returns the CRC-16/ARC checksum of exactly the bytes it
/// is given, the same for the same bytes, and does not panic.
#[verifier::external_body]
pub(crate) fn calculate_crc(avl_data: &[u8]) -> (crc: u16)
    ensures
        crc == crc16_arc(avl_data@),
{
    crc::Crc::<u16>::new(&crc::CRC_16_ARC).checksum(avl_data)
}

} // verus!
