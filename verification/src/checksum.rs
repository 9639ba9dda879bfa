//! The checksum that closes a frame.

use vstd::prelude::*;
use vstd::slice::slice_subrange;

verus! {

/// The CRC-8/MAXIM-DOW checksum of `data`: polynomial 0x31, initial value 0,
/// input and output reflected, as the `crc` crate computes it.
pub uninterp spec fn crc8_maxim_dow(data: Seq<u8>) -> u8;

/// Calls `crc::Crc::<u8>::checksum` of the `crc` crate, on an instance made
/// by `Crc::<u8>::new` for the catalogue entry `CRC_8_MAXIM_DOW`. The
/// contract gives the result a name and claims nothing else of it.
#[verifier::external_body]
pub(crate) fn crc8(data: &[u8]) -> (sum: u8)
    ensures
        sum == crc8_maxim_dow(data@),
{
    crc::Crc::<u8>::new(&crc::CRC_8_MAXIM_DOW).checksum(data)
}

/// The bytes of a frame that its checksum covers: all from offset 3 up to,
/// and without, the last byte.
pub open spec fn covered(frame: Seq<u8>) -> Seq<u8>
    recommends
        frame.len() >= 4,
{
    frame.subrange(3, frame.len() - 1)
}

/// Whether the last byte of `frame` is the checksum of the bytes it covers.
/// A frame too short to hold a checksum does not pass.
pub open spec fn checksum_matches_spec(frame: Seq<u8>) -> bool {
    frame.len() >= 4 && frame.last() == crc8_maxim_dow(covered(frame))
}

/// The checksum of the bytes of `data` from offset `from` on.
pub fn checksum_from(data: &[u8], from: usize) -> (sum: u8)
    requires
        from <= data@.len(),
    ensures
        sum == crc8_maxim_dow(data@.subrange(from as int, data@.len() as int)),
{
    crc8(slice_subrange(data, from, data.len()))
}

/// Tells whether the last byte of `frame` is the checksum of the bytes it
/// covers. Decoding does not ask this; a receiver that wants corrupt frames
/// rejected asks it first.
pub fn checksum_matches(frame: &[u8]) -> (ok: bool)
    ensures
        ok == checksum_matches_spec(frame@),
{
    let len: usize = frame.len();
    if len < 4 {
        return false;
    }
    let sum: u8 = crc8(slice_subrange(frame, 3, len - 1));
    frame[len - 1] == sum
}

} // verus!
