//! Little-endian integers as they stand in an instruction's data.

use byteorder::ByteOrder;
use vstd::prelude::*;
use vstd::slice::slice_subrange;

verus! {

/// The 16-bit number whose low byte is `lo` and whose high byte is `hi`.
pub open spec fn le_u16(lo: u8, hi: u8) -> u16 {
    (lo as int + 256 * (hi as int)) as u16
}

/// The 16-bit little-endian number that `data` holds at `pos`.
pub open spec fn u16_at(data: Seq<u8>, pos: int) -> u16
    recommends
        0 <= pos,
        pos + 2 <= data.len(),
{
    le_u16(data[pos], data[pos + 1])
}

/// Calls `byteorder::LittleEndian::read_u16`, which panics on fewer than two
/// bytes and otherwise reads the first two as a little-endian number.
#[verifier::external_body]
fn read_u16_le(buf: &[u8]) -> (value: u16)
    requires
        buf@.len() >= 2,
    ensures
        value == le_u16(buf@[0], buf@[1]),
{
    byteorder::LittleEndian::read_u16(buf)
}

/// Reads the 16-bit little-endian number at `pos`.
pub fn read_u16_at(data: &[u8], pos: usize) -> (value: u16)
    requires
        pos + 2 <= data.len(),
    ensures
        value == u16_at(data@, pos as int),
{
    read_u16_le(slice_subrange(data, pos, pos + 2))
}

/// Whether the two slices hold the same bytes.
pub fn bytes_equal(a: &[u8], b: &[u8]) -> (same: bool)
    ensures
        same == (a@ == b@),
{
    if a.len() != b.len() {
        return false;
    }
    let mut i: usize = 0;
    while i < a.len()
        invariant
            a.len() == b.len(),
            i <= a.len(),
            forall|j: int| 0 <= j < i ==> a@[j] == b@[j],
        decreases a.len() - i,
    {
        if a[i] != b[i] {
            return false;
        }
        i = i + 1;
    }
    assert(a@ =~= b@);
    true
}

} // verus!
