//! One entry record of a companion instruction, and how it is read.

use crate::scheme::SchemeLayout;
use crate::wire::{read_u16_at, u16_at};
use vstd::prelude::*;

verus! {

/// The numbers of one entry record, as the verifier's wire format holds them.
/// Instruction indices are widened to 16 bits where a scheme stores one byte.
#[derive(Clone, Copy, Debug, PartialEq, Eq, Structural)]
pub struct EntryRecord {
    /// Where the signature starts.
    pub signature_offset: u16,
    /// The instruction whose data holds the signature.
    pub signature_instruction_index: u16,
    /// Where the signer identity starts.
    pub identity_offset: u16,
    /// The instruction whose data holds the signer identity.
    pub identity_instruction_index: u16,
    /// Where the message starts.
    pub message_offset: u16,
    /// How many bytes the message has.
    pub message_size: u16,
    /// The instruction whose data holds the message.
    pub message_instruction_index: u16,
}

/// The instruction index that `data` holds at `pos` in `width` bytes.
pub open spec fn index_at(data: Seq<u8>, pos: int, width: int) -> u16
    recommends
        0 <= pos,
        1 <= width <= 2,
        pos + width <= data.len(),
{
    if width == 1 {
        data[pos] as u16
    } else {
        u16_at(data, pos)
    }
}

/// The record that starts at `pos`: signature offset and index, identity
/// offset and index, message offset, size and index, in this order.
pub open spec fn record_at(layout: SchemeLayout, data: Seq<u8>, pos: int) -> EntryRecord
    recommends
        layout.wf(),
        0 <= pos,
        pos + layout.record_width <= data.len(),
{
    let w = layout.index_width as int;
    EntryRecord {
        signature_offset: u16_at(data, pos),
        signature_instruction_index: index_at(data, pos + 2, w),
        identity_offset: u16_at(data, pos + 2 + w),
        identity_instruction_index: index_at(data, pos + 4 + w, w),
        message_offset: u16_at(data, pos + 4 + 2 * w),
        message_size: u16_at(data, pos + 6 + 2 * w),
        message_instruction_index: index_at(data, pos + 8 + 2 * w, w),
    }
}

impl EntryRecord {
    /// The signer identity and the message both lie inside `len` bytes.
    pub open spec fn windows_within(&self, layout: SchemeLayout, len: int) -> bool {
        &&& self.identity_offset + layout.identity_len <= len
        &&& self.message_offset + self.message_size <= len
    }

    /// The entry takes its signer identity and its message from instruction
    /// `index`.
    pub open spec fn refers_to(&self, index: u16) -> bool {
        &&& self.identity_instruction_index == index
        &&& self.message_instruction_index == index
    }

    /// The two entries cover the same message window.
    pub open spec fn same_message_as(&self, other: EntryRecord) -> bool {
        &&& self.message_offset == other.message_offset
        &&& self.message_size == other.message_size
    }

    /// The bytes of `data` that hold the signer identity.
    pub open spec fn identity_of(&self, layout: SchemeLayout, data: Seq<u8>) -> Seq<u8>
        recommends
            self.windows_within(layout, data.len() as int),
    {
        data.subrange(self.identity_offset as int, self.identity_offset + layout.identity_len)
    }

    /// The bytes of `data` that hold the message.
    pub open spec fn message_of(&self, data: Seq<u8>) -> Seq<u8>
        recommends
            self.message_offset + self.message_size <= data.len(),
    {
        data.subrange(self.message_offset as int, self.message_offset + self.message_size)
    }
}

/// Reads an instruction index of `width` bytes at `pos`.
fn read_index_at(data: &[u8], pos: usize, width: usize) -> (index: u16)
    requires
        1 <= width <= 2,
        pos + width <= data.len(),
    ensures
        index == index_at(data@, pos as int, width as int),
{
    if width == 1 {
        data[pos] as u16
    } else {
        read_u16_at(data, pos)
    }
}

/// Reads the record that starts at `pos`.
pub fn read_record(layout: &SchemeLayout, data: &[u8], pos: usize) -> (record: EntryRecord)
    requires
        layout.wf(),
        pos + layout.record_width <= data.len(),
    ensures
        record == record_at(*layout, data@, pos as int),
{
    let w: usize = layout.index_width;
    EntryRecord {
        signature_offset: read_u16_at(data, pos),
        signature_instruction_index: read_index_at(data, pos + 2, w),
        identity_offset: read_u16_at(data, pos + 2 + w),
        identity_instruction_index: read_index_at(data, pos + 4 + w, w),
        message_offset: read_u16_at(data, pos + 4 + 2 * w),
        message_size: read_u16_at(data, pos + 6 + 2 * w),
        message_instruction_index: read_index_at(data, pos + 8 + 2 * w, w),
    }
}

} // verus!
