//! The inverse of decoding: laying entry records out as the verifier's wire
//! format has them.

use crate::decode::{declared_count, decode_records, first_bad_record, record, record_ok};
use crate::entry::{record_at, EntryRecord};
use crate::error::ErrorCode;
use crate::scheme::{Scheme, SchemeLayout};
use crate::wire::le_u16;
use vstd::prelude::*;

verus! {

/// The two bytes of `value`, low byte first.
pub open spec fn u16_bytes(value: u16) -> Seq<u8> {
    seq![(value % 256) as u8, (value / 256) as u8]
}

/// The bytes of an instruction index that is stored in `width` bytes.
pub open spec fn index_bytes(index: u16, width: int) -> Seq<u8> {
    if width == 1 {
        seq![index as u8]
    } else {
        u16_bytes(index)
    }
}

/// The bytes of one record.
pub open spec fn record_bytes(layout: SchemeLayout, r: EntryRecord) -> Seq<u8> {
    let w = layout.index_width as int;
    u16_bytes(r.signature_offset) + index_bytes(r.signature_instruction_index, w) + u16_bytes(
        r.identity_offset,
    ) + index_bytes(r.identity_instruction_index, w) + u16_bytes(r.message_offset) + u16_bytes(
        r.message_size,
    ) + index_bytes(r.message_instruction_index, w)
}

/// The bytes of the records, one after the other.
pub open spec fn records_bytes(layout: SchemeLayout, records: Seq<EntryRecord>) -> Seq<u8>
    decreases records.len(),
{
    if records.len() == 0 {
        Seq::empty()
    } else {
        records_bytes(layout, records.drop_last()) + record_bytes(layout, records.last())
    }
}

/// The count byte, the reserved bytes (zero) and the records.
pub open spec fn header_bytes(layout: SchemeLayout, records: Seq<EntryRecord>) -> Seq<u8> {
    seq![records.len() as u8] + Seq::new(layout.header_padding as nat, |i: int| 0u8)
        + records_bytes(layout, records)
}

/// Each instruction index of the record fits the width that the layout
/// gives it.
pub open spec fn fits(layout: SchemeLayout, r: EntryRecord) -> bool {
    layout.index_width == 1 ==> {
        &&& r.signature_instruction_index <= 0xff
        &&& r.identity_instruction_index <= 0xff
        &&& r.message_instruction_index <= 0xff
    }
}

/// The records can be written down: the count fits its byte and every index
/// its width.
pub open spec fn encodable(layout: SchemeLayout, records: Seq<EntryRecord>) -> bool {
    &&& records.len() <= 0xff
    &&& forall|i: int| 0 <= i < records.len() ==> fits(layout, #[trigger] records[i])
}

/// Appends the two bytes of `value`, low byte first.
fn push_u16(out: &mut Vec<u8>, value: u16)
    ensures
        final(out)@ == old(out)@ + u16_bytes(value),
{
    out.push((value % 256) as u8);
    out.push((value / 256) as u8);
    assert(out@ =~= old(out)@ + u16_bytes(value));
}

/// Appends an instruction index in `width` bytes.
fn push_index(out: &mut Vec<u8>, index: u16, width: usize)
    requires
        1 <= width <= 2,
        width == 1 ==> index <= 0xff,
    ensures
        final(out)@ == old(out)@ + index_bytes(index, width as int),
{
    if width == 1 {
        out.push(index as u8);
        assert(out@ =~= old(out)@ + index_bytes(index, width as int));
    } else {
        push_u16(out, index);
    }
}

/// Appends the bytes of one record.
fn push_record(out: &mut Vec<u8>, layout: &SchemeLayout, r: &EntryRecord)
    requires
        layout.wf(),
        fits(*layout, *r),
    ensures
        final(out)@ == old(out)@ + record_bytes(*layout, *r),
{
    let w: usize = layout.index_width;
    push_u16(out, r.signature_offset);
    push_index(out, r.signature_instruction_index, w);
    push_u16(out, r.identity_offset);
    push_index(out, r.identity_instruction_index, w);
    push_u16(out, r.message_offset);
    push_u16(out, r.message_size);
    push_index(out, r.message_instruction_index, w);
    assert(out@ =~= old(out)@ + record_bytes(*layout, *r));
}

/// Whether each instruction index of the record fits the width that the
/// layout gives it.
fn record_fits(layout: &SchemeLayout, r: &EntryRecord) -> (yes: bool)
    ensures
        yes == fits(*layout, *r),
{
    layout.index_width != 1 || (r.signature_instruction_index <= 0xff
        && r.identity_instruction_index <= 0xff && r.message_instruction_index <= 0xff)
}

/// Lays out the header of the records, followed by `payload`; `None` where
/// the records cannot be written down.
pub fn encode(scheme: Scheme, records: &[EntryRecord], payload: &[u8]) -> (result: Option<Vec<u8>>)
    ensures
        match result {
            Some(bytes) => {
                &&& encodable(scheme.layout_spec(), records@)
                &&& bytes@ == header_bytes(scheme.layout_spec(), records@) + payload@
            },
            None => !encodable(scheme.layout_spec(), records@),
        },
{
    let layout = scheme.layout();
    if records.len() > 0xff {
        return None;
    }
    let mut out: Vec<u8> = Vec::new();
    out.push(records.len() as u8);
    let mut p: usize = 0;
    while p < layout.header_padding
        invariant
            p <= layout.header_padding,
            out@ == seq![records.len() as u8] + Seq::new(p as nat, |i: int| 0u8),
        decreases layout.header_padding - p,
    {
        out.push(0u8);
        p = p + 1;
    }
    let ghost prefix = out@;
    let mut i: usize = 0;
    while i < records.len()
        invariant
            layout.wf(),
            layout == scheme.layout_spec(),
            i <= records.len(),
            forall|j: int| 0 <= j < i ==> fits(layout, #[trigger] records@[j]),
            out@ == prefix + records_bytes(layout, records@.take(i as int)),
        decreases records.len() - i,
    {
        if !record_fits(&layout, &records[i]) {
            return None;
        }
        push_record(&mut out, &layout, &records[i]);
        proof {
            let next = records@.take(i + 1);
            assert(next.drop_last() =~= records@.take(i as int));
            assert(next.last() == records@[i as int]);
        }
        i = i + 1;
    }
    assert(records@.take(i as int) =~= records@);
    let ghost header = out@;
    let mut k: usize = 0;
    while k < payload.len()
        invariant
            k <= payload.len(),
            out@ == header + payload@.take(k as int),
        decreases payload.len() - k,
    {
        out.push(payload[k]);
        assert(payload@.take(k + 1) =~= payload@.take(k as int).push(payload@[k as int]));
        k = k + 1;
    }
    assert(payload@.take(k as int) =~= payload@);
    Some(out)
}

/// A number is what its two bytes say.
pub proof fn lemma_u16_bytes_read_back(value: u16)
    ensures
        u16_bytes(value).len() == 2,
        le_u16(u16_bytes(value)[0], u16_bytes(value)[1]) == value,
{
}

/// A record takes as many bytes as the layout says, and reading them gives
/// the record back.
pub proof fn lemma_record_bytes_read_back(layout: SchemeLayout, r: EntryRecord)
    requires
        layout.wf(),
        fits(layout, r),
    ensures
        record_bytes(layout, r).len() == layout.record_width,
        record_at(layout, record_bytes(layout, r), 0) == r,
{
    lemma_u16_bytes_read_back(r.signature_offset);
    lemma_u16_bytes_read_back(r.signature_instruction_index);
    lemma_u16_bytes_read_back(r.identity_offset);
    lemma_u16_bytes_read_back(r.identity_instruction_index);
    lemma_u16_bytes_read_back(r.message_offset);
    lemma_u16_bytes_read_back(r.message_size);
    lemma_u16_bytes_read_back(r.message_instruction_index);
}

/// Record `i` stands at `i` record widths into the bytes of the records.
pub proof fn lemma_records_bytes_at(layout: SchemeLayout, records: Seq<EntryRecord>, i: int)
    requires
        layout.wf(),
        forall|j: int| 0 <= j < records.len() ==> fits(layout, #[trigger] records[j]),
        0 <= i < records.len(),
    ensures
        records_bytes(layout, records).len() == records.len() * layout.record_width,
        (i + 1) * layout.record_width <= records_bytes(layout, records).len(),
        records_bytes(layout, records).subrange(
            i * layout.record_width,
            (i + 1) * layout.record_width,
        ) == record_bytes(layout, records[i]),
    decreases records.len(),
{
    let w = layout.record_width as int;
    let n = records.len() as int;
    let front = records.drop_last();
    let whole = records_bytes(layout, records);
    lemma_record_bytes_read_back(layout, records.last());
    lemma_records_bytes_len(layout, front);
    assert((n - 1) * w + w == n * w) by (nonlinear_arith);
    assert((i + 1) * w == i * w + w) by (nonlinear_arith);
    assert(0 <= i * w) by (nonlinear_arith)
        requires
            0 <= i,
            0 <= w,
    ;
    if i == n - 1 {
        assert(whole.subrange(i * w, (i + 1) * w) =~= record_bytes(layout, records.last()));
    } else {
        assert((i + 1) * w <= (n - 1) * w) by (nonlinear_arith)
            requires
                i + 1 <= n - 1,
                0 <= w,
        ;
        lemma_records_bytes_at(layout, front, i);
        assert(whole.subrange(i * w, (i + 1) * w) =~= records_bytes(layout, front).subrange(
            i * w,
            (i + 1) * w,
        ));
    }
}

/// The records take one record width each.
pub proof fn lemma_records_bytes_len(layout: SchemeLayout, records: Seq<EntryRecord>)
    requires
        layout.wf(),
        forall|j: int| 0 <= j < records.len() ==> fits(layout, #[trigger] records[j]),
    ensures
        records_bytes(layout, records).len() == records.len() * layout.record_width,
    decreases records.len(),
{
    let w = layout.record_width as int;
    let n = records.len() as int;
    if n == 0 {
        assert(0 * w == 0) by (nonlinear_arith);
    } else {
        lemma_record_bytes_read_back(layout, records.last());
        lemma_records_bytes_len(layout, records.drop_last());
        assert((n - 1) * w + w == n * w) by (nonlinear_arith);
    }
}

/// Reading a record depends only on the bytes of the record.
pub proof fn lemma_record_at_window(layout: SchemeLayout, data: Seq<u8>, pos: int)
    requires
        layout.wf(),
        0 <= pos,
        pos + layout.record_width <= data.len(),
    ensures
        record_at(layout, data, pos) == record_at(
            layout,
            data.subrange(pos, pos + layout.record_width),
            0,
        ),
{
}

/// Decoding inverts encoding: a buffer that starts with the header of some
/// records, has at least the two bytes of a header, and holds the signer
/// identity and the message that each record locates, decodes to exactly
/// those records.
pub proof fn lemma_decode_inverts_encode(
    scheme: Scheme,
    records: Seq<EntryRecord>,
    payload: Seq<u8>,
)
    requires
        encodable(scheme.layout_spec(), records),
        (header_bytes(scheme.layout_spec(), records) + payload).len() >= 2,
        forall|i: int|
            0 <= i < records.len() ==> (#[trigger] records[i]).windows_within(
                scheme.layout_spec(),
                (header_bytes(scheme.layout_spec(), records) + payload).len() as int,
            ),
    ensures
        decode_records(
            scheme.layout_spec(),
            header_bytes(scheme.layout_spec(), records) + payload,
        ) == Ok::<Seq<EntryRecord>, ErrorCode>(records),
{
    let layout = scheme.layout_spec();
    let data = header_bytes(layout, records) + payload;
    let w = layout.record_width as int;
    let start = layout.records_start();
    let body = records_bytes(layout, records);
    lemma_records_bytes_len(layout, records);
    assert(declared_count(data) == records.len());
    assert forall|i: int| 0 <= i < records.len() implies #[trigger] record_ok(layout, data, i)
        && record(layout, data, i) == records[i] by {
        lemma_records_bytes_at(layout, records, i);
        assert((i + 1) * w == i * w + w) by (nonlinear_arith);
        assert(0 <= i * w) by (nonlinear_arith)
            requires
                0 <= i,
                0 <= w,
        ;
        let pos = layout.record_start(i);
        assert(data.subrange(pos, pos + w) =~= body.subrange(i * w, (i + 1) * w));
        lemma_record_at_window(layout, data, pos);
        lemma_record_bytes_read_back(layout, records[i]);
    }
    assert forall|k: int| !first_bad_record(layout, data, k) by {
        if 0 <= k < records.len() {
            assert(record_ok(layout, data, k));
        }
    }
    assert forall|i: int| 0 <= i < records.len() implies record(layout, data, i) == records[i] by {
        assert(record_ok(layout, data, i));
    }
    assert(Seq::new(declared_count(data) as nat, |i: int| record(layout, data, i)) =~= records);
}

} // verus!
