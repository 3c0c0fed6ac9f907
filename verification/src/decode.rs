//! Decoding the data of a companion instruction into its signature entries.

use crate::entry::{read_record, record_at, EntryRecord};
use crate::error::ErrorCode;
use crate::scheme::{Scheme, SchemeLayout};
use vstd::prelude::*;
use vstd::slice::slice_subrange;

verus! {

/// How many entries the header of `data` announces.
pub open spec fn declared_count(data: Seq<u8>) -> int
    recommends
        data.len() >= 1,
{
    data[0] as int
}

/// Record `i` lies wholly inside `data`.
pub open spec fn record_present(layout: SchemeLayout, data: Seq<u8>, i: int) -> bool {
    layout.record_start(i) + layout.record_width <= data.len()
}

/// Record `i` of `data`.
pub open spec fn record(layout: SchemeLayout, data: Seq<u8>, i: int) -> EntryRecord {
    record_at(layout, data, layout.record_start(i))
}

/// Record `i` lies inside `data`, and so do the signer identity and the
/// message that it locates.
pub open spec fn record_ok(layout: SchemeLayout, data: Seq<u8>, i: int) -> bool {
    &&& record_present(layout, data, i)
    &&& record(layout, data, i).windows_within(layout, data.len() as int)
}

/// Record `k` is announced and is the first that is not in order.
pub open spec fn first_bad_record(layout: SchemeLayout, data: Seq<u8>, k: int) -> bool {
    &&& 0 <= k < declared_count(data)
    &&& !record_ok(layout, data, k)
    &&& forall|j: int| 0 <= j < k ==> #[trigger] record_ok(layout, data, j)
}

/// What decoding `data` yields. Records are read in order and the first one
/// that is not in order decides the error: a record that is cut short is
/// truncated, one that is whole but points outside `data` is out of range.
pub open spec fn decode_records(layout: SchemeLayout, data: Seq<u8>) -> Result<
    Seq<EntryRecord>,
    ErrorCode,
> {
    if data.len() < 2 {
        Err(ErrorCode::MalformedHeader)
    } else if exists|k: int| first_bad_record(layout, data, k) {
        let k = choose|k: int| first_bad_record(layout, data, k);
        if !record_present(layout, data, k) {
            Err(ErrorCode::TruncatedEntry)
        } else {
            Err(ErrorCode::OffsetOutOfRange)
        }
    } else {
        Ok(Seq::new(declared_count(data) as nat, |i: int| record(layout, data, i)))
    }
}

/// One decoded entry: its record, and the signer identity that the record
/// locates, borrowed from the instruction's data.
#[derive(Clone, Copy, Debug)]
pub struct SignatureEntry<'a> {
    /// The numbers of the record.
    pub record: EntryRecord,
    /// The bytes that name the signer.
    pub signer_identity: &'a [u8],
}

/// The entries of one companion instruction, in the order of its data,
/// together with that data.
#[derive(Debug)]
pub struct ParsedBatch<'a> {
    scheme: Scheme,
    data: &'a [u8],
    entries: Vec<SignatureEntry<'a>>,
}

impl<'a> ParsedBatch<'a> {
    /// The scheme by which the data was decoded.
    pub closed spec fn scheme_spec(&self) -> Scheme {
        self.scheme
    }

    /// The data that was decoded.
    pub closed spec fn data_spec(&self) -> Seq<u8> {
        self.data@
    }

    /// The decoded entries.
    pub closed spec fn entries_spec(&self) -> Seq<SignatureEntry<'a>> {
        self.entries@
    }

    /// The records of the decoded entries.
    pub open spec fn records(&self) -> Seq<EntryRecord> {
        Seq::new(self.entries_spec().len(), |i: int| self.entries_spec()[i].record)
    }

    /// The entries are what decoding the data by the scheme yields, and each
    /// signer identity is the window of the data that its record locates.
    #[verifier::type_invariant]
    pub open spec fn decoded(&self) -> bool {
        &&& decode_records(self.scheme_spec().layout_spec(), self.data_spec()) == Ok::<
            Seq<EntryRecord>,
            ErrorCode,
        >(self.records())
        &&& forall|i: int|
            0 <= i < self.entries_spec().len() ==> {
                let entry = #[trigger] self.entries_spec()[i];
                entry.signer_identity@ == entry.record.identity_of(
                    self.scheme_spec().layout_spec(),
                    self.data_spec(),
                )
            }
    }

    /// The scheme by which the data was decoded.
    pub fn scheme(&self) -> (scheme: Scheme)
        ensures
            scheme == self.scheme_spec(),
    {
        self.scheme
    }

    /// The data that was decoded.
    pub fn data(&self) -> (data: &'a [u8])
        ensures
            data@ == self.data_spec(),
    {
        self.data
    }

    /// The decoded entries, in the order of the data.
    pub fn entries(&self) -> (entries: &[SignatureEntry<'a>])
        ensures
            entries@ == self.entries_spec(),
    {
        self.entries.as_slice()
    }
}

/// Decodes the data of a companion instruction of the given scheme.
pub fn decode<'a>(scheme: Scheme, data: &'a [u8]) -> (result: Result<ParsedBatch<'a>, ErrorCode>)
    ensures
        match result {
            Ok(parsed) => {
                &&& parsed.scheme_spec() == scheme
                &&& parsed.data_spec() == data@
                &&& parsed.decoded()
            },
            Err(e) => decode_records(scheme.layout_spec(), data@) == Err::<
                Seq<EntryRecord>,
                ErrorCode,
            >(e),
        },
{
    let layout = scheme.layout();
    if data.len() < 2 {
        return Err(ErrorCode::MalformedHeader);
    }
    let count: usize = data[0] as usize;
    let mut entries: Vec<SignatureEntry<'a>> = Vec::new();
    let mut pos: usize = 1 + layout.header_padding;
    let mut i: usize = 0;
    while i < count
        invariant
            layout.wf(),
            layout == scheme.layout_spec(),
            data.len() >= 2,
            count == declared_count(data@),
            i <= count <= 255,
            pos == layout.record_start(i as int),
            pos <= data.len(),
            entries.len() == i,
            forall|j: int| 0 <= j < i ==> #[trigger] record_ok(layout, data@, j),
            forall|j: int|
                0 <= j < i ==> (#[trigger] entries@[j]).record == record(layout, data@, j),
            forall|j: int|
                0 <= j < i ==> (#[trigger] entries@[j]).signer_identity@ == record(
                    layout,
                    data@,
                    j,
                ).identity_of(layout, data@),
        decreases count - i,
    {
        if data.len() - pos < layout.record_width {
            proof {
                assert(first_bad_record(layout, data@, i as int));
                lemma_first_bad_is_unique(layout, data@, i as int);
            }
            return Err(ErrorCode::TruncatedEntry);
        }
        let record = read_record(&layout, data, pos);
        let identity_start: usize = record.identity_offset as usize;
        let identity_end: usize = identity_start + layout.identity_len;
        let message_end: usize = record.message_offset as usize + record.message_size as usize;
        if identity_end > data.len() || message_end > data.len() {
            proof {
                assert(first_bad_record(layout, data@, i as int));
                lemma_first_bad_is_unique(layout, data@, i as int);
            }
            return Err(ErrorCode::OffsetOutOfRange);
        }
        let signer_identity = slice_subrange(data, identity_start, identity_end);
        entries.push(SignatureEntry { record, signer_identity });
        proof {
            assert(record_ok(layout, data@, i as int));
            assert((i + 1) * layout.record_width == i * layout.record_width + layout.record_width)
                by (nonlinear_arith);
        }
        pos = pos + layout.record_width;
        i = i + 1;
    }
    proof {
        assert forall|k: int| !first_bad_record(layout, data@, k) by {
            if 0 <= k < count {
                assert(record_ok(layout, data@, k));
            }
        }
        assert(Seq::new(entries@.len(), |j: int| entries@[j].record) =~= Seq::new(
            declared_count(data@) as nat,
            |j: int| record(layout, data@, j),
        ));
    }
    Ok(ParsedBatch { scheme, data, entries })
}

/// At most one record is the first that is not in order.
pub proof fn lemma_first_bad_is_unique(layout: SchemeLayout, data: Seq<u8>, k: int)
    requires
        first_bad_record(layout, data, k),
    ensures
        forall|m: int| first_bad_record(layout, data, m) ==> m == k,
{
    assert forall|m: int| first_bad_record(layout, data, m) implies m == k by {
        if m < k {
            assert(record_ok(layout, data, m));
        } else if k < m {
            assert(record_ok(layout, data, k));
        }
    }
}

/// Where decoding succeeds, every announced record is in order.
pub proof fn lemma_decoded_records_are_ok(layout: SchemeLayout, data: Seq<u8>)
    requires
        decode_records(layout, data) is Ok,
    ensures
        data.len() >= 2,
        decode_records(layout, data).unwrap().len() == declared_count(data),
        forall|i: int| 0 <= i < declared_count(data) ==> #[trigger] record_ok(layout, data, i),
        forall|i: int|
            0 <= i < declared_count(data) ==> decode_records(layout, data).unwrap()[i] == record(
                layout,
                data,
                i,
            ),
{
    assert forall|i: int| 0 <= i < declared_count(data) implies #[trigger] record_ok(
        layout,
        data,
        i,
    ) by {
        if !record_ok(layout, data, i) {
            lemma_bad_record_has_first(layout, data, i);
        }
    }
}

/// A record that is not in order has a first such record at or before it.
pub proof fn lemma_bad_record_has_first(layout: SchemeLayout, data: Seq<u8>, i: int)
    requires
        0 <= i < declared_count(data),
        !record_ok(layout, data, i),
    ensures
        exists|k: int| first_bad_record(layout, data, k),
    decreases i,
{
    if forall|j: int| 0 <= j < i ==> #[trigger] record_ok(layout, data, j) {
        assert(first_bad_record(layout, data, i));
    } else {
        let j = choose|j: int| 0 <= j < i && !record_ok(layout, data, j);
        lemma_bad_record_has_first(layout, data, j);
    }
}

} // verus!
