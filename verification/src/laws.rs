//! What holds of validation on every batch.

use crate::batch::InstructionView;
use crate::decode::{
    declared_count, decode_records, first_bad_record, lemma_bad_record_has_first,
    lemma_decoded_records_are_ok, record, record_ok, record_present,
};
use crate::entry::EntryRecord;
use crate::error::ErrorCode;
use crate::scheme::{Scheme, SchemeLayout};
use crate::validate::{all_refer_to, share_message, validate_spec, DIGEST_LEN};
use vstd::prelude::*;

verus! {

/// The instruction executes behind a companion of the trusted verifier
/// whose data decodes to `records`.
pub open spec fn companion_decodes_to(
    current: u16,
    companion: Option<InstructionView>,
    scheme: Scheme,
    trusted: Seq<u8>,
    records: Seq<EntryRecord>,
) -> bool {
    &&& current > 0
    &&& companion matches Some(instruction)
    &&& instruction.program_id == trusted
    &&& decode_records(scheme.layout_spec(), instruction.data) == Ok::<Seq<EntryRecord>, ErrorCode>(
        records,
    )
}

/// Index guard: where the executing instruction is the first of its batch,
/// validation fails with `InstructionAtWrongIndex`, whatever the batch holds.
pub proof fn lemma_index_guard(
    companion: Option<InstructionView>,
    scheme: Scheme,
    trusted: Seq<u8>,
    expected_signer: Seq<u8>,
)
    ensures
        validate_spec(0, companion, scheme, trusted, expected_signer) == Err::<Seq<u8>, ErrorCode>(
            ErrorCode::InstructionAtWrongIndex,
        ),
{
}

/// Program-identity guard: a companion of any other program than the trusted
/// verifier fails with `InvalidProgramId`, whatever its data holds.
pub proof fn lemma_program_id_guard(
    current: u16,
    companion: InstructionView,
    scheme: Scheme,
    trusted: Seq<u8>,
    expected_signer: Seq<u8>,
)
    requires
        current > 0,
        companion.program_id != trusted,
    ensures
        validate_spec(current, Some(companion), scheme, trusted, expected_signer) == Err::<
            Seq<u8>,
            ErrorCode,
        >(ErrorCode::InvalidProgramId),
{
}

/// Shared message, first half: where a companion has two entries or more and
/// one after the first covers another message window than the first,
/// validation fails with `InvalidCompanionInstruction`.
pub proof fn lemma_differing_message_is_rejected(
    current: u16,
    companion: Option<InstructionView>,
    scheme: Scheme,
    trusted: Seq<u8>,
    expected_signer: Seq<u8>,
    records: Seq<EntryRecord>,
    i: int,
)
    requires
        companion_decodes_to(current, companion, scheme, trusted, records),
        records.len() >= 2,
        0 < i < records.len(),
        records[i].message_offset != records[0].message_offset || records[i].message_size
            != records[0].message_size,
    ensures
        validate_spec(current, companion, scheme, trusted, expected_signer) == Err::<
            Seq<u8>,
            ErrorCode,
        >(ErrorCode::InvalidCompanionInstruction),
{
    assert(!records[i].same_message_as(records[0]));
}

/// Shared message, second half, and the digest width that passes: where the
/// entries of a companion refer to the companion itself and all cover one
/// message of the width of a digest, the signer identity of the first entry
/// decides: the message is returned where it is the expected one, and
/// validation fails with `InvalidGroupKey` where it is not.
pub proof fn lemma_agreeing_entries_reach_identity_check(
    current: u16,
    companion: Option<InstructionView>,
    scheme: Scheme,
    trusted: Seq<u8>,
    expected_signer: Seq<u8>,
    records: Seq<EntryRecord>,
)
    requires
        companion_decodes_to(current, companion, scheme, trusted, records),
        records.len() >= 1,
        all_refer_to(records, (current - 1) as u16),
        share_message(records),
        records[0].message_size == DIGEST_LEN,
    ensures
        validate_spec(current, companion, scheme, trusted, expected_signer) == if records[0]
            .identity_of(scheme.layout_spec(), companion.unwrap().data) == expected_signer {
            Ok::<Seq<u8>, ErrorCode>(records[0].message_of(companion.unwrap().data))
        } else {
            Err::<Seq<u8>, ErrorCode>(ErrorCode::InvalidGroupKey)
        },
        records[0].message_of(companion.unwrap().data).len() == DIGEST_LEN,
{
    lemma_decoded_records_are_ok(scheme.layout_spec(), companion.unwrap().data);
    assert(record_ok(scheme.layout_spec(), companion.unwrap().data, 0));
}

/// Digest width: where the entries of a companion refer to the companion
/// itself and share one message, a message of any other size than that of a
/// digest, one byte less or one byte more just as any other, fails with
/// `InvalidArgument`.
pub proof fn lemma_digest_width_is_enforced(
    current: u16,
    companion: Option<InstructionView>,
    scheme: Scheme,
    trusted: Seq<u8>,
    expected_signer: Seq<u8>,
    records: Seq<EntryRecord>,
)
    requires
        companion_decodes_to(current, companion, scheme, trusted, records),
        records.len() >= 1,
        all_refer_to(records, (current - 1) as u16),
        share_message(records),
        records[0].message_size != DIGEST_LEN,
    ensures
        validate_spec(current, companion, scheme, trusted, expected_signer) == Err::<
            Seq<u8>,
            ErrorCode,
        >(ErrorCode::InvalidArgument),
{
}

/// A record that lies inside the data has every earlier record inside it.
pub proof fn lemma_present_records_are_a_prefix(
    layout: SchemeLayout,
    data: Seq<u8>,
    i: int,
    j: int,
)
    requires
        0 <= i <= j,
        record_present(layout, data, j),
    ensures
        record_present(layout, data, i),
{
    assert(i * layout.record_width <= j * layout.record_width) by (nonlinear_arith)
        requires
            0 <= i <= j,
            0 <= layout.record_width,
    ;
}

/// Truncation: where the header announces more records than the data holds,
/// and the records that it does hold locate their windows inside the data,
/// decoding fails with `TruncatedEntry`.
pub proof fn lemma_missing_record_is_truncation(layout: SchemeLayout, data: Seq<u8>)
    requires
        data.len() >= 2,
        declared_count(data) > 0,
        !record_present(layout, data, declared_count(data) - 1),
        forall|i: int|
            0 <= i < declared_count(data) && record_present(layout, data, i) ==> (#[trigger] record(
                layout,
                data,
                i,
            )).windows_within(layout, data.len() as int),
    ensures
        decode_records(layout, data) == Err::<Seq<EntryRecord>, ErrorCode>(
            ErrorCode::TruncatedEntry,
        ),
{
    let last = declared_count(data) - 1;
    lemma_bad_record_has_first(layout, data, last);
    let k = choose|k: int| first_bad_record(layout, data, k);
    assert(!record_ok(layout, data, k));
    if record_present(layout, data, k) {
        assert(record(layout, data, k).windows_within(layout, data.len() as int));
    }
}

/// Out of range: where a record lies inside the data and locates its
/// signer identity or its message outside it, decoding fails with
/// `OffsetOutOfRange`.
pub proof fn lemma_window_outside_is_out_of_range(layout: SchemeLayout, data: Seq<u8>, i: int)
    requires
        data.len() >= 2,
        0 <= i < declared_count(data),
        record_present(layout, data, i),
        !record(layout, data, i).windows_within(layout, data.len() as int),
    ensures
        decode_records(layout, data) == Err::<Seq<EntryRecord>, ErrorCode>(
            ErrorCode::OffsetOutOfRange,
        ),
{
    lemma_bad_record_has_first(layout, data, i);
    let k = choose|k: int| first_bad_record(layout, data, k);
    if k > i {
        assert(record_ok(layout, data, i));
    }
    lemma_present_records_are_a_prefix(layout, data, k, i);
}

} // verus!
