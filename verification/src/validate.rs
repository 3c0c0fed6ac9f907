//! Cross-validation of the companion instruction against what the caller
//! expects of it.

use crate::batch::{lookup_view, Batch, Instruction, InstructionView, ProgramId, VerifierIds};
use crate::decode::{
    decode, decode_records, lemma_decoded_records_are_ok, record_ok, ParsedBatch,
};
use crate::entry::EntryRecord;
use crate::error::ErrorCode;
use crate::scheme::{Scheme, SchemeLayout};
use crate::wire::bytes_equal;
use vstd::prelude::*;
use vstd::slice::{slice_subrange, slice_to_vec};

verus! {

/// The width of the digest that every shared message must have.
pub const DIGEST_LEN: u16 = 32;

/// Every entry takes its signer identity and its message from instruction
/// `index`.
pub open spec fn all_refer_to(records: Seq<EntryRecord>, index: u16) -> bool {
    forall|i: int| 0 <= i < records.len() ==> (#[trigger] records[i]).refers_to(index)
}

/// Every entry covers the message window of the first.
pub open spec fn share_message(records: Seq<EntryRecord>) -> bool {
    forall|i: int| 0 <= i < records.len() ==> (#[trigger] records[i]).same_message_as(records[0])
}

/// What the checks on decoded entries yield: the entries must exist, refer
/// to the companion itself and share one message, that message must be a
/// digest, and the first signer must be the expected one. Then the message
/// is the result.
pub open spec fn cross_check(
    layout: SchemeLayout,
    data: Seq<u8>,
    records: Seq<EntryRecord>,
    companion_index: u16,
    expected_signer: Seq<u8>,
) -> Result<Seq<u8>, ErrorCode> {
    if records.len() == 0 {
        Err(ErrorCode::InvalidCompanionInstruction)
    } else if !all_refer_to(records, companion_index) {
        Err(ErrorCode::InvalidCompanionInstruction)
    } else if !share_message(records) {
        Err(ErrorCode::InvalidCompanionInstruction)
    } else if records[0].message_size != DIGEST_LEN {
        Err(ErrorCode::InvalidArgument)
    } else if records[0].identity_of(layout, data) != expected_signer {
        Err(ErrorCode::InvalidGroupKey)
    } else {
        Ok(records[0].message_of(data))
    }
}

/// What validation yields once the companion has been looked up at
/// `companion_index`: it must exist, belong to the trusted verifier and
/// decode, and its entries must pass the cross-check.
pub open spec fn validate_companion_spec(
    scheme: Scheme,
    trusted: Seq<u8>,
    companion_index: u16,
    companion: Option<InstructionView>,
    expected_signer: Seq<u8>,
) -> Result<Seq<u8>, ErrorCode> {
    match companion {
        None => Err(ErrorCode::InvalidCompanionInstruction),
        Some(instruction) => {
            if instruction.program_id != trusted {
                Err(ErrorCode::InvalidProgramId)
            } else {
                match decode_records(scheme.layout_spec(), instruction.data) {
                    Err(e) => Err(e),
                    Ok(records) => cross_check(
                        scheme.layout_spec(),
                        instruction.data,
                        records,
                        companion_index,
                        expected_signer,
                    ),
                }
            }
        },
    }
}

/// What validation yields for an instruction that executes at position
/// `current` of its batch, where `companion` is what the batch holds one
/// position before: the instruction must not be the first, and the one
/// before it is the companion.
pub open spec fn validate_spec(
    current: u16,
    companion: Option<InstructionView>,
    scheme: Scheme,
    trusted: Seq<u8>,
    expected_signer: Seq<u8>,
) -> Result<Seq<u8>, ErrorCode> {
    if current == 0 {
        Err(ErrorCode::InstructionAtWrongIndex)
    } else {
        validate_companion_spec(scheme, trusted, (current - 1) as u16, companion, expected_signer)
    }
}

/// A result with its message taken as a sequence of bytes.
pub open spec fn outcome(result: Result<Vec<u8>, ErrorCode>) -> Result<Seq<u8>, ErrorCode> {
    match result {
        Ok(message) => Ok(message@),
        Err(e) => Err(e),
    }
}

/// Where the companion of the instruction at `current_index` stands.
pub fn companion_index(current_index: u16) -> (result: Result<u16, ErrorCode>)
    ensures
        current_index == 0 ==> result == Err::<u16, ErrorCode>(ErrorCode::InstructionAtWrongIndex),
        current_index > 0 ==> result == Ok::<u16, ErrorCode>((current_index - 1) as u16),
{
    if current_index == 0 {
        Err(ErrorCode::InstructionAtWrongIndex)
    } else {
        Ok(current_index - 1)
    }
}

/// Checks decoded entries against the companion's own index and the expected
/// signer, and returns the shared message.
pub fn cross_validate(
    parsed: &ParsedBatch,
    companion_index: u16,
    expected_signer: &[u8],
) -> (result: Result<Vec<u8>, ErrorCode>)
    ensures
        outcome(result) == cross_check(
            parsed.scheme_spec().layout_spec(),
            parsed.data_spec(),
            parsed.records(),
            companion_index,
            expected_signer@,
        ),
{
    proof {
        use_type_invariant(parsed);
    }
    let entries = parsed.entries();
    let data = parsed.data();
    let ghost records = parsed.records();
    if entries.len() == 0 {
        return Err(ErrorCode::InvalidCompanionInstruction);
    }
    let first = entries[0].record;
    let mut i: usize = 0;
    while i < entries.len()
        invariant
            i <= entries.len(),
            records == parsed.records(),
            entries@.len() == records.len(),
            records.len() > 0,
            first == records[0],
            forall|j: int| 0 <= j < records.len() ==> records[j] == (#[trigger] entries@[j]).record,
            forall|j: int| 0 <= j < i ==> (#[trigger] records[j]).refers_to(companion_index),
            forall|j: int| 0 <= j < i ==> (#[trigger] records[j]).same_message_as(records[0]),
        decreases entries.len() - i,
    {
        let record = entries[i].record;
        if record.identity_instruction_index != companion_index
            || record.message_instruction_index != companion_index {
            assert(!records[i as int].refers_to(companion_index));
            return Err(ErrorCode::InvalidCompanionInstruction);
        }
        if record.message_offset != first.message_offset || record.message_size
            != first.message_size {
            assert(!records[i as int].same_message_as(records[0]));
            return Err(ErrorCode::InvalidCompanionInstruction);
        }
        i = i + 1;
    }
    if first.message_size != DIGEST_LEN {
        return Err(ErrorCode::InvalidArgument);
    }
    let start: usize = first.message_offset as usize;
    let end: usize = start + first.message_size as usize;
    assert(record_ok(parsed.scheme_spec().layout_spec(), data@, 0)) by {
        lemma_decoded_records_are_ok(parsed.scheme_spec().layout_spec(), data@);
    }
    let message = slice_subrange(data, start, end);
    if !bytes_equal(entries[0].signer_identity, expected_signer) {
        return Err(ErrorCode::InvalidGroupKey);
    }
    Ok(slice_to_vec(message))
}

/// Validates the companion that was looked up at `companion_index`; `None`
/// says that the batch has no instruction there.
pub fn validate_companion(
    scheme: Scheme,
    trusted: &ProgramId,
    companion_index: u16,
    companion: Option<&Instruction>,
    expected_signer: &[u8],
) -> (result: Result<Vec<u8>, ErrorCode>)
    ensures
        outcome(result) == validate_companion_spec(
            scheme,
            trusted@,
            companion_index,
            lookup_view(companion),
            expected_signer@,
        ),
{
    let instruction = match companion {
        Some(instruction) => instruction,
        None => { return Err(ErrorCode::InvalidCompanionInstruction); },
    };
    if !bytes_equal(instruction.program_id.as_slice(), trusted.as_slice()) {
        return Err(ErrorCode::InvalidProgramId);
    }
    let parsed = match decode(scheme, instruction.data.as_slice()) {
        Ok(parsed) => parsed,
        Err(e) => { return Err(e); },
    };
    cross_validate(&parsed, companion_index, expected_signer)
}

/// Validates that the instruction before the executing one is a companion
/// of the trusted verifier of `scheme` that attests to `expected_signer`,
/// and returns the message that was signed.
pub fn validate(
    batch: &Batch,
    scheme: Scheme,
    verifiers: &VerifierIds,
    expected_signer: &[u8],
) -> (result: Result<Vec<u8>, ErrorCode>)
    ensures
        outcome(result) == validate_spec(
            batch.current,
            batch.instruction_at_spec(batch.current - 1),
            scheme,
            verifiers.for_scheme_spec(scheme)@,
            expected_signer@,
        ),
{
    let index = match companion_index(batch.current_index()) {
        Ok(index) => index,
        Err(e) => { return Err(e); },
    };
    let companion = batch.instruction_at(index as usize);
    validate_companion(scheme, verifiers.for_scheme(scheme), index, companion, expected_signer)
}

} // verus!
