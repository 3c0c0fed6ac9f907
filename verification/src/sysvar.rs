//! The batch as the host serializes it: the data of the instructions sysvar.

use crate::batch::{lookup_view, Instruction, InstructionView, VerifierIds};
use crate::error::ErrorCode;
use crate::scheme::Scheme;
use crate::validate::{companion_index, outcome, validate_companion, validate_spec};
use crate::wire::u16_at;
use anchor_lang::solana_program::sysvar::instructions;
use vstd::prelude::*;

verus! {

/// What `solana_program::sysvar::instructions::load_instruction_at` makes of
/// the sysvar's data at an index: the bytes of the program's identity and
/// the instruction's data, or `None` where it fails.
pub uninterp spec fn host_instruction_at(index: int, data: Seq<u8>) -> Option<(Seq<u8>, Seq<u8>)>;

/// The position of the executing instruction: the sysvar's data ends with
/// it, as a 16-bit little-endian number.
pub open spec fn current_index_in(data: Seq<u8>) -> u16
    recommends
        data.len() >= 2,
{
    u16_at(data, data.len() - 2)
}

/// The instruction that the sysvar's data holds at `index`, if the host
/// finds one there.
pub open spec fn instruction_in(data: Seq<u8>, index: int) -> Option<InstructionView> {
    match host_instruction_at(index, data) {
        Some((program_id, instruction_data)) => Some(
            InstructionView { program_id, data: instruction_data },
        ),
        None => None,
    }
}

/// Calls `solana_program::sysvar::instructions::load_current_index`, which
/// reads the last two bytes of the data as a little-endian number and panics
/// on fewer than two bytes.
#[allow(deprecated)]
#[verifier::external_body]
fn load_current_index(data: &[u8]) -> (index: u16)
    requires
        data@.len() >= 2,
    ensures
        index == current_index_in(data@),
{
    instructions::load_current_index(data)
}

/// Calls `solana_program::sysvar::instructions::load_instruction_at`, which
/// deserializes the instruction at `index` from the data alone and fails
/// where the data holds none there. The program's identity and the
/// instruction's data are handed on; the accounts are dropped.
#[allow(deprecated)]
#[verifier::external_body]
fn load_instruction_at(index: usize, data: &[u8]) -> (found: Option<Instruction>)
    ensures
        match found {
            Some(instruction) => host_instruction_at(index as int, data@) == Some(
                (instruction.program_id@, instruction.data@),
            ),
            None => host_instruction_at(index as int, data@) is None,
        },
{
    match instructions::load_instruction_at(index, data) {
        Ok(loaded) => Some(
            Instruction { program_id: loaded.program_id.to_bytes(), data: loaded.data },
        ),
        Err(_) => None,
    }
}

/// Validates, against the data of the instructions sysvar, that the
/// instruction before the executing one is a companion of the trusted
/// verifier of `scheme` that attests to `expected_signer`, and returns the
/// message that was signed. The caller vouches that the data is that of the
/// instructions sysvar, which always holds the two bytes of the index.
pub fn validate_action(
    instructions_data: &[u8],
    scheme: Scheme,
    verifiers: &VerifierIds,
    expected_signer: &[u8],
) -> (result: Result<Vec<u8>, ErrorCode>)
    requires
        instructions_data@.len() >= 2,
    ensures
        outcome(result) == validate_spec(
            current_index_in(instructions_data@),
            instruction_in(instructions_data@, current_index_in(instructions_data@) - 1),
            scheme,
            verifiers.for_scheme_spec(scheme)@,
            expected_signer@,
        ),
{
    let current = load_current_index(instructions_data);
    let index = match companion_index(current) {
        Ok(index) => index,
        Err(e) => { return Err(e); },
    };
    let companion = load_instruction_at(index as usize, instructions_data);
    let found: Option<&Instruction> = match &companion {
        Some(instruction) => Some(instruction),
        None => None,
    };
    assert(lookup_view(found) == instruction_in(instructions_data@, index as int));
    validate_companion(scheme, verifiers.for_scheme(scheme), index, found, expected_signer)
}

} // verus!
