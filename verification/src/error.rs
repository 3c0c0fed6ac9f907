//! The ways in which validation of a companion instruction can fail.

use vstd::prelude::*;

verus! {

/// Why a batch was rejected. Every failure is final: nothing is retried.
#[derive(Clone, Copy, Debug, PartialEq, Eq, Structural)]
pub enum ErrorCode {
    /// The validator ran as the first instruction, so no companion can precede it.
    InstructionAtWrongIndex,
    /// The companion is missing, has no entries, or an entry refers elsewhere.
    InvalidCompanionInstruction,
    /// The companion was not executed by the trusted verifier program.
    InvalidProgramId,
    /// The companion's data is too short to hold a header.
    MalformedHeader,
    /// The header announces more entry records than the data holds.
    TruncatedEntry,
    /// An entry locates its signer identity or message outside the data.
    OffsetOutOfRange,
    /// The shared message does not have the width of a digest.
    InvalidArgument,
    /// The first entry's signer identity is not the expected one.
    InvalidGroupKey,
}

} // verus!
