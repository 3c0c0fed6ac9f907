//! The batch of instructions that the host hands to the validator.

use crate::scheme::Scheme;
use vstd::prelude::*;

verus! {

/// The identity of a program, as the host names it.
pub type ProgramId = [u8; 32];

/// One instruction of a batch.
#[derive(Clone, Debug)]
pub struct Instruction {
    /// The program that executes the instruction.
    pub program_id: ProgramId,
    /// The instruction's raw data.
    pub data: Vec<u8>,
}

/// An instruction as contracts speak of it: the bytes of its program's
/// identity and the bytes of its data.
pub struct InstructionView {
    /// The identity of the program that executes the instruction.
    pub program_id: Seq<u8>,
    /// The instruction's raw data.
    pub data: Seq<u8>,
}

impl View for Instruction {
    type V = InstructionView;

    open spec fn view(&self) -> InstructionView {
        InstructionView { program_id: self.program_id@, data: self.data@ }
    }
}

/// What an instruction that was looked up is to contracts; `None` where the
/// lookup found none.
pub open spec fn lookup_view(found: Option<&Instruction>) -> Option<InstructionView> {
    match found {
        Some(instruction) => Some(instruction@),
        None => None,
    }
}

/// The ordered instructions of one atomic operation, and the position of the
/// one that is executing.
#[derive(Clone, Debug)]
pub struct Batch {
    /// The instructions, in the order of execution.
    pub instructions: Vec<Instruction>,
    /// The position of the executing instruction, counted from 0.
    pub current: u16,
}

impl Batch {
    /// The instruction at `index`, if the batch has one there.
    pub open spec fn instruction_at_spec(&self, index: int) -> Option<InstructionView> {
        if 0 <= index < self.instructions@.len() {
            Some(self.instructions@[index]@)
        } else {
            None
        }
    }

    /// The position of the executing instruction, counted from 0.
    pub fn current_index(&self) -> (index: u16)
        ensures
            index == self.current,
    {
        self.current
    }

    /// The instruction at `index`, if the batch has one there.
    pub fn instruction_at(&self, index: usize) -> (instruction: Option<&Instruction>)
        ensures
            lookup_view(instruction) == self.instruction_at_spec(index as int),
    {
        if index < self.instructions.len() {
            Some(&self.instructions[index])
        } else {
            None
        }
    }
}

/// The programs that are trusted to verify signatures, one for each scheme.
#[derive(Clone, Copy, Debug)]
pub struct VerifierIds {
    /// The verifier of recoverable elliptic-curve signatures.
    pub recoverable_ec: ProgramId,
    /// The verifier of Ed25519 signatures.
    pub ed25519: ProgramId,
}

impl VerifierIds {
    /// The trusted verifier of `scheme`.
    pub open spec fn for_scheme_spec(&self, scheme: Scheme) -> ProgramId {
        match scheme {
            Scheme::RecoverableEc => self.recoverable_ec,
            Scheme::Ed25519 => self.ed25519,
        }
    }

    /// The trusted verifier of `scheme`.
    pub fn for_scheme(&self, scheme: Scheme) -> (id: &ProgramId)
        ensures
            *id == self.for_scheme_spec(scheme),
    {
        match scheme {
            Scheme::RecoverableEc => &self.recoverable_ec,
            Scheme::Ed25519 => &self.ed25519,
        }
    }
}

} // verus!
