//! The errors with which an instruction is refused.
use vstd::prelude::*;

verus! {

/// Why an instruction was refused.
#[derive(Clone, Copy, PartialEq, Eq, Debug, Structural)]
pub enum ProgramError {
    /// An argument or the state of an account does not allow the instruction.
    InvalidArgument,
    /// Instruction data, parameters or an intent definition are malformed.
    InvalidInstructionData,
    /// An account is not at the address that its seeds derive.
    InvalidSeeds,
    /// A required signer has not signed.
    MissingRequiredSignature,
    /// An account that the instruction needs was not passed.
    NotEnoughAccountKeys,
    /// A sum does not fit its type.
    ArithmeticOverflow,
    /// An account that has to be written was passed read-only.
    Immutable,
    /// An account's stored key differs from the account that was passed.
    ConstraintHasOne,
    /// A declared account is not at the address of its seeds.
    ConstraintSeeds,
    /// The program stops without an answer: an index outside its sequence, a
    /// list over its capacity, or seeds that derive no address. The runtime
    /// then fails the whole transaction.
    ProgramFailedToComplete,
}

} // verus!
