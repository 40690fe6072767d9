//! Closing the accounts of finished proposals.
use crate::accounts::Account;
use crate::address::Address;
use crate::error::ProgramError;
use crate::state::proposal::Proposal;
use vstd::prelude::*;

verus! {

/// The accounts of a cleanup.
pub struct CleanupProposal {
    pub proposal: Account<Proposal>,
    pub rent_refund: Address,
}

impl CleanupProposal {
    /// Has nothing to do: the proposal account is closed for the instruction.
    pub fn cleanup(&mut self) -> (r: Result<(), ProgramError>)
        ensures
            r is Ok,
            *final(self) == *old(self),
    {
        Ok(())
    }
}

} // verus!
