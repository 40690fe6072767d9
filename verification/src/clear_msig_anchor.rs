//! The program: each instruction checks the accounts that it was given and
//! hands them to its handler. The time of the clock comes in as `now`.
use crate::accounts::{Account, AccountView};
use crate::address::{address_is_its_bytes, Address};
use crate::crypto::sha256_digest;
use crate::error::ProgramError;
use crate::instructions::approve::{Approve, ApproveArgs};
use crate::instructions::cancel::{Cancel, CancelArgs};
use crate::instructions::cleanup_proposal::CleanupProposal;
use crate::instructions::create_wallet::{CreateWallet, CreateWalletArgs, CreateWalletBumps};
use crate::instructions::execute::{handler, Execute, Execution};
use crate::instructions::propose::{Propose, ProposeArgs, ProposeBumps};
use crate::pda::{
    find_intent, find_proposal, find_vault, find_wallet, intent_seeds, program_address,
    proposal_seeds, vault_seeds, wallet_seeds,
};
use crate::state::intent::Intent;
use crate::state::proposal::{Proposal, ProposalStatus};
use vstd::prelude::*;

verus! {

/// The bump of an account at the address that seeds derive, or why it is not
/// there.
pub open spec fn seeds_bump(address: Address, found: Option<(Seq<u8>, u8)>) -> Result<
    u8,
    ProgramError,
> {
    match found {
        None => Err(ProgramError::ProgramFailedToComplete),
        Some((expected, bump)) => if address@ != expected {
            Err(ProgramError::ConstraintSeeds)
        } else {
            Ok(bump)
        },
    }
}

/// Checks that an account is at the address that was derived for it.
pub fn check_seeds(address: &Address, found: Option<(Address, u8)>) -> (r: Result<
    u8,
    ProgramError,
>)
    ensures
        r == seeds_bump(
            *address,
            match found {
                Some((expected, bump)) => Some((expected@, bump)),
                None => None,
            },
        ),
{
    match found {
        None => Err(ProgramError::ProgramFailedToComplete),
        Some((expected, bump)) => {
            proof {
                address_is_its_bytes(*address, expected);
            }
            if *address != expected {
                Err(ProgramError::ConstraintSeeds)
            } else {
                Ok(bump)
            }
        },
    }
}

/// The bumps of the accounts of a wallet creation, or why they are refused.
pub open spec fn creation_bumps(accounts: CreateWallet) -> Result<CreateWalletBumps, ProgramError> {
    let wallet = accounts.wallet.address;
    match seeds_bump(wallet, program_address(wallet_seeds(accounts.name_hash@))) {
        Err(e) => Err(e),
        Ok(wallet_bump) => match seeds_bump(
            accounts.add_intent.address,
            program_address(intent_seeds(wallet@, 0)),
        ) {
            Err(e) => Err(e),
            Ok(add_intent) => match seeds_bump(
                accounts.remove_intent.address,
                program_address(intent_seeds(wallet@, 1)),
            ) {
                Err(e) => Err(e),
                Ok(remove_intent) => match seeds_bump(
                    accounts.update_intent.address,
                    program_address(intent_seeds(wallet@, 2)),
                ) {
                    Err(e) => Err(e),
                    Ok(update_intent) => Ok(
                        CreateWalletBumps {
                            wallet: wallet_bump,
                            add_intent,
                            remove_intent,
                            update_intent,
                        },
                    ),
                },
            },
        },
    }
}

/// Creates a wallet.
pub fn create_wallet(
    accounts: &mut CreateWallet,
    approval_threshold: u8,
    cancellation_threshold: u8,
    timelock_seconds: u32,
    name: &[u8],
    proposers: &[[u8; 32]],
    approvers: &[[u8; 32]],
) -> (r: Result<(), ProgramError>)
    requires
        old(accounts).wf(),
    ensures
        final(accounts).wf(),
        r is Ok ==> final(accounts).wallet.data.wf(),
        match creation_bumps(*old(accounts)) {
            Err(e) => r == Err::<(), ProgramError>(e) && *final(accounts) == *old(accounts),
            Ok(bumps) => final(accounts).creation_outcome(
                *old(accounts),
                CreateWalletArgs {
                    name,
                    approval_threshold,
                    cancellation_threshold,
                    timelock_seconds,
                    proposers,
                    approvers,
                },
                bumps,
                sha256_digest(name@),
                r,
            ),
        },
{
    let wallet = accounts.wallet.address;
    let bumps = CreateWalletBumps {
        wallet: check_seeds(&wallet, find_wallet(&accounts.name_hash.bytes))?,
        add_intent: check_seeds(&accounts.add_intent.address, find_intent(&wallet, 0))?,
        remove_intent: check_seeds(&accounts.remove_intent.address, find_intent(&wallet, 1))?,
        update_intent: check_seeds(&accounts.update_intent.address, find_intent(&wallet, 2))?,
    };
    accounts.create(
        CreateWalletArgs {
            name,
            approval_threshold,
            cancellation_threshold,
            timelock_seconds,
            proposers,
            approvers,
        },
        &bumps,
    )
}

/// The bump of a new proposal's account, or why the accounts are refused: the
/// intent is not the wallet's or not approved, or the proposal is not where it
/// has to be.
pub open spec fn proposal_bump(accounts: Propose) -> Result<u8, ProgramError> {
    if accounts.intent.data.wallet != accounts.wallet.address {
        Err(ProgramError::ConstraintHasOne)
    } else if accounts.intent.data.approved == 0 {
        Err(ProgramError::InvalidArgument)
    } else {
        seeds_bump(
            accounts.proposal.address,
            program_address(
                proposal_seeds(accounts.intent.address@, accounts.wallet.data.proposal_index),
            ),
        )
    }
}

/// Makes a proposal, with the index that the wallet has for it.
pub fn propose(
    accounts: &mut Propose,
    expiry: i64,
    proposer_pubkey: [u8; 32],
    signature: [u8; 64],
    params_data: &[u8],
    now: i64,
) -> (r: Result<(), ProgramError>)
    requires
        old(accounts).wf(),
    ensures
        final(accounts).wf(),
        r is Ok ==> final(accounts).proposal.data.wf(),
        match proposal_bump(*old(accounts)) {
            Err(e) => r == Err::<(), ProgramError>(e) && *final(accounts) == *old(accounts),
            Ok(bump) => final(accounts).proposal_outcome(
                *old(accounts),
                old(accounts).wallet.data.proposal_index,
                expiry,
                Address { bytes: proposer_pubkey },
                signature@,
                params_data@,
                bump,
                now,
                r,
            ),
        },
{
    if accounts.intent.data.wallet != accounts.wallet.address {
        return Err(ProgramError::ConstraintHasOne);
    }
    if !accounts.intent.data.is_approved() {
        return Err(ProgramError::InvalidArgument);
    }
    let proposal_index: u64 = accounts.wallet.data.proposal_index;
    let bump: u8 = check_seeds(
        &accounts.proposal.address,
        find_proposal(&accounts.intent.address, proposal_index),
    )?;
    accounts.propose(
        proposal_index,
        ProposeArgs {
            expiry,
            proposer_pubkey: &proposer_pubkey,
            signature: &signature,
            params_data,
        },
        &ProposeBumps { proposal: bump },
        now,
    )
}

/// Whether a proposal belongs to a wallet and one of its intents.
pub open spec fn belongs(
    wallet: Address,
    intent: Account<Intent>,
    proposal: Account<Proposal>,
) -> bool {
    &&& intent.data.wallet == wallet
    &&& proposal.data.wallet == wallet
    &&& proposal.data.intent == intent.address
}

/// Why the accounts of an approval are refused.
pub open spec fn approval_refusal(accounts: Approve) -> Option<ProgramError> {
    if accounts.intent.data.wallet != accounts.wallet.address {
        Some(ProgramError::ConstraintHasOne)
    } else if accounts.intent.data.approved == 0 {
        Some(ProgramError::InvalidArgument)
    } else if !belongs(accounts.wallet.address, accounts.intent, accounts.proposal) {
        Some(ProgramError::ConstraintHasOne)
    } else if accounts.proposal.data.status != ProposalStatus::Active {
        Some(ProgramError::InvalidArgument)
    } else {
        None
    }
}

/// Approves an active proposal of an approved intent.
pub fn approve(
    accounts: &mut Approve,
    expiry: i64,
    approver_index: u8,
    signature: [u8; 64],
    now: i64,
) -> (r: Result<(), ProgramError>)
    requires
        old(accounts).wallet.data.wf(),
        old(accounts).intent.data.wf(),
    ensures
        final(accounts).wallet.data.wf(),
        final(accounts).intent.data.wf(),
        old(accounts).wf() ==> final(accounts).wf(),
        match approval_refusal(*old(accounts)) {
            Some(e) => r == Err::<(), ProgramError>(e) && *final(accounts) == *old(accounts),
            None => final(accounts).approval_outcome(
                *old(accounts),
                expiry,
                approver_index,
                signature@,
                now,
                r,
            ),
        },
{
    if accounts.intent.data.wallet != accounts.wallet.address {
        return Err(ProgramError::ConstraintHasOne);
    }
    if !accounts.intent.data.is_approved() {
        return Err(ProgramError::InvalidArgument);
    }
    if accounts.proposal.data.wallet != accounts.wallet.address {
        return Err(ProgramError::ConstraintHasOne);
    }
    if accounts.proposal.data.intent != accounts.intent.address {
        return Err(ProgramError::ConstraintHasOne);
    }
    if accounts.proposal.data.status != ProposalStatus::Active {
        return Err(ProgramError::InvalidArgument);
    }
    accounts.approve(ApproveArgs { expiry, approver_index, signature: &signature }, now)
}

/// Why the accounts of a cancellation are refused.
pub open spec fn cancellation_refusal(accounts: Cancel) -> Option<ProgramError> {
    if !belongs(accounts.wallet.address, accounts.intent, accounts.proposal) {
        Some(ProgramError::ConstraintHasOne)
    } else if !accounts.proposal.data.is_open() {
        Some(ProgramError::InvalidArgument)
    } else {
        None
    }
}

/// Votes to cancel an open proposal.
pub fn cancel(
    accounts: &mut Cancel,
    expiry: i64,
    canceller_index: u8,
    signature: [u8; 64],
    now: i64,
) -> (r: Result<(), ProgramError>)
    requires
        old(accounts).wallet.data.wf(),
        old(accounts).intent.data.wf(),
    ensures
        final(accounts).wallet.data.wf(),
        final(accounts).intent.data.wf(),
        old(accounts).wf() ==> final(accounts).wf(),
        match cancellation_refusal(*old(accounts)) {
            Some(e) => r == Err::<(), ProgramError>(e) && *final(accounts) == *old(accounts),
            None => final(accounts).cancellation_outcome(
                *old(accounts),
                expiry,
                canceller_index,
                signature@,
                now,
                r,
            ),
        },
{
    if accounts.intent.data.wallet != accounts.wallet.address {
        return Err(ProgramError::ConstraintHasOne);
    }
    if accounts.proposal.data.wallet != accounts.wallet.address {
        return Err(ProgramError::ConstraintHasOne);
    }
    if accounts.proposal.data.intent != accounts.intent.address {
        return Err(ProgramError::ConstraintHasOne);
    }
    if accounts.proposal.data.status != ProposalStatus::Active && accounts.proposal.data.status
        != ProposalStatus::Approved {
        return Err(ProgramError::InvalidArgument);
    }
    accounts.cancel(CancelArgs { expiry, canceller_index, signature: &signature }, now)
}

/// The bump of the vault, or why the accounts of an execution are refused.
pub open spec fn execution_bump(accounts: Execute) -> Result<u8, ProgramError> {
    match seeds_bump(
        accounts.vault.address,
        program_address(vault_seeds(accounts.wallet.address@)),
    ) {
        Err(e) => Err(e),
        Ok(bump) => if !belongs(accounts.wallet.address, accounts.intent, accounts.proposal) {
            Err(ProgramError::ConstraintHasOne)
        } else if accounts.proposal.data.status != ProposalStatus::Approved {
            Err(ProgramError::InvalidArgument)
        } else {
            Ok(bump)
        },
    }
}

/// Executes an approved proposal. `loaded` is what the first remaining account
/// holds as an intent, for the intents that modify one.
pub fn execute(
    accounts: &mut Execute,
    remaining: &Vec<AccountView>,
    loaded: Result<Intent, ProgramError>,
    now: i64,
) -> (r: Result<Execution, ProgramError>)
    ensures
        match execution_bump(*old(accounts)) {
            Err(e) => r is Err && r->Err_0 == e && *final(accounts) == *old(accounts),
            Ok(bump) => final(accounts).execution_outcome(
                *old(accounts),
                remaining@,
                loaded,
                bump,
                now,
                r,
            ),
        },
{
    let bump: u8 = match check_seeds(
        &accounts.vault.address,
        find_vault(&accounts.wallet.address),
    ) {
        Ok(bump) => bump,
        Err(e) => {
            return Err(e);
        },
    };
    if accounts.intent.data.wallet != accounts.wallet.address {
        return Err(ProgramError::ConstraintHasOne);
    }
    if accounts.proposal.data.wallet != accounts.wallet.address {
        return Err(ProgramError::ConstraintHasOne);
    }
    if accounts.proposal.data.intent != accounts.intent.address {
        return Err(ProgramError::ConstraintHasOne);
    }
    if accounts.proposal.data.status != ProposalStatus::Approved {
        return Err(ProgramError::InvalidArgument);
    }
    handler(accounts, remaining, loaded, bump, now)
}

/// Why the accounts of a cleanup are refused: the refund goes elsewhere, or
/// the proposal is still open.
pub open spec fn cleanup_refusal(accounts: CleanupProposal) -> Option<ProgramError> {
    if accounts.proposal.data.rent_refund != accounts.rent_refund {
        Some(ProgramError::ConstraintHasOne)
    } else if accounts.proposal.data.is_open() {
        Some(ProgramError::InvalidArgument)
    } else {
        None
    }
}

/// Lets the account of a finished proposal be closed.
pub fn cleanup_proposal(accounts: &mut CleanupProposal) -> (r: Result<(), ProgramError>)
    ensures
        *final(accounts) == *old(accounts),
        match cleanup_refusal(*old(accounts)) {
            Some(e) => r == Err::<(), ProgramError>(e),
            None => r is Ok,
        },
{
    if accounts.proposal.data.rent_refund != accounts.rent_refund {
        return Err(ProgramError::ConstraintHasOne);
    }
    if accounts.proposal.data.status != ProposalStatus::Executed && accounts.proposal.data.status
        != ProposalStatus::Cancelled {
        return Err(ProgramError::InvalidArgument);
    }
    accounts.cleanup()
}

} // verus!
