//! Executing approved proposals.
//!
//! An execution is worked out from the accounts and comes out as what remains
//! to be done: an intent account to create, an intent or an intent's body to
//! write, or instructions to invoke with the vault's signature.
use crate::accounts::{Account, AccountView};
use crate::address::{address_is_its_bytes, Address};
use crate::crypto::{sha256, sha256_digest};
use crate::error::ProgramError;
use crate::instructions::custom::{
    build_custom_instructions, cpi_views, custom_instructions, CpiInstruction, CpiView,
};
use crate::pda::{address_of, find_intent, intent_pda, intent_seeds, program_address};
use crate::state::intent::{Intent, IntentType, DISC_LEN, INTENT_SIZE};
use crate::state::proposal::{Proposal, ProposalStatus};
use crate::state::wallet::ClearWallet;
use crate::text::{append_bytes, copy_range};
use vstd::prelude::*;
use vstd::slice::slice_subrange;
use vstd::string::StringSliceAdditionalSpecFns;

verus! {

/// What remains to be done for an execution.
pub enum Execution {
    /// Create an intent account of the program, paid by `payer`, and write its
    /// data.
    CreateIntent { payer: Address, address: Address, intent_index: u8, bump: u8, data: Vec<u8> },
    /// Write an intent back to the first remaining account.
    WriteIntent { intent: Intent },
    /// Write the body of an intent over that of the first remaining account,
    /// behind the discriminator. The account keeps its length.
    WriteBody { body: Vec<u8> },
    /// Invoke instructions, signed by the vault.
    Invoke { vault_bump: u8, instructions: Vec<CpiInstruction> },
}

/// What remains to be done for an execution, with lists as sequences.
pub enum ExecutionView {
    CreateIntent { payer: Address, address: Seq<u8>, intent_index: u8, bump: u8, data: Seq<u8> },
    WriteIntent { intent: Intent },
    WriteBody { body: Seq<u8> },
    Invoke { vault_bump: u8, instructions: Seq<CpiView> },
}

impl View for Execution {
    type V = ExecutionView;

    open spec fn view(&self) -> ExecutionView {
        match *self {
            Execution::CreateIntent { payer, address, intent_index, bump, data } =>
                ExecutionView::CreateIntent {
                payer,
                address: address@,
                intent_index,
                bump,
                data: data@,
            },
            Execution::WriteIntent { intent } => ExecutionView::WriteIntent { intent },
            Execution::WriteBody { body } => ExecutionView::WriteBody { body: body@ },
            Execution::Invoke { vault_bump, instructions } => ExecutionView::Invoke {
                vault_bump,
                instructions: cpi_views(instructions@),
            },
        }
    }
}

/// The data of a new intent account: a discriminator from the digest of the
/// account type's name, the proposal's parameters as the intent's first bytes,
/// and zeros.
pub open spec fn new_intent_data(digest: Seq<u8>, params_data: Seq<u8>) -> Seq<u8> {
    let written = digest.take(8) + params_data.take(
        if params_data.len() < INTENT_SIZE {
            params_data.len() as int
        } else {
            INTENT_SIZE as int
        },
    );
    written + Seq::new((INTENT_SIZE + DISC_LEN - written.len()) as nat, |i: int| 0u8)
}

/// Writes the data of a new intent account.
pub fn build_new_intent_data(digest: &[u8; 32], params_data: &[u8]) -> (r: Vec<u8>)
    ensures
        r@ == new_intent_data(digest@, params_data@),
        r@.len() == Intent::SPACE,
{
    let mut out = copy_range(digest, 0, DISC_LEN);
    assert(out@ =~= digest@.take(8));
    let body_len: usize = if params_data.len() < INTENT_SIZE {
        params_data.len()
    } else {
        INTENT_SIZE
    };
    append_bytes(&mut out, slice_subrange(params_data, 0, body_len));
    let ghost written = out@;
    assert(written =~= digest@.take(8) + params_data@.take(body_len as int));
    while out.len() < Intent::SPACE
        invariant
            written.len() <= out@.len() <= Intent::SPACE,
            out@ =~= written + Seq::new((out@.len() - written.len()) as nat, |i: int| 0u8),
        decreases Intent::SPACE - out@.len(),
    {
        out.push(0);
    }
    out
}

/// The accounts of an execution.
pub struct Execute {
    pub wallet: Account<ClearWallet>,
    /// The wallet account with its raw data.
    pub wallet_view: AccountView,
    pub vault: AccountView,
    pub intent: Account<Intent>,
    pub proposal: Account<Proposal>,
    pub system_program: AccountView,
}

/// The intent that is to be modified, or why it may not be: there is no such
/// address, the account is elsewhere or read-only, it does not load as an
/// intent, or it has open proposals.
pub open spec fn modifiable(
    view: AccountView,
    expected: Option<Seq<u8>>,
    loaded: Result<Intent, ProgramError>,
) -> Result<Intent, ProgramError> {
    match expected {
        None => Err(ProgramError::ProgramFailedToComplete),
        Some(address) => if view.address@ != address {
            Err(ProgramError::InvalidSeeds)
        } else if !view.is_writable {
            Err(ProgramError::Immutable)
        } else {
            match loaded {
                Err(e) => Err(e),
                Ok(target) => if target.active_proposal_count != 0 {
                    Err(ProgramError::InvalidArgument)
                } else {
                    Ok(target)
                },
            }
        },
    }
}

/// Validates the intent that is to be modified: it is at the expected
/// address, writable, and has no active proposals. `loaded` is what the
/// account holds.
pub fn modifiable_intent(
    view: &AccountView,
    expected: Option<Address>,
    loaded: Result<Intent, ProgramError>,
) -> (r: Result<Intent, ProgramError>)
    ensures
        r == modifiable(
            *view,
            match expected {
                Some(address) => Some(address@),
                None => None,
            },
            loaded,
        ),
{
    let address = match expected {
        Some(address) => address,
        None => {
            return Err(ProgramError::ProgramFailedToComplete);
        },
    };
    proof {
        address_is_its_bytes(view.address, address);
    }
    if view.address != address {
        return Err(ProgramError::InvalidSeeds);
    }
    if !view.is_writable {
        return Err(ProgramError::Immutable);
    }
    match loaded {
        Err(e) => Err(e),
        Ok(target) => {
            if target.active_proposal_count != 0 {
                return Err(ProgramError::InvalidArgument);
            }
            Ok(target)
        },
    }
}

/// Validates the target intent for modification: it is at the address that
/// the wallet's intent with that index has.
fn validate_target_intent_for_modification(
    wallet: &Address,
    view: &AccountView,
    target_index: u8,
    loaded: Result<Intent, ProgramError>,
) -> (r: Result<Intent, ProgramError>)
    ensures
        r == modifiable(*view, address_of(intent_seeds(wallet@, target_index)), loaded),
{
    modifiable_intent(view, intent_pda(wallet, target_index), loaded)
}

impl Execute {
    /// The declared accounts that an intent's account entries can name.
    pub open spec fn declared(&self) -> Seq<AccountView> {
        seq![self.vault, self.system_program, self.wallet_view]
    }

    /// When the timelock ends.
    pub open spec fn unlock_at(&self) -> int {
        self.proposal.data.approved_at + self.intent.data.timelock_seconds
    }

    /// What an execution of an intent that adds an intent leaves to be done,
    /// where `found` is the new intent's address and bump, and `digest` that of
    /// the account type's name.
    pub open spec fn add_outcome_at(
        &self,
        remaining: Seq<AccountView>,
        found: Option<(Seq<u8>, u8)>,
        digest: Seq<u8>,
    ) -> Result<ExecutionView, ProgramError> {
        if self.wallet.data.intent_index == u8::MAX {
            Err(ProgramError::InvalidArgument)
        } else {
            match found {
                None => Err(ProgramError::ProgramFailedToComplete),
                Some((address, bump)) => if remaining.len() < 2 {
                    Err(ProgramError::NotEnoughAccountKeys)
                } else if !remaining[0].is_signer {
                    Err(ProgramError::MissingRequiredSignature)
                } else if remaining[1].address@ != address {
                    Err(ProgramError::InvalidSeeds)
                } else {
                    Ok(
                        ExecutionView::CreateIntent {
                            payer: remaining[0].address,
                            address,
                            intent_index: (self.wallet.data.intent_index + 1) as u8,
                            bump,
                            data: new_intent_data(digest, self.proposal.data.params_data@),
                        },
                    )
                },
            }
        }
    }

    /// What an execution of an intent that adds an intent leaves to be done.
    pub open spec fn add_outcome(&self, remaining: Seq<AccountView>) -> Result<
        ExecutionView,
        ProgramError,
    > {
        let index = (self.wallet.data.intent_index + 1) as u8;
        self.add_outcome_at(
            remaining,
            program_address(intent_seeds(self.wallet.address@, index)),
            sha256_digest("account:Intent".spec_bytes()),
        )
    }

    /// The accounts with one more intent counted by the wallet.
    pub open spec fn intent_added(&self) -> Execute {
        Execute {
            wallet: Account {
                data: ClearWallet {
                    intent_index: (self.wallet.data.intent_index + 1) as u8,
                    ..self.wallet.data
                },
                ..self.wallet
            },
            ..*self
        }
    }

    /// What an execution of an intent that removes an intent leaves to be done.
    pub open spec fn remove_outcome(
        &self,
        remaining: Seq<AccountView>,
        loaded: Result<Intent, ProgramError>,
    ) -> Result<ExecutionView, ProgramError> {
        let params_data = self.proposal.data.params_data@;
        if params_data.len() != 1 {
            Err(ProgramError::InvalidInstructionData)
        } else if remaining.len() == 0 {
            Err(ProgramError::NotEnoughAccountKeys)
        } else {
            match modifiable(
                remaining[0],
                address_of(intent_seeds(self.wallet.address@, params_data[0])),
                loaded,
            ) {
                Err(e) => Err(e),
                Ok(target) => Ok(
                    ExecutionView::WriteIntent { intent: Intent { approved: 0, ..target } },
                ),
            }
        }
    }

    /// What an execution of an intent that updates an intent leaves to be done.
    /// The parameters are the target's index and exactly one intent body.
    pub open spec fn update_outcome(
        &self,
        remaining: Seq<AccountView>,
        loaded: Result<Intent, ProgramError>,
    ) -> Result<ExecutionView, ProgramError> {
        let params_data = self.proposal.data.params_data@;
        if params_data.len() != 1 + INTENT_SIZE {
            Err(ProgramError::InvalidInstructionData)
        } else if remaining.len() == 0 {
            Err(ProgramError::NotEnoughAccountKeys)
        } else {
            match modifiable(
                remaining[0],
                address_of(intent_seeds(self.wallet.address@, params_data[0])),
                loaded,
            ) {
                Err(e) => Err(e),
                Ok(_) => Ok(ExecutionView::WriteBody { body: params_data.skip(1) }),
            }
        }
    }

    /// What an execution leaves to be done, or why it is refused.
    pub open spec fn outcome(
        &self,
        remaining: Seq<AccountView>,
        loaded: Result<Intent, ProgramError>,
        vault_bump: u8,
        now: i64,
    ) -> Result<ExecutionView, ProgramError> {
        if self.unlock_at() > i64::MAX {
            Err(ProgramError::ArithmeticOverflow)
        } else if now < self.unlock_at() {
            Err(ProgramError::InvalidArgument)
        } else {
            match self.intent.data.intent_type {
                IntentType::AddIntent => self.add_outcome(remaining),
                IntentType::RemoveIntent => self.remove_outcome(remaining, loaded),
                IntentType::UpdateIntent => self.update_outcome(remaining, loaded),
                IntentType::Custom => match custom_instructions(
                    self.intent.data,
                    self.proposal.data.params_data@,
                    self.declared(),
                    remaining,
                ) {
                    Err(e) => Err(e),
                    Ok(instructions) => Ok(ExecutionView::Invoke { vault_bump, instructions }),
                },
            }
        }
    }

    /// The accounts after an execution: the proposal is executed, the intent
    /// has one open proposal less, and the wallet counts an intent it added.
    pub open spec fn executed(&self) -> Execute {
        Execute {
            wallet: if self.intent.data.intent_type == IntentType::AddIntent {
                Account {
                    data: ClearWallet {
                        intent_index: (self.wallet.data.intent_index + 1) as u8,
                        ..self.wallet.data
                    },
                    ..self.wallet
                }
            } else {
                self.wallet
            },
            intent: Account {
                data: Intent {
                    active_proposal_count: if self.intent.data.active_proposal_count > 0 {
                        (self.intent.data.active_proposal_count - 1) as u16
                    } else {
                        0
                    },
                    ..self.intent.data
                },
                ..self.intent
            },
            proposal: Account {
                data: Proposal { status: ProposalStatus::Executed, ..self.proposal.data },
                ..self.proposal
            },
            ..*self
        }
    }

    /// What an execution does with accounts that were `before`.
    pub open spec fn execution_outcome(
        &self,
        before: Execute,
        remaining: Seq<AccountView>,
        loaded: Result<Intent, ProgramError>,
        vault_bump: u8,
        now: i64,
        r: Result<Execution, ProgramError>,
    ) -> bool {
        match before.outcome(remaining, loaded, vault_bump, now) {
            Ok(execution) => r is Ok && r->Ok_0@ == execution && *self == before.executed(),
            Err(e) => r is Err && r->Err_0 == e && *self == before,
        }
    }

    /// Executes a proposal after its timelock. `loaded` is what the first
    /// remaining account holds as an intent, for the intents that modify one.
    pub fn execute(
        &mut self,
        remaining: &Vec<AccountView>,
        loaded: Result<Intent, ProgramError>,
        vault_bump: u8,
        now: i64,
    ) -> (r: Result<Execution, ProgramError>)
        ensures
            final(self).execution_outcome(*old(self), remaining@, loaded, vault_bump, now, r),
    {
        let unlock_at: i64 = match self.proposal.data.approved_at.checked_add(
            self.intent.data.timelock_seconds as i64,
        ) {
            Some(unlock_at) => unlock_at,
            None => {
                return Err(ProgramError::ArithmeticOverflow);
            },
        };
        if now < unlock_at {
            return Err(ProgramError::InvalidArgument);
        }
        let execution = match self.intent.data.intent_type {
            IntentType::AddIntent => self.execute_add_intent(remaining)?,
            IntentType::RemoveIntent => self.execute_remove_intent(remaining, loaded)?,
            IntentType::UpdateIntent => self.execute_update_intent(remaining, loaded)?,
            IntentType::Custom => self.execute_custom(remaining, vault_bump)?,
        };
        self.proposal.data.status = ProposalStatus::Executed;
        let count: u16 = self.intent.data.active_proposal_count;
        self.intent.data.active_proposal_count = count.saturating_sub(1);
        Ok(execution)
    }

    /// Adds an intent. The remaining accounts are the payer, who signs, and
    /// the new intent account.
    fn execute_add_intent(&mut self, remaining: &Vec<AccountView>) -> (r: Result<
        Execution,
        ProgramError,
    >)
        ensures
            match old(self).add_outcome(remaining@) {
                Ok(execution) => {
                    &&& r is Ok
                    &&& r->Ok_0@ == execution
                    &&& *final(self) == old(self).intent_added()
                },
                Err(e) => r is Err && r->Err_0 == e && *final(self) == *old(self),
            },
    {
        if self.wallet.data.intent_index == u8::MAX {
            return Err(ProgramError::InvalidArgument);
        }
        let found = find_intent(&self.wallet.address, self.wallet.data.intent_index + 1);
        let digest = sha256("account:Intent".as_bytes());
        self.add_intent_at(remaining, found, &digest)
    }

    /// Adds an intent, where `found` is the new intent's address and bump, and
    /// `digest` that of the account type's name.
    pub fn add_intent_at(
        &mut self,
        remaining: &Vec<AccountView>,
        found: Option<(Address, u8)>,
        digest: &[u8; 32],
    ) -> (r: Result<Execution, ProgramError>)
        ensures
            match old(self).add_outcome_at(
                remaining@,
                match found {
                    Some((address, bump)) => Some((address@, bump)),
                    None => None,
                },
                digest@,
            ) {
                Ok(execution) => {
                    &&& r is Ok
                    &&& r->Ok_0@ == execution
                    &&& *final(self) == old(self).intent_added()
                },
                Err(e) => r is Err && r->Err_0 == e && *final(self) == *old(self),
            },
    {
        if self.wallet.data.intent_index == u8::MAX {
            return Err(ProgramError::InvalidArgument);
        }
        let (expected, bump) = match found {
            Some(found) => found,
            None => {
                return Err(ProgramError::ProgramFailedToComplete);
            },
        };
        if remaining.len() < 2 {
            return Err(ProgramError::NotEnoughAccountKeys);
        }
        if !remaining[0].is_signer {
            return Err(ProgramError::MissingRequiredSignature);
        }
        proof {
            address_is_its_bytes(remaining@[1].address, expected);
        }
        if remaining[1].address != expected {
            return Err(ProgramError::InvalidSeeds);
        }
        let new_index: u8 = self.wallet.data.intent_index + 1;
        let data = build_new_intent_data(digest, self.proposal.data.params_data.as_slice());
        self.wallet.data.intent_index = new_index;
        Ok(
            Execution::CreateIntent {
                payer: remaining[0].address,
                address: expected,
                intent_index: new_index,
                bump,
                data,
            },
        )
    }

    /// Removes an intent: it is no longer approved. The remaining account is
    /// the target intent.
    fn execute_remove_intent(
        &self,
        remaining: &Vec<AccountView>,
        loaded: Result<Intent, ProgramError>,
    ) -> (r: Result<Execution, ProgramError>)
        ensures
            match self.remove_outcome(remaining@, loaded) {
                Ok(execution) => r is Ok && r->Ok_0@ == execution,
                Err(e) => r is Err && r->Err_0 == e,
            },
    {
        if self.proposal.data.params_data.len() != 1 {
            return Err(ProgramError::InvalidInstructionData);
        }
        let target_index: u8 = self.proposal.data.params_data[0];
        if remaining.len() == 0 {
            return Err(ProgramError::NotEnoughAccountKeys);
        }
        let mut target = match validate_target_intent_for_modification(
            &self.wallet.address,
            &remaining[0],
            target_index,
            loaded,
        ) {
            Ok(target) => target,
            Err(e) => {
                return Err(e);
            },
        };
        target.approved = 0;
        Ok(Execution::WriteIntent { intent: target })
    }

    /// Rewrites an existing intent's body from the proposal's parameters: the
    /// target's index and exactly one intent body. The remaining account is
    /// the target intent.
    fn execute_update_intent(
        &self,
        remaining: &Vec<AccountView>,
        loaded: Result<Intent, ProgramError>,
    ) -> (r: Result<Execution, ProgramError>)
        ensures
            match self.update_outcome(remaining@, loaded) {
                Ok(execution) => r is Ok && r->Ok_0@ == execution,
                Err(e) => r is Err && r->Err_0 == e,
            },
    {
        let params_len: usize = self.proposal.data.params_data.len();
        if params_len != 1 + INTENT_SIZE {
            return Err(ProgramError::InvalidInstructionData);
        }
        let target_index: u8 = self.proposal.data.params_data[0];
        if remaining.len() == 0 {
            return Err(ProgramError::NotEnoughAccountKeys);
        }
        match validate_target_intent_for_modification(
            &self.wallet.address,
            &remaining[0],
            target_index,
            loaded,
        ) {
            Ok(_) => {},
            Err(e) => {
                return Err(e);
            },
        }
        let body = copy_range(self.proposal.data.params_data.as_slice(), 1, params_len);
        assert(body@ =~= self.proposal.data.params_data@.skip(1));
        Ok(Execution::WriteBody { body })
    }

    /// Runs the instructions of a custom intent. The remaining accounts are
    /// those of the intent's account entries, except accounts that are
    /// declared here.
    fn execute_custom(&self, remaining: &Vec<AccountView>, vault_bump: u8) -> (r: Result<
        Execution,
        ProgramError,
    >)
        ensures
            match custom_instructions(
                self.intent.data,
                self.proposal.data.params_data@,
                self.declared(),
                remaining@,
            ) {
                Ok(instructions) => r is Ok && r->Ok_0@ == (ExecutionView::Invoke {
                    vault_bump,
                    instructions,
                }),
                Err(e) => r is Err && r->Err_0 == e,
            },
    {
        match build_custom_instructions(
            &self.intent.data,
            self.proposal.data.params_data.as_slice(),
            &self.vault,
            &self.system_program,
            &self.wallet_view,
            remaining,
        ) {
            Ok(instructions) => Ok(Execution::Invoke { vault_bump, instructions }),
            Err(e) => Err(e),
        }
    }
}

/// Executes a proposal after its timelock.
pub fn handler(
    accounts: &mut Execute,
    remaining: &Vec<AccountView>,
    loaded: Result<Intent, ProgramError>,
    vault_bump: u8,
    now: i64,
) -> (r: Result<Execution, ProgramError>)
    ensures
        final(accounts).execution_outcome(*old(accounts), remaining@, loaded, vault_bump, now, r),
{
    accounts.execute(remaining, loaded, vault_bump, now)
}

} // verus!
