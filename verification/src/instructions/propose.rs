//! Proposing actions.
use crate::accounts::Account;
use crate::address::Address;
use crate::crypto::signature_valid;
use crate::error::ProgramError;
use crate::state::intent::{checked_params, Intent, IntentType};
use crate::state::proposal::{no_votes, Proposal, ProposalStatus, PARAMS_DATA_MAX};
use crate::state::wallet::ClearWallet;
use crate::text::copy_range;
use crate::utils::message::{signed_message, ContextView, MessageBuilder, MessageContext};
use vstd::prelude::*;
use vstd::string::StringSliceAdditionalSpecFns;

verus! {

/// The accounts of a proposal instruction. The payer signs, and the proposal
/// is new.
pub struct Propose {
    pub payer: Address,
    pub wallet: Account<ClearWallet>,
    pub intent: Account<Intent>,
    pub proposal: Account<Proposal>,
}

/// The arguments of a proposal instruction.
pub struct ProposeArgs<'a> {
    pub expiry: i64,
    pub proposer_pubkey: &'a [u8; 32],
    pub signature: &'a [u8; 64],
    pub params_data: &'a [u8],
}

/// The bumps of the new accounts.
pub struct ProposeBumps {
    pub proposal: u8,
}

impl Propose {
    /// Whether the wallet and the intent are valid.
    pub open spec fn wf(&self) -> bool {
        self.wallet.data.wf() && self.intent.data.wf()
    }

    /// What the proposer has to sign, or why the proposal is refused.
    pub open spec fn to_sign(
        &self,
        proposal_index: u64,
        expiry: i64,
        proposer: Address,
        params_data: Seq<u8>,
        now: i64,
    ) -> Result<Seq<u8>, ProgramError> {
        let params = self.intent.data.params@;
        if proposal_index != self.wallet.data.proposal_index {
            Err(ProgramError::InvalidArgument)
        } else if expiry <= now {
            Err(ProgramError::InvalidArgument)
        } else if !self.intent.data.proposers@.contains(proposer) {
            Err(ProgramError::MissingRequiredSignature)
        } else if self.intent.data.intent_type == IntentType::Custom && checked_params(
            params,
            params_data,
            params.len() as int,
        ) is Err {
            Err(checked_params(params, params_data, params.len() as int)->Err_0)
        } else {
            signed_message(
                ContextView {
                    expiry,
                    action: "propose".spec_bytes(),
                    wallet_name: self.wallet.data.name_bytes(),
                    proposal_index,
                },
                self.intent.data,
                params_data,
            )
        }
    }

    /// Why a signed proposal is refused: its parameters do not fit, or the
    /// intent or the wallet can count no further proposal.
    pub open spec fn refusal(&self, proposal_index: u64, params_len: nat) -> Option<ProgramError> {
        if params_len > PARAMS_DATA_MAX {
            Some(ProgramError::ProgramFailedToComplete)
        } else if self.intent.data.active_proposal_count == u16::MAX {
            Some(ProgramError::InvalidArgument)
        } else if proposal_index == u64::MAX {
            Some(ProgramError::ArithmeticOverflow)
        } else {
            None
        }
    }

    /// Whether the accounts come from others by a proposal: the proposal is
    /// active and without votes, and intent and wallet have counted it.
    pub open spec fn proposed_from(
        &self,
        before: Propose,
        proposal_index: u64,
        proposer: Address,
        params_data: Seq<u8>,
        bump: u8,
        now: i64,
    ) -> bool {
        &&& self.payer == before.payer
        &&& self.wallet == (Account {
            data: ClearWallet {
                proposal_index: (proposal_index + 1) as u64,
                ..before.wallet.data
            },
            ..before.wallet
        })
        &&& self.intent == (Account {
            data: Intent {
                active_proposal_count: (before.intent.data.active_proposal_count + 1) as u16,
                ..before.intent.data
            },
            ..before.intent
        })
        &&& self.proposal.address == before.proposal.address
        &&& self.proposal.data == (Proposal {
            wallet: before.wallet.address,
            intent: before.intent.address,
            proposal_index,
            proposer,
            status: ProposalStatus::Active,
            proposed_at: now,
            approved_at: 0,
            bump,
            approval_bitmap: 0,
            cancellation_bitmap: 0,
            rent_refund: before.payer,
            params_data: self.proposal.data.params_data,
        })
        &&& self.proposal.data.params_data@ == params_data
    }

    /// What a proposal instruction does with accounts that were `before`: it is
    /// refused, or the proposal is made where the proposer's signature over the
    /// message is valid.
    pub open spec fn proposal_outcome(
        &self,
        before: Propose,
        proposal_index: u64,
        expiry: i64,
        proposer: Address,
        signature: Seq<u8>,
        params_data: Seq<u8>,
        bump: u8,
        now: i64,
        r: Result<(), ProgramError>,
    ) -> bool {
        match before.to_sign(proposal_index, expiry, proposer, params_data, now) {
            Err(e) => r == Err::<(), ProgramError>(e) && *self == before,
            Ok(message) => if !signature_valid(proposer@, signature, message) {
                r == Err::<(), ProgramError>(ProgramError::InvalidArgument) && *self == before
            } else {
                match before.refusal(proposal_index, params_data.len()) {
                    Some(e) => r == Err::<(), ProgramError>(e) && *self == before,
                    None => r is Ok && self.proposed_from(
                        before,
                        proposal_index,
                        proposer,
                        params_data,
                        bump,
                        now,
                    ),
                }
            },
        }
    }

    /// Makes a proposal with the signature of one of the intent's proposers.
    pub fn propose(
        &mut self,
        proposal_index: u64,
        args: ProposeArgs<'_>,
        bumps: &ProposeBumps,
        now: i64,
    ) -> (r: Result<(), ProgramError>)
        requires
            old(self).wf(),
        ensures
            final(self).wf(),
            r is Ok ==> final(self).proposal.data.wf(),
            final(self).proposal_outcome(
                *old(self),
                proposal_index,
                args.expiry,
                Address { bytes: *args.proposer_pubkey },
                args.signature@,
                args.params_data@,
                bumps.proposal,
                now,
                r,
            ),
    {
        if proposal_index != self.wallet.data.proposal_index {
            return Err(ProgramError::InvalidArgument);
        }
        if args.expiry <= now {
            return Err(ProgramError::InvalidArgument);
        }
        let proposer = Address::new_from_array(*args.proposer_pubkey);
        if !self.intent.data.is_proposer(&proposer) {
            return Err(ProgramError::MissingRequiredSignature);
        }
        if self.intent.data.intent_type == IntentType::Custom {
            self.intent.data.validate_param_constraints(args.params_data)?;
        }
        let mut msg_buf = MessageBuilder::new();
        msg_buf.build_message_for_intent(
            &MessageContext {
                expiry: args.expiry,
                action: "propose",
                wallet_name: self.wallet.data.name(),
                proposal_index,
            },
            &self.intent.data,
            args.params_data,
        )?;
        let accepted = match brine_ed25519::sig_verify(
            args.proposer_pubkey,
            args.signature,
            msg_buf.as_bytes(),
        ) {
            Ok(_) => true,
            Err(_) => false,
        };
        self.apply_proposal(
            proposal_index,
            proposer,
            args.params_data,
            bumps.proposal,
            accepted,
            now,
        )
    }

    /// Records a proposal whose signature was accepted.
    pub fn apply_proposal(
        &mut self,
        proposal_index: u64,
        proposer: Address,
        params_data: &[u8],
        bump: u8,
        accepted: bool,
        now: i64,
    ) -> (r: Result<(), ProgramError>)
        requires
            old(self).wf(),
        ensures
            final(self).wf(),
            r is Ok ==> final(self).proposal.data.wf(),
            if !accepted {
                &&& r == Err::<(), ProgramError>(ProgramError::InvalidArgument)
                &&& *final(self) == *old(self)
            } else {
                match old(self).refusal(proposal_index, params_data@.len()) {
                    Some(e) => r == Err::<(), ProgramError>(e) && *final(self) == *old(self),
                    None => r is Ok && final(self).proposed_from(
                        *old(self),
                        proposal_index,
                        proposer,
                        params_data@,
                        bump,
                        now,
                    ),
                }
            },
    {
        if !accepted {
            return Err(ProgramError::InvalidArgument);
        }
        if params_data.len() > PARAMS_DATA_MAX {
            return Err(ProgramError::ProgramFailedToComplete);
        }
        let count: u16 = match self.intent.data.active_proposal_count.checked_add(1) {
            Some(count) => count,
            None => {
                return Err(ProgramError::InvalidArgument);
            },
        };
        let next: u64 = match proposal_index.checked_add(1) {
            Some(next) => next,
            None => {
                return Err(ProgramError::ArithmeticOverflow);
            },
        };
        let params = copy_range(params_data, 0, params_data.len());
        assert(params@ =~= params_data@);
        proof {
            no_votes();
        }
        self.proposal.data = Proposal {
            wallet: self.wallet.address,
            intent: self.intent.address,
            proposal_index,
            proposer,
            status: ProposalStatus::Active,
            proposed_at: now,
            approved_at: 0,
            bump,
            approval_bitmap: 0,
            cancellation_bitmap: 0,
            rent_refund: self.payer,
            params_data: params,
        };
        self.intent.data.active_proposal_count = count;
        self.wallet.data.proposal_index = next;
        Ok(())
    }
}

} // verus!
