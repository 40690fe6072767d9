//! Cancelling proposals.
use crate::accounts::Account;
use crate::crypto::signature_valid;
use crate::error::ProgramError;
use crate::state::intent::Intent;
use crate::state::proposal::{Proposal, ProposalStatus};
use crate::state::wallet::ClearWallet;
use crate::utils::message::{signed_message, ContextView, MessageBuilder, MessageContext};
use vstd::prelude::*;
use vstd::string::StringSliceAdditionalSpecFns;

verus! {

/// The accounts of a cancellation.
pub struct Cancel {
    pub wallet: Account<ClearWallet>,
    pub intent: Account<Intent>,
    pub proposal: Account<Proposal>,
}

/// The arguments of a cancellation.
pub struct CancelArgs<'a> {
    pub expiry: i64,
    pub canceller_index: u8,
    pub signature: &'a [u8; 64],
}

/// Whether a proposal comes from another by a cancellation: the vote is a
/// cancellation and no approval. With enough cancellations the proposal is
/// cancelled; else, without enough approvals, it is active.
pub open spec fn cancellation_recorded(
    before: Proposal,
    after: Proposal,
    canceller_index: u8,
    approval_threshold: u8,
    cancellation_threshold: u8,
) -> bool {
    &&& after.cancellations() == before.cancellations().insert(canceller_index as int)
    &&& after.approvals() == before.approvals().remove(canceller_index as int)
    &&& after == (Proposal {
        approval_bitmap: after.approval_bitmap,
        cancellation_bitmap: after.cancellation_bitmap,
        status: if after.cancellations().len() >= cancellation_threshold {
            ProposalStatus::Cancelled
        } else if after.approvals().len() < approval_threshold {
            ProposalStatus::Active
        } else {
            before.status
        },
        ..before
    })
}

impl Cancel {
    /// Whether the accounts are valid.
    pub open spec fn wf(&self) -> bool {
        self.wallet.data.wf() && self.intent.data.wf() && self.proposal.data.wf()
    }

    /// What the canceller has to sign, or why the cancellation is refused.
    pub open spec fn to_sign(&self, expiry: i64, canceller_index: u8, now: i64) -> Result<
        Seq<u8>,
        ProgramError,
    > {
        if expiry <= now {
            Err(ProgramError::InvalidArgument)
        } else if canceller_index >= self.intent.data.approvers@.len() {
            Err(ProgramError::InvalidArgument)
        } else if self.proposal.data.cancellations().contains(canceller_index as int) {
            Err(ProgramError::InvalidArgument)
        } else {
            signed_message(
                ContextView {
                    expiry,
                    action: "cancel".spec_bytes(),
                    wallet_name: self.wallet.data.name_bytes(),
                    proposal_index: self.proposal.data.proposal_index,
                },
                self.intent.data,
                self.proposal.data.params_data@,
            )
        }
    }

    /// Whether the accounts come from others by a cancellation. A proposal
    /// that is cancelled is no longer open.
    pub open spec fn cancelled_from(&self, before: Cancel, canceller_index: u8) -> bool {
        &&& self.wallet == before.wallet
        &&& self.proposal.address == before.proposal.address
        &&& cancellation_recorded(
            before.proposal.data,
            self.proposal.data,
            canceller_index,
            before.intent.data.approval_threshold,
            before.intent.data.cancellation_threshold,
        )
        &&& self.intent == (Account {
            data: Intent {
                active_proposal_count: if self.proposal.data.cancellations().len()
                    >= before.intent.data.cancellation_threshold
                    && before.intent.data.active_proposal_count > 0 {
                    (before.intent.data.active_proposal_count - 1) as u16
                } else {
                    before.intent.data.active_proposal_count
                },
                ..before.intent.data
            },
            ..before.intent
        })
    }

    /// What a cancellation does with accounts that were `before`: it is
    /// refused, or it is recorded where the canceller's signature over the
    /// message is valid.
    pub open spec fn cancellation_outcome(
        &self,
        before: Cancel,
        expiry: i64,
        canceller_index: u8,
        signature: Seq<u8>,
        now: i64,
        r: Result<(), ProgramError>,
    ) -> bool {
        match before.to_sign(expiry, canceller_index, now) {
            Err(e) => r == Err::<(), ProgramError>(e) && *self == before,
            Ok(message) => {
                let canceller = before.intent.data.approvers@[canceller_index as int];
                if signature_valid(canceller@, signature, message) {
                    r is Ok && self.cancelled_from(before, canceller_index)
                } else {
                    r == Err::<(), ProgramError>(ProgramError::InvalidArgument) && *self == before
                }
            },
        }
    }

    /// Votes to cancel a proposal with the signature of an approver who has
    /// not done so yet.
    pub fn cancel(&mut self, args: CancelArgs<'_>, now: i64) -> (r: Result<(), ProgramError>)
        requires
            old(self).wallet.data.wf(),
            old(self).intent.data.wf(),
        ensures
            final(self).wallet.data.wf(),
            final(self).intent.data.wf(),
            old(self).wf() ==> final(self).wf(),
            final(self).cancellation_outcome(
                *old(self),
                args.expiry,
                args.canceller_index,
                args.signature@,
                now,
                r,
            ),
    {
        if args.expiry <= now {
            return Err(ProgramError::InvalidArgument);
        }
        if args.canceller_index as usize >= self.intent.data.approvers.len() {
            return Err(ProgramError::InvalidArgument);
        }
        if self.proposal.data.has_cancelled_by_index(args.canceller_index) {
            return Err(ProgramError::InvalidArgument);
        }
        let canceller = self.intent.data.approvers[args.canceller_index as usize];
        let mut msg_buf = MessageBuilder::new();
        msg_buf.build_message_for_intent(
            &MessageContext {
                expiry: args.expiry,
                action: "cancel",
                wallet_name: self.wallet.data.name(),
                proposal_index: self.proposal.data.proposal_index,
            },
            &self.intent.data,
            self.proposal.data.params_data.as_slice(),
        )?;
        let accepted = match brine_ed25519::sig_verify(
            &canceller.bytes,
            args.signature,
            msg_buf.as_bytes(),
        ) {
            Ok(_) => true,
            Err(_) => false,
        };
        self.apply_cancellation(args.canceller_index, accepted)
    }

    /// Records a cancellation whose signature was accepted.
    pub fn apply_cancellation(&mut self, canceller_index: u8, accepted: bool) -> (r: Result<
        (),
        ProgramError,
    >)
        requires
            old(self).wallet.data.wf(),
            old(self).intent.data.wf(),
            canceller_index < old(self).intent.data.approvers@.len(),
        ensures
            final(self).wallet.data.wf(),
            final(self).intent.data.wf(),
            old(self).wf() ==> final(self).wf(),
            if accepted {
                r is Ok && final(self).cancelled_from(*old(self), canceller_index)
            } else {
                &&& r == Err::<(), ProgramError>(ProgramError::InvalidArgument)
                &&& *final(self) == *old(self)
            },
    {
        if !accepted {
            return Err(ProgramError::InvalidArgument);
        }
        self.proposal.data.set_cancellation(canceller_index);
        if self.proposal.data.cancellation_count() >= self.intent.data.cancellation_threshold {
            self.proposal.data.status = ProposalStatus::Cancelled;
            let count: u16 = self.intent.data.active_proposal_count;
            self.intent.data.active_proposal_count = count.saturating_sub(1);
        } else if self.proposal.data.approval_count() < self.intent.data.approval_threshold {
            self.proposal.data.status = ProposalStatus::Active;
        }
        Ok(())
    }
}

} // verus!
