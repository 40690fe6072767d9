//! Approving proposals.
use crate::accounts::Account;
use crate::crypto::signature_valid;
use crate::error::ProgramError;
use crate::state::intent::Intent;
use crate::state::proposal::{Proposal, ProposalStatus};
use crate::state::wallet::ClearWallet;
use crate::utils::message::{signed_message, ContextView, MessageBuilder, MessageContext};
use vstd::prelude::*;
use vstd::string::StringSliceAdditionalSpecFns;

verus! {

/// The accounts of an approval.
pub struct Approve {
    pub wallet: Account<ClearWallet>,
    pub intent: Account<Intent>,
    pub proposal: Account<Proposal>,
}

/// The arguments of an approval.
pub struct ApproveArgs<'a> {
    pub expiry: i64,
    pub approver_index: u8,
    pub signature: &'a [u8; 64],
}

/// Whether a proposal comes from another by an approval: the vote is an
/// approval and no cancellation, and with enough approvals the proposal is
/// approved now.
pub open spec fn approval_recorded(
    before: Proposal,
    after: Proposal,
    approver_index: u8,
    threshold: u8,
    now: i64,
) -> bool {
    let reached = after.approvals().len() >= threshold;
    &&& after.approvals() == before.approvals().insert(approver_index as int)
    &&& after.cancellations() == before.cancellations().remove(approver_index as int)
    &&& after == (Proposal {
        approval_bitmap: after.approval_bitmap,
        cancellation_bitmap: after.cancellation_bitmap,
        status: if reached {
            ProposalStatus::Approved
        } else {
            before.status
        },
        approved_at: if reached {
            now
        } else {
            before.approved_at
        },
        ..before
    })
}

impl Approve {
    /// Whether the accounts are valid.
    pub open spec fn wf(&self) -> bool {
        self.wallet.data.wf() && self.intent.data.wf() && self.proposal.data.wf()
    }

    /// What the approver has to sign, or why the approval is refused.
    pub open spec fn to_sign(&self, expiry: i64, approver_index: u8, now: i64) -> Result<
        Seq<u8>,
        ProgramError,
    > {
        if expiry <= now {
            Err(ProgramError::InvalidArgument)
        } else if approver_index >= self.intent.data.approvers@.len() {
            Err(ProgramError::InvalidArgument)
        } else if self.proposal.data.approvals().contains(approver_index as int) {
            Err(ProgramError::InvalidArgument)
        } else {
            signed_message(
                ContextView {
                    expiry,
                    action: "approve".spec_bytes(),
                    wallet_name: self.wallet.data.name_bytes(),
                    proposal_index: self.proposal.data.proposal_index,
                },
                self.intent.data,
                self.proposal.data.params_data@,
            )
        }
    }

    /// Whether the accounts come from others by an approval.
    pub open spec fn approved_from(&self, before: Approve, approver_index: u8, now: i64) -> bool {
        &&& self.wallet == before.wallet
        &&& self.intent == before.intent
        &&& self.proposal.address == before.proposal.address
        &&& approval_recorded(
            before.proposal.data,
            self.proposal.data,
            approver_index,
            before.intent.data.approval_threshold,
            now,
        )
    }

    /// What an approval does with accounts that were `before`: it is refused,
    /// or it is recorded where the approver's signature over the message is
    /// valid.
    pub open spec fn approval_outcome(
        &self,
        before: Approve,
        expiry: i64,
        approver_index: u8,
        signature: Seq<u8>,
        now: i64,
        r: Result<(), ProgramError>,
    ) -> bool {
        match before.to_sign(expiry, approver_index, now) {
            Err(e) => r == Err::<(), ProgramError>(e) && *self == before,
            Ok(message) => {
                let approver = before.intent.data.approvers@[approver_index as int];
                if signature_valid(approver@, signature, message) {
                    r is Ok && self.approved_from(before, approver_index, now)
                } else {
                    r == Err::<(), ProgramError>(ProgramError::InvalidArgument) && *self == before
                }
            },
        }
    }

    /// Approves a proposal with the signature of an approver who has not
    /// approved it yet.
    pub fn approve(&mut self, args: ApproveArgs<'_>, now: i64) -> (r: Result<(), ProgramError>)
        requires
            old(self).wallet.data.wf(),
            old(self).intent.data.wf(),
        ensures
            final(self).wallet.data.wf(),
            final(self).intent.data.wf(),
            old(self).wf() ==> final(self).wf(),
            final(self).approval_outcome(
                *old(self),
                args.expiry,
                args.approver_index,
                args.signature@,
                now,
                r,
            ),
    {
        if args.expiry <= now {
            return Err(ProgramError::InvalidArgument);
        }
        if args.approver_index as usize >= self.intent.data.approvers.len() {
            return Err(ProgramError::InvalidArgument);
        }
        if self.proposal.data.has_approved_by_index(args.approver_index) {
            return Err(ProgramError::InvalidArgument);
        }
        let approver = self.intent.data.approvers[args.approver_index as usize];
        let mut msg_buf = MessageBuilder::new();
        msg_buf.build_message_for_intent(
            &MessageContext {
                expiry: args.expiry,
                action: "approve",
                wallet_name: self.wallet.data.name(),
                proposal_index: self.proposal.data.proposal_index,
            },
            &self.intent.data,
            self.proposal.data.params_data.as_slice(),
        )?;
        let accepted = match brine_ed25519::sig_verify(
            &approver.bytes,
            args.signature,
            msg_buf.as_bytes(),
        ) {
            Ok(_) => true,
            Err(_) => false,
        };
        self.apply_approval(args.approver_index, accepted, now)
    }

    /// Records an approval whose signature was accepted.
    pub fn apply_approval(&mut self, approver_index: u8, accepted: bool, now: i64) -> (r: Result<
        (),
        ProgramError,
    >)
        requires
            old(self).wallet.data.wf(),
            old(self).intent.data.wf(),
            approver_index < old(self).intent.data.approvers@.len(),
        ensures
            final(self).wallet.data.wf(),
            final(self).intent.data.wf(),
            old(self).wf() ==> final(self).wf(),
            if accepted {
                r is Ok && final(self).approved_from(*old(self), approver_index, now)
            } else {
                &&& r == Err::<(), ProgramError>(ProgramError::InvalidArgument)
                &&& *final(self) == *old(self)
            },
    {
        if !accepted {
            return Err(ProgramError::InvalidArgument);
        }
        self.proposal.data.set_approval(approver_index);
        if self.proposal.data.approval_count() >= self.intent.data.approval_threshold {
            self.proposal.data.status = ProposalStatus::Approved;
            self.proposal.data.approved_at = now;
        }
        Ok(())
    }
}

} // verus!
