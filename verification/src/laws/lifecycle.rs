//! Laws on wallets, intents and proposals.
use crate::accounts::AccountView;
use crate::address::Address;
use crate::clear_msig_anchor::{
    approval_refusal, cancellation_refusal, cleanup_refusal, execution_bump, proposal_bump,
};
use crate::crypto::signature_valid;
use crate::error::ProgramError;
use crate::instructions::approve::{approval_recorded, Approve};
use crate::instructions::cancel::{cancellation_recorded, Cancel};
use crate::instructions::cleanup_proposal::CleanupProposal;
use crate::instructions::create_wallet::{CreateWallet, CreateWalletArgs, CreateWalletBumps};
use crate::instructions::execute::{modifiable, Execute, ExecutionView};
use crate::instructions::propose::Propose;
use crate::pda::{address_of, intent_seeds};
use crate::state::intent::{Intent, IntentType, DISC_LEN, INTENT_SIZE};
use crate::state::proposal::{no_votes, votes_are_few, Proposal, ProposalStatus};
use vstd::prelude::*;

verus! {

/// Whether the status of a proposal follows from its votes: an active one has
/// too few approvals and cancellations, an approved one has enough approvals
/// and too few cancellations, and a cancelled one has enough cancellations.
pub open spec fn status_follows_votes(proposal: Proposal, intent: Intent) -> bool {
    match proposal.status {
        ProposalStatus::Active => {
            &&& proposal.approvals().len() < intent.approval_threshold
            &&& proposal.cancellations().len() < intent.cancellation_threshold
        },
        ProposalStatus::Approved => {
            &&& proposal.approvals().len() >= intent.approval_threshold
            &&& proposal.cancellations().len() < intent.cancellation_threshold
        },
        ProposalStatus::Executed => true,
        ProposalStatus::Cancelled => proposal.cancellations().len()
            >= intent.cancellation_threshold,
    }
}

/// A new proposal has the status that follows from having no votes, where the
/// intent's thresholds are not zero.
pub proof fn new_proposal_follows_votes(
    before: Propose,
    after: Propose,
    proposal_index: u64,
    proposer: Address,
    params_data: Seq<u8>,
    bump: u8,
    now: i64,
)
    requires
        after.proposed_from(before, proposal_index, proposer, params_data, bump, now),
        before.intent.data.approval_threshold > 0,
        before.intent.data.cancellation_threshold > 0,
    ensures
        status_follows_votes(after.proposal.data, after.intent.data),
        after.proposal.data.approvals() == Set::<int>::empty(),
        after.proposal.data.cancellations() == Set::<int>::empty(),
{
    no_votes();
}

/// An approval of an active proposal counts one more approval, and keeps the
/// status in step with the votes: the proposal is approved exactly where the
/// threshold is reached.
pub proof fn approval_follows_votes(before: Approve, after: Approve, approver_index: u8, now: i64)
    requires
        before.proposal.data.status == ProposalStatus::Active,
        status_follows_votes(before.proposal.data, before.intent.data),
        !before.proposal.data.approvals().contains(approver_index as int),
        after.approved_from(before, approver_index, now),
    ensures
        after.proposal.data.approvals().len() == before.proposal.data.approvals().len() + 1,
        status_follows_votes(after.proposal.data, after.intent.data),
        after.proposal.data.status == ProposalStatus::Approved <==>
            after.proposal.data.approvals().len() >= after.intent.data.approval_threshold,
        after.proposal.data.status == ProposalStatus::Approved ==> after.proposal.data.approved_at
            == now,
{
    votes_are_few(before.proposal.data.approval_bitmap);
    votes_are_few(before.proposal.data.cancellation_bitmap);
}

/// A cancellation of an open proposal counts one more cancellation, and keeps
/// the status in step with the votes: the proposal is cancelled exactly where
/// the threshold is reached, and an approved proposal that loses an approval it
/// needs is active again.
pub proof fn cancellation_follows_votes(before: Cancel, after: Cancel, canceller_index: u8)
    requires
        before.proposal.data.is_open(),
        status_follows_votes(before.proposal.data, before.intent.data),
        !before.proposal.data.cancellations().contains(canceller_index as int),
        after.cancelled_from(before, canceller_index),
    ensures
        after.proposal.data.cancellations().len() == before.proposal.data.cancellations().len() + 1,
        status_follows_votes(after.proposal.data, after.intent.data),
        after.proposal.data.status == ProposalStatus::Cancelled <==>
            after.proposal.data.cancellations().len() >= after.intent.data.cancellation_threshold,
{
    votes_are_few(before.proposal.data.approval_bitmap);
    votes_are_few(before.proposal.data.cancellation_bitmap);
}

/// Nobody both approves and cancels: a member who cancels takes back the
/// approval, and the other way round.
pub proof fn votes_are_exclusive(
    before: Proposal,
    approved: Proposal,
    cancelled: Proposal,
    index: u8,
    threshold: u8,
    cancellation_threshold: u8,
    now: i64,
)
    requires
        before.wf(),
        approval_recorded(before, approved, index, threshold, now),
        cancellation_recorded(approved, cancelled, index, threshold, cancellation_threshold),
    ensures
        approved.approvals().contains(index as int),
        !approved.cancellations().contains(index as int),
        cancelled.cancellations().contains(index as int),
        !cancelled.approvals().contains(index as int),
        approved.wf(),
        cancelled.wf(),
{
}

/// An approver approves a proposal at most once: after an approval the same
/// approver's next one is refused, whenever and until when it may be.
pub proof fn second_approval_is_refused(
    before: Approve,
    after: Approve,
    approver_index: u8,
    now: i64,
    expiry: i64,
    later: i64,
)
    requires
        after.approved_from(before, approver_index, now),
        approver_index < 16,
    ensures
        after.to_sign(expiry, approver_index, later) == Err::<Seq<u8>, ProgramError>(
            ProgramError::InvalidArgument,
        ),
{
}

/// An approver cancels a proposal at most once: after a cancellation the same
/// approver's next one is refused, whenever and until when it may be.
pub proof fn second_cancellation_is_refused(
    before: Cancel,
    after: Cancel,
    canceller_index: u8,
    expiry: i64,
    later: i64,
)
    requires
        after.cancelled_from(before, canceller_index),
        canceller_index < 16,
    ensures
        after.to_sign(expiry, canceller_index, later) == Err::<Seq<u8>, ProgramError>(
            ProgramError::InvalidArgument,
        ),
{
}

/// A vote that was signed until a time is refused from that time on, and one
/// of an index without approver is always refused.
pub proof fn expired_or_unknown_votes_are_refused(
    approve: Approve,
    cancel: Cancel,
    expiry: i64,
    index: u8,
    now: i64,
)
    ensures
        expiry <= now || index >= approve.intent.data.approvers@.len() ==> approve.to_sign(
            expiry,
            index,
            now,
        ) == Err::<Seq<u8>, ProgramError>(ProgramError::InvalidArgument),
        expiry <= now || index >= cancel.intent.data.approvers@.len() ==> cancel.to_sign(
            expiry,
            index,
            now,
        ) == Err::<Seq<u8>, ProgramError>(ProgramError::InvalidArgument),
{
}

/// A proposal is only made with a valid signature of one of the intent's
/// proposers over the message for it, before the message expires.
pub proof fn proposals_are_signed_by_proposers(
    before: Propose,
    after: Propose,
    proposal_index: u64,
    expiry: i64,
    proposer: Address,
    signature: Seq<u8>,
    params_data: Seq<u8>,
    bump: u8,
    now: i64,
    r: Result<(), ProgramError>,
)
    requires
        after.proposal_outcome(
            before,
            proposal_index,
            expiry,
            proposer,
            signature,
            params_data,
            bump,
            now,
            r,
        ),
        r is Ok,
    ensures
        now < expiry,
        before.intent.data.proposers@.contains(proposer),
        before.to_sign(proposal_index, expiry, proposer, params_data, now) is Ok,
        signature_valid(
            proposer@,
            signature,
            before.to_sign(proposal_index, expiry, proposer, params_data, now)->Ok_0,
        ),
{
}

/// An approval is only recorded with a valid signature of the approver at
/// that index over the message for it, before the message expires, and only
/// where that approver has not approved yet.
pub proof fn approvals_are_signed_by_approvers(
    before: Approve,
    after: Approve,
    expiry: i64,
    approver_index: u8,
    signature: Seq<u8>,
    now: i64,
    r: Result<(), ProgramError>,
)
    requires
        after.approval_outcome(before, expiry, approver_index, signature, now, r),
        r is Ok,
    ensures
        now < expiry,
        approver_index < before.intent.data.approvers@.len(),
        !before.proposal.data.approvals().contains(approver_index as int),
        before.to_sign(expiry, approver_index, now) is Ok,
        signature_valid(
            before.intent.data.approvers@[approver_index as int]@,
            signature,
            before.to_sign(expiry, approver_index, now)->Ok_0,
        ),
{
}

/// A cancellation is only recorded with a valid signature of the approver at
/// that index over the message for it, before the message expires, and only
/// where that approver has not cancelled yet.
pub proof fn cancellations_are_signed_by_approvers(
    before: Cancel,
    after: Cancel,
    expiry: i64,
    canceller_index: u8,
    signature: Seq<u8>,
    now: i64,
    r: Result<(), ProgramError>,
)
    requires
        after.cancellation_outcome(before, expiry, canceller_index, signature, now, r),
        r is Ok,
    ensures
        now < expiry,
        canceller_index < before.intent.data.approvers@.len(),
        !before.proposal.data.cancellations().contains(canceller_index as int),
        before.to_sign(expiry, canceller_index, now) is Ok,
        signature_valid(
            before.intent.data.approvers@[canceller_index as int]@,
            signature,
            before.to_sign(expiry, canceller_index, now)->Ok_0,
        ),
{
}

/// A proposal's index is used once: the wallet counts on, and a second
/// proposal with the same index is refused.
pub proof fn proposal_index_is_used_once(
    before: Propose,
    after: Propose,
    proposal_index: u64,
    proposer: Address,
    params_data: Seq<u8>,
    bump: u8,
    now: i64,
    expiry: i64,
    later: i64,
)
    requires
        proposal_index < u64::MAX,
        after.proposed_from(before, proposal_index, proposer, params_data, bump, now),
    ensures
        after.wallet.data.proposal_index == proposal_index + 1,
        after.to_sign(proposal_index, expiry, proposer, params_data, later) == Err::<
            Seq<u8>,
            ProgramError,
        >(ProgramError::InvalidArgument),
{
}

/// How many proposals of a list are open.
pub open spec fn open_proposals(list: Seq<Proposal>) -> nat
    decreases list.len(),
{
    if list.len() == 0 {
        0
    } else {
        open_proposals(list.drop_last()) + if list.last().is_open() {
            1nat
        } else {
            0
        }
    }
}

proof fn lemma_open_push(list: Seq<Proposal>, proposal: Proposal)
    ensures
        open_proposals(list.push(proposal)) == open_proposals(list) + if proposal.is_open() {
            1nat
        } else {
            0
        },
{
    assert(list.push(proposal).drop_last() =~= list);
}

proof fn lemma_open_update(list: Seq<Proposal>, i: int, proposal: Proposal)
    requires
        0 <= i < list.len(),
        list[i].is_open(),
    ensures
        open_proposals(list) >= 1,
        open_proposals(list.update(i, proposal)) == open_proposals(list)
            - if proposal.is_open() {
            0int
        } else {
            1
        },
    decreases list.len(),
{
    let changed = list.update(i, proposal);
    if i == list.len() - 1 {
        assert(changed.drop_last() =~= list.drop_last());
    } else {
        lemma_open_update(list.drop_last(), i, proposal);
        assert(changed.drop_last() =~= list.drop_last().update(i, proposal));
    }
}

/// An intent counts its open proposals: a new proposal is counted.
pub proof fn proposing_keeps_the_count(
    before: Propose,
    after: Propose,
    proposal_index: u64,
    proposer: Address,
    params_data: Seq<u8>,
    bump: u8,
    now: i64,
    list: Seq<Proposal>,
)
    requires
        before.refusal(proposal_index, params_data.len()) is None,
        after.proposed_from(before, proposal_index, proposer, params_data, bump, now),
        before.intent.data.active_proposal_count == open_proposals(list),
    ensures
        after.intent.data.active_proposal_count == open_proposals(list.push(after.proposal.data)),
{
    lemma_open_push(list, after.proposal.data);
}

/// An intent counts its open proposals: an approval leaves the proposal open
/// and the count as it is.
pub proof fn approving_keeps_the_count(
    before: Approve,
    after: Approve,
    approver_index: u8,
    now: i64,
    list: Seq<Proposal>,
    i: int,
)
    requires
        0 <= i < list.len(),
        list[i] == before.proposal.data,
        before.proposal.data.is_open(),
        after.approved_from(before, approver_index, now),
        before.intent.data.active_proposal_count == open_proposals(list),
    ensures
        after.intent.data.active_proposal_count == open_proposals(
            list.update(i, after.proposal.data),
        ),
{
    lemma_open_update(list, i, after.proposal.data);
}

/// An intent counts its open proposals: a proposal is no longer counted once
/// it is cancelled, and is counted until then.
pub proof fn cancelling_keeps_the_count(
    before: Cancel,
    after: Cancel,
    canceller_index: u8,
    list: Seq<Proposal>,
    i: int,
)
    requires
        0 <= i < list.len(),
        list[i] == before.proposal.data,
        before.proposal.data.is_open(),
        after.cancelled_from(before, canceller_index),
        before.intent.data.active_proposal_count == open_proposals(list),
    ensures
        after.intent.data.active_proposal_count == open_proposals(
            list.update(i, after.proposal.data),
        ),
{
    lemma_open_update(list, i, after.proposal.data);
}

/// An intent counts its open proposals: an executed proposal is no longer
/// counted.
pub proof fn executing_keeps_the_count(accounts: Execute, list: Seq<Proposal>, i: int)
    requires
        0 <= i < list.len(),
        list[i] == accounts.proposal.data,
        accounts.proposal.data.is_open(),
        accounts.intent.data.active_proposal_count == open_proposals(list),
    ensures
        accounts.executed().intent.data.active_proposal_count == open_proposals(
            list.update(i, accounts.executed().proposal.data),
        ),
{
    lemma_open_update(list, i, accounts.executed().proposal.data);
}

/// A finished proposal stays as it is: no approval, cancellation or execution
/// of an executed or cancelled proposal is let through.
pub proof fn finished_proposals_stay(approve: Approve, cancel: Cancel, execute: Execute)
    requires
        !approve.proposal.data.is_open(),
        !cancel.proposal.data.is_open(),
        !execute.proposal.data.is_open(),
    ensures
        approval_refusal(approve) is Some,
        cancellation_refusal(cancel) is Some,
        execution_bump(execute) is Err,
{
}

/// An open proposal's account is never closed.
pub proof fn open_proposals_are_not_closed(accounts: CleanupProposal)
    requires
        accounts.proposal.data.is_open(),
    ensures
        cleanup_refusal(accounts) is Some,
{
}

/// Only approved proposals are executed, and not before their timelock has
/// passed.
pub proof fn executions_wait_for_approval_and_timelock(
    accounts: Execute,
    remaining: Seq<AccountView>,
    loaded: Result<Intent, ProgramError>,
    bump: u8,
    now: i64,
)
    requires
        execution_bump(accounts) is Ok,
        accounts.outcome(remaining, loaded, bump, now) is Ok,
    ensures
        accounts.proposal.data.status == ProposalStatus::Approved,
        now >= accounts.proposal.data.approved_at + accounts.intent.data.timelock_seconds,
{
}

/// A proposal that is executed has as many approvals as the intent asks for,
/// and fewer cancellations than would cancel it.
pub proof fn executed_proposals_have_enough_approvals(accounts: Execute)
    requires
        execution_bump(accounts) is Ok,
        status_follows_votes(accounts.proposal.data, accounts.intent.data),
    ensures
        accounts.proposal.data.approvals().len() >= accounts.intent.data.approval_threshold,
        accounts.proposal.data.cancellations().len() < accounts.intent.data.cancellation_threshold,
        status_follows_votes(accounts.executed().proposal.data, accounts.executed().intent.data),
{
}

/// A proposal is executed at most once: after an execution the next is
/// refused.
pub proof fn second_execution_is_refused(accounts: Execute)
    ensures
        execution_bump(accounts.executed()) is Err,
{
}

/// An update writes exactly one intent body: with the index of an intent of
/// the wallet and a body behind it as parameters, on the intent's writable
/// account and without open proposals for it, the body is written.
pub proof fn updates_write_the_proposed_body(
    accounts: Execute,
    remaining: Seq<AccountView>,
    target: Intent,
    bump: u8,
    now: i64,
    target_index: u8,
    body: Seq<u8>,
)
    requires
        accounts.intent.data.intent_type == IntentType::UpdateIntent,
        accounts.unlock_at() <= now,
        accounts.proposal.data.params_data@ == seq![target_index] + body,
        body.len() == INTENT_SIZE,
        remaining.len() > 0,
        address_of(intent_seeds(accounts.wallet.address@, target_index)) == Some(
            remaining[0].address@,
        ),
        remaining[0].is_writable,
        target.active_proposal_count == 0,
    ensures
        accounts.outcome(remaining, Ok(target), bump, now) == Ok::<ExecutionView, ProgramError>(
            ExecutionView::WriteBody { body },
        ),
{
    assert(accounts.proposal.data.params_data@.skip(1) =~= body);
}

/// An update changes no account's length, and none but that of an intent of
/// the wallet without open proposals.
pub proof fn updates_keep_the_length(
    accounts: Execute,
    remaining: Seq<AccountView>,
    loaded: Result<Intent, ProgramError>,
    bump: u8,
    now: i64,
    body: Seq<u8>,
)
    requires
        accounts.intent.data.intent_type == IntentType::UpdateIntent,
        accounts.outcome(remaining, loaded, bump, now) == Ok::<ExecutionView, ProgramError>(
            ExecutionView::WriteBody { body },
        ),
    ensures
        DISC_LEN + body.len() == Intent::SPACE,
        remaining.len() > 0,
        remaining[0].is_writable,
        address_of(
            intent_seeds(accounts.wallet.address@, accounts.proposal.data.params_data@[0]),
        ) == Some(remaining[0].address@),
        loaded is Ok,
        loaded->Ok_0.active_proposal_count == 0,
{
}

/// An intent with open proposals is not modified.
pub proof fn intents_in_use_are_not_modified(
    view: AccountView,
    expected: Option<Seq<u8>>,
    target: Intent,
)
    requires
        target.active_proposal_count > 0,
    ensures
        modifiable(view, expected, Ok(target)) is Err,
{
}

/// A removed intent cannot be used: the execution that removes it leaves it
/// without approval, and then no proposal for it is made or approved.
pub proof fn removed_intents_cannot_be_used(
    accounts: Execute,
    remaining: Seq<AccountView>,
    loaded: Result<Intent, ProgramError>,
    bump: u8,
    now: i64,
    removed: Intent,
    propose: Propose,
    approve: Approve,
)
    requires
        accounts.intent.data.intent_type == IntentType::RemoveIntent,
        accounts.outcome(remaining, loaded, bump, now) == Ok::<ExecutionView, ProgramError>(
            ExecutionView::WriteIntent { intent: removed },
        ),
        propose.intent.data == removed,
        approve.intent.data == removed,
    ensures
        proposal_bump(propose) is Err,
        approval_refusal(approve) is Some,
{
}

/// The intents of a new wallet can be used and can reach their thresholds:
/// they are approved, and each threshold lies between one and the number of
/// approvers.
pub proof fn new_wallets_are_usable(
    before: CreateWallet,
    after: CreateWallet,
    args: CreateWalletArgs<'_>,
    bumps: CreateWalletBumps,
)
    requires
        args.refusal() is None,
        after.created_from(before, args, bumps),
    ensures
        forall|intent: Intent|
            intent == after.add_intent.data || intent == after.remove_intent.data || intent
                == after.update_intent.data ==> {
                &&& #[trigger] intent.approved == 1
                &&& intent.wallet == after.wallet.address
                &&& intent.active_proposal_count == 0
                &&& 0 < intent.approval_threshold <= intent.approvers@.len() <= 16
                &&& 0 < intent.cancellation_threshold <= intent.approvers@.len()
            },
{
}

} // verus!
