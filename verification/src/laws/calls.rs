//! Laws on calls: what a call of an instruction, a message builder or a check
//! gives back for what it is given, and how two calls relate.
use crate::accounts::AccountView;
use crate::address::Address;
use crate::bytes::le_value;
use crate::clear_msig_anchor::{
    approve, cancel, cleanup_proposal, create_wallet, execute, propose,
};
use crate::crypto::{derived_address, sha256_digest, signature_valid};
use crate::error::ProgramError;
use crate::instructions::approve::Approve;
use crate::instructions::cancel::Cancel;
use crate::instructions::cleanup_proposal::CleanupProposal;
use crate::instructions::create_wallet::{CreateWallet, CreateWalletArgs};
use crate::instructions::custom::{
    collected, custom_instructions, instruction_of, CpiInstruction,
};
use crate::instructions::execute::{Execute, Execution};
use crate::instructions::propose::Propose;
use crate::laws::instructions::{
    approvals_are_recorded_as_cast, approvers_sign_the_proposal,
    cancellations_are_recorded_as_cast, cancellers_sign_the_proposal, lists_exactly,
    new_wallets_are_as_asked_for, ones, wallets_are_created_within_limits,
};
use crate::laws::parameters::{parameters_lie_one_behind_the_other, proposals_keep_the_limits};
use crate::pda::program_id_bytes;
use crate::state::intent::{param_bytes, Intent, IntentType};
use crate::state::proposal::{Proposal, ProposalStatus};
use crate::text::{decimal, decimal_value};
use crate::utils::datetime::timestamp_text;
use crate::utils::definition::{ConstraintType, ParamType, SegmentType};
use crate::utils::message::{
    content_text, signed_message, ContextView, MessageBuilder, MessageContext,
};
use vstd::prelude::*;
use vstd::string::StringSliceAdditionalSpecFns;
use vstd::utf8::valid_utf8;

verus! {

/// A cleanup changes nothing itself. With the refund account that the proposal
/// names it succeeds exactly where the proposal is executed or cancelled; a
/// proposal that is active or approved is refused as an invalid argument, and
/// another refund account as not the proposal's.
pub proof fn cleanups_close_finished_proposals(
    accounts: &mut CleanupProposal,
    r: Result<(), ProgramError>,
)
    requires
        call_ensures(cleanup_proposal, (accounts,), r),
    ensures
        *final(accounts) == *old(accounts),
        old(accounts).rent_refund == old(accounts).proposal.data.rent_refund ==> {
            &&& old(accounts).proposal.data.status == ProposalStatus::Executed ==> r is Ok
            &&& old(accounts).proposal.data.status == ProposalStatus::Cancelled ==> r is Ok
            &&& old(accounts).proposal.data.status == ProposalStatus::Active
                || old(accounts).proposal.data.status == ProposalStatus::Approved ==> r == Err::<
                (),
                ProgramError,
            >(ProgramError::InvalidArgument)
        },
        old(accounts).rent_refund != old(accounts).proposal.data.rent_refund ==> r == Err::<
            (),
            ProgramError,
        >(ProgramError::ConstraintHasOne),
{
}

/// A wallet that was created lists everyone: each of its three intents has
/// exactly the given proposers and the given approvers, key for key, so each
/// given proposer passes the check for proposers and each given approver that
/// for approvers.
pub proof fn created_wallets_list_everyone(
    accounts: &mut CreateWallet,
    approval_threshold: u8,
    cancellation_threshold: u8,
    timelock_seconds: u32,
    name: &[u8],
    proposers: &[[u8; 32]],
    approvers: &[[u8; 32]],
    r: Result<(), ProgramError>,
    intent: Intent,
    i: int,
    proposes: bool,
    approves: bool,
)
    requires
        call_ensures(
            create_wallet,
            (
                accounts,
                approval_threshold,
                cancellation_threshold,
                timelock_seconds,
                name,
                proposers,
                approvers,
            ),
            r,
        ),
        r is Ok,
        intent == final(accounts).add_intent.data || intent == final(accounts).remove_intent.data
            || intent == final(accounts).update_intent.data,
        call_ensures(
            Intent::is_proposer,
            (&intent, &(Address { bytes: proposers@[i] })),
            proposes,
        ),
        call_ensures(
            Intent::is_approver,
            (&intent, &(Address { bytes: approvers@[i] })),
            approves,
        ),
    ensures
        intent.proposers@.len() == proposers@.len(),
        0 <= i < proposers@.len() ==> intent.proposers@[i].bytes == proposers@[i],
        0 <= i < proposers@.len() ==> proposes,
        intent.approvers@.len() == approvers@.len(),
        0 <= i < approvers@.len() ==> intent.approvers@[i].bytes == approvers@[i],
        0 <= i < approvers@.len() ==> approves,
        intent.approval_threshold == approval_threshold,
        intent.cancellation_threshold == cancellation_threshold,
        intent.timelock_seconds == timelock_seconds,
        intent.approved == 1,
        intent.active_proposal_count == 0,
        intent.wallet == final(accounts).wallet.address,
        final(accounts).wallet.data.proposal_index == 0,
        final(accounts).wallet.data.intent_index == 2,
        final(accounts).wallet.data.name_len == name@.len(),
        final(accounts).wallet.data.name@.subrange(0, name@.len() as int) == name@,
        final(accounts).add_intent.data.intent_type == IntentType::AddIntent,
        final(accounts).remove_intent.data.intent_type == IntentType::RemoveIntent,
        final(accounts).update_intent.data.intent_type == IntentType::UpdateIntent,
{
    let bumps = crate::clear_msig_anchor::creation_bumps(*old(accounts))->Ok_0;
    let args = CreateWalletArgs {
        name,
        approval_threshold,
        cancellation_threshold,
        timelock_seconds,
        proposers,
        approvers,
    };
    new_wallets_are_as_asked_for(
        *old(accounts),
        *final(accounts),
        args,
        bumps,
        sha256_digest(name@),
        r,
        i,
    );
    assert(intent.wallet == final(accounts).wallet.address);
    assert(lists_exactly(intent.proposers@, proposers@));
    assert(lists_exactly(intent.approvers@, approvers@));
    if 0 <= i < proposers@.len() {
        assert(intent.proposers@[i] == (Address { bytes: proposers@[i] }));
    }
    if 0 <= i < approvers@.len() {
        assert(intent.approvers@[i] == (Address { bytes: approvers@[i] }));
    }
    assert(final(accounts).wallet.data.name@.subrange(0, name@.len() as int) =~= name@);
}

/// A wallet is created exactly where its accounts are at their derived
/// addresses, the hash account is that of the name, the name is text of at most
/// 64 bytes, there are at most sixteen proposers and sixteen approvers, and both
/// thresholds lie between one and the number of approvers. A refusal changes
/// nothing.
pub proof fn wallets_are_created_where_all_fits(
    accounts: &mut CreateWallet,
    approval_threshold: u8,
    cancellation_threshold: u8,
    timelock_seconds: u32,
    name: &[u8],
    proposers: &[[u8; 32]],
    approvers: &[[u8; 32]],
    r: Result<(), ProgramError>,
)
    requires
        call_ensures(
            create_wallet,
            (
                accounts,
                approval_threshold,
                cancellation_threshold,
                timelock_seconds,
                name,
                proposers,
                approvers,
            ),
            r,
        ),
    ensures
        r is Err ==> *final(accounts) == *old(accounts),
        ({
            let wallet = derived_address(
                seq!["clear_wallet".spec_bytes(), old(accounts).name_hash.bytes@],
                program_id_bytes(),
            );
            let add = derived_address(
                seq!["intent".spec_bytes(), old(accounts).wallet.address.bytes@, seq![0u8]],
                program_id_bytes(),
            );
            let remove = derived_address(
                seq!["intent".spec_bytes(), old(accounts).wallet.address.bytes@, seq![1u8]],
                program_id_bytes(),
            );
            let update = derived_address(
                seq!["intent".spec_bytes(), old(accounts).wallet.address.bytes@, seq![2u8]],
                program_id_bytes(),
            );
            &&& r is Ok <==> {
                &&& wallet is Some && (wallet->0).0 == old(accounts).wallet.address.bytes@
                &&& add is Some && (add->0).0 == old(accounts).add_intent.address.bytes@
                &&& remove is Some && (remove->0).0 == old(accounts).remove_intent.address.bytes@
                &&& update is Some && (update->0).0 == old(accounts).update_intent.address.bytes@
                &&& old(accounts).name_hash.bytes@ == sha256_digest(name@)
                &&& name@.len() <= 64
                &&& valid_utf8(name@)
                &&& proposers@.len() <= 16
                &&& approvers@.len() <= 16
                &&& 1 <= approval_threshold <= approvers@.len()
                &&& 1 <= cancellation_threshold <= approvers@.len()
            }
            &&& r is Ok ==> {
                &&& final(accounts).wallet.data.bump == (wallet->0).1
                &&& final(accounts).add_intent.data.bump == (add->0).1
                &&& final(accounts).remove_intent.data.bump == (remove->0).1
                &&& final(accounts).update_intent.data.bump == (update->0).1
            }
        }),
{
    let args = CreateWalletArgs {
        name,
        approval_threshold,
        cancellation_threshold,
        timelock_seconds,
        proposers,
        approvers,
    };
    crate::laws::instructions::creations_take_derived_accounts(*old(accounts));
    match crate::clear_msig_anchor::creation_bumps(*old(accounts)) {
        Ok(bumps) => {
            wallets_are_created_within_limits(
                *old(accounts),
                *final(accounts),
                args,
                bumps,
                sha256_digest(name@),
                r,
            );
        },
        Err(_) => {},
    }
}

/// A proposal is made only for an approved intent of the wallet, by one of its
/// proposers, before the expiry, with a valid signature over the message for
/// the wallet's next index and the given parameters, and it is recorded with
/// them: active, without votes, for the wallet and the intent, to be refunded to
/// the payer. The wallet counts the next index, the intent one more open
/// proposal. A refusal changes nothing.
pub proof fn proposals_are_made_by_proposers(
    accounts: &mut Propose,
    expiry: i64,
    proposer: [u8; 32],
    signature: [u8; 64],
    params_data: &[u8],
    now: i64,
    r: Result<(), ProgramError>,
)
    requires
        old(accounts).wf(),
        call_ensures(propose, (accounts, expiry, proposer, signature, params_data, now), r),
    ensures
        r is Err ==> *final(accounts) == *old(accounts),
        r is Ok ==> {
            let index = old(accounts).wallet.data.proposal_index;
            let message = signed_message(
                ContextView {
                    expiry,
                    action: "propose".spec_bytes(),
                    wallet_name: old(accounts).wallet.data.name@.subrange(
                        0,
                        old(accounts).wallet.data.name_len as int,
                    ),
                    proposal_index: index,
                },
                old(accounts).intent.data,
                params_data@,
            );
            &&& old(accounts).intent.data.wallet == old(accounts).wallet.address
            &&& old(accounts).intent.data.approved != 0
            &&& old(accounts).intent.data.proposers@.contains(Address { bytes: proposer })
            &&& now < expiry
            &&& message is Ok
            &&& signature_valid(proposer@, signature@, message->Ok_0)
            &&& final(accounts).proposal.data.proposal_index == index
            &&& final(accounts).proposal.data.wallet == old(accounts).wallet.address
            &&& final(accounts).proposal.data.intent == old(accounts).intent.address
            &&& final(accounts).proposal.data.proposer.bytes == proposer
            &&& final(accounts).proposal.data.params_data@ == params_data@
            &&& final(accounts).proposal.data.status == ProposalStatus::Active
            &&& final(accounts).proposal.data.approval_bitmap == 0
            &&& final(accounts).proposal.data.cancellation_bitmap == 0
            &&& final(accounts).proposal.data.proposed_at == now
            &&& final(accounts).proposal.data.approved_at == 0
            &&& final(accounts).proposal.data.rent_refund == old(accounts).payer
            &&& final(accounts).wallet.data.proposal_index == index + 1
            &&& final(accounts).intent.data.active_proposal_count
                == old(accounts).intent.data.active_proposal_count + 1
            &&& params_data@.len() <= 512
        },
{
    assert(old(accounts).wallet.data.name@.take(old(accounts).wallet.data.name_len as int)
        =~= old(accounts).wallet.data.name@.subrange(
        0,
        old(accounts).wallet.data.name_len as int,
    ));
}

/// A proposal for a custom intent keeps the limits: every parameter is there,
/// and the number that the eight bytes of a limited parameter denote is smaller
/// than its limit, or greater, as the parameter asks. The first parameter starts
/// the data.
pub proof fn custom_proposals_keep_the_limits(
    accounts: &mut Propose,
    expiry: i64,
    proposer: [u8; 32],
    signature: [u8; 64],
    params_data: &[u8],
    now: i64,
    r: Result<(), ProgramError>,
    k: int,
    number: nat,
)
    requires
        old(accounts).wf(),
        call_ensures(propose, (accounts, expiry, proposer, signature, params_data, now), r),
        r is Ok,
        old(accounts).intent.data.intent_type == IntentType::Custom,
        0 <= k < old(accounts).intent.data.params@.len(),
        old(accounts).intent.data.params@[k].param_type == ParamType::U64,
    ensures
        param_bytes(old(accounts).intent.data.params@, params_data@, k) is Some,
        param_bytes(old(accounts).intent.data.params@, params_data@, k)->0.len() == 8,
        k == 0 ==> param_bytes(old(accounts).intent.data.params@, params_data@, k)->0
            == params_data@.subrange(0, 8),
        number == le_value(param_bytes(old(accounts).intent.data.params@, params_data@, k)->0)
            ==> {
            &&& old(accounts).intent.data.params@[k].constraint_type
                == ConstraintType::LessThanU64 ==> number
                < old(accounts).intent.data.params@[k].constraint_value
            &&& old(accounts).intent.data.params@[k].constraint_type
                == ConstraintType::GreaterThanU64 ==> number
                > old(accounts).intent.data.params@[k].constraint_value
        },
{
    let params = old(accounts).intent.data.params@;
    proposals_keep_the_limits(
        *old(accounts),
        *final(accounts),
        old(accounts).wallet.data.proposal_index,
        expiry,
        Address { bytes: proposer },
        signature@,
        params_data@,
        crate::clear_msig_anchor::proposal_bump(*old(accounts))->Ok_0,
        now,
        r,
        k,
    );
    parameters_lie_one_behind_the_other(params, params_data@, k);
}

/// The check of parameters gives an error exactly where a parameter is missing,
/// a text is not valid, or a number is on the wrong side of its limit.
pub proof fn parameters_are_checked_against_their_limits(
    intent: Intent,
    data: &[u8],
    r: Result<(), ProgramError>,
)
    requires
        call_ensures(Intent::validate_param_constraints, (&intent, data), r),
    ensures
        r is Ok <==> forall|k: int|
            #![trigger intent.params@[k]]
            0 <= k < intent.params@.len() ==> {
                let bytes = param_bytes(intent.params@, data@, k);
                let param = intent.params@[k];
                &&& bytes is Some
                &&& param.param_type == ParamType::U64 && param.constraint_type
                    == ConstraintType::LessThanU64 ==> le_value(bytes->0) < param.constraint_value
                &&& param.param_type == ParamType::U64 && param.constraint_type
                    == ConstraintType::GreaterThanU64 ==> le_value(bytes->0)
                    > param.constraint_value
                &&& param.param_type == ParamType::String ==> valid_utf8(bytes->0.skip(1))
            },
{
    let params = intent.params@;
    if r is Ok {
        assert forall|k: int|
            #![trigger intent.params@[k]]
            0 <= k < intent.params@.len() implies {
            let bytes = param_bytes(intent.params@, data@, k);
            let param = intent.params@[k];
            &&& bytes is Some
            &&& param.param_type == ParamType::U64 && param.constraint_type
                == ConstraintType::LessThanU64 ==> le_value(bytes->0) < param.constraint_value
            &&& param.param_type == ParamType::U64 && param.constraint_type
                == ConstraintType::GreaterThanU64 ==> le_value(bytes->0) > param.constraint_value
            &&& param.param_type == ParamType::String ==> valid_utf8(bytes->0.skip(1))
        } by {
            crate::laws::parameters::checked_parameters_can_be_read(params, data@, k);
            crate::laws::parameters::checked_parameters_meet_their_conditions(params, data@, k);
        }
    } else if forall|k: int|
        #![trigger intent.params@[k]]
        0 <= k < intent.params@.len() ==> {
            let bytes = param_bytes(intent.params@, data@, k);
            let param = intent.params@[k];
            &&& bytes is Some
            &&& param.param_type == ParamType::U64 && param.constraint_type
                == ConstraintType::LessThanU64 ==> le_value(bytes->0) < param.constraint_value
            &&& param.param_type == ParamType::U64 && param.constraint_type
                == ConstraintType::GreaterThanU64 ==> le_value(bytes->0) > param.constraint_value
            &&& param.param_type == ParamType::String ==> valid_utf8(bytes->0.skip(1))
        } {
        crate::laws::parameters::parameters_within_their_limits_pass(
            params,
            data@,
            params.len() as int,
        );
    }
}

/// An approval sets the approver's bit among the approvals and clears it among
/// the cancellations, and approves the proposal, as of now, exactly where as
/// many approvals are then set as the intent's threshold. It is taken only for
/// an active proposal of an approved intent of the wallet, before the expiry,
/// from an approver whose bit was not set, with a valid signature. A refusal
/// changes nothing.
pub proof fn approvals_are_votes_of_approvers(
    accounts: &mut Approve,
    expiry: i64,
    index: u8,
    signature: [u8; 64],
    now: i64,
    r: Result<(), ProgramError>,
)
    requires
        old(accounts).wallet.data.wf(),
        old(accounts).intent.data.wf(),
        call_ensures(approve, (accounts, expiry, index, signature, now), r),
    ensures
        r is Err ==> *final(accounts) == *old(accounts),
        ({
            let intent = old(accounts).intent.data;
            let proposal = old(accounts).proposal.data;
            let message = signed_message(
                ContextView {
                    expiry,
                    action: "approve".spec_bytes(),
                    wallet_name: old(accounts).wallet.data.name@.subrange(
                        0,
                        old(accounts).wallet.data.name_len as int,
                    ),
                    proposal_index: proposal.proposal_index,
                },
                intent,
                proposal.params_data@,
            );
            &&& r is Ok <==> {
                &&& intent.wallet == old(accounts).wallet.address
                &&& intent.approved != 0
                &&& proposal.wallet == old(accounts).wallet.address
                &&& proposal.intent == old(accounts).intent.address
                &&& proposal.status == ProposalStatus::Active
                &&& now < expiry
                &&& index < intent.approvers@.len()
                &&& (proposal.approval_bitmap >> (index as u16)) & 1u16 == 0u16
                &&& message is Ok
                &&& signature_valid(
                    intent.approvers@[index as int].bytes@,
                    signature@,
                    message->Ok_0,
                )
            }
            &&& r is Ok ==> {
                let approvals = proposal.approval_bitmap | (1u16 << (index as u16));
                let enough = ones(approvals) >= intent.approval_threshold;
                &&& final(accounts).wallet == old(accounts).wallet
                &&& final(accounts).intent == old(accounts).intent
                &&& final(accounts).proposal.address == old(accounts).proposal.address
                &&& final(accounts).proposal.data == (Proposal {
                    approval_bitmap: approvals,
                    cancellation_bitmap: proposal.cancellation_bitmap & !(1u16 << (index as u16)),
                    status: if enough {
                        ProposalStatus::Approved
                    } else {
                        ProposalStatus::Active
                    },
                    approved_at: if enough {
                        now
                    } else {
                        proposal.approved_at
                    },
                    ..proposal
                })
            }
        }),
{
    crate::laws::instructions::approvals_are_for_active_proposals(*old(accounts));
    approvers_sign_the_proposal(*old(accounts), expiry, index, now);
    if crate::clear_msig_anchor::approval_refusal(*old(accounts)) is None {
        approvals_are_recorded_as_cast(
            *old(accounts),
            *final(accounts),
            expiry,
            index,
            signature@,
            now,
            r,
        );
    }
}

/// A cancellation sets the approver's bit among the cancellations and clears it
/// among the approvals. With as many cancellations as the intent's threshold the
/// proposal is cancelled and the intent counts one open proposal less; else,
/// with too few approvals, it is active. It is taken only for an open proposal
/// of the wallet, before the expiry, from an approver whose bit was not set,
/// with a valid signature. A refusal changes nothing.
pub proof fn cancellations_are_votes_of_approvers(
    accounts: &mut Cancel,
    expiry: i64,
    index: u8,
    signature: [u8; 64],
    now: i64,
    r: Result<(), ProgramError>,
)
    requires
        old(accounts).wallet.data.wf(),
        old(accounts).intent.data.wf(),
        call_ensures(cancel, (accounts, expiry, index, signature, now), r),
    ensures
        r is Err ==> *final(accounts) == *old(accounts),
        ({
            let intent = old(accounts).intent.data;
            let proposal = old(accounts).proposal.data;
            let message = signed_message(
                ContextView {
                    expiry,
                    action: "cancel".spec_bytes(),
                    wallet_name: old(accounts).wallet.data.name@.subrange(
                        0,
                        old(accounts).wallet.data.name_len as int,
                    ),
                    proposal_index: proposal.proposal_index,
                },
                intent,
                proposal.params_data@,
            );
            &&& r is Ok <==> {
                &&& intent.wallet == old(accounts).wallet.address
                &&& proposal.wallet == old(accounts).wallet.address
                &&& proposal.intent == old(accounts).intent.address
                &&& proposal.status == ProposalStatus::Active || proposal.status
                    == ProposalStatus::Approved
                &&& now < expiry
                &&& index < intent.approvers@.len()
                &&& (proposal.cancellation_bitmap >> (index as u16)) & 1u16 == 0u16
                &&& message is Ok
                &&& signature_valid(
                    intent.approvers@[index as int].bytes@,
                    signature@,
                    message->Ok_0,
                )
            }
            &&& r is Ok ==> {
                let approvals = proposal.approval_bitmap & !(1u16 << (index as u16));
                let cancellations = proposal.cancellation_bitmap | (1u16 << (index as u16));
                let ended = ones(cancellations) >= intent.cancellation_threshold;
                &&& final(accounts).wallet == old(accounts).wallet
                &&& final(accounts).proposal.address == old(accounts).proposal.address
                &&& final(accounts).proposal.data == (Proposal {
                    approval_bitmap: approvals,
                    cancellation_bitmap: cancellations,
                    status: if ended {
                        ProposalStatus::Cancelled
                    } else if ones(approvals) < intent.approval_threshold {
                        ProposalStatus::Active
                    } else {
                        proposal.status
                    },
                    ..proposal
                })
                &&& final(accounts).intent.address == old(accounts).intent.address
                &&& final(accounts).intent.data == (Intent {
                    active_proposal_count: final(accounts).intent.data.active_proposal_count,
                    ..intent
                })
                &&& final(accounts).intent.data.active_proposal_count == if ended
                    && intent.active_proposal_count > 0 {
                    intent.active_proposal_count - 1
                } else {
                    intent.active_proposal_count as int
                }
            }
        }),
{
    crate::laws::instructions::cancellations_are_for_open_proposals(*old(accounts));
    cancellers_sign_the_proposal(*old(accounts), expiry, index, now);
    if crate::clear_msig_anchor::cancellation_refusal(*old(accounts)) is None {
        cancellations_are_recorded_as_cast(
            *old(accounts),
            *final(accounts),
            expiry,
            index,
            signature@,
            now,
            r,
        );
    }
}

/// An execution is only of an approved proposal of the wallet and one of its
/// intents, with the wallet's vault, after the timelock. The proposal is then
/// executed, the intent counts one open proposal less, and the wallet counts an
/// intent that was added; everything else stays. A refusal changes nothing.
pub proof fn executions_finish_approved_proposals(
    accounts: &mut Execute,
    remaining: &Vec<AccountView>,
    loaded: Result<Intent, ProgramError>,
    now: i64,
    r: Result<Execution, ProgramError>,
)
    requires
        call_ensures(execute, (accounts, remaining, loaded, now), r),
    ensures
        r is Err ==> *final(accounts) == *old(accounts),
        r is Ok ==> {
            let vault = derived_address(
                seq!["vault".spec_bytes(), old(accounts).wallet.address.bytes@],
                program_id_bytes(),
            );
            &&& old(accounts).proposal.data.status == ProposalStatus::Approved
            &&& old(accounts).intent.data.wallet == old(accounts).wallet.address
            &&& old(accounts).proposal.data.wallet == old(accounts).wallet.address
            &&& old(accounts).proposal.data.intent == old(accounts).intent.address
            &&& vault is Some
            &&& (vault->0).0 == old(accounts).vault.address.bytes@
            &&& old(accounts).proposal.data.approved_at + old(accounts).intent.data.timelock_seconds
                <= now
            &&& final(accounts).proposal.data == (Proposal {
                status: ProposalStatus::Executed,
                ..old(accounts).proposal.data
            })
            &&& old(accounts).intent.data.active_proposal_count > 0
                ==> final(accounts).intent.data.active_proposal_count
                == old(accounts).intent.data.active_proposal_count - 1
            &&& final(accounts).wallet.data.intent_index == if old(accounts).intent.data.intent_type
                == IntentType::AddIntent {
                old(accounts).wallet.data.intent_index + 1
            } else {
                old(accounts).wallet.data.intent_index as int
            }
            &&& final(accounts).wallet.data.proposal_index
                == old(accounts).wallet.data.proposal_index
            &&& final(accounts).wallet.data.name == old(accounts).wallet.data.name
        },
{
    crate::laws::instructions::executions_are_of_approved_proposals(*old(accounts));
    match crate::clear_msig_anchor::execution_bump(*old(accounts)) {
        Ok(bump) => {
            crate::laws::instructions::executions_are_recorded(
                *old(accounts),
                *final(accounts),
                remaining@,
                loaded,
                bump,
                now,
                r,
            );
            crate::laws::instructions::timelocks_only_delay(
                *old(accounts),
                remaining@,
                loaded,
                bump,
                now,
                now,
            );
        },
        Err(_) => {},
    }
}

/// What an execution leaves to be done is what the intent is for: with one that
/// removes an intent, writing the loaded intent back unapproved, and nothing
/// else of it changed; with one that updates an intent, writing the parameters
/// behind the index; with one that adds an intent, creating it at the next
/// index, paid by the first remaining account; with a custom one, its
/// instructions, signed for by the vault.
pub proof fn executions_do_what_the_intent_is_for(
    accounts: &mut Execute,
    remaining: &Vec<AccountView>,
    loaded: Result<Intent, ProgramError>,
    now: i64,
    r: Result<Execution, ProgramError>,
)
    requires
        call_ensures(execute, (accounts, remaining, loaded, now), r),
        r is Ok,
    ensures
        ({
            let params = old(accounts).proposal.data.params_data@;
            let vault = derived_address(
                seq!["vault".spec_bytes(), old(accounts).wallet.address.bytes@],
                program_id_bytes(),
            );
            let next = derived_address(
                seq![
                    "intent".spec_bytes(),
                    old(accounts).wallet.address.bytes@,
                    seq![(old(accounts).wallet.data.intent_index + 1) as u8],
                ],
                program_id_bytes(),
            );
            let target = derived_address(
                seq!["intent".spec_bytes(), old(accounts).wallet.address.bytes@, seq![params[0]]],
                program_id_bytes(),
            );
            match r->Ok_0 {
                Execution::CreateIntent { payer, address, intent_index, bump, data } => {
                    &&& old(accounts).intent.data.intent_type == IntentType::AddIntent
                    &&& remaining@.len() >= 2
                    &&& remaining@[0].is_signer
                    &&& payer == remaining@[0].address
                    &&& address == remaining@[1].address
                    &&& intent_index == old(accounts).wallet.data.intent_index + 1
                    &&& next == Some((address.bytes@, bump))
                },
                Execution::WriteIntent { intent } => {
                    &&& old(accounts).intent.data.intent_type == IntentType::RemoveIntent
                    &&& params.len() == 1
                    &&& remaining@.len() >= 1
                    &&& target is Some
                    &&& (target->0).0 == remaining@[0].address.bytes@
                    &&& remaining@[0].is_writable
                    &&& loaded is Ok
                    &&& loaded->Ok_0.active_proposal_count == 0
                    &&& intent == (Intent { approved: 0, ..loaded->Ok_0 })
                },
                Execution::WriteBody { body } => {
                    &&& old(accounts).intent.data.intent_type == IntentType::UpdateIntent
                    &&& remaining@.len() >= 1
                    &&& target is Some
                    &&& (target->0).0 == remaining@[0].address.bytes@
                    &&& remaining@[0].is_writable
                    &&& loaded is Ok
                    &&& loaded->Ok_0.active_proposal_count == 0
                    &&& params.len() == 1 + body@.len()
                    &&& forall|i: int| 0 <= i < body@.len() ==> #[trigger] body@[i] == params[i + 1]
                },
                Execution::Invoke { vault_bump, instructions } => {
                    &&& old(accounts).intent.data.intent_type == IntentType::Custom
                    &&& vault == Some((old(accounts).vault.address.bytes@, vault_bump))
                    &&& instructions@.len() == old(accounts).intent.data.instructions@.len()
                },
            }
        }),
{
    let before = *old(accounts);
    crate::laws::instructions::executions_are_of_approved_proposals(before);
    let bump = crate::clear_msig_anchor::execution_bump(before)->Ok_0;
    crate::laws::instructions::executions_are_recorded(
        before,
        *final(accounts),
        remaining@,
        loaded,
        bump,
        now,
        r,
    );
    crate::laws::instructions::timelocks_only_delay(before, remaining@, loaded, bump, now, now);
    crate::laws::views::executions_are_seen_whole(r->Ok_0);
    match r->Ok_0 {
        Execution::CreateIntent { payer, address, intent_index, bump: b, data } => {
            crate::address::address_is_its_bytes(address, remaining@[1].address);
        },
        Execution::Invoke { vault_bump, instructions } => {
            let list = crate::instructions::custom::custom_instructions(
                before.intent.data,
                before.proposal.data.params_data@,
                before.declared(),
                remaining@,
            )->Ok_0;
            crate::laws::custom::each_entry_gives_its_own_instruction(
                before.intent.data,
                before.proposal.data.params_data@,
                before.declared(),
                remaining@,
                list,
            );
        },
        _ => {},
    }
}

/// The n-th instruction that an execution of a custom intent leaves to be
/// invoked is that of the n-th entry: its program is the account with the
/// entry's number, its accounts are those whose numbers stand in the entry's
/// bytes of the pool, in their order and with the rights of their own entries.
/// With one literal segment, its data are that segment's bytes of the pool; with
/// none, it has no data.
pub proof fn executions_run_each_entry(
    accounts: &mut Execute,
    remaining: &Vec<AccountView>,
    loaded: Result<Intent, ProgramError>,
    now: i64,
    r: Result<Execution, ProgramError>,
    vault_bump: u8,
    instructions: Vec<CpiInstruction>,
    n: int,
    a: int,
)
    requires
        call_ensures(execute, (accounts, remaining, loaded, now), r),
        r == Ok::<Execution, ProgramError>(Execution::Invoke { vault_bump, instructions }),
        0 <= n < old(accounts).intent.data.instructions@.len(),
    ensures
        instructions@.len() == old(accounts).intent.data.instructions@.len(),
        ({
            let intent = old(accounts).intent.data;
            let entry = intent.instructions@[n];
            let pool = intent.byte_pool@;
            let found = collected(
                intent,
                seq![old(accounts).vault, old(accounts).system_program, old(accounts).wallet_view],
                remaining@,
            );
            &&& found is Ok
            &&& found->Ok_0.len() == intent.accounts@.len()
            &&& entry.program_account_index < found->Ok_0.len()
            &&& instructions@[n].program_id
                == found->Ok_0[entry.program_account_index as int].address
            &&& instructions@[n].accounts@.len() == entry.account_indexes_len
            &&& 0 <= a < entry.account_indexes_len ==> {
                let index = pool[entry.account_indexes_offset + a] as int;
                &&& 0 <= index < found->Ok_0.len()
                &&& instructions@[n].accounts@[a].address == found->Ok_0[index].address
                &&& instructions@[n].accounts@[a].is_writable == intent.accounts@[index].is_writable
                &&& instructions@[n].accounts@[a].is_signer == intent.accounts@[index].is_signer
            }
            &&& entry.segments_count == 0 ==> instructions@[n].data@.len() == 0
            &&& entry.segments_count == 1
                && intent.data_segments@[entry.segments_start as int].segment_type
                == SegmentType::Literal ==> {
                let segment = intent.data_segments@[entry.segments_start as int];
                instructions@[n].data@ == pool.subrange(
                    segment.pool_offset as int,
                    segment.pool_offset + segment.pool_len,
                )
            }
        }),
{
    let before = *old(accounts);
    let intent = before.intent.data;
    let data = before.proposal.data.params_data@;
    let entry = intent.instructions@[n];
    let bump = crate::clear_msig_anchor::execution_bump(before)->Ok_0;
    crate::laws::instructions::executions_are_recorded(
        before,
        *final(accounts),
        remaining@,
        loaded,
        bump,
        now,
        r,
    );
    crate::laws::views::executions_are_seen_whole(r->Ok_0);
    let list = crate::instructions::custom::cpi_views(instructions@);
    assert(custom_instructions(intent, data, before.declared(), remaining@) == Ok::<
        Seq<crate::instructions::custom::CpiView>,
        ProgramError,
    >(list));
    let views = collected(intent, before.declared(), remaining@)->Ok_0;
    crate::laws::running::instructions_are_those_of_their_entries(
        intent,
        data,
        before.declared(),
        remaining@,
        views,
        list,
        n,
        a,
    );
    crate::laws::views::instructions_are_seen_whole(instructions@, n);
    if intent.accounts@.len() > 0 {
        crate::laws::running::accounts_are_at_the_addresses_asked_for(
            intent,
            data,
            before.declared(),
            remaining@,
            views,
            0,
        );
    } else {
        let items = Seq::new(
            intent.accounts@.len(),
            |i: int|
                crate::instructions::custom::account_for(
                    intent,
                    before.declared(),
                    remaining@,
                    i,
                ),
        );
        crate::gather::gathered_values(items);
    }
    assert(instruction_of(entry, intent, data, views) is Ok) by {
        let items = Seq::new(
            intent.instructions@.len(),
            |i: int| instruction_of(intent.instructions@[i], intent, data, views),
        );
        crate::gather::gathered_values(items);
        assert(items[n] == instruction_of(entry, intent, data, views));
    }
    if entry.segments_count == 1 {
        crate::laws::running::segments_give_their_bytes(
            intent,
            data,
            entry.segments_start as int,
            instructions@[n].data@,
        );
    }
}

/// A fresh builder makes the message of an intent: where it succeeds, its bytes
/// are the signing domain, two zeros, the length of the text, and the text:
/// `expires <ts>: <action> <content> | wallet: <name> proposal: <index>`.
pub proof fn built_messages_have_the_format(
    fresh: MessageBuilder,
    builder: &mut MessageBuilder,
    ctx: &MessageContext<'_>,
    intent: &Intent,
    data: &[u8],
    r: Result<(), ProgramError>,
    bytes: &[u8],
)
    requires
        call_ensures(MessageBuilder::new, (), fresh),
        *old(builder) == fresh,
        call_ensures(MessageBuilder::build_message_for_intent, (builder, ctx, intent, data), r),
        r is Ok,
        call_ensures(MessageBuilder::as_bytes, (&*final(builder),), bytes),
    ensures
        content_text(*intent, data@) is Some,
        ({
            let text = "expires ".spec_bytes() + timestamp_text(ctx.expiry as int)
                + ": ".spec_bytes() + ctx.action.spec_bytes() + " ".spec_bytes() + content_text(
                *intent,
                data@,
            )->0 + " | wallet: ".spec_bytes() + ctx.wallet_name.spec_bytes()
                + " proposal: ".spec_bytes() + decimal(ctx.proposal_index as nat);
            bytes@ == seq![255u8] + "solana offchain".spec_bytes() + seq![
                0u8,
                0u8,
                (text.len() % 256) as u8,
                (text.len() / 256 % 256) as u8,
            ] + text
        }),
{
    crate::laws::messages::every_message_has_the_format(ctx@, *intent, data@);
    crate::laws::showing::messages_have_their_fixed_parts(ctx@, content_text(*intent, data@)->0);
}

/// What is signed is what is executed: where a custom intent's template shows
/// parameter `k`, which is no flag, and the template has no other placeholder
/// before or behind it, two builders that make the same message were given the
/// same bytes of that parameter. So data that differ in a number that is shown
/// never give the same message.
pub proof fn equal_messages_show_equal_parameters(
    fresh: MessageBuilder,
    builder1: &mut MessageBuilder,
    builder2: &mut MessageBuilder,
    ctx: &MessageContext<'_>,
    intent: &Intent,
    data1: &[u8],
    data2: &[u8],
    front: Seq<u8>,
    digits: Seq<u8>,
    rest: Seq<u8>,
    k: u8,
    bytes1: &[u8],
    bytes2: &[u8],
)
    requires
        call_ensures(MessageBuilder::new, (), fresh),
        *old(builder1) == fresh,
        *old(builder2) == fresh,
        call_ensures(
            MessageBuilder::build_message_for_intent,
            (builder1, ctx, intent, data1),
            Ok(()),
        ),
        call_ensures(
            MessageBuilder::build_message_for_intent,
            (builder2, ctx, intent, data2),
            Ok(()),
        ),
        final(builder1)@ == final(builder2)@,
        intent.intent_type == IntentType::Custom,
        intent.template_bytes() == Some(front + seq![123u8] + digits + seq![125u8] + rest),
        !front.contains(123),
        !rest.contains(123),
        forall|i: int| 0 <= i < digits.len() ==> 48 <= #[trigger] digits[i] <= 57,
        decimal_value(digits) <= u64::MAX,
        k == decimal_value(digits) % 256,
        k < intent.params@.len(),
        intent.params@[k as int].param_type != ParamType::Bool,
        call_ensures(Intent::read_param_bytes, (intent, data1, k), Ok(bytes1)),
        call_ensures(Intent::read_param_bytes, (intent, data2, k), Ok(bytes2)),
    ensures
        bytes1@ == bytes2@,
        le_value(bytes1@) == le_value(bytes2@),
{
    if bytes1@ != bytes2@ {
        crate::laws::showing::messages_show_the_parameter(
            ctx@,
            *intent,
            front,
            digits,
            rest,
            k as int,
            data1@,
            data2@,
        );
    }
}

} // verus!
