//! Laws on what each instruction does, field by field: what it asks for, what
//! it records, and what it leaves alone.
use crate::accounts::AccountView;
use crate::address::Address;
use crate::clear_msig_anchor::{
    approval_refusal, cancellation_refusal, cleanup_refusal, creation_bumps, execution_bump,
    proposal_bump, seeds_bump,
};
use crate::crypto::{derived_address, sha256_digest, signature_valid};
use crate::error::ProgramError;
use crate::instructions::approve::Approve;
use crate::instructions::cancel::Cancel;
use crate::instructions::cleanup_proposal::CleanupProposal;
use crate::instructions::create_wallet::{CreateWallet, CreateWalletArgs, CreateWalletBumps};
use crate::instructions::custom::custom_instructions;
use crate::instructions::execute::{modifiable, new_intent_data, Execute, ExecutionView};
use crate::instructions::propose::Propose;
use crate::pda::{
    intent_seeds, program_address, program_id_bytes, proposal_seeds, vault_seeds, wallet_seeds,
};
use crate::state::intent::{checked_params, Intent, IntentType, INTENT_SIZE};
use crate::state::proposal::{
    a_vote_sets_its_bit, a_vote_taken_back_clears_its_bit, votes_are_bits, votes_are_counted,
    Proposal, ProposalStatus,
};
use crate::state::wallet::ClearWallet;
use crate::utils::message::{signed_message, ContextView};
use vstd::prelude::*;
use vstd::string::StringSliceAdditionalSpecFns;
use vstd::utf8::valid_utf8;

verus! {

/// How many bits of a bitmap are one.
pub open spec fn ones(bitmap: u16) -> int {
    ((bitmap >> 0) & 1) + ((bitmap >> 1) & 1) + ((bitmap >> 2) & 1) + ((bitmap >> 3) & 1) + ((
    bitmap >> 4) & 1) + ((bitmap >> 5) & 1) + ((bitmap >> 6) & 1) + ((bitmap >> 7) & 1) + ((bitmap
        >> 8) & 1) + ((bitmap >> 9) & 1) + ((bitmap >> 10) & 1) + ((bitmap >> 11) & 1) + ((bitmap
        >> 12) & 1) + ((bitmap >> 13) & 1) + ((bitmap >> 14) & 1) + ((bitmap >> 15) & 1)
}

/// A list has exactly the given keys, in their order.
pub open spec fn lists_exactly(list: Seq<Address>, keys: Seq<[u8; 32]>) -> bool {
    &&& list.len() == keys.len()
    &&& forall|i: int| 0 <= i < keys.len() ==> (#[trigger] list[i]).bytes == keys[i]
}

/// A wallet is created exactly where its name hashes to the given address, has
/// at most 64 bytes and is text, there are at most sixteen proposers and
/// approvers each, and both thresholds lie between one and the number of
/// approvers.
pub proof fn wallets_are_created_within_limits(
    before: CreateWallet,
    after: CreateWallet,
    args: CreateWalletArgs<'_>,
    bumps: CreateWalletBumps,
    digest: Seq<u8>,
    r: Result<(), ProgramError>,
)
    requires
        after.creation_outcome(before, args, bumps, digest, r),
    ensures
        r is Ok <==> {
            &&& before.name_hash@ == digest
            &&& args.name@.len() <= 64
            &&& valid_utf8(args.name@)
            &&& args.proposers@.len() <= 16
            &&& args.approvers@.len() <= 16
            &&& 1 <= args.approval_threshold <= args.approvers@.len()
            &&& 1 <= args.cancellation_threshold <= args.approvers@.len()
        },
        before.name_hash@ != digest ==> r == Err::<(), ProgramError>(ProgramError::InvalidSeeds),
        before.name_hash@ == digest && r is Err && args.proposers@.len() <= 255
            && args.approvers@.len() <= 255 ==> r == Err::<(), ProgramError>(
            ProgramError::InvalidArgument,
        ),
        r is Err ==> after == before,
{
}

/// A new wallet has the given name and no proposals, and three intents, which
/// add, remove and update intents. Each of them lists exactly the given
/// proposers and approvers and has the given thresholds and timelock, so every
/// given proposer may propose.
pub proof fn new_wallets_are_as_asked_for(
    before: CreateWallet,
    after: CreateWallet,
    args: CreateWalletArgs<'_>,
    bumps: CreateWalletBumps,
    digest: Seq<u8>,
    r: Result<(), ProgramError>,
    i: int,
)
    requires
        after.creation_outcome(before, args, bumps, digest, r),
        r is Ok,
    ensures
        after.payer == before.payer,
        after.name_hash == before.name_hash,
        after.wallet.address == before.wallet.address,
        after.wallet.data.bump == bumps.wallet,
        after.wallet.data.proposal_index == 0,
        after.wallet.data.intent_index == 2,
        after.wallet.data.name_len == args.name@.len(),
        forall|j: int|
            0 <= j < args.name@.len() ==> #[trigger] after.wallet.data.name@[j] == args.name@[j],
        after.add_intent.address == before.add_intent.address,
        after.remove_intent.address == before.remove_intent.address,
        after.update_intent.address == before.update_intent.address,
        after.add_intent.data.intent_index == 0,
        after.remove_intent.data.intent_index == 1,
        after.update_intent.data.intent_index == 2,
        after.add_intent.data.intent_type == IntentType::AddIntent,
        after.remove_intent.data.intent_type == IntentType::RemoveIntent,
        after.update_intent.data.intent_type == IntentType::UpdateIntent,
        after.add_intent.data.bump == bumps.add_intent,
        after.remove_intent.data.bump == bumps.remove_intent,
        after.update_intent.data.bump == bumps.update_intent,
        forall|intent: Intent|
            intent == after.add_intent.data || intent == after.remove_intent.data || intent
                == after.update_intent.data ==> {
                &&& #[trigger] intent.wallet == after.wallet.address
                &&& intent.approved == 1
                &&& intent.approval_threshold == args.approval_threshold
                &&& intent.cancellation_threshold == args.cancellation_threshold
                &&& intent.timelock_seconds == args.timelock_seconds
                &&& intent.template_offset == 0
                &&& intent.template_len == 0
                &&& intent.active_proposal_count == 0
                &&& lists_exactly(intent.proposers@, args.proposers@)
                &&& lists_exactly(intent.approvers@, args.approvers@)
            },
        0 <= i < args.proposers@.len() ==> after.add_intent.data.proposers@.contains(
            Address { bytes: args.proposers@[i] },
        ) && after.remove_intent.data.proposers@.contains(Address { bytes: args.proposers@[i] })
            && after.update_intent.data.proposers@.contains(Address { bytes: args.proposers@[i] }),
{
    if 0 <= i < args.proposers@.len() {
        assert(after.add_intent.data.proposers@[i] == (Address { bytes: args.proposers@[i] }));
        assert(after.remove_intent.data.proposers@[i] == (Address { bytes: args.proposers@[i] }));
        assert(after.update_intent.data.proposers@[i] == (Address { bytes: args.proposers@[i] }));
    }
}

/// The addresses at which accounts are derive from fixed words and from what
/// the account belongs to: a wallet from the hash of its name, an intent from
/// its wallet and its index, a proposal from its intent and the eight bytes of
/// its index, and a vault from its wallet.
pub proof fn accounts_derive_from_what_they_belong_to(
    wallet: Seq<u8>,
    name_hash: Seq<u8>,
    intent: Seq<u8>,
    intent_index: u8,
    proposal_index: u64,
)
    ensures
        wallet_seeds(name_hash) == seq!["clear_wallet".spec_bytes(), name_hash],
        intent_seeds(wallet, intent_index) == seq![
            "intent".spec_bytes(),
            wallet,
            seq![intent_index],
        ],
        proposal_seeds(intent, proposal_index).len() == 3,
        proposal_seeds(intent, proposal_index)[0] == "proposal".spec_bytes(),
        proposal_seeds(intent, proposal_index)[1] == intent,
        proposal_seeds(intent, proposal_index)[2].len() == 8,
        crate::bytes::le_value(proposal_seeds(intent, proposal_index)[2]) == proposal_index,
        vault_seeds(wallet) == seq!["vault".spec_bytes(), wallet],
        program_address(vault_seeds(wallet)) == derived_address(
            seq!["vault".spec_bytes(), wallet],
            program_id_bytes(),
        ),
{
    crate::bytes::byte_capacities();
    crate::bytes::le_round_trip(proposal_index as nat, 8);
}

/// An account passes for a derived one exactly where it is at the derived
/// address, and its bump is the derived one.
pub proof fn derived_accounts_are_at_their_addresses(
    address: Address,
    found: Option<(Seq<u8>, u8)>,
)
    ensures
        seeds_bump(address, found) is Ok <==> found is Some && (found->0).0 == address@,
        seeds_bump(address, found) is Ok ==> seeds_bump(address, found)->Ok_0 == (found->0).1,
        found is Some && (found->0).0 != address@ ==> seeds_bump(address, found) == Err::<
            u8,
            ProgramError,
        >(ProgramError::ConstraintSeeds),
{
}

/// A wallet creation takes the wallet and the three intents only at their
/// derived addresses, with their derived bumps.
pub proof fn creations_take_derived_accounts(accounts: CreateWallet)
    ensures
        ({
            let wallet = accounts.wallet.address@;
            let w = derived_address(
                seq!["clear_wallet".spec_bytes(), accounts.name_hash@],
                program_id_bytes(),
            );
            let a = derived_address(
                seq!["intent".spec_bytes(), wallet, seq![0u8]],
                program_id_bytes(),
            );
            let b = derived_address(
                seq!["intent".spec_bytes(), wallet, seq![1u8]],
                program_id_bytes(),
            );
            let c = derived_address(
                seq!["intent".spec_bytes(), wallet, seq![2u8]],
                program_id_bytes(),
            );
            &&& creation_bumps(accounts) is Ok <==> {
                &&& w is Some && (w->0).0 == wallet
                &&& a is Some && (a->0).0 == accounts.add_intent.address@
                &&& b is Some && (b->0).0 == accounts.remove_intent.address@
                &&& c is Some && (c->0).0 == accounts.update_intent.address@
            }
            &&& creation_bumps(accounts) is Ok ==> creation_bumps(accounts)->Ok_0
                == (CreateWalletBumps {
                wallet: (w->0).1,
                add_intent: (a->0).1,
                remove_intent: (b->0).1,
                update_intent: (c->0).1,
            })
            &&& w is Some && a is Some && b is Some && c is Some && creation_bumps(accounts) is Err
                ==> creation_bumps(accounts) == Err::<CreateWalletBumps, ProgramError>(
                ProgramError::ConstraintSeeds,
            )
        }),
{
}

/// A proposer signs the words `propose`, the wallet's name, the proposal's index
/// and the content for the given parameters, and only one of the intent's
/// proposers does, for the wallet's next index and before the expiry. The
/// parameters of a custom intent have to pass the check.
pub proof fn proposers_sign_the_proposal(
    accounts: Propose,
    proposal_index: u64,
    expiry: i64,
    proposer: Address,
    params_data: Seq<u8>,
    now: i64,
)
    requires
        accounts.wf(),
    ensures
        ({
            let params = accounts.intent.data.params@;
            let message = signed_message(
                ContextView {
                    expiry,
                    action: "propose".spec_bytes(),
                    wallet_name: accounts.wallet.data.name@.subrange(
                        0,
                        accounts.wallet.data.name_len as int,
                    ),
                    proposal_index,
                },
                accounts.intent.data,
                params_data,
            );
            let allowed = {
                &&& proposal_index == accounts.wallet.data.proposal_index
                &&& now < expiry
                &&& exists|i: int|
                    0 <= i < accounts.intent.data.proposers@.len()
                        && #[trigger] accounts.intent.data.proposers@[i] == proposer
                &&& accounts.intent.data.intent_type == IntentType::Custom ==> checked_params(
                    params,
                    params_data,
                    params.len() as int,
                ) is Ok
            };
            let signed = accounts.to_sign(proposal_index, expiry, proposer, params_data, now);
            &&& allowed ==> signed == message
            &&& !allowed ==> signed is Err
            &&& proposal_index != accounts.wallet.data.proposal_index || expiry <= now ==> signed
                == Err::<Seq<u8>, ProgramError>(ProgramError::InvalidArgument)
            &&& proposal_index == accounts.wallet.data.proposal_index && now < expiry
                && !accounts.intent.data.proposers@.contains(proposer) ==> signed == Err::<
                Seq<u8>,
                ProgramError,
            >(ProgramError::MissingRequiredSignature)
        }),
{
    assert(accounts.wallet.data.name@.take(accounts.wallet.data.name_len as int)
        =~= accounts.wallet.data.name@.subrange(0, accounts.wallet.data.name_len as int));
    if accounts.intent.data.proposers@.contains(proposer) {
        let i = choose|i: int|
            0 <= i < accounts.intent.data.proposers@.len()
                && accounts.intent.data.proposers@[i] == proposer;
        assert(accounts.intent.data.proposers@[i] == proposer);
    }
}

/// A proposal is made exactly where the proposer's signature over the message is
/// valid, the parameters take at most 512 bytes, and neither the intent's count
/// nor the index is at its end.
pub proof fn signed_proposals_are_made(
    before: Propose,
    after: Propose,
    proposal_index: u64,
    expiry: i64,
    proposer: Address,
    signature: Seq<u8>,
    params_data: Seq<u8>,
    bump: u8,
    now: i64,
    r: Result<(), ProgramError>,
)
    requires
        after.proposal_outcome(
            before,
            proposal_index,
            expiry,
            proposer,
            signature,
            params_data,
            bump,
            now,
            r,
        ),
    ensures
        ({
            let message = before.to_sign(proposal_index, expiry, proposer, params_data, now);
            r is Ok <==> {
                &&& message is Ok
                &&& signature_valid(proposer@, signature, message->Ok_0)
                &&& params_data.len() <= 512
                &&& before.intent.data.active_proposal_count < 65535
                &&& proposal_index < 18446744073709551615
            }
        }),
        r is Err ==> after == before,
        ({
            let message = before.to_sign(proposal_index, expiry, proposer, params_data, now);
            &&& message is Err ==> r == Err::<(), ProgramError>(message->Err_0)
            &&& message is Ok && !signature_valid(proposer@, signature, message->Ok_0) ==> r
                == Err::<(), ProgramError>(ProgramError::InvalidArgument)
        }),
{
}

/// A new proposal is active and without votes, belongs to the wallet and the
/// intent, and has the given index, proposer, parameters and bump; its rent goes
/// back to the payer. The intent counts one more open proposal and the wallet
/// the next index; everything else stays.
pub proof fn proposals_are_recorded_as_made(
    before: Propose,
    after: Propose,
    proposal_index: u64,
    expiry: i64,
    proposer: Address,
    signature: Seq<u8>,
    params_data: Seq<u8>,
    bump: u8,
    now: i64,
    r: Result<(), ProgramError>,
)
    requires
        after.proposal_outcome(
            before,
            proposal_index,
            expiry,
            proposer,
            signature,
            params_data,
            bump,
            now,
            r,
        ),
        r is Ok,
    ensures
        after.payer == before.payer,
        after.proposal.address == before.proposal.address,
        after.proposal.data.wallet == before.wallet.address,
        after.proposal.data.intent == before.intent.address,
        after.proposal.data.proposal_index == proposal_index,
        after.proposal.data.proposer == proposer,
        after.proposal.data.status == ProposalStatus::Active,
        after.proposal.data.proposed_at == now,
        after.proposal.data.approved_at == 0,
        after.proposal.data.bump == bump,
        after.proposal.data.approval_bitmap == 0,
        after.proposal.data.cancellation_bitmap == 0,
        after.proposal.data.rent_refund == before.payer,
        after.proposal.data.params_data@ == params_data,
        after.wallet.address == before.wallet.address,
        after.wallet.data == (ClearWallet {
            proposal_index: after.wallet.data.proposal_index,
            ..before.wallet.data
        }),
        after.wallet.data.proposal_index == proposal_index + 1,
        after.intent.address == before.intent.address,
        after.intent.data == (Intent {
            active_proposal_count: after.intent.data.active_proposal_count,
            ..before.intent.data
        }),
        after.intent.data.active_proposal_count == before.intent.data.active_proposal_count + 1,
{
}

/// The accounts of a proposal are taken exactly where the intent is the
/// wallet's and approved, and the proposal is at the address that derives from
/// the intent and the wallet's next index.
pub proof fn proposals_are_for_approved_intents(accounts: Propose)
    ensures
        ({
            let found = program_address(
                proposal_seeds(accounts.intent.address@, accounts.wallet.data.proposal_index),
            );
            &&& proposal_bump(accounts) is Ok <==> {
                &&& accounts.intent.data.wallet == accounts.wallet.address
                &&& accounts.intent.data.approved != 0
                &&& found is Some
                &&& (found->0).0 == accounts.proposal.address@
            }
            &&& proposal_bump(accounts) is Ok ==> proposal_bump(accounts)->Ok_0 == (found->0).1
            &&& accounts.intent.data.wallet != accounts.wallet.address ==> proposal_bump(accounts)
                == Err::<u8, ProgramError>(ProgramError::ConstraintHasOne)
            &&& accounts.intent.data.wallet == accounts.wallet.address
                && accounts.intent.data.approved == 0 ==> proposal_bump(accounts) == Err::<
                u8,
                ProgramError,
            >(ProgramError::InvalidArgument)
        }),
{
}

/// An approver signs the word `approve`, the wallet's name, the proposal's index
/// and the content for the proposal's parameters; the approver's number has to
/// be one of the list, whose bit among the approvals is not set, and the expiry
/// has to lie ahead. All other votes are refused as invalid arguments.
pub proof fn approvers_sign_the_proposal(
    accounts: Approve,
    expiry: i64,
    approver_index: u8,
    now: i64,
)
    requires
        accounts.wallet.data.wf(),
        accounts.intent.data.wf(),
    ensures
        accounts.to_sign(expiry, approver_index, now) == if now < expiry && approver_index
            < accounts.intent.data.approvers@.len() && (accounts.proposal.data.approval_bitmap
            >> (approver_index as u16)) & 1u16 == 0u16 {
            signed_message(
                ContextView {
                    expiry,
                    action: "approve".spec_bytes(),
                    wallet_name: accounts.wallet.data.name@.subrange(
                        0,
                        accounts.wallet.data.name_len as int,
                    ),
                    proposal_index: accounts.proposal.data.proposal_index,
                },
                accounts.intent.data,
                accounts.proposal.data.params_data@,
            )
        } else {
            Err(ProgramError::InvalidArgument)
        },
{
    assert(accounts.wallet.data.name@.take(accounts.wallet.data.name_len as int)
        =~= accounts.wallet.data.name@.subrange(0, accounts.wallet.data.name_len as int));
    if approver_index < accounts.intent.data.approvers@.len() {
        lemma_bit(accounts.proposal.data.approval_bitmap, approver_index as u16);
    }
}

proof fn lemma_bit(bitmap: u16, i: u16)
    requires
        i < 16,
    ensures
        crate::state::proposal::votes(bitmap).contains(i as int) <==> (bitmap >> i) & 1u16 != 0u16,
{
    votes_are_bits(bitmap, i, 16);
    assert((bitmap >> i) & 1u16 == 0u16 || (bitmap >> i) & 1u16 == 1u16) by (bit_vector);
}

/// An approval is recorded exactly where the signature of the approver at that
/// index over the message is valid. It sets the approver's bit among the
/// approvals and clears it among the cancellations; the proposal is approved now
/// exactly where as many bits are set as the threshold asks for. Everything
/// else stays.
pub proof fn approvals_are_recorded_as_cast(
    before: Approve,
    after: Approve,
    expiry: i64,
    approver_index: u8,
    signature: Seq<u8>,
    now: i64,
    r: Result<(), ProgramError>,
)
    requires
        before.intent.data.wf(),
        after.approval_outcome(before, expiry, approver_index, signature, now, r),
    ensures
        r is Ok <==> {
            &&& before.to_sign(expiry, approver_index, now) is Ok
            &&& signature_valid(
                before.intent.data.approvers@[approver_index as int]@,
                signature,
                before.to_sign(expiry, approver_index, now)->Ok_0,
            )
        },
        r is Err ==> after == before,
        r is Ok ==> {
            let enough = ones(before.proposal.data.approval_bitmap | (1u16 << (
            approver_index as u16))) >= before.intent.data.approval_threshold;
            &&& after.wallet == before.wallet
            &&& after.intent == before.intent
            &&& after.proposal.address == before.proposal.address
            &&& after.proposal.data == (Proposal {
                approval_bitmap: before.proposal.data.approval_bitmap | (1u16 << (
                approver_index as u16)),
                cancellation_bitmap: before.proposal.data.cancellation_bitmap & !(1u16 << (
                approver_index as u16)),
                status: if enough {
                    ProposalStatus::Approved
                } else {
                    before.proposal.data.status
                },
                approved_at: if enough {
                    now
                } else {
                    before.proposal.data.approved_at
                },
                ..before.proposal.data
            })
        },
{
    if r is Ok {
        a_vote_sets_its_bit(
            before.proposal.data.approval_bitmap,
            after.proposal.data.approval_bitmap,
            approver_index,
        );
        a_vote_taken_back_clears_its_bit(
            before.proposal.data.cancellation_bitmap,
            after.proposal.data.cancellation_bitmap,
            approver_index,
        );
        votes_are_counted(after.proposal.data.approval_bitmap);
    }
}

/// The accounts of an approval are taken exactly where the intent is the
/// wallet's and approved, and the proposal is theirs and active.
pub proof fn approvals_are_for_active_proposals(accounts: Approve)
    ensures
        approval_refusal(accounts) is None <==> {
            &&& accounts.intent.data.wallet == accounts.wallet.address
            &&& accounts.intent.data.approved != 0
            &&& accounts.proposal.data.wallet == accounts.wallet.address
            &&& accounts.proposal.data.intent == accounts.intent.address
            &&& accounts.proposal.data.status == ProposalStatus::Active
        },
        approval_refusal(accounts) is Some ==> approval_refusal(accounts)->0 == if (
        accounts.intent.data.wallet != accounts.wallet.address || (accounts.intent.data.approved
            != 0 && (accounts.proposal.data.wallet != accounts.wallet.address
            || accounts.proposal.data.intent != accounts.intent.address))) {
            ProgramError::ConstraintHasOne
        } else {
            ProgramError::InvalidArgument
        },
{
}

/// A canceller signs the word `cancel`, the wallet's name, the proposal's index
/// and the content for the proposal's parameters; the number has to be one of
/// the list of approvers, whose bit among the cancellations is not set, and the
/// expiry has to lie ahead. All other votes are refused as invalid arguments.
pub proof fn cancellers_sign_the_proposal(
    accounts: Cancel,
    expiry: i64,
    canceller_index: u8,
    now: i64,
)
    requires
        accounts.wallet.data.wf(),
        accounts.intent.data.wf(),
    ensures
        accounts.to_sign(expiry, canceller_index, now) == if now < expiry && canceller_index
            < accounts.intent.data.approvers@.len() && (accounts.proposal.data.cancellation_bitmap
            >> (canceller_index as u16)) & 1u16 == 0u16 {
            signed_message(
                ContextView {
                    expiry,
                    action: "cancel".spec_bytes(),
                    wallet_name: accounts.wallet.data.name@.subrange(
                        0,
                        accounts.wallet.data.name_len as int,
                    ),
                    proposal_index: accounts.proposal.data.proposal_index,
                },
                accounts.intent.data,
                accounts.proposal.data.params_data@,
            )
        } else {
            Err(ProgramError::InvalidArgument)
        },
{
    assert(accounts.wallet.data.name@.take(accounts.wallet.data.name_len as int)
        =~= accounts.wallet.data.name@.subrange(0, accounts.wallet.data.name_len as int));
    if canceller_index < accounts.intent.data.approvers@.len() {
        lemma_bit(accounts.proposal.data.cancellation_bitmap, canceller_index as u16);
    }
}

/// A cancellation is recorded exactly where the signature of the approver at
/// that index over the message is valid. It sets the bit among the
/// cancellations and clears it among the approvals. With as many cancellations
/// as the threshold asks for, the proposal is cancelled and the intent counts
/// one open proposal less; else, with fewer approvals than their threshold, it
/// is active. Everything else stays.
pub proof fn cancellations_are_recorded_as_cast(
    before: Cancel,
    after: Cancel,
    expiry: i64,
    canceller_index: u8,
    signature: Seq<u8>,
    now: i64,
    r: Result<(), ProgramError>,
)
    requires
        before.intent.data.wf(),
        after.cancellation_outcome(before, expiry, canceller_index, signature, now, r),
    ensures
        r is Ok <==> {
            &&& before.to_sign(expiry, canceller_index, now) is Ok
            &&& signature_valid(
                before.intent.data.approvers@[canceller_index as int]@,
                signature,
                before.to_sign(expiry, canceller_index, now)->Ok_0,
            )
        },
        r is Err ==> after == before,
        r is Ok ==> {
            let approvals = before.proposal.data.approval_bitmap & !(1u16 << (
            canceller_index as u16));
            let cancellations = before.proposal.data.cancellation_bitmap | (1u16 << (
            canceller_index as u16));
            let ended = ones(cancellations) >= before.intent.data.cancellation_threshold;
            &&& after.wallet == before.wallet
            &&& after.proposal.address == before.proposal.address
            &&& after.proposal.data == (Proposal {
                approval_bitmap: approvals,
                cancellation_bitmap: cancellations,
                status: if ended {
                    ProposalStatus::Cancelled
                } else if ones(approvals) < before.intent.data.approval_threshold {
                    ProposalStatus::Active
                } else {
                    before.proposal.data.status
                },
                ..before.proposal.data
            })
            &&& after.intent.address == before.intent.address
            &&& after.intent.data == (Intent {
                active_proposal_count: after.intent.data.active_proposal_count,
                ..before.intent.data
            })
            &&& after.intent.data.active_proposal_count == if ended
                && before.intent.data.active_proposal_count > 0 {
                before.intent.data.active_proposal_count - 1
            } else {
                before.intent.data.active_proposal_count as int
            }
        },
{
    if r is Ok {
        a_vote_sets_its_bit(
            before.proposal.data.cancellation_bitmap,
            after.proposal.data.cancellation_bitmap,
            canceller_index,
        );
        a_vote_taken_back_clears_its_bit(
            before.proposal.data.approval_bitmap,
            after.proposal.data.approval_bitmap,
            canceller_index,
        );
        votes_are_counted(after.proposal.data.approval_bitmap);
        votes_are_counted(after.proposal.data.cancellation_bitmap);
    }
}

/// The accounts of a cancellation are taken exactly where the intent is the
/// wallet's and the proposal is theirs, and is active or approved.
pub proof fn cancellations_are_for_open_proposals(accounts: Cancel)
    ensures
        cancellation_refusal(accounts) is None <==> {
            &&& accounts.intent.data.wallet == accounts.wallet.address
            &&& accounts.proposal.data.wallet == accounts.wallet.address
            &&& accounts.proposal.data.intent == accounts.intent.address
            &&& accounts.proposal.data.status == ProposalStatus::Active
                || accounts.proposal.data.status == ProposalStatus::Approved
        },
        cancellation_refusal(accounts) is Some ==> cancellation_refusal(accounts)->0 == if (
        accounts.intent.data.wallet != accounts.wallet.address || accounts.proposal.data.wallet
            != accounts.wallet.address || accounts.proposal.data.intent
            != accounts.intent.address) {
            ProgramError::ConstraintHasOne
        } else {
            ProgramError::InvalidArgument
        },
{
}

/// The accounts of an execution are taken exactly where the vault is at its
/// derived address, the intent is the wallet's, and the proposal is theirs and
/// approved.
pub proof fn executions_are_of_approved_proposals(accounts: Execute)
    ensures
        ({
            let found = derived_address(
                seq!["vault".spec_bytes(), accounts.wallet.address@],
                program_id_bytes(),
            );
            &&& execution_bump(accounts) is Ok <==> {
                &&& found is Some
                &&& (found->0).0 == accounts.vault.address@
                &&& accounts.intent.data.wallet == accounts.wallet.address
                &&& accounts.proposal.data.wallet == accounts.wallet.address
                &&& accounts.proposal.data.intent == accounts.intent.address
                &&& accounts.proposal.data.status == ProposalStatus::Approved
            }
            &&& execution_bump(accounts) is Ok ==> execution_bump(accounts)->Ok_0 == (found->0).1
            &&& execution_bump(accounts) is Err ==> execution_bump(accounts)->Err_0
                == if found is None {
                ProgramError::ProgramFailedToComplete
            } else if (found->0).0 != accounts.vault.address@ {
                ProgramError::ConstraintSeeds
            } else if accounts.intent.data.wallet != accounts.wallet.address
                || accounts.proposal.data.wallet != accounts.wallet.address
                || accounts.proposal.data.intent != accounts.intent.address {
                ProgramError::ConstraintHasOne
            } else {
                ProgramError::InvalidArgument
            }
        }),
{
}

/// Before its timelock has passed since the approval, a proposal is refused as
/// an invalid argument; from then on the timelock refuses nothing: what is done
/// no longer depends on the time. A timelock that ends after the last second
/// there is overflows.
pub proof fn timelocks_only_delay(
    accounts: Execute,
    remaining: Seq<AccountView>,
    loaded: Result<Intent, ProgramError>,
    bump: u8,
    now: i64,
    later: i64,
)
    ensures
        accounts.unlock_at() == accounts.proposal.data.approved_at
            + accounts.intent.data.timelock_seconds,
        accounts.unlock_at() > i64::MAX ==> accounts.outcome(remaining, loaded, bump, now) == Err::<
            ExecutionView,
            ProgramError,
        >(ProgramError::ArithmeticOverflow),
        accounts.unlock_at() <= i64::MAX && now < accounts.proposal.data.approved_at
            + accounts.intent.data.timelock_seconds ==> accounts.outcome(remaining, loaded, bump, now) == Err::<
            ExecutionView,
            ProgramError,
        >(ProgramError::InvalidArgument),
        accounts.proposal.data.approved_at + accounts.intent.data.timelock_seconds <= now <= later
            ==> accounts.outcome(remaining, loaded, bump, now) == accounts.outcome(
            remaining,
            loaded,
            bump,
            later,
        ),
{
}

/// After an execution the proposal is executed, the intent counts one open
/// proposal less, and the wallet counts an intent that was added; everything
/// else stays. A refused execution changes nothing.
pub proof fn executions_are_recorded(
    before: Execute,
    after: Execute,
    remaining: Seq<AccountView>,
    loaded: Result<Intent, ProgramError>,
    bump: u8,
    now: i64,
    r: Result<crate::instructions::execute::Execution, ProgramError>,
)
    requires
        after.execution_outcome(before, remaining, loaded, bump, now, r),
    ensures
        r is Err ==> after == before,
        r is Ok ==> {
            &&& before.outcome(remaining, loaded, bump, now) == Ok::<ExecutionView, ProgramError>(
                r->Ok_0@,
            )
            &&& after.proposal.address == before.proposal.address
            &&& after.proposal.data == (Proposal {
                status: ProposalStatus::Executed,
                ..before.proposal.data
            })
            &&& after.intent.address == before.intent.address
            &&& after.intent.data == (Intent {
                active_proposal_count: after.intent.data.active_proposal_count,
                ..before.intent.data
            })
            &&& before.intent.data.active_proposal_count > 0
                ==> after.intent.data.active_proposal_count
                == before.intent.data.active_proposal_count - 1
            &&& before.intent.data.active_proposal_count == 0
                ==> after.intent.data.active_proposal_count == 0
            &&& after.wallet.address == before.wallet.address
            &&& after.wallet.data == (ClearWallet {
                intent_index: after.wallet.data.intent_index,
                ..before.wallet.data
            })
            &&& before.intent.data.intent_type == IntentType::AddIntent
                ==> after.wallet.data.intent_index == before.wallet.data.intent_index + 1
            &&& before.intent.data.intent_type != IntentType::AddIntent
                ==> after.wallet.data.intent_index == before.wallet.data.intent_index
            &&& after.wallet_view == before.wallet_view
            &&& after.vault == before.vault
            &&& after.system_program == before.system_program
        },
{
}

/// An intent is added exactly where the wallet has room for one more, two
/// accounts are passed, the first signs, and the second is at the address that
/// derives from the wallet and the next index. The first pays; the new account
/// holds the discriminator, then the proposal's parameters, then zeros.
pub proof fn added_intents_hold_the_parameters(
    accounts: Execute,
    remaining: Seq<AccountView>,
    loaded: Result<Intent, ProgramError>,
    bump: u8,
    now: i64,
)
    requires
        accounts.intent.data.intent_type == IntentType::AddIntent,
        accounts.unlock_at() <= now,
        accounts.proposal.data.params_data@.len() <= 512,
    ensures
        ({
            let outcome = accounts.outcome(remaining, loaded, bump, now);
            let found = derived_address(
                seq![
                    "intent".spec_bytes(),
                    accounts.wallet.address@,
                    seq![(accounts.wallet.data.intent_index + 1) as u8],
                ],
                program_id_bytes(),
            );
            let hash = sha256_digest("account:Intent".spec_bytes());
            let params = accounts.proposal.data.params_data@;
            &&& outcome is Ok <==> {
                &&& accounts.wallet.data.intent_index < 255
                &&& found is Some
                &&& remaining.len() >= 2
                &&& remaining[0].is_signer
                &&& remaining[1].address@ == (found->0).0
            }
            &&& accounts.wallet.data.intent_index == 255 ==> outcome == Err::<
                ExecutionView,
                ProgramError,
            >(ProgramError::InvalidArgument)
            &&& accounts.wallet.data.intent_index < 255 && found is Some && outcome is Err
                ==> outcome == Err::<ExecutionView, ProgramError>(
                if remaining.len() < 2 {
                    ProgramError::NotEnoughAccountKeys
                } else if !remaining[0].is_signer {
                    ProgramError::MissingRequiredSignature
                } else {
                    ProgramError::InvalidSeeds
                },
            )
            &&& outcome is Ok && hash.len() == 32 ==> (outcome->Ok_0 matches
                ExecutionView::CreateIntent { payer, address, intent_index, bump: b, data } && {
                &&& payer == remaining[0].address
                &&& address == (found->0).0
                &&& intent_index == accounts.wallet.data.intent_index + 1
                &&& b == (found->0).1
                &&& data.len() == 8 + INTENT_SIZE
                &&& forall|i: int| 0 <= i < 8 ==> #[trigger] data[i] == hash[i]
                &&& forall|i: int|
                    8 <= i < 8 + params.len() ==> #[trigger] data[i] == params[i - 8]
                &&& forall|i: int| 8 + params.len() <= i < data.len() ==> #[trigger] data[i] == 0
            })
        }),
{
    let hash = sha256_digest("account:Intent".spec_bytes());
    let params = accounts.proposal.data.params_data@;
    if hash.len() == 32 {
        let data = new_intent_data(hash, params);
        assert(params.take(params.len() as int) =~= params);
        assert(data.len() == 8 + INTENT_SIZE);
    }
}

/// An intent may be modified exactly where it is at the expected address, is
/// writable, loads, and has no open proposals, and it is the one that loaded.
pub proof fn idle_intents_may_be_modified(
    view: AccountView,
    expected: Option<Seq<u8>>,
    loaded: Result<Intent, ProgramError>,
)
    ensures
        modifiable(view, expected, loaded) is Ok <==> {
            &&& expected == Some(view.address@)
            &&& view.is_writable
            &&& loaded is Ok
            &&& loaded->Ok_0.active_proposal_count == 0
        },
        modifiable(view, expected, loaded) is Ok ==> modifiable(view, expected, loaded) == loaded,
        expected is Some && expected->0 != view.address@ ==> modifiable(view, expected, loaded)
            == Err::<Intent, ProgramError>(ProgramError::InvalidSeeds),
        expected == Some(view.address@) && !view.is_writable ==> modifiable(view, expected, loaded)
            == Err::<Intent, ProgramError>(ProgramError::Immutable),
        expected == Some(view.address@) && view.is_writable && loaded is Err ==> modifiable(
            view,
            expected,
            loaded,
        ) == loaded,
        expected == Some(view.address@) && view.is_writable && loaded is Ok
            && loaded->Ok_0.active_proposal_count > 0 ==> modifiable(view, expected, loaded)
            == Err::<Intent, ProgramError>(ProgramError::InvalidArgument),
{
}

/// An intent is removed exactly where the parameters are one byte, its index, an
/// account is passed, and the first is the wallet's intent with that index, is
/// writable, loads and has no open proposals. It is then written back
/// unapproved, and otherwise as it was.
pub proof fn removed_intents_are_unapproved(
    accounts: Execute,
    remaining: Seq<AccountView>,
    loaded: Result<Intent, ProgramError>,
    bump: u8,
    now: i64,
)
    requires
        accounts.intent.data.intent_type == IntentType::RemoveIntent,
        accounts.unlock_at() <= now,
    ensures
        ({
            let outcome = accounts.outcome(remaining, loaded, bump, now);
            let params = accounts.proposal.data.params_data@;
            let found = derived_address(
                seq!["intent".spec_bytes(), accounts.wallet.address@, seq![params[0]]],
                program_id_bytes(),
            );
            &&& outcome is Ok <==> {
                &&& params.len() == 1
                &&& remaining.len() >= 1
                &&& found is Some
                &&& (found->0).0 == remaining[0].address@
                &&& remaining[0].is_writable
                &&& loaded is Ok
                &&& loaded->Ok_0.active_proposal_count == 0
            }
            &&& params.len() != 1 ==> outcome == Err::<ExecutionView, ProgramError>(
                ProgramError::InvalidInstructionData,
            )
            &&& params.len() == 1 && remaining.len() == 0 ==> outcome == Err::<
                ExecutionView,
                ProgramError,
            >(ProgramError::NotEnoughAccountKeys)
            &&& outcome is Ok ==> outcome->Ok_0 == (ExecutionView::WriteIntent {
                intent: Intent { approved: 0, ..loaded->Ok_0 },
            })
        }),
{
}

/// An update with anything but an index and one whole body is malformed, and one
/// without an account misses it; an intent that may not be modified is refused
/// for its reason.
pub proof fn updates_are_refused_for_their_reasons(
    accounts: Execute,
    remaining: Seq<AccountView>,
    loaded: Result<Intent, ProgramError>,
    bump: u8,
    now: i64,
)
    requires
        accounts.intent.data.intent_type == IntentType::UpdateIntent,
        accounts.unlock_at() <= now,
    ensures
        ({
            let outcome = accounts.outcome(remaining, loaded, bump, now);
            let params = accounts.proposal.data.params_data@;
            let found = derived_address(
                seq!["intent".spec_bytes(), accounts.wallet.address@, seq![params[0]]],
                program_id_bytes(),
            );
            outcome is Err ==> outcome->Err_0 == if params.len() != 1 + 5964 {
                ProgramError::InvalidInstructionData
            } else if remaining.len() == 0 {
                ProgramError::NotEnoughAccountKeys
            } else if found is None {
                ProgramError::ProgramFailedToComplete
            } else if (found->0).0 != remaining[0].address@ {
                ProgramError::InvalidSeeds
            } else if !remaining[0].is_writable {
                ProgramError::Immutable
            } else if loaded is Err {
                loaded->Err_0
            } else {
                ProgramError::InvalidArgument
            }
        }),
{
}

/// A custom intent runs its instructions, and nothing else, with the vault's
/// bump, on the parameters of the proposal and the declared accounts: the
/// vault, the system program and the wallet.
pub proof fn custom_intents_run_their_instructions(
    accounts: Execute,
    remaining: Seq<AccountView>,
    loaded: Result<Intent, ProgramError>,
    bump: u8,
    now: i64,
)
    requires
        accounts.intent.data.intent_type == IntentType::Custom,
        accounts.unlock_at() <= now,
        accounts.unlock_at() <= i64::MAX,
    ensures
        accounts.unlock_at() == accounts.proposal.data.approved_at
            + accounts.intent.data.timelock_seconds,
        ({
            let instructions = custom_instructions(
                accounts.intent.data,
                accounts.proposal.data.params_data@,
                seq![accounts.vault, accounts.system_program, accounts.wallet_view],
                remaining,
            );
            accounts.outcome(remaining, loaded, bump, now) == match instructions {
                Ok(list) => Ok::<ExecutionView, ProgramError>(
                    ExecutionView::Invoke { vault_bump: bump, instructions: list },
                ),
                Err(e) => Err(e),
            }
        }),
{
}

/// With the refund account that the proposal names, a cleanup succeeds exactly
/// where the proposal is executed or cancelled; with another it never does.
pub proof fn finished_proposals_can_be_cleaned_up(accounts: CleanupProposal)
    ensures
        cleanup_refusal(accounts) is None <==> {
            &&& accounts.rent_refund == accounts.proposal.data.rent_refund
            &&& accounts.proposal.data.status == ProposalStatus::Executed
                || accounts.proposal.data.status == ProposalStatus::Cancelled
        },
        accounts.rent_refund != accounts.proposal.data.rent_refund ==> cleanup_refusal(accounts)
            == Some(ProgramError::ConstraintHasOne),
        accounts.rent_refund == accounts.proposal.data.rent_refund && cleanup_refusal(
            accounts,
        ) is Some ==> cleanup_refusal(accounts) == Some(ProgramError::InvalidArgument),
{
}

/// What accounts can hold: sixteen proposers and approvers, eight parameters,
/// 32 accounts, twelve instructions, 32 data segments and seeds, 4096 bytes in
/// the pool; 64 bytes of name, which are text.
pub proof fn accounts_have_their_capacities(intent: Intent, wallet: ClearWallet)
    ensures
        intent.wf() <==> {
            &&& intent.proposers@.len() <= 16
            &&& intent.approvers@.len() <= 16
            &&& intent.params@.len() <= 8
            &&& intent.accounts@.len() <= 32
            &&& intent.instructions@.len() <= 12
            &&& intent.data_segments@.len() <= 32
            &&& intent.seeds@.len() <= 32
            &&& intent.byte_pool@.len() <= 4096
        },
        wallet.wf() <==> wallet.name_len <= 64 && valid_utf8(
            wallet.name@.subrange(0, wallet.name_len as int),
        ),
{
    assert(wallet.name@.take(wallet.name_len as int) =~= wallet.name@.subrange(
        0,
        wallet.name_len as int,
    ));
}

} // verus!
