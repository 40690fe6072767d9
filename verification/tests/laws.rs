//! What holds of the program as a whole, on some values.
use clear_msig::accounts::Account;
use clear_msig::address::Address;
use clear_msig::client::{
    append_create_wallet_args, append_propose_args, append_vote_args, ed25519_keypair_from_label,
    ed25519_pubkey, remove_intent_msg, sign_message, ProgramKind, SigningKey,
};
use clear_msig::error::ProgramError;
use clear_msig::instructions::approve::{Approve, ApproveArgs};
use clear_msig::instructions::cancel::{Cancel, CancelArgs};
use clear_msig::instructions::propose::{Propose, ProposeArgs, ProposeBumps};
use clear_msig::state::intent::{Intent, IntentType};
use clear_msig::state::proposal::{Proposal, ProposalStatus};
use clear_msig::state::wallet::ClearWallet;
use clear_msig::utils::message::{MessageBuilder, MessageContext};

const EXPIRY: i64 = 2_000_000_000;
const NOW: i64 = 1_900_000_000;
const REFUSED: Result<(), ProgramError> = Err(ProgramError::InvalidArgument);

fn address(n: u8) -> Address {
    Address::new_from_array([n; 32])
}

fn key(n: usize) -> SigningKey {
    ed25519_keypair_from_label(["first", "second", "third"][n])
}

fn intent(intent_type: IntentType) -> Account<Intent> {
    let members: Vec<Address> =
        (0..3).map(|n| Address::new_from_array(ed25519_pubkey(&key(n)))).collect();
    let data = Intent {
        wallet: address(1),
        bump: 0,
        intent_index: 1,
        intent_type,
        approved: 1,
        approval_threshold: 2,
        cancellation_threshold: 2,
        timelock_seconds: 0,
        template_offset: 0,
        template_len: 0,
        active_proposal_count: 0,
        proposers: members.clone(),
        approvers: members,
        params: vec![],
        accounts: vec![],
        instructions: vec![],
        data_segments: vec![],
        seeds: vec![],
        byte_pool: vec![],
    };
    Account { address: address(2), data }
}

fn wallet() -> Account<ClearWallet> {
    let mut name = [0u8; 64];
    name[..5].copy_from_slice(b"vault");
    let data = ClearWallet { bump: 0, proposal_index: 0, intent_index: 2, name_len: 5, name };
    Account { address: address(1), data }
}

fn proposal(params_data: Vec<u8>) -> Account<Proposal> {
    let data = Proposal {
        wallet: address(1),
        intent: address(2),
        proposal_index: 0,
        proposer: address(0),
        status: ProposalStatus::Active,
        proposed_at: 0,
        approved_at: 0,
        bump: 0,
        approval_bitmap: 0,
        cancellation_bitmap: 0,
        rent_refund: address(0),
        params_data,
    };
    Account { address: address(3), data }
}

fn message(ctx: &MessageContext<'_>, intent_type: IntentType, data: &[u8]) -> Vec<u8> {
    let mut builder = MessageBuilder::new();
    builder.build_message_for_intent(ctx, &intent(intent_type).data, data).unwrap();
    builder.as_bytes().to_vec()
}

#[test]
fn messages_of_different_changes_differ() {
    let mut messages: Vec<Vec<u8>> = vec![];
    for action in ["propose", "approve", "cancel"] {
        for expiry in [0, 1, EXPIRY] {
            for wallet_name in ["vault", "vault2", "v proposal: 1"] {
                for proposal_index in [1, 11] {
                    let ctx = MessageContext { expiry, action, wallet_name, proposal_index };
                    messages.push(message(&ctx, IntentType::AddIntent, &[1]));
                    messages.push(message(&ctx, IntentType::AddIntent, &[2]));
                    messages.push(message(&ctx, IntentType::RemoveIntent, &[1]));
                    messages.push(message(&ctx, IntentType::RemoveIntent, &[11]));
                    messages.push(message(&ctx, IntentType::UpdateIntent, &[1, 1]));
                    messages.push(message(&ctx, IntentType::UpdateIntent, &[1, 2]));
                    messages.push(message(&ctx, IntentType::UpdateIntent, &[11, 1]));
                }
            }
        }
    }
    let count = messages.len();
    messages.sort();
    messages.dedup();
    assert_eq!(messages.len(), count);
    assert_eq!(count, 3 * 3 * 3 * 2 * 7);
}

#[test]
fn client_and_program_write_the_same_removal() {
    let ctx = MessageContext {
        expiry: EXPIRY,
        action: "cancel",
        wallet_name: "vault",
        proposal_index: u64::MAX,
    };
    assert_eq!(
        message(&ctx, IntentType::RemoveIntent, &[255]),
        remove_intent_msg("cancel", EXPIRY, "vault", u64::MAX, 255)
    );
}

#[test]
fn votes_count_once_and_with_the_right_signature() {
    let approval = remove_intent_msg("approve", EXPIRY, "vault", 0, 9);
    let cancellation = remove_intent_msg("cancel", EXPIRY, "vault", 0, 9);
    let mut a = Approve {
        wallet: wallet(),
        intent: intent(IntentType::RemoveIntent),
        proposal: proposal(vec![9]),
    };
    a.intent.data.active_proposal_count = 1;
    let vote = |a: &mut Approve, index: u8, signer: usize, expiry: i64, now: i64| {
        let signature = sign_message(&key(signer), &approval);
        a.approve(ApproveArgs { expiry, approver_index: index, signature: &signature }, now)
    };
    // Another approver's key, another expiry, an expired message, no approver.
    assert_eq!(vote(&mut a, 0, 1, EXPIRY, NOW), REFUSED);
    assert_eq!(vote(&mut a, 0, 0, EXPIRY + 1, NOW), REFUSED);
    assert_eq!(vote(&mut a, 0, 0, EXPIRY, EXPIRY), REFUSED);
    assert_eq!(vote(&mut a, 3, 0, EXPIRY, NOW), REFUSED);
    assert_eq!(a.proposal.data.approval_count(), 0);

    assert_eq!(vote(&mut a, 0, 0, EXPIRY, NOW), Ok(()));
    assert_eq!(vote(&mut a, 0, 0, EXPIRY, NOW), REFUSED);
    assert_eq!(a.proposal.data.approval_count(), 1);
    assert_eq!(a.proposal.data.status, ProposalStatus::Active);
    assert_eq!(vote(&mut a, 2, 2, EXPIRY, NOW), Ok(()));
    assert_eq!(a.proposal.data.status, ProposalStatus::Approved);

    let mut c = Cancel { wallet: a.wallet, intent: a.intent, proposal: a.proposal };
    let vote = |c: &mut Cancel, index: u8, signer: usize, text: &[u8]| {
        let signature = sign_message(&key(signer), text);
        let args = CancelArgs { expiry: EXPIRY, canceller_index: index, signature: &signature };
        c.cancel(args, NOW)
    };
    // A signature for an approval, and another approver's.
    assert_eq!(vote(&mut c, 0, 0, &approval), REFUSED);
    assert_eq!(vote(&mut c, 0, 1, &cancellation), REFUSED);
    assert_eq!(vote(&mut c, 0, 0, &cancellation), Ok(()));
    assert_eq!(c.proposal.data.status, ProposalStatus::Active);
    assert_eq!((c.proposal.data.approval_count(), c.proposal.data.cancellation_count()), (1, 1));
    assert_eq!(vote(&mut c, 0, 0, &cancellation), REFUSED);
    assert_eq!(c.proposal.data.cancellation_count(), 1);
    assert_eq!(vote(&mut c, 1, 1, &cancellation), Ok(()));
    assert_eq!(c.proposal.data.status, ProposalStatus::Cancelled);
    assert_eq!(c.intent.data.active_proposal_count, 0);
}

#[test]
fn an_intent_counts_its_open_proposals() {
    let mut p = Propose {
        payer: address(5),
        wallet: wallet(),
        intent: intent(IntentType::RemoveIntent),
        proposal: proposal(vec![]),
    };
    let proposer = ed25519_pubkey(&key(0));
    let propose = |p: &mut Propose, index: u64| {
        let text = remove_intent_msg("propose", EXPIRY, "vault", index, 9);
        let signature = sign_message(&key(0), &text);
        let args = ProposeArgs {
            expiry: EXPIRY,
            proposer_pubkey: &proposer,
            signature: &signature,
            params_data: &[9],
        };
        p.propose(index, args, &ProposeBumps { proposal: 4 }, NOW)
    };
    for index in 0..3 {
        assert_eq!(propose(&mut p, index), Ok(()));
        assert_eq!(p.intent.data.active_proposal_count as u64, index + 1);
        assert_eq!(p.wallet.data.proposal_index, index + 1);
        assert_eq!(p.proposal.data.status, ProposalStatus::Active);
        assert_eq!(p.proposal.data.proposal_index, index);
        // The index is used.
        assert_eq!(propose(&mut p, index), REFUSED);
    }

    // The last of them is approved, and then cancelled.
    let mut a = Approve { wallet: p.wallet, intent: p.intent, proposal: p.proposal };
    assert_eq!(a.apply_approval(0, true, NOW), Ok(()));
    assert_eq!(a.apply_approval(1, true, NOW), Ok(()));
    assert_eq!(a.proposal.data.status, ProposalStatus::Approved);
    assert_eq!(a.intent.data.active_proposal_count, 3);
    let mut c = Cancel { wallet: a.wallet, intent: a.intent, proposal: a.proposal };
    assert_eq!(c.apply_cancellation(1, true), Ok(()));
    assert_eq!(c.proposal.data.status, ProposalStatus::Active);
    assert_eq!(c.intent.data.active_proposal_count, 3);
    assert_eq!(c.apply_cancellation(2, true), Ok(()));
    assert_eq!(c.proposal.data.status, ProposalStatus::Cancelled);
    assert_eq!(c.intent.data.active_proposal_count, 2);
}

#[test]
fn arguments_that_differ_are_written_differently() {
    let mut votes: Vec<Vec<u8>> = vec![];
    for (expiry, index, signature) in
        [(1, 2, [3u8; 64]), (-1, 2, [3; 64]), (1, 3, [3; 64]), (1, 2, [4; 64])]
    {
        let mut data = vec![];
        append_vote_args(&mut data, expiry, index, &signature);
        votes.push(data);
    }
    votes.sort();
    votes.dedup();
    assert_eq!(votes.len(), 4);

    for kind in [ProgramKind::AnchorV2, ProgramKind::Quasar] {
        let mut proposals: Vec<Vec<u8>> = vec![];
        for params in [&b""[..], b"a", b"b", b"ab"] {
            let mut data = vec![];
            append_propose_args(&mut data, kind, 7, 1, &[2; 32], &[3; 64], params);
            proposals.push(data);
        }
        proposals.sort();
        proposals.dedup();
        assert_eq!(proposals.len(), 4);

        let mut creations: Vec<Vec<u8>> = vec![];
        let keys = [[1u8; 32], [2; 32], [3; 32]];
        for n in 0..4 {
            let mut data = vec![];
            let (proposers, approvers) = keys.split_at(n);
            append_create_wallet_args(&mut data, kind, 1, 1, 0, b"name", proposers, approvers);
            creations.push(data);
        }
        creations.sort();
        creations.dedup();
        assert_eq!(creations.len(), 4);
    }
}
