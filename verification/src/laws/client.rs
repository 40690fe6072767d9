//! Laws on what a client sends: instruction data byte by byte, the accounts in
//! their order, and the steps of the benchmark.
use crate::bench::{InstructionView, WalletSetup};
use crate::bytes::{byte_capacities, le_bytes, le_round_trip, le_value};
use crate::client::{
    context, create_wallet_args, discriminator_bytes, key_bytes, key_views, propose_args,
    vote_args, ProgramKind,
};
use crate::crypto::{derived_address, ed25519_public_key, ed25519_signature, sha256_digest};
use crate::metas::{
    cleanup_list, create_wallet_accounts, create_wallet_list, execute_list, propose_list,
    vote_list, MetaView,
};
use crate::pda::program_id_bytes;
use crate::utils::message::{message_text, offchain_message, ContextView};
use vstd::prelude::*;
use vstd::string::StringSliceAdditionalSpecFns;

verus! {

/// The discriminator of an Anchor instruction is the first eight bytes of the
/// hash of `global:` and its name.
pub proof fn anchor_discriminators_are_hashes(name: &str, i: int)
    requires
        sha256_digest("global:".spec_bytes() + name.spec_bytes()).len() == 32,
        0 <= i < 8,
    ensures
        discriminator_bytes(ProgramKind::AnchorV2, name).len() == 8,
        discriminator_bytes(ProgramKind::AnchorV2, name)[i] == sha256_digest(
            "global:".spec_bytes() + name.spec_bytes(),
        )[i],
{
}

/// The discriminator of a Quasar instruction is its number.
pub proof fn quasar_discriminators_are_their_numbers()
    ensures
        discriminator_bytes(ProgramKind::Quasar, "create_wallet") == seq![0u8],
        discriminator_bytes(ProgramKind::Quasar, "propose") == seq![1u8],
        discriminator_bytes(ProgramKind::Quasar, "approve") == seq![2u8],
        discriminator_bytes(ProgramKind::Quasar, "cancel") == seq![3u8],
        discriminator_bytes(ProgramKind::Quasar, "execute") == seq![4u8],
        discriminator_bytes(ProgramKind::Quasar, "cleanup_proposal") == seq![5u8],
{
    crate::client::quasar_numbers();
}

/// Keys lie one behind the other, 32 bytes each.
pub proof fn keys_lie_one_behind_the_other(keys: Seq<[u8; 32]>, i: int, j: int)
    requires
        0 <= i < keys.len(),
        0 <= j < 32,
    ensures
        key_bytes(key_views(keys)).len() == 32 * keys.len(),
        key_bytes(key_views(keys))[32 * i + j] == keys[i]@[j],
    decreases keys.len(),
{
    let front = keys.drop_last();
    assert(key_views(keys).drop_last() =~= key_views(front));
    assert(key_views(keys).last() == keys.last()@);
    if i < keys.len() - 1 {
        keys_lie_one_behind_the_other(front, i, j);
    } else if keys.len() > 1 {
        keys_lie_one_behind_the_other(front, 0, 0);
    } else {
        assert(key_bytes(key_views(front)) =~= Seq::empty());
    }
}

proof fn lemma_keys_len(keys: Seq<[u8; 32]>)
    ensures
        key_bytes(key_views(keys)).len() == 32 * keys.len(),
{
    if keys.len() > 0 {
        keys_lie_one_behind_the_other(keys, 0, 0);
    } else {
        assert(key_bytes(key_views(keys)) =~= Seq::empty());
    }
}

/// A wallet creation is written as the two thresholds, four bytes of timelock,
/// and then the name, the proposers and the approvers, each with its length in
/// front: in eight bytes for Anchor, in four for Quasar.
pub proof fn creations_are_written_in_order(
    kind: ProgramKind,
    approval_threshold: u8,
    cancellation_threshold: u8,
    timelock_seconds: u32,
    name: Seq<u8>,
    proposers: Seq<[u8; 32]>,
    approvers: Seq<[u8; 32]>,
)
    requires
        name.len() < 0x1_0000_0000,
        proposers.len() < 0x1_0000_0000,
        approvers.len() < 0x1_0000_0000,
    ensures
        ({
            let w = if kind == ProgramKind::AnchorV2 {
                8int
            } else {
                4
            };
            let args = create_wallet_args(
                kind,
                approval_threshold,
                cancellation_threshold,
                timelock_seconds,
                name,
                key_views(proposers),
                key_views(approvers),
            );
            let a = 6 + w;
            let b = a + name.len();
            let c = b + w + 32 * proposers.len();
            let d = c + w + 32 * approvers.len();
            &&& args.len() == d
            &&& args[0] == approval_threshold
            &&& args[1] == cancellation_threshold
            &&& le_value(args.subrange(2, 6)) == timelock_seconds
            &&& le_value(args.subrange(6, a)) == name.len()
            &&& args.subrange(a, b) == name
            &&& le_value(args.subrange(b, b + w)) == proposers.len()
            &&& args.subrange(b + w, c) == key_bytes(key_views(proposers))
            &&& le_value(args.subrange(c, c + w)) == approvers.len()
            &&& args.subrange(c + w, d) == key_bytes(key_views(approvers))
        }),
{
    let w = if kind == ProgramKind::AnchorV2 {
        8nat
    } else {
        4
    };
    let args = create_wallet_args(
        kind,
        approval_threshold,
        cancellation_threshold,
        timelock_seconds,
        name,
        key_views(proposers),
        key_views(approvers),
    );
    byte_capacities();
    lemma_keys_len(proposers);
    lemma_keys_len(approvers);
    le_round_trip(timelock_seconds as nat, 4);
    le_round_trip(name.len(), w);
    le_round_trip(proposers.len(), w);
    le_round_trip(approvers.len(), w);
    let a = 6 + w;
    let b = a + name.len();
    let c = b + w + 32 * proposers.len();
    let d = c + w + 32 * approvers.len();
    assert(args.subrange(2, 6) =~= le_bytes(timelock_seconds as nat, 4));
    assert(args.subrange(6, a as int) =~= le_bytes(name.len(), w));
    assert(args.subrange(a as int, b as int) =~= name);
    assert(args.subrange(b as int, (b + w) as int) =~= le_bytes(proposers.len(), w));
    assert(args.subrange((b + w) as int, c as int) =~= key_bytes(key_views(proposers)));
    assert(args.subrange(c as int, (c + w) as int) =~= le_bytes(approvers.len(), w));
    assert(args.subrange((c + w) as int, d as int) =~= key_bytes(key_views(approvers)));
}

/// A proposal is written as the expiry, the proposer's key, the signature and
/// the parameters: for Anchor with the parameters' length in front of them, for
/// Quasar with the proposal's index in front of all.
pub proof fn proposals_are_written_in_order(
    kind: ProgramKind,
    proposal_index: u64,
    expiry: i64,
    proposer_pubkey: Seq<u8>,
    signature: Seq<u8>,
    params_data: Seq<u8>,
)
    requires
        proposer_pubkey.len() == 32,
        signature.len() == 64,
        params_data.len() < 0x1_0000_0000_0000_0000,
    ensures
        ({
            let args = propose_args(
                kind,
                proposal_index,
                expiry,
                proposer_pubkey,
                signature,
                params_data,
            );
            let o = if kind == ProgramKind::Quasar {
                8int
            } else {
                0
            };
            &&& args.len() == 112 + params_data.len()
            &&& kind == ProgramKind::Quasar ==> le_value(args.subrange(0, 8)) == proposal_index
            &&& le_value(args.subrange(o, o + 8)) == expiry as int % 0x1_0000_0000_0000_0000
            &&& args.subrange(o + 8, o + 40) == proposer_pubkey
            &&& args.subrange(o + 40, o + 104) == signature
            &&& kind == ProgramKind::AnchorV2 ==> le_value(args.subrange(104, 112))
                == params_data.len()
            &&& args.subrange(112, args.len() as int) == params_data
        }),
{
    let args = propose_args(kind, proposal_index, expiry, proposer_pubkey, signature, params_data);
    let bits = crate::bytes::u64_bits(expiry);
    byte_capacities();
    le_round_trip(bits, 8);
    le_round_trip(proposal_index as nat, 8);
    le_round_trip(params_data.len(), 8);
    let o = if kind == ProgramKind::Quasar {
        8int
    } else {
        0
    };
    if kind == ProgramKind::Quasar {
        assert(args.subrange(0, 8) =~= le_bytes(proposal_index as nat, 8));
    } else {
        assert(args.subrange(104, 112) =~= le_bytes(params_data.len(), 8));
    }
    assert(args.subrange(o, o + 8) =~= le_bytes(bits, 8));
    assert(args.subrange(o + 8, o + 40) =~= proposer_pubkey);
    assert(args.subrange(o + 40, o + 104) =~= signature);
    assert(args.subrange(112, args.len() as int) =~= params_data);
}

/// A vote is written as the expiry, the voter's index and the signature.
pub proof fn votes_are_written_in_order(expiry: i64, index: u8, signature: Seq<u8>)
    ensures
        vote_args(expiry, index, signature).len() == 9 + signature.len(),
        le_value(vote_args(expiry, index, signature).subrange(0, 8)) == expiry as int
            % 0x1_0000_0000_0000_0000,
        vote_args(expiry, index, signature)[8] == index,
        vote_args(expiry, index, signature).skip(9) == signature,
{
    let bits = crate::bytes::u64_bits(expiry);
    byte_capacities();
    le_round_trip(bits, 8);
    assert(vote_args(expiry, index, signature).subrange(0, 8) =~= le_bytes(bits, 8));
    assert(vote_args(expiry, index, signature).skip(9) =~= signature);
}

/// The context of a client's message is what it was given.
pub proof fn contexts_are_as_given(
    action: &str,
    expiry: i64,
    wallet_name: &str,
    proposal_index: u64,
)
    ensures
        context(action, expiry, wallet_name, proposal_index).expiry == expiry,
        context(action, expiry, wallet_name, proposal_index).action == action.spec_bytes(),
        context(action, expiry, wallet_name, proposal_index).wallet_name
            == wallet_name.spec_bytes(),
        context(action, expiry, wallet_name, proposal_index).proposal_index == proposal_index,
{
}

/// Whether an account is named with an address and rights.
pub open spec fn named(meta: MetaView, pubkey: Seq<u8>, signs: bool, writes: bool) -> bool {
    meta.pubkey == pubkey && meta.is_signer == signs && meta.is_writable == writes
}

/// A wallet creation names the payer, who signs and pays, the address of the
/// name's hash, the wallet, the three intents, and the system program.
pub proof fn creations_name_their_accounts(
    payer: Seq<u8>,
    hash: Seq<u8>,
    wallet: Seq<u8>,
    add: Seq<u8>,
    remove: Seq<u8>,
    update: Seq<u8>,
)
    ensures
        ({
            let list = create_wallet_list(payer, hash, wallet, add, remove, update);
            &&& list.len() == 7
            &&& named(list[0], payer, true, true)
            &&& named(list[1], hash, false, false)
            &&& named(list[2], wallet, false, true)
            &&& named(list[3], add, false, true)
            &&& named(list[4], remove, false, true)
            &&& named(list[5], update, false, true)
            &&& named(list[6], Seq::new(32, |i: int| 0u8), false, false)
        }),
{
}

/// The accounts of the creation of a wallet with a name are at the addresses
/// that derive from the name's hash, from the wallet, and from the indexes 0, 1
/// and 2.
pub proof fn creations_name_derived_accounts(payer: Seq<u8>, name: Seq<u8>, list: Seq<MetaView>)
    requires
        create_wallet_accounts(payer, name) == Some(list),
    ensures
        ({
            let hash = sha256_digest(name);
            let w = derived_address(seq!["clear_wallet".spec_bytes(), hash], program_id_bytes());
            let wallet = (w->0).0;
            let a = derived_address(
                seq!["intent".spec_bytes(), wallet, seq![0u8]],
                program_id_bytes(),
            );
            let b = derived_address(
                seq!["intent".spec_bytes(), wallet, seq![1u8]],
                program_id_bytes(),
            );
            let c = derived_address(
                seq!["intent".spec_bytes(), wallet, seq![2u8]],
                program_id_bytes(),
            );
            &&& w is Some && a is Some && b is Some && c is Some
            &&& list.len() == 7
            &&& named(list[0], payer, true, true)
            &&& named(list[1], hash, false, false)
            &&& named(list[2], wallet, false, true)
            &&& named(list[3], (a->0).0, false, true)
            &&& named(list[4], (b->0).0, false, true)
            &&& named(list[5], (c->0).0, false, true)
            &&& named(list[6], Seq::new(32, |i: int| 0u8), false, false)
        }),
{
}

/// A proposal names the payer, who signs and pays, the wallet, the intent, the
/// proposal, and the system program.
pub proof fn proposals_name_their_accounts(
    payer: Seq<u8>,
    wallet: Seq<u8>,
    intent: Seq<u8>,
    proposal: Seq<u8>,
)
    ensures
        ({
            let list = propose_list(payer, wallet, intent, proposal);
            &&& list.len() == 5
            &&& named(list[0], payer, true, true)
            &&& named(list[1], wallet, false, true)
            &&& named(list[2], intent, false, true)
            &&& named(list[3], proposal, false, true)
            &&& named(list[4], Seq::new(32, |i: int| 0u8), false, false)
        }),
{
}

/// A vote names the wallet, which it only reads, the intent and the proposal.
pub proof fn votes_name_their_accounts(wallet: Seq<u8>, intent: Seq<u8>, proposal: Seq<u8>)
    ensures
        ({
            let list = vote_list(wallet, intent, proposal);
            &&& list.len() == 3
            &&& named(list[0], wallet, false, false)
            &&& named(list[1], intent, false, true)
            &&& named(list[2], proposal, false, true)
        }),
{
}

/// An execution names the wallet, the vault, the intent, the proposal and the
/// system program, and then the remaining accounts as they are.
pub proof fn executions_name_their_accounts(
    wallet: Seq<u8>,
    vault: Seq<u8>,
    intent: Seq<u8>,
    proposal: Seq<u8>,
    remaining: Seq<MetaView>,
)
    ensures
        ({
            let list = execute_list(wallet, vault, intent, proposal, remaining);
            &&& list.len() == 5 + remaining.len()
            &&& named(list[0], wallet, false, true)
            &&& named(list[1], vault, false, true)
            &&& named(list[2], intent, false, true)
            &&& named(list[3], proposal, false, true)
            &&& named(list[4], Seq::new(32, |i: int| 0u8), false, false)
            &&& list.skip(5) == remaining
        }),
{
    assert(execute_list(wallet, vault, intent, proposal, remaining).skip(5) =~= remaining);
}

/// A cleanup names the proposal and the account that gets the rent back.
pub proof fn cleanups_name_their_accounts(proposal: Seq<u8>, rent_refund: Seq<u8>)
    ensures
        cleanup_list(proposal, rent_refund).len() == 2,
        named(cleanup_list(proposal, rent_refund)[0], proposal, false, true),
        named(cleanup_list(proposal, rent_refund)[1], rent_refund, false, true),
{
}

/// What the benchmark sends and signs: the wallet has the proposer's and the
/// approver's public keys and thresholds of one; each member signs, with the
/// own key, the removal of the target intent by the wallet's first proposal,
/// for the action of the instruction.
pub proof fn benchmark_steps_are_signed_by_their_members(
    setup: WalletSetup,
    kind: ProgramKind,
    intent: Seq<u8>,
    proposal: Seq<u8>,
    target: u8,
)
    ensures
        ({
            let message = |action: Seq<u8>|
                offchain_message(
                    message_text(
                        ContextView {
                            expiry: crate::client::DEFAULT_EXPIRY,
                            action,
                            wallet_name: setup.wallet_name@,
                            proposal_index: 0,
                        },
                        "remove intent ".spec_bytes() + crate::text::decimal(target as nat),
                    ),
                );
            let proposer = setup.proposer.seed@;
            let approver = setup.approver.seed@;
            let expiry = crate::client::DEFAULT_EXPIRY;
            &&& setup.propose_step(kind, intent, proposal, target) == (InstructionView {
                data: discriminator_bytes(kind, "propose") + propose_args(
                    kind,
                    0,
                    expiry,
                    ed25519_public_key(proposer),
                    ed25519_signature(proposer, message("propose".spec_bytes())),
                    seq![target],
                ),
                metas: propose_list(setup.creator@, setup.wallet@, intent, proposal),
                creator_signs: true,
            })
            &&& setup.approve_step(kind, intent, proposal, target) == (InstructionView {
                data: discriminator_bytes(kind, "approve") + vote_args(
                    expiry,
                    0,
                    ed25519_signature(approver, message("approve".spec_bytes())),
                ),
                metas: vote_list(setup.wallet@, intent, proposal),
                creator_signs: false,
            })
            &&& setup.cancel_step(kind, intent, proposal, target) == (InstructionView {
                data: discriminator_bytes(kind, "cancel") + vote_args(
                    expiry,
                    0,
                    ed25519_signature(approver, message("cancel".spec_bytes())),
                ),
                metas: vote_list(setup.wallet@, intent, proposal),
                creator_signs: false,
            })
            &&& setup.create_args(kind) == create_wallet_args(
                kind,
                1,
                1,
                0,
                setup.wallet_name@,
                seq![ed25519_public_key(proposer)],
                seq![ed25519_public_key(approver)],
            )
            &&& setup.cleanup_step(kind, proposal) == (InstructionView {
                data: discriminator_bytes(kind, "cleanup_proposal"),
                metas: cleanup_list(proposal, setup.creator@),
                creator_signs: false,
            })
        }),
{
}

/// The benchmark's proposal is the first of the intent that removes intents, the
/// intent with index 1 of its wallet.
pub proof fn the_benchmark_removes_by_the_first_proposal(
    setup: WalletSetup,
    intent: Seq<u8>,
    proposal: Seq<u8>,
)
    requires
        setup.removal() == Some((intent, proposal)),
    ensures
        ({
            let i = derived_address(
                seq!["intent".spec_bytes(), setup.wallet@, seq![1u8]],
                program_id_bytes(),
            );
            let p = derived_address(
                seq!["proposal".spec_bytes(), intent, seq![0u8, 0, 0, 0, 0, 0, 0, 0]],
                program_id_bytes(),
            );
            &&& i is Some && (i->0).0 == intent
            &&& p is Some && (p->0).0 == proposal
        }),
{
    reveal_with_fuel(le_bytes, 9);
    assert(le_bytes(0, 8) =~= seq![0u8, 0, 0, 0, 0, 0, 0, 0]);
}

/// The benchmark's execution names the target intent as remaining account.
pub proof fn the_benchmark_executes_on_the_target(
    setup: WalletSetup,
    kind: ProgramKind,
    intent: Seq<u8>,
    proposal: Seq<u8>,
    target: u8,
    step: InstructionView,
)
    requires
        setup.execute_step(kind, intent, proposal, target) == Some(step),
    ensures
        ({
            let t = derived_address(
                seq!["intent".spec_bytes(), setup.wallet@, seq![target]],
                program_id_bytes(),
            );
            let v = derived_address(
                seq!["vault".spec_bytes(), setup.wallet@],
                program_id_bytes(),
            );
            &&& t is Some && v is Some
            &&& step.data == discriminator_bytes(kind, "execute")
            &&& !step.creator_signs
            &&& step.metas.len() == 6
            &&& named(step.metas[0], setup.wallet@, false, true)
            &&& named(step.metas[1], (v->0).0, false, true)
            &&& named(step.metas[2], intent, false, true)
            &&& named(step.metas[3], proposal, false, true)
            &&& named(step.metas[4], Seq::new(32, |i: int| 0u8), false, false)
            &&& named(step.metas[5], (t->0).0, false, true)
        }),
{
}

/// Each case of the benchmark runs those before it first, in their order:
/// create, propose, approve or cancel, execute, clean up. It removes intent 2.
pub proof fn benchmark_cases_build_on_one_another(
    setup: WalletSetup,
    kind: ProgramKind,
    intent: Seq<u8>,
    proposal: Seq<u8>,
    create: InstructionView,
    execute: InstructionView,
)
    requires
        setup.removal() == Some((intent, proposal)),
        setup.create_step(kind) == Some(create),
        setup.execute_step(kind, intent, proposal, 2) == Some(execute),
    ensures
        ({
            let propose = setup.propose_step(kind, intent, proposal, 2);
            let approve = setup.approve_step(kind, intent, proposal, 2);
            &&& setup.create_wallet_case(kind) is Some
            &&& setup.create_wallet_case(kind)->0.steps == Seq::<InstructionView>::empty()
            &&& setup.create_wallet_case(kind)->0.measured == create
            &&& setup.propose_case(kind) is Some
            &&& setup.propose_case(kind)->0.steps == seq![create]
            &&& setup.propose_case(kind)->0.measured == propose
            &&& setup.approve_case(kind) is Some
            &&& setup.approve_case(kind)->0.steps == seq![create, propose]
            &&& setup.approve_case(kind)->0.measured == approve
            &&& setup.cancel_case(kind) is Some
            &&& setup.cancel_case(kind)->0.steps == seq![create, propose]
            &&& setup.cancel_case(kind)->0.measured == setup.cancel_step(
                kind,
                intent,
                proposal,
                2,
            )
            &&& setup.execute_case(kind) is Some
            &&& setup.execute_case(kind)->0.steps == seq![create, propose, approve]
            &&& setup.execute_case(kind)->0.measured == execute
            &&& setup.cleanup_case(kind) is Some
            &&& setup.cleanup_case(kind)->0.steps == seq![create, propose, approve, execute]
            &&& setup.cleanup_case(kind)->0.measured == setup.cleanup_step(kind, proposal)
        }),
{
    let propose = setup.propose_step(kind, intent, proposal, 2);
    let approve = setup.approve_step(kind, intent, proposal, 2);
    assert(seq![create].push(propose) =~= seq![create, propose]);
    assert(seq![create, propose].push(approve) =~= seq![create, propose, approve]);
    assert(seq![create, propose, approve].push(execute) =~= seq![
        create,
        propose,
        approve,
        execute,
    ]);
}

/// The creation of the benchmark's wallet is paid and signed by the creator.
pub proof fn benchmark_wallets_are_paid_by_the_creator(
    setup: WalletSetup,
    kind: ProgramKind,
    step: InstructionView,
)
    requires
        setup.create_step(kind) == Some(step),
    ensures
        step.creator_signs,
        step.data == discriminator_bytes(kind, "create_wallet") + setup.create_args(kind),
        create_wallet_accounts(setup.creator@, setup.wallet_name@) == Some(step.metas),
{
}

} // verus!
