//! Laws on what clients send.
use crate::bench::WalletSetup;
use crate::bytes::{byte_capacities, byte_capacity, le_bytes, le_bytes_len, le_round_trip, u64_bits};
use crate::client::{
    create_wallet_args, key_bytes, length_width, propose_args, vote_args, ProgramKind,
    DEFAULT_EXPIRY,
};
use crate::error::ProgramError;
use crate::instructions::approve::Approve;
use crate::instructions::cancel::Cancel;
use crate::instructions::propose::Propose;
use crate::address::Address;
use crate::laws::meaning::client_and_program_agree_on_removal;
use crate::state::intent::IntentType;
use crate::utils::datetime::{
    date_is_unique, date_of, day_number, days_before_month, days_before_year,
    every_day_has_a_date, has_plain_year, is_date,
};
use crate::utils::message::ContextView;
use vstd::prelude::*;
use vstd::string::StringSliceAdditionalSpecFns;

verus! {

/// Two numbers that are written alike are equal, where they fit.
pub proof fn le_bytes_are_unambiguous(a: nat, b: nat, width: nat)
    requires
        a < byte_capacity(width),
        b < byte_capacity(width),
        le_bytes(a, width) == le_bytes(b, width),
    ensures
        a == b,
{
    le_round_trip(a, width);
    le_round_trip(b, width);
}

/// Two signed numbers with the same 64 bits are equal.
proof fn lemma_same_bits(a: i64, b: i64)
    requires
        u64_bits(a) == u64_bits(b),
    ensures
        a == b,
{
}

/// The arguments of a vote say what is voted: two that are written alike are
/// equal.
pub proof fn vote_args_are_unambiguous(
    expiry1: i64,
    index1: u8,
    signature1: Seq<u8>,
    expiry2: i64,
    index2: u8,
    signature2: Seq<u8>,
)
    requires
        vote_args(expiry1, index1, signature1) == vote_args(expiry2, index2, signature2),
    ensures
        expiry1 == expiry2,
        index1 == index2,
        signature1 == signature2,
{
    let a = vote_args(expiry1, index1, signature1);
    let b = vote_args(expiry2, index2, signature2);
    le_bytes_len(u64_bits(expiry1), 8);
    le_bytes_len(u64_bits(expiry2), 8);
    assert(a.take(8) =~= le_bytes(u64_bits(expiry1), 8));
    assert(b.take(8) =~= le_bytes(u64_bits(expiry2), 8));
    byte_capacities();
    le_bytes_are_unambiguous(u64_bits(expiry1), u64_bits(expiry2), 8);
    lemma_same_bits(expiry1, expiry2);
    assert(a[8] == index1);
    assert(b[8] == index2);
    assert(a.skip(9) =~= signature1);
    assert(b.skip(9) =~= signature2);
}

/// The arguments of a proposal say what is proposed: two that are written
/// alike, with keys of 32 bytes and signatures of 64, have the same expiry,
/// proposer, signature and parameters; and the same index where it is written.
pub proof fn propose_args_are_unambiguous(
    kind: ProgramKind,
    index1: u64,
    expiry1: i64,
    key1: Seq<u8>,
    signature1: Seq<u8>,
    params1: Seq<u8>,
    index2: u64,
    expiry2: i64,
    key2: Seq<u8>,
    signature2: Seq<u8>,
    params2: Seq<u8>,
)
    requires
        key1.len() == 32,
        key2.len() == 32,
        signature1.len() == 64,
        signature2.len() == 64,
        propose_args(kind, index1, expiry1, key1, signature1, params1) == propose_args(
            kind,
            index2,
            expiry2,
            key2,
            signature2,
            params2,
        ),
    ensures
        expiry1 == expiry2,
        key1 == key2,
        signature1 == signature2,
        params1 == params2,
        kind == ProgramKind::Quasar ==> index1 == index2,
{
    let a = propose_args(kind, index1, expiry1, key1, signature1, params1);
    let b = propose_args(kind, index2, expiry2, key2, signature2, params2);
    le_bytes_len(u64_bits(expiry1), 8);
    le_bytes_len(u64_bits(expiry2), 8);
    le_bytes_len(index1 as nat, 8);
    le_bytes_len(index2 as nat, 8);
    le_bytes_len(params1.len(), 8);
    le_bytes_len(params2.len(), 8);
    byte_capacities();
    match kind {
        ProgramKind::AnchorV2 => {
            assert(a.take(8) =~= le_bytes(u64_bits(expiry1), 8));
            assert(b.take(8) =~= le_bytes(u64_bits(expiry2), 8));
            le_bytes_are_unambiguous(u64_bits(expiry1), u64_bits(expiry2), 8);
            assert(a.subrange(8, 40) =~= key1);
            assert(b.subrange(8, 40) =~= key2);
            assert(a.subrange(40, 104) =~= signature1);
            assert(b.subrange(40, 104) =~= signature2);
            assert(a.skip(112) =~= params1);
            assert(b.skip(112) =~= params2);
        },
        ProgramKind::Quasar => {
            assert(a.take(8) =~= le_bytes(index1 as nat, 8));
            assert(b.take(8) =~= le_bytes(index2 as nat, 8));
            le_bytes_are_unambiguous(index1 as nat, index2 as nat, 8);
            assert(a.subrange(8, 16) =~= le_bytes(u64_bits(expiry1), 8));
            assert(b.subrange(8, 16) =~= le_bytes(u64_bits(expiry2), 8));
            le_bytes_are_unambiguous(u64_bits(expiry1), u64_bits(expiry2), 8);
            assert(a.subrange(16, 48) =~= key1);
            assert(b.subrange(16, 48) =~= key2);
            assert(a.subrange(48, 112) =~= signature1);
            assert(b.subrange(48, 112) =~= signature2);
            assert(a.skip(112) =~= params1);
            assert(b.skip(112) =~= params2);
        },
    }
    lemma_same_bits(expiry1, expiry2);
}

/// Whether all keys of a list have 32 bytes.
pub open spec fn are_keys(keys: Seq<Seq<u8>>) -> bool {
    forall|i: int| 0 <= i < keys.len() ==> (#[trigger] keys[i]).len() == 32
}

proof fn lemma_key_bytes_len(keys: Seq<Seq<u8>>)
    requires
        are_keys(keys),
    ensures
        key_bytes(keys).len() == 32 * keys.len(),
    decreases keys.len(),
{
    if keys.len() > 0 {
        lemma_key_bytes_len(keys.drop_last());
    }
}

proof fn lemma_key_bytes_injective(a: Seq<Seq<u8>>, b: Seq<Seq<u8>>)
    requires
        are_keys(a),
        are_keys(b),
        a.len() == b.len(),
        key_bytes(a) == key_bytes(b),
    ensures
        a == b,
    decreases a.len(),
{
    if a.len() > 0 {
        lemma_key_bytes_len(a.drop_last());
        lemma_key_bytes_len(b.drop_last());
        let n = 32 * (a.len() - 1);
        assert(key_bytes(a.drop_last()) =~= key_bytes(a).take(n));
        assert(key_bytes(b.drop_last()) =~= key_bytes(b).take(n));
        assert(a.last() =~= key_bytes(a).skip(n));
        assert(b.last() =~= key_bytes(b).skip(n));
        lemma_key_bytes_injective(a.drop_last(), b.drop_last());
        assert(a =~= a.drop_last().push(a.last()));
        assert(b =~= b.drop_last().push(b.last()));
    } else {
        assert(a =~= b);
    }
}

/// A list behind its length, in front of the rest.
proof fn lemma_behind_length(
    width: nat,
    len1: nat,
    list1: Seq<u8>,
    rest1: Seq<u8>,
    len2: nat,
    list2: Seq<u8>,
    rest2: Seq<u8>,
)
    requires
        len1 < byte_capacity(width),
        len2 < byte_capacity(width),
        len1 == len2 ==> list1.len() == list2.len(),
        le_bytes(len1, width) + (list1 + rest1) == le_bytes(len2, width) + (list2 + rest2),
    ensures
        len1 == len2,
        list1 == list2,
        rest1 == rest2,
{
    let a = le_bytes(len1, width) + (list1 + rest1);
    let b = le_bytes(len2, width) + (list2 + rest2);
    le_bytes_len(len1, width);
    le_bytes_len(len2, width);
    assert(a.take(width as int) =~= le_bytes(len1, width));
    assert(b.take(width as int) =~= le_bytes(len2, width));
    le_bytes_are_unambiguous(len1, len2, width);
    let n = (width + list1.len()) as int;
    assert(a.subrange(width as int, n) =~= list1);
    assert(b.subrange(width as int, n) =~= list2);
    assert(a.skip(n) =~= rest1);
    assert(b.skip(n) =~= rest2);
}

/// The lists of a wallet creation, each behind its length.
spec fn creation_lists(
    width: nat,
    name: Seq<u8>,
    proposers: Seq<Seq<u8>>,
    approvers: Seq<Seq<u8>>,
) -> Seq<u8> {
    le_bytes(name.len(), width) + (name + (le_bytes(proposers.len(), width) + (key_bytes(proposers)
        + (le_bytes(approvers.len(), width) + (key_bytes(approvers) + Seq::<u8>::empty())))))
}

/// Where the arguments of a wallet creation stand.
proof fn lemma_creation_parts(
    kind: ProgramKind,
    thresholds: (u8, u8),
    timelock: u32,
    name: Seq<u8>,
    proposers: Seq<Seq<u8>>,
    approvers: Seq<Seq<u8>>,
)
    ensures
        ({
            let a = create_wallet_args(
                kind,
                thresholds.0,
                thresholds.1,
                timelock,
                name,
                proposers,
                approvers,
            );
            &&& a[0] == thresholds.0
            &&& a[1] == thresholds.1
            &&& a.subrange(2, 6) == le_bytes(timelock as nat, 4)
            &&& a.skip(6) == creation_lists(length_width(kind), name, proposers, approvers)
        }),
{
    let a = create_wallet_args(
        kind,
        thresholds.0,
        thresholds.1,
        timelock,
        name,
        proposers,
        approvers,
    );
    le_bytes_len(timelock as nat, 4);
    assert(a.subrange(2, 6) =~= le_bytes(timelock as nat, 4));
    assert(a.skip(6) =~= creation_lists(length_width(kind), name, proposers, approvers));
}

/// The arguments of a wallet creation say what is created: two that are
/// written alike, with keys of 32 bytes and lists whose lengths fit, are
/// equal.
pub proof fn create_wallet_args_are_unambiguous(
    kind: ProgramKind,
    thresholds1: (u8, u8),
    timelock1: u32,
    name1: Seq<u8>,
    proposers1: Seq<Seq<u8>>,
    approvers1: Seq<Seq<u8>>,
    thresholds2: (u8, u8),
    timelock2: u32,
    name2: Seq<u8>,
    proposers2: Seq<Seq<u8>>,
    approvers2: Seq<Seq<u8>>,
)
    requires
        are_keys(proposers1),
        are_keys(approvers1),
        are_keys(proposers2),
        are_keys(approvers2),
        name1.len() < byte_capacity(length_width(kind)),
        name2.len() < byte_capacity(length_width(kind)),
        proposers1.len() < byte_capacity(length_width(kind)),
        proposers2.len() < byte_capacity(length_width(kind)),
        approvers1.len() < byte_capacity(length_width(kind)),
        approvers2.len() < byte_capacity(length_width(kind)),
        create_wallet_args(
            kind,
            thresholds1.0,
            thresholds1.1,
            timelock1,
            name1,
            proposers1,
            approvers1,
        ) == create_wallet_args(
            kind,
            thresholds2.0,
            thresholds2.1,
            timelock2,
            name2,
            proposers2,
            approvers2,
        ),
    ensures
        thresholds1 == thresholds2,
        timelock1 == timelock2,
        name1 == name2,
        proposers1 == proposers2,
        approvers1 == approvers2,
{
    let width = length_width(kind);
    lemma_creation_parts(kind, thresholds1, timelock1, name1, proposers1, approvers1);
    lemma_creation_parts(kind, thresholds2, timelock2, name2, proposers2, approvers2);
    assert(timelock1 == timelock2) by {
        byte_capacities();
        le_bytes_are_unambiguous(timelock1 as nat, timelock2 as nat, 4);
    }
    let end1 = le_bytes(approvers1.len(), width) + (key_bytes(approvers1) + Seq::<u8>::empty());
    let end2 = le_bytes(approvers2.len(), width) + (key_bytes(approvers2) + Seq::<u8>::empty());
    let rest1 = le_bytes(proposers1.len(), width) + (key_bytes(proposers1) + end1);
    let rest2 = le_bytes(proposers2.len(), width) + (key_bytes(proposers2) + end2);
    lemma_key_bytes_len(proposers1);
    lemma_key_bytes_len(proposers2);
    lemma_key_bytes_len(approvers1);
    lemma_key_bytes_len(approvers2);
    lemma_behind_length(width, name1.len(), name1, rest1, name2.len(), name2, rest2);
    lemma_behind_length(
        width,
        proposers1.len(),
        key_bytes(proposers1),
        end1,
        proposers2.len(),
        key_bytes(proposers2),
        end2,
    );
    lemma_behind_length(
        width,
        approvers1.len(),
        key_bytes(approvers1),
        Seq::empty(),
        approvers2.len(),
        key_bytes(approvers2),
        Seq::empty(),
    );
    lemma_key_bytes_injective(proposers1, proposers2);
    lemma_key_bytes_injective(approvers1, approvers2);
}

/// The default expiry lies in 2001.
proof fn lemma_default_expiry()
    ensures
        has_plain_year(DEFAULT_EXPIRY as int),
{
    let days = DEFAULT_EXPIRY as int / 86400;
    assert(days == 11574);
    assert(day_number(2001, 9, 9) == 11574 && is_date(2001, 9, 9)) by {
        reveal_with_fuel(days_before_year, 33);
        reveal_with_fuel(days_before_month, 10);
    }
    every_day_has_a_date(days);
    let date = date_of(days);
    date_is_unique(date.0, date.1, date.2, 2001, 9, 9);
}

/// The benchmark signs what the program checks: where the accounts are those of
/// the wallet's first proposal, to remove an intent, and the votes are not cast
/// yet, the messages to sign are those that the benchmark signs.
pub proof fn the_benchmark_signs_what_the_program_checks(
    setup: WalletSetup,
    target_intent_index: u8,
    propose: Propose,
    approve: Approve,
    cancel: Cancel,
    proposer: Address,
    now: i64,
)
    requires
        now < DEFAULT_EXPIRY,
        setup.wallet_name@.len() <= 64,
        propose.wallet.data.name_bytes() == setup.wallet_name@,
        propose.wallet.data.proposal_index == 0,
        propose.intent.data.intent_type == IntentType::RemoveIntent,
        propose.intent.data.proposers@.contains(proposer),
        approve.wallet.data.name_bytes() == setup.wallet_name@,
        approve.intent.data.intent_type == IntentType::RemoveIntent,
        approve.intent.data.approvers@.len() > 0,
        approve.proposal.data.proposal_index == 0,
        approve.proposal.data.params_data@ == seq![target_intent_index],
        !approve.proposal.data.approvals().contains(0),
        cancel.wallet.data.name_bytes() == setup.wallet_name@,
        cancel.intent.data.intent_type == IntentType::RemoveIntent,
        cancel.intent.data.approvers@.len() > 0,
        cancel.proposal.data.proposal_index == 0,
        cancel.proposal.data.params_data@ == seq![target_intent_index],
        !cancel.proposal.data.cancellations().contains(0),
    ensures
        propose.to_sign(0, DEFAULT_EXPIRY, proposer, seq![target_intent_index], now) == Ok::<
            Seq<u8>,
            ProgramError,
        >(setup.remove_message("propose", target_intent_index)),
        approve.to_sign(DEFAULT_EXPIRY, 0, now) == Ok::<Seq<u8>, ProgramError>(
            setup.remove_message("approve", target_intent_index),
        ),
        cancel.to_sign(DEFAULT_EXPIRY, 0, now) == Ok::<Seq<u8>, ProgramError>(
            setup.remove_message("cancel", target_intent_index),
        ),
{
    lemma_default_expiry();
    client_and_program_agree_on_removal(
        ContextView {
            expiry: DEFAULT_EXPIRY,
            action: "propose".spec_bytes(),
            wallet_name: setup.wallet_name@,
            proposal_index: 0,
        },
        propose.intent.data,
        target_intent_index,
    );
    client_and_program_agree_on_removal(
        ContextView {
            expiry: DEFAULT_EXPIRY,
            action: "approve".spec_bytes(),
            wallet_name: setup.wallet_name@,
            proposal_index: 0,
        },
        approve.intent.data,
        target_intent_index,
    );
    client_and_program_agree_on_removal(
        ContextView {
            expiry: DEFAULT_EXPIRY,
            action: "cancel".spec_bytes(),
            wallet_name: setup.wallet_name@,
            proposal_index: 0,
        },
        cancel.intent.data,
        target_intent_index,
    );
}

} // verus!
