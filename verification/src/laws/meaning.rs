//! Laws on what a signed text says: which messages can be told apart.
use crate::crypto::sha256_digest;
use crate::error::ProgramError;
use crate::laws::messages::{add_message, every_message_has_the_format, remove_message};
use crate::state::intent::{Intent, IntentType};
use crate::text::{decimal, hex, hex_digit, hex_pair, lemma_decimal, lemma_decimal_injective};
use crate::utils::datetime::{
    has_plain_year, timestamp_text, timestamp_text_is_unambiguous, timestamp_text_len,
};
use crate::utils::message::{
    add_intent_text, content_text, draft, header_text, message_text, offchain_message,
    remove_intent_text, signed_message, update_intent_text, ContextView,
};
use vstd::prelude::*;
use vstd::string::StringSliceAdditionalSpecFns;
use vstd::utf8::{is_ascii_chars, is_ascii_chars_encode_utf8};

verus! {

/// The actions that members sign.
pub open spec fn is_action(action: Seq<u8>) -> bool {
    ||| action == "propose".spec_bytes()
    ||| action == "approve".spec_bytes()
    ||| action == "cancel".spec_bytes()
}

proof fn lemma_ascii(s: &str)
    requires
        is_ascii_chars(s@),
    ensures
        s.spec_bytes().len() == s@.len(),
        forall|i: int| 0 <= i < s@.len() ==> #[trigger] s.spec_bytes()[i] == s@[i] as u8,
{
    is_ascii_chars_encode_utf8(s@);
}

/// The lengths of the fixed parts of a message, and the spaces among them.
proof fn lemma_fixed_parts()
    ensures
        "expires ".spec_bytes().len() == 8,
        ": ".spec_bytes().len() == 2,
        " ".spec_bytes() == seq![32u8],
        " | wallet: ".spec_bytes().len() == 11,
        " | wallet: ".spec_bytes()[0] == 32,
        " proposal: ".spec_bytes().len() == 11,
        " proposal: ".spec_bytes()[10] == 32,
        "remove intent ".spec_bytes().len() == 14,
        "add intent definition_hash: ".spec_bytes().len() == 28,
        "update intent ".spec_bytes().len() == 14,
        " definition_hash: ".spec_bytes().len() == 18,
        "remove intent ".spec_bytes()[0] == 114,
        "add intent definition_hash: ".spec_bytes()[0] == 97,
        "update intent ".spec_bytes()[0] == 117,
        " definition_hash: ".spec_bytes()[0] == 32,
        "propose".spec_bytes().len() == 7,
        "approve".spec_bytes().len() == 7,
        "cancel".spec_bytes().len() == 6,
        "propose".spec_bytes()[0] == 112,
        "approve".spec_bytes()[0] == 97,
        "cancel".spec_bytes()[0] == 99,
{
    reveal_strlit("expires ");
    reveal_strlit(": ");
    reveal_strlit(" ");
    reveal_strlit(" | wallet: ");
    reveal_strlit(" proposal: ");
    reveal_strlit("remove intent ");
    reveal_strlit("add intent definition_hash: ");
    reveal_strlit("update intent ");
    reveal_strlit(" definition_hash: ");
    reveal_strlit("propose");
    reveal_strlit("approve");
    reveal_strlit("cancel");
    lemma_ascii("expires ");
    lemma_ascii(": ");
    lemma_ascii(" ");
    lemma_ascii(" | wallet: ");
    lemma_ascii(" proposal: ");
    lemma_ascii("remove intent ");
    lemma_ascii("add intent definition_hash: ");
    lemma_ascii("update intent ");
    lemma_ascii(" definition_hash: ");
    lemma_ascii("propose");
    lemma_ascii("approve");
    lemma_ascii("cancel");
    assert(" ".spec_bytes() =~= seq![32u8]);
}

/// What stands behind the last space of two equal texts is equal.
proof fn lemma_last_word(a: Seq<u8>, x: Seq<u8>, b: Seq<u8>, y: Seq<u8>)
    requires
        a.len() > 0,
        b.len() > 0,
        a.last() == 32,
        b.last() == 32,
        !x.contains(32),
        !y.contains(32),
        a + x == b + y,
    ensures
        a == b,
        x == y,
{
    let t = a + x;
    let u = b + y;
    assert(t.len() == a.len() + x.len());
    assert(u.len() == b.len() + y.len());
    if a.len() < b.len() {
        assert(t[b.len() - 1] == x[b.len() - 1 - a.len()]);
        assert(u[b.len() - 1] == 32);
    }
    if b.len() < a.len() {
        assert(u[a.len() - 1] == y[a.len() - 1 - b.len()]);
        assert(t[a.len() - 1] == 32);
    }
    assert(a =~= t.take(a.len() as int));
    assert(b =~= u.take(b.len() as int));
    assert(x =~= t.skip(a.len() as int));
    assert(y =~= u.skip(b.len() as int));
}

/// What stands before the first space of two equal texts is equal.
proof fn lemma_first_word(x: Seq<u8>, a: Seq<u8>, y: Seq<u8>, b: Seq<u8>)
    requires
        a.len() > 0,
        b.len() > 0,
        a[0] == 32,
        b[0] == 32,
        !x.contains(32),
        !y.contains(32),
        x + a == y + b,
    ensures
        x == y,
        a == b,
{
    let t = x + a;
    let u = y + b;
    if x.len() < y.len() {
        assert(t[x.len() as int] == 32);
        assert(u[x.len() as int] == y[x.len() as int]);
    }
    if y.len() < x.len() {
        assert(u[y.len() as int] == 32);
        assert(t[y.len() as int] == x[y.len() as int]);
    }
    assert(x =~= t.take(x.len() as int));
    assert(y =~= u.take(y.len() as int));
    assert(a =~= t.skip(x.len() as int));
    assert(b =~= u.skip(y.len() as int));
}

proof fn lemma_decimal_has_no_space(n: nat)
    ensures
        !decimal(n).contains(32),
{
    lemma_decimal(n);
    if decimal(n).contains(32) {
        let i = choose|i: int| 0 <= i < decimal(n).len() && decimal(n)[i] == 32;
        assert(48 <= decimal(n)[i]);
    }
}

/// A text without the same front and behind.
proof fn lemma_cut(a: Seq<u8>, x: Seq<u8>, c: Seq<u8>, b: Seq<u8>, y: Seq<u8>, d: Seq<u8>)
    requires
        a.len() == b.len(),
        c.len() == d.len(),
        a + x + c == b + y + d,
    ensures
        a == b,
        x == y,
        c == d,
{
    let t = a + x + c;
    let u = b + y + d;
    assert(t.len() == u.len());
    assert(x.len() == y.len());
    assert(a =~= t.take(a.len() as int));
    assert(b =~= u.take(b.len() as int));
    assert(x =~= t.subrange(a.len() as int, (a.len() + x.len()) as int));
    assert(y =~= u.subrange(b.len() as int, (b.len() + y.len()) as int));
    assert(c =~= t.skip((a.len() + x.len()) as int));
    assert(d =~= u.skip((b.len() + y.len()) as int));
}

/// A message says when it expires, which action it is for and which proposal
/// it is about: two messages that read alike agree in these, whatever their
/// content and their wallets' names.
pub proof fn message_fixes_expiry_action_and_proposal(
    ctx1: ContextView,
    content1: Seq<u8>,
    ctx2: ContextView,
    content2: Seq<u8>,
)
    requires
        has_plain_year(ctx1.expiry as int),
        has_plain_year(ctx2.expiry as int),
        is_action(ctx1.action),
        is_action(ctx2.action),
        message_text(ctx1, content1) == message_text(ctx2, content2),
    ensures
        ctx1.expiry == ctx2.expiry,
        ctx1.action == ctx2.action,
        ctx1.proposal_index == ctx2.proposal_index,
{
    lemma_fixed_parts();
    timestamp_text_len(ctx1.expiry as int);
    timestamp_text_len(ctx2.expiry as int);
    let t1 = message_text(ctx1, content1);
    let t2 = message_text(ctx2, content2);
    assert(t1.subrange(8, 27) =~= timestamp_text(ctx1.expiry as int));
    assert(t2.subrange(8, 27) =~= timestamp_text(ctx2.expiry as int));
    timestamp_text_is_unambiguous(ctx1.expiry as int, ctx2.expiry as int);
    assert(t1[29] == ctx1.action[0]);
    assert(t2[29] == ctx2.action[0]);
    let index1 = decimal(ctx1.proposal_index as nat);
    let index2 = decimal(ctx2.proposal_index as nat);
    let front1 = header_text(ctx1) + content1 + " | wallet: ".spec_bytes() + ctx1.wallet_name
        + " proposal: ".spec_bytes();
    let front2 = header_text(ctx2) + content2 + " | wallet: ".spec_bytes() + ctx2.wallet_name
        + " proposal: ".spec_bytes();
    assert(t1 =~= front1 + index1);
    assert(t2 =~= front2 + index2);
    lemma_decimal_has_no_space(ctx1.proposal_index as nat);
    lemma_decimal_has_no_space(ctx2.proposal_index as nat);
    lemma_last_word(front1, index1, front2, index2);
    lemma_decimal_injective(ctx1.proposal_index as nat, ctx2.proposal_index as nat);
}

/// Two messages that read alike and agree in what is behind their action and
/// before their proposal's index.
proof fn lemma_same_middle(ctx1: ContextView, content1: Seq<u8>, ctx2: ContextView, content2: Seq<u8>)
    requires
        has_plain_year(ctx1.expiry as int),
        has_plain_year(ctx2.expiry as int),
        is_action(ctx1.action),
        is_action(ctx2.action),
        message_text(ctx1, content1) == message_text(ctx2, content2),
    ensures
        content1 + (" | wallet: ".spec_bytes() + ctx1.wallet_name) == content2 + (
        " | wallet: ".spec_bytes() + ctx2.wallet_name),
{
    message_fixes_expiry_action_and_proposal(ctx1, content1, ctx2, content2);
    let wallet = " | wallet: ".spec_bytes();
    let tail = " proposal: ".spec_bytes() + decimal(ctx1.proposal_index as nat);
    assert(message_text(ctx1, content1) =~= header_text(ctx1) + (content1 + (wallet
        + ctx1.wallet_name)) + tail);
    assert(message_text(ctx2, content2) =~= header_text(ctx2) + (content2 + (wallet
        + ctx2.wallet_name)) + tail);
    lemma_cut(
        header_text(ctx1),
        content1 + (wallet + ctx1.wallet_name),
        tail,
        header_text(ctx2),
        content2 + (wallet + ctx2.wallet_name),
        tail,
    );
}

/// A message to remove an intent says everything: two that read alike are for
/// the same action on the same proposal of a wallet with the same name, expire
/// at the same time and remove the same intent.
pub proof fn remove_message_is_unambiguous(
    ctx1: ContextView,
    intent_index1: u8,
    ctx2: ContextView,
    intent_index2: u8,
)
    requires
        has_plain_year(ctx1.expiry as int),
        has_plain_year(ctx2.expiry as int),
        is_action(ctx1.action),
        is_action(ctx2.action),
        message_text(ctx1, remove_intent_text(intent_index1)) == message_text(
            ctx2,
            remove_intent_text(intent_index2),
        ),
    ensures
        ctx1 == ctx2,
        intent_index1 == intent_index2,
{
    let content1 = remove_intent_text(intent_index1);
    let content2 = remove_intent_text(intent_index2);
    message_fixes_expiry_action_and_proposal(ctx1, content1, ctx2, content2);
    lemma_same_middle(ctx1, content1, ctx2, content2);
    lemma_fixed_parts();
    let remove = "remove intent ".spec_bytes();
    let wallet = " | wallet: ".spec_bytes();
    let index1 = decimal(intent_index1 as nat);
    let index2 = decimal(intent_index2 as nat);
    let rest1 = wallet + ctx1.wallet_name;
    let rest2 = wallet + ctx2.wallet_name;
    assert(content1 + rest1 =~= remove + (index1 + rest1) + Seq::<u8>::empty());
    assert(content2 + rest2 =~= remove + (index2 + rest2) + Seq::<u8>::empty());
    lemma_cut(
        remove,
        index1 + rest1,
        Seq::empty(),
        remove,
        index2 + rest2,
        Seq::empty(),
    );
    lemma_decimal_has_no_space(intent_index1 as nat);
    lemma_decimal_has_no_space(intent_index2 as nat);
    assert(rest1[0] == 32 && rest2[0] == 32);
    lemma_first_word(index1, rest1, index2, rest2);
    lemma_decimal_injective(intent_index1 as nat, intent_index2 as nat);
    assert(ctx1.wallet_name =~= rest1.skip(11));
    assert(ctx2.wallet_name =~= rest2.skip(11));
}

proof fn lemma_hex_len(bytes: Seq<u8>)
    ensures
        hex(bytes).len() == 2 * bytes.len(),
    decreases bytes.len(),
{
    if bytes.len() > 0 {
        lemma_hex_len(bytes.drop_last());
    }
}

proof fn lemma_hex_pair_injective(a: u8, b: u8)
    requires
        hex_pair(a) == hex_pair(b),
    ensures
        a == b,
{
    assert(hex_pair(a)[0] == hex_digit(a as int / 16));
    assert(hex_pair(b)[0] == hex_digit(b as int / 16));
    assert(hex_pair(a)[1] == hex_digit(a as int % 16));
    assert(hex_pair(b)[1] == hex_digit(b as int % 16));
    assert(a as int / 16 == b as int / 16);
    assert(a as int % 16 == b as int % 16);
}

/// Two byte strings with the same hexadecimal text are equal.
pub proof fn hex_is_unambiguous(a: Seq<u8>, b: Seq<u8>)
    requires
        hex(a) == hex(b),
    ensures
        a == b,
    decreases a.len(),
{
    lemma_hex_len(a);
    lemma_hex_len(b);
    if a.len() > 0 {
        lemma_hex_len(a.drop_last());
        lemma_hex_len(b.drop_last());
        let n = hex(a).len() - 2;
        assert(hex(a.drop_last()) =~= hex(a).take(n));
        assert(hex(b.drop_last()) =~= hex(b).take(n));
        assert(hex_pair(a.last()) =~= hex(a).skip(n));
        assert(hex_pair(b.last()) =~= hex(b).skip(n));
        hex_is_unambiguous(a.drop_last(), b.drop_last());
        lemma_hex_pair_injective(a.last(), b.last());
        assert(a =~= a.drop_last().push(a.last()));
        assert(b =~= b.drop_last().push(b.last()));
    } else {
        assert(a =~= b);
    }
}

/// A message to add an intent says everything: two that read alike are for the
/// same action on the same proposal of a wallet with the same name, expire at
/// the same time and have the same definition hash.
pub proof fn add_message_is_unambiguous(
    ctx1: ContextView,
    hash1: Seq<u8>,
    ctx2: ContextView,
    hash2: Seq<u8>,
)
    requires
        has_plain_year(ctx1.expiry as int),
        has_plain_year(ctx2.expiry as int),
        is_action(ctx1.action),
        is_action(ctx2.action),
        hash1.len() == hash2.len(),
        message_text(ctx1, add_intent_text(hash1)) == message_text(ctx2, add_intent_text(hash2)),
    ensures
        ctx1 == ctx2,
        hash1 == hash2,
{
    let content1 = add_intent_text(hash1);
    let content2 = add_intent_text(hash2);
    message_fixes_expiry_action_and_proposal(ctx1, content1, ctx2, content2);
    lemma_same_middle(ctx1, content1, ctx2, content2);
    lemma_fixed_parts();
    lemma_hex_len(hash1);
    lemma_hex_len(hash2);
    let words = "add intent definition_hash: ".spec_bytes();
    let rest1 = " | wallet: ".spec_bytes() + ctx1.wallet_name;
    let rest2 = " | wallet: ".spec_bytes() + ctx2.wallet_name;
    let t1 = content1 + rest1;
    let t2 = content2 + rest2;
    let n = 28 + 2 * hash1.len();
    assert(hex(hash1) =~= t1.subrange(28, n as int));
    assert(hex(hash2) =~= t2.subrange(28, n as int));
    hex_is_unambiguous(hash1, hash2);
    assert(ctx1.wallet_name =~= t1.skip(n as int + 11));
    assert(ctx2.wallet_name =~= t2.skip(n as int + 11));
}

/// A message to update an intent says everything: two that read alike are for
/// the same action on the same proposal of a wallet with the same name, expire
/// at the same time, and update the same intent to the same definition hash.
#[verifier::spinoff_prover]
#[verifier::rlimit(60)]
pub proof fn update_message_is_unambiguous(
    ctx1: ContextView,
    intent_index1: u8,
    hash1: Seq<u8>,
    ctx2: ContextView,
    intent_index2: u8,
    hash2: Seq<u8>,
)
    requires
        has_plain_year(ctx1.expiry as int),
        has_plain_year(ctx2.expiry as int),
        is_action(ctx1.action),
        is_action(ctx2.action),
        hash1.len() == hash2.len(),
        message_text(ctx1, update_intent_text(intent_index1, hash1)) == message_text(
            ctx2,
            update_intent_text(intent_index2, hash2),
        ),
    ensures
        ctx1 == ctx2,
        intent_index1 == intent_index2,
        hash1 == hash2,
{
    let content1 = update_intent_text(intent_index1, hash1);
    let content2 = update_intent_text(intent_index2, hash2);
    message_fixes_expiry_action_and_proposal(ctx1, content1, ctx2, content2);
    lemma_same_middle(ctx1, content1, ctx2, content2);
    lemma_fixed_parts();
    lemma_hex_len(hash1);
    lemma_hex_len(hash2);
    let update = "update intent ".spec_bytes();
    let wallet = " | wallet: ".spec_bytes();
    let words = " definition_hash: ".spec_bytes();
    let index1 = decimal(intent_index1 as nat);
    let index2 = decimal(intent_index2 as nat);
    let rest1 = words + hex(hash1) + wallet + ctx1.wallet_name;
    let rest2 = words + hex(hash2) + wallet + ctx2.wallet_name;
    assert(content1 + (wallet + ctx1.wallet_name) =~= update + (index1 + rest1)
        + Seq::<u8>::empty());
    assert(content2 + (wallet + ctx2.wallet_name) =~= update + (index2 + rest2)
        + Seq::<u8>::empty());
    lemma_cut(update, index1 + rest1, Seq::empty(), update, index2 + rest2, Seq::empty());
    lemma_decimal_has_no_space(intent_index1 as nat);
    lemma_decimal_has_no_space(intent_index2 as nat);
    assert(rest1[0] == 32 && rest2[0] == 32);
    lemma_first_word(index1, rest1, index2, rest2);
    lemma_decimal_injective(intent_index1 as nat, intent_index2 as nat);
    let n = 18 + 2 * hash1.len();
    assert(hex(hash1) =~= rest1.subrange(18, n as int));
    assert(hex(hash2) =~= rest2.subrange(18, n as int));
    hex_is_unambiguous(hash1, hash2);
    assert(ctx1.wallet_name =~= rest1.skip(n as int + 11));
    assert(ctx2.wallet_name =~= rest2.skip(n as int + 11));
}

/// Messages with different first letters of their contents differ.
proof fn lemma_other_content(
    ctx1: ContextView,
    content1: Seq<u8>,
    ctx2: ContextView,
    content2: Seq<u8>,
)
    requires
        has_plain_year(ctx1.expiry as int),
        has_plain_year(ctx2.expiry as int),
        is_action(ctx1.action),
        is_action(ctx2.action),
        content1.len() > 0,
        content2.len() > 0,
        content1[0] != content2[0],
    ensures
        message_text(ctx1, content1) != message_text(ctx2, content2),
{
    if message_text(ctx1, content1) == message_text(ctx2, content2) {
        lemma_same_middle(ctx1, content1, ctx2, content2);
        let rest1 = " | wallet: ".spec_bytes() + ctx1.wallet_name;
        let rest2 = " | wallet: ".spec_bytes() + ctx2.wallet_name;
        assert((content1 + rest1)[0] == content1[0]);
        assert((content2 + rest2)[0] == content2[0]);
    }
}

/// Adding, removing and updating an intent cannot be taken for one another:
/// their messages never read alike.
pub proof fn changes_to_intents_read_differently(
    ctx1: ContextView,
    ctx2: ContextView,
    intent_index1: u8,
    intent_index2: u8,
    hash1: Seq<u8>,
    hash2: Seq<u8>,
)
    requires
        has_plain_year(ctx1.expiry as int),
        has_plain_year(ctx2.expiry as int),
        is_action(ctx1.action),
        is_action(ctx2.action),
    ensures
        message_text(ctx1, add_intent_text(hash1)) != message_text(
            ctx2,
            remove_intent_text(intent_index2),
        ),
        message_text(ctx1, add_intent_text(hash1)) != message_text(
            ctx2,
            update_intent_text(intent_index2, hash2),
        ),
        message_text(ctx1, remove_intent_text(intent_index1)) != message_text(
            ctx2,
            update_intent_text(intent_index2, hash2),
        ),
{
    lemma_fixed_parts();
    let added = add_intent_text(hash1);
    let removed1 = remove_intent_text(intent_index1);
    let removed2 = remove_intent_text(intent_index2);
    let updated = update_intent_text(intent_index2, hash2);
    assert(added[0] == 97 && removed1[0] == 114 && removed2[0] == 114 && updated[0] == 117);
    lemma_other_content(ctx1, added, ctx2, removed2);
    lemma_other_content(ctx1, added, ctx2, updated);
    lemma_other_content(ctx1, removed1, ctx2, updated);
}

/// The offchain header hides nothing: two wrapped texts are equal only where
/// the texts are.
pub proof fn offchain_message_is_unambiguous(a: Seq<u8>, b: Seq<u8>)
    requires
        offchain_message(a) == offchain_message(b),
    ensures
        a == b,
{
    crate::bytes::le_bytes_len(a.len(), 2);
    crate::bytes::le_bytes_len(b.len(), 2);
    assert(offchain_message(a).skip(20) =~= a);
    assert(offchain_message(b).skip(20) =~= b);
}

/// What is signed for a change to a wallet's intents counts for no other
/// change: where two such messages are equal, they are for the same action on
/// the same proposal of a wallet with the same name, expire at the same time,
/// and make the same kind of change with parameters that are equal, or of
/// which the hash is shown and equal. Hashes are equally long.
pub proof fn signed_changes_are_unambiguous(
    ctx1: ContextView,
    intent1: Intent,
    data1: Seq<u8>,
    ctx2: ContextView,
    intent2: Intent,
    data2: Seq<u8>,
)
    requires
        is_action(ctx1.action),
        is_action(ctx2.action),
        intent1.intent_type != IntentType::Custom,
        intent2.intent_type != IntentType::Custom,
        intent1.intent_type == IntentType::AddIntent && intent2.intent_type
            == IntentType::AddIntent ==> sha256_digest(data1).len() == sha256_digest(data2).len(),
        intent1.intent_type == IntentType::UpdateIntent && intent2.intent_type
            == IntentType::UpdateIntent ==> sha256_digest(data1.skip(1)).len() == sha256_digest(
            data2.skip(1),
        ).len(),
        signed_message(ctx1, intent1, data1) is Ok,
        signed_message(ctx1, intent1, data1) == signed_message(ctx2, intent2, data2),
    ensures
        ctx1 == ctx2,
        intent1.intent_type == intent2.intent_type,
        match intent1.intent_type {
            IntentType::AddIntent => sha256_digest(data1) == sha256_digest(data2),
            IntentType::RemoveIntent => data1 == data2,
            _ => {
                &&& data1[0] == data2[0]
                &&& sha256_digest(data1.skip(1)) == sha256_digest(data2.skip(1))
            },
        },
{
    every_message_has_the_format(ctx1, intent1, data1);
    every_message_has_the_format(ctx2, intent2, data2);
    let content1 = content_text(intent1, data1)->0;
    let content2 = content_text(intent2, data2)->0;
    offchain_message_is_unambiguous(message_text(ctx1, content1), message_text(ctx2, content2));
    let hash1 = sha256_digest(data1);
    let hash2 = sha256_digest(data2);
    let body1 = sha256_digest(data1.skip(1));
    let body2 = sha256_digest(data2.skip(1));
    match (intent1.intent_type, intent2.intent_type) {
        (IntentType::AddIntent, IntentType::AddIntent) => {
            add_message_is_unambiguous(ctx1, hash1, ctx2, hash2);
        },
        (IntentType::RemoveIntent, IntentType::RemoveIntent) => {
            remove_message_is_unambiguous(ctx1, data1[0], ctx2, data2[0]);
            assert(data1 =~= data2);
        },
        (IntentType::UpdateIntent, IntentType::UpdateIntent) => {
            update_message_is_unambiguous(ctx1, data1[0], body1, ctx2, data2[0], body2);
        },
        (IntentType::AddIntent, IntentType::RemoveIntent) => {
            changes_to_intents_read_differently(ctx1, ctx2, 0, data2[0], hash1, body2);
        },
        (IntentType::AddIntent, _) => {
            changes_to_intents_read_differently(ctx1, ctx2, 0, data2[0], hash1, body2);
        },
        (IntentType::RemoveIntent, IntentType::AddIntent) => {
            changes_to_intents_read_differently(ctx2, ctx1, 0, data1[0], hash2, body1);
        },
        (IntentType::RemoveIntent, _) => {
            changes_to_intents_read_differently(ctx1, ctx2, data1[0], data2[0], hash1, body2);
        },
        (_, IntentType::AddIntent) => {
            changes_to_intents_read_differently(ctx2, ctx1, 0, data1[0], hash2, body1);
        },
        (_, _) => {
            changes_to_intents_read_differently(ctx2, ctx1, data2[0], data1[0], hash2, body1);
        },
    }
}

/// How long a message is, apart from its content and its wallet's name.
proof fn lemma_message_len(ctx: ContextView, content: Seq<u8>)
    requires
        has_plain_year(ctx.expiry as int),
        is_action(ctx.action),
    ensures
        message_text(ctx, content).len() <= 79 + content.len() + ctx.wallet_name.len(),
{
    lemma_fixed_parts();
    timestamp_text_len(ctx.expiry as int);
    crate::text::lemma_decimal_len_u64(ctx.proposal_index);
}

/// The program checks the text that the client signs, for the removal of an
/// intent: `remove_intent_msg` gives the message that is signed for a wallet
/// whose name has at most 64 bytes, where the expiry lies in the years 0 to
/// 9999. Elsewhere there is no such message.
pub proof fn client_and_program_agree_on_removal(ctx: ContextView, intent: Intent, intent_index: u8)
    requires
        intent.intent_type == IntentType::RemoveIntent,
        is_action(ctx.action),
        ctx.wallet_name.len() <= 64,
    ensures
        signed_message(ctx, intent, seq![intent_index]) == if has_plain_year(ctx.expiry as int) {
            Ok::<Seq<u8>, ProgramError>(
                offchain_message(message_text(ctx, remove_intent_text(intent_index))),
            )
        } else {
            Err(ProgramError::InvalidInstructionData)
        },
{
    let front = Seq::new(20, |i: int| 0u8);
    let content = remove_intent_text(intent_index);
    let text = message_text(ctx, content);
    remove_message(draft(front), ctx, intent_index);
    if has_plain_year(ctx.expiry as int) {
        lemma_message_len(ctx, content);
        lemma_fixed_parts();
        crate::text::lemma_decimal_len(intent_index as nat);
        assert((front + text).skip(20) =~= text);
    }
}

/// The program checks the text that the client signs, for the addition of an
/// intent: `add_intent_msg` gives the message that is signed for a wallet
/// whose name has at most 64 bytes, where the expiry lies in the years 0 to
/// 9999 and the definition hash has the 32 bytes of a digest. Elsewhere there
/// is no such message.
pub proof fn client_and_program_agree_on_addition(ctx: ContextView, intent: Intent, data: Seq<u8>)
    requires
        intent.intent_type == IntentType::AddIntent,
        is_action(ctx.action),
        ctx.wallet_name.len() <= 64,
        sha256_digest(data).len() == 32,
    ensures
        signed_message(ctx, intent, data) == if has_plain_year(ctx.expiry as int) {
            Ok::<Seq<u8>, ProgramError>(
                offchain_message(message_text(ctx, add_intent_text(sha256_digest(data)))),
            )
        } else {
            Err(ProgramError::InvalidInstructionData)
        },
{
    let front = Seq::new(20, |i: int| 0u8);
    let hash = sha256_digest(data);
    let content = add_intent_text(hash);
    let text = message_text(ctx, content);
    add_message(draft(front), ctx, hash);
    if has_plain_year(ctx.expiry as int) {
        lemma_message_len(ctx, content);
        lemma_fixed_parts();
        lemma_hex_len(hash);
        assert((front + text).skip(20) =~= text);
    }
}

} // verus!
