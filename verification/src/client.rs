//! What a client of the program sends: the texts that members sign, and the
//! data and accounts of each instruction.
use crate::bytes::{le_bytes, push_le, to_u64_bits, u64_bits};
use crate::crypto::{
    ed25519_public_key, ed25519_signature, public_key, sha256, sha256_digest, sign,
};
use crate::text::{append_bytes, copy_range, decimal_bytes, hex, hex_pair_bytes, same_text};
use crate::utils::datetime::{timestamp_bytes, timestamp_text};
use crate::utils::message::{
    add_intent_text, message_text, offchain_header_bytes, offchain_message, remove_intent_text,
    suffix_text, ContextView,
};
use vstd::prelude::*;
use vstd::string::StringSliceAdditionalSpecFns;

verus! {

/// When the messages of the benchmark expire.
pub const DEFAULT_EXPIRY: i64 = 1_000_000_000;

/// The SHA-256 digest of data.
pub fn sha256_bytes(data: &[u8]) -> (digest: [u8; 32])
    ensures
        digest@ == sha256_digest(data@),
{
    sha256(data)
}

/// An ed25519 key, as the seed that it is made from.
#[derive(Clone, Copy)]
pub struct SigningKey {
    pub seed: [u8; 32],
}

/// Derive a deterministic ed25519 keypair from a label.
pub fn ed25519_keypair_from_label(label: &str) -> (key: SigningKey)
    ensures
        key.seed@ == sha256_digest(label.spec_bytes()),
{
    SigningKey { seed: sha256(label.as_bytes()) }
}

/// The public key of a key.
pub fn ed25519_pubkey(key: &SigningKey) -> (r: [u8; 32])
    ensures
        r@ == ed25519_public_key(key.seed@),
{
    public_key(&key.seed)
}

/// Signs a message.
pub fn sign_message(key: &SigningKey, msg: &[u8]) -> (signature: [u8; 64])
    ensures
        signature@ == ed25519_signature(key.seed@, msg@),
{
    sign(&key.seed, msg)
}

/// Puts the Solana offchain message header in front of a body (for Ledger
/// compatibility).
pub fn wrap_offchain(body: &[u8]) -> (out: Vec<u8>)
    ensures
        out@ == offchain_message(body@),
{
    let mut out = offchain_header_bytes(body.len());
    append_bytes(&mut out, body);
    out
}

/// A timestamp as `YYYY-MM-DD hh:mm:ss`.
pub fn format_timestamp(ts: i64) -> (text: Vec<u8>)
    ensures
        text@ == timestamp_text(ts as int),
{
    timestamp_bytes(ts)
}

/// Bytes in lower-case hexadecimal.
pub fn hex_encode(data: &[u8]) -> (text: Vec<u8>)
    ensures
        text@ == hex(data@),
{
    let mut text: Vec<u8> = Vec::new();
    let mut i: usize = 0;
    while i < data.len()
        invariant
            i <= data@.len(),
            text@ == hex(data@.take(i as int)),
        decreases data@.len() - i,
    {
        assert(data@.take(i as int + 1).drop_last() =~= data@.take(i as int));
        let pair = hex_pair_bytes(data[i]);
        append_bytes(&mut text, &pair);
        i = i + 1;
    }
    assert(data@.take(i as int) =~= data@);
    text
}

/// The end of every message.
pub fn suffix(wallet_name: &str, proposal_index: u64) -> (text: Vec<u8>)
    ensures
        text@ == suffix_text(wallet_name.spec_bytes(), proposal_index),
{
    let mut text: Vec<u8> = Vec::new();
    append_bytes(&mut text, " | wallet: ".as_bytes());
    append_bytes(&mut text, wallet_name.as_bytes());
    append_bytes(&mut text, " proposal: ".as_bytes());
    append_bytes(&mut text, decimal_bytes(proposal_index as u128).as_slice());
    assert(text@ =~= suffix_text(wallet_name.spec_bytes(), proposal_index));
    text
}

/// The context of a message, from the arguments of a message builder.
pub open spec fn context(action: &str, expiry: i64, wallet_name: &str, proposal_index: u64) -> ContextView {
    ContextView {
        expiry,
        action: action.spec_bytes(),
        wallet_name: wallet_name.spec_bytes(),
        proposal_index,
    }
}

/// Writes a message with the given content.
fn message(action: &str, expiry: i64, wallet_name: &str, proposal_index: u64, content: &[u8]) -> (r:
    Vec<u8>)
    ensures
        r@ == offchain_message(
            message_text(context(action, expiry, wallet_name, proposal_index), content@),
        ),
{
    let mut body: Vec<u8> = Vec::new();
    append_bytes(&mut body, "expires ".as_bytes());
    append_bytes(&mut body, format_timestamp(expiry).as_slice());
    append_bytes(&mut body, ": ".as_bytes());
    append_bytes(&mut body, action.as_bytes());
    append_bytes(&mut body, " ".as_bytes());
    append_bytes(&mut body, content);
    append_bytes(&mut body, suffix(wallet_name, proposal_index).as_slice());
    assert(body@ =~= message_text(
        context(action, expiry, wallet_name, proposal_index),
        content@,
    ));
    wrap_offchain(body.as_slice())
}

/// Build a "remove intent <N>" message (for RemoveIntent meta-intent).
pub fn remove_intent_msg(
    action: &str,
    expiry: i64,
    wallet_name: &str,
    proposal_index: u64,
    intent_index: u8,
) -> (r: Vec<u8>)
    ensures
        r@ == offchain_message(
            message_text(
                context(action, expiry, wallet_name, proposal_index),
                remove_intent_text(intent_index),
            ),
        ),
{
    let mut content: Vec<u8> = Vec::new();
    append_bytes(&mut content, "remove intent ".as_bytes());
    append_bytes(&mut content, decimal_bytes(intent_index as u128).as_slice());
    assert(content@ =~= remove_intent_text(intent_index));
    message(action, expiry, wallet_name, proposal_index, content.as_slice())
}

/// Build an "add intent definition_hash: <hex>" message (for AddIntent meta-intent).
pub fn add_intent_msg(
    action: &str,
    expiry: i64,
    wallet_name: &str,
    proposal_index: u64,
    data: &[u8],
) -> (r: Vec<u8>)
    ensures
        r@ == offchain_message(
            message_text(
                context(action, expiry, wallet_name, proposal_index),
                add_intent_text(sha256_digest(data@)),
            ),
        ),
{
    let digest = sha256(data);
    add_intent_msg_for_hash(action, expiry, wallet_name, proposal_index, &digest)
}

/// Build an "add intent definition_hash: <hex>" message from the hash of the
/// definition.
pub fn add_intent_msg_for_hash(
    action: &str,
    expiry: i64,
    wallet_name: &str,
    proposal_index: u64,
    definition_hash: &[u8; 32],
) -> (r: Vec<u8>)
    ensures
        r@ == offchain_message(
            message_text(
                context(action, expiry, wallet_name, proposal_index),
                add_intent_text(definition_hash@),
            ),
        ),
{
    let mut content: Vec<u8> = Vec::new();
    append_bytes(&mut content, "add intent definition_hash: ".as_bytes());
    append_bytes(&mut content, hex_encode(definition_hash).as_slice());
    assert(content@ =~= add_intent_text(definition_hash@));
    message(action, expiry, wallet_name, proposal_index, content.as_slice())
}

/// Which program variant an instruction is for.
#[derive(Clone, Copy, PartialEq, Eq, Debug, Structural)]
pub enum ProgramKind {
    AnchorV2,
    Quasar,
}

/// The number of an instruction of the Quasar program.
pub open spec fn quasar_number(fn_name: Seq<char>) -> Option<u8> {
    if fn_name == "create_wallet"@ {
        Some(0)
    } else if fn_name == "propose"@ {
        Some(1)
    } else if fn_name == "approve"@ {
        Some(2)
    } else if fn_name == "cancel"@ {
        Some(3)
    } else if fn_name == "execute"@ {
        Some(4)
    } else if fn_name == "cleanup_proposal"@ {
        Some(5)
    } else {
        None
    }
}

/// The instructions of the Quasar program have different numbers.
pub proof fn quasar_numbers()
    ensures
        quasar_number("create_wallet"@) == Some(0u8),
        quasar_number("propose"@) == Some(1u8),
        quasar_number("approve"@) == Some(2u8),
        quasar_number("cancel"@) == Some(3u8),
        quasar_number("execute"@) == Some(4u8),
        quasar_number("cleanup_proposal"@) == Some(5u8),
{
    reveal_strlit("create_wallet");
    reveal_strlit("propose");
    reveal_strlit("approve");
    reveal_strlit("cancel");
    reveal_strlit("execute");
    reveal_strlit("cleanup_proposal");
    assert("propose"@[0] == 'p');
    assert("approve"@[0] == 'a');
    assert("execute"@[0] == 'e');
    assert("create_wallet"@.len() == 13);
    assert("cancel"@.len() == 6);
    assert("cleanup_proposal"@.len() == 16);
}

/// The discriminator of an instruction.
pub open spec fn discriminator_bytes(kind: ProgramKind, fn_name: &str) -> Seq<u8> {
    match kind {
        ProgramKind::AnchorV2 => sha256_digest("global:".spec_bytes() + fn_name.spec_bytes()).take(
            8,
        ),
        ProgramKind::Quasar => seq![quasar_number(fn_name@)->0],
    }
}

impl ProgramKind {
    /// Instruction discriminator bytes. Anchor v2 uses sha256("global:name")[..8];
    /// Quasar uses a single explicit u8.
    pub fn discriminator(self, fn_name: &str) -> (r: Vec<u8>)
        requires
            self == ProgramKind::Quasar ==> quasar_number(fn_name@) is Some,
        ensures
            r@ == discriminator_bytes(self, fn_name),
            self == ProgramKind::AnchorV2 ==> r@.len() == 8,
            self == ProgramKind::Quasar ==> r@.len() == 1,
    {
        match self {
            ProgramKind::AnchorV2 => {
                let mut label: Vec<u8> = Vec::new();
                append_bytes(&mut label, "global:".as_bytes());
                append_bytes(&mut label, fn_name.as_bytes());
                assert(label@ =~= "global:".spec_bytes() + fn_name.spec_bytes());
                let hash = sha256(label.as_slice());
                let r = copy_range(&hash, 0, 8);
                assert(r@ =~= hash@.take(8));
                r
            },
            ProgramKind::Quasar => {
                let n: u8 = if same_text(fn_name, "create_wallet") {
                    0
                } else if same_text(fn_name, "propose") {
                    1
                } else if same_text(fn_name, "approve") {
                    2
                } else if same_text(fn_name, "cancel") {
                    3
                } else if same_text(fn_name, "execute") {
                    4
                } else {
                    5
                };
                let r: Vec<u8> = vec![n];
                assert(r@ =~= seq![n]);
                r
            },
        }
    }
}

/// Keys one behind the other.
pub open spec fn key_bytes(keys: Seq<Seq<u8>>) -> Seq<u8>
    decreases keys.len(),
{
    if keys.len() == 0 {
        Seq::empty()
    } else {
        key_bytes(keys.drop_last()) + keys.last()
    }
}

/// The bytes of each key.
pub open spec fn key_views(keys: Seq<[u8; 32]>) -> Seq<Seq<u8>> {
    keys.map_values(|key: [u8; 32]| key@)
}

/// How many bytes a length takes in front of a list.
pub open spec fn length_width(kind: ProgramKind) -> nat {
    match kind {
        ProgramKind::AnchorV2 => 8,
        ProgramKind::Quasar => 4,
    }
}

/// The arguments of a wallet creation, with each length in front of its list.
pub open spec fn create_wallet_args(
    kind: ProgramKind,
    approval_threshold: u8,
    cancellation_threshold: u8,
    timelock_seconds: u32,
    name: Seq<u8>,
    proposers: Seq<Seq<u8>>,
    approvers: Seq<Seq<u8>>,
) -> Seq<u8> {
    let width = length_width(kind);
    seq![approval_threshold, cancellation_threshold] + le_bytes(timelock_seconds as nat, 4)
        + le_bytes(name.len(), width) + name + le_bytes(proposers.len(), width) + key_bytes(
        proposers,
    ) + le_bytes(approvers.len(), width) + key_bytes(approvers)
}

/// The arguments of a proposal. Anchor v2 loads the proposal index from the
/// wallet account and has a length in front of the parameters; Quasar takes
/// the index as an argument and the parameters to the end of the data.
pub open spec fn propose_args(
    kind: ProgramKind,
    proposal_index: u64,
    expiry: i64,
    proposer_pubkey: Seq<u8>,
    signature: Seq<u8>,
    params_data: Seq<u8>,
) -> Seq<u8> {
    match kind {
        ProgramKind::AnchorV2 => le_bytes(u64_bits(expiry), 8) + proposer_pubkey + signature
            + le_bytes(params_data.len(), 8) + params_data,
        ProgramKind::Quasar => le_bytes(proposal_index as nat, 8) + le_bytes(u64_bits(expiry), 8)
            + proposer_pubkey + signature + params_data,
    }
}

/// The arguments of an approval or a cancellation.
pub open spec fn vote_args(expiry: i64, index: u8, signature: Seq<u8>) -> Seq<u8> {
    le_bytes(u64_bits(expiry), 8) + seq![index] + signature
}

/// Appends a list of keys with its length in front.
fn append_keys(data: &mut Vec<u8>, keys: &[[u8; 32]], width: usize)
    ensures
        final(data)@ == old(data)@ + le_bytes(keys@.len(), width as nat) + key_bytes(
            key_views(keys@),
        ),
{
    push_le(data, keys.len() as u64, width);
    let ghost before = data@;
    let mut i: usize = 0;
    while i < keys.len()
        invariant
            i <= keys@.len(),
            data@ =~= before + key_bytes(key_views(keys@).take(i as int)),
        decreases keys@.len() - i,
    {
        assert(key_views(keys@).take(i as int + 1).drop_last() =~= key_views(keys@).take(
            i as int,
        ));
        append_bytes(data, &keys[i]);
        i = i + 1;
    }
    assert(key_views(keys@).take(i as int) =~= key_views(keys@));
}

/// Appends the arguments of a wallet creation.
pub fn append_create_wallet_args(
    data: &mut Vec<u8>,
    kind: ProgramKind,
    approval_threshold: u8,
    cancellation_threshold: u8,
    timelock_seconds: u32,
    name: &[u8],
    proposers: &[[u8; 32]],
    approvers: &[[u8; 32]],
)
    ensures
        final(data)@ == old(data)@ + create_wallet_args(
            kind,
            approval_threshold,
            cancellation_threshold,
            timelock_seconds,
            name@,
            key_views(proposers@),
            key_views(approvers@),
        ),
{
    let ghost before = data@;
    data.push(approval_threshold);
    data.push(cancellation_threshold);
    push_le(data, timelock_seconds as u64, 4);
    let width: usize = match kind {
        ProgramKind::AnchorV2 => 8,
        ProgramKind::Quasar => 4,
    };
    push_le(data, name.len() as u64, width);
    append_bytes(data, name);
    append_keys(data, proposers, width);
    append_keys(data, approvers, width);
    assert(data@ =~= before + create_wallet_args(
        kind,
        approval_threshold,
        cancellation_threshold,
        timelock_seconds,
        name@,
        key_views(proposers@),
        key_views(approvers@),
    ));
}

/// Appends the arguments of a proposal.
pub fn append_propose_args(
    data: &mut Vec<u8>,
    kind: ProgramKind,
    proposal_index: u64,
    expiry: i64,
    proposer_pubkey: &[u8; 32],
    signature: &[u8; 64],
    params_data: &[u8],
)
    ensures
        final(data)@ == old(data)@ + propose_args(
            kind,
            proposal_index,
            expiry,
            proposer_pubkey@,
            signature@,
            params_data@,
        ),
{
    let ghost before = data@;
    if kind == ProgramKind::Quasar {
        push_le(data, proposal_index, 8);
    }
    push_le(data, to_u64_bits(expiry), 8);
    append_bytes(data, proposer_pubkey);
    append_bytes(data, signature);
    if kind == ProgramKind::AnchorV2 {
        push_le(data, params_data.len() as u64, 8);
    }
    append_bytes(data, params_data);
    assert(data@ =~= before + propose_args(
        kind,
        proposal_index,
        expiry,
        proposer_pubkey@,
        signature@,
        params_data@,
    ));
}

/// Appends the arguments of an approval or a cancellation.
pub fn append_vote_args(data: &mut Vec<u8>, expiry: i64, index: u8, signature: &[u8; 64])
    ensures
        final(data)@ == old(data)@ + vote_args(expiry, index, signature@),
{
    let ghost before = data@;
    push_le(data, to_u64_bits(expiry), 8);
    data.push(index);
    append_bytes(data, signature);
    assert(data@ =~= before + vote_args(expiry, index, signature@));
}

/// Build create_wallet instruction data for the given program kind.
pub fn build_create_wallet_data(
    kind: ProgramKind,
    approval_threshold: u8,
    cancellation_threshold: u8,
    timelock_seconds: u32,
    name: &[u8],
    proposers: &[[u8; 32]],
    approvers: &[[u8; 32]],
) -> (data: Vec<u8>)
    ensures
        data@ == discriminator_bytes(kind, "create_wallet") + create_wallet_args(
            kind,
            approval_threshold,
            cancellation_threshold,
            timelock_seconds,
            name@,
            key_views(proposers@),
            key_views(approvers@),
        ),
{
    proof {
        quasar_numbers();
    }
    let mut data = kind.discriminator("create_wallet");
    append_create_wallet_args(
        &mut data,
        kind,
        approval_threshold,
        cancellation_threshold,
        timelock_seconds,
        name,
        proposers,
        approvers,
    );
    data
}

/// Build propose instruction data.
pub fn build_propose_data(
    kind: ProgramKind,
    proposal_index: u64,
    expiry: i64,
    proposer_pubkey: &[u8; 32],
    signature: &[u8; 64],
    params_data: &[u8],
) -> (data: Vec<u8>)
    ensures
        data@ == discriminator_bytes(kind, "propose") + propose_args(
            kind,
            proposal_index,
            expiry,
            proposer_pubkey@,
            signature@,
            params_data@,
        ),
{
    proof {
        quasar_numbers();
    }
    let mut data = kind.discriminator("propose");
    append_propose_args(
        &mut data,
        kind,
        proposal_index,
        expiry,
        proposer_pubkey,
        signature,
        params_data,
    );
    data
}

/// Build approve instruction data.
pub fn build_approve_data(
    kind: ProgramKind,
    expiry: i64,
    approver_index: u8,
    signature: &[u8; 64],
) -> (data: Vec<u8>)
    ensures
        data@ == discriminator_bytes(kind, "approve") + vote_args(
            expiry,
            approver_index,
            signature@,
        ),
{
    proof {
        quasar_numbers();
    }
    let mut data = kind.discriminator("approve");
    append_vote_args(&mut data, expiry, approver_index, signature);
    data
}

/// Build cancel instruction data.
pub fn build_cancel_data(
    kind: ProgramKind,
    expiry: i64,
    canceller_index: u8,
    signature: &[u8; 64],
) -> (data: Vec<u8>)
    ensures
        data@ == discriminator_bytes(kind, "cancel") + vote_args(
            expiry,
            canceller_index,
            signature@,
        ),
{
    proof {
        quasar_numbers();
    }
    let mut data = kind.discriminator("cancel");
    append_vote_args(&mut data, expiry, canceller_index, signature);
    data
}

/// Build execute instruction data (no args).
pub fn build_execute_data(kind: ProgramKind) -> (data: Vec<u8>)
    ensures
        data@ == discriminator_bytes(kind, "execute"),
{
    proof {
        quasar_numbers();
    }
    kind.discriminator("execute")
}

/// Build cleanup_proposal instruction data (no args).
pub fn build_cleanup_data(kind: ProgramKind) -> (data: Vec<u8>)
    ensures
        data@ == discriminator_bytes(kind, "cleanup_proposal"),
{
    proof {
        quasar_numbers();
    }
    kind.discriminator("cleanup_proposal")
}

} // verus!
