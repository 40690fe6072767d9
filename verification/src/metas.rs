//! The accounts that each instruction names.
use crate::accounts::AccountMeta;
use crate::address::Address;
use crate::crypto::sha256_digest;
use crate::pda::{
    address_of, intent_pda, intent_seeds, proposal_pda, proposal_seeds, system_program_id,
    vault_pda, vault_seeds, wallet_pda, wallet_seeds,
};
use vstd::prelude::*;

verus! {

/// An account that an instruction names, with the bytes of its address.
pub struct MetaView {
    pub pubkey: Seq<u8>,
    pub is_signer: bool,
    pub is_writable: bool,
}

impl View for AccountMeta {
    type V = MetaView;

    open spec fn view(&self) -> MetaView {
        MetaView {
            pubkey: self.pubkey@,
            is_signer: self.is_signer,
            is_writable: self.is_writable,
        }
    }
}

/// The views of accounts.
pub open spec fn meta_views(metas: Seq<AccountMeta>) -> Seq<MetaView> {
    metas.map_values(|m: AccountMeta| m@)
}

/// An account that may be written.
pub open spec fn writable(pubkey: Seq<u8>, is_signer: bool) -> MetaView {
    MetaView { pubkey, is_signer, is_writable: true }
}

/// An account that is only read.
pub open spec fn readonly(pubkey: Seq<u8>) -> MetaView {
    MetaView { pubkey, is_signer: false, is_writable: false }
}

/// The system program, which is only read.
pub open spec fn system_program() -> MetaView {
    readonly(Seq::new(32, |i: int| 0u8))
}

/// The accounts of a wallet creation.
pub open spec fn create_wallet_list(
    payer: Seq<u8>,
    name_hash: Seq<u8>,
    wallet: Seq<u8>,
    add_intent: Seq<u8>,
    remove_intent: Seq<u8>,
    update_intent: Seq<u8>,
) -> Seq<MetaView> {
    seq![
        writable(payer, true),
        readonly(name_hash),
        writable(wallet, false),
        writable(add_intent, false),
        writable(remove_intent, false),
        writable(update_intent, false),
        system_program(),
    ]
}

/// Lists the accounts of a wallet creation.
pub fn list_create_wallet(
    payer: Address,
    name_hash: Address,
    wallet: Address,
    add_intent: Address,
    remove_intent: Address,
    update_intent: Address,
) -> (r: Vec<AccountMeta>)
    ensures
        meta_views(r@) == create_wallet_list(
            payer@,
            name_hash@,
            wallet@,
            add_intent@,
            remove_intent@,
            update_intent@,
        ),
{
    let metas: Vec<AccountMeta> = vec![
        AccountMeta::new(payer, true),
        AccountMeta::new_readonly(name_hash, false),
        AccountMeta::new(wallet, false),
        AccountMeta::new(add_intent, false),
        AccountMeta::new(remove_intent, false),
        AccountMeta::new(update_intent, false),
        AccountMeta::new_readonly(system_program_id(), false),
    ];
    assert(meta_views(metas@) =~= create_wallet_list(
        payer@,
        name_hash@,
        wallet@,
        add_intent@,
        remove_intent@,
        update_intent@,
    ));
    metas
}

/// The accounts of the creation of a wallet with a name, where its addresses
/// can be derived.
pub open spec fn create_wallet_accounts(payer: Seq<u8>, name: Seq<u8>) -> Option<Seq<MetaView>> {
    let name_hash = sha256_digest(name);
    match address_of(wallet_seeds(name_hash)) {
        None => None,
        Some(wallet) => match (
            address_of(intent_seeds(wallet, 0)),
            address_of(intent_seeds(wallet, 1)),
            address_of(intent_seeds(wallet, 2)),
        ) {
            (Some(add_intent), Some(remove_intent), Some(update_intent)) => Some(
                create_wallet_list(
                    payer,
                    name_hash,
                    wallet,
                    add_intent,
                    remove_intent,
                    update_intent,
                ),
            ),
            _ => None,
        },
    }
}

/// The accounts of a wallet creation.
pub fn create_wallet_metas(payer: Address, wallet_name: &[u8]) -> (r: Option<Vec<AccountMeta>>)
    ensures
        match create_wallet_accounts(payer@, wallet_name@) {
            Some(accounts) => r is Some && meta_views(r->0@) == accounts,
            None => r is None,
        },
{
    match wallet_pda(wallet_name) {
        None => None,
        Some((wallet, name_hash)) => match (
            intent_pda(&wallet, 0),
            intent_pda(&wallet, 1),
            intent_pda(&wallet, 2),
        ) {
            (Some(add_intent), Some(remove_intent), Some(update_intent)) => Some(
                list_create_wallet(
                    payer,
                    Address::new_from_array(name_hash),
                    wallet,
                    add_intent,
                    remove_intent,
                    update_intent,
                ),
            ),
            _ => None,
        },
    }
}

/// The accounts of a proposal instruction.
pub open spec fn propose_list(
    payer: Seq<u8>,
    wallet: Seq<u8>,
    intent: Seq<u8>,
    proposal: Seq<u8>,
) -> Seq<MetaView> {
    seq![
        writable(payer, true),
        writable(wallet, false),
        writable(intent, false),
        writable(proposal, false),
        system_program(),
    ]
}

/// Lists the accounts of a proposal instruction.
pub fn list_propose(payer: Address, wallet: Address, intent: Address, proposal: Address) -> (r: Vec<
    AccountMeta,
>)
    ensures
        meta_views(r@) == propose_list(payer@, wallet@, intent@, proposal@),
{
    let metas: Vec<AccountMeta> = vec![
        AccountMeta::new(payer, true),
        AccountMeta::new(wallet, false),
        AccountMeta::new(intent, false),
        AccountMeta::new(proposal, false),
        AccountMeta::new_readonly(system_program_id(), false),
    ];
    assert(meta_views(metas@) =~= propose_list(payer@, wallet@, intent@, proposal@));
    metas
}

/// The accounts of a proposal instruction, where the proposal's address can be
/// derived.
pub fn propose_metas(
    payer: Address,
    wallet: Address,
    intent: Address,
    proposal_index: u64,
) -> (r: Option<Vec<AccountMeta>>)
    ensures
        match address_of(proposal_seeds(intent@, proposal_index)) {
            Some(proposal) => r is Some && meta_views(r->0@) == propose_list(
                payer@,
                wallet@,
                intent@,
                proposal,
            ),
            None => r is None,
        },
{
    match proposal_pda(&intent, proposal_index) {
        Some(proposal) => Some(list_propose(payer, wallet, intent, proposal)),
        None => None,
    }
}

/// The accounts of an approval or a cancellation.
pub open spec fn vote_list(wallet: Seq<u8>, intent: Seq<u8>, proposal: Seq<u8>) -> Seq<MetaView> {
    seq![readonly(wallet), writable(intent, false), writable(proposal, false)]
}

/// The accounts of an approval.
pub fn approve_metas(wallet: Address, intent: Address, proposal: Address) -> (r: Vec<AccountMeta>)
    ensures
        meta_views(r@) == vote_list(wallet@, intent@, proposal@),
{
    let metas: Vec<AccountMeta> = vec![
        AccountMeta::new_readonly(wallet, false),
        AccountMeta::new(intent, false),
        AccountMeta::new(proposal, false),
    ];
    assert(meta_views(metas@) =~= vote_list(wallet@, intent@, proposal@));
    metas
}

/// The accounts of a cancellation.
pub fn cancel_metas(wallet: Address, intent: Address, proposal: Address) -> (r: Vec<AccountMeta>)
    ensures
        meta_views(r@) == vote_list(wallet@, intent@, proposal@),
{
    approve_metas(wallet, intent, proposal)
}

/// The accounts of an execution, with the remaining accounts behind.
pub open spec fn execute_list(
    wallet: Seq<u8>,
    vault: Seq<u8>,
    intent: Seq<u8>,
    proposal: Seq<u8>,
    remaining: Seq<MetaView>,
) -> Seq<MetaView> {
    seq![
        writable(wallet, false),
        writable(vault, false),
        writable(intent, false),
        writable(proposal, false),
        system_program(),
    ] + remaining
}

/// Lists the accounts of an execution.
pub fn list_execute(
    wallet: Address,
    vault: Address,
    intent: Address,
    proposal: Address,
    remaining: Vec<AccountMeta>,
) -> (r: Vec<AccountMeta>)
    ensures
        meta_views(r@) == execute_list(
            wallet@,
            vault@,
            intent@,
            proposal@,
            meta_views(remaining@),
        ),
{
    let mut metas: Vec<AccountMeta> = vec![
        AccountMeta::new(wallet, false),
        AccountMeta::new(vault, false),
        AccountMeta::new(intent, false),
        AccountMeta::new(proposal, false),
        AccountMeta::new_readonly(system_program_id(), false),
    ];
    let mut rest = remaining;
    metas.append(&mut rest);
    assert(meta_views(metas@) =~= execute_list(
        wallet@,
        vault@,
        intent@,
        proposal@,
        meta_views(remaining@),
    ));
    metas
}

/// The accounts of an execution, where the vault's address can be derived.
pub fn execute_metas(
    wallet: Address,
    intent: Address,
    proposal: Address,
    remaining: Vec<AccountMeta>,
) -> (r: Option<Vec<AccountMeta>>)
    ensures
        match address_of(vault_seeds(wallet@)) {
            Some(vault) => r is Some && meta_views(r->0@) == execute_list(
                wallet@,
                vault,
                intent@,
                proposal@,
                meta_views(remaining@),
            ),
            None => r is None,
        },
{
    match vault_pda(&wallet) {
        Some(vault) => Some(list_execute(wallet, vault, intent, proposal, remaining)),
        None => None,
    }
}

/// The accounts of a cleanup.
pub open spec fn cleanup_list(proposal: Seq<u8>, rent_refund: Seq<u8>) -> Seq<MetaView> {
    seq![writable(proposal, false), writable(rent_refund, false)]
}

/// The accounts of a cleanup.
pub fn cleanup_metas(proposal: Address, rent_refund: Address) -> (r: Vec<AccountMeta>)
    ensures
        meta_views(r@) == cleanup_list(proposal@, rent_refund@),
{
    let metas: Vec<AccountMeta> = vec![
        AccountMeta::new(proposal, false),
        AccountMeta::new(rent_refund, false),
    ];
    assert(meta_views(metas@) =~= cleanup_list(proposal@, rent_refund@));
    metas
}

} // verus!
