//! The addresses at which the program keeps its accounts.
use crate::address::Address;
use crate::bytes::{le_bytes, push_le};
use crate::crypto::{derived_address, find_program_address, seed_bytes, sha256, sha256_digest};
use crate::text::copy_range;
use vstd::prelude::*;
use vstd::string::StringSliceAdditionalSpecFns;

verus! {

/// The bytes of the program's address,
/// `msigVi8dMnmLQUuCbakipEMZhzen516QRHxGz7iX5Xv`.
pub open spec fn program_id_bytes() -> Seq<u8> {
    seq![
        11u8, 126, 231, 65, 158, 154, 165, 95, 118, 52, 69, 24, 119, 82, 136, 205,
        221, 56, 155, 40, 234, 56, 73, 73, 40, 36, 43, 132, 222, 181, 6, 81,
    ]
}

/// The address of the program.
pub fn program_id() -> (r: Address)
    ensures
        r@ == program_id_bytes(),
{
    let bytes: [u8; 32] = [
        11, 126, 231, 65, 158, 154, 165, 95, 118, 52, 69, 24, 119, 82, 136, 205,
        221, 56, 155, 40, 234, 56, 73, 73, 40, 36, 43, 132, 222, 181, 6, 81,
    ];
    assert(bytes@ =~= program_id_bytes());
    Address::new_from_array(bytes)
}

/// The address of the system program, `11111111111111111111111111111111`.
pub fn system_program_id() -> (r: Address)
    ensures
        r@ == Seq::new(32, |i: int| 0u8),
{
    let bytes: [u8; 32] = [0u8; 32];
    assert(bytes@ =~= Seq::new(32, |i: int| 0u8));
    Address::new_from_array(bytes)
}

/// The seeds of a wallet's address.
pub open spec fn wallet_seeds(name_hash: Seq<u8>) -> Seq<Seq<u8>> {
    seq!["clear_wallet".spec_bytes(), name_hash]
}

/// The seeds of an intent's address.
pub open spec fn intent_seeds(wallet: Seq<u8>, intent_index: u8) -> Seq<Seq<u8>> {
    seq!["intent".spec_bytes(), wallet, seq![intent_index]]
}

/// The seeds of a proposal's address.
pub open spec fn proposal_seeds(intent: Seq<u8>, proposal_index: u64) -> Seq<Seq<u8>> {
    seq!["proposal".spec_bytes(), intent, le_bytes(proposal_index as nat, 8)]
}

/// The seeds of a vault's address.
pub open spec fn vault_seeds(wallet: Seq<u8>) -> Seq<Seq<u8>> {
    seq!["vault".spec_bytes(), wallet]
}

/// The address and bump that the program derives from seeds.
pub open spec fn program_address(seeds: Seq<Seq<u8>>) -> Option<(Seq<u8>, u8)> {
    derived_address(seeds, program_id_bytes())
}

/// The address that the program derives from seeds.
pub open spec fn address_of(seeds: Seq<Seq<u8>>) -> Option<Seq<u8>> {
    match program_address(seeds) {
        Some((address, _)) => Some(address),
        None => None,
    }
}

/// Whether an address and a bump are those that seeds derive, or are missing
/// because there are none.
pub open spec fn is_program_address(r: Option<(Address, u8)>, seeds: Seq<Seq<u8>>) -> bool {
    match r {
        Some((address, bump)) => program_address(seeds) == Some((address@, bump)),
        None => program_address(seeds) is None,
    }
}

/// Finds the address of the wallet whose name has the given hash.
pub fn find_wallet(name_hash: &[u8]) -> (r: Option<(Address, u8)>)
    ensures
        is_program_address(r, wallet_seeds(name_hash@)),
{
    let seeds: Vec<Vec<u8>> = vec![
        copy_of("clear_wallet".as_bytes()),
        copy_of(name_hash),
    ];
    assert(seed_bytes(seeds@) =~= wallet_seeds(name_hash@));
    find_program_address(&seeds, &program_id())
}

/// Finds the address of an intent of a wallet.
pub fn find_intent(wallet: &Address, intent_index: u8) -> (r: Option<(Address, u8)>)
    ensures
        is_program_address(r, intent_seeds(wallet@, intent_index)),
{
    let seeds: Vec<Vec<u8>> = vec![
        copy_of("intent".as_bytes()),
        wallet.to_vec(),
        vec![intent_index],
    ];
    assert(seeds@[2]@ =~= seq![intent_index]);
    assert(seed_bytes(seeds@) =~= intent_seeds(wallet@, intent_index));
    find_program_address(&seeds, &program_id())
}

/// Finds the address of a proposal for an intent.
pub fn find_proposal(intent: &Address, proposal_index: u64) -> (r: Option<(Address, u8)>)
    ensures
        is_program_address(r, proposal_seeds(intent@, proposal_index)),
{
    let mut index: Vec<u8> = Vec::new();
    push_le(&mut index, proposal_index, 8);
    assert(index@ =~= le_bytes(proposal_index as nat, 8));
    let seeds: Vec<Vec<u8>> = vec![copy_of("proposal".as_bytes()), intent.to_vec(), index];
    assert(seed_bytes(seeds@) =~= proposal_seeds(intent@, proposal_index));
    find_program_address(&seeds, &program_id())
}

/// Finds the address of a wallet's vault.
pub fn find_vault(wallet: &Address) -> (r: Option<(Address, u8)>)
    ensures
        is_program_address(r, vault_seeds(wallet@)),
{
    let seeds: Vec<Vec<u8>> = vec![copy_of("vault".as_bytes()), wallet.to_vec()];
    assert(seed_bytes(seeds@) =~= vault_seeds(wallet@));
    find_program_address(&seeds, &program_id())
}

/// Copies a slice into a vector.
fn copy_of(bytes: &[u8]) -> (r: Vec<u8>)
    ensures
        r@ == bytes@,
{
    let r = copy_range(bytes, 0, bytes.len());
    assert(r@ =~= bytes@);
    r
}

/// The address of the wallet with a name, and the hash of the name.
pub fn wallet_pda(name: &[u8]) -> (r: Option<(Address, [u8; 32])>)
    ensures
        match r {
            Some((address, name_hash)) => {
                &&& name_hash@ == sha256_digest(name@)
                &&& address_of(wallet_seeds(sha256_digest(name@))) == Some(address@)
            },
            None => address_of(wallet_seeds(sha256_digest(name@))) is None,
        },
{
    let name_hash = sha256(name);
    match find_wallet(&name_hash) {
        Some((address, _)) => Some((address, name_hash)),
        None => None,
    }
}

/// Whether an address is the one that seeds derive, or is missing because
/// there is none.
pub open spec fn is_pda(r: Option<Address>, seeds: Seq<Seq<u8>>) -> bool {
    match r {
        Some(address) => address_of(seeds) == Some(address@),
        None => address_of(seeds) is None,
    }
}

/// The address of an intent of a wallet.
pub fn intent_pda(wallet: &Address, intent_index: u8) -> (r: Option<Address>)
    ensures
        is_pda(r, intent_seeds(wallet@, intent_index)),
{
    match find_intent(wallet, intent_index) {
        Some((address, _)) => Some(address),
        None => None,
    }
}

/// The address of a proposal for an intent.
pub fn proposal_pda(intent: &Address, proposal_index: u64) -> (r: Option<Address>)
    ensures
        is_pda(r, proposal_seeds(intent@, proposal_index)),
{
    match find_proposal(intent, proposal_index) {
        Some((address, _)) => Some(address),
        None => None,
    }
}

/// The address of a wallet's vault.
pub fn vault_pda(wallet: &Address) -> (r: Option<Address>)
    ensures
        is_pda(r, vault_seeds(wallet@)),
{
    match find_vault(wallet) {
        Some((address, _)) => Some(address),
        None => None,
    }
}

} // verus!
