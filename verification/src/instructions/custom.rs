//! What a custom intent runs: its accounts are found and checked, and its
//! instructions are built from the definition and the parameters.
use crate::accounts::AccountView;
use crate::address::{address_is_its_bytes, Address};
use crate::bytes::{get_part, le_value, part, read_le};
use crate::crypto::{derived_address, find_program_address, seed_bytes};
use crate::error::ProgramError;
use crate::gather::{gathered, lemma_gathered_error, lemma_gathered_step};
use crate::state::intent::{param_bytes, Intent};
use crate::text::{append_bytes, copy_range};
use crate::utils::definition::{
    encoding_of, encoding_size, AccountEntry, AccountSourceType, DataEncoding, DataSegmentEntry,
    InstructionEntry, SeedType, SegmentType,
};
use vstd::prelude::*;
use vstd::slice::slice_subrange;

verus! {

/// How many bytes of data an invoked instruction can have.
pub const INSTRUCTION_DATA_MAX: usize = 1024;

/// The values of borrowed accounts.
pub open spec fn seen(views: Seq<&AccountView>) -> Seq<AccountView> {
    views.map_values(|v: &AccountView| *v)
}

/// The address that the byte pool holds for an account entry.
pub open spec fn static_address(entry: AccountEntry, pool: Seq<u8>) -> Result<
    Seq<u8>,
    ProgramError,
> {
    match part(pool, entry.pool_offset as int, entry.pool_len as int) {
        None => Err(ProgramError::InvalidInstructionData),
        Some(bytes) => if bytes.len() < 32 {
            Err(ProgramError::InvalidInstructionData)
        } else {
            Ok(bytes.take(32))
        },
    }
}

/// The address that the byte pool holds for an account entry.
fn read_static_address(entry: &AccountEntry, intent: &Intent) -> (r: Result<Address, ProgramError>)
    ensures
        match static_address(*entry, intent.byte_pool@) {
            Ok(address) => r is Ok && r->Ok_0@ == address,
            Err(e) => r == Err::<Address, ProgramError>(e),
        },
{
    let bytes = intent.pool_slice(entry.pool_offset, entry.pool_len)?;
    if bytes.len() < 32 {
        return Err(ProgramError::InvalidInstructionData);
    }
    Ok(Address::from_prefix(bytes))
}

/// The first declared account at an address.
pub open spec fn declared_at(declared: Seq<AccountView>, address: Seq<u8>) -> Option<AccountView> {
    if declared[0].address@ == address {
        Some(declared[0])
    } else if declared[1].address@ == address {
        Some(declared[1])
    } else if declared[2].address@ == address {
        Some(declared[2])
    } else {
        None
    }
}

/// The declared account that is injected for entry `i`, where there is one.
///
/// Vault entries and static entries whose address matches a declared account
/// are injected; everything else is consumed from the remaining accounts in
/// order.
pub open spec fn injected(intent: Intent, declared: Seq<AccountView>, i: int) -> Result<
    Option<AccountView>,
    ProgramError,
> {
    let entry = intent.accounts@[i];
    match entry.source_type {
        AccountSourceType::Vault => Ok(Some(declared[0])),
        AccountSourceType::Static => match static_address(entry, intent.byte_pool@) {
            Ok(address) => Ok(declared_at(declared, address)),
            Err(e) => Err(e),
        },
        _ => Ok(None),
    }
}

/// How many remaining accounts the entries before `i` consume.
pub open spec fn consumed(intent: Intent, declared: Seq<AccountView>, i: int) -> int
    decreases i,
{
    if i <= 0 {
        0
    } else {
        consumed(intent, declared, i - 1) + if injected(intent, declared, i - 1) == Ok::<
            Option<AccountView>,
            ProgramError,
        >(None) {
            1int
        } else {
            0
        }
    }
}

/// The account for entry `i`.
pub open spec fn account_for(
    intent: Intent,
    declared: Seq<AccountView>,
    remaining: Seq<AccountView>,
    i: int,
) -> Result<AccountView, ProgramError> {
    match injected(intent, declared, i) {
        Err(e) => Err(e),
        Ok(Some(view)) => Ok(view),
        Ok(None) => if consumed(intent, declared, i) < remaining.len() {
            Ok(remaining[consumed(intent, declared, i)])
        } else {
            Err(ProgramError::NotEnoughAccountKeys)
        },
    }
}

/// The accounts for the intent's account entries.
pub open spec fn collected(
    intent: Intent,
    declared: Seq<AccountView>,
    remaining: Seq<AccountView>,
) -> Result<Seq<AccountView>, ProgramError> {
    gathered(
        Seq::new(
            intent.accounts@.len(),
            |i: int| account_for(intent, declared, remaining, i),
        ),
    )
}

/// Finds the account for each of the intent's account entries.
fn collect_accounts<'a>(
    intent: &Intent,
    vault: &'a AccountView,
    system_program: &'a AccountView,
    wallet: &'a AccountView,
    remaining: &'a Vec<AccountView>,
) -> (r: Result<Vec<&'a AccountView>, ProgramError>)
    ensures
        match collected(*intent, seq![*vault, *system_program, *wallet], remaining@) {
            Ok(views) => r is Ok && seen(r->Ok_0@) == views && views.len()
                == intent.accounts@.len(),
            Err(e) => r is Err && r->Err_0 == e,
        },
{
    let ghost declared = seq![*vault, *system_program, *wallet];
    let ghost items = Seq::new(
        intent.accounts@.len(),
        |i: int| account_for(*intent, declared, remaining@, i),
    );
    let mut views: Vec<&'a AccountView> = Vec::new();
    let mut used: usize = 0;
    let mut i: usize = 0;
    assert(items.take(0) =~= Seq::empty());
    assert(seen(views@) =~= Seq::empty());
    while i < intent.accounts.len()
        invariant
            i <= intent.accounts@.len(),
            used <= remaining@.len(),
            views@.len() == i,
            declared == seq![*vault, *system_program, *wallet],
            items == Seq::new(
                intent.accounts@.len(),
                |i: int| account_for(*intent, declared, remaining@, i),
            ),
            used == consumed(*intent, declared, i as int),
            gathered(items.take(i as int)) == Ok::<Seq<AccountView>, ProgramError>(seen(views@)),
        decreases intent.accounts@.len() - i,
    {
        let entry = intent.accounts[i];
        let ghost before = views@;
        proof {
            lemma_gathered_step(items, i as int);
            if gathered(items.take(i as int + 1)) is Err {
                lemma_gathered_error(items, i as int + 1);
            }
        }
        let injected: Option<&'a AccountView> = match entry.source_type {
            AccountSourceType::Vault => Some(vault),
            AccountSourceType::Static => {
                let address = match read_static_address(&entry, intent) {
                    Ok(address) => address,
                    Err(e) => {
                        return Err(e);
                    },
                };
                proof {
                    address_is_its_bytes(vault.address, address);
                    address_is_its_bytes(system_program.address, address);
                    address_is_its_bytes(wallet.address, address);
                }
                if vault.address == address {
                    Some(vault)
                } else if system_program.address == address {
                    Some(system_program)
                } else if wallet.address == address {
                    Some(wallet)
                } else {
                    None
                }
            },
            _ => None,
        };
        match injected {
            Some(view) => {
                views.push(view);
                assert(seen(views@) =~= seen(before).push(*view));
            },
            None => {
                if used >= remaining.len() {
                    return Err(ProgramError::NotEnoughAccountKeys);
                }
                views.push(&remaining[used]);
                assert(seen(views@) =~= seen(before).push(remaining@[used as int]));
                used = used + 1;
            },
        }
        i = i + 1;
    }
    assert(items.take(i as int) =~= items);
    Ok(views)
}

/// The seeds of `count` seed entries from `start` on.
pub open spec fn seeds_of(
    intent: Intent,
    data: Seq<u8>,
    views: Seq<AccountView>,
    start: int,
    count: nat,
) -> Result<Seq<Seq<u8>>, ProgramError> {
    gathered(Seq::new(count, |s: int| seed_of(intent, data, views, start + s)))
}

/// The seed that a seed entry stands for.
pub open spec fn seed_of(
    intent: Intent,
    data: Seq<u8>,
    views: Seq<AccountView>,
    at: int,
) -> Result<Seq<u8>, ProgramError> {
    if at >= intent.seeds@.len() {
        Err(ProgramError::InvalidInstructionData)
    } else {
        let entry = intent.seeds@[at];
        match part(intent.byte_pool@, entry.pool_offset as int, entry.pool_len as int) {
            None => Err(ProgramError::InvalidInstructionData),
            Some(bytes) => match entry.seed_type {
                SeedType::Literal => if bytes.len() > 32 {
                    Err(ProgramError::InvalidInstructionData)
                } else {
                    Ok(bytes)
                },
                SeedType::ParamRef => if bytes.len() == 0 {
                    Err(ProgramError::InvalidInstructionData)
                } else {
                    match param_bytes(intent.params@, data, bytes[0] as int) {
                        None => Err(ProgramError::InvalidInstructionData),
                        Some(value) => if value.len() > 32 {
                            Err(ProgramError::InvalidInstructionData)
                        } else {
                            Ok(value)
                        },
                    }
                },
                SeedType::AccountRef => if bytes.len() == 0 {
                    Err(ProgramError::InvalidInstructionData)
                } else if bytes[0] >= views.len() {
                    Err(ProgramError::NotEnoughAccountKeys)
                } else {
                    Ok(views[bytes[0] as int].address@)
                },
            },
        }
    }
}

/// The seed that a seed entry stands for.
fn read_seed(intent: &Intent, data: &[u8], views: &Vec<&AccountView>, at: usize) -> (r: Result<
    Vec<u8>,
    ProgramError,
>)
    ensures
        match seed_of(*intent, data@, seen(views@), at as int) {
            Ok(seed) => r is Ok && r->Ok_0@ == seed,
            Err(e) => r is Err && r->Err_0 == e,
        },
{
    if at >= intent.seeds.len() {
        return Err(ProgramError::InvalidInstructionData);
    }
    let entry = intent.seeds[at];
    let bytes = match intent.pool_slice(entry.pool_offset, entry.pool_len) {
        Ok(bytes) => bytes,
        Err(e) => {
            return Err(e);
        },
    };
    match entry.seed_type {
        SeedType::Literal => {
            if bytes.len() > 32 {
                return Err(ProgramError::InvalidInstructionData);
            }
            let seed = copy_range(bytes, 0, bytes.len());
            assert(seed@ =~= bytes@);
            Ok(seed)
        },
        SeedType::ParamRef => {
            if bytes.len() == 0 {
                return Err(ProgramError::InvalidInstructionData);
            }
            let value = match intent.read_param_bytes(data, bytes[0]) {
                Ok(value) => value,
                Err(e) => {
                    return Err(e);
                },
            };
            if value.len() > 32 {
                return Err(ProgramError::InvalidInstructionData);
            }
            let seed = copy_range(value, 0, value.len());
            assert(seed@ =~= value@);
            Ok(seed)
        },
        SeedType::AccountRef => {
            if bytes.len() == 0 {
                return Err(ProgramError::InvalidInstructionData);
            }
            let index: usize = bytes[0] as usize;
            if index >= views.len() {
                return Err(ProgramError::NotEnoughAccountKeys);
            }
            Ok(views[index].address.to_vec())
        },
    }
}

/// The address that an entry with derived address asks for.
pub open spec fn pda_address(
    bytes: Seq<u8>,
    intent: Intent,
    data: Seq<u8>,
    views: Seq<AccountView>,
) -> Result<Seq<u8>, ProgramError> {
    if bytes.len() < 5 {
        Err(ProgramError::InvalidInstructionData)
    } else if bytes[0] >= views.len() {
        Err(ProgramError::NotEnoughAccountKeys)
    } else {
        let start = le_value(bytes.subrange(1, 3)) as int;
        let count = le_value(bytes.subrange(3, 5));
        if count > 16 {
            Err(ProgramError::InvalidInstructionData)
        } else {
            match seeds_of(intent, data, views, start, count) {
                Err(e) => Err(e),
                Ok(seeds) => match derived_address(seeds, views[bytes[0] as int].address@) {
                    Some((address, _)) => Ok(address),
                    None => Err(ProgramError::ProgramFailedToComplete),
                },
            }
        }
    }
}

/// The address that an entry with derived address asks for.
fn derive_pda_account(
    bytes: &[u8],
    intent: &Intent,
    data: &[u8],
    views: &Vec<&AccountView>,
) -> (r: Result<Address, ProgramError>)
    ensures
        match pda_address(bytes@, *intent, data@, seen(views@)) {
            Ok(address) => r is Ok && r->Ok_0@ == address,
            Err(e) => r is Err && r->Err_0 == e,
        },
{
    if bytes.len() < 5 {
        return Err(ProgramError::InvalidInstructionData);
    }
    let program_index: usize = bytes[0] as usize;
    if program_index >= views.len() {
        return Err(ProgramError::NotEnoughAccountKeys);
    }
    proof {
        crate::bytes::le_value_bound(bytes@.subrange(1, 3));
        crate::bytes::le_value_bound(bytes@.subrange(3, 5));
        crate::bytes::byte_capacities();
    }
    let start: usize = read_le(slice_subrange(bytes, 1, 3)) as usize;
    let count: usize = read_le(slice_subrange(bytes, 3, 5)) as usize;
    if count > 16 {
        return Err(ProgramError::InvalidInstructionData);
    }
    let ghost items = Seq::new(
        count as nat,
        |s: int| seed_of(*intent, data@, seen(views@), start + s),
    );
    let mut seeds: Vec<Vec<u8>> = Vec::new();
    let mut s: usize = 0;
    assert(items.take(0) =~= Seq::empty());
    assert(seed_bytes(seeds@) =~= Seq::empty());
    while s < count
        invariant
            s <= count <= 16,
            start < 0x1_0000,
            items == Seq::new(
                count as nat,
                |s: int| seed_of(*intent, data@, seen(views@), start + s),
            ),
            gathered(items.take(s as int)) == Ok::<Seq<Seq<u8>>, ProgramError>(
                seed_bytes(seeds@),
            ),
            bytes@.len() >= 5,
            program_index == bytes@[0],
            program_index < views@.len(),
            start == le_value(bytes@.subrange(1, 3)),
            count == le_value(bytes@.subrange(3, 5)),
        decreases count - s,
    {
        let ghost before = seeds@;
        proof {
            lemma_gathered_step(items, s as int);
            if gathered(items.take(s as int + 1)) is Err {
                lemma_gathered_error(items, s as int + 1);
            }
        }
        match read_seed(intent, data, views, start + s) {
            Ok(seed) => {
                let ghost text = seed@;
                seeds.push(seed);
                assert(seed_bytes(seeds@) =~= seed_bytes(before).push(text));
            },
            Err(e) => {
                return Err(e);
            },
        }
        s = s + 1;
    }
    assert(items.take(s as int) =~= items);
    match find_program_address(&seeds, &views[program_index].address) {
        Some((address, _)) => Ok(address),
        None => Err(ProgramError::ProgramFailedToComplete),
    }
}

/// The address at which the account for an entry has to be.
pub open spec fn expected_address(
    entry: AccountEntry,
    intent: Intent,
    data: Seq<u8>,
    views: Seq<AccountView>,
    vault: Address,
) -> Result<Seq<u8>, ProgramError> {
    let pool_data = part(intent.byte_pool@, entry.pool_offset as int, entry.pool_len as int);
    match entry.source_type {
        AccountSourceType::Static => static_address(entry, intent.byte_pool@),
        AccountSourceType::Param => match pool_data {
            None => Err(ProgramError::InvalidInstructionData),
            Some(bytes) => if bytes.len() == 0 {
                Err(ProgramError::InvalidInstructionData)
            } else {
                match param_bytes(intent.params@, data, bytes[0] as int) {
                    None => Err(ProgramError::InvalidInstructionData),
                    Some(value) => if value.len() < 32 {
                        Err(ProgramError::InvalidInstructionData)
                    } else {
                        Ok(value.take(32))
                    },
                }
            },
        },
        AccountSourceType::PdaDerived => match pool_data {
            None => Err(ProgramError::InvalidInstructionData),
            Some(bytes) => pda_address(bytes, intent, data, views),
        },
        AccountSourceType::HasOne => match pool_data {
            None => Err(ProgramError::InvalidInstructionData),
            Some(bytes) => if bytes.len() < 3 {
                Err(ProgramError::InvalidInstructionData)
            } else if bytes[0] >= views.len() {
                Err(ProgramError::NotEnoughAccountKeys)
            } else {
                match part(
                    views[bytes[0] as int].data@,
                    le_value(bytes.subrange(1, 3)) as int,
                    32,
                ) {
                    None => Err(ProgramError::InvalidInstructionData),
                    Some(address) => Ok(address),
                }
            },
        },
        AccountSourceType::Vault => Ok(vault@),
    }
}

/// The address at which the account for an entry has to be.
fn find_expected_address(
    entry: &AccountEntry,
    intent: &Intent,
    data: &[u8],
    views: &Vec<&AccountView>,
    vault: &Address,
) -> (r: Result<Address, ProgramError>)
    ensures
        match expected_address(*entry, *intent, data@, seen(views@), *vault) {
            Ok(address) => r is Ok && r->Ok_0@ == address,
            Err(e) => r is Err && r->Err_0 == e,
        },
{
    match entry.source_type {
        AccountSourceType::Static => read_static_address(entry, intent),
        AccountSourceType::Param => {
            let bytes = intent.pool_slice(entry.pool_offset, entry.pool_len)?;
            if bytes.len() == 0 {
                return Err(ProgramError::InvalidInstructionData);
            }
            let value = intent.read_param_bytes(data, bytes[0])?;
            if value.len() < 32 {
                return Err(ProgramError::InvalidInstructionData);
            }
            Ok(Address::from_prefix(value))
        },
        AccountSourceType::PdaDerived => {
            let bytes = intent.pool_slice(entry.pool_offset, entry.pool_len)?;
            derive_pda_account(bytes, intent, data, views)
        },
        AccountSourceType::HasOne => {
            let bytes = intent.pool_slice(entry.pool_offset, entry.pool_len)?;
            if bytes.len() < 3 {
                return Err(ProgramError::InvalidInstructionData);
            }
            let index: usize = bytes[0] as usize;
            if index >= views.len() {
                return Err(ProgramError::NotEnoughAccountKeys);
            }
            proof {
                crate::bytes::le_value_bound(bytes@.subrange(1, 3));
                crate::bytes::byte_capacities();
            }
            let byte_offset: usize = read_le(slice_subrange(bytes, 1, 3)) as usize;
            match get_part(views[index].data.as_slice(), byte_offset, 32) {
                Some(address) => {
                    assert(address@.take(32) =~= address@);
                    Ok(Address::from_prefix(address))
                },
                None => Err(ProgramError::InvalidInstructionData),
            }
        },
        AccountSourceType::Vault => Ok(*vault),
    }
}

/// Whether the account for entry `i` is where it has to be.
pub open spec fn account_valid(
    intent: Intent,
    data: Seq<u8>,
    views: Seq<AccountView>,
    vault: Address,
    i: int,
) -> Result<(), ProgramError> {
    match expected_address(intent.accounts@[i], intent, data, views, vault) {
        Err(e) => Err(e),
        Ok(address) => if views[i].address@ != address {
            Err(ProgramError::InvalidArgument)
        } else {
            Ok(())
        },
    }
}

/// Whether the accounts for all entries are where they have to be.
pub open spec fn accounts_valid(
    intent: Intent,
    data: Seq<u8>,
    views: Seq<AccountView>,
    vault: Address,
) -> Result<Seq<()>, ProgramError> {
    gathered(
        Seq::new(
            intent.accounts@.len(),
            |i: int| account_valid(intent, data, views, vault, i),
        ),
    )
}

/// Validates that each account matches the address specified by the intent
/// definition's account entries.
fn validate_remaining_accounts(
    views: &Vec<&AccountView>,
    intent: &Intent,
    params_data: &[u8],
    vault: &Address,
) -> (r: Result<(), ProgramError>)
    requires
        views@.len() == intent.accounts@.len(),
    ensures
        match accounts_valid(*intent, params_data@, seen(views@), *vault) {
            Ok(_) => r is Ok,
            Err(e) => r == Err::<(), ProgramError>(e),
        },
{
    let ghost items = Seq::new(
        intent.accounts@.len(),
        |i: int| account_valid(*intent, params_data@, seen(views@), *vault, i),
    );
    let mut i: usize = 0;
    assert(items.take(0) =~= Seq::empty());
    while i < intent.accounts.len()
        invariant
            i <= intent.accounts@.len(),
            views@.len() == intent.accounts@.len(),
            items == Seq::new(
                intent.accounts@.len(),
                |i: int| account_valid(*intent, params_data@, seen(views@), *vault, i),
            ),
            gathered(items.take(i as int)) is Ok,
        decreases intent.accounts@.len() - i,
    {
        proof {
            lemma_gathered_step(items, i as int);
            if gathered(items.take(i as int + 1)) is Err {
                lemma_gathered_error(items, i as int + 1);
            }
        }
        let expected = find_expected_address(
            &intent.accounts[i],
            intent,
            params_data,
            views,
            vault,
        )?;
        proof {
            address_is_its_bytes(views@[i as int].address, expected);
        }
        if views[i].address != expected {
            return Err(ProgramError::InvalidArgument);
        }
        i = i + 1;
    }
    assert(items.take(i as int) =~= items);
    Ok(())
}

/// An account that an invoked instruction names.
#[derive(Clone, Copy, Debug)]
pub struct InstructionAccount {
    pub address: Address,
    pub is_writable: bool,
    pub is_signer: bool,
}

/// An instruction to invoke.
pub struct CpiInstruction {
    pub program_id: Address,
    pub accounts: Vec<InstructionAccount>,
    pub data: Vec<u8>,
}

/// An instruction to invoke, with its lists as sequences.
pub struct CpiView {
    pub program_id: Address,
    pub accounts: Seq<InstructionAccount>,
    pub data: Seq<u8>,
}

impl View for CpiInstruction {
    type V = CpiView;

    open spec fn view(&self) -> CpiView {
        CpiView { program_id: self.program_id, accounts: self.accounts@, data: self.data@ }
    }
}

/// The account that an instruction names by an index, with the rights of its
/// entry.
pub open spec fn instruction_account(intent: Intent, views: Seq<AccountView>, index: u8) -> Result<
    InstructionAccount,
    ProgramError,
> {
    if index >= views.len() {
        Err(ProgramError::NotEnoughAccountKeys)
    } else {
        Ok(
            InstructionAccount {
                address: views[index as int].address,
                is_writable: intent.accounts@[index as int].is_writable,
                is_signer: intent.accounts@[index as int].is_signer,
            },
        )
    }
}

/// The accounts that an instruction names.
pub open spec fn instruction_accounts(
    intent: Intent,
    views: Seq<AccountView>,
    indexes: Seq<u8>,
) -> Result<Seq<InstructionAccount>, ProgramError> {
    gathered(
        Seq::new(indexes.len(), |i: int| instruction_account(intent, views, indexes[i])),
    )
}

/// Looks up the accounts that an instruction names.
fn build_instruction_accounts(intent: &Intent, views: &Vec<&AccountView>, indexes: &[u8]) -> (r:
    Result<Vec<InstructionAccount>, ProgramError>)
    requires
        views@.len() == intent.accounts@.len(),
    ensures
        match instruction_accounts(*intent, seen(views@), indexes@) {
            Ok(accounts) => r is Ok && r->Ok_0@ == accounts,
            Err(e) => r is Err && r->Err_0 == e,
        },
{
    let ghost items = Seq::new(
        indexes@.len(),
        |i: int| instruction_account(*intent, seen(views@), indexes@[i]),
    );
    let mut accounts: Vec<InstructionAccount> = Vec::new();
    let mut i: usize = 0;
    assert(items.take(0) =~= Seq::empty());
    while i < indexes.len()
        invariant
            i <= indexes@.len(),
            views@.len() == intent.accounts@.len(),
            items == Seq::new(
                indexes@.len(),
                |i: int| instruction_account(*intent, seen(views@), indexes@[i]),
            ),
            gathered(items.take(i as int)) == Ok::<Seq<InstructionAccount>, ProgramError>(
                accounts@,
            ),
        decreases indexes@.len() - i,
    {
        proof {
            lemma_gathered_step(items, i as int);
            if gathered(items.take(i as int + 1)) is Err {
                lemma_gathered_error(items, i as int + 1);
            }
        }
        let index: usize = indexes[i] as usize;
        if index >= views.len() {
            return Err(ProgramError::NotEnoughAccountKeys);
        }
        let entry = intent.accounts[index];
        accounts.push(
            InstructionAccount {
                address: views[index].address,
                is_writable: entry.is_writable,
                is_signer: entry.is_signer,
            },
        );
        i = i + 1;
    }
    assert(items.take(i as int) =~= items);
    Ok(accounts)
}

/// The bytes that a data segment stands for, from its bytes in the pool.
pub open spec fn segment_bytes(
    segment: DataSegmentEntry,
    bytes: Seq<u8>,
    intent: Intent,
    data: Seq<u8>,
) -> Result<Seq<u8>, ProgramError> {
    match segment.segment_type {
        SegmentType::Literal => Ok(bytes),
        SegmentType::Param => if bytes.len() < 2 {
            Err(ProgramError::InvalidInstructionData)
        } else {
            match encoding_of(bytes[1]) {
                None => Err(ProgramError::InvalidInstructionData),
                Some(encoding) => match param_bytes(intent.params@, data, bytes[0] as int) {
                    None => Err(ProgramError::InvalidInstructionData),
                    Some(value) => if value.len() < encoding_size(encoding) {
                        Err(ProgramError::InvalidInstructionData)
                    } else {
                        Ok(value.take(encoding_size(encoding)))
                    },
                },
            }
        },
    }
}

/// The instruction data of the segments from `k` to `end`, behind what there
/// is so far. A segment outside the pool stops the program.
pub open spec fn instruction_data(
    intent: Intent,
    data: Seq<u8>,
    k: int,
    end: int,
    found: Seq<u8>,
) -> Result<Seq<u8>, ProgramError>
    decreases end - k,
{
    if k >= end {
        Ok(found)
    } else {
        let segment = intent.data_segments@[k];
        match part(intent.byte_pool@, segment.pool_offset as int, segment.pool_len as int) {
            None => Err(ProgramError::ProgramFailedToComplete),
            Some(bytes) => match segment_bytes(segment, bytes, intent, data) {
                Err(e) => Err(e),
                Ok(text) => if found.len() + text.len() > INSTRUCTION_DATA_MAX {
                    Err(ProgramError::InvalidInstructionData)
                } else {
                    instruction_data(intent, data, k + 1, end, found + text)
                },
            },
        }
    }
}

/// Reads the bytes that a data segment stands for.
fn read_segment<'a>(
    segment: &DataSegmentEntry,
    bytes: &'a [u8],
    intent: &Intent,
    data: &'a [u8],
) -> (r: Result<&'a [u8], ProgramError>)
    ensures
        match segment_bytes(*segment, bytes@, *intent, data@) {
            Ok(text) => r is Ok && r->Ok_0@ == text,
            Err(e) => r is Err && r->Err_0 == e,
        },
{
    match segment.segment_type {
        SegmentType::Literal => Ok(bytes),
        SegmentType::Param => {
            if bytes.len() < 2 {
                return Err(ProgramError::InvalidInstructionData);
            }
            let encoding = match DataEncoding::from_u8(bytes[1]) {
                Some(encoding) => encoding,
                None => {
                    return Err(ProgramError::InvalidInstructionData);
                },
            };
            let value = match intent.read_param_bytes(data, bytes[0]) {
                Ok(value) => value,
                Err(e) => {
                    return Err(e);
                },
            };
            let size: usize = encoding.byte_size();
            if value.len() < size {
                return Err(ProgramError::InvalidInstructionData);
            }
            let text = slice_subrange(value, 0, size);
            assert(text@ =~= value@.take(size as int));
            Ok(text)
        },
    }
}

/// Builds instruction data from segments.
fn build_instruction_data(intent: &Intent, data: &[u8], start: usize, end: usize) -> (r: Result<
    Vec<u8>,
    ProgramError,
>)
    requires
        start <= end <= intent.data_segments@.len(),
    ensures
        match instruction_data(*intent, data@, start as int, end as int, Seq::empty()) {
            Ok(text) => r is Ok && r->Ok_0@ == text,
            Err(e) => r is Err && r->Err_0 == e,
        },
{
    let mut out: Vec<u8> = Vec::new();
    let mut k: usize = start;
    while k < end
        invariant
            start <= k <= end <= intent.data_segments@.len(),
            out@.len() <= INSTRUCTION_DATA_MAX,
            instruction_data(*intent, data@, start as int, end as int, Seq::empty())
                == instruction_data(*intent, data@, k as int, end as int, out@),
        decreases end - k,
    {
        let segment = intent.data_segments[k];
        let bytes = match get_part(
            intent.byte_pool.as_slice(),
            segment.pool_offset as usize,
            segment.pool_len as usize,
        ) {
            Some(bytes) => bytes,
            None => {
                return Err(ProgramError::ProgramFailedToComplete);
            },
        };
        let text = match read_segment(&segment, bytes, intent, data) {
            Ok(text) => text,
            Err(e) => {
                return Err(e);
            },
        };
        if text.len() > INSTRUCTION_DATA_MAX - out.len() {
            return Err(ProgramError::InvalidInstructionData);
        }
        append_bytes(&mut out, text);
        k = k + 1;
    }
    Ok(out)
}

/// The instruction that an instruction entry describes.
pub open spec fn instruction_of(
    entry: InstructionEntry,
    intent: Intent,
    data: Seq<u8>,
    views: Seq<AccountView>,
) -> Result<CpiView, ProgramError> {
    let first = entry.segments_start as int;
    let end = first + entry.segments_count;
    if entry.program_account_index >= views.len() {
        Err(ProgramError::NotEnoughAccountKeys)
    } else {
        match part(
            intent.byte_pool@,
            entry.account_indexes_offset as int,
            entry.account_indexes_len as int,
        ) {
            None => Err(ProgramError::ProgramFailedToComplete),
            Some(indexes) => if indexes.len() > 16 {
                Err(ProgramError::InvalidInstructionData)
            } else {
                match instruction_accounts(intent, views, indexes) {
                    Err(e) => Err(e),
                    Ok(accounts) => if end > intent.data_segments@.len() {
                        Err(ProgramError::ProgramFailedToComplete)
                    } else {
                        match instruction_data(intent, data, first, end, Seq::empty()) {
                            Err(e) => Err(e),
                            Ok(text) => Ok(
                                CpiView {
                                    program_id: views[entry.program_account_index as int].address,
                                    accounts,
                                    data: text,
                                },
                            ),
                        }
                    },
                }
            },
        }
    }
}

/// Builds the instruction that an instruction entry describes.
fn build_instruction(
    entry: &InstructionEntry,
    intent: &Intent,
    params_data: &[u8],
    views: &Vec<&AccountView>,
) -> (r: Result<CpiInstruction, ProgramError>)
    requires
        views@.len() == intent.accounts@.len(),
    ensures
        match instruction_of(*entry, *intent, params_data@, seen(views@)) {
            Ok(instruction) => r is Ok && r->Ok_0@ == instruction,
            Err(e) => r is Err && r->Err_0 == e,
        },
{
    let program_index: usize = entry.program_account_index as usize;
    if program_index >= views.len() {
        return Err(ProgramError::NotEnoughAccountKeys);
    }
    let indexes = match get_part(
        intent.byte_pool.as_slice(),
        entry.account_indexes_offset as usize,
        entry.account_indexes_len as usize,
    ) {
        Some(indexes) => indexes,
        None => {
            return Err(ProgramError::ProgramFailedToComplete);
        },
    };
    if indexes.len() > 16 {
        return Err(ProgramError::InvalidInstructionData);
    }
    let accounts = match build_instruction_accounts(intent, views, indexes) {
        Ok(accounts) => accounts,
        Err(e) => {
            return Err(e);
        },
    };
    let first: usize = entry.segments_start as usize;
    let end: usize = first + entry.segments_count as usize;
    if end > intent.data_segments.len() {
        return Err(ProgramError::ProgramFailedToComplete);
    }
    let data = match build_instruction_data(intent, params_data, first, end) {
        Ok(data) => data,
        Err(e) => {
            return Err(e);
        },
    };
    Ok(CpiInstruction { program_id: views[program_index].address, accounts, data })
}

/// The instructions of an intent.
pub open spec fn all_instructions(intent: Intent, data: Seq<u8>, views: Seq<AccountView>) -> Result<
    Seq<CpiView>,
    ProgramError,
> {
    gathered(
        Seq::new(
            intent.instructions@.len(),
            |i: int| instruction_of(intent.instructions@[i], intent, data, views),
        ),
    )
}

/// The views of instructions.
pub open spec fn cpi_views(instructions: Seq<CpiInstruction>) -> Seq<CpiView> {
    instructions.map_values(|i: CpiInstruction| i@)
}

/// Builds the instructions of an intent.
fn execute_cpi_loop(intent: &Intent, params_data: &[u8], views: &Vec<&AccountView>) -> (r: Result<
    Vec<CpiInstruction>,
    ProgramError,
>)
    requires
        views@.len() == intent.accounts@.len(),
    ensures
        match all_instructions(*intent, params_data@, seen(views@)) {
            Ok(instructions) => r is Ok && cpi_views(r->Ok_0@) == instructions,
            Err(e) => r is Err && r->Err_0 == e,
        },
{
    let ghost items = Seq::new(
        intent.instructions@.len(),
        |i: int| instruction_of(intent.instructions@[i], *intent, params_data@, seen(views@)),
    );
    let mut out: Vec<CpiInstruction> = Vec::new();
    let mut i: usize = 0;
    assert(items.take(0) =~= Seq::empty());
    assert(cpi_views(out@) =~= Seq::empty());
    while i < intent.instructions.len()
        invariant
            i <= intent.instructions@.len(),
            views@.len() == intent.accounts@.len(),
            items == Seq::new(
                intent.instructions@.len(),
                |i: int|
                    instruction_of(intent.instructions@[i], *intent, params_data@, seen(views@)),
            ),
            gathered(items.take(i as int)) == Ok::<Seq<CpiView>, ProgramError>(cpi_views(out@)),
        decreases intent.instructions@.len() - i,
    {
        let ghost before = out@;
        proof {
            lemma_gathered_step(items, i as int);
            if gathered(items.take(i as int + 1)) is Err {
                lemma_gathered_error(items, i as int + 1);
            }
        }
        match build_instruction(&intent.instructions[i], intent, params_data, views) {
            Ok(instruction) => {
                let ghost added = instruction@;
                out.push(instruction);
                assert(cpi_views(out@) =~= cpi_views(before).push(added));
            },
            Err(e) => {
                return Err(e);
            },
        }
        i = i + 1;
    }
    assert(items.take(i as int) =~= items);
    Ok(out)
}

/// The instructions that a custom intent runs for the given parameters: the
/// accounts are found and checked, and the instructions are built.
pub open spec fn custom_instructions(
    intent: Intent,
    data: Seq<u8>,
    declared: Seq<AccountView>,
    remaining: Seq<AccountView>,
) -> Result<Seq<CpiView>, ProgramError> {
    match collected(intent, declared, remaining) {
        Err(e) => Err(e),
        Ok(views) => match accounts_valid(intent, data, views, declared[0].address) {
            Err(e) => Err(e),
            Ok(_) => all_instructions(intent, data, views),
        },
    }
}

/// Finds and checks the accounts of a custom intent, and builds its
/// instructions.
pub fn build_custom_instructions(
    intent: &Intent,
    params_data: &[u8],
    vault: &AccountView,
    system_program: &AccountView,
    wallet: &AccountView,
    remaining: &Vec<AccountView>,
) -> (r: Result<Vec<CpiInstruction>, ProgramError>)
    ensures
        match custom_instructions(
            *intent,
            params_data@,
            seq![*vault, *system_program, *wallet],
            remaining@,
        ) {
            Ok(instructions) => r is Ok && cpi_views(r->Ok_0@) == instructions,
            Err(e) => r is Err && r->Err_0 == e,
        },
{
    let views = match collect_accounts(intent, vault, system_program, wallet, remaining) {
        Ok(views) => views,
        Err(e) => {
            return Err(e);
        },
    };
    assert(seen(views@).len() == views@.len());
    match validate_remaining_accounts(&views, intent, params_data, &vault.address) {
        Ok(_) => {},
        Err(e) => {
            return Err(e);
        },
    }
    execute_cpi_loop(intent, params_data, &views)
}

} // verus!
