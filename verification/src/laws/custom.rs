//! Laws on what custom intents run.
use crate::accounts::AccountView;
use crate::address::Address;
use crate::bytes::le_value;
use crate::crypto::derived_address;
use crate::error::ProgramError;
use crate::gather::{gathered, gathered_all, gathered_values};
use crate::instructions::custom::{
    account_for, account_valid, collected, consumed, custom_instructions, expected_address,
    injected, instruction_account, instruction_accounts, instruction_data, instruction_of,
    seed_of, segment_bytes, CpiView, InstructionAccount, INSTRUCTION_DATA_MAX,
};
use crate::state::intent::{param_bytes, Intent};
use crate::utils::definition::{
    AccountEntry, AccountSourceType, InstructionEntry, SeedType, SegmentType,
};
use vstd::prelude::*;

verus! {

/// Whether there is one account for each of the intent's entries, at the
/// address that the entry asks for.
pub open spec fn at_their_places(
    intent: Intent,
    data: Seq<u8>,
    views: Seq<AccountView>,
    vault: Address,
) -> bool {
    &&& views.len() == intent.accounts@.len()
    &&& forall|i: int|
        #![trigger views[i]]
        0 <= i < views.len() ==> expected_address(
            intent.accounts@[i],
            intent,
            data,
            views,
            vault,
        ) == Ok::<Seq<u8>, ProgramError>(views[i].address@)
}

/// Whether an instruction account is the one for entry `j`, with the entry's
/// rights.
pub open spec fn is_entry_account(
    account: InstructionAccount,
    intent: Intent,
    views: Seq<AccountView>,
    j: int,
) -> bool {
    &&& 0 <= j < views.len()
    &&& account == (InstructionAccount {
        address: views[j].address,
        is_writable: intent.accounts@[j].is_writable,
        is_signer: intent.accounts@[j].is_signer,
    })
}

/// Whether an instruction account is the one for some entry.
pub open spec fn is_some_entry(
    account: InstructionAccount,
    intent: Intent,
    views: Seq<AccountView>,
) -> bool {
    exists|j: int| is_entry_account(account, intent, views, j)
}

/// Whether all of a list are accounts of the intent's entries.
pub open spec fn are_entry_accounts(
    accounts: Seq<InstructionAccount>,
    intent: Intent,
    views: Seq<AccountView>,
) -> bool {
    forall|a: int|
        #![trigger accounts[a]]
        0 <= a < accounts.len() ==> is_some_entry(accounts[a], intent, views)
}

/// Whether an instruction uses only accounts of the intent's entries, and
/// keeps the limits.
pub open spec fn keeps_to_the_intent(
    instruction: CpiView,
    intent: Intent,
    views: Seq<AccountView>,
) -> bool {
    &&& exists|j: int| 0 <= j < views.len() && instruction.program_id == (#[trigger] views[j]).address
    &&& are_entry_accounts(instruction.accounts, intent, views)
    &&& instruction.accounts.len() <= 16
    &&& instruction.data.len() <= INSTRUCTION_DATA_MAX
}

proof fn lemma_instruction_accounts(intent: Intent, views: Seq<AccountView>, indexes: Seq<u8>)
    requires
        instruction_accounts(intent, views, indexes) is Ok,
    ensures
        are_entry_accounts(instruction_accounts(intent, views, indexes)->Ok_0, intent, views),
        instruction_accounts(intent, views, indexes)->Ok_0.len() == indexes.len(),
{
    let items = Seq::new(
        indexes.len(),
        |i: int| instruction_account(intent, views, indexes[i]),
    );
    gathered_values(items);
    let accounts = gathered(items)->Ok_0;
    assert forall|a: int| #![trigger accounts[a]] 0 <= a < accounts.len() implies is_some_entry(
        accounts[a],
        intent,
        views,
    ) by {
        assert(items[a] == instruction_account(intent, views, indexes[a]));
        assert(is_entry_account(accounts[a], intent, views, indexes[a] as int));
    }
}

proof fn lemma_instruction_data(intent: Intent, data: Seq<u8>, k: int, end: int, found: Seq<u8>)
    requires
        found.len() <= INSTRUCTION_DATA_MAX,
        instruction_data(intent, data, k, end, found) is Ok,
    ensures
        instruction_data(intent, data, k, end, found)->Ok_0.len() <= INSTRUCTION_DATA_MAX,
    decreases end - k,
{
    if k < end {
        let segment = intent.data_segments@[k];
        match crate::bytes::part(
            intent.byte_pool@,
            segment.pool_offset as int,
            segment.pool_len as int,
        ) {
            None => {},
            Some(bytes) => match segment_bytes(segment, bytes, intent, data) {
                Err(_) => {},
                Ok(text) => {
                    if found.len() + text.len() <= INSTRUCTION_DATA_MAX {
                        lemma_instruction_data(intent, data, k + 1, end, found + text);
                    }
                },
            },
        }
    }
}

proof fn lemma_instruction(intent: Intent, data: Seq<u8>, views: Seq<AccountView>, i: int)
    requires
        0 <= i < intent.instructions@.len(),
        instruction_of(intent.instructions@[i], intent, data, views) is Ok,
    ensures
        keeps_to_the_intent(
            instruction_of(intent.instructions@[i], intent, data, views)->Ok_0,
            intent,
            views,
        ),
{
    let entry = intent.instructions@[i];
    let indexes = crate::bytes::part(
        intent.byte_pool@,
        entry.account_indexes_offset as int,
        entry.account_indexes_len as int,
    )->0;
    lemma_instruction_accounts(intent, views, indexes);
    lemma_instruction_data(
        intent,
        data,
        entry.segments_start as int,
        entry.segments_start + entry.segments_count,
        Seq::empty(),
    );
    let instruction = instruction_of(entry, intent, data, views)->Ok_0;
    assert(instruction.program_id == views[entry.program_account_index as int].address);
}

/// A custom intent runs only what its definition allows: there is one account
/// for each entry, at the address that the entry asks for; there is one
/// instruction for each instruction entry; and each instruction names only
/// those accounts, with the rights that their entries give, at most sixteen of
/// them, and at most 1024 bytes of data.
pub proof fn custom_intents_keep_to_their_definition(
    intent: Intent,
    data: Seq<u8>,
    declared: Seq<AccountView>,
    remaining: Seq<AccountView>,
)
    requires
        custom_instructions(intent, data, declared, remaining) is Ok,
    ensures
        ({
            let instructions = custom_instructions(intent, data, declared, remaining)->Ok_0;
            &&& instructions.len() == intent.instructions@.len()
            &&& exists|views: Seq<AccountView>|
                #![trigger at_their_places(intent, data, views, declared[0].address)]
                at_their_places(intent, data, views, declared[0].address) && forall|n: int|
                    #![trigger instructions[n]]
                    0 <= n < instructions.len() ==> keeps_to_the_intent(
                        instructions[n],
                        intent,
                        views,
                    )
        }),
{
    let vault = declared[0].address;
    let accounts = Seq::new(
        intent.accounts@.len(),
        |i: int| account_for(intent, declared, remaining, i),
    );
    gathered_values(accounts);
    let views = collected(intent, declared, remaining)->Ok_0;
    let places = Seq::new(
        intent.accounts@.len(),
        |i: int| account_valid(intent, data, views, vault, i),
    );
    gathered_values(places);
    assert forall|i: int| #![trigger views[i]] 0 <= i < views.len() implies expected_address(
        intent.accounts@[i],
        intent,
        data,
        views,
        vault,
    ) == Ok::<Seq<u8>, ProgramError>(views[i].address@) by {
        assert(places[i] == account_valid(intent, data, views, vault, i));
    }
    assert(at_their_places(intent, data, views, vault));
    let items = Seq::new(
        intent.instructions@.len(),
        |i: int| instruction_of(intent.instructions@[i], intent, data, views),
    );
    gathered_values(items);
    let instructions = custom_instructions(intent, data, declared, remaining)->Ok_0;
    assert forall|n: int|
        #![trigger instructions[n]]
        0 <= n < instructions.len() implies keeps_to_the_intent(instructions[n], intent, views) by {
        assert(items[n] == instruction_of(intent.instructions@[n], intent, data, views));
        lemma_instruction(intent, data, views, n);
    }
}

/// Whether a text is the part of the byte pool that lies at an offset.
pub open spec fn lies_in_pool(intent: Intent, offset: u16, len: u16, text: Seq<u8>) -> bool {
    &&& offset + len <= intent.byte_pool@.len()
    &&& text.len() == len
    &&& forall|i: int| 0 <= i < len ==> #[trigger] text[i] == intent.byte_pool@[offset + i]
}

/// Whether an address is that of a declared account: the vault, the system
/// program or the wallet.
pub open spec fn is_declared(declared: Seq<AccountView>, address: Seq<u8>) -> bool {
    declared[0].address@ == address || declared[1].address@ == address || declared[2].address@
        == address
}

/// Whether the account for an entry is taken from the remaining accounts: it is
/// not the vault, and its address is not fixed to that of a declared account.
pub open spec fn is_taken(intent: Intent, declared: Seq<AccountView>, i: int) -> bool {
    let entry = intent.accounts@[i];
    match entry.source_type {
        AccountSourceType::Vault => false,
        AccountSourceType::Static => !is_declared(
            declared,
            intent.byte_pool@.subrange(entry.pool_offset as int, entry.pool_offset + 32),
        ),
        _ => true,
    }
}

/// How many of the entries before `i` take a remaining account.
pub open spec fn taken_before(intent: Intent, declared: Seq<AccountView>, i: int) -> nat
    decreases i,
{
    if i <= 0 {
        0
    } else if is_taken(intent, declared, i - 1) {
        taken_before(intent, declared, i - 1) + 1
    } else {
        taken_before(intent, declared, i - 1)
    }
}

/// Whether a view is the account for entry `i`: the next remaining account, the
/// vault, or the first declared account at the fixed address.
pub open spec fn is_account_of(
    intent: Intent,
    declared: Seq<AccountView>,
    remaining: Seq<AccountView>,
    i: int,
    view: AccountView,
) -> bool {
    let entry = intent.accounts@[i];
    if entry.source_type == AccountSourceType::Vault {
        view == declared[0]
    } else if entry.source_type == AccountSourceType::Static && !(entry.pool_len >= 32
        && entry.pool_offset + entry.pool_len <= intent.byte_pool@.len()) {
        false
    } else if is_taken(intent, declared, i) {
        &&& taken_before(intent, declared, i) < remaining.len()
        &&& view == remaining[taken_before(intent, declared, i) as int]
    } else {
        let address = intent.byte_pool@.subrange(
            entry.pool_offset as int,
            entry.pool_offset + 32,
        );
        &&& view.address@ == address
        &&& view == declared[0] || (declared[0].address@ != address && (view == declared[1] || (
        declared[1].address@ != address && view == declared[2])))
    }
}

/// Whether a seed is the one that a seed entry stands for: bytes of the pool, a
/// parameter, or the address of an account, and of at most 32 bytes.
pub open spec fn is_seed(
    intent: Intent,
    data: Seq<u8>,
    views: Seq<AccountView>,
    at: int,
    seed: Seq<u8>,
) -> bool {
    let entry = intent.seeds@[at];
    let first = intent.byte_pool@[entry.pool_offset as int] as int;
    &&& 0 <= at < intent.seeds@.len()
    &&& entry.pool_offset + entry.pool_len <= intent.byte_pool@.len()
    &&& seed.len() <= 32
    &&& match entry.seed_type {
        SeedType::Literal => lies_in_pool(intent, entry.pool_offset, entry.pool_len, seed),
        SeedType::ParamRef => entry.pool_len > 0 && param_bytes(intent.params@, data, first)
            == Some(seed),
        SeedType::AccountRef => entry.pool_len > 0 && first < views.len() && seed
            == views[first].address@,
    }
}

/// Whether an address is the one that an account entry asks for.
pub open spec fn is_address_for(
    entry: AccountEntry,
    intent: Intent,
    data: Seq<u8>,
    views: Seq<AccountView>,
    vault: Address,
    address: Seq<u8>,
) -> bool {
    let pool = intent.byte_pool@;
    let o = entry.pool_offset as int;
    let n = entry.pool_len as int;
    match entry.source_type {
        AccountSourceType::Static => {
            &&& o + n <= pool.len()
            &&& n >= 32
            &&& address == pool.subrange(o, o + 32)
        },
        AccountSourceType::Param => {
            &&& o + n <= pool.len()
            &&& n >= 1
            &&& param_bytes(intent.params@, data, pool[o] as int) is Some
            &&& param_bytes(intent.params@, data, pool[o] as int)->0.len() >= 32
            &&& address == param_bytes(intent.params@, data, pool[o] as int)->0.subrange(0, 32)
        },
        AccountSourceType::PdaDerived => {
            &&& o + n <= pool.len()
            &&& n >= 5
            &&& pool[o] < views.len()
            &&& pool[o + 3] + 256 * pool[o + 4] <= 16
            &&& exists|seeds: Seq<Seq<u8>>|
                #![trigger derived_address(seeds, views[pool[o] as int].address@)]
                seeds.len() == pool[o + 3] + 256 * pool[o + 4] && (forall|s: int|
                    0 <= s < seeds.len() ==> is_seed(
                        intent,
                        data,
                        views,
                        pool[o + 1] + 256 * pool[o + 2] + s,
                        #[trigger] seeds[s],
                    )) && derived_address(seeds, views[pool[o] as int].address@) is Some
                    && (derived_address(seeds, views[pool[o] as int].address@)->0).0 == address
        },
        AccountSourceType::HasOne => {
            let at = pool[o + 1] + 256 * pool[o + 2];
            &&& o + n <= pool.len()
            &&& n >= 3
            &&& pool[o] < views.len()
            &&& at + 32 <= views[pool[o] as int].data@.len()
            &&& address == views[pool[o] as int].data@.subrange(at, at + 32)
        },
        AccountSourceType::Vault => address == vault@,
    }
}

/// Whether there is one account for each entry, from where the entry says and
/// at the address that it asks for.
pub open spec fn are_the_accounts(
    intent: Intent,
    data: Seq<u8>,
    declared: Seq<AccountView>,
    remaining: Seq<AccountView>,
    views: Seq<AccountView>,
) -> bool {
    &&& views.len() == intent.accounts@.len()
    &&& forall|i: int|
        #![trigger views[i]]
        0 <= i < views.len() ==> is_account_of(intent, declared, remaining, i, views[i])
            && is_address_for(
            intent.accounts@[i],
            intent,
            data,
            views,
            declared[0].address,
            views[i].address@,
        )
}

/// How many bytes the encoding with a number takes: an address 32, numbers of
/// 64 bits 8, flags and bytes 1, and numbers of 16, 32 and 128 bits 2, 4 and 16.
pub open spec fn encoded_width(number: u8) -> int {
    if number == 0 {
        32
    } else if number == 1 || number == 2 {
        8
    } else if number == 3 || number == 4 {
        1
    } else if number == 5 {
        2
    } else if number == 6 {
        4
    } else {
        16
    }
}

/// Whether a text is what a data segment stands for: its bytes of the pool, or
/// the leading bytes of a parameter.
pub open spec fn is_segment(intent: Intent, data: Seq<u8>, k: int, text: Seq<u8>) -> bool {
    let segment = intent.data_segments@[k];
    let pool = intent.byte_pool@;
    let o = segment.pool_offset as int;
    &&& o + segment.pool_len <= pool.len()
    &&& match segment.segment_type {
        SegmentType::Literal => lies_in_pool(intent, segment.pool_offset, segment.pool_len, text),
        SegmentType::Param => {
            &&& segment.pool_len >= 2
            &&& pool[o + 1] <= 7
            &&& text.len() == encoded_width(pool[o + 1])
            &&& param_bytes(intent.params@, data, pool[o] as int) is Some
            &&& text.is_prefix_of(param_bytes(intent.params@, data, pool[o] as int)->0)
        },
    }
}

/// Whether an instruction is the one that an instruction entry describes: the
/// program with the entry's number, the accounts whose numbers stand in the
/// entry's part of the byte pool, in that order and with the rights of their
/// entries, and the entry's data segments one behind the other.
pub open spec fn is_instruction_of(
    entry: InstructionEntry,
    intent: Intent,
    data: Seq<u8>,
    views: Seq<AccountView>,
    instruction: CpiView,
) -> bool {
    let pool = intent.byte_pool@;
    let o = entry.account_indexes_offset as int;
    &&& entry.program_account_index < views.len()
    &&& instruction.program_id == views[entry.program_account_index as int].address
    &&& o + entry.account_indexes_len <= pool.len()
    &&& entry.account_indexes_len <= 16
    &&& instruction.accounts.len() == entry.account_indexes_len
    &&& forall|a: int|
        #![trigger instruction.accounts[a]]
        0 <= a < entry.account_indexes_len ==> is_entry_account(
            instruction.accounts[a],
            intent,
            views,
            pool[o + a] as int,
        )
    &&& entry.segments_start + entry.segments_count <= intent.data_segments@.len()
    &&& instruction.data.len() <= 1024
    &&& exists|pieces: Seq<Seq<u8>>|
        #![trigger pieces.flatten()]
        pieces.len() == entry.segments_count && (forall|k: int|
            0 <= k < pieces.len() ==> is_segment(
                intent,
                data,
                entry.segments_start + k,
                #[trigger] pieces[k],
            )) && instruction.data == pieces.flatten()
}

/// Two bytes as a number.
proof fn lemma_two_bytes(bytes: Seq<u8>, o: int)
    requires
        0 <= o,
        o + 2 <= bytes.len(),
    ensures
        le_value(bytes.subrange(o, o + 2)) == bytes[o] + 256 * bytes[o + 1],
{
    let two = bytes.subrange(o, o + 2);
    reveal_with_fuel(le_value, 3);
    assert(two.drop_first()[0] == bytes[o + 1]);
    assert(two.drop_first().drop_first().len() == 0);
}

proof fn lemma_injected(intent: Intent, declared: Seq<AccountView>, i: int)
    requires
        0 <= i < intent.accounts@.len(),
    ensures
        injected(intent, declared, i) is Err <==> {
            let entry = intent.accounts@[i];
            entry.source_type == AccountSourceType::Static && !(entry.pool_len >= 32
                && entry.pool_offset + entry.pool_len <= intent.byte_pool@.len())
        },
        injected(intent, declared, i) is Ok ==> (injected(intent, declared, i) == Ok::<
            Option<AccountView>,
            ProgramError,
        >(None) <==> is_taken(intent, declared, i)),
{
    let entry = intent.accounts@[i];
    let o = entry.pool_offset as int;
    let n = entry.pool_len as int;
    if o + n <= intent.byte_pool@.len() && n >= 32 {
        assert(intent.byte_pool@.subrange(o, o + n).take(32) =~= intent.byte_pool@.subrange(
            o,
            o + 32,
        ));
    }
}

proof fn lemma_taken(intent: Intent, declared: Seq<AccountView>, i: int)
    requires
        0 <= i <= intent.accounts@.len(),
        forall|j: int|
            0 <= j < i ==> (#[trigger] injected(intent, declared, j)) is Ok,
    ensures
        consumed(intent, declared, i) == taken_before(intent, declared, i),
    decreases i,
{
    if i > 0 {
        lemma_taken(intent, declared, i - 1);
        assert(injected(intent, declared, i - 1) is Ok);
        lemma_injected(intent, declared, i - 1);
    }
}

proof fn lemma_account(
    intent: Intent,
    declared: Seq<AccountView>,
    remaining: Seq<AccountView>,
    i: int,
    view: AccountView,
)
    requires
        0 <= i < intent.accounts@.len(),
        consumed(intent, declared, i) == taken_before(intent, declared, i),
    ensures
        account_for(intent, declared, remaining, i) == Ok::<AccountView, ProgramError>(view) <==>
            is_account_of(intent, declared, remaining, i, view),
{
    let entry = intent.accounts@[i];
    let o = entry.pool_offset as int;
    let n = entry.pool_len as int;
    lemma_injected(intent, declared, i);
    if o + n <= intent.byte_pool@.len() && n >= 32 {
        assert(intent.byte_pool@.subrange(o, o + n).take(32) =~= intent.byte_pool@.subrange(
            o,
            o + 32,
        ));
    }
}

/// The accounts are collected exactly as the entries say.
proof fn lemma_accounts(
    intent: Intent,
    declared: Seq<AccountView>,
    remaining: Seq<AccountView>,
    views: Seq<AccountView>,
)
    ensures
        collected(intent, declared, remaining) == Ok::<Seq<AccountView>, ProgramError>(views) <==> {
            &&& views.len() == intent.accounts@.len()
            &&& forall|i: int|
                #![trigger views[i]]
                0 <= i < views.len() ==> is_account_of(intent, declared, remaining, i, views[i])
        },
{
    let items = Seq::new(
        intent.accounts@.len(),
        |i: int| account_for(intent, declared, remaining, i),
    );
    if gathered(items) == Ok::<Seq<AccountView>, ProgramError>(views) {
        gathered_values(items);
        assert forall|i: int| #![trigger views[i]] 0 <= i < views.len() implies is_account_of(
            intent,
            declared,
            remaining,
            i,
            views[i],
        ) by {
            assert(items[i] == account_for(intent, declared, remaining, i));
            assert forall|j: int| 0 <= j < i implies (#[trigger] injected(
                intent,
                declared,
                j,
            )) is Ok by {
                assert(items[j] == account_for(intent, declared, remaining, j));
            }
            lemma_taken(intent, declared, i);
            lemma_account(intent, declared, remaining, i, views[i]);
        }
    }
    if views.len() == intent.accounts@.len() && forall|i: int|
        #![trigger views[i]]
        0 <= i < views.len() ==> is_account_of(intent, declared, remaining, i, views[i]) {
        assert forall|j: int| 0 <= j < intent.accounts@.len() implies (#[trigger] injected(
            intent,
            declared,
            j,
        )) is Ok by {
            assert(is_account_of(intent, declared, remaining, j, views[j]));
            lemma_injected(intent, declared, j);
        }
        assert forall|i: int|
            #![trigger items[i]]
            0 <= i < items.len() implies items[i] == Ok::<AccountView, ProgramError>(views[i]) by {
            assert(is_account_of(intent, declared, remaining, i, views[i]));
            lemma_taken(intent, declared, i);
            lemma_account(intent, declared, remaining, i, views[i]);
        }
        gathered_all(items, views);
    }
}

proof fn lemma_seed(
    intent: Intent,
    data: Seq<u8>,
    views: Seq<AccountView>,
    at: int,
    seed: Seq<u8>,
)
    requires
        0 <= at,
    ensures
        seed_of(intent, data, views, at) == Ok::<Seq<u8>, ProgramError>(seed) <==> is_seed(
            intent,
            data,
            views,
            at,
            seed,
        ),
{
    if at < intent.seeds@.len() {
        let entry = intent.seeds@[at];
        let o = entry.pool_offset as int;
        let n = entry.pool_len as int;
        if o + n <= intent.byte_pool@.len() {
            let bytes = intent.byte_pool@.subrange(o, o + n);
            if lies_in_pool(intent, entry.pool_offset, entry.pool_len, seed) {
                assert(seed =~= bytes);
            }
        }
    }
}

/// An address for an entry with derived address.
proof fn lemma_derived(
    entry: AccountEntry,
    intent: Intent,
    data: Seq<u8>,
    views: Seq<AccountView>,
    vault: Address,
    address: Seq<u8>,
)
    requires
        entry.source_type == AccountSourceType::PdaDerived,
    ensures
        expected_address(entry, intent, data, views, vault) == Ok::<Seq<u8>, ProgramError>(
            address,
        ) <==> is_address_for(entry, intent, data, views, vault, address),
{
    let pool = intent.byte_pool@;
    let o = entry.pool_offset as int;
    let n = entry.pool_len as int;
    if o + n <= pool.len() && n >= 5 && pool[o] < views.len() {
        let bytes = pool.subrange(o, o + n);
        lemma_two_bytes(bytes, 1);
        lemma_two_bytes(bytes, 3);
        let start = pool[o + 1] + 256 * pool[o + 2];
        let count = (pool[o + 3] + 256 * pool[o + 4]) as nat;
        let items = Seq::new(count, |s: int| seed_of(intent, data, views, start + s));
        let program = views[pool[o] as int].address@;
        if expected_address(entry, intent, data, views, vault) == Ok::<Seq<u8>, ProgramError>(
            address,
        ) {
            gathered_values(items);
            let seeds = gathered(items)->Ok_0;
            assert forall|s: int| 0 <= s < seeds.len() implies is_seed(
                intent,
                data,
                views,
                start + s,
                #[trigger] seeds[s],
            ) by {
                assert(items[s] == seed_of(intent, data, views, start + s));
                lemma_seed(intent, data, views, start + s, seeds[s]);
            }
            assert(derived_address(seeds, program) is Some);
        }
        if is_address_for(entry, intent, data, views, vault, address) {
            let seeds = choose|seeds: Seq<Seq<u8>>|
                #![trigger derived_address(seeds, views[pool[o] as int].address@)]
                seeds.len() == pool[o + 3] + 256 * pool[o + 4] && (forall|s: int|
                    0 <= s < seeds.len() ==> is_seed(
                        intent,
                        data,
                        views,
                        pool[o + 1] + 256 * pool[o + 2] + s,
                        #[trigger] seeds[s],
                    )) && derived_address(seeds, views[pool[o] as int].address@) is Some
                    && (derived_address(seeds, views[pool[o] as int].address@)->0).0 == address;
            assert forall|s: int|
                #![trigger items[s]]
                0 <= s < items.len() implies items[s] == Ok::<Seq<u8>, ProgramError>(seeds[s]) by {
                assert(is_seed(intent, data, views, start + s, seeds[s]));
                lemma_seed(intent, data, views, start + s, seeds[s]);
            }
            gathered_all(items, seeds);
        }
    }
}

proof fn lemma_address(
    entry: AccountEntry,
    intent: Intent,
    data: Seq<u8>,
    views: Seq<AccountView>,
    vault: Address,
    address: Seq<u8>,
)
    ensures
        expected_address(entry, intent, data, views, vault) == Ok::<Seq<u8>, ProgramError>(
            address,
        ) <==> is_address_for(entry, intent, data, views, vault, address),
{
    let pool = intent.byte_pool@;
    let o = entry.pool_offset as int;
    let n = entry.pool_len as int;
    if entry.source_type == AccountSourceType::PdaDerived {
        lemma_derived(entry, intent, data, views, vault, address);
    } else if o + n <= pool.len() {
        let bytes = pool.subrange(o, o + n);
        if n >= 32 {
            assert(bytes.take(32) =~= pool.subrange(o, o + 32));
        }
        if n >= 3 {
            lemma_two_bytes(bytes, 1);
        }
        if n >= 1 {
            match param_bytes(intent.params@, data, pool[o] as int) {
                Some(value) => {
                    if value.len() >= 32 {
                        assert(value.take(32) =~= value.subrange(0, 32));
                    }
                },
                None => {},
            }
        }
    }
}

proof fn lemma_segment(intent: Intent, data: Seq<u8>, k: int, text: Seq<u8>)
    requires
        0 <= k < intent.data_segments@.len(),
    ensures
        ({
            let segment = intent.data_segments@[k];
            let bytes = crate::bytes::part(
                intent.byte_pool@,
                segment.pool_offset as int,
                segment.pool_len as int,
            );
            bytes is Some && segment_bytes(segment, bytes->0, intent, data) == Ok::<
                Seq<u8>,
                ProgramError,
            >(text) <==> is_segment(intent, data, k, text)
        }),
{
    let segment = intent.data_segments@[k];
    let o = segment.pool_offset as int;
    let n = segment.pool_len as int;
    if o + n <= intent.byte_pool@.len() {
        let bytes = intent.byte_pool@.subrange(o, o + n);
        if lies_in_pool(intent, segment.pool_offset, segment.pool_len, text) {
            assert(text =~= bytes);
        }
        if n >= 2 && bytes[1] <= 7 {
            let width = encoded_width(bytes[1]);
            match param_bytes(intent.params@, data, bytes[0] as int) {
                Some(value) => {
                    if value.len() >= width {
                        if text.len() == width && text.is_prefix_of(value) {
                            assert(text =~= value.take(width));
                        }
                        assert(value.take(width).is_prefix_of(value));
                    }
                },
                None => {},
            }
        }
    }
}

/// The pieces that instruction data consist of.
proof fn lemma_pieces(intent: Intent, data: Seq<u8>, k: int, end: int, found: Seq<u8>) -> (pieces:
    Seq<Seq<u8>>)
    requires
        0 <= k <= end <= intent.data_segments@.len(),
        instruction_data(intent, data, k, end, found) is Ok,
    ensures
        pieces.len() == end - k,
        forall|j: int|
            0 <= j < pieces.len() ==> is_segment(intent, data, k + j, #[trigger] pieces[j]),
        instruction_data(intent, data, k, end, found)->Ok_0 == found + pieces.flatten(),
    decreases end - k,
{
    if k < end {
        let segment = intent.data_segments@[k];
        let bytes = crate::bytes::part(
            intent.byte_pool@,
            segment.pool_offset as int,
            segment.pool_len as int,
        )->0;
        let text = segment_bytes(segment, bytes, intent, data)->Ok_0;
        lemma_segment(intent, data, k, text);
        let rest = lemma_pieces(intent, data, k + 1, end, found + text);
        let pieces = seq![text] + rest;
        assert(pieces.drop_first() =~= rest);
        assert(found + text + rest.flatten() =~= found + pieces.flatten());
        assert forall|j: int| 0 <= j < pieces.len() implies is_segment(
            intent,
            data,
            k + j,
            #[trigger] pieces[j],
        ) by {
            if j > 0 {
                assert(pieces[j] == rest[j - 1]);
                assert(is_segment(intent, data, k + 1 + (j - 1), rest[j - 1]));
            }
        }
        pieces
    } else {
        let pieces = Seq::<Seq<u8>>::empty();
        assert(found + pieces.flatten() =~= found);
        pieces
    }
}

/// Pieces that fit make instruction data.
proof fn lemma_data_of_pieces(
    intent: Intent,
    data: Seq<u8>,
    k: int,
    end: int,
    found: Seq<u8>,
    pieces: Seq<Seq<u8>>,
)
    requires
        0 <= k <= end <= intent.data_segments@.len(),
        pieces.len() == end - k,
        forall|j: int|
            0 <= j < pieces.len() ==> is_segment(intent, data, k + j, #[trigger] pieces[j]),
        found.len() + pieces.flatten().len() <= INSTRUCTION_DATA_MAX,
    ensures
        instruction_data(intent, data, k, end, found) == Ok::<Seq<u8>, ProgramError>(
            found + pieces.flatten(),
        ),
    decreases end - k,
{
    if k < end {
        let text = pieces[0];
        let rest = pieces.drop_first();
        assert(is_segment(intent, data, k + 0, pieces[0]));
        lemma_segment(intent, data, k, text);
        assert forall|j: int| 0 <= j < rest.len() implies is_segment(
            intent,
            data,
            k + 1 + j,
            #[trigger] rest[j],
        ) by {
            assert(rest[j] == pieces[j + 1]);
            assert(is_segment(intent, data, k + (j + 1), pieces[j + 1]));
        }
        assert(found + text + rest.flatten() =~= found + pieces.flatten());
        lemma_data_of_pieces(intent, data, k + 1, end, found + text, rest);
    } else {
        assert(found + pieces.flatten() =~= found);
    }
}

proof fn lemma_instruction_exact(
    entry: InstructionEntry,
    intent: Intent,
    data: Seq<u8>,
    views: Seq<AccountView>,
    instruction: CpiView,
)
    requires
        instruction_of(entry, intent, data, views) == Ok::<CpiView, ProgramError>(instruction),
    ensures
        is_instruction_of(entry, intent, data, views, instruction),
{
    let pool = intent.byte_pool@;
    let o = entry.account_indexes_offset as int;
    let n = entry.account_indexes_len as int;
    let indexes = pool.subrange(o, o + n);
    let items = Seq::new(
        indexes.len(),
        |i: int| instruction_account(intent, views, indexes[i]),
    );
    gathered_values(items);
    assert forall|a: int| #![trigger instruction.accounts[a]] 0 <= a < n implies is_entry_account(
        instruction.accounts[a],
        intent,
        views,
        pool[o + a] as int,
    ) by {
        assert(items[a] == instruction_account(intent, views, indexes[a]));
    }
    let first = entry.segments_start as int;
    let end = first + entry.segments_count;
    let pieces = lemma_pieces(intent, data, first, end, Seq::empty());
    lemma_instruction_data(intent, data, first, end, Seq::empty());
    assert(Seq::<u8>::empty() + pieces.flatten() =~= pieces.flatten());
}

proof fn lemma_instruction_built(
    entry: InstructionEntry,
    intent: Intent,
    data: Seq<u8>,
    views: Seq<AccountView>,
    instruction: CpiView,
)
    requires
        is_instruction_of(entry, intent, data, views, instruction),
    ensures
        instruction_of(entry, intent, data, views) == Ok::<CpiView, ProgramError>(instruction),
{
    let pool = intent.byte_pool@;
    let o = entry.account_indexes_offset as int;
    let n = entry.account_indexes_len as int;
    let indexes = pool.subrange(o, o + n);
    let items = Seq::new(
        indexes.len(),
        |i: int| instruction_account(intent, views, indexes[i]),
    );
    assert forall|a: int|
        #![trigger items[a]]
        0 <= a < items.len() implies items[a] == Ok::<InstructionAccount, ProgramError>(
        instruction.accounts[a],
    ) by {
        assert(is_entry_account(instruction.accounts[a], intent, views, pool[o + a] as int));
    }
    gathered_all(items, instruction.accounts);
    let first = entry.segments_start as int;
    let end = first + entry.segments_count;
    let pieces = choose|pieces: Seq<Seq<u8>>|
        #![trigger pieces.flatten()]
        pieces.len() == entry.segments_count && (forall|k: int|
            0 <= k < pieces.len() ==> is_segment(
                intent,
                data,
                entry.segments_start + k,
                #[trigger] pieces[k],
            )) && instruction.data == pieces.flatten();
    lemma_data_of_pieces(intent, data, first, end, Seq::empty(), pieces);
    assert(Seq::<u8>::empty() + pieces.flatten() =~= pieces.flatten());
}

/// Each instruction entry of a custom intent gives its own instruction. There
/// is one account for each account entry, from where the entry says and at the
/// address that it asks for. For every `n`, the n-th instruction has the
/// program that entry `n` names, exactly the accounts whose numbers stand in
/// entry `n`'s part of the byte pool, in that order and with the rights of
/// their entries, and as data the segments of entry `n` one behind the other.
pub proof fn each_entry_gives_its_own_instruction(
    intent: Intent,
    data: Seq<u8>,
    declared: Seq<AccountView>,
    remaining: Seq<AccountView>,
    instructions: Seq<CpiView>,
)
    requires
        custom_instructions(intent, data, declared, remaining) == Ok::<Seq<CpiView>, ProgramError>(
            instructions,
        ),
    ensures
        instructions.len() == intent.instructions@.len(),
        exists|views: Seq<AccountView>|
            #![trigger are_the_accounts(intent, data, declared, remaining, views)]
            are_the_accounts(intent, data, declared, remaining, views) && forall|n: int|
                #![trigger instructions[n]]
                0 <= n < instructions.len() ==> is_instruction_of(
                    intent.instructions@[n],
                    intent,
                    data,
                    views,
                    instructions[n],
                ),
{
    let vault = declared[0].address;
    let views = collected(intent, declared, remaining)->Ok_0;
    lemma_accounts(intent, declared, remaining, views);
    let places = Seq::new(
        intent.accounts@.len(),
        |i: int| account_valid(intent, data, views, vault, i),
    );
    gathered_values(places);
    assert forall|i: int| #![trigger views[i]] 0 <= i < views.len() implies is_account_of(
        intent,
        declared,
        remaining,
        i,
        views[i],
    ) && is_address_for(intent.accounts@[i], intent, data, views, vault, views[i].address@) by {
        assert(places[i] == account_valid(intent, data, views, vault, i));
        lemma_address(intent.accounts@[i], intent, data, views, vault, views[i].address@);
    }
    assert(are_the_accounts(intent, data, declared, remaining, views));
    let items = Seq::new(
        intent.instructions@.len(),
        |i: int| instruction_of(intent.instructions@[i], intent, data, views),
    );
    gathered_values(items);
    assert forall|n: int|
        #![trigger instructions[n]]
        0 <= n < instructions.len() implies is_instruction_of(
        intent.instructions@[n],
        intent,
        data,
        views,
        instructions[n],
    ) by {
        assert(items[n] == instruction_of(intent.instructions@[n], intent, data, views));
        lemma_instruction_exact(intent.instructions@[n], intent, data, views, instructions[n]);
    }
}

/// A custom intent is not refused without reason: where the accounts that are
/// passed are those of the entries, and each instruction entry describes an
/// instruction, these instructions are run.
pub proof fn custom_intents_that_fit_are_run(
    intent: Intent,
    data: Seq<u8>,
    declared: Seq<AccountView>,
    remaining: Seq<AccountView>,
    views: Seq<AccountView>,
    instructions: Seq<CpiView>,
)
    requires
        are_the_accounts(intent, data, declared, remaining, views),
        instructions.len() == intent.instructions@.len(),
        forall|n: int|
            #![trigger instructions[n]]
            0 <= n < instructions.len() ==> is_instruction_of(
                intent.instructions@[n],
                intent,
                data,
                views,
                instructions[n],
            ),
    ensures
        custom_instructions(intent, data, declared, remaining) == Ok::<Seq<CpiView>, ProgramError>(
            instructions,
        ),
{
    let vault = declared[0].address;
    assert forall|i: int| #![trigger views[i]] 0 <= i < views.len() implies is_account_of(
        intent,
        declared,
        remaining,
        i,
        views[i],
    ) by {}
    lemma_accounts(intent, declared, remaining, views);
    let places = Seq::new(
        intent.accounts@.len(),
        |i: int| account_valid(intent, data, views, vault, i),
    );
    let done = Seq::new(intent.accounts@.len(), |i: int| ());
    assert forall|i: int| #![trigger places[i]] 0 <= i < places.len() implies places[i] == Ok::<
        (),
        ProgramError,
    >(done[i]) by {
        assert(is_account_of(intent, declared, remaining, i, views[i]));
        lemma_address(intent.accounts@[i], intent, data, views, vault, views[i].address@);
    }
    gathered_all(places, done);
    let items = Seq::new(
        intent.instructions@.len(),
        |i: int| instruction_of(intent.instructions@[i], intent, data, views),
    );
    assert forall|n: int| #![trigger items[n]] 0 <= n < items.len() implies items[n] == Ok::<
        CpiView,
        ProgramError,
    >(instructions[n]) by {
        lemma_instruction_built(intent.instructions@[n], intent, data, views, instructions[n]);
    }
    gathered_all(items, instructions);
}

} // verus!
