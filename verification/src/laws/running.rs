//! Laws on the instructions, accounts and seeds of custom intents, one by one,
//! and on why a custom intent does not run.
use crate::accounts::AccountView;
use crate::address::Address;
use crate::crypto::derived_address;
use crate::error::ProgramError;
use crate::gather::{gathered_values, the_first_error_counts};
use crate::instructions::custom::{
    account_for, account_valid, accounts_valid, collected, consumed, custom_instructions,
    expected_address, instruction_account, instruction_accounts, instruction_data,
    instruction_of, seed_of, seeds_of, segment_bytes, CpiView, InstructionAccount,
};
use crate::state::intent::{param_bytes, Intent};
use crate::utils::definition::{AccountSourceType, SeedType, SegmentType};
use vstd::prelude::*;

verus! {

/// The n-th instruction that a custom intent runs calls the program that the
/// n-th entry names by number, and has exactly the accounts whose numbers the
/// entry's bytes of the pool give, in their order, each with the rights of its
/// own account entry. Its data are made of the entry's own segments.
pub proof fn instructions_are_those_of_their_entries(
    intent: Intent,
    data: Seq<u8>,
    declared: Seq<AccountView>,
    remaining: Seq<AccountView>,
    views: Seq<AccountView>,
    instructions: Seq<CpiView>,
    n: int,
    a: int,
)
    requires
        collected(intent, declared, remaining) == Ok::<Seq<AccountView>, ProgramError>(views),
        custom_instructions(intent, data, declared, remaining) == Ok::<Seq<CpiView>, ProgramError>(
            instructions,
        ),
        0 <= n < intent.instructions@.len(),
    ensures
        instructions.len() == intent.instructions@.len(),
        instructions[n].program_id
            == views[intent.instructions@[n].program_account_index as int].address,
        instructions[n].accounts.len() == intent.instructions@[n].account_indexes_len,
        0 <= a < instructions[n].accounts.len() ==> {
            let index = intent.byte_pool@[intent.instructions@[n].account_indexes_offset
                + a] as int;
            &&& 0 <= index < views.len()
            &&& instructions[n].accounts[a].address == views[index].address
            &&& instructions[n].accounts[a].is_writable == intent.accounts@[index].is_writable
            &&& instructions[n].accounts[a].is_signer == intent.accounts@[index].is_signer
        },
        instruction_data(
            intent,
            data,
            intent.instructions@[n].segments_start as int,
            intent.instructions@[n].segments_start + intent.instructions@[n].segments_count,
            Seq::empty(),
        ) == Ok::<Seq<u8>, ProgramError>(instructions[n].data),
{
    let entry = intent.instructions@[n];
    let items = Seq::new(
        intent.instructions@.len(),
        |i: int| instruction_of(intent.instructions@[i], intent, data, views),
    );
    gathered_values(items);
    assert(items[n] == instruction_of(entry, intent, data, views));
    let o = entry.account_indexes_offset as int;
    let indexes = intent.byte_pool@.subrange(o, o + entry.account_indexes_len);
    let found = Seq::new(
        indexes.len(),
        |i: int| instruction_account(intent, views, indexes[i]),
    );
    gathered_values(found);
    if 0 <= a < instructions[n].accounts.len() {
        assert(found[a] == instruction_account(intent, views, indexes[a]));
        assert(indexes[a] == intent.byte_pool@[o + a]);
    }
}

proof fn lemma_behind(intent: Intent, data: Seq<u8>, k: int, end: int, found: Seq<u8>)
    requires
        0 <= k <= end <= intent.data_segments@.len(),
        instruction_data(intent, data, k, end, found) is Ok,
    ensures
        instruction_data(intent, data, k, end, Seq::empty()) is Ok,
        instruction_data(intent, data, k, end, found)->Ok_0 == found + instruction_data(
            intent,
            data,
            k,
            end,
            Seq::empty(),
        )->Ok_0,
        found.len() <= 1024 || k == end,
    decreases end - k,
{
    if k < end {
        let segment = intent.data_segments@[k];
        let bytes = crate::bytes::part(
            intent.byte_pool@,
            segment.pool_offset as int,
            segment.pool_len as int,
        )->0;
        let text = segment_bytes(segment, bytes, intent, data)->Ok_0;
        lemma_behind(intent, data, k + 1, end, found + text);
        lemma_shorter(intent, data, k + 1, end, found + text, text);
        lemma_behind(intent, data, k + 1, end, text);
        assert(Seq::<u8>::empty() + text =~= text);
        let rest = instruction_data(intent, data, k + 1, end, Seq::empty())->Ok_0;
        assert(found + text + rest =~= found + (text + rest));
    } else {
        assert(found + Seq::<u8>::empty() =~= found);
    }
}

proof fn lemma_shorter(
    intent: Intent,
    data: Seq<u8>,
    k: int,
    end: int,
    long: Seq<u8>,
    short: Seq<u8>,
)
    requires
        instruction_data(intent, data, k, end, long) is Ok,
        short.len() <= long.len(),
    ensures
        instruction_data(intent, data, k, end, short) is Ok,
    decreases end - k,
{
    if k < end {
        let segment = intent.data_segments@[k];
        let bytes = crate::bytes::part(
            intent.byte_pool@,
            segment.pool_offset as int,
            segment.pool_len as int,
        )->0;
        let text = segment_bytes(segment, bytes, intent, data)->Ok_0;
        lemma_shorter(intent, data, k + 1, end, long + text, short + text);
    }
}

/// The data of segments are those of the first ones, followed by those of the
/// rest, wherever they are split; no segments give no data.
pub proof fn segments_follow_one_another(
    intent: Intent,
    data: Seq<u8>,
    start: int,
    middle: int,
    end: int,
    text: Seq<u8>,
)
    requires
        0 <= start <= middle <= end <= intent.data_segments@.len(),
        instruction_data(intent, data, start, end, Seq::empty()) == Ok::<Seq<u8>, ProgramError>(
            text,
        ),
    ensures
        start == end ==> text.len() == 0,
        instruction_data(intent, data, start, middle, Seq::empty()) is Ok,
        instruction_data(intent, data, middle, end, Seq::empty()) is Ok,
        text == instruction_data(intent, data, start, middle, Seq::empty())->Ok_0
            + instruction_data(intent, data, middle, end, Seq::empty())->Ok_0,
    decreases end - start,
{
    if start == middle {
        assert(Seq::<u8>::empty() + text =~= text);
    } else {
        let segment = intent.data_segments@[start];
        let bytes = crate::bytes::part(
            intent.byte_pool@,
            segment.pool_offset as int,
            segment.pool_len as int,
        )->0;
        let first = segment_bytes(segment, bytes, intent, data)->Ok_0;
        let none = Seq::<u8>::empty();
        assert(none + first =~= first);
        lemma_behind(intent, data, start + 1, end, first);
        let rest = instruction_data(intent, data, start + 1, end, none)->Ok_0;
        segments_follow_one_another(intent, data, start + 1, middle, end, rest);
        lemma_cut(intent, data, start + 1, middle, end, first);
        lemma_behind(intent, data, start + 1, middle, first);
        let front = instruction_data(intent, data, start + 1, middle, none)->Ok_0;
        let back = instruction_data(intent, data, middle, end, none)->Ok_0;
        assert(first + (front + back) =~= (first + front) + back);
    }
}

proof fn lemma_cut(
    intent: Intent,
    data: Seq<u8>,
    k: int,
    middle: int,
    end: int,
    found: Seq<u8>,
)
    requires
        k <= middle <= end,
        instruction_data(intent, data, k, end, found) is Ok,
    ensures
        instruction_data(intent, data, k, middle, found) is Ok,
    decreases middle - k,
{
    if k < middle {
        let segment = intent.data_segments@[k];
        let bytes = crate::bytes::part(
            intent.byte_pool@,
            segment.pool_offset as int,
            segment.pool_len as int,
        )->0;
        let text = segment_bytes(segment, bytes, intent, data)->Ok_0;
        lemma_cut(intent, data, k + 1, middle, end, found + text);
    }
}

/// A literal segment gives its bytes of the pool; a parameter segment gives the
/// leading bytes of the parameter that its first byte of the pool numbers, as
/// many as the encoding takes that its second byte numbers: 32 for an address,
/// then 8, 8, 1, 1, 2, 4 and 16.
pub proof fn segments_give_their_bytes(intent: Intent, data: Seq<u8>, k: int, text: Seq<u8>)
    requires
        0 <= k < intent.data_segments@.len(),
        instruction_data(intent, data, k, k + 1, Seq::empty()) == Ok::<Seq<u8>, ProgramError>(
            text,
        ),
    ensures
        ({
            let pool = intent.byte_pool@;
            let o = intent.data_segments@[k].pool_offset as int;
            let n = intent.data_segments@[k].pool_len as int;
            &&& o + n <= pool.len()
            &&& intent.data_segments@[k].segment_type == SegmentType::Literal ==> text
                == pool.subrange(o, o + n)
            &&& intent.data_segments@[k].segment_type == SegmentType::Param ==> {
                &&& n >= 2
                &&& pool[o + 1] <= 7
                &&& text.len() == seq![32int, 8, 8, 1, 1, 2, 4, 16][pool[o + 1] as int]
                &&& param_bytes(intent.params@, data, pool[o] as int) is Some
                &&& text.len() <= param_bytes(intent.params@, data, pool[o] as int)->0.len()
                &&& text == param_bytes(intent.params@, data, pool[o] as int)->0.take(
                    text.len() as int,
                )
            }
        }),
{
    let segment = intent.data_segments@[k];
    let bytes = crate::bytes::part(
        intent.byte_pool@,
        segment.pool_offset as int,
        segment.pool_len as int,
    )->0;
    let piece = segment_bytes(segment, bytes, intent, data)->Ok_0;
    assert(Seq::<u8>::empty() + piece =~= piece);
    assert(instruction_data(intent, data, k + 1, k + 1, piece) == Ok::<Seq<u8>, ProgramError>(
        piece,
    ));
}

/// Every account that a custom intent runs with is where its entry asks for it:
/// the vault, the 32 bytes in the pool, the 32 bytes of the parameter, the
/// address that the entry's seeds derive for the program it names, or the 32
/// bytes in the data of the account it names.
pub proof fn accounts_are_at_the_addresses_asked_for(
    intent: Intent,
    data: Seq<u8>,
    declared: Seq<AccountView>,
    remaining: Seq<AccountView>,
    views: Seq<AccountView>,
    i: int,
)
    requires
        collected(intent, declared, remaining) == Ok::<Seq<AccountView>, ProgramError>(views),
        custom_instructions(intent, data, declared, remaining) is Ok,
        0 <= i < intent.accounts@.len(),
    ensures
        views.len() == intent.accounts@.len(),
        ({
            let pool = intent.byte_pool@;
            let o = intent.accounts@[i].pool_offset as int;
            let found = views[i].address@;
            match intent.accounts@[i].source_type {
                AccountSourceType::Vault => views[i] == declared[0],
                AccountSourceType::Static => found == pool.subrange(o, o + 32),
                AccountSourceType::Param => found == param_bytes(
                    intent.params@,
                    data,
                    pool[o] as int,
                )->0.take(32),
                AccountSourceType::PdaDerived => exists|seeds: Seq<Seq<u8>>|
                    #![trigger seeds.len()]
                    seeds.len() == pool[o + 3] + 256 * pool[o + 4] && (forall|s: int|
                        #![trigger seeds[s]]
                        0 <= s < seeds.len() ==> seed_of(
                            intent,
                            data,
                            views,
                            pool[o + 1] + 256 * pool[o + 2] + s,
                        ) == Ok::<Seq<u8>, ProgramError>(seeds[s])) && derived_address(
                        seeds,
                        views[pool[o] as int].address@,
                    ) is Some && (derived_address(seeds, views[pool[o] as int].address@)->0).0
                        == found,
                AccountSourceType::HasOne => {
                    let at = pool[o + 1] + 256 * pool[o + 2];
                    found == views[pool[o] as int].data@.subrange(at, at + 32)
                },
            }
        }),
{
    let pool = intent.byte_pool@;
    let entry = intent.accounts@[i];
    let o = entry.pool_offset as int;
    let n = entry.pool_len as int;
    let vault = declared[0].address;
    let accounts = Seq::new(
        intent.accounts@.len(),
        |j: int| account_for(intent, declared, remaining, j),
    );
    gathered_values(accounts);
    assert(accounts[i] == account_for(intent, declared, remaining, i));
    let places = Seq::new(
        intent.accounts@.len(),
        |j: int| account_valid(intent, data, views, vault, j),
    );
    gathered_values(places);
    assert(places[i] == account_valid(intent, data, views, vault, i));
    if o + n <= pool.len() {
        let bytes = pool.subrange(o, o + n);
        if n >= 32 {
            assert(bytes.take(32) =~= pool.subrange(o, o + 32));
        }
        if n >= 3 {
            lemma_number(bytes, 1);
        }
        if n >= 5 {
            lemma_number(bytes, 3);
            if entry.source_type == AccountSourceType::PdaDerived {
                let start = crate::bytes::le_value(bytes.subrange(1, 3)) as int;
                let count = crate::bytes::le_value(bytes.subrange(3, 5));
                let items = Seq::new(
                    count,
                    |s: int| seed_of(intent, data, views, start + s),
                );
                let seeds = seeds_of(intent, data, views, start, count)->Ok_0;
                gathered_values(items);
                assert forall|s: int|
                    #![trigger seeds[s]]
                    0 <= s < seeds.len() implies seed_of(
                    intent,
                    data,
                    views,
                    pool[o + 1] + 256 * pool[o + 2] + s,
                ) == Ok::<Seq<u8>, ProgramError>(seeds[s]) by {
                    assert(items[s] == seed_of(intent, data, views, start + s));
                }
                assert(seeds.len() == pool[o + 3] + 256 * pool[o + 4]);
            }
        }
    }
}

proof fn lemma_number(bytes: Seq<u8>, o: int)
    requires
        0 <= o,
        o + 2 <= bytes.len(),
    ensures
        crate::bytes::le_value(bytes.subrange(o, o + 2)) == bytes[o] + 256 * bytes[o + 1],
{
    let two = bytes.subrange(o, o + 2);
    reveal_with_fuel(crate::bytes::le_value, 3);
    assert(two.drop_first()[0] == bytes[o + 1]);
    assert(two.drop_first().drop_first().len() == 0);
}

/// Where no entry names the vault or a fixed address, the accounts are the
/// first remaining ones, in order.
pub proof fn remaining_accounts_are_taken_in_order(
    intent: Intent,
    declared: Seq<AccountView>,
    remaining: Seq<AccountView>,
    views: Seq<AccountView>,
)
    requires
        collected(intent, declared, remaining) == Ok::<Seq<AccountView>, ProgramError>(views),
        forall|i: int|
            #![trigger intent.accounts@[i]]
            0 <= i < intent.accounts@.len() ==> intent.accounts@[i].source_type
                != AccountSourceType::Vault && intent.accounts@[i].source_type
                != AccountSourceType::Static,
    ensures
        intent.accounts@.len() <= remaining.len(),
        views == remaining.take(intent.accounts@.len() as int),
{
    let accounts = Seq::new(
        intent.accounts@.len(),
        |j: int| account_for(intent, declared, remaining, j),
    );
    gathered_values(accounts);
    assert forall|i: int| #![trigger views[i]] 0 <= i < views.len() implies i < remaining.len()
        && views[i] == remaining[i] by {
        assert(accounts[i] == account_for(intent, declared, remaining, i));
        lemma_all_consumed(intent, declared, i);
        assert(intent.accounts@[i].source_type != AccountSourceType::Vault);
    }
    if views.len() > 0 {
        let last = views.len() - 1;
        assert(views[last] == remaining[last]);
    }
    assert(views =~= remaining.take(intent.accounts@.len() as int));
}

proof fn lemma_all_consumed(intent: Intent, declared: Seq<AccountView>, i: int)
    requires
        0 <= i <= intent.accounts@.len(),
        forall|j: int|
            #![trigger intent.accounts@[j]]
            0 <= j < intent.accounts@.len() ==> intent.accounts@[j].source_type
                != AccountSourceType::Vault && intent.accounts@[j].source_type
                != AccountSourceType::Static,
    ensures
        consumed(intent, declared, i) == i,
    decreases i,
{
    if i > 0 {
        lemma_all_consumed(intent, declared, i - 1);
        assert(intent.accounts@[i - 1].source_type != AccountSourceType::Vault);
    }
}

/// A seed is the entry's bytes of the pool, or the whole parameter or the whole
/// address of the account that the first of those bytes numbers.
pub proof fn seeds_are_what_their_entries_say(
    intent: Intent,
    data: Seq<u8>,
    views: Seq<AccountView>,
    at: int,
    seed: Seq<u8>,
)
    requires
        0 <= at,
        seed_of(intent, data, views, at) == Ok::<Seq<u8>, ProgramError>(seed),
    ensures
        at < intent.seeds@.len(),
        ({
            let pool = intent.byte_pool@;
            let o = intent.seeds@[at].pool_offset as int;
            match intent.seeds@[at].seed_type {
                SeedType::Literal => seed == pool.subrange(o, o + intent.seeds@[at].pool_len)
                    && seed.len() <= 32,
                SeedType::ParamRef => param_bytes(intent.params@, data, pool[o] as int) == Some(
                    seed,
                ) && seed.len() <= 32,
                SeedType::AccountRef => pool[o] < views.len() && seed
                    == views[pool[o] as int].address@,
            }
        }),
{
}

/// A custom intent fails with the first thing that is wrong: an account that
/// cannot be found, then one that is not where it has to be, then an
/// instruction that cannot be built.
pub proof fn the_first_failure_counts(
    intent: Intent,
    data: Seq<u8>,
    declared: Seq<AccountView>,
    remaining: Seq<AccountView>,
    views: Seq<AccountView>,
    k: int,
    e: ProgramError,
)
    ensures
        0 <= k < intent.accounts@.len() && account_for(intent, declared, remaining, k) == Err::<
            AccountView,
            ProgramError,
        >(e) && (forall|i: int|
            0 <= i < k ==> (#[trigger] account_for(intent, declared, remaining, i)) is Ok)
            ==> custom_instructions(intent, data, declared, remaining) == Err::<
            Seq<CpiView>,
            ProgramError,
        >(e),
        collected(intent, declared, remaining) == Ok::<Seq<AccountView>, ProgramError>(views) && 0
            <= k < intent.accounts@.len() && account_valid(
            intent,
            data,
            views,
            declared[0].address,
            k,
        ) == Err::<(), ProgramError>(e) && (forall|i: int|
            0 <= i < k ==> (#[trigger] account_valid(
                intent,
                data,
                views,
                declared[0].address,
                i,
            )) is Ok) ==> custom_instructions(intent, data, declared, remaining) == Err::<
            Seq<CpiView>,
            ProgramError,
        >(e),
        collected(intent, declared, remaining) == Ok::<Seq<AccountView>, ProgramError>(views)
            && accounts_valid(intent, data, views, declared[0].address) is Ok && 0 <= k
            < intent.instructions@.len() && instruction_of(
            intent.instructions@[k],
            intent,
            data,
            views,
        ) == Err::<CpiView, ProgramError>(e) && (forall|i: int|
            0 <= i < k ==> (#[trigger] instruction_of(
                intent.instructions@[i],
                intent,
                data,
                views,
            )) is Ok) ==> custom_instructions(intent, data, declared, remaining) == Err::<
            Seq<CpiView>,
            ProgramError,
        >(e),
{
    let accounts = Seq::new(
        intent.accounts@.len(),
        |j: int| account_for(intent, declared, remaining, j),
    );
    if 0 <= k < accounts.len() && accounts[k] == Err::<AccountView, ProgramError>(e) && (forall|
        i: int,
    |
        0 <= i < k ==> (#[trigger] account_for(intent, declared, remaining, i)) is Ok) {
        the_first_error_counts(accounts, k, e);
    }
    let places = Seq::new(
        intent.accounts@.len(),
        |j: int| account_valid(intent, data, views, declared[0].address, j),
    );
    if 0 <= k < places.len() && places[k] == Err::<(), ProgramError>(e) && (forall|i: int|
        0 <= i < k ==> (#[trigger] account_valid(
            intent,
            data,
            views,
            declared[0].address,
            i,
        )) is Ok) {
        the_first_error_counts(places, k, e);
    }
    let items = Seq::new(
        intent.instructions@.len(),
        |i: int| instruction_of(intent.instructions@[i], intent, data, views),
    );
    if 0 <= k < items.len() && items[k] == Err::<CpiView, ProgramError>(e) && (forall|i: int|
        0 <= i < k ==> (#[trigger] instruction_of(
            intent.instructions@[i],
            intent,
            data,
            views,
        )) is Ok) {
        the_first_error_counts(items, k, e);
    }
}

/// An account that is missing is refused as such, one at another address as a
/// wrong argument, an account number without an account as missing, an address
/// that seeds do not derive stops the program, and everything else is
/// malformed.
pub proof fn failures_have_their_reasons(
    intent: Intent,
    data: Seq<u8>,
    declared: Seq<AccountView>,
    remaining: Seq<AccountView>,
    views: Seq<AccountView>,
    vault: Address,
    i: int,
    index: u8,
    e: ProgramError,
)
    requires
        0 <= i < intent.accounts@.len(),
    ensures
        account_for(intent, declared, remaining, i) == Err::<AccountView, ProgramError>(e)
            ==> e == if intent.accounts@[i].source_type == AccountSourceType::Static && !(
        intent.accounts@[i].pool_len >= 32 && intent.accounts@[i].pool_offset
            + intent.accounts@[i].pool_len <= intent.byte_pool@.len()) {
            ProgramError::InvalidInstructionData
        } else {
            ProgramError::NotEnoughAccountKeys
        },
        expected_address(intent.accounts@[i], intent, data, views, vault) is Ok && account_valid(
            intent,
            data,
            views,
            vault,
            i,
        ) is Err ==> account_valid(intent, data, views, vault, i) == Err::<(), ProgramError>(
            ProgramError::InvalidArgument,
        ),
        expected_address(intent.accounts@[i], intent, data, views, vault) == Err::<
            Seq<u8>,
            ProgramError,
        >(e) ==> account_valid(intent, data, views, vault, i) == Err::<(), ProgramError>(e) && ({
            let pool = intent.byte_pool@;
            let o = intent.accounts@[i].pool_offset as int;
            let n = intent.accounts@[i].pool_len as int;
            match intent.accounts@[i].source_type {
                AccountSourceType::Vault => false,
                AccountSourceType::Static | AccountSourceType::Param => e
                    == ProgramError::InvalidInstructionData,
                AccountSourceType::HasOne => e == if o + n <= pool.len() && n >= 3 && pool[o]
                    >= views.len() {
                    ProgramError::NotEnoughAccountKeys
                } else {
                    ProgramError::InvalidInstructionData
                },
                AccountSourceType::PdaDerived => if o + n > pool.len() || n < 5 {
                    e == ProgramError::InvalidInstructionData
                } else if pool[o] >= views.len() {
                    e == ProgramError::NotEnoughAccountKeys
                } else if pool[o + 3] + 256 * pool[o + 4] > 16 {
                    e == ProgramError::InvalidInstructionData
                } else {
                    seeds_of(
                        intent,
                        data,
                        views,
                        pool[o + 1] + 256 * pool[o + 2],
                        (pool[o + 3] + 256 * pool[o + 4]) as nat,
                    ) == Err::<Seq<Seq<u8>>, ProgramError>(e) || e
                        == ProgramError::ProgramFailedToComplete
                },
            }
        }),
        0 <= i < intent.seeds@.len() && seed_of(intent, data, views, i) == Err::<
            Seq<u8>,
            ProgramError,
        >(e) ==> ({
            let pool = intent.byte_pool@;
            let o = intent.seeds@[i].pool_offset as int;
            let n = intent.seeds@[i].pool_len as int;
            e == if intent.seeds@[i].seed_type == SeedType::AccountRef && o + n <= pool.len() && n
                >= 1 {
                ProgramError::NotEnoughAccountKeys
            } else {
                ProgramError::InvalidInstructionData
            }
        }),
        seed_of(intent, data, views, intent.seeds@.len() as int) == Err::<Seq<u8>, ProgramError>(
            ProgramError::InvalidInstructionData,
        ),
        instruction_account(intent, views, index) is Err <==> index >= views.len(),
        instruction_account(intent, views, index) is Err ==> instruction_account(
            intent,
            views,
            index,
        ) == Err::<InstructionAccount, ProgramError>(ProgramError::NotEnoughAccountKeys),
{
    let pool = intent.byte_pool@;
    let o = intent.accounts@[i].pool_offset as int;
    let n = intent.accounts@[i].pool_len as int;
    if o + n <= pool.len() {
        let bytes = pool.subrange(o, o + n);
        if n >= 3 {
            lemma_number(bytes, 1);
        }
        if n >= 5 {
            lemma_number(bytes, 3);
        }
    }
}

/// An instruction without a program account is refused for the missing account,
/// one with more than sixteen accounts or with too much data as malformed, and
/// one that reaches beyond the pool or the segments stops the program.
pub proof fn instructions_fail_for_their_reasons(
    intent: Intent,
    data: Seq<u8>,
    views: Seq<AccountView>,
    n: int,
    e: ProgramError,
)
    requires
        0 <= n < intent.instructions@.len(),
        instruction_of(intent.instructions@[n], intent, data, views) == Err::<
            CpiView,
            ProgramError,
        >(e),
    ensures
        ({
            let entry = intent.instructions@[n];
            let pool = intent.byte_pool@;
            let o = entry.account_indexes_offset as int;
            let len = entry.account_indexes_len as int;
            let first = entry.segments_start as int;
            let end = first + entry.segments_count;
            if entry.program_account_index >= views.len() {
                e == ProgramError::NotEnoughAccountKeys
            } else if o + len > pool.len() {
                e == ProgramError::ProgramFailedToComplete
            } else if len > 16 {
                e == ProgramError::InvalidInstructionData
            } else if exists|a: int| 0 <= a < len && (#[trigger] pool[o + a]) >= views.len() {
                e == ProgramError::NotEnoughAccountKeys
            } else if end > intent.data_segments@.len() {
                e == ProgramError::ProgramFailedToComplete
            } else {
                instruction_data(intent, data, first, end, Seq::empty()) == Err::<
                    Seq<u8>,
                    ProgramError,
                >(e) && (e == ProgramError::InvalidInstructionData || e
                    == ProgramError::ProgramFailedToComplete && exists|k: int|
                    first <= k < end && (#[trigger] intent.data_segments@[k]).pool_offset
                        + intent.data_segments@[k].pool_len > pool.len())
            }
        }),
{
    let entry = intent.instructions@[n];
    let pool = intent.byte_pool@;
    let o = entry.account_indexes_offset as int;
    let len = entry.account_indexes_len as int;
    let first = entry.segments_start as int;
    let end = first + entry.segments_count;
    if entry.program_account_index < views.len() && o + len <= pool.len() && len <= 16 {
        let indexes = pool.subrange(o, o + len);
        let found = Seq::new(
            indexes.len(),
            |i: int| instruction_account(intent, views, indexes[i]),
        );
        lemma_missing(intent, views, indexes, 0);
        if instruction_accounts(intent, views, indexes) is Ok {
            gathered_values(found);
            assert forall|a: int| 0 <= a < len implies (#[trigger] pool[o + a]) < views.len() by {
                assert(found[a] == instruction_account(intent, views, indexes[a]));
                assert(indexes[a] == pool[o + a]);
            }
            if end <= intent.data_segments@.len() {
                lemma_data_failure(intent, data, first, end, Seq::empty());
            }
        } else {
            let a = choose|a: int| 0 <= a < indexes.len() && indexes[a] >= views.len();
            assert(indexes[a] == pool[o + a]);
        }
    }
}

proof fn lemma_missing(intent: Intent, views: Seq<AccountView>, indexes: Seq<u8>, k: int)
    requires
        0 <= k <= indexes.len(),
        forall|a: int| 0 <= a < k ==> indexes[a] < views.len(),
    ensures
        instruction_accounts(intent, views, indexes) is Err ==> instruction_accounts(
            intent,
            views,
            indexes,
        )->Err_0 == ProgramError::NotEnoughAccountKeys && exists|a: int|
            0 <= a < indexes.len() && indexes[a] >= views.len(),
    decreases indexes.len() - k,
{
    let found = Seq::new(
        indexes.len(),
        |i: int| instruction_account(intent, views, indexes[i]),
    );
    if k == indexes.len() {
        let values = Seq::new(indexes.len(), |i: int| found[i]->Ok_0);
        crate::gather::gathered_all(found, values);
    } else if indexes[k] < views.len() {
        lemma_missing(intent, views, indexes, k + 1);
    } else {
        the_first_error_counts(found, k, ProgramError::NotEnoughAccountKeys);
    }
}

proof fn lemma_data_failure(intent: Intent, data: Seq<u8>, k: int, end: int, found: Seq<u8>)
    requires
        0 <= k <= end <= intent.data_segments@.len(),
        instruction_data(intent, data, k, end, found) is Err,
    ensures
        instruction_data(intent, data, k, end, found)->Err_0
            == ProgramError::InvalidInstructionData || (instruction_data(
            intent,
            data,
            k,
            end,
            found,
        )->Err_0 == ProgramError::ProgramFailedToComplete && exists|j: int|
            k <= j < end && (#[trigger] intent.data_segments@[j]).pool_offset
                + intent.data_segments@[j].pool_len > intent.byte_pool@.len()),
    decreases end - k,
{
    let segment = intent.data_segments@[k];
    match crate::bytes::part(
        intent.byte_pool@,
        segment.pool_offset as int,
        segment.pool_len as int,
    ) {
        None => {
            assert(intent.data_segments@[k].pool_offset + intent.data_segments@[k].pool_len
                > intent.byte_pool@.len());
        },
        Some(bytes) => match segment_bytes(segment, bytes, intent, data) {
            Err(_) => {},
            Ok(text) => {
                if found.len() + text.len() <= 1024 {
                    lemma_data_failure(intent, data, k + 1, end, found + text);
                }
            },
        },
    }
}

} // verus!
