//! Laws on views: what contracts speak of is all that there is.
use crate::accounts::{AccountMeta, AccountView};
use crate::address::Address;
use crate::bench::{is_case, is_step, BenchCase, BenchInstruction, CaseView, InstructionView};
use crate::client::key_views;
use crate::crypto::{derived_address, seed_bytes};
use crate::error::ProgramError;
use crate::instructions::custom::{cpi_views, seen, CpiInstruction};
use crate::instructions::execute::{Execution, ExecutionView};
use crate::metas::meta_views;
use crate::pda::{address_of, is_pda, is_program_address, program_address, program_id_bytes};
use crate::utils::message::{draft, finished, offchain_message, outcome, put, Draft, MessageContext};
use vstd::prelude::*;
use vstd::string::StringSliceAdditionalSpecFns;

verus! {

/// An instruction to invoke is its program, its accounts and its data, and a
/// list of them is each of them.
pub proof fn instructions_are_seen_whole(list: Seq<CpiInstruction>, i: int)
    requires
        0 <= i < list.len(),
    ensures
        cpi_views(list).len() == list.len(),
        cpi_views(list)[i].program_id == list[i].program_id,
        cpi_views(list)[i].accounts == list[i].accounts@,
        cpi_views(list)[i].data == list[i].data@,
{
}

/// What is left to be done after an execution is seen whole.
pub proof fn executions_are_seen_whole(execution: Execution)
    ensures
        match execution {
            Execution::CreateIntent { payer, address, intent_index, bump, data } => execution@ == (
            ExecutionView::CreateIntent {
                payer,
                address: address.bytes@,
                intent_index,
                bump,
                data: data@,
            }),
            Execution::WriteIntent { intent } => execution@ == (ExecutionView::WriteIntent {
                intent,
            }),
            Execution::WriteBody { body } => execution@ == (ExecutionView::WriteBody {
                body: body@,
            }),
            Execution::Invoke { vault_bump, instructions } => execution@ == (
            ExecutionView::Invoke { vault_bump, instructions: cpi_views(instructions@) }),
        },
{
}

/// Accounts, keys, seeds and addresses are seen as they are.
pub proof fn lists_are_seen_whole(
    views: Seq<&AccountView>,
    seeds: Seq<Vec<u8>>,
    keys: Seq<[u8; 32]>,
    metas: Seq<AccountMeta>,
    address: Address,
    i: int,
)
    ensures
        seen(views).len() == views.len(),
        0 <= i < views.len() ==> seen(views)[i] == *views[i],
        seed_bytes(seeds).len() == seeds.len(),
        0 <= i < seeds.len() ==> seed_bytes(seeds)[i] == seeds[i]@,
        key_views(keys).len() == keys.len(),
        0 <= i < keys.len() ==> key_views(keys)[i] == keys[i]@,
        meta_views(metas).len() == metas.len(),
        0 <= i < metas.len() ==> meta_views(metas)[i].pubkey == metas[i].pubkey.bytes@
            && meta_views(metas)[i].is_signer == metas[i].is_signer && meta_views(
            metas,
        )[i].is_writable == metas[i].is_writable,
        address@ == address.bytes@,
{
}

/// The benchmark's instructions and cases are seen whole, and a step or a case
/// is there exactly where it is specified.
pub proof fn benchmarks_are_seen_whole(
    case: BenchCase,
    i: int,
    step: Option<BenchInstruction>,
    expected: Option<InstructionView>,
    found: Option<BenchCase>,
    wanted: Option<CaseView>,
)
    ensures
        case@.steps.len() == case.steps@.len(),
        0 <= i < case.steps@.len() ==> case@.steps[i].data == case.steps@[i].data@
            && case@.steps[i].metas == meta_views(case.steps@[i].metas@)
            && case@.steps[i].creator_signs == case.steps@[i].creator_signs,
        case@.measured.data == case.measured.data@,
        case@.measured.metas == meta_views(case.measured.metas@),
        case@.measured.creator_signs == case.measured.creator_signs,
        is_step(step, expected) <==> (step is Some <==> expected is Some) && (step is Some
            ==> step->0@ == expected->0),
        is_case(found, wanted) <==> (found is Some <==> wanted is Some) && (found is Some
            ==> found->0@ == wanted->0),
{
}

/// The context of a message is seen whole.
pub proof fn contexts_are_seen_whole(ctx: MessageContext<'_>)
    ensures
        ctx@.expiry == ctx.expiry,
        ctx@.action == ctx.action.spec_bytes(),
        ctx@.wallet_name == ctx.wallet_name.spec_bytes(),
        ctx@.proposal_index == ctx.proposal_index,
{
}

/// An address that the program derives is what the seeds give for the program,
/// and there is none exactly where they give none.
pub proof fn derived_addresses_are_the_programs(
    seeds: Seq<Seq<u8>>,
    address: Option<Address>,
    found: Option<(Address, u8)>,
)
    ensures
        program_address(seeds) == derived_address(seeds, program_id_bytes()),
        address_of(seeds) is Some <==> derived_address(seeds, program_id_bytes()) is Some,
        address_of(seeds) is Some ==> address_of(seeds)->0 == (derived_address(
            seeds,
            program_id_bytes(),
        )->0).0,
        is_pda(address, seeds) <==> (address is Some <==> derived_address(
            seeds,
            program_id_bytes(),
        ) is Some) && (address is Some ==> address->0@ == (derived_address(
            seeds,
            program_id_bytes(),
        )->0).0),
        is_program_address(found, seeds) <==> (found is Some <==> derived_address(
            seeds,
            program_id_bytes(),
        ) is Some) && (found is Some ==> derived_address(seeds, program_id_bytes()) == Some(
            ((found->0).0@, (found->0).1),
        )),
{
}

/// A text is added to a message as a whole, where all of it fits in 2048 bytes;
/// where it does not, or after an error, nothing is.
pub proof fn texts_are_added_whole(bytes: Seq<u8>, piece: Seq<u8>, e: ProgramError)
    ensures
        bytes.len() + piece.len() <= 2048 ==> put(draft(bytes), piece) == (Draft {
            bytes: bytes + piece,
            error: None,
        }),
        bytes.len() + piece.len() > 2048 ==> put(draft(bytes), piece) == (Draft {
            bytes,
            error: Some(ProgramError::InvalidInstructionData),
        }),
        put(Draft { bytes, error: Some(e) }, piece) == (Draft { bytes, error: Some(e) }),
        finished(draft(bytes)) == (Draft {
            bytes: offchain_message(bytes.skip(20)),
            error: None,
        }),
        outcome(bytes, Ok(())) == (Draft { bytes, error: None }),
        outcome(bytes, Err(e)) == (Draft { bytes, error: Some(e) }),
{
}

} // verus!
