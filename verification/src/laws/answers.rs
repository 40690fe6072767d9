//! Laws on what the smaller functions answer: numbers of types and states,
//! votes, parameters, derived addresses, and what a client sends.
use crate::accounts::AccountMeta;
use crate::address::Address;
use crate::bytes::{le_bytes, le_value};
use crate::client::{
    add_intent_msg, build_approve_data, build_cancel_data, remove_intent_msg, ProgramKind,
};
use crate::crypto::{derived_address, sha256_digest};
use crate::error::ProgramError;
use crate::laws::instructions::ones;
use crate::laws::parameters::parameters_lie_one_behind_the_other;
use crate::metas::{approve_metas, cancel_metas, cleanup_metas, execute_metas, propose_metas};
use crate::pda::{intent_pda, program_id_bytes, proposal_pda, vault_pda, wallet_pda};
use crate::report::no_better;
use crate::state::intent::{Intent, IntentType};
use crate::state::proposal::{
    a_vote_sets_its_bit, a_vote_taken_back_clears_its_bit, votes_are_bits, votes_are_counted,
    Proposal, ProposalStatus,
};
use crate::state::wallet::ClearWallet;
use crate::utils::datetime::{date_of, format_timestamp, timestamps_show_date_and_time};
use crate::utils::definition::{DataEncoding, ParamType};
use crate::utils::message::{MessageBuilder, MessageContext};
use vstd::prelude::*;
use vstd::string::StringSliceAdditionalSpecFns;
use vstd::utf8::valid_utf8;

verus! {

/// The intent types have the numbers 0 to 3, in the order of adding, removing,
/// updating and custom, and no other number is one; so do the states of a
/// proposal, in the order of active, approved, executed and cancelled.
pub proof fn types_and_states_have_their_numbers(
    number: u8,
    found: Result<IntentType, ProgramError>,
    status: ProposalStatus,
    code: u8,
)
    requires
        call_ensures(IntentType::from_u8, (number,), found),
        call_ensures(ProposalStatus::to_u8, (status,), code),
    ensures
        number > 3 <==> found == Err::<IntentType, ProgramError>(
            ProgramError::InvalidInstructionData,
        ),
        number == 0 <==> found == Ok::<IntentType, ProgramError>(IntentType::AddIntent),
        number == 1 <==> found == Ok::<IntentType, ProgramError>(IntentType::RemoveIntent),
        number == 2 <==> found == Ok::<IntentType, ProgramError>(IntentType::UpdateIntent),
        number == 3 <==> found == Ok::<IntentType, ProgramError>(IntentType::Custom),
        code == 0 <==> status == ProposalStatus::Active,
        code == 1 <==> status == ProposalStatus::Approved,
        code == 2 <==> status == ProposalStatus::Executed,
        code == 3 <==> status == ProposalStatus::Cancelled,
{
}

/// An encoding has a number from 0 to 7 and takes 32, 8, 8, 1, 1, 2, 4 or 16
/// bytes, in that order.
pub proof fn encodings_take_their_bytes(
    number: u8,
    found: Option<DataEncoding>,
    size: usize,
)
    requires
        call_ensures(DataEncoding::from_u8, (number,), found),
        found is Some ==> call_ensures(DataEncoding::byte_size, (&found->0,), size),
    ensures
        found is Some <==> number <= 7,
        found is Some ==> size == seq![32int, 8, 8, 1, 1, 2, 4, 16][number as int],
{
}

/// The number of an approver is the first place of the address in the list.
pub proof fn approvers_have_their_places(
    intent: Intent,
    address: Address,
    found: Option<u8>,
    listed: bool,
    j: int,
)
    requires
        intent.wf(),
        call_ensures(Intent::approver_index, (&intent, &address), found),
        call_ensures(Intent::is_approver, (&intent, &address), listed),
    ensures
        listed <==> found is Some,
        found is Some ==> found->0 < intent.approvers@.len() && intent.approvers@[found->0 as int]
            == address,
        0 <= j < intent.approvers@.len() && intent.approvers@[j] == address ==> found is Some
            && found->0 <= j,
{
    if 0 <= j < intent.approvers@.len() && intent.approvers@[j] == address {
        assert(intent.approvers@.contains(address));
    }
}

/// Votes are bits: the counts are those of the bits that are one, and an
/// approver approves, or wants to cancel, exactly where the bit at that place is
/// one.
pub proof fn votes_are_read_from_bits(
    proposal: Proposal,
    index: u8,
    approvals: u8,
    cancellations: u8,
    approves: bool,
    cancels: bool,
)
    requires
        index < 16,
        call_ensures(Proposal::approval_count, (&proposal,), approvals),
        call_ensures(Proposal::cancellation_count, (&proposal,), cancellations),
        call_ensures(Proposal::has_approved_by_index, (&proposal, index), approves),
        call_ensures(Proposal::has_cancelled_by_index, (&proposal, index), cancels),
    ensures
        approvals == ones(proposal.approval_bitmap),
        cancellations == ones(proposal.cancellation_bitmap),
        approves <==> (proposal.approval_bitmap >> (index as u16)) & 1u16 == 1u16,
        cancels <==> (proposal.cancellation_bitmap >> (index as u16)) & 1u16 == 1u16,
{
    votes_are_counted(proposal.approval_bitmap);
    votes_are_counted(proposal.cancellation_bitmap);
    votes_are_bits(proposal.approval_bitmap, index as u16, 16);
    votes_are_bits(proposal.cancellation_bitmap, index as u16, 16);
}

/// An approval sets the bit among the approvals and clears it among the
/// cancellations, and nothing else of the proposal changes.
pub proof fn approvals_move_the_bit(proposal: &mut Proposal, index: u8)
    requires
        index < 16,
        call_ensures(Proposal::set_approval, (proposal, index), ()),
    ensures
        *final(proposal) == (Proposal {
            approval_bitmap: old(proposal).approval_bitmap | (1u16 << (index as u16)),
            cancellation_bitmap: old(proposal).cancellation_bitmap & !(1u16 << (index as u16)),
            ..*old(proposal)
        }),
{
    a_vote_sets_its_bit(old(proposal).approval_bitmap, final(proposal).approval_bitmap, index);
    a_vote_taken_back_clears_its_bit(
        old(proposal).cancellation_bitmap,
        final(proposal).cancellation_bitmap,
        index,
    );
}

/// A cancellation sets the bit among the cancellations and clears it among the
/// approvals, and nothing else of the proposal changes.
pub proof fn cancellations_move_the_bit(proposal: &mut Proposal, index: u8)
    requires
        index < 16,
        call_ensures(Proposal::set_cancellation, (proposal, index), ()),
    ensures
        *final(proposal) == (Proposal {
            cancellation_bitmap: old(proposal).cancellation_bitmap | (1u16 << (index as u16)),
            approval_bitmap: old(proposal).approval_bitmap & !(1u16 << (index as u16)),
            ..*old(proposal)
        }),
{
    a_vote_sets_its_bit(
        old(proposal).cancellation_bitmap,
        final(proposal).cancellation_bitmap,
        index,
    );
    a_vote_taken_back_clears_its_bit(
        old(proposal).approval_bitmap,
        final(proposal).approval_bitmap,
        index,
    );
}

/// The bytes of a parameter are those of the data from its offset on, and the
/// next parameter starts where they end. Numbers take 1, 2, 4, 8 or 16 bytes, an
/// address 32, a flag one, and a text one byte for its length and that many
/// more.
pub proof fn parameters_are_read_in_order(
    intent: Intent,
    data: &[u8],
    k: u8,
    offset: Result<usize, ProgramError>,
    next: Result<usize, ProgramError>,
    bytes: Result<&[u8], ProgramError>,
)
    requires
        k < 255,
        k < intent.params@.len(),
        call_ensures(Intent::param_offset, (&intent, data, k), offset),
        call_ensures(Intent::param_offset, (&intent, data, (k + 1) as u8), next),
        call_ensures(Intent::read_param_bytes, (&intent, data, k), bytes),
        bytes is Ok,
    ensures
        offset is Ok,
        k == 0 ==> offset->Ok_0 == 0,
        bytes->Ok_0@ == data@.subrange(
            offset->Ok_0 as int,
            offset->Ok_0 + bytes->Ok_0@.len(),
        ),
        next is Ok,
        next->Ok_0 == offset->Ok_0 + bytes->Ok_0@.len(),
        bytes->Ok_0@.len() == match intent.params@[k as int].param_type {
            ParamType::Address => 32int,
            ParamType::U64 | ParamType::I64 => 8,
            ParamType::String => 1 + bytes->Ok_0@[0],
            ParamType::Bool | ParamType::U8 => 1,
            ParamType::U16 => 2,
            ParamType::U32 => 4,
            ParamType::U128 => 16,
        },
{
    parameters_lie_one_behind_the_other(intent.params@, data@, k as int);
}

/// The template and the names of parameters are the texts that lie in the byte
/// pool, and are malformed where they do not lie there or are no texts.
pub proof fn texts_lie_in_the_pool(
    intent: Intent,
    template: Result<&str, ProgramError>,
    offset: u16,
    len: u16,
    bytes: Result<&[u8], ProgramError>,
)
    requires
        call_ensures(Intent::template_str, (&intent,), template),
        call_ensures(Intent::pool_slice, (&intent, offset, len), bytes),
    ensures
        ({
            let pool = intent.byte_pool@;
            let start = intent.template_offset as int;
            let end = start + intent.template_len;
            &&& end <= pool.len() && valid_utf8(pool.subrange(start, end)) ==> template is Ok
                && template->Ok_0.spec_bytes() == pool.subrange(start, end)
            &&& !(end <= pool.len() && valid_utf8(pool.subrange(start, end))) ==> template
                == Err::<&str, ProgramError>(ProgramError::InvalidInstructionData)
            &&& offset + len <= pool.len() ==> bytes is Ok && bytes->Ok_0@ == pool.subrange(
                offset as int,
                offset + len,
            )
            &&& offset + len > pool.len() ==> bytes == Err::<&[u8], ProgramError>(
                ProgramError::InvalidInstructionData,
            )
        }),
{
}

/// A wallet's name is the first bytes of its buffer, as many as its length says.
pub proof fn names_are_read_from_the_buffer(wallet: ClearWallet, name: &str)
    requires
        wallet.wf(),
        call_ensures(ClearWallet::name, (&wallet,), name),
    ensures
        name.spec_bytes() == wallet.name@.subrange(0, wallet.name_len as int),
{
    assert(wallet.name@.take(wallet.name_len as int) =~= wallet.name@.subrange(
        0,
        wallet.name_len as int,
    ));
}

/// A wallet's address derives from the hash of its name, an intent's from its
/// wallet and index, a proposal's from its intent and the eight bytes of its
/// index, and a vault's from its wallet, each behind its own word.
pub proof fn addresses_derive_from_their_words(
    name: &[u8],
    address: Address,
    index: u8,
    number: u64,
    wallet: Option<(Address, [u8; 32])>,
    intent: Option<Address>,
    proposal: Option<Address>,
    vault: Option<Address>,
)
    requires
        call_ensures(wallet_pda, (name,), wallet),
        call_ensures(intent_pda, (&address, index), intent),
        call_ensures(proposal_pda, (&address, number), proposal),
        call_ensures(vault_pda, (&address,), vault),
    ensures
        ({
            let id = program_id_bytes();
            let w = derived_address(seq!["clear_wallet".spec_bytes(), sha256_digest(name@)], id);
            let i = derived_address(
                seq!["intent".spec_bytes(), address.bytes@, seq![index]],
                id,
            );
            let p = derived_address(
                seq!["proposal".spec_bytes(), address.bytes@, le_bytes(number as nat, 8)],
                id,
            );
            let v = derived_address(seq!["vault".spec_bytes(), address.bytes@], id);
            &&& wallet is Some <==> w is Some
            &&& wallet is Some ==> (wallet->0).0.bytes@ == (w->0).0 && (wallet->0).1@
                == sha256_digest(name@)
            &&& intent is Some <==> i is Some
            &&& intent is Some ==> intent->0.bytes@ == (i->0).0
            &&& proposal is Some <==> p is Some
            &&& proposal is Some ==> proposal->0.bytes@ == (p->0).0
            &&& vault is Some <==> v is Some
            &&& vault is Some ==> vault->0.bytes@ == (v->0).0
        }),
{
}

/// A timestamp is shown exactly where its year has four digits; the digits are
/// then those of the date of its day, and of the hour, minute and second in it.
pub proof fn timestamps_are_shown_as_dates(ts: i64, text: Option<Vec<u8>>)
    requires
        call_ensures(format_timestamp, (ts,), text),
    ensures
        text is Some <==> -62_167_219_200 <= ts <= 253_402_300_799,
        text is Some ==> {
            let (year, month, day) = date_of(ts as int / 86400);
            let second = ts as int % 86400;
            let shown = text->0@;
            &&& shown.len() == 19
            &&& crate::text::decimal_value(shown.subrange(0, 4)) == year
            &&& crate::text::decimal_value(shown.subrange(5, 7)) == month
            &&& crate::text::decimal_value(shown.subrange(8, 10)) == day
            &&& crate::text::decimal_value(shown.subrange(11, 13)) == second / 3600
            &&& crate::text::decimal_value(shown.subrange(14, 16)) == second % 3600 / 60
            &&& crate::text::decimal_value(shown.subrange(17, 19)) == second % 60
        },
{
    crate::utils::datetime::plain_years_are_a_range(ts as int);
    if text is Some {
        timestamps_show_date_and_time(ts as int);
    }
}

/// What a client signs is what the program checks: the client's text for
/// removing or adding an intent is the message that a fresh builder of the
/// program makes for the same context and parameters, wherever it makes one.
pub proof fn clients_sign_what_the_program_checks(
    fresh: MessageBuilder,
    builder: &mut MessageBuilder,
    ctx: &MessageContext<'_>,
    intent: &Intent,
    data: &[u8],
    removal: Vec<u8>,
    addition: Vec<u8>,
)
    requires
        call_ensures(MessageBuilder::new, (), fresh),
        *old(builder) == fresh,
        call_ensures(
            MessageBuilder::build_message_for_intent,
            (builder, ctx, intent, data),
            Ok(()),
        ),
        data@.len() >= 1,
        call_ensures(
            remove_intent_msg,
            (ctx.action, ctx.expiry, ctx.wallet_name, ctx.proposal_index, data@[0]),
            removal,
        ),
        call_ensures(
            add_intent_msg,
            (ctx.action, ctx.expiry, ctx.wallet_name, ctx.proposal_index, data),
            addition,
        ),
    ensures
        intent.intent_type == IntentType::RemoveIntent ==> final(builder)@ == removal@,
        intent.intent_type == IntentType::AddIntent ==> final(builder)@ == addition@,
{
    crate::laws::messages::every_message_has_the_format(ctx@, *intent, data@);
}

/// Whether an account is named with an address and rights.
pub open spec fn names(meta: AccountMeta, pubkey: Seq<u8>, signs: bool, writes: bool) -> bool {
    meta.pubkey.bytes@ == pubkey && meta.is_signer == signs && meta.is_writable == writes
}

/// A vote names the wallet, which is only read, the intent and the proposal,
/// which are written; a cleanup names the proposal and the refund account, both
/// written. None of them signs.
pub proof fn votes_and_cleanups_name_their_accounts(
    wallet: Address,
    intent: Address,
    proposal: Address,
    refund: Address,
    approval: Vec<AccountMeta>,
    cancellation: Vec<AccountMeta>,
    cleanup: Vec<AccountMeta>,
)
    requires
        call_ensures(approve_metas, (wallet, intent, proposal), approval),
        call_ensures(cancel_metas, (wallet, intent, proposal), cancellation),
        call_ensures(cleanup_metas, (proposal, refund), cleanup),
    ensures
        approval@.len() == 3,
        names(approval@[0], wallet.bytes@, false, false),
        names(approval@[1], intent.bytes@, false, true),
        names(approval@[2], proposal.bytes@, false, true),
        cancellation@.len() == 3,
        names(cancellation@[0], wallet.bytes@, false, false),
        names(cancellation@[1], intent.bytes@, false, true),
        names(cancellation@[2], proposal.bytes@, false, true),
        cleanup@.len() == 2,
        names(cleanup@[0], proposal.bytes@, false, true),
        names(cleanup@[1], refund.bytes@, false, true),
{
    lemma_named(approval@, 0);
    lemma_named(approval@, 1);
    lemma_named(approval@, 2);
    lemma_named(cancellation@, 0);
    lemma_named(cancellation@, 1);
    lemma_named(cancellation@, 2);
    lemma_named(cleanup@, 0);
    lemma_named(cleanup@, 1);
}

proof fn lemma_named(metas: Seq<AccountMeta>, i: int)
    ensures
        crate::metas::meta_views(metas).len() == metas.len(),
        0 <= i < metas.len() ==> crate::metas::meta_views(metas)[i] == metas[i]@,
{
}

/// A proposal names the payer, who signs, the wallet, the intent and the derived
/// proposal, all written, and the system program. An execution names the wallet,
/// its derived vault, the intent and the proposal, all written, the system
/// program, and then the remaining accounts as they are.
pub proof fn proposals_and_executions_name_their_accounts(
    payer: Address,
    wallet: Address,
    intent: Address,
    proposal: Address,
    number: u64,
    remaining: Vec<AccountMeta>,
    proposing: Vec<AccountMeta>,
    executing: Vec<AccountMeta>,
    i: int,
)
    requires
        call_ensures(propose_metas, (payer, wallet, intent, number), Some(proposing)),
        call_ensures(execute_metas, (wallet, intent, proposal, remaining), Some(executing)),
    ensures
        ({
            let p = derived_address(
                seq!["proposal".spec_bytes(), intent.bytes@, le_bytes(number as nat, 8)],
                program_id_bytes(),
            );
            let v = derived_address(
                seq!["vault".spec_bytes(), wallet.bytes@],
                program_id_bytes(),
            );
            let system = Seq::new(32, |j: int| 0u8);
            &&& proposing@.len() == 5
            &&& names(proposing@[0], payer.bytes@, true, true)
            &&& names(proposing@[1], wallet.bytes@, false, true)
            &&& names(proposing@[2], intent.bytes@, false, true)
            &&& names(proposing@[3], (p->0).0, false, true)
            &&& names(proposing@[4], system, false, false)
            &&& executing@.len() == 5 + remaining@.len()
            &&& names(executing@[0], wallet.bytes@, false, true)
            &&& names(executing@[1], (v->0).0, false, true)
            &&& names(executing@[2], intent.bytes@, false, true)
            &&& names(executing@[3], proposal.bytes@, false, true)
            &&& names(executing@[4], system, false, false)
            &&& 0 <= i < remaining@.len() ==> names(
                executing@[5 + i],
                remaining@[i].pubkey.bytes@,
                remaining@[i].is_signer,
                remaining@[i].is_writable,
            )
        }),
{
    lemma_named(proposing@, 0);
    lemma_named(proposing@, 1);
    lemma_named(proposing@, 2);
    lemma_named(proposing@, 3);
    lemma_named(proposing@, 4);
    lemma_named(executing@, 0);
    lemma_named(executing@, 1);
    lemma_named(executing@, 2);
    lemma_named(executing@, 3);
    lemma_named(executing@, 4);
    lemma_named(executing@, 5 + i);
    lemma_named(remaining@, i);
}

/// The data of a vote for Quasar are its number, 2 for an approval and 3 for a
/// cancellation, eight bytes of expiry, the voter's number and the 64 bytes of
/// the signature.
pub proof fn votes_are_sent_as_given(
    expiry: i64,
    index: u8,
    signature: [u8; 64],
    approval: Vec<u8>,
    cancellation: Vec<u8>,
)
    requires
        call_ensures(
            build_approve_data,
            (ProgramKind::Quasar, expiry, index, &signature),
            approval,
        ),
        call_ensures(
            build_cancel_data,
            (ProgramKind::Quasar, expiry, index, &signature),
            cancellation,
        ),
    ensures
        approval@.len() == 74,
        approval@[0] == 2,
        cancellation@[0] == 3,
        cancellation@.skip(1) == approval@.skip(1),
        le_value(approval@.subrange(1, 9)) == if expiry < 0 {
            expiry + 0x1_0000_0000_0000_0000
        } else {
            expiry as int
        },
        approval@[9] == index,
        approval@.subrange(10, 74) == signature@,
{
    crate::laws::client::quasar_discriminators_are_their_numbers();
    crate::laws::client::votes_are_written_in_order(expiry, index, signature@);
    let args = crate::client::vote_args(expiry, index, signature@);
    assert(approval@.skip(1) =~= args);
    assert(cancellation@.skip(1) =~= args);
    assert(approval@.subrange(1, 9) =~= args.subrange(0, 8));
    assert(approval@.subrange(10, 74) =~= args.subrange(9, 73));
}

/// Where the first program took anything, the second is better exactly where it
/// took less; where the first took nothing, exactly where the second did too.
pub proof fn better_is_smaller(anchor: u64, quasar: u64, loss: bool)
    requires
        call_ensures(no_better, (anchor, quasar), loss),
    ensures
        anchor > 0 ==> (loss <==> quasar >= anchor),
        anchor == 0 ==> (loss <==> quasar > 0),
{
}

} // verus!
