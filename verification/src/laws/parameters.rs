//! Laws on parameters and templates.
use crate::address::Address;
use crate::bytes::le_value;
use crate::error::ProgramError;
use crate::instructions::propose::Propose;
use crate::state::intent::{
    checked_params, constraint_holds, param_bytes, param_offset_of, Intent, IntentType,
};
use crate::utils::definition::{param_size, ConstraintType, ParamEntry, ParamType};
use crate::utils::message::{
    closing_brace, draft, param_text, parsed_number, put, put_for_intent, put_header, put_param,
    put_template, signed_message, template_text, ContextView, Draft,
};
use vstd::prelude::*;
use vstd::utf8::valid_utf8;

verus! {

/// Where the parameters were checked, each starts where the check left off.
proof fn lemma_checked_offset(params: Seq<ParamEntry>, data: Seq<u8>, k: int, n: int)
    requires
        0 <= k <= n <= params.len(),
        checked_params(params, data, n) is Ok,
    ensures
        checked_params(params, data, k) is Ok,
        param_offset_of(params, data, k) == Some(checked_params(params, data, k)->Ok_0),
        0 <= checked_params(params, data, k)->Ok_0,
    decreases n,
{
    if k < n {
        lemma_checked_offset(params, data, k, n - 1);
    } else if k > 0 {
        lemma_checked_offset(params, data, k - 1, n - 1);
    }
}

/// Parameters that pass the check are all there: each can be read, and its
/// bytes are as many as its type takes.
pub proof fn checked_parameters_can_be_read(params: Seq<ParamEntry>, data: Seq<u8>, k: int)
    requires
        0 <= k < params.len(),
        checked_params(params, data, params.len() as int) is Ok,
    ensures
        param_bytes(params, data, k) is Some,
        param_offset_of(params, data, k) is Some,
        param_size(params[k].param_type, data, param_offset_of(params, data, k)->0) == Some(
            param_bytes(params, data, k)->0.len() as int,
        ),
{
    lemma_checked_offset(params, data, k, params.len() as int);
    lemma_checked_offset(params, data, k + 1, params.len() as int);
}

/// Numbers that pass the check meet the conditions of their parameters, and
/// texts are valid UTF-8.
pub proof fn checked_parameters_meet_their_conditions(
    params: Seq<ParamEntry>,
    data: Seq<u8>,
    k: int,
)
    requires
        0 <= k < params.len(),
        checked_params(params, data, params.len() as int) is Ok,
    ensures
        params[k].param_type == ParamType::U64 ==> constraint_holds(
            params[k],
            le_value(param_bytes(params, data, k)->0),
        ),
        params[k].param_type == ParamType::String ==> valid_utf8(
            param_bytes(params, data, k)->0.skip(1),
        ),
{
    lemma_checked_offset(params, data, k, params.len() as int);
    lemma_checked_offset(params, data, k + 1, params.len() as int);
    let offset = param_offset_of(params, data, k)->0;
    let bytes = param_bytes(params, data, k)->0;
    if params[k].param_type == ParamType::String {
        assert(bytes.skip(1) =~= data.subrange(offset + 1, offset + bytes.len()));
    }
}

/// The parameters lie one behind the other: the first at the start of the data,
/// each where the one before it ends, and each as long as its type takes.
pub proof fn parameters_lie_one_behind_the_other(params: Seq<ParamEntry>, data: Seq<u8>, k: int)
    requires
        0 <= k < params.len(),
        param_bytes(params, data, k) is Some,
    ensures
        param_offset_of(params, data, k) is Some,
        ({
            let start = param_offset_of(params, data, k)->0;
            let bytes = param_bytes(params, data, k)->0;
            &&& 0 <= start
            &&& start + bytes.len() <= data.len()
            &&& forall|i: int| 0 <= i < bytes.len() ==> #[trigger] bytes[i] == data[start + i]
            &&& k == 0 ==> start == 0
            &&& k > 0 ==> {
                &&& param_bytes(params, data, k - 1) is Some
                &&& param_offset_of(params, data, k - 1) is Some
                &&& start == param_offset_of(params, data, k - 1)->0 + param_bytes(
                    params,
                    data,
                    k - 1,
                )->0.len()
            }
            &&& bytes.len() == match params[k].param_type {
                ParamType::Address => 32int,
                ParamType::U64 | ParamType::I64 => 8,
                ParamType::String => 1 + bytes[0],
                ParamType::Bool | ParamType::U8 => 1,
                ParamType::U16 => 2,
                ParamType::U32 => 4,
                ParamType::U128 => 16,
            }
        }),
{
    lemma_offsets(params, data, k);
    if k > 0 {
        lemma_offsets(params, data, k - 1);
    }
}

proof fn lemma_offsets(params: Seq<ParamEntry>, data: Seq<u8>, k: int)
    ensures
        param_offset_of(params, data, k) is Some ==> 0 <= param_offset_of(params, data, k)->0,
    decreases k,
{
    if k > 0 {
        lemma_offsets(params, data, k - 1);
    }
}

/// A parameter can be read where the data reach to its end: that of the first
/// where the data are as long as its type takes, and that of another where the
/// one before it can be read and so many bytes follow.
pub proof fn parameters_that_are_there_can_be_read(
    params: Seq<ParamEntry>,
    data: Seq<u8>,
    k: int,
    start: int,
)
    requires
        0 <= k < params.len(),
        k == 0 ==> start == 0,
        k > 0 ==> param_bytes(params, data, k - 1) is Some && start == param_offset_of(
            params,
            data,
            k - 1,
        )->0 + param_bytes(params, data, k - 1)->0.len(),
        params[k].param_type == ParamType::String ==> start < data.len(),
        start + match params[k].param_type {
            ParamType::Address => 32int,
            ParamType::U64 | ParamType::I64 => 8,
            ParamType::String => 1 + data[start],
            ParamType::Bool | ParamType::U8 => 1,
            ParamType::U16 => 2,
            ParamType::U32 => 4,
            ParamType::U128 => 16,
        } <= data.len(),
    ensures
        param_bytes(params, data, k) is Some,
        param_offset_of(params, data, k) == Some(start),
{
    if k > 0 {
        parameters_lie_one_behind_the_other(params, data, k - 1);
    }
}

/// A proposal for a custom intent keeps the limits: the number that the bytes
/// of each limited parameter denote is smaller, or greater, than its limit.
pub proof fn proposals_keep_the_limits(
    before: Propose,
    after: Propose,
    proposal_index: u64,
    expiry: i64,
    proposer: Address,
    signature: Seq<u8>,
    params_data: Seq<u8>,
    bump: u8,
    now: i64,
    r: Result<(), ProgramError>,
    k: int,
)
    requires
        before.intent.data.intent_type == IntentType::Custom,
        after.proposal_outcome(
            before,
            proposal_index,
            expiry,
            proposer,
            signature,
            params_data,
            bump,
            now,
            r,
        ),
        r is Ok,
        0 <= k < before.intent.data.params@.len(),
    ensures
        after.proposal.data.params_data@ == params_data,
        param_bytes(before.intent.data.params@, params_data, k) is Some,
        ({
            let param = before.intent.data.params@[k];
            let bytes = param_bytes(before.intent.data.params@, params_data, k)->0;
            &&& param.param_type == ParamType::U64 && param.constraint_type
                == ConstraintType::LessThanU64 ==> le_value(bytes) < param.constraint_value
            &&& param.param_type == ParamType::U64 && param.constraint_type
                == ConstraintType::GreaterThanU64 ==> le_value(bytes) > param.constraint_value
            &&& param.param_type == ParamType::String ==> valid_utf8(bytes.skip(1))
        }),
{
    let params = before.intent.data.params@;
    checked_parameters_can_be_read(params, params_data, k);
    checked_parameters_meet_their_conditions(params, params_data, k);
}

/// Parameters are not refused without reason: where each is there, each limited
/// number is on the right side of its limit and each text is valid UTF-8, they
/// pass the check.
pub proof fn parameters_within_their_limits_pass(params: Seq<ParamEntry>, data: Seq<u8>, n: int)
    requires
        0 <= n <= params.len(),
        forall|k: int|
            #![trigger params[k]]
            0 <= k < n ==> {
                let bytes = param_bytes(params, data, k)->0;
                &&& param_bytes(params, data, k) is Some
                &&& params[k].param_type == ParamType::U64 && params[k].constraint_type
                    == ConstraintType::LessThanU64 ==> le_value(bytes) < params[k].constraint_value
                &&& params[k].param_type == ParamType::U64 && params[k].constraint_type
                    == ConstraintType::GreaterThanU64 ==> le_value(bytes)
                    > params[k].constraint_value
                &&& params[k].param_type == ParamType::String ==> valid_utf8(bytes.skip(1))
            },
    ensures
        checked_params(params, data, n) is Ok,
        n > 0 ==> checked_params(params, data, n)->Ok_0 == param_offset_of(params, data, n - 1)->0
            + param_bytes(params, data, n - 1)->0.len(),
    decreases n,
{
    if n > 0 {
        parameters_within_their_limits_pass(params, data, n - 1);
        let k = n - 1;
        assert(param_bytes(params, data, k) is Some) by {
            assert(params[k] == params[k]);
        }
        parameters_lie_one_behind_the_other(params, data, k);
        let start = param_offset_of(params, data, k)->0;
        let bytes = param_bytes(params, data, k)->0;
        assert(bytes =~= data.subrange(start, start + bytes.len()));
        assert(bytes.skip(1) =~= data.subrange(start + 1, start + bytes.len()));
    }
}

/// A number on the wrong side of its limit is refused as an invalid argument,
/// where the parameters before it pass the check.
pub proof fn numbers_beyond_their_limits_are_refused(
    params: Seq<ParamEntry>,
    data: Seq<u8>,
    k: int,
)
    requires
        0 <= k < params.len(),
        checked_params(params, data, k) is Ok,
        param_bytes(params, data, k) is Some,
        params[k].param_type == ParamType::U64,
        (params[k].constraint_type == ConstraintType::LessThanU64 && le_value(
            param_bytes(params, data, k)->0,
        ) >= params[k].constraint_value) || (params[k].constraint_type
            == ConstraintType::GreaterThanU64 && le_value(param_bytes(params, data, k)->0)
            <= params[k].constraint_value),
    ensures
        checked_params(params, data, params.len() as int) == Err::<int, ProgramError>(
            ProgramError::InvalidArgument,
        ),
{
    lemma_checked_offset(params, data, k, k);
    lemma_refused(params, data, k + 1, params.len() as int);
}

/// A parameter that is not there, or a text that is not valid UTF-8, is refused
/// as malformed, where the parameters before it pass the check.
pub proof fn malformed_parameters_are_refused(params: Seq<ParamEntry>, data: Seq<u8>, k: int)
    requires
        0 <= k < params.len(),
        checked_params(params, data, k) is Ok,
        param_bytes(params, data, k) is None || (params[k].param_type == ParamType::String
            && !valid_utf8(param_bytes(params, data, k)->0.skip(1))),
    ensures
        checked_params(params, data, params.len() as int) == Err::<int, ProgramError>(
            ProgramError::InvalidInstructionData,
        ),
{
    lemma_checked_offset(params, data, k, k);
    let start = param_offset_of(params, data, k)->0;
    match param_bytes(params, data, k) {
        Some(bytes) => {
            assert(bytes.skip(1) =~= data.subrange(start + 1, start + bytes.len()));
        },
        None => {},
    }
    lemma_refused(params, data, k + 1, params.len() as int);
}

proof fn lemma_refused(params: Seq<ParamEntry>, data: Seq<u8>, k: int, n: int)
    requires
        0 <= k <= n <= params.len(),
        checked_params(params, data, k) is Err,
    ensures
        checked_params(params, data, n) == checked_params(params, data, k),
    decreases n,
{
    if k < n {
        lemma_refused(params, data, k, n - 1);
    }
}

/// A proposal for a custom intent is only made with parameters that pass the
/// check.
pub proof fn custom_proposals_have_checked_parameters(
    before: Propose,
    after: Propose,
    proposal_index: u64,
    expiry: i64,
    proposer: Address,
    signature: Seq<u8>,
    params_data: Seq<u8>,
    bump: u8,
    now: i64,
    r: Result<(), ProgramError>,
)
    requires
        before.intent.data.intent_type == IntentType::Custom,
        after.proposal_outcome(
            before,
            proposal_index,
            expiry,
            proposer,
            signature,
            params_data,
            bump,
            now,
            r,
        ),
        r is Ok,
    ensures
        checked_params(
            after.intent.data.params@,
            after.proposal.data.params_data@,
            after.intent.data.params@.len() as int,
        ) is Ok,
{
}

/// Parameters that pass the check never stop the program when they are shown.
proof fn lemma_param_renders(d: Draft, params: Seq<ParamEntry>, data: Seq<u8>, k: int)
    requires
        0 <= k,
        checked_params(params, data, params.len() as int) is Ok,
        d.error != Some(ProgramError::ProgramFailedToComplete),
    ensures
        put_param(d, params, data, k).error != Some(ProgramError::ProgramFailedToComplete),
{
    if k < params.len() {
        lemma_checked_offset(params, data, k, params.len() as int);
        lemma_checked_offset(params, data, k + 1, params.len() as int);
    }
}

proof fn lemma_template_renders(
    d: Draft,
    template: Seq<u8>,
    params: Seq<ParamEntry>,
    data: Seq<u8>,
    i: int,
)
    requires
        0 <= i,
        checked_params(params, data, params.len() as int) is Ok,
        d.error != Some(ProgramError::ProgramFailedToComplete),
    ensures
        put_template(d, template, params, data, i).error != Some(
            ProgramError::ProgramFailedToComplete,
        ),
    decreases template.len() - i,
{
    if d.error is Some || i >= template.len() {
    } else if template[i] == 123 {
        match closing_brace(template, i + 1) {
            None => {},
            Some(end) => {
                if i < end < template.len() {
                    match parsed_number(template.subrange(i + 1, end)) {
                        None => {},
                        Some(n) => {
                            let k = (n % 256) as int;
                            lemma_param_renders(d, params, data, k);
                            lemma_template_renders(
                                put_param(d, params, data, k),
                                template,
                                params,
                                data,
                                end + 1,
                            );
                        },
                    }
                }
            },
        }
    } else {
        lemma_template_renders(put(d, seq![template[i]]), template, params, data, i + 1);
    }
}

/// A proposal whose parameters pass the check never stops the program when its
/// message is written: there is a message, or the text is refused.
pub proof fn checked_parameters_never_stop_the_program(
    ctx: ContextView,
    intent: Intent,
    data: Seq<u8>,
)
    requires
        checked_params(intent.params@, data, intent.params@.len() as int) is Ok,
    ensures
        signed_message(ctx, intent, data) != Err::<Seq<u8>, ProgramError>(
            ProgramError::ProgramFailedToComplete,
        ),
{
    let d = draft(Seq::new(20, |i: int| 0u8));
    match intent.intent_type {
        IntentType::Custom => {
            let headed = put_header(d, ctx);
            match intent.template_bytes() {
                Some(template) => {
                    lemma_template_renders(headed, template, intent.params@, data, 0);
                },
                None => {},
            }
        },
        _ => {
            lemma_meta_messages(d, ctx, intent, data);
        },
    }
}

proof fn lemma_meta_messages(d: Draft, ctx: ContextView, intent: Intent, data: Seq<u8>)
    requires
        d.error is None,
        intent.intent_type != IntentType::Custom,
    ensures
        put_for_intent(d, ctx, intent, data).error != Some(ProgramError::ProgramFailedToComplete),
{
    match intent.intent_type {
        IntentType::AddIntent => {
            crate::laws::messages::add_message(d, ctx, crate::crypto::sha256_digest(data));
        },
        IntentType::RemoveIntent => {
            if data.len() == 1 {
                crate::laws::messages::remove_message(d, ctx, data[0]);
            }
        },
        IntentType::UpdateIntent => {
            if data.len() > 1 {
                crate::laws::messages::update_message(
                    d,
                    ctx,
                    data[0],
                    crate::crypto::sha256_digest(data.skip(1)),
                );
            }
        },
        IntentType::Custom => {},
    }
}

/// A template without placeholders is shown as it is.
pub proof fn plain_templates_are_shown_literally(
    template: Seq<u8>,
    params: Seq<ParamEntry>,
    data: Seq<u8>,
)
    requires
        !template.contains(123),
    ensures
        template_text(template, params, data, 0) == Some(template),
{
    lemma_plain_template(template, params, data, 0);
    assert(template.skip(0) =~= template);
}

proof fn lemma_plain_template(template: Seq<u8>, params: Seq<ParamEntry>, data: Seq<u8>, i: int)
    requires
        0 <= i <= template.len(),
        !template.contains(123),
    ensures
        template_text(template, params, data, i) == Some(template.skip(i)),
    decreases template.len() - i,
{
    if i < template.len() {
        assert(template[i] != 123);
        lemma_plain_template(template, params, data, i + 1);
        assert(seq![template[i]] + template.skip(i + 1) =~= template.skip(i));
    } else {
        assert(template.skip(i) =~= Seq::empty());
    }
}

/// Parameters that pass the check can be shown, each of them.
pub proof fn checked_parameters_can_be_shown(params: Seq<ParamEntry>, data: Seq<u8>, k: int)
    requires
        0 <= k < params.len(),
        checked_params(params, data, params.len() as int) is Ok,
    ensures
        param_text(params, data, k) is Ok,
{
    lemma_checked_offset(params, data, k, params.len() as int);
    lemma_checked_offset(params, data, k + 1, params.len() as int);
}

} // verus!
