//! Laws on what a message shows: the parameters, the template, and the fixed
//! parts around them.
use crate::bytes::{i64_of_bits, le_value};
use crate::crypto::sha256_digest;
use crate::error::ProgramError;
use crate::laws::meaning::offchain_message_is_unambiguous;
use crate::laws::messages::every_message_has_the_format;
use crate::laws::numbers::{bytes_are_their_number, signed_decimals_are_unambiguous};
use crate::laws::parameters::parameters_lie_one_behind_the_other;
use crate::state::intent::{param_bytes, param_offset_of, Intent, IntentType};
use crate::text::{all_digits, decimal, decimal_value, hex, lemma_decimal_injective};
use crate::utils::base58::{base58, base58_is_unambiguous};
use crate::utils::datetime::timestamp_text;
use crate::utils::definition::{ParamEntry, ParamType};
use crate::utils::message::{
    closing_brace, content_text, draft, message_text, offchain_message, param_text,
    parsed_number, put, put_header, put_param, put_template, signed_decimal, signed_message,
    template_text, ContextView, Draft,
};
use vstd::prelude::*;
use vstd::string::StringSliceAdditionalSpecFns;
use vstd::utf8::valid_utf8;

verus! {

/// The text shown for a parameter comes from all of its bytes, the same that an
/// execution uses: numbers in decimal, addresses in base 58, flags as `true` or
/// `false`, and texts as they are.
pub proof fn parameters_are_shown_whole(
    params: Seq<ParamEntry>,
    data: Seq<u8>,
    k: int,
    bytes: Seq<u8>,
)
    requires
        0 <= k < params.len(),
        param_bytes(params, data, k) == Some(bytes),
    ensures
        match params[k].param_type {
            ParamType::U8
            | ParamType::U16
            | ParamType::U32
            | ParamType::U64
            | ParamType::U128 => param_text(params, data, k) == Ok::<Seq<u8>, ProgramError>(
                decimal(le_value(bytes)),
            ),
            ParamType::I64 => param_text(params, data, k) == Ok::<Seq<u8>, ProgramError>(
                signed_decimal(i64_of_bits(le_value(bytes))),
            ),
            ParamType::Address => param_text(params, data, k) == Ok::<Seq<u8>, ProgramError>(
                base58(bytes),
            ),
            ParamType::Bool => param_text(params, data, k) == Ok::<Seq<u8>, ProgramError>(
                if bytes[0] == 0 {
                    "false".spec_bytes()
                } else {
                    "true".spec_bytes()
                },
            ),
            ParamType::String => param_text(params, data, k) == if valid_utf8(bytes.skip(1)) {
                Ok::<Seq<u8>, ProgramError>(bytes.skip(1))
            } else {
                Err(ProgramError::InvalidInstructionData)
            },
        },
{
    parameters_lie_one_behind_the_other(params, data, k);
    let start = param_offset_of(params, data, k)->0;
    assert(bytes =~= data.subrange(start, start + bytes.len()));
    assert(bytes.skip(1) =~= data.subrange(start + 1, start + bytes.len()));
    if bytes.len() == 1 {
        reveal_with_fuel(le_value, 2);
        assert(bytes.drop_first().len() == 0);
    }
}

/// What can be shown can be read.
proof fn lemma_shown_is_there(params: Seq<ParamEntry>, data: Seq<u8>, k: int)
    requires
        0 <= k < params.len(),
        param_text(params, data, k) is Ok,
    ensures
        param_bytes(params, data, k) is Some,
{
}

/// What is shown is what is executed: two parameter data of which one parameter
/// reads alike have the same bytes for it, unless it is a flag, for which every
/// byte but zero reads `true`.
pub proof fn what_is_shown_is_what_is_executed(
    params: Seq<ParamEntry>,
    data1: Seq<u8>,
    data2: Seq<u8>,
    k: int,
)
    requires
        0 <= k < params.len(),
        params[k].param_type != ParamType::Bool,
        param_text(params, data1, k) is Ok,
        param_text(params, data1, k) == param_text(params, data2, k),
    ensures
        param_bytes(params, data1, k) is Some,
        param_bytes(params, data1, k) == param_bytes(params, data2, k),
{
    lemma_shown_is_there(params, data1, k);
    lemma_shown_is_there(params, data2, k);
    let a = param_bytes(params, data1, k)->0;
    let b = param_bytes(params, data2, k)->0;
    parameters_are_shown_whole(params, data1, k, a);
    parameters_are_shown_whole(params, data2, k, b);
    parameters_lie_one_behind_the_other(params, data1, k);
    parameters_lie_one_behind_the_other(params, data2, k);
    match params[k].param_type {
        ParamType::Address => {
            base58_is_unambiguous(a, b);
        },
        ParamType::String => {
            assert(a[0] == b[0]);
            assert(a =~= seq![a[0]] + a.skip(1));
            assert(b =~= seq![b[0]] + b.skip(1));
        },
        ParamType::I64 => {
            signed_decimals_are_unambiguous(i64_of_bits(le_value(a)), i64_of_bits(le_value(b)));
            crate::bytes::le_value_bound(a);
            crate::bytes::le_value_bound(b);
            crate::bytes::byte_capacities();
            bytes_are_their_number(a, b);
        },
        _ => {
            lemma_decimal_injective(le_value(a), le_value(b));
            bytes_are_their_number(a, b);
        },
    }
}

/// A template shows its letters as they are and, in place of `{k}`, the
/// parameter with number `k`, and then the rest: where `front` has no `{`, the
/// text of `front`, `{`, digits, `}` and `rest` is that of the front, the
/// parameter and the text of the rest. Numbers count modulo 256.
pub proof fn placeholders_are_filled_in(
    front: Seq<u8>,
    digits: Seq<u8>,
    rest: Seq<u8>,
    params: Seq<ParamEntry>,
    data: Seq<u8>,
    k: int,
)
    requires
        !front.contains(123),
        forall|i: int| 0 <= i < digits.len() ==> 48 <= #[trigger] digits[i] <= 57,
        decimal_value(digits) <= u64::MAX,
        k == decimal_value(digits) % 256,
    ensures
        template_text(front + seq![123u8] + digits + seq![125u8] + rest, params, data, 0)
            == match (param_text(params, data, k), template_text(rest, params, data, 0)) {
            (Ok(value), Some(behind)) => Some(front + value + behind),
            _ => None,
        },
{
    let hole = seq![123u8] + digits + seq![125u8];
    let whole = front + seq![123u8] + digits + seq![125u8] + rest;
    assert(whole =~= front + (hole + rest));
    lemma_front(front, hole + rest, params, data, 0);
    let t = hole + rest;
    assert(t[0] == 123);
    lemma_brace(t, 1, 1 + digits.len() as int);
    assert(t.subrange(1, 1 + digits.len() as int) =~= digits);
    assert(parsed_number(digits) == Some(decimal_value(digits)));
    lemma_shift(hole, rest, params, data, 0);
    match (param_text(params, data, k), template_text(rest, params, data, 0)) {
        (Ok(value), Some(behind)) => {
            assert(front + (value + behind) =~= front + value + behind);
            assert(front.skip(0) =~= front);
        },
        _ => {},
    }
}

/// The first closing brace is where there is none before.
proof fn lemma_brace(t: Seq<u8>, j: int, end: int)
    requires
        0 <= j <= end < t.len(),
        t[end] == 125,
        forall|i: int| j <= i < end ==> #[trigger] t[i] != 125,
    ensures
        closing_brace(t, j) == Some(end),
    decreases end - j,
{
    if j < end {
        assert(t[j] != 125);
        lemma_brace(t, j + 1, end);
    }
}

proof fn lemma_brace_shift(front: Seq<u8>, rest: Seq<u8>, j: int)
    requires
        0 <= j,
    ensures
        closing_brace(front + rest, front.len() + j) == match closing_brace(rest, j) {
            Some(end) => Some(front.len() + end),
            None => None::<int>,
        },
    decreases rest.len() - j,
{
    if j < rest.len() {
        assert((front + rest)[front.len() + j] == rest[j]);
        lemma_brace_shift(front, rest, j + 1);
    }
}

/// What stands before a position in a template does not matter from there on.
proof fn lemma_shift(
    front: Seq<u8>,
    rest: Seq<u8>,
    params: Seq<ParamEntry>,
    data: Seq<u8>,
    i: int,
)
    requires
        0 <= i,
    ensures
        template_text(front + rest, params, data, front.len() + i) == template_text(
            rest,
            params,
            data,
            i,
        ),
    decreases rest.len() - i,
{
    let t = front + rest;
    let at = front.len() + i;
    if i < rest.len() {
        assert(t[at] == rest[i]);
        if rest[i] == 123 {
            lemma_brace_shift(front, rest, i + 1);
            match closing_brace(rest, i + 1) {
                Some(end) => {
                    if i < end < rest.len() {
                        assert(t.subrange(at + 1, front.len() + end) =~= rest.subrange(
                            i + 1,
                            end,
                        ));
                        lemma_shift(front, rest, params, data, end + 1);
                        assert(front.len() + end + 1 == front.len() + (end + 1));
                    }
                },
                None => {},
            }
        } else {
            lemma_shift(front, rest, params, data, i + 1);
            assert(at + 1 == front.len() + (i + 1));
        }
    }
}

/// Letters in front of a template are shown as they are.
proof fn lemma_front(
    front: Seq<u8>,
    rest: Seq<u8>,
    params: Seq<ParamEntry>,
    data: Seq<u8>,
    i: int,
)
    requires
        0 <= i <= front.len(),
        !front.contains(123),
    ensures
        template_text(front + rest, params, data, i) == match template_text(
            rest,
            params,
            data,
            0,
        ) {
            Some(behind) => Some(front.skip(i) + behind),
            None => None::<Seq<u8>>,
        },
    decreases front.len() - i,
{
    let t = front + rest;
    if i < front.len() {
        assert(t[i] == front[i]);
        assert(front[i] != 123);
        lemma_front(front, rest, params, data, i + 1);
        match template_text(rest, params, data, 0) {
            Some(behind) => {
                assert(seq![front[i]] + (front.skip(i + 1) + behind) =~= front.skip(i) + behind);
            },
            None => {},
        }
    } else {
        lemma_shift(front, rest, params, data, 0);
        match template_text(rest, params, data, 0) {
            Some(behind) => {
                assert(front.skip(i) + behind =~= behind);
            },
            None => {},
        }
    }
}

/// A placeholder that is not closed, or that holds anything but digits, shows
/// nothing: there is no text.
pub proof fn broken_placeholders_show_nothing(
    front: Seq<u8>,
    inner: Seq<u8>,
    rest: Seq<u8>,
    params: Seq<ParamEntry>,
    data: Seq<u8>,
    i: int,
)
    requires
        !front.contains(123),
        !inner.contains(125),
        0 <= i < inner.len(),
        inner[i] < 48 || inner[i] > 57,
    ensures
        template_text(front + seq![123u8] + inner, params, data, 0) is None,
        template_text(front + seq![123u8] + inner + seq![125u8] + rest, params, data, 0) is None,
{
    let open = seq![123u8] + inner;
    assert(front + seq![123u8] + inner =~= front + open);
    lemma_front(front, open, params, data, 0);
    assert(open[0] == 123);
    assert forall|j: int| 1 <= j < open.len() implies #[trigger] open[j] != 125 by {
        assert(open[j] == inner[j - 1]);
    }
    lemma_no_brace(open, 1);
    let t = open + seq![125u8] + rest;
    assert(front + seq![123u8] + inner + seq![125u8] + rest =~= front + t);
    lemma_front(front, t, params, data, 0);
    assert(t[0] == 123);
    assert forall|j: int| 1 <= j < open.len() implies #[trigger] t[j] != 125 by {
        assert(t[j] == inner[j - 1]);
    }
    lemma_brace(t, 1, open.len() as int);
    assert(t.subrange(1, open.len() as int) =~= inner);
    assert(!crate::text::all_digits(inner));
}

proof fn lemma_no_brace(t: Seq<u8>, j: int)
    requires
        0 <= j,
        forall|i: int| j <= i < t.len() ==> #[trigger] t[i] != 125,
    ensures
        closing_brace(t, j) is None,
    decreases t.len() - j,
{
    if j < t.len() {
        assert(t[j] != 125);
        lemma_no_brace(t, j + 1);
    }
}

/// Messages of the same context are equal only where their contents are.
proof fn lemma_same_content(ctx: ContextView, a: Seq<u8>, b: Seq<u8>)
    requires
        message_text(ctx, a) == message_text(ctx, b),
    ensures
        a == b,
{
    let head = crate::utils::message::header_text(ctx);
    let tail = crate::utils::message::suffix_text(ctx.wallet_name, ctx.proposal_index);
    let t = message_text(ctx, a);
    let u = message_text(ctx, b);
    assert(t.len() == head.len() + a.len() + tail.len());
    assert(u.len() == head.len() + b.len() + tail.len());
    assert(a =~= t.subrange(head.len() as int, (head.len() + a.len()) as int));
    assert(b =~= u.subrange(head.len() as int, (head.len() + b.len()) as int));
}

/// Nobody signs one amount and executes another: where a template shows one
/// parameter that is no flag, two parameter data that differ in it never give
/// the same message.
pub proof fn messages_show_the_parameter(
    ctx: ContextView,
    intent: Intent,
    front: Seq<u8>,
    digits: Seq<u8>,
    rest: Seq<u8>,
    k: int,
    data1: Seq<u8>,
    data2: Seq<u8>,
)
    requires
        intent.intent_type == IntentType::Custom,
        intent.template_bytes() == Some(front + seq![123u8] + digits + seq![125u8] + rest),
        !front.contains(123),
        !rest.contains(123),
        forall|i: int| 0 <= i < digits.len() ==> 48 <= #[trigger] digits[i] <= 57,
        decimal_value(digits) <= u64::MAX,
        k == decimal_value(digits) % 256,
        k < intent.params@.len(),
        intent.params@[k].param_type != ParamType::Bool,
        param_bytes(intent.params@, data1, k) != param_bytes(intent.params@, data2, k),
        signed_message(ctx, intent, data1) is Ok,
    ensures
        signed_message(ctx, intent, data1) != signed_message(ctx, intent, data2),
{
    if signed_message(ctx, intent, data1) == signed_message(ctx, intent, data2) {
        every_message_has_the_format(ctx, intent, data1);
        every_message_has_the_format(ctx, intent, data2);
        let c1 = content_text(intent, data1)->0;
        let c2 = content_text(intent, data2)->0;
        offchain_message_is_unambiguous(message_text(ctx, c1), message_text(ctx, c2));
        lemma_same_content(ctx, c1, c2);
        placeholders_are_filled_in(front, digits, rest, intent.params@, data1, k);
        placeholders_are_filled_in(front, digits, rest, intent.params@, data2, k);
        crate::laws::parameters::plain_templates_are_shown_literally(
            rest,
            intent.params@,
            data1,
        );
        crate::laws::parameters::plain_templates_are_shown_literally(
            rest,
            intent.params@,
            data2,
        );
        let v1 = param_text(intent.params@, data1, k)->Ok_0;
        let v2 = param_text(intent.params@, data2, k)->Ok_0;
        assert(c1 == front + v1 + rest);
        assert(c2 == front + v2 + rest);
        assert(c1.len() == front.len() + v1.len() + rest.len());
        assert(c2.len() == front.len() + v2.len() + rest.len());
        assert(v1 =~= c1.subrange(front.len() as int, (front.len() + v1.len()) as int));
        assert(v2 =~= c2.subrange(front.len() as int, (front.len() + v2.len()) as int));
        what_is_shown_is_what_is_executed(intent.params@, data1, data2, k);
    }
}

/// The content of a message: for an added intent the hash of its definition,
/// for a removed one its index, for an updated one its index and the hash of
/// the new body, and for a custom intent its template, which lies in the byte
/// pool and is text, with the parameters filled in.
pub proof fn contents_say_what_is_done(intent: Intent, data: Seq<u8>)
    ensures
        intent.intent_type == IntentType::AddIntent ==> content_text(intent, data) == Some(
            "add intent definition_hash: ".spec_bytes() + hex(sha256_digest(data)),
        ),
        intent.intent_type == IntentType::RemoveIntent && data.len() == 1 ==> content_text(
            intent,
            data,
        ) == Some("remove intent ".spec_bytes() + decimal(data[0] as nat)),
        intent.intent_type == IntentType::RemoveIntent && data.len() != 1 ==> content_text(
            intent,
            data,
        ) is None,
        intent.intent_type == IntentType::UpdateIntent && data.len() > 1 ==> content_text(
            intent,
            data,
        ) == Some(
            "update intent ".spec_bytes() + decimal(data[0] as nat)
                + " definition_hash: ".spec_bytes() + hex(sha256_digest(data.skip(1))),
        ),
        intent.intent_type == IntentType::UpdateIntent && data.len() <= 1 ==> content_text(
            intent,
            data,
        ) is None,
        ({
            let start = intent.template_offset as int;
            let end = start + intent.template_len;
            let template = intent.byte_pool@.subrange(start, end);
            intent.intent_type == IntentType::Custom ==> content_text(intent, data) == if end
                <= intent.byte_pool@.len() && valid_utf8(template) {
                template_text(template, intent.params@, data, 0)
            } else {
                None
            }
        }),
{
}

/// A message reads `expires <ts>: <action> <content> | wallet: <name> proposal:
/// <index>`, behind a header of twenty bytes: the signing domain, two zeros and
/// the length of the text.
pub proof fn messages_have_their_fixed_parts(ctx: ContextView, content: Seq<u8>)
    ensures
        message_text(ctx, content) == "expires ".spec_bytes() + timestamp_text(ctx.expiry as int)
            + ": ".spec_bytes() + ctx.action + " ".spec_bytes() + content
            + " | wallet: ".spec_bytes() + ctx.wallet_name + " proposal: ".spec_bytes() + decimal(
            ctx.proposal_index as nat,
        ),
        ({
            let text = message_text(ctx, content);
            offchain_message(text) == seq![255u8] + "solana offchain".spec_bytes() + seq![
                0u8,
                0u8,
                (text.len() % 256) as u8,
                (text.len() / 256 % 256) as u8,
            ] + text
        }),
{
    let text = message_text(ctx, content);
    assert(text =~= "expires ".spec_bytes() + timestamp_text(ctx.expiry as int)
        + ": ".spec_bytes() + ctx.action + " ".spec_bytes() + content + " | wallet: ".spec_bytes()
        + ctx.wallet_name + " proposal: ".spec_bytes() + decimal(ctx.proposal_index as nat));
    reveal_strlit("solana offchain");
    vstd::utf8::is_ascii_chars_encode_utf8("solana offchain"@);
    assert(seq![255u8] + "solana offchain".spec_bytes()
        =~= crate::utils::message::offchain_domain());
    reveal_with_fuel(crate::bytes::le_bytes, 3);
    assert(crate::bytes::le_bytes(text.len(), 2) =~= seq![
        (text.len() % 256) as u8,
        (text.len() / 256 % 256) as u8,
    ]);
    assert(offchain_message(text) =~= seq![255u8] + "solana offchain".spec_bytes() + seq![
        0u8,
        0u8,
        (text.len() % 256) as u8,
        (text.len() / 256 % 256) as u8,
    ] + text);
}

/// A parameter that does not exist, whose place is not known, that is no valid
/// text, or that is a flag or a single byte beyond the data is malformed; any
/// other that reaches beyond the data stops the program.
pub proof fn parameters_fail_for_their_reasons(
    params: Seq<ParamEntry>,
    data: Seq<u8>,
    k: int,
    e: ProgramError,
)
    requires
        0 <= k,
        param_text(params, data, k) == Err::<Seq<u8>, ProgramError>(e),
    ensures
        k >= params.len() || param_bytes(params, data, k) is None || (params[k].param_type
            == ParamType::String && !valid_utf8(param_bytes(params, data, k)->0.skip(1))),
        e == if k >= params.len() || param_offset_of(params, data, k) is None
            || params[k].param_type == ParamType::Bool || params[k].param_type == ParamType::U8
            || (params[k].param_type == ParamType::String && param_bytes(params, data, k) is Some) {
            ProgramError::InvalidInstructionData
        } else {
            ProgramError::ProgramFailedToComplete
        },
{
    if k < params.len() {
        match param_bytes(params, data, k) {
            Some(bytes) => {
                parameters_are_shown_whole(params, data, k, bytes);
            },
            None => {},
        }
    }
}

/// An open placeholder, and one with anything but digits or a number beyond 64
/// bits, is malformed; one whose parameter cannot be shown fails as the parameter does.
pub proof fn placeholders_fail_for_their_reasons(
    bytes: Seq<u8>,
    template: Seq<u8>,
    params: Seq<ParamEntry>,
    data: Seq<u8>,
    i: int,
    end: int,
    e: ProgramError,
)
    requires
        0 <= i < end <= template.len(),
        template[i] == 123,
        forall|j: int| i < j < end ==> #[trigger] template[j] != 125,
    ensures
        end == template.len() ==> put_template(draft(bytes), template, params, data, i).error
            == Some(ProgramError::InvalidInstructionData),
        end < template.len() && template[end] == 125 && (exists|j: int|
            i < j < end && !(48 <= #[trigger] template[j] <= 57)) ==> put_template(
            draft(bytes),
            template,
            params,
            data,
            i,
        ).error == Some(ProgramError::InvalidInstructionData),
        end < template.len() && template[end] == 125 && decimal_value(
            template.subrange(i + 1, end),
        ) > u64::MAX ==> put_template(draft(bytes), template, params, data, i).error == Some(
            ProgramError::InvalidInstructionData,
        ),
        ({
            let digits = template.subrange(i + 1, end);
            end < template.len() && template[end] == 125 && (forall|j: int|
                i < j < end ==> 48 <= #[trigger] template[j] <= 57) && decimal_value(digits)
                <= u64::MAX && param_text(params, data, (decimal_value(digits) % 256) as int)
                == Err::<Seq<u8>, ProgramError>(e) ==> put_template(
                draft(bytes),
                template,
                params,
                data,
                i,
            ).error == Some(e)
        }),
{
    let digits = template.subrange(i + 1, end);
    if end == template.len() {
        lemma_no_brace(template, i + 1);
    } else if template[end] == 125 {
        lemma_brace(template, i + 1, end);
        if exists|j: int| i < j < end && !(48 <= #[trigger] template[j] <= 57) {
            let j = choose|j: int| i < j < end && !(48 <= #[trigger] template[j] <= 57);
            assert(digits[j - i - 1] == template[j]);
            assert(!all_digits(digits));
        } else {
            assert forall|j: int| 0 <= j < digits.len() implies 48 <= #[trigger] digits[j]
                <= 57 by {
                assert(digits[j] == template[i + 1 + j]);
            }
            assert(all_digits(digits));
            let k = (decimal_value(digits) % 256) as int;
            let next = put_param(draft(bytes), params, data, k);
            assert(next.error is Some ==> put_template(next, template, params, data, end + 1)
                == next);
            assert(param_text(params, data, k) is Err ==> next.error == Some(
                param_text(params, data, k)->Err_0,
            ));
        }
    }
}

/// Where a message cannot be made it is malformed, unless a parameter that it
/// shows stops the program.
pub proof fn messages_fail_for_their_reasons(
    ctx: ContextView,
    intent: Intent,
    data: Seq<u8>,
    e: ProgramError,
)
    requires
        signed_message(ctx, intent, data) == Err::<Seq<u8>, ProgramError>(e),
    ensures
        e == ProgramError::InvalidInstructionData || (intent.intent_type == IntentType::Custom
            && exists|k: int|
            0 <= k < 256 && #[trigger] param_text(intent.params@, data, k) == Err::<
                Seq<u8>,
                ProgramError,
            >(e)),
{
    let d = draft(Seq::new(20, |i: int| 0u8));
    match intent.intent_type {
        IntentType::AddIntent => {
            crate::laws::messages::add_message(d, ctx, sha256_digest(data));
        },
        IntentType::RemoveIntent => {
            if data.len() == 1 {
                crate::laws::messages::remove_message(d, ctx, data[0]);
            }
        },
        IntentType::UpdateIntent => {
            if data.len() > 1 {
                crate::laws::messages::update_message(
                    d,
                    ctx,
                    data[0],
                    sha256_digest(data.skip(1)),
                );
            }
        },
        IntentType::Custom => {
            let headed = put_header(d, ctx);
            match intent.template_bytes() {
                Some(template) => {
                    lemma_template_failure(headed, template, intent.params@, data, 0);
                },
                None => {},
            }
        },
    }
}

proof fn lemma_template_failure(
    d: Draft,
    template: Seq<u8>,
    params: Seq<ParamEntry>,
    data: Seq<u8>,
    i: int,
)
    requires
        0 <= i,
        d.error is Some ==> d.error->0 == ProgramError::InvalidInstructionData || (exists|k: int|
            0 <= k < 256 && #[trigger] param_text(params, data, k) == Err::<
                Seq<u8>,
                ProgramError,
            >(d.error->0)),
    ensures
        ({
            let r = put_template(d, template, params, data, i);
            r.error is Some ==> r.error->0 == ProgramError::InvalidInstructionData || (exists|
                k: int,
            |
                0 <= k < 256 && #[trigger] param_text(params, data, k) == Err::<
                    Seq<u8>,
                    ProgramError,
                >(r.error->0))
        }),
    decreases template.len() - i,
{
    if d.error is None && i < template.len() {
        if template[i] == 123 {
            match closing_brace(template, i + 1) {
                Some(end) => {
                    if i < end < template.len() {
                        match parsed_number(template.subrange(i + 1, end)) {
                            Some(n) => {
                                let k = (n % 256) as int;
                                let next = put_param(d, params, data, k);
                                assert(param_text(params, data, k) is Err ==> param_text(
                                    params,
                                    data,
                                    k,
                                ) == Err::<Seq<u8>, ProgramError>(next.error->0));
                                lemma_template_failure(next, template, params, data, end + 1);
                            },
                            None => {},
                        }
                    }
                },
                None => {},
            }
        } else {
            lemma_template_failure(put(d, seq![template[i]]), template, params, data, i + 1);
        }
    }
}

} // verus!
